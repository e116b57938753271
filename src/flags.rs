//! The per-test flag file: one compiler flag per line, blank lines ignored.
use vstd::prelude::*;
use crate::views;
use vstd::string::StrSliceExecFns;

verus! {

/// The pieces of `s` between newline characters, in order. A text without
/// newlines is one piece; a trailing newline ends with an empty piece.
pub open spec fn lines_of(s: Seq<char>) -> Seq<Seq<char>>
    decreases s.len(),
{
    if s.len() == 0 {
        seq![Seq::<char>::empty()]
    } else {
        let p = lines_of(s.drop_last());
        if s.last() == '\n' {
            p.push(Seq::<char>::empty())
        } else {
            p.update(p.len() - 1, p.last().push(s.last()))
        }
    }
}

/// `s` with leading and trailing whitespace removed, as `str::trim` does it.
pub uninterp spec fn trim_of(s: Seq<char>) -> Seq<char>;

/// Relies on `str::trim`: the result is the input without the leading and
/// trailing whitespace, which depends on the characters alone; an empty
/// string stays empty.
#[verifier::external_body]
fn trim(s: &str) -> (r: &str)
    ensures
        r@ == trim_of(s@),
        s@.len() == 0 ==> r@.len() == 0,
{
    s.trim()
}

/// The non-empty items of `ls`, in order.
pub open spec fn nonempty_of(ls: Seq<Seq<char>>) -> Seq<Seq<char>>
    decreases ls.len(),
{
    if ls.len() == 0 {
        seq![]
    } else if ls.last().len() == 0 {
        nonempty_of(ls.drop_last())
    } else {
        nonempty_of(ls.drop_last()).push(ls.last())
    }
}

/// The flags that a flag file with text `s` adds: each line trimmed, blank
/// lines dropped, in file order.
pub open spec fn flags_of(s: Seq<char>) -> Seq<Seq<char>> {
    nonempty_of(lines_of(s).map_values(|l: Seq<char>| trim_of(l)))
}

proof fn lemma_lines_nonempty(s: Seq<char>)
    ensures
        lines_of(s).len() >= 1,
    decreases s.len(),
{
    if s.len() > 0 {
        lemma_lines_nonempty(s.drop_last());
    }
}

/// Splits `text` at each newline.
pub fn split_lines(text: &str) -> (r: Vec<String>)
    ensures
        views(r@) == lines_of(text@),
{
    let n = text.unicode_len();
    let mut r: Vec<String> = Vec::new();
    let mut start: usize = 0;
    let mut i: usize = 0;
    proof {
        assert(text@.subrange(0, 0) =~= Seq::<char>::empty());
        assert(lines_of(text@.subrange(0, 0)) == seq![Seq::<char>::empty()]);
        assert(views(r@) =~= Seq::<Seq<char>>::empty());
        assert(views(r@).push(text@.subrange(0, 0)) =~= lines_of(text@.subrange(0, 0)));
    }
    while i < n
        invariant
            n == text@.len(),
            start <= i <= n,
            views(r@).push(text@.subrange(start as int, i as int)) == lines_of(
                text@.subrange(0, i as int),
            ),
        decreases n - i,
    {
        let c = text.get_char(i);
        let ghost pre = text@.subrange(0, i as int);
        let ghost piece = text@.subrange(start as int, i as int);
        let ghost before = views(r@);
        proof {
            assert(text@.subrange(0, i + 1).drop_last() =~= pre);
            lemma_lines_nonempty(pre);
        }
        if c == '\n' {
            r.push(text.substring_char(start, i).to_owned());
            i += 1;
            start = i;
            proof {
                assert(views(r@) =~= before.push(piece));
                assert(text@.subrange(start as int, i as int) =~= Seq::<char>::empty());
            }
        } else {
            i += 1;
            proof {
                assert(text@.subrange(start as int, i as int) =~= piece.push(c));
                assert(views(r@).push(text@.subrange(start as int, i as int)) =~= lines_of(
                    text@.subrange(0, i as int),
                ));
            }
        }
    }
    r.push(text.substring_char(start, n).to_owned());
    proof {
        assert(text@.subrange(0, n as int) =~= text@);
    }
    r
}

/// Trims every line.
pub fn trim_lines(lines: &Vec<String>) -> (r: Vec<String>)
    ensures
        views(r@) == views(lines@).map_values(|l: Seq<char>| trim_of(l)),
{
    let mut r: Vec<String> = Vec::new();
    let mut i: usize = 0;
    while i < lines.len()
        invariant
            i <= lines@.len(),
            views(r@) =~= views(lines@.subrange(0, i as int)).map_values(
                |l: Seq<char>| trim_of(l),
            ),
        decreases lines@.len() - i,
    {
        let t = trim(lines[i].as_str()).to_owned();
        let ghost before = views(r@);
        r.push(t);
        proof {
            assert(views(r@) =~= before.push(trim_of(lines@[i as int]@)));
            assert(views(lines@.subrange(0, i + 1)) =~= views(lines@.subrange(0, i as int)).push(
                lines@[i as int]@,
            ));
        }
        i += 1;
    }
    assert(lines@.subrange(0, lines@.len() as int) =~= lines@);
    r
}

/// Keeps the non-empty lines of already trimmed `lines`, in order.
pub fn nonempty_flags(lines: &Vec<String>) -> (r: Vec<String>)
    ensures
        views(r@) == nonempty_of(views(lines@)),
{
    let mut r: Vec<String> = Vec::new();
    let mut i: usize = 0;
    while i < lines.len()
        invariant
            i <= lines@.len(),
            views(r@) == nonempty_of(views(lines@.subrange(0, i as int))),
        decreases lines@.len() - i,
    {
        let ghost pre = views(lines@.subrange(0, i as int));
        proof {
            assert(views(lines@.subrange(0, i + 1)).drop_last() =~= pre);
            assert(views(lines@.subrange(0, i + 1)).last() == lines@[i as int]@);
        }
        if !lines[i].as_str().is_empty() {
            r.push(lines[i].clone());
            proof {
                assert(views(r@) =~= nonempty_of(pre).push(lines@[i as int]@));
            }
        }
        i += 1;
    }
    assert(lines@.subrange(0, lines@.len() as int) =~= lines@);
    r
}

/// The flags held by a flag file with text `text`: each line trimmed, blank
/// lines dropped, in file order.
pub fn parse_flags(text: &str) -> (r: Vec<String>)
    ensures
        views(r@) == flags_of(text@),
{
    let lines = split_lines(text);
    let trimmed = trim_lines(&lines);
    nonempty_flags(&trimmed)
}

} // verus!
