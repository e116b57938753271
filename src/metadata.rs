//! Names of the variables through which dependencies pass metadata to the
//! build scripts of their dependents.
use vstd::prelude::*;
use vstd::string::{StrSliceExecFns, StringExecFns};

verus! {

/// `c` as it stands in a metadata variable name: ASCII letters upper-cased,
/// `-` turned into `_`, anything else kept.
pub open spec fn name_char(c: char) -> char {
    if 'a' <= c && c <= 'z' {
        ((c as u32) - 32) as char
    } else if c == '-' {
        '_'
    } else {
        c
    }
}

pub open spec fn name_part(s: Seq<char>) -> Seq<char> {
    s.map_values(|c: char| name_char(c))
}

/// The variable that holds the value under `key` of dependency `dep`:
/// `DEP_<DEP>_<KEY>`.
pub open spec fn dep_var(dep: Seq<char>, key: Seq<char>) -> Seq<char> {
    "DEP_"@ + name_part(dep) + "_"@ + name_part(key)
}

/// Relies on `String::push`: the character is appended.
#[verifier::external_body]
fn push_char(s: &mut String, c: char)
    ensures
        final(s)@ == old(s)@.push(c),
{
    s.push(c);
}

/// Relies on `char::to_ascii_uppercase`: `a` to `z` become `A` to `Z`,
/// every other character is kept.
#[verifier::external_body]
fn ascii_upper(c: char) -> (r: char)
    ensures
        r == (if 'a' <= c && c <= 'z' {
            ((c as u32) - 32) as char
        } else {
            c
        }),
{
    c.to_ascii_uppercase()
}

fn name_char_exec(c: char) -> (r: char)
    ensures
        r == name_char(c),
{
    if c == '-' {
        '_'
    } else if c == '-' {
        '_'
    } else {
        ascii_upper(c)
    }
}

fn append_name_part(out: &mut String, s: &str)
    ensures
        final(out)@ == old(out)@ + name_part(s@),
{
    let n = s.unicode_len();
    let mut i: usize = 0;
    while i < n
        invariant
            n == s@.len(),
            i <= n,
            out@ == old(out)@ + name_part(s@.subrange(0, i as int)),
        decreases n - i,
    {
        let c = name_char_exec(s.get_char(i));
        push_char(out, c);
        proof {
            assert(name_part(s@.subrange(0, i + 1)) =~= name_part(s@.subrange(0, i as int)).push(
                c,
            ));
        }
        i += 1;
    }
    assert(s@.subrange(0, n as int) =~= s@);
}

/// The name of the variable that holds the value under `key` exported by the
/// dependency `dep`.
pub fn dep_var_name(dep: &str, key: &str) -> (r: String)
    ensures
        r@ == dep_var(dep@, key@),
{
    let mut r = String::from_str("DEP_");
    append_name_part(&mut r, dep);
    r.append("_");
    append_name_part(&mut r, key);
    proof {
        assert(r@ =~= dep_var(dep@, key@));
    }
    r
}

} // verus!
