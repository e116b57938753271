//! Classification of the entries met while walking a C source tree.
use vstd::prelude::*;
use crate::views;
use vstd::string::StrSliceExecFns;

verus! {

/// What a walked path turned out to be on disk.
#[derive(Clone, Copy, Debug, PartialEq, Eq, Structural)]
pub enum EntryKind {
    File,
    Dir,
    Other,
}

/// One path met by the walk, with its kind.
#[derive(Debug)]
pub struct Entry {
    pub path: String,
    pub kind: EntryKind,
}

/// The result of scanning one tree.
pub struct CSrcDir {
    /// The `.c` files, in walk order.
    pub sources: Vec<String>,
    /// The root, then every directory met, in walk order.
    pub include_dirs: Vec<String>,
    /// The paths to watch for changes, in the order they are announced.
    pub watched: Vec<String>,
}

/// The file name at the end of `p` has a non-empty stem and the extension `x`
/// (a single character), i.e. `p` ends in `<stem>.x`.
pub open spec fn has_ext(p: Seq<char>, x: char) -> bool {
    &&& p.len() >= 3
    &&& p[p.len() - 1] == x
    &&& p[p.len() - 2] == '.'
    &&& p[p.len() - 3] != '/'
}

pub open spec fn is_c_source(e: Entry) -> bool {
    e.kind == EntryKind::File && has_ext(e.path@, 'c')
}

pub open spec fn is_header(e: Entry) -> bool {
    e.kind == EntryKind::File && has_ext(e.path@, 'h')
}

pub open spec fn is_tracked(e: Entry) -> bool {
    is_c_source(e) || is_header(e) || e.kind == EntryKind::Dir
}

/// Paths of the `.c` files among `es`, in order.
pub open spec fn sources_of(es: Seq<Entry>) -> Seq<Seq<char>>
    decreases es.len(),
{
    if es.len() == 0 {
        seq![]
    } else {
        let rest = sources_of(es.drop_last());
        if is_c_source(es.last()) {
            rest.push(es.last().path@)
        } else {
            rest
        }
    }
}

/// Paths of the directories among `es`, in order.
pub open spec fn dirs_of(es: Seq<Entry>) -> Seq<Seq<char>>
    decreases es.len(),
{
    if es.len() == 0 {
        seq![]
    } else {
        let rest = dirs_of(es.drop_last());
        if es.last().kind == EntryKind::Dir {
            rest.push(es.last().path@)
        } else {
            rest
        }
    }
}

/// Paths of the `.c` files, headers and directories among `es`, in order.
pub open spec fn watched_of(es: Seq<Entry>) -> Seq<Seq<char>>
    decreases es.len(),
{
    if es.len() == 0 {
        seq![]
    } else {
        let rest = watched_of(es.drop_last());
        if is_tracked(es.last()) {
            rest.push(es.last().path@)
        } else {
            rest
        }
    }
}

fn has_ext_exec(p: &str, x: char) -> (r: bool)
    ensures
        r == has_ext(p@, x),
{
    let n = p.unicode_len();
    if n < 3 {
        return false;
    }
    p.get_char(n - 1) == x && p.get_char(n - 2) == '.' && p.get_char(n - 3) != '/'
}

/// Sorts the walked entries under `root` into sources and include
/// directories, and lists what must be watched: the root first, then each
/// `.c` file, header and directory in walk order.
pub fn c_src_dir(root: &str, entries: &Vec<Entry>) -> (r: CSrcDir)
    ensures
        views(r.sources@) == sources_of(entries@),
        views(r.include_dirs@) == seq![root@] + dirs_of(entries@),
        views(r.watched@) == seq![root@] + watched_of(entries@),
{
    let mut sources: Vec<String> = Vec::new();
    let mut include_dirs: Vec<String> = Vec::new();
    let mut watched: Vec<String> = Vec::new();
    include_dirs.push(root.to_owned());
    watched.push(root.to_owned());
    let mut i: usize = 0;
    while i < entries.len()
        invariant
            i <= entries@.len(),
            views(sources@) == sources_of(entries@.subrange(0, i as int)),
            views(include_dirs@) == seq![root@] + dirs_of(entries@.subrange(0, i as int)),
            views(watched@) == seq![root@] + watched_of(entries@.subrange(0, i as int)),
        decreases entries@.len() - i,
    {
        let e = &entries[i];
        let ghost pre = entries@.subrange(0, i as int);
        let ghost old_dirs = views(include_dirs@);
        let ghost old_watched = views(watched@);
        proof {
            assert(entries@.subrange(0, i + 1).drop_last() =~= pre);
        }
        match e.kind {
            EntryKind::File => {
                if has_ext_exec(e.path.as_str(), 'c') {
                    watched.push(e.path.clone());
                    sources.push(e.path.clone());
                } else if has_ext_exec(e.path.as_str(), 'h') {
                    watched.push(e.path.clone());
                }
            },
            EntryKind::Dir => {
                watched.push(e.path.clone());
                include_dirs.push(e.path.clone());
            },
            EntryKind::Other => {},
        }
        i += 1;
        proof {
            assert(views(sources@) =~= sources_of(entries@.subrange(0, i as int)));
            let cur = entries@.subrange(0, i as int);
            assert(cur.last() == *e);
            if e.kind == EntryKind::Dir {
                assert(views(include_dirs@) =~= old_dirs.push(e.path@));
                assert(seq![root@] + dirs_of(cur) =~= (seq![root@] + dirs_of(pre)).push(e.path@));
            } else {
                assert(views(include_dirs@) =~= old_dirs);
            }
            if is_tracked(*e) {
                assert(views(watched@) =~= old_watched.push(e.path@));
                assert(seq![root@] + watched_of(cur) =~= (seq![root@] + watched_of(pre)).push(e.path@));
            } else {
                assert(views(watched@) =~= old_watched);
            }
            assert(views(include_dirs@) =~= seq![root@] + dirs_of(cur));
            assert(views(watched@) =~= seq![root@] + watched_of(cur));
        }
    }
    assert(entries@.subrange(0, entries@.len() as int) =~= entries@);
    CSrcDir { sources, include_dirs, watched }
}

proof fn lemma_watched_members(es: Seq<Entry>)
    ensures
        forall|p: Seq<char>|
            watched_of(es).contains(p) <==> exists|j: int|
                0 <= j < es.len() && is_tracked(es[j]) && es[j].path@ == p,
    decreases es.len(),
{
    if es.len() > 0 {
        lemma_watched_members(es.drop_last());
        assert forall|p: Seq<char>|
            watched_of(es).contains(p) <==> exists|j: int|
                0 <= j < es.len() && is_tracked(es[j]) && es[j].path@ == p by {
            if watched_of(es).contains(p) && !(is_tracked(es.last()) && es.last().path@ == p) {
                assert(watched_of(es.drop_last()).contains(p)) by {
                    if is_tracked(es.last()) {
                        let k = watched_of(es).index_of(p);
                        assert(watched_of(es.drop_last())[k] == p);
                    }
                }
                let j = choose|j: int|
                    0 <= j < es.len() - 1 && is_tracked(es.drop_last()[j])
                        && es.drop_last()[j].path@ == p;
                assert(es[j] == es.drop_last()[j]);
            }
            if exists|j: int| 0 <= j < es.len() && is_tracked(es[j]) && es[j].path@ == p {
                let j = choose|j: int| 0 <= j < es.len() && is_tracked(es[j]) && es[j].path@ == p;
                if j < es.len() - 1 {
                    assert(es.drop_last()[j] == es[j]);
                    assert(watched_of(es.drop_last()).contains(p));
                    let k = watched_of(es.drop_last()).index_of(p);
                    if is_tracked(es.last()) {
                        assert(watched_of(es)[k] == p);
                    }
                } else {
                    assert(watched_of(es).last() == p);
                }
            }
        }
    }
}

/// Every path met by the walk that is a `.c` file, a header or a directory
/// is announced for watching, together with the root, and nothing else is.
pub proof fn lemma_traversal_complete(root: Seq<char>, es: Seq<Entry>)
    ensures
        (seq![root] + watched_of(es)).to_set() == Set::new(
            |p: Seq<char>|
                p == root || exists|j: int|
                    0 <= j < es.len() && is_tracked(es[j]) && es[j].path@ == p,
        ),
{
    lemma_watched_members(es);
    let all = seq![root] + watched_of(es);
    assert forall|p: Seq<char>| all.contains(p) <==> (p == root || watched_of(es).contains(p)) by {
        if all.contains(p) && p != root {
            let k = all.index_of(p);
            assert(watched_of(es)[k - 1] == p);
        }
        if watched_of(es).contains(p) {
            let k = watched_of(es).index_of(p);
            assert(all[k + 1] == p);
        }
        if p == root {
            assert(all[0] == p);
        }
    }
    assert(all.to_set() =~= Set::new(
        |p: Seq<char>|
            p == root || exists|j: int|
                0 <= j < es.len() && is_tracked(es[j]) && es[j].path@ == p,
    ));
}

/// Each listed source is the path of a walked `.c` file.
pub proof fn lemma_sources_are_c_files(es: Seq<Entry>)
    ensures
        forall|i: int|
            0 <= i < sources_of(es).len() ==> has_ext(#[trigger] sources_of(es)[i], 'c')
                && exists|j: int|
                0 <= j < es.len() && is_c_source(es[j]) && es[j].path@ == sources_of(es)[i],
    decreases es.len(),
{
    if es.len() > 0 {
        let rest = es.drop_last();
        lemma_sources_are_c_files(rest);
        assert forall|i: int| 0 <= i < sources_of(es).len() implies has_ext(
            #[trigger] sources_of(es)[i],
            'c',
        ) && exists|j: int|
            0 <= j < es.len() && is_c_source(es[j]) && es[j].path@ == sources_of(es)[i] by {
            if i < sources_of(rest).len() {
                assert(sources_of(es)[i] == sources_of(rest)[i]);
                let j = choose|j: int|
                    0 <= j < rest.len() && is_c_source(rest[j]) && rest[j].path@ == sources_of(
                        rest,
                    )[i];
                assert(es[j] == rest[j]);
            } else {
                assert(es[es.len() - 1] == es.last());
            }
        }
    }
}

/// `p` is the path of a directory among `es`.
pub open spec fn walked_dir(es: Seq<Entry>, p: Seq<char>) -> bool {
    exists|j: int| 0 <= j < es.len() && es[j].kind == EntryKind::Dir && es[j].path@ == p
}

/// Each listed include directory but the first is the path of a walked
/// directory.
pub proof fn lemma_dirs_are_dirs(es: Seq<Entry>)
    ensures
        forall|i: int| 0 <= i < dirs_of(es).len() ==> walked_dir(es, #[trigger] dirs_of(es)[i]),
    decreases es.len(),
{
    if es.len() > 0 {
        let rest = es.drop_last();
        lemma_dirs_are_dirs(rest);
        assert forall|i: int| 0 <= i < dirs_of(es).len() implies walked_dir(
            es,
            #[trigger] dirs_of(es)[i],
        ) by {
            if i < dirs_of(rest).len() {
                assert(dirs_of(es)[i] == dirs_of(rest)[i]);
                assert(walked_dir(rest, dirs_of(rest)[i]));
                let j = choose|j: int|
                    0 <= j < rest.len() && rest[j].kind == EntryKind::Dir && rest[j].path@
                        == dirs_of(rest)[i];
                assert(es[j] == rest[j]);
            } else {
                assert(es[es.len() - 1] == es.last());
            }
        }
    }
}

/// What a scan returns is classified: every source is a walked `.c` file,
/// the first include directory is the root and every other one is a walked
/// directory.
pub proof fn lemma_classification(root: Seq<char>, es: Seq<Entry>)
    ensures
        forall|i: int|
            0 <= i < sources_of(es).len() ==> has_ext(#[trigger] sources_of(es)[i], 'c'),
        (seq![root] + dirs_of(es))[0] == root,
        forall|i: int|
            1 <= i < (seq![root] + dirs_of(es)).len() ==> walked_dir(
                es,
                #[trigger] (seq![root] + dirs_of(es))[i],
            ),
{
    lemma_sources_are_c_files(es);
    lemma_dirs_are_dirs(es);
    let all = seq![root] + dirs_of(es);
    assert forall|i: int| 1 <= i < all.len() implies walked_dir(es, #[trigger] all[i]) by {
        assert(all[i] == dirs_of(es)[i - 1]);
    }
}

} // verus!
