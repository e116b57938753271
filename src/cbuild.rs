//! Filling a `cc::Build` with a test's sources, include directories,
//! toolchain and flags.
use vstd::prelude::*;
use crate::views;
use vstd::string::StringExecFns;
use crate::discovery::{c_src_dir, dirs_of, sources_of, watched_of, Entry};
use crate::flags::{flags_of, parse_flags};

verus! {

#[verifier::external_type_specification]
#[verifier::external_body]
pub struct ExBuild(cc::Build);

/// The files that `b` will compile, in the order they were added.
pub uninterp spec fn build_files(b: cc::Build) -> Seq<Seq<char>>;

/// The include directories of `b`, in the order they were added.
pub uninterp spec fn build_includes(b: cc::Build) -> Seq<Seq<char>>;

/// The extra compiler flags of `b`, in the order they were added.
pub uninterp spec fn build_flags(b: cc::Build) -> Seq<Seq<char>>;

/// The compiler that `b` was told to use, if any.
pub uninterp spec fn build_compiler(b: cc::Build) -> Option<Seq<char>>;

/// The archiver that `b` was told to use, if any.
pub uninterp spec fn build_archiver(b: cc::Build) -> Option<Seq<char>>;

/// The output directory that `b` was told to use, if any.
pub uninterp spec fn build_out_dir(b: cc::Build) -> Option<Seq<char>>;

/// The three toolchain settings of `b` are those of `a`.
pub open spec fn same_tools(a: cc::Build, b: cc::Build) -> bool {
    &&& build_compiler(b) == build_compiler(a)
    &&& build_archiver(b) == build_archiver(a)
    &&& build_out_dir(b) == build_out_dir(a)
}

/// Relies on `cc::Build::new`: every list starts empty and no tool or output
/// directory is set.
#[verifier::external_body]
fn new_build() -> (r: cc::Build)
    ensures
        build_files(r) == Seq::<Seq<char>>::empty(),
        build_includes(r) == Seq::<Seq<char>>::empty(),
        build_flags(r) == Seq::<Seq<char>>::empty(),
        build_compiler(r) is None,
        build_archiver(r) is None,
        build_out_dir(r) is None,
{
    cc::Build::new()
}

/// Relies on `cc::Build::files`: each path is pushed onto the file list, in
/// order; nothing else changes.
#[verifier::external_body]
fn add_files(b: &mut cc::Build, files: &Vec<String>)
    ensures
        build_files(*final(b)) == build_files(*old(b)) + views(files@),
        build_includes(*final(b)) == build_includes(*old(b)),
        build_flags(*final(b)) == build_flags(*old(b)),
        same_tools(*old(b), *final(b)),
{
    b.files(files);
}

/// Relies on `cc::Build::includes`: each directory is pushed onto the include
/// list, in order; nothing else changes.
#[verifier::external_body]
fn add_includes(b: &mut cc::Build, dirs: &Vec<String>)
    ensures
        build_includes(*final(b)) == build_includes(*old(b)) + views(dirs@),
        build_files(*final(b)) == build_files(*old(b)),
        build_flags(*final(b)) == build_flags(*old(b)),
        same_tools(*old(b), *final(b)),
{
    b.includes(dirs);
}

/// Relies on `cc::Build::flag`: the flag is pushed onto the flag list;
/// nothing else changes.
#[verifier::external_body]
fn add_flag(b: &mut cc::Build, flag: &str)
    ensures
        build_flags(*final(b)) == build_flags(*old(b)).push(flag@),
        build_files(*final(b)) == build_files(*old(b)),
        build_includes(*final(b)) == build_includes(*old(b)),
        same_tools(*old(b), *final(b)),
{
    b.flag(flag);
}

/// Relies on `cc::Build::compiler`: the compiler is set; nothing else changes.
#[verifier::external_body]
fn set_compiler(b: &mut cc::Build, compiler: &str)
    ensures
        build_compiler(*final(b)) == Some(compiler@),
        build_archiver(*final(b)) == build_archiver(*old(b)),
        build_out_dir(*final(b)) == build_out_dir(*old(b)),
        build_files(*final(b)) == build_files(*old(b)),
        build_includes(*final(b)) == build_includes(*old(b)),
        build_flags(*final(b)) == build_flags(*old(b)),
{
    b.compiler(compiler);
}

/// Relies on `cc::Build::archiver`: the archiver is set; nothing else changes.
#[verifier::external_body]
fn set_archiver(b: &mut cc::Build, archiver: &str)
    ensures
        build_archiver(*final(b)) == Some(archiver@),
        build_compiler(*final(b)) == build_compiler(*old(b)),
        build_out_dir(*final(b)) == build_out_dir(*old(b)),
        build_files(*final(b)) == build_files(*old(b)),
        build_includes(*final(b)) == build_includes(*old(b)),
        build_flags(*final(b)) == build_flags(*old(b)),
{
    b.archiver(archiver);
}

/// Relies on `cc::Build::out_dir`: the output directory is set; nothing else
/// changes.
#[verifier::external_body]
fn set_out_dir(b: &mut cc::Build, dir: &str)
    ensures
        build_out_dir(*final(b)) == Some(dir@),
        build_compiler(*final(b)) == build_compiler(*old(b)),
        build_archiver(*final(b)) == build_archiver(*old(b)),
        build_files(*final(b)) == build_files(*old(b)),
        build_includes(*final(b)) == build_includes(*old(b)),
        build_flags(*final(b)) == build_flags(*old(b)),
{
    b.out_dir(dir);
}

/// What registering a scanned tree on a build did.
pub struct Registered {
    /// The paths to watch for changes, in the order they are announced.
    pub watched: Vec<String>,
    /// Whether the tree held a `.c` file, so that the build was filled.
    pub has_sources: bool,
}

/// An empty build, with no files, include directories, flags or tools.
pub fn empty_build() -> (r: cc::Build)
    ensures
        build_files(r) == Seq::<Seq<char>>::empty(),
        build_includes(r) == Seq::<Seq<char>>::empty(),
        build_flags(r) == Seq::<Seq<char>>::empty(),
        build_compiler(r) is None,
        build_archiver(r) is None,
        build_out_dir(r) is None,
{
    new_build()
}

/// Scans the walked `entries` under `root`. Without a `.c` file the build is
/// left as it was. Otherwise the sources are added to its files, the
/// include directories and then the root once more to its include
/// directories, and the root is watched a second time.
pub fn build_c_files(root: &str, entries: &Vec<Entry>, build: &mut cc::Build) -> (r: Registered)
    ensures
        r.has_sources == (sources_of(entries@).len() > 0),
        !r.has_sources ==> {
            &&& views(r.watched@) == seq![root@] + watched_of(entries@)
            &&& *final(build) == *old(build)
        },
        r.has_sources ==> {
            &&& views(r.watched@) == (seq![root@] + watched_of(entries@)).push(root@)
            &&& build_files(*final(build)) == build_files(*old(build)) + sources_of(entries@)
            &&& build_includes(*final(build)) == build_includes(*old(build)) + (seq![root@]
                + dirs_of(entries@)).push(root@)
            &&& build_flags(*final(build)) == build_flags(*old(build))
            &&& same_tools(*old(build), *final(build))
        },
{
    let found = c_src_dir(root, entries);
    let mut watched = found.watched;
    if found.sources.len() > 0 {
        let ghost w = views(watched@);
        watched.push(root.to_owned());
        assert(views(watched@) =~= w.push(root@));
        let ghost b0 = *build;
        add_files(build, &found.sources);
        add_includes(build, &found.include_dirs);
        let mut again: Vec<String> = Vec::new();
        again.push(root.to_owned());
        add_includes(build, &again);
        assert(views(again@) =~= seq![root@]);
        assert(build_includes(*build) =~= build_includes(b0) + (seq![root@] + dirs_of(
            entries@,
        )).push(root@));
        Registered { watched, has_sources: true }
    } else {
        Registered { watched, has_sources: false }
    }
}

/// The flags that every test build gets, before those of its flag file.
pub open spec fn fixed_flags() -> Seq<Seq<char>> {
    seq!["-Wno-main"@, "-Wno-strict-aliasing"@, "-Wno-builtin-declaration-mismatch"@]
}

/// The flags that a test build gets from its optional flag file text.
pub open spec fn file_flags(text: Option<Seq<char>>) -> Seq<Seq<char>> {
    match text {
        Some(t) => flags_of(t),
        None => Seq::<Seq<char>>::empty(),
    }
}

pub open spec fn opt_view(t: Option<&str>) -> Option<Seq<char>> {
    match t {
        Some(s) => Some(s@),
        None => None,
    }
}

/// Sets the toolchain `<prefix>gcc` / `<prefix>ar` and the output directory,
/// then adds the fixed warning suppressions followed by the flags of the
/// flag file, when its text is given.
pub fn configure_test_build(
    build: &mut cc::Build,
    prefix: &str,
    out_dir: &str,
    flag_text: Option<&str>,
)
    ensures
        build_compiler(*final(build)) == Some(prefix@ + "gcc"@),
        build_archiver(*final(build)) == Some(prefix@ + "ar"@),
        build_out_dir(*final(build)) == Some(out_dir@),
        build_files(*final(build)) == build_files(*old(build)),
        build_includes(*final(build)) == build_includes(*old(build)),
        build_flags(*final(build)) == build_flags(*old(build)) + fixed_flags() + file_flags(
            opt_view(flag_text),
        ),
{
    let ghost b0 = *build;
    let mut gcc = String::from_str(prefix);
    gcc.append("gcc");
    let mut ar = String::from_str(prefix);
    ar.append("ar");
    set_compiler(build, gcc.as_str());
    set_archiver(build, ar.as_str());
    set_out_dir(build, out_dir);
    add_flag(build, "-Wno-main");
    add_flag(build, "-Wno-strict-aliasing");
    add_flag(build, "-Wno-builtin-declaration-mismatch");
    proof {
        reveal_strlit("-Wno-main");
        reveal_strlit("-Wno-strict-aliasing");
        reveal_strlit("-Wno-builtin-declaration-mismatch");
        assert(build_flags(*build) =~= build_flags(b0) + fixed_flags());
    }
    let ghost b1 = *build;
    match flag_text {
        Some(text) => {
            let flags = parse_flags(text);
            let mut i: usize = 0;
            while i < flags.len()
                invariant
                    i <= flags@.len(),
                    build_flags(*build) == build_flags(b1) + views(flags@.subrange(0, i as int)),
                    build_files(*build) == build_files(b0),
                    build_includes(*build) == build_includes(b0),
                    build_compiler(*build) == Some(prefix@ + "gcc"@),
                    build_archiver(*build) == Some(prefix@ + "ar"@),
                    build_out_dir(*build) == Some(out_dir@),
                decreases flags@.len() - i,
            {
                add_flag(build, flags[i].as_str());
                proof {
                    assert(views(flags@.subrange(0, i + 1)) =~= views(
                        flags@.subrange(0, i as int),
                    ).push(flags@[i as int]@));
                }
                i += 1;
            }
            assert(flags@.subrange(0, flags@.len() as int) =~= flags@);
        },
        None => {
            assert(build_flags(*build) =~= build_flags(b1) + file_flags(None));
        },
    }
}

} // verus!
