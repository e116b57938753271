use build_helpers::cbuild::{build_c_files, configure_test_build, empty_build};
use build_helpers::directive::{rerun_if_changed, rerun_if_env_changed, rustc_link_search};
use build_helpers::discovery::{c_src_dir, Entry, EntryKind};
use build_helpers::flags::{nonempty_flags, parse_flags, split_lines, trim_lines};
use build_helpers::metadata::dep_var_name;

fn file(p: &str) -> Entry {
    Entry { path: p.to_string(), kind: EntryKind::File }
}

fn dir(p: &str) -> Entry {
    Entry { path: p.to_string(), kind: EntryKind::Dir }
}

fn other(p: &str) -> Entry {
    Entry { path: p.to_string(), kind: EntryKind::Other }
}

fn strings(v: &[&str]) -> Vec<String> {
    v.iter().map(|s| s.to_string()).collect()
}

fn nested_tree() -> Vec<Entry> {
    vec![
        file("src/bin/nested/a.c"),
        file("src/bin/nested/notes.txt"),
        dir("src/bin/nested/sub"),
        file("src/bin/nested/sub/b.c"),
        file("src/bin/nested/sub/h.h"),
        other("src/bin/nested/sub/link.c"),
        file("src/bin/nested/sub/.c"),
    ]
}

fn files_of(b: &cc::Build) -> Vec<String> {
    b.get_files().map(|p| p.to_str().unwrap().to_string()).collect()
}

#[test]
fn directive_lines() {
    assert_eq!(rerun_if_changed("src/bin/x/a.c"), "cargo:rerun-if-changed=src/bin/x/a.c");
    assert_eq!(rerun_if_env_changed("TESTNAME"), "cargo:rerun-if-env-changed=TESTNAME");
    assert_eq!(rustc_link_search("/tmp/out"), "cargo:rustc-link-search=/tmp/out");
}

#[test]
fn scan_classifies_entries() {
    let r = c_src_dir("src/bin/nested", &nested_tree());
    assert_eq!(r.sources, strings(&["src/bin/nested/a.c", "src/bin/nested/sub/b.c"]));
    assert_eq!(r.include_dirs, strings(&["src/bin/nested", "src/bin/nested/sub"]));
    assert!(r.sources.iter().all(|s| s.ends_with(".c")));
    assert_eq!(r.include_dirs[0], "src/bin/nested");
}

#[test]
fn scan_watches_every_source_header_and_dir() {
    let r = c_src_dir("src/bin/nested", &nested_tree());
    assert_eq!(
        r.watched,
        strings(&[
            "src/bin/nested",
            "src/bin/nested/a.c",
            "src/bin/nested/sub",
            "src/bin/nested/sub/b.c",
            "src/bin/nested/sub/h.h",
        ])
    );
}

#[test]
fn scan_of_empty_tree_holds_only_the_root() {
    let r = c_src_dir("src/bin/empty", &vec![]);
    assert!(r.sources.is_empty());
    assert_eq!(r.include_dirs, strings(&["src/bin/empty"]));
    assert_eq!(r.watched, strings(&["src/bin/empty"]));
}

#[test]
fn no_sources_leaves_build_alone() {
    let mut b = empty_build();
    let before = format!("{:?}", b);
    let tree = vec![file("src/bin/hdr/only.h"), dir("src/bin/hdr/sub")];
    let r = build_c_files("src/bin/hdr", &tree, &mut b);
    assert!(!r.has_sources);
    assert_eq!(r.watched, strings(&["src/bin/hdr", "src/bin/hdr/only.h", "src/bin/hdr/sub"]));
    assert_eq!(format!("{:?}", b), before);
}

#[test]
fn empty_test_dir() {
    let mut b = empty_build();
    let r = build_c_files("src/bin/empty", &vec![], &mut b);
    assert!(!r.has_sources);
    assert_eq!(r.watched, strings(&["src/bin/empty"]));
    assert_eq!(files_of(&b).len(), 0);
}

#[test]
fn single_file_test() {
    let mut b = empty_build();
    let r = build_c_files("src/bin/hello", &vec![file("src/bin/hello/main.c")], &mut b);
    assert!(r.has_sources);
    assert_eq!(r.watched, strings(&["src/bin/hello", "src/bin/hello/main.c", "src/bin/hello"]));
    assert_eq!(files_of(&b), strings(&["src/bin/hello/main.c"]));
    configure_test_build(&mut b, "", "/tmp/out", None);
    let shown = format!("{:?}", b);
    assert!(shown.contains("\"-Wno-main\""));
    assert!(shown.contains("\"-Wno-strict-aliasing\""));
    assert!(shown.contains("\"-Wno-builtin-declaration-mismatch\""));
    assert!(shown.contains("\"gcc\""));
    assert!(shown.contains("\"ar\""));
    assert!(shown.contains("\"/tmp/out\""));
}

#[test]
fn nested_includes() {
    let mut b = empty_build();
    let r = build_c_files("src/bin/nested", &nested_tree(), &mut b);
    assert!(r.has_sources);
    assert_eq!(files_of(&b), strings(&["src/bin/nested/a.c", "src/bin/nested/sub/b.c"]));
    let shown = format!("{:?}", b);
    assert!(shown.contains("\"src/bin/nested\""));
    assert!(shown.contains("\"src/bin/nested/sub\""));
    assert!(!shown.contains("link.c"));
}

#[test]
fn flag_file_lines() {
    assert_eq!(parse_flags("-O2\n\n-DFOO=1\n"), strings(&["-O2", "-DFOO=1"]));
}

#[test]
fn flag_file_trims_and_skips_blank_lines() {
    assert_eq!(parse_flags("  -O2  \n\n-g\n   "), strings(&["-O2", "-g"]));
}

#[test]
fn flag_file_empty_and_crlf() {
    assert!(parse_flags("").is_empty());
    assert_eq!(parse_flags("-a\r\n-b"), strings(&["-a", "-b"]));
}

#[test]
fn flag_file_order_after_fixed_flags() {
    let mut b = empty_build();
    build_c_files("src/bin/flg", &vec![file("src/bin/flg/main.c")], &mut b);
    configure_test_build(&mut b, "", "/tmp/out", Some("-O2\n\n-DFOO=1\n"));
    let shown = format!("{:?}", b);
    let m = shown.find("\"-Wno-builtin-declaration-mismatch\"").unwrap();
    let o = shown.find("\"-O2\"").unwrap();
    let d = shown.find("\"-DFOO=1\"").unwrap();
    assert!(m < o && o < d);
}

#[test]
fn toolchain_prefix() {
    let mut b = empty_build();
    configure_test_build(&mut b, "arm-none-eabi-", "/tmp/out", None);
    let shown = format!("{:?}", b);
    assert!(shown.contains("\"arm-none-eabi-gcc\""));
    assert!(shown.contains("\"arm-none-eabi-ar\""));
}

#[test]
fn line_splitting() {
    assert_eq!(split_lines("a\n\nb\n"), strings(&["a", "", "b", ""]));
    assert_eq!(split_lines(""), strings(&[""]));
    assert_eq!(split_lines("x"), strings(&["x"]));
}

#[test]
fn line_trimming_and_filtering() {
    let t = trim_lines(&strings(&["  a ", "\t", "b"]));
    assert_eq!(t, strings(&["a", "", "b"]));
    assert_eq!(nonempty_flags(&t), strings(&["a", "b"]));
}

#[test]
fn metadata_variable_names() {
    assert_eq!(dep_var_name("foo-bar", "include"), "DEP_FOO_BAR_INCLUDE");
    assert_eq!(dep_var_name("z3", "root"), "DEP_Z3_ROOT");
}
