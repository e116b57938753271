//! Text of the line-oriented directives written to standard output.
use vstd::prelude::*;
use vstd::string::StringExecFns;

verus! {

/// The line that asks for a rebuild when `path` changes.
pub open spec fn rerun_line(path: Seq<char>) -> Seq<char> {
    "cargo:rerun-if-changed="@ + path
}

/// The line that asks for a rebuild when the variable `var` changes.
pub open spec fn rerun_env_line(var: Seq<char>) -> Seq<char> {
    "cargo:rerun-if-env-changed="@ + var
}

/// The line that adds `dir` to the library search path.
pub open spec fn link_search_line(dir: Seq<char>) -> Seq<char> {
    "cargo:rustc-link-search="@ + dir
}

pub fn rerun_if_changed(path: &str) -> (r: String)
    ensures
        r@ == rerun_line(path@),
{
    let mut r = String::from_str("cargo:rerun-if-changed=");
    r.append(path);
    r
}

pub fn rerun_if_env_changed(var: &str) -> (r: String)
    ensures
        r@ == rerun_env_line(var@),
{
    let mut r = String::from_str("cargo:rerun-if-env-changed=");
    r.append(var);
    r
}

pub fn rustc_link_search(dir: &str) -> (r: String)
    ensures
        r@ == link_search_line(dir@),
{
    let mut r = String::from_str("cargo:rustc-link-search=");
    r.append(dir);
    r
}

} // verus!
