//! Build-script helpers: C source discovery, C build composition and the
//! directives that tell the build driver what to watch.
use vstd::prelude::*;

pub mod cbuild;
pub mod directive;
pub mod discovery;
pub mod flags;
pub mod metadata;

verus! {

/// The contents of each string of `v`, in order.
pub open spec fn views(v: Seq<String>) -> Seq<Seq<char>> {
    v.map_values(|s: String| s@)
}

} // verus!
