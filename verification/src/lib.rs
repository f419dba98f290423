//! Packaging core: resolve a named package from a declarative configuration
//! into a list of root-relative paths (synthesizing launcher files along the
//! way) and assemble the files found under those paths into a single zip
//! archive whose entry names are relative to the chosen input root.

use vstd::prelude::*;

pub mod archive;
pub mod config;
pub mod paths;
pub mod resolve;
pub mod shortcut;
pub mod zipio;

verus! {

/// The element-wise views of a sequence of viewable values.
pub open spec fn views_of<T: View>(s: Seq<T>) -> Seq<T::V> {
    s.map_values(|t: T| t@)
}

/// Appending one value appends its view.
pub proof fn lemma_views_of_push<T: View>(s: Seq<T>, x: T)
    ensures
        views_of(s.push(x)) == views_of(s).push(x@),
{
    assert(views_of(s.push(x)) =~= views_of(s).push(x@));
}

/// Mapping over one more element of a prefix appends that element's image.
pub proof fn lemma_map_take_push<A, B>(s: Seq<A>, f: spec_fn(A) -> B, i: int)
    requires
        0 <= i < s.len(),
    ensures
        s.take(i + 1).map_values(f) == s.take(i).map_values(f).push(f(s[i])),
{
    assert(s.take(i + 1).map_values(f) =~= s.take(i).map_values(f).push(f(s[i])));
}

} // verus!
