//! Package resolution: combine a package's explicit file paths with the
//! destinations of its synthesized shortcuts into one ordered list of
//! paths joined onto the input root. A pure combination step: no
//! deduplication, no filtering, no existence checks.

use crate::config::{Package, Shortcut};
use crate::paths::{join_path, spec_join};
use crate::views_of;
use vstd::prelude::*;

verus! {

/// The resolved file list of `package` under `input_dir`: every explicit
/// file path joined onto the root, followed by every shortcut's destination
/// joined onto the root, in declaration order.
pub open spec fn spec_build_list(package: Package, input_dir: Seq<char>) -> Seq<Seq<char>> {
    package.filepaths@.map_values(|p: String| spec_join(input_dir, p@))
        + package.shortcuts@.map_values(|s: Shortcut| spec_join(input_dir, s.name@))
}

/// Resolve `package` under `input_dir` into its ordered list of paths.
pub fn build_list(package: &Package, input_dir: &str) -> (r: Vec<String>)
    ensures
        views_of(r@) == spec_build_list(*package, input_dir@),
{
    let mut out: Vec<String> = Vec::new();
    let nf = package.filepaths.len();
    let mut i: usize = 0;
    while i < nf
        invariant
            0 <= i <= nf,
            nf == package.filepaths@.len(),
            views_of(out@) =~= package.filepaths@.take(i as int).map_values(
                |p: String| spec_join(input_dir@, p@),
            ),
        decreases nf - i,
    {
        let ghost before = out@;
        out.push(join_path(input_dir, package.filepaths[i].as_str()));
        proof {
            crate::lemma_views_of_push(before, out@.last());
            crate::lemma_map_take_push(
                package.filepaths@,
                |p: String| spec_join(input_dir@, p@),
                i as int,
            );
        }
        i += 1;
    }
    let ns = package.shortcuts.len();
    let mut j: usize = 0;
    while j < ns
        invariant
            0 <= j <= ns,
            ns == package.shortcuts@.len(),
            views_of(out@) =~= package.filepaths@.map_values(
                |p: String| spec_join(input_dir@, p@),
            ) + package.shortcuts@.take(j as int).map_values(
                |s: Shortcut| spec_join(input_dir@, s.name@),
            ),
        decreases ns - j,
    {
        let ghost before = out@;
        out.push(join_path(input_dir, package.shortcuts[j].name.as_str()));
        proof {
            crate::lemma_views_of_push(before, out@.last());
            crate::lemma_map_take_push(
                package.shortcuts@,
                |s: Shortcut| spec_join(input_dir@, s.name@),
                j as int,
            );
            assert(views_of(out@) =~= package.filepaths@.map_values(
                |p: String| spec_join(input_dir@, p@),
            ) + package.shortcuts@.take(j + 1).map_values(
                |s: Shortcut| spec_join(input_dir@, s.name@),
            ));
        }
        j += 1;
    }
    proof {
        assert(package.filepaths@.take(nf as int) =~= package.filepaths@);
        assert(package.shortcuts@.take(ns as int) =~= package.shortcuts@);
        assert(views_of(out@) =~= spec_build_list(*package, input_dir@));
    }
    out
}

/// The resolved list is as long as the two declaration lists together, and
/// its elements stand in declaration order: first the explicit file paths,
/// then the shortcut destinations, each joined onto the root.
pub proof fn lemma_build_list_shape(package: Package, input_dir: Seq<char>)
    ensures
        spec_build_list(package, input_dir).len() == package.filepaths@.len()
            + package.shortcuts@.len(),
        forall|i: int|
            0 <= i < package.filepaths@.len() ==> #[trigger] spec_build_list(package, input_dir)[i]
                == spec_join(input_dir, package.filepaths@[i]@),
        forall|j: int|
            0 <= j < package.shortcuts@.len() ==> #[trigger] spec_build_list(package, input_dir)[
                package.filepaths@.len() + j
            ] == spec_join(input_dir, package.shortcuts@[j].name@),
{
}

} // verus!
