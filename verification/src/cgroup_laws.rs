//! What holds of reading the memory accounting of a control group.

use crate::cgroup::{
    controller_in, group_dir, paths_to_probe, probe_of, v1_memory, v1_paths, v1_root, v2_figures,
    v2_files_exist, v2_memory, v2_paths, v2_root, v2_walk, CGroupErrorView, CGroupMemory,
    CgroupFilesView, FileProbeView,
};
use crate::path::{at_root, joined, step_toward, within_root};
use vstd::prelude::*;

verus! {

/// The directory `steps` steps above `dir` on the way up to `root`, if the
/// way leads that far.
pub open spec fn nth_up(root: Seq<char>, dir: Seq<char>, steps: nat) -> Option<Seq<char>>
    decreases steps,
{
    if steps == 0 {
        Some(dir)
    } else {
        match step_toward(root, dir) {
            Some(parent) => nth_up(root, parent, (steps - 1) as nat),
            None => None,
        }
    }
}

/// The refusal for want of a controller.
pub open spec fn not_found() -> Result<CGroupMemory, CGroupErrorView> {
    Err(CGroupErrorView::CgroupControllerNotFound)
}

/// Whether two sets of looks agree on each of `paths`.
pub open spec fn agree_on(
    a: Seq<FileProbeView>,
    b: Seq<FileProbeView>,
    paths: Seq<Seq<char>>,
) -> bool {
    forall|i: int|
        0 <= i < paths.len() ==> probe_of(a, #[trigger] paths[i]) == probe_of(b, paths[i])
}

/// The walk on the unified hierarchy reads the nearest directory that holds
/// both files. When none of the first `steps` directories on the way up from
/// `dir` holds both `memory.max` and `memory.current`, and the next one,
/// which is the root or below it, does, the accounting is the one that the
/// files of that directory give.
pub proof fn law_walk_reads_nearest(
    files: Seq<FileProbeView>,
    root: Seq<char>,
    dir: Seq<char>,
    steps: nat,
)
    requires
        nth_up(root, dir, steps) is Some,
        within_root(root, nth_up(root, dir, steps)->0),
        v2_files_exist(files, nth_up(root, dir, steps)->0),
        forall|k: nat|
            k < steps ==> (#[trigger] nth_up(root, dir, k)) is Some && !v2_files_exist(
                files,
                nth_up(root, dir, k)->0,
            ),
    ensures
        v2_walk(files, root, dir) == v2_figures(files, nth_up(root, dir, steps)->0),
    decreases steps,
{
    if steps > 0 {
        assert(nth_up(root, dir, 0) == Some(dir));
        let parent = step_toward(root, dir)->0;
        assert forall|k: nat| k < steps - 1 implies (#[trigger] nth_up(root, parent, k)) is Some
            && !v2_files_exist(files, nth_up(root, parent, k)->0) by {
            assert(nth_up(root, dir, k + 1) == nth_up(root, parent, k));
        }
        law_walk_reads_nearest(files, root, parent, (steps - 1) as nat);
    }
}

/// The walk ends at the root. Where the root of the hierarchy does not hold
/// both files, no controller is found there, whatever lies above the root.
pub proof fn law_walk_ends_at_root(files: Seq<FileProbeView>, root: Seq<char>, dir: Seq<char>)
    requires
        at_root(root, dir),
        !v2_files_exist(files, dir),
    ensures
        v2_walk(files, root, dir) == not_found(),
        step_toward(root, dir) is None,
{
}

/// From a directory that is neither the root nor below it no controller is
/// found, and nothing is looked at.
pub proof fn law_walk_stays_within_root(
    files: Seq<FileProbeView>,
    root: Seq<char>,
    dir: Seq<char>,
)
    requires
        !within_root(root, dir),
    ensures
        v2_walk(files, root, dir) == not_found(),
        v2_paths(root, dir) == Seq::<Seq<char>>::empty(),
        v1_paths(root, dir) == Seq::<Seq<char>>::empty(),
{
}

/// Where no directory from the root down holds both files of the unified
/// hierarchy, the walk from any directory finds no controller.
pub proof fn law_walk_without_files(files: Seq<FileProbeView>, root: Seq<char>, dir: Seq<char>)
    requires
        forall|any: Seq<char>| within_root(root, any) ==> !v2_files_exist(files, any),
    ensures
        v2_walk(files, root, dir) == not_found(),
    decreases dir.len(),
{
    match step_toward(root, dir) {
        Some(parent) => {
            law_walk_without_files(files, root, parent);
        },
        None => {},
    }
}

/// Every file that is named for the walk lies in a directory on the way,
/// and so in the root or below it: the two files named at positions `2k`
/// and `2k + 1` are those of the directory `k` steps up.
pub proof fn law_named_files_lie_within_root(root: Seq<char>, dir: Seq<char>, k: nat)
    requires
        2 * k < v2_paths(root, dir).len(),
    ensures
        nth_up(root, dir, k) is Some,
        within_root(root, nth_up(root, dir, k)->0),
        v2_paths(root, dir).len() > 2 * k + 1,
        v2_paths(root, dir)[(2 * k) as int] == joined(nth_up(root, dir, k)->0, "memory.max"@),
        v2_paths(root, dir)[(2 * k + 1) as int] == joined(
            nth_up(root, dir, k)->0,
            "memory.current"@,
        ),
    decreases k,
{
    if k > 0 {
        let parent = step_toward(root, dir)->0;
        law_named_files_lie_within_root(root, parent, (k - 1) as nat);
        assert(v2_paths(root, dir)[(2 * k) as int] == v2_paths(root, parent)[2 * (k - 1)]);
        assert(v2_paths(root, dir)[(2 * k + 1) as int] == v2_paths(root, parent)[2 * (k - 1) + 1]);
    }
}

/// Two sets of looks that agree on the files on the way up from `dir` give
/// the same accounting on the unified hierarchy.
pub proof fn lemma_walk_agrees(
    a: Seq<FileProbeView>,
    b: Seq<FileProbeView>,
    root: Seq<char>,
    dir: Seq<char>,
)
    requires
        agree_on(a, b, v2_paths(root, dir)),
    ensures
        v2_walk(a, root, dir) == v2_walk(b, root, dir),
    decreases dir.len(),
{
    if within_root(root, dir) {
        let paths = v2_paths(root, dir);
        assert(paths[0] == joined(dir, "memory.max"@));
        assert(paths[1] == joined(dir, "memory.current"@));
        match step_toward(root, dir) {
            Some(parent) => {
                assert forall|i: int| 0 <= i < v2_paths(root, parent).len() implies probe_of(
                    a,
                    #[trigger] v2_paths(root, parent)[i],
                ) == probe_of(b, v2_paths(root, parent)[i]) by {
                    assert(paths[i + 2] == v2_paths(root, parent)[i]);
                }
                lemma_walk_agrees(a, b, root, parent);
            },
            None => {},
        }
    }
}

/// Reading the memory accounting rests on the named files alone. Two
/// findings with the same hierarchy and the same text of
/// `/proc/self/cgroup`, whose looks agree on each file that is named for
/// them, give the same accounting.
pub proof fn law_reading_rests_on_named_files(
    a: CgroupFilesView,
    b: CgroupFilesView,
    marker: usize,
)
    requires
        a.unified == b.unified,
        a.proc_cgroup == b.proc_cgroup,
        a.proc_cgroup matches Ok(text) ==> agree_on(
            a.files,
            b.files,
            paths_to_probe(a.unified, text),
        ),
    ensures
        a.unified ==> v2_memory(a) == v2_memory(b),
        !a.unified ==> v1_memory(a, marker) == v1_memory(b, marker),
{
    match a.proc_cgroup {
        Ok(text) => {
            match controller_in(text, a.unified) {
                Some(controller) => {
                    if a.unified {
                        let dir = group_dir(v2_root(), controller);
                        lemma_walk_agrees(a.files, b.files, v2_root(), dir);
                    } else {
                        let dir = group_dir(v1_root(), controller);
                        if within_root(v1_root(), dir) {
                            let paths = v1_paths(v1_root(), dir);
                            assert(probe_of(a.files, paths[0]) == probe_of(b.files, paths[0]));
                            assert(probe_of(a.files, paths[1]) == probe_of(b.files, paths[1]));
                        }
                    }
                },
                None => {},
            }
        },
        Err(_) => {},
    }
}

} // verus!
