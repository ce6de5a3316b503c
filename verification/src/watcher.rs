//! Deciding what a file-system change means for the index.

use vstd::prelude::*;

verus! {

broadcast use vstd::string::group_string_axioms;

/// A watched folder: its path components and its root id.
pub struct WatchedRoot {
    pub components: Vec<String>,
    pub root_id: i64,
}

/// Whether `prefix` is a leading run of `path`, component by component, as
/// `Path::starts_with` compares paths.
pub open spec fn starts_with_components(path: Seq<String>, prefix: Seq<String>) -> bool {
    prefix.len() <= path.len() && forall|i: int|
        0 <= i < prefix.len() ==> #[trigger] path[i]@ == prefix[i]@
}

/// Whether two component lists name the same path.
pub open spec fn same_components(a: Seq<String>, b: Seq<String>) -> bool {
    a.len() == b.len() && forall|i: int| 0 <= i < a.len() ==> #[trigger] a[i]@ == b[i]@
}

fn components_start_with(path: &Vec<String>, prefix: &Vec<String>) -> (r: bool)
    ensures
        r == starts_with_components(path@, prefix@),
{
    if prefix.len() > path.len() {
        return false;
    }
    let mut i: usize = 0;
    while i < prefix.len()
        invariant
            prefix@.len() <= path@.len(),
            i <= prefix@.len(),
            forall|k: int| 0 <= k < i ==> #[trigger] path@[k]@ == prefix@[k]@,
        decreases prefix.len() - i,
    {
        if path[i] != prefix[i] {
            return false;
        }
        i = i + 1;
    }
    true
}

fn copy_components(c: &Vec<String>) -> (r: Vec<String>)
    ensures
        r@ == c@,
{
    let mut out: Vec<String> = Vec::new();
    let mut i: usize = 0;
    while i < c.len()
        invariant
            i <= c@.len(),
            out@ == c@.take(i as int),
        decreases c.len() - i,
    {
        out.push(c[i].clone());
        i = i + 1;
        assert(out@ =~= c@.take(i as int));
    }
    assert(c@.take(c@.len() as int) =~= c@);
    out
}

fn position_of_path(roots: &Vec<WatchedRoot>, comps: &Vec<String>) -> (r: usize)
    ensures
        r <= roots@.len(),
        r < roots@.len() ==> same_components(roots@[r as int].components@, comps@),
        forall|m: int| 0 <= m < r ==> !same_components(#[trigger] roots@[m].components@, comps@),
{
    let mut k: usize = 0;
    while k < roots.len()
        invariant
            k <= roots@.len(),
            forall|m: int| 0 <= m < k ==> !same_components(#[trigger] roots@[m].components@, comps@),
        decreases roots.len() - k,
    {
        if roots[k].components.len() == comps.len() && components_start_with(&roots[k].components, comps) {
            return k;
        }
        k = k + 1;
    }
    k
}

/// The root map holds each path once.
pub open spec fn distinct_paths(roots: Seq<WatchedRoot>) -> bool {
    forall|i: int, j: int|
        0 <= i < j < roots.len() ==> !same_components(
            #[trigger] roots[i].components@,
            #[trigger] roots[j].components@,
        )
}

/// The id that the last pair naming the path gives it.
pub open spec fn last_id_for(paths: Seq<(i64, Vec<String>)>, path: Seq<String>) -> Option<i64>
    decreases paths.len(),
{
    if paths.len() == 0 {
        None
    } else if same_components(paths.last().1@, path) {
        Some(paths.last().0)
    } else {
        last_id_for(paths.drop_last(), path)
    }
}

/// Builds the map from watched path to root id: each path once, with the
/// id of the last pair that names it.
pub fn build_root_map(paths: &Vec<(i64, Vec<String>)>) -> (r: Vec<WatchedRoot>)
    ensures
        distinct_paths(r@),
        forall|k: int|
            0 <= k < r@.len() ==> last_id_for(paths@, #[trigger] r@[k].components@) == Some(
                r@[k].root_id,
            ),
        forall|j: int|
            0 <= j < paths@.len() ==> exists|k: int|
                0 <= k < r@.len() && same_components(
                    #[trigger] paths@[j].1@,
                    r@[k].components@,
                ),
{
    let mut out: Vec<WatchedRoot> = Vec::new();
    let mut j: usize = 0;
    while j < paths.len()
        invariant
            j <= paths@.len(),
            distinct_paths(out@),
            forall|k: int|
                0 <= k < out@.len() ==> last_id_for(
                    paths@.take(j as int),
                    #[trigger] out@[k].components@,
                ) == Some(out@[k].root_id),
            forall|m: int|
                0 <= m < j ==> exists|k: int|
                    0 <= k < out@.len() && same_components(
                        #[trigger] paths@[m].1@,
                        out@[k].components@,
                    ),
        decreases paths.len() - j,
    {
        let (id, comps) = &paths[j];
        let ghost before = out@;
        let ghost prefix = paths@.take(j as int);
        let ghost next = paths@.take(j + 1);
        assert(next.drop_last() =~= prefix);
        assert(next.last() == paths@[j as int]);
        let found = position_of_path(&out, comps);
        if found < out.len() {
            let entry = WatchedRoot { components: copy_components(&out[found].components), root_id: *id };
            out.set(found, entry);
            assert forall|a: int, b: int| 0 <= a < b < out@.len() implies !same_components(
                #[trigger] out@[a].components@,
                #[trigger] out@[b].components@,
            ) by {
                assert(out@[a].components@ == before[a].components@);
                assert(out@[b].components@ == before[b].components@);
            }
            assert forall|k2: int| 0 <= k2 < out@.len() implies last_id_for(
                next,
                #[trigger] out@[k2].components@,
            ) == Some(out@[k2].root_id) by {
                if k2 == found {
                    assert(same_components(next.last().1@, out@[k2].components@));
                } else {
                    assert(out@[k2] == before[k2]);
                    if same_components(next.last().1@, before[k2].components@) {
                        assert(same_components(before[found as int].components@, before[k2].components@));
                        if k2 < found {
                            assert(!same_components(before[k2].components@, before[found as int].components@));
                        }
                        assert(false);
                    }
                }
            }
        } else {
            let entry = WatchedRoot { components: copy_components(comps), root_id: *id };
            out.push(entry);
            assert forall|a: int, b: int| 0 <= a < b < out@.len() implies !same_components(
                #[trigger] out@[a].components@,
                #[trigger] out@[b].components@,
            ) by {
                if b == out@.len() - 1 {
                    assert(out@[b].components@ == comps@);
                    assert(!same_components(before[a].components@, comps@));
                    if same_components(out@[a].components@, out@[b].components@) {
                        assert(same_components(before[a].components@, comps@));
                    }
                } else {
                    assert(out@[a] == before[a]);
                    assert(out@[b] == before[b]);
                }
            }
            assert forall|k2: int| 0 <= k2 < out@.len() implies last_id_for(
                next,
                #[trigger] out@[k2].components@,
            ) == Some(out@[k2].root_id) by {
                if k2 == out@.len() - 1 {
                    assert(same_components(next.last().1@, out@[k2].components@));
                } else {
                    assert(out@[k2] == before[k2]);
                    if same_components(next.last().1@, before[k2].components@) {
                        assert(same_components(before[k2].components@, comps@));
                        assert(false);
                    }
                }
            }
        }
        assert forall|m: int| 0 <= m < j + 1 implies exists|k2: int|
            0 <= k2 < out@.len() && same_components(#[trigger] paths@[m].1@, out@[k2].components@) by {
            if m == j {
                if found < before.len() {
                    assert(same_components(paths@[m].1@, out@[found as int].components@));
                } else {
                    assert(same_components(paths@[m].1@, out@[before.len() as int].components@));
                }
            } else {
                let k3 = choose|k3: int| 0 <= k3 < before.len() && same_components(paths@[m].1@, before[k3].components@);
                assert(out@[k3].components@ == before[k3].components@);
            }
        }
        j = j + 1;
    }
    assert(paths@.take(paths@.len() as int) =~= paths@);
    out
}

/// The first watched root, in map order, whose path the file's path starts
/// with.
pub open spec fn is_first_root_of(roots: Seq<WatchedRoot>, path: Seq<String>, k: int) -> bool {
    &&& 0 <= k < roots.len()
    &&& starts_with_components(path, roots[k].components@)
    &&& forall|m: int|
        0 <= m < k ==> !starts_with_components(path, #[trigger] roots[m].components@)
}

/// Find the root id for a file path by checking which root is a prefix.
pub fn find_root_id(root_map: &Vec<WatchedRoot>, path: &Vec<String>) -> (r: Option<i64>)
    ensures
        r is None <==> forall|k: int|
            0 <= k < root_map@.len() ==> !starts_with_components(
                path@,
                #[trigger] root_map@[k].components@,
            ),
        r matches Some(id) ==> exists|k: int|
            is_first_root_of(root_map@, path@, k) && root_map@[k].root_id == id,
{
    let mut k: usize = 0;
    while k < root_map.len()
        invariant
            k <= root_map@.len(),
            forall|m: int|
                0 <= m < k ==> !starts_with_components(path@, #[trigger] root_map@[m].components@),
        decreases root_map.len() - k,
    {
        if components_start_with(path, &root_map[k].components) {
            assert(is_first_root_of(root_map@, path@, k as int));
            return Some(root_map[k].root_id);
        }
        k = k + 1;
    }
    None
}

/// The kind of a file-system change.
pub enum ChangeKind {
    Create,
    Modify,
    Remove,
    Other,
}

/// What a change to a path means for the index.
pub enum WatchAction {
    Skip,
    Index(i64),
    Remove,
}

/// The action for a change: directories and paths outside every watched
/// root are skipped; a created or modified path that still exists is
/// (re)indexed under its root; a removed path, and a modified path that no
/// longer exists (the old name of a renamed file), leave the index; a
/// created path that is already gone and anything else are skipped.
pub open spec fn watch_action_for(kind: ChangeKind, is_dir: bool, exists: bool, root_id: Option<
    i64,
>) -> WatchAction {
    if is_dir {
        WatchAction::Skip
    } else {
        match root_id {
            None => WatchAction::Skip,
            Some(id) => match kind {
                ChangeKind::Create => if exists {
                    WatchAction::Index(id)
                } else {
                    WatchAction::Skip
                },
                ChangeKind::Modify => if exists {
                    WatchAction::Index(id)
                } else {
                    WatchAction::Remove
                },
                ChangeKind::Remove => WatchAction::Remove,
                ChangeKind::Other => WatchAction::Skip,
            },
        }
    }
}

/// Decides what a change to a path means for the index.
pub fn watch_action(kind: ChangeKind, is_dir: bool, exists: bool, root_id: Option<i64>) -> (r:
    WatchAction)
    ensures
        r == watch_action_for(kind, is_dir, exists, root_id),
{
    if is_dir {
        return WatchAction::Skip;
    }
    match root_id {
        None => WatchAction::Skip,
        Some(id) => match kind {
            ChangeKind::Create => if exists {
                WatchAction::Index(id)
            } else {
                WatchAction::Skip
            },
            ChangeKind::Modify => if exists {
                WatchAction::Index(id)
            } else {
                WatchAction::Remove
            },
            ChangeKind::Remove => WatchAction::Remove,
            ChangeKind::Other => WatchAction::Skip,
        },
    }
}

} // verus!
