//! The library's guarantees about the watch lifecycle, stated and proved as
//! laws over the registry model and the changed-list bookkeeping.

use vstd::prelude::*;

use crate::digest::digest_of;
use crate::registry::WatchedFile;
use crate::registry::changed_after;
use crate::registry::distinct_paths;
use crate::registry::paths_of;

verus! {

/// One completed wake-up cycle for one notification — the fired handle
/// removed, the same path re-armed under a fresh handle, the fresh record
/// re-inserted — leaves the set of observed paths unchanged and keeps exactly
/// one armed watch per path. By induction, the tracked path set never changes
/// after startup, over any number of cycles.
pub proof fn lemma_cycle_preserves_tracking(
    before: Map<i32, WatchedFile>,
    handle: i32,
    new_handle: i32,
    fresh: WatchedFile,
)
    requires
        distinct_paths(before),
        before.dom().contains(handle),
        fresh.path@ == before[handle].path@,
        !before.remove(handle).dom().contains(new_handle),
    ensures
        paths_of(before.remove(handle).insert(new_handle, fresh)) == paths_of(before),
        distinct_paths(before.remove(handle).insert(new_handle, fresh)),
{
    let after = before.remove(handle).insert(new_handle, fresh);
    assert forall|p: Seq<char>|
        paths_of(after).contains(p) implies paths_of(before).contains(p) by {
        let h = choose|h: i32| #[trigger] after.dom().contains(h) && after[h].path@ == p;
        if h == new_handle {
            assert(before.dom().contains(handle) && before[handle].path@ == p);
        } else {
            assert(before.dom().contains(h) && before[h].path@ == p);
        }
    }
    assert forall|p: Seq<char>|
        paths_of(before).contains(p) implies paths_of(after).contains(p) by {
        let h = choose|h: i32| #[trigger] before.dom().contains(h) && before[h].path@ == p;
        if h == handle {
            assert(after.dom().contains(new_handle) && after[new_handle].path@ == p);
        } else {
            assert(after.dom().contains(h) && after[h].path@ == p);
        }
    }
    assert(paths_of(after) =~= paths_of(before));
    assert forall|h1: i32, h2: i32|
        after.dom().contains(h1) && after.dom().contains(h2) && after[h1].path@
            == after[h2].path@ implies h1 == h2 by {
        if h1 == new_handle && h2 != new_handle {
            assert(before.dom().contains(h2) && h2 != handle);
            assert(before.dom().contains(handle));
            assert(before[h2].path@ == before[handle].path@);
        } else if h2 == new_handle && h1 != new_handle {
            assert(before.dom().contains(h1) && h1 != handle);
            assert(before.dom().contains(handle));
            assert(before[h1].path@ == before[handle].path@);
        } else if h1 != new_handle && h2 != new_handle {
            assert(before.dom().contains(h1) && before.dom().contains(h2));
        }
    }
}

/// A sequence of completed notification cycles: each step names the fired
/// handle, the fresh handle the path was re-armed under, and the fresh
/// record, and each step is well-formed for the registry state it meets —
/// the fired handle is live, the record keeps the file's path, and the fresh
/// handle is not otherwise in use.
pub open spec fn cycles_wf(m: Map<i32, WatchedFile>, steps: Seq<(i32, i32, WatchedFile)>) -> bool
    decreases steps.len(),
{
    steps.len() == 0 || {
        let step = steps[0];
        &&& m.dom().contains(step.0)
        &&& step.2.path@ == m[step.0].path@
        &&& !m.remove(step.0).dom().contains(step.1)
        &&& cycles_wf(m.remove(step.0).insert(step.1, step.2), steps.drop_first())
    }
}

/// The registry after the given notification cycles.
pub open spec fn after_cycles(
    m: Map<i32, WatchedFile>,
    steps: Seq<(i32, i32, WatchedFile)>,
) -> Map<i32, WatchedFile>
    decreases steps.len(),
{
    if steps.len() == 0 {
        m
    } else {
        let step = steps[0];
        after_cycles(m.remove(step.0).insert(step.1, step.2), steps.drop_first())
    }
}

/// The watch-set invariant: starting from a registry holding one armed watch
/// per path, any number of completed notification cycles ends with the
/// registry observing exactly the same paths, still one armed watch each.
pub proof fn lemma_cycles_preserve_tracking(
    m: Map<i32, WatchedFile>,
    steps: Seq<(i32, i32, WatchedFile)>,
)
    requires
        distinct_paths(m),
        cycles_wf(m, steps),
    ensures
        paths_of(after_cycles(m, steps)) == paths_of(m),
        distinct_paths(after_cycles(m, steps)),
    decreases steps.len(),
{
    if steps.len() > 0 {
        let step = steps[0];
        lemma_cycle_preserves_tracking(m, step.0, step.1, step.2);
        lemma_cycles_preserve_tracking(
            m.remove(step.0).insert(step.1, step.2),
            steps.drop_first(),
        );
    }
}

/// Registering a path not yet observed, under a handle not yet used, adds
/// exactly that path to the observed set and keeps one armed watch per path.
/// Startup over a de-duplicated path list therefore ends with the registry
/// observing exactly the distinct input paths.
pub proof fn lemma_register_new_path(
    before: Map<i32, WatchedFile>,
    handle: i32,
    file: WatchedFile,
)
    requires
        distinct_paths(before),
        !paths_of(before).contains(file.path@),
        !before.dom().contains(handle),
    ensures
        paths_of(before.insert(handle, file)) == paths_of(before).insert(file.path@),
        distinct_paths(before.insert(handle, file)),
{
    let after = before.insert(handle, file);
    assert forall|p: Seq<char>|
        paths_of(after).contains(p) implies paths_of(before).insert(file.path@).contains(p) by {
        let h = choose|h: i32| #[trigger] after.dom().contains(h) && after[h].path@ == p;
        if h != handle {
            assert(before.dom().contains(h) && before[h].path@ == p);
        }
    }
    assert forall|p: Seq<char>|
        paths_of(before).insert(file.path@).contains(p) implies paths_of(after).contains(p) by {
        if p == file.path@ {
            assert(after.dom().contains(handle) && after[handle].path@ == p);
        } else {
            let h = choose|h: i32| #[trigger] before.dom().contains(h) && before[h].path@ == p;
            assert(after.dom().contains(h) && after[h].path@ == p);
        }
    }
    assert(paths_of(after) =~= paths_of(before).insert(file.path@));
    assert forall|h1: i32, h2: i32|
        after.dom().contains(h1) && after.dom().contains(h2) && after[h1].path@
            == after[h2].path@ implies h1 == h2 by {
        if h1 == handle && h2 != handle {
            assert(before.dom().contains(h2) && before[h2].path@ == file.path@);
            assert(paths_of(before).contains(file.path@));
        } else if h2 == handle && h1 != handle {
            assert(before.dom().contains(h1) && before[h1].path@ == file.path@);
            assert(paths_of(before).contains(file.path@));
        } else if h1 != handle && h2 != handle {
            assert(before.dom().contains(h1) && before.dom().contains(h2));
        }
    }
}

/// Fingerprint stability: bytes that have not changed hash to the identical
/// digest, so a notification for a file whose stored fingerprint came from
/// the same content never extends the changed list — the configured command
/// is not run for it.
pub proof fn lemma_unchanged_content_not_reported(
    changed: Seq<String>,
    content: Seq<u8>,
    stored: Seq<u8>,
    fresh: WatchedFile,
)
    requires
        stored == digest_of(content),
        fresh.fingerprint@ == digest_of(content),
    ensures
        changed_after(changed, stored, fresh) == changed,
{
}

/// Change detection: a notification whose fresh digest differs from the
/// stored fingerprint appends the file's path to the changed list exactly
/// once, at the end. (A genuine content change is visible exactly as a
/// digest change; collision resistance of the hash is what the comparison
/// relies on.)
pub proof fn lemma_changed_content_reported_once(
    changed: Seq<String>,
    stored: Seq<u8>,
    fresh: WatchedFile,
)
    requires
        fresh.fingerprint@ != stored,
    ensures
        changed_after(changed, stored, fresh) == changed.push(fresh.path),
        changed_after(changed, stored, fresh).len() == changed.len() + 1,
        changed_after(changed, stored, fresh).last() == fresh.path,
{
}

/// Sequential order: the bookkeeping of a later notification only ever
/// appends to the changed list, so paths already detected keep their
/// positions and the command runner sees changed paths in arrival order.
pub proof fn lemma_batch_preserves_order(
    changed: Seq<String>,
    stored: Seq<u8>,
    fresh: WatchedFile,
    i: int,
)
    requires
        0 <= i < changed.len(),
    ensures
        changed_after(changed, stored, fresh)[i] == changed[i],
{
}

} // verus!
