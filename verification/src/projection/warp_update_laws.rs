//! What holds of live edits.
use crate::projection::warp_update::{
    after_request, changed_from, fault, installed_after, is_changed, message_fault, request_event,
    same_key, update_fault, BuiltOutput, ControlUpdate, ControllerView, KeyView, Reader,
    WarpCheckView,
};
use vstd::prelude::*;

verus! {

/// Generations only grow, an update of the own session uses its generation up
/// whether or not it is accepted, and a foreign one uses none up.
pub proof fn generations_are_used_up(
    state: ControllerView,
    update: ControlUpdate,
    checks: Seq<WarpCheckView>,
)
    ensures
        after_request(state, update, checks).requested_generation >= state.requested_generation,
        update.session@ == state.spec.control_session ==> after_request(
            state,
            update,
            checks,
        ).requested_generation >= update.generation,
        update.session@ != state.spec.control_session ==> after_request(
            state,
            update,
            checks,
        ).requested_generation == state.requested_generation,
{
}

/// A generation that was refused cannot be used again for another cut: a later
/// update of the session that is not newer is refused too, and nothing waits for
/// it.
pub proof fn refused_generation_cannot_be_replayed(
    state: ControllerView,
    update: ControlUpdate,
    checks: Seq<WarpCheckView>,
    again: ControlUpdate,
    again_checks: Seq<WarpCheckView>,
)
    requires
        update.session@ == state.spec.control_session,
        again.session@ == state.spec.control_session,
        again.generation <= update.generation,
    ensures
        ({
            let next = after_request(state, update, checks);
            let last = after_request(next, again, again_checks);
            &&& request_event(next, again, again_checks).1 is Rejected
            &&& last.pending == next.pending
            &&& last.installed == next.installed
            &&& last.building == next.building
            &&& last.requested_generation == next.requested_generation
        }),
{
}

/// A refused update leaves what is installed, what is being built and what waits
/// as it was.
pub proof fn refusal_preserves_the_state(
    state: ControllerView,
    update: ControlUpdate,
    checks: Seq<WarpCheckView>,
)
    requires
        request_event(state, update, checks).1 is Rejected,
    ensures
        ({
            let next = after_request(state, update, checks);
            &&& next.installed == state.installed
            &&& next.installed_generation == state.installed_generation
            &&& next.pending == state.pending
            &&& next.building == state.building
            &&& next.spec == state.spec
        }),
{
}

/// An update of a cut that needs a restart is refused, and only a message of
/// another version, sent to this session, demands the restart itself.
pub proof fn restart_is_demanded_by_version_alone(
    state: ControllerView,
    update: ControlUpdate,
    checks: Seq<WarpCheckView>,
)
    requires
        !state.restart_required,
    ensures
        after_request(state, update, checks).restart_required <==> update.session@
            == state.spec.control_session && update.version
            != crate::projection::warp_update::CONTROL_VERSION,
{
}

/// A cut is accepted exactly where nothing is wrong with its message and nothing
/// with the cut itself; it then waits, in place of any cut that waited before.
pub proof fn accepted_cut_waits(
    state: ControllerView,
    update: ControlUpdate,
    checks: Seq<WarpCheckView>,
)
    ensures
        request_event(state, update, checks).1 is Accepted <==> update_fault(
            state,
            update.version,
            update.session@,
            update.generation,
            update.spec.deep_view(),
        ) is None && fault(update.spec.deep_view(), state.sizes, checks) is None,
        request_event(state, update, checks).1 is Accepted ==> after_request(
            state,
            update,
            checks,
        ).pending is Some && after_request(state, update, checks).pending->0.generation
            == update.generation && after_request(state, update, checks).requested_generation
            == update.generation,
{
}

/// A build covers an output exactly where its table is not the wanted one.
pub proof fn build_covers_what_changed(
    installed: Seq<Option<KeyView>>,
    keys: Seq<KeyView>,
    from: int,
    i: int,
)
    requires
        0 <= from <= keys.len(),
    ensures
        changed_from(installed, keys, from).contains(i) <==> from <= i < keys.len() && is_changed(
            installed,
            keys,
            i,
        ),
    decreases keys.len() - from,
{
    if from < keys.len() {
        build_covers_what_changed(installed, keys, from + 1, i);
        let rest = changed_from(installed, keys, from + 1);
        if is_changed(installed, keys, from) {
            let all = seq![from] + rest;
            assert(all[0] == from);
            if rest.contains(i) {
                let k = choose|k: int| 0 <= k < rest.len() && rest[k] == i;
                assert(all[k + 1] == i);
            }
            if all.contains(i) && i != from {
                let k = choose|k: int| 0 <= k < all.len() && all[k] == i;
                assert(rest[k - 1] == i);
            }
        }
    }
}

/// Where nothing changed, nothing is built.
pub proof fn unchanged_cut_builds_nothing(
    installed: Seq<Option<KeyView>>,
    keys: Seq<KeyView>,
    from: int,
)
    requires
        0 <= from <= keys.len(),
        forall|i: int| from <= i < keys.len() ==> !is_changed(installed, keys, i),
    ensures
        changed_from(installed, keys, from) == Seq::<int>::empty(),
    decreases keys.len() - from,
{
    if from < keys.len() {
        assert(!is_changed(installed, keys, from));
        unchanged_cut_builds_nothing(installed, keys, from + 1);
    }
}

proof fn lemma_untouched(
    installed: Seq<Option<KeyView>>,
    outputs: Seq<BuiltOutput>,
    n: int,
    i: int,
)
    requires
        0 <= n <= outputs.len(),
        0 <= i < installed.len(),
        forall|k: int|
            0 <= k < outputs.len() ==> (#[trigger] outputs[k]).index < installed.len(),
        forall|k: int| 0 <= k < n ==> (#[trigger] outputs[k]).index != i,
    ensures
        installed_after(installed, outputs, n).len() == installed.len(),
        installed_after(installed, outputs, n)[i] == installed[i],
    decreases n,
{
    if n > 0 {
        lemma_untouched(installed, outputs, n - 1, i);
    }
}

proof fn lemma_written(
    installed: Seq<Option<KeyView>>,
    outputs: Seq<BuiltOutput>,
    keys: Seq<KeyView>,
    n: int,
    k: int,
)
    requires
        0 <= k < n <= outputs.len(),
        forall|j: int|
            0 <= j < outputs.len() ==> (#[trigger] outputs[j]).index < installed.len()
                && outputs[j].key.deep_view() == keys[outputs[j].index as int],
    ensures
        installed_after(installed, outputs, n).len() == installed.len(),
        installed_after(installed, outputs, n)[outputs[k].index as int] == Some(
            keys[outputs[k].index as int],
        ),
    decreases n,
{
    if k < n - 1 {
        lemma_written(installed, outputs, keys, n - 1, k);
    } else {
        lemma_len(installed, outputs, n - 1);
    }
}

proof fn lemma_len(installed: Seq<Option<KeyView>>, outputs: Seq<BuiltOutput>, n: int)
    requires
        0 <= n <= outputs.len(),
        forall|j: int| 0 <= j < outputs.len() ==> (#[trigger] outputs[j]).index < installed.len(),
    ensures
        installed_after(installed, outputs, n).len() == installed.len(),
    decreases n,
{
    if n > 0 {
        lemma_len(installed, outputs, n - 1);
    }
}

/// A sparse build is as good as a full one: once the tables that changed are
/// built and installed, every table in force compares equal to the wanted one,
/// and the tables that did not change were not touched.
pub proof fn sparse_build_is_complete(
    installed: Seq<Option<KeyView>>,
    keys: Seq<KeyView>,
    outputs: Seq<BuiltOutput>,
    i: int,
)
    requires
        installed.len() == keys.len(),
        0 <= i < keys.len(),
        outputs.map_values(|output: BuiltOutput| output.index as int) == changed_from(
            installed,
            keys,
            0,
        ),
        forall|k: int|
            0 <= k < outputs.len() ==> (#[trigger] outputs[k]).key.deep_view()
                == keys[outputs[k].index as int],
    ensures
        ({
            let after = installed_after(installed, outputs, outputs.len() as int);
            &&& after.len() == installed.len()
            &&& is_changed(installed, keys, i) ==> after[i] == Some(keys[i])
            &&& !is_changed(installed, keys, i) ==> after[i] == installed[i] && same_key(
                after[i]->0,
                keys[i],
            )
        }),
{
    let indices = changed_from(installed, keys, 0);
    let index = |output: BuiltOutput| output.index as int;
    assert forall|k: int| 0 <= k < outputs.len() implies (#[trigger] outputs[k]).index
        < installed.len() && is_changed(installed, keys, outputs[k].index as int) by {
        assert(outputs.map_values(index)[k] == indices[k]);
        assert(indices.contains(indices[k]));
        build_covers_what_changed(installed, keys, 0, indices[k]);
    }
    build_covers_what_changed(installed, keys, 0, i);
    if is_changed(installed, keys, i) {
        let k = choose|k: int| 0 <= k < indices.len() && indices[k] == i;
        assert(outputs.map_values(index)[k] == i);
        lemma_written(installed, outputs, keys, outputs.len() as int, k);
    } else {
        lemma_untouched(installed, outputs, outputs.len() as int, i);
    }
}

/// Stale and foreign messages are not put down: what the reader puts down is
/// newer than everything that it has seen for its session.
pub proof fn reader_keeps_the_newest(reader: Reader, update: ControlUpdate)
    requires
        message_fault(reader, update) is None,
    ensures
        update.session@ == reader.session@,
        update.generation > reader.newest_generation,
{
}

} // verus!
