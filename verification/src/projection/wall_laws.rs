//! What holds of handing frames out to a wall.
use crate::projection::gate::{GateSignal, STALL_TIMEOUT};
use crate::projection::wall::{
    due_among, entries_of, free_buffer_is_found, free_slot, given_back, handed, may_present,
    refreshed, Due, PresenterView,
};
use vstd::prelude::*;

verus! {

proof fn lemma_due(
    presenters: Seq<PresenterView>,
    free_run: bool,
    signal: GateSignal,
    now: u64,
    drop_bare: bool,
    n: int,
    k: int,
)
    requires
        0 <= n <= presenters.len() <= usize::MAX,
        0 <= k < due_among(presenters, free_run, signal, now, drop_bare, n).len(),
        forall|i: int|
            0 <= i < presenters.len() ==> (#[trigger] presenters[i]).busy.len() <= usize::MAX,
    ensures
        ({
            let d = due_among(presenters, free_run, signal, now, drop_bare, n)[k];
            &&& d.index < n
            &&& handed(presenters[d.index as int], free_run, signal, now, drop_bare).1 == Some(
                d.slot as int,
            )
        }),
    decreases n,
{
    if n > 0 {
        let before = due_among(presenters, free_run, signal, now, drop_bare, n - 1);
        if k < before.len() {
            lemma_due(presenters, free_run, signal, now, drop_bare, n - 1, k);
        } else {
            let presenter = presenters[n - 1];
            free_buffer_is_found(presenter.busy, presenter.next_buffer as int, 0);
        }
    }
}

/// A frame goes only to an output that is owed it, has a size, and is ready where
/// it runs freely; and it goes only into a buffer that the compositor does not
/// hold.
pub proof fn frames_go_into_free_buffers(
    presenters: Seq<PresenterView>,
    free_run: bool,
    signal: GateSignal,
    now: u64,
    drop_bare: bool,
    k: int,
)
    requires
        presenters.len() <= usize::MAX,
        0 <= k < due_among(
            presenters,
            free_run,
            signal,
            now,
            drop_bare,
            presenters.len() as int,
        ).len(),
        forall|i: int|
            0 <= i < presenters.len() ==> (#[trigger] presenters[i]).busy.len() <= usize::MAX,
    ensures
        ({
            let d = due_among(
                presenters,
                free_run,
                signal,
                now,
                drop_bare,
                presenters.len() as int,
            )[k];
            let presenter = presenters[d.index as int];
            &&& d.index < presenters.len()
            &&& presenter.stale
            &&& presenter.configured is Some
            &&& free_run ==> presenter.ready(signal, now)
            &&& d.slot < presenter.busy.len()
            &&& !presenter.busy[d.slot as int]
        }),
{
    lemma_due(presenters, free_run, signal, now, drop_bare, presenters.len() as int, k);
    let d = due_among(presenters, free_run, signal, now, drop_bare, presenters.len() as int)[k];
    let presenter = presenters[d.index as int];
    free_buffer_is_found(presenter.busy, presenter.next_buffer as int, 0);
}

/// With three buffers an output is never short of one: the compositor holds one
/// that it scans out and one that is queued behind it, and the third is free.
pub proof fn third_buffer_is_free(busy: Seq<bool>, next: int, shown: int, queued: int)
    requires
        0 <= next,
        busy.len() == 3,
        forall|i: int| 0 <= i < 3 && #[trigger] busy[i] ==> i == shown || i == queued,
    ensures
        free_slot(busy, next) is Some,
{
    let spare: int = if shown != 0 && queued != 0 {
        0
    } else if shown != 1 && queued != 1 {
        1
    } else {
        2
    };
    assert(!busy[spare]);
    free_buffer_is_found(busy, next, spare);
}

/// In step, no output shows a newer frame than its neighbours: once a frame may
/// be shown, every output that has a size, was not dropped and is owed the frame
/// takes it.
pub proof fn wall_in_step_moves_together(
    presenters: Seq<PresenterView>,
    signal: GateSignal,
    retry_after: Option<u64>,
    now: u64,
    drop_bare: bool,
    i: int,
)
    requires
        may_present(presenters, false, signal, retry_after, now),
        0 <= i < presenters.len(),
        presenters[i].configured is Some,
        presenters[i].stale,
        !presenters[i].stalled,
    ensures
        presenters[i].ready(signal, now),
        handed(presenters[i], false, signal, now, drop_bare).1 is Some,
        !handed(presenters[i], false, signal, now, drop_bare).0.stale,
{
    assert(presenters[i].has_free_slot());
    let entries = entries_of(presenters, signal, now);
    assert(entries[i] == presenters[i].gate_entry(signal, now));
    assert(entries[i].is_answered(STALL_TIMEOUT));
}

/// In step, one output that owes its answer holds back every other.
pub proof fn owing_output_holds_the_wall(
    presenters: Seq<PresenterView>,
    signal: GateSignal,
    retry_after: Option<u64>,
    now: u64,
    i: int,
)
    requires
        0 <= i < presenters.len(),
        !presenters[i].ready(signal, now),
    ensures
        !may_present(presenters, false, signal, retry_after, now),
{
    let entries = entries_of(presenters, signal, now);
    assert(entries[i] == presenters[i].gate_entry(signal, now));
}

/// An output that stopped answering does not freeze the wall: once a newer frame
/// waits, every output that has owed its answer for too long is dropped, and the
/// gate no longer waits for it, however long it stays silent.
pub proof fn silent_output_does_not_freeze_the_wall(
    presenters: Seq<PresenterView>,
    signal: GateSignal,
    now: u64,
    later: u64,
    i: int,
)
    requires
        0 <= i < presenters.len(),
        presenters[i].gate_entry(signal, now).waited > STALL_TIMEOUT,
    ensures
        refreshed(presenters, signal, now)[i].ready(signal, later),
{
}

/// An output that answers is let back in: a frame callback or the feedback for
/// the frame that it owes ends its wait and its stall, under the signal in use.
pub proof fn answering_output_rejoins(presenter: PresenterView, snapshot_id: u64, now: u64)
    requires
        presenter.feedback_pending_for is Some,
        snapshot_id >= presenter.feedback_pending_for->0,
    ensures
        presenter.called_back(true).ready(GateSignal::FrameCallback, now),
        !presenter.called_back(true).stalled,
        presenter.fed_back(snapshot_id, true).ready(GateSignal::Presentation, now),
        !presenter.fed_back(snapshot_id, true).stalled,
{
}

/// An output that still answers frame callbacks but has stopped showing frames
/// does not rejoin a gate that waits for presentation.
pub proof fn callback_does_not_open_a_presentation_gate(presenter: PresenterView, now: u64)
    ensures
        presenter.called_back(false).stalled == presenter.stalled,
        presenter.called_back(false).ready(GateSignal::Presentation, now) == presenter.ready(
            GateSignal::Presentation,
            now,
        ),
{
}

/// An answer for an older frame than the one that is owing ends nothing.
pub proof fn late_answer_does_not_end_a_newer_wait(presenter: PresenterView, snapshot_id: u64)
    requires
        presenter.feedback_pending_for is Some,
        snapshot_id < presenter.feedback_pending_for->0,
    ensures
        presenter.fed_back(snapshot_id, true) == presenter,
{
}

/// Handing out leaves an output owed the frame only where it is not ready while
/// running freely, or has no free buffer; so a wall in step that has taken a
/// frame is not asked to present it again.
pub proof fn handing_out_settles_the_debt(
    presenter: PresenterView,
    free_run: bool,
    signal: GateSignal,
    now: u64,
    drop_bare: bool,
)
    requires
        handed(presenter, free_run, signal, now, drop_bare).0.stale,
    ensures
        presenter.stale,
        (free_run && !presenter.ready(signal, now)) || !presenter.has_free_slot(),
        handed(presenter, free_run, signal, now, drop_bare).0 == presenter,
{
}

/// A failed drawing gives everything back: an output that was handed a frame is
/// owed it again, and the buffer that it took is free.
pub proof fn failed_drawing_is_owed_again(
    presenters: Seq<PresenterView>,
    due: Seq<Due>,
    n: int,
    k: int,
)
    requires
        0 <= k < n <= due.len(),
        forall|j: int|
            0 <= j < due.len() ==> (#[trigger] due[j]).index < presenters.len() && due[j].slot
                < presenters[due[j].index as int].busy.len(),
    ensures
        given_back(presenters, due, n).len() == presenters.len(),
        given_back(presenters, due, n)[due[k].index as int].stale,
        !given_back(presenters, due, n)[due[k].index as int].busy[due[k].slot as int],
    decreases n,
{
    lemma_given_back_shape(presenters, due, n - 1);
    lemma_given_back_shape(presenters, due, n);
    if k < n - 1 {
        failed_drawing_is_owed_again(presenters, due, n - 1, k);
    }
}

proof fn lemma_given_back_shape(presenters: Seq<PresenterView>, due: Seq<Due>, n: int)
    requires
        0 <= n <= due.len(),
        forall|j: int|
            0 <= j < due.len() ==> (#[trigger] due[j]).index < presenters.len() && due[j].slot
                < presenters[due[j].index as int].busy.len(),
    ensures
        given_back(presenters, due, n).len() == presenters.len(),
        forall|i: int|
            0 <= i < presenters.len() ==> (#[trigger] given_back(presenters, due, n)[i]).busy.len()
                == presenters[i].busy.len(),
    decreases n,
{
    if n > 0 {
        lemma_given_back_shape(presenters, due, n - 1);
    }
}

} // verus!
