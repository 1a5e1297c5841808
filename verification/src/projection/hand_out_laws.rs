//! What holds of the buffers and the waiting of a wall's outputs.
use crate::projection::gate::{
    dead_after, entry_for, is_dead, is_given_up, is_open, signal_for, stalled_among, GateEntry,
    GateSignal, CONSECUTIVE_DEAD_INTERVALS_FOR_SELF_HEAL, STALL_TIMEOUT,
};
use crate::projection::wall::{
    after_hand_out, all_due, due_among, entries_of, free_buffer_is_found, free_from, free_slot,
    gate_permits, given_back, handed, handed_in_step, is_resized, may_present, none_lacks_a_buffer,
    none_owed, refreshed, released, rotation, sized, Due, PresenterView, Wall, CPU_PRESENT_SLOTS,
    GPU_PRESENT_SLOTS,
};
use vstd::prelude::*;
use vstd::string::*;

verus! {

/// The counts of outputs and of their buffers can be counted with.
pub open spec fn can_be_counted(presenters: Seq<PresenterView>) -> bool {
    &&& presenters.len() <= usize::MAX
    &&& forall|i: int|
        0 <= i < presenters.len() ==> (#[trigger] presenters[i]).busy.len() <= usize::MAX
}

proof fn lemma_entry(
    presenters: Seq<PresenterView>,
    free_run: bool,
    signal: GateSignal,
    now: u64,
    drop_bare: bool,
    n: int,
)
    requires
        0 <= n <= presenters.len(),
        can_be_counted(presenters),
    ensures
        ({
            let due = due_among(presenters, free_run, signal, now, drop_bare, n);
            &&& due.len() <= n
            &&& forall|k: int|
                0 <= k < due.len() ==> (#[trigger] due[k]).index < n && handed(
                    presenters[due[k].index as int],
                    free_run,
                    signal,
                    now,
                    drop_bare,
                ).1 == Some(due[k].slot as int)
            &&& forall|j: int, k: int|
                0 <= j < k < due.len() ==> (#[trigger] due[j]).index < (#[trigger] due[k]).index
            &&& forall|i: int|
                0 <= i < n && handed(
                    #[trigger] presenters[i],
                    free_run,
                    signal,
                    now,
                    drop_bare,
                ).1 is Some ==> exists|k: int| 0 <= k < due.len() && (#[trigger] due[k]).index == i
        }),
    decreases n,
{
    if n > 0 {
        lemma_entry(presenters, free_run, signal, now, drop_bare, n - 1);
        let before = due_among(presenters, free_run, signal, now, drop_bare, n - 1);
        let due = due_among(presenters, free_run, signal, now, drop_bare, n);
        let presenter = presenters[n - 1];
        free_buffer_is_found(presenter.busy, presenter.next_buffer as int, 0);
        let taken = handed(presenter, free_run, signal, now, drop_bare).1;
        if taken is Some {
            assert(due[before.len() as int].index == n - 1);
        }
        assert forall|i: int|
            0 <= i < n && handed(
                #[trigger] presenters[i],
                free_run,
                signal,
                now,
                drop_bare,
            ).1 is Some implies exists|k: int|
            0 <= k < due.len() && (#[trigger] due[k]).index == i by {
            if i < n - 1 {
                let k = choose|k: int| 0 <= k < before.len() && (#[trigger] before[k]).index == i;
                assert(due[k] == before[k]);
            }
        }
    }
}

/// After a frame is handed out, every buffer that it goes into is held, and was not
/// before; the output's other buffers stay as they were, the output is no longer
/// owed the frame, and its search goes on behind the buffer that it took.
pub proof fn handed_buffers_are_held(
    presenters: Seq<PresenterView>,
    free_run: bool,
    signal: GateSignal,
    now: u64,
    drop_bare: bool,
    k: int,
)
    requires
        can_be_counted(presenters),
        0 <= k < all_due(presenters, free_run, signal, now, drop_bare).len(),
    ensures
        ({
            let due = all_due(presenters, free_run, signal, now, drop_bare)[k];
            let before = presenters[due.index as int];
            let after = after_hand_out(
                presenters,
                free_run,
                signal,
                now,
                drop_bare,
            )[due.index as int];
            &&& due.index < presenters.len()
            &&& due.slot < before.busy.len()
            &&& !before.busy[due.slot as int]
            &&& after.busy[due.slot as int]
            &&& after.busy.len() == before.busy.len()
            &&& forall|j: int|
                0 <= j < before.busy.len() && j != due.slot ==> #[trigger] after.busy[j]
                    == before.busy[j]
            &&& before.stale && !after.stale
            &&& after.next_buffer == if due.slot + 1 < before.busy.len() {
                due.slot + 1
            } else {
                0
            }
            &&& after == (PresenterView {
                busy: after.busy,
                stale: false,
                next_buffer: after.next_buffer,
                ..before
            })
        }),
{
    lemma_entry(presenters, free_run, signal, now, drop_bare, presenters.len() as int);
    let due = all_due(presenters, free_run, signal, now, drop_bare)[k];
    let before = presenters[due.index as int];
    free_buffer_is_found(before.busy, before.next_buffer as int, 0);
    assert(handed(before, free_run, signal, now, drop_bare).0 == after_hand_out(
        presenters,
        free_run,
        signal,
        now,
        drop_bare,
    )[due.index as int]);
    if due.slot + 1 < before.busy.len() {
        vstd::arithmetic::div_mod::lemma_small_mod((due.slot + 1) as nat, before.busy.len());
    } else {
        vstd::arithmetic::div_mod::lemma_mod_self_0(before.busy.len() as int);
    }
}

/// An output that is not handed the frame keeps its buffers and everything else but
/// whether it is owed the frame.
pub proof fn passed_over_outputs_stay_as_they_are(
    presenters: Seq<PresenterView>,
    free_run: bool,
    signal: GateSignal,
    now: u64,
    drop_bare: bool,
    i: int,
)
    requires
        can_be_counted(presenters),
        0 <= i < presenters.len(),
        forall|k: int|
            0 <= k < all_due(presenters, free_run, signal, now, drop_bare).len() ==> (
            #[trigger] all_due(presenters, free_run, signal, now, drop_bare)[k]).index != i,
    ensures
        ({
            let after = after_hand_out(presenters, free_run, signal, now, drop_bare)[i];
            &&& after == (PresenterView { stale: after.stale, ..presenters[i] })
            &&& after.stale ==> presenters[i].stale
        }),
{
    lemma_entry(presenters, free_run, signal, now, drop_bare, presenters.len() as int);
    if handed(presenters[i], free_run, signal, now, drop_bare).1 is Some {
        let due = all_due(presenters, free_run, signal, now, drop_bare);
        let k = choose|k: int| 0 <= k < due.len() && (#[trigger] due[k]).index == i;
        assert(due[k].index == i);
    }
}

/// Every buffer that is held in one state of the wall is still held in another.
pub open spec fn still_held(earlier: Seq<PresenterView>, later: Seq<PresenterView>) -> bool {
    &&& earlier.len() == later.len()
    &&& forall|i: int, slot: int|
        #![trigger earlier[i].busy[slot]]
        #![trigger later[i].busy[slot]]
        0 <= i < earlier.len() && 0 <= slot < earlier[i].busy.len() && earlier[i].busy[slot]
            ==> later[i].busy[slot]
}

/// Two hand-outs between which no buffer comes back never name the same buffer of
/// the same output.
pub proof fn held_buffers_are_not_handed_out_again(
    first: Seq<PresenterView>,
    second: Seq<PresenterView>,
    free_run: bool,
    signal: GateSignal,
    now: u64,
    later: u64,
    drop_bare: bool,
    j: int,
    k: int,
)
    requires
        can_be_counted(first),
        can_be_counted(second),
        still_held(after_hand_out(first, free_run, signal, now, drop_bare), second),
        0 <= j < all_due(first, free_run, signal, now, drop_bare).len(),
        0 <= k < all_due(second, free_run, signal, later, drop_bare).len(),
    ensures
        all_due(first, free_run, signal, now, drop_bare)[j] != all_due(
            second,
            free_run,
            signal,
            later,
            drop_bare,
        )[k],
{
    handed_buffers_are_held(first, free_run, signal, now, drop_bare, j);
    handed_buffers_are_held(second, free_run, signal, later, drop_bare, k);
    let due = all_due(first, free_run, signal, now, drop_bare)[j];
    let after = after_hand_out(first, free_run, signal, now, drop_bare);
    assert(after[due.index as int].busy[due.slot as int]);
}

/// A buffer that is held stays held while frames are sent, outputs answer or are given
/// a size, newer frames come in, are handed out or dropped, and geometry is noted: nothing
/// of that gives a buffer back.
pub proof fn buffers_stay_held_until_they_come_back(
    presenters: Seq<PresenterView>,
    free_run: bool,
    signal: GateSignal,
    now: u64,
    drop_bare: bool,
    i: int,
    slot: int,
    snapshot_id: u64,
    flag: bool,
    index: int,
    size: (u32, u32),
)
    requires
        0 <= i < presenters.len(),
        0 <= slot < presenters[i].busy.len(),
        presenters[i].busy[slot],
    ensures
        presenters[i].sent(snapshot_id, flag, now).busy[slot],
        presenters[i].called_back(flag).busy[slot],
        presenters[i].fed_back(snapshot_id, flag).busy[slot],
        refreshed(presenters, signal, now)[i].busy[slot],
        after_hand_out(presenters, free_run, signal, now, drop_bare)[i].busy[slot],
        presenters[i].noted_sent().busy[slot],
        presenters[i].noted_shown(snapshot_id).busy[slot],
        none_owed(presenters)[i].busy[slot],
        sized(presenters, index, size, flag)[i].busy[slot],
{
    free_buffer_is_found(presenters[i].busy, presenters[i].next_buffer as int, 0);
}

/// A failed drawing undoes the hand-out: each output that was handed the frame is
/// owed it again, and every output has exactly the buffers held that it had before.
pub proof fn failed_drawing_undoes_the_hand_out(
    presenters: Seq<PresenterView>,
    free_run: bool,
    signal: GateSignal,
    now: u64,
    drop_bare: bool,
    i: int,
)
    requires
        can_be_counted(presenters),
        0 <= i < presenters.len(),
    ensures
        ({
            let due = all_due(presenters, free_run, signal, now, drop_bare);
            let after = after_hand_out(presenters, free_run, signal, now, drop_bare);
            let back = given_back(after, due, due.len() as int);
            &&& back.len() == presenters.len()
            &&& back[i].busy == presenters[i].busy
            &&& back[i].stale == ((exists|k: int|
                0 <= k < due.len() && (#[trigger] due[k]).index == i) || after[i].stale)
            &&& back[i] == (PresenterView {
                busy: presenters[i].busy,
                stale: back[i].stale,
                next_buffer: after[i].next_buffer,
                ..presenters[i]
            })
        }),
{
    let due = all_due(presenters, free_run, signal, now, drop_bare);
    let after = after_hand_out(presenters, free_run, signal, now, drop_bare);
    lemma_entry(presenters, free_run, signal, now, drop_bare, presenters.len() as int);
    lemma_given_back(presenters, free_run, signal, now, drop_bare, due.len() as int, i);
    if handed(presenters[i], free_run, signal, now, drop_bare).1 is Some {
        let k = choose|k: int| 0 <= k < due.len() && (#[trigger] due[k]).index == i;
        handed_buffers_are_held(presenters, free_run, signal, now, drop_bare, k);
        assert(after[i].busy.update(due[k].slot as int, false) =~= presenters[i].busy);
    }
}

proof fn lemma_given_back(
    presenters: Seq<PresenterView>,
    free_run: bool,
    signal: GateSignal,
    now: u64,
    drop_bare: bool,
    n: int,
    i: int,
)
    requires
        can_be_counted(presenters),
        0 <= i < presenters.len(),
        0 <= n <= all_due(presenters, free_run, signal, now, drop_bare).len(),
    ensures
        ({
            let due = all_due(presenters, free_run, signal, now, drop_bare);
            let after = after_hand_out(presenters, free_run, signal, now, drop_bare);
            let back = given_back(after, due, n);
            &&& back.len() == presenters.len()
            &&& (forall|k: int| 0 <= k < n ==> (#[trigger] due[k]).index != i) ==> back[i]
                == after[i]
            &&& forall|k: int|
                0 <= k < n && (#[trigger] due[k]).index == i ==> back[i] == (PresenterView {
                    busy: after[i].busy.update(due[k].slot as int, false),
                    stale: true,
                    ..after[i]
                })
        }),
    decreases n,
{
    lemma_entry(presenters, free_run, signal, now, drop_bare, presenters.len() as int);
    if n > 0 {
        lemma_given_back(presenters, free_run, signal, now, drop_bare, n - 1, i);
        let due = all_due(presenters, free_run, signal, now, drop_bare);
        let after = after_hand_out(presenters, free_run, signal, now, drop_bare);
        let before = given_back(after, due, n - 1);
        if due[n - 1].index == i {
            assert forall|k: int| 0 <= k < n - 1 implies (#[trigger] due[k]).index != i by {}
            assert(before[i] == after[i]);
        }
    }
}

/// A failed drawing gives back the buffers that it names and no others.
pub proof fn failed_drawing_gives_back_no_more(
    presenters: Seq<PresenterView>,
    due: Seq<Due>,
    n: int,
    i: int,
    slot: int,
)
    requires
        0 <= n <= due.len(),
        0 <= i < presenters.len(),
        0 <= slot < presenters[i].busy.len(),
        forall|k: int|
            0 <= k < n ==> (#[trigger] due[k]).index != i || due[k].slot != slot,
        forall|k: int|
            0 <= k < n ==> (#[trigger] due[k]).index < presenters.len() && due[k].slot
                < presenters[due[k].index as int].busy.len(),
    ensures
        given_back(presenters, due, n).len() == presenters.len(),
        given_back(presenters, due, n)[i].busy.len() == presenters[i].busy.len(),
        given_back(presenters, due, n)[i].busy[slot] == presenters[i].busy[slot],
    decreases n,
{
    if n > 0 {
        failed_drawing_gives_back_no_more(presenters, due, n - 1, i, slot);
    }
}

/// The search for a free buffer starts where it left off, goes round, and takes the
/// first buffer that is not held.
pub proof fn search_takes_the_next_free_buffer(busy: Seq<bool>, next: int, j: int)
    requires
        0 <= next < busy.len(),
        0 <= j < busy.len(),
    ensures
        match free_slot(busy, next) {
            Some(slot) => {
                &&& 0 <= slot < busy.len()
                &&& !busy[slot]
                &&& next <= slot && next <= j < slot ==> busy[j]
                &&& slot < next && (next <= j || j < slot) ==> busy[j]
            },
            None => busy[j],
        },
{
    free_buffer_is_found(busy, next, j);
    lemma_search(busy, next, 0);
    if let Some(slot) = free_slot(busy, next) {
        let len = busy.len() as int;
        let step = if next <= j {
            j - next
        } else {
            j + len - next
        };
        if next <= j {
            vstd::arithmetic::div_mod::lemma_small_mod(j as nat, len as nat);
        } else {
            vstd::arithmetic::div_mod::lemma_mod_add_multiples_vanish(j, len);
            vstd::arithmetic::div_mod::lemma_small_mod(j as nat, len as nat);
        }
        assert(rotation(busy.len(), next, step) == j);
    }
}

/// How far round the buffer at `slot` lies from `next`.
spec fn steps_to(len: int, next: int, slot: int) -> int {
    if next <= slot {
        slot - next
    } else {
        slot + len - next
    }
}

proof fn lemma_search(busy: Seq<bool>, next: int, step: int)
    requires
        0 <= next < busy.len(),
        0 <= step <= busy.len(),
    ensures
        free_from(busy, next, step) matches Some(slot) ==> 0 <= slot < busy.len() && step
            <= steps_to(busy.len() as int, next, slot) && forall|s: int|
            step <= s < steps_to(busy.len() as int, next, slot) ==> busy[#[trigger] rotation(
                busy.len(),
                next,
                s,
            )],
    decreases busy.len() - step,
{
    let len = busy.len() as int;
    if step < len {
        let at = rotation(busy.len(), next, step);
        if next + step < len {
            vstd::arithmetic::div_mod::lemma_small_mod((next + step) as nat, len as nat);
        } else {
            vstd::arithmetic::div_mod::lemma_mod_add_multiples_vanish(next + step - len, len);
            vstd::arithmetic::div_mod::lemma_small_mod((next + step - len) as nat, len as nat);
        }
        assert(steps_to(len, next, at) == step);
        if busy[at] {
            lemma_search(busy, next, step + 1);
        }
    }
}

/// An output does not hold a frame back: it owes no answer of the kind that is waited
/// for, or was dropped, or has owed it for more than 300 milliseconds.
pub open spec fn has_answered(presenter: PresenterView, signal: GateSignal, now: u64) -> bool {
    match signal {
        GateSignal::Presentation => presenter.feedback_pending_for is None || presenter.stalled || (
        presenter.feedback_since is Some && now > presenter.feedback_since->0 + 300_000_000),
        GateSignal::FrameCallback => !presenter.frame_pending || presenter.stalled || (
        presenter.pending_since is Some && now > presenter.pending_since->0 + 300_000_000),
    }
}

/// An output is ready exactly where it does not hold a frame back.
pub proof fn ready_outputs_have_answered(presenter: PresenterView, signal: GateSignal, now: u64)
    ensures
        presenter.ready(signal, now) <==> has_answered(presenter, signal, now),
{
}

/// An output has a buffer that is not held.
pub open spec fn has_room(presenter: PresenterView) -> bool {
    exists|slot: int| 0 <= slot < presenter.busy.len() && !#[trigger] presenter.busy[slot]
}

proof fn lemma_room(presenter: PresenterView)
    ensures
        has_room(presenter) <==> presenter.has_free_slot(),
{
    free_buffer_is_found(presenter.busy, presenter.next_buffer as int, 0);
    if has_room(presenter) {
        let slot = choose|slot: int|
            0 <= slot < presenter.busy.len() && !#[trigger] presenter.busy[slot];
        free_buffer_is_found(presenter.busy, presenter.next_buffer as int, slot);
    }
    if presenter.has_free_slot() {
        let slot = free_slot(presenter.busy, presenter.next_buffer as int)->0;
        assert(!presenter.busy[slot]);
    }
}

/// A frame goes exactly to the outputs that have a size, are owed it, have a buffer
/// for it and, where each output takes frames at its own pace, do not hold it back.
pub proof fn frames_go_to_the_outputs_that_can_take_them(
    presenters: Seq<PresenterView>,
    free_run: bool,
    signal: GateSignal,
    now: u64,
    drop_bare: bool,
    i: int,
)
    requires
        can_be_counted(presenters),
        0 <= i < presenters.len(),
    ensures
        (exists|k: int|
            0 <= k < all_due(presenters, free_run, signal, now, drop_bare).len() && (
            #[trigger] all_due(presenters, free_run, signal, now, drop_bare)[k]).index == i) <==> {
            &&& presenters[i].configured is Some
            &&& presenters[i].stale
            &&& has_room(presenters[i])
            &&& free_run ==> has_answered(presenters[i], signal, now)
        },
{
    lemma_entry(presenters, free_run, signal, now, drop_bare, presenters.len() as int);
    lemma_room(presenters[i]);
    ready_outputs_have_answered(presenters[i], signal, now);
    let due = all_due(presenters, free_run, signal, now, drop_bare);
    if exists|k: int| 0 <= k < due.len() && (#[trigger] due[k]).index == i {
        let k = choose|k: int| 0 <= k < due.len() && (#[trigger] due[k]).index == i;
        assert(handed(presenters[i], free_run, signal, now, drop_bare).1 == Some(
            due[k].slot as int,
        ));
    }
}

/// Outputs are handed a frame in their order, and none twice.
pub proof fn outputs_are_named_in_order(
    presenters: Seq<PresenterView>,
    free_run: bool,
    signal: GateSignal,
    now: u64,
    drop_bare: bool,
    j: int,
    k: int,
)
    requires
        can_be_counted(presenters),
        0 <= j < k < all_due(presenters, free_run, signal, now, drop_bare).len(),
    ensures
        all_due(presenters, free_run, signal, now, drop_bare)[j].index < all_due(
            presenters,
            free_run,
            signal,
            now,
            drop_bare,
        )[k].index,
{
    lemma_entry(presenters, free_run, signal, now, drop_bare, presenters.len() as int);
}

/// An output stays owed a frame that it could not take, and is no longer owed one
/// that it took, that it has no size for, or, where that is asked, that it has no
/// buffers at all for.
pub proof fn debts_end_as_they_should(
    presenters: Seq<PresenterView>,
    free_run: bool,
    signal: GateSignal,
    now: u64,
    drop_bare: bool,
    i: int,
)
    requires
        can_be_counted(presenters),
        0 <= i < presenters.len(),
    ensures
        after_hand_out(presenters, free_run, signal, now, drop_bare)[i].stale <==> {
            &&& presenters[i].stale
            &&& presenters[i].configured is Some
            &&& (free_run && !has_answered(presenters[i], signal, now)) || (!has_room(presenters[i])
                && !(drop_bare && presenters[i].busy.len() == 0))
        },
{
    lemma_room(presenters[i]);
    ready_outputs_have_answered(presenters[i], signal, now);
}

/// In step, a frame is handed out only while no failed drawing is waited out, where
/// some output is owed it and has a buffer, no output that still counts lacks one,
/// and no output holds it back.
pub proof fn wall_in_step_waits_for_all(
    presenters: Seq<PresenterView>,
    signal: GateSignal,
    retry_after: Option<u64>,
    now: u64,
)
    ensures
        may_present(presenters, false, signal, retry_after, now) <==> {
            &&& retry_after is None || retry_after->0 <= now
            &&& exists|i: int|
                0 <= i < presenters.len() && (#[trigger] presenters[i]).stale && has_room(
                    presenters[i],
                )
            &&& forall|i: int|
                0 <= i < presenters.len() && (#[trigger] presenters[i]).stale
                    && !presenters[i].stalled ==> has_room(presenters[i])
            &&& forall|i: int|
                0 <= i < presenters.len() ==> has_answered(
                    #[trigger] presenters[i],
                    signal,
                    now,
                )
        },
{
    let entries = entries_of(presenters, signal, now);
    assert forall|i: int| 0 <= i < presenters.len() implies {
        &&& has_room(#[trigger] presenters[i]) == presenters[i].has_free_slot()
        &&& has_answered(presenters[i], signal, now) == entries[i].is_answered(STALL_TIMEOUT)
    } by {
        lemma_room(presenters[i]);
        ready_outputs_have_answered(presenters[i], signal, now);
        assert(entries[i] == presenters[i].gate_entry(signal, now));
    }
    if may_present(presenters, false, signal, retry_after, now) {
        assert forall|i: int| 0 <= i < presenters.len() implies has_answered(
            #[trigger] presenters[i],
            signal,
            now,
        ) by {
            assert(entries[i].is_answered(STALL_TIMEOUT));
        }
    }
}

/// Where each output takes frames at its own pace, one that is owed a frame, has a
/// buffer and does not hold it back is enough.
pub proof fn free_outputs_wait_for_none(
    presenters: Seq<PresenterView>,
    signal: GateSignal,
    retry_after: Option<u64>,
    now: u64,
)
    ensures
        may_present(presenters, true, signal, retry_after, now) <==> {
            &&& retry_after is None || retry_after->0 <= now
            &&& exists|i: int|
                0 <= i < presenters.len() && (#[trigger] presenters[i]).stale && has_room(
                    presenters[i],
                ) && has_answered(presenters[i], signal, now)
        },
        gate_permits(presenters, true, signal, now) <==> exists|i: int|
            0 <= i < presenters.len() && has_answered(#[trigger] presenters[i], signal, now),
{
    assert forall|i: int| 0 <= i < presenters.len() implies {
        &&& has_room(#[trigger] presenters[i]) == presenters[i].has_free_slot()
        &&& has_answered(presenters[i], signal, now) == presenters[i].ready(signal, now)
    } by {
        lemma_room(presenters[i]);
        ready_outputs_have_answered(presenters[i], signal, now);
    }
}

/// The frame gate opens in step exactly where no output holds the frame back.
pub proof fn gate_in_step_waits_for_all(
    presenters: Seq<PresenterView>,
    signal: GateSignal,
    now: u64,
)
    ensures
        gate_permits(presenters, false, signal, now) <==> forall|i: int|
            0 <= i < presenters.len() ==> has_answered(#[trigger] presenters[i], signal, now),
{
    let entries = entries_of(presenters, signal, now);
    assert forall|i: int| 0 <= i < presenters.len() implies has_answered(
        #[trigger] presenters[i],
        signal,
        now,
    ) == entries[i].is_answered(STALL_TIMEOUT) by {
        assert(entries[i] == presenters[i].gate_entry(signal, now));
    }
    if gate_permits(presenters, false, signal, now) {
        assert forall|i: int| 0 <= i < presenters.len() implies has_answered(
            #[trigger] presenters[i],
            signal,
            now,
        ) by {
            assert(entries[i].is_answered(STALL_TIMEOUT));
        }
    }
}

/// An output that was sent a frame owes a callback from then on, and feedback for
/// that frame unless it already owed some for an older one; nothing else changes.
pub proof fn sending_starts_the_wait(
    presenter: PresenterView,
    snapshot_id: u64,
    feedback: bool,
    now: u64,
)
    ensures
        ({
            let sent = presenter.sent(snapshot_id, feedback, now);
            &&& sent.frame_pending
            &&& sent.pending_since == Some(now)
            &&& presenter.feedback_pending_for is Some || !feedback
                ==> sent.feedback_pending_for == presenter.feedback_pending_for
                && sent.feedback_since == presenter.feedback_since
            &&& presenter.feedback_pending_for is None && feedback
                ==> sent.feedback_pending_for == Some(snapshot_id) && sent.feedback_since == Some(
                now,
            )
            &&& sent == (PresenterView {
                frame_pending: true,
                pending_since: Some(now),
                feedback_pending_for: sent.feedback_pending_for,
                feedback_since: sent.feedback_since,
                ..presenter
            })
            &&& !presenter.stalled ==> !has_answered(sent, GateSignal::FrameCallback, now)
            &&& !presenter.stalled && feedback && presenter.feedback_pending_for is None
                ==> !has_answered(sent, GateSignal::Presentation, now)
        }),
{
}

/// A callback ends the wait for callbacks, and the stall of an output that is waited
/// for by callbacks; feedback for the frame that is owing, or a newer one, ends the
/// wait for feedback, and the stall of an output that is waited for by feedback.
pub proof fn answers_end_the_wait(presenter: PresenterView, snapshot_id: u64, gated: bool)
    ensures
        presenter.called_back(gated) == (PresenterView {
            frame_pending: false,
            pending_since: None,
            stalled: if gated {
                false
            } else {
                presenter.stalled
            },
            ..presenter
        }),
        presenter.feedback_pending_for is None ==> presenter.fed_back(snapshot_id, gated)
            == presenter,
        presenter.feedback_pending_for matches Some(owing) ==> presenter.fed_back(
            snapshot_id,
            gated,
        ) == if snapshot_id < owing {
            presenter
        } else {
            PresenterView {
                feedback_pending_for: None,
                feedback_since: None,
                stalled: if gated {
                    false
                } else {
                    presenter.stalled
                },
                ..presenter
            }
        },
{
}

/// How long an output has owed the answer that is waited for.
pub open spec fn owed_for(presenter: PresenterView, signal: GateSignal, now: u64) -> int {
    let since = match signal {
        GateSignal::Presentation => presenter.feedback_since,
        GateSignal::FrameCallback => presenter.pending_since,
    };
    if since is Some && now >= since->0 {
        now - since->0
    } else {
        0
    }
}

/// An output owes the answer that is waited for, and was not dropped.
pub open spec fn is_waited_for(presenter: PresenterView, signal: GateSignal) -> bool {
    &&& !presenter.stalled
    &&& match signal {
        GateSignal::Presentation => presenter.feedback_pending_for is Some,
        GateSignal::FrameCallback => presenter.frame_pending,
    }
}

/// A newer frame is owed to every output, and drops those that have owed an answer
/// for more than 300 milliseconds; nothing else changes.
pub proof fn newer_frames_are_owed_to_all(
    presenters: Seq<PresenterView>,
    signal: GateSignal,
    now: u64,
    i: int,
)
    requires
        0 <= i < presenters.len(),
    ensures
        refreshed(presenters, signal, now).len() == presenters.len(),
        refreshed(presenters, signal, now)[i] == (PresenterView {
            stale: true,
            stalled: presenters[i].stalled || (is_waited_for(presenters[i], signal) && owed_for(
                presenters[i],
                signal,
                now,
            ) > 300_000_000),
            ..presenters[i]
        }),
{
}

/// What is reported of outputs that are dropped: exactly those that are waited for
/// and have owed their answer for more than 300 milliseconds, in their order, each
/// with how long.
pub proof fn drops_are_reported(
    presenters: Seq<PresenterView>,
    signal: GateSignal,
    now: u64,
    n: int,
)
    requires
        0 <= n <= presenters.len() <= usize::MAX,
    ensures
        ({
            let told = stalled_among(entries_of(presenters, signal, now), STALL_TIMEOUT, n);
            &&& forall|k: int|
                0 <= k < told.len() ==> (#[trigger] told[k]).0 < n && is_waited_for(
                    presenters[told[k].0 as int],
                    signal,
                ) && owed_for(presenters[told[k].0 as int], signal, now) == told[k].1
                    && told[k].1 > 300_000_000
            &&& forall|j: int, k: int|
                0 <= j < k < told.len() ==> (#[trigger] told[j]).0 < (#[trigger] told[k]).0
            &&& forall|i: int|
                0 <= i < n && is_waited_for(#[trigger] presenters[i], signal) && owed_for(
                    presenters[i],
                    signal,
                    now,
                ) > 300_000_000 ==> exists|k: int|
                    0 <= k < told.len() && (#[trigger] told[k]).0 == i
        }),
    decreases n,
{
    if n > 0 {
        drops_are_reported(presenters, signal, now, n - 1);
        let entries = entries_of(presenters, signal, now);
        assert(entries[n - 1] == presenters[n - 1].gate_entry(signal, now));
        let before = stalled_among(entries, STALL_TIMEOUT, n - 1);
        let told = stalled_among(entries, STALL_TIMEOUT, n);
        if entries[n - 1].stalls(STALL_TIMEOUT) {
            assert(told[before.len() as int].0 == n - 1);
        }
        assert forall|i: int|
            0 <= i < n && is_waited_for(#[trigger] presenters[i], signal) && owed_for(
                presenters[i],
                signal,
                now,
            ) > 300_000_000 implies exists|k: int|
            0 <= k < told.len() && (#[trigger] told[k]).0 == i by {
            if i < n - 1 {
                let k = choose|k: int| 0 <= k < before.len() && (#[trigger] before[k]).0 == i;
                assert(told[k] == before[k]);
            }
        }
    }
}

/// An interval in which feedback came for thirty frames or more, and none was shown,
/// is dead; two of them in a row are enough to give up.
pub proof fn dead_intervals_are_long_and_dark(answers: u32, presented: u32)
    ensures
        is_dead(true, answers, presented) <==> answers >= 30 && presented == 0,
        !is_dead(false, answers, presented),
        CONSECUTIVE_DEAD_INTERVALS_FOR_SELF_HEAL == 2,
{
}

/// A wall waits for presentation feedback where the compositor offers it, and for
/// frame callbacks where it does not.
pub proof fn walls_wait_for_the_best_signal()
    ensures
        signal_for(true) == GateSignal::Presentation,
        signal_for(false) == GateSignal::FrameCallback,
        GateSignal::Presentation.name() == "presentation feedback"@,
        GateSignal::FrameCallback.name() == "frame callbacks"@,
{
}

/// The graphics card draws into three buffers, the processor into two.
pub proof fn buffers_of_an_output()
    ensures
        GPU_PRESENT_SLOTS == 3,
        CPU_PRESENT_SLOTS == 2,
{
}

/// A buffer that came back is free, and nothing else changes; what is no buffer changes
/// nothing.
pub proof fn released_buffers_are_free(
    presenters: Seq<PresenterView>,
    index: int,
    slot: int,
    i: int,
    j: int,
)
    requires
        0 <= i < presenters.len(),
        0 <= j < presenters[i].busy.len(),
    ensures
        ({
            let after = released(presenters, index, slot);
            &&& after.len() == presenters.len()
            &&& after[i].busy.len() == presenters[i].busy.len()
            &&& after[i].busy[j] == (presenters[i].busy[j] && !(i == index && j == slot))
            &&& after[i] == (PresenterView { busy: after[i].busy, ..presenters[i] })
        }),
{
}

/// A buffer that was handed out and came back can be handed out again, and is the only
/// one of which that can be said that could not be said before.
pub proof fn buffers_come_back_for_the_next_frame(
    presenters: Seq<PresenterView>,
    index: int,
    slot: int,
)
    requires
        0 <= index < presenters.len(),
        0 <= slot < presenters[index].busy.len(),
    ensures
        has_room(released(presenters, index, slot)[index]),
        forall|i: int|
            0 <= i < presenters.len() && i != index ==> has_room(
                #[trigger] released(presenters, index, slot)[i],
            ) == has_room(presenters[i]),
{
    let after = released(presenters, index, slot)[index];
    assert(!after.busy[slot]);
}

/// An output takes the size that it is given; while its tables are edited live, another
/// size than it has is not taken and ends the run instead. No other output changes.
pub proof fn sizes_are_taken_or_end_the_run(
    presenters: Seq<PresenterView>,
    index: int,
    size: (u32, u32),
    live_edits: bool,
    i: int,
)
    requires
        0 <= i < presenters.len(),
    ensures
        ({
            let after = sized(presenters, index, size, live_edits);
            let before = presenters[index].configured;
            let ends = is_resized(presenters, index, size, live_edits);
            &&& after.len() == presenters.len()
            &&& i != index || ends ==> after[i] == presenters[i]
            &&& i == index && !ends ==> after[i] == (PresenterView {
                configured: Some(size),
                ..presenters[i]
            })
            &&& 0 <= index < presenters.len() ==> (ends <==> live_edits && before is Some && (
            (before->0).0 != size.0 || (before->0).1 != size.1))
            &&& !(0 <= index < presenters.len()) ==> !ends
        }),
{
}

/// Geometry counts as new where it is newer than all that was noted before, and is then
/// noted: what is noted never goes back, and the same is not new twice.
pub proof fn revisions_only_grow(presenter: PresenterView, revision: u64)
    ensures
        ({
            let sent = presenter.noted_sent();
            &&& presenter.is_unsent() <==> presenter.warp_submitted_revision is None
                || presenter.warp_revision > presenter.warp_submitted_revision->0
            &&& sent.warp_submitted_revision is Some
            &&& sent.warp_submitted_revision->0 >= presenter.warp_revision
            &&& presenter.warp_submitted_revision is Some ==> sent.warp_submitted_revision->0
                >= presenter.warp_submitted_revision->0
            &&& !sent.is_unsent()
            &&& sent == (PresenterView {
                warp_submitted_revision: sent.warp_submitted_revision,
                ..presenter
            })
        }),
        ({
            let shown = presenter.noted_shown(revision);
            &&& presenter.is_unreported(revision) <==> presenter.warp_reported_revision is None
                || revision > presenter.warp_reported_revision->0
            &&& shown.warp_reported_revision is Some
            &&& shown.warp_reported_revision->0 >= revision
            &&& presenter.warp_reported_revision is Some ==> shown.warp_reported_revision->0
                >= presenter.warp_reported_revision->0
            &&& !shown.is_unreported(revision)
            &&& shown == (PresenterView {
                warp_reported_revision: shown.warp_reported_revision,
                ..presenter
            })
        }),
{
}

/// Where no frame is owed any more, no output is owed one, and nothing else changes.
pub proof fn debts_can_be_dropped(presenters: Seq<PresenterView>, i: int)
    requires
        0 <= i < presenters.len(),
    ensures
        none_owed(presenters).len() == presenters.len(),
        none_owed(presenters)[i] == (PresenterView { stale: false, ..presenters[i] }),
{
}

/// One dead interval is not enough to give up, a second right after it is, and one that
/// is not dead starts the count again.
pub proof fn two_dead_intervals_in_a_row_are_enough(run: int)
    ensures
        !is_given_up(dead_after(0, true)),
        run >= 1 ==> is_given_up(dead_after(run, true)),
        dead_after(run, false) == 0,
        !is_given_up(dead_after(run, false)),
{
}

/// A wall that is the same but for its outputs is the same in everything else.
pub proof fn walls_change_in_their_outputs_alone(a: Wall, b: Wall)
    requires
        a.same_but_presenters(b),
    ensures
        a == (Wall { presenters: a.presenters, ..b }),
{
}

/// Where one output of a wall is replaced, that one is and no other.
pub proof fn one_output_is_replaced(wall: Wall, index: int, presenter: PresenterView, i: int)
    requires
        0 <= i < wall.views().len(),
    ensures
        wall.with_presenter(index, presenter).len() == wall.views().len(),
        i == index ==> wall.with_presenter(index, presenter)[i] == presenter,
        i != index ==> wall.with_presenter(index, presenter)[i] == wall.views()[i],
{
}

/// In step, no frame of the counter is handed out while an output that still counts is owed
/// it and all its buffers are held.
pub proof fn wall_in_step_waits_for_buffers(presenters: Seq<PresenterView>)
    ensures
        none_lacks_a_buffer(presenters) <==> forall|i: int|
            0 <= i < presenters.len() && (#[trigger] presenters[i]).stale && !presenters[i].stalled
                ==> has_room(presenters[i]),
{
    assert forall|i: int| 0 <= i < presenters.len() implies has_room(#[trigger] presenters[i])
        == presenters[i].has_free_slot() by {
        lemma_room(presenters[i]);
    }
}

/// The frame gate is open where every entry owes nothing, was dropped, or has waited for
/// longer than the limit.
pub proof fn open_gates_wait_for_none(entries: Seq<GateEntry>, limit: u64)
    ensures
        is_open(entries, limit) <==> forall|i: int|
            0 <= i < entries.len() ==> !(#[trigger] entries[i]).waiting || entries[i].stalled
                || entries[i].waited > limit,
{
    if is_open(entries, limit) {
        assert forall|i: int| 0 <= i < entries.len() implies !(#[trigger] entries[i]).waiting
            || entries[i].stalled || entries[i].waited > limit by {
            assert(entries[i].is_answered(limit));
        }
    }
}

/// What an entry of the frame gate waits for is the signal in use, for as long as that has
/// been owed.
pub proof fn entries_wait_for_the_signal(frame: Option<u64>, feedback: Option<u64>, stalled: bool)
    ensures
        entry_for(GateSignal::Presentation, frame, feedback, stalled) == (GateEntry {
            waiting: feedback is Some,
            waited: if feedback is Some {
                feedback->0
            } else {
                0
            },
            stalled,
        }),
        entry_for(GateSignal::FrameCallback, frame, feedback, stalled) == (GateEntry {
            waiting: frame is Some,
            waited: if frame is Some {
                frame->0
            } else {
                0
            },
            stalled,
        }),
{
}

/// Of the counter, nothing is handed out and nothing changes in step while an output that
/// still counts is owed a frame and all its buffers are held; otherwise what is handed out
/// is held from then on, like any other frame.
pub proof fn counter_goes_out_together(
    presenters: Seq<PresenterView>,
    free_run: bool,
    signal: GateSignal,
    now: u64,
    i: int,
    k: int,
)
    requires
        can_be_counted(presenters),
        0 <= i < presenters.len(),
    ensures
        ({
            let (due, after) = handed_in_step(presenters, free_run, signal, now);
            &&& !free_run && presenters[i].stale && !presenters[i].stalled && !has_room(
                presenters[i],
            ) ==> due.len() == 0 && after == presenters
            &&& 0 <= k < due.len() ==> {
                let d = due[k];
                &&& d.index < presenters.len()
                &&& d.slot < presenters[d.index as int].busy.len()
                &&& !presenters[d.index as int].busy[d.slot as int]
                &&& after[d.index as int].busy[d.slot as int]
                &&& !after[d.index as int].stale
            }
        }),
{
    wall_in_step_waits_for_buffers(presenters);
    let (due, after) = handed_in_step(presenters, free_run, signal, now);
    if 0 <= k < due.len() {
        handed_buffers_are_held(presenters, free_run, signal, now, true, k);
    }
}

} // verus!
