//! What is told of the frames that the outputs have shown.
use crate::projection::timing::{
    distance, earliest, fresh_timing, is_earliest, is_fastest, is_latest, is_timed, lag_sample,
    lag_samples, latest, lemma_awaiting, lemma_bounds_are_unique, lemma_noted, lemma_spot, offset,
    outcomes, phase_is_nearest_to_zero, phase_sample, phase_samples, shown, spot, straddles,
    tallied, waits, OutputAccum, SettledOutcome, Slot, TimingView,
};
use vstd::prelude::*;

verus! {

/// The output at `i` showed the frame.
pub open spec fn showed(slots: Seq<Slot>, i: int) -> bool {
    0 <= i < slots.len() && slots[i] is Presented
}

proof fn lemma_earliest_exists(slots: Seq<Slot>, i: int)
    requires
        showed(slots, i),
    ensures
        is_earliest(slots, earliest(slots)),
        is_latest(slots, latest(slots)),
        exists|a: int| #[trigger] showed(slots, a) && slots[a]->at_ns == earliest(slots),
        exists|b: int| #[trigger] showed(slots, b) && slots[b]->at_ns == latest(slots),
{
    let low = lemma_lowest(slots, slots.len() as int, i);
    let high = lemma_highest(slots, slots.len() as int, i);
    assert(is_earliest(slots, slots[low]->at_ns));
    assert(is_latest(slots, slots[high]->at_ns));
    lemma_bounds_are_unique(slots);
    assert(showed(slots, low) && showed(slots, high));
}

proof fn lemma_lowest(slots: Seq<Slot>, n: int, i: int) -> (low: int)
    requires
        0 <= i < n <= slots.len(),
        slots[i] is Presented,
    ensures
        0 <= low < n,
        slots[low] is Presented,
        forall|k: int|
            0 <= k < n && (#[trigger] slots[k]) is Presented ==> slots[low]->at_ns
                <= slots[k]->at_ns,
    decreases n,
{
    if exists|k: int| 0 <= k < n - 1 && (#[trigger] slots[k]) is Presented {
        let k = choose|k: int| 0 <= k < n - 1 && (#[trigger] slots[k]) is Presented;
        let low = lemma_lowest(slots, n - 1, k);
        if slots[n - 1] is Presented && slots[n - 1]->at_ns < slots[low]->at_ns {
            n - 1
        } else {
            low
        }
    } else {
        i
    }
}

proof fn lemma_highest(slots: Seq<Slot>, n: int, i: int) -> (high: int)
    requires
        0 <= i < n <= slots.len(),
        slots[i] is Presented,
    ensures
        0 <= high < n,
        slots[high] is Presented,
        forall|k: int|
            0 <= k < n && (#[trigger] slots[k]) is Presented ==> slots[k]->at_ns
                <= slots[high]->at_ns,
    decreases n,
{
    if exists|k: int| 0 <= k < n - 1 && (#[trigger] slots[k]) is Presented {
        let k = choose|k: int| 0 <= k < n - 1 && (#[trigger] slots[k]) is Presented;
        let high = lemma_highest(slots, n - 1, k);
        if slots[n - 1] is Presented && slots[n - 1]->at_ns > slots[high]->at_ns {
            n - 1
        } else {
            high
        }
    } else {
        i
    }
}

proof fn lemma_shown(slots: Seq<Slot>, i: int, j: int)
    ensures
        showed(slots, i) ==> shown(slots) >= 1,
        showed(slots, i) && showed(slots, j) && i != j ==> shown(slots) >= 2,
    decreases slots.len(),
{
    if slots.len() > 0 {
        let rest = slots.drop_last();
        let last = slots.len() - 1;
        lemma_shown(rest, i, j);
        lemma_shown(rest, j, i);
        if showed(slots, i) && i < last {
            assert(rest[i] == slots[i]);
        }
        if showed(slots, j) && j < last {
            assert(rest[j] == slots[j]);
        }
    }
}

proof fn lemma_two_showed(slots: Seq<Slot>) -> (pair: (int, int))
    requires
        shown(slots) >= 2,
    ensures
        showed(slots, pair.0),
        showed(slots, pair.1),
        pair.0 < pair.1,
    decreases slots.len(),
{
    let rest = slots.drop_last();
    if shown(rest) >= 2 {
        let pair = lemma_two_showed(rest);
        assert(rest[pair.0] == slots[pair.0] && rest[pair.1] == slots[pair.1]);
        pair
    } else {
        let i = lemma_one_showed(rest);
        assert(rest[i] == slots[i]);
        (i, slots.len() - 1)
    }
}

proof fn lemma_one_showed(slots: Seq<Slot>) -> (i: int)
    requires
        shown(slots) >= 1,
    ensures
        showed(slots, i),
    decreases slots.len(),
{
    if slots.last() is Presented {
        slots.len() - 1
    } else {
        let i = lemma_one_showed(slots.drop_last());
        assert(slots.drop_last()[i] == slots[i]);
        i
    }
}

/// Where two outputs or more showed a frame, the offset is the longest time between
/// two of them: no two are further apart, and some two are that far.
pub proof fn offset_is_the_longest_gap(slots: Seq<Slot>, i: int, j: int)
    requires
        showed(slots, i),
        showed(slots, j),
        i != j,
    ensures
        offset(slots) is Some,
        slots[j]->at_ns - slots[i]->at_ns <= offset(slots)->0,
        exists|a: int, b: int| #[trigger]
            showed(slots, a) && #[trigger] showed(slots, b) && slots[b]->at_ns - slots[a]->at_ns
                == offset(slots)->0,
{
    lemma_shown(slots, i, j);
    lemma_earliest_exists(slots, i);
    lemma_bounds_are_unique(slots);
    let a = choose|a: int| #[trigger] showed(slots, a) && slots[a]->at_ns == earliest(slots);
    let b = choose|b: int| #[trigger] showed(slots, b) && slots[b]->at_ns == latest(slots);
    assert(showed(slots, a) && showed(slots, b));
}

/// There is an offset only where two outputs showed the frame.
pub proof fn offset_needs_two_outputs(slots: Seq<Slot>)
    requires
        offset(slots) is Some,
    ensures
        exists|i: int, j: int| #[trigger] showed(slots, i) && #[trigger] showed(slots, j) && i < j,
{
    let (i, j) = lemma_two_showed(slots);
    assert(showed(slots, i) && showed(slots, j) && i < j);
}

/// Outputs straddle a refresh exactly where two of them are further apart than half of
/// the shortest refresh period that is known.
pub proof fn outputs_straddle_beyond_half_a_refresh(slots: Seq<Slot>)
    ensures
        straddles(slots) <==> exists|i: int, j: int, k: int|
            {
                &&& #[trigger] showed(slots, i)
                &&& #[trigger] showed(slots, j)
                &&& #[trigger] showed(slots, k)
                &&& slots[k]->refresh_ns != 0
                &&& forall|m: int| #[trigger]
                    showed(slots, m) && slots[m]->refresh_ns != 0 ==> slots[k]->refresh_ns
                        <= slots[m]->refresh_ns
                &&& slots[j]->at_ns - slots[i]->at_ns > slots[k]->refresh_ns / 2
            },
{
    if straddles(slots) {
        let refresh = choose|refresh: u32|
            #[trigger] is_fastest(slots, refresh) && latest(slots) - earliest(slots) > refresh / 2;
        let k = choose|k: int| #[trigger] is_timed(slots, k) && slots[k]->refresh_ns == refresh;
        assert(showed(slots, k));
        lemma_earliest_exists(slots, k);
        let i = choose|a: int| #[trigger] showed(slots, a) && slots[a]->at_ns == earliest(slots);
        let j = choose|b: int| #[trigger] showed(slots, b) && slots[b]->at_ns == latest(slots);
        assert(showed(slots, i) && showed(slots, j));
        assert forall|m: int| #[trigger]
            showed(slots, m) && slots[m]->refresh_ns != 0 implies slots[k]->refresh_ns
            <= slots[m]->refresh_ns by {
            assert(is_timed(slots, m));
        }
        assert(slots[j]->at_ns - slots[i]->at_ns > slots[k]->refresh_ns / 2);
    }
    if exists|i: int, j: int, k: int|
        {
            &&& #[trigger] showed(slots, i)
            &&& #[trigger] showed(slots, j)
            &&& #[trigger] showed(slots, k)
            &&& slots[k]->refresh_ns != 0
            &&& forall|m: int| #[trigger]
                showed(slots, m) && slots[m]->refresh_ns != 0 ==> slots[k]->refresh_ns
                    <= slots[m]->refresh_ns
            &&& slots[j]->at_ns - slots[i]->at_ns > slots[k]->refresh_ns / 2
        } {
        let (i, j, k) = choose|i: int, j: int, k: int|
            {
                &&& #[trigger] showed(slots, i)
                &&& #[trigger] showed(slots, j)
                &&& #[trigger] showed(slots, k)
                &&& slots[k]->refresh_ns != 0
                &&& forall|m: int| #[trigger]
                    showed(slots, m) && slots[m]->refresh_ns != 0 ==> slots[k]->refresh_ns
                        <= slots[m]->refresh_ns
                &&& slots[j]->at_ns - slots[i]->at_ns > slots[k]->refresh_ns / 2
            };
        assert(i != j);
        lemma_shown(slots, i, j);
        lemma_earliest_exists(slots, i);
        assert(is_timed(slots, k));
        assert forall|m: int| #[trigger] is_timed(slots, m) implies slots[k]->refresh_ns
            <= slots[m]->refresh_ns by {
            assert(showed(slots, m));
        }
        assert(is_fastest(slots, slots[k]->refresh_ns));
        assert(latest(slots) - earliest(slots) >= slots[j]->at_ns - slots[i]->at_ns);
    }
}

/// An output is measured against output 0 where both showed the frame and a refresh
/// period of either is known: by how far it was from output 0, less whole periods of
/// the shorter that is known, so that half a period at most is left.
pub proof fn phase_is_the_distance_from_output_zero(slots: Seq<Slot>, i: int)
    requires
        0 < i < slots.len(),
    ensures
        phase_sample(slots, i) is Some <==> slots[0] is Presented && slots[i] is Presented && (
        slots[0]->refresh_ns != 0 || slots[i]->refresh_ns != 0),
        phase_sample(slots, i) matches Some((apart, period)) ==> {
            let own = slots[i]->refresh_ns;
            let first = slots[0]->refresh_ns;
            let gap = slots[i]->at_ns - slots[0]->at_ns;
            &&& period > 0
            &&& own != 0 && first != 0 ==> period <= own && period <= first
            &&& period == own || period == first
            &&& -period < 2 * apart <= period
            &&& -0x8000_0000_0000_0000 <= gap < 0x8000_0000_0000_0000 ==> (gap - apart)
                % period as int == 0
        },
{
    if let Some((apart, period)) = phase_sample(slots, i) {
        let d = distance(slots[i]->at_ns, slots[0]->at_ns);
        phase_is_nearest_to_zero(d, period as int, 0);
    }
}

/// Two outputs that are whole periods further apart are measured alike.
pub proof fn phase_forgets_whole_periods(slots: Seq<Slot>, later: Seq<Slot>, i: int, periods: int)
    requires
        0 < i < slots.len(),
        slots.len() == later.len(),
        slots[0] is Presented && later[0] == slots[0],
        slots[i] is Presented && later[i] is Presented,
        slots[i]->refresh_ns == later[i]->refresh_ns,
        slots[i]->refresh_ns != 0 && slots[i]->refresh_ns == slots[0]->refresh_ns,
        later[i]->at_ns - slots[i]->at_ns == periods * slots[0]->refresh_ns,
        slots[0]->at_ns < 0x4000_0000_0000_0000,
        slots[i]->at_ns < 0x4000_0000_0000_0000,
        later[i]->at_ns < 0x4000_0000_0000_0000,
    ensures
        phase_sample(slots, i) == phase_sample(later, i),
{
    let period = slots[0]->refresh_ns as int;
    let d = slots[i]->at_ns - slots[0]->at_ns;
    let e = later[i]->at_ns - slots[0]->at_ns;
    assert(e == d + period * periods) by (nonlinear_arith)
        requires
            e - d == periods * period,
    ;
    vstd::arithmetic::div_mod::lemma_mod_multiples_vanish(periods, d, period);
    assert(period * periods + d == e);
}

/// An output lags by the nearest whole number of its refresh periods behind the first
/// output to show the frame, where three stands for three or more.
pub proof fn lag_is_the_nearest_count_of_refreshes(slots: Seq<Slot>, i: int, first: int)
    requires
        showed(slots, i),
        showed(slots, first),
        forall|m: int| #[trigger] showed(slots, m) ==> slots[first]->at_ns <= slots[m]->at_ns,
    ensures
        lag_sample(slots, i) matches Some(lag) ==> {
            let delay = slots[i]->at_ns - slots[first]->at_ns;
            let refresh = slots[i]->refresh_ns;
            &&& refresh != 0
            &&& lag <= 3
            &&& lag > 0 ==> 2 * delay >= (2 * lag - 1) * refresh
            &&& lag < 3 ==> 2 * delay < (2 * lag + 1) * refresh
        },
        (exists|j: int| #[trigger] showed(slots, j) && j != i) && slots[i]->refresh_ns != 0
            ==> lag_sample(slots, i) is Some,
{
    lemma_earliest_exists(slots, i);
    lemma_bounds_are_unique(slots);
    assert(is_earliest(slots, slots[first]->at_ns)) by {
        assert forall|m: int|
            0 <= m < slots.len() && (#[trigger] slots[m]) is Presented implies slots[first]->at_ns
            <= slots[m]->at_ns by {
            assert(showed(slots, m));
        }
    }
    if exists|j: int| #[trigger] showed(slots, j) && j != i {
        let j = choose|j: int| #[trigger] showed(slots, j) && j != i;
        lemma_shown(slots, i, j);
    }
    if let Some(lag) = lag_sample(slots, i) {
        let refresh = slots[i]->refresh_ns as int;
        let l = lag as int;
        assert((2 * l - 1) * refresh == 2 * (l * refresh) - refresh) by (nonlinear_arith);
        assert((2 * l + 1) * refresh == 2 * (l * refresh) + refresh) by (nonlinear_arith);
        assert(l == 0 ==> l * refresh == 0) by (nonlinear_arith);
        assert(l == 1 ==> l * refresh == refresh) by (nonlinear_arith);
        assert(l == 2 ==> l * refresh == 2 * refresh) by (nonlinear_arith);
        assert(l == 3 ==> l * refresh == 3 * refresh) by (nonlinear_arith);
    }
}

/// Every output that showed or discarded the frame is told of, in order, with its
/// refresh period where that is known; an output that was not asked or has not
/// answered is not.
pub proof fn every_answer_is_told(slots: Seq<Slot>, n: int, i: int) -> (k: int)
    requires
        0 <= i < n <= slots.len() <= usize::MAX,
    ensures
        outcomes(slots, n).len() == outcomes(slots, n - 1).len() + (if slots[n - 1] is Presented
            || slots[n - 1] is Discarded {
            1int
        } else {
            0
        }),
        slots[i] is Discarded ==> 0 <= k < outcomes(slots, n).len() && outcomes(slots, n)[k] == (
            i as usize,
            SettledOutcome::Discarded,
        ),
        slots[i] matches Slot::Presented { at_ns, refresh_ns, zero_copy } ==> 0 <= k < outcomes(
            slots,
            n,
        ).len() && outcomes(slots, n)[k] == (
            i as usize,
            SettledOutcome::Presented {
                refresh_ns: if refresh_ns == 0 {
                    None
                } else {
                    Some(refresh_ns)
                },
                zero_copy,
            },
        ),
    decreases n,
{
    let before = outcomes(slots, n - 1);
    if i == n - 1 {
        before.len() as int
    } else {
        let k = every_answer_is_told(slots, n - 1, i);
        if slots[i] is Presented || slots[i] is Discarded {
            assert(outcomes(slots, n)[k] == before[k]);
        }
        k
    }
}

/// Every output that can be measured is, in order.
pub proof fn every_measure_is_told(slots: Seq<Slot>, n: int, i: int) -> (at: (int, int))
    requires
        0 <= i < n <= slots.len() <= usize::MAX,
    ensures
        phase_sample(slots, i) matches Some((apart, period)) ==> 0 <= at.0 < phase_samples(
            slots,
            n,
        ).len() && phase_samples(slots, n)[at.0] == (i as usize, apart, period),
        phase_samples(slots, n).len() == phase_samples(slots, n - 1).len() + (if phase_sample(
            slots,
            n - 1,
        ) is Some {
            1int
        } else {
            0
        }),
        lag_sample(slots, i) matches Some(lag) ==> 0 <= at.1 < lag_samples(slots, n).len()
            && lag_samples(slots, n)[at.1] == (i as usize, lag),
        lag_samples(slots, n).len() == lag_samples(slots, n - 1).len() + (if lag_sample(
            slots,
            n - 1,
        ) is Some {
            1int
        } else {
            0
        }),
    decreases n,
{
    let phases = phase_samples(slots, n - 1);
    let lags = lag_samples(slots, n - 1);
    if i == n - 1 {
        (phases.len() as int, lags.len() as int)
    } else {
        let at = every_measure_is_told(slots, n - 1, i);
        if phase_sample(slots, i) is Some {
            assert(phase_samples(slots, n)[at.0] == phases[at.0]);
        }
        if lag_sample(slots, i) is Some {
            assert(lag_samples(slots, n)[at.1] == lags[at.1]);
        }
        at
    }
}

/// What is counted of an output goes up by one for each frame: shown or discarded,
/// without a copy where it was shown so, and at its lag where that is known; the
/// newest refresh period that is known is kept.
pub proof fn counts_go_up_by_one(accum: OutputAccum, slots: Seq<Slot>, i: int)
    requires
        0 <= i < slots.len(),
        accum.has_room(),
    ensures
        ({
            let next = tallied(accum, slots, i);
            let lag = lag_sample(slots, i);
            let old = accum.lag_frames;
            let new = next.lag_frames;
            &&& slots[i] matches Slot::Presented { at_ns, refresh_ns, zero_copy } ==> {
                &&& next.presented == accum.presented + 1
                &&& next.discarded == accum.discarded
                &&& next.zero_copy_presented == accum.zero_copy_presented + (if zero_copy {
                    1int
                } else {
                    0
                })
                &&& refresh_ns != 0 ==> next.refresh_ns == Some(refresh_ns)
                &&& refresh_ns == 0 ==> next.refresh_ns == accum.refresh_ns
                &&& new.zero == old.zero + (if lag == Some(0u32) {
                    1int
                } else {
                    0
                })
                &&& new.one == old.one + (if lag == Some(1u32) {
                    1int
                } else {
                    0
                })
                &&& new.two == old.two + (if lag == Some(2u32) {
                    1int
                } else {
                    0
                })
                &&& new.more == old.more + (if lag == Some(3u32) {
                    1int
                } else {
                    0
                })
            }
            &&& slots[i] is Discarded ==> next == (OutputAccum {
                discarded: (accum.discarded + 1) as u32,
                ..accum
            })
            &&& slots[i] is Waiting || slots[i] is NotCommitted ==> next == accum
        }),
{
}

proof fn lemma_spot_is(state: TimingView, id: u64, k: int)
    requires
        state.wf(),
        0 <= k < state.pending.len(),
        state.pending[k].0 == id,
    ensures
        spot(state.pending, id) == k,
        waits(state.pending, id),
{
    lemma_spot(state.pending, id);
    let s = spot(state.pending, id);
    if s < k {
        assert(state.pending[s].0 < state.pending[k].0);
        assert(state.pending[s].0 >= id);
    }
    if s > k {
        assert(state.pending[k].0 < id);
    }
}

/// Some frame of that number has answers outstanding.
pub open spec fn is_outstanding(state: TimingView, id: u64) -> bool {
    exists|k: int| 0 <= k < state.pending.len() && (#[trigger] state.pending[k]).0 == id
}

/// An output that is asked about a frame that is outstanding waits for it from then on;
/// the other outputs and the other frames stay as they are, and nothing is counted.
pub proof fn asking_again_waits_for_one_more(state: TimingView, id: u64, index: int, k: int)
    requires
        state.wf(),
        0 <= index < state.per_output.len(),
        0 <= k < state.pending.len(),
        state.pending[k].0 == id,
    ensures
        state.requested(id, index) == (TimingView {
            pending: state.pending.update(
                k,
                (id, state.pending[k].1.update(index, Slot::Waiting)),
            ),
            ..state
        }),
{
    lemma_spot_is(state, id, k);
}

/// The first output that is asked about a frame makes it outstanding: it waits for that
/// output, no other output has been asked, every other frame stays as it is, frames
/// stay in the order of their numbers, and nothing is counted.
pub proof fn asking_makes_a_frame_outstanding(state: TimingView, id: u64, index: int) -> (k: int)
    requires
        state.wf(),
        0 <= index < state.per_output.len(),
        !is_outstanding(state, id),
        state.pending.len() < 16,
    ensures
        ({
            let next = state.requested(id, index);
            &&& 0 <= k < next.pending.len()
            &&& next.pending.len() == state.pending.len() + 1
            &&& next.pending[k].0 == id
            &&& next.pending[k].1.len() == state.per_output.len()
            &&& forall|i: int|
                0 <= i < state.per_output.len() ==> #[trigger] next.pending[k].1[i] == if i
                    == index {
                    Slot::Waiting
                } else {
                    Slot::NotCommitted
                }
            &&& forall|i: int| 0 <= i < k ==> #[trigger] next.pending[i] == state.pending[i]
            &&& forall|i: int|
                k < i < next.pending.len() ==> #[trigger] next.pending[i] == state.pending[i - 1]
            &&& forall|i: int| 0 <= i < k ==> (#[trigger] next.pending[i]).0 < id
            &&& forall|i: int|
                k < i < next.pending.len() ==> (#[trigger] next.pending[i]).0 > id
            &&& next == (TimingView { pending: next.pending, ..state })
        }),
{
    lemma_spot(state.pending, id);
    let k = spot(state.pending, id);
    assert(!waits(state.pending, id)) by {
        if waits(state.pending, id) {
            assert(state.pending[k].0 == id);
        }
    }
    lemma_awaiting(state, id);
    let awaiting = state.awaiting(id);
    assert(spot(awaiting.pending, id) == k);
    let next = state.requested(id, index);
    assert(next.pending =~= awaiting.pending.update(
        k,
        (id, awaiting.pending[k].1.update(index, Slot::Waiting)),
    ));
    assert forall|i: int| k < i < next.pending.len() implies (#[trigger] next.pending[i]).0
        > id by {
        assert(next.pending[i] == state.pending[i - 1]);
        assert(state.pending[i - 1].0 >= id);
        assert(state.pending[i - 1].0 != id);
    }
    k
}

/// An answer for a frame for which other outputs are still waited for is noted for that
/// output, and nothing is counted.
pub proof fn early_answers_are_noted(
    state: TimingView,
    id: u64,
    index: int,
    slot: Slot,
    k: int,
    other: int,
)
    requires
        state.wf(),
        0 <= index < state.per_output.len(),
        0 <= k < state.pending.len(),
        state.pending[k].0 == id,
        0 <= other < state.per_output.len(),
        other != index,
        state.pending[k].1[other] == Slot::Waiting,
    ensures
        state.answered(id, index, slot) == (TimingView {
            pending: state.pending.update(k, (id, state.pending[k].1.update(index, slot))),
            ..state
        }),
{
    lemma_spot_is(state, id, k);
    lemma_noted(state, id, index, slot);
    let noted = state.noted(id, index, slot);
    lemma_spot(noted.pending, id);
    let s = spot(noted.pending, id);
    assert(noted.pending[k].0 == id);
    if s < k {
        assert(noted.pending[s].0 < noted.pending[k].0);
    }
    assert(s == k);
    assert(noted.pending[k].1[other] == Slot::Waiting);
    assert(noted.pending[k].1.contains(Slot::Waiting));
}

/// The last answer for a frame settles it: the frame is no longer outstanding, every
/// other frame is, and every output's counts, the offsets, the straddles and the
/// distances take it in.
pub proof fn last_answer_settles_the_frame(
    state: TimingView,
    id: u64,
    index: int,
    slot: Slot,
    k: int,
    i: int,
)
    requires
        state.wf(),
        state.has_room(),
        0 <= index < state.per_output.len(),
        0 <= k < state.pending.len(),
        state.pending[k].0 == id,
        slot != Slot::Waiting,
        forall|other: int|
            0 <= other < state.per_output.len() && other != index
                ==> #[trigger] state.pending[k].1[other] != Slot::Waiting,
        0 <= i < state.per_output.len(),
    ensures
        ({
            let slots = state.pending[k].1.update(index, slot);
            let next = state.answered(id, index, slot);
            &&& next.pending == state.pending.remove(k)
            &&& next.per_output.len() == state.per_output.len()
            &&& next.per_output[i] == tallied(state.per_output[i], slots, i)
            &&& offset(slots) is None ==> next.offsets_ns == state.offsets_ns
            &&& offset(slots) matches Some(apart) ==> next.offsets_ns.len()
                == state.offsets_ns.len() + 1 && next.offsets_ns.last() == apart
                && state.offsets_ns.is_prefix_of(next.offsets_ns)
            &&& next.straddles == state.straddles + (if straddles(slots) {
                1int
            } else {
                0
            })
            &&& phase_sample(slots, i) is None ==> next.phase[i] == state.phase[i]
            &&& phase_sample(slots, i) matches Some(sample) ==> next.phase[i]
                == state.phase[i].push(sample)
            &&& next.snapshot_id == state.snapshot_id
        }),
{
    lemma_spot_is(state, id, k);
    lemma_noted(state, id, index, slot);
    let noted = state.noted(id, index, slot);
    lemma_spot(noted.pending, id);
    let s = spot(noted.pending, id);
    assert(noted.pending[k].0 == id);
    if s < k {
        assert(noted.pending[s].0 < noted.pending[k].0);
    }
    assert(s == k);
    let slots = state.pending[k].1.update(index, slot);
    assert(noted.pending[k].1 == slots);
    assert(!slots.contains(Slot::Waiting)) by {
        if slots.contains(Slot::Waiting) {
            let other = choose|other: int|
                0 <= other < slots.len() && slots[other] == Slot::Waiting;
            assert(other != index);
            assert(state.pending[k].1[other] == Slot::Waiting);
        }
    }
    assert(noted.pending.remove(k) =~= state.pending.remove(k));
}

/// An answer for a frame that is not outstanding changes nothing.
pub proof fn unexpected_answers_change_nothing(
    state: TimingView,
    id: u64,
    index: int,
    slot: Slot,
)
    requires
        state.wf(),
        !is_outstanding(state, id),
    ensures
        state.answered(id, index, slot) == state,
{
    lemma_spot(state.pending, id);
    if waits(state.pending, id) {
        assert(state.pending[spot(state.pending, id)].0 == id);
    }
}

/// With sixteen frames outstanding, asking about one more gives the oldest up, as it
/// stands.
pub proof fn oldest_frame_is_given_up(state: TimingView, id: u64, index: int)
    requires
        state.wf(),
        0 <= index < state.per_output.len(),
        !is_outstanding(state, id),
        state.pending.len() == 16,
        state.pending[0].0 < id,
    ensures
        ({
            let next = state.requested(id, index);
            &&& next.pending.len() == 16
            &&& !is_outstanding(next, state.pending[0].0)
            &&& is_outstanding(next, id)
            &&& forall|i: int|
                0 <= i < state.per_output.len() ==> #[trigger] next.per_output[i] == tallied(
                    state.per_output[i],
                    state.pending[0].1,
                    i,
                )
        }),
{
    lemma_spot(state.pending, id);
    let k = spot(state.pending, id);
    if waits(state.pending, id) {
        assert(state.pending[k].0 == id);
    }
    assert(k > 0);
    lemma_awaiting(state, id);
    let awaiting = state.awaiting(id);
    lemma_noted(awaiting, id, index, Slot::Waiting);
    let asked = awaiting.noted(id, index, Slot::Waiting);
    assert(asked.pending.len() == 17);
    assert(asked.pending[0] == awaiting.pending[0]);
    assert(awaiting.pending[0] == state.pending[0]);
    let next = state.requested(id, index);
    assert(next.pending =~= asked.pending.remove(0));
    assert(asked.pending[k].0 == id);
    assert(next.pending[k - 1] == asked.pending[k]);
    assert forall|i: int| 0 <= i < next.pending.len() implies (#[trigger] next.pending[i]).0
        != state.pending[0].0 by {
        assert(next.pending[i] == asked.pending[i + 1]);
        assert(asked.pending[0].0 < asked.pending[i + 1].0);
    }
}

/// What is reported starts again from nothing, but for the refresh periods and the
/// frames that are outstanding.
pub proof fn reports_start_again(state: TimingView, i: int)
    requires
        state.wf(),
        0 <= i < state.per_output.len(),
    ensures
        ({
            let next = state.drained();
            let accum = next.per_output[i];
            &&& next.pending == state.pending
            &&& next.snapshot_id == state.snapshot_id
            &&& next.offsets_ns.len() == 0
            &&& next.straddles == 0
            &&& next.phase.len() == state.phase.len()
            &&& next.phase[i].len() == 0
            &&& accum.refresh_ns == state.per_output[i].refresh_ns
            &&& accum.presented == 0 && accum.discarded == 0 && accum.zero_copy_presented == 0
            &&& accum.lag_frames.zero == 0 && accum.lag_frames.one == 0
            &&& accum.lag_frames.two == 0 && accum.lag_frames.more == 0
        }),
{
}

/// A fresh count has nothing outstanding and nothing counted, for each of the outputs.
pub proof fn counts_start_at_nothing(outputs: nat, i: int)
    requires
        0 <= i < outputs,
    ensures
        ({
            let fresh = fresh_timing(outputs);
            let accum = fresh.per_output[i];
            &&& fresh.snapshot_id == 0
            &&& fresh.pending.len() == 0 && fresh.offsets_ns.len() == 0 && fresh.straddles == 0
            &&& fresh.per_output.len() == outputs && fresh.phase.len() == outputs
            &&& fresh.phase[i].len() == 0
            &&& accum.refresh_ns is None
            &&& accum.presented == 0 && accum.discarded == 0 && accum.zero_copy_presented == 0
            &&& accum.lag_frames.zero == 0 && accum.lag_frames.one == 0
            &&& accum.lag_frames.two == 0 && accum.lag_frames.more == 0
        }),
{
}

} // verus!
