//! When each output showed a frame, and how far apart the outputs are.
//!
//! Times are nanoseconds on the compositor's presentation clock.
use vstd::prelude::*;

verus! {

/// What an output answered for one frame.
#[derive(Debug, Clone, Copy, PartialEq, Eq, Structural)]
pub enum Slot {
    /// The output was not asked.
    NotCommitted,
    /// The output was asked and has not answered.
    Waiting,
    /// The frame was shown. A refresh period of zero is unknown. Without a copy
    /// means that the buffer itself was scanned out.
    Presented { at_ns: u64, refresh_ns: u32, zero_copy: bool },
    /// The frame was never shown.
    Discarded,
}

/// What an answer works out to.
#[derive(Debug, Clone, Copy, PartialEq, Eq, Structural)]
pub enum SettledOutcome {
    Presented { refresh_ns: Option<u32>, zero_copy: bool },
    Discarded,
}

/// What the answers for one frame work out to.
#[derive(Debug, Clone, PartialEq, Eq)]
pub struct Settled {
    /// The answers, with the outputs that gave them.
    pub outcomes: Vec<(usize, SettledOutcome)>,
    /// The time between the first and the last output to show the frame, where
    /// two or more did.
    pub offset_ns: Option<u64>,
    /// The outputs landed on different refreshes.
    pub straddle: bool,
    /// For each later output that showed the frame together with output 0: its
    /// distance within a refresh period, and that period.
    pub phase_samples: Vec<(usize, i64, u32)>,
    /// For each output that showed the frame: how many of its refreshes it came
    /// after the first, where 3 stands for three or more.
    pub lag_frames: Vec<(usize, u32)>,
}

/// The representative nearest to zero of a distance on a circle: where two are
/// equally near, the positive one.
pub open spec fn phase(d: int, period: int) -> int {
    if period <= 0 {
        d
    } else if 2 * (d % period) > period {
        d % period - period
    } else {
        d % period
    }
}

/// Reduces a distance to the representative nearest to zero.
pub fn reduce_phase(d_ns: i64, period_ns: i64) -> (reduced: i64)
    requires
        period_ns > 0 ==> 2 * (d_ns as int % period_ns as int) <= i64::MAX,
    ensures
        reduced == phase(d_ns as int, period_ns as int),
{
    if period_ns <= 0 {
        return d_ns;
    }
    let wrapped: i64 = match d_ns.checked_rem_euclid(period_ns) {
        Some(wrapped) => wrapped,
        None => 0,
    };
    if wrapped * 2 > period_ns {
        wrapped - period_ns
    } else {
        wrapped
    }
}

/// A reduced distance lies within half a period of zero, and is a whole number
/// of periods away from the distance itself; no other number is both.
pub proof fn phase_is_nearest_to_zero(d: int, period: int, other: int)
    requires
        period > 0,
    ensures
        -period < 2 * phase(d, period) <= period,
        (d - phase(d, period)) % period == 0,
        -period < 2 * other <= period && (d - other) % period == 0 ==> other == phase(d, period),
{
    let w = d % period;
    let q = d / period;
    assert(d == period * q + w && 0 <= w < period) by {
        vstd::arithmetic::div_mod::lemma_fundamental_div_mod(d, period);
        vstd::arithmetic::div_mod::lemma_mod_bound(d, period);
    }
    let r = phase(d, period);
    let k: int = if 2 * w > period {
        q + 1
    } else {
        q
    };
    assert(d - r == k * period) by (nonlinear_arith)
        requires
            d == period * q + w,
            (k == q + 1 && r == w - period) || (k == q && r == w),
    ;
    assert((k * period) % period == 0) by {
        vstd::arithmetic::div_mod::lemma_mod_multiples_basic(k, period);
    }
    if -period < 2 * other <= period && (d - other) % period == 0 {
        let m = (d - other) / period;
        assert(d - other == period * m) by {
            vstd::arithmetic::div_mod::lemma_fundamental_div_mod(d - other, period);
        }
        assert(other == r) by (nonlinear_arith)
            requires
                d - other == period * m,
                d - r == k * period,
                -period < 2 * other <= period,
                -period < 2 * r <= period,
                period > 0,
        ;
    }
}

/// What an answer works out to; nothing where there is none.
pub open spec fn outcome(slot: Slot) -> Option<SettledOutcome> {
    match slot {
        Slot::Presented { at_ns, refresh_ns, zero_copy } => Some(
            SettledOutcome::Presented { refresh_ns: known(refresh_ns), zero_copy },
        ),
        Slot::Discarded => Some(SettledOutcome::Discarded),
        _ => None,
    }
}

/// A refresh period, where it is known.
pub open spec fn known(refresh_ns: u32) -> Option<u32> {
    if refresh_ns != 0 {
        Some(refresh_ns)
    } else {
        None
    }
}

/// How many outputs showed the frame.
pub open spec fn shown(slots: Seq<Slot>) -> nat
    decreases slots.len(),
{
    if slots.len() == 0 {
        0
    } else {
        shown(slots.drop_last()) + if slots.last() is Presented {
            1nat
        } else {
            0nat
        }
    }
}

/// `at` is the time at which the first output showed the frame.
pub open spec fn is_earliest(slots: Seq<Slot>, at: u64) -> bool {
    &&& exists|i: int|
        0 <= i < slots.len() && (#[trigger] slots[i]) is Presented && slots[i]->at_ns == at
    &&& forall|i: int|
        0 <= i < slots.len() && (#[trigger] slots[i]) is Presented ==> at <= slots[i]->at_ns
}

/// `at` is the time at which the last output showed the frame.
pub open spec fn is_latest(slots: Seq<Slot>, at: u64) -> bool {
    &&& exists|i: int|
        0 <= i < slots.len() && (#[trigger] slots[i]) is Presented && slots[i]->at_ns == at
    &&& forall|i: int|
        0 <= i < slots.len() && (#[trigger] slots[i]) is Presented ==> slots[i]->at_ns <= at
}

/// The output at `i` showed the frame and knows its refresh period.
pub open spec fn is_timed(slots: Seq<Slot>, i: int) -> bool {
    0 <= i < slots.len() && slots[i] is Presented && slots[i]->refresh_ns != 0
}

/// `refresh` is the shortest known refresh period among the outputs that showed
/// the frame.
pub open spec fn is_fastest(slots: Seq<Slot>, refresh: u32) -> bool {
    &&& exists|i: int| #[trigger] is_timed(slots, i) && slots[i]->refresh_ns == refresh
    &&& forall|i: int| #[trigger] is_timed(slots, i) ==> refresh <= slots[i]->refresh_ns
}

/// The time at which the first output showed the frame.
pub open spec fn earliest(slots: Seq<Slot>) -> u64 {
    choose|at: u64| is_earliest(slots, at)
}

/// The time at which the last output showed the frame.
pub open spec fn latest(slots: Seq<Slot>) -> u64 {
    choose|at: u64| is_latest(slots, at)
}

/// The time between the first and the last output to show the frame.
pub open spec fn offset(slots: Seq<Slot>) -> Option<u64> {
    if shown(slots) >= 2 {
        Some((latest(slots) - earliest(slots)) as u64)
    } else {
        None
    }
}

/// The outputs landed on different refreshes: they are more than half the
/// shortest known refresh period apart.
pub open spec fn straddles(slots: Seq<Slot>) -> bool {
    &&& shown(slots) >= 2
    &&& exists|refresh: u32|
        #[trigger] is_fastest(slots, refresh) && latest(slots) - earliest(slots) > refresh / 2
}

/// The period in which two outputs are compared: the shorter known one.
pub open spec fn common_period(a: u32, b: u32) -> u32 {
    if a == 0 {
        b
    } else if b == 0 || a <= b {
        a
    } else {
        b
    }
}

/// How far one time is from another, as a signed number of the same width: times
/// that are further apart than such a number holds are taken round the clock.
pub open spec fn distance(at: u64, from: u64) -> int {
    let d = at - from;
    if d > i64::MAX {
        d - 0x1_0000_0000_0000_0000
    } else if d < i64::MIN {
        d + 0x1_0000_0000_0000_0000
    } else {
        d
    }
}

/// How far one time is from another.
fn distance_of(at: u64, from: u64) -> (d: i64)
    ensures
        d == distance(at, from),
{
    let exact: i128 = at as i128 - from as i128;
    let turned: i128 = if exact > 0x7fff_ffff_ffff_ffff {
        exact - 0x1_0000_0000_0000_0000
    } else if exact < -0x8000_0000_0000_0000 {
        exact + 0x1_0000_0000_0000_0000
    } else {
        exact
    };
    turned as i64
}

/// The distance of the output at `i` from output 0, within the period in which
/// they are compared.
pub open spec fn phase_sample(slots: Seq<Slot>, i: int) -> Option<(i64, u32)> {
    if 0 < i < slots.len() && slots[0] is Presented && slots[i] is Presented && common_period(
        slots[i]->refresh_ns,
        slots[0]->refresh_ns,
    ) != 0 {
        let period = common_period(slots[i]->refresh_ns, slots[0]->refresh_ns);
        Some((phase(distance(slots[i]->at_ns, slots[0]->at_ns), period as int) as i64, period))
    } else {
        None
    }
}

/// A delay in refresh periods, to the nearest whole number (halves upwards), and
/// no more than three.
pub open spec fn lag(delay: int, refresh: int) -> u32 {
    if 2 * delay < refresh {
        0
    } else if 2 * delay < 3 * refresh {
        1
    } else if 2 * delay < 5 * refresh {
        2
    } else {
        3
    }
}

/// How many of its refreshes the output at `i` came after the first.
pub open spec fn lag_sample(slots: Seq<Slot>, i: int) -> Option<u32> {
    if shown(slots) >= 2 && is_timed(slots, i) {
        Some(lag(slots[i]->at_ns - earliest(slots), slots[i]->refresh_ns as int))
    } else {
        None
    }
}

/// The answers of the first `n` outputs.
pub open spec fn outcomes(slots: Seq<Slot>, n: int) -> Seq<(usize, SettledOutcome)>
    decreases n,
{
    if n <= 0 {
        Seq::empty()
    } else {
        match outcome(slots[n - 1]) {
            Some(outcome) => outcomes(slots, n - 1).push(((n - 1) as usize, outcome)),
            None => outcomes(slots, n - 1),
        }
    }
}

/// The distances of the first `n` outputs from output 0.
pub open spec fn phase_samples(slots: Seq<Slot>, n: int) -> Seq<(usize, i64, u32)>
    decreases n,
{
    if n <= 0 {
        Seq::empty()
    } else {
        match phase_sample(slots, n - 1) {
            Some((reduced, period)) => phase_samples(slots, n - 1).push(
                ((n - 1) as usize, reduced, period),
            ),
            None => phase_samples(slots, n - 1),
        }
    }
}

/// The delays of the first `n` outputs behind the first to show the frame.
pub open spec fn lag_samples(slots: Seq<Slot>, n: int) -> Seq<(usize, u32)>
    decreases n,
{
    if n <= 0 {
        Seq::empty()
    } else {
        match lag_sample(slots, n - 1) {
            Some(lag) => lag_samples(slots, n - 1).push(((n - 1) as usize, lag)),
            None => lag_samples(slots, n - 1),
        }
    }
}

/// What the answers for one frame span.
struct Span {
    shown: usize,
    earliest: u64,
    latest: u64,
    /// The shortest known refresh period; zero where none is known.
    fastest: u32,
}

impl Span {
    spec fn spans(self, slots: Seq<Slot>) -> bool {
        &&& self.shown == shown(slots)
        &&& self.shown == 0 <==> forall|i: int|
            0 <= i < slots.len() ==> !((#[trigger] slots[i]) is Presented)
        &&& self.shown > 0 ==> is_earliest(slots, self.earliest) && is_latest(slots, self.latest)
        &&& self.fastest == 0 ==> forall|i: int| !#[trigger] is_timed(slots, i)
        &&& self.fastest != 0 ==> is_fastest(slots, self.fastest)
    }
}

pub(crate) proof fn lemma_bounds_are_unique(slots: Seq<Slot>)
    ensures
        forall|a: u64, b: u64| is_earliest(slots, a) && is_earliest(slots, b) ==> a == b,
        forall|a: u64, b: u64| is_latest(slots, a) && is_latest(slots, b) ==> a == b,
        forall|a: u32, b: u32| is_fastest(slots, a) && is_fastest(slots, b) ==> a == b,
        forall|a: u64, b: u64| is_earliest(slots, a) && is_latest(slots, b) ==> a <= b,
{
}

proof fn lemma_span_step(slots: Seq<Slot>, n: int, span: Span, next: Span)
    requires
        0 <= n < slots.len(),
        span.spans(slots.take(n)),
        ({
            let slot = slots[n];
            if slot is Presented {
                &&& next.shown == span.shown + 1
                &&& next.earliest == (if span.shown == 0 || slot->at_ns < span.earliest {
                    slot->at_ns
                } else {
                    span.earliest
                })
                &&& next.latest == (if span.shown == 0 || slot->at_ns > span.latest {
                    slot->at_ns
                } else {
                    span.latest
                })
                &&& next.fastest == (if slot->refresh_ns != 0 && (span.fastest == 0
                    || slot->refresh_ns < span.fastest) {
                    slot->refresh_ns
                } else {
                    span.fastest
                })
            } else {
                next == span
            }
        }),
    ensures
        next.spans(slots.take(n + 1)),
{
    let a = slots.take(n);
    let b = slots.take(n + 1);
    let slot = slots[n];
    assert(b.drop_last() =~= a);
    assert(b.last() == slot);
    assert(b[n] == slot);
    assert forall|i: int| 0 <= i < n implies #[trigger] b[i] == a[i] by {}
    if span.shown > 0 {
        let e = choose|i: int|
            0 <= i < a.len() && (#[trigger] a[i]) is Presented && a[i]->at_ns == span.earliest;
        assert(b[e] == a[e]);
        let l = choose|i: int|
            0 <= i < a.len() && (#[trigger] a[i]) is Presented && a[i]->at_ns == span.latest;
        assert(b[l] == a[l]);
    }
    assert forall|i: int| 0 <= i < n implies is_timed(a, i) == #[trigger] is_timed(b, i) by {
        assert(b[i] == a[i]);
    }
    if span.fastest != 0 {
        let f = choose|i: int| #[trigger] is_timed(a, i) && a[i]->refresh_ns == span.fastest;
        assert(is_timed(b, f));
        assert(b[f] == a[f]);
    }
    if slot is Presented && slot->refresh_ns != 0 {
        assert(is_timed(b, n));
    }
    assert forall|i: int| 0 <= i < b.len() && (#[trigger] b[i]) is Presented implies next.earliest
        <= b[i]->at_ns && b[i]->at_ns <= next.latest by {
        if i < n {
            assert(b[i] == a[i]);
        }
    }
    assert forall|i: int| #[trigger] is_timed(b, i) implies next.fastest != 0 && next.fastest
        <= b[i]->refresh_ns by {
        if i < n {
            assert(is_timed(a, i));
            assert(b[i] == a[i]);
        }
    }
}

fn span_of(slots: &[Slot]) -> (span: Span)
    ensures
        span.spans(slots@),
{
    let mut span = Span { shown: 0, earliest: 0, latest: 0, fastest: 0 };
    let mut i: usize = 0;
    while i < slots.len()
        invariant
            i <= slots@.len(),
            span.shown <= i,
            span.spans(slots@.take(i as int)),
        decreases slots@.len() - i,
    {
        let ghost before = span;
        if let Slot::Presented { at_ns, refresh_ns, zero_copy } = slots[i] {
            if span.shown == 0 || at_ns < span.earliest {
                span.earliest = at_ns;
            }
            if span.shown == 0 || at_ns > span.latest {
                span.latest = at_ns;
            }
            if refresh_ns != 0 && (span.fastest == 0 || refresh_ns < span.fastest) {
                span.fastest = refresh_ns;
            }
            span.shown = span.shown + 1;
        }
        proof {
            lemma_span_step(slots@, i as int, before, span);
        }
        i = i + 1;
    }
    assert(slots@.take(i as int) =~= slots@);
    span
}

fn outcome_of(slot: Slot) -> (found: Option<SettledOutcome>)
    ensures
        found == outcome(slot),
{
    match slot {
        Slot::Presented { at_ns, refresh_ns, zero_copy } => {
            let refresh_ns = if refresh_ns != 0 {
                Some(refresh_ns)
            } else {
                None
            };
            Some(SettledOutcome::Presented { refresh_ns, zero_copy })
        },
        Slot::Discarded => Some(SettledOutcome::Discarded),
        _ => None,
    }
}

fn phase_of(slots: &[Slot], i: usize) -> (sample: Option<(i64, u32)>)
    requires
        i < slots@.len(),
    ensures
        sample == phase_sample(slots@, i as int),
{
    if i == 0 {
        return None;
    }
    match (slots[0], slots[i]) {
        (
            Slot::Presented { at_ns: first, refresh_ns: first_refresh, zero_copy: _ },
            Slot::Presented { at_ns, refresh_ns, zero_copy: _ },
        ) => {
            let period: u32 = if refresh_ns == 0 {
                first_refresh
            } else if first_refresh == 0 || refresh_ns <= first_refresh {
                refresh_ns
            } else {
                first_refresh
            };
            if period == 0 {
                return None;
            }
            assert(slots@[0]->at_ns == first && slots@[i as int]->at_ns == at_ns);
            let d: i64 = distance_of(at_ns, first);
            proof {
                vstd::arithmetic::div_mod::lemma_mod_bound(d as int, period as int);
            }
            Some((reduce_phase(d, period as i64), period))
        },
        _ => None,
    }
}

fn lag_of(slots: &[Slot], span: &Span, i: usize) -> (sample: Option<u32>)
    requires
        i < slots@.len(),
        span.spans(slots@),
    ensures
        sample == lag_sample(slots@, i as int),
{
    if span.shown < 2 {
        return None;
    }
    match slots[i] {
        Slot::Presented { at_ns, refresh_ns, zero_copy: _ } => {
            if refresh_ns == 0 {
                return None;
            }
            proof {
                lemma_bounds_are_unique(slots@);
                assert(slots@[i as int]->at_ns == at_ns);
                assert(earliest(slots@) == span.earliest);
            }
            let twice: u128 = (at_ns - span.earliest) as u128 * 2;
            let refresh: u128 = refresh_ns as u128;
            let lag: u32 = if twice < refresh {
                0
            } else if twice < 3 * refresh {
                1
            } else if twice < 5 * refresh {
                2
            } else {
                3
            };
            Some(lag)
        },
        _ => None,
    }
}

fn offset_of(slots: &[Slot], span: &Span) -> (found: Option<u64>)
    requires
        span.spans(slots@),
    ensures
        found == offset(slots@),
{
    if span.shown >= 2 {
        proof {
            lemma_bounds_are_unique(slots@);
            assert(earliest(slots@) == span.earliest);
            assert(latest(slots@) == span.latest);
        }
        Some(span.latest - span.earliest)
    } else {
        None
    }
}

fn straddles_of(slots: &[Slot], span: &Span) -> (found: bool)
    requires
        span.spans(slots@),
    ensures
        found == straddles(slots@),
{
    proof {
        lemma_bounds_are_unique(slots@);
        if span.shown > 0 {
            assert(earliest(slots@) == span.earliest);
            assert(latest(slots@) == span.latest);
        }
    }
    span.shown >= 2 && span.fastest != 0 && span.latest - span.earliest > (span.fastest / 2) as u64
}

/// Works out what the answers for one frame mean.
pub fn settle(slots: &[Slot]) -> (settled: Settled)
    ensures
        settled.outcomes@ == outcomes(slots@, slots@.len() as int),
        settled.offset_ns == offset(slots@),
        settled.straddle == straddles(slots@),
        settled.phase_samples@ == phase_samples(slots@, slots@.len() as int),
        settled.lag_frames@ == lag_samples(slots@, slots@.len() as int),
{
    let span = span_of(slots);
    let mut found: Vec<(usize, SettledOutcome)> = Vec::new();
    let mut phases: Vec<(usize, i64, u32)> = Vec::new();
    let mut lags: Vec<(usize, u32)> = Vec::new();
    let mut i: usize = 0;
    while i < slots.len()
        invariant
            i <= slots@.len(),
            span.spans(slots@),
            found@ == outcomes(slots@, i as int),
            phases@ == phase_samples(slots@, i as int),
            lags@ == lag_samples(slots@, i as int),
        decreases slots@.len() - i,
    {
        if let Some(outcome) = outcome_of(slots[i]) {
            found.push((i, outcome));
        }
        if let Some((reduced, period)) = phase_of(slots, i) {
            phases.push((i, reduced, period));
        }
        if let Some(lag) = lag_of(slots, &span, i) {
            lags.push((i, lag));
        }
        i = i + 1;
    }
    Settled {
        outcomes: found,
        offset_ns: offset_of(slots, &span),
        straddle: straddles_of(slots, &span),
        phase_samples: phases,
        lag_frames: lags,
    }
}

/// How often an output came a number of refreshes after the first.
#[derive(Debug, Clone, Copy, PartialEq, Eq, Structural)]
pub struct LagFrames {
    pub zero: u32,
    pub one: u32,
    pub two: u32,
    pub more: u32,
}

impl Default for LagFrames {
    fn default() -> (lag: Self)
        ensures
            lag == no_lag(),
    {
        LagFrames { zero: 0, one: 0, two: 0, more: 0 }
    }
}

/// Nothing counted yet.
pub open spec fn no_lag() -> LagFrames {
    LagFrames { zero: 0, one: 0, two: 0, more: 0 }
}

/// The counts with one delay added.
pub open spec fn with_lag(counts: LagFrames, lag: u32) -> LagFrames {
    if lag == 0 {
        LagFrames { zero: (counts.zero + 1) as u32, ..counts }
    } else if lag == 1 {
        LagFrames { one: (counts.one + 1) as u32, ..counts }
    } else if lag == 2 {
        LagFrames { two: (counts.two + 1) as u32, ..counts }
    } else {
        LagFrames { more: (counts.more + 1) as u32, ..counts }
    }
}

/// What is counted of an output over a report interval.
#[derive(Debug, Clone, Copy, PartialEq, Eq, Structural)]
pub struct OutputAccum {
    pub presented: u32,
    pub discarded: u32,
    pub zero_copy_presented: u32,
    /// The latest known refresh period. It is a measurement, not a count, and
    /// outlives the interval.
    pub refresh_ns: Option<u32>,
    pub lag_frames: LagFrames,
}

/// Nothing counted and nothing known.
pub open spec fn no_accum() -> OutputAccum {
    OutputAccum {
        presented: 0,
        discarded: 0,
        zero_copy_presented: 0,
        refresh_ns: None,
        lag_frames: no_lag(),
    }
}

impl Default for OutputAccum {
    fn default() -> (accum: Self)
        ensures
            accum == no_accum(),
    {
        OutputAccum {
            presented: 0,
            discarded: 0,
            zero_copy_presented: 0,
            refresh_ns: None,
            lag_frames: LagFrames::default(),
        }
    }
}

impl OutputAccum {
    /// Each count can grow by one.
    pub open spec fn has_room(self) -> bool {
        &&& self.presented < u32::MAX
        &&& self.discarded < u32::MAX
        &&& self.zero_copy_presented < u32::MAX
        &&& self.lag_frames.zero < u32::MAX
        &&& self.lag_frames.one < u32::MAX
        &&& self.lag_frames.two < u32::MAX
        &&& self.lag_frames.more < u32::MAX
    }
}

/// What is counted of the output at `i` once a frame's answers are added.
pub open spec fn tallied(accum: OutputAccum, slots: Seq<Slot>, i: int) -> OutputAccum {
    match slots[i] {
        Slot::Presented { at_ns, refresh_ns, zero_copy } => OutputAccum {
            presented: (accum.presented + 1) as u32,
            discarded: accum.discarded,
            zero_copy_presented: if zero_copy {
                (accum.zero_copy_presented + 1) as u32
            } else {
                accum.zero_copy_presented
            },
            refresh_ns: if refresh_ns != 0 {
                Some(refresh_ns)
            } else {
                accum.refresh_ns
            },
            lag_frames: match lag_sample(slots, i) {
                Some(lag) => with_lag(accum.lag_frames, lag),
                None => accum.lag_frames,
            },
        },
        Slot::Discarded => OutputAccum { discarded: (accum.discarded + 1) as u32, ..accum },
        _ => accum,
    }
}

fn tally(accum: OutputAccum, slots: &[Slot], span: &Span, i: usize) -> (counted: OutputAccum)
    requires
        i < slots@.len(),
        span.spans(slots@),
        accum.has_room(),
    ensures
        counted == tallied(accum, slots@, i as int),
{
    let mut accum = accum;
    match slots[i] {
        Slot::Presented { at_ns: _, refresh_ns, zero_copy } => {
            accum.presented = accum.presented + 1;
            if zero_copy {
                accum.zero_copy_presented = accum.zero_copy_presented + 1;
            }
            if refresh_ns != 0 {
                accum.refresh_ns = Some(refresh_ns);
            }
            match lag_of(slots, span, i) {
                Some(0) => {
                    accum.lag_frames.zero = accum.lag_frames.zero + 1;
                },
                Some(1) => {
                    accum.lag_frames.one = accum.lag_frames.one + 1;
                },
                Some(2) => {
                    accum.lag_frames.two = accum.lag_frames.two + 1;
                },
                Some(_) => {
                    accum.lag_frames.more = accum.lag_frames.more + 1;
                },
                None => {},
            }
        },
        Slot::Discarded => {
            accum.discarded = accum.discarded + 1;
        },
        _ => {},
    }
    accum
}

/// A frame for which answers are outstanding or collected.
#[derive(Debug, PartialEq, Eq)]
pub struct PendingSnapshot {
    pub id: u64,
    pub slots: Vec<Slot>,
}

/// The most frames that are kept waiting for answers.
pub const MAX_PENDING: usize = 16;

/// The answers of the last frames, and what they add up to over a report
/// interval.
#[derive(Debug)]
pub struct Timing {
    pub snapshot_id: u64,
    /// Frames with answers outstanding, oldest first.
    pub pending: Vec<PendingSnapshot>,
    pub per_output: Vec<OutputAccum>,
    /// How far apart the outputs were, frame by frame.
    pub offsets_ns: Vec<u64>,
    pub straddles: u32,
    /// For each output its distances from output 0, frame by frame.
    pub phase: Vec<Vec<(i64, u32)>>,
}

/// What a [`Timing`] holds.
pub struct TimingView {
    pub snapshot_id: u64,
    pub pending: Seq<(u64, Seq<Slot>)>,
    pub per_output: Seq<OutputAccum>,
    pub offsets_ns: Seq<u64>,
    pub straddles: u32,
    pub phase: Seq<Seq<(i64, u32)>>,
}

/// What a list of waiting frames says.
pub open spec fn pending_view(pending: Seq<PendingSnapshot>) -> Seq<(u64, Seq<Slot>)> {
    pending.map_values(|snapshot: PendingSnapshot| (snapshot.id, snapshot.slots@))
}

/// Nothing is known of any of a number of outputs.
pub open spec fn fresh_timing(outputs: nat) -> TimingView {
    TimingView {
        snapshot_id: 0,
        pending: Seq::empty(),
        per_output: Seq::new(outputs, |i: int| no_accum()),
        offsets_ns: Seq::empty(),
        straddles: 0,
        phase: Seq::new(outputs, |i: int| Seq::empty()),
    }
}

impl View for Timing {
    type V = TimingView;

    open spec fn view(&self) -> TimingView {
        TimingView {
            snapshot_id: self.snapshot_id,
            pending: pending_view(self.pending@),
            per_output: self.per_output@,
            offsets_ns: self.offsets_ns@,
            straddles: self.straddles,
            phase: self.phase@.map_values(|samples: Vec<(i64, u32)>| samples@),
        }
    }
}

/// The first of the waiting frames that is not older than `id`.
pub open spec fn spot(pending: Seq<(u64, Seq<Slot>)>, id: u64) -> int
    decreases pending.len(),
{
    if pending.len() == 0 || pending[0].0 >= id {
        0
    } else {
        1 + spot(pending.drop_first(), id)
    }
}

/// A frame is among those that wait.
pub open spec fn waits(pending: Seq<(u64, Seq<Slot>)>, id: u64) -> bool {
    spot(pending, id) < pending.len() && pending[spot(pending, id)].0 == id
}

impl TimingView {
    /// The waiting frames are in order, not too many, and have a place for each
    /// output.
    pub open spec fn wf(self) -> bool {
        &&& self.pending.len() <= MAX_PENDING
        &&& forall|i: int, j: int|
            0 <= i < j < self.pending.len() ==> (#[trigger] self.pending[i]).0 < (
            #[trigger] self.pending[j]).0
        &&& forall|i: int|
            0 <= i < self.pending.len() ==> (#[trigger] self.pending[i]).1.len()
                == self.per_output.len()
        &&& self.phase.len() == self.per_output.len()
    }

    /// Each count can grow by one.
    pub open spec fn has_room(self) -> bool {
        &&& self.straddles < u32::MAX
        &&& forall|i: int|
            0 <= i < self.per_output.len() ==> (#[trigger] self.per_output[i]).has_room()
    }

    /// The tallies once a frame's answers are added.
    pub open spec fn folded(self, slots: Seq<Slot>) -> TimingView {
        TimingView {
            per_output: Seq::new(
                self.per_output.len(),
                |i: int| tallied(self.per_output[i], slots, i),
            ),
            offsets_ns: match offset(slots) {
                Some(offset) => self.offsets_ns.push(offset),
                None => self.offsets_ns,
            },
            straddles: if straddles(slots) {
                (self.straddles + 1) as u32
            } else {
                self.straddles
            },
            phase: Seq::new(
                self.phase.len(),
                |i: int|
                    match phase_sample(slots, i) {
                        Some(sample) => self.phase[i].push(sample),
                        None => self.phase[i],
                    },
            ),
            ..self
        }
    }

    /// The frame at `k` is added up and no longer waits.
    pub open spec fn finalized(self, k: int) -> TimingView {
        TimingView { pending: self.pending.remove(k), ..self.folded(self.pending[k].1) }
    }

    /// The answer of an output for a frame is noted, where the frame waits and
    /// the output exists.
    pub open spec fn noted(self, id: u64, index: int, slot: Slot) -> TimingView {
        if waits(self.pending, id) && 0 <= index < self.per_output.len() {
            let k = spot(self.pending, id);
            TimingView {
                pending: self.pending.update(
                    k,
                    (id, self.pending[k].1.update(index, slot)),
                ),
                ..self
            }
        } else {
            self
        }
    }

    /// A frame waits for which no answer is outstanding.
    pub open spec fn is_settled(self, id: u64) -> bool {
        waits(self.pending, id) && !self.pending[spot(self.pending, id)].1.contains(Slot::Waiting)
    }

    /// The state once an answer came in: a frame whose last answer it was is
    /// added up.
    pub open spec fn answered(self, id: u64, index: int, slot: Slot) -> TimingView {
        let noted = self.noted(id, index, slot);
        if noted.is_settled(id) {
            noted.finalized(spot(noted.pending, id))
        } else {
            noted
        }
    }

    /// A place for a frame among those that wait.
    pub open spec fn awaiting(self, id: u64) -> TimingView {
        if waits(self.pending, id) {
            self
        } else {
            TimingView {
                pending: self.pending.insert(
                    spot(self.pending, id),
                    (id, Seq::new(self.per_output.len(), |i: int| Slot::NotCommitted)),
                ),
                ..self
            }
        }
    }

    /// The state once an output was asked about a frame. Where too many frames
    /// wait, the oldest is added up with the answers that it has.
    pub open spec fn requested(self, id: u64, index: int) -> TimingView {
        let asked = self.awaiting(id).noted(id, index, Slot::Waiting);
        if asked.pending.len() > MAX_PENDING {
            asked.finalized(0)
        } else {
            asked
        }
    }
}

pub(crate) proof fn lemma_spot(pending: Seq<(u64, Seq<Slot>)>, id: u64)
    requires
        forall|i: int, j: int|
            0 <= i < j < pending.len() ==> (#[trigger] pending[i]).0 < (#[trigger] pending[j]).0,
    ensures
        0 <= spot(pending, id) <= pending.len(),
        forall|i: int| 0 <= i < spot(pending, id) ==> (#[trigger] pending[i]).0 < id,
        forall|i: int| spot(pending, id) <= i < pending.len() ==> (#[trigger] pending[i]).0 >= id,
    decreases pending.len(),
{
    if pending.len() > 0 && pending[0].0 < id {
        let rest = pending.drop_first();
        assert forall|i: int, j: int| 0 <= i < j < rest.len() implies (#[trigger] rest[i]).0 < (
        #[trigger] rest[j]).0 by {
            assert(rest[i] == pending[i + 1]);
            assert(rest[j] == pending[j + 1]);
        }
        lemma_spot(rest, id);
        assert forall|i: int| 0 <= i < spot(pending, id) implies (#[trigger] pending[i]).0 < id by {
            if i > 0 {
                assert(rest[i - 1] == pending[i]);
            }
        }
        assert forall|i: int| spot(pending, id) <= i < pending.len() implies (
        #[trigger] pending[i]).0 >= id by {
            assert(rest[i - 1] == pending[i]);
        }
    }
}

/// What one report interval adds up to.
#[derive(Debug, Clone, PartialEq, Eq)]
pub struct IntervalTiming {
    pub offsets_ns: Vec<u64>,
    pub straddles: u32,
    pub outputs: Vec<OutputAccum>,
    pub phase: Vec<Vec<(i64, u32)>>,
}

/// What is left of an output's counts when an interval begins.
pub open spec fn reset(accum: OutputAccum) -> OutputAccum {
    OutputAccum { refresh_ns: accum.refresh_ns, ..no_accum() }
}

impl TimingView {
    /// Once an interval was handed out: every count begins anew, and the frames
    /// that are still waited for stay.
    pub open spec fn drained(self) -> TimingView {
        TimingView {
            per_output: self.per_output.map_values(|accum: OutputAccum| reset(accum)),
            offsets_ns: Seq::empty(),
            straddles: 0,
            phase: Seq::new(self.phase.len(), |i: int| Seq::empty()),
            ..self
        }
    }
}

impl Timing {
    /// No frames and no counts, for a number of outputs.
    pub fn new(presenter_count: usize) -> (timing: Self)
        ensures
            timing@ == fresh_timing(presenter_count as nat),
            timing@.wf(),
    {
        let mut per_output: Vec<OutputAccum> = Vec::new();
        let mut phase: Vec<Vec<(i64, u32)>> = Vec::new();
        let mut i: usize = 0;
        while i < presenter_count
            invariant
                i <= presenter_count,
                per_output@.len() == i,
                phase@.len() == i,
                forall|j: int| 0 <= j < i ==> per_output@[j] == no_accum(),
                forall|j: int| 0 <= j < i ==> (#[trigger] phase@[j])@ == Seq::<(i64, u32)>::empty(),
            decreases presenter_count - i,
        {
            per_output.push(OutputAccum::default());
            phase.push(Vec::new());
            i = i + 1;
        }
        let timing = Timing {
            snapshot_id: 0,
            pending: Vec::new(),
            per_output,
            offsets_ns: Vec::new(),
            straddles: 0,
            phase,
        };
        assert(timing@.pending =~= Seq::empty());
        assert(timing@.per_output =~= Seq::new(presenter_count as nat, |i: int| no_accum()));
        assert(timing@.offsets_ns =~= Seq::empty());
        assert(timing@.phase =~= Seq::new(
            presenter_count as nat,
            |i: int| Seq::<(i64, u32)>::empty(),
        ));
        timing
    }

    fn spot_of(&self, id: u64) -> (k: usize)
        requires
            self@.wf(),
        ensures
            k == spot(self@.pending, id),
            k <= self.pending@.len(),
    {
        let ghost views = self@.pending;
        proof {
            lemma_spot(views, id);
        }
        let mut k: usize = 0;
        while k < self.pending.len()
            invariant
                k <= self.pending@.len(),
                views == pending_view(self.pending@),
                k <= spot(views, id) <= views.len(),
                forall|i: int| 0 <= i < spot(views, id) ==> (#[trigger] views[i]).0 < id,
                forall|i: int| spot(views, id) <= i < views.len() ==> (#[trigger] views[i]).0 >= id,
            decreases self.pending@.len() - k,
        {
            assert(views[k as int].0 == self.pending@[k as int].id);
            if self.pending[k].id >= id {
                return k;
            }
            k = k + 1;
        }
        k
    }

    fn fold(&mut self, slots: &Vec<Slot>)
        requires
            old(self)@.phase.len() == old(self)@.per_output.len(),
            old(self)@.has_room(),
            slots@.len() == old(self).per_output@.len(),
        ensures
            final(self)@ == old(self)@.folded(slots@),
    {
        let ghost before = self@;
        let answers = slots.as_slice();
        let span = span_of(answers);
        let mut i: usize = 0;
        while i < self.per_output.len()
            invariant
                i <= self.per_output@.len(),
                slots@ == answers@,
                slots@.len() == before.per_output.len(),
                self.per_output@.len() == before.per_output.len(),
                self.phase@.len() == before.phase.len(),
                before.phase.len() == before.per_output.len(),
                span.spans(slots@),
                before.has_room(),
                self.snapshot_id == before.snapshot_id,
                pending_view(self.pending@) == before.pending,
                self.offsets_ns@ == before.offsets_ns,
                self.straddles == before.straddles,
                forall|j: int|
                    0 <= j < i ==> #[trigger] self.per_output@[j] == tallied(
                        before.per_output[j],
                        slots@,
                        j,
                    ),
                forall|j: int|
                    i <= j < before.per_output.len() ==> #[trigger] self.per_output@[j]
                        == before.per_output[j],
                forall|j: int|
                    0 <= j < i ==> (#[trigger] self.phase@[j])@ == match phase_sample(slots@, j) {
                        Some(sample) => before.phase[j].push(sample),
                        None => before.phase[j],
                    },
                forall|j: int|
                    i <= j < before.phase.len() ==> (#[trigger] self.phase@[j])@ == before.phase[j],
            decreases self.per_output@.len() - i,
        {
            assert(before.per_output[i as int].has_room());
            let counted = tally(self.per_output[i], answers, &span, i);
            self.per_output.set(i, counted);
            if let Some(sample) = phase_of(answers, i) {
                self.phase[i].push(sample);
            }
            i = i + 1;
        }
        if let Some(offset) = offset_of(answers, &span) {
            self.offsets_ns.push(offset);
        }
        if straddles_of(answers, &span) {
            self.straddles = self.straddles + 1;
        }
        assert(self@.per_output =~= before.folded(slots@).per_output);
        assert(self@.phase =~= before.folded(slots@).phase);
    }

    /// Adds the frame at `k` up.
    fn finalize(&mut self, k: usize)
        requires
            k < old(self).pending@.len(),
            old(self)@.has_room(),
            old(self)@.phase.len() == old(self)@.per_output.len(),
            old(self)@.pending[k as int].1.len() == old(self)@.per_output.len(),
        ensures
            final(self)@ == old(self)@.finalized(k as int),
    {
        let ghost before = self@;
        let snapshot = self.pending.remove(k);
        assert(before.pending[k as int] == (snapshot.id, snapshot.slots@));
        assert(self@.pending =~= before.pending.remove(k as int));
        let ghost rest = self@;
        self.fold(&snapshot.slots);
        assert(rest.folded(snapshot.slots@).per_output == before.folded(
            snapshot.slots@,
        ).per_output);
    }

    /// Notes an answer at `k`.
    fn note(&mut self, k: usize, index: usize, slot: Slot)
        requires
            k < old(self).pending@.len(),
            index < old(self)@.pending[k as int].1.len(),
        ensures
            final(self)@ == (TimingView {
                pending: old(self)@.pending.update(
                    k as int,
                    (
                        old(self)@.pending[k as int].0,
                        old(self)@.pending[k as int].1.update(index as int, slot),
                    ),
                ),
                ..old(self)@
            }),
    {
        let ghost before = self@;
        self.pending[k].slots.set(index, slot);
        assert(self@.pending =~= before.pending.update(
            k as int,
            (before.pending[k as int].0, before.pending[k as int].1.update(index as int, slot)),
        ));
    }

    /// Marks an output as asked about a frame.
    pub fn request(&mut self, id: u64, index: usize)
        requires
            old(self)@.wf(),
            old(self)@.has_room(),
        ensures
            final(self)@ == old(self)@.requested(id, index as int),
            final(self)@.wf(),
    {
        let ghost before = self@;
        proof {
            lemma_spot(before.pending, id);
        }
        let k: usize = self.spot_of(id);
        let present = k < self.pending.len() && self.pending[k].id == id;
        assert(present == waits(before.pending, id)) by {
            if k < self.pending@.len() {
                assert(before.pending[k as int].0 == self.pending@[k as int].id);
            }
        }
        if !present {
            let count: usize = self.per_output.len();
            let mut slots: Vec<Slot> = Vec::new();
            let mut i: usize = 0;
            while i < count
                invariant
                    i <= count,
                    slots@.len() == i,
                    forall|j: int| 0 <= j < i ==> slots@[j] == Slot::NotCommitted,
                decreases count - i,
            {
                slots.push(Slot::NotCommitted);
                i = i + 1;
            }
            assert(slots@ =~= Seq::new(count as nat, |i: int| Slot::NotCommitted));
            self.pending.insert(k, PendingSnapshot { id, slots });
            assert(self@.pending =~= before.awaiting(id).pending);
        }
        let ghost awaited = self@;
        assert(awaited == before.awaiting(id));
        proof {
            lemma_awaiting(before, id);
        }
        if index < self.per_output.len() {
            assert(awaited.pending[k as int].1.len() == awaited.per_output.len());
            self.note(k, index, Slot::Waiting);
        }
        let ghost asked = self@;
        assert(asked == awaited.noted(id, index as int, Slot::Waiting));
        proof {
            lemma_noted(awaited, id, index as int, Slot::Waiting);
        }
        if self.pending.len() > MAX_PENDING {
            assert(asked.pending[0].1.len() == asked.per_output.len());
            self.finalize(0);
            assert(self@.pending =~= asked.pending.remove(0));
            assert forall|i: int| 0 <= i < self@.pending.len() implies #[trigger] self@.pending[i]
                == asked.pending[i + 1] by {}
        }
    }

    /// Adds a frame up where no answer is outstanding.
    fn finalize_if_settled(&mut self, id: u64)
        requires
            old(self)@.wf(),
            old(self)@.has_room(),
        ensures
            final(self)@ == (if old(self)@.is_settled(id) {
                old(self)@.finalized(spot(old(self)@.pending, id))
            } else {
                old(self)@
            }),
            final(self)@.wf(),
    {
        let ghost before = self@;
        let k: usize = self.spot_of(id);
        if k >= self.pending.len() || self.pending[k].id != id {
            assert(!waits(before.pending, id)) by {
                if k < self.pending@.len() {
                    assert(before.pending[k as int].0 == self.pending@[k as int].id);
                }
            }
            return;
        }
        assert(before.pending[k as int] == (
            self.pending@[k as int].id,
            self.pending@[k as int].slots@,
        ));
        let slots = &self.pending[k].slots;
        let mut i: usize = 0;
        while i < slots.len()
            invariant
                i <= slots@.len(),
                forall|j: int| 0 <= j < i ==> slots@[j] != Slot::Waiting,
                before == self@,
                before.pending[k as int].1 == slots@,
                waits(before.pending, id),
                k == spot(before.pending, id),
                self@.wf(),
            decreases slots@.len() - i,
        {
            if slots[i] == Slot::Waiting {
                assert(before.pending[k as int].1[i as int] == Slot::Waiting);
                return;
            }
            i = i + 1;
        }
        self.finalize(k);
        let ghost after = self@;
        assert(after.pending =~= before.pending.remove(k as int));
        assert forall|i: int| 0 <= i < after.pending.len() implies #[trigger] after.pending[i]
            == before.pending[if i < k { i } else { i + 1 }] by {}
    }

    /// Notes an answer and adds the frame up where it was the last.
    fn answer(&mut self, id: u64, index: usize, slot: Slot)
        requires
            old(self)@.wf(),
            old(self)@.has_room(),
        ensures
            final(self)@ == old(self)@.answered(id, index as int, slot),
            final(self)@.wf(),
    {
        let ghost before = self@;
        proof {
            lemma_spot(before.pending, id);
            lemma_noted(before, id, index as int, slot);
        }
        let k: usize = self.spot_of(id);
        let present = k < self.pending.len() && self.pending[k].id == id;
        assert(present == waits(before.pending, id)) by {
            if k < self.pending@.len() {
                assert(before.pending[k as int].0 == self.pending@[k as int].id);
            }
        }
        if present && index < self.per_output.len() {
            self.note(k, index, slot);
        }
        assert(self@ == before.noted(id, index as int, slot));
        self.finalize_if_settled(id);
    }

    /// Notes that an output showed a frame.
    pub fn presented(&mut self, id: u64, index: usize, at_ns: u64, refresh_ns: u32, zero_copy: bool)
        requires
            old(self)@.wf(),
            old(self)@.has_room(),
        ensures
            final(self)@ == old(self)@.answered(
                id,
                index as int,
                Slot::Presented { at_ns, refresh_ns, zero_copy },
            ),
            final(self)@.wf(),
    {
        self.answer(id, index, Slot::Presented { at_ns, refresh_ns, zero_copy });
    }

    /// Notes that an output never showed a frame.
    pub fn discarded(&mut self, id: u64, index: usize)
        requires
            old(self)@.wf(),
            old(self)@.has_room(),
        ensures
            final(self)@ == old(self)@.answered(id, index as int, Slot::Discarded),
            final(self)@.wf(),
    {
        self.answer(id, index, Slot::Discarded);
    }

    /// Hands out what the interval adds up to, and begins the next.
    pub fn drain_interval(&mut self) -> (interval: IntervalTiming)
        requires
            old(self)@.wf(),
        ensures
            interval.offsets_ns@ == old(self)@.offsets_ns,
            interval.straddles == old(self)@.straddles,
            interval.outputs@ == old(self)@.per_output,
            interval.phase@.map_values(|samples: Vec<(i64, u32)>| samples@) == old(self)@.phase,
            final(self)@ == old(self)@.drained(),
            final(self)@.wf(),
    {
        let ghost before = self@;
        let mut outputs: Vec<OutputAccum> = Vec::new();
        let mut phase: Vec<Vec<(i64, u32)>> = Vec::new();
        let mut i: usize = 0;
        while i < self.per_output.len()
            invariant
                i <= self.per_output@.len(),
                self.per_output@.len() == before.per_output.len(),
                outputs@.len() == i,
                phase@.len() == i,
                self.snapshot_id == before.snapshot_id,
                pending_view(self.pending@) == before.pending,
                self.offsets_ns@ == before.offsets_ns,
                self.straddles == before.straddles,
                self.phase@.map_values(|samples: Vec<(i64, u32)>| samples@) == before.phase,
                forall|j: int| 0 <= j < i ==> outputs@[j] == before.per_output[j],
                forall|j: int|
                    0 <= j < i ==> #[trigger] self.per_output@[j] == reset(before.per_output[j]),
                forall|j: int|
                    i <= j < before.per_output.len() ==> #[trigger] self.per_output@[j]
                        == before.per_output[j],
                forall|j: int| 0 <= j < i ==> (#[trigger] phase@[j])@ == Seq::<(i64, u32)>::empty(),
            decreases self.per_output@.len() - i,
        {
            let accum = self.per_output[i];
            outputs.push(accum);
            let mut cleared = OutputAccum::default();
            cleared.refresh_ns = accum.refresh_ns;
            self.per_output.set(i, cleared);
            phase.push(Vec::new());
            i = i + 1;
        }
        std::mem::swap(&mut phase, &mut self.phase);
        let mut offsets_ns: Vec<u64> = Vec::new();
        std::mem::swap(&mut offsets_ns, &mut self.offsets_ns);
        let straddles: u32 = self.straddles;
        self.straddles = 0;
        assert(outputs@ =~= before.per_output);
        assert(self@.per_output =~= before.per_output.map_values(
            |accum: OutputAccum| reset(accum),
        ));
        assert(self@.phase =~= Seq::new(before.phase.len(), |i: int| Seq::<(i64, u32)>::empty()));
        assert(self@.offsets_ns =~= Seq::empty());
        IntervalTiming { offsets_ns, straddles, outputs, phase }
    }
}

pub(crate) proof fn lemma_awaiting(state: TimingView, id: u64)
    requires
        state.wf(),
    ensures
        ({
            let next = state.awaiting(id);
            &&& waits(next.pending, id)
            &&& spot(next.pending, id) == spot(state.pending, id)
            &&& next.pending.len() <= MAX_PENDING + 1
            &&& forall|i: int, j: int|
                0 <= i < j < next.pending.len() ==> (#[trigger] next.pending[i]).0 < (
                #[trigger] next.pending[j]).0
            &&& forall|i: int|
                0 <= i < next.pending.len() ==> (#[trigger] next.pending[i]).1.len()
                    == next.per_output.len()
        }),
{
    lemma_spot(state.pending, id);
    let next = state.awaiting(id);
    if !waits(state.pending, id) {
        let k = spot(state.pending, id);
        assert forall|i: int| 0 <= i < next.pending.len() implies #[trigger] next.pending[i] == (
        if i < k {
            state.pending[i]
        } else if i == k {
            (id, Seq::new(state.per_output.len(), |i: int| Slot::NotCommitted))
        } else {
            state.pending[i - 1]
        }) by {}
        assert forall|i: int, j: int| 0 <= i < j < next.pending.len() implies (
        #[trigger] next.pending[i]).0 < (#[trigger] next.pending[j]).0 by {}
        lemma_spot(next.pending, id);
        let s = spot(next.pending, id);
        assert(next.pending[k].0 == id);
        if s < k {
            assert(next.pending[s].0 >= id);
            assert(next.pending[s] == state.pending[s]);
        }
        if s > k {
            assert(next.pending[k].0 < id);
        }
    }
}

pub(crate) proof fn lemma_noted(state: TimingView, id: u64, index: int, slot: Slot)
    requires
        forall|i: int, j: int|
            0 <= i < j < state.pending.len() ==> (#[trigger] state.pending[i]).0 < (
            #[trigger] state.pending[j]).0,
        forall|i: int|
            0 <= i < state.pending.len() ==> (#[trigger] state.pending[i]).1.len()
                == state.per_output.len(),
    ensures
        ({
            let next = state.noted(id, index, slot);
            &&& next.pending.len() == state.pending.len()
            &&& forall|i: int|
                0 <= i < next.pending.len() ==> (#[trigger] next.pending[i]).0
                    == state.pending[i].0
            &&& forall|i: int, j: int|
                0 <= i < j < next.pending.len() ==> (#[trigger] next.pending[i]).0 < (
                #[trigger] next.pending[j]).0
            &&& forall|i: int|
                0 <= i < next.pending.len() ==> (#[trigger] next.pending[i]).1.len()
                    == next.per_output.len()
        }),
{
    lemma_spot(state.pending, id);
    let next = state.noted(id, index, slot);
    if waits(state.pending, id) && 0 <= index < state.per_output.len() {
        let k = spot(state.pending, id);
        assert forall|i: int| 0 <= i < next.pending.len() implies (#[trigger] next.pending[i]).0
            == state.pending[i].0 && next.pending[i].1.len() == next.per_output.len() by {
            if i != k {
                assert(next.pending[i] == state.pending[i]);
            }
        }
        assert forall|i: int, j: int| 0 <= i < j < next.pending.len() implies (
        #[trigger] next.pending[i]).0 < (#[trigger] next.pending[j]).0 by {
            assert(state.pending[i].0 < state.pending[j].0);
        }
    }
}

/// A frame is added up once: when its last answer is in it no longer waits, and
/// what is said of it afterwards changes nothing.
pub proof fn frame_is_added_up_once(
    state: TimingView,
    id: u64,
    index: int,
    slot: Slot,
    again: int,
    later: Slot,
)
    requires
        state.wf(),
        state.noted(id, index, slot).is_settled(id),
    ensures
        !waits(state.answered(id, index, slot).pending, id),
        state.answered(id, index, slot).answered(id, again, later) == state.answered(
            id,
            index,
            slot,
        ),
{
    let noted = state.noted(id, index, slot);
    lemma_noted(state, id, index, slot);
    lemma_spot(noted.pending, id);
    let k = spot(noted.pending, id);
    let done = noted.pending.remove(k);
    assert forall|i: int| 0 <= i < done.len() implies #[trigger] done[i] == noted.pending[if i < k {
        i
    } else {
        i + 1
    }] by {}
    assert forall|i: int, j: int| 0 <= i < j < done.len() implies (#[trigger] done[i]).0 < (
    #[trigger] done[j]).0 by {}
    lemma_spot(done, id);
    let s = spot(done, id);
    if s < done.len() && done[s].0 == id {
        assert(noted.pending[k].0 == id);
        assert(done[s] == noted.pending[if s < k {
            s
        } else {
            s + 1
        }]);
    }
}

/// The output that shows a frame first is behind by no refresh.
pub proof fn first_to_show_has_no_lag(slots: Seq<Slot>, i: int)
    requires
        is_timed(slots, i),
        is_earliest(slots, slots[i]->at_ns),
    ensures
        lag_sample(slots, i) is Some ==> lag_sample(slots, i) == Some(0u32),
{
    lemma_bounds_are_unique(slots);
    assert(is_earliest(slots, earliest(slots)));
}

/// One display alone is in step with itself: it has no offset, no straddle and no
/// lag.
pub proof fn lone_output_has_no_offset(slots: Seq<Slot>, i: int)
    requires
        shown(slots) < 2,
    ensures
        offset(slots) is None,
        !straddles(slots),
        lag_sample(slots, i) is None,
{
}

} // verus!
