//! When the next frame may go out, and when a wall must be given up on.
//!
//! Times are nanoseconds.
use vstd::prelude::*;

verus! {

/// How long an output may leave an answer owing before the wall stops waiting
/// for it.
pub const STALL_TIMEOUT: u64 = 300_000_000;

/// Answers needed before an interval in which nothing was shown counts as dead.
pub const MIN_FEEDBACK_ANSWERS_FOR_SELF_HEAL: u32 = 30;

/// Dead intervals in a row after which the wall is given up on.
pub const CONSECUTIVE_DEAD_INTERVALS_FOR_SELF_HEAL: u32 = 2;

/// An interval was dead: answers came back, enough of them, and not one said
/// that a frame was shown. Silence is no evidence.
pub open spec fn is_dead(presentation_feedback: bool, answers: u32, presented: u32) -> bool {
    presentation_feedback && answers >= MIN_FEEDBACK_ANSWERS_FOR_SELF_HEAL && presented == 0
}

/// Whether an interval, taken alone, was dead.
pub fn interval_is_dead(presentation_feedback: bool, answers: u32, presented: u32) -> (dead: bool)
    ensures
        dead == is_dead(presentation_feedback, answers, presented),
{
    presentation_feedback && answers >= MIN_FEEDBACK_ANSWERS_FOR_SELF_HEAL && presented == 0
}

/// Counts the dead intervals in a row.
#[derive(Debug, Clone, Copy, PartialEq, Eq, Structural)]
pub struct DeadIntervalTracker {
    pub consecutive: u32,
}

impl Default for DeadIntervalTracker {
    fn default() -> (tracker: Self)
        ensures
            tracker.consecutive == 0,
    {
        DeadIntervalTracker { consecutive: 0 }
    }
}

/// How many dead intervals came in a row, after one more interval.
pub open spec fn dead_after(run: int, dead: bool) -> int {
    if dead {
        run + 1
    } else {
        0
    }
}

/// So many dead intervals in a row are enough to give up.
pub open spec fn is_given_up(run: int) -> bool {
    run >= CONSECUTIVE_DEAD_INTERVALS_FOR_SELF_HEAL
}

impl DeadIntervalTracker {
    /// Records an interval. Says whether enough dead ones came in a row.
    pub fn record(&mut self, presentation_feedback: bool, answers: u32, presented: u32) -> (give_up:
        bool)
        requires
            is_dead(presentation_feedback, answers, presented) ==> old(self).consecutive < u32::MAX,
        ensures
            final(self).consecutive == (if is_dead(presentation_feedback, answers, presented) {
                old(self).consecutive + 1
            } else {
                0
            }),
            give_up == (final(self).consecutive >= CONSECUTIVE_DEAD_INTERVALS_FOR_SELF_HEAL),
            final(self).consecutive == dead_after(
                old(self).consecutive as int,
                is_dead(presentation_feedback, answers, presented),
            ),
            give_up == is_given_up(final(self).consecutive as int),
    {
        if interval_is_dead(presentation_feedback, answers, presented) {
            self.consecutive = self.consecutive + 1;
        } else {
            self.consecutive = 0;
        }
        self.consecutive >= CONSECUTIVE_DEAD_INTERVALS_FOR_SELF_HEAL
    }
}

/// The answer that tells that an output is ready for another frame.
#[derive(Debug, Clone, Copy, PartialEq, Eq, Structural)]
pub enum GateSignal {
    /// The frame was shown, or never will be.
    Presentation,
    /// The compositor took the frame over, which is earlier.
    FrameCallback,
}

impl GateSignal {
    /// What to call the answers in a message.
    pub open spec fn name(self) -> Seq<char> {
        match self {
            GateSignal::Presentation => "presentation feedback"@,
            GateSignal::FrameCallback => "frame callbacks"@,
        }
    }

    /// What to call the answers in a message.
    pub fn answer_name(self) -> (name: &'static str)
        ensures
            name@ == self.name(),
    {
        match self {
            GateSignal::Presentation => "presentation feedback",
            GateSignal::FrameCallback => "frame callbacks",
        }
    }
}

/// The signal in use: presentation feedback wherever it is offered.
pub open spec fn signal_for(presentation_feedback: bool) -> GateSignal {
    if presentation_feedback {
        GateSignal::Presentation
    } else {
        GateSignal::FrameCallback
    }
}

/// The signal in use.
pub fn gate_signal(presentation_feedback: bool) -> (signal: GateSignal)
    ensures
        signal == signal_for(presentation_feedback),
{
    if presentation_feedback {
        GateSignal::Presentation
    } else {
        GateSignal::FrameCallback
    }
}

/// What one output owes for the frame it was last sent.
#[derive(Debug, Clone, Copy, PartialEq, Eq, Structural)]
pub struct GateEntry {
    pub waiting: bool,
    /// How long it has owed its answer; zero where it owes none.
    pub waited: u64,
    /// It was dropped from the frame gate before.
    pub stalled: bool,
}

impl GateEntry {
    /// The frame gate does not wait for the output: it answered, it was dropped
    /// before, or it has been waited for long enough.
    pub open spec fn is_answered(self, limit: u64) -> bool {
        !self.waiting || self.stalled || self.waited > limit
    }

    /// Whether the frame gate does not wait for the output.
    pub fn answered(&self, limit: u64) -> (answered: bool)
        ensures
            answered == self.is_answered(limit),
    {
        !self.waiting || self.stalled || self.waited > limit
    }

    /// The output is to be dropped from the frame gate now.
    pub open spec fn stalls(self, limit: u64) -> bool {
        self.waiting && !self.stalled && self.waited > limit
    }
}

/// What an output owes under a signal. `frame` and `feedback` say how long each
/// answer has been owing, where it is.
pub open spec fn entry_for(
    signal: GateSignal,
    frame: Option<u64>,
    feedback: Option<u64>,
    stalled: bool,
) -> GateEntry {
    let waited = match signal {
        GateSignal::Presentation => feedback,
        GateSignal::FrameCallback => frame,
    };
    GateEntry {
        waiting: waited is Some,
        waited: match waited {
            Some(waited) => waited,
            None => 0,
        },
        stalled,
    }
}

/// What an output owes under a signal.
pub fn gate_entry(
    signal: GateSignal,
    frame: Option<u64>,
    feedback: Option<u64>,
    stalled: bool,
) -> (entry: GateEntry)
    ensures
        entry == entry_for(signal, frame, feedback, stalled),
{
    let waited = match signal {
        GateSignal::Presentation => feedback,
        GateSignal::FrameCallback => frame,
    };
    match waited {
        Some(waited) => GateEntry { waiting: true, waited, stalled },
        None => GateEntry { waiting: false, waited: 0, stalled },
    }
}

/// What every output of a wall owes.
#[derive(Debug, Clone, PartialEq, Eq)]
pub struct GateState {
    pub entries: Vec<GateEntry>,
    pub limit: u64,
}

/// The frame gate is open: it waits for no output.
pub open spec fn is_open(entries: Seq<GateEntry>, limit: u64) -> bool {
    forall|i: int| 0 <= i < entries.len() ==> (#[trigger] entries[i]).is_answered(limit)
}

/// The outputs among the first `n` that are to be dropped now, with how long
/// each was waited for.
pub open spec fn stalled_among(entries: Seq<GateEntry>, limit: u64, n: int) -> Seq<(usize, u64)>
    decreases n,
{
    if n <= 0 {
        Seq::empty()
    } else if entries[n - 1].stalls(limit) {
        stalled_among(entries, limit, n - 1).push(((n - 1) as usize, entries[n - 1].waited))
    } else {
        stalled_among(entries, limit, n - 1)
    }
}

impl GateState {
    /// What every output of a wall owes.
    pub fn new(entries: Vec<GateEntry>, limit: u64) -> (gate: Self)
        ensures
            gate == (GateState { entries, limit }),
    {
        GateState { entries, limit }
    }

    /// Whether the wall may take its next frame. A wall without outputs waits
    /// for nobody.
    pub fn all_answered(&self) -> (open: bool)
        ensures
            open == is_open(self.entries@, self.limit),
    {
        let mut i: usize = 0;
        while i < self.entries.len()
            invariant
                i <= self.entries@.len(),
                forall|j: int|
                    0 <= j < i ==> (#[trigger] self.entries@[j]).is_answered(self.limit),
            decreases self.entries@.len() - i,
        {
            if !self.entries[i].answered(self.limit) {
                return false;
            }
            i = i + 1;
        }
        true
    }

    /// The outputs that are to be dropped now, with how long each was waited
    /// for.
    pub fn newly_stalled(&self) -> (stalled: Vec<(usize, u64)>)
        ensures
            stalled@ == stalled_among(self.entries@, self.limit, self.entries@.len() as int),
    {
        let mut stalled: Vec<(usize, u64)> = Vec::new();
        let mut i: usize = 0;
        while i < self.entries.len()
            invariant
                i <= self.entries@.len(),
                stalled@ == stalled_among(self.entries@, self.limit, i as int),
            decreases self.entries@.len() - i,
        {
            let entry = self.entries[i];
            if entry.waiting && !entry.stalled && entry.waited > self.limit {
                stalled.push((i, entry.waited));
            }
            i = i + 1;
        }
        stalled
    }
}

/// An output is reported as stalled exactly once: it is reported only where it
/// was not dropped before, and once it is dropped the frame gate never waits for it.
pub proof fn stall_is_reported_once(entry: GateEntry, later: u64, limit: u64)
    requires
        entry.stalls(limit),
    ensures
        entry.is_answered(limit),
        !(GateEntry { stalled: true, waited: later, ..entry }).stalls(limit),
        (GateEntry { stalled: true, waited: later, ..entry }).is_answered(limit),
{
}

/// One output that owes its answer, and was neither dropped nor waited for too
/// long, holds the whole wall.
pub proof fn one_output_holds_the_gate(entries: Seq<GateEntry>, limit: u64, i: int)
    requires
        0 <= i < entries.len(),
        entries[i].waiting,
        !entries[i].stalled,
        entries[i].waited <= limit,
    ensures
        !is_open(entries, limit),
{
    assert(!entries[i].is_answered(limit));
}

/// The signal that is not in use is not consulted.
pub proof fn other_signal_is_ignored(
    frame: Option<u64>,
    other_frame: Option<u64>,
    feedback: Option<u64>,
    other_feedback: Option<u64>,
    stalled: bool,
)
    ensures
        entry_for(GateSignal::Presentation, frame, feedback, stalled) == entry_for(
            GateSignal::Presentation,
            other_frame,
            feedback,
            stalled,
        ),
        entry_for(GateSignal::FrameCallback, frame, feedback, stalled) == entry_for(
            GateSignal::FrameCallback,
            frame,
            other_feedback,
            stalled,
        ),
{
}

/// How many dead intervals came in a row at the end of a history of intervals,
/// each with its answers and how many of them said that a frame was shown.
pub open spec fn dead_run(history: Seq<(bool, u32, u32)>) -> nat
    decreases history.len(),
{
    if history.len() == 0 || !is_dead(history.last().0, history.last().1, history.last().2) {
        0
    } else {
        dead_run(history.drop_last()) + 1
    }
}

/// The tracker's count is the length of that run: one more interval changes both
/// alike.
pub proof fn tracker_counts_the_run(history: Seq<(bool, u32, u32)>, next: (bool, u32, u32))
    ensures
        dead_run(history.push(next)) == (if is_dead(next.0, next.1, next.2) {
            dead_run(history) + 1
        } else {
            0
        }),
{
    assert(history.push(next).drop_last() =~= history);
}

/// A wall is given up on only after dead intervals in a row: an interval in which
/// a frame was shown, or in which little or nothing was answered, starts the
/// count anew.
pub proof fn giving_up_needs_a_run_of_dead_intervals(history: Seq<(bool, u32, u32)>, i: int)
    requires
        dead_run(history) >= CONSECUTIVE_DEAD_INTERVALS_FOR_SELF_HEAL,
        history.len() - CONSECUTIVE_DEAD_INTERVALS_FOR_SELF_HEAL <= i < history.len(),
    ensures
        0 <= i,
        history[i].0,
        history[i].1 >= MIN_FEEDBACK_ANSWERS_FOR_SELF_HEAL,
        history[i].2 == 0,
{
    reveal_with_fuel(dead_run, 3);
    let before = history.drop_last();
    assert(history.last() == history[history.len() - 1]);
    assert(before.len() > 0);
    assert(before.last() == history[history.len() - 2]);
}

} // verus!
