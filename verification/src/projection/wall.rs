//! The presenters of a wall: which of them take the next frame, into which of
//! their buffers, and what their answers change.
//!
//! Times are nanoseconds on one monotonic clock.
use crate::projection::gate::{
    entry_for, gate_entry, gate_signal, is_open, signal_for, stalled_among, DeadIntervalTracker,
    GateEntry, GateSignal, GateState, STALL_TIMEOUT,
};
use vstd::prelude::*;

verus! {

/// What shades the canvas.
#[derive(Debug, Clone, Copy, PartialEq, Eq, Structural)]
pub enum Backend {
    Cpu,
    Gpu,
}

/// Buffers of an output that may be scanned out: one on screen, one queued, one
/// being drawn into.
pub const GPU_PRESENT_SLOTS: usize = 3;

/// Buffers of an output that are always copied: one being read, one being drawn
/// into.
pub const CPU_PRESENT_SLOTS: usize = 2;

/// How many buffers an output gets. A backend that is not decided yet counts as
/// one that copies.
pub fn present_slots(backend: Option<Backend>) -> (slots: usize)
    ensures
        slots == (if backend == Some(Backend::Gpu) {
            GPU_PRESENT_SLOTS
        } else {
            CPU_PRESENT_SLOTS
        }),
{
    match backend {
        Some(Backend::Gpu) => GPU_PRESENT_SLOTS,
        _ => CPU_PRESENT_SLOTS,
    }
}

/// The buffer `step` places on in the rotation.
pub open spec fn rotation(len: nat, next: int, step: int) -> int {
    (next + step) % (len as int)
}

/// The first free buffer in the rotation, from `step` places on.
pub open spec fn free_from(busy: Seq<bool>, next: int, step: int) -> Option<int>
    decreases busy.len() - step,
{
    if step < 0 || step >= busy.len() {
        None
    } else if !busy[rotation(busy.len(), next, step)] {
        Some(rotation(busy.len(), next, step))
    } else {
        free_from(busy, next, step + 1)
    }
}

/// The first free buffer in the rotation that starts at `next`.
pub open spec fn free_slot(busy: Seq<bool>, next: int) -> Option<int> {
    free_from(busy, next, 0)
}

/// The first free buffer in the rotation that starts at `next`. A buffer that the
/// compositor holds is never given.
pub fn free_present_slot(busy: &[bool], next: usize) -> (slot: Option<usize>)
    requires
        next + busy@.len() <= usize::MAX,
    ensures
        match slot {
            Some(slot) => free_slot(busy@, next as int) == Some(slot as int),
            None => free_slot(busy@, next as int) is None,
        },
        slot matches Some(slot) ==> slot < busy@.len() && !busy@[slot as int],
{
    let len: usize = busy.len();
    let mut step: usize = 0;
    while step < len
        invariant
            step <= len,
            len == busy@.len(),
            next + busy@.len() <= usize::MAX,
            free_from(busy@, next as int, 0) == free_from(busy@, next as int, step as int),
        decreases len - step,
    {
        let slot: usize = (next + step) % len;
        if !busy[slot] {
            return Some(slot);
        }
        step = step + 1;
    }
    None
}

proof fn lemma_free_from(busy: Seq<bool>, next: int, step: int)
    requires
        0 <= step,
        0 <= next,
    ensures
        free_from(busy, next, step) matches Some(slot) ==> 0 <= slot < busy.len() && !busy[slot],
        free_from(busy, next, step) is None <==> forall|s: int|
            step <= s < busy.len() ==> busy[#[trigger] rotation(busy.len(), next, s)],
    decreases busy.len() - step,
{
    if step < busy.len() {
        vstd::arithmetic::div_mod::lemma_mod_bound(next + step, busy.len() as int);
        lemma_free_from(busy, next, step + 1);
        if busy[rotation(busy.len(), next, step)] && free_from(busy, next, step + 1) is None {
            assert forall|s: int| step <= s < busy.len() implies busy[#[trigger] rotation(
                busy.len(),
                next,
                s,
            )] by {}
        }
    }
}

proof fn lemma_rotation_reaches(len: nat, next: int, slot: int) -> (step: int)
    requires
        0 <= slot < len,
        0 <= next,
    ensures
        0 <= step < len,
        rotation(len, next, step) == slot,
{
    let n = len as int;
    let from = next % n;
    vstd::arithmetic::div_mod::lemma_mod_bound(next, n);
    let step = if slot >= from {
        slot - from
    } else {
        slot - from + n
    };
    let q = next / n;
    vstd::arithmetic::div_mod::lemma_fundamental_div_mod(next, n);
    let k: int = if slot >= from {
        q
    } else {
        q + 1
    };
    assert(next + step == n * k + slot) by (nonlinear_arith)
        requires
            next == n * q + from,
            (k == q && step == slot - from) || (k == q + 1 && step == slot - from + n),
    ;
    vstd::arithmetic::div_mod::lemma_fundamental_div_mod_converse(next + step, n, k, slot);
    step
}

/// A buffer that the compositor holds is never drawn into, and a buffer is found
/// wherever one is free.
pub proof fn free_buffer_is_found(busy: Seq<bool>, next: int, slot: int)
    requires
        0 <= next,
    ensures
        free_slot(busy, next) matches Some(found) ==> 0 <= found < busy.len() && !busy[found],
        0 <= slot < busy.len() && !busy[slot] ==> free_slot(busy, next) is Some,
{
    lemma_free_from(busy, next, 0);
    if 0 <= slot < busy.len() && !busy[slot] && free_slot(busy, next) is None {
        let step = lemma_rotation_reaches(busy.len(), next, slot);
        assert(busy[rotation(busy.len(), next, step)]);
    }
}

/// One output of the wall.
#[derive(Debug, Clone, PartialEq, Eq)]
pub struct Presenter {
    /// The size that the compositor gave it.
    pub configured: Option<(u32, u32)>,
    /// For each buffer whether the compositor holds it.
    pub busy: Vec<bool>,
    pub next_buffer: usize,
    /// The geometry that it carries, and the newest that was sent and shown.
    pub warp_revision: u64,
    pub warp_submitted_revision: Option<u64>,
    pub warp_reported_revision: Option<u64>,
    /// A frame callback is owing.
    pub frame_pending: bool,
    pub pending_since: Option<u64>,
    /// The oldest frame for which presentation feedback is owing.
    pub feedback_pending_for: Option<u64>,
    pub feedback_since: Option<u64>,
    /// It was dropped from the frame gate.
    pub stalled: bool,
    /// It has not taken the newest frame.
    pub stale: bool,
}

/// What a [`Presenter`] holds.
pub struct PresenterView {
    pub configured: Option<(u32, u32)>,
    pub busy: Seq<bool>,
    pub next_buffer: usize,
    pub warp_revision: u64,
    pub warp_submitted_revision: Option<u64>,
    pub warp_reported_revision: Option<u64>,
    pub frame_pending: bool,
    pub pending_since: Option<u64>,
    pub feedback_pending_for: Option<u64>,
    pub feedback_since: Option<u64>,
    pub stalled: bool,
    pub stale: bool,
}

impl View for Presenter {
    type V = PresenterView;

    open spec fn view(&self) -> PresenterView {
        PresenterView {
            configured: self.configured,
            busy: self.busy@,
            next_buffer: self.next_buffer,
            warp_revision: self.warp_revision,
            warp_submitted_revision: self.warp_submitted_revision,
            warp_reported_revision: self.warp_reported_revision,
            frame_pending: self.frame_pending,
            pending_since: self.pending_since,
            feedback_pending_for: self.feedback_pending_for,
            feedback_since: self.feedback_since,
            stalled: self.stalled,
            stale: self.stale,
        }
    }
}

/// How long an answer has been owing, where it is.
pub open spec fn owing(set: bool, since: Option<u64>, now: u64) -> Option<u64> {
    if set {
        Some(
            match since {
                Some(at) => if now >= at {
                    (now - at) as u64
                } else {
                    0
                },
                None => 0,
            },
        )
    } else {
        None
    }
}

fn owing_for(set: bool, since: Option<u64>, now: u64) -> (waited: Option<u64>)
    ensures
        waited == owing(set, since, now),
{
    if !set {
        return None;
    }
    match since {
        Some(at) => Some(now.saturating_sub(at)),
        None => Some(0),
    }
}

impl PresenterView {
    /// The rotation can be stepped through.
    pub open spec fn wf(self) -> bool {
        2 * self.busy.len() <= usize::MAX && self.next_buffer + self.busy.len() <= usize::MAX
    }

    /// What it owes under a signal.
    pub open spec fn gate_entry(self, signal: GateSignal, now: u64) -> GateEntry {
        entry_for(
            signal,
            owing(self.frame_pending, self.pending_since, now),
            owing(self.feedback_pending_for is Some, self.feedback_since, now),
            self.stalled,
        )
    }

    /// It is ready for another frame.
    pub open spec fn ready(self, signal: GateSignal, now: u64) -> bool {
        self.gate_entry(signal, now).is_answered(STALL_TIMEOUT)
    }

    /// A buffer is free to draw into.
    pub open spec fn has_free_slot(self) -> bool {
        free_slot(self.busy, self.next_buffer as int) is Some
    }

    /// It takes the frame, into a buffer.
    pub open spec fn taken(self, slot: int) -> PresenterView {
        PresenterView {
            next_buffer: ((slot + 1) % (self.busy.len() as int)) as usize,
            busy: self.busy.update(slot, true),
            stale: false,
            ..self
        }
    }

    /// It was sent a frame. The feedback that is owing is that of the oldest
    /// frame that was not answered for: an output that was dropped is still sent
    /// frames, and could otherwise never be matched with its answers again.
    pub open spec fn sent(self, snapshot_id: u64, feedback: bool, now: u64) -> PresenterView {
        PresenterView {
            frame_pending: true,
            pending_since: Some(now),
            feedback_pending_for: if feedback && self.feedback_pending_for is None {
                Some(snapshot_id)
            } else {
                self.feedback_pending_for
            },
            feedback_since: if feedback && self.feedback_pending_for is None {
                Some(now)
            } else {
                self.feedback_since
            },
            ..self
        }
    }

    /// It carries geometry that was not sent before.
    pub open spec fn is_unsent(self) -> bool {
        match self.warp_submitted_revision {
            Some(sent) => self.warp_revision > sent,
            None => true,
        }
    }

    /// It after its geometry was noted as sent.
    pub open spec fn noted_sent(self) -> PresenterView {
        if self.is_unsent() {
            PresenterView { warp_submitted_revision: Some(self.warp_revision), ..self }
        } else {
            self
        }
    }

    /// Geometry that was not reported as shown before.
    pub open spec fn is_unreported(self, revision: u64) -> bool {
        match self.warp_reported_revision {
            Some(reported) => revision > reported,
            None => true,
        }
    }

    /// It after geometry was noted as shown.
    pub open spec fn noted_shown(self, revision: u64) -> PresenterView {
        if self.is_unreported(revision) {
            PresenterView { warp_reported_revision: Some(revision), ..self }
        } else {
            self
        }
    }

    /// Its frame callback came. Where callbacks are what the frame gate waits for, it
    /// is let back in.
    pub open spec fn called_back(self, gated_on_callbacks: bool) -> PresenterView {
        PresenterView {
            frame_pending: false,
            pending_since: None,
            stalled: self.stalled && !gated_on_callbacks,
            ..self
        }
    }

    /// Its feedback for a frame came. An answer that is older than the one that
    /// is owing ends nothing.
    pub open spec fn fed_back(self, snapshot_id: u64, gated_on_feedback: bool) -> PresenterView {
        if self.feedback_pending_for is Some && snapshot_id >= self.feedback_pending_for->0 {
            PresenterView {
                feedback_pending_for: None,
                feedback_since: None,
                stalled: self.stalled && !gated_on_feedback,
                ..self
            }
        } else {
            self
        }
    }
}

impl Presenter {
    /// What it owes under a signal.
    pub fn gate_entry(&self, signal: GateSignal, now: u64) -> (entry: GateEntry)
        ensures
            entry == self@.gate_entry(signal, now),
    {
        gate_entry(
            signal,
            owing_for(self.frame_pending, self.pending_since, now),
            owing_for(self.feedback_pending_for.is_some(), self.feedback_since, now),
            self.stalled,
        )
    }

    /// Whether it is ready for another frame.
    pub fn gate_ready(&self, signal: GateSignal, now: u64) -> (ready: bool)
        ensures
            ready == self@.ready(signal, now),
    {
        self.gate_entry(signal, now).answered(STALL_TIMEOUT)
    }

    fn free_slot(&self) -> (slot: Option<usize>)
        requires
            self@.wf(),
        ensures
            match slot {
                Some(slot) => free_slot(self@.busy, self.next_buffer as int) == Some(slot as int),
                None => !self@.has_free_slot(),
            },
            slot matches Some(slot) ==> slot < self@.busy.len() && !self@.busy[slot as int],
    {
        free_present_slot(self.busy.as_slice(), self.next_buffer)
    }

    fn take(&mut self, slot: usize)
        requires
            slot < old(self)@.busy.len(),
        ensures
            final(self)@ == old(self)@.taken(slot as int),
    {
        let len: usize = self.busy.len();
        self.next_buffer = if slot + 1 == len {
            0
        } else {
            slot + 1
        };
        proof {
            if slot + 1 == len {
                vstd::arithmetic::div_mod::lemma_mod_self_0(len as int);
            } else {
                vstd::arithmetic::div_mod::lemma_small_mod((slot + 1) as nat, len as nat);
            }
        }
        self.busy.set(slot, true);
        self.stale = false;
    }

    /// Records that a frame went out to it.
    pub fn commit_sent(&mut self, snapshot_id: u64, feedback: bool, now: u64)
        ensures
            final(self)@ == old(self)@.sent(snapshot_id, feedback, now),
    {
        self.frame_pending = true;
        self.pending_since = Some(now);
        if feedback && self.feedback_pending_for.is_none() {
            self.feedback_pending_for = Some(snapshot_id);
            self.feedback_since = Some(now);
        }
    }
}

/// A presenter that is to take a frame, and the buffer it takes it into.
#[derive(Debug, Clone, Copy, PartialEq, Eq, Structural)]
pub struct Due {
    pub index: usize,
    pub slot: usize,
}

/// What becomes of a presenter when frames are handed out, and the buffer it
/// takes. One that is free-running and not ready, or that has no free buffer,
/// stays due; `drop_bare` says whether one without any buffers does.
pub open spec fn handed(
    presenter: PresenterView,
    free_run: bool,
    signal: GateSignal,
    now: u64,
    drop_bare: bool,
) -> (PresenterView, Option<int>) {
    if presenter.configured is None || !presenter.stale {
        (PresenterView { stale: false, ..presenter }, None)
    } else if free_run && !presenter.ready(signal, now) {
        (presenter, None)
    } else if drop_bare && presenter.busy.len() == 0 {
        (PresenterView { stale: false, ..presenter }, None)
    } else {
        match free_slot(presenter.busy, presenter.next_buffer as int) {
            Some(slot) => (presenter.taken(slot), Some(slot)),
            None => (presenter, None),
        }
    }
}

/// The presenters among the first `n` that take a frame.
pub open spec fn due_among(
    presenters: Seq<PresenterView>,
    free_run: bool,
    signal: GateSignal,
    now: u64,
    drop_bare: bool,
    n: int,
) -> Seq<Due>
    decreases n,
{
    if n <= 0 {
        Seq::empty()
    } else {
        let before = due_among(presenters, free_run, signal, now, drop_bare, n - 1);
        match handed(presenters[n - 1], free_run, signal, now, drop_bare).1 {
            Some(slot) => before.push(Due { index: (n - 1) as usize, slot: slot as usize }),
            None => before,
        }
    }
}

/// The outputs of a wall after a frame has been handed out.
pub open spec fn after_hand_out(
    presenters: Seq<PresenterView>,
    free_run: bool,
    signal: GateSignal,
    now: u64,
    drop_bare: bool,
) -> Seq<PresenterView> {
    presenters.map_values(
        |presenter: PresenterView| handed(presenter, free_run, signal, now, drop_bare).0,
    )
}

/// The outputs that are handed a frame, each with its buffer.
pub open spec fn all_due(
    presenters: Seq<PresenterView>,
    free_run: bool,
    signal: GateSignal,
    now: u64,
    drop_bare: bool,
) -> Seq<Due> {
    due_among(presenters, free_run, signal, now, drop_bare, presenters.len() as int)
}

/// What is handed out of the counter, and the outputs after that: nothing in step while
/// an output that still counts lacks a buffer.
pub open spec fn handed_in_step(
    presenters: Seq<PresenterView>,
    free_run: bool,
    signal: GateSignal,
    now: u64,
) -> (Seq<Due>, Seq<PresenterView>) {
    if !free_run && !none_lacks_a_buffer(presenters) {
        (Seq::empty(), presenters)
    } else {
        (
            all_due(presenters, free_run, signal, now, true),
            after_hand_out(presenters, free_run, signal, now, true),
        )
    }
}

/// What the presenters look like.
pub open spec fn presenter_views(presenters: Seq<Presenter>) -> Seq<PresenterView> {
    presenters.map_values(|presenter: Presenter| presenter@)
}

/// A wall and what paces it.
#[derive(Debug)]
pub struct Wall {
    pub presenters: Vec<Presenter>,
    /// Each output takes frames at its own pace.
    pub free_run: bool,
    /// The compositor offers presentation feedback.
    pub presentation: bool,
    /// Drawing failed, and is not tried again before this time.
    pub gpu_retry_after: Option<u64>,
    /// The frame gate has been holding a frame since this time.
    pub gate_blocked_since: Option<u64>,
    /// The registry names of the outputs in use.
    pub used_outputs: Vec<u32>,
    pub closed: bool,
    pub dead_intervals: DeadIntervalTracker,
}

impl Wall {
    /// What the presenters look like.
    pub open spec fn views(self) -> Seq<PresenterView> {
        presenter_views(self.presenters@)
    }

    /// Every rotation can be stepped through.
    pub open spec fn wf(self) -> bool {
        forall|i: int| 0 <= i < self.views().len() ==> (#[trigger] self.views()[i]).wf()
    }

    /// What is the same but for the presenters.
    pub open spec fn same_but_presenters(self, other: Wall) -> bool {
        &&& self.free_run == other.free_run
        &&& self.presentation == other.presentation
        &&& self.gpu_retry_after == other.gpu_retry_after
        &&& self.gate_blocked_since == other.gate_blocked_since
        &&& self.used_outputs == other.used_outputs
        &&& self.closed == other.closed
        &&& self.dead_intervals == other.dead_intervals
    }
}

/// What every presenter owes.
pub open spec fn entries_of(
    presenters: Seq<PresenterView>,
    signal: GateSignal,
    now: u64,
) -> Seq<GateEntry> {
    presenters.map_values(|presenter: PresenterView| presenter.gate_entry(signal, now))
}

/// The frame gate permits another frame. In step, every presenter must be ready;
/// free-running, one is enough.
pub open spec fn gate_permits(
    presenters: Seq<PresenterView>,
    free_run: bool,
    signal: GateSignal,
    now: u64,
) -> bool {
    if free_run {
        exists|i: int|
            0 <= i < presenters.len() && (#[trigger] presenters[i]).ready(signal, now)
    } else {
        is_open(entries_of(presenters, signal, now), STALL_TIMEOUT)
    }
}

/// Some presenter waits for the newest frame and has a buffer for it.
pub open spec fn any_can_take(presenters: Seq<PresenterView>) -> bool {
    exists|i: int|
        0 <= i < presenters.len() && (#[trigger] presenters[i]).stale
            && presenters[i].has_free_slot()
}

/// Every presenter that is waited for, and waits for the newest frame, has a
/// buffer for it.
pub open spec fn none_lacks_a_buffer(presenters: Seq<PresenterView>) -> bool {
    forall|i: int|
        0 <= i < presenters.len() && (#[trigger] presenters[i]).stale && !presenters[i].stalled
            ==> presenters[i].has_free_slot()
}

/// There is a frame to show and it may be shown now.
pub open spec fn may_present(
    presenters: Seq<PresenterView>,
    free_run: bool,
    signal: GateSignal,
    retry_after: Option<u64>,
    now: u64,
) -> bool {
    &&& !(retry_after is Some && now < retry_after->0)
    &&& if free_run {
        exists|i: int|
            0 <= i < presenters.len() && (#[trigger] presenters[i]).stale && presenters[i].ready(
                signal,
                now,
            ) && presenters[i].has_free_slot()
    } else {
        any_can_take(presenters) && none_lacks_a_buffer(presenters) && gate_permits(
            presenters,
            false,
            signal,
            now,
        )
    }
}

impl Wall {
    /// The answer that the frame gate waits for.
    pub fn gate_signal(&self) -> (signal: GateSignal)
        ensures
            signal == signal_for(self.presentation),
    {
        gate_signal(self.presentation)
    }

    /// Whether every output was given a size.
    pub fn all_configured(&self) -> (all: bool)
        ensures
            all == forall|i: int|
                0 <= i < self.views().len() ==> (#[trigger] self.views()[i]).configured is Some,
    {
        let ghost views = self.views();
        let mut i: usize = 0;
        while i < self.presenters.len()
            invariant
                i <= self.presenters@.len(),
                views == presenter_views(self.presenters@),
                forall|j: int| 0 <= j < i ==> (#[trigger] views[j]).configured is Some,
            decreases self.presenters@.len() - i,
        {
            assert(views[i as int] == self.presenters@[i as int]@);
            if self.presenters[i].configured.is_none() {
                return false;
            }
            i = i + 1;
        }
        true
    }

    /// What every presenter owes now.
    pub fn gate_state(&self, now: u64) -> (gate: GateState)
        ensures
            gate.entries@ == entries_of(self.views(), signal_for(self.presentation), now),
            gate.limit == STALL_TIMEOUT,
    {
        let signal = self.gate_signal();
        let mut entries: Vec<GateEntry> = Vec::new();
        let mut i: usize = 0;
        while i < self.presenters.len()
            invariant
                i <= self.presenters@.len(),
                signal == signal_for(self.presentation),
                entries@.len() == i,
                forall|j: int|
                    0 <= j < i ==> #[trigger] entries@[j] == self.presenters@[j]@.gate_entry(
                        signal,
                        now,
                    ),
            decreases self.presenters@.len() - i,
        {
            entries.push(self.presenters[i].gate_entry(signal, now));
            i = i + 1;
        }
        assert(entries@ =~= entries_of(self.views(), signal, now));
        GateState::new(entries, STALL_TIMEOUT)
    }

    /// Whether the frame gate permits another frame, whether or not there is one.
    pub fn gate_open(&self, now: u64) -> (open: bool)
        ensures
            open == gate_permits(
                self.views(),
                self.free_run,
                signal_for(self.presentation),
                now,
            ),
    {
        if self.free_run {
            let signal = self.gate_signal();
            let ghost views = self.views();
            let mut i: usize = 0;
            while i < self.presenters.len()
                invariant
                    i <= self.presenters@.len(),
                    views == presenter_views(self.presenters@),
                    signal == signal_for(self.presentation),
                    self.free_run,
                    forall|j: int| 0 <= j < i ==> !(#[trigger] views[j]).ready(signal, now),
                decreases self.presenters@.len() - i,
            {
                assert(views[i as int] == self.presenters@[i as int]@);
                if self.presenters[i].gate_ready(signal, now) {
                    return true;
                }
                i = i + 1;
            }
            false
        } else {
            self.gate_state(now).all_answered()
        }
    }

    /// Whether there is a frame to show that may be shown now.
    pub fn can_present(&self, now: u64) -> (can: bool)
        requires
            self.wf(),
        ensures
            can == may_present(
                self.views(),
                self.free_run,
                signal_for(self.presentation),
                self.gpu_retry_after,
                now,
            ),
    {
        let ghost views = self.views();
        if let Some(at) = self.gpu_retry_after {
            if now < at {
                return false;
            }
        }
        let signal = self.gate_signal();
        let mut any = false;
        let mut lacking = false;
        let mut i: usize = 0;
        while i < self.presenters.len()
            invariant
                i <= self.presenters@.len(),
                self.wf(),
                views == self.views(),
                signal == signal_for(self.presentation),
                self.free_run ==> any == exists|j: int|
                    0 <= j < i && (#[trigger] views[j]).stale && views[j].ready(signal, now)
                        && views[j].has_free_slot(),
                !self.free_run ==> any == exists|j: int|
                    0 <= j < i && (#[trigger] views[j]).stale && views[j].has_free_slot(),
                lacking == exists|j: int|
                    0 <= j < i && (#[trigger] views[j]).stale && !views[j].stalled
                        && !views[j].has_free_slot(),
            decreases self.presenters@.len() - i,
        {
            assert(views[i as int] == self.presenters@[i as int]@);
            assert(views[i as int].wf());
            let presenter = &self.presenters[i];
            if presenter.stale {
                let free = presenter.free_slot().is_some();
                if free && (!self.free_run || presenter.gate_ready(signal, now)) {
                    any = true;
                }
                if !free && !presenter.stalled {
                    lacking = true;
                }
            }
            i = i + 1;
        }
        if self.free_run {
            any
        } else {
            any && !lacking && self.gate_open(now)
        }
    }

    /// Hands the newest frame out: the presenters that take it, each with the
    /// buffer it takes it into. In step, nobody takes it while one that is
    /// waited for has no free buffer.
    pub fn sync_due(&mut self, now: u64) -> (due: Vec<Due>)
        requires
            old(self).wf(),
        ensures
            (due@, final(self).views()) == handed_in_step(
                old(self).views(),
                old(self).free_run,
                signal_for(old(self).presentation),
                now,
            ),
            final(self).wf(),
            final(self).same_but_presenters(*old(self)),
            ({
                let views = old(self).views();
                let signal = signal_for(old(self).presentation);
                if !old(self).free_run && !none_lacks_a_buffer(views) {
                    due@ == Seq::<Due>::empty() && final(self).views() == views
                } else {
                    &&& due@ == due_among(
                        views,
                        old(self).free_run,
                        signal,
                        now,
                        true,
                        views.len() as int,
                    )
                    &&& final(self).views() == views.map_values(
                        |presenter: PresenterView|
                            handed(presenter, old(self).free_run, signal, now, true).0,
                    )
                }
            }),
    {
        let ghost views = self.views();
        if !self.free_run {
            let mut i: usize = 0;
            while i < self.presenters.len()
                invariant
                    i <= self.presenters@.len(),
                    self.wf(),
                    views == self.views(),
                    *self == *old(self),
                    !old(self).free_run,
                    forall|j: int|
                        0 <= j < i && (#[trigger] views[j]).stale && !views[j].stalled
                            ==> views[j].has_free_slot(),
                decreases self.presenters@.len() - i,
            {
                assert(views[i as int] == self.presenters@[i as int]@);
                assert(views[i as int].wf());
                let presenter = &self.presenters[i];
                if presenter.stale && !presenter.stalled && presenter.free_slot().is_none() {
                    assert(!none_lacks_a_buffer(views));
                    return Vec::new();
                }
                i = i + 1;
            }
        }
        self.hand_out(now, true)
    }

    /// Hands the newest frame out to every presenter that can take it.
    /// `drop_bare` says that a presenter without buffers is not owed the frame.
    pub fn hand_out(&mut self, now: u64, drop_bare: bool) -> (due: Vec<Due>)
        requires
            old(self).wf(),
        ensures
            due@ == all_due(
                old(self).views(),
                old(self).free_run,
                signal_for(old(self).presentation),
                now,
                drop_bare,
            ),
            final(self).views() == after_hand_out(
                old(self).views(),
                old(self).free_run,
                signal_for(old(self).presentation),
                now,
                drop_bare,
            ),
            final(self).wf(),
            final(self).same_but_presenters(*old(self)),
            ({
                let views = old(self).views();
                let signal = signal_for(old(self).presentation);
                &&& due@ == due_among(
                    views,
                    old(self).free_run,
                    signal,
                    now,
                    drop_bare,
                    views.len() as int,
                )
                &&& final(self).views() == views.map_values(
                    |presenter: PresenterView|
                        handed(presenter, old(self).free_run, signal, now, drop_bare).0,
                )
            }),
    {
        let signal = self.gate_signal();
        let ghost views = self.views();
        let free_run = self.free_run;
        let ghost after = views.map_values(
            |presenter: PresenterView| handed(presenter, free_run, signal, now, drop_bare).0,
        );
        let mut due: Vec<Due> = Vec::new();
        let mut i: usize = 0;
        while i < self.presenters.len()
            invariant
                i <= self.presenters@.len(),
                self.presenters@.len() == views.len(),
                signal == signal_for(old(self).presentation),
                free_run == old(self).free_run,
                old(self).wf(),
                views == old(self).views(),
                after == views.map_values(
                    |presenter: PresenterView|
                        handed(presenter, free_run, signal, now, drop_bare).0,
                ),
                self.same_but_presenters(*old(self)),
                due@ == due_among(views, free_run, signal, now, drop_bare, i as int),
                forall|j: int| 0 <= j < i ==> (#[trigger] self.presenters@[j])@ == after[j],
                forall|j: int|
                    i <= j < views.len() ==> (#[trigger] self.presenters@[j])@ == views[j],
                forall|j: int| 0 <= j < i ==> (#[trigger] self.presenters@[j])@.wf(),
            decreases self.presenters@.len() - i,
        {
            let ghost index = i as int;
            assert(self.presenters@[index]@ == views[index]);
            assert(views[index].wf());
            if self.presenters[i].configured.is_none() || !self.presenters[i].stale {
                self.presenters[i].stale = false;
            } else if free_run && !self.presenters[i].gate_ready(signal, now) {
            } else if drop_bare && self.presenters[i].busy.len() == 0 {
                self.presenters[i].stale = false;
            } else {
                match self.presenters[i].free_slot() {
                    Some(slot) => {
                        self.presenters[i].take(slot);
                        due.push(Due { index: i, slot });
                        assert(self.presenters@[index]@ == views[index].taken(slot as int));
                        proof {
                            vstd::arithmetic::div_mod::lemma_mod_bound(
                                slot + 1,
                                views[index].busy.len() as int,
                            );
                        }
                    },
                    None => {},
                }
            }
            assert(self.presenters@[index]@ == after[index]);
            i = i + 1;
        }
        assert(self.views() =~= after);
        assert forall|j: int| 0 <= j < self.views().len() implies (#[trigger] self.views()[j]).wf() by {
            assert(self.views()[j] == self.presenters@[j]@);
        }
        due
    }
}

/// The presenters once those that stopped answering are dropped and a newer
/// frame waits for every one of them.
pub open spec fn refreshed(
    presenters: Seq<PresenterView>,
    signal: GateSignal,
    now: u64,
) -> Seq<PresenterView> {
    presenters.map_values(
        |presenter: PresenterView|
            PresenterView {
                stale: true,
                stalled: presenter.stalled || presenter.gate_entry(signal, now).stalls(
                    STALL_TIMEOUT,
                ),
                ..presenter
            },
    )
}

impl Wall {
    /// The same wall with one presenter changed.
    pub open spec fn with_presenter(self, index: int, presenter: PresenterView) -> Seq<
        PresenterView,
    > {
        if 0 <= index < self.views().len() {
            self.views().update(index, presenter)
        } else {
            self.views()
        }
    }

    /// A newer frame waits for every presenter, and those that stopped answering
    /// are dropped from the frame gate. Gives those, with how long each was waited for.
    pub fn refresh(&mut self, now: u64) -> (stalled: Vec<(usize, u64)>)
        ensures
            final(self).same_but_presenters(*old(self)),
            old(self).wf() ==> final(self).wf(),
            final(self).views() == refreshed(
                old(self).views(),
                signal_for(old(self).presentation),
                now,
            ),
            stalled@ == stalled_among(
                entries_of(old(self).views(), signal_for(old(self).presentation), now),
                STALL_TIMEOUT,
                old(self).views().len() as int,
            ),
    {
        let signal = self.gate_signal();
        let ghost views = self.views();
        let gate = self.gate_state(now);
        let stalled = gate.newly_stalled();
        let ghost after = refreshed(views, signal, now);
        let mut i: usize = 0;
        while i < self.presenters.len()
            invariant
                i <= self.presenters@.len(),
                self.presenters@.len() == views.len(),
                self.same_but_presenters(*old(self)),
                after == refreshed(views, signal, now),
                gate.entries@ == entries_of(views, signal, now),
                gate.limit == STALL_TIMEOUT,
                forall|j: int| 0 <= j < i ==> (#[trigger] self.presenters@[j])@ == after[j],
                forall|j: int|
                    i <= j < views.len() ==> (#[trigger] self.presenters@[j])@ == views[j],
            decreases self.presenters@.len() - i,
        {
            let ghost index = i as int;
            assert(self.presenters@[index]@ == views[index]);
            assert(gate.entries@[index] == views[index].gate_entry(signal, now));
            let entry = gate.entries[i];
            self.presenters[i].stale = true;
            if entry.waiting && !entry.stalled && entry.waited > STALL_TIMEOUT {
                self.presenters[i].stalled = true;
            }
            assert(self.presenters@[index]@ == after[index]);
            i = i + 1;
        }
        assert(self.views() =~= after);
        proof {
            if old(self).wf() {
                assert forall|j: int| 0 <= j < self.views().len() implies (
                #[trigger] self.views()[j]).wf() by {
                    assert(views[j].wf());
                    assert(self.views()[j] == after[j]);
                }
            }
        }
        stalled
    }

    /// Nobody is owed a frame: there is none to show.
    pub fn clear_stale(&mut self)
        ensures
            final(self).views() == none_owed(old(self).views()),
            final(self).same_but_presenters(*old(self)),
            old(self).wf() ==> final(self).wf(),
            final(self).views() == old(self).views().map_values(
                |presenter: PresenterView| PresenterView { stale: false, ..presenter },
            ),
    {
        let ghost views = self.views();
        let ghost after = views.map_values(
            |presenter: PresenterView| PresenterView { stale: false, ..presenter },
        );
        let mut i: usize = 0;
        while i < self.presenters.len()
            invariant
                i <= self.presenters@.len(),
                self.presenters@.len() == views.len(),
                self.same_but_presenters(*old(self)),
                after == views.map_values(
                    |presenter: PresenterView| PresenterView { stale: false, ..presenter },
                ),
                forall|j: int| 0 <= j < i ==> (#[trigger] self.presenters@[j])@ == after[j],
                forall|j: int|
                    i <= j < views.len() ==> (#[trigger] self.presenters@[j])@ == views[j],
            decreases self.presenters@.len() - i,
        {
            assert(self.presenters@[i as int]@ == views[i as int]);
            self.presenters[i].stale = false;
            assert(self.presenters@[i as int]@ == after[i as int]);
            i = i + 1;
        }
        assert(self.views() =~= after);
        proof {
            if old(self).wf() {
                assert forall|j: int| 0 <= j < self.views().len() implies (
                #[trigger] self.views()[j]).wf() by {
                    assert(views[j].wf());
                }
            }
        }
    }

    /// Drawing failed: the buffers that were taken are given back, and their
    /// presenters are owed the frame again. It is not tried again for a while.
    pub fn blend_failed(&mut self, due: &Vec<Due>, retry_at: u64)
        requires
            forall|k: int|
                0 <= k < due@.len() ==> (#[trigger] due@[k]).index < old(self).views().len()
                    && due@[k].slot < old(self).views()[due@[k].index as int].busy.len(),
        ensures
            final(self).gpu_retry_after == Some(retry_at),
            final(self).views() == given_back(old(self).views(), due@, due@.len() as int),
            old(self).wf() ==> final(self).wf(),
            final(self).free_run == old(self).free_run,
            final(self).presentation == old(self).presentation,
            final(self).closed == old(self).closed,
            final(self).gate_blocked_since == old(self).gate_blocked_since,
            final(self).used_outputs == old(self).used_outputs,
            final(self).dead_intervals == old(self).dead_intervals,
    {
        let ghost views = self.views();
        let mut k: usize = 0;
        while k < due.len()
            invariant
                k <= due@.len(),
                views == old(self).views(),
                self.same_but_presenters(*old(self)),
                self.presenters@.len() == views.len(),
                self.views() == given_back(views, due@, k as int),
                forall|j: int|
                    0 <= j < views.len() ==> (#[trigger] self.presenters@[j])@.busy.len()
                        == views[j].busy.len() && self.presenters@[j].next_buffer
                        == views[j].next_buffer,
                forall|j: int|
                    0 <= j < due@.len() ==> (#[trigger] due@[j]).index < views.len()
                        && due@[j].slot < views[due@[j].index as int].busy.len(),
            decreases due@.len() - k,
        {
            let d = due[k];
            let ghost held = self.views();
            assert(due@[k as int].index < views.len());
            assert(held[d.index as int] == self.presenters@[d.index as int]@);
            self.presenters[d.index].busy.set(d.slot, false);
            self.presenters[d.index].stale = true;
            assert(self.views() =~= held.update(
                d.index as int,
                PresenterView {
                    busy: held[d.index as int].busy.update(d.slot as int, false),
                    stale: true,
                    ..held[d.index as int]
                },
            ));
            k = k + 1;
        }
        self.gpu_retry_after = Some(retry_at);
        proof {
            if old(self).wf() {
                assert forall|j: int| 0 <= j < self.views().len() implies (
                #[trigger] self.views()[j]).wf() by {
                    assert(views[j].wf());
                    assert(self.views()[j] == self.presenters@[j]@);
                }
            }
        }
    }

    /// A frame went out to a presenter.
    pub fn commit_sent(&mut self, index: usize, snapshot_id: u64, now: u64)
        requires
            index < old(self).views().len(),
        ensures
            final(self).same_but_presenters(*old(self)),
            final(self).views() == old(self).with_presenter(
                index as int,
                old(self).views()[index as int].sent(snapshot_id, old(self).presentation, now),
            ),
            old(self).wf() ==> final(self).wf(),
    {
        let ghost views = self.views();
        let feedback = self.presentation;
        assert(views[index as int] == self.presenters@[index as int]@);
        self.presenters[index].commit_sent(snapshot_id, feedback, now);
        assert(self.views() =~= views.update(
            index as int,
            views[index as int].sent(snapshot_id, feedback, now),
        ));
    }

    /// A presenter carries geometry that was not sent before; says whether that
    /// is so, and notes it.
    pub fn note_submitted(&mut self, index: usize) -> (newer: bool)
        requires
            index < old(self).views().len(),
        ensures
            newer == old(self).views()[index as int].is_unsent(),
            final(self).views()[index as int] == old(self).views()[index as int].noted_sent(),
            final(self).same_but_presenters(*old(self)),
            old(self).wf() ==> final(self).wf(),
            ({
                let presenter = old(self).views()[index as int];
                &&& newer == (presenter.warp_submitted_revision is None || presenter.warp_revision
                    > presenter.warp_submitted_revision->0)
                &&& final(self).views() == (if newer {
                    old(self).views().update(
                        index as int,
                        PresenterView {
                            warp_submitted_revision: Some(presenter.warp_revision),
                            ..presenter
                        },
                    )
                } else {
                    old(self).views()
                })
            }),
    {
        let ghost views = self.views();
        assert(views[index as int] == self.presenters@[index as int]@);
        let revision: u64 = self.presenters[index].warp_revision;
        let newer = match self.presenters[index].warp_submitted_revision {
            Some(submitted) => revision > submitted,
            None => true,
        };
        if newer {
            self.presenters[index].warp_submitted_revision = Some(revision);
            assert(self.views() =~= views.update(
                index as int,
                PresenterView {
                    warp_submitted_revision: Some(revision),
                    ..views[index as int]
                },
            ));
        }
        newer
    }

    /// A frame with some geometry was shown; says whether that geometry was not
    /// reported as shown before, and notes it. An output that is not there has
    /// nothing to report.
    pub fn note_shown(&mut self, index: usize, revision: u64) -> (newer: bool)
        ensures
            index < old(self).views().len() ==> newer == old(
                self,
            ).views()[index as int].is_unreported(revision),
            index < old(self).views().len() ==> final(self).views()[index as int] == old(
                self,
            ).views()[index as int].noted_shown(revision),
            final(self).same_but_presenters(*old(self)),
            old(self).wf() ==> final(self).wf(),
            newer == (index < old(self).views().len() && (
            old(self).views()[index as int].warp_reported_revision is None || revision
                > old(self).views()[index as int].warp_reported_revision->0)),
            final(self).views() == (if newer {
                old(self).views().update(
                    index as int,
                    PresenterView {
                        warp_reported_revision: Some(revision),
                        ..old(self).views()[index as int]
                    },
                )
            } else {
                old(self).views()
            }),
    {
        let ghost views = self.views();
        if index >= self.presenters.len() {
            return false;
        }
        assert(views[index as int] == self.presenters@[index as int]@);
        let newer = match self.presenters[index].warp_reported_revision {
            Some(reported) => revision > reported,
            None => true,
        };
        if newer {
            self.presenters[index].warp_reported_revision = Some(revision);
            assert(self.views() =~= views.update(
                index as int,
                PresenterView { warp_reported_revision: Some(revision), ..views[index as int] },
            ));
        }
        newer
    }

    /// A frame callback came.
    pub fn callback_done(&mut self, index: usize)
        ensures
            final(self).same_but_presenters(*old(self)),
            old(self).wf() ==> final(self).wf(),
            final(self).views() == old(self).with_presenter(
                index as int,
                old(self).views()[index as int].called_back(!old(self).presentation),
            ),
    {
        let ghost views = self.views();
        if index < self.presenters.len() {
            assert(views[index as int] == self.presenters@[index as int]@);
            let gated_on_callbacks = !self.presentation;
            self.presenters[index].frame_pending = false;
            self.presenters[index].pending_since = None;
            if gated_on_callbacks {
                self.presenters[index].stalled = false;
            }
            assert(self.views() =~= views.update(
                index as int,
                views[index as int].called_back(gated_on_callbacks),
            ));
        }
    }

    /// Presentation feedback for a frame came, whether it was shown or not.
    pub fn feedback_answered(&mut self, index: usize, snapshot_id: u64)
        ensures
            final(self).same_but_presenters(*old(self)),
            old(self).wf() ==> final(self).wf(),
            final(self).views() == old(self).with_presenter(
                index as int,
                old(self).views()[index as int].fed_back(snapshot_id, old(self).presentation),
            ),
    {
        let ghost views = self.views();
        if index < self.presenters.len() {
            assert(views[index as int] == self.presenters@[index as int]@);
            let gated_on_feedback = self.presentation;
            if let Some(pending) = self.presenters[index].feedback_pending_for {
                if snapshot_id >= pending {
                    self.presenters[index].feedback_pending_for = None;
                    self.presenters[index].feedback_since = None;
                    if gated_on_feedback {
                        self.presenters[index].stalled = false;
                    }
                }
            }
            assert(self.views() =~= views.update(
                index as int,
                views[index as int].fed_back(snapshot_id, gated_on_feedback),
            ));
        }
    }

    /// The compositor gave a buffer back.
    pub fn buffer_released(&mut self, index: usize, slot: usize)
        ensures
            final(self).views() == released(old(self).views(), index as int, slot as int),
            final(self).same_but_presenters(*old(self)),
            old(self).wf() ==> final(self).wf(),
            final(self).views() == (if index < old(self).views().len() && slot
                < old(self).views()[index as int].busy.len() {
                old(self).views().update(
                    index as int,
                    PresenterView {
                        busy: old(self).views()[index as int].busy.update(slot as int, false),
                        ..old(self).views()[index as int]
                    },
                )
            } else {
                old(self).views()
            }),
    {
        let ghost views = self.views();
        if index < self.presenters.len() {
            assert(views[index as int] == self.presenters@[index as int]@);
            if slot < self.presenters[index].busy.len() {
                self.presenters[index].busy.set(slot, false);
                assert(self.views() =~= views.update(
                    index as int,
                    PresenterView {
                        busy: views[index as int].busy.update(slot as int, false),
                        ..views[index as int]
                    },
                ));
            }
        }
    }

    /// The compositor gave an output a size. Where live edits are on
    /// (`live_edits`), another size than before ends the run: the tables were
    /// built for the old one.
    pub fn configure(&mut self, index: usize, size: (u32, u32), live_edits: bool)
        ensures
            final(self).views() == sized(old(self).views(), index as int, size, live_edits),
            final(self).closed == (old(self).closed || is_resized(
                old(self).views(),
                index as int,
                size,
                live_edits,
            )),
            old(self).wf() ==> final(self).wf(),
            final(self).free_run == old(self).free_run,
            final(self).presentation == old(self).presentation,
            final(self).gpu_retry_after == old(self).gpu_retry_after,
            final(self).gate_blocked_since == old(self).gate_blocked_since,
            final(self).used_outputs == old(self).used_outputs,
            final(self).dead_intervals == old(self).dead_intervals,
            ({
                let known = index < old(self).views().len();
                let before = old(self).views()[index as int].configured;
                let resized = known && live_edits && before is Some && before->0 != size;
                &&& final(self).closed == (old(self).closed || resized)
                &&& final(self).views() == (if known && !resized {
                    old(self).views().update(
                        index as int,
                        PresenterView {
                            configured: Some(size),
                            ..old(self).views()[index as int]
                        },
                    )
                } else {
                    old(self).views()
                })
            }),
    {
        let ghost views = self.views();
        if index < self.presenters.len() {
            assert(views[index as int] == self.presenters@[index as int]@);
            if live_edits {
                if let Some((width, height)) = self.presenters[index].configured {
                    if width != size.0 || height != size.1 {
                        self.closed = true;
                        return;
                    }
                }
            }
            self.presenters[index].configured = Some(size);
            assert(self.views() =~= views.update(
                index as int,
                PresenterView { configured: Some(size), ..views[index as int] },
            ));
        }
    }

    /// A global of the compositor went away. Where it is an output in use the
    /// run ends; says whether it is.
    pub fn handle_output_removed(&mut self, removed: u32) -> (used: bool)
        ensures
            used == old(self).used_outputs@.contains(removed),
            final(self).closed == (old(self).closed || used),
            final(self).presenters == old(self).presenters,
            final(self).used_outputs == old(self).used_outputs,
            final(self).free_run == old(self).free_run,
            final(self).presentation == old(self).presentation,
            final(self).gpu_retry_after == old(self).gpu_retry_after,
            final(self).gate_blocked_since == old(self).gate_blocked_since,
            final(self).dead_intervals == old(self).dead_intervals,
    {
        let mut i: usize = 0;
        while i < self.used_outputs.len()
            invariant
                i <= self.used_outputs@.len(),
                *self == *old(self),
                forall|j: int| 0 <= j < i ==> self.used_outputs@[j] != removed,
            decreases self.used_outputs@.len() - i,
        {
            if self.used_outputs[i] == removed {
                assert(self.used_outputs@[i as int] == removed);
                self.closed = true;
                return true;
            }
            i = i + 1;
        }
        false
    }
}

/// The outputs after the compositor gave a buffer back.
pub open spec fn released(presenters: Seq<PresenterView>, index: int, slot: int) -> Seq<
    PresenterView,
> {
    if 0 <= index < presenters.len() && 0 <= slot < presenters[index].busy.len() {
        presenters.update(
            index,
            PresenterView {
                busy: presenters[index].busy.update(slot, false),
                ..presenters[index]
            },
        )
    } else {
        presenters
    }
}

/// An output is given another size than it has, while its tables are edited live.
pub open spec fn is_resized(
    presenters: Seq<PresenterView>,
    index: int,
    size: (u32, u32),
    live_edits: bool,
) -> bool {
    0 <= index < presenters.len() && live_edits && presenters[index].configured is Some
        && presenters[index].configured != Some(size)
}

/// The outputs after one was given a size.
pub open spec fn sized(
    presenters: Seq<PresenterView>,
    index: int,
    size: (u32, u32),
    live_edits: bool,
) -> Seq<PresenterView> {
    if 0 <= index < presenters.len() && !is_resized(presenters, index, size, live_edits) {
        presenters.update(
            index,
            PresenterView { configured: Some(size), ..presenters[index] },
        )
    } else {
        presenters
    }
}

/// The outputs when none is owed a frame.
pub open spec fn none_owed(presenters: Seq<PresenterView>) -> Seq<PresenterView> {
    presenters.map_values(
        |presenter: PresenterView| PresenterView { stale: false, ..presenter },
    )
}

/// The presenters once the first `n` buffers that were taken are given back.
pub open spec fn given_back(presenters: Seq<PresenterView>, due: Seq<Due>, n: int) -> Seq<
    PresenterView,
>
    decreases n,
{
    if n <= 0 {
        presenters
    } else {
        let before = given_back(presenters, due, n - 1);
        let d = due[n - 1];
        let presenter = before[d.index as int];
        before.update(
            d.index as int,
            PresenterView {
                busy: presenter.busy.update(d.slot as int, false),
                stale: true,
                ..presenter
            },
        )
    }
}

} // verus!
