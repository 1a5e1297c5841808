//! Live edits of the cut: which are accepted, what must be rebuilt for them, and
//! what is in force.
//!
//! A finished build is not installed. It is handed to the presenter, which says
//! when it took it over; what the next build must do is decided against what is
//! installed, never against what was only built.
use crate::model::{magnitude_bits, real_eq, Real};
use crate::names::same_text;
use crate::projection::slices::{
    same_slice, same_topology, slices_equal, topologies_agree, SliceSpec, SliceView, SlicerSpec,
    SlicerView,
};
use vstd::prelude::*;

verus! {

/// The version of the control messages.
pub const CONTROL_VERSION: u32 = 1;

/// The most outputs that can be presented to.
pub const MAX_OUTPUTS: usize = 8;

/// The most pixels of one output.
pub const MAX_OUTPUT_PIXELS: u64 = 33_554_432;

/// The most seams of one output.
pub const MAX_RAMPS: usize = 64;

/// What a table is built from. Equal keys need no new table.
#[derive(Debug, PartialEq, Eq)]
pub struct Key {
    pub slice: SliceSpec,
    pub gamma: Real,
    pub lift: Real,
}

/// What a [`Key`] says.
pub struct KeyView {
    pub slice: SliceView,
    pub gamma: Real,
    pub lift: Real,
}

impl DeepView for Key {
    type V = KeyView;

    open spec fn deep_view(&self) -> KeyView {
        KeyView { slice: self.slice.deep_view(), gamma: self.gamma, lift: self.lift }
    }
}

impl Clone for Key {
    fn clone(&self) -> (copy: Self)
        ensures
            copy.deep_view() == self.deep_view(),
    {
        Key { slice: self.slice.clone(), gamma: self.gamma, lift: self.lift }
    }
}

/// Whether two keys compare equal.
pub open spec fn same_key(a: KeyView, b: KeyView) -> bool {
    same_slice(a.slice, b.slice) && real_eq(a.gamma, b.gamma) && real_eq(a.lift, b.lift)
}

fn keys_equal(a: &Key, b: &Key) -> (equal: bool)
    ensures
        equal == same_key(a.deep_view(), b.deep_view()),
{
    slices_equal(&a.slice, &b.slice) && a.gamma.equals(b.gamma) && a.lift.equals(b.lift)
}

/// What became of an output's geometry when it was solved.
#[derive(Debug, Clone, PartialEq, Eq)]
pub enum WarpCheck {
    /// It moves nothing.
    Identity,
    /// It moves the picture.
    Warped,
    /// It cannot be applied.
    Invalid(String),
}

/// What a [`WarpCheck`] says.
pub enum WarpCheckView {
    Identity,
    Warped,
    Invalid(Seq<char>),
}

impl DeepView for WarpCheck {
    type V = WarpCheckView;

    open spec fn deep_view(&self) -> WarpCheckView {
        match self {
            WarpCheck::Identity => WarpCheckView::Identity,
            WarpCheck::Warped => WarpCheckView::Warped,
            WarpCheck::Invalid(reason) => WarpCheckView::Invalid(reason@),
        }
    }
}

/// A finite number above zero.
pub open spec fn is_positive(a: Real) -> bool {
    0 < a.bits < 0x7ff0_0000_0000_0000
}

/// A number from zero to a half.
pub open spec fn is_lift(a: Real) -> bool {
    magnitude_bits(a.bits) == 0 || a.bits <= 0x3fe0_0000_0000_0000
}

/// The far edge of a rectangle can be named.
pub open spec fn edge_fits(start: i32, length: i32) -> bool {
    start + length <= i32::MAX
}

/// What is wrong with the whole cut.
pub open spec fn cut_fault(spec: SlicerView, outputs: nat) -> Option<Seq<char>> {
    if outputs > MAX_OUTPUTS {
        Some("at most eight outputs are supported"@)
    } else if outputs != spec.slices.len() {
        Some("output count mismatch"@)
    } else if spec.canvas_width <= 0 || spec.canvas_height <= 0 || !is_positive(spec.gamma)
        || !is_lift(spec.black_lift) {
        Some("invalid canvas, gamma or fixed lift"@)
    } else {
        None
    }
}

/// An output's seam has no extent, or reaches too far.
pub open spec fn bad_ramp(slice: SliceView) -> bool {
    exists|i: int|
        0 <= i < slice.ramps.len() && {
            let rect = (#[trigger] slice.ramps[i]).rect;
            rect.width <= 0 || rect.height <= 0 || !edge_fits(rect.x, rect.width) || !edge_fits(
                rect.y,
                rect.height,
            )
        }
}

/// What is wrong with the slice at `i`.
pub open spec fn slice_fault(
    slices: Seq<SliceView>,
    size: (u32, u32),
    check: WarpCheckView,
    i: int,
) -> Option<Seq<char>> {
    let slice = slices[i];
    let source = slice.source;
    if exists|j: int| 0 <= j < i && (#[trigger] slices[j]).output == slice.output {
        Some("duplicate output"@)
    } else if size.0 == 0 || size.1 == 0 || size.0 * size.1 > MAX_OUTPUT_PIXELS {
        Some("outputs must be nonzero and at most 32 megapixels"@)
    } else if source.width <= 0 || source.height <= 0 || !edge_fits(source.x, source.width)
        || !edge_fits(source.y, source.height) {
        Some("invalid source size"@)
    } else if slice.geometry is Some && (size.0 != source.width || size.1 != source.height) {
        Some("warp requires unit source density"@)
    } else if slice.geometry is Some && check is Invalid {
        Some(check->Invalid_0)
    } else if slice.ramps.len() > MAX_RAMPS {
        Some("at most 64 ramps per output are supported"@)
    } else if bad_ramp(slice) {
        Some("invalid ramp rectangle"@)
    } else {
        None
    }
}

/// What the slice at `i` is built from: a geometry that moves nothing counts as
/// none.
pub open spec fn key_of(spec: SlicerView, check: WarpCheckView, i: int) -> KeyView {
    let slice = spec.slices[i];
    KeyView {
        slice: SliceView {
            geometry: if slice.geometry is Some && check is Identity {
                None
            } else {
                slice.geometry
            },
            ..slice
        },
        gamma: spec.gamma,
        lift: spec.black_lift,
    }
}

/// The first thing that is wrong with one of the slices from `i` on.
pub open spec fn slices_fault(
    spec: SlicerView,
    sizes: Seq<(u32, u32)>,
    checks: Seq<WarpCheckView>,
    i: int,
) -> Option<Seq<char>>
    decreases spec.slices.len() - i,
{
    if i < 0 || i >= spec.slices.len() {
        None
    } else {
        match slice_fault(spec.slices, sizes[i], checks[i], i) {
            Some(fault) => Some(fault),
            None => slices_fault(spec, sizes, checks, i + 1),
        }
    }
}

/// The first thing that is wrong with a cut.
pub open spec fn fault(
    spec: SlicerView,
    sizes: Seq<(u32, u32)>,
    checks: Seq<WarpCheckView>,
) -> Option<Seq<char>> {
    match cut_fault(spec, sizes.len()) {
        Some(fault) => Some(fault),
        None => slices_fault(spec, sizes, checks, 0),
    }
}

/// What each table of a cut is built from.
pub open spec fn keys_of(spec: SlicerView, checks: Seq<WarpCheckView>) -> Seq<KeyView> {
    Seq::new(spec.slices.len(), |i: int| key_of(spec, checks[i], i))
}

fn name_taken(slices: &Vec<SliceSpec>, i: usize) -> (taken: bool)
    requires
        i < slices@.len(),
    ensures
        taken == exists|j: int|
            0 <= j < i && (#[trigger] slices.deep_view()[j]).output
                == slices.deep_view()[i as int].output,
{
    let ghost views = slices.deep_view();
    assert(views[i as int] == slices@[i as int].deep_view());
    let mut j: usize = 0;
    while j < i
        invariant
            j <= i < slices@.len(),
            views == slices.deep_view(),
            views[i as int] == slices@[i as int].deep_view(),
            forall|k: int| 0 <= k < j ==> (#[trigger] views[k]).output != views[i as int].output,
        decreases i - j,
    {
        assert(views[j as int] == slices@[j as int].deep_view());
        if same_text(slices[j].output.as_str(), slices[i].output.as_str()) {
            return true;
        }
        j = j + 1;
    }
    false
}

fn edge_in_range(start: i32, length: i32) -> (fits: bool)
    requires
        length > 0,
    ensures
        fits == edge_fits(start, length),
{
    start.checked_add(length).is_some()
}

fn has_bad_ramp(slice: &SliceSpec) -> (bad: bool)
    ensures
        bad == bad_ramp(slice.deep_view()),
{
    let mut i: usize = 0;
    while i < slice.ramps.len()
        invariant
            i <= slice.ramps@.len(),
            forall|j: int|
                0 <= j < i ==> {
                    let rect = (#[trigger] slice.ramps@[j]).rect;
                    rect.width > 0 && rect.height > 0 && edge_fits(rect.x, rect.width)
                        && edge_fits(rect.y, rect.height)
                },
        decreases slice.ramps@.len() - i,
    {
        let rect = slice.ramps[i].rect;
        if rect.width <= 0 || rect.height <= 0 || !edge_in_range(rect.x, rect.width)
            || !edge_in_range(rect.y, rect.height) {
            assert(slice.deep_view().ramps[i as int] == slice.ramps@[i as int]);
            return true;
        }
        i = i + 1;
    }
    false
}

fn check_slice(slices: &Vec<SliceSpec>, size: (u32, u32), check: &WarpCheck, i: usize) -> (found:
    Option<String>)
    requires
        i < slices@.len(),
    ensures
        found.deep_view() == slice_fault(slices.deep_view(), size, check.deep_view(), i as int),
{
    let slice = &slices[i];
    let (w, h) = size;
    assert(slices.deep_view()[i as int] == slice.deep_view());
    if name_taken(slices, i) {
        return Some("duplicate output".to_owned());
    }
    let pixels: u64 = {
        assert(w * h <= u32::MAX * u32::MAX) by (nonlinear_arith)
            requires
                w <= u32::MAX,
                h <= u32::MAX,
        ;
        w as u64 * h as u64
    };
    if w == 0 || h == 0 || pixels > MAX_OUTPUT_PIXELS {
        return Some("outputs must be nonzero and at most 32 megapixels".to_owned());
    }
    let source = slice.source;
    if source.width <= 0 || source.height <= 0 || !edge_in_range(source.x, source.width)
        || !edge_in_range(source.y, source.height) {
        return Some("invalid source size".to_owned());
    }
    if slice.geometry.is_some() {
        if w != source.width as u32 || h != source.height as u32 {
            return Some("warp requires unit source density".to_owned());
        }
        if let WarpCheck::Invalid(reason) = check {
            return Some(reason.clone());
        }
    }
    if slice.ramps.len() > MAX_RAMPS {
        return Some("at most 64 ramps per output are supported".to_owned());
    }
    if has_bad_ramp(slice) {
        return Some("invalid ramp rectangle".to_owned());
    }
    None
}

fn make_key(spec: &SlicerSpec, check: &WarpCheck, i: usize) -> (key: Key)
    requires
        i < spec.slices@.len(),
    ensures
        key.deep_view() == key_of(spec.deep_view(), check.deep_view(), i as int),
{
    assert(spec.deep_view().slices[i as int] == spec.slices@[i as int].deep_view());
    let mut slice = spec.slices[i].clone();
    if slice.geometry.is_some() {
        if let WarpCheck::Identity = check {
            slice.geometry = None;
        }
    }
    Key { slice, gamma: spec.gamma, lift: spec.black_lift }
}

/// Whether a cut can be built, and what its tables are built from. `checks` says
/// what became of each slice's geometry; it is read only where there is one.
pub fn validate(spec: &SlicerSpec, sizes: &[(u32, u32)], checks: &[WarpCheck]) -> (verdict: Result<
    Vec<Key>,
    String,
>)
    requires
        checks@.len() == spec.slices@.len(),
    ensures
        match fault(spec.deep_view(), sizes@, checks.deep_view()) {
            Some(reason) => verdict matches Err(text) && text@ == reason,
            None => verdict matches Ok(keys) && keys.deep_view() == keys_of(
                spec.deep_view(),
                checks.deep_view(),
            ),
        },
{
    let ghost view = spec.deep_view();
    let ghost check_views = checks.deep_view();
    if sizes.len() > MAX_OUTPUTS {
        return Err("at most eight outputs are supported".to_owned());
    }
    if sizes.len() != spec.slices.len() {
        return Err("output count mismatch".to_owned());
    }
    let gamma_fits = 0 < spec.gamma.bits && spec.gamma.bits < 0x7ff0_0000_0000_0000;
    let lift_fits = spec.black_lift.bits % 0x8000_0000_0000_0000 == 0 || spec.black_lift.bits
        <= 0x3fe0_0000_0000_0000;
    if spec.canvas_width <= 0 || spec.canvas_height <= 0 || !gamma_fits || !lift_fits {
        return Err("invalid canvas, gamma or fixed lift".to_owned());
    }
    let mut keys: Vec<Key> = Vec::new();
    let mut i: usize = 0;
    while i < spec.slices.len()
        invariant
            i <= spec.slices@.len(),
            view == spec.deep_view(),
            check_views == checks.deep_view(),
            checks@.len() == spec.slices@.len(),
            sizes@.len() == spec.slices@.len(),
            cut_fault(view, sizes@.len()) is None,
            slices_fault(view, sizes@, check_views, 0) == slices_fault(
                view,
                sizes@,
                check_views,
                i as int,
            ),
            keys@.len() == i,
            forall|j: int|
                0 <= j < i ==> (#[trigger] keys@[j]).deep_view() == key_of(view, check_views[j], j),
        decreases spec.slices@.len() - i,
    {
        assert(check_views[i as int] == checks@[i as int].deep_view());
        if let Some(reason) = check_slice(&spec.slices, sizes[i], &checks[i], i) {
            return Err(reason);
        }
        keys.push(make_key(spec, &checks[i], i));
        i = i + 1;
    }
    assert(keys.deep_view() =~= keys_of(view, check_views));
    Ok(keys)
}

/// Whether a cut can be built, before anything is allocated for it.
pub fn validate_initial(spec: &SlicerSpec, sizes: &[(u32, u32)], checks: &[WarpCheck]) -> (verdict:
    Result<(), String>)
    requires
        checks@.len() == spec.slices@.len(),
    ensures
        match fault(spec.deep_view(), sizes@, checks.deep_view()) {
            Some(reason) => verdict matches Err(text) && text@ == reason,
            None => verdict is Ok,
        },
{
    match validate(spec, sizes, checks) {
        Ok(_) => Ok(()),
        Err(reason) => Err(reason),
    }
}

/// A cut sent to the running program.
#[derive(Debug, Clone, PartialEq, Eq)]
pub struct ControlUpdate {
    pub version: u32,
    pub session: String,
    pub generation: u64,
    pub spec: SlicerSpec,
}

impl ControlUpdate {
    /// A cut in the current version of the messages.
    pub fn new(session: String, generation: u64, spec: SlicerSpec) -> (update: Self)
        ensures
            update == (ControlUpdate { version: CONTROL_VERSION, session, generation, spec }),
    {
        ControlUpdate { version: CONTROL_VERSION, session, generation, spec }
    }
}

/// What is reported of a cut.
#[derive(Debug, Clone, PartialEq, Eq)]
pub enum ControlEventKind {
    Accepted,
    Rejected { reason: String },
    Built { outputs: Vec<String> },
    Closed,
}

/// A report, with the generation of the cut that it is about.
#[derive(Debug, Clone, PartialEq, Eq)]
pub struct ControlEvent {
    pub generation: u64,
    pub kind: ControlEventKind,
}

/// What a [`ControlEventKind`] says.
pub enum EventView {
    Accepted,
    Rejected { reason: Seq<char> },
    Built { outputs: Seq<Seq<char>> },
    Closed,
}

impl DeepView for ControlEvent {
    type V = (u64, EventView);

    open spec fn deep_view(&self) -> (u64, EventView) {
        (
            self.generation,
            match self.kind {
                ControlEventKind::Accepted => EventView::Accepted,
                ControlEventKind::Rejected { reason } => EventView::Rejected { reason: reason@ },
                ControlEventKind::Built { outputs } => EventView::Built {
                    outputs: outputs.deep_view(),
                },
                ControlEventKind::Closed => EventView::Closed,
            },
        )
    }
}

/// A report that a cut was refused.
pub open spec fn rejected(generation: u64, reason: Seq<char>) -> (u64, EventView) {
    (generation, EventView::Rejected { reason })
}

fn reject(generation: u64, reason: String) -> (event: ControlEvent)
    ensures
        event.deep_view() == rejected(generation, reason@),
{
    ControlEvent { generation, kind: ControlEventKind::Rejected { reason } }
}

fn push_event(events: &mut Vec<ControlEvent>, event: ControlEvent)
    ensures
        final(events).deep_view() == old(events).deep_view().push(event.deep_view()),
{
    events.push(event);
    assert(events.deep_view() =~= old(events).deep_view().push(event.deep_view()));
}

/// A cut that was accepted and waits to be built.
#[derive(Debug, PartialEq, Eq)]
pub struct Request {
    pub generation: u64,
    pub spec: SlicerSpec,
    pub keys: Vec<Key>,
}

/// What a [`Request`] says.
pub struct RequestView {
    pub generation: u64,
    pub spec: SlicerView,
    pub keys: Seq<KeyView>,
}

impl DeepView for Request {
    type V = RequestView;

    open spec fn deep_view(&self) -> RequestView {
        RequestView {
            generation: self.generation,
            spec: self.spec.deep_view(),
            keys: self.keys.deep_view(),
        }
    }
}

/// A build to start: the tables of `indices`, for the cut of `request`.
#[derive(Debug, PartialEq, Eq)]
pub struct BuildOrder {
    pub request: Request,
    pub indices: Vec<usize>,
}

/// A table that was built.
#[derive(Debug, PartialEq, Eq)]
pub struct BuiltOutput {
    pub index: usize,
    pub key: Key,
}

/// A finished build.
#[derive(Debug, PartialEq, Eq)]
pub struct Prepared {
    pub generation: u64,
    pub outputs: Vec<BuiltOutput>,
}

/// How a build ended.
#[derive(Debug, PartialEq, Eq)]
pub enum BuildResult {
    Finished(Prepared),
    Failed(String),
    WorkerLost,
}

/// The state of live edits.
#[derive(Debug)]
pub struct Controller {
    pub spec: SlicerSpec,
    pub sizes: Vec<(u32, u32)>,
    /// What each installed table was built from.
    pub installed: Vec<Option<Key>>,
    pub installed_generation: u64,
    /// The newest generation that this session has used up.
    pub requested_generation: u64,
    pub pending: Option<Request>,
    /// The generation being built, if any.
    pub building: Option<u64>,
    pub closed_reported: bool,
    pub restart_required: bool,
}

/// What a [`Controller`] holds.
pub struct ControllerView {
    pub spec: SlicerView,
    pub sizes: Seq<(u32, u32)>,
    pub installed: Seq<Option<KeyView>>,
    pub installed_generation: u64,
    pub requested_generation: u64,
    pub pending: Option<RequestView>,
    pub building: Option<u64>,
    pub closed_reported: bool,
    pub restart_required: bool,
}

impl DeepView for Controller {
    type V = ControllerView;

    open spec fn deep_view(&self) -> ControllerView {
        ControllerView {
            spec: self.spec.deep_view(),
            sizes: self.sizes@,
            installed: self.installed.deep_view(),
            installed_generation: self.installed_generation,
            requested_generation: self.requested_generation,
            pending: self.pending.deep_view(),
            building: self.building,
            closed_reported: self.closed_reported,
            restart_required: self.restart_required,
        }
    }
}

impl ControllerView {
    /// Each output has a size and a place for its key; a waiting cut has a key
    /// for each output and a generation that is used up.
    pub open spec fn wf(self) -> bool {
        &&& self.sizes.len() == self.installed.len()
        &&& self.sizes.len() == self.spec.slices.len()
        &&& self.pending is Some ==> self.pending->0.keys.len() == self.installed.len()
            && self.pending->0.generation <= self.requested_generation
    }

    /// Every output has its tables.
    pub open spec fn initialized(self) -> bool {
        forall|i: int| 0 <= i < self.installed.len() ==> (#[trigger] self.installed[i]) is Some
    }
}

/// The outputs whose installed key is another than the wanted one, among those
/// from `i` on.
pub open spec fn changed_from(
    installed: Seq<Option<KeyView>>,
    keys: Seq<KeyView>,
    i: int,
) -> Seq<int>
    decreases keys.len() - i,
{
    if i < 0 || i >= keys.len() {
        Seq::empty()
    } else if is_changed(installed, keys, i) {
        seq![i] + changed_from(installed, keys, i + 1)
    } else {
        changed_from(installed, keys, i + 1)
    }
}

/// The table at `i` must be built anew.
pub open spec fn is_changed(installed: Seq<Option<KeyView>>, keys: Seq<KeyView>, i: int) -> bool {
    match installed[i] {
        Some(key) => !same_key(key, keys[i]),
        None => true,
    }
}

/// `order` is the build that the state owes: the waiting cut, and exactly the
/// outputs for which the installed tables are not the wanted ones.
pub open spec fn is_owed(order: BuildOrder, before: ControllerView) -> bool {
    &&& before.pending is Some
    &&& order.request.deep_view() == before.pending->0
    &&& order.indices@.map_values(|i: usize| i as int) == changed_from(
        before.installed,
        before.pending->0.keys,
        0,
    )
}

/// The state after the waiting cut, if any, went to be built.
pub open spec fn after_start(before: ControllerView) -> ControllerView {
    if before.building is None && before.pending is Some {
        ControllerView {
            pending: None,
            building: Some(before.pending->0.generation),
            ..before
        }
    } else {
        before
    }
}

/// Starting was decided: a build is owed exactly where none is running and a
/// cut waits.
pub open spec fn start_decided(
    order: Option<BuildOrder>,
    before: ControllerView,
    after: ControllerView,
) -> bool {
    &&& after == after_start(before)
    &&& order is Some <==> before.building is None && before.pending is Some
    &&& order is Some ==> is_owed(order->0, before)
}

/// Why an update is refused before its cut is looked at.
pub open spec fn update_fault(
    state: ControllerView,
    version: u32,
    session: Seq<char>,
    generation: u64,
    spec: SlicerView,
) -> Option<Seq<char>> {
    if version != CONTROL_VERSION {
        Some("control version mismatch; restart required"@)
    } else if session != state.spec.control_session {
        Some("control session mismatch"@)
    } else if generation <= state.requested_generation {
        Some("generation must increase"@)
    } else if !topologies_agree(state.spec, spec) {
        Some("topology changed; restart required"@)
    } else {
        None
    }
}

/// The state after an update. A generation of this session is used up even where
/// its update is refused.
pub open spec fn after_request(
    state: ControllerView,
    update: ControlUpdate,
    checks: Seq<WarpCheckView>,
) -> ControllerView {
    let own = update.session@ == state.spec.control_session;
    let spec = update.spec.deep_view();
    let used = ControllerView {
        requested_generation: if own && update.generation > state.requested_generation {
            update.generation
        } else {
            state.requested_generation
        },
        ..state
    };
    match update_fault(state, update.version, update.session@, update.generation, spec) {
        Some(_) => ControllerView {
            restart_required: state.restart_required || (own && update.version != CONTROL_VERSION),
            ..used
        },
        None => if fault(spec, state.sizes, checks) is None {
            ControllerView {
                pending: Some(
                    RequestView {
                        generation: update.generation,
                        spec,
                        keys: keys_of(spec, checks),
                    },
                ),
                ..used
            }
        } else {
            used
        },
    }
}

/// What is reported of an update.
pub open spec fn request_event(
    state: ControllerView,
    update: ControlUpdate,
    checks: Seq<WarpCheckView>,
) -> (u64, EventView) {
    let spec = update.spec.deep_view();
    match update_fault(state, update.version, update.session@, update.generation, spec) {
        Some(reason) => rejected(update.generation, reason),
        None => match fault(spec, state.sizes, checks) {
            Some(reason) => rejected(update.generation, reason),
            None => (update.generation, EventView::Accepted),
        },
    }
}

/// The names of the outputs that were built.
pub open spec fn built_names(outputs: Seq<BuiltOutput>) -> Seq<Seq<char>> {
    outputs.map_values(|output: BuiltOutput| output.key.slice.output@)
}

/// What is reported of a build that ended.
pub open spec fn build_event(state: ControllerView, result: BuildResult) -> (u64, EventView) {
    match result {
        BuildResult::Finished(prepared) => if prepared.generation < state.installed_generation {
            rejected(prepared.generation, "stale build"@)
        } else {
            (
                prepared.generation,
                EventView::Built { outputs: built_names(prepared.outputs@) },
            )
        },
        BuildResult::Failed(reason) => rejected(state.building->0, reason@),
        BuildResult::WorkerLost => rejected(state.building->0, "table worker terminated"@),
    }
}

/// The build that ended is to be installed.
pub open spec fn is_installable(state: ControllerView, result: BuildResult) -> bool {
    result matches BuildResult::Finished(prepared) && prepared.generation
        >= state.installed_generation
}

/// What is installed once the first `n` outputs of a build are.
pub open spec fn installed_after(
    installed: Seq<Option<KeyView>>,
    outputs: Seq<BuiltOutput>,
    n: int,
) -> Seq<Option<KeyView>>
    decreases n,
{
    if n <= 0 {
        installed
    } else {
        installed_after(installed, outputs, n - 1).update(
            outputs[n - 1].index as int,
            Some(outputs[n - 1].key.deep_view()),
        )
    }
}

/// The state after a build was installed, before anything more is started.
pub open spec fn after_install(state: ControllerView, prepared: Prepared) -> ControllerView {
    ControllerView {
        installed: installed_after(
            state.installed,
            prepared.outputs@,
            prepared.outputs@.len() as int,
        ),
        installed_generation: prepared.generation,
        ..state
    }
}

fn changed_indices(installed: &Vec<Option<Key>>, keys: &Vec<Key>) -> (indices: Vec<usize>)
    requires
        installed@.len() == keys@.len(),
    ensures
        indices@.map_values(|i: usize| i as int) == changed_from(
            installed.deep_view(),
            keys.deep_view(),
            0,
        ),
{
    let ghost have = installed.deep_view();
    let ghost want = keys.deep_view();
    let ghost number = |i: usize| i as int;
    let mut indices: Vec<usize> = Vec::new();
    let mut i: usize = 0;
    assert(indices@.map_values(number) + changed_from(have, want, 0) =~= changed_from(
        have,
        want,
        0,
    ));
    while i < keys.len()
        invariant
            i <= keys@.len(),
            installed@.len() == keys@.len(),
            have == installed.deep_view(),
            want == keys.deep_view(),
            number == (|i: usize| i as int),
            indices@.map_values(number) + changed_from(have, want, i as int) == changed_from(
                have,
                want,
                0,
            ),
        decreases keys@.len() - i,
    {
        assert(have[i as int] == installed@[i as int].deep_view());
        assert(want[i as int] == keys@[i as int].deep_view());
        let changed = match &installed[i] {
            Some(key) => !keys_equal(key, &keys[i]),
            None => true,
        };
        let ghost before = indices@;
        if changed {
            indices.push(i);
            assert(indices@.map_values(number) =~= before.map_values(number) + seq![i as int]);
        }
        assert(indices@.map_values(number) + changed_from(have, want, i + 1)
            =~= before.map_values(number) + changed_from(have, want, i as int));
        i = i + 1;
    }
    assert(indices@.map_values(number) + changed_from(have, want, i as int)
        =~= indices@.map_values(number));
    indices
}

fn names_of(outputs: &Vec<BuiltOutput>) -> (names: Vec<String>)
    ensures
        names.deep_view() == built_names(outputs@),
{
    let mut names: Vec<String> = Vec::new();
    let mut i: usize = 0;
    while i < outputs.len()
        invariant
            i <= outputs@.len(),
            names@.len() == i,
            forall|j: int|
                0 <= j < i ==> (#[trigger] names@[j])@ == outputs@[j].key.slice.output@,
        decreases outputs@.len() - i,
    {
        names.push(outputs[i].key.slice.output.clone());
        i = i + 1;
    }
    assert(names.deep_view() =~= built_names(outputs@));
    names
}

impl Controller {
    /// The state at the start, and the build of the first tables.
    pub fn new(spec: SlicerSpec, sizes: Vec<(u32, u32)>, checks: &[WarpCheck]) -> (made: Result<
        (Self, Option<BuildOrder>),
        String,
    >)
        requires
            checks@.len() == spec.slices@.len(),
        ensures
            match fault(spec.deep_view(), sizes@, checks.deep_view()) {
                Some(reason) => made matches Err(text) && text@ == reason,
                None => made matches Ok((controller, order)) && {
                    let first = ControllerView {
                        spec: spec.deep_view(),
                        sizes: sizes@,
                        installed: Seq::new(sizes@.len(), |i: int| None),
                        installed_generation: 0,
                        requested_generation: 0,
                        pending: Some(
                            RequestView {
                                generation: 0,
                                spec: spec.deep_view(),
                                keys: keys_of(spec.deep_view(), checks.deep_view()),
                            },
                        ),
                        building: None,
                        closed_reported: false,
                        restart_required: false,
                    };
                    &&& controller.deep_view().wf()
                    &&& start_decided(order, first, controller.deep_view())
                },
            },
    {
        match validate(&spec, sizes.as_slice(), checks) {
            Err(reason) => Err(reason),
            Ok(keys) => {
                let mut installed: Vec<Option<Key>> = Vec::new();
                let mut i: usize = 0;
                while i < sizes.len()
                    invariant
                        i <= sizes@.len(),
                        installed@.len() == i,
                        forall|j: int| 0 <= j < i ==> (#[trigger] installed@[j]) is None,
                    decreases sizes@.len() - i,
                {
                    installed.push(None);
                    i = i + 1;
                }
                let copy = spec.clone();
                let mut controller = Controller {
                    spec,
                    sizes,
                    installed,
                    installed_generation: 0,
                    requested_generation: 0,
                    pending: Some(Request { generation: 0, spec: copy, keys }),
                    building: None,
                    closed_reported: false,
                    restart_required: false,
                };
                assert(controller.installed.deep_view() =~= Seq::new(
                    sizes@.len(),
                    |i: int| Option::<KeyView>::None,
                ));
                let order = controller.start_build();
                Ok((controller, order))
            },
        }
    }

    /// Sends the waiting cut to be built, where no build is running. The build
    /// is compared with what is installed now.
    pub fn start_build(&mut self) -> (order: Option<BuildOrder>)
        requires
            old(self).deep_view().wf(),
        ensures
            final(self).deep_view().wf(),
            start_decided(order, old(self).deep_view(), final(self).deep_view()),
    {
        if self.building.is_some() {
            return None;
        }
        match self.pending.take() {
            None => None,
            Some(request) => {
                let indices = changed_indices(&self.installed, &request.keys);
                self.building = Some(request.generation);
                Some(BuildOrder { request, indices })
            },
        }
    }

    /// Takes an update in. `checks` says what became of each geometry of its
    /// cut.
    pub fn request(&mut self, update: ControlUpdate, checks: &[WarpCheck]) -> (event: ControlEvent)
        requires
            old(self).deep_view().wf(),
            checks@.len() == update.spec.slices@.len(),
        ensures
            final(self).deep_view().wf(),
            final(self).deep_view() == after_request(
                old(self).deep_view(),
                update,
                checks.deep_view(),
            ),
            event.deep_view() == request_event(old(self).deep_view(), update, checks.deep_view()),
    {
        let own = same_text(update.session.as_str(), self.spec.control_session.as_str());
        let reason = if update.version != CONTROL_VERSION {
            Some("control version mismatch; restart required".to_owned())
        } else if !own {
            Some("control session mismatch".to_owned())
        } else if update.generation <= self.requested_generation {
            Some("generation must increase".to_owned())
        } else if !same_topology(&self.spec, &update.spec) {
            Some("topology changed; restart required".to_owned())
        } else {
            None
        };
        if own && update.generation > self.requested_generation {
            self.requested_generation = update.generation;
        }
        if let Some(reason) = reason {
            if own && update.version != CONTROL_VERSION {
                self.restart_required = true;
            }
            return reject(update.generation, reason);
        }
        match validate(&update.spec, self.sizes.as_slice(), checks) {
            Ok(keys) => {
                let generation: u64 = update.generation;
                self.pending = Some(Request { generation, spec: update.spec, keys });
                ControlEvent { generation, kind: ControlEventKind::Accepted }
            },
            Err(reason) => reject(update.generation, reason),
        }
    }

    /// Takes the end of the running build in. A finished build that is not older
    /// than what is installed is handed out to be installed; until that is done
    /// nothing else is started.
    pub fn build_ended(&mut self, result: BuildResult) -> (outcome: (ControlEvent, Option<Prepared>))
        requires
            old(self).deep_view().wf(),
            old(self).building is Some,
        ensures
            final(self).deep_view() == (ControllerView {
                building: None,
                ..old(self).deep_view()
            }),
            outcome.0.deep_view() == build_event(old(self).deep_view(), result),
            outcome.1 is Some <==> is_installable(old(self).deep_view(), result),
            outcome.1 matches Some(prepared) ==> result == BuildResult::Finished(prepared),
    {
        let generation: u64 = match self.building {
            Some(generation) => generation,
            None => 0,
        };
        self.building = None;
        match result {
            BuildResult::Finished(prepared) => {
                if prepared.generation < self.installed_generation {
                    (reject(prepared.generation, "stale build".to_owned()), None)
                } else {
                    let outputs = names_of(&prepared.outputs);
                    (
                        ControlEvent {
                            generation: prepared.generation,
                            kind: ControlEventKind::Built { outputs },
                        },
                        Some(prepared),
                    )
                }
            },
            BuildResult::Failed(reason) => (reject(generation, reason), None),
            BuildResult::WorkerLost => (
                reject(generation, "table worker terminated".to_owned()),
                None,
            ),
        }
    }

    /// Records that a build is in force, and starts what waits.
    pub fn installed(&mut self, prepared: &Prepared) -> (order: Option<BuildOrder>)
        requires
            old(self).deep_view().wf(),
            prepared.generation >= old(self).installed_generation,
            forall|i: int|
                0 <= i < prepared.outputs@.len() ==> (#[trigger] prepared.outputs@[i]).index
                    < old(self).installed@.len(),
        ensures
            final(self).deep_view().wf(),
            start_decided(
                order,
                after_install(old(self).deep_view(), *prepared),
                final(self).deep_view(),
            ),
    {
        let ghost before = self.deep_view();
        let mut i: usize = 0;
        while i < prepared.outputs.len()
            invariant
                i <= prepared.outputs@.len(),
                before.wf(),
                self.installed@.len() == before.installed.len(),
                forall|j: int|
                    0 <= j < prepared.outputs@.len() ==> (#[trigger] prepared.outputs@[j]).index
                        < before.installed.len(),
                self.deep_view() == (ControllerView {
                    installed: installed_after(before.installed, prepared.outputs@, i as int),
                    ..before
                }),
            decreases prepared.outputs@.len() - i,
        {
            let output = &prepared.outputs[i];
            let ghost held = self.installed.deep_view();
            self.installed.set(output.index, Some(output.key.clone()));
            assert(self.installed.deep_view() =~= held.update(
                output.index as int,
                Some(output.key.deep_view()),
            ));
            i = i + 1;
        }
        self.installed_generation = prepared.generation;
        self.start_build()
    }

    /// Records that the sender went away; the first time is reported.
    pub fn closed(&mut self) -> (event: Option<ControlEvent>)
        ensures
            final(self).deep_view() == (ControllerView {
                closed_reported: true,
                ..old(self).deep_view()
            }),
            old(self).closed_reported ==> event is None,
            !old(self).closed_reported ==> event is Some && event->0.deep_view() == (
                old(self).requested_generation,
                EventView::Closed,
            ),
    {
        if self.closed_reported {
            return None;
        }
        self.closed_reported = true;
        Some(
            ControlEvent { generation: self.requested_generation, kind: ControlEventKind::Closed },
        )
    }

    /// The session whose updates are taken.
    pub fn session(&self) -> (session: &str)
        ensures
            session@ == self.spec.control_session@,
    {
        self.spec.control_session.as_str()
    }

    /// Whether only a restart can take further updates.
    pub fn requires_restart(&self) -> (required: bool)
        ensures
            required == self.restart_required,
    {
        self.restart_required
    }

    /// Whether every output has its tables.
    pub fn initialized(&self) -> (initialized: bool)
        ensures
            initialized == self.deep_view().initialized(),
    {
        let ghost views = self.installed.deep_view();
        let mut i: usize = 0;
        while i < self.installed.len()
            invariant
                i <= self.installed@.len(),
                views == self.installed.deep_view(),
                forall|j: int| 0 <= j < i ==> (#[trigger] views[j]) is Some,
            decreases self.installed@.len() - i,
        {
            assert(views[i as int] == self.installed@[i as int].deep_view());
            if self.installed[i].is_none() {
                return false;
            }
            i = i + 1;
        }
        true
    }
}

/// The number of workers that build tables, within what is sensible.
pub fn build_workers(asked: usize) -> (workers: usize)
    ensures
        1 <= workers <= MAX_OUTPUTS,
        1 <= asked <= MAX_OUTPUTS ==> workers == asked,
        asked < 1 ==> workers == 1,
        asked > MAX_OUTPUTS ==> workers == MAX_OUTPUTS,
{
    if asked < 1 {
        1
    } else if asked > MAX_OUTPUTS {
        MAX_OUTPUTS
    } else {
        asked
    }
}

/// What the reader of control messages has put down for the presenter. Only the
/// newest update is kept.
#[derive(Debug)]
pub struct Inbox {
    pub newest: Option<ControlUpdate>,
    pub failure: Option<(u64, String)>,
    pub closed: bool,
    pub restart_required: bool,
}

/// What the failure in an [`Inbox`] says.
pub open spec fn failure_view(failure: Option<(u64, String)>) -> Option<(u64, Seq<char>)> {
    match failure {
        Some((generation, reason)) => Some((generation, reason@)),
        None => None,
    }
}

impl Default for Inbox {
    fn default() -> (inbox: Self)
        ensures
            inbox == (Inbox { newest: None, failure: None, closed: false, restart_required: false }),
    {
        Inbox { newest: None, failure: None, closed: false, restart_required: false }
    }
}

/// The reader of control messages: its session, and the newest generation that
/// it has seen for it.
#[derive(Debug)]
pub struct Reader {
    pub session: String,
    pub newest_generation: u64,
}

/// Why a message is not put down.
pub open spec fn message_fault(reader: Reader, update: ControlUpdate) -> Option<Seq<char>> {
    if update.version != CONTROL_VERSION {
        Some("control version mismatch; restart required"@)
    } else if update.session@ != reader.session@ {
        Some("control session mismatch"@)
    } else if update.generation <= reader.newest_generation {
        Some("generation must increase"@)
    } else {
        None
    }
}

/// The newest generation that a reader has seen, after a message.
pub open spec fn newest_seen(reader: Reader, update: ControlUpdate) -> u64 {
    if update.session@ == reader.session@ && update.generation > reader.newest_generation {
        update.generation
    } else {
        reader.newest_generation
    }
}

/// A message to this session speaks another version.
pub open spec fn demands_restart(reader: Reader, update: ControlUpdate) -> bool {
    update.session@ == reader.session@ && update.version != CONTROL_VERSION
}

impl Reader {
    /// Takes a message in. It is checked before it replaces an older one, so
    /// that stale or foreign input cannot push out a newer update that waits.
    pub fn receive(&mut self, inbox: &mut Inbox, update: ControlUpdate)
        ensures
            final(self).newest_generation == newest_seen(*old(self), update),
            final(inbox).restart_required == (old(inbox).restart_required || demands_restart(
                *old(self),
                update,
            )),
            final(self).session == old(self).session,
            final(self).newest_generation == (if update.session@ == old(self).session@
                && update.generation > old(self).newest_generation {
                update.generation
            } else {
                old(self).newest_generation
            }),
            final(inbox).closed == old(inbox).closed,
            match message_fault(*old(self), update) {
                Some(reason) => {
                    &&& final(inbox).newest == old(inbox).newest
                    &&& failure_view(final(inbox).failure) == Some((update.generation, reason))
                    &&& final(inbox).restart_required == (old(inbox).restart_required || (
                    update.session@ == old(self).session@ && update.version != CONTROL_VERSION))
                },
                None => {
                    &&& final(inbox).newest == Some(update)
                    &&& final(inbox).failure == old(inbox).failure
                    &&& final(inbox).restart_required == old(inbox).restart_required
                },
            },
    {
        let own = same_text(update.session.as_str(), self.session.as_str());
        let reason = if update.version != CONTROL_VERSION {
            Some("control version mismatch; restart required".to_owned())
        } else if !own {
            Some("control session mismatch".to_owned())
        } else if update.generation <= self.newest_generation {
            Some("generation must increase".to_owned())
        } else {
            None
        };
        if own && update.generation > self.newest_generation {
            self.newest_generation = update.generation;
        }
        match reason {
            Some(reason) => {
                if own && update.version != CONTROL_VERSION {
                    inbox.restart_required = true;
                }
                inbox.failure = Some((update.generation, reason));
            },
            None => {
                inbox.newest = Some(update);
            },
        }
    }

    /// Takes in that a message could not be read. Only a malformed message can
    /// be followed by another; anything else ends the reading.
    pub fn failed(&self, inbox: &mut Inbox, error: String, malformed: bool) -> (ended: bool)
        ensures
            ended == !malformed,
            final(inbox).newest == old(inbox).newest,
            failure_view(final(inbox).failure) == Some((self.newest_generation, error@)),
            final(inbox).closed == (old(inbox).closed || !malformed),
            final(inbox).restart_required == old(inbox).restart_required,
    {
        inbox.failure = Some((self.newest_generation, error));
        if !malformed {
            inbox.closed = true;
        }
        !malformed
    }
}

/// What one look at the inbox and the worker leads to.
#[derive(Debug)]
pub struct Polled {
    pub events: Vec<ControlEvent>,
    /// A build to install.
    pub prepared: Option<Prepared>,
    /// A build to start.
    pub order: Option<BuildOrder>,
}

/// The state after the inbox was emptied.
pub open spec fn after_inbox(
    state: ControllerView,
    inbox: Inbox,
    checks: Seq<WarpCheckView>,
) -> ControllerView {
    let noted = ControllerView {
        restart_required: state.restart_required || inbox.restart_required,
        closed_reported: state.closed_reported || inbox.closed,
        ..state
    };
    match inbox.newest {
        Some(update) => after_request(noted, update, checks),
        None => noted,
    }
}

/// What is reported when the inbox is emptied.
pub open spec fn inbox_events(
    state: ControllerView,
    inbox: Inbox,
    checks: Seq<WarpCheckView>,
) -> Seq<(u64, EventView)> {
    let noted = ControllerView {
        restart_required: state.restart_required || inbox.restart_required,
        closed_reported: state.closed_reported || inbox.closed,
        ..state
    };
    let failure = match inbox.failure {
        Some((generation, reason)) => seq![rejected(generation, reason@)],
        None => Seq::empty(),
    };
    let closing = if inbox.closed && !state.closed_reported {
        seq![(state.requested_generation, EventView::Closed)]
    } else {
        Seq::empty()
    };
    let request = match inbox.newest {
        Some(update) => seq![request_event(noted, update, checks)],
        None => Seq::empty(),
    };
    failure + closing + request
}

/// The state after a build ended.
pub open spec fn after_build(state: ControllerView) -> ControllerView {
    ControllerView { building: None, ..state }
}

impl Controller {
    /// Empties the inbox.
    fn read_inbox(&mut self, inbox: Inbox, checks: &[WarpCheck]) -> (events: Vec<ControlEvent>)
        requires
            old(self).deep_view().wf(),
            inbox.newest matches Some(update) ==> checks@.len() == update.spec.slices@.len(),
        ensures
            final(self).deep_view().wf(),
            final(self).deep_view() == after_inbox(
                old(self).deep_view(),
                inbox,
                checks.deep_view(),
            ),
            events.deep_view() == inbox_events(old(self).deep_view(), inbox, checks.deep_view()),
    {
        let ghost before = self.deep_view();
        let ghost views = checks.deep_view();
        let mut events: Vec<ControlEvent> = Vec::new();
        let ghost mut reported: Seq<(u64, EventView)> = Seq::empty();
        if inbox.restart_required {
            self.restart_required = true;
        }
        if let Some((generation, reason)) = inbox.failure {
            push_event(&mut events, reject(generation, reason));
            proof {
                reported = reported.push(rejected(generation, reason@));
            }
        }
        assert(events.deep_view() =~= reported);
        if inbox.closed {
            if let Some(event) = self.closed() {
                proof {
                    reported = reported.push(event.deep_view());
                }
                push_event(&mut events, event);
            }
        }
        if let Some(update) = inbox.newest {
            let event = self.request(update, checks);
            proof {
                reported = reported.push(event.deep_view());
            }
            push_event(&mut events, event);
        }
        assert(reported =~= inbox_events(before, inbox, views));
        events
    }

    /// Looks at what the reader put down and at the running build. A build that
    /// can be installed is handed out even where newer input waits, and nothing
    /// is started before it is installed: the next build then starts from what
    /// is really in force.
    pub fn poll(&mut self, inbox: Inbox, checks: &[WarpCheck], result: Option<BuildResult>) -> (polled:
        Polled)
        requires
            old(self).deep_view().wf(),
            inbox.newest matches Some(update) ==> checks@.len() == update.spec.slices@.len(),
            result is Some ==> old(self).building is Some,
        ensures
            final(self).deep_view().wf(),
            ({
                let read = after_inbox(old(self).deep_view(), inbox, checks.deep_view());
                let events = inbox_events(old(self).deep_view(), inbox, checks.deep_view());
                match result {
                    Some(result) => {
                        &&& polled.events.deep_view() == events.push(build_event(read, result))
                        &&& polled.prepared is Some <==> is_installable(read, result)
                        &&& polled.prepared is Some ==> result == BuildResult::Finished(
                            polled.prepared->0,
                        ) && polled.order is None && final(self).deep_view() == after_build(read)
                        &&& polled.prepared is None ==> start_decided(
                            polled.order,
                            after_build(read),
                            final(self).deep_view(),
                        )
                    },
                    None => {
                        &&& polled.events.deep_view() == events
                        &&& polled.prepared is None
                        &&& start_decided(polled.order, read, final(self).deep_view())
                    },
                }
            }),
    {
        let mut events = self.read_inbox(inbox, checks);
        let mut prepared: Option<Prepared> = None;
        if let Some(result) = result {
            let (event, finished) = self.build_ended(result);
            push_event(&mut events, event);
            prepared = finished;
        }
        if prepared.is_some() {
            return Polled { events, prepared, order: None };
        }
        let order = self.start_build();
        Polled { events, prepared: None, order }
    }
}

} // verus!
