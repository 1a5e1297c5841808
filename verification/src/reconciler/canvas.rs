//! The canvas of a pass: which outputs take part, what the compositor is told of
//! them, and what the headless output that holds it needs.
use crate::config::{
    divergence, default_projection, DesiredState, DesiredView, Divergence, DivergenceView,
    OutputConfig, OutputConfigView, ProjectionConfig,
};
use crate::model::{
    find_output, first_match, push_refresh, refresh_text, Mode, Output, OutputMatch,
    OutputMatchView, OutputView, Position, Rect,
};
use crate::names::same_text;
use crate::projection::slices::{copy_slices, SliceSpec, SlicerSpec, SlicerView};
use crate::text::{begins_with, decimal_int, push_decimal_int};
use vstd::prelude::*;
use vstd::string::*;

verus! {

/// An output at its place on the canvas.
#[derive(Debug, PartialEq, Eq)]
pub struct Participant {
    pub name: String,
    pub rect: Rect,
    pub connected: bool,
}

/// What a [`Participant`] says.
pub struct ParticipantView {
    pub name: Seq<char>,
    pub rect: Rect,
    pub connected: bool,
}

impl DeepView for Participant {
    type V = ParticipantView;

    open spec fn deep_view(&self) -> ParticipantView {
        ParticipantView { name: self.name@, rect: self.rect, connected: self.connected }
    }
}

/// The size of an output: that of its configured mode, or else of the mode that
/// a connected display runs.
pub open spec fn size_of(config: OutputConfigView, matched: Option<OutputView>) -> Option<(i32, i32)> {
    let running: Option<Mode> = match matched {
        Some(output) => output.current_mode,
        None => None,
    };
    let mode: Option<Mode> = match config.effective_mode() {
        Some(mode) => Some(mode),
        None => running,
    };
    match mode {
        Some(mode) => Some((mode.width, mode.height)),
        None => None,
    }
}

/// The place of an output: the configured one, or else where a connected display
/// is.
pub open spec fn place_of(config: OutputConfigView, matched: Option<OutputView>) -> Option<
    Position,
> {
    match config.position {
        Some(position) => Some(position),
        None => match matched {
            Some(output) => Some(Position { x: output.rect.x, y: output.rect.y }),
            None => None,
        },
    }
}

/// The part that an output takes in the layout. Every enabled output that has a
/// size and a place takes part, whether or not its display is there: one that is
/// not is known by what it is called in the configuration.
pub open spec fn participant_of(config: OutputConfigView, observed: Seq<OutputView>) -> Option<
    ParticipantView,
> {
    let matched = first_match(observed, config.matching);
    match (size_of(config, matched), place_of(config, matched)) {
        (Some((width, height)), Some(position)) => if config.enable {
            Some(
                ParticipantView {
                    name: match matched {
                        Some(output) => output.name,
                        None => config.matching.key(),
                    },
                    rect: Rect { x: position.x, y: position.y, width, height },
                    connected: matched is Some,
                },
            )
        } else {
            None
        },
        _ => None,
    }
}

/// The parts that the first `n` outputs take.
pub open spec fn participants_among(
    configs: Seq<OutputConfigView>,
    observed: Seq<OutputView>,
    n: int,
) -> Seq<ParticipantView>
    decreases n,
{
    if n <= 0 {
        Seq::empty()
    } else {
        match participant_of(configs[n - 1], observed) {
            Some(participant) => participants_among(configs, observed, n - 1).push(participant),
            None => participants_among(configs, observed, n - 1),
        }
    }
}

fn participant(config: &OutputConfig, observed: &[Output]) -> (part: Option<Participant>)
    ensures
        part.deep_view() == participant_of(config.deep_view(), observed.deep_view()),
{
    if !config.enable {
        return None;
    }
    let matched = find_output(observed, &config.matching);
    let running: Option<Mode> = match matched {
        Some(output) => output.current_mode,
        None => None,
    };
    let mode: Option<Mode> = match config.effective_mode() {
        Some(mode) => Some(mode),
        None => running,
    };
    let place: Option<Position> = match config.position {
        Some(position) => Some(position),
        None => match matched {
            Some(output) => Some(Position { x: output.rect.x, y: output.rect.y }),
            None => None,
        },
    };
    match (mode, place) {
        (Some(mode), Some(position)) => Some(
            Participant {
                name: match matched {
                    Some(output) => output.name.clone(),
                    None => config.matching.key(),
                },
                rect: Rect {
                    x: position.x,
                    y: position.y,
                    width: mode.width,
                    height: mode.height,
                },
                connected: matched.is_some(),
            },
        ),
        _ => None,
    }
}

/// The configured layout: every output that takes part, in the order of the
/// configuration.
pub fn plan_canvas(configs: &[OutputConfig], observed: &[Output]) -> (parts: Vec<Participant>)
    ensures
        parts.deep_view() == participants_among(
            configs.deep_view(),
            observed.deep_view(),
            configs@.len() as int,
        ),
{
    let mut parts: Vec<Participant> = Vec::new();
    let mut i: usize = 0;
    assert(parts.deep_view() =~= Seq::empty());
    while i < configs.len()
        invariant
            i <= configs@.len(),
            parts.deep_view() == participants_among(
                configs.deep_view(),
                observed.deep_view(),
                i as int,
            ),
        decreases configs@.len() - i,
    {
        let ghost before = parts.deep_view();
        assert(configs.deep_view()[i as int] == configs@[i as int].deep_view());
        if let Some(part) = participant(&configs[i], observed) {
            parts.push(part);
            assert(parts.deep_view() =~= before.push(part.deep_view()));
        }
        i = i + 1;
    }
    parts
}

/// A layout worked out: the canvas, where each output is put edge to edge, and
/// what each shows.
#[derive(Debug)]
pub struct CanvasPlan {
    pub canvas_width: i32,
    pub canvas_height: i32,
    pub sway_positions: Vec<(String, i32, i32)>,
    pub slices: Vec<SliceSpec>,
}

/// Where a layout puts the output of a name, from entry `i` on.
pub open spec fn slot_from(positions: Seq<(String, i32, i32)>, name: Seq<char>, i: int) -> Option<
    Position,
>
    decreases positions.len() - i,
{
    if i >= positions.len() || i < 0 {
        None
    } else if positions[i].0@ == name {
        Some(Position { x: positions[i].1, y: positions[i].2 })
    } else {
        slot_from(positions, name, i + 1)
    }
}

impl CanvasPlan {
    /// Finds where the output of a name is put.
    pub fn slot(&self, name: &str) -> (position: Option<Position>)
        ensures
            position == slot_from(self.sway_positions@, name@, 0),
    {
        let mut i: usize = 0;
        while i < self.sway_positions.len()
            invariant
                i <= self.sway_positions@.len(),
                slot_from(self.sway_positions@, name@, 0) == slot_from(
                    self.sway_positions@,
                    name@,
                    i as int,
                ),
            decreases self.sway_positions@.len() - i,
        {
            let entry = &self.sway_positions[i];
            if same_text(entry.0.as_str(), name) {
                return Some(Position { x: entry.1, y: entry.2 });
            }
            i = i + 1;
        }
        None
    }
}

/// What the compositor is told of an output. With a layout worked out, its
/// configured place, which may overlap others, gives way to the one edge to edge.
pub open spec fn told_of(
    config: OutputConfigView,
    observed: Seq<OutputView>,
    plan: Option<CanvasPlan>,
) -> OutputConfigView {
    match plan {
        None => config,
        Some(plan) => match first_match(observed, config.matching) {
            None => config,
            Some(output) => match slot_from(plan.sway_positions@, output.name, 0) {
                Some(position) => OutputConfigView { position: Some(position), ..config },
                None => config,
            },
        },
    }
}

/// What the compositor is told of the outputs.
pub fn outputs_for_sway(
    configs: &[OutputConfig],
    observed: &[Output],
    plan: Option<&CanvasPlan>,
) -> (outputs: Vec<OutputConfig>)
    ensures
        outputs.deep_view() == configs.deep_view().map_values(
            |config: OutputConfigView|
                told_of(
                    config,
                    observed.deep_view(),
                    match plan {
                        Some(plan) => Some(*plan),
                        None => None,
                    },
                ),
        ),
{
    let ghost planned: Option<CanvasPlan> = match plan {
        Some(plan) => Some(*plan),
        None => None,
    };
    let mut outputs: Vec<OutputConfig> = Vec::new();
    let mut i: usize = 0;
    while i < configs.len()
        invariant
            i <= configs@.len(),
            outputs@.len() == i,
            planned == (match plan {
                Some(plan) => Some(*plan),
                None => None,
            }),
            forall|j: int|
                0 <= j < i ==> (#[trigger] outputs@[j]).deep_view() == told_of(
                    configs@[j].deep_view(),
                    observed.deep_view(),
                    planned,
                ),
        decreases configs@.len() - i,
    {
        let config = &configs[i];
        let mut told = config.clone();
        if let Some(plan) = plan {
            if let Some(output) = find_output(observed, &config.matching) {
                if let Some(position) = plan.slot(output.name.as_str()) {
                    told.position = Some(position);
                }
            }
        }
        assert(told.deep_view() == told_of(config.deep_view(), observed.deep_view(), planned));
        outputs.push(told);
        i = i + 1;
    }
    assert(outputs.deep_view() =~= configs.deep_view().map_values(
        |config: OutputConfigView| told_of(config, observed.deep_view(), planned),
    ));
    outputs
}

/// An output that only holds the canvas.
pub open spec fn is_headless(output: OutputView) -> bool {
    "HEADLESS-"@.is_prefix_of(output.name)
}

/// The output at `i` is the first that only holds the canvas.
pub open spec fn is_first_headless(observed: Seq<OutputView>, i: int) -> bool {
    &&& 0 <= i < observed.len()
    &&& is_headless(observed[i])
    &&& forall|j: int| 0 <= j < i ==> !is_headless(#[trigger] observed[j])
}

/// The output that holds the canvas: the first of its kind.
pub open spec fn first_headless(observed: Seq<OutputView>) -> Option<OutputView> {
    if exists|i: int| is_first_headless(observed, i) {
        Some(observed[choose|i: int| is_first_headless(observed, i)])
    } else {
        None
    }
}

/// Finds the output that holds the canvas: the first of its kind.
pub fn find_headless<'a>(observed: &'a [Output]) -> (found: Option<&'a Output>)
    ensures
        found.deep_view() == first_headless(observed.deep_view()),
        found matches Some(output) ==> observed@.contains(*output),
{
    let ghost views = observed.deep_view();
    let mut i: usize = 0;
    while i < observed.len()
        invariant
            i <= observed@.len(),
            views == observed.deep_view(),
            forall|j: int| 0 <= j < i ==> !is_headless(#[trigger] views[j]),
        decreases observed@.len() - i,
    {
        assert(views[i as int] == observed@[i as int].deep_view());
        if begins_with(observed[i].name.as_str(), "HEADLESS-") {
            proof {
                assert(is_first_headless(views, i as int));
                let k = choose|k: int| is_first_headless(views, k);
                assert(is_first_headless(views, k));
                assert(is_headless(views[k]) && is_headless(views[i as int]));
                assert(k == i);
            }
            return Some(&observed[i]);
        }
        i = i + 1;
    }
    assert forall|k: int| !is_first_headless(views, k) by {
        if 0 <= k < views.len() {
            assert(!is_headless(views[k]));
        }
    }
    None
}

/// The rate of the output of a name, where it is there and shows something.
pub open spec fn rate_of(observed: Seq<OutputView>, name: Seq<char>) -> Option<u32> {
    match first_match(
        observed,
        OutputMatchView { name: Some(name), make: None, model: None, serial: None },
    ) {
        Some(output) => match output.current_mode {
            Some(mode) => Some(mode.refresh_mhz),
            None => None,
        },
        None => None,
    }
}

/// The rates of the first `n` outputs of a layout that have one.
pub open spec fn rates_among(
    positions: Seq<(String, i32, i32)>,
    observed: Seq<OutputView>,
    n: int,
) -> Seq<u32>
    decreases n,
{
    if n <= 0 {
        Seq::empty()
    } else {
        match rate_of(observed, positions[n - 1].0@) {
            Some(rate) => rates_among(positions, observed, n - 1).push(rate),
            None => rates_among(positions, observed, n - 1),
        }
    }
}

/// The rates, in thousandths of a hertz, that the outputs of a layout run at.
pub fn participant_rates(plan: &CanvasPlan, observed: &[Output]) -> (rates: Vec<u32>)
    ensures
        rates@ == rates_among(
            plan.sway_positions@,
            observed.deep_view(),
            plan.sway_positions@.len() as int,
        ),
{
    let mut rates: Vec<u32> = Vec::new();
    let mut i: usize = 0;
    while i < plan.sway_positions.len()
        invariant
            i <= plan.sway_positions@.len(),
            rates@ == rates_among(plan.sway_positions@, observed.deep_view(), i as int),
        decreases plan.sway_positions@.len() - i,
    {
        let rule = OutputMatch::by_name(plan.sway_positions[i].0.as_str());
        if let Some(output) = find_output(observed, &rule) {
            if let Some(mode) = output.current_mode {
                rates.push(mode.refresh_mhz);
            }
        }
        i = i + 1;
    }
    rates
}

/// Whether the rate of the canvas is to be set: it is more than a hundredth of a
/// hertz from the wanted one, or not known.
pub open spec fn rate_is_off(wanted: Option<u32>, current: Option<Mode>) -> bool {
    match (wanted, current) {
        (Some(wanted), Some(mode)) => wanted - mode.refresh_mhz > 10 || mode.refresh_mhz - wanted
            > 10,
        (Some(_), None) => true,
        (None, _) => false,
    }
}

/// Whether the canvas has to be set up: it is off, of another size or rate, or
/// not parked away from the outputs.
pub open spec fn canvas_is_off(output: OutputView, width: i32, height: i32, wanted: Option<u32>) -> bool {
    !output.active || output.rect.width != width || output.rect.height != height || output.rect.y
        != 20000 || rate_is_off(wanted, output.current_mode)
}

/// Whether the canvas has to be set up.
pub fn canvas_needs_setup(output: &Output, width: i32, height: i32, wanted: Option<u32>) -> (needs:
    bool)
    ensures
        needs == canvas_is_off(output.deep_view(), width, height, wanted),
{
    let off = match (wanted, output.current_mode) {
        (Some(wanted), Some(mode)) => if wanted > mode.refresh_mhz {
            wanted - mode.refresh_mhz > 10
        } else {
            mode.refresh_mhz - wanted > 10
        },
        (Some(_), None) => true,
        (None, _) => false,
    };
    !output.active || output.rect.width != width || output.rect.height != height || output.rect.y
        != 20000 || off
}

/// The commands that set the canvas up: at its size, with pixels as its units,
/// and parked away from the outputs.
pub open spec fn setup_commands(name: Seq<char>, width: i32, height: i32, wanted: Option<u32>) -> Seq<
    Seq<char>,
> {
    let size = decimal_int(width as int) + "x"@ + decimal_int(height as int);
    let mode = "output "@ + name + " mode --custom "@ + size;
    seq![
        "output "@ + name + " enable"@,
        match wanted {
            Some(rate) => mode + "@"@ + refresh_text(rate) + "Hz"@,
            None => mode,
        },
        "output "@ + name + " scale 1"@,
        "output "@ + name + " pos 0 20000"@,
    ]
}

fn output_command(name: &str, rest: &str) -> (command: String)
    ensures
        command@ == "output "@ + name@ + rest@,
{
    let mut command = "output ".to_owned();
    command.append(name);
    command.append(rest);
    command
}

/// The commands that set the canvas up.
pub fn canvas_commands(name: &str, width: i32, height: i32, wanted: Option<u32>) -> (commands: Vec<
    String,
>)
    ensures
        commands.deep_view() == setup_commands(name@, width, height, wanted),
{
    let mut mode = output_command(name, " mode --custom ");
    push_decimal_int(&mut mode, width as i64);
    mode.append("x");
    push_decimal_int(&mut mode, height as i64);
    let ghost sized = "output "@ + name@ + " mode --custom "@ + (decimal_int(width as int) + "x"@
        + decimal_int(height as int));
    assert(mode@ =~= sized);
    if let Some(rate) = wanted {
        mode.append("@");
        push_refresh(&mut mode, rate);
        mode.append("Hz");
    }
    let mut commands: Vec<String> = Vec::new();
    commands.push(output_command(name, " enable"));
    commands.push(mode);
    commands.push(output_command(name, " scale 1"));
    commands.push(output_command(name, " pos 0 20000"));
    assert(commands.deep_view() =~= setup_commands(name@, width, height, wanted));
    commands
}

/// What is said where no canvas can be made.
pub open spec fn no_canvas() -> DivergenceView {
    divergence(
        "headless_unavailable"@,
        "projection"@,
        "the overlapping layout needs sway's headless backend (WLR_BACKENDS=drm,libinput,headless) and no canvas output could be created; the layout is tiled without slicing meanwhile"@,
    )
}

/// What is said where no canvas can be made.
pub fn headless_unavailable() -> (divergence: Divergence)
    ensures
        divergence.deep_view() == no_canvas(),
{
    Divergence::new(
        "headless_unavailable",
        "projection",
        "the overlapping layout needs sway's headless backend (WLR_BACKENDS=drm,libinput,headless) and no canvas output could be created; the layout is tiled without slicing meanwhile".to_owned(),
    )
}

/// There is something to show: an app, or a test pattern.
pub open spec fn has_something_to_show(desired: DesiredView) -> bool {
    desired.active_app is Some || (desired.projection matches Some(projection)
        && projection.test_pattern is Some)
}

/// What is wanted of the projection.
pub open spec fn projection_of(desired: DesiredView) -> ProjectionConfig {
    match desired.projection {
        Some(projection) => projection,
        None => default_projection(),
    }
}

/// What is cut out of the canvas, and how. Nothing is cut while there is nothing
/// to show, which leaves the backgrounds of the outputs uncovered, nor while
/// there is nowhere to show it.
pub open spec fn slicer_of(desired: DesiredView, plan: CanvasPlan, source: Seq<char>) -> Option<
    SlicerView,
> {
    if has_something_to_show(desired) && plan.slices@.len() > 0 {
        let projection = projection_of(desired);
        Some(
            SlicerView {
                control_session: Seq::empty(),
                source,
                canvas_width: plan.canvas_width,
                canvas_height: plan.canvas_height,
                gamma: projection.gamma,
                black_lift: projection.black_lift,
                pattern: projection.test_pattern,
                free_run: projection.free_run,
                renderer: projection.renderer,
                slices: plan.slices.deep_view(),
            },
        )
    } else {
        None
    }
}

/// What is cut out of the canvas, and how.
pub fn slicer_spec(desired: &DesiredState, plan: &CanvasPlan, source: &str) -> (spec: Option<
    SlicerSpec,
>)
    ensures
        spec.deep_view() == slicer_of(desired.deep_view(), *plan, source@),
{
    let projection = match &desired.projection {
        Some(projection) => *projection,
        None => ProjectionConfig::default(),
    };
    let to_show = desired.active_app.is_some() || projection.test_pattern.is_some();
    if !to_show || plan.slices.len() == 0 {
        return None;
    }
    let control_session = String::new();
    assert(control_session@ =~= Seq::empty());
    Some(
        SlicerSpec {
            control_session,
            source: source.to_owned(),
            canvas_width: plan.canvas_width,
            canvas_height: plan.canvas_height,
            gamma: projection.gamma,
            black_lift: projection.black_lift,
            pattern: projection.test_pattern,
            free_run: projection.free_run,
            renderer: projection.renderer,
            slices: copy_slices(&plan.slices),
        },
    )
}

/// How far a pass has come with the canvas.
#[derive(Debug, Clone, PartialEq, Eq)]
pub enum CanvasProgress {
    /// Nothing was done.
    Start,
    /// An output for the canvas was asked for.
    Created,
    /// The canvas of a name was set up.
    SetUp(String),
    /// The canvas was taken away.
    Retired,
}

/// What a [`CanvasProgress`] says.
pub enum CanvasProgressView {
    Start,
    Created,
    SetUp(Seq<char>),
    Retired,
}

impl DeepView for CanvasProgress {
    type V = CanvasProgressView;

    open spec fn deep_view(&self) -> CanvasProgressView {
        match self {
            CanvasProgress::Start => CanvasProgressView::Start,
            CanvasProgress::Created => CanvasProgressView::Created,
            CanvasProgress::SetUp(name) => CanvasProgressView::SetUp(name@),
            CanvasProgress::Retired => CanvasProgressView::Retired,
        }
    }
}

/// What is done next about the canvas.
#[derive(Debug)]
pub enum CanvasAction {
    /// A command makes an output for the canvas; what is there is read again.
    Create(String),
    /// Commands set the canvas of a name up; what is there is read again.
    SetUp { canvas: String, commands: Vec<String> },
    /// A command takes the canvas away; what is there is read again.
    Retire(String),
    /// The canvas is there, and this is cut out of it.
    Cut { canvas: String, slicer: Option<SlicerSpec> },
    /// There is no canvas although the layout needs one.
    NoCanvas(Divergence),
    /// There is no canvas and no need of one. Patterns are drawn over the outputs
    /// where a projection is wanted.
    Overlay { patterns: bool },
}

/// What a [`CanvasAction`] says.
pub enum CanvasActionView {
    Create(Seq<char>),
    SetUp { canvas: Seq<char>, commands: Seq<Seq<char>> },
    Retire(Seq<char>),
    Cut { canvas: Seq<char>, slicer: Option<SlicerView> },
    NoCanvas(DivergenceView),
    Overlay { patterns: bool },
}

impl DeepView for CanvasAction {
    type V = CanvasActionView;

    open spec fn deep_view(&self) -> CanvasActionView {
        match self {
            CanvasAction::Create(command) => CanvasActionView::Create(command@),
            CanvasAction::SetUp { canvas, commands } => CanvasActionView::SetUp {
                canvas: canvas@,
                commands: commands.deep_view(),
            },
            CanvasAction::Retire(command) => CanvasActionView::Retire(command@),
            CanvasAction::Cut { canvas, slicer } => CanvasActionView::Cut {
                canvas: canvas@,
                slicer: slicer.deep_view(),
            },
            CanvasAction::NoCanvas(divergence) => CanvasActionView::NoCanvas(
                divergence.deep_view(),
            ),
            CanvasAction::Overlay { patterns } => CanvasActionView::Overlay {
                patterns: *patterns,
            },
        }
    }
}

/// What is done next about the canvas. With a layout, an output is made for the
/// canvas where there is none, set up where it is off, and cut from. Without one,
/// a canvas that is left is taken away: windows that span every output would span
/// it too. Each command is tried once; what comes of it shows in what is observed
/// afterwards.
pub open spec fn canvas_step(
    desired: DesiredView,
    plan: Option<CanvasPlan>,
    observed: Seq<OutputView>,
    wanted: Option<u32>,
    progress: CanvasProgressView,
) -> CanvasActionView {
    match (plan, progress) {
        (Some(plan), CanvasProgressView::SetUp(canvas)) => CanvasActionView::Cut {
            canvas,
            slicer: slicer_of(desired, plan, canvas),
        },
        (Some(plan), _) => match first_headless(observed) {
            Some(output) => if canvas_is_off(
                output,
                plan.canvas_width,
                plan.canvas_height,
                wanted,
            ) {
                CanvasActionView::SetUp {
                    canvas: output.name,
                    commands: setup_commands(
                        output.name,
                        plan.canvas_width,
                        plan.canvas_height,
                        wanted,
                    ),
                }
            } else {
                CanvasActionView::Cut {
                    canvas: output.name,
                    slicer: slicer_of(desired, plan, output.name),
                }
            },
            None => if progress is Created {
                CanvasActionView::NoCanvas(no_canvas())
            } else {
                CanvasActionView::Create("create_output"@)
            },
        },
        (None, CanvasProgressView::Retired) => CanvasActionView::Overlay {
            patterns: desired.projection is Some,
        },
        (None, _) => match first_headless(observed) {
            Some(output) => CanvasActionView::Retire("output "@ + output.name + " unplug"@),
            None => CanvasActionView::Overlay { patterns: desired.projection is Some },
        },
    }
}

/// How far a pass has come once an action was carried out.
pub open spec fn progress_after(
    progress: CanvasProgressView,
    action: CanvasActionView,
) -> CanvasProgressView {
    match action {
        CanvasActionView::Create(_) => CanvasProgressView::Created,
        CanvasActionView::SetUp { canvas, .. } => CanvasProgressView::SetUp(canvas),
        CanvasActionView::Retire(_) => CanvasProgressView::Retired,
        _ => progress,
    }
}

/// An action after which nothing is left to do about the canvas.
pub open spec fn is_last(action: CanvasActionView) -> bool {
    action is Cut || action is NoCanvas || action is Overlay
}

impl CanvasProgress {
    /// What is done next about the canvas, given what was observed last and the
    /// rate, in thousandths of a hertz, that is wanted of the canvas.
    pub fn next(
        &self,
        desired: &DesiredState,
        plan: Option<&CanvasPlan>,
        observed: &[Output],
        wanted: Option<u32>,
    ) -> (action: CanvasAction)
        ensures
            action.deep_view() == canvas_step(
                desired.deep_view(),
                match plan {
                    Some(plan) => Some(*plan),
                    None => None,
                },
                observed.deep_view(),
                wanted,
                self.deep_view(),
            ),
    {
        match plan {
            Some(plan) => {
                if let CanvasProgress::SetUp(canvas) = self {
                    return CanvasAction::Cut {
                        canvas: canvas.clone(),
                        slicer: slicer_spec(desired, plan, canvas.as_str()),
                    };
                }
                match find_headless(observed) {
                    Some(output) => {
                        let name = output.name.as_str();
                        let (width, height): (i32, i32) = (plan.canvas_width, plan.canvas_height);
                        if canvas_needs_setup(output, width, height, wanted) {
                            CanvasAction::SetUp {
                                canvas: name.to_owned(),
                                commands: canvas_commands(name, width, height, wanted),
                            }
                        } else {
                            CanvasAction::Cut {
                                canvas: name.to_owned(),
                                slicer: slicer_spec(desired, plan, name),
                            }
                        }
                    },
                    None => match self {
                        CanvasProgress::Created => CanvasAction::NoCanvas(headless_unavailable()),
                        _ => CanvasAction::Create("create_output".to_owned()),
                    },
                }
            },
            None => {
                if let CanvasProgress::Retired = self {
                    return CanvasAction::Overlay { patterns: desired.projection.is_some() };
                }
                match find_headless(observed) {
                    Some(output) => CanvasAction::Retire(
                        output_command(output.name.as_str(), " unplug"),
                    ),
                    None => CanvasAction::Overlay { patterns: desired.projection.is_some() },
                }
            },
        }
    }

    /// How far a pass has come once an action was carried out.
    pub fn after(self, action: &CanvasAction) -> (progress: CanvasProgress)
        ensures
            progress.deep_view() == progress_after(self.deep_view(), action.deep_view()),
    {
        match action {
            CanvasAction::Create(_) => CanvasProgress::Created,
            CanvasAction::SetUp { canvas, commands: _ } => CanvasProgress::SetUp(canvas.clone()),
            CanvasAction::Retire(_) => CanvasProgress::Retired,
            _ => self,
        }
    }
}

/// The canvas is settled within three actions, whatever comes of the commands:
/// none is repeated within a pass, however the outputs change in between.
pub proof fn canvas_is_settled_in_three_actions(
    desired: DesiredView,
    plan: Option<CanvasPlan>,
    wanted: Seq<Option<u32>>,
    observed: Seq<Seq<OutputView>>,
)
    requires
        observed.len() == 3,
        wanted.len() == 3,
    ensures
        ({
            let start = CanvasProgressView::Start;
            let first = canvas_step(desired, plan, observed[0], wanted[0], start);
            let second = canvas_step(
                desired,
                plan,
                observed[1],
                wanted[1],
                progress_after(start, first),
            );
            let third = canvas_step(
                desired,
                plan,
                observed[2],
                wanted[2],
                progress_after(progress_after(start, first), second),
            );
            is_last(first) || is_last(second) || is_last(third)
        }),
{
}

/// Leaving a layout behind leaves no canvas behind: patterns are drawn over the
/// outputs only once no canvas is there or its removal was asked for.
pub proof fn left_over_canvas_is_retired_first(
    desired: DesiredView,
    observed: Seq<OutputView>,
    wanted: Option<u32>,
    progress: CanvasProgressView,
)
    requires
        canvas_step(desired, None, observed, wanted, progress) is Overlay,
    ensures
        progress is Retired || first_headless(observed) is None,
{
}

/// Where nothing is active and no pattern is asked for, nothing covers the
/// backgrounds.
pub proof fn idle_canvas_is_not_shown(desired: DesiredView, plan: CanvasPlan, source: Seq<char>)
    requires
        desired.active_app is None,
        projection_of(desired).test_pattern is None,
    ensures
        slicer_of(desired, plan, source) is None,
{
}

/// A display that comes back finds its place: whether an output is connected does
/// not move the others, as long as the configuration says where each is.
pub proof fn absent_outputs_keep_their_place(
    config: OutputConfigView,
    observed: Seq<OutputView>,
    later: Seq<OutputView>,
)
    requires
        config.effective_mode() is Some,
        config.position is Some,
    ensures
        participant_of(config, observed) is Some <==> participant_of(config, later) is Some,
        config.enable ==> participant_of(config, observed)->0.rect == participant_of(
            config,
            later,
        )->0.rect,
{
}

/// Once a canvas is as its commands make it, it is left alone.
pub proof fn canvas_that_is_set_up_is_left_alone(
    output: OutputView,
    width: i32,
    height: i32,
    wanted: Option<u32>,
)
    requires
        output.active,
        output.rect == (Rect { x: 0, y: 20000, width, height }),
        wanted matches Some(rate) ==> output.current_mode == Some(
            Mode { width, height, refresh_mhz: rate },
        ),
    ensures
        !canvas_is_off(output, width, height, wanted),
{
}

/// An output that a pattern is drawn over: it is on, has a size, and is no
/// stand-in for a display.
pub open spec fn takes_an_overlay(output: OutputView, synthetic: bool) -> bool {
    output.active && output.rect.width > 0 && !synthetic
}

/// The outputs among the first `n` that a pattern is drawn over.
pub open spec fn overlays_among(observed: Seq<OutputView>, synthetic: Seq<bool>, n: int) -> Seq<
    ParticipantView,
>
    decreases n,
{
    if n <= 0 {
        Seq::empty()
    } else if takes_an_overlay(observed[n - 1], synthetic[n - 1]) {
        overlays_among(observed, synthetic, n - 1).push(
            ParticipantView {
                name: observed[n - 1].name,
                rect: observed[n - 1].rect,
                connected: true,
            },
        )
    } else {
        overlays_among(observed, synthetic, n - 1)
    }
}

/// The outputs that patterns are drawn over where there is no canvas: each for
/// itself, as on a bench. `synthetic` says of each output whether it is a
/// stand-in for a display.
pub fn overlay_participants(observed: &[Output], synthetic: &[bool]) -> (parts: Vec<Participant>)
    requires
        synthetic@.len() == observed@.len(),
    ensures
        parts.deep_view() == overlays_among(
            observed.deep_view(),
            synthetic@,
            observed@.len() as int,
        ),
{
    let mut parts: Vec<Participant> = Vec::new();
    let mut i: usize = 0;
    assert(parts.deep_view() =~= Seq::empty());
    while i < observed.len()
        invariant
            i <= observed@.len(),
            synthetic@.len() == observed@.len(),
            parts.deep_view() == overlays_among(observed.deep_view(), synthetic@, i as int),
        decreases observed@.len() - i,
    {
        let output = &observed[i];
        let ghost before = parts.deep_view();
        assert(observed.deep_view()[i as int] == output.deep_view());
        if output.active && output.rect.width > 0 && !synthetic[i] {
            let part = Participant {
                name: output.name.clone(),
                rect: output.rect,
                connected: true,
            };
            parts.push(part);
            assert(parts.deep_view() =~= before.push(part.deep_view()));
        }
        i = i + 1;
    }
    parts
}

} // verus!
