//! What to tell the compositor about its outputs and windows.
//!
//! Planning compares what is observed with what is wanted and gives the exact
//! commands that close the gap, in the order in which they must be issued.
use crate::config::{
    divergence, AppConfig, AppView, Divergence, DivergenceView, OutputConfig, OutputConfigView,
};
use crate::model::{
    find_output, first_match, nearest_mode, Background, BackgroundPreset, BackgroundView, Mode,
    Output, OutputView, PresetView, Real,
};
use crate::names::{same_text, NameMap};
use crate::text::{decimal, decimal_int, push_decimal, push_decimal_int};
use vstd::prelude::*;
use vstd::string::*;

verus! {

/// Compositor features that depend on its version.
#[derive(Debug, Clone, Copy, PartialEq, Eq, Structural)]
pub struct Capabilities {
    pub supports_tearing: bool,
}

impl Default for Capabilities {
    fn default() -> (capabilities: Self)
        ensures
            capabilities == (Capabilities { supports_tearing: false }),
    {
        Capabilities { supports_tearing: false }
    }
}

/// What was last applied to an output, for settings that the compositor does
/// not report back.
#[derive(Debug, PartialEq, Eq)]
pub struct AppliedOutput {
    pub config: OutputConfig,
    pub workspace: u32,
    /// The background as resolved, not as referenced: editing a preset changes
    /// the picture behind an unchanged name.
    pub background: Option<Background>,
}

/// What an [`AppliedOutput`] says.
pub struct AppliedView {
    pub config: OutputConfigView,
    pub workspace: u32,
    pub background: Option<BackgroundView>,
}

impl DeepView for AppliedOutput {
    type V = AppliedView;

    open spec fn deep_view(&self) -> AppliedView {
        AppliedView {
            config: self.config.deep_view(),
            workspace: self.workspace,
            background: self.background.deep_view(),
        }
    }
}

/// What is recorded for each name.
pub open spec fn applied_views(applied: Map<Seq<char>, AppliedOutput>) -> Map<
    Seq<char>,
    AppliedView,
> {
    applied.map_values(|output: AppliedOutput| output.deep_view())
}

/// The commands of one pass, and what they leave behind.
#[derive(Debug)]
pub struct OutputPlan {
    /// Compositor commands, in the order they must be issued.
    pub commands: Vec<String>,
    /// What cannot be made the way it was asked for.
    pub divergences: Vec<Divergence>,
    /// An output was enabled or disabled, so the layout must settle.
    pub topology_changed: bool,
    /// The workspace pinned to each live output.
    pub workspaces: NameMap<u32>,
    /// What is now applied, for the next pass.
    pub applied: NameMap<AppliedOutput>,
}

/// What an [`OutputPlan`] says.
pub struct PlanView {
    pub commands: Seq<Seq<char>>,
    pub divergences: Seq<DivergenceView>,
    pub topology_changed: bool,
    pub workspaces: Map<Seq<char>, u32>,
    pub applied: Map<Seq<char>, AppliedView>,
}

impl DeepView for OutputPlan {
    type V = PlanView;

    open spec fn deep_view(&self) -> PlanView {
        PlanView {
            commands: self.commands.deep_view(),
            divergences: self.divergences.deep_view(),
            topology_changed: self.topology_changed,
            workspaces: self.workspaces@,
            applied: applied_views(self.applied@),
        }
    }
}

impl Default for OutputPlan {
    fn default() -> (plan: Self)
        ensures
            plan.deep_view() == empty_plan(),
    {
        let plan = OutputPlan {
            commands: Vec::new(),
            divergences: Vec::new(),
            topology_changed: false,
            workspaces: NameMap::new(),
            applied: NameMap::new(),
        };
        assert(plan.commands.deep_view() =~= Seq::empty());
        assert(plan.divergences.deep_view() =~= Seq::empty());
        assert(applied_views(plan.applied@) =~= Map::empty());
        plan
    }
}

/// A plan that does nothing.
pub open spec fn empty_plan() -> PlanView {
    PlanView {
        commands: Seq::empty(),
        divergences: Seq::empty(),
        topology_changed: false,
        workspaces: Map::empty(),
        applied: Map::empty(),
    }
}

/// What a plan is made from.
pub struct PlanInputs {
    pub observed: Seq<OutputView>,
    pub desired: Seq<OutputConfigView>,
    pub presets: Seq<PresetView>,
    pub applied: Map<Seq<char>, AppliedView>,
    pub capabilities: Capabilities,
}

/// What planning one entry learns from outside: where its wallpaper is stored,
/// and whether its scale differs from the one in force.
pub struct Answers {
    pub wallpaper: Option<Seq<char>>,
    pub scale_differs: bool,
}

/// One wanted output that is connected and enabled.
pub struct Entry {
    pub output: OutputView,
    pub config: OutputConfigView,
    pub applied: Option<AppliedView>,
    pub presets: Seq<PresetView>,
    pub capabilities: Capabilities,
    pub workspace: u32,
    pub answers: Answers,
}

/// A command to an output.
pub open spec fn output_command(name: Seq<char>, rest: Seq<char>) -> Seq<char> {
    "output "@ + name + rest
}

/// One command where it is needed, none otherwise.
pub open spec fn only_if(needed: bool, command: Seq<char>) -> Seq<Seq<char>> {
    if needed {
        seq![command]
    } else {
        Seq::empty()
    }
}

impl Entry {
    /// Every setting must be issued: the output is being enabled, which makes
    /// the compositor forget them, or it was not managed before.
    pub open spec fn force(self) -> bool {
        !self.output.active || self.applied is None
    }

    pub open spec fn enable_commands(self) -> Seq<Seq<char>> {
        only_if(!self.output.active, output_command(self.output.name, " enable"@))
    }

    /// The mode to set: the nearest advertised one, or the wanted one where
    /// the output advertises none.
    pub open spec fn mode_target(self, wanted: Mode) -> Option<Mode> {
        if self.output.modes.len() == 0 {
            Some(wanted)
        } else {
            nearest_mode(self.output.modes, wanted)
        }
    }

    pub open spec fn mode_commands(self) -> Seq<Seq<char>> {
        match self.config.mode {
            Some(wanted) => match self.mode_target(wanted) {
                Some(target) => only_if(
                    self.force() || self.output.current_mode != Some(target),
                    output_command(self.output.name, " mode "@ + target.sway_text()),
                ),
                None => Seq::empty(),
            },
            None => Seq::empty(),
        }
    }

    pub open spec fn mode_divergences(self) -> Seq<DivergenceView> {
        match self.config.mode {
            Some(wanted) => match self.mode_target(wanted) {
                Some(_) => Seq::empty(),
                None => seq![
                    divergence(
                        "mode_unsupported"@,
                        self.output.name,
                        self.output.name + " does not advertise mode "@ + wanted.sway_text(),
                    ),
                ],
            },
            None => Seq::empty(),
        }
    }

    pub open spec fn position_commands(self) -> Seq<Seq<char>> {
        match self.config.position {
            Some(position) => only_if(
                self.force() || self.output.rect.x != position.x || self.output.rect.y
                    != position.y,
                output_command(
                    self.output.name,
                    " pos "@ + decimal_int(position.x as int) + " "@ + decimal_int(
                        position.y as int,
                    ),
                ),
            ),
            None => Seq::empty(),
        }
    }

    pub open spec fn scale_commands(self) -> Seq<Seq<char>> {
        match self.config.scale {
            Some(scale) => only_if(
                self.force() || self.output.scale is None || self.answers.scale_differs,
                output_command(self.output.name, " scale "@ + scale.text),
            ),
            None => Seq::empty(),
        }
    }

    pub open spec fn transform_commands(self) -> Seq<Seq<char>> {
        match self.config.transform {
            Some(transform) => only_if(
                self.force() || self.output.transform != Some(transform.sway_text()),
                output_command(self.output.name, " transform "@ + transform.sway_text()),
            ),
            None => Seq::empty(),
        }
    }

    /// Whether the output already does what is wanted of adaptive sync.
    pub open spec fn adaptive_sync_settled(self) -> bool {
        match self.output.adaptive_sync_status {
            Some(status) => (status == "enabled"@) == self.config.adaptive_sync,
            None => false,
        }
    }

    pub open spec fn adaptive_sync_commands(self) -> Seq<Seq<char>> {
        only_if(
            self.force() || !self.adaptive_sync_settled(),
            output_command(
                self.output.name,
                " adaptive_sync "@ + if self.config.adaptive_sync {
                    "on"@
                } else {
                    "off"@
                },
            ),
        )
    }

    pub open spec fn tearing_commands(self) -> Seq<Seq<char>> {
        only_if(
            self.capabilities.supports_tearing && (self.force()
                || self.applied->0.config.allow_tearing != self.config.allow_tearing),
            output_command(
                self.output.name,
                " allow_tearing "@ + if self.config.allow_tearing {
                    "yes"@
                } else {
                    "no"@
                },
            ),
        )
    }

    pub open spec fn tearing_divergences(self) -> Seq<DivergenceView> {
        if !self.capabilities.supports_tearing && self.config.allow_tearing {
            seq![
                divergence(
                    "tearing_unsupported"@,
                    self.output.name,
                    "this sway version does not support tearing control (needs 1.10 or newer)"@,
                ),
            ]
        } else {
            Seq::empty()
        }
    }

    pub open spec fn render_time_commands(self) -> Seq<Seq<char>> {
        only_if(
            self.force() || self.applied->0.config.max_render_time_ms
                != self.config.max_render_time_ms,
            output_command(
                self.output.name,
                " max_render_time "@ + match self.config.max_render_time_ms {
                    Some(ms) => decimal(ms as nat),
                    None => "off"@,
                },
            ),
        )
    }

    /// The background that the entry's reference stands for.
    pub open spec fn resolved_background(self) -> Option<BackgroundView> {
        match self.config.background {
            Some(reference) => reference.resolve(self.presets),
            None => None,
        }
    }

    /// The background must be painted.
    pub open spec fn background_due(self) -> bool {
        self.resolved_background() is Some && (self.force() || self.applied->0.background
            != self.resolved_background())
    }

    /// The wallpaper whose file must be found, if any.
    pub open spec fn wallpaper_wanted(self) -> Option<Seq<char>> {
        if self.background_due() {
            self.resolved_background()->0.wallpaper
        } else {
            None
        }
    }

    pub open spec fn background_commands(self) -> Seq<Seq<char>> {
        if self.background_due() {
            match background_line(
                self.output.name,
                self.resolved_background()->0,
                self.answers.wallpaper,
            ) {
                Ok(line) => seq![line],
                Err(_) => Seq::empty(),
            }
        } else {
            Seq::empty()
        }
    }

    pub open spec fn background_divergences(self) -> Seq<DivergenceView> {
        if self.config.background is Some && self.resolved_background() is None {
            seq![
                divergence(
                    "background_preset_not_found"@,
                    self.output.name,
                    self.output.name + " refers to background preset "@ + debug_text(
                        self.config.background->0.preset_id(),
                    ) + ", which is not defined"@,
                ),
            ]
        } else if self.background_due() {
            match background_line(
                self.output.name,
                self.resolved_background()->0,
                self.answers.wallpaper,
            ) {
                Ok(_) => Seq::empty(),
                Err(divergence) => seq![divergence],
            }
        } else {
            Seq::empty()
        }
    }

    pub open spec fn workspace_commands(self) -> Seq<Seq<char>> {
        only_if(
            self.force() || self.applied->0.workspace != self.workspace,
            "workspace "@ + decimal(self.workspace as nat) + " output "@ + self.output.name,
        )
    }

    /// The commands of the entry.
    pub open spec fn commands(self) -> Seq<Seq<char>> {
        self.enable_commands() + self.mode_commands() + self.position_commands()
            + self.scale_commands() + self.transform_commands() + self.adaptive_sync_commands()
            + self.tearing_commands() + self.render_time_commands() + self.background_commands()
            + self.workspace_commands()
    }

    /// What the entry cannot have.
    pub open spec fn divergences(self) -> Seq<DivergenceView> {
        self.mode_divergences() + self.tearing_divergences() + self.background_divergences()
    }

    /// What is recorded of the entry for the next pass.
    pub open spec fn record(self) -> AppliedView {
        AppliedView {
            config: self.config,
            workspace: self.workspace,
            background: self.resolved_background(),
        }
    }

    /// Whether the scale in force must be compared with the wanted one.
    pub open spec fn scale_compared(self) -> bool {
        self.config.scale is Some && self.output.scale is Some
    }
}

/// How a text reads between quotes, with what cannot stand there escaped.
pub uninterp spec fn debug_text(text: Seq<char>) -> Seq<char>;

/// The `Debug` form of a `str`, as `format!` writes it. The text is named, not
/// described: which characters are escaped is std's choice.
#[verifier::external_body]
fn quoted(text: &str) -> (quoted: String)
    ensures
        quoted@ == debug_text(text@),
{
    format!("{text:?}")
}

/// The command that paints a background: a stored file with its scaling mode
/// and a colour where the picture does not reach, or a plain colour. A
/// wallpaper that is not stored is a divergence.
pub open spec fn background_line(
    name: Seq<char>,
    background: BackgroundView,
    path: Option<Seq<char>>,
) -> Result<Seq<char>, DivergenceView> {
    match background.wallpaper {
        Some(id) => match path {
            Some(path) => Ok(
                output_command(
                    name,
                    " bg "@ + path + " "@ + background.mode.sway_text() + " #"@
                        + background.sway_color(),
                ),
            ),
            None => Err(
                divergence(
                    "wallpaper_not_found"@,
                    name,
                    name + " refers to wallpaper "@ + debug_text(id) + ", which is not stored"@,
                ),
            ),
        },
        None => Ok(
            output_command(name, " bg #"@ + background.sway_color() + " solid_color"@),
        ),
    }
}

impl PlanInputs {
    /// The live output that wanted entry `i` is about.
    pub open spec fn output_of(self, i: int) -> Option<OutputView> {
        first_match(self.observed, self.desired[i].matching)
    }

    /// Entry `i` is connected and enabled.
    pub open spec fn live(self, i: int) -> bool {
        self.output_of(i) is Some && self.desired[i].enable
    }

    /// Entry `i`, where it is live.
    pub open spec fn entry(self, i: int, answers: Answers) -> Entry {
        let output = self.output_of(i)->0;
        Entry {
            output,
            config: self.desired[i],
            applied: if self.applied.dom().contains(output.name) {
                Some(self.applied[output.name])
            } else {
                None
            },
            presets: self.presets,
            capabilities: self.capabilities,
            workspace: (i + 1) as u32,
            answers,
        }
    }

    /// The commands of entry `i`.
    pub open spec fn commands(self, i: int, answers: Answers) -> Seq<Seq<char>> {
        match self.output_of(i) {
            Some(output) => if self.desired[i].enable {
                self.entry(i, answers).commands()
            } else {
                only_if(output.active, output_command(output.name, " disable"@))
            },
            None => Seq::empty(),
        }
    }

    /// What entry `i` cannot have.
    pub open spec fn divergences(self, i: int, answers: Answers) -> Seq<DivergenceView> {
        match self.output_of(i) {
            Some(output) => if self.desired[i].enable {
                self.entry(i, answers).divergences()
            } else {
                Seq::empty()
            },
            None => {
                let key = self.desired[i].matching.key();
                seq![
                    divergence(
                        "output_not_connected"@,
                        key,
                        "no connected output matches "@ + key,
                    ),
                ]
            },
        }
    }

    /// Entry `i` enables or disables its output.
    pub open spec fn changes_topology(self, i: int) -> bool {
        self.output_of(i) is Some && self.output_of(i)->0.active != self.desired[i].enable
    }

    /// The plan for the first `n` entries.
    pub open spec fn plan(self, answers: Seq<Answers>, n: int) -> PlanView
        decreases n,
    {
        if n <= 0 {
            empty_plan()
        } else {
            let i = n - 1;
            let before = self.plan(answers, i);
            PlanView {
                commands: before.commands + self.commands(i, answers[i]),
                divergences: before.divergences + self.divergences(i, answers[i]),
                topology_changed: before.topology_changed || self.changes_topology(i),
                workspaces: if self.live(i) {
                    before.workspaces.insert(self.output_of(i)->0.name, n as u32)
                } else {
                    before.workspaces
                },
                applied: if self.live(i) {
                    before.applied.insert(
                        self.output_of(i)->0.name,
                        self.entry(i, answers[i]).record(),
                    )
                } else {
                    before.applied
                },
            }
        }
    }
}

/// `answer` is something that the resolver gave for a wallpaper.
pub open spec fn wallpaper_answered<F: Fn(&str) -> Option<String>>(
    resolve: F,
    id: Seq<char>,
    answer: Option<Seq<char>>,
) -> bool {
    exists|asked: &str, path: Option<String>|
        asked@ == id && path.deep_view() == answer && #[trigger] call_ensures(
            resolve,
            (asked,),
            path,
        )
}

impl PlanInputs {
    /// The answers used for entry `i` were given by the two callbacks, wherever
    /// the entry needed them.
    pub open spec fn answered<F: Fn(&str) -> Option<String>, D: Fn(Real, Real) -> bool>(
        self,
        i: int,
        answers: Answers,
        resolve: F,
        differs: D,
    ) -> bool {
        let entry = self.entry(i, answers);
        self.live(i) ==> {
            &&& entry.wallpaper_wanted() is Some ==> wallpaper_answered(
                resolve,
                entry.wallpaper_wanted()->0,
                answers.wallpaper,
            )
            &&& entry.scale_compared() ==> call_ensures(
                differs,
                (entry.output.scale->0, entry.config.scale->0.value),
                answers.scale_differs,
            )
        }
    }
}

/// Appends a command.
fn push_command(commands: &mut Vec<String>, command: String)
    ensures
        final(commands).deep_view() == old(commands).deep_view().push(command@),
{
    commands.push(command);
    assert(commands.deep_view() =~= old(commands).deep_view().push(command@));
}

/// Appends a divergence.
fn push_divergence(divergences: &mut Vec<Divergence>, made: Divergence)
    ensures
        final(divergences).deep_view() == old(divergences).deep_view().push(made.deep_view()),
{
    divergences.push(made);
    assert(divergences.deep_view() =~= old(divergences).deep_view().push(made.deep_view()));
}

/// A command to an output.
fn command_to(name: &str, rest: &str) -> (command: String)
    ensures
        command@ == output_command(name@, rest@),
{
    let mut command = "output ".to_owned();
    command.append(name);
    command.append(rest);
    command
}

/// The command that paints a background, where its wallpaper is stored at
/// `path`.
fn background_text(name: &str, background: &Background, path: &Option<String>) -> (line: Result<
    String,
    Divergence,
>)
    ensures
        match (line, background_line(name@, background.deep_view(), path.deep_view())) {
            (Ok(line), Ok(wanted)) => line@ == wanted,
            (Err(made), Err(wanted)) => made.deep_view() == wanted,
            _ => false,
        },
{
    match &background.wallpaper {
        Some(id) => match path {
            Some(path) => {
                let mut line = command_to(name, " bg ");
                line.append(path.as_str());
                line.append(" ");
                line.append(background.mode.as_sway());
                line.append(" #");
                line.append(background.sway_color().as_str());
                assert(line@ =~= output_command(
                    name@,
                    " bg "@ + path@ + " "@ + background.mode.sway_text() + " #"@
                        + background.deep_view().sway_color(),
                ));
                Ok(line)
            },
            None => {
                let mut detail = name.to_owned();
                detail.append(" refers to wallpaper ");
                detail.append(quoted(id.as_str()).as_str());
                detail.append(", which is not stored");
                Err(Divergence::new("wallpaper_not_found", name, detail))
            },
        },
        None => {
            let mut line = command_to(name, " bg #");
            line.append(background.sway_color().as_str());
            line.append(" solid_color");
            assert(line@ =~= output_command(
                name@,
                " bg #"@ + background.deep_view().sway_color() + " solid_color"@,
            ));
            Ok(line)
        },
    }
}

/// `made` is the command, or the divergence, that painting a background gives
/// where its wallpaper is stored at `path`.
pub open spec fn background_outcome(
    made: Result<Option<String>, Divergence>,
    name: Seq<char>,
    background: BackgroundView,
    path: Option<Seq<char>>,
) -> bool {
    match (made, background_line(name, background, path)) {
        (Ok(Some(line)), Ok(wanted)) => line@ == wanted,
        (Err(made), Err(wanted)) => made.deep_view() == wanted,
        _ => false,
    }
}

/// The command that paints a background, if it asks for anything. A wallpaper
/// that is not stored is a divergence: the output keeps working, and the
/// operator is told which one could not be found.
pub fn background_command<F: Fn(&str) -> Option<String>>(
    name: &str,
    background: &Background,
    resolve_wallpaper: &F,
) -> (line: Result<Option<String>, Divergence>)
    requires
        forall|id: &str| #[trigger] call_requires(*resolve_wallpaper, (id,)),
    ensures
        exists|answer: Option<Seq<char>>|
            {
                &&& #[trigger] background_outcome(line, name@, background.deep_view(), answer)
                &&& background.deep_view().wallpaper is Some ==> wallpaper_answered(
                    *resolve_wallpaper,
                    background.deep_view().wallpaper->0,
                    answer,
                )
            },
{
    let path = match &background.wallpaper {
        Some(id) => resolve_wallpaper(id.as_str()),
        None => None,
    };
    proof {
        if background.deep_view().wallpaper is Some {
            assert(wallpaper_answered(
                *resolve_wallpaper,
                background.deep_view().wallpaper->0,
                path.deep_view(),
            ));
        }
    }
    let made = match background_text(name, background, &path) {
        Ok(line) => Ok(Some(line)),
        Err(made) => Err(made),
    };
    assert(background_outcome(made, name@, background.deep_view(), path.deep_view()));
    made
}

/// `output` and `config` are those of the entry, and `force` is its force.
spec fn is_entry(entry: Entry, output: Output, config: OutputConfig, force: bool) -> bool {
    &&& entry.output == output.deep_view()
    &&& entry.config == config.deep_view()
    &&& entry.force() == force
}

fn plan_mode(
    commands: &mut Vec<String>,
    divergences: &mut Vec<Divergence>,
    output: &Output,
    config: &OutputConfig,
    force: bool,
    Ghost(entry): Ghost<Entry>,
)
    requires
        is_entry(entry, *output, *config, force),
    ensures
        final(commands).deep_view() == old(commands).deep_view() + entry.mode_commands(),
        final(divergences).deep_view() == old(divergences).deep_view() + entry.mode_divergences(),
{
    let name = output.name.as_str();
    if let Some(mode) = config.mode {
        let target = if output.modes.len() == 0 {
            Some(mode)
        } else {
            output.resolve_mode(&mode)
        };
        match target {
            None => {
                let mut detail = name.to_owned();
                detail.append(" does not advertise mode ");
                mode.push_sway(&mut detail);
                push_divergence(divergences, Divergence::new("mode_unsupported", name, detail));
            },
            Some(target) => {
                let settled = match output.current_mode {
                    Some(current) => current.matches(&target),
                    None => false,
                };
                if force || !settled {
                    let mut command = command_to(name, " mode ");
                    target.push_sway(&mut command);
                    assert(command@ =~= output_command(name@, " mode "@ + target.sway_text()));
                    push_command(commands, command);
                }
            },
        }
    }
    assert(commands.deep_view() =~= old(commands).deep_view() + entry.mode_commands());
    assert(divergences.deep_view() =~= old(divergences).deep_view() + entry.mode_divergences());
}

fn plan_position(
    commands: &mut Vec<String>,
    output: &Output,
    config: &OutputConfig,
    force: bool,
    Ghost(entry): Ghost<Entry>,
)
    requires
        is_entry(entry, *output, *config, force),
    ensures
        final(commands).deep_view() == old(commands).deep_view() + entry.position_commands(),
{
    if let Some(position) = config.position {
        if force || output.rect.x != position.x || output.rect.y != position.y {
            let mut command = command_to(output.name.as_str(), " pos ");
            push_decimal_int(&mut command, position.x as i64);
            command.append(" ");
            push_decimal_int(&mut command, position.y as i64);
            assert(command@ =~= output_command(
                output.name@,
                " pos "@ + decimal_int(position.x as int) + " "@ + decimal_int(position.y as int),
            ));
            push_command(commands, command);
        }
    }
    assert(commands.deep_view() =~= old(commands).deep_view() + entry.position_commands());
}

fn plan_scale<D: Fn(Real, Real) -> bool>(
    commands: &mut Vec<String>,
    output: &Output,
    config: &OutputConfig,
    force: bool,
    scale_differs: &D,
    Ghost(entry): Ghost<Entry>,
) -> (answer: Ghost<bool>)
    requires
        is_entry(entry, *output, *config, force),
        forall|a: Real, b: Real| #[trigger] call_requires(*scale_differs, (a, b)),
    ensures
        forall|answers: Answers|
            answers.scale_differs == answer@ ==> final(commands).deep_view() == old(
                commands,
            ).deep_view() + (#[trigger] (Entry { answers, ..entry }).scale_commands()),
        entry.scale_compared() ==> call_ensures(
            *scale_differs,
            (entry.output.scale->0, entry.config.scale->0.value),
            answer@,
        ),
{
    let ghost mut answer = false;
    if let Some(scale) = &config.scale {
        let differs = match output.scale {
            Some(current) => {
                let differs = scale_differs(current, scale.value);
                proof {
                    answer = differs;
                }
                differs
            },
            None => true,
        };
        if force || differs {
            let mut command = command_to(output.name.as_str(), " scale ");
            command.append(scale.text.as_str());
            assert(command@ =~= output_command(output.name@, " scale "@ + scale.text@));
            push_command(commands, command);
        }
    }
    assert forall|answers: Answers| answers.scale_differs == answer implies commands.deep_view()
        == old(commands).deep_view() + (#[trigger] (Entry {
        answers,
        ..entry
    }).scale_commands()) by {
        let e = Entry { answers, ..entry };
        assert(e.force() == entry.force());
        assert(commands.deep_view() =~= old(commands).deep_view() + e.scale_commands());
    }
    Ghost(answer)
}

fn plan_transform(
    commands: &mut Vec<String>,
    output: &Output,
    config: &OutputConfig,
    force: bool,
    Ghost(entry): Ghost<Entry>,
)
    requires
        is_entry(entry, *output, *config, force),
    ensures
        final(commands).deep_view() == old(commands).deep_view() + entry.transform_commands(),
{
    if let Some(transform) = config.transform {
        let wanted = transform.as_sway();
        let settled = match &output.transform {
            Some(current) => same_text(current.as_str(), wanted),
            None => false,
        };
        if force || !settled {
            let mut command = command_to(output.name.as_str(), " transform ");
            command.append(wanted);
            assert(command@ =~= output_command(
                output.name@,
                " transform "@ + transform.sway_text(),
            ));
            push_command(commands, command);
        }
    }
    assert(commands.deep_view() =~= old(commands).deep_view() + entry.transform_commands());
}

fn plan_adaptive_sync(
    commands: &mut Vec<String>,
    output: &Output,
    config: &OutputConfig,
    force: bool,
    Ghost(entry): Ghost<Entry>,
)
    requires
        is_entry(entry, *output, *config, force),
    ensures
        final(commands).deep_view() == old(commands).deep_view() + entry.adaptive_sync_commands(),
{
    let settled = match &output.adaptive_sync_status {
        Some(status) => same_text(status.as_str(), "enabled") == config.adaptive_sync,
        None => false,
    };
    if force || !settled {
        let mut command = command_to(output.name.as_str(), " adaptive_sync ");
        command.append(if config.adaptive_sync {
            "on"
        } else {
            "off"
        });
        assert(command@ =~= output_command(
            output.name@,
            " adaptive_sync "@ + if config.adaptive_sync {
                "on"@
            } else {
                "off"@
            },
        ));
        push_command(commands, command);
    }
    assert(commands.deep_view() =~= old(commands).deep_view() + entry.adaptive_sync_commands());
}

fn plan_tearing(
    commands: &mut Vec<String>,
    divergences: &mut Vec<Divergence>,
    output: &Output,
    config: &OutputConfig,
    applied: Option<&AppliedOutput>,
    capabilities: Capabilities,
    force: bool,
    Ghost(entry): Ghost<Entry>,
)
    requires
        is_entry(entry, *output, *config, force),
        entry.applied == applied.deep_view(),
        entry.capabilities == capabilities,
    ensures
        final(commands).deep_view() == old(commands).deep_view() + entry.tearing_commands(),
        final(divergences).deep_view() == old(divergences).deep_view()
            + entry.tearing_divergences(),
{
    let name = output.name.as_str();
    if capabilities.supports_tearing {
        let changed = match applied {
            Some(applied) => applied.config.allow_tearing != config.allow_tearing,
            None => true,
        };
        if force || changed {
            let mut command = command_to(name, " allow_tearing ");
            command.append(if config.allow_tearing {
                "yes"
            } else {
                "no"
            });
            assert(command@ =~= output_command(
                output.name@,
                " allow_tearing "@ + if config.allow_tearing {
                    "yes"@
                } else {
                    "no"@
                },
            ));
            push_command(commands, command);
        }
    } else if config.allow_tearing {
        push_divergence(
            divergences,
            Divergence::new(
                "tearing_unsupported",
                name,
                "this sway version does not support tearing control (needs 1.10 or newer)".to_owned(),
            ),
        );
    }
    assert(commands.deep_view() =~= old(commands).deep_view() + entry.tearing_commands());
    assert(divergences.deep_view() =~= old(divergences).deep_view() + entry.tearing_divergences());
}

fn plan_render_time(
    commands: &mut Vec<String>,
    output: &Output,
    config: &OutputConfig,
    applied: Option<&AppliedOutput>,
    force: bool,
    Ghost(entry): Ghost<Entry>,
)
    requires
        is_entry(entry, *output, *config, force),
        entry.applied == applied.deep_view(),
    ensures
        final(commands).deep_view() == old(commands).deep_view() + entry.render_time_commands(),
{
    let changed = match applied {
        Some(applied) => applied.config.max_render_time_ms != config.max_render_time_ms,
        None => true,
    };
    if force || changed {
        let mut command = command_to(output.name.as_str(), " max_render_time ");
        match config.max_render_time_ms {
            Some(ms) => push_decimal(&mut command, ms as u64),
            None => command.append("off"),
        }
        assert(command@ =~= output_command(
            output.name@,
            " max_render_time "@ + match config.max_render_time_ms {
                Some(ms) => decimal(ms as nat),
                None => "off"@,
            },
        ));
        push_command(commands, command);
    }
    assert(commands.deep_view() =~= old(commands).deep_view() + entry.render_time_commands());
}

fn plan_workspace(
    commands: &mut Vec<String>,
    output: &Output,
    workspace: u32,
    applied: Option<&AppliedOutput>,
    force: bool,
    Ghost(entry): Ghost<Entry>,
)
    requires
        entry.output == output.deep_view(),
        entry.force() == force,
        entry.applied == applied.deep_view(),
        entry.workspace == workspace,
    ensures
        final(commands).deep_view() == old(commands).deep_view() + entry.workspace_commands(),
{
    let changed = match applied {
        Some(applied) => applied.workspace != workspace,
        None => true,
    };
    if force || changed {
        let mut command = "workspace ".to_owned();
        push_decimal(&mut command, workspace as u64);
        command.append(" output ");
        command.append(output.name.as_str());
        push_command(commands, command);
    }
    assert(commands.deep_view() =~= old(commands).deep_view() + entry.workspace_commands());
}

/// Plans the background. Gives the background as resolved, and the answer that
/// the resolver gave.
fn plan_background<F: Fn(&str) -> Option<String>>(
    commands: &mut Vec<String>,
    divergences: &mut Vec<Divergence>,
    output: &Output,
    config: &OutputConfig,
    presets: &[BackgroundPreset],
    applied: Option<&AppliedOutput>,
    force: bool,
    resolve_wallpaper: &F,
    Ghost(entry): Ghost<Entry>,
) -> (planned: (Option<Background>, Ghost<Option<Seq<char>>>))
    requires
        is_entry(entry, *output, *config, force),
        entry.applied == applied.deep_view(),
        entry.presets == presets.deep_view(),
        forall|id: &str| #[trigger] call_requires(*resolve_wallpaper, (id,)),
    ensures
        planned.0.deep_view() == entry.resolved_background(),
        entry.wallpaper_wanted() is Some ==> wallpaper_answered(
            *resolve_wallpaper,
            entry.wallpaper_wanted()->0,
            planned.1@,
        ),
        forall|answers: Answers|
            #![trigger (Entry { answers, ..entry }).background_commands()]
            #![trigger (Entry { answers, ..entry }).background_divergences()]
            answers.wallpaper == planned.1@ ==> final(commands).deep_view() == old(
                commands,
            ).deep_view() + (Entry { answers, ..entry }).background_commands()
                && final(divergences).deep_view() == old(divergences).deep_view() + (Entry {
                answers,
                ..entry
            }).background_divergences(),
{
    let name = output.name.as_str();
    let ghost mut answer: Option<Seq<char>> = None;
    let mut resolved: Option<Background> = None;
    if let Some(reference) = &config.background {
        match reference.resolve(presets) {
            Some(background) => {
                resolved = Some(background.clone());
                let changed = match applied {
                    Some(applied) => match &applied.background {
                        Some(painted) => !painted.same(background),
                        None => true,
                    },
                    None => true,
                };
                if force || changed {
                    let made = background_command(name, background, resolve_wallpaper);
                    proof {
                        answer = choose|answer: Option<Seq<char>>|
                            {
                                &&& #[trigger] background_outcome(
                                    made,
                                    name@,
                                    background.deep_view(),
                                    answer,
                                )
                                &&& background.deep_view().wallpaper is Some ==> wallpaper_answered(
                                    *resolve_wallpaper,
                                    background.deep_view().wallpaper->0,
                                    answer,
                                )
                            };
                    }
                    match made {
                        Ok(Some(command)) => push_command(commands, command),
                        Ok(None) => {},
                        Err(made) => push_divergence(divergences, made),
                    }
                }
            },
            None => {
                let mut detail = name.to_owned();
                detail.append(" refers to background preset ");
                detail.append(quoted(reference.preset_id().as_str()).as_str());
                detail.append(", which is not defined");
                push_divergence(
                    divergences,
                    Divergence::new("background_preset_not_found", name, detail),
                );
            },
        }
    }
    assert(resolved.deep_view() == entry.resolved_background());
    assert forall|answers: Answers|
        #![trigger (Entry { answers, ..entry }).background_commands()]
        #![trigger (Entry { answers, ..entry }).background_divergences()]
        answers.wallpaper == answer implies commands.deep_view() == old(commands).deep_view()
        + (Entry { answers, ..entry }).background_commands() && divergences.deep_view() == old(
        divergences,
    ).deep_view() + (Entry { answers, ..entry }).background_divergences() by {
        let e = Entry { answers, ..entry };
        assert(e.force() == entry.force());
        assert(e.resolved_background() == entry.resolved_background());
        assert(e.background_due() == entry.background_due());
        assert(commands.deep_view() =~= old(commands).deep_view() + e.background_commands());
        assert(divergences.deep_view() =~= old(divergences).deep_view()
            + e.background_divergences());
    }
    (resolved, Ghost(answer))
}

/// Plans one output that is connected and enabled. Gives the background as
/// resolved, and the answers that were used.
fn plan_live<F: Fn(&str) -> Option<String>, D: Fn(Real, Real) -> bool>(
    commands: &mut Vec<String>,
    divergences: &mut Vec<Divergence>,
    output: &Output,
    config: &OutputConfig,
    presets: &[BackgroundPreset],
    applied: Option<&AppliedOutput>,
    capabilities: Capabilities,
    workspace: u32,
    resolve_wallpaper: &F,
    scale_differs: &D,
    Ghost(entry): Ghost<Entry>,
) -> (planned: (Option<Background>, Ghost<Answers>))
    requires
        entry.output == output.deep_view(),
        entry.config == config.deep_view(),
        entry.applied == applied.deep_view(),
        entry.presets == presets.deep_view(),
        entry.capabilities == capabilities,
        entry.workspace == workspace,
        forall|id: &str| #[trigger] call_requires(*resolve_wallpaper, (id,)),
        forall|a: Real, b: Real| #[trigger] call_requires(*scale_differs, (a, b)),
    ensures
        ({
            let e = Entry { answers: planned.1@, ..entry };
            &&& planned.0.deep_view() == e.resolved_background()
            &&& final(commands).deep_view() == old(commands).deep_view() + e.commands()
            &&& final(divergences).deep_view() == old(divergences).deep_view() + e.divergences()
            &&& e.wallpaper_wanted() is Some ==> wallpaper_answered(
                *resolve_wallpaper,
                e.wallpaper_wanted()->0,
                planned.1@.wallpaper,
            )
            &&& e.scale_compared() ==> call_ensures(
                *scale_differs,
                (e.output.scale->0, e.config.scale->0.value),
                planned.1@.scale_differs,
            )
        }),
{
    let ghost first = commands.deep_view();
    let ghost first_divergences = divergences.deep_view();
    let just_enabled = !output.active;
    if just_enabled {
        push_command(commands, command_to(output.name.as_str(), " enable"));
    }
    let ghost mut so_far = entry.enable_commands();
    assert(commands.deep_view() =~= first + so_far);
    // An output that was not managed before gets every setting, even one that
    // already holds: the compositor rearranges what it was not told explicitly.
    let force = just_enabled || applied.is_none();
    plan_mode(commands, divergences, output, config, force, Ghost(entry));
    proof {
        lemma_append(first, so_far, entry.mode_commands());
        so_far = so_far + entry.mode_commands();
    }
    plan_position(commands, output, config, force, Ghost(entry));
    proof {
        lemma_append(first, so_far, entry.position_commands());
        so_far = so_far + entry.position_commands();
    }
    let Ghost(differs) = plan_scale(commands, output, config, force, scale_differs, Ghost(entry));
    let ghost scaled = (Entry {
        answers: Answers { wallpaper: None, scale_differs: differs },
        ..entry
    }).scale_commands();
    proof {
        lemma_append(first, so_far, scaled);
        so_far = so_far + scaled;
    }
    plan_transform(commands, output, config, force, Ghost(entry));
    proof {
        lemma_append(first, so_far, entry.transform_commands());
        so_far = so_far + entry.transform_commands();
    }
    plan_adaptive_sync(commands, output, config, force, Ghost(entry));
    proof {
        lemma_append(first, so_far, entry.adaptive_sync_commands());
        so_far = so_far + entry.adaptive_sync_commands();
    }
    plan_tearing(
        commands,
        divergences,
        output,
        config,
        applied,
        capabilities,
        force,
        Ghost(entry),
    );
    proof {
        lemma_append(first, so_far, entry.tearing_commands());
        so_far = so_far + entry.tearing_commands();
        lemma_append(first_divergences, entry.mode_divergences(), entry.tearing_divergences());
    }
    plan_render_time(commands, output, config, applied, force, Ghost(entry));
    proof {
        lemma_append(first, so_far, entry.render_time_commands());
        so_far = so_far + entry.render_time_commands();
    }
    let (background, Ghost(path)) = plan_background(
        commands,
        divergences,
        output,
        config,
        presets,
        applied,
        force,
        resolve_wallpaper,
        Ghost(entry),
    );
    let ghost answers = Answers { wallpaper: path, scale_differs: differs };
    let ghost e = Entry { answers, ..entry };
    proof {
        lemma_append(first, so_far, e.background_commands());
        so_far = so_far + e.background_commands();
        lemma_append(
            first_divergences,
            entry.mode_divergences() + entry.tearing_divergences(),
            e.background_divergences(),
        );
    }
    plan_workspace(commands, output, workspace, applied, force, Ghost(entry));
    proof {
        lemma_append(first, so_far, entry.workspace_commands());
        so_far = so_far + entry.workspace_commands();
        lemma_answers_matter_twice(entry, answers);
        assert(scaled == e.scale_commands());
        assert(so_far == e.commands());
    }
    (background, Ghost(answers))
}

/// Joining is associative.
proof fn lemma_append<T>(first: Seq<T>, so_far: Seq<T>, next: Seq<T>)
    ensures
        first + so_far + next == first + (so_far + next),
{
    assert(first + so_far + next =~= first + (so_far + next));
}

/// Only the scale and the background of an entry depend on its answers.
proof fn lemma_answers_matter_twice(entry: Entry, answers: Answers)
    ensures
        ({
            let e = Entry { answers, ..entry };
            &&& e.force() == entry.force()
            &&& e.resolved_background() == entry.resolved_background()
            &&& e.wallpaper_wanted() == entry.wallpaper_wanted()
            &&& e.enable_commands() == entry.enable_commands()
            &&& e.mode_commands() == entry.mode_commands()
            &&& e.position_commands() == entry.position_commands()
            &&& e.scale_commands() == (Entry {
                answers: Answers { wallpaper: None, scale_differs: answers.scale_differs },
                ..entry
            }).scale_commands()
            &&& e.transform_commands() == entry.transform_commands()
            &&& e.adaptive_sync_commands() == entry.adaptive_sync_commands()
            &&& e.tearing_commands() == entry.tearing_commands()
            &&& e.render_time_commands() == entry.render_time_commands()
            &&& e.workspace_commands() == entry.workspace_commands()
            &&& e.mode_divergences() == entry.mode_divergences()
            &&& e.tearing_divergences() == entry.tearing_divergences()
        }),
{
}

/// What the arguments of planning stand for.
pub open spec fn plan_inputs(
    observed: &[Output],
    desired: &[OutputConfig],
    presets: &[BackgroundPreset],
    previously_applied: &NameMap<AppliedOutput>,
    capabilities: Capabilities,
) -> PlanInputs {
    PlanInputs {
        observed: observed.deep_view(),
        desired: desired.deep_view(),
        presets: presets.deep_view(),
        applied: applied_views(previously_applied@),
        capabilities,
    }
}

/// Each entry's answers were given by the two callbacks.
pub open spec fn all_answered<F: Fn(&str) -> Option<String>, D: Fn(Real, Real) -> bool>(
    inputs: PlanInputs,
    answers: Seq<Answers>,
    resolve: F,
    differs: D,
) -> bool {
    &&& answers.len() == inputs.desired.len()
    &&& forall|i: int|
        0 <= i < answers.len() ==> inputs.answered(i, #[trigger] answers[i], resolve, differs)
}

/// The plan is the one that the inputs give, with answers of the two callbacks.
pub open spec fn is_plan<F: Fn(&str) -> Option<String>, D: Fn(Real, Real) -> bool>(
    plan: PlanView,
    inputs: PlanInputs,
    resolve: F,
    differs: D,
) -> bool {
    exists|answers: Seq<Answers>|
        {
            &&& #[trigger] all_answered(inputs, answers, resolve, differs)
            &&& plan == inputs.plan(answers, inputs.desired.len() as int)
        }
}

/// Plans the outputs, with background presets and a resolver from wallpaper to
/// stored file. `scale_differs` says whether the scale in force (its first
/// argument) is noticeably another than the wanted one.
///
/// Outputs that nothing is asked of are left alone.
pub fn plan_outputs_with<F: Fn(&str) -> Option<String>, D: Fn(Real, Real) -> bool>(
    observed: &[Output],
    desired: &[OutputConfig],
    presets: &[BackgroundPreset],
    previously_applied: &NameMap<AppliedOutput>,
    capabilities: Capabilities,
    resolve_wallpaper: F,
    scale_differs: D,
) -> (plan: OutputPlan)
    requires
        desired@.len() < u32::MAX,
        forall|id: &str| #[trigger] call_requires(resolve_wallpaper, (id,)),
        forall|a: Real, b: Real| #[trigger] call_requires(scale_differs, (a, b)),
    ensures
        is_plan(
            plan.deep_view(),
            plan_inputs(observed, desired, presets, previously_applied, capabilities),
            resolve_wallpaper,
            scale_differs,
        ),
{
    let ghost inputs = plan_inputs(observed, desired, presets, previously_applied, capabilities);
    let mut plan = OutputPlan::default();
    let ghost mut answers: Seq<Answers> = Seq::empty();
    let mut i: usize = 0;
    while i < desired.len()
        invariant
            i <= desired@.len() < u32::MAX,
            inputs == plan_inputs(observed, desired, presets, previously_applied, capabilities),
            answers.len() == i,
            forall|j: int|
                0 <= j < i ==> inputs.answered(
                    j,
                    #[trigger] answers[j],
                    resolve_wallpaper,
                    scale_differs,
                ),
            plan.deep_view() == inputs.plan(answers, i as int),
            forall|id: &str| #[trigger] call_requires(resolve_wallpaper, (id,)),
            forall|a: Real, b: Real| #[trigger] call_requires(scale_differs, (a, b)),
        decreases desired@.len() - i,
    {
        let config = &desired[i];
        let workspace: u32 = i as u32 + 1;
        let ghost before = plan.deep_view();
        let ghost mut answer = Answers { wallpaper: None, scale_differs: false };
        assert(inputs.desired[i as int] == config.deep_view());
        match find_output(observed, &config.matching) {
            None => {
                let key = config.matching.key();
                let mut detail = "no connected output matches ".to_owned();
                detail.append(key.as_str());
                push_divergence(
                    &mut plan.divergences,
                    Divergence::new("output_not_connected", key.as_str(), detail),
                );
            },
            Some(output) => {
                if !config.enable {
                    if output.active {
                        push_command(
                            &mut plan.commands,
                            command_to(output.name.as_str(), " disable"),
                        );
                        plan.topology_changed = true;
                    }
                } else {
                    let applied = previously_applied.get(output.name.as_str());
                    if !output.active {
                        plan.topology_changed = true;
                    }
                    let ghost entry = inputs.entry(i as int, answer);
                    let (background, Ghost(used)) = plan_live(
                        &mut plan.commands,
                        &mut plan.divergences,
                        output,
                        config,
                        presets,
                        applied,
                        capabilities,
                        workspace,
                        &resolve_wallpaper,
                        &scale_differs,
                        Ghost(entry),
                    );
                    proof {
                        answer = used;
                    }
                    let record = AppliedOutput { config: config.clone(), workspace, background };
                    let ghost recorded = plan.applied@;
                    plan.workspaces.insert(output.name.clone(), workspace);
                    plan.applied.insert(output.name.clone(), record);
                    assert(applied_views(plan.applied@) =~= applied_views(recorded).insert(
                        output.name@,
                        record.deep_view(),
                    ));
                    assert(inputs.entry(i as int, used) == (Entry { answers: used, ..entry }));
                }
            },
        }
        proof {
            let longer = answers.push(answer);
            lemma_plan_prefix(inputs, answers, longer, i as int);
            assert(longer[i as int] == answer);
            assert forall|j: int| 0 <= j < i + 1 implies inputs.answered(
                j,
                #[trigger] longer[j],
                resolve_wallpaper,
                scale_differs,
            ) by {
                if j < i {
                    assert(longer[j] == answers[j]);
                }
            }
            assert(plan.commands.deep_view() =~= before.commands + inputs.commands(
                i as int,
                answer,
            ));
            assert(plan.divergences.deep_view() =~= before.divergences + inputs.divergences(
                i as int,
                answer,
            ));
            assert(plan.deep_view() == inputs.plan(longer, i + 1));
            answers = longer;
        }
        i = i + 1;
    }
    assert(all_answered(inputs, answers, resolve_wallpaper, scale_differs));
    plan
}

/// The plan for the first entries depends on their answers alone.
proof fn lemma_plan_prefix(inputs: PlanInputs, a: Seq<Answers>, b: Seq<Answers>, n: int)
    requires
        n <= a.len(),
        n <= b.len(),
        forall|i: int| 0 <= i < n ==> a[i] == b[i],
    ensures
        inputs.plan(a, n) == inputs.plan(b, n),
    decreases n,
{
    if n > 0 {
        lemma_plan_prefix(inputs, a, b, n - 1);
    }
}

/// What the arguments of planning without presets stand for.
pub open spec fn bare_plan_inputs(
    observed: &[Output],
    desired: &[OutputConfig],
    previously_applied: &NameMap<AppliedOutput>,
    capabilities: Capabilities,
) -> PlanInputs {
    PlanInputs {
        observed: observed.deep_view(),
        desired: desired.deep_view(),
        presets: Seq::empty(),
        applied: applied_views(previously_applied@),
        capabilities,
    }
}

/// Each entry's scale answer was given by the callback, and no wallpaper was
/// found.
pub open spec fn answered_without_wallpapers<D: Fn(Real, Real) -> bool>(
    inputs: PlanInputs,
    answers: Seq<Answers>,
    differs: D,
) -> bool {
    &&& answers.len() == inputs.desired.len()
    &&& forall|i: int|
        #![trigger answers[i]]
        0 <= i < answers.len() && inputs.live(i) ==> {
            let entry = inputs.entry(i, answers[i]);
            &&& entry.wallpaper_wanted() is Some ==> answers[i].wallpaper is None
            &&& entry.scale_compared() ==> call_ensures(
                differs,
                (entry.output.scale->0, entry.config.scale->0.value),
                answers[i].scale_differs,
            )
        }
}

/// Plans the outputs, with no background presets and no stored wallpapers.
pub fn plan_outputs<D: Fn(Real, Real) -> bool>(
    observed: &[Output],
    desired: &[OutputConfig],
    previously_applied: &NameMap<AppliedOutput>,
    capabilities: Capabilities,
    scale_differs: D,
) -> (plan: OutputPlan)
    requires
        desired@.len() < u32::MAX,
        forall|a: Real, b: Real| #[trigger] call_requires(scale_differs, (a, b)),
    ensures
        exists|answers: Seq<Answers>|
            {
                &&& #[trigger] answered_without_wallpapers(
                    bare_plan_inputs(observed, desired, previously_applied, capabilities),
                    answers,
                    scale_differs,
                )
                &&& plan.deep_view() == bare_plan_inputs(
                    observed,
                    desired,
                    previously_applied,
                    capabilities,
                ).plan(answers, desired@.len() as int)
            },
{
    let nowhere = |id: &str| -> (path: Option<String>)
        ensures
            path is None,
        { None };
    let presets: Vec<BackgroundPreset> = Vec::new();
    let no_presets = presets.as_slice();
    let plan = plan_outputs_with(
        observed,
        desired,
        no_presets,
        previously_applied,
        capabilities,
        nowhere,
        scale_differs,
    );
    proof {
        let given = plan_inputs(
            observed,
            desired,
            no_presets,
            previously_applied,
            capabilities,
        );
        let inputs = bare_plan_inputs(observed, desired, previously_applied, capabilities);
        assert(no_presets.deep_view() =~= Seq::empty());
        assert(given == inputs);
        let answers = choose|answers: Seq<Answers>|
            #[trigger] all_answered(given, answers, nowhere, scale_differs) && plan.deep_view()
                == given.plan(answers, desired@.len() as int);
        assert(all_answered(given, answers, nowhere, scale_differs));
        assert forall|i: int|
            #![trigger answers[i]]
            0 <= i < answers.len() && inputs.live(i) implies ({
            let entry = inputs.entry(i, answers[i]);
            &&& entry.wallpaper_wanted() is Some ==> answers[i].wallpaper is None
            &&& entry.scale_compared() ==> call_ensures(
                scale_differs,
                (entry.output.scale->0, entry.config.scale->0.value),
                answers[i].scale_differs,
            )
        }) by {
            assert(given.answered(i, answers[i], nowhere, scale_differs));
        }
        assert(answered_without_wallpapers(inputs, answers, scale_differs));
    }
    plan
}

/// Where a managed app should run.
#[derive(Debug, PartialEq, Eq)]
pub struct AppTarget {
    pub id: String,
    /// The live output to place the window on, when the app pins one.
    pub output: Option<String>,
    /// The workspace to move the window to, when an output is pinned.
    pub workspace: Option<u32>,
    /// Set when the app cannot run right now.
    pub blocked: Option<Divergence>,
}

/// What an [`AppTarget`] says.
pub struct AppTargetView {
    pub id: Seq<char>,
    pub output: Option<Seq<char>>,
    pub workspace: Option<u32>,
    pub blocked: Option<DivergenceView>,
}

impl DeepView for AppTarget {
    type V = AppTargetView;

    open spec fn deep_view(&self) -> AppTargetView {
        AppTargetView {
            id: self.id@,
            output: self.output.deep_view(),
            workspace: self.workspace,
            blocked: self.blocked.deep_view(),
        }
    }
}

impl AppTarget {
    /// Whether the app can run right now.
    pub fn runnable(&self) -> (runnable: bool)
        ensures
            runnable == (self.blocked is None),
    {
        self.blocked.is_none()
    }
}

/// Where one app should run: wherever the compositor likes where it pins no
/// output, on its output where that is live, and nowhere otherwise.
pub open spec fn app_target(
    app: AppView,
    observed: Seq<OutputView>,
    workspaces: Map<Seq<char>, u32>,
) -> AppTargetView {
    match app.output {
        None => AppTargetView { id: app.id, output: None, workspace: None, blocked: None },
        Some(rule) => match first_match(observed, rule) {
            Some(output) => if workspaces.dom().contains(output.name) {
                AppTargetView {
                    id: app.id,
                    output: Some(output.name),
                    workspace: Some(workspaces[output.name]),
                    blocked: None,
                }
            } else {
                AppTargetView {
                    id: app.id,
                    output: Some(output.name),
                    workspace: None,
                    blocked: Some(
                        divergence(
                            "app_output_disabled"@,
                            app.id,
                            app.id + " targets "@ + output.name
                                + ", which is connected but not enabled"@,
                        ),
                    ),
                }
            },
            None => AppTargetView {
                id: app.id,
                output: None,
                workspace: None,
                blocked: Some(
                    divergence(
                        "app_waiting_for_output"@,
                        app.id,
                        app.id + " targets "@ + rule.key() + ", which is not connected"@,
                    ),
                ),
            },
        },
    }
}

/// Where each enabled app among the first `n` should run.
pub open spec fn app_targets(
    apps: Seq<AppView>,
    observed: Seq<OutputView>,
    workspaces: Map<Seq<char>, u32>,
    n: int,
) -> Seq<AppTargetView>
    decreases n,
{
    if n <= 0 {
        Seq::empty()
    } else if apps[n - 1].enabled {
        app_targets(apps, observed, workspaces, n - 1).push(
            app_target(apps[n - 1], observed, workspaces),
        )
    } else {
        app_targets(apps, observed, workspaces, n - 1)
    }
}

fn target_of(app: &AppConfig, observed: &[Output], workspaces: &NameMap<u32>) -> (target: AppTarget)
    ensures
        target.deep_view() == app_target(app.deep_view(), observed.deep_view(), workspaces@),
{
    match &app.output {
        None => AppTarget { id: app.id.clone(), output: None, workspace: None, blocked: None },
        Some(rule) => match find_output(observed, rule) {
            Some(output) => match workspaces.get(output.name.as_str()) {
                Some(workspace) => AppTarget {
                    id: app.id.clone(),
                    output: Some(output.name.clone()),
                    workspace: Some(*workspace),
                    blocked: None,
                },
                None => {
                    let mut detail = app.id.clone();
                    detail.append(" targets ");
                    detail.append(output.name.as_str());
                    detail.append(", which is connected but not enabled");
                    AppTarget {
                        id: app.id.clone(),
                        output: Some(output.name.clone()),
                        workspace: None,
                        blocked: Some(
                            Divergence::new("app_output_disabled", app.id.as_str(), detail),
                        ),
                    }
                },
            },
            None => {
                let mut detail = app.id.clone();
                detail.append(" targets ");
                detail.append(rule.key().as_str());
                detail.append(", which is not connected");
                AppTarget {
                    id: app.id.clone(),
                    output: None,
                    workspace: None,
                    blocked: Some(
                        Divergence::new("app_waiting_for_output", app.id.as_str(), detail),
                    ),
                }
            },
        },
    }
}

/// Where each enabled app should run, in the order of the apps.
pub fn resolve_app_targets(
    apps: &[AppConfig],
    observed: &[Output],
    workspaces: &NameMap<u32>,
) -> (targets: Vec<AppTarget>)
    ensures
        targets.deep_view() == app_targets(
            apps.deep_view(),
            observed.deep_view(),
            workspaces@,
            apps@.len() as int,
        ),
{
    let mut targets: Vec<AppTarget> = Vec::new();
    let mut i: usize = 0;
    assert(targets.deep_view() =~= Seq::empty());
    while i < apps.len()
        invariant
            i <= apps@.len(),
            targets.deep_view() == app_targets(
                apps.deep_view(),
                observed.deep_view(),
                workspaces@,
                i as int,
            ),
        decreases apps@.len() - i,
    {
        let app = &apps[i];
        assert(apps.deep_view()[i as int] == app.deep_view());
        if app.enabled {
            let ghost before = targets.deep_view();
            let target = target_of(app, observed, workspaces);
            let ghost view = target.deep_view();
            targets.push(target);
            assert(targets.deep_view() =~= before.push(view));
        }
        i = i + 1;
    }
    targets
}

/// A command to a window.
pub open spec fn window_command(window_id: i64, rest: Seq<char>) -> Seq<char> {
    "[con_id="@ + decimal_int(window_id as int) + rest
}

fn command_to_window(window_id: i64, rest: &str) -> (command: String)
    ensures
        command@ == window_command(window_id, rest@),
{
    let mut command = "[con_id=".to_owned();
    push_decimal_int(&mut command, window_id);
    command.append(rest);
    command
}

/// The command that moves a window to its workspace, where it has one.
pub open spec fn move_commands(window_id: i64, workspace: Option<u32>) -> Seq<Seq<char>> {
    match workspace {
        Some(workspace) => seq![
            window_command(
                window_id,
                "] move container to workspace number "@ + decimal(workspace as nat),
            ),
        ],
        None => Seq::empty(),
    }
}

/// The command that makes a window fill every output, or its own.
pub open spec fn fullscreen_commands(
    window_id: i64,
    fullscreen: bool,
    span_outputs: bool,
) -> Seq<Seq<char>> {
    if span_outputs {
        seq![window_command(window_id, "] fullscreen enable global"@)]
    } else if fullscreen {
        seq![window_command(window_id, "] fullscreen enable"@)]
    } else {
        Seq::empty()
    }
}

/// The commands that place a window.
pub open spec fn placement(
    window_id: i64,
    workspace: Option<u32>,
    fullscreen: bool,
    span_outputs: bool,
) -> Seq<Seq<char>> {
    move_commands(window_id, workspace) + fullscreen_commands(window_id, fullscreen, span_outputs)
}

/// Commands that place a window and make it fill its output, or every output.
///
/// A window that spans every output pins no workspace, and still has its
/// fullscreen mode set.
pub fn placement_commands(
    window_id: i64,
    workspace: Option<u32>,
    fullscreen: bool,
    span_outputs: bool,
) -> (commands: Vec<String>)
    ensures
        commands.deep_view() == placement(window_id, workspace, fullscreen, span_outputs),
        commands.deep_view() == move_commands(window_id, workspace) + fullscreen_commands(
            window_id,
            fullscreen,
            span_outputs,
        ),
{
    let mut commands: Vec<String> = Vec::new();
    assert(commands.deep_view() =~= Seq::empty());
    if let Some(workspace) = workspace {
        let mut command = command_to_window(window_id, "] move container to workspace number ");
        push_decimal(&mut command, workspace as u64);
        assert(command@ =~= window_command(
            window_id,
            "] move container to workspace number "@ + decimal(workspace as nat),
        ));
        push_command(&mut commands, command);
    }
    if span_outputs {
        push_command(&mut commands, command_to_window(window_id, "] fullscreen enable global"));
    } else if fullscreen {
        push_command(&mut commands, command_to_window(window_id, "] fullscreen enable"));
    }
    assert(commands.deep_view() =~= move_commands(window_id, workspace) + fullscreen_commands(
        window_id,
        fullscreen,
        span_outputs,
    ));
    commands
}

/// The number under which the compositor reports how a window is shown.
pub open spec fn fullscreen_mode(fullscreen: bool, span_outputs: bool) -> int {
    if span_outputs {
        2
    } else if fullscreen {
        1
    } else {
        0
    }
}

/// The fullscreen mode that the compositor reports once placement has taken
/// effect: 0 for a plain window, 1 for its own output, 2 for the whole layout.
pub fn desired_fullscreen_mode(fullscreen: bool, span_outputs: bool) -> (mode: i32)
    ensures
        mode == fullscreen_mode(fullscreen, span_outputs),
        span_outputs ==> mode == 2,
        !span_outputs && fullscreen ==> mode == 1,
        !span_outputs && !fullscreen ==> mode == 0,
{
    if span_outputs {
        2
    } else if fullscreen {
        1
    } else {
        0
    }
}

/// Commands that hide the pointer and park it below a layout.
pub open spec fn parking_commands(layout_height: int) -> Seq<Seq<char>> {
    seq![
        "seat seat0 hide_cursor 1000"@,
        "seat seat0 cursor set 0 "@ + decimal_int(layout_height + 24),
    ]
}

/// Commands that hide the pointer and park it below the layout, out of every
/// output.
pub fn cursor_commands(layout_height: i32) -> (commands: Vec<String>)
    requires
        layout_height + 24 <= i32::MAX,
    ensures
        commands.deep_view() == parking_commands(layout_height as int),
        commands.deep_view() == seq![
            "seat seat0 hide_cursor 1000"@,
            "seat seat0 cursor set 0 "@ + decimal_int(layout_height + 24),
        ],
{
    let mut commands: Vec<String> = Vec::new();
    assert(commands.deep_view() =~= Seq::empty());
    push_command(&mut commands, "seat seat0 hide_cursor 1000".to_owned());
    let mut command = "seat seat0 cursor set 0 ".to_owned();
    push_decimal_int(&mut command, (layout_height + 24) as i64);
    push_command(&mut commands, command);
    assert(commands.deep_view() =~= seq![
        "seat seat0 hide_cursor 1000"@,
        "seat seat0 cursor set 0 "@ + decimal_int(layout_height + 24),
    ]);
    commands
}

} // verus!
