//! One pass: what is done when, and what is said at its end.
use crate::config::{divergence, Divergence, DivergenceView};
use crate::names::same_text;
use crate::reconciler::plan::{cursor_commands, parking_commands};
use crate::text::chars_of;
use vstd::prelude::*;
use vstd::string::*;

verus! {

/// What is said of a command that failed.
pub open spec fn failure_of(command: Seq<char>, result: Option<Seq<char>>) -> Option<DivergenceView> {
    match result {
        Some(error) => Some(divergence("command_failed"@, command, error)),
        None => None,
    }
}

/// What is said of the first `n` commands that failed.
pub open spec fn failures_among(
    commands: Seq<Seq<char>>,
    errors: Seq<Option<Seq<char>>>,
    n: int,
) -> Seq<DivergenceView>
    decreases n,
{
    if n <= 0 {
        Seq::empty()
    } else {
        match failure_of(commands[n - 1], errors[n - 1]) {
            Some(said) => failures_among(commands, errors, n - 1).push(said),
            None => failures_among(commands, errors, n - 1),
        }
    }
}

/// What is said of the commands that failed. `errors` holds what was answered to
/// each command, as far as an answer came; no error means that it worked.
pub fn command_failures(commands: &[String], errors: &[Option<String>]) -> (said: Vec<Divergence>)
    ensures
        said.deep_view() == failures_among(
            commands.deep_view(),
            errors.deep_view(),
            if commands@.len() < errors@.len() {
                commands@.len() as int
            } else {
                errors@.len() as int
            },
        ),
{
    let mut said: Vec<Divergence> = Vec::new();
    let mut i: usize = 0;
    assert(said.deep_view() =~= Seq::empty());
    while i < commands.len() && i < errors.len()
        invariant
            i <= commands@.len(),
            i <= errors@.len(),
            said.deep_view() == failures_among(
                commands.deep_view(),
                errors.deep_view(),
                i as int,
            ),
        decreases commands@.len() - i,
    {
        let ghost before = said.deep_view();
        assert(commands.deep_view()[i as int] == commands@[i as int]@);
        assert(errors.deep_view()[i as int] == errors@[i as int].deep_view());
        if let Some(error) = &errors[i] {
            let made = Divergence::new("command_failed", commands[i].as_str(), error.clone());
            said.push(made);
            assert(said.deep_view() =~= before.push(made.deep_view()));
        }
        i = i + 1;
    }
    said
}

/// What a pass does next.
#[derive(Clone, Copy, Debug, PartialEq, Eq, Structural)]
pub enum Stage {
    /// See which outputs are there.
    LookAtOutputs,
    /// Tell the compositor what is wanted of them, all in one message, so that
    /// outputs that are switched together run in step.
    CommandOutputs,
    /// An output went on or off: leave the layout to settle.
    Settle,
    /// See where everything is now.
    LookAgain,
    /// Set the canvas up, and cut it.
    Projection,
    /// Run the active app.
    Apps,
    /// Make a sink that discards sound.
    NullSink,
    /// Bring each sink to its level.
    Levels,
    /// Park the pointer.
    Cursor,
    /// See which windows are there.
    Windows,
    /// Keep what the outputs settled on.
    Adoption,
    /// Say how it went.
    Report,
    Done,
}

/// What is known of a pass.
#[derive(Clone, Copy, Debug, PartialEq, Eq, Structural)]
pub struct PassFacts {
    /// How many commands went to outputs.
    pub commands: usize,
    /// One of them switched an output on or off.
    pub topology_changed: bool,
    /// A running app is silent.
    pub silent_app: bool,
    pub hide_cursor: bool,
    /// The compositor answers.
    pub connected: bool,
}

/// What comes after a stage. What nothing asks for is left out.
pub open spec fn stage_after(stage: Stage, facts: PassFacts) -> Stage {
    match stage {
        Stage::LookAtOutputs => Stage::CommandOutputs,
        Stage::CommandOutputs => if facts.topology_changed {
            Stage::Settle
        } else if facts.commands > 0 {
            Stage::LookAgain
        } else {
            Stage::Projection
        },
        Stage::Settle => Stage::LookAgain,
        Stage::LookAgain => Stage::Projection,
        Stage::Projection => Stage::Apps,
        Stage::Apps => if facts.silent_app {
            Stage::NullSink
        } else {
            Stage::Levels
        },
        Stage::NullSink => Stage::Levels,
        Stage::Levels => if facts.hide_cursor {
            Stage::Cursor
        } else {
            Stage::Windows
        },
        Stage::Cursor => Stage::Windows,
        Stage::Windows => if facts.connected {
            Stage::Adoption
        } else {
            Stage::Report
        },
        Stage::Adoption => Stage::Report,
        Stage::Report => Stage::Done,
        Stage::Done => Stage::Done,
    }
}

impl Stage {
    /// What comes after this stage.
    pub fn next(self, facts: &PassFacts) -> (stage: Stage)
        ensures
            stage == stage_after(self, *facts),
    {
        match self {
            Stage::LookAtOutputs => Stage::CommandOutputs,
            Stage::CommandOutputs => if facts.topology_changed {
                Stage::Settle
            } else if facts.commands > 0 {
                Stage::LookAgain
            } else {
                Stage::Projection
            },
            Stage::Settle => Stage::LookAgain,
            Stage::LookAgain => Stage::Projection,
            Stage::Projection => Stage::Apps,
            Stage::Apps => if facts.silent_app {
                Stage::NullSink
            } else {
                Stage::Levels
            },
            Stage::NullSink => Stage::Levels,
            Stage::Levels => if facts.hide_cursor {
                Stage::Cursor
            } else {
                Stage::Windows
            },
            Stage::Cursor => Stage::Windows,
            Stage::Windows => if facts.connected {
                Stage::Adoption
            } else {
                Stage::Report
            },
            Stage::Adoption => Stage::Report,
            Stage::Report => Stage::Done,
            Stage::Done => Stage::Done,
        }
    }
}

/// How many stages at most are left.
pub open spec fn stages_left(stage: Stage) -> nat {
    match stage {
        Stage::LookAtOutputs => 12,
        Stage::CommandOutputs => 11,
        Stage::Settle => 10,
        Stage::LookAgain => 9,
        Stage::Projection => 8,
        Stage::Apps => 7,
        Stage::NullSink => 6,
        Stage::Levels => 5,
        Stage::Cursor => 4,
        Stage::Windows => 3,
        Stage::Adoption => 2,
        Stage::Report => 1,
        Stage::Done => 0,
    }
}

/// Every pass ends, and no pass ends without saying how it went.
pub proof fn every_pass_reports(stage: Stage, facts: PassFacts)
    ensures
        stage != Stage::Done ==> stages_left(stage_after(stage, facts)) < stages_left(stage),
        stage_after(stage, facts) == Stage::Done ==> stage == Stage::Report || stage
            == Stage::Done,
{
}

/// The geometry that the projection is derived from was seen after the last
/// command to an output, and after the layout settled where one was switched.
pub proof fn geometry_is_seen_after_commands(stage: Stage, facts: PassFacts)
    ensures
        stage_after(stage, facts) == Stage::Projection ==> stage == Stage::LookAgain || (stage
            == Stage::CommandOutputs && facts.commands == 0 && !facts.topology_changed),
        stage == Stage::CommandOutputs && facts.topology_changed ==> stage_after(stage, facts)
            == Stage::Settle,
        stage_after(Stage::Settle, facts) == Stage::LookAgain,
{
}

/// A pass that cannot reach the compositor keeps nothing of what it believes to
/// see.
pub proof fn blind_pass_adopts_nothing(stage: Stage, facts: PassFacts)
    requires
        !facts.connected,
        stage != Stage::Adoption,
    ensures
        stage_after(stage, facts) != Stage::Adoption,
{
}

/// A text without the slashes at its end.
pub open spec fn without_trailing_slashes(text: Seq<char>) -> Seq<char>
    decreases text.len(),
{
    if text.len() > 0 && text.last() == '/' {
        without_trailing_slashes(text.drop_last())
    } else {
        text
    }
}

/// The link to a page of the documentation.
pub open spec fn docs_link(base: Seq<char>, path: Seq<char>) -> Seq<char> {
    without_trailing_slashes(base) + "/"@ + path
}

fn trimmed(base: &str) -> (text: String)
    ensures
        text@ == without_trailing_slashes(base@),
{
    let chars = chars_of(base);
    let mut len: usize = chars.len();
    assert(chars@.take(len as int) =~= chars@);
    while len > 0 && chars[len - 1] == '/'
        invariant
            len <= chars@.len(),
            without_trailing_slashes(chars@) == without_trailing_slashes(chars@.take(len as int)),
        decreases len,
    {
        assert(chars@.take(len as int).drop_last() =~= chars@.take(len - 1));
        len = len - 1;
    }
    let mut text = String::new();
    let mut i: usize = 0;
    assert(text@ =~= chars@.take(0));
    while i < len
        invariant
            i <= len <= chars@.len(),
            text@ == chars@.take(i as int),
        decreases len - i,
    {
        text.push(chars[i]);
        assert(text@ =~= chars@.take(i + 1));
        i = i + 1;
    }
    text
}

/// A divergence with its link. `path` is the page that explains its kind, where
/// there is one.
pub open spec fn linked(said: DivergenceView, base: Seq<char>, path: Option<Seq<char>>) -> DivergenceView {
    DivergenceView {
        docs_url: match path {
            Some(path) => Some(docs_link(base, path)),
            None => None,
        },
        ..said
    }
}

/// Gives every divergence its link.
pub fn link_divergences(said: Vec<Divergence>, base: &str, paths: &[Option<String>]) -> (linked_all:
    Vec<Divergence>)
    requires
        paths@.len() == said@.len(),
    ensures
        linked_all@.len() == said@.len(),
        forall|i: int|
            0 <= i < said@.len() ==> (#[trigger] linked_all@[i]).deep_view() == linked(
                said@[i].deep_view(),
                base@,
                paths@[i].deep_view(),
            ),
{
    let root = trimmed(base);
    let mut linked_all: Vec<Divergence> = Vec::new();
    let mut i: usize = 0;
    while i < said.len()
        invariant
            i <= said@.len(),
            paths@.len() == said@.len(),
            root@ == without_trailing_slashes(base@),
            linked_all@.len() == i,
            forall|j: int|
                0 <= j < i ==> (#[trigger] linked_all@[j]).deep_view() == linked(
                    said@[j].deep_view(),
                    base@,
                    paths@[j].deep_view(),
                ),
        decreases said@.len() - i,
    {
        let mut divergence = said[i].clone();
        divergence.docs_url = match &paths[i] {
            Some(path) => {
                let mut link = root.clone();
                link.append("/");
                link.append(path.as_str());
                Some(link)
            },
            None => None,
        };
        linked_all.push(divergence);
        i = i + 1;
    }
    linked_all
}

/// How far what is there is what is wanted.
#[derive(Clone, Copy, Debug, PartialEq, Eq, Structural)]
pub enum SyncState {
    Reconciling,
    Synced,
    Degraded,
}

/// What is said of the last pass.
#[derive(Debug)]
pub struct Status {
    pub state: SyncState,
    pub divergences: Vec<Divergence>,
    pub last_reconciled: Option<u64>,
    /// The revision that the pass applied.
    pub revision: u64,
    /// No edit is being tried out.
    pub committed: bool,
    /// The newest revision.
    pub current_revision: u64,
}

/// What a pass is about.
#[derive(Clone, Copy, Debug, PartialEq, Eq, Structural)]
pub struct PassInfo {
    pub revision: u64,
    pub preview: bool,
    pub current_revision: u64,
}

/// The status while a pass runs: what was said before still stands.
pub fn begin_pass(previous: Status, info: PassInfo) -> (status: Status)
    ensures
        status == (Status {
            state: SyncState::Reconciling,
            divergences: previous.divergences,
            last_reconciled: previous.last_reconciled,
            revision: info.revision,
            committed: !info.preview,
            current_revision: info.current_revision,
        }),
{
    Status {
        state: SyncState::Reconciling,
        divergences: previous.divergences,
        last_reconciled: previous.last_reconciled,
        revision: info.revision,
        committed: !info.preview,
        current_revision: info.current_revision,
    }
}

/// What is said where the compositor does not answer.
pub open spec fn unreachable_compositor() -> DivergenceView {
    divergence(
        "sway_unreachable"@,
        "sway"@,
        "the compositor's IPC socket is not answering, so this pass verified nothing and the outputs below are the last ones seen. A compositor that restarted has a new socket path, which a running daemon cannot pick up: restart Suede."@,
    )
}

/// Whatever was said, and that the compositor does not answer, where it does not.
pub open spec fn with_reachability(said: Seq<DivergenceView>, connected: bool) -> Seq<DivergenceView> {
    if connected {
        said
    } else {
        said.push(unreachable_compositor())
    }
}

/// A pass that could not reach the compositor has verified nothing: that is one
/// more divergence.
pub fn note_reachability(said: Vec<Divergence>, connected: bool) -> (noted: Vec<Divergence>)
    ensures
        noted.deep_view() == with_reachability(said.deep_view(), connected),
{
    let mut noted = said;
    if !connected {
        let ghost before = noted.deep_view();
        let made = Divergence::new(
            "sway_unreachable",
            "sway",
            "the compositor's IPC socket is not answering, so this pass verified nothing and the outputs below are the last ones seen. A compositor that restarted has a new socket path, which a running daemon cannot pick up: restart Suede.".to_owned(),
        );
        noted.push(made);
        assert(noted.deep_view() =~= before.push(made.deep_view()));
    }
    noted
}

/// How a pass that had so much to say ended.
pub open spec fn state_after(said: nat) -> SyncState {
    if said == 0 {
        SyncState::Synced
    } else {
        SyncState::Degraded
    }
}

/// The status at the end of a pass: in order if and only if nothing is to be said.
/// `info` is read at the end, so that an edit that came in meanwhile shows as a
/// newer revision than the one that was applied.
pub fn conclude(divergences: Vec<Divergence>, now: u64, info: PassInfo) -> (status: Status)
    ensures
        status.state == state_after(divergences@.len()),
        status.state == if divergences@.len() == 0 {
            SyncState::Synced
        } else {
            SyncState::Degraded
        },
        status.divergences == divergences,
        status.last_reconciled == Some(now),
        status.revision == info.revision,
        status.committed == !info.preview,
        status.current_revision == info.current_revision,
{
    Status {
        state: if divergences.len() == 0 {
            SyncState::Synced
        } else {
            SyncState::Degraded
        },
        divergences,
        last_reconciled: Some(now),
        revision: info.revision,
        committed: !info.preview,
        current_revision: info.current_revision,
    }
}

/// A pass that cannot reach the compositor never reports that all is well.
pub proof fn blind_pass_is_not_in_order(said: Seq<DivergenceView>)
    ensures
        with_reachability(said, false).len() > 0,
        with_reachability(said, false).last() == unreachable_compositor(),
        with_reachability(said, true) == said,
{
}

/// The windows that an app owns.
#[derive(Debug)]
pub struct AppWindows {
    pub id: String,
    pub window_ids: Vec<i64>,
}

/// An app owns a window.
pub open spec fn owns(app: AppWindows, window: i64) -> bool {
    app.window_ids@.contains(window)
}

/// The app that owns a window, among the first `n`. Where two claim it, the later
/// has it.
pub open spec fn owner_among(apps: Seq<AppWindows>, window: i64, n: int) -> Option<Seq<char>>
    decreases n,
{
    if n <= 0 {
        None
    } else if owns(apps[n - 1], window) {
        Some(apps[n - 1].id@)
    } else {
        owner_among(apps, window, n - 1)
    }
}

fn holds(ids: &Vec<i64>, window: i64) -> (held: bool)
    ensures
        held == ids@.contains(window),
{
    let mut i: usize = 0;
    while i < ids.len()
        invariant
            i <= ids@.len(),
            forall|j: int| 0 <= j < i ==> ids@[j] != window,
        decreases ids@.len() - i,
    {
        if ids[i] == window {
            assert(ids@[i as int] == window);
            return true;
        }
        i = i + 1;
    }
    false
}

/// The app that owns a window.
pub fn window_owner(apps: &[AppWindows], window: i64) -> (owner: Option<String>)
    ensures
        owner.deep_view() == owner_among(apps@, window, apps@.len() as int),
{
    let mut i: usize = apps.len();
    while i > 0
        invariant
            i <= apps@.len(),
            owner_among(apps@, window, apps@.len() as int) == owner_among(apps@, window, i as int),
        decreases i,
    {
        if holds(&apps[i - 1].window_ids, window) {
            return Some(apps[i - 1].id.clone());
        }
        i = i - 1;
    }
    None
}

/// Where the pointer is parked.
#[derive(Clone, Copy, Debug, PartialEq, Eq, Structural)]
pub struct Parking {
    pub parked_at: Option<i32>,
}

impl Parking {
    /// The commands that park the pointer below a layout, if it is not parked
    /// there.
    pub fn commands(&self, layout_height: i32) -> (commands: Option<Vec<String>>)
        requires
            layout_height + 24 <= i32::MAX,
        ensures
            commands is None <==> self.parked_at == Some(layout_height),
            commands matches Some(list) ==> list.deep_view() == parking_commands(
                layout_height as int,
            ),
            commands matches Some(list) ==> list.deep_view() == seq![
                "seat seat0 hide_cursor 1000"@,
                "seat seat0 cursor set 0 "@ + crate::text::decimal_int(layout_height + 24),
            ],
    {
        if let Some(height) = self.parked_at {
            if height == layout_height {
                return None;
            }
        }
        Some(cursor_commands(layout_height))
    }

    /// Every command worked: the pointer stays parked until the layout changes.
    /// After one that failed it is tried again.
    pub fn ran(&mut self, layout_height: i32, worked: bool)
        ensures
            final(self).parked_at == if worked {
                Some(layout_height)
            } else {
                old(self).parked_at
            },
    {
        if worked {
            self.parked_at = Some(layout_height);
        }
    }
}

/// What the compositor reports.
#[derive(Debug)]
pub enum CompositorEvent {
    OutputsMayHaveChanged,
    Window { change: String },
    Shutdown,
    /// Reports were missed.
    Lagged,
}

/// Why a report asks for a pass, if it does. A window that is new may be one that
/// waits to be placed.
pub open spec fn reason_for(event: CompositorEvent) -> Option<Seq<char>> {
    match event {
        CompositorEvent::OutputsMayHaveChanged => Some("output event"@),
        CompositorEvent::Window { change } => if change@ == "new"@ || change@ == "close"@ {
            Some("window event"@)
        } else {
            None
        },
        CompositorEvent::Shutdown => None,
        CompositorEvent::Lagged => Some("event lag"@),
    }
}

/// Why a report asks for a pass, if it does.
pub fn pass_reason(event: &CompositorEvent) -> (reason: Option<&'static str>)
    ensures
        match reason {
            Some(text) => reason_for(*event) == Some(text@),
            None => reason_for(*event) is None,
        },
{
    match event {
        CompositorEvent::OutputsMayHaveChanged => Some("output event"),
        CompositorEvent::Window { change } => if same_text(change.as_str(), "new") || same_text(
            change.as_str(),
            "close",
        ) {
            Some("window event")
        } else {
            None
        },
        CompositorEvent::Shutdown => None,
        CompositorEvent::Lagged => Some("event lag"),
    }
}

/// How many seconds lie between two looks at the outputs.
pub open spec fn seconds_between(configured: u64) -> u64 {
    if configured == 0 {
        1
    } else {
        configured
    }
}

/// How many seconds lie between two looks at the outputs: never none.
pub fn poll_seconds(configured: u64) -> (seconds: u64)
    ensures
        seconds == seconds_between(configured),
        seconds == if configured == 0 {
            1
        } else {
            configured
        },
{
    if configured == 0 {
        1
    } else {
        configured
    }
}

} // verus!
