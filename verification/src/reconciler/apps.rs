//! The apps of a pass: which one runs, where it is shown, and how loud it is.
use crate::config::{
    divergence, AppConfig, AppView, DesiredState, DesiredView, Divergence, DivergenceView,
};
use crate::model::{OutputMatch, OutputMatchView, Real};
use crate::names::same_text;
use vstd::prelude::*;
use vstd::string::*;

verus! {

/// An app as it is run: enabled only if it is the active one, fullscreen, and
/// over the canvas, or over every output where there is none.
pub open spec fn effective(app: AppView, active: Option<Seq<char>>, canvas: Option<Seq<char>>) -> AppView {
    AppView {
        enabled: active == Some(app.id),
        fullscreen: true,
        output: match canvas {
            Some(name) => Some(
                OutputMatchView { name: Some(name), make: None, model: None, serial: None },
            ),
            None => None,
        },
        span_outputs: canvas is None,
        ..app
    }
}

/// A name, where there is one.
pub open spec fn name_of(name: Option<&str>) -> Option<Seq<char>> {
    match name {
        Some(name) => Some(name@),
        None => None,
    }
}

/// The apps as they are run: exactly the active one, over the whole canvas.
pub fn effective_apps(desired: &DesiredState, canvas_output: Option<&str>) -> (apps: Vec<AppConfig>)
    ensures
        apps.deep_view() == desired.apps.deep_view().map_values(
            |app: AppView|
                effective(app, desired.active_app.deep_view(), name_of(canvas_output)),
        ),
{
    let ghost active = desired.active_app.deep_view();
    let mut apps: Vec<AppConfig> = Vec::new();
    let mut i: usize = 0;
    while i < desired.apps.len()
        invariant
            i <= desired.apps@.len(),
            apps@.len() == i,
            active == desired.active_app.deep_view(),
            forall|j: int|
                0 <= j < i ==> (#[trigger] apps@[j]).deep_view() == effective(
                    desired.apps@[j].deep_view(),
                    active,
                    name_of(canvas_output),
                ),
        decreases desired.apps@.len() - i,
    {
        let mut app = desired.apps[i].clone();
        app.enabled = match &desired.active_app {
            Some(active) => same_text(active.as_str(), app.id.as_str()),
            None => false,
        };
        app.fullscreen = true;
        match canvas_output {
            Some(name) => {
                app.output = Some(OutputMatch::by_name(name));
                app.span_outputs = false;
            },
            None => {
                app.output = None;
                app.span_outputs = true;
            },
        }
        assert(app.deep_view() == effective(
            desired.apps@[i as int].deep_view(),
            active,
            name_of(canvas_output),
        ));
        apps.push(app);
        i = i + 1;
    }
    assert(apps.deep_view() =~= desired.apps.deep_view().map_values(
        |app: AppView| effective(app, active, name_of(canvas_output)),
    ));
    apps
}

/// At most one app runs: where the identifiers differ, no two apps are enabled.
pub proof fn only_one_app_runs(desired: DesiredView, canvas: Option<Seq<char>>, i: int, j: int)
    requires
        0 <= i < desired.apps.len(),
        0 <= j < desired.apps.len(),
        desired.apps[i].id != desired.apps[j].id,
    ensures
        !(effective(desired.apps[i], desired.active_app, canvas).enabled && effective(
            desired.apps[j],
            desired.active_app,
            canvas,
        ).enabled),
{
}

/// A sink of sound. Its level is not always known.
#[derive(Debug, PartialEq, Eq)]
pub struct Sink {
    pub id: String,
    pub gain_db: Option<Real>,
}

/// A running app whose sound goes nowhere.
pub open spec fn is_silent(app: AppView) -> bool {
    app.enabled && (app.audio matches Some(audio) && audio.output is None)
}

/// Whether a sink that discards sound is needed: some running app is silent.
pub fn needs_null_sink(apps: &[AppConfig]) -> (needed: bool)
    ensures
        needed == exists|i: int| 0 <= i < apps@.len() && is_silent(#[trigger] apps.deep_view()[i]),
{
    let mut i: usize = 0;
    while i < apps.len()
        invariant
            i <= apps@.len(),
            forall|j: int| 0 <= j < i ==> !is_silent(#[trigger] apps.deep_view()[j]),
        decreases apps@.len() - i,
    {
        let app = &apps[i];
        assert(apps.deep_view()[i as int] == app.deep_view());
        let silent = match &app.audio {
            Some(audio) => audio.output.is_none(),
            None => false,
        };
        if app.enabled && silent {
            return true;
        }
        i = i + 1;
    }
    false
}

/// The sink that a running app asks for.
pub open spec fn sink_asked_for(app: AppView) -> Option<Seq<char>> {
    match app.audio {
        Some(audio) => if app.enabled {
            audio.output
        } else {
            None
        },
        None => None,
    }
}

fn asked_for<'a>(app: &'a AppConfig) -> (asked: Option<&'a String>)
    ensures
        match asked {
            Some(name) => sink_asked_for(app.deep_view()) == Some(name@),
            None => sink_asked_for(app.deep_view()) is None,
        },
{
    if !app.enabled {
        return None;
    }
    match &app.audio {
        Some(audio) => match &audio.output {
            Some(name) => Some(name),
            None => None,
        },
        None => None,
    }
}

/// A sink is there.
pub open spec fn is_present(sinks: Seq<Sink>, name: Seq<char>) -> bool {
    exists|i: int| 0 <= i < sinks.len() && (#[trigger] sinks[i]).id@ == name
}

fn present(sinks: &[Sink], name: &str) -> (present: bool)
    ensures
        present == is_present(sinks@, name@),
{
    let mut i: usize = 0;
    while i < sinks.len()
        invariant
            i <= sinks@.len(),
            forall|j: int| 0 <= j < i ==> (#[trigger] sinks@[j]).id@ != name@,
        decreases sinks@.len() - i,
    {
        if same_text(sinks[i].id.as_str(), name) {
            return true;
        }
        i = i + 1;
    }
    false
}

/// The sinks that are done with, and the apps that were looked at.
#[derive(Debug)]
pub struct GainRound {
    pub next: usize,
    pub applied: Vec<String>,
}

/// The next app, from `i` on, whose sink has to be set, and the sinks that are
/// done with by then. A sink that is missing, done with, or already at its level
/// is passed over.
pub open spec fn next_gain(
    apps: Seq<AppView>,
    sinks: Seq<Sink>,
    settled: Seq<bool>,
    i: int,
    applied: Seq<Seq<char>>,
) -> (Option<int>, Seq<Seq<char>>)
    decreases apps.len() - i,
{
    if i >= apps.len() || i < 0 {
        (None, applied)
    } else {
        match sink_asked_for(apps[i]) {
            Some(name) => if !is_present(sinks, name) || applied.contains(name) {
                next_gain(apps, sinks, settled, i + 1, applied)
            } else if settled[i] {
                next_gain(apps, sinks, settled, i + 1, applied.push(name))
            } else {
                (Some(i), applied)
            },
            None => next_gain(apps, sinks, settled, i + 1, applied),
        }
    }
}

fn listed(names: &Vec<String>, name: &str) -> (held: bool)
    ensures
        held == names.deep_view().contains(name@),
{
    let mut i: usize = 0;
    while i < names.len()
        invariant
            i <= names@.len(),
            forall|j: int| 0 <= j < i ==> names.deep_view()[j] != name@,
        decreases names@.len() - i,
    {
        assert(names.deep_view()[i as int] == names@[i as int]@);
        if same_text(names[i].as_str(), name) {
            return true;
        }
        i = i + 1;
    }
    false
}

impl GainRound {
    /// Nothing looked at yet.
    pub fn new() -> (round: Self)
        ensures
            round.next == 0,
            round.applied.deep_view() == Seq::<Seq<char>>::empty(),
    {
        let round = GainRound { next: 0, applied: Vec::new() };
        assert(round.applied.deep_view() =~= Seq::empty());
        round
    }

    /// The next app whose sink has to be set to the level that it asks for.
    /// `settled` says of each app whether its sink is at that level already.
    pub fn next(&mut self, apps: &[AppConfig], sinks: &[Sink], settled: &[bool]) -> (app: Option<
        usize,
    >)
        requires
            settled@.len() == apps@.len(),
            old(self).next <= apps@.len(),
        ensures
            match app {
                Some(i) => next_gain(
                    apps.deep_view(),
                    sinks@,
                    settled@,
                    old(self).next as int,
                    old(self).applied.deep_view(),
                ) == (Some(i as int), final(self).applied.deep_view()) && i < apps@.len()
                    && final(self).next == i + 1,
                None => next_gain(
                    apps.deep_view(),
                    sinks@,
                    settled@,
                    old(self).next as int,
                    old(self).applied.deep_view(),
                ) == (None::<int>, final(self).applied.deep_view()) && final(self).next
                    == apps@.len(),
            },
    {
        let ghost wanted = next_gain(
            apps.deep_view(),
            sinks@,
            settled@,
            self.next as int,
            self.applied.deep_view(),
        );
        while self.next < apps.len()
            invariant
                self.next <= apps@.len(),
                settled@.len() == apps@.len(),
                wanted == next_gain(
                    apps.deep_view(),
                    sinks@,
                    settled@,
                    old(self).next as int,
                    old(self).applied.deep_view(),
                ),
                wanted == next_gain(
                    apps.deep_view(),
                    sinks@,
                    settled@,
                    self.next as int,
                    self.applied.deep_view(),
                ),
            decreases apps@.len() - self.next,
        {
            let i: usize = self.next;
            assert(apps.deep_view()[i as int] == apps@[i as int].deep_view());
            self.next = i + 1;
            if let Some(name) = asked_for(&apps[i]) {
                if present(sinks, name.as_str()) && !listed(&self.applied, name.as_str()) {
                    if settled[i] {
                        let ghost before = self.applied.deep_view();
                        self.applied.push(name.clone());
                        assert(self.applied.deep_view() =~= before.push(name@));
                    } else {
                        return Some(i);
                    }
                }
            }
        }
        None
    }

    /// The sink of an app was set. One that could not be set may be asked for
    /// again by another app.
    pub fn set(&mut self, app: &AppConfig)
        requires
            sink_asked_for(app.deep_view()) is Some,
        ensures
            final(self).next == old(self).next,
            final(self).applied.deep_view() == old(self).applied.deep_view().push(
                sink_asked_for(app.deep_view())->0,
            ),
    {
        if let Some(name) = asked_for(app) {
            let ghost before = self.applied.deep_view();
            self.applied.push(name.clone());
            assert(self.applied.deep_view() =~= before.push(name@));
        }
    }
}

/// No sink is set twice: the one that is set next is there, and is not done with.
pub proof fn each_sink_is_set_once(
    apps: Seq<AppView>,
    sinks: Seq<Sink>,
    settled: Seq<bool>,
    i: int,
    applied: Seq<Seq<char>>,
)
    requires
        0 <= i,
    ensures
        match next_gain(apps, sinks, settled, i, applied) {
            (Some(k), done) => i <= k < apps.len() && (sink_asked_for(apps[k]) matches Some(name)
                && is_present(sinks, name) && !done.contains(name) && !settled[k]),
            (None, _) => true,
        },
        applied.is_prefix_of(next_gain(apps, sinks, settled, i, applied).1),
    decreases apps.len() - i,
{
    if i < apps.len() {
        match sink_asked_for(apps[i]) {
            Some(name) => {
                if is_present(sinks, name) && !applied.contains(name) && settled[i] {
                    each_sink_is_set_once(apps, sinks, settled, i + 1, applied.push(name));
                    let after = next_gain(apps, sinks, settled, i + 1, applied.push(name)).1;
                    assert(applied.push(name).is_prefix_of(after));
                    assert(applied =~= after.take(applied.len() as int)) by {
                        assert(applied.push(name) =~= after.take(applied.len() as int + 1));
                        assert forall|j: int| 0 <= j < applied.len() implies applied[j]
                            == after[j] by {
                            assert(applied.push(name)[j] == applied[j]);
                            assert(after.take(applied.len() as int + 1)[j] == after[j]);
                        }
                    }
                } else {
                    each_sink_is_set_once(apps, sinks, settled, i + 1, applied);
                }
            },
            None => {
                each_sink_is_set_once(apps, sinks, settled, i + 1, applied);
            },
        }
    }
}

/// What is said of a sink that could not be set. `level` is the level as text.
pub fn gain_failed(sink: &str, level: &str, error: &str) -> (said: Divergence)
    ensures
        said.deep_view() == divergence(
            "audio_gain_not_applied"@,
            sink@,
            "could not set "@ + sink@ + " to "@ + level@ + " dB: "@ + error@,
        ),
{
    let mut detail = "could not set ".to_owned();
    detail.append(sink);
    detail.append(" to ");
    detail.append(level);
    detail.append(" dB: ");
    detail.append(error);
    Divergence::new("audio_gain_not_applied", sink, detail)
}

/// What is said of an app whose sink is not there.
pub open spec fn sink_missing(app: AppView, sinks: Seq<Sink>) -> Option<DivergenceView> {
    match sink_asked_for(app) {
        Some(name) => if is_present(sinks, name) {
            None
        } else {
            Some(
                divergence(
                    "audio_sink_not_present"@,
                    app.id,
                    app.id + " requests audio sink "@ + name + ", which is not present"@,
                ),
            )
        },
        None => None,
    }
}

/// What is said of the first `n` apps whose sink is not there.
pub open spec fn missing_among(apps: Seq<AppView>, sinks: Seq<Sink>, n: int) -> Seq<DivergenceView>
    decreases n,
{
    if n <= 0 {
        Seq::empty()
    } else {
        match sink_missing(apps[n - 1], sinks) {
            Some(said) => missing_among(apps, sinks, n - 1).push(said),
            None => missing_among(apps, sinks, n - 1),
        }
    }
}

/// What is said of the sinks that are missing; nothing where no sink is known at all.
pub open spec fn said_of_sinks(apps: Seq<AppView>, sinks: Seq<Sink>) -> Seq<DivergenceView> {
    if sinks.len() == 0 {
        Seq::empty()
    } else {
        missing_among(apps, sinks, apps.len() as int)
    }
}

/// What is said of apps whose sink is not there. Where no sink is known at all,
/// nothing is known about sound yet, and nothing is said.
pub fn audio_divergences(apps: &[AppConfig], sinks: &[Sink]) -> (said: Vec<Divergence>)
    ensures
        said.deep_view() == said_of_sinks(apps.deep_view(), sinks@),
        said.deep_view() == if sinks@.len() == 0 {
            Seq::empty()
        } else {
            missing_among(apps.deep_view(), sinks@, apps@.len() as int)
        },
{
    let mut said: Vec<Divergence> = Vec::new();
    assert(said.deep_view() =~= Seq::empty());
    if sinks.len() == 0 {
        return said;
    }
    let mut i: usize = 0;
    while i < apps.len()
        invariant
            i <= apps@.len(),
            said.deep_view() == missing_among(apps.deep_view(), sinks@, i as int),
        decreases apps@.len() - i,
    {
        let app = &apps[i];
        let ghost before = said.deep_view();
        assert(apps.deep_view()[i as int] == app.deep_view());
        if let Some(name) = asked_for(app) {
            if !present(sinks, name.as_str()) {
                let mut detail = app.id.clone();
                detail.append(" requests audio sink ");
                detail.append(name.as_str());
                detail.append(", which is not present");
                let divergence = Divergence::new("audio_sink_not_present", app.id.as_str(), detail);
                said.push(divergence);
                assert(said.deep_view() =~= before.push(divergence.deep_view()));
            }
        }
        i = i + 1;
    }
    said
}

} // verus!
