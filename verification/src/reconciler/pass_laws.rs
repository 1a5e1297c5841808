//! What holds of a pass over the outputs, the programs and their sound.
use crate::config::{AdoptedView, AppView, DivergenceView, OutputConfig, OutputConfigView};
use crate::model::{first_match, OutputMatchView, OutputView};
use crate::model_laws::is_as_stated;
use crate::reconciler::adoption::{
    are_candidates, event_of, has_display, is_candidate, kept_from, pin_from, pinned, seen_after,
    went_wrong, Candidate, Pin,
};
use crate::reconciler::apps::{
    effective, is_present, is_silent, missing_among, name_of, next_gain, said_of_sinks,
    sink_asked_for, sink_missing, Sink,
};
use crate::reconciler::pass::{
    failures_among, linked, owner_among, reason_for, seconds_between, stage_after, state_after,
    with_reachability, without_trailing_slashes, AppWindows, CompositorEvent, PassFacts, Stage,
    SyncState,
};
use crate::text::{occurs_at, occurs_in};
use vstd::prelude::*;
use vstd::string::*;

verus! {

/// The active program alone is enabled. It fills its output; with a canvas that is the
/// canvas, without one it spans them all. Nothing else about a program changes.
pub proof fn active_program_fills_the_wall(
    app: AppView,
    active: Option<Seq<char>>,
    canvas: Option<Seq<char>>,
)
    ensures
        ({
            let run = effective(app, active, canvas);
            &&& run.enabled <==> active is Some && active->0 == app.id
            &&& run.fullscreen
            &&& run.id == app.id
            &&& run.audio == app.audio
            &&& canvas is None ==> run.span_outputs && run.output is None
            &&& canvas matches Some(name) ==> !run.span_outputs && run.output == Some(
                OutputMatchView { name: Some(name), make: None, model: None, serial: None },
            )
        }),
{
}

/// A program asks for a sink exactly where it is enabled and its sound names one; it is
/// silent where it is enabled and its sound names none.
pub proof fn programs_ask_for_their_sink(app: AppView, sinks: Seq<Sink>)
    ensures
        sink_asked_for(app) is Some <==> app.enabled && app.audio is Some
            && app.audio->0.output is Some,
        sink_asked_for(app) matches Some(name) ==> app.audio->0.output == Some(name),
        is_silent(app) <==> app.enabled && app.audio is Some && app.audio->0.output is None,
        sink_missing(app, sinks) is Some <==> app.enabled && app.audio is Some
            && app.audio->0.output is Some && forall|i: int|
            0 <= i < sinks.len() ==> (#[trigger] sinks[i]).id@ != app.audio->0.output->0,
        sink_missing(app, sinks) matches Some(said) ==> said == (DivergenceView {
            kind: "audio_sink_not_present"@,
            subject: app.id,
            detail: app.id + " requests audio sink "@ + app.audio->0.output->0
                + ", which is not present"@,
            docs_url: None,
        }),
{
    if app.audio is Some && app.audio->0.output is Some {
        let name = app.audio->0.output->0;
        if is_present(sinks, name) {
            let i = choose|i: int| 0 <= i < sinks.len() && (#[trigger] sinks[i]).id@ == name;
            assert(sinks[i].id@ == name);
        } else {
            assert forall|i: int| 0 <= i < sinks.len() implies (#[trigger] sinks[i]).id@
                != name by {
                if sinks[i].id@ =~= name {
                    assert(is_present(sinks, name));
                }
            }
        }
    }
}

/// Every program whose sink is missing is reported, in order, and no other is.
pub proof fn missing_sinks_are_reported(apps: Seq<AppView>, sinks: Seq<Sink>, n: int, i: int) -> (k:
    int)
    requires
        0 <= i < n <= apps.len(),
    ensures
        sink_missing(apps[i], sinks) is Some ==> 0 <= k < missing_among(apps, sinks, n).len()
            && Some(missing_among(apps, sinks, n)[k]) == sink_missing(apps[i], sinks),
        missing_among(apps, sinks, n).len() == missing_among(apps, sinks, n - 1).len() + (
        if sink_missing(apps[n - 1], sinks) is Some {
            1int
        } else {
            0
        }),
    decreases n,
{
    let before = missing_among(apps, sinks, n - 1);
    if i == n - 1 {
        before.len() as int
    } else {
        let k = missing_sinks_are_reported(apps, sinks, n - 1, i);
        if sink_missing(apps[i], sinks) is Some {
            assert(missing_among(apps, sinks, n)[k] == before[k]);
        }
        k
    }
}

/// A program whose sink is there, is not at its level and was not seen to before is the
/// next or comes after the next; none that asks for such a sink is passed over.
pub proof fn no_sink_is_passed_over(
    apps: Seq<AppView>,
    sinks: Seq<Sink>,
    settled: Seq<bool>,
    from: int,
    applied: Seq<Seq<char>>,
    j: int,
)
    requires
        0 <= from <= j < apps.len(),
        sink_asked_for(apps[j]) is Some,
        is_present(sinks, sink_asked_for(apps[j])->0),
    ensures
        match next_gain(apps, sinks, settled, from, applied) {
            (Some(k), done) => j < k ==> done.contains(sink_asked_for(apps[j])->0),
            (None, done) => done.contains(sink_asked_for(apps[j])->0),
        },
    decreases apps.len() - from,
{
    let name = sink_asked_for(apps[j])->0;
    match sink_asked_for(apps[from]) {
        Some(own) => {
            if !is_present(sinks, own) || applied.contains(own) {
                if from == j {
                    lemma_applied_stays(apps, sinks, settled, from + 1, applied, name);
                } else {
                    no_sink_is_passed_over(apps, sinks, settled, from + 1, applied, j);
                }
            } else if settled[from] {
                assert(applied.push(own)[applied.len() as int] == own);
                if from == j {
                    lemma_applied_stays(apps, sinks, settled, from + 1, applied.push(own), name);
                } else {
                    no_sink_is_passed_over(apps, sinks, settled, from + 1, applied.push(own), j);
                }
            }
        },
        None => {
            no_sink_is_passed_over(apps, sinks, settled, from + 1, applied, j);
        },
    }
}

proof fn lemma_applied_stays(
    apps: Seq<AppView>,
    sinks: Seq<Sink>,
    settled: Seq<bool>,
    from: int,
    applied: Seq<Seq<char>>,
    name: Seq<char>,
)
    requires
        0 <= from,
        applied.contains(name),
    ensures
        next_gain(apps, sinks, settled, from, applied).1.contains(name),
    decreases apps.len() - from,
{
    if from < apps.len() {
        match sink_asked_for(apps[from]) {
            Some(own) => {
                if !is_present(sinks, own) || applied.contains(own) {
                    lemma_applied_stays(apps, sinks, settled, from + 1, applied, name);
                } else if settled[from] {
                    let i = choose|i: int| 0 <= i < applied.len() && applied[i] == name;
                    assert(applied.push(own)[i] == name);
                    lemma_applied_stays(apps, sinks, settled, from + 1, applied.push(own), name);
                }
            },
            None => {
                lemma_applied_stays(apps, sinks, settled, from + 1, applied, name);
            },
        }
    }
}

/// Something went wrong with a display exactly where its name occurs in what some
/// report is about.
pub proof fn reports_name_what_went_wrong(divergences: Seq<DivergenceView>, name: Seq<char>)
    ensures
        went_wrong(divergences, name) <==> exists|i: int, start: int|
            0 <= i < divergences.len() && 0 <= start <= divergences[i].subject.len() - name.len()
                && #[trigger] divergences[i].subject.subrange(start, start + name.len()) == name,
{
    if went_wrong(divergences, name) {
        let i = choose|i: int|
            0 <= i < divergences.len() && occurs_in((#[trigger] divergences[i]).subject, name);
        let start = choose|start: int|
            occurs_at(divergences[i].subject, name, start);
        assert(divergences[i].subject.subrange(start, start + name.len()) == name);
    }
    if exists|i: int, start: int|
        0 <= i < divergences.len() && 0 <= start <= divergences[i].subject.len() - name.len()
            && #[trigger] divergences[i].subject.subrange(start, start + name.len()) == name {
        let (i, start) = choose|i: int, start: int|
            0 <= i < divergences.len() && 0 <= start <= divergences[i].subject.len() - name.len()
                && #[trigger] divergences[i].subject.subrange(start, start + name.len()) == name;
        assert(occurs_at(divergences[i].subject, name, start));
        assert(occurs_in(divergences[i].subject, name));
    }
}

/// Of every display that was seen the last sight is remembered, and of every other the
/// one before.
pub proof fn last_sight_is_remembered(
    history: Map<Seq<char>, OutputView>,
    observed: Seq<OutputView>,
    n: int,
    name: Seq<char>,
)
    requires
        0 <= n <= observed.len(),
    ensures
        ({
            let seen = seen_after(history, observed, n);
            &&& (forall|i: int| 0 <= i < n ==> (#[trigger] observed[i]).name != name)
                ==> seen.dom().contains(name) == history.dom().contains(name) && (
            history.dom().contains(name) ==> seen[name] == history[name])
            &&& forall|i: int|
                0 <= i < n && (#[trigger] observed[i]).name == name && (forall|j: int|
                    i < j < n ==> (#[trigger] observed[j]).name != name) ==> seen.dom().contains(
                    name,
                ) && seen[name] == observed[i]
        }),
    decreases n,
{
    if n > 0 {
        last_sight_is_remembered(history, observed, n - 1, name);
        assert forall|i: int|
            0 <= i < n && (#[trigger] observed[i]).name == name && (forall|j: int|
                i < j < n ==> (#[trigger] observed[j]).name != name) implies seen_after(
            history,
            observed,
            n,
        ).dom().contains(name) && seen_after(history, observed, n)[name] == observed[i] by {
            if i < n - 1 {
                assert(observed[n - 1].name != name);
            }
        }
    }
}

/// An output keeps what was adopted for the first pin whose rule is called as its own
/// is, and stays as it is where there is none.
pub proof fn pins_are_found_by_their_rule(pins: Seq<Pin>, rule: OutputMatchView, from: int)
    requires
        0 <= from <= pins.len(),
    ensures
        match pin_from(pins, rule, from) {
            Some(adopted) => exists|k: int|
                from <= k < pins.len() && (#[trigger] pins[k]).adopted == adopted
                    && pins[k].rule.deep_view().key() == rule.key() && forall|j: int|
                    from <= j < k ==> (#[trigger] pins[j]).rule.deep_view().key() != rule.key(),
            None => forall|j: int|
                from <= j < pins.len() ==> (#[trigger] pins[j]).rule.deep_view().key()
                    != rule.key(),
        },
    decreases pins.len() - from,
{
    if from < pins.len() {
        if pins[from].rule.deep_view().key() == rule.key() {
            assert(pins[from].adopted == pin_from(pins, rule, from)->0);
        } else {
            pins_are_found_by_their_rule(pins, rule, from + 1);
            if let Some(adopted) = pin_from(pins, rule, from) {
                let k = choose|k: int|
                    from + 1 <= k < pins.len() && (#[trigger] pins[k]).adopted == adopted
                        && pins[k].rule.deep_view().key() == rule.key() && forall|j: int|
                        from + 1 <= j < k ==> (#[trigger] pins[j]).rule.deep_view().key()
                            != rule.key();
                assert(pins[k].adopted == adopted);
                assert forall|j: int| from <= j < k implies (
                #[trigger] pins[j]).rule.deep_view().key() != rule.key() by {
                    if j > from {
                        let _ = pins[j];
                    }
                }
            }
        }
    }
}

/// Pinning an output changes what was adopted for it and nothing else.
pub proof fn pinning_changes_what_was_adopted(config: OutputConfig, pins: Seq<Pin>)
    ensures
        pinned(config, pins) == (OutputConfig {
            adopted: pinned(config, pins).adopted,
            ..config
        }),
        pin_from(pins, config.matching.deep_view(), 0) matches Some(adopted) ==> pinned(
            config,
            pins,
        ).adopted == Some(adopted),
        pin_from(pins, config.matching.deep_view(), 0) is None ==> pinned(config, pins).adopted
            == config.adopted,
{
}

/// What was kept for a rule is what the first output with a rule called so has adopted.
pub proof fn kept_values_are_found_by_their_rule(
    configs: Seq<OutputConfigView>,
    rule: OutputMatchView,
    from: int,
    k: int,
)
    requires
        0 <= from <= k < configs.len(),
        configs[k].matching.key() == rule.key(),
        forall|j: int| from <= j < k ==> (#[trigger] configs[j]).matching.key() != rule.key(),
    ensures
        kept_from(configs, rule, from) == configs[k].adopted,
    decreases k - from,
{
    if from < k {
        assert(configs[from].matching.key() != rule.key());
        kept_values_are_found_by_their_rule(configs, rule, from + 1, k);
    }
}

/// Adopting is a first pin where nothing was kept, a change of display where the
/// display is another one, and otherwise a field that was freed.
pub proof fn adoptions_are_called_what_they_are(before: Option<AdoptedView>, adopted: AdoptedView)
    ensures
        before is None ==> event_of(before, adopted).words() == "first pin"@,
        before matches Some(kept) ==> kept.display != adopted.display ==> event_of(
            before,
            adopted,
        ).words() == "re-adopt: display changed"@,
        before matches Some(kept) ==> kept.display == adopted.display ==> event_of(
            before,
            adopted,
        ).words() == "adopted a field the operator freed"@,
{
}

/// Every command that failed is reported with its error, in order, and no other is.
pub proof fn failed_commands_are_reported(
    commands: Seq<Seq<char>>,
    errors: Seq<Option<Seq<char>>>,
    n: int,
    i: int,
) -> (k: int)
    requires
        0 <= i < n <= commands.len(),
        n <= errors.len(),
    ensures
        errors[i] matches Some(error) ==> 0 <= k < failures_among(commands, errors, n).len()
            && failures_among(commands, errors, n)[k] == (DivergenceView {
            kind: "command_failed"@,
            subject: commands[i],
            detail: error,
            docs_url: None,
        }),
        failures_among(commands, errors, n).len() == failures_among(commands, errors, n - 1).len()
            + (if errors[n - 1] is Some {
            1int
        } else {
            0
        }),
    decreases n,
{
    let before = failures_among(commands, errors, n - 1);
    if i == n - 1 {
        before.len() as int
    } else {
        let k = failed_commands_are_reported(commands, errors, n - 1, i);
        if errors[i] is Some {
            assert(failures_among(commands, errors, n)[k] == before[k]);
        }
        k
    }
}

/// A pass goes through its stages in order; it settles, looks again, makes a silent
/// sink, parks the pointer and adopts only where that is called for.
pub proof fn passes_take_their_course(facts: PassFacts)
    ensures
        stage_after(Stage::LookAtOutputs, facts) == Stage::CommandOutputs,
        stage_after(Stage::CommandOutputs, facts) == Stage::Settle <==> facts.topology_changed,
        stage_after(Stage::CommandOutputs, facts) == Stage::LookAgain <==> !facts.topology_changed
            && facts.commands > 0,
        stage_after(Stage::CommandOutputs, facts) == Stage::Projection <==> !facts.topology_changed
            && facts.commands == 0,
        stage_after(Stage::Settle, facts) == Stage::LookAgain,
        stage_after(Stage::LookAgain, facts) == Stage::Projection,
        stage_after(Stage::Projection, facts) == Stage::Apps,
        stage_after(Stage::Apps, facts) == Stage::NullSink <==> facts.silent_app,
        stage_after(Stage::Apps, facts) == Stage::Levels <==> !facts.silent_app,
        stage_after(Stage::NullSink, facts) == Stage::Levels,
        stage_after(Stage::Levels, facts) == Stage::Cursor <==> facts.hide_cursor,
        stage_after(Stage::Levels, facts) == Stage::Windows <==> !facts.hide_cursor,
        stage_after(Stage::Cursor, facts) == Stage::Windows,
        stage_after(Stage::Windows, facts) == Stage::Adoption <==> facts.connected,
        stage_after(Stage::Windows, facts) == Stage::Report <==> !facts.connected,
        stage_after(Stage::Adoption, facts) == Stage::Report,
        stage_after(Stage::Report, facts) == Stage::Done,
{
}

/// A link is its base without slashes at the end, one slash, and the path; a report is
/// given one where it has a path, and changes in nothing else.
pub proof fn links_join_base_and_path(said: DivergenceView, base: Seq<char>, path: Seq<char>)
    ensures
        without_trailing_slashes(base).is_prefix_of(base),
        without_trailing_slashes(base).len() > 0 ==> without_trailing_slashes(base).last() != '/',
        forall|i: int|
            without_trailing_slashes(base).len() <= i < base.len() ==> #[trigger] base[i] == '/',
        linked(said, base, Some(path)) == (DivergenceView {
            docs_url: Some(without_trailing_slashes(base) + "/"@ + path),
            ..said
        }),
        linked(said, base, None) == (DivergenceView { docs_url: None, ..said }),
    decreases base.len(),
{
    if base.len() > 0 && base.last() == '/' {
        links_join_base_and_path(said, base.drop_last(), path);
        let kept = without_trailing_slashes(base);
        assert(kept.is_prefix_of(base)) by {
            assert(base.drop_last().subrange(0, kept.len() as int) =~= kept);
            assert(base.subrange(0, kept.len() as int) =~= kept);
        }
        assert forall|i: int| kept.len() <= i < base.len() implies #[trigger] base[i] == '/' by {
            if i < base.len() - 1 {
                assert(base.drop_last()[i] == base[i]);
            }
        }
    }
}

/// A pass that did not reach the compositor says so last, and says everything else as
/// it was said.
pub proof fn silence_of_the_compositor_is_reported(said: Seq<DivergenceView>)
    ensures
        with_reachability(said, true) == said,
        with_reachability(said, false).len() == said.len() + 1,
        with_reachability(said, false).drop_last() == said,
        with_reachability(said, false).last().kind == "sway_unreachable"@,
        with_reachability(said, false).last().subject == "sway"@,
        with_reachability(said, false).last().docs_url is None,
{
    assert(with_reachability(said, false).drop_last() =~= said);
}

/// A window belongs to the last program in the list that has it among its windows, and
/// to none where none has.
pub proof fn windows_belong_to_their_program(apps: Seq<AppWindows>, window: i64, n: int)
    requires
        0 <= n <= apps.len(),
    ensures
        match owner_among(apps, window, n) {
            Some(id) => exists|k: int|
                0 <= k < n && (#[trigger] apps[k]).id@ == id && apps[k].window_ids@.contains(window)
                    && forall|j: int|
                    k < j < n ==> !(#[trigger] apps[j]).window_ids@.contains(window),
            None => forall|j: int|
                0 <= j < n ==> !(#[trigger] apps[j]).window_ids@.contains(window),
        },
    decreases n,
{
    if n > 0 {
        if apps[n - 1].window_ids@.contains(window) {
            assert(apps[n - 1].id@ == owner_among(apps, window, n)->0);
        } else {
            windows_belong_to_their_program(apps, window, n - 1);
            if let Some(id) = owner_among(apps, window, n) {
                let k = choose|k: int|
                    0 <= k < n - 1 && (#[trigger] apps[k]).id@ == id
                        && apps[k].window_ids@.contains(window) && forall|j: int|
                        k < j < n - 1 ==> !(#[trigger] apps[j]).window_ids@.contains(window);
                assert(apps[k].id@ == id);
                assert forall|j: int| k < j < n implies !(
                #[trigger] apps[j]).window_ids@.contains(window) by {
                    if j < n - 1 {
                        let _ = apps[j];
                    }
                }
            }
        }
    }
}

/// A pass is called for by a change of outputs, by a window that comes or goes, and
/// where reports were missed; the end of the compositor calls for none.
pub proof fn passes_are_called_for(event: CompositorEvent)
    ensures
        reason_for(event) == match event {
            CompositorEvent::OutputsMayHaveChanged => Some("output event"@),
            CompositorEvent::Lagged => Some("event lag"@),
            CompositorEvent::Shutdown => None,
            CompositorEvent::Window { change } => if change@ == "new"@ || change@ == "close"@ {
                Some("window event"@)
            } else {
                None
            },
        },
{
}

/// A pass is in order exactly where it has nothing to say.
pub proof fn passes_are_in_order_in_silence(said: nat)
    ensures
        state_after(said) == SyncState::Synced <==> said == 0,
        state_after(said) == SyncState::Degraded <==> said > 0,
{
}

/// What may be adopted: for every output whose rule finds a display, the first that it
/// finds, in the order of the outputs, and whether a report names that display.
pub proof fn found_displays_may_be_adopted(
    candidates: Seq<Candidate>,
    configs: Seq<OutputConfigView>,
    observed: Seq<OutputView>,
    divergences: Seq<DivergenceView>,
    k: int,
    i: int,
)
    requires
        are_candidates(candidates, configs, observed, divergences, configs.len() as int),
    ensures
        0 <= k < candidates.len() ==> {
            let c = candidates[k];
            &&& c.config < configs.len()
            &&& c.output < observed.len()
            &&& is_as_stated(observed[c.output as int], configs[c.config as int].matching)
            &&& forall|j: int|
                0 <= j < c.output ==> !is_as_stated(
                    #[trigger] observed[j],
                    configs[c.config as int].matching,
                )
            &&& c.diverged <==> exists|d: int|
                0 <= d < divergences.len() && occurs_in(
                    (#[trigger] divergences[d]).subject,
                    observed[c.output as int].name,
                )
            &&& k + 1 < candidates.len() ==> c.config < candidates[k + 1].config
        },
        0 <= i < configs.len() && first_match(observed, configs[i].matching) is Some
            ==> exists|c: int| 0 <= c < candidates.len() && (#[trigger] candidates[c]).config == i,
{
    if 0 <= k < candidates.len() {
        let c = candidates[k];
        assert(is_candidate(c, configs, observed, divergences));
        let rule = configs[c.config as int].matching;
        assert forall|j: int| 0 <= j < c.output implies !is_as_stated(
            #[trigger] observed[j],
            rule,
        ) by {
            assert(!rule.matches(observed[j]));
        }
    }
    if 0 <= i < configs.len() && first_match(observed, configs[i].matching) is Some {
        assert(has_display(configs, observed, i));
    }
}

/// The canvas is named where there is one.
pub proof fn canvas_is_named_where_there_is_one(name: &str)
    ensures
        name_of(Some(name)) == Some(name@),
        name_of(None) is None,
{
}

/// The outputs are looked at as often as configured, but at least a second apart.
pub proof fn looks_are_a_second_apart(configured: u64)
    ensures
        seconds_between(configured) >= 1,
        configured >= 1 ==> seconds_between(configured) == configured,
        seconds_between(0) == 1,
{
}

/// Nothing was kept for a rule that no output's rule is called as.
pub proof fn nothing_is_kept_for_strangers(
    configs: Seq<OutputConfigView>,
    rule: OutputMatchView,
    from: int,
)
    requires
        0 <= from <= configs.len(),
        forall|j: int|
            from <= j < configs.len() ==> (#[trigger] configs[j]).matching.key() != rule.key(),
    ensures
        kept_from(configs, rule, from) is None,
    decreases configs.len() - from,
{
    if from < configs.len() {
        assert(configs[from].matching.key() != rule.key());
        nothing_is_kept_for_strangers(configs, rule, from + 1);
    }
}

/// Where no sink is known at all nothing is said; where any is, every program whose sink is
/// missing is reported.
pub proof fn unknown_sinks_are_not_reported(apps: Seq<AppView>, sinks: Seq<Sink>, i: int)
    requires
        0 <= i < apps.len(),
    ensures
        sinks.len() == 0 ==> said_of_sinks(apps, sinks).len() == 0,
        sinks.len() > 0 && sink_missing(apps[i], sinks) is Some ==> said_of_sinks(
            apps,
            sinks,
        ).contains(sink_missing(apps[i], sinks)->0),
{
    let k = missing_sinks_are_reported(apps, sinks, apps.len() as int, i);
    if sinks.len() > 0 && sink_missing(apps[i], sinks) is Some {
        assert(said_of_sinks(apps, sinks)[k] == sink_missing(apps[i], sinks)->0);
    }
}

} // verus!
