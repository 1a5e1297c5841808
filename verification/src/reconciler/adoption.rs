//! Keeping what an output settled on, where the configuration left it open.
use crate::config::{AdoptedOutput, AdoptedView, Divergence, DivergenceView, OutputConfig, OutputConfigView};
use crate::model::{
    is_first_match, same_optional_text, Output, OutputMatch, OutputMatchView, OutputView,
};
use crate::names::{same_text, NameMap};
use crate::text::{contains_text, occurs_in};
use vstd::prelude::*;

verus! {

/// An output whose settings may be kept: its entry in the configuration, the
/// display that is there, and whether anything went wrong with it.
#[derive(Clone, Copy, Debug, PartialEq, Eq, Structural)]
pub struct Candidate {
    pub config: usize,
    pub output: usize,
    pub diverged: bool,
}

/// Something went wrong with the output of a name: a divergence is about it, or
/// about a command, which names its output.
pub open spec fn went_wrong(divergences: Seq<DivergenceView>, name: Seq<char>) -> bool {
    exists|i: int|
        0 <= i < divergences.len() && occurs_in((#[trigger] divergences[i]).subject, name)
}

fn diverged(divergences: &[Divergence], name: &str) -> (wrong: bool)
    ensures
        wrong == went_wrong(divergences.deep_view(), name@),
{
    let mut i: usize = 0;
    while i < divergences.len()
        invariant
            i <= divergences@.len(),
            forall|j: int|
                0 <= j < i ==> !occurs_in((#[trigger] divergences.deep_view()[j]).subject, name@),
        decreases divergences@.len() - i,
    {
        assert(divergences.deep_view()[i as int] == divergences@[i as int].deep_view());
        if contains_text(divergences[i].subject.as_str(), name) {
            return true;
        }
        i = i + 1;
    }
    false
}

fn first_index(observed: &[Output], rule: &OutputMatch) -> (found: Option<usize>)
    ensures
        match found {
            Some(i) => is_first_match(observed.deep_view(), rule.deep_view(), i as int),
            None => forall|i: int| !is_first_match(observed.deep_view(), rule.deep_view(), i),
        },
{
    let mut i: usize = 0;
    while i < observed.len()
        invariant
            i <= observed@.len(),
            forall|j: int|
                0 <= j < i ==> !rule.deep_view().matches(#[trigger] observed.deep_view()[j]),
        decreases observed@.len() - i,
    {
        assert(observed.deep_view()[i as int] == observed@[i as int].deep_view());
        if rule.matches(&observed[i]) {
            return Some(i);
        }
        i = i + 1;
    }
    assert forall|k: int| !is_first_match(observed.deep_view(), rule.deep_view(), k) by {
        if 0 <= k < observed@.len() {
            assert(!rule.deep_view().matches(observed.deep_view()[k]));
        }
    }
    None
}

/// A candidate is right: its entry matches its display first, and it says whether
/// anything went wrong.
pub open spec fn is_candidate(
    candidate: Candidate,
    configs: Seq<OutputConfigView>,
    observed: Seq<OutputView>,
    divergences: Seq<DivergenceView>,
) -> bool {
    &&& 0 <= candidate.config < configs.len()
    &&& is_first_match(
        observed,
        configs[candidate.config as int].matching,
        candidate.output as int,
    )
    &&& candidate.diverged == went_wrong(divergences, observed[candidate.output as int].name)
}

/// The entry at `i` has a display.
pub open spec fn has_display(configs: Seq<OutputConfigView>, observed: Seq<OutputView>, i: int) -> bool {
    exists|k: int| is_first_match(observed, configs[i].matching, k)
}

/// The candidates come in the order of the configuration, one for each of the
/// first `n` entries that has a display.
pub open spec fn are_candidates(
    candidates: Seq<Candidate>,
    configs: Seq<OutputConfigView>,
    observed: Seq<OutputView>,
    divergences: Seq<DivergenceView>,
    n: int,
) -> bool {
    &&& forall|k: int|
        0 <= k < candidates.len() ==> #[trigger] is_candidate(
            candidates[k],
            configs,
            observed,
            divergences,
        ) && candidates[k].config < n
    &&& forall|k: int, l: int|
        0 <= k < l < candidates.len() ==> (#[trigger] candidates[k]).config < (
        #[trigger] candidates[l]).config
    &&& forall|i: int|
        0 <= i < n && #[trigger] has_display(configs, observed, i) ==> exists|k: int|
            0 <= k < candidates.len() && (#[trigger] candidates[k]).config == i
}

/// The outputs whose settings may be kept. While an edit is being tried out there
/// are none: the configuration is not rewritten under the operator.
pub fn candidates(
    configs: &[OutputConfig],
    observed: &[Output],
    divergences: &[Divergence],
    preview: bool,
) -> (candidates: Vec<Candidate>)
    ensures
        preview ==> candidates@.len() == 0,
        !preview ==> are_candidates(
            candidates@,
            configs.deep_view(),
            observed.deep_view(),
            divergences.deep_view(),
            configs@.len() as int,
        ),
{
    let mut candidates: Vec<Candidate> = Vec::new();
    if preview {
        return candidates;
    }
    let ghost wanted = configs.deep_view();
    let ghost views = observed.deep_view();
    let mut i: usize = 0;
    while i < configs.len()
        invariant
            i <= configs@.len(),
            wanted == configs.deep_view(),
            views == observed.deep_view(),
            are_candidates(candidates@, wanted, views, divergences.deep_view(), i as int),
        decreases configs@.len() - i,
    {
        let ghost before = candidates@;
        assert(wanted[i as int] == configs@[i as int].deep_view());
        if let Some(k) = first_index(observed, &configs[i].matching) {
            assert(views[k as int] == observed@[k as int].deep_view());
            let candidate = Candidate {
                config: i,
                output: k,
                diverged: diverged(divergences, observed[k].name.as_str()),
            };
            candidates.push(candidate);
            proof {
                assert(is_candidate(candidate, wanted, views, divergences.deep_view()));
                assert forall|j: int| 0 <= j < candidates@.len() implies #[trigger] is_candidate(
                    candidates@[j],
                    wanted,
                    views,
                    divergences.deep_view(),
                ) && candidates@[j].config < i + 1 by {
                    if j < before.len() {
                        assert(candidates@[j] == before[j]);
                        assert(is_candidate(before[j], wanted, views, divergences.deep_view()));
                    }
                }
                assert forall|a: int, b: int| 0 <= a < b < candidates@.len() implies (
                #[trigger] candidates@[a]).config < (#[trigger] candidates@[b]).config by {
                    assert(candidates@[a] == before[a]);
                    assert(is_candidate(before[a], wanted, views, divergences.deep_view()));
                    if b < before.len() {
                        assert(candidates@[b] == before[b]);
                    }
                }
                assert forall|j: int|
                    0 <= j < i + 1 && #[trigger] has_display(wanted, views, j) implies exists|l: int|
                    0 <= l < candidates@.len() && (#[trigger] candidates@[l]).config == j by {
                    if j < i {
                        let l = choose|l: int|
                            0 <= l < before.len() && (#[trigger] before[l]).config == j;
                        assert(candidates@[l].config == j);
                    } else {
                        assert(candidates@[before.len() as int].config == j);
                    }
                }
            }
            assert(are_candidates(candidates@, wanted, views, divergences.deep_view(), i + 1));
        } else {
            assert(!has_display(wanted, views, i as int));
            assert(are_candidates(candidates@, wanted, views, divergences.deep_view(), i + 1));
        }
        i = i + 1;
    }
    candidates
}

/// What is remembered of the outputs.
pub open spec fn remembered(history: Map<Seq<char>, Output>) -> Map<Seq<char>, OutputView> {
    history.map_values(|output: Output| output.deep_view())
}

/// What is remembered after the first `n` outputs were seen.
pub open spec fn seen_after(
    history: Map<Seq<char>, OutputView>,
    observed: Seq<OutputView>,
    n: int,
) -> Map<Seq<char>, OutputView>
    decreases n,
{
    if n <= 0 {
        history
    } else {
        seen_after(history, observed, n - 1).insert(observed[n - 1].name, observed[n - 1])
    }
}

/// Remembers every output that is there, whether or not it is configured.
pub fn remember(history: &mut NameMap<Output>, observed: &[Output])
    ensures
        remembered(final(history)@) == seen_after(
            remembered(old(history)@),
            observed.deep_view(),
            observed@.len() as int,
        ),
{
    let ghost before = remembered(history@);
    let mut i: usize = 0;
    while i < observed.len()
        invariant
            i <= observed@.len(),
            remembered(history@) == seen_after(before, observed.deep_view(), i as int),
        decreases observed@.len() - i,
    {
        let ghost held = history@;
        assert(observed.deep_view()[i as int] == observed@[i as int].deep_view());
        let output = observed[i].clone();
        history.insert(observed[i].name.clone(), output);
        assert(remembered(history@) =~= remembered(held).insert(
            observed@[i as int].name@,
            output.deep_view(),
        ));
        i = i + 1;
    }
}

/// What to keep for the output of a rule.
pub struct Pin {
    pub rule: OutputMatch,
    pub adopted: AdoptedOutput,
}

/// The first pin for an entry, from `i` on. Rules that are called the same are
/// the same.
pub open spec fn pin_from(pins: Seq<Pin>, rule: OutputMatchView, i: int) -> Option<AdoptedOutput>
    decreases pins.len() - i,
{
    if i >= pins.len() || i < 0 {
        None
    } else if pins[i].rule.deep_view().key() == rule.key() {
        Some(pins[i].adopted)
    } else {
        pin_from(pins, rule, i + 1)
    }
}

/// An entry with what is kept for it.
pub open spec fn pinned(config: OutputConfig, pins: Seq<Pin>) -> OutputConfig {
    match pin_from(pins, config.matching.deep_view(), 0) {
        Some(adopted) => OutputConfig { adopted: Some(adopted), ..config },
        None => config,
    }
}

fn pin_for(pins: &[Pin], rule: &OutputMatch) -> (adopted: Option<AdoptedOutput>)
    ensures
        adopted == pin_from(pins@, rule.deep_view(), 0),
{
    let key = rule.key();
    let mut i: usize = 0;
    while i < pins.len()
        invariant
            i <= pins@.len(),
            key@ == rule.deep_view().key(),
            pin_from(pins@, rule.deep_view(), 0) == pin_from(pins@, rule.deep_view(), i as int),
        decreases pins@.len() - i,
    {
        let called = pins[i].rule.key();
        if same_text(called.as_str(), key.as_str()) {
            return Some(pins[i].adopted.clone());
        }
        i = i + 1;
    }
    None
}

/// Writes what is kept into the configuration. Nothing else of it changes.
pub fn apply_pins(configs: &mut Vec<OutputConfig>, pins: &[Pin])
    ensures
        final(configs)@ == old(configs)@.map_values(|config: OutputConfig| pinned(config, pins@)),
{
    let ghost before = configs@;
    let mut i: usize = 0;
    while i < configs.len()
        invariant
            i <= configs@.len(),
            configs@.len() == before.len(),
            forall|j: int| 0 <= j < i ==> #[trigger] configs@[j] == pinned(before[j], pins@),
            forall|j: int| i <= j < before.len() ==> #[trigger] configs@[j] == before[j],
        decreases configs@.len() - i,
    {
        assert(configs@[i as int] == before[i as int]);
        if let Some(adopted) = pin_for(pins, &configs[i].matching) {
            let mut config = configs[i].clone();
            config.adopted = Some(adopted);
            configs.set(i, config);
        }
        assert(configs@[i as int] == pinned(before[i as int], pins@));
        i = i + 1;
    }
    assert(configs@ =~= before.map_values(|config: OutputConfig| pinned(config, pins@)));
}

/// What a pin means for its output.
#[derive(Clone, Copy, Debug, PartialEq, Eq, Structural)]
pub enum AdoptionEvent {
    First,
    DisplayChanged,
    FieldFreed,
}

impl AdoptionEvent {
    /// The event in words.
    pub open spec fn words(self) -> Seq<char> {
        match self {
            AdoptionEvent::First => "first pin"@,
            AdoptionEvent::DisplayChanged => "re-adopt: display changed"@,
            AdoptionEvent::FieldFreed => "adopted a field the operator freed"@,
        }
    }

    /// The event in words.
    pub fn as_text(self) -> (text: &'static str)
        ensures
            text@ == self.words(),
    {
        match self {
            AdoptionEvent::First => "first pin",
            AdoptionEvent::DisplayChanged => "re-adopt: display changed",
            AdoptionEvent::FieldFreed => "adopted a field the operator freed",
        }
    }
}

/// What is kept for a rule before, from entry `i` on.
pub open spec fn kept_from(configs: Seq<OutputConfigView>, rule: OutputMatchView, i: int) -> Option<
    AdoptedView,
>
    decreases configs.len() - i,
{
    if i >= configs.len() || i < 0 {
        None
    } else if configs[i].matching.key() == rule.key() {
        configs[i].adopted
    } else {
        kept_from(configs, rule, i + 1)
    }
}

/// What a pin means, given what was kept before.
pub open spec fn event_of(before: Option<AdoptedView>, adopted: AdoptedView) -> AdoptionEvent {
    match before {
        None => AdoptionEvent::First,
        Some(previous) => if previous.display != adopted.display {
            AdoptionEvent::DisplayChanged
        } else {
            AdoptionEvent::FieldFreed
        },
    }
}

/// What a pin means for its output.
pub fn adoption_event(configs: &[OutputConfig], pin: &Pin) -> (event: AdoptionEvent)
    ensures
        event == event_of(
            kept_from(configs.deep_view(), pin.rule.deep_view(), 0),
            pin.adopted.deep_view(),
        ),
{
    let key = pin.rule.key();
    let mut i: usize = 0;
    while i < configs.len()
        invariant
            i <= configs@.len(),
            key@ == pin.rule.deep_view().key(),
            kept_from(configs.deep_view(), pin.rule.deep_view(), 0) == kept_from(
                configs.deep_view(),
                pin.rule.deep_view(),
                i as int,
            ),
        decreases configs@.len() - i,
    {
        assert(configs.deep_view()[i as int] == configs@[i as int].deep_view());
        let called = configs[i].matching.key();
        if same_text(called.as_str(), key.as_str()) {
            return match &configs[i].adopted {
                None => AdoptionEvent::First,
                Some(previous) => if same_optional_text(&previous.display, &pin.adopted.display) {
                    AdoptionEvent::FieldFreed
                } else {
                    AdoptionEvent::DisplayChanged
                },
            };
        }
        i = i + 1;
    }
    AdoptionEvent::First
}

/// An output that nothing is kept for is left as it is, and writing the same pins
/// again changes nothing.
pub proof fn pinning_is_idempotent(config: OutputConfig, pins: Seq<Pin>)
    ensures
        pin_from(pins, config.matching.deep_view(), 0) is None ==> pinned(config, pins) == config,
        pinned(pinned(config, pins), pins) == pinned(config, pins),
{
}

} // verus!
