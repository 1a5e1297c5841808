//! What holds of the canvas and of the outputs that show it.
use crate::config::{default_projection, DesiredView, DivergenceView, OutputConfigView};
use crate::model::{first_match, refresh_text, OutputMatchView, OutputView};
use crate::model_laws::{is_as_stated, rules_find_the_first_output};
use crate::reconciler::canvas::{
    canvas_is_off, canvas_step, first_headless, is_first_headless, is_headless, overlays_among,
    participant_of, participants_among, progress_after, rate_of, rates_among, setup_commands,
    slicer_of, slot_from, told_of, CanvasActionView, CanvasPlan, CanvasProgressView,
    ParticipantView,
};
use crate::text::decimal_int;
use vstd::prelude::*;
use vstd::string::*;

verus! {

/// An enabled output takes part exactly at the place that was configured for it, and
/// without one at the place of its display.
pub proof fn outputs_take_part_at_their_place(config: OutputConfigView, observed: Seq<OutputView>)
    ensures
        match participant_of(config, observed) {
            Some(part) => {
                &&& config.enable
                &&& config.position is Some ==> part.rect.x == config.position->0.x && part.rect.y
                    == config.position->0.y
                &&& config.position is None ==> (first_match(
                    observed,
                    config.matching,
                ) matches Some(display) && part.rect.x == display.rect.x && part.rect.y
                    == display.rect.y)
            },
            None => true,
        },
{
}

/// An enabled output takes part as large as its configured mode, without one as its
/// adopted mode, and without either as the mode that its display runs.
pub proof fn outputs_take_part_at_their_size(config: OutputConfigView, observed: Seq<OutputView>)
    ensures
        match participant_of(config, observed) {
            Some(part) => {
                let display = first_match(observed, config.matching);
                let adopted = config.adopted is Some && config.adopted->0.mode is Some;
                &&& config.mode is Some ==> part.rect.width == config.mode->0.width
                    && part.rect.height == config.mode->0.height
                &&& config.mode is None && adopted ==> part.rect.width
                    == config.adopted->0.mode->0.width && part.rect.height
                    == config.adopted->0.mode->0.height
                &&& config.mode is None && !adopted ==> display is Some
                    && display->0.current_mode is Some && part.rect.width
                    == display->0.current_mode->0.width && part.rect.height
                    == display->0.current_mode->0.height
            },
            None => true,
        },
{
}

/// An output takes part under the name of its display where that is connected, and
/// otherwise under what its rule is called.
pub proof fn outputs_take_part_under_their_name(config: OutputConfigView, observed: Seq<OutputView>)
    ensures
        participant_of(config, observed) matches Some(part) ==> {
            let display = first_match(observed, config.matching);
            &&& part.connected <==> display is Some
            &&& display is Some ==> part.name == display->0.name
            &&& display is None ==> part.name == config.matching.key()
        },
{
}

/// An output takes part exactly where it is enabled and both its place and its size
/// are known, from its configuration or from its display.
pub proof fn outputs_take_part_where_they_can(config: OutputConfigView, observed: Seq<OutputView>)
    ensures
        participant_of(config, observed) is Some <==> {
            let display = first_match(observed, config.matching);
            &&& config.enable
            &&& config.position is Some || display is Some
            &&& config.mode is Some || (config.adopted is Some && config.adopted->0.mode is Some)
                || (display is Some && display->0.current_mode is Some)
        },
{
}

/// Outputs that are configured at different places keep that difference: how far one
/// lies to the right of and below another is how far it was configured to.
pub proof fn outputs_keep_their_distance(
    a: OutputConfigView,
    b: OutputConfigView,
    observed: Seq<OutputView>,
)
    requires
        a.position is Some,
        b.position is Some,
        participant_of(a, observed) is Some,
        participant_of(b, observed) is Some,
    ensures
        participant_of(b, observed)->0.rect.x - participant_of(a, observed)->0.rect.x
            == b.position->0.x - a.position->0.x,
        participant_of(b, observed)->0.rect.y - participant_of(a, observed)->0.rect.y
            == b.position->0.y - a.position->0.y,
{
}

/// Every output that can take part does, in order: it stands in the list behind those
/// of the outputs before it that do.
pub proof fn all_that_can_take_part_do(
    configs: Seq<OutputConfigView>,
    observed: Seq<OutputView>,
    n: int,
    i: int,
) -> (k: int)
    requires
        0 <= i < n <= configs.len(),
    ensures
        participant_of(configs[i], observed) is Some ==> 0 <= k < participants_among(
            configs,
            observed,
            n,
        ).len() && participants_among(configs, observed, n)[k] == participant_of(
            configs[i],
            observed,
        )->0 && k == participants_among(configs, observed, i).len(),
        participants_among(configs, observed, n).len() == participants_among(
            configs,
            observed,
            n - 1,
        ).len() + (if participant_of(configs[n - 1], observed) is Some {
            1int
        } else {
            0
        }),
    decreases n,
{
    let before = participants_among(configs, observed, n - 1);
    if i == n - 1 {
        before.len() as int
    } else {
        let k = all_that_can_take_part_do(configs, observed, n - 1, i);
        if participant_of(configs[i], observed) is Some {
            assert(participants_among(configs, observed, n)[k] == before[k]);
        }
        k
    }
}

/// The place of a name in a plan is the first one that the plan lists for it.
pub proof fn plans_list_places_by_name(
    positions: Seq<(String, i32, i32)>,
    name: Seq<char>,
    from: int,
)
    requires
        0 <= from <= positions.len(),
    ensures
        match slot_from(positions, name, from) {
            Some(place) => exists|k: int|
                from <= k < positions.len() && (#[trigger] positions[k]).0@ == name && place.x
                    == positions[k].1 && place.y == positions[k].2 && forall|j: int|
                    from <= j < k ==> (#[trigger] positions[j]).0@ != name,
            None => forall|j: int|
                from <= j < positions.len() ==> (#[trigger] positions[j]).0@ != name,
        },
    decreases positions.len() - from,
{
    if from < positions.len() && positions[from].0@ != name {
        plans_list_places_by_name(positions, name, from + 1);
        match slot_from(positions, name, from) {
            Some(place) => {
                let k = choose|k: int|
                    from + 1 <= k < positions.len() && (#[trigger] positions[k]).0@ == name
                        && place.x == positions[k].1 && place.y == positions[k].2 && forall|j: int|
                        from + 1 <= j < k ==> (#[trigger] positions[j]).0@ != name;
                assert(positions[k].0@ == name);
                assert forall|j: int| from <= j < k implies (#[trigger] positions[j]).0@ != name by {
                    if j > from {
                        let _ = positions[j];
                    }
                }
            },
            None => {},
        }
    } else if from < positions.len() {
        let place = slot_from(positions, name, from)->0;
        assert(place.x == positions[from].1 && place.y == positions[from].2);
        assert(positions[from].0@ == name);
    }
}

/// With a plan the compositor is told the planned place of each display that is there
/// and planned, and everything else as it is configured; without one all of it as
/// configured.
pub proof fn planned_places_are_told(
    config: OutputConfigView,
    observed: Seq<OutputView>,
    plan: CanvasPlan,
)
    ensures
        told_of(config, observed, None) == config,
        ({
            let told = told_of(config, observed, Some(plan));
            let display = first_match(observed, config.matching);
            let place = slot_from(plan.sway_positions@, display->0.name, 0);
            &&& told == (OutputConfigView { position: told.position, ..config })
            &&& display is Some && place is Some ==> told.position == place
            &&& display is None || place is None ==> told.position == config.position
        }),
{
}

/// The output for the canvas is the first whose name starts with `HEADLESS-`.
pub proof fn canvas_output_is_found_by_name(observed: Seq<OutputView>)
    ensures
        match first_headless(observed) {
            Some(found) => exists|i: int|
                0 <= i < observed.len() && #[trigger] observed[i] == found
                    && "HEADLESS-"@.is_prefix_of(found.name) && forall|j: int|
                    0 <= j < i ==> !"HEADLESS-"@.is_prefix_of((#[trigger] observed[j]).name),
            None => forall|j: int|
                0 <= j < observed.len() ==> !"HEADLESS-"@.is_prefix_of(
                    (#[trigger] observed[j]).name,
                ),
        },
{
    match first_headless(observed) {
        Some(found) => {
            let i = choose|i: int| is_first_headless(observed, i);
            assert(is_first_headless(observed, i));
            assert(observed[i] == found);
            assert forall|j: int| 0 <= j < i implies !"HEADLESS-"@.is_prefix_of(
                (#[trigger] observed[j]).name,
            ) by {
                assert(!is_headless(observed[j]));
            }
        },
        None => {
            assert forall|j: int| 0 <= j < observed.len() implies !"HEADLESS-"@.is_prefix_of(
                (#[trigger] observed[j]).name,
            ) by {
                if is_headless(observed[j]) {
                    lemma_headless_exists(observed, j);
                }
            }
        },
    }
}

proof fn lemma_headless_exists(observed: Seq<OutputView>, j: int)
    requires
        0 <= j < observed.len(),
        is_headless(observed[j]),
    ensures
        exists|i: int| is_first_headless(observed, i),
    decreases j,
{
    if exists|k: int| 0 <= k < j && is_headless(#[trigger] observed[k]) {
        let k = choose|k: int| 0 <= k < j && is_headless(#[trigger] observed[k]);
        lemma_headless_exists(observed, k);
    } else {
        assert(is_first_headless(observed, j));
    }
}

/// The rate of a name is the rate that the first display of that name runs at.
pub proof fn rates_are_those_of_the_displays(observed: Seq<OutputView>, name: Seq<char>)
    ensures
        match rate_of(observed, name) {
            Some(rate) => exists|i: int|
                0 <= i < observed.len() && (#[trigger] observed[i]).name == name && (
                observed[i].current_mode matches Some(mode) && mode.refresh_mhz == rate)
                    && forall|j: int| 0 <= j < i ==> (#[trigger] observed[j]).name != name,
            None => forall|i: int|
                0 <= i < observed.len() && (#[trigger] observed[i]).name == name ==> (exists|j: int|
                    0 <= j <= i && (#[trigger] observed[j]).name == name
                        && observed[j].current_mode is None),
        },
{
    let rule = OutputMatchView { name: Some(name), make: None, model: None, serial: None };
    rules_find_the_first_output(observed, rule);
    match first_match(observed, rule) {
        Some(found) => {
            let i = choose|i: int|
                0 <= i < observed.len() && #[trigger] observed[i] == found
                    && is_as_stated(found, rule) && forall|j: int|
                    0 <= j < i ==> !is_as_stated(#[trigger] observed[j], rule);
            assert(observed[i].name == name);
            assert forall|j: int| 0 <= j < i implies (#[trigger] observed[j]).name != name by {
                assert(!is_as_stated(observed[j], rule));
                if observed[j].name =~= name {
                    assert(is_as_stated(observed[j], rule));
                }
            }
        },
        None => {
            assert forall|i: int|
                0 <= i < observed.len() && (#[trigger] observed[i]).name == name implies exists|
                j: int,
            |
                0 <= j <= i && (#[trigger] observed[j]).name == name
                    && observed[j].current_mode is None by {
                assert(!is_as_stated(observed[i], rule));
            }
        },
    }
}

/// The rates of a plan are those of the displays that it lists, in order, without those
/// that have none.
pub proof fn planned_rates_are_listed(
    positions: Seq<(String, i32, i32)>,
    observed: Seq<OutputView>,
    n: int,
    i: int,
) -> (k: int)
    requires
        0 <= i < n <= positions.len(),
    ensures
        rate_of(observed, positions[i].0@) is Some ==> 0 <= k < rates_among(
            positions,
            observed,
            n,
        ).len() && Some(rates_among(positions, observed, n)[k]) == rate_of(
            observed,
            positions[i].0@,
        ),
        rates_among(positions, observed, n).len() == rates_among(positions, observed, n - 1).len()
            + (if rate_of(observed, positions[n - 1].0@) is Some {
            1int
        } else {
            0
        }),
    decreases n,
{
    let before = rates_among(positions, observed, n - 1);
    if i == n - 1 {
        before.len() as int
    } else {
        let k = planned_rates_are_listed(positions, observed, n - 1, i);
        if rate_of(observed, positions[i].0@) is Some {
            assert(rates_among(positions, observed, n)[k] == before[k]);
        }
        k
    }
}

/// A canvas is as it should be exactly where it is on, has the size, lies 20000 below
/// the origin, and runs within 10 thousandths of a hertz of the rate, if one is asked.
pub proof fn canvas_is_right_within_limits(
    output: OutputView,
    width: i32,
    height: i32,
    wanted: Option<u32>,
)
    ensures
        !canvas_is_off(output, width, height, wanted) <==> {
            &&& output.active
            &&& output.rect.width == width && output.rect.height == height
            &&& output.rect.y == 20000
            &&& wanted is Some ==> (output.current_mode matches Some(mode) && wanted->0 - 10
                <= mode.refresh_mhz <= wanted->0 + 10)
        },
{
}

/// The canvas is set up in these words, in this order: on, in its size and rate, unscaled,
/// and out of the way of every other output.
pub proof fn canvas_is_set_up_word_for_word(name: Seq<char>, width: i32, height: i32, rate: u32)
    ensures
        setup_commands(name, width, height, None) == seq![
            "output "@ + name + " enable"@,
            "output "@ + name + " mode --custom "@ + (decimal_int(width as int) + "x"@
                + decimal_int(height as int)),
            "output "@ + name + " scale 1"@,
            "output "@ + name + " pos 0 20000"@,
        ],
        setup_commands(name, width, height, Some(rate)) == seq![
            "output "@ + name + " enable"@,
            "output "@ + name + " mode --custom "@ + (decimal_int(width as int) + "x"@
                + decimal_int(height as int)) + "@"@ + refresh_text(rate) + "Hz"@,
            "output "@ + name + " scale 1"@,
            "output "@ + name + " pos 0 20000"@,
        ],
{
}

/// What is cut out of the canvas is what the plan says, bent and lifted as the
/// projection asks, from the canvas of that name; nothing is cut while there is
/// nothing to show or nothing planned.
pub proof fn canvas_is_cut_as_planned(
    desired: DesiredView,
    plan: CanvasPlan,
    source: Seq<char>,
)
    ensures
        slicer_of(desired, plan, source) is Some <==> {
            &&& desired.active_app is Some || (desired.projection is Some
                && desired.projection->0.test_pattern is Some)
            &&& plan.slices@.len() > 0
        },
        slicer_of(desired, plan, source) matches Some(cut) ==> {
            let projection = if desired.projection is Some {
                desired.projection->0
            } else {
                default_projection()
            };
            &&& cut.control_session.len() == 0
            &&& cut.source == source
            &&& cut.canvas_width == plan.canvas_width
            &&& cut.canvas_height == plan.canvas_height
            &&& cut.gamma == projection.gamma
            &&& cut.black_lift == projection.black_lift
            &&& cut.pattern == projection.test_pattern
            &&& cut.free_run == projection.free_run
            &&& cut.renderer == projection.renderer
            &&& cut.slices == plan.slices.deep_view()
        },
{
}

/// With a plan, an output for the canvas is asked for once where there is none, set up
/// once where it is not as it should be, and then cut; where none comes, that is
/// reported.
pub proof fn canvas_is_made_and_cut(
    desired: DesiredView,
    plan: CanvasPlan,
    observed: Seq<OutputView>,
    wanted: Option<u32>,
    progress: CanvasProgressView,
)
    ensures
        ({
            let action = canvas_step(desired, Some(plan), observed, wanted, progress);
            let found = first_headless(observed);
            &&& progress matches CanvasProgressView::SetUp(canvas) ==> action
                == (CanvasActionView::Cut { canvas, slicer: slicer_of(desired, plan, canvas) })
            &&& !(progress is SetUp) && found is None && !(progress is Created) ==> action
                == CanvasActionView::Create("create_output"@)
            &&& !(progress is SetUp) && found is None && progress is Created ==> action
                == CanvasActionView::NoCanvas(
                DivergenceView {
                    kind: "headless_unavailable"@,
                    subject: "projection"@,
                    detail: "the overlapping layout needs sway's headless backend (WLR_BACKENDS=drm,libinput,headless) and no canvas output could be created; the layout is tiled without slicing meanwhile"@,
                    docs_url: None,
                },
            )
            &&& !(progress is SetUp) && found is Some && canvas_is_off(
                found->0,
                plan.canvas_width,
                plan.canvas_height,
                wanted,
            ) ==> action == (CanvasActionView::SetUp {
                canvas: found->0.name,
                commands: setup_commands(
                    found->0.name,
                    plan.canvas_width,
                    plan.canvas_height,
                    wanted,
                ),
            })
            &&& !(progress is SetUp) && found is Some && !canvas_is_off(
                found->0,
                plan.canvas_width,
                plan.canvas_height,
                wanted,
            ) ==> action == (CanvasActionView::Cut {
                canvas: found->0.name,
                slicer: slicer_of(desired, plan, found->0.name),
            })
        }),
{
}

/// Without a plan, an output that is left over from a canvas is unplugged once; then
/// patterns are drawn over the outputs where a projection is configured.
pub proof fn canvas_is_taken_away(
    desired: DesiredView,
    observed: Seq<OutputView>,
    wanted: Option<u32>,
    progress: CanvasProgressView,
)
    ensures
        ({
            let action = canvas_step(desired, None, observed, wanted, progress);
            let found = first_headless(observed);
            &&& found is Some && !(progress is Retired) ==> action == CanvasActionView::Retire(
                "output "@ + found->0.name + " unplug"@,
            )
            &&& found is None || progress is Retired ==> action == (CanvasActionView::Overlay {
                patterns: desired.projection is Some,
            })
        }),
{
}

/// What was done is remembered.
pub proof fn steps_are_remembered(
    progress: CanvasProgressView,
    action: CanvasActionView,
)
    ensures
        action is Create ==> progress_after(progress, action) is Created,
        action matches CanvasActionView::SetUp { canvas, commands } ==> progress_after(
            progress,
            action,
        ) == CanvasProgressView::SetUp(canvas),
        action is Retire ==> progress_after(progress, action) is Retired,
        action is Cut || action is NoCanvas || action is Overlay ==> progress_after(
            progress,
            action,
        ) == progress,
{
}

/// A pattern is drawn over every output that is on, has a width and is a real one, in
/// its own place and under its own name.
pub proof fn patterns_are_drawn_over_real_outputs(
    observed: Seq<OutputView>,
    synthetic: Seq<bool>,
    n: int,
    i: int,
) -> (k: int)
    requires
        0 <= i < n <= observed.len(),
        synthetic.len() == observed.len(),
    ensures
        observed[i].active && observed[i].rect.width > 0 && !synthetic[i] ==> 0 <= k
            < overlays_among(observed, synthetic, n).len() && overlays_among(
            observed,
            synthetic,
            n,
        )[k] == (ParticipantView {
            name: observed[i].name,
            rect: observed[i].rect,
            connected: true,
        }),
        overlays_among(observed, synthetic, n).len() == overlays_among(
            observed,
            synthetic,
            n - 1,
        ).len() + (if observed[n - 1].active && observed[n - 1].rect.width > 0 && !synthetic[n
            - 1] {
            1int
        } else {
            0
        }),
    decreases n,
{
    let before = overlays_among(observed, synthetic, n - 1);
    if i == n - 1 {
        before.len() as int
    } else {
        let k = patterns_are_drawn_over_real_outputs(observed, synthetic, n - 1, i);
        if observed[i].active && observed[i].rect.width > 0 && !synthetic[i] {
            assert(overlays_among(observed, synthetic, n)[k] == before[k]);
        }
        k
    }
}

} // verus!
