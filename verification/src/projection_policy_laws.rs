//! What holds of the geometry policy.
use crate::config::{
    default_projection, DesiredView, OutputConfigView, OutputGeometry, ProjectionMode, Renderer,
};
use crate::model::{magnitude_bits, OutputMatchView, Real};
use crate::model_laws::same_number;
use crate::projection::slice_laws::at_one_place;
use crate::projection_policy::{
    asks_simple, capability, correction_differs, effective_mode, entry_for, geometry_status,
    is_first_entry, needs_warp, projection_of, refusal, retained, retained_output, ControlView,
    GeometryView,
};
use vstd::prelude::*;
use vstd::string::*;

verus! {

/// Keeping twice is keeping once.
pub proof fn retention_is_idempotent(next: DesiredView, saved: DesiredView)
    ensures
        retained(retained(next, saved), saved) == retained(next, saved),
{
    if asks_simple(next) {
        let once = retained(next, saved);
        let twice = retained(once, saved);
        assert(asks_simple(once));
        assert forall|i: int| 0 <= i < once.outputs.len() implies once.outputs[i]
            == twice.outputs[i] by {
            assert(once.outputs[i] == retained_output(next.outputs[i], saved.outputs));
            assert(twice.outputs[i] == retained_output(once.outputs[i], saved.outputs));
        }
        assert(once.outputs =~= twice.outputs);
    }
}

/// A state that asks for plain pictures cannot lose a saved correction by
/// leaving it out.
pub proof fn simple_edits_keep_saved_geometry(next: DesiredView, saved: DesiredView, i: int)
    requires
        asks_simple(next),
        0 <= i < next.outputs.len(),
        next.outputs[i].geometry is None,
        entry_for(saved.outputs, next.outputs[i].matching) is Some,
    ensures
        retained(next, saved).outputs[i].geometry == entry_for(
            saved.outputs,
            next.outputs[i].matching,
        )->0.geometry,
{
}

/// A state that asks for plain pictures cannot lose the saved canvas by leaving
/// it out.
pub proof fn simple_edits_keep_saved_canvas(next: DesiredView, saved: DesiredView)
    requires
        asks_simple(next),
        projection_of(next).canvas is None,
        saved.projection is Some,
        saved.projection->0.canvas is Some,
    ensures
        retained(next, saved).projection is Some,
        retained(next, saved).projection->0.canvas == saved.projection->0.canvas,
        retained(next, saved).projection->0.mode == ProjectionMode::Simple,
{
}

/// What a state spells out stays as it is spelled: its canvas, its geometry, and
/// everything that is not geometry. An output that is deleted stays deleted.
pub proof fn explicit_edits_survive(next: DesiredView, saved: DesiredView, i: int)
    requires
        0 <= i < next.outputs.len(),
    ensures
        retained(next, saved).outputs.len() == next.outputs.len(),
        next.outputs[i].geometry is Some ==> retained(next, saved).outputs[i] == next.outputs[i],
        retained(next, saved).outputs[i] == (OutputConfigView {
            geometry: retained(next, saved).outputs[i].geometry,
            ..next.outputs[i]
        }),
        projection_of(next).canvas is Some ==> retained(next, saved).projection == next.projection,
        retained(next, saved).apps == next.apps,
        retained(next, saved).backgrounds == next.backgrounds,
        retained(next, saved).active_app == next.active_app,
{
}

/// A state that asks for warped pictures is taken as it is.
pub proof fn warp_edits_are_taken_as_they_are(next: DesiredView, saved: DesiredView)
    requires
        !asks_simple(next),
    ensures
        retained(next, saved) == next,
{
}

/// Pictures are warped only where that is asked for, and only where the
/// pipeline is verified to warp or was warping before a probe that is still
/// pending.
pub proof fn warp_needs_capability(
    desired: DesiredView,
    control: ControlView,
    running: bool,
    allow_overlaps: bool,
    previous: Option<GeometryView>,
)
    ensures
        ({
            let status = geometry_status(desired, control, running, allow_overlaps, previous);
            status.effective_mode == ProjectionMode::Warp ==> {
                &&& status.requested_mode == ProjectionMode::Warp
                &&& allow_overlaps
                &&& status.requested_renderer != Renderer::Cpu
                &&& status.warp_available == Some(true) || (status.warp_available is None
                    && previous is Some && previous->0.effective_mode == ProjectionMode::Warp)
            }
        }),
{
}

/// A pending probe does not make the mode oscillate: from one pending status to
/// the next, the mode in force stays what it was.
pub proof fn pending_probe_does_not_oscillate(
    desired: DesiredView,
    control: ControlView,
    next_control: ControlView,
    running: bool,
    next_running: bool,
    allow_overlaps: bool,
    previous: Option<GeometryView>,
)
    requires
        capability(projection_of(desired).renderer, next_control, next_running, allow_overlaps).0
            is None,
        capability(projection_of(desired).renderer, control, running, allow_overlaps).0 != Some(
            false,
        ),
    ensures
        ({
            let first = geometry_status(desired, control, running, allow_overlaps, previous);
            geometry_status(
                desired,
                next_control,
                next_running,
                allow_overlaps,
                Some(first),
            ).effective_mode == first.effective_mode
        }),
{
}

/// A probe that says no ends the warp, whatever was in force before.
pub proof fn failed_probe_selects_simple(
    desired: DesiredView,
    control: ControlView,
    previous: Option<GeometryView>,
)
    requires
        control.warp_available == Some(false),
        control.requested_renderer == Some(projection_of(desired).renderer),
    ensures
        geometry_status(desired, control, true, true, previous).effective_mode
            == ProjectionMode::Simple,
{
}

/// A change of renderer is a new pipeline: an old warp is not carried over.
pub proof fn changed_renderer_must_be_probed(
    desired: DesiredView,
    control: ControlView,
    running: bool,
    allow_overlaps: bool,
    previous: GeometryView,
)
    requires
        previous.requested_renderer != projection_of(desired).renderer,
        capability(projection_of(desired).renderer, control, running, allow_overlaps).0 != Some(
            true,
        ),
    ensures
        geometry_status(desired, control, running, allow_overlaps, Some(previous)).effective_mode
            == ProjectionMode::Simple,
{
}

/// A number that compares equal to itself.
pub open spec fn is_number(a: Real) -> bool {
    magnitude_bits(a.bits) <= 0x7ff0_0000_0000_0000
}

/// Every number of a correction compares equal to itself.
pub open spec fn is_correction(g: OutputGeometry) -> bool {
    &&& is_number(g.corners.top_left.x) && is_number(g.corners.top_left.y)
    &&& is_number(g.corners.top_right.x) && is_number(g.corners.top_right.y)
    &&& is_number(g.corners.bottom_right.x) && is_number(g.corners.bottom_right.y)
    &&& is_number(g.corners.bottom_left.x) && is_number(g.corners.bottom_left.y)
    &&& is_number(g.center.x) && is_number(g.center.y)
    &&& is_number(g.raster_footprint.x) && is_number(g.raster_footprint.y)
    &&& is_number(g.raster_footprint.width) && is_number(g.raster_footprint.height)
}

/// While warping is asked for and the pipeline has fallen back, the canvas and
/// the part of it that each output shows stay editable: only the correction is
/// guarded.
pub proof fn shared_edits_are_allowed_during_fallback(next: DesiredView, previous: DesiredView)
    requires
        projection_of(previous).mode == ProjectionMode::Warp,
        next.outputs.len() == previous.outputs.len(),
        forall|i: int, j: int|
            0 <= i < j < previous.outputs.len() ==> (#[trigger] previous.outputs[i]).matching != (
            #[trigger] previous.outputs[j]).matching,
        forall|i: int|
            #![trigger next.outputs[i]]
            #![trigger previous.outputs[i]]
            0 <= i < next.outputs.len() ==> {
                let new = next.outputs[i];
                let old = previous.outputs[i];
                &&& new.matching == old.matching
                &&& new.geometry is Some <==> old.geometry is Some
                &&& new.geometry is Some ==> is_correction(old.geometry->0)
                    && new.geometry->0.corners == old.geometry->0.corners
                    && new.geometry->0.center == old.geometry->0.center
                    && new.geometry->0.raster_footprint == old.geometry->0.raster_footprint
            },
    ensures
        !needs_warp(next, previous),
{
    assert forall|i: int| 0 <= i < next.outputs.len() implies !correction_differs(
        #[trigger] next.outputs[i],
        previous.outputs,
    ) by {
        let rule = next.outputs[i].matching;
        assert(previous.outputs[i].matching == rule);
        assert forall|j: int| 0 <= j < i implies (#[trigger] previous.outputs[j]).matching
            != rule by {
            assert(previous.outputs[j].matching != previous.outputs[i].matching);
        }
        assert(is_first_entry(previous.outputs, rule, i));
        let k = choose|k: int| is_first_entry(previous.outputs, rule, k);
        assert(is_first_entry(previous.outputs, rule, k));
        assert(previous.outputs[k].matching == previous.outputs[i].matching);
        assert(k == i);
    }
}

/// Whether geometry can be corrected is ruled out without overlaps and on the
/// processor, is what the running pipeline says of the renderer that is asked for, and
/// is otherwise not known; a reason is given wherever it is not plainly known.
pub proof fn capability_is_what_the_pipeline_says(
    renderer: Renderer,
    control: ControlView,
    running: bool,
    allow_overlaps: bool,
)
    ensures
        ({
            let (available, reason) = capability(renderer, control, running, allow_overlaps);
            let answered = running && control.requested_renderer == Some(renderer);
            &&& !allow_overlaps ==> available == Some(false) && reason == Some(
                "warping requires allow_overlaps=true and the canvas slicer"@,
            )
            &&& allow_overlaps && renderer == Renderer::Cpu ==> available == Some(false) && reason
                == Some(
                "the selected CPU renderer supports simple rectangles only; select Auto or GPU to probe warp support"@,
            )
            &&& allow_overlaps && renderer != Renderer::Cpu && answered ==> available
                == control.warp_available
            &&& allow_overlaps && renderer != Renderer::Cpu && answered
                && control.warp_reason is Some ==> reason == control.warp_reason
            &&& allow_overlaps && renderer != Renderer::Cpu && answered
                && control.warp_reason is None && available is None ==> reason == Some(
                "waiting for the current capture/presentation capability probe"@,
            )
            &&& allow_overlaps && renderer != Renderer::Cpu && answered
                && control.warp_reason is None && available is Some ==> reason is None
            &&& allow_overlaps && renderer != Renderer::Cpu && !answered ==> available is None
                && reason == Some(
                "warp capability is not verified; run content or a calibration pattern to probe the selected pipeline"@,
            )
        }),
{
}

/// What is told of the geometry is what was asked for, what can be had, and that
/// geometry is corrected exactly where it was asked for and can be, or was and is being
/// probed again with the same renderer.
pub proof fn geometry_is_told_as_it_is(
    desired: DesiredView,
    control: ControlView,
    running: bool,
    allow_overlaps: bool,
    previous: Option<GeometryView>,
)
    ensures
        ({
            let told = geometry_status(desired, control, running, allow_overlaps, previous);
            let asked = if desired.projection is Some {
                desired.projection->0
            } else {
                default_projection()
            };
            let (available, reason) = capability(
                asked.renderer,
                control,
                running,
                allow_overlaps,
            );
            &&& told.requested_renderer == asked.renderer
            &&& told.requested_mode == asked.mode
            &&& told.warp_available == available
            &&& told.reason == reason
            &&& told.effective_mode == ProjectionMode::Warp <==> asked.mode == ProjectionMode::Warp
                && (available == Some(true) || (available is None && previous is Some
                && previous->0.effective_mode == ProjectionMode::Warp
                && previous->0.requested_renderer == asked.renderer))
            &&& told.retained_warp <==> asked.canvas is Some && exists|i: int|
                0 <= i < desired.outputs.len() && (#[trigger] desired.outputs[i]).geometry is Some
        }),
{
}

/// A saved output is found by the first that has the very same rule.
pub proof fn saved_outputs_are_found_by_rule(
    outputs: Seq<OutputConfigView>,
    rule: OutputMatchView,
)
    ensures
        match entry_for(outputs, rule) {
            Some(found) => exists|i: int|
                0 <= i < outputs.len() && #[trigger] outputs[i] == found && found.matching == rule
                    && forall|j: int| 0 <= j < i ==> (#[trigger] outputs[j]).matching != rule,
            None => forall|j: int|
                0 <= j < outputs.len() ==> (#[trigger] outputs[j]).matching != rule,
        },
{
    match entry_for(outputs, rule) {
        Some(found) => {
            let i = choose|i: int| is_first_entry(outputs, rule, i);
            assert(is_first_entry(outputs, rule, i));
            assert(outputs[i] == found);
        },
        None => {
            assert forall|j: int| 0 <= j < outputs.len() implies (#[trigger] outputs[j]).matching
                != rule by {
                if outputs[j].matching == rule {
                    lemma_first_entry_exists(outputs, rule, j);
                }
            }
        },
    }
}

proof fn lemma_first_entry_exists(outputs: Seq<OutputConfigView>, rule: OutputMatchView, j: int)
    requires
        0 <= j < outputs.len(),
        outputs[j].matching == rule,
    ensures
        exists|i: int| is_first_entry(outputs, rule, i),
    decreases j,
{
    if exists|k: int| 0 <= k < j && (#[trigger] outputs[k]).matching == rule {
        let k = choose|k: int| 0 <= k < j && (#[trigger] outputs[k]).matching == rule;
        lemma_first_entry_exists(outputs, rule, k);
    } else {
        assert(is_first_entry(outputs, rule, j));
    }
}

/// Two corrections are the same, number by number: the pins and the place of the raster.
pub open spec fn correct_alike(a: OutputGeometry, b: OutputGeometry) -> bool {
    &&& at_one_place(a.corners.top_left, b.corners.top_left)
    &&& at_one_place(a.corners.top_right, b.corners.top_right)
    &&& at_one_place(a.corners.bottom_right, b.corners.bottom_right)
    &&& at_one_place(a.corners.bottom_left, b.corners.bottom_left)
    &&& at_one_place(a.center, b.center)
    &&& same_number(a.raster_footprint.x, b.raster_footprint.x)
    &&& same_number(a.raster_footprint.y, b.raster_footprint.y)
    &&& same_number(a.raster_footprint.width, b.raster_footprint.width)
    &&& same_number(a.raster_footprint.height, b.raster_footprint.height)
}

/// A correction differs from the saved one where only one of them is there, and where
/// any number of a pin or of the raster's place differs; it does not where both are
/// missing.
pub proof fn corrections_differ_in_a_number(
    output: OutputConfigView,
    saved: Seq<OutputConfigView>,
)
    ensures
        ({
            let old = match entry_for(saved, output.matching) {
                Some(old) => old.geometry,
                None => None,
            };
            &&& old is Some != output.geometry is Some ==> correction_differs(output, saved)
            &&& old is None && output.geometry is None ==> !correction_differs(output, saved)
            &&& old is Some && output.geometry is Some && !correct_alike(
                old->0,
                output.geometry->0,
            ) ==> correction_differs(output, saved)
            &&& old is Some && output.geometry is Some && is_correction(old->0) && correct_alike(
                old->0,
                output.geometry->0,
            ) ==> !correction_differs(output, saved)
        }),
{
}

/// Correcting geometry has to be possible first where it is switched on, and where it is
/// on and some correction differs; never where it is off.
pub proof fn corrections_need_capability(next: DesiredView, previous: DesiredView, i: int)
    requires
        0 <= i < next.outputs.len(),
    ensures
        projection_of(next).mode == ProjectionMode::Simple ==> !needs_warp(next, previous),
        projection_of(next).mode == ProjectionMode::Warp && projection_of(previous).mode
            == ProjectionMode::Simple ==> needs_warp(next, previous),
        projection_of(next).mode == ProjectionMode::Warp && correction_differs(
            next.outputs[i],
            previous.outputs,
        ) ==> needs_warp(next, previous),
{
}

/// A refusal says that correcting is unavailable, why, and what remains saved.
pub proof fn refusals_say_what_remains(reason: Seq<char>)
    ensures
        refusal(Some(reason)) == "warp_unavailable: "@ + reason
            + "; retained warp settings remain saved; use simple mode until capability is verified"@,
        refusal(None) == "warp_unavailable: "@ + "the selected pipeline cannot warp"@
            + "; retained warp settings remain saved; use simple mode until capability is verified"@,
{
}

/// Without a projection nothing is corrected, the renderer is chosen by itself, outputs
/// blend with a gamma of 2.2 and no lift, no pattern is shown, and outputs run in step.
pub proof fn projection_has_defaults()
    ensures
        default_projection().mode == ProjectionMode::Simple,
        default_projection().canvas is None,
        default_projection().renderer == Renderer::Auto,
        default_projection().blend,
        default_projection().gamma.bits == 0x4001_9999_9999_999a,
        default_projection().black_lift.bits == 0,
        default_projection().test_pattern is None,
        !default_projection().free_run,
{
}

/// An output runs in the mode that is configured for it, and without one in the mode
/// that was adopted for it.
pub proof fn configured_modes_win(config: OutputConfigView)
    ensures
        config.mode is Some ==> config.effective_mode() == config.mode,
        config.mode is None && config.adopted is Some ==> config.effective_mode()
            == config.adopted->0.mode,
        config.mode is None && config.adopted is None ==> config.effective_mode() is None,
{
}

} // verus!
