//! What is proved of a value is proved of everything that the value holds: no view
//! leaves a field out or changes it.
use crate::config::{AdoptedOutput, AppConfig, AudioConfig, DesiredState, Divergence, OutputConfig};
use crate::model::{Background, BackgroundPreset, Output, OutputMatch, Scale};
use crate::projection::slices::{SliceSpec, SlicerSpec};
use crate::projection::timing::Timing;
use crate::projection::wall::{Presenter, Wall};
use crate::projection::warp_update::{
    ControlEvent, ControlEventKind, Controller, EventView, Key, Request,
};
use crate::reconciler::canvas::{CanvasAction, CanvasActionView, Participant};
use crate::reconciler::plan::{AppTarget, AppliedOutput, OutputPlan};
use vstd::prelude::*;

verus! {

/// A text that may be missing is seen as it is.
pub open spec fn is_text(view: Option<Seq<char>>, text: Option<String>) -> bool {
    match (view, text) {
        (Some(view), Some(text)) => view == text@,
        (None, None) => true,
        _ => false,
    }
}

/// A display is seen as it is reported.
pub proof fn displays_are_seen_whole(output: Output)
    ensures
        ({
            let view = output.deep_view();
            &&& view.name == output.name@
            &&& view.active == output.active
            &&& is_text(view.make, output.make)
            &&& is_text(view.model, output.model)
            &&& is_text(view.serial, output.serial)
            &&& view.current_mode == output.current_mode
            &&& view.modes == output.modes@
            &&& view.rect == output.rect
            &&& view.scale == output.scale
            &&& is_text(view.transform, output.transform)
            &&& is_text(view.adaptive_sync_status, output.adaptive_sync_status)
        }),
{
}

/// A rule is seen as it is written.
pub proof fn rules_are_seen_whole(rule: OutputMatch)
    ensures
        is_text(rule.deep_view().name, rule.name),
        is_text(rule.deep_view().make, rule.make),
        is_text(rule.deep_view().model, rule.model),
        is_text(rule.deep_view().serial, rule.serial),
{
}

/// A background is seen as it is configured.
pub proof fn backgrounds_are_seen_whole(background: Background, preset: BackgroundPreset)
    ensures
        is_text(background.deep_view().wallpaper, background.wallpaper),
        is_text(background.deep_view().color, background.color),
        background.deep_view().mode == background.mode,
        preset.deep_view().0 == preset.id@,
        preset.deep_view().1 == preset.background.deep_view(),
{
}

/// An output's configuration is seen as it is.
pub proof fn configurations_are_seen_whole(config: OutputConfig)
    ensures
        ({
            let view = config.deep_view();
            &&& view.matching == config.matching.deep_view()
            &&& view.enable == config.enable
            &&& view.mode == config.mode
            &&& view.position == config.position
            &&& view.scale is Some <==> config.scale is Some
            &&& config.scale is Some ==> view.scale->0 == config.scale->0.deep_view()
            &&& view.transform == config.transform
            &&& view.adaptive_sync == config.adaptive_sync
            &&& view.allow_tearing == config.allow_tearing
            &&& view.max_render_time_ms == config.max_render_time_ms
            &&& view.background is Some <==> config.background is Some
            &&& config.background is Some ==> view.background->0
                == config.background->0.deep_view()
            &&& view.geometry == config.geometry
            &&& view.adopted is Some <==> config.adopted is Some
            &&& config.adopted is Some ==> view.adopted->0 == config.adopted->0.deep_view()
        }),
{
}

/// What was adopted is seen as it is, and so is a scale.
pub proof fn adopted_values_are_seen_whole(adopted: AdoptedOutput, scale: Scale)
    ensures
        adopted.deep_view().mode == adopted.mode,
        adopted.deep_view().transform == adopted.transform,
        is_text(adopted.deep_view().display, adopted.display),
        adopted.deep_view().scale is Some <==> adopted.scale is Some,
        adopted.scale is Some ==> adopted.deep_view().scale->0 == adopted.scale->0.deep_view(),
        scale.deep_view().value == scale.value,
        scale.deep_view().text == scale.text@,
{
}

/// A program's configuration is seen as it is.
pub proof fn programs_are_seen_whole(app: AppConfig, audio: AudioConfig)
    ensures
        app.deep_view().id == app.id@,
        app.deep_view().enabled == app.enabled,
        app.deep_view().fullscreen == app.fullscreen,
        app.deep_view().span_outputs == app.span_outputs,
        app.deep_view().output is Some <==> app.output is Some,
        app.output is Some ==> app.deep_view().output->0 == app.output->0.deep_view(),
        app.deep_view().audio is Some <==> app.audio is Some,
        app.audio is Some ==> app.deep_view().audio->0 == app.audio->0.deep_view(),
        is_text(audio.deep_view().output, audio.output),
        audio.deep_view().gain_db == audio.gain_db,
{
}

/// What is wanted is seen as it is.
pub proof fn wishes_are_seen_whole(desired: DesiredState, i: int)
    ensures
        ({
            let view = desired.deep_view();
            &&& view.outputs.len() == desired.outputs@.len()
            &&& 0 <= i < desired.outputs@.len() ==> view.outputs[i]
                == desired.outputs@[i].deep_view()
            &&& view.backgrounds.len() == desired.backgrounds@.len()
            &&& 0 <= i < desired.backgrounds@.len() ==> view.backgrounds[i]
                == desired.backgrounds@[i].deep_view()
            &&& view.apps.len() == desired.apps@.len()
            &&& 0 <= i < desired.apps@.len() ==> view.apps[i] == desired.apps@[i].deep_view()
            &&& is_text(view.active_app, desired.active_app)
            &&& view.projection == desired.projection
            &&& view.hide_cursor == desired.hide_cursor
            &&& view.revision == desired.revision
        }),
{
}

/// A report is seen as it is said.
pub proof fn reports_are_seen_whole(said: Divergence)
    ensures
        said.deep_view().kind == said.kind@,
        said.deep_view().subject == said.subject@,
        said.deep_view().detail == said.detail@,
        is_text(said.deep_view().docs_url, said.docs_url),
{
}

/// A slice and a cut are seen as they are.
pub proof fn cuts_are_seen_whole(slice: SliceSpec, cut: SlicerSpec, i: int)
    ensures
        slice.deep_view().output == slice.output@,
        slice.deep_view().source == slice.source,
        slice.deep_view().source_rect == slice.source_rect,
        slice.deep_view().geometry == slice.geometry,
        slice.deep_view().ramps == slice.ramps@,
        ({
            let view = cut.deep_view();
            &&& view.control_session == cut.control_session@
            &&& view.source == cut.source@
            &&& view.canvas_width == cut.canvas_width && view.canvas_height == cut.canvas_height
            &&& view.gamma == cut.gamma && view.black_lift == cut.black_lift
            &&& view.pattern == cut.pattern
            &&& view.free_run == cut.free_run
            &&& view.renderer == cut.renderer
            &&& view.slices.len() == cut.slices@.len()
            &&& 0 <= i < cut.slices@.len() ==> view.slices[i] == cut.slices@[i].deep_view()
        }),
{
}

/// An output that takes part is seen as it is.
pub proof fn participants_are_seen_whole(part: Participant)
    ensures
        part.deep_view().name == part.name@,
        part.deep_view().rect == part.rect,
        part.deep_view().connected == part.connected,
{
}

/// An output of a wall is seen as it is.
pub proof fn presenters_are_seen_whole(presenter: Presenter, wall: Wall, i: int)
    ensures
        ({
            let view = presenter@;
            &&& view.configured == presenter.configured
            &&& view.busy == presenter.busy@
            &&& view.next_buffer == presenter.next_buffer
            &&& view.warp_revision == presenter.warp_revision
            &&& view.warp_submitted_revision == presenter.warp_submitted_revision
            &&& view.warp_reported_revision == presenter.warp_reported_revision
            &&& view.frame_pending == presenter.frame_pending
            &&& view.pending_since == presenter.pending_since
            &&& view.feedback_pending_for == presenter.feedback_pending_for
            &&& view.feedback_since == presenter.feedback_since
            &&& view.stalled == presenter.stalled
            &&& view.stale == presenter.stale
        }),
        wall.views().len() == wall.presenters@.len(),
        0 <= i < wall.presenters@.len() ==> wall.views()[i] == wall.presenters@[i]@,
{
}

/// What is counted of frames is seen as it is.
pub proof fn counts_are_seen_whole(timing: Timing, i: int)
    ensures
        timing@.snapshot_id == timing.snapshot_id,
        timing@.per_output == timing.per_output@,
        timing@.offsets_ns == timing.offsets_ns@,
        timing@.straddles == timing.straddles,
        timing@.pending.len() == timing.pending@.len(),
        0 <= i < timing.pending@.len() ==> timing@.pending[i].0 == timing.pending@[i].id
            && timing@.pending[i].1 == timing.pending@[i].slots@,
        timing@.phase.len() == timing.phase@.len(),
        0 <= i < timing.phase@.len() ==> timing@.phase[i] == timing.phase@[i]@,
{
}

/// What tables are built from, and what waits to be built, is seen as it is.
pub proof fn builds_are_seen_whole(key: Key, request: Request, controller: Controller, i: int)
    ensures
        key.deep_view().slice == key.slice.deep_view(),
        key.deep_view().gamma == key.gamma,
        key.deep_view().lift == key.lift,
        request.deep_view().generation == request.generation,
        request.deep_view().spec == request.spec.deep_view(),
        request.deep_view().keys.len() == request.keys@.len(),
        0 <= i < request.keys@.len() ==> request.deep_view().keys[i]
            == request.keys@[i].deep_view(),
        ({
            let view = controller.deep_view();
            &&& view.spec == controller.spec.deep_view()
            &&& view.sizes == controller.sizes@
            &&& view.installed.len() == controller.installed@.len()
            &&& 0 <= i < controller.installed@.len() ==> (view.installed[i] is Some
                <==> controller.installed@[i] is Some)
            &&& 0 <= i < controller.installed@.len() && controller.installed@[i] is Some
                ==> view.installed[i]->0 == controller.installed@[i]->0.deep_view()
            &&& view.installed_generation == controller.installed_generation
            &&& view.requested_generation == controller.requested_generation
            &&& view.pending is Some <==> controller.pending is Some
            &&& controller.pending is Some ==> view.pending->0
                == controller.pending->0.deep_view()
            &&& view.building == controller.building
            &&& view.closed_reported == controller.closed_reported
            &&& view.restart_required == controller.restart_required
        }),
{
}

/// What is answered to an edit is seen as it is.
pub proof fn answers_are_seen_whole(event: ControlEvent, i: int)
    ensures
        event.deep_view().0 == event.generation,
        event.kind is Accepted <==> event.deep_view().1 is Accepted,
        event.kind is Closed <==> event.deep_view().1 is Closed,
        event.kind matches ControlEventKind::Rejected { reason } ==> event.deep_view().1
            == (EventView::Rejected { reason: reason@ }),
        event.kind matches ControlEventKind::Built { outputs } ==> (
        event.deep_view().1 matches EventView::Built { outputs: names } && names.len()
            == outputs@.len() && (0 <= i < names.len() ==> names[i] == outputs@[i]@)),
{
}

/// A plan is seen as it is.
pub proof fn plans_are_seen_whole(
    plan: OutputPlan,
    applied: AppliedOutput,
    target: AppTarget,
    i: int,
)
    ensures
        plan.deep_view().commands.len() == plan.commands@.len(),
        0 <= i < plan.commands@.len() ==> plan.deep_view().commands[i] == plan.commands@[i]@,
        plan.deep_view().divergences.len() == plan.divergences@.len(),
        0 <= i < plan.divergences@.len() ==> plan.deep_view().divergences[i]
            == plan.divergences@[i].deep_view(),
        plan.deep_view().topology_changed == plan.topology_changed,
        plan.deep_view().workspaces == plan.workspaces@,
        applied.deep_view().config == applied.config.deep_view(),
        applied.deep_view().workspace == applied.workspace,
        applied.deep_view().background is Some <==> applied.background is Some,
        applied.background is Some ==> applied.deep_view().background->0
            == applied.background->0.deep_view(),
        target.deep_view().id == target.id@,
        is_text(target.deep_view().output, target.output),
        target.deep_view().workspace == target.workspace,
        target.deep_view().blocked is Some <==> target.blocked is Some,
        target.blocked is Some ==> target.deep_view().blocked->0 == target.blocked->0.deep_view(),
{
}

/// A step towards the canvas is seen as it is.
pub proof fn steps_are_seen_whole(action: CanvasAction, i: int)
    ensures
        action matches CanvasAction::Create(command) ==> action.deep_view()
            == CanvasActionView::Create(command@),
        action matches CanvasAction::Retire(command) ==> action.deep_view()
            == CanvasActionView::Retire(command@),
        action matches CanvasAction::NoCanvas(said) ==> action.deep_view()
            == CanvasActionView::NoCanvas(said.deep_view()),
        action matches CanvasAction::Overlay { patterns } ==> action.deep_view()
            == (CanvasActionView::Overlay { patterns }),
        action matches CanvasAction::SetUp { canvas, commands } ==> (
        action.deep_view() matches CanvasActionView::SetUp { canvas: name, commands: told } && name
            == canvas@ && told.len() == commands@.len() && (0 <= i < told.len() ==> told[i]
            == commands@[i]@)),
        action matches CanvasAction::Cut { canvas, slicer } ==> (
        action.deep_view() matches CanvasActionView::Cut { canvas: name, slicer: cut } && name
            == canvas@ && (cut is Some <==> slicer is Some) && (slicer is Some ==> cut->0
            == slicer->0.deep_view())),
{
}

} // verus!
