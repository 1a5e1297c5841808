//! Which geometry is in force: what a pipeline can do decides between warped and
//! plain pictures, and never replaces what the operator saved.
use crate::config::{
    default_projection, DesiredState, DesiredView, OutputConfig, OutputConfigView, OutputGeometry,
    Point, ProjectionConfig, ProjectionMode, Renderer, CanvasRect, Corners,
};
use crate::model::{real_eq, OutputMatch, OutputMatchView};
use vstd::prelude::*;
use vstd::string::*;

verus! {

/// What the running pipeline reports of itself.
#[derive(Clone, Debug)]
pub struct ProjectionControlStatus {
    pub requested_renderer: Option<Renderer>,
    pub effective_renderer: Option<Renderer>,
    pub warp_available: Option<bool>,
    pub warp_reason: Option<String>,
}

impl Default for ProjectionControlStatus {
    fn default() -> (status: Self)
        ensures
            status == (ProjectionControlStatus {
                requested_renderer: None,
                effective_renderer: None,
                warp_available: None,
                warp_reason: None,
            }),
    {
        ProjectionControlStatus {
            requested_renderer: None,
            effective_renderer: None,
            warp_available: None,
            warp_reason: None,
        }
    }
}

/// What a [`ProjectionControlStatus`] says.
pub struct ControlView {
    pub requested_renderer: Option<Renderer>,
    pub effective_renderer: Option<Renderer>,
    pub warp_available: Option<bool>,
    pub warp_reason: Option<Seq<char>>,
}

impl DeepView for ProjectionControlStatus {
    type V = ControlView;

    open spec fn deep_view(&self) -> ControlView {
        ControlView {
            requested_renderer: self.requested_renderer,
            effective_renderer: self.effective_renderer,
            warp_available: self.warp_available,
            warp_reason: self.warp_reason.deep_view(),
        }
    }
}

/// Which geometry was asked for, and which is in force.
#[derive(Clone, Debug)]
pub struct ProjectionGeometryStatus {
    pub requested_renderer: Renderer,
    pub requested_mode: ProjectionMode,
    pub effective_mode: ProjectionMode,
    pub warp_available: Option<bool>,
    pub reason: Option<String>,
    /// A correction is saved, in force or not.
    pub retained_warp: bool,
}

/// What a [`ProjectionGeometryStatus`] says.
pub struct GeometryView {
    pub requested_renderer: Renderer,
    pub requested_mode: ProjectionMode,
    pub effective_mode: ProjectionMode,
    pub warp_available: Option<bool>,
    pub reason: Option<Seq<char>>,
    pub retained_warp: bool,
}

impl DeepView for ProjectionGeometryStatus {
    type V = GeometryView;

    open spec fn deep_view(&self) -> GeometryView {
        GeometryView {
            requested_renderer: self.requested_renderer,
            requested_mode: self.requested_mode,
            effective_mode: self.effective_mode,
            warp_available: self.warp_available,
            reason: self.reason.deep_view(),
            retained_warp: self.retained_warp,
        }
    }
}

/// The projection asked for.
pub open spec fn projection_of(desired: DesiredView) -> ProjectionConfig {
    match desired.projection {
        Some(projection) => projection,
        None => default_projection(),
    }
}

/// Some output has geometry.
pub open spec fn any_geometry(outputs: Seq<OutputConfigView>) -> bool {
    exists|i: int| 0 <= i < outputs.len() && (#[trigger] outputs[i]).geometry is Some
}

/// Whether the pipeline can warp, and why that is so.
pub open spec fn capability(
    renderer: Renderer,
    control: ControlView,
    running: bool,
    allow_overlaps: bool,
) -> (Option<bool>, Option<Seq<char>>) {
    if !allow_overlaps {
        (Some(false), Some("warping requires allow_overlaps=true and the canvas slicer"@))
    } else if renderer == Renderer::Cpu {
        (
            Some(false),
            Some(
                "the selected CPU renderer supports simple rectangles only; select Auto or GPU to probe warp support"@,
            ),
        )
    } else if running && control.requested_renderer == Some(renderer) {
        (
            control.warp_available,
            match control.warp_reason {
                Some(reason) => Some(reason),
                None => if control.warp_available is None {
                    Some("waiting for the current capture/presentation capability probe"@)
                } else {
                    None
                },
            },
        )
    } else {
        (
            None,
            Some(
                "warp capability is not verified; run content or a calibration pattern to probe the selected pipeline"@,
            ),
        )
    }
}

/// The mode in force. A warp that is already in force stays through a probe
/// that has not answered yet; a probe that says no ends it.
pub open spec fn effective_mode(
    projection: ProjectionConfig,
    available: Option<bool>,
    previous: Option<GeometryView>,
) -> ProjectionMode {
    let kept = previous is Some && previous->0.effective_mode == ProjectionMode::Warp
        && previous->0.requested_renderer == projection.renderer;
    if projection.mode == ProjectionMode::Warp && (available == Some(true) || (available is None
        && kept)) {
        ProjectionMode::Warp
    } else {
        ProjectionMode::Simple
    }
}

/// The geometry status of a desired state.
pub open spec fn geometry_status(
    desired: DesiredView,
    control: ControlView,
    running: bool,
    allow_overlaps: bool,
    previous: Option<GeometryView>,
) -> GeometryView {
    let projection = projection_of(desired);
    let (available, reason) = capability(projection.renderer, control, running, allow_overlaps);
    GeometryView {
        requested_renderer: projection.renderer,
        requested_mode: projection.mode,
        effective_mode: effective_mode(projection, available, previous),
        warp_available: available,
        reason,
        retained_warp: projection.canvas is Some && any_geometry(desired.outputs),
    }
}

fn has_geometry(outputs: &Vec<OutputConfig>) -> (found: bool)
    ensures
        found == any_geometry(outputs.deep_view()),
{
    let ghost views = outputs.deep_view();
    let mut i: usize = 0;
    while i < outputs.len()
        invariant
            i <= outputs@.len(),
            views == outputs.deep_view(),
            forall|j: int| 0 <= j < i ==> (#[trigger] views[j]).geometry is None,
        decreases outputs@.len() - i,
    {
        assert(views[i as int] == outputs@[i as int].deep_view());
        if outputs[i].geometry.is_some() {
            return true;
        }
        i = i + 1;
    }
    false
}

/// Which geometry a desired state asks for, and which is in force.
pub fn status(
    desired: &DesiredState,
    control: &ProjectionControlStatus,
    running: bool,
    allow_overlaps: bool,
    previous: Option<&ProjectionGeometryStatus>,
) -> (status: ProjectionGeometryStatus)
    ensures
        status.deep_view() == geometry_status(
            desired.deep_view(),
            control.deep_view(),
            running,
            allow_overlaps,
            previous.deep_view(),
        ),
{
    let projection = match desired.projection {
        Some(projection) => projection,
        None => ProjectionConfig::default(),
    };
    let retained_warp = projection.canvas.is_some() && has_geometry(&desired.outputs);
    let matching = match control.requested_renderer {
        Some(requested) => requested == projection.renderer,
        None => false,
    };
    let (available, reason) = if !allow_overlaps {
        (
            Some(false),
            Some("warping requires allow_overlaps=true and the canvas slicer".to_owned()),
        )
    } else if projection.renderer == Renderer::Cpu {
        (
            Some(false),
            Some(
                "the selected CPU renderer supports simple rectangles only; select Auto or GPU to probe warp support".to_owned(),
            ),
        )
    } else if running && matching {
        let reason = match &control.warp_reason {
            Some(reason) => Some(reason.clone()),
            None => if control.warp_available.is_none() {
                Some("waiting for the current capture/presentation capability probe".to_owned())
            } else {
                None
            },
        };
        (control.warp_available, reason)
    } else {
        (
            None,
            Some(
                "warp capability is not verified; run content or a calibration pattern to probe the selected pipeline".to_owned(),
            ),
        )
    };
    let kept = match previous {
        Some(previous) => previous.effective_mode == ProjectionMode::Warp
            && previous.requested_renderer == projection.renderer,
        None => false,
    };
    let verified = match available {
        Some(available) => available,
        None => kept,
    };
    let effective_mode = if projection.mode == ProjectionMode::Warp && verified {
        ProjectionMode::Warp
    } else {
        ProjectionMode::Simple
    };
    ProjectionGeometryStatus {
        requested_renderer: projection.renderer,
        requested_mode: projection.mode,
        effective_mode,
        warp_available: available,
        reason,
        retained_warp,
    }
}

/// Whether the entry at `i` is the first for a rule.
pub open spec fn is_first_entry(
    outputs: Seq<OutputConfigView>,
    rule: OutputMatchView,
    i: int,
) -> bool {
    &&& 0 <= i < outputs.len()
    &&& outputs[i].matching == rule
    &&& forall|j: int| 0 <= j < i ==> (#[trigger] outputs[j]).matching != rule
}

/// The first entry for a rule.
pub open spec fn entry_for(outputs: Seq<OutputConfigView>, rule: OutputMatchView) -> Option<
    OutputConfigView,
> {
    if exists|i: int| is_first_entry(outputs, rule, i) {
        Some(outputs[choose|i: int| is_first_entry(outputs, rule, i)])
    } else {
        None
    }
}

fn find_entry<'a>(outputs: &'a Vec<OutputConfig>, rule: &OutputMatch) -> (found: Option<
    &'a OutputConfig,
>)
    ensures
        found.deep_view() == entry_for(outputs.deep_view(), rule.deep_view()),
{
    let ghost views = outputs.deep_view();
    let ghost wanted = rule.deep_view();
    let mut i: usize = 0;
    while i < outputs.len()
        invariant
            i <= outputs@.len(),
            views == outputs.deep_view(),
            wanted == rule.deep_view(),
            forall|j: int| 0 <= j < i ==> (#[trigger] views[j]).matching != wanted,
        decreases outputs@.len() - i,
    {
        assert(views[i as int] == outputs@[i as int].deep_view());
        if outputs[i].matching.same(rule) {
            proof {
                assert(is_first_entry(views, wanted, i as int));
                let k = choose|k: int| is_first_entry(views, wanted, k);
                assert(is_first_entry(views, wanted, k));
                assert(views[k].matching == wanted && views[i as int].matching == wanted);
                assert(k == i);
            }
            return Some(&outputs[i]);
        }
        i = i + 1;
    }
    assert forall|k: int| !is_first_entry(views, wanted, k) by {
        if 0 <= k < views.len() {
            assert(views[k].matching != wanted);
        }
    }
    None
}

/// An output whose geometry was left out takes the saved one.
pub open spec fn retained_output(
    output: OutputConfigView,
    saved: Seq<OutputConfigView>,
) -> OutputConfigView {
    match entry_for(saved, output.matching) {
        Some(old) => if output.geometry is None {
            OutputConfigView { geometry: old.geometry, ..output }
        } else {
            output
        },
        None => output,
    }
}

/// The projection that is kept: a canvas that was left out is the saved one.
pub open spec fn retained_projection(
    next: Option<ProjectionConfig>,
    saved: Option<ProjectionConfig>,
) -> Option<ProjectionConfig> {
    if saved is Some && saved->0.canvas is Some {
        let projection = match next {
            Some(projection) => projection,
            None => default_projection(),
        };
        if projection.canvas is None {
            Some(ProjectionConfig { canvas: saved->0.canvas, ..projection })
        } else {
            Some(projection)
        }
    } else {
        next
    }
}

/// The state asks for plain pictures.
pub open spec fn asks_simple(desired: DesiredView) -> bool {
    desired.projection is None || desired.projection->0.mode == ProjectionMode::Simple
}

/// What is kept of a new state: one that asks for plain pictures keeps the saved
/// canvas and geometry wherever it leaves them out.
pub open spec fn retained(next: DesiredView, saved: DesiredView) -> DesiredView {
    if asks_simple(next) {
        DesiredView {
            projection: retained_projection(next.projection, saved.projection),
            outputs: next.outputs.map_values(
                |output: OutputConfigView| retained_output(output, saved.outputs),
            ),
            ..next
        }
    } else {
        next
    }
}

/// Keeps the saved canvas and geometry in a state that asks for plain pictures
/// and leaves them out. What the new state spells out stays, and an output that
/// it leaves out stays left out.
pub fn preserve_retained(next: &mut DesiredState, previous: &DesiredState)
    ensures
        final(next).deep_view() == retained(old(next).deep_view(), previous.deep_view()),
{
    let simple = match next.projection {
        Some(projection) => projection.mode == ProjectionMode::Simple,
        None => true,
    };
    if !simple {
        return;
    }
    let ghost before = next.deep_view();
    let ghost saved = previous.deep_view();
    if let Some(old) = previous.projection {
        if old.canvas.is_some() {
            let mut projection = match next.projection {
                Some(projection) => projection,
                None => ProjectionConfig::default(),
            };
            if projection.canvas.is_none() {
                projection.canvas = old.canvas;
            }
            next.projection = Some(projection);
        }
    }
    let ghost kept = |output: OutputConfigView| retained_output(output, saved.outputs);
    let mut i: usize = 0;
    while i < next.outputs.len()
        invariant
            i <= next.outputs@.len(),
            saved == previous.deep_view(),
            kept == (|output: OutputConfigView| retained_output(output, saved.outputs)),
            next.outputs@.len() == before.outputs.len(),
            forall|j: int|
                0 <= j < i ==> (#[trigger] next.outputs@[j]).deep_view() == kept(
                    before.outputs[j],
                ),
            forall|j: int|
                i <= j < next.outputs@.len() ==> (#[trigger] next.outputs@[j]).deep_view()
                    == before.outputs[j],
            next.projection == retained_projection(before.projection, saved.projection),
            next.backgrounds.deep_view() == before.backgrounds,
            next.apps.deep_view() == before.apps,
            next.active_app.deep_view() == before.active_app,
            next.hide_cursor == before.hide_cursor,
            next.revision == before.revision,
        decreases next.outputs@.len() - i,
    {
        assert(next.outputs@[i as int].deep_view() == before.outputs[i as int]);
        if next.outputs[i].geometry.is_none() {
            if let Some(old) = find_entry(&previous.outputs, &next.outputs[i].matching) {
                next.outputs[i].geometry = old.geometry;
            }
        }
        assert(next.outputs@[i as int].deep_view() == kept(before.outputs[i as int]));
        i = i + 1;
    }
    assert(next.outputs.deep_view() =~= before.outputs.map_values(kept));
}

/// Whether two canvas rectangles compare equal.
pub open spec fn same_rect(a: CanvasRect, b: CanvasRect) -> bool {
    real_eq(a.x, b.x) && real_eq(a.y, b.y) && real_eq(a.width, b.width) && real_eq(
        a.height,
        b.height,
    )
}

/// Whether two points compare equal.
pub open spec fn same_point(a: Point, b: Point) -> bool {
    real_eq(a.x, b.x) && real_eq(a.y, b.y)
}

/// Whether two quadrilaterals compare equal.
pub open spec fn same_corners(a: Corners, b: Corners) -> bool {
    same_point(a.top_left, b.top_left) && same_point(a.top_right, b.top_right) && same_point(
        a.bottom_right,
        b.bottom_right,
    ) && same_point(a.bottom_left, b.bottom_left)
}

/// Whether two geometries correct their picture alike. The part of the canvas
/// that they show may differ.
pub open spec fn same_correction(a: OutputGeometry, b: OutputGeometry) -> bool {
    same_corners(a.corners, b.corners) && same_point(a.center, b.center) && same_rect(
        a.raster_footprint,
        b.raster_footprint,
    )
}

pub(crate) fn rects_equal(a: &CanvasRect, b: &CanvasRect) -> (equal: bool)
    ensures
        equal == same_rect(*a, *b),
{
    a.x.equals(b.x) && a.y.equals(b.y) && a.width.equals(b.width) && a.height.equals(b.height)
}

pub(crate) fn points_equal(a: &Point, b: &Point) -> (equal: bool)
    ensures
        equal == same_point(*a, *b),
{
    a.x.equals(b.x) && a.y.equals(b.y)
}

pub(crate) fn corners_equal(a: &Corners, b: &Corners) -> (equal: bool)
    ensures
        equal == same_corners(*a, *b),
{
    points_equal(&a.top_left, &b.top_left) && points_equal(&a.top_right, &b.top_right)
        && points_equal(&a.bottom_right, &b.bottom_right) && points_equal(
        &a.bottom_left,
        &b.bottom_left,
    )
}

/// The correction of an output is another than the saved one.
pub open spec fn correction_differs(
    output: OutputConfigView,
    saved: Seq<OutputConfigView>,
) -> bool {
    let old = match entry_for(saved, output.matching) {
        Some(old) => old.geometry,
        None => None,
    };
    match (old, output.geometry) {
        (Some(old), Some(new)) => !same_correction(old, new),
        (None, None) => false,
        _ => true,
    }
}

/// Some output's correction is another than the saved one.
pub open spec fn any_correction_differs(
    outputs: Seq<OutputConfigView>,
    saved: Seq<OutputConfigView>,
) -> bool {
    exists|i: int| 0 <= i < outputs.len() && correction_differs(#[trigger] outputs[i], saved)
}

fn output_correction_differs(output: &OutputConfig, saved: &Vec<OutputConfig>) -> (differs: bool)
    ensures
        differs == correction_differs(output.deep_view(), saved.deep_view()),
{
    let old = match find_entry(saved, &output.matching) {
        Some(old) => old.geometry,
        None => None,
    };
    match (old, output.geometry) {
        (Some(old), Some(new)) => !(corners_equal(&old.corners, &new.corners) && points_equal(
            &old.center,
            &new.center,
        ) && rects_equal(&old.raster_footprint, &new.raster_footprint)),
        (None, None) => false,
        _ => true,
    }
}

fn correction_changed(outputs: &Vec<OutputConfig>, saved: &Vec<OutputConfig>) -> (changed: bool)
    ensures
        changed == any_correction_differs(outputs.deep_view(), saved.deep_view()),
{
    let ghost views = outputs.deep_view();
    let mut i: usize = 0;
    while i < outputs.len()
        invariant
            i <= outputs@.len(),
            views == outputs.deep_view(),
            forall|j: int|
                0 <= j < i ==> !correction_differs(#[trigger] views[j], saved.deep_view()),
        decreases outputs@.len() - i,
    {
        assert(views[i as int] == outputs@[i as int].deep_view());
        if output_correction_differs(&outputs[i], saved) {
            return true;
        }
        i = i + 1;
    }
    false
}

/// A change needs a pipeline that can warp: it turns warping on, or changes a
/// correction while warping is asked for.
pub open spec fn needs_warp(next: DesiredView, previous: DesiredView) -> bool {
    &&& projection_of(next).mode == ProjectionMode::Warp
    &&& projection_of(previous).mode != ProjectionMode::Warp || any_correction_differs(
        next.outputs,
        previous.outputs,
    )
}

/// Why a change that needs warping is refused.
pub open spec fn refusal(reason: Option<Seq<char>>) -> Seq<char> {
    "warp_unavailable: "@ + (match reason {
        Some(reason) => reason,
        None => "the selected pipeline cannot warp"@,
    })
        + "; retained warp settings remain saved; use simple mode until capability is verified"@
}

/// Whether a new state may be activated. Turning warping on, or changing a
/// correction under it, needs a pipeline that is verified to warp.
pub fn validate_activation(
    next: &DesiredState,
    previous: &DesiredState,
    control: &ProjectionControlStatus,
    running: bool,
    allow_overlaps: bool,
) -> (verdict: Result<(), String>)
    ensures
        ({
            let (available, reason) = capability(
                projection_of(next.deep_view()).renderer,
                control.deep_view(),
                running,
                allow_overlaps,
            );
            let refused = needs_warp(next.deep_view(), previous.deep_view()) && available != Some(
                true,
            );
            &&& verdict is Err <==> refused
            &&& verdict matches Err(text) ==> text@ == refusal(reason)
        }),
{
    let next_mode = match next.projection {
        Some(projection) => projection.mode,
        None => ProjectionMode::Simple,
    };
    if next_mode != ProjectionMode::Warp {
        return Ok(());
    }
    let before_mode = match previous.projection {
        Some(projection) => projection.mode,
        None => ProjectionMode::Simple,
    };
    let correction_changed = correction_changed(&next.outputs, &previous.outputs);
    let capability = status(next, control, running, allow_overlaps, None);
    let available = match capability.warp_available {
        Some(available) => available,
        None => false,
    };
    if !available && (before_mode != ProjectionMode::Warp || correction_changed) {
        let mut text = "warp_unavailable: ".to_owned();
        match &capability.reason {
            Some(reason) => text.append(reason.as_str()),
            None => text.append("the selected pipeline cannot warp"),
        }
        text.append(
            "; retained warp settings remain saved; use simple mode until capability is verified",
        );
        return Err(text);
    }
    Ok(())
}

} // verus!
