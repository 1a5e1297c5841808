//! How a canvas is cut up, and when a change of the cut can be made live.
use crate::config::{CanvasRect, Corners, Point, Renderer, TestPattern};
use crate::model::{Real, Rect};
use crate::names::same_text;
use crate::projection_policy::{
    corners_equal, points_equal, rects_equal, same_corners, same_point, same_rect,
};
use vstd::prelude::*;

verus! {

/// Where an output's picture is pinned, in its own pixels.
#[derive(Clone, Copy, Debug, PartialEq, Eq, Structural)]
pub struct Geometry {
    pub corners: Corners,
    pub center: Point,
}

/// The side towards which a seam fades to black.
#[derive(Clone, Copy, Debug, PartialEq, Eq, Structural)]
pub enum FadeTo {
    Left,
    Right,
    Top,
    Bottom,
}

/// A seam along an edge of an output.
#[derive(Clone, Copy, Debug, PartialEq, Eq, Structural)]
pub struct RampSpec {
    pub rect: Rect,
    pub fade_to: FadeTo,
}

/// What one output shows of the canvas.
#[derive(Debug, PartialEq, Eq)]
pub struct SliceSpec {
    pub output: String,
    /// The raster, at its place on the canvas.
    pub source: Rect,
    /// The exact part of the canvas, where it is not the raster itself.
    pub source_rect: Option<CanvasRect>,
    pub geometry: Option<Geometry>,
    pub ramps: Vec<RampSpec>,
}

/// What a [`SliceSpec`] says.
pub struct SliceView {
    pub output: Seq<char>,
    pub source: Rect,
    pub source_rect: Option<CanvasRect>,
    pub geometry: Option<Geometry>,
    pub ramps: Seq<RampSpec>,
}

impl DeepView for SliceSpec {
    type V = SliceView;

    open spec fn deep_view(&self) -> SliceView {
        SliceView {
            output: self.output@,
            source: self.source,
            source_rect: self.source_rect,
            geometry: self.geometry,
            ramps: self.ramps@,
        }
    }
}

impl Clone for SliceSpec {
    fn clone(&self) -> (copy: Self)
        ensures
            copy.deep_view() == self.deep_view(),
    {
        let ramps = self.ramps.clone();
        assert(ramps@ =~= self.ramps@);
        SliceSpec {
            output: self.output.clone(),
            source: self.source,
            source_rect: self.source_rect,
            geometry: self.geometry,
            ramps,
        }
    }
}

/// How a canvas is captured, cut up and shown.
#[derive(Debug, PartialEq, Eq)]
pub struct SlicerSpec {
    pub control_session: String,
    pub source: String,
    pub canvas_width: i32,
    pub canvas_height: i32,
    pub gamma: Real,
    pub black_lift: Real,
    pub pattern: Option<TestPattern>,
    pub free_run: bool,
    pub renderer: Renderer,
    pub slices: Vec<SliceSpec>,
}

/// What a [`SlicerSpec`] says.
pub struct SlicerView {
    pub control_session: Seq<char>,
    pub source: Seq<char>,
    pub canvas_width: i32,
    pub canvas_height: i32,
    pub gamma: Real,
    pub black_lift: Real,
    pub pattern: Option<TestPattern>,
    pub free_run: bool,
    pub renderer: Renderer,
    pub slices: Seq<SliceView>,
}

impl DeepView for SlicerSpec {
    type V = SlicerView;

    open spec fn deep_view(&self) -> SlicerView {
        SlicerView {
            control_session: self.control_session@,
            source: self.source@,
            canvas_width: self.canvas_width,
            canvas_height: self.canvas_height,
            gamma: self.gamma,
            black_lift: self.black_lift,
            pattern: self.pattern,
            free_run: self.free_run,
            renderer: self.renderer,
            slices: self.slices.deep_view(),
        }
    }
}

/// A copy of a list of slices.
pub fn copy_slices(slices: &Vec<SliceSpec>) -> (copy: Vec<SliceSpec>)
    ensures
        copy.deep_view() == slices.deep_view(),
{
    let mut copy: Vec<SliceSpec> = Vec::new();
    let mut i: usize = 0;
    while i < slices.len()
        invariant
            i <= slices@.len(),
            copy@.len() == i,
            forall|j: int| 0 <= j < i ==> (#[trigger] copy@[j]).deep_view() == slices@[j].deep_view(),
        decreases slices@.len() - i,
    {
        copy.push(slices[i].clone());
        i = i + 1;
    }
    assert(copy.deep_view() =~= slices.deep_view());
    copy
}

impl Clone for SlicerSpec {
    fn clone(&self) -> (copy: Self)
        ensures
            copy.deep_view() == self.deep_view(),
    {
        SlicerSpec {
            control_session: self.control_session.clone(),
            source: self.source.clone(),
            canvas_width: self.canvas_width,
            canvas_height: self.canvas_height,
            gamma: self.gamma,
            black_lift: self.black_lift,
            pattern: self.pattern,
            free_run: self.free_run,
            renderer: self.renderer,
            slices: copy_slices(&self.slices),
        }
    }
}

/// The two cuts place the same outputs at the same places.
pub open spec fn same_placement(a: Seq<SliceView>, b: Seq<SliceView>) -> bool {
    &&& a.len() == b.len()
    &&& forall|i: int|
        #![trigger a[i]]
        #![trigger b[i]]
        0 <= i < a.len() ==> a[i].output == b[i].output && a[i].source == b[i].source
}

/// One cut can be replaced by the other without starting over: they capture the
/// same canvas, show it the same way, and place the same outputs alike. The
/// gamma chart is drawn for one gamma, so under it the gamma must stay too.
pub open spec fn topologies_agree(a: SlicerView, b: SlicerView) -> bool {
    &&& a.source == b.source
    &&& a.canvas_width == b.canvas_width
    &&& a.canvas_height == b.canvas_height
    &&& a.pattern == b.pattern
    &&& a.pattern == Some(TestPattern::Gamma) ==> a.gamma == b.gamma
    &&& a.free_run == b.free_run
    &&& a.renderer == b.renderer
    &&& same_placement(a.slices, b.slices)
}

fn placements_equal(a: &Vec<SliceSpec>, b: &Vec<SliceSpec>) -> (equal: bool)
    ensures
        equal == same_placement(a.deep_view(), b.deep_view()),
{
    if a.len() != b.len() {
        return false;
    }
    let ghost x = a.deep_view();
    let ghost y = b.deep_view();
    let mut i: usize = 0;
    while i < a.len()
        invariant
            i <= a@.len(),
            a@.len() == b@.len(),
            x == a.deep_view(),
            y == b.deep_view(),
            forall|j: int|
                #![trigger x[j]]
                #![trigger y[j]]
                0 <= j < i ==> x[j].output == y[j].output && x[j].source == y[j].source,
        decreases a@.len() - i,
    {
        assert(x[i as int] == a@[i as int].deep_view());
        assert(y[i as int] == b@[i as int].deep_view());
        if !same_text(a[i].output.as_str(), b[i].output.as_str()) || a[i].source != b[i].source {
            return false;
        }
        i = i + 1;
    }
    true
}

fn patterns_equal(a: &Option<TestPattern>, b: &Option<TestPattern>) -> (equal: bool)
    ensures
        equal == (*a == *b),
{
    match (a, b) {
        (Some(a), Some(b)) => *a == *b,
        (None, None) => true,
        _ => false,
    }
}

/// Whether one cut can be replaced by the other without starting over.
pub fn same_topology(a: &SlicerSpec, b: &SlicerSpec) -> (same: bool)
    ensures
        same == topologies_agree(a.deep_view(), b.deep_view()),
{
    let gamma_chart = match a.pattern {
        Some(pattern) => pattern == TestPattern::Gamma,
        None => false,
    };
    same_text(a.source.as_str(), b.source.as_str()) && a.canvas_width == b.canvas_width
        && a.canvas_height == b.canvas_height && patterns_equal(&a.pattern, &b.pattern) && (
    !gamma_chart || a.gamma.bits == b.gamma.bits) && a.free_run == b.free_run && a.renderer
        == b.renderer && placements_equal(&a.slices, &b.slices)
}

/// Replacing goes both ways, and chains.
pub proof fn topology_is_an_equivalence(a: SlicerView, b: SlicerView, c: SlicerView)
    ensures
        topologies_agree(a, a),
        topologies_agree(a, b) ==> topologies_agree(b, a),
        topologies_agree(a, b) && topologies_agree(b, c) ==> topologies_agree(a, c),
{
}

/// Whether two optional geometries compare equal.
pub open spec fn same_geometry(a: Option<Geometry>, b: Option<Geometry>) -> bool {
    match (a, b) {
        (Some(a), Some(b)) => same_corners(a.corners, b.corners) && same_point(a.center, b.center),
        (None, None) => true,
        _ => false,
    }
}

/// Whether two optional canvas rectangles compare equal.
pub open spec fn same_source_rect(a: Option<CanvasRect>, b: Option<CanvasRect>) -> bool {
    match (a, b) {
        (Some(a), Some(b)) => same_rect(a, b),
        (None, None) => true,
        _ => false,
    }
}

/// Whether two slices compare equal.
pub open spec fn same_slice(a: SliceView, b: SliceView) -> bool {
    &&& a.output == b.output
    &&& a.source == b.source
    &&& same_source_rect(a.source_rect, b.source_rect)
    &&& same_geometry(a.geometry, b.geometry)
    &&& a.ramps == b.ramps
}

fn ramps_equal(a: &Vec<RampSpec>, b: &Vec<RampSpec>) -> (equal: bool)
    ensures
        equal == (a@ == b@),
{
    if a.len() != b.len() {
        return false;
    }
    let mut i: usize = 0;
    while i < a.len()
        invariant
            i <= a@.len(),
            a@.len() == b@.len(),
            forall|j: int| 0 <= j < i ==> a@[j] == b@[j],
        decreases a@.len() - i,
    {
        if a[i] != b[i] {
            return false;
        }
        i = i + 1;
    }
    assert(a@ =~= b@);
    true
}

/// Whether two slices compare equal.
pub fn slices_equal(a: &SliceSpec, b: &SliceSpec) -> (equal: bool)
    ensures
        equal == same_slice(a.deep_view(), b.deep_view()),
{
    let rects = match (&a.source_rect, &b.source_rect) {
        (Some(a), Some(b)) => rects_equal(a, b),
        (None, None) => true,
        _ => false,
    };
    let geometries = match (&a.geometry, &b.geometry) {
        (Some(a), Some(b)) => corners_equal(&a.corners, &b.corners) && points_equal(
            &a.center,
            &b.center,
        ),
        (None, None) => true,
        _ => false,
    };
    same_text(a.output.as_str(), b.output.as_str()) && a.source == b.source && rects && geometries
        && ramps_equal(&a.ramps, &b.ramps)
}

} // verus!
