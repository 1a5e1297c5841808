//! What the operator asks for.
use crate::model::{
    copy_text, BackgroundPreset, BackgroundRef, BackgroundRefView, Mode, OutputMatch,
    OutputMatchView, Position, PresetView, Real, Scale, Transform,
};
use vstd::prelude::*;

verus! {

/// What a [`Scale`] says.
pub struct ScaleView {
    pub value: Real,
    pub text: Seq<char>,
}

impl DeepView for Scale {
    type V = ScaleView;

    open spec fn deep_view(&self) -> ScaleView {
        ScaleView { value: self.value, text: self.text@ }
    }
}

impl Clone for Scale {
    fn clone(&self) -> (copy: Self)
        ensures
            copy == *self,
    {
        Scale { value: self.value, text: self.text.clone() }
    }
}

/// A rectangle on the canvas, in canvas widths.
#[derive(Clone, Copy, Debug, PartialEq, Eq, Structural)]
pub struct CanvasRect {
    pub x: Real,
    pub y: Real,
    pub width: Real,
    pub height: Real,
}

/// A point of an output's raster, in fractions of its size.
#[derive(Clone, Copy, Debug, PartialEq, Eq, Structural)]
pub struct Point {
    pub x: Real,
    pub y: Real,
}

/// The four corners that a picture is pinned to.
#[derive(Clone, Copy, Debug, PartialEq, Eq, Structural)]
pub struct Corners {
    pub top_left: Point,
    pub top_right: Point,
    pub bottom_right: Point,
    pub bottom_left: Point,
}

/// Which part of the canvas an output shows, and the correction it applies.
#[derive(Clone, Copy, Debug, PartialEq, Eq, Structural)]
pub struct OutputGeometry {
    pub slice: CanvasRect,
    pub raster_footprint: CanvasRect,
    pub corners: Corners,
    pub center: Point,
}

/// What an output settled on where its configuration left a value unset.
#[derive(Debug, PartialEq, Eq)]
pub struct AdoptedOutput {
    pub mode: Option<Mode>,
    pub scale: Option<Scale>,
    pub transform: Option<Transform>,
    pub display: Option<String>,
}

/// What an [`AdoptedOutput`] says.
pub struct AdoptedView {
    pub mode: Option<Mode>,
    pub scale: Option<ScaleView>,
    pub transform: Option<Transform>,
    pub display: Option<Seq<char>>,
}

impl DeepView for AdoptedOutput {
    type V = AdoptedView;

    open spec fn deep_view(&self) -> AdoptedView {
        AdoptedView {
            mode: self.mode,
            scale: self.scale.deep_view(),
            transform: self.transform,
            display: self.display.deep_view(),
        }
    }
}

fn copy_scale(scale: &Option<Scale>) -> (copy: Option<Scale>)
    ensures
        copy == *scale,
{
    match scale {
        Some(scale) => Some(scale.clone()),
        None => None,
    }
}

impl Clone for AdoptedOutput {
    fn clone(&self) -> (copy: Self)
        ensures
            copy == *self,
    {
        AdoptedOutput {
            mode: self.mode,
            scale: copy_scale(&self.scale),
            transform: self.transform,
            display: copy_text(&self.display),
        }
    }
}

/// What is wanted of one output.
#[derive(Debug, PartialEq, Eq)]
pub struct OutputConfig {
    pub matching: OutputMatch,
    pub enable: bool,
    pub mode: Option<Mode>,
    pub position: Option<Position>,
    pub scale: Option<Scale>,
    pub transform: Option<Transform>,
    pub adaptive_sync: bool,
    pub allow_tearing: bool,
    pub max_render_time_ms: Option<u32>,
    pub background: Option<BackgroundRef>,
    pub geometry: Option<OutputGeometry>,
    pub adopted: Option<AdoptedOutput>,
}

/// What an [`OutputConfig`] says.
pub struct OutputConfigView {
    pub matching: OutputMatchView,
    pub enable: bool,
    pub mode: Option<Mode>,
    pub position: Option<Position>,
    pub scale: Option<ScaleView>,
    pub transform: Option<Transform>,
    pub adaptive_sync: bool,
    pub allow_tearing: bool,
    pub max_render_time_ms: Option<u32>,
    pub background: Option<BackgroundRefView>,
    pub geometry: Option<OutputGeometry>,
    pub adopted: Option<AdoptedView>,
}

impl DeepView for OutputConfig {
    type V = OutputConfigView;

    open spec fn deep_view(&self) -> OutputConfigView {
        OutputConfigView {
            matching: self.matching.deep_view(),
            enable: self.enable,
            mode: self.mode,
            position: self.position,
            scale: self.scale.deep_view(),
            transform: self.transform,
            adaptive_sync: self.adaptive_sync,
            allow_tearing: self.allow_tearing,
            max_render_time_ms: self.max_render_time_ms,
            background: self.background.deep_view(),
            geometry: self.geometry,
            adopted: self.adopted.deep_view(),
        }
    }
}

impl OutputConfigView {
    /// The mode asked for, or else the one the output settled on.
    pub open spec fn effective_mode(self) -> Option<Mode> {
        match self.mode {
            Some(mode) => Some(mode),
            None => match self.adopted {
                Some(adopted) => adopted.mode,
                None => None,
            },
        }
    }
}

impl Clone for OutputConfig {
    fn clone(&self) -> (copy: Self)
        ensures
            copy == *self,
    {
        OutputConfig {
            matching: self.matching.clone(),
            enable: self.enable,
            mode: self.mode,
            position: self.position,
            scale: copy_scale(&self.scale),
            transform: self.transform,
            adaptive_sync: self.adaptive_sync,
            allow_tearing: self.allow_tearing,
            max_render_time_ms: self.max_render_time_ms,
            background: match &self.background {
                Some(background) => Some(background.clone()),
                None => None,
            },
            geometry: self.geometry,
            adopted: match &self.adopted {
                Some(adopted) => Some(adopted.clone()),
                None => None,
            },
        }
    }
}

impl OutputConfig {
    /// An enabled output with nothing else asked of it.
    pub fn new(matching: OutputMatch) -> (config: Self)
        ensures
            config == (OutputConfig {
                matching,
                enable: true,
                mode: None,
                position: None,
                scale: None,
                transform: None,
                adaptive_sync: false,
                allow_tearing: false,
                max_render_time_ms: None,
                background: None,
                geometry: None,
                adopted: None,
            }),
    {
        OutputConfig {
            matching,
            enable: true,
            mode: None,
            position: None,
            scale: None,
            transform: None,
            adaptive_sync: false,
            allow_tearing: false,
            max_render_time_ms: None,
            background: None,
            geometry: None,
            adopted: None,
        }
    }

    /// The mode asked for, or else the one the output settled on.
    pub fn effective_mode(&self) -> (mode: Option<Mode>)
        ensures
            mode == self.deep_view().effective_mode(),
    {
        match self.mode {
            Some(mode) => Some(mode),
            None => match &self.adopted {
                Some(adopted) => adopted.mode,
                None => None,
            },
        }
    }
}

/// Where an app's sound goes, and how loud. No output means silence.
#[derive(Debug, PartialEq, Eq)]
pub struct AudioConfig {
    pub output: Option<String>,
    pub gain_db: Real,
}

/// What an [`AudioConfig`] says.
pub struct AudioView {
    pub output: Option<Seq<char>>,
    pub gain_db: Real,
}

impl DeepView for AudioConfig {
    type V = AudioView;

    open spec fn deep_view(&self) -> AudioView {
        AudioView { output: self.output.deep_view(), gain_db: self.gain_db }
    }
}

/// A managed app.
#[derive(Debug, PartialEq, Eq)]
pub struct AppConfig {
    pub id: String,
    pub enabled: bool,
    pub output: Option<OutputMatch>,
    pub fullscreen: bool,
    pub span_outputs: bool,
    pub audio: Option<AudioConfig>,
}

/// What an [`AppConfig`] says.
pub struct AppView {
    pub id: Seq<char>,
    pub enabled: bool,
    pub output: Option<OutputMatchView>,
    pub fullscreen: bool,
    pub span_outputs: bool,
    pub audio: Option<AudioView>,
}

impl DeepView for AppConfig {
    type V = AppView;

    open spec fn deep_view(&self) -> AppView {
        AppView {
            id: self.id@,
            enabled: self.enabled,
            output: self.output.deep_view(),
            fullscreen: self.fullscreen,
            span_outputs: self.span_outputs,
            audio: self.audio.deep_view(),
        }
    }
}

impl Clone for AudioConfig {
    fn clone(&self) -> (copy: Self)
        ensures
            copy == *self,
    {
        AudioConfig { output: copy_text(&self.output), gain_db: self.gain_db }
    }
}

impl Clone for AppConfig {
    fn clone(&self) -> (copy: Self)
        ensures
            copy == *self,
    {
        AppConfig {
            id: self.id.clone(),
            enabled: self.enabled,
            output: match &self.output {
                Some(rule) => Some(rule.clone()),
                None => None,
            },
            fullscreen: self.fullscreen,
            span_outputs: self.span_outputs,
            audio: match &self.audio {
                Some(audio) => Some(audio.clone()),
                None => None,
            },
        }
    }
}

/// Whether pictures are only placed, or also warped onto their surface.
#[derive(Clone, Copy, Debug, PartialEq, Eq, Structural)]
pub enum ProjectionMode {
    Simple,
    Warp,
}

/// Which hardware shades the canvas.
#[derive(Clone, Copy, Debug, PartialEq, Eq, Structural)]
pub enum Renderer {
    Auto,
    Cpu,
    Gpu,
}

/// A picture for aligning and measuring projectors.
#[derive(Clone, Copy, Debug, PartialEq, Eq, Structural)]
pub enum TestPattern {
    Grid,
    White,
    Black,
    Gamma,
    Identify,
    WarpAlignment,
    Sync,
}

/// The shared canvas.
#[derive(Clone, Copy, Debug, PartialEq, Eq, Structural)]
pub struct CanvasConfig {
    pub aspect: Real,
    pub render_width: u32,
}

/// What is wanted of the projection.
#[derive(Clone, Copy, Debug, PartialEq, Eq, Structural)]
pub struct ProjectionConfig {
    pub mode: ProjectionMode,
    pub canvas: Option<CanvasConfig>,
    pub renderer: Renderer,
    pub blend: bool,
    pub gamma: Real,
    pub black_lift: Real,
    pub test_pattern: Option<TestPattern>,
    pub free_run: bool,
}

/// What is wanted of a projection that says nothing: plain rectangles, blended
/// at a gamma of 2.2 by whichever renderer is there.
pub open spec fn default_projection() -> ProjectionConfig {
    ProjectionConfig {
        mode: ProjectionMode::Simple,
        canvas: None,
        renderer: Renderer::Auto,
        blend: true,
        gamma: Real { bits: 0x4001_9999_9999_999a },
        black_lift: Real { bits: 0 },
        test_pattern: None,
        free_run: false,
    }
}

impl Default for ProjectionConfig {
    fn default() -> (config: Self)
        ensures
            config == default_projection(),
    {
        ProjectionConfig {
            mode: ProjectionMode::Simple,
            canvas: None,
            renderer: Renderer::Auto,
            blend: true,
            gamma: Real { bits: 0x4001_9999_9999_999a },
            black_lift: Real { bits: 0 },
            test_pattern: None,
            free_run: false,
        }
    }
}

/// Everything the operator asks for.
#[derive(Clone, Debug)]
pub struct DesiredState {
    pub outputs: Vec<OutputConfig>,
    pub backgrounds: Vec<BackgroundPreset>,
    pub apps: Vec<AppConfig>,
    pub active_app: Option<String>,
    pub projection: Option<ProjectionConfig>,
    pub hide_cursor: bool,
    pub revision: u64,
}

/// What a [`DesiredState`] says.
pub struct DesiredView {
    pub outputs: Seq<OutputConfigView>,
    pub backgrounds: Seq<PresetView>,
    pub apps: Seq<AppView>,
    pub active_app: Option<Seq<char>>,
    pub projection: Option<ProjectionConfig>,
    pub hide_cursor: bool,
    pub revision: u64,
}

impl DeepView for DesiredState {
    type V = DesiredView;

    open spec fn deep_view(&self) -> DesiredView {
        DesiredView {
            outputs: self.outputs.deep_view(),
            backgrounds: self.backgrounds.deep_view(),
            apps: self.apps.deep_view(),
            active_app: self.active_app.deep_view(),
            projection: self.projection,
            hide_cursor: self.hide_cursor,
            revision: self.revision,
        }
    }
}

impl DesiredState {
    /// A state that asks for nothing but a hidden pointer.
    pub fn new() -> (state: Self)
        ensures
            state.deep_view() == (DesiredView {
                outputs: Seq::empty(),
                backgrounds: Seq::empty(),
                apps: Seq::empty(),
                active_app: None,
                projection: None,
                hide_cursor: true,
                revision: 0,
            }),
    {
        let state = DesiredState {
            outputs: Vec::new(),
            backgrounds: Vec::new(),
            apps: Vec::new(),
            active_app: None,
            projection: None,
            hide_cursor: true,
            revision: 0,
        };
        assert(state.outputs.deep_view() =~= Seq::empty());
        assert(state.backgrounds.deep_view() =~= Seq::empty());
        assert(state.apps.deep_view() =~= Seq::empty());
        state
    }
}

/// Something that could not be made the way it was asked for.
#[derive(Debug, PartialEq, Eq)]
pub struct Divergence {
    pub kind: String,
    pub subject: String,
    pub detail: String,
    pub docs_url: Option<String>,
}

/// What a [`Divergence`] says.
pub struct DivergenceView {
    pub kind: Seq<char>,
    pub subject: Seq<char>,
    pub detail: Seq<char>,
    pub docs_url: Option<Seq<char>>,
}

impl DeepView for Divergence {
    type V = DivergenceView;

    open spec fn deep_view(&self) -> DivergenceView {
        DivergenceView {
            kind: self.kind@,
            subject: self.subject@,
            detail: self.detail@,
            docs_url: self.docs_url.deep_view(),
        }
    }
}

/// A divergence with no link to the documentation yet.
pub open spec fn divergence(
    kind: Seq<char>,
    subject: Seq<char>,
    detail: Seq<char>,
) -> DivergenceView {
    DivergenceView { kind, subject, detail, docs_url: None }
}

impl Divergence {
    /// A divergence with no link to the documentation yet.
    pub fn new(kind: &str, subject: &str, detail: String) -> (made: Self)
        ensures
            made.deep_view() == divergence(kind@, subject@, detail@),
    {
        Divergence { kind: kind.to_owned(), subject: subject.to_owned(), detail, docs_url: None }
    }
}

impl Clone for Divergence {
    fn clone(&self) -> (copy: Self)
        ensures
            copy == *self,
    {
        Divergence {
            kind: self.kind.clone(),
            subject: self.subject.clone(),
            detail: self.detail.clone(),
            docs_url: copy_text(&self.docs_url),
        }
    }
}

} // verus!
