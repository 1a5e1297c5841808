//! Which renderer a run settles on, and what it says of itself.
use crate::config::{ProjectionMode, Renderer};
use crate::projection::scanout::present_format_available;
use crate::projection::slices::SlicerSpec;
use crate::projection::wall::Backend;
use crate::projection::warp_update::WarpCheck;
use crate::text::{hexadecimal8, push_hexadecimal8};
use vstd::prelude::*;
use vstd::string::*;

verus! {

/// What was found of the device and the compositor.
pub struct GpuProbe {
    /// The compositor takes buffers of device memory.
    pub dmabuf: bool,
    /// There is a device.
    pub device: bool,
    /// Why there is none, where that is known.
    pub device_error: Option<String>,
    /// The layouts of each format that an image to draw to can be made in.
    pub present_xr24: Vec<u64>,
    pub present_xb24: Vec<u64>,
}

/// Why nothing can be drawn by the device, if so.
pub open spec fn missing_for_drawing(probe: GpuProbe) -> Option<Seq<char>> {
    if !probe.dmabuf {
        Some("compositor does not offer zwp_linux_dmabuf_v1 version 4"@)
    } else if !probe.device {
        Some(
            match probe.device_error {
                Some(error) => error@,
                None => "no Vulkan device available"@,
            },
        )
    } else if probe.present_xr24@.len() == 0 && probe.present_xb24@.len() == 0 {
        Some("neither XR24 nor XB24 is importable as a Present image"@)
    } else {
        None
    }
}

/// Why the canvas cannot be captured and drawn by the device, if so: the first
/// condition that does not hold. `offer` is the format that the compositor
/// offers for this frame, with the layouts that it can be captured in.
pub open spec fn missing_for_capture(
    probe: GpuProbe,
    offer: Option<(u32, Seq<u64>)>,
) -> Option<Seq<char>> {
    match offer {
        _ if !probe.dmabuf => missing_for_drawing(probe),
        None => Some("compositor's screencopy offer for this frame carried no dmabuf option"@),
        Some((format, modifiers)) => if probe.device && modifiers.len() == 0 {
            Some(
                "capture format 0x"@ + hexadecimal8(format)
                    + " has no Vulkan-importable modifier"@,
            )
        } else {
            missing_for_drawing(probe)
        },
    }
}

/// A verdict says nothing, or the reason that is given.
pub open spec fn says(verdict: Result<(), String>, missing: Option<Seq<char>>) -> bool {
    match missing {
        None => verdict is Ok,
        Some(reason) => verdict matches Err(said) && said@ == reason,
    }
}

impl GpuProbe {
    fn device_missing(&self) -> (reason: String)
        ensures
            reason@ == (match self.device_error {
                Some(error) => error@,
                None => "no Vulkan device available"@,
            }),
    {
        match &self.device_error {
            Some(error) => error.clone(),
            None => "no Vulkan device available".to_owned(),
        }
    }

    /// Whether a run that draws its own frames can use the device.
    pub fn sync_gpu_availability(&self) -> (verdict: Result<(), String>)
        ensures
            says(verdict, missing_for_drawing(*self)),
    {
        if !self.dmabuf {
            return Err("compositor does not offer zwp_linux_dmabuf_v1 version 4".to_owned());
        }
        if !self.device {
            return Err(self.device_missing());
        }
        present_format_available(self.present_xr24.as_slice(), self.present_xb24.as_slice())
    }

    /// Whether a run that captures the canvas can use the device. Everything is
    /// asked before the first capture, so that a missing format to draw in can
    /// only lead to a clean fallback.
    pub fn gpu_availability(&self, offer: Option<(u32, Vec<u64>)>) -> (verdict: Result<(), String>)
        ensures
            says(
                verdict,
                missing_for_capture(
                    *self,
                    match offer {
                        Some((format, modifiers)) => Some((format, modifiers@)),
                        None => None,
                    },
                ),
            ),
    {
        if !self.dmabuf {
            return Err("compositor does not offer zwp_linux_dmabuf_v1 version 4".to_owned());
        }
        let (format, modifiers) = match offer {
            Some(offer) => offer,
            None => {
                return Err(
                    "compositor's screencopy offer for this frame carried no dmabuf option".to_owned(),
                );
            },
        };
        if !self.device {
            return Err(self.device_missing());
        }
        if modifiers.len() == 0 {
            let mut reason = "capture format 0x".to_owned();
            push_hexadecimal8(&mut reason, format);
            reason.append(" has no Vulkan-importable modifier");
            return Err(reason);
        }
        present_format_available(self.present_xr24.as_slice(), self.present_xb24.as_slice())
    }
}

/// A renderer decided on.
pub struct Decision {
    pub backend: Backend,
    /// Why the device was wanted and is not used.
    pub fallback: Option<String>,
}

/// What a renderer asked for comes to, given why the device cannot be used, if
/// so: the device where it can be used, the other renderer where the choice was
/// left open, and nothing where the device was insisted on.
pub open spec fn settles(
    renderer: Renderer,
    missing: Option<Seq<char>>,
    decided: Result<Decision, String>,
) -> bool {
    match (renderer, missing) {
        (Renderer::Cpu, _) => decided matches Ok(d) && d.backend == Backend::Cpu && d.fallback
            is None,
        (_, None) => decided matches Ok(d) && d.backend == Backend::Gpu && d.fallback is None,
        (Renderer::Gpu, Some(reason)) => decided matches Err(said) && said@
            == "renderer gpu was forced but is unavailable: "@ + reason,
        (Renderer::Auto, Some(reason)) => decided matches Ok(d) && d.backend == Backend::Cpu
            && (d.fallback matches Some(said) && said@ == reason),
    }
}

/// Settles a renderer, given whether the device can be used.
pub fn settle_renderer(renderer: Renderer, availability: Result<(), String>) -> (decided: Result<
    Decision,
    String,
>)
    ensures
        settles(
            renderer,
            match availability {
                Ok(_) => None,
                Err(reason) => Some(reason@),
            },
            decided,
        ),
{
    if let Renderer::Cpu = renderer {
        return Ok(Decision { backend: Backend::Cpu, fallback: None });
    }
    match availability {
        Ok(()) => Ok(Decision { backend: Backend::Gpu, fallback: None }),
        Err(reason) => {
            if let Renderer::Gpu = renderer {
                let mut fatal = "renderer gpu was forced but is unavailable: ".to_owned();
                fatal.append(reason.as_str());
                return Err(fatal);
            }
            Ok(Decision { backend: Backend::Cpu, fallback: Some(reason) })
        },
    }
}

/// Decides on the renderer of a run that captures the canvas.
pub fn decide_backend(
    renderer: Renderer,
    probe: &GpuProbe,
    offer: Option<(u32, Vec<u64>)>,
) -> (decided: Result<Decision, String>)
    ensures
        settles(
            renderer,
            missing_for_capture(
                *probe,
                match offer {
                    Some((format, modifiers)) => Some((format, modifiers@)),
                    None => None,
                },
            ),
            decided,
        ),
{
    settle_renderer(renderer, probe.gpu_availability(offer))
}

/// Why a run that draws its own frames cannot use the device, if so. A run that
/// draws from a still picture also has to be able to sample one.
pub open spec fn missing_for_pattern(
    probe: GpuProbe,
    static_canvas: bool,
    static_canvas_supported: bool,
) -> Option<Seq<char>> {
    match missing_for_drawing(probe) {
        Some(reason) => Some(reason),
        None => if static_canvas && !static_canvas_supported {
            Some("GPU static canvas format lacks sampled linear filtering or upload support"@)
        } else {
            None
        },
    }
}

/// Decides on the renderer of a run that draws its own frames.
pub fn decide_sync_backend(
    renderer: Renderer,
    probe: &GpuProbe,
    static_canvas: bool,
    static_canvas_supported: bool,
) -> (decided: Result<Decision, String>)
    ensures
        settles(
            renderer,
            missing_for_pattern(*probe, static_canvas, static_canvas_supported),
            decided,
        ),
{
    let availability = match probe.sync_gpu_availability() {
        Ok(()) => if static_canvas && !static_canvas_supported {
            Err(
                "GPU static canvas format lacks sampled linear filtering or upload support".to_owned(),
            )
        } else {
            Ok(())
        },
        Err(reason) => Err(reason),
    };
    settle_renderer(renderer, availability)
}

/// What keeps a captured image from being sampled: a source crop that asks for
/// smooth sampling of a layout that has none.
pub open spec fn missing_for_sampling(requires_linear: bool, filters: bool) -> Option<Seq<char>> {
    if requires_linear && !filters {
        Some(
            "capture format/modifier does not support linear filtering required by the source crop"@,
        )
    } else {
        None
    }
}

/// Decides on the renderer once the captured image is there: one that cannot be
/// sampled as the source crop asks is settled as if the device could not be used.
pub fn decide_sampling(renderer: Renderer, requires_linear: bool, filters: bool) -> (decided:
    Result<Decision, String>)
    ensures
        settles(renderer, missing_for_sampling(requires_linear, filters), decided),
{
    let availability = if requires_linear && !filters {
        Err(
            "capture format/modifier does not support linear filtering required by the source crop".to_owned(),
        )
    } else {
        Ok(())
    };
    settle_renderer(renderer, availability)
}

/// A run that was not told to use the device always finds a renderer.
pub proof fn only_a_forced_renderer_can_fail(
    renderer: Renderer,
    missing: Option<Seq<char>>,
    decided: Result<Decision, String>,
)
    requires
        settles(renderer, missing, decided),
    ensures
        decided is Err <==> renderer == Renderer::Gpu && missing is Some,
        decided matches Ok(d) && d.backend == Backend::Gpu ==> missing is None,
{
}

/// Drawing asks nothing that capturing does not.
pub proof fn drawing_asks_less(probe: GpuProbe, offer: Option<(u32, Seq<u64>)>)
    ensures
        missing_for_capture(probe, offer) is None ==> missing_for_drawing(probe) is None,
{
}

/// A slice has a place on the canvas.
pub open spec fn is_placed(spec: SlicerSpec, i: int) -> bool {
    spec.slices@[i].source.width > 0 && spec.slices@[i].source.height > 0
}

/// A slice asks for geometric correction: it carries a geometry that is not the
/// identity. One that is malformed counts, so that it is refused where it would
/// be applied.
pub open spec fn asks_for_warp(spec: SlicerSpec, checks: Seq<WarpCheck>, i: int) -> bool {
    spec.slices@[i].geometry is Some && !(checks[i] is Identity)
}

/// Whether a run asks for geometric correction. `checks` says of each slice what
/// its geometry comes to.
pub fn requested_warp(spec: &SlicerSpec, checks: &[WarpCheck]) -> (requested: Result<bool, String>)
    requires
        checks@.len() == spec.slices@.len(),
    ensures
        (forall|i: int| 0 <= i < spec.slices@.len() ==> #[trigger] is_placed(*spec, i))
            ==> requested == Ok::<bool, String>(
            exists|i: int|
                0 <= i < spec.slices@.len() && #[trigger] asks_for_warp(*spec, checks@, i),
        ),
        (exists|i: int| 0 <= i < spec.slices@.len() && !#[trigger] is_placed(*spec, i)) ==> (
        requested matches Err(reason) && reason@ == "source dimensions must be positive"@),
{
    let mut requested = false;
    let mut i: usize = 0;
    while i < spec.slices.len()
        invariant
            i <= spec.slices@.len(),
            checks@.len() == spec.slices@.len(),
            forall|j: int| 0 <= j < i ==> #[trigger] is_placed(*spec, j),
            requested <==> exists|j: int|
                0 <= j < i && #[trigger] asks_for_warp(*spec, checks@, j),
        decreases spec.slices@.len() - i,
    {
        let slice = &spec.slices[i];
        if !(slice.source.width > 0 && slice.source.height > 0) {
            assert(!is_placed(*spec, i as int));
            return Err("source dimensions must be positive".to_owned());
        }
        let identity = match &checks[i] {
            WarpCheck::Identity => true,
            _ => false,
        };
        let ghost before = requested;
        if slice.geometry.is_some() && !identity {
            requested = true;
        }
        assert(requested == (before || asks_for_warp(*spec, checks@, i as int)));
        i = i + 1;
    }
    Ok(requested)
}

/// What sampling a slice takes.
pub enum Sampling {
    /// Whole pixels are copied.
    Exact,
    /// Pixels are mixed.
    Filtered,
    /// The mapping is malformed.
    Invalid(String),
}

/// Every one of the first `n` slices is copied.
pub open spec fn all_exact(sampling: Seq<Sampling>, n: int) -> bool {
    forall|i: int| 0 <= i < n ==> (#[trigger] sampling[i]) is Exact
}

/// Whether any slice has pixels mixed. The first slice that is not copied
/// decides: slices after it are not looked at.
pub fn requires_linear_sampling(sampling: &[Sampling]) -> (required: Result<bool, String>)
    ensures
        all_exact(sampling@, sampling@.len() as int) ==> required == Ok::<bool, String>(false),
        forall|i: int|
            0 <= i < sampling@.len() && all_exact(sampling@, i) ==> match #[trigger] sampling@[i] {
                Sampling::Exact => true,
                Sampling::Filtered => required == Ok::<bool, String>(true),
                Sampling::Invalid(reason) => required matches Err(said) && said@ == reason@,
            },
{
    let mut i: usize = 0;
    while i < sampling.len()
        invariant
            i <= sampling@.len(),
            all_exact(sampling@, i as int),
        decreases sampling@.len() - i,
    {
        match &sampling[i] {
            Sampling::Exact => {},
            Sampling::Filtered => {
                return Ok(true);
            },
            Sampling::Invalid(reason) => {
                return Err(reason.clone());
            },
        }
        i = i + 1;
    }
    Ok(false)
}

/// What a run says of its renderer when it starts.
pub struct Capability {
    pub requested_renderer: Renderer,
    pub effective_renderer: Renderer,
    pub warp_available: bool,
    pub reason: Option<String>,
    pub requested_mode: ProjectionMode,
    pub effective_mode: ProjectionMode,
}

/// Why a run cannot correct geometry, if so. A captured canvas has to be of a
/// format that can be sampled smoothly; a picture drawn by the run itself always
/// is.
pub open spec fn warp_missing(
    backend: Option<Backend>,
    gpu_error: Option<Seq<char>>,
    pattern: bool,
    capture_filters: bool,
) -> Option<Seq<char>> {
    if backend != Some(Backend::Gpu) {
        Some(
            match gpu_error {
                Some(error) => error,
                None => "selected CPU pipeline does not support geometric warp correction"@,
            },
        )
    } else if !pattern && !capture_filters {
        Some("capture format/modifier does not support linear filtering"@)
    } else {
        None
    }
}

/// What a run reports of its renderer.
pub open spec fn reports(
    capability: Capability,
    renderer: Renderer,
    backend: Option<Backend>,
    missing: Option<Seq<char>>,
    requested: bool,
) -> bool {
    &&& capability.requested_renderer == renderer
    &&& capability.effective_renderer == if backend == Some(Backend::Gpu) {
        Renderer::Gpu
    } else {
        Renderer::Cpu
    }
    &&& capability.warp_available == (missing is None)
    &&& match missing {
        Some(reason) => capability.reason matches Some(said) && said@ == reason,
        None => capability.reason is None,
    }
    &&& capability.requested_mode == if requested {
        ProjectionMode::Warp
    } else {
        ProjectionMode::Simple
    }
    &&& capability.effective_mode == if requested && missing is None {
        ProjectionMode::Warp
    } else {
        ProjectionMode::Simple
    }
}

/// Reports what a run can do, from the renderer that was settled on, why the
/// device is not used, and whether the first captured image can be sampled
/// smoothly.
pub fn report_capability(
    renderer: Renderer,
    backend: Option<Backend>,
    gpu_error: Option<String>,
    pattern: bool,
    capture_filters: bool,
    requested: bool,
) -> (capability: Capability)
    ensures
        reports(
            capability,
            renderer,
            backend,
            warp_missing(
                backend,
                match gpu_error {
                    Some(error) => Some(error@),
                    None => None,
                },
                pattern,
                capture_filters,
            ),
            requested,
        ),
{
    let gpu = match backend {
        Some(Backend::Gpu) => true,
        _ => false,
    };
    let reason: Option<String> = if !gpu {
        match gpu_error {
            Some(error) => Some(error),
            None => Some(
                "selected CPU pipeline does not support geometric warp correction".to_owned(),
            ),
        }
    } else if !pattern && !capture_filters {
        Some("capture format/modifier does not support linear filtering".to_owned())
    } else {
        None
    };
    let available = reason.is_none();
    Capability {
        requested_renderer: renderer,
        effective_renderer: if gpu {
            Renderer::Gpu
        } else {
            Renderer::Cpu
        },
        warp_available: available,
        reason,
        requested_mode: if requested {
            ProjectionMode::Warp
        } else {
            ProjectionMode::Simple
        },
        effective_mode: if requested && available {
            ProjectionMode::Warp
        } else {
            ProjectionMode::Simple
        },
    }
}

/// How a run starts.
#[derive(Debug, PartialEq, Eq)]
pub enum Startup {
    /// Nothing is corrected: drawing can begin.
    Plain,
    /// The cut has to be built and installed first.
    Build,
    /// What was asked for cannot be done.
    Refused(String),
}

impl Capability {
    /// It asks for correction and cannot have it.
    pub open spec fn is_refused(self) -> bool {
        self.requested_mode == ProjectionMode::Warp && self.reason is Some
    }

    /// Nothing has to be built before drawing begins.
    pub open spec fn is_plain(self) -> bool {
        !self.is_refused() && self.effective_renderer == Renderer::Cpu
    }

    /// What a run reports that ends because its renderer cannot be had: that it
    /// corrects nothing, and why.
    pub fn refused(renderer: Renderer, reason: String, requested: bool) -> (capability: Self)
        ensures
            capability.requested_renderer == renderer,
            capability.effective_renderer == renderer,
            !capability.warp_available,
            capability.reason == Some(reason),
            capability.requested_mode == if requested {
                ProjectionMode::Warp
            } else {
                ProjectionMode::Simple
            },
            capability.effective_mode == ProjectionMode::Simple,
    {
        Capability {
            requested_renderer: renderer,
            effective_renderer: renderer,
            warp_available: false,
            reason: Some(reason),
            requested_mode: if requested {
                ProjectionMode::Warp
            } else {
                ProjectionMode::Simple
            },
            effective_mode: ProjectionMode::Simple,
        }
    }

    /// How a run with this capability starts. One that asks for correction and
    /// cannot have it does not start.
    pub fn startup(&self) -> (startup: Startup)
        requires
            self.warp_available == (self.reason is None),
        ensures
            startup is Refused <==> self.is_refused(),
            startup is Plain <==> self.is_plain(),
            match (self.requested_mode, self.reason) {
                (ProjectionMode::Warp, Some(reason)) => startup matches Startup::Refused(said)
                    && said@ == "warp_unavailable: "@ + reason@,
                _ => startup == if self.effective_renderer == Renderer::Cpu {
                    Startup::Plain
                } else {
                    Startup::Build
                },
            },
    {
        if let ProjectionMode::Warp = self.requested_mode {
            if let Some(reason) = &self.reason {
                let mut said = "warp_unavailable: ".to_owned();
                said.append(reason.as_str());
                return Startup::Refused(said);
            }
        }
        match self.effective_renderer {
            Renderer::Cpu => Startup::Plain,
            _ => Startup::Build,
        }
    }
}

} // verus!
