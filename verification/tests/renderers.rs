//! Which renderer a run settles on.
use suede::config::{Corners, Point, ProjectionMode, Renderer};
use suede::model::{Real, Rect};
use suede::projection::backend::{
    decide_backend, decide_sampling, decide_sync_backend, report_capability, requested_warp,
    requires_linear_sampling, Capability, GpuProbe, Sampling, Startup,
};
use suede::projection::run_loop::before_connecting;
use suede::projection::scanout::{choose_present_format, FOURCC_XB24, FOURCC_XR24};
use suede::projection::slices::{Geometry, SliceSpec, SlicerSpec};
use suede::projection::wall::Backend;
use suede::projection::warp_update::WarpCheck;

fn number(value: f64) -> Real {
    Real { bits: value.to_bits() }
}

fn point(at: [f64; 2]) -> Point {
    Point { x: number(at[0]), y: number(at[1]) }
}

fn pattern_spec() -> SlicerSpec {
    SlicerSpec {
        control_session: String::new(),
        source: "HEADLESS-1".into(),
        canvas_width: 320,
        canvas_height: 240,
        gamma: number(2.2),
        black_lift: number(0.1),
        pattern: None,
        free_run: false,
        renderer: Renderer::Auto,
        slices: vec![SliceSpec {
            output: "DP-1".into(),
            source: Rect { x: 30, y: 20, width: 240, height: 180 },
            source_rect: None,
            geometry: None,
            ramps: vec![],
        }],
    }
}

#[test]
fn cpu_rejects_warp_before_connecting_and_preserves_identity_support() {
    let mut spec = pattern_spec();
    spec.renderer = Renderer::Cpu;
    assert!(!requested_warp(&spec, &[WarpCheck::Identity]).unwrap());
    spec.slices[0].geometry = Some(Geometry {
        corners: Corners {
            top_left: point([10.0, 5.0]),
            top_right: point([230.0, 0.0]),
            bottom_right: point([240.0, 175.0]),
            bottom_left: point([0.0, 180.0]),
        },
        center: point([0.5, 0.5]),
    });
    let requested = requested_warp(&spec, &[WarpCheck::Warped]).unwrap();
    assert!(before_connecting(requested, spec.renderer)
        .unwrap()
        .reason
        .contains("warp_unavailable"));
    spec.slices[0].source.width = 0;
    assert_eq!(
        requested_warp(&spec, &[WarpCheck::Warped]),
        Err("source dimensions must be positive".to_string())
    );
}

#[test]
fn the_first_slice_that_is_not_copied_decides_on_filtering() {
    assert_eq!(requires_linear_sampling(&[Sampling::Exact]), Ok(false));
    assert_eq!(
        requires_linear_sampling(&[
            Sampling::Exact,
            Sampling::Filtered,
            Sampling::Invalid("late".to_string())
        ]),
        Ok(true)
    );
    assert_eq!(
        requires_linear_sampling(&[Sampling::Invalid("bad".to_string()), Sampling::Filtered]),
        Err("bad".to_string())
    );
}

fn probe() -> GpuProbe {
    GpuProbe {
        dmabuf: true,
        device: true,
        device_error: None,
        present_xr24: vec![0],
        present_xb24: vec![],
    }
}

fn offer() -> Option<(u32, Vec<u64>)> {
    Some((FOURCC_XR24, vec![7]))
}

fn fallback(probe: &GpuProbe, offer: Option<(u32, Vec<u64>)>) -> String {
    let decision = decide_backend(Renderer::Auto, probe, offer).ok().unwrap();
    assert!(decision.backend == Backend::Cpu);
    decision.fallback.unwrap()
}

#[test]
fn an_open_choice_falls_back_and_names_the_first_thing_missing() {
    let decision = decide_backend(Renderer::Auto, &probe(), offer()).ok().unwrap();
    assert!(decision.backend == Backend::Gpu && decision.fallback.is_none());
    assert_eq!(
        fallback(&GpuProbe { dmabuf: false, ..probe() }, None),
        "compositor does not offer zwp_linux_dmabuf_v1 version 4"
    );
    assert_eq!(
        fallback(&probe(), None),
        "compositor's screencopy offer for this frame carried no dmabuf option"
    );
    let none = GpuProbe { device: false, ..probe() };
    assert_eq!(fallback(&none, offer()), "no Vulkan device available");
    let lost = GpuProbe {
        device: false,
        device_error: Some("Gpu::new: lost".to_string()),
        ..probe()
    };
    assert_eq!(fallback(&lost, offer()), "Gpu::new: lost");
    assert_eq!(
        fallback(&probe(), Some((FOURCC_XR24, vec![]))),
        format!("capture format {:#010x} has no Vulkan-importable modifier", FOURCC_XR24)
    );
    assert_eq!(
        fallback(&probe(), Some((1, vec![]))),
        format!("capture format {:#010x} has no Vulkan-importable modifier", 1)
    );
    let blank = GpuProbe { present_xr24: vec![], ..probe() };
    assert_eq!(
        fallback(&blank, offer()),
        "neither XR24 nor XB24 is importable as a Present image"
    );
}

#[test]
fn a_forced_renderer_is_used_or_fails() {
    let blank = GpuProbe { dmabuf: false, ..probe() };
    let decision = decide_backend(Renderer::Cpu, &blank, None).ok().unwrap();
    assert!(decision.backend == Backend::Cpu && decision.fallback.is_none());
    assert_eq!(
        decide_backend(Renderer::Gpu, &blank, offer()).err().unwrap(),
        "renderer gpu was forced but is unavailable: \
         compositor does not offer zwp_linux_dmabuf_v1 version 4"
    );
    assert!(decide_backend(Renderer::Gpu, &probe(), offer()).ok().unwrap().backend == Backend::Gpu);
    let rough = decide_sampling(Renderer::Auto, true, false).ok().unwrap();
    assert!(rough.backend == Backend::Cpu);
    assert!(rough.fallback.unwrap().contains("linear filtering"));
    assert!(decide_sampling(Renderer::Gpu, true, false).is_err());
    for (needed, filters) in [(false, false), (false, true), (true, true)] {
        let smooth = decide_sampling(Renderer::Gpu, needed, filters).ok().unwrap();
        assert!(smooth.backend == Backend::Gpu);
        assert_eq!(smooth.fallback, None);
    }
}

#[test]
fn a_still_picture_has_to_be_sampled() {
    let sync = decide_sync_backend(Renderer::Auto, &probe(), false, false).ok().unwrap();
    assert!(sync.backend == Backend::Gpu);
    let still = decide_sync_backend(Renderer::Auto, &probe(), true, false).ok().unwrap();
    assert_eq!(
        still.fallback.unwrap(),
        "GPU static canvas format lacks sampled linear filtering or upload support"
    );
    assert!(decide_sync_backend(Renderer::Gpu, &probe(), true, false).is_err());
    let still = decide_sync_backend(Renderer::Gpu, &probe(), true, true).ok().unwrap();
    assert!(still.backend == Backend::Gpu);
}

#[test]
fn a_run_says_what_it_can_do_and_starts_accordingly() {
    let gpu = report_capability(Renderer::Auto, Some(Backend::Gpu), None, false, true, true);
    assert!(gpu.warp_available && gpu.reason.is_none());
    assert_eq!(gpu.effective_mode, ProjectionMode::Warp);
    assert_eq!(gpu.startup(), Startup::Build);
    let cpu = report_capability(Renderer::Auto, Some(Backend::Cpu), None, false, true, false);
    assert_eq!(
        cpu.reason.as_deref(),
        Some("selected CPU pipeline does not support geometric warp correction")
    );
    assert_eq!(cpu.startup(), Startup::Plain);
    let rough = report_capability(Renderer::Auto, Some(Backend::Gpu), None, false, false, true);
    assert_eq!(rough.effective_mode, ProjectionMode::Simple);
    assert_eq!(
        rough.startup(),
        Startup::Refused(
            "warp_unavailable: capture format/modifier does not support linear filtering"
                .to_string()
        )
    );
    let drawn = report_capability(Renderer::Auto, Some(Backend::Gpu), None, true, false, true);
    assert!(drawn.warp_available);
    let error = Some("no device".to_string());
    let fell = report_capability(Renderer::Auto, None, error, false, false, false);
    assert_eq!(fell.reason.as_deref(), Some("no device"));
}

#[test]
fn a_format_that_can_be_flipped_is_preferred() {
    let first = choose_present_format(vec![0, 7], &[], vec![0, 9], &[9]).unwrap();
    assert_eq!(first.fourcc, FOURCC_XB24);
    assert_eq!(first.modifiers.scanout, vec![9]);
    let first = choose_present_format(vec![0, 7], &[7], vec![0, 9], &[9]).unwrap();
    assert_eq!(first.fourcc, FOURCC_XR24);
    assert_eq!(first.modifiers.all, vec![0, 7]);
    let first = choose_present_format(vec![0], &[], vec![0], &[]).unwrap();
    assert_eq!(first.fourcc, FOURCC_XR24);
    let only = choose_present_format(vec![], &[], vec![5], &[]).unwrap();
    assert_eq!(only.fourcc, FOURCC_XB24);
    assert!(choose_present_format(vec![], &[], vec![], &[]).is_none());
}

#[test]
fn a_forced_renderer_that_is_missing_reports_why() {
    let capability = Capability::refused(Renderer::Gpu, "no device".to_string(), true);
    assert_eq!(capability.requested_renderer, Renderer::Gpu);
    assert_eq!(capability.effective_renderer, Renderer::Gpu);
    assert!(!capability.warp_available);
    assert_eq!(capability.reason.as_deref(), Some("no device"));
    assert_eq!(capability.requested_mode, ProjectionMode::Warp);
    assert_eq!(capability.effective_mode, ProjectionMode::Simple);
    let plain = Capability::refused(Renderer::Auto, "no device".to_string(), false);
    assert_eq!(plain.requested_mode, ProjectionMode::Simple);
}
