//! Edits of the cut while a wall runs.
use suede::config::{Corners, Point, Renderer, TestPattern};
use suede::model::{Real, Rect};
use suede::projection::slices::{
    same_topology, FadeTo, Geometry, RampSpec, SliceSpec, SlicerSpec,
};
use suede::projection::warp_update::{
    build_workers, validate, validate_initial, BuildOrder, BuildResult, BuiltOutput, ControlEvent,
    ControlEventKind, ControlUpdate, Controller, Inbox, Prepared, Reader, WarpCheck,
};

fn number(value: f64) -> Real {
    Real { bits: value.to_bits() }
}

fn point(at: [f64; 2]) -> Point {
    Point { x: number(at[0]), y: number(at[1]) }
}

fn geometry(corners: [[f64; 2]; 4], center: [f64; 2]) -> Geometry {
    Geometry {
        corners: Corners {
            top_left: point(corners[0]),
            top_right: point(corners[1]),
            bottom_right: point(corners[2]),
            bottom_left: point(corners[3]),
        },
        center: point(center),
    }
}

fn fixture() -> SlicerSpec {
    SlicerSpec {
        control_session: "test-session".into(),
        source: "canvas".into(),
        canvas_width: 12,
        canvas_height: 8,
        gamma: number(2.2),
        black_lift: number(0.1),
        pattern: None,
        free_run: false,
        renderer: Renderer::Gpu,
        slices: ["A", "B"]
            .into_iter()
            .enumerate()
            .map(|(i, name)| SliceSpec {
                output: name.into(),
                source: Rect { x: i as i32 * 4, y: 0, width: 8, height: 8 },
                source_rect: None,
                geometry: None,
                ramps: vec![],
            })
            .collect(),
    }
}

fn moved(mut spec: SlicerSpec, index: usize) -> SlicerSpec {
    spec.slices[index].geometry = Some(geometry(
        [[1.0, 1.0], [7.0, 0.0], [8.0, 7.0], [0.0, 8.0]],
        [0.5, 0.5],
    ));
    spec
}

/// What solving each slice's geometry comes to.
fn checks(spec: &SlicerSpec) -> Vec<WarpCheck> {
    let identity = geometry([[0.0, 0.0], [8.0, 0.0], [8.0, 8.0], [0.0, 8.0]], [0.5, 0.5]);
    let plain = |p: Point| {
        let zero = |r: Real| number(f64::from_bits(r.bits) + 0.0);
        Point { x: zero(p.x), y: zero(p.y) }
    };
    spec.slices
        .iter()
        .map(|slice| match slice.geometry {
            None => WarpCheck::Identity,
            Some(pins) => {
                let center = f64::from_bits(pins.center.x.bits);
                let corners = Corners {
                    top_left: plain(pins.corners.top_left),
                    top_right: plain(pins.corners.top_right),
                    bottom_right: plain(pins.corners.bottom_right),
                    bottom_left: plain(pins.corners.bottom_left),
                };
                if center <= 0.0 || center >= 1.0 {
                    WarpCheck::Invalid("center must be inside the picture".to_string())
                } else if corners == identity.corners && pins.center == identity.center {
                    WarpCheck::Identity
                } else {
                    WarpCheck::Warped
                }
            }
        })
        .collect()
}

/// A controller, and the build that is under way.
struct Live {
    c: Controller,
    order: Option<BuildOrder>,
}

fn built(order: &BuildOrder) -> Prepared {
    Prepared {
        generation: order.request.generation,
        outputs: order
            .indices
            .iter()
            .map(|&index| BuiltOutput { index, key: order.request.keys[index].clone() })
            .collect(),
    }
}

impl Live {
    fn start_build(&mut self) {
        if let Some(order) = self.c.start_build() {
            self.order = Some(order);
        }
    }

    fn complete(&mut self) -> Prepared {
        self.start_build();
        let order = self.order.take().expect("a build is under way");
        let polled = self.c.poll(
            Inbox::default(),
            &[],
            Some(BuildResult::Finished(built(&order))),
        );
        self.order = polled.order;
        polled.prepared.expect("the build can be installed")
    }

    fn installed(&mut self, prepared: &Prepared) {
        if let Some(order) = self.c.installed(prepared) {
            self.order = Some(order);
        }
    }

    fn send(&mut self, generation: u64, spec: SlicerSpec) -> ControlEvent {
        let checks = checks(&spec);
        let session = self.c.spec.control_session.clone();
        self.c.request(ControlUpdate::new(session, generation, spec), &checks)
    }
}

fn initialized() -> Live {
    let spec = fixture();
    let found = checks(&spec);
    let (c, order) = Controller::new(spec, vec![(8, 8); 2], &found).unwrap();
    let mut live = Live { c, order };
    assert!(!live.c.initialized());
    let initial = live.complete();
    live.installed(&initial);
    assert!(live.c.initialized());
    live
}

fn indices(prepared: &Prepared) -> Vec<usize> {
    prepared.outputs.iter().map(|o| o.index).collect()
}

#[test]
fn sparse_build_matches_full_oracle_and_preserves_neighbor() {
    let mut live = initialized();
    let initial = live.c.installed.clone();
    let spec = moved(fixture(), 1);
    live.send(1, spec.clone());
    let sparse = live.complete();
    assert_eq!(sparse.outputs.len(), 1);
    assert_eq!(sparse.outputs[0].index, 1);
    assert_eq!(sparse.outputs[0].key.slice.output, "B");
    let keys = validate(&spec, &live.c.sizes, &checks(&spec)).unwrap();
    assert_eq!(sparse.outputs[0].key, keys[1]);
    assert_eq!(live.c.installed, initial, "completion cannot publish keys");
    live.installed(&sparse);
    assert_eq!(live.c.installed[0], initial[0]);
    assert_ne!(live.c.installed[1], initial[1]);
    live.send(2, moved(moved(fixture(), 1), 0));
    let switched = live.complete();
    assert_eq!(indices(&switched), vec![0]);
}

#[test]
fn sustained_input_installs_intermediate_then_newest_revert() {
    let mut live = initialized();
    let initial = live.c.installed.clone();
    live.send(1, moved(fixture(), 1));
    live.start_build();
    for generation in 2..100 {
        live.send(generation, moved(fixture(), 0));
    }
    live.send(100, fixture());
    let intermediate = live.complete();
    assert_eq!(
        intermediate.generation, 1,
        "new input must not starve a completed build"
    );
    live.installed(&intermediate);
    let latest = live.complete();
    assert_eq!(latest.generation, 100);
    assert_eq!(latest.outputs.len(), 1);
    assert_eq!(
        latest.outputs[0].index, 1,
        "revert must diff against installed intermediate"
    );
    assert!(latest.outputs[0].key.slice.geometry.is_none());
    live.installed(&latest);
    assert_eq!(live.c.installed, initial);
}

#[test]
fn normalized_identity_is_noop_and_shared_transfer_invalidates_all() {
    let mut live = initialized();
    let mut identity = fixture();
    identity.slices[1].geometry = Some(geometry(
        [[-0.0, 0.0], [8.0, 0.0], [8.0, 8.0], [0.0, 8.0]],
        [0.5, 0.5],
    ));
    live.send(1, identity);
    let noop = live.complete();
    assert!(noop.outputs.is_empty());
    live.installed(&noop);
    let mut shared = fixture();
    shared.gamma = number(2.4);
    live.send(2, shared.clone());
    let all = live.complete();
    assert_eq!(all.outputs.len(), 2);
    live.installed(&all);
    shared.slices[0].ramps.push(RampSpec {
        rect: Rect { x: 4, y: 0, width: 4, height: 8 },
        fade_to: FadeTo::Right,
    });
    live.send(3, shared);
    let local = live.complete();
    assert_eq!(local.outputs.len(), 1);
    assert_eq!(local.outputs[0].index, 0);
}

#[test]
fn rejection_preserves_installed_and_valid_inflight_generation() {
    let mut live = initialized();
    let before = live.c.installed.clone();
    live.send(1, moved(fixture(), 1));
    live.start_build();
    let mut invalid = moved(fixture(), 0);
    invalid.slices[0].geometry.as_mut().unwrap().center = point([0.0, 0.5]);
    live.send(2, invalid);
    let mut resized = fixture();
    resized.canvas_width += 1;
    live.send(3, resized);
    let mut wrong_session = ControlUpdate::new("old-process".into(), 99, fixture());
    live.c.request(wrong_session.clone(), &checks(&fixture()));
    wrong_session.session = live.c.spec.control_session.clone();
    wrong_session.version = 42;
    live.c.request(wrong_session, &checks(&fixture()));
    assert_eq!(live.c.installed, before);
    assert!(live.c.pending.is_none());
    let valid = live.complete();
    assert_eq!(valid.generation, 1);
    live.send(100, moved(fixture(), 1));
    let retry = live.complete();
    assert_eq!(retry.outputs.len(), 1);
    assert_eq!(retry.outputs[0].key, valid.outputs[0].key);
}

#[test]
fn reader_coalesces_burst_without_losing_newest_to_stale_or_foreign_input() {
    let mut live = initialized();
    let session = live.c.spec.control_session.clone();
    let mut reader = Reader { session: session.clone(), newest_generation: 0 };
    let mut inbox = Inbox::default();
    for generation in 1..=100 {
        reader.receive(
            &mut inbox,
            ControlUpdate::new(session.clone(), generation, moved(fixture(), 1)),
        );
    }
    for (session, generation) in [(session.as_str(), 99), ("old-process", 101)] {
        reader.receive(
            &mut inbox,
            ControlUpdate::new(session.to_string(), generation, fixture()),
        );
    }
    assert!(reader.failed(&mut inbox, "end of input".to_string(), false));
    assert!(inbox.closed);
    assert_eq!(inbox.newest.as_ref().unwrap().generation, 100);
    let found = checks(&inbox.newest.as_ref().unwrap().spec);
    let polled = live.c.poll(inbox, &found, None);
    live.order = polled.order;
    let latest = live.complete();
    assert_eq!(latest.generation, 100);
    live.installed(&latest);
    assert!(live.c.closed_reported);
    assert!(live.c.initialized(), "EOF leaves the installed state active");
}

#[test]
fn oversized_work_and_invalid_rectangles_are_rejected_before_build() {
    let mut spec = fixture();
    spec.slices = (0..9)
        .map(|i| {
            let mut slice = fixture().slices[0].clone();
            slice.output = i.to_string();
            slice
        })
        .collect();
    let found = checks(&spec);
    assert!(Controller::new(spec, vec![(8, 8); 9], &found).is_err());
    let mut spec = fixture();
    spec.slices[0].ramps = vec![
        RampSpec {
            rect: Rect { x: 0, y: 0, width: 8, height: 8 },
            fade_to: FadeTo::Right,
        };
        65
    ];
    let found = checks(&spec);
    assert!(Controller::new(spec.clone(), vec![(8, 8); 2], &found).is_err());
    spec.slices[0].ramps.clear();
    spec.slices[0].source.x = i32::MAX;
    assert!(Controller::new(spec, vec![(8, 8); 2], &found).is_err());
}

#[test]
fn rejected_same_session_generation_cannot_be_replayed() {
    let mut live = initialized();
    let mut resized = fixture();
    resized.canvas_width += 1;
    live.send(5, resized);
    live.send(5, moved(fixture(), 1));
    live.send(4, moved(fixture(), 0));
    assert!(live.c.pending.is_none());
    live.send(6, moved(fixture(), 1));
    assert_eq!(live.complete().generation, 6);
    let session = live.c.spec.control_session.clone();
    let mut mismatch = ControlUpdate::new(session, 7, fixture());
    mismatch.version = 2;
    live.c.request(mismatch, &checks(&fixture()));
    assert!(live.c.requires_restart());
    live.send(7, fixture());
    assert!(live.c.pending.is_none());
}

#[test]
fn gamma_pattern_gamma_change_requires_restart() {
    let a = fixture();
    let mut b = a.clone();
    b.gamma = number(2.4);
    assert!(same_topology(&a, &b));
    b.pattern = Some(TestPattern::Gamma);
    assert!(!same_topology(
        &b,
        &SlicerSpec {
            gamma: number(2.2),
            ..b.clone()
        }
    ));
}

fn reason(event: ControlEvent) -> String {
    match event.kind {
        ControlEventKind::Rejected { reason } => reason,
        other => panic!("expected a rejection, got {other:?}"),
    }
}

#[test]
fn every_refusal_says_why() {
    let mut live = initialized();
    assert_eq!(live.send(1, moved(fixture(), 0)).kind, ControlEventKind::Accepted);
    assert_eq!(reason(live.send(1, fixture())), "generation must increase");
    let mut wider = fixture();
    wider.canvas_width += 1;
    assert_eq!(reason(live.send(2, wider)), "topology changed; restart required");
    let foreign = ControlUpdate::new("other".into(), 3, fixture());
    assert_eq!(
        reason(live.c.request(foreign, &checks(&fixture()))),
        "control session mismatch"
    );
    let mut invalid = moved(fixture(), 0);
    invalid.slices[0].geometry.as_mut().unwrap().center = point([0.0, 0.5]);
    assert!(reason(live.send(4, invalid)).contains("center must be inside the picture"));
}

#[test]
fn a_build_that_fails_leaves_what_is_installed_and_lets_the_next_one_start() {
    let mut live = initialized();
    let before = live.c.installed.clone();
    live.send(1, moved(fixture(), 0));
    live.start_build();
    live.send(2, moved(fixture(), 1));
    let polled = live.c.poll(
        Inbox::default(),
        &[],
        Some(BuildResult::Failed("no memory".to_string())),
    );
    assert_eq!(reason(polled.events.into_iter().last().unwrap()), "no memory");
    assert!(polled.prepared.is_none());
    assert_eq!(live.c.installed, before);
    assert_eq!(polled.order.unwrap().request.generation, 2);
    let polled = live.c.poll(Inbox::default(), &[], Some(BuildResult::WorkerLost));
    assert_eq!(
        reason(polled.events.into_iter().last().unwrap()),
        "table worker terminated"
    );
}

#[test]
fn sizes_are_checked_before_a_run_starts() {
    let spec = fixture();
    let found = checks(&spec);
    assert!(validate_initial(&spec, &[(8, 8), (8, 8)], &found).is_ok());
    assert!(validate_initial(&spec, &[(8, 8)], &found).is_err());
    assert!(validate(&spec, &[(8, 8), (0, 8)], &found).is_err());
    assert_eq!(build_workers(0), 1);
    assert_eq!(build_workers(4), 4);
    assert_eq!(build_workers(40), 8);
}

#[test]
fn a_controller_takes_updates_of_its_own_session() {
    assert_eq!(initialized().c.session(), fixture().control_session);
}
