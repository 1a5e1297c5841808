//! What holds of the choice between processor and graphics card, of what the card can
//! show, and of what is put in force.
use crate::config::{ProjectionMode, Renderer};
use crate::model_laws::{is_nan, same_number};
use crate::projection::adaptive::AdaptiveLift;
use crate::projection::backend::{
    all_exact, asks_for_warp, is_placed, missing_for_capture, missing_for_drawing,
    missing_for_pattern, missing_for_sampling, reports, settles, warp_missing, Capability, Decision,
    GpuProbe, Sampling,
};
use crate::projection::install::{
    all_at, changes_everything, install_decision, reported_outputs, still_fits, with_installed,
    with_missing, InstallState, InstallView, StagedOutput, WallOutput,
};
use crate::projection::run_loop::{
    all_found, candidate_text, failures_after, is_held, is_imported, layouts, named_from,
    size_to_make, target_of, wait_of, with_buffers, AnnouncedOutput, DmabufOffer, ShmOffer,
    WaitStep,
};
use crate::projection::scanout::{
    code_of, fourcc_text, preferred, shared_among, shared_are_on_both_lists, verdict, VerdictView,
    FOURCC_XB24, FOURCC_XR24,
};
use crate::projection::slices::SlicerSpec;
use crate::projection::wall::{Backend, PresenterView};
use crate::projection::warp_update::WarpCheck;
use crate::text::{decimal, decimal_int, hexadecimal, hexadecimal8};
use vstd::prelude::*;
use vstd::string::*;

verus! {

/// A code that is made of four bytes, the first of them lowest, reads as the four
/// characters that they are, with a question mark for what cannot be printed.
pub proof fn codes_read_as_their_bytes(code: u32, a: u8, b: u8, c: u8, d: u8, i: int)
    requires
        code == a + 256 * b + 65536 * c + 16777216 * d,
        0 <= i < 4,
    ensures
        fourcc_text(code).len() == 4,
        ({
            let byte = if i == 0 {
                a
            } else if i == 1 {
                b
            } else if i == 2 {
                c
            } else {
                d
            };
            &&& 33 <= byte <= 126 ==> fourcc_text(code)[i] as int == byte
            &&& byte < 33 || byte > 126 ==> fourcc_text(code)[i] == '?'
        }),
{
    assert(code % 256 == a);
    assert(code / 256 == b + 256 * c + 65536 * d);
    assert(code / 256 % 256 == b);
    assert(code / 65536 == c + 256 * d);
    assert(code / 65536 % 256 == c);
    assert(code / 16777216 == d);
}

/// A buffer can be shown directly where it has the size of the output's mode and the
/// compositor flagged its layout; where not, the reason says which of these failed, and
/// where the compositor flagged nothing that is left open.
pub proof fn direct_showing_is_judged_for_a_reason(
    configured: (u32, u32),
    mode: Option<(i32, i32)>,
    fourcc: u32,
    scanout: Seq<u64>,
    flagged: bool,
    modifier: u64,
)
    ensures
        ({
            let told = verdict(configured, mode, fourcc, scanout, flagged, modifier);
            let fits = mode is None || (configured.0 == (mode->0).0 && configured.1 == (mode->0).1);
            &&& !fits ==> told == VerdictView::No(
                "buffer is "@ + decimal(configured.0 as nat) + "x"@ + decimal(configured.1 as nat)
                    + " but the output's mode is "@ + decimal_int((mode->0).0 as int) + "x"@
                    + decimal_int((mode->0).1 as int) + " pixels; direct scanout needs scale 1"@,
            )
            &&& fits && !flagged ==> told == VerdictView::Unconfirmed(
                "default feedback carries no scanout tranche; zeroCopyPresented in GET /projection/stats is authoritative"@,
            )
            &&& fits && flagged && scanout.len() == 0 ==> told == VerdictView::No(
                "no common modifier"@,
            )
            &&& fits && flagged && scanout.len() > 0 && !scanout.contains(modifier) ==> told
                == VerdictView::No(
                "allocated with modifier 0x"@ + hexadecimal(modifier as nat)
                    + ", which the compositor did not flag for scanout"@,
            )
            &&& fits && flagged && scanout.contains(modifier) ==> told == (VerdictView::Yes {
                fourcc,
                modifier,
            })
        }),
{
}

/// Some layout is on both lists.
pub open spec fn have_common(a: Seq<u64>, b: Seq<u64>) -> bool {
    exists|i: int, j: int|
        0 <= i < a.len() && 0 <= j < b.len() && #[trigger] a[i] == #[trigger] b[j]
}

proof fn lemma_common(a: Seq<u64>, b: Seq<u64>)
    ensures
        shared_among(a, b, a.len() as int).len() > 0 <==> have_common(a, b),
{
    let shared = shared_among(a, b, a.len() as int);
    assert(a.take(a.len() as int) =~= a);
    if shared.len() > 0 {
        shared_are_on_both_lists(a, b, a.len() as int, shared[0]);
        assert(shared.contains(shared[0]));
        let i = choose|i: int| 0 <= i < a.len() && a[i] == shared[0];
        let j = choose|j: int| 0 <= j < b.len() && b[j] == shared[0];
        assert(a[i] == b[j]);
    }
    if have_common(a, b) {
        let (i, j) = choose|i: int, j: int|
            0 <= i < a.len() && 0 <= j < b.len() && #[trigger] a[i] == #[trigger] b[j];
        shared_are_on_both_lists(a, b, a.len() as int, a[i]);
        assert(a.contains(a[i]));
        assert(b.contains(b[j]));
    }
}

/// Of two formats the first is taken where it can be shown directly, else the second
/// where that can; where neither can, the first that can be made at all.
pub proof fn formats_are_preferred_for_direct_showing(
    first: Seq<u64>,
    first_scanout: Seq<u64>,
    second: Seq<u64>,
    second_scanout: Seq<u64>,
)
    ensures
        ({
            let taken = preferred(first, first_scanout, second, second_scanout);
            let direct_first = have_common(first, first_scanout);
            let direct_second = have_common(second, second_scanout);
            &&& direct_first ==> taken == Some(true)
            &&& !direct_first && direct_second ==> taken == Some(false)
            &&& !direct_first && !direct_second && first.len() > 0 ==> taken == Some(true)
            &&& !direct_first && !direct_second && first.len() == 0 && second.len() > 0 ==> taken
                == Some(false)
            &&& first.len() == 0 && second.len() == 0 ==> taken is None
        }),
{
    lemma_common(first, first_scanout);
    lemma_common(second, second_scanout);
}

/// The card can draw where the compositor takes its buffers, there is a device, and an
/// image can be made; where not, the first of these that fails is told.
pub proof fn card_draws_where_it_can(probe: GpuProbe)
    ensures
        ({
            let told = missing_for_drawing(probe);
            let images = probe.present_xr24@.len() > 0 || probe.present_xb24@.len() > 0;
            &&& !probe.dmabuf ==> told == Some(
                "compositor does not offer zwp_linux_dmabuf_v1 version 4"@,
            )
            &&& probe.dmabuf && !probe.device && probe.device_error is Some ==> told == Some(
                probe.device_error->0@,
            )
            &&& probe.dmabuf && !probe.device && probe.device_error is None ==> told == Some(
                "no Vulkan device available"@,
            )
            &&& probe.dmabuf && probe.device && !images ==> told == Some(
                "neither XR24 nor XB24 is importable as a Present image"@,
            )
            &&& probe.dmabuf && probe.device && images ==> told is None
        }),
{
}

/// The card can capture where besides the frame is offered as its memory, in a layout
/// that the device takes.
pub proof fn card_captures_where_it_can(probe: GpuProbe, offer: Option<(u32, Seq<u64>)>)
    ensures
        ({
            let told = missing_for_capture(probe, offer);
            &&& !probe.dmabuf ==> told == Some(
                "compositor does not offer zwp_linux_dmabuf_v1 version 4"@,
            )
            &&& probe.dmabuf && offer is None ==> told == Some(
                "compositor's screencopy offer for this frame carried no dmabuf option"@,
            )
            &&& probe.dmabuf && probe.device && offer is Some && (offer->0).1.len() == 0 ==> told
                == Some(
                "capture format 0x"@ + hexadecimal8((offer->0).0)
                    + " has no Vulkan-importable modifier"@,
            )
            &&& probe.dmabuf && offer is Some && (!probe.device || (offer->0).1.len() > 0) ==> told
                == missing_for_drawing(probe)
        }),
{
}

/// A pattern can be drawn by the card where it can draw, and where the pattern is a
/// picture also filter it; a crop needs the capture to be filtered.
pub proof fn card_filters_where_it_must(
    probe: GpuProbe,
    picture: bool,
    supported: bool,
    linear: bool,
    filters: bool,
)
    ensures
        missing_for_drawing(probe) is Some ==> missing_for_pattern(probe, picture, supported)
            == missing_for_drawing(probe),
        missing_for_drawing(probe) is None && picture && !supported ==> missing_for_pattern(
            probe,
            picture,
            supported,
        ) == Some("GPU static canvas format lacks sampled linear filtering or upload support"@),
        missing_for_drawing(probe) is None && (!picture || supported) ==> missing_for_pattern(
            probe,
            picture,
            supported,
        ) is None,
        linear && !filters ==> missing_for_sampling(linear, filters) == Some(
            "capture format/modifier does not support linear filtering required by the source crop"@,
        ),
        !linear || filters ==> missing_for_sampling(linear, filters) is None,
{
}

/// The card is used where it was not ruled out and nothing is missing; where something
/// is, a run that insists on it fails with the reason, and any other falls back to the
/// processor, with the reason.
pub proof fn renderer_is_settled_as_asked(
    renderer: Renderer,
    missing: Option<Seq<char>>,
    decided: Result<Decision, String>,
)
    requires
        settles(renderer, missing, decided),
    ensures
        renderer == Renderer::Cpu ==> decided is Ok && decided->Ok_0.backend == Backend::Cpu
            && decided->Ok_0.fallback is None,
        renderer != Renderer::Cpu && missing is None ==> decided is Ok && decided->Ok_0.backend
            == Backend::Gpu && decided->Ok_0.fallback is None,
        renderer == Renderer::Auto && missing is Some ==> decided is Ok && decided->Ok_0.backend
            == Backend::Cpu && decided->Ok_0.fallback is Some && decided->Ok_0.fallback->0@
            == missing->0,
        renderer == Renderer::Gpu && missing is Some ==> decided is Err && decided->Err_0@
            == "renderer gpu was forced but is unavailable: "@ + missing->0,
{
}

/// Geometry can be corrected by the card alone, and of captures only where it can filter
/// them; what is reported says so, with the reason, and what was asked for.
pub proof fn correction_is_reported_as_it_is(
    capability: Capability,
    renderer: Renderer,
    backend: Option<Backend>,
    error: Option<Seq<char>>,
    pattern: bool,
    filters: bool,
    requested: bool,
)
    requires
        reports(
            capability,
            renderer,
            backend,
            warp_missing(backend, error, pattern, filters),
            requested,
        ),
    ensures
        ({
            let card = backend == Some(Backend::Gpu);
            let can = card && (pattern || filters);
            &&& capability.requested_renderer == renderer
            &&& capability.effective_renderer == if card {
                Renderer::Gpu
            } else {
                Renderer::Cpu
            }
            &&& capability.warp_available == can
            &&& capability.reason is None <==> can
            &&& !card && error is Some ==> capability.reason->0@ == error->0
            &&& !card && error is None ==> capability.reason->0@
                == "selected CPU pipeline does not support geometric warp correction"@
            &&& card && !can ==> capability.reason->0@
                == "capture format/modifier does not support linear filtering"@
            &&& capability.requested_mode == ProjectionMode::Warp <==> requested
            &&& capability.effective_mode == ProjectionMode::Warp <==> requested && can
        }),
{
}

/// An output of the wall is still the one that a build was made for.
pub open spec fn is_unchanged(output: StagedOutput, wall: Seq<WallOutput>) -> bool {
    output.index < wall.len() && wall[output.index as int].name@ == output.name@
        && wall[output.index as int].configured is Some
        && (wall[output.index as int].configured->0).0 == output.size.0
        && (wall[output.index as int].configured->0).1 == output.size.1
}

/// A build is put in force where every output is still the one that it was made for, it
/// asks for no filtering and no correction that cannot be had, and there is a device;
/// where not, the first of these that fails is told, and whether the run has to end.
pub proof fn builds_are_put_in_force_where_they_fit(
    outputs: Seq<StagedOutput>,
    wall: Seq<WallOutput>,
    state: InstallState,
)
    ensures
        ({
            let decided = install_decision(outputs, wall, state);
            let fits = forall|i: int|
                0 <= i < outputs.len() ==> is_unchanged(#[trigger] outputs[i], wall);
            let unfiltered = state.capture_filters == Some(false) && exists|i: int|
                0 <= i < outputs.len() && (#[trigger] outputs[i]).filtered;
            let uncorrected = !state.warp_available && exists|i: int|
                0 <= i < outputs.len() && (#[trigger] outputs[i]).corrected;
            &&& !fits ==> decided == (InstallView::Refuse {
                reason: "output topology changed; restart required"@,
                fatal: true,
            })
            &&& fits && unfiltered ==> decided == (InstallView::Refuse {
                reason: "capture format/modifier does not support linear filtering required by the source crop; restarting with CPU"@,
                fatal: true,
            })
            &&& fits && !unfiltered && uncorrected ==> decided == (InstallView::Refuse {
                reason: "warp_unavailable: negotiated pipeline does not support geometric correction"@,
                fatal: !state.initialized,
            })
            &&& fits && !unfiltered && !uncorrected && !state.device ==> decided == (
            InstallView::Refuse { reason: "GPU unavailable"@, fatal: !state.initialized })
            &&& fits && !unfiltered && !uncorrected && state.device ==> decided
                == InstallView::Upload
        }),
{
    let fits = forall|i: int| 0 <= i < outputs.len() ==> is_unchanged(#[trigger] outputs[i], wall);
    assert forall|i: int| 0 <= i < outputs.len() implies is_unchanged(#[trigger] outputs[i], wall)
        == still_fits(outputs[i], wall) by {}
    if fits {
        assert forall|i: int| 0 <= i < outputs.len() implies
            #[trigger] still_fits(outputs[i], wall) by {
            assert(is_unchanged(outputs[i], wall));
        }
    } else {
        let i = choose|i: int|
            0 <= i < outputs.len() && !is_unchanged(#[trigger] outputs[i], wall);
        assert(!still_fits(outputs[i], wall));
    }
}

/// What is told of an install names the outputs that were built, in order; where it
/// changes all of them, every other output of the wall too, in the wall's order.
pub proof fn installs_tell_what_changed(
    outputs: Seq<StagedOutput>,
    wall: Seq<WallOutput>,
    i: int,
    j: int,
)
    requires
        0 <= i < outputs.len(),
        0 <= j < wall.len(),
    ensures
        reported_outputs(outputs, wall, false).len() == outputs.len(),
        reported_outputs(outputs, wall, false)[i] == outputs[i].name@,
        reported_outputs(outputs, wall, true)[i] == outputs[i].name@,
        reported_outputs(outputs, wall, true).contains(wall[j].name@),
{
    let names = reported_outputs(outputs, wall, false);
    lemma_with_missing(names, wall, wall.len() as int, i, j);
}

proof fn lemma_with_missing(
    names: Seq<Seq<char>>,
    wall: Seq<WallOutput>,
    n: int,
    i: int,
    j: int,
)
    requires
        0 <= n <= wall.len(),
        0 <= i < names.len(),
    ensures
        with_missing(names, wall, n).len() >= names.len(),
        with_missing(names, wall, n)[i] == names[i],
        0 <= j < n ==> with_missing(names, wall, n).contains(wall[j].name@),
    decreases n,
{
    if n > 0 {
        lemma_with_missing(names, wall, n - 1, i, j);
        let before = with_missing(names, wall, n - 1);
        let own = wall[n - 1].name@;
        if !before.contains(own) {
            assert(before.push(own)[before.len() as int] == own);
            if 0 <= j < n - 1 {
                let k = choose|k: int| 0 <= k < before.len() && before[k] == wall[j].name@;
                assert(before.push(own)[k] == wall[j].name@);
            }
        }
    }
}

/// An adaptive level changes all outputs where nothing was built for it, none was in
/// force, or the one in force differs from it in some number.
pub proof fn new_levels_change_everything(
    asked: AdaptiveLift,
    held: AdaptiveLift,
    built: int,
)
    ensures
        !changes_everything(None, Some(held), built),
        changes_everything(Some(asked), None, built),
        changes_everything(Some(asked), Some(held), 0),
        built != 0 && !(same_number(asked.level, held.level) && same_number(
            asked.dark_threshold,
            held.dark_threshold,
        ) && same_number(asked.bright_threshold, held.bright_threshold) && same_number(
            asked.rise_ms,
            held.rise_ms,
        ) && same_number(asked.fall_ms, held.fall_ms) && same_number(
            asked.slew_per_second,
            held.slew_per_second,
        )) ==> changes_everything(Some(asked), Some(held), built),
        built != 0 && asked == held && !is_nan(asked.level) && !is_nan(asked.dark_threshold)
            && !is_nan(asked.bright_threshold) && !is_nan(asked.rise_ms) && !is_nan(asked.fall_ms)
            && !is_nan(asked.slew_per_second) ==> !changes_everything(
            Some(asked),
            Some(held),
            built,
        ),
{
}

/// An output that a build was installed on is owed a frame in the new generation and
/// changes in nothing else.
pub proof fn installing_changes_generation_and_debt_alone(
    presenters: Seq<PresenterView>,
    outputs: Seq<StagedOutput>,
    generation: u64,
    n: int,
    j: int,
)
    requires
        0 <= n <= outputs.len(),
        0 <= j < presenters.len(),
        forall|i: int|
            0 <= i < outputs.len() ==> (#[trigger] outputs[i]).index < presenters.len(),
    ensures
        with_installed(presenters, outputs, generation, n).len() == presenters.len(),
        ({
            let after = with_installed(presenters, outputs, generation, n)[j];
            let named = exists|i: int| 0 <= i < n && (#[trigger] outputs[i]).index == j;
            &&& named ==> after == (PresenterView {
                warp_revision: generation,
                stale: true,
                ..presenters[j]
            })
            &&& !named ==> after == presenters[j]
        }),
        all_at(presenters, generation)[j] == (PresenterView {
            warp_revision: generation,
            ..presenters[j]
        }),
    decreases n,
{
    if n > 0 {
        installing_changes_generation_and_debt_alone(presenters, outputs, generation, n - 1, j);
        let before = with_installed(presenters, outputs, generation, n - 1);
        if outputs[n - 1].index != j {
            if exists|i: int| 0 <= i < n && (#[trigger] outputs[i]).index == j {
                let i = choose|i: int| 0 <= i < n && (#[trigger] outputs[i]).index == j;
                assert(0 <= i < n - 1 && outputs[i].index == j);
            }
        }
    }
}

/// An output is found by the first announcement under its name.
pub proof fn outputs_are_found_by_name(
    outputs: Seq<AnnouncedOutput>,
    name: Seq<char>,
    from: int,
)
    requires
        0 <= from <= outputs.len(),
    ensures
        match named_from(outputs, name, from) {
            Some(k) => {
                &&& from <= k < outputs.len()
                &&& outputs[k].name is Some && outputs[k].name->0@ == name
                &&& forall|j: int|
                    from <= j < k ==> (#[trigger] outputs[j]).name is None || outputs[j].name->0@
                        != name
            },
            None => forall|j: int|
                from <= j < outputs.len() ==> (#[trigger] outputs[j]).name is None
                    || outputs[j].name->0@ != name,
        },
    decreases outputs.len() - from,
{
    if from < outputs.len() && !(outputs[from].name is Some && outputs[from].name->0@ == name) {
        outputs_are_found_by_name(outputs, name, from + 1);
        assert forall|j: int|
            from <= j < (match named_from(outputs, name, from) {
                Some(k) => k,
                None => outputs.len() as int,
            }) implies (#[trigger] outputs[j]).name is None || outputs[j].name->0@ != name by {
            if j > from {
                let _ = outputs[j];
            }
        }
    }
}

/// What is told of direct showing names the output and the answer.
pub proof fn direct_showing_is_told(name: Seq<char>, fourcc: u32, modifier: u64, reason: Seq<char>)
    ensures
        candidate_text(name, VerdictView::Yes { fourcc, modifier }) == "slicer: output "@ + name
            + ": scanout candidate: "@ + ("yes (fourcc "@ + fourcc_text(fourcc) + ", modifier 0x"@
            + hexadecimal(modifier as nat) + ")"@),
        candidate_text(name, VerdictView::No(reason)) == "slicer: output "@ + name
            + ": scanout candidate: "@ + ("no ("@ + reason + ")"@),
        candidate_text(name, VerdictView::Unconfirmed(reason)) == "slicer: output "@ + name
            + ": scanout candidate: "@ + ("unconfirmed ("@ + reason + ")"@),
{
}

/// The two formats that are drawn in are known by the codes that spell their names.
pub proof fn formats_are_known_by_name()
    ensures
        fourcc_text(FOURCC_XR24) == "XR24"@,
        fourcc_text(FOURCC_XB24) == "XB24"@,
{
    reveal_strlit("XR24");
    reveal_strlit("XB24");
    assert(fourcc_text(FOURCC_XR24) =~= "XR24"@);
    assert(fourcc_text(FOURCC_XB24) =~= "XB24"@);
}

/// Geometry is asked to be corrected where a slice has pins that move something, and a
/// slice is placed where it has an area.
pub proof fn corrections_are_asked_for_by_pins(spec: SlicerSpec, checks: Seq<WarpCheck>, i: int)
    requires
        0 <= i < spec.slices@.len(),
    ensures
        asks_for_warp(spec, checks, i) <==> spec.slices@[i].geometry is Some && (checks[i] is Warped
            || checks[i] is Invalid),
        is_placed(spec, i) <==> spec.slices@[i].source.width >= 1 && spec.slices@[i].source.height
            >= 1,
{
}

/// Sampling is exact as a whole where it is for every output.
pub proof fn sampling_is_exact_everywhere_or_not(sampling: Seq<Sampling>, n: int, i: int)
    requires
        0 <= i < n <= sampling.len(),
    ensures
        all_exact(sampling, n) ==> sampling[i] is Exact,
        !all_exact(sampling, n) ==> exists|k: int|
            0 <= k < n && !((#[trigger] sampling[k]) is Exact),
{
}

/// Each slice is shown on the first output that is announced under its own name; all are
/// found where each of them is.
pub proof fn slices_find_their_output(
    spec: SlicerSpec,
    outputs: Seq<AnnouncedOutput>,
    n: int,
    i: int,
)
    requires
        0 <= i < n <= spec.slices@.len(),
    ensures
        match target_of(spec, outputs, i) {
            Some(k) => {
                &&& 0 <= k < outputs.len()
                &&& outputs[k].name is Some && outputs[k].name->0@ == spec.slices@[i].output@
                &&& forall|j: int|
                    0 <= j < k ==> (#[trigger] outputs[j]).name is None || outputs[j].name->0@
                        != spec.slices@[i].output@
            },
            None => forall|j: int|
                0 <= j < outputs.len() ==> (#[trigger] outputs[j]).name is None
                    || outputs[j].name->0@ != spec.slices@[i].output@,
        },
        all_found(spec, outputs, n) ==> target_of(spec, outputs, i) is Some,
        (forall|k: int| 0 <= k < n ==> (#[trigger] target_of(spec, outputs, k)) is Some)
            ==> all_found(spec, outputs, n),
{
    outputs_are_found_by_name(outputs, spec.slices@[i].output@, 0);
}

/// Failed captures are counted as long as they come in a row.
pub proof fn failures_are_counted_in_a_row(failures: u32)
    ensures
        failures_after(failures, true) == failures + 1,
        failures_after(failures, false) == 0,
{
}

/// The first candidate is the format that spells XR24, the second the one that spells XB24.
pub proof fn candidates_are_known_by_name()
    ensures
        fourcc_text(code_of(true)) == "XR24"@,
        fourcc_text(code_of(false)) == "XB24"@,
{
    formats_are_known_by_name();
}

/// The loop goes on where there is something to do; it blocks only where there is nothing
/// and nothing has to be looked at in between.
pub proof fn loop_blocks_only_where_it_can(something: bool, in_between: bool)
    ensures
        wait_of(something, in_between) == WaitStep::Go <==> something,
        wait_of(something, in_between) == WaitStep::Block <==> !something && !in_between,
        wait_of(something, in_between) == WaitStep::Poll <==> !something && in_between,
{
}

/// Images are made anew exactly where a format was chosen, the output has a size, and the
/// images that are there are not of that size; then in that size.
pub proof fn images_are_made_in_the_size_of_the_output(
    chosen: bool,
    configured: Option<(u32, u32)>,
    held: Option<(u32, u32)>,
)
    ensures
        size_to_make(chosen, configured, held) is Some <==> chosen && configured is Some && held
            != configured,
        size_to_make(chosen, configured, held) matches Some(size) ==> configured == Some(size),
{
}

/// New buffers are all free, three of them for the card and two for the processor, and the
/// first is taken first.
pub proof fn new_buffers_are_free(presenter: PresenterView, backend: Option<Backend>, i: int)
    ensures
        ({
            let made = with_buffers(presenter, backend);
            &&& backend == Some(Backend::Gpu) ==> made.busy.len() == 3
            &&& backend != Some(Backend::Gpu) ==> made.busy.len() == 2
            &&& 0 <= i < made.busy.len() ==> !made.busy[i]
            &&& made.next_buffer == 0
            &&& made == (PresenterView { busy: made.busy, next_buffer: 0, ..presenter })
        }),
{
}

/// A capture buffer is kept exactly where its width, its height and its stride are those
/// that are offered; an image of the card where its format, its width and its height are.
pub proof fn buffers_are_kept_where_they_fit(
    shm: ShmOffer,
    held: Option<(u32, u32, u32)>,
    offer: DmabufOffer,
    image: Option<DmabufOffer>,
)
    ensures
        is_held(shm, held) <==> (held matches Some((width, height, stride)) && width == shm.width
            && height == shm.height && stride == shm.stride),
        is_imported(offer, image) <==> (image matches Some(image) && image.format == offer.format
            && image.width == offer.width && image.height == offer.height),
{
}

/// A captured image has a layout that can be filtered where there is one; any other only
/// where no geometry can be corrected.
pub proof fn captures_can_be_filtered(filtering: Seq<u64>, any: Seq<u64>, warp_available: bool)
    ensures
        filtering.len() > 0 ==> layouts(filtering, any, warp_available) == Some(filtering),
        filtering.len() == 0 && warp_available ==> layouts(filtering, any, warp_available) is None,
        filtering.len() == 0 && !warp_available && any.len() > 0 ==> layouts(
            filtering,
            any,
            warp_available,
        ) == Some(any),
        filtering.len() == 0 && any.len() == 0 ==> layouts(filtering, any, warp_available) is None,
{
}

/// A run does not start where correction was asked for and there is a reason against it; it
/// starts at once on the processor, and after a build on the card.
pub proof fn runs_start_as_they_can(capability: Capability)
    ensures
        capability.is_refused() <==> capability.requested_mode == ProjectionMode::Warp
            && capability.reason is Some,
        capability.is_plain() <==> capability.effective_renderer == Renderer::Cpu && (
        capability.requested_mode == ProjectionMode::Simple || capability.reason is None),
{
}

} // verus!
