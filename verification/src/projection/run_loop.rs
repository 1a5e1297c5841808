//! How a run starts, and what each turn of its loop does.
use crate::config::{ProjectionMode, Renderer};
use crate::names::same_text;
use crate::projection::backend::Capability;
use crate::projection::blend::{format_of, pixel_format, PixelFormat};
use crate::projection::pacing::{Slicer, MAX_FAILURES};
use crate::projection::scanout::{fourcc_name, fourcc_text, ScanoutVerdict, VerdictView};
use crate::projection::slices::SlicerSpec;
use crate::projection::wall::{present_slots, Backend, PresenterView, Wall};
use crate::text::{
    decimal, hexadecimal, hexadecimal8, push_decimal, push_hexadecimal, push_hexadecimal8,
};
use vstd::prelude::*;
use vstd::string::*;

verus! {

/// A run that cannot start.
pub struct Refusal {
    /// What it says of itself.
    pub capability: Capability,
    pub reason: String,
}

/// Refuses a run that asks for geometric correction of a renderer that has none,
/// before anything is connected.
pub fn before_connecting(requested: bool, renderer: Renderer) -> (refusal: Option<Refusal>)
    ensures
        refusal is Some <==> requested && renderer == Renderer::Cpu,
        refusal matches Some(refused) ==> {
            &&& refused.reason@
                == "warp_unavailable: renderer:cpu does not support geometric warp correction"@
            &&& refused.capability.requested_renderer == renderer
            &&& refused.capability.effective_renderer == Renderer::Cpu
            &&& !refused.capability.warp_available
            &&& refused.capability.reason matches Some(said) && said@
                == "renderer:cpu does not support geometric warp correction"@
            &&& refused.capability.requested_mode == ProjectionMode::Warp
            &&& refused.capability.effective_mode == ProjectionMode::Simple
        },
{
    if !requested {
        return None;
    }
    match renderer {
        Renderer::Cpu => Some(
            Refusal {
                capability: Capability {
                    requested_renderer: renderer,
                    effective_renderer: Renderer::Cpu,
                    warp_available: false,
                    reason: Some(
                        "renderer:cpu does not support geometric warp correction".to_owned(),
                    ),
                    requested_mode: ProjectionMode::Warp,
                    effective_mode: ProjectionMode::Simple,
                },
                reason: "warp_unavailable: renderer:cpu does not support geometric warp correction".to_owned(),
            },
        ),
        _ => None,
    }
}

/// An output as the compositor announces it.
pub struct AnnouncedOutput {
    pub name: Option<String>,
    /// The number under which the compositor knows it.
    pub global: u32,
}

/// The outputs that a run uses.
#[derive(Debug)]
pub struct Located {
    /// The one that holds the canvas.
    pub source: usize,
    /// The one of each slice.
    pub targets: Vec<usize>,
    /// The numbers of all of them: a run ends when one of these goes away.
    pub used_outputs: Vec<u32>,
}

/// An output has a name.
pub open spec fn is_named(output: AnnouncedOutput, name: Seq<char>) -> bool {
    output.name matches Some(own) && own@ == name
}

/// The first output of a name, from `i` on.
pub open spec fn named_from(outputs: Seq<AnnouncedOutput>, name: Seq<char>, i: int) -> Option<int>
    decreases outputs.len() - i,
{
    if i >= outputs.len() || i < 0 {
        None
    } else if is_named(outputs[i], name) {
        Some(i)
    } else {
        named_from(outputs, name, i + 1)
    }
}

proof fn named_is_there(outputs: Seq<AnnouncedOutput>, name: Seq<char>, i: int)
    requires
        0 <= i,
    ensures
        named_from(outputs, name, i) matches Some(k) ==> i <= k < outputs.len() && is_named(
            outputs[k],
            name,
        ),
    decreases outputs.len() - i,
{
    if i < outputs.len() && !is_named(outputs[i], name) {
        named_is_there(outputs, name, i + 1);
    }
}

fn find_named(outputs: &[AnnouncedOutput], name: &str) -> (found: Option<usize>)
    ensures
        match found {
            Some(i) => named_from(outputs@, name@, 0) == Some(i as int) && i < outputs@.len(),
            None => named_from(outputs@, name@, 0) is None,
        },
{
    let mut i: usize = 0;
    while i < outputs.len()
        invariant
            i <= outputs@.len(),
            named_from(outputs@, name@, 0) == named_from(outputs@, name@, i as int),
        decreases outputs@.len() - i,
    {
        let named = match &outputs[i].name {
            Some(own) => same_text(own.as_str(), name),
            None => false,
        };
        if named {
            return Some(i);
        }
        i = i + 1;
    }
    None
}

/// The output of the slice at `i`.
pub open spec fn target_of(spec: SlicerSpec, outputs: Seq<AnnouncedOutput>, i: int) -> Option<int> {
    named_from(outputs, spec.slices@[i].output@, 0)
}

/// The first `n` slices all have an output.
pub open spec fn all_found(spec: SlicerSpec, outputs: Seq<AnnouncedOutput>, n: int) -> bool {
    forall|i: int| 0 <= i < n ==> (#[trigger] target_of(spec, outputs, i)) is Some
}

/// Finds the outputs that a run uses. The canvas is looked for first, and then
/// the output of each slice in turn; the first that is missing is named.
pub fn locate(spec: &SlicerSpec, outputs: &[AnnouncedOutput]) -> (located: Result<Located, String>)
    requires
        spec.slices@.len() < usize::MAX,
    ensures
        match named_from(outputs@, spec.source@, 0) {
            None => located matches Err(reason) && reason@ == "no output named "@ + spec.source@
                + " to capture"@,
            Some(source) => {
                &&& all_found(*spec, outputs@, spec.slices@.len() as int) ==> (located matches Ok(
                    found,
                ) && {
                    &&& found.source == source
                    &&& found.targets@.len() == spec.slices@.len()
                    &&& forall|i: int|
                        0 <= i < spec.slices@.len() ==> #[trigger] target_of(*spec, outputs@, i)
                            == Some(found.targets@[i] as int)
                    &&& found.used_outputs@.len() == 1 + spec.slices@.len()
                    &&& found.used_outputs@[0] == outputs@[source].global
                    &&& forall|i: int|
                        0 <= i < spec.slices@.len() ==> #[trigger] found.used_outputs@[1 + i]
                            == outputs@[target_of(*spec, outputs@, i)->0].global
                })
                &&& forall|i: int|
                    0 <= i < spec.slices@.len() && all_found(*spec, outputs@, i)
                        && (#[trigger] target_of(*spec, outputs@, i)) is None ==> (
                    located matches Err(reason) && reason@ == "no output named "@
                        + spec.slices@[i].output@)
            },
        },
{
    let source: usize = match find_named(outputs, spec.source.as_str()) {
        Some(source) => source,
        None => {
            let mut reason = "no output named ".to_owned();
            reason.append(spec.source.as_str());
            reason.append(" to capture");
            return Err(reason);
        },
    };
    let mut targets: Vec<usize> = Vec::new();
    let mut used_outputs: Vec<u32> = Vec::new();
    used_outputs.push(outputs[source].global);
    let mut i: usize = 0;
    while i < spec.slices.len()
        invariant
            i <= spec.slices@.len(),
            spec.slices@.len() < usize::MAX,
            source < outputs@.len(),
            named_from(outputs@, spec.source@, 0) == Some(source as int),
            all_found(*spec, outputs@, i as int),
            targets@.len() == i,
            forall|j: int|
                0 <= j < i ==> #[trigger] target_of(*spec, outputs@, j) == Some(
                    targets@[j] as int,
                ),
            used_outputs@.len() == 1 + i,
            used_outputs@[0] == outputs@[source as int].global,
            forall|j: int|
                0 <= j < i ==> #[trigger] used_outputs@[1 + j] == outputs@[target_of(
                    *spec,
                    outputs@,
                    j,
                )->0].global,
        decreases spec.slices@.len() - i,
    {
        match find_named(outputs, spec.slices[i].output.as_str()) {
            Some(target) => {
                assert(target_of(*spec, outputs@, i as int) == Some(target as int));
                let ghost before = used_outputs@;
                targets.push(target);
                used_outputs.push(outputs[target].global);
                assert forall|j: int| 0 <= j < i + 1 implies #[trigger] used_outputs@[1 + j]
                    == outputs@[target_of(*spec, outputs@, j)->0].global by {
                    if j < i {
                        assert(used_outputs@[1 + j] == before[1 + j]);
                    }
                }
            },
            None => {
                let mut reason = "no output named ".to_owned();
                reason.append(spec.slices[i].output.as_str());
                assert(target_of(*spec, outputs@, i as int) is None);
                assert forall|j: int|
                    0 <= j < spec.slices@.len() && all_found(*spec, outputs@, j) && (
                    #[trigger] target_of(*spec, outputs@, j)) is None implies j == i by {
                    if j > i {
                        assert(target_of(*spec, outputs@, i as int) is Some);
                    }
                }
                return Err(reason);
            },
        }
        i = i + 1;
    }
    Ok(Located { source, targets, used_outputs })
}

/// A run watches exactly the outputs that it uses.
pub proof fn used_outputs_are_there(spec: SlicerSpec, outputs: Seq<AnnouncedOutput>, i: int)
    requires
        0 <= i < spec.slices@.len(),
    ensures
        target_of(spec, outputs, i) matches Some(k) ==> 0 <= k < outputs.len() && is_named(
            outputs[k],
            spec.slices@[i].output@,
        ),
{
    named_is_there(outputs, spec.slices@[i].output@, 0);
}

/// How the loop waits.
#[derive(Clone, Copy, Debug, PartialEq, Eq, Structural)]
pub enum WaitStep {
    /// There is something to do.
    Go,
    /// Wait for the compositor, but look at edits and retries in between.
    Poll,
    /// Wait for the compositor.
    Block,
}

/// How the loop waits, where something is there to do, or something has to be looked at
/// in between.
pub open spec fn wait_of(something: bool, in_between: bool) -> WaitStep {
    if something {
        WaitStep::Go
    } else if in_between {
        WaitStep::Poll
    } else {
        WaitStep::Block
    }
}

/// Decides how the loop waits. A wall that only waits for its own outputs does
/// not wait for a capture.
pub fn wait_step(
    ready: bool,
    failed: bool,
    can_present: bool,
    live_edits: bool,
    retry: bool,
) -> (step: WaitStep)
    ensures
        step == wait_of(ready || failed || can_present, live_edits || retry),
        step == if ready || failed || can_present {
            WaitStep::Go
        } else if live_edits || retry {
            WaitStep::Poll
        } else {
            WaitStep::Block
        },
{
    if ready || failed || can_present {
        WaitStep::Go
    } else if live_edits || retry {
        WaitStep::Poll
    } else {
        WaitStep::Block
    }
}

/// What became of a capture.
#[derive(Debug, PartialEq, Eq)]
pub enum CaptureStep {
    /// It failed: both captures under way are dropped and one is begun anew.
    Restart,
    /// It failed too often.
    GiveUp(String),
    /// It is complete.
    Filled,
    /// None was complete.
    Nothing,
}

/// How often captures have failed in a row by now.
pub open spec fn failures_after(failures: u32, failed: bool) -> int {
    if failed {
        failures + 1
    } else {
        0
    }
}

impl Slicer {
    /// Takes what became of a capture while the run was looking elsewhere.
    pub fn capture_step(&mut self, ready: bool, failed: bool) -> (step: CaptureStep)
        requires
            old(self).failures < MAX_FAILURES,
        ensures
            *final(self) == (Slicer {
                failures: failures_after(old(self).failures, failed) as u32,
                ..*old(self)
            }),
            if failed && old(self).failures + 1 >= MAX_FAILURES {
                step matches CaptureStep::GiveUp(reason) && reason@ == "screencopy failed "@
                    + decimal((old(self).failures + 1) as nat) + " times; giving up"@
            } else if failed {
                step is Restart
            } else if ready {
                step is Filled
            } else {
                step is Nothing
            },
    {
        if failed {
            if self.capture_failed() {
                let mut reason = "screencopy failed ".to_owned();
                push_decimal(&mut reason, self.failures as u64);
                reason.append(" times; giving up");
                return CaptureStep::GiveUp(reason);
            }
            return CaptureStep::Restart;
        }
        self.pass_succeeded();
        if ready {
            CaptureStep::Filled
        } else {
            CaptureStep::Nothing
        }
    }

    /// The very first capture failed: whether to try again, or why not.
    pub fn first_capture_failed(&mut self) -> (verdict: Result<(), String>)
        requires
            old(self).failures < MAX_FAILURES,
        ensures
            *final(self) == (Slicer { failures: (old(self).failures + 1) as u32, ..*old(self) }),
            if old(self).failures + 1 < MAX_FAILURES {
                verdict is Ok
            } else {
                verdict matches Err(reason) && reason@ == "initial screencopy failed "@ + decimal(
                    (old(self).failures + 1) as nat,
                ) + " times"@
            },
    {
        if self.capture_failed() {
            let mut reason = "initial screencopy failed ".to_owned();
            push_decimal(&mut reason, self.failures as u64);
            reason.append(" times");
            return Err(reason);
        }
        Ok(())
    }
}

/// Shared memory that the compositor offers to capture into.
#[derive(Clone, Copy, Debug, PartialEq, Eq, Structural)]
pub struct ShmOffer {
    pub format: u32,
    pub width: u32,
    pub height: u32,
    pub stride: u32,
}

/// A buffer for captures.
#[derive(Clone, Copy, Debug, PartialEq, Eq, Structural)]
pub struct CaptureBuffer {
    pub format: PixelFormat,
    /// The one that is held does not fit, and is made anew.
    pub rebuild: bool,
}

/// The buffer that is held has the width, the height and the stride that are offered.
pub open spec fn is_held(offer: ShmOffer, held: Option<(u32, u32, u32)>) -> bool {
    held == Some((offer.width, offer.height, offer.stride))
}

/// Decides on the buffer that a capture in shared memory goes into. `held` is the
/// width, the height and the stride of the one that is there. It is kept where it
/// fits, since damage is told against what was last copied into it.
pub fn shm_capture_buffer(offered: Option<ShmOffer>, held: Option<(u32, u32, u32)>) -> (buffer: Result<
    CaptureBuffer,
    String,
>)
    ensures
        buffer matches Ok(buffer) ==> buffer.rebuild == !is_held(offered->0, held),
        match offered {
            None => buffer matches Err(reason) && reason@ == "screencopy offered no shm buffer"@,
            Some(offer) => match format_of(offer.format) {
                None => buffer matches Err(reason) && reason@ == "unsupported capture format 0x"@
                    + hexadecimal(offer.format as nat),
                Some(format) => buffer == Ok::<CaptureBuffer, String>(
                    CaptureBuffer {
                        format,
                        rebuild: held != Some((offer.width, offer.height, offer.stride)),
                    },
                ),
            },
        },
{
    let offer = match offered {
        Some(offer) => offer,
        None => {
            return Err("screencopy offered no shm buffer".to_owned());
        },
    };
    let format = match pixel_format(offer.format) {
        Some(format) => format,
        None => {
            let mut reason = "unsupported capture format 0x".to_owned();
            push_hexadecimal(&mut reason, offer.format as u64);
            return Err(reason);
        },
    };
    let fits = match held {
        Some((width, height, stride)) => width == offer.width && height == offer.height && stride
            == offer.stride,
        None => false,
    };
    Ok(CaptureBuffer { format, rebuild: !fits })
}

/// Device memory that the compositor offers to capture into, or that is held for
/// it.
#[derive(Clone, Copy, Debug, PartialEq, Eq, Structural)]
pub struct DmabufOffer {
    pub format: u32,
    pub width: u32,
    pub height: u32,
}

/// The image that is held is the one that is offered.
pub open spec fn is_imported(offer: DmabufOffer, held: Option<DmabufOffer>) -> bool {
    held == Some(offer)
}

/// The layouts that a captured image may have.
pub open spec fn layouts(filtering: Seq<u64>, any: Seq<u64>, warp_available: bool) -> Option<
    Seq<u64>,
> {
    if filtering.len() > 0 {
        Some(filtering)
    } else if !warp_available && any.len() > 0 {
        Some(any)
    } else {
        None
    }
}

/// Whether the image that a capture goes into has to be made anew.
pub fn gpu_capture_stale(offered: Option<DmabufOffer>, held: Option<DmabufOffer>) -> (stale: Result<
    bool,
    String,
>)
    ensures
        offered matches Some(offer) ==> stale == Ok::<bool, String>(!is_imported(offer, held)),
        match offered {
            None => stale matches Err(reason) && reason@ == "screencopy offered no dmabuf buffer"@,
            Some(offer) => stale == Ok::<bool, String>(held != Some(offer)),
        },
{
    match offered {
        None => Err("screencopy offered no dmabuf buffer".to_owned()),
        Some(offer) => match held {
            Some(image) => Ok(
                image.format != offer.format || image.width != offer.width || image.height
                    != offer.height,
            ),
            None => Ok(true),
        },
    }
}

/// The layouts that a captured image may have: those that can be sampled
/// smoothly, or any where nothing asks for that.
pub fn capture_modifiers(
    format: u32,
    filtering: Vec<u64>,
    any: Vec<u64>,
    warp_available: bool,
) -> (modifiers: Result<Vec<u64>, String>)
    ensures
        match layouts(filtering@, any@, warp_available) {
            Some(layouts) => modifiers matches Ok(modifiers) && modifiers@ == layouts,
            None => modifiers is Err,
        },
        if filtering@.len() > 0 {
            modifiers == Ok::<Vec<u64>, String>(filtering)
        } else if !warp_available && any@.len() > 0 {
            modifiers == Ok::<Vec<u64>, String>(any)
        } else {
            modifiers matches Err(reason) && reason@
                == "no Vulkan-importable modifier for capture format 0x"@ + hexadecimal8(format)
                + " (mid-run resize to a format the device cannot import?)"@
        },
{
    if filtering.len() > 0 {
        return Ok(filtering);
    }
    if !warp_available && any.len() > 0 {
        return Ok(any);
    }
    let mut reason = "no Vulkan-importable modifier for capture format 0x".to_owned();
    push_hexadecimal8(&mut reason, format);
    reason.append(" (mid-run resize to a format the device cannot import?)");
    Err(reason)
}

/// The size at which the images of an output have to be made anew.
pub open spec fn size_to_make(
    format_chosen: bool,
    configured: Option<(u32, u32)>,
    held: Option<(u32, u32)>,
) -> Option<(u32, u32)> {
    if format_chosen && held != configured {
        configured
    } else {
        None
    }
}

/// An output with new buffers.
pub open spec fn with_buffers(presenter: PresenterView, backend: Option<Backend>) -> PresenterView {
    PresenterView {
        busy: Seq::new(
            if backend == Some(Backend::Gpu) {
                3
            } else {
                2
            },
            |i: int| false,
        ),
        next_buffer: 0,
        ..presenter
    }
}

/// The size at which the images of an output have to be made anew, if so: it has
/// one, and the images that are there are of another.
pub fn present_resize(
    format_chosen: bool,
    configured: Option<(u32, u32)>,
    held: Option<(u32, u32)>,
) -> (size: Option<(u32, u32)>)
    ensures
        size == size_to_make(format_chosen, configured, held),
        size == if format_chosen && held != configured {
            configured
        } else {
            None
        },
{
    if !format_chosen {
        return None;
    }
    match configured {
        None => None,
        Some((width, height)) => match held {
            Some((held_width, held_height)) => if held_width == width && held_height == height {
                None
            } else {
                Some((width, height))
            },
            None => Some((width, height)),
        },
    }
}

/// Whether a table was built for a size.
pub fn table_fits(entries: usize, width: u32, height: u32) -> (fits: bool)
    ensures
        fits == (entries == width * height),
{
    proof {
        assert(0 <= width * height <= 0xffff_ffff * 0xffff_ffff) by (nonlinear_arith)
            requires
                0 <= width <= 0xffff_ffff,
                0 <= height <= 0xffff_ffff,
        ;
    }
    entries as u64 == width as u64 * height as u64
}

impl Wall {
    /// The buffers of an output were made, or made anew: all of them are free, and
    /// the rotation starts over.
    pub fn buffers_made(&mut self, index: usize, backend: Option<Backend>)
        requires
            index < old(self).views().len(),
        ensures
            final(self).views()[index as int] == with_buffers(
                old(self).views()[index as int],
                backend,
            ),
            final(self).same_but_presenters(*old(self)),
            final(self).views() == old(self).views().update(
                index as int,
                PresenterView {
                    busy: Seq::new(
                        if backend == Some(Backend::Gpu) {
                            3
                        } else {
                            2
                        },
                        |i: int| false,
                    ),
                    next_buffer: 0,
                    ..old(self).views()[index as int]
                },
            ),
            old(self).wf() ==> final(self).wf(),
    {
        let ghost views = self.views();
        let slots: usize = present_slots(backend);
        let mut busy: Vec<bool> = Vec::new();
        let mut i: usize = 0;
        while i < slots
            invariant
                i <= slots,
                busy@ == Seq::new(i as nat, |j: int| false),
            decreases slots - i,
        {
            busy.push(false);
            assert(busy@ =~= Seq::new((i + 1) as nat, |j: int| false));
            i = i + 1;
        }
        assert(views[index as int] == self.presenters@[index as int]@);
        self.presenters[index].busy = busy;
        self.presenters[index].next_buffer = 0;
        let ghost made = PresenterView {
            busy: Seq::new(slots as nat, |j: int| false),
            next_buffer: 0,
            ..views[index as int]
        };
        assert(self.views() =~= views.update(index as int, made));
        proof {
            if old(self).wf() {
                assert forall|j: int| 0 <= j < self.views().len() implies (
                #[trigger] self.views()[j]).wf() by {
                    assert(views[j].wf());
                }
            }
        }
    }
}

/// What is said of an output's buffers, in words.
pub open spec fn candidate_text(name: Seq<char>, verdict: VerdictView) -> Seq<char> {
    "slicer: output "@ + name + ": scanout candidate: "@ + match verdict {
        VerdictView::Yes { fourcc, modifier } => "yes (fourcc "@ + fourcc_text(fourcc)
            + ", modifier 0x"@ + hexadecimal(modifier as nat) + ")"@,
        VerdictView::No(reason) => "no ("@ + reason + ")"@,
        VerdictView::Unconfirmed(reason) => "unconfirmed ("@ + reason + ")"@,
    }
}

/// What is said of an output's buffers, in words.
pub fn scanout_candidate(name: &str, verdict: &ScanoutVerdict) -> (line: String)
    ensures
        line@ == candidate_text(name@, verdict.deep_view()),
{
    let mut line = "slicer: output ".to_owned();
    line.append(name);
    line.append(": scanout candidate: ");
    let ghost start = line@;
    match verdict {
        ScanoutVerdict::Yes { fourcc, modifier } => {
            line.append("yes (fourcc ");
            let code = fourcc_name(*fourcc);
            line.append(code.as_str());
            line.append(", modifier 0x");
            push_hexadecimal(&mut line, *modifier);
            line.append(")");
            assert(line@ =~= start + ("yes (fourcc "@ + fourcc_text(*fourcc) + ", modifier 0x"@
                + hexadecimal(*modifier as nat) + ")"@));
        },
        ScanoutVerdict::No(reason) => {
            line.append("no (");
            line.append(reason.as_str());
            line.append(")");
            assert(line@ =~= start + ("no ("@ + reason@ + ")"@));
        },
        ScanoutVerdict::Unconfirmed(reason) => {
            line.append("unconfirmed (");
            line.append(reason.as_str());
            line.append(")");
            assert(line@ =~= start + ("unconfirmed ("@ + reason@ + ")"@));
        },
    }
    line
}

} // verus!
