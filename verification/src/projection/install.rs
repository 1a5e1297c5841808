//! Putting a finished build in force between two frames.
use crate::names::same_text;
use crate::projection::adaptive::{same_lift, AdaptiveLift};
use crate::projection::wall::{PresenterView, Wall};
use vstd::prelude::*;
use vstd::string::*;

verus! {

/// An output that was built.
pub struct StagedOutput {
    pub index: usize,
    pub name: String,
    pub size: (u32, u32),
    /// Its pixels are mixed, not copied.
    pub filtered: bool,
    /// Its geometry is corrected.
    pub corrected: bool,
}

/// An output of the wall.
pub struct WallOutput {
    pub name: String,
    pub configured: Option<(u32, u32)>,
}

/// What becomes of a build.
#[derive(Debug, PartialEq, Eq)]
pub enum Install {
    /// Its tables are to be uploaded.
    Upload,
    /// It is refused; what is in force stays, unless the run has to end.
    Refuse { reason: String, fatal: bool },
}

/// What an [`Install`] says.
pub enum InstallView {
    Upload,
    Refuse { reason: Seq<char>, fatal: bool },
}

impl DeepView for Install {
    type V = InstallView;

    open spec fn deep_view(&self) -> InstallView {
        match self {
            Install::Upload => InstallView::Upload,
            Install::Refuse { reason, fatal } => InstallView::Refuse {
                reason: reason@,
                fatal: *fatal,
            },
        }
    }
}

/// What a build is held against.
pub struct InstallState {
    /// Whether the first captured image can be sampled smoothly, where there is
    /// one.
    pub capture_filters: Option<bool>,
    pub warp_available: bool,
    pub device: bool,
    /// Every output has its tables.
    pub initialized: bool,
}

/// A built output is one of the wall, and of the size that it was built for.
pub open spec fn still_fits(output: StagedOutput, wall: Seq<WallOutput>) -> bool {
    output.index < wall.len() && wall[output.index as int].name@ == output.name@
        && wall[output.index as int].configured == Some(output.size)
}

/// Every built output still fits.
pub open spec fn all_fit(outputs: Seq<StagedOutput>, wall: Seq<WallOutput>) -> bool {
    forall|i: int| 0 <= i < outputs.len() ==> #[trigger] still_fits(outputs[i], wall)
}

/// Some built output mixes pixels.
pub open spec fn any_filtered(outputs: Seq<StagedOutput>) -> bool {
    exists|i: int| 0 <= i < outputs.len() && (#[trigger] outputs[i]).filtered
}

/// Some built output is corrected.
pub open spec fn any_corrected(outputs: Seq<StagedOutput>) -> bool {
    exists|i: int| 0 <= i < outputs.len() && (#[trigger] outputs[i]).corrected
}

/// What becomes of a build. A wall that changed under it, and a capture that
/// cannot be sampled as the new crop asks, end the run; anything else leaves it
/// as it was, once it has something to show.
pub open spec fn install_decision(
    outputs: Seq<StagedOutput>,
    wall: Seq<WallOutput>,
    state: InstallState,
) -> InstallView {
    if !all_fit(outputs, wall) {
        InstallView::Refuse { reason: "output topology changed; restart required"@, fatal: true }
    } else if any_filtered(outputs) && state.capture_filters == Some(false) {
        InstallView::Refuse {
            reason: "capture format/modifier does not support linear filtering required by the source crop; restarting with CPU"@,
            fatal: true,
        }
    } else if any_corrected(outputs) && !state.warp_available {
        InstallView::Refuse {
            reason: "warp_unavailable: negotiated pipeline does not support geometric correction"@,
            fatal: !state.initialized,
        }
    } else if !state.device {
        InstallView::Refuse { reason: "GPU unavailable"@, fatal: !state.initialized }
    } else {
        InstallView::Upload
    }
}

fn fits(outputs: &[StagedOutput], wall: &[WallOutput]) -> (fit: bool)
    ensures
        fit == all_fit(outputs@, wall@),
{
    let mut i: usize = 0;
    while i < outputs.len()
        invariant
            i <= outputs@.len(),
            forall|j: int| 0 <= j < i ==> #[trigger] still_fits(outputs@[j], wall@),
        decreases outputs@.len() - i,
    {
        let output = &outputs[i];
        let fit = output.index < wall.len() && same_text(
            wall[output.index].name.as_str(),
            output.name.as_str(),
        ) && match wall[output.index].configured {
            Some((width, height)) => width == output.size.0 && height == output.size.1,
            None => false,
        };
        assert(fit == still_fits(outputs@[i as int], wall@));
        if !fit {
            return false;
        }
        i = i + 1;
    }
    true
}

fn mixes(outputs: &[StagedOutput]) -> (any: bool)
    ensures
        any == any_filtered(outputs@),
{
    let mut i: usize = 0;
    while i < outputs.len()
        invariant
            i <= outputs@.len(),
            forall|j: int| 0 <= j < i ==> !(#[trigger] outputs@[j]).filtered,
        decreases outputs@.len() - i,
    {
        if outputs[i].filtered {
            return true;
        }
        i = i + 1;
    }
    false
}

fn corrects(outputs: &[StagedOutput]) -> (any: bool)
    ensures
        any == any_corrected(outputs@),
{
    let mut i: usize = 0;
    while i < outputs.len()
        invariant
            i <= outputs@.len(),
            forall|j: int| 0 <= j < i ==> !(#[trigger] outputs@[j]).corrected,
        decreases outputs@.len() - i,
    {
        if outputs[i].corrected {
            return true;
        }
        i = i + 1;
    }
    false
}

/// Decides what becomes of a build.
pub fn decide_install(outputs: &[StagedOutput], wall: &[WallOutput], state: &InstallState) -> (install:
    Install)
    ensures
        install.deep_view() == install_decision(outputs@, wall@, *state),
{
    if !fits(outputs, wall) {
        return Install::Refuse {
            reason: "output topology changed; restart required".to_owned(),
            fatal: true,
        };
    }
    let unfiltered = match state.capture_filters {
        Some(filters) => !filters,
        None => false,
    };
    if mixes(outputs) && unfiltered {
        return Install::Refuse {
            reason: "capture format/modifier does not support linear filtering required by the source crop; restarting with CPU".to_owned(),
            fatal: true,
        };
    }
    if corrects(outputs) && !state.warp_available {
        return Install::Refuse {
            reason: "warp_unavailable: negotiated pipeline does not support geometric correction".to_owned(),
            fatal: !state.initialized,
        };
    }
    if !state.device {
        return Install::Refuse {
            reason: "GPU unavailable".to_owned(),
            fatal: !state.initialized,
        };
    }
    Install::Upload
}

/// What becomes of a build whose tables could not be uploaded: what is in force
/// stays, unless there is nothing yet.
pub fn upload_failed(reason: String, initialized: bool) -> (install: Install)
    ensures
        install.deep_view() == (InstallView::Refuse { reason: reason@, fatal: !initialized }),
{
    Install::Refuse { reason, fatal: !initialized }
}

/// A run that has something to show survives every refusal but that of a wall or
/// a capture that no longer fits.
pub proof fn refusals_leave_a_running_wall_alone(
    outputs: Seq<StagedOutput>,
    wall: Seq<WallOutput>,
    state: InstallState,
)
    requires
        state.initialized,
        all_fit(outputs, wall),
        state.capture_filters != Some(false),
    ensures
        match install_decision(outputs, wall, state) {
            InstallView::Upload => true,
            InstallView::Refuse { fatal, .. } => !fatal,
        },
{
}

/// How the pixels of an output are taken from the canvas.
#[derive(Clone, Copy, Debug, PartialEq, Eq, Structural)]
pub enum SamplingMode {
    Exact,
    Bilinear,
}

/// What is reported of a build that came into force.
pub struct Applied {
    pub outputs: Vec<String>,
    pub sampling_modes: Vec<(String, SamplingMode)>,
}

/// The names of the built outputs.
pub open spec fn staged_names(outputs: Seq<StagedOutput>) -> Seq<Seq<char>> {
    outputs.map_values(|output: StagedOutput| output.name@)
}

/// The names, and after them those of the wall that are missing, among the first
/// `n` outputs of the wall.
pub open spec fn with_missing(names: Seq<Seq<char>>, wall: Seq<WallOutput>, n: int) -> Seq<Seq<char>>
    decreases n,
{
    if n <= 0 {
        names
    } else {
        let before = with_missing(names, wall, n - 1);
        if before.contains(wall[n - 1].name@) {
            before
        } else {
            before.push(wall[n - 1].name@)
        }
    }
}

/// What is reported. Where a setting of the whole wall changed with the build,
/// every output is.
pub open spec fn reported_outputs(
    outputs: Seq<StagedOutput>,
    wall: Seq<WallOutput>,
    everywhere: bool,
) -> Seq<Seq<char>> {
    if everywhere {
        with_missing(staged_names(outputs), wall, wall.len() as int)
    } else {
        staged_names(outputs)
    }
}

fn names_hold(names: &Vec<String>, name: &str) -> (held: bool)
    ensures
        held == names.deep_view().contains(name@),
{
    let mut i: usize = 0;
    while i < names.len()
        invariant
            i <= names@.len(),
            forall|j: int| 0 <= j < i ==> names.deep_view()[j] != name@,
        decreases names@.len() - i,
    {
        assert(names.deep_view()[i as int] == names@[i as int]@);
        if same_text(names[i].as_str(), name) {
            return true;
        }
        i = i + 1;
    }
    false
}

/// A build changes the whole wall, and not only the outputs that it was made for:
/// black adapts, and it does so by other settings than before, or nothing else
/// was built.
pub open spec fn changes_everything(
    asked: Option<AdaptiveLift>,
    in_force: Option<AdaptiveLift>,
    built: int,
) -> bool {
    asked matches Some(lift) && (built == 0 || !(in_force matches Some(held) && same_lift(
        held,
        lift,
    )))
}

/// Whether a build changes the whole wall.
pub fn is_wall_wide(
    asked: &Option<AdaptiveLift>,
    in_force: &Option<AdaptiveLift>,
    built: usize,
) -> (everywhere: bool)
    ensures
        everywhere == changes_everything(*asked, *in_force, built as int),
{
    match (asked, in_force) {
        (Some(lift), Some(held)) => built == 0 || !held.equals(lift),
        (Some(_), None) => true,
        (None, _) => false,
    }
}

/// Reports a build that came into force.
pub fn applied(outputs: &[StagedOutput], wall: &[WallOutput], everywhere: bool) -> (applied: Applied)
    ensures
        applied.outputs.deep_view() == reported_outputs(outputs@, wall@, everywhere),
        applied.sampling_modes@.len() == outputs@.len(),
        forall|i: int|
            0 <= i < outputs@.len() ==> (#[trigger] applied.sampling_modes@[i]).0@
                == outputs@[i].name@ && applied.sampling_modes@[i].1 == if outputs@[i].filtered {
                SamplingMode::Bilinear
            } else {
                SamplingMode::Exact
            },
{
    let mut names: Vec<String> = Vec::new();
    let mut modes: Vec<(String, SamplingMode)> = Vec::new();
    let mut i: usize = 0;
    assert(names.deep_view() =~= staged_names(outputs@.take(0)));
    while i < outputs.len()
        invariant
            i <= outputs@.len(),
            modes@.len() == i,
            names.deep_view() == staged_names(outputs@.take(i as int)),
            forall|j: int|
                0 <= j < i ==> (#[trigger] modes@[j]).0@ == outputs@[j].name@ && modes@[j].1
                    == if outputs@[j].filtered {
                    SamplingMode::Bilinear
                } else {
                    SamplingMode::Exact
                },
        decreases outputs@.len() - i,
    {
        let output = &outputs[i];
        let ghost before = names.deep_view();
        names.push(output.name.clone());
        modes.push(
            (
                output.name.clone(),
                if output.filtered {
                    SamplingMode::Bilinear
                } else {
                    SamplingMode::Exact
                },
            ),
        );
        proof {
            assert(names.deep_view() =~= before.push(output.name@));
            assert(outputs@.take(i + 1) =~= outputs@.take(i as int).push(*output));
            assert(staged_names(outputs@.take(i + 1)) =~= before.push(output.name@));
        }
        i = i + 1;
    }
    assert(outputs@.take(outputs@.len() as int) =~= outputs@);
    if everywhere {
        let mut k: usize = 0;
        while k < wall.len()
            invariant
                k <= wall@.len(),
                names.deep_view() == with_missing(staged_names(outputs@), wall@, k as int),
            decreases wall@.len() - k,
        {
            let ghost before = names.deep_view();
            if !names_hold(&names, wall[k].name.as_str()) {
                names.push(wall[k].name.clone());
                assert(names.deep_view() =~= before.push(wall@[k as int].name@));
            }
            k = k + 1;
        }
    }
    Applied { outputs: names, sampling_modes: modes }
}

/// The presenters once the first `n` built outputs are in force: each carries the
/// new geometry, and is owed a frame.
pub open spec fn with_installed(
    presenters: Seq<PresenterView>,
    outputs: Seq<StagedOutput>,
    generation: u64,
    n: int,
) -> Seq<PresenterView>
    decreases n,
{
    if n <= 0 {
        presenters
    } else {
        let before = with_installed(presenters, outputs, generation, n - 1);
        let index = outputs[n - 1].index as int;
        before.update(
            index,
            PresenterView { warp_revision: generation, stale: true, ..before[index] },
        )
    }
}

/// Every presenter with the geometry of a generation.
pub open spec fn all_at(presenters: Seq<PresenterView>, generation: u64) -> Seq<PresenterView> {
    presenters.map_values(
        |presenter: PresenterView| PresenterView { warp_revision: generation, ..presenter },
    )
}

proof fn installed_keep_their_buffers(
    presenters: Seq<PresenterView>,
    outputs: Seq<StagedOutput>,
    generation: u64,
    n: int,
)
    requires
        0 <= n <= outputs.len(),
        forall|i: int|
            0 <= i < outputs.len() ==> (#[trigger] outputs[i]).index < presenters.len(),
    ensures
        with_installed(presenters, outputs, generation, n).len() == presenters.len(),
        forall|j: int|
            0 <= j < presenters.len() ==> {
                let after = #[trigger] with_installed(presenters, outputs, generation, n)[j];
                after.busy == presenters[j].busy && after.next_buffer == presenters[j].next_buffer
            },
    decreases n,
{
    if n > 0 {
        installed_keep_their_buffers(presenters, outputs, generation, n - 1);
    }
}

impl Wall {
    /// Puts a build in force: the outputs that were built carry its generation,
    /// and are owed a frame.
    pub fn install(&mut self, outputs: &[StagedOutput], generation: u64)
        requires
            forall|i: int|
                0 <= i < outputs@.len() ==> (#[trigger] outputs@[i]).index < old(
                    self,
                ).views().len(),
        ensures
            final(self).same_but_presenters(*old(self)),
            final(self).views() == with_installed(
                old(self).views(),
                outputs@,
                generation,
                outputs@.len() as int,
            ),
            old(self).wf() ==> final(self).wf(),
    {
        let ghost views = self.views();
        let mut k: usize = 0;
        while k < outputs.len()
            invariant
                k <= outputs@.len(),
                self.same_but_presenters(*old(self)),
                self.presenters@.len() == views.len(),
                self.views() == with_installed(views, outputs@, generation, k as int),
                forall|i: int|
                    0 <= i < outputs@.len() ==> (#[trigger] outputs@[i]).index < views.len(),
            decreases outputs@.len() - k,
        {
            let index: usize = outputs[k].index;
            let ghost held = self.views();
            assert(outputs@[k as int].index < views.len());
            assert(held[index as int] == self.presenters@[index as int]@);
            self.presenters[index].warp_revision = generation;
            self.presenters[index].stale = true;
            assert(self.views() =~= held.update(
                index as int,
                PresenterView { warp_revision: generation, stale: true, ..held[index as int] },
            ));
            k = k + 1;
        }
        proof {
            installed_keep_their_buffers(views, outputs@, generation, outputs@.len() as int);
            if old(self).wf() {
                assert forall|j: int| 0 <= j < self.views().len() implies (
                #[trigger] self.views()[j]).wf() by {
                    assert(views[j].wf());
                    assert(with_installed(
                        views,
                        outputs@,
                        generation,
                        outputs@.len() as int,
                    )[j].busy == views[j].busy);
                }
            }
        }
    }

    /// A setting of the whole wall came into force with a generation: every
    /// output carries it.
    pub fn install_everywhere(&mut self, generation: u64)
        ensures
            final(self).same_but_presenters(*old(self)),
            final(self).views() == all_at(old(self).views(), generation),
            old(self).wf() ==> final(self).wf(),
    {
        let ghost views = self.views();
        let ghost after = all_at(views, generation);
        let mut i: usize = 0;
        while i < self.presenters.len()
            invariant
                i <= self.presenters@.len(),
                self.presenters@.len() == views.len(),
                self.same_but_presenters(*old(self)),
                after == all_at(views, generation),
                forall|j: int| 0 <= j < i ==> (#[trigger] self.presenters@[j])@ == after[j],
                forall|j: int|
                    i <= j < views.len() ==> (#[trigger] self.presenters@[j])@ == views[j],
            decreases self.presenters@.len() - i,
        {
            assert(self.presenters@[i as int]@ == views[i as int]);
            self.presenters[i].warp_revision = generation;
            assert(self.presenters@[i as int]@ == after[i as int]);
            i = i + 1;
        }
        assert(self.views() =~= after);
        proof {
            if old(self).wf() {
                assert forall|j: int| 0 <= j < self.views().len() implies (
                #[trigger] self.views()[j]).wf() by {
                    assert(views[j].wf());
                    assert(self.views()[j] == after[j]);
                }
            }
        }
    }
}

/// An output that was not built keeps its geometry, and is owed nothing by the
/// build.
pub proof fn other_outputs_are_untouched(
    presenters: Seq<PresenterView>,
    outputs: Seq<StagedOutput>,
    generation: u64,
    n: int,
    j: int,
)
    requires
        0 <= n <= outputs.len(),
        0 <= j < presenters.len(),
        forall|i: int|
            0 <= i < outputs.len() ==> (#[trigger] outputs[i]).index < presenters.len(),
    ensures
        with_installed(presenters, outputs, generation, n).len() == presenters.len(),
        (forall|i: int| 0 <= i < n ==> (#[trigger] outputs[i]).index != j) ==> with_installed(
            presenters,
            outputs,
            generation,
            n,
        )[j] == presenters[j],
        (exists|i: int| 0 <= i < n && (#[trigger] outputs[i]).index == j) ==> with_installed(
            presenters,
            outputs,
            generation,
            n,
        )[j].warp_revision == generation && with_installed(presenters, outputs, generation, n)[j].stale,
    decreases n,
{
    if n > 0 {
        other_outputs_are_untouched(presenters, outputs, generation, n - 1, j);
    }
}

} // verus!
