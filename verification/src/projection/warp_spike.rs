//! Geometry read from a file while a wall runs, for experiments.
//!
//! Times are nanoseconds on one monotonic clock.
use crate::config::{Corners, Point};
use crate::model::{magnitude_bits, Real};
use crate::names::same_text;
use crate::projection::slices::SlicerSpec;
use crate::reals::{real_of, whole};
use vstd::prelude::*;
use vstd::string::*;

verus! {

/// How often the file is read.
pub const POLL_INTERVAL: u64 = 10_000_000;

/// The most bytes that the file may have.
pub const MAX_FILE_BYTES: usize = 1_048_576;

/// The most pixels that an output may have.
pub const MAX_OUTPUT_PIXELS: u64 = 33_554_432;

/// How many workers build tables where the file does not say.
pub fn default_workers() -> (workers: usize)
    ensures
        workers == 1,
{
    1
}

/// The center that moves nothing: a half each way.
pub open spec fn middle() -> Point {
    Point {
        x: Real { bits: 0x3fe0_0000_0000_0000 },
        y: Real { bits: 0x3fe0_0000_0000_0000 },
    }
}

/// The center that moves nothing.
pub fn neutral() -> (center: Point)
    ensures
        center == middle(),
{
    Point {
        x: Real { bits: 0x3fe0_0000_0000_0000 },
        y: Real { bits: 0x3fe0_0000_0000_0000 },
    }
}

/// Where the corners and the center of an output's picture are, in pixels.
#[derive(Clone, Copy, Debug, PartialEq, Eq, Structural)]
pub struct Pins {
    pub corners: Corners,
    pub center: Point,
    /// The correction is applied even where it changes nothing.
    pub force_general: bool,
}

/// What the file says: the outputs that it names, in the order of their names,
/// and how many workers build.
#[derive(Debug)]
pub struct Settings {
    pub outputs: Vec<(String, Pins)>,
    pub workers: usize,
}

/// A geometry, so that what looks the same is the same.
#[derive(Clone, Copy, Debug, PartialEq, Eq, Structural)]
pub struct Geometry {
    pub corners: Corners,
    pub center: Point,
    pub force_general: bool,
}

/// A number with the two zeros made one.
pub open spec fn without_sign_of_zero(number: Real) -> Real {
    if magnitude_bits(number.bits) == 0 {
        Real { bits: 0 }
    } else {
        number
    }
}

fn unsign_zero(number: Real) -> (plain: Real)
    ensures
        plain == without_sign_of_zero(number),
{
    if number.bits % 0x8000_0000_0000_0000 == 0 {
        Real { bits: 0 }
    } else {
        number
    }
}

/// A point with the two zeros made one.
pub open spec fn plain_point(point: Point) -> Point {
    Point { x: without_sign_of_zero(point.x), y: without_sign_of_zero(point.y) }
}

fn unsign_point(point: Point) -> (plain: Point)
    ensures
        plain == plain_point(point),
{
    Point { x: unsign_zero(point.x), y: unsign_zero(point.y) }
}

/// The corners of an output that is not moved.
pub open spec fn raster_corners(width: u32, height: u32) -> Corners {
    let zero = Real { bits: 0 };
    Corners {
        top_left: Point { x: zero, y: zero },
        top_right: Point { x: whole(width), y: zero },
        bottom_right: Point { x: whole(width), y: whole(height) },
        bottom_left: Point { x: zero, y: whole(height) },
    }
}

/// What pins come to on an output of a size. An output without pins is not moved.
pub open spec fn geometry_of(pins: Option<Pins>, width: u32, height: u32) -> Geometry {
    match pins {
        Some(pins) => Geometry {
            corners: Corners {
                top_left: plain_point(pins.corners.top_left),
                top_right: plain_point(pins.corners.top_right),
                bottom_right: plain_point(pins.corners.bottom_right),
                bottom_left: plain_point(pins.corners.bottom_left),
            },
            center: plain_point(pins.center),
            force_general: pins.force_general,
        },
        None => Geometry {
            corners: raster_corners(width, height),
            center: middle(),
            force_general: false,
        },
    }
}

/// What pins come to on an output of a size.
pub fn make_geometry(pins: Option<Pins>, width: u32, height: u32) -> (geometry: Geometry)
    ensures
        geometry == geometry_of(pins, width, height),
{
    match pins {
        Some(pins) => Geometry {
            corners: Corners {
                top_left: unsign_point(pins.corners.top_left),
                top_right: unsign_point(pins.corners.top_right),
                bottom_right: unsign_point(pins.corners.bottom_right),
                bottom_left: unsign_point(pins.corners.bottom_left),
            },
            center: unsign_point(pins.center),
            force_general: pins.force_general,
        },
        None => {
            let zero = Real { bits: 0 };
            let right = real_of(width);
            let bottom = real_of(height);
            Geometry {
                corners: Corners {
                    top_left: Point { x: zero, y: zero },
                    top_right: Point { x: right, y: zero },
                    bottom_right: Point { x: right, y: bottom },
                    bottom_left: Point { x: zero, y: bottom },
                },
                center: neutral(),
                force_general: false,
            }
        },
    }
}

/// Naming an output's own corners is the same as not naming it.
pub proof fn explicit_identity_is_no_geometry(width: u32, height: u32)
    ensures
        geometry_of(
            Some(
                Pins {
                    corners: raster_corners(width, height),
                    center: middle(),
                    force_general: false,
                },
            ),
            width,
            height,
        ) == geometry_of(None, width, height),
{
    whole_is_plain(width);
    whole_is_plain(height);
    assert(magnitude_bits(0x3fe0_0000_0000_0000) != 0);
}

proof fn whole_is_plain(n: u32)
    ensures
        without_sign_of_zero(whole(n)) == whole(n),
{
    crate::reals::whole_is_not_negative(n);
}

/// The first pins for a name, among those from `i` on.
pub open spec fn pins_from(outputs: Seq<(String, Pins)>, name: Seq<char>, i: int) -> Option<Pins>
    decreases outputs.len() - i,
{
    if i >= outputs.len() || i < 0 {
        None
    } else if outputs[i].0@ == name {
        Some(outputs[i].1)
    } else {
        pins_from(outputs, name, i + 1)
    }
}

impl Settings {
    /// The pins of an output.
    pub open spec fn pins_of(self, name: Seq<char>) -> Option<Pins> {
        pins_from(self.outputs@, name, 0)
    }

    /// Finds the pins of an output.
    pub fn pins(&self, name: &str) -> (pins: Option<Pins>)
        ensures
            pins == self.pins_of(name@),
    {
        let mut i: usize = 0;
        while i < self.outputs.len()
            invariant
                i <= self.outputs@.len(),
                pins_from(self.outputs@, name@, 0) == pins_from(self.outputs@, name@, i as int),
            decreases self.outputs@.len() - i,
        {
            if same_text(self.outputs[i].0.as_str(), name) {
                return Some(self.outputs[i].1);
            }
            i = i + 1;
        }
        None
    }
}

/// A name is that of an output.
pub open spec fn is_cut_for(spec: SlicerSpec, name: Seq<char>) -> bool {
    exists|i: int| 0 <= i < spec.slices@.len() && (#[trigger] spec.slices@[i]).output@ == name
}

fn cut_for(spec: &SlicerSpec, name: &str) -> (known: bool)
    ensures
        known == is_cut_for(*spec, name@),
{
    let mut i: usize = 0;
    while i < spec.slices.len()
        invariant
            i <= spec.slices@.len(),
            forall|j: int| 0 <= j < i ==> (#[trigger] spec.slices@[j]).output@ != name@,
        decreases spec.slices@.len() - i,
    {
        if same_text(spec.slices[i].output.as_str(), name) {
            return true;
        }
        i = i + 1;
    }
    false
}

/// The first name in the file, from `i` on, that is no output's.
pub open spec fn stranger_from(spec: SlicerSpec, outputs: Seq<(String, Pins)>, i: int) -> Option<
    Seq<char>,
>
    decreases outputs.len() - i,
{
    if i >= outputs.len() || i < 0 {
        None
    } else if is_cut_for(spec, outputs[i].0@) {
        stranger_from(spec, outputs, i + 1)
    } else {
        Some(outputs[i].0@)
    }
}

/// What is wrong with one output, if anything. `solved` says what is wrong with
/// the solved pins, if anything.
pub open spec fn output_fault(
    spec: SlicerSpec,
    settings: Settings,
    sizes: Seq<(u32, u32)>,
    solved: Seq<Option<String>>,
    i: int,
) -> Option<Seq<char>> {
    let (width, height) = sizes[i];
    if width == 0 || height == 0 || width * height > MAX_OUTPUT_PIXELS {
        Some("spike supports nonzero outputs up to 32 megapixels"@)
    } else if width != spec.slices@[i].source.width || height != spec.slices@[i].source.height {
        Some("spike requires unit scale and output size equal to source rectangle"@)
    } else if settings.pins_of(spec.slices@[i].output@) is Some {
        match solved[i] {
            Some(fault) => Some(fault@),
            None => None,
        }
    } else {
        None
    }
}

/// The first fault of an output, from `i` on.
pub open spec fn outputs_fault(
    spec: SlicerSpec,
    settings: Settings,
    sizes: Seq<(u32, u32)>,
    solved: Seq<Option<String>>,
    i: int,
) -> Option<Seq<char>>
    decreases spec.slices@.len() - i,
{
    if i >= spec.slices@.len() || i < 0 {
        None
    } else {
        match output_fault(spec, settings, sizes, solved, i) {
            Some(fault) => Some(fault),
            None => outputs_fault(spec, settings, sizes, solved, i + 1),
        }
    }
}

/// What is wrong with a file, if anything.
pub open spec fn settings_fault(
    spec: SlicerSpec,
    parsed: Result<Settings, String>,
    sizes: Seq<(u32, u32)>,
    solved: Seq<Option<String>>,
) -> Option<Seq<char>> {
    if sizes.len() != spec.slices@.len() {
        Some("output count mismatch"@)
    } else {
        match parsed {
            Err(error) => Some(error@),
            Ok(settings) => if !(1 <= settings.workers <= 8) {
                Some("workers must be in 1..=8"@)
            } else {
                match stranger_from(spec, settings.outputs@, 0) {
                    Some(name) => Some("unknown output "@ + name),
                    None => outputs_fault(spec, settings, sizes, solved, 0),
                }
            },
        }
    }
}

/// The geometry of each output.
pub open spec fn geometries(
    spec: SlicerSpec,
    settings: Settings,
    sizes: Seq<(u32, u32)>,
) -> Seq<Geometry> {
    Seq::new(
        spec.slices@.len(),
        |i: int|
            geometry_of(settings.pins_of(spec.slices@[i].output@), sizes[i].0, sizes[i].1),
    )
}

/// What a file asks for.
#[derive(Debug)]
pub struct Request {
    pub settings: Settings,
    pub geometry: Vec<Geometry>,
}

/// Checks what a file says. Every output is checked before anything is built.
pub fn validate(
    parsed: Result<Settings, String>,
    spec: &SlicerSpec,
    sizes: &[(u32, u32)],
    solved: &[Option<String>],
) -> (request: Result<Request, String>)
    requires
        solved@.len() == spec.slices@.len(),
    ensures
        match settings_fault(*spec, parsed, sizes@, solved@) {
            Some(fault) => request matches Err(reason) && reason@ == fault,
            None => request matches Ok(made) && Ok::<Settings, String>(made.settings) == parsed
                && made.geometry@ == geometries(*spec, made.settings, sizes@),
        },
{
    if sizes.len() != spec.slices.len() {
        return Err("output count mismatch".to_owned());
    }
    let settings = match parsed {
        Ok(settings) => settings,
        Err(error) => {
            return Err(error);
        },
    };
    if settings.workers < 1 || settings.workers > 8 {
        return Err("workers must be in 1..=8".to_owned());
    }
    let mut k: usize = 0;
    while k < settings.outputs.len()
        invariant
            k <= settings.outputs@.len(),
            parsed == Ok::<Settings, String>(settings),
            sizes@.len() == spec.slices@.len(),
            1 <= settings.workers <= 8,
            stranger_from(*spec, settings.outputs@, 0) == stranger_from(
                *spec,
                settings.outputs@,
                k as int,
            ),
        decreases settings.outputs@.len() - k,
    {
        let name = &settings.outputs[k].0;
        if !cut_for(spec, name.as_str()) {
            let mut reason = "unknown output ".to_owned();
            reason.append(name.as_str());
            return Err(reason);
        }
        k = k + 1;
    }
    let mut geometry: Vec<Geometry> = Vec::new();
    let mut i: usize = 0;
    while i < spec.slices.len()
        invariant
            i <= spec.slices@.len(),
            sizes@.len() == spec.slices@.len(),
            solved@.len() == spec.slices@.len(),
            parsed == Ok::<Settings, String>(settings),
            1 <= settings.workers <= 8,
            stranger_from(*spec, settings.outputs@, 0) is None,
            outputs_fault(*spec, settings, sizes@, solved@, 0) == outputs_fault(
                *spec,
                settings,
                sizes@,
                solved@,
                i as int,
            ),
            geometry@.len() == i,
            forall|j: int|
                0 <= j < i ==> #[trigger] geometry@[j] == geometries(*spec, settings, sizes@)[j],
        decreases spec.slices@.len() - i,
    {
        let slice = &spec.slices[i];
        let (width, height) = sizes[i];
        let ghost fault = output_fault(*spec, settings, sizes@, solved@, i as int);
        proof {
            assert(0 <= width * height <= 0xffff_ffff * 0xffff_ffff) by (nonlinear_arith)
                requires
                    0 <= width <= 0xffff_ffff,
                    0 <= height <= 0xffff_ffff,
            ;
        }
        if width == 0 || height == 0 || width as u64 * height as u64 > MAX_OUTPUT_PIXELS {
            return Err("spike supports nonzero outputs up to 32 megapixels".to_owned());
        }
        if width as i64 != slice.source.width as i64 || height as i64 != slice.source.height as i64 {
            return Err(
                "spike requires unit scale and output size equal to source rectangle".to_owned(),
            );
        }
        let pins = settings.pins(slice.output.as_str());
        if pins.is_some() {
            if let Some(fault) = &solved[i] {
                return Err(fault.clone());
            }
        }
        assert(fault is None);
        geometry.push(make_geometry(pins, width, height));
        i = i + 1;
    }
    assert(geometry@ =~= geometries(*spec, settings, sizes@));
    Ok(Request { settings, geometry })
}

/// Which geometry each output shows, and what of the file was seen.
#[derive(Debug)]
pub struct Controller {
    pub last_read: u64,
    pub seen: Option<Vec<u8>>,
    /// A build is running.
    pub pending: bool,
    pub installed: Vec<Option<Geometry>>,
    pub next_revision: u64,
}

/// What to do about the file.
#[derive(Debug)]
pub enum FileStep {
    /// Nothing changed.
    Nothing,
    /// The file cannot be used.
    Refused(String),
    /// It says something new.
    Check(Vec<u8>),
}

/// What to build.
#[derive(Debug)]
pub enum BuildStep {
    Nothing,
    Refused(String),
    /// The tables of these outputs, under this revision.
    Build { revision: u64, indices: Vec<usize> },
}

/// An output shows another geometry than the wanted one.
pub open spec fn differs(installed: Seq<Option<Geometry>>, geometry: Seq<Geometry>, i: int) -> bool {
    installed[i] != Some(geometry[i])
}

/// The outputs among the first `n` that show another geometry.
pub open spec fn changed_among(
    installed: Seq<Option<Geometry>>,
    geometry: Seq<Geometry>,
    n: int,
) -> Seq<usize>
    decreases n,
{
    if n <= 0 {
        Seq::empty()
    } else if differs(installed, geometry, n - 1) {
        changed_among(installed, geometry, n - 1).push((n - 1) as usize)
    } else {
        changed_among(installed, geometry, n - 1)
    }
}

/// What is shown once the first `n` outputs of a build are installed. One that
/// the wall does not have is passed over.
pub open spec fn shown_after(
    installed: Seq<Option<Geometry>>,
    outputs: Seq<(usize, Geometry)>,
    n: int,
) -> Seq<Option<Geometry>>
    decreases n,
{
    if n <= 0 {
        installed
    } else {
        let before = shown_after(installed, outputs, n - 1);
        let (index, geometry) = outputs[n - 1];
        if index < before.len() {
            before.update(index as int, Some(geometry))
        } else {
            before
        }
    }
}

fn same_bytes(a: &Vec<u8>, b: &Vec<u8>) -> (same: bool)
    ensures
        same == (a@ == b@),
{
    if a.len() != b.len() {
        return false;
    }
    let mut i: usize = 0;
    while i < a.len()
        invariant
            i <= a@.len(),
            a@.len() == b@.len(),
            forall|j: int| 0 <= j < i ==> a@[j] == b@[j],
        decreases a@.len() - i,
    {
        if a[i] != b[i] {
            assert(a@[i as int] != b@[i as int]);
            return false;
        }
        i = i + 1;
    }
    assert(a@ =~= b@);
    true
}

/// What was seen of the file.
pub open spec fn seen_bytes(seen: Option<Vec<u8>>) -> Option<Seq<u8>> {
    match seen {
        Some(bytes) => Some(bytes@),
        None => None,
    }
}

/// The file is to be read: no build is running, and it was not read a moment ago.
pub open spec fn is_read_due(building: bool, last_read: u64, now: u64) -> bool {
    !building && now - last_read >= POLL_INTERVAL
}

impl Controller {
    /// Nothing read, and nothing shown on any of the outputs. The file counts as
    /// read a second ago, or when the clock began: it is due at once where the
    /// clock has run for as long as the file is left between two looks.
    pub fn new(outputs: usize, now: u64) -> (controller: Self)
        ensures
            controller.installed@ == Seq::new(outputs as nat, |i: int| None::<Geometry>),
            controller.seen is None,
            !controller.pending,
            controller.next_revision == 0,
            controller.last_read == if now >= 1_000_000_000 {
                now - 1_000_000_000
            } else {
                0
            },
    {
        let mut installed: Vec<Option<Geometry>> = Vec::new();
        let mut i: usize = 0;
        while i < outputs
            invariant
                i <= outputs,
                installed@ == Seq::new(i as nat, |j: int| None::<Geometry>),
            decreases outputs - i,
        {
            installed.push(None);
            assert(installed@ =~= Seq::new((i + 1) as nat, |j: int| None::<Geometry>));
            i = i + 1;
        }
        Controller {
            last_read: now.saturating_sub(1_000_000_000),
            seen: None,
            pending: false,
            installed,
            next_revision: 0,
        }
    }

    /// A build ended, whether it succeeded or not: another may start.
    pub fn build_ended(&mut self)
        ensures
            *final(self) == (Controller { pending: false, ..*old(self) }),
    {
        self.pending = false;
    }

    /// Whether the file is to be read now: no build is running, and it was not
    /// read a moment ago.
    pub fn read_due(&mut self, now: u64) -> (due: bool)
        ensures
            due == is_read_due(old(self).pending, old(self).last_read, now),
            due == (!old(self).pending && now - old(self).last_read >= POLL_INTERVAL),
            *final(self) == (Controller {
                last_read: if due {
                    now
                } else {
                    old(self).last_read
                },
                ..*old(self)
            }),
    {
        if self.pending || now.saturating_sub(self.last_read) < POLL_INTERVAL {
            return false;
        }
        self.last_read = now;
        true
    }

    /// Takes what was read. A file that is too large, or cannot be read, is
    /// reported each time; one that says what it said before is passed over.
    pub fn file_read(&self, read: Result<Vec<u8>, String>) -> (step: FileStep)
        ensures
            match read {
                Err(error) => step matches FileStep::Refused(reason) && reason@ == "warp file: "@
                    + error@,
                Ok(bytes) => if bytes@.len() > MAX_FILE_BYTES {
                    step matches FileStep::Refused(reason) && reason@ == "warp file exceeds 1 MiB"@
                } else if seen_bytes(self.seen) == Some(bytes@) {
                    step is Nothing
                } else {
                    step == FileStep::Check(bytes)
                },
            },
    {
        let bytes = match read {
            Ok(bytes) => bytes,
            Err(error) => {
                let mut reason = "warp file: ".to_owned();
                reason.append(error.as_str());
                return FileStep::Refused(reason);
            },
        };
        if bytes.len() > MAX_FILE_BYTES {
            return FileStep::Refused("warp file exceeds 1 MiB".to_owned());
        }
        if let Some(seen) = &self.seen {
            if same_bytes(seen, &bytes) {
                return FileStep::Nothing;
            }
        }
        FileStep::Check(bytes)
    }

    /// The outputs that show another geometry than the wanted one.
    pub fn changed_indices(&self, geometry: &[Geometry]) -> (indices: Vec<usize>)
        requires
            geometry@.len() <= self.installed@.len(),
        ensures
            indices@ == changed_among(self.installed@, geometry@, geometry@.len() as int),
    {
        let mut indices: Vec<usize> = Vec::new();
        let mut i: usize = 0;
        while i < geometry.len()
            invariant
                i <= geometry@.len(),
                geometry@.len() <= self.installed@.len(),
                indices@ == changed_among(self.installed@, geometry@, i as int),
            decreases geometry@.len() - i,
        {
            let same = match self.installed[i] {
                Some(shown) => shown == geometry[i],
                None => false,
            };
            assert(same == !differs(self.installed@, geometry@, i as int));
            if !same {
                indices.push(i);
            }
            i = i + 1;
        }
        indices
    }

    /// Takes what a file was found to ask for. Either way it was seen. Only
    /// outputs that show something else are built.
    pub fn checked(&mut self, bytes: Vec<u8>, request: Result<Request, String>) -> (step: BuildStep)
        requires
            old(self).next_revision < u64::MAX,
            request matches Ok(made) ==> made.geometry@.len() <= old(self).installed@.len(),
        ensures
            final(self).seen == Some(bytes),
            final(self).installed == old(self).installed,
            final(self).last_read == old(self).last_read,
            match request {
                Err(error) => {
                    &&& step matches BuildStep::Refused(reason) && reason@ == error@
                    &&& final(self).pending == old(self).pending
                    &&& final(self).next_revision == old(self).next_revision
                },
                Ok(made) => {
                    let changed = changed_among(
                        old(self).installed@,
                        made.geometry@,
                        made.geometry@.len() as int,
                    );
                    if changed.len() == 0 {
                        &&& step is Nothing
                        &&& final(self).pending == old(self).pending
                        &&& final(self).next_revision == old(self).next_revision
                    } else {
                        &&& step matches BuildStep::Build { revision, indices } && indices@
                            == changed && revision == old(self).next_revision + 1
                        &&& final(self).pending
                        &&& final(self).next_revision == old(self).next_revision + 1
                    }
                },
            },
    {
        self.seen = Some(bytes);
        let request = match request {
            Ok(request) => request,
            Err(error) => {
                return BuildStep::Refused(error);
            },
        };
        let indices = self.changed_indices(request.geometry.as_slice());
        if indices.len() == 0 {
            return BuildStep::Nothing;
        }
        self.next_revision = self.next_revision + 1;
        self.pending = true;
        BuildStep::Build { revision: self.next_revision, indices }
    }

    /// Records what was installed. Nothing else counts as shown.
    pub fn installed(&mut self, outputs: &[(usize, Geometry)])
        ensures
            final(self).installed@ == shown_after(
                old(self).installed@,
                outputs@,
                outputs@.len() as int,
            ),
            final(self).seen == old(self).seen,
            final(self).pending == old(self).pending,
            final(self).next_revision == old(self).next_revision,
            final(self).last_read == old(self).last_read,
    {
        let mut i: usize = 0;
        while i < outputs.len()
            invariant
                i <= outputs@.len(),
                self.installed@ == shown_after(old(self).installed@, outputs@, i as int),
                self.seen == old(self).seen,
                self.pending == old(self).pending,
                self.next_revision == old(self).next_revision,
                self.last_read == old(self).last_read,
            decreases outputs@.len() - i,
        {
            let (index, geometry) = outputs[i];
            if index < self.installed.len() {
                self.installed.set(index, Some(geometry));
            }
            i = i + 1;
        }
    }
}

proof fn changed_are_different(installed: Seq<Option<Geometry>>, geometry: Seq<Geometry>, n: int, i: int)
    requires
        0 <= n <= geometry.len() <= usize::MAX,
        0 <= i < geometry.len(),
    ensures
        changed_among(installed, geometry, n).contains(i as usize) <==> i < n && differs(
            installed,
            geometry,
            i,
        ),
    decreases n,
{
    if n > 0 {
        changed_are_different(installed, geometry, n - 1, i);
        let before = changed_among(installed, geometry, n - 1);
        if differs(installed, geometry, n - 1) {
            let after = before.push((n - 1) as usize);
            assert(after[before.len() as int] == (n - 1) as usize);
            if before.contains(i as usize) {
                let k = choose|k: int| 0 <= k < before.len() && before[k] == i as usize;
                assert(after[k] == i as usize);
            }
            if after.contains(i as usize) && i != n - 1 {
                let k = choose|k: int| 0 <= k < after.len() && after[k] == i as usize;
                assert(before[k] == i as usize);
            }
        }
    }
}

/// A build covers exactly the outputs that show something else.
pub proof fn build_is_sparse(installed: Seq<Option<Geometry>>, geometry: Seq<Geometry>, i: int)
    requires
        0 <= i < geometry.len() <= usize::MAX,
    ensures
        changed_among(installed, geometry, geometry.len() as int).contains(i as usize)
            <==> differs(installed, geometry, i),
{
    changed_are_different(installed, geometry, geometry.len() as int, i);
}

/// Once what was asked for is installed everywhere, asking for it again builds
/// nothing.
pub proof fn installed_geometry_is_left_alone(
    installed: Seq<Option<Geometry>>,
    geometry: Seq<Geometry>,
    n: int,
)
    requires
        0 <= n <= geometry.len() <= installed.len(),
        forall|i: int| 0 <= i < geometry.len() ==> #[trigger] installed[i] == Some(geometry[i]),
    ensures
        changed_among(installed, geometry, n).len() == 0,
    decreases n,
{
    if n > 0 {
        installed_geometry_is_left_alone(installed, geometry, n - 1);
        assert(installed[n - 1] == Some(geometry[n - 1]));
    }
}

} // verus!
