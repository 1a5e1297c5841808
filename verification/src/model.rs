//! The configuration and the observations that the rest of the library reads.
use crate::names::same_text;
use crate::text::{decimal, decimal_int, push_decimal, push_decimal_int};
use vstd::prelude::*;
use vstd::string::*;

verus! {

/// A real number, carried by its IEEE 754 double-precision bit pattern.
#[derive(Clone, Copy, Debug, PartialEq, Eq, Structural)]
pub struct Real {
    pub bits: u64,
}

/// The bits of a real number below the sign.
pub open spec fn magnitude_bits(bits: u64) -> u64 {
    bits % 0x8000_0000_0000_0000
}

/// Whether two real numbers compare equal: a NaN equals nothing, the two zeros
/// equal each other, and any other number equals itself alone.
pub open spec fn real_eq(a: Real, b: Real) -> bool {
    &&& magnitude_bits(a.bits) <= 0x7ff0_0000_0000_0000
    &&& magnitude_bits(b.bits) <= 0x7ff0_0000_0000_0000
    &&& a.bits == b.bits || (magnitude_bits(a.bits) == 0 && magnitude_bits(b.bits) == 0)
}

impl Real {
    /// Whether two real numbers compare equal.
    pub fn equals(self, other: Real) -> (equal: bool)
        ensures
            equal == real_eq(self, other),
    {
        let a: u64 = self.bits % 0x8000_0000_0000_0000;
        let b: u64 = other.bits % 0x8000_0000_0000_0000;
        a <= 0x7ff0_0000_0000_0000 && b <= 0x7ff0_0000_0000_0000 && (self.bits == other.bits || (a
            == 0 && b == 0))
    }
}

/// A point of the layout, in logical pixels.
#[derive(Clone, Copy, Debug, PartialEq, Eq, Structural)]
pub struct Position {
    pub x: i32,
    pub y: i32,
}

/// A rectangle in whole pixels.
#[derive(Clone, Copy, Debug, Default, PartialEq, Eq, Structural)]
pub struct Rect {
    pub x: i32,
    pub y: i32,
    pub width: i32,
    pub height: i32,
}

/// A display mode. The refresh rate is in thousandths of a hertz.
#[derive(Clone, Copy, Debug, PartialEq, Eq, Structural)]
pub struct Mode {
    pub width: i32,
    pub height: i32,
    pub refresh_mhz: u32,
}

/// A refresh rate in hertz, with no more decimals than it needs.
pub open spec fn refresh_text(refresh_mhz: u32) -> Seq<char> {
    let whole = decimal((refresh_mhz / 1000) as nat);
    let thousandths = refresh_mhz % 1000;
    if thousandths == 0 {
        whole
    } else if thousandths % 100 == 0 {
        whole + "."@ + decimal((thousandths / 100) as nat)
    } else if thousandths % 10 == 0 {
        whole + (if thousandths < 100 {
            ".0"@
        } else {
            "."@
        }) + decimal((thousandths / 10) as nat)
    } else {
        whole + (if thousandths < 10 {
            ".00"@
        } else if thousandths < 100 {
            ".0"@
        } else {
            "."@
        }) + decimal(thousandths as nat)
    }
}

/// Appends a refresh rate in hertz.
pub fn push_refresh(text: &mut String, refresh_mhz: u32)
    ensures
        final(text)@ == old(text)@ + refresh_text(refresh_mhz),
{
    let ghost before = text@;
    push_decimal(text, (refresh_mhz / 1000) as u64);
    let thousandths: u32 = refresh_mhz % 1000;
    if thousandths == 0 {
        return;
    }
    let ghost whole = decimal((refresh_mhz / 1000) as nat);
    if thousandths % 100 == 0 {
        text.append(".");
        push_decimal(text, (thousandths / 100) as u64);
        assert(text@ =~= before + (whole + "."@ + decimal((thousandths / 100) as nat)));
    } else if thousandths % 10 == 0 {
        if thousandths < 100 {
            text.append(".0");
            push_decimal(text, (thousandths / 10) as u64);
            assert(text@ =~= before + (whole + ".0"@ + decimal((thousandths / 10) as nat)));
        } else {
            text.append(".");
            push_decimal(text, (thousandths / 10) as u64);
            assert(text@ =~= before + (whole + "."@ + decimal((thousandths / 10) as nat)));
        }
    } else {
        if thousandths < 10 {
            text.append(".00");
            push_decimal(text, thousandths as u64);
            assert(text@ =~= before + (whole + ".00"@ + decimal(thousandths as nat)));
        } else if thousandths < 100 {
            text.append(".0");
            push_decimal(text, thousandths as u64);
            assert(text@ =~= before + (whole + ".0"@ + decimal(thousandths as nat)));
        } else {
            text.append(".");
            push_decimal(text, thousandths as u64);
            assert(text@ =~= before + (whole + "."@ + decimal(thousandths as nat)));
        }
    }
}

/// How far apart two refresh rates are.
pub open spec fn refresh_gap(a: Mode, b: Mode) -> int {
    if a.refresh_mhz >= b.refresh_mhz {
        a.refresh_mhz - b.refresh_mhz
    } else {
        b.refresh_mhz - a.refresh_mhz
    }
}

/// Whether two modes have the same resolution.
pub open spec fn same_size(a: Mode, b: Mode) -> bool {
    a.width == b.width && a.height == b.height
}

/// Whether `best` is what `modes` offers for `wanted`: the mode of the wanted
/// resolution whose refresh rate is nearest, the earliest of several.
pub open spec fn is_nearest(modes: Seq<Mode>, wanted: Mode, best: int) -> bool {
    &&& 0 <= best < modes.len()
    &&& same_size(modes[best], wanted)
    &&& forall|i: int|
        0 <= i < modes.len() && same_size(#[trigger] modes[i], wanted) ==> refresh_gap(
            modes[best],
            wanted,
        ) <= refresh_gap(modes[i], wanted) && (i < best ==> refresh_gap(modes[best], wanted)
            < refresh_gap(modes[i], wanted))
}

/// What `modes` offers for `wanted`: nothing where no mode has its resolution.
pub open spec fn nearest_mode(modes: Seq<Mode>, wanted: Mode) -> Option<Mode> {
    if exists|i: int| is_nearest(modes, wanted, i) {
        Some(modes[choose|i: int| is_nearest(modes, wanted, i)])
    } else {
        None
    }
}

impl Mode {
    /// The mode as the compositor spells it.
    pub open spec fn sway_text(self) -> Seq<char> {
        decimal_int(self.width as int) + "x"@ + decimal_int(self.height as int) + "@"@
            + refresh_text(self.refresh_mhz) + "Hz"@
    }

    /// Appends the mode as the compositor spells it.
    pub fn push_sway(&self, text: &mut String)
        ensures
            final(text)@ == old(text)@ + self.sway_text(),
    {
        let ghost before = text@;
        push_decimal_int(text, self.width as i64);
        text.append("x");
        push_decimal_int(text, self.height as i64);
        text.append("@");
        push_refresh(text, self.refresh_mhz);
        text.append("Hz");
        assert(text@ =~= before + self.sway_text());
    }

    /// The mode as the compositor spells it.
    pub fn to_sway(&self) -> (text: String)
        ensures
            text@ == self.sway_text(),
    {
        let mut text = String::new();
        self.push_sway(&mut text);
        assert(text@ =~= self.sway_text());
        text
    }

    /// Whether this is the other mode.
    pub fn matches(&self, other: &Mode) -> (same: bool)
        ensures
            same == (*self == *other),
    {
        self.width == other.width && self.height == other.height && self.refresh_mhz
            == other.refresh_mhz
    }
}

/// How an output is turned.
#[derive(Clone, Copy, Debug, PartialEq, Eq, Structural)]
pub enum Transform {
    Normal,
    Rotate90,
    Rotate180,
    Rotate270,
    Flipped,
    Flipped90,
    Flipped180,
    Flipped270,
}

impl Transform {
    /// The transform as the compositor spells it.
    pub open spec fn sway_text(self) -> Seq<char> {
        match self {
            Transform::Normal => "normal"@,
            Transform::Rotate90 => "90"@,
            Transform::Rotate180 => "180"@,
            Transform::Rotate270 => "270"@,
            Transform::Flipped => "flipped"@,
            Transform::Flipped90 => "flipped-90"@,
            Transform::Flipped180 => "flipped-180"@,
            Transform::Flipped270 => "flipped-270"@,
        }
    }

    /// The transform as the compositor spells it.
    pub fn as_sway(self) -> (text: &'static str)
        ensures
            text@ == self.sway_text(),
    {
        match self {
            Transform::Normal => "normal",
            Transform::Rotate90 => "90",
            Transform::Rotate180 => "180",
            Transform::Rotate270 => "270",
            Transform::Flipped => "flipped",
            Transform::Flipped90 => "flipped-90",
            Transform::Flipped180 => "flipped-180",
            Transform::Flipped270 => "flipped-270",
        }
    }
}

/// A scale factor, with the text that the compositor is given for it.
#[derive(Debug, PartialEq, Eq)]
pub struct Scale {
    pub value: Real,
    pub text: String,
}

/// How a wallpaper fills its output.
#[derive(Clone, Copy, Debug, PartialEq, Eq, Structural)]
pub enum BackgroundMode {
    Fill,
    Fit,
    Stretch,
    Center,
    Tile,
}

impl BackgroundMode {
    /// The mode as the compositor spells it.
    pub open spec fn sway_text(self) -> Seq<char> {
        match self {
            BackgroundMode::Fill => "fill"@,
            BackgroundMode::Fit => "fit"@,
            BackgroundMode::Stretch => "stretch"@,
            BackgroundMode::Center => "center"@,
            BackgroundMode::Tile => "tile"@,
        }
    }

    /// The mode as the compositor spells it.
    pub fn as_sway(self) -> (text: &'static str)
        ensures
            text@ == self.sway_text(),
    {
        match self {
            BackgroundMode::Fill => "fill",
            BackgroundMode::Fit => "fit",
            BackgroundMode::Stretch => "stretch",
            BackgroundMode::Center => "center",
            BackgroundMode::Tile => "tile",
        }
    }
}

/// What is painted behind the windows of an output.
#[derive(Debug, PartialEq, Eq)]
pub struct Background {
    pub wallpaper: Option<String>,
    pub color: Option<String>,
    pub mode: BackgroundMode,
}

/// What a [`Background`] says.
pub struct BackgroundView {
    pub wallpaper: Option<Seq<char>>,
    pub color: Option<Seq<char>>,
    pub mode: BackgroundMode,
}

impl DeepView for Background {
    type V = BackgroundView;

    open spec fn deep_view(&self) -> BackgroundView {
        BackgroundView {
            wallpaper: self.wallpaper.deep_view(),
            color: self.color.deep_view(),
            mode: self.mode,
        }
    }
}

impl BackgroundView {
    /// The colour without its leading `#`; black where none is stated.
    pub open spec fn sway_color(self) -> Seq<char> {
        match self.color {
            Some(color) => if color.len() > 0 && color[0] == '#' {
                color.drop_first()
            } else {
                color
            },
            None => "000000"@,
        }
    }
}

/// A copy of an optional text.
pub fn copy_text(text: &Option<String>) -> (copy: Option<String>)
    ensures
        copy == *text,
{
    match text {
        Some(text) => Some(text.clone()),
        None => None,
    }
}

/// Whether two optional texts are the same.
pub fn same_optional_text(a: &Option<String>, b: &Option<String>) -> (same: bool)
    ensures
        same == (a.deep_view() == b.deep_view()),
{
    match (a, b) {
        (Some(a), Some(b)) => same_text(a.as_str(), b.as_str()),
        (None, None) => true,
        _ => false,
    }
}

impl Clone for Background {
    fn clone(&self) -> (copy: Self)
        ensures
            copy == *self,
    {
        Background {
            wallpaper: copy_text(&self.wallpaper),
            color: copy_text(&self.color),
            mode: self.mode,
        }
    }
}

impl Default for Background {
    fn default() -> (background: Self)
        ensures
            background == (Background {
                wallpaper: None,
                color: None,
                mode: BackgroundMode::Fill,
            }),
    {
        Background { wallpaper: None, color: None, mode: BackgroundMode::Fill }
    }
}

impl Background {
    /// Whether two backgrounds ask for the same picture.
    pub fn same(&self, other: &Background) -> (same: bool)
        ensures
            same == (self.deep_view() == other.deep_view()),
    {
        same_optional_text(&self.wallpaper, &other.wallpaper) && same_optional_text(
            &self.color,
            &other.color,
        ) && self.mode == other.mode
    }

    /// The colour without its leading `#`; black where none is stated.
    pub fn sway_color(&self) -> (color: String)
        ensures
            color@ == self.deep_view().sway_color(),
    {
        match &self.color {
            Some(color) => {
                let color = color.as_str();
                let length: usize = color.unicode_len();
                if length > 0 && color.get_char(0) == '#' {
                    let rest = color.substring_char(1, length);
                    assert(rest@ =~= color@.drop_first());
                    rest.to_owned()
                } else {
                    color.to_owned()
                }
            },
            None => "000000".to_owned(),
        }
    }
}

/// A named background that outputs can share.
#[derive(Clone, Debug)]
pub struct BackgroundPreset {
    pub id: String,
    pub background: Background,
}

/// A background, spelled out or named.
#[derive(Debug, PartialEq, Eq)]
pub enum BackgroundRef {
    Inline(Background),
    Preset(String),
}

/// What a [`BackgroundRef`] says.
pub enum BackgroundRefView {
    Inline(BackgroundView),
    Preset(Seq<char>),
}

impl DeepView for BackgroundRef {
    type V = BackgroundRefView;

    open spec fn deep_view(&self) -> BackgroundRefView {
        match self {
            BackgroundRef::Inline(background) => BackgroundRefView::Inline(background.deep_view()),
            BackgroundRef::Preset(id) => BackgroundRefView::Preset(id@),
        }
    }
}

/// A preset's name and background.
pub type PresetView = (Seq<char>, BackgroundView);

impl DeepView for BackgroundPreset {
    type V = PresetView;

    open spec fn deep_view(&self) -> PresetView {
        (self.id@, self.background.deep_view())
    }
}

/// Whether the preset at `i` is the first of its name.
pub open spec fn is_first_preset(presets: Seq<PresetView>, id: Seq<char>, i: int) -> bool {
    &&& 0 <= i < presets.len()
    &&& presets[i].0 == id
    &&& forall|j: int| 0 <= j < i ==> (#[trigger] presets[j]).0 != id
}

impl BackgroundRefView {
    /// The background meant: the first preset of the name, if there is one.
    pub open spec fn resolve(self, presets: Seq<PresetView>) -> Option<BackgroundView> {
        match self {
            BackgroundRefView::Inline(background) => Some(background),
            BackgroundRefView::Preset(id) => if exists|i: int| is_first_preset(presets, id, i) {
                Some(presets[choose|i: int| is_first_preset(presets, id, i)].1)
            } else {
                None
            },
        }
    }

    /// The name of the preset meant; empty for a background spelled out.
    pub open spec fn preset_id(self) -> Seq<char> {
        match self {
            BackgroundRefView::Inline(_) => Seq::empty(),
            BackgroundRefView::Preset(id) => id,
        }
    }
}

impl BackgroundRef {
    /// The background meant: the first preset of the name, if there is one.
    pub fn resolve<'a>(&'a self, presets: &'a [BackgroundPreset]) -> (found: Option<&'a Background>)
        ensures
            found.deep_view() == self.deep_view().resolve(presets.deep_view()),
    {
        match self {
            BackgroundRef::Inline(background) => Some(background),
            BackgroundRef::Preset(id) => {
                let ghost views = presets.deep_view();
                let mut i: usize = 0;
                while i < presets.len()
                    invariant
                        i <= presets@.len(),
                        views == presets.deep_view(),
                        self.deep_view() == BackgroundRefView::Preset(id@),
                        forall|j: int| 0 <= j < i ==> (#[trigger] views[j]).0 != id@,
                    decreases presets@.len() - i,
                {
                    assert(views[i as int] == presets@[i as int].deep_view());
                    if same_text(presets[i].id.as_str(), id.as_str()) {
                        proof {
                            assert(is_first_preset(views, id@, i as int));
                            let k = choose|k: int| is_first_preset(views, id@, k);
                            assert(is_first_preset(views, id@, k));
                            assert(views[k].0 == id@ && views[i as int].0 == id@);
                            assert(k == i);
                            assert(BackgroundRefView::Preset(id@).resolve(views) == Some(
                                views[i as int].1,
                            ));
                            assert(presets@[i as int].background.deep_view()
                                == views[i as int].1);
                        }
                        return Some(&presets[i].background);
                    }
                    i = i + 1;
                }
                assert forall|k: int| !is_first_preset(views, id@, k) by {
                    if 0 <= k < views.len() {
                        assert(views[k].0 != id@);
                    }
                }
                None
            },
        }
    }

    /// The name of the preset meant; empty for a background spelled out.
    pub fn preset_id(&self) -> (id: String)
        ensures
            id@ == self.deep_view().preset_id(),
    {
        match self {
            BackgroundRef::Inline(_) => String::new(),
            BackgroundRef::Preset(id) => id.clone(),
        }
    }
}

impl Clone for BackgroundRef {
    fn clone(&self) -> (copy: Self)
        ensures
            copy == *self,
    {
        match self {
            BackgroundRef::Inline(background) => BackgroundRef::Inline(background.clone()),
            BackgroundRef::Preset(id) => BackgroundRef::Preset(id.clone()),
        }
    }
}

/// A connected output, as the compositor reports it.
#[derive(Debug)]
pub struct Output {
    pub name: String,
    pub active: bool,
    pub make: Option<String>,
    pub model: Option<String>,
    pub serial: Option<String>,
    pub current_mode: Option<Mode>,
    pub modes: Vec<Mode>,
    pub rect: Rect,
    pub scale: Option<Real>,
    pub transform: Option<String>,
    pub adaptive_sync_status: Option<String>,
}

/// What an [`Output`] says.
pub struct OutputView {
    pub name: Seq<char>,
    pub active: bool,
    pub make: Option<Seq<char>>,
    pub model: Option<Seq<char>>,
    pub serial: Option<Seq<char>>,
    pub current_mode: Option<Mode>,
    pub modes: Seq<Mode>,
    pub rect: Rect,
    pub scale: Option<Real>,
    pub transform: Option<Seq<char>>,
    pub adaptive_sync_status: Option<Seq<char>>,
}

impl DeepView for Output {
    type V = OutputView;

    open spec fn deep_view(&self) -> OutputView {
        OutputView {
            name: self.name@,
            active: self.active,
            make: self.make.deep_view(),
            model: self.model.deep_view(),
            serial: self.serial.deep_view(),
            current_mode: self.current_mode,
            modes: self.modes@,
            rect: self.rect,
            scale: self.scale,
            transform: self.transform.deep_view(),
            adaptive_sync_status: self.adaptive_sync_status.deep_view(),
        }
    }
}

impl Clone for Output {
    fn clone(&self) -> (copy: Self)
        ensures
            copy.deep_view() == self.deep_view(),
    {
        let modes = self.modes.clone();
        assert(modes@ =~= self.modes@);
        Output {
            name: self.name.clone(),
            active: self.active,
            make: copy_text(&self.make),
            model: copy_text(&self.model),
            serial: copy_text(&self.serial),
            current_mode: self.current_mode,
            modes,
            rect: self.rect,
            scale: self.scale,
            transform: copy_text(&self.transform),
            adaptive_sync_status: copy_text(&self.adaptive_sync_status),
        }
    }
}

impl Output {
    /// The advertised mode nearest to the wanted one, at its resolution.
    pub fn resolve_mode(&self, wanted: &Mode) -> (found: Option<Mode>)
        ensures
            found == nearest_mode(self.modes@, *wanted),
    {
        let mut best: Option<usize> = None;
        let mut i: usize = 0;
        while i < self.modes.len()
            invariant
                i <= self.modes@.len(),
                match best {
                    Some(b) => b < i && same_size(self.modes@[b as int], *wanted) && forall|j: int|
                        0 <= j < i && same_size(#[trigger] self.modes@[j], *wanted) ==> refresh_gap(
                            self.modes@[b as int],
                            *wanted,
                        ) <= refresh_gap(self.modes@[j], *wanted) && (j < b ==> refresh_gap(
                            self.modes@[b as int],
                            *wanted,
                        ) < refresh_gap(self.modes@[j], *wanted)),
                    None => forall|j: int|
                        0 <= j < i ==> !same_size(#[trigger] self.modes@[j], *wanted),
                },
            decreases self.modes@.len() - i,
        {
            let mode = self.modes[i];
            if mode.width == wanted.width && mode.height == wanted.height {
                let better = match best {
                    Some(b) => gap(&mode, wanted) < gap(&self.modes[b], wanted),
                    None => true,
                };
                if better {
                    best = Some(i);
                }
            }
            i = i + 1;
        }
        match best {
            Some(b) => {
                proof {
                    assert(is_nearest(self.modes@, *wanted, b as int));
                    let k = choose|k: int| is_nearest(self.modes@, *wanted, k);
                    assert(is_nearest(self.modes@, *wanted, k));
                    assert(same_size(self.modes@[k], *wanted));
                    assert(same_size(self.modes@[b as int], *wanted));
                    assert(k == b);
                }
                Some(self.modes[b])
            },
            None => {
                assert forall|k: int| !is_nearest(self.modes@, *wanted, k) by {
                    if 0 <= k < self.modes@.len() {
                        assert(!same_size(self.modes@[k], *wanted));
                    }
                }
                None
            },
        }
    }
}

fn gap(a: &Mode, b: &Mode) -> (gap: u32)
    ensures
        gap == refresh_gap(*a, *b),
{
    if a.refresh_mhz >= b.refresh_mhz {
        a.refresh_mhz - b.refresh_mhz
    } else {
        b.refresh_mhz - a.refresh_mhz
    }
}

/// Which output a setting is for: every stated property must agree.
#[derive(Debug, PartialEq, Eq)]
pub struct OutputMatch {
    pub name: Option<String>,
    pub make: Option<String>,
    pub model: Option<String>,
    pub serial: Option<String>,
}

/// What an [`OutputMatch`] says.
pub struct OutputMatchView {
    pub name: Option<Seq<char>>,
    pub make: Option<Seq<char>>,
    pub model: Option<Seq<char>>,
    pub serial: Option<Seq<char>>,
}

impl DeepView for OutputMatch {
    type V = OutputMatchView;

    open spec fn deep_view(&self) -> OutputMatchView {
        OutputMatchView {
            name: self.name.deep_view(),
            make: self.make.deep_view(),
            model: self.model.deep_view(),
            serial: self.serial.deep_view(),
        }
    }
}

/// A stated property agrees with a reported one.
pub open spec fn agrees(stated: Option<Seq<char>>, reported: Option<Seq<char>>) -> bool {
    stated is Some ==> stated == reported
}

/// Appends a stated property, after a space where something came before.
pub open spec fn append_property(text: Seq<char>, stated: Option<Seq<char>>) -> Seq<char> {
    match stated {
        Some(stated) => if text.len() == 0 {
            stated
        } else {
            text + " "@ + stated
        },
        None => text,
    }
}

impl OutputMatchView {
    /// Whether every stated property agrees with the output.
    pub open spec fn matches(self, output: OutputView) -> bool {
        &&& agrees(self.name, Some(output.name))
        &&& agrees(self.make, output.make)
        &&& agrees(self.model, output.model)
        &&& agrees(self.serial, output.serial)
    }

    /// What the rule is called: the output's name where it is stated, else the
    /// stated make, model and serial number.
    pub open spec fn key(self) -> Seq<char> {
        match self.name {
            Some(name) => name,
            None => append_property(
                append_property(append_property(Seq::empty(), self.make), self.model),
                self.serial,
            ),
        }
    }
}

fn agrees_with(stated: &Option<String>, reported: &Option<String>) -> (agree: bool)
    ensures
        agree == agrees(stated.deep_view(), reported.deep_view()),
{
    stated.is_none() || same_optional_text(stated, reported)
}

fn push_property(text: String, stated: &Option<String>) -> (extended: String)
    ensures
        extended@ == append_property(text@, stated.deep_view()),
{
    match stated {
        Some(stated) => {
            if text.as_str().is_empty() {
                stated.clone()
            } else {
                let mut text = text;
                text.append(" ");
                text.append(stated.as_str());
                text
            }
        },
        None => text,
    }
}

impl OutputMatch {
    /// A rule for the output of a name.
    pub fn by_name(name: &str) -> (rule: Self)
        ensures
            rule.deep_view() == (OutputMatchView {
                name: Some(name@),
                make: None,
                model: None,
                serial: None,
            }),
    {
        OutputMatch { name: Some(name.to_owned()), make: None, model: None, serial: None }
    }

    /// Whether every stated property agrees with the output.
    pub fn matches(&self, output: &Output) -> (matches: bool)
        ensures
            matches == self.deep_view().matches(output.deep_view()),
    {
        let named = match &self.name {
            Some(name) => same_text(name.as_str(), output.name.as_str()),
            None => true,
        };
        named && agrees_with(&self.make, &output.make) && agrees_with(&self.model, &output.model)
            && agrees_with(&self.serial, &output.serial)
    }

    /// What the rule is called.
    pub fn key(&self) -> (key: String)
        ensures
            key@ == self.deep_view().key(),
    {
        match &self.name {
            Some(name) => name.clone(),
            None => push_property(
                push_property(push_property(String::new(), &self.make), &self.model),
                &self.serial,
            ),
        }
    }

    /// Whether two rules state the same.
    pub fn same(&self, other: &OutputMatch) -> (same: bool)
        ensures
            same == (self.deep_view() == other.deep_view()),
    {
        same_optional_text(&self.name, &other.name) && same_optional_text(&self.make, &other.make)
            && same_optional_text(&self.model, &other.model) && same_optional_text(
            &self.serial,
            &other.serial,
        )
    }
}

impl Clone for OutputMatch {
    fn clone(&self) -> (copy: Self)
        ensures
            copy == *self,
    {
        OutputMatch {
            name: copy_text(&self.name),
            make: copy_text(&self.make),
            model: copy_text(&self.model),
            serial: copy_text(&self.serial),
        }
    }
}

/// Whether the output at `i` is the first that a rule matches.
pub open spec fn is_first_match(observed: Seq<OutputView>, rule: OutputMatchView, i: int) -> bool {
    &&& 0 <= i < observed.len()
    &&& rule.matches(observed[i])
    &&& forall|j: int| 0 <= j < i ==> !rule.matches(#[trigger] observed[j])
}

/// The first output that a rule matches.
pub open spec fn first_match(observed: Seq<OutputView>, rule: OutputMatchView) -> Option<
    OutputView,
> {
    if exists|i: int| is_first_match(observed, rule, i) {
        Some(observed[choose|i: int| is_first_match(observed, rule, i)])
    } else {
        None
    }
}

/// The first output that a rule matches.
pub fn find_output<'a>(observed: &'a [Output], rule: &OutputMatch) -> (found: Option<&'a Output>)
    ensures
        found.deep_view() == first_match(observed.deep_view(), rule.deep_view()),
        found matches Some(output) ==> observed@.contains(*output),
{
    let ghost views = observed.deep_view();
    let ghost wanted = rule.deep_view();
    let mut i: usize = 0;
    while i < observed.len()
        invariant
            i <= observed@.len(),
            views == observed.deep_view(),
            wanted == rule.deep_view(),
            forall|j: int| 0 <= j < i ==> !wanted.matches(#[trigger] views[j]),
        decreases observed@.len() - i,
    {
        assert(views[i as int] == observed@[i as int].deep_view());
        if rule.matches(&observed[i]) {
            proof {
                assert(is_first_match(views, wanted, i as int));
                let k = choose|k: int| is_first_match(views, wanted, k);
                assert(is_first_match(views, wanted, k));
                assert(wanted.matches(views[k]) && wanted.matches(views[i as int]));
                assert(k == i);
            }
            return Some(&observed[i]);
        }
        i = i + 1;
    }
    assert forall|k: int| !is_first_match(views, wanted, k) by {
        if 0 <= k < views.len() {
            assert(!wanted.matches(views[k]));
        }
    }
    None
}

} // verus!
