//! Which memory layouts a buffer is allocated in, and whether it can be flipped
//! straight to the display.
use crate::text::{decimal, decimal_int, hexadecimal, push_decimal, push_decimal_int, push_hexadecimal};
use vstd::prelude::*;
use vstd::string::*;

verus! {

/// The code of a 32-bit format with blue lowest.
pub const FOURCC_XR24: u32 = 0x3432_5258;

/// The code of a 32-bit format with red lowest.
pub const FOURCC_XB24: u32 = 0x3432_4258;

/// The layouts that a device can draw to, and those among them that the
/// compositor can flip to the display.
#[derive(Debug, PartialEq, Eq)]
pub struct PresentModifiers {
    pub all: Vec<u64>,
    pub scanout: Vec<u64>,
}

/// The layouts among the first `n` supported ones that can be flipped.
pub open spec fn shared_among(supported: Seq<u64>, scanout: Seq<u64>, n: int) -> Seq<u64>
    decreases n,
{
    if n <= 0 {
        Seq::empty()
    } else if scanout.contains(supported[n - 1]) {
        shared_among(supported, scanout, n - 1).push(supported[n - 1])
    } else {
        shared_among(supported, scanout, n - 1)
    }
}

/// Whether a layout is listed.
pub fn lists(modifiers: &[u64], modifier: u64) -> (listed: bool)
    ensures
        listed == modifiers@.contains(modifier),
{
    let mut i: usize = 0;
    while i < modifiers.len()
        invariant
            i <= modifiers@.len(),
            forall|j: int| 0 <= j < i ==> modifiers@[j] != modifier,
        decreases modifiers@.len() - i,
    {
        if modifiers[i] == modifier {
            assert(modifiers@[i as int] == modifier);
            return true;
        }
        i = i + 1;
    }
    false
}

/// The supported layouts that can be flipped, in the order in which they are
/// supported.
pub fn scanout_modifiers(supported: &[u64], scanout: &[u64]) -> (shared: Vec<u64>)
    ensures
        shared@ == shared_among(supported@, scanout@, supported@.len() as int),
{
    let mut shared: Vec<u64> = Vec::new();
    let mut i: usize = 0;
    while i < supported.len()
        invariant
            i <= supported@.len(),
            shared@ == shared_among(supported@, scanout@, i as int),
        decreases supported@.len() - i,
    {
        if lists(scanout, supported[i]) {
            shared.push(supported[i]);
        }
        i = i + 1;
    }
    shared
}

/// The shared layouts are exactly those on both lists.
pub proof fn shared_are_on_both_lists(supported: Seq<u64>, scanout: Seq<u64>, n: int, modifier: u64)
    requires
        0 <= n <= supported.len(),
    ensures
        shared_among(supported, scanout, n).contains(modifier) <==> supported.take(n).contains(
            modifier,
        ) && scanout.contains(modifier),
    decreases n,
{
    if n > 0 {
        shared_are_on_both_lists(supported, scanout, n - 1, modifier);
        let before = shared_among(supported, scanout, n - 1);
        let last = supported[n - 1];
        let shorter = supported.take(n - 1);
        let longer = supported.take(n);
        assert(longer =~= shorter.push(last));
        if shorter.contains(modifier) {
            let k = choose|k: int| 0 <= k < shorter.len() && shorter[k] == modifier;
            assert(longer[k] == modifier);
        }
        if longer.contains(modifier) && modifier != last {
            let k = choose|k: int| 0 <= k < longer.len() && longer[k] == modifier;
            assert(shorter[k] == modifier);
        }
        assert(longer[n - 1] == last);
        if scanout.contains(last) {
            let after = before.push(last);
            assert(after[before.len() as int] == last);
            if before.contains(modifier) {
                let k = choose|k: int| 0 <= k < before.len() && before[k] == modifier;
                assert(after[k] == modifier);
            }
            if after.contains(modifier) && modifier != last {
                let k = choose|k: int| 0 <= k < after.len() && after[k] == modifier;
                assert(before[k] == modifier);
            }
        }
    }
}

/// The byte of a code at a place.
pub open spec fn code_byte(code: u32, place: int) -> int {
    if place == 0 {
        (code % 256) as int
    } else if place == 1 {
        (code / 256 % 256) as int
    } else if place == 2 {
        (code / 65536 % 256) as int
    } else {
        (code / 16777216) as int
    }
}

/// A byte as it is printed: a question mark where it spells nothing visible.
pub open spec fn printed(byte: int) -> char {
    if 33 <= byte <= 126 {
        byte as char
    } else {
        '?'
    }
}

/// A code as the four characters that it spells.
pub open spec fn fourcc_text(fourcc: u32) -> Seq<char> {
    Seq::new(4, |i: int| printed(code_byte(fourcc, i)))
}

fn push_printed(text: &mut String, byte: u8)
    ensures
        final(text)@ == old(text)@.push(printed(byte as int)),
{
    if 33 <= byte && byte <= 126 {
        text.push(byte as char);
    } else {
        text.push('?');
    }
}

/// A code as the four characters that it spells.
pub fn fourcc_name(fourcc: u32) -> (name: String)
    ensures
        name@ == fourcc_text(fourcc),
{
    let mut name = String::new();
    push_printed(&mut name, (fourcc % 256) as u8);
    push_printed(&mut name, (fourcc / 256 % 256) as u8);
    push_printed(&mut name, (fourcc / 65536 % 256) as u8);
    push_printed(&mut name, (fourcc / 16777216) as u8);
    assert(name@ =~= fourcc_text(fourcc));
    name
}

/// Whether a buffer can be flipped straight to the display, as far as it can be
/// told beforehand.
#[derive(Debug, PartialEq, Eq)]
pub enum ScanoutVerdict {
    /// Every condition that can be checked is met.
    Yes { fourcc: u32, modifier: u64 },
    /// A condition fails.
    No(String),
    /// Nothing speaks against it, and nothing for it.
    Unconfirmed(String),
}

/// What a [`ScanoutVerdict`] says.
pub enum VerdictView {
    Yes { fourcc: u32, modifier: u64 },
    No(Seq<char>),
    Unconfirmed(Seq<char>),
}

impl DeepView for ScanoutVerdict {
    type V = VerdictView;

    open spec fn deep_view(&self) -> VerdictView {
        match self {
            ScanoutVerdict::Yes { fourcc, modifier } => VerdictView::Yes {
                fourcc: *fourcc,
                modifier: *modifier,
            },
            ScanoutVerdict::No(reason) => VerdictView::No(reason@),
            ScanoutVerdict::Unconfirmed(reason) => VerdictView::Unconfirmed(reason@),
        }
    }
}

/// The buffer is not the output's pixel grid.
pub open spec fn is_scaled(configured: (u32, u32), output_mode: Option<(i32, i32)>) -> bool {
    match output_mode {
        Some((width, height)) => configured.0 != width || configured.1 != height,
        None => false,
    }
}

/// Why a buffer that is not the output's pixel grid cannot be flipped.
pub open spec fn scaled_reason(configured: (u32, u32), mode: (i32, i32)) -> Seq<char> {
    "buffer is "@ + decimal(configured.0 as nat) + "x"@ + decimal(configured.1 as nat)
        + " but the output's mode is "@ + decimal_int(mode.0 as int) + "x"@ + decimal_int(
        mode.1 as int,
    ) + " pixels; direct scanout needs scale 1"@
}

/// Whether a buffer can be flipped. The most fundamental obstacle is named: a
/// buffer of the wrong size is out whatever its layout. A compositor that named
/// no layouts for flipping said nothing; one that did is taken at its word.
pub open spec fn verdict(
    configured: (u32, u32),
    output_mode: Option<(i32, i32)>,
    fourcc: u32,
    scanout: Seq<u64>,
    compositor_flagged_scanout: bool,
    chosen_modifier: u64,
) -> VerdictView {
    if is_scaled(configured, output_mode) {
        VerdictView::No(scaled_reason(configured, output_mode->0))
    } else if !compositor_flagged_scanout {
        VerdictView::Unconfirmed(
            "default feedback carries no scanout tranche; zeroCopyPresented in GET /projection/stats is authoritative"@,
        )
    } else if scanout.len() == 0 {
        VerdictView::No("no common modifier"@)
    } else if !scanout.contains(chosen_modifier) {
        VerdictView::No(
            "allocated with modifier 0x"@ + hexadecimal(chosen_modifier as nat)
                + ", which the compositor did not flag for scanout"@,
        )
    } else {
        VerdictView::Yes { fourcc, modifier: chosen_modifier }
    }
}

/// Whether a buffer can be flipped straight to the display.
pub fn scanout_verdict(
    configured: (u32, u32),
    output_mode: Option<(i32, i32)>,
    fourcc: u32,
    modifiers: &PresentModifiers,
    compositor_flagged_scanout: bool,
    chosen_modifier: u64,
) -> (found: ScanoutVerdict)
    ensures
        found.deep_view() == verdict(
            configured,
            output_mode,
            fourcc,
            modifiers.scanout@,
            compositor_flagged_scanout,
            chosen_modifier,
        ),
{
    let (width, height) = configured;
    if let Some((mode_width, mode_height)) = output_mode {
        if width as i64 != mode_width as i64 || height as i64 != mode_height as i64 {
            let mut reason = "buffer is ".to_owned();
            push_decimal(&mut reason, width as u64);
            reason.append("x");
            push_decimal(&mut reason, height as u64);
            reason.append(" but the output's mode is ");
            push_decimal_int(&mut reason, mode_width as i64);
            reason.append("x");
            push_decimal_int(&mut reason, mode_height as i64);
            reason.append(" pixels; direct scanout needs scale 1");
            return ScanoutVerdict::No(reason);
        }
    }
    if !compositor_flagged_scanout {
        return ScanoutVerdict::Unconfirmed(
            "default feedback carries no scanout tranche; zeroCopyPresented in GET /projection/stats is authoritative".to_owned(),
        );
    }
    if modifiers.scanout.len() == 0 {
        return ScanoutVerdict::No("no common modifier".to_owned());
    }
    if !lists(modifiers.scanout.as_slice(), chosen_modifier) {
        let mut reason = "allocated with modifier 0x".to_owned();
        push_hexadecimal(&mut reason, chosen_modifier);
        reason.append(", which the compositor did not flag for scanout");
        return ScanoutVerdict::No(reason);
    }
    ScanoutVerdict::Yes { fourcc, modifier: chosen_modifier }
}

/// A missing list of layouts is never held against a buffer: the verdict is a
/// definite no only where the size is wrong, or the compositor named layouts and
/// the buffer's is not among them.
pub proof fn silence_is_not_a_no(
    configured: (u32, u32),
    output_mode: Option<(i32, i32)>,
    fourcc: u32,
    scanout: Seq<u64>,
    compositor_flagged_scanout: bool,
    chosen_modifier: u64,
)
    ensures
        verdict(
            configured,
            output_mode,
            fourcc,
            scanout,
            compositor_flagged_scanout,
            chosen_modifier,
        ) is No <==> is_scaled(configured, output_mode) || (compositor_flagged_scanout
            && !scanout.contains(chosen_modifier)),
        verdict(
            configured,
            output_mode,
            fourcc,
            scanout,
            compositor_flagged_scanout,
            chosen_modifier,
        ) is Yes <==> !is_scaled(configured, output_mode) && compositor_flagged_scanout
            && scanout.contains(chosen_modifier),
{
}

/// A format that images can be allocated in.
#[derive(Debug, PartialEq, Eq)]
pub struct PresentFormat {
    pub fourcc: u32,
    pub modifiers: PresentModifiers,
}

/// A candidate has a layout at all.
pub open spec fn is_usable(all: Seq<u64>) -> bool {
    all.len() > 0
}

/// Which of two candidate formats is taken, if any: the first that can be
/// flipped, or else the first that can be drawn to.
pub open spec fn preferred(
    first: Seq<u64>,
    first_scanout: Seq<u64>,
    second: Seq<u64>,
    second_scanout: Seq<u64>,
) -> Option<bool> {
    let first_shared = shared_among(first, first_scanout, first.len() as int);
    let second_shared = shared_among(second, second_scanout, second.len() as int);
    if is_usable(first) && first_shared.len() > 0 {
        Some(true)
    } else if is_usable(second) && second_shared.len() > 0 {
        Some(false)
    } else if is_usable(first) {
        Some(true)
    } else if is_usable(second) {
        Some(false)
    } else {
        None
    }
}

/// The code of the first or of the second candidate.
pub open spec fn code_of(first: bool) -> u32 {
    if first {
        FOURCC_XR24
    } else {
        FOURCC_XB24
    }
}

/// Chooses the format to allocate in, from the layouts of the two candidate
/// formats that the device can draw to, and those that the compositor can flip.
/// One that can be flipped is preferred over one that can only be composited.
pub fn choose_present_format(
    xr24: Vec<u64>,
    xr24_scanout: &[u64],
    xb24: Vec<u64>,
    xb24_scanout: &[u64],
) -> (chosen: Option<PresentFormat>)
    ensures
        preferred(xr24@, xr24_scanout@, xb24@, xb24_scanout@) matches Some(first) ==> (
        chosen matches Some(format) && format.fourcc == code_of(first)),
        match preferred(xr24@, xr24_scanout@, xb24@, xb24_scanout@) {
            Some(first) => chosen matches Some(format) && {
                let (code, all, scanout) = if first {
                    (FOURCC_XR24, xr24@, xr24_scanout@)
                } else {
                    (FOURCC_XB24, xb24@, xb24_scanout@)
                };
                &&& format.fourcc == code
                &&& format.modifiers.all@ == all
                &&& format.modifiers.scanout@ == shared_among(all, scanout, all.len() as int)
            },
            None => chosen is None,
        },
{
    let first_shared = scanout_modifiers(xr24.as_slice(), xr24_scanout);
    let second_shared = scanout_modifiers(xb24.as_slice(), xb24_scanout);
    let first_usable = xr24.len() > 0;
    let second_usable = xb24.len() > 0;
    let take_first = if first_usable && first_shared.len() > 0 {
        true
    } else if second_usable && second_shared.len() > 0 {
        false
    } else {
        first_usable
    };
    if take_first {
        Some(
            PresentFormat {
                fourcc: FOURCC_XR24,
                modifiers: PresentModifiers { all: xr24, scanout: first_shared },
            },
        )
    } else if second_usable {
        Some(
            PresentFormat {
                fourcc: FOURCC_XB24,
                modifiers: PresentModifiers { all: xb24, scanout: second_shared },
            },
        )
    } else {
        None
    }
}

/// Whether images can be allocated in one of the two formats, from the layouts
/// of each that the device can draw to.
pub fn present_format_available(xr24: &[u64], xb24: &[u64]) -> (verdict: Result<(), String>)
    ensures
        xr24@.len() > 0 || xb24@.len() > 0 ==> verdict is Ok,
        xr24@.len() == 0 && xb24@.len() == 0 ==> (verdict matches Err(reason) && reason@
            == "neither XR24 nor XB24 is importable as a Present image"@),
{
    if xr24.len() == 0 && xb24.len() == 0 {
        return Err("neither XR24 nor XB24 is importable as a Present image".to_owned());
    }
    Ok(())
}

} // verus!
