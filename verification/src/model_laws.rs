//! What the values of a configuration and of what is observed mean.
use crate::model::{
    first_match, is_first_match, is_first_preset, is_nearest, nearest_mode, real_eq, refresh_text,
    BackgroundMode, BackgroundRefView, BackgroundView, Mode, OutputMatchView, OutputView,
    PresetView, Real, Transform,
};
use crate::text::{decimal, decimal_int};
use crate::text_laws::{all_digits, decimal_reads_back, reads};
use vstd::prelude::*;
use vstd::string::*;

verus! {

/// Two numbers are the same: the same bit for bit, or both a zero.
pub open spec fn same_number(a: Real, b: Real) -> bool {
    a.bits == b.bits || (a.bits % 0x8000_0000_0000_0000 == 0 && b.bits % 0x8000_0000_0000_0000
        == 0)
}

/// What is not a number at all: its exponent is full and its fraction is not empty.
pub open spec fn is_nan(a: Real) -> bool {
    a.bits % 0x8000_0000_0000_0000 > 0x7ff0_0000_0000_0000
}

/// Numbers compare equal exactly where they are the same, and what is not a number
/// equals nothing, not even itself.
pub proof fn numbers_compare_as_numbers(a: Real, b: Real)
    ensures
        real_eq(a, b) <==> same_number(a, b) && !is_nan(a) && !is_nan(b),
{
}

/// A rate reads as its hertz: whole ones, and where there are more, a point and the
/// thousandths without trailing zeros. Gives the two parts.
pub proof fn rates_read_back(refresh_mhz: u32) -> (parts: (Seq<char>, Seq<char>))
    ensures
        refresh_text(refresh_mhz) == parts.0 + (if parts.1.len() == 0 {
            Seq::<char>::empty()
        } else {
            "."@ + parts.1
        }),
        all_digits(parts.0),
        all_digits(parts.1),
        parts.1.len() <= 3,
        parts.1.len() > 0 ==> parts.1.last() != '0',
        reads(parts.0) == refresh_mhz / 1000,
        reads(parts.1) * (if parts.1.len() == 0 {
            1000int
        } else if parts.1.len() == 1 {
            100
        } else if parts.1.len() == 2 {
            10
        } else {
            1
        }) == refresh_mhz % 1000,
{
    reveal_strlit(".");
    reveal_strlit(".0");
    reveal_strlit(".00");
    reveal_with_fuel(decimal, 4);
    reveal_with_fuel(reads, 5);
    let whole = decimal((refresh_mhz / 1000) as nat);
    decimal_reads_back((refresh_mhz / 1000) as nat);
    let t = refresh_mhz % 1000;
    let digit = |d: int| (48 + d) as char;
    let fraction = if t == 0 {
        Seq::<char>::empty()
    } else if t % 100 == 0 {
        seq![digit((t / 100) as int)]
    } else if t % 10 == 0 {
        seq![digit((t / 100) as int), digit((t / 10 % 10) as int)]
    } else {
        seq![digit((t / 100) as int), digit((t / 10 % 10) as int), digit((t % 10) as int)]
    };
    if t == 0 {
        assert(refresh_text(refresh_mhz) =~= whole + Seq::<char>::empty());
        assert(reads(fraction) == 0);
    } else {
        assert(refresh_text(refresh_mhz) =~= whole + ("."@ + fraction));
        if fraction.len() >= 2 {
            assert(fraction.drop_last()[0] == fraction[0]);
        }
        if fraction.len() == 3 {
            assert(fraction.drop_last()[1] == fraction[1]);
            assert(fraction.drop_last().drop_last() =~= seq![fraction[0]]);
            assert(fraction.drop_last().drop_last().drop_last() =~= Seq::<char>::empty());
            assert(reads(fraction.drop_last().drop_last().drop_last()) == 0);
            assert(reads(fraction.drop_last().drop_last()) == t / 100);
            assert(reads(fraction.drop_last()) == 10 * (t / 100) + t / 10 % 10);
            assert(reads(fraction) == 100 * (t / 100) + 10 * (t / 10 % 10) + t % 10);
        } else if fraction.len() == 2 {
            assert(fraction.drop_last() =~= seq![fraction[0]]);
            assert(fraction.drop_last().drop_last() =~= Seq::<char>::empty());
            assert(reads(fraction.drop_last().drop_last()) == 0);
            assert(reads(fraction.drop_last()) == t / 100);
            assert(reads(fraction) == 10 * (t / 100) + t / 10 % 10);
        } else {
            assert(fraction.drop_last() =~= Seq::<char>::empty());
            assert(reads(fraction.drop_last()) == 0);
        }
    }
    (whole, fraction)
}

/// A mode is written as its width, its height and its rate, in that order.
pub proof fn modes_are_written_out(mode: Mode)
    ensures
        mode.sway_text() == decimal_int(mode.width as int) + "x"@ + decimal_int(mode.height as int)
            + "@"@ + refresh_text(mode.refresh_mhz) + "Hz"@,
{
}

/// How far two rates are apart.
pub open spec fn apart(a: u32, b: u32) -> int {
    if a > b {
        a - b
    } else {
        b - a
    }
}

/// The mode at `best` is the nearest among the first `n`, and the first of those
/// that are equally near.
spec fn best_among(modes: Seq<Mode>, wanted: Mode, n: int, best: int) -> bool {
    &&& 0 <= best < n
    &&& modes[best].width == wanted.width && modes[best].height == wanted.height
    &&& forall|j: int|
        0 <= j < n && (#[trigger] modes[j]).width == wanted.width && modes[j].height
            == wanted.height ==> apart(modes[best].refresh_mhz, wanted.refresh_mhz) <= apart(
            modes[j].refresh_mhz,
            wanted.refresh_mhz,
        ) && (j < best ==> apart(modes[best].refresh_mhz, wanted.refresh_mhz) < apart(
            modes[j].refresh_mhz,
            wanted.refresh_mhz,
        ))
}

proof fn lemma_best_exists(modes: Seq<Mode>, wanted: Mode, n: int, i: int) -> (best: int)
    requires
        0 <= i < n <= modes.len(),
        modes[i].width == wanted.width && modes[i].height == wanted.height,
    ensures
        best_among(modes, wanted, n, best),
    decreases n,
{
    let last = modes[n - 1];
    let fits = last.width == wanted.width && last.height == wanted.height;
    if exists|k: int|
        0 <= k < n - 1 && (#[trigger] modes[k]).width == wanted.width && modes[k].height
            == wanted.height {
        let k = choose|k: int|
            0 <= k < n - 1 && (#[trigger] modes[k]).width == wanted.width && modes[k].height
                == wanted.height;
        let best = lemma_best_exists(modes, wanted, n - 1, k);
        if fits && apart(last.refresh_mhz, wanted.refresh_mhz) < apart(
            modes[best].refresh_mhz,
            wanted.refresh_mhz,
        ) {
            n - 1
        } else {
            best
        }
    } else {
        assert(i == n - 1);
        i
    }
}

/// The mode that is found has the wanted size, no advertised mode of that size is
/// nearer in rate, and of those equally near it is the first. None is found only
/// where the size is not advertised.
pub proof fn nearest_mode_is_the_nearest(modes: Seq<Mode>, wanted: Mode)
    ensures
        match nearest_mode(modes, wanted) {
            Some(found) => found.width == wanted.width && found.height == wanted.height
                && exists|best: int|
                0 <= best < modes.len() && #[trigger] modes[best] == found && forall|j: int|
                    0 <= j < modes.len() && (#[trigger] modes[j]).width == wanted.width
                        && modes[j].height == wanted.height ==> apart(
                        found.refresh_mhz,
                        wanted.refresh_mhz,
                    ) <= apart(modes[j].refresh_mhz, wanted.refresh_mhz) && (j < best ==> apart(
                        found.refresh_mhz,
                        wanted.refresh_mhz,
                    ) < apart(modes[j].refresh_mhz, wanted.refresh_mhz)),
            None => forall|j: int|
                0 <= j < modes.len() ==> (#[trigger] modes[j]).width != wanted.width
                    || modes[j].height != wanted.height,
        },
{
    match nearest_mode(modes, wanted) {
        Some(found) => {
            let best = choose|best: int| is_nearest(modes, wanted, best);
            assert(is_nearest(modes, wanted, best));
            assert(modes[best] == found);
        },
        None => {
            assert forall|j: int| 0 <= j < modes.len() implies (#[trigger] modes[j]).width
                != wanted.width || modes[j].height != wanted.height by {
                if modes[j].width == wanted.width && modes[j].height == wanted.height {
                    let best = lemma_best_exists(modes, wanted, modes.len() as int, j);
                    assert(is_nearest(modes, wanted, best));
                }
            }
        },
    }
}

/// An output is what a rule states of it, in everything that the rule states.
pub open spec fn is_as_stated(output: OutputView, rule: OutputMatchView) -> bool {
    &&& rule.name matches Some(name) ==> output.name == name
    &&& rule.make matches Some(make) ==> output.make == Some(make)
    &&& rule.model matches Some(model) ==> output.model == Some(model)
    &&& rule.serial matches Some(serial) ==> output.serial == Some(serial)
}

/// The output that a rule finds is as the rule states, and no earlier one is; none
/// is found only where none is as stated.
pub proof fn rules_find_the_first_output(observed: Seq<OutputView>, rule: OutputMatchView)
    ensures
        match first_match(observed, rule) {
            Some(found) => exists|i: int|
                0 <= i < observed.len() && #[trigger] observed[i] == found && is_as_stated(
                    found,
                    rule,
                ) && forall|j: int| 0 <= j < i ==> !is_as_stated(#[trigger] observed[j], rule),
            None => forall|j: int|
                0 <= j < observed.len() ==> !is_as_stated(#[trigger] observed[j], rule),
        },
{
    match first_match(observed, rule) {
        Some(found) => {
            let i = choose|i: int| is_first_match(observed, rule, i);
            assert(is_first_match(observed, rule, i));
            assert(observed[i] == found);
            assert forall|j: int| 0 <= j < i implies !is_as_stated(
                #[trigger] observed[j],
                rule,
            ) by {
                assert(!rule.matches(observed[j]));
            }
        },
        None => {
            assert forall|j: int| 0 <= j < observed.len() implies !is_as_stated(
                #[trigger] observed[j],
                rule,
            ) by {
                if is_as_stated(observed[j], rule) {
                    lemma_first_exists(observed, rule, j);
                }
            }
        },
    }
}

proof fn lemma_first_exists(observed: Seq<OutputView>, rule: OutputMatchView, j: int)
    requires
        0 <= j < observed.len(),
        rule.matches(observed[j]),
    ensures
        exists|i: int| is_first_match(observed, rule, i),
    decreases j,
{
    if exists|k: int| 0 <= k < j && rule.matches(#[trigger] observed[k]) {
        let k = choose|k: int| 0 <= k < j && rule.matches(#[trigger] observed[k]);
        lemma_first_exists(observed, rule, k);
    } else {
        assert(is_first_match(observed, rule, j));
    }
}

/// A rule is called by its name where it states one, and otherwise by the make, the
/// model and the serial that it states, in that order, with a blank between two.
pub proof fn rules_are_called_by_what_they_state(
    make: Seq<char>,
    model: Seq<char>,
    serial: Seq<char>,
    rule: OutputMatchView,
)
    requires
        make.len() > 0,
        model.len() > 0,
    ensures
        rule.name matches Some(name) ==> rule.key() == name,
        (OutputMatchView {
            name: None,
            make: Some(make),
            model: Some(model),
            serial: Some(serial),
        }).key() == make + " "@ + model + " "@ + serial,
        (OutputMatchView { name: None, make: Some(make), model: Some(model), serial: None }).key()
            == make + " "@ + model,
        (OutputMatchView { name: None, make: Some(make), model: None, serial: Some(serial) }).key()
            == make + " "@ + serial,
        (OutputMatchView {
            name: None,
            make: None,
            model: Some(model),
            serial: Some(serial),
        }).key() == model + " "@ + serial,
        (OutputMatchView { name: None, make: None, model: None, serial: Some(serial) }).key()
            == serial,
        (OutputMatchView { name: None, make: None, model: None, serial: None }).key().len() == 0,
{
}

/// A reference to a preset stands for the background of the first preset of that
/// name, and for none where there is no such preset; an inline one for itself.
pub proof fn references_stand_for_their_background(
    id: Seq<char>,
    inline: BackgroundView,
    presets: Seq<PresetView>,
)
    ensures
        BackgroundRefView::Inline(inline).resolve(presets) == Some(inline),
        match BackgroundRefView::Preset(id).resolve(presets) {
            Some(found) => exists|i: int|
                0 <= i < presets.len() && #[trigger] presets[i] == (id, found) && forall|j: int|
                    0 <= j < i ==> (#[trigger] presets[j]).0 != id,
            None => forall|j: int| 0 <= j < presets.len() ==> (#[trigger] presets[j]).0 != id,
        },
{
    match BackgroundRefView::Preset(id).resolve(presets) {
        Some(found) => {
            let i = choose|i: int| is_first_preset(presets, id, i);
            assert(is_first_preset(presets, id, i));
            assert(presets[i] == (id, found));
        },
        None => {
            assert forall|j: int| 0 <= j < presets.len() implies (#[trigger] presets[j]).0
                != id by {
                if presets[j].0 =~= id {
                    lemma_first_preset_exists(presets, id, j);
                    let first = choose|i: int| is_first_preset(presets, id, i);
                    assert(is_first_preset(
                        presets,
                        BackgroundRefView::Preset(id)->Preset_0,
                        first,
                    ));
                    assert(BackgroundRefView::Preset(id).resolve(presets) is Some);
                }
            }
        },
    }
}

proof fn lemma_first_preset_exists(presets: Seq<PresetView>, id: Seq<char>, j: int)
    requires
        0 <= j < presets.len(),
        presets[j].0 == id,
    ensures
        exists|i: int| is_first_preset(presets, id, i),
    decreases j,
{
    if exists|k: int| 0 <= k < j && (#[trigger] presets[k]).0 == id {
        let k = choose|k: int| 0 <= k < j && (#[trigger] presets[k]).0 == id;
        lemma_first_preset_exists(presets, id, k);
    } else {
        assert(is_first_preset(presets, id, j));
    }
}

/// A color is written without its number sign, and is black where none is given.
pub proof fn colors_are_written_without_a_sign(background: BackgroundView, digits: Seq<char>)
    ensures
        background.color is None ==> background.sway_color() == "000000"@,
        background.color == Some(seq!['#'] + digits) ==> background.sway_color() == digits,
        background.color == Some(digits) && (digits.len() == 0 || digits[0] != '#')
            ==> background.sway_color() == digits,
{
    if background.color == Some(seq!['#'] + digits) {
        assert((seq!['#'] + digits).drop_first() =~= digits);
    }
}

/// Turning a display is called by its degrees, after "flipped" where it is
/// mirrored first.
pub proof fn turns_are_called_by_their_degrees()
    ensures
        Transform::Normal.sway_text() == "normal"@,
        Transform::Rotate90.sway_text() == "90"@,
        Transform::Rotate180.sway_text() == "180"@,
        Transform::Rotate270.sway_text() == "270"@,
        Transform::Flipped.sway_text() == "flipped"@,
        Transform::Flipped90.sway_text() == "flipped-"@ + Transform::Rotate90.sway_text(),
        Transform::Flipped180.sway_text() == "flipped-"@ + Transform::Rotate180.sway_text(),
        Transform::Flipped270.sway_text() == "flipped-"@ + Transform::Rotate270.sway_text(),
{
    reveal_strlit("90");
    reveal_strlit("180");
    reveal_strlit("270");
    reveal_strlit("flipped-");
    reveal_strlit("flipped-90");
    reveal_strlit("flipped-180");
    reveal_strlit("flipped-270");
    assert("flipped-90"@ =~= "flipped-"@ + "90"@);
    assert("flipped-180"@ =~= "flipped-"@ + "180"@);
    assert("flipped-270"@ =~= "flipped-"@ + "270"@);
}

/// How a picture is scaled is called by the compositor's word for it.
pub proof fn scaling_is_called_by_its_word()
    ensures
        BackgroundMode::Fill.sway_text() == "fill"@,
        BackgroundMode::Fit.sway_text() == "fit"@,
        BackgroundMode::Stretch.sway_text() == "stretch"@,
        BackgroundMode::Center.sway_text() == "center"@,
        BackgroundMode::Tile.sway_text() == "tile"@,
{
}

} // verus!
