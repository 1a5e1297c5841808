//! What holds of pins that are read from a file.
use crate::model::Real;
use crate::projection::slice_laws::at_one_place;
use crate::projection::slices::SlicerSpec;
use crate::projection::warp_spike::{
    differs, geometries, geometry_of, is_cut_for, is_read_due, output_fault, outputs_fault,
    pins_from, settings_fault, shown_after, stranger_from, Geometry, Pins, Settings, MAX_FILE_BYTES,
    POLL_INTERVAL,
};
use crate::reals::whole;
use vstd::prelude::*;
use vstd::string::*;

verus! {

/// Pins are taken at the very places that were given, coordinate by coordinate, and a
/// zero without its sign.
pub proof fn pins_stay_where_they_are(pins: Pins, width: u32, height: u32)
    ensures
        ({
            let made = geometry_of(Some(pins), width, height);
            &&& at_one_place(made.corners.top_left, pins.corners.top_left)
            &&& at_one_place(made.corners.top_right, pins.corners.top_right)
            &&& at_one_place(made.corners.bottom_right, pins.corners.bottom_right)
            &&& at_one_place(made.corners.bottom_left, pins.corners.bottom_left)
            &&& at_one_place(made.center, pins.center)
            &&& made.force_general == pins.force_general
        }),
{
}

/// Pins that lie at the same places, but for the sign of a zero, give one and the same
/// geometry.
pub proof fn sign_of_zero_does_not_matter(a: Pins, b: Pins, width: u32, height: u32)
    requires
        at_one_place(a.corners.top_left, b.corners.top_left),
        at_one_place(a.corners.top_right, b.corners.top_right),
        at_one_place(a.corners.bottom_right, b.corners.bottom_right),
        at_one_place(a.corners.bottom_left, b.corners.bottom_left),
        at_one_place(a.center, b.center),
        a.force_general == b.force_general,
    ensures
        geometry_of(Some(a), width, height) == geometry_of(Some(b), width, height),
{
}

/// Without pins the corners are those of the output, clockwise from the upper left, and
/// the center is in the middle.
pub proof fn unpinned_outputs_are_their_raster(width: u32, height: u32)
    ensures
        ({
            let made = geometry_of(None, width, height);
            let zero = Real { bits: 0 };
            let half = Real { bits: 0x3fe0_0000_0000_0000 };
            &&& made.corners.top_left.x == zero && made.corners.top_left.y == zero
            &&& made.corners.top_right.x == whole(width) && made.corners.top_right.y == zero
            &&& made.corners.bottom_right.x == whole(width) && made.corners.bottom_right.y == whole(
                height,
            )
            &&& made.corners.bottom_left.x == zero && made.corners.bottom_left.y == whole(height)
            &&& made.center.x == half && made.center.y == half
            &&& !made.force_general
        }),
{
}

/// The pins of an output are the first that are given under its name.
pub proof fn pins_are_found_by_name(outputs: Seq<(String, Pins)>, name: Seq<char>, from: int)
    requires
        0 <= from <= outputs.len(),
    ensures
        match pins_from(outputs, name, from) {
            Some(pins) => exists|k: int|
                from <= k < outputs.len() && (#[trigger] outputs[k]).0@ == name && outputs[k].1
                    == pins && forall|j: int|
                    from <= j < k ==> (#[trigger] outputs[j]).0@ != name,
            None => forall|j: int|
                from <= j < outputs.len() ==> (#[trigger] outputs[j]).0@ != name,
        },
    decreases outputs.len() - from,
{
    if from < outputs.len() {
        if outputs[from].0@ == name {
            assert(outputs[from].1 == pins_from(outputs, name, from)->0);
        } else {
            pins_are_found_by_name(outputs, name, from + 1);
            if let Some(pins) = pins_from(outputs, name, from) {
                let k = choose|k: int|
                    from + 1 <= k < outputs.len() && (#[trigger] outputs[k]).0@ == name
                        && outputs[k].1 == pins && forall|j: int|
                        from + 1 <= j < k ==> (#[trigger] outputs[j]).0@ != name;
                assert(outputs[k].0@ == name);
                assert forall|j: int| from <= j < k implies (#[trigger] outputs[j]).0@ != name by {
                    if j > from {
                        let _ = outputs[j];
                    }
                }
            }
        }
    }
}

/// Some slice goes to the output of that name.
pub open spec fn has_slice(spec: SlicerSpec, name: Seq<char>) -> bool {
    exists|i: int| 0 <= i < spec.slices@.len() && (#[trigger] spec.slices@[i]).output@ == name
}

/// The first output that pins are given for and that no slice goes to is the stranger.
pub proof fn strangers_have_no_slice(
    spec: SlicerSpec,
    outputs: Seq<(String, Pins)>,
    from: int,
)
    requires
        0 <= from <= outputs.len(),
    ensures
        match stranger_from(spec, outputs, from) {
            Some(name) => exists|k: int|
                from <= k < outputs.len() && (#[trigger] outputs[k]).0@ == name && !has_slice(
                    spec,
                    name,
                ) && forall|j: int|
                    from <= j < k ==> has_slice(spec, (#[trigger] outputs[j]).0@),
            None => forall|j: int|
                from <= j < outputs.len() ==> has_slice(spec, (#[trigger] outputs[j]).0@),
        },
    decreases outputs.len() - from,
{
    if from < outputs.len() {
        let own = outputs[from].0@;
        assert(has_slice(spec, own) == is_cut_for(spec, own));
        if is_cut_for(spec, own) {
            strangers_have_no_slice(spec, outputs, from + 1);
            if let Some(name) = stranger_from(spec, outputs, from) {
                let k = choose|k: int|
                    from + 1 <= k < outputs.len() && (#[trigger] outputs[k]).0@ == name
                        && !has_slice(spec, name) && forall|j: int|
                        from + 1 <= j < k ==> has_slice(spec, (#[trigger] outputs[j]).0@);
                assert(outputs[k].0@ == name);
                assert forall|j: int| from <= j < k implies has_slice(
                    spec,
                    (#[trigger] outputs[j]).0@,
                ) by {
                    if j > from {
                        let _ = outputs[j];
                    }
                }
            } else {
                assert forall|j: int| from <= j < outputs.len() implies has_slice(
                    spec,
                    (#[trigger] outputs[j]).0@,
                ) by {
                    if j > from {
                        let _ = outputs[j];
                    }
                }
            }
        } else {
            assert(outputs[from].0@ == own);
        }
    }
}

/// Nothing is wrong with the output at `i`: it has pixels but no more than 32 times 1024
/// times 1024, the size of its slice, and its pins, if it has any, can be applied.
pub open spec fn is_sound_output(
    spec: SlicerSpec,
    settings: Settings,
    sizes: Seq<(u32, u32)>,
    solved: Seq<Option<String>>,
    i: int,
) -> bool {
    &&& sizes[i].0 > 0 && sizes[i].1 > 0 && sizes[i].0 * sizes[i].1 <= 33_554_432
    &&& sizes[i].0 == spec.slices@[i].source.width && sizes[i].1 == spec.slices@[i].source.height
    &&& settings.pins_of(spec.slices@[i].output@) is Some ==> solved[i] is None
}

proof fn lemma_outputs(
    spec: SlicerSpec,
    settings: Settings,
    sizes: Seq<(u32, u32)>,
    solved: Seq<Option<String>>,
    from: int,
)
    requires
        0 <= from <= spec.slices@.len(),
        sizes.len() == spec.slices@.len(),
    ensures
        outputs_fault(spec, settings, sizes, solved, from) is None <==> forall|i: int|
            from <= i < spec.slices@.len() ==> #[trigger] is_sound_output(
                spec,
                settings,
                sizes,
                solved,
                i,
            ),
    decreases spec.slices@.len() - from,
{
    if from < spec.slices@.len() {
        lemma_outputs(spec, settings, sizes, solved, from + 1);
        assert(output_fault(spec, settings, sizes, solved, from) is None == is_sound_output(
            spec,
            settings,
            sizes,
            solved,
            from,
        ));
    }
}

/// Settings are taken exactly where there is one size for each slice, they could be
/// read, ask for one to eight workers, give pins for outputs of the cut alone, and
/// nothing is wrong with any output.
pub proof fn sound_settings_are_taken(
    spec: SlicerSpec,
    parsed: Result<Settings, String>,
    sizes: Seq<(u32, u32)>,
    solved: Seq<Option<String>>,
)
    ensures
        settings_fault(spec, parsed, sizes, solved) is None <==> {
            &&& sizes.len() == spec.slices@.len()
            &&& parsed is Ok
            &&& 1 <= parsed->Ok_0.workers <= 8
            &&& forall|j: int|
                0 <= j < parsed->Ok_0.outputs@.len() ==> has_slice(
                    spec,
                    (#[trigger] parsed->Ok_0.outputs@[j]).0@,
                )
            &&& forall|i: int|
                0 <= i < spec.slices@.len() ==> #[trigger] is_sound_output(
                    spec,
                    parsed->Ok_0,
                    sizes,
                    solved,
                    i,
                )
        },
{
    if parsed is Ok {
        let settings = parsed->Ok_0;
        strangers_have_no_slice(spec, settings.outputs@, 0);
        if sizes.len() == spec.slices@.len() {
            lemma_outputs(spec, settings, sizes, solved, 0);
        }
        if let Some(name) = stranger_from(spec, settings.outputs@, 0) {
            let k = choose|k: int|
                0 <= k < settings.outputs@.len() && (#[trigger] settings.outputs@[k]).0@ == name
                    && !has_slice(spec, name) && forall|j: int|
                    0 <= j < k ==> has_slice(spec, (#[trigger] settings.outputs@[j]).0@);
            assert(!has_slice(spec, settings.outputs@[k].0@));
        }
    }
}

/// Settings that are refused are told why.
pub proof fn refused_settings_are_told_why(
    spec: SlicerSpec,
    parsed: Result<Settings, String>,
    sizes: Seq<(u32, u32)>,
    solved: Seq<Option<String>>,
)
    ensures
        ({
            let told = settings_fault(spec, parsed, sizes, solved);
            let counted = sizes.len() == spec.slices@.len();
            &&& !counted ==> told == Some("output count mismatch"@)
            &&& counted && parsed is Err ==> told == Some(parsed->Err_0@)
            &&& counted && parsed is Ok && (parsed->Ok_0.workers < 1 || parsed->Ok_0.workers > 8)
                ==> told == Some("workers must be in 1..=8"@)
            &&& counted && parsed is Ok && 1 <= parsed->Ok_0.workers <= 8 && stranger_from(
                spec,
                parsed->Ok_0.outputs@,
                0,
            ) is Some ==> told == Some(
                "unknown output "@ + stranger_from(spec, parsed->Ok_0.outputs@, 0)->0,
            )
        }),
{
}

/// An output is refused for its size, for not being its slice one to one, or for pins
/// that cannot be applied, in that order.
pub proof fn refused_outputs_are_told_why(
    spec: SlicerSpec,
    settings: Settings,
    sizes: Seq<(u32, u32)>,
    solved: Seq<Option<String>>,
    i: int,
)
    requires
        0 <= i < spec.slices@.len(),
    ensures
        ({
            let told = output_fault(spec, settings, sizes, solved, i);
            let sized = sizes[i].0 > 0 && sizes[i].1 > 0 && sizes[i].0 * sizes[i].1 <= 33_554_432;
            let unit = sizes[i].0 == spec.slices@[i].source.width && sizes[i].1
                == spec.slices@[i].source.height;
            let pinned = settings.pins_of(spec.slices@[i].output@) is Some;
            &&& !sized ==> told == Some("spike supports nonzero outputs up to 32 megapixels"@)
            &&& sized && !unit ==> told == Some(
                "spike requires unit scale and output size equal to source rectangle"@,
            )
            &&& sized && unit && pinned && solved[i] is Some ==> told == Some(solved[i]->0@)
            &&& sized && unit && (!pinned || solved[i] is None) ==> told is None
        }),
{
}

/// Every output gets the geometry of the pins that are given under its own name, in its
/// own size.
pub proof fn outputs_get_their_own_pins(
    spec: SlicerSpec,
    settings: Settings,
    sizes: Seq<(u32, u32)>,
    i: int,
)
    requires
        0 <= i < spec.slices@.len(),
    ensures
        geometries(spec, settings, sizes).len() == spec.slices@.len(),
        geometries(spec, settings, sizes)[i] == geometry_of(
            pins_from(settings.outputs@, spec.slices@[i].output@, 0),
            sizes[i].0,
            sizes[i].1,
        ),
{
}

/// An output is built again exactly where what is in force is not, bit for bit, the
/// geometry that is wanted.
pub proof fn changed_geometry_is_built_again(
    installed: Seq<Option<Geometry>>,
    geometry: Seq<Geometry>,
    i: int,
)
    requires
        0 <= i < geometry.len(),
    ensures
        differs(installed, geometry, i) <==> !(installed[i] matches Some(held)
            && held.corners.top_left == geometry[i].corners.top_left && held.corners.top_right
            == geometry[i].corners.top_right && held.corners.bottom_right
            == geometry[i].corners.bottom_right && held.corners.bottom_left
            == geometry[i].corners.bottom_left && held.center == geometry[i].center
            && held.force_general == geometry[i].force_general),
{
    if let Some(held) = installed[i] {
        if held.corners.top_left == geometry[i].corners.top_left && held.corners.top_right
            == geometry[i].corners.top_right && held.corners.bottom_right
            == geometry[i].corners.bottom_right && held.corners.bottom_left
            == geometry[i].corners.bottom_left && held.center == geometry[i].center
            && held.force_general == geometry[i].force_general {
            assert(held.corners == geometry[i].corners);
            assert(held == geometry[i]);
        }
    }
}

/// Once what changed is built and installed, every output has the geometry that is
/// wanted.
pub proof fn built_geometry_is_in_force(
    installed: Seq<Option<Geometry>>,
    geometry: Seq<Geometry>,
    outputs: Seq<(usize, Geometry)>,
    n: int,
    i: int,
)
    requires
        installed.len() == geometry.len(),
        0 <= i < geometry.len() <= usize::MAX,
        0 <= n <= outputs.len(),
        forall|k: int|
            0 <= k < n ==> (#[trigger] outputs[k]).0 < geometry.len() && outputs[k].1
                == geometry[outputs[k].0 as int],
    ensures
        shown_after(installed, outputs, n).len() == installed.len(),
        (exists|k: int| 0 <= k < n && (#[trigger] outputs[k]).0 == i) ==> shown_after(
            installed,
            outputs,
            n,
        )[i] == Some(geometry[i]),
        (forall|k: int| 0 <= k < n ==> (#[trigger] outputs[k]).0 != i) ==> shown_after(
            installed,
            outputs,
            n,
        )[i] == installed[i],
    decreases n,
{
    if n > 0 {
        built_geometry_is_in_force(installed, geometry, outputs, n - 1, i);
        if outputs[n - 1].0 != i {
            if exists|k: int| 0 <= k < n && (#[trigger] outputs[k]).0 == i {
                let k = choose|k: int| 0 <= k < n && (#[trigger] outputs[k]).0 == i;
                assert(0 <= k < n - 1 && outputs[k].0 == i);
            }
        }
    }
}

/// The file is read again after ten milliseconds at the soonest, and is no larger than
/// 1024 times 1024 bytes.
pub proof fn files_have_limits()
    ensures
        POLL_INTERVAL == 10_000_000,
        MAX_FILE_BYTES == 1024 * 1024,
{
}

/// The file is read ten milliseconds after it was read last, or later, and never while a
/// build is running.
pub proof fn files_are_read_between_builds(last_read: u64, now: u64)
    ensures
        !is_read_due(true, last_read, now),
        is_read_due(false, last_read, now) <==> now >= last_read + 10_000_000,
{
}

} // verus!
