//! What it means that two slices, or what two tables are built from, are the same.
use crate::config::{CanvasRect, Point, TestPattern};
use crate::model::Rect;
use crate::model_laws::{is_nan, same_number};
use crate::projection::slices::{same_slice, topologies_agree, Geometry, SliceView, SlicerView};
use crate::projection::warp_update::{
    after_build, after_inbox, after_install, after_request, after_start, bad_ramp, build_event,
    changed_from, demands_restart, fault, inbox_events, installed_after, is_changed, is_installable,
    message_fault, newest_seen, request_event, same_key, slice_fault, slices_fault, start_decided,
    update_fault, BuildOrder, BuildResult, BuiltOutput, ControlUpdate, ControllerView, EventView,
    Inbox, KeyView, Prepared, Reader, WarpCheckView, CONTROL_VERSION, MAX_OUTPUTS,
};
use crate::projection::warp_update_laws::{build_covers_what_changed, sparse_build_is_complete};
use vstd::prelude::*;

verus! {

/// Two points lie at the same place, coordinate by coordinate.
pub open spec fn at_one_place(a: Point, b: Point) -> bool {
    same_number(a.x, b.x) && same_number(a.y, b.y)
}

/// Two parts of the canvas are the same, number by number.
pub open spec fn in_one_place(a: CanvasRect, b: CanvasRect) -> bool {
    same_number(a.x, b.x) && same_number(a.y, b.y) && same_number(a.width, b.width)
        && same_number(a.height, b.height)
}

/// Two corrections pin the same places: each corner, and the center.
pub open spec fn pin_the_same(a: Geometry, b: Geometry) -> bool {
    &&& at_one_place(a.corners.top_left, b.corners.top_left)
    &&& at_one_place(a.corners.top_right, b.corners.top_right)
    &&& at_one_place(a.corners.bottom_right, b.corners.bottom_right)
    &&& at_one_place(a.corners.bottom_left, b.corners.bottom_left)
    &&& at_one_place(a.center, b.center)
}

/// A point has numbers for coordinates.
pub open spec fn is_placed(a: Point) -> bool {
    !is_nan(a.x) && !is_nan(a.y)
}

/// Every pin of a correction has numbers for coordinates.
pub open spec fn is_pinned(a: Geometry) -> bool {
    is_placed(a.corners.top_left) && is_placed(a.corners.top_right) && is_placed(
        a.corners.bottom_right,
    ) && is_placed(a.corners.bottom_left) && is_placed(a.center)
}

/// Two slices that compare equal go to the same output, show the same part of the
/// canvas, fade alike, and are pinned at the same places, coordinate by coordinate,
/// where they are warped, which both are or neither is.
pub proof fn equal_slices_agree_in_every_number(a: SliceView, b: SliceView)
    requires
        same_slice(a, b),
    ensures
        a.output == b.output,
        a.source.x == b.source.x && a.source.y == b.source.y && a.source.width == b.source.width
            && a.source.height == b.source.height,
        a.ramps == b.ramps,
        a.source_rect is Some <==> b.source_rect is Some,
        a.source_rect is Some ==> in_one_place(a.source_rect->0, b.source_rect->0),
        a.geometry is Some <==> b.geometry is Some,
        a.geometry is Some ==> pin_the_same(a.geometry->0, b.geometry->0),
{
}

/// Slices that agree in all of that compare equal, as long as what they hold are
/// numbers.
pub proof fn slices_that_agree_are_equal(a: SliceView, b: SliceView)
    requires
        a.output == b.output,
        a.source == b.source,
        a.ramps == b.ramps,
        a.source_rect is Some <==> b.source_rect is Some,
        a.source_rect is Some ==> in_one_place(a.source_rect->0, b.source_rect->0) && !is_nan(
            a.source_rect->0.x,
        ) && !is_nan(a.source_rect->0.y) && !is_nan(a.source_rect->0.width) && !is_nan(
            a.source_rect->0.height,
        ),
        a.geometry is Some <==> b.geometry is Some,
        a.geometry is Some ==> pin_the_same(a.geometry->0, b.geometry->0) && is_pinned(
            a.geometry->0,
        ),
    ensures
        same_slice(a, b),
{
}

/// Two cuts of the canvas can take each other's place live exactly where they agree
/// in the source, the size of the canvas, the pattern, the pace, the renderer, and
/// in where each output lies; the gamma counts only where it is what the pattern
/// shows.
pub proof fn live_cuts_differ_in_live_settings_alone(a: SlicerView, b: SlicerView)
    ensures
        topologies_agree(a, b) <==> {
            &&& a.source == b.source
            &&& a.canvas_width == b.canvas_width && a.canvas_height == b.canvas_height
            &&& a.pattern == b.pattern
            &&& a.free_run == b.free_run
            &&& a.renderer == b.renderer
            &&& a.slices.len() == b.slices.len()
            &&& forall|i: int|
                0 <= i < a.slices.len() ==> (#[trigger] a.slices[i]).output == b.slices[i].output
                    && a.slices[i].source == b.slices[i].source
            &&& a.pattern == Some(TestPattern::Gamma) ==> a.gamma.bits == b.gamma.bits
        },
{
    if a.gamma.bits == b.gamma.bits {
        assert(a.gamma == b.gamma);
    }
    if topologies_agree(a, b) {
        assert forall|i: int| 0 <= i < a.slices.len() implies (#[trigger] a.slices[i]).output
            == b.slices[i].output && a.slices[i].source == b.slices[i].source by {
            let _ = b.slices[i];
        }
    }
}

/// What a table was built from compares equal only where the slice is the same in
/// every number, and so are the gamma and the lift.
pub proof fn equal_keys_agree_in_every_number(a: KeyView, b: KeyView)
    requires
        same_key(a, b),
    ensures
        same_number(a.gamma, b.gamma),
        same_number(a.lift, b.lift),
        a.slice.output == b.slice.output,
        a.slice.source == b.slice.source,
        a.slice.ramps == b.slice.ramps,
        a.slice.source_rect is Some <==> b.slice.source_rect is Some,
        a.slice.source_rect is Some ==> in_one_place(
            a.slice.source_rect->0,
            b.slice.source_rect->0,
        ),
        a.slice.geometry is Some <==> b.slice.geometry is Some,
        a.slice.geometry is Some ==> pin_the_same(a.slice.geometry->0, b.slice.geometry->0),
{
    equal_slices_agree_in_every_number(a.slice, b.slice);
}

/// A table is made from the slice, the gamma and the lift that were asked for; pins
/// that move nothing are left out.
pub proof fn tables_are_made_from_what_was_asked(
    state: ControllerView,
    update: ControlUpdate,
    checks: Seq<WarpCheckView>,
    i: int,
)
    requires
        request_event(state, update, checks).1 is Accepted,
        0 <= i < update.spec.deep_view().slices.len(),
    ensures
        ({
            let asked = update.spec.deep_view();
            let pending = after_request(state, update, checks).pending;
            let key = pending->0.keys[i];
            &&& pending is Some
            &&& pending->0.generation == update.generation
            &&& pending->0.spec == asked
            &&& pending->0.keys.len() == asked.slices.len()
            &&& key.gamma == asked.gamma
            &&& key.lift == asked.black_lift
            &&& key.slice.output == asked.slices[i].output
            &&& key.slice.source == asked.slices[i].source
            &&& key.slice.source_rect == asked.slices[i].source_rect
            &&& key.slice.ramps == asked.slices[i].ramps
            &&& checks[i] is Identity ==> key.slice.geometry is None
            &&& !(checks[i] is Identity) ==> key.slice.geometry == asked.slices[i].geometry
        }),
{
}

/// Once what an accepted update owes is built and installed, every output is pinned,
/// coordinate by coordinate, where the update asked for it, and cut, faded, bent and
/// lifted as it asked; an output whose pins move nothing is not pinned.
pub proof fn installed_pins_are_the_wanted_ones(
    state: ControllerView,
    update: ControlUpdate,
    checks: Seq<WarpCheckView>,
    outputs: Seq<BuiltOutput>,
    i: int,
)
    requires
        request_event(state, update, checks).1 is Accepted,
        state.installed.len() == update.spec.deep_view().slices.len(),
        0 <= i < state.installed.len(),
        outputs.map_values(|output: BuiltOutput| output.index as int) == changed_from(
            state.installed,
            after_request(state, update, checks).pending->0.keys,
            0,
        ),
        forall|k: int|
            0 <= k < outputs.len() ==> (#[trigger] outputs[k]).key.deep_view() == after_request(
                state,
                update,
                checks,
            ).pending->0.keys[outputs[k].index as int],
    ensures
        ({
            let asked = update.spec.deep_view();
            let wanted = asked.slices[i];
            let installed = installed_after(state.installed, outputs, outputs.len() as int)[i];
            let key = installed->0;
            &&& installed is Some
            &&& key.slice.output == wanted.output
            &&& key.slice.source == wanted.source
            &&& key.slice.ramps == wanted.ramps
            &&& same_number(key.gamma, asked.gamma)
            &&& same_number(key.lift, asked.black_lift)
            &&& key.slice.source_rect is Some <==> wanted.source_rect is Some
            &&& key.slice.source_rect is Some ==> in_one_place(
                key.slice.source_rect->0,
                wanted.source_rect->0,
            )
            &&& key.slice.geometry is Some <==> wanted.geometry is Some && !(checks[i] is Identity)
            &&& key.slice.geometry is Some ==> pin_the_same(
                key.slice.geometry->0,
                wanted.geometry->0,
            )
        }),
{
    let keys = after_request(state, update, checks).pending->0.keys;
    tables_are_made_from_what_was_asked(state, update, checks, i);
    sparse_build_is_complete(state.installed, keys, outputs, i);
    if !is_changed(state.installed, keys, i) {
        equal_keys_agree_in_every_number(state.installed[i]->0, keys[i]);
    }
}

/// An output whose pins, cut, fades, gamma or lift the update leaves alone is not
/// built again, and one in which a single coordinate moves is.
pub proof fn moved_pins_are_built_again(
    installed: Seq<Option<KeyView>>,
    keys: Seq<KeyView>,
    i: int,
)
    requires
        0 <= i < keys.len(),
        installed.len() == keys.len(),
        installed[i] is Some,
    ensures
        installed[i]->0.slice.geometry is Some && keys[i].slice.geometry is Some && !pin_the_same(
            installed[i]->0.slice.geometry->0,
            keys[i].slice.geometry->0,
        ) ==> is_changed(installed, keys, i),
        installed[i]->0.slice.geometry is Some != keys[i].slice.geometry is Some ==> is_changed(
            installed,
            keys,
            i,
        ),
        installed[i]->0.slice.ramps != keys[i].slice.ramps ==> is_changed(installed, keys, i),
        installed[i]->0.slice.source != keys[i].slice.source ==> is_changed(installed, keys, i),
        !same_number(installed[i]->0.gamma, keys[i].gamma) ==> is_changed(installed, keys, i),
        !same_number(installed[i]->0.lift, keys[i].lift) ==> is_changed(installed, keys, i),
        installed[i] == Some(keys[i]) && !is_nan(keys[i].gamma) && !is_nan(keys[i].lift) && (
        keys[i].slice.geometry is Some ==> is_pinned(keys[i].slice.geometry->0))
            && keys[i].slice.source_rect is None ==> !is_changed(installed, keys, i),
{
    if !is_changed(installed, keys, i) {
        equal_keys_agree_in_every_number(installed[i]->0, keys[i]);
    }
}

/// A rectangle has an area, and its far edges can be counted with.
pub open spec fn is_usable(rect: Rect) -> bool {
    rect.width > 0 && rect.height > 0 && rect.x + rect.width <= 2_147_483_647 && rect.y
        + rect.height <= 2_147_483_647
}

/// Nothing is wrong with the slice at `i`: no earlier slice goes to its output, the
/// output has pixels but no more than 32 times 1024 times 1024, the source can be
/// used, pins are applied only one pixel to one and where they can be, and there are
/// at most 64 ramps, each of which can be used.
pub open spec fn is_sound_slice(
    slices: Seq<SliceView>,
    size: (u32, u32),
    check: WarpCheckView,
    i: int,
) -> bool {
    &&& forall|j: int| 0 <= j < i ==> (#[trigger] slices[j]).output != slices[i].output
    &&& size.0 > 0 && size.1 > 0 && size.0 * size.1 <= 33_554_432
    &&& is_usable(slices[i].source)
    &&& slices[i].geometry is Some ==> size.0 == slices[i].source.width && size.1
        == slices[i].source.height && !(check is Invalid)
    &&& slices[i].ramps.len() <= 64
    &&& forall|k: int|
        0 <= k < slices[i].ramps.len() ==> is_usable((#[trigger] slices[i].ramps[k]).rect)
}

/// Nothing is wrong with a cut: at most eight outputs, one for each slice, a canvas
/// with an area, a gamma above zero, a lift from zero to one half, and sound slices.
pub open spec fn is_sound_cut(
    spec: SlicerView,
    sizes: Seq<(u32, u32)>,
    checks: Seq<WarpCheckView>,
) -> bool {
    &&& sizes.len() <= 8
    &&& sizes.len() == spec.slices.len()
    &&& spec.canvas_width > 0 && spec.canvas_height > 0
    &&& 0 < spec.gamma.bits < 0x7ff0_0000_0000_0000
    &&& spec.black_lift.bits <= 0x3fe0_0000_0000_0000 || spec.black_lift.bits
        == 0x8000_0000_0000_0000
    &&& forall|i: int|
        0 <= i < spec.slices.len() ==> is_sound_slice(
            spec.slices,
            #[trigger] sizes[i],
            checks[i],
            i,
        )
}

proof fn lemma_slice(
    slices: Seq<SliceView>,
    size: (u32, u32),
    check: WarpCheckView,
    i: int,
)
    requires
        0 <= i < slices.len(),
    ensures
        slice_fault(slices, size, check, i) is None
            <==> is_sound_slice(slices, size, check, i),
{
    if is_sound_slice(slices, size, check, i) {
        assert forall|k: int| 0 <= k < slices[i].ramps.len() implies is_usable(
            (#[trigger] slices[i].ramps[k]).rect,
        ) by {}
    }
    if slice_fault(slices, size, check, i) is None {
        assert forall|j: int| 0 <= j < i implies (#[trigger] slices[j]).output
            != slices[i].output by {
            if slices[j].output =~= slices[i].output {
                assert(slices[j].output == slices[i].output);
            }
        }
        assert forall|k: int| 0 <= k < slices[i].ramps.len() implies is_usable(
            (#[trigger] slices[i].ramps[k]).rect,
        ) by {}
    }
}

proof fn lemma_slices(
    spec: SlicerView,
    sizes: Seq<(u32, u32)>,
    checks: Seq<WarpCheckView>,
    from: int,
)
    requires
        0 <= from <= spec.slices.len(),
        sizes.len() == spec.slices.len(),
    ensures
        slices_fault(spec, sizes, checks, from) is None <==> forall|i: int|
            from <= i < spec.slices.len() ==> is_sound_slice(
                spec.slices,
                #[trigger] sizes[i],
                checks[i],
                i,
            ),
    decreases spec.slices.len() - from,
{
    if from < spec.slices.len() {
        lemma_slice(spec.slices, sizes[from], checks[from], from);
        lemma_slices(spec, sizes, checks, from + 1);
        if slices_fault(spec, sizes, checks, from) is None {
            assert forall|i: int| from <= i < spec.slices.len() implies is_sound_slice(
                spec.slices,
                #[trigger] sizes[i],
                checks[i],
                i,
            ) by {
                if i > from {
                    let _ = sizes[i];
                }
            }
        } else if slice_fault(
            spec.slices,
            sizes[from],
            checks[from],
            from,
        ) is Some {
            assert(!is_sound_slice(spec.slices, sizes[from], checks[from], from));
        } else {
            let i = choose|i: int|
                from + 1 <= i < spec.slices.len() && !is_sound_slice(
                    spec.slices,
                    #[trigger] sizes[i],
                    checks[i],
                    i,
                );
            assert(!is_sound_slice(spec.slices, sizes[i], checks[i], i));
        }
    }
}

/// A cut is taken exactly where nothing is wrong with it.
pub proof fn sound_cuts_are_taken(
    spec: SlicerView,
    sizes: Seq<(u32, u32)>,
    checks: Seq<WarpCheckView>,
)
    ensures
        fault(spec, sizes, checks) is None <==> is_sound_cut(spec, sizes, checks),
{
    if sizes.len() == spec.slices.len() {
        lemma_slices(spec, sizes, checks, 0);
    }
}

/// A cut is refused with what is wrong with it as a whole.
pub proof fn refused_cuts_are_told_why(
    spec: SlicerView,
    sizes: Seq<(u32, u32)>,
    checks: Seq<WarpCheckView>,
)
    ensures
        sizes.len() > 8 ==> fault(spec, sizes, checks) == Some(
            "at most eight outputs are supported"@,
        ),
        sizes.len() <= 8 && sizes.len() != spec.slices.len() ==> fault(spec, sizes, checks) == Some(
            "output count mismatch"@,
        ),
        sizes.len() <= 8 && sizes.len() == spec.slices.len() && (spec.canvas_width <= 0
            || spec.canvas_height <= 0 || spec.gamma.bits == 0 || spec.gamma.bits
            >= 0x7ff0_0000_0000_0000 || (spec.black_lift.bits > 0x3fe0_0000_0000_0000
            && spec.black_lift.bits != 0x8000_0000_0000_0000)) ==> fault(spec, sizes, checks)
            == Some("invalid canvas, gamma or fixed lift"@),
{
}

/// A cut that is sound as a whole is refused with what is wrong with its first slice
/// that is not.
pub proof fn refused_slices_are_told_why(
    spec: SlicerView,
    sizes: Seq<(u32, u32)>,
    checks: Seq<WarpCheckView>,
    i: int,
)
    requires
        sizes.len() <= 8,
        sizes.len() == spec.slices.len(),
        spec.canvas_width > 0 && spec.canvas_height > 0,
        0 < spec.gamma.bits < 0x7ff0_0000_0000_0000,
        spec.black_lift.bits <= 0x3fe0_0000_0000_0000,
        0 <= i < spec.slices.len(),
        forall|j: int|
            0 <= j < i ==> is_sound_slice(spec.slices, #[trigger] sizes[j], checks[j], j),
    ensures
        ({
            let told = fault(spec, sizes, checks);
            let slice = spec.slices[i];
            let size = sizes[i];
            let double = exists|j: int|
                0 <= j < i && (#[trigger] spec.slices[j]).output == slice.output;
            let unsized_output = size.0 == 0 || size.1 == 0 || size.0 * size.1 > 33_554_432;
            let scaled = size.0 != slice.source.width || size.1 != slice.source.height;
            &&& double ==> told == Some("duplicate output"@)
            &&& !double && unsized_output ==> told == Some(
                "outputs must be nonzero and at most 32 megapixels"@,
            )
            &&& !double && !unsized_output && !is_usable(slice.source) ==> told == Some(
                "invalid source size"@,
            )
            &&& !double && !unsized_output && is_usable(slice.source) && slice.geometry is Some
                && scaled ==> told == Some("warp requires unit source density"@)
            &&& !double && !unsized_output && is_usable(slice.source) && slice.geometry is Some
                && !scaled && checks[i] is Invalid ==> told == Some(checks[i]->Invalid_0)
            &&& !double && !unsized_output && is_usable(slice.source) && slice.geometry is None
                && slice.ramps.len() > 64 ==> told == Some(
                "at most 64 ramps per output are supported"@,
            )
            &&& !double && !unsized_output && is_usable(slice.source) && slice.geometry is None
                && slice.ramps.len() <= 64 && (exists|k: int|
                0 <= k < slice.ramps.len() && !is_usable((#[trigger] slice.ramps[k]).rect))
                ==> told == Some("invalid ramp rectangle"@)
        }),
{
    lemma_first_fault(spec, sizes, checks, 0, i);
    lemma_slice(spec.slices, sizes[i], checks[i], i);
    let slice = spec.slices[i];
    if exists|k: int| 0 <= k < slice.ramps.len() && !is_usable((#[trigger] slice.ramps[k]).rect) {
        assert(bad_ramp(slice)) by {
            let k = choose|k: int|
                0 <= k < slice.ramps.len() && !is_usable((#[trigger] slice.ramps[k]).rect);
            let rect = slice.ramps[k].rect;
            assert(rect.width <= 0 || rect.height <= 0 || rect.x + rect.width > i32::MAX || rect.y
                + rect.height > i32::MAX);
        }
    }
}

proof fn lemma_first_fault(
    spec: SlicerView,
    sizes: Seq<(u32, u32)>,
    checks: Seq<WarpCheckView>,
    from: int,
    i: int,
)
    requires
        sizes.len() == spec.slices.len(),
        0 <= from <= i < spec.slices.len(),
        forall|j: int|
            from <= j < i ==> is_sound_slice(spec.slices, #[trigger] sizes[j], checks[j], j),
    ensures
        slices_fault(spec, sizes, checks, from) == slices_fault(spec, sizes, checks, i),
    decreases i - from,
{
    if from < i {
        lemma_slice(spec.slices, sizes[from], checks[from], from);
        assert(is_sound_slice(spec.slices, sizes[from], checks[from], from));
        lemma_first_fault(spec, sizes, checks, from + 1, i);
    }
}

/// An update is refused for the first of these that holds: it speaks another version
/// of the messages, to another session, is no newer than what was asked before, or
/// needs a restart.
pub proof fn refused_updates_are_told_why(
    state: ControllerView,
    version: u32,
    session: Seq<char>,
    generation: u64,
    spec: SlicerView,
)
    ensures
        ({
            let told = update_fault(state, version, session, generation, spec);
            let own = session == state.spec.control_session;
            &&& version != 1 ==> told == Some("control version mismatch; restart required"@)
            &&& version == 1 && !own ==> told == Some("control session mismatch"@)
            &&& version == 1 && own && generation <= state.requested_generation ==> told == Some(
                "generation must increase"@,
            )
            &&& version == 1 && own && generation > state.requested_generation
                && !topologies_agree(state.spec, spec) ==> told == Some(
                "topology changed; restart required"@,
            )
            &&& version == 1 && own && generation > state.requested_generation
                && topologies_agree(state.spec, spec) ==> told is None
        }),
{
}

/// The reader refuses for the same reasons, but for what needs a restart.
pub proof fn refused_messages_are_told_why(reader: Reader, update: ControlUpdate)
    ensures
        ({
            let told = message_fault(reader, update);
            let own = update.session@ == reader.session@;
            &&& update.version != 1 ==> told == Some("control version mismatch; restart required"@)
            &&& update.version == 1 && !own ==> told == Some("control session mismatch"@)
            &&& update.version == 1 && own && update.generation <= reader.newest_generation
                ==> told == Some("generation must increase"@)
            &&& update.version == 1 && own && update.generation > reader.newest_generation
                ==> told is None
        }),
{
}

/// Every answer to an update carries the update's own generation, and a refusal the
/// reason.
pub proof fn answers_carry_their_generation(
    state: ControllerView,
    update: ControlUpdate,
    checks: Seq<WarpCheckView>,
)
    ensures
        request_event(state, update, checks).0 == update.generation,
        match request_event(state, update, checks).1 {
            EventView::Accepted => after_request(state, update, checks).pending is Some,
            EventView::Rejected { reason } => update_fault(
                state,
                update.version,
                update.session@,
                update.generation,
                update.spec.deep_view(),
            ) == Some(reason) || fault(update.spec.deep_view(), state.sizes, checks) == Some(
                reason,
            ),
            _ => false,
        },
        after_request(state, update, checks) == (ControllerView {
            pending: after_request(state, update, checks).pending,
            requested_generation: after_request(state, update, checks).requested_generation,
            restart_required: after_request(state, update, checks).restart_required,
            ..state
        }),
{
}

/// A build that ends tells of itself: of the outputs that it built, in its own
/// generation; that it came too late; or why it failed, in the generation that was
/// being built. It is installed exactly where it did not come too late.
pub proof fn builds_tell_how_they_ended(state: ControllerView, result: BuildResult)
    ensures
        match result {
            BuildResult::Finished(prepared) => {
                &&& is_installable(state, result) <==> prepared.generation
                    >= state.installed_generation
                &&& build_event(state, result).0 == prepared.generation
                &&& prepared.generation < state.installed_generation ==> build_event(state, result).1
                    == EventView::Rejected { reason: "stale build"@ }
                &&& prepared.generation >= state.installed_generation ==> (build_event(
                    state,
                    result,
                ).1 matches EventView::Built { outputs } && outputs.len()
                    == prepared.outputs@.len() && forall|i: int|
                    0 <= i < outputs.len() ==> #[trigger] outputs[i]
                        == prepared.outputs@[i].key.slice.output@)
            },
            BuildResult::Failed(reason) => !is_installable(state, result) && build_event(
                state,
                result,
            ) == (state.building->0, EventView::Rejected { reason: reason@ }),
            BuildResult::WorkerLost => !is_installable(state, result) && build_event(state, result)
                == (
                state.building->0,
                EventView::Rejected { reason: "table worker terminated"@ },
            ),
        },
{
}

/// Installing a build puts its generation in force and changes nothing but that and
/// the tables that it brings.
pub proof fn installing_puts_the_generation_in_force(state: ControllerView, prepared: Prepared)
    ensures
        after_install(state, prepared).installed_generation == prepared.generation,
        after_install(state, prepared) == (ControllerView {
            installed: after_install(state, prepared).installed,
            installed_generation: prepared.generation,
            ..state
        }),
{
}

/// Only one build runs at a time: what waits is built only when none runs, then in
/// its own generation, and waits no more.
pub proof fn one_build_runs_at_a_time(state: ControllerView)
    ensures
        state.building is Some ==> after_start(state) == state,
        state.pending is None ==> after_start(state) == state,
        state.building is None && state.pending is Some ==> after_start(state) == (ControllerView {
            pending: None,
            building: Some(state.pending->0.generation),
            ..state
        }),
{
}

/// What is told after reading: first the failure, then the end of the messages, which
/// is told once, then the answer to the newest update.
pub proof fn readings_are_told_in_order(
    state: ControllerView,
    inbox: Inbox,
    checks: Seq<WarpCheckView>,
)
    ensures
        ({
            let told = inbox_events(state, inbox, checks);
            let failed: int = if inbox.failure is Some {
                1
            } else {
                0
            };
            let closing: int = if inbox.closed && !state.closed_reported {
                1
            } else {
                0
            };
            &&& told.len() == failed + closing + (if inbox.newest is Some {
                1int
            } else {
                0
            })
            &&& inbox.failure matches Some((generation, reason)) ==> told[0] == (
                generation,
                EventView::Rejected { reason: reason@ },
            )
            &&& closing == 1 ==> told[failed] == (state.requested_generation, EventView::Closed)
            &&& inbox.newest matches Some(update) ==> told.last().0 == update.generation && (
            told.last().1 is Accepted || told.last().1 is Rejected)
            &&& after_inbox(state, inbox, checks).closed_reported == (state.closed_reported
                || inbox.closed)
            &&& inbox.newest is None ==> after_inbox(state, inbox, checks).restart_required == (
            state.restart_required || inbox.restart_required)
            &&& inbox.newest is None ==> after_inbox(state, inbox, checks).pending == state.pending
            &&& after_inbox(state, inbox, checks).installed == state.installed
            &&& after_inbox(state, inbox, checks).building == state.building
        }),
{
}

/// Messages of version 1 are understood, and at most eight outputs are built at once.
pub proof fn live_edits_have_limits()
    ensures
        CONTROL_VERSION == 1,
        MAX_OUTPUTS == 8,
{
}

/// What is ordered to be built is what waits, for exactly the outputs whose table is not
/// the wanted one; it is ordered only where something waits and nothing is being built.
pub proof fn what_waits_is_ordered(
    order: Option<BuildOrder>,
    before: ControllerView,
    after: ControllerView,
    i: int,
)
    requires
        start_decided(order, before, after),
        before.wf(),
        0 <= i < before.installed.len(),
    ensures
        order is Some <==> before.building is None && before.pending is Some,
        order is None ==> after == before,
        order matches Some(order) ==> {
            let wanted = before.pending->0;
            &&& order.request.generation == wanted.generation
            &&& order.request.spec.deep_view() == wanted.spec
            &&& order.request.keys.deep_view() == wanted.keys
            &&& after.building == Some(wanted.generation)
            &&& after.pending is None
            &&& after == (ControllerView {
                building: after.building,
                pending: after.pending,
                ..before
            })
            &&& (exists|k: int| 0 <= k < order.indices@.len() && #[trigger] order.indices@[k] == i)
                <==> (before.installed[i] is None || !same_key(
                before.installed[i]->0,
                wanted.keys[i],
            ))
        },
{
    if let Some(order) = order {
        let indices = order.indices@.map_values(|i: usize| i as int);
        let changed = changed_from(before.installed, before.pending->0.keys, 0);
        build_covers_what_changed(before.installed, before.pending->0.keys, 0, i);
        if exists|k: int| 0 <= k < order.indices@.len() && #[trigger] order.indices@[k] == i {
            let k = choose|k: int|
                0 <= k < order.indices@.len() && #[trigger] order.indices@[k] == i;
            assert(indices[k] == i);
            assert(changed.contains(i));
        }
        if changed.contains(i) {
            let k = choose|k: int| 0 <= k < changed.len() && changed[k] == i;
            assert(indices[k] == i);
            assert(order.indices@[k] == i);
        }
    }
}

/// A build that ended leaves room for the next, and changes nothing else.
pub proof fn ended_builds_leave_room(state: ControllerView)
    ensures
        after_build(state) == (ControllerView { building: None, ..state }),
{
}

/// The newest generation that a reader has seen never goes back; a message to its session
/// uses its generation up, and one to another none; a restart is demanded by a message to
/// its session in another version, and by no other.
pub proof fn readers_remember_the_newest(reader: Reader, update: ControlUpdate)
    ensures
        newest_seen(reader, update) >= reader.newest_generation,
        update.session@ == reader.session@ ==> newest_seen(reader, update) >= update.generation,
        newest_seen(reader, update) == reader.newest_generation || newest_seen(reader, update)
            == update.generation,
        update.session@ != reader.session@ ==> newest_seen(reader, update)
            == reader.newest_generation,
        demands_restart(reader, update) <==> update.session@ == reader.session@ && update.version
            != 1,
{
}

} // verus!
