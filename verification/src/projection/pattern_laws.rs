//! What test patterns light.
use crate::config::CanvasRect;
use crate::model::Rect;
use crate::model_laws::same_number;
use crate::projection::blend::{pixel_at, pixel_fits};
use crate::projection::blend_laws::{is_corrected, shading_corrects};
use crate::projection::static_pattern::{
    canvases_fit, holds_picture, picture_fault, shows_raster, MAX_CANVAS_PIXELS,
};
use crate::projection::sync_pattern::{
    all_rects, in_any, packed, packed_group, packed_len, rows_held, SyncGroup, SyncPaint, SyncRect,
};
use crate::reals::{signed_whole, whole_equals_itself};
use vstd::prelude::*;
use vstd::string::*;

verus! {

/// A pixel lies in some rectangle: from its left edge to before its right one, and from
/// its upper edge to before its lower one.
pub open spec fn is_lit(rects: Seq<SyncRect>, x: int, y: int) -> bool {
    exists|i: int|
        0 <= i < rects.len() && (#[trigger] rects[i]).x0 <= x && x < rects[i].x1 && rects[i].y0 <= y
            && y < rects[i].y1
}

proof fn lemma_lit(rects: Seq<SyncRect>, x: int, y: int)
    ensures
        in_any(rects, x, y) <==> is_lit(rects, x, y),
{
    if in_any(rects, x, y) {
        let i = choose|i: int| 0 <= i < rects.len() && #[trigger] rects[i].holds(x, y);
        assert(rects[i].x0 <= x);
    }
    if is_lit(rects, x, y) {
        let i = choose|i: int|
            0 <= i < rects.len() && (#[trigger] rects[i]).x0 <= x && x < rects[i].x1 && rects[i].y0
                <= y && y < rects[i].y1;
        assert(rects[i].holds(x, y));
    }
}

/// Of the counter that is drawn, the pixels in its rectangles are white and all others
/// black, after the correction for each; every pixel is gray and opaque.
pub proof fn counter_lights_its_rectangles(
    paint: SyncPaint,
    bytes: Seq<u8>,
    first: int,
    count: int,
    x: int,
    y: int,
)
    requires
        paint.is_band(bytes, first, count),
        bytes.len() >= count * paint.width * 4,
        0 <= first,
        0 <= x < paint.width,
        0 <= y < count,
    ensures
        ({
            let to = (y * paint.width + x) * 4;
            let at = (first + y) * paint.width + x;
            let light: u8 = if is_lit(paint.rects@, x, first + y) {
                255
            } else {
                0
            };
            &&& at < paint.transfer@.len() ==> is_corrected(
                bytes[to],
                light,
                paint.transfer@[at],
            )
            &&& at >= paint.transfer@.len() ==> bytes[to] == light
            &&& bytes[to + 1] == bytes[to] && bytes[to + 2] == bytes[to]
            &&& bytes[to + 3] == 255
        }),
{
    pixel_fits(paint.width as int, count, x, y);
    lemma_lit(paint.rects@, x, first + y);
    let to = (y * paint.width + x) * 4;
    let at = (first + y) * paint.width + x;
    assert(0 <= at) by (nonlinear_arith)
        requires
            at == (first + y) * paint.width + x,
            first >= 0,
            y >= 0,
            x >= 0,
            paint.width >= 0,
    ;
    let shown = pixel_at(bytes, paint.width as int, x, y);
    assert(shown == paint.output_at(x, first + y));
    assert(shown[0] == bytes[to] && shown[1] == bytes[to + 1] && shown[2] == bytes[to + 2]
        && shown[3] == bytes[to + 3]);
    let light: u8 = if is_lit(paint.rects@, x, first + y) {
        255
    } else {
        0
    };
    if at < paint.transfer@.len() {
        shading_corrects(paint.transfer@[at].0, paint.transfer@[at].1, light);
    } else {
        shading_corrects(256, 0, light);
    }
}

/// A pixel is lit by all the groups together exactly where one of them has a rectangle
/// that it lies in.
pub proof fn all_groups_light_their_rectangles(groups: Seq<SyncGroup>, n: int, x: int, y: int)
    requires
        0 <= n <= groups.len(),
    ensures
        is_lit(all_rects(groups, n), x, y) <==> exists|g: int|
            0 <= g < n && is_lit((#[trigger] groups[g]).rects@, x, y),
    decreases n,
{
    if n > 0 {
        all_groups_light_their_rectangles(groups, n - 1, x, y);
        let before = all_rects(groups, n - 1);
        let own = groups[n - 1].rects@;
        let all = all_rects(groups, n);
        if is_lit(all, x, y) {
            let i = choose|i: int|
                0 <= i < all.len() && (#[trigger] all[i]).x0 <= x && x < all[i].x1 && all[i].y0 <= y
                    && y < all[i].y1;
            if i < before.len() {
                assert(before[i] == all[i]);
                assert(is_lit(before, x, y));
            } else {
                assert(own[i - before.len()] == all[i]);
                assert(is_lit(groups[n - 1].rects@, x, y));
            }
        }
        if exists|g: int| 0 <= g < n && is_lit((#[trigger] groups[g]).rects@, x, y) {
            let g = choose|g: int| 0 <= g < n && is_lit((#[trigger] groups[g]).rects@, x, y);
            if g < n - 1 {
                assert(is_lit(before, x, y));
                let i = choose|i: int|
                    0 <= i < before.len() && (#[trigger] before[i]).x0 <= x && x < before[i].x1
                        && before[i].y0 <= y && y < before[i].y1;
                assert(all[i] == before[i]);
            } else {
                let i = choose|i: int|
                    0 <= i < own.len() && (#[trigger] own[i]).x0 <= x && x < own[i].x1 && own[i].y0
                        <= y && y < own[i].y1;
                assert(all[before.len() + i] == own[i]);
            }
        }
    }
}

/// A group is handed to the graphics card as its bounds, its count of rectangles with
/// the place of the next group, and its rectangles, each as its left, upper, right and
/// lower edge.
pub proof fn groups_are_handed_over_edge_by_edge(group: SyncGroup, next: int, r: int)
    requires
        0 <= next <= u32::MAX,
        group.rects@.len() <= u32::MAX,
        0 <= r < group.rects@.len(),
    ensures
        ({
            let items = packed_group(group, next);
            &&& items.len() == group.rects@.len() + 2
            &&& items[0][0] == group.bounds.x0 && items[0][1] == group.bounds.y0
            &&& items[0][2] == group.bounds.x1 && items[0][3] == group.bounds.y1
            &&& items[1][0] == group.rects@.len() && items[1][1] == next
            &&& items[2 + r][0] == group.rects@[r].x0 && items[2 + r][1] == group.rects@[r].y0
            &&& items[2 + r][2] == group.rects@[r].x1 && items[2 + r][3] == group.rects@[r].y1
        }),
{
}

/// The groups are handed over one behind the other, and each says where the next one
/// begins.
pub proof fn groups_follow_one_another(groups: Seq<SyncGroup>, n: int)
    requires
        0 < n <= groups.len(),
        packed_len(groups, n) <= u32::MAX,
    ensures
        packed(groups, n).len() == packed_len(groups, n),
        packed_len(groups, n) == packed_len(groups, n - 1) + 2 + groups[n - 1].rects@.len(),
        packed(groups, n)[packed_len(groups, n - 1) + 1][1] == packed_len(groups, n),
        packed(groups, n).subrange(0, packed_len(groups, n - 1)) == packed(groups, n - 1),
{
    lemma_packed_len(groups, n - 1);
    lemma_packed_len(groups, n);
    let before = packed(groups, n - 1);
    let own = packed_group(groups[n - 1], packed_len(groups, n));
    assert(packed(groups, n)[before.len() as int + 1] == own[1]);
    assert(packed(groups, n).subrange(0, packed_len(groups, n - 1)) =~= before);
}

proof fn lemma_packed_len(groups: Seq<SyncGroup>, n: int)
    requires
        0 <= n <= groups.len(),
    ensures
        packed(groups, n).len() == packed_len(groups, n),
        packed_len(groups, n) >= 0,
    decreases n,
{
    if n > 0 {
        lemma_packed_len(groups, n - 1);
    }
}

/// A canvas that holds a picture shows it at its rectangle, pixel for pixel, and is
/// black everywhere else; every pixel is opaque.
pub proof fn canvas_shows_the_picture_in_its_place(
    canvas: Seq<u8>,
    canvas_width: i32,
    canvas_height: i32,
    rect: Rect,
    picture: Seq<u8>,
    x: int,
    y: int,
)
    requires
        holds_picture(canvas, canvas_width, canvas_height, rect, picture),
        0 <= x < canvas_width,
        0 <= y < canvas_height,
    ensures
        ({
            let to = (y * canvas_width + x) * 4;
            let from = ((y - rect.y) * rect.width + (x - rect.x)) * 3;
            let inside = rect.x <= x && x < rect.x + rect.width && rect.y <= y && y < rect.y
                + rect.height;
            &&& inside ==> canvas[to] == picture[from] && canvas[to + 1] == picture[from + 1]
                && canvas[to + 2] == picture[from + 2]
            &&& !inside ==> canvas[to] == 0 && canvas[to + 1] == 0 && canvas[to + 2] == 0
            &&& canvas[to + 3] == 255
        }),
{
    let width = canvas_width as int;
    let height = canvas_height as int;
    pixel_fits(width, height, x, y);
    assert(width * height == height * width) by (nonlinear_arith);
    let to = (y * width + x) * 4;
    let shown = pixel_at(canvas, width, x, y);
    assert(shown[0] == canvas[to] && shown[1] == canvas[to + 1] && shown[2] == canvas[to + 2]
        && shown[3] == canvas[to + 3]);
}

/// A picture is drawn where the canvas has pixels but no more than 64 million, and the
/// picture has pixels but no more than 32 million; otherwise what is wrong is told.
pub proof fn pictures_are_refused_with_a_reason(canvas_width: i32, canvas_height: i32, rect: Rect)
    ensures
        ({
            let told = picture_fault(canvas_width, canvas_height, rect);
            let canvas = canvas_width > 0 && canvas_height > 0 && canvas_width * canvas_height
                <= 64_000_000;
            let area = rect.width > 0 && rect.height > 0;
            &&& !canvas ==> told == Some("invalid static canvas dimensions"@)
            &&& canvas && !area ==> told == Some("invalid static pattern source rectangle"@)
            &&& canvas && area && rect.width * rect.height > 32_000_000 ==> told == Some(
                "static pattern output exceeds the 32 megapixel limit"@,
            )
            &&& canvas && area && rect.width * rect.height <= 32_000_000 ==> told is None
        }),
{
}

/// A slice shows its raster as it is where no other part of the canvas is given for it,
/// or the part that is given is the raster, number by number.
pub proof fn rasters_are_shown_as_they_are(rect: Rect, source: CanvasRect)
    ensures
        shows_raster(rect, None),
        shows_raster(rect, Some(source)) <==> same_number(source.x, signed_whole(rect.x))
            && same_number(source.y, signed_whole(rect.y)) && same_number(
            source.width,
            signed_whole(rect.width),
        ) && same_number(source.height, signed_whole(rect.height)),
{
    whole_equals_itself(rect.x);
    whole_equals_itself(rect.y);
    whole_equals_itself(rect.width);
    whole_equals_itself(rect.height);
}

/// All canvases of a picture together have at most 64 million pixels.
pub proof fn canvases_have_a_limit()
    ensures
        MAX_CANVAS_PIXELS == 64_000_000,
{
}

/// Canvases can be made exactly where they have an area and all of them together have at
/// most 64 million pixels; for fewer outputs where they can for more.
pub proof fn canvases_fit_within_the_limit(width: int, height: int, outputs: int, fewer: int)
    requires
        0 <= fewer <= outputs,
    ensures
        canvases_fit(width, height, outputs) <==> width > 0 && height > 0 && width * height * outputs
            <= 64_000_000,
        canvases_fit(width, height, outputs) ==> canvases_fit(width, height, fewer),
{
    if width > 0 && height > 0 {
        assert(width * height * fewer <= width * height * outputs) by (nonlinear_arith)
            requires
                width > 0,
                height > 0,
                0 <= fewer <= outputs,
        ;
    }
}

/// As many rows are painted as there are and the buffer holds whole, four bytes a pixel.
pub proof fn as_many_rows_are_painted_as_fit(height: int, width: int, len: int)
    requires
        0 <= height,
        0 < width,
        0 <= len,
    ensures
        ({
            let rows = rows_held(height, width, len);
            &&& 0 <= rows <= height
            &&& rows * (width * 4) <= len
            &&& rows < height ==> (rows + 1) * (width * 4) > len
        }),
{
    let row = width * 4;
    let q = len / row;
    let rows = rows_held(height, width, len);
    vstd::arithmetic::div_mod::lemma_fundamental_div_mod(len, row);
    vstd::arithmetic::div_mod::lemma_mod_bound(len, row);
    vstd::arithmetic::div_mod::lemma_div_pos_is_pos(len, row);
    assert(row * q == q * row) by (nonlinear_arith);
    assert(rows * row <= q * row) by (nonlinear_arith)
        requires
            rows <= q,
            row > 0,
    ;
    assert((q + 1) * row == q * row + row) by (nonlinear_arith);
}

} // verus!
