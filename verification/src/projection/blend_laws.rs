//! What a drawn picture shows of the canvas.
use crate::projection::blend::{
    band_rows, blended, correction, format_of, pixel_at, pixel_fits, pixel_shows, shaded, shows,
    tile, usable_columns, usable_rows, Band, Blend,
};
use vstd::prelude::*;

verus! {

/// Where in the canvas the pixel of an output begins: in the row of the canvas that
/// the output shows there, counted from the bottom where the canvas is upside down,
/// and in that row past the pixels to its left.
pub open spec fn canvas_index(blend: Blend, x: int, y: int) -> int {
    let row = if blend.y_invert {
        blend.usable_height - 1 - (blend.source_y + y)
    } else {
        blend.source_y + y
    };
    row * blend.stride + (blend.source_x + x) * blend.format.bytes
}

/// The pixel of an output lies on the canvas.
pub open spec fn is_on_canvas(blend: Blend, x: int, y: int) -> bool {
    blend.source_x + x < blend.usable_width && blend.source_y + y < blend.usable_height
}

/// The correction for the pixel of an output leaves every color as it is.
pub open spec fn is_plain(blend: Blend, x: int, y: int) -> bool {
    let at = y * blend.width + x;
    at >= blend.transfer@.len() || blend.transfer@[at] == (256u16, 0u8)
}

/// A value after a correction: multiplied by 1/256 of the factor, raised by the
/// lift, rounded down, and never above the brightest.
pub open spec fn is_corrected(out: u8, value: u8, curve: (u16, u8)) -> bool {
    &&& 256 * out <= curve.0 * value + 256 * curve.1
    &&& out < 255 ==> curve.0 * value + 256 * curve.1 < 256 * (out + 1)
}

proof fn lemma_pixel(
    blend: Blend,
    bytes: Seq<u8>,
    first: int,
    count: int,
    x: int,
    y: int,
)
    requires
        blend.is_band(bytes, first, count),
        bytes.len() >= count * blend.width * 4,
        0 <= x < blend.width,
        0 <= y < count,
    ensures
        0 <= (y * blend.width + x) * 4,
        (y * blend.width + x) * 4 + 4 <= bytes.len(),
        forall|c: int|
            0 <= c < 4 ==> #[trigger] bytes[(y * blend.width + x) * 4 + c] == blend.output_at(
                x,
                first + y,
            )[c],
{
    pixel_fits(blend.width as int, count, x, y);
    let shown = pixel_at(bytes, blend.width as int, x, y);
    assert(shown == blend.output_at(x, first + y));
    assert forall|c: int| 0 <= c < 4 implies #[trigger] bytes[(y * blend.width + x) * 4 + c]
        == blend.output_at(x, first + y)[c] by {
        assert(shown[c] == bytes[(y * blend.width + x) * 4 + c]);
    }
}

/// Where the correction changes nothing, each pixel of the output holds the blue,
/// green and red that the canvas stores for it, in the row and the column of the
/// canvas at which the output lies.
pub proof fn output_shows_its_part_of_the_canvas(
    blend: Blend,
    bytes: Seq<u8>,
    first: int,
    count: int,
    x: int,
    y: int,
)
    requires
        blend.is_band(bytes, first, count),
        bytes.len() >= count * blend.width * 4,
        0 <= first,
        0 <= x < blend.width,
        0 <= y < count,
        blend.source_x + x < blend.usable_width,
        blend.source_y + first + y < blend.usable_height,
        is_plain(blend, x, first + y),
    ensures
        ({
            let to = (y * blend.width + x) * 4;
            let row = if blend.y_invert {
                blend.usable_height - 1 - (blend.source_y + first + y)
            } else {
                blend.source_y + first + y
            };
            let from = row * blend.stride + (blend.source_x + x) * blend.format.bytes;
            &&& bytes[to] == blend.canvas@[from + blend.format.blue]
            &&& bytes[to + 1] == blend.canvas@[from + blend.format.green]
            &&& bytes[to + 2] == blend.canvas@[from + blend.format.red]
            &&& bytes[to + 3] == 255
        }),
{
    lemma_pixel(blend, bytes, first, count, x, y);
    let to = (y * blend.width + x) * 4;
    assert(bytes[to + 0] == blend.output_at(x, first + y)[0]);
    assert(0 <= (first + y) * blend.width + x) by (nonlinear_arith)
        requires
            first >= 0,
            y >= 0,
            x >= 0,
            blend.width >= 0,
    ;
    assert(correction(blend.transfer@, (first + y) * blend.width + x) == (256u16, 0u8));
}

/// Each color of a pixel is what the canvas stores for it, after the correction for
/// that pixel of the output.
pub proof fn output_is_the_corrected_canvas(
    blend: Blend,
    bytes: Seq<u8>,
    first: int,
    count: int,
    x: int,
    y: int,
)
    requires
        blend.is_band(bytes, first, count),
        bytes.len() >= count * blend.width * 4,
        0 <= first,
        0 <= x < blend.width,
        0 <= y < count,
        is_on_canvas(blend, x, first + y),
        (first + y) * blend.width + x < blend.transfer@.len(),
        blend.transfer@[(first + y) * blend.width + x] != (0u16, 0u8),
    ensures
        ({
            let to = (y * blend.width + x) * 4;
            let from = canvas_index(blend, x, first + y);
            let curve = blend.transfer@[(first + y) * blend.width + x];
            &&& is_corrected(bytes[to], blend.canvas@[from + blend.format.blue], curve)
            &&& is_corrected(bytes[to + 1], blend.canvas@[from + blend.format.green], curve)
            &&& is_corrected(bytes[to + 2], blend.canvas@[from + blend.format.red], curve)
            &&& bytes[to + 3] == 255
        }),
{
    lemma_pixel(blend, bytes, first, count, x, y);
    let to = (y * blend.width + x) * 4;
    assert(bytes[to + 0] == blend.output_at(x, first + y)[0]);
    assert(0 <= (first + y) * blend.width + x) by (nonlinear_arith)
        requires
            first >= 0,
            y >= 0,
            x >= 0,
            blend.width >= 0,
    ;
    let curve = blend.transfer@[(first + y) * blend.width + x];
    let from = canvas_index(blend, x, first + y);
    lemma_shaded(curve, blend.canvas@[from + blend.format.blue]);
    lemma_shaded(curve, blend.canvas@[from + blend.format.green]);
    lemma_shaded(curve, blend.canvas@[from + blend.format.red]);
}

proof fn lemma_shaded(curve: (u16, u8), value: u8)
    ensures
        is_corrected(shaded(curve.0, curve.1, value), value, curve),
{
    assert(0 <= curve.0 * value) by (nonlinear_arith);
}

/// Shading one value does what a correction says.
pub proof fn shading_corrects(a: u16, b: u8, value: u8)
    ensures
        is_corrected(shaded(a, b, value), value, (a, b)),
        shaded(256, 0, value) == value,
{
    lemma_shaded((a, b), value);
}

/// What an output shows past the canvas, and where its correction lets nothing
/// through, is black and opaque.
pub proof fn output_is_black_past_the_canvas(
    blend: Blend,
    bytes: Seq<u8>,
    first: int,
    count: int,
    x: int,
    y: int,
)
    requires
        blend.is_band(bytes, first, count),
        bytes.len() >= count * blend.width * 4,
        0 <= first,
        0 <= x < blend.width,
        0 <= y < count,
        !is_on_canvas(blend, x, first + y) || ((first + y) * blend.width + x
            < blend.transfer@.len() && blend.transfer@[(first + y) * blend.width + x] == (
            0u16,
            0u8,
        )),
    ensures
        ({
            let to = (y * blend.width + x) * 4;
            &&& bytes[to] == 0 && bytes[to + 1] == 0 && bytes[to + 2] == 0
            &&& bytes[to + 3] == 255
        }),
{
    lemma_pixel(blend, bytes, first, count, x, y);
    let to = (y * blend.width + x) * 4;
    assert(bytes[to + 0] == blend.output_at(x, first + y)[0]);
    assert(0 <= (first + y) * blend.width + x) by (nonlinear_arith)
        requires
            first >= 0,
            y >= 0,
            x >= 0,
            blend.width >= 0,
    ;
}

/// Two pictures are drawn alike but for the canvas.
pub open spec fn same_but_canvas(a: Blend, b: Blend) -> bool {
    &&& a.transfer@ == b.transfer@
    &&& a.format == b.format
    &&& a.stride == b.stride
    &&& a.y_invert == b.y_invert
    &&& a.usable_width == b.usable_width
    &&& a.usable_height == b.usable_height
    &&& a.source_x == b.source_x
    &&& a.source_y == b.source_y
    &&& a.width == b.width
}

/// Two canvases that differ in a color of one pixel give outputs that differ in that
/// color of that pixel, in its own row and column.
pub proof fn one_pixel_of_the_canvas_shows_in_its_row(
    a: Blend,
    b: Blend,
    shown_a: Seq<u8>,
    shown_b: Seq<u8>,
    count: int,
    x: int,
    y: int,
    channel: int,
)
    requires
        same_but_canvas(a, b),
        a.format.blue != a.format.green && a.format.green != a.format.red && a.format.red
            != a.format.blue,
        a.is_band(shown_a, 0, count),
        b.is_band(shown_b, 0, count),
        shown_a.len() == count * a.width * 4,
        shown_b.len() == count * a.width * 4,
        0 <= x < a.width,
        0 <= y < count,
        is_on_canvas(a, x, y),
        is_plain(a, x, y),
        channel == a.format.blue || channel == a.format.green || channel == a.format.red,
        a.canvas@[canvas_index(a, x, y) + channel] != b.canvas@[canvas_index(a, x, y) + channel],
    ensures
        ({
            let to = (y * a.width + x) * 4;
            let c: int = if channel == a.format.blue {
                0
            } else if channel == a.format.green {
                1
            } else {
                2
            };
            shown_a[to + c] != shown_b[to + c]
        }),
{
    output_shows_its_part_of_the_canvas(a, shown_a, 0, count, x, y);
    output_shows_its_part_of_the_canvas(b, shown_b, 0, count, x, y);
}

/// The pixel of an output depends on its own pixel of the canvas alone.
pub proof fn other_pixels_of_the_canvas_do_not_show(
    a: Blend,
    b: Blend,
    shown_a: Seq<u8>,
    shown_b: Seq<u8>,
    count: int,
    x: int,
    y: int,
    c: int,
)
    requires
        same_but_canvas(a, b),
        a.is_band(shown_a, 0, count),
        b.is_band(shown_b, 0, count),
        shown_a.len() == count * a.width * 4,
        shown_b.len() == count * a.width * 4,
        0 <= x < a.width,
        0 <= y < count,
        0 <= c < 4,
        is_on_canvas(a, x, y) ==> forall|k: int|
            0 <= k < a.format.bytes ==> #[trigger] a.canvas@[canvas_index(a, x, y) + k]
                == b.canvas@[canvas_index(a, x, y) + k],
        a.format.wf(),
    ensures
        shown_a[(y * a.width + x) * 4 + c] == shown_b[(y * a.width + x) * 4 + c],
{
    lemma_pixel(a, shown_a, 0, count, x, y);
    lemma_pixel(b, shown_b, 0, count, x, y);
    let at = canvas_index(a, x, y);
    if is_on_canvas(a, x, y) {
        assert(a.canvas@[at + a.format.blue] == b.canvas@[at + a.format.blue]);
        assert(a.canvas@[at + a.format.green] == b.canvas@[at + a.format.green]);
        assert(a.canvas@[at + a.format.red] == b.canvas@[at + a.format.red]);
        assert(a.color_at(x, y) == b.color_at(x, y));
    }
    assert(a.output_at(x, 0 + y) == b.output_at(x, 0 + y));
}

/// A row of a band is the row of the output that many rows below the top of the
/// band: two bands show the same where they overlap.
pub proof fn overlapping_bands_agree(
    blend: Blend,
    upper: Seq<u8>,
    lower: Seq<u8>,
    first_upper: int,
    count_upper: int,
    first_lower: int,
    count_lower: int,
    x: int,
    row: int,
    c: int,
)
    requires
        blend.is_band(upper, first_upper, count_upper),
        blend.is_band(lower, first_lower, count_lower),
        upper.len() == count_upper * blend.width * 4,
        lower.len() == count_lower * blend.width * 4,
        first_upper <= row < first_upper + count_upper,
        first_lower <= row < first_lower + count_lower,
        0 <= x < blend.width,
        0 <= c < 4,
    ensures
        upper[((row - first_upper) * blend.width + x) * 4 + c] == lower[((row - first_lower)
            * blend.width + x) * 4 + c],
{
    lemma_pixel(blend, upper, first_upper, count_upper, x, row - first_upper);
    lemma_pixel(blend, lower, first_lower, count_lower, x, row - first_lower);
}

/// What is painted at a pixel is a color that was sampled for that very pixel of
/// the output, after the correction for it; black where there is no color or where
/// the correction lets nothing through.
pub proof fn painted_pixels_are_sampled_there<F: Fn(u32, u32) -> Option<[u8; 3]>>(
    bytes: Seq<u8>,
    transfer: Seq<(u16, u8)>,
    width: int,
    first: int,
    count: int,
    sample: F,
    x: int,
    y: int,
) -> (color: Option<[u8; 3]>)
    requires
        pixel_shows(bytes, transfer, width, first, sample, x, y),
        bytes.len() >= count * width * 4,
        0 <= first,
        0 <= x < width,
        0 <= y < count,
        first + count <= u32::MAX,
        width <= u32::MAX,
    ensures
        ({
            let to = (y * width + x) * 4;
            let at = (first + y) * width + x;
            let curve = if at < transfer.len() {
                transfer[at]
            } else {
                (256u16, 0u8)
            };
            &&& curve != (0u16, 0u8) ==> call_ensures(
                sample,
                (x as u32, (first + y) as u32),
                color,
            )
            &&& bytes[to + 3] == 255
            &&& match color {
                Some(color) if curve != (0u16, 0u8) => is_corrected(bytes[to], color@[0], curve)
                    && is_corrected(bytes[to + 1], color@[1], curve) && is_corrected(
                    bytes[to + 2],
                    color@[2],
                    curve,
                ),
                _ => bytes[to] == 0 && bytes[to + 1] == 0 && bytes[to + 2] == 0,
            }
        }),
{
    let at = (first + y) * width + x;
    assert(0 <= at) by (nonlinear_arith)
        requires
            at == (first + y) * width + x,
            first >= 0,
            y >= 0,
            x >= 0,
            width >= 0,
    ;
    pixel_fits(width, count, x, y);
    let to = (y * width + x) * 4;
    let curve = correction(transfer, at);
    let shown = pixel_at(bytes, width, x, y);
    assert(shown[0] == bytes[to] && shown[1] == bytes[to + 1] && shown[2] == bytes[to + 2]
        && shown[3] == bytes[to + 3]);
    assert(shows(shown, curve, sample, x as u32, (first + y) as u32));
    if curve.0 == 0 && curve.1 == 0 {
        None
    } else {
        let color = choose|color: Option<[u8; 3]>| #[trigger]
            call_ensures(sample, (x as u32, (first + y) as u32), color) && shown
                == blended(curve, color);
        if color is Some {
            lemma_shaded(curve, color->0@[0]);
            lemma_shaded(curve, color->0@[1]);
            lemma_shaded(curve, color->0@[2]);
        }
        color
    }
}

/// The formats that name 32 bits hold four bytes a pixel, those of 24 bits three;
/// red and blue stand at the ends, green in the middle, and the formats whose name
/// ends on red hold blue first.
pub proof fn formats_hold_their_colors(raw: u32)
    ensures
        match format_of(raw) {
            Some(format) => {
                &&& format.green == 1
                &&& format.red + format.blue == 2
                &&& (format.blue == 0 <==> raw == 0 || raw == 1 || raw == 0x3432_4752)
                &&& (format.bytes == 3 <==> raw == 0x3432_4752 || raw == 0x3432_4742)
                &&& format.bytes == 3 || format.bytes == 4
            },
            None => raw != 0 && raw != 1 && raw != 0x3432_4241 && raw != 0x3432_4258 && raw
                != 0x3432_4742 && raw != 0x3432_4752,
        },
        format_of(0) is Some && format_of(1) is Some && format_of(0x3432_4241) is Some && format_of(
            0x3432_4258,
        ) is Some && format_of(0x3432_4742) is Some && format_of(0x3432_4752) is Some,
{
}

/// Every row of a picture lies in exactly one of its bands.
pub proof fn every_row_lies_in_one_band(bands: Seq<Band>, height: int, row: int) -> (k: int)
    requires
        tile(bands, height),
        0 <= row < height,
    ensures
        0 <= k < bands.len(),
        bands[k].first <= row < bands[k].first + bands[k].count,
        forall|j: int|
            0 <= j < bands.len() && (#[trigger] bands[j]).first <= row < bands[j].first
                + bands[j].count ==> j == k,
{
    let k = lemma_band_of_row(bands, height, row, bands.len() as int);
    assert forall|j: int|
        0 <= j < bands.len() && (#[trigger] bands[j]).first <= row < bands[j].first
            + bands[j].count implies j == k by {
        if j < k {
            lemma_bands_ascend(bands, height, j, k);
        } else if k < j {
            lemma_bands_ascend(bands, height, k, j);
        }
    }
    k
}

/// A picture is divided evenly: no band has more rows than an even share, rounded
/// up to a whole row.
pub proof fn shares_are_even(height: int, workers: int)
    requires
        height >= 0,
        workers > 0,
    ensures
        band_rows(height, workers) * workers >= height,
        (band_rows(height, workers) - 1) * workers < height,
{
    let share = band_rows(height, workers);
    let q = height + workers - 1;
    vstd::arithmetic::div_mod::lemma_fundamental_div_mod(q, workers);
    vstd::arithmetic::div_mod::lemma_mod_bound(q, workers);
    assert(share * workers == workers * share) by (nonlinear_arith);
    assert((share - 1) * workers == share * workers - workers) by (nonlinear_arith);
}

proof fn lemma_band_of_row(bands: Seq<Band>, height: int, row: int, n: int) -> (k: int)
    requires
        tile(bands, height),
        0 < n <= bands.len(),
        0 <= row < bands[n - 1].first + bands[n - 1].count,
    ensures
        0 <= k < n,
        bands[k].first <= row < bands[k].first + bands[k].count,
    decreases n,
{
    if bands[n - 1].first <= row {
        n - 1
    } else {
        if n == 1 {
            assert(false);
        }
        assert(bands[n - 1].first == bands[n - 2].first + bands[n - 2].count);
        lemma_band_of_row(bands, height, row, n - 1)
    }
}

proof fn lemma_bands_ascend(bands: Seq<Band>, height: int, i: int, j: int)
    requires
        tile(bands, height),
        0 <= i < j < bands.len(),
    ensures
        bands[i].first + bands[i].count <= bands[j].first,
    decreases j - i,
{
    assert(bands[j].first == bands[j - 1].first + bands[j - 1].count);
    if i < j - 1 {
        lemma_bands_ascend(bands, height, i, j - 1);
    }
}

/// As many columns can be read as the canvas has and a row of the buffer holds whole, and
/// as many rows as the canvas has and the buffer holds whole; no fewer.
pub proof fn as_much_is_read_as_there_is(
    canvas_width: int,
    canvas_height: int,
    stride: int,
    len: int,
    bytes: int,
)
    requires
        0 <= canvas_width,
        0 <= canvas_height,
        0 < stride,
        0 <= len,
        0 < bytes,
    ensures
        ({
            let columns = usable_columns(canvas_width, stride, bytes);
            let rows = usable_rows(canvas_height, stride, len);
            &&& 0 <= columns <= canvas_width
            &&& columns * bytes <= stride
            &&& columns < canvas_width ==> (columns + 1) * bytes > stride
            &&& 0 <= rows <= canvas_height
            &&& rows * stride <= len
            &&& rows < canvas_height ==> (rows + 1) * stride > len
        }),
{
    lemma_share(stride, bytes, usable_columns(canvas_width, stride, bytes));
    lemma_share(len, stride, usable_rows(canvas_height, stride, len));
}

proof fn lemma_share(whole: int, part: int, n: int)
    requires
        0 <= whole,
        0 < part,
        n <= whole / part,
    ensures
        0 <= whole / part,
        n * part <= whole,
        n == whole / part ==> (n + 1) * part > whole,
{
    let q = whole / part;
    vstd::arithmetic::div_mod::lemma_fundamental_div_mod(whole, part);
    vstd::arithmetic::div_mod::lemma_mod_bound(whole, part);
    vstd::arithmetic::div_mod::lemma_div_pos_is_pos(whole, part);
    assert(part * q == q * part) by (nonlinear_arith);
    assert(n * part <= q * part) by (nonlinear_arith)
        requires
            n <= q,
            part > 0,
    ;
    assert((q + 1) * part == q * part + part) by (nonlinear_arith);
}

} // verus!
