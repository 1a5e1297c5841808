//! Cutting one output's picture out of the captured canvas.
use vstd::prelude::*;

verus! {

/// How a pixel of the canvas is read: its size, and where in it each color is.
#[derive(Clone, Copy, Debug, PartialEq, Eq, Structural)]
pub struct PixelFormat {
    pub bytes: usize,
    pub red: usize,
    pub green: usize,
    pub blue: usize,
}

/// The formats that can be read, by their codes.
pub open spec fn format_of(raw: u32) -> Option<PixelFormat> {
    if raw == 0 || raw == 1 {
        Some(PixelFormat { bytes: 4, red: 2, green: 1, blue: 0 })
    } else if raw == 0x3432_4241 || raw == 0x3432_4258 {
        Some(PixelFormat { bytes: 4, red: 0, green: 1, blue: 2 })
    } else if raw == 0x3432_4742 {
        Some(PixelFormat { bytes: 3, red: 0, green: 1, blue: 2 })
    } else if raw == 0x3432_4752 {
        Some(PixelFormat { bytes: 3, red: 2, green: 1, blue: 0 })
    } else {
        None
    }
}

/// The format that a code stands for.
pub fn pixel_format(raw: u32) -> (format: Option<PixelFormat>)
    ensures
        format == format_of(raw),
{
    match raw {
        0 | 1 => Some(PixelFormat { bytes: 4, red: 2, green: 1, blue: 0 }),
        0x3432_4241 | 0x3432_4258 => Some(PixelFormat { bytes: 4, red: 0, green: 1, blue: 2 }),
        0x3432_4742 => Some(PixelFormat { bytes: 3, red: 0, green: 1, blue: 2 }),
        0x3432_4752 => Some(PixelFormat { bytes: 3, red: 2, green: 1, blue: 0 }),
        _ => None,
    }
}

impl PixelFormat {
    /// Every color lies within the pixel.
    pub open spec fn wf(self) -> bool {
        self.red < self.bytes && self.green < self.bytes && self.blue < self.bytes
    }
}

/// A color after an output's correction: scaled by `a` parts of 256, then raised
/// by `b`, and never more than full.
pub open spec fn shaded(a: u16, b: u8, value: u8) -> u8 {
    let raised = a * value / 256 + b;
    if raised > 255 {
        255
    } else {
        raised as u8
    }
}

/// A color after an output's correction.
pub fn shade(a: u16, b: u8, value: u8) -> (out: u8)
    ensures
        out == shaded(a, b, value),
{
    assert(a * value <= 65535 * 255) by (nonlinear_arith)
        requires
            a <= 65535,
            value <= 255,
    ;
    let product: u32 = a as u32 * value as u32;
    let raised: u32 = product / 256 + b as u32;
    if raised > 255 {
        255
    } else {
        raised as u8
    }
}

/// The correction of a pixel: none where the table does not reach.
pub open spec fn correction(transfer: Seq<(u16, u8)>, at: int) -> (u16, u8) {
    if 0 <= at < transfer.len() {
        transfer[at]
    } else {
        (256, 0)
    }
}

/// A pixel that shows nothing.
pub open spec fn black() -> Seq<u8> {
    seq![0u8, 0, 0, 255]
}

/// A pixel in the order in which outputs hold it: blue, green, red, opaque.
pub open spec fn pixel(blue: u8, green: u8, red: u8) -> Seq<u8> {
    seq![blue, green, red, 255u8]
}

/// A sampled color after the correction. Where the correction leaves nothing, or
/// there is nothing to sample, the pixel is black.
pub open spec fn blended(curve: (u16, u8), sample: Option<[u8; 3]>) -> Seq<u8> {
    if curve.0 == 0 && curve.1 == 0 {
        black()
    } else {
        match sample {
            None => black(),
            Some(color) => pixel(
                shaded(curve.0, curve.1, color@[0]),
                shaded(curve.0, curve.1, color@[1]),
                shaded(curve.0, curve.1, color@[2]),
            ),
        }
    }
}

/// The bytes of the pixel at column `x` of row `y` of a picture.
pub open spec fn pixel_at(bytes: Seq<u8>, width: int, x: int, y: int) -> Seq<u8> {
    bytes.subrange((y * width + x) * 4, (y * width + x) * 4 + 4)
}

pub(crate) proof fn pixel_fits(width: int, count: int, x: int, y: int)
    requires
        0 <= x < width,
        0 <= y < count,
    ensures
        0 <= (y * width + x) * 4,
        (y * width + x) * 4 + 4 <= count * width * 4,
        0 <= y * width + x < count * width,
{
    assert(y * width + width <= count * width) by (nonlinear_arith)
        requires
            0 <= y < count,
            0 <= width,
    ;
    assert(0 <= y * width) by (nonlinear_arith)
        requires
            0 <= y,
            0 <= width,
    ;
}

pub(crate) proof fn pixels_are_apart(width: int, x: int, y: int, other_x: int, other_y: int)
    requires
        0 <= x < width,
        0 <= other_x < width,
        x != other_x || y != other_y,
    ensures
        y * width + x != other_y * width + other_x,
{
    if y < other_y {
        assert(y * width + width <= other_y * width) by (nonlinear_arith)
            requires
                y < other_y,
                0 < width,
        ;
    } else if other_y < y {
        assert(other_y * width + width <= y * width) by (nonlinear_arith)
            requires
                other_y < y,
                0 < width,
        ;
    }
}

pub(crate) fn put_pixel(dst: &mut [u8], at: usize, blue: u8, green: u8, red: u8)
    requires
        at + 4 <= old(dst)@.len(),
    ensures
        final(dst)@.len() == old(dst)@.len(),
        final(dst)@.subrange(at as int, at + 4) == pixel(blue, green, red),
        forall|i: int|
            0 <= i < old(dst)@.len() && !(at <= i < at + 4) ==> final(dst)@[i] == old(dst)@[i],
{
    dst[at] = blue;
    dst[at + 1] = green;
    dst[at + 2] = red;
    dst[at + 3] = 255;
    assert(dst@.subrange(at as int, at + 4) =~= pixel(blue, green, red));
}

/// A pixel shows what a sampler gave for its place, corrected.
pub open spec fn shows<F: Fn(u32, u32) -> Option<[u8; 3]>>(
    bytes: Seq<u8>,
    curve: (u16, u8),
    sample: F,
    x: u32,
    y: u32,
) -> bool {
    if curve.0 == 0 && curve.1 == 0 {
        bytes == black()
    } else {
        exists|color: Option<[u8; 3]>| #[trigger]
            call_ensures(sample, (x, y), color) && bytes == blended(curve, color)
    }
}

/// The pixel at a place of a band shows what the sampler gave for it.
pub open spec fn pixel_shows<F: Fn(u32, u32) -> Option<[u8; 3]>>(
    bytes: Seq<u8>,
    transfer: Seq<(u16, u8)>,
    width: int,
    first: int,
    sample: F,
    x: int,
    y: int,
) -> bool {
    shows(
        pixel_at(bytes, width, x, y),
        correction(transfer, (first + y) * width + x),
        sample,
        x as u32,
        (first + y) as u32,
    )
}

/// Draws `count` rows of an output's picture, from row `first` on, with the colors
/// that a sampler gives. What lies behind them in the buffer is left alone.
pub fn paint_rows<F: Fn(u32, u32) -> Option<[u8; 3]>>(
    transfer: &[(u16, u8)],
    width: u32,
    dst: &mut [u8],
    first: u32,
    count: u32,
    sample: &F,
)
    requires
        first + count <= u32::MAX,
        count * width * 4 <= old(dst)@.len(),
        (first + count) * width <= usize::MAX,
        forall|x: u32, y: u32|
            x < width && first <= y < first + count ==> call_requires(*sample, (x, y)),
    ensures
        final(dst)@.len() == old(dst)@.len(),
        forall|x: int, y: int|
            0 <= x < width && 0 <= y < count ==> #[trigger] pixel_shows(
                final(dst)@,
                transfer@,
                width as int,
                first as int,
                *sample,
                x,
                y,
            ),
        forall|i: int|
            count * width * 4 <= i < old(dst)@.len() ==> final(dst)@[i] == old(dst)@[i],
{
    let ghost start = dst@;
    let mut y: u32 = 0;
    while y < count
        invariant
            y <= count,
            first + count <= u32::MAX,
            count * width * 4 <= dst@.len(),
            (first + count) * width <= usize::MAX,
            dst@.len() == start.len(),
            forall|x: u32, y: u32|
                x < width && first <= y < first + count ==> call_requires(*sample, (x, y)),
            forall|i: int, j: int|
                0 <= i < width && 0 <= j < y ==> #[trigger] pixel_shows(
                    dst@,
                    transfer@,
                    width as int,
                    first as int,
                    *sample,
                    i,
                    j,
                ),
            forall|i: int| count * width * 4 <= i < start.len() ==> dst@[i] == start[i],
        decreases count - y,
    {
        let target: u32 = first + y;
        let mut x: u32 = 0;
        while x < width
            invariant
                x <= width,
                y < count,
                target == first + y,
                first + count <= u32::MAX,
                count * width * 4 <= dst@.len(),
                (first + count) * width <= usize::MAX,
                dst@.len() == start.len(),
                forall|x: u32, y: u32|
                    x < width && first <= y < first + count ==> call_requires(*sample, (x, y)),
                forall|i: int, j: int|
                    0 <= i < width && 0 <= j && (j < y || (j == y && i < x))
                        ==> #[trigger] pixel_shows(
                        dst@,
                        transfer@,
                        width as int,
                        first as int,
                        *sample,
                        i,
                        j,
                    ),
                forall|i: int| count * width * 4 <= i < start.len() ==> dst@[i] == start[i],
            decreases width - x,
        {
            proof {
                assert(dst.len() <= usize::MAX);
                pixel_fits(width as int, count as int, x as int, y as int);
                pixel_fits(width as int, first + count, x as int, first + y);
            }
            let entry: usize = target as usize * width as usize + x as usize;
            let (a, b) = if entry < transfer.len() {
                transfer[entry]
            } else {
                (256, 0)
            };
            let at: usize = (y as usize * width as usize + x as usize) * 4;
            let ghost before = dst@;
            if a == 0 && b == 0 {
                put_pixel(dst, at, 0, 0, 0);
                assert(pixel(0, 0, 0) =~= black());
            } else {
                let color = sample(x, target);
                match color {
                    None => {
                        put_pixel(dst, at, 0, 0, 0);
                        assert(pixel(0, 0, 0) =~= black());
                    },
                    Some(c) => {
                        put_pixel(dst, at, shade(a, b, c[0]), shade(a, b, c[1]), shade(a, b, c[2]));
                    },
                }
                assert(call_ensures(*sample, (x, target), color));
            }
            proof {
                assert(correction(transfer@, (first + y) * width + x) == (a, b));
                assert(pixel_at(dst@, width as int, x as int, y as int) == dst@.subrange(
                    at as int,
                    at + 4,
                ));
                assert(pixel_shows(
                    dst@,
                    transfer@,
                    width as int,
                    first as int,
                    *sample,
                    x as int,
                    y as int,
                ));
                assert forall|i: int, j: int|
                    0 <= i < width && 0 <= j && (j < y || (j == y && i < x + 1)) implies
                    #[trigger] pixel_shows(
                    dst@,
                    transfer@,
                    width as int,
                    first as int,
                    *sample,
                    i,
                    j,
                ) by {
                    if i != x || j != y {
                        pixel_fits(width as int, count as int, i, j);
                        pixels_are_apart(width as int, x as int, y as int, i, j);
                        assert(pixel_at(dst@, width as int, i, j) =~= pixel_at(
                            before,
                            width as int,
                            i,
                            j,
                        ));
                        assert(pixel_shows(
                            before,
                            transfer@,
                            width as int,
                            first as int,
                            *sample,
                            i,
                            j,
                        ));
                    }
                }
            }
            x = x + 1;
        }
        y = y + 1;
    }
}

/// A canvas to cut from, and the place and the correction of one output on it.
/// Every pixel of the output is a whole pixel of the canvas.
pub struct Blend<'a> {
    pub canvas: &'a [u8],
    pub transfer: &'a [(u16, u8)],
    pub format: PixelFormat,
    pub stride: u32,
    pub y_invert: bool,
    pub usable_width: u32,
    pub usable_height: u32,
    pub source_x: u32,
    pub source_y: u32,
    pub width: u32,
}

/// The row of a canvas that is read for a row of the picture.
pub open spec fn canvas_row(usable_height: int, y_invert: bool, row: int) -> int {
    if y_invert {
        usable_height - 1 - row
    } else {
        row
    }
}

impl<'a> Blend<'a> {
    /// The canvas holds every pixel that is usable.
    pub open spec fn wf(self) -> bool {
        &&& self.format.wf()
        &&& self.usable_height > 0 && self.usable_width > 0 ==> (self.usable_height - 1)
            * self.stride + self.usable_width * self.format.bytes <= self.canvas@.len()
    }

    /// Where on the canvas the pixel for a place of the output begins.
    pub open spec fn offset(self, x: int, y: int) -> int {
        canvas_row(self.usable_height as int, self.y_invert, self.source_y + y) * self.stride + (
        self.source_x + x) * self.format.bytes
    }

    /// The color at a place of the output: blue, green and red. Beyond the canvas
    /// there is none.
    pub open spec fn color_at(self, x: int, y: int) -> Option<(u8, u8, u8)> {
        if self.source_x + x >= self.usable_width || self.source_y + y >= self.usable_height {
            None
        } else {
            let at = self.offset(x, y);
            Some(
                (
                    self.canvas@[at + self.format.blue],
                    self.canvas@[at + self.format.green],
                    self.canvas@[at + self.format.red],
                ),
            )
        }
    }

    /// The pixel that the output shows at a place.
    pub open spec fn output_at(self, x: int, y: int) -> Seq<u8> {
        let curve = correction(self.transfer@, y * self.width + x);
        match self.color_at(x, y) {
            Some((blue, green, red)) if curve.0 != 0 || curve.1 != 0 => pixel(
                shaded(curve.0, curve.1, blue),
                shaded(curve.0, curve.1, green),
                shaded(curve.0, curve.1, red),
            ),
            _ => black(),
        }
    }

    /// The bytes are the rows of the output's picture from `first` on.
    pub open spec fn is_band(self, bytes: Seq<u8>, first: int, count: int) -> bool {
        forall|x: int, y: int|
            0 <= x < self.width && 0 <= y < count ==> #[trigger] pixel_at(
                bytes,
                self.width as int,
                x,
                y,
            ) == self.output_at(x, first + y)
    }

    /// Reads the color at a place of the output.
    pub fn sample(&self, x: u32, y: u32) -> (color: Option<[u8; 3]>)
        requires
            self.wf(),
        ensures
            match self.color_at(x as int, y as int) {
                None => color is None,
                Some((blue, green, red)) => color matches Some(c) && c@ == seq![blue, green, red],
            },
    {
        let source_x: u32 = match self.source_x.checked_add(x) {
            Some(source_x) => source_x,
            None => {
                return None;
            },
        };
        let source_y: u32 = match self.source_y.checked_add(y) {
            Some(source_y) => source_y,
            None => {
                return None;
            },
        };
        if source_x >= self.usable_width || source_y >= self.usable_height {
            return None;
        }
        let row: u32 = if self.y_invert {
            self.usable_height - 1 - source_y
        } else {
            source_y
        };
        proof {
            assert(self.canvas.len() <= usize::MAX);
            let stride = self.stride as int;
            let bytes = self.format.bytes as int;
            let last = self.usable_height - 1;
            let columns = self.usable_width as int;
            assert(row * stride <= last * stride) by (nonlinear_arith)
                requires
                    row <= last,
                    stride >= 0,
            ;
            assert(source_x * bytes + bytes <= columns * bytes) by (nonlinear_arith)
                requires
                    source_x + 1 <= columns,
                    bytes >= 0,
            ;
            assert(0 <= row * stride) by (nonlinear_arith)
                requires
                    0 <= row,
                    0 <= stride,
            ;
            assert(0 <= source_x * bytes) by (nonlinear_arith)
                requires
                    0 <= source_x,
                    0 <= bytes,
            ;
        }
        let offset: usize = row as usize * self.stride as usize + source_x as usize
            * self.format.bytes;
        let blue: u8 = self.canvas[offset + self.format.blue];
        let green: u8 = self.canvas[offset + self.format.green];
        let red: u8 = self.canvas[offset + self.format.red];
        let color = [blue, green, red];
        assert(color@ =~= seq![blue, green, red]);
        Some(color)
    }

    /// Draws `count` rows of the output's picture into a buffer, from row `first`
    /// on. What lies behind them in the buffer is left alone.
    pub fn rows(&self, dst: &mut [u8], first: u32, count: u32)
        requires
            self.wf(),
            first + count <= u32::MAX,
            count * self.width * 4 <= old(dst)@.len(),
            (first + count) * self.width <= usize::MAX,
        ensures
            final(dst)@.len() == old(dst)@.len(),
            self.is_band(final(dst)@, first as int, count as int),
            forall|i: int|
                count * self.width * 4 <= i < old(dst)@.len() ==> final(dst)@[i] == old(dst)@[i],
    {
        let sample = |x: u32, y: u32| -> (color: Option<[u8; 3]>)
            ensures
                match self.color_at(x as int, y as int) {
                    None => color is None,
                    Some((blue, green, red)) => color matches Some(c) && c@
                        == seq![blue, green, red],
                },
            { self.sample(x, y) };
        paint_rows(self.transfer, self.width, dst, first, count, &sample);
        proof {
            assert forall|x: int, y: int| 0 <= x < self.width && 0 <= y < count implies
                #[trigger] pixel_at(dst@, self.width as int, x, y) == self.output_at(x, first + y) by {
                assert(pixel_shows(
                    dst@,
                    self.transfer@,
                    self.width as int,
                    first as int,
                    sample,
                    x,
                    y,
                ));
            }
        }
    }
}

/// Two pictures of the same rows agree, whichever row each begins at.
pub(crate) proof fn same_rows_same_bytes(
    output: spec_fn(int, int) -> Seq<u8>,
    width: int,
    whole: Seq<u8>,
    top: int,
    height: int,
    band: Seq<u8>,
    first: int,
    count: int,
)
    requires
        0 <= width,
        0 <= first,
        0 <= count,
        first + count <= height,
        whole.len() == height * width * 4,
        band.len() == count * width * 4,
        forall|x: int, y: int|
            0 <= x < width && 0 <= y < height ==> #[trigger] pixel_at(whole, width, x, y) == output(
                x,
                top + y,
            ),
        forall|x: int, y: int|
            0 <= x < width && 0 <= y < count ==> #[trigger] pixel_at(band, width, x, y) == output(
                x,
                top + first + y,
            ),
    ensures
        whole.subrange(first * width * 4, (first + count) * width * 4) == band,
{
    assert((first + count) * width * 4 == first * width * 4 + count * width * 4)
        by (nonlinear_arith);
    assert((first + count) * width <= height * width) by (nonlinear_arith)
        requires
            first + count <= height,
            0 <= width,
    ;
    assert(0 <= first * width) by (nonlinear_arith)
        requires
            0 <= first,
            0 <= width,
    ;
    let cut = whole.subrange(first * width * 4, (first + count) * width * 4);
    assert forall|i: int| 0 <= i < band.len() implies #[trigger] cut[i] == band[i] by {
        let cell = i / 4;
        assert(cell < count * width);
        if width == 0 {
            assert(count * width == 0) by (nonlinear_arith)
                requires
                    width == 0,
            ;
        }
        let y = cell / width;
        let x = cell % width;
        vstd::arithmetic::div_mod::lemma_fundamental_div_mod(cell, width);
        vstd::arithmetic::mul::lemma_mul_is_commutative(width, y);
        vstd::arithmetic::div_mod::lemma_div_pos_is_pos(cell, width);
        assert(y < count) by (nonlinear_arith)
            requires
                cell < count * width,
                cell == y * width + x,
                0 <= x,
                0 < width,
        ;
        pixel_fits(width, count, x, y);
        pixel_fits(width, height, x, first + y);
        assert((first + y) * width == first * width + y * width) by (nonlinear_arith);
        let small = pixel_at(band, width, x, y);
        let large = pixel_at(whole, width, x, first + y);
        assert(small == large);
        assert(small[i % 4] == band[i]);
        assert(large[i % 4] == whole[first * width * 4 + i]);
    }
    assert(cut =~= band);
}

/// Dividing a picture changes nothing: the rows of a drawn picture, whichever row
/// it begins at, that a band covers are the band.
pub proof fn bands_make_up_the_picture(
    blend: Blend,
    whole: Seq<u8>,
    top: int,
    height: int,
    band: Seq<u8>,
    first: int,
    count: int,
)
    requires
        0 <= first,
        0 <= count,
        first + count <= height,
        whole.len() == height * blend.width * 4,
        band.len() == count * blend.width * 4,
        blend.is_band(whole, top, height),
        blend.is_band(band, top + first, count),
    ensures
        whole.subrange(first * blend.width * 4, (first + count) * blend.width * 4) == band,
{
    same_rows_same_bytes(
        |x: int, y: int| blend.output_at(x, y),
        blend.width as int,
        whole,
        top,
        height,
        band,
        first,
        count,
    );
}

/// The part of a buffer that a band is drawn into.
pub open spec fn band_of(bytes: Seq<u8>, width: int, band: Band) -> Seq<u8> {
    bytes.subrange(band.first * width * 4, (band.first + band.count) * width * 4)
}

proof fn lemma_band_is_inside(bands: Seq<Band>, height: int, k: int)
    requires
        tile(bands, height),
        0 <= k < bands.len(),
    ensures
        bands[k].first + bands[k].count <= height,
    decreases bands.len() - k,
{
    if k < bands.len() - 1 {
        lemma_band_is_inside(bands, height, k + 1);
        assert(bands[k + 1].first == bands[k].first + bands[k].count);
    }
}

proof fn lemma_bands_agree(
    blend: Blend,
    drawn: Seq<u8>,
    whole: Seq<u8>,
    top: int,
    height: int,
    bands: Seq<Band>,
    n: int,
)
    requires
        tile(bands, height),
        0 < n <= bands.len(),
        drawn.len() == height * blend.width * 4,
        whole.len() == height * blend.width * 4,
        blend.is_band(whole, top, height),
        forall|k: int|
            0 <= k < bands.len() ==> blend.is_band(
                band_of(drawn, blend.width as int, #[trigger] bands[k]),
                top + bands[k].first,
                bands[k].count as int,
            ),
    ensures
        ({
            let end = (bands[n - 1].first + bands[n - 1].count) * blend.width * 4;
            0 <= end <= height * blend.width * 4 && drawn.subrange(0, end) == whole.subrange(0, end)
        }),
    decreases n,
{
    let width = blend.width as int;
    let last = bands[n - 1];
    let start = last.first * width * 4;
    let end = (last.first + last.count) * width * 4;
    lemma_band_is_inside(bands, height, n - 1);
    assert(0 <= start <= end <= height * width * 4 && end - start == last.count * width * 4)
        by (nonlinear_arith)
        requires
            start == last.first * width * 4,
            end == (last.first + last.count) * width * 4,
            last.first + last.count <= height,
            0 <= last.first,
            0 <= last.count,
            0 <= width,
    ;
    let band = band_of(drawn, width, last);
    bands_make_up_the_picture(
        blend,
        whole,
        top,
        height,
        band,
        last.first as int,
        last.count as int,
    );
    assert(whole.subrange(start, end) == drawn.subrange(start, end));
    if n > 1 {
        lemma_bands_agree(blend, drawn, whole, top, height, bands, n - 1);
        assert(bands[n - 1].first == bands[n - 2].first + bands[n - 2].count);
    } else {
        assert(bands[0].first == 0);
    }
    assert(drawn.subrange(0, end) =~= drawn.subrange(0, start) + drawn.subrange(start, end));
    assert(whole.subrange(0, end) =~= whole.subrange(0, start) + whole.subrange(start, end));
    assert(n == 1 ==> drawn.subrange(0, start) =~= whole.subrange(0, start));
}

/// A picture that is drawn band by band, each band at its place in one buffer, is
/// byte for byte the picture that is drawn at once, whichever row it begins at.
pub proof fn banded_drawing_is_whole_drawing(
    blend: Blend,
    drawn: Seq<u8>,
    whole: Seq<u8>,
    top: int,
    height: int,
    bands: Seq<Band>,
)
    requires
        tile(bands, height),
        drawn.len() == height * blend.width * 4,
        whole.len() == height * blend.width * 4,
        blend.is_band(whole, top, height),
        forall|k: int|
            0 <= k < bands.len() ==> blend.is_band(
                band_of(drawn, blend.width as int, #[trigger] bands[k]),
                top + bands[k].first,
                bands[k].count as int,
            ),
    ensures
        drawn == whole,
{
    if bands.len() > 0 {
        lemma_bands_agree(blend, drawn, whole, top, height, bands, bands.len() as int);
        assert(drawn.subrange(0, drawn.len() as int) =~= drawn);
        assert(whole.subrange(0, whole.len() as int) =~= whole);
    } else {
        assert(height * blend.width * 4 == 0) by (nonlinear_arith)
            requires
                height == 0,
        ;
        assert(drawn =~= whole);
    }
}

/// Every pixel is opaque, and black where its correction leaves nothing or the
/// place that it shows lies outside the canvas.
pub proof fn drawn_pixels_are_opaque(blend: Blend, bytes: Seq<u8>, top: int, height: int, x: int, y: int)
    requires
        blend.is_band(bytes, top, height),
        bytes.len() >= height * blend.width * 4,
        0 <= x < blend.width,
        0 <= y < height,
    ensures
        bytes[(y * blend.width + x) * 4 + 3] == 255,
        correction(blend.transfer@, (top + y) * blend.width + x) == (0u16, 0u8) || blend.color_at(
            x,
            top + y,
        ) is None ==> pixel_at(bytes, blend.width as int, x, y) == black(),
{
    let width = blend.width as int;
    pixel_fits(width, height, x, y);
    let shown = pixel_at(bytes, width, x, y);
    assert(shown == blend.output_at(x, top + y));
    assert(shown[3] == bytes[(y * width + x) * 4 + 3]);
}

/// Over how many workers a picture of so many rows is divided: never more than
/// eight, never more than there are rows, and at least one.
pub fn blend_workers(available: u32, rows: u32) -> (workers: u32)
    ensures
        1 <= workers <= 8,
        workers > 1 ==> workers <= available && workers <= rows,
        workers == 8 || workers == available || workers == rows || workers == 1,
        available >= 1 && rows >= 1 ==> workers <= available && workers <= rows && (workers == 8
            || workers == available || workers == rows),
{
    let capped: u32 = if available < 8 {
        available
    } else {
        8
    };
    let split: u32 = if rows < capped {
        rows
    } else {
        capped
    };
    if split < 1 {
        1
    } else {
        split
    }
}

/// A run of rows.
#[derive(Clone, Copy, Debug, PartialEq, Eq, Structural)]
pub struct Band {
    pub first: u32,
    pub count: u32,
}

/// The rows of each band but the last.
pub open spec fn band_rows(height: int, workers: int) -> int {
    (height + workers - 1) / workers
}

/// The bands do not overlap and leave no row out.
pub open spec fn tile(bands: Seq<Band>, height: int) -> bool {
    &&& bands.len() > 0 ==> bands[0].first == 0
    &&& forall|i: int, j: int|
        0 <= i < bands.len() && j == i + 1 && j < bands.len() ==> (#[trigger] bands[j]).first == (
        #[trigger] bands[i]).first + bands[i].count
    &&& forall|i: int| 0 <= i < bands.len() ==> (#[trigger] bands[i]).count > 0
    &&& if bands.len() == 0 {
        height == 0
    } else {
        bands.last().first + bands.last().count == height
    }
}

/// Divides the rows of a picture over workers: bands of equal height, of which
/// the last may be shorter.
pub fn bands(height: u32, workers: u32) -> (bands: Vec<Band>)
    requires
        workers > 0,
    ensures
        tile(bands@, height as int),
        forall|i: int|
            0 <= i < bands@.len() - 1 ==> #[trigger] bands@[i].count == band_rows(
                height as int,
                workers as int,
            ),
        bands@.len() > 0 ==> bands@.last().count <= band_rows(height as int, workers as int),
        bands@.len() <= workers,
{
    let mut bands: Vec<Band> = Vec::new();
    if height == 0 {
        return bands;
    }
    let tall: u64 = (height as u64 + workers as u64 - 1) / workers as u64;
    proof {
        assert(1 <= tall <= height && tall * workers >= height) by (nonlinear_arith)
            requires
                tall == (height + workers - 1) / (workers as int),
                height >= 1,
                workers >= 1,
        ;
    }
    let mut first: u64 = 0;
    while first < height as u64
        invariant
            1 <= tall <= height,
            tall == band_rows(height as int, workers as int),
            tall * workers >= height,
            bands@.len() == 0 <==> first == 0,
            first <= height,
            first < height ==> first == bands@.len() * tall,
            first == height ==> bands@.len() <= workers,
            bands@.len() > 0 ==> tile(bands@, first as int),
            forall|i: int| 0 <= i < bands@.len() ==> #[trigger] bands@[i].count <= tall,
            forall|i: int|
                0 <= i < bands@.len() ==> (first < height || i < bands@.len() - 1)
                    ==> #[trigger] bands@[i].count == tall,
        decreases height - first,
    {
        let left: u64 = height as u64 - first;
        let count: u64 = if tall < left {
            tall
        } else {
            left
        };
        let ghost before = bands@;
        bands.push(Band { first: first as u32, count: count as u32 });
        proof {
            let n = before.len() as int;
            assert((n + 1) * tall == n * tall + tall) by (nonlinear_arith);
            assert(n < workers) by (nonlinear_arith)
                requires
                    n * tall < height,
                    tall * workers >= height,
                    tall >= 1,
            ;
            assert forall|i: int, j: int|
                0 <= i < bands@.len() && j == i + 1 && j < bands@.len() implies (
            #[trigger] bands@[j]).first == (#[trigger] bands@[i]).first + bands@[i].count by {
                assert(bands@[i] == before[i]);
                if j < n {
                    assert(bands@[j] == before[j]);
                }
            }
        }
        first = first + count;
    }
    bands
}

/// How many columns of a captured canvas can be read.
pub open spec fn usable_columns(canvas_width: int, stride: int, bytes: int) -> int {
    if canvas_width < stride / bytes {
        canvas_width
    } else {
        stride / bytes
    }
}

/// How many rows of a captured canvas can be read.
pub open spec fn usable_rows(canvas_height: int, stride: int, len: int) -> int {
    let rows = if stride == 0 {
        len
    } else {
        len / stride
    };
    if canvas_height < rows {
        canvas_height
    } else {
        rows
    }
}

/// The part of a captured canvas that can be read, from what the capture claims
/// of its size and what its buffer holds. A capture that is being resized may
/// claim more than it has.
pub fn usable_area(
    canvas_width: u32,
    canvas_height: u32,
    stride: u32,
    len: usize,
    format: PixelFormat,
) -> (usable: (u32, u32))
    requires
        0 < format.bytes <= u32::MAX,
    ensures
        usable.0 == usable_columns(canvas_width as int, stride as int, format.bytes as int),
        usable.1 == usable_rows(canvas_height as int, stride as int, len as int),
        usable.0 == if canvas_width < stride / format.bytes as u32 {
            canvas_width
        } else {
            stride / format.bytes as u32
        },
        usable.1 == ({
            let rows = len as int / (if stride == 0 {
                1
            } else {
                stride as int
            });
            if canvas_height < rows {
                canvas_height as int
            } else {
                rows
            }
        }),
        usable.1 > 0 && usable.0 > 0 ==> (usable.1 - 1) * stride + usable.0 * format.bytes <= len,
{
    let columns: u32 = stride / format.bytes as u32;
    let length: u64 = len as u64;
    let step: u64 = if stride == 0 {
        1
    } else {
        stride as u64
    };
    let rows: u64 = length / step;
    let width: u32 = if canvas_width < columns {
        canvas_width
    } else {
        columns
    };
    let height: u32 = if (canvas_height as u64) < rows {
        canvas_height
    } else {
        assert(rows <= canvas_height);
        rows as u32
    };
    proof {
        let bytes = format.bytes as int;
        assert(columns * bytes <= stride) by (nonlinear_arith)
            requires
                columns == stride / (format.bytes as u32),
                bytes == format.bytes as u32,
                bytes > 0,
        ;
        assert(width * bytes <= columns * bytes) by (nonlinear_arith)
            requires
                width <= columns,
                bytes > 0,
        ;
        if height > 0 && width > 0 {
            assert(stride > 0) by {
                if stride == 0 {
                    assert(width * bytes > 0) by (nonlinear_arith)
                        requires
                            width > 0,
                            bytes > 0,
                    ;
                }
            }
            assert(rows * stride <= length) by (nonlinear_arith)
                requires
                    rows == length / step,
                    step == stride,
                    step > 0,
            ;
            assert(height * stride <= rows * stride) by (nonlinear_arith)
                requires
                    height <= rows,
                    stride >= 0,
            ;
            assert((height - 1) * stride == height * stride - stride) by (nonlinear_arith);
        }
    }
    (width, height)
}

} // verus!
