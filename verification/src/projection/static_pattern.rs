//! Test patterns that do not move: one picture per output, at its place on a
//! canvas of its own.
use crate::config::CanvasRect;
use crate::model::{real_eq, Rect};
use crate::projection::blend::{pixel_at, pixel_fits, same_rows_same_bytes};
use crate::projection::slices::SliceSpec;
use crate::reals::{real_of_signed, signed_whole, whole_equals_itself};
use vstd::prelude::*;
use vstd::string::*;

verus! {

/// The pixels that the canvases of all outputs may have together.
pub const MAX_CANVAS_PIXELS: u64 = 64_000_000;

/// The pixels that one output's picture may have.
pub const MAX_PICTURE_PIXELS: u64 = 32_000_000;

/// Canvases of a size can be made for so many outputs.
pub open spec fn canvases_fit(canvas_width: int, canvas_height: int, outputs: int) -> bool {
    canvas_width > 0 && canvas_height > 0 && canvas_width * canvas_height * outputs
        <= MAX_CANVAS_PIXELS
}

/// Whether canvases can be made for so many outputs.
pub fn static_canvases_fit(canvas_width: i32, canvas_height: i32, outputs: usize) -> (verdict: Result<
    (),
    String,
>)
    ensures
        verdict is Ok <==> canvases_fit(
            canvas_width as int,
            canvas_height as int,
            outputs as int,
        ),
        match verdict {
            Ok(_) => canvas_width > 0 && canvas_height > 0 && canvas_width * canvas_height * outputs
                <= MAX_CANVAS_PIXELS,
            Err(reason) => if canvas_width <= 0 || canvas_height <= 0 {
                reason@ == "invalid canvas dimensions"@
            } else {
                canvas_width * canvas_height * outputs > MAX_CANVAS_PIXELS && reason@
                    == "static pattern canvases exceed the 64 megapixel resource limit"@
            },
        },
{
    if canvas_width <= 0 || canvas_height <= 0 {
        return Err("invalid canvas dimensions".to_owned());
    }
    proof {
        assert(1 <= canvas_width * canvas_height <= 0x7fff_ffff * 0x7fff_ffff) by (nonlinear_arith)
            requires
                1 <= canvas_width <= 0x7fff_ffff,
                1 <= canvas_height <= 0x7fff_ffff,
        ;
    }
    let pixels: u64 = canvas_width as u64 * canvas_height as u64;
    proof {
        assert(pixels * outputs <= 0x7fff_ffff * 0x7fff_ffff * 0xffff_ffff_ffff_ffff)
            by (nonlinear_arith)
            requires
                0 <= pixels <= 0x7fff_ffff * 0x7fff_ffff,
                0 <= outputs <= 0xffff_ffff_ffff_ffff,
        ;
        assert(0 <= pixels * outputs) by (nonlinear_arith)
            requires
                0 <= pixels,
                0 <= outputs,
        ;
    }
    let total: u128 = pixels as u128 * outputs as u128;
    if total > MAX_CANVAS_PIXELS as u128 {
        return Err("static pattern canvases exceed the 64 megapixel resource limit".to_owned());
    }
    Ok(())
}

/// Why no picture can be made for an output, if so.
pub open spec fn picture_fault(canvas_width: i32, canvas_height: i32, rect: Rect) -> Option<Seq<char>> {
    if canvas_width <= 0 || canvas_height <= 0 || canvas_width * canvas_height > MAX_CANVAS_PIXELS {
        Some("invalid static canvas dimensions"@)
    } else if rect.width <= 0 || rect.height <= 0 {
        Some("invalid static pattern source rectangle"@)
    } else if rect.width * rect.height > MAX_PICTURE_PIXELS {
        Some("static pattern output exceeds the 32 megapixel limit"@)
    } else {
        None
    }
}

/// The size of the picture of an output, where one can be made.
pub fn picture_size(canvas_width: i32, canvas_height: i32, rect: Rect) -> (size: Result<
    (u32, u32),
    String,
>)
    ensures
        match picture_fault(canvas_width, canvas_height, rect) {
            Some(fault) => size matches Err(reason) && reason@ == fault,
            None => size == Ok::<(u32, u32), String>((rect.width as u32, rect.height as u32)),
        },
{
    if canvas_width <= 0 || canvas_height <= 0 {
        return Err("invalid static canvas dimensions".to_owned());
    }
    proof {
        assert(canvas_width * canvas_height <= 0x7fff_ffff * 0x7fff_ffff) by (nonlinear_arith)
            requires
                1 <= canvas_width <= 0x7fff_ffff,
                1 <= canvas_height <= 0x7fff_ffff,
        ;
        assert(0 <= canvas_width * canvas_height) by (nonlinear_arith)
            requires
                1 <= canvas_width,
                1 <= canvas_height,
        ;
    }
    if canvas_width as u64 * canvas_height as u64 > MAX_CANVAS_PIXELS {
        return Err("invalid static canvas dimensions".to_owned());
    }
    if rect.width <= 0 || rect.height <= 0 {
        return Err("invalid static pattern source rectangle".to_owned());
    }
    proof {
        let w = rect.width;
        let h = rect.height;
        assert(0 <= w * h <= 0x7fff_ffff * 0x7fff_ffff) by (nonlinear_arith)
            requires
                1 <= w <= 0x7fff_ffff,
                1 <= h <= 0x7fff_ffff,
        ;
    }
    if rect.width as u64 * rect.height as u64 > MAX_PICTURE_PIXELS {
        return Err("static pattern output exceeds the 32 megapixel limit".to_owned());
    }
    Ok((rect.width as u32, rect.height as u32))
}

/// The part of the canvas that an output shows is its raster, pixel for pixel: it
/// is not said, or it is said to be the raster.
pub open spec fn shows_raster(rect: Rect, source: Option<CanvasRect>) -> bool {
    match source {
        None => true,
        Some(source) => real_eq(source.x, signed_whole(rect.x)) && real_eq(
            source.y,
            signed_whole(rect.y),
        ) && real_eq(source.width, signed_whole(rect.width)) && real_eq(
            source.height,
            signed_whole(rect.height),
        ),
    }
}

/// Whether the part of the canvas that an output shows is its raster, pixel for
/// pixel, so that its picture is copied and not resampled.
pub fn is_copied(slice: &SliceSpec) -> (copied: bool)
    ensures
        copied == shows_raster(slice.source, slice.source_rect),
{
    let rect = slice.source;
    match slice.source_rect {
        None => true,
        Some(source) => source.x.equals(real_of_signed(rect.x)) && source.y.equals(
            real_of_signed(rect.y),
        ) && source.width.equals(real_of_signed(rect.width)) && source.height.equals(
            real_of_signed(rect.height),
        ),
    }
}

/// Whether an output shows its raster, pixel for pixel, and nothing of it lies to
/// the left of the canvas or above it.
pub fn is_whole(slice: &SliceSpec) -> (whole: bool)
    ensures
        whole == (slice.source.x >= 0 && slice.source.y >= 0 && shows_raster(
            slice.source,
            slice.source_rect,
        )),
{
    slice.source.x >= 0 && slice.source.y >= 0 && is_copied(slice)
}

/// The pixel at a place of a canvas that holds a picture: the picture's where it
/// reaches, and black around it.
pub open spec fn canvas_pixel(rect: Rect, picture: Seq<u8>, x: int, y: int) -> Seq<u8> {
    if rect.x <= x < rect.x + rect.width && rect.y <= y < rect.y + rect.height {
        let at = ((y - rect.y) * rect.width + (x - rect.x)) * 3;
        seq![picture[at], picture[at + 1], picture[at + 2], 255u8]
    } else {
        seq![0u8, 0, 0, 255]
    }
}

/// The bytes are a canvas that holds a picture at its place, and black around it.
pub open spec fn holds_picture(
    canvas: Seq<u8>,
    canvas_width: i32,
    canvas_height: i32,
    rect: Rect,
    picture: Seq<u8>,
) -> bool {
    &&& canvas.len() == canvas_width * canvas_height * 4
    &&& forall|x: int, y: int|
        0 <= x < canvas_width && 0 <= y < canvas_height ==> #[trigger] pixel_at(
            canvas,
            canvas_width as int,
            x,
            y,
        ) == canvas_pixel(rect, picture, x, y)
}

/// Puts the picture of an output at its place on a canvas, where the output shows
/// its raster. The picture has three bytes per pixel, and the canvas four. What
/// reaches beyond the canvas, on any side, is cut off.
pub fn static_pattern_rgba(
    canvas_width: i32,
    canvas_height: i32,
    slice: &SliceSpec,
    picture: &[u8],
) -> (canvas: Vec<u8>)
    requires
        picture_fault(canvas_width, canvas_height, slice.source) is None,
        shows_raster(slice.source, slice.source_rect),
        picture@.len() == slice.source.width * slice.source.height * 3,
    ensures
        holds_picture(canvas@, canvas_width, canvas_height, slice.source, picture@),
{
    let rect = slice.source;
    let mut canvas: Vec<u8> = Vec::new();
    let ghost width = canvas_width as int;
    let mut y: i32 = 0;
    while y < canvas_height
        invariant
            0 <= y <= canvas_height,
            0 < canvas_width,
            width == canvas_width,
            rect.width > 0,
            rect.height > 0,
            picture@.len() == rect.width * rect.height * 3,
            canvas@.len() == y * width * 4,
            forall|i: int, j: int|
                0 <= i < width && 0 <= j < y ==> #[trigger] pixel_at(canvas@, width, i, j)
                    == canvas_pixel(rect, picture@, i, j),
        decreases canvas_height - y,
    {
        let mut x: i32 = 0;
        while x < canvas_width
            invariant
                0 <= x <= canvas_width,
                0 <= y < canvas_height,
                0 < canvas_width,
                width == canvas_width,
                rect.width > 0,
                rect.height > 0,
                picture@.len() == rect.width * rect.height * 3,
                canvas@.len() == (y * width + x) * 4,
                forall|i: int, j: int|
                    0 <= i < width && 0 <= j && (j < y || (j == y && i < x)) ==> #[trigger] pixel_at(
                        canvas@,
                        width,
                        i,
                        j,
                    ) == canvas_pixel(rect, picture@, i, j),
            decreases canvas_width - x,
        {
            let ghost before = canvas@;
            let across: i64 = x as i64 - rect.x as i64;
            let down: i64 = y as i64 - rect.y as i64;
            if 0 <= across && across < rect.width as i64 && 0 <= down && down < rect.height as i64 {
                proof {
                    assert(picture.len() <= usize::MAX);
                    pixel_fits(
                        rect.width as int,
                        rect.height as int,
                        x - rect.x,
                        y - rect.y,
                    );
                    let w = rect.width as int;
                    let h = rect.height as int;
                    assert(w * h == h * w) by (nonlinear_arith);
                }
                let at: usize = (down as usize * rect.width as usize + across as usize) * 3;
                canvas.push(picture[at]);
                canvas.push(picture[at + 1]);
                canvas.push(picture[at + 2]);
            } else {
                canvas.push(0);
                canvas.push(0);
                canvas.push(0);
            }
            canvas.push(255);
            proof {
                let at = (y * width + x) * 4;
                assert(pixel_at(canvas@, width, x as int, y as int) =~= canvas_pixel(
                    rect,
                    picture@,
                    x as int,
                    y as int,
                ));
                assert forall|i: int, j: int|
                    0 <= i < width && 0 <= j && (j < y || (j == y && i < x + 1)) implies
                    #[trigger] pixel_at(canvas@, width, i, j) == canvas_pixel(
                    rect,
                    picture@,
                    i,
                    j,
                ) by {
                    if i != x || j != y {
                        if j < y {
                            pixel_fits(width, y as int, i, j);
                        } else {
                            assert(j == y);
                        }
                        assert(0 <= j * width) by (nonlinear_arith)
                            requires
                                0 <= j,
                                0 <= width,
                        ;
                        assert((j * width + i) * 4 + 4 <= at);
                        assert(pixel_at(canvas@, width, i, j) =~= pixel_at(before, width, i, j));
                    }
                }
            }
            x = x + 1;
        }
        assert((y + 1) * width == y * width + width) by (nonlinear_arith);
        y = y + 1;
    }
    assert(canvas_height * width * 4 == canvas_width * canvas_height * 4) by (nonlinear_arith)
        requires
            width == canvas_width,
    ;
    canvas
}

/// A rectangle of the canvas that is a raster, written out.
pub open spec fn raster(rect: Rect) -> CanvasRect {
    CanvasRect {
        x: signed_whole(rect.x),
        y: signed_whole(rect.y),
        width: signed_whole(rect.width),
        height: signed_whole(rect.height),
    }
}

/// Pins move nothing on a canvas, and a part of the canvas that is the raster
/// itself is as good as none, wherever the raster lies: slices that differ in these
/// alone are refused together, and otherwise are all copied and give the same
/// bytes. A canvas has four bytes to the pixel, and every pixel of it is opaque.
pub proof fn canvas_ignores_pins_and_the_raster_itself(
    canvas_width: i32,
    canvas_height: i32,
    plain: SliceSpec,
    pinned: SliceSpec,
    cropped: SliceSpec,
)
    requires
        plain.source_rect is None,
        pinned == (SliceSpec { geometry: pinned.geometry, ..plain }),
        cropped == (SliceSpec { source_rect: Some(raster(plain.source)), ..plain }),
    ensures
        picture_fault(canvas_width, canvas_height, pinned.source) == picture_fault(
            canvas_width,
            canvas_height,
            plain.source,
        ),
        picture_fault(canvas_width, canvas_height, cropped.source) == picture_fault(
            canvas_width,
            canvas_height,
            plain.source,
        ),
        shows_raster(plain.source, plain.source_rect),
        shows_raster(pinned.source, pinned.source_rect),
        shows_raster(cropped.source, cropped.source_rect),
        forall|picture: Seq<u8>, a: Seq<u8>, b: Seq<u8>, c: Seq<u8>|
            picture_fault(canvas_width, canvas_height, plain.source) is None
                && #[trigger] holds_picture(a, canvas_width, canvas_height, plain.source, picture)
                && #[trigger] holds_picture(b, canvas_width, canvas_height, pinned.source, picture)
                && #[trigger] holds_picture(c, canvas_width, canvas_height, cropped.source, picture)
                ==> a == b && b == c,
        forall|picture: Seq<u8>, a: Seq<u8>|
            #[trigger] holds_picture(a, canvas_width, canvas_height, plain.source, picture)
                ==> a.len() == canvas_width * canvas_height * 4,
        forall|picture: Seq<u8>, a: Seq<u8>, x: int, y: int|
            #[trigger] holds_picture(a, canvas_width, canvas_height, plain.source, picture) && 0
                <= x < canvas_width && 0 <= y < canvas_height ==> #[trigger] a[(y * canvas_width
                + x) * 4 + 3] == 255,
{
    let rect = plain.source;
    whole_equals_itself(rect.x);
    whole_equals_itself(rect.y);
    whole_equals_itself(rect.width);
    whole_equals_itself(rect.height);
    assert forall|picture: Seq<u8>, a: Seq<u8>, b: Seq<u8>, c: Seq<u8>|
        picture_fault(canvas_width, canvas_height, plain.source) is None
            && #[trigger] holds_picture(a, canvas_width, canvas_height, plain.source, picture)
            && #[trigger] holds_picture(b, canvas_width, canvas_height, pinned.source, picture)
            && #[trigger] holds_picture(
            c,
            canvas_width,
            canvas_height,
            cropped.source,
            picture,
        ) implies a == b && b == c by {
        lemma_one_canvas(a, b, canvas_width, canvas_height, rect, picture);
        lemma_one_canvas(b, c, canvas_width, canvas_height, rect, picture);
    }
    assert forall|picture: Seq<u8>, a: Seq<u8>, x: int, y: int|
        #[trigger] holds_picture(a, canvas_width, canvas_height, plain.source, picture) && 0 <= x
            < canvas_width && 0 <= y < canvas_height implies #[trigger] a[(y * canvas_width + x)
        * 4 + 3] == 255 by {
        let width = canvas_width as int;
        let height = canvas_height as int;
        pixel_fits(width, height, x, y);
        assert(width * height == height * width) by (nonlinear_arith);
        let shown = pixel_at(a, width, x, y);
        assert(shown == canvas_pixel(rect, picture, x, y));
        assert(shown[3] == a[(y * width + x) * 4 + 3]);
    }
}

proof fn lemma_one_canvas(
    a: Seq<u8>,
    b: Seq<u8>,
    canvas_width: i32,
    canvas_height: i32,
    rect: Rect,
    picture: Seq<u8>,
)
    requires
        canvas_width > 0,
        holds_picture(a, canvas_width, canvas_height, rect, picture),
        holds_picture(b, canvas_width, canvas_height, rect, picture),
    ensures
        a == b,
{
    let width = canvas_width as int;
    let height = canvas_height as int;
    assert(width * height == height * width) by (nonlinear_arith);
    if height >= 0 {
        same_rows_same_bytes(
            |x: int, y: int| canvas_pixel(rect, picture, x, y),
            width,
            a,
            0,
            height,
            b,
            0,
            height,
        );
        assert(0 * width * 4 == 0);
        assert(a.subrange(0, a.len() as int) =~= a);
    } else {
        assert(width * height < 0) by (nonlinear_arith)
            requires
                width > 0,
                height < 0,
        ;
    }
}

} // verus!
