//! Pictures: cut out of a canvas, drawn from rectangles, or put on a canvas.
use suede::config::{CanvasRect, Corners, Point, TestPattern};
use suede::model::{Real, Rect};
use suede::projection::blend::{
    bands, blend_workers, paint_rows, pixel_format, shade, usable_area, Band, Blend, PixelFormat,
};
use suede::projection::slices::{Geometry, SliceSpec};
use suede::projection::static_pattern::{
    is_copied, is_whole, picture_size, static_canvases_fit, static_pattern_rgba,
};
use suede::projection::sync_pattern::{
    animated, flatten, paintable_rows, sync_shape_items, SyncGroup, SyncPaint, SyncRect,
};
use suede::reals::{real_of, real_of_signed};

fn canvas(height: u32, stride: u32) -> Vec<u8> {
    (0..stride * height)
        .map(|i| (i % 251) as u8)
        .collect::<Vec<u8>>()
}

fn blend_for<'a>(canvas: &'a [u8], transfer: &'a [(u16, u8)]) -> Blend<'a> {
    Blend {
        canvas,
        transfer,
        format: PixelFormat {
            bytes: 4,
            red: 2,
            green: 1,
            blue: 0,
        },
        stride: 40,
        y_invert: false,
        usable_width: 10,
        usable_height: 9,
        source_x: 2,
        source_y: 1,
        width: 6,
    }
}

#[test]
fn splitting_the_blend_changes_nothing() {
    let pixels = canvas(9, 40);
    let transfer: Vec<(u16, u8)> = (0..6 * 8).map(|i| ((i * 7 % 300) as u16, 3)).collect();
    let blend = blend_for(&pixels, &transfer);
    let rows = 7;
    let row_bytes = blend.width as usize * 4;

    let mut whole = vec![0u8; rows as usize * row_bytes];
    blend.rows(&mut whole, 0, rows);
    for band in 1..=rows {
        let mut split = vec![0u8; rows as usize * row_bytes];
        for (index, chunk) in split.chunks_mut(band as usize * row_bytes).enumerate() {
            let first = index as u32 * band;
            blend.rows(chunk, first, band.min(rows - first));
        }
        assert_eq!(split, whole, "band size {band} produced a different image");
    }
}

#[test]
fn workers_never_outnumber_rows() {
    for rows in 1..4u32 {
        assert!(blend_workers(20, rows) <= rows, "{rows} rows");
        assert!(blend_workers(20, rows) >= 1);
    }
}

#[test]
fn y_invert_is_honored_per_band() {
    let pixels = canvas(9, 40);
    let transfer: Vec<(u16, u8)> = vec![(256, 0); 6 * 8];
    let mut blend = blend_for(&pixels, &transfer);
    blend.y_invert = true;
    let rows = 6;
    let row_bytes = blend.width as usize * 4;

    let mut whole = vec![0u8; rows as usize * row_bytes];
    blend.rows(&mut whole, 0, rows);

    let mut split = vec![0u8; rows as usize * row_bytes];
    for (index, chunk) in split.chunks_mut(2 * row_bytes).enumerate() {
        blend.rows(chunk, index as u32 * 2, 2);
    }
    assert_eq!(split, whole);
}

#[test]
fn cpu_simple_unit_density_copy_preserves_source_bytes() {
    let pixels = canvas(9, 40);
    let transfer = vec![(256, 0); 6];
    let blend = blend_for(&pixels, &transfer);
    let mut output = vec![0u8; 6 * 4];
    blend.rows(&mut output, 0, 1);

    for x in 0..6usize {
        let source = 40usize + (2 + x) * 4;
        assert_eq!(
            &output[x * 4..x * 4 + 4],
            &[pixels[source], pixels[source + 1], pixels[source + 2], 255]
        );
    }
}

fn shader_walk(items: &[[u32; 4]], groups: u32, x: u32, y: u32) -> bool {
    let mut index = 0usize;
    for _ in 0..groups {
        let box_ = items[index];
        let head = items[index + 1];
        if x >= box_[0] && x < box_[2] && y >= box_[1] && y < box_[3] {
            for rect in 0..head[0] as usize {
                let r = items[index + 2 + rect];
                if x >= r[0] && x < r[2] && y >= r[1] && y < r[3] {
                    return true;
                }
            }
        }
        index = head[1] as usize;
    }
    false
}

fn rect(x0: u32, y0: u32, x1: u32, y1: u32) -> SyncRect {
    SyncRect { x0, y0, x1, y1 }
}

/// A counter frame for an output: a bar per bit of the frame number, a mark per
/// character of the output's name, and a tick for each of the two identifiers.
fn sync_rects(
    width: u32,
    height: u32,
    frame: u32,
    name: &str,
    snapshot_id: u64,
    unix_ms: u64,
) -> Vec<SyncGroup> {
    let cell = width / 16;
    let bars: Vec<SyncRect> = (0..16)
        .filter(|bit| frame >> bit & 1 == 1)
        .map(|bit| rect(bit * cell, 0, (bit + 1) * cell, height / 4))
        .collect();
    let marks: Vec<SyncRect> = (0..name.len() as u32)
        .map(|i| rect(2 * i + 1, height / 2, 2 * i + 2, height / 2 + 2))
        .collect();
    let ticks: Vec<SyncRect> = [snapshot_id, unix_ms]
        .iter()
        .map(|id| (id % u64::from(width - 3)) as u32)
        .map(|x| rect(x, height - 5, x + 3, height))
        .collect();
    vec![
        SyncGroup { bounds: rect(0, 0, width, height / 4), rects: bars },
        SyncGroup { bounds: rect(0, height / 2, width, height / 2 + 2), rects: marks },
        SyncGroup { bounds: rect(0, 0, 0, 0), rects: vec![] },
        SyncGroup { bounds: rect(0, height - 5, width, height), rects: ticks },
    ]
}

#[test]
fn the_packed_shape_list_lights_exactly_the_rectangles_it_was_built_from() {
    let (width, height) = (320u32, 200u32);
    let groups =
        sync_rects(width, height, 57, "DP-1", 9_000, 1_700_000_000_000);
    let (count, items) = sync_shape_items(&groups);
    assert_eq!(count as usize, groups.len());
    for y in 0..height {
        for x in 0..width {
            let expected = groups
                .iter()
                .any(|group| group.rects.iter().any(|rect| rect.contains(x, y)));
            assert_eq!(
                shader_walk(&items, count, x, y),
                expected,
                "pixel ({x},{y})"
            );
        }
    }
}

#[test]
fn the_last_groups_next_link_points_past_the_end() {
    let groups = sync_rects(640, 480, 3, "DP-2", 1, 1_700_000_000_000);
    let (count, items) = sync_shape_items(&groups);
    let mut index = 0usize;
    for _ in 0..count {
        index = items[index + 1][1] as usize;
    }
    assert_eq!(index, items.len());
}

#[test]
fn the_cpu_rasterizer_and_the_shader_produce_the_same_bytes() {
    let (width, height) = (96u32, 64u32);
    let transfer: Vec<(u16, u8)> = (0..height)
        .flat_map(|y| {
            (0..width).map(move |x| {
                let a = 64 + (x as u16 * 192) / width as u16;
                let b = ((y * 24) / height) as u8;
                (a, b)
            })
        })
        .collect();
    let groups =
        sync_rects(width, height, 88, "DP-9", 42, 1_700_000_000_000);
    let rects: Vec<SyncRect> = groups
        .iter()
        .flat_map(|group| group.rects.iter().copied())
        .collect();
    let (count, items) = sync_shape_items(&groups);

    let mut painted = vec![0u8; width as usize * height as usize * 4];
    SyncPaint {
        transfer: &transfer,
        rects: &rects,
        width,
    }
    .rows(&mut painted, 0, height);

    for y in 0..height {
        for x in 0..width {
            let (a, b) = transfer[(y * width + x) as usize];
            let input = if shader_walk(&items, count, x, y) {
                255u32
            } else {
                0
            };
            let expected = (((u32::from(a) * input) >> 8) + u32::from(b)).min(255) as u8;
            let offset = ((y * width + x) * 4) as usize;
            assert_eq!(
                &painted[offset..offset + 4],
                &[expected, expected, expected, 255],
                "pixel ({x},{y})"
            );
        }
    }
}

#[test]
fn a_banded_rasterize_matches_a_single_pass_one() {
    let (width, height) = (64u32, 48u32);
    let transfer = vec![(256u16, 0u8); (width * height) as usize];
    let rects: Vec<SyncRect> =
        sync_rects(width, height, 7, "DP-1", 5, 1_700_000_000_000)
            .iter()
            .flat_map(|group| group.rects.iter().copied())
            .collect();
    let paint = SyncPaint {
        transfer: &transfer,
        rects: &rects,
        width,
    };
    let mut whole = vec![0u8; width as usize * height as usize * 4];
    paint.rows(&mut whole, 0, height);
    let mut banded = vec![0u8; whole.len()];
    let band = 7u32;
    let row_bytes = width as usize * 4;
    for (index, chunk) in banded.chunks_mut(band as usize * row_bytes).enumerate() {
        let first = index as u32 * band;
        paint.rows(chunk, first, band.min(height - first));
    }
    assert_eq!(whole, banded);
}

#[test]
fn only_the_sync_pattern_is_animated() {
    assert!(animated(TestPattern::Sync));
    for pattern in [
        TestPattern::Grid,
        TestPattern::White,
        TestPattern::Black,
        TestPattern::Gamma,
        TestPattern::Identify,
        TestPattern::WarpAlignment,
    ] {
        assert!(!animated(pattern), "{pattern:?} must stay one-shot");
    }
}

#[test]
fn flattened_groups_keep_their_order() {
    let groups = sync_rects(64, 48, 5, "DP-1", 7, 9);
    let rects = flatten(&groups);
    assert_eq!(rects.len(), 8);
    assert_eq!(rects[0], rect(0, 0, 4, 12));
    assert_eq!(rects[1], rect(8, 0, 12, 12));
    assert_eq!(rects[7], rect(9, 43, 12, 48));
    assert!(rects[7].contains(11, 47) && !rects[7].contains(12, 47));
}

#[test]
fn black_is_lifted_and_white_is_not_exceeded() {
    assert_eq!(shade(256, 0, 200), 200);
    assert_eq!(shade(128, 3, 200), 103);
    assert_eq!(shade(0, 9, 255), 9);
    assert_eq!(shade(256, 10, 250), 255);
    assert_eq!(shade(65535, 255, 255), 255);
    let transfer = [(256u16, 7u8); 2];
    let rects = [rect(1, 0, 2, 1)];
    let mut painted = [9u8; 12];
    SyncPaint { transfer: &transfer, rects: &rects, width: 2 }.rows(&mut painted, 0, 1);
    assert_eq!(painted, [7, 7, 7, 255, 255, 255, 255, 255, 9, 9, 9, 9]);
}

#[test]
fn a_pixel_without_a_correction_or_a_source_is_opaque() {
    let pixels = canvas(9, 40);
    let transfer = [(0u16, 0u8)];
    let mut blend = blend_for(&pixels, &transfer);
    let mut output = vec![1u8; 6 * 4];
    blend.rows(&mut output, 0, 1);
    assert_eq!(&output[..4], &[0, 0, 0, 255]);
    let source = 40 + 3 * 4;
    assert_eq!(&output[4..7], &pixels[source..source + 3]);
    blend.source_x = 9;
    blend.rows(&mut output, 0, 1);
    assert_eq!(&output[4..8], &[0, 0, 0, 255]);
    assert_eq!(blend.sample(u32::MAX, 0), None);
    assert_eq!(blend.sample(0, 0), Some([pixels[76], pixels[77], pixels[78]]));
}

#[test]
fn sampled_colors_are_corrected_like_copied_ones() {
    let transfer = [(128u16, 2u8), (0, 0), (256, 0)];
    let mut output = [5u8; 16];
    paint_rows(&transfer, 3, &mut output, 0, 1, &|x, _| {
        if x == 2 {
            None
        } else {
            Some([100, 50, 0])
        }
    });
    assert_eq!(output, [52, 27, 2, 255, 0, 0, 0, 255, 0, 0, 0, 255, 5, 5, 5, 5]);
}

#[test]
fn formats_name_their_bytes() {
    let bgr = PixelFormat { bytes: 4, red: 2, green: 1, blue: 0 };
    assert_eq!(pixel_format(0), Some(bgr));
    assert_eq!(pixel_format(1), Some(bgr));
    let rgb = PixelFormat { bytes: 4, red: 0, green: 1, blue: 2 };
    assert_eq!(pixel_format(0x3432_4241), Some(rgb));
    assert_eq!(pixel_format(0x3432_4258), Some(rgb));
    let packed = PixelFormat { bytes: 3, red: 0, green: 1, blue: 2 };
    assert_eq!(pixel_format(0x3432_4742), Some(packed));
    let packed = PixelFormat { bytes: 3, red: 2, green: 1, blue: 0 };
    assert_eq!(pixel_format(0x3432_4752), Some(packed));
    assert_eq!(pixel_format(7), None);
}

#[test]
fn a_capture_that_claims_too_much_is_cut_to_its_buffer() {
    let format = PixelFormat { bytes: 4, red: 2, green: 1, blue: 0 };
    assert_eq!(usable_area(10, 9, 40, 360, format), (10, 9));
    assert_eq!(usable_area(20, 9, 40, 360, format), (10, 9));
    assert_eq!(usable_area(10, 20, 40, 365, format), (10, 9));
    assert_eq!(usable_area(10, 9, 0, 360, format), (0, 9));
    assert_eq!(paintable_rows(9, 10, 360), 9);
    assert_eq!(paintable_rows(9, 10, 359), 8);
    assert_eq!(paintable_rows(9, 0, 5), 5);
    let vast = 0x1_0000_0000usize + 40;
    assert_eq!(usable_area(10, 9, 40, vast, format), (10, 9));
    assert_eq!(paintable_rows(9, 1, 4 * vast), 9);
}

#[test]
fn bands_cover_every_row_once() {
    let band = |first, count| Band { first, count };
    assert_eq!(bands(7, 3), vec![band(0, 3), band(3, 3), band(6, 1)]);
    assert_eq!(bands(8, 1), vec![band(0, 8)]);
    assert_eq!(bands(0, 4), vec![]);
    assert_eq!(bands(9, 8), vec![band(0, 2), band(2, 2), band(4, 2), band(6, 2), band(8, 1)]);
    assert_eq!(blend_workers(20, 1080), 8);
    assert_eq!(blend_workers(4, 1080), 4);
    assert_eq!(blend_workers(4, 0), 1);
}

fn slice(rect: Rect, source_rect: Option<CanvasRect>) -> SliceSpec {
    SliceSpec {
        output: "DP-1".to_string(),
        source: rect,
        source_rect,
        geometry: None,
        ramps: vec![],
    }
}

fn number(value: f64) -> Real {
    Real { bits: value.to_bits() }
}

#[test]
fn whole_numbers_are_the_reals_that_they_are() {
    for n in [0u32, 1, 2, 3, 7, 240, 1080, 65_535, 65_536, 4_294_967_295] {
        assert_eq!(real_of(n), number(f64::from(n)), "{n}");
    }
    for n in [0i32, 1, -1, -31, 240, -1080, i32::MAX, i32::MIN] {
        assert_eq!(real_of_signed(n), number(f64::from(n)), "{n}");
    }
}

#[test]
fn a_picture_is_copied_to_its_place_and_cut_off_at_the_edge() {
    let rect = Rect { x: 3, y: 1, width: 2, height: 2 };
    let picture = [1u8, 2, 3, 4, 5, 6, 7, 8, 9, 10, 11, 12];
    let canvas = static_pattern_rgba(4, 3, &slice(rect, None), &picture);
    assert_eq!(canvas.len(), 4 * 3 * 4);
    assert_eq!(&canvas[..4], &[0, 0, 0, 255]);
    assert_eq!(&canvas[(4 + 3) * 4..(4 + 4) * 4], &[1, 2, 3, 255]);
    assert_eq!(&canvas[(8 + 3) * 4..(8 + 4) * 4], &[7, 8, 9, 255]);
    assert_eq!(&canvas[(8 + 2) * 4..(8 + 3) * 4], &[0, 0, 0, 255]);
}

#[test]
fn only_a_source_that_is_its_raster_is_copied() {
    let rect = Rect { x: 30, y: 20, width: 240, height: 180 };
    let source = CanvasRect { x: number(30.0), y: number(20.0), width: number(240.0), height: number(180.0) };
    assert!(is_whole(&slice(rect, None)));
    assert!(is_whole(&slice(rect, Some(source))));
    assert!(!is_whole(&slice(rect, Some(CanvasRect { x: number(30.25), ..source }))));
    let beyond = Rect { x: -1, ..rect };
    assert!(!is_whole(&slice(beyond, None)));
    assert!(is_copied(&slice(beyond, None)));
    let left = CanvasRect { x: number(-1.0), ..source };
    assert!(is_copied(&slice(beyond, Some(left))));
    assert!(!is_copied(&slice(beyond, Some(source))));
    assert!(!is_copied(&slice(beyond, Some(CanvasRect { x: number(-1.25), ..source }))));
}

#[test]
fn pictures_have_limits() {
    let rect = Rect { x: 0, y: 0, width: 240, height: 180 };
    assert_eq!(picture_size(320, 240, rect), Ok((240, 180)));
    assert_eq!(
        picture_size(0, 240, rect),
        Err("invalid static canvas dimensions".to_string())
    );
    assert_eq!(
        picture_size(8001, 8000, rect),
        Err("invalid static canvas dimensions".to_string())
    );
    assert_eq!(
        picture_size(320, 240, Rect { width: 0, ..rect }),
        Err("invalid static pattern source rectangle".to_string())
    );
    assert_eq!(
        picture_size(320, 240, Rect { width: 8000, height: 4001, ..rect }),
        Err("static pattern output exceeds the 32 megapixel limit".to_string())
    );
    assert_eq!(static_canvases_fit(8000, 4000, 2), Ok(()));
    assert_eq!(
        static_canvases_fit(8000, 4000, 3),
        Err("static pattern canvases exceed the 64 megapixel resource limit".to_string())
    );
    assert_eq!(static_canvases_fit(8000, -1, 1), Err("invalid canvas dimensions".to_string()));
}

#[test]
fn bands_may_begin_at_any_row() {
    let pixels = canvas(9, 40);
    let transfer: Vec<(u16, u8)> = (0..6 * 8).map(|i| ((i * 7 % 300) as u16, 3)).collect();
    let blend = blend_for(&pixels, &transfer);
    let row_bytes = blend.width as usize * 4;
    let mut whole = vec![0u8; 5 * row_bytes];
    blend.rows(&mut whole, 2, 5);
    for workers in 1..=5 {
        let mut split = vec![0u8; 5 * row_bytes];
        for band in bands(5, workers) {
            let from = band.first as usize * row_bytes;
            let part = &mut split[from..from + band.count as usize * row_bytes];
            blend.rows(part, 2 + band.first, band.count);
        }
        assert_eq!(split, whole, "{workers} workers");
    }
    assert!(whole.chunks(4).all(|pixel| pixel[3] == 255));
}

#[test]
fn what_is_not_lit_or_not_there_is_opaque_black() {
    let pixels = canvas(9, 40);
    let transfer: Vec<(u16, u8)> = vec![(0, 0); 6 * 10];
    let dark = blend_for(&pixels, &transfer);
    let mut bytes = vec![9u8; 6 * 4];
    dark.rows(&mut bytes, 0, 1);
    assert!(bytes.chunks(4).all(|pixel| pixel == [0, 0, 0, 255]));
    let transfer: Vec<(u16, u8)> = vec![(256, 0); 6 * 10];
    let beyond = blend_for(&pixels, &transfer);
    beyond.rows(&mut bytes, 8, 1);
    assert!(bytes.chunks(4).all(|pixel| pixel == [0, 0, 0, 255]));
}

#[test]
fn pins_and_the_raster_itself_change_no_picture() {
    let rect = Rect { x: 1, y: 1, width: 2, height: 1 };
    let picture = [1u8, 2, 3, 4, 5, 6];
    let plain = slice(rect, None);
    let mut pinned = plain.clone();
    let corner = |x: f64, y: f64| Point { x: number(x), y: number(y) };
    pinned.geometry = Some(Geometry {
        corners: Corners {
            top_left: corner(10.0, 5.0),
            top_right: corner(230.0, 0.0),
            bottom_right: corner(240.0, 175.0),
            bottom_left: corner(0.0, 180.0),
        },
        center: corner(0.4, 0.6),
    });
    let source =
        CanvasRect { x: number(1.0), y: number(1.0), width: number(2.0), height: number(1.0) };
    let cropped = slice(rect, Some(source));
    assert!(is_whole(&plain) && is_whole(&pinned) && is_whole(&cropped));
    let canvas = static_pattern_rgba(4, 3, &plain, &picture);
    assert_eq!(canvas, static_pattern_rgba(4, 3, &pinned, &picture));
    assert_eq!(canvas, static_pattern_rgba(4, 3, &cropped, &picture));
    assert_eq!(canvas.len(), 4 * 3 * 4);
    assert!(canvas.chunks(4).all(|pixel| pixel[3] == 255));
    assert_eq!(&canvas[5 * 4..7 * 4], &[1, 2, 3, 255, 4, 5, 6, 255]);
}

#[test]
fn a_raster_that_begins_off_the_canvas_is_cut_off_and_keeps_its_bytes() {
    let rect = Rect { x: -1, y: -1, width: 2, height: 2 };
    let picture = [1u8, 2, 3, 4, 5, 6, 7, 8, 9, 10, 11, 12];
    let source =
        CanvasRect { x: number(-1.0), y: number(-1.0), width: number(2.0), height: number(2.0) };
    let canvas = static_pattern_rgba(2, 2, &slice(rect, None), &picture);
    assert_eq!(
        canvas,
        [10, 11, 12, 255, 0, 0, 0, 255, 0, 0, 0, 255, 0, 0, 0, 255]
    );
    assert_eq!(canvas, static_pattern_rgba(2, 2, &slice(rect, Some(source)), &picture));
    let far = Rect { x: i32::MIN, y: 0, width: 2, height: 2 };
    let blank = static_pattern_rgba(2, 2, &slice(far, None), &picture);
    assert!(blank.chunks(4).all(|pixel| pixel == [0, 0, 0, 255]));
}
