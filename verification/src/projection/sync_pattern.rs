//! A moving test pattern that the run draws itself, out of rectangles.
use crate::config::TestPattern;
use crate::projection::blend::{
    correction, pixel, pixel_at, pixel_fits, pixels_are_apart, put_pixel, same_rows_same_bytes,
    shade, shaded,
};
use vstd::prelude::*;

verus! {

/// Whether a pattern moves, and so is drawn anew for each frame.
pub fn animated(pattern: TestPattern) -> (moves: bool)
    ensures
        moves == (pattern == TestPattern::Sync),
{
    match pattern {
        TestPattern::Sync => true,
        TestPattern::Grid | TestPattern::White | TestPattern::Black | TestPattern::Gamma
        | TestPattern::Identify | TestPattern::WarpAlignment => false,
    }
}

/// A rectangle of pixels, without its right and lower edge.
#[derive(Clone, Copy, Debug, PartialEq, Eq, Structural)]
pub struct SyncRect {
    pub x0: u32,
    pub y0: u32,
    pub x1: u32,
    pub y1: u32,
}

impl SyncRect {
    /// A pixel lies in the rectangle.
    pub open spec fn holds(self, x: int, y: int) -> bool {
        self.x0 <= x < self.x1 && self.y0 <= y < self.y1
    }

    /// Whether a pixel lies in the rectangle.
    pub fn contains(&self, x: u32, y: u32) -> (inside: bool)
        ensures
            inside == self.holds(x as int, y as int),
    {
        self.x0 <= x && x < self.x1 && self.y0 <= y && y < self.y1
    }
}

/// Rectangles that are lit together, and a box around them.
pub struct SyncGroup {
    pub bounds: SyncRect,
    pub rects: Vec<SyncRect>,
}

impl SyncGroup {
    /// The box holds every rectangle of the group.
    pub open spec fn is_bounded(self) -> bool {
        forall|i: int, x: int, y: int|
            0 <= i < self.rects@.len() && #[trigger] self.rects@[i].holds(x, y)
                ==> self.bounds.holds(x, y)
    }
}

/// A pixel lies in one of the rectangles.
pub open spec fn in_any(rects: Seq<SyncRect>, x: int, y: int) -> bool {
    exists|i: int| 0 <= i < rects.len() && #[trigger] rects[i].holds(x, y)
}

/// A rectangle as it is packed.
pub open spec fn packed_rect(rect: SyncRect) -> Seq<u32> {
    seq![rect.x0, rect.y0, rect.x1, rect.y1]
}

/// How many entries the first `n` groups take.
pub open spec fn packed_len(groups: Seq<SyncGroup>, n: int) -> int
    decreases n,
{
    if n <= 0 {
        0
    } else {
        packed_len(groups, n - 1) + 2 + groups[n - 1].rects@.len()
    }
}

/// A group as it is packed, where `next` is the entry at which the group after
/// it begins: the box, then how many rectangles there are and where to go on,
/// then the rectangles.
pub open spec fn packed_group(group: SyncGroup, next: int) -> Seq<Seq<u32>> {
    seq![
        packed_rect(group.bounds),
        seq![group.rects@.len() as u32, next as u32, 0u32, 0u32],
    ] + group.rects@.map_values(|rect: SyncRect| packed_rect(rect))
}

/// The first `n` groups as they are packed.
pub open spec fn packed(groups: Seq<SyncGroup>, n: int) -> Seq<Seq<u32>>
    decreases n,
{
    if n <= 0 {
        Seq::empty()
    } else {
        packed(groups, n - 1) + packed_group(groups[n - 1], packed_len(groups, n))
    }
}

/// A list of entries.
pub open spec fn entries(items: Seq<[u32; 4]>) -> Seq<Seq<u32>> {
    items.map_values(|item: [u32; 4]| item@)
}

proof fn packed_len_grows(groups: Seq<SyncGroup>, m: int, n: int)
    requires
        0 <= m <= n <= groups.len(),
    ensures
        0 <= packed_len(groups, m) <= packed_len(groups, n),
        m < n ==> packed_len(groups, m) + 2 + groups[m].rects@.len() <= packed_len(groups, n),
        packed(groups, n).len() == packed_len(groups, n),
    decreases n,
{
    if n > 0 {
        if m < n {
            packed_len_grows(groups, m, n - 1);
        } else {
            packed_len_grows(groups, m - 1, n - 1);
        }
    }
}

/// Packs groups into the flat list that a shader walks. Returns how many groups
/// there are beside it.
pub fn sync_shape_items(groups: &[SyncGroup]) -> (shapes: (u32, Vec<[u32; 4]>))
    requires
        packed_len(groups@, groups@.len() as int) <= u32::MAX,
    ensures
        shapes.0 == groups@.len(),
        entries(shapes.1@) == packed(groups@, groups@.len() as int),
{
    let mut items: Vec<[u32; 4]> = Vec::new();
    let mut g: usize = 0;
    let ghost total = groups@.len() as int;
    proof {
        packed_len_grows(groups@, 0, total);
        assert(entries(items@) =~= packed(groups@, 0));
    }
    while g < groups.len()
        invariant
            g <= groups@.len(),
            total == groups@.len(),
            packed_len(groups@, total) <= u32::MAX,
            entries(items@) == packed(groups@, g as int),
            2 * g <= packed_len(groups@, g as int),
        decreases groups@.len() - g,
    {
        let group = &groups[g];
        proof {
            packed_len_grows(groups@, g as int, total);
            packed_len_grows(groups@, g as int, g as int);
            packed_len_grows(groups@, g + 1, total);
            assert(entries(items@).len() == items@.len());
        }
        let ghost before = entries(items@);
        let held: usize = group.rects.len();
        let next: u32 = items.len() as u32 + 2 + held as u32;
        let bounds = [group.bounds.x0, group.bounds.y0, group.bounds.x1, group.bounds.y1];
        let header = [held as u32, next, 0, 0];
        items.push(bounds);
        items.push(header);
        assert(bounds@ =~= packed_rect(group.bounds));
        assert(header@ =~= seq![group.rects@.len() as u32, next, 0u32, 0u32]);
        let mut r: usize = 0;
        assert(entries(items@) =~= before + seq![bounds@, header@] + group.rects@.take(
            0,
        ).map_values(|rect: SyncRect| packed_rect(rect)));
        while r < held
            invariant
                r <= held,
                held == group.rects@.len(),
                entries(items@) == before + seq![bounds@, header@] + group.rects@.take(
                    r as int,
                ).map_values(|rect: SyncRect| packed_rect(rect)),
            decreases held - r,
        {
            let rect = group.rects[r];
            let item = [rect.x0, rect.y0, rect.x1, rect.y1];
            let ghost shorter = entries(items@);
            items.push(item);
            proof {
                assert(item@ =~= packed_rect(rect));
                assert(entries(items@) =~= shorter.push(item@));
                assert(group.rects@.take(r + 1) =~= group.rects@.take(r as int).push(rect));
                assert(entries(items@) =~= before + seq![bounds@, header@] + group.rects@.take(
                    r + 1,
                ).map_values(|rect: SyncRect| packed_rect(rect)));
            }
            r = r + 1;
        }
        proof {
            assert(group.rects@.take(held as int) =~= group.rects@);
            assert(entries(items@) =~= before + packed_group(*group, next as int));
            assert(packed(groups@, g + 1) == before + packed_group(
                groups@[g as int],
                packed_len(groups@, g + 1),
            ));
        }
        g = g + 1;
    }
    (groups.len() as u32, items)
}

/// Where the first of the groups that are left is, the shader reads a box and a
/// header, looks at the rectangles only if the pixel is in the box, and goes on
/// where the header says. The pixel is lit if it is in a rectangle.
pub open spec fn walk(items: Seq<Seq<u32>>, index: int, left: int, x: int, y: int) -> bool
    decreases left,
{
    if left <= 0 {
        false
    } else {
        let bounds = items[index];
        let header = items[index + 1];
        ||| unpacked_holds(bounds, x, y) && exists|r: int|
            0 <= r < header[0] && #[trigger] unpacked_holds(items[index + 2 + r], x, y)
        ||| walk(items, header[1] as int, left - 1, x, y)
    }
}

/// Where the walk stands after `n` groups.
pub open spec fn walked_to(items: Seq<Seq<u32>>, n: int) -> int
    decreases n,
{
    if n <= 0 {
        0
    } else {
        items[walked_to(items, n - 1) + 1][1] as int
    }
}

/// A pixel lies in a packed rectangle.
pub open spec fn unpacked_holds(item: Seq<u32>, x: int, y: int) -> bool {
    item[0] <= x < item[2] && item[1] <= y < item[3]
}

/// A pixel lies in a rectangle of one of the groups from `from` on.
pub open spec fn in_group_from(groups: Seq<SyncGroup>, from: int, x: int, y: int) -> bool {
    exists|g: int|
        from <= g < groups.len() && #[trigger] in_any(groups[g].rects@, x, y)
}

proof fn packed_holds_group(groups: Seq<SyncGroup>, n: int, g: int, k: int)
    requires
        0 <= g < n <= groups.len(),
        0 <= k < 2 + groups[g].rects@.len(),
    ensures
        packed(groups, n)[packed_len(groups, g) + k] == packed_group(
            groups[g],
            packed_len(groups, g + 1),
        )[k],
    decreases n,
{
    packed_len_grows(groups, g, n - 1);
    packed_len_grows(groups, n - 1, n - 1);
    if g < n - 1 {
        packed_holds_group(groups, n - 1, g, k);
    }
}

proof fn walk_lights(groups: Seq<SyncGroup>, g: int, x: int, y: int)
    requires
        0 <= g <= groups.len(),
        packed_len(groups, groups.len() as int) <= u32::MAX,
        forall|i: int| 0 <= i < groups.len() ==> #[trigger] groups[i].is_bounded(),
    ensures
        walk(
            packed(groups, groups.len() as int),
            packed_len(groups, g),
            groups.len() - g,
            x,
            y,
        ) == in_group_from(groups, g, x, y),
    decreases groups.len() - g,
{
    let n = groups.len() as int;
    let items = packed(groups, n);
    let index = packed_len(groups, g);
    if g < n {
        let group = groups[g];
        packed_len_grows(groups, g, n);
        packed_len_grows(groups, g + 1, n);
        packed_holds_group(groups, n, g, 0);
        packed_holds_group(groups, n, g, 1);
        let next = packed_len(groups, g + 1);
        walk_lights(groups, g + 1, x, y);
        assert(items[index] == packed_rect(group.bounds));
        assert(items[index + 1] == seq![group.rects@.len() as u32, next as u32, 0u32, 0u32]);
        assert forall|r: int| 0 <= r < group.rects@.len() implies #[trigger] items[index + 2 + r]
            == packed_rect(group.rects@[r]) by {
            packed_holds_group(groups, n, g, 2 + r);
        }
        let hit = unpacked_holds(items[index], x, y) && exists|r: int|
            0 <= r < items[index + 1][0] && #[trigger] unpacked_holds(items[index + 2 + r], x, y);
        assert(hit == in_any(group.rects@, x, y)) by {
            if hit {
                let r = choose|r: int|
                    0 <= r < items[index + 1][0] && #[trigger] unpacked_holds(
                        items[index + 2 + r],
                        x,
                        y,
                    );
                assert(group.rects@[r].holds(x, y));
            }
            if in_any(group.rects@, x, y) {
                let r = choose|r: int|
                    0 <= r < group.rects@.len() && #[trigger] group.rects@[r].holds(x, y);
                assert(group.is_bounded());
                assert(unpacked_holds(items[index + 2 + r], x, y));
            }
        }
        if in_group_from(groups, g, x, y) && !in_any(group.rects@, x, y) {
            let h = choose|h: int|
                g <= h < groups.len() && #[trigger] in_any(groups[h].rects@, x, y);
            assert(g + 1 <= h);
        }
        if in_group_from(groups, g + 1, x, y) {
            let h = choose|h: int|
                g + 1 <= h < groups.len() && #[trigger] in_any(groups[h].rects@, x, y);
            assert(in_any(groups[h].rects@, x, y));
        }
    }
}

/// The packed list lights exactly the rectangles that it was built from.
pub proof fn walk_lights_the_rectangles(groups: Seq<SyncGroup>, x: int, y: int)
    requires
        packed_len(groups, groups.len() as int) <= u32::MAX,
        forall|i: int| 0 <= i < groups.len() ==> #[trigger] groups[i].is_bounded(),
    ensures
        walk(packed(groups, groups.len() as int), 0, groups.len() as int, x, y) == in_group_from(
            groups,
            0,
            x,
            y,
        ),
{
    walk_lights(groups, 0, x, y);
}

/// The walk goes from group to group, and ends at the end of the list.
pub proof fn walk_ends_past_the_last_group(groups: Seq<SyncGroup>, n: int)
    requires
        0 <= n <= groups.len(),
        packed_len(groups, groups.len() as int) <= u32::MAX,
    ensures
        walked_to(packed(groups, groups.len() as int), n) == packed_len(groups, n),
        packed(groups, groups.len() as int).len() == packed_len(groups, groups.len() as int),
    decreases n,
{
    let all = groups.len() as int;
    packed_len_grows(groups, n, all);
    if n > 0 {
        walk_ends_past_the_last_group(groups, n - 1);
        packed_holds_group(groups, all, n - 1, 1);
    }
}

/// Rectangles to draw, and the correction of the output that they are drawn on.
pub struct SyncPaint<'a> {
    pub transfer: &'a [(u16, u8)],
    pub rects: &'a [SyncRect],
    pub width: u32,
}

impl<'a> SyncPaint<'a> {
    /// How bright a pixel is: white in a rectangle and black elsewhere, corrected
    /// as content is. Black is not nothing once it is lifted.
    pub open spec fn level_at(self, x: int, y: int) -> u8 {
        let curve = correction(self.transfer@, y * self.width + x);
        shaded(
            curve.0,
            curve.1,
            if in_any(self.rects@, x, y) {
                255
            } else {
                0
            },
        )
    }

    /// The pixel that the output shows at a place.
    pub open spec fn output_at(self, x: int, y: int) -> Seq<u8> {
        let level = self.level_at(x, y);
        pixel(level, level, level)
    }

    /// The bytes are the rows of the output's picture from `first` on.
    pub open spec fn is_band(self, bytes: Seq<u8>, first: int, count: int) -> bool {
        forall|x: int, y: int|
            0 <= x < self.width && 0 <= y < count ==> #[trigger] pixel_at(
                bytes,
                self.width as int,
                x,
                y,
            ) == self.output_at(x, first + y)
    }

    fn lit(&self, x: u32, y: u32) -> (lit: bool)
        ensures
            lit == in_any(self.rects@, x as int, y as int),
    {
        let mut i: usize = 0;
        while i < self.rects.len()
            invariant
                i <= self.rects@.len(),
                forall|j: int| 0 <= j < i ==> !#[trigger] self.rects@[j].holds(x as int, y as int),
            decreases self.rects@.len() - i,
        {
            if self.rects[i].contains(x, y) {
                return true;
            }
            i = i + 1;
        }
        false
    }

    /// Draws `count` rows of the output's picture into a buffer, from row `first`
    /// on. What lies behind them in the buffer is left alone.
    pub fn rows(&self, dst: &mut [u8], first: u32, count: u32)
        requires
            first + count <= u32::MAX,
            count * self.width * 4 <= old(dst)@.len(),
            (first + count) * self.width <= usize::MAX,
        ensures
            final(dst)@.len() == old(dst)@.len(),
            self.is_band(final(dst)@, first as int, count as int),
            forall|i: int|
                count * self.width * 4 <= i < old(dst)@.len() ==> final(dst)@[i] == old(dst)@[i],
    {
        let width: u32 = self.width;
        let ghost start = dst@;
        let mut y: u32 = 0;
        while y < count
            invariant
                y <= count,
                width == self.width,
                first + count <= u32::MAX,
                count * width * 4 <= dst@.len(),
                (first + count) * width <= usize::MAX,
                dst@.len() == start.len(),
                self.is_band(dst@, first as int, y as int),
                forall|i: int| count * width * 4 <= i < start.len() ==> dst@[i] == start[i],
            decreases count - y,
        {
            let target: u32 = first + y;
            let mut x: u32 = 0;
            while x < width
                invariant
                    x <= width,
                    y < count,
                    width == self.width,
                    target == first + y,
                    first + count <= u32::MAX,
                    count * width * 4 <= dst@.len(),
                    (first + count) * width <= usize::MAX,
                    dst@.len() == start.len(),
                    forall|i: int, j: int|
                        0 <= i < width && 0 <= j && (j < y || (j == y && i < x))
                            ==> #[trigger] pixel_at(dst@, width as int, i, j) == self.output_at(
                            i,
                            first + j,
                        ),
                    forall|i: int| count * width * 4 <= i < start.len() ==> dst@[i] == start[i],
                decreases width - x,
            {
                proof {
                    assert(dst.len() <= usize::MAX);
                    pixel_fits(width as int, count as int, x as int, y as int);
                    pixel_fits(width as int, first + count, x as int, first + y);
                }
                let entry: usize = target as usize * width as usize + x as usize;
                let (a, b) = if entry < self.transfer.len() {
                    self.transfer[entry]
                } else {
                    (256, 0)
                };
                let level: u8 = if self.lit(x, target) {
                    shade(a, b, 255)
                } else {
                    shade(a, b, 0)
                };
                let at: usize = (y as usize * width as usize + x as usize) * 4;
                let ghost before = dst@;
                put_pixel(dst, at, level, level, level);
                proof {
                    assert(correction(self.transfer@, (first + y) * width + x) == (a, b));
                    assert(pixel_at(dst@, width as int, x as int, y as int) == self.output_at(
                        x as int,
                        first + y,
                    ));
                    assert forall|i: int, j: int|
                        0 <= i < width && 0 <= j && (j < y || (j == y && i < x + 1)) implies
                        #[trigger] pixel_at(dst@, width as int, i, j) == self.output_at(
                        i,
                        first + j,
                    ) by {
                        if i != x || j != y {
                            pixel_fits(width as int, count as int, i, j);
                            pixels_are_apart(width as int, x as int, y as int, i, j);
                            assert(pixel_at(dst@, width as int, i, j) =~= pixel_at(
                                before,
                                width as int,
                                i,
                                j,
                            ));
                        }
                    }
                }
                x = x + 1;
            }
            y = y + 1;
        }
    }
}

/// Dividing the picture changes nothing, whatever rectangle lies across the cut
/// and whichever row the picture begins at.
pub proof fn pattern_bands_make_up_the_picture(
    paint: SyncPaint,
    whole: Seq<u8>,
    top: int,
    height: int,
    band: Seq<u8>,
    first: int,
    count: int,
)
    requires
        0 <= first,
        0 <= count,
        first + count <= height,
        whole.len() == height * paint.width * 4,
        band.len() == count * paint.width * 4,
        paint.is_band(whole, top, height),
        paint.is_band(band, top + first, count),
    ensures
        whole.subrange(first * paint.width * 4, (first + count) * paint.width * 4) == band,
{
    same_rows_same_bytes(
        |x: int, y: int| paint.output_at(x, y),
        paint.width as int,
        whole,
        top,
        height,
        band,
        first,
        count,
    );
}

/// The rectangles of all groups, one group after the other.
pub open spec fn all_rects(groups: Seq<SyncGroup>, n: int) -> Seq<SyncRect>
    decreases n,
{
    if n <= 0 {
        Seq::empty()
    } else {
        all_rects(groups, n - 1) + groups[n - 1].rects@
    }
}

proof fn all_rects_cover(groups: Seq<SyncGroup>, n: int, x: int, y: int)
    requires
        0 <= n <= groups.len(),
    ensures
        in_any(all_rects(groups, n), x, y) <==> exists|g: int|
            0 <= g < n && #[trigger] in_any(groups[g].rects@, x, y),
    decreases n,
{
    if n > 0 {
        all_rects_cover(groups, n - 1, x, y);
        let earlier = all_rects(groups, n - 1);
        let last = groups[n - 1].rects@;
        let all = all_rects(groups, n);
        if in_any(all, x, y) {
            let i = choose|i: int| 0 <= i < all.len() && #[trigger] all[i].holds(x, y);
            if i < earlier.len() {
                assert(earlier[i].holds(x, y));
            } else {
                assert(last[i - earlier.len()].holds(x, y));
            }
        }
        if in_any(earlier, x, y) {
            let i = choose|i: int| 0 <= i < earlier.len() && #[trigger] earlier[i].holds(x, y);
            assert(all[i].holds(x, y));
        }
        if in_any(last, x, y) {
            let i = choose|i: int| 0 <= i < last.len() && #[trigger] last[i].holds(x, y);
            assert(all[earlier.len() + i].holds(x, y));
        }
    }
}

/// The rectangles of all groups, one group after the other.
pub fn flatten(groups: &[SyncGroup]) -> (rects: Vec<SyncRect>)
    ensures
        rects@ == all_rects(groups@, groups@.len() as int),
{
    let mut rects: Vec<SyncRect> = Vec::new();
    let mut g: usize = 0;
    while g < groups.len()
        invariant
            g <= groups@.len(),
            rects@ == all_rects(groups@, g as int),
        decreases groups@.len() - g,
    {
        let group = &groups[g];
        let ghost before = rects@;
        let mut r: usize = 0;
        assert(before + group.rects@.take(0) =~= before);
        while r < group.rects.len()
            invariant
                r <= group.rects@.len(),
                rects@ == before + group.rects@.take(r as int),
            decreases group.rects@.len() - r,
        {
            rects.push(group.rects[r]);
            assert(group.rects@.take(r + 1) =~= group.rects@.take(r as int).push(
                group.rects@[r as int],
            ));
            r = r + 1;
        }
        assert(group.rects@.take(group.rects@.len() as int) =~= group.rects@);
        g = g + 1;
    }
    rects
}

/// Both renderers draw the same picture: a pixel that is drawn from the flat list
/// of rectangles is as bright as one that the walk over the packed list lights or
/// leaves dark.
pub proof fn both_renderers_agree(groups: Seq<SyncGroup>, paint: SyncPaint, x: int, y: int)
    requires
        packed_len(groups, groups.len() as int) <= u32::MAX,
        forall|i: int| 0 <= i < groups.len() ==> #[trigger] groups[i].is_bounded(),
        paint.rects@ == all_rects(groups, groups.len() as int),
    ensures
        paint.level_at(x, y) == ({
            let curve = correction(paint.transfer@, y * paint.width + x);
            shaded(
                curve.0,
                curve.1,
                if walk(packed(groups, groups.len() as int), 0, groups.len() as int, x, y) {
                    255
                } else {
                    0
                },
            )
        }),
{
    walk_lights_the_rectangles(groups, x, y);
    all_rects_cover(groups, groups.len() as int, x, y);
}

/// How many rows of a picture of some width fit into a buffer, of those that it has.
pub open spec fn rows_held(height: int, width: int, len: int) -> int {
    if height < len / (width * 4) {
        height
    } else {
        len / (width * 4)
    }
}

/// How many rows of a picture fit into a buffer. One that was made before its
/// output grew is smaller than the output.
pub fn paintable_rows(height: u32, width: u32, len: usize) -> (rows: u32)
    ensures
        width > 0 ==> rows == rows_held(height as int, width as int, len as int),
        rows as int == ({
            let held = len as int / (if width == 0 {
                1
            } else {
                width * 4
            });
            if height < held {
                height as int
            } else {
                held
            }
        }),
        rows * width * 4 <= len,
{
    let row: u64 = if width == 0 {
        1
    } else {
        width as u64 * 4
    };
    let held: u64 = len as u64 / row;
    let rows: u32 = if (height as u64) < held {
        height
    } else {
        held as u32
    };
    proof {
        assert(held * row <= len) by (nonlinear_arith)
            requires
                held == len as int / (row as int),
                row > 0,
        ;
        assert(rows * row <= held * row) by (nonlinear_arith)
            requires
                rows <= held,
                row > 0,
        ;
        assert(rows * width * 4 <= rows * row) by (nonlinear_arith)
            requires
                width * 4 <= row,
                rows >= 0,
        ;
    }
    rows
}

} // verus!
