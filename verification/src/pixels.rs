//! Pixel work on the overlay's frame buffer: packing, dimming, copying and framing.
//!
//! A frame buffer is a row-major sequence of `0x00RRGGBB` pixels.

use vstd::prelude::*;

verus! {

/// The pixel with the given red, green and blue levels.
pub open spec fn rgb(r: u8, g: u8, b: u8) -> u32 {
    (r * 65536 + g * 256 + b) as u32
}

/// The red level of a pixel.
pub open spec fn red(p: u32) -> u8 {
    ((p / 65536) % 256) as u8
}

/// The green level of a pixel.
pub open spec fn green(p: u32) -> u8 {
    ((p / 256) % 256) as u8
}

/// The blue level of a pixel.
pub open spec fn blue(p: u32) -> u8 {
    (p % 256) as u8
}

fn pack(r: u8, g: u8, b: u8) -> (p: u32)
    ensures
        p == rgb(r, g, b),
{
    let p: u32 = ((r as u32) << 16) | ((g as u32) << 8) | (b as u32);
    proof {
        assert((((r as u32) << 16) | ((g as u32) << 8) | (b as u32)) == (r as u32) * 65536 + (
        g as u32) * 256 + (b as u32)) by (bit_vector);
    }
    p
}

/// The pixel made of the first three bytes of each group of four in `rgba`; the fourth
/// byte (alpha) is dropped, and so is an incomplete group at the end.
pub fn rgba_to_softbuffer(rgba: &[u8]) -> (out: Vec<u32>)
    ensures
        out@.len() == rgba@.len() / 4,
        forall|i: int|
            0 <= i < out@.len() ==> #[trigger] out@[i] == rgb(
                rgba@[4 * i],
                rgba@[4 * i + 1],
                rgba@[4 * i + 2],
            ),
{
    let n: usize = rgba.len() / 4;
    let mut out: Vec<u32> = Vec::new();
    let mut i: usize = 0;
    while i < n
        invariant
            i <= n,
            n == rgba.len() / 4,
            out@.len() == i,
            forall|k: int|
                0 <= k < i ==> #[trigger] out@[k] == rgb(
                    rgba@[4 * k],
                    rgba@[4 * k + 1],
                    rgba@[4 * k + 2],
                ),
        decreases n - i,
    {
        out.push(pack(rgba[4 * i], rgba[4 * i + 1], rgba[4 * i + 2]));
        i += 1;
    }
    out
}

/// Each pixel with every one of its three levels replaced by what `levels` holds for it.
pub open spec fn relevelled(p: u32, levels: Seq<u8>) -> u32 {
    rgb(levels[red(p) as int], levels[green(p) as int], levels[blue(p) as int])
}

/// Maps the three levels of every pixel through a table of 256 levels; the top byte of a
/// pixel is dropped.
pub fn darken_pixels(pixels: &[u32], levels: &[u8]) -> (out: Vec<u32>)
    requires
        levels@.len() == 256,
    ensures
        out@ == pixels@.map_values(|p: u32| relevelled(p, levels@)),
{
    let mut out: Vec<u32> = Vec::new();
    let mut i: usize = 0;
    while i < pixels.len()
        invariant
            i <= pixels@.len(),
            levels@.len() == 256,
            out@.len() == i,
            forall|k: int| 0 <= k < i ==> #[trigger] out@[k] == relevelled(pixels@[k], levels@),
        decreases pixels@.len() - i,
    {
        let p: u32 = pixels[i];
        let r: u32 = (p >> 16) & 0xFF;
        let g: u32 = (p >> 8) & 0xFF;
        let b: u32 = p & 0xFF;
        proof {
            assert((p >> 16) & 0xFF == (p / 65536) % 256) by (bit_vector);
            assert((p >> 8) & 0xFF == (p / 256) % 256) by (bit_vector);
            assert(p & 0xFF == p % 256) by (bit_vector);
        }
        out.push(pack(levels[r as usize], levels[g as usize], levels[b as usize]));
        i += 1;
    }
    proof {
        assert(out@ =~= pixels@.map_values(|p: u32| relevelled(p, levels@)));
    }
    out
}

/// What the overlay makes of a level: eleven twentieths of it, rounded down.
pub open spec fn dimmed_level(level: int) -> int {
    level * 11 / 20
}

/// The overlay's table: every level dimmed.
pub open spec fn dimmed_levels() -> Seq<u8> {
    Seq::new(256, |c: int| dimmed_level(c) as u8)
}

pub fn dim_levels() -> (levels: Vec<u8>)
    ensures
        levels@ == dimmed_levels(),
{
    let mut levels: Vec<u8> = Vec::new();
    let mut c: u32 = 0;
    while c < 256
        invariant
            c <= 256,
            levels@.len() == c,
            forall|k: int| 0 <= k < c ==> #[trigger] levels@[k] == dimmed_level(k) as u8,
        decreases 256 - c,
    {
        levels.push((c * 11 / 20) as u8);
        c += 1;
    }
    proof {
        assert(levels@ =~= dimmed_levels());
    }
    levels
}

/// `dst` with the pixels of `row` laid over it from index `at` on.
pub open spec fn overlaid(dst: Seq<u32>, at: int, row: Seq<u32>) -> Seq<u32> {
    Seq::new(
        dst.len(),
        |i: int|
            if at <= i < at + row.len() {
                row[i - at]
            } else {
                dst[i]
            },
    )
}

/// `dst` after the first `rows` rows of a blit. A row that does not lie wholly inside both
/// buffers is skipped.
pub open spec fn blitted(
    dst: Seq<u32>,
    dst_w: int,
    src: Seq<u32>,
    src_stride: int,
    src_ox: int,
    src_oy: int,
    dx: int,
    dy: int,
    w: int,
    rows: nat,
) -> Seq<u32>
    decreases rows,
{
    if rows == 0 {
        dst
    } else {
        let before = blitted(
            dst,
            dst_w,
            src,
            src_stride,
            src_ox,
            src_oy,
            dx,
            dy,
            w,
            (rows - 1) as nat,
        );
        let to = (dy + rows - 1) * dst_w + dx;
        let from = (src_oy + rows - 1) * src_stride + src_ox;
        if to + w <= dst.len() && from + w <= src.len() {
            overlaid(before, to, src.subrange(from, from + w))
        } else {
            before
        }
    }
}

/// The index arithmetic of one side of a blit stays within 64 bits.
pub open spec fn blit_fits(stride: u32, ox: u32, oy: u32, w: u32, h: u32) -> bool {
    h > 0 ==> (oy + h - 1) * stride + ox + w <= u64::MAX
}

proof fn lemma_row_fits(stride: u32, ox: u32, oy: u32, w: u32, h: u32, row: int)
    requires
        blit_fits(stride, ox, oy, w, h),
        0 <= row < h,
    ensures
        0 <= (oy + row) * stride,
        (oy + row) * stride + ox + w <= u64::MAX,
{
    assert(0 <= (oy + row) * stride <= (oy + h - 1) * stride) by (nonlinear_arith)
        requires
            0 <= row <= h - 1,
            0 <= oy,
            0 <= stride,
    ;
}

fn copy_row(dst: &mut [u32], at: usize, src: &[u32], from: usize, len: usize)
    requires
        at + len <= old(dst)@.len(),
        from + len <= src@.len(),
    ensures
        final(dst)@ == overlaid(old(dst)@, at as int, src@.subrange(from as int, from + len)),
{
    let ghost row = src@.subrange(from as int, from + len);
    let ghost start = dst@;
    assert(at + len <= dst.len() && from + len <= src.len());
    let mut k: usize = 0;
    while k < len
        invariant
            k <= len,
            at + len <= usize::MAX,
            from + len <= usize::MAX,
            at + len <= dst@.len(),
            from + len <= src@.len(),
            row == src@.subrange(from as int, from + len),
            dst@ == overlaid(start, at as int, row.take(k as int)),
        decreases len - k,
    {
        dst[at + k] = src[from + k];
        proof {
            assert(dst@ =~= overlaid(start, at as int, row.take(k + 1)));
        }
        k += 1;
    }
    proof {
        assert(row.take(len as int) =~= row);
    }
}

/// Replaces the whole of `dst` by `src`.
pub fn copy_pixels(dst: &mut [u32], src: &[u32])
    requires
        old(dst)@.len() == src@.len(),
    ensures
        final(dst)@ == src@,
{
    let n: usize = src.len();
    copy_row(dst, 0, src, 0, n);
    proof {
        assert(dst@ =~= src@);
    }
}

/// Makes every pixel of `buf` the same.
pub fn fill_pixels(buf: &mut [u32], color: u32)
    ensures
        final(buf)@ == Seq::new(old(buf)@.len(), |i: int| color),
{
    let n: usize = buf.len();
    let mut i: usize = 0;
    while i < n
        invariant
            i <= n,
            n == buf@.len(),
            n == old(buf)@.len(),
            forall|k: int| 0 <= k < i ==> #[trigger] buf@[k] == color,
        decreases n - i,
    {
        buf[i] = color;
        i += 1;
    }
    proof {
        assert(buf@ =~= Seq::new(n as nat, |i: int| color));
    }
}

/// Copies a `w` by `h` rectangle from `src` into `dst` at `(dx, dy)`. The source may be a
/// part of a wider buffer: its rows lie `src_stride` pixels apart.
pub fn blit_pixels(
    dst: &mut [u32],
    dst_w: u32,
    src: &[u32],
    src_stride: u32,
    src_ox: u32,
    src_oy: u32,
    dx: u32,
    dy: u32,
    w: u32,
    h: u32,
)
    requires
        blit_fits(dst_w, dx, dy, w, h),
        blit_fits(src_stride, src_ox, src_oy, w, h),
    ensures
        final(dst)@ == blitted(
            old(dst)@,
            dst_w as int,
            src@,
            src_stride as int,
            src_ox as int,
            src_oy as int,
            dx as int,
            dy as int,
            w as int,
            h as nat,
        ),
{
    let ghost start = dst@;
    let mut row: u32 = 0;
    while row < h
        invariant
            row <= h,
            dst@.len() == start.len(),
            blit_fits(dst_w, dx, dy, w, h),
            blit_fits(src_stride, src_ox, src_oy, w, h),
            dst@ == blitted(
                start,
                dst_w as int,
                src@,
                src_stride as int,
                src_ox as int,
                src_oy as int,
                dx as int,
                dy as int,
                w as int,
                row as nat,
            ),
        decreases h - row,
    {
        proof {
            lemma_row_fits(dst_w, dx, dy, w, h, row as int);
            lemma_row_fits(src_stride, src_ox, src_oy, w, h, row as int);
        }
        let to: u64 = (dy as u64 + row as u64) * dst_w as u64 + dx as u64;
        let from: u64 = (src_oy as u64 + row as u64) * src_stride as u64 + src_ox as u64;
        if to + w as u64 <= dst.len() as u64 && from + w as u64 <= src.len() as u64 {
            copy_row(dst, to as usize, src, from as usize, w as usize);
        }
        row += 1;
    }
}

/// The column (or row) `t` before the last one of those left of `end`, and not below zero.
pub open spec fn from_end(end: int, t: int) -> int {
    if end - 1 - t < 0 {
        0
    } else {
        end - 1 - t
    }
}

/// Index `i` lies in line `t` of the top or the bottom edge, in a column left of `to`.
pub open spec fn on_rows(i: int, bw: int, bh: int, x: int, y: int, y2: int, t: int, to: int) -> bool {
    ||| y + t < bh && x <= i - (y + t) * bw < to
    ||| from_end(y2, t) < bh && x <= i - from_end(y2, t) * bw < to
}

/// Index `i` is the pixel of row `r` in line `t` of the left or the right edge.
pub open spec fn on_side(i: int, bw: int, x: int, x2: int, t: int, r: int) -> bool {
    i == r * bw + x + t || i == r * bw + from_end(x2, t)
}

/// Index `i` lies in line `t` of the left or the right edge, in a row above `to`.
pub open spec fn on_sides(i: int, bw: int, x: int, x2: int, y: int, t: int, to: int) -> bool {
    exists|r: int| y <= r < to && #[trigger] on_side(i, bw, x, x2, t, r)
}

/// The smaller of two numbers.
pub open spec fn at_most(a: int, b: int) -> int {
    if a <= b {
        a
    } else {
        b
    }
}

/// Index `i` lies in line `t` of the border of a rectangle.
pub open spec fn on_ring(i: int, bw: int, bh: int, x: int, y: int, w: int, h: int, t: int) -> bool {
    let x2 = at_most(x + w, bw);
    let y2 = at_most(y + h, bh);
    on_rows(i, bw, bh, x, y, y2, t, x2) || on_sides(i, bw, x, x2, y, t, y2)
}

/// Index `i` lies in one of the first `lines` lines of the border of a rectangle.
pub open spec fn on_border(
    i: int,
    bw: int,
    bh: int,
    x: int,
    y: int,
    w: int,
    h: int,
    lines: int,
) -> bool {
    exists|t: int| 0 <= t < lines && #[trigger] on_ring(i, bw, bh, x, y, w, h, t)
}

/// `buf` with the border of a rectangle drawn on it.
pub open spec fn bordered(
    buf: Seq<u32>,
    bw: int,
    bh: int,
    x: int,
    y: int,
    w: int,
    h: int,
    color: u32,
    lines: int,
) -> Seq<u32> {
    Seq::new(
        buf.len(),
        |i: int|
            if on_border(i, bw, bh, x, y, w, h, lines) {
                color
            } else {
                buf[i]
            },
    )
}

/// The coordinates that a border of `thickness` lines works out stay within 32 bits.
pub open spec fn border_fits(x: u32, y: u32, w: u32, h: u32, thickness: u32) -> bool {
    &&& x + w <= u32::MAX
    &&& y + h <= u32::MAX
    &&& x + thickness <= u32::MAX + 1
    &&& y + thickness <= u32::MAX + 1
}

fn put(buf: &mut [u32], i: u64, color: u32)
    ensures
        final(buf)@.len() == old(buf)@.len(),
        forall|k: int|
            0 <= k < old(buf)@.len() ==> #[trigger] final(buf)@[k] == if k == i {
                color
            } else {
                old(buf)@[k]
            },
{
    if i < buf.len() as u64 {
        buf[i as usize] = color;
    }
}

fn min_u32(a: u32, b: u32) -> (r: u32)
    ensures
        r == at_most(a as int, b as int),
{
    if a <= b {
        a
    } else {
        b
    }
}

proof fn lemma_index_fits(r: u32, bw: u32, c: u32)
    ensures
        0 <= r * bw,
        r * bw + c <= u64::MAX,
{
    assert(0 <= r * bw <= 0xFFFF_FFFF * 0xFFFF_FFFF) by (nonlinear_arith)
        requires
            0 <= r <= 0xFFFF_FFFF,
            0 <= bw <= 0xFFFF_FFFF,
    ;
}

/// Draws the border of a rectangle, `thickness` lines wide, in `color`. Line `t` of it is the
/// rectangle's outline drawn `t` pixels further in; the right and the bottom edge are those of
/// the rectangle cut off at the buffer's size. What would lie outside `buf` is not drawn.
pub fn draw_border(
    buf: &mut [u32],
    buf_w: u32,
    buf_h: u32,
    x: u32,
    y: u32,
    w: u32,
    h: u32,
    color: u32,
    thickness: u32,
)
    requires
        border_fits(x, y, w, h, thickness),
    ensures
        final(buf)@ == bordered(
            old(buf)@,
            buf_w as int,
            buf_h as int,
            x as int,
            y as int,
            w as int,
            h as int,
            color,
            thickness as int,
        ),
{
    let ghost start = buf@;
    let ghost (bw, bh) = (buf_w as int, buf_h as int);
    let ghost (gx, gy, gw, gh) = (x as int, y as int, w as int, h as int);
    let x2: u32 = min_u32(x + w, buf_w);
    let y2: u32 = min_u32(y + h, buf_h);
    let mut t: u32 = 0;
    while t < thickness
        invariant
            t <= thickness,
            border_fits(x, y, w, h, thickness),
            x2 == at_most(x + w, buf_w as int),
            y2 == at_most(y + h, buf_h as int),
            bw == buf_w,
            bh == buf_h,
            gx == x,
            gy == y,
            gw == w,
            gh == h,
            buf@.len() == start.len(),
            forall|i: int|
                0 <= i < start.len() ==> #[trigger] buf@[i] == if on_border(
                    i,
                    bw,
                    bh,
                    gx,
                    gy,
                    gw,
                    gh,
                    t as int,
                ) {
                    color
                } else {
                    start[i]
                },
        decreases thickness - t,
    {
        let ghost lines = buf@;
        let top: u32 = y + t;
        let bot: u32 = y2.saturating_sub(1).saturating_sub(t);
        let left: u32 = x + t;
        let right: u32 = x2.saturating_sub(1).saturating_sub(t);
        let mut c: u32 = x;
        while c < x2
            invariant
                x <= c,
                c <= x2 || x2 < x && c == x,
                top == y + t,
                bot == from_end(y2 as int, t as int),
                bw == buf_w,
                bh == buf_h,
                gx == x,
                gy == y,
                buf@.len() == start.len(),
                lines.len() == start.len(),
                forall|i: int|
                    0 <= i < start.len() ==> #[trigger] buf@[i] == if on_rows(
                        i,
                        bw,
                        bh,
                        gx,
                        gy,
                        y2 as int,
                        t as int,
                        c as int,
                    ) {
                        color
                    } else {
                        lines[i]
                    },
            decreases x2 - c,
        {
            proof {
                lemma_index_fits(top, buf_w, c);
                lemma_index_fits(bot, buf_w, c);
            }
            if top < buf_h {
                put(buf, top as u64 * buf_w as u64 + c as u64, color);
            }
            if bot != top && bot < buf_h {
                put(buf, bot as u64 * buf_w as u64 + c as u64, color);
            }
            c += 1;
        }
        let ghost rows = buf@;
        let mut r: u32 = y;
        while r < y2
            invariant
                y <= r,
                r <= y2 || y2 < y && r == y,
                left == x + t,
                right == from_end(x2 as int, t as int),
                bw == buf_w,
                gx == x,
                gy == y,
                y2 <= buf_h,
                buf@.len() == start.len(),
                rows.len() == start.len(),
                forall|i: int|
                    0 <= i < start.len() ==> #[trigger] buf@[i] == if on_sides(
                        i,
                        bw,
                        gx,
                        x2 as int,
                        gy,
                        t as int,
                        r as int,
                    ) {
                        color
                    } else {
                        rows[i]
                    },
            decreases y2 - r,
        {
            let ghost before = buf@;
            proof {
                lemma_index_fits(r, buf_w, left);
                lemma_index_fits(r, buf_w, right);
            }
            put(buf, r as u64 * buf_w as u64 + left as u64, color);
            if right != left {
                put(buf, r as u64 * buf_w as u64 + right as u64, color);
            }
            proof {
                assert forall|i: int| 0 <= i < start.len() implies #[trigger] buf@[i]
                    == if on_sides(i, bw, gx, x2 as int, gy, t as int, r + 1) {
                    color
                } else {
                    rows[i]
                } by {
                    assert(before[i] == if on_sides(i, bw, gx, x2 as int, gy, t as int, r as int) {
                        color
                    } else {
                        rows[i]
                    });
                    if on_side(i, bw, gx, x2 as int, t as int, r as int) {
                        assert(on_sides(i, bw, gx, x2 as int, gy, t as int, r + 1));
                    }
                    if on_sides(i, bw, gx, x2 as int, gy, t as int, r as int) {
                        let q = choose|q: int|
                            gy <= q < r && #[trigger] on_side(i, bw, gx, x2 as int, t as int, q);
                        assert(on_side(i, bw, gx, x2 as int, t as int, q));
                    }
                }
            }
            r += 1;
        }
        proof {
            assert forall|i: int| 0 <= i < start.len() implies #[trigger] buf@[i] == if on_border(
                i,
                bw,
                bh,
                gx,
                gy,
                gw,
                gh,
                t + 1,
            ) {
                color
            } else {
                start[i]
            } by {
                assert(rows[i] == if on_rows(i, bw, bh, gx, gy, y2 as int, t as int, x2 as int) {
                    color
                } else {
                    lines[i]
                });
                assert(lines[i] == if on_border(i, bw, bh, gx, gy, gw, gh, t as int) {
                    color
                } else {
                    start[i]
                });
                if on_ring(i, bw, bh, gx, gy, gw, gh, t as int) {
                    assert(on_border(i, bw, bh, gx, gy, gw, gh, t + 1));
                }
                if on_border(i, bw, bh, gx, gy, gw, gh, t as int) {
                    let q = choose|q: int|
                        0 <= q < t && #[trigger] on_ring(i, bw, bh, gx, gy, gw, gh, q);
                    assert(on_ring(i, bw, bh, gx, gy, gw, gh, q));
                }
            }
        }
        t += 1;
    }
    proof {
        assert(buf@ =~= bordered(start, bw, bh, gx, gy, gw, gh, color, thickness as int));
    }
}

proof fn lemma_same_pixel(bw: int, r1: int, c1: int, r2: int, c2: int)
    requires
        0 <= c1 < bw,
        0 <= c2 < bw,
        r1 * bw + c1 == r2 * bw + c2,
    ensures
        r1 == r2,
        c1 == c2,
{
    if r1 < r2 {
        assert((r1 + 1) * bw <= r2 * bw) by (nonlinear_arith)
            requires
                r1 + 1 <= r2,
                0 < bw,
        ;
        assert((r1 + 1) * bw == r1 * bw + bw) by (nonlinear_arith);
    } else if r2 < r1 {
        assert((r2 + 1) * bw <= r1 * bw) by (nonlinear_arith)
            requires
                r2 + 1 <= r1,
                0 < bw,
        ;
        assert((r2 + 1) * bw == r2 * bw + bw) by (nonlinear_arith);
    }
}

/// The pixel in column `c` of row `r` belongs to the rectangle and lies less than `lines`
/// pixels from one of its four edges.
pub open spec fn in_frame(x: int, y: int, w: int, h: int, lines: int, c: int, r: int) -> bool {
    &&& x <= c < x + w
    &&& y <= r < y + h
    &&& (c - x < lines || x + w - 1 - c < lines || r - y < lines || y + h - 1 - r < lines)
}

/// Of a rectangle that lies inside the buffer and is at least as wide and as high as the border
/// is thick, the border is exactly the frame just inside its edges: it never leaves the
/// rectangle.
pub proof fn law_border_is_the_inner_frame(
    bw: int,
    bh: int,
    x: int,
    y: int,
    w: int,
    h: int,
    lines: int,
    c: int,
    r: int,
)
    requires
        0 <= x,
        0 <= y,
        0 <= lines <= w,
        lines <= h,
        x + w <= bw,
        y + h <= bh,
        0 <= c < bw,
        0 <= r < bh,
    ensures
        on_border(r * bw + c, bw, bh, x, y, w, h, lines) <==> in_frame(x, y, w, h, lines, c, r),
{
    let i = r * bw + c;
    if on_border(i, bw, bh, x, y, w, h, lines) {
        let t = choose|t: int| 0 <= t < lines && #[trigger] on_ring(i, bw, bh, x, y, w, h, t);
        if on_rows(i, bw, bh, x, y, y + h, t, x + w) {
            if x <= i - (y + t) * bw < x + w {
                lemma_same_pixel(bw, r, c, y + t, i - (y + t) * bw);
            } else {
                let b = from_end(y + h, t);
                lemma_same_pixel(bw, r, c, b, i - b * bw);
            }
        } else {
            let q = choose|q: int| y <= q < y + h && #[trigger] on_side(i, bw, x, x + w, t, q);
            if i == q * bw + x + t {
                lemma_same_pixel(bw, r, c, q, x + t);
            } else {
                lemma_same_pixel(bw, r, c, q, from_end(x + w, t));
            }
        }
    }
    if in_frame(x, y, w, h, lines, c, r) {
        let t = if r - y < lines {
            r - y
        } else if y + h - 1 - r < lines {
            y + h - 1 - r
        } else if c - x < lines {
            c - x
        } else {
            x + w - 1 - c
        };
        assert(0 <= t < lines);
        if r - y < lines {
            assert(on_rows(i, bw, bh, x, y, y + h, t, x + w));
        } else if y + h - 1 - r < lines {
            assert(from_end(y + h, t) == r);
            assert(on_rows(i, bw, bh, x, y, y + h, t, x + w));
        } else {
            assert(on_side(i, bw, x, x + w, t, r));
            assert(on_sides(i, bw, x, x + w, y, t, y + h));
        }
        assert(on_ring(i, bw, bh, x, y, w, h, t));
    }
}

/// What index `i` of the buffer holds after the first `rows` rows of a blit whose rows do not
/// run into each other.
pub open spec fn blitted_pixel(
    dst: Seq<u32>,
    dst_w: int,
    src: Seq<u32>,
    src_stride: int,
    src_ox: int,
    src_oy: int,
    dx: int,
    dy: int,
    w: int,
    rows: int,
    c: int,
    r: int,
) -> u32 {
    let from = (src_oy + (r - dy)) * src_stride + src_ox;
    if dx <= c < dx + w && dy <= r < dy + rows && r * dst_w + dx + w <= dst.len() && from + w
        <= src.len() {
        src[from + (c - dx)]
    } else {
        dst[r * dst_w + c]
    }
}

/// Where the rectangle is no wider than the buffer leaves room for, a blit changes exactly the
/// pixels of the rectangle's complete rows, each to its counterpart in the source.
pub proof fn law_blit_copies_the_rectangle(
    dst: Seq<u32>,
    dst_w: int,
    src: Seq<u32>,
    src_stride: int,
    src_ox: int,
    src_oy: int,
    dx: int,
    dy: int,
    w: int,
    rows: nat,
    c: int,
    r: int,
)
    requires
        0 <= dx,
        0 <= dy,
        0 <= w,
        dx + w <= dst_w,
        0 <= src_ox,
        0 <= src_oy,
        0 <= src_stride,
        0 <= c < dst_w,
        0 <= r,
        r * dst_w + c < dst.len(),
    ensures
        blitted(dst, dst_w, src, src_stride, src_ox, src_oy, dx, dy, w, rows).len() == dst.len(),
        blitted(dst, dst_w, src, src_stride, src_ox, src_oy, dx, dy, w, rows)[r * dst_w + c]
            == blitted_pixel(
            dst,
            dst_w,
            src,
            src_stride,
            src_ox,
            src_oy,
            dx,
            dy,
            w,
            rows as int,
            c,
            r,
        ),
    decreases rows,
{
    if rows > 0 {
        law_blit_copies_the_rectangle(
            dst,
            dst_w,
            src,
            src_stride,
            src_ox,
            src_oy,
            dx,
            dy,
            w,
            (rows - 1) as nat,
            c,
            r,
        );
        let i = r * dst_w + c;
        assert(0 <= r * dst_w) by (nonlinear_arith)
            requires
                0 <= r,
                0 <= dst_w,
        ;
        let last = dy + rows - 1;
        let to = last * dst_w + dx;
        let from = (src_oy + rows - 1) * src_stride + src_ox;
        assert(0 <= (src_oy + rows - 1) * src_stride) by (nonlinear_arith)
            requires
                0 <= src_oy + rows - 1,
                0 <= src_stride,
        ;
        if to + w <= dst.len() && from + w <= src.len() {
            if to <= i < to + w {
                lemma_same_pixel(dst_w, r, c, last, i - last * dst_w);
            }
        }
    }
}

/// Dimming makes no level of any pixel brighter, and leaves black black.
pub proof fn law_dimming_never_brightens(p: u32)
    ensures
        red(relevelled(p, dimmed_levels())) <= red(p),
        green(relevelled(p, dimmed_levels())) <= green(p),
        blue(relevelled(p, dimmed_levels())) <= blue(p),
        relevelled(0, dimmed_levels()) == 0,
{
    let l = dimmed_levels();
    law_packing_keeps_levels(l[red(p) as int], l[green(p) as int], l[blue(p) as int]);
}

/// Packing keeps the three levels of every pixel of the screenshot.
pub proof fn law_packing_keeps_levels(r: u8, g: u8, b: u8)
    ensures
        red(rgb(r, g, b)) == r,
        green(rgb(r, g, b)) == g,
        blue(rgb(r, g, b)) == b,
{
}

/// Dimming takes eleven twentieths of each level of a pixel, rounded down, and mixes none of them.
pub proof fn law_dimming_is_level_by_level(p: u32)
    ensures
        red(relevelled(p, dimmed_levels())) == red(p) as int * 11 / 20,
        green(relevelled(p, dimmed_levels())) == green(p) as int * 11 / 20,
        blue(relevelled(p, dimmed_levels())) == blue(p) as int * 11 / 20,
        relevelled(p, dimmed_levels()) < 0x100_0000,
{
    let l = dimmed_levels();
    law_packing_keeps_levels(l[red(p) as int], l[green(p) as int], l[blue(p) as int]);
}

/// A table is applied to each of a pixel's three levels by itself.
pub proof fn law_tables_are_applied_level_by_level(p: u32, levels: Seq<u8>)
    ensures
        red(relevelled(p, levels)) == levels[red(p) as int],
        green(relevelled(p, levels)) == levels[green(p) as int],
        blue(relevelled(p, levels)) == levels[blue(p) as int],
{
    law_packing_keeps_levels(
        levels[red(p) as int],
        levels[green(p) as int],
        levels[blue(p) as int],
    );
}

/// A pixel without a top byte is made of its three levels, red highest and blue lowest.
pub proof fn law_pixels_are_their_levels(p: u32)
    requires
        p < 0x100_0000,
    ensures
        p == red(p) * 0x1_0000 + green(p) * 0x100 + blue(p),
        rgb(red(p), green(p), blue(p)) == p,
{
}

/// The border of a rectangle that reaches past the buffer is that of the part inside: the frame
/// just inside the edges of the rectangle cut off at the buffer.
pub proof fn law_border_is_cut_off_at_the_buffer(
    bw: int,
    bh: int,
    x: int,
    y: int,
    w: int,
    h: int,
    cut_w: int,
    cut_h: int,
    lines: int,
    c: int,
    r: int,
)
    requires
        0 <= x,
        0 <= y,
        cut_w == if x + w <= bw {
            w
        } else {
            bw - x
        },
        cut_h == if y + h <= bh {
            h
        } else {
            bh - y
        },
        0 <= lines <= cut_w,
        lines <= cut_h,
        0 <= c < bw,
        0 <= r < bh,
    ensures
        on_border(r * bw + c, bw, bh, x, y, w, h, lines) <==> in_frame(
            x,
            y,
            cut_w,
            cut_h,
            lines,
            c,
            r,
        ),
{
    let i = r * bw + c;
    law_border_is_the_inner_frame(bw, bh, x, y, cut_w, cut_h, lines, c, r);
    assert forall|t: int|
        on_ring(i, bw, bh, x, y, w, h, t) == #[trigger] on_ring(
            i,
            bw,
            bh,
            x,
            y,
            cut_w,
            cut_h,
            t,
        ) by {}
    if on_border(i, bw, bh, x, y, w, h, lines) {
        let t = choose|t: int| 0 <= t < lines && #[trigger] on_ring(i, bw, bh, x, y, w, h, t);
        assert(on_ring(i, bw, bh, x, y, cut_w, cut_h, t));
    }
    if on_border(i, bw, bh, x, y, cut_w, cut_h, lines) {
        let t = choose|t: int|
            0 <= t < lines && #[trigger] on_ring(i, bw, bh, x, y, cut_w, cut_h, t);
        assert(on_ring(i, bw, bh, x, y, w, h, t));
    }
}

/// The pixel in column `c` of row `r` is on line `t` of the outline of the rectangle from
/// (`x`, `y`) up to, and not including, (`x2`, `y2`): line `t` is drawn `t` pixels further in from
/// each side, and no further than the buffer's first row or column.
pub open spec fn on_line(x: int, y: int, x2: int, y2: int, t: int, c: int, r: int) -> bool {
    ||| x <= c < x2 && (r == y + t || r == y2 - 1 - t || (r == 0 && y2 - 1 - t < 0))
    ||| y <= r < y2 && (c == x + t || c == x2 - 1 - t || (c == 0 && x2 - 1 - t < 0))
}

/// Of every rectangle, however thin, whose left edge with the border's width is inside the buffer,
/// the border is made of the lines of its outline, `lines` of them.
pub proof fn law_border_is_made_of_lines(
    bw: int,
    bh: int,
    x: int,
    y: int,
    w: int,
    h: int,
    x2: int,
    y2: int,
    lines: int,
    c: int,
    r: int,
)
    requires
        0 <= x,
        0 <= y,
        x2 == if x + w <= bw {
            x + w
        } else {
            bw
        },
        y2 == if y + h <= bh {
            y + h
        } else {
            bh
        },
        x < x2,
        x + lines <= bw,
        0 <= c < bw,
        0 <= r < bh,
    ensures
        on_border(r * bw + c, bw, bh, x, y, w, h, lines) <==> exists|t: int|
            0 <= t < lines && #[trigger] on_line(x, y, x2, y2, t, c, r),
{
    let i = r * bw + c;
    if on_border(i, bw, bh, x, y, w, h, lines) {
        let t = choose|t: int| 0 <= t < lines && #[trigger] on_ring(i, bw, bh, x, y, w, h, t);
        if on_rows(i, bw, bh, x, y, y2, t, x2) {
            if y + t < bh && x <= i - (y + t) * bw < x2 {
                lemma_same_pixel(bw, r, c, y + t, i - (y + t) * bw);
            } else {
                let b = from_end(y2, t);
                lemma_same_pixel(bw, r, c, b, i - b * bw);
            }
        } else {
            let q = choose|q: int| y <= q < y2 && #[trigger] on_side(i, bw, x, x2, t, q);
            if i == q * bw + x + t {
                lemma_same_pixel(bw, r, c, q, x + t);
            } else {
                lemma_same_pixel(bw, r, c, q, from_end(x2, t));
            }
        }
        assert(on_line(x, y, x2, y2, t, c, r));
    }
    if exists|t: int| 0 <= t < lines && #[trigger] on_line(x, y, x2, y2, t, c, r) {
        let t = choose|t: int| 0 <= t < lines && #[trigger] on_line(x, y, x2, y2, t, c, r);
        if x <= c < x2 && (r == y + t || r == y2 - 1 - t || (r == 0 && y2 - 1 - t < 0)) {
            assert(on_rows(i, bw, bh, x, y, y2, t, x2));
        } else {
            assert(on_side(i, bw, x, x2, t, r));
            assert(on_sides(i, bw, x, x2, y, t, y2));
        }
        assert(on_ring(i, bw, bh, x, y, w, h, t));
    }
}

/// Drawing a border changes the pixels on it to the colour and no others.
pub proof fn law_drawing_changes_only_the_border(
    buf: Seq<u32>,
    bw: int,
    bh: int,
    x: int,
    y: int,
    w: int,
    h: int,
    color: u32,
    lines: int,
    i: int,
)
    requires
        0 <= i < buf.len(),
    ensures
        bordered(buf, bw, bh, x, y, w, h, color, lines).len() == buf.len(),
        on_border(i, bw, bh, x, y, w, h, lines) ==> bordered(
            buf,
            bw,
            bh,
            x,
            y,
            w,
            h,
            color,
            lines,
        )[i] == color,
        !on_border(i, bw, bh, x, y, w, h, lines) ==> bordered(
            buf,
            bw,
            bh,
            x,
            y,
            w,
            h,
            color,
            lines,
        )[i] == buf[i],
{
}

/// Pixels never have a top byte, and the dimming table has one entry for each level.
pub proof fn law_pixels_have_no_top_byte(p: u32, r: u8, g: u8, b: u8, levels: Seq<u8>, level: int)
    requires
        0 <= level < 256,
    ensures
        rgb(r, g, b) < 0x100_0000,
        rgb(r, g, b) == r * 0x1_0000 + g * 0x100 + b,
        relevelled(p, levels) < 0x100_0000,
        dimmed_levels().len() == 256,
        dimmed_levels()[level] == level * 11 / 20,
{
}

/// Row `q` of a blit lies wholly inside both buffers.
pub open spec fn row_is_copied(
    dst_len: nat,
    dst_w: int,
    src_len: nat,
    src_stride: int,
    src_ox: int,
    src_oy: int,
    dx: int,
    dy: int,
    w: int,
    q: int,
) -> bool {
    (dy + q) * dst_w + dx + w <= dst_len && (src_oy + q) * src_stride + src_ox + w <= src_len
}

/// Index `i` lies in row `q` of the rectangle that a blit writes to.
pub open spec fn is_in_row(i: int, dst_w: int, dx: int, dy: int, w: int, q: int) -> bool {
    (dy + q) * dst_w + dx <= i < (dy + q) * dst_w + dx + w
}

/// After a blit an index holds the pixel of the last of the copied rows that it lies in, and what
/// it held before where it lies in none; this holds of rectangles that are wider than the buffer
/// too.
pub proof fn law_blit_copies_row_by_row(
    dst: Seq<u32>,
    dst_w: int,
    src: Seq<u32>,
    src_stride: int,
    src_ox: int,
    src_oy: int,
    dx: int,
    dy: int,
    w: int,
    rows: nat,
    i: int,
    q: int,
)
    requires
        0 <= dst_w,
        0 <= dx,
        0 <= dy,
        0 <= w,
        0 <= src_ox,
        0 <= src_oy,
        0 <= src_stride,
        0 <= i < dst.len(),
        q < rows,
        forall|t: int|
            q < t < rows && 0 <= t && #[trigger] is_in_row(i, dst_w, dx, dy, w, t)
                ==> !row_is_copied(
                dst.len(),
                dst_w,
                src.len(),
                src_stride,
                src_ox,
                src_oy,
                dx,
                dy,
                w,
                t,
            ),
    ensures
        ({
            let out = blitted(dst, dst_w, src, src_stride, src_ox, src_oy, dx, dy, w, rows);
            &&& out.len() == dst.len()
            &&& q < 0 ==> out[i] == dst[i]
            &&& 0 <= q && is_in_row(i, dst_w, dx, dy, w, q) && row_is_copied(
                dst.len(),
                dst_w,
                src.len(),
                src_stride,
                src_ox,
                src_oy,
                dx,
                dy,
                w,
                q,
            ) ==> out[i] == src[(src_oy + q) * src_stride + src_ox + (i - (dy + q) * dst_w - dx)]
        }),
    decreases rows,
{
    if rows > 0 {
        let last = rows - 1;
        let to = (dy + last) * dst_w + dx;
        let from = (src_oy + last) * src_stride + src_ox;
        assert(0 <= (dy + last) * dst_w) by (nonlinear_arith)
            requires
                0 <= dy + last,
                0 <= dst_w,
        ;
        assert(0 <= (src_oy + last) * src_stride) by (nonlinear_arith)
            requires
                0 <= src_oy + last,
                0 <= src_stride,
        ;
        assert((dy + rows - 1) * dst_w + dx == to);
        assert((src_oy + rows - 1) * src_stride + src_ox == from);
        let in_last = is_in_row(i, dst_w, dx, dy, w, last);
        if q < last {
            law_blit_copies_row_by_row(
                dst,
                dst_w,
                src,
                src_stride,
                src_ox,
                src_oy,
                dx,
                dy,
                w,
                last as nat,
                i,
                q,
            );
        } else {
            law_blit_copies_row_by_row(
                dst,
                dst_w,
                src,
                src_stride,
                src_ox,
                src_oy,
                dx,
                dy,
                w,
                last as nat,
                i,
                last - 1,
            );
        }
    }
}

/// Index `i` is column `c` of row `r` of a buffer that is `bw` pixels wide.
pub open spec fn is_pixel(i: int, bw: int, c: int, r: int) -> bool {
    i == r * bw + c
}

/// Whatever the rectangle and the buffer, the border is made of the pixels of its lines: line `t`
/// has a row `t` below the top edge and one `t` above the bottom edge, as far as these are inside
/// the buffer, each from the left edge to the right one, and a column `t` right of the left edge
/// and one `t` left of the right edge, each from the top edge to the bottom one. The right and the
/// bottom edge are cut off at the buffer, and lines from there stop at zero.
pub proof fn law_border_pixel_by_pixel(
    i: int,
    bw: int,
    bh: int,
    x: int,
    y: int,
    w: int,
    h: int,
    x2: int,
    y2: int,
    t: int,
    c: int,
    r: int,
)
    requires
        x2 == if x + w <= bw {
            x + w
        } else {
            bw
        },
        y2 == if y + h <= bh {
            y + h
        } else {
            bh
        },
    ensures
        x <= c < x2 && y + t < bh && is_pixel(i, bw, c, y + t) ==> on_ring(
            i,
            bw,
            bh,
            x,
            y,
            w,
            h,
            t,
        ),
        x <= c < x2 && 0 <= y2 - 1 - t < bh && is_pixel(i, bw, c, y2 - 1 - t) ==> on_ring(
            i,
            bw,
            bh,
            x,
            y,
            w,
            h,
            t,
        ),
        x <= c < x2 && y2 - 1 - t < 0 < bh && is_pixel(i, bw, c, 0) ==> on_ring(
            i,
            bw,
            bh,
            x,
            y,
            w,
            h,
            t,
        ),
        y <= r < y2 && is_pixel(i, bw, x + t, r) ==> on_ring(i, bw, bh, x, y, w, h, t),
        y <= r < y2 && 0 <= x2 - 1 - t && is_pixel(i, bw, x2 - 1 - t, r) ==> on_ring(
            i,
            bw,
            bh,
            x,
            y,
            w,
            h,
            t,
        ),
        y <= r < y2 && x2 - 1 - t < 0 && is_pixel(i, bw, 0, r) ==> on_ring(
            i,
            bw,
            bh,
            x,
            y,
            w,
            h,
            t,
        ),
        on_ring(i, bw, bh, x, y, w, h, t) ==> {
            ||| y + t < bh && exists|k: int| x <= k < x2 && #[trigger] is_pixel(i, bw, k, y + t)
            ||| from_end(y2, t) < bh && exists|k: int|
                x <= k < x2 && #[trigger] is_pixel(i, bw, k, from_end(y2, t))
            ||| exists|q: int|
                y <= q < y2 && (#[trigger] is_pixel(i, bw, x + t, q) || is_pixel(
                    i,
                    bw,
                    from_end(x2, t),
                    q,
                ))
        },
        from_end(y2, t) == if y2 - 1 - t < 0 {
            0
        } else {
            y2 - 1 - t
        },
{
    if y <= r < y2 && (is_pixel(i, bw, x + t, r) || is_pixel(i, bw, from_end(x2, t), r)) {
        assert(on_side(i, bw, x, x2, t, r));
    }
    if on_ring(i, bw, bh, x, y, w, h, t) {
        if y + t < bh && x <= i - (y + t) * bw < x2 {
            assert(is_pixel(i, bw, i - (y + t) * bw, y + t));
        } else if from_end(y2, t) < bh && x <= i - from_end(y2, t) * bw < x2 {
            assert(is_pixel(i, bw, i - from_end(y2, t) * bw, from_end(y2, t)));
        } else {
            let q = choose|q: int| y <= q < y2 && #[trigger] on_side(i, bw, x, x2, t, q);
            assert(is_pixel(i, bw, x + t, q) || is_pixel(i, bw, from_end(x2, t), q));
        }
    }
}

/// An index is on a border of some lines exactly where it is on one of them.
pub proof fn law_border_is_its_lines(
    i: int,
    bw: int,
    bh: int,
    x: int,
    y: int,
    w: int,
    h: int,
    lines: int,
)
    ensures
        on_border(i, bw, bh, x, y, w, h, 0) == false,
        lines >= 0 ==> (on_border(i, bw, bh, x, y, w, h, lines + 1) <==> on_border(
            i,
            bw,
            bh,
            x,
            y,
            w,
            h,
            lines,
        ) || on_ring(i, bw, bh, x, y, w, h, lines)),
{
    if lines >= 0 {
        if on_border(i, bw, bh, x, y, w, h, lines) {
            let t = choose|t: int| 0 <= t < lines && #[trigger] on_ring(i, bw, bh, x, y, w, h, t);
            assert(on_ring(i, bw, bh, x, y, w, h, t));
        }
        if on_border(i, bw, bh, x, y, w, h, lines + 1) {
            let t = choose|t: int|
                0 <= t < lines + 1 && #[trigger] on_ring(i, bw, bh, x, y, w, h, t);
            assert(t == lines || on_border(i, bw, bh, x, y, w, h, lines));
        }
    }
}

/// A blit can be worked out exactly where the index past its last row is a number of 64 bits, and
/// a border where its far corners and its lines are numbers of 32.
pub proof fn law_drawing_ranges(a: u32, ox: u32, oy: u32, w: u32, h: u32, lines: u32)
    ensures
        blit_fits(a, ox, oy, w, h) <==> h == 0 || (oy + h - 1) * a + ox + w
            < 0x1_0000_0000_0000_0000,
        border_fits(ox, oy, w, h, lines) <==> {
            &&& ox + w < 0x1_0000_0000
            &&& oy + h < 0x1_0000_0000
            &&& ox + lines <= 0x1_0000_0000
            &&& oy + lines <= 0x1_0000_0000
        },
{
}

} // verus!
