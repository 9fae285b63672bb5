use vstd::prelude::*;
use crate::error::Error;
use crate::graphics::color::{ColorCode, PixelFormat};
use crate::graphics::geometry::{Point, Rect, Size};
use crate::graphics::multi_layer::Layer;
use crate::graphics::font::{font_wf, glyph_index, PsfFont};
use crate::graphics::draw::{clip_line, clip_spec, inside, share_side, COORD_LIMIT};

verus! {

/// Errors of drawing on a layer.
#[derive(Debug, Clone, Copy, PartialEq, Eq, Structural)]
pub enum DrawError {
    SourcePositionOutOfBounds { point: Point },
    DestinationPositionOutOfBounds { point: Point },
    RectSizeOutOfBounds { size: Size },
    InvalidPixelFormat { src: PixelFormat, dst: PixelFormat },
}

/// The 32-bit pixel value of a color in a pixel format.
pub open spec fn pixel_value(c: ColorCode, f: PixelFormat) -> u32 {
    (match f {
        PixelFormat::Bgr => c.r as nat * 0x1_0000 + c.g as nat * 0x100 + c.b as nat,
        PixelFormat::Rgb => c.b as nat * 0x1_0000 + c.g as nat * 0x100 + c.r as nat,
        PixelFormat::Bgra => c.a as nat * 0x100_0000 + c.r as nat * 0x1_0000 + c.g as nat * 0x100 + c.b as nat,
    }) as u32
}

fn pixel_code(c: ColorCode, f: PixelFormat) -> (res: u32)
    ensures
        res == pixel_value(c, f),
{
    c.to_color_code(f)
}

/// A layer whose buffer holds one pixel per cell of its size.
pub open spec fn canvas_ok(l: Layer) -> bool {
    l.buf@.len() == l.size.width * l.size.height
}

/// `b` is `a` apart from its pixels and whether it is dirty.
pub open spec fn same_layer(a: Layer, b: Layer) -> bool {
    &&& a.id == b.id
    &&& a.pos == b.pos
    &&& a.size == b.size
    &&& a.disabled == b.disabled
    &&& a.format == b.format
    &&& a.always_on_top == b.always_on_top
    &&& a.pos_moved == b.pos_moved
    &&& a.old_pos == b.old_pos
    &&& a.buf@.len() == b.buf@.len()
}

/// Whether cell `p` of a buffer `w` pixels wide lies in the `n` rows from
/// row `y` and the `cw` columns from column `x`.
pub open spec fn in_block(p: int, w: int, x: int, y: int, cw: int, n: int) -> bool {
    w > 0 && y <= p / w < y + n && x <= p % w < x + cw
}

proof fn lemma_cell(p: int, w: int, row: int, col: int)
    requires
        w > 0,
        0 <= col < w,
        p == row * w + col,
    ensures
        p / w == row,
        p % w == col,
{
    vstd::arithmetic::div_mod::lemma_fundamental_div_mod_converse(p, w, row, col);
}

proof fn lemma_cell_unique(p: int, w: int)
    requires
        w > 0,
    ensures
        p == (p / w) * w + p % w,
{
    vstd::arithmetic::div_mod::lemma_fundamental_div_mod(p, w);
    vstd::arithmetic::mul::lemma_mul_is_commutative(w, p / w);
}

/// Row `row` of a buffer `w` wide ends within `len` when the buffer has
/// more rows than `row`.
proof fn lemma_row_fits(w: int, row: int, rows: int, len: int)
    requires
        w > 0,
        0 <= row < rows,
        rows * w <= len,
    ensures
        row * w + w <= len,
        0 <= row * w,
        row <= row * w,
{
    vstd::arithmetic::mul::lemma_mul_inequality(row + 1, rows, w);
    vstd::arithmetic::mul::lemma_mul_is_distributive_add_other_way(w, row, 1);
    vstd::arithmetic::mul::lemma_mul_nonnegative(row, w);
    vstd::arithmetic::mul::lemma_mul_inequality(1, w, row);
}

/// Row `row` of a buffer `w` wide ends within `len` when the buffer has
/// more rows than `row`.
pub proof fn lemma_row_within(w: int, row: int, rows: int, len: int)
    requires
        w > 0 ==> rows * w <= len,
        0 <= row < rows,
        0 <= w,
    ensures
        row * w + w <= len || w == 0,
        0 <= row * w,
        w > 0 ==> row <= row * w,
{
    if w > 0 {
        lemma_row_fits(w, row, rows, len);
    } else {
        assert(row * w == 0);
    }
}

/// Sets the cells of a block to `code`.
fn fill_block(buf: &mut Vec<u32>, w: usize, x: usize, y: usize, cw: usize, n: usize, code: u32)
    requires
        w > 0,
        x + cw <= w,
        (y + n) * w <= old(buf)@.len(),
    ensures
        final(buf)@.len() == old(buf)@.len(),
        forall|p: int|
            0 <= p < old(buf)@.len() ==> #[trigger] final(buf)@[p] == if in_block(
                p,
                w as int,
                x as int,
                y as int,
                cw as int,
                n as int,
            ) {
                code
            } else {
                old(buf)@[p]
            },
{
    let ghost orig = buf@;
    let len = buf.len();
    let mut r: usize = 0;
    while r < n
        invariant
            r <= n,
            buf@.len() == orig.len(),
            len == orig.len(),
            w > 0,
            x + cw <= w,
            (y + n) * w <= orig.len(),
            forall|p: int|
                0 <= p < orig.len() ==> #[trigger] buf@[p] == if in_block(p, w as int, x as int, y as int, cw as int, r as int) {
                    code
                } else {
                    orig[p]
                },
        decreases n - r,
    {
        proof {
            lemma_row_fits(w as int, (y + r) as int, (y + n) as int, orig.len() as int);
        }
        let base = (y + r) * w + x;
        let ghost row = (y + r) as int;
        let mut c: usize = 0;
        while c < cw
            invariant
                c <= cw,
                r < n,
                buf@.len() == orig.len(),
                len == orig.len(),
                w > 0,
                x + cw <= w,
                row == y + r,
                base == row * w + x,
                row * w + w <= orig.len(),
                forall|p: int|
                    0 <= p < orig.len() ==> #[trigger] buf@[p] == if in_block(
                        p,
                        w as int,
                        x as int,
                        y as int,
                        cw as int,
                        r as int,
                    ) || (p / (w as int) == row && x <= p % (w as int) < x + c) {
                        code
                    } else {
                        orig[p]
                    },
            decreases cw - c,
        {
            let q = base + c;
            proof {
                lemma_cell(q as int, w as int, row, (x + c) as int);
            }
            let ghost before = buf@;
            buf.set(q, code);
            proof {
                assert forall|p: int| 0 <= p < orig.len() implies #[trigger] buf@[p] == if in_block(
                    p,
                    w as int,
                    x as int,
                    y as int,
                    cw as int,
                    r as int,
                ) || (p / (w as int) == row && x <= p % (w as int) < x + c + 1) {
                    code
                } else {
                    orig[p]
                } by {
                    if p != q {
                        lemma_cell_unique(p, w as int);
                        assert(!(p / (w as int) == row && p % (w as int) == x + c));
                    }
                }
            }
            c = c + 1;
        }
        r = r + 1;
    }
}

/// `w` pixels moved from offset `s` to offset `d`, as one move of
/// possibly overlapping memory.
pub open spec fn moved_row(b: Seq<u32>, s: int, d: int, w: int) -> Seq<u32> {
    Seq::new(b.len(), |p: int| if d <= p < d + w { b[s + (p - d)] } else { b[p] })
}

/// The first `n` rows of a `w` by `n` rectangle moved, one row after the
/// other, from column `sx` of row `sy` to column `dx` of row `dy` of a
/// buffer `stride` pixels wide.
pub open spec fn moved_rows(b: Seq<u32>, sx: int, sy: int, dx: int, dy: int, stride: int, w: int, n: nat) -> Seq<u32>
    decreases n,
{
    if n == 0 {
        b
    } else {
        let k = n - 1;
        moved_row(moved_rows(b, sx, sy, dx, dy, stride, w, k as nat), (sy + k) * stride + sx, (dy + k) * stride + dx, w)
    }
}

fn move_row(buf: &mut Vec<u32>, s: usize, d: usize, w: usize)
    requires
        w == 0 || (s + w <= old(buf)@.len() && d + w <= old(buf)@.len()),
    ensures
        final(buf)@ == moved_row(old(buf)@, s as int, d as int, w as int),
{
    let ghost orig = buf@;
    let len = buf.len();
    let mut tmp: Vec<u32> = Vec::new();
    let mut k: usize = 0;
    while k < w
        invariant
            k <= w,
            len == orig.len(),
            w > 0 ==> s + w <= orig.len(),
            buf@ == orig,
            tmp@.len() == k,
            forall|j: int| 0 <= j < k ==> #[trigger] tmp@[j] == orig[s + j],
        decreases w - k,
    {
        tmp.push(buf[s + k]);
        k = k + 1;
    }
    let mut k: usize = 0;
    while k < w
        invariant
            k <= w,
            len == orig.len(),
            w > 0 ==> d + w <= orig.len(),
            buf@.len() == orig.len(),
            tmp@.len() == w,
            forall|j: int| 0 <= j < w ==> #[trigger] tmp@[j] == orig[s + j],
            forall|p: int|
                0 <= p < orig.len() ==> #[trigger] buf@[p] == if d <= p < d + k {
                    orig[s + (p - d)]
                } else {
                    orig[p]
                },
        decreases w - k,
    {
        buf.set(d + k, tmp[k]);
        k = k + 1;
    }
    assert(buf@ =~= moved_row(orig, s as int, d as int, w as int));
}

/// Whether the pixel at column `col` (0 to 7) of a glyph row is drawn in
/// the fore color: bit `7 - col` of the row.
pub open spec fn glyph_pixel_on(line: u8, col: int) -> bool {
    (line >> ((7 - col) as u8)) & 1u8 == 1u8
}

/// Row `r` of the glyph of `c`.
pub open spec fn glyph_row(f: PsfFont, c: char, r: int) -> u8 {
    f.binary@[f.header_size + f.glyph_size * glyph_index(f, c) + r]
}

/// Where a copy from `src` to `dst` lands, clipped to both: the source's
/// column and row, the destination's column and row, and the width and
/// height copied.
pub open spec fn copy_window(dst: Layer, src: Layer, src_rect: Rect, dst_point: Point) -> (int, int, int, int, int, int) {
    let (sx, sy) = (src_rect.origin.x as int, src_rect.origin.y as int);
    let (sw, sh) = (src_rect.size.width as int, src_rect.size.height as int);
    let (srw, srh) = (src.size.width as int, src.size.height as int);
    let (rw, rh) = (dst.size.width as int, dst.size.height as int);
    let csx = if sx < srw { sx } else { srw };
    let csy = if sy < srh { sy } else { srh };
    let csw = (if sx + sw < srw { sx + sw } else { srw }) - csx;
    let csh = (if sy + sh < srh { sy + sh } else { srh }) - csy;
    let cdx = if dst_point.x < rw { dst_point.x as int } else { rw };
    let cdy = if dst_point.y < rh { dst_point.y as int } else { rh };
    let cw = if csw < rw - cdx { csw } else { rw - cdx };
    let ch = if csh < rh - cdy { csh } else { rh - cdy };
    (csx, csy, cdx, cdy, cw, ch)
}

/// The pixels of `dst` once the window of `src` is copied in.
pub open spec fn copied_pixels(dst: Layer, src: Layer, src_rect: Rect, dst_point: Point) -> Seq<u32> {
    let (csx, csy, cdx, cdy, cw, ch) = copy_window(dst, src, src_rect, dst_point);
    let rw = dst.size.width as int;
    let srw = src.size.width as int;
    Seq::new(
        dst.buf@.len(),
        |p: int|
            if in_block(p, rw, cdx, cdy, cw, ch) {
                src.buf@[(csy + (p / rw - cdy)) * srw + csx + (p % rw - cdx)]
            } else {
                dst.buf@[p]
            },
    )
}

/// The steps of Bresenham's walk over a line `dx` across and `dd` down (both
/// counted as distances), as steps taken so far across and down: from
/// `(ex, ey)` until both distances are covered. The error term is
/// `dx * (ey + 1) - dd * (ex + 1)`; a step across is taken when twice the
/// error is at least `-dd`, a step down when it is at most `dx`.
pub open spec fn walk(ex: int, ey: int, dx: int, dd: int, fuel: nat) -> Seq<(int, int)>
    decreases fuel,
{
    if fuel == 0 {
        Seq::empty()
    } else if ex == dx && ey == dd {
        seq![(ex, ey)]
    } else {
        let e2 = 2 * (dx * (ey + 1) - dd * (ex + 1));
        let nex = if e2 >= -dd { ex + 1 } else { ex };
        let ney = if e2 <= dx { ey + 1 } else { ey };
        seq![(ex, ey)].add(walk(nex, ney, dx, dd, (fuel - 1) as nat))
    }
}

/// A point of the walk, where it is: one step toward the end for each step.
pub open spec fn toward(from: int, to: int, steps: int) -> int {
    if from < to {
        from + steps
    } else {
        from - steps
    }
}

/// The points of the line from `(x0, y0)` to `(x1, y1)` that the walk
/// steps `s` reach.
pub open spec fn walk_points(s: Seq<(int, int)>, x0: int, y0: int, x1: int, y1: int) -> Seq<(int, int)> {
    Seq::new(s.len(), |i: int| (toward(x0, x1, s[i].0), toward(y0, y1, s[i].1)))
}

/// The pixels of the line from `(x0, y0)` to `(x1, y1)`, in the order drawn.
pub open spec fn line_pixels(x0: int, y0: int, x1: int, y1: int) -> Seq<(int, int)> {
    let dx = abs(x1 - x0);
    let dd = abs(y1 - y0);
    walk_points(walk(0, 0, dx, dd, (dx + dd + 1) as nat), x0, y0, x1, y1)
}

/// `b` with the pixels at `pts` of a buffer `w` wide set to `code`, in order.
pub open spec fn painted(b: Seq<u32>, pts: Seq<(int, int)>, w: int, code: u32) -> Seq<u32>
    decreases pts.len(),
{
    if pts.len() == 0 {
        b
    } else {
        painted(b, pts.drop_last(), w, code).update(pts.last().1 * w + pts.last().0, code)
    }
}

pub open spec fn abs(a: int) -> int {
    if a < 0 {
        -a
    } else {
        a
    }
}

/// A state of the walk that stays within the line.
pub open spec fn walk_ok(ex: int, ey: int, dx: int, dd: int) -> bool {
    0 <= ex <= dx && 0 <= ey <= dd
}

/// A step of the walk stays within the line and covers ground.
proof fn lemma_walk_step(ex: int, ey: int, dx: int, dd: int)
    requires
        walk_ok(ex, ey, dx, dd),
        !(ex == dx && ey == dd),
    ensures
        ({
            let e2 = 2 * (dx * (ey + 1) - dd * (ex + 1));
            let nex = if e2 >= -dd { ex + 1 } else { ex };
            let ney = if e2 <= dx { ey + 1 } else { ey };
            &&& walk_ok(nex, ney, dx, dd)
            &&& (dx - nex) + (dd - ney) < (dx - ex) + (dd - ey)
        }),
{
    let err = dx * (ey + 1) - dd * (ex + 1);
    if ex == dx {
        assert(ey < dd);
        assert(err <= -dd) by (nonlinear_arith)
            requires
                err == dx * (ey + 1) - dd * (ex + 1),
                ex == dx,
                ey + 1 <= dd,
                dx >= 0,
        ;
    }
    if ey == dd {
        assert(ex < dx);
        assert(err >= dx) by (nonlinear_arith)
            requires
                err == dx * (ey + 1) - dd * (ex + 1),
                ey == dd,
                ex + 1 <= dx,
                dd >= 0,
        ;
    }
}

/// Enough fuel gives the whole walk.
proof fn lemma_walk_fuel(ex: int, ey: int, dx: int, dd: int, fuel: nat)
    requires
        walk_ok(ex, ey, dx, dd),
        fuel >= (dx - ex) + (dd - ey) + 1,
    ensures
        walk(ex, ey, dx, dd, fuel) == walk(ex, ey, dx, dd, ((dx - ex) + (dd - ey) + 1) as nat),
    decreases fuel,
{
    if !(ex == dx && ey == dd) {
        lemma_walk_step(ex, ey, dx, dd);
        let e2 = 2 * (dx * (ey + 1) - dd * (ex + 1));
        let nex = if e2 >= -dd { ex + 1 } else { ex };
        let ney = if e2 <= dx { ey + 1 } else { ey };
        lemma_walk_fuel(nex, ney, dx, dd, (fuel - 1) as nat);
        lemma_walk_fuel(nex, ney, dx, dd, ((dx - ex) + (dd - ey)) as nat);
    }
}

/// The pixels of a layer after a rectangle is filled: `n` rows from `y`
/// when the rectangle has height `h` (a height of 0 still fills its first
/// row), of `cw` columns from `x`.
pub open spec fn rect_rows(h: int) -> int {
    if h == 0 {
        1
    } else {
        h
    }
}

impl Layer {
    /// Sets one pixel; a point past the right or bottom edge is refused (a
    /// point on the right edge lands at the start of the next row).
    pub fn draw_pixel(&mut self, point: Point, color: ColorCode) -> (res: Result<(), Error>)
        requires
            canvas_ok(*old(self)),
            point.x <= old(self).size.width && point.y <= old(self).size.height ==> point.y
                * old(self).size.width + point.x < old(self).buf@.len(),
        ensures
            same_layer(*old(self), *final(self)),
            if point.x > old(self).size.width || point.y > old(self).size.height {
                res == Err::<(), Error>(Error::Draw(DrawError::SourcePositionOutOfBounds { point }))
                    && *final(self) == *old(self)
            } else {
                &&& res is Ok
                &&& final(self).dirty
                &&& final(self).buf@ == old(self).buf@.update(
                    point.y * old(self).size.width + point.x,
                    pixel_value(color, old(self).format),
                )
            },
    {
        let res = self.size;
        if point.x > res.width || point.y > res.height {
            return Err(Error::Draw(DrawError::SourcePositionOutOfBounds { point }));
        }
        let code = pixel_code(color, self.format);
        let len = self.buf.len();
        proof {
            vstd::arithmetic::mul::lemma_mul_nonnegative(point.y as int, res.width as int);
        }
        let idx = point.y * res.width + point.x;
        self.buf.set(idx, code);
        self.dirty = true;
        Ok(())
    }

    /// Fills a rectangle; an origin past the edges or a rectangle reaching
    /// past them is refused.
    pub fn draw_rect(&mut self, rect: Rect, color: ColorCode) -> (res: Result<(), Error>)
        requires
            canvas_ok(*old(self)),
            ({
                let (x, y, w, h) = (rect.origin.x, rect.origin.y, rect.size.width, rect.size.height);
                let (rw, rh) = (old(self).size.width, old(self).size.height);
                x + w <= rw && y + h <= rh && h == 0 && w > 0 ==> y < rh
            }),
        ensures
            same_layer(*old(self), *final(self)),
            ({
                let (x, y, w, h) = (rect.origin.x, rect.origin.y, rect.size.width, rect.size.height);
                let (rw, rh) = (old(self).size.width, old(self).size.height);
                if x > rw || y > rh {
                    res == Err::<(), Error>(Error::Draw(DrawError::SourcePositionOutOfBounds { point: rect.origin }))
                        && *final(self) == *old(self)
                } else if x + w > rw || y + h > rh {
                    res == Err::<(), Error>(Error::Draw(DrawError::RectSizeOutOfBounds { size: rect.size }))
                        && *final(self) == *old(self)
                } else {
                    &&& res is Ok
                    &&& final(self).dirty
                    &&& forall|p: int|
                        0 <= p < old(self).buf@.len() ==> #[trigger] final(self).buf@[p] == if in_block(
                            p,
                            rw as int,
                            x as int,
                            y as int,
                            w as int,
                            rect_rows(h as int),
                        ) {
                            pixel_value(color, old(self).format)
                        } else {
                            old(self).buf@[p]
                        }
                }
            }),
    {
        let res = self.size;
        let (x, y) = (rect.origin.x, rect.origin.y);
        let (w, h) = (rect.size.width, rect.size.height);
        if x > res.width || y > res.height {
            return Err(Error::Draw(DrawError::SourcePositionOutOfBounds { point: rect.origin }));
        }
        if w > res.width - x || h > res.height - y {
            return Err(Error::Draw(DrawError::RectSizeOutOfBounds { size: rect.size }));
        }
        let code = pixel_code(color, self.format);
        if w > 0 {
            let n = if h == 0 {
                1
            } else {
                h
            };
            proof {
                vstd::arithmetic::mul::lemma_mul_inequality((y + n) as int, res.height as int, res.width as int);
                vstd::arithmetic::mul::lemma_mul_is_commutative(res.width as int, res.height as int);
            }
            fill_block(&mut self.buf, res.width, x, y, w, n, code);
        } else {
            assert forall|p: int| 0 <= p < old(self).buf@.len() implies !in_block(
                p,
                res.width as int,
                x as int,
                y as int,
                w as int,
                rect_rows(h as int),
            ) by {}
        }
        self.dirty = true;
        Ok(())
    }

    /// Fills the whole layer. The first pixel is written even on a layer of
    /// no pixels, so the layer must have one.
    pub fn fill(&mut self, color: ColorCode) -> (res: Result<(), Error>)
        requires
            canvas_ok(*old(self)),
            old(self).buf@.len() > 0,
        ensures
            same_layer(*old(self), *final(self)),
            res is Ok,
            final(self).dirty,
            forall|p: int| 0 <= p < old(self).buf@.len() ==> #[trigger] final(self).buf@[p] == pixel_value(
                color,
                old(self).format,
            ),
    {
        let code = pixel_code(color, self.format);
        let n = self.buf.len();
        let mut i: usize = 0;
        while i < n
            invariant
                i <= n,
                n == self.buf@.len(),
                same_layer(*old(self), *self),
                forall|p: int| 0 <= p < i ==> #[trigger] self.buf@[p] == code,
            decreases n - i,
        {
            self.buf.set(i, code);
            i = i + 1;
        }
        self.dirty = true;
        Ok(())
    }

    /// Moves a rectangle within the layer, one row after the other, each
    /// row as one move of possibly overlapping memory. A source past the
    /// edges, a destination origin past them, or a source rectangle reaching
    /// past them is refused; the destination may reach past the right edge
    /// (it wraps into the next row), but not past the buffer.
    pub fn copy_rect(&mut self, src_point: Point, dst_point: Point, size: Size) -> (res: Result<(), Error>)
        requires
            canvas_ok(*old(self)),
            ({
                let (rw, rh) = (old(self).size.width, old(self).size.height);
                (src_point.x <= rw && src_point.y <= rh && dst_point.x <= rw && dst_point.y <= rh && src_point.x
                    + size.width <= rw && src_point.y + size.height <= rh && size.height > 0 && size.width > 0)
                    ==> (dst_point.y + size.height - 1) * rw + dst_point.x + size.width <= old(self).buf@.len()
            }),
        ensures
            same_layer(*old(self), *final(self)),
            ({
                let (rw, rh) = (old(self).size.width, old(self).size.height);
                if src_point.x > rw || src_point.y > rh {
                    res == Err::<(), Error>(Error::Draw(DrawError::SourcePositionOutOfBounds { point: src_point }))
                        && *final(self) == *old(self)
                } else if dst_point.x > rw || dst_point.y > rh {
                    res == Err::<(), Error>(Error::Draw(DrawError::DestinationPositionOutOfBounds { point: dst_point }))
                        && *final(self) == *old(self)
                } else if src_point.x + size.width > rw || src_point.y + size.height > rh {
                    res == Err::<(), Error>(Error::Draw(DrawError::RectSizeOutOfBounds { size }))
                        && *final(self) == *old(self)
                } else {
                    &&& res is Ok
                    &&& final(self).dirty
                    &&& final(self).buf@ == moved_rows(
                        old(self).buf@,
                        src_point.x as int,
                        src_point.y as int,
                        dst_point.x as int,
                        dst_point.y as int,
                        rw as int,
                        size.width as int,
                        size.height as nat,
                    )
                }
            }),
    {
        let res = self.size;
        if src_point.x > res.width || src_point.y > res.height {
            return Err(Error::Draw(DrawError::SourcePositionOutOfBounds { point: src_point }));
        }
        if dst_point.x > res.width || dst_point.y > res.height {
            return Err(Error::Draw(DrawError::DestinationPositionOutOfBounds { point: dst_point }));
        }
        if size.width > res.width - src_point.x || size.height > res.height - src_point.y {
            return Err(Error::Draw(DrawError::RectSizeOutOfBounds { size }));
        }
        let ghost orig = self.buf@;
        let len = self.buf.len();
        let w = size.width;
        let stride = res.width;
        let mut i: usize = 0;
        while i < size.height
            invariant
                i <= size.height,
                self.buf@.len() == orig.len(),
                len == orig.len(),
                orig.len() == stride * res.height,
                same_layer(*old(self), *self),
                stride == res.width,
                res == old(self).size,
                src_point.x + w <= stride,
                src_point.y + size.height <= res.height,
                dst_point.y <= res.height,
                dst_point.x <= stride,
                size.height > 0 && w > 0 ==> (dst_point.y + size.height - 1) * stride + dst_point.x + w <= len,
                self.buf@ == moved_rows(
                    orig,
                    src_point.x as int,
                    src_point.y as int,
                    dst_point.x as int,
                    dst_point.y as int,
                    stride as int,
                    w as int,
                    i as nat,
                ),
            decreases size.height - i,
        {
            if w > 0 {
                proof {
                    vstd::arithmetic::mul::lemma_mul_is_commutative(stride as int, res.height as int);
                    lemma_row_fits(stride as int, (src_point.y + i) as int, res.height as int, len as int);
                    vstd::arithmetic::mul::lemma_mul_inequality(
                        (dst_point.y + i) as int,
                        (dst_point.y + size.height - 1) as int,
                        stride as int,
                    );
                    vstd::arithmetic::mul::lemma_mul_nonnegative((dst_point.y + i) as int, stride as int);
                    vstd::arithmetic::mul::lemma_mul_inequality(1, stride as int, (dst_point.y + size.height - 1) as int);
                    vstd::arithmetic::mul::lemma_mul_is_commutative(stride as int, (dst_point.y + size.height - 1) as int);
                }
                let so = (src_point.y + i) * stride + src_point.x;
                let d = (dst_point.y + i) * stride + dst_point.x;
                move_row(&mut self.buf, so, d, w);
            } else {
                assert(self.buf@ =~= moved_row(self.buf@, 0, 0, 0));
            }
            i = i + 1;
        }
        self.dirty = true;
        Ok(())
    }

    /// Copies a rectangle of another layer of the same pixel format to
    /// `dst_point`, clipped to both layers; nothing is marked when nothing
    /// is left to copy.
    pub fn copy_rect_from(&mut self, src: &Layer, src_rect: Rect, dst_point: Point) -> (res: Result<(), Error>)
        requires
            canvas_ok(*old(self)),
            canvas_ok(*src),
            src_rect.origin.x + src_rect.size.width <= usize::MAX,
            src_rect.origin.y + src_rect.size.height <= usize::MAX,
        ensures
            same_layer(*old(self), *final(self)),
            ({
                let (csx, csy, cdx, cdy, cw, ch) = copy_window(*old(self), *src, src_rect, dst_point);
                if src.format != old(self).format {
                    res == Err::<(), Error>(Error::Draw(DrawError::InvalidPixelFormat { src: src.format, dst: old(self).format }))
                        && *final(self) == *old(self)
                } else if cw == 0 || ch == 0 {
                    res is Ok && *final(self) == *old(self)
                } else {
                    &&& res is Ok
                    &&& final(self).dirty
                    &&& final(self).buf@ == copied_pixels(*old(self), *src, src_rect, dst_point)
                }
            }),
    {
        if src.format != self.format {
            return Err(Error::Draw(DrawError::InvalidPixelFormat { src: src.format, dst: self.format }));
        }
        let (sx, sy) = (src_rect.origin.x, src_rect.origin.y);
        let (sw, sh) = (src_rect.size.width, src_rect.size.height);
        let src_res = src.size;
        let res = self.size;
        let csx = if sx < src_res.width { sx } else { src_res.width };
        let csy = if sy < src_res.height { sy } else { src_res.height };
        let csw = (if sx + sw < src_res.width { sx + sw } else { src_res.width }) - csx;
        let csh = (if sy + sh < src_res.height { sy + sh } else { src_res.height }) - csy;
        let cdx = if dst_point.x < res.width { dst_point.x } else { res.width };
        let cdy = if dst_point.y < res.height { dst_point.y } else { res.height };
        let cw = if csw < res.width - cdx { csw } else { res.width - cdx };
        let ch = if csh < res.height - cdy { csh } else { res.height - cdy };
        if cw == 0 || ch == 0 {
            return Ok(());
        }
        let ghost orig = self.buf@;
        let len = self.buf.len();
        let slen = src.buf.len();
        let stride = res.width;
        let sstride = src_res.width;
        let mut i: usize = 0;
        while i < ch
            invariant
                i <= ch,
                self.buf@.len() == orig.len(),
                len == orig.len(),
                slen == src.buf@.len(),
                orig.len() == stride * res.height,
                src.buf@.len() == sstride * src_res.height,
                same_layer(*old(self), *self),
                stride == res.width,
                sstride == src_res.width,
                res == old(self).size,
                src_res == src.size,
                cdx + cw <= stride,
                cdy + ch <= res.height,
                csx + cw <= sstride,
                csy + ch <= src_res.height,
                cw > 0,
                forall|p: int|
                    0 <= p < orig.len() ==> #[trigger] self.buf@[p] == if in_block(
                        p,
                        stride as int,
                        cdx as int,
                        cdy as int,
                        cw as int,
                        i as int,
                    ) {
                        src.buf@[(csy + (p / (stride as int) - cdy)) * sstride + csx + (p % (stride as int) - cdx)]
                    } else {
                        orig[p]
                    },
            decreases ch - i,
        {
            proof {
                vstd::arithmetic::mul::lemma_mul_is_commutative(stride as int, res.height as int);
                vstd::arithmetic::mul::lemma_mul_is_commutative(sstride as int, src_res.height as int);
                lemma_row_fits(stride as int, (cdy + i) as int, res.height as int, len as int);
                lemma_row_fits(sstride as int, (csy + i) as int, src_res.height as int, slen as int);
            }
            let so = (csy + i) * sstride + csx;
            let d = (cdy + i) * stride + cdx;
            let ghost row = (cdy + i) as int;
            let mut k: usize = 0;
            while k < cw
                invariant
                    k <= cw,
                    self.buf@.len() == orig.len(),
                    len == orig.len(),
                    slen == src.buf@.len(),
                    same_layer(*old(self), *self),
                    stride > 0,
                    cdx + cw <= stride,
                    row == cdy + i,
                    d == row * stride + cdx,
                    so == (csy + i) * sstride + csx,
                    so + cw <= src.buf@.len(),
                    row * stride + stride <= orig.len(),
                    forall|p: int|
                        0 <= p < orig.len() ==> #[trigger] self.buf@[p] == if in_block(
                            p,
                            stride as int,
                            cdx as int,
                            cdy as int,
                            cw as int,
                            i as int,
                        ) || (p / (stride as int) == row && cdx <= p % (stride as int) < cdx + k) {
                            src.buf@[(csy + (p / (stride as int) - cdy)) * sstride + csx + (p % (stride as int) - cdx)]
                        } else {
                            orig[p]
                        },
                decreases cw - k,
            {
                let q = d + k;
                proof {
                    lemma_cell(q as int, stride as int, row, (cdx + k) as int);
                }
                let v = src.buf[so + k];
                self.buf.set(q, v);
                proof {
                    assert forall|p: int| 0 <= p < orig.len() implies #[trigger] self.buf@[p] == if in_block(
                        p,
                        stride as int,
                        cdx as int,
                        cdy as int,
                        cw as int,
                        i as int,
                    ) || (p / (stride as int) == row && cdx <= p % (stride as int) < cdx + k + 1) {
                        src.buf@[(csy + (p / (stride as int) - cdy)) * sstride + csx + (p % (stride as int) - cdx)]
                    } else {
                        orig[p]
                    } by {
                        if p != q {
                            lemma_cell_unique(p, stride as int);
                            assert(!(p / (stride as int) == row && p % (stride as int) == cdx + k));
                        }
                    }
                }
                k = k + 1;
            }
            i = i + 1;
        }
        assert(self.buf@ =~= copied_pixels(*old(self), *src, src_rect, dst_point));
        self.dirty = true;
        Ok(())
    }

    /// Draws the glyph of `c` at `point`, fore color where the glyph's bit
    /// is set and back color elsewhere, clipped to the layer; a point past
    /// the edges draws nothing. A character without a glyph is refused.
    pub fn draw_char(&mut self, point: Point, c: char, font: &PsfFont, fore_color: ColorCode, back_color: ColorCode) -> (res: Result<(), Error>)
        requires
            canvas_ok(*old(self)),
            font_wf(*font),
            font.glyph_size >= font.wh.1,
            glyph_index(*font, c) == font.glyphs_len ==> font.unicode_table_offset + font.glyph_size
                <= font.binary@.len(),
            font.unicode_table_offset <= font.binary@.len(),
        ensures
            same_layer(*old(self), *final(self)),
            ({
                let (rw, rh) = (old(self).size.width as int, old(self).size.height as int);
                let (x, y) = (point.x as int, point.y as int);
                let dw = if font.wh.0 < rw - x { font.wh.0 as int } else { rw - x };
                let dh = if font.wh.1 < rh - y { font.wh.1 as int } else { rh - y };
                if glyph_index(*font, c) > font.glyphs_len {
                    res == Err::<(), Error>(Error::IndexOutOfBounds {
                        index: glyph_index(*font, c) as usize,
                        len: Some(font.glyphs_len),
                    }) && *final(self) == *old(self)
                } else if x >= rw || y >= rh || dw == 0 || dh == 0 {
                    res is Ok && *final(self) == *old(self)
                } else {
                    &&& res is Ok
                    &&& final(self).dirty
                    &&& forall|p: int|
                        0 <= p < old(self).buf@.len() ==> #[trigger] final(self).buf@[p] == if in_block(p, rw, x, y, dw, dh) {
                            if glyph_pixel_on(glyph_row(*font, c, p / rw - y), p % rw - x) {
                                pixel_value(fore_color, old(self).format)
                            } else {
                                pixel_value(back_color, old(self).format)
                            }
                        } else {
                            old(self).buf@[p]
                        }
                }
            }),
    {
        let res = self.size;
        let (f_w, f_h) = font.wh();
        let glyph = match font.glyph(c) {
            Ok(g) => g,
            Err(e) => return Err(e),
        };
        let (x, y) = (point.x, point.y);
        if x >= res.width || y >= res.height {
            return Ok(());
        }
        let format = self.format;
        let fore = pixel_code(fore_color, format);
        let back = pixel_code(back_color, format);
        let draw_w = if f_w < res.width - x { f_w } else { res.width - x };
        let draw_h = if f_h < res.height - y { f_h } else { res.height - y };
        if draw_w == 0 || draw_h == 0 {
            return Ok(());
        }
        let ghost orig = self.buf@;
        let ghost base = font.header_size + font.glyph_size * glyph_index(*font, c);
        proof {
            let gi = glyph_index(*font, c);
            if gi < font.glyphs_len {
                assert(font.glyph_size * gi + font.glyph_size <= font.glyph_size * font.glyphs_len) by (nonlinear_arith)
                    requires
                        gi < font.glyphs_len,
                ;
            }
            assert(base + font.glyph_size <= font.binary@.len());
            assert(glyph@.len() == font.glyph_size);
        }
        let len = self.buf.len();
        let stride = res.width;
        let mut h: usize = 0;
        while h < draw_h
            invariant
                h <= draw_h,
                draw_h <= f_h,
                f_h == font.wh.1,
                font.glyph_size >= f_h,
                glyph@.len() == font.glyph_size,
                forall|j: int| 0 <= j < glyph@.len() ==> #[trigger] glyph@[j] == font.binary@[base + j],
                self.buf@.len() == orig.len(),
                len == orig.len(),
                orig.len() == stride * res.height,
                same_layer(*old(self), *self),
                stride == res.width,
                res == old(self).size,
                format == old(self).format,
                x + draw_w <= stride,
                y + draw_h <= res.height,
                draw_w <= 8,
                draw_w > 0,
                fore == pixel_value(fore_color, format),
                back == pixel_value(back_color, format),
                forall|p: int|
                    0 <= p < orig.len() ==> #[trigger] self.buf@[p] == if in_block(
                        p,
                        stride as int,
                        x as int,
                        y as int,
                        draw_w as int,
                        h as int,
                    ) {
                        if glyph_pixel_on(glyph@[p / (stride as int) - y], p % (stride as int) - x) {
                            fore
                        } else {
                            back
                        }
                    } else {
                        orig[p]
                    },
            decreases draw_h - h,
        {
            proof {
                vstd::arithmetic::mul::lemma_mul_is_commutative(stride as int, res.height as int);
                lemma_row_fits(stride as int, (y + h) as int, res.height as int, len as int);
            }
            let line = glyph[h];
            let d = (y + h) * stride + x;
            let ghost row = (y + h) as int;
            let mut k: usize = 0;
            while k < draw_w
                invariant
                    k <= draw_w,
                    draw_w <= 8,
                    h < draw_h,
                    draw_h <= glyph@.len(),
                    line == glyph@[h as int],
                    self.buf@.len() == orig.len(),
                    len == orig.len(),
                    same_layer(*old(self), *self),
                    stride > 0,
                    x + draw_w <= stride,
                    row == y + h,
                    d == row * stride + x,
                    row * stride + stride <= orig.len(),
                    forall|p: int|
                        0 <= p < orig.len() ==> #[trigger] self.buf@[p] == if in_block(
                            p,
                            stride as int,
                            x as int,
                            y as int,
                            draw_w as int,
                            h as int,
                        ) || (p / (stride as int) == row && x <= p % (stride as int) < x + k) {
                            if glyph_pixel_on(glyph@[p / (stride as int) - y], p % (stride as int) - x) {
                                fore
                            } else {
                                back
                            }
                        } else {
                            orig[p]
                        },
                decreases draw_w - k,
            {
                let q = d + k;
                proof {
                    lemma_cell(q as int, stride as int, row, (x + k) as int);
                }
                let kk = k as u8;
                let on = (line >> (7 - kk)) & 1u8 == 1u8;
                let v = if on {
                    fore
                } else {
                    back
                };
                self.buf.set(q, v);
                proof {
                    assert(on == glyph_pixel_on(line, k as int));
                    assert forall|p: int| 0 <= p < orig.len() implies #[trigger] self.buf@[p] == if in_block(
                        p,
                        stride as int,
                        x as int,
                        y as int,
                        draw_w as int,
                        h as int,
                    ) || (p / (stride as int) == row && x <= p % (stride as int) < x + k + 1) {
                        if glyph_pixel_on(glyph@[p / (stride as int) - y], p % (stride as int) - x) {
                            fore
                        } else {
                            back
                        }
                    } else {
                        orig[p]
                    } by {
                        if p != q {
                            lemma_cell_unique(p, stride as int);
                            assert(!(p / (stride as int) == row && p % (stride as int) == x + k));
                        }
                    }
                }
                k = k + 1;
            }
            h = h + 1;
        }
        proof {
            assert forall|p: int| 0 <= p < orig.len() && in_block(p, stride as int, x as int, y as int, draw_w as int, draw_h as int) implies
                glyph@[p / (stride as int) - y] == glyph_row(*font, c, p / (stride as int) - y) by {}
        }
        self.dirty = true;
        Ok(())
    }

    /// Draws the line from `start` to `end` clipped to the layer, pixel by
    /// pixel along Bresenham's walk; nothing is drawn when the line misses
    /// the layer.
    pub fn draw_line(&mut self, start: Point, end: Point, color: ColorCode) -> (res: Result<(), Error>)
        requires
            canvas_ok(*old(self)),
            start.x <= COORD_LIMIT && start.y <= COORD_LIMIT,
            end.x <= COORD_LIMIT && end.y <= COORD_LIMIT,
            old(self).size.width <= COORD_LIMIT + 1,
            old(self).size.height <= COORD_LIMIT + 1,
        ensures
            same_layer(*old(self), *final(self)),
            res is Ok,
            ({
                let (w, h) = (old(self).size.width as int, old(self).size.height as int);
                let (x0, y0, x1, y1) = (start.x as int, start.y as int, end.x as int, end.y as int);
                &&& (w == 0 || h == 0 || share_side(x0, y0, x1, y1, w - 1, h - 1)) ==> *final(self) == *old(self)
                &&& (w > 0 && h > 0 && inside(x0, y0, w - 1, h - 1) && inside(x1, y1, w - 1, h - 1)) ==> final(self).dirty
                    && final(self).buf@ == painted(old(self).buf@, line_pixels(x0, y0, x1, y1), w, pixel_value(color, old(self).format))
                &&& (w > 0 && h > 0) ==> match clip_spec(x0, y0, x1, y1, w - 1, h - 1, 9) {
                    None => *final(self) == *old(self),
                    Some(c) => final(self).dirty && final(self).buf@ == painted(
                        old(self).buf@,
                        line_pixels(c.0, c.1, c.2, c.3),
                        w,
                        pixel_value(color, old(self).format),
                    ),
                }
            }),
    {
        let res = self.size;
        if res.width == 0 || res.height == 0 {
            return Ok(());
        }
        let code = pixel_code(color, self.format);
        let clipped = clip_line(
            start.x as i64,
            start.y as i64,
            end.x as i64,
            end.y as i64,
            res.width as i64 - 1,
            res.height as i64 - 1,
        );
        let (cx0, cy0, cx1, cy1) = match clipped {
            Some(c) => c,
            None => return Ok(()),
        };
        let ghost r = (cx0, cy0, cx1, cy1);
        assert(inside(cx0 as int, cy0 as int, res.width - 1, res.height - 1) && inside(cx1 as int, cy1 as int, res.width - 1, res.height - 1));
        let dx: usize = if cx0 < cx1 { cx1 - cx0 } else { cx0 - cx1 };
        let dd: usize = if cy0 < cy1 { cy1 - cy0 } else { cy0 - cy1 };
        let ghost orig = self.buf@;
        let ghost all = walk(0, 0, dx as int, dd as int, (dx + dd + 1) as nat);
        let ghost (gx0, gy0, gx1, gy1) = (cx0 as int, cy0 as int, cx1 as int, cy1 as int);
        let len = self.buf.len();
        let mut x = cx0;
        let mut y = cy0;
        let mut ex: usize = 0;
        let mut ey: usize = 0;
        let ghost mut done: Seq<(int, int)> = Seq::empty();
        proof {
            lemma_walk_fuel(0, 0, dx as int, dd as int, (dx + dd + 1) as nat);
            assert(done + all =~= all);
            assert(painted(orig, walk_points(done, gx0, gy0, gx1, gy1), res.width as int, code) == orig) by {
                assert(walk_points(done, gx0, gy0, gx1, gy1).len() == 0);
            }
        }
        loop
            invariant_except_break
                all == done + walk(ex as int, ey as int, dx as int, dd as int, ((dx - ex) + (dd - ey) + 1) as nat),
            invariant
                walk_ok(ex as int, ey as int, dx as int, dd as int),
                x as int == toward(gx0, gx1, ex as int),
                y as int == toward(gy0, gy1, ey as int),
                gx0 == cx0 && gy0 == cy0 && gx1 == cx1 && gy1 == cy1,
                cx0 < res.width && cx1 < res.width && cy0 < res.height && cy1 < res.height,
                res.width <= COORD_LIMIT + 1 && res.height <= COORD_LIMIT + 1,
                dx as int == abs(cx1 - cx0),
                dd as int == abs(cy1 - cy0),
                len == orig.len(),
                orig.len() == res.width * res.height,
                res == old(self).size,
                self.buf@.len() == orig.len(),
                same_layer(*old(self), *self),
                code == pixel_value(color, old(self).format),
                self.buf@ == painted(orig, walk_points(done, gx0, gy0, gx1, gy1), res.width as int, code),
            ensures
                done == all,
                self.buf@ == painted(orig, walk_points(done, gx0, gy0, gx1, gy1), res.width as int, code),
                self.buf@.len() == orig.len(),
                same_layer(*old(self), *self),
            decreases (dx - ex) + (dd - ey),
        {
            proof {
                assert(x < res.width && y < res.height);
                vstd::arithmetic::mul::lemma_mul_is_commutative(res.width as int, res.height as int);
                lemma_row_within(res.width as int, y as int, res.height as int, len as int);
            }
            let idx = y * res.width + x;
            let ghost before = done;
            self.buf.set(idx, code);
            proof {
                done = done.push((ex as int, ey as int));
                let pts = walk_points(done, gx0, gy0, gx1, gy1);
                assert(pts.drop_last() =~= walk_points(before, gx0, gy0, gx1, gy1));
                assert(pts.last() == (x as int, y as int));
            }
            if ex == dx && ey == dd {
                proof {
                    assert(walk(ex as int, ey as int, dx as int, dd as int, 1) =~= seq![(ex as int, ey as int)]);
                    assert(all =~= done);
                }
                break;
            }
            proof {
                lemma_walk_step(ex as int, ey as int, dx as int, dd as int);
                assert(0 <= (dx as int) * (ey as int + 1) <= 0x4000_0001 * 0x4000_0001) by (nonlinear_arith)
                    requires
                        dx <= 0x4000_0001,
                        ey + 1 <= 0x4000_0001,
                ;
                assert(0 <= (dd as int) * (ex as int + 1) <= 0x4000_0001 * 0x4000_0001) by (nonlinear_arith)
                    requires
                        dd <= 0x4000_0001,
                        ex + 1 <= 0x4000_0001,
                ;
            }
            let err: i128 = (dx as i128) * (ey as i128 + 1) - (dd as i128) * (ex as i128 + 1);
            let e2: i128 = 2 * err;
            let step_x = e2 >= -(dd as i128);
            let step_y = e2 <= dx as i128;
            proof {
                let f = ((dx - ex) + (dd - ey) + 1) as nat;
                let nex = if step_x { ex + 1 } else { ex as int };
                let ney = if step_y { ey + 1 } else { ey as int };
                assert(walk(ex as int, ey as int, dx as int, dd as int, f) == seq![(ex as int, ey as int)].add(
                    walk(nex, ney, dx as int, dd as int, (f - 1) as nat)));
                lemma_walk_fuel(nex, ney, dx as int, dd as int, (f - 1) as nat);
                assert(all =~= done + walk(nex, ney, dx as int, dd as int, ((dx - nex) + (dd - ney) + 1) as nat));
            }
            if step_x {
                ex = ex + 1;
                x = if cx0 < cx1 { x + 1 } else { x - 1 };
            }
            if step_y {
                ey = ey + 1;
                y = if cy0 < cy1 { y + 1 } else { y - 1 };
            }
        }
        self.dirty = true;
        proof {
            let (w, h) = (old(self).size.width as int, old(self).size.height as int);
            let (x0, y0, x1, y1) = (start.x as int, start.y as int, end.x as int, end.y as int);
            assert(clip_spec(x0, y0, x1, y1, w - 1, h - 1, 9) == Some((r.0 as int, r.1 as int, r.2 as int, r.3 as int)));
            assert(self.buf@ == painted(old(self).buf@, line_pixels(r.0 as int, r.1 as int, r.2 as int, r.3 as int), w, pixel_value(color, old(self).format)));
        }
        Ok(())
    }
}

/// The steps of a walk from a state inside the line: it starts there, ends
/// at the far corner, stays inside, and each step goes one across, one down
/// or both.
proof fn lemma_walk_shape(ex: int, ey: int, dx: int, dd: int, fuel: nat)
    requires
        walk_ok(ex, ey, dx, dd),
        fuel >= (dx - ex) + (dd - ey) + 1,
    ensures
        ({
            let w = walk(ex, ey, dx, dd, fuel);
            &&& w.len() >= 1
            &&& w[0] == (ex, ey)
            &&& w.last() == (dx, dd)
            &&& forall|i: int| 0 <= i < w.len() ==> walk_ok(#[trigger] w[i].0, w[i].1, dx, dd)
            &&& forall|i: int|
                0 <= i < w.len() - 1 ==> {
                    let d0 = w[i + 1].0 - (#[trigger] w[i]).0;
                    let d1 = w[i + 1].1 - w[i].1;
                    (d0 == 0 || d0 == 1) && (d1 == 0 || d1 == 1) && (d0 == 1 || d1 == 1)
                }
        }),
    decreases fuel,
{
    let w = walk(ex, ey, dx, dd, fuel);
    if !(ex == dx && ey == dd) {
        lemma_walk_step(ex, ey, dx, dd);
        let e2 = 2 * (dx * (ey + 1) - dd * (ex + 1));
        let nex = if e2 >= -dd { ex + 1 } else { ex };
        let ney = if e2 <= dx { ey + 1 } else { ey };
        let rest = walk(nex, ney, dx, dd, (fuel - 1) as nat);
        lemma_walk_shape(nex, ney, dx, dd, (fuel - 1) as nat);
        assert(w == seq![(ex, ey)].add(rest));
        assert forall|i: int| 0 <= i < w.len() implies walk_ok(#[trigger] w[i].0, w[i].1, dx, dd) by {
            if i > 0 {
                assert(w[i] == rest[i - 1]);
            }
        }
        assert forall|i: int| 0 <= i < w.len() - 1 implies {
            let d0 = w[i + 1].0 - (#[trigger] w[i]).0;
            let d1 = w[i + 1].1 - w[i].1;
            (d0 == 0 || d0 == 1) && (d1 == 0 || d1 == 1) && (d0 == 1 || d1 == 1)
        } by {
            assert(w[i + 1] == rest[i]);
            if i > 0 {
                assert(w[i] == rest[i - 1]);
            }
        }
        assert(w.last() == rest.last());
    }
}

/// A drawn line runs from its start to its end, pixel by neighbouring
/// pixel: each pixel is next to the one before it (one step across, down
/// or diagonally, never staying put), and every pixel lies in the box the
/// two ends span.
pub proof fn lemma_line_pixels(x0: int, y0: int, x1: int, y1: int)
    ensures
        ({
            let p = line_pixels(x0, y0, x1, y1);
            &&& p.len() >= 1
            &&& p[0] == (x0, y0)
            &&& p.last() == (x1, y1)
            &&& forall|i: int|
                0 <= i < p.len() - 1 ==> {
                    let d0 = p[i + 1].0 - (#[trigger] p[i]).0;
                    let d1 = p[i + 1].1 - p[i].1;
                    -1 <= d0 <= 1 && -1 <= d1 <= 1 && (d0 != 0 || d1 != 0)
                }
            &&& forall|i: int|
                0 <= i < p.len() ==> (x0 <= (#[trigger] p[i]).0 <= x1 || x1 <= p[i].0 <= x0) && (y0 <= p[i].1
                    <= y1 || y1 <= p[i].1 <= y0)
        }),
{
    let dx = abs(x1 - x0);
    let dd = abs(y1 - y0);
    let w = walk(0, 0, dx, dd, (dx + dd + 1) as nat);
    lemma_walk_shape(0, 0, dx, dd, (dx + dd + 1) as nat);
    let p = line_pixels(x0, y0, x1, y1);
    assert(p.len() == w.len());
    assert(p[0] == (toward(x0, x1, 0), toward(y0, y1, 0)));
    assert(p.last() == p[w.len() - 1]);
    assert(w[w.len() - 1] == (dx, dd));
    assert forall|i: int| 0 <= i < p.len() - 1 implies {
        let d0 = p[i + 1].0 - (#[trigger] p[i]).0;
        let d1 = p[i + 1].1 - p[i].1;
        -1 <= d0 <= 1 && -1 <= d1 <= 1 && (d0 != 0 || d1 != 0)
    } by {
        assert(walk_ok(w[i].0, w[i].1, dx, dd));
        assert(walk_ok(w[i + 1].0, w[i + 1].1, dx, dd));
    }
    assert forall|i: int| 0 <= i < p.len() implies (x0 <= (#[trigger] p[i]).0 <= x1 || x1 <= p[i].0 <= x0) && (y0
        <= p[i].1 <= y1 || y1 <= p[i].1 <= y0) by {
        assert(walk_ok(w[i].0, w[i].1, dx, dd));
    }
}

} // verus!
