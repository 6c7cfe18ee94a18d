use vstd::prelude::*;
use crate::grid::{lemma_cell_of_index, lemma_index_of_cell};
use vstd::arithmetic::div_mod::lemma_fundamental_div_mod_converse;
use crate::types::{Rect, Vec2i};

verus! {

/// An RGBA8 color whose red, green and blue channels are premultiplied by alpha.
pub type Color = (u8, u8, u8, u8);

/// `round(d * k / 255)` for `0 <= d, k <= 255`; exact halves cannot occur.
pub open spec fn scale_channel(d: int, k: int) -> int {
    (2 * d * k + 255) / 510
}

/// One channel of premultiplied source-over: `s + round(d * (1 - sa / 255))`,
/// saturating at 255.
pub open spec fn over_channel(s: u8, d: u8, sa: u8) -> u8 {
    let t = s + scale_channel(d as int, 255 - sa);
    if t > 255 {
        255
    } else {
        t as u8
    }
}

/// Premultiplied source-over of `s` on top of `d`.
pub open spec fn composite(s: Color, d: Color) -> Color {
    (over_channel(s.0, d.0, s.3), over_channel(s.1, d.1, s.3), over_channel(s.2, d.2, s.3),
        over_channel(s.3, d.3, s.3))
}

/// The color holds the premultiplied invariant: no color channel exceeds alpha.
pub open spec fn is_premultiplied(c: Color) -> bool {
    c.0 <= c.3 && c.1 <= c.3 && c.2 <= c.3
}

fn blend_channel(s: u8, d: u8, sa: u8) -> (r: u8)
    ensures
        r == over_channel(s, d, sa),
{
    let k: u32 = 255 - sa as u32;
    let dd: u32 = d as u32;
    assert(2 * dd * k + 255 <= 130305) by (nonlinear_arith)
        requires
            dd <= 255,
            k <= 255,
    ;
    let t: u32 = (2 * dd * k + 255) / 510;
    s.saturating_add(t as u8)
}

/// Composites the premultiplied color `s` over `d`.
pub fn blend(s: Color, d: Color) -> (r: Color)
    ensures
        r == composite(s, d),
{
    (blend_channel(s.0, d.0, s.3), blend_channel(s.1, d.1, s.3), blend_channel(s.2, d.2, s.3),
        blend_channel(s.3, d.3, s.3))
}

/// The point `(x, y)` of the destination is covered when `from` is placed at `to`.
pub open spec fn covers(from: Rect, to: Vec2i, x: int, y: int) -> bool {
    to.x <= x < to.x + from.sz.x && to.y <= y < to.y + from.sz.y
}

/// A pixel buffer in row-major order: the pixel `(x, y)` is `buffer[y * sz.x + x]`.
#[derive(PartialEq, Eq, Clone, Hash, Debug)]
pub struct Image {
    pub buffer: Vec<Color>,
    pub sz: Vec2i,
}

impl Image {
    /// Non-negative size, and one pixel per cell.
    pub open spec fn wf(&self) -> bool {
        &&& self.sz.x >= 0
        &&& self.sz.y >= 0
        &&& self.buffer@.len() == self.sz.x * self.sz.y
    }

    /// The rectangle `(0, 0)`-`sz` that the image covers.
    pub open spec fn bounds(&self) -> Rect {
        Rect { pos: Vec2i { x: 0, y: 0 }, sz: self.sz }
    }

    /// The pixel `(x, y)`.
    pub open spec fn pixel(&self, x: int, y: int) -> Color {
        self.buffer@[y * self.sz.x + x]
    }

    /// The source pixel that lands on destination point `(x, y)` when `from` is placed at `to`.
    pub open spec fn source_for(&self, from: Rect, to: Vec2i, x: int, y: int) -> Color {
        self.pixel(from.pos.x + (x - to.x), from.pos.y + (y - to.y))
    }

    /// The destination pixel at flat index `k` once the covered points up to row
    /// `row` (exclusive), and on row `row` up to column `col` (exclusive), are blitted.
    pub open spec fn blit_partial(
        &self,
        src: &Image,
        from: Rect,
        to: Vec2i,
        row: int,
        col: int,
        k: int,
    ) -> Color {
        let x = k % (self.sz.x as int);
        let y = k / (self.sz.x as int);
        if covers(from, to, x, y) && (y < row || (y == row && x < col)) {
            composite(src.source_for(from, to, x, y), self.buffer@[k])
        } else {
            self.buffer@[k]
        }
    }

    /// The buffer after `from` of `src` is composited onto `self` at `to`,
    /// clipped to the destination.
    pub open spec fn blit_spec(&self, src: &Image, from: Rect, to: Vec2i) -> Seq<Color> {
        Seq::new(
            self.buffer@.len(),
            |k: int|
                {
                    let x = k % (self.sz.x as int);
                    let y = k / (self.sz.x as int);
                    if covers(from, to, x, y) {
                        composite(src.source_for(from, to, x, y), self.buffer@[k])
                    } else {
                        self.buffer@[k]
                    }
                },
        )
    }

    /// Composites the `from` rectangle of `src` onto `self` with its top-left
    /// corner at `to`, using premultiplied source-over, clipped to `self`.
    pub fn bitblt(&mut self, src: &Image, from: Rect, to: Vec2i)
        requires
            old(self).wf(),
            src.wf(),
            from.wf(),
            src.bounds().contains_spec(from),
        ensures
            final(self).sz == old(self).sz,
            final(self).buffer@ == old(self).blit_spec(src, from, to),
    {
        let ghost orig = *self;
        let w = self.sz.x as i64;
        let h = self.sz.y as i64;
        let tx = to.x as i64;
        let ty = to.y as i64;
        let fw = from.sz.x as i64;
        let fh = from.sz.y as i64;
        let fx = from.pos.x as i64;
        let fy = from.pos.y as i64;
        if tx + fw < 0 || w <= tx || ty + fh < 0 || h <= ty {
            proof {
                assert forall|k: int| 0 <= k < orig.buffer@.len() implies #[trigger] orig.blit_spec(
                    src,
                    from,
                    to,
                )[k] == orig.buffer@[k] by {
                    lemma_cell_of_index(k, w as int, h as int);
                }
                assert(self.buffer@ =~= orig.blit_spec(src, from, to));
            }
            return;
        }
        let x_skip: i64 = if tx < 0 {
            -tx
        } else {
            0
        };
        let y_skip: i64 = if ty < 0 {
            -ty
        } else {
            0
        };
        let x_count: i64 = (if tx + fw < w {
            tx + fw
        } else {
            w
        }) - tx;
        let y_count: i64 = (if ty + fh < h {
            ty + fh
        } else {
            h
        }) - ty;
        let dst_pitch = self.sz.x as usize;
        let src_pitch = src.sz.x as usize;
        let mut r: i64 = y_skip;
        let len = self.buffer.len();
        let slen = src.buffer.len();
        while r < y_count
            invariant
                len == orig.buffer@.len(),
                slen == src.buffer@.len(),
                orig.wf(),
                src.wf(),
                from.wf(),
                src.bounds().contains_spec(from),
                w == orig.sz.x,
                h == orig.sz.y,
                tx + x_skip >= 0,
                x_count <= fw,
                tx + x_count <= w,
                ty + y_count <= h,
                ty + y_skip >= 0,
                x_skip >= 0,
                y_skip >= 0,
                y_skip <= r,
                r <= y_count || y_count < y_skip,
                y_count <= fh,
                w as usize == dst_pitch,
                src.sz.x as usize == src_pitch,
                tx == to.x,
                ty == to.y,
                fw == from.sz.x,
                fh == from.sz.y,
                fx == from.pos.x,
                fy == from.pos.y,
                x_count == (if tx + fw < w { tx + fw } else { w as int }) - tx,
                y_count == (if ty + fh < h { ty + fh } else { h as int }) - ty,
                x_skip == (if tx < 0 { -tx } else { 0int }),
                self.sz == orig.sz,
                self.buffer@.len() == orig.buffer@.len(),
                forall|k: int|
                    0 <= k < self.buffer@.len() ==> #[trigger] self.buffer@[k] == orig.blit_partial(
                        src,
                        from,
                        to,
                        ty + r,
                        tx + x_skip,
                        k,
                    ),
            decreases y_count - r,
        {
            let drow = (ty + r) as usize;
            let srow = (fy + r) as usize;
            let mut c: i64 = x_skip;
            while c < x_count
                invariant
                    orig.wf(),
                    src.wf(),
                    from.wf(),
                    src.bounds().contains_spec(from),
                    w == orig.sz.x,
                    h == orig.sz.y,
                    tx + x_skip >= 0,
                    x_skip >= 0,
                    x_count <= fw,
                    tx + x_count <= w,
                    0 <= ty + r < h,
                    0 <= r < fh,
                    drow == ty + r,
                    srow == fy + r,
                    x_skip <= c,
                    c <= x_count || x_count < x_skip,
                    w as usize == dst_pitch,
                    src.sz.x as usize == src_pitch,
                    tx == to.x,
                    ty == to.y,
                    fx == from.pos.x,
                    fy == from.pos.y,
                    fw == from.sz.x,
                    fh == from.sz.y,
                    self.sz == orig.sz,
                    self.buffer@.len() == orig.buffer@.len(),
                    len == orig.buffer@.len(),
                    slen == src.buffer@.len(),
                    forall|k: int|
                        0 <= k < self.buffer@.len() ==> #[trigger] self.buffer@[k]
                            == orig.blit_partial(src, from, to, ty + r, tx + c, k),
                decreases x_count - c,
            {
                let dcol = (tx + c) as usize;
                let scol = (fx + c) as usize;
                proof {
                    lemma_index_of_cell(dcol as int, drow as int, w as int, h as int);
                    lemma_index_of_cell(scol as int, srow as int, src.sz.x as int, src.sz.y as int);
                }
                let di = drow * dst_pitch + dcol;
                let si = srow * src_pitch + scol;
                let v = blend(src.buffer[si], self.buffer[di]);
                let ghost before = self.buffer@;
                self.buffer.set(di, v);
                proof {
                    assert forall|k: int| 0 <= k < self.buffer@.len() implies #[trigger] self.buffer@[k]
                        == orig.blit_partial(src, from, to, ty + r, tx + c + 1, k) by {
                        lemma_cell_of_index(k, w as int, h as int);
                        if k != di {
                            assert(before[k] == self.buffer@[k]);
                        }
                    }
                }
                c = c + 1;
            }
            proof {
                assert forall|k: int| 0 <= k < self.buffer@.len() implies #[trigger] self.buffer@[k]
                    == orig.blit_partial(src, from, to, ty + r + 1, tx + x_skip, k) by {
                    lemma_cell_of_index(k, w as int, h as int);
                    assert(self.buffer@[k] == orig.blit_partial(src, from, to, ty + r, tx + c, k));
                }
            }
            r = r + 1;
        }
        proof {
            assert forall|k: int| 0 <= k < self.buffer@.len() implies #[trigger] self.buffer@[k]
                == orig.blit_spec(src, from, to)[k] by {
                lemma_cell_of_index(k, w as int, h as int);
                assert(self.buffer@[k] == orig.blit_partial(src, from, to, ty + r, tx + x_skip, k));
            }
            assert(self.buffer@ =~= orig.blit_spec(src, from, to));
        }
    }

    /// The buffer with every pixel whose column lies in `[x0, x1)` and whose
    /// row lies in `[y0, y1)` set to `c`.
    pub open spec fn fill_spec(&self, x0: int, x1: int, y0: int, y1: int, c: Color) -> Seq<Color> {
        Seq::new(
            self.buffer@.len(),
            |k: int|
                {
                    let x = k % (self.sz.x as int);
                    let y = k / (self.sz.x as int);
                    if x0 <= x < x1 && y0 <= y < y1 {
                        c
                    } else {
                        self.buffer@[k]
                    }
                },
        )
    }

    /// An image of size `sz` filled with opaque black.
    pub fn new(sz: Vec2i) -> (r: Self)
        requires
            sz.x >= 0,
            sz.y >= 0,
            sz.x * sz.y <= usize::MAX,
        ensures
            r.wf(),
            r.sz == sz,
            r.buffer@ == Seq::new((sz.x * sz.y) as nat, |k: int| (0u8, 0u8, 0u8, 255u8)),
    {
        let n = sz.x as usize * sz.y as usize;
        let mut buffer: Vec<Color> = Vec::with_capacity(n);
        let mut i: usize = 0;
        while i < n
            invariant
                i <= n,
                n == sz.x * sz.y,
                buffer@ == Seq::new(i as nat, |k: int| (0u8, 0u8, 0u8, 255u8)),
            decreases n - i,
        {
            buffer.push((0, 0, 0, 255));
            i = i + 1;
            assert(buffer@ =~= Seq::new(i as nat, |k: int| (0u8, 0u8, 0u8, 255u8)));
        }
        Image { buffer, sz }
    }

    /// The pixels in row-major order.
    pub fn as_slice(&self) -> (r: &[Color])
        ensures
            r@ == self.buffer@,
    {
        self.buffer.as_slice()
    }

    /// Width and height.
    pub fn size(&self) -> (r: (i32, i32))
        ensures
            r == (self.sz.x, self.sz.y),
    {
        (self.sz.x, self.sz.y)
    }

    /// Sets every pixel to `c`.
    pub fn clear(&mut self, c: Color)
        ensures
            final(self).sz == old(self).sz,
            final(self).buffer@ == Seq::new(old(self).buffer@.len(), |k: int| c),
    {
        let n = self.buffer.len();
        let mut i: usize = 0;
        while i < n
            invariant
                i <= n,
                n == self.buffer@.len(),
                self.sz == old(self).sz,
                forall|k: int| 0 <= k < i ==> #[trigger] self.buffer@[k] == c,
            decreases n - i,
        {
            self.buffer.set(i, c);
            i = i + 1;
        }
        assert(self.buffer@ =~= Seq::new(old(self).buffer@.len(), |k: int| c));
    }

    /// Sets the flat range `[start, end)` of the buffer to `c`.
    fn fill_span(&mut self, start: usize, end: usize, c: Color)
        requires
            start <= end <= old(self).buffer@.len(),
        ensures
            final(self).sz == old(self).sz,
            final(self).buffer@ == Seq::new(
                old(self).buffer@.len(),
                |k: int|
                    if start <= k < end {
                        c
                    } else {
                        old(self).buffer@[k]
                    },
            ),
    {
        let mut i: usize = start;
        while i < end
            invariant
                start <= i <= end,
                end <= self.buffer@.len(),
                self.buffer@.len() == old(self).buffer@.len(),
                self.sz == old(self).sz,
                forall|k: int|
                    0 <= k < self.buffer@.len() ==> #[trigger] self.buffer@[k] == if start <= k < i {
                        c
                    } else {
                        old(self).buffer@[k]
                    },
            decreases end - i,
        {
            self.buffer.set(i, c);
            i = i + 1;
        }
        assert(self.buffer@ =~= Seq::new(
            old(self).buffer@.len(),
            |k: int|
                if start <= k < end {
                    c
                } else {
                    old(self).buffer@[k]
                },
        ));
    }

    /// Sets columns `[x0, x1)` of row `y` to `c`.
    pub fn hline(&mut self, x0: usize, x1: usize, y: usize, c: Color)
        requires
            old(self).wf(),
            x0 <= x1 <= old(self).sz.x,
            y < old(self).sz.y,
        ensures
            final(self).sz == old(self).sz,
            final(self).buffer@ == old(self).fill_spec(x0 as int, x1 as int, y as int, y + 1, c),
    {
        let ghost orig = *self;
        let ghost w = self.sz.x as int;
        let ghost h = self.sz.y as int;
        let pitch = self.sz.x as usize;
        let n = self.buffer.len();
        proof {
            assert(y * w + w <= w * h) by (nonlinear_arith)
                requires
                    y + 1 <= h,
                    w >= 0,
            ;
            assert(0 <= y * w) by (nonlinear_arith)
                requires
                    y >= 0,
                    w >= 0,
            ;
        }
        let start = y * pitch + x0;
        let end = y * pitch + x1;
        self.fill_span(start, end, c);
        proof {
            assert forall|k: int| 0 <= k < self.buffer@.len() implies #[trigger] self.buffer@[k]
                == orig.fill_spec(x0 as int, x1 as int, y as int, y + 1, c)[k] by {
                lemma_cell_of_index(k, w, h);
                if start <= k < end {
                    lemma_index_of_cell(k - y * w, y as int, w, h);
                }
            }
            assert(self.buffer@ =~= orig.fill_spec(x0 as int, x1 as int, y as int, y + 1, c));
        }
    }

    /// Sets every pixel of `rect` to `c`; `rect` lies within the image.
    pub fn draw_rect(&mut self, rect: &Rect, color: Color)
        requires
            old(self).wf(),
            rect.wf(),
            old(self).bounds().contains_spec(*rect),
        ensures
            final(self).sz == old(self).sz,
            final(self).buffer@ == old(self).fill_spec(
                rect.pos.x as int,
                rect.pos.x + rect.sz.x,
                rect.pos.y as int,
                rect.pos.y + rect.sz.y,
                color,
            ),
    {
        let ghost orig = *self;
        let x0 = rect.pos.x as usize;
        let x1 = (rect.pos.x + rect.sz.x) as usize;
        let y_end = (rect.pos.y + rect.sz.y) as usize;
        let mut y = rect.pos.y as usize;
        while y < y_end
            invariant
                orig.wf(),
                rect.pos.y <= y <= y_end,
                x0 == rect.pos.x,
                x1 == rect.pos.x + rect.sz.x,
                y_end == rect.pos.y + rect.sz.y,
                x0 <= x1 <= orig.sz.x,
                y_end <= orig.sz.y,
                self.sz == orig.sz,
                self.buffer@ == orig.fill_spec(x0 as int, x1 as int, rect.pos.y as int, y as int, color),
            decreases y_end - y,
        {
            self.hline(x0, x1, y, color);
            assert(self.buffer@ =~= orig.fill_spec(
                x0 as int,
                x1 as int,
                rect.pos.y as int,
                y + 1,
                color,
            ));
            y = y + 1;
        }
    }
}


/// An opaque source color replaces whatever it is composited over.
pub proof fn lemma_composite_opaque(s: Color, d: Color)
    requires
        s.3 == 255,
    ensures
        composite(s, d) == s,
{
}

/// The fully transparent color leaves whatever it is composited over unchanged.
pub proof fn lemma_composite_transparent(d: Color)
    ensures
        composite((0u8, 0u8, 0u8, 0u8), d) == d,
{
    lemma_fundamental_div_mod_converse(2 * d.0 * 255 + 255, 510, d.0 as int, 255);
    lemma_fundamental_div_mod_converse(2 * d.1 * 255 + 255, 510, d.1 as int, 255);
    lemma_fundamental_div_mod_converse(2 * d.2 * 255 + 255, 510, d.2 as int, 255);
    lemma_fundamental_div_mod_converse(2 * d.3 * 255 + 255, 510, d.3 as int, 255);
}

/// A blit whose placed rectangle lies entirely left of, right of, above or
/// below the destination leaves the destination unchanged.
pub proof fn lemma_blit_outside_is_noop(dst: &Image, src: &Image, from: Rect, to: Vec2i)
    requires
        dst.wf(),
        src.wf(),
        from.wf(),
        src.bounds().contains_spec(from),
        to.x + from.sz.x <= 0 || to.x >= dst.sz.x || to.y + from.sz.y <= 0 || to.y >= dst.sz.y,
    ensures
        dst.blit_spec(src, from, to) == dst.buffer@,
{
    assert forall|k: int| 0 <= k < dst.buffer@.len() implies #[trigger] dst.blit_spec(
        src,
        from,
        to,
    )[k] == dst.buffer@[k] by {
        lemma_cell_of_index(k, dst.sz.x as int, dst.sz.y as int);
    }
    assert(dst.blit_spec(src, from, to) =~= dst.buffer@);
}

/// Blitting a fully opaque source rectangle makes every covered destination
/// pixel exactly the source pixel placed on it; the others are unchanged.
pub proof fn lemma_blit_opaque_replaces(dst: &Image, src: &Image, from: Rect, to: Vec2i)
    requires
        dst.wf(),
        src.wf(),
        from.wf(),
        src.bounds().contains_spec(from),
        forall|x: int, y: int| from.has_point(x, y) ==> (#[trigger] src.pixel(x, y)).3 == 255,
    ensures
        forall|k: int|
            0 <= k < dst.buffer@.len() ==> #[trigger] dst.blit_spec(src, from, to)[k] == if covers(
                from,
                to,
                k % (dst.sz.x as int),
                k / (dst.sz.x as int),
            ) {
                src.source_for(from, to, k % (dst.sz.x as int), k / (dst.sz.x as int))
            } else {
                dst.buffer@[k]
            },
{
    assert forall|k: int| 0 <= k < dst.buffer@.len() implies #[trigger] dst.blit_spec(
        src,
        from,
        to,
    )[k] == if covers(from, to, k % (dst.sz.x as int), k / (dst.sz.x as int)) {
        src.source_for(from, to, k % (dst.sz.x as int), k / (dst.sz.x as int))
    } else {
        dst.buffer@[k]
    } by {
        let x = k % (dst.sz.x as int);
        let y = k / (dst.sz.x as int);
        if covers(from, to, x, y) {
            let sx = from.pos.x + (x - to.x);
            let sy = from.pos.y + (y - to.y);
            assert(from.has_point(sx, sy));
            lemma_composite_opaque(src.pixel(sx, sy), dst.buffer@[k]);
        }
    }
}

/// Blitting a fully transparent source rectangle leaves the destination unchanged.
pub proof fn lemma_blit_transparent_is_noop(dst: &Image, src: &Image, from: Rect, to: Vec2i)
    requires
        dst.wf(),
        src.wf(),
        from.wf(),
        src.bounds().contains_spec(from),
        forall|x: int, y: int| from.has_point(x, y) ==> #[trigger] src.pixel(x, y) == (
        0u8,
        0u8,
        0u8,
        0u8,
        ),
    ensures
        dst.blit_spec(src, from, to) == dst.buffer@,
{
    assert forall|k: int| 0 <= k < dst.buffer@.len() implies #[trigger] dst.blit_spec(
        src,
        from,
        to,
    )[k] == dst.buffer@[k] by {
        let x = k % (dst.sz.x as int);
        let y = k / (dst.sz.x as int);
        if covers(from, to, x, y) {
            let sx = from.pos.x + (x - to.x);
            let sy = from.pos.y + (y - to.y);
            assert(from.has_point(sx, sy));
            lemma_composite_transparent(dst.buffer@[k]);
        }
    }
    assert(dst.blit_spec(src, from, to) =~= dst.buffer@);
}

} // verus!
