//! The drawing surface: an RGB565 bitmap, and the few primitives the
//! built-in controls and the message box paint with.
//!
//! Everything drawn is described by an `Op` — a filled rectangle, a
//! single pixel or a run of text — and `paint` says what an `Op` does to
//! a `Canvas`. The painting functions are specified as the list of ops
//! they lay down, in order, so what a control draws can be read off its
//! specification.
use vstd::prelude::*;

verus! {

/// A bitmap as a value: its size and its rows of RGB565 pixels, top
/// row first.
pub struct Canvas {
    pub width: nat,
    pub height: nat,
    pub rows: Seq<Seq<u16>>,
}

/// Every row holds exactly `width` pixels.
pub open spec fn canvas_wf(c: Canvas) -> bool {
    &&& c.rows.len() == c.height
    &&& forall|y: int| 0 <= y < c.height ==> #[trigger] c.rows[y].len() == c.width
}

/// One drawing operation.
pub enum Op {
    /// A solid rectangle: left, top, width, height, colour.
    Fill(int, int, int, int, u16),
    /// One pixel: x, y, colour.
    Dot(int, int, u16),
    /// A run of text in the system font, its cell's top-left corner at
    /// x, y.
    Text(int, int, Seq<char>, u16),
}

/// Width of one glyph cell, in pixels.
pub open spec fn glyph_w() -> int {
    6
}

/// Height of one glyph cell, in pixels.
pub open spec fn glyph_h() -> int {
    8
}

/// Is `v` a coordinate the bitmap can take: anywhere within `2^40` of
/// the origin, far past any `i32` and any sum of a few of them.
pub open spec fn on_plane(v: int) -> bool {
    -0x100_0000_0000 <= v <= 0x100_0000_0000
}

/// Is pixel `(gx, gy)` of the glyph for `c` lit? A glyph is drawn in
/// the 5x7 box at the top left of its 6x8 cell, as that box's outline;
/// a space draws nothing.
pub open spec fn glyph_lit(c: char, gx: int, gy: int) -> bool {
    &&& c != ' '
    &&& 0 <= gx < 5
    &&& 0 <= gy < 7
    &&& (gx == 0 || gx == 4 || gy == 0 || gy == 6)
}

/// Is the pixel at offset `(dx, dy)` from the start of `t` lit?
pub open spec fn text_lit(t: Seq<char>, dx: int, dy: int) -> bool {
    &&& 0 <= dx
    &&& dx / glyph_w() < t.len()
    &&& glyph_lit(t[dx / glyph_w()], dx % glyph_w(), dy)
}

/// Does `op` paint the pixel at `(x, y)`?
pub open spec fn lit(op: Op, x: int, y: int) -> bool {
    match op {
        Op::Fill(rx, ry, w, h, _) => rx <= x < rx + w && ry <= y < ry + h,
        Op::Dot(px, py, _) => x == px && y == py,
        Op::Text(tx, ty, t, _) => text_lit(t, x - tx, y - ty),
    }
}

/// The colour `op` paints in.
pub open spec fn color_of(op: Op) -> u16 {
    match op {
        Op::Fill(_, _, _, _, c) => c,
        Op::Dot(_, _, c) => c,
        Op::Text(_, _, _, c) => c,
    }
}

/// `c` with `op` painted over it; what falls outside the canvas is
/// dropped.
pub open spec fn paint(c: Canvas, op: Op) -> Canvas {
    Canvas {
        rows: Seq::new(
            c.rows.len(),
            |y: int|
                Seq::new(
                    c.rows[y].len(),
                    |x: int|
                        if lit(op, x, y) {
                            color_of(op)
                        } else {
                            c.rows[y][x]
                        },
                ),
        ),
        ..c
    }
}

/// `c` with `ops` painted over it, first to last.
pub open spec fn paint_all(c: Canvas, ops: Seq<Op>) -> Canvas
    decreases ops.len(),
{
    if ops.len() == 0 {
        c
    } else {
        paint(paint_all(c, ops.drop_last()), ops.last())
    }
}

/// Painting two lists is painting them one after the other.
pub proof fn lemma_paint_all_append(c: Canvas, a: Seq<Op>, b: Seq<Op>)
    ensures
        paint_all(c, a + b) == paint_all(paint_all(c, a), b),
    decreases b.len(),
{
    if b.len() == 0 {
        assert(a + b =~= a);
    } else {
        lemma_paint_all_append(c, a, b.drop_last());
        assert((a + b).drop_last() =~= a + b.drop_last());
        assert((a + b).last() == b.last());
    }
}

/// Painting one more op is painting it over what the list before it
/// painted.
pub proof fn lemma_paint_all_push(c: Canvas, ops: Seq<Op>, op: Op)
    ensures
        paint_all(c, ops.push(op)) == paint(paint_all(c, ops), op),
{
    assert(ops.push(op).drop_last() =~= ops);
}

/// Painting keeps a canvas's size and shape.
pub proof fn lemma_paint_all_wf(c: Canvas, ops: Seq<Op>)
    requires
        canvas_wf(c),
    ensures
        canvas_wf(paint_all(c, ops)),
        paint_all(c, ops).width == c.width,
        paint_all(c, ops).height == c.height,
    decreases ops.len(),
{
    if ops.len() > 0 {
        lemma_paint_all_wf(c, ops.drop_last());
    }
}

/// A pixel that no op of `ops` covers keeps its colour.
pub proof fn lemma_paint_all_untouched(c: Canvas, ops: Seq<Op>, x: int, y: int)
    requires
        canvas_wf(c),
        0 <= y < c.height,
        0 <= x < c.width,
        forall|k: int| 0 <= k < ops.len() ==> !lit(#[trigger] ops[k], x, y),
    ensures
        paint_all(c, ops).rows[y][x] == c.rows[y][x],
    decreases ops.len(),
{
    if ops.len() > 0 {
        lemma_paint_all_wf(c, ops.drop_last());
        assert forall|k: int| 0 <= k < ops.drop_last().len() implies !lit(
            #[trigger] ops.drop_last()[k],
            x,
            y,
        ) by {
            assert(ops.drop_last()[k] == ops[k]);
        }
        lemma_paint_all_untouched(c, ops.drop_last(), x, y);
        assert(!lit(ops[ops.len() - 1], x, y));
    }
}

/// An RGB565 bitmap, zero (black) when created.
pub struct Bitmap {
    width: u32,
    height: u32,
    rows: Vec<Vec<u16>>,
}

impl View for Bitmap {
    type V = Canvas;

    closed spec fn view(&self) -> Canvas {
        Canvas {
            width: self.width as nat,
            height: self.height as nat,
            rows: self.rows@.map_values(|r: Vec<u16>| r@),
        }
    }
}

/// The little-endian bytes of `row`.
pub open spec fn row_bytes(row: Seq<u16>) -> Seq<u8>
    decreases row.len(),
{
    if row.len() == 0 {
        Seq::empty()
    } else {
        row_bytes(row.drop_last()) + seq![(row.last() & 0xff) as u8, (row.last() >> 8u16) as u8]
    }
}

/// The little-endian bytes of `rows`, top row first.
pub open spec fn canvas_bytes(rows: Seq<Seq<u16>>) -> Seq<u8>
    decreases rows.len(),
{
    if rows.len() == 0 {
        Seq::empty()
    } else {
        canvas_bytes(rows.drop_last()) + row_bytes(rows.last())
    }
}

/// The half-open span `[lo, hi)` clipped to `[0, limit)`.
pub open spec fn clip_lo(lo: int) -> int {
    if lo < 0 {
        0
    } else {
        lo
    }
}

pub open spec fn clip_hi(hi: int, limit: int) -> int {
    if hi > limit {
        limit
    } else {
        hi
    }
}

impl Bitmap {
    /// Are all rows `width` pixels long, and `height` of them?
    pub closed spec fn wf(&self) -> bool {
        canvas_wf(self@)
    }

    /// A `width` x `height` bitmap, every pixel zero.
    pub fn new(width: u32, height: u32) -> (b: Bitmap)
        ensures
            b.wf(),
            b@.width == width,
            b@.height == height,
            forall|y: int, x: int|
                0 <= y < height && 0 <= x < width ==> #[trigger] b@.rows[y][x] == 0,
    {
        let mut rows: Vec<Vec<u16>> = Vec::new();
        let mut y: u32 = 0;
        while y < height
            invariant
                y <= height,
                rows@.len() == y,
                forall|r: int| 0 <= r < y ==> #[trigger] rows@[r]@.len() == width,
                forall|r: int, x: int|
                    0 <= r < y && 0 <= x < width ==> #[trigger] rows@[r]@[x] == 0,
            decreases height - y,
        {
            let mut row: Vec<u16> = Vec::new();
            let mut x: u32 = 0;
            while x < width
                invariant
                    x <= width,
                    row@.len() == x,
                    forall|k: int| 0 <= k < x ==> #[trigger] row@[k] == 0,
                decreases width - x,
            {
                row.push(0);
                x = x + 1;
            }
            rows.push(row);
            y = y + 1;
        }
        Bitmap { width, height, rows }
    }

    /// Width in pixels.
    pub fn width(&self) -> (w: u32)
        ensures
            w == self@.width,
    {
        self.width
    }

    /// Height in pixels.
    pub fn height(&self) -> (h: u32)
        ensures
            h == self@.height,
    {
        self.height
    }

    /// Paint `op` over the columns `[x0, x1)` of row `y`, which lie
    /// inside the bitmap; `lit_here` says which of them `op` covers.
    fn paint_span(&mut self, y: usize, x0: usize, x1: usize, lit_here: Vec<bool>, color: u16, Ghost(op): Ghost<Op>)
        requires
            old(self).wf(),
            y < old(self)@.height,
            x0 <= x1 <= old(self)@.width,
            lit_here@.len() == x1 - x0,
            color == color_of(op),
            forall|k: int| 0 <= k < x1 - x0 ==> #[trigger] lit_here@[k] == lit(op, x0 + k, y as int),
        ensures
            final(self).wf(),
            final(self)@.width == old(self)@.width,
            final(self)@.height == old(self)@.height,
            forall|r: int| 0 <= r < old(self)@.height && r != y ==> #[trigger] final(self)@.rows[r] == old(self)@.rows[r],
            final(self)@.rows[y as int] == Seq::new(
                old(self)@.width,
                |x: int|
                    if x0 <= x < x1 && lit(op, x, y as int) {
                        color
                    } else {
                        old(self)@.rows[y as int][x]
                    },
            ),
    {
        let ghost before = self@;
        assert(self.rows@[y as int]@ == before.rows[y as int]);
        let mut row: Vec<u16> = Vec::new();
        let mut k: usize = 0;
        let n = self.rows[y].len();
        while k < n
            invariant
                self@ == before,
                canvas_wf(before),
                y < before.height,
                n == before.width,
                k <= n,
                self.rows@[y as int]@ == before.rows[y as int],
                x0 <= x1 <= n,
                lit_here@.len() == x1 - x0,
                forall|j: int| 0 <= j < x1 - x0 ==> #[trigger] lit_here@[j] == lit(op, x0 + j, y as int),
                row@.len() == k,
                forall|x: int|
                    0 <= x < k ==> #[trigger] row@[x] == if x0 <= x < x1 && lit(op, x, y as int) {
                        color
                    } else {
                        before.rows[y as int][x]
                    },
            decreases n - k,
        {
            let old_px = self.rows[y][k];
            if x0 <= k && k < x1 && lit_here[k - x0] {
                row.push(color);
            } else {
                row.push(old_px);
            }
            k = k + 1;
        }
        self.rows.set(y, row);
        assert forall|r: int| 0 <= r < before.height && r != y implies #[trigger] self@.rows[r] == before.rows[r] by {
            assert(self.rows@[r] == old(self).rows@[r]);
        }
        assert(self@.rows[y as int] =~= Seq::new(
            before.width,
            |x: int|
                if x0 <= x < x1 && lit(op, x, y as int) {
                    color
                } else {
                    before.rows[y as int][x]
                },
        ));
    }

    /// Paint `op`, whose lit pixels all lie in rows `[y0, y1)` and
    /// columns `[x0, x1)`; `lit_at` answers for each of those pixels.
    fn paint_box(&mut self, x0: i64, y0: i64, x1: i64, y1: i64, op_exec: &OpExec, Ghost(op): Ghost<Op>)
        requires
            old(self).wf(),
            op_exec.spec() == op,
            forall|x: int, y: int|
                lit(op, x, y) && 0 <= x < old(self)@.width && 0 <= y < old(self)@.height ==> x0 <= x
                    < x1 && y0 <= y < y1,
            op_exec.bounded(),
        ensures
            final(self).wf(),
            final(self)@ == paint(old(self)@, op),
    {
        let ghost before = self@;
        let xa = if x0 < 0 { 0i64 } else { x0 };
        let ya = if y0 < 0 { 0i64 } else { y0 };
        let xb = if x1 > self.width as i64 { self.width as i64 } else { x1 };
        let yb = if y1 > self.height as i64 { self.height as i64 } else { y1 };
        if xa >= xb || ya >= yb {
            assert(paint(before, op).rows =~~= before.rows);
            return;
        }
        let xs = xa as usize;
        let xe = xb as usize;
        let mut y = ya as usize;
        while y < yb as usize
            invariant
                self.wf(),
                before.width == self@.width,
                before.height == self@.height,
                canvas_wf(before),
                op_exec.spec() == op,
                op_exec.bounded(),
                forall|x: int, y: int|
                    lit(op, x, y) && 0 <= x < before.width && 0 <= y < before.height ==> x0 <= x
                        < x1 && y0 <= y < y1,
                xa == (if x0 < 0 { 0 } else { x0 }),
                xb == (if x1 > before.width { before.width as i64 } else { x1 }),
                0 <= xa <= xs == xa,
                xe == xb <= before.width,
                xs < xe,
                0 <= ya <= y <= yb <= before.height,
                forall|r: int|
                    0 <= r < before.height ==> #[trigger] self@.rows[r] == if ya <= r < y {
                        paint(before, op).rows[r]
                    } else {
                        before.rows[r]
                    },
            decreases yb - y,
        {
            let mut lit_here: Vec<bool> = Vec::new();
            let mut x = xs;
            while x < xe
                invariant
                    xs <= x <= xe,
                    lit_here@.len() == x - xs,
                    op_exec.spec() == op,
                    op_exec.bounded(),
                    xe <= u32::MAX,
                    y <= u32::MAX,
                    forall|k: int| 0 <= k < x - xs ==> #[trigger] lit_here@[k] == lit(op, xs + k, y as int),
                decreases xe - x,
            {
                lit_here.push(op_exec.lit_at(x as i64, y as i64));
                x = x + 1;
            }
            let ghost mid = self@;
            self.paint_span(y, xs, xe, lit_here, op_exec.color(), Ghost(op));
            assert(self@.rows[y as int] =~= paint(before, op).rows[y as int]);
            y = y + 1;
        }
        assert(self@.rows =~~= paint(before, op).rows);
    }

    /// Fill the rectangle at `(x, y)`, `w` x `h`, clipped to the bitmap.
    pub fn fill_rect(&mut self, x: i32, y: i32, w: i32, h: i32, color: u16)
        requires
            old(self).wf(),
        ensures
            final(self).wf(),
            final(self)@ == paint(old(self)@, Op::Fill(x as int, y as int, w as int, h as int, color)),
    {
        self.fill_wide(x as i64, y as i64, w as i64, h as i64, color)
    }

    /// `fill_rect` with coordinates anywhere on the plane.
    pub(crate) fn fill_wide(&mut self, x: i64, y: i64, w: i64, h: i64, color: u16)
        requires
            old(self).wf(),
            on_plane(x as int) && on_plane(y as int) && on_plane(w as int) && on_plane(h as int),
        ensures
            final(self).wf(),
            final(self)@ == paint(old(self)@, Op::Fill(x as int, y as int, w as int, h as int, color)),
    {
        let op_exec = OpExec::Fill(x, y, w, h, color);
        self.paint_box(x, y, x + w, y + h, &op_exec, Ghost(Op::Fill(x as int, y as int, w as int, h as int, color)));
    }

    /// Set one pixel, if it lies on the bitmap.
    pub fn put_pixel(&mut self, x: i32, y: i32, color: u16)
        requires
            old(self).wf(),
        ensures
            final(self).wf(),
            final(self)@ == paint(old(self)@, Op::Dot(x as int, y as int, color)),
    {
        self.dot_wide(x as i64, y as i64, color)
    }

    /// `put_pixel` with coordinates anywhere on the plane.
    pub(crate) fn dot_wide(&mut self, x: i64, y: i64, color: u16)
        requires
            old(self).wf(),
            on_plane(x as int) && on_plane(y as int),
        ensures
            final(self).wf(),
            final(self)@ == paint(old(self)@, Op::Dot(x as int, y as int, color)),
    {
        let op_exec = OpExec::Dot(x, y, color);
        self.paint_box(x, y, x + 1, y + 1, &op_exec, Ghost(Op::Dot(x as int, y as int, color)));
    }

    /// Draw `text` with its first cell's top-left corner at `(x, y)`.
    pub fn draw_text(&mut self, x: i32, y: i32, text: &str, color: u16)
        requires
            old(self).wf(),
        ensures
            final(self).wf(),
            final(self)@ == paint(old(self)@, Op::Text(x as int, y as int, text@, color)),
    {
        self.text_wide(x as i64, y as i64, text, color)
    }

    /// `draw_text` with its corner anywhere on the plane.
    pub(crate) fn text_wide(&mut self, x: i64, y: i64, text: &str, color: u16)
        requires
            old(self).wf(),
            on_plane(x as int) && on_plane(y as int),
        ensures
            final(self).wf(),
            final(self)@ == paint(old(self)@, Op::Text(x as int, y as int, text@, color)),
    {
        let cs = crate::text::chars_of(text);
        let x1: i64 = if cs.len() > 0x1000_0000 {
            0x100_0000_0000
        } else {
            x + cs.len() as i64 * 6
        };
        let op_exec = OpExec::Text(x, y, cs, color);
        let ghost op = Op::Text(x as int, y as int, text@, color);
        assert forall|px: int, py: int|
            lit(op, px, py) && 0 <= px < old(self)@.width && 0 <= py < old(self)@.height implies x
                <= px < x1 && y <= py < y + 8 by {
            assert((px - x) / 6 < text@.len());
        }
        self.paint_box(x, y, x1, y + 8, &op_exec, Ghost(op));
    }

    /// The bitmap as little-endian RGB565 bytes, row by row.
    pub fn pixels(&self) -> (bytes: Vec<u8>)
        requires
            self.wf(),
        ensures
            bytes@ == canvas_bytes(self@.rows),
    {
        let mut bytes: Vec<u8> = Vec::new();
        let mut y: usize = 0;
        while y < self.rows.len()
            invariant
                y <= self.rows@.len(),
                bytes@ == canvas_bytes(self@.rows.take(y as int)),
            decreases self.rows@.len() - y,
        {
            assert(self@.rows.take(y + 1).drop_last() =~= self@.rows.take(y as int));
            let row = &self.rows[y];
            let ghost head = bytes@;
            let mut x: usize = 0;
            while x < row.len()
                invariant
                    x <= row@.len(),
                    bytes@ == head + row_bytes(row@.take(x as int)),
                decreases row@.len() - x,
            {
                assert(row@.take(x + 1).drop_last() =~= row@.take(x as int));
                let p = row[x];
                bytes.push((p & 0xff) as u8);
                bytes.push((p >> 8) as u8);
                x = x + 1;
            }
            assert(row@.take(row@.len() as int) =~= row@);
            y = y + 1;
        }
        assert(self@.rows.take(self@.rows.len() as int) =~= self@.rows);
        bytes
    }
}

/// An `Op` in executable form, so the painter can ask it which pixels
/// it covers.
enum OpExec {
    Fill(i64, i64, i64, i64, u16),
    Dot(i64, i64, u16),
    Text(i64, i64, Vec<char>, u16),
}

impl OpExec {
    spec fn spec(&self) -> Op {
        match self {
            OpExec::Fill(x, y, w, h, c) => Op::Fill(*x as int, *y as int, *w as int, *h as int, *c),
            OpExec::Dot(x, y, c) => Op::Dot(*x as int, *y as int, *c),
            OpExec::Text(x, y, t, c) => Op::Text(*x as int, *y as int, t@, *c),
        }
    }

    spec fn bounded(&self) -> bool {
        match self {
            OpExec::Fill(x, y, w, h, _) => on_plane(*x as int) && on_plane(*y as int) && on_plane(
                *w as int,
            ) && on_plane(*h as int),
            OpExec::Dot(x, y, _) => on_plane(*x as int) && on_plane(*y as int),
            OpExec::Text(x, y, _, _) => on_plane(*x as int) && on_plane(*y as int),
        }
    }

    fn color(&self) -> (c: u16)
        ensures
            c == color_of(self.spec()),
    {
        match self {
            OpExec::Fill(_, _, _, _, c) => *c,
            OpExec::Dot(_, _, c) => *c,
            OpExec::Text(_, _, _, c) => *c,
        }
    }

    /// Does the op cover `(px, py)`, a pixel of the bitmap?
    fn lit_at(&self, px: i64, py: i64) -> (r: bool)
        requires
            self.bounded(),
            0 <= px <= u32::MAX,
            0 <= py <= u32::MAX,
        ensures
            r == lit(self.spec(), px as int, py as int),
    {
        match self {
            OpExec::Fill(x, y, w, h, _) => *x <= px && px < *x + *w && *y <= py && py < *y + *h,
            OpExec::Dot(x, y, _) => px == *x && py == *y,
            OpExec::Text(x, y, t, _) => {
                let dx = px - *x;
                let dy = py - *y;
                if dx < 0 {
                    return false;
                }
                let k = dx / 6;
                if k as u64 >= t.len() as u64 {
                    return false;
                }
                let c = t[k as usize];
                let gx = dx % 6;
                c != ' ' && gx < 5 && 0 <= dy && dy < 7 && (gx == 0 || gx == 4 || dy == 0 || dy == 6)
            },
        }
    }
}

} // verus!
