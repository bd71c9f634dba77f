//! How a message box paints itself, specified by the display list it
//! lays down.
use vstd::prelude::*;

use crate::controls::paint::{
    div_trunc, draw_edge, edge_ops, max2, min2, stroke, stroke_ops, take_chars, FACE, LIGHT,
    SHADOW, TEXT, CAPTION_BG, CAPTION_FG,
};
use crate::font::{str_width, text_width, GLYPH_H, GLYPH_W};
use crate::text::chars_of;
use crate::gdi::{lemma_paint_all_append, lemma_paint_all_push, paint_all, Bitmap, Op};
use crate::msgbox::{
    close_rect, tdiv, MessageBox, MsgBoxButton, MsgBoxIcon, CAPTION_H, ICON, ICON_GAP, PAD,
};

verus! {

/// Stop icon fill.
pub const ICON_RED: u16 = 0xC000;

/// Question and information icon fill.
pub const ICON_BLUE: u16 = 0x0010;

/// Exclamation icon fill.
pub const ICON_YELLOW: u16 = 0xFFE0;

/// The two diagonals of the close box's X, for its first `n` steps
/// from the corner inward.
pub open spec fn cross_ops(cx: int, cy: int, cw: int, n: nat) -> Seq<Op>
    decreases n,
{
    if n == 0 {
        Seq::empty()
    } else {
        let i = 2 + n - 1;
        cross_ops(cx, cy, cw, (n - 1) as nat) + seq![
            Op::Dot(cx + i, cy + i, TEXT),
            Op::Dot(cx + cw - 1 - i, cy + i, TEXT),
        ]
    }
}

/// The close box: a raised square with an X drawn as two diagonals.
pub open spec fn close_box_ops(m: MessageBox) -> Seq<Op> {
    let (cx, cy, cw, ch) = close_rect(m);
    seq![Op::Fill(cx, cy, cw, ch, FACE)] + edge_ops(cx, cy, cw, ch, LIGHT, SHADOW) + cross_ops(
        cx,
        cy,
        cw,
        max2(cw - 4, 0) as nat,
    )
}

/// A button of the box: the default one outlined in black, a raised
/// face (sunken while held down) and its label centred.
pub open spec fn button_ops(b: MsgBoxButton, is_default: bool) -> Seq<Op> {
    let (x0, y0, w0, h0) = (b.x as int, b.y as int, b.w as int, b.h as int);
    let outline = if is_default {
        stroke_ops(x0, y0, w0, h0, TEXT)
    } else {
        Seq::empty()
    };
    let (x, y, w, h) = if is_default {
        (x0 + 1, y0 + 1, w0 - 2, h0 - 2)
    } else {
        (x0, y0, w0, h0)
    };
    if is_default && (w <= 0 || h <= 0) {
        outline
    } else {
        let tl = if b.pressed {
            SHADOW
        } else {
            LIGHT
        };
        let br = if b.pressed {
            LIGHT
        } else {
            SHADOW
        };
        let nudge = if b.pressed {
            1int
        } else {
            0int
        };
        let tx = x + max2(tdiv(w - text_width(b.label@.len() as int), 2), 1) + nudge;
        let ty = y + max2(tdiv(h - GLYPH_H, 2), 0) + nudge;
        outline + seq![Op::Fill(x, y, w, h, FACE)] + edge_ops(x, y, w, h, tl, br) + seq![
            Op::Text(tx, ty, b.label@, TEXT),
        ]
    }
}

/// The first `n` pixels, row by row, of a 16x16 disc.
pub open spec fn disc_ops(x: int, y: int, fill: u16, n: nat) -> Seq<Op>
    decreases n,
{
    if n == 0 {
        Seq::empty()
    } else {
        let k = n - 1;
        let (row, col) = (k / 16, k % 16);
        let (dx, dy) = (col - 8, row - 8);
        disc_ops(x, y, fill, (n - 1) as nat) + if dx * dx + dy * dy <= 64 {
            seq![Op::Dot(x + col, y + row, fill)]
        } else {
            Seq::empty()
        }
    }
}

/// The first `n` rows of a 16-pixel warning triangle: each row from
/// the apex one pixel wider on each side.
pub open spec fn triangle_ops(x: int, y: int, fill: u16, n: nat) -> Seq<Op>
    decreases n,
{
    if n == 0 {
        Seq::empty()
    } else {
        let row = n - 1;
        let half = (row + 1) / 2;
        triangle_ops(x, y, fill, (n - 1) as nat) + seq![
            Op::Fill(x + 8 - half, y + row, half * 2 + 1, 1, fill),
        ]
    }
}

/// The `MB_ICON*` glyph at `(x, y)`: a filled disc for stop, question
/// and information, a triangle for exclamation, each with its symbol.
pub open spec fn icon_ops(icon: MsgBoxIcon, x: int, y: int) -> Seq<Op> {
    let sym_x = x + (ICON - GLYPH_W) / 2;
    match icon {
        MsgBoxIcon::NoIcon => Seq::empty(),
        MsgBoxIcon::Exclamation => triangle_ops(x, y, ICON_YELLOW, 16) + seq![
            Op::Text(sym_x, y + ICON - GLYPH_H - 1, seq!['!'], TEXT),
        ],
        _ => {
            let (fill, symbol) = match icon {
                MsgBoxIcon::Stop => (ICON_RED, seq!['X']),
                MsgBoxIcon::Question => (ICON_BLUE, seq!['?']),
                _ => (ICON_BLUE, seq!['i']),
            };
            disc_ops(x, y, fill, 256) + seq![
                Op::Text(sym_x, y + (ICON - GLYPH_H) / 2, symbol, CAPTION_FG),
            ]
        },
    }
}

/// The first `n` lines of the message, ten pixels apart.
pub open spec fn lines_ops(lines: Seq<String>, x: int, y: int, n: nat) -> Seq<Op>
    decreases n,
{
    if n == 0 {
        Seq::empty()
    } else {
        lines_ops(lines, x, y, (n - 1) as nat) + seq![
            Op::Text(x, y + (n - 1) * (GLYPH_H + 2), lines[n - 1]@, TEXT),
        ]
    }
}

/// The first `n` buttons.
pub open spec fn buttons_ops(bs: Seq<MsgBoxButton>, default: int, n: nat) -> Seq<Op>
    decreases n,
{
    if n == 0 {
        Seq::empty()
    } else {
        buttons_ops(bs, default, (n - 1) as nat) + button_ops(bs[n - 1], n - 1 == default)
    }
}

/// Everything the box paints: a black frame, the raised face, the
/// caption bar with its title and close box, the icon, the message and
/// the buttons.
pub open spec fn msgbox_ops(m: MessageBox) -> Seq<Op> {
    let frame = stroke_ops(m.x as int, m.y as int, m.w as int, m.h as int, TEXT);
    let (ix, iy, iw, ih) = (m.x + 1, m.y + 1, m.w - 2, m.h - 2);
    if iw <= 0 || ih <= 0 {
        frame
    } else {
        let room = iw - 6 - CAPTION_H;
        let title = m.caption@.take(
            min2(max2(tdiv(room, GLYPH_W as int), 0), m.caption@.len() as int),
        );
        let body_y = iy + CAPTION_H + PAD;
        let text_x = ix + PAD + if m.icon != MsgBoxIcon::NoIcon {
            ICON + ICON_GAP
        } else {
            0
        };
        frame + seq![Op::Fill(ix, iy, iw, ih, FACE)] + edge_ops(ix, iy, iw, ih, LIGHT, SHADOW) + seq![
            Op::Fill(ix, iy, iw, CAPTION_H as int, CAPTION_BG),
            Op::Text(ix + 3, iy + (CAPTION_H - GLYPH_H) / 2, title, CAPTION_FG),
        ] + close_box_ops(m) + icon_ops(m.icon, ix + PAD, body_y) + lines_ops(
            m.lines@,
            text_x,
            body_y,
            m.lines@.len(),
        ) + buttons_ops(m.buttons@, m.default_button as int, m.buttons@.len())
    }
}

/// Can the box be painted? A line's offset below the first, ten pixels
/// a line, is an `i32`, and so is the width the font measures for each
/// button label.
pub open spec fn msgbox_fits(m: MessageBox) -> bool {
    &&& 10 * m.lines@.len() <= i32::MAX
    &&& forall|i: int|
        0 <= i < m.buttons@.len() ==> text_width((#[trigger] m.buttons@[i]).label@.len() as int)
            <= i32::MAX
}

impl MessageBox {
    /// Paint the box.
    pub fn render(&self, bm: &mut Bitmap)
        requires
            old(bm).wf(),
            msgbox_fits(*self),
        ensures
            final(bm).wf(),
            final(bm)@ == paint_all(old(bm)@, msgbox_ops(*self)),
    {
        let ghost c0 = bm@;
        // Frame: black outline, raised face inside it.
        let (sx, sy, sw, sh) = (self.x as i64, self.y as i64, self.w as i64, self.h as i64);
        stroke(bm, sx, sy, sw, sh, TEXT);
        let ghost mut done = stroke_ops(self.x as int, self.y as int, self.w as int, self.h as int, TEXT);
        let (ix, iy, iw, ih) = (sx + 1, sy + 1, sw - 2, sh - 2);
        if iw <= 0 || ih <= 0 {
            return;
        }
        bm.fill_wide(ix, iy, iw, ih, FACE);
        proof {
            let op = Op::Fill(ix as int, iy as int, iw as int, ih as int, FACE);
            lemma_paint_all_push(c0, done, op);
            done = done.push(op);
        }
        draw_edge(bm, ix, iy, iw, ih, LIGHT, SHADOW);
        proof {
            let e = edge_ops(ix as int, iy as int, iw as int, ih as int, LIGHT, SHADOW);
            lemma_paint_all_append(c0, done, e);
            done = done + e;
        }
        // Caption bar.
        bm.fill_wide(ix, iy, iw, CAPTION_H as i64, CAPTION_BG);
        proof {
            let op = Op::Fill(ix as int, iy as int, iw as int, CAPTION_H as int, CAPTION_BG);
            lemma_paint_all_push(c0, done, op);
            done = done.push(op);
        }
        let caption_y = iy + ((CAPTION_H - GLYPH_H) / 2) as i64;
        let room = iw - 6 - CAPTION_H as i64;
        let max_chars = div_trunc(room, GLYPH_W as i64);
        let len = chars_of(self.caption.as_str()).len();
        let title = take_chars(
            self.caption.as_str(),
            if max_chars <= 0 {
                0
            } else if (max_chars as u64) < (len as u64) {
                max_chars as usize
            } else {
                len
            },
        );
        bm.text_wide(ix + 3, caption_y, title.as_str(), CAPTION_FG);
        proof {
            let op = Op::Text(ix + 3, caption_y as int, title@, CAPTION_FG);
            lemma_paint_all_push(c0, done, op);
            done = done.push(op);
        }
        self.render_close_box(bm);
        proof {
            lemma_paint_all_append(c0, done, close_box_ops(*self));
            done = done + close_box_ops(*self);
        }
        // Icon and message.
        let body_y = iy + CAPTION_H as i64 + PAD as i64;
        let mut text_x = ix + PAD as i64;
        if self.icon != MsgBoxIcon::NoIcon {
            self.render_icon(bm, text_x, body_y);
            text_x = text_x + ICON as i64 + ICON_GAP as i64;
        }
        proof {
            let ic = icon_ops(self.icon, ix + PAD, body_y as int);
            if self.icon == MsgBoxIcon::NoIcon {
                assert(done + ic =~= done);
            } else {
                lemma_paint_all_append(c0, done, ic);
            }
            done = done + ic;
        }
        let mut n: usize = 0;
        while n < self.lines.len()
            invariant
                bm.wf(),
                msgbox_fits(*self),
                n <= self.lines@.len(),
                -0x1_0000_0000 <= text_x <= 0x1_0000_0000,
                -0x1_0000_0000 <= body_y <= 0x1_0000_0000,
                bm@ == paint_all(c0, done + lines_ops(self.lines@, text_x as int, body_y as int, n as nat)),
            decreases self.lines@.len() - n,
        {
            let ghost before = done + lines_ops(self.lines@, text_x as int, body_y as int, n as nat);
            assert(10 * n <= i32::MAX);
            let ly = body_y + n as i64 * 10;
            bm.text_wide(text_x, ly, self.lines[n].as_str(), TEXT);
            proof {
                let op = Op::Text(text_x as int, ly as int, self.lines@[n as int]@, TEXT);
                lemma_paint_all_push(c0, before, op);
                assert(before.push(op) =~= done + lines_ops(
                    self.lines@,
                    text_x as int,
                    body_y as int,
                    (n + 1) as nat,
                ));
            }
            n = n + 1;
        }
        proof {
            done = done + lines_ops(self.lines@, text_x as int, body_y as int, self.lines@.len());
        }
        let mut k: usize = 0;
        while k < self.buttons.len()
            invariant
                bm.wf(),
                msgbox_fits(*self),
                k <= self.buttons@.len(),
                bm@ == paint_all(c0, done + buttons_ops(self.buttons@, self.default_button as int, k as nat)),
            decreases self.buttons@.len() - k,
        {
            let ghost before = done + buttons_ops(self.buttons@, self.default_button as int, k as nat);
            render_button(bm, &self.buttons[k], k == self.default_button);
            proof {
                let b = button_ops(self.buttons@[k as int], k == self.default_button);
                lemma_paint_all_append(c0, before, b);
                assert(before + b =~= done + buttons_ops(
                    self.buttons@,
                    self.default_button as int,
                    (k + 1) as nat,
                ));
            }
            k = k + 1;
        }
        proof {
            assert(done + buttons_ops(self.buttons@, self.default_button as int, self.buttons@.len())
                =~= msgbox_ops(*self));
        }
    }

    /// The caption's close box.
    fn render_close_box(&self, bm: &mut Bitmap)
        requires
            old(bm).wf(),
            msgbox_fits(*self),
        ensures
            final(bm).wf(),
            final(bm)@ == paint_all(old(bm)@, close_box_ops(*self)),
    {
        let ghost c0 = bm@;
        let side = (CAPTION_H - 4) as i64;
        let (cx, cy, cw, ch) = (self.x as i64 + self.w as i64 - 2 - side, self.y as i64 + 3, side, side);
        bm.fill_wide(cx, cy, cw, ch, FACE);
        let ghost first = Op::Fill(cx as int, cy as int, cw as int, ch as int, FACE);
        proof {
            lemma_paint_all_push(c0, Seq::empty(), first);
        }
        let ghost mut done = Seq::<Op>::empty().push(first);
        draw_edge(bm, cx, cy, cw, ch, LIGHT, SHADOW);
        proof {
            let e = edge_ops(cx as int, cy as int, cw as int, ch as int, LIGHT, SHADOW);
            lemma_paint_all_append(c0, done, e);
            done = done + e;
        }
        // The X, drawn as two diagonals inside the box.
        let mut i: i64 = 2;
        while i < cw - 2
            invariant
                bm.wf(),
                2 <= i <= cw - 2,
                cw == 9,
                -0x2_0000_0000 <= cx <= 0x2_0000_0000,
                -0x2_0000_0000 <= cy <= 0x2_0000_0000,
                bm@ == paint_all(c0, done + cross_ops(cx as int, cy as int, cw as int, (i - 2) as nat)),
            decreases cw - 2 - i,
        {
            let ghost before = done + cross_ops(cx as int, cy as int, cw as int, (i - 2) as nat);
            bm.dot_wide(cx + i, cy + i, TEXT);
            let ghost d1 = Op::Dot(cx + i, cy + i, TEXT);
            proof {
                lemma_paint_all_push(c0, before, d1);
            }
            bm.dot_wide(cx + cw - 1 - i, cy + i, TEXT);
            let ghost d2 = Op::Dot(cx + cw - 1 - i, cy + i, TEXT);
            proof {
                lemma_paint_all_push(c0, before.push(d1), d2);
                assert(before.push(d1).push(d2) =~= done + cross_ops(
                    cx as int,
                    cy as int,
                    cw as int,
                    (i - 1) as nat,
                ));
            }
            i = i + 1;
        }
        proof {
            assert(done + cross_ops(cx as int, cy as int, cw as int, 5) =~= close_box_ops(*self));
        }
    }

    /// The `MB_ICON*` glyphs, drawn rather than blitted.
    fn render_icon(&self, bm: &mut Bitmap, x: i64, y: i64)
        requires
            old(bm).wf(),
            -0x1_0000_0000 <= x <= 0x1_0000_0000,
            -0x1_0000_0000 <= y <= 0x1_0000_0000,
        ensures
            final(bm).wf(),
            final(bm)@ == paint_all(old(bm)@, icon_ops(self.icon, x as int, y as int)),
    {
        let ghost c0 = bm@;
        let side = ICON as i64;
        let (fill, symbol) = match self.icon {
            MsgBoxIcon::Stop => (ICON_RED, "X"),
            MsgBoxIcon::Question => (ICON_BLUE, "?"),
            MsgBoxIcon::Exclamation => (ICON_YELLOW, "!"),
            MsgBoxIcon::Information => (ICON_BLUE, "i"),
            MsgBoxIcon::NoIcon => return,
        };
        proof {
            reveal_strlit("X");
            reveal_strlit("?");
            reveal_strlit("!");
            reveal_strlit("i");
            assert("X"@ =~= seq!['X']);
            assert("?"@ =~= seq!['?']);
            assert("!"@ =~= seq!['!']);
            assert("i"@ =~= seq!['i']);
        }
        let sym_x = x + (side - GLYPH_W as i64) / 2;
        if self.icon == MsgBoxIcon::Exclamation {
            // Triangle: each row from the apex widens by one pixel a
            // side, which at 16 px reads as the warning sign.
            let mut row: i64 = 0;
            while row < side
                invariant
                    bm.wf(),
                    side == 16,
                    0 <= row <= side,
                    fill == ICON_YELLOW,
                    -0x1_0000_0000 <= x <= 0x1_0000_0000,
                    -0x1_0000_0000 <= y <= 0x1_0000_0000,
                    bm@ == paint_all(c0, triangle_ops(x as int, y as int, fill, row as nat)),
                decreases side - row,
            {
                let half = (row + 1) / 2;
                let cx = x + side / 2;
                bm.fill_wide(cx - half, y + row, half * 2 + 1, 1, fill);
                proof {
                    let op = Op::Fill(cx - half, y + row, half * 2 + 1, 1, fill);
                    lemma_paint_all_push(c0, triangle_ops(x as int, y as int, fill, row as nat), op);
                    assert(triangle_ops(x as int, y as int, fill, row as nat).push(op) =~= triangle_ops(
                        x as int,
                        y as int,
                        fill,
                        (row + 1) as nat,
                    ));
                }
                row = row + 1;
            }
            bm.text_wide(sym_x, y + side - GLYPH_H as i64 - 1, symbol, TEXT);
            proof {
                let op = Op::Text(sym_x as int, y + side - GLYPH_H - 1, symbol@, TEXT);
                lemma_paint_all_push(c0, triangle_ops(x as int, y as int, fill, 16), op);
                assert(triangle_ops(x as int, y as int, fill, 16).push(op) =~= icon_ops(
                    self.icon,
                    x as int,
                    y as int,
                ));
            }
            return;
        }
        // Disc by radius test — cheap and exact enough at this size.
        let r = side / 2;
        let mut row: i64 = 0;
        while row < side
            invariant
                bm.wf(),
                side == 16,
                r == 8,
                0 <= row <= side,
                -0x1_0000_0000 <= x <= 0x1_0000_0000,
                -0x1_0000_0000 <= y <= 0x1_0000_0000,
                bm@ == paint_all(c0, disc_ops(x as int, y as int, fill, (row * 16) as nat)),
            decreases side - row,
        {
            let mut col: i64 = 0;
            while col < side
                invariant
                    bm.wf(),
                    side == 16,
                    r == 8,
                    0 <= row < side,
                    0 <= col <= side,
                    -0x1_0000_0000 <= x <= 0x1_0000_0000,
                    -0x1_0000_0000 <= y <= 0x1_0000_0000,
                    bm@ == paint_all(c0, disc_ops(x as int, y as int, fill, (row * 16 + col) as nat)),
                decreases side - col,
            {
                let (dx, dy) = (col - r, row - r);
                let ghost before = disc_ops(x as int, y as int, fill, (row * 16 + col) as nat);
                let k = row * 16 + col;
                assert(0 <= dx * dx <= 64 && 0 <= dy * dy <= 64) by (nonlinear_arith)
                    requires
                        -8 <= dx <= 8,
                        -8 <= dy <= 8,
                ;
                assert(k / 16 == row && k % 16 == col);
                if dx * dx + dy * dy <= r * r {
                    bm.dot_wide(x + col, y + row, fill);
                    proof {
                        let op = Op::Dot(x + col, y + row, fill);
                        lemma_paint_all_push(c0, before, op);
                        assert(before.push(op) =~= disc_ops(x as int, y as int, fill, (k + 1) as nat));
                    }
                } else {
                    proof {
                        assert(before + Seq::<Op>::empty() =~= disc_ops(
                            x as int,
                            y as int,
                            fill,
                            (k + 1) as nat,
                        ));
                    }
                }
                col = col + 1;
            }
            row = row + 1;
        }
        let sym_y = y + (side - GLYPH_H as i64) / 2;
        bm.text_wide(sym_x, sym_y, symbol, CAPTION_FG);
        proof {
            let op = Op::Text(sym_x as int, sym_y as int, symbol@, CAPTION_FG);
            lemma_paint_all_push(c0, disc_ops(x as int, y as int, fill, 256), op);
            assert(disc_ops(x as int, y as int, fill, 256).push(op) =~= icon_ops(
                self.icon,
                x as int,
                y as int,
            ));
        }
    }
}

/// One button, outlined in black when it is the default.
fn render_button(bm: &mut Bitmap, button: &MsgBoxButton, is_default: bool)
    requires
        old(bm).wf(),
        text_width(button.label@.len() as int) <= i32::MAX,
    ensures
        final(bm).wf(),
        final(bm)@ == paint_all(old(bm)@, button_ops(*button, is_default)),
{
    let ghost c0 = bm@;
    let (mut x, mut y, mut w, mut h) = (button.x as i64, button.y as i64, button.w as i64, button.h as i64);
    let ghost mut done = Seq::<Op>::empty();
    if is_default {
        stroke(bm, x, y, w, h, TEXT);
        proof {
            done = stroke_ops(x as int, y as int, w as int, h as int, TEXT);
        }
        x = x + 1;
        y = y + 1;
        w = w - 2;
        h = h - 2;
        if w <= 0 || h <= 0 {
            return;
        }
    }
    bm.fill_wide(x, y, w, h, FACE);
    proof {
        let op = Op::Fill(x as int, y as int, w as int, h as int, FACE);
        lemma_paint_all_push(c0, done, op);
        done = done.push(op);
    }
    let (tl, br) = if button.pressed {
        (SHADOW, LIGHT)
    } else {
        (LIGHT, SHADOW)
    };
    draw_edge(bm, x, y, w, h, tl, br);
    proof {
        let e = edge_ops(x as int, y as int, w as int, h as int, tl, br);
        lemma_paint_all_append(c0, done, e);
        done = done + e;
    }
    let nudge: i64 = if button.pressed {
        1
    } else {
        0
    };
    let half = div_trunc(w - str_width(button.label.as_str()) as i64, 2);
    let tx = x + (if half > 1 {
        half
    } else {
        1
    }) + nudge;
    let vh = div_trunc(h - GLYPH_H as i64, 2);
    let ty = y + (if vh > 0 {
        vh
    } else {
        0
    }) + nudge;
    bm.text_wide(tx, ty, button.label.as_str(), TEXT);
    proof {
        let op = Op::Text(tx as int, ty as int, button.label@, TEXT);
        lemma_paint_all_push(c0, done, op);
        assert(done.push(op) =~= button_ops(*button, is_default));
    }
}

} // verus!
