//! How the built-in controls and dialog panels paint themselves.
//!
//! Each painting function is specified by the display list it lays
//! down: `*_ops` below says, op by op, what is drawn and in what order.
use vstd::prelude::*;

use crate::controls::{
    button_kind, find_panel, is_check_like_spec, is_group_box_spec, origin_of, help_rect, ok_rect,
    showing, ChildWindow, ControlClass, Controls, ControlsView, DialogPanel, BS_DEFPUSHBUTTON,
    CAPTION_H, parent_origin_of, help_box_fits,
};
use crate::font::{str_width, text_width, GLYPH_H, GLYPH_W};
use crate::gdi::{
    canvas_wf, lemma_paint_all_append, lemma_paint_all_push, lemma_paint_all_untouched, lit, paint_all,
    Bitmap, Canvas, Op,
};
use crate::msgbox::tdiv;
use crate::text::{chars_of, string_push};

verus! {

/// Face colour — `COLOR_BTNFACE`, the light grey the status bar uses.
pub const FACE: u16 = 0xC618;

/// `COLOR_BTNSHADOW`.
pub const SHADOW: u16 = 0x8410;

/// `COLOR_BTNHIGHLIGHT`.
pub const LIGHT: u16 = 0xFFFF;

/// `COLOR_BTNTEXT` / `COLOR_WINDOWTEXT`.
pub const TEXT: u16 = 0x0000;

/// `COLOR_WINDOW` — the edit control's background.
pub const WINDOW: u16 = 0xFFFF;

/// Side of the square box drawn for a check box / radio.
pub const CHECK_BOX: i32 = 12;

/// Win32's indent of a group box caption from the frame's left edge.
pub const GROUP_LABEL_X: i32 = 7;

/// Caption background — the CE title bar blue.
pub const CAPTION_BG: u16 = 0x0010;

/// Caption text, white on that blue.
pub const CAPTION_FG: u16 = 0xFFFF;

/// The OK label is drawn in the caption blue, as on a device.
pub const OK_FG: u16 = 0x0010;

/// `a / b` for a positive `b`, rounded toward zero.
pub fn div_trunc(a: i64, b: i64) -> (q: i64)
    requires
        b > 0,
        a > i64::MIN,
    ensures
        q == tdiv(a as int, b as int),
{
    if a >= 0 {
        a / b
    } else {
        -((-a) / b)
    }
}

/// The larger of two integers.
pub open spec fn max2(a: int, b: int) -> int {
    if a > b {
        a
    } else {
        b
    }
}

/// The smaller of two integers.
pub open spec fn min2(a: int, b: int) -> int {
    if a < b {
        a
    } else {
        b
    }
}

/// Is `v` a coordinate the drawing helpers take: within `2^38` of the
/// origin, so that the few sums they form stay on the bitmap's plane.
/// Every `i32`, and every sum of a handful of them, is one.
pub open spec fn small(v: int) -> bool {
    -0x40_0000_0000 <= v <= 0x40_0000_0000
}

/// The classic Win32 3D edge: `tl` down the top and left, `br` up the
/// bottom and right.
pub open spec fn edge_ops(x: int, y: int, w: int, h: int, tl: u16, br: u16) -> Seq<Op> {
    if w <= 0 || h <= 0 {
        Seq::empty()
    } else {
        seq![
            Op::Fill(x, y, w, 1, tl),
            Op::Fill(x, y, 1, h, tl),
            Op::Fill(x, y + h - 1, w, 1, br),
            Op::Fill(x + w - 1, y, 1, h, br),
        ]
    }
}

/// A one-pixel outline.
pub open spec fn stroke_ops(x: int, y: int, w: int, h: int, c: u16) -> Seq<Op> {
    edge_ops(x, y, w, h, c, c)
}

/// The dots of a focus rectangle's top and bottom rows, for the first
/// `n` columns: every other pixel, by the parity of its coordinates.
pub open spec fn dotted_rows(x: int, y: int, h: int, c: u16, n: nat) -> Seq<Op>
    decreases n,
{
    if n == 0 {
        Seq::empty()
    } else {
        let i = n - 1;
        dotted_rows(x, y, h, c, (n - 1) as nat) + (if (x + i + y) % 2 == 0 {
            seq![Op::Dot(x + i, y, c)]
        } else {
            Seq::empty()
        }) + (if (x + i + y + h - 1) % 2 == 0 {
            seq![Op::Dot(x + i, y + h - 1, c)]
        } else {
            Seq::empty()
        })
    }
}

/// The dots of a focus rectangle's left and right columns, for the
/// first `n` rows.
pub open spec fn dotted_cols(x: int, y: int, w: int, c: u16, n: nat) -> Seq<Op>
    decreases n,
{
    if n == 0 {
        Seq::empty()
    } else {
        let j = n - 1;
        dotted_cols(x, y, w, c, (n - 1) as nat) + (if (x + y + j) % 2 == 0 {
            seq![Op::Dot(x, y + j, c)]
        } else {
            Seq::empty()
        }) + (if (x + w - 1 + y + j) % 2 == 0 {
            seq![Op::Dot(x + w - 1, y + j, c)]
        } else {
            Seq::empty()
        })
    }
}

/// The alternating-pixel focus rectangle Windows draws inside a button
/// that holds the keyboard focus.
pub open spec fn dotted_ops(x: int, y: int, w: int, h: int, c: u16) -> Seq<Op> {
    if w <= 0 || h <= 0 {
        Seq::empty()
    } else {
        dotted_rows(x, y, h, c, w as nat) + dotted_cols(x, y, w, c, h as nat)
    }
}

/// `text` drawn at `(x, y)` but stopped before `right`: only the
/// characters whose whole cell fits.
pub open spec fn clipped_ops(x: int, y: int, text: Seq<char>, c: u16, right: int) -> Seq<Op> {
    let room = max2(right - x, 0);
    let n = room / GLYPH_W as int;
    if n == 0 {
        Seq::empty()
    } else {
        seq![Op::Text(x, y, text.take(min2(n, text.len() as int)), c)]
    }
}

/// Draw the Win32 3D edge.
pub fn draw_edge(bm: &mut Bitmap, x: i64, y: i64, w: i64, h: i64, tl: u16, br: u16)
    requires
        old(bm).wf(),
        small(x as int) && small(y as int) && small(w as int) && small(h as int),
    ensures
        final(bm).wf(),
        final(bm)@ == paint_all(old(bm)@, edge_ops(x as int, y as int, w as int, h as int, tl, br)),
{
    let ghost c0 = bm@;
    if w <= 0 || h <= 0 {
        return;
    }
    bm.fill_wide(x, y, w, 1, tl);
    bm.fill_wide(x, y, 1, h, tl);
    bm.fill_wide(x, y + h - 1, w, 1, br);
    bm.fill_wide(x + w - 1, y, 1, h, br);
    proof {
        let ops = edge_ops(x as int, y as int, w as int, h as int, tl, br);
        lemma_paint_all_push(c0, ops.take(0), ops[0]);
        assert(ops.take(0).push(ops[0]) =~= ops.take(1));
        lemma_paint_all_push(c0, ops.take(1), ops[1]);
        assert(ops.take(1).push(ops[1]) =~= ops.take(2));
        lemma_paint_all_push(c0, ops.take(2), ops[2]);
        assert(ops.take(2).push(ops[2]) =~= ops.take(3));
        lemma_paint_all_push(c0, ops.take(3), ops[3]);
        assert(ops.take(3).push(ops[3]) =~= ops);
        assert(ops.take(0) =~= Seq::<Op>::empty());
    }
}

/// Draw a solid one-pixel outline.
pub fn stroke(bm: &mut Bitmap, x: i64, y: i64, w: i64, h: i64, color: u16)
    requires
        old(bm).wf(),
        small(x as int) && small(y as int) && small(w as int) && small(h as int),
    ensures
        final(bm).wf(),
        final(bm)@ == paint_all(old(bm)@, stroke_ops(x as int, y as int, w as int, h as int, color)),
{
    draw_edge(bm, x, y, w, h, color, color);
}

/// Draw the dotted focus rectangle.
pub fn dotted_rect(bm: &mut Bitmap, x: i64, y: i64, w: i64, h: i64, color: u16)
    requires
        old(bm).wf(),
        small(x as int) && small(y as int) && small(w as int) && small(h as int),
    ensures
        final(bm).wf(),
        final(bm)@ == paint_all(old(bm)@, dotted_ops(x as int, y as int, w as int, h as int, color)),
{
    let ghost c0 = bm@;
    if w <= 0 || h <= 0 {
        return;
    }
    let (xl, yl, wl, hl) = (x, y, w, h);
    let mut i: i64 = 0;
    while i < wl
        invariant
            bm.wf(),
            0 <= i <= wl,
            xl == x && yl == y && wl == w && hl == h,
            small(x as int) && small(y as int) && small(w as int) && small(h as int),
            w > 0 && h > 0,
            bm@ == paint_all(c0, dotted_rows(x as int, y as int, h as int, color, i as nat)),
        decreases wl - i,
    {
        let ghost before = dotted_rows(x as int, y as int, h as int, color, i as nat);
        let ghost mut done = before;
        if (xl + i + yl) % 2 == 0 {
            bm.dot_wide(xl + i, y, color);
            proof {
                lemma_paint_all_push(c0, done, Op::Dot(x + i, y as int, color));
                done = done.push(Op::Dot(x + i, y as int, color));
            }
        }
        if (xl + i + yl + hl - 1) % 2 == 0 {
            bm.dot_wide(xl + i, yl + hl - 1, color);
            proof {
                lemma_paint_all_push(c0, done, Op::Dot(x + i, y + h - 1, color));
                done = done.push(Op::Dot(x + i, y + h - 1, color));
            }
        }
        assert(done =~= dotted_rows(x as int, y as int, h as int, color, (i + 1) as nat));
        i = i + 1;
    }
    let ghost rows = dotted_rows(x as int, y as int, h as int, color, w as nat);
    let mut j: i64 = 0;
    while j < hl
        invariant
            bm.wf(),
            0 <= j <= hl,
            xl == x && yl == y && wl == w && hl == h,
            small(x as int) && small(y as int) && small(w as int) && small(h as int),
            w > 0 && h > 0,
            bm@ == paint_all(c0, rows + dotted_cols(x as int, y as int, w as int, color, j as nat)),
        decreases hl - j,
    {
        let ghost before = rows + dotted_cols(x as int, y as int, w as int, color, j as nat);
        let ghost mut done = before;
        if (xl + yl + j) % 2 == 0 {
            bm.dot_wide(x, yl + j, color);
            proof {
                lemma_paint_all_push(c0, done, Op::Dot(x as int, y + j, color));
                done = done.push(Op::Dot(x as int, y + j, color));
            }
        }
        if (xl + wl - 1 + yl + j) % 2 == 0 {
            bm.dot_wide(xl + wl - 1, yl + j, color);
            proof {
                lemma_paint_all_push(c0, done, Op::Dot(x + w - 1, y + j, color));
                done = done.push(Op::Dot(x + w - 1, y + j, color));
            }
        }
        assert(done =~= rows + dotted_cols(x as int, y as int, w as int, color, (j + 1) as nat));
        j = j + 1;
    }
}

/// The first `n` characters of `s`, or all of it if it is shorter.
pub fn take_chars(s: &str, n: usize) -> (r: String)
    ensures
        r@ == s@.take(min2(n as int, s@.len() as int)),
{
    let cs = chars_of(s);
    let k = if n < cs.len() {
        n
    } else {
        cs.len()
    };
    let mut r = String::new();
    let mut i: usize = 0;
    while i < k
        invariant
            k <= cs@.len(),
            cs@ == s@,
            i <= k,
            r@ == cs@.take(i as int),
        decreases k - i,
    {
        assert(cs@.take(i + 1) =~= cs@.take(i as int).push(cs@[i as int]));
        string_push(&mut r, cs[i]);
        i = i + 1;
    }
    r
}

/// The last `n` characters of `s`, or all of it if it is shorter.
pub fn last_chars(s: &str, n: usize) -> (r: String)
    ensures
        r@ == if s@.len() > n {
            s@.skip(s@.len() - n)
        } else {
            s@
        },
{
    let cs = chars_of(s);
    let start = if cs.len() > n {
        cs.len() - n
    } else {
        0
    };
    let mut r = String::new();
    let mut i: usize = start;
    while i < cs.len()
        invariant
            cs@ == s@,
            start <= i <= cs@.len(),
            r@ == cs@.subrange(start as int, i as int),
        decreases cs@.len() - i,
    {
        assert(cs@.subrange(start as int, i + 1) =~= cs@.subrange(start as int, i as int).push(
            cs@[i as int],
        ));
        string_push(&mut r, cs[i]);
        i = i + 1;
    }
    assert(cs@.subrange(start as int, cs@.len() as int) =~= if s@.len() > n {
        s@.skip(s@.len() - n)
    } else {
        s@
    });
    r
}

/// Draw `text` but stop before `right`, so a caption never bleeds out
/// of its control.
pub fn draw_clipped(bm: &mut Bitmap, x: i64, y: i64, text: &str, color: u16, right: i64)
    requires
        old(bm).wf(),
        small(x as int) && small(right as int) && small(y as int),
    ensures
        final(bm).wf(),
        final(bm)@ == paint_all(old(bm)@, clipped_ops(x as int, y as int, text@, color, right as int)),
{
    let ghost c0 = bm@;
    let room = if right - x > 0 {
        right - x
    } else {
        0
    };
    let fit = room / (GLYPH_W as i64);
    let len = chars_of(text).len();
    let max_chars: usize = if (fit as u64) < (len as u64) {
        fit as usize
    } else {
        len
    };
    if fit == 0 {
        return;
    }
    let shown = take_chars(text, max_chars);
    assert(shown@ == text@.take(min2(fit as int, text@.len() as int)));
    bm.text_wide(x, y, shown.as_str(), color);
    proof {
        lemma_paint_all_push(c0, Seq::empty(), Op::Text(x as int, y as int, shown@, color));
        assert(Seq::<Op>::empty().push(Op::Text(x as int, y as int, shown@, color)) =~= clipped_ops(
            x as int,
            y as int,
            text@,
            color,
            right as int,
        ));
    }
}

/// Can the font measure the control's text, whose width in pixels is
/// an `i32`?
pub open spec fn measurable(c: ChildWindow) -> bool {
    text_width(c.text@.len() as int) <= i32::MAX
}

/// Can this control be painted? One that paints nothing always can; one
/// that paints needs its text measurable.
pub open spec fn child_fits(c: ChildWindow) -> bool {
    c.visible && c.w > 0 && c.h > 0 ==> measurable(c)
}

/// The control's text drawn at `(x, y)` up to `right`: plain black when
/// enabled; embossed when disabled — highlight one pixel down and right,
/// then shadow on top, the way Win32 greys a caption out.
pub open spec fn caption_ops(c: ChildWindow, x: int, y: int, right: int) -> Seq<Op> {
    if c.enabled {
        clipped_ops(x, y, c.text@, TEXT, right)
    } else {
        clipped_ops(x + 1, y + 1, c.text@, LIGHT, right + 1) + clipped_ops(x, y, c.text@, SHADOW, right)
    }
}

/// A push button's raised face over `(x, y, w, h)`: the face, its edge
/// (swapped while held down), the caption centred and nudged a pixel
/// when pressed, and the focus dots.
pub open spec fn face_ops(c: ChildWindow, focused: bool, x: int, y: int, w: int, h: int) -> Seq<Op> {
    let tl = if c.pressed {
        SHADOW
    } else {
        LIGHT
    };
    let br = if c.pressed {
        LIGHT
    } else {
        SHADOW
    };
    let nudge = if c.pressed {
        1int
    } else {
        0int
    };
    let tx = x + max2(tdiv(w - text_width(c.text@.len() as int), 2), 1) + nudge;
    let ty = y + max2(tdiv(h - GLYPH_H, 2), 0) + nudge;
    seq![Op::Fill(x, y, w, h, FACE)] + edge_ops(x, y, w, h, tl, br) + caption_ops(c, tx, ty, x + w - 2)
        + if focused {
        dotted_ops(x + 3, y + 3, w - 6, h - 6, TEXT)
    } else {
        Seq::empty()
    }
}

/// A push button: a default button's black outline sits outside its
/// face, which shrinks by a pixel on every side.
pub open spec fn push_ops(c: ChildWindow, focused: bool) -> Seq<Op> {
    let (x, y, w, h) = (c.x as int, c.y as int, c.w as int, c.h as int);
    if button_kind(c) == Some(BS_DEFPUSHBUTTON) {
        if w - 2 <= 0 || h - 2 <= 0 {
            stroke_ops(x, y, w, h, TEXT)
        } else {
            stroke_ops(x, y, w, h, TEXT) + face_ops(c, focused, x + 1, y + 1, w - 2, h - 2)
        }
    } else {
        face_ops(c, focused, x, y, w, h)
    }
}

/// A `BS_GROUPBOX`: an etched frame whose top runs along the middle of
/// the caption line, broken under the caption.
pub open spec fn group_ops(c: ChildWindow) -> Seq<Op> {
    let top = c.y + GLYPH_H / 2;
    let h = c.h - GLYPH_H / 2;
    if h <= 0 || c.w <= 0 {
        Seq::empty()
    } else {
        let frame = stroke_ops(c.x + 1, top + 1, c.w as int, h, LIGHT) + stroke_ops(
            c.x as int,
            top,
            c.w as int,
            h,
            SHADOW,
        );
        let text_w = min2(text_width(c.text@.len() as int), c.w - GROUP_LABEL_X - 2);
        if c.text@.len() == 0 || text_w <= 0 {
            frame
        } else {
            frame + seq![Op::Fill(c.x + GROUP_LABEL_X - 1, top, text_w + 3, 2, FACE)] + caption_ops(
                c,
                c.x + GROUP_LABEL_X,
                c.y as int,
                c.x + c.w - 1,
            )
        }
    }
}

/// A check box or radio: a sunken white box, a filled core when
/// checked, the caption to its right and the focus dots around that.
pub open spec fn check_ops(c: ChildWindow, focused: bool) -> Seq<Op> {
    let box_y = c.y + max2(tdiv(c.h - CHECK_BOX, 2), 0);
    let side = min2(CHECK_BOX as int, c.h as int);
    let tx = c.x + side + 4;
    let ty = c.y + max2(tdiv(c.h - GLYPH_H, 2), 0);
    seq![Op::Fill(c.x as int, box_y, side, side, WINDOW)] + edge_ops(
        c.x as int,
        box_y,
        side,
        side,
        SHADOW,
        LIGHT,
    ) + (if c.checked {
        seq![Op::Fill(c.x + 3, box_y + 3, side - 6, side - 6, TEXT)]
    } else {
        Seq::empty()
    }) + caption_ops(c, tx, ty, c.x + c.w) + if focused {
        dotted_ops(tx - 2, c.y as int, c.w - side - 2, c.h as int, TEXT)
    } else {
        Seq::empty()
    }
}

/// What an edit shows of its text: the tail, once the text outruns the
/// field, so the caret stays in view.
pub open spec fn edit_shown(text: Seq<char>, max_chars: int) -> Seq<char> {
    if text.len() > max_chars {
        text.skip(text.len() - max_chars)
    } else {
        text
    }
}

/// An edit: a sunken field (face-coloured when disabled), its text and,
/// with the focus, the caret after the text.
pub open spec fn edit_ops(c: ChildWindow, focused: bool) -> Seq<Op> {
    let bg = if c.enabled {
        WINDOW
    } else {
        FACE
    };
    let base = seq![Op::Fill(c.x as int, c.y as int, c.w as int, c.h as int, bg)] + edge_ops(
        c.x as int,
        c.y as int,
        c.w as int,
        c.h as int,
        SHADOW,
        LIGHT,
    );
    let inner_w = c.w - 6;
    if inner_w <= 0 {
        base
    } else {
        let shown = edit_shown(c.text@, inner_w / GLYPH_W as int);
        let ty = c.y + max2(tdiv(c.h - GLYPH_H, 2), 1);
        let caret_x = c.x + 3 + text_width(shown.len() as int);
        base + seq![Op::Text(c.x + 3, ty, shown, TEXT)] + if focused && caret_x < c.x + c.w - 1 {
            seq![Op::Fill(caret_x, ty, 1, GLYPH_H as int, TEXT)]
        } else {
            Seq::empty()
        }
    }
}

/// A static: just its caption, centred vertically.
pub open spec fn static_ops(c: ChildWindow) -> Seq<Op> {
    caption_ops(c, c.x as int, c.y + max2(tdiv(c.h - GLYPH_H, 2), 0), c.x + c.w)
}

/// What painting `c` lays down; nothing for a hidden or empty control.
pub open spec fn child_ops(c: ChildWindow, focused: bool) -> Seq<Op> {
    if !c.visible || c.w <= 0 || c.h <= 0 {
        Seq::empty()
    } else {
        match c.class {
            ControlClass::Button => if is_group_box_spec(c) {
                group_ops(c)
            } else if is_check_like_spec(c) {
                check_ops(c, focused)
            } else {
                push_ops(c, focused)
            },
            ControlClass::Edit => edit_ops(c, focused),
            ControlClass::Static => static_ops(c),
        }
    }
}

impl ChildWindow {
    /// Draw the caption at `(x, y)`, stopping before `right`.
    fn draw_caption(&self, bm: &mut Bitmap, x: i64, y: i64, right: i64)
        requires
            old(bm).wf(),
            small(x as int) && small(right as int) && small(y as int),
            small(x + 1) && small(right + 1) && small(y + 1),
        ensures
            final(bm).wf(),
            final(bm)@ == paint_all(old(bm)@, caption_ops(*self, x as int, y as int, right as int)),
    {
        let ghost c0 = bm@;
        if self.enabled {
            draw_clipped(bm, x, y, self.text.as_str(), TEXT, right);
            return;
        }
        draw_clipped(bm, x + 1, y + 1, self.text.as_str(), LIGHT, right + 1);
        let ghost a = clipped_ops(x + 1, y + 1, self.text@, LIGHT, right + 1);
        draw_clipped(bm, x, y, self.text.as_str(), SHADOW, right);
        proof {
            lemma_paint_all_append(c0, a, clipped_ops(x as int, y as int, self.text@, SHADOW, right as int));
        }
    }

    /// Paint the control. `focused` drives the focus rectangle and the
    /// edit caret; the caller knows which control holds the focus.
    pub fn render(&self, bm: &mut Bitmap, focused: bool)
        requires
            old(bm).wf(),
            child_fits(*self),
        ensures
            final(bm).wf(),
            final(bm)@ == paint_all(old(bm)@, child_ops(*self, focused)),
    {
        if !self.visible || self.w <= 0 || self.h <= 0 {
            return;
        }
        match self.class {
            ControlClass::Button => self.render_button(bm, focused),
            ControlClass::Edit => self.render_edit(bm, focused),
            ControlClass::Static => self.render_static(bm),
        }
    }

    fn render_button(&self, bm: &mut Bitmap, focused: bool)
        requires
            old(bm).wf(),
            measurable(*self),
            self.class == ControlClass::Button,
            self.w > 0,
            self.h > 0,
        ensures
            final(bm).wf(),
            final(bm)@ == paint_all(
                old(bm)@,
                if is_group_box_spec(*self) {
                    group_ops(*self)
                } else if is_check_like_spec(*self) {
                    check_ops(*self, focused)
                } else {
                    push_ops(*self, focused)
                },
            ),
    {
        if self.is_group_box() {
            return self.render_group_box(bm);
        }
        if self.is_check_like() {
            return self.render_check(bm, focused);
        }
        let ghost c0 = bm@;
        let (mut x, mut y, mut w, mut h) = (self.x as i64, self.y as i64, self.w as i64, self.h as i64);
        let ghost mut done = Seq::<Op>::empty();
        if self.is_default() {
            // The default button's outline sits *outside* the raised
            // face, so the face shrinks by a pixel on every side.
            stroke(bm, x, y, w, h, TEXT);
            proof {
                done = stroke_ops(x as int, y as int, w as int, h as int, TEXT);
            }
            x = x + 1;
            y = y + 1;
            w = w - 2;
            h = h - 2;
            if w <= 0 || h <= 0 {
                return;
            }
        }
        self.render_face(bm, focused, x, y, w, h);
        proof {
            lemma_paint_all_append(c0, done, face_ops(*self, focused, x as int, y as int, w as int, h as int));
        }
    }

    /// The raised face of a push button over `(x, y, w, h)`.
    fn render_face(&self, bm: &mut Bitmap, focused: bool, x: i64, y: i64, w: i64, h: i64)
        requires
            old(bm).wf(),
            measurable(*self),
            -0x1_0000_0000 <= x <= 0x1_0000_0000,
            -0x1_0000_0000 <= y <= 0x1_0000_0000,
            0 < w <= 0x1_0000_0000,
            0 < h <= 0x1_0000_0000,
        ensures
            final(bm).wf(),
            final(bm)@ == paint_all(old(bm)@, face_ops(*self, focused, x as int, y as int, w as int, h as int)),
    {
        let ghost c0 = bm@;
        bm.fill_wide(x, y, w, h, FACE);
        let ghost mut done = seq![Op::Fill(x as int, y as int, w as int, h as int, FACE)];
        proof {
            lemma_paint_all_push(c0, Seq::empty(), Op::Fill(x as int, y as int, w as int, h as int, FACE));
            assert(Seq::<Op>::empty().push(Op::Fill(x as int, y as int, w as int, h as int, FACE)) =~= done);
        }
        // Held down: the light and shadow edges swap so the face reads
        // as sunken, and the caption shifts a pixel down-right with it.
        let (tl, br) = if self.pressed {
            (SHADOW, LIGHT)
        } else {
            (LIGHT, SHADOW)
        };
        draw_edge(bm, x, y, w, h, tl, br);
        proof {
            lemma_paint_all_append(c0, done, edge_ops(x as int, y as int, w as int, h as int, tl, br));
            done = done + edge_ops(x as int, y as int, w as int, h as int, tl, br);
        }
        let nudge: i64 = if self.pressed {
            1
        } else {
            0
        };
        let text_w = str_width(self.text.as_str()) as i64;
        let half = div_trunc(w - text_w, 2);
        let tx = x + (if half > 1 {
            half
        } else {
            1
        }) + nudge;
        let vh = div_trunc(h - GLYPH_H as i64, 2);
        let ty = y + (if vh > 0 {
            vh
        } else {
            0
        }) + nudge;
        self.draw_caption(bm, tx, ty, x + w - 2);
        proof {
            let cap = caption_ops(*self, tx as int, ty as int, x + w - 2);
            lemma_paint_all_append(c0, done, cap);
            done = done + cap;
        }
        if focused {
            dotted_rect(bm, x + 3, y + 3, w - 6, h - 6, TEXT);
            proof {
                let dots = dotted_ops(x + 3, y + 3, w - 6, h - 6, TEXT);
                lemma_paint_all_append(c0, done, dots);
                done = done + dots;
            }
        }
        proof {
            let want = face_ops(*self, focused, x as int, y as int, w as int, h as int);
            if focused {
                assert(done =~= want);
            } else {
                assert(done + Seq::<Op>::empty() =~= done);
                assert(done =~= want);
            }
        }
    }

    /// Paint a `BS_GROUPBOX`.
    fn render_group_box(&self, bm: &mut Bitmap)
        requires
            old(bm).wf(),
            measurable(*self),
        ensures
            final(bm).wf(),
            final(bm)@ == paint_all(old(bm)@, group_ops(*self)),
    {
        let ghost c0 = bm@;
        let (sx, sy, sw) = (self.x as i64, self.y as i64, self.w as i64);
        let top = sy + (GLYPH_H / 2) as i64;
        let h = self.h as i64 - (GLYPH_H / 2) as i64;
        if h <= 0 || sw <= 0 {
            return;
        }
        // Etched: the shadow rectangle with a highlight one pixel
        // down-right of it, which is what gives the groove its depth.
        stroke(bm, sx + 1, top + 1, sw, h, LIGHT);
        let ghost a = stroke_ops(self.x + 1, top + 1, self.w as int, h as int, LIGHT);
        stroke(bm, sx, top, sw, h, SHADOW);
        let ghost b = stroke_ops(self.x as int, top as int, self.w as int, h as int, SHADOW);
        proof {
            lemma_paint_all_append(c0, a, b);
        }
        let ghost frame = a + b;
        let full_w = str_width(self.text.as_str()) as i64;
        let room = sw - GROUP_LABEL_X as i64 - 2;
        let text_w = if full_w < room {
            full_w
        } else {
            room
        };
        if self.text.as_str().is_empty() || text_w <= 0 {
            return;
        }
        // Break the border under the caption, then stamp the text into
        // the gap.
        bm.fill_wide(sx + GROUP_LABEL_X as i64 - 1, top, text_w + 3, 2, FACE);
        let ghost gap = Op::Fill(self.x + GROUP_LABEL_X - 1, top as int, text_w + 3, 2, FACE);
        proof {
            lemma_paint_all_push(c0, frame, gap);
        }
        self.draw_caption(bm, sx + GROUP_LABEL_X as i64, sy, sx + sw - 1);
        proof {
            let cap = caption_ops(*self, self.x + GROUP_LABEL_X, self.y as int, self.x + self.w - 1);
            lemma_paint_all_append(c0, frame.push(gap), cap);
            assert(frame.push(gap) + cap =~= frame + seq![gap] + cap);
        }
    }

    /// Paint a check box or radio button.
    fn render_check(&self, bm: &mut Bitmap, focused: bool)
        requires
            old(bm).wf(),
            measurable(*self),
            self.w > 0,
            self.h > 0,
        ensures
            final(bm).wf(),
            final(bm)@ == paint_all(old(bm)@, check_ops(*self, focused)),
    {
        let ghost c0 = bm@;
        let (sx, sy, sw, sh) = (self.x as i64, self.y as i64, self.w as i64, self.h as i64);
        let vb = div_trunc(sh - CHECK_BOX as i64, 2);
        let box_y = sy + (if vb > 0 {
            vb
        } else {
            0
        });
        let side: i64 = if (CHECK_BOX as i64) < sh {
            CHECK_BOX as i64
        } else {
            sh
        };
        bm.fill_wide(sx, box_y, side, side, WINDOW);
        let ghost first = Op::Fill(self.x as int, box_y as int, side as int, side as int, WINDOW);
        proof {
            lemma_paint_all_push(c0, Seq::empty(), first);
        }
        let ghost mut done = Seq::<Op>::empty().push(first);
        draw_edge(bm, sx, box_y, side, side, SHADOW, LIGHT);
        proof {
            let e = edge_ops(self.x as int, box_y as int, side as int, side as int, SHADOW, LIGHT);
            lemma_paint_all_append(c0, done, e);
            done = done + e;
        }
        let ghost mut core = Seq::<Op>::empty();
        if self.checked {
            // A filled core rather than a literal tick: at 12 px with a
            // 6x8 font there is no room for a convincing check glyph.
            bm.fill_wide(sx + 3, box_y + 3, side - 6, side - 6, TEXT);
            proof {
                let op = Op::Fill(self.x + 3, box_y + 3, side - 6, side - 6, TEXT);
                lemma_paint_all_push(c0, done, op);
                core = seq![op];
                assert(done.push(op) =~= done + core);
            }
        }
        proof {
            assert(done + Seq::<Op>::empty() =~= done);
            done = done + core;
        }
        let tx = sx + side + 4;
        let vt = div_trunc(sh - GLYPH_H as i64, 2);
        let ty = sy + (if vt > 0 {
            vt
        } else {
            0
        });
        self.draw_caption(bm, tx, ty, sx + sw);
        proof {
            let cap = caption_ops(*self, tx as int, ty as int, self.x + self.w);
            lemma_paint_all_append(c0, done, cap);
            done = done + cap;
        }
        let ghost mut dots = Seq::<Op>::empty();
        if focused {
            dotted_rect(bm, tx - 2, sy, sw - side - 2, sh, TEXT);
            proof {
                dots = dotted_ops(tx - 2, self.y as int, self.w - side - 2, self.h as int, TEXT);
                lemma_paint_all_append(c0, done, dots);
            }
        }
        proof {
            assert(done + Seq::<Op>::empty() =~= done);
            assert(done + dots =~= check_ops(*self, focused));
        }
    }

    /// Paint an edit field.
    fn render_edit(&self, bm: &mut Bitmap, focused: bool)
        requires
            old(bm).wf(),
            measurable(*self),
            self.w > 0,
            self.h > 0,
        ensures
            final(bm).wf(),
            final(bm)@ == paint_all(old(bm)@, edit_ops(*self, focused)),
    {
        let ghost c0 = bm@;
        // A disabled edit takes the button face rather than the window
        // colour, which is how Win32 says "read-only" without changing
        // the text.
        let bg = if self.enabled {
            WINDOW
        } else {
            FACE
        };
        let (sx, sy, sw, sh) = (self.x as i64, self.y as i64, self.w as i64, self.h as i64);
        bm.fill_wide(sx, sy, sw, sh, bg);
        let ghost first = Op::Fill(self.x as int, self.y as int, self.w as int, self.h as int, bg);
        proof {
            lemma_paint_all_push(c0, Seq::empty(), first);
        }
        // Sunken: shadow along the top/left, highlight along the
        // bottom/right — the inverse of a raised button.
        draw_edge(bm, sx, sy, sw, sh, SHADOW, LIGHT);
        let ghost base = Seq::<Op>::empty().push(first) + edge_ops(
            self.x as int,
            self.y as int,
            self.w as int,
            self.h as int,
            SHADOW,
            LIGHT,
        );
        proof {
            lemma_paint_all_append(
                c0,
                Seq::<Op>::empty().push(first),
                edge_ops(self.x as int, self.y as int, self.w as int, self.h as int, SHADOW, LIGHT),
            );
        }
        let inner_w = sw - 6;
        if inner_w <= 0 {
            proof {
                assert(base =~= seq![first] + edge_ops(
                    self.x as int,
                    self.y as int,
                    self.w as int,
                    self.h as int,
                    SHADOW,
                    LIGHT,
                ));
            }
            return;
        }
        // `ES_AUTOHSCROLL` behaviour: once the text outruns the field
        // the caret stays visible, so it is the *tail* that shows.
        let max_chars = (inner_w / GLYPH_W as i64) as usize;
        let shown = last_chars(self.text.as_str(), max_chars);
        let vt = div_trunc(sh - GLYPH_H as i64, 2);
        let ty = sy + (if vt > 1 {
            vt
        } else {
            1
        });
        bm.text_wide(sx + 3, ty, shown.as_str(), TEXT);
        let ghost t = Op::Text(self.x + 3, ty as int, shown@, TEXT);
        proof {
            lemma_paint_all_push(c0, base, t);
        }
        let ghost mut caret = Seq::<Op>::empty();
        if focused {
            let caret_x = sx + 3 + str_width(shown.as_str()) as i64;
            if caret_x < sx + sw - 1 {
                bm.fill_wide(caret_x, ty, 1, GLYPH_H as i64, TEXT);
                proof {
                    let op = Op::Fill(caret_x as int, ty as int, 1, GLYPH_H as int, TEXT);
                    lemma_paint_all_push(c0, base.push(t), op);
                    caret = seq![op];
                    assert(base.push(t).push(op) =~= base.push(t) + caret);
                }
            }
        }
        proof {
            assert(base.push(t) + Seq::<Op>::empty() =~= base.push(t));
            assert(max_chars as int == (inner_w as int) / (GLYPH_W as int));
            assert(base.push(t) + caret =~= edit_ops(*self, focused));
        }
    }

    /// Paint a static label.
    fn render_static(&self, bm: &mut Bitmap)
        requires
            old(bm).wf(),
            measurable(*self),
        ensures
            final(bm).wf(),
            final(bm)@ == paint_all(old(bm)@, static_ops(*self)),
    {
        let vt = div_trunc(self.h as i64 - GLYPH_H as i64, 2);
        let ty = self.y as i64 + (if vt > 0 {
            vt
        } else {
            0
        });
        self.draw_caption(bm, self.x as i64, ty, self.x as i64 + self.w as i64);
    }
}

/// Does painting `p` draw its caption bar: a showing panel with a
/// caption and room inside its border?
pub open spec fn caption_drawn(p: DialogPanel) -> bool {
    let inset = if p.border {
        1int
    } else {
        0int
    };
    p.visible && p.w > 0 && p.h > 0 && p.caption is Some && p.w - 2 * inset > 0
}

/// Can this panel be painted? Where the caption bar is drawn, the
/// caption boxes' rectangles, which are `i32`s, must exist.
pub open spec fn panel_fits(p: DialogPanel) -> bool {
    caption_drawn(p) ==> help_box_fits(p)
}

/// One raised box in the caption bar, its label centred and drawn in
/// the caption blue; pressing it swaps the edge and nudges the label a
/// pixel down and right.
pub open spec fn caption_box_ops(b: (int, int, int, int), label: Seq<char>, pressed: bool) -> Seq<Op> {
    let (bx, by, bw, bh) = b;
    let tl = if pressed {
        SHADOW
    } else {
        LIGHT
    };
    let br = if pressed {
        LIGHT
    } else {
        SHADOW
    };
    let nudge = if pressed {
        1int
    } else {
        0int
    };
    let tx = bx + max2(bw - text_width(label.len() as int), 0) / 2 + nudge;
    let ty = by + tdiv(bh - GLYPH_H, 2) + nudge;
    seq![Op::Fill(bx, by, bw, bh, FACE)] + edge_ops(bx, by, bw, bh, tl, br) + clipped_ops(
        tx,
        ty,
        label,
        OK_FG,
        bx + bw - 1,
    )
}

/// The caption bar: the blue band, the title stopped short of the
/// boxes, the inert `?` box and the OK box.
pub open spec fn panel_caption_ops(p: DialogPanel) -> Seq<Op> {
    match p.caption {
        None => Seq::empty(),
        Some(title) => {
            let inset = if p.border {
                1int
            } else {
                0int
            };
            let (cx, cy) = (p.x + inset, p.y + inset);
            let cw = p.w - 2 * inset;
            if cw <= 0 {
                Seq::empty()
            } else {
                let hb = help_rect(p).unwrap();
                let ob = ok_rect(p).unwrap();
                let ty = cy + tdiv(CAPTION_H - GLYPH_H, 2);
                let right = min2(hb.0 - 2, cx + cw);
                seq![Op::Fill(cx, cy, cw, CAPTION_H as int, CAPTION_BG)] + clipped_ops(
                    cx + 3,
                    ty,
                    title@,
                    CAPTION_FG,
                    right,
                ) + caption_box_ops(hb, seq!['?'], false) + caption_box_ops(
                    ob,
                    seq!['O', 'K'],
                    p.ok_pressed,
                )
            }
        },
    }
}

/// A panel: its face, its border and its caption bar; nothing for a
/// hidden or empty one.
pub open spec fn panel_ops(p: DialogPanel) -> Seq<Op> {
    if !p.visible || p.w <= 0 || p.h <= 0 {
        Seq::empty()
    } else {
        seq![Op::Fill(p.x as int, p.y as int, p.w as int, p.h as int, FACE)] + (if p.border {
            stroke_ops(p.x as int, p.y as int, p.w as int, p.h as int, TEXT)
        } else {
            Seq::empty()
        }) + panel_caption_ops(p)
    }
}

impl DialogPanel {
    /// Paint the panel: face, border, caption bar.
    pub fn render(&self, bm: &mut Bitmap)
        requires
            old(bm).wf(),
            panel_fits(*self),
        ensures
            final(bm).wf(),
            final(bm)@ == paint_all(old(bm)@, panel_ops(*self)),
    {
        if !self.visible || self.w <= 0 || self.h <= 0 {
            return;
        }
        let ghost c0 = bm@;
        bm.fill_wide(self.x as i64, self.y as i64, self.w as i64, self.h as i64, FACE);
        let ghost first = Op::Fill(self.x as int, self.y as int, self.w as int, self.h as int, FACE);
        proof {
            lemma_paint_all_push(c0, Seq::empty(), first);
        }
        let ghost mut done = Seq::<Op>::empty().push(first);
        let ghost mut border = Seq::<Op>::empty();
        if self.border {
            stroke(bm, self.x as i64, self.y as i64, self.w as i64, self.h as i64, TEXT);
            proof {
                border = stroke_ops(self.x as int, self.y as int, self.w as int, self.h as int, TEXT);
                lemma_paint_all_append(c0, done, border);
            }
        }
        proof {
            assert(done + Seq::<Op>::empty() =~= done);
            done = done + border;
        }
        self.render_caption(bm);
        proof {
            lemma_paint_all_append(c0, done, panel_caption_ops(*self));
            assert(done + panel_caption_ops(*self) =~= panel_ops(*self));
        }
    }

    /// Paint the caption bar and its OK box.
    fn render_caption(&self, bm: &mut Bitmap)
        requires
            old(bm).wf(),
            panel_fits(*self),
            self.visible && self.w > 0 && self.h > 0,
        ensures
            final(bm).wf(),
            final(bm)@ == paint_all(old(bm)@, panel_caption_ops(*self)),
    {
        let title = match &self.caption {
            Some(t) => t,
            None => return,
        };
        let ghost c0 = bm@;
        let inset: i64 = if self.border {
            1
        } else {
            0
        };
        let (cx, cy) = (self.x as i64 + inset, self.y as i64 + inset);
        let cw = self.w as i64 - 2 * inset;
        if cw <= 0 {
            return;
        }
        bm.fill_wide(cx, cy, cw, CAPTION_H as i64, CAPTION_BG);
        let ghost first = Op::Fill(cx as int, cy as int, cw as int, CAPTION_H as int, CAPTION_BG);
        proof {
            lemma_paint_all_push(c0, Seq::empty(), first);
        }
        let ghost mut done = Seq::<Op>::empty().push(first);
        let ty = cy + ((CAPTION_H - GLYPH_H) / 2) as i64;
        // Stop the title before the boxes rather than under them.
        let (hx, hy, hw, hh) = match self.help_box() {
            Some(b) => b,
            None => return,
        };
        let right = if (hx as i64) - 2 < cx + cw {
            hx as i64 - 2
        } else {
            cx + cw
        };
        draw_clipped(bm, cx + 3, ty, title.as_str(), CAPTION_FG, right);
        proof {
            let t = clipped_ops(cx + 3, ty as int, title@, CAPTION_FG, right as int);
            lemma_paint_all_append(c0, done, t);
            done = done + t;
        }
        proof {
            reveal_strlit("?");
            assert("?"@ =~= seq!['?']);
        }
        render_caption_box(bm, hx as i64, hy as i64, hw as i64, hh as i64, "?", false);
        proof {
            let b = caption_box_ops((hx as int, hy as int, hw as int, hh as int), seq!['?'], false);
            lemma_paint_all_append(c0, done, b);
            done = done + b;
        }
        let (ox, oy, ow, oh) = match self.ok_box() {
            Some(b) => b,
            None => return,
        };
        proof {
            reveal_strlit("OK");
            assert("OK"@ =~= seq!['O', 'K']);
        }
        render_caption_box(bm, ox as i64, oy as i64, ow as i64, oh as i64, "OK", self.ok_pressed);
        proof {
            let b = caption_box_ops((ox as int, oy as int, ow as int, oh as int), seq!['O', 'K'], self.ok_pressed);
            lemma_paint_all_append(c0, done, b);
            done = done + b;
            assert(done =~= panel_caption_ops(*self));
        }
    }
}

/// One raised box in the caption bar, with its label centred.
fn render_caption_box(bm: &mut Bitmap, bx: i64, by: i64, bw: i64, bh: i64, label: &str, pressed: bool)
    requires
        old(bm).wf(),
        -0x1_0000_0000 <= bx <= 0x1_0000_0000,
        -0x1_0000_0000 <= by <= 0x1_0000_0000,
        0 < bw <= 16,
        0 < bh <= 16,
        label@.len() <= 2,
    ensures
        final(bm).wf(),
        final(bm)@ == paint_all(old(bm)@, caption_box_ops((bx as int, by as int, bw as int, bh as int), label@, pressed)),
{
    let ghost c0 = bm@;
    bm.fill_wide(bx, by, bw, bh, FACE);
    let ghost first = Op::Fill(bx as int, by as int, bw as int, bh as int, FACE);
    proof {
        lemma_paint_all_push(c0, Seq::empty(), first);
    }
    let ghost mut done = Seq::<Op>::empty().push(first);
    let (tl, br) = if pressed {
        (SHADOW, LIGHT)
    } else {
        (LIGHT, SHADOW)
    };
    draw_edge(bm, bx, by, bw, bh, tl, br);
    proof {
        let e = edge_ops(bx as int, by as int, bw as int, bh as int, tl, br);
        lemma_paint_all_append(c0, done, e);
        done = done + e;
    }
    let nudge: i64 = if pressed {
        1
    } else {
        0
    };
    let lw = str_width(label) as i64;
    let spare = if bw - lw > 0 {
        bw - lw
    } else {
        0
    };
    let tx = bx + spare / 2 + nudge;
    let ty = by + div_trunc(bh - GLYPH_H as i64, 2) + nudge;
    draw_clipped(bm, tx, ty, label, OK_FG, bx + bw - 1);
    proof {
        let t = clipped_ops(tx as int, ty as int, label@, OK_FG, bx + bw - 1);
        lemma_paint_all_append(c0, done, t);
        done = done + t;
        assert(done =~= caption_box_ops((bx as int, by as int, bw as int, bh as int), label@, pressed));
    }
}

/// `c` moved by `o`.
pub open spec fn translated(c: ChildWindow, o: (int, int)) -> ChildWindow {
    ChildWindow { x: (c.x + o.0) as i32, y: (c.y + o.1) as i32, ..c }
}

/// Does a pass that paints the children of `owner` — a panel, or
/// (`None`) any window that is not a panel — take `c`?
pub open spec fn owned_by_pass(s: ControlsView, owner: Option<u32>, c: ChildWindow) -> bool {
    match owner {
        Some(h) => c.parent == h,
        None => find_panel(s.panels, c.parent) is None,
    }
}

/// One pass over the first `n` children: each showing child of
/// `owner` that is (or, for the second pass, is not) a group box,
/// painted at its screen position.
pub open spec fn pass_ops(s: ControlsView, owner: Option<u32>, group_pass: bool, n: nat) -> Seq<Op>
    decreases n,
{
    if n == 0 {
        Seq::empty()
    } else {
        let c = s.children[n - 1];
        pass_ops(s, owner, group_pass, (n - 1) as nat) + if is_group_box_spec(c) == group_pass
            && owned_by_pass(s, owner, c) && showing(s, c) {
            child_ops(translated(c, parent_origin_of(s, c.parent)), c.hwnd == s.focus)
        } else {
            Seq::empty()
        }
    }
}

/// The children of `owner`, group boxes first: a frame is backdrop to
/// the controls it encloses.
pub open spec fn children_ops(s: ControlsView, owner: Option<u32>) -> Seq<Op> {
    pass_ops(s, owner, true, s.children.len()) + pass_ops(s, owner, false, s.children.len())
}

/// The first `k` panels, each followed by its own children.
pub open spec fn panels_ops(s: ControlsView, k: nat) -> Seq<Op>
    decreases k,
{
    if k == 0 {
        Seq::empty()
    } else {
        panels_ops(s, (k - 1) as nat) + panel_ops(s.panels[k - 1]) + children_ops(
            s,
            Some(s.panels[k - 1].hwnd),
        )
    }
}

/// Everything the control set paints: the children of frame windows,
/// then each panel in creation order with its children over it, so a
/// dialog opened later covers the one beneath.
pub open spec fn controls_ops(s: ControlsView) -> Seq<Op> {
    children_ops(s, None) + panels_ops(s, s.panels.len())
}

/// Can every control and panel of `s` be painted without a coordinate
/// leaving `i32`?
pub open spec fn controls_fit(s: ControlsView) -> bool {
    &&& forall|i: int|
        0 <= i < s.children.len() && showing(s, #[trigger] s.children[i]) ==> {
            let c = s.children[i];
            let o = parent_origin_of(s, c.parent);
            &&& child_fits(c)
            &&& i32::MIN <= c.x + o.0 <= i32::MAX
            &&& i32::MIN <= c.y + o.1 <= i32::MAX
        }
    &&& forall|k: int| 0 <= k < s.panels.len() ==> panel_fits(#[trigger] s.panels[k])
}

impl Controls {
    /// Paint every visible control over whatever the application drew.
    ///
    /// Controls belonging to a dialog panel are painted with the panel,
    /// and the panels in creation order, so a dialog opened later covers
    /// the one it was opened from — and the controls of the one beneath
    /// with it.
    pub fn render(&self, bm: &mut Bitmap)
        requires
            old(bm).wf(),
            controls_fit(self@),
        ensures
            final(bm).wf(),
            final(bm)@ == paint_all(old(bm)@, controls_ops(self@)),
    {
        let ghost c0 = bm@;
        // Children of a frame window, which no panel owns.
        self.render_children_of(bm, None);
        let ghost mut done = children_ops(self@, None);
        let mut k: usize = 0;
        while k < self.panels.len()
            invariant
                bm.wf(),
                controls_fit(self@),
                k <= self@.panels.len(),
                self@.panels == self.panels@,
                bm@ == paint_all(c0, children_ops(self@, None) + panels_ops(self@, k as nat)),
            decreases self@.panels.len() - k,
        {
            let ghost before = children_ops(self@, None) + panels_ops(self@, k as nat);
            let panel = &self.panels[k];
            panel.render(bm);
            proof {
                lemma_paint_all_append(c0, before, panel_ops(*panel));
            }
            self.render_children_of(bm, Some(panel.hwnd));
            proof {
                let kids = children_ops(self@, Some(panel.hwnd));
                lemma_paint_all_append(c0, before + panel_ops(*panel), kids);
                assert(before + panel_ops(*panel) + kids =~= children_ops(self@, None) + panels_ops(
                    self@,
                    (k + 1) as nat,
                ));
            }
            k = k + 1;
        }
    }

    /// Paint every showing child of `owner`, group boxes first.
    fn render_children_of(&self, bm: &mut Bitmap, owner: Option<u32>)
        requires
            old(bm).wf(),
            controls_fit(self@),
        ensures
            final(bm).wf(),
            final(bm)@ == paint_all(old(bm)@, children_ops(self@, owner)),
    {
        let ghost c0 = bm@;
        self.render_pass(bm, owner, true);
        self.render_pass(bm, owner, false);
        proof {
            lemma_paint_all_append(
                c0,
                pass_ops(self@, owner, true, self@.children.len()),
                pass_ops(self@, owner, false, self@.children.len()),
            );
        }
    }

    /// One pass of `render_children_of`.
    fn render_pass(&self, bm: &mut Bitmap, owner: Option<u32>, group_pass: bool)
        requires
            old(bm).wf(),
            controls_fit(self@),
        ensures
            final(bm).wf(),
            final(bm)@ == paint_all(old(bm)@, pass_ops(self@, owner, group_pass, self@.children.len())),
    {
        let ghost c0 = bm@;
        let mut i: usize = 0;
        while i < self.children.len()
            invariant
                bm.wf(),
                controls_fit(self@),
                i <= self@.children.len(),
                self@.children == self.children@,
                bm@ == paint_all(c0, pass_ops(self@, owner, group_pass, i as nat)),
            decreases self@.children.len() - i,
        {
            let ghost before = pass_ops(self@, owner, group_pass, i as nat);
            let child = &self.children[i];
            let owned = match owner {
                Some(h) => child.parent == h,
                None => self.panel_index(child.parent).is_none(),
            };
            if child.is_group_box() == group_pass && owned && self.is_showing(child) {
                let (ox, oy) = self.parent_origin(child.parent);
                let focused = child.hwnd == self.focus;
                let ghost o = parent_origin_of(self@, child.parent);
                proof {
                    crate::controls::lemma_panel_pos(self@.panels, child.parent, self@.panels.len());
                    assert(showing(self@, self@.children[i as int]));
                }
                let mut moved = child.clone();
                moved.x = (child.x as i64 + ox) as i32;
                moved.y = (child.y as i64 + oy) as i32;
                assert(moved == translated(*child, o));
                moved.render(bm, focused);
                proof {
                    let ops = child_ops(translated(*child, o), child.hwnd == self@.focus);
                    lemma_paint_all_append(c0, before, ops);
                    assert(before + ops =~= pass_ops(self@, owner, group_pass, (i + 1) as nat));
                }
            } else {
                proof {
                    assert(before + Seq::<Op>::empty() =~= pass_ops(self@, owner, group_pass, (i + 1) as nat));
                }
            }
            i = i + 1;
        }
    }
}

/// Does `op` paint only inside `r`?
pub open spec fn op_within(op: Op, r: (int, int, int, int)) -> bool {
    match op {
        Op::Fill(x, y, w, h, _) => w <= 0 || h <= 0 || (r.0 <= x && x + w <= r.0 + r.2 && r.1 <= y && y
            + h <= r.1 + r.3),
        Op::Dot(x, y, _) => r.0 <= x < r.0 + r.2 && r.1 <= y < r.1 + r.3,
        Op::Text(x, y, t, _) => t.len() == 0 || (r.0 <= x && x + GLYPH_W * t.len() - 1 <= r.0 + r.2
            && r.1 <= y && y + GLYPH_H - 1 <= r.1 + r.3),
    }
}

/// Does every op of `ops` paint only inside `r`?
pub open spec fn all_within(ops: Seq<Op>, r: (int, int, int, int)) -> bool {
    forall|k: int| 0 <= k < ops.len() ==> op_within(#[trigger] ops[k], r)
}

proof fn lemma_within_lit(op: Op, r: (int, int, int, int), x: int, y: int)
    requires
        op_within(op, r),
        lit(op, x, y),
    ensures
        r.0 <= x < r.0 + r.2 && r.1 <= y < r.1 + r.3,
{
    if let Op::Text(tx, ty, t, _) = op {
        let dx = x - tx;
        assert(dx / 6 < t.len());
        assert(dx % 6 < 5);
        assert(dx <= 6 * t.len() - 2);
    }
}

/// Painting ops that all lie inside `r` leaves every pixel outside `r`
/// as it was.
pub proof fn lemma_painting_within_leaves_the_rest(c: Canvas, ops: Seq<Op>, r: (int, int, int, int), x: int, y: int)
    requires
        canvas_wf(c),
        all_within(ops, r),
        0 <= y < c.height,
        0 <= x < c.width,
        !(r.0 <= x < r.0 + r.2 && r.1 <= y < r.1 + r.3),
    ensures
        paint_all(c, ops).rows[y][x] == c.rows[y][x],
{
    assert forall|k: int| 0 <= k < ops.len() implies !lit(#[trigger] ops[k], x, y) by {
        if lit(ops[k], x, y) {
            lemma_within_lit(ops[k], r, x, y);
        }
    }
    lemma_paint_all_untouched(c, ops, x, y);
}

proof fn lemma_within_concat(a: Seq<Op>, b: Seq<Op>, r: (int, int, int, int))
    requires
        all_within(a, r),
        all_within(b, r),
    ensures
        all_within(a + b, r),
{
    assert forall|k: int| 0 <= k < (a + b).len() implies op_within(#[trigger] (a + b)[k], r) by {
        if k < a.len() {
            assert((a + b)[k] == a[k]);
        } else {
            assert((a + b)[k] == b[k - a.len()]);
        }
    }
}

/// Is `(x, y, w, h)` inside `r`?
pub open spec fn rect_inside(x: int, y: int, w: int, h: int, r: (int, int, int, int)) -> bool {
    r.0 <= x && x + w <= r.0 + r.2 && r.1 <= y && y + h <= r.1 + r.3
}

proof fn lemma_edge_within(x: int, y: int, w: int, h: int, tl: u16, br: u16, r: (int, int, int, int))
    requires
        w <= 0 || h <= 0 || rect_inside(x, y, w, h, r),
    ensures
        all_within(edge_ops(x, y, w, h, tl, br), r),
{
}

proof fn lemma_dotted_rows_within(x: int, y: int, w: int, h: int, c: u16, n: nat, r: (int, int, int, int))
    requires
        n <= w,
        w > 0,
        h > 0,
        rect_inside(x, y, w, h, r),
    ensures
        all_within(dotted_rows(x, y, h, c, n), r),
    decreases n,
{
    if n > 0 {
        lemma_dotted_rows_within(x, y, w, h, c, (n - 1) as nat, r);
        let i = n - 1;
        let a = if (x + i + y) % 2 == 0 {
            seq![Op::Dot(x + i, y, c)]
        } else {
            Seq::empty()
        };
        let b = if (x + i + y + h - 1) % 2 == 0 {
            seq![Op::Dot(x + i, y + h - 1, c)]
        } else {
            Seq::empty()
        };
        lemma_within_concat(dotted_rows(x, y, h, c, (n - 1) as nat), a, r);
        lemma_within_concat(dotted_rows(x, y, h, c, (n - 1) as nat) + a, b, r);
    }
}

proof fn lemma_dotted_cols_within(x: int, y: int, w: int, h: int, c: u16, n: nat, r: (int, int, int, int))
    requires
        n <= h,
        w > 0,
        h > 0,
        rect_inside(x, y, w, h, r),
    ensures
        all_within(dotted_cols(x, y, w, c, n), r),
    decreases n,
{
    if n > 0 {
        lemma_dotted_cols_within(x, y, w, h, c, (n - 1) as nat, r);
        let j = n - 1;
        let a = if (x + y + j) % 2 == 0 {
            seq![Op::Dot(x, y + j, c)]
        } else {
            Seq::empty()
        };
        let b = if (x + w - 1 + y + j) % 2 == 0 {
            seq![Op::Dot(x + w - 1, y + j, c)]
        } else {
            Seq::empty()
        };
        lemma_within_concat(dotted_cols(x, y, w, c, (n - 1) as nat), a, r);
        lemma_within_concat(dotted_cols(x, y, w, c, (n - 1) as nat) + a, b, r);
    }
}

proof fn lemma_dotted_within(x: int, y: int, w: int, h: int, c: u16, r: (int, int, int, int))
    requires
        w <= 0 || h <= 0 || rect_inside(x, y, w, h, r),
    ensures
        all_within(dotted_ops(x, y, w, h, c), r),
{
    if w > 0 && h > 0 {
        lemma_dotted_rows_within(x, y, w, h, c, w as nat, r);
        lemma_dotted_cols_within(x, y, w, h, c, h as nat, r);
        lemma_within_concat(dotted_rows(x, y, h, c, w as nat), dotted_cols(x, y, w, c, h as nat), r);
    }
}

proof fn lemma_clipped_within(x: int, y: int, text: Seq<char>, c: u16, right: int, r: (int, int, int, int))
    requires
        r.0 <= x,
        right <= r.0 + r.2 + 1,
        r.1 <= y,
        y + GLYPH_H - 1 <= r.1 + r.3,
    ensures
        all_within(clipped_ops(x, y, text, c, right), r),
{
    let room = max2(right - x, 0);
    let n = room / GLYPH_W as int;
    if n > 0 {
        let t = text.take(min2(n, text.len() as int));
        assert(6 * n <= room);
        assert(t.len() <= n);
    }
}

proof fn lemma_caption_within(c: ChildWindow, x: int, y: int, right: int, r: (int, int, int, int))
    requires
        r.0 <= x,
        right <= r.0 + r.2,
        r.1 <= y,
        y + GLYPH_H <= r.1 + r.3,
    ensures
        all_within(caption_ops(c, x, y, right), r),
{
    if c.enabled {
        lemma_clipped_within(x, y, c.text@, TEXT, right, r);
    } else {
        lemma_clipped_within(x + 1, y + 1, c.text@, LIGHT, right + 1, r);
        lemma_clipped_within(x, y, c.text@, SHADOW, right, r);
        lemma_within_concat(
            clipped_ops(x + 1, y + 1, c.text@, LIGHT, right + 1),
            clipped_ops(x, y, c.text@, SHADOW, right),
            r,
        );
    }
}

proof fn lemma_face_within(c: ChildWindow, focused: bool, x: int, y: int, w: int, h: int, r: (int, int, int, int))
    requires
        w > 0,
        h >= 10,
        rect_inside(x, y, w, h, r),
    ensures
        all_within(face_ops(c, focused, x, y, w, h), r),
{
    let nudge = if c.pressed {
        1int
    } else {
        0int
    };
    let tl = if c.pressed {
        SHADOW
    } else {
        LIGHT
    };
    let br = if c.pressed {
        LIGHT
    } else {
        SHADOW
    };
    let tx = x + max2(tdiv(w - text_width(c.text@.len() as int), 2), 1) + nudge;
    let ty = y + max2(tdiv(h - GLYPH_H, 2), 0) + nudge;
    assert(tdiv(h - GLYPH_H, 2) == (h - GLYPH_H) / 2);
    let first = seq![Op::Fill(x, y, w, h, FACE)];
    lemma_edge_within(x, y, w, h, tl, br, r);
    lemma_caption_within(c, tx, ty, x + w - 2, r);
    lemma_within_concat(first, edge_ops(x, y, w, h, tl, br), r);
    lemma_within_concat(first + edge_ops(x, y, w, h, tl, br), caption_ops(c, tx, ty, x + w - 2), r);
    let dots = if focused {
        dotted_ops(x + 3, y + 3, w - 6, h - 6, TEXT)
    } else {
        Seq::empty()
    };
    lemma_dotted_within(x + 3, y + 3, w - 6, h - 6, TEXT, r);
    lemma_within_concat(
        first + edge_ops(x, y, w, h, tl, br) + caption_ops(c, tx, ty, x + w - 2),
        dots,
        r,
    );
}

/// A control at least ten pixels tall that is not a group box paints
/// only inside its own rectangle — a check box or radio button also
/// needs the width of its box — so whatever lies around it survives.
/// (A group box's etched highlight runs one pixel outside its frame.)
pub proof fn lemma_controls_paint_inside_themselves(c: ChildWindow, focused: bool)
    requires
        !is_group_box_spec(c),
        c.h >= 10,
        is_check_like_spec(c) ==> c.w >= CHECK_BOX,
    ensures
        all_within(child_ops(c, focused), (c.x as int, c.y as int, c.w as int, c.h as int)),
{
    let r = (c.x as int, c.y as int, c.w as int, c.h as int);
    let (x, y, w, h) = r;
    if !c.visible || c.w <= 0 || c.h <= 0 {
        return;
    }
    match c.class {
        ControlClass::Button => {
            if is_check_like_spec(c) {
                let box_y = y + max2(tdiv(h - CHECK_BOX, 2), 0);
                let side = min2(CHECK_BOX as int, h);
                let tx = x + side + 4;
                let ty = y + max2(tdiv(h - GLYPH_H, 2), 0);
                assert(tdiv(h - GLYPH_H, 2) == (h - GLYPH_H) / 2);
                if h >= CHECK_BOX {
                    assert(tdiv(h - CHECK_BOX, 2) == (h - CHECK_BOX) / 2);
                }
                let a = seq![Op::Fill(x, box_y, side, side, WINDOW)];
                let e = edge_ops(x, box_y, side, side, SHADOW, LIGHT);
                let core = if c.checked {
                    seq![Op::Fill(x + 3, box_y + 3, side - 6, side - 6, TEXT)]
                } else {
                    Seq::empty()
                };
                let cap = caption_ops(c, tx, ty, x + w);
                let dots = if focused {
                    dotted_ops(tx - 2, y, w - side - 2, h, TEXT)
                } else {
                    Seq::empty()
                };
                lemma_edge_within(x, box_y, side, side, SHADOW, LIGHT, r);
                lemma_caption_within(c, tx, ty, x + w, r);
                lemma_dotted_within(tx - 2, y, w - side - 2, h, TEXT, r);
                lemma_within_concat(a, e, r);
                lemma_within_concat(a + e, core, r);
                lemma_within_concat(a + e + core, cap, r);
                lemma_within_concat(a + e + core + cap, dots, r);
            } else {
                if button_kind(c) == Some(BS_DEFPUSHBUTTON) {
                    lemma_edge_within(x, y, w, h, TEXT, TEXT, r);
                    if !(w - 2 <= 0 || h - 2 <= 0) {
                        if h - 2 >= 10 {
                            lemma_face_within(c, focused, x + 1, y + 1, w - 2, h - 2, r);
                        } else {
                            lemma_face_small_within(c, focused, x + 1, y + 1, w - 2, h - 2, r);
                        }
                        lemma_within_concat(
                            stroke_ops(x, y, w, h, TEXT),
                            face_ops(c, focused, x + 1, y + 1, w - 2, h - 2),
                            r,
                        );
                    }
                } else {
                    lemma_face_within(c, focused, x, y, w, h, r);
                }
            }
        },
        ControlClass::Edit => {
            let bg = if c.enabled {
                WINDOW
            } else {
                FACE
            };
            let base = seq![Op::Fill(x, y, w, h, bg)] + edge_ops(x, y, w, h, SHADOW, LIGHT);
            lemma_edge_within(x, y, w, h, SHADOW, LIGHT, r);
            lemma_within_concat(seq![Op::Fill(x, y, w, h, bg)], edge_ops(x, y, w, h, SHADOW, LIGHT), r);
            let inner_w = w - 6;
            if inner_w > 0 {
                let max_chars = inner_w / GLYPH_W as int;
                let shown = edit_shown(c.text@, max_chars);
                assert(shown.len() <= max_chars);
                assert(6 * max_chars <= inner_w);
                let ty = y + max2(tdiv(h - GLYPH_H, 2), 1);
                assert(tdiv(h - GLYPH_H, 2) == (h - GLYPH_H) / 2);
                let caret_x = x + 3 + text_width(shown.len() as int);
                let t = seq![Op::Text(x + 3, ty, shown, TEXT)];
                let caret = if focused && caret_x < x + w - 1 {
                    seq![Op::Fill(caret_x, ty, 1, GLYPH_H as int, TEXT)]
                } else {
                    Seq::empty()
                };
                lemma_within_concat(base, t, r);
                lemma_within_concat(base + t, caret, r);
            }
        },
        ControlClass::Static => {
            let ty = y + max2(tdiv(h - GLYPH_H, 2), 0);
            assert(tdiv(h - GLYPH_H, 2) == (h - GLYPH_H) / 2);
            lemma_caption_within(c, x, ty, x + w, r);
        },
    }
}

proof fn lemma_face_small_within(c: ChildWindow, focused: bool, x: int, y: int, w: int, h: int, r: (int, int, int, int))
    requires
        w > 0,
        8 <= h < 10,
        rect_inside(x - 1, y - 1, w + 2, h + 2, r),
    ensures
        all_within(face_ops(c, focused, x, y, w, h), r),
{
    let nudge = if c.pressed {
        1int
    } else {
        0int
    };
    let tl = if c.pressed {
        SHADOW
    } else {
        LIGHT
    };
    let br = if c.pressed {
        LIGHT
    } else {
        SHADOW
    };
    let tx = x + max2(tdiv(w - text_width(c.text@.len() as int), 2), 1) + nudge;
    let ty = y + max2(tdiv(h - GLYPH_H, 2), 0) + nudge;
    assert(tdiv(h - GLYPH_H, 2) == (h - GLYPH_H) / 2);
    let first = seq![Op::Fill(x, y, w, h, FACE)];
    lemma_edge_within(x, y, w, h, tl, br, r);
    lemma_caption_within(c, tx, ty, x + w - 2, r);
    lemma_within_concat(first, edge_ops(x, y, w, h, tl, br), r);
    lemma_within_concat(first + edge_ops(x, y, w, h, tl, br), caption_ops(c, tx, ty, x + w - 2), r);
    let dots = if focused {
        dotted_ops(x + 3, y + 3, w - 6, h - 6, TEXT)
    } else {
        Seq::empty()
    };
    lemma_dotted_within(x + 3, y + 3, w - 6, h - 6, TEXT, r);
    lemma_within_concat(
        first + edge_ops(x, y, w, h, tl, br) + caption_ops(c, tx, ty, x + w - 2),
        dots,
        r,
    );
}

/// A hidden control, or one with no width or height — created `0x0`
/// and sized later — paints nothing at all.
pub proof fn lemma_empty_controls_paint_nothing(c: ChildWindow, focused: bool)
    requires
        !c.visible || c.w <= 0 || c.h <= 0,
    ensures
        child_ops(c, focused) == Seq::<Op>::empty(),
{
}

} // verus!
