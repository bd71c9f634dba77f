//! What holds of every message box and every tap on one.
use vstd::prelude::*;

use crate::controls::in_rect;
use crate::msgbox::{
    box_layout, button_rect, icon_of, icon_side, imax, presses_set, released_on, tdiv, MsgBoxButton,
    MsgBoxIcon, BUTTON_GAP, BUTTON_H, CAPTION_H, ICON_GAP, PAD, button_set, chunk_fold, chunk_step,
    paras_fold, split_on, trim_cr, word_step, words_fold, wrapped, WrapState, mb, id,
    cancel_result_of, default_result_of, MessageBox,
};

verus! {

/// Does the screen have room for the box at the size its text and
/// buttons ask for?
pub open spec fn has_room(text: Seq<char>, caption: Seq<char>, u_type: u32, screen_w: int, screen_h: int) -> bool {
    let icon = icon_of(u_type);
    let l = box_layout(text, caption, u_type, screen_w, screen_h);
    let text_h = imax((l.lines.len() * 10) as int, 8);
    let body_h = imax(text_h, icon_side(icon));
    let gap = if icon != MsgBoxIcon::NoIcon {
        ICON_GAP as int
    } else {
        0
    };
    &&& l.buttons_w + 2 * PAD + 2 <= screen_w
    &&& CAPTION_H + PAD + body_h + PAD + BUTTON_H + PAD + 2 <= screen_h
}

/// A box is never larger than the screen, never starts off it, and is
/// centred on it to within a pixel of rounding.
pub proof fn lemma_box_fits_and_is_centred(text: Seq<char>, caption: Seq<char>, u_type: u32, screen_w: int, screen_h: int)
    requires
        screen_w >= 0,
        screen_h >= 0,
    ensures
        ({
            let l = box_layout(text, caption, u_type, screen_w, screen_h);
            &&& l.w <= screen_w && l.h <= screen_h
            &&& l.x >= 0 && l.y >= 0
            &&& l.w >= 0 ==> l.x + l.w <= screen_w
            &&& l.h >= 0 ==> l.y + l.h <= screen_h
            &&& l.w >= 0 ==> -1 <= 2 * l.x + l.w - screen_w <= 1
            &&& l.h >= 0 ==> -1 <= 2 * l.y + l.h - screen_h <= 1
        }),
{
}

/// When the screen has room for the box, every button lies inside the
/// box's frame.
pub proof fn lemma_buttons_inside_the_frame(text: Seq<char>, caption: Seq<char>, u_type: u32, screen_w: int, screen_h: int, k: int)
    requires
        screen_w >= 0,
        screen_h >= 0,
        has_room(text, caption, u_type, screen_w, screen_h),
        0 <= k < button_set(u_type).len(),
    ensures
        ({
            let l = box_layout(text, caption, u_type, screen_w, screen_h);
            let bx = l.row_x + k * (l.button_w + BUTTON_GAP);
            &&& l.x <= bx && bx + l.button_w <= l.x + l.w
            &&& l.y <= l.row_y && l.row_y + BUTTON_H <= l.y + l.h
        }),
{
    let l = box_layout(text, caption, u_type, screen_w, screen_h);
    let n = button_set(u_type).len() as int;
    assert(l.buttons_w == l.button_w * n + BUTTON_GAP * (n - 1));
    assert(k * (l.button_w + BUTTON_GAP) + l.button_w <= l.buttons_w) by (nonlinear_arith)
        requires
            0 <= k < n,
            l.button_w >= 0,
            l.buttons_w == l.button_w * n + BUTTON_GAP * (n - 1),
            BUTTON_GAP >= 0,
    ;
    assert(k * (l.button_w + BUTTON_GAP) >= 0) by (nonlinear_arith)
        requires
            0 <= k,
            l.button_w >= 0,
            BUTTON_GAP >= 0,
    ;
}

/// Pressing on a button and releasing on the same spot chooses that
/// button — the last one under the stylus, should buttons overlap.
pub proof fn lemma_press_and_release_chooses(bs: Seq<MsgBoxButton>, px: int, py: int, k: int)
    requires
        0 <= k < bs.len(),
        in_rect(button_rect(bs[k]), px, py),
        forall|j: int| k < j < bs.len() ==> !in_rect(button_rect(#[trigger] bs[j]), px, py),
    ensures
        released_on(presses_set(bs, px, py), px, py) == Some(bs[k].result),
    decreases bs.len(),
{
    let p = presses_set(bs, px, py);
    if k < bs.len() - 1 {
        assert(presses_set(bs.drop_last(), px, py) =~= p.drop_last());
        assert(!in_rect(button_rect(bs.last()), px, py));
        assert(!p.last().pressed);
        lemma_press_and_release_chooses(bs.drop_last(), px, py, k);
    }
}

/// A press released away from the button it landed on is abandoned:
/// releasing picks nothing.
pub proof fn lemma_release_elsewhere_chooses_nothing(bs: Seq<MsgBoxButton>, px: int, py: int, qx: int, qy: int)
    requires
        forall|j: int|
            0 <= j < bs.len() && in_rect(button_rect(#[trigger] bs[j]), px, py) ==> !in_rect(
                button_rect(bs[j]),
                qx,
                qy,
            ),
    ensures
        released_on(presses_set(bs, px, py), qx, qy) is None,
    decreases bs.len(),
{
    let p = presses_set(bs, px, py);
    if bs.len() > 0 {
        assert(presses_set(bs.drop_last(), px, py) =~= p.drop_last());
        assert forall|j: int|
            0 <= j < bs.drop_last().len() && in_rect(button_rect(#[trigger] bs.drop_last()[j]), px, py)
                implies !in_rect(button_rect(bs.drop_last()[j]), qx, qy) by {
            assert(bs.drop_last()[j] == bs[j]);
        }
        lemma_release_elsewhere_chooses_nothing(bs.drop_last(), px, py, qx, qy);
        assert(bs[bs.len() - 1] == bs.last());
    }
}

/// Does wrapping keep `c` where it was? Spaces become line breaks or
/// single separators; every other character of a paragraph stays.
pub open spec fn kept_by_wrap(c: char) -> bool {
    c != ' '
}

/// The text's paragraphs: its pieces between line feeds, each without
/// its trailing carriage returns.
pub open spec fn paragraphs(text: Seq<char>) -> Seq<Seq<char>> {
    split_on(text, '\n').map_values(|p: Seq<char>| trim_cr(p))
}

/// The characters of `s` that wrapping keeps, in order.
pub open spec fn visible(s: Seq<char>) -> Seq<char>
    decreases s.len(),
{
    if s.len() == 0 {
        Seq::empty()
    } else if kept_by_wrap(s.last()) {
        visible(s.drop_last()).push(s.last())
    } else {
        visible(s.drop_last())
    }
}

/// The kept characters of every line, one line after another.
pub open spec fn visible_lines(ls: Seq<Seq<char>>) -> Seq<char>
    decreases ls.len(),
{
    if ls.len() == 0 {
        Seq::empty()
    } else {
        visible_lines(ls.drop_last()) + visible(ls.last())
    }
}

proof fn lemma_visible_push(s: Seq<char>, c: char)
    ensures
        visible(s.push(c)) == if kept_by_wrap(c) {
            visible(s).push(c)
        } else {
            visible(s)
        },
{
    assert(s.push(c).drop_last() =~= s);
}

proof fn lemma_visible_lines_push(ls: Seq<Seq<char>>, l: Seq<char>)
    ensures
        visible_lines(ls.push(l)) == visible_lines(ls) + visible(l),
{
    assert(ls.push(l).drop_last() =~= ls);
}

proof fn lemma_visible_add(a: Seq<char>, b: Seq<char>)
    ensures
        visible(a + b) == visible(a) + visible(b),
    decreases b.len(),
{
    if b.len() == 0 {
        assert(a + b =~= a);
        assert(visible(a) + visible(b) =~= visible(a));
    } else {
        lemma_visible_add(a, b.drop_last());
        assert((a + b).drop_last() =~= a + b.drop_last());
        assert((a + b).last() == b.last());
        if kept_by_wrap(b.last()) {
            assert(visible(a) + visible(b) =~= (visible(a) + visible(b.drop_last())).push(b.last()));
        } else {
            assert(visible(b) == visible(b.drop_last()));
        }
    }
}

proof fn lemma_split_on_nonempty(s: Seq<char>, sep: char)
    ensures
        split_on(s, sep).len() >= 1,
    decreases s.len(),
{
    if s.len() > 0 {
        lemma_split_on_nonempty(s.drop_last(), sep);
    }
}

/// Splitting at a character wrapping drops anyway loses nothing kept.
proof fn lemma_visible_split(s: Seq<char>, sep: char)
    requires
        !kept_by_wrap(sep),
    ensures
        visible_lines(split_on(s, sep)) == visible(s),
    decreases s.len(),
{
    if s.len() == 0 {
        let r = split_on(s, sep);
        let e = Seq::<char>::empty();
        assert(r == seq![e]);
        assert(r.drop_last() =~= Seq::<Seq<char>>::empty());
        assert(r.last() == e);
        assert(visible(e) =~= e);
        assert(visible_lines(Seq::<Seq<char>>::empty()) =~= e);
        assert(visible_lines(r) =~= e);
    } else {
        let t = s.drop_last();
        let c = s.last();
        let r = split_on(t, sep);
        lemma_visible_split(t, sep);
        lemma_split_on_nonempty(t, sep);
        if c == sep {
            lemma_visible_lines_push(r, Seq::empty());
            assert(visible_lines(r) + visible(Seq::<char>::empty()) =~= visible_lines(r));
        } else {
            let n = r.len() - 1;
            let u = r.update(n, r.last().push(c));
            assert(u.drop_last() =~= r.drop_last());
            assert(u.last() == r.last().push(c));
            lemma_visible_push(r.last(), c);
            assert(visible_lines(r) == visible_lines(r.drop_last()) + visible(r.last()));
            if kept_by_wrap(c) {
                assert(visible_lines(u) =~= visible_lines(r).push(c));
            } else {
                assert(visible_lines(u) =~= visible_lines(r));
            }
        }
    }
}

/// What a wrapping state holds so far: its finished lines, then the line
/// being filled.
pub open spec fn visible_state(st: WrapState) -> Seq<char> {
    visible_lines(st.0) + visible(st.1)
}

proof fn lemma_chunk_fold_keeps(st: WrapState, w: Seq<char>, max: nat)
    ensures
        visible_state(chunk_fold(st, w, max)) == visible_state(st) + visible(w),
    decreases w.len(),
{
    if w.len() == 0 {
        assert(visible_state(st) + visible(w) =~= visible_state(st));
    } else {
        lemma_chunk_fold_keeps(st, w.drop_last(), max);
        let mid = chunk_fold(st, w.drop_last(), max);
        let ch = w.last();
        lemma_visible_push(w.drop_last(), ch);
        assert(w.drop_last().push(ch) =~= w);
        let res = chunk_fold(st, w, max);
        assert(res == chunk_step(mid, ch, max));
        if mid.1.len() == max {
            lemma_visible_lines_push(mid.0, mid.1);
            lemma_visible_push(Seq::empty(), ch);
            assert(seq![ch] =~= Seq::<char>::empty().push(ch));
            assert(visible(Seq::<char>::empty()) =~= Seq::<char>::empty());
            assert(res == (mid.0.push(mid.1), seq![ch]));
            if kept_by_wrap(ch) {
                assert(visible_state(res) =~= visible_state(mid).push(ch));
            } else {
                assert(visible_state(res) =~= visible_state(mid));
            }
        } else {
            lemma_visible_push(mid.1, ch);
            assert(res == (mid.0, mid.1.push(ch)));
            if kept_by_wrap(ch) {
                assert(visible_state(res) =~= visible_state(mid).push(ch));
            } else {
                assert(visible_state(res) =~= visible_state(mid));
            }
        }
        if kept_by_wrap(ch) {
            assert(visible_state(st) + visible(w) =~= (visible_state(st) + visible(w.drop_last())).push(ch));
        } else {
            assert(visible_state(st) + visible(w) =~= visible_state(st) + visible(w.drop_last()));
        }
    }
}

proof fn lemma_word_step_keeps(st: WrapState, word: Seq<char>, max: nat)
    ensures
        visible_state(word_step(st, word, max)) == visible_state(st) + visible(word),
{
    let e = Seq::<char>::empty();
    assert(visible(e) =~= e);
    if word.len() > max {
        let done = if st.1.len() > 0 {
            st.0.push(st.1)
        } else {
            st.0
        };
        if st.1.len() > 0 {
            lemma_visible_lines_push(st.0, st.1);
        } else {
            assert(visible(st.1) =~= e);
        }
        assert(visible_state((done, e)) =~= visible_state(st));
        lemma_chunk_fold_keeps((done, e), word, max);
    } else {
        let candidate = if st.1.len() == 0 {
            word
        } else {
            st.1 + seq![' '] + word
        };
        if st.1.len() == 0 {
            assert(visible(st.1) =~= e);
        } else {
            lemma_visible_add(st.1 + seq![' '], word);
            lemma_visible_add(st.1, seq![' ']);
            assert(seq![' '] =~= e.push(' '));
            lemma_visible_push(e, ' ');
        }
        assert(visible(candidate) =~= visible(st.1) + visible(word));
        if candidate.len() > max {
            lemma_visible_lines_push(st.0, st.1);
        }
        assert(visible_state(word_step(st, word, max)) =~= visible_state(st) + visible(word));
    }
}

proof fn lemma_words_fold_keeps(st: WrapState, words: Seq<Seq<char>>, max: nat)
    ensures
        visible_state(words_fold(st, words, max)) == visible_state(st) + visible_lines(words),
    decreases words.len(),
{
    if words.len() == 0 {
        assert(visible_state(st) + visible_lines(words) =~= visible_state(st));
    } else {
        lemma_words_fold_keeps(st, words.drop_last(), max);
        lemma_word_step_keeps(words_fold(st, words.drop_last(), max), words.last(), max);
        assert(visible_state(words_fold(st, words, max)) =~= visible_state(st) + visible_lines(
            words,
        ));
    }
}

proof fn lemma_paras_fold_keeps(lines: Seq<Seq<char>>, paras: Seq<Seq<char>>, max: nat)
    ensures
        visible_lines(paras_fold(lines, paras, max)) == visible_lines(lines) + visible_lines(
            paras.map_values(|p: Seq<char>| trim_cr(p)),
        ),
    decreases paras.len(),
{
    let e = Seq::<char>::empty();
    let trimmed = paras.map_values(|p: Seq<char>| trim_cr(p));
    assert(visible(e) =~= e);
    if paras.len() == 0 {
        assert(trimmed =~= Seq::<Seq<char>>::empty());
        assert(visible_lines(lines) + visible_lines(trimmed) =~= visible_lines(lines));
    } else {
        lemma_paras_fold_keeps(lines, paras.drop_last(), max);
        let before = paras_fold(lines, paras.drop_last(), max);
        let para = paras.last();
        let p = trim_cr(para);
        assert(trimmed.drop_last() =~= paras.drop_last().map_values(|p: Seq<char>| trim_cr(p)));
        assert(trimmed.last() == p);
        if p.len() == 0 {
            lemma_visible_lines_push(before, e);
            assert(visible(p) =~= e);
        } else {
            lemma_words_fold_keeps((before, e), split_on(p, ' '), max);
            lemma_visible_split(p, ' ');
            let st = words_fold((before, e), split_on(p, ' '), max);
            if st.1.len() > 0 {
                lemma_visible_lines_push(st.0, st.1);
            } else {
                assert(visible(st.1) =~= e);
            }
            assert(visible_state((before, e)) =~= visible_lines(before));
        }
        assert(visible_lines(paras_fold(lines, paras, max)) =~= visible_lines(lines)
            + visible_lines(trimmed));
    }
}

/// Wrapping loses no word: the lines, read one after another, hold the
/// characters of the text's paragraphs — everything but the line feeds
/// between them, each paragraph's trailing carriage returns and the
/// spaces — in the order the text has them.
pub proof fn lemma_wrapping_keeps_the_words(text: Seq<char>, max: nat)
    ensures
        visible_lines(wrapped(text, max)) == visible_lines(paragraphs(text)),
{
    let e = Seq::<char>::empty();
    lemma_paras_fold_keeps(Seq::empty(), split_on(text, '\n'), max);
    assert(visible_lines(Seq::<Seq<char>>::empty()) + visible_lines(paragraphs(text))
        =~= visible_lines(paragraphs(text)));
    let lines = paras_fold(Seq::empty(), split_on(text, '\n'), max);
    if lines.len() == 0 {
        lemma_visible_lines_push(Seq::<Seq<char>>::empty(), e);
        assert(seq![e] =~= Seq::<Seq<char>>::empty().push(e));
        assert(visible(e) =~= e);
        assert(visible_lines(Seq::<Seq<char>>::empty()) + visible(e) =~= e);
    }
}

/// `MB_DEFBUTTON2` and `MB_DEFBUTTON3` make the second or third button
/// the one `VK_RETURN` takes — the last one, where the box has fewer —
/// and without either flag it is the first.
pub proof fn lemma_defbutton_flags_pick_the_default(
    text: Seq<char>,
    caption: Seq<char>,
    u_type: u32,
    screen_w: int,
    screen_h: int,
)
    ensures
        ({
            let k = box_layout(text, caption, u_type, screen_w, screen_h).default_button;
            let n = button_set(u_type).len();
            let d = u_type & mb::DEFMASK;
            &&& 0 <= k < n
            &&& d == mb::DEFBUTTON3 ==> k == if n >= 3 {
                2int
            } else {
                n - 1
            }
            &&& d == mb::DEFBUTTON2 ==> k == if n >= 2 {
                1int
            } else {
                0int
            }
            &&& d != mb::DEFBUTTON2 && d != mb::DEFBUTTON3 ==> k == 0
        }),
{
    let n = button_set(u_type).len();
    assert(1 <= n <= 3);
}

/// The answers each `MB_*` button set offers, in order, as Windows
/// lays them out; a type the box does not know gets a lone OK.
pub proof fn lemma_standard_button_sets(u_type: u32)
    ensures
        ({
            let rs = button_set(u_type).map_values(|b: (Seq<char>, u32)| b.1);
            let t = u_type & mb::TYPE_MASK;
            &&& t == mb::OKCANCEL ==> rs == seq![id::OK, id::CANCEL]
            &&& t == mb::ABORTRETRYIGNORE ==> rs == seq![id::ABORT, id::RETRY, id::IGNORE]
            &&& t == mb::YESNOCANCEL ==> rs == seq![id::YES, id::NO, id::CANCEL]
            &&& t == mb::YESNO ==> rs == seq![id::YES, id::NO]
            &&& t == mb::RETRYCANCEL ==> rs == seq![id::RETRY, id::CANCEL]
            &&& (t == mb::OK || t > mb::RETRYCANCEL) ==> rs == seq![id::OK]
        }),
{
    let rs = button_set(u_type).map_values(|b: (Seq<char>, u32)| b.1);
    let t = u_type & mb::TYPE_MASK;
    if t == mb::OKCANCEL {
        assert(rs =~= seq![id::OK, id::CANCEL]);
    } else if t == mb::ABORTRETRYIGNORE {
        assert(rs =~= seq![id::ABORT, id::RETRY, id::IGNORE]);
    } else if t == mb::YESNOCANCEL {
        assert(rs =~= seq![id::YES, id::NO, id::CANCEL]);
    } else if t == mb::YESNO {
        assert(rs =~= seq![id::YES, id::NO]);
    } else if t == mb::RETRYCANCEL {
        assert(rs =~= seq![id::RETRY, id::CANCEL]);
    } else {
        assert(rs =~= seq![id::OK]);
    }
}

/// `VK_RETURN` answers with the default button. The cancel path
/// (`Escape`, the close box) answers `IDCANCEL` whenever some button
/// does, else `IDNO` whenever some button does, else what `VK_RETURN`
/// would.
pub proof fn lemma_cancel_prefers_cancel_then_no(m: MessageBox)
    requires
        m.default_button < m.buttons@.len(),
    ensures
        default_result_of(m) == m.buttons@[m.default_button as int].result,
        (exists|i: int| 0 <= i < m.buttons@.len() && m.buttons@[i].result == id::CANCEL)
            ==> cancel_result_of(m) == id::CANCEL,
        (forall|i: int| 0 <= i < m.buttons@.len() ==> m.buttons@[i].result != id::CANCEL)
            && (exists|i: int| 0 <= i < m.buttons@.len() && m.buttons@[i].result == id::NO)
            ==> cancel_result_of(m) == id::NO,
        (forall|i: int|
            0 <= i < m.buttons@.len() ==> m.buttons@[i].result != id::CANCEL && m.buttons@[i].result
                != id::NO) ==> cancel_result_of(m) == m.buttons@[m.default_button as int].result,
{
}

} // verus!
