//! A real, modal `MessageBox`.
//!
//! An app that *asks* something — Solitaire's "Are you sure you want to
//! exit?" — only acts when the answer comes back as the button the user
//! chose, so the box is owned for real here: its geometry, its Windows
//! CE looks, its buttons, and which of them the stylus hit. Keeping the
//! guest parked inside the `MessageBoxW` call while the host keeps
//! drawing frames is the caller's business.
use vstd::prelude::*;

pub mod id;
pub mod laws;
pub mod mb;
pub mod paint;

use crate::controls::{in_rect, Rect};
use crate::font::{str_width, GLYPH_H, GLYPH_W};
use crate::text::{chars_of, string_of};

verus! {

/// `s` split at every `sep`, as `str::split` does: `n` separators give
/// `n + 1` pieces, empty ones included.
pub open spec fn split_on(s: Seq<char>, sep: char) -> Seq<Seq<char>>
    decreases s.len(),
{
    if s.len() == 0 {
        seq![Seq::empty()]
    } else {
        let r = split_on(s.drop_last(), sep);
        if s.last() == sep {
            r.push(Seq::empty())
        } else {
            r.update(r.len() - 1, r.last().push(s.last()))
        }
    }
}

/// `s` without its trailing carriage returns.
pub open spec fn trim_cr(s: Seq<char>) -> Seq<char>
    decreases s.len(),
{
    if s.len() > 0 && s.last() == '\r' {
        trim_cr(s.drop_last())
    } else {
        s
    }
}

/// Lines finished so far, and the line being filled.
pub type WrapState = (Seq<Seq<char>>, Seq<char>);

/// One character of a word too long for the column: a full chunk is
/// finished first.
pub open spec fn chunk_step(st: WrapState, ch: char, max: nat) -> WrapState {
    if st.1.len() == max {
        (st.0.push(st.1), seq![ch])
    } else {
        (st.0, st.1.push(ch))
    }
}

/// A word too long for the column, broken into column-wide chunks.
pub open spec fn chunk_fold(st: WrapState, w: Seq<char>, max: nat) -> WrapState
    decreases w.len(),
{
    if w.len() == 0 {
        st
    } else {
        chunk_step(chunk_fold(st, w.drop_last(), max), w.last(), max)
    }
}

/// One word of a paragraph: appended to the current line when it fits,
/// starting a new line when it does not, and broken up when it is
/// longer than the column itself.
pub open spec fn word_step(st: WrapState, word: Seq<char>, max: nat) -> WrapState {
    if word.len() > max {
        let done = if st.1.len() > 0 {
            st.0.push(st.1)
        } else {
            st.0
        };
        chunk_fold((done, Seq::empty()), word, max)
    } else {
        let candidate = if st.1.len() == 0 {
            word
        } else {
            st.1 + seq![' '] + word
        };
        if candidate.len() > max {
            (st.0.push(st.1), word)
        } else {
            (st.0, candidate)
        }
    }
}

/// Every word of a paragraph, in order.
pub open spec fn words_fold(st: WrapState, words: Seq<Seq<char>>, max: nat) -> WrapState
    decreases words.len(),
{
    if words.len() == 0 {
        st
    } else {
        word_step(words_fold(st, words.drop_last(), max), words.last(), max)
    }
}

/// The lines after wrapping one more paragraph. An empty paragraph is
/// an empty line.
pub open spec fn para_step(lines: Seq<Seq<char>>, para: Seq<char>, max: nat) -> Seq<Seq<char>> {
    let p = trim_cr(para);
    if p.len() == 0 {
        lines.push(Seq::empty())
    } else {
        let st = words_fold((lines, Seq::empty()), split_on(p, ' '), max);
        if st.1.len() > 0 {
            st.0.push(st.1)
        } else {
            st.0
        }
    }
}

/// Every paragraph, in order.
pub open spec fn paras_fold(lines: Seq<Seq<char>>, paras: Seq<Seq<char>>, max: nat) -> Seq<
    Seq<char>,
>
    decreases paras.len(),
{
    if paras.len() == 0 {
        lines
    } else {
        para_step(paras_fold(lines, paras.drop_last(), max), paras.last(), max)
    }
}

/// `text` word-wrapped to `max` characters a line, honouring the `\n`
/// and `\r\n` an app puts in its own message. There is always at least
/// one line.
pub open spec fn wrapped(text: Seq<char>, max: nat) -> Seq<Seq<char>> {
    let lines = paras_fold(Seq::empty(), split_on(text, '\n'), max);
    if lines.len() == 0 {
        seq![Seq::empty()]
    } else {
        lines
    }
}

/// The character sequences held by a vector of character vectors.
pub open spec fn seqs_of(v: Seq<Vec<char>>) -> Seq<Seq<char>> {
    v.map_values(|x: Vec<char>| x@)
}

proof fn lemma_split_nonempty(s: Seq<char>, sep: char)
    ensures
        split_on(s, sep).len() >= 1,
    decreases s.len(),
{
    if s.len() > 0 {
        lemma_split_nonempty(s.drop_last(), sep);
    }
}

/// The pieces of `s` between occurrences of `sep`.
fn split_chars(s: &[char], sep: char) -> (parts: Vec<Vec<char>>)
    ensures
        seqs_of(parts@) == split_on(s@, sep),
{
    let mut parts: Vec<Vec<char>> = Vec::new();
    parts.push(Vec::new());
    assert(seqs_of(parts@) =~= split_on(s@.take(0), sep));
    let mut i: usize = 0;
    while i < s.len()
        invariant
            0 <= i <= s@.len(),
            seqs_of(parts@) == split_on(s@.take(i as int), sep),
            parts@.len() >= 1,
        decreases s@.len() - i,
    {
        let ghost before = seqs_of(parts@);
        assert(s@.take(i + 1).drop_last() =~= s@.take(i as int));
        if s[i] == sep {
            parts.push(Vec::new());
            assert(seqs_of(parts@) =~= before.push(Seq::empty()));
        } else {
            let last = parts.len() - 1;
            parts[last].push(s[i]);
            assert(seqs_of(parts@) =~= before.update(
                before.len() - 1,
                before.last().push(s@[i as int]),
            ));
        }
        i = i + 1;
    }
    assert(s@.take(s@.len() as int) =~= s@);
    parts
}

/// How many characters of `p` remain once trailing `\r`s are dropped.
fn trimmed_len(p: &Vec<char>) -> (n: usize)
    ensures
        n <= p@.len(),
        p@.take(n as int) == trim_cr(p@),
{
    let mut n = p.len();
    assert(p@.take(n as int) =~= p@);
    while n > 0 && p[n - 1] == '\r'
        invariant
            0 <= n <= p@.len(),
            trim_cr(p@.take(n as int)) == trim_cr(p@),
        decreases n,
    {
        assert(p@.take(n as int).drop_last() =~= p@.take(n - 1));
        n = n - 1;
    }
    n
}

/// The first `n` elements of `v`.
fn prefix(v: &Vec<char>, n: usize) -> (r: Vec<char>)
    requires
        n <= v@.len(),
    ensures
        r@ == v@.take(n as int),
{
    let mut r: Vec<char> = Vec::new();
    let mut i: usize = 0;
    while i < n
        invariant
            0 <= i <= n <= v@.len(),
            r@ == v@.take(i as int),
        decreases n - i,
    {
        assert(v@.take(i + 1) =~= v@.take(i as int).push(v@[i as int]));
        r.push(v[i]);
        i = i + 1;
    }
    r
}

/// `a`, a space, then `b`.
fn joined(a: &Vec<char>, b: &Vec<char>) -> (r: Vec<char>)
    ensures
        r@ == a@ + seq![' '] + b@,
{
    let mut r = a.clone();
    r.push(' ');
    let mut i: usize = 0;
    while i < b.len()
        invariant
            0 <= i <= b@.len(),
            r@ == a@ + seq![' '] + b@.take(i as int),
        decreases b@.len() - i,
    {
        assert(b@.take(i + 1) =~= b@.take(i as int).push(b@[i as int]));
        assert(a@ + seq![' '] + b@.take(i + 1) =~= (a@ + seq![' '] + b@.take(i as int)).push(
            b@[i as int],
        ));
        r.push(b[i]);
        i = i + 1;
    }
    assert(b@.take(b@.len() as int) =~= b@);
    r
}

/// Apply one word to the wrap state held in `lines` and `line`.
fn wrap_word(lines: &mut Vec<Vec<char>>, line: &mut Vec<char>, word: &Vec<char>, max: usize)
    ensures
        (seqs_of(final(lines)@), final(line)@) == word_step(
            (seqs_of(old(lines)@), old(line)@),
            word@,
            max as nat,
        ),
{
    if word.len() > max {
        // A word longer than the column has to be broken, or it would
        // run out of the box.
        if line.len() > 0 {
            let ghost before = seqs_of(lines@);
            let mut done: Vec<char> = Vec::new();
            std::mem::swap(line, &mut done);
            lines.push(done);
            assert(seqs_of(lines@) =~= before.push(old(line)@));
        }
        let ghost start: WrapState = (seqs_of(lines@), Seq::empty());
        let mut chunk: Vec<char> = Vec::new();
        let mut i: usize = 0;
        while i < word.len()
            invariant
                0 <= i <= word@.len(),
                (seqs_of(lines@), chunk@) == chunk_fold(start, word@.take(i as int), max as nat),
            decreases word@.len() - i,
        {
            assert(word@.take(i + 1).drop_last() =~= word@.take(i as int));
            if chunk.len() == max {
                let ghost before = seqs_of(lines@);
                let mut full: Vec<char> = Vec::new();
                std::mem::swap(&mut chunk, &mut full);
                lines.push(full);
                assert(seqs_of(lines@) =~= before.push(full@));
                chunk.push(word[i]);
                assert(chunk@ =~= seq![word@[i as int]]);
            } else {
                chunk.push(word[i]);
            }
            i = i + 1;
        }
        assert(word@.take(word@.len() as int) =~= word@);
        *line = chunk;
        return ;
    }
    let candidate = if line.len() == 0 {
        word.clone()
    } else {
        joined(line, word)
    };
    if candidate.len() > max {
        let ghost before = seqs_of(lines@);
        let mut done: Vec<char> = word.clone();
        std::mem::swap(line, &mut done);
        lines.push(done);
        assert(seqs_of(lines@) =~= before.push(old(line)@));
    } else {
        *line = candidate;
    }
}

/// Word-wrap `text` to `max_chars` characters a line, honouring the
/// `\n` and `\r\n` an app puts in its own message.
fn wrap_chars(text: &[char], max_chars: usize) -> (lines: Vec<Vec<char>>)
    ensures
        seqs_of(lines@) == wrapped(text@, max_chars as nat),
{
    let paras = split_chars(text, '\n');
    let mut lines: Vec<Vec<char>> = Vec::new();
    let mut k: usize = 0;
    while k < paras.len()
        invariant
            0 <= k <= paras@.len(),
            seqs_of(paras@) == split_on(text@, '\n'),
            seqs_of(lines@) == paras_fold(
                Seq::empty(),
                seqs_of(paras@).take(k as int),
                max_chars as nat,
            ),
        decreases paras@.len() - k,
    {
        assert(seqs_of(paras@).take(k + 1).drop_last() =~= seqs_of(paras@).take(k as int));
        let ghost before = seqs_of(lines@);
        let para = &paras[k];
        let n = trimmed_len(para);
        if n == 0 {
            lines.push(Vec::new());
            assert(seqs_of(lines@) =~= before.push(Seq::empty()));
        } else {
            let p = prefix(para, n);
            let words = split_chars(p.as_slice(), ' ');
            let mut line: Vec<char> = Vec::new();
            let mut w: usize = 0;
            while w < words.len()
                invariant
                    0 <= w <= words@.len(),
                    seqs_of(words@) == split_on(trim_cr(para@), ' '),
                    (seqs_of(lines@), line@) == words_fold(
                        (before, Seq::empty()),
                        seqs_of(words@).take(w as int),
                        max_chars as nat,
                    ),
                decreases words@.len() - w,
            {
                assert(seqs_of(words@).take(w + 1).drop_last() =~= seqs_of(words@).take(
                    w as int,
                ));
                wrap_word(&mut lines, &mut line, &words[w], max_chars);
                w = w + 1;
            }
            assert(seqs_of(words@).take(words@.len() as int) =~= seqs_of(words@));
            if line.len() > 0 {
                let ghost mid = seqs_of(lines@);
                lines.push(line);
                assert(seqs_of(lines@) =~= mid.push(line@));
            }
        }
        k = k + 1;
    }
    assert(seqs_of(paras@).take(paras@.len() as int) =~= seqs_of(paras@));
    if lines.len() == 0 {
        lines.push(Vec::new());
        assert(seqs_of(lines@) =~= seq![Seq::<char>::empty()]);
    }
    lines
}

/// `a / b` rounded toward zero, as Rust's integer division does.
pub open spec fn tdiv(a: int, b: int) -> int {
    if a >= 0 {
        a / b
    } else {
        -((-a) / b)
    }
}

fn div_toward_zero(a: i64, b: i64) -> (q: i64)
    requires
        b > 0,
        a > i64::MIN,
    ensures
        q == tdiv(a as int, b as int),
{
    if a >= 0 {
        a / b
    } else {
        -((-a) / b)
    }
}

/// Characters a line of `width` pixels holds; never fewer than one.
pub open spec fn column_chars(width: int) -> int {
    let n = tdiv(width, GLYPH_W as int);
    if n < 1 {
        1
    } else {
        n
    }
}

/// Word-wrap `text` to `width` pixels, honouring the `\n` and `\r\n`
/// an app puts in its own message.
fn wrap(text: &str, width: i32) -> (lines: Vec<String>)
    ensures
        strings_of(lines@) == wrapped(text@, column_chars(width as int) as nat),
{
    let n = div_toward_zero(width as i64, GLYPH_W as i64);
    let max_chars: usize = if n < 1 {
        1
    } else {
        n as usize
    };
    let cs = chars_of(text);
    let wrapped_lines = wrap_chars(cs.as_slice(), max_chars);
    let mut lines: Vec<String> = Vec::new();
    let mut i: usize = 0;
    while i < wrapped_lines.len()
        invariant
            0 <= i <= wrapped_lines@.len(),
            strings_of(lines@) == seqs_of(wrapped_lines@).take(i as int),
        decreases wrapped_lines@.len() - i,
    {
        let line = string_of(wrapped_lines[i].as_slice());
        let ghost prev = lines@;
        lines.push(line);
        assert(strings_of(lines@) =~= strings_of(prev).push(wrapped_lines@[i as int]@));
        assert(seqs_of(wrapped_lines@).take(i + 1) =~= seqs_of(wrapped_lines@).take(i as int).push(
            wrapped_lines@[i as int]@,
        ));
        i = i + 1;
    }
    assert(seqs_of(wrapped_lines@).take(wrapped_lines@.len() as int) =~= seqs_of(wrapped_lines@));
    lines
}

/// The character sequences held by a vector of strings.
pub open spec fn strings_of(v: Seq<String>) -> Seq<Seq<char>> {
    v.map_values(|x: String| x@)
}

/// One button along the bottom of the box.
#[derive(Debug)]
pub struct MsgBoxButton {
    pub label: String,
    /// What `MessageBoxW` returns when this one is chosen.
    pub result: u32,
    pub x: i32,
    pub y: i32,
    pub w: i32,
    pub h: i32,
    pub pressed: bool,
}

impl Clone for MsgBoxButton {
    fn clone(&self) -> (r: Self)
        ensures
            r == *self,
    {
        MsgBoxButton {
            label: self.label.clone(),
            result: self.result,
            x: self.x,
            y: self.y,
            w: self.w,
            h: self.h,
            pressed: self.pressed,
        }
    }
}

/// The button's rectangle.
pub open spec fn button_rect(b: MsgBoxButton) -> Rect {
    (b.x as int, b.y as int, b.w as int, b.h as int)
}

impl MsgBoxButton {
    fn contains(&self, px: i32, py: i32) -> (r: bool)
        ensures
            r == in_rect(button_rect(*self), px as int, py as int),
    {
        let (px, py) = (px as i64, py as i64);
        px >= self.x as i64 && px < self.x as i64 + self.w as i64 && py >= self.y as i64 && py
            < self.y as i64 + self.h as i64
    }
}

/// Which decorative glyph the box carries, from `MB_ICON*`.
#[derive(Debug, Clone, Copy, PartialEq, Eq, Structural)]
pub enum MsgBoxIcon {
    NoIcon,
    Stop,
    Question,
    Exclamation,
    Information,
}

/// The icon an `MB_ICON*` nibble selects.
pub open spec fn icon_of(u_type: u32) -> MsgBoxIcon {
    let i = u_type & mb::ICON_MASK;
    if i == mb::ICONSTOP {
        MsgBoxIcon::Stop
    } else if i == mb::ICONQUESTION {
        MsgBoxIcon::Question
    } else if i == mb::ICONEXCLAMATION {
        MsgBoxIcon::Exclamation
    } else if i == mb::ICONINFORMATION {
        MsgBoxIcon::Information
    } else {
        MsgBoxIcon::NoIcon
    }
}

/// Side of the square the glyph is drawn in, or `0` for `None`.
pub open spec fn icon_side(icon: MsgBoxIcon) -> int {
    if icon == MsgBoxIcon::NoIcon {
        0
    } else {
        ICON as int
    }
}

impl MsgBoxIcon {
    fn from_type(u_type: u32) -> (r: Self)
        ensures
            r == icon_of(u_type),
    {
        let i = u_type & mb::ICON_MASK;
        if i == mb::ICONSTOP {
            MsgBoxIcon::Stop
        } else if i == mb::ICONQUESTION {
            MsgBoxIcon::Question
        } else if i == mb::ICONEXCLAMATION {
            MsgBoxIcon::Exclamation
        } else if i == mb::ICONINFORMATION {
            MsgBoxIcon::Information
        } else {
            MsgBoxIcon::NoIcon
        }
    }

    fn side(self) -> (r: i32)
        ensures
            r == icon_side(self),
    {
        if self == MsgBoxIcon::NoIcon {
            0
        } else {
            ICON
        }
    }
}

/// Caption bar height: Windows CE's has only a close box.
pub const CAPTION_H: i32 = 13;

/// Padding between the frame and its contents.
pub const PAD: i32 = 6;

/// Gap between the icon and the text.
pub const ICON_GAP: i32 = 6;

/// Icon box side.
pub const ICON: i32 = 16;

pub const BUTTON_H: i32 = 18;

pub const BUTTON_MIN_W: i32 = 48;

pub const BUTTON_GAP: i32 = 6;

/// The label/result pairs for an `MB_*` button set.
pub open spec fn button_set(u_type: u32) -> Seq<(Seq<char>, u32)> {
    let t = u_type & mb::TYPE_MASK;
    let ok = seq!['O', 'K'];
    let cancel = seq!['C', 'a', 'n', 'c', 'e', 'l'];
    let yes = seq!['Y', 'e', 's'];
    let no = seq!['N', 'o'];
    let retry = seq!['R', 'e', 't', 'r', 'y'];
    if t == mb::OKCANCEL {
        seq![(ok, id::OK), (cancel, id::CANCEL)]
    } else if t == mb::ABORTRETRYIGNORE {
        seq![
            (seq!['A', 'b', 'o', 'r', 't'], id::ABORT),
            (retry, id::RETRY),
            (seq!['I', 'g', 'n', 'o', 'r', 'e'], id::IGNORE),
        ]
    } else if t == mb::YESNOCANCEL {
        seq![(yes, id::YES), (no, id::NO), (cancel, id::CANCEL)]
    } else if t == mb::YESNO {
        seq![(yes, id::YES), (no, id::NO)]
    } else if t == mb::RETRYCANCEL {
        seq![(retry, id::RETRY), (cancel, id::CANCEL)]
    } else {
        seq![(ok, id::OK)]
    }
}

/// Length of the longest of `lines`.
pub open spec fn longest(lines: Seq<Seq<char>>) -> nat
    decreases lines.len(),
{
    if lines.len() == 0 {
        0
    } else {
        let rest = longest(lines.drop_last());
        if lines.last().len() > rest {
            lines.last().len()
        } else {
            rest
        }
    }
}

/// The labels of a button set.
pub open spec fn labels_of(set: Seq<(Seq<char>, u32)>) -> Seq<Seq<char>> {
    set.map_values(|p: (Seq<char>, u32)| p.0)
}

pub open spec fn imax(a: int, b: int) -> int {
    if a >= b {
        a
    } else {
        b
    }
}

pub open spec fn imin(a: int, b: int) -> int {
    if a <= b {
        a
    } else {
        b
    }
}

/// The geometry `MessageBox::new` lays a box out with.
pub struct BoxLayout {
    pub lines: Seq<Seq<char>>,
    pub button_w: int,
    pub buttons_w: int,
    pub x: int,
    pub y: int,
    pub w: int,
    pub h: int,
    pub row_x: int,
    pub row_y: int,
    pub default_button: int,
}

/// The width of the text column: what is left after the frame, the
/// icon and the padding, but never wider than most of the screen, and
/// never narrower than eight glyphs.
pub open spec fn column_width(screen_w: int, icon: MsgBoxIcon) -> int {
    imax(
        imin(screen_w - 2 * PAD - 2 - icon_side(icon) - ICON_GAP, tdiv(screen_w * 4, 5)),
        GLYPH_W * 8,
    )
}

/// Which button `MB_DEFBUTTON*` names, before clamping to the set.
pub open spec fn default_index(u_type: u32) -> int {
    let d = u_type & mb::DEFMASK;
    if d == mb::DEFBUTTON2 {
        1
    } else if d == mb::DEFBUTTON3 {
        2
    } else {
        0
    }
}

/// How `MessageBox::new` lays out `text` / `caption` on a
/// `screen_w` x `screen_h` display: centred, sized to its text and its
/// buttons, and never larger than the screen. The buttons share one
/// width and sit centred along the bottom.
pub open spec fn box_layout(text: Seq<char>, caption: Seq<char>, u_type: u32, screen_w: int, screen_h: int) -> BoxLayout {
    let icon = icon_of(u_type);
    let set = button_set(u_type);
    let lines = wrapped(text, column_chars(column_width(screen_w, icon)) as nat);
    let text_w = imax(GLYPH_W * longest(lines), GLYPH_W * caption.len());
    let text_h = imax(lines.len() * (GLYPH_H + 2), GLYPH_H as int);
    let button_w = imax(GLYPH_W * longest(labels_of(set)) + 16, BUTTON_MIN_W as int);
    let n = set.len() as int;
    let buttons_w = button_w * n + BUTTON_GAP * (n - 1);
    let gap = if icon != MsgBoxIcon::NoIcon {
        ICON_GAP as int
    } else {
        0
    };
    let body_w = imax(icon_side(icon) + gap + text_w, buttons_w);
    let w = imin(body_w + 2 * PAD + 2, screen_w);
    let body_h = imax(text_h, icon_side(icon));
    let h = imin(CAPTION_H + PAD + body_h + PAD + BUTTON_H + PAD + 2, screen_h);
    let x = imax(tdiv(screen_w - w, 2), 0);
    let y = imax(tdiv(screen_h - h, 2), 0);
    BoxLayout {
        lines,
        button_w,
        buttons_w,
        x,
        y,
        w,
        h,
        row_x: x + tdiv(w - buttons_w, 2),
        row_y: y + h - 1 - PAD - BUTTON_H,
        default_button: imin(default_index(u_type), n - 1),
    }
}

/// A modal message box: geometry, text, buttons, and the answer once one
/// has been chosen.
#[derive(Debug)]
pub struct MessageBox {
    pub caption: String,
    /// Message text, already split into lines that fit the box.
    pub lines: Vec<String>,
    pub icon: MsgBoxIcon,
    pub buttons: Vec<MsgBoxButton>,
    pub x: i32,
    pub y: i32,
    pub w: i32,
    pub h: i32,
    /// Index into [`Self::buttons`] that `VK_RETURN` activates.
    pub default_button: usize,
    /// Set once the user picks a button; the `coredll` handler returns it
    /// from `MessageBoxW` and drops the box.
    pub result: Option<u32>,
}

/// The result of the box's default button, or `IDOK` if there is none.
pub open spec fn default_result_of(m: MessageBox) -> u32 {
    if m.default_button < m.buttons@.len() {
        m.buttons@[m.default_button as int].result
    } else {
        id::OK
    }
}

/// Does some button of `m` answer `want`?
pub open spec fn offers(m: MessageBox, want: u32) -> bool {
    exists|i: int| 0 <= i < m.buttons@.len() && m.buttons@[i].result == want
}

/// The result of the cancel path — `Escape` and the caption's close
/// box: `IDCANCEL` when the set has one, then `IDNO`, else the default.
pub open spec fn cancel_result_of(m: MessageBox) -> u32 {
    if offers(m, id::CANCEL) {
        id::CANCEL
    } else if offers(m, id::NO) {
        id::NO
    } else {
        default_result_of(m)
    }
}

/// The caption's close box.
pub open spec fn close_rect(m: MessageBox) -> Rect {
    let side = CAPTION_H - 4;
    (m.x + m.w - 2 - side, m.y + 3, side as int, side as int)
}

/// The result a stylus released at `(px, py)` picks: the last button
/// that is held down and under the stylus.
pub open spec fn released_on(bs: Seq<MsgBoxButton>, px: int, py: int) -> Option<u32>
    decreases bs.len(),
{
    if bs.len() == 0 {
        None
    } else if bs.last().pressed && in_rect(button_rect(bs.last()), px, py) {
        Some(bs.last().result)
    } else {
        released_on(bs.drop_last(), px, py)
    }
}

/// `bs` with every button's press replaced by `pressed(b)`.
pub open spec fn presses_set(bs: Seq<MsgBoxButton>, px: int, py: int) -> Seq<MsgBoxButton> {
    bs.map_values(|b: MsgBoxButton| MsgBoxButton { pressed: in_rect(button_rect(b), px, py), ..b })
}

/// `bs` with every press released.
pub open spec fn presses_cleared(bs: Seq<MsgBoxButton>) -> Seq<MsgBoxButton> {
    bs.map_values(|b: MsgBoxButton| MsgBoxButton { pressed: false, ..b })
}

/// Does every line hold at most `max` characters?
pub open spec fn all_fit(lines: Seq<Seq<char>>, max: nat) -> bool {
    forall|i: int| 0 <= i < lines.len() ==> #[trigger] lines[i].len() <= max
}

proof fn lemma_chunk_fold_fits(st: WrapState, w: Seq<char>, max: nat)
    requires
        max >= 1,
        all_fit(st.0, max),
        st.1.len() <= max,
    ensures
        all_fit(chunk_fold(st, w, max).0, max),
        chunk_fold(st, w, max).1.len() <= max,
    decreases w.len(),
{
    if w.len() > 0 {
        lemma_chunk_fold_fits(st, w.drop_last(), max);
        let mid = chunk_fold(st, w.drop_last(), max);
        if mid.1.len() == max {
            assert(all_fit(mid.0.push(mid.1), max)) by {
                assert forall|i: int| 0 <= i < mid.0.push(mid.1).len() implies #[trigger] mid.0.push(
                    mid.1,
                )[i].len() <= max by {
                    if i < mid.0.len() {
                        assert(mid.0.push(mid.1)[i] == mid.0[i]);
                    }
                }
            }
        }
    }
}

proof fn lemma_push_fits(lines: Seq<Seq<char>>, line: Seq<char>, max: nat)
    requires
        all_fit(lines, max),
        line.len() <= max,
    ensures
        all_fit(lines.push(line), max),
{
    assert forall|i: int| 0 <= i < lines.push(line).len() implies #[trigger] lines.push(line)[i].len()
        <= max by {
        if i < lines.len() {
            assert(lines.push(line)[i] == lines[i]);
        }
    }
}

proof fn lemma_word_step_fits(st: WrapState, word: Seq<char>, max: nat)
    requires
        max >= 1,
        all_fit(st.0, max),
        st.1.len() <= max,
    ensures
        all_fit(word_step(st, word, max).0, max),
        word_step(st, word, max).1.len() <= max,
{
    if word.len() > max {
        if st.1.len() > 0 {
            lemma_push_fits(st.0, st.1, max);
        }
        let done = if st.1.len() > 0 {
            st.0.push(st.1)
        } else {
            st.0
        };
        lemma_chunk_fold_fits((done, Seq::empty()), word, max);
    } else {
        lemma_push_fits(st.0, st.1, max);
    }
}

proof fn lemma_words_fold_fits(st: WrapState, words: Seq<Seq<char>>, max: nat)
    requires
        max >= 1,
        all_fit(st.0, max),
        st.1.len() <= max,
    ensures
        all_fit(words_fold(st, words, max).0, max),
        words_fold(st, words, max).1.len() <= max,
    decreases words.len(),
{
    if words.len() > 0 {
        lemma_words_fold_fits(st, words.drop_last(), max);
        lemma_word_step_fits(words_fold(st, words.drop_last(), max), words.last(), max);
    }
}

proof fn lemma_paras_fold_fits(lines: Seq<Seq<char>>, paras: Seq<Seq<char>>, max: nat)
    requires
        max >= 1,
        all_fit(lines, max),
    ensures
        all_fit(paras_fold(lines, paras, max), max),
    decreases paras.len(),
{
    if paras.len() > 0 {
        lemma_paras_fold_fits(lines, paras.drop_last(), max);
        let before = paras_fold(lines, paras.drop_last(), max);
        let p = trim_cr(paras.last());
        if p.len() == 0 {
            lemma_push_fits(before, Seq::empty(), max);
        } else {
            lemma_words_fold_fits((before, Seq::empty()), split_on(p, ' '), max);
            let st = words_fold((before, Seq::empty()), split_on(p, ' '), max);
            lemma_push_fits(st.0, st.1, max);
        }
    }
}

/// Word wrapping never produces a line wider than the column.
pub proof fn lemma_wrapped_fits(text: Seq<char>, max: nat)
    requires
        max >= 1,
    ensures
        all_fit(wrapped(text, max), max),
        wrapped(text, max).len() >= 1,
{
    lemma_paras_fold_fits(Seq::empty(), split_on(text, '\n'), max);
}

proof fn lemma_longest_bound(lines: Seq<Seq<char>>, max: nat)
    requires
        all_fit(lines, max),
    ensures
        longest(lines) <= max,
    decreases lines.len(),
{
    if lines.len() > 0 {
        assert(all_fit(lines.drop_last(), max)) by {
            assert forall|i: int| 0 <= i < lines.drop_last().len() implies #[trigger] lines.drop_last()[i].len() <= max by {
                assert(lines.drop_last()[i] == lines[i]);
            }
        }
        lemma_longest_bound(lines.drop_last(), max);
        assert(lines[lines.len() - 1].len() <= max);
    }
}

proof fn lemma_labels_short(u_type: u32)
    ensures
        all_fit(labels_of(button_set(u_type)), 6),
        1 <= button_set(u_type).len() <= 3,
{
    let set = button_set(u_type);
    assert forall|i: int| 0 <= i < labels_of(set).len() implies #[trigger] labels_of(set)[i].len() <= 6 by {
        assert(labels_of(set)[i] == set[i].0);
    }
}

/// The label/result pairs for an `MB_*` button set.
fn button_labels(u_type: u32) -> (r: Vec<(&'static str, u32)>)
    ensures
        r@.len() == button_set(u_type).len(),
        forall|k: int| 0 <= k < r@.len() ==> (#[trigger] r@[k]).0@ == button_set(u_type)[k].0 && r@[k].1 == button_set(u_type)[k].1,
{
    proof {
        reveal_strlit("OK");
        reveal_strlit("Cancel");
        reveal_strlit("Abort");
        reveal_strlit("Retry");
        reveal_strlit("Ignore");
        reveal_strlit("Yes");
        reveal_strlit("No");
    }
    let t = u_type & mb::TYPE_MASK;
    let mut v: Vec<(&'static str, u32)> = Vec::new();
    if t == mb::OKCANCEL {
        v.push(("OK", id::OK));
        v.push(("Cancel", id::CANCEL));
    } else if t == mb::ABORTRETRYIGNORE {
        v.push(("Abort", id::ABORT));
        v.push(("Retry", id::RETRY));
        v.push(("Ignore", id::IGNORE));
    } else if t == mb::YESNOCANCEL {
        v.push(("Yes", id::YES));
        v.push(("No", id::NO));
        v.push(("Cancel", id::CANCEL));
    } else if t == mb::YESNO {
        v.push(("Yes", id::YES));
        v.push(("No", id::NO));
    } else if t == mb::RETRYCANCEL {
        v.push(("Retry", id::RETRY));
        v.push(("Cancel", id::CANCEL));
    } else {
        v.push(("OK", id::OK));
    }
    v
}

/// Does the screen leave room for every coordinate of the box?
pub open spec fn screen_fits(screen_w: int, screen_h: int) -> bool {
    &&& i32::MIN + 1000 <= screen_w <= i32::MAX - 1000
    &&& i32::MIN + 1000 <= screen_h <= i32::MAX - 1000
}

/// Do the box's text and caption measure within `i32`?
pub open spec fn text_fits(text: Seq<char>, caption: Seq<char>, u_type: u32, screen_w: int) -> bool {
    &&& GLYPH_W * caption.len() + 64 <= i32::MAX
    &&& wrapped(text, column_chars(column_width(screen_w, icon_of(u_type))) as nat).len() * (
    GLYPH_H + 2) + 64 <= i32::MAX
}

impl MessageBox {
    /// Lay a box out for `text` / `caption` on a `screen_w` x `screen_h`
    /// display, centred the way `MessageBox` centres on its owner.
    pub fn new(text: &str, caption: &str, u_type: u32, screen_w: i32, screen_h: i32) -> (m: Self)
        requires
            screen_fits(screen_w as int, screen_h as int),
            text_fits(text@, caption@, u_type, screen_w as int),
        ensures
            ({
                let l = box_layout(text@, caption@, u_type, screen_w as int, screen_h as int);
                let set = button_set(u_type);
                &&& m.caption@ == caption@
                &&& strings_of(m.lines@) == l.lines
                &&& m.icon == icon_of(u_type)
                &&& m.buttons@.len() == set.len()
                &&& forall|k: int|
                    0 <= k < set.len() ==> {
                        let b = #[trigger] m.buttons@[k];
                        &&& b.label@ == set[k].0
                        &&& b.result == set[k].1
                        &&& b.x == l.row_x + k * (l.button_w + BUTTON_GAP)
                        &&& b.y == l.row_y
                        &&& b.w == l.button_w
                        &&& b.h == BUTTON_H
                        &&& !b.pressed
                    }
                &&& m.x == l.x
                &&& m.y == l.y
                &&& m.w == l.w
                &&& m.h == l.h
                &&& m.default_button == l.default_button
                &&& m.result is None
            }),
    {
        let ghost l = box_layout(text@, caption@, u_type, screen_w as int, screen_h as int);
        let icon = MsgBoxIcon::from_type(u_type);
        let labels = button_labels(u_type);

        // Text column: wrap to whatever is left after the frame, the
        // icon and the padding, but never wider than most of the screen.
        let sw = screen_w as i64;
        let sh = screen_h as i64;
        let a = sw - 2 * PAD as i64 - 2 - icon.side() as i64 - ICON_GAP as i64;
        let b = div_toward_zero(sw * 4, 5);
        let narrow = if a <= b {
            a
        } else {
            b
        };
        let max_text_w: i64 = if narrow >= GLYPH_W as i64 * 8 {
            narrow
        } else {
            GLYPH_W as i64 * 8
        };
        assert(max_text_w == column_width(screen_w as int, icon));
        let lines = wrap(text, max_text_w as i32);
        proof {
            lemma_wrapped_fits(text@, column_chars(max_text_w as int) as nat);
            lemma_longest_bound(strings_of(lines@), column_chars(max_text_w as int) as nat);
        }

        let mut longest_w: i64 = 0;
        let mut i: usize = 0;
        while i < lines.len()
            invariant
                0 <= i <= lines@.len(),
                all_fit(strings_of(lines@), column_chars(max_text_w as int) as nat),
                GLYPH_W * column_chars(max_text_w as int) <= i32::MAX,
                longest_w == GLYPH_W * longest(strings_of(lines@).take(i as int)),
            decreases lines@.len() - i,
        {
            assert(strings_of(lines@).take(i + 1).drop_last() =~= strings_of(lines@).take(i as int));
            assert(strings_of(lines@)[i as int] == lines@[i as int]@);
            assert(lines@[i as int]@.len() <= column_chars(max_text_w as int));
            let lw = str_width(lines[i].as_str()) as i64;
            if lw > longest_w {
                longest_w = lw;
            }
            i = i + 1;
        }
        assert(strings_of(lines@).take(lines@.len() as int) =~= strings_of(lines@));
        let cw = str_width(caption) as i64;
        let text_w = if longest_w >= cw {
            longest_w
        } else {
            cw
        };
        assert(lines@.len() == strings_of(lines@).len());
        assert(max_text_w as i32 as int == max_text_w);
        assert(strings_of(lines@) == wrapped(text@, column_chars(column_width(screen_w as int, icon_of(u_type))) as nat));
        assert(lines@.len() * 10 + 64 <= i32::MAX);
        let lh = lines.len() as i64 * (GLYPH_H as i64 + 2);
        let text_h = if lh >= GLYPH_H as i64 {
            lh
        } else {
            GLYPH_H as i64
        };

        // Buttons are sized to their labels but share one width, the way
        // Windows sizes a row of them.
        proof {
            lemma_labels_short(u_type);
            lemma_longest_bound(labels_of(button_set(u_type)), 6);
        }
        let mut widest: i64 = 0;
        let mut k: usize = 0;
        while k < labels.len()
            invariant
                0 <= k <= labels@.len(),
                labels@.len() == button_set(u_type).len(),
                labels@.len() <= 3,
                forall|j: int| 0 <= j < labels@.len() ==> (#[trigger] labels@[j]).0@ == button_set(u_type)[j].0 && labels@[j].1 == button_set(u_type)[j].1,
                forall|j: int| 0 <= j < labels@.len() ==> (#[trigger] labels@[j]).0@.len() <= 6,
                widest == GLYPH_W * longest(labels_of(button_set(u_type)).take(k as int)),
            decreases labels@.len() - k,
        {
            assert(labels_of(button_set(u_type)).take(k + 1).drop_last() =~= labels_of(button_set(u_type)).take(k as int));
            let lw = str_width(labels[k].0) as i64;
            if lw > widest {
                widest = lw;
            }
            k = k + 1;
        }
        assert(labels_of(button_set(u_type)).take(labels@.len() as int) =~= labels_of(button_set(u_type)));
        assert(0 <= widest <= 36);
        let button_w: i64 = if widest + 16 >= BUTTON_MIN_W as i64 {
            widest + 16
        } else {
            BUTTON_MIN_W as i64
        };
        let n = labels.len() as i64;
        assert(button_w * n <= 52 * 3 && button_w * n >= 48) by (nonlinear_arith)
            requires
                48 <= button_w <= 52,
                1 <= n <= 3,
        ;
        let buttons_w = button_w * n + BUTTON_GAP as i64 * (n - 1);

        let gap: i64 = if icon != MsgBoxIcon::NoIcon {
            ICON_GAP as i64
        } else {
            0
        };
        let body_w0 = icon.side() as i64 + gap + text_w;
        let body_w = if body_w0 >= buttons_w {
            body_w0
        } else {
            buttons_w
        };
        let w0 = body_w + 2 * PAD as i64 + 2;
        let w = if w0 <= sw {
            w0
        } else {
            sw
        };
        let body_h = if text_h >= icon.side() as i64 {
            text_h
        } else {
            icon.side() as i64
        };
        let h0 = CAPTION_H as i64 + PAD as i64 + body_h + PAD as i64 + BUTTON_H as i64 + PAD as i64 + 2;
        let h = if h0 <= sh {
            h0
        } else {
            sh
        };
        let x0 = div_toward_zero(sw - w, 2);
        let x = if x0 >= 0 {
            x0
        } else {
            0
        };
        let y0 = div_toward_zero(sh - h, 2);
        let y = if y0 >= 0 {
            y0
        } else {
            0
        };
        assert(w == l.w && h == l.h && x == l.x && y == l.y && button_w == l.button_w && buttons_w == l.buttons_w);

        // Button row, centred as a whole along the bottom.
        let row_y = y + h - 1 - PAD as i64 - BUTTON_H as i64;
        let row_x = x + div_toward_zero(w - buttons_w, 2);
        assert(i32::MIN + 500 <= row_x <= i32::MAX - 500);
        assert(i32::MIN + 500 <= row_y <= i32::MAX - 500);
        let mut buttons: Vec<MsgBoxButton> = Vec::new();
        let mut k: usize = 0;
        while k < labels.len()
            invariant
                0 <= k <= labels@.len(),
                labels@.len() == button_set(u_type).len(),
                labels@.len() <= 3,
                forall|j: int| 0 <= j < labels@.len() ==> (#[trigger] labels@[j]).0@ == button_set(u_type)[j].0 && labels@[j].1 == button_set(u_type)[j].1,
                buttons@.len() == k,
                row_x == l.row_x,
                row_y == l.row_y,
                button_w == l.button_w,
                48 <= button_w <= 52,
                i32::MIN + 500 <= row_x <= i32::MAX - 500,
                i32::MIN + 500 <= row_y <= i32::MAX - 500,
                forall|j: int|
                    0 <= j < k ==> {
                        let b = #[trigger] buttons@[j];
                        &&& b.label@ == button_set(u_type)[j].0
                        &&& b.result == button_set(u_type)[j].1
                        &&& b.x == l.row_x + j * (l.button_w + BUTTON_GAP)
                        &&& b.y == l.row_y
                        &&& b.w == l.button_w
                        &&& b.h == BUTTON_H
                        &&& !b.pressed
                    },
            decreases labels@.len() - k,
        {
            assert(k * (button_w + BUTTON_GAP) <= 3 * 58) by (nonlinear_arith)
                requires
                    48 <= button_w <= 52,
                    0 <= k < 3,
            ;
            let bx = row_x + k as i64 * (button_w + BUTTON_GAP as i64);
            buttons.push(
                MsgBoxButton {
                    label: labels[k].0.to_owned(),
                    result: labels[k].1,
                    x: bx as i32,
                    y: row_y as i32,
                    w: button_w as i32,
                    h: BUTTON_H,
                    pressed: false,
                },
            );
            k = k + 1;
        }

        let d = u_type & mb::DEFMASK;
        let want: usize = if d == mb::DEFBUTTON2 {
            1
        } else if d == mb::DEFBUTTON3 {
            2
        } else {
            0
        };
        let last = buttons.len() - 1;
        let default_button = if want <= last {
            want
        } else {
            last
        };

        MessageBox {
            caption: caption.to_owned(),
            lines,
            icon,
            buttons,
            x: x as i32,
            y: y as i32,
            w: w as i32,
            h: h as i32,
            default_button,
            result: None,
        }
    }

    /// The result of the button `VK_RETURN` would press.
    pub fn default_result(&self) -> (r: u32)
        ensures
            r == default_result_of(*self),
    {
        if self.default_button < self.buttons.len() {
            self.buttons[self.default_button].result
        } else {
            id::OK
        }
    }

    fn offers(&self, want: u32) -> (r: bool)
        ensures
            r == offers(*self, want),
    {
        let mut i: usize = 0;
        while i < self.buttons.len()
            invariant
                0 <= i <= self.buttons@.len(),
                forall|k: int| 0 <= k < i ==> self.buttons@[k].result != want,
            decreases self.buttons@.len() - i,
        {
            if self.buttons[i].result == want {
                return true;
            }
            i = i + 1;
        }
        false
    }

    /// The result of the box's cancel path — `Escape` and the caption's
    /// close box. Windows uses `IDCANCEL` when the set has one and
    /// `IDNO` otherwise; a box with neither cannot be dismissed this
    /// way, which is why `MB_OK` returns `IDOK`.
    fn cancel_result(&self) -> (r: u32)
        ensures
            r == cancel_result_of(*self),
    {
        if self.offers(id::CANCEL) {
            id::CANCEL
        } else if self.offers(id::NO) {
            id::NO
        } else {
            self.default_result()
        }
    }

    /// Is `(px, py)` on the caption's close box?
    /// The caption's close box, `(x, y, w, h)` on screen.
    pub fn close_box(&self) -> (r: (i32, i32, i32, i32))
        requires
            i32::MIN + CAPTION_H <= self.x + self.w <= i32::MAX,
            self.y + 3 <= i32::MAX,
        ensures
            (r.0 as int, r.1 as int, r.2 as int, r.3 as int) == close_rect(*self),
    {
        let side = CAPTION_H - 4;
        (self.x + self.w - 2 - side, self.y + 3, side, side)
    }

    fn on_close_box(&self, px: i32, py: i32) -> (r: bool)
        ensures
            r == in_rect(close_rect(*self), px as int, py as int),
    {
        let side = (CAPTION_H - 4) as i64;
        let cx = self.x as i64 + self.w as i64 - 2 - side;
        let cy = self.y as i64 + 3;
        let (px, py) = (px as i64, py as i64);
        px >= cx && px < cx + side && py >= cy && py < cy + side
    }

    /// Stylus down: latch whichever button was hit.
    pub fn pointer_down(&mut self, px: i32, py: i32)
        ensures
            final(self).buttons@ == presses_set(old(self).buttons@, px as int, py as int),
            final(self).result == old(self).result,
            final(self).default_button == old(self).default_button,
            final(self).x == old(self).x && final(self).y == old(self).y,
            final(self).w == old(self).w && final(self).h == old(self).h,
            final(self).caption@ == old(self).caption@,
            final(self).lines@ == old(self).lines@,
            final(self).icon == old(self).icon,
    {
        let ghost before = self.buttons@;
        let mut i: usize = 0;
        while i < self.buttons.len()
            invariant
                0 <= i <= self.buttons@.len(),
                self.buttons@.len() == before.len(),
                self.caption@ == old(self).caption@,
                self.lines@ == old(self).lines@,
                self.icon == old(self).icon,
                forall|k: int| 0 <= k < i ==> self.buttons@[k] == presses_set(before, px as int, py as int)[k],
                forall|k: int| i <= k < before.len() ==> self.buttons@[k] == before[k],
                self.result == old(self).result,
                self.default_button == old(self).default_button,
                self.x == old(self).x && self.y == old(self).y,
                self.w == old(self).w && self.h == old(self).h,
            decreases before.len() - i,
        {
            let hit = self.buttons[i].contains(px, py);
            self.buttons[i].pressed = hit;
            i = i + 1;
        }
        assert(self.buttons@ =~= presses_set(before, px as int, py as int));
    }

    /// Stylus up. Chooses a button when released inside the one that was
    /// latched, and takes the cancel path on the close box.
    pub fn pointer_up(&mut self, px: i32, py: i32)
        ensures
            in_rect(close_rect(*old(self)), px as int, py as int) ==> final(self).buttons@ == old(
                self,
            ).buttons@ && final(self).result == Some(cancel_result_of(*old(self))),
            !in_rect(close_rect(*old(self)), px as int, py as int) ==> final(self).buttons@
                == presses_cleared(old(self).buttons@) && final(self).result == match released_on(
                old(self).buttons@,
                px as int,
                py as int,
            ) {
                Some(r) => Some(r),
                None => old(self).result,
            },
            final(self).default_button == old(self).default_button,
            final(self).x == old(self).x && final(self).y == old(self).y,
            final(self).w == old(self).w && final(self).h == old(self).h,
            final(self).caption@ == old(self).caption@,
            final(self).lines@ == old(self).lines@,
            final(self).icon == old(self).icon,
    {
        if self.on_close_box(px, py) {
            let r = self.cancel_result();
            self.result = Some(r);
            return ;
        }
        let ghost before = self.buttons@;
        let mut chosen: Option<u32> = None;
        let mut i: usize = 0;
        while i < self.buttons.len()
            invariant
                0 <= i <= self.buttons@.len(),
                self.buttons@.len() == before.len(),
                chosen == released_on(before.take(i as int), px as int, py as int),
                self.caption@ == old(self).caption@,
                self.lines@ == old(self).lines@,
                self.icon == old(self).icon,
                forall|k: int| 0 <= k < i ==> self.buttons@[k] == presses_cleared(before)[k],
                forall|k: int| i <= k < before.len() ==> self.buttons@[k] == before[k],
                self.result == old(self).result,
                self.default_button == old(self).default_button,
                self.x == old(self).x && self.y == old(self).y,
                self.w == old(self).w && self.h == old(self).h,
            decreases before.len() - i,
        {
            assert(before.take(i + 1).drop_last() =~= before.take(i as int));
            if self.buttons[i].pressed && self.buttons[i].contains(px, py) {
                chosen = Some(self.buttons[i].result);
            }
            self.buttons[i].pressed = false;
            i = i + 1;
        }
        assert(before.take(before.len() as int) =~= before);
        assert(self.buttons@ =~= presses_cleared(before));
        if let Some(result) = chosen {
            self.result = Some(result);
        }
    }

    /// `VK_RETURN` takes the default button, `VK_ESCAPE` the cancel path.
    pub fn key_down(&mut self, vk: u16)
        ensures
            vk == VK_RETURN ==> final(self).result == Some(default_result_of(*old(self))),
            vk == VK_ESCAPE ==> final(self).result == Some(cancel_result_of(*old(self))),
            vk != VK_RETURN && vk != VK_ESCAPE ==> final(self).result == old(self).result,
            final(self).buttons@ == old(self).buttons@,
            final(self).default_button == old(self).default_button,
            final(self).x == old(self).x && final(self).y == old(self).y,
            final(self).w == old(self).w && final(self).h == old(self).h,
            final(self).caption@ == old(self).caption@,
            final(self).lines@ == old(self).lines@,
            final(self).icon == old(self).icon,
            vk != VK_RETURN && vk != VK_ESCAPE ==> *final(self) == *old(self),
    {
        if vk == VK_RETURN {
            let r = self.default_result();
            self.result = Some(r);
        } else if vk == VK_ESCAPE {
            let r = self.cancel_result();
            self.result = Some(r);
        }
    }

    /// Is `(px, py)` inside the box? A modal swallows every tap, but the
    /// host still wants to know whether one landed on the box itself.
    pub fn contains(&self, px: i32, py: i32) -> (r: bool)
        ensures
            r == in_rect((self.x as int, self.y as int, self.w as int, self.h as int), px as int, py as int),
    {
        let (px, py) = (px as i64, py as i64);
        px >= self.x as i64 && px < self.x as i64 + self.w as i64 && py >= self.y as i64 && py
            < self.y as i64 + self.h as i64
    }
}

/// `VK_RETURN` and `VK_ESCAPE`.
pub const VK_RETURN: u16 = 0x0D;

pub const VK_ESCAPE: u16 = 0x1B;

} // verus!
