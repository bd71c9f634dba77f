//! `DLGTEMPLATE` / `DLGITEMTEMPLATE` parsing.
//!
//! A dialog created with `CreateDialogIndirectParamW` arrives as a blob
//! of packed structures rather than a series of `CreateWindowExW` calls:
//! the header describes the panel, and `cdit` variable-length items
//! describe the controls inside it. On a device `USER` walks that blob
//! and creates the children itself before `WM_INITDIALOG` is sent.
use vstd::prelude::*;

pub mod class_ordinal;
pub mod laws;

use crate::text::{string_from_utf16_lossy, utf16_lossy};

verus! {

/// `DS_SETFONT` — the header carries a point size and typeface.
pub const DS_SETFONT: u32 = 0x0040;

/// How a `DLGITEMTEMPLATE` named its window class.
#[derive(Debug, Clone, PartialEq, Eq)]
pub enum ItemClass {
    /// One of the `class_ordinal` values.
    Ordinal(u16),
    /// A registered class name, for a custom control.
    Named(String),
}

/// One control inside a dialog template. Coordinates are in dialog
/// units, not pixels — see [`Dlu::to_px`].
#[derive(Debug, Clone, PartialEq, Eq)]
pub struct DialogItem {
    pub style: u32,
    pub ex_style: u32,
    pub x: i16,
    pub y: i16,
    pub cx: i16,
    pub cy: i16,
    pub id: u16,
    pub class: ItemClass,
    pub title: String,
}

/// A parsed dialog template.
#[derive(Debug, Clone, PartialEq, Eq)]
pub struct DialogTemplate {
    pub style: u32,
    pub ex_style: u32,
    pub x: i16,
    pub y: i16,
    pub cx: i16,
    pub cy: i16,
    pub title: String,
    pub items: Vec<DialogItem>,
}

/// An item class, with a name taken by its characters.
pub enum ClassView {
    Ordinal(u16),
    Named(Seq<char>),
}

/// A dialog item, with its strings taken by their characters.
pub struct ItemView {
    pub style: u32,
    pub ex_style: u32,
    pub x: i16,
    pub y: i16,
    pub cx: i16,
    pub cy: i16,
    pub id: u16,
    pub class: ClassView,
    pub title: Seq<char>,
}

/// A dialog template, with its strings taken by their characters.
pub struct TemplateView {
    pub style: u32,
    pub ex_style: u32,
    pub x: i16,
    pub y: i16,
    pub cx: i16,
    pub cy: i16,
    pub title: Seq<char>,
    pub items: Seq<ItemView>,
}

impl View for ItemClass {
    type V = ClassView;

    open spec fn view(&self) -> ClassView {
        match self {
            ItemClass::Ordinal(o) => ClassView::Ordinal(*o),
            ItemClass::Named(s) => ClassView::Named(s@),
        }
    }
}

impl View for DialogItem {
    type V = ItemView;

    open spec fn view(&self) -> ItemView {
        ItemView {
            style: self.style,
            ex_style: self.ex_style,
            x: self.x,
            y: self.y,
            cx: self.cx,
            cy: self.cy,
            id: self.id,
            class: self.class@,
            title: self.title@,
        }
    }
}

impl View for DialogTemplate {
    type V = TemplateView;

    open spec fn view(&self) -> TemplateView {
        TemplateView {
            style: self.style,
            ex_style: self.ex_style,
            x: self.x,
            y: self.y,
            cx: self.cx,
            cy: self.cy,
            title: self.title@,
            items: self.items@.map_values(|i: DialogItem| i@),
        }
    }
}

/// Dialog-unit to pixel conversion.
///
/// `MapDialogRect` scales by the dialog's base units: a quarter of the
/// average character width horizontally, an eighth of the character
/// height vertically. The default pair is fitted to the Windows CE 4.0
/// shell font: it reproduces Solitaire's reference layout exactly, with
/// its 44x13 DLU buttons landing on 77x22 pixel bands.
#[derive(Debug, Clone, Copy)]
pub struct Dlu {
    pub base_x: i32,
    pub base_y: i32,
}

impl Default for Dlu {
    fn default() -> (d: Self)
        ensures
            d.base_x == 7,
            d.base_y == 14,
    {
        Dlu { base_x: 7, base_y: 14 }
    }
}

/// `a / b` rounded toward zero, as Rust's integer division does.
pub open spec fn quot(a: int, b: int) -> int {
    if a >= 0 {
        a / b
    } else {
        -((-a) / b)
    }
}

/// Does `dlu * base` fit an `i32`?
pub open spec fn scale_fits(dlu: int, base: int) -> bool {
    i32::MIN < dlu * base <= i32::MAX
}

fn scale(dlu: i32, base: i32, div: i32) -> (r: i32)
    requires
        scale_fits(dlu as int, base as int),
        div > 0,
    ensures
        r == quot(dlu * base, div as int),
{
    let p = dlu * base;
    if p >= 0 {
        p / div
    } else {
        -((-p) / div)
    }
}

impl Dlu {
    /// Scale a horizontal dialog-unit span to pixels.
    pub fn x_to_px(&self, dlu: i32) -> (r: i32)
        requires
            scale_fits(dlu as int, self.base_x as int),
        ensures
            r == quot(dlu * self.base_x, 4),
    {
        scale(dlu, self.base_x, 4)
    }

    /// Scale a vertical dialog-unit span to pixels.
    pub fn y_to_px(&self, dlu: i32) -> (r: i32)
        requires
            scale_fits(dlu as int, self.base_y as int),
        ensures
            r == quot(dlu * self.base_y, 8),
    {
        scale(dlu, self.base_y, 8)
    }

    /// Scale a whole rectangle.
    pub fn to_px(&self, x: i32, y: i32, cx: i32, cy: i32) -> (r: (i32, i32, i32, i32))
        requires
            scale_fits(x as int, self.base_x as int),
            scale_fits(y as int, self.base_y as int),
            scale_fits(cx as int, self.base_x as int),
            scale_fits(cy as int, self.base_y as int),
        ensures
            r == (
                quot(x * self.base_x, 4) as i32,
                quot(y * self.base_y, 8) as i32,
                quot(cx * self.base_x, 4) as i32,
                quot(cy * self.base_y, 8) as i32,
            ),
    {
        (self.x_to_px(x), self.y_to_px(y), self.x_to_px(cx), self.y_to_px(cy))
    }
}

/// The little-endian 16-bit word at `p`.
pub open spec fn le16(b: Seq<u8>, p: int) -> u16 {
    (b[p] as u16 | ((b[p + 1] as u16) << 8u16)) as u16
}

/// The little-endian 32-bit word at `p`.
pub open spec fn le32(b: Seq<u8>, p: int) -> u32 {
    (b[p] as u32 | ((b[p + 1] as u32) << 8u32) | ((b[p + 2] as u32) << 16u32) | ((b[p
        + 3] as u32) << 24u32)) as u32
}

/// The 16-bit word at `p`, if the buffer holds one there.
pub open spec fn read16(b: Seq<u8>, p: int) -> Option<u16> {
    if 0 <= p && p + 2 <= b.len() {
        Some(le16(b, p))
    } else {
        None
    }
}

/// The 16-bit units from `p` up to a NUL unit, and the position after
/// the NUL.
pub open spec fn units_to_nul(b: Seq<u8>, p: int) -> Option<(Seq<u16>, int)>
    decreases b.len() - p,
{
    if p < 0 || p + 2 > b.len() {
        None
    } else if le16(b, p) == 0 {
        Some((Seq::empty(), p + 2))
    } else {
        match units_to_nul(b, p + 2) {
            Some((rest, q)) => Some((seq![le16(b, p)] + rest, q)),
            None => None,
        }
    }
}

/// A `sz_Or_Ord` field at `p`: nothing, an ordinal, or a NUL-terminated
/// UTF-16 string; and the position after it.
pub open spec fn sz_or_ord_at(b: Seq<u8>, p: int) -> Option<(Option<ClassView>, int)> {
    match read16(b, p) {
        None => None,
        Some(first) => if first == 0 {
            Some((None, p + 2))
        } else if first == 0xFFFF {
            match read16(b, p + 2) {
                Some(o) => Some((Some(ClassView::Ordinal(o)), p + 4)),
                None => None,
            }
        } else {
            match units_to_nul(b, p + 2) {
                Some((rest, q)) => Some((Some(ClassView::Named(utf16_lossy(seq![first] + rest))), q)),
                None => None,
            }
        },
    }
}

/// A string field at `p`: an ordinal or an absent string reads as
/// empty.
pub open spec fn sz_at(b: Seq<u8>, p: int) -> Option<(Seq<char>, int)> {
    match sz_or_ord_at(b, p) {
        Some((Some(ClassView::Named(s)), q)) => Some((s, q)),
        Some((_, q)) => Some((Seq::empty(), q)),
        None => None,
    }
}

/// `p` rounded up to the next multiple of four.
pub open spec fn align4(p: int) -> int {
    (p + 3) - (p + 3) % 4
}

/// One `DLGITEMTEMPLATE` starting at the 4-byte boundary at or after
/// `p0`, and the position after its creation data.
pub open spec fn item_at(b: Seq<u8>, p0: int) -> Option<(ItemView, int)> {
    let p = align4(p0);
    if p < 0 || p + 18 > b.len() {
        None
    } else {
        match sz_or_ord_at(b, p + 18) {
            None => None,
            Some((class, q1)) => match sz_at(b, q1) {
                None => None,
                Some((title, q2)) => match read16(b, q2) {
                    None => None,
                    Some(cb) => {
                        let end = q2 + 2 + cb;
                        if end > usize::MAX {
                            None
                        } else {
                            match class {
                                None => None,
                                Some(c) => Some(
                                    (
                                        ItemView {
                                            style: le32(b, p),
                                            ex_style: le32(b, p + 4),
                                            x: le16(b, p + 8) as i16,
                                            y: le16(b, p + 10) as i16,
                                            cx: le16(b, p + 12) as i16,
                                            cy: le16(b, p + 14) as i16,
                                            id: le16(b, p + 16),
                                            class: c,
                                            title,
                                        },
                                        end,
                                    ),
                                ),
                            }
                        }
                    },
                },
            },
        }
    }
}

/// `n` consecutive items starting at `p`.
pub open spec fn items_at(b: Seq<u8>, p: int, n: nat) -> Option<Seq<ItemView>>
    decreases n,
{
    if n == 0 {
        Some(Seq::empty())
    } else {
        match item_at(b, p) {
            None => None,
            Some((it, q)) => match items_at(b, q, (n - 1) as nat) {
                Some(rest) => Some(seq![it] + rest),
                None => None,
            },
        }
    }
}

/// Is this header a `DLGTEMPLATEEX` (version 1, signature `0xFFFF`)?
pub open spec fn is_extended(style: u32) -> bool {
    style & 0xFFFF == 0x0001 && style >> 16u32 == 0xFFFF
}

/// The position after the optional `DS_SETFONT` point size and
/// typeface at `p`.
pub open spec fn font_end(b: Seq<u8>, style: u32, p: int) -> Option<int> {
    if style & DS_SETFONT != 0 {
        match read16(b, p) {
            Some(_) => match sz_at(b, p + 2) {
                Some((_, q)) => Some(q),
                None => None,
            },
            None => None,
        }
    } else {
        Some(p)
    }
}

/// The template `b` holds: the header, then the menu, class and title
/// fields, the optional font, and `cdit` items, each on a 4-byte
/// boundary. `None` for a buffer too short for any of it, for a
/// `DLGTEMPLATEEX`, and for an item count of zero or over 255.
pub open spec fn template_of(b: Seq<u8>) -> Option<TemplateView> {
    if b.len() < 18 {
        None
    } else {
        let style = le32(b, 0);
        let cdit = le16(b, 8);
        if is_extended(style) || cdit == 0 || cdit > 255 {
            None
        } else {
            match sz_or_ord_at(b, 18) {
                None => None,
                Some((_, p1)) => match sz_or_ord_at(b, p1) {
                    None => None,
                    Some((_, p2)) => match sz_at(b, p2) {
                        None => None,
                        Some((title, p3)) => match font_end(b, style, p3) {
                            None => None,
                            Some(p4) => match items_at(b, p4, cdit as nat) {
                                None => None,
                                Some(items) => Some(
                                    TemplateView {
                                        style,
                                        ex_style: le32(b, 4),
                                        x: le16(b, 10) as i16,
                                        y: le16(b, 12) as i16,
                                        cx: le16(b, 14) as i16,
                                        cy: le16(b, 16) as i16,
                                        title,
                                        items,
                                    },
                                ),
                            },
                        },
                    },
                },
            }
        }
    }
}

/// A bounds-checked cursor over the template blob. The blob is guest
/// memory of unknown length, so every field read has to be able to fail
/// rather than panic on a short buffer.
struct Reader<'a> {
    buf: &'a [u8],
    pos: usize,
}

impl<'a> Reader<'a> {
    fn new(buf: &'a [u8]) -> (r: Self)
        ensures
            r.buf@ == buf@,
            r.pos == 0,
    {
        Reader { buf, pos: 0 }
    }

    fn u16(&mut self) -> (r: Option<u16>)
        ensures
            final(self).buf@ == old(self).buf@,
            r == read16(old(self).buf@, old(self).pos as int),
            r is Some ==> final(self).pos == old(self).pos + 2,
            r is None ==> final(self).pos == old(self).pos,
    {
        if self.pos >= self.buf.len() || self.buf.len() - self.pos < 2 {
            return None;
        }
        let v = (self.buf[self.pos] as u16) | ((self.buf[self.pos + 1] as u16) << 8u16);
        self.pos = self.pos + 2;
        Some(v)
    }

    fn i16(&mut self) -> (r: Option<i16>)
        ensures
            final(self).buf@ == old(self).buf@,
            r == match read16(old(self).buf@, old(self).pos as int) {
                Some(v) => Some(v as i16),
                None => None::<i16>,
            },
            r is Some ==> final(self).pos == old(self).pos + 2,
    {
        match self.u16() {
            Some(v) => Some(v as i16),
            None => None,
        }
    }

    fn u32(&mut self) -> (r: Option<u32>)
        ensures
            final(self).buf@ == old(self).buf@,
            r == if old(self).pos + 4 <= old(self).buf@.len() {
                Some(le32(old(self).buf@, old(self).pos as int))
            } else {
                None
            },
            r is Some ==> final(self).pos == old(self).pos + 4,
    {
        if self.pos >= self.buf.len() || self.buf.len() - self.pos < 4 {
            return None;
        }
        let p = self.pos;
        let v = (self.buf[p] as u32) | ((self.buf[p + 1] as u32) << 8u32) | ((self.buf[p
            + 2] as u32) << 16u32) | ((self.buf[p + 3] as u32) << 24u32);
        self.pos = p + 4;
        Some(v)
    }

    /// Advance to the next 4-byte boundary, as each `DLGITEMTEMPLATE`
    /// requires.
    fn align4(&mut self)
        requires
            old(self).pos + 3 <= usize::MAX,
        ensures
            final(self).buf@ == old(self).buf@,
            final(self).pos == align4(old(self).pos as int),
    {
        let p3 = self.pos + 3;
        let q = p3 & !3usize;
        assert((p3 & !3usize) == p3 - p3 % 4) by (bit_vector);
        self.pos = q;
    }

    /// The NUL-terminated units from the cursor on.
    fn units(&mut self) -> (r: Option<Vec<u16>>)
        ensures
            final(self).buf@ == old(self).buf@,
            match units_to_nul(old(self).buf@, old(self).pos as int) {
                Some((us, q)) => r matches Some(v) && v@ == us && final(self).pos == q,
                None => r is None,
            },
    {
        if self.pos > self.buf.len() {
            return None;
        }
        let ghost start = self.pos as int;
        let mut units: Vec<u16> = Vec::new();
        loop
            invariant
                self.buf@ == old(self).buf@,
                start == old(self).pos,
                start <= self.pos <= self.buf@.len(),
                units_to_nul(self.buf@, start) == match units_to_nul(self.buf@, self.pos as int) {
                    Some((rest, q)) => Some((units@ + rest, q)),
                    None => None,
                },
            decreases self.buf@.len() - self.pos,
        {
            let before = self.pos;
            match self.u16() {
                None => {
                    assert(units_to_nul(self.buf@, before as int) is None);
                    return None;
                },
                Some(0) => {
                    assert(units_to_nul(self.buf@, before as int) == Some((Seq::<u16>::empty(), before + 2)));
                    assert(units@ + Seq::<u16>::empty() == units@);
                    return Some(units);
                },
                Some(u) => {
                    proof {
                        let tail = units_to_nul(self.buf@, self.pos as int);
                        if let Some((rest, q)) = tail {
                            assert(units@.push(u) + rest == units@ + (seq![u] + rest));
                        }
                    }
                    units.push(u);
                    assert(self.pos == before + 2);
                },
            }
        }
    }

    /// A `sz_Or_Ord`: nothing, an ordinal, or a NUL-terminated UTF-16
    /// string.
    fn sz_or_ord(&mut self) -> (r: Option<Option<ItemClass>>)
        ensures
            final(self).buf@ == old(self).buf@,
            match sz_or_ord_at(old(self).buf@, old(self).pos as int) {
                Some((c, q)) => r matches Some(v) && final(self).pos == q && match (v, c) {
                    (None, None) => true,
                    (Some(cls), Some(cv)) => cls@ == cv,
                    _ => false,
                },
                None => r is None,
            },
    {
        let first = match self.u16() {
            Some(u) => u,
            None => return None,
        };
        if first == 0 {
            Some(None)
        } else if first == 0xFFFF {
            match self.u16() {
                Some(o) => Some(Some(ItemClass::Ordinal(o))),
                None => None,
            }
        } else {
            match self.units() {
                Some(rest) => {
                    let mut all: Vec<u16> = Vec::new();
                    all.push(first);
                    let mut i: usize = 0;
                    while i < rest.len()
                        invariant
                            0 <= i <= rest@.len(),
                            all@ == seq![first] + rest@.take(i as int),
                        decreases rest@.len() - i,
                    {
                        assert(seq![first] + rest@.take(i + 1) =~= (seq![first] + rest@.take(
                            i as int,
                        )).push(rest@[i as int]));
                        all.push(rest[i]);
                        i = i + 1;
                    }
                    assert(rest@.take(rest@.len() as int) =~= rest@);
                    Some(Some(ItemClass::Named(string_from_utf16_lossy(all.as_slice()))))
                },
                None => None,
            }
        }
    }

    /// The same field where only a string is meaningful — a title given
    /// as an ordinal is a resource id we cannot resolve, so it reads as
    /// empty.
    fn sz(&mut self) -> (r: Option<String>)
        ensures
            final(self).buf@ == old(self).buf@,
            match sz_at(old(self).buf@, old(self).pos as int) {
                Some((s, q)) => r matches Some(v) && v@ == s && final(self).pos == q,
                None => r is None,
            },
    {
        match self.sz_or_ord() {
            Some(Some(ItemClass::Named(s))) => Some(s),
            Some(_) => Some(String::new()),
            None => None,
        }
    }

    /// One `DLGITEMTEMPLATE`, from the next 4-byte boundary on, and its
    /// creation data stepped over.
    fn item(&mut self) -> (r: Option<DialogItem>)
        ensures
            final(self).buf@ == old(self).buf@,
            match item_at(old(self).buf@, old(self).pos as int) {
                Some((it, q)) => r matches Some(v) && v@ == it && final(self).pos == q,
                None => r is None,
            },
    {
        let ghost b = self.buf@;
        let ghost p0 = self.pos as int;
        if self.pos > self.buf.len() || self.pos > usize::MAX - 3 {
            assert(align4(p0) >= p0);
            return None;
        }
        self.align4();
        let ghost p = self.pos as int;
        let style = match self.u32() {
            Some(v) => v,
            None => return None,
        };
        let ex_style = match self.u32() {
            Some(v) => v,
            None => return None,
        };
        let x = match self.i16() {
            Some(v) => v,
            None => return None,
        };
        let y = match self.i16() {
            Some(v) => v,
            None => return None,
        };
        let cx = match self.i16() {
            Some(v) => v,
            None => return None,
        };
        let cy = match self.i16() {
            Some(v) => v,
            None => return None,
        };
        let id = match self.u16() {
            Some(v) => v,
            None => return None,
        };
        assert(self.pos == p + 18);
        let class = match self.sz_or_ord() {
            Some(c) => c,
            None => return None,
        };
        let title = match self.sz() {
            Some(t) => t,
            None => return None,
        };
        let cb = match self.u16() {
            Some(v) => v,
            None => return None,
        };
        // Creation data: a counted blob handed to the control's
        // WM_CREATE. Nothing here reads it, but it has to be stepped
        // over to reach the next item.
        let end = match self.pos.checked_add(cb as usize) {
            Some(e) => e,
            None => return None,
        };
        self.pos = end;
        match class {
            Some(class) => Some(DialogItem { style, ex_style, x, y, cx, cy, id, class, title }),
            None => None,
        }
    }
}

/// Parse a `DLGTEMPLATE` and its items.
///
/// Returns `None` if the buffer is too short or the header is not
/// plausibly a template — a guest passing a bad pointer must not take
/// the emulator down with it.
pub fn parse(buf: &[u8]) -> (r: Option<DialogTemplate>)
    ensures
        match template_of(buf@) {
            Some(t) => r matches Some(v) && v@ == t,
            None => r is None,
        },
{
    let mut r = Reader::new(buf);
    let style = match r.u32() {
        Some(v) => v,
        None => return None,
    };
    let ex_style = match r.u32() {
        Some(v) => v,
        None => return None,
    };
    let cdit = match r.u16() {
        Some(v) => v,
        None => return None,
    };
    let x = match r.i16() {
        Some(v) => v,
        None => return None,
    };
    let y = match r.i16() {
        Some(v) => v,
        None => return None,
    };
    let cx = match r.i16() {
        Some(v) => v,
        None => return None,
    };
    let cy = match r.i16() {
        Some(v) => v,
        None => return None,
    };
    assert(r.pos == 18);
    // `DLGTEMPLATEEX` starts with a version/signature pair of 1 and
    // 0xFFFF. It is not implemented, and misreading one as a classic
    // template would produce nonsense geometry.
    if style & 0xFFFF == 0x0001 && style >> 16u32 == 0xFFFF {
        return None;
    }
    // A dialog with no controls is not worth materialising, and a
    // four-digit count means this is not a template.
    if cdit == 0 || cdit > 255 {
        return None;
    }
    // menu and class, both usually absent for a dialog.
    match r.sz_or_ord() {
        Some(_) => {},
        None => return None,
    }
    match r.sz_or_ord() {
        Some(_) => {},
        None => return None,
    }
    let title = match r.sz() {
        Some(t) => t,
        None => return None,
    };
    let ghost p3 = r.pos as int;
    if style & DS_SETFONT != 0 {
        match r.u16() {
            Some(_) => {},
            None => return None,
        }
        match r.sz() {
            Some(_) => {},
            None => return None,
        }
    }
    let ghost b = buf@;
    let ghost p4 = r.pos as int;
    assert(font_end(b, style, p3) == Some(p4));
    let mut items: Vec<DialogItem> = Vec::new();
    let mut i: u16 = 0;
    while i < cdit
        invariant
            r.buf@ == b,
            b == buf@,
            0 <= i <= cdit,
            items_at(b, p4, cdit as nat) is None ==> template_of(b) is None,
            items_at(b, p4, cdit as nat) == match items_at(b, r.pos as int, (cdit - i) as nat) {
                Some(rest) => Some(items@.map_values(|d: DialogItem| d@) + rest),
                None => None,
            },
        decreases cdit - i,
    {
        let ghost before = r.pos as int;
        let ghost done = items@.map_values(|d: DialogItem| d@);
        match r.item() {
            Some(it) => {
                proof {
                    let n = (cdit - i - 1) as nat;
                    assert(items_at(b, before, (n + 1) as nat) == match items_at(b, r.pos as int, n) {
                        Some(rest) => Some(seq![it@] + rest),
                        None => None,
                    });
                    if let Some(rest) = items_at(b, r.pos as int, n) {
                        assert(done + (seq![it@] + rest) == done.push(it@) + rest);
                    }
                }
                items.push(it);
                assert(items@.map_values(|d: DialogItem| d@) =~= done.push(it@));
            },
            None => {
                assert(items_at(b, before, (cdit - i) as nat) is None);
                return None;
            },
        }
        i = i + 1;
    }
    assert(items@.map_values(|d: DialogItem| d@) + Seq::<ItemView>::empty() =~= items@.map_values(|d: DialogItem| d@));
    Some(DialogTemplate { style, ex_style, x, y, cx, cy, title, items })
}

} // verus!
