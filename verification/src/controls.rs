//! Built-in `BUTTON`, `EDIT` and `STATIC` window controls.
//!
//! On a real device these come from the OS: `CreateWindowExW` with a
//! system class name hands back a window whose procedure lives inside
//! `coredll`. That procedure owns the control's pixels, keeps its text,
//! tracks focus, and turns stylus taps into `WM_COMMAND` notifications
//! for the parent. This module models those controls: each one gets its
//! own handle, its own rectangle in parent-client coordinates, and
//! paints itself after the parent's `WM_PAINT`.
use vstd::prelude::*;

pub mod laws;
pub mod paint;

use crate::text::{ascii_folded, eq_ignore_ascii_case, string_pop, string_push};

verus! {

/// Which built-in window class a control was created from.
#[derive(Debug, Clone, Copy, PartialEq, Eq, Structural)]
pub enum ControlClass {
    Button,
    Edit,
    Static,
}

/// The built-in class a `CreateWindowExW` class name selects. Win32
/// class names are case-insensitive.
pub open spec fn class_named(name: Seq<char>) -> Option<ControlClass> {
    if ascii_folded(name) == seq!['b', 'u', 't', 't', 'o', 'n'] {
        Some(ControlClass::Button)
    } else if ascii_folded(name) == seq!['e', 'd', 'i', 't'] {
        Some(ControlClass::Edit)
    } else if ascii_folded(name) == seq!['s', 't', 'a', 't', 'i', 'c'] {
        Some(ControlClass::Static)
    } else {
        None
    }
}

impl ControlClass {
    /// Match a `CreateWindowExW` class name against the built-in
    /// classes. Apps are inconsistent about case — CERF BlankApp passes
    /// `BUTTON` and `EDIT`, MFC-generated code tends to pass `Button`.
    pub fn from_class_name(name: &str) -> (r: Option<Self>)
        ensures
            r == class_named(name@),
    {
        proof {
            reveal_strlit("BUTTON");
            reveal_strlit("EDIT");
            reveal_strlit("STATIC");
            assert(ascii_folded("BUTTON"@) =~= seq!['b', 'u', 't', 't', 'o', 'n']);
            assert(ascii_folded("EDIT"@) =~= seq!['e', 'd', 'i', 't']);
            assert(ascii_folded("STATIC"@) =~= seq!['s', 't', 'a', 't', 'i', 'c']);
        }
        if eq_ignore_ascii_case(name, "BUTTON") {
            Some(ControlClass::Button)
        } else if eq_ignore_ascii_case(name, "EDIT") {
            Some(ControlClass::Edit)
        } else if eq_ignore_ascii_case(name, "STATIC") {
            Some(ControlClass::Static)
        } else {
            None
        }
    }
}

/// `BS_*` button type, held in the low nibble of a `BUTTON`'s style.
pub const BS_TYPE_MASK: u32 = 0x000F;
pub const BS_DEFPUSHBUTTON: u32 = 0x0001;
pub const BS_CHECKBOX: u32 = 0x0002;
pub const BS_AUTOCHECKBOX: u32 = 0x0003;
pub const BS_RADIOBUTTON: u32 = 0x0004;
/// `BS_GROUPBOX` — not a button at all: an etched frame with its
/// caption let into the top-left of the border.
pub const BS_GROUPBOX: u32 = 0x0007;
pub const BS_AUTORADIOBUTTON: u32 = 0x0009;

/// `IDOK`, reported when the caption bar's OK box is tapped.
pub const IDOK: u32 = 1;

/// `WS_VISIBLE`.
pub const WS_VISIBLE: u32 = 0x1000_0000;

/// `WS_DISABLED`.
pub const WS_DISABLED: u32 = 0x0800_0000;

/// Height of a dialog's caption bar.
pub const CAPTION_H: i32 = 14;

/// Height of the boxes in the caption.
pub const BOX_H: i32 = 11;

/// Width of the caption's OK box: two glyphs plus padding.
pub const OK_BOX: i32 = 16;

/// Side of the square `?` box.
pub const HELP_BOX: i32 = 11;

/// Gap between the two caption boxes.
pub const BOX_GAP: i32 = 2;

/// A rectangle `(x, y, w, h)` in mathematical integers.
pub type Rect = (int, int, int, int);

/// Is `(px, py)` inside `r`? Left and top edges are inside, right and
/// bottom edges are not.
pub open spec fn in_rect(r: Rect, px: int, py: int) -> bool {
    r.0 <= px < r.0 + r.2 && r.1 <= py < r.1 + r.3
}

/// A dialog window that owns controls, positioned in screen space.
///
/// Dialogs built from a `DLGTEMPLATE` are containers: the template gives
/// the panel a rectangle and every item a rectangle *inside* it. Keeping
/// the panel — rather than flattening its children to screen coordinates
/// at creation — is what lets the application move the whole thing
/// afterwards.
#[derive(Debug)]
pub struct DialogPanel {
    pub hwnd: u32,
    /// Top-left of the *window*, in screen coordinates. Children are
    /// laid out relative to the client area just inside the border.
    pub x: i32,
    pub y: i32,
    pub w: i32,
    pub h: i32,
    pub visible: bool,
    /// `WS_BORDER` — the one-pixel black frame around the panel.
    pub border: bool,
    /// Title shown in the caption bar, for a dialog that has one. `None`
    /// is a bare panel.
    pub caption: Option<String>,
    /// Is the OK box currently held down?
    pub ok_pressed: bool,
}

impl Clone for DialogPanel {
    fn clone(&self) -> (r: Self)
        ensures
            r == *self,
    {
        let caption = match &self.caption {
            Some(s) => Some(s.clone()),
            None => None,
        };
        DialogPanel {
            hwnd: self.hwnd,
            x: self.x,
            y: self.y,
            w: self.w,
            h: self.h,
            visible: self.visible,
            border: self.border,
            caption,
            ok_pressed: self.ok_pressed,
        }
    }
}

/// One pixel of inset for a bordered panel, none otherwise.
pub open spec fn inset_of(p: DialogPanel) -> int {
    if p.border {
        1
    } else {
        0
    }
}

/// Height the caption takes off the top of the window, or 0.
pub open spec fn caption_height(p: DialogPanel) -> int {
    if p.caption is Some {
        CAPTION_H as int
    } else {
        0
    }
}

/// Screen position of a panel's client area.
pub open spec fn origin_of(p: DialogPanel) -> (int, int) {
    (p.x + inset_of(p), p.y + inset_of(p) + caption_height(p))
}

/// The OK box of a captioned panel: at the right end of the caption,
/// one pixel in from its top.
pub open spec fn ok_rect(p: DialogPanel) -> Option<Rect> {
    if p.caption is Some {
        let pad = (CAPTION_H - BOX_H) / 2;
        Some(
            (
                p.x + p.w - inset_of(p) - pad - OK_BOX,
                p.y + inset_of(p) + pad,
                OK_BOX as int,
                BOX_H as int,
            ),
        )
    } else {
        None
    }
}

/// The `?` box, immediately left of the OK box.
pub open spec fn help_rect(p: DialogPanel) -> Option<Rect> {
    match ok_rect(p) {
        Some(r) => Some((r.0 - BOX_GAP - HELP_BOX, r.1, HELP_BOX as int, r.3)),
        None => None,
    }
}

/// Does every coordinate of the OK box fit an `i32`?
pub open spec fn ok_box_fits(p: DialogPanel) -> bool {
    &&& i32::MIN <= p.x + p.w - 18
    &&& i32::MIN <= p.x + p.w <= i32::MAX
    &&& p.y + 2 <= i32::MAX
}

/// Does every coordinate of the `?` box fit an `i32`?
pub open spec fn help_box_fits(p: DialogPanel) -> bool {
    &&& ok_box_fits(p)
    &&& i32::MIN <= p.x + p.w - 31
}

impl DialogPanel {
    /// Height the caption takes off the top of the window, or 0.
    pub fn caption_h(&self) -> (r: i32)
        ensures
            r == caption_height(*self),
    {
        if self.caption.is_some() {
            CAPTION_H
        } else {
            0
        }
    }

    /// Client origin: one pixel in from each edge when the panel has a
    /// border, and below the caption bar when it has one.
    pub fn client_origin(&self) -> (r: (i32, i32))
        requires
            self.x + 1 <= i32::MAX,
            self.y + 1 + CAPTION_H <= i32::MAX,
        ensures
            r.0 == origin_of(*self).0,
            r.1 == origin_of(*self).1,
    {
        let inset: i32 = if self.border {
            1
        } else {
            0
        };
        (self.x + inset, self.y + inset + self.caption_h())
    }

    /// The client origin in 64-bit arithmetic, where it cannot overflow.
    fn origin_wide(&self) -> (r: (i64, i64))
        ensures
            r.0 == origin_of(*self).0,
            r.1 == origin_of(*self).1,
    {
        let inset: i64 = if self.border {
            1
        } else {
            0
        };
        (self.x as i64 + inset, self.y as i64 + inset + self.caption_h() as i64)
    }

    /// Screen rectangle of the OK box, for a captioned dialog.
    ///
    /// Windows CE has no close button on a dialog: the shell puts a
    /// single OK box at the right end of the caption, and tapping it is
    /// how the user accepts the dialog.
    pub fn ok_box(&self) -> (r: Option<(i32, i32, i32, i32)>)
        requires
            ok_box_fits(*self),
        ensures
            r.is_some() == ok_rect(*self).is_some(),
            r matches Some(b) ==> (b.0 as int, b.1 as int, b.2 as int, b.3 as int) == ok_rect(
                *self,
            ).unwrap(),
    {
        if self.caption.is_none() {
            return None;
        }
        let inset: i32 = if self.border {
            1
        } else {
            0
        };
        let pad = (CAPTION_H - BOX_H) / 2;
        Some((self.x + self.w - inset - pad - OK_BOX, self.y + inset + pad, OK_BOX, BOX_H))
    }

    /// Screen rectangle of the `?` box, immediately left of the OK one.
    /// It is drawn but inert: tapping it must not be mistaken for OK.
    pub fn help_box(&self) -> (r: Option<(i32, i32, i32, i32)>)
        requires
            help_box_fits(*self),
        ensures
            r.is_some() == help_rect(*self).is_some(),
            r matches Some(b) ==> (b.0 as int, b.1 as int, b.2 as int, b.3 as int) == help_rect(
                *self,
            ).unwrap(),
    {
        match self.ok_box() {
            Some((bx, by, _bw, bh)) => Some((bx - BOX_GAP - HELP_BOX, by, HELP_BOX, bh)),
            None => None,
        }
    }

    /// Is `(x, y)`, in screen coordinates, inside the OK box?
    pub fn ok_box_contains(&self, x: i32, y: i32) -> (r: bool)
        ensures
            r == (ok_rect(*self) matches Some(b) && in_rect(b, x as int, y as int)),
    {
        if self.caption.is_none() {
            return false;
        }
        let inset: i64 = if self.border {
            1
        } else {
            0
        };
        let pad = ((CAPTION_H - BOX_H) / 2) as i64;
        let bx = self.x as i64 + self.w as i64 - inset - pad - OK_BOX as i64;
        let by = self.y as i64 + inset + pad;
        let (px, py) = (x as i64, y as i64);
        px >= bx && px < bx + OK_BOX as i64 && py >= by && py < by + BOX_H as i64
    }

    /// Is `(x, y)` anywhere inside this panel's window rectangle?
    pub fn contains(&self, x: i32, y: i32) -> (r: bool)
        ensures
            r == in_rect((self.x as int, self.y as int, self.w as int, self.h as int), x as int, y as int),
    {
        let (px, py) = (x as i64, y as i64);
        px >= self.x as i64 && px < self.x as i64 + self.w as i64 && py >= self.y as i64 && py
            < self.y as i64 + self.h as i64
    }
}

/// One built-in control owned by the emulator rather than by the guest.
#[derive(Debug)]
pub struct ChildWindow {
    /// Handle handed back to the guest from `CreateWindowExW`.
    pub hwnd: u32,
    /// Owning top-level window.
    pub parent: u32,
    pub class: ControlClass,
    /// Control id — what `GetDlgItem` looks up and what the parent
    /// matches on in `LOWORD(wParam)` of `WM_COMMAND`.
    pub id: u32,
    pub style: u32,
    /// Current caption / edit contents.
    pub text: String,
    /// Rectangle in parent-client coordinates.
    pub x: i32,
    pub y: i32,
    pub w: i32,
    pub h: i32,
    pub visible: bool,
    /// `WS_DISABLED` clear. A disabled control never takes the focus and
    /// swallows taps without notifying its parent.
    pub enabled: bool,
    /// Depressed while the stylus is held down inside a push button.
    pub pressed: bool,
    /// `BM_SETCHECK` state of a check box or radio button.
    pub checked: bool,
}

impl Clone for ChildWindow {
    fn clone(&self) -> (r: Self)
        ensures
            r == *self,
    {
        ChildWindow {
            hwnd: self.hwnd,
            parent: self.parent,
            class: self.class,
            id: self.id,
            style: self.style,
            text: self.text.clone(),
            x: self.x,
            y: self.y,
            w: self.w,
            h: self.h,
            visible: self.visible,
            enabled: self.enabled,
            pressed: self.pressed,
            checked: self.checked,
        }
    }
}

/// The `BS_*` type of a button, or `None` for the other classes.
pub open spec fn button_kind(c: ChildWindow) -> Option<u32> {
    if c.class == ControlClass::Button {
        Some(c.style & BS_TYPE_MASK)
    } else {
        None
    }
}

pub open spec fn is_group_box_spec(c: ChildWindow) -> bool {
    button_kind(c) == Some(BS_GROUPBOX)
}

pub open spec fn is_auto_check_spec(c: ChildWindow) -> bool {
    button_kind(c) == Some(BS_AUTOCHECKBOX) || button_kind(c) == Some(BS_AUTORADIOBUTTON)
}

pub open spec fn is_check_like_spec(c: ChildWindow) -> bool {
    button_kind(c) == Some(BS_CHECKBOX) || button_kind(c) == Some(BS_AUTOCHECKBOX) || button_kind(c)
        == Some(BS_RADIOBUTTON) || button_kind(c) == Some(BS_AUTORADIOBUTTON)
}

pub open spec fn is_push_button_spec(c: ChildWindow) -> bool {
    button_kind(c) is Some && !is_check_like_spec(c) && !is_group_box_spec(c)
}

pub open spec fn is_focusable_spec(c: ChildWindow) -> bool {
    c.class != ControlClass::Static && c.enabled && !is_group_box_spec(c)
}

/// The control's rectangle in parent-client coordinates.
pub open spec fn rect_of(c: ChildWindow) -> Rect {
    (c.x as int, c.y as int, c.w as int, c.h as int)
}

impl ChildWindow {
    /// Is `(px, py)`, in parent-client coordinates, inside this control?
    pub fn contains(&self, px: i32, py: i32) -> (r: bool)
        ensures
            r == in_rect(rect_of(*self), px as int, py as int),
    {
        self.contains_wide(px as i64, py as i64)
    }

    fn contains_wide(&self, px: i64, py: i64) -> (r: bool)
        requires
            i32::MIN - 2 * i32::MAX <= px <= 2 * i32::MAX - i32::MIN,
            i32::MIN - 2 * i32::MAX <= py <= 2 * i32::MAX - i32::MIN,
        ensures
            r == in_rect(rect_of(*self), px as int, py as int),
    {
        px >= self.x as i64 && px < self.x as i64 + self.w as i64 && py >= self.y as i64 && py
            < self.y as i64 + self.h as i64
    }

    /// `BS_*` type of a button, or `None` for the other classes.
    fn button_type(&self) -> (r: Option<u32>)
        ensures
            r == button_kind(*self),
    {
        if self.class == ControlClass::Button {
            Some(self.style & BS_TYPE_MASK)
        } else {
            None
        }
    }

    /// A push button — the kind that sends `BN_CLICKED` and pops back
    /// up, as opposed to a check box or radio button that latches, or a
    /// group box that is not interactive at all.
    pub fn is_push_button(&self) -> (r: bool)
        ensures
            r == is_push_button_spec(*self),
    {
        match self.button_type() {
            Some(t) => t != BS_CHECKBOX && t != BS_AUTOCHECKBOX && t != BS_RADIOBUTTON && t
                != BS_AUTORADIOBUTTON && t != BS_GROUPBOX,
            None => false,
        }
    }

    /// `BS_GROUPBOX` — a frame around a set of related controls.
    pub fn is_group_box(&self) -> (r: bool)
        ensures
            r == is_group_box_spec(*self),
    {
        self.button_type() == Some(BS_GROUPBOX)
    }

    /// A button that latches its check state when clicked. Only the
    /// `AUTO` variants toggle themselves.
    pub fn is_auto_check(&self) -> (r: bool)
        ensures
            r == is_auto_check_spec(*self),
    {
        match self.button_type() {
            Some(t) => t == BS_AUTOCHECKBOX || t == BS_AUTORADIOBUTTON,
            None => false,
        }
    }

    /// Any latching button, auto or not — these draw a box rather than
    /// a raised face.
    fn is_check_like(&self) -> (r: bool)
        ensures
            r == is_check_like_spec(*self),
    {
        match self.button_type() {
            Some(t) => t == BS_CHECKBOX || t == BS_AUTOCHECKBOX || t == BS_RADIOBUTTON || t
                == BS_AUTORADIOBUTTON,
            None => false,
        }
    }

    /// `BS_DEFPUSHBUTTON` — drawn with the extra black outline that
    /// marks the button `VK_RETURN` would activate.
    fn is_default(&self) -> (r: bool)
        ensures
            r == (button_kind(*self) == Some(BS_DEFPUSHBUTTON)),
    {
        self.button_type() == Some(BS_DEFPUSHBUTTON)
    }

    /// Can this control take the input focus? Statics never do, and
    /// neither does a disabled control nor a group box.
    pub fn is_focusable(&self) -> (r: bool)
        ensures
            r == is_focusable_spec(*self),
    {
        self.class != ControlClass::Static && self.enabled && !self.is_group_box()
    }
}

/// What a stylus or key event did to the control set, so the caller can
/// synthesise the window message a real control would have sent.
#[derive(Debug, Clone, Copy, PartialEq, Eq, Structural)]
pub enum ControlAction {
    /// A push button was released inside its own rectangle, or a check
    /// box latched: the parent must receive
    /// `WM_COMMAND(MAKEWPARAM(id, BN_CLICKED), hwndChild)`.
    Clicked { parent: u32, id: u32, hwnd: u32 },
    /// The event was consumed by a control (focus change, a character
    /// typed into an edit) but produces no notification.
    Consumed,
}

/// First handle handed out to a control, in the same `0xDEAD_xxxx`
/// space as the other synthetic window handles.
pub const HWND_BASE: u32 = 0xDEAD_0E00;

/// One past the last control handle.
pub const HWND_END: u32 = 0xDEAD_0F00;

/// The abstract state of a [`Controls`] set.
pub struct ControlsView {
    pub children: Seq<ChildWindow>,
    pub panels: Seq<DialogPanel>,
    pub focus: u32,
    pub next_hwnd: u32,
    pub capture: u32,
}

/// Every built-in control the guest has created, plus the focus.
#[derive(Debug)]
pub struct Controls {
    children: Vec<ChildWindow>,
    /// Dialog panels created from a `DLGTEMPLATE`. A child whose parent
    /// is one of these is positioned relative to it.
    panels: Vec<DialogPanel>,
    /// Handle of the control holding the input focus, or `0`.
    pub focus: u32,
    next_hwnd: u32,
    /// Push button the stylus went down on. Win32 captures the mouse
    /// here: releasing outside the button cancels the click instead of
    /// notifying the parent.
    capture: u32,
}

impl View for Controls {
    type V = ControlsView;

    closed spec fn view(&self) -> ControlsView {
        ControlsView {
            children: self.children@,
            panels: self.panels@,
            focus: self.focus,
            next_hwnd: self.next_hwnd,
            capture: self.capture,
        }
    }
}

/// Index of the first of the first `n` children with handle `h`.
pub open spec fn child_pos(cs: Seq<ChildWindow>, h: u32, n: nat) -> Option<int>
    decreases n,
{
    if n == 0 {
        None
    } else {
        match child_pos(cs, h, (n - 1) as nat) {
            Some(i) => Some(i),
            None => if cs[n - 1].hwnd == h {
                Some(n - 1)
            } else {
                None
            },
        }
    }
}

/// Index of the first child with handle `h`.
pub open spec fn find_child(cs: Seq<ChildWindow>, h: u32) -> Option<int> {
    child_pos(cs, h, cs.len())
}

/// Index of the first of the first `n` panels with handle `h`.
pub open spec fn panel_pos(ps: Seq<DialogPanel>, h: u32, n: nat) -> Option<int>
    decreases n,
{
    if n == 0 {
        None
    } else {
        match panel_pos(ps, h, (n - 1) as nat) {
            Some(i) => Some(i),
            None => if ps[n - 1].hwnd == h {
                Some(n - 1)
            } else {
                None
            },
        }
    }
}

/// Index of the first panel with handle `h`.
pub open spec fn find_panel(ps: Seq<DialogPanel>, h: u32) -> Option<int> {
    panel_pos(ps, h, ps.len())
}

/// Index of the first of the first `n` children of `parent` with `id`.
pub open spec fn id_pos(cs: Seq<ChildWindow>, parent: u32, id: u32, n: nat) -> Option<int>
    decreases n,
{
    if n == 0 {
        None
    } else {
        match id_pos(cs, parent, id, (n - 1) as nat) {
            Some(i) => Some(i),
            None => if cs[n - 1].parent == parent && cs[n - 1].id == id {
                Some(n - 1)
            } else {
                None
            },
        }
    }
}

/// Screen-space origin a child of `parent` is positioned against: its
/// panel's client origin, or `(0, 0)` under a full-screen frame window.
pub open spec fn parent_origin_of(s: ControlsView, parent: u32) -> (int, int) {
    match find_panel(s.panels, parent) {
        Some(k) => origin_of(s.panels[k]),
        None => (0, 0),
    }
}

/// Is this control on screen — itself visible, and inside a panel that
/// is?
pub open spec fn showing(s: ControlsView, c: ChildWindow) -> bool {
    c.visible && match find_panel(s.panels, c.parent) {
        Some(k) => s.panels[k].visible,
        None => true,
    }
}

/// Can a tap at screen `(x, y)` land on `c`? Group boxes never answer.
pub open spec fn hittable(s: ControlsView, c: ChildWindow, x: int, y: int) -> bool {
    let o = parent_origin_of(s, c.parent);
    !is_group_box_spec(c) && showing(s, c) && in_rect(rect_of(c), x - o.0, y - o.1)
}

/// Index of the last of the first `n` children a tap at `(x, y)` lands on.
pub open spec fn hit_pos(s: ControlsView, x: int, y: int, n: nat) -> Option<int>
    decreases n,
{
    if n == 0 {
        None
    } else if hittable(s, s.children[n - 1], x, y) {
        Some(n - 1)
    } else {
        hit_pos(s, x, y, (n - 1) as nat)
    }
}

/// Index of the topmost control a tap at `(x, y)` lands on: later
/// controls sit on top.
pub open spec fn hit(s: ControlsView, x: int, y: int) -> Option<int> {
    hit_pos(s, x, y, s.children.len())
}

/// The handle a tap at `(x, y)` lands on, if any.
pub open spec fn hit_hwnd(s: ControlsView, x: int, y: int) -> Option<u32> {
    match hit(s, x, y) {
        Some(i) => Some(s.children[i].hwnd),
        None => None,
    }
}

/// The control set with child `j` replaced.
pub open spec fn with_child(s: ControlsView, j: int, c: ChildWindow) -> ControlsView {
    ControlsView { children: s.children.update(j, c), ..s }
}

/// The control set with panel `k` replaced.
pub open spec fn with_panel(s: ControlsView, k: int, p: DialogPanel) -> ControlsView {
    ControlsView { panels: s.panels.update(k, p), ..s }
}

/// Stylus down at `(x, y)`: the control set afterwards, and what to
/// report. The control hit takes the focus if it can, and a button
/// arms and captures the stylus.
pub open spec fn pointer_down_spec(s: ControlsView, x: int, y: int) -> (
    ControlsView,
    Option<ControlAction>,
) {
    match hit_hwnd(s, x, y) {
        None => (s, None),
        Some(h) => match find_child(s.children, h) {
            None => (s, None),
            Some(j) => {
                let c = s.children[j];
                if !is_focusable_spec(c) {
                    (s, Some(ControlAction::Consumed))
                } else if c.class == ControlClass::Button {
                    (
                        ControlsView {
                            children: s.children.update(j, ChildWindow { pressed: true, ..c }),
                            capture: h,
                            focus: h,
                            ..s
                        },
                        Some(ControlAction::Consumed),
                    )
                } else {
                    (ControlsView { focus: h, ..s }, Some(ControlAction::Consumed))
                }
            },
        },
    }
}

/// Stylus up at `(x, y)`. A button only notifies its parent when the
/// release lands back inside the rectangle the press started in; an
/// auto check box or radio button latches at the same moment.
pub open spec fn pointer_up_spec(s: ControlsView, x: int, y: int) -> (
    ControlsView,
    Option<ControlAction>,
) {
    if s.capture == 0 {
        (
            s,
            if hit(s, x, y) is Some {
                Some(ControlAction::Consumed)
            } else {
                None
            },
        )
    } else {
        let released = ControlsView { capture: 0, ..s };
        match find_child(s.children, s.capture) {
            None => (released, None),
            Some(j) => {
                let c = s.children[j];
                let o = parent_origin_of(s, c.parent);
                let up = ChildWindow { pressed: false, ..c };
                if !in_rect(rect_of(c), x - o.0, y - o.1) {
                    (with_child(released, j, up), Some(ControlAction::Consumed))
                } else {
                    let latched = if is_auto_check_spec(c) {
                        ChildWindow { checked: !c.checked, ..up }
                    } else {
                        up
                    };
                    (
                        with_child(released, j, latched),
                        Some(ControlAction::Clicked { parent: c.parent, id: c.id, hwnd: c.hwnd }),
                    )
                }
            },
        }
    }
}

/// The handle of the first child with handle `h`'s parent, if there is
/// such a child.
pub open spec fn parent_of(s: ControlsView, h: u32) -> Option<u32> {
    match find_child(s.children, h) {
        Some(j) => Some(s.children[j].parent),
        None => None,
    }
}

/// [`pointer_down_spec`] restricted to the children of `parent`, with
/// the caption's OK box tested first. Every event is consumed: a modal
/// dialog owns the stylus.
pub open spec fn pointer_down_in_spec(s: ControlsView, parent: u32, x: int, y: int) -> (
    ControlsView,
    Option<ControlAction>,
) {
    let on_ok = match find_panel(s.panels, parent) {
        Some(k) => ok_rect(s.panels[k]) matches Some(b) && in_rect(b, x, y),
        None => false,
    };
    if on_ok {
        let k = find_panel(s.panels, parent).unwrap();
        (
            with_panel(s, k, DialogPanel { ok_pressed: true, ..s.panels[k] }),
            Some(ControlAction::Consumed),
        )
    } else {
        match hit_hwnd(s, x, y) {
            Some(h) => if parent_of(s, h) == Some(parent) {
                pointer_down_spec(s, x, y)
            } else {
                (s, Some(ControlAction::Consumed))
            },
            None => (s, Some(ControlAction::Consumed)),
        }
    }
}

/// Keep a click only when it comes from a child of `parent`; anything
/// else is reported as consumed.
pub open spec fn only_from(parent: u32, r: Option<ControlAction>) -> Option<ControlAction> {
    match r {
        Some(ControlAction::Clicked { parent: p, id, hwnd }) => if p == parent {
            r
        } else {
            Some(ControlAction::Consumed)
        },
        _ => Some(ControlAction::Consumed),
    }
}

/// [`pointer_up_spec`] restricted to the children of `parent`.
/// Releasing an armed OK box reports `IDOK` from the panel itself; a
/// press captured by a control of another window is dropped.
pub open spec fn pointer_up_in_spec(s: ControlsView, parent: u32, x: int, y: int) -> (
    ControlsView,
    Option<ControlAction>,
) {
    let armed = match find_panel(s.panels, parent) {
        Some(k) => s.panels[k].ok_pressed,
        None => false,
    };
    if armed {
        let k = find_panel(s.panels, parent).unwrap();
        let p = s.panels[k];
        (
            with_panel(s, k, DialogPanel { ok_pressed: false, ..p }),
            Some(
                if ok_rect(p) matches Some(b) && in_rect(b, x, y) {
                    ControlAction::Clicked { parent, id: IDOK, hwnd: p.hwnd }
                } else {
                    ControlAction::Consumed
                },
            ),
        )
    } else if s.capture != 0 && parent_of(s, s.capture) != Some(parent) {
        (ControlsView { capture: 0, ..s }, Some(ControlAction::Consumed))
    } else {
        let (t, r) = pointer_up_spec(s, x, y);
        (t, only_from(parent, r))
    }
}

/// Are `a` and `b` the same control except, possibly, for its text?
pub open spec fn same_but_text(a: ChildWindow, b: ChildWindow) -> bool {
    a == ChildWindow { text: a.text, ..b }
}

/// Are `s` and `t` the same except that the text of child `j` changed
/// from `before` to `after`?
pub open spec fn text_edited(s: ControlsView, t: ControlsView, j: int, after: Seq<char>) -> bool {
    &&& t.children.len() == s.children.len()
    &&& same_but_text(t.children[j], s.children[j])
    &&& t.children[j].text@ == after
    &&& forall|i: int| 0 <= i < s.children.len() && i != j ==> t.children[i] == s.children[i]
    &&& t.panels == s.panels
    &&& t.focus == s.focus
    &&& t.next_hwnd == s.next_hwnd
    &&& t.capture == s.capture
}

/// `VK_BACK`, `VK_RETURN`, `VK_SPACE`.
pub const VK_BACK: u16 = 0x08;

pub const VK_RETURN: u16 = 0x0D;

pub const VK_SPACE: u16 = 0x20;

/// What a key press does to the focused control: `s` becomes `t` and
/// `r` is reported. An edit rubs out on `VK_BACK` and appends the
/// character of any other key it knows; a button is clicked by space
/// or return; a disabled control swallows the key; anything else, or
/// no focus at all, leaves the key to the application.
pub open spec fn key_down_rel(s: ControlsView, vk: u16, t: ControlsView, r: Option<
    ControlAction,
>) -> bool {
    match find_child(s.children, s.focus) {
        None => t == s && r is None,
        Some(j) => {
            let c = s.children[j];
            if !c.enabled {
                t == s && r == Some(ControlAction::Consumed)
            } else if c.class == ControlClass::Edit {
                if vk == VK_BACK {
                    text_edited(
                        s,
                        t,
                        j,
                        if c.text@.len() == 0 {
                            c.text@
                        } else {
                            c.text@.drop_last()
                        },
                    ) && r == Some(ControlAction::Consumed)
                } else {
                    match vk_char(vk) {
                        Some(ch) => text_edited(s, t, j, c.text@.push(ch)) && r == Some(
                            ControlAction::Consumed,
                        ),
                        None => t == s && r is None,
                    }
                }
            } else if c.class == ControlClass::Button && (vk == VK_SPACE || vk == VK_RETURN) {
                t == with_child(
                    s,
                    j,
                    if is_auto_check_spec(c) {
                        ChildWindow { checked: !c.checked, ..c }
                    } else {
                        c
                    },
                ) && r == Some(ControlAction::Clicked { parent: c.parent, id: c.id, hwnd: c.hwnd })
            } else {
                t == s && r is None
            }
        },
    }
}

/// Is `c` inside the `first..=last` id range of `parent`'s controls?
pub open spec fn in_radio_range(c: ChildWindow, parent: u32, first: u32, last: u32) -> bool {
    c.parent == parent && first <= c.id && c.id <= last
}

/// How many of the first `n` children fall in the radio range.
pub open spec fn radio_count(cs: Seq<ChildWindow>, parent: u32, first: u32, last: u32, n: nat) -> nat
    decreases n,
{
    if n == 0 {
        0
    } else {
        radio_count(cs, parent, first, last, (n - 1) as nat) + if in_radio_range(
            cs[n - 1],
            parent,
            first,
            last,
        ) {
            1nat
        } else {
            0nat
        }
    }
}

/// `CheckRadioButton` applied to one control.
pub open spec fn radio_checked(c: ChildWindow, parent: u32, first: u32, last: u32, check: u32) -> ChildWindow {
    if in_radio_range(c, parent, first, last) {
        ChildWindow { checked: c.id == check, ..c }
    } else {
        c
    }
}

/// Was `h` the handle of some child of `parent`?
pub open spec fn owned_by(cs: Seq<ChildWindow>, parent: u32, h: u32) -> bool {
    exists|i: int| 0 <= i < cs.len() && cs[i].parent == parent && cs[i].hwnd == h
}

/// The control created by `create`.
pub open spec fn new_child(
    hwnd: u32,
    parent: u32,
    class: ControlClass,
    id: u32,
    text: String,
    style: u32,
    x: i32,
    y: i32,
    w: i32,
    h: i32,
) -> ChildWindow {
    ChildWindow {
        hwnd,
        parent,
        class,
        id,
        style,
        text,
        x,
        y,
        w,
        h,
        visible: style & WS_VISIBLE != 0,
        enabled: style & WS_DISABLED == 0,
        pressed: false,
        checked: false,
    }
}

/// The control set after `create` hands out the next handle to `c`.
pub open spec fn created(s: ControlsView, c: ChildWindow) -> ControlsView {
    ControlsView { children: s.children.push(c), next_hwnd: (s.next_hwnd + 1) as u32, ..s }
}

/// What the guest asks `create` for.
pub struct CreateRequest {
    pub parent: u32,
    pub class: ControlClass,
    pub id: u32,
    pub text: String,
    pub style: u32,
    pub x: i32,
    pub y: i32,
    pub w: i32,
    pub h: i32,
}

/// The control set after one `create` call, and the handle it returns:
/// the next handle while the range lasts, `0` and no change after.
pub open spec fn create_call(s: ControlsView, r: CreateRequest) -> (ControlsView, u32) {
    if s.next_hwnd >= HWND_END {
        (s, 0)
    } else {
        (
            created(s, new_child(s.next_hwnd, r.parent, r.class, r.id, r.text, r.style, r.x, r.y, r.w, r.h)),
            s.next_hwnd,
        )
    }
}

/// The control set after `add_panel(panel)`: any earlier panel with the
/// same handle is dropped and `panel` goes on top.
pub open spec fn panel_added(s: ControlsView, panel: DialogPanel) -> ControlsView {
    ControlsView {
        panels: s.panels.filter(|p: DialogPanel| p.hwnd != panel.hwnd).push(panel),
        ..s
    }
}

/// The control set after `check_radio_range(parent, first, last, check)`.
pub open spec fn radios_checked(s: ControlsView, parent: u32, first: u32, last: u32, check: u32) -> ControlsView {
    ControlsView {
        children: s.children.map_values(
            |c: ChildWindow| radio_checked(c, parent, first, last, check),
        ),
        ..s
    }
}

/// `h` with a destroyed handle replaced by `0`.
pub open spec fn unless_gone(h: u32, gone: bool) -> u32 {
    if gone {
        0
    } else {
        h
    }
}

/// The control set after `destroy(hwnd)`: the control is gone, and so
/// is any focus or capture it held.
pub open spec fn destroyed(s: ControlsView, hwnd: u32) -> ControlsView {
    ControlsView {
        children: s.children.filter(|c: ChildWindow| c.hwnd != hwnd),
        focus: unless_gone(s.focus, s.focus == hwnd),
        capture: unless_gone(s.capture, s.capture == hwnd),
        ..s
    }
}

/// The control set after `destroy_children_of(parent)`: every control
/// whose handle belonged to a child of `parent` is gone, with any focus
/// or capture it held, and so is `parent`'s panel.
pub open spec fn children_destroyed(s: ControlsView, parent: u32) -> ControlsView {
    ControlsView {
        children: s.children.filter(|c: ChildWindow| !owned_by(s.children, parent, c.hwnd)),
        panels: s.panels.filter(|p: DialogPanel| p.hwnd != parent),
        focus: unless_gone(s.focus, owned_by(s.children, parent, s.focus)),
        capture: unless_gone(s.capture, owned_by(s.children, parent, s.capture)),
        ..s
    }
}

/// The state every sequence of operations keeps: handles are handed out
/// in order from `HWND_BASE`, so every live control's handle lies in
/// the control range below `next_hwnd`, and no two controls share one.
pub open spec fn controls_wf(s: ControlsView) -> bool {
    &&& HWND_BASE <= s.next_hwnd <= HWND_END
    &&& forall|i: int| 0 <= i < s.children.len() ==> HWND_BASE <= #[trigger] s.children[i].hwnd < s.next_hwnd
    &&& forall|i: int, j: int| 0 <= i < j < s.children.len() ==> #[trigger] s.children[i].hwnd != #[trigger] s.children[j].hwnd
}

proof fn lemma_filter_take<A>(s: Seq<A>, pred: spec_fn(A) -> bool, i: int)
    requires
        0 <= i < s.len(),
    ensures
        s.take(i + 1).filter(pred) == if pred(s[i]) {
            s.take(i).filter(pred).push(s[i])
        } else {
            s.take(i).filter(pred)
        },
{
    reveal_with_fuel(Seq::<_>::filter, 1);
    assert(s.take(i + 1).drop_last() =~= s.take(i));
    assert(s.take(i + 1).last() == s[i]);
}

proof fn lemma_child_pos(cs: Seq<ChildWindow>, h: u32, n: nat)
    requires
        n <= cs.len(),
    ensures
        match child_pos(cs, h, n) {
            Some(i) => 0 <= i < n && cs[i].hwnd == h && forall|k: int| 0 <= k < i ==> cs[k].hwnd != h,
            None => forall|k: int| 0 <= k < n ==> cs[k].hwnd != h,
        },
    decreases n,
{
    if n > 0 {
        lemma_child_pos(cs, h, (n - 1) as nat);
    }
}

proof fn lemma_panel_pos(ps: Seq<DialogPanel>, h: u32, n: nat)
    requires
        n <= ps.len(),
    ensures
        match panel_pos(ps, h, n) {
            Some(i) => 0 <= i < n && ps[i].hwnd == h && forall|k: int| 0 <= k < i ==> ps[k].hwnd != h,
            None => forall|k: int| 0 <= k < n ==> ps[k].hwnd != h,
        },
    decreases n,
{
    if n > 0 {
        lemma_panel_pos(ps, h, (n - 1) as nat);
    }
}

proof fn lemma_id_pos(cs: Seq<ChildWindow>, parent: u32, id: u32, n: nat)
    requires
        n <= cs.len(),
    ensures
        match id_pos(cs, parent, id, n) {
            Some(i) => 0 <= i < n && cs[i].parent == parent && cs[i].id == id && forall|k: int|
                0 <= k < i ==> !(cs[k].parent == parent && cs[k].id == id),
            None => forall|k: int| 0 <= k < n ==> !(cs[k].parent == parent && cs[k].id == id),
        },
    decreases n,
{
    if n > 0 {
        lemma_id_pos(cs, parent, id, (n - 1) as nat);
    }
}

proof fn lemma_hit_pos(s: ControlsView, x: int, y: int, n: nat)
    requires
        n <= s.children.len(),
    ensures
        match hit_pos(s, x, y, n) {
            Some(i) => 0 <= i < n && hittable(s, s.children[i], x, y),
            None => forall|k: int| 0 <= k < n ==> !hittable(s, s.children[k], x, y),
        },
    decreases n,
{
    if n > 0 {
        lemma_hit_pos(s, x, y, (n - 1) as nat);
    }
}

impl Default for Controls {
    fn default() -> (c: Self)
        ensures
            c@.children.len() == 0,
            c@.panels.len() == 0,
            c@.focus == 0,
            c@.next_hwnd == HWND_BASE,
            c@.capture == 0,
    {
        Controls {
            children: Vec::new(),
            panels: Vec::new(),
            focus: 0,
            next_hwnd: HWND_BASE,
            capture: 0,
        }
    }
}

impl Controls {
    /// The control holding the input focus, or `0`: the `focus` field,
    /// as the view speaks of it. Verified callers read and set the focus
    /// through this and [`Self::set_focus`], since the view cannot see
    /// the field from outside this module.
    pub fn focused(&self) -> (r: u32)
        ensures
            r == self@.focus,
    {
        self.focus
    }

    /// Give the input focus to `hwnd` (`0` for none), changing nothing
    /// else: the same as assigning the `focus` field.
    pub fn set_focus(&mut self, hwnd: u32)
        ensures
            final(self)@ == (ControlsView { focus: hwnd, ..old(self)@ }),
    {
        self.focus = hwnd;
    }

    /// First handle handed out to a control.
    pub const HWND_BASE: u32 = 0xDEAD_0E00;

    /// One past the last control handle.
    pub const HWND_END: u32 = 0xDEAD_0F00;

    /// Does `hwnd` fall in the control handle range? Stateless so the
    /// `IsWindow` family can answer without borrowing the kernel.
    pub fn is_child_hwnd(hwnd: u32) -> (r: bool)
        ensures
            r == (HWND_BASE <= hwnd < HWND_END),
    {
        HWND_BASE <= hwnd && hwnd < HWND_END
    }

    fn child_index(&self, h: u32) -> (r: Option<usize>)
        ensures
            r is Some == find_child(self@.children, h) is Some,
            r matches Some(j) ==> find_child(self@.children, h) == Some(j as int) && j < self@.children.len(),
    {
        proof {
            lemma_child_pos(self.children@, h, self.children@.len());
        }
        let mut i: usize = 0;
        while i < self.children.len()
            invariant
                0 <= i <= self.children@.len(),
                forall|k: int| 0 <= k < i ==> self.children@[k].hwnd != h,
                child_pos(self.children@, h, self.children@.len()) matches Some(m) ==> i <= m,
            decreases self.children@.len() - i,
        {
            proof {
                lemma_child_pos(self.children@, h, self.children@.len());
            }
            if self.children[i].hwnd == h {
                proof {
                    lemma_child_pos(self.children@, h, self.children@.len());
                    if let Some(m) = child_pos(self.children@, h, self.children@.len()) {
                        if i < m {
                            assert(self.children@[i as int].hwnd != h);
                        }
                    }
                }
                return Some(i);
            }
            i = i + 1;
        }
        None
    }

    fn panel_index(&self, h: u32) -> (r: Option<usize>)
        ensures
            r is Some == find_panel(self@.panels, h) is Some,
            r matches Some(k) ==> find_panel(self@.panels, h) == Some(k as int) && k < self@.panels.len(),
    {
        proof {
            lemma_panel_pos(self.panels@, h, self.panels@.len());
        }
        let mut i: usize = 0;
        while i < self.panels.len()
            invariant
                0 <= i <= self.panels@.len(),
                forall|k: int| 0 <= k < i ==> self.panels@[k].hwnd != h,
                panel_pos(self.panels@, h, self.panels@.len()) matches Some(m) ==> i <= m,
            decreases self.panels@.len() - i,
        {
            proof {
                lemma_panel_pos(self.panels@, h, self.panels@.len());
            }
            if self.panels[i].hwnd == h {
                proof {
                    lemma_panel_pos(self.panels@, h, self.panels@.len());
                    if let Some(m) = panel_pos(self.panels@, h, self.panels@.len()) {
                        if i < m {
                            assert(self.panels@[i as int].hwnd != h);
                        }
                    }
                }
                return Some(i);
            }
            i = i + 1;
        }
        None
    }

    /// Register a new control and return its handle, or `0` if the
    /// handle range is exhausted.
    #[allow(clippy::too_many_arguments)]
    pub fn create(
        &mut self,
        parent: u32,
        class: ControlClass,
        id: u32,
        text: String,
        style: u32,
        x: i32,
        y: i32,
        w: i32,
        h: i32,
    ) -> (hwnd: u32)
        ensures
            old(self)@.next_hwnd >= HWND_END ==> hwnd == 0 && final(self)@ == old(self)@,
            old(self)@.next_hwnd < HWND_END ==> hwnd == old(self)@.next_hwnd && final(self)@
                == created(old(self)@, new_child(hwnd, parent, class, id, text, style, x, y, w, h)),
            (final(self)@, hwnd) == create_call(
                old(self)@,
                CreateRequest { parent, class, id, text, style, x, y, w, h },
            ),
    {
        if self.next_hwnd >= HWND_END {
            return 0;
        }
        let hwnd = self.next_hwnd;
        self.next_hwnd = self.next_hwnd + 1;
        self.children.push(
            ChildWindow {
                hwnd,
                parent,
                class,
                id,
                style,
                text,
                x,
                y,
                w,
                h,
                visible: style & WS_VISIBLE != 0,
                enabled: style & WS_DISABLED == 0,
                pressed: false,
                checked: false,
            },
        );
        hwnd
    }

    /// Register a dialog panel, replacing any previous one with the same
    /// handle — a guest that recreates a dialog gets a fresh panel
    /// rather than two stacked on each other.
    pub fn add_panel(&mut self, panel: DialogPanel)
        ensures
            final(self)@ == panel_added(old(self)@, panel),
    {
        let ghost pred = |p: DialogPanel| p.hwnd != panel.hwnd;
        let mut kept: Vec<DialogPanel> = Vec::new();
        let mut i: usize = 0;
        while i < self.panels.len()
            invariant
                0 <= i <= self.panels@.len(),
                kept@ == self.panels@.take(i as int).filter(pred),
                pred == (|p: DialogPanel| p.hwnd != panel.hwnd),
            decreases self.panels@.len() - i,
        {
            proof {
                lemma_filter_take(self.panels@, pred, i as int);
            }
            if self.panels[i].hwnd != panel.hwnd {
                kept.push(self.panels[i].clone());
            }
            i = i + 1;
        }
        assert(self.panels@.take(self.panels@.len() as int) == self.panels@);
        kept.push(panel);
        self.panels = kept;
    }

    /// The first panel with handle `hwnd`.
    pub fn panel(&self, hwnd: u32) -> (r: Option<&DialogPanel>)
        ensures
            r is Some == find_panel(self@.panels, hwnd) is Some,
            r matches Some(p) ==> *p == self@.panels[find_panel(self@.panels, hwnd).unwrap()],
    {
        match self.panel_index(hwnd) {
            Some(k) => Some(&self.panels[k]),
            None => None,
        }
    }

    /// The first panel with handle `hwnd`, for modification.
    pub fn panel_mut(&mut self, hwnd: u32) -> (r: Option<&mut DialogPanel>)
        ensures
            r is Some == find_panel(old(self)@.panels, hwnd) is Some,
            r is None ==> final(self)@ == old(self)@,
            r matches Some(p) ==> {
                let k = find_panel(old(self)@.panels, hwnd).unwrap();
                &&& *p == old(self)@.panels[k]
                &&& final(self)@ == with_panel(old(self)@, k, *final(p))
            },
    {
        match self.panel_index(hwnd) {
            Some(k) => Some(&mut self.panels[k]),
            None => None,
        }
    }

    /// Screen-space origin a child of `parent` is positioned against.
    fn parent_origin(&self, parent: u32) -> (r: (i64, i64))
        ensures
            r.0 == parent_origin_of(self@, parent).0,
            r.1 == parent_origin_of(self@, parent).1,
    {
        match self.panel_index(parent) {
            Some(k) => self.panels[k].origin_wide(),
            None => (0, 0),
        }
    }

    /// A child's rectangle in screen coordinates.
    pub fn screen_rect(&self, hwnd: u32) -> (r: Option<(i32, i32, i32, i32)>)
        requires
            find_child(self@.children, hwnd) matches Some(j) ==> {
                let c = self@.children[j];
                let o = parent_origin_of(self@, c.parent);
                &&& i32::MIN <= c.x + o.0 <= i32::MAX
                &&& i32::MIN <= c.y + o.1 <= i32::MAX
            },
        ensures
            r is Some == find_child(self@.children, hwnd) is Some,
            r matches Some(q) ==> {
                let c = self@.children[find_child(self@.children, hwnd).unwrap()];
                let o = parent_origin_of(self@, c.parent);
                q == ((c.x + o.0) as i32, (c.y + o.1) as i32, c.w, c.h)
            },
    {
        match self.child_index(hwnd) {
            Some(j) => {
                let c = &self.children[j];
                let (ox, oy) = self.parent_origin(c.parent);
                Some(((c.x as i64 + ox) as i32, (c.y as i64 + oy) as i32, c.w, c.h))
            },
            None => None,
        }
    }

    /// The first control with handle `hwnd`.
    pub fn get(&self, hwnd: u32) -> (r: Option<&ChildWindow>)
        ensures
            r is Some == find_child(self@.children, hwnd) is Some,
            r matches Some(c) ==> *c == self@.children[find_child(self@.children, hwnd).unwrap()],
    {
        match self.child_index(hwnd) {
            Some(j) => Some(&self.children[j]),
            None => None,
        }
    }

    /// The first control with handle `hwnd`, for modification.
    pub fn get_mut(&mut self, hwnd: u32) -> (r: Option<&mut ChildWindow>)
        ensures
            r is Some == find_child(old(self)@.children, hwnd) is Some,
            r is None ==> final(self)@ == old(self)@,
            r matches Some(c) ==> {
                let j = find_child(old(self)@.children, hwnd).unwrap();
                &&& *c == old(self)@.children[j]
                &&& final(self)@ == with_child(old(self)@, j, *final(c))
            },
    {
        match self.child_index(hwnd) {
            Some(j) => Some(&mut self.children[j]),
            None => None,
        }
    }

    /// `GetDlgItem`: find a control by its parent and id.
    pub fn by_id(&self, parent: u32, id: u32) -> (r: Option<&ChildWindow>)
        ensures
            r is Some == id_pos(self@.children, parent, id, self@.children.len()) is Some,
            r matches Some(c) ==> *c == self@.children[id_pos(
                self@.children,
                parent,
                id,
                self@.children.len(),
            ).unwrap()],
    {
        proof {
            lemma_id_pos(self.children@, parent, id, self.children@.len());
        }
        let mut i: usize = 0;
        while i < self.children.len()
            invariant
                0 <= i <= self.children@.len(),
                forall|k: int| 0 <= k < i ==> !(self.children@[k].parent == parent && self.children@[k].id == id),
                id_pos(self.children@, parent, id, self.children@.len()) matches Some(m) ==> i <= m,
            decreases self.children@.len() - i,
        {
            proof {
                lemma_id_pos(self.children@, parent, id, self.children@.len());
            }
            if self.children[i].parent == parent && self.children[i].id == id {
                proof {
                    lemma_id_pos(self.children@, parent, id, self.children@.len());
                    if let Some(m) = id_pos(self.children@, parent, id, self.children@.len()) {
                        if i < m {
                            assert(!(self.children@[i as int].parent == parent
                                && self.children@[i as int].id == id));
                        }
                    }
                }
                return Some(&self.children[i]);
            }
            i = i + 1;
        }
        None
    }

    /// `CheckRadioButton`: check the control with id `check` and clear
    /// every other control of `parent` in `first..=last`, returning how
    /// many were touched. The range is matched on id rather than on
    /// style, as the API says.
    pub fn check_radio_range(&mut self, parent: u32, first: u32, last: u32, check: u32) -> (hit:
        usize)
        ensures
            hit == radio_count(old(self)@.children, parent, first, last, old(self)@.children.len()),
            final(self)@ == radios_checked(old(self)@, parent, first, last, check),
    {
        let ghost before = self@;
        let mut hit: usize = 0;
        let mut i: usize = 0;
        while i < self.children.len()
            invariant
                0 <= i <= self.children@.len(),
                self.children@.len() == before.children.len(),
                hit == radio_count(before.children, parent, first, last, i as nat),
                hit <= i,
                forall|k: int|
                    0 <= k < i ==> self.children@[k] == radio_checked(
                        before.children[k],
                        parent,
                        first,
                        last,
                        check,
                    ),
                forall|k: int| i <= k < self.children@.len() ==> self.children@[k] == before.children[k],
                self.panels@ == before.panels,
                self.focus == before.focus,
                self.next_hwnd == before.next_hwnd,
                self.capture == before.capture,
            decreases self.children@.len() - i,
        {
            if self.children[i].parent == parent && self.children[i].id >= first
                && self.children[i].id <= last {
                self.children[i].checked = self.children[i].id == check;
                hit = hit + 1;
            }
            i = i + 1;
        }
        assert(self.children@ =~= radios_checked(before, parent, first, last, check).children);
        hit
    }

    /// Nothing to paint and nothing to hit.
    pub fn is_empty(&self) -> (r: bool)
        ensures
            r == (self@.children.len() == 0 && self@.panels.len() == 0),
    {
        self.children.len() == 0 && self.panels.len() == 0
    }

    /// Drop a control and anything that referred to it.
    pub fn destroy(&mut self, hwnd: u32)
        ensures
            final(self)@ == destroyed(old(self)@, hwnd),
    {
        let ghost pred = |c: ChildWindow| c.hwnd != hwnd;
        let mut kept: Vec<ChildWindow> = Vec::new();
        let mut i: usize = 0;
        while i < self.children.len()
            invariant
                0 <= i <= self.children@.len(),
                kept@ == self.children@.take(i as int).filter(pred),
                pred == (|c: ChildWindow| c.hwnd != hwnd),
            decreases self.children@.len() - i,
        {
            proof {
                lemma_filter_take(self.children@, pred, i as int);
            }
            if self.children[i].hwnd != hwnd {
                kept.push(self.children[i].clone());
            }
            i = i + 1;
        }
        assert(self.children@.take(self.children@.len() as int) == self.children@);
        self.children = kept;
        if self.focus == hwnd {
            self.focus = 0;
        }
        if self.capture == hwnd {
            self.capture = 0;
        }
    }

    /// Drop every control owned by `parent` — a top-level window going
    /// away takes its children with it, and a dialog takes its panel.
    pub fn destroy_children_of(&mut self, parent: u32)
        ensures
            final(self)@ == children_destroyed(old(self)@, parent),
    {
        let ghost cs = self@.children;
        let ghost pred = |c: ChildWindow| !owned_by(cs, parent, c.hwnd);
        let mut kept: Vec<ChildWindow> = Vec::new();
        let mut i: usize = 0;
        while i < self.children.len()
            invariant
                0 <= i <= self.children@.len(),
                self.children@ == cs,
                kept@ == cs.take(i as int).filter(pred),
                pred == (|c: ChildWindow| !owned_by(cs, parent, c.hwnd)),
            decreases self.children@.len() - i,
        {
            proof {
                lemma_filter_take(cs, pred, i as int);
            }
            if !self.owns(parent, self.children[i].hwnd) {
                kept.push(self.children[i].clone());
            }
            i = i + 1;
        }
        assert(cs.take(cs.len() as int) == cs);
        let drop_focus = self.owns(parent, self.focus);
        let drop_capture = self.owns(parent, self.capture);
        self.children = kept;
        if drop_focus {
            self.focus = 0;
        }
        if drop_capture {
            self.capture = 0;
        }
        let ghost ppred = |p: DialogPanel| p.hwnd != parent;
        let mut panels: Vec<DialogPanel> = Vec::new();
        let mut i: usize = 0;
        while i < self.panels.len()
            invariant
                0 <= i <= self.panels@.len(),
                panels@ == self.panels@.take(i as int).filter(ppred),
                ppred == (|p: DialogPanel| p.hwnd != parent),
            decreases self.panels@.len() - i,
        {
            proof {
                lemma_filter_take(self.panels@, ppred, i as int);
            }
            if self.panels[i].hwnd != parent {
                panels.push(self.panels[i].clone());
            }
            i = i + 1;
        }
        assert(self.panels@.take(self.panels@.len() as int) == self.panels@);
        self.panels = panels;
    }

    /// Was `h` the handle of some child of `parent`?
    fn owns(&self, parent: u32, h: u32) -> (r: bool)
        ensures
            r == owned_by(self@.children, parent, h),
    {
        let mut i: usize = 0;
        while i < self.children.len()
            invariant
                0 <= i <= self.children@.len(),
                forall|k: int| 0 <= k < i ==> !(self.children@[k].parent == parent && self.children@[k].hwnd == h),
            decreases self.children@.len() - i,
        {
            if self.children[i].parent == parent && self.children[i].hwnd == h {
                return true;
            }
            i = i + 1;
        }
        false
    }

    /// Is this control on screen — itself visible, and inside a panel
    /// that is?
    fn is_showing(&self, child: &ChildWindow) -> (r: bool)
        ensures
            r == showing(self@, *child),
    {
        child.visible && match self.panel_index(child.parent) {
            Some(k) => self.panels[k].visible,
            None => true,
        }
    }

    /// `IsWindowVisible` for anything we own: a control, or a dialog
    /// panel. `None` means the handle is not one of ours.
    pub fn is_visible(&self, hwnd: u32) -> (r: Option<bool>)
        ensures
            r == match find_child(self@.children, hwnd) {
                Some(j) => Some(showing(self@, self@.children[j])),
                None => match find_panel(self@.panels, hwnd) {
                    Some(k) => Some(self@.panels[k].visible),
                    None => None,
                },
            },
    {
        match self.child_index(hwnd) {
            Some(j) => Some(self.is_showing(&self.children[j])),
            None => match self.panel_index(hwnd) {
                Some(k) => Some(self.panels[k].visible),
                None => None,
            },
        }
    }

    fn hit_index(&self, x: i32, y: i32) -> (r: Option<usize>)
        ensures
            r is Some == hit(self@, x as int, y as int) is Some,
            r matches Some(i) ==> hit(self@, x as int, y as int) == Some(i as int) && i < self@.children.len(),
    {
        let mut n: usize = self.children.len();
        while n > 0
            invariant
                0 <= n <= self.children@.len(),
                hit(self@, x as int, y as int) == hit_pos(self@, x as int, y as int, n as nat),
            decreases n,
        {
            let c = &self.children[n - 1];
            let (ox, oy) = self.parent_origin(c.parent);
            proof {
                let o = parent_origin_of(self@, c.parent);
                assert(o == (0int, 0int) || find_panel(self@.panels, c.parent) is Some);
            }
            if !c.is_group_box() && self.is_showing(c) && c.contains_wide(x as i64 - ox, y as i64 - oy) {
                return Some(n - 1);
            }
            n = n - 1;
        }
        None
    }

    /// Topmost visible control under `(x, y)`, in screen coordinates.
    /// Later-created controls sit on top. Group boxes are skipped: they
    /// enclose the controls they label.
    pub fn hit_test(&self, x: i32, y: i32) -> (r: Option<u32>)
        ensures
            r == hit_hwnd(self@, x as int, y as int),
    {
        match self.hit_index(x, y) {
            Some(i) => Some(self.children[i].hwnd),
            None => None,
        }
    }

    /// Stylus down. Takes the focus, and arms a push button.
    pub fn pointer_down(&mut self, x: i32, y: i32) -> (r: Option<ControlAction>)
        ensures
            (final(self)@, r) == pointer_down_spec(old(self)@, x as int, y as int),
    {
        let hwnd = match self.hit_test(x, y) {
            Some(h) => h,
            None => return None,
        };
        let j = match self.child_index(hwnd) {
            Some(j) => j,
            None => return None,
        };
        if !self.children[j].is_focusable() {
            return Some(ControlAction::Consumed);
        }
        if self.children[j].class == ControlClass::Button {
            self.children[j].pressed = true;
            self.capture = hwnd;
        }
        self.focus = hwnd;
        Some(ControlAction::Consumed)
    }

    /// Stylus up. A button only notifies its parent when the release
    /// lands back inside the rectangle the press started in.
    pub fn pointer_up(&mut self, x: i32, y: i32) -> (r: Option<ControlAction>)
        ensures
            (final(self)@, r) == pointer_up_spec(old(self)@, x as int, y as int),
    {
        let captured = self.capture;
        if captured == 0 {
            // Not our press — but still swallow a release over a control
            // so the parent does not act on it.
            return match self.hit_index(x, y) {
                Some(_) => Some(ControlAction::Consumed),
                None => None,
            };
        }
        self.capture = 0;
        let j = match self.child_index(captured) {
            Some(j) => j,
            None => return None,
        };
        let (ox, oy) = self.parent_origin(self.children[j].parent);
        let ghost before = self@;
        self.children[j].pressed = false;
        assert(self@.children =~= before.children.update(j as int, self@.children[j as int]));
        if !self.children[j].contains_wide(x as i64 - ox, y as i64 - oy) {
            return Some(ControlAction::Consumed);
        }
        if self.children[j].is_auto_check() {
            self.children[j].checked = !self.children[j].checked;
            assert(self@.children =~= before.children.update(j as int, self@.children[j as int]));
        }
        Some(
            ControlAction::Clicked {
                parent: self.children[j].parent,
                id: self.children[j].id,
                hwnd: self.children[j].hwnd,
            },
        )
    }

    /// [`Self::pointer_down`] restricted to the children of `parent`.
    ///
    /// A modal dialog owns the stylus for as long as it is up: a tap
    /// outside it does nothing at all. The caption's OK box is tested
    /// first: it sits above the client area, so no control can be under
    /// it.
    pub fn pointer_down_in(&mut self, parent: u32, x: i32, y: i32) -> (r: Option<ControlAction>)
        ensures
            (final(self)@, r) == pointer_down_in_spec(old(self)@, parent, x as int, y as int),
    {
        if let Some(k) = self.panel_index(parent) {
            if self.panels[k].ok_box_contains(x, y) {
                self.panels[k].ok_pressed = true;
                return Some(ControlAction::Consumed);
            }
        }
        match self.hit_test(x, y) {
            Some(hwnd) => {
                let owner = match self.child_index(hwnd) {
                    Some(j) => Some(self.children[j].parent),
                    None => None,
                };
                if owner == Some(parent) {
                    self.pointer_down(x, y)
                } else {
                    Some(ControlAction::Consumed)
                }
            },
            None => Some(ControlAction::Consumed),
        }
    }

    /// [`Self::pointer_up`] restricted to the children of `parent`.
    pub fn pointer_up_in(&mut self, parent: u32, x: i32, y: i32) -> (r: Option<ControlAction>)
        ensures
            (final(self)@, r) == pointer_up_in_spec(old(self)@, parent, x as int, y as int),
    {
        // Releasing the caption's OK box is the dialog's accept: report
        // it as `IDOK` from the panel itself.
        if let Some(k) = self.panel_index(parent) {
            if self.panels[k].ok_pressed {
                self.panels[k].ok_pressed = false;
                let hit = self.panels[k].ok_box_contains(x, y);
                let hwnd = self.panels[k].hwnd;
                return Some(
                    if hit {
                        ControlAction::Clicked { parent, id: IDOK, hwnd }
                    } else {
                        ControlAction::Consumed
                    },
                );
            }
        }
        // The press that captured has to belong to the dialog too, or a
        // release could fire a click on the window behind it.
        let owner = match self.child_index(self.capture) {
            Some(j) => Some(self.children[j].parent),
            None => None,
        };
        if self.capture != 0 && owner != Some(parent) {
            self.capture = 0;
            return Some(ControlAction::Consumed);
        }
        match self.pointer_up(x, y) {
            Some(ControlAction::Clicked { parent: p, id, hwnd }) => {
                if p == parent {
                    Some(ControlAction::Clicked { parent: p, id, hwnd })
                } else {
                    Some(ControlAction::Consumed)
                }
            },
            _ => Some(ControlAction::Consumed),
        }
    }

    /// [`Self::key_down`] restricted to the children of `parent`.
    pub fn key_down_in(&mut self, parent: u32, vk: u16) -> (r: Option<ControlAction>)
        ensures
            parent_of(old(self)@, old(self)@.focus) != Some(parent) ==> final(self)@ == old(self)@ && r
                == Some(ControlAction::Consumed),
            parent_of(old(self)@, old(self)@.focus) == Some(parent) ==> exists|k: Option<
                ControlAction,
            >| key_down_rel(old(self)@, vk, final(self)@, k) && r == only_from(parent, k),
    {
        let owner = match self.child_index(self.focus) {
            Some(j) => Some(self.children[j].parent),
            None => None,
        };
        if owner != Some(parent) {
            return Some(ControlAction::Consumed);
        }
        let ghost s0 = self@;
        let k = self.key_down(vk);
        let r = match k {
            Some(ControlAction::Clicked { parent: p, id, hwnd }) => {
                if p == parent {
                    Some(ControlAction::Clicked { parent: p, id, hwnd })
                } else {
                    Some(ControlAction::Consumed)
                }
            },
            _ => Some(ControlAction::Consumed),
        };
        assert(key_down_rel(s0, vk, self@, k) && r == only_from(parent, k));
        r
    }

    /// Feed a virtual-key press to the focused control.
    ///
    /// Returns `None` when nothing has the focus or the key means
    /// nothing here, in which case the caller passes it to the
    /// application as usual.
    pub fn key_down(&mut self, vk: u16) -> (r: Option<ControlAction>)
        ensures
            key_down_rel(old(self)@, vk, final(self)@, r),
    {
        let j = match self.child_index(self.focus) {
            Some(j) => j,
            None => return None,
        };
        if !self.children[j].enabled {
            // `SetFocus` on a disabled control is not something Win32
            // does, but a guest can ask for it; the control still must
            // not act on the key.
            return Some(ControlAction::Consumed);
        }
        let ghost before = self@;
        match self.children[j].class {
            ControlClass::Edit => {
                if vk == VK_BACK {
                    string_pop(&mut self.children[j].text);
                    assert(self@.children =~= before.children.update(j as int, self@.children[j as int]));
                    return Some(ControlAction::Consumed);
                }
                match vk_to_char(vk) {
                    Some(ch) => {
                        string_push(&mut self.children[j].text, ch);
                        assert(self@.children =~= before.children.update(j as int, self@.children[j as int]));
                        Some(ControlAction::Consumed)
                    },
                    None => None,
                }
            },
            ControlClass::Button => {
                if vk == VK_SPACE || vk == VK_RETURN {
                    if self.children[j].is_auto_check() {
                        self.children[j].checked = !self.children[j].checked;
                    }
                    assert(self@.children =~= before.children.update(j as int, self@.children[j as int]));
                    Some(
                        ControlAction::Clicked {
                            parent: self.children[j].parent,
                            id: self.children[j].id,
                            hwnd: self.children[j].hwnd,
                        },
                    )
                } else {
                    None
                }
            },
            ControlClass::Static => None,
        }
    }
}

/// The character an `EDIT` receives for a virtual key, unshifted.
pub open spec fn vk_char(vk: u16) -> Option<char> {
    if 0x30 <= vk <= 0x39 {
        Some(((vk - 0x30) + 0x30) as char)
    } else if 0x41 <= vk <= 0x5A {
        Some(((vk - 0x41) + 0x61) as char)
    } else if vk == 0x20 {
        Some(' ')
    } else if 0x60 <= vk <= 0x69 {
        Some(((vk - 0x60) + 0x30) as char)
    } else if vk == 0xBD {
        Some('-')
    } else if vk == 0xBE {
        Some('.')
    } else {
        None
    }
}

/// Map a virtual-key code to the character an `EDIT` would receive.
/// Only the unshifted layout is modelled.
fn vk_to_char(vk: u16) -> (r: Option<char>)
    ensures
        r == vk_char(vk),
{
    if 0x30 <= vk && vk <= 0x39 {
        Some((0x30u8 + (vk - 0x30) as u8) as char)
    } else if 0x41 <= vk && vk <= 0x5A {
        Some((0x61u8 + (vk - 0x41) as u8) as char)
    } else if vk == 0x20 {
        Some(' ')
    } else if 0x60 <= vk && vk <= 0x69 {
        Some((0x30u8 + (vk - 0x60) as u8) as char)
    } else if vk == 0xBD {
        Some('-')
    } else if vk == 0xBE {
        Some('.')
    } else {
        None
    }
}

} // verus!
