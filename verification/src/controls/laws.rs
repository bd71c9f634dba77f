//! What holds of the control set across operations.
use vstd::prelude::*;

use crate::controls::{
    children_destroyed, controls_wf, created, destroyed, find_child, hit, hit_hwnd, hittable,
    in_rect, is_auto_check_spec, is_focusable_spec, is_group_box_spec, key_down_rel,
    lemma_child_pos, lemma_hit_pos, new_child, owned_by, panel_added, parent_origin_of,
    pointer_down_spec, pointer_up_spec, radios_checked, in_radio_range, rect_of, vk_char,
    ChildWindow, ControlAction, ControlClass, ControlsView, DialogPanel, HWND_BASE, HWND_END,
    VK_BACK, child_pos, find_panel, lemma_panel_pos, ok_rect, pointer_down_in_spec,
    pointer_up_in_spec, IDOK, create_call, CreateRequest, VK_RETURN, VK_SPACE, with_child, help_rect, origin_of,
};

verus! {

/// A fresh control set — no controls, handles starting at the base —
/// is well formed.
pub proof fn lemma_fresh_set_is_wf(s: ControlsView)
    requires
        s.children.len() == 0,
        s.next_hwnd == HWND_BASE,
    ensures
        controls_wf(s),
{
}

/// In a well-formed set, the control at index `j` is the one its
/// handle finds.
pub proof fn lemma_handle_finds_its_control(s: ControlsView, j: int)
    requires
        controls_wf(s),
        0 <= j < s.children.len(),
    ensures
        find_child(s.children, s.children[j].hwnd) == Some(j),
{
    lemma_child_pos(s.children, s.children[j].hwnd, s.children.len());
    match find_child(s.children, s.children[j].hwnd) {
        Some(i) => {
            if i != j {
                if i < j {
                    assert(s.children[i].hwnd != s.children[j].hwnd);
                } else {
                    assert(s.children[j].hwnd != s.children[i].hwnd);
                }
            }
        },
        None => {},
    }
}

/// `create` hands out a control handle that no live control holds, and
/// keeps the set well formed.
pub proof fn lemma_create_gives_a_fresh_handle(
    s: ControlsView,
    parent: u32,
    class: ControlClass,
    id: u32,
    text: String,
    style: u32,
    x: i32,
    y: i32,
    w: i32,
    h: i32,
)
    requires
        controls_wf(s),
        s.next_hwnd < HWND_END,
    ensures
        HWND_BASE <= s.next_hwnd < HWND_END,
        forall|i: int| 0 <= i < s.children.len() ==> #[trigger] s.children[i].hwnd != s.next_hwnd,
        controls_wf(created(s, new_child(s.next_hwnd, parent, class, id, text, style, x, y, w, h))),
{
}

/// The control set and the handles after one `create` call per request,
/// in order.
pub open spec fn create_calls(s: ControlsView, rs: Seq<CreateRequest>) -> (ControlsView, Seq<u32>)
    decreases rs.len(),
{
    if rs.len() == 0 {
        (s, Seq::empty())
    } else {
        let (t, hs) = create_calls(s, rs.drop_last());
        let (u, h) = create_call(t, rs.last());
        (u, hs.push(h))
    }
}

/// How many of `n` calls get a handle: the range holds 256.
pub open spec fn handed_out(n: nat) -> nat {
    if n < (HWND_END - HWND_BASE) as nat {
        n
    } else {
        (HWND_END - HWND_BASE) as nat
    }
}

/// On a fresh control set, the `k`-th `create` call returns
/// `HWND_BASE + k` while the 256 handles last and `0` afterwards, and
/// the set then holds exactly the controls asked for, in order, under
/// those handles — distinct handles, so each call's control is the one
/// its handle finds.
pub proof fn lemma_handles_are_handed_out_in_order(s: ControlsView, rs: Seq<CreateRequest>)
    requires
        s.children.len() == 0,
        s.next_hwnd == HWND_BASE,
    ensures
        ({
            let (t, hs) = create_calls(s, rs);
            &&& hs.len() == rs.len()
            &&& forall|k: int|
                0 <= k < rs.len() ==> #[trigger] hs[k] == if k < HWND_END - HWND_BASE {
                    (HWND_BASE + k) as u32
                } else {
                    0u32
                }
            &&& t.next_hwnd == HWND_BASE + handed_out(rs.len())
            &&& t.children.len() == handed_out(rs.len())
            &&& forall|k: int|
                0 <= k < handed_out(rs.len()) ==> #[trigger] t.children[k] == new_child(
                    (HWND_BASE + k) as u32,
                    rs[k].parent,
                    rs[k].class,
                    rs[k].id,
                    rs[k].text,
                    rs[k].style,
                    rs[k].x,
                    rs[k].y,
                    rs[k].w,
                    rs[k].h,
                )
            &&& controls_wf(t)
            &&& t.panels == s.panels && t.focus == s.focus && t.capture == s.capture
        }),
    decreases rs.len(),
{
    if rs.len() > 0 {
        let n = (rs.len() - 1) as nat;
        lemma_handles_are_handed_out_in_order(s, rs.drop_last());
        let (t, hs) = create_calls(s, rs.drop_last());
        let r = rs.last();
        if t.next_hwnd < HWND_END {
            lemma_create_gives_a_fresh_handle(t, r.parent, r.class, r.id, r.text, r.style, r.x, r.y, r.w, r.h);
        }
        let (u, h) = create_call(t, r);
        assert forall|k: int| 0 <= k < rs.len() implies #[trigger] hs.push(h)[k] == if k < HWND_END - HWND_BASE {
            (HWND_BASE + k) as u32
        } else {
            0u32
        } by {
            if k < n {
                assert(hs.push(h)[k] == hs[k]);
                assert(rs.drop_last()[k] == rs[k]);
            }
        }
        assert forall|k: int| 0 <= k < handed_out(rs.len()) implies #[trigger] u.children[k] == new_child(
            (HWND_BASE + k) as u32,
            rs[k].parent,
            rs[k].class,
            rs[k].id,
            rs[k].text,
            rs[k].style,
            rs[k].x,
            rs[k].y,
            rs[k].w,
            rs[k].h,
        ) by {
            assert(rs.drop_last()[k] == rs[k] || k == n);
            if k < handed_out(n) {
                assert(rs.drop_last()[k] == rs[k]);
            }
        }
    }
}

/// Removing controls keeps a set well formed.
pub proof fn lemma_destroy_keeps_wf(s: ControlsView, hwnd: u32, parent: u32)
    requires
        controls_wf(s),
    ensures
        controls_wf(destroyed(s, hwnd)),
        controls_wf(children_destroyed(s, parent)),
{
    let p1 = |c: ChildWindow| c.hwnd != hwnd;
    let p2 = |c: ChildWindow| !owned_by(s.children, parent, c.hwnd);
    lemma_filter_keeps_handles(s, p1);
    lemma_filter_keeps_handles(s, p2);
}

proof fn lemma_filter_keeps_handles(s: ControlsView, pred: spec_fn(ChildWindow) -> bool)
    requires
        controls_wf(s),
    ensures
        controls_wf(ControlsView { children: s.children.filter(pred), ..s }),
    decreases s.children.len(),
{
    let f = s.children.filter(pred);
    if s.children.len() > 0 {
        let shorter = ControlsView { children: s.children.drop_last(), ..s };
        assert forall|i: int, j: int| 0 <= i < j < shorter.children.len() implies #[trigger] shorter.children[i].hwnd
            != #[trigger] shorter.children[j].hwnd by {
            assert(shorter.children[i] == s.children[i]);
            assert(shorter.children[j] == s.children[j]);
        }
        lemma_filter_keeps_handles(shorter, pred);
        reveal_with_fuel(Seq::<_>::filter, 1);
        let g = s.children.drop_last().filter(pred);
        assert(forall|i: int| 0 <= i < g.len() ==> s.children.drop_last().contains(#[trigger] g[i])) by {
            assert forall|i: int| 0 <= i < g.len() implies s.children.drop_last().contains(#[trigger] g[i]) by {
                assert(g.contains(g[i]));
                s.children.drop_last().lemma_filter_contains_rev(pred, g[i]);
            }
        }
        if pred(s.children.last()) {
            assert(f == g.push(s.children.last()));
            assert forall|i: int| 0 <= i < g.len() implies #[trigger] g[i].hwnd != s.children.last().hwnd by {
                let k = choose|k: int| 0 <= k < s.children.len() - 1 && s.children.drop_last()[k] == g[i];
                assert(s.children[k] == g[i]);
            }
        }
    }
}

/// Closing a dialog takes every control it owned with it, and any focus
/// or capture one of them held.
pub proof fn lemma_destroy_children_removes_them(s: ControlsView, parent: u32)
    ensures
        forall|i: int|
            0 <= i < children_destroyed(s, parent).children.len() ==> (#[trigger] children_destroyed(
                s,
                parent,
            ).children[i]).parent != parent,
        owned_by(s.children, parent, s.focus) ==> children_destroyed(s, parent).focus == 0,
        owned_by(s.children, parent, s.capture) ==> children_destroyed(s, parent).capture == 0,
{
    let pred = |c: ChildWindow| !owned_by(s.children, parent, c.hwnd);
    let f = s.children.filter(pred);
    assert forall|i: int| 0 <= i < f.len() implies (#[trigger] f[i]).parent != parent by {
        assert(f.contains(f[i]));
        s.children.lemma_filter_contains_rev(pred, f[i]);
        s.children.lemma_filter_pred(pred, i);
        if f[i].parent == parent {
            let k = choose|k: int| 0 <= k < s.children.len() && s.children[k] == f[i];
            assert(owned_by(s.children, parent, f[i].hwnd));
        }
    }
}

/// Only the controls of `parent` whose id lies in `first..=last` are
/// touched by `CheckRadioButton`, and of those exactly the one with id
/// `check` ends up checked.
pub proof fn lemma_check_radio_selects_one(s: ControlsView, parent: u32, first: u32, last: u32, check: u32, i: int)
    requires
        0 <= i < s.children.len(),
    ensures
        in_radio_range(s.children[i], parent, first, last) ==> radios_checked(
            s,
            parent,
            first,
            last,
            check,
        ).children[i].checked == (s.children[i].id == check),
        !in_radio_range(s.children[i], parent, first, last) ==> radios_checked(
            s,
            parent,
            first,
            last,
            check,
        ).children[i] == s.children[i],
        radios_checked(s, parent, first, last, check).children.len() == s.children.len(),
{
}

/// `CheckRadioButton` and `add_panel` leave every handle as it was.
pub proof fn lemma_radio_and_panel_keep_wf(s: ControlsView, parent: u32, first: u32, last: u32, check: u32, panel: DialogPanel)
    requires
        controls_wf(s),
    ensures
        controls_wf(radios_checked(s, parent, first, last, check)),
        controls_wf(panel_added(s, panel)),
{
}

/// A group box frames other controls but never answers a tap itself.
pub proof fn lemma_group_boxes_are_never_hit(s: ControlsView, x: int, y: int)
    ensures
        hit(s, x, y) matches Some(j) ==> !is_group_box_spec(s.children[j]),
{
    lemma_hit_pos(s, x, y, s.children.len());
}

/// A tap that lands on no control is left to the application, and so is
/// the release that ends it.
pub proof fn lemma_taps_off_every_control_pass_through(s: ControlsView, x: int, y: int)
    requires
        hit(s, x, y) is None,
    ensures
        pointer_down_spec(s, x, y) == (s, None::<ControlAction>),
        s.capture == 0 ==> pointer_up_spec(s, x, y) == (s, None::<ControlAction>),
{
}

/// Tapping a control that cannot take the focus — a static, or a
/// disabled control — is swallowed and changes nothing: no focus, no
/// press, no notification.
pub proof fn lemma_unfocusable_controls_ignore_taps(s: ControlsView, x: int, y: int)
    requires
        controls_wf(s),
        hit(s, x, y) matches Some(j) && !is_focusable_spec(s.children[j]),
    ensures
        pointer_down_spec(s, x, y) == (s, Some(ControlAction::Consumed)),
{
    lemma_hit_pos(s, x, y, s.children.len());
    let j = hit(s, x, y).unwrap();
    lemma_handle_finds_its_control(s, j);
}

/// Pressing and releasing the stylus at one spot on an enabled button
/// notifies its parent with the button's id, leaves it released and
/// focused, and latches an auto check box or radio button.
pub proof fn lemma_press_and_release_clicks(s: ControlsView, x: int, y: int)
    requires
        controls_wf(s),
        s.capture == 0,
        hit(s, x, y) matches Some(j) && is_focusable_spec(s.children[j]) && s.children[j].class
            == ControlClass::Button,
    ensures
        ({
            let j = hit(s, x, y).unwrap();
            let c = s.children[j];
            let (t, down) = pointer_down_spec(s, x, y);
            let (u, up) = pointer_up_spec(t, x, y);
            &&& down == Some(ControlAction::Consumed)
            &&& up == Some(ControlAction::Clicked { parent: c.parent, id: c.id, hwnd: c.hwnd })
            &&& !u.children[j].pressed
            &&& u.children[j].checked == if is_auto_check_spec(c) {
                !c.checked
            } else {
                c.checked
            }
            &&& u.focus == c.hwnd
            &&& u.capture == 0
            &&& controls_wf(u)
        }),
{
    lemma_hit_pos(s, x, y, s.children.len());
    let j = hit(s, x, y).unwrap();
    let c = s.children[j];
    lemma_handle_finds_its_control(s, j);
    let t = pointer_down_spec(s, x, y).0;
    assert(t.children[j].hwnd == c.hwnd);
    assert(controls_wf(t)) by {
        assert forall|a: int, b: int| 0 <= a < b < t.children.len() implies #[trigger] t.children[a].hwnd
            != #[trigger] t.children[b].hwnd by {
            assert(t.children[a].hwnd == s.children[a].hwnd);
            assert(t.children[b].hwnd == s.children[b].hwnd);
        }
        assert forall|a: int| 0 <= a < t.children.len() implies HWND_BASE <= #[trigger] t.children[a].hwnd
            < t.next_hwnd by {
            assert(t.children[a].hwnd == s.children[a].hwnd);
        }
    }
    lemma_handle_finds_its_control(t, j);
    assert(parent_origin_of(t, c.parent) == parent_origin_of(s, c.parent));
    let u = pointer_up_spec(t, x, y).0;
    assert forall|a: int, b: int| 0 <= a < b < u.children.len() implies #[trigger] u.children[a].hwnd
        != #[trigger] u.children[b].hwnd by {
        assert(u.children[a].hwnd == s.children[a].hwnd);
        assert(u.children[b].hwnd == s.children[b].hwnd);
    }
    assert forall|a: int| 0 <= a < u.children.len() implies HWND_BASE <= #[trigger] u.children[a].hwnd
        < u.next_hwnd by {
        assert(u.children[a].hwnd == s.children[a].hwnd);
    }
}

/// Sliding off a pressed button before lifting cancels the click: the
/// release is swallowed and the button pops back up.
pub proof fn lemma_release_elsewhere_cancels(s: ControlsView, x: int, y: int, x2: int, y2: int)
    requires
        controls_wf(s),
        s.capture == 0,
        hit(s, x, y) matches Some(j) && is_focusable_spec(s.children[j]) && s.children[j].class
            == ControlClass::Button && {
            let o = parent_origin_of(s, s.children[j].parent);
            !in_rect(rect_of(s.children[j]), x2 - o.0, y2 - o.1)
        },
    ensures
        ({
            let j = hit(s, x, y).unwrap();
            let (t, _) = pointer_down_spec(s, x, y);
            let (u, up) = pointer_up_spec(t, x2, y2);
            &&& up == Some(ControlAction::Consumed)
            &&& !u.children[j].pressed
            &&& u.children[j].checked == s.children[j].checked
        }),
{
    lemma_hit_pos(s, x, y, s.children.len());
    let j = hit(s, x, y).unwrap();
    let c = s.children[j];
    lemma_handle_finds_its_control(s, j);
    let t = pointer_down_spec(s, x, y).0;
    assert(controls_wf(t)) by {
        assert forall|a: int, b: int| 0 <= a < b < t.children.len() implies #[trigger] t.children[a].hwnd
            != #[trigger] t.children[b].hwnd by {
            assert(t.children[a].hwnd == s.children[a].hwnd);
            assert(t.children[b].hwnd == s.children[b].hwnd);
        }
        assert forall|a: int| 0 <= a < t.children.len() implies HWND_BASE <= #[trigger] t.children[a].hwnd
            < t.next_hwnd by {
            assert(t.children[a].hwnd == s.children[a].hwnd);
        }
    }
    lemma_handle_finds_its_control(t, j);
    assert(parent_origin_of(t, c.parent) == parent_origin_of(s, c.parent));
}

/// With no control focused, key presses are left to the application
/// untouched — a game still gets its D-pad.
pub proof fn lemma_unfocused_keys_pass_through(s: ControlsView, vk: u16, t: ControlsView, r: Option<ControlAction>)
    requires
        find_child(s.children, s.focus) is None,
        key_down_rel(s, vk, t, r),
    ensures
        t == s,
        r is None,
{
}

/// A key on a focused disabled control is swallowed and changes
/// nothing.
pub proof fn lemma_disabled_controls_ignore_keys(s: ControlsView, vk: u16, t: ControlsView, r: Option<ControlAction>)
    requires
        find_child(s.children, s.focus) matches Some(j) && !s.children[j].enabled,
        key_down_rel(s, vk, t, r),
    ensures
        t == s,
        r == Some(ControlAction::Consumed),
{
}

/// Typing into a focused edit appends the key's character, and
/// `VK_BACK` rubs the last one out again: typing then rubbing out gives
/// back the text as it was.
pub proof fn lemma_typing_then_backspace_restores(
    s: ControlsView,
    vk: u16,
    t: ControlsView,
    r: Option<ControlAction>,
    u: ControlsView,
    r2: Option<ControlAction>,
)
    requires
        find_child(s.children, s.focus) matches Some(j) && s.children[j].enabled
            && s.children[j].class == ControlClass::Edit,
        vk_char(vk) is Some,
        key_down_rel(s, vk, t, r),
        key_down_rel(t, VK_BACK, u, r2),
    ensures
        ({
            let j = find_child(s.children, s.focus).unwrap();
            &&& t.children[j].text@ == s.children[j].text@.push(vk_char(vk).unwrap())
            &&& r == Some(ControlAction::Consumed)
            &&& u.children[j].text@ == s.children[j].text@
            &&& r2 == Some(ControlAction::Consumed)
        }),
{
    let j = find_child(s.children, s.focus).unwrap();
    lemma_child_pos(s.children, s.focus, s.children.len());
    assert(t.children[j].hwnd == s.children[j].hwnd);
    lemma_child_pos(t.children, t.focus, t.children.len());
    assert forall|k: int| 0 <= k < t.children.len() implies (#[trigger] t.children[k]).hwnd == s.children[k].hwnd by {
        if k != j {
            assert(t.children[k] == s.children[k]);
        }
    }
    assert(child_pos(t.children, t.focus, t.children.len()) == Some(j));
    assert(s.children[j].text@.push(vk_char(vk).unwrap()).drop_last() =~= s.children[j].text@);
}

/// Tapping a dialog's caption OK box — down and up on the same spot —
/// reports `IDOK` from the dialog itself and leaves the box released;
/// lifting off it instead reports nothing but still releases it.
pub proof fn lemma_ok_box_tap_accepts(s: ControlsView, parent: u32, x: int, y: int, x2: int, y2: int)
    requires
        find_panel(s.panels, parent) matches Some(k) && ok_rect(s.panels[k]) matches Some(b) && in_rect(b, x, y),
    ensures
        ({
            let k = find_panel(s.panels, parent).unwrap();
            let p = s.panels[k];
            let (t, down) = pointer_down_in_spec(s, parent, x, y);
            let (u, up) = pointer_up_in_spec(t, parent, x, y);
            let (v, up2) = pointer_up_in_spec(t, parent, x2, y2);
            &&& down == Some(ControlAction::Consumed)
            &&& t.panels[k].ok_pressed
            &&& up == Some(ControlAction::Clicked { parent, id: IDOK, hwnd: p.hwnd })
            &&& !u.panels[k].ok_pressed
            &&& !in_rect(ok_rect(p).unwrap(), x2, y2) ==> up2 == Some(ControlAction::Consumed)
                && !v.panels[k].ok_pressed
        }),
{
    let k = find_panel(s.panels, parent).unwrap();
    lemma_panel_pos(s.panels, parent, s.panels.len());
    let t = pointer_down_in_spec(s, parent, x, y).0;
    assert(t.panels == s.panels.update(k, DialogPanel { ok_pressed: true, ..s.panels[k] }));
    lemma_panel_pos(t.panels, parent, t.panels.len());
    assert forall|m: int| 0 <= m < k implies t.panels[m].hwnd != parent by {
        assert(t.panels[m] == s.panels[m]);
    }
    assert(find_panel(t.panels, parent) == Some(k));
    assert(ok_rect(t.panels[k]) == ok_rect(s.panels[k]));
}

/// Return and Space press a focused, enabled button alike: the parent
/// hears a click with the button's id and handle, an auto check box or
/// radio button flips, and nothing else changes — the key is not left to
/// the application.
pub proof fn lemma_return_and_space_click_a_button(
    s: ControlsView,
    vk: u16,
    t: ControlsView,
    r: Option<ControlAction>,
    j: int,
)
    requires
        vk == VK_RETURN || vk == VK_SPACE,
        find_child(s.children, s.focus) == Some(j),
        s.children[j].enabled,
        s.children[j].class == ControlClass::Button,
        key_down_rel(s, vk, t, r),
    ensures
        ({
            let c = s.children[j];
            &&& r == Some(ControlAction::Clicked { parent: c.parent, id: c.id, hwnd: c.hwnd })
            &&& t.children.len() == s.children.len()
            &&& t.children[j].checked == (c.checked != is_auto_check_spec(c))
            &&& forall|k: int| 0 <= k < s.children.len() && k != j ==> t.children[k] == s.children[k]
            &&& t.focus == s.focus && t.panels == s.panels && t.capture == s.capture
        }),
{
    lemma_child_pos(s.children, s.focus, s.children.len());
    let c = s.children[j];
    let c2 = if is_auto_check_spec(c) { ChildWindow { checked: !c.checked, ..c } } else { c };
    assert(c.class != ControlClass::Edit);
    assert(t == with_child(s, j, c2));
    assert(t.children == s.children.update(j, c2));
}

/// A panel's client area starts one pixel in where it has a border,
/// and 14 pixels lower where it has a caption. A captioned panel's OK
/// box lies within the caption band and the panel's right edge, and
/// its `?` box sits level with it, to its left, without touching it; a
/// panel without a caption has neither.
pub proof fn lemma_caption_boxes_sit_in_the_caption(p: DialogPanel)
    ensures
        ({
            let b: int = if p.border { 1 } else { 0 };
            let o = origin_of(p);
            &&& o.0 == p.x + b
            &&& o.1 == p.y + b + if p.caption is Some { 14int } else { 0int }
            &&& p.caption is None ==> ok_rect(p) is None && help_rect(p) is None
            &&& p.caption is Some ==> (ok_rect(p) matches Some(ok) && help_rect(p) matches Some(h)
                && {
                &&& p.y + b <= ok.1 && ok.1 + ok.3 <= o.1
                &&& ok.0 + ok.2 <= p.x + p.w - b
                &&& ok.2 > 0 && ok.3 > 0
                &&& h.1 == ok.1 && h.3 == ok.3 && h.2 > 0
                &&& h.0 + h.2 < ok.0
            })
        }),
{
}

} // verus!
