use pockethle::controls::paint::{CAPTION_BG, FACE, LIGHT, OK_FG, SHADOW, TEXT};
use pockethle::controls::{
    ControlAction, ControlClass, Controls, DialogPanel, BS_AUTOCHECKBOX,
    BS_AUTORADIOBUTTON, BS_GROUPBOX, CAPTION_H, IDOK, WS_DISABLED, WS_VISIBLE,
};
use pockethle::font::str_width;
use pockethle::gdi::Bitmap;

const PUSH: u32 = WS_VISIBLE;
const PARENT: u32 = 0xDEAD_0001;

fn button(ctrls: &mut Controls, id: u32, x: i32, y: i32) -> u32 {
    ctrls.create(
        PARENT,
        ControlClass::Button,
        id,
        "MsgBox".into(),
        PUSH,
        x,
        y,
        120,
        26,
    )
}

fn words(bm: &Bitmap) -> Vec<u16> {
    bm.pixels()
        .chunks_exact(2)
        .map(|p| u16::from_le_bytes([p[0], p[1]]))
        .collect()
}

#[test]
fn controls_get_distinct_handles_from_the_parent() {
    let mut ctrls = Controls::default();
    let a = button(&mut ctrls, 201, 60, 72);
    let b = button(&mut ctrls, 202, 60, 108);
    assert_ne!(a, b);
    assert_ne!(a, PARENT);
    assert!(Controls::is_child_hwnd(a));
    assert!(Controls::is_child_hwnd(b));
    assert!(!Controls::is_child_hwnd(PARENT));
}

#[test]
fn get_dlg_item_finds_a_control_by_id() {
    let mut ctrls = Controls::default();
    let a = button(&mut ctrls, 201, 60, 72);
    let b = button(&mut ctrls, 202, 60, 108);
    assert_eq!(ctrls.by_id(PARENT, 201).map(|c| c.hwnd), Some(a));
    assert_eq!(ctrls.by_id(PARENT, 202).map(|c| c.hwnd), Some(b));
    assert!(ctrls.by_id(PARENT, 999).is_none());
    assert!(ctrls.by_id(0xDEAD_0002, 201).is_none());
}

#[test]
fn a_press_and_release_inside_a_button_notifies_the_parent() {
    let mut ctrls = Controls::default();
    let hwnd = button(&mut ctrls, 201, 60, 72);
    assert_eq!(ctrls.pointer_down(70, 80), Some(ControlAction::Consumed));
    assert!(ctrls.get(hwnd).unwrap().pressed);
    assert_eq!(ctrls.focus, hwnd);
    assert_eq!(
        ctrls.pointer_up(70, 80),
        Some(ControlAction::Clicked {
            parent: PARENT,
            id: 201,
            hwnd
        })
    );
    assert!(!ctrls.get(hwnd).unwrap().pressed);
}

#[test]
fn releasing_outside_the_button_cancels_the_click() {
    let mut ctrls = Controls::default();
    let hwnd = button(&mut ctrls, 201, 60, 72);
    ctrls.pointer_down(70, 80);
    assert_eq!(ctrls.pointer_up(70, 300), Some(ControlAction::Consumed));
    assert!(!ctrls.get(hwnd).unwrap().pressed);
}

#[test]
fn a_tap_outside_every_control_is_left_to_the_application() {
    let mut ctrls = Controls::default();
    button(&mut ctrls, 201, 60, 72);
    assert_eq!(ctrls.pointer_down(10, 10), None);
    assert_eq!(ctrls.pointer_up(10, 10), None);
}

#[test]
fn typing_into_a_focused_edit_accumulates_text() {
    let mut ctrls = Controls::default();
    let edit = ctrls.create(
        PARENT,
        ControlClass::Edit,
        203,
        String::new(),
        WS_VISIBLE,
        60,
        144,
        120,
        22,
    );
    ctrls.pointer_down(70, 150);
    assert_eq!(ctrls.focus, edit);
    for vk in [0x41u16, 0x42, 0x20, 0x39] {
        assert_eq!(ctrls.key_down(vk), Some(ControlAction::Consumed));
    }
    assert_eq!(ctrls.get(edit).unwrap().text, "ab 9");
    assert_eq!(ctrls.key_down(0x08), Some(ControlAction::Consumed));
    assert_eq!(ctrls.get(edit).unwrap().text, "ab ");
}

#[test]
fn keys_are_left_alone_when_no_control_has_the_focus() {
    let mut ctrls = Controls::default();
    ctrls.create(
        PARENT,
        ControlClass::Edit,
        203,
        String::new(),
        WS_VISIBLE,
        60,
        144,
        120,
        22,
    );
    assert_eq!(ctrls.key_down(0x41), None);
}

#[test]
fn an_auto_checkbox_latches_on_click() {
    let mut ctrls = Controls::default();
    let cb = ctrls.create(
        PARENT,
        ControlClass::Button,
        300,
        "Sound".into(),
        WS_VISIBLE | BS_AUTOCHECKBOX,
        10,
        10,
        100,
        16,
    );
    assert!(!ctrls.get(cb).unwrap().checked);
    ctrls.pointer_down(20, 15);
    ctrls.pointer_up(20, 15);
    assert!(ctrls.get(cb).unwrap().checked);
    ctrls.pointer_down(20, 15);
    ctrls.pointer_up(20, 15);
    assert!(!ctrls.get(cb).unwrap().checked);
}

#[test]
fn a_static_label_never_takes_the_focus() {
    let mut ctrls = Controls::default();
    let label = ctrls.create(
        PARENT,
        ControlClass::Static,
        100,
        "Hello, world".into(),
        WS_VISIBLE,
        10,
        10,
        120,
        16,
    );
    assert_eq!(ctrls.pointer_down(20, 15), Some(ControlAction::Consumed));
    assert_ne!(ctrls.focus, label);
    assert_eq!(ctrls.focus, 0);
}

#[test]
fn destroying_a_parent_takes_its_controls_with_it() {
    let mut ctrls = Controls::default();
    let a = button(&mut ctrls, 201, 60, 72);
    ctrls.focus = a;
    ctrls.destroy_children_of(PARENT);
    assert!(ctrls.is_empty());
    assert_eq!(ctrls.focus, 0);
}

#[test]
fn controls_paint_inside_their_own_rectangles() {
    let mut bm = Bitmap::new(240, 320);
    bm.fill_rect(0, 0, 240, 320, 0x07E0);
    let mut ctrls = Controls::default();
    button(&mut ctrls, 201, 60, 72);
    ctrls.render(&mut bm);

    let px = bm.pixels();
    let pixel = |x: i32, y: i32| -> u16 {
        let i = (y as usize * 240 + x as usize) * 2;
        u16::from_le_bytes([px[i], px[i + 1]])
    };
    assert_ne!(pixel(100, 80), 0x07E0);
    assert_eq!(pixel(59, 80), 0x07E0);
    assert_eq!(pixel(180, 80), 0x07E0);
    assert_eq!(pixel(100, 71), 0x07E0);
    assert_eq!(pixel(100, 98), 0x07E0);
}

#[test]
fn a_zero_sized_control_paints_nothing() {
    let mut bm = Bitmap::new(64, 64);
    bm.fill_rect(0, 0, 64, 64, 0x07E0);
    let mut ctrls = Controls::default();
    ctrls.create(
        PARENT,
        ControlClass::Button,
        201,
        "MsgBox".into(),
        WS_VISIBLE,
        0,
        0,
        0,
        0,
    );
    ctrls.render(&mut bm);
    assert!(bm
        .pixels()
        .chunks_exact(2)
        .all(|p| u16::from_le_bytes([p[0], p[1]]) == 0x07E0));
}

#[test]
fn a_disabled_button_neither_focuses_nor_notifies() {
    let mut ctrls = Controls::default();
    let undo = ctrls.create(
        PARENT,
        ControlClass::Button,
        1002,
        "&Undo".into(),
        WS_VISIBLE | WS_DISABLED,
        10,
        10,
        77,
        22,
    );
    assert!(!ctrls.get(undo).unwrap().enabled);
    assert_eq!(ctrls.pointer_down(20, 15), Some(ControlAction::Consumed));
    assert_eq!(ctrls.focus, 0);
    assert!(!ctrls.get(undo).unwrap().pressed);
    assert_eq!(ctrls.pointer_up(20, 15), Some(ControlAction::Consumed));

    ctrls.focus = undo;
    assert_eq!(ctrls.key_down(0x0D), Some(ControlAction::Consumed));
}

#[test]
fn a_disabled_caption_is_etched_rather_than_plain_black() {
    let render = |style: u32| -> Vec<u16> {
        let mut bm = Bitmap::new(120, 40);
        bm.fill_rect(0, 0, 120, 40, FACE);
        let mut ctrls = Controls::default();
        ctrls.create(
            PARENT,
            ControlClass::Static,
            1004,
            "Time:".into(),
            style,
            4,
            4,
            80,
            12,
        );
        ctrls.render(&mut bm);
        words(&bm)
    };
    let on = render(WS_VISIBLE);
    let off = render(WS_VISIBLE | WS_DISABLED);
    assert_ne!(on, off);
    assert!(on.contains(&TEXT));
    assert!(!on.contains(&SHADOW));
    assert!(off.contains(&SHADOW));
    assert!(off.contains(&LIGHT));
    assert!(!off.contains(&TEXT));
}

fn captioned_panel(hwnd: u32) -> DialogPanel {
    DialogPanel {
        hwnd,
        x: 20,
        y: 24,
        w: 200,
        h: 100,
        visible: true,
        border: true,
        caption: Some("Options".into()),
        ok_pressed: false,
    }
}

#[test]
fn a_caption_pushes_the_client_origin_below_it() {
    let bare = DialogPanel {
        caption: None,
        ..captioned_panel(0xDEAD_0002)
    };
    assert_eq!(bare.caption_h(), 0);
    assert_eq!(bare.client_origin(), (21, 25));

    let titled = captioned_panel(0xDEAD_0002);
    assert_eq!(titled.caption_h(), CAPTION_H);
    assert_eq!(titled.client_origin(), (21, 25 + CAPTION_H));
    let (bx, by, bw, bh) = titled.ok_box().expect("captioned");
    assert!(bx + bw < titled.x + titled.w);
    assert!(by > titled.y);
    assert!(by + bh <= titled.y + 1 + CAPTION_H);
    assert!(titled.ok_box_contains(bx + bw / 2, by + bh / 2));
    assert!(!titled.ok_box_contains(bx - 4, by + bh / 2));
    assert!(bare.ok_box().is_none());
    assert!(!bare.ok_box_contains(bx + bw / 2, by + bh / 2));
}

#[test]
fn tapping_the_caption_ok_box_reports_idok_from_the_panel() {
    const MODAL: u32 = 0xDEAD_0002;
    let mut ctrls = Controls::default();
    ctrls.add_panel(captioned_panel(MODAL));
    let (bx, by, bw, bh) = ctrls.panel(MODAL).unwrap().ok_box().unwrap();
    let (cx, cy) = (bx + bw / 2, by + bh / 2);

    assert_eq!(
        ctrls.pointer_down_in(MODAL, cx, cy),
        Some(ControlAction::Consumed)
    );
    assert!(ctrls.panel(MODAL).unwrap().ok_pressed);
    assert_eq!(
        ctrls.pointer_up_in(MODAL, cx, cy),
        Some(ControlAction::Clicked {
            parent: MODAL,
            id: IDOK,
            hwnd: MODAL,
        })
    );
    assert!(!ctrls.panel(MODAL).unwrap().ok_pressed);

    ctrls.pointer_down_in(MODAL, cx, cy);
    assert_eq!(
        ctrls.pointer_up_in(MODAL, cx - 40, cy),
        Some(ControlAction::Consumed)
    );
    assert!(!ctrls.panel(MODAL).unwrap().ok_pressed);
}

#[test]
fn the_help_box_sits_left_of_the_ok_box_and_is_not_part_of_it() {
    const MODAL: u32 = 0xDEAD_0002;
    let panel = captioned_panel(MODAL);
    let (ox, oy, ow, oh) = panel.ok_box().unwrap();
    let (hx, hy, hw, hh) = panel.help_box().unwrap();

    assert_eq!((hy, hh), (oy, oh));
    assert!(hx + hw < ox);
    assert!(ow >= str_width("OK"));
    assert_eq!(hw, hh);
    assert!(!panel.ok_box_contains(hx + hw / 2, hy + hh / 2));
}

#[test]
fn the_caption_ok_box_is_labelled_rather_than_left_blank() {
    const MODAL: u32 = 0xDEAD_0002;
    let mut bm = Bitmap::new(120, 40);
    let mut panel = captioned_panel(MODAL);
    (panel.x, panel.y, panel.w, panel.h) = (0, 0, 120, 40);
    panel.render(&mut bm);

    let (bx, by, bw, bh) = panel.ok_box().unwrap();
    let p = bm.pixels();
    let px = |x: i32, y: i32| -> u16 {
        let o = (y * 120 + x) as usize * 2;
        u16::from_le_bytes([p[o], p[o + 1]])
    };
    let labelled = (by..by + bh).any(|y| (bx..bx + bw).any(|x| px(x, y) == OK_FG));
    assert!(labelled, "the OK box drew no label");
    assert_ne!(OK_FG, FACE);
}

#[test]
fn check_radio_button_selects_one_and_clears_the_rest_of_the_range() {
    const DLG: u32 = 0xDEAD_0002;
    const OTHER: u32 = 0xDEAD_0003;
    let mut ctrls = Controls::default();
    let radio = |ctrls: &mut Controls, parent: u32, id: u32| {
        ctrls.create(
            parent,
            ControlClass::Button,
            id,
            String::new(),
            WS_VISIBLE | BS_AUTORADIOBUTTON,
            0,
            0,
            10,
            10,
        )
    };
    for id in 100..103 {
        let h = radio(&mut ctrls, DLG, id);
        ctrls.get_mut(h).unwrap().checked = id == 100;
    }
    let stranger = radio(&mut ctrls, OTHER, 101);
    ctrls.get_mut(stranger).unwrap().checked = true;

    assert_eq!(ctrls.check_radio_range(DLG, 100, 102, 101), 3);
    assert!(!ctrls.by_id(DLG, 100).unwrap().checked);
    assert!(ctrls.by_id(DLG, 101).unwrap().checked);
    assert!(!ctrls.by_id(DLG, 102).unwrap().checked);
    assert!(ctrls.get(stranger).unwrap().checked);
    assert_eq!(ctrls.check_radio_range(DLG, 900, 999, 950), 0);
}

#[test]
fn a_dialog_on_top_hides_the_buttons_of_the_one_below() {
    const STRIP: u32 = 0xDEAD_0002;
    const MODAL: u32 = 0xDEAD_0003;
    let mut bm = Bitmap::new(120, 60);
    let mut ctrls = Controls::default();

    ctrls.add_panel(DialogPanel {
        hwnd: STRIP,
        x: 80,
        y: 0,
        w: 40,
        h: 60,
        visible: true,
        border: false,
        caption: None,
        ok_pressed: false,
    });
    ctrls.create(
        STRIP,
        ControlClass::Button,
        1000,
        "Exit".into(),
        WS_VISIBLE,
        0,
        0,
        38,
        20,
    );
    ctrls.add_panel(DialogPanel {
        hwnd: MODAL,
        x: 10,
        y: 5,
        w: 100,
        h: 50,
        visible: true,
        border: true,
        caption: Some("Options".into()),
        ok_pressed: false,
    });
    ctrls.render(&mut bm);

    let p = bm.pixels();
    let px = |x: usize, y: usize| -> u16 {
        let o = (y * 120 + x) * 2;
        u16::from_le_bytes([p[o], p[o + 1]])
    };
    assert_eq!(px(90, 8), CAPTION_BG);
    assert_ne!(px(112, 2), CAPTION_BG);
}

#[test]
fn a_group_box_frames_its_radios_without_covering_them() {
    const MODAL: u32 = 0xDEAD_0002;
    const BS_AUTORADIO: u32 = 0x0009;
    let mut ctrls = Controls::default();
    let group = ctrls.create(
        MODAL,
        ControlClass::Button,
        1009,
        "Draw".into(),
        WS_VISIBLE | BS_GROUPBOX,
        5,
        0,
        113,
        84,
    );
    let one = ctrls.create(
        MODAL,
        ControlClass::Button,
        1010,
        "One".into(),
        WS_VISIBLE | BS_AUTORADIO,
        15,
        24,
        75,
        21,
    );

    assert!(ctrls.get(group).unwrap().is_group_box());
    assert!(!ctrls.get(group).unwrap().is_push_button());
    assert!(!ctrls.get(group).unwrap().is_focusable());
    assert_eq!(ctrls.hit_test(20, 30), Some(one));
    assert_eq!(ctrls.hit_test(20, 75), None);
}

#[test]
fn a_group_box_is_an_etched_frame_not_a_raised_face() {
    let render = |style: u32| -> Vec<u16> {
        let mut bm = Bitmap::new(120, 60);
        bm.fill_rect(0, 0, 120, 60, FACE);
        let mut ctrls = Controls::default();
        ctrls.create(
            PARENT,
            ControlClass::Button,
            1009,
            "Draw".into(),
            style,
            4,
            4,
            100,
            50,
        );
        ctrls.render(&mut bm);
        words(&bm)
    };
    let group = render(WS_VISIBLE | BS_GROUPBOX);
    let push = render(WS_VISIBLE);
    assert_ne!(group, push);
    assert!(group.contains(&SHADOW));
    assert!(group.contains(&LIGHT));
    assert!(group.contains(&TEXT));
    let centre = 30 * 120 + 54;
    assert_eq!(group[centre], FACE);
    assert_ne!(push[centre], FACE);
}

#[test]
fn class_names_are_matched_case_insensitively() {
    assert_eq!(
        ControlClass::from_class_name("BUTTON"),
        Some(ControlClass::Button)
    );
    assert_eq!(
        ControlClass::from_class_name("Edit"),
        Some(ControlClass::Edit)
    );
    assert_eq!(
        ControlClass::from_class_name("static"),
        Some(ControlClass::Static)
    );
    assert_eq!(ControlClass::from_class_name("CerfBlankApp"), None);
}

#[test]
fn typing_then_backspace_gives_back_the_text() {
    let mut ctrls = Controls::default();
    let edit = ctrls.create(PARENT, ControlClass::Edit, 7, "x".into(), WS_VISIBLE, 0, 0, 60, 20);
    ctrls.focus = edit;
    assert_eq!(ctrls.key_down(0x5A), Some(ControlAction::Consumed));
    assert_eq!(ctrls.get(edit).unwrap().text, "xz");
    assert_eq!(ctrls.key_down(0x08), Some(ControlAction::Consumed));
    assert_eq!(ctrls.get(edit).unwrap().text, "x");
    // A key with no character is left to the application.
    assert_eq!(ctrls.key_down(0x70), None);
}

#[test]
fn a_focused_push_button_answers_space_and_return() {
    let mut ctrls = Controls::default();
    let b = button(&mut ctrls, 44, 0, 0);
    ctrls.focus = b;
    assert_eq!(
        ctrls.key_down(0x20),
        Some(ControlAction::Clicked { parent: PARENT, id: 44, hwnd: b })
    );
    assert_eq!(ctrls.key_down(0x41), None);
}

#[test]
fn destroy_drops_one_control_and_its_focus() {
    let mut ctrls = Controls::default();
    let a = button(&mut ctrls, 1, 0, 0);
    let b = button(&mut ctrls, 2, 0, 40);
    ctrls.focus = a;
    ctrls.destroy(a);
    assert!(ctrls.get(a).is_none());
    assert!(ctrls.get(b).is_some());
    assert_eq!(ctrls.focus, 0);
    assert_eq!(ctrls.is_visible(b), Some(true));
    assert_eq!(ctrls.is_visible(a), None);
}

#[test]
fn a_panel_offsets_its_children_on_screen() {
    const DLG: u32 = 0xDEAD_0005;
    let mut ctrls = Controls::default();
    ctrls.add_panel(captioned_panel(DLG));
    let h = ctrls.create(DLG, ControlClass::Button, 9, "Go".into(), WS_VISIBLE, 5, 5, 30, 20);
    assert_eq!(ctrls.screen_rect(h), Some((26, 25 + CAPTION_H + 5, 30, 20)));
    // A tap in screen space lands on it.
    assert_eq!(ctrls.hit_test(30, 25 + CAPTION_H + 10), Some(h));
    // A tap inside the dialog but on no control is swallowed, not passed on.
    assert_eq!(ctrls.pointer_down_in(DLG, 150, 100), Some(ControlAction::Consumed));
}

#[test]
fn a_focused_edit_draws_its_caret_after_the_text() {
    let mut ctrls = Controls::default();
    let e = ctrls.create(PARENT, ControlClass::Edit, 3, "ab".into(), WS_VISIBLE, 0, 0, 60, 20);
    ctrls.focus = e;
    let mut bm = Bitmap::new(64, 24);
    ctrls.render(&mut bm);
    let w = words(&bm);
    // Text at x = 3, two cells, then the caret column at x = 15.
    let ty = (20 - 8) / 2;
    assert_eq!(w[(ty as usize + 3) * 64 + 15], TEXT);
    assert_eq!(w[(ty as usize + 3) * 64 + 16], 0xFFFF);
}

#[test]
fn handles_are_handed_out_in_order_until_the_range_runs_out() {
    let mut ctrls = Controls::default();
    for k in 0..256u32 {
        assert_eq!(button(&mut ctrls, k, 0, 0), 0xDEAD_0E00 + k);
    }
    assert_eq!(button(&mut ctrls, 999, 0, 0), 0);
    assert!(ctrls.get(0xDEAD_0E00 + 255).is_some());
}

#[test]
fn controls_at_the_edge_of_the_coordinate_range_paint_nothing_on_screen() {
    let mut ctrls = Controls::default();
    button(&mut ctrls, 1, i32::MAX - 3, i32::MAX - 3);
    button(&mut ctrls, 2, i32::MIN, i32::MIN);
    let mut bm = Bitmap::new(16, 16);
    let before = bm.pixels();
    ctrls.render(&mut bm);
    assert_eq!(bm.pixels(), before);
}

#[test]
fn the_focus_accessors_are_the_field() {
    let mut ctrls = Controls::default();
    let a = button(&mut ctrls, 1, 0, 0);
    ctrls.set_focus(a);
    assert_eq!(ctrls.focus, a);
    assert_eq!(ctrls.focused(), a);
    ctrls.focus = 0;
    assert_eq!(ctrls.focused(), 0);
}
