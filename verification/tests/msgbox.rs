use pockethle::controls::paint::{CAPTION_BG, CAPTION_FG, FACE, TEXT};
use pockethle::font::str_width;
use pockethle::gdi::Bitmap;
use pockethle::msgbox::{id, mb, MessageBox, CAPTION_H};

const SCREEN: (i32, i32) = (480, 240);

fn box_of(u_type: u32) -> MessageBox {
    MessageBox::new("Are you sure?", "Solitaire", u_type, SCREEN.0, SCREEN.1)
}

#[test]
fn a_yesno_box_offers_yes_and_no_and_returns_their_ids() {
    let mb = box_of(mb::YESNO);
    let labels: Vec<&str> = mb.buttons.iter().map(|b| b.label.as_str()).collect();
    assert_eq!(labels, vec!["Yes", "No"]);
    assert_eq!(mb.buttons[0].result, id::YES);
    assert_eq!(mb.buttons[1].result, id::NO);
}

#[test]
fn each_button_set_maps_to_its_own_ids() {
    let ok = box_of(mb::OK);
    assert_eq!(ok.buttons.len(), 1);
    assert_eq!(ok.buttons[0].result, id::OK);

    let ync = box_of(mb::YESNOCANCEL);
    let results: Vec<u32> = ync.buttons.iter().map(|b| b.result).collect();
    assert_eq!(results, vec![id::YES, id::NO, id::CANCEL]);

    let ari = box_of(mb::ABORTRETRYIGNORE);
    let results: Vec<u32> = ari.buttons.iter().map(|b| b.result).collect();
    assert_eq!(results, vec![id::ABORT, id::RETRY, id::IGNORE]);
}

#[test]
fn tapping_a_button_yields_its_id_only_on_release_inside_it() {
    let mut mb = box_of(mb::YESNO);
    let no = mb.buttons[1].clone();
    let (cx, cy) = (no.x + no.w / 2, no.y + no.h / 2);

    mb.pointer_down(cx, cy);
    assert!(mb.buttons[1].pressed);
    assert_eq!(mb.result, None, "still held down");

    mb.pointer_up(mb.x + 2, mb.y + mb.h - 2);
    assert_eq!(mb.result, None);
    assert!(!mb.buttons[1].pressed);

    mb.pointer_down(cx, cy);
    mb.pointer_up(cx, cy);
    assert_eq!(mb.result, Some(id::NO));
}

#[test]
fn enter_takes_the_default_button_and_escape_cancels() {
    let mut mb = box_of(mb::YESNO);
    mb.key_down(0x0D);
    assert_eq!(mb.result, Some(id::YES), "first button is the default");

    let mut mb = box_of(mb::YESNO | mb::DEFBUTTON2);
    assert_eq!(mb.default_button, 1);
    mb.key_down(0x0D);
    assert_eq!(mb.result, Some(id::NO));

    let mut mb = box_of(mb::YESNOCANCEL);
    mb.key_down(0x1B);
    assert_eq!(mb.result, Some(id::CANCEL));
    let mut mb = box_of(mb::YESNO);
    mb.key_down(0x1B);
    assert_eq!(mb.result, Some(id::NO));
}

#[test]
fn the_close_box_cancels() {
    let mut mb = box_of(mb::OKCANCEL);
    let (cx, cy, cw, ch) = mb.close_box();
    mb.pointer_up(cx + cw / 2, cy + ch / 2);
    assert_eq!(mb.result, Some(id::CANCEL));
}

#[test]
fn the_box_is_centred_and_fits_the_screen() {
    let mb = box_of(mb::YESNO);
    assert!(mb.w <= SCREEN.0 && mb.h <= SCREEN.1);
    assert!(mb.x >= 0 && mb.y >= 0);
    assert_eq!(mb.x + mb.w / 2, SCREEN.0 / 2, "horizontally centred");
    for button in &mb.buttons {
        assert!(button.x >= mb.x && button.x + button.w <= mb.x + mb.w);
        assert!(button.y >= mb.y && button.y + button.h <= mb.y + mb.h);
    }
}

#[test]
fn a_long_message_wraps_instead_of_running_off_the_box() {
    let long = "This deal cannot be completed because the deck has \
                run out of cards to turn over, which should not happen.";
    let mb = MessageBox::new(long, "Solitaire", mb::OK, SCREEN.0, SCREEN.1);
    assert!(mb.lines.len() > 1, "wrapped onto several lines");
    assert!(mb.w <= SCREEN.0);
    for line in &mb.lines {
        assert!(str_width(line) <= mb.w, "line {line:?} is wider than the box");
    }
}

#[test]
fn explicit_newlines_are_honoured() {
    let mb = MessageBox::new("First\nSecond", "T", mb::OK, SCREEN.0, SCREEN.1);
    assert_eq!(mb.lines, vec!["First", "Second"]);
}

#[test]
fn a_word_longer_than_the_column_is_broken_up() {
    let mb = MessageBox::new(&"z".repeat(400), "T", mb::OK, SCREEN.0, SCREEN.1);
    assert!(mb.lines.len() > 1);
    for line in &mb.lines {
        assert!(str_width(line) <= mb.w);
    }
}

#[test]
fn rendering_paints_the_caption_bar_and_a_raised_face() {
    let mut bmp = Bitmap::new(SCREEN.0 as u32, SCREEN.1 as u32);
    bmp.fill_rect(0, 0, SCREEN.0, SCREEN.1, 0x07E0);
    let mb = box_of(mb::YESNO | mb::ICONQUESTION);
    mb.render(&mut bmp);
    let px = bmp.pixels();
    let at = |x: i32, y: i32| -> u16 {
        let i = (y as usize * SCREEN.0 as usize + x as usize) * 2;
        u16::from_le_bytes([px[i], px[i + 1]])
    };

    assert_eq!(at(mb.x + 2, mb.y + 2), CAPTION_BG);
    assert!(
        (mb.x + 4..mb.x + 4 + str_width("Solitaire")).any(|x| at(x, mb.y + 5) == CAPTION_FG),
        "caption text is painted in the bar"
    );
    assert_eq!(at(mb.x + 3, mb.y + CAPTION_H + 4), FACE, "body is the button face");
    assert_eq!(at(mb.x, mb.y), TEXT);
    assert_eq!(at(1, 1), 0x07E0);
}

#[test]
fn carriage_returns_are_dropped_and_blank_lines_kept() {
    let mb = MessageBox::new("One\r\n\r\nTwo", "T", mb::OK, SCREEN.0, SCREEN.1);
    assert_eq!(mb.lines, vec!["One", "", "Two"]);
}

#[test]
fn a_retry_cancel_box_cancels_on_escape_and_ok_falls_back_to_its_default() {
    let mut rc = box_of(mb::RETRYCANCEL);
    rc.key_down(0x1B);
    assert_eq!(rc.result, Some(id::CANCEL));
    let mut ok = box_of(mb::OK);
    ok.key_down(0x1B);
    assert_eq!(ok.result, Some(id::OK));
    let mut other = box_of(mb::OK);
    other.key_down(0x41);
    assert_eq!(other.result, None);
    assert_eq!(box_of(mb::OK).default_result(), id::OK);
}

#[test]
fn the_icons_take_room_beside_the_text_and_are_drawn() {
    let plain = box_of(mb::OK);
    let stop = box_of(mb::OK | mb::ICONSTOP);
    assert!(stop.w > plain.w);
    let mut bmp = Bitmap::new(SCREEN.0 as u32, SCREEN.1 as u32);
    stop.render(&mut bmp);
    let px = bmp.pixels();
    // The disc's centre, inside the body, is the stop red.
    let (cx, cy) = (stop.x + 1 + 6 + 8, stop.y + 1 + CAPTION_H + 6 + 2);
    let i = (cy as usize * SCREEN.0 as usize + cx as usize) * 2;
    assert_eq!(u16::from_le_bytes([px[i], px[i + 1]]), 0xC000);
}

#[test]
fn wrapping_keeps_every_word_in_order() {
    let text = "This deal cannot be completed because the deck has \
                run out of cards,\r\nso it ends here. ";
    let mb = MessageBox::new(text, "Solitaire", mb::OK, SCREEN.0, SCREEN.1);
    let kept = |c: &char| *c != ' ' && *c != '\n' && *c != '\r';
    let from_lines: String = mb.lines.concat().chars().filter(kept).collect();
    let from_text: String = text.chars().filter(kept).collect();
    assert_eq!(from_lines, from_text);
}

#[test]
fn other_keys_and_taps_leave_the_text_alone() {
    let mut b = box_of(mb::YESNO);
    let before = b.lines.clone();
    b.key_down(0x41);
    b.pointer_down(0, 0);
    b.pointer_up(0, 0);
    assert_eq!(b.lines, before);
    assert_eq!(b.caption, "Solitaire");
    assert_eq!(b.result, None);
}

#[test]
fn a_box_far_off_screen_paints_nothing() {
    let mut b = box_of(mb::YESNOCANCEL);
    b.x = i32::MAX - 10;
    b.y = i32::MIN + 1;
    for button in &mut b.buttons {
        button.x = i32::MIN;
        button.y = i32::MAX - 1;
    }
    let mut bmp = Bitmap::new(SCREEN.0 as u32, SCREEN.1 as u32);
    let before = bmp.pixels();
    b.render(&mut bmp);
    assert_eq!(bmp.pixels(), before);
}

#[test]
fn only_a_paragraphs_trailing_carriage_returns_are_dropped() {
    let mb = MessageBox::new("a\rb c\r\r\nd", "T", mb::OK, SCREEN.0, SCREEN.1);
    let kept: String = mb.lines.concat().chars().filter(|c| *c != ' ').collect();
    assert_eq!(kept, "a\rbcd");
}
