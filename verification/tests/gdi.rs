use pockethle::font::{draw_str, str_width, GLYPH_H, GLYPH_W};
use pockethle::gdi::Bitmap;

fn words(bm: &Bitmap) -> Vec<u16> {
    bm.pixels()
        .chunks_exact(2)
        .map(|p| u16::from_le_bytes([p[0], p[1]]))
        .collect()
}

#[test]
fn a_new_bitmap_is_black_and_little_endian() {
    let mut bm = Bitmap::new(3, 2);
    assert_eq!(bm.pixels(), vec![0u8; 12]);
    bm.put_pixel(1, 0, 0xABCD);
    assert_eq!(&bm.pixels()[2..4], &[0xCD, 0xAB]);
    assert_eq!((bm.width(), bm.height()), (3, 2));
}

#[test]
fn fills_are_clipped_to_the_bitmap() {
    let mut bm = Bitmap::new(4, 4);
    bm.fill_rect(-2, 2, 4, 10, 7);
    let w = words(&bm);
    for y in 0..4 {
        for x in 0..4 {
            let want = if x < 2 && y >= 2 { 7 } else { 0 };
            assert_eq!(w[y * 4 + x], want, "pixel ({x}, {y})");
        }
    }
    bm.put_pixel(-1, 0, 9);
    bm.put_pixel(4, 0, 9);
    assert_eq!(words(&bm), w);
}

#[test]
fn text_is_drawn_in_fixed_cells() {
    assert_eq!((GLYPH_W, GLYPH_H), (6, 8));
    assert_eq!(str_width("OK"), 12);
    let mut bm = Bitmap::new(16, 8);
    draw_str(&mut bm, 0, 0, "A B", 1);
    let w = words(&bm);
    // The first glyph's cell is lit; the space draws nothing; the
    // sixth column of every cell is spacing.
    assert_eq!(w[0], 1);
    assert_eq!(w[5], 0);
    assert!((6..12).all(|x| (0..8).all(|y| w[y * 16 + x] == 0)));
    assert_eq!(w[12], 1);
    assert!((0..16).all(|x| w[7 * 16 + x] == 0));
}
