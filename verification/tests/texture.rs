use pockethle::gl::{
    GL_LINEAR, GL_LINEAR_MIPMAP_LINEAR, GL_LUMINANCE, GL_NEAREST_MIPMAP_NEAREST, GL_RGB, GL_RGBA,
    GL_TEXTURE_MAG_FILTER, GL_TEXTURE_MIN_FILTER, GL_TEXTURE_WRAP_S, GL_UNSIGNED_BYTE,
    GL_UNSIGNED_SHORT_4_4_4_4, GL_UNSIGNED_SHORT_5_5_5_1, GL_UNSIGNED_SHORT_5_6_5, GL_CLAMP_TO_EDGE,
    GL_ALPHA, GL_LUMINANCE_ALPHA,
};
use pockethle::texture::{bytes_per_texel, decode_to_rgba, wrap_cell, Filter, Texture, Wrap};

#[test]
fn rgb565_expands_to_full_range() {
    let white = 0xFFFFu16.to_le_bytes();
    let out = decode_to_rgba(&white, 1, 1, GL_RGB, GL_UNSIGNED_SHORT_5_6_5).unwrap();
    assert_eq!(out, vec![255, 255, 255, 255]);
}

#[test]
fn rgb565_channel_order_is_r_g_b() {
    let red = 0xF800u16.to_le_bytes();
    let out = decode_to_rgba(&red, 1, 1, GL_RGB, GL_UNSIGNED_SHORT_5_6_5).unwrap();
    assert_eq!(out, vec![255, 0, 0, 255]);
    let blue = 0x001Fu16.to_le_bytes();
    let out = decode_to_rgba(&blue, 1, 1, GL_RGB, GL_UNSIGNED_SHORT_5_6_5).unwrap();
    assert_eq!(out, vec![0, 0, 255, 255]);
}

#[test]
fn rgba4444_decodes_alpha() {
    let px = 0xF00Fu16.to_le_bytes();
    let out = decode_to_rgba(&px, 1, 1, GL_RGBA, GL_UNSIGNED_SHORT_4_4_4_4).unwrap();
    assert_eq!(out, vec![255, 0, 0, 255]);
}

#[test]
fn rgba5551_alpha_is_one_bit() {
    let opaque = 0x0001u16.to_le_bytes();
    let out = decode_to_rgba(&opaque, 1, 1, GL_RGBA, GL_UNSIGNED_SHORT_5_5_5_1).unwrap();
    assert_eq!(out[3], 255);
    let transparent = 0x0000u16.to_le_bytes();
    let out = decode_to_rgba(&transparent, 1, 1, GL_RGBA, GL_UNSIGNED_SHORT_5_5_5_1).unwrap();
    assert_eq!(out[3], 0);
}

#[test]
fn rgb_ubyte_gains_opaque_alpha() {
    let out = decode_to_rgba(&[10, 20, 30], 1, 1, GL_RGB, GL_UNSIGNED_BYTE).unwrap();
    assert_eq!(out, vec![10, 20, 30, 255]);
}

#[test]
fn truncated_buffer_is_rejected() {
    assert!(decode_to_rgba(&[0u8; 8], 2, 2, GL_RGBA, GL_UNSIGNED_BYTE).is_none());
}

#[test]
fn unsupported_format_is_rejected() {
    assert!(decode_to_rgba(&[0u8; 4], 1, 1, 0x9999, GL_UNSIGNED_BYTE).is_none());
}

#[test]
fn mipmap_min_filters_collapse_to_base_filter() {
    let mut t = Texture::default();
    assert!(t.set_parameter(GL_TEXTURE_MIN_FILTER, GL_LINEAR_MIPMAP_LINEAR));
    assert_eq!(t.min_filter, Filter::Linear);
    assert!(t.set_parameter(GL_TEXTURE_MIN_FILTER, GL_NEAREST_MIPMAP_NEAREST));
    assert_eq!(t.min_filter, Filter::Nearest);
}

#[test]
fn unknown_parameter_is_rejected() {
    let mut t = Texture::default();
    assert!(!t.set_parameter(0x9999, GL_LINEAR));
    assert!(!t.set_parameter(GL_TEXTURE_MAG_FILTER, 0x9999));
}

#[test]
fn channels_widen_to_both_ends_of_the_byte() {
    // 0x07E0 is green only: 6 bits all set.
    let green = 0x07E0u16.to_le_bytes();
    let out = decode_to_rgba(&green, 1, 1, GL_RGB, GL_UNSIGNED_SHORT_5_6_5).unwrap();
    assert_eq!(out, vec![0, 255, 0, 255]);
    // A mid-range 5-bit value replicates its top bits: 0b10000 -> 0b10000100.
    let mid = (0b10000u16 << 11).to_le_bytes();
    let out = decode_to_rgba(&mid, 1, 1, GL_RGB, GL_UNSIGNED_SHORT_5_6_5).unwrap();
    assert_eq!(out[0], 0b1000_0100);
}

#[test]
fn luminance_and_alpha_formats_spread_their_channels() {
    let out = decode_to_rgba(&[7, 9], 2, 1, GL_LUMINANCE, GL_UNSIGNED_BYTE).unwrap();
    assert_eq!(out, vec![7, 7, 7, 255, 9, 9, 9, 255]);
    let out = decode_to_rgba(&[7, 40], 1, 1, GL_LUMINANCE_ALPHA, GL_UNSIGNED_BYTE).unwrap();
    assert_eq!(out, vec![7, 7, 7, 40]);
    let out = decode_to_rgba(&[40], 1, 1, GL_ALPHA, GL_UNSIGNED_BYTE).unwrap();
    assert_eq!(out, vec![255, 255, 255, 40]);
}

#[test]
fn texel_sizes_follow_the_format() {
    assert_eq!(bytes_per_texel(GL_RGBA, GL_UNSIGNED_BYTE), Some(4));
    assert_eq!(bytes_per_texel(GL_RGB, GL_UNSIGNED_BYTE), Some(3));
    assert_eq!(bytes_per_texel(GL_RGB, GL_UNSIGNED_SHORT_5_6_5), Some(2));
    assert_eq!(bytes_per_texel(GL_LUMINANCE, GL_UNSIGNED_BYTE), Some(1));
    assert_eq!(bytes_per_texel(GL_RGB, 0x1234), None);
}

#[test]
fn wrap_parameters_are_accepted_and_a_fresh_texture_is_incomplete() {
    let mut t = Texture::default();
    assert!(!t.is_complete());
    assert!(t.set_parameter(GL_TEXTURE_WRAP_S, GL_CLAMP_TO_EDGE));
    assert_eq!(t.wrap_s, Wrap::ClampToEdge);
    assert_eq!(t.wrap_t, Wrap::Repeat);
}

#[test]
fn repeat_wraps_negative_cells_from_the_far_edge() {
    assert_eq!(wrap_cell(-1, 4, Wrap::Repeat), 3);
    assert_eq!(wrap_cell(-4, 4, Wrap::Repeat), 0);
    assert_eq!(wrap_cell(-5, 4, Wrap::Repeat), 3);
    assert_eq!(wrap_cell(5, 4, Wrap::Repeat), 1);
    assert_eq!(wrap_cell(i64::MIN, 4, Wrap::Repeat), 0);
    assert_eq!(wrap_cell(7, 0, Wrap::Repeat), 0);
}

#[test]
fn clamp_to_edge_holds_cells_to_the_edge_texels() {
    assert_eq!(wrap_cell(-20, 4, Wrap::ClampToEdge), 0);
    assert_eq!(wrap_cell(99, 4, Wrap::ClampToEdge), 3);
    assert_eq!(wrap_cell(2, 4, Wrap::ClampToEdge), 2);
}

#[test]
fn sampling_picks_the_wrapped_texel_and_white_when_incomplete() {
    let t = Texture::default();
    assert_eq!(t.sample_cell(0, 0), [255, 255, 255, 255]);
    let mut t = Texture {
        width: 2,
        height: 2,
        rgba: (0u8..16).collect(),
        ..Default::default()
    };
    assert_eq!(t.sample_cell(1, 0), [4, 5, 6, 7]);
    assert_eq!(t.sample_cell(-1, 3), [12, 13, 14, 15]);
    t.wrap_t = Wrap::ClampToEdge;
    assert_eq!(t.sample_cell(2, -9), [0, 1, 2, 3]);
}

#[test]
fn repeat_wraps_negative_coordinates() {
    // -0.25 in a 4-texel row is cell floor(-0.25 * 4) = -1: texel 3, not
    // a clamp to 0. 1.25 is cell 5: texel 1.
    assert_eq!(wrap_cell(-1, 4, Wrap::Repeat), 3);
    assert_eq!(wrap_cell(5, 4, Wrap::Repeat), 1);
}

#[test]
fn clamp_to_edge_saturates() {
    // -5.0 and 99.0 in a 4-texel row are cells -20 and 396.
    assert_eq!(wrap_cell(-20, 4, Wrap::ClampToEdge), 0);
    assert_eq!(wrap_cell(396, 4, Wrap::ClampToEdge), 3);
}

#[test]
fn incomplete_texture_samples_white() {
    let t = Texture::default();
    // (0.5, 0.5) on a texture of no size is cell (0, 0).
    assert_eq!(t.sample_cell(0, 0), [255, 255, 255, 255]);
}

#[test]
fn packed_types_only_go_with_their_own_format() {
    // A packed texel is two bytes whatever the format...
    assert_eq!(bytes_per_texel(GL_RGBA, GL_UNSIGNED_SHORT_5_6_5), Some(2));
    assert_eq!(bytes_per_texel(GL_RGB, GL_UNSIGNED_SHORT_4_4_4_4), Some(2));
    assert_eq!(bytes_per_texel(GL_LUMINANCE, GL_UNSIGNED_SHORT_5_5_5_1), Some(2));
    // ...but only its own format may be uploaded with it.
    assert!(decode_to_rgba(&[0xFF, 0xFF], 1, 1, GL_LUMINANCE, GL_UNSIGNED_SHORT_5_6_5).is_none());
    assert!(decode_to_rgba(&[0xFF, 0xFF], 1, 1, GL_RGB, GL_UNSIGNED_SHORT_5_5_5_1).is_none());
}
