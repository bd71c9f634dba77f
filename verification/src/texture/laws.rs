//! What a decoded texel holds, said from the guest's bytes: which bits
//! of a packed word feed which channel, and which byte of an unpacked
//! texel lands where.
use vstd::prelude::*;

use crate::gl::{
    GL_ALPHA, GL_LUMINANCE, GL_LUMINANCE_ALPHA, GL_RGB, GL_RGBA, GL_UNSIGNED_BYTE,
    GL_UNSIGNED_SHORT_4_4_4_4, GL_UNSIGNED_SHORT_5_5_5_1, GL_UNSIGNED_SHORT_5_6_5,
};
use crate::gl::{
    GL_CLAMP_TO_EDGE, GL_LINEAR, GL_LINEAR_MIPMAP_LINEAR, GL_LINEAR_MIPMAP_NEAREST, GL_NEAREST,
    GL_NEAREST_MIPMAP_LINEAR, GL_NEAREST_MIPMAP_NEAREST, GL_REPEAT, GL_TEXTURE_MAG_FILTER,
    GL_TEXTURE_MIN_FILTER, GL_TEXTURE_WRAP_S, GL_TEXTURE_WRAP_T,
};
use crate::texture::{
    decoded, texel_rgba, widen4, widen5, widen6, with_parameter, word_at, wrapped, Filter,
    Texture, Wrap,
};

verus! {

/// The 16-bit word packed texel `i` is stored as: low byte first.
pub open spec fn packed_word(data: Seq<u8>, i: int) -> int {
    data[2 * i] + 256 * data[2 * i + 1]
}

/// A `bits`-bit channel value stretched to eight bits by repeating its
/// top bits below it, so that all ones becomes 255.
pub open spec fn stretched(v: int, bits: int) -> int {
    if bits == 4 {
        v * 17
    } else if bits == 5 {
        v * 8 + v / 4
    } else {
        v * 4 + v / 16
    }
}

proof fn lemma_word(lo: u8, hi: u8)
    ensures
        (lo as u16 | (hi as u16) << 8u16) as int == lo + 256 * hi,
{
    assert((lo as u16 | (hi as u16) << 8u16) as int == lo + 256 * hi) by (bit_vector);
}

proof fn lemma_fields(p: u16)
    ensures
        widen5((p >> 11u16) as u16) == stretched((p / 2048) as int, 5),
        widen6((p >> 5u16) as u16) == stretched(((p / 32) % 64) as int, 6),
        widen5(p) == stretched((p % 32) as int, 5),
        widen5((p >> 6u16) as u16) == stretched(((p / 64) % 32) as int, 5),
        widen5((p >> 1u16) as u16) == stretched(((p / 2) % 32) as int, 5),
        widen4((p >> 12u16) as u16) == stretched((p / 4096) as int, 4),
        widen4((p >> 8u16) as u16) == stretched(((p / 256) % 16) as int, 4),
        widen4((p >> 4u16) as u16) == stretched(((p / 16) % 16) as int, 4),
        widen4(p) == stretched((p % 16) as int, 4),
        (p & 1 != 0) == (p % 2 == 1),
{
    assert(widen5((p >> 11u16) as u16) == (p / 2048) * 8 + (p / 2048) / 4) by (bit_vector);
    assert(widen6((p >> 5u16) as u16) == ((p / 32) % 64) * 4 + ((p / 32) % 64) / 16) by (bit_vector);
    assert(widen5(p) == (p % 32) * 8 + (p % 32) / 4) by (bit_vector);
    assert(widen5((p >> 6u16) as u16) == ((p / 64) % 32) * 8 + ((p / 64) % 32) / 4) by (bit_vector);
    assert(widen5((p >> 1u16) as u16) == ((p / 2) % 32) * 8 + ((p / 2) % 32) / 4) by (bit_vector);
    assert(widen4((p >> 12u16) as u16) == (p / 4096) * 17) by (bit_vector);
    assert(widen4((p >> 8u16) as u16) == ((p / 256) % 16) * 17) by (bit_vector);
    assert(widen4((p >> 4u16) as u16) == ((p / 16) % 16) * 17) by (bit_vector);
    assert(widen4(p) == (p % 16) * 17) by (bit_vector);
    assert((p & 1 != 0) == (p % 2 == 1)) by (bit_vector);
}

/// Byte `4i + k` of a decoded image is byte `k` of texel `i`.
proof fn lemma_decoded_at(data: Seq<u8>, count: nat, format: u32, ty: u32, i: int, k: int)
    requires
        0 <= i < count,
        0 <= k < 4,
    ensures
        decoded(data, count, format, ty)[4 * i + k] == texel_rgba(data, i, format, ty)[k],
{
    assert((4 * i + k) / 4 == i && (4 * i + k) % 4 == k) by (nonlinear_arith)
        requires
            0 <= k < 4,
    ;
    assert(4 * i + k < count * 4) by (nonlinear_arith)
        requires
            0 <= i < count,
            0 <= k < 4,
    ;
}

/// Texel `i` of a packed upload, as the word `w` its two bytes make.
proof fn lemma_packed_word(data: Seq<u8>, i: int)
    requires
        0 <= i,
        2 * i + 1 < data.len(),
    ensures
        word_at(data, i) as int == packed_word(data, i),
{
    lemma_word(data[2 * i], data[2 * i + 1]);
}

/// A 5-6-5 texel's word holds red in its top five bits, green in the
/// six below and blue in the low five; the texel is opaque.
pub proof fn lemma_565_channels(data: Seq<u8>, count: nat, format: u32, i: int)
    requires
        0 <= i < count,
        2 * count <= data.len(),
    ensures
        ({
            let w = packed_word(data, i);
            let d = decoded(data, count, format, GL_UNSIGNED_SHORT_5_6_5);
            &&& d[4 * i] == stretched(w / 2048, 5)
            &&& d[4 * i + 1] == stretched((w / 32) % 64, 6)
            &&& d[4 * i + 2] == stretched(w % 32, 5)
            &&& d[4 * i + 3] == 255
        }),
{
    lemma_packed_word(data, i);
    lemma_fields(word_at(data, i));
    lemma_decoded_at(data, count, format, GL_UNSIGNED_SHORT_5_6_5, i, 0);
    lemma_decoded_at(data, count, format, GL_UNSIGNED_SHORT_5_6_5, i, 1);
    lemma_decoded_at(data, count, format, GL_UNSIGNED_SHORT_5_6_5, i, 2);
    lemma_decoded_at(data, count, format, GL_UNSIGNED_SHORT_5_6_5, i, 3);
}

/// A 4-4-4-4 texel's word holds red, green, blue and alpha, four bits
/// each, from the top down.
pub proof fn lemma_4444_channels(data: Seq<u8>, count: nat, format: u32, i: int)
    requires
        0 <= i < count,
        2 * count <= data.len(),
    ensures
        ({
            let w = packed_word(data, i);
            let d = decoded(data, count, format, GL_UNSIGNED_SHORT_4_4_4_4);
            &&& d[4 * i] == stretched(w / 4096, 4)
            &&& d[4 * i + 1] == stretched((w / 256) % 16, 4)
            &&& d[4 * i + 2] == stretched((w / 16) % 16, 4)
            &&& d[4 * i + 3] == stretched(w % 16, 4)
        }),
{
    lemma_packed_word(data, i);
    lemma_fields(word_at(data, i));
    lemma_decoded_at(data, count, format, GL_UNSIGNED_SHORT_4_4_4_4, i, 0);
    lemma_decoded_at(data, count, format, GL_UNSIGNED_SHORT_4_4_4_4, i, 1);
    lemma_decoded_at(data, count, format, GL_UNSIGNED_SHORT_4_4_4_4, i, 2);
    lemma_decoded_at(data, count, format, GL_UNSIGNED_SHORT_4_4_4_4, i, 3);
}

/// A 5-5-5-1 texel's word holds red, green and blue, five bits each,
/// from the top down, and a one-bit alpha at the bottom: set is opaque,
/// clear is transparent.
pub proof fn lemma_5551_channels(data: Seq<u8>, count: nat, format: u32, i: int)
    requires
        0 <= i < count,
        2 * count <= data.len(),
    ensures
        ({
            let w = packed_word(data, i);
            let d = decoded(data, count, format, GL_UNSIGNED_SHORT_5_5_5_1);
            &&& d[4 * i] == stretched(w / 2048, 5)
            &&& d[4 * i + 1] == stretched((w / 64) % 32, 5)
            &&& d[4 * i + 2] == stretched((w / 2) % 32, 5)
            &&& d[4 * i + 3] == if w % 2 == 1 {
                255int
            } else {
                0int
            }
        }),
{
    lemma_packed_word(data, i);
    lemma_fields(word_at(data, i));
    lemma_decoded_at(data, count, format, GL_UNSIGNED_SHORT_5_5_5_1, i, 0);
    lemma_decoded_at(data, count, format, GL_UNSIGNED_SHORT_5_5_5_1, i, 1);
    lemma_decoded_at(data, count, format, GL_UNSIGNED_SHORT_5_5_5_1, i, 2);
    lemma_decoded_at(data, count, format, GL_UNSIGNED_SHORT_5_5_5_1, i, 3);
}

/// Unpacked uploads keep the guest's bytes: RGBA as it is, RGB with an
/// opaque alpha, luminance copied to all three colours (with its alpha
/// byte, or opaque), and alpha alone under white.
pub proof fn lemma_byte_texels(data: Seq<u8>, count: nat, format: u32, i: int)
    requires
        0 <= i < count,
    ensures
        ({
            let d = decoded(data, count, format, GL_UNSIGNED_BYTE);
            &&& format == GL_RGBA ==> d[4 * i] == data[4 * i] && d[4 * i + 1] == data[4 * i + 1]
                && d[4 * i + 2] == data[4 * i + 2] && d[4 * i + 3] == data[4 * i + 3]
            &&& format == GL_RGB ==> d[4 * i] == data[3 * i] && d[4 * i + 1] == data[3 * i + 1]
                && d[4 * i + 2] == data[3 * i + 2] && d[4 * i + 3] == 255
            &&& format == GL_LUMINANCE ==> d[4 * i] == data[i] && d[4 * i + 1] == data[i] && d[4
                * i + 2] == data[i] && d[4 * i + 3] == 255
            &&& format == GL_LUMINANCE_ALPHA ==> d[4 * i] == data[2 * i] && d[4 * i + 1] == data[2
                * i] && d[4 * i + 2] == data[2 * i] && d[4 * i + 3] == data[2 * i + 1]
            &&& format == GL_ALPHA ==> d[4 * i] == 255 && d[4 * i + 1] == 255 && d[4 * i + 2]
                == 255 && d[4 * i + 3] == data[i]
        }),
{
    lemma_decoded_at(data, count, format, GL_UNSIGNED_BYTE, i, 0);
    lemma_decoded_at(data, count, format, GL_UNSIGNED_BYTE, i, 1);
    lemma_decoded_at(data, count, format, GL_UNSIGNED_BYTE, i, 2);
    lemma_decoded_at(data, count, format, GL_UNSIGNED_BYTE, i, 3);
}

/// A texture parameter changes its own setting and nothing else: not
/// the texels, not the size, not the other settings. The wrap modes
/// take `GL_REPEAT` and `GL_CLAMP_TO_EDGE`; the magnification filter
/// `GL_NEAREST` and `GL_LINEAR`; the minification filter those and the
/// four mipmap modes, each standing for its base filter. Anything else,
/// and any other parameter, is refused.
pub proof fn lemma_parameters_set_their_own_setting(t: Texture, pname: u32, value: u32)
    ensures
        with_parameter(t, pname, value) matches Some(u) ==> (u.width == t.width && u.height
            == t.height && u.rgba == t.rgba),
        pname == GL_TEXTURE_WRAP_S ==> with_parameter(t, pname, value) == if value == GL_REPEAT {
            Some(Texture { wrap_s: Wrap::Repeat, ..t })
        } else if value == GL_CLAMP_TO_EDGE {
            Some(Texture { wrap_s: Wrap::ClampToEdge, ..t })
        } else {
            None
        },
        pname == GL_TEXTURE_WRAP_T ==> with_parameter(t, pname, value) == if value == GL_REPEAT {
            Some(Texture { wrap_t: Wrap::Repeat, ..t })
        } else if value == GL_CLAMP_TO_EDGE {
            Some(Texture { wrap_t: Wrap::ClampToEdge, ..t })
        } else {
            None
        },
        pname == GL_TEXTURE_MAG_FILTER ==> with_parameter(t, pname, value) == if value
            == GL_NEAREST {
            Some(Texture { mag_filter: Filter::Nearest, ..t })
        } else if value == GL_LINEAR {
            Some(Texture { mag_filter: Filter::Linear, ..t })
        } else {
            None
        },
        pname == GL_TEXTURE_MIN_FILTER ==> with_parameter(t, pname, value) == if value
            == GL_NEAREST || value == GL_NEAREST_MIPMAP_NEAREST || value
            == GL_NEAREST_MIPMAP_LINEAR {
            Some(Texture { min_filter: Filter::Nearest, ..t })
        } else if value == GL_LINEAR || value == GL_LINEAR_MIPMAP_NEAREST || value
            == GL_LINEAR_MIPMAP_LINEAR {
            Some(Texture { min_filter: Filter::Linear, ..t })
        } else {
            None
        },
        (pname != GL_TEXTURE_WRAP_S && pname != GL_TEXTURE_WRAP_T && pname != GL_TEXTURE_MAG_FILTER
            && pname != GL_TEXTURE_MIN_FILTER) ==> with_parameter(t, pname, value) is None,
{
}

/// Along an axis of `size` texels: a cell inside the texture is its own
/// texel in both modes; `Repeat` goes round every `size` cells, so a
/// cell just before the first counts back from the far edge; and
/// `ClampToEdge` holds cells before the first to the first texel and
/// cells past the last to the last.
pub proof fn lemma_wrap_modes(cell: int, size: nat)
    requires
        size > 0,
    ensures
        0 <= cell < size ==> wrapped(cell, size, Wrap::Repeat) == cell && wrapped(
            cell,
            size,
            Wrap::ClampToEdge,
        ) == cell,
        wrapped(cell + size, size, Wrap::Repeat) == wrapped(cell, size, Wrap::Repeat),
        -size <= cell < 0 ==> wrapped(cell, size, Wrap::Repeat) == cell + size,
        cell < 0 ==> wrapped(cell, size, Wrap::ClampToEdge) == 0,
        cell >= size ==> wrapped(cell, size, Wrap::ClampToEdge) == size - 1,
{
    let m = size as int;
    vstd::arithmetic::div_mod::lemma_mod_add_multiples_vanish(cell, m);
    if 0 <= cell < size {
        vstd::arithmetic::div_mod::lemma_small_mod(cell as nat, size);
    }
    if -size <= cell < 0 {
        vstd::arithmetic::div_mod::lemma_small_mod((cell + m) as nat, size);
    }
}

} // verus!
