//! Texture objects and pixel-format conversion.
//!
//! OpenGL ES 1.1 accepts textures in five base formats crossed with
//! three packed 16-bit types. Everything is decoded to straight RGBA8888
//! at upload time so the rasterizer has a single format to sample.
use vstd::prelude::*;

pub mod laws;

use crate::gl::{
    GL_ALPHA, GL_CLAMP_TO_EDGE, GL_LINEAR, GL_LINEAR_MIPMAP_LINEAR, GL_LINEAR_MIPMAP_NEAREST, GL_LUMINANCE, GL_LUMINANCE_ALPHA, GL_NEAREST, GL_NEAREST_MIPMAP_LINEAR, GL_NEAREST_MIPMAP_NEAREST, GL_REPEAT, GL_RGB, GL_RGBA, GL_TEXTURE_MAG_FILTER, GL_TEXTURE_MIN_FILTER, GL_TEXTURE_WRAP_S, GL_TEXTURE_WRAP_T, GL_UNSIGNED_BYTE, GL_UNSIGNED_SHORT_4_4_4_4, GL_UNSIGNED_SHORT_5_5_5_1, GL_UNSIGNED_SHORT_5_6_5,
};

verus! {

/// Texture filtering mode.
#[derive(Debug, Clone, Copy, PartialEq, Eq, Structural)]
pub enum Filter {
    Nearest,
    Linear,
}

/// Texture coordinate wrap mode.
#[derive(Debug, Clone, Copy, PartialEq, Eq, Structural)]
pub enum Wrap {
    Repeat,
    ClampToEdge,
}

/// A single texture object, as created by `glGenTextures`.
#[derive(Debug, Clone)]
pub struct Texture {
    pub width: u32,
    pub height: u32,
    /// Decoded RGBA8888 texels, row-major, `width * height * 4` bytes.
    /// Empty until the first successful `glTexImage2D`.
    pub rgba: Vec<u8>,
    pub min_filter: Filter,
    pub mag_filter: Filter,
    pub wrap_s: Wrap,
    pub wrap_t: Wrap,
}

impl Default for Texture {
    /// GL defaults: min is mipmap-linear, mag is linear; the mipmap
    /// modes collapse to their base filter.
    fn default() -> (t: Self)
        ensures
            t.width == 0,
            t.height == 0,
            t.rgba@.len() == 0,
            t.min_filter == Filter::Linear,
            t.mag_filter == Filter::Linear,
            t.wrap_s == Wrap::Repeat,
            t.wrap_t == Wrap::Repeat,
    {
        Texture {
            width: 0,
            height: 0,
            rgba: Vec::new(),
            min_filter: Filter::Linear,
            mag_filter: Filter::Linear,
            wrap_s: Wrap::Repeat,
            wrap_t: Wrap::Repeat,
        }
    }
}

/// The filter a `GL_TEXTURE_MIN_FILTER` value selects, if it is one.
pub open spec fn min_filter_of(value: u32) -> Option<Filter> {
    if value == GL_NEAREST || value == GL_NEAREST_MIPMAP_NEAREST || value
        == GL_NEAREST_MIPMAP_LINEAR {
        Some(Filter::Nearest)
    } else if value == GL_LINEAR || value == GL_LINEAR_MIPMAP_NEAREST || value
        == GL_LINEAR_MIPMAP_LINEAR {
        Some(Filter::Linear)
    } else {
        None
    }
}

/// The filter a `GL_TEXTURE_MAG_FILTER` value selects, if it is one.
pub open spec fn mag_filter_of(value: u32) -> Option<Filter> {
    if value == GL_NEAREST {
        Some(Filter::Nearest)
    } else if value == GL_LINEAR {
        Some(Filter::Linear)
    } else {
        None
    }
}

/// The wrap mode a `GL_TEXTURE_WRAP_*` value selects, if it is one.
pub open spec fn wrap_of(value: u32) -> Option<Wrap> {
    if value == GL_REPEAT {
        Some(Wrap::Repeat)
    } else if value == GL_CLAMP_TO_EDGE {
        Some(Wrap::ClampToEdge)
    } else {
        None
    }
}

/// The texture after `glTexParameter(pname, value)`, or `None` when the
/// pair is not one we recognise.
pub open spec fn with_parameter(t: Texture, pname: u32, value: u32) -> Option<Texture> {
    if pname == GL_TEXTURE_MIN_FILTER {
        match min_filter_of(value) {
            Some(f) => Some(Texture { min_filter: f, ..t }),
            None => None,
        }
    } else if pname == GL_TEXTURE_MAG_FILTER {
        match mag_filter_of(value) {
            Some(f) => Some(Texture { mag_filter: f, ..t }),
            None => None,
        }
    } else if pname == GL_TEXTURE_WRAP_S {
        match wrap_of(value) {
            Some(w) => Some(Texture { wrap_s: w, ..t }),
            None => None,
        }
    } else if pname == GL_TEXTURE_WRAP_T {
        match wrap_of(value) {
            Some(w) => Some(Texture { wrap_t: w, ..t }),
            None => None,
        }
    } else {
        None
    }
}

/// The texel along an axis of `size` texels for the cell `cell`, the
/// floor of a coordinate times `size`: `Repeat` wraps it round (a
/// negative cell counts back from the far edge), `ClampToEdge` holds it
/// to the first and last texel.
pub open spec fn wrapped(cell: int, size: nat, wrap: Wrap) -> nat {
    if size == 0 {
        0
    } else {
        match wrap {
            Wrap::Repeat => (cell % (size as int)) as nat,
            Wrap::ClampToEdge => if cell < 0 {
                0
            } else if cell >= size {
                (size - 1) as nat
            } else {
                cell as nat
            },
        }
    }
}

/// Resolve a texel cell along one axis through the wrap mode.
pub fn wrap_cell(cell: i64, size: u32, wrap: Wrap) -> (r: u32)
    ensures
        r == wrapped(cell as int, size as nat, wrap),
        size > 0 ==> r < size,
{
    if size == 0 {
        return 0;
    }
    match wrap {
        Wrap::Repeat => {
            let s = size as u64;
            if cell >= 0 {
                let m = (cell as u64) % s;
                proof {
                    let c = cell as u64;
                    assert(c as int == (c / s) * s + c % s) by (nonlinear_arith)
                        requires
                            s > 0,
                    ;
                    vstd::arithmetic::div_mod::lemma_fundamental_div_mod_converse(
                        cell as int,
                        s as int,
                        (cell as u64 / s) as int,
                        m as int,
                    );
                }
                m as u32
            } else {
                let back = (-(cell + 1)) as u64;
                let m = s - 1 - back % s;
                proof {
                    let q = (back / s) as int;
                    let r = (back % s) as int;
                    assert(back as int == q * s + r) by (nonlinear_arith)
                        requires
                            s > 0,
                            q == back / s,
                            r == back % s,
                    ;
                    assert(cell as int == (-q - 1) * s + (s - 1 - r)) by (nonlinear_arith)
                        requires
                            back as int == -(cell + 1),
                            back as int == q * s + r,
                    ;
                    vstd::arithmetic::div_mod::lemma_fundamental_div_mod_converse(
                        cell as int,
                        s as int,
                        -q - 1,
                        s - 1 - r,
                    );
                }
                m as u32
            }
        },
        Wrap::ClampToEdge => {
            if cell < 0 {
                0
            } else if cell >= size as i64 {
                size - 1
            } else {
                cell as u32
            }
        },
    }
}

/// The four bytes of texel `(x, y)`.
pub open spec fn texel(t: Texture, x: nat, y: nat) -> Seq<u8> {
    let i = (y * t.width + x) * 4;
    t.rgba@.subrange(i as int, i + 4)
}

/// Can `t` be sampled: a size, and texels for all of it?
pub open spec fn complete(t: Texture) -> bool {
    t.width > 0 && t.height > 0 && t.rgba@.len() >= t.width * t.height * 4
}

impl Texture {
    /// Is this texture complete enough to sample?
    pub fn is_complete(&self) -> (r: bool)
        requires
            self.width * self.height * 4 <= u32::MAX,
        ensures
            r == (self.width > 0 && self.height > 0 && self.rgba@.len() >= self.width * self.height
                * 4),
    {
        assert(self.width * self.height <= u32::MAX) by (nonlinear_arith)
            requires
                self.width * self.height * 4 <= u32::MAX,
        ;
        self.width > 0 && self.height > 0 && self.rgba.len() >= (self.width * self.height
            * 4) as usize
    }

    /// Sample with nearest-neighbour filtering, at the texel cells
    /// `cs` and `ct` (the floors of the coordinates times the size):
    /// out-of-range cells are resolved through the wrap modes. An
    /// incomplete texture samples as opaque white, which makes
    /// `GL_MODULATE` a no-op and leaves the vertex colour visible
    /// instead of turning the surface black.
    pub fn sample_cell(&self, cs: i64, ct: i64) -> (r: [u8; 4])
        requires
            self.width * self.height * 4 <= u32::MAX,
        ensures
            complete(*self) ==> r@ == texel(
                *self,
                wrapped(cs as int, self.width as nat, self.wrap_s),
                wrapped(ct as int, self.height as nat, self.wrap_t),
            ),
            !complete(*self) ==> r@ == seq![255u8, 255u8, 255u8, 255u8],
    {
        if !self.is_complete() {
            let white: [u8; 4] = [255, 255, 255, 255];
            assert(white@ =~= seq![255u8, 255u8, 255u8, 255u8]);
            return white;
        }
        let x = wrap_cell(cs, self.width, self.wrap_s);
        let y = wrap_cell(ct, self.height, self.wrap_t);
        assert((y * self.width + x) * 4 + 4 <= self.width * self.height * 4) by (nonlinear_arith)
            requires
                x < self.width,
                y < self.height,
        ;
        let idx = ((y * self.width + x) * 4) as usize;
        let r: [u8; 4] = [self.rgba[idx], self.rgba[idx + 1], self.rgba[idx + 2], self.rgba[idx + 3]];
        assert(r@ =~= texel(*self, x as nat, y as nat));
        r
    }

    /// Apply a `glTexParameter*` value. Returns `false`, leaving the
    /// texture untouched, if the enumerant is not one we recognise,
    /// which the caller reports as `GL_INVALID_ENUM`.
    pub fn set_parameter(&mut self, pname: u32, value: u32) -> (ok: bool)
        ensures
            ok == with_parameter(*old(self), pname, value).is_some(),
            ok ==> *final(self) == with_parameter(*old(self), pname, value).unwrap(),
            !ok ==> *final(self) == *old(self),
    {
        if pname == GL_TEXTURE_MIN_FILTER {
            if value == GL_NEAREST || value == GL_NEAREST_MIPMAP_NEAREST || value
                == GL_NEAREST_MIPMAP_LINEAR {
                self.min_filter = Filter::Nearest;
            } else if value == GL_LINEAR || value == GL_LINEAR_MIPMAP_NEAREST || value
                == GL_LINEAR_MIPMAP_LINEAR {
                self.min_filter = Filter::Linear;
            } else {
                return false;
            }
            true
        } else if pname == GL_TEXTURE_MAG_FILTER {
            if value == GL_NEAREST {
                self.mag_filter = Filter::Nearest;
            } else if value == GL_LINEAR {
                self.mag_filter = Filter::Linear;
            } else {
                return false;
            }
            true
        } else if pname == GL_TEXTURE_WRAP_S {
            match wrap_from_enum(value) {
                Some(w) => {
                    self.wrap_s = w;
                    true
                },
                None => false,
            }
        } else if pname == GL_TEXTURE_WRAP_T {
            match wrap_from_enum(value) {
                Some(w) => {
                    self.wrap_t = w;
                    true
                },
                None => false,
            }
        } else {
            false
        }
    }
}

/// Map a `GL_REPEAT` / `GL_CLAMP_TO_EDGE` value to a wrap mode.
pub fn wrap_from_enum(value: u32) -> (r: Option<Wrap>)
    ensures
        r == wrap_of(value),
{
    if value == GL_REPEAT {
        Some(Wrap::Repeat)
    } else if value == GL_CLAMP_TO_EDGE {
        Some(Wrap::ClampToEdge)
    } else {
        None
    }
}

/// Bytes one texel of `format`/`ty` occupies in a guest buffer: two
/// for any packed 16-bit type, whatever the format; for bytes, one per
/// channel of the format.
pub open spec fn texel_size(format: u32, ty: u32) -> Option<usize> {
    if ty == GL_UNSIGNED_SHORT_5_6_5 || ty == GL_UNSIGNED_SHORT_4_4_4_4 || ty
        == GL_UNSIGNED_SHORT_5_5_5_1 {
        Some(2)
    } else if ty == GL_UNSIGNED_BYTE {
        if format == GL_ALPHA || format == GL_LUMINANCE {
            Some(1)
        } else if format == GL_LUMINANCE_ALPHA {
            Some(2)
        } else if format == GL_RGB {
            Some(3)
        } else if format == GL_RGBA {
            Some(4)
        } else {
            None
        }
    } else {
        None
    }
}

/// Number of bytes one texel occupies in the guest's buffer.
pub fn bytes_per_texel(format: u32, ty: u32) -> (r: Option<usize>)
    ensures
        r == texel_size(format, ty),
{
    if ty == GL_UNSIGNED_SHORT_5_6_5 || ty == GL_UNSIGNED_SHORT_4_4_4_4 || ty
        == GL_UNSIGNED_SHORT_5_5_5_1 {
        Some(2)
    } else if ty == GL_UNSIGNED_BYTE {
        if format == GL_ALPHA || format == GL_LUMINANCE {
            Some(1)
        } else if format == GL_LUMINANCE_ALPHA {
            Some(2)
        } else if format == GL_RGB {
            Some(3)
        } else if format == GL_RGBA {
            Some(4)
        } else {
            None
        }
    } else {
        None
    }
}

/// A 5-bit channel widened to 8 bits by replicating its high bits, so
/// that `0b11111` maps to `255` rather than `248`.
pub open spec fn widen5(v: u16) -> u8 {
    let c = (v & 0x1F) as u8;
    ((c << 3u8) | (c >> 2u8)) as u8
}

/// A 6-bit channel widened to 8 bits.
pub open spec fn widen6(v: u16) -> u8 {
    let c = (v & 0x3F) as u8;
    ((c << 2u8) | (c >> 4u8)) as u8
}

/// A 4-bit channel widened to 8 bits.
pub open spec fn widen4(v: u16) -> u8 {
    let c = (v & 0x0F) as u8;
    ((c << 4u8) | c) as u8
}

fn expand5(v: u16) -> (r: u8)
    ensures
        r == widen5(v),
{
    let c = (v & 0x1F) as u8;
    (c << 3u8) | (c >> 2u8)
}

fn expand6(v: u16) -> (r: u8)
    ensures
        r == widen6(v),
{
    let c = (v & 0x3F) as u8;
    (c << 2u8) | (c >> 4u8)
}

fn expand4(v: u16) -> (r: u8)
    ensures
        r == widen4(v),
{
    let c = (v & 0x0F) as u8;
    (c << 4u8) | c
}

/// The little-endian 16-bit word of texel `i` in a packed buffer.
pub open spec fn word_at(data: Seq<u8>, i: int) -> u16 {
    (data[2 * i] as u16 | ((data[2 * i + 1] as u16) << 8u16)) as u16
}

/// The four RGBA bytes texel `i` of `data` decodes to.
pub open spec fn texel_rgba(data: Seq<u8>, i: int, format: u32, ty: u32) -> Seq<u8> {
    if ty == GL_UNSIGNED_SHORT_5_6_5 {
        let p = word_at(data, i);
        seq![widen5((p >> 11u16) as u16), widen6((p >> 5u16) as u16), widen5(p), 255u8]
    } else if ty == GL_UNSIGNED_SHORT_4_4_4_4 {
        let p = word_at(data, i);
        seq![
            widen4((p >> 12u16) as u16),
            widen4((p >> 8u16) as u16),
            widen4((p >> 4u16) as u16),
            widen4(p),
        ]
    } else if ty == GL_UNSIGNED_SHORT_5_5_5_1 {
        let p = word_at(data, i);
        seq![
            widen5((p >> 11u16) as u16),
            widen5((p >> 6u16) as u16),
            widen5((p >> 1u16) as u16),
            if p & 1 != 0 { 255u8 } else { 0u8 },
        ]
    } else if format == GL_RGBA {
        seq![data[4 * i], data[4 * i + 1], data[4 * i + 2], data[4 * i + 3]]
    } else if format == GL_RGB {
        seq![data[3 * i], data[3 * i + 1], data[3 * i + 2], 255u8]
    } else if format == GL_LUMINANCE {
        seq![data[i], data[i], data[i], 255u8]
    } else if format == GL_LUMINANCE_ALPHA {
        seq![data[2 * i], data[2 * i], data[2 * i], data[2 * i + 1]]
    } else {
        seq![255u8, 255u8, 255u8, data[i]]
    }
}

/// The RGBA8888 image the first `count` texels of `data` decode to:
/// texel `i` fills bytes `4i .. 4i + 4`.
pub open spec fn decoded(data: Seq<u8>, count: nat, format: u32, ty: u32) -> Seq<u8> {
    Seq::new(count * 4, |j: int| texel_rgba(data, j / 4, format, ty)[j % 4])
}

proof fn lemma_decoded_step(data: Seq<u8>, i: nat, format: u32, ty: u32)
    ensures
        decoded(data, i + 1, format, ty) =~= decoded(data, i, format, ty) + texel_rgba(
            data,
            i as int,
            format,
            ty,
        ),
{
    let t = texel_rgba(data, i as int, format, ty);
    assert(t.len() == 4);
    assert forall|j: int| 4 * i <= j < 4 * i + 4 implies #[trigger] (j / 4) == i && j % 4 == j - 4
        * i by {}
}

fn word(data: &[u8], i: usize) -> (w: u16)
    requires
        2 * i + 1 < data@.len(),
    ensures
        w == word_at(data@, i as int),
{
    let n = data.len();
    assert(2 * i + 1 < n);
    let k = 2 * i;
    (data[k] as u16) | ((data[k + 1] as u16) << 8u16)
}

/// Is `format`/`ty` a pairing OpenGL ES 1.1 permits? The packed types
/// go with one format each — 5-6-5 with `GL_RGB`, 4-4-4-4 and 5-5-5-1
/// with `GL_RGBA` — and bytes with any of the five base formats.
pub open spec fn permitted(format: u32, ty: u32) -> bool {
    if ty == GL_UNSIGNED_SHORT_5_6_5 {
        format == GL_RGB
    } else if ty == GL_UNSIGNED_SHORT_4_4_4_4 || ty == GL_UNSIGNED_SHORT_5_5_5_1 {
        format == GL_RGBA
    } else {
        texel_size(format, ty).is_some()
    }
}

fn is_permitted(format: u32, ty: u32) -> (r: bool)
    ensures
        r == permitted(format, ty),
{
    if ty == GL_UNSIGNED_SHORT_5_6_5 {
        format == GL_RGB
    } else if ty == GL_UNSIGNED_SHORT_4_4_4_4 || ty == GL_UNSIGNED_SHORT_5_5_5_1 {
        format == GL_RGBA
    } else {
        bytes_per_texel(format, ty).is_some()
    }
}

/// Decode a guest texel buffer into RGBA8888.
///
/// Returns `None` if the format/type combination is not one OpenGL ES
/// 1.1 permits (reported as `GL_INVALID_ENUM`), if the texel count or
/// byte count overflows `usize`, or if `data` is shorter than the image
/// it describes.
#[verifier::spinoff_prover]
pub fn decode_to_rgba(data: &[u8], width: u32, height: u32, format: u32, ty: u32) -> (r: Option<
    Vec<u8>,
>)
    ensures
        r.is_some() <==> (permitted(format, ty) && width * height <= usize::MAX
            && width * height * texel_size(format, ty).unwrap() <= usize::MAX && data@.len()
            >= width * height * texel_size(format, ty).unwrap()),
        r matches Some(out) ==> out@ == decoded(data@, (width * height) as nat, format, ty),
{
    if !is_permitted(format, ty) {
        return None;
    }
    let texel_bytes = match bytes_per_texel(format, ty) {
        Some(b) => b,
        None => return None,
    };
    let count = match (width as usize).checked_mul(height as usize) {
        Some(c) => c,
        None => return None,
    };
    let needed = match count.checked_mul(texel_bytes) {
        Some(n) => n,
        None => return None,
    };
    if data.len() < needed {
        return None;
    }
    assert(count * texel_bytes == needed);
    let mut out: Vec<u8> = Vec::new();
    let mut i: usize = 0;
    while i < count
        invariant
            0 <= i <= count,
            count == width * height,
            texel_size(format, ty) == Some(texel_bytes),
            needed == count * texel_bytes,
            data@.len() >= needed,
            out@ == decoded(data@, i as nat, format, ty),
        decreases count - i,
    {
        proof {
            lemma_decoded_step(data@, i as nat, format, ty);
            assert((i + 1) * texel_bytes <= count * texel_bytes) by (nonlinear_arith)
                requires
                    i + 1 <= count,
            ;
            assert((i + 1) * texel_bytes == i * texel_bytes + texel_bytes) by (nonlinear_arith);
        }
        if ty == GL_UNSIGNED_SHORT_5_6_5 {
            let p = word(data, i);
            out.push(expand5(p >> 11u16));
            out.push(expand6(p >> 5u16));
            out.push(expand5(p));
            out.push(255u8);
        } else if ty == GL_UNSIGNED_SHORT_4_4_4_4 {
            let p = word(data, i);
            out.push(expand4(p >> 12u16));
            out.push(expand4(p >> 8u16));
            out.push(expand4(p >> 4u16));
            out.push(expand4(p));
        } else if ty == GL_UNSIGNED_SHORT_5_5_5_1 {
            let p = word(data, i);
            let a: u8 = if p & 1 != 0 {
                255
            } else {
                0
            };
            out.push(expand5(p >> 11u16));
            out.push(expand5(p >> 6u16));
            out.push(expand5(p >> 1u16));
            out.push(a);
        } else if format == GL_RGBA {
            out.push(data[4 * i]);
            out.push(data[4 * i + 1]);
            out.push(data[4 * i + 2]);
            out.push(data[4 * i + 3]);
        } else if format == GL_RGB {
            let s = i * 3;
            out.push(data[s]);
            out.push(data[s + 1]);
            out.push(data[s + 2]);
            out.push(255u8);
        } else if format == GL_LUMINANCE {
            assert(texel_bytes == 1 && i < needed);
            let l = data[i];
            out.push(l);
            out.push(l);
            out.push(l);
            out.push(255u8);
        } else if format == GL_LUMINANCE_ALPHA {
            let l = data[i * 2];
            out.push(l);
            out.push(l);
            out.push(l);
            out.push(data[i * 2 + 1]);
        } else {
            assert(texel_bytes == 1 && i < needed);
            let a = data[i];
            out.push(255u8);
            out.push(255u8);
            out.push(255u8);
            out.push(a);
        }
        i = i + 1;
    }
    Some(out)
}

/// Every packed channel spans the whole 8-bit range: its smallest value
/// widens to 0 and its largest to 255, so a white 565 texel is white.
pub proof fn lemma_channels_reach_full_range()
    ensures
        widen5(0) == 0 && widen5(0x1F) == 255,
        widen6(0) == 0 && widen6(0x3F) == 255,
        widen4(0) == 0 && widen4(0x0F) == 255,
{
    assert(widen5(0) == 0 && widen5(0x1F) == 255) by (bit_vector);
    assert(widen6(0) == 0 && widen6(0x3F) == 255) by (bit_vector);
    assert(widen4(0) == 0 && widen4(0x0F) == 255) by (bit_vector);
}

/// A format without an alpha channel decodes opaque: every texel of an
/// RGB or luminance upload, and of a 5-6-5 one, gets alpha 255.
pub proof fn lemma_alphaless_formats_decode_opaque(data: Seq<u8>, count: nat, format: u32, ty: u32, j: int)
    requires
        ty == GL_UNSIGNED_SHORT_5_6_5 || (ty == GL_UNSIGNED_BYTE && (format == GL_RGB || format
            == GL_LUMINANCE)),
        0 <= j < count * 4,
        j % 4 == 3,
    ensures
        decoded(data, count, format, ty)[j] == 255,
{
}

} // verus!
