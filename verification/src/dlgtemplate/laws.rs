//! Where a template's fields sit in the blob.
use vstd::prelude::*;

use super::{
    align4, item_at, items_at, le16, le32, read16, sz_at, sz_or_ord_at, template_of, font_end,
    DS_SETFONT,
};

verus! {

/// A little-endian word is its low byte plus 256 times its high byte.
proof fn lemma_le16_bytes(b: Seq<u8>, p: int)
    ensures
        le16(b, p) == b[p] + 256 * b[p + 1],
{
    let lo = b[p];
    let hi = b[p + 1];
    assert((lo as u16 | ((hi as u16) << 8u16)) as u16 == lo + 256 * hi) by (bit_vector);
}

/// A little-endian double word, byte by byte.
proof fn lemma_le32_bytes(b: Seq<u8>, p: int)
    ensures
        le32(b, p) == b[p] + 256 * b[p + 1] + 65536 * b[p + 2] + 16777216 * b[p + 3],
{
    let b0 = b[p];
    let b1 = b[p + 1];
    let b2 = b[p + 2];
    let b3 = b[p + 3];
    assert((b0 as u32 | ((b1 as u32) << 8u32) | ((b2 as u32) << 16u32) | ((b3 as u32)
        << 24u32)) as u32 == b0 + 256 * b1 + 65536 * b2 + 16777216 * b3) by (bit_vector);
}

/// `n` items read from a blob are `n` items.
proof fn lemma_items_len(b: Seq<u8>, p: int, n: nat)
    ensures
        items_at(b, p, n) matches Some(items) ==> items.len() == n,
    decreases n,
{
    if n > 0 {
        match item_at(b, p) {
            Some((_, q)) => lemma_items_len(b, q, (n - 1) as nat),
            None => {},
        }
    }
}

/// The fixed `DLGTEMPLATE` header comes first: style, extended style,
/// item count, then position and size, all little-endian. A template
/// has as many items as its count says, from one to 255, and a buffer
/// shorter than the header, a count of zero or over 255, or a
/// `DLGTEMPLATEEX` signature is no template.
pub proof fn lemma_header_comes_first(b: Seq<u8>)
    ensures
        b.len() < 18 ==> template_of(b) is None,
        b.len() >= 18 && b[8] + 256 * b[9] == 0 ==> template_of(b) is None,
        b.len() >= 18 && b[8] + 256 * b[9] > 255 ==> template_of(b) is None,
        b.len() >= 18 && b[0] == 1 && b[1] == 0 && b[2] == 0xFF && b[3] == 0xFF ==> template_of(
            b,
        ) is None,
        template_of(b) matches Some(t) ==> {
            &&& t.style == b[0] + 256 * b[1] + 65536 * b[2] + 16777216 * b[3]
            &&& t.ex_style == b[4] + 256 * b[5] + 65536 * b[6] + 16777216 * b[7]
            &&& t.items.len() == b[8] + 256 * b[9]
            &&& 1 <= t.items.len() <= 255
            &&& t.x as u16 == b[10] + 256 * b[11]
            &&& t.y as u16 == b[12] + 256 * b[13]
            &&& t.cx as u16 == b[14] + 256 * b[15]
            &&& t.cy as u16 == b[16] + 256 * b[17]
        },
{
    if b.len() >= 18 {
        lemma_le32_bytes(b, 0);
        lemma_le32_bytes(b, 4);
        lemma_le16_bytes(b, 8);
        lemma_le16_bytes(b, 10);
        lemma_le16_bytes(b, 12);
        lemma_le16_bytes(b, 14);
        lemma_le16_bytes(b, 16);
        let style = le32(b, 0);
        let (b0, b1, b2, b3) = (b[0], b[1], b[2], b[3]);
        assert(style & 0xFFFF == (b0 + 256 * b1) && style >> 16u32 == (b2 + 256 * b3))
            by (bit_vector)
            requires
                style == b0 + 256 * b1 + 65536 * b2 + 16777216 * b3,
        ;
        let x = le16(b, 10);
        let y = le16(b, 12);
        let cx = le16(b, 14);
        let cy = le16(b, 16);
        assert((x as i16) as u16 == x && (y as i16) as u16 == y && (cx as i16) as u16 == cx
            && (cy as i16) as u16 == cy) by (bit_vector);
        match template_of(b) {
            Some(t) => {
                let f1 = sz_or_ord_at(b, 18)->0;
                let f2 = sz_or_ord_at(b, f1.1)->0;
                let f3 = sz_at(b, f2.1)->0;
                let p4 = font_end(b, style, f3.1)->0;
                lemma_items_len(b, p4, le16(b, 8) as nat);
            },
            None => {},
        }
    }
}

/// With no menu, class or title (three zero words after the header) and
/// no font, the first item starts at offset 24, already on a 4-byte
/// boundary: its style, extended style, position, size and id are the
/// words there, in that order, and the dialog's title is empty.
pub proof fn lemma_first_item_follows_a_bare_header(b: Seq<u8>)
    requires
        b.len() >= 24,
        forall|i: int| 18 <= i < 24 ==> b[i] == 0,
        template_of(b) is Some,
        le32(b, 0) & DS_SETFONT == 0,
    ensures
        template_of(b) matches Some(t) && {
            let it = t.items[0];
            &&& t.title.len() == 0
            &&& it.style == b[24] + 256 * b[25] + 65536 * b[26] + 16777216 * b[27]
            &&& it.ex_style == b[28] + 256 * b[29] + 65536 * b[30] + 16777216 * b[31]
            &&& it.x as u16 == b[32] + 256 * b[33]
            &&& it.y as u16 == b[34] + 256 * b[35]
            &&& it.cx as u16 == b[36] + 256 * b[37]
            &&& it.cy as u16 == b[38] + 256 * b[39]
            &&& it.id == b[40] + 256 * b[41]
        },
{
    lemma_le16_bytes(b, 18);
    lemma_le16_bytes(b, 20);
    lemma_le16_bytes(b, 22);
    assert(read16(b, 18) == Some(0u16));
    assert(read16(b, 20) == Some(0u16));
    assert(read16(b, 22) == Some(0u16));
    assert(sz_or_ord_at(b, 18) == Some((None::<super::ClassView>, 20int)));
    assert(sz_or_ord_at(b, 20) == Some((None::<super::ClassView>, 22int)));
    assert(sz_at(b, 22) == Some((Seq::<char>::empty(), 24int)));
    assert(font_end(b, le32(b, 0), 24) == Some(24int));
    assert(align4(24) == 24);
    lemma_le16_bytes(b, 8);
    let cdit = le16(b, 8);
    assert(items_at(b, 24, cdit as nat) is Some);
    assert(item_at(b, 24) is Some);
    lemma_le32_bytes(b, 24);
    lemma_le32_bytes(b, 28);
    lemma_le16_bytes(b, 32);
    lemma_le16_bytes(b, 34);
    lemma_le16_bytes(b, 36);
    lemma_le16_bytes(b, 38);
    lemma_le16_bytes(b, 40);
    let x = le16(b, 32);
    let y = le16(b, 34);
    let cx = le16(b, 36);
    let cy = le16(b, 38);
    assert((x as i16) as u16 == x && (y as i16) as u16 == y && (cx as i16) as u16 == cx
        && (cy as i16) as u16 == cy) by (bit_vector);
}

} // verus!
