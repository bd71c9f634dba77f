//! The save-file format: a magic, a version, the payload's length, the
//! payload and its CRC-32, so that a torn or tampered write reads back
//! as an error instead of as a game state.
//!
//! This module frames and checks bytes; reading and writing the file
//! itself is the front end's business.
use vstd::prelude::*;

verus! {

/// Directory, under a game's folder, that holds its saves.
pub const SAVE_DIR_NAME: &'static str = "saves";

/// File name of a game's save.
pub const SAVE_FILE_NAME: &'static str = "save.dat";

/// Format version written into every save.
pub const VERSION: u32 = 1;

/// Largest payload a save may carry: 64 MiB.
pub const MAX_PAYLOAD: usize = 0x400_0000;

/// Bytes before the payload: magic, version and length.
pub const HEADER_LEN: usize = 20;

/// Why a save could not be written or read back.
#[derive(Debug, Clone, Copy, PartialEq, Eq, Structural)]
pub enum SaveError {
    /// The payload is over `MAX_PAYLOAD`; nothing is written.
    PayloadTooLarge,
    /// Too short for a header, or the magic is wrong.
    InvalidHeader,
    /// A version this build does not read.
    UnsupportedVersion,
    /// The recorded length is over the limit or disagrees with the file.
    InvalidLength,
    /// The payload does not match its checksum.
    ChecksumMismatch,
}

impl SaveError {
    /// A short description of the error.
    pub fn message(&self) -> (s: &'static str)
        ensures
            s@ == match *self {
                SaveError::PayloadTooLarge => "save payload is too large"@,
                SaveError::InvalidHeader => "invalid save header"@,
                SaveError::UnsupportedVersion => "unsupported save version"@,
                SaveError::InvalidLength => "invalid save length"@,
                SaveError::ChecksumMismatch => "save checksum mismatch"@,
            },
    {
        let s = match self {
            SaveError::PayloadTooLarge => "save payload is too large",
            SaveError::InvalidHeader => "invalid save header",
            SaveError::UnsupportedVersion => "unsupported save version",
            SaveError::InvalidLength => "invalid save length",
            SaveError::ChecksumMismatch => "save checksum mismatch",
        };
        s
    }
}

/// The magic, `PHSAVE01`.
pub open spec fn magic() -> Seq<u8> {
    seq![0x50u8, 0x48u8, 0x53u8, 0x41u8, 0x56u8, 0x45u8, 0x30u8, 0x31u8]
}

/// `v` as four little-endian bytes.
pub open spec fn le32_bytes(v: u32) -> Seq<u8> {
    seq![
        (v & 0xff) as u8,
        ((v >> 8u32) & 0xff) as u8,
        ((v >> 16u32) & 0xff) as u8,
        ((v >> 24u32) & 0xff) as u8,
    ]
}

/// `v` as eight little-endian bytes.
pub open spec fn le64_bytes(v: u64) -> Seq<u8> {
    seq![
        (v & 0xff) as u8,
        ((v >> 8u64) & 0xff) as u8,
        ((v >> 16u64) & 0xff) as u8,
        ((v >> 24u64) & 0xff) as u8,
        ((v >> 32u64) & 0xff) as u8,
        ((v >> 40u64) & 0xff) as u8,
        ((v >> 48u64) & 0xff) as u8,
        ((v >> 56u64) & 0xff) as u8,
    ]
}

/// The little-endian 32-bit word at `p`.
pub open spec fn le32_at(b: Seq<u8>, p: int) -> u32 {
    (b[p] as u32 | (b[p + 1] as u32) << 8u32 | (b[p + 2] as u32) << 16u32 | (b[p + 3] as u32)
        << 24u32) as u32
}

/// The little-endian 64-bit word at `p`.
pub open spec fn le64_at(b: Seq<u8>, p: int) -> u64 {
    (b[p] as u64 | (b[p + 1] as u64) << 8u64 | (b[p + 2] as u64) << 16u64 | (b[p + 3] as u64)
        << 24u64 | (b[p + 4] as u64) << 32u64 | (b[p + 5] as u64) << 40u64 | (b[p + 6] as u64)
        << 48u64 | (b[p + 7] as u64) << 56u64) as u64
}

/// One step of the reflected CRC-32 (polynomial `0xEDB88320`).
pub open spec fn crc_bit(c: u32) -> u32 {
    if c & 1 == 1 {
        (c >> 1u32) ^ 0xedb8_8320
    } else {
        c >> 1u32
    }
}

/// `n` steps of `crc_bit`.
pub open spec fn crc_bits(c: u32, n: nat) -> u32
    decreases n,
{
    if n == 0 {
        c
    } else {
        crc_bits(crc_bit(c), (n - 1) as nat)
    }
}

/// The running CRC register after `s`, starting from all ones.
pub open spec fn crc_register(s: Seq<u8>) -> u32
    decreases s.len(),
{
    if s.len() == 0 {
        0xffff_ffff
    } else {
        crc_bits(crc_register(s.drop_last()) ^ (s.last() as u32), 8)
    }
}

/// The CRC-32 of `s` (IEEE 802.3, as zlib and PNG compute it).
pub open spec fn crc32_of(s: Seq<u8>) -> u32 {
    !crc_register(s)
}

/// The save file that carries `p`.
pub open spec fn frame(p: Seq<u8>) -> Seq<u8> {
    magic() + le32_bytes(VERSION) + le64_bytes(p.len() as u64) + p + le32_bytes(crc32_of(p))
}

/// What reading the save file `b` gives: its payload, or the first
/// check it fails.
pub open spec fn decoded(b: Seq<u8>) -> Result<Seq<u8>, SaveError> {
    if b.len() < HEADER_LEN || b.take(8) != magic() {
        Err(SaveError::InvalidHeader)
    } else if le32_at(b, 8) != VERSION {
        Err(SaveError::UnsupportedVersion)
    } else {
        let n = le64_at(b, 12);
        if n > MAX_PAYLOAD || HEADER_LEN + n + 4 != b.len() {
            Err(SaveError::InvalidLength)
        } else {
            let p = b.subrange(HEADER_LEN as int, HEADER_LEN + n);
            if crc32_of(p) != le32_at(b, HEADER_LEN + n) {
                Err(SaveError::ChecksumMismatch)
            } else {
                Ok(p)
            }
        }
    }
}

proof fn lemma_le32_round_trip(v: u32)
    ensures
        le32_at(le32_bytes(v), 0) == v,
{
    let b0 = (v & 0xff) as u8;
    let b1 = ((v >> 8u32) & 0xff) as u8;
    let b2 = ((v >> 16u32) & 0xff) as u8;
    let b3 = ((v >> 24u32) & 0xff) as u8;
    assert((b0 as u32 | (b1 as u32) << 8u32 | (b2 as u32) << 16u32 | (b3 as u32) << 24u32) == v)
        by (bit_vector)
        requires
            b0 == (v & 0xff) as u8,
            b1 == ((v >> 8u32) & 0xff) as u8,
            b2 == ((v >> 16u32) & 0xff) as u8,
            b3 == ((v >> 24u32) & 0xff) as u8,
    ;
}

proof fn lemma_le64_round_trip(v: u64)
    ensures
        le64_at(le64_bytes(v), 0) == v,
{
    let b = le64_bytes(v);
    let b0 = b[0];
    let b1 = b[1];
    let b2 = b[2];
    let b3 = b[3];
    let b4 = b[4];
    let b5 = b[5];
    let b6 = b[6];
    let b7 = b[7];
    assert((b0 as u64 | (b1 as u64) << 8u64 | (b2 as u64) << 16u64 | (b3 as u64) << 24u64 | (
    b4 as u64) << 32u64 | (b5 as u64) << 40u64 | (b6 as u64) << 48u64 | (b7 as u64) << 56u64)
        == v) by (bit_vector)
        requires
            b0 == (v & 0xff) as u8,
            b1 == ((v >> 8u64) & 0xff) as u8,
            b2 == ((v >> 16u64) & 0xff) as u8,
            b3 == ((v >> 24u64) & 0xff) as u8,
            b4 == ((v >> 32u64) & 0xff) as u8,
            b5 == ((v >> 40u64) & 0xff) as u8,
            b6 == ((v >> 48u64) & 0xff) as u8,
            b7 == ((v >> 56u64) & 0xff) as u8,
    ;
}

proof fn lemma_le32_bytes_of_word(b: Seq<u8>, p: int)
    requires
        0 <= p,
        p + 4 <= b.len(),
    ensures
        le32_bytes(le32_at(b, p)) == b.subrange(p, p + 4),
{
    let b0 = b[p];
    let b1 = b[p + 1];
    let b2 = b[p + 2];
    let b3 = b[p + 3];
    let v = le32_at(b, p);
    assert((v & 0xff) as u8 == b0 && ((v >> 8u32) & 0xff) as u8 == b1 && ((v >> 16u32)
        & 0xff) as u8 == b2 && ((v >> 24u32) & 0xff) as u8 == b3) by (bit_vector)
        requires
            v == (b0 as u32 | (b1 as u32) << 8u32 | (b2 as u32) << 16u32 | (b3 as u32) << 24u32),
    ;
    assert(le32_bytes(v) =~= b.subrange(p, p + 4));
}

proof fn lemma_le64_bytes_of_word(b: Seq<u8>, p: int)
    requires
        0 <= p,
        p + 8 <= b.len(),
    ensures
        le64_bytes(le64_at(b, p)) == b.subrange(p, p + 8),
{
    let b0 = b[p];
    let b1 = b[p + 1];
    let b2 = b[p + 2];
    let b3 = b[p + 3];
    let b4 = b[p + 4];
    let b5 = b[p + 5];
    let b6 = b[p + 6];
    let b7 = b[p + 7];
    let v = le64_at(b, p);
    assert((v & 0xff) as u8 == b0 && ((v >> 8u64) & 0xff) as u8 == b1 && ((v >> 16u64)
        & 0xff) as u8 == b2 && ((v >> 24u64) & 0xff) as u8 == b3 && ((v >> 32u64) & 0xff) as u8
        == b4 && ((v >> 40u64) & 0xff) as u8 == b5 && ((v >> 48u64) & 0xff) as u8 == b6 && ((v
        >> 56u64) & 0xff) as u8 == b7) by (bit_vector)
        requires
            v == (b0 as u64 | (b1 as u64) << 8u64 | (b2 as u64) << 16u64 | (b3 as u64) << 24u64
                | (b4 as u64) << 32u64 | (b5 as u64) << 40u64 | (b6 as u64) << 48u64 | (b7 as u64)
                << 56u64),
    ;
    assert(le64_bytes(v) =~= b.subrange(p, p + 8));
}

/// The byte layout of a frame: where each field of `frame(p)` sits.
proof fn lemma_frame_layout(p: Seq<u8>)
    ensures
        frame(p).len() == HEADER_LEN + p.len() + 4,
        frame(p).take(8) == magic(),
        frame(p).subrange(8, 12) == le32_bytes(VERSION),
        frame(p).subrange(12, 20) == le64_bytes(p.len() as u64),
        frame(p).subrange(HEADER_LEN as int, HEADER_LEN + p.len()) == p,
        frame(p).subrange(HEADER_LEN + p.len(), HEADER_LEN + p.len() + 4) == le32_bytes(
            crc32_of(p),
        ),
{
    let f = frame(p);
    assert(f.take(8) =~= magic());
    assert(f.subrange(8, 12) =~= le32_bytes(VERSION));
    assert(f.subrange(12, 20) =~= le64_bytes(p.len() as u64));
    assert(f.subrange(HEADER_LEN as int, HEADER_LEN + p.len()) =~= p);
    assert(f.subrange(HEADER_LEN + p.len(), HEADER_LEN + p.len() + 4) =~= le32_bytes(
        crc32_of(p),
    ));
}

/// The little-endian word read from a four-byte field is the word the
/// field was written from.
proof fn lemma_read_back32(b: Seq<u8>, p: int, v: u32)
    requires
        0 <= p,
        p + 4 <= b.len(),
        b.subrange(p, p + 4) == le32_bytes(v),
    ensures
        le32_at(b, p) == v,
{
    lemma_le32_round_trip(v);
    let f = le32_bytes(v);
    assert(b[p] == f[0] && b[p + 1] == f[1] && b[p + 2] == f[2] && b[p + 3] == f[3]) by {
        assert(b.subrange(p, p + 4)[0] == b[p]);
        assert(b.subrange(p, p + 4)[1] == b[p + 1]);
        assert(b.subrange(p, p + 4)[2] == b[p + 2]);
        assert(b.subrange(p, p + 4)[3] == b[p + 3]);
    }
}

/// The little-endian word read from an eight-byte field is the word the
/// field was written from.
proof fn lemma_read_back64(b: Seq<u8>, p: int, v: u64)
    requires
        0 <= p,
        p + 8 <= b.len(),
        b.subrange(p, p + 8) == le64_bytes(v),
    ensures
        le64_at(b, p) == v,
{
    lemma_le64_round_trip(v);
    let f = le64_bytes(v);
    assert forall|k: int| 0 <= k < 8 implies b[p + k] == f[k] by {
        assert(b.subrange(p, p + 8)[k] == b[p + k]);
    }
}

/// Four little-endian bytes of `v` weigh back to `v`.
proof fn lemma_le32_bytes_weigh(v: u32)
    ensures
        ({
            let f = le32_bytes(v);
            f[0] + 256 * f[1] + 65536 * f[2] + 16777216 * f[3] == v
        }),
{
    assert((v & 0xff) as u8 + 256 * ((v >> 8u32) & 0xff) as u8 + 65536 * ((v >> 16u32) & 0xff) as u8
        + 16777216 * ((v >> 24u32) & 0xff) as u8 == v) by (bit_vector);
}

/// Eight little-endian bytes of `v` weigh back to `v`.
proof fn lemma_le64_bytes_weigh(v: u64)
    ensures
        ({
            let f = le64_bytes(v);
            f[0] + 0x100 * f[1] + 0x1_0000 * f[2] + 0x100_0000 * f[3] + 0x1_0000_0000 * f[4]
                + 0x100_0000_0000 * f[5] + 0x1_0000_0000_0000 * f[6] + 0x100_0000_0000_0000 * f[7]
                == v
        }),
{
    assert((v & 0xff) as u8 + 0x100 * ((v >> 8u64) & 0xff) as u8 + 0x1_0000 * ((v >> 16u64) & 0xff) as u8
        + 0x100_0000 * ((v >> 24u64) & 0xff) as u8 + 0x1_0000_0000 * ((v >> 32u64) & 0xff) as u8
        + 0x100_0000_0000 * ((v >> 40u64) & 0xff) as u8 + 0x1_0000_0000_0000 * ((v >> 48u64)
        & 0xff) as u8 + 0x100_0000_0000_0000 * ((v >> 56u64) & 0xff) as u8 == v) by (bit_vector);
}

/// A save file is, in order: the eight bytes `PHSAVE01`; the format
/// version, 1, as a little-endian 32-bit word; the payload's length as
/// a little-endian 64-bit word; the payload; and the payload's CRC-32 as
/// a little-endian 32-bit word.
pub proof fn lemma_save_file_layout(p: Seq<u8>)
    requires
        p.len() <= MAX_PAYLOAD,
    ensures
        ({
            let f = frame(p);
            let n = p.len() as int;
            &&& f.len() == n + 24
            &&& f.take(8) == seq![0x50u8, 0x48u8, 0x53u8, 0x41u8, 0x56u8, 0x45u8, 0x30u8, 0x31u8]
            &&& f[8] == 1 && f[9] == 0 && f[10] == 0 && f[11] == 0
            &&& f[12] + 0x100 * f[13] + 0x1_0000 * f[14] + 0x100_0000 * f[15] + 0x1_0000_0000
                * f[16] + 0x100_0000_0000 * f[17] + 0x1_0000_0000_0000 * f[18]
                + 0x100_0000_0000_0000 * f[19] == n
            &&& f.subrange(20, 20 + n) == p
            &&& f[20 + n] + 256 * f[21 + n] + 65536 * f[22 + n] + 16777216 * f[23 + n] == crc32_of(p)
        }),
{
    let f = frame(p);
    let n = p.len() as int;
    lemma_frame_layout(p);
    lemma_le64_bytes_weigh(n as u64);
    lemma_le32_bytes_weigh(crc32_of(p));
    let v = le32_bytes(VERSION);
    lemma_le32_bytes_weigh(VERSION);
    assert(v[0] == 1 && v[1] == 0 && v[2] == 0 && v[3] == 0);
    assert forall|k: int| 0 <= k < 4 implies f[8 + k] == v[k] by {
        assert(f.subrange(8, 12)[k] == f[8 + k]);
    }
    let w = le64_bytes(n as u64);
    assert forall|k: int| 0 <= k < 8 implies f[12 + k] == w[k] by {
        assert(f.subrange(12, 20)[k] == f[12 + k]);
    }
    let c = le32_bytes(crc32_of(p));
    assert forall|k: int| 0 <= k < 4 implies f[20 + n + k] == c[k] by {
        assert(f.subrange(20 + n, 24 + n)[k] == f[20 + n + k]);
    }
    assert(f[12] == w[0] && f[13] == w[1] && f[14] == w[2] && f[15] == w[3] && f[16] == w[4]
        && f[17] == w[5] && f[18] == w[6] && f[19] == w[7]);
    assert(f[20 + n] == c[0] && f[21 + n] == c[1] && f[22 + n] == c[2] && f[23 + n] == c[3]);
}

/// Reading back a save gives exactly the payload that was written.
pub proof fn lemma_decode_of_frame(p: Seq<u8>)
    requires
        p.len() <= MAX_PAYLOAD,
    ensures
        decoded(frame(p)) == Ok::<Seq<u8>, SaveError>(p),
{
    let f = frame(p);
    lemma_frame_layout(p);
    lemma_read_back32(f, 8, VERSION);
    lemma_read_back64(f, 12, p.len() as u64);
    lemma_read_back32(f, HEADER_LEN + p.len(), crc32_of(p));
}

/// A save file is only ever accepted whole: whatever reads back as a
/// payload is, byte for byte, the file that payload is written as.
pub proof fn lemma_accepted_files_are_frames(b: Seq<u8>)
    requires
        decoded(b) is Ok,
    ensures
        b == frame(decoded(b)->Ok_0),
{
    let n = le64_at(b, 12);
    let p = decoded(b)->Ok_0;
    assert(p == b.subrange(HEADER_LEN as int, HEADER_LEN + n));
    lemma_le32_bytes_of_word(b, 8);
    lemma_le64_bytes_of_word(b, 12);
    lemma_le32_bytes_of_word(b, HEADER_LEN + n);
    assert(p.len() == n);
    let f = frame(p);
    lemma_frame_layout(p);
    assert(b =~= b.take(8) + b.subrange(8, 12) + b.subrange(12, 20) + b.subrange(
        HEADER_LEN as int,
        HEADER_LEN + n,
    ) + b.subrange(HEADER_LEN + n, HEADER_LEN + n + 4));
    assert(f =~= f.take(8) + f.subrange(8, 12) + f.subrange(12, 20) + f.subrange(
        HEADER_LEN as int,
        HEADER_LEN + n,
    ) + f.subrange(HEADER_LEN + n, HEADER_LEN + n + 4));
}

/// Any change to the stored checksum of a save is caught as a
/// checksum mismatch.
pub proof fn lemma_checksum_tampering_is_detected(p: Seq<u8>, i: int, v: u8)
    requires
        p.len() <= MAX_PAYLOAD,
        HEADER_LEN + p.len() <= i < frame(p).len(),
        v != frame(p)[i],
    ensures
        decoded(frame(p).update(i, v)) == Err::<Seq<u8>, SaveError>(SaveError::ChecksumMismatch),
{
    let f = frame(p);
    let g = f.update(i, v);
    let n = p.len();
    lemma_frame_layout(p);
    assert(g.take(8) =~= f.take(8));
    assert(g.subrange(8, 12) =~= f.subrange(8, 12));
    assert(g.subrange(12, 20) =~= f.subrange(12, 20));
    assert(g.subrange(HEADER_LEN as int, HEADER_LEN + n) =~= p);
    lemma_read_back32(g, 8, VERSION);
    lemma_read_back64(g, 12, n as u64);
    if le32_at(g, HEADER_LEN + n) == crc32_of(p) {
        lemma_le32_bytes_of_word(g, HEADER_LEN + n);
        assert(g.subrange(HEADER_LEN + n, HEADER_LEN + n + 4)[i - HEADER_LEN - n] == v);
        assert(f.subrange(HEADER_LEN + n, HEADER_LEN + n + 4)[i - HEADER_LEN - n] == f[i]);
    }
}

/// Two different registers stay different through one CRC step: the
/// step can be undone, since the polynomial's top bit tells whether it
/// was applied.
proof fn lemma_crc_bit_injective(x: u32, y: u32)
    requires
        x != y,
    ensures
        crc_bit(x) != crc_bit(y),
{
    assert(crc_bit(x) != crc_bit(y)) by (bit_vector)
        requires
            x != y,
    ;
}

proof fn lemma_crc_bits_injective(x: u32, y: u32, n: nat)
    requires
        x != y,
    ensures
        crc_bits(x, n) != crc_bits(y, n),
    decreases n,
{
    if n > 0 {
        lemma_crc_bit_injective(x, y);
        lemma_crc_bits_injective(crc_bit(x), crc_bit(y), (n - 1) as nat);
    }
}

/// Feeding the same byte to two different registers, or two different
/// bytes to one register, gives different registers.
proof fn lemma_crc_byte_injective(x: u32, a: u8, y: u32, b: u8)
    requires
        x != y || a != b,
        x == y || a == b,
    ensures
        crc_bits(x ^ (a as u32), 8) != crc_bits(y ^ (b as u32), 8),
{
    assert((x ^ (a as u32)) != (y ^ (b as u32))) by (bit_vector)
        requires
            x != y || a != b,
            x == y || a == b,
    ;
    lemma_crc_bits_injective(x ^ (a as u32), y ^ (b as u32), 8);
}

/// Two byte strings that differ in exactly one byte leave different
/// CRC registers.
proof fn lemma_register_tells_one_byte(s: Seq<u8>, t: Seq<u8>, j: int)
    requires
        s.len() == t.len(),
        0 <= j < s.len(),
        s[j] != t[j],
        forall|k: int| 0 <= k < s.len() && k != j ==> s[k] == t[k],
    ensures
        crc_register(s) != crc_register(t),
    decreases s.len(),
{
    let n = s.len() - 1;
    if j == n {
        assert(s.drop_last() =~= t.drop_last());
        lemma_crc_byte_injective(crc_register(s.drop_last()), s.last(), crc_register(t.drop_last()), t.last());
    } else {
        lemma_register_tells_one_byte(s.drop_last(), t.drop_last(), j);
        lemma_crc_byte_injective(crc_register(s.drop_last()), s.last(), crc_register(t.drop_last()), t.last());
    }
}

/// The CRC-32 catches every change to a single byte.
pub proof fn lemma_crc_catches_any_changed_byte(p: Seq<u8>, i: int, v: u8)
    requires
        0 <= i < p.len(),
        v != p[i],
    ensures
        crc32_of(p.update(i, v)) != crc32_of(p),
{
    lemma_register_tells_one_byte(p, p.update(i, v), i);
    let a = crc_register(p);
    let b = crc_register(p.update(i, v));
    assert(!a != !b) by (bit_vector)
        requires
            a != b,
    ;
}

/// A save file with any one byte changed — in the magic, the version,
/// the length, the payload or the checksum — is refused.
pub proof fn lemma_any_changed_byte_is_refused(p: Seq<u8>, i: int, v: u8)
    requires
        p.len() <= MAX_PAYLOAD,
        0 <= i < frame(p).len(),
        v != frame(p)[i],
    ensures
        decoded(frame(p).update(i, v)) is Err,
{
    let f = frame(p);
    let g = f.update(i, v);
    let n = p.len();
    lemma_frame_layout(p);
    if i < 8 {
        assert(g.take(8)[i] != magic()[i]);
    } else if i < 12 {
        assert(g.take(8) =~= f.take(8));
        lemma_le32_bytes_of_word(g, 8);
        assert(g.subrange(8, 12)[i - 8] != f.subrange(8, 12)[i - 8]);
    } else if i < HEADER_LEN {
        assert(g.take(8) =~= f.take(8));
        assert(g.subrange(8, 12) =~= f.subrange(8, 12));
        lemma_read_back32(g, 8, VERSION);
        lemma_le64_bytes_of_word(g, 12);
        assert(g.subrange(12, 20)[i - 12] != f.subrange(12, 20)[i - 12]);
    } else if i < HEADER_LEN + n {
        assert(g.take(8) =~= f.take(8));
        assert(g.subrange(8, 12) =~= f.subrange(8, 12));
        assert(g.subrange(12, 20) =~= f.subrange(12, 20));
        lemma_read_back32(g, 8, VERSION);
        lemma_read_back64(g, 12, n as u64);
        let q = g.subrange(HEADER_LEN as int, HEADER_LEN + n);
        assert(q =~= p.update(i - HEADER_LEN, v));
        assert(g.subrange(HEADER_LEN + n, HEADER_LEN + n + 4) =~= f.subrange(
            HEADER_LEN + n,
            HEADER_LEN + n + 4,
        ));
        lemma_read_back32(g, HEADER_LEN + n, crc32_of(p));
        lemma_crc_catches_any_changed_byte(p, i - HEADER_LEN, v);
    } else {
        lemma_checksum_tampering_is_detected(p, i, v);
    }
}

/// Eight CRC steps over one byte.
fn crc_byte(c: u32, byte: u8) -> (r: u32)
    ensures
        r == crc_bits(c ^ (byte as u32), 8),
{
    let mut crc = c ^ (byte as u32);
    let mut k: u32 = 0;
    while k < 8
        invariant
            k <= 8,
            crc_bits(c ^ (byte as u32), 8) == crc_bits(crc, (8 - k) as nat),
        decreases 8 - k,
    {
        let low = crc & 1;
        let mask = 0u32.wrapping_sub(low);
        assert(low == 0 || low == 1) by (bit_vector)
            requires
                low == crc & 1,
        ;
        let next = (crc >> 1) ^ (0xedb8_8320 & mask);
        assert(next == crc_bit(crc)) by (bit_vector)
            requires
                low == crc & 1,
                mask == if low == 1 {
                    0xffff_ffffu32
                } else {
                    0u32
                },
                next == (crc >> 1u32) ^ (0xedb8_8320u32 & mask),
        ;
        crc = next;
        k = k + 1;
    }
    crc
}

/// The CRC-32 of `bytes`.
pub fn crc32(bytes: &[u8]) -> (r: u32)
    ensures
        r == crc32_of(bytes@),
{
    let mut crc: u32 = 0xffff_ffff;
    let mut i: usize = 0;
    while i < bytes.len()
        invariant
            0 <= i <= bytes@.len(),
            crc == crc_register(bytes@.take(i as int)),
        decreases bytes@.len() - i,
    {
        assert(bytes@.take(i + 1).drop_last() == bytes@.take(i as int));
        crc = crc_byte(crc, bytes[i]);
        i = i + 1;
    }
    assert(bytes@.take(bytes@.len() as int) == bytes@);
    !crc
}

/// Append `v` as four little-endian bytes.
fn push_le32(out: &mut Vec<u8>, v: u32)
    ensures
        final(out)@ == old(out)@ + le32_bytes(v),
{
    out.push((v & 0xff) as u8);
    out.push(((v >> 8) & 0xff) as u8);
    out.push(((v >> 16) & 0xff) as u8);
    out.push(((v >> 24) & 0xff) as u8);
    assert(final(out)@ =~= old(out)@ + le32_bytes(v));
}

/// Append `v` as eight little-endian bytes.
fn push_le64(out: &mut Vec<u8>, v: u64)
    ensures
        final(out)@ == old(out)@ + le64_bytes(v),
{
    out.push((v & 0xff) as u8);
    out.push(((v >> 8) & 0xff) as u8);
    out.push(((v >> 16) & 0xff) as u8);
    out.push(((v >> 24) & 0xff) as u8);
    out.push(((v >> 32) & 0xff) as u8);
    out.push(((v >> 40) & 0xff) as u8);
    out.push(((v >> 48) & 0xff) as u8);
    out.push(((v >> 56) & 0xff) as u8);
    assert(final(out)@ =~= old(out)@ + le64_bytes(v));
}

/// The save file carrying `payload`, or `PayloadTooLarge` for a payload
/// over `MAX_PAYLOAD`.
pub fn encode(payload: &[u8]) -> (r: Result<Vec<u8>, SaveError>)
    ensures
        match r {
            Ok(v) => payload@.len() <= MAX_PAYLOAD && v@ == frame(payload@),
            Err(e) => payload@.len() > MAX_PAYLOAD && e == SaveError::PayloadTooLarge,
        },
{
    if payload.len() > MAX_PAYLOAD {
        return Err(SaveError::PayloadTooLarge);
    }
    let mut bytes: Vec<u8> = Vec::new();
    bytes.push(0x50);
    bytes.push(0x48);
    bytes.push(0x53);
    bytes.push(0x41);
    bytes.push(0x56);
    bytes.push(0x45);
    bytes.push(0x30);
    bytes.push(0x31);
    assert(bytes@ =~= magic());
    push_le32(&mut bytes, VERSION);
    push_le64(&mut bytes, payload.len() as u64);
    let ghost head = bytes@;
    let mut i: usize = 0;
    while i < payload.len()
        invariant
            0 <= i <= payload@.len(),
            bytes@ == head + payload@.take(i as int),
        decreases payload@.len() - i,
    {
        assert(head + payload@.take(i + 1) =~= (head + payload@.take(i as int)).push(
            payload@[i as int],
        ));
        bytes.push(payload[i]);
        i = i + 1;
    }
    assert(payload@.take(payload@.len() as int) == payload@);
    let checksum = crc32(payload);
    push_le32(&mut bytes, checksum);
    Ok(bytes)
}

/// The little-endian 32-bit word at `p`.
fn read_u32(bytes: &[u8], p: usize) -> (r: u32)
    requires
        p + 4 <= bytes@.len(),
    ensures
        r == le32_at(bytes@, p as int),
{
    (bytes[p] as u32) | ((bytes[p + 1] as u32) << 8u32) | ((bytes[p + 2] as u32) << 16u32) | ((
    bytes[p + 3] as u32) << 24u32)
}

/// The little-endian 64-bit word at `p`.
fn read_u64(bytes: &[u8], p: usize) -> (r: u64)
    requires
        p + 8 <= bytes@.len(),
    ensures
        r == le64_at(bytes@, p as int),
{
    (bytes[p] as u64) | ((bytes[p + 1] as u64) << 8u64) | ((bytes[p + 2] as u64) << 16u64) | ((
    bytes[p + 3] as u64) << 24u64) | ((bytes[p + 4] as u64) << 32u64) | ((bytes[p + 5] as u64)
        << 40u64) | ((bytes[p + 6] as u64) << 48u64) | ((bytes[p + 7] as u64) << 56u64)
}

/// The payload a save file carries, or the first check it fails:
/// header, version, length, checksum, in that order.
pub fn decode(bytes: &[u8]) -> (r: Result<Vec<u8>, SaveError>)
    ensures
        match decoded(bytes@) {
            Ok(p) => r matches Ok(v) && v@ == p,
            Err(e) => r == Err::<Vec<u8>, SaveError>(e),
        },
{
    if bytes.len() < HEADER_LEN {
        return Err(SaveError::InvalidHeader);
    }
    let magic_ok = bytes[0] == 0x50 && bytes[1] == 0x48 && bytes[2] == 0x53 && bytes[3] == 0x41
        && bytes[4] == 0x56 && bytes[5] == 0x45 && bytes[6] == 0x30 && bytes[7] == 0x31;
    assert(magic_ok == (bytes@.take(8) =~= magic()));
    if !magic_ok {
        return Err(SaveError::InvalidHeader);
    }
    if read_u32(bytes, 8) != VERSION {
        return Err(SaveError::UnsupportedVersion);
    }
    let length = read_u64(bytes, 12);
    if length > MAX_PAYLOAD as u64 {
        return Err(SaveError::InvalidLength);
    }
    let n = length as usize;
    if bytes.len() - HEADER_LEN < 4 || bytes.len() - HEADER_LEN - 4 != n {
        return Err(SaveError::InvalidLength);
    }
    let mut payload: Vec<u8> = Vec::new();
    let mut i: usize = 0;
    while i < n
        invariant
            0 <= i <= n,
            HEADER_LEN + n + 4 == bytes@.len(),
            bytes@.len() <= usize::MAX,
            payload@ == bytes@.subrange(HEADER_LEN as int, HEADER_LEN + i),
        decreases n - i,
    {
        assert(bytes@.subrange(HEADER_LEN as int, HEADER_LEN + i + 1) =~= payload@.push(
            bytes@[HEADER_LEN + i],
        ));
        payload.push(bytes[HEADER_LEN + i]);
        i = i + 1;
    }
    let expected = read_u32(bytes, HEADER_LEN + n);
    if crc32(payload.as_slice()) != expected {
        return Err(SaveError::ChecksumMismatch);
    }
    Ok(payload)
}

} // verus!
