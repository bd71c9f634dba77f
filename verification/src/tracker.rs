//! Protracker (`M.K.`) module parsing.
//!
//! Pocket PC games built on the Hekkus Sound System ship their music as
//! 4-channel Amiga modules — JumpyBall's `.tkm` files are ordinary
//! Protracker modules under a game-specific extension. This file reads
//! such a module into its samples, patterns and order table; the mixer
//! that turns them into PCM works in floating point and lives with the
//! audio front end.
use vstd::prelude::*;

pub mod effects;
pub mod laws;
pub mod song;

use effects::volumes_ok;

use crate::text::{str_trim, str_trim_end_matches, string_from_utf8_lossy, trim_end_where, trim_ws, utf8_lossy};

verus! {

/// Rows per pattern, fixed by the format.
pub const ROWS: usize = 64;

/// Sample slots in a 31-instrument module.
pub const SAMPLES: usize = 31;

/// Order-table length, in entries.
pub const ORDER_LEN: usize = 128;

/// Where the song length and order table start: after the 20-byte
/// title and 31 sample headers of 30 bytes each.
pub const ORDER_OFF: usize = 950;

/// Where the four magic bytes stand, after the order table.
pub const MAGIC_OFF: usize = 1080;

/// Where the first pattern starts, after the magic.
pub const PATTERNS_OFF: usize = 1084;

/// One sample: signed 8-bit PCM and how it loops.
pub struct Sample {
    pub data: Vec<i8>,
    /// Loop start and length in bytes, both already validated against
    /// `data`. A zero length means the sample does not loop.
    pub loop_start: usize,
    pub loop_len: usize,
    pub volume: i32,
    /// Protracker finetune, as a signed count of 1/8th semitones.
    pub finetune: i32,
}

/// One pattern cell: a period, a sample number and an effect.
#[derive(Debug, Clone, Copy, PartialEq, Eq, Structural)]
pub struct Note {
    pub period: u16,
    pub sample: u8,
    pub effect: u8,
    pub param: u8,
}

/// A parsed Protracker module.
pub struct Module {
    pub title: String,
    pub samples: Vec<Sample>,
    /// Each pattern holds `ROWS * channels` cells, row by row.
    pub patterns: Vec<Vec<Note>>,
    pub order: Vec<u8>,
    pub song_len: usize,
    pub channels: usize,
}

/// A sample, with its PCM taken as a sequence.
pub struct SampleView {
    pub data: Seq<i8>,
    pub loop_start: nat,
    pub loop_len: nat,
    pub volume: i32,
    pub finetune: i32,
}

/// A module, with its strings and tables taken as sequences.
pub struct ModuleView {
    pub title: Seq<char>,
    pub samples: Seq<SampleView>,
    pub patterns: Seq<Seq<Note>>,
    pub order: Seq<u8>,
    pub song_len: nat,
    pub channels: nat,
}

impl View for Sample {
    type V = SampleView;

    open spec fn view(&self) -> SampleView {
        SampleView {
            data: self.data@,
            loop_start: self.loop_start as nat,
            loop_len: self.loop_len as nat,
            volume: self.volume,
            finetune: self.finetune,
        }
    }
}

impl View for Module {
    type V = ModuleView;

    open spec fn view(&self) -> ModuleView {
        ModuleView {
            title: self.title@,
            samples: self.samples@.map_values(|s: Sample| s@),
            patterns: self.patterns@.map_values(|p: Vec<Note>| p@),
            order: self.order@,
            song_len: self.song_len as nat,
            channels: self.channels as nat,
        }
    }
}

/// What the sequencer relies on in a module: a full order table, a song
/// no longer than it, a channel count of one to eight and patterns of
/// `ROWS` rows of one cell per channel.
pub open spec fn module_wf(m: ModuleView) -> bool {
    &&& m.order.len() == ORDER_LEN
    &&& m.song_len <= ORDER_LEN
    &&& 1 <= m.channels <= 8
    &&& forall|p: int| 0 <= p < m.patterns.len() ==> #[trigger] m.patterns[p].len() == ROWS * m.channels
}

/// The big-endian 16-bit word at `at`.
pub open spec fn be16(b: Seq<u8>, at: int) -> nat {
    (b[at] * 256 + b[at + 1]) as nat
}

/// Do the four bytes at `at` spell `m`?
pub open spec fn spells(b: Seq<u8>, at: int, m: Seq<u8>) -> bool {
    b.subrange(at, at + 4) == m
}

/// The channel count a module's magic announces; zero for anything
/// that is not a known magic.
pub open spec fn channels_for(b: Seq<u8>) -> nat {
    let at = MAGIC_OFF as int;
    if spells(b, at, seq![0x4Du8, 0x2Eu8, 0x4Bu8, 0x2Eu8]) || spells(
        b,
        at,
        seq![0x4Du8, 0x21u8, 0x4Bu8, 0x21u8],
    ) || spells(b, at, seq![0x46u8, 0x4Cu8, 0x54u8, 0x34u8]) || spells(
        b,
        at,
        seq![0x34u8, 0x43u8, 0x48u8, 0x4Eu8],
    ) {
        4
    } else if spells(b, at, seq![0x36u8, 0x43u8, 0x48u8, 0x4Eu8]) {
        6
    } else if spells(b, at, seq![0x38u8, 0x43u8, 0x48u8, 0x4Eu8]) || spells(
        b,
        at,
        seq![0x46u8, 0x4Cu8, 0x54u8, 0x38u8],
    ) || spells(b, at, seq![0x43u8, 0x44u8, 0x38u8, 0x31u8]) || spells(
        b,
        at,
        seq![0x4Fu8, 0x4Bu8, 0x54u8, 0x41u8],
    ) {
        8
    } else {
        0
    }
}

/// Where sample header `i` starts.
pub open spec fn header_at(i: int) -> int {
    20 + i * 30
}

/// Sample `i`'s length in bytes.
pub open spec fn sample_len(b: Seq<u8>, i: int) -> nat {
    be16(b, header_at(i) + 22) * 2
}

/// Sample `i`'s finetune: the low nibble, read as a signed 4-bit
/// number.
pub open spec fn finetune_of(b: Seq<u8>, i: int) -> int {
    let raw = (b[header_at(i) + 24] & 0x0F) as int;
    if raw > 7 {
        raw - 16
    } else {
        raw
    }
}

/// Sample `i`'s volume, capped at 64.
pub open spec fn volume_of(b: Seq<u8>, i: int) -> int {
    let v = b[header_at(i) + 25] as int;
    if v < 64 {
        v
    } else {
        64
    }
}

/// The note cell at `o`; a cell cut off by the end of the file reads as
/// empty.
pub open spec fn note_at(b: Seq<u8>, o: int) -> Note {
    if o + 4 > b.len() {
        Note { period: 0, sample: 0, effect: 0, param: 0 }
    } else {
        Note {
            period: ((((b[o] & 0x0F) as u16) << 8u16) | b[o + 1] as u16) as u16,
            sample: ((b[o] & 0xF0) | (b[o + 2] >> 4u8)) as u8,
            effect: (b[o + 2] & 0x0F) as u8,
            param: b[o + 3],
        }
    }
}

/// Bytes per pattern for `ch` channels.
pub open spec fn pattern_bytes(ch: nat) -> nat {
    (ROWS * ch * 4) as nat
}

/// Pattern `p` of a module with `ch` channels.
pub open spec fn pattern_of(b: Seq<u8>, p: int, ch: nat) -> Seq<Note> {
    Seq::new(
        (ROWS * ch) as nat,
        |c: int| note_at(b, PATTERNS_OFF + p * pattern_bytes(ch) + c * 4),
    )
}

/// The largest entry of `s`, or zero for an empty one.
pub open spec fn seq_max(s: Seq<u8>) -> u8
    decreases s.len(),
{
    if s.len() == 0 {
        0
    } else {
        let m = seq_max(s.drop_last());
        if s.last() > m {
            s.last()
        } else {
            m
        }
    }
}

/// The order table.
pub open spec fn order_of(b: Seq<u8>) -> Seq<u8> {
    b.subrange(ORDER_OFF + 2, ORDER_OFF + 2 + ORDER_LEN)
}

/// How many patterns the file holds: one more than the largest pattern
/// the order table names.
pub open spec fn pattern_count(b: Seq<u8>) -> nat {
    seq_max(order_of(b)) as nat + 1
}

/// Where the sample PCM starts: right after the last pattern.
pub open spec fn pcm_base(b: Seq<u8>, ch: nat) -> nat {
    (PATTERNS_OFF + pattern_count(b) * pattern_bytes(ch)) as nat
}

/// Where sample `i`'s PCM starts: the samples follow each other in
/// header order.
pub open spec fn pcm_at(b: Seq<u8>, i: nat, base: nat) -> nat
    decreases i,
{
    if i == 0 {
        base
    } else {
        pcm_at(b, (i - 1) as nat, base) + sample_len(b, i - 1)
    }
}

/// Sample `i`, whose PCM starts at `pcm`: the bytes the file still
/// holds of it, read as signed, and a loop only where it fits in them.
/// A loop of one word is Protracker's "no loop" idiom.
pub open spec fn sample_of(b: Seq<u8>, i: int, pcm: nat) -> SampleView {
    let want = pcm + sample_len(b, i);
    let end = if want < b.len() {
        want
    } else {
        b.len()
    };
    let data = if pcm < end {
        b.subrange(pcm as int, end as int).map_values(|x: u8| x as i8)
    } else {
        Seq::empty()
    };
    let ls = be16(b, header_at(i) + 26) * 2;
    let ll = be16(b, header_at(i) + 28) * 2;
    let looped = ll > 2 && ls + ll <= data.len();
    SampleView {
        data,
        loop_start: if looped {
            ls
        } else {
            0
        },
        loop_len: if looped {
            ll
        } else {
            0
        },
        volume: volume_of(b, i) as i32,
        finetune: finetune_of(b, i) as i32,
    }
}

/// The title: the first 20 bytes decoded leniently as UTF-8, with the
/// NUL padding and surrounding whitespace removed.
pub open spec fn title_of(b: Seq<u8>) -> Seq<char> {
    trim_ws(trim_end_where(utf8_lossy(b.subrange(0, 20)), |c: char| c == '\0'))
}

/// The module `b` holds; `None` for anything too short to carry the
/// magic or whose magic is not a known one.
pub open spec fn module_of(b: Seq<u8>) -> Option<ModuleView> {
    if b.len() < PATTERNS_OFF {
        None
    } else {
        let ch = channels_for(b);
        if ch == 0 {
            None
        } else {
            let base = pcm_base(b, ch);
            let sl = b[ORDER_OFF as int] as nat;
            Some(
                ModuleView {
                    title: title_of(b),
                    samples: Seq::new(
                        SAMPLES as nat,
                        |i: int| sample_of(b, i, pcm_at(b, i as nat, base)),
                    ),
                    patterns: Seq::new(pattern_count(b), |p: int| pattern_of(b, p, ch)),
                    order: order_of(b),
                    song_len: if sl < ORDER_LEN {
                        sl
                    } else {
                        ORDER_LEN as nat
                    },
                    channels: ch,
                },
            )
        }
    }
}

/// Do the four bytes at `at` spell `m0 m1 m2 m3`?
fn spells_exec(b: &[u8], at: usize, m0: u8, m1: u8, m2: u8, m3: u8) -> (r: bool)
    requires
        at + 4 <= b@.len(),
    ensures
        r == spells(b@, at as int, seq![m0, m1, m2, m3]),
{
    let r = b[at] == m0 && b[at + 1] == m1 && b[at + 2] == m2 && b[at + 3] == m3;
    assert(r == (b@.subrange(at as int, at + 4) =~= seq![m0, m1, m2, m3]));
    r
}

/// The channel count the magic announces, or zero.
fn magic_channels(b: &[u8]) -> (r: usize)
    requires
        b@.len() >= PATTERNS_OFF,
    ensures
        r == channels_for(b@),
{
    let at = MAGIC_OFF;
    if spells_exec(b, at, 0x4D, 0x2E, 0x4B, 0x2E) || spells_exec(b, at, 0x4D, 0x21, 0x4B, 0x21)
        || spells_exec(b, at, 0x46, 0x4C, 0x54, 0x34) || spells_exec(b, at, 0x34, 0x43, 0x48, 0x4E) {
        4
    } else if spells_exec(b, at, 0x36, 0x43, 0x48, 0x4E) {
        6
    } else if spells_exec(b, at, 0x38, 0x43, 0x48, 0x4E) || spells_exec(b, at, 0x46, 0x4C, 0x54, 0x38)
        || spells_exec(b, at, 0x43, 0x44, 0x38, 0x31) || spells_exec(b, at, 0x4F, 0x4B, 0x54, 0x41) {
        8
    } else {
        0
    }
}

fn be16_at(b: &[u8], at: usize) -> (r: usize)
    requires
        at + 2 <= b@.len(),
    ensures
        r == be16(b@, at as int),
{
    (b[at] as usize) * 256 + (b[at + 1] as usize)
}

/// The note cell at `o`.
fn note_exec(b: &[u8], o: usize) -> (n: Note)
    requires
        o + 4 <= usize::MAX,
    ensures
        n == note_at(b@, o as int),
{
    if o + 4 > b.len() {
        Note { period: 0, sample: 0, effect: 0, param: 0 }
    } else {
        Note {
            period: (((b[o] & 0x0F) as u16) << 8u16) | b[o + 1] as u16,
            sample: (b[o] & 0xF0) | (b[o + 2] >> 4u8),
            effect: b[o + 2] & 0x0F,
            param: b[o + 3],
        }
    }
}

/// The order table and the largest entry in it.
fn read_order(b: &[u8]) -> (r: (Vec<u8>, u8))
    requires
        b@.len() >= PATTERNS_OFF,
    ensures
        r.0@ == order_of(b@),
        r.1 == seq_max(order_of(b@)),
{
    let mut order: Vec<u8> = Vec::new();
    let mut max: u8 = 0;
    let mut i: usize = 0;
    while i < ORDER_LEN
        invariant
            b@.len() >= PATTERNS_OFF,
            0 <= i <= ORDER_LEN,
            order@ == order_of(b@).take(i as int),
            max == seq_max(order@),
        decreases ORDER_LEN - i,
    {
        let v = b[ORDER_OFF + 2 + i];
        proof {
            let next = order@.push(v);
            assert(next.drop_last() == order@);
            assert(order_of(b@).take(i + 1) == next);
        }
        order.push(v);
        if v > max {
            max = v;
        }
        i = i + 1;
    }
    assert(order_of(b@).take(ORDER_LEN as int) == order_of(b@));
    (order, max)
}

/// Pattern `p` of a module with `ch` channels.
fn read_pattern(b: &[u8], p: usize, ch: usize) -> (cells: Vec<Note>)
    requires
        p < 256,
        ch <= 8,
    ensures
        cells@ == pattern_of(b@, p as int, ch as nat),
{
    let pb = ROWS * ch * 4;
    assert(p * pb <= 255 * 2048) by (nonlinear_arith)
        requires
            p < 256,
            pb <= 2048,
    ;
    let base = PATTERNS_OFF + p * pb;
    let n = ROWS * ch;
    let mut cells: Vec<Note> = Vec::new();
    let mut c: usize = 0;
    while c < n
        invariant
            p < 256,
            ch <= 8,
            n == ROWS * ch,
            base == PATTERNS_OFF + p * pattern_bytes(ch as nat),
            0 <= c <= n,
            cells@ == pattern_of(b@, p as int, ch as nat).take(c as int),
        decreases n - c,
    {
        assert(p * pattern_bytes(ch as nat) <= 255 * 2048) by (nonlinear_arith)
            requires
                p < 256,
                ch <= 8,
                pattern_bytes(ch as nat) == ROWS * ch * 4,
        ;
        let note = note_exec(b, base + c * 4);
        assert(pattern_of(b@, p as int, ch as nat).take(c + 1) == cells@.push(note));
        cells.push(note);
        c = c + 1;
    }
    assert(pattern_of(b@, p as int, ch as nat).take(n as int) == pattern_of(
        b@,
        p as int,
        ch as nat,
    ));
    cells
}

/// Sample `i`, whose PCM starts at `pcm`.
fn read_sample(b: &[u8], i: usize, pcm: usize) -> (s: Sample)
    requires
        i < SAMPLES,
        b@.len() >= PATTERNS_OFF,
        pcm <= 0x1000_0000,
    ensures
        s@ == sample_of(b@, i as int, pcm as nat),
{
    let o = 20 + i * 30;
    let len = be16_at(b, o + 22) * 2;
    let want = pcm + len;
    let end = if want < b.len() {
        want
    } else {
        b.len()
    };
    let mut data: Vec<i8> = Vec::new();
    if pcm < end {
        let mut k: usize = pcm;
        while k < end
            invariant
                pcm <= k <= end <= b@.len(),
                data@ == b@.subrange(pcm as int, k as int).map_values(|x: u8| x as i8),
            decreases end - k,
        {
            assert(b@.subrange(pcm as int, k + 1).map_values(|x: u8| x as i8) == data@.push(
                b@[k as int] as i8,
            ));
            data.push(b[k] as i8);
            k = k + 1;
        }
    }
    let raw = (b[o + 24] & 0x0F) as i32;
    let finetune = if raw > 7 {
        raw - 16
    } else {
        raw
    };
    let v = b[o + 25];
    let volume = if v < 64 {
        v as i32
    } else {
        64
    };
    let ls = be16_at(b, o + 26) * 2;
    let ll = be16_at(b, o + 28) * 2;
    let looped = ll > 2 && ls + ll <= data.len();
    let s = Sample {
        data,
        loop_start: if looped {
            ls
        } else {
            0
        },
        loop_len: if looped {
            ll
        } else {
            0
        },
        volume,
        finetune,
    };
    assert(s@.data == sample_of(b@, i as int, pcm as nat).data);
    s
}

/// The title field, decoded and trimmed.
fn read_title(b: &[u8]) -> (t: String)
    requires
        b@.len() >= 20,
    ensures
        t@ == title_of(b@),
{
    let decoded = string_from_utf8_lossy(&b[0..20]);
    let unpadded = str_trim_end_matches(decoded.as_str(), '\0');
    let trimmed = str_trim(unpadded);
    assert(b@.subrange(0, 20) == b@.subrange(0, 20));
    trimmed.to_owned()
}

impl Module {
    /// Parse a 31-sample Protracker module. Anything without the magic
    /// is refused, including the 15-sample Soundtracker variant: it
    /// carries no magic at all and cannot be told from arbitrary bytes
    /// with any confidence.
    pub fn parse(bytes: &[u8]) -> (r: Option<Module>)
        ensures
            match module_of(bytes@) {
                Some(v) => r matches Some(m) && m@ == v,
                None => r is None,
            },
            r matches Some(m) ==> module_wf(m@) && volumes_ok(m.samples@),
    {
        if bytes.len() < PATTERNS_OFF {
            return None;
        }
        let channels = magic_channels(bytes);
        if channels == 0 {
            return None;
        }
        let title = read_title(bytes);
        let (order, max) = read_order(bytes);
        let b0 = bytes[ORDER_OFF];
        let song_len: usize = if (b0 as usize) < ORDER_LEN {
            b0 as usize
        } else {
            ORDER_LEN
        };
        let count: usize = max as usize + 1;
        let ghost b = bytes@;
        let ghost ch = channels as nat;

        // Modules ripped out of games are routinely truncated: cells
        // past the end of the file read as empty instead of refusing the
        // whole file.
        let mut patterns: Vec<Vec<Note>> = Vec::new();
        let mut p: usize = 0;
        while p < count
            invariant
                b == bytes@,
                channels == ch,
                ch == 4 || ch == 6 || ch == 8,
                count == pattern_count(b),
                count <= 256,
                0 <= p <= count,
                patterns@.map_values(|v: Vec<Note>| v@) == Seq::new(
                    count as nat,
                    |q: int| pattern_of(b, q, ch),
                ).take(p as int),
            decreases count - p,
        {
            let cells = read_pattern(bytes, p, channels);
            proof {
                let want = Seq::new(count as nat, |q: int| pattern_of(b, q, ch));
                assert(want.take(p + 1) == want.take(p as int).push(cells@));
            }
            patterns.push(cells);
            assert(patterns@.map_values(|v: Vec<Note>| v@) == Seq::new(
                count as nat,
                |q: int| pattern_of(b, q, ch),
            ).take(p + 1));
            p = p + 1;
        }

        // Sample headers come first, but the PCM they describe sits
        // after the patterns, each sample right after the one before.
        let pb = ROWS * channels * 4;
        assert(count * pb <= 256 * 2048) by (nonlinear_arith)
            requires
                count <= 256,
                pb <= 2048,
        ;
        let base: usize = PATTERNS_OFF + count * pb;
        assert(base == pcm_base(b, ch)) by (nonlinear_arith)
            requires
                base == PATTERNS_OFF + count * pb,
                pb == ROWS * channels * 4,
                count == pattern_count(b),
                ch == channels,
                pcm_base(b, ch) == PATTERNS_OFF + pattern_count(b) * pattern_bytes(ch),
                pattern_bytes(ch) == ROWS * ch * 4,
        ;
        let mut samples: Vec<Sample> = Vec::new();
        let mut pcm: usize = base;
        let mut i: usize = 0;
        while i < SAMPLES
            invariant
                b == bytes@,
                b.len() >= PATTERNS_OFF,
                base == pcm_base(b, ch),
                base <= PATTERNS_OFF + 256 * 2048,
                0 <= i <= SAMPLES,
                pcm == pcm_at(b, i as nat, base as nat),
                pcm <= base + i * 0x20000,
                samples@.map_values(|s: Sample| s@) == Seq::new(
                    SAMPLES as nat,
                    |k: int| sample_of(b, k, pcm_at(b, k as nat, base as nat)),
                ).take(i as int),
            decreases SAMPLES - i,
        {
            let s = read_sample(bytes, i, pcm);
            let len = be16_at(bytes, 20 + i * 30 + 22) * 2;
            proof {
                let want = Seq::new(
                    SAMPLES as nat,
                    |k: int| sample_of(b, k, pcm_at(b, k as nat, base as nat)),
                );
                assert(want.take(i + 1) == want.take(i as int).push(s@));
            }
            samples.push(s);
            assert(samples@.map_values(|s: Sample| s@) == Seq::new(
                SAMPLES as nat,
                |k: int| sample_of(b, k, pcm_at(b, k as nat, base as nat)),
            ).take(i + 1));
            pcm = pcm + len;
            i = i + 1;
        }
        let m = Module { title, samples, patterns, order, song_len, channels };
        assert forall|k: int| 0 <= k < m.samples@.len() implies 0 <= #[trigger] m.samples@[k].volume
            <= 64 by {
            assert(m@.samples[k] == m.samples@[k]@);
        }
        proof {
            let v = module_of(bytes@).unwrap();
            assert(Seq::new(count as nat, |q: int| pattern_of(b, q, ch)).take(count as int)
                == v.patterns);
            assert(Seq::new(
                SAMPLES as nat,
                |k: int| sample_of(b, k, pcm_at(b, k as nat, base as nat)),
            ).take(SAMPLES as int) == v.samples);
        }
        Some(m)
    }
}

/// Only a known magic makes a module: bytes whose magic is not one of
/// the Protracker signatures — a WAV, or the magic-less 15-sample
/// Soundtracker layout — are never taken for one, nor is anything too
/// short to hold the magic.
pub proof fn lemma_no_magic_no_module(b: Seq<u8>)
    requires
        b.len() < PATTERNS_OFF || channels_for(b) == 0,
    ensures
        module_of(b) is None,
{
}

} // verus!
