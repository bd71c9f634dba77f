//! What a parsed module holds, said from the file's bytes.
use vstd::prelude::*;

use super::{
    module_of, pattern_count, pattern_bytes, pcm_at, pcm_base, sample_of, sample_len, seq_max,
    order_of, note_at, header_at, PATTERNS_OFF, ORDER_LEN, ORDER_OFF, ROWS, SAMPLES,
};

verus! {

/// The PCM length sample `k`'s header declares: the big-endian word at
/// offset 22 of the header, in two-byte words.
pub open spec fn declared_len(b: Seq<u8>, k: int) -> nat {
    (2 * (b[20 + 30 * k + 22] * 256 + b[20 + 30 * k + 23])) as nat
}

/// The PCM the headers of the first `i` samples declare, in bytes.
pub open spec fn declared_before(b: Seq<u8>, i: nat) -> nat
    decreases i,
{
    if i == 0 {
        0
    } else {
        declared_before(b, (i - 1) as nat) + declared_len(b, i - 1)
    }
}

/// Where the sample data starts: right after the last pattern.
pub open spec fn after_patterns(patterns: nat, channels: nat) -> nat {
    (PATTERNS_OFF + patterns * (ROWS * channels * 4)) as nat
}

proof fn lemma_pcm_offsets(b: Seq<u8>, base: nat, i: nat)
    ensures
        pcm_at(b, i, base) == base + declared_before(b, i),
    decreases i,
{
    if i > 0 {
        lemma_pcm_offsets(b, base, (i - 1) as nat);
        assert(sample_len(b, i - 1) == declared_len(b, i - 1));
    }
}

/// The samples' PCM lies back to back after the last pattern, in header
/// order: sample `i`'s data starts after the patterns and the declared
/// PCM of every sample before it, runs for as many bytes as its own
/// header declares, clipped to the end of the file, and is read as
/// signed; a sample that starts at or past the end of the file is empty.
pub proof fn lemma_samples_follow_each_other(b: Seq<u8>, i: nat)
    requires
        module_of(b) is Some,
        i < SAMPLES,
    ensures
        ({
            let v = module_of(b).unwrap();
            let start = after_patterns(v.patterns.len(), v.channels) + declared_before(b, i);
            let want = start + declared_len(b, i as int);
            let end: int = if want < b.len() { want as int } else { b.len() as int };
            v.samples[i as int].data == if start < end {
                b.subrange(start as int, end).map_values(|x: u8| x as i8)
            } else {
                Seq::empty()
            }
        }),
{
    let v = module_of(b).unwrap();
    let ch = v.channels;
    let base = pcm_base(b, ch);
    assert(v.patterns.len() == pattern_count(b));
    assert(base == after_patterns(v.patterns.len(), ch)) by {
        assert(pattern_bytes(ch) == ROWS * ch * 4);
    }
    lemma_pcm_offsets(b, base, i);
    let pcm = pcm_at(b, i, base);
    assert(v.samples[i as int] == sample_of(b, i as int, pcm));
    assert(sample_len(b, i as int) == declared_len(b, i as int));
}

/// No entry of `s` is above its largest.
proof fn lemma_seq_max_bounds(s: Seq<u8>)
    ensures
        forall|i: int| 0 <= i < s.len() ==> #[trigger] s[i] <= seq_max(s),
    decreases s.len(),
{
    if s.len() > 0 {
        lemma_seq_max_bounds(s.drop_last());
        assert forall|i: int| 0 <= i < s.len() implies #[trigger] s[i] <= seq_max(s) by {
            if i < s.len() - 1 {
                assert(s[i] == s.drop_last()[i]);
            }
        }
    }
}

/// Every order entry names a pattern the parsed module holds: the file
/// is taken to carry one more pattern than the largest entry of its
/// order table. The order table is the 128 bytes after the song length
/// at offset 950, and the song is that length long, at most 128.
pub proof fn lemma_every_ordered_pattern_is_there(b: Seq<u8>)
    requires
        module_of(b) is Some,
    ensures
        ({
            let m = module_of(b).unwrap();
            &&& m.order.len() == ORDER_LEN
            &&& forall|i: int| 0 <= i < ORDER_LEN ==> m.order[i] == b[ORDER_OFF + 2 + i]
            &&& forall|i: int| 0 <= i < ORDER_LEN ==> #[trigger] m.order[i] < m.patterns.len()
            &&& exists|i: int| 0 <= i < ORDER_LEN && m.order[i] + 1 == m.patterns.len()
            &&& m.song_len == if b[ORDER_OFF as int] < 128 { b[ORDER_OFF as int] as nat } else { 128 }
        }),
{
    let m = module_of(b).unwrap();
    let o = order_of(b);
    lemma_seq_max_bounds(o);
    lemma_seq_max_attained(o);
    assert(m.order == o);
    assert(m.patterns.len() == seq_max(o) + 1);
    let j = choose|j: int| 0 <= j < o.len() && o[j] == seq_max(o);
    assert(m.order[j] + 1 == m.patterns.len());
    assert forall|i: int| 0 <= i < ORDER_LEN implies #[trigger] m.order[i] < m.patterns.len() by {
        assert(o[i] <= seq_max(o));
    }
}

/// A non-empty sequence reaches its largest entry somewhere.
proof fn lemma_seq_max_attained(s: Seq<u8>)
    requires
        s.len() > 0,
    ensures
        exists|i: int| 0 <= i < s.len() && s[i] == seq_max(s),
    decreases s.len(),
{
    if s.len() > 1 {
        lemma_seq_max_attained(s.drop_last());
        let j = choose|j: int| 0 <= j < s.drop_last().len() && s.drop_last()[j] == seq_max(s.drop_last());
        assert(s[j] == s.drop_last()[j]);
        if s.last() > seq_max(s.drop_last()) {
            assert(s[s.len() - 1] == seq_max(s));
        } else {
            assert(s[j] == seq_max(s));
        }
    } else {
        assert(s.drop_last().len() == 0);
        assert(seq_max(s.drop_last()) == 0);
        assert(s.last() == s[0]);
        assert(s[0] == seq_max(s));
    }
}

/// A pattern cell is four bytes `a b c d`: the period is the low
/// nibble of `a` and all of `b` (twelve bits), the sample number the
/// high nibbles of `a` and `c`, the effect the low nibble of `c`, the
/// parameter `d`. A cell the file cuts short is empty.
pub proof fn lemma_cells_decode(b: Seq<u8>, p: int, c: int)
    requires
        module_of(b) is Some,
        0 <= p < module_of(b).unwrap().patterns.len(),
        0 <= c < ROWS * module_of(b).unwrap().channels,
    ensures
        ({
            let m = module_of(b).unwrap();
            let o = PATTERNS_OFF + p * (ROWS * m.channels * 4) + 4 * c;
            let n = m.patterns[p][c];
            &&& o + 4 <= b.len() ==> (n.period == (b[o] % 16) * 256 + b[o + 1] && n.sample == (b[o]
                / 16) * 16 + b[o + 2] / 16 && n.effect == b[o + 2] % 16 && n.param == b[o + 3])
            &&& o + 4 > b.len() ==> (n.period == 0 && n.sample == 0 && n.effect == 0 && n.param
                == 0)
        }),
{
    let m = module_of(b).unwrap();
    let o = PATTERNS_OFF + p * (ROWS * m.channels * 4) + 4 * c;
    assert(pattern_bytes(m.channels) == ROWS * m.channels * 4);
    assert(m.patterns[p][c] == note_at(b, o));
    if o + 4 <= b.len() {
        let (x, y, z) = (b[o], b[o + 1], b[o + 2]);
        assert(((((x & 0x0F) as u16) << 8u16) | y as u16) as u16 == (x % 16) * 256 + y && ((x
            & 0xF0) | (z >> 4u8)) as u8 == (x / 16) * 16 + z / 16 && (z & 0x0F) as u8 == z % 16)
            by (bit_vector);
    }
}

/// A sample header's volume byte, at offset 25, is the sample's volume,
/// held to 64; the low nibble of its finetune byte, at offset 24, is
/// the finetune read as a signed four-bit number; and a loop the sample
/// keeps is longer than one word and lies inside its data.
pub proof fn lemma_sample_headers(b: Seq<u8>, i: int)
    requires
        module_of(b) is Some,
        0 <= i < SAMPLES,
    ensures
        ({
            let sv = module_of(b).unwrap().samples[i];
            let h = 20 + 30 * i;
            let f = b[h + 24] % 16;
            &&& sv.volume == if b[h + 25] < 64 { b[h + 25] as int } else { 64 }
            &&& sv.finetune == if f < 8 { f as int } else { f - 16 }
            &&& sv.loop_len == 0 || (sv.loop_len > 2 && sv.loop_start + sv.loop_len <= sv.data.len())
        }),
{
    let h = header_at(i);
    let x = b[h + 24];
    assert((x & 0x0F) == x % 16) by (bit_vector);
}

} // verus!
