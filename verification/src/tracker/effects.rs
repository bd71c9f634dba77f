//! The integer side of a channel: which sample it plays, where in it,
//! how loud, and the effect memory (vibrato, tremolo, slides). Pitch is a
//! floating-point period and stays with the mixer, which learns from
//! [`trigger_voice`] and [`tick_voice`] what to do with it.
use vstd::prelude::*;

use super::{Note, Sample};

verus! {

/// Loudest channel volume.
pub const MAX_VOLUME: i32 = 64;

/// The sine table Protracker uses for vibrato and tremolo: half a wave
/// in 32 steps.
pub open spec fn sine() -> Seq<i32> {
    seq![
        0, 24, 49, 74, 97, 120, 141, 161,
        180, 197, 212, 224, 235, 244, 250, 253,
        255, 253, 250, 244, 235, 224, 212, 197,
        180, 161, 141, 120, 97, 74, 49, 24,
    ]
}

/// `v` held to `lo..=hi`.
pub open spec fn clamp(v: int, lo: int, hi: int) -> int {
    if v < lo {
        lo
    } else if v > hi {
        hi
    } else {
        v
    }
}

/// The volume after a volume-slide tick: up by the high nibble of the
/// slide parameter, or else down by its low nibble, never past silence
/// or full volume.
pub open spec fn slid_volume(volume: int, slide: u8) -> int {
    let up = (slide >> 4u8) as int;
    let down = (slide & 0x0Fu8) as int;
    if up > 0 {
        if volume + up < MAX_VOLUME {
            volume + up
        } else {
            MAX_VOLUME as int
        }
    } else if down > 0 {
        if volume - down > 0 {
            volume - down
        } else {
            0
        }
    } else {
        volume
    }
}

/// The wave's value at position `pos` of its 64-step cycle, scaled by
/// `depth / scale`: the table covers the first half wave, the second
/// half is its negation.
pub open spec fn wave(pos: i32, depth: u8, scale: int) -> int {
    let d = sine()[(pos & 31i32) as int] * depth / scale;
    if pos & 32i32 != 0 {
        -d
    } else {
        d
    }
}

/// The next position in the 64-step cycle.
pub open spec fn wave_pos(pos: i32, speed: u8) -> i32 {
    ((pos + speed) as i32) & 63i32
}

fn sine_at(i: i32) -> (r: i32)
    requires
        0 <= i < 32,
    ensures
        r == sine()[i as int],
{
    let table: [i32; 32] = [
        0, 24, 49, 74, 97, 120, 141, 161,
        180, 197, 212, 224, 235, 244, 250, 253,
        255, 253, 250, 244, 235, 224, 212, 197,
        180, 161, 141, 120, 97, 74, 49, 24,
    ];
    assert(table@ =~= sine());
    table[i as usize]
}

/// The wave's value at `pos`, scaled by `depth / scale`.
fn wave_at(pos: i32, depth: u8, scale: i32) -> (r: i32)
    requires
        scale == 64 || scale == 128,
    ensures
        r == wave(pos, depth, scale as int),
        -255 * 255 <= r <= 255 * 255,
{
    let i = pos & 31;
    assert(0 <= (pos & 31i32) < 32) by (bit_vector);
    let s = sine_at(i);
    assert(0 <= sine()[i as int] <= 255) by {
        assert(sine()[i as int] == sine()[(pos & 31i32) as int]);
    }
    assert(0 <= s * (depth as i32) <= 255 * 255) by (nonlinear_arith)
        requires
            0 <= s <= 255,
            0 <= depth <= 255,
    ;
    let d = s * (depth as i32) / scale;
    if pos & 32 != 0 {
        -d
    } else {
        d
    }
}

/// `Axy` (and the slide half of `5xy` / `6xy`): one tick of volume
/// slide.
pub fn volume_slide(volume: i32, slide: u8) -> (r: i32)
    requires
        i32::MIN + 15 <= volume <= i32::MAX - 15,
    ensures
        r == slid_volume(volume as int, slide),
{
    let up = (slide >> 4) as i32;
    let down = (slide & 0x0F) as i32;
    assert(slide >> 4u8 <= 15) by (bit_vector);
    assert(slide & 0x0Fu8 <= 15) by (bit_vector);
    if up > 0 {
        if volume + up < MAX_VOLUME {
            volume + up
        } else {
            MAX_VOLUME
        }
    } else if down > 0 {
        if volume - down > 0 {
            volume - down
        } else {
            0
        }
    } else {
        volume
    }
}

/// `7xy`: one tick of tremolo. Returns the new volume, moved along the
/// wave and held to `0..=64`, and the wave's next position.
pub fn tremolo(volume: i32, pos: i32, speed: u8, depth: u8) -> (r: (i32, i32))
    requires
        i32::MIN + 255 * 255 <= volume <= i32::MAX - 255 * 255,
        pos <= i32::MAX - 255,
    ensures
        r.0 == clamp(volume + wave(pos, depth, 64), 0, MAX_VOLUME as int),
        r.1 == wave_pos(pos, speed),
{
    let delta = wave_at(pos, depth, 64);
    let v = volume + delta;
    let v = if v < 0 {
        0
    } else if v > MAX_VOLUME {
        MAX_VOLUME
    } else {
        v
    };
    (v, (pos + speed as i32) & 63)
}

/// `4xy`: one tick of vibrato. Returns the period offset to play this
/// tick and the wave's next position.
pub fn vibrato(pos: i32, speed: u8, depth: u8) -> (r: (i32, i32))
    requires
        pos <= i32::MAX - 255,
    ensures
        r.0 == wave(pos, depth, 128),
        r.1 == wave_pos(pos, speed),
{
    (wave_at(pos, depth, 128), (pos + speed as i32) & 63)
}

/// The integer state of one channel.
#[derive(Debug, Clone, Copy, PartialEq, Eq, Structural)]
pub struct Voice {
    /// Index into the module's samples.
    pub sample: usize,
    /// Playback position into the sample, in 16.16 fixed point.
    pub pos: u64,
    pub volume: i32,
    pub vibrato_speed: u8,
    pub vibrato_depth: u8,
    pub vibrato_pos: i32,
    pub tremolo_speed: u8,
    pub tremolo_depth: u8,
    pub tremolo_pos: i32,
    /// Parameter of the last volume slide (`5xy`, `6xy`, `Axy`).
    pub slide: u8,
    pub active: bool,
}

/// A channel's volume is in `0..=64` and its wave positions in the
/// 64-step cycle.
pub open spec fn voice_ok(v: Voice) -> bool {
    &&& 0 <= v.volume <= MAX_VOLUME
    &&& 0 <= v.vibrato_pos < 64
    &&& 0 <= v.tremolo_pos < 64
}

/// Every sample's volume is in `0..=64`.
pub open spec fn volumes_ok(samples: Seq<Sample>) -> bool {
    forall|i: int| 0 <= i < samples.len() ==> 0 <= #[trigger] samples[i].volume <= MAX_VOLUME
}

/// A silent channel at the start of a song.
pub open spec fn silent() -> Voice {
    Voice {
        sample: 0,
        pos: 0,
        volume: 0,
        vibrato_speed: 0,
        vibrato_depth: 0,
        vibrato_pos: 0,
        tremolo_speed: 0,
        tremolo_depth: 0,
        tremolo_pos: 0,
        slide: 0,
        active: false,
    }
}

impl Default for Voice {
    /// A silent channel.
    fn default() -> (v: Self)
        ensures
            v == silent(),
    {
        Voice {
            sample: 0,
            pos: 0,
            volume: 0,
            vibrato_speed: 0,
            vibrato_depth: 0,
            vibrato_pos: 0,
            tremolo_speed: 0,
            tremolo_depth: 0,
            tremolo_pos: 0,
            slide: 0,
            active: false,
        }
    }
}

/// `E1x` / `E2x`: a fine portamento, once, on tick 0.
#[derive(Debug, Clone, Copy, PartialEq, Eq, Structural)]
pub enum Fine {
    Keep,
    /// Lower the period by this much, not below the lowest.
    Down(u8),
    /// Raise the period by this much, not above the highest.
    Up(u8),
}

/// A note's period and the finetune of the sample it plays.
#[derive(Debug, Clone, Copy, PartialEq, Eq, Structural)]
pub struct NoteStart {
    pub period: u16,
    /// Signed count of eighths of a semitone.
    pub finetune: i32,
}

/// What a row's cell does to the channel's pitch.
#[derive(Debug, Clone, Copy, PartialEq, Eq, Structural)]
pub struct PitchChange {
    /// The cell's period and the finetune of the channel's sample, where
    /// the cell holds a note.
    pub note: Option<NoteStart>,
    /// `3xx` / `5xy`: slide towards the note instead of restarting it.
    pub towards: bool,
    /// `3xx` with a parameter: the new portamento speed.
    pub porta_speed: Option<u8>,
    pub fine: Fine,
}

/// What a tick does to the channel's pitch.
#[derive(Debug, Clone, Copy, PartialEq, Eq, Structural)]
pub enum PitchMove {
    /// Leave the played period alone.
    Unchanged,
    /// Play the channel's own period.
    Reset,
    /// `0xy`: play the period this many semitones up.
    Arpeggio(u8),
    /// `1xx`: lower the period by this much, then play it.
    SlideDown(u8),
    /// `2xx`: raise the period by this much, then play it.
    SlideUp(u8),
    /// `3xx` / `5xy`: move the period towards the target, then play it.
    Porta,
    /// `4xy` / `6xy`: play the period moved by this offset.
    Vibrato(i32),
}

/// A cell's effect on the channel at tick 0, the row's trigger: the
/// sample it names (and that sample's volume), a restart where it holds
/// a note that is not a slide target, latched vibrato and tremolo
/// parameters, `9xx` sample offset, `Cxx` / `EAx` / `EBx` volume and a
/// remembered slide parameter; and what happens to the pitch.
pub open spec fn triggered(v: Voice, n: Note, samples: Seq<Sample>) -> (Voice, PitchChange) {
    let hi = n.param >> 4u8;
    let lo = n.param & 0x0Fu8;
    let v1 = if n.sample > 0 && n.sample - 1 < samples.len() {
        Voice { sample: (n.sample - 1) as usize, volume: samples[n.sample - 1].volume, ..v }
    } else {
        v
    };
    let towards = n.effect == 0x03 || n.effect == 0x05;
    let v2 = if n.period > 0 && !towards {
        Voice { pos: 0, active: true, vibrato_pos: 0, tremolo_pos: 0, ..v1 }
    } else {
        v1
    };
    let v3 = if n.effect == 0x04 {
        Voice {
            vibrato_speed: if hi != 0 { hi } else { v2.vibrato_speed },
            vibrato_depth: if lo != 0 { lo } else { v2.vibrato_depth },
            ..v2
        }
    } else if n.effect == 0x07 {
        Voice {
            tremolo_speed: if hi != 0 { hi } else { v2.tremolo_speed },
            tremolo_depth: if lo != 0 { lo } else { v2.tremolo_depth },
            ..v2
        }
    } else if n.effect == 0x09 {
        Voice { pos: (n.param * 0x100_0000) as u64, ..v2 }
    } else if n.effect == 0x0C {
        Voice { volume: if n.param < 64 { n.param as i32 } else { MAX_VOLUME }, ..v2 }
    } else if n.effect == 0x0E && hi == 0x0A {
        Voice { volume: if v2.volume + lo < MAX_VOLUME { (v2.volume + lo) as i32 } else { MAX_VOLUME }, ..v2 }
    } else if n.effect == 0x0E && hi == 0x0B {
        Voice { volume: if v2.volume - lo > 0 { (v2.volume - lo) as i32 } else { 0 }, ..v2 }
    } else {
        v2
    };
    let v4 = if n.effect == 0x05 || n.effect == 0x06 || n.effect == 0x0A {
        Voice { slide: n.param, ..v3 }
    } else {
        v3
    };
    let finetune = if v1.sample < samples.len() {
        samples[v1.sample as int].finetune
    } else {
        0
    };
    let pitch = PitchChange {
        note: if n.period > 0 { Some(NoteStart { period: n.period, finetune }) } else { None },
        towards,
        porta_speed: if n.effect == 0x03 && n.param != 0 { Some(n.param) } else { None },
        fine: if n.effect == 0x0E && hi == 0x01 {
            Fine::Down(lo)
        } else if n.effect == 0x0E && hi == 0x02 {
            Fine::Up(lo)
        } else {
            Fine::Keep
        },
    };
    (v4, pitch)
}

/// A cell's effect on the channel at a later tick of its row.
pub open spec fn ticked(v: Voice, n: Note, tick: u32) -> (Voice, PitchMove) {
    let hi = n.param >> 4u8;
    let lo = n.param & 0x0Fu8;
    let slid = Voice { volume: slid_volume(v.volume as int, v.slide) as i32, ..v };
    if tick == 0 {
        (v, PitchMove::Unchanged)
    } else if n.effect == 0x00 && n.param != 0 {
        let semis = if tick % 3 == 0 {
            0u8
        } else if tick % 3 == 1 {
            hi
        } else {
            lo
        };
        (v, PitchMove::Arpeggio(semis))
    } else if n.effect == 0x01 {
        (v, PitchMove::SlideDown(n.param))
    } else if n.effect == 0x02 {
        (v, PitchMove::SlideUp(n.param))
    } else if n.effect == 0x03 {
        (v, PitchMove::Porta)
    } else if n.effect == 0x05 {
        (slid, PitchMove::Porta)
    } else if n.effect == 0x04 || n.effect == 0x06 {
        let moved = Voice { vibrato_pos: wave_pos(v.vibrato_pos, v.vibrato_speed), ..v };
        let after = if n.effect == 0x06 {
            Voice { volume: slid_volume(v.volume as int, v.slide) as i32, ..moved }
        } else {
            moved
        };
        (after, PitchMove::Vibrato(wave(v.vibrato_pos, v.vibrato_depth, 128) as i32))
    } else if n.effect == 0x07 {
        let volume = clamp(v.volume + wave(v.tremolo_pos, v.tremolo_depth, 64), 0, MAX_VOLUME as int);
        (
            Voice { volume: volume as i32, tremolo_pos: wave_pos(v.tremolo_pos, v.tremolo_speed), ..v },
            PitchMove::Unchanged,
        )
    } else if n.effect == 0x0A {
        (slid, PitchMove::Reset)
    } else if n.effect == 0x0E {
        if hi == 0x09 && lo > 0 && tick % (lo as u32) == 0 {
            (Voice { pos: 0, ..v }, PitchMove::Unchanged)
        } else if hi == 0x0C && tick == lo as u32 {
            (Voice { volume: 0, ..v }, PitchMove::Unchanged)
        } else {
            (v, PitchMove::Unchanged)
        }
    } else {
        (v, PitchMove::Reset)
    }
}

/// Start a row's cell on a channel, on tick 0.
pub fn trigger_voice(v: &mut Voice, note: Note, samples: &[Sample]) -> (r: PitchChange)
    requires
        voice_ok(*old(v)),
        volumes_ok(samples@),
    ensures
        (*final(v), r) == triggered(*old(v), note, samples@),
        voice_ok(*final(v)),
{
    let param = note.param;
    let hi = param >> 4;
    let lo = param & 0x0F;
    assert(hi <= 15 && lo <= 15) by (bit_vector)
        requires
            hi == param >> 4u8,
            lo == param & 0x0Fu8,
    ;
    if note.sample > 0 {
        let index = note.sample as usize - 1;
        if index < samples.len() {
            v.sample = index;
            v.volume = samples[index].volume;
        }
    }
    let towards = note.effect == 0x03 || note.effect == 0x05;
    if note.period > 0 && !towards {
        v.pos = 0;
        v.active = true;
        v.vibrato_pos = 0;
        v.tremolo_pos = 0;
    }
    let finetune = if v.sample < samples.len() {
        samples[v.sample].finetune
    } else {
        0
    };
    if note.effect == 0x04 {
        if hi != 0 {
            v.vibrato_speed = hi;
        }
        if lo != 0 {
            v.vibrato_depth = lo;
        }
    } else if note.effect == 0x07 {
        if hi != 0 {
            v.tremolo_speed = hi;
        }
        if lo != 0 {
            v.tremolo_depth = lo;
        }
    } else if note.effect == 0x09 {
        let p = note.param as u64;
        assert(((p * 256) as u64) << 16u64 == p * 0x100_0000) by (bit_vector)
            requires
                p < 256,
        ;
        v.pos = (p * 256) << 16;
    } else if note.effect == 0x0C {
        v.volume = if note.param < 64 {
            note.param as i32
        } else {
            MAX_VOLUME
        };
    } else if note.effect == 0x0E && hi == 0x0A {
        v.volume = if v.volume + (lo as i32) < MAX_VOLUME {
            v.volume + lo as i32
        } else {
            MAX_VOLUME
        };
    } else if note.effect == 0x0E && hi == 0x0B {
        v.volume = if v.volume - (lo as i32) > 0 {
            v.volume - lo as i32
        } else {
            0
        };
    }
    if note.effect == 0x05 || note.effect == 0x06 || note.effect == 0x0A {
        v.slide = note.param;
    }
    PitchChange {
        note: if note.period > 0 {
            Some(NoteStart { period: note.period, finetune })
        } else {
            None
        },
        towards,
        porta_speed: if note.effect == 0x03 && note.param != 0 {
            Some(note.param)
        } else {
            None
        },
        fine: if note.effect == 0x0E && hi == 0x01 {
            Fine::Down(lo)
        } else if note.effect == 0x0E && hi == 0x02 {
            Fine::Up(lo)
        } else {
            Fine::Keep
        },
    }
}

/// Run a row's cell on a channel at tick `tick`; tick 0 is the trigger,
/// which [`trigger_voice`] has already handled.
pub fn tick_voice(v: &mut Voice, note: Note, tick: u32) -> (r: PitchMove)
    requires
        voice_ok(*old(v)),
    ensures
        (*final(v), r) == ticked(*old(v), note, tick),
        voice_ok(*final(v)),
{
    let hi = note.param >> 4;
    let lo = note.param & 0x0F;
    proof {
        lemma_wave_is_bounded(v.tremolo_pos, v.tremolo_speed, v.tremolo_depth, 64);
        lemma_wave_is_bounded(v.vibrato_pos, v.vibrato_speed, v.vibrato_depth, 128);
    }
    if tick == 0 {
        PitchMove::Unchanged
    } else if note.effect == 0x00 && note.param != 0 {
        let semis = if tick % 3 == 0 {
            0u8
        } else if tick % 3 == 1 {
            hi
        } else {
            lo
        };
        PitchMove::Arpeggio(semis)
    } else if note.effect == 0x01 {
        PitchMove::SlideDown(note.param)
    } else if note.effect == 0x02 {
        PitchMove::SlideUp(note.param)
    } else if note.effect == 0x03 {
        PitchMove::Porta
    } else if note.effect == 0x05 {
        v.volume = volume_slide(v.volume, v.slide);
        PitchMove::Porta
    } else if note.effect == 0x04 || note.effect == 0x06 {
        let (offset, pos) = vibrato(v.vibrato_pos, v.vibrato_speed, v.vibrato_depth);
        v.vibrato_pos = pos;
        if note.effect == 0x06 {
            v.volume = volume_slide(v.volume, v.slide);
        }
        PitchMove::Vibrato(offset)
    } else if note.effect == 0x07 {
        let (volume, pos) = tremolo(v.volume, v.tremolo_pos, v.tremolo_speed, v.tremolo_depth);
        v.volume = volume;
        v.tremolo_pos = pos;
        PitchMove::Unchanged
    } else if note.effect == 0x0A {
        v.volume = volume_slide(v.volume, v.slide);
        PitchMove::Reset
    } else if note.effect == 0x0E {
        if hi == 0x09 && lo > 0 && tick % (lo as u32) == 0 {
            v.pos = 0;
        } else if hi == 0x0C && tick == lo as u32 {
            v.volume = 0;
        }
        PitchMove::Unchanged
    } else {
        PitchMove::Reset
    }
}

/// Whatever the position, the wave is a table entry scaled down: a
/// tremolo of depth `d` moves the volume by at most `255 * d / 64`, and
/// the next position stays in the 64-step cycle.
pub proof fn lemma_wave_is_bounded(pos: i32, speed: u8, depth: u8, scale: int)
    requires
        scale == 64 || scale == 128,
        pos <= i32::MAX - 255,
    ensures
        -(255 * depth / scale) <= wave(pos, depth, scale) <= 255 * depth / scale,
        0 <= wave_pos(pos, speed) < 64,
{
    assert(0 <= (pos & 31i32) < 32) by (bit_vector);
    let i = (pos & 31i32) as int;
    assert(0 <= sine()[i] <= 255);
    let p = ((pos + speed) as i32);
    assert(0 <= (p & 63i32) < 64) by (bit_vector);
    assert(sine()[i] * depth / scale <= 255 * depth / scale) by (nonlinear_arith)
        requires
            0 <= sine()[i] <= 255,
            0 <= depth,
            scale > 0,
    ;
    assert(sine()[i] * depth / scale >= 0) by (nonlinear_arith)
        requires
            0 <= sine()[i] <= 255,
            0 <= depth,
            scale > 0,
    ;
}

/// A parameter's two nibbles, as the effects read them.
proof fn lemma_nibbles(p: u8)
    ensures
        p >> 4u8 == p / 16,
        p & 0x0Fu8 == p % 16,
{
    assert(p >> 4u8 == p / 16 && p & 0x0Fu8 == p % 16) by (bit_vector);
}

/// A wave position moves round its 64-step cycle.
proof fn lemma_wave_pos_wraps(pos: i32, speed: u8)
    requires
        0 <= pos < 64,
    ensures
        wave_pos(pos, speed) == (pos + speed) % 64,
{
    let q = (pos + speed) as i32;
    assert(q == pos + speed);
    assert(q & 63i32 == q % 64) by (bit_vector)
        requires
            q >= 0,
    ;
}

/// A note in a cell restarts the channel from the top of its sample,
/// with both waves back at their start, unless the cell slides towards
/// it (`3xx`, `5xy`) or starts part-way in (`9xx`); a slide leaves the
/// playing note alone and only aims at the new one.
pub proof fn lemma_notes_restart_the_channel(v: Voice, n: Note, samples: Seq<Sample>)
    requires
        n.period > 0,
    ensures
        ({
            let (t, pitch) = triggered(v, n, samples);
            &&& pitch.note matches Some(ns) && ns.period == n.period
            &&& (n.effect != 0x03 && n.effect != 0x05 && n.effect != 0x09) ==> (t.pos == 0
                && t.active && t.vibrato_pos == 0 && t.tremolo_pos == 0 && !pitch.towards)
            &&& (n.effect == 0x03 || n.effect == 0x05) ==> (t.pos == v.pos && t.active
                == v.active && t.vibrato_pos == v.vibrato_pos && t.tremolo_pos == v.tremolo_pos
                && pitch.towards)
        }),
{
}

/// A sample number `k` in a cell selects sample `k - 1` and resets the
/// channel to that sample's volume (unless the cell's own effect sets the
/// volume); without one the channel keeps its sample. A cell without a
/// note leaves the pitch alone.
pub proof fn lemma_sample_numbers_select_samples(v: Voice, n: Note, samples: Seq<Sample>)
    ensures
        ({
            let (t, pitch) = triggered(v, n, samples);
            &&& (1 <= n.sample <= samples.len()) ==> t.sample == n.sample - 1
            &&& (1 <= n.sample <= samples.len() && n.effect != 0x0C && n.effect != 0x0E)
                ==> t.volume == samples[n.sample - 1].volume
            &&& n.sample == 0 ==> t.sample == v.sample
            &&& n.period == 0 ==> pitch.note is None
        }),
{
}

/// The volume effects of a row's start: `Cxx` sets the volume to `xx`,
/// at most full volume; `EAx` and `EBx` raise or lower it by `x`, never
/// past full volume or silence; `9xx` starts the sample `xx * 256`
/// bytes in (16.16 fixed point).
pub proof fn lemma_row_start_volume_and_offset(v: Voice, n: Note, samples: Seq<Sample>)
    requires
        voice_ok(v),
        n.sample == 0,
    ensures
        ({
            let (t, _) = triggered(v, n, samples);
            let x = n.param % 16;
            &&& n.effect == 0x0C ==> t.volume == if n.param < 64 { n.param as int } else { 64 }
            &&& (n.effect == 0x0E && n.param / 16 == 0x0A) ==> t.volume == if v.volume + x < 64 {
                v.volume + x
            } else {
                64
            }
            &&& (n.effect == 0x0E && n.param / 16 == 0x0B) ==> t.volume == if v.volume - x > 0 {
                v.volume - x
            } else {
                0
            }
            &&& n.effect == 0x09 ==> t.pos == n.param * 256 * 65536
            &&& (n.effect != 0x0C && n.effect != 0x0E) ==> t.volume == v.volume
        }),
{
    lemma_nibbles(n.param);
}

/// What a row's start remembers for later ticks: `4xy` and `7xy` take a
/// new speed `x` and depth `y` for vibrato and tremolo, each only where
/// it is not zero; `5xy`, `6xy` and `Axy` keep their parameter for the
/// volume slide; `3xx` takes a new portamento speed where `xx` is not
/// zero; `E1x` / `E2x` move the period down or up by `x` once.
pub proof fn lemma_row_start_remembers(v: Voice, n: Note, samples: Seq<Sample>)
    ensures
        ({
            let (t, pitch) = triggered(v, n, samples);
            let x = (n.param / 16) as u8;
            let y = (n.param % 16) as u8;
            &&& n.effect == 0x04 ==> (t.vibrato_speed == if x != 0 { x } else { v.vibrato_speed }
                && t.vibrato_depth == if y != 0 { y } else { v.vibrato_depth })
            &&& n.effect != 0x04 ==> (t.vibrato_speed == v.vibrato_speed && t.vibrato_depth
                == v.vibrato_depth)
            &&& n.effect == 0x07 ==> (t.tremolo_speed == if x != 0 { x } else { v.tremolo_speed }
                && t.tremolo_depth == if y != 0 { y } else { v.tremolo_depth })
            &&& n.effect != 0x07 ==> (t.tremolo_speed == v.tremolo_speed && t.tremolo_depth
                == v.tremolo_depth)
            &&& t.slide == if n.effect == 0x05 || n.effect == 0x06 || n.effect == 0x0A {
                n.param
            } else {
                v.slide
            }
            &&& pitch.towards == (n.effect == 0x03 || n.effect == 0x05)
            &&& pitch.porta_speed == if n.effect == 0x03 && n.param != 0 {
                Some(n.param)
            } else {
                None
            }
            &&& pitch.fine == if n.effect == 0x0E && x == 1 {
                Fine::Down(y)
            } else if n.effect == 0x0E && x == 2 {
                Fine::Up(y)
            } else {
                Fine::Keep
            }
        }),
{
    lemma_nibbles(n.param);
}

/// Tick 0 belongs to the row's start: a later tick's effects do
/// nothing there.
pub proof fn lemma_tick_zero_is_the_row_start(v: Voice, n: Note)
    ensures
        ticked(v, n, 0) == (v, PitchMove::Unchanged),
{
}

/// The pitch effects of later ticks: `0xy` cycles root, `+x`, `+y`
/// semitones; `1xx` / `2xx` slide the period down or up by `xx` each
/// tick; `3xx` and `5xy` move it towards the target. None of them
/// touches the channel, but for `5xy`'s volume slide.
pub proof fn lemma_pitch_effects_per_tick(v: Voice, n: Note, tick: u32)
    requires
        tick > 0,
    ensures
        ({
            let (t, mv) = ticked(v, n, tick);
            &&& (n.effect == 0x00 && n.param != 0) ==> (t == v && mv == PitchMove::Arpeggio(
                if tick % 3 == 0 {
                    0u8
                } else if tick % 3 == 1 {
                    (n.param / 16) as u8
                } else {
                    (n.param % 16) as u8
                },
            ))
            &&& n.effect == 0x01 ==> (t == v && mv == PitchMove::SlideDown(n.param))
            &&& n.effect == 0x02 ==> (t == v && mv == PitchMove::SlideUp(n.param))
            &&& n.effect == 0x03 ==> (t == v && mv == PitchMove::Porta)
            &&& n.effect == 0x05 ==> mv == PitchMove::Porta
        }),
{
    lemma_nibbles(n.param);
}

/// A volume slide tick (`Axy`, and the slide half of `5xy` / `6xy`),
/// with slide parameter `xy`: up by `x` if it is not zero, else down by
/// `y`, never past full volume or silence.
pub proof fn lemma_volume_slide_ticks(v: Voice, n: Note, tick: u32)
    requires
        voice_ok(v),
        tick > 0,
        n.effect == 0x0A || n.effect == 0x05 || n.effect == 0x06,
    ensures
        ({
            let (t, _) = ticked(v, n, tick);
            let x = v.slide / 16;
            let y = v.slide % 16;
            &&& x > 0 ==> t.volume == if v.volume + x < 64 { v.volume + x } else { 64 }
            &&& (x == 0 && y > 0) ==> t.volume == if v.volume - y > 0 { v.volume - y } else { 0 }
            &&& (x == 0 && y == 0) ==> t.volume == v.volume
            &&& n.effect == 0x0A ==> t == Voice { volume: t.volume, ..v }
        }),
{
    lemma_nibbles(v.slide);
}

/// `E9x` restarts the sample on every tick that is a multiple of `x`
/// (never for `x` zero); `ECx` silences the channel at tick `x`.
pub proof fn lemma_retrigger_and_cut(v: Voice, n: Note, tick: u32)
    requires
        tick > 0,
        n.effect == 0x0E,
    ensures
        ({
            let (t, mv) = ticked(v, n, tick);
            let x = n.param % 16;
            &&& mv == PitchMove::Unchanged
            &&& n.param / 16 == 0x09 ==> t == if x > 0 && tick % (x as u32) == 0 {
                Voice { pos: 0, ..v }
            } else {
                v
            }
            &&& n.param / 16 == 0x0C ==> t == if tick == x {
                Voice { volume: 0, ..v }
            } else {
                v
            }
        }),
{
    lemma_nibbles(n.param);
}

/// Vibrato (`4xy`, `6xy`) and tremolo (`7xy`) ticks step their wave
/// along its 64-step cycle by the remembered speed; tremolo keeps the
/// volume within silence and full volume, and vibrato leaves it alone
/// (but for `6xy`'s slide).
pub proof fn lemma_waves_step_round_their_cycle(v: Voice, n: Note, tick: u32)
    requires
        voice_ok(v),
        tick > 0,
    ensures
        ({
            let (t, mv) = ticked(v, n, tick);
            &&& n.effect == 0x04 ==> (t == Voice {
                vibrato_pos: ((v.vibrato_pos + v.vibrato_speed) % 64) as i32,
                ..v
            } && mv == PitchMove::Vibrato(wave(v.vibrato_pos, v.vibrato_depth, 128) as i32))
            &&& n.effect == 0x07 ==> (t.tremolo_pos == (v.tremolo_pos + v.tremolo_speed) % 64
                && 0 <= t.volume <= 64 && mv == PitchMove::Unchanged)
        }),
{
    lemma_wave_pos_wraps(v.vibrato_pos, v.vibrato_speed);
    lemma_wave_pos_wraps(v.tremolo_pos, v.tremolo_speed);
}

/// The second half of a wave's cycle mirrors the first.
pub proof fn lemma_wave_second_half_mirrors_first(pos: i32, depth: u8, scale: int)
    requires
        0 <= pos < 32,
    ensures
        wave((pos + 32) as i32, depth, scale) == -wave(pos, depth, scale),
{
    let q = (pos + 32) as i32;
    assert(q & 31i32 == pos & 31i32 && q & 32i32 != 0 && pos & 32i32 == 0) by (bit_vector)
        requires
            0 <= pos < 32,
            q == pos + 32,
    ;
}

} // verus!
