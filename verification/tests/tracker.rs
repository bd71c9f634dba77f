use pockethle::tracker::effects::{
    tick_voice, tremolo, trigger_voice, vibrato, volume_slide, Fine, NoteStart, PitchChange, PitchMove,
    Voice,
};
use pockethle::tracker::song::{RowPlan, Sequencer};
use pockethle::tracker::{Module, Note, ORDER_LEN, SAMPLES};

fn tiny_module() -> Vec<u8> {
    let order_off = 20 + SAMPLES * 30;
    let magic_off = order_off + 2 + ORDER_LEN;
    let mut m = vec![0u8; magic_off + 4];
    m[0..4].copy_from_slice(b"tiny");
    m[20 + 22..20 + 24].copy_from_slice(&16u16.to_be_bytes());
    m[20 + 25] = 64;
    m[20 + 29] = 1;
    m[order_off] = 1;
    m[order_off + 2] = 0;
    m[magic_off..magic_off + 4].copy_from_slice(b"M.K.");
    let mut pattern = vec![0u8; 64 * 4 * 4];
    pattern[0] = (428u16 >> 8) as u8;
    pattern[1] = (428u16 & 0xFF) as u8;
    pattern[2] = 0x10;
    m.extend_from_slice(&pattern);
    m.extend((0..32).map(|i| if i < 16 { 100u8 } else { 156u8 }));
    m
}

#[test]
fn a_protracker_module_parses_its_header() {
    let m = Module::parse(&tiny_module()).expect("tiny module should parse");
    assert_eq!(m.title, "tiny");
    assert_eq!(m.channels, 4);
    assert_eq!(m.song_len, 1);
    assert_eq!(m.patterns.len(), 1);
    assert_eq!(m.samples[0].data.len(), 32);
    assert_eq!(m.samples[0].volume, 64);
    assert_eq!(m.patterns[0][0].period, 428);
    assert_eq!(m.patterns[0][0].sample, 1);
}

#[test]
fn a_file_without_the_magic_is_not_a_module() {
    assert!(Module::parse(&[0u8; 2048]).is_none());
    assert!(Module::parse(b"RIFF\0\0\0\0WAVEfmt ").is_none());
    let mut wrong = tiny_module();
    let magic_off = 20 + SAMPLES * 30 + 2 + ORDER_LEN;
    wrong[magic_off..magic_off + 4].copy_from_slice(b"XXXX");
    assert!(Module::parse(&wrong).is_none());
}

#[test]
fn samples_are_signed_and_truncated_cells_read_as_empty() {
    let m = Module::parse(&tiny_module()).unwrap();
    assert_eq!(m.samples.len(), SAMPLES);
    assert_eq!(m.samples[0].data[0], 100);
    assert_eq!(m.samples[0].data[16], 156u8 as i8);
    // A loop length of one word means "no loop".
    assert_eq!(m.samples[0].loop_len, 0);
    assert_eq!(m.samples[1].data.len(), 0);
    // Cut the file inside the pattern: the missing cells read as empty.
    let mut cut = tiny_module();
    cut.truncate(20 + SAMPLES * 30 + 2 + ORDER_LEN + 4 + 8);
    let m = Module::parse(&cut).unwrap();
    assert_eq!(m.patterns[0].len(), 64 * 4);
    assert_eq!(m.patterns[0][0].period, 428);
    assert_eq!(m.patterns[0][5].period, 0);
    assert_eq!(m.samples[0].data.len(), 0);
}

#[test]
fn eight_channel_magics_and_finetune_sign_are_read() {
    let mut m8 = tiny_module();
    let magic_off = 20 + SAMPLES * 30 + 2 + ORDER_LEN;
    m8[magic_off..magic_off + 4].copy_from_slice(b"8CHN");
    m8[20 + 24] = 0x0F;
    m8[20 + 25] = 200;
    let m = Module::parse(&m8).unwrap();
    assert_eq!(m.channels, 8);
    assert_eq!(m.patterns[0].len(), 64 * 8);
    assert_eq!(m.samples[0].finetune, -1);
    assert_eq!(m.samples[0].volume, 64);
}

#[test]
fn a_valid_loop_is_kept_and_the_title_is_trimmed() {
    let mut bytes = tiny_module();
    bytes[0..20].copy_from_slice(b"  song title \0\0\0\0\0\0\0");
    // Loop start 2 words, length 4 words: fits in the 32 bytes.
    bytes[20 + 26..20 + 28].copy_from_slice(&2u16.to_be_bytes());
    bytes[20 + 28..20 + 30].copy_from_slice(&4u16.to_be_bytes());
    let order_off = 20 + SAMPLES * 30;
    bytes[order_off] = 200;
    let m = Module::parse(&bytes).unwrap();
    assert_eq!(m.title, "song title");
    assert_eq!(m.samples[0].loop_start, 4);
    assert_eq!(m.samples[0].loop_len, 8);
    assert_eq!(m.song_len, ORDER_LEN);
    assert_eq!(m.order.len(), ORDER_LEN);
}

#[test]
fn a_song_plays_each_row_once_then_ends() {
    let m = Module::parse(&tiny_module()).unwrap();
    let mut seq = Sequencer::new();
    for row in 0..64 {
        let plan = seq.next_row(&m).expect("the pattern still has rows");
        assert_eq!(plan, RowPlan { pattern: 0, row, ticks: 6, bpm: 125 });
    }
    assert_eq!(seq.next_row(&m), None);
    assert_eq!(seq.next_row(&m), None);
}

#[test]
fn a_looping_order_table_still_terminates() {
    let mut bytes = tiny_module();
    let order_off = 20 + SAMPLES * 30;
    bytes[order_off] = 4;
    let patterns_off = order_off + 2 + ORDER_LEN + 4;
    bytes[patterns_off + 2] = 0x1B;
    bytes[patterns_off + 3] = 0x00;
    let m = Module::parse(&bytes).unwrap();
    let mut seq = Sequencer::new();
    assert_eq!(seq.next_row(&m), Some(RowPlan { pattern: 0, row: 0, ticks: 6, bpm: 125 }));
    assert_eq!(seq.next_row(&m), Some(RowPlan { pattern: 0, row: 0, ticks: 6, bpm: 125 }));
    assert_eq!(seq.next_row(&m), None);
}

#[test]
fn speed_tempo_delay_and_pattern_break_shape_the_rows() {
    let mut bytes = tiny_module();
    let order_off = 20 + SAMPLES * 30;
    bytes[order_off] = 2;
    let cell = |ch: usize| order_off + 2 + ORDER_LEN + 4 + ch * 4;
    // Channel 1: F03, speed 3. Channel 2: F80, 128 bpm. Channel 3: EE2,
    // the row lasts three times as long.
    bytes[cell(1) + 2] = 0x0F;
    bytes[cell(1) + 3] = 0x03;
    bytes[cell(2) + 2] = 0x0F;
    bytes[cell(2) + 3] = 0x80;
    bytes[cell(3) + 2] = 0x0E;
    bytes[cell(3) + 3] = 0xE2;
    // Row 1, channel 0: D12, on to row 12 of the next order entry.
    bytes[cell(4) + 2] = 0x0D;
    bytes[cell(4) + 3] = 0x12;
    let m = Module::parse(&bytes).unwrap();
    let mut seq = Sequencer::new();
    assert_eq!(seq.next_row(&m), Some(RowPlan { pattern: 0, row: 0, ticks: 9, bpm: 128 }));
    assert_eq!(seq.next_row(&m), Some(RowPlan { pattern: 0, row: 1, ticks: 3, bpm: 128 }));
    assert_eq!(seq.next_row(&m), Some(RowPlan { pattern: 0, row: 12, ticks: 3, bpm: 128 }));
}

#[test]
fn f00_ends_the_song_at_once() {
    let mut bytes = tiny_module();
    let patterns_off = 20 + SAMPLES * 30 + 2 + ORDER_LEN + 4;
    bytes[patterns_off + 4 * 4 + 2] = 0x0F;
    bytes[patterns_off + 4 * 4 + 3] = 0x00;
    let m = Module::parse(&bytes).unwrap();
    let mut seq = Sequencer::new();
    assert!(seq.next_row(&m).is_some());
    assert_eq!(seq.next_row(&m), None);
}

#[test]
fn volume_slides_stop_at_silence_and_full_volume() {
    assert_eq!(volume_slide(60, 0x80), 64);
    assert_eq!(volume_slide(20, 0x30), 23);
    assert_eq!(volume_slide(3, 0x05), 0);
    assert_eq!(volume_slide(20, 0x05), 15);
    assert_eq!(volume_slide(10, 0x00), 10);
}

#[test]
fn tremolo_and_vibrato_follow_the_sine_table() {
    // sine[8] = 180: 180 * 15 / 64 = 42, clipped at full volume.
    assert_eq!(tremolo(32, 8, 4, 15), (64, 12));
    // The second half of the cycle is the negated table.
    assert_eq!(tremolo(32, 40, 4, 4), (21, 44));
    // sine[16] = 255: 255 * 8 / 128 = 15.
    assert_eq!(vibrato(16, 2, 8), (15, 18));
    assert_eq!(vibrato(48, 16, 8), (-15, 0));
}

fn cell(period: u16, sample: u8, effect: u8, param: u8) -> Note {
    Note { period, sample, effect, param }
}

#[test]
fn a_note_restarts_its_sample_at_the_sample_volume() {
    let m = Module::parse(&tiny_module()).unwrap();
    let mut v = Voice::default();
    let pitch = trigger_voice(&mut v, cell(428, 1, 0, 0), &m.samples);
    assert_eq!(v.sample, 0);
    assert_eq!(v.volume, 64);
    assert!(v.active);
    assert_eq!(v.pos, 0);
    assert_eq!(
        pitch,
        PitchChange {
            note: Some(NoteStart { period: 428, finetune: 0 }),
            towards: false,
            porta_speed: None,
            fine: Fine::Keep,
        }
    );
    // Sample 31 is an empty slot at volume zero.
    let mut w = v;
    w.volume = 10;
    trigger_voice(&mut w, cell(0, 31, 0, 0), &m.samples);
    assert_eq!(w.volume, 0);
    assert_eq!(w.sample, 30);
}

#[test]
fn row_effects_set_offset_volume_and_slides() {
    let m = Module::parse(&tiny_module()).unwrap();
    let mut v = Voice::default();
    trigger_voice(&mut v, cell(428, 1, 0x09, 2), &m.samples);
    assert_eq!(v.pos, (2 * 256) << 16);
    trigger_voice(&mut v, cell(0, 0, 0x0C, 80), &m.samples);
    assert_eq!(v.volume, 64);
    trigger_voice(&mut v, cell(0, 0, 0x0E, 0xB5), &m.samples);
    assert_eq!(v.volume, 59);
    trigger_voice(&mut v, cell(0, 0, 0x0E, 0xA9), &m.samples);
    assert_eq!(v.volume, 64);
    let pitch = trigger_voice(&mut v, cell(300, 0, 0x03, 0x10), &m.samples);
    assert!(pitch.towards);
    assert_eq!(pitch.porta_speed, Some(0x10));
    assert_eq!(v.pos, (2 * 256) << 16, "a slide target does not restart the sample");
    let pitch = trigger_voice(&mut v, cell(0, 0, 0x0E, 0x13), &m.samples);
    assert_eq!(pitch.fine, Fine::Down(3));
    trigger_voice(&mut v, cell(0, 0, 0x0A, 0x02), &m.samples);
    assert_eq!(v.slide, 0x02);
}

#[test]
fn ticks_arpeggiate_slide_retrigger_and_cut() {
    let mut v = Voice { volume: 40, pos: 1234, ..Voice::default() };
    let arp = cell(0, 0, 0x00, 0x37);
    assert_eq!(tick_voice(&mut v, arp, 0), PitchMove::Unchanged);
    assert_eq!(tick_voice(&mut v, arp, 1), PitchMove::Arpeggio(3));
    assert_eq!(tick_voice(&mut v, arp, 2), PitchMove::Arpeggio(7));
    assert_eq!(tick_voice(&mut v, arp, 3), PitchMove::Arpeggio(0));
    assert_eq!(tick_voice(&mut v, cell(0, 0, 0x01, 4), 1), PitchMove::SlideDown(4));
    v.slide = 0x03;
    assert_eq!(tick_voice(&mut v, cell(0, 0, 0x0A, 0x03), 1), PitchMove::Reset);
    assert_eq!(v.volume, 37);
    assert_eq!(tick_voice(&mut v, cell(0, 0, 0x0E, 0x92), 3), PitchMove::Unchanged);
    assert_eq!(v.pos, 1234);
    tick_voice(&mut v, cell(0, 0, 0x0E, 0x92), 4);
    assert_eq!(v.pos, 0);
    tick_voice(&mut v, cell(0, 0, 0x0E, 0xC2), 2);
    assert_eq!(v.volume, 0);
    assert_eq!(tick_voice(&mut v, cell(0, 0, 0x08, 0), 1), PitchMove::Reset);
}

#[test]
fn vibrato_and_tremolo_ticks_move_along_the_wave() {
    let mut v = Voice { volume: 32, vibrato_speed: 2, vibrato_depth: 8, vibrato_pos: 16, ..Voice::default() };
    assert_eq!(tick_voice(&mut v, cell(0, 0, 0x04, 0), 1), PitchMove::Vibrato(15));
    assert_eq!(v.vibrato_pos, 18);
    v.tremolo_speed = 4;
    v.tremolo_depth = 4;
    v.tremolo_pos = 40;
    assert_eq!(tick_voice(&mut v, cell(0, 0, 0x07, 0), 1), PitchMove::Unchanged);
    assert_eq!((v.volume, v.tremolo_pos), (21, 44));
}
