use pockethle::dispatch::{Handler, WinCeDispatcher};
use pockethle::hss::{
    module_clip, ok_reply, this_returning, GuestFormat, MODULE_RATE, HssFn, HssState, OkReply, HSS_MAX_VOLUME,
    HSS_MUSIC_GROUP, HSS_SOUND_GROUP,
};

fn stereo() -> GuestFormat {
    GuestFormat { sample_rate: 22_050, channels: 2, bits_per_sample: 16 }
}

#[test]
fn loading_the_same_file_twice_decodes_it_once() {
    let mut s = HssState::new();
    assert_eq!(s.cached("\\Game\\song.tkm"), None);
    assert_eq!(s.load_clip(0x1111, "\\Game\\song.tkm", Some((stereo(), vec![1, -1]))), 1);
    assert_eq!(s.cached("\\Game\\song.tkm"), Some(0));
    // The second load ignores any fresh decode and reuses the first.
    assert_eq!(s.load_clip(0x2222, "\\Game\\song.tkm", None), 1);
    assert_eq!(s.decoded.len(), 1);
    let a = s.play(0x1111, HSS_MUSIC_GROUP).unwrap();
    let b = s.play(0x2222, HSS_MUSIC_GROUP).unwrap();
    assert_eq!(a.decoded, b.decoded);
    assert_eq!(s.decoded[a.decoded].samples, vec![1, -1]);
}

#[test]
fn an_undecodable_file_fails_the_load() {
    let mut s = HssState::new();
    assert_eq!(s.load_clip(0x1111, "missing.wav", None), 0);
    assert_eq!(s.load_clip(0, "missing.wav", Some((stereo(), vec![0]))), 0);
    assert_eq!(s.cached("missing.wav"), None);
    assert!(s.play(0x1111, HSS_SOUND_GROUP).is_none());
    assert_eq!(s.decoded.len(), 0);
}

#[test]
fn volumes_are_capped_and_read_back() {
    let mut s = HssState::new();
    assert_eq!(s.sound_volume(), HSS_MAX_VOLUME);
    s.set_sound_volume(20);
    s.set_music_volume(500);
    assert_eq!(s.sound_volume(), 20);
    assert_eq!(s.music_volume(), 64);
    s.load_clip(7, "a.wav", Some((stereo(), vec![0])));
    assert_eq!(s.clip_volume(7), 64);
    s.set_clip_volume(7, 33);
    assert_eq!(s.clip_volume(7), 33);
    s.set_clip_volume(7, 99);
    assert_eq!(s.clip_volume(7), 64);
    // A clip that never loaded reads as full volume.
    assert_eq!(s.clip_volume(8), 64);
}

#[test]
fn play_combines_the_clip_and_the_master_volume_of_its_group() {
    let mut s = HssState::new();
    s.load_clip(7, "a.wav", Some((stereo(), vec![0])));
    s.set_loop(7, 1);
    s.set_clip_volume(7, 32);
    s.set_sound_volume(16);
    let p = s.play(7, HSS_SOUND_GROUP).unwrap();
    assert!(p.looped);
    assert_eq!((p.clip_volume, p.master_volume), (32, 16));
    assert!(!p.stop_group_first);
    let m = s.play(7, HSS_MUSIC_GROUP).unwrap();
    assert_eq!(m.master_volume, 64);
    assert!(m.stop_group_first, "a new music replaces the current one");
}

#[test]
fn the_speaker_adopts_the_format_the_guest_asks_for() {
    let mut s = HssState::new();
    let f = s.open_speaker(0, 8, 0);
    assert_eq!(f, GuestFormat { sample_rate: 22_050, channels: 1, bits_per_sample: 8 });
    let f = s.open_speaker(44_100, 16, 1);
    assert_eq!(f, GuestFormat { sample_rate: 44_100, channels: 2, bits_per_sample: 16 });
    assert!(s.opened);
    assert_eq!(s.format, f);
}

#[test]
fn stateless_stubs_answer_by_name() {
    assert_eq!(ok_reply("?channel@hssSpeaker@@QAAPAVhssChannel@@H@Z"), OkReply::AllocChannel);
    assert_eq!(ok_reply("?playing@hssChannel@@QAA_NXZ"), OkReply::Value(0));
    assert_eq!(ok_reply("?frequency@hssChannel@@QAAXI@Z"), OkReply::Value(0));
    assert_eq!(ok_reply("?bufferLength@hssSpeaker@@QAAHH@Z"), OkReply::Value(4096));
    assert_eq!(ok_reply("?stop@hssChannel@@QAAXXZ"), OkReply::Value(1));
    assert_eq!(this_returning(0xCAFE), 0xCAFE);
}

#[test]
fn every_hss_export_is_registered() {
    let d = WinCeDispatcher::new();
    assert_eq!(
        d.lookup("hss.dll", "?load@hssMusic@@QAAHPBG@Z"),
        Some(Handler::Hss(HssFn::LoadMusic))
    );
    assert_eq!(
        d.lookup("hss.dll", "??0hssSound@@QAA@XZ"),
        Some(Handler::Hss(HssFn::ThisReturning))
    );
    assert_eq!(
        d.lookup("hss.dll", "?volumeMusics@hssSpeaker@@QAAIXZ"),
        Some(Handler::Hss(HssFn::GetMusicVolume))
    );
    assert_eq!(d.registered().iter().filter(|(dll, _)| dll == "hss.dll").count(), 34);
}

#[test]
fn a_rendered_module_is_a_stereo_clip_unless_it_is_silent_nothing() {
    assert_eq!(module_clip(Vec::new()), None);
    assert_eq!(
        module_clip(vec![3, -3]),
        Some((GuestFormat { sample_rate: MODULE_RATE, channels: 2, bits_per_sample: 16 }, vec![3, -3]))
    );
}

#[test]
fn a_second_load_shares_the_decode_whatever_the_cache_held() {
    let mut s = HssState::new();
    assert_eq!(s.load_clip(0x10, "a.wav", Some((stereo(), vec![5]))), 1);
    assert_eq!(s.load_clip(0x11, "b.tkm", Some((stereo(), vec![6, 7]))), 1);
    assert_eq!(s.load_clip(0x1111, "b.tkm", None), 1);
    assert_eq!(s.load_clip(0x2222, "b.tkm", None), 1);
    assert_eq!(s.decoded.len(), 2);
    let a = s.play(0x1111, HSS_MUSIC_GROUP).unwrap();
    let b = s.play(0x2222, HSS_MUSIC_GROUP).unwrap();
    assert_eq!(a.decoded, 1);
    assert_eq!(b.decoded, 1);
}
