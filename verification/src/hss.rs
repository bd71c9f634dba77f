//! Hekkus Sound System (`hss.dll`).
//!
//! HSS is a freeware C++ audio mixer bundled with a great many Pocket PC
//! games. Unlike `waveOut`, where the guest hands over PCM it has already
//! decoded, HSS games hand over a *filename* and expect the library to do
//! the decoding — PCM `.wav` for effects and Protracker modules for
//! music.
//!
//! The API is C++ methods, so every handler takes `this` in `r0`. The
//! guest-side object is opaque: all state is kept here, keyed by that
//! `this` pointer. This module decides what each call does to that
//! state and what it answers; reading guest memory and files, decoding,
//! and driving the audio engine are the front end's part.
use vstd::prelude::*;

use crate::dispatch::{table_view, with_entries, Handler, WinCeDispatcher};

verus! {

/// HSS volumes run 0..=64, like the tracker scale they came from.
pub const HSS_MAX_VOLUME: u32 = 64;

/// Voice group of sound effects in the audio engine.
pub const HSS_SOUND_GROUP: u32 = 1;

/// Voice group of music in the audio engine.
pub const HSS_MUSIC_GROUP: u32 = 2;

/// Rate modules are rendered at: what JumpyBall's `hssSpeaker::open`
/// requests.
pub const MODULE_RATE: u32 = 22_050;

/// Longest a module is rendered for, in seconds: long enough that every
/// module seen so far reaches its own end.
pub const MODULE_SECONDS: u32 = 360;

/// The PCM format a clip or the speaker runs at.
#[derive(Debug, Clone, Copy, PartialEq, Eq, Structural)]
pub struct GuestFormat {
    pub sample_rate: u32,
    pub channels: u16,
    pub bits_per_sample: u16,
}

/// The clip a rendered module makes: interleaved 16-bit stereo at
/// `MODULE_RATE`, or nothing if the render came out empty.
pub fn module_clip(samples: Vec<i16>) -> (r: Option<(GuestFormat, Vec<i16>)>)
    ensures
        samples@.len() == 0 <==> r is None,
        r matches Some((f, pcm)) ==> f == (GuestFormat { sample_rate: MODULE_RATE, channels: 2, bits_per_sample: 16 })
            && pcm@ == samples@,
{
    if samples.len() == 0 {
        return None;
    }
    Some((GuestFormat { sample_rate: MODULE_RATE, channels: 2, bits_per_sample: 16 }, samples))
}

/// The `hss.dll` exports answered here.
#[derive(Debug, Clone, Copy, PartialEq, Eq, Structural)]
pub enum HssFn {
    /// Constructors and destructors: return `this`.
    ThisReturning,
    LoadSound,
    LoadMusic,
    SetLoop,
    SetClipVolume,
    GetClipVolume,
    OpenSpeaker,
    PlaySound,
    PlayMusic,
    StopSounds,
    StopMusics,
    SetSoundVolume,
    SetMusicVolume,
    GetSoundVolume,
    GetMusicVolume,
    Pause,
    Unpause,
    /// The remaining surface, with no state behind it.
    Stub,
}

/// Every export and the routine that answers it, in registration order.
pub open spec fn entries() -> Seq<(Seq<char>, Handler)> {
    seq![
        ("??0hssSound@@QAA@XZ"@, Handler::Hss(HssFn::ThisReturning)),
        ("??0hssMusic@@QAA@XZ"@, Handler::Hss(HssFn::ThisReturning)),
        ("??0hssSpeaker@@QAA@XZ"@, Handler::Hss(HssFn::ThisReturning)),
        ("??1hssSound@@UAA@XZ"@, Handler::Hss(HssFn::ThisReturning)),
        ("??1hssMusic@@UAA@XZ"@, Handler::Hss(HssFn::ThisReturning)),
        ("??1hssSpeaker@@UAA@XZ"@, Handler::Hss(HssFn::ThisReturning)),
        ("?load@hssSound@@QAAHPBG@Z"@, Handler::Hss(HssFn::LoadSound)),
        ("?load@hssSound@@QAAHPAX_N@Z"@, Handler::Hss(HssFn::LoadSound)),
        ("?load@hssMusic@@QAAHPBG@Z"@, Handler::Hss(HssFn::LoadMusic)),
        ("?load@hssMusic@@QAAHPAX_N@Z"@, Handler::Hss(HssFn::LoadMusic)),
        ("?loop@hssSound@@QAAX_N@Z"@, Handler::Hss(HssFn::SetLoop)),
        ("?loop@hssMusic@@QAAX_N@Z"@, Handler::Hss(HssFn::SetLoop)),
        ("?volume@hssSound@@QAAXI@Z"@, Handler::Hss(HssFn::SetClipVolume)),
        ("?volume@hssMusic@@QAAXI@Z"@, Handler::Hss(HssFn::SetClipVolume)),
        ("?volume@hssSound@@QAAIXZ"@, Handler::Hss(HssFn::GetClipVolume)),
        ("?volume@hssMusic@@QAAIXZ"@, Handler::Hss(HssFn::GetClipVolume)),
        ("?open@hssSpeaker@@QAAHII_NII@Z"@, Handler::Hss(HssFn::OpenSpeaker)),
        ("?playSound@hssSpeaker@@QAAHPAVhssSound@@I@Z"@, Handler::Hss(HssFn::PlaySound)),
        ("?playMusic@hssSpeaker@@QAAHPAVhssMusic@@I@Z"@, Handler::Hss(HssFn::PlayMusic)),
        ("?stopSounds@hssSpeaker@@QAAXXZ"@, Handler::Hss(HssFn::StopSounds)),
        ("?stopMusics@hssSpeaker@@QAAXXZ"@, Handler::Hss(HssFn::StopMusics)),
        ("?volumeSounds@hssSpeaker@@QAAXI@Z"@, Handler::Hss(HssFn::SetSoundVolume)),
        ("?volumeMusics@hssSpeaker@@QAAXI@Z"@, Handler::Hss(HssFn::SetMusicVolume)),
        ("?volumeSounds@hssSpeaker@@QAAIXZ"@, Handler::Hss(HssFn::GetSoundVolume)),
        ("?volumeMusics@hssSpeaker@@QAAIXZ"@, Handler::Hss(HssFn::GetMusicVolume)),
        ("?pauseSounds@hssSpeaker@@QAAXXZ"@, Handler::Hss(HssFn::Pause)),
        ("?pauseMusics@hssSpeaker@@QAAXXZ"@, Handler::Hss(HssFn::Pause)),
        ("?unpauseSounds@hssSpeaker@@QAAXXZ"@, Handler::Hss(HssFn::Unpause)),
        ("?unpauseMusics@hssSpeaker@@QAAXXZ"@, Handler::Hss(HssFn::Unpause)),
        ("?bufferLength@hssSpeaker@@QAAHH@Z"@, Handler::Hss(HssFn::Stub)),
        ("?channel@hssSpeaker@@QAAPAVhssChannel@@H@Z"@, Handler::Hss(HssFn::Stub)),
        ("?frequency@hssChannel@@QAAXI@Z"@, Handler::Hss(HssFn::Stub)),
        ("?playing@hssChannel@@QAA_NXZ"@, Handler::Hss(HssFn::Stub)),
        ("?stop@hssChannel@@QAAXXZ"@, Handler::Hss(HssFn::Stub)),
    ]
}

/// Register every `hss.dll` export with its handler.
///
/// `load` takes the filename as `const wchar_t*` in one overload and as
/// `void*, bool` in the one that reads from memory; both reach the same
/// handler. The master volumes come in setter/getter pairs, and pause
/// maps onto the engine's global pause: there is no per-group pause.
pub fn register(d: &mut WinCeDispatcher)
    ensures
        final(d)@ == with_entries(old(d)@, "hss.dll"@, entries()),
{
    let mut t: Vec<(&str, Handler)> = Vec::new();
    t.push(("??0hssSound@@QAA@XZ", Handler::Hss(HssFn::ThisReturning)));
    t.push(("??0hssMusic@@QAA@XZ", Handler::Hss(HssFn::ThisReturning)));
    t.push(("??0hssSpeaker@@QAA@XZ", Handler::Hss(HssFn::ThisReturning)));
    t.push(("??1hssSound@@UAA@XZ", Handler::Hss(HssFn::ThisReturning)));
    t.push(("??1hssMusic@@UAA@XZ", Handler::Hss(HssFn::ThisReturning)));
    t.push(("??1hssSpeaker@@UAA@XZ", Handler::Hss(HssFn::ThisReturning)));
    t.push(("?load@hssSound@@QAAHPBG@Z", Handler::Hss(HssFn::LoadSound)));
    t.push(("?load@hssSound@@QAAHPAX_N@Z", Handler::Hss(HssFn::LoadSound)));
    t.push(("?load@hssMusic@@QAAHPBG@Z", Handler::Hss(HssFn::LoadMusic)));
    t.push(("?load@hssMusic@@QAAHPAX_N@Z", Handler::Hss(HssFn::LoadMusic)));
    t.push(("?loop@hssSound@@QAAX_N@Z", Handler::Hss(HssFn::SetLoop)));
    t.push(("?loop@hssMusic@@QAAX_N@Z", Handler::Hss(HssFn::SetLoop)));
    t.push(("?volume@hssSound@@QAAXI@Z", Handler::Hss(HssFn::SetClipVolume)));
    t.push(("?volume@hssMusic@@QAAXI@Z", Handler::Hss(HssFn::SetClipVolume)));
    t.push(("?volume@hssSound@@QAAIXZ", Handler::Hss(HssFn::GetClipVolume)));
    t.push(("?volume@hssMusic@@QAAIXZ", Handler::Hss(HssFn::GetClipVolume)));
    t.push(("?open@hssSpeaker@@QAAHII_NII@Z", Handler::Hss(HssFn::OpenSpeaker)));
    t.push(("?playSound@hssSpeaker@@QAAHPAVhssSound@@I@Z", Handler::Hss(HssFn::PlaySound)));
    t.push(("?playMusic@hssSpeaker@@QAAHPAVhssMusic@@I@Z", Handler::Hss(HssFn::PlayMusic)));
    t.push(("?stopSounds@hssSpeaker@@QAAXXZ", Handler::Hss(HssFn::StopSounds)));
    t.push(("?stopMusics@hssSpeaker@@QAAXXZ", Handler::Hss(HssFn::StopMusics)));
    t.push(("?volumeSounds@hssSpeaker@@QAAXI@Z", Handler::Hss(HssFn::SetSoundVolume)));
    t.push(("?volumeMusics@hssSpeaker@@QAAXI@Z", Handler::Hss(HssFn::SetMusicVolume)));
    t.push(("?volumeSounds@hssSpeaker@@QAAIXZ", Handler::Hss(HssFn::GetSoundVolume)));
    t.push(("?volumeMusics@hssSpeaker@@QAAIXZ", Handler::Hss(HssFn::GetMusicVolume)));
    t.push(("?pauseSounds@hssSpeaker@@QAAXXZ", Handler::Hss(HssFn::Pause)));
    t.push(("?pauseMusics@hssSpeaker@@QAAXXZ", Handler::Hss(HssFn::Pause)));
    t.push(("?unpauseSounds@hssSpeaker@@QAAXXZ", Handler::Hss(HssFn::Unpause)));
    t.push(("?unpauseMusics@hssSpeaker@@QAAXXZ", Handler::Hss(HssFn::Unpause)));
    t.push(("?bufferLength@hssSpeaker@@QAAHH@Z", Handler::Hss(HssFn::Stub)));
    t.push(("?channel@hssSpeaker@@QAAPAVhssChannel@@H@Z", Handler::Hss(HssFn::Stub)));
    t.push(("?frequency@hssChannel@@QAAXI@Z", Handler::Hss(HssFn::Stub)));
    t.push(("?playing@hssChannel@@QAA_NXZ", Handler::Hss(HssFn::Stub)));
    t.push(("?stop@hssChannel@@QAAXXZ", Handler::Hss(HssFn::Stub)));
    assert(table_view(t@) =~= entries());
    d.register_all("hss.dll", &t);
}

/// A decoded file, shared by every clip loaded from it.
pub struct Decoded {
    pub path: String,
    pub format: GuestFormat,
    pub samples: Vec<i16>,
}

/// One loaded `hssSound` / `hssMusic`.
#[derive(Debug, Clone, Copy, PartialEq, Eq, Structural)]
pub struct HssClip {
    /// Which decoded file it plays: an index into `HssState::decoded`.
    pub decoded: usize,
    pub format: GuestFormat,
    pub looped: bool,
    pub volume: u32,
}

/// The HSS state the guest's objects stand for.
pub struct HssState {
    /// Every file decoded so far, by path. A game re-loads the same file
    /// into a fresh object whenever it changes level, and decoding a
    /// module is expensive, so each path is decoded once.
    pub decoded: Vec<Decoded>,
    /// Clips by their `this` pointer; a later entry for the same pointer
    /// replaces an earlier one.
    pub clips: Vec<(u32, HssClip)>,
    pub format: GuestFormat,
    pub opened: bool,
    pub sound_volume: u32,
    pub music_volume: u32,
}

/// The HSS state as values: the decode cache by path, the clips, the
/// speaker format and the two master volumes.
pub struct HssView {
    pub paths: Seq<Seq<char>>,
    pub clips: Seq<(u32, HssClip)>,
    pub format: GuestFormat,
    pub opened: bool,
    pub sound_volume: u32,
    pub music_volume: u32,
}

impl View for HssState {
    type V = HssView;

    open spec fn view(&self) -> HssView {
        HssView {
            paths: self.decoded@.map_values(|d: Decoded| d.path@),
            clips: self.clips@,
            format: self.format,
            opened: self.opened,
            sound_volume: self.sound_volume,
            music_volume: self.music_volume,
        }
    }
}

/// Index of the last of the first `n` clips bound to `this`.
pub open spec fn clip_pos(clips: Seq<(u32, HssClip)>, this: u32, n: nat) -> Option<int>
    decreases n,
{
    if n == 0 {
        None
    } else if clips[n - 1].0 == this {
        Some(n - 1)
    } else {
        clip_pos(clips, this, (n - 1) as nat)
    }
}

/// The clip `this` stands for, if one was loaded into it.
pub open spec fn clip_of(s: HssView, this: u32) -> Option<HssClip> {
    match clip_pos(s.clips, this, s.clips.len()) {
        Some(i) => Some(s.clips[i].1),
        None => None,
    }
}

/// Index of the first cached decode of `path`.
pub open spec fn path_pos(paths: Seq<Seq<char>>, path: Seq<char>, n: nat) -> Option<int>
    decreases n,
{
    if n == 0 {
        None
    } else {
        match path_pos(paths, path, (n - 1) as nat) {
            Some(i) => Some(i),
            None => if paths[n - 1] == path {
                Some(n - 1)
            } else {
                None
            },
        }
    }
}

/// `s` with `this` bound to `clip`.
pub open spec fn bound(s: HssView, this: u32, clip: HssClip) -> HssView {
    HssView { clips: s.clips.push((this, clip)), ..s }
}

/// `s` with the clip `this` stands for replaced by `clip`.
pub open spec fn clip_replaced(s: HssView, this: u32, clip: HssClip) -> HssView {
    match clip_pos(s.clips, this, s.clips.len()) {
        Some(i) => HssView { clips: s.clips.update(i, (this, clip)), ..s },
        None => s,
    }
}

/// The format of every cached decode, in cache order.
pub open spec fn formats_of(d: Seq<Decoded>) -> Seq<GuestFormat> {
    d.map_values(|e: Decoded| e.format)
}

/// One load of `path` into `this`, over the state, the cached decodes'
/// formats, and the format of what the file freshly decoded to (`None`
/// for a file missing or unrecognised): the state after it, the formats
/// after it, and the answer. A null `this` loads nothing; a cached path
/// binds `this` to its decode whatever the file holds now; otherwise a
/// fresh decode is cached and bound.
pub open spec fn load_step(
    s: HssView,
    formats: Seq<GuestFormat>,
    this: u32,
    path: Seq<char>,
    fresh: Option<GuestFormat>,
) -> (HssView, Seq<GuestFormat>, u32) {
    if this == 0 {
        (s, formats, 0)
    } else {
        match path_pos(s.paths, path, s.paths.len()) {
            Some(i) => (bound(s, this, fresh_clip(i, formats[i])), formats, 1),
            None => match fresh {
                None => (s, formats, 0),
                Some(f) => (
                    bound(
                        HssView { paths: s.paths.push(path), ..s },
                        this,
                        fresh_clip(s.paths.len() as int, f),
                    ),
                    formats.push(f),
                    1,
                ),
            },
        }
    }
}

/// `v` capped at `HSS_MAX_VOLUME`.
pub open spec fn capped(v: u32) -> u32 {
    if v < HSS_MAX_VOLUME {
        v
    } else {
        HSS_MAX_VOLUME
    }
}

/// A fresh clip over the decoded file at `index`: not looping, full
/// volume.
pub open spec fn fresh_clip(index: int, format: GuestFormat) -> HssClip {
    HssClip { decoded: index as usize, format, looped: false, volume: HSS_MAX_VOLUME }
}

/// The format `hssSpeaker::open` asks for: a zero rate means the
/// 22050 Hz default, any bit depth but 8 means 16.
pub open spec fn speaker_format(rate: u32, bits: u32, stereo: u32) -> GuestFormat {
    GuestFormat {
        sample_rate: if rate == 0 {
            22_050
        } else {
            rate
        },
        channels: if stereo != 0 {
            2
        } else {
            1
        },
        bits_per_sample: if bits == 8 {
            8
        } else {
            16
        },
    }
}

/// What `play` asks the audio engine for.
#[derive(Debug, Clone, Copy, PartialEq, Eq, Structural)]
pub struct PlayRequest {
    /// Which decoded file to play.
    pub decoded: usize,
    pub format: GuestFormat,
    pub looped: bool,
    pub group: u32,
    /// The two gains that multiply on a device: the clip's own volume
    /// and the speaker's master volume for the group, each out of
    /// `HSS_MAX_VOLUME`.
    pub clip_volume: u32,
    pub master_volume: u32,
    /// Stop the group's voices first: HSS plays one music at a time, so
    /// starting a new one replaces the current track.
    pub stop_group_first: bool,
}

/// What `play(clip_this, group)` asks for, or `None` for a clip that
/// never loaded.
pub open spec fn play_request(s: HssView, clip_this: u32, group: u32) -> Option<PlayRequest> {
    match clip_of(s, clip_this) {
        None => None,
        Some(c) => Some(
            PlayRequest {
                decoded: c.decoded,
                format: c.format,
                looped: c.looped,
                group,
                clip_volume: c.volume,
                master_volume: if group == HSS_MUSIC_GROUP {
                    s.music_volume
                } else {
                    s.sound_volume
                },
                stop_group_first: group == HSS_MUSIC_GROUP,
            },
        ),
    }
}

/// Does `pat` occur in `s`?
pub open spec fn occurs_in(pat: Seq<char>, s: Seq<char>) -> bool {
    exists|i: int| 0 <= i && i + pat.len() <= s.len() && #[trigger] s.subrange(i, i + pat.len()) == pat
}

/// `str::contains` with a string pattern: does `pat` occur in `s`?
#[verifier::external_body]
fn str_contains(s: &str, pat: &str) -> (r: bool)
    ensures
        r == occurs_in(pat@, s@),
{
    s.contains(pat)
}

/// What the stateless stubs answer.
#[derive(Debug, Clone, Copy, PartialEq, Eq, Structural)]
pub enum OkReply {
    /// `hssSpeaker::channel`: a zeroed 256-byte block on the guest heap
    /// stands for the channel object; return its address.
    AllocChannel,
    /// Return this value.
    Value(u32),
}

/// The answer of the stub named `name`.
pub open spec fn ok_reply_of(name: Seq<char>) -> OkReply {
    if occurs_in("channel@hssSpeaker"@, name) {
        OkReply::AllocChannel
    } else if occurs_in("playing@hssChannel"@, name) || occurs_in("frequency@hssChannel"@, name) {
        OkReply::Value(0)
    } else if occurs_in("bufferLength@hssSpeaker"@, name) {
        OkReply::Value(4096)
    } else {
        OkReply::Value(1)
    }
}

/// The answer of the stateless stub named `name`: a channel object for
/// `hssSpeaker::channel`, "not playing" for a channel's state, a 4096
/// buffer length, and success for the rest.
pub fn ok_reply(name: &str) -> (r: OkReply)
    ensures
        r == ok_reply_of(name@),
{
    if str_contains(name, "channel@hssSpeaker") {
        OkReply::AllocChannel
    } else if str_contains(name, "playing@hssChannel") || str_contains(name, "frequency@hssChannel") {
        OkReply::Value(0)
    } else if str_contains(name, "bufferLength@hssSpeaker") {
        OkReply::Value(4096)
    } else {
        OkReply::Value(1)
    }
}

/// Constructor and destructor stubs return `this` unchanged, which is
/// the ARM C++ ABI contract for a constructor.
pub fn this_returning(this: u32) -> (r: u32)
    ensures
        r == this,
{
    this
}

impl HssState {
    /// No clips, nothing decoded, the speaker not yet opened and both
    /// master volumes full.
    pub fn new() -> (s: Self)
        ensures
            s@.paths.len() == 0,
            s@.clips.len() == 0,
            !s@.opened,
            s@.format == speaker_format(0, 16, 1),
            s@.sound_volume == HSS_MAX_VOLUME,
            s@.music_volume == HSS_MAX_VOLUME,
    {
        let s = HssState {
            decoded: Vec::new(),
            clips: Vec::new(),
            format: GuestFormat { sample_rate: 22_050, channels: 2, bits_per_sample: 16 },
            opened: false,
            sound_volume: HSS_MAX_VOLUME,
            music_volume: HSS_MAX_VOLUME,
        };
        assert(s@.paths =~= Seq::<Seq<char>>::empty());
        s
    }

    /// The cached decode of `path`, if the file was decoded before.
    pub fn cached(&self, path: &str) -> (r: Option<usize>)
        ensures
            r is Some <==> path_pos(self@.paths, path@, self@.paths.len()) is Some,
            r matches Some(i) ==> path_pos(self@.paths, path@, self@.paths.len()) == Some(i as int)
                && i < self.decoded@.len(),
    {
        let ghost paths = self@.paths;
        let mut i: usize = 0;
        while i < self.decoded.len()
            invariant
                i <= self.decoded@.len(),
                paths == self@.paths,
                path_pos(paths, path@, i as nat) is None,
            decreases self.decoded@.len() - i,
        {
            let owned = path.to_owned();
            if self.decoded[i].path == owned {
                assert(path_pos(paths, path@, (i + 1) as nat) == Some(i as int));
                proof {
                    lemma_path_pos_stable(paths, path@, (i + 1) as nat);
                }
                return Some(i);
            }
            i = i + 1;
        }
        None
    }

    fn clip_index(&self, this: u32) -> (r: Option<usize>)
        ensures
            r is Some <==> clip_pos(self@.clips, this, self@.clips.len()) is Some,
            r matches Some(i) ==> clip_pos(self@.clips, this, self@.clips.len()) == Some(i as int)
                && i < self.clips@.len() && self.clips@[i as int].0 == this,
    {
        let mut i = self.clips.len();
        while i > 0
            invariant
                i <= self.clips@.len(),
                clip_pos(self@.clips, this, self@.clips.len()) == clip_pos(self@.clips, this, i as nat),
            decreases i,
        {
            if self.clips[i - 1].0 == this {
                return Some(i - 1);
            }
            i = i - 1;
        }
        None
    }

    /// `int hssSound::load(..)` / `int hssMusic::load(..)` once the path
    /// is read: bind `this` to the decode of `path`; a null `this` loads
    /// nothing. A cached decode is
    /// reused and `fresh` ignored; otherwise `fresh` is what the file
    /// decoded to — `None` for a missing or unrecognised file, which
    /// fails the load — and it is cached. Returns the value the guest
    /// checks: `1` for loaded, `0` for not.
    pub fn load_clip(&mut self, this: u32, path: &str, fresh: Option<(GuestFormat, Vec<i16>)>) -> (r: u32)
        ensures
            (final(self)@, formats_of(final(self).decoded@), r) == load_step(
                old(self)@,
                formats_of(old(self).decoded@),
                this,
                path@,
                match fresh {
                    Some((f, _)) => Some(f),
                    None => None,
                },
            ),
            this == 0 ==> r == 0 && final(self)@ == old(self)@ && final(self).decoded@ == old(self).decoded@,
            this != 0 ==> match path_pos(old(self)@.paths, path@, old(self)@.paths.len()) {
                Some(i) => r == 1 && final(self)@ == bound(
                    old(self)@,
                    this,
                    fresh_clip(i, old(self).decoded@[i].format),
                ) && final(self).decoded@ == old(self).decoded@,
                None => match fresh {
                    None => r == 0 && final(self)@ == old(self)@ && final(self).decoded@ == old(self).decoded@,
                    Some((format, samples)) => {
                        let i = old(self)@.paths.len() as int;
                        &&& r == 1
                        &&& final(self)@ == bound(
                            HssView { paths: old(self)@.paths.push(path@), ..old(self)@ },
                            this,
                            fresh_clip(i, format),
                        )
                        &&& final(self).decoded@.len() == i + 1
                        &&& final(self).decoded@[i].samples@ == samples@
                        &&& final(self).decoded@[i].format == format
                        &&& final(self).decoded@.take(i) == old(self).decoded@
                    },
                },
            },
    {
        if this == 0 {
            return 0;
        }
        match self.cached(path) {
            Some(i) => {
                let clip = HssClip { decoded: i, format: self.decoded[i].format, looped: false, volume: HSS_MAX_VOLUME };
                self.clips.push((this, clip));
                1
            },
            None => match fresh {
                None => 0,
                Some((format, samples)) => {
                    let i = self.decoded.len();
                    let ghost old_decoded = self.decoded@;
                    self.decoded.push(Decoded { path: path.to_owned(), format, samples });
                    assert(self@.paths =~= old(self)@.paths.push(path@));
                    assert(self.decoded@.take(i as int) =~= old_decoded);
                    self.clips.push((this, HssClip { decoded: i, format, looped: false, volume: HSS_MAX_VOLUME }));
                    1
                },
            },
        }
    }

    /// `void hssSound::loop(bool)` / `void hssMusic::loop(bool)`: a
    /// clip that never loaded is left alone. Always answers `1`.
    pub fn set_loop(&mut self, this: u32, looped: u32) -> (r: u32)
        ensures
            r == 1,
            final(self)@ == match clip_of(old(self)@, this) {
                Some(c) => clip_replaced(old(self)@, this, HssClip { looped: looped != 0, ..c }),
                None => old(self)@,
            },
            final(self).decoded@ == old(self).decoded@,
    {
        if let Some(i) = self.clip_index(this) {
            let (h, c) = self.clips[i];
            self.clips.set(i, (h, HssClip { looped: looped != 0, ..c }));
        }
        1
    }

    /// `void hssSound::volume(UINT)`: the clip's volume, capped at 64.
    pub fn set_clip_volume(&mut self, this: u32, volume: u32) -> (r: u32)
        ensures
            r == 1,
            final(self)@ == match clip_of(old(self)@, this) {
                Some(c) => clip_replaced(old(self)@, this, HssClip { volume: capped(volume), ..c }),
                None => old(self)@,
            },
            final(self).decoded@ == old(self).decoded@,
    {
        let v = if volume < HSS_MAX_VOLUME {
            volume
        } else {
            HSS_MAX_VOLUME
        };
        if let Some(i) = self.clip_index(this) {
            let (h, c) = self.clips[i];
            self.clips.set(i, (h, HssClip { volume: v, ..c }));
        }
        1
    }

    /// `UINT hssSound::volume()`: the clip's volume, or full volume for
    /// a clip that never loaded.
    pub fn clip_volume(&self, this: u32) -> (r: u32)
        ensures
            r == match clip_of(self@, this) {
                Some(c) => c.volume,
                None => HSS_MAX_VOLUME,
            },
    {
        match self.clip_index(this) {
            Some(i) => self.clips[i].1.volume,
            None => HSS_MAX_VOLUME,
        }
    }

    /// `int hssSpeaker::open(UINT rate, UINT bits, bool stereo, ..)`:
    /// adopt the mixer format the guest picks, so everything is
    /// resampled to the rate the game expects to hear. The front end
    /// hands the format to the audio engine and starts it.
    pub fn open_speaker(&mut self, rate: u32, bits: u32, stereo: u32) -> (f: GuestFormat)
        ensures
            f == speaker_format(rate, bits, stereo),
            final(self)@ == (HssView { format: f, opened: true, ..old(self)@ }),
            final(self).decoded@ == old(self).decoded@,
    {
        let f = GuestFormat {
            sample_rate: if rate == 0 {
                22_050
            } else {
                rate
            },
            channels: if stereo != 0 {
                2
            } else {
                1
            },
            bits_per_sample: if bits == 8 {
                8
            } else {
                16
            },
        };
        self.format = f;
        self.opened = true;
        f
    }

    /// `int hssSpeaker::playSound(hssSound*, UINT)` and `playMusic`:
    /// what to play, or `None` — answered to the guest as `0` — for a
    /// clip that never loaded.
    pub fn play(&self, clip_this: u32, group: u32) -> (r: Option<PlayRequest>)
        ensures
            r == play_request(self@, clip_this, group),
    {
        match self.clip_index(clip_this) {
            None => None,
            Some(i) => {
                let c = self.clips[i].1;
                let master = if group == HSS_MUSIC_GROUP {
                    self.music_volume
                } else {
                    self.sound_volume
                };
                Some(
                    PlayRequest {
                        decoded: c.decoded,
                        format: c.format,
                        looped: c.looped,
                        group,
                        clip_volume: c.volume,
                        master_volume: master,
                        stop_group_first: group == HSS_MUSIC_GROUP,
                    },
                )
            },
        }
    }

    /// `void hssSpeaker::volumeSounds(UINT)`, capped at 64.
    pub fn set_sound_volume(&mut self, volume: u32) -> (r: u32)
        ensures
            r == 1,
            final(self)@ == (HssView { sound_volume: capped(volume), ..old(self)@ }),
            final(self).decoded@ == old(self).decoded@,
    {
        self.sound_volume = if volume < HSS_MAX_VOLUME {
            volume
        } else {
            HSS_MAX_VOLUME
        };
        1
    }

    /// `void hssSpeaker::volumeMusics(UINT)`, capped at 64.
    pub fn set_music_volume(&mut self, volume: u32) -> (r: u32)
        ensures
            r == 1,
            final(self)@ == (HssView { music_volume: capped(volume), ..old(self)@ }),
            final(self).decoded@ == old(self).decoded@,
    {
        self.music_volume = if volume < HSS_MAX_VOLUME {
            volume
        } else {
            HSS_MAX_VOLUME
        };
        1
    }

    /// `UINT hssSpeaker::volumeSounds()`.
    pub fn sound_volume(&self) -> (r: u32)
        ensures
            r == self@.sound_volume,
    {
        self.sound_volume
    }

    /// `UINT hssSpeaker::volumeMusics()`.
    pub fn music_volume(&self) -> (r: u32)
        ensures
            r == self@.music_volume,
    {
        self.music_volume
    }
}

proof fn lemma_path_pos_stable(paths: Seq<Seq<char>>, path: Seq<char>, n: nat)
    requires
        n <= paths.len(),
        path_pos(paths, path, n) is Some,
    ensures
        path_pos(paths, path, paths.len()) == path_pos(paths, path, n),
    decreases paths.len() - n,
{
    if n < paths.len() {
        assert(path_pos(paths, path, (n + 1) as nat) == path_pos(paths, path, n));
        lemma_path_pos_stable(paths, path, (n + 1) as nat);
    }
}

proof fn lemma_clip_pos_update(clips: Seq<(u32, HssClip)>, this: u32, n: nat, i: int, c: HssClip)
    requires
        n <= clips.len(),
        0 <= i < clips.len(),
        clips[i].0 == this,
    ensures
        clip_pos(clips.update(i, (this, c)), this, n) == clip_pos(clips, this, n),
    decreases n,
{
    if n > 0 {
        lemma_clip_pos_update(clips, this, (n - 1) as nat, i, c);
    }
}

proof fn lemma_clip_pos_found(clips: Seq<(u32, HssClip)>, this: u32, n: nat)
    requires
        n <= clips.len(),
    ensures
        clip_pos(clips, this, n) matches Some(i) ==> 0 <= i < n && clips[i].0 == this,
    decreases n,
{
    if n > 0 {
        lemma_clip_pos_found(clips, this, (n - 1) as nat);
    }
}

/// A clip reads back the state it was last given: after `loop` or
/// `volume` on a loaded clip, the clip is the old one with just that
/// field changed — the volume capped at 64.
pub proof fn lemma_clip_reads_back(s: HssView, this: u32, looped: bool, v: u32)
    requires
        clip_of(s, this) is Some,
    ensures
        ({
            let c = clip_of(s, this).unwrap();
            &&& clip_of(clip_replaced(s, this, HssClip { looped, ..c }), this) == Some(HssClip { looped, ..c })
            &&& clip_of(clip_replaced(s, this, HssClip { volume: capped(v), ..c }), this) == Some(
                HssClip { volume: capped(v), ..c },
            )
        }),
{
    let c = clip_of(s, this).unwrap();
    lemma_clip_pos_found(s.clips, this, s.clips.len());
    let i = clip_pos(s.clips, this, s.clips.len()).unwrap();
    lemma_clip_pos_update(s.clips, this, s.clips.len(), i, HssClip { looped, ..c });
    lemma_clip_pos_update(s.clips, this, s.clips.len(), i, HssClip { volume: capped(v), ..c });
}

/// A clip just bound to `this` is the one `this` stands for.
pub proof fn lemma_bound_clip_is_found(s: HssView, this: u32, c: HssClip)
    ensures
        clip_of(bound(s, this, c), this) == Some(c),
{
}

/// The volumes a game sets are the ones its clips play at: the music
/// volume reaches music, which replaces the track already playing; the
/// sound volume reaches every other group, which mixes; a clip's own
/// volume travels with it. Each is capped at 64.
pub proof fn lemma_volumes_reach_playback(s: HssView, clip: u32, group: u32, v: u32)
    requires
        clip_of(s, clip) is Some,
    ensures
        ({
            let c = clip_of(s, clip).unwrap();
            let cap = if v < 64 { v } else { 64 };
            &&& play_request(HssView { music_volume: capped(v), ..s }, clip, HSS_MUSIC_GROUP)
                matches Some(p) && p.master_volume == cap && p.stop_group_first
            &&& group != HSS_MUSIC_GROUP ==> (play_request(
                HssView { sound_volume: capped(v), ..s },
                clip,
                group,
            ) matches Some(p) && p.master_volume == cap && !p.stop_group_first && p.group == group)
            &&& play_request(clip_replaced(s, clip, HssClip { volume: capped(v), ..c }), clip, group)
                matches Some(p) && p.clip_volume == cap && p.decoded == c.decoded && p.looped
                == c.looped
        }),
{
    lemma_clip_reads_back(s, clip, false, v);
}

/// A clip that never loaded plays nothing.
pub proof fn lemma_unloaded_clips_play_nothing(s: HssView, clip: u32, group: u32)
    requires
        clip_of(s, clip) is None,
    ensures
        play_request(s, clip, group) is None,
{
}

/// A file is decoded at most once: once a load of `path` has succeeded
/// — served from the cache or freshly decoded — the path is in the
/// cache, so every later load of it reuses that decode.
pub proof fn lemma_loaded_paths_stay_cached(paths: Seq<Seq<char>>, path: Seq<char>, other: Seq<char>)
    ensures
        path_pos(paths.push(path), path, paths.len() + 1) is Some,
        path_pos(paths, other, paths.len()) is Some ==> path_pos(paths.push(path), other, paths.len() + 1)
            == path_pos(paths, other, paths.len()),
{
    lemma_path_pos_prefix(paths, path, paths.len());
    lemma_path_pos_prefix(paths, other, paths.len());
}

proof fn lemma_path_pos_found(paths: Seq<Seq<char>>, p: Seq<char>, n: nat)
    requires
        n <= paths.len(),
    ensures
        match path_pos(paths, p, n) {
            Some(i) => 0 <= i < n && paths[i] == p,
            None => forall|k: int| 0 <= k < n ==> paths[k] != p,
        },
    decreases n,
{
    if n > 0 {
        lemma_path_pos_found(paths, p, (n - 1) as nat);
    }
}

proof fn lemma_clip_pos_push_other(clips: Seq<(u32, HssClip)>, this: u32, c: (u32, HssClip))
    requires
        c.0 != this,
    ensures
        clip_pos(clips.push(c), this, clips.len() + 1) == clip_pos(clips, this, clips.len()),
{
    lemma_clip_pos_prefix(clips, this, c, clips.len());
}

proof fn lemma_clip_pos_prefix(clips: Seq<(u32, HssClip)>, this: u32, c: (u32, HssClip), n: nat)
    requires
        n <= clips.len(),
    ensures
        clip_pos(clips.push(c), this, n) == clip_pos(clips, this, n),
    decreases n,
{
    if n > 0 {
        lemma_clip_pos_prefix(clips, this, c, (n - 1) as nat);
        assert(clips.push(c)[n - 1] == clips[n - 1]);
    }
}

/// A file is decoded once, whatever the cache held before: after a load
/// of `path` succeeds — served from the cache or freshly decoded — a
/// later load of the same path into another object succeeds even if the
/// file is gone, adds nothing to the cache, and binds that object to the
/// very decode the first one plays.
pub proof fn lemma_second_load_shares_the_decode(
    s: HssView,
    formats: Seq<GuestFormat>,
    first: u32,
    second: u32,
    path: Seq<char>,
    fresh: Option<GuestFormat>,
)
    requires
        formats.len() == s.paths.len(),
        first != second,
        second != 0,
        load_step(s, formats, first, path, fresh).2 == 1,
    ensures
        ({
            let (s1, f1, _) = load_step(s, formats, first, path, fresh);
            let (s2, f2, r2) = load_step(s1, f1, second, path, None);
            &&& r2 == 1
            &&& s2.paths == s1.paths
            &&& f2 == f1
            &&& clip_of(s2, first) is Some
            &&& clip_of(s2, second) is Some
            &&& clip_of(s2, second).unwrap().decoded == clip_of(s2, first).unwrap().decoded
            &&& clip_of(s2, first) == clip_of(s1, first)
        }),
{
    let (s1, f1, _) = load_step(s, formats, first, path, fresh);
    lemma_path_pos_found(s.paths, path, s.paths.len());
    match path_pos(s.paths, path, s.paths.len()) {
        Some(i) => {
            lemma_path_pos_stable(s.paths, path, s.paths.len());
        },
        None => {
            lemma_loaded_paths_stay_cached(s.paths, path, path);
            lemma_path_pos_found(s1.paths, path, s1.paths.len());
        },
    }
    lemma_path_pos_found(s1.paths, path, s1.paths.len());
    let j = path_pos(s1.paths, path, s1.paths.len()).unwrap();
    lemma_clip_pos_push_other(s1.clips, first, (second, fresh_clip(j, f1[j])));
}

proof fn lemma_path_pos_prefix(paths: Seq<Seq<char>>, p: Seq<char>, n: nat)
    requires
        n <= paths.len(),
    ensures
        forall|q: Seq<char>| path_pos(paths.push(q), p, n) == path_pos(paths, p, n),
    decreases n,
{
    if n > 0 {
        lemma_path_pos_prefix(paths, p, (n - 1) as nat);
        assert forall|q: Seq<char>| path_pos(paths.push(q), p, n) == path_pos(paths, p, n) by {
            assert(paths.push(q)[n - 1] == paths[n - 1]);
        }
    }
}

} // verus!
