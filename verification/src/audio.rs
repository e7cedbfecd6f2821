//! Mixing the sound of the timeline.
//!
//! The mix is stereo at 44100 frames per second. The library says which samples of which
//! assets are heard at an instant, and how loud; adding them up is left to the caller.

use crate::editor::{Clip, EditorModel, EditorState, Track, TrackModel};
use crate::media::MediaAsset;
use vstd::prelude::*;

verus! {

/// Frames per second of the mix.
pub const MIX_RATE: u32 = 44_100;

/// Channels of the mix.
pub const MIX_CHANNELS: u16 = 2;

/// Frames in a block of the mix: a tenth of a second.
pub const BLOCK_FRAMES: usize = 4_410;

/// A clip that is heard.
#[derive(Clone, Copy, Debug, PartialEq, Eq, Structural)]
pub struct Voice {
    /// The asset's place in the project.
    pub asset: usize,
    pub clip: Clip,
    /// The volume of its track, in thousandths.
    pub volume: u32,
}

/// Which samples of an asset are heard, and how loud: `numer / denom` of what they are.
#[derive(Clone, Copy, Debug, PartialEq, Eq, Structural)]
pub struct Sound {
    pub left: usize,
    pub right: usize,
    pub numer: i128,
    pub denom: i128,
}

/// Whether a track is heard: a video track that is seen, or an audio track that is not
/// muted and is solo if any is.
pub open spec fn is_heard(track: TrackModel, is_video: bool, has_solo: bool) -> bool {
    !(if is_video {
        track.is_hidden
    } else {
        track.is_muted
    }) && (!has_solo || track.is_solo)
}

/// The clip as a voice, if it plays between `start` and `end` and its sound was decoded.
pub open spec fn voice_of(
    c: Clip,
    assets: Seq<MediaAsset>,
    volume: u32,
    start: int,
    end: int,
) -> Option<Voice> {
    match crate::search::first_where(assets, crate::drag::of_asset(c.asset_id)) {
        Some(a) if assets[a].audio_samples is Some && crate::drag::at_least(
            start,
            c.timeline_start as int,
        ) < crate::drag::at_most(end, c.timeline_end as int) => Some(
            Voice { asset: a as usize, clip: c, volume },
        ),
        _ => None,
    }
}

/// The voices of a track's clips.
pub open spec fn clip_voices(
    clips: Seq<Clip>,
    assets: Seq<MediaAsset>,
    volume: u32,
    start: int,
    end: int,
) -> Seq<Voice>
    decreases clips.len(),
{
    if clips.len() == 0 {
        Seq::empty()
    } else {
        let before = clip_voices(clips.drop_last(), assets, volume, start, end);
        match voice_of(clips.last(), assets, volume, start, end) {
            Some(v) => before.push(v),
            None => before,
        }
    }
}

/// The voices of the tracks of one lane that are heard.
pub open spec fn track_voices(
    tracks: Seq<TrackModel>,
    assets: Seq<MediaAsset>,
    is_video: bool,
    has_solo: bool,
    start: int,
    end: int,
) -> Seq<Voice>
    decreases tracks.len(),
{
    if tracks.len() == 0 {
        Seq::empty()
    } else {
        let before = track_voices(tracks.drop_last(), assets, is_video, has_solo, start, end);
        let track = tracks.last();
        if is_heard(track, is_video, has_solo) {
            before + clip_voices(track.clips, assets, track.volume, start, end)
        } else {
            before
        }
    }
}

impl EditorModel {
    /// The voices between `start` and `end`: those of the video tracks, then those of the
    /// audio tracks.
    pub open spec fn voices(self, start: int, end: int) -> Seq<Voice> {
        track_voices(
            self.video_tracks,
            self.assets,
            true,
            crate::preview::any_solo(self.video_tracks),
            start,
            end,
        ) + track_voices(
            self.audio_tracks,
            self.assets,
            false,
            crate::preview::any_solo(self.audio_tracks),
            start,
            end,
        )
    }
}

fn find_voice(
    c: &Clip,
    assets: &Vec<MediaAsset>,
    volume: u32,
    start: i64,
    end: i64,
) -> (r: Option<Voice>)
    ensures
        r == voice_of(*c, assets@, volume, start as int, end as int),
        r matches Some(v) ==> v.asset < assets@.len(),
{
    let from: i64 = if start >= c.timeline_start {
        start
    } else {
        c.timeline_start
    };
    let to: i64 = if end <= c.timeline_end {
        end
    } else {
        c.timeline_end
    };
    if from >= to {
        return None;
    }
    match crate::drag::find_asset(assets, c.asset_id) {
        Some(a) => if assets[a].audio_samples.is_some() {
            Some(Voice { asset: a, clip: *c, volume })
        } else {
            None
        },
        None => None,
    }
}

fn find_track_voices(
    tracks: &Vec<Track>,
    assets: &Vec<MediaAsset>,
    is_video: bool,
    start: i64,
    end: i64,
) -> (r: Vec<Voice>)
    ensures
        r@ == track_voices(
            crate::editor::lane_view(tracks@),
            assets@,
            is_video,
            crate::preview::any_solo(crate::editor::lane_view(tracks@)),
            start as int,
            end as int,
        ),
{
    let ghost all = crate::editor::lane_view(tracks@);
    let solo: bool = crate::preview::find_solo(tracks);
    let mut r: Vec<Voice> = Vec::new();
    let mut t: usize = 0;
    assert(all.take(0) =~= Seq::empty());
    assert(r@ =~= Seq::empty());
    while t < tracks.len()
        invariant
            t <= tracks@.len(),
            all == crate::editor::lane_view(tracks@),
            solo == crate::preview::any_solo(all),
            r@ == track_voices(
                all.take(t as int),
                assets@,
                is_video,
                solo,
                start as int,
                end as int,
            ),
        decreases tracks@.len() - t,
    {
        let track: &Track = &tracks[t];
        proof {
            assert(all.take(t + 1).drop_last() =~= all.take(t as int));
            assert(all.take(t + 1).last() == track@);
        }
        let silent: bool = if is_video {
            track.is_hidden
        } else {
            track.is_muted
        };
        if !silent && (!solo || track.is_solo) {
            let ghost before = r@;
            let mut i: usize = 0;
            assert(track.clips@.take(0) =~= Seq::empty());
            assert(r@ =~= before + Seq::<Voice>::empty());
            while i < track.clips.len()
                invariant
                    i <= track.clips@.len(),
                    r@ == before + clip_voices(
                        track.clips@.take(i as int),
                        assets@,
                        track.volume,
                        start as int,
                        end as int,
                    ),
                decreases track.clips@.len() - i,
            {
                proof {
                    let upto = track.clips@.take(i + 1);
                    assert(upto.drop_last() =~= track.clips@.take(i as int));
                    assert(upto.last() == track.clips@[i as int]);
                }
                let ghost had = r@;
                let voice = find_voice(&track.clips[i], assets, track.volume, start, end);
                if let Some(v) = voice {
                    r.push(v);
                }
                assert(r@ =~= before + clip_voices(
                    track.clips@.take(i + 1),
                    assets@,
                    track.volume,
                    start as int,
                    end as int,
                ));
                i += 1;
            }
            assert(track.clips@.take(i as int) =~= track.clips@);
        }
        t += 1;
    }
    assert(all.take(t as int) =~= all);
    r
}

impl EditorState {
    /// Finds the voices between `start` and `end`.
    pub fn find_voices(&self, start: i64, end: i64) -> (r: Vec<Voice>)
        ensures
            r@ == self@.voices(start as int, end as int),
    {
        let mut r: Vec<Voice> = find_track_voices(
            &self.video_tracks,
            &self.assets,
            true,
            start,
            end,
        );
        let mut rest: Vec<Voice> = find_track_voices(
            &self.audio_tracks,
            &self.assets,
            false,
            start,
            end,
        );
        r.append(&mut rest);
        r
    }
}

/// The instant of a frame of the mix, counted from `start`, rounded down to a nanosecond.
pub open spec fn frame_time(start: int, frame: int) -> int {
    start + frame * 1_000_000_000 / 44_100
}

/// The instant of a frame of a block that begins at `start`, rounded down to a nanosecond.
pub fn mix_time(start: i64, frame: u32) -> (r: i64)
    requires
        frame_time(start as int, frame as int) <= i64::MAX,
    ensures
        r == frame_time(start as int, frame as int),
{
    start + (frame as i64 * 1_000_000_000 / 44_100)
}

/// The exact instant of a frame of a block that begins at `start`, where a nanosecond has
/// 44100 parts.
pub open spec fn exact_time(start: int, frame: int) -> int {
    start * 44_100 + frame * 1_000_000_000
}

/// The instant of a clip's source that is played at an exact instant.
pub open spec fn exact_source(c: Clip, at: int) -> int {
    at + (c.source_trim_start - c.timeline_start) * 44_100
}

/// The number of the sample, at `rate` samples per second, that lasts over an exact instant.
pub open spec fn sample_number(at: int, rate: int) -> int {
    at * rate / 44_100_000_000_000
}

/// How loud a clip is at an exact instant. It fades in before it fades out.
pub open spec fn loudness(c: Clip, at: int) -> (int, int) {
    let since = at - c.timeline_start * 44_100;
    let left = c.timeline_end * 44_100 - at;
    if c.fade_in_duration > 0 && since < c.fade_in_duration * 44_100 {
        (since, c.fade_in_duration * 44_100)
    } else if c.fade_out_duration > 0 && left < c.fade_out_duration * 44_100 {
        (left, c.fade_out_duration * 44_100)
    } else {
        (1, 1)
    }
}

impl Voice {
    /// What is heard of the voice in a frame of a block that begins at `start`. Nothing is
    /// heard outside of the clip, outside of the source, or where samples are missing. The
    /// fades make the sound softer.
    pub open spec fn sound(self, asset: MediaAsset, start: int, frame: int) -> Option<Sound> {
        let c = self.clip;
        let at = exact_time(start, frame);
        let source = exact_source(c, at);
        let sample = sample_number(source, asset.audio_sample_rate as int);
        let first = sample * asset.audio_channels;
        let count = match asset.audio_samples {
            Some(n) => n as int,
            None => 0,
        };
        let (numer, denom) = loudness(c, at);
        if at < c.timeline_start * 44_100 || at >= c.timeline_end * 44_100 || source < 0 || source
            >= asset.duration * 44_100 || asset.audio_channels == 0 {
            None
        } else if asset.audio_channels == 1 {
            if sample < count {
                Some(
                    Sound {
                        left: sample as usize,
                        right: sample as usize,
                        numer: (self.volume * numer) as i128,
                        denom: (1_000 * denom) as i128,
                    },
                )
            } else {
                None
            }
        } else if first + 1 < count {
            Some(
                Sound {
                    left: first as usize,
                    right: (first + 1) as usize,
                    numer: (self.volume * numer) as i128,
                    denom: (1_000 * denom) as i128,
                },
            )
        } else {
            None
        }
    }

    /// Finds what is heard of the voice in a frame of a block that begins at `start`.
    pub fn sound_at(&self, asset: &MediaAsset, start: i64, frame: u32) -> (r: Option<Sound>)
        ensures
            r == self.sound(*asset, start as int, frame as int),
    {
        let c: Clip = self.clip;
        let at: i128 = start as i128 * 44_100 + frame as i128 * 1_000_000_000;
        let since: i128 = at - c.timeline_start as i128 * 44_100;
        let left: i128 = c.timeline_end as i128 * 44_100 - at;
        if since < 0 || left <= 0 {
            return None;
        }
        let source: i128 = at + (c.source_trim_start as i128 - c.timeline_start as i128) * 44_100;
        if source < 0 || source >= asset.duration as i128 * 44_100 || asset.audio_channels == 0 {
            return None;
        }
        let count: i128 = match asset.audio_samples {
            Some(n) => n as i128,
            None => 0,
        };
        let fade_in: i128 = c.fade_in_duration as i128 * 44_100;
        let fade_out: i128 = c.fade_out_duration as i128 * 44_100;
        let (part, whole): (i128, i128) = if fade_in > 0 && since < fade_in {
            (since, fade_in)
        } else if fade_out > 0 && left < fade_out {
            (left, fade_out)
        } else {
            (1, 1)
        };
        proof {
            lemma_scaled(source as int, asset.audio_sample_rate as int);
            lemma_scaled(part as int, self.volume as int);
            assert(self.volume * part == part * self.volume) by (nonlinear_arith);
        }
        let sample: i128 = source * asset.audio_sample_rate as i128 / 44_100_000_000_000;
        let numer: i128 = self.volume as i128 * part;
        let denom: i128 = 1_000 * whole;
        if asset.audio_channels == 1 {
            if sample < count {
                Some(Sound { left: sample as usize, right: sample as usize, numer, denom })
            } else {
                None
            }
        } else {
            proof {
                lemma_scaled(sample as int, asset.audio_channels as int);
            }
            let first: i128 = sample * asset.audio_channels as i128;
            if first + 1 < count {
                Some(
                    Sound { left: first as usize, right: first as usize + 1, numer, denom },
                )
            } else {
                None
            }
        }
    }
}

pub(crate) proof fn lemma_scaled(value: int, factor: int)
    requires
        0 <= value <= 0x8000_0000_0000_0000 * 44_100,
        0 <= factor <= 0xffff_ffff,
    ensures
        0 <= value * factor <= 0x8000_0000_0000_0000 * 44_100 * 0x1_0000_0000,
{
    assert(0 <= value * factor <= 0x8000_0000_0000_0000 * 44_100 * 0x1_0000_0000)
        by (nonlinear_arith)
        requires
            0 <= value <= 0x8000_0000_0000_0000 * 44_100,
            0 <= factor <= 0xffff_ffff,
    ;
}

/// What is heard lies within the asset's samples and is not louder than they are, on a
/// track at full volume or less.
pub proof fn sounds_are_in_range(v: Voice, asset: MediaAsset, start: int, frame: int)
    requires
        v.volume <= 1_000,
    ensures
        v.sound(asset, start, frame) matches Some(s) ==> {
            &&& asset.audio_samples matches Some(n) && s.left < n && s.right < n
            &&& 0 <= s.numer <= s.denom
            &&& s.denom > 0
        },
{
    let c = v.clip;
    let at = exact_time(start, frame);
    let source = exact_source(c, at);
    let b = loudness(c, at);
    if v.sound(asset, start, frame) is Some {
        lemma_scaled(source, asset.audio_sample_rate as int);
        lemma_scaled(
            sample_number(source, asset.audio_sample_rate as int),
            asset.audio_channels as int,
        );
        let (k, n, d) = (v.volume as int, b.0, b.1);
        assert(0 <= k * n <= 1_000 * d) by (nonlinear_arith)
            requires
                0 <= k <= 1_000,
                0 <= n <= d,
        ;
    }
}

/// Of a source with the rate of the mix, each frame of a block is one sample further on.
pub proof fn samples_are_heard_in_turn(c: Clip, start: int, frame: int)
    ensures
        sample_number(exact_source(c, exact_time(start, frame)), 44_100) == sample_number(
            exact_source(c, exact_time(start, 0)),
            44_100,
        ) + frame,
{
}

/// A muted track is not heard, nor one that is not solo beside one that is.
pub proof fn silent_tracks_have_no_voices(
    tracks: Seq<TrackModel>,
    assets: Seq<MediaAsset>,
    is_video: bool,
    has_solo: bool,
    start: int,
    end: int,
)
    requires
        forall|i: int|
            0 <= i < tracks.len() ==> !is_heard(#[trigger] tracks[i], is_video, has_solo),
    ensures
        track_voices(tracks, assets, is_video, has_solo, start, end).len() == 0,
    decreases tracks.len(),
{
    if tracks.len() > 0 {
        assert(!is_heard(tracks[tracks.len() - 1], is_video, has_solo));
        silent_tracks_have_no_voices(
            tracks.drop_last(),
            assets,
            is_video,
            has_solo,
            start,
            end,
        );
    }
}

// Sound files

/// Bytes of a number, lowest first.
pub open spec fn little_endian(v: nat, width: nat) -> Seq<u8>
    decreases width,
{
    if width == 0 {
        Seq::empty()
    } else {
        seq![(v % 256) as u8] + little_endian(v / 256, (width - 1) as nat)
    }
}

/// The header of a sound file with `bytes` bytes of sixteen-bit stereo samples at the rate
/// of the mix.
pub open spec fn wav_header(bytes: nat) -> Seq<u8> {
    seq![0x52u8, 0x49u8, 0x46u8, 0x46u8] + little_endian(bytes + 36, 4) + seq![
        0x57u8,
        0x41u8,
        0x56u8,
        0x45u8,
        0x66u8,
        0x6du8,
        0x74u8,
        0x20u8,
    ] + little_endian(16, 4) + little_endian(1, 2) + little_endian(2, 2) + little_endian(44_100, 4)
        + little_endian(176_400, 4) + little_endian(4, 2) + little_endian(16, 2) + seq![
        0x64u8,
        0x61u8,
        0x74u8,
        0x61u8,
    ] + little_endian(bytes, 4)
}

fn push_number(out: &mut Vec<u8>, v: u32, width: usize)
    requires
        width <= 4,
    ensures
        final(out)@ == old(out)@ + little_endian(v as nat, width as nat),
    decreases width,
{
    if width > 0 {
        out.push((v % 256) as u8);
        push_number(out, v / 256, width - 1);
        assert(out@ =~= old(out)@ + little_endian(v as nat, width as nat));
    } else {
        assert(out@ =~= old(out)@ + little_endian(v as nat, width as nat));
    }
}

/// Writes the header of a sound file with `frames` frames.
pub fn make_wav_header(frames: u32) -> (r: Vec<u8>)
    requires
        frames * 4 + 36 <= u32::MAX,
    ensures
        r@ == wav_header((frames * 4) as nat),
        r@.len() == 44,
{
    let bytes: u32 = frames * 4;
    let mut r: Vec<u8> = Vec::new();
    r.push(0x52);
    r.push(0x49);
    r.push(0x46);
    r.push(0x46);
    push_number(&mut r, bytes + 36, 4);
    r.push(0x57);
    r.push(0x41);
    r.push(0x56);
    r.push(0x45);
    r.push(0x66);
    r.push(0x6d);
    r.push(0x74);
    r.push(0x20);
    push_number(&mut r, 16, 4);
    push_number(&mut r, 1, 2);
    push_number(&mut r, 2, 2);
    push_number(&mut r, MIX_RATE, 4);
    push_number(&mut r, 176_400, 4);
    push_number(&mut r, 4, 2);
    push_number(&mut r, 16, 2);
    r.push(0x64);
    r.push(0x61);
    r.push(0x74);
    r.push(0x61);
    push_number(&mut r, bytes, 4);
    proof {
        reveal_with_fuel(little_endian, 5);
        assert(r@ =~= wav_header((frames * 4) as nat));
    }
    r
}

impl EditorModel {
    /// How many frames the mix of the whole timeline has.
    pub open spec fn mix_frames(self) -> int {
        self.content_end(0) * 44_100 / 1_000_000_000
    }
}

impl EditorState {
    /// Counts the frames of the mix of the whole timeline; `None` where a sound file cannot
    /// hold so many.
    pub fn count_mix_frames(&self) -> (r: Option<u32>)
        ensures
            r == if self@.mix_frames() * 4 + 36 <= u32::MAX {
                Some(self@.mix_frames() as u32)
            } else {
                None
            },
    {
        let video_end: i64 = crate::layout::find_latest_end(&self.video_tracks, 0);
        let end: i64 = crate::layout::find_latest_end(&self.audio_tracks, video_end);
        proof {
            crate::layout::latest_end_is_latest(self@.video_tracks, 0);
            crate::layout::latest_end_is_latest(self@.audio_tracks, video_end as int);
        }
        let frames: i128 = end as i128 * 44_100 / 1_000_000_000;
        if frames * 4 + 36 <= u32::MAX as i128 {
            Some(frames as u32)
        } else {
            None
        }
    }
}

} // verus!
