//! What is known of an imported media file.

use crate::text::is_same_word;
use crate::time::{FrameRate, TimeBase};
use std::path::PathBuf;
use vstd::prelude::*;
use vstd::string::*;

verus! {

/// `std::path::PathBuf`. The library carries paths through and never looks inside.
#[verifier::external_type_specification]
#[verifier::external_body]
pub struct ExPathBuf(std::path::PathBuf);

/// `PathBuf::clone`: the copy is the same path.
pub assume_specification[ <std::path::PathBuf as Clone>::clone ](
    path: &std::path::PathBuf,
) -> (r: std::path::PathBuf)
    ensures
        r == *path,
;

/// A block of codec-specific bytes that a container attaches to a video track.
#[derive(Debug)]
pub struct ExtraData {
    /// Whether the block is an `avcC` record.
    pub is_avc_config: bool,
    pub data: Vec<u8>,
}

#[derive(Debug)]
pub struct VideoParams {
    /// Whether the track is encoded as H.264.
    pub is_h264: bool,
    pub width: Option<u16>,
    pub height: Option<u16>,
    pub extra_data: Vec<ExtraData>,
}

#[derive(Debug)]
pub struct AudioParams {
    pub channels: Option<u32>,
    pub sample_rate: Option<u32>,
}

#[derive(Debug)]
pub enum TrackParams {
    Video(VideoParams),
    Audio(AudioParams),
    Other,
}

/// A track of a media container, as the demuxer describes it.
#[derive(Debug)]
pub struct MediaTrack {
    pub id: u32,
    pub params: TrackParams,
    pub time_base: Option<TimeBase>,
    /// Length in ticks of the time base.
    pub duration: Option<u64>,
}

impl MediaTrack {
    pub open spec fn wf(self) -> bool {
        self.time_base matches Some(tb) ==> tb.wf()
    }

    /// The length of the track; zero where the container does not give one.
    pub open spec fn length(self) -> int {
        match (self.time_base, self.duration) {
            (Some(tb), Some(ticks)) => crate::time::saturated_i64(tb.instant(ticks as int)),
            _ => 0,
        }
    }

    fn length_nanos(&self) -> (r: i64)
        requires
            self.wf(),
        ensures
            r == self.length(),
            r >= 0,
    {
        match (self.time_base, self.duration) {
            (Some(tb), Some(ticks)) => tb.nanos_of_duration(ticks),
            _ => 0,
        }
    }
}

/// The first video track.
pub open spec fn first_video(tracks: Seq<MediaTrack>) -> Option<int> {
    crate::search::first_where(tracks, |t: MediaTrack| t.params is Video)
}

/// The first audio track.
pub open spec fn first_audio(tracks: Seq<MediaTrack>) -> Option<int> {
    crate::search::first_where(tracks, |t: MediaTrack| t.params is Audio)
}

/// The length of the longest track.
pub open spec fn longest(tracks: Seq<MediaTrack>) -> int
    decreases tracks.len(),
{
    if tracks.len() == 0 {
        0
    } else {
        let before = longest(tracks.drop_last());
        let last = tracks.last().length();
        if last > before {
            last
        } else {
            before
        }
    }
}

/// The length of a file: that of its video track, or of its audio track where it has no
/// video, or of the longest track where neither says anything.
pub open spec fn media_length(tracks: Seq<MediaTrack>) -> int {
    let told = match (first_video(tracks), first_audio(tracks)) {
        (Some(v), _) => tracks[v].length(),
        (None, Some(a)) => tracks[a].length(),
        (None, None) => 0,
    };
    if told == 0 {
        longest(tracks)
    } else {
        told
    }
}

fn find_first(tracks: &Vec<MediaTrack>, video: bool) -> (r: Option<usize>)
    ensures
        match if video {
            first_video(tracks@)
        } else {
            first_audio(tracks@)
        } {
            Some(i) => r matches Some(k) && k == i && i < tracks@.len() && (if video {
                tracks@[i].params is Video
            } else {
                tracks@[i].params is Audio
            }),
            None => r is None,
        },
{
    let ghost is_video = |t: MediaTrack| t.params is Video;
    let ghost is_audio = |t: MediaTrack| t.params is Audio;
    let ghost cond = if video {
        is_video
    } else {
        is_audio
    };
    let mut i: usize = 0;
    while i < tracks.len()
        invariant
            i <= tracks@.len(),
            cond == (if video {
                is_video
            } else {
                is_audio
            }),
            is_video == |t: MediaTrack| t.params is Video,
            is_audio == |t: MediaTrack| t.params is Audio,
            forall|j: int| 0 <= j < i ==> !cond(#[trigger] tracks@[j]),
        decreases tracks@.len() - i,
    {
        let hit: bool = match &tracks[i].params {
            TrackParams::Video(_) => video,
            TrackParams::Audio(_) => !video,
            TrackParams::Other => false,
        };
        if hit {
            proof {
                crate::search::lemma_first_where_at(tracks@, cond, i as int);
                assert(crate::search::first_from(tracks@, cond, i as int) == Some(i as int));
            }
            return Some(i);
        }
        i += 1;
    }
    proof {
        crate::search::lemma_first_where_at(tracks@, cond, i as int);
    }
    None
}

/// A media file that was imported into the project.
#[derive(Debug)]
pub struct MediaAsset {
    pub id: usize,
    pub path: PathBuf,
    pub name: String,
    /// In nanoseconds.
    pub duration: i64,
    pub width: u32,
    pub height: u32,
    pub fps: FrameRate,
    pub is_video: bool,
    /// A still picture, which has no length of its own.
    pub is_image: bool,
    /// How many audio samples were decoded, over all channels.
    pub audio_samples: Option<usize>,
    pub audio_channels: u32,
    pub audio_sample_rate: u32,
}

impl Clone for MediaAsset {
    fn clone(&self) -> (r: MediaAsset)
        ensures
            r == *self,
    {
        MediaAsset { path: self.path.clone(), name: self.name.clone(), ..*self }
    }
}

/// Why the tracks of a file could not be read.
#[derive(Debug)]
pub enum OpenFailure {
    /// The file could not be opened.
    Open(String),
    /// The file's format was not recognised.
    Probe(String),
}

impl OpenFailure {
    /// What the user is told.
    pub open spec fn text(self) -> Seq<char> {
        match self {
            OpenFailure::Open(cause) => "Failed to open file: "@ + cause@,
            OpenFailure::Probe(cause) => "Failed to probe file: "@ + cause@,
        }
    }

    pub fn message(&self) -> (r: String)
        ensures
            r@ == self.text(),
    {
        match self {
            OpenFailure::Open(cause) => {
                let mut text: String = String::from_str("Failed to open file: ");
                text.append(cause.as_str());
                text
            },
            OpenFailure::Probe(cause) => {
                let mut text: String = String::from_str("Failed to probe file: ");
                text.append(cause.as_str());
                text
            },
        }
    }
}

/// The name of an asset whose file name cannot be read.
pub open spec fn unnamed() -> Seq<char> {
    "unknown"@
}

/// How many nanoseconds a still picture is shown when it is placed on the timeline.
pub const IMAGE_DURATION: i64 = 5_000_000_000;

fn zero_if_none(v: Option<u16>) -> (r: u32)
    ensures
        r == match v {
            Some(n) => n as u32,
            None => 0,
        },
{
    match v {
        Some(n) => n as u32,
        None => 0,
    }
}

fn longest_nanos(tracks: &Vec<MediaTrack>) -> (r: i64)
    requires
        forall|i: int| 0 <= i < tracks@.len() ==> (#[trigger] tracks@[i]).wf(),
    ensures
        r == longest(tracks@),
{
    let mut best: i64 = 0;
    let mut i: usize = 0;
    assert(tracks@.take(0) =~= Seq::empty());
    while i < tracks.len()
        invariant
            i <= tracks@.len(),
            forall|j: int| 0 <= j < tracks@.len() ==> (#[trigger] tracks@[j]).wf(),
            best == longest(tracks@.take(i as int)),
        decreases tracks@.len() - i,
    {
        proof {
            assert(tracks@.take(i + 1).drop_last() =~= tracks@.take(i as int));
            assert(tracks@.take(i + 1).last() == tracks@[i as int]);
        }
        let length: i64 = tracks[i].length_nanos();
        if length > best {
            best = length;
        }
        i += 1;
    }
    assert(tracks@.take(i as int) =~= tracks@);
    best
}

/// Whether files with an extension are still pictures: PNG and JPEG files are, in capitals
/// or not.
pub fn is_still_image(ext: &str) -> (r: bool)
    ensures
        r == (crate::text::same_word(ext@, "png"@) || crate::text::same_word(ext@, "jpg"@)
            || crate::text::same_word(ext@, "jpeg"@)),
{
    is_same_word(ext, "png") || is_same_word(ext, "jpg") || is_same_word(ext, "jpeg")
}

impl MediaAsset {
    /// What the tracks of a file say of it as an asset.
    pub open spec fn described_by(self, tracks: Seq<MediaTrack>) -> bool {
        &&& self.duration == media_length(tracks)
        &&& self.is_video == (first_video(tracks) is Some)
        &&& !self.is_image
        &&& self.audio_samples is None
        &&& match first_video(tracks) {
            Some(v) => {
                let params = tracks[v].params->Video_0;
                &&& self.width == match params.width {
                    Some(n) => n as u32,
                    None => 0,
                }
                &&& self.height == match params.height {
                    Some(n) => n as u32,
                    None => 0,
                }
                &&& self.fps == FrameRate::implied_by(tracks[v].time_base)
            },
            None => self.width == 0 && self.height == 0 && self.fps == (FrameRate {
                num: 0,
                den: 1,
            }),
        }
        &&& match first_audio(tracks) {
            Some(a) => {
                let params = tracks[a].params->Audio_0;
                &&& self.audio_channels == match params.channels {
                    Some(n) => n,
                    None => 0,
                }
                &&& self.audio_sample_rate == match params.sample_rate {
                    Some(n) => n,
                    None => 0,
                }
            },
            None => self.audio_channels == 0 && self.audio_sample_rate == 0,
        }
    }

    /// Describes a media file by its tracks. `name` is the file's name, where it can be
    /// read. Where the tracks could not be read, the message says why.
    pub fn load_metadata(
        id: usize,
        path: PathBuf,
        name: Option<String>,
        opened: Result<Vec<MediaTrack>, OpenFailure>,
    ) -> (r: Result<MediaAsset, String>)
        requires
            opened matches Ok(tracks) ==> forall|i: int|
                0 <= i < tracks@.len() ==> (#[trigger] tracks@[i]).wf(),
        ensures
            match opened {
                Ok(tracks) => r matches Ok(asset) && asset.id == id && asset.path == path
                    && asset.name@ == (match name {
                    Some(n) => n@,
                    None => unnamed(),
                }) && asset.described_by(tracks@),
                Err(failure) => r matches Err(text) && text@ == failure.text(),
            },
    {
        let tracks: Vec<MediaTrack> = match opened {
            Ok(tracks) => tracks,
            Err(failure) => return Err(failure.message()),
        };
        let name: String = match name {
            Some(n) => n,
            None => String::from_str("unknown"),
        };
        let video = find_first(&tracks, true);
        let audio = find_first(&tracks, false);
        let mut width: u32 = 0;
        let mut height: u32 = 0;
        let mut fps = FrameRate { num: 0, den: 1 };
        let mut duration: i64 = 0;
        if let Some(v) = video {
            assert(tracks@[v as int].wf());
            if let TrackParams::Video(params) = &tracks[v].params {
                width = zero_if_none(params.width);
                height = zero_if_none(params.height);
            }
            fps = FrameRate::from_time_base(tracks[v].time_base);
            duration = tracks[v].length_nanos();
        }
        let mut audio_channels: u32 = 0;
        let mut audio_sample_rate: u32 = 0;
        if let Some(a) = audio {
            assert(tracks@[a as int].wf());
            if let TrackParams::Audio(params) = &tracks[a].params {
                audio_channels = match params.channels {
                    Some(n) => n,
                    None => 0,
                };
                audio_sample_rate = match params.sample_rate {
                    Some(n) => n,
                    None => 0,
                };
            }
            if video.is_none() {
                duration = tracks[a].length_nanos();
            }
        }
        if duration == 0 {
            duration = longest_nanos(&tracks);
        }
        Ok(
            MediaAsset {
                id,
                path,
                name,
                duration,
                width,
                height,
                fps,
                is_video: video.is_some(),
                is_image: false,
                audio_samples: None,
                audio_channels,
                audio_sample_rate,
            },
        )
    }

    /// Describes a still picture: it goes on video tracks, is silent and is shown for five
    /// seconds until it is trimmed.
    pub fn still_image(
        id: usize,
        path: PathBuf,
        name: Option<String>,
        width: u32,
        height: u32,
    ) -> (r: MediaAsset)
        ensures
            r.id == id,
            r.path == path,
            r.name@ == (match name {
                Some(n) => n@,
                None => unnamed(),
            }),
            r.duration == IMAGE_DURATION,
            r.width == width,
            r.height == height,
            r.fps == FrameRate::implied_by(None),
            r.is_video,
            r.is_image,
            r.audio_samples is None,
            r.audio_channels == 0,
            r.audio_sample_rate == 0,
    {
        let name: String = match name {
            Some(n) => n,
            None => String::from_str("unknown"),
        };
        MediaAsset {
            id,
            path,
            name,
            duration: IMAGE_DURATION,
            width,
            height,
            fps: FrameRate::from_time_base(None),
            is_video: true,
            is_image: true,
            audio_samples: None,
            audio_channels: 0,
            audio_sample_rate: 0,
        }
    }

    /// Whether the asset has sound to decode.
    pub open spec fn has_audio(self) -> bool {
        self.audio_channels > 0 && self.audio_sample_rate > 0
    }

    /// How long `samples` samples over all channels play.
    pub open spec fn samples_length(self, samples: int) -> int {
        crate::time::saturated_i64(
            samples * 1_000_000_000 / (self.audio_channels * self.audio_sample_rate),
        )
    }

    /// The asset with its sound decoded. A file without video is as long as its sound.
    pub open spec fn with_samples(self, samples: usize) -> MediaAsset {
        MediaAsset {
            audio_samples: Some(samples),
            duration: if !self.is_video && self.has_audio() {
                self.samples_length(samples as int) as i64
            } else {
                self.duration
            },
            ..self
        }
    }

    /// Notes that the asset's sound was decoded.
    pub fn set_samples(&mut self, samples: usize)
        ensures
            *final(self) == old(self).with_samples(samples),
    {
        self.audio_samples = Some(samples);
        if !self.is_video && self.audio_channels > 0 && self.audio_sample_rate > 0 {
            proof {
                let (a, b) = (self.audio_channels as int, self.audio_sample_rate as int);
                assert(1 <= a * b <= 0xffff_ffff * 0xffff_ffff) by (nonlinear_arith)
                    requires
                        1 <= a <= 0xffff_ffff,
                        1 <= b <= 0xffff_ffff,
                ;
            }
            let per_second: i128 = self.audio_channels as i128 * self.audio_sample_rate as i128;
            self.duration = crate::time::saturate_i64(
                crate::time::floor_div(samples as i128 * 1_000_000_000, per_second),
            );
        }
    }
}

// Decoding sound

/// What decoding a packet of sound gave.
#[derive(Debug)]
pub enum AudioOutcome {
    /// Samples, over all channels.
    Decoded(usize),
    /// The packet was damaged.
    Damaged,
    /// The decoder failed.
    Failed(String),
}

/// The decoding of a file's sound, packet by packet.
#[derive(Debug)]
pub struct AudioDecode {
    track_id: u32,
    samples: usize,
}

impl AudioDecode {
    /// The track whose packets are decoded.
    pub closed spec fn track(self) -> u32 {
        self.track_id
    }

    /// How many samples were decoded.
    pub closed spec fn count(self) -> int {
        self.samples as int
    }

    /// Begins with the first audio track of a file.
    pub fn begin(opened: Result<Vec<MediaTrack>, OpenFailure>) -> (r: Result<AudioDecode, String>)
        ensures
            match opened {
                Ok(tracks) => match first_audio(tracks@) {
                    Some(i) => r matches Ok(d) && d.track() == tracks@[i].id && d.count() == 0,
                    None => r matches Err(text) && text@ == "No audio track found for decoding"@,
                },
                Err(failure) => r matches Err(text) && text@ == failure.text(),
            },
    {
        match opened {
            Ok(tracks) => match find_first(&tracks, false) {
                Some(i) => Ok(AudioDecode { track_id: tracks[i].id, samples: 0 }),
                None => Err(String::from_str("No audio track found for decoding")),
            },
            Err(failure) => Err(failure.message()),
        }
    }

    /// Whether a packet of the given track is to be decoded.
    pub fn wants(&self, track_id: u32) -> (r: bool)
        ensures
            r == (track_id == self.track()),
    {
        track_id == self.track_id
    }

    /// Takes in what a packet gave. Damaged packets are skipped; a failure of the decoder
    /// ends the decoding.
    pub fn take(&mut self, outcome: AudioOutcome) -> (r: Result<(), String>)
        requires
            outcome matches AudioOutcome::Decoded(n) ==> old(self).count() + n <= usize::MAX,
        ensures
            final(self).track() == old(self).track(),
            match outcome {
                AudioOutcome::Decoded(n) => r is Ok && final(self).count() == old(self).count() + n,
                AudioOutcome::Damaged => r is Ok && final(self).count() == old(self).count(),
                AudioOutcome::Failed(cause) => r matches Err(text) && text@
                    == "Audio decode error: "@ + cause@ && final(self).count() == old(
                    self,
                ).count(),
            },
    {
        match outcome {
            AudioOutcome::Decoded(n) => {
                self.samples = self.samples + n;
                Ok(())
            },
            AudioOutcome::Damaged => Ok(()),
            AudioOutcome::Failed(cause) => {
                let mut text: String = String::from_str("Audio decode error: ");
                text.append(cause.as_str());
                Err(text)
            },
        }
    }

    /// Ends the decoding: how many samples there are, and that there are some.
    pub fn finish(self) -> (r: Result<usize, String>)
        ensures
            match r {
                Ok(n) => n == self.count() && n > 0,
                Err(text) => self.count() == 0 && text@ == "No audio samples decoded"@,
            },
    {
        if self.samples == 0 {
            Err(String::from_str("No audio samples decoded"))
        } else {
            Ok(self.samples)
        }
    }
}

/// The message when no decoder for a file's sound can be made.
pub fn audio_decoder_failure(cause: &String) -> (r: String)
    ensures
        r@ == "Failed to create audio decoder: "@ + cause@,
{
    let mut text: String = String::from_str("Failed to create audio decoder: ");
    text.append(cause.as_str());
    text
}

} // verus!
