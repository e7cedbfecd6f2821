//! Finding the frame at an instant of a video file.
//!
//! The caller reads packets and seeks; the types here say when to seek, decode the packets
//! and pick the frame.

use crate::codec::find_video_track;
use crate::h264::{RgbFrame, VideoDecoder};
use crate::media::MediaTrack;
use crate::pixels::{is_complete, yuv420p_to_rgba, YuvFrame};
use crate::preview::{CachedFrame, FrameKey};
use crate::time::floor_div;
use openh264::decoder::Decoder;
use vstd::prelude::*;

verus! {

/// Packets that are tried for a frame.
pub const MAX_PACKETS: u32 = 120;

/// How far ahead a frame may lie before it is sought, in nanoseconds.
pub const MAX_AHEAD: i64 = 1_500_000_000;

/// The time of the last decoded frame when there is none, in nanoseconds.
pub const NEVER: i64 = -999_000_000_000;

/// How a packet of a track is numbered and what it holds.
#[derive(Debug)]
pub struct Packet {
    pub track_id: u32,
    pub pts: i64,
    pub data: Vec<u8>,
}

// Preview

/// Whether the frame at `pts` is shown for `target`: it is not before it, or less than a
/// twentieth of a second.
pub open spec fn shows(pts: int, target: int) -> bool {
    pts >= target || target - pts < 50_000_000
}

/// Turns a decoded picture into a frame to keep; `None` where bytes of the picture are
/// missing.
pub fn frame_of(picture: &YuvFrame, key: FrameKey) -> (r: Option<CachedFrame>)
    ensures
        match r {
            Some(f) => {
                &&& picture@.complete()
                &&& f.key == key
                &&& f.width == picture.width
                &&& f.height == picture.height
                &&& f.rgba@ == picture@.picture().rgba()
            },
            None => !picture@.complete(),
        },
{
    if is_complete(picture) {
        Some(
            CachedFrame {
                key,
                width: picture.width,
                height: picture.height,
                rgba: yuv420p_to_rgba(picture),
            },
        )
    } else {
        None
    }
}

/// What came of a packet.
pub enum PreviewStep {
    /// Not the frame yet.
    Waiting,
    /// The frame.
    Found(CachedFrame),
    /// The frame, but bytes of it are missing.
    Broken,
}

/// What is to be done for a frame.
#[derive(Clone, Copy, Debug, PartialEq, Eq, Structural)]
pub enum SeekPlan {
    /// The file has no frames.
    Skip,
    /// Read on.
    ReadOn,
    /// Go to this tick of the track's clock and read from there. Says whether the decoder has
    /// started over; else no new one could be made.
    SeekTo { tick: i64, restarted: bool },
}

/// The decoder of the file that the preview shows.
pub struct PreviewDecoder {
    opened: bool,
    video: Option<VideoDecoder>,
    last_decoded: i64,
    tried: u32,
}

impl PreviewDecoder {
    /// Whether a file is open.
    pub closed spec fn is_open(self) -> bool {
        self.opened
    }

    /// The decoder of the file's video track, if it has one.
    pub closed spec fn video(self) -> Option<VideoDecoder> {
        self.video
    }

    /// The time of the last decoded frame.
    pub closed spec fn last(self) -> int {
        self.last_decoded as int
    }

    /// How many packets were tried for the frame.
    pub closed spec fn attempts(self) -> int {
        self.tried as int
    }

    pub open spec fn wf(self) -> bool {
        self.video() matches Some(v) ==> v.wf()
    }

    pub fn new() -> (r: PreviewDecoder)
        ensures
            !r.is_open(),
            r.video() is None,
            r.last() == NEVER,
            r.attempts() == 0,
            r.wf(),
    {
        PreviewDecoder { opened: false, video: None, last_decoded: NEVER, tried: 0 }
    }

    /// Whether the file has to be opened: it is not the one that is open.
    pub fn needs_open(&self, same_file: bool) -> (r: bool)
        ensures
            r == (!same_file || !self.is_open()),
    {
        !same_file || !self.opened
    }

    /// Turns to a file with the given tracks, or to none if it could not be read. There is
    /// nothing to decode if it has no H.264 track of known size or no decoder can be made.
    pub fn open(&mut self, tracks: Option<Vec<MediaTrack>>)
        requires
            tracks matches Some(ts) ==> forall|i: int|
                0 <= i < ts@.len() ==> (#[trigger] ts@[i]).wf(),
        ensures
            final(self).is_open() == (tracks is Some),
            final(self).last() == old(self).last(),
            final(self).attempts() == old(self).attempts(),
            final(self).wf(),
            final(self).video() matches Some(v) ==> (tracks matches Some(ts)
                && crate::codec::video_track(ts@) == Some(v.track())) && v.fed()
                == crate::h264::primed(v.track().annexb_header),
    {
        let opened: bool = tracks.is_some();
        let mut video: Option<VideoDecoder> = None;
        if let Some(ts) = tracks {
            if let Some(info) = find_video_track(&ts) {
                proof {
                    lemma_video_track_wf(ts@);
                }
                video = VideoDecoder::open(info);
            }
        }
        self.open_with(opened, video);
    }

    /// Turns to a file, or to none, and to the decoder of its video track, if it has one that
    /// could be made.
    pub fn open_with(&mut self, opened: bool, video: Option<VideoDecoder>)
        requires
            video matches Some(v) ==> v.wf(),
        ensures
            final(self).is_open() == opened,
            final(self).video() == video,
            final(self).last() == old(self).last(),
            final(self).attempts() == old(self).attempts(),
            final(self).wf(),
    {
        self.opened = opened;
        self.video = video;
    }

    /// Whether the file has to be sought for the frame at `target`: it was just opened, or the
    /// frame lies before the last one or far behind it.
    pub open spec fn must_seek(self, just_opened: bool, target: int) -> bool {
        just_opened || target < self.last() || target - self.last() > 1_500_000_000
    }

    /// The tick to seek to for the frame at `target`.
    pub open spec fn tick_of(track: crate::codec::VideoTrackModel, target: int) -> i64 {
        crate::time::saturated_i64(
            crate::time::truncated_quotient(
                target * track.time_base.denom,
                track.time_base.numer * 1_000_000_000,
            ),
        ) as i64
    }

    fn needs_seek(&self, just_opened: bool, target: i64) -> (r: bool)
        ensures
            r == self.must_seek(just_opened, target as int),
    {
        let ahead: i128 = target as i128 - self.last_decoded as i128;
        just_opened || ahead < 0 || ahead > MAX_AHEAD as i128
    }

    /// Begins the search for the frame at `target`. If the file was just opened, or the
    /// frame lies before the last one or far behind it, the decoder starts over, with the
    /// parameter sets fed again, and the file is to be sought. Where no new decoder can be
    /// made, the old one stays.
    pub fn begin(&mut self, just_opened: bool, target: i64) -> (r: SeekPlan)
        requires
            old(self).wf(),
        ensures
            final(self).wf(),
            final(self).is_open() == old(self).is_open(),
            final(self).attempts() == 0,
            match old(self).video() {
                None => r == SeekPlan::Skip && final(self).video() is None && final(self).last()
                    == old(self).last(),
                Some(v) => {
                    &&& final(self).video() matches Some(w)
                    &&& w.track() == v.track()
                    &&& if old(self).must_seek(just_opened, target as int) {
                        &&& r matches SeekPlan::SeekTo { tick, restarted }
                        &&& tick == Self::tick_of(v.track(), target as int)
                        &&& w.fed() == if restarted {
                            crate::h264::primed(v.track().annexb_header)
                        } else {
                            v.fed()
                        }
                        &&& final(self).last() == NEVER
                    } else {
                        &&& r == SeekPlan::ReadOn
                        &&& w.fed() == v.fed()
                        &&& final(self).last() == old(self).last()
                    }
                },
            },
    {
        let primed: Option<Decoder> = if self.needs_seek(just_opened, target) {
            match &self.video {
                Some(video) => video.fresh(),
                None => None,
            }
        } else {
            None
        };
        self.begin_with(just_opened, target, primed)
    }

    /// Begins the search for the frame at `target`, as above, with what making a decoder and
    /// feeding it the parameter sets gave. The decoder starts over exactly where the file is
    /// to be sought and one could be made.
    pub fn begin_with(&mut self, just_opened: bool, target: i64, primed: Option<Decoder>) -> (r:
        SeekPlan)
        requires
            old(self).wf(),
        ensures
            final(self).wf(),
            final(self).is_open() == old(self).is_open(),
            final(self).attempts() == 0,
            match old(self).video() {
                None => r == SeekPlan::Skip && final(self).video() is None && final(self).last()
                    == old(self).last(),
                Some(v) => {
                    &&& final(self).video() matches Some(w)
                    &&& w.track() == v.track()
                    &&& if old(self).must_seek(just_opened, target as int) {
                        &&& r == (SeekPlan::SeekTo {
                            tick: Self::tick_of(v.track(), target as int),
                            restarted: primed is Some,
                        })
                        &&& w.fed() == match primed {
                            Some(d) => crate::h264::decoder_fed(d),
                            None => v.fed(),
                        }
                        &&& final(self).last() == NEVER
                    } else {
                        &&& r == SeekPlan::ReadOn
                        &&& w.fed() == v.fed()
                        &&& final(self).last() == old(self).last()
                    }
                },
            },
    {
        let seek: bool = self.needs_seek(just_opened, target);
        self.tried = 0;
        match &mut self.video {
            Some(video) => {
                if seek {
                    let restarted: bool = video.reset_with(primed);
                    let tick: i64 = video.time_base().ticks_at(target);
                    self.last_decoded = NEVER;
                    SeekPlan::SeekTo { tick, restarted }
                } else {
                    SeekPlan::ReadOn
                }
            },
            None => SeekPlan::Skip,
        }
    }

    /// Whether another packet is to be tried.
    pub fn wants_packet(&self) -> (r: bool)
        ensures
            r == (self.attempts() < 120),
    {
        self.tried < MAX_PACKETS
    }

    /// Tries a packet for the frame at `target`.
    pub fn offer(&mut self, key: FrameKey, target: i64, packet: &Packet) -> (r: PreviewStep)
        requires
            old(self).wf(),
            old(self).attempts() < 120,
            old(self).video() matches Some(v) ==> v.unit(packet.data@).len() <= i32::MAX,
        ensures
            final(self).wf(),
            final(self).is_open() == old(self).is_open(),
            final(self).attempts() == old(self).attempts() + 1,
            match old(self).video() {
                Some(v) => {
                    &&& final(self).video() matches Some(w)
                    &&& w.track() == v.track()
                    &&& if packet.track_id != v.track().track_id {
                        r is Waiting && w.fed() == v.fed() && final(self).last() == old(self).last()
                    } else {
                        &&& w.fed() == v.fed().push(v.unit(packet.data@))
                        &&& match crate::h264::h264_picture(w.fed()) {
                            None => r is Waiting && final(self).last() == old(self).last(),
                            Some(p) => {
                                let pts = crate::time::saturated_i64(
                                    v.track().time_base.instant(packet.pts as int),
                                );
                                &&& final(self).last() == pts
                                &&& if shows(pts, target as int) {
                                    if p.complete() {
                                        r matches PreviewStep::Found(f) && f.key == key && f.width
                                            == p.width && f.height == p.height && f.rgba@
                                            == p.rgba()
                                    } else {
                                        r is Broken
                                    }
                                } else {
                                    r is Waiting
                                }
                            },
                        }
                    }
                },
                None => r is Waiting && final(self).video() is None && final(self).last() == old(self).last(),
            },
    {
        self.tried = self.tried + 1;
        match &mut self.video {
            Some(video) => {
                if packet.track_id != video.track_id() {
                    return PreviewStep::Waiting;
                }
                match video.decode(&packet.data) {
                    Some(picture) => {
                        let pts: i64 = video.time_base().nanos_of_pts(packet.pts);
                        self.last_decoded = pts;
                        if pts >= target || (target as i128 - pts as i128) < 50_000_000 {
                            match frame_of(&picture, key) {
                                Some(frame) => PreviewStep::Found(frame),
                                None => PreviewStep::Broken,
                            }
                        } else {
                            PreviewStep::Waiting
                        }
                    },
                    None => PreviewStep::Waiting,
                }
            },
            None => PreviewStep::Waiting,
        }
    }
}

/// The video track of tracks with valid time bases has a valid time base.
proof fn lemma_video_track_wf(tracks: Seq<MediaTrack>)
    requires
        forall|i: int| 0 <= i < tracks.len() ==> (#[trigger] tracks[i]).wf(),
    ensures
        crate::codec::video_track(tracks) matches Some(t) ==> t.time_base.wf(),
{
    crate::search::first_where_is_first(tracks, crate::codec::usable());
}

// Export

/// What came of a packet.
pub enum ExportStep {
    /// Not the frame yet.
    Waiting,
    /// The frame.
    Found(RgbFrame),
}

/// What is to be done for a frame.
#[derive(Clone, Copy, Debug, PartialEq, Eq, Structural)]
pub enum ReadPlan {
    /// Read on.
    ReadOn,
    /// The file was sought, the decoder has started over.
    Restarted,
    /// No new decoder could be made.
    Failed,
}

/// The number by which the last packet is known. Packets are counted from zero: one before
/// that is taken for one far ahead, so that the file is sought anew.
pub open spec fn packet_number(pts: int) -> int {
    if pts < 0 {
        pts + 0x1_0000_0000_0000_0000
    } else {
        pts
    }
}

fn number_packet(pts: i64) -> (r: u64)
    ensures
        r == packet_number(pts as int),
{
    if pts < 0 {
        u64::MAX - (-1 - pts) as u64
    } else {
        pts as u64
    }
}

/// The decoder of a file during an export.
pub struct ExportDecoder {
    video: VideoDecoder,
    last_pts: u64,
    tried: u32,
}

impl ExportDecoder {
    pub closed spec fn video(self) -> VideoDecoder {
        self.video
    }

    /// The number of the last packet.
    pub closed spec fn last(self) -> int {
        self.last_pts as int
    }

    /// How many packets were tried for the frame.
    pub closed spec fn attempts(self) -> int {
        self.tried as int
    }

    pub open spec fn wf(self) -> bool {
        self.video().wf()
    }

    /// The time of the last packet.
    pub open spec fn last_time(self) -> int {
        self.video().track().time_base.instant(self.last())
    }

    /// Whether the frame at `target` lies before the last one or far behind it.
    pub open spec fn must_seek(self, target: int) -> bool {
        target < self.last_time() || target > self.last_time() + 1_500_000_000
    }

    /// Turns to a file with the given tracks. There is nothing to decode where the file has
    /// no H.264 track of known size, or no decoder can be made.
    pub fn open(tracks: &Vec<MediaTrack>) -> (r: Option<ExportDecoder>)
        requires
            forall|i: int| 0 <= i < tracks@.len() ==> (#[trigger] tracks@[i]).wf(),
        ensures
            crate::codec::video_track(tracks@) is None ==> r is None,
            r matches Some(d) ==> {
                &&& d.wf()
                &&& crate::codec::video_track(tracks@) == Some(d.video().track())
                &&& d.video().fed() == crate::h264::primed(d.video().track().annexb_header)
                &&& d.last() == 0
                &&& d.attempts() == 0
            },
    {
        proof {
            lemma_video_track_wf(tracks@);
        }
        match find_video_track(tracks) {
            Some(info) => ExportDecoder::of_video(VideoDecoder::open(info)),
            None => None,
        }
    }

    /// Begins with the decoder of a file's video track, exactly where there is one.
    pub fn of_video(video: Option<VideoDecoder>) -> (r: Option<ExportDecoder>)
        ensures
            match video {
                Some(v) => r matches Some(d) && d.video() == v && d.last() == 0 && d.attempts()
                    == 0,
                None => r is None,
            },
    {
        match video {
            Some(video) => Some(ExportDecoder { video, last_pts: 0, tried: 0 }),
            None => None,
        }
    }

    /// Whether the file has to be sought for the frame at `target`.
    pub fn needs_seek(&self, target: i64) -> (r: bool)
        requires
            self.wf(),
        ensures
            r == self.must_seek(target as int),
    {
        let base = self.video.time_base();
        proof {
            let (a, b) = (self.last_pts as int, base.numer as int);
            assert(0 <= a * b <= 0xffff_ffff_ffff_ffff * 0xffff_ffff) by (nonlinear_arith)
                requires
                    0 <= a <= 0xffff_ffff_ffff_ffff,
                    0 <= b <= 0xffff_ffff,
            ;
        }
        let last: i128 = floor_div(
            self.last_pts as i128 * base.numer as i128 * 1_000_000_000,
            base.denom as i128,
        );
        (target as i128) < last || target as i128 - MAX_AHEAD as i128 > last
    }

    /// Begins the search for the frame at `target`. Where the file had to be sought, the
    /// decoder starts over, with the parameter sets fed again.
    pub fn begin(&mut self, target: i64) -> (r: ReadPlan)
        requires
            old(self).wf(),
        ensures
            final(self).wf(),
            final(self).video().track() == old(self).video().track(),
            final(self).attempts() == 0,
            if old(self).must_seek(target as int) {
                if r == ReadPlan::Restarted {
                    &&& final(self).video().fed() == crate::h264::primed(
                        old(self).video().track().annexb_header,
                    )
                    &&& final(self).last() == 0
                } else {
                    &&& r == ReadPlan::Failed
                    &&& final(self).video().fed() == old(self).video().fed()
                    &&& final(self).last() == old(self).last()
                }
            } else {
                &&& r == ReadPlan::ReadOn
                &&& final(self).video().fed() == old(self).video().fed()
                &&& final(self).last() == old(self).last()
            },
    {
        let primed: Option<Decoder> = if self.needs_seek(target) {
            self.video.fresh()
        } else {
            None
        };
        self.begin_with(target, primed)
    }

    /// Begins the search for the frame at `target`, as above, with what making a decoder and
    /// feeding it the parameter sets gave. Where the file had to be sought, the decoder starts
    /// over if one could be made; else the search has failed.
    pub fn begin_with(&mut self, target: i64, primed: Option<Decoder>) -> (r: ReadPlan)
        requires
            old(self).wf(),
        ensures
            final(self).wf(),
            final(self).video().track() == old(self).video().track(),
            final(self).attempts() == 0,
            match primed {
                Some(d) if old(self).must_seek(target as int) => {
                    &&& r == ReadPlan::Restarted
                    &&& final(self).video().fed() == crate::h264::decoder_fed(d)
                    &&& final(self).last() == 0
                },
                _ => {
                    &&& r == if old(self).must_seek(target as int) {
                        ReadPlan::Failed
                    } else {
                        ReadPlan::ReadOn
                    }
                    &&& final(self).video().fed() == old(self).video().fed()
                    &&& final(self).last() == old(self).last()
                },
            },
    {
        let seek: bool = self.needs_seek(target);
        self.tried = 0;
        if seek {
            if self.video.reset_with(primed) {
                self.last_pts = 0;
                ReadPlan::Restarted
            } else {
                ReadPlan::Failed
            }
        } else {
            ReadPlan::ReadOn
        }
    }

    /// Whether another packet is to be tried.
    pub fn wants_packet(&self) -> (r: bool)
        ensures
            r == (self.attempts() < 120),
    {
        self.tried < MAX_PACKETS
    }

    /// Tries a packet for the frame at `target`: the first picture that lies no more than
    /// forty milliseconds before it is the frame.
    pub fn offer(&mut self, target: i64, packet: &Packet) -> (r: ExportStep)
        requires
            old(self).wf(),
            old(self).attempts() < 120,
            old(self).video().unit(packet.data@).len() <= i32::MAX,
        ensures
            final(self).wf(),
            final(self).video().track() == old(self).video().track(),
            final(self).attempts() == old(self).attempts() + 1,
            if packet.track_id != old(self).video().track().track_id {
                r is Waiting && final(self).video().fed() == old(self).video().fed() && final(self).last() == old(self).last()
            } else {
                &&& final(self).last() == packet_number(packet.pts as int)
                &&& final(self).video().fed() == old(self).video().fed().push(
                    old(self).video().unit(packet.data@),
                )
                &&& match crate::h264::h264_picture(final(self).video().fed()) {
                    Some(p) => if crate::time::saturated_i64(
                        old(self).video().track().time_base.instant(packet.pts as int),
                    ) >= target - 40_000_000 {
                        r matches ExportStep::Found(f) && f.width == p.width && f.height
                            == p.height && f.rgb@.len() == p.width * p.height * 3 && f.rgb@
                            == final(self).video().rgb()
                    } else {
                        r is Waiting
                    },
                    None => r is Waiting,
                }
            },
    {
        self.tried = self.tried + 1;
        if packet.track_id != self.video.track_id() {
            return ExportStep::Waiting;
        }
        self.last_pts = number_packet(packet.pts);
        let pts: i64 = self.video.time_base().nanos_of_pts(packet.pts);
        match self.video.decode_rgb(&packet.data) {
            Some(frame) => {
                if pts as i128 >= target as i128 - 40_000_000 {
                    ExportStep::Found(frame)
                } else {
                    ExportStep::Waiting
                }
            },
            None => ExportStep::Waiting,
        }
    }
}

} // verus!
