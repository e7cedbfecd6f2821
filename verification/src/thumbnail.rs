//! Poster-frame thumbnails for timeline clips.

use crate::codec::find_video_track;
use crate::h264::{RgbFrame, VideoDecoder};
use crate::media::MediaTrack;
use crate::pixels::rgb_to_rgba;
use crate::resample::{resize_rgba, sizes_can_scale};
use std::collections::VecDeque;
use std::path::PathBuf;
use vstd::prelude::*;

verus! {

/// A thumbnail that someone asked for.
pub struct ThumbRequest {
    pub asset_id: usize,
    pub path: PathBuf,
    pub is_image: bool,
}

/// A finished thumbnail.
pub struct ThumbResponse {
    pub asset_id: usize,
    pub width: usize,
    pub height: usize,
    pub rgba: Vec<u8>,
}

/// The two queues between the editor and the thumbnail worker.
pub struct ThumbnailService {
    pub pending: VecDeque<ThumbRequest>,
    pub ready: VecDeque<ThumbResponse>,
}

/// The two queues as mathematical sequences.
#[verifier::ext_equal]
pub struct ThumbQueues {
    pub pending: Seq<ThumbRequest>,
    pub ready: Seq<ThumbResponse>,
}

impl View for ThumbnailService {
    type V = ThumbQueues;

    open spec fn view(&self) -> ThumbQueues {
        ThumbQueues { pending: self.pending@, ready: self.ready@ }
    }
}

impl ThumbQueues {
    /// Two empty queues.
    pub open spec fn empty() -> ThumbQueues {
        ThumbQueues { pending: Seq::empty(), ready: Seq::empty() }
    }

    /// One more thumbnail was asked for.
    pub open spec fn asked(self, request: ThumbRequest) -> ThumbQueues {
        ThumbQueues { pending: self.pending.push(request), ..self }
    }

    /// The first thumbnail that was asked for was taken up, if there is one.
    pub open spec fn taken(self) -> ThumbQueues {
        if self.pending.len() == 0 {
            self
        } else {
            ThumbQueues { pending: self.pending.skip(1), ..self }
        }
    }

    /// A thumbnail was finished.
    pub open spec fn delivered(self, response: ThumbResponse) -> ThumbQueues {
        ThumbQueues { ready: self.ready.push(response), ..self }
    }

    /// The first finished thumbnail was picked up, if there is one.
    pub open spec fn read(self) -> ThumbQueues {
        if self.ready.len() == 0 {
            self
        } else {
            ThumbQueues { ready: self.ready.skip(1), ..self }
        }
    }
}

impl ThumbnailService {
    pub fn new() -> (r: ThumbnailService)
        ensures
            r@ == ThumbQueues::empty(),
    {
        ThumbnailService { pending: VecDeque::new(), ready: VecDeque::new() }
    }

    /// Queues a thumbnail decode for an asset.
    pub fn request(&mut self, asset_id: usize, path: PathBuf, is_image: bool)
        ensures
            final(self)@ == old(self)@.asked(ThumbRequest { asset_id, path, is_image }),
    {
        self.pending.push_back(ThumbRequest { asset_id, path, is_image });
    }

    /// Takes the next thumbnail to decode, in the order in which they were asked for.
    pub fn next_request(&mut self) -> (r: Option<ThumbRequest>)
        ensures
            final(self)@ == old(self)@.taken(),
            r == if old(self)@.pending.len() == 0 {
                None
            } else {
                Some(old(self)@.pending[0])
            },
    {
        self.pending.pop_front()
    }

    /// Hands over a finished thumbnail.
    pub fn deliver(&mut self, response: ThumbResponse)
        ensures
            final(self)@ == old(self)@.delivered(response),
    {
        self.ready.push_back(response);
    }

    /// Takes the next finished thumbnail, in the order in which they were finished.
    pub fn next_response(&mut self) -> (r: Option<ThumbResponse>)
        ensures
            final(self)@ == old(self)@.read(),
            r == if old(self)@.ready.len() == 0 {
                None
            } else {
                Some(old(self)@.ready[0])
            },
    {
        self.ready.pop_front()
    }
}

// A run of the service

/// Something that happens at a thumbnail service with one worker.
pub enum ThumbEvent {
    /// The editor asks for a thumbnail.
    Ask(ThumbRequest),
    /// The worker, if it is free, takes up the next one.
    Take,
    /// The worker is done with the one that it took up.
    Finish,
    /// The editor picks up a finished thumbnail, if there is one.
    Read,
}

/// A thumbnail service with its worker, and what the editor has picked up.
#[verifier::ext_equal]
pub struct ThumbRun {
    pub queues: ThumbQueues,
    /// What the worker has taken up.
    pub working: Option<ThumbRequest>,
    /// What the worker was done with.
    pub done: Seq<ThumbRequest>,
    pub picked_up: Seq<ThumbResponse>,
}

/// What decoding a request gives, if it gives a thumbnail.
pub type ThumbMaker = spec_fn(ThumbRequest) -> Option<ThumbResponse>;

impl ThumbRun {
    /// A new service.
    pub open spec fn begin() -> ThumbRun {
        ThumbRun {
            queues: ThumbQueues::empty(),
            working: None,
            done: Seq::empty(),
            picked_up: Seq::empty(),
        }
    }

    /// The service after one more event.
    pub open spec fn after(self, event: ThumbEvent, make: ThumbMaker) -> ThumbRun {
        match event {
            ThumbEvent::Ask(request) => ThumbRun { queues: self.queues.asked(request), ..self },
            ThumbEvent::Take => if self.working is None && self.queues.pending.len() > 0 {
                ThumbRun {
                    queues: self.queues.taken(),
                    working: Some(self.queues.pending[0]),
                    ..self
                }
            } else {
                self
            },
            ThumbEvent::Finish => match self.working {
                Some(request) => ThumbRun {
                    queues: match make(request) {
                        Some(response) => self.queues.delivered(response),
                        None => self.queues,
                    },
                    working: None,
                    done: self.done.push(request),
                    ..self
                },
                None => self,
            },
            ThumbEvent::Read => if self.queues.ready.len() > 0 {
                ThumbRun {
                    queues: self.queues.read(),
                    picked_up: self.picked_up.push(self.queues.ready[0]),
                    ..self
                }
            } else {
                self
            },
        }
    }

    /// A new service after some events.
    pub open spec fn through(events: Seq<ThumbEvent>, make: ThumbMaker) -> ThumbRun
        decreases events.len(),
    {
        if events.len() == 0 {
            ThumbRun::begin()
        } else {
            ThumbRun::through(events.drop_last(), make).after(events.last(), make)
        }
    }

    /// Whether all that was asked for was decoded and picked up.
    pub open spec fn is_idle(self) -> bool {
        self.queues == ThumbQueues::empty() && self.working is None
    }
}

/// What was asked for, in that order.
pub open spec fn requests(events: Seq<ThumbEvent>) -> Seq<ThumbRequest>
    decreases events.len(),
{
    if events.len() == 0 {
        Seq::empty()
    } else {
        let before = requests(events.drop_last());
        match events.last() {
            ThumbEvent::Ask(request) => before.push(request),
            _ => before,
        }
    }
}

/// The thumbnails of the requests that give one, one for each and in the same order.
pub open spec fn answers(asked: Seq<ThumbRequest>, make: ThumbMaker) -> Seq<ThumbResponse>
    decreases asked.len(),
{
    if asked.len() == 0 {
        Seq::empty()
    } else {
        let before = answers(asked.drop_last(), make);
        match make(asked.last()) {
            Some(response) => before.push(response),
            None => before,
        }
    }
}

/// Thumbnails come back in the order in which they were asked for, exactly one for each
/// request that gives one and nothing for the others, however asking, decoding and picking up
/// mix. What has come back so far are the answers to the first requests.
pub proof fn thumbnails_come_in_order(events: Seq<ThumbEvent>, make: ThumbMaker)
    ensures
        ({
            let run = ThumbRun::through(events, make);
            let under_way = match run.working {
                Some(request) => seq![request],
                None => Seq::empty(),
            };
            &&& run.done + under_way + run.queues.pending == requests(events)
            &&& run.picked_up + run.queues.ready == answers(run.done, make)
            &&& run.is_idle() ==> run.picked_up == answers(requests(events), make)
        }),
    decreases events.len(),
{
    let run = ThumbRun::through(events, make);
    if events.len() == 0 {
        assert(run.done + Seq::<ThumbRequest>::empty() + run.queues.pending =~= requests(events));
        assert(run.picked_up + run.queues.ready =~= answers(run.done, make));
    } else {
        let events0 = events.drop_last();
        thumbnails_come_in_order(events0, make);
        let was = ThumbRun::through(events0, make);
        let none = Seq::<ThumbRequest>::empty();
        match events.last() {
            ThumbEvent::Ask(request) => {
                let at = match was.working {
                    Some(q) => seq![q],
                    None => none,
                };
                assert(was.done + at + was.queues.pending.push(request) =~= (was.done + at
                    + was.queues.pending).push(request));
            },
            ThumbEvent::Take => {
                if was.working is None && was.queues.pending.len() > 0 {
                    let q = was.queues.pending[0];
                    assert(was.done + seq![q] + was.queues.pending.skip(1) =~= was.done + none
                        + was.queues.pending);
                }
            },
            ThumbEvent::Finish => {
                if let Some(q) = was.working {
                    assert(was.done.push(q) + none + was.queues.pending =~= was.done + seq![q]
                        + was.queues.pending);
                    assert(was.done.push(q).drop_last() =~= was.done);
                    if let Some(t) = make(q) {
                        assert(was.picked_up + was.queues.ready.push(t) =~= (was.picked_up
                            + was.queues.ready).push(t));
                    }
                }
            },
            ThumbEvent::Read => {
                if was.queues.ready.len() > 0 {
                    let t = was.queues.ready[0];
                    assert(was.picked_up.push(t) + was.queues.ready.skip(1) =~= was.picked_up
                        + was.queues.ready);
                }
            },
        }
    }
    if run.is_idle() {
        assert(run.done + Seq::<ThumbRequest>::empty() + run.queues.pending =~= run.done);
        assert(run.picked_up + run.queues.ready =~= run.picked_up);
    }
}

/// Height of a thumbnail in pixels.
pub const THUMB_H: usize = 64;

/// Packets that are tried before a file is given up.
pub const MAX_PACKETS: u32 = 600;

/// The width of a thumbnail: that which keeps the picture's proportions, rounded, and at
/// least one pixel.
pub open spec fn thumb_width(width: int, height: int) -> int {
    let w = (width * 128 + height) / (2 * height);
    if w < 1 {
        1
    } else {
        w
    }
}

/// Whether a picture can be scaled to its thumbnail. Empty pictures are not scaled.
pub open spec fn thumb_fits(width: int, height: int) -> bool {
    width > 0 && height > 0 ==> crate::resample::can_scale(
        width,
        height,
        thumb_width(width, height),
        64,
    )
}

/// A picture at the size of a thumbnail. Empty pictures, and those of which bytes are
/// missing, stay as they are.
pub open spec fn downscaled(rgba: Seq<u8>, width: int, height: int) -> (Seq<u8>, int, int) {
    if width == 0 || height == 0 || rgba.len() < width * height * 4 {
        (rgba, width, height)
    } else {
        (
            crate::resample::scaled_rgba(rgba, width, height, thumb_width(width, height), 64),
            thumb_width(width, height),
            64,
        )
    }
}

fn find_thumb_width(width: usize, height: usize) -> (r: u128)
    requires
        height > 0,
    ensures
        r == thumb_width(width as int, height as int),
{
    let w: u128 = (width as u128 * 128 + height as u128) / (2 * height as u128);
    if w < 1 {
        1
    } else {
        w
    }
}

/// Checks whether a picture can be scaled to its thumbnail.
fn does_thumb_fit(width: usize, height: usize) -> (r: bool)
    ensures
        r == thumb_fits(width as int, height as int),
{
    if width == 0 || height == 0 {
        return true;
    }
    let new_width: u128 = find_thumb_width(width, height);
    new_width <= u32::MAX as u128 && sizes_can_scale(width, height, new_width as usize, THUMB_H)
}

/// Checks whether there are four bytes for every pixel.
fn has_all_bytes(length: usize, width: usize, height: usize) -> (r: bool)
    ensures
        r == (length >= width * height * 4),
{
    proof {
        let (w, h) = (width as int, height as int);
        assert(0 <= w * h <= 0xffff_ffff_ffff_ffff * 0xffff_ffff_ffff_ffff) by (nonlinear_arith)
            requires
                0 <= w <= 0xffff_ffff_ffff_ffff,
                0 <= h <= 0xffff_ffff_ffff_ffff,
        ;
    }
    length as u128 / 4 >= width as u128 * height as u128
}

/// Scales a picture to the size of a thumbnail.
pub fn downscale_rgba(rgba: Vec<u8>, width: usize, height: usize) -> (r: (Vec<u8>, usize, usize))
    requires
        rgba@.len() >= width * height * 4 ==> thumb_fits(width as int, height as int),
    ensures
        (r.0@, r.1 as int, r.2 as int) == downscaled(rgba@, width as int, height as int),
        width > 0 && height > 0 && rgba@.len() >= width * height * 4 ==> r.0@.len() == r.1 * r.2
            * 4,
{
    if width == 0 || height == 0 || !does_thumb_fit(width, height) {
        return (rgba, width, height);
    }
    let new_width: u32 = find_thumb_width(width, height) as u32;
    match resize_rgba(&rgba, width as u32, height as u32, new_width, 64) {
        Some(scaled) => (scaled, new_width as usize, THUMB_H),
        None => (rgba, width, height),
    }
}

/// Makes the thumbnail of an asset from its picture; `None` where the picture is too large
/// to be scaled.
pub fn make_thumb(asset_id: usize, rgba: Vec<u8>, width: usize, height: usize) -> (r: Option<
    ThumbResponse,
>)
    ensures
        r is Some <==> (rgba@.len() >= width * height * 4 ==> thumb_fits(
            width as int,
            height as int,
        )),
        r matches Some(t) ==> t.asset_id == asset_id && (
            t.rgba@,
            t.width as int,
            t.height as int,
        ) == downscaled(rgba@, width as int, height as int) && (width > 0 && height > 0
            && rgba@.len() >= width * height * 4 ==> t.rgba@.len() == t.width * t.height * 4),
{
    if has_all_bytes(rgba.len(), width, height) && !does_thumb_fit(width, height) {
        return None;
    }
    let (rgba, width, height) = downscale_rgba(rgba, width, height);
    Some(ThumbResponse { asset_id, width, height, rgba })
}

/// The search for the first picture of a video file.
pub struct ThumbDecode {
    asset_id: usize,
    video: VideoDecoder,
    attempts: u32,
}

/// What came of a packet.
pub enum ThumbStep {
    /// No picture yet.
    Waiting,
    /// The thumbnail.
    Done(ThumbResponse),
    /// The picture is too large to be scaled.
    TooLarge,
}

/// Makes the thumbnail of an asset from a decoded picture.
pub fn thumb_of(asset_id: usize, frame: RgbFrame) -> (r: ThumbStep)
    requires
        frame.rgb@.len() == frame.width * frame.height * 3,
    ensures
        if thumb_fits(frame.width as int, frame.height as int) {
            r matches ThumbStep::Done(t) && t.asset_id == asset_id && (
                t.rgba@,
                t.width as int,
                t.height as int,
            ) == downscaled(
                crate::pixels::rgba_of_rgb(frame.rgb@),
                frame.width as int,
                frame.height as int,
            ) && (frame.width > 0 && frame.height > 0 ==> t.rgba@.len() == t.width * t.height * 4)
        } else {
            r is TooLarge
        },
{
    let pixels: usize = frame.rgb.len() / 3;
    if pixels > usize::MAX / 4 {
        proof {
            lemma_too_many_pixels(frame.width as int, frame.height as int, pixels as int);
        }
        return ThumbStep::TooLarge;
    }
    let rgba: Vec<u8> = rgb_to_rgba(&frame.rgb);
    match make_thumb(asset_id, rgba, frame.width, frame.height) {
        Some(thumb) => ThumbStep::Done(thumb),
        None => ThumbStep::TooLarge,
    }
}

impl ThumbDecode {
    pub closed spec fn asset(self) -> usize {
        self.asset_id
    }

    pub closed spec fn video(self) -> VideoDecoder {
        self.video
    }

    /// How many packets were tried.
    pub closed spec fn tried(self) -> int {
        self.attempts as int
    }

    /// Begins the search in a file with the given tracks. There is nothing to search where
    /// the file has no H.264 track of known size, or no decoder can be made.
    pub fn open(asset_id: usize, tracks: &Vec<MediaTrack>) -> (r: Option<ThumbDecode>)
        ensures
            crate::codec::video_track(tracks@) is None ==> r is None,
            r matches Some(d) ==> {
                &&& d.asset() == asset_id
                &&& crate::codec::video_track(tracks@) == Some(d.video().track())
                &&& d.video().fed() == crate::h264::primed(d.video().track().annexb_header)
                &&& d.tried() == 0
            },
    {
        match find_video_track(tracks) {
            Some(info) => ThumbDecode::of_video(asset_id, VideoDecoder::open(info)),
            None => None,
        }
    }

    /// Begins the search with the decoder of a file's video track, exactly where there is
    /// one.
    pub fn of_video(asset_id: usize, video: Option<VideoDecoder>) -> (r: Option<ThumbDecode>)
        ensures
            match video {
                Some(v) => r matches Some(d) && d.asset() == asset_id && d.video() == v && d.tried()
                    == 0,
                None => r is None,
            },
    {
        match video {
            Some(video) => Some(ThumbDecode { asset_id, video, attempts: 0 }),
            None => None,
        }
    }

    /// Whether another packet is to be tried.
    pub fn wants_packet(&self) -> (r: bool)
        ensures
            r == (self.tried() < 600),
    {
        self.attempts < MAX_PACKETS
    }

    /// Tries a packet. Those of other tracks only count; the first that gives a picture
    /// ends the search.
    pub fn offer(&mut self, track_id: u32, data: &Vec<u8>) -> (r: ThumbStep)
        requires
            old(self).tried() < 600,
            old(self).video().unit(data@).len() <= i32::MAX,
        ensures
            final(self).asset() == old(self).asset(),
            final(self).tried() == old(self).tried() + 1,
            final(self).video().track() == old(self).video().track(),
            track_id != old(self).video().track().track_id ==> r is Waiting && final(self).video().fed() == old(self).video().fed(),
            track_id == old(self).video().track().track_id ==> {
                &&& final(self).video().fed() == old(self).video().fed().push(
                    old(self).video().unit(data@),
                )
                &&& match crate::h264::h264_picture(final(self).video().fed()) {
                    None => r is Waiting,
                    Some(p) => if !thumb_fits(p.width, p.height) {
                        r is TooLarge
                    } else {
                        r matches ThumbStep::Done(t) && t.asset_id == old(self).asset() && (
                            t.rgba@,
                            t.width as int,
                            t.height as int,
                        ) == downscaled(
                            crate::pixels::rgba_of_rgb(final(self).video().rgb()),
                            p.width,
                            p.height,
                        ) && (p.width > 0 && p.height > 0 ==> t.rgba@.len() == t.width * t.height
                            * 4)
                    },
                }
            },
    {
        self.attempts = self.attempts + 1;
        if track_id != self.video.track_id() {
            return ThumbStep::Waiting;
        }
        match self.video.decode_rgb(data) {
            Some(frame) => thumb_of(self.asset_id, frame),
            None => ThumbStep::Waiting,
        }
    }
}

/// A picture whose pixels do not fit in memory cannot be scaled.
proof fn lemma_too_many_pixels(width: int, height: int, pixels: int)
    requires
        width >= 0,
        height >= 0,
        pixels == width * height * 3 / 3,
        pixels > usize::MAX / 4,
    ensures
        !thumb_fits(width, height),
{
    let n = width * height;
    assert(pixels == n);
    if width == 0 || height == 0 {
        assert(n == 0) by (nonlinear_arith)
            requires
                n == width * height,
                width == 0 || height == 0,
        ;
    }
}

} // verus!
