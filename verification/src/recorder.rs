//! Recording the screen.

use crate::h264::{build_encoder, encode_rgb};
use crate::pixels::bgra_to_rgb;
use openh264::encoder::Encoder;
use std::path::PathBuf;
use vstd::prelude::*;
use vstd::string::*;

verus! {

/// How the thread that records came to its end.
#[derive(Debug)]
pub enum WorkerEnd {
    Finished(Result<PathBuf, String>),
    Panicked,
    /// There was no thread.
    Missing,
}

/// Whether the screen is being recorded.
#[derive(Debug)]
pub struct ScreenRecorder {
    recording: bool,
    /// Whether there is a thread whose end was not waited for.
    has_worker: bool,
}

impl ScreenRecorder {
    pub closed spec fn is_on(self) -> bool {
        self.recording
    }

    pub closed spec fn worker(self) -> bool {
        self.has_worker
    }

    pub fn new() -> (r: ScreenRecorder)
        ensures
            !r.is_on(),
            !r.worker(),
    {
        ScreenRecorder { recording: false, has_worker: false }
    }

    /// Begins to record, unless that is under way.
    pub fn start(&mut self) -> (r: Result<(), String>)
        ensures
            if old(self).is_on() {
                (r matches Err(text) && text@ == "Recording is already in progress."@)
                    && *final(self) == *old(self)
            } else {
                r is Ok && final(self).is_on() && final(self).worker()
            },
    {
        if self.recording {
            return Err(String::from_str("Recording is already in progress."));
        }
        self.recording = true;
        self.has_worker = true;
        Ok(())
    }

    /// Notes that the thread has ended by itself.
    pub fn worker_ended(&mut self)
        ensures
            !final(self).is_on(),
            final(self).worker() == old(self).worker(),
    {
        self.recording = false;
    }

    /// Asks the thread to end, if a recording is under way; says whether there is one to
    /// wait for.
    pub fn stop(&mut self) -> (r: Result<bool, String>)
        ensures
            !final(self).is_on(),
            if old(self).is_on() {
                r == Ok::<bool, String>(old(self).worker()) && !final(self).worker()
            } else {
                (r matches Err(text) && text@ == "No recording in progress."@)
                    && final(self).worker() == old(self).worker()
            },
    {
        if !self.recording {
            return Err(String::from_str("No recording in progress."));
        }
        self.recording = false;
        let joined: bool = self.has_worker;
        self.has_worker = false;
        Ok(joined)
    }

    pub fn is_recording(&self) -> (r: bool)
        ensures
            r == self.is_on(),
    {
        self.recording
    }
}

/// What a recording that was stopped gave: the file, or what went wrong.
pub fn recording_result(end: WorkerEnd) -> (r: Result<PathBuf, String>)
    ensures
        match end {
            WorkerEnd::Finished(result) => r == result,
            WorkerEnd::Panicked => r matches Err(text) && text@ == "Recorder thread panicked."@,
            WorkerEnd::Missing => r matches Err(text) && text@
                == "Recording thread handle was missing."@,
        },
{
    match end {
        WorkerEnd::Finished(result) => result,
        WorkerEnd::Panicked => Err(String::from_str("Recorder thread panicked.")),
        WorkerEnd::Missing => Err(String::from_str("Recording thread handle was missing.")),
    }
}

/// The size of what is recorded: the encoder wants even sides.
pub fn capture_size(screen_width: usize, screen_height: usize) -> (r: Result<(usize, usize), String>)
    ensures
        if screen_width < 2 || screen_height < 2 {
            r matches Err(text) && text@ == "Failed to query monitor dimensions."@
        } else {
            r matches Ok((w, h)) && w == screen_width - screen_width % 2 && h == screen_height
                - screen_height % 2 && w % 2 == 0 && h % 2 == 0
        },
{
    let width: usize = screen_width - screen_width % 2;
    let height: usize = screen_height - screen_height % 2;
    if width == 0 || height == 0 {
        return Err(String::from_str("Failed to query monitor dimensions."));
    }
    Ok((width, height))
}

/// How long to wait before the next frame is captured, in nanoseconds: what is left of the
/// frame's time.
pub fn frame_pause(fps: u32, elapsed: u64) -> (r: u64)
    requires
        fps > 0,
    ensures
        r == if elapsed < 1_000_000_000u64 / fps as u64 {
            1_000_000_000u64 / fps as u64 - elapsed
        } else {
            0
        },
{
    let frame: u64 = 1_000_000_000 / fps as u64;
    if elapsed < frame {
        frame - elapsed
    } else {
        0
    }
}

/// Makes the encoder of a recording: tuned for screen captures, at the plain quality. Where
/// the native library fails, the message says so.
pub fn open_encoder(width: u32, height: u32, fps: u32) -> (r: Result<Encoder, String>)
    ensures
        match r {
            Ok(e) => {
                &&& crate::h264::encoder_settings(e) == crate::h264::settings_for(
                    width,
                    height,
                    fps,
                    true,
                    1_000,
                )
                &&& crate::h264::encoder_frames(e) == crate::h264::no_frames()
                &&& crate::h264::encoder_given(e).len() == 0
            },
            Err(text) => crate::h264::is_encoder_failure(text@),
        },
{
    build_encoder(width, height, fps, true, 1_000)
}

/// Encodes a captured picture: four bytes for each pixel, blue first. Gives back what is
/// added to the video, if the encoder gave anything.
pub fn encode_capture(
    encoder: &mut Encoder,
    bgra: &Vec<u8>,
    rgb: &mut Vec<u8>,
    width: usize,
    height: usize,
) -> (r: Option<Vec<u8>>)
    requires
        width % 2 == 0,
        height % 2 == 0,
        width <= i32::MAX,
        height <= i32::MAX,
        bgra@.len() == width * height * 4,
        old(rgb)@.len() == width * height * 3,
    ensures
        final(rgb)@ == crate::pixels::rgb_of_bgra(bgra@),
        final(rgb)@.len() == old(rgb)@.len(),
        crate::h264::encoder_settings(*final(encoder)) == crate::h264::encoder_settings(
            *old(encoder),
        ),
        crate::h264::encoder_frames(*final(encoder)) == crate::h264::encoder_frames(
            *old(encoder),
        ).push((width as int, height as int, crate::pixels::rgb_of_bgra(bgra@))),
        crate::h264::encoder_given(*final(encoder)) == crate::h264::encoder_given(
            *old(encoder),
        ).push(crate::h264::bytes_view(r)),
        width > 3840 || height > 3840 || (width > 2160 && height > 2160) ==> r is None,
{
    bgra_to_rgb(bgra, rgb);
    encode_rgb(encoder, rgb, width, height)
}

// The clock of a recording

/// The last captured frame, which is written when it is known how long it is shown.
#[derive(Debug)]
pub struct FrameQueue {
    /// The frame's part of the video, and when it was captured, in milliseconds since the
    /// start.
    last: Option<(Vec<u8>, u64)>,
}

/// How long a frame is shown that was captured at `from`, when the next one was captured at
/// `to`.
pub open spec fn shown_for(from: int, to: int) -> int {
    if to <= from {
        0
    } else if to - from > u32::MAX {
        u32::MAX as int
    } else {
        to - from
    }
}

impl FrameQueue {
    /// The frame that waits, and when it was captured.
    pub closed spec fn waiting(self) -> Option<(Seq<u8>, u64)> {
        match self.last {
            Some((bytes, at)) => Some((bytes@, at)),
            None => None,
        }
    }

    pub fn new() -> (r: FrameQueue)
        ensures
            r.waiting() is None,
    {
        FrameQueue { last: None }
    }

    /// Takes in a frame that was captured at `now`; gives back the one before, to be written,
    /// and how long it is shown, in milliseconds. That is how long it took until this one,
    /// whatever the frame rate.
    pub fn capture(&mut self, bytes: Vec<u8>, now: u64) -> (r: Option<(Vec<u8>, u32)>)
        ensures
            final(self).waiting() == Some((bytes@, now)),
            match old(self).waiting() {
                Some((before, at)) => r matches Some((b, ms)) && b@ == before && ms == shown_for(
                    at as int,
                    now as int,
                ),
                None => r is None,
            },
    {
        let before: Option<(Vec<u8>, u64)> = self.last.take();
        self.last = Some((bytes, now));
        match before {
            Some((b, at)) => {
                let ms: u32 = if now <= at {
                    0
                } else if now - at > u32::MAX as u64 {
                    u32::MAX
                } else {
                    (now - at) as u32
                };
                Some((b, ms))
            },
            None => None,
        }
    }

    /// Ends the recording; gives back the last frame, which is shown as long as the frame rate
    /// says.
    pub fn finish(self, fps: u32) -> (r: Option<(Vec<u8>, u32)>)
        requires
            fps > 0,
        ensures
            match self.waiting() {
                Some((last, _)) => r matches Some((b, ms)) && b@ == last && ms == 1_000u32 / fps,
                None => r is None,
            },
    {
        match self.last {
            Some((b, _)) => Some((b, 1_000 / fps)),
            None => None,
        }
    }
}

/// How long the frames captured at the given times are shown altogether.
pub open spec fn total_shown(times: Seq<u64>) -> int
    decreases times.len(),
{
    if times.len() < 2 {
        0
    } else {
        total_shown(times.drop_last()) + shown_for(
            times[times.len() - 2] as int,
            times.last() as int,
        )
    }
}

/// A recording plays as long as it took, however unevenly the frames were captured.
pub proof fn recordings_keep_time(times: Seq<u64>)
    requires
        times.len() > 0,
        forall|i: int|
            0 <= i < times.len() - 1 ==> (#[trigger] times[i]) <= times[i + 1] <= times[i]
                + u32::MAX,
    ensures
        total_shown(times) == times.last() - times[0],
    decreases times.len(),
{
    if times.len() > 1 {
        let front = times.drop_last();
        assert forall|i: int| 0 <= i < front.len() - 1 implies (#[trigger] front[i]) <= front[i + 1]
            <= front[i] + u32::MAX by {
            assert(times[i] <= times[i + 1]);
        }
        recordings_keep_time(front);
        let k = times.len() - 2;
        assert(times[k] <= times[k + 1]);
    }
}

// The timer

/// How long a recording has run, without its pauses. Times are milliseconds.
#[derive(Debug)]
pub struct RecordingTimer {
    /// What has run before the last pause.
    before: u64,
    /// When the recording was started or resumed; `None` while it is paused.
    since: Option<u64>,
}

impl RecordingTimer {
    pub closed spec fn is_paused(self) -> bool {
        self.since is None
    }

    /// How long the recording has run at `now`.
    pub closed spec fn run(self, now: int) -> int {
        self.before + match self.since {
            Some(since) => if now > since {
                now - since
            } else {
                0
            },
            None => 0,
        }
    }

    /// Begins at `now`.
    pub fn start(now: u64) -> (r: RecordingTimer)
        ensures
            !r.is_paused(),
            forall|t: int| now <= t ==> #[trigger] r.run(t) == t - now,
    {
        RecordingTimer { before: 0, since: Some(now) }
    }

    /// How long the recording has run at `now`.
    pub fn elapsed(&self, now: u64) -> (r: u64)
        requires
            self.run(now as int) <= u64::MAX,
        ensures
            r == self.run(now as int),
    {
        match self.since {
            Some(since) => if now > since {
                self.before + (now - since)
            } else {
                self.before
            },
            None => self.before,
        }
    }

    /// Pauses at `now`. From then on the time stands still.
    pub fn pause(&mut self, now: u64)
        requires
            old(self).run(now as int) <= u64::MAX,
        ensures
            final(self).is_paused(),
            forall|t: int| #[trigger] final(self).run(t) == old(self).run(now as int),
    {
        self.before = self.elapsed(now);
        self.since = None;
    }

    /// Goes on at `now`, if the recording is paused.
    pub fn resume(&mut self, now: u64)
        ensures
            !final(self).is_paused(),
            if old(self).is_paused() {
                forall|t: int|
                    now <= t ==> #[trigger] final(self).run(t) == old(self).run(now as int) + (t
                        - now)
            } else {
                *final(self) == *old(self)
            },
    {
        if self.since.is_none() {
            self.since = Some(now);
        }
    }
}

/// The number shown `elapsed` milliseconds into the countdown: three, two, one, and then
/// none.
pub fn countdown(elapsed: u64) -> (r: u64)
    ensures
        r == if elapsed < 3_000 {
            3 - elapsed as int / 1_000
        } else {
            0
        },
{
    if elapsed < 3_000 {
        3 - elapsed / 1_000
    } else {
        0
    }
}

} // verus!
