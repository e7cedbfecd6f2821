//! Where things stand on the timeline canvas. Lengths are thousandths of a point.

use crate::editor::{Clip, EditorModel, EditorState, Track};
use crate::time::{floor_div, saturate_i64, saturate_usize, trunc_div};
use vstd::prelude::*;
use vstd::string::*;

verus! {

/// Width of the column of track headers.
pub const HEADER_WIDTH: i64 = 160_000;

/// Height of the time ruler.
pub const RULER_HEIGHT: i64 = 30_000;

/// Height of a track.
pub const TRACK_HEIGHT: i64 = 60_000;

/// Space between two tracks.
pub const TRACK_SPACING: i64 = 8_000;

/// Width of the trim handles at the ends of a clip.
pub const HANDLE_WIDTH: i64 = 8_000;

/// Space between the headers, the canvas and the window's edge.
pub const CANVAS_MARGIN: i64 = 16_000;

/// How near to the canvas's edge the playhead may come before the canvas scrolls.
pub const SCROLL_MARGIN: i64 = 40_000;

/// The zoom of a new project, in thousandths of a point per second.
pub const DEFAULT_ZOOM: i64 = 15_000;

pub const MIN_ZOOM: i64 = 5_000;

pub const MAX_ZOOM: i64 = 100_000;

#[derive(Clone, Copy, Debug, PartialEq, Eq, Structural)]
pub struct Point {
    pub x: i64,
    pub y: i64,
}

/// The part of the window that shows the tracks.
#[derive(Clone, Copy, Debug, PartialEq, Eq, Structural)]
pub struct Canvas {
    pub left: i64,
    pub top: i64,
    pub right: i64,
    pub bottom: i64,
}

impl Canvas {
    /// Whether a point lies on the canvas or on its border.
    pub open spec fn has(self, p: Point) -> bool {
        self.left <= p.x <= self.right && self.top <= p.y <= self.bottom
    }

    pub fn contains(&self, p: Point) -> (r: bool)
        ensures
            r == self.has(p),
    {
        self.left <= p.x && p.x <= self.right && self.top <= p.y && p.y <= self.bottom
    }
}

/// How times map to horizontal positions.
#[derive(Clone, Copy, Debug, PartialEq, Eq, Structural)]
pub struct TimeScale {
    /// The left edge of the canvas.
    pub left: i64,
    /// Thousandths of a point per second.
    pub zoom: i64,
    pub scroll: i64,
}

/// The stretch of time that a width covers.
pub open spec fn width_as_time(width: int, zoom: int) -> int {
    crate::time::saturated_i64(crate::time::truncated_quotient(width * 1_000_000_000, zoom))
}

/// The width of a stretch of time.
pub open spec fn time_as_width(t: int, zoom: int) -> int {
    crate::time::truncated_quotient(t * zoom, 1_000_000_000)
}

impl TimeScale {
    /// The position of a time.
    pub open spec fn x_of(self, t: int) -> int {
        self.left + time_as_width(t, self.zoom as int) - self.scroll
    }

    /// The time at a position.
    pub open spec fn time_of(self, x: int) -> int {
        width_as_time(x - self.left + self.scroll, self.zoom as int)
    }

    pub fn time_to_x(&self, t: i64) -> (r: i128)
        ensures
            r == self.x_of(t as int),
    {
        self.left as i128 + to_width(t as i128, self.zoom) - self.scroll as i128
    }

    pub fn x_to_time(&self, x: i64) -> (r: i64)
        requires
            self.zoom > 0,
        ensures
            r == self.time_of(x as int),
    {
        to_time(x as i128 - self.left as i128 + self.scroll as i128, self.zoom)
    }
}

pub(crate) fn to_width(t: i128, zoom: i64) -> (r: i128)
    requires
        -0x8000_0000_0000_0000 <= t <= 0x9000_0000_0000_0000,
    ensures
        r == time_as_width(t as int, zoom as int),
        -0x1000_0000_0000_0000_0000_0000_0000 <= r <= 0x1000_0000_0000_0000_0000_0000_0000,
{
    proof {
        let (a, b) = (t as int, zoom as int);
        assert(-0x5000_0000_0000_0000_0000_0000_0000_0000 <= a * b
            <= 0x5000_0000_0000_0000_0000_0000_0000_0000) by (nonlinear_arith)
            requires
                -0x8000_0000_0000_0000 <= a <= 0x9000_0000_0000_0000,
                -0x8000_0000_0000_0000 <= b <= 0x7fff_ffff_ffff_ffff,
        ;
    }
    trunc_div(t * zoom as i128, 1_000_000_000)
}

pub(crate) fn to_time(width: i128, zoom: i64) -> (r: i64)
    requires
        zoom > 0,
        -0x4_0000_0000_0000_0000 <= width <= 0x4_0000_0000_0000_0000,
    ensures
        r == width_as_time(width as int, zoom as int),
{
    saturate_i64(trunc_div(width * 1_000_000_000, zoom as i128))
}

/// The upper edge of a track. Audio tracks stand below the video tracks.
pub open spec fn track_top(top: int, is_video: bool, track: int, video_tracks: int) -> int {
    top + 30_000 + (if is_video {
        track
    } else {
        video_tracks + track
    }) * 68_000
}

pub fn get_track_y(top: i64, is_video: bool, track_idx: usize, video_tracks: usize) -> (r: i128)
    ensures
        r == track_top(top as int, is_video, track_idx as int, video_tracks as int),
{
    let row: i128 = if is_video {
        track_idx as i128
    } else {
        video_tracks as i128 + track_idx as i128
    };
    top as i128 + RULER_HEIGHT as i128 + row * 68_000
}

/// The track at a height. Above the tracks it is the first; below the video tracks the last
/// of them; below the audio tracks it is a number that no track has.
pub open spec fn track_at(y: int, top: int, is_video: bool, video_tracks: int) -> int {
    let down = y - (top + 30_000);
    if is_video {
        let row = crate::time::saturated_usize(crate::time::truncated_quotient(down, 68_000));
        let last = if video_tracks > 0 {
            video_tracks - 1
        } else {
            0
        };
        if row < last {
            row
        } else {
            last
        }
    } else {
        crate::time::saturated_usize(
            crate::time::truncated_quotient(down - video_tracks * 68_000, 68_000),
        )
    }
}

pub fn get_hovered_track_idx(y: i64, top: i64, is_video: bool, video_tracks: usize) -> (r: usize)
    ensures
        r == track_at(y as int, top as int, is_video, video_tracks as int),
{
    let down: i128 = y as i128 - (top as i128 + RULER_HEIGHT as i128);
    if is_video {
        let row: usize = saturate_usize(trunc_div(down, 68_000));
        let last: usize = if video_tracks > 0 {
            video_tracks - 1
        } else {
            0
        };
        if row < last {
            row
        } else {
            last
        }
    } else {
        saturate_usize(trunc_div(down - video_tracks as i128 * 68_000, 68_000))
    }
}

/// A point on a track is found on that track.
pub proof fn track_at_its_rows(top: int, is_video: bool, track: int, video_tracks: int, y: int)
    requires
        0 <= track <= usize::MAX,
        0 <= video_tracks,
        is_video ==> track < video_tracks,
        track_top(top, is_video, track, video_tracks) <= y < track_top(
            top,
            is_video,
            track,
            video_tracks,
        ) + 68_000,
    ensures
        track_at(y, top, is_video, video_tracks) == track,
{
}

/// A time that is found at a position lies there, up to one thousandth of a point on the
/// way back for each rounding.
pub proof fn position_roundtrip(scale: TimeScale, x: int)
    requires
        scale.zoom > 0,
        scale.zoom <= 1_000_000_000,
        crate::editor::is_time(
            crate::time::truncated_quotient(
                (x - scale.left + scale.scroll) * 1_000_000_000,
                scale.zoom as int,
            ),
        ),
    ensures
        x - 1 <= scale.x_of(scale.time_of(x)) <= x + 1,
{
    let w = x - scale.left + scale.scroll;
    let z = scale.zoom as int;
    let t = crate::time::truncated_quotient(w * 1_000_000_000, z);
    let n = if w >= 0 {
        w
    } else {
        -w
    };
    assert(n >= 0);
    let q = (n * 1_000_000_000) / z;
    vstd::arithmetic::div_mod::lemma_fundamental_div_mod(n * 1_000_000_000, z);
    vstd::arithmetic::div_mod::lemma_div_pos_is_pos(n * 1_000_000_000, z);
    assert(q * z == z * q) by (nonlinear_arith);
    assert((-q) * z == -(q * z)) by (nonlinear_arith);
    assert(q * z >= 0) by (nonlinear_arith)
        requires
            q >= 0,
            z > 0,
    ;
    if w >= 0 {
        assert(t == q);
    } else {
        assert(-(w * 1_000_000_000) == n * 1_000_000_000);
        assert(t == -q);
    }
}

// How far the timeline reaches

pub open spec fn max(a: int, b: int) -> int {
    if a >= b {
        a
    } else {
        b
    }
}

/// `v`, or the nearer of the two bounds.
pub open spec fn clamped(v: int, low: int, high: int) -> int {
    if v < low {
        low
    } else if v > high {
        high
    } else {
        v
    }
}

/// The end of the last clip, and at least `floor`.
pub open spec fn latest_of(clips: Seq<Clip>, floor: int) -> int
    decreases clips.len(),
{
    if clips.len() == 0 {
        floor
    } else {
        max(latest_of(clips.drop_last(), floor), clips.last().timeline_end as int)
    }
}

/// The end of the last clip on any of the tracks, and at least `floor`.
pub open spec fn latest_end(tracks: Seq<crate::editor::TrackModel>, floor: int) -> int
    decreases tracks.len(),
{
    if tracks.len() == 0 {
        floor
    } else {
        latest_of(tracks.last().clips, latest_end(tracks.drop_last(), floor))
    }
}

proof fn lemma_latest_of(clips: Seq<Clip>, floor: int)
    ensures
        latest_of(clips, floor) >= floor,
        forall|i: int|
            0 <= i < clips.len() ==> latest_of(clips, floor) >= (#[trigger] clips[i]).timeline_end,
        latest_of(clips, floor) == floor || exists|i: int|
            0 <= i < clips.len() && latest_of(clips, floor) == (#[trigger] clips[i]).timeline_end,
    decreases clips.len(),
{
    if clips.len() > 0 {
        lemma_latest_of(clips.drop_last(), floor);
        assert(clips.last() == clips[clips.len() - 1]);
        assert forall|i: int| 0 <= i < clips.len() implies latest_of(clips, floor) >= (
        #[trigger] clips[i]).timeline_end by {
            if i < clips.len() - 1 {
                assert(clips.drop_last()[i] == clips[i]);
            }
        }
        if latest_of(clips, floor) == latest_of(clips.drop_last(), floor) && latest_of(clips, floor)
            != floor {
            let i = choose|i: int|
                0 <= i < clips.drop_last().len() && latest_of(clips.drop_last(), floor) == (
                #[trigger] clips.drop_last()[i]).timeline_end;
            assert(clips[i].timeline_end == latest_of(clips, floor));
        }
    }
}

/// No clip ends after the latest end, and the latest end is the end of a clip or `floor`.
pub proof fn latest_end_is_latest(tracks: Seq<crate::editor::TrackModel>, floor: int)
    ensures
        latest_end(tracks, floor) >= floor,
        forall|t: int, i: int|
            0 <= t < tracks.len() && 0 <= i < tracks[t].clips.len() ==> latest_end(tracks, floor)
                >= (#[trigger] tracks[t].clips[i]).timeline_end,
        latest_end(tracks, floor) == floor || exists|t: int, i: int|
            0 <= t < tracks.len() && 0 <= i < tracks[t].clips.len() && latest_end(tracks, floor)
                == (#[trigger] tracks[t].clips[i]).timeline_end,
    decreases tracks.len(),
{
    if tracks.len() > 0 {
        let front = tracks.drop_last();
        latest_end_is_latest(front, floor);
        lemma_latest_of(tracks.last().clips, latest_end(front, floor));
        assert forall|t: int, i: int|
            0 <= t < tracks.len() && 0 <= i < tracks[t].clips.len() implies latest_end(
            tracks,
            floor,
        ) >= (#[trigger] tracks[t].clips[i]).timeline_end by {
            if t < front.len() {
                assert(front[t].clips[i] == tracks[t].clips[i]);
            }
        }
        if latest_end(tracks, floor) != floor {
            if latest_end(tracks, floor) == latest_end(front, floor) {
                let (t, i) = choose|t: int, i: int|
                    0 <= t < front.len() && 0 <= i < front[t].clips.len() && latest_end(
                        front,
                        floor,
                    ) == (#[trigger] front[t].clips[i]).timeline_end;
                assert(tracks[t].clips[i].timeline_end == latest_end(tracks, floor));
            } else {
                let i = choose|i: int|
                    0 <= i < tracks.last().clips.len() && latest_end(tracks, floor) == (
                    #[trigger] tracks.last().clips[i]).timeline_end;
                assert(tracks[tracks.len() - 1].clips[i].timeline_end == latest_end(tracks, floor));
            }
        }
    }
}

/// Finds the end of the last clip on any of the tracks, and at least `floor`.
pub(crate) fn find_latest_end(tracks: &Vec<Track>, floor: i64) -> (r: i64)
    ensures
        r == latest_end(crate::editor::lane_view(tracks@), floor as int),
{
    let ghost all = crate::editor::lane_view(tracks@);
    let mut latest: i64 = floor;
    let mut t: usize = 0;
    assert(all.take(0) =~= Seq::empty());
    while t < tracks.len()
        invariant
            t <= tracks@.len(),
            all == crate::editor::lane_view(tracks@),
            latest == latest_end(all.take(t as int), floor as int),
        decreases tracks@.len() - t,
    {
        let clips: &Vec<Clip> = &tracks[t].clips;
        let ghost before = latest as int;
        let mut i: usize = 0;
        assert(clips@.take(0) =~= Seq::empty());
        while i < clips.len()
            invariant
                i <= clips@.len(),
                latest == latest_of(clips@.take(i as int), before),
            decreases clips@.len() - i,
        {
            proof {
                assert(clips@.take(i + 1).drop_last() =~= clips@.take(i as int));
                assert(clips@.take(i + 1).last() == clips@[i as int]);
            }
            if clips[i].timeline_end > latest {
                latest = clips[i].timeline_end;
            }
            i += 1;
        }
        proof {
            assert(clips@.take(i as int) =~= clips@);
            assert(all.take(t + 1).drop_last() =~= all.take(t as int));
            assert(all.take(t + 1).last() == tracks@[t as int]@);
        }
        t += 1;
    }
    assert(all.take(t as int) =~= all);
    latest
}

impl EditorModel {
    /// The end of the last clip, and at least `floor`.
    pub open spec fn content_end(self, floor: int) -> int {
        latest_end(self.audio_tracks, latest_end(self.video_tracks, floor))
    }

    /// How much time the canvas has room for: a minute or more, up to the last clip and the
    /// playhead, and ten seconds behind.
    pub open spec fn canvas_time(self) -> int {
        max(self.content_end(60_000_000_000), self.playhead as int) + 10_000_000_000
    }

    /// How far the canvas can be scrolled when it shows `visible` of its width.
    pub open spec fn max_scroll(self, visible: int) -> int {
        crate::time::saturated_i64(
            max(time_as_width(self.canvas_time(), self.zoom_factor as int) - visible, 0),
        )
    }

    /// Where the canvas is scrolled to: within its limits and, while playing, so that the
    /// playhead stays away from the edges.
    pub open spec fn settled_scroll(self, visible: int) -> int {
        let limit = self.max_scroll(visible);
        let scroll = clamped(self.scroll_offset as int, 0, limit);
        let playhead = time_as_width(self.playhead as int, self.zoom_factor as int);
        if !self.is_playing || limit <= 0 {
            scroll
        } else if playhead - scroll > visible - 40_000 {
            clamped(playhead - (visible - 40_000), 0, limit)
        } else if playhead - scroll < 40_000 {
            clamped(playhead - 40_000, 0, limit)
        } else {
            scroll
        }
    }

    /// The zoom at which a window of the given width shows all clips.
    pub open spec fn fitting_zoom(self, window: int) -> int {
        clamped(
            max(window - 176_000, 200_000) * 1_000_000_000 / self.content_end(1_000_000_000),
            5_000,
            100_000,
        )
    }
}

fn clamp_to_time(v: i128, high: i64) -> (r: i64)
    requires
        high >= 0,
    ensures
        r == clamped(v as int, 0, high as int),
{
    if v < 0 {
        0
    } else if v > high as i128 {
        high
    } else {
        v as i64
    }
}

impl EditorState {
    /// Keeps the scroll offset within its limits and, while playing, the playhead in sight.
    /// Returns how far the canvas can be scrolled.
    pub fn settle_scroll(&mut self, visible: i64) -> (limit: i64)
        ensures
            limit == old(self)@.max_scroll(visible as int),
            final(self)@ == (EditorModel {
                scroll_offset: old(self)@.settled_scroll(visible as int) as i64,
                ..old(self)@
            }),
    {
        let video_end: i64 = find_latest_end(&self.video_tracks, 60_000_000_000);
        let content: i64 = find_latest_end(&self.audio_tracks, video_end);
        let time: i128 = (if content >= self.playhead {
            content
        } else {
            self.playhead
        }) as i128 + 10_000_000_000;
        proof {
            latest_end_is_latest(self@.video_tracks, 60_000_000_000);
            latest_end_is_latest(self@.audio_tracks, video_end as int);
        }
        let hidden: i128 = to_width(time, self.zoom_factor) - visible as i128;
        let limit: i64 = saturate_i64(if hidden >= 0 {
            hidden
        } else {
            0
        });
        self.scroll_offset = clamp_to_time(self.scroll_offset as i128, limit);
        if self.is_playing && limit > 0 {
            let playhead: i128 = to_width(self.playhead as i128, self.zoom_factor);
            let right: i128 = visible as i128 - SCROLL_MARGIN as i128;
            if playhead - self.scroll_offset as i128 > right {
                self.scroll_offset = clamp_to_time(playhead - right, limit);
            } else if playhead - (self.scroll_offset as i128) < SCROLL_MARGIN as i128 {
                self.scroll_offset = clamp_to_time(playhead - SCROLL_MARGIN as i128, limit);
            }
        }
        limit
    }

    /// Zooms so that a window of the given width shows all clips, and scrolls to the start.
    pub fn fit_zoom(&mut self, window: i64)
        ensures
            final(self)@ == (EditorModel {
                zoom_factor: old(self)@.fitting_zoom(window as int) as i64,
                scroll_offset: 0,
                ..old(self)@
            }),
    {
        let video_end: i64 = find_latest_end(&self.video_tracks, 1_000_000_000);
        let content: i64 = find_latest_end(&self.audio_tracks, video_end);
        proof {
            latest_end_is_latest(self@.video_tracks, 1_000_000_000);
            latest_end_is_latest(self@.audio_tracks, video_end as int);
        }
        let room: i128 = window as i128 - HEADER_WIDTH as i128 - CANVAS_MARGIN as i128;
        let visible: i128 = if room >= 200_000 {
            room
        } else {
            200_000
        };
        let zoom: i128 = floor_div(visible * 1_000_000_000, content as i128);
        self.zoom_factor = if zoom < MIN_ZOOM as i128 {
            MIN_ZOOM
        } else if zoom > MAX_ZOOM as i128 {
            MAX_ZOOM
        } else {
            zoom as i64
        };
        self.scroll_offset = 0;
    }
}

/// The settled scroll offset lies within its limits.
pub proof fn settled_scroll_is_within(m: EditorModel, visible: int)
    ensures
        0 <= m.settled_scroll(visible) <= m.max_scroll(visible),
        m.max_scroll(visible) <= i64::MAX,
{
}

proof fn lemma_width_grows(a: int, b: int, zoom: int)
    requires
        0 <= a <= b,
        zoom >= 0,
    ensures
        0 <= time_as_width(a, zoom) <= time_as_width(b, zoom),
{
    assert(0 <= a * zoom <= b * zoom) by (nonlinear_arith)
        requires
            0 <= a <= b,
            zoom >= 0,
    ;
}

/// While playing, the playhead stays in sight, on a canvas that is wider than the two
/// margins and can be scrolled.
pub proof fn playhead_stays_in_sight(m: EditorModel, visible: int)
    requires
        m.is_playing,
        m.playhead >= 0,
        m.zoom_factor >= 0,
        visible >= 80_000,
        m.max_scroll(visible) > 0,
        time_as_width(m.canvas_time(), m.zoom_factor as int) - visible <= i64::MAX,
    ensures
        0 <= time_as_width(m.playhead as int, m.zoom_factor as int) - m.settled_scroll(visible)
            <= visible,
{
    lemma_width_grows(m.playhead as int, m.canvas_time(), m.zoom_factor as int);
}

/// At the fitting zoom all clips are in sight, in a window that is wide enough for them at
/// the smallest zoom.
pub proof fn fitting_shows_everything(m: EditorModel, window: int)
    requires
        time_as_width(m.content_end(1_000_000_000), 5_000) <= max(window - 176_000, 200_000),
    ensures
        time_as_width(m.content_end(1_000_000_000), m.fitting_zoom(window)) <= max(
            window - 176_000,
            200_000,
        ),
{
    latest_end_is_latest(m.video_tracks, 1_000_000_000);
    latest_end_is_latest(m.audio_tracks, latest_end(m.video_tracks, 1_000_000_000));
    let end = m.content_end(1_000_000_000);
    let room = max(window - 176_000, 200_000);
    let zoom = m.fitting_zoom(window);
    if zoom > 5_000 {
        let exact = room * 1_000_000_000 / end;
        vstd::arithmetic::div_mod::lemma_fundamental_div_mod(room * 1_000_000_000, end);
        assert(zoom <= exact);
        assert(0 <= end * zoom <= end * exact) by (nonlinear_arith)
            requires
                0 <= zoom <= exact,
                end > 0,
        ;
        assert(end * exact <= room * 1_000_000_000);
    }
}

// The ruler

/// Seconds between two ticks of the ruler.
pub open spec fn tick_seconds(zoom: int) -> int {
    if zoom >= 20_000 {
        1
    } else if zoom >= 5_000 {
        5
    } else {
        10
    }
}

/// Seconds between two labels of the ruler.
pub open spec fn label_seconds(zoom: int) -> int {
    if zoom >= 20_000 {
        5
    } else if zoom >= 5_000 {
        10
    } else {
        30
    }
}

/// The first tick that the canvas shows, in seconds: at its left edge or before.
pub open spec fn first_tick(scale: TimeScale) -> int {
    let step = tick_seconds(scale.zoom as int);
    max(scale.time_of(scale.left as int), 0) / 1_000_000_000 / step * step
}

/// The second at the right edge of the canvas, rounded up.
pub open spec fn last_second(scale: TimeScale, right: int) -> int {
    -((-scale.time_of(right)) / 1_000_000_000)
}

/// The ticks that the canvas shows, in seconds.
pub open spec fn ticks(scale: TimeScale, right: int) -> Seq<int> {
    let step = tick_seconds(scale.zoom as int);
    let count = (last_second(scale, right) - first_tick(scale)) / step + 1;
    Seq::new(max(count, 0) as nat, |i: int| first_tick(scale) + i * step)
}

/// The text of a label: minutes and seconds.
pub open spec fn tick_text(second: nat) -> Seq<char> {
    crate::text::decimal(second / 60) + ":"@ + crate::text::two_digits(second % 60)
}

/// The ticks of the ruler, in seconds.
pub fn ruler_ticks(scale: &TimeScale, right: i64) -> (r: Vec<u64>)
    requires
        scale.zoom > 0,
    ensures
        r@.len() == ticks(*scale, right as int).len(),
        forall|i: int| 0 <= i < r@.len() ==> (#[trigger] r@[i]) == ticks(*scale, right as int)[i],
{
    let step: i128 = if scale.zoom >= 20_000 {
        1
    } else if scale.zoom >= 5_000 {
        5
    } else {
        10
    };
    let at_left: i64 = scale.x_to_time(scale.left);
    let at_right: i64 = scale.x_to_time(right);
    let from: i128 = if at_left >= 0 {
        at_left as i128
    } else {
        0
    };
    let first: i128 = from / 1_000_000_000 / step * step;
    let last: i128 = -floor_div(-(at_right as i128), 1_000_000_000);
    let mut r: Vec<u64> = Vec::new();
    let mut t: i128 = first;
    while t <= last
        invariant
            step == tick_seconds(scale.zoom as int),
            1 <= step <= 10,
            first == first_tick(*scale),
            last == last_second(*scale, right as int),
            0 <= first <= i64::MAX,
            last <= 0x2_5000_0000,
            t == first + r@.len() * step,
            t <= last + step || r@.len() == 0,
            forall|i: int| 0 <= i < r@.len() ==> (#[trigger] r@[i]) == first + i * step,
        decreases last - t + step,
    {
        let ghost n = r@.len() as int;
        r.push(t as u64);
        assert((n + 1) * step == n * step + step) by (nonlinear_arith);
        t += step;
    }
    proof {
        let n = r@.len() as int;
        let span = last - first;
        if n == 0 {
            assert(span / step as int + 1 <= 0) by (nonlinear_arith)
                requires
                    span < 0,
                    step > 0,
            ;
        } else {
            assert(span / step as int == n - 1) by {
                assert((n - 1) * step == n * step - step) by (nonlinear_arith);
                vstd::arithmetic::div_mod::lemma_fundamental_div_mod_converse(
                    span,
                    step as int,
                    n - 1,
                    span - (n - 1) * step,
                );
            }
        }
    }
    r
}

/// Whether a tick has a label.
pub fn is_labelled(second: u64, zoom: i64) -> (r: bool)
    ensures
        r == (second as int % label_seconds(zoom as int) == 0),
{
    if zoom >= 20_000 {
        second % 5 == 0
    } else if zoom >= 5_000 {
        second % 10 == 0
    } else {
        second % 30 == 0
    }
}

/// The label of a tick.
pub fn tick_label(second: u64) -> (r: String)
    ensures
        r@ == tick_text(second as nat),
{
    let mut text: String = String::from_str("");
    proof {
        reveal_strlit("");
    }
    crate::text::push_decimal(&mut text, second / 60);
    text.append(":");
    crate::text::push_two_digits(&mut text, second % 60);
    assert(text@ =~= tick_text(second as nat));
    text
}

/// The playhead's time as text: minutes, seconds and hundredths.
pub open spec fn playhead_text(playhead: nat) -> Seq<char> {
    "Time: "@ + crate::text::two_digits(playhead / 60_000_000_000) + ":"@ + crate::text::two_digits(
        playhead / 1_000_000_000 % 60,
    ) + "."@ + crate::text::two_digits(playhead % 1_000_000_000 / 10_000_000)
}

/// The playhead's time as text.
pub fn playhead_label(playhead: u64) -> (r: String)
    ensures
        r@ == playhead_text(playhead as nat),
{
    let mut text: String = String::from_str("Time: ");
    crate::text::push_two_digits(&mut text, playhead / 60_000_000_000);
    text.append(":");
    crate::text::push_two_digits(&mut text, playhead / 1_000_000_000 % 60);
    text.append(".");
    crate::text::push_two_digits(&mut text, playhead % 1_000_000_000 / 10_000_000);
    text
}

// The waveform

/// Which sample a clip's waveform shows at a column, for audio with the given rate and
/// number of channels.
pub open spec fn waveform_index(
    clip: Clip,
    channels: int,
    sample_rate: int,
    column: int,
    width: int,
) -> int {
    let span = max(clip.source_trim_end - clip.source_trim_start, 1_000);
    let t = clip.source_trim_start + span * clamped(column, 0, width) / width;
    max(t, 0) * max(sample_rate, 1) / 1_000_000_000 * max(channels, 1)
}

/// Finds the sample that a clip's waveform shows `column` to the right of the clip's left
/// edge, if there is one. Without samples there is nothing to show.
pub fn waveform_sample(
    clip: &Clip,
    channels: u32,
    sample_rate: u32,
    samples: usize,
    column: i64,
    width: i64,
) -> (r: Option<usize>)
    requires
        width >= 1,
    ensures
        ({
            let i = waveform_index(
                *clip,
                channels as int,
                sample_rate as int,
                column as int,
                width as int,
            );
            r == if i < samples {
                Some(i as usize)
            } else {
                None
            }
        }),
{
    let between: i128 = clip.source_trim_end as i128 - clip.source_trim_start as i128;
    let span: i128 = if between >= 1_000 {
        between
    } else {
        1_000
    };
    let at: i128 = if column < 0 {
        0
    } else if column > width {
        width as i128
    } else {
        column as i128
    };
    proof {
        let (a, b, w) = (span as int, at as int, width as int);
        assert(0 <= a * b <= 0x1_0000_0000_0000_0000 * 0x7fff_ffff_ffff_ffff) by (nonlinear_arith)
            requires
                0 <= a <= 0x1_0000_0000_0000_0000,
                0 <= b <= 0x7fff_ffff_ffff_ffff,
        ;
        assert(0 <= (a * b) / w <= a) by (nonlinear_arith)
            requires
                0 <= a,
                0 <= b <= w,
                w >= 1,
        ;
    }
    let t: i128 = clip.source_trim_start as i128 + span * at / width as i128;
    if t <= 0 {
        proof {
            let (a, b) = (max(sample_rate as int, 1), max(channels as int, 1));
            assert(0 * a == 0) by (nonlinear_arith);
            assert(0 * b == 0) by (nonlinear_arith);
        }
        return if samples > 0 {
            Some(0)
        } else {
            None
        };
    }
    let rate: i128 = if sample_rate >= 1 {
        sample_rate as i128
    } else {
        1
    };
    let per_frame: i128 = if channels >= 1 {
        channels as i128
    } else {
        1
    };
    proof {
        let (a, b) = (t as int, rate as int);
        assert(0 <= a * b <= 0x2_0000_0000_0000_0000 * 0x1_0000_0000) by (nonlinear_arith)
            requires
                0 <= a <= 0x2_0000_0000_0000_0000,
                1 <= b <= 0x1_0000_0000,
        ;
    }
    let frame: i128 = t * rate / 1_000_000_000;
    proof {
        let (a, b) = (frame as int, per_frame as int);
        assert(0 <= a * b <= 0x2_0000_0000_0000_0000 * 0x1_0000_0000 / 1_000_000_000
            * 0x1_0000_0000) by (nonlinear_arith)
            requires
                0 <= a <= 0x2_0000_0000_0000_0000 * 0x1_0000_0000 / 1_000_000_000,
                1 <= b <= 0x1_0000_0000,
        ;
    }
    let i: i128 = frame * per_frame;
    if i < samples as i128 {
        Some(i as usize)
    } else {
        None
    }
}

} // verus!
