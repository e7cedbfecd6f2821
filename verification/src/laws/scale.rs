//! What the timeline's scale promises: where times and tracks stand on the canvas.

use crate::layout::TimeScale;
use vstd::prelude::*;

verus! {

/// Whether `t` nanoseconds take up `width` at a zoom, `t` being rounded toward zero.
pub open spec fn spans(width: int, zoom: int, t: int) -> bool {
    if width >= 0 {
        0 <= t && t * zoom <= width * 1_000_000_000 < (t + 1) * zoom
    } else {
        t <= 0 && (t - 1) * zoom < width * 1_000_000_000 <= t * zoom
    }
}

/// Whether a stretch of `t` nanoseconds is `width` wide at a zoom, `width` being rounded
/// toward zero.
pub open spec fn measures(t: int, zoom: int, width: int) -> bool {
    if t * zoom >= 0 {
        0 <= width && width * 1_000_000_000 <= t * zoom < (width + 1) * 1_000_000_000
    } else {
        width <= 0 && (width - 1) * 1_000_000_000 < t * zoom <= width * 1_000_000_000
    }
}

/// The time that a width covers is what takes up the width, where that is a valid time.
pub proof fn widths_cover_their_time(width: int, zoom: int, t: int)
    requires
        zoom > 0,
    ensures
        spans(width, zoom, t) && i64::MIN <= t <= i64::MAX ==> crate::layout::width_as_time(
            width,
            zoom,
        ) == t,
        i64::MIN < crate::layout::width_as_time(width, zoom) < i64::MAX ==> spans(
            width,
            zoom,
            crate::layout::width_as_time(width, zoom),
        ),
{
    let n = width * 1_000_000_000;
    let a = if n >= 0 {
        n
    } else {
        -n
    };
    let q = a / zoom;
    vstd::arithmetic::div_mod::lemma_fundamental_div_mod(a, zoom);
    vstd::arithmetic::div_mod::lemma_div_pos_is_pos(a, zoom);
    assert(zoom * q == q * zoom) by (nonlinear_arith);
    assert((q + 1) * zoom == q * zoom + zoom) by (nonlinear_arith);
    assert((-q - 1) * zoom == -(q * zoom) - zoom) by (nonlinear_arith);
    assert((-q) * zoom == -(q * zoom)) by (nonlinear_arith);
    if spans(width, zoom, t) {
        if width >= 0 {
            assert(t == q) by (nonlinear_arith)
                requires
                    t * zoom <= n < (t + 1) * zoom,
                    q * zoom <= n < (q + 1) * zoom,
                    zoom > 0,
            ;
        } else {
            assert(t == -q) by (nonlinear_arith)
                requires
                    (t - 1) * zoom < n <= t * zoom,
                    (-q - 1) * zoom < n <= (-q) * zoom,
                    zoom > 0,
            ;
        }
    }
}

/// The width of a time is how wide it is.
pub proof fn times_have_their_width(t: int, zoom: int, width: int)
    ensures
        measures(t, zoom, crate::layout::time_as_width(t, zoom)),
        measures(t, zoom, width) ==> crate::layout::time_as_width(t, zoom) == width,
{
}

/// The time at a position is that which the way from the beginning of the timeline takes up,
/// and the position of a time is as far from the beginning as the time is wide. Both follow
/// the scroll offset.
pub proof fn positions_follow_the_scale(scale: TimeScale, x: int, t: int)
    requires
        scale.zoom > 0,
    ensures
        i64::MIN < scale.time_of(x) < i64::MAX ==> spans(
            x - scale.left + scale.scroll,
            scale.zoom as int,
            scale.time_of(x),
        ),
        spans(x - scale.left + scale.scroll, scale.zoom as int, t) && i64::MIN <= t <= i64::MAX
            ==> scale.time_of(x) == t,
        measures(t, scale.zoom as int, scale.x_of(t) - scale.left + scale.scroll),
{
    widths_cover_their_time(x - scale.left + scale.scroll, scale.zoom as int, t);
}

/// How far down the row of a track is: the video tracks come first, then the audio tracks,
/// under the ruler.
pub open spec fn row_of(is_video: bool, track: int, video_tracks: int) -> int {
    30_000 + 68_000 * if is_video {
        track
    } else {
        video_tracks + track
    }
}

/// Whether a track is the one at a height: the height lies in its row. Above the rows of the
/// lane it is the first; below those of the video lane it is the last.
pub open spec fn is_row_at(y: int, top: int, is_video: bool, track: int, video_tracks: int) -> bool {
    let down = y - top;
    let row = row_of(is_video, track, video_tracks);
    ||| row <= down < row + 68_000
    ||| track == 0 && down < row
    ||| is_video && track == video_tracks - 1 && down >= row
}

/// Tracks stand in rows, the audio tracks below the video tracks, and the track at a height is
/// the one whose row it is.
pub proof fn tracks_stand_in_rows(
    y: int,
    top: int,
    is_video: bool,
    track: int,
    video_tracks: int,
)
    requires
        0 <= track < usize::MAX,
        0 <= video_tracks,
        is_video ==> track < video_tracks,
    ensures
        crate::layout::track_top(top, is_video, track, video_tracks) == top + row_of(
            is_video,
            track,
            video_tracks,
        ),
        is_row_at(y, top, is_video, track, video_tracks) ==> crate::layout::track_at(
            y,
            top,
            is_video,
            video_tracks,
        ) == track,
        crate::layout::track_at(y, top, is_video, video_tracks) == track ==> is_row_at(
            y,
            top,
            is_video,
            track,
            video_tracks,
        ),
{
}

} // verus!
