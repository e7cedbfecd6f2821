//! Which inputs the edits take: all but those at the limits of the number types.

use crate::drag::DragState;
use crate::editor::EditorModel;
use crate::laws::dragging::{move_of, stands, stands_alone};
use crate::laws::editing::{clips_of, count_of};
use crate::laws::scale::spans;
use crate::laws::trimming::{left_trim, right_trim};
use crate::layout::{Canvas, Point};
use vstd::prelude::*;

verus! {

/// Whether a time is no more than about thirty years away from zero.
pub open spec fn is_ordinary(t: int) -> bool {
    -1_000_000_000_000_000_000 <= t <= 1_000_000_000_000_000_000
}

/// Whether the playhead, the ends of all clips and where they begin and end in their sources
/// are ordinary times.
pub open spec fn has_ordinary_times(m: EditorModel) -> bool {
    &&& is_ordinary(m.playhead as int)
    &&& forall|v: bool, t: int, i: int|
        stands(m, v, t, i) ==> {
            let c = #[trigger] clips_of(m, v, t)[i];
            &&& is_ordinary(c.timeline_start as int)
            &&& is_ordinary(c.timeline_end as int)
            &&& is_ordinary(c.source_trim_start as int)
            &&& is_ordinary(c.source_trim_end as int)
        }
}

/// Every number that the type can hold is a valid time, and no other.
pub proof fn times_are_limited_by_their_type_alone(t: int)
    ensures
        crate::editor::is_time(t) == (i64::MIN <= t <= i64::MAX),
{
}

/// A cut is taken wherever its source instant can be told and there is a next id; beside a clip
/// it is always taken.
pub proof fn ordinary_cuts_are_taken(
    m: EditorModel,
    is_video: bool,
    track: int,
    clip: int,
    time: int,
)
    ensures
        m.razor_fits(is_video, track, clip, time) == (stands(m, is_video, track, clip) ==> {
            let c = clips_of(m, is_video, track)[clip];
            c.timeline_start < time < c.timeline_end ==> i64::MIN <= c.source_trim_start + (time
                - c.timeline_start) <= i64::MAX && m.next_clip_id < usize::MAX
        }),
{
}

/// A press is taken wherever the clips have ordinary times and there is a next id.
pub proof fn ordinary_presses_are_taken(m: EditorModel, canvas: Canvas, p: Point)
    requires
        has_ordinary_times(m),
        m.next_clip_id < usize::MAX,
    ensures
        m.press_fits(canvas, p),
{
    crate::laws::pressing::clips_are_found_under_the_pointer(m, canvas, p);
    match m.hit(canvas, p) {
        Some((v, t, i)) => {
            let time = m.scale(canvas).time_of(p.x as int);
            assert(stands(m, v, t, i));
            let c = clips_of(m, v, t)[i];
            ordinary_cuts_are_taken(m, v, t, i, time);
        },
        None => {},
    }
}

/// A move of a clip is taken wherever the clips have ordinary times and the way of the pointer
/// is ordinary.
pub proof fn ordinary_moves_are_taken(
    m: EditorModel,
    canvas: Canvas,
    id: usize,
    is_video: bool,
    grab: Point,
    clip_start: i64,
    from: usize,
    p: Point,
    track: int,
    clip: int,
    way: int,
    limit: int,
)
    requires
        has_ordinary_times(m),
        m.zoom_factor > 0,
        stands_alone(m, id, is_video, track, clip),
        is_ordinary(clip_start as int),
        spans(p.x - grab.x, m.zoom_factor as int, way),
        is_ordinary(way),
        spans(8_000, m.zoom_factor as int, limit),
    ensures
        m.drag_fits(canvas, move_of(id, is_video, grab, clip_start, from), p),
{
    let c = clips_of(m, is_video, track)[clip];
    let length = c.timeline_end - c.timeline_start;
    crate::laws::dragging::clips_are_found_by_their_id(m, id);
    assert(m.located(id) == Some((is_video, track, clip)));
    crate::laws::scale::widths_cover_their_time(p.x - grab.x, m.zoom_factor as int, way);
    crate::laws::dragging::lemma_limit(m.zoom_factor as int, limit);
    crate::laws::scale::widths_cover_their_time(8_000, m.zoom_factor as int, limit);
    let wanted = clip_start + way;
    crate::laws::dragging::moved_clips_snap(m, id, wanted, length, limit);
    let desired = m.snapped_start(id, wanted, length);
    let to = crate::layout::track_at(
        p.y as int,
        canvas.top as int,
        is_video,
        m.video_tracks.len() as int,
    );
    assert(to >= 0);
    if to < count_of(m, is_video) {
        let others = clips_of(m, is_video, to);
        crate::laws::dragging::lemma_placed_beside(
            others,
            id,
            length,
            desired,
            c.timeline_start as int,
        );
        assert(m.lane(is_video)[to].clips == others);
        if let Some(s) = crate::drag::placed(
            others,
            id,
            length,
            desired,
            c.timeline_start as int,
        ) {
            assert(stands(m, is_video, track, clip));
            if s != desired && s != c.timeline_start {
                let i = choose|i: int|
                    0 <= i < others.len() && (#[trigger] others[i]).id != id && s + length
                        == others[i].timeline_start;
                assert(stands(m, is_video, to, i));
                assert(is_ordinary(clips_of(m, is_video, to)[i].timeline_start as int));
            }
        }
    }
}

/// A trim of a clip is taken wherever the clips have ordinary times and the way of the pointer
/// is ordinary.
pub proof fn ordinary_trims_are_taken(
    m: EditorModel,
    canvas: Canvas,
    id: usize,
    is_video: bool,
    grab_x: i64,
    start: i64,
    end: i64,
    trim: i64,
    p: Point,
    track: int,
    clip: int,
    way: int,
    limit: int,
)
    requires
        has_ordinary_times(m),
        m.zoom_factor > 0,
        stands_alone(m, id, is_video, track, clip),
        is_ordinary(start as int),
        is_ordinary(end as int),
        is_ordinary(trim as int),
        spans(p.x - grab_x, m.zoom_factor as int, way),
        is_ordinary(way),
        spans(8_000, m.zoom_factor as int, limit),
    ensures
        m.drag_fits(canvas, left_trim(id, is_video, grab_x, start, end, trim), p),
        m.drag_fits(canvas, right_trim(id, is_video, grab_x, start, end, trim), p),
        m.drag_fits(canvas, DragState::Idle, p),
        m.drag_fits(canvas, DragState::Playhead, p),
{
    crate::laws::dragging::clips_are_found_by_their_id(m, id);
    assert(m.located(id) == Some((is_video, track, clip)));
    crate::laws::scale::widths_cover_their_time(p.x - grab_x, m.zoom_factor as int, way);
    crate::laws::dragging::lemma_limit(m.zoom_factor as int, limit);
    crate::laws::scale::widths_cover_their_time(8_000, m.zoom_factor as int, limit);
    crate::laws::dragging::times_snap_to_the_nearest(m, id, start + way, limit);
    crate::laws::dragging::times_snap_to_the_nearest(m, id, end + way, limit);
    assert(m.has_clip(is_video, track, clip));
}

/// An edit that needs room on the timeline or for an id is taken wherever there is that room.
pub proof fn ordinary_copies_are_taken(m: EditorModel, is_video: bool, track: int, clip: int)
    requires
        has_ordinary_times(m),
        stands(m, is_video, track, clip),
    ensures
        ({
            let clips = clips_of(m, is_video, track);
            let c = clips[clip];
            let length = c.timeline_end - c.timeline_start;
            let start = crate::editor::earliest_free(
                clips,
                c.timeline_end as int,
                length,
                usize::MAX,
            );
            &&& c.length() == length
            &&& crate::editor::is_time(length)
            &&& crate::editor::is_time(start + length)
        }),
{
    let clips = clips_of(m, is_video, track);
    let c = clips[clip];
    let length = c.timeline_end - c.timeline_start;
    crate::editor::a_free_place_exists(clips, c.timeline_end as int, length, usize::MAX);
    let start = crate::editor::earliest_free(clips, c.timeline_end as int, length, usize::MAX);
    let bound = 1_000_000_000_000_000_000int;
    if start > bound {
        assert forall|i: int|
            0 <= i < clips.len() && (#[trigger] clips[i]).id != usize::MAX implies !clips[i].meets(
            bound,
            bound + length,
        ) by {
            assert(stands(m, is_video, track, i));
            assert(is_ordinary(clips_of(m, is_video, track)[i].timeline_end as int));
        }
        assert(crate::editor::is_free(clips, usize::MAX, bound, length));
        assert(false);
    }
}

} // verus!
