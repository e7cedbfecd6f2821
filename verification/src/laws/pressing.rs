//! What pressing the pointer on the timeline promises.

use crate::drag::DragState;
use crate::editor::{EditTool, EditorModel};
use crate::laws::dragging::{move_of, stands};
use crate::laws::editing::{clips_of, tracks_of};
use crate::laws::scale::{measures, row_of, spans};
use crate::laws::trimming::{left_trim, right_trim};
use crate::layout::{Canvas, Point};
use vstd::prelude::*;

verus! {

/// Whether a point lies on the canvas.
pub open spec fn is_on(canvas: Canvas, p: Point) -> bool {
    &&& canvas.left <= p.x
    &&& p.x <= canvas.right
    &&& canvas.top <= p.y
    &&& p.y <= canvas.bottom
}

/// Whether a position is at a time or to the right of it.
pub open spec fn is_right_of(m: EditorModel, canvas: Canvas, x: int, t: int) -> bool {
    forall|w: int|
        #[trigger] measures(t, m.zoom_factor as int, w) ==> canvas.left + w - m.scroll_offset <= x
}

/// Whether a position is at a time or to the left of it.
pub open spec fn is_left_of(m: EditorModel, canvas: Canvas, x: int, t: int) -> bool {
    forall|w: int|
        #[trigger] measures(t, m.zoom_factor as int, w) ==> x <= canvas.left + w - m.scroll_offset
}

/// Whether the clip at these indices lies under a point: between its ends, and in the row of
/// its track, two points away from the row's edges.
pub open spec fn lies_under(
    m: EditorModel,
    canvas: Canvas,
    p: Point,
    is_video: bool,
    track: int,
    clip: int,
) -> bool {
    let row = canvas.top + row_of(is_video, track, m.video_tracks.len() as int);
    &&& stands(m, is_video, track, clip)
    &&& row + 2_000 <= p.y
    &&& p.y <= row + 58_000
    &&& is_right_of(
        m,
        canvas,
        p.x as int,
        clips_of(m, is_video, track)[clip].timeline_start as int,
    )
    &&& is_left_of(m, canvas, p.x as int, clips_of(m, is_video, track)[clip].timeline_end as int)
}

/// Whether the clip at these indices is the first of its track that lies under a point.
pub open spec fn is_first_under(
    m: EditorModel,
    canvas: Canvas,
    p: Point,
    is_video: bool,
    track: int,
    clip: int,
) -> bool {
    &&& lies_under(m, canvas, p, is_video, track, clip)
    &&& forall|i: int|
        i < clip ==> !#[trigger] lies_under(m, canvas, p, is_video, track, i)
}

proof fn lemma_under(
    m: EditorModel,
    canvas: Canvas,
    p: Point,
    is_video: bool,
    track: int,
    clip: int,
)
    requires
        stands(m, is_video, track, clip),
    ensures
        lies_under(m, canvas, p, is_video, track, clip) == crate::drag::under(
            m.scale(canvas),
            crate::layout::track_top(
                canvas.top as int,
                is_video,
                track,
                m.video_tracks.len() as int,
            ),
            p,
        )(clips_of(m, is_video, track)[clip]),
{
    let c = clips_of(m, is_video, track)[clip];
    lemma_beside(m, canvas, p.x as int, c.timeline_start as int);
    lemma_beside(m, canvas, p.x as int, c.timeline_end as int);
}

proof fn lemma_beside(m: EditorModel, canvas: Canvas, x: int, t: int)
    ensures
        is_right_of(m, canvas, x, t) == (m.scale(canvas).x_of(t) <= x),
        is_left_of(m, canvas, x, t) == (x <= m.scale(canvas).x_of(t)),
{
    let zoom = m.zoom_factor as int;
    let w = crate::layout::time_as_width(t, zoom);
    crate::laws::scale::times_have_their_width(t, zoom, w);
    assert forall|v: int| #[trigger] measures(t, zoom, v) implies v == w by {
        crate::laws::scale::times_have_their_width(t, zoom, v);
    }
}

proof fn lemma_hit_in(m: EditorModel, canvas: Canvas, p: Point, is_video: bool, from: int)
    requires
        0 <= from <= tracks_of(m, is_video).len(),
    ensures
        match crate::drag::hit_in(
            tracks_of(m, is_video),
            m.scale(canvas),
            canvas.top as int,
            is_video,
            m.video_tracks.len() as int,
            p,
            from,
        ) {
            Some((t, i)) => t >= from && is_first_under(m, canvas, p, is_video, t, i),
            None => forall|t: int, i: int|
                t >= from ==> !#[trigger] lies_under(m, canvas, p, is_video, t, i),
        },
    decreases tracks_of(m, is_video).len() - from,
{
    if from < tracks_of(m, is_video).len() {
        let n = m.video_tracks.len() as int;
        let cond = crate::drag::under(
            m.scale(canvas),
            crate::layout::track_top(canvas.top as int, is_video, from, n),
            p,
        );
        let clips = tracks_of(m, is_video)[from].clips;
        crate::search::first_where_is_first(clips, cond);
        lemma_hit_in(m, canvas, p, is_video, from + 1);
        assert forall|i: int| 0 <= i < clips.len() implies #[trigger] lies_under(
            m,
            canvas,
            p,
            is_video,
            from,
            i,
        ) == cond(clips[i]) by {
            lemma_under(m, canvas, p, is_video, from, i);
        }
    }
}

/// The clip under a point is the first of its track that lies under it. Nothing is found only
/// where no clip lies under it.
pub proof fn clips_are_found_under_the_pointer(m: EditorModel, canvas: Canvas, p: Point)
    ensures
        match m.hit(canvas, p) {
            Some((v, t, i)) => is_first_under(m, canvas, p, v, t, i),
            None => forall|v: bool, t: int, i: int| !#[trigger] lies_under(m, canvas, p, v, t, i),
        },
        forall|v: bool, t: int, i: int|
            #[trigger] is_first_under(m, canvas, p, v, t, i) ==> m.hit(canvas, p) == Some(
                (v, t, i),
            ),
{
    lemma_hit_in(m, canvas, p, true, 0);
    lemma_hit_in(m, canvas, p, false, 0);
    assert forall|v: bool, t: int, i: int| #[trigger] is_first_under(
        m,
        canvas,
        p,
        v,
        t,
        i,
    ) implies m.hit(canvas, p) == Some((v, t, i)) by {
        assert(lies_under(m, canvas, p, v, t, i));
        match m.hit(canvas, p) {
            Some((w, u, j)) => {
                assert(is_first_under(m, canvas, p, w, u, j));
                assert(lies_under(m, canvas, p, w, u, j));
                assert(v == w && t == u);
                if i < j {
                    assert(!lies_under(m, canvas, p, w, u, i));
                } else if j < i {
                    assert(!lies_under(m, canvas, p, v, t, j));
                }
            },
            None => {
                assert(!lies_under(m, canvas, p, v, t, i));
            },
        }
    }
}

/// A press beside the canvas does nothing. One on the ruler takes the playhead to the time
/// under the pointer, and not before the beginning. One beside all clips drops the selection.
/// Nothing else changes.
pub proof fn presses_beside_the_clips(
    m: EditorModel,
    canvas: Canvas,
    drag: DragState,
    p: Point,
    t: int,
)
    requires
        m.zoom_factor > 0,
        spans(p.x - canvas.left + m.scroll_offset, m.zoom_factor as int, t),
        i64::MIN <= t <= i64::MAX,
    ensures
        ({
            let (after, now) = m.pressed(canvas, drag, p);
            if !is_on(canvas, p) {
                after == m && now == drag
            } else if p.y - canvas.top <= 30_000 {
                &&& after == (EditorModel { playhead: after.playhead, ..m })
                &&& after.playhead == if t >= 0 {
                    t
                } else {
                    0
                }
                &&& now == DragState::Playhead
            } else {
                (forall|v: bool, k: int, i: int| !#[trigger] lies_under(m, canvas, p, v, k, i))
                    ==> after == (EditorModel { selected_clip: None, ..m }) && now == drag
            }
        }),
{
    crate::laws::scale::widths_cover_their_time(
        p.x - canvas.left + m.scroll_offset,
        m.zoom_factor as int,
        t,
    );
    clips_are_found_under_the_pointer(m, canvas, p);
    match m.hit(canvas, p) {
        Some((v, k, i)) => {
            assert(lies_under(m, canvas, p, v, k, i));
        },
        None => {},
    }
}

/// A press on a clip with the razor cuts it at the time under the pointer.
pub proof fn the_razor_cuts_under_the_pointer(
    m: EditorModel,
    canvas: Canvas,
    drag: DragState,
    p: Point,
    is_video: bool,
    track: int,
    clip: int,
    t: int,
)
    requires
        m.zoom_factor > 0,
        m.selected_tool == EditTool::Razor,
        is_on(canvas, p),
        p.y - canvas.top > 30_000,
        is_first_under(m, canvas, p, is_video, track, clip),
        spans(p.x - canvas.left + m.scroll_offset, m.zoom_factor as int, t),
        i64::MIN <= t <= i64::MAX,
    ensures
        m.pressed(canvas, drag, p) == (m.razored(is_video, track, clip, t), DragState::Idle),
{
    crate::laws::scale::widths_cover_their_time(
        p.x - canvas.left + m.scroll_offset,
        m.zoom_factor as int,
        t,
    );
    clips_are_found_under_the_pointer(m, canvas, p);
}

/// A press on a clip with the other tool selects it and takes hold of it: of its left end
/// within eight points of that, else of its right end within eight points of that, else of
/// the whole clip. Nothing else changes.
pub proof fn a_press_takes_hold_of_the_clip(
    m: EditorModel,
    canvas: Canvas,
    drag: DragState,
    p: Point,
    is_video: bool,
    track: int,
    clip: int,
)
    requires
        m.selected_tool == EditTool::Select,
        is_on(canvas, p),
        p.y - canvas.top > 30_000,
        is_first_under(m, canvas, p, is_video, track, clip),
        track <= usize::MAX,
        clip <= usize::MAX,
    ensures
        ({
            let c = clips_of(m, is_video, track)[clip];
            let (after, now) = m.pressed(canvas, drag, p);
            &&& after == (EditorModel {
                selected_clip: Some((is_video, track as usize, clip as usize)),
                ..m
            })
            &&& if is_left_of(m, canvas, p.x - 8_000, c.timeline_start as int) {
                now == left_trim(
                    c.id,
                    is_video,
                    p.x,
                    c.timeline_start,
                    c.timeline_end,
                    c.source_trim_start,
                )
            } else if is_right_of(m, canvas, p.x + 8_000, c.timeline_end as int) {
                now == right_trim(
                    c.id,
                    is_video,
                    p.x,
                    c.timeline_start,
                    c.timeline_end,
                    c.source_trim_end,
                )
            } else {
                now == move_of(c.id, is_video, p, c.timeline_start, track as usize)
            }
        }),
{
    let c = clips_of(m, is_video, track)[clip];
    clips_are_found_under_the_pointer(m, canvas, p);
    lemma_beside(m, canvas, p.x - 8_000, c.timeline_start as int);
    lemma_beside(m, canvas, p.x + 8_000, c.timeline_end as int);
    assert(m.clip(is_video, track, clip) == c);
}

} // verus!
