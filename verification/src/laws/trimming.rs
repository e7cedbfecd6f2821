//! What trimming the ends of clips promises.

use crate::drag::DragState;
use crate::editor::{Clip, EditorModel};
use crate::laws::dragging::{settles, stands_alone};
use crate::laws::editing::{clips_of, same_elsewhere};
use crate::laws::scale::spans;
use crate::layout::{Canvas, Point};
use vstd::prelude::*;

verus! {

/// Whether two clips agree in everything but where they begin.
pub open spec fn same_but_start(a: Clip, b: Clip) -> bool {
    &&& a.id == b.id
    &&& a.asset_id == b.asset_id
    &&& a.timeline_end == b.timeline_end
    &&& a.source_trim_end == b.source_trim_end
    &&& a.fade_in_duration == b.fade_in_duration
    &&& a.fade_out_duration == b.fade_out_duration
}

/// Whether two clips agree in everything but where they end.
pub open spec fn same_but_end(a: Clip, b: Clip) -> bool {
    &&& a.id == b.id
    &&& a.asset_id == b.asset_id
    &&& a.timeline_start == b.timeline_start
    &&& a.source_trim_start == b.source_trim_start
    &&& a.fade_in_duration == b.fade_in_duration
    &&& a.fade_out_duration == b.fade_out_duration
}

/// Whether a state is that before but for one clip.
pub open spec fn only_one_clip_changes(
    m: EditorModel,
    after: EditorModel,
    is_video: bool,
    track: int,
    clip: int,
) -> bool {
    &&& same_elsewhere(m, after, is_video, track)
    &&& after.selected_clip == m.selected_clip
    &&& after.next_clip_id == m.next_clip_id
    &&& clips_of(after, is_video, track).len() == clips_of(m, is_video, track).len()
    &&& forall|i: int|
        0 <= i < clips_of(m, is_video, track).len() && i != clip ==> #[trigger] clips_of(
            after,
            is_video,
            track,
        )[i] == clips_of(m, is_video, track)[i]
}

/// The trim that a drag of a clip's left end makes.
pub open spec fn left_trim(
    id: usize,
    is_video: bool,
    grab_x: i64,
    start: i64,
    end: i64,
    trim_start: i64,
) -> DragState {
    DragState::ClipTrimLeft {
        clip_id: id,
        is_video,
        drag_start_mouse_x: grab_x,
        drag_start_clip_start: start,
        drag_start_clip_end: end,
        drag_start_trim_start: trim_start,
    }
}

/// A dragged left end follows the pointer, or stands on the time that it snaps to: within its
/// bounds it is there exactly, else at the bound. It does not pass the beginning of the
/// source, the end of the clip before, the beginning of the timeline, or the last twentieth of
/// a second of the clip. The clip begins as much later in its source as on the timeline, and
/// nothing else changes. The result is the time that the end is dragged to.
pub proof fn a_left_trim_follows_the_pointer(
    m: EditorModel,
    canvas: Canvas,
    id: usize,
    is_video: bool,
    grab_x: i64,
    start: i64,
    end: i64,
    trim_start: i64,
    p: Point,
    track: int,
    clip: int,
    way: int,
    limit: int,
) -> (s: int)
    requires
        stands_alone(m, id, is_video, track, clip),
        m.zoom_factor > 0,
        spans(p.x - grab_x, m.zoom_factor as int, way),
        i64::MIN <= way <= i64::MAX,
        spans(8_000, m.zoom_factor as int, limit),
        m.drag_fits(canvas, left_trim(id, is_video, grab_x, start, end, trim_start), p),
    ensures
        settles(m, id, start + way, limit, s),
        ({
            let after = m.dragged(
                canvas,
                left_trim(id, is_video, grab_x, start, end, trim_start),
                p,
            );
            let old_clips = clips_of(m, is_video, track);
            let c = old_clips[clip];
            let new = clips_of(after, is_video, track)[clip];
            let source_bound = start - trim_start;
            let latest = end - 50_000_000;
            let has_before = clip > 0;
            let before_ends = old_clips[clip - 1].timeline_end as int;
            &&& only_one_clip_changes(m, after, is_video, track, clip)
            &&& same_but_start(c, new)
            &&& new == c || {
                &&& new.source_trim_start - trim_start == new.timeline_start - start
                &&& 0 <= new.timeline_start <= latest
                &&& source_bound <= latest ==> source_bound <= new.timeline_start
                &&& has_before ==> before_ends <= new.timeline_start
            }
            // The pointer is within the bounds.
            &&& 0 <= s <= latest && source_bound <= s && (has_before ==> before_ends <= s)
                ==> new.timeline_start == s && new.source_trim_start - trim_start == s - start
            // The pointer is before the source begins.
            &&& s < source_bound && 0 <= source_bound <= latest && (has_before ==> before_ends
                <= source_bound) ==> new.timeline_start == source_bound && new.source_trim_start
                == 0
            // The pointer is before the other clip ends.
            &&& has_before && s < before_ends && 0 <= before_ends <= latest && source_bound
                <= before_ends ==> new.timeline_start == before_ends && new.source_trim_start
                - trim_start == before_ends - start
            // The pointer is too far to the right.
            &&& s > latest && latest >= 0 && source_bound <= latest && (has_before ==> before_ends
                <= latest) ==> new.timeline_start == latest && new.source_trim_start - trim_start
                == latest - start
        }),
{
    let drag = left_trim(id, is_video, grab_x, start, end, trim_start);
    let after = m.dragged(canvas, drag, p);
    crate::laws::dragging::clips_are_found_by_their_id(m, id);
    assert(m.located(id) == Some((is_video, track, clip)));
    crate::laws::scale::widths_cover_their_time(p.x - grab_x, m.zoom_factor as int, way);
    crate::laws::dragging::lemma_limit(m.zoom_factor as int, limit);
    crate::laws::scale::widths_cover_their_time(8_000, m.zoom_factor as int, limit);
    let s = m.snapped(start + way, Some(id), limit);
    crate::laws::dragging::times_snap_to_the_nearest(m, id, start + way, limit);
    assert(m.lane(is_video)[track].clips == clips_of(m, is_video, track));
    assert(clip > 0 ==> m.clip(is_video, track, clip - 1) == clips_of(m, is_video, track)[clip
        - 1]);
    s
}

/// The trim that a drag of a clip's right end makes.
pub open spec fn right_trim(
    id: usize,
    is_video: bool,
    grab_x: i64,
    start: i64,
    end: i64,
    trim_end: i64,
) -> DragState {
    DragState::ClipTrimRight {
        clip_id: id,
        is_video,
        drag_start_mouse_x: grab_x,
        drag_start_clip_end: end,
        drag_start_clip_start: start,
        drag_start_trim_end: trim_end,
    }
}

/// Whether the asset `a` is the first with the id that a clip names.
pub open spec fn is_asset_of(m: EditorModel, c: Clip, a: int) -> bool {
    0 <= a < m.assets.len() && m.assets[a].id == c.asset_id && forall|b: int|
        0 <= b < a ==> (#[trigger] m.assets[b]).id != c.asset_id
}

/// Whether the source of a clip is `length` long: the first asset with its id says so; a still
/// image can be drawn out for a day, and what is not known for an hour.
pub open spec fn source_lasts(m: EditorModel, c: Clip, length: int) -> bool {
    if exists|a: int| is_asset_of(m, c, a) {
        forall|a: int|
            #[trigger] is_asset_of(m, c, a) ==> length == if m.assets[a].is_image {
                86_400_000_000_000
            } else {
                m.assets[a].duration as int
            }
    } else {
        length == 3_600_000_000_000
    }
}

/// The asset of a clip is the one with its id.
pub proof fn assets_are_found_by_their_id(m: EditorModel, c: Clip)
    ensures
        match crate::search::first_where(m.assets, crate::drag::of_asset(c.asset_id)) {
            Some(a) => is_asset_of(m, c, a),
            None => forall|a: int| !is_asset_of(m, c, a),
        },
        forall|a: int, b: int|
            #[trigger] is_asset_of(m, c, a) && #[trigger] is_asset_of(m, c, b) ==> a == b,
{
    let cond = crate::drag::of_asset(c.asset_id);
    crate::search::first_where_is_first(m.assets, cond);
    match crate::search::first_where(m.assets, cond) {
        Some(a) => {
            assert forall|b: int| 0 <= b < a implies (#[trigger] m.assets[b]).id != c.asset_id by {
                assert(!cond(m.assets[b]));
            }
        },
        None => {
            assert forall|a: int| !is_asset_of(m, c, a) by {
                if 0 <= a < m.assets.len() {
                    assert(!cond(m.assets[a]));
                }
            }
        },
    }
}

/// The source of a clip is as long as its asset says.
pub proof fn sources_last_as_long_as_their_assets(m: EditorModel, c: Clip)
    ensures
        source_lasts(m, c, m.source_length(c)),
        forall|length: int| #[trigger] source_lasts(m, c, length) ==> length == m.source_length(c),
{
    assets_are_found_by_their_id(m, c);
}

/// A dragged right end follows the pointer, or stands on the time that it snaps to: within its
/// bounds it is there exactly, else at the bound. It does not pass the end of the source, the
/// beginning of the clip behind, or the first twentieth of a second of the clip. The clip ends
/// as much later in its source as on the timeline, and nothing else changes. The result is
/// the time that the end is dragged to.
pub proof fn a_right_trim_follows_the_pointer(
    m: EditorModel,
    canvas: Canvas,
    id: usize,
    is_video: bool,
    grab_x: i64,
    start: i64,
    end: i64,
    trim_end: i64,
    p: Point,
    track: int,
    clip: int,
    way: int,
    limit: int,
    source: int,
) -> (s: int)
    requires
        stands_alone(m, id, is_video, track, clip),
        m.zoom_factor > 0,
        spans(p.x - grab_x, m.zoom_factor as int, way),
        i64::MIN <= way <= i64::MAX,
        spans(8_000, m.zoom_factor as int, limit),
        source_lasts(m, clips_of(m, is_video, track)[clip], source),
        m.drag_fits(canvas, right_trim(id, is_video, grab_x, start, end, trim_end), p),
    ensures
        settles(m, id, end + way, limit, s),
        ({
            let after = m.dragged(
                canvas,
                right_trim(id, is_video, grab_x, start, end, trim_end),
                p,
            );
            let old_clips = clips_of(m, is_video, track);
            let c = old_clips[clip];
            let new = clips_of(after, is_video, track)[clip];
            let source_bound = end + (source - trim_end);
            let earliest = start + 50_000_000;
            let has_next = clip + 1 < old_clips.len();
            let next_begins = old_clips[clip + 1].timeline_start as int;
            &&& only_one_clip_changes(m, after, is_video, track, clip)
            &&& same_but_end(c, new)
            &&& new == c || {
                &&& new.source_trim_end - trim_end == new.timeline_end - end
                &&& earliest <= new.timeline_end
                &&& earliest <= source_bound ==> new.timeline_end <= source_bound
                &&& has_next ==> new.timeline_end <= next_begins
            }
            // The pointer is within the bounds.
            &&& earliest <= s <= source_bound && (has_next ==> s <= next_begins)
                ==> new.timeline_end == s && new.source_trim_end - trim_end == s - end
            // The pointer is behind the end of the source.
            &&& s > source_bound && earliest <= source_bound && (has_next ==> source_bound
                <= next_begins) ==> new.timeline_end == source_bound && new.source_trim_end
                == source
            // The pointer is behind the beginning of the other clip.
            &&& has_next && s > next_begins && earliest <= next_begins <= source_bound
                ==> new.timeline_end == next_begins && new.source_trim_end - trim_end == next_begins
                - end
            // The pointer is too far to the left.
            &&& s < earliest && earliest <= source_bound && (has_next ==> earliest <= next_begins)
                ==> new.timeline_end == earliest && new.source_trim_end - trim_end == earliest - end
        }),
{
    let drag = right_trim(id, is_video, grab_x, start, end, trim_end);
    let after = m.dragged(canvas, drag, p);
    crate::laws::dragging::clips_are_found_by_their_id(m, id);
    assert(m.located(id) == Some((is_video, track, clip)));
    crate::laws::scale::widths_cover_their_time(p.x - grab_x, m.zoom_factor as int, way);
    crate::laws::dragging::lemma_limit(m.zoom_factor as int, limit);
    crate::laws::scale::widths_cover_their_time(8_000, m.zoom_factor as int, limit);
    let s = m.snapped(end + way, Some(id), limit);
    crate::laws::dragging::times_snap_to_the_nearest(m, id, end + way, limit);
    sources_last_as_long_as_their_assets(m, clips_of(m, is_video, track)[clip]);
    assert(m.lane(is_video)[track].clips == clips_of(m, is_video, track));
    assert(m.clip(is_video, track, clip) == clips_of(m, is_video, track)[clip]);
    assert(m.clip(is_video, track, clip + 1) == clips_of(m, is_video, track)[clip + 1]);
    s
}

} // verus!
