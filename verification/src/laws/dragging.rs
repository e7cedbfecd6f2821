//! What pressing and dragging on the timeline promise.

use crate::drag::DragState;
use crate::editor::{Clip, EditorModel, TrackModel};
use crate::laws::editing::{clips_of, count_of, same_header, same_view, tracks_of};
use crate::laws::scale::{is_row_at, row_of, spans};
use crate::layout::{Canvas, Point};
use vstd::prelude::*;

verus! {

/// Whether a clip stands at these indices.
pub open spec fn stands(m: EditorModel, is_video: bool, track: int, clip: int) -> bool {
    0 <= track < count_of(m, is_video) && 0 <= clip < clips_of(m, is_video, track).len()
}

/// Whether the clip with the given id stands at these indices and nowhere else.
pub open spec fn stands_alone(
    m: EditorModel,
    id: usize,
    is_video: bool,
    track: int,
    clip: int,
) -> bool {
    &&& stands(m, is_video, track, clip)
    &&& clips_of(m, is_video, track)[clip].id == id
    &&& forall|v: bool, t: int, i: int|
        stands(m, v, t, i) && (#[trigger] clips_of(m, v, t)[i]).id == id ==> v == is_video && t
            == track && i == clip
}

proof fn lemma_located_in(tracks: Seq<TrackModel>, id: usize, from: int)
    requires
        0 <= from <= tracks.len(),
    ensures
        match crate::drag::located_in(tracks, id, from) {
            Some((t, i)) => from <= t < tracks.len() && 0 <= i < tracks[t].clips.len()
                && tracks[t].clips[i].id == id,
            None => forall|t: int, i: int|
                from <= t < tracks.len() && 0 <= i < tracks[t].clips.len() ==> (
                #[trigger] tracks[t].clips[i]).id != id,
        },
    decreases tracks.len() - from,
{
    if from < tracks.len() {
        crate::search::first_where_is_first(tracks[from].clips, crate::drag::with_id(id));
        lemma_located_in(tracks, id, from + 1);
        if crate::drag::located_in(tracks, id, from) is None {
            assert forall|t: int, i: int|
                from <= t < tracks.len() && 0 <= i < tracks[t].clips.len() implies (
            #[trigger] tracks[t].clips[i]).id != id by {
                if t == from {
                    assert(!crate::drag::with_id(id)(tracks[from].clips[i]));
                }
            }
        }
    }
}

/// A clip whose id no other clip has is found where it stands, and an id that no clip has is
/// not found.
pub proof fn clips_are_found_by_their_id(m: EditorModel, id: usize)
    ensures
        match m.located(id) {
            Some((v, t, i)) => stands(m, v, t, i) && clips_of(m, v, t)[i].id == id,
            None => forall|v: bool, t: int, i: int|
                stands(m, v, t, i) ==> (#[trigger] clips_of(m, v, t)[i]).id != id,
        },
        forall|v: bool, t: int, i: int|
            #[trigger] stands_alone(m, id, v, t, i) ==> m.located(id) == Some((v, t, i)),
{
    lemma_located_in(m.video_tracks, id, 0);
    lemma_located_in(m.audio_tracks, id, 0);
    if m.located(id) is None {
        assert forall|v: bool, t: int, i: int| stands(m, v, t, i) implies (#[trigger] clips_of(
            m,
            v,
            t,
        )[i]).id != id by {
            if v {
                assert(m.video_tracks[t].clips[i].id != id);
            } else {
                assert(m.audio_tracks[t].clips[i].id != id);
            }
        }
    } else {
        let (v, t, i) = m.located(id)->0;
        assert(stands(m, v, t, i));
        assert(clips_of(m, v, t)[i].id == id);
    }
}

// Snapping

/// Whether `q` is a time that a dragged time snaps to: the beginning, the playhead, or an end
/// of a clip other than the dragged one.
pub open spec fn attracts(m: EditorModel, id: usize, q: int) -> bool {
    ||| q == 0
    ||| q == m.playhead
    ||| exists|v: bool, t: int, i: int|
        stands(m, v, t, i) && (#[trigger] clips_of(m, v, t)[i]).id != id && (q == clips_of(m, v, t)[
        i].timeline_start || q == clips_of(m, v, t)[i].timeline_end)
}

/// Whether two times are less than `limit` apart.
pub open spec fn near(a: int, b: int, limit: int) -> bool {
    -limit < a - b < limit
}

/// Whether `a` is no farther from `from` than `b` is from `target`.
pub open spec fn no_farther(a: int, from: int, b: int, target: int) -> bool {
    &&& a >= from && b >= target ==> a - from <= b - target
    &&& a >= from && b < target ==> a - from <= target - b
    &&& a < from && b >= target ==> from - a <= b - target
    &&& a < from && b < target ==> from - a <= target - b
}

/// Whether a time comes near to one that it snaps to.
pub open spec fn is_attracted(m: EditorModel, id: usize, t: int, limit: int) -> bool {
    exists|q: int| #[trigger] attracts(m, id, q) && near(t, q, limit)
}

/// Whether `s` is where the time `t` comes to stand: at the nearest of the times that it snaps
/// to, if one is nearer than `limit`; else where it is.
pub open spec fn settles(m: EditorModel, id: usize, t: int, limit: int, s: int) -> bool {
    if is_attracted(m, id, t, limit) {
        &&& attracts(m, id, s)
        &&& near(t, s, limit)
        &&& forall|q: int| #[trigger] attracts(m, id, q) ==> no_farther(s, t, q, t)
    } else {
        s == t
    }
}

/// A dragged time snaps to the nearest time that attracts it, and stays free of the others.
pub proof fn times_snap_to_the_nearest(m: EditorModel, id: usize, t: int, limit: int)
    ensures
        settles(m, id, t, limit, m.snapped(t, Some(id), limit)),
{
    assert forall|q: int|
        #![trigger attracts(m, id, q)]
        #![trigger m.is_snap_time(q, Some(id))]
        attracts(m, id, q) == m.is_snap_time(q, Some(id)) by {
        if q != 0 && q != m.playhead {
            if attracts(m, id, q) {
                let (v, k, i) = choose|v: bool, k: int, i: int|
                    stands(m, v, k, i) && (#[trigger] clips_of(m, v, k)[i]).id != id && (q
                        == clips_of(m, v, k)[i].timeline_start || q == clips_of(m, v, k)[
                    i].timeline_end);
                assert(m.has_clip(v, k, i));
                assert(m.clip(v, k, i) == clips_of(m, v, k)[i]);
            } else if m.is_snap_time(q, Some(id)) {
                let (v, k, i) = choose|v: bool, k: int, i: int|
                    m.has_clip(v, k, i) && Some(id) != Some((#[trigger] m.clip(v, k, i)).id) && (q
                        == m.clip(v, k, i).timeline_start || q == m.clip(v, k, i).timeline_end);
                assert(stands(m, v, k, i));
                assert(m.clip(v, k, i) == clips_of(m, v, k)[i]);
            }
        }
    }
    crate::drag::snapping_finds_the_nearest(m, t, Some(id), limit);
    let s = m.snapped(t, Some(id), limit);
    if is_attracted(m, id, t, limit) {
        let q = choose|q: int| #[trigger] attracts(m, id, q) && near(t, q, limit);
        assert(m.is_snap_time(q, Some(id)));
        assert(crate::drag::distance(t, q) < limit);
        assert forall|r: int| #[trigger] attracts(m, id, r) implies no_farther(s, t, r, t) by {
            assert(m.is_snap_time(r, Some(id)));
            if crate::drag::distance(t, r) >= limit {
                assert(crate::drag::distance(t, s) < limit);
            }
        }
    } else {
        assert forall|r: int| #[trigger] m.is_snap_time(r, Some(id)) implies crate::drag::distance(
            t,
            r,
        ) >= limit by {
            assert(attracts(m, id, r));
        }
    }
}

// Moving

/// Whether a stretch that begins at `start` is not before zero and meets no clip but those
/// with the given id.
pub open spec fn has_room(clips: Seq<Clip>, id: usize, start: int, length: int) -> bool {
    start >= 0 && forall|i: int|
        0 <= i < clips.len() && (#[trigger] clips[i]).id != id ==> clips[i].timeline_end <= start
            || start + length <= clips[i].timeline_start
}

/// Whether `desired` is where a moved clip is to begin that would begin at `wanted`. Where both
/// its ends come near to times that attract them, it makes the smaller of the two steps, so
/// that its beginning or its end stands on such a time; else it makes none. It never begins
/// before zero.
pub open spec fn is_desired(
    m: EditorModel,
    id: usize,
    wanted: int,
    length: int,
    limit: int,
    desired: int,
) -> bool {
    exists|s: int|
        #[trigger] step_is_least(m, id, wanted, length, limit, s) && desired == if s >= 0 {
            s
        } else {
            0
        }
}

pub open spec fn step_is_least(
    m: EditorModel,
    id: usize,
    wanted: int,
    length: int,
    limit: int,
    s: int,
) -> bool {
    if is_attracted(m, id, wanted, limit) && is_attracted(m, id, wanted + length, limit) {
        &&& attracts(m, id, s) || attracts(m, id, s + length)
        &&& near(wanted, s, limit)
        &&& forall|q: int|
            #[trigger] attracts(m, id, q) ==> no_farther(s, wanted, q, wanted) && no_farther(
                s,
                wanted,
                q,
                wanted + length,
            )
    } else {
        s == wanted
    }
}

/// The beginning of a moved clip snaps as said above.
pub proof fn moved_clips_snap(m: EditorModel, id: usize, wanted: int, length: int, limit: int)
    requires
        limit == m.snap_threshold(),
    ensures
        is_desired(m, id, wanted, length, limit, m.snapped_start(id, wanted, length)),
{
    times_snap_to_the_nearest(m, id, wanted, limit);
    times_snap_to_the_nearest(m, id, wanted + length, limit);
    let by_start = m.snapped(wanted, Some(id), limit);
    let by_end = m.snapped(wanted + length, Some(id), limit);
    let start_step = crate::drag::distance(by_start, wanted);
    let end_step = crate::drag::distance(by_end, wanted + length);
    let s = if start_step < limit && start_step <= end_step {
        by_start
    } else if end_step < limit {
        by_end - length
    } else {
        wanted
    };
    if is_attracted(m, id, wanted, limit) && is_attracted(m, id, wanted + length, limit) {
        assert(attracts(m, id, by_start));
        assert(attracts(m, id, by_end));
        assert(s == by_end - length ==> s + length == by_end);
        assert forall|q: int| #[trigger] attracts(m, id, q) implies no_farther(
            s,
            wanted,
            q,
            wanted,
        ) && no_farther(s, wanted, q, wanted + length) by {
            assert(no_farther(by_start, wanted, q, wanted));
            assert(no_farther(by_end, wanted + length, q, wanted + length));
        }
    }
    assert(step_is_least(m, id, wanted, length, limit, s));
}

/// The move that a drag of a clip makes.
pub open spec fn move_of(
    id: usize,
    is_video: bool,
    grab: Point,
    clip_start: i64,
    from: usize,
) -> DragState {
    DragState::ClipMove {
        clip_id: id,
        is_video,
        drag_start_mouse_x: grab.x,
        drag_start_mouse_y: grab.y,
        drag_start_clip_start: clip_start,
        drag_start_track_idx: from,
    }
}

/// Whether a state is that before with one clip moved to the track `to` of its lane, to begin
/// at `start`. The clip is `place` there and is selected; it lasts as long and plays the same
/// stretch of the same asset. The other clips stay, on every track, in the order in which
/// they begin on the track that the clip came to.
pub open spec fn is_moved(
    m: EditorModel,
    after: EditorModel,
    is_video: bool,
    track: int,
    clip: int,
    to: int,
    start: int,
    place: int,
) -> bool {
    let c = clips_of(m, is_video, track)[clip];
    let new_clips = clips_of(after, is_video, to);
    let moved = new_clips[place];
    &&& same_view(m, after)
    &&& after.next_clip_id == m.next_clip_id
    &&& after.next_track_id == m.next_track_id
    &&& tracks_of(after, !is_video) == tracks_of(m, !is_video)
    &&& count_of(after, is_video) == count_of(m, is_video)
    &&& forall|k: int|
        0 <= k < count_of(m, is_video) ==> same_header(
            #[trigger] tracks_of(after, is_video)[k],
            tracks_of(m, is_video)[k],
        )
    &&& forall|k: int|
        0 <= k < count_of(m, is_video) && k != to ==> #[trigger] clips_of(after, is_video, k)
            == if k == track {
            clips_of(m, is_video, k).remove(clip)
        } else {
            clips_of(m, is_video, k)
        }
    &&& 0 <= place < new_clips.len()
    &&& new_clips.remove(place).to_multiset() == (if to == track {
        clips_of(m, is_video, to).remove(clip)
    } else {
        clips_of(m, is_video, to)
    }).to_multiset()
    &&& forall|i: int, j: int|
        0 <= i < j < new_clips.len() ==> (#[trigger] new_clips[i]).timeline_start <= (
        #[trigger] new_clips[j]).timeline_start
    &&& after.selected_clip == Some((is_video, to as usize, place as usize))
    &&& moved.id == c.id
    &&& moved.asset_id == c.asset_id
    &&& moved.timeline_start == start
    &&& moved.timeline_end == start + (c.timeline_end - c.timeline_start)
    &&& moved.source_trim_start == c.source_trim_start
    &&& moved.source_trim_end == c.source_trim_end
    &&& moved.fade_in_duration == c.fade_in_duration
    &&& moved.fade_out_duration == c.fade_out_duration
}

proof fn lemma_clip_moved(
    m: EditorModel,
    is_video: bool,
    track: int,
    clip: int,
    to: int,
    start: int,
) -> (place: int)
    requires
        stands_alone(m, clips_of(m, is_video, track)[clip].id, is_video, track, clip),
        0 <= to < count_of(m, is_video),
        to <= usize::MAX,
        clips_of(m, is_video, to).len() < usize::MAX,
        i64::MIN <= start <= i64::MAX,
        i64::MIN <= start + clips_of(m, is_video, track)[clip].length() <= i64::MAX,
    ensures
        is_moved(
            m,
            m.clip_moved(is_video, track, clip, to, start),
            is_video,
            track,
            clip,
            to,
            start,
            place,
        ),
{
    let after = m.clip_moved(is_video, track, clip, to, start);
    let c = clips_of(m, is_video, track)[clip];
    let moved = Clip {
        timeline_start: start as i64,
        timeline_end: (start + c.length()) as i64,
        ..c
    };
    let rest = if to == track {
        clips_of(m, is_video, to).remove(clip)
    } else {
        clips_of(m, is_video, to)
    };
    let all = rest.push(moved);
    let new_clips = clips_of(after, is_video, to);
    assert(new_clips == crate::editor::sorted_by_start(all));
    crate::invariants::sorting_orders(all);
    crate::invariants::sorting_permutes(all);
    all.to_multiset_ensures();
    new_clips.to_multiset_ensures();
    rest.to_multiset_ensures();
    assert(all[all.len() - 1] == moved);
    assert(all.contains(moved));
    assert(all.to_multiset().count(moved) > 0);
    assert(new_clips.contains(moved));
    crate::search::first_where_is_first(new_clips, crate::drag::with_id(c.id));
    let k = choose|k: int| 0 <= k < new_clips.len() && new_clips[k] == moved;
    assert(crate::drag::with_id(c.id)(new_clips[k]));
    let place = crate::search::first_where(new_clips, crate::drag::with_id(c.id))->0;
    assert(new_clips[place].id == c.id);
    assert(new_clips.to_multiset().count(new_clips[place]) > 0);
    assert(all.contains(new_clips[place]));
    let j = choose|j: int| 0 <= j < all.len() && all[j] == new_clips[place];
    if j < rest.len() {
        let old = if to == track && j >= clip {
            j + 1
        } else {
            j
        };
        assert(clips_of(m, is_video, to)[old] == all[j]);
        assert(stands(m, is_video, to, old));
        assert(clips_of(m, is_video, to)[old].id == c.id);
        assert(false);
    }
    assert(new_clips[place] == moved);
    assert(new_clips.remove(place).to_multiset() =~= rest.to_multiset());
    assert(tracks_of(after, is_video) == after.lane(is_video));
    assert forall|k: int| 0 <= k < count_of(m, is_video) && k != to implies #[trigger] clips_of(
        after,
        is_video,
        k,
    ) == if k == track {
        clips_of(m, is_video, k).remove(clip)
    } else {
        clips_of(m, is_video, k)
    } by {
        assert(tracks_of(m, is_video) == m.lane(is_video));
    }
    place
}

/// A dragged clip comes to stand on the track of its own lane at whose height the pointer is,
/// or nothing changes. It follows the pointer: it begins as much later than where it was
/// grabbed as the way of the pointer takes up, or where that snaps to, if it has room there;
/// else it stands in front of another clip or keeps its start. The result is where it is to
/// begin.
pub proof fn a_dragged_clip_follows_the_pointer(
    m: EditorModel,
    canvas: Canvas,
    id: usize,
    is_video: bool,
    grab: Point,
    clip_start: i64,
    from: usize,
    p: Point,
    track: int,
    clip: int,
    to: int,
    way: int,
    limit: int,
) -> (r: (int, int))
    requires
        stands_alone(m, id, is_video, track, clip),
        m.zoom_factor > 0,
        0 <= to < count_of(m, is_video) < usize::MAX,
        clips_of(m, is_video, to).len() < usize::MAX,
        is_row_at(p.y as int, canvas.top as int, is_video, to, m.video_tracks.len() as int),
        spans(p.x - grab.x, m.zoom_factor as int, way),
        i64::MIN <= way <= i64::MAX,
        spans(8_000, m.zoom_factor as int, limit),
        m.drag_fits(canvas, move_of(id, is_video, grab, clip_start, from), p),
    ensures
        ({
            let (desired, place) = r;
            let c = clips_of(m, is_video, track)[clip];
            let length = c.timeline_end - c.timeline_start;
            let after = m.dragged(canvas, move_of(id, is_video, grab, clip_start, from), p);
            let start = clips_of(after, is_video, to)[place].timeline_start as int;
            let others = clips_of(m, is_video, to);
            &&& is_desired(m, id, clip_start + way, length, limit, desired)
            &&& after == m || is_moved(m, after, is_video, track, clip, to, start, place)
            &&& after != m ==> has_room(others, id, start, length)
            &&& has_room(others, id, desired, length) ==> is_moved(
                m,
                after,
                is_video,
                track,
                clip,
                to,
                desired,
                place,
            )
            &&& after != m && !has_room(others, id, desired, length) ==> start == c.timeline_start
                || exists|i: int|
                0 <= i < others.len() && (#[trigger] others[i]).id != id && start + length
                    == others[i].timeline_start
        }),
{
    let drag = move_of(id, is_video, grab, clip_start, from);
    let after = m.dragged(canvas, drag, p);
    let c = clips_of(m, is_video, track)[clip];
    let length = c.timeline_end - c.timeline_start;
    let others = clips_of(m, is_video, to);
    clips_are_found_by_their_id(m, id);
    assert(m.located(id) == Some((is_video, track, clip)));
    crate::laws::scale::widths_cover_their_time(p.x - grab.x, m.zoom_factor as int, way);
    lemma_limit(m.zoom_factor as int, limit);
    crate::laws::scale::widths_cover_their_time(8_000, m.zoom_factor as int, limit);
    crate::laws::scale::tracks_stand_in_rows(
        p.y as int,
        canvas.top as int,
        is_video,
        to,
        m.video_tracks.len() as int,
    );
    let wanted = clip_start + way;
    moved_clips_snap(m, id, wanted, length, limit);
    let desired = m.snapped_start(id, wanted, length);
    assert forall|s: int|
        #![trigger has_room(others, id, s, length)]
        has_room(others, id, s, length) == crate::drag::placeable(
            others,
            s,
            s + length,
            Some(id),
        ) by {
        lemma_room(others, id, s, length);
    }
    let target = crate::drag::placed(others, id, length, desired, c.timeline_start as int);
    assert(m.lane(is_video)[to].clips == others);
    match target {
        Some(s) => {
            crate::drag::placing_never_overlaps(
                others,
                id,
                length,
                desired,
                c.timeline_start as int,
            );
            assert(has_room(others, id, s, length));
            if s != desired {
                lemma_placed_beside(others, id, length, desired, c.timeline_start as int);
            }
            assert(after == m.clip_moved(is_video, track, clip, to, s));
            let place = lemma_clip_moved(m, is_video, track, clip, to, s);
            if has_room(others, id, desired, length) {
                assert(s == desired);
            }
            (desired, place)
        },
        None => {
            assert(after == m);
            assert(!has_room(others, id, desired, length));
            (desired, 0)
        },
    }
}

pub(crate) proof fn lemma_limit(zoom: int, limit: int)
    requires
        zoom > 0,
        spans(8_000, zoom, limit),
    ensures
        0 <= limit <= 8_000_000_000_000,
{
    assert(limit <= 8_000_000_000_000) by (nonlinear_arith)
        requires
            limit * zoom <= 8_000_000_000_000,
            zoom >= 1,
            limit >= 0,
    ;
}

proof fn lemma_room(clips: Seq<Clip>, id: usize, s: int, length: int)
    ensures
        has_room(clips, id, s, length) == crate::drag::placeable(clips, s, s + length, Some(id)),
{
    if has_room(clips, id, s, length) {
        assert forall|i: int|
            0 <= i < clips.len() && Some(id) != Some((#[trigger] clips[i]).id) implies !clips[i].meets(
            s,
            s + length,
        ) by {}
    } else if s >= 0 {
        let i = choose|i: int|
            0 <= i < clips.len() && (#[trigger] clips[i]).id != id && !(clips[i].timeline_end <= s
                || s + length <= clips[i].timeline_start);
        assert(clips[i].meets(s, s + length));
    }
}

proof fn lemma_others(clips: Seq<Clip>, id: usize)
    ensures
        forall|c: Clip|
            #[trigger] crate::drag::others(clips, id).contains(c) ==> clips.contains(c) && c.id
                != id,
    decreases clips.len(),
{
    if clips.len() > 0 {
        let front = clips.drop_last();
        lemma_others(front, id);
        assert forall|c: Clip| #[trigger] crate::drag::others(clips, id).contains(c) implies clips.contains(
        c) && c.id != id by {
            let rest = crate::drag::others(front, id);
            let all = crate::drag::others(clips, id);
            let k = choose|k: int| 0 <= k < all.len() && all[k] == c;
            if k < rest.len() {
                assert(rest[k] == c);
                assert(rest.contains(c));
                let j = choose|j: int| 0 <= j < front.len() && front[j] == c;
                assert(clips[j] == c);
            } else {
                assert(c == clips.last());
                assert(clips[clips.len() - 1] == c);
            }
        }
    }
}

pub(crate) proof fn lemma_placed_beside(
    clips: Seq<Clip>,
    id: usize,
    length: int,
    desired: int,
    current: int,
)
    ensures
        crate::drag::placed(clips, id, length, desired, current) matches Some(s) ==> s == desired
            || s == current || exists|i: int|
            0 <= i < clips.len() && (#[trigger] clips[i]).id != id && s + length
                == clips[i].timeline_start,
{
    let rest = crate::drag::others(clips, id);
    let row = crate::editor::sorted_by_start(rest);
    crate::search::first_where_is_first(row, crate::drag::ending_after(desired));
    if let Some(s) = crate::drag::placed(clips, id, length, desired, current) {
        if s != desired && s != current {
            let j = crate::search::first_where(row, crate::drag::ending_after(desired))->0;
            crate::invariants::sorting_permutes(rest);
            row.to_multiset_ensures();
            rest.to_multiset_ensures();
            assert(row.contains(row[j]));
            assert(row.to_multiset().count(row[j]) > 0);
            assert(rest.contains(row[j]));
            lemma_others(clips, id);
            let i = choose|i: int| 0 <= i < clips.len() && clips[i] == row[j];
            assert(clips[i].id != id);
        }
    }
}

/// Whether no two of the clips overlap that do not have the given id, and each plays for some
/// time.
pub open spec fn rest_is_disjoint(clips: Seq<Clip>, id: usize) -> bool {
    &&& forall|i: int|
        0 <= i < clips.len() && (#[trigger] clips[i]).id != id ==> clips[i].timeline_start
            < clips[i].timeline_end
    &&& forall|i: int, j: int|
        0 <= i < clips.len() && 0 <= j < clips.len() && (#[trigger] clips[i]).id != id && (
        #[trigger] clips[j]).id != id && clips[i] != clips[j] ==> clips[i].timeline_end
            <= clips[j].timeline_start || clips[j].timeline_end <= clips[i].timeline_start
}

/// A clip that has no room where it is to begin is put in front of the first clip there that
/// ends later, if it has room there. Where the clip before that leaves too little, it keeps its
/// start, if it has room there and none stands from there on to the clip that it met.
/// Otherwise it is not moved.
pub proof fn a_clip_without_room_stands_in_front(
    clips: Seq<Clip>,
    id: usize,
    length: int,
    desired: int,
    current: int,
    met: int,
)
    requires
        rest_is_disjoint(clips, id),
        !has_room(clips, id, desired, length),
        0 <= met < clips.len(),
        clips[met].id != id,
        clips[met].timeline_end > desired,
        clips[met].timeline_start < desired + length,
        forall|i: int|
            0 <= i < clips.len() && (#[trigger] clips[i]).id != id && clips[i].timeline_end
                > desired ==> clips[met].timeline_start <= clips[i].timeline_start,
    ensures
        ({
            let limit = clips[met].timeline_start as int;
            let r = crate::drag::placed(clips, id, length, desired, current);
            let is_tight = exists|i: int|
                0 <= i < clips.len() && (#[trigger] clips[i]).id != id && limit - length
                    < clips[i].timeline_end <= desired;
            if !is_tight {
                r == if has_room(clips, id, limit - length, length) {
                    Some(limit - length)
                } else {
                    None
                }
            } else {
                r == if has_room(clips, id, current, limit - current) && has_room(
                    clips,
                    id,
                    current,
                    length,
                ) {
                    Some(current)
                } else {
                    None
                }
            }
        }),
{
    let limit = clips[met].timeline_start as int;
    let row = crate::editor::sorted_by_start(crate::drag::others(clips, id));
    crate::search::first_where_is_first(row, crate::drag::ending_after(desired));
    crate::invariants::sorting_orders(crate::drag::others(clips, id));
    lemma_room(clips, id, desired, length);
    lemma_room(clips, id, limit - length, length);
    lemma_room(clips, id, current, limit - current);
    lemma_room(clips, id, current, length);
    let k = lemma_row_has(clips, id, met);
    assert(crate::drag::ending_after(desired)(row[k]));
    let j = crate::search::first_where(row, crate::drag::ending_after(desired))->0;
    assert(j <= k);
    assert(crate::drag::ending_after(desired)(row[j]));
    let a = lemma_row_from(clips, id, j);
    assert(clips[a].timeline_end > desired);
    if j < k {
        assert(row[j].timeline_start <= row[k].timeline_start);
    }
    assert(row[j].timeline_start == limit);
    let is_tight = exists|i: int|
        0 <= i < clips.len() && (#[trigger] clips[i]).id != id && limit - length
            < clips[i].timeline_end <= desired;
    let fits = j == 0 || limit - length >= row[j - 1].timeline_end;
    if !is_tight {
        if j > 0 {
            assert(!crate::drag::ending_after(desired)(row[j - 1]));
            let b = lemma_row_from(clips, id, j - 1);
            assert(clips[b].timeline_end <= desired);
        }
        assert(fits);
    } else {
        let b = choose|i: int|
            0 <= i < clips.len() && (#[trigger] clips[i]).id != id && limit - length
                < clips[i].timeline_end <= desired;
        let kb = lemma_row_has(clips, id, b);
        assert(clips[b] != clips[a]);
        assert(clips[b].timeline_start < clips[b].timeline_end);
        assert(clips[a].timeline_start < clips[a].timeline_end);
        assert(clips[b].timeline_end <= clips[a].timeline_start);
        if kb > j {
            assert(row[j].timeline_start <= row[kb].timeline_start);
        }
        assert(kb < j);
        let e = lemma_row_from(clips, id, j - 1);
        assert(clips[e].timeline_start < clips[e].timeline_end);
        if clips[e] != clips[b] {
            if kb < j - 1 {
                assert(row[kb].timeline_start <= row[j - 1].timeline_start);
            }
            assert(clips[b].timeline_end <= clips[e].timeline_start);
        }
        assert(!fits);
    }
}

/// Each of the sorted other clips is one of the clips.
proof fn lemma_row_from(clips: Seq<Clip>, id: usize, k: int) -> (i: int)
    requires
        0 <= k < crate::editor::sorted_by_start(crate::drag::others(clips, id)).len(),
    ensures
        0 <= i < clips.len(),
        clips[i] == crate::editor::sorted_by_start(crate::drag::others(clips, id))[k],
        clips[i].id != id,
{
    let rest = crate::drag::others(clips, id);
    let row = crate::editor::sorted_by_start(rest);
    crate::invariants::sorting_permutes(rest);
    row.to_multiset_ensures();
    rest.to_multiset_ensures();
    lemma_others(clips, id);
    assert(row.contains(row[k]));
    assert(row.to_multiset().count(row[k]) > 0);
    assert(rest.contains(row[k]));
    choose|i: int| 0 <= i < clips.len() && clips[i] == row[k]
}

/// Each of the other clips is one of them sorted.
proof fn lemma_row_has(clips: Seq<Clip>, id: usize, i: int) -> (k: int)
    requires
        0 <= i < clips.len(),
        clips[i].id != id,
    ensures
        0 <= k < crate::editor::sorted_by_start(crate::drag::others(clips, id)).len(),
        clips[i] == crate::editor::sorted_by_start(crate::drag::others(clips, id))[k],
{
    let rest = crate::drag::others(clips, id);
    let row = crate::editor::sorted_by_start(rest);
    crate::invariants::sorting_permutes(rest);
    row.to_multiset_ensures();
    rest.to_multiset_ensures();
    lemma_others_all(clips, id);
    assert(rest.contains(clips[i]));
    assert(rest.to_multiset().count(clips[i]) > 0);
    assert(row.contains(clips[i]));
    choose|k: int| 0 <= k < row.len() && row[k] == clips[i]
}

proof fn lemma_others_all(clips: Seq<Clip>, id: usize)
    ensures
        forall|i: int|
            0 <= i < clips.len() && (#[trigger] clips[i]).id != id ==> crate::drag::others(
                clips,
                id,
            ).contains(clips[i]),
    decreases clips.len(),
{
    if clips.len() > 0 {
        let front = clips.drop_last();
        lemma_others_all(front, id);
        let rest = crate::drag::others(front, id);
        let all = crate::drag::others(clips, id);
        assert forall|i: int| 0 <= i < clips.len() && (#[trigger] clips[i]).id != id implies all.contains(
        clips[i]) by {
            if i < front.len() {
                assert(front[i] == clips[i]);
                assert(rest.contains(front[i]));
                let k = choose|k: int| 0 <= k < rest.len() && rest[k] == front[i];
                assert(all[k] == clips[i]);
            } else {
                assert(all[all.len() - 1] == clips[i]);
            }
        }
    }
}

/// A clip of an audio track that is dragged below the last of them stays where it is.
pub proof fn a_clip_dragged_off_the_tracks_stays(
    m: EditorModel,
    canvas: Canvas,
    id: usize,
    grab: Point,
    clip_start: i64,
    from: usize,
    p: Point,
)
    requires
        m.audio_tracks.len() + m.video_tracks.len() < 1_000_000_000,
        p.y - canvas.top >= row_of(
            false,
            m.audio_tracks.len() as int,
            m.video_tracks.len() as int,
        ),
    ensures
        m.dragged(canvas, move_of(id, false, grab, clip_start, from), p) == m,
{
    let n = m.video_tracks.len() as int;
    let k = m.audio_tracks.len() as int;
    let y = p.y as int;
    assert(crate::layout::track_at(y, canvas.top as int, false, n) >= k);
}

// The playhead

/// A dragged playhead stands at the time under the pointer, and not before the beginning.
/// Nothing else changes.
pub proof fn a_dragged_playhead_is_under_the_pointer(
    m: EditorModel,
    canvas: Canvas,
    p: Point,
    t: int,
)
    requires
        m.zoom_factor > 0,
        spans(p.x - canvas.left + m.scroll_offset, m.zoom_factor as int, t),
        i64::MIN <= t <= i64::MAX,
    ensures
        ({
            let after = m.dragged(canvas, DragState::Playhead, p);
            &&& after == (EditorModel { playhead: after.playhead, ..m })
            &&& after.playhead == if t >= 0 {
                t
            } else {
                0
            }
        }),
        m.dragged(canvas, DragState::Idle, p) == m,
{
    crate::laws::scale::widths_cover_their_time(
        p.x - canvas.left + m.scroll_offset,
        m.zoom_factor as int,
        t,
    );
}

} // verus!
