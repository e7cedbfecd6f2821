//! Clicking and dragging on the timeline.

use crate::editor::{Clip, EditTool, EditorModel, EditorState, Track, TrackModel};
use crate::layout::{get_hovered_track_idx, get_track_y, to_time, Canvas, Point, TimeScale};
use vstd::prelude::*;

verus! {

/// The shortest clip that a trim leaves.
pub const MIN_CLIP: i64 = 50_000_000;

/// How long a still image can be drawn out.
pub const IMAGE_LENGTH: i64 = 86_400_000_000_000;

/// The source length of a clip whose asset is not known.
pub const UNKNOWN_LENGTH: i64 = 3_600_000_000_000;

/// What a pressed pointer is doing.
#[derive(Clone, Copy, Debug, PartialEq, Eq, Structural)]
pub enum DragState {
    Idle,
    Playhead,
    ClipMove {
        clip_id: usize,
        is_video: bool,
        drag_start_mouse_x: i64,
        drag_start_mouse_y: i64,
        drag_start_clip_start: i64,
        drag_start_track_idx: usize,
    },
    ClipTrimLeft {
        clip_id: usize,
        is_video: bool,
        drag_start_mouse_x: i64,
        drag_start_clip_start: i64,
        drag_start_clip_end: i64,
        drag_start_trim_start: i64,
    },
    ClipTrimRight {
        clip_id: usize,
        is_video: bool,
        drag_start_mouse_x: i64,
        drag_start_clip_end: i64,
        drag_start_clip_start: i64,
        drag_start_trim_end: i64,
    },
}

// Finding clips

/// The condition of having an id.
pub open spec fn with_id(id: usize) -> spec_fn(Clip) -> bool {
    |c: Clip| c.id == id
}

/// The first clip with the given id on the tracks from `from` on.
pub open spec fn located_in(tracks: Seq<TrackModel>, id: usize, from: int) -> Option<(int, int)>
    decreases tracks.len() - from,
{
    if from < 0 || from >= tracks.len() {
        None
    } else {
        match crate::search::first_where(tracks[from].clips, with_id(id)) {
            Some(i) => Some((from, i)),
            None => located_in(tracks, id, from + 1),
        }
    }
}

impl EditorModel {
    /// Where the clip with the given id stands: lane, track and place.
    pub open spec fn located(self, id: usize) -> Option<(bool, int, int)> {
        match located_in(self.video_tracks, id, 0) {
            Some((t, i)) => Some((true, t, i)),
            None => match located_in(self.audio_tracks, id, 0) {
                Some((t, i)) => Some((false, t, i)),
                None => None,
            },
        }
    }
}

/// Finds the first clip with the given id.
fn position_of(clips: &Vec<Clip>, id: usize) -> (r: Option<usize>)
    ensures
        match r {
            Some(i) => crate::search::first_where(clips@, with_id(id)) == Some(i as int) && i
                < clips@.len() && clips@[i as int].id == id,
            None => crate::search::first_where(clips@, with_id(id)) is None,
        },
{
    let mut i: usize = 0;
    while i < clips.len()
        invariant
            i <= clips@.len(),
            forall|j: int| 0 <= j < i ==> (#[trigger] clips@[j]).id != id,
        decreases clips@.len() - i,
    {
        if clips[i].id == id {
            proof {
                crate::search::lemma_first_where_at(clips@, with_id(id), i as int);
            }
            return Some(i);
        }
        i += 1;
    }
    proof {
        crate::search::lemma_first_where_at(clips@, with_id(id), i as int);
    }
    None
}

fn locate_in(tracks: &Vec<Track>, id: usize) -> (r: Option<(usize, usize)>)
    ensures
        match r {
            Some((t, i)) => located_in(crate::editor::lane_view(tracks@), id, 0) == Some(
                (t as int, i as int),
            ) && t < tracks@.len() && i < tracks@[t as int].clips@.len()
                && tracks@[t as int].clips@[i as int].id == id,
            None => located_in(crate::editor::lane_view(tracks@), id, 0) is None,
        },
{
    let ghost all = crate::editor::lane_view(tracks@);
    let mut t: usize = 0;
    while t < tracks.len()
        invariant
            t <= tracks@.len(),
            all == crate::editor::lane_view(tracks@),
            located_in(all, id, 0) == located_in(all, id, t as int),
        decreases tracks@.len() - t,
    {
        assert(all[t as int].clips == tracks@[t as int].clips@);
        if let Some(i) = position_of(&tracks[t].clips, id) {
            return Some((t, i));
        }
        t += 1;
    }
    None
}

/// Finds the clip with the given id: its lane, its track and its place.
pub fn find_clip_details(state: &EditorState, clip_id: usize) -> (r: Option<(bool, usize, usize)>)
    ensures
        match r {
            Some((v, t, i)) => state@.located(clip_id) == Some((v, t as int, i as int))
                && state@.has_clip(v, t as int, i as int) && state@.clip(v, t as int, i as int).id
                == clip_id,
            None => state@.located(clip_id) is None,
        },
{
    match locate_in(&state.video_tracks, clip_id) {
        Some((t, i)) => Some((true, t, i)),
        None => match locate_in(&state.audio_tracks, clip_id) {
            Some((t, i)) => Some((false, t, i)),
            None => None,
        },
    }
}

// Snapping

pub open spec fn distance(a: int, b: int) -> int {
    if a >= b {
        a - b
    } else {
        b - a
    }
}

/// The nearest time so far and its distance, after one more was looked at.
pub open spec fn nearer(target: int, best: (int, int), t: int) -> (int, int) {
    if distance(target, t) < best.1 {
        (t, distance(target, t))
    } else {
        best
    }
}

/// The same, after the ends of clips were looked at.
pub open spec fn nearer_clips(
    target: int,
    best: (int, int),
    clips: Seq<Clip>,
    exclude: Option<usize>,
) -> (int, int)
    decreases clips.len(),
{
    if clips.len() == 0 {
        best
    } else {
        let before = nearer_clips(target, best, clips.drop_last(), exclude);
        let c = clips.last();
        if exclude == Some(c.id) {
            before
        } else {
            nearer(
                target,
                nearer(target, before, c.timeline_start as int),
                c.timeline_end as int,
            )
        }
    }
}

/// The same, after the clips of tracks were looked at.
pub open spec fn nearer_tracks(
    target: int,
    best: (int, int),
    tracks: Seq<TrackModel>,
    exclude: Option<usize>,
) -> (int, int)
    decreases tracks.len(),
{
    if tracks.len() == 0 {
        best
    } else {
        nearer_clips(
            target,
            nearer_tracks(target, best, tracks.drop_last(), exclude),
            tracks.last().clips,
            exclude,
        )
    }
}

impl EditorModel {
    /// What `target` snaps to: the first of the nearest among zero, the playhead and the
    /// ends of clips, if it is nearer than `threshold`; else itself.
    pub open spec fn snapped(self, target: int, exclude: Option<usize>, threshold: int) -> int {
        let zero = nearer(target, (target, threshold), 0);
        let playhead = nearer(target, zero, self.playhead as int);
        let video = nearer_tracks(target, playhead, self.video_tracks, exclude);
        nearer_tracks(target, video, self.audio_tracks, exclude).0
    }

    /// Whether `t` is a time to snap to.
    pub open spec fn is_snap_time(self, t: int, exclude: Option<usize>) -> bool {
        t == 0 || t == self.playhead || exists|v: bool, k: int, i: int|
            self.has_clip(v, k, i) && exclude != Some((#[trigger] self.clip(v, k, i)).id) && (t
                == self.clip(v, k, i).timeline_start || t == self.clip(v, k, i).timeline_end)
    }
}

proof fn lemma_nearer_clips(
    target: int,
    best: (int, int),
    clips: Seq<Clip>,
    exclude: Option<usize>,
)
    ensures
        ({
            let r = nearer_clips(target, best, clips, exclude);
            &&& r.1 <= best.1
            &&& r == best || (r.1 < best.1 && r.1 == distance(target, r.0) && exists|i: int|
                0 <= i < clips.len() && exclude != Some((#[trigger] clips[i]).id) && (r.0
                    == clips[i].timeline_start || r.0 == clips[i].timeline_end))
            &&& forall|i: int|
                0 <= i < clips.len() && exclude != Some((#[trigger] clips[i]).id) ==> r.1
                    <= distance(target, clips[i].timeline_start as int) && r.1 <= distance(
                    target,
                    clips[i].timeline_end as int,
                )
        }),
    decreases clips.len(),
{
    if clips.len() > 0 {
        let front = clips.drop_last();
        lemma_nearer_clips(target, best, front, exclude);
        let before = nearer_clips(target, best, front, exclude);
        let r = nearer_clips(target, best, clips, exclude);
        assert(clips.last() == clips[clips.len() - 1]);
        assert forall|i: int|
            0 <= i < clips.len() && exclude != Some((#[trigger] clips[i]).id) implies r.1
            <= distance(target, clips[i].timeline_start as int) && r.1 <= distance(
            target,
            clips[i].timeline_end as int,
        ) by {
            if i < front.len() {
                assert(front[i] == clips[i]);
            }
        }
        if r == before && r != best {
            let i = choose|i: int|
                0 <= i < front.len() && exclude != Some((#[trigger] front[i]).id) && (r.0
                    == front[i].timeline_start || r.0 == front[i].timeline_end);
            assert(clips[i] == front[i]);
        }
    }
}

proof fn lemma_nearer_tracks(
    target: int,
    best: (int, int),
    tracks: Seq<TrackModel>,
    exclude: Option<usize>,
)
    ensures
        ({
            let r = nearer_tracks(target, best, tracks, exclude);
            &&& r.1 <= best.1
            &&& r == best || (r.1 < best.1 && r.1 == distance(target, r.0) && exists|k: int, i: int|
                0 <= k < tracks.len() && 0 <= i < tracks[k].clips.len() && exclude != Some(
                    (#[trigger] tracks[k].clips[i]).id,
                ) && (r.0 == tracks[k].clips[i].timeline_start || r.0
                    == tracks[k].clips[i].timeline_end))
            &&& forall|k: int, i: int|
                0 <= k < tracks.len() && 0 <= i < tracks[k].clips.len() && exclude != Some(
                    (#[trigger] tracks[k].clips[i]).id,
                ) ==> r.1 <= distance(target, tracks[k].clips[i].timeline_start as int) && r.1
                    <= distance(target, tracks[k].clips[i].timeline_end as int)
        }),
    decreases tracks.len(),
{
    if tracks.len() > 0 {
        let front = tracks.drop_last();
        lemma_nearer_tracks(target, best, front, exclude);
        let before = nearer_tracks(target, best, front, exclude);
        let last = tracks.last().clips;
        lemma_nearer_clips(target, before, last, exclude);
        let r = nearer_tracks(target, best, tracks, exclude);
        assert(tracks[tracks.len() - 1].clips == last);
        assert forall|k: int, i: int|
            0 <= k < tracks.len() && 0 <= i < tracks[k].clips.len() && exclude != Some(
                (#[trigger] tracks[k].clips[i]).id,
            ) implies r.1 <= distance(target, tracks[k].clips[i].timeline_start as int) && r.1
            <= distance(target, tracks[k].clips[i].timeline_end as int) by {
            if k < front.len() {
                assert(front[k].clips[i] == tracks[k].clips[i]);
            } else {
                assert(last[i] == tracks[k].clips[i]);
            }
        }
        if r != best {
            if r == before {
                let (k, i) = choose|k: int, i: int|
                    0 <= k < front.len() && 0 <= i < front[k].clips.len() && exclude != Some(
                        (#[trigger] front[k].clips[i]).id,
                    ) && (r.0 == front[k].clips[i].timeline_start || r.0
                        == front[k].clips[i].timeline_end);
                assert(tracks[k].clips[i] == front[k].clips[i]);
            } else {
                let i = choose|i: int|
                    0 <= i < last.len() && exclude != Some((#[trigger] last[i]).id) && (r.0
                        == last[i].timeline_start || r.0 == last[i].timeline_end);
                assert(tracks[tracks.len() - 1].clips[i] == last[i]);
            }
        }
    }
}

/// A snapped time is the target itself if no time to snap to is nearer than the threshold.
/// Else it is a time to snap to, nearer than the threshold, and none is nearer.
pub proof fn snapping_finds_the_nearest(
    m: EditorModel,
    target: int,
    exclude: Option<usize>,
    threshold: int,
)
    ensures
        (forall|t: int|
            #[trigger] m.is_snap_time(t, exclude) ==> distance(target, t) >= threshold)
            ==> m.snapped(target, exclude, threshold) == target,
        forall|t: int|
            #[trigger] m.is_snap_time(t, exclude) && distance(target, t) < threshold ==> {
                let s = m.snapped(target, exclude, threshold);
                &&& m.is_snap_time(s, exclude)
                &&& distance(target, s) < threshold
                &&& distance(target, s) <= distance(target, t)
            },
{
    let zero = nearer(target, (target, threshold), 0);
    let playhead = nearer(target, zero, m.playhead as int);
    let video = nearer_tracks(target, playhead, m.video_tracks, exclude);
    let audio = nearer_tracks(target, video, m.audio_tracks, exclude);
    lemma_nearer_tracks(target, playhead, m.video_tracks, exclude);
    lemma_nearer_tracks(target, video, m.audio_tracks, exclude);
    if audio != video {
        let (k, i) = choose|k: int, i: int|
            0 <= k < m.audio_tracks.len() && 0 <= i < m.audio_tracks[k].clips.len() && exclude
                != Some((#[trigger] m.audio_tracks[k].clips[i]).id) && (audio.0
                == m.audio_tracks[k].clips[i].timeline_start || audio.0
                == m.audio_tracks[k].clips[i].timeline_end);
        assert(m.has_clip(false, k, i));
        assert(m.clip(false, k, i) == m.audio_tracks[k].clips[i]);
        assert(m.is_snap_time(audio.0, exclude));
    } else if video != playhead {
        let (k, i) = choose|k: int, i: int|
            0 <= k < m.video_tracks.len() && 0 <= i < m.video_tracks[k].clips.len() && exclude
                != Some((#[trigger] m.video_tracks[k].clips[i]).id) && (video.0
                == m.video_tracks[k].clips[i].timeline_start || video.0
                == m.video_tracks[k].clips[i].timeline_end);
        assert(m.has_clip(true, k, i));
        assert(m.clip(true, k, i) == m.video_tracks[k].clips[i]);
        assert(m.is_snap_time(video.0, exclude));
    }
    assert(m.is_snap_time(0, exclude));
    assert(m.is_snap_time(m.playhead as int, exclude));
    assert forall|t: int| #[trigger] m.is_snap_time(t, exclude) implies audio.1 <= distance(
        target,
        t,
    ) by {
        if t != 0 && t != m.playhead {
            let (v, k, i) = choose|v: bool, k: int, i: int|
                m.has_clip(v, k, i) && exclude != Some((#[trigger] m.clip(v, k, i)).id) && (t
                    == m.clip(v, k, i).timeline_start || t == m.clip(v, k, i).timeline_end);
            assert(m.clip(v, k, i) == m.lane(v)[k].clips[i]);
        }
    }
}

fn distance_of(a: i128, b: i128) -> (r: i128)
    requires
        -0x10_0000_0000_0000_0000 <= a <= 0x10_0000_0000_0000_0000,
        -0x10_0000_0000_0000_0000 <= b <= 0x10_0000_0000_0000_0000,
    ensures
        r == distance(a as int, b as int),
{
    if a >= b {
        a - b
    } else {
        b - a
    }
}

fn keep_nearer(target: i128, best: (i128, i128), t: i64) -> (r: (i128, i128))
    requires
        -0x10_0000_0000_0000_0000 <= target <= 0x10_0000_0000_0000_0000,
    ensures
        (r.0 as int, r.1 as int) == nearer(
            target as int,
            (best.0 as int, best.1 as int),
            t as int,
        ),
{
    let d: i128 = distance_of(target, t as i128);
    if d < best.1 {
        (t as i128, d)
    } else {
        best
    }
}

fn snap_in(
    target: i128,
    start: (i128, i128),
    tracks: &Vec<Track>,
    exclude: Option<usize>,
) -> (r: (i128, i128))
    requires
        -0x10_0000_0000_0000_0000 <= target <= 0x10_0000_0000_0000_0000,
    ensures
        (r.0 as int, r.1 as int) == nearer_tracks(
            target as int,
            (start.0 as int, start.1 as int),
            crate::editor::lane_view(tracks@),
            exclude,
        ),
{
    let ghost all = crate::editor::lane_view(tracks@);
    let ghost first = (start.0 as int, start.1 as int);
    let mut best: (i128, i128) = start;
    let mut t: usize = 0;
    assert(all.take(0) =~= Seq::empty());
    while t < tracks.len()
        invariant
            t <= tracks@.len(),
            -0x10_0000_0000_0000_0000 <= target <= 0x10_0000_0000_0000_0000,
            all == crate::editor::lane_view(tracks@),
            (best.0 as int, best.1 as int) == nearer_tracks(
                target as int,
                first,
                all.take(t as int),
                exclude,
            ),
        decreases tracks@.len() - t,
    {
        let clips: &Vec<Clip> = &tracks[t].clips;
        let ghost before = (best.0 as int, best.1 as int);
        let mut i: usize = 0;
        assert(clips@.take(0) =~= Seq::empty());
        while i < clips.len()
            invariant
                i <= clips@.len(),
                -0x10_0000_0000_0000_0000 <= target <= 0x10_0000_0000_0000_0000,
                (best.0 as int, best.1 as int) == nearer_clips(
                    target as int,
                    before,
                    clips@.take(i as int),
                    exclude,
                ),
            decreases clips@.len() - i,
        {
            proof {
                assert(clips@.take(i + 1).drop_last() =~= clips@.take(i as int));
                assert(clips@.take(i + 1).last() == clips@[i as int]);
            }
            let c: Clip = clips[i];
            let skip: bool = match exclude {
                Some(id) => id == c.id,
                None => false,
            };
            if !skip {
                best = keep_nearer(target, best, c.timeline_start);
                best = keep_nearer(target, best, c.timeline_end);
            }
            i += 1;
        }
        proof {
            assert(clips@.take(i as int) =~= clips@);
            assert(all.take(t + 1).drop_last() =~= all.take(t as int));
            assert(all.take(t + 1).last() == tracks@[t as int]@);
        }
        t += 1;
    }
    assert(all.take(t as int) =~= all);
    best
}

/// Finds the time that `target` snaps to.
fn find_snap_time(
    target: i128,
    exclude: Option<usize>,
    state: &EditorState,
    threshold: i64,
) -> (r: i128)
    requires
        -0x10_0000_0000_0000_0000 <= target <= 0x10_0000_0000_0000_0000,
        threshold >= 0,
    ensures
        r == state@.snapped(target as int, exclude, threshold as int),
        -0x20_0000_0000_0000_0000 <= r <= 0x20_0000_0000_0000_0000,
{
    let zero = keep_nearer(target, (target, threshold as i128), 0);
    let playhead = keep_nearer(target, zero, state.playhead);
    let video = snap_in(target, playhead, &state.video_tracks, exclude);
    let audio = snap_in(target, video, &state.audio_tracks, exclude);
    proof {
        let best = (playhead.0 as int, playhead.1 as int);
        lemma_nearer_tracks(target as int, best, state@.video_tracks, exclude);
        lemma_nearer_tracks(
            target as int,
            (video.0 as int, video.1 as int),
            state@.audio_tracks,
            exclude,
        );
    }
    audio.0
}

// Placing

/// The clips without those that have the given id.
pub open spec fn others(clips: Seq<Clip>, id: usize) -> Seq<Clip>
    decreases clips.len(),
{
    if clips.len() == 0 {
        Seq::empty()
    } else if clips.last().id == id {
        others(clips.drop_last(), id)
    } else {
        others(clips.drop_last(), id).push(clips.last())
    }
}

/// Whether the stretch from `start` to `end` begins no earlier than zero and meets no clip
/// but the excluded one.
pub open spec fn placeable(clips: Seq<Clip>, start: int, end: int, exclude: Option<usize>) -> bool {
    start >= 0 && forall|i: int|
        0 <= i < clips.len() && exclude != Some((#[trigger] clips[i]).id) ==> !clips[i].meets(
            start,
            end,
        )
}

/// The condition of ending after `t`.
pub open spec fn ending_after(t: int) -> spec_fn(Clip) -> bool {
    |c: Clip| c.timeline_end > t
}

/// Where on a track a dragged clip comes to stand that begins at `current` now. It goes to
/// `desired` if it is free there, else in front of the first clip that ends later. Where it
/// does not fit between that one and the one before, it keeps its start, if it is free
/// there and nothing stands from there on to that clip. Otherwise it stays where it is.
pub open spec fn placed(
    clips: Seq<Clip>,
    id: usize,
    length: int,
    desired: int,
    current: int,
) -> Option<int> {
    let row = crate::editor::sorted_by_start(others(clips, id));
    if placeable(clips, desired, desired + length, Some(id)) {
        Some(desired)
    } else {
        match crate::search::first_where(row, ending_after(desired)) {
            Some(j) if desired + length > row[j].timeline_start => {
                let limit = row[j].timeline_start as int;
                let fits = j == 0 || limit - length >= row[j - 1].timeline_end;
                let start = if fits {
                    limit - length
                } else {
                    current
                };
                if placeable(clips, start, limit, Some(id)) && placeable(
                    clips,
                    start,
                    start + length,
                    Some(id),
                ) {
                    Some(start)
                } else {
                    None
                }
            },
            _ => None,
        }
    }
}

fn find_others(clips: &Vec<Clip>, id: usize) -> (r: Vec<Clip>)
    ensures
        r@ == others(clips@, id),
{
    let mut r: Vec<Clip> = Vec::new();
    let mut i: usize = 0;
    assert(clips@.take(0) =~= Seq::empty());
    while i < clips.len()
        invariant
            i <= clips@.len(),
            r@ == others(clips@.take(i as int), id),
        decreases clips@.len() - i,
    {
        proof {
            assert(clips@.take(i + 1).drop_last() =~= clips@.take(i as int));
            assert(clips@.take(i + 1).last() == clips@[i as int]);
        }
        if clips[i].id != id {
            r.push(clips[i]);
        }
        i += 1;
    }
    assert(clips@.take(i as int) =~= clips@);
    r
}

fn is_placement_valid(clips: &Vec<Clip>, start: i128, end: i128, exclude: Option<usize>) -> (r: bool)
    ensures
        r == placeable(clips@, start as int, end as int, exclude),
{
    if start < 0 {
        return false;
    }
    let mut i: usize = 0;
    while i < clips.len()
        invariant
            i <= clips@.len(),
            forall|j: int|
                0 <= j < i && exclude != Some((#[trigger] clips@[j]).id) ==> !clips@[j].meets(
                    start as int,
                    end as int,
                ),
        decreases clips@.len() - i,
    {
        let c: Clip = clips[i];
        let skip: bool = match exclude {
            Some(id) => id == c.id,
            None => false,
        };
        if !skip && start < c.timeline_end as i128 && end > c.timeline_start as i128 {
            assert(clips@[i as int].meets(start as int, end as int));
            return false;
        }
        i += 1;
    }
    true
}

fn find_place(clips: &Vec<Clip>, id: usize, length: i128, desired: i128, current: i64) -> (r: Option<
    i128,
>)
    requires
        -0x40_0000_0000_0000_0000 <= desired <= 0x40_0000_0000_0000_0000,
        -0x2_0000_0000_0000_0000 <= length <= 0x2_0000_0000_0000_0000,
    ensures
        match r {
            Some(s) => placed(clips@, id, length as int, desired as int, current as int) == Some(
                s as int,
            ),
            None => placed(clips@, id, length as int, desired as int, current as int) is None,
        },
{
    if is_placement_valid(clips, desired, desired + length, Some(id)) {
        return Some(desired);
    }
    let mut row: Vec<Clip> = find_others(clips, id);
    crate::editor::sort_clips(&mut row);
    let mut j: usize = 0;
    while j < row.len() && row[j].timeline_end as i128 <= desired
        invariant
            j <= row@.len(),
            forall|k: int| 0 <= k < j ==> (#[trigger] row@[k]).timeline_end <= desired,
        decreases row@.len() - j,
    {
        j += 1;
    }
    proof {
        crate::search::lemma_first_where_at(row@, ending_after(desired as int), j as int);
    }
    if j >= row.len() || desired + length <= row[j].timeline_start as i128 {
        return None;
    }
    let limit: i128 = row[j].timeline_start as i128;
    let start: i128 = if j == 0 || limit - length >= row[j - 1].timeline_end as i128 {
        limit - length
    } else {
        current as i128
    };
    if is_placement_valid(clips, start, limit, Some(id)) && is_placement_valid(
        clips,
        start,
        start + length,
        Some(id),
    ) {
        Some(start)
    } else {
        None
    }
}

/// A clip comes to stand only where it is free.
pub proof fn placing_never_overlaps(
    clips: Seq<Clip>,
    id: usize,
    length: int,
    desired: int,
    current: int,
)
    ensures
        placed(clips, id, length, desired, current) matches Some(s) ==> placeable(
            clips,
            s,
            s + length,
            Some(id),
        ),
{
}

// Dragging

/// `a`, raised to `b` if it is less.
pub open spec fn at_least(a: int, b: int) -> int {
    if a >= b {
        a
    } else {
        b
    }
}

/// `a`, lowered to `b` if it is more.
pub open spec fn at_most(a: int, b: int) -> int {
    if a <= b {
        a
    } else {
        b
    }
}

impl EditorModel {
    /// How times map to positions on a canvas.
    pub open spec fn scale(self, canvas: Canvas) -> TimeScale {
        TimeScale { left: canvas.left, zoom: self.zoom_factor, scroll: self.scroll_offset }
    }

    /// How near a dragged time has to come to snap: the width of a trim handle.
    pub open spec fn snap_threshold(self) -> int {
        crate::layout::width_as_time(8_000, self.zoom_factor as int)
    }

    /// Where a moved clip begins after its start or its end has snapped.
    pub open spec fn snapped_start(self, id: usize, start: int, length: int) -> int {
        let limit = self.snap_threshold();
        let by_start = self.snapped(start, Some(id), limit);
        let by_end = self.snapped(start + length, Some(id), limit);
        let start_step = distance(by_start, start);
        let end_step = distance(by_end, start + length);
        at_least(
            if start_step < limit && start_step <= end_step {
                by_start
            } else if end_step < limit {
                by_end - length
            } else {
                start
            },
            0,
        )
    }

    /// Where a moved clip comes to stand: the track and place it leaves, the track it goes
    /// to and where it begins there.
    pub open spec fn move_target(
        self,
        canvas: Canvas,
        id: usize,
        is_video: bool,
        grab_x: int,
        clip_start: int,
        p: Point,
    ) -> Option<(int, int, int, int)> {
        match self.located(id) {
            Some((v, t, i)) => {
                let c = self.clip(is_video, t, i);
                let wanted = clip_start + crate::layout::width_as_time(
                    p.x - grab_x,
                    self.zoom_factor as int,
                );
                let to = crate::layout::track_at(
                    p.y as int,
                    canvas.top as int,
                    is_video,
                    self.video_tracks.len() as int,
                );
                if to < self.lane(is_video).len() {
                    match placed(
                        self.lane(is_video)[to].clips,
                        id,
                        c.length(),
                        self.snapped_start(id, wanted, c.length()),
                        c.timeline_start as int,
                    ) {
                        Some(s) => Some((t, i, to, s)),
                        None => None,
                    }
                } else {
                    None
                }
            },
            None => None,
        }
    }

    /// The state after a clip was taken from its track and put on the track `to`, in order,
    /// to begin at `start`. The clip is selected.
    pub open spec fn clip_moved(
        self,
        is_video: bool,
        track: int,
        clip: int,
        to: int,
        start: int,
    ) -> EditorModel {
        let tracks = self.lane(is_video);
        let c = tracks[track].clips[clip];
        let left = crate::editor::with_clips(tracks, track, tracks[track].clips.remove(clip));
        let clips = crate::editor::sorted_by_start(left[to].clips.push(c.moved_to(start)));
        let place = match crate::search::first_where(clips, with_id(c.id)) {
            Some(i) => i,
            None => 0,
        };
        EditorModel {
            selected_clip: Some((is_video, to as usize, place as usize)),
            ..self.with_lane(is_video, crate::editor::with_clips(left, to, clips))
        }
    }

    /// Where a trimmed clip begins: at the snapped pointer, but not before its source
    /// begins, not so late that less than the shortest clip is left, and not before the
    /// clip in front of it ends.
    pub open spec fn trim_left_target(
        self,
        id: usize,
        is_video: bool,
        dx: int,
        clip_start: int,
        clip_end: int,
        trim_start: int,
    ) -> Option<(int, int, int)> {
        match self.located(id) {
            Some((v, t, i)) => {
                let wanted = clip_start + crate::layout::width_as_time(dx, self.zoom_factor as int);
                let snapped = self.snapped(wanted, Some(id), self.snap_threshold());
                let latest = clip_end - 50_000_000;
                let bounded = at_most(at_least(snapped, clip_start - trim_start), latest);
                let start = if i > 0 {
                    at_least(bounded, self.clip(is_video, t, i - 1).timeline_end as int)
                } else {
                    bounded
                };
                if 0 <= start <= latest {
                    Some((t, i, start))
                } else {
                    None
                }
            },
            None => None,
        }
    }

    /// How long the source of a clip is: as long as its asset, a day for a still image, an
    /// hour where the asset is not known.
    pub open spec fn source_length(self, clip: Clip) -> int {
        match crate::search::first_where(self.assets, of_asset(clip.asset_id)) {
            Some(a) => if self.assets[a].is_image {
                86_400_000_000_000
            } else {
                self.assets[a].duration as int
            },
            None => 3_600_000_000_000,
        }
    }

    /// Where a trimmed clip ends: at the snapped pointer, but not behind the end of its
    /// source, not so early that less than the shortest clip is left, and not behind the
    /// start of the clip that follows.
    pub open spec fn trim_right_target(
        self,
        id: usize,
        is_video: bool,
        dx: int,
        clip_start: int,
        clip_end: int,
        trim_end: int,
    ) -> Option<(int, int, int)> {
        match self.located(id) {
            Some((v, t, i)) => {
                let wanted = clip_end + crate::layout::width_as_time(dx, self.zoom_factor as int);
                let snapped = self.snapped(wanted, Some(id), self.snap_threshold());
                let source = self.source_length(self.clip(is_video, t, i));
                let earliest = clip_start + 50_000_000;
                let bounded = at_least(at_most(snapped, clip_end + (source - trim_end)), earliest);
                let end = if i + 1 < self.lane(is_video)[t].clips.len() {
                    at_most(bounded, self.clip(is_video, t, i + 1).timeline_start as int)
                } else {
                    bounded
                };
                if end >= earliest {
                    Some((t, i, end))
                } else {
                    None
                }
            },
            None => None,
        }
    }

    /// The state with one clip replaced.
    pub open spec fn clip_replaced(
        self,
        is_video: bool,
        track: int,
        clip: int,
        c: Clip,
    ) -> EditorModel {
        let tracks = self.lane(is_video);
        self.with_lane(
            is_video,
            crate::editor::with_clips(tracks, track, tracks[track].clips.update(clip, c)),
        )
    }

    /// The state after the pressed pointer moved to `p`.
    pub open spec fn dragged(self, canvas: Canvas, drag: DragState, p: Point) -> EditorModel {
        match drag {
            DragState::Idle => self,
            DragState::Playhead => EditorModel {
                playhead: at_least(self.scale(canvas).time_of(p.x as int), 0) as i64,
                ..self
            },
            DragState::ClipMove {
                clip_id,
                is_video,
                drag_start_mouse_x,
                drag_start_clip_start,
                ..
            } => match self.move_target(
                canvas,
                clip_id,
                is_video,
                drag_start_mouse_x as int,
                drag_start_clip_start as int,
                p,
            ) {
                Some((t, i, to, start)) => self.clip_moved(is_video, t, i, to, start),
                None => self,
            },
            DragState::ClipTrimLeft {
                clip_id,
                is_video,
                drag_start_mouse_x,
                drag_start_clip_start,
                drag_start_clip_end,
                drag_start_trim_start,
            } => match self.trim_left_target(
                clip_id,
                is_video,
                p.x - drag_start_mouse_x,
                drag_start_clip_start as int,
                drag_start_clip_end as int,
                drag_start_trim_start as int,
            ) {
                Some((t, i, start)) => self.clip_replaced(
                    is_video,
                    t,
                    i,
                    Clip {
                        timeline_start: start as i64,
                        source_trim_start: (drag_start_trim_start + (start
                            - drag_start_clip_start)) as i64,
                        ..self.clip(is_video, t, i)
                    },
                ),
                None => self,
            },
            DragState::ClipTrimRight {
                clip_id,
                is_video,
                drag_start_mouse_x,
                drag_start_clip_end,
                drag_start_clip_start,
                drag_start_trim_end,
            } => match self.trim_right_target(
                clip_id,
                is_video,
                p.x - drag_start_mouse_x,
                drag_start_clip_start as int,
                drag_start_clip_end as int,
                drag_start_trim_end as int,
            ) {
                Some((t, i, end)) => self.clip_replaced(
                    is_video,
                    t,
                    i,
                    Clip {
                        timeline_end: end as i64,
                        source_trim_end: (drag_start_trim_end + (end - drag_start_clip_end)) as i64,
                        ..self.clip(is_video, t, i)
                    },
                ),
                None => self,
            },
        }
    }

    /// Whether the dragged clip is on the lane where it was grabbed, and the times that the
    /// drag gives it are valid.
    pub open spec fn drag_fits(self, canvas: Canvas, drag: DragState, p: Point) -> bool {
        match drag {
            DragState::Idle => true,
            DragState::Playhead => true,
            DragState::ClipMove {
                clip_id,
                is_video,
                drag_start_mouse_x,
                drag_start_clip_start,
                ..
            } => {
                &&& self.located(clip_id) matches Some((v, t, i)) ==> v == is_video
                &&& self.move_target(
                    canvas,
                    clip_id,
                    is_video,
                    drag_start_mouse_x as int,
                    drag_start_clip_start as int,
                    p,
                ) matches Some((t, i, to, start)) ==> crate::editor::is_time(start)
                    && crate::editor::is_time(start + self.clip(is_video, t, i).length())
            },
            DragState::ClipTrimLeft {
                clip_id,
                is_video,
                drag_start_mouse_x,
                drag_start_clip_start,
                drag_start_clip_end,
                drag_start_trim_start,
            } => {
                &&& self.located(clip_id) matches Some((v, t, i)) ==> self.has_clip(is_video, t, i)
                &&& self.trim_left_target(
                    clip_id,
                    is_video,
                    p.x - drag_start_mouse_x,
                    drag_start_clip_start as int,
                    drag_start_clip_end as int,
                    drag_start_trim_start as int,
                ) matches Some((t, i, start)) ==> crate::editor::is_time(
                    drag_start_trim_start + (start - drag_start_clip_start),
                )
            },
            DragState::ClipTrimRight {
                clip_id,
                is_video,
                drag_start_mouse_x,
                drag_start_clip_end,
                drag_start_clip_start,
                drag_start_trim_end,
            } => {
                &&& self.located(clip_id) matches Some((v, t, i)) ==> self.has_clip(is_video, t, i)
                &&& self.trim_right_target(
                    clip_id,
                    is_video,
                    p.x - drag_start_mouse_x,
                    drag_start_clip_start as int,
                    drag_start_clip_end as int,
                    drag_start_trim_end as int,
                ) matches Some((t, i, end)) ==> crate::editor::is_time(end)
                    && crate::editor::is_time(drag_start_trim_end + (end - drag_start_clip_end))
            },
        }
    }
}

/// The condition of being the asset with the given id.
pub open spec fn of_asset(id: usize) -> spec_fn(crate::media::MediaAsset) -> bool {
    |a: crate::media::MediaAsset| a.id == id
}

/// Finds the asset with the given id.
pub(crate) fn find_asset(assets: &Vec<crate::media::MediaAsset>, id: usize) -> (r: Option<usize>)
    ensures
        match r {
            Some(i) => crate::search::first_where(assets@, of_asset(id)) == Some(i as int) && i
                < assets@.len(),
            None => crate::search::first_where(assets@, of_asset(id)) is None,
        },
{
    let mut i: usize = 0;
    while i < assets.len()
        invariant
            i <= assets@.len(),
            forall|j: int| 0 <= j < i ==> (#[trigger] assets@[j]).id != id,
        decreases assets@.len() - i,
    {
        if assets[i].id == id {
            proof {
                crate::search::lemma_first_where_at(assets@, of_asset(id), i as int);
            }
            return Some(i);
        }
        i += 1;
    }
    proof {
        crate::search::lemma_first_where_at(assets@, of_asset(id), i as int);
    }
    None
}

proof fn lemma_sorted_has(clips: Seq<Clip>, c: Clip)
    requires
        clips.contains(c),
    ensures
        crate::editor::sorted_by_start(clips).contains(c),
{
    crate::invariants::sorting_permutes(clips);
    clips.to_multiset_ensures();
    crate::editor::sorted_by_start(clips).to_multiset_ensures();
    assert(clips.to_multiset().count(c) > 0);
}

impl EditorState {
    fn snap_limit(&self) -> (r: i64)
        requires
            self.zoom_factor > 0,
        ensures
            r == self@.snap_threshold(),
            r >= 0,
    {
        to_time(8_000, self.zoom_factor)
    }

    fn find_snapped_start(&self, id: usize, start: i128, length: i128) -> (r: i128)
        requires
            self.zoom_factor > 0,
            -0x2_0000_0000_0000_0000 <= start <= 0x2_0000_0000_0000_0000,
            -0x2_0000_0000_0000_0000 <= length <= 0x2_0000_0000_0000_0000,
        ensures
            r == self@.snapped_start(id, start as int, length as int),
            0 <= r <= 0x40_0000_0000_0000_0000,
    {
        let limit: i64 = self.snap_limit();
        let by_start: i128 = find_snap_time(start, Some(id), self, limit);
        let by_end: i128 = find_snap_time(start + length, Some(id), self, limit);
        let start_step: i128 = if by_start >= start {
            by_start - start
        } else {
            start - by_start
        };
        let end_step: i128 = if by_end >= start + length {
            by_end - (start + length)
        } else {
            start + length - by_end
        };
        let r: i128 = if start_step < limit as i128 && start_step <= end_step {
            by_start
        } else if end_step < limit as i128 {
            by_end - length
        } else {
            start
        };
        if r >= 0 {
            r
        } else {
            0
        }
    }

    fn move_clip(
        &mut self,
        canvas: &Canvas,
        id: usize,
        is_video: bool,
        grab_x: i64,
        clip_start: i64,
        p: Point,
    )
        requires
            old(self).zoom_factor > 0,
            old(self)@.located(id) matches Some((v, t, i)) ==> v == is_video,
            old(self)@.move_target(
                *canvas,
                id,
                is_video,
                grab_x as int,
                clip_start as int,
                p,
            ) matches Some((t, i, to, start)) ==> crate::editor::is_time(start)
                && crate::editor::is_time(start + old(self)@.clip(is_video, t, i).length()),
        ensures
            final(self)@ == match old(self)@.move_target(
                *canvas,
                id,
                is_video,
                grab_x as int,
                clip_start as int,
                p,
            ) {
                Some((t, i, to, start)) => old(self)@.clip_moved(is_video, t, i, to, start),
                None => old(self)@,
            },
    {
        let (track, clip) = match find_clip_details(self, id) {
            Some((_, t, i)) => (t, i),
            None => {
                return ;
            },
        };
        let delta: i64 = to_time(p.x as i128 - grab_x as i128, self.zoom_factor);
        let wanted: i128 = clip_start as i128 + delta as i128;
        let video_tracks: usize = self.video_tracks.len();
        let to: usize = get_hovered_track_idx(p.y, canvas.top, is_video, video_tracks);
        let count: usize = if is_video {
            self.video_tracks.len()
        } else {
            self.audio_tracks.len()
        };
        if to >= count {
            return ;
        }
        let c: Clip = if is_video {
            self.video_tracks[track].clips[clip]
        } else {
            self.audio_tracks[track].clips[clip]
        };
        let length: i128 = c.timeline_end as i128 - c.timeline_start as i128;
        let desired: i128 = self.find_snapped_start(id, wanted, length);
        let tracks: &mut Vec<Track> = if is_video {
            &mut self.video_tracks
        } else {
            &mut self.audio_tracks
        };
        let start: i128 = match find_place(&tracks[to].clips, id, length, desired, c.timeline_start) {
            Some(s) => s,
            None => {
                return ;
            },
        };
        let moved = Clip {
            timeline_start: start as i64,
            timeline_end: (start + length) as i64,
            ..c
        };
        let ghost before = tracks@;
        tracks[track].clips.remove(clip);
        let ghost left = tracks@;
        proof {
            crate::editor::lemma_lane_update(
                before,
                left,
                track as int,
                before[track as int].clips@.remove(clip as int),
            );
        }
        tracks[to].clips.push(moved);
        crate::editor::sort_clips(&mut tracks[to].clips);
        let ghost clips = crate::editor::sorted_by_start(left[to as int].clips@.push(moved));
        proof {
            crate::editor::lemma_lane_update(left, tracks@, to as int, clips);
            let pushed = left[to as int].clips@.push(moved);
            assert(pushed[pushed.len() - 1] == moved);
            lemma_sorted_has(pushed, moved);
        }
        let place: usize = match position_of(&tracks[to].clips, id) {
            Some(i) => i,
            None => {
                proof {
                    let k = choose|k: int| 0 <= k < clips.len() && clips[k] == moved;
                    crate::search::first_where_is_first(clips, with_id(id));
                    assert(with_id(id)(clips[k]));
                }
                0
            },
        };
        self.selected_clip = Some((is_video, to, place));
    }

    fn trim_left(
        &mut self,
        id: usize,
        is_video: bool,
        dx: i128,
        clip_start: i64,
        clip_end: i64,
        trim_start: i64,
    )
        requires
            old(self).zoom_factor > 0,
            -0x1_0000_0000_0000_0000 <= dx <= 0x1_0000_0000_0000_0000,
            old(self)@.located(id) matches Some((v, t, i)) ==> old(self)@.has_clip(is_video, t, i),
            old(self)@.trim_left_target(
                id,
                is_video,
                dx as int,
                clip_start as int,
                clip_end as int,
                trim_start as int,
            ) matches Some((t, i, start)) ==> crate::editor::is_time(
                trim_start + (start - clip_start),
            ),
        ensures
            final(self)@ == match old(self)@.trim_left_target(
                id,
                is_video,
                dx as int,
                clip_start as int,
                clip_end as int,
                trim_start as int,
            ) {
                Some((t, i, start)) => old(self)@.clip_replaced(
                    is_video,
                    t,
                    i,
                    Clip {
                        timeline_start: start as i64,
                        source_trim_start: (trim_start + (start - clip_start)) as i64,
                        ..old(self)@.clip(is_video, t, i)
                    },
                ),
                None => old(self)@,
            },
    {
        let (track, clip) = match find_clip_details(self, id) {
            Some((_, t, i)) => (t, i),
            None => {
                return ;
            },
        };
        let limit: i64 = self.snap_limit();
        let wanted: i128 = clip_start as i128 + to_time(dx, self.zoom_factor) as i128;
        let mut start: i128 = find_snap_time(wanted, Some(id), self, limit);
        let earliest: i128 = clip_start as i128 - trim_start as i128;
        let latest: i128 = clip_end as i128 - MIN_CLIP as i128;
        if start < earliest {
            start = earliest;
        }
        if start > latest {
            start = latest;
        }
        let tracks: &mut Vec<Track> = if is_video {
            &mut self.video_tracks
        } else {
            &mut self.audio_tracks
        };
        if clip > 0 {
            let left_end: i128 = tracks[track].clips[clip - 1].timeline_end as i128;
            if start < left_end {
                start = left_end;
            }
        }
        if start >= 0 && start <= latest {
            let ghost before = tracks@;
            let c: Clip = tracks[track].clips[clip];
            let trimmed = Clip {
                timeline_start: start as i64,
                source_trim_start: (trim_start as i128 + (start - clip_start as i128)) as i64,
                ..c
            };
            tracks[track].clips[clip] = trimmed;
            proof {
                crate::editor::lemma_lane_update(
                    before,
                    tracks@,
                    track as int,
                    before[track as int].clips@.update(clip as int, trimmed),
                );
            }
        }
    }

    fn find_source_length(&self, c: &Clip) -> (r: i64)
        ensures
            r == self@.source_length(*c),
    {
        match find_asset(&self.assets, c.asset_id) {
            Some(a) => if self.assets[a].is_image {
                IMAGE_LENGTH
            } else {
                self.assets[a].duration
            },
            None => UNKNOWN_LENGTH,
        }
    }

    fn trim_right(
        &mut self,
        id: usize,
        is_video: bool,
        dx: i128,
        clip_start: i64,
        clip_end: i64,
        trim_end: i64,
    )
        requires
            old(self).zoom_factor > 0,
            -0x1_0000_0000_0000_0000 <= dx <= 0x1_0000_0000_0000_0000,
            old(self)@.located(id) matches Some((v, t, i)) ==> old(self)@.has_clip(is_video, t, i),
            old(self)@.trim_right_target(
                id,
                is_video,
                dx as int,
                clip_start as int,
                clip_end as int,
                trim_end as int,
            ) matches Some((t, i, end)) ==> crate::editor::is_time(end) && crate::editor::is_time(
                trim_end + (end - clip_end),
            ),
        ensures
            final(self)@ == match old(self)@.trim_right_target(
                id,
                is_video,
                dx as int,
                clip_start as int,
                clip_end as int,
                trim_end as int,
            ) {
                Some((t, i, end)) => old(self)@.clip_replaced(
                    is_video,
                    t,
                    i,
                    Clip {
                        timeline_end: end as i64,
                        source_trim_end: (trim_end + (end - clip_end)) as i64,
                        ..old(self)@.clip(is_video, t, i)
                    },
                ),
                None => old(self)@,
            },
    {
        let (track, clip) = match find_clip_details(self, id) {
            Some((_, t, i)) => (t, i),
            None => {
                return ;
            },
        };
        let limit: i64 = self.snap_limit();
        let wanted: i128 = clip_end as i128 + to_time(dx, self.zoom_factor) as i128;
        let mut end: i128 = find_snap_time(wanted, Some(id), self, limit);
        let c: Clip = if is_video {
            self.video_tracks[track].clips[clip]
        } else {
            self.audio_tracks[track].clips[clip]
        };
        let source: i64 = self.find_source_length(&c);
        let latest: i128 = clip_end as i128 + (source as i128 - trim_end as i128);
        let earliest: i128 = clip_start as i128 + MIN_CLIP as i128;
        if end > latest {
            end = latest;
        }
        if end < earliest {
            end = earliest;
        }
        let tracks: &mut Vec<Track> = if is_video {
            &mut self.video_tracks
        } else {
            &mut self.audio_tracks
        };
        if clip < tracks[track].clips.len() - 1 {
            let right_start: i128 = tracks[track].clips[clip + 1].timeline_start as i128;
            if end > right_start {
                end = right_start;
            }
        }
        if end >= earliest {
            let ghost before = tracks@;
            let trimmed = Clip {
                timeline_end: end as i64,
                source_trim_end: (trim_end as i128 + (end - clip_end as i128)) as i64,
                ..c
            };
            tracks[track].clips[clip] = trimmed;
            proof {
                crate::editor::lemma_lane_update(
                    before,
                    tracks@,
                    track as int,
                    before[track as int].clips@.update(clip as int, trimmed),
                );
            }
        }
    }

    /// Follows the pressed pointer to `p`: moves the playhead, or moves or trims the clip
    /// that was grabbed.
    pub fn drag_to(&mut self, canvas: &Canvas, drag: DragState, p: Point)
        requires
            old(self).zoom_factor > 0,
            old(self)@.drag_fits(*canvas, drag, p),
        ensures
            final(self)@ == old(self)@.dragged(*canvas, drag, p),
    {
        match drag {
            DragState::Idle => {},
            DragState::Playhead => {
                let t: i64 = self.time_scale(canvas).x_to_time(p.x);
                self.playhead = if t >= 0 {
                    t
                } else {
                    0
                };
            },
            DragState::ClipMove {
                clip_id,
                is_video,
                drag_start_mouse_x,
                drag_start_mouse_y: _,
                drag_start_clip_start,
                drag_start_track_idx: _,
            } => {
                self.move_clip(
                    canvas,
                    clip_id,
                    is_video,
                    drag_start_mouse_x,
                    drag_start_clip_start,
                    p,
                );
            },
            DragState::ClipTrimLeft {
                clip_id,
                is_video,
                drag_start_mouse_x,
                drag_start_clip_start,
                drag_start_clip_end,
                drag_start_trim_start,
            } => {
                self.trim_left(
                    clip_id,
                    is_video,
                    p.x as i128 - drag_start_mouse_x as i128,
                    drag_start_clip_start,
                    drag_start_clip_end,
                    drag_start_trim_start,
                );
            },
            DragState::ClipTrimRight {
                clip_id,
                is_video,
                drag_start_mouse_x,
                drag_start_clip_end,
                drag_start_clip_start,
                drag_start_trim_end,
            } => {
                self.trim_right(
                    clip_id,
                    is_video,
                    p.x as i128 - drag_start_mouse_x as i128,
                    drag_start_clip_start,
                    drag_start_clip_end,
                    drag_start_trim_end,
                );
            },
        }
    }

    /// How times map to positions on a canvas.
    pub fn time_scale(&self, canvas: &Canvas) -> (r: TimeScale)
        ensures
            r == self@.scale(*canvas),
    {
        TimeScale { left: canvas.left, zoom: self.zoom_factor, scroll: self.scroll_offset }
    }
}

// Pressing

/// The condition of lying under a point, for clips of the track with the given upper edge.
pub open spec fn under(scale: TimeScale, top: int, p: Point) -> spec_fn(Clip) -> bool {
    |c: Clip|
        scale.x_of(c.timeline_start as int) <= p.x <= scale.x_of(c.timeline_end as int) && top
            + 2_000 <= p.y <= top + 58_000
}

/// The first clip under a point, on the tracks of one lane from `from` on.
pub open spec fn hit_in(
    tracks: Seq<TrackModel>,
    scale: TimeScale,
    top: int,
    is_video: bool,
    video_tracks: int,
    p: Point,
    from: int,
) -> Option<(int, int)>
    decreases tracks.len() - from,
{
    if from < 0 || from >= tracks.len() {
        None
    } else {
        match crate::search::first_where(
            tracks[from].clips,
            under(scale, crate::layout::track_top(top, is_video, from, video_tracks), p),
        ) {
            Some(i) => Some((from, i)),
            None => hit_in(tracks, scale, top, is_video, video_tracks, p, from + 1),
        }
    }
}

/// What grabbing a clip at a point begins: a trim near its ends, else a move.
pub open spec fn grabbed(
    scale: TimeScale,
    is_video: bool,
    track: usize,
    c: Clip,
    p: Point,
) -> DragState {
    if p.x <= scale.x_of(c.timeline_start as int) + 8_000 {
        DragState::ClipTrimLeft {
            clip_id: c.id,
            is_video,
            drag_start_mouse_x: p.x,
            drag_start_clip_start: c.timeline_start,
            drag_start_clip_end: c.timeline_end,
            drag_start_trim_start: c.source_trim_start,
        }
    } else if p.x >= scale.x_of(c.timeline_end as int) - 8_000 {
        DragState::ClipTrimRight {
            clip_id: c.id,
            is_video,
            drag_start_mouse_x: p.x,
            drag_start_clip_end: c.timeline_end,
            drag_start_clip_start: c.timeline_start,
            drag_start_trim_end: c.source_trim_end,
        }
    } else {
        DragState::ClipMove {
            clip_id: c.id,
            is_video,
            drag_start_mouse_x: p.x,
            drag_start_mouse_y: p.y,
            drag_start_clip_start: c.timeline_start,
            drag_start_track_idx: track,
        }
    }
}

impl EditorModel {
    /// The clip under a point: its lane, its track and its place. Video comes first.
    pub open spec fn hit(self, canvas: Canvas, p: Point) -> Option<(bool, int, int)> {
        let scale = self.scale(canvas);
        let n = self.video_tracks.len() as int;
        match hit_in(self.video_tracks, scale, canvas.top as int, true, n, p, 0) {
            Some((t, i)) => Some((true, t, i)),
            None => match hit_in(self.audio_tracks, scale, canvas.top as int, false, n, p, 0) {
                Some((t, i)) => Some((false, t, i)),
                None => None,
            },
        }
    }

    /// The state after the pointer was pressed at `p`, and what it does from then on. On
    /// the ruler it takes the playhead along. On a clip the razor splits it there, and the
    /// other tool selects and grabs it. Elsewhere on the canvas the selection is dropped.
    pub open spec fn pressed(self, canvas: Canvas, drag: DragState, p: Point) -> (
        EditorModel,
        DragState,
    ) {
        let scale = self.scale(canvas);
        if !canvas.has(p) {
            (self, drag)
        } else if p.y <= canvas.top + 30_000 {
            (
                EditorModel { playhead: at_least(scale.time_of(p.x as int), 0) as i64, ..self },
                DragState::Playhead,
            )
        } else {
            match self.hit(canvas, p) {
                Some((v, t, i)) => if self.selected_tool == EditTool::Razor {
                    (self.razored(v, t, i, scale.time_of(p.x as int)), DragState::Idle)
                } else {
                    (
                        EditorModel { selected_clip: Some((v, t as usize, i as usize)), ..self },
                        grabbed(scale, v, t as usize, self.clip(v, t, i), p),
                    )
                },
                None => (EditorModel { selected_clip: None, ..self }, drag),
            }
        }
    }
}

impl EditorModel {
    /// Whether there is room for the times and the id that a press makes: with the razor, on
    /// a clip.
    pub open spec fn press_fits(self, canvas: Canvas, p: Point) -> bool {
        canvas.has(p) && p.y > canvas.top + 30_000 && self.selected_tool == EditTool::Razor ==> (
        self.hit(canvas, p) matches Some((v, t, i)) ==> self.razor_fits(
            v,
            t,
            i,
            self.scale(canvas).time_of(p.x as int),
        ))
    }
}

fn find_hit_in(
    tracks: &Vec<Track>,
    scale: &TimeScale,
    top: i64,
    is_video: bool,
    video_tracks: usize,
    p: Point,
) -> (r: Option<(usize, usize)>)
    ensures
        ({
            let all = crate::editor::lane_view(tracks@);
            let n = video_tracks as int;
            match r {
                Some((t, i)) => hit_in(all, *scale, top as int, is_video, n, p, 0) == Some(
                    (t as int, i as int),
                ) && t < tracks@.len() && i < tracks@[t as int].clips@.len(),
                None => hit_in(all, *scale, top as int, is_video, n, p, 0) is None,
            }
        }),
{
    let ghost all = crate::editor::lane_view(tracks@);
    let ghost n = video_tracks as int;
    let mut t: usize = 0;
    while t < tracks.len()
        invariant
            t <= tracks@.len(),
            all == crate::editor::lane_view(tracks@),
            n == video_tracks,
            hit_in(all, *scale, top as int, is_video, n, p, 0) == hit_in(
                all,
                *scale,
                top as int,
                is_video,
                n,
                p,
                t as int,
            ),
        decreases tracks@.len() - t,
    {
        let row: i128 = get_track_y(top, is_video, t, video_tracks);
        let clips: &Vec<Clip> = &tracks[t].clips;
        let ghost cond = under(*scale, row as int, p);
        assert(all[t as int].clips == clips@);
        let mut i: usize = 0;
        while i < clips.len()
            invariant
                i <= clips@.len(),
                t < tracks@.len(),
                clips@ == tracks@[t as int].clips@,
                all == crate::editor::lane_view(tracks@),
                n == video_tracks,
                row == crate::layout::track_top(top as int, is_video, t as int, n),
                all[t as int].clips == clips@,
                cond == under(*scale, row as int, p),
                forall|j: int| 0 <= j < i ==> !cond(#[trigger] clips@[j]),
                hit_in(all, *scale, top as int, is_video, n, p, 0) == hit_in(
                    all,
                    *scale,
                    top as int,
                    is_video,
                    n,
                    p,
                    t as int,
                ),
            decreases clips@.len() - i,
        {
            let x: i128 = p.x as i128;
            let y: i128 = p.y as i128;
            if scale.time_to_x(clips[i].timeline_start) <= x && x <= scale.time_to_x(
                clips[i].timeline_end,
            ) && row + 2_000 <= y && y <= row + 58_000 {
                assert(cond(clips@[i as int]));
                proof {
                    crate::search::lemma_first_where_at(clips@, cond, i as int);
                }
                return Some((t, i));
            }
            assert(!cond(clips@[i as int]));
            i += 1;
        }
        proof {
            crate::search::lemma_first_where_at(clips@, cond, i as int);
        }
        t += 1;
    }
    None
}

fn grab(scale: &TimeScale, is_video: bool, track: usize, c: Clip, p: Point) -> (r: DragState)
    ensures
        r == grabbed(*scale, is_video, track, c, p),
{
    if p.x as i128 - 8_000 <= scale.time_to_x(c.timeline_start) {
        DragState::ClipTrimLeft {
            clip_id: c.id,
            is_video,
            drag_start_mouse_x: p.x,
            drag_start_clip_start: c.timeline_start,
            drag_start_clip_end: c.timeline_end,
            drag_start_trim_start: c.source_trim_start,
        }
    } else if p.x as i128 + 8_000 >= scale.time_to_x(c.timeline_end) {
        DragState::ClipTrimRight {
            clip_id: c.id,
            is_video,
            drag_start_mouse_x: p.x,
            drag_start_clip_end: c.timeline_end,
            drag_start_clip_start: c.timeline_start,
            drag_start_trim_end: c.source_trim_end,
        }
    } else {
        DragState::ClipMove {
            clip_id: c.id,
            is_video,
            drag_start_mouse_x: p.x,
            drag_start_mouse_y: p.y,
            drag_start_clip_start: c.timeline_start,
            drag_start_track_idx: track,
        }
    }
}

impl EditorState {
    /// Finds the clip under a point.
    pub fn clip_at(&self, canvas: &Canvas, p: Point) -> (r: Option<(bool, usize, usize)>)
        ensures
            match r {
                Some((v, t, i)) => self@.hit(*canvas, p) == Some((v, t as int, i as int))
                    && self@.has_clip(v, t as int, i as int),
                None => self@.hit(*canvas, p) is None,
            },
    {
        let scale = self.time_scale(canvas);
        let n: usize = self.video_tracks.len();
        match find_hit_in(&self.video_tracks, &scale, canvas.top, true, n, p) {
            Some((t, i)) => Some((true, t, i)),
            None => match find_hit_in(&self.audio_tracks, &scale, canvas.top, false, n, p) {
                Some((t, i)) => Some((false, t, i)),
                None => None,
            },
        }
    }

    /// Handles a press of the pointer at `p`; returns what the pointer does from then on.
    pub fn press(&mut self, canvas: &Canvas, drag: DragState, p: Point) -> (r: DragState)
        requires
            old(self).zoom_factor > 0,
            old(self)@.press_fits(*canvas, p),
        ensures
            (final(self)@, r) == old(self)@.pressed(*canvas, drag, p),
    {
        let scale = self.time_scale(canvas);
        if !canvas.contains(p) {
            return drag;
        }
        if p.y as i128 <= canvas.top as i128 + crate::layout::RULER_HEIGHT as i128 {
            let t: i64 = scale.x_to_time(p.x);
            self.playhead = if t >= 0 {
                t
            } else {
                0
            };
            return DragState::Playhead;
        }
        match self.clip_at(canvas, p) {
            Some((v, t, i)) => {
                if self.selected_tool == EditTool::Razor {
                    let time: i64 = scale.x_to_time(p.x);
                    self.razor_at(v, t, i, time);
                    DragState::Idle
                } else {
                    self.selected_clip = Some((v, t, i));
                    let c: Clip = if v {
                        self.video_tracks[t].clips[i]
                    } else {
                        self.audio_tracks[t].clips[i]
                    };
                    grab(&scale, v, t, c, p)
                }
            },
            None => {
                self.selected_clip = None;
                drag
            },
        }
    }
}

} // verus!
