//! What the edits of the timeline preserve.

use crate::editor::{Clip, EditorModel};
use vstd::prelude::*;

verus! {

/// Whether two clips share no instant.
pub open spec fn apart(a: Clip, b: Clip) -> bool {
    a.timeline_end <= b.timeline_start || b.timeline_end <= a.timeline_start
}

/// Whether no two clips of a track overlap.
pub open spec fn disjoint(clips: Seq<Clip>) -> bool {
    forall|i: int, j: int|
        0 <= i < j < clips.len() ==> apart(#[trigger] clips[i], #[trigger] clips[j])
}

/// Whether every clip of a track plays for some time.
pub open spec fn all_play(clips: Seq<Clip>) -> bool {
    forall|i: int| 0 <= i < clips.len() ==> (#[trigger] clips[i]).length() > 0
}

/// Whether a track's clips stand in the order in which they begin.
pub open spec fn in_order(clips: Seq<Clip>) -> bool {
    forall|i: int, j: int|
        0 <= i < j < clips.len() ==> (#[trigger] clips[i]).timeline_start <= (
        #[trigger] clips[j]).timeline_start
}

/// Whether every pair of clips is related by `rel`.
spec fn pairwise(clips: Seq<Clip>, rel: spec_fn(Clip, Clip) -> bool) -> bool {
    forall|i: int, j: int|
        0 <= i < j < clips.len() ==> rel(#[trigger] clips[i], #[trigger] clips[j])
}

/// Sorting inserts each clip somewhere.
proof fn lemma_insert_position(sorted: Seq<Clip>, c: Clip) -> (k: int)
    ensures
        0 <= k <= sorted.len(),
        crate::editor::insert_by_start(sorted, c) == sorted.insert(k, c),
    decreases sorted.len(),
{
    if sorted.len() == 0 || sorted.last().timeline_start <= c.timeline_start {
        assert(sorted.push(c) =~= sorted.insert(sorted.len() as int, c));
        sorted.len() as int
    } else {
        let k = lemma_insert_position(sorted.drop_last(), c);
        assert(sorted.drop_last().insert(k, c).push(sorted.last()) =~= sorted.insert(k, c));
        k
    }
}

proof fn lemma_sorted_members(clips: Seq<Clip>)
    ensures
        crate::editor::sorted_by_start(clips).len() == clips.len(),
        forall|j: int|
            0 <= j < clips.len() ==> clips.contains(
                #[trigger] crate::editor::sorted_by_start(clips)[j],
            ),
    decreases clips.len(),
{
    if clips.len() > 0 {
        let rest = crate::editor::sorted_by_start(clips.drop_last());
        lemma_sorted_members(clips.drop_last());
        let k = lemma_insert_position(rest, clips.last());
        let all = crate::editor::sorted_by_start(clips);
        assert forall|j: int| 0 <= j < clips.len() implies clips.contains(#[trigger] all[j]) by {
            if j == k {
                assert(clips[clips.len() - 1] == all[j]);
            } else {
                let i = if j < k {
                    j
                } else {
                    j - 1
                };
                assert(all[j] == rest[i]);
                assert(clips.drop_last().contains(rest[i]));
                let h = choose|h: int|
                    0 <= h < clips.drop_last().len() && clips.drop_last()[h] == rest[i];
                assert(clips[h] == all[j]);
            }
        }
    }
}

proof fn lemma_sorted_pairwise(clips: Seq<Clip>, rel: spec_fn(Clip, Clip) -> bool)
    requires
        pairwise(clips, rel),
        forall|a: Clip, b: Clip| #[trigger] rel(a, b) ==> rel(b, a),
    ensures
        pairwise(crate::editor::sorted_by_start(clips), rel),
    decreases clips.len(),
{
    if clips.len() > 0 {
        let front = clips.drop_last();
        let rest = crate::editor::sorted_by_start(front);
        assert(pairwise(front, rel));
        lemma_sorted_pairwise(front, rel);
        lemma_sorted_members(front);
        let k = lemma_insert_position(rest, clips.last());
        let all = crate::editor::sorted_by_start(clips);
        assert forall|i: int| 0 <= i < rest.len() implies rel(#[trigger] rest[i], clips.last()) by {
            assert(front.contains(rest[i]));
            let h = choose|h: int| 0 <= h < front.len() && front[h] == rest[i];
            assert(rel(clips[h], clips[clips.len() - 1]));
        }
        assert forall|i: int, j: int| 0 <= i < j < all.len() implies rel(
            #[trigger] all[i],
            #[trigger] all[j],
        ) by {
            let a = if i < k {
                i
            } else {
                i - 1
            };
            let b = if j < k {
                j
            } else {
                j - 1
            };
            if i != k {
                assert(all[i] == rest[a]);
            }
            if j != k {
                assert(all[j] == rest[b]);
            }
        }
    }
}

/// Sorted clips stand in the order in which they begin.
pub proof fn sorting_orders(clips: Seq<Clip>)
    ensures
        in_order(crate::editor::sorted_by_start(clips)),
    decreases clips.len(),
{
    if clips.len() > 0 {
        sorting_orders(clips.drop_last());
        lemma_insert_orders(crate::editor::sorted_by_start(clips.drop_last()), clips.last());
    }
}

proof fn lemma_insert_orders(sorted: Seq<Clip>, c: Clip)
    requires
        in_order(sorted),
    ensures
        in_order(crate::editor::insert_by_start(sorted, c)),
        forall|j: int|
            0 <= j <= sorted.len() ==> (
            #[trigger] crate::editor::insert_by_start(sorted, c)[j]).timeline_start
                <= if sorted.len() == 0 || sorted.last().timeline_start <= c.timeline_start {
                c.timeline_start
            } else {
                sorted.last().timeline_start
            },
        crate::editor::insert_by_start(sorted, c).len() == sorted.len() + 1,
    decreases sorted.len(),
{
    if sorted.len() == 0 || sorted.last().timeline_start <= c.timeline_start {
    } else {
        lemma_insert_orders(sorted.drop_last(), c);
    }
}

/// Sorting neither loses nor adds a clip.
pub proof fn sorting_permutes(clips: Seq<Clip>)
    ensures
        crate::editor::sorted_by_start(clips).to_multiset() == clips.to_multiset(),
        crate::editor::sorted_by_start(clips).len() == clips.len(),
    decreases clips.len(),
{
    broadcast use vstd::seq_lib::group_to_multiset_ensures;

    lemma_sorted_members(clips);
    if clips.len() == 0 {
        assert(clips =~= crate::editor::sorted_by_start(clips));
    } else {
        let rest = crate::editor::sorted_by_start(clips.drop_last());
        sorting_permutes(clips.drop_last());
        let k = lemma_insert_position(rest, clips.last());
        let all = rest.insert(k, clips.last());
        assert(all.remove(k) =~= rest);
        all.to_multiset_ensures();
        assert(clips.drop_last().push(clips.last()) =~= clips);
        assert(all[k] == clips.last());
        assert(all.contains(all[k]));
        assert(all.to_multiset() =~= rest.to_multiset().insert(clips.last()));
    }
}

/// The clips that begin at `start`.
pub open spec fn starting_at(clips: Seq<Clip>, start: i64) -> Seq<Clip> {
    clips.filter(|c: Clip| c.timeline_start == start)
}

proof fn lemma_starting_at_push(clips: Seq<Clip>, c: Clip, start: i64)
    ensures
        starting_at(clips.push(c), start) == if c.timeline_start == start {
            starting_at(clips, start).push(c)
        } else {
            starting_at(clips, start)
        },
{
    reveal(Seq::filter);
    assert(clips.push(c).drop_last() =~= clips);
}

/// Sorting keeps the order of clips that begin at the same time.
pub proof fn sorting_is_stable(clips: Seq<Clip>, start: i64)
    ensures
        starting_at(crate::editor::sorted_by_start(clips), start) == starting_at(clips, start),
    decreases clips.len(),
{
    if clips.len() == 0 {
        assert(clips =~= crate::editor::sorted_by_start(clips));
    } else {
        let front = clips.drop_last();
        let rest = crate::editor::sorted_by_start(front);
        sorting_is_stable(front, start);
        lemma_insert_stable(rest, clips.last(), start);
        lemma_starting_at_push(rest, clips.last(), start);
        lemma_starting_at_push(front, clips.last(), start);
        assert(front.push(clips.last()) =~= clips);
    }
}

proof fn lemma_insert_stable(sorted: Seq<Clip>, c: Clip, start: i64)
    ensures
        starting_at(crate::editor::insert_by_start(sorted, c), start) == starting_at(
            sorted.push(c),
            start,
        ),
    decreases sorted.len(),
{
    if sorted.len() > 0 && sorted.last().timeline_start > c.timeline_start {
        let front = sorted.drop_last();
        lemma_insert_stable(front, c, start);
        lemma_starting_at_push(
            crate::editor::insert_by_start(front, c),
            sorted.last(),
            start,
        );
        lemma_starting_at_push(front, c, start);
        lemma_starting_at_push(front, sorted.last(), start);
        lemma_starting_at_push(sorted, c, start);
        assert(front.push(sorted.last()) =~= sorted);
    }
}

// Splitting

/// A split changes nothing about what plays when: at every instant of the clip exactly one
/// of the parts plays, and it plays the source instant that the clip played.
pub proof fn split_keeps_playback(c: Clip, time: int, id: usize, t: int)
    requires
        c.timeline_start < time < c.timeline_end,
        crate::editor::is_time(c.source_at(time)),
    ensures
        ({
            let first = crate::editor::razor_first(c, time);
            let second = crate::editor::razor_second(c, time, id);
            &&& c.covers(t) <==> first.covers(t) || second.covers(t)
            &&& !(first.covers(t) && second.covers(t))
            &&& first.covers(t) ==> first.source_at(t) == c.source_at(t)
            &&& second.covers(t) ==> second.source_at(t) == c.source_at(t)
            &&& first.length() + second.length() == c.length()
            &&& first.source_trim_end == second.source_trim_start
            &&& first.source_trim_start == c.source_trim_start
            &&& second.source_trim_end == c.source_trim_end
        }),
{
}

/// A split makes no clips overlap.
pub proof fn split_keeps_disjoint(clips: Seq<Clip>, clip: int, time: int, id: usize)
    requires
        disjoint(clips),
        0 <= clip < clips.len(),
        clips[clip].timeline_start < time < clips[clip].timeline_end,
    ensures
        disjoint(crate::editor::razor_clips(clips, clip, time, id)),
{
    let after = crate::editor::razor_clips(clips, clip, time, id);
    assert forall|i: int, j: int| 0 <= i < j < after.len() implies apart(
        #[trigger] after[i],
        #[trigger] after[j],
    ) by {
        let a = if i <= clip {
            i
        } else {
            i - 1
        };
        let b = if j <= clip {
            j
        } else {
            j - 1
        };
        if a != b {
            assert(apart(clips[a], clips[b]));
        }
    }
}

// Ripple delete

/// A ripple delete leaves the clips before the gap alone, moves those behind it up by its
/// length, makes none overlap and keeps them in order.
pub proof fn ripple_keeps_disjoint(clips: Seq<Clip>, clip: int)
    requires
        disjoint(clips),
        all_play(clips),
        0 <= clip < clips.len(),
        forall|i: int|
            0 <= i < clips.len() && (#[trigger] clips[i]).timeline_start
                >= clips[clip].timeline_end ==> crate::editor::is_time(
                clips[i].timeline_start - clips[clip].length(),
            ) && crate::editor::is_time(clips[i].timeline_end - clips[clip].length()),
    ensures
        disjoint(crate::editor::ripple_clips(clips, clip)),
        all_play(crate::editor::ripple_clips(clips, clip)),
        in_order(clips) ==> in_order(crate::editor::ripple_clips(clips, clip)),
        forall|i: int|
            0 <= i < clips.len() && i != clip ==> {
                let moved = crate::editor::ripple_clips(clips, clip)[if i < clip {
                    i
                } else {
                    i - 1
                }];
                if (#[trigger] clips[i]).timeline_end <= clips[clip].timeline_start {
                    moved == clips[i]
                } else {
                    moved == clips[i].moved_to(clips[i].timeline_start - clips[clip].length())
                }
            },
{
    let after = crate::editor::ripple_clips(clips, clip);
    let gone = clips[clip];
    assert forall|i: int| 0 <= i < clips.len() && i != clip implies {
        let moved = after[if i < clip {
            i
        } else {
            i - 1
        }];
        if (#[trigger] clips[i]).timeline_end <= gone.timeline_start {
            moved == clips[i]
        } else {
            &&& moved == clips[i].moved_to(clips[i].timeline_start - gone.length())
            &&& moved.timeline_start == clips[i].timeline_start - gone.length()
            &&& moved.timeline_end == clips[i].timeline_end - gone.length()
            &&& clips[i].timeline_start >= gone.timeline_end
        }
    } by {
        if i < clip {
            assert(apart(clips[i], clips[clip]));
        } else {
            assert(apart(clips[clip], clips[i]));
        }
    }
    assert forall|k: int| 0 <= k < after.len() implies (#[trigger] after[k]).length() > 0 by {
        let i = if k < clip {
            k
        } else {
            k + 1
        };
        assert(clips[i].length() > 0);
    }
    assert forall|k: int, l: int| 0 <= k < l < after.len() implies apart(
        #[trigger] after[k],
        #[trigger] after[l],
    ) && (in_order(clips) ==> after[k].timeline_start <= after[l].timeline_start) by {
        let i = if k < clip {
            k
        } else {
            k + 1
        };
        let j = if l < clip {
            l
        } else {
            l + 1
        };
        assert(apart(clips[i], clips[j]));
        assert(clips[i].length() > 0);
        assert(clips[j].length() > 0);
    }
}

// Duplication

/// A copy never overlaps a clip: it begins no earlier than its model ends and meets no
/// other clip, so a track without overlaps stays without overlaps, and it is in order.
pub proof fn duplicate_never_overlaps(clips: Seq<Clip>, clip: int, id: usize)
    requires
        disjoint(clips),
        0 <= clip < clips.len(),
        forall|i: int| 0 <= i < clips.len() ==> (#[trigger] clips[i]).id != usize::MAX,
        ({
            let c = clips[clip];
            let start = crate::editor::earliest_free(
                clips,
                c.timeline_end as int,
                c.length(),
                usize::MAX,
            );
            crate::editor::is_time(start + c.length())
        }),
    ensures
        disjoint(crate::editor::duplicate_clips(clips, clip, id)),
        in_order(crate::editor::duplicate_clips(clips, clip, id)),
        crate::editor::duplicate_clips(clips, clip, id).len() == clips.len() + 1,
{
    let c = clips[clip];
    let start = crate::editor::earliest_free(clips, c.timeline_end as int, c.length(), usize::MAX);
    crate::editor::a_free_place_exists(clips, c.timeline_end as int, c.length(), usize::MAX);
    let copy = Clip { id, ..c.moved_to(start) };
    let all = clips.push(copy);
    let rel = |a: Clip, b: Clip| apart(a, b);
    assert forall|i: int, j: int| 0 <= i < j < all.len() implies rel(
        #[trigger] all[i],
        #[trigger] all[j],
    ) by {
        if j == clips.len() {
            assert(!clips[i].meets(start, start + c.length()));
        } else {
            assert(apart(clips[i], clips[j]));
        }
    }
    lemma_sorted_pairwise(all, rel);
    let after = crate::editor::sorted_by_start(all);
    assert forall|i: int, j: int| 0 <= i < j < after.len() implies apart(
        #[trigger] after[i],
        #[trigger] after[j],
    ) by {
        assert(rel(after[i], after[j]));
    }
    sorting_orders(all);
    lemma_sorted_members(all);
}

// Identity

impl EditorModel {
    /// Whether the ids tell the clips apart, and the next one is unused.
    pub open spec fn clip_ids_unique(self) -> bool {
        &&& forall|v: bool, t: int, c: int|
            self.has_clip(v, t, c) ==> (#[trigger] self.clip(v, t, c)).id < self.next_clip_id
        &&& forall|v: bool, t: int, c: int, w: bool, u: int, d: int|
            self.has_clip(v, t, c) && self.has_clip(w, u, d) && (#[trigger] self.clip(v, t, c)).id
                == (#[trigger] self.clip(w, u, d)).id ==> v == w && t == u && c == d
    }

    /// Whether the ids tell the tracks apart, and the next one is unused.
    pub open spec fn track_ids_unique(self) -> bool {
        &&& forall|v: bool, t: int|
            0 <= t < self.lane(v).len() ==> (#[trigger] self.lane(v)[t]).id < self.next_track_id
        &&& forall|v: bool, t: int, w: bool, u: int|
            0 <= t < self.lane(v).len() && 0 <= u < self.lane(w).len() && (#[trigger] self.lane(
                v,
            )[t]).id == (#[trigger] self.lane(w)[u]).id ==> v == w && t == u
    }
}

impl EditorModel {
    /// Whether no clip has the given id.
    pub open spec fn unused(self, id: usize) -> bool {
        forall|v: bool, t: int, c: int|
            self.has_clip(v, t, c) ==> (#[trigger] self.clip(v, t, c)).id != id
    }
}

/// Replacing the clips of one track keeps the ids unique if the new ones differ from each
/// other and each is an old one of that track or unused.
pub(crate) proof fn lemma_replace_keeps_ids(
    m: EditorModel,
    after: EditorModel,
    is_video: bool,
    track: int,
    clips: Seq<Clip>,
)
    requires
        m.clip_ids_unique(),
        0 <= track < m.lane(is_video).len(),
        after.lane(is_video) == crate::editor::with_clips(m.lane(is_video), track, clips),
        after.lane(!is_video) == m.lane(!is_video),
        after.next_clip_id >= m.next_clip_id,
        after.next_track_id == m.next_track_id,
        forall|i: int, j: int|
            0 <= i < j < clips.len() ==> (#[trigger] clips[i]).id != (#[trigger] clips[j]).id,
        forall|i: int|
            0 <= i < clips.len() ==> ((#[trigger] clips[i]).id < after.next_clip_id && m.unused(
                clips[i].id,
            )) || exists|k: int|
                m.has_clip(is_video, track, k) && clips[i].id == (#[trigger] m.clip(
                    is_video,
                    track,
                    k,
                )).id,
    ensures
        after.clip_ids_unique(),
        m.track_ids_unique() ==> after.track_ids_unique(),
{
    assert forall|v: bool, t: int, c: int| after.has_clip(v, t, c) implies (#[trigger] after.clip(
        v,
        t,
        c,
    )).id < after.next_clip_id by {
        if v == is_video && t == track {
            assert(after.clip(v, t, c) == clips[c]);
        } else {
            assert(m.has_clip(v, t, c));
            assert(after.clip(v, t, c) == m.clip(v, t, c));
        }
    }
    assert forall|v: bool, t: int, c: int, w: bool, u: int, d: int|
        after.has_clip(v, t, c) && after.has_clip(w, u, d) && (#[trigger] after.clip(v, t, c)).id
            == (#[trigger] after.clip(w, u, d)).id implies v == w && t == u && c == d by {
        let here = v == is_video && t == track;
        let there = w == is_video && u == track;
        if !here {
            assert(m.has_clip(v, t, c));
            assert(after.clip(v, t, c) == m.clip(v, t, c));
        } else {
            assert(after.clip(v, t, c) == clips[c]);
        }
        if !there {
            assert(m.has_clip(w, u, d));
            assert(after.clip(w, u, d) == m.clip(w, u, d));
        } else {
            assert(after.clip(w, u, d) == clips[d]);
        }
        if here && there {
            if c < d {
                assert(clips[c].id != clips[d].id);
            } else if d < c {
                assert(clips[d].id != clips[c].id);
            }
        }
    }
    assert forall|v: bool, t: int| 0 <= t < after.lane(v).len() implies (#[trigger] after.lane(
        v,
    )[t]).id == m.lane(v)[t].id && t < m.lane(v).len() by {
        assert(v == is_video || v == !is_video);
    }
    assert forall|v: bool, t: int, w: bool, u: int|
        m.track_ids_unique() && 0 <= t < after.lane(v).len() && 0 <= u < after.lane(w).len() && (#[trigger] after.lane(
            v,
        )[t]).id == (#[trigger] after.lane(w)[u]).id implies v == w && t == u by {
        assert(after.lane(v)[t].id == m.lane(v)[t].id);
        assert(after.lane(w)[u].id == m.lane(w)[u].id);
    }
}

/// A new project has unique ids.
pub proof fn initial_ids_unique()
    ensures
        EditorModel::initial().clip_ids_unique(),
        EditorModel::initial().track_ids_unique(),
{
}

/// A split keeps the ids unique, and no id is lost.
pub proof fn split_keeps_ids(m: EditorModel, is_video: bool, track: int, clip: int, time: int)
    requires
        m.clip_ids_unique(),
        m.next_clip_id < usize::MAX,
    ensures
        m.razored(is_video, track, clip, time).clip_ids_unique(),
        m.track_ids_unique() ==> m.razored(is_video, track, clip, time).track_ids_unique(),
        forall|v: bool, t: int, c: int|
            m.has_clip(v, t, c) ==> !m.razored(is_video, track, clip, time).unused(
                (#[trigger] m.clip(v, t, c)).id,
            ),
{
    if m.razor_cuts(is_video, track, clip, time) {
        let before = m.lane(is_video)[track].clips;
        let clips = crate::editor::razor_clips(before, clip, time, m.next_clip_id);
        assert forall|i: int| 0 <= i < clips.len() implies (i == clip + 1 && (
        #[trigger] clips[i]).id == m.next_clip_id) || clips[i].id == m.clip(
            is_video,
            track,
            if i <= clip {
                i
            } else {
                i - 1
            },
        ).id by {}
        assert forall|i: int, j: int| 0 <= i < j < clips.len() implies (#[trigger] clips[i]).id
            != (#[trigger] clips[j]).id by {
            let a = m.clip(
                is_video,
                track,
                if i <= clip {
                    i
                } else {
                    i - 1
                },
            );
            let b = m.clip(
                is_video,
                track,
                if j <= clip {
                    j
                } else {
                    j - 1
                },
            );
        }
        lemma_replace_keeps_ids(m, m.razored(is_video, track, clip, time), is_video, track, clips);
    }
    let after = m.razored(is_video, track, clip, time);
    assert forall|v: bool, t: int, c: int| m.has_clip(v, t, c) implies !after.unused(
        (#[trigger] m.clip(v, t, c)).id,
    ) by {
        let d = if m.razor_cuts(is_video, track, clip, time) && v == is_video && t == track && c
            > clip {
            c + 1
        } else {
            c
        };
        assert(after.has_clip(v, t, d));
        assert(after.clip(v, t, d).id == m.clip(v, t, c).id);
    }
}

/// A ripple delete keeps the ids unique.
pub proof fn ripple_keeps_ids(m: EditorModel, is_video: bool, track: int, clip: int)
    requires
        m.clip_ids_unique(),
    ensures
        m.rippled(is_video, track, clip).clip_ids_unique(),
        m.track_ids_unique() ==> m.rippled(is_video, track, clip).track_ids_unique(),
{
    if m.has_clip(is_video, track, clip) {
        let clips = crate::editor::ripple_clips(m.lane(is_video)[track].clips, clip);
        assert forall|i: int| 0 <= i < clips.len() implies (#[trigger] clips[i]).id == m.clip(
            is_video,
            track,
            if i < clip {
                i
            } else {
                i + 1
            },
        ).id by {}
        lemma_replace_keeps_ids(m, m.rippled(is_video, track, clip), is_video, track, clips);
    }
}

/// A duplication keeps the ids unique.
pub proof fn duplicate_keeps_ids(m: EditorModel, is_video: bool, track: int, clip: int)
    requires
        m.clip_ids_unique(),
        m.next_clip_id < usize::MAX,
    ensures
        m.duplicated(is_video, track, clip).clip_ids_unique(),
        m.track_ids_unique() ==> m.duplicated(is_video, track, clip).track_ids_unique(),
{
    if m.has_clip(is_video, track, clip) {
        let before = m.lane(is_video)[track].clips;
        let clips = crate::editor::duplicate_clips(before, clip, m.next_clip_id);
        let c = before[clip];
        let start = crate::editor::earliest_free(
            before,
            c.timeline_end as int,
            c.length(),
            usize::MAX,
        );
        let all = before.push(Clip { id: m.next_clip_id, ..c.moved_to(start) });
        assert(all.drop_last() =~= before);
        lemma_push_keeps_ids(m, m.duplicated(is_video, track, clip), is_video, track, all);
    }
}

/// As above, for clips that are sorted after one was added.
proof fn lemma_push_keeps_ids(
    m: EditorModel,
    after: EditorModel,
    is_video: bool,
    track: int,
    all: Seq<Clip>,
)
    requires
        m.clip_ids_unique(),
        0 <= track < m.lane(is_video).len(),
        all.len() == m.lane(is_video)[track].clips.len() + 1,
        all.drop_last() == m.lane(is_video)[track].clips,
        m.unused(all.last().id),
        all.last().id < after.next_clip_id,
        m.next_clip_id <= after.next_clip_id,
        after.lane(is_video) == crate::editor::with_clips(
            m.lane(is_video),
            track,
            crate::editor::sorted_by_start(all),
        ),
        after.lane(!is_video) == m.lane(!is_video),
        after.next_track_id == m.next_track_id,
    ensures
        after.clip_ids_unique(),
        m.track_ids_unique() ==> after.track_ids_unique(),
{
    let before = m.lane(is_video)[track].clips;
    let clips = crate::editor::sorted_by_start(all);
    let rel = |a: Clip, b: Clip| a.id != b.id;
    assert forall|i: int| 0 <= i < before.len() implies #[trigger] all[i] == m.clip(
        is_video,
        track,
        i,
    ) && m.has_clip(is_video, track, i) by {
        assert(all.drop_last()[i] == all[i]);
    }
    assert forall|i: int, j: int| 0 <= i < j < all.len() implies rel(
        #[trigger] all[i],
        #[trigger] all[j],
    ) by {
        let a = m.clip(is_video, track, i);
        let b = m.clip(is_video, track, j);
    }
    lemma_sorted_pairwise(all, rel);
    lemma_sorted_members(all);
    assert forall|i: int, j: int| 0 <= i < j < clips.len() implies (#[trigger] clips[i]).id != (
    #[trigger] clips[j]).id by {
        assert(rel(clips[i], clips[j]));
    }
    assert forall|i: int| 0 <= i < clips.len() implies ((#[trigger] clips[i]).id
        < after.next_clip_id && m.unused(clips[i].id)) || exists|k: int|
        m.has_clip(is_video, track, k) && clips[i].id == (#[trigger] m.clip(
            is_video,
            track,
            k,
        )).id by {
        assert(all.contains(clips[i]));
        let h = choose|h: int| 0 <= h < all.len() && all[h] == clips[i];
        if h < before.len() {
            assert(m.has_clip(is_video, track, h));
            assert(clips[i].id == m.clip(is_video, track, h).id);
        }
    }
    lemma_replace_keeps_ids(m, after, is_video, track, clips);
}

/// Removing the selected clip keeps the ids unique.
pub proof fn delete_keeps_ids(m: EditorModel)
    requires
        m.clip_ids_unique(),
    ensures
        m.selection_deleted().clip_ids_unique(),
        m.track_ids_unique() ==> m.selection_deleted().track_ids_unique(),
{
    if let Some((is_video, track, clip)) = m.selected_clip {
        if m.has_clip(is_video, track as int, clip as int) {
            let clips = m.lane(is_video)[track as int].clips.remove(clip as int);
            assert forall|i: int| 0 <= i < clips.len() implies (#[trigger] clips[i]) == m.clip(
                is_video,
                track as int,
                if i < clip {
                    i
                } else {
                    i + 1
                },
            ) by {}
            lemma_replace_keeps_ids(m, m.selection_deleted(), is_video, track as int, clips);
        }
    }
}

/// Adding a track keeps the ids unique.
pub proof fn add_track_keeps_ids(m: EditorModel, is_video: bool)
    requires
        m.clip_ids_unique(),
        m.next_track_id < usize::MAX,
    ensures
        m.track_added(is_video).clip_ids_unique(),
        m.track_ids_unique() ==> m.track_added(is_video).track_ids_unique(),
{
    let after = m.track_added(is_video);
    assert forall|v: bool, t: int, c: int| after.has_clip(v, t, c) implies m.has_clip(v, t, c)
        && #[trigger] after.clip(v, t, c) == m.clip(v, t, c) by {}
    assert forall|v: bool, t: int|
        0 <= t < after.lane(v).len() && !(v == is_video && t == m.lane(is_video).len()) implies t
        < m.lane(v).len() && #[trigger] after.lane(v)[t] == m.lane(v)[t] by {}
}

/// Removing a track keeps the ids unique.
pub proof fn delete_track_keeps_ids(m: EditorModel, is_video: bool, track: int)
    requires
        m.clip_ids_unique(),
        0 <= track < m.lane(is_video).len(),
    ensures
        m.track_deleted(is_video, track).clip_ids_unique(),
        m.track_ids_unique() ==> m.track_deleted(is_video, track).track_ids_unique(),
{
    let after = m.track_deleted(is_video, track);
    assert forall|v: bool, t: int| 0 <= t < after.lane(v).len() implies #[trigger] after.lane(v)[t]
        == m.lane(v)[if v == is_video && t >= track {
        t + 1
    } else {
        t
    }] by {}
    assert forall|v: bool, t: int, c: int| after.has_clip(v, t, c) implies {
        let u = if v == is_video && t >= track {
            t + 1
        } else {
            t
        };
        m.has_clip(v, u, c) && #[trigger] after.clip(v, t, c) == m.clip(v, u, c)
    } by {
        assert(after.lane(v)[t] == m.lane(v)[if v == is_video && t >= track {
            t + 1
        } else {
            t
        }]);
    }
}

/// Placing an asset keeps the ids unique.
pub proof fn place_keeps_ids(m: EditorModel, asset: crate::media::MediaAsset)
    requires
        m.clip_ids_unique(),
        m.next_clip_id < usize::MAX,
        m.next_track_id < usize::MAX,
    ensures
        m.asset_placed(asset).clip_ids_unique(),
        m.track_ids_unique() ==> m.asset_placed(asset).track_ids_unique(),
{
    let is_video = asset.is_video;
    let base = if m.lane(is_video).len() == 0 {
        add_track_keeps_ids(m, is_video);
        m.track_added(is_video)
    } else {
        m
    };
    let clips = base.lane(is_video)[0].clips.push(m.whole_clip(asset));
    assert forall|i: int| 0 <= i < clips.len() - 1 implies (#[trigger] clips[i]) == base.clip(
        is_video,
        0,
        i,
    ) && base.has_clip(is_video, 0, i) by {}
    lemma_replace_keeps_ids(base, m.asset_placed(asset), is_video, 0, clips);
}

// Dragging

/// Moving a clip keeps the ids unique.
pub proof fn move_keeps_ids(m: EditorModel, is_video: bool, track: int, clip: int, to: int, start: int)
    requires
        m.clip_ids_unique(),
        m.has_clip(is_video, track, clip),
        0 <= to < m.lane(is_video).len(),
    ensures
        m.clip_moved(is_video, track, clip, to, start).clip_ids_unique(),
        m.track_ids_unique() ==> m.clip_moved(is_video, track, clip, to, start).track_ids_unique(),
{
    let tracks = m.lane(is_video);
    let c = tracks[track].clips[clip];
    let rest = tracks[track].clips.remove(clip);
    let left = m.with_lane(is_video, crate::editor::with_clips(tracks, track, rest));
    assert forall|i: int| 0 <= i < rest.len() implies (#[trigger] rest[i]) == m.clip(
        is_video,
        track,
        if i < clip {
            i
        } else {
            i + 1
        },
    ) by {}
    lemma_replace_keeps_ids(m, left, is_video, track, rest);
    assert forall|v: bool, t: int, i: int| left.has_clip(v, t, i) implies (#[trigger] left.clip(
        v,
        t,
        i,
    )).id != c.id by {
        let k = if v == is_video && t == track && i >= clip {
            i + 1
        } else {
            i
        };
        assert(m.has_clip(v, t, k));
        assert(left.clip(v, t, i) == m.clip(v, t, k));
        assert(m.clip(is_video, track, clip) == c);
    }
    assert(m.clip(is_video, track, clip).id < m.next_clip_id);
    let all = left.lane(is_video)[to].clips.push(c.moved_to(start));
    assert(all.drop_last() =~= left.lane(is_video)[to].clips);
    lemma_push_keeps_ids(
        left,
        m.clip_moved(is_video, track, clip, to, start),
        is_video,
        to,
        all,
    );
}

/// A move makes no clips overlap: neither on the track that the clip leaves nor on the one
/// where it comes to stand.
pub proof fn move_keeps_disjoint(
    m: EditorModel,
    is_video: bool,
    track: int,
    clip: int,
    to: int,
    desired: int,
    start: int,
    t: int,
)
    requires
        m.clip_ids_unique(),
        m.has_clip(is_video, track, clip),
        0 <= to < m.lane(is_video).len(),
        0 <= t < m.lane(is_video).len(),
        disjoint(m.lane(is_video)[track].clips),
        disjoint(m.lane(is_video)[to].clips),
        disjoint(m.lane(is_video)[t].clips),
        ({
            let c = m.clip(is_video, track, clip);
            &&& crate::drag::placed(
                m.lane(is_video)[to].clips,
                c.id,
                c.length(),
                desired,
                c.timeline_start as int,
            ) == Some(start)
            &&& crate::editor::is_time(start)
            &&& crate::editor::is_time(start + c.length())
        }),
    ensures
        disjoint(m.clip_moved(is_video, track, clip, to, start).lane(is_video)[t].clips),
        t == to ==> in_order(m.clip_moved(is_video, track, clip, to, start).lane(is_video)[t].clips),
{
    let tracks = m.lane(is_video);
    let c = tracks[track].clips[clip];
    let rest = tracks[track].clips.remove(clip);
    let left = crate::editor::with_clips(tracks, track, rest);
    let target = tracks[to].clips;
    assert forall|i: int, j: int| 0 <= i < j < rest.len() implies apart(
        #[trigger] rest[i],
        #[trigger] rest[j],
    ) by {
        let a = if i < clip {
            i
        } else {
            i + 1
        };
        let b = if j < clip {
            j
        } else {
            j + 1
        };
        assert(apart(tracks[track].clips[a], tracks[track].clips[b]));
    }
    let moved = c.moved_to(start);
    let all = left[to].clips.push(moved);
    let rel = |a: Clip, b: Clip| apart(a, b);
    crate::drag::placing_never_overlaps(
        target,
        c.id,
        c.length(),
        desired,
        c.timeline_start as int,
    );
    assert forall|i: int| 0 <= i < left[to].clips.len() implies apart(
        #[trigger] left[to].clips[i],
        moved,
    ) by {
        let k = if to == track && i >= clip {
            i + 1
        } else {
            i
        };
        assert(left[to].clips[i] == target[k]);
        assert(m.has_clip(is_video, to, k));
        assert(m.clip(is_video, to, k) == target[k]);
        assert(m.clip(is_video, track, clip) == c);
        assert(target[k].id != c.id);
        assert(!target[k].meets(start, start + c.length()));
    }
    assert(disjoint(left[to].clips));
    assert forall|i: int, j: int| 0 <= i < j < all.len() implies rel(
        #[trigger] all[i],
        #[trigger] all[j],
    ) by {
        if j == left[to].clips.len() {
            assert(all[i] == left[to].clips[i]);
        } else {
            assert(apart(left[to].clips[i], left[to].clips[j]));
        }
    }
    lemma_sorted_pairwise(all, rel);
    let after = crate::editor::sorted_by_start(all);
    assert forall|i: int, j: int| 0 <= i < j < after.len() implies apart(
        #[trigger] after[i],
        #[trigger] after[j],
    ) by {
        assert(rel(after[i], after[j]));
    }
    sorting_orders(all);
}

impl EditorModel {
    /// Whether no two clips of any track overlap.
    pub open spec fn nothing_overlaps(self) -> bool {
        forall|v: bool, t: int|
            0 <= t < self.lane(v).len() ==> disjoint((#[trigger] self.lane(v)[t]).clips)
    }
}

proof fn lemma_located(m: EditorModel, id: usize)
    ensures
        m.located(id) matches Some((v, t, i)) ==> m.has_clip(v, t, i) && m.clip(v, t, i).id == id,
{
    lemma_located_in(m.video_tracks, id, 0);
    lemma_located_in(m.audio_tracks, id, 0);
}

proof fn lemma_located_in(tracks: Seq<crate::editor::TrackModel>, id: usize, from: int)
    requires
        0 <= from <= tracks.len(),
    ensures
        crate::drag::located_in(tracks, id, from) matches Some((t, i)) ==> 0 <= t < tracks.len()
            && 0 <= i < tracks[t].clips.len() && tracks[t].clips[i].id == id,
    decreases tracks.len() - from,
{
    if from < tracks.len() {
        crate::search::first_where_is_first(tracks[from].clips, crate::drag::with_id(id));
        lemma_located_in(tracks, id, from + 1);
    }
}

/// Wherever a clip is dragged, no two clips overlap afterwards if none did before.
pub proof fn dragging_a_clip_never_overlaps(
    m: EditorModel,
    canvas: crate::layout::Canvas,
    drag: crate::drag::DragState,
    p: crate::layout::Point,
)
    requires
        drag is ClipMove,
        m.clip_ids_unique(),
        m.drag_fits(canvas, drag, p),
        m.nothing_overlaps(),
    ensures
        m.dragged(canvas, drag, p).nothing_overlaps(),
{
    let after = m.dragged(canvas, drag, p);
    if let crate::drag::DragState::ClipMove {
        clip_id,
        is_video,
        drag_start_mouse_x,
        drag_start_clip_start,
        ..
    } = drag {
        let target = m.move_target(
            canvas,
            clip_id,
            is_video,
            drag_start_mouse_x as int,
            drag_start_clip_start as int,
            p,
        );
        if let Some((track, clip, to, start)) = target {
            lemma_located(m, clip_id);
            let c = m.clip(is_video, track, clip);
            let wanted = drag_start_clip_start + crate::layout::width_as_time(
                p.x - drag_start_mouse_x,
                m.zoom_factor as int,
            );
            let desired = m.snapped_start(clip_id, wanted, c.length());
            assert(0 <= to);
            assert forall|v: bool, t: int| 0 <= t < after.lane(v).len() implies disjoint(
                (#[trigger] after.lane(v)[t]).clips,
            ) by {
                if v == is_video {
                    assert(disjoint(m.lane(v)[track].clips));
                    assert(disjoint(m.lane(v)[to].clips));
                    assert(disjoint(m.lane(v)[t].clips));
                    move_keeps_disjoint(m, is_video, track, clip, to, desired, start, t);
                } else {
                    assert(after.lane(v) == m.lane(v));
                }
            }
        }
    }
}

/// A move changes neither how long the clip plays nor which part of its source.
pub proof fn move_keeps_the_clip(c: Clip, start: int)
    requires
        crate::editor::is_time(start),
        crate::editor::is_time(start + c.length()),
    ensures
        c.moved_to(start).length() == c.length(),
        c.moved_to(start).source_trim_start == c.source_trim_start,
        c.moved_to(start).source_trim_end == c.source_trim_end,
        c.moved_to(start).id == c.id,
        forall|t: int|
            #[trigger] c.moved_to(start).source_at(t) == c.source_at(
                t - start + c.timeline_start,
            ),
{
}

/// A trim at the left leaves the shortest clip or more, does not begin before the source,
/// plays at each instant what was played there, and makes no clips overlap.
pub proof fn trim_left_keeps(
    m: EditorModel,
    is_video: bool,
    dx: int,
    track: int,
    clip: int,
    start: int,
)
    requires
        m.has_clip(is_video, track, clip),
        ({
            let c = m.clip(is_video, track, clip);
            &&& m.trim_left_target(
                c.id,
                is_video,
                dx,
                c.timeline_start as int,
                c.timeline_end as int,
                c.source_trim_start as int,
            ) == Some((track, clip, start))
            &&& c.length() >= crate::drag::MIN_CLIP
            &&& c.source_trim_start >= 0
        }),
        disjoint(m.lane(is_video)[track].clips),
        in_order(m.lane(is_video)[track].clips),
        all_play(m.lane(is_video)[track].clips),
    ensures
        ({
            let c = m.clip(is_video, track, clip);
            let trimmed = Clip {
                timeline_start: start as i64,
                source_trim_start: (c.source_trim_start + (start - c.timeline_start)) as i64,
                ..c
            };
            crate::editor::is_time(c.source_trim_start + (start - c.timeline_start)) ==> {
                &&& trimmed.length() >= crate::drag::MIN_CLIP
                &&& trimmed.source_trim_start >= 0
                &&& forall|t: int| #[trigger] trimmed.source_at(t) == c.source_at(t)
                &&& disjoint(m.lane(is_video)[track].clips.update(clip, trimmed))
                &&& in_order(m.lane(is_video)[track].clips.update(clip, trimmed))
            }
        }),
{
    let clips = m.lane(is_video)[track].clips;
    let c = clips[clip];
    let trimmed = Clip {
        timeline_start: start as i64,
        source_trim_start: (c.source_trim_start + (start - c.timeline_start)) as i64,
        ..c
    };
    let after = clips.update(clip, trimmed);
    assert forall|i: int| 0 <= i < clip implies (#[trigger] clips[i]).timeline_end <= start
        && clips[i].timeline_start <= start by {
        assert(m.clip(is_video, track, clip - 1) == clips[clip - 1]);
        assert(clips[i].length() > 0);
        assert(clips[clip - 1].length() > 0);
        if i < clip - 1 {
            assert(apart(clips[i], clips[clip - 1]));
            assert(clips[i].timeline_start <= clips[clip - 1].timeline_start);
        }
    }
    assert forall|i: int| clip < i < clips.len() implies (#[trigger] clips[i]).timeline_start
        >= c.timeline_end by {
        assert(apart(clips[clip], clips[i]));
        assert(clips[clip].timeline_start <= clips[i].timeline_start);
        assert(clips[i].length() > 0);
    }
    assert forall|i: int, j: int| 0 <= i < j < after.len() implies apart(
        #[trigger] after[i],
        #[trigger] after[j],
    ) && after[i].timeline_start <= after[j].timeline_start by {
        assert(apart(clips[i], clips[j]));
        assert(clips[i].timeline_start <= clips[j].timeline_start);
    }
}

/// A trim at the right leaves the shortest clip or more, does not end behind the source,
/// plays at each instant what was played there, and makes no clips overlap.
pub proof fn trim_right_keeps(
    m: EditorModel,
    is_video: bool,
    dx: int,
    track: int,
    clip: int,
    end: int,
)
    requires
        m.has_clip(is_video, track, clip),
        ({
            let c = m.clip(is_video, track, clip);
            &&& m.trim_right_target(
                c.id,
                is_video,
                dx,
                c.timeline_start as int,
                c.timeline_end as int,
                c.source_trim_end as int,
            ) == Some((track, clip, end))
            &&& c.length() >= crate::drag::MIN_CLIP
            &&& c.source_trim_end <= m.source_length(c)
        }),
        disjoint(m.lane(is_video)[track].clips),
        in_order(m.lane(is_video)[track].clips),
        all_play(m.lane(is_video)[track].clips),
    ensures
        ({
            let c = m.clip(is_video, track, clip);
            let trimmed = Clip {
                timeline_end: end as i64,
                source_trim_end: (c.source_trim_end + (end - c.timeline_end)) as i64,
                ..c
            };
            crate::editor::is_time(end) && crate::editor::is_time(
                c.source_trim_end + (end - c.timeline_end),
            ) ==> {
                &&& trimmed.length() >= crate::drag::MIN_CLIP
                &&& trimmed.source_trim_end <= m.source_length(c)
                &&& forall|t: int| #[trigger] trimmed.source_at(t) == c.source_at(t)
                &&& disjoint(m.lane(is_video)[track].clips.update(clip, trimmed))
                &&& in_order(m.lane(is_video)[track].clips.update(clip, trimmed))
            }
        }),
{
    let clips = m.lane(is_video)[track].clips;
    let c = clips[clip];
    let trimmed = Clip {
        timeline_end: end as i64,
        source_trim_end: (c.source_trim_end + (end - c.timeline_end)) as i64,
        ..c
    };
    let after = clips.update(clip, trimmed);
    assert forall|i: int| clip < i < clips.len() implies (#[trigger] clips[i]).timeline_start
        >= end by {
        assert(m.clip(is_video, track, clip + 1) == clips[clip + 1]);
        if i > clip + 1 {
            assert(clips[clip + 1].timeline_start <= clips[i].timeline_start);
        }
    }
    assert forall|i: int| 0 <= i < clip implies (#[trigger] clips[i]).timeline_end
        <= c.timeline_start by {
        assert(apart(clips[i], clips[clip]));
        assert(clips[i].timeline_start <= clips[clip].timeline_start);
        assert(clips[i].length() > 0);
    }
    assert forall|i: int, j: int| 0 <= i < j < after.len() implies apart(
        #[trigger] after[i],
        #[trigger] after[j],
    ) && after[i].timeline_start <= after[j].timeline_start by {
        assert(apart(clips[i], clips[j]));
        assert(clips[i].timeline_start <= clips[j].timeline_start);
    }
}

} // verus!
