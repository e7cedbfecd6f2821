//! What the edits of the timeline promise.

use crate::editor::{Clip, EditTool, EditorModel, TrackModel};
use crate::media::MediaAsset;
use vstd::prelude::*;

verus! {

/// The tracks of a lane.
pub open spec fn tracks_of(m: EditorModel, is_video: bool) -> Seq<TrackModel> {
    if is_video {
        m.video_tracks
    } else {
        m.audio_tracks
    }
}

/// The clips of a track.
pub open spec fn clips_of(m: EditorModel, is_video: bool, track: int) -> Seq<Clip> {
    tracks_of(m, is_video)[track].clips
}

/// How many tracks a lane has.
pub open spec fn count_of(m: EditorModel, is_video: bool) -> int {
    tracks_of(m, is_video).len() as int
}

/// Whether two tracks agree in everything but their clips.
pub open spec fn same_header(a: TrackModel, b: TrackModel) -> bool {
    &&& a.id == b.id
    &&& a.name == b.name
    &&& a.is_video == b.is_video
    &&& a.is_muted == b.is_muted
    &&& a.is_hidden == b.is_hidden
    &&& a.is_solo == b.is_solo
    &&& a.volume == b.volume
}

/// Whether two states agree in everything but their tracks, the selection and the next ids.
pub open spec fn same_view(a: EditorModel, b: EditorModel) -> bool {
    &&& a.assets == b.assets
    &&& a.playhead == b.playhead
    &&& a.is_playing == b.is_playing
    &&& a.selected_tool == b.selected_tool
    &&& a.zoom_factor == b.zoom_factor
    &&& a.scroll_offset == b.scroll_offset
}

/// Whether two states agree in everything but the clips of one track, the selection and the
/// next clip id.
pub open spec fn same_elsewhere(a: EditorModel, b: EditorModel, is_video: bool, track: int) -> bool {
    &&& same_view(a, b)
    &&& a.next_track_id == b.next_track_id
    &&& a.video_tracks.len() == b.video_tracks.len()
    &&& a.audio_tracks.len() == b.audio_tracks.len()
    &&& forall|k: int|
        #![trigger a.video_tracks[k]]
        #![trigger b.video_tracks[k]]
        0 <= k < a.video_tracks.len() ==> same_header(a.video_tracks[k], b.video_tracks[k]) && (
        is_video && k == track || a.video_tracks[k].clips == b.video_tracks[k].clips)
    &&& forall|k: int|
        #![trigger a.audio_tracks[k]]
        #![trigger b.audio_tracks[k]]
        0 <= k < a.audio_tracks.len() ==> same_header(a.audio_tracks[k], b.audio_tracks[k]) && (
        !is_video && k == track || a.audio_tracks[k].clips == b.audio_tracks[k].clips)
}

// Splitting

/// A cut inside a clip leaves its first part under the old id, up to the cut and with the
/// fade-in, and puts the second part behind it under the next id, from the cut on and with
/// the fade-out. Both play the same asset, and the second begins in the source where the first
/// ends. All other clips keep their order, and nothing else changes but the selection, which
/// is dropped.
pub proof fn a_cut_splits_one_clip(
    m: EditorModel,
    is_video: bool,
    track: int,
    clip: int,
    time: int,
)
    requires
        0 <= track < count_of(m, is_video),
        0 <= clip < clips_of(m, is_video, track).len(),
        m.next_clip_id < usize::MAX,
        ({
            let c = clips_of(m, is_video, track)[clip];
            &&& c.timeline_start < time < c.timeline_end
            &&& i64::MIN <= c.source_trim_start + (time - c.timeline_start) <= i64::MAX
        }),
    ensures
        ({
            let after = m.razored(is_video, track, clip, time);
            let old_clips = clips_of(m, is_video, track);
            let new_clips = clips_of(after, is_video, track);
            let c = old_clips[clip];
            let first = new_clips[clip];
            let second = new_clips[clip + 1];
            &&& same_elsewhere(m, after, is_video, track)
            &&& after.selected_clip is None
            &&& after.next_clip_id == m.next_clip_id + 1
            &&& new_clips.len() == old_clips.len() + 1
            &&& forall|i: int| 0 <= i < clip ==> #[trigger] new_clips[i] == old_clips[i]
            &&& forall|i: int|
                clip < i < old_clips.len() ==> new_clips[i + 1] == #[trigger] old_clips[i]
            &&& first.id == c.id
            &&& first.asset_id == c.asset_id
            &&& first.timeline_start == c.timeline_start
            &&& first.timeline_end == time
            &&& first.source_trim_start == c.source_trim_start
            &&& first.source_trim_end - first.source_trim_start == time - c.timeline_start
            &&& first.fade_in_duration == c.fade_in_duration
            &&& first.fade_out_duration == 0
            &&& second.id == m.next_clip_id
            &&& second.asset_id == c.asset_id
            &&& second.timeline_start == time
            &&& second.timeline_end == c.timeline_end
            &&& second.source_trim_start == first.source_trim_end
            &&& second.source_trim_end == c.source_trim_end
            &&& second.fade_in_duration == 0
            &&& second.fade_out_duration == c.fade_out_duration
        }),
{
}

/// A cut that falls inside no clip changes nothing.
pub proof fn a_cut_beside_a_clip_does_nothing(
    m: EditorModel,
    is_video: bool,
    track: int,
    clip: int,
    time: int,
)
    requires
        0 <= track < count_of(m, is_video) && 0 <= clip < clips_of(m, is_video, track).len()
            ==> time <= clips_of(m, is_video, track)[clip].timeline_start || time >= clips_of(
            m,
            is_video,
            track,
        )[clip].timeline_end,
    ensures
        m.razored(is_video, track, clip, time) == m,
{
}

// Ripple delete

/// A ripple delete takes the clip out. Every clip of the track that began at its end or later,
/// up to a nanosecond, begins and ends earlier by its length, with the same part of its
/// source; the others stay. Nothing else changes but the selection, which is dropped.
pub proof fn a_ripple_delete_closes_the_gap(
    m: EditorModel,
    is_video: bool,
    track: int,
    clip: int,
    other: int,
)
    requires
        0 <= track < count_of(m, is_video),
        0 <= clip < clips_of(m, is_video, track).len(),
        0 <= other < clips_of(m, is_video, track).len(),
        other != clip,
        ({
            let gone = clips_of(m, is_video, track)[clip];
            let gap = gone.timeline_end - gone.timeline_start;
            let c = clips_of(m, is_video, track)[other];
            c.timeline_start >= gone.timeline_end - 1 ==> i64::MIN <= c.timeline_start - gap
                <= i64::MAX && i64::MIN <= c.timeline_end - gap <= i64::MAX
        }),
    ensures
        ({
            let after = m.rippled(is_video, track, clip);
            let old_clips = clips_of(m, is_video, track);
            let new_clips = clips_of(after, is_video, track);
            let gone = old_clips[clip];
            let gap = gone.timeline_end - gone.timeline_start;
            let c = old_clips[other];
            let moved = new_clips[if other < clip {
                other
            } else {
                other - 1
            }];
            let by = if c.timeline_start >= gone.timeline_end - 1 {
                gap
            } else {
                0
            };
            &&& same_elsewhere(m, after, is_video, track)
            &&& after.selected_clip is None
            &&& after.next_clip_id == m.next_clip_id
            &&& new_clips.len() == old_clips.len() - 1
            &&& moved.timeline_start == c.timeline_start - by
            &&& moved.timeline_end == c.timeline_end - by
            &&& moved.id == c.id
            &&& moved.asset_id == c.asset_id
            &&& moved.source_trim_start == c.source_trim_start
            &&& moved.source_trim_end == c.source_trim_end
            &&& moved.fade_in_duration == c.fade_in_duration
            &&& moved.fade_out_duration == c.fade_out_duration
        }),
{
}

/// A ripple delete of the only clip leaves the track empty, and one of no clip changes
/// nothing.
pub proof fn a_ripple_delete_takes_out_one_clip(
    m: EditorModel,
    is_video: bool,
    track: int,
    clip: int,
)
    ensures
        ({
            let after = m.rippled(is_video, track, clip);
            if 0 <= track < count_of(m, is_video) && 0 <= clip < clips_of(
                m,
                is_video,
                track,
            ).len() {
                &&& same_elsewhere(m, after, is_video, track)
                &&& after.selected_clip is None
                &&& after.next_clip_id == m.next_clip_id
                &&& clips_of(after, is_video, track).len() == clips_of(m, is_video, track).len() - 1
            } else {
                after == m
            }
        }),
{
}

// Duplication

/// Whether a stretch that begins at `start` meets none of the clips. Clips with the largest
/// id do not count.
pub open spec fn is_clear(clips: Seq<Clip>, start: int, length: int) -> bool {
    forall|i: int|
        0 <= i < clips.len() && (#[trigger] clips[i]).id != usize::MAX ==> clips[i].timeline_end
            <= start || start + length <= clips[i].timeline_start
}

/// Whether a stretch that begins at `start` meets none of the clips but those with the given
/// id.
pub open spec fn is_clear_but_for(clips: Seq<Clip>, id: usize, start: int, length: int) -> bool {
    forall|i: int|
        0 <= i < clips.len() && (#[trigger] clips[i]).id != id ==> clips[i].timeline_end <= start
            || start + length <= clips[i].timeline_start
}

/// The first free place is free, not before zero or where it is sought from, and no place
/// between is free.
pub proof fn the_first_free_place_is_the_first(
    clips: Seq<Clip>,
    from: int,
    length: int,
    id: usize,
    start: int,
    t: int,
)
    requires
        crate::editor::is_earliest_free(clips, from, length, id, start),
    ensures
        start >= from,
        start >= 0,
        is_clear_but_for(clips, id, start, length),
        from <= t < start && t >= 0 ==> !is_clear_but_for(clips, id, t, length),
{
    assert forall|i: int| 0 <= i < clips.len() && (#[trigger] clips[i]).id != id implies clips[
    i].timeline_end <= start || start + length <= clips[i].timeline_start by {
        assert(!clips[i].meets(start, start + length));
    }
    if from <= t < start && t >= 0 {
        assert(!crate::editor::is_free(clips, id, t, length));
        let i = choose|i: int|
            0 <= i < clips.len() && (#[trigger] clips[i]).id != id && clips[i].meets(
                t,
                t + length,
            );
        assert(!(clips[i].timeline_end <= t || t + length <= clips[i].timeline_start));
    }
}

/// A duplication adds one clip to the track, under the next id: it plays the same stretch of
/// the same asset as its model, as long and with the same fades, and begins at the first
/// place behind its model where it meets no clip. The clips that were there stay as they are,
/// and all stand in the order in which they begin. Nothing else changes but the selection,
/// which is dropped.
pub proof fn a_copy_plays_what_its_model_plays(
    m: EditorModel,
    is_video: bool,
    track: int,
    clip: int,
) -> (place: int)
    requires
        0 <= track < count_of(m, is_video),
        0 <= clip < clips_of(m, is_video, track).len(),
        m.next_clip_id < usize::MAX,
        ({
            let c = clips_of(m, is_video, track)[clip];
            let length = c.timeline_end - c.timeline_start;
            forall|start: int|
                start >= c.timeline_end && #[trigger] is_clear(
                    clips_of(m, is_video, track),
                    start,
                    length,
                ) && (forall|t: int|
                    c.timeline_end <= t < start && t >= 0 ==> !#[trigger] is_clear(
                        clips_of(m, is_video, track),
                        t,
                        length,
                    )) ==> i64::MIN <= start + length <= i64::MAX
        }),
    ensures
        ({
            let after = m.duplicated(is_video, track, clip);
            let old_clips = clips_of(m, is_video, track);
            let new_clips = clips_of(after, is_video, track);
            let c = old_clips[clip];
            let length = c.timeline_end - c.timeline_start;
            let copy = new_clips[place];
            &&& same_elsewhere(m, after, is_video, track)
            &&& after.selected_clip is None
            &&& after.next_clip_id == m.next_clip_id + 1
            &&& 0 <= place < new_clips.len()
            &&& new_clips.len() == old_clips.len() + 1
            &&& new_clips.remove(place).to_multiset() == old_clips.to_multiset()
            &&& forall|i: int, j: int|
                0 <= i < j < new_clips.len() ==> (#[trigger] new_clips[i]).timeline_start <= (
                #[trigger] new_clips[j]).timeline_start
            &&& copy.id == m.next_clip_id
            &&& copy.asset_id == c.asset_id
            &&& copy.source_trim_start == c.source_trim_start
            &&& copy.source_trim_end == c.source_trim_end
            &&& copy.fade_in_duration == c.fade_in_duration
            &&& copy.fade_out_duration == c.fade_out_duration
            &&& copy.timeline_end - copy.timeline_start == length
            &&& copy.timeline_start >= c.timeline_end
            &&& copy.timeline_start >= 0
            &&& is_clear(old_clips, copy.timeline_start as int, length)
            &&& forall|t: int|
                c.timeline_end <= t < copy.timeline_start && t >= 0 ==> !#[trigger] is_clear(
                    old_clips,
                    t,
                    length,
                )
        }),
{
    let old_clips = clips_of(m, is_video, track);
    let c = old_clips[clip];
    let length = c.timeline_end - c.timeline_start;
    let after = m.duplicated(is_video, track, clip);
    let new_clips = clips_of(after, is_video, track);
    crate::editor::a_free_place_exists(old_clips, c.timeline_end as int, length, usize::MAX);
    let start = crate::editor::earliest_free(old_clips, c.timeline_end as int, length, usize::MAX);
    assert forall|t: int|
        #![trigger is_clear(old_clips, t, length)]
        #![trigger crate::editor::is_free(old_clips, usize::MAX, t, length)]
        is_clear(old_clips, t, length) == crate::editor::is_free(
        old_clips,
        usize::MAX,
        t,
        length,
    ) by {
        if is_clear(old_clips, t, length) {
            assert forall|i: int|
                0 <= i < old_clips.len() && (#[trigger] old_clips[i]).id
                    != usize::MAX implies !old_clips[i].meets(t, t + length) by {}
        } else {
            let i = choose|i: int|
                0 <= i < old_clips.len() && (#[trigger] old_clips[i]).id != usize::MAX && !(
                old_clips[i].timeline_end <= t || t + length <= old_clips[i].timeline_start);
            assert(old_clips[i].meets(t, t + length));
        }
    }
    assert(is_clear(old_clips, start, length));
    assert forall|t: int|
        c.timeline_end <= t < start && t >= 0 implies !#[trigger] is_clear(
        old_clips,
        t,
        length,
    ) by {
        assert(!crate::editor::is_free(old_clips, usize::MAX, t, length));
    }
    assert(i64::MIN <= start + length <= i64::MAX);
    let copy = Clip {
        id: m.next_clip_id,
        timeline_start: start as i64,
        timeline_end: (start + length) as i64,
        ..c
    };
    let all = old_clips.push(copy);
    assert(new_clips == crate::editor::sorted_by_start(all));
    crate::invariants::sorting_orders(all);
    crate::invariants::sorting_permutes(all);
    all.to_multiset_ensures();
    new_clips.to_multiset_ensures();
    old_clips.to_multiset_ensures();
    assert(all[all.len() - 1] == copy);
    assert(all.contains(copy));
    assert(all.to_multiset().count(copy) > 0);
    assert(new_clips.contains(copy));
    let place = choose|k: int| 0 <= k < new_clips.len() && new_clips[k] == copy;
    assert(new_clips.remove(place).to_multiset() =~= old_clips.to_multiset());
    place
}

/// A duplication of no clip changes nothing.
pub proof fn a_copy_of_nothing_is_nothing(m: EditorModel, is_video: bool, track: int, clip: int)
    requires
        !(0 <= track < count_of(m, is_video) && 0 <= clip < clips_of(m, is_video, track).len()),
    ensures
        m.duplicated(is_video, track, clip) == m,
{
}

// Deleting and adding

/// Deleting the selected clip takes that clip out and drops the selection; the other clips
/// and everything else stay. Where nothing is selected, or no clip stands there, nothing
/// changes.
pub proof fn only_the_selected_clip_is_deleted(m: EditorModel)
    ensures
        ({
            let after = m.selection_deleted();
            match m.selected_clip {
                Some((is_video, track, clip)) => if track < count_of(m, is_video) && clip
                    < clips_of(m, is_video, track as int).len() {
                    let old_clips = clips_of(m, is_video, track as int);
                    let new_clips = clips_of(after, is_video, track as int);
                    &&& same_elsewhere(m, after, is_video, track as int)
                    &&& after.selected_clip is None
                    &&& after.next_clip_id == m.next_clip_id
                    &&& new_clips.len() == old_clips.len() - 1
                    &&& forall|i: int|
                        0 <= i < new_clips.len() ==> #[trigger] new_clips[i] == old_clips[if i
                            < clip {
                            i
                        } else {
                            i + 1
                        }]
                } else {
                    after == m
                },
                None => after == m,
            }
        }),
{
}

/// A track that is added comes below the others of its lane, empty, audible, visible and at
/// full volume, under the next id and named after its number. Nothing else changes.
pub proof fn an_added_track_is_empty(m: EditorModel, is_video: bool)
    requires
        m.next_track_id < usize::MAX,
    ensures
        ({
            let after = m.track_added(is_video);
            let old_lane = tracks_of(m, is_video);
            let new_lane = tracks_of(after, is_video);
            let added = new_lane[old_lane.len() as int];
            &&& same_view(m, after)
            &&& after.selected_clip == m.selected_clip
            &&& after.next_clip_id == m.next_clip_id
            &&& after.next_track_id == m.next_track_id + 1
            &&& is_video ==> after.audio_tracks == m.audio_tracks
            &&& !is_video ==> after.video_tracks == m.video_tracks
            &&& new_lane.len() == old_lane.len() + 1
            &&& forall|k: int| 0 <= k < old_lane.len() ==> #[trigger] new_lane[k] == old_lane[k]
            &&& added.id == m.next_track_id
            &&& added.is_video == is_video
            &&& !added.is_muted
            &&& !added.is_hidden
            &&& !added.is_solo
            &&& added.volume == 1_000
            &&& added.clips.len() == 0
            &&& is_video ==> added.name == "Video "@ + crate::text::decimal(
                (old_lane.len() + 1) as nat,
            )
            &&& !is_video ==> added.name == "Audio "@ + crate::text::decimal(
                (old_lane.len() + 1) as nat,
            )
        }),
{
}

/// Deleting a track takes out that track with its clips and drops the selection. The tracks
/// above and below and everything else stay.
pub proof fn only_one_track_is_deleted(m: EditorModel, is_video: bool, track: int)
    requires
        0 <= track < count_of(m, is_video),
    ensures
        ({
            let after = m.track_deleted(is_video, track);
            let old_lane = tracks_of(m, is_video);
            let new_lane = tracks_of(after, is_video);
            &&& same_view(m, after)
            &&& after.selected_clip is None
            &&& after.next_clip_id == m.next_clip_id
            &&& after.next_track_id == m.next_track_id
            &&& is_video ==> after.audio_tracks == m.audio_tracks
            &&& !is_video ==> after.video_tracks == m.video_tracks
            &&& new_lane.len() == old_lane.len() - 1
            &&& forall|k: int|
                0 <= k < new_lane.len() ==> #[trigger] new_lane[k] == old_lane[if k < track {
                    k
                } else {
                    k + 1
                }]
        }),
{
}

/// An asset that is placed becomes one clip, behind the others on the first track of its
/// lane: it begins at the playhead, lasts as long as the asset, plays it from its beginning to
/// its end without fades, and has the next id. Where the lane has a track, no other track
/// changes; the playhead and the selection stay.
pub proof fn a_placed_asset_plays_whole(m: EditorModel, asset: MediaAsset)
    requires
        i64::MIN <= m.playhead + asset.duration <= i64::MAX,
        m.next_clip_id < usize::MAX,
        m.next_track_id < usize::MAX,
    ensures
        ({
            let after = m.asset_placed(asset);
            let new_clips = clips_of(after, asset.is_video, 0);
            let c = new_clips[new_clips.len() - 1];
            &&& same_view(m, after)
            &&& after.selected_clip == m.selected_clip
            &&& after.next_clip_id == m.next_clip_id + 1
            &&& asset.is_video ==> after.audio_tracks == m.audio_tracks
            &&& !asset.is_video ==> after.video_tracks == m.video_tracks
            &&& if count_of(m, asset.is_video) > 0 {
                &&& same_elsewhere(m, after, asset.is_video, 0)
                &&& new_clips.drop_last() == clips_of(m, asset.is_video, 0)
            } else {
                &&& count_of(after, asset.is_video) == 1
                &&& after.next_track_id == m.next_track_id + 1
                &&& new_clips.len() == 1
                &&& same_header(
                    tracks_of(after, asset.is_video)[0],
                    tracks_of(m.track_added(asset.is_video), asset.is_video)[0],
                )
            }
            &&& new_clips.len() > 0
            &&& c.id == m.next_clip_id
            &&& c.asset_id == asset.id
            &&& c.timeline_start == m.playhead
            &&& c.timeline_end == m.playhead + asset.duration
            &&& c.source_trim_start == 0
            &&& c.source_trim_end == asset.duration
            &&& c.fade_in_duration == 0
            &&& c.fade_out_duration == 0
        }),
{
    let after = m.asset_placed(asset);
    if count_of(m, asset.is_video) > 0 {
        assert(clips_of(after, asset.is_video, 0).drop_last() =~= clips_of(m, asset.is_video, 0));
    }
}

/// A new project has two empty video tracks and two empty audio tracks, with ids and names
/// of their own, no assets, and the playhead at the beginning; nothing plays and nothing is
/// selected.
pub proof fn a_new_project_is_empty()
    ensures
        ({
            let m = EditorModel::initial();
            &&& m.assets.len() == 0
            &&& m.video_tracks.len() == 2
            &&& m.audio_tracks.len() == 2
            &&& forall|k: int|
                0 <= k < 2 ==> {
                    let t = #[trigger] m.video_tracks[k];
                    &&& t.id == k
                    &&& t.is_video
                    &&& !t.is_muted && !t.is_hidden && !t.is_solo
                    &&& t.volume == 1_000
                    &&& t.clips.len() == 0
                    &&& t.name == "Video "@ + crate::text::decimal((k + 1) as nat)
                }
            &&& forall|k: int|
                0 <= k < 2 ==> {
                    let t = #[trigger] m.audio_tracks[k];
                    &&& t.id == k + 2
                    &&& !t.is_video
                    &&& !t.is_muted && !t.is_hidden && !t.is_solo
                    &&& t.volume == 1_000
                    &&& t.clips.len() == 0
                    &&& t.name == "Audio "@ + crate::text::decimal((k + 1) as nat)
                }
            &&& m.playhead == 0
            &&& !m.is_playing
            &&& m.selected_tool == EditTool::Select
            &&& m.selected_clip is None
            &&& m.zoom_factor == 15_000
            &&& m.scroll_offset == 0
            &&& m.next_clip_id == 1
            &&& m.next_track_id == 4
        }),
{
}

// Assets

/// An imported asset comes behind the others, as it is. Nothing else changes.
pub proof fn an_import_adds_one_asset(m: EditorModel, asset: MediaAsset)
    ensures
        ({
            let after = m.asset_imported(asset);
            &&& after.assets.len() == m.assets.len() + 1
            &&& after.assets[m.assets.len() as int] == asset
            &&& forall|i: int|
                0 <= i < m.assets.len() ==> #[trigger] after.assets[i] == m.assets[i]
            &&& after == (EditorModel { assets: after.assets, ..m })
        }),
{
}

/// An asset has sound to decode where it has channels and a sample rate.
pub proof fn sound_needs_channels_and_a_rate(asset: MediaAsset)
    ensures
        asset.has_audio() == (asset.audio_channels > 0 && asset.audio_sample_rate > 0),
{
}

/// Whether two assets agree in everything but the number of samples and the length.
pub open spec fn same_file(a: MediaAsset, b: MediaAsset) -> bool {
    &&& a.id == b.id
    &&& a.path == b.path
    &&& a.name == b.name
    &&& a.width == b.width
    &&& a.height == b.height
    &&& a.fps == b.fps
    &&& a.is_video == b.is_video
    &&& a.is_image == b.is_image
    &&& a.audio_channels == b.audio_channels
    &&& a.audio_sample_rate == b.audio_sample_rate
}

/// Once sound is decoded, the first asset with that id has the samples. Without video it
/// is as long as the samples play, rounded down to a nanosecond; else its length stays. The
/// other assets and everything else stay.
pub proof fn decoded_sound_belongs_to_its_asset(m: EditorModel, id: usize, samples: usize)
    ensures
        ({
            let after = m.audio_decoded(id, samples);
            &&& after == (EditorModel { assets: after.assets, ..m })
            &&& after.assets.len() == m.assets.len()
            &&& forall|i: int|
                0 <= i < m.assets.len() ==> {
                    let (a, b) = (#[trigger] m.assets[i], after.assets[i]);
                    let is_first = a.id == id && forall|j: int|
                        0 <= j < i ==> (#[trigger] m.assets[j]).id != id;
                    if !is_first {
                        b == a
                    } else {
                        &&& same_file(a, b)
                        &&& b.audio_samples == Some(samples)
                        &&& a.is_video || a.audio_channels == 0 || a.audio_sample_rate == 0
                            ==> b.duration == a.duration
                    }
                }
        }),
{
    crate::search::first_where_is_first(m.assets, crate::drag::of_asset(id));
    assert forall|i: int| 0 <= i < m.assets.len() implies crate::drag::of_asset(id)(
        #[trigger] m.assets[i],
    ) == (m.assets[i].id == id) by {}
}

/// The length of a sound: the samples of all channels, so many per second.
pub proof fn sound_lasts_as_long_as_its_samples(a: MediaAsset, samples: usize)
    requires
        !a.is_video,
        a.audio_channels > 0,
        a.audio_sample_rate > 0,
        samples <= 0x1_0000_0000,
    ensures
        ({
            let length = a.with_samples(samples).duration as int;
            let per_second = a.audio_channels * a.audio_sample_rate;
            length * per_second <= samples * 1_000_000_000 < (length + 1) * per_second
        }),
{
    let per_second = a.audio_channels * a.audio_sample_rate;
    assert(per_second >= 1) by (nonlinear_arith)
        requires
            per_second == a.audio_channels * a.audio_sample_rate,
            a.audio_channels >= 1,
            a.audio_sample_rate >= 1,
    ;
    let n = samples * 1_000_000_000;
    let q = n / per_second;
    vstd::arithmetic::div_mod::lemma_fundamental_div_mod(n, per_second);
    vstd::arithmetic::div_mod::lemma_div_pos_is_pos(n, per_second);
    assert(q <= n) by (nonlinear_arith)
        requires
            per_second * q <= n,
            per_second >= 1,
            q >= 0,
    ;
    assert(per_second * q == q * per_second) by (nonlinear_arith);
    assert((q + 1) * per_second == q * per_second + per_second) by (nonlinear_arith);
}

} // verus!
