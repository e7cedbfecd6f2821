//! The timeline and the edits on it.

use crate::media::MediaAsset;
use vstd::prelude::*;
use vstd::string::*;

verus! {

/// A stretch of a source asset on the timeline. All times are nanoseconds.
#[derive(Clone, Copy, Debug, PartialEq, Eq, Structural)]
pub struct Clip {
    pub id: usize,
    pub asset_id: usize,
    pub timeline_start: i64,
    pub timeline_end: i64,
    /// Where the clip begins in the source asset.
    pub source_trim_start: i64,
    /// Where the clip ends in the source asset.
    pub source_trim_end: i64,
    pub fade_in_duration: i64,
    pub fade_out_duration: i64,
}

#[derive(Debug)]
pub struct Track {
    pub id: usize,
    pub name: String,
    pub is_video: bool,
    pub is_muted: bool,
    pub is_hidden: bool,
    pub is_solo: bool,
    /// In thousandths, from 0 to 1000.
    pub volume: u32,
    pub clips: Vec<Clip>,
}

#[derive(Clone, Copy, Debug, PartialEq, Eq, Structural)]
pub enum EditTool {
    Select,
    Razor,
}

#[derive(Debug)]
pub struct EditorState {
    pub assets: Vec<MediaAsset>,
    pub video_tracks: Vec<Track>,
    pub audio_tracks: Vec<Track>,
    pub playhead: i64,
    pub is_playing: bool,
    pub selected_tool: EditTool,
    /// (is_video, track index, clip index)
    pub selected_clip: Option<(bool, usize, usize)>,
    /// Thousandths of a point per second.
    pub zoom_factor: i64,
    /// Thousandths of a point.
    pub scroll_offset: i64,
    pub next_clip_id: usize,
    pub next_track_id: usize,
}

/// A track with its text and its clips as mathematical sequences.
#[verifier::ext_equal]
pub struct TrackModel {
    pub id: usize,
    pub name: Seq<char>,
    pub is_video: bool,
    pub is_muted: bool,
    pub is_hidden: bool,
    pub is_solo: bool,
    pub volume: u32,
    pub clips: Seq<Clip>,
}

impl View for Track {
    type V = TrackModel;

    open spec fn view(&self) -> TrackModel {
        TrackModel {
            id: self.id,
            name: self.name@,
            is_video: self.is_video,
            is_muted: self.is_muted,
            is_hidden: self.is_hidden,
            is_solo: self.is_solo,
            volume: self.volume,
            clips: self.clips@,
        }
    }
}

/// A list of tracks, each by its model.
pub open spec fn lane_view(tracks: Seq<Track>) -> Seq<TrackModel> {
    Seq::new(tracks.len(), |i: int| tracks[i]@)
}

/// The editor state as a mathematical value.
#[verifier::ext_equal]
pub struct EditorModel {
    pub assets: Seq<MediaAsset>,
    pub video_tracks: Seq<TrackModel>,
    pub audio_tracks: Seq<TrackModel>,
    pub playhead: i64,
    pub is_playing: bool,
    pub selected_tool: EditTool,
    pub selected_clip: Option<(bool, usize, usize)>,
    pub zoom_factor: i64,
    pub scroll_offset: i64,
    pub next_clip_id: usize,
    pub next_track_id: usize,
}

impl View for EditorState {
    type V = EditorModel;

    open spec fn view(&self) -> EditorModel {
        EditorModel {
            assets: self.assets@,
            video_tracks: lane_view(self.video_tracks@),
            audio_tracks: lane_view(self.audio_tracks@),
            playhead: self.playhead,
            is_playing: self.is_playing,
            selected_tool: self.selected_tool,
            selected_clip: self.selected_clip,
            zoom_factor: self.zoom_factor,
            scroll_offset: self.scroll_offset,
            next_clip_id: self.next_clip_id,
            next_track_id: self.next_track_id,
        }
    }
}

impl Clone for Track {
    fn clone(&self) -> (r: Track)
        ensures
            r@ == self@,
    {
        let r = Track { name: self.name.clone(), clips: self.clips.clone(), ..*self };
        assert(r.clips@ =~= self.clips@);
        r
    }
}

impl Clone for EditorState {
    fn clone(&self) -> (r: EditorState)
        ensures
            r@ == self@,
    {
        let r = EditorState {
            assets: self.assets.clone(),
            video_tracks: self.video_tracks.clone(),
            audio_tracks: self.audio_tracks.clone(),
            ..*self
        };
        assert(r.assets@ =~= self.assets@);
        assert(lane_view(r.video_tracks@) =~= lane_view(self.video_tracks@));
        assert(lane_view(r.audio_tracks@) =~= lane_view(self.audio_tracks@));
        r
    }
}

impl EditorModel {
    /// The video tracks or the audio tracks.
    pub open spec fn lane(self, is_video: bool) -> Seq<TrackModel> {
        if is_video {
            self.video_tracks
        } else {
            self.audio_tracks
        }
    }

    /// The state with one of its two lists of tracks replaced.
    pub open spec fn with_lane(self, is_video: bool, tracks: Seq<TrackModel>) -> EditorModel {
        if is_video {
            EditorModel { video_tracks: tracks, ..self }
        } else {
            EditorModel { audio_tracks: tracks, ..self }
        }
    }

    /// Whether there is a clip at these indices.
    pub open spec fn has_clip(self, is_video: bool, track: int, clip: int) -> bool {
        0 <= track < self.lane(is_video).len() && 0 <= clip < self.lane(
            is_video,
        )[track].clips.len()
    }

    /// The clip at these indices.
    pub open spec fn clip(self, is_video: bool, track: int, clip: int) -> Clip {
        self.lane(is_video)[track].clips[clip]
    }
}

/// A list of tracks with the clips of one of them replaced.
pub open spec fn with_clips(tracks: Seq<TrackModel>, track: int, clips: Seq<Clip>) -> Seq<
    TrackModel,
> {
    tracks.update(track, TrackModel { clips, ..tracks[track] })
}

impl Clip {
    /// Whether the clip plays at `t`.
    pub open spec fn covers(self, t: int) -> bool {
        self.timeline_start <= t < self.timeline_end
    }

    /// The source instant that plays at `t`.
    pub open spec fn source_at(self, t: int) -> int {
        self.source_trim_start + (t - self.timeline_start)
    }

    /// How long the clip plays.
    pub open spec fn length(self) -> int {
        self.timeline_end - self.timeline_start
    }

    /// Whether the clip shares an instant with the stretch from `start` to `end`.
    pub open spec fn meets(self, start: int, end: int) -> bool {
        start < self.timeline_end && end > self.timeline_start
    }

    /// The clip moved so that it begins at `start`.
    pub open spec fn moved_to(self, start: int) -> Clip {
        Clip {
            timeline_start: start as i64,
            timeline_end: (start + self.length()) as i64,
            ..self
        }
    }
}

/// Whether an integer is a valid time.
pub open spec fn is_time(t: int) -> bool {
    i64::MIN <= t <= i64::MAX
}

// Splitting

/// The part of a clip before `time`. The fade-out stays with the other part.
pub open spec fn razor_first(c: Clip, time: int) -> Clip {
    Clip {
        timeline_end: time as i64,
        source_trim_end: c.source_at(time) as i64,
        fade_out_duration: 0,
        ..c
    }
}

/// The part of a clip from `time` on. The fade-in stays with the other part.
pub open spec fn razor_second(c: Clip, time: int, id: usize) -> Clip {
    Clip {
        id,
        timeline_start: time as i64,
        source_trim_start: c.source_at(time) as i64,
        fade_in_duration: 0,
        ..c
    }
}

/// The clips of a track after one of them was split.
pub open spec fn razor_clips(clips: Seq<Clip>, clip: int, time: int, id: usize) -> Seq<Clip> {
    clips.update(clip, razor_first(clips[clip], time)).insert(
        clip + 1,
        razor_second(clips[clip], time, id),
    )
}

// Ripple delete

/// A clip brought forward by `gap` if it begins at `from` or later. Clips that begin one
/// nanosecond early count as well.
pub open spec fn closed_up(c: Clip, from: int, gap: int) -> Clip {
    if c.timeline_start >= from - 1 {
        c.moved_to(c.timeline_start - gap)
    } else {
        c
    }
}

/// The clips of a track after one of them was taken out and the later ones moved up.
pub open spec fn ripple_clips(clips: Seq<Clip>, clip: int) -> Seq<Clip> {
    let gone = clips[clip];
    let rest = clips.remove(clip);
    Seq::new(rest.len(), |i: int| closed_up(rest[i], gone.timeline_end as int, gone.length()))
}

// Sorting

/// A clip put into an ordered list, behind all clips that begin no later.
pub open spec fn insert_by_start(sorted: Seq<Clip>, c: Clip) -> Seq<Clip>
    decreases sorted.len(),
{
    if sorted.len() == 0 || sorted.last().timeline_start <= c.timeline_start {
        sorted.push(c)
    } else {
        insert_by_start(sorted.drop_last(), c).push(sorted.last())
    }
}

/// Clips in the order in which they begin; those that begin together keep their order.
pub open spec fn sorted_by_start(clips: Seq<Clip>) -> Seq<Clip>
    decreases clips.len(),
{
    if clips.len() == 0 {
        Seq::empty()
    } else {
        insert_by_start(sorted_by_start(clips.drop_last()), clips.last())
    }
}

// Free places

/// Whether a stretch of length `length` at `start` meets no clip but the one with the id
/// `exclude`.
pub open spec fn is_free(clips: Seq<Clip>, exclude: usize, start: int, length: int) -> bool {
    forall|i: int|
        0 <= i < clips.len() && (#[trigger] clips[i]).id != exclude ==> !clips[i].meets(
            start,
            start + length,
        )
}

/// Whether `start` is the first free place at `desired` or later, and not before zero.
pub open spec fn is_earliest_free(
    clips: Seq<Clip>,
    desired: int,
    length: int,
    exclude: usize,
    start: int,
) -> bool {
    &&& start >= desired
    &&& start >= 0
    &&& is_free(clips, exclude, start, length)
    &&& forall|t: int|
        desired <= t < start && 0 <= t ==> !(#[trigger] is_free(clips, exclude, t, length))
}

/// The first free place at `desired` or later.
pub open spec fn earliest_free(clips: Seq<Clip>, desired: int, length: int, exclude: usize) -> int {
    choose|start: int| is_earliest_free(clips, desired, length, exclude, start)
}

/// The clips of a track after one of them was copied to the first free place behind it.
pub open spec fn duplicate_clips(clips: Seq<Clip>, clip: int, id: usize) -> Seq<Clip> {
    let c = clips[clip];
    let start = earliest_free(clips, c.timeline_end as int, c.length(), usize::MAX);
    sorted_by_start(clips.push(Clip { id, ..c.moved_to(start) }))
}

impl EditorModel {
    /// Whether a cut at `time` falls inside the clip at these indices.
    pub open spec fn razor_cuts(self, is_video: bool, track: int, clip: int, time: int) -> bool {
        self.has_clip(is_video, track, clip) && self.clip(is_video, track, clip).timeline_start
            < time < self.clip(is_video, track, clip).timeline_end
    }

    /// Whether there is room for the times and the id that a cut makes.
    pub open spec fn razor_fits(self, is_video: bool, track: int, clip: int, time: int) -> bool {
        self.razor_cuts(is_video, track, clip, time) ==> is_time(
            self.clip(is_video, track, clip).source_at(time),
        ) && self.next_clip_id < usize::MAX
    }

    /// The state after a cut. A cut that falls inside no clip changes nothing.
    pub open spec fn razored(self, is_video: bool, track: int, clip: int, time: int) -> EditorModel {
        if self.razor_cuts(is_video, track, clip, time) {
            let tracks = self.lane(is_video);
            let clips = razor_clips(tracks[track].clips, clip, time, self.next_clip_id);
            EditorModel {
                next_clip_id: (self.next_clip_id + 1) as usize,
                selected_clip: None,
                ..self.with_lane(is_video, with_clips(tracks, track, clips))
            }
        } else {
            self
        }
    }

    /// The state after a ripple delete.
    pub open spec fn rippled(self, is_video: bool, track: int, clip: int) -> EditorModel {
        if self.has_clip(is_video, track, clip) {
            let tracks = self.lane(is_video);
            let clips = ripple_clips(tracks[track].clips, clip);
            EditorModel {
                selected_clip: None,
                ..self.with_lane(is_video, with_clips(tracks, track, clips))
            }
        } else {
            self
        }
    }

    /// The state after a clip was duplicated.
    pub open spec fn duplicated(self, is_video: bool, track: int, clip: int) -> EditorModel {
        if self.has_clip(is_video, track, clip) {
            let tracks = self.lane(is_video);
            let clips = duplicate_clips(tracks[track].clips, clip, self.next_clip_id);
            EditorModel {
                next_clip_id: (self.next_clip_id + 1) as usize,
                selected_clip: None,
                ..self.with_lane(is_video, with_clips(tracks, track, clips))
            }
        } else {
            self
        }
    }
}

/// A new track: audible, visible, at full volume and empty.
pub open spec fn new_track(id: usize, name: Seq<char>, is_video: bool) -> TrackModel {
    TrackModel {
        id,
        name,
        is_video,
        is_muted: false,
        is_hidden: false,
        is_solo: false,
        volume: 1000,
        clips: Seq::empty(),
    }
}

/// The word that the names of video or audio tracks begin with.
pub open spec fn lane_word(is_video: bool) -> Seq<char> {
    if is_video {
        "Video "@
    } else {
        "Audio "@
    }
}

/// The name of the track with the given number.
pub open spec fn track_name(is_video: bool, number: nat) -> Seq<char> {
    lane_word(is_video) + crate::text::decimal(number)
}

impl EditorModel {
    /// The state of a new project: two empty video tracks, two empty audio tracks.
    pub open spec fn initial() -> EditorModel {
        EditorModel {
            assets: Seq::empty(),
            video_tracks: seq![
                new_track(0, track_name(true, 1), true),
                new_track(1, track_name(true, 2), true),
            ],
            audio_tracks: seq![
                new_track(2, track_name(false, 1), false),
                new_track(3, track_name(false, 2), false),
            ],
            playhead: 0,
            is_playing: false,
            selected_tool: EditTool::Select,
            selected_clip: None,
            zoom_factor: 15_000,
            scroll_offset: 0,
            next_clip_id: 1,
            next_track_id: 4,
        }
    }

    /// The state with an empty track added below the others.
    pub open spec fn track_added(self, is_video: bool) -> EditorModel {
        let tracks = self.lane(is_video);
        let track = new_track(
            self.next_track_id,
            track_name(is_video, tracks.len() + 1),
            is_video,
        );
        EditorModel {
            next_track_id: (self.next_track_id + 1) as usize,
            ..self.with_lane(is_video, tracks.push(track))
        }
    }

    /// The state with a track and its clips removed.
    pub open spec fn track_deleted(self, is_video: bool, track: int) -> EditorModel {
        EditorModel {
            selected_clip: None,
            ..self.with_lane(is_video, self.lane(is_video).remove(track))
        }
    }

    /// The state with the selected clip removed, if there is one.
    pub open spec fn selection_deleted(self) -> EditorModel {
        match self.selected_clip {
            Some((is_video, track, clip)) => if self.has_clip(is_video, track as int, clip as int) {
                let tracks = self.lane(is_video);
                let clips = tracks[track as int].clips.remove(clip as int);
                EditorModel {
                    selected_clip: None,
                    ..self.with_lane(is_video, with_clips(tracks, track as int, clips))
                }
            } else {
                self
            },
            None => self,
        }
    }

    /// The clip that stands for a whole asset, at the playhead.
    pub open spec fn whole_clip(self, asset: MediaAsset) -> Clip {
        Clip {
            id: self.next_clip_id,
            asset_id: asset.id,
            timeline_start: self.playhead,
            timeline_end: (self.playhead + asset.duration) as i64,
            source_trim_start: 0,
            source_trim_end: asset.duration,
            fade_in_duration: 0,
            fade_out_duration: 0,
        }
    }

    /// The state with an asset placed at the playhead on the first track of its lane.
    /// Where the lane has no track, it gets one.
    pub open spec fn asset_placed(self, asset: MediaAsset) -> EditorModel {
        let clip = self.whole_clip(asset);
        let base = if self.lane(asset.is_video).len() == 0 {
            self.track_added(asset.is_video)
        } else {
            self
        };
        let tracks = base.lane(asset.is_video);
        EditorModel {
            next_clip_id: (self.next_clip_id + 1) as usize,
            ..base.with_lane(asset.is_video, with_clips(tracks, 0, tracks[0].clips.push(clip)))
        }
    }
}

/// Where in an ordered list a clip goes.
proof fn lemma_insert_by_start(sorted: Seq<Clip>, c: Clip, k: int)
    requires
        0 <= k <= sorted.len(),
        forall|j: int| k <= j < sorted.len() ==> (#[trigger] sorted[j]).timeline_start > c.timeline_start,
        k > 0 ==> sorted[k - 1].timeline_start <= c.timeline_start,
    ensures
        insert_by_start(sorted, c) == sorted.insert(k, c),
    decreases sorted.len(),
{
    if k == sorted.len() {
        assert(sorted.insert(k, c) =~= sorted.push(c));
    } else {
        assert(sorted[sorted.len() - 1].timeline_start > c.timeline_start);
        lemma_insert_by_start(sorted.drop_last(), c, k);
        assert(sorted.drop_last().insert(k, c).push(sorted.last()) =~= sorted.insert(k, c));
    }
}

/// Sorts clips by where they begin, keeping the order of those that begin together.
pub(crate) fn sort_clips(clips: &mut Vec<Clip>)
    ensures
        final(clips)@ == sorted_by_start(old(clips)@),
{
    let mut sorted: Vec<Clip> = Vec::with_capacity(clips.len());
    let mut i: usize = 0;
    assert(clips@.take(0) =~= Seq::<Clip>::empty());
    while i < clips.len()
        invariant
            i <= clips@.len(),
            clips@ == old(clips)@,
            sorted@ == sorted_by_start(clips@.take(i as int)),
        decreases clips@.len() - i,
    {
        let c: Clip = clips[i];
        let mut k: usize = sorted.len();
        while k > 0 && sorted[k - 1].timeline_start > c.timeline_start
            invariant
                k <= sorted@.len(),
                forall|j: int|
                    k <= j < sorted@.len() ==> (#[trigger] sorted@[j]).timeline_start
                        > c.timeline_start,
            decreases k,
        {
            k -= 1;
        }
        proof {
            lemma_insert_by_start(sorted@, c, k as int);
            assert(clips@.take(i + 1).drop_last() =~= clips@.take(i as int));
            assert(clips@.take(i + 1).last() == c);
        }
        sorted.insert(k, c);
        i += 1;
    }
    assert(clips@.take(i as int) =~= clips@);
    *clips = sorted;
}

/// There is only one first free place.
proof fn lemma_earliest_unique(
    clips: Seq<Clip>,
    desired: int,
    length: int,
    exclude: usize,
    a: int,
    b: int,
)
    requires
        is_earliest_free(clips, desired, length, exclude, a),
        is_earliest_free(clips, desired, length, exclude, b),
    ensures
        a == b,
{
    if a < b {
        assert(!is_free(clips, exclude, a, length));
    } else if b < a {
        assert(!is_free(clips, exclude, b, length));
    }
}

/// How many clips end after `t`.
spec fn ending_after(clips: Seq<Clip>, t: int) -> nat
    decreases clips.len(),
{
    if clips.len() == 0 {
        0
    } else {
        ending_after(clips.drop_last(), t) + (if clips.last().timeline_end > t {
            1nat
        } else {
            0nat
        })
    }
}

proof fn lemma_ending_after(clips: Seq<Clip>, i: int, a: int, b: int)
    requires
        0 <= i < clips.len(),
        a < clips[i].timeline_end <= b,
    ensures
        ending_after(clips, b) < ending_after(clips, a),
    decreases clips.len(),
{
    if i == clips.len() - 1 {
        lemma_ending_after_le(clips.drop_last(), a, b);
    } else {
        lemma_ending_after(clips.drop_last(), i, a, b);
    }
}

proof fn lemma_ending_after_le(clips: Seq<Clip>, a: int, b: int)
    requires
        a <= b,
    ensures
        ending_after(clips, b) <= ending_after(clips, a),
    decreases clips.len(),
{
    if clips.len() > 0 {
        lemma_ending_after_le(clips.drop_last(), a, b);
    }
}

proof fn lemma_free_place_from(
    clips: Seq<Clip>,
    desired: int,
    length: int,
    exclude: usize,
    start: int,
) -> (r: int)
    requires
        start >= desired,
        start >= 0,
        is_time(start),
        forall|t: int|
            desired <= t < start && 0 <= t ==> !(#[trigger] is_free(clips, exclude, t, length)),
    ensures
        is_earliest_free(clips, desired, length, exclude, r),
        is_time(r),
    decreases ending_after(clips, start),
{
    if is_free(clips, exclude, start, length) {
        start
    } else {
        let i = choose|i: int|
            0 <= i < clips.len() && (#[trigger] clips[i]).id != exclude && clips[i].meets(
                start,
                start + length,
            );
        let next = clips[i].timeline_end as int;
        lemma_ending_after(clips, i, start, next);
        assert forall|t: int| desired <= t < next && 0 <= t implies !(#[trigger] is_free(
            clips,
            exclude,
            t,
            length,
        )) by {
            if t >= start {
                assert(clips[i].meets(t, t + length));
            }
        }
        lemma_free_place_from(clips, desired, length, exclude, next)
    }
}

/// There always is a first free place, and it is a valid time.
pub proof fn a_free_place_exists(clips: Seq<Clip>, desired: int, length: int, exclude: usize)
    requires
        is_time(desired),
    ensures
        is_earliest_free(
            clips,
            desired,
            length,
            exclude,
            earliest_free(clips, desired, length, exclude),
        ),
        is_time(earliest_free(clips, desired, length, exclude)),
{
    let start = if desired > 0 {
        desired
    } else {
        0
    };
    let r = lemma_free_place_from(clips, desired, length, exclude, start);
    lemma_earliest_unique(
        clips,
        desired,
        length,
        exclude,
        r,
        earliest_free(clips, desired, length, exclude),
    );
}

/// Finds the first place at `desired` or later, and not before zero, where a clip of
/// length `length` meets no other clip. The clip with the id `exclude` does not count.
pub fn earliest_free_start(clips: &Vec<Clip>, desired: i64, length: i64, exclude: usize) -> (r: i64)
    ensures
        is_earliest_free(clips@, desired as int, length as int, exclude, r as int),
        r == earliest_free(clips@, desired as int, length as int, exclude),
        r == desired || r == 0 || exists|i: int|
            0 <= i < clips@.len() && r == (#[trigger] clips@[i]).timeline_end,
{
    let mut start: i64 = if desired > 0 {
        desired
    } else {
        0
    };
    let mut moved: bool = true;
    while moved
        invariant
            start >= desired,
            start >= 0,
            start == desired || start == 0 || exists|i: int|
                0 <= i < clips@.len() && start == (#[trigger] clips@[i]).timeline_end,
            forall|t: int|
                desired <= t < start && 0 <= t ==> !(#[trigger] is_free(
                    clips@,
                    exclude,
                    t,
                    length as int,
                )),
            !moved ==> is_free(clips@, exclude, start as int, length as int),
        decreases ending_after(clips@, start as int), (if moved { 1int } else { 0int }),
    {
        let ghost round_start = start as int;
        moved = false;
        let mut i: usize = 0;
        while i < clips.len()
            invariant
                i <= clips@.len(),
                start >= desired,
                start >= 0,
                start >= round_start,
                start == desired || start == 0 || exists|k: int|
                    0 <= k < clips@.len() && start == (#[trigger] clips@[k]).timeline_end,
                forall|t: int|
                    desired <= t < start && 0 <= t ==> !(#[trigger] is_free(
                        clips@,
                        exclude,
                        t,
                        length as int,
                    )),
                !moved ==> start == round_start && forall|k: int|
                    0 <= k < i && (#[trigger] clips@[k]).id != exclude ==> !clips@[k].meets(
                        start as int,
                        start + length,
                    ),
                moved ==> ending_after(clips@, start as int) < ending_after(clips@, round_start),
            decreases clips@.len() - i,
        {
            let c: Clip = clips[i];
            if c.id != exclude && start < c.timeline_end && start as i128 + length as i128
                > c.timeline_start as i128 {
                proof {
                    lemma_ending_after(clips@, i as int, start as int, c.timeline_end as int);
                    assert forall|t: int| desired <= t < c.timeline_end && 0 <= t implies !(
                    #[trigger] is_free(clips@, exclude, t, length as int)) by {
                        if t >= start {
                            assert(clips@[i as int].meets(t, t + length));
                        }
                    }
                }
                start = c.timeline_end;
                moved = true;
            }
            i += 1;
        }
    }
    proof {
        let found = earliest_free(clips@, desired as int, length as int, exclude);
        assert(is_earliest_free(clips@, desired as int, length as int, exclude, start as int));
        lemma_earliest_unique(
            clips@,
            desired as int,
            length as int,
            exclude,
            start as int,
            found,
        );
    }
    start
}

/// Splits a clip of a track.
fn razor_in(clips: &mut Vec<Clip>, clip_idx: usize, time: i64, id: usize)
    requires
        clip_idx < old(clips)@.len(),
        old(clips)@[clip_idx as int].timeline_start < time
            < old(clips)@[clip_idx as int].timeline_end,
        is_time(old(clips)@[clip_idx as int].source_at(time as int)),
    ensures
        final(clips)@ == razor_clips(old(clips)@, clip_idx as int, time as int, id),
{
    let c: Clip = clips[clip_idx];
    let split: i64 = (c.source_trim_start as i128 + (time as i128 - c.timeline_start as i128)) as i64;
    let second = Clip {
        id,
        timeline_start: time,
        source_trim_start: split,
        fade_in_duration: 0,
        ..c
    };
    clips[clip_idx] = Clip {
        timeline_end: time,
        source_trim_end: split,
        fade_out_duration: 0,
        ..c
    };
    assert(clip_idx < clips.len());
    clips.insert(clip_idx + 1, second);
}

/// Takes a clip out of a track and moves the later ones up.
fn ripple_in(clips: &mut Vec<Clip>, clip_idx: usize)
    requires
        clip_idx < old(clips)@.len(),
        forall|i: int|
            i != clip_idx && 0 <= i < old(clips)@.len() && (#[trigger] old(clips)@[i]).timeline_start
                >= old(clips)@[clip_idx as int].timeline_end - 1 ==> is_time(
                old(clips)@[i].timeline_start - old(clips)@[clip_idx as int].length(),
            ) && is_time(old(clips)@[i].timeline_end - old(clips)@[clip_idx as int].length()),
    ensures
        final(clips)@ == ripple_clips(old(clips)@, clip_idx as int),
{
    let ghost before = clips@;
    let gone: Clip = clips.remove(clip_idx);
    let gap: i128 = gone.timeline_end as i128 - gone.timeline_start as i128;
    let ghost rest = clips@;
    assert(forall|j: int|
        0 <= j < rest.len() ==> (#[trigger] rest[j]) == before[if j < clip_idx { j } else { j + 1 }]);
    let mut i: usize = 0;
    while i < clips.len()
        invariant
            i <= clips@.len(),
            clip_idx < before.len(),
            gone == before[clip_idx as int],
            gap == gone.length(),
            clips@.len() == rest.len(),
            rest.len() == before.len() - 1,
            forall|j: int|
                0 <= j < rest.len() ==> (#[trigger] rest[j]) == before[if j < clip_idx {
                    j
                } else {
                    j + 1
                }],
            forall|j: int| i <= j < rest.len() ==> (#[trigger] clips@[j]) == rest[j],
            forall|j: int|
                0 <= j < i ==> (#[trigger] clips@[j]) == closed_up(
                    rest[j],
                    gone.timeline_end as int,
                    gone.length(),
                ),
            forall|k: int|
                k != clip_idx && 0 <= k < before.len() && (#[trigger] before[k]).timeline_start
                    >= gone.timeline_end - 1 ==> is_time(before[k].timeline_start - gone.length())
                    && is_time(before[k].timeline_end - gone.length()),
        decreases clips@.len() - i,
    {
        let c: Clip = clips[i];
        assert(c == rest[i as int]);
        if c.timeline_start as i128 >= gone.timeline_end as i128 - 1 {
            clips[i] = Clip {
                timeline_start: (c.timeline_start as i128 - gap) as i64,
                timeline_end: (c.timeline_end as i128 - gap) as i64,
                ..c
            };
        }
        i += 1;
    }
    assert(clips@ =~= ripple_clips(before, clip_idx as int));
}

/// Copies a clip of a track to the first free place behind it.
fn duplicate_in(clips: &mut Vec<Clip>, clip_idx: usize, id: usize)
    requires
        clip_idx < old(clips)@.len(),
        is_time(old(clips)@[clip_idx as int].length()),
        is_time(
            earliest_free(
                old(clips)@,
                old(clips)@[clip_idx as int].timeline_end as int,
                old(clips)@[clip_idx as int].length(),
                usize::MAX,
            ) + old(clips)@[clip_idx as int].length(),
        ),
    ensures
        final(clips)@ == duplicate_clips(old(clips)@, clip_idx as int, id),
{
    let c: Clip = clips[clip_idx];
    let length: i64 = (c.timeline_end as i128 - c.timeline_start as i128) as i64;
    let start: i64 = earliest_free_start(clips, c.timeline_end, length, usize::MAX);
    let end: i64 = (start as i128 + length as i128) as i64;
    clips.push(Clip { id, timeline_start: start, timeline_end: end, ..c });
    sort_clips(clips);
}

/// What an edit of one track's clips does to the list of tracks.
pub(crate) proof fn lemma_lane_update(before: Seq<Track>, after: Seq<Track>, track: int, clips: Seq<Clip>)
    requires
        0 <= track < before.len(),
        after.len() == before.len(),
        forall|i: int| 0 <= i < before.len() && i != track ==> after[i] == before[i],
        after[track]@ == (TrackModel { clips, ..before[track]@ }),
    ensures
        lane_view(after) == with_clips(lane_view(before), track, clips),
{
    assert(lane_view(after) =~= with_clips(lane_view(before), track, clips));
}

impl EditorState {
    /// Splits the clip at the given indices at `time`. A cut that does not fall inside a
    /// clip changes nothing. The first part keeps the id and the fade-in, the second part
    /// gets the next id and the fade-out; the selection is dropped. Ids that tell the clips
    /// apart still do, and none is lost.
    pub fn razor_at(&mut self, is_video: bool, track_idx: usize, clip_idx: usize, time: i64)
        requires
            old(self)@.razor_fits(is_video, track_idx as int, clip_idx as int, time as int),
        ensures
            final(self)@ == old(self)@.razored(
                is_video,
                track_idx as int,
                clip_idx as int,
                time as int,
            ),
            old(self)@.clip_ids_unique() && old(self).next_clip_id < usize::MAX ==> {
                &&& final(self)@.clip_ids_unique()
                &&& forall|v: bool, t: int, c: int|
                    old(self)@.has_clip(v, t, c) ==> !final(self)@.unused(
                        (#[trigger] old(self)@.clip(v, t, c)).id,
                    )
            },
    {
        proof {
            if self@.clip_ids_unique() && self.next_clip_id < usize::MAX {
                crate::invariants::split_keeps_ids(
                    self@,
                    is_video,
                    track_idx as int,
                    clip_idx as int,
                    time as int,
                );
            }
        }
        let id: usize = self.next_clip_id;
        let tracks: &mut Vec<Track> = if is_video {
            &mut self.video_tracks
        } else {
            &mut self.audio_tracks
        };
        if track_idx >= tracks.len() || clip_idx >= tracks[track_idx].clips.len() {
            return;
        }
        let c: Clip = tracks[track_idx].clips[clip_idx];
        if time <= c.timeline_start || time >= c.timeline_end {
            return;
        }
        let ghost before = tracks@;
        razor_in(&mut tracks[track_idx].clips, clip_idx, time, id);
        proof {
            lemma_lane_update(
                before,
                tracks@,
                track_idx as int,
                razor_clips(before[track_idx as int].clips@, clip_idx as int, time as int, id),
            );
        }
        self.next_clip_id = id + 1;
        self.selected_clip = None;
    }

    /// Removes a clip and moves the later clips of its track up to close the gap. Indices
    /// of no clip change nothing.
    pub fn ripple_delete(&mut self, is_video: bool, track_idx: usize, clip_idx: usize)
        requires
            old(self)@.has_clip(is_video, track_idx as int, clip_idx as int) ==> forall|i: int|
                i != clip_idx && old(self)@.has_clip(is_video, track_idx as int, i) && (
                #[trigger] old(self)@.clip(
                    is_video,
                    track_idx as int,
                    i,
                )).timeline_start >= old(self)@.clip(
                    is_video,
                    track_idx as int,
                    clip_idx as int,
                ).timeline_end - 1 ==> {
                    let c = old(self)@.clip(is_video, track_idx as int, i);
                    let gap = old(self)@.clip(is_video, track_idx as int, clip_idx as int).length();
                    is_time(c.timeline_start - gap) && is_time(c.timeline_end - gap)
                },
        ensures
            final(self)@ == old(self)@.rippled(is_video, track_idx as int, clip_idx as int),
    {
        let tracks: &mut Vec<Track> = if is_video {
            &mut self.video_tracks
        } else {
            &mut self.audio_tracks
        };
        if track_idx >= tracks.len() || clip_idx >= tracks[track_idx].clips.len() {
            return;
        }
        let ghost before = tracks@;
        proof {
            assert forall|i: int|
                i != clip_idx && 0 <= i < before[track_idx as int].clips@.len() && (
                #[trigger] before[track_idx as int].clips@[i]).timeline_start
                    >= before[track_idx as int].clips@[clip_idx as int].timeline_end
                    - 1 implies is_time(
                before[track_idx as int].clips@[i].timeline_start
                    - before[track_idx as int].clips@[clip_idx as int].length(),
            ) && is_time(
                before[track_idx as int].clips@[i].timeline_end
                    - before[track_idx as int].clips@[clip_idx as int].length(),
            ) by {
                let c = old(self)@.clip(is_video, track_idx as int, i);
                assert(old(self)@.has_clip(is_video, track_idx as int, i));
            }
        }
        ripple_in(&mut tracks[track_idx].clips, clip_idx);
        proof {
            lemma_lane_update(
                before,
                tracks@,
                track_idx as int,
                ripple_clips(before[track_idx as int].clips@, clip_idx as int),
            );
        }
        self.selected_clip = None;
    }

    /// Copies a clip to the first free place behind it on the same track. Indices of no
    /// clip change nothing.
    pub fn duplicate_clip(&mut self, is_video: bool, track_idx: usize, clip_idx: usize)
        requires
            old(self)@.has_clip(is_video, track_idx as int, clip_idx as int) ==> {
                let clips = old(self)@.lane(is_video)[track_idx as int].clips;
                let c = clips[clip_idx as int];
                &&& old(self).next_clip_id < usize::MAX
                &&& is_time(c.length())
                &&& is_time(
                    earliest_free(clips, c.timeline_end as int, c.length(), usize::MAX)
                        + c.length(),
                )
            },
        ensures
            final(self)@ == old(self)@.duplicated(is_video, track_idx as int, clip_idx as int),
    {
        let id: usize = self.next_clip_id;
        let tracks: &mut Vec<Track> = if is_video {
            &mut self.video_tracks
        } else {
            &mut self.audio_tracks
        };
        if track_idx >= tracks.len() || clip_idx >= tracks[track_idx].clips.len() {
            return;
        }
        let ghost before = tracks@;
        duplicate_in(&mut tracks[track_idx].clips, clip_idx, id);
        proof {
            lemma_lane_update(
                before,
                tracks@,
                track_idx as int,
                duplicate_clips(before[track_idx as int].clips@, clip_idx as int, id),
            );
        }
        self.next_clip_id = id + 1;
        self.selected_clip = None;
    }

    /// Removes the selected clip and drops the selection. Where nothing is selected, or
    /// the selection points at no clip, nothing changes.
    pub fn delete_selected(&mut self)
        ensures
            final(self)@ == old(self)@.selection_deleted(),
    {
        if let Some((is_video, track_idx, clip_idx)) = self.selected_clip {
            let tracks: &mut Vec<Track> = if is_video {
                &mut self.video_tracks
            } else {
                &mut self.audio_tracks
            };
            if track_idx < tracks.len() && clip_idx < tracks[track_idx].clips.len() {
                let ghost before = tracks@;
                tracks[track_idx].clips.remove(clip_idx);
                proof {
                    lemma_lane_update(
                        before,
                        tracks@,
                        track_idx as int,
                        before[track_idx as int].clips@.remove(clip_idx as int),
                    );
                }
                self.selected_clip = None;
            }
        }
    }

    /// Adds an empty track below the others of its lane, named after its number.
    pub fn add_track(&mut self, is_video: bool)
        requires
            old(self).next_track_id < usize::MAX,
            old(self)@.lane(is_video).len() < u64::MAX,
        ensures
            final(self)@ == old(self)@.track_added(is_video),
    {
        let id: usize = self.next_track_id;
        let tracks: &mut Vec<Track> = if is_video {
            &mut self.video_tracks
        } else {
            &mut self.audio_tracks
        };
        let ghost before = tracks@;
        assert(lane_view(before).len() == before.len());
        let number: u64 = tracks.len() as u64 + 1;
        let track = empty_track(id, is_video, number);
        tracks.push(track);
        assert(lane_view(tracks@) =~= lane_view(before).push(track@));
        self.next_track_id = id + 1;
    }

    /// Removes a track with its clips and drops the selection.
    pub fn delete_track(&mut self, is_video: bool, track_idx: usize)
        requires
            track_idx < old(self)@.lane(is_video).len(),
        ensures
            final(self)@ == old(self)@.track_deleted(is_video, track_idx as int),
    {
        let tracks: &mut Vec<Track> = if is_video {
            &mut self.video_tracks
        } else {
            &mut self.audio_tracks
        };
        let ghost before = tracks@;
        tracks.remove(track_idx);
        assert(lane_view(tracks@) =~= lane_view(before).remove(track_idx as int));
        self.selected_clip = None;
    }

    /// Places a whole asset at the playhead, on the first track of its lane. Where the lane
    /// has no track, it gets one.
    pub fn add_to_timeline(&mut self, asset_idx: usize)
        requires
            asset_idx < old(self).assets@.len(),
            is_time(old(self).playhead + old(self).assets@[asset_idx as int].duration),
            old(self).next_clip_id < usize::MAX,
            old(self)@.lane(old(self).assets@[asset_idx as int].is_video).len() == 0 ==> old(
                self,
            ).next_track_id < usize::MAX,
        ensures
            final(self)@ == old(self)@.asset_placed(old(self).assets@[asset_idx as int]),
    {
        let is_video: bool = self.assets[asset_idx].is_video;
        let length: i64 = self.assets[asset_idx].duration;
        let clip = Clip {
            id: self.next_clip_id,
            asset_id: self.assets[asset_idx].id,
            timeline_start: self.playhead,
            timeline_end: self.playhead + length,
            source_trim_start: 0,
            source_trim_end: length,
            fade_in_duration: 0,
            fade_out_duration: 0,
        };
        self.next_clip_id = self.next_clip_id + 1;
        let count: usize = if is_video {
            self.video_tracks.len()
        } else {
            self.audio_tracks.len()
        };
        if count == 0 {
            self.add_track(is_video);
        }
        assert(lane_view(self.video_tracks@).len() == self.video_tracks@.len());
        assert(lane_view(self.audio_tracks@).len() == self.audio_tracks@.len());
        assert(self@.lane(is_video).len() > 0);
        let tracks: &mut Vec<Track> = if is_video {
            &mut self.video_tracks
        } else {
            &mut self.audio_tracks
        };
        let ghost before = tracks@;
        tracks[0].clips.push(clip);
        proof {
            lemma_lane_update(before, tracks@, 0, before[0].clips@.push(clip));
        }
    }

    /// A new project: two empty video tracks and two empty audio tracks.
    pub fn new() -> (r: EditorState)
        ensures
            r@ == EditorModel::initial(),
    {
        let mut video_tracks: Vec<Track> = Vec::new();
        video_tracks.push(empty_track(0, true, 1));
        video_tracks.push(empty_track(1, true, 2));
        let mut audio_tracks: Vec<Track> = Vec::new();
        audio_tracks.push(empty_track(2, false, 1));
        audio_tracks.push(empty_track(3, false, 2));
        let r = EditorState {
            assets: Vec::new(),
            video_tracks,
            audio_tracks,
            playhead: 0,
            is_playing: false,
            selected_tool: EditTool::Select,
            selected_clip: None,
            zoom_factor: 15_000,
            scroll_offset: 0,
            next_clip_id: 1,
            next_track_id: 4,
        };
        assert(r@ =~= EditorModel::initial());
        r
    }
}

/// A new track with the given number in its name.
fn empty_track(id: usize, is_video: bool, number: u64) -> (r: Track)
    ensures
        r@ == new_track(id, track_name(is_video, number as nat), is_video),
{
    let mut name: String = if is_video {
        String::from_str("Video ")
    } else {
        String::from_str("Audio ")
    };
    crate::text::push_decimal(&mut name, number);
    let clips: Vec<Clip> = Vec::new();
    let r = Track {
        id,
        name,
        is_video,
        is_muted: false,
        is_hidden: false,
        is_solo: false,
        volume: 1000,
        clips,
    };
    assert(r.clips@ =~= Seq::<Clip>::empty());
    r
}

impl EditorModel {
    /// The state with an asset added to the project.
    pub open spec fn asset_imported(self, asset: MediaAsset) -> EditorModel {
        EditorModel { assets: self.assets.push(asset), ..self }
    }

    /// The state with the sound of an asset decoded. An id of no asset changes nothing.
    pub open spec fn audio_decoded(self, id: usize, samples: usize) -> EditorModel {
        match crate::search::first_where(self.assets, crate::drag::of_asset(id)) {
            Some(i) => EditorModel {
                assets: self.assets.update(i, self.assets[i].with_samples(samples)),
                ..self
            },
            None => self,
        }
    }
}

impl EditorState {
    /// Adds an asset to the project; says whether it has sound that is to be decoded.
    pub fn import_asset(&mut self, asset: MediaAsset) -> (r: bool)
        ensures
            final(self)@ == old(self)@.asset_imported(asset),
            r == asset.has_audio(),
    {
        let has_audio: bool = asset.audio_channels > 0 && asset.audio_sample_rate > 0;
        self.assets.push(asset);
        has_audio
    }

    /// Notes that the sound of an asset was decoded.
    pub fn finish_audio(&mut self, asset_id: usize, samples: usize)
        ensures
            final(self)@ == old(self)@.audio_decoded(asset_id, samples),
    {
        if let Some(i) = crate::drag::find_asset(&self.assets, asset_id) {
            self.assets[i].set_samples(samples);
        }
    }
}

/// Assets that get the next free id are told apart by it.
pub proof fn imported_ids_are_positions(m: EditorModel, asset: MediaAsset)
    requires
        forall|i: int| 0 <= i < m.assets.len() ==> (#[trigger] m.assets[i]).id == i,
        asset.id == m.assets.len(),
    ensures
        forall|i: int|
            0 <= i < m.asset_imported(asset).assets.len() ==> (
            #[trigger] m.asset_imported(asset).assets[i]).id == i,
{
}

} // verus!
