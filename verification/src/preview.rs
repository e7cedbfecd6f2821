//! What the preview shows and when.

use crate::editor::{Clip, EditorModel, EditorState, Track, TrackModel};
use crate::layout::find_latest_end;
use crate::media::MediaAsset;
use crate::time::saturate_i64;
use std::collections::HashMap;
use std::path::PathBuf;
use vstd::prelude::*;

verus! {

/// How many frames are kept before all are thrown away.
pub const MAX_CACHED: usize = 300;

/// How far sound and playhead may drift apart, in nanoseconds.
pub const MAX_DRIFT: i64 = 400_000_000;

/// How long a block of sound is, in nanoseconds.
pub const AUDIO_BLOCK: i64 = 100_000_000;

// The clip that is seen

/// Whether a track is seen: it is not hidden, and it is solo if any is.
pub open spec fn is_seen(track: TrackModel, has_solo: bool) -> bool {
    !track.is_hidden && (!has_solo || track.is_solo)
}

/// Whether any of the tracks is solo.
pub open spec fn any_solo(tracks: Seq<TrackModel>) -> bool {
    exists|i: int| 0 <= i < tracks.len() && (#[trigger] tracks[i]).is_solo
}

/// The condition of playing at `t`, for clips of known assets.
pub open spec fn playing_at(assets: Seq<MediaAsset>, t: int) -> spec_fn(Clip) -> bool {
    |c: Clip|
        c.covers(t) && crate::search::first_where(assets, crate::drag::of_asset(c.asset_id)) is Some
}

/// The clip seen at `t` on the tracks before `upto`: the first that plays on the last
/// track that has one.
pub open spec fn seen_in(
    tracks: Seq<TrackModel>,
    assets: Seq<MediaAsset>,
    t: int,
    upto: int,
) -> Option<(int, int)>
    decreases upto,
{
    if upto <= 0 || upto > tracks.len() {
        None
    } else {
        let track = tracks[upto - 1];
        match crate::search::first_where(track.clips, playing_at(assets, t)) {
            Some(i) if is_seen(track, any_solo(tracks)) => Some((upto - 1, i)),
            _ => seen_in(tracks, assets, t, upto - 1),
        }
    }
}

impl EditorModel {
    /// The clip that is seen at `t`: its track, its place and its asset.
    pub open spec fn seen_at(self, t: int) -> Option<(int, int, int)> {
        match seen_in(self.video_tracks, self.assets, t, self.video_tracks.len() as int) {
            Some((k, i)) => match crate::search::first_where(
                self.assets,
                crate::drag::of_asset(self.video_tracks[k].clips[i].asset_id),
            ) {
                Some(a) => Some((k, i, a)),
                None => None,
            },
            None => None,
        }
    }
}

pub(crate) fn find_solo(tracks: &Vec<Track>) -> (r: bool)
    ensures
        r == any_solo(crate::editor::lane_view(tracks@)),
{
    let ghost all = crate::editor::lane_view(tracks@);
    let mut i: usize = 0;
    while i < tracks.len()
        invariant
            i <= tracks@.len(),
            all == crate::editor::lane_view(tracks@),
            forall|j: int| 0 <= j < i ==> !(#[trigger] all[j]).is_solo,
        decreases tracks@.len() - i,
    {
        if tracks[i].is_solo {
            assert(all[i as int].is_solo);
            return true;
        }
        i += 1;
    }
    false
}

fn find_playing(clips: &Vec<Clip>, assets: &Vec<MediaAsset>, t: i64) -> (r: Option<(usize, usize)>)
    ensures
        match r {
            Some((i, a)) => {
                &&& crate::search::first_where(clips@, playing_at(assets@, t as int)) == Some(
                    i as int,
                )
                &&& i < clips@.len()
                &&& a < assets@.len()
                &&& crate::search::first_where(
                    assets@,
                    crate::drag::of_asset(clips@[i as int].asset_id),
                ) == Some(a as int)
                &&& clips@[i as int].covers(t as int)
            },
            None => crate::search::first_where(clips@, playing_at(assets@, t as int)) is None,
        },
{
    let ghost cond = playing_at(assets@, t as int);
    let mut i: usize = 0;
    while i < clips.len()
        invariant
            i <= clips@.len(),
            cond == playing_at(assets@, t as int),
            forall|j: int| 0 <= j < i ==> !cond(#[trigger] clips@[j]),
        decreases clips@.len() - i,
    {
        let c: Clip = clips[i];
        if t >= c.timeline_start && t < c.timeline_end {
            if let Some(a) = crate::drag::find_asset(assets, c.asset_id) {
                assert(cond(clips@[i as int]));
                proof {
                    crate::search::lemma_first_where_at(clips@, cond, i as int);
                }
                return Some((i, a));
            }
        }
        assert(!cond(clips@[i as int]));
        i += 1;
    }
    proof {
        crate::search::lemma_first_where_at(clips@, cond, i as int);
    }
    None
}

impl EditorState {
    /// Finds the clip that is seen at `t`: its track, its place and its asset.
    pub fn find_seen(&self, t: i64) -> (r: Option<(usize, usize, usize)>)
        ensures
            match r {
                Some((k, i, a)) => {
                    &&& self@.seen_at(t as int) == Some((k as int, i as int, a as int))
                    &&& self@.has_clip(true, k as int, i as int)
                    &&& a < self.assets@.len()
                    &&& self@.clip(true, k as int, i as int).covers(t as int)
                },
                None => self@.seen_at(t as int) is None,
            },
    {
        let ghost all = self@.video_tracks;
        let solo: bool = find_solo(&self.video_tracks);
        let mut k: usize = self.video_tracks.len();
        while k > 0
            invariant
                k <= self.video_tracks@.len(),
                all == self@.video_tracks,
                all == crate::editor::lane_view(self.video_tracks@),
                solo == any_solo(all),
                seen_in(all, self.assets@, t as int, all.len() as int) == seen_in(
                    all,
                    self.assets@,
                    t as int,
                    k as int,
                ),
            decreases k,
        {
            let track: &Track = &self.video_tracks[k - 1];
            assert(all[k - 1] == track@);
            if !track.is_hidden && (!solo || track.is_solo) {
                if let Some((i, a)) = find_playing(&track.clips, &self.assets, t) {
                    return Some((k - 1, i, a));
                }
            }
            k -= 1;
        }
        None
    }
}

/// Whether no clip of a known asset is to be seen at `t` on the tracks from `from` up to
/// `upto`.
pub open spec fn unseen_between(
    tracks: Seq<TrackModel>,
    assets: Seq<MediaAsset>,
    t: int,
    from: int,
    upto: int,
) -> bool {
    forall|k: int, i: int|
        from <= k < upto && 0 <= i < tracks[k].clips.len() && is_seen(tracks[k], any_solo(tracks))
            ==> !playing_at(assets, t)(#[trigger] tracks[k].clips[i])
}

/// What is seen is a clip that plays, on a track that is not hidden and is solo if any is,
/// and no later track of that kind has one. Nothing is seen only if none has one.
pub proof fn the_last_seen_track_shows(m: EditorModel, t: int)
    ensures
        match m.seen_at(t) {
            Some((k, i, a)) => {
                &&& 0 <= k < m.video_tracks.len()
                &&& !m.video_tracks[k].is_hidden
                &&& any_solo(m.video_tracks) ==> m.video_tracks[k].is_solo
                &&& 0 <= i < m.video_tracks[k].clips.len()
                &&& m.video_tracks[k].clips[i].covers(t)
                &&& unseen_between(
                    m.video_tracks,
                    m.assets,
                    t,
                    k + 1,
                    m.video_tracks.len() as int,
                )
            },
            None => unseen_between(m.video_tracks, m.assets, t, 0, m.video_tracks.len() as int),
        },
{
    lemma_seen_in(m.video_tracks, m.assets, t, m.video_tracks.len() as int);
}

proof fn lemma_seen_in(tracks: Seq<TrackModel>, assets: Seq<MediaAsset>, t: int, upto: int)
    requires
        0 <= upto <= tracks.len(),
    ensures
        match seen_in(tracks, assets, t, upto) {
            Some((k, i)) => {
                &&& 0 <= k < upto
                &&& is_seen(tracks[k], any_solo(tracks))
                &&& 0 <= i < tracks[k].clips.len()
                &&& playing_at(assets, t)(tracks[k].clips[i])
                &&& unseen_between(tracks, assets, t, k + 1, upto)
            },
            None => unseen_between(tracks, assets, t, 0, upto),
        },
    decreases upto,
{
    if upto > 0 {
        lemma_seen_in(tracks, assets, t, upto - 1);
        crate::search::first_where_is_first(tracks[upto - 1].clips, playing_at(assets, t));
    }
}

// Fades

/// How bright a clip is at `t`, as a fraction: it grows from nothing over the fade-in and
/// shrinks to nothing over the fade-out.
pub open spec fn brightness(c: Clip, t: int) -> (int, int) {
    if c.fade_in_duration > 0 && t - c.timeline_start < c.fade_in_duration {
        (
            if t < c.timeline_start {
                0
            } else {
                t - c.timeline_start
            },
            c.fade_in_duration as int,
        )
    } else if c.fade_out_duration > 0 && c.timeline_end - t < c.fade_out_duration {
        (
            if t > c.timeline_end {
                0
            } else {
                c.timeline_end - t
            },
            c.fade_out_duration as int,
        )
    } else {
        (1, 1)
    }
}

/// A brightness is a fraction between nothing and all.
pub proof fn brightness_is_a_fraction(c: Clip, t: int)
    ensures
        0 <= brightness(c, t).0 <= brightness(c, t).1,
        brightness(c, t).1 > 0,
{
}

pub(crate) fn find_brightness(c: &Clip, t: i64) -> (r: (i64, i64))
    ensures
        (r.0 as int, r.1 as int) == brightness(*c, t as int),
        0 <= r.0 <= r.1,
        r.1 > 0,
{
    let since: i128 = t as i128 - c.timeline_start as i128;
    let left: i128 = c.timeline_end as i128 - t as i128;
    if c.fade_in_duration > 0 && since < c.fade_in_duration as i128 {
        (if since < 0 {
            0
        } else {
            since as i64
        }, c.fade_in_duration)
    } else if c.fade_out_duration > 0 && left < c.fade_out_duration as i128 {
        (if left < 0 {
            0
        } else {
            left as i64
        }, c.fade_out_duration)
    } else {
        (1, 1)
    }
}

// Frames

/// Which frame of which asset.
#[derive(Clone, Copy, Debug, PartialEq, Eq, Structural)]
pub struct FrameKey {
    pub asset_id: usize,
    pub frame_idx: usize,
}

/// A decoded frame.
#[derive(Debug)]
pub struct CachedFrame {
    pub key: FrameKey,
    pub width: usize,
    pub height: usize,
    pub rgba: Vec<u8>,
}

impl FrameKey {
    /// The key as one number, by which frames are kept.
    pub open spec fn number(self) -> u128 {
        (self.asset_id * 0x1_0000_0000_0000_0000 + self.frame_idx) as u128
    }

    pub fn as_number(self) -> (r: u128)
        ensures
            r == self.number(),
    {
        self.asset_id as u128 * 0x1_0000_0000_0000_0000 + self.frame_idx as u128
    }
}

/// Two keys have the same number only if they are the same.
pub proof fn numbers_tell_keys_apart(a: FrameKey, b: FrameKey)
    ensures
        a.number() == b.number() <==> a == b,
{
}

/// The kept frame with the given key.
pub open spec fn cached(cache: Map<u128, CachedFrame>, key: FrameKey) -> Option<CachedFrame> {
    if cache.contains_key(key.number()) {
        Some(cache[key.number()])
    } else {
        None
    }
}

/// The kept frames after one more was kept. It replaces one with the same key.
pub open spec fn with_frame(cache: Map<u128, CachedFrame>, frame: CachedFrame) -> Map<
    u128,
    CachedFrame,
> {
    cache.insert(frame.key.number(), frame)
}

/// A frame that was kept is found, and so are all others as before.
pub proof fn kept_frames_are_found(
    cache: Map<u128, CachedFrame>,
    frame: CachedFrame,
    key: FrameKey,
)
    ensures
        cached(with_frame(cache, frame), key) == if key == frame.key {
            Some(frame)
        } else {
            cached(cache, key)
        },
{
    numbers_tell_keys_apart(key, frame.key);
}

/// The number of the frame of an asset at an instant of its source. A still picture has
/// only one.
pub open spec fn frame_number(asset: MediaAsset, t: int) -> int {
    if asset.is_image || asset.fps.den == 0 {
        0
    } else {
        crate::time::saturated_usize(asset.fps.frame_at(crate::time::saturated_i64(t)))
    }
}

/// A frame that is wanted, and how bright.
#[verifier::ext_equal]
pub struct Wanted {
    pub key: FrameKey,
    pub brightness: (int, int),
    /// The instant of the source.
    pub target: int,
    /// The asset's place in the project.
    pub asset: int,
}

impl EditorModel {
    /// The frame to be seen at the playhead.
    pub open spec fn wanted(self) -> Option<Wanted> {
        match self.seen_at(self.playhead as int) {
            Some((k, i, a)) => {
                let c = self.video_tracks[k].clips[i];
                let target = c.source_at(self.playhead as int);
                Some(
                    Wanted {
                        key: FrameKey {
                            asset_id: self.assets[a].id,
                            frame_idx: frame_number(self.assets[a], target) as usize,
                        },
                        brightness: brightness(c, self.playhead as int),
                        target: crate::time::saturated_i64(target),
                        asset: a,
                    },
                )
            },
            None => None,
        }
    }

    /// The state after `dt` has passed: while playing the playhead moves on, and at the end
    /// of the last clip it stops.
    pub open spec fn advanced(self, dt: int) -> EditorModel {
        if !self.is_playing {
            self
        } else {
            let end = self.content_end(0);
            let playhead = crate::time::saturated_i64(self.playhead + dt);
            if playhead >= end && end > 0 {
                EditorModel { playhead: end as i64, is_playing: false, ..self }
            } else {
                EditorModel { playhead: playhead as i64, ..self }
            }
        }
    }
}

/// While playing, the playhead never passes the end of the last clip.
pub proof fn playing_stops_at_the_end(m: EditorModel, dt: int)
    requires
        m.is_playing,
        m.content_end(0) > 0,
    ensures
        m.advanced(dt).playhead <= m.content_end(0),
        m.advanced(dt).is_playing ==> m.advanced(dt).playhead < m.content_end(0),
{
    crate::layout::latest_end_is_latest(m.video_tracks, 0);
    crate::layout::latest_end_is_latest(m.audio_tracks, crate::layout::latest_end(m.video_tracks, 0));
}

impl EditorState {
    /// Moves the playhead on by `dt` while playing; says whether it came to the end.
    pub fn advance(&mut self, dt: i64) -> (stopped: bool)
        ensures
            final(self)@ == old(self)@.advanced(dt as int),
            stopped == (old(self).is_playing && !final(self).is_playing),
    {
        if !self.is_playing {
            return false;
        }
        self.playhead = saturate_i64(self.playhead as i128 + dt as i128);
        let video_end: i64 = find_latest_end(&self.video_tracks, 0);
        let end: i64 = find_latest_end(&self.audio_tracks, video_end);
        if self.playhead >= end && end > 0 {
            self.playhead = end;
            self.is_playing = false;
            return true;
        }
        false
    }

    fn find_wanted(&self) -> (r: Option<(FrameKey, i64, i64, i64, usize)>)
        ensures
            match r {
                Some((key, num, den, target, asset)) => {
                    &&& self@.wanted() == Some(
                        Wanted {
                            key,
                            brightness: (num as int, den as int),
                            target: target as int,
                            asset: asset as int,
                        },
                    )
                    &&& 0 <= num <= den
                    &&& den > 0
                    &&& asset < self.assets@.len()
                },
                None => self@.wanted() is None,
            },
    {
        match self.find_seen(self.playhead) {
            Some((k, i, a)) => {
                let c: Clip = self.video_tracks[k].clips[i];
                assert(c == self@.video_tracks[k as int].clips[i as int]);
                let asset: &MediaAsset = &self.assets[a];
                let target: i64 = saturate_i64(
                    c.source_trim_start as i128 + (self.playhead as i128
                        - c.timeline_start as i128),
                );
                let frame_idx: usize = if asset.is_image || asset.fps.den == 0 {
                    0
                } else {
                    asset.fps.frame_index(target)
                };
                let (num, den) = find_brightness(&c, self.playhead);
                Some((FrameKey { asset_id: asset.id, frame_idx }, num, den, target, a))
            },
            None => None,
        }
    }
}

// The engine

/// A picture to show.
#[derive(Debug)]
pub struct Image {
    pub width: usize,
    pub height: usize,
    pub rgba: Vec<u8>,
}

/// A frame that is to be decoded.
#[derive(Debug)]
pub struct FrameRequest {
    pub key: FrameKey,
    pub path: PathBuf,
    pub is_image: bool,
    /// The instant of the source, in nanoseconds.
    pub target: i64,
}

/// What the preview is to do.
#[derive(Debug)]
pub enum PreviewAction {
    /// Nothing.
    Keep,
    /// Show nothing.
    Clear,
    Show(Image),
    Request(FrameRequest),
}

/// What the sound output is to do.
#[derive(Clone, Copy, Debug, PartialEq, Eq, Structural)]
pub enum SinkAction {
    Nothing,
    /// Drop what is queued and play on.
    Restart,
    /// Drop what is queued.
    Stop,
    Pause,
}

/// What the preview shows, has asked for and keeps.
#[derive(Debug)]
pub struct PreviewEngine {
    /// The frame that is shown, and how bright.
    pub current_frame: Option<(FrameKey, i64, i64)>,
    pub last_requested_frame: Option<FrameKey>,
    /// Decoded frames, by the numbers of their keys.
    pub frame_cache: HashMap<u128, CachedFrame>,
    /// Whether there is a sound output.
    pub has_audio: bool,
    /// Up to when sound was queued.
    pub last_audio_queue_time: i64,
}

/// Whether a picture is what a frame looks like at a brightness.
pub open spec fn looks_like(image: Image, frame: CachedFrame, brightness: (int, int)) -> bool {
    &&& image.width == frame.width
    &&& image.height == frame.height
    &&& image.rgba@ == if brightness.0 < brightness.1 {
        crate::pixels::faded(frame.rgba@, brightness.0, brightness.1)
    } else {
        frame.rgba@
    }
}

impl PreviewEngine {
    /// The frame that is shown, and how bright.
    pub open spec fn shown(self) -> Option<(FrameKey, (int, int))> {
        match self.current_frame {
            Some((key, num, den)) => Some((key, (num as int, den as int))),
            None => None,
        }
    }

    /// Whether sound and requests are as in another engine.
    pub open spec fn same_sound(self, other: PreviewEngine) -> bool {
        self.has_audio == other.has_audio && self.last_audio_queue_time
            == other.last_audio_queue_time
    }

    pub fn new(has_audio: bool) -> (r: PreviewEngine)
        ensures
            r.shown() is None,
            r.last_requested_frame is None,
            r.frame_cache@ == Map::<u128, CachedFrame>::empty(),
            r.has_audio == has_audio,
            r.last_audio_queue_time == 0,
    {
        PreviewEngine {
            current_frame: None,
            last_requested_frame: None,
            frame_cache: HashMap::new(),
            has_audio,
            last_audio_queue_time: 0,
        }
    }

    /// What to do for the frame at the playhead: show it if it was decoded and is not
    /// shown at this brightness, ask for it if that was not done last, or show nothing if
    /// there is none. Too many kept frames are thrown away before.
    pub fn refresh(&mut self, state: &EditorState) -> (r: PreviewAction)
        ensures
            final(self).same_sound(*old(self)),
            ({
                let cache = if old(self).frame_cache@.len() > 300 {
                    Map::empty()
                } else {
                    old(self).frame_cache@
                };
                &&& final(self).frame_cache@ == cache
                &&& match state@.wanted() {
                    None => {
                        &&& r is Clear
                        &&& final(self).shown() is None
                        &&& final(self).last_requested_frame == old(self).last_requested_frame
                    },
                    Some(w) => match cached(cache, w.key) {
                        Some(frame) => {
                            &&& final(self).shown() == Some((w.key, w.brightness))
                            &&& final(self).last_requested_frame == old(self).last_requested_frame
                            &&& if old(self).shown() == Some((w.key, w.brightness)) {
                                r is Keep
                            } else {
                                r matches PreviewAction::Show(image) && looks_like(
                                    image,
                                    frame,
                                    w.brightness,
                                )
                            }
                        },
                        None => {
                            &&& final(self).shown() == old(self).shown()
                            &&& final(self).last_requested_frame == Some(w.key)
                            &&& if old(self).last_requested_frame == Some(w.key) {
                                r is Keep
                            } else {
                                r matches PreviewAction::Request(q) && q.key == w.key && q.target
                                    == w.target && q.path == state.assets@[w.asset].path
                                    && q.is_image == state.assets@[w.asset].is_image
                            }
                        },
                    },
                }
            }),
    {
        broadcast use vstd::std_specs::hash::group_hash_axioms;

        if self.frame_cache.len() > MAX_CACHED {
            self.frame_cache.clear();
        }
        let (key, num, den, target, asset) = match state.find_wanted() {
            Some(found) => found,
            None => {
                self.current_frame = None;
                return PreviewAction::Clear;
            },
        };
        match self.frame_cache.get(&key.as_number()) {
            Some(frame) => {
                let fresh: bool = match self.current_frame {
                    Some((k, n, d)) => k != key || n != num || d != den,
                    None => true,
                };
                if !fresh {
                    return PreviewAction::Keep;
                }
                let image = Self::picture_of(frame, num, den);
                self.current_frame = Some((key, num, den));
                PreviewAction::Show(image)
            },
            None => {
                let asked: bool = match self.last_requested_frame {
                    Some(k) => k == key,
                    None => false,
                };
                if asked {
                    return PreviewAction::Keep;
                }
                self.last_requested_frame = Some(key);
                PreviewAction::Request(
                    FrameRequest {
                        key,
                        path: state.assets[asset].path.clone(),
                        is_image: state.assets[asset].is_image,
                        target,
                    },
                )
            },
        }
    }

    fn picture_of(frame: &CachedFrame, num: i64, den: i64) -> (r: Image)
        requires
            0 <= num <= den,
            den > 0,
        ensures
            looks_like(r, *frame, (num as int, den as int)),
    {
        let mut rgba: Vec<u8> = frame.rgba.clone();
        assert(rgba@ =~= frame.rgba@);
        if num < den {
            crate::pixels::fade(&mut rgba, num, den);
        }
        Image { width: frame.width, height: frame.height, rgba }
    }

    /// Keeps a decoded frame. If it is the one at the playhead, it is shown.
    pub fn ingest(&mut self, state: &EditorState, frame: CachedFrame) -> (r: Option<Image>)
        ensures
            final(self).same_sound(*old(self)),
            final(self).last_requested_frame == old(self).last_requested_frame,
            final(self).frame_cache@ == with_frame(old(self).frame_cache@, frame),
            match state@.wanted() {
                Some(w) if w.key == frame.key => {
                    &&& r matches Some(image) && looks_like(image, frame, w.brightness)
                    &&& final(self).shown() == Some((w.key, w.brightness))
                },
                _ => r is None && final(self).shown() == old(self).shown(),
            },
    {
        broadcast use vstd::std_specs::hash::group_hash_axioms;

        let mut shown: Option<Image> = None;
        if let Some((key, num, den, _, _)) = state.find_wanted() {
            if key == frame.key {
                shown = Some(Self::picture_of(&frame, num, den));
                self.current_frame = Some((key, num, den));
            }
        }
        self.frame_cache.insert(frame.key.as_number(), frame);
        shown
    }

    /// Begins to play. The sound starts at the playhead.
    pub fn start_playback(&mut self, state: &mut EditorState) -> (r: SinkAction)
        ensures
            final(state)@ == (EditorModel { is_playing: true, ..old(state)@ }),
            final(self).shown() == old(self).shown(),
            final(self).last_requested_frame == old(self).last_requested_frame,
            final(self).frame_cache@ == old(self).frame_cache@,
            final(self).has_audio == old(self).has_audio,
            if old(self).has_audio {
                r == SinkAction::Restart && final(self).last_audio_queue_time == old(state).playhead
            } else {
                r == SinkAction::Nothing && final(self).last_audio_queue_time == old(self).last_audio_queue_time
            },
    {
        state.is_playing = true;
        if self.has_audio {
            self.last_audio_queue_time = state.playhead;
            SinkAction::Restart
        } else {
            SinkAction::Nothing
        }
    }

    /// Stops playing.
    pub fn stop_playback(&mut self, state: &mut EditorState) -> (r: SinkAction)
        ensures
            final(state)@ == (EditorModel { is_playing: false, ..old(state)@ }),
            *final(self) == *old(self),
            r == if old(self).has_audio {
                SinkAction::Pause
            } else {
                SinkAction::Nothing
            },
    {
        state.is_playing = false;
        if self.has_audio {
            SinkAction::Pause
        } else {
            SinkAction::Nothing
        }
    }

    /// Moves the playhead to `t`. The sound follows, and the frame there may be asked for
    /// again.
    pub fn seek_to(&mut self, state: &mut EditorState, t: i64) -> (r: SinkAction)
        ensures
            final(state)@ == (EditorModel { playhead: t, ..old(state)@ }),
            final(self).shown() == old(self).shown(),
            final(self).last_requested_frame is None,
            final(self).frame_cache@ == old(self).frame_cache@,
            final(self).has_audio == old(self).has_audio,
            if old(self).has_audio {
                final(self).last_audio_queue_time == t && r == if old(state).is_playing {
                    SinkAction::Restart
                } else {
                    SinkAction::Stop
                }
            } else {
                r == SinkAction::Nothing && final(self).last_audio_queue_time == old(self).last_audio_queue_time
            },
    {
        state.playhead = t;
        self.last_requested_frame = None;
        if self.has_audio {
            self.last_audio_queue_time = t;
            if state.is_playing {
                SinkAction::Restart
            } else {
                SinkAction::Stop
            }
        } else {
            SinkAction::Nothing
        }
    }

    /// Keeps the sound with the playhead: where they drifted apart it starts over at the
    /// playhead.
    pub fn sync_audio(&mut self, state: &EditorState) -> (r: SinkAction)
        ensures
            final(self).shown() == old(self).shown(),
            final(self).last_requested_frame == old(self).last_requested_frame,
            final(self).frame_cache@ == old(self).frame_cache@,
            final(self).has_audio == old(self).has_audio,
            if state.is_playing && old(self).has_audio && crate::drag::distance(
                state.playhead as int,
                old(self).last_audio_queue_time as int,
            ) > 400_000_000 {
                r == SinkAction::Restart && final(self).last_audio_queue_time == state.playhead
            } else {
                r == SinkAction::Nothing && final(self).last_audio_queue_time == old(self).last_audio_queue_time
            },
    {
        let apart: i128 = state.playhead as i128 - self.last_audio_queue_time as i128;
        if state.is_playing && self.has_audio && (apart > MAX_DRIFT as i128 || -apart
            > MAX_DRIFT as i128) {
            self.last_audio_queue_time = state.playhead;
            SinkAction::Restart
        } else {
            SinkAction::Nothing
        }
    }

    /// Takes the next block of sound to be mixed: where it begins.
    pub fn next_audio_block(&mut self) -> (start: i64)
        requires
            old(self).last_audio_queue_time + 100_000_000 <= i64::MAX,
        ensures
            start == old(self).last_audio_queue_time,
            final(self).last_audio_queue_time == start + 100_000_000,
            final(self).shown() == old(self).shown(),
            final(self).last_requested_frame == old(self).last_requested_frame,
            final(self).frame_cache@ == old(self).frame_cache@,
            final(self).has_audio == old(self).has_audio,
    {
        let start: i64 = self.last_audio_queue_time;
        self.last_audio_queue_time = start + AUDIO_BLOCK;
        start
    }
}

/// A step of one frame at thirty frames per second, in nanoseconds.
pub const FRAME_STEP: i64 = 33_333_333;

/// Where the playhead goes one frame back: not before zero.
pub fn step_back(playhead: i64) -> (r: i64)
    ensures
        r == crate::drag::at_least(playhead - 33_333_333, 0),
{
    if playhead > FRAME_STEP {
        playhead - FRAME_STEP
    } else {
        0
    }
}

/// Where the playhead goes one frame on.
pub fn step_forward(playhead: i64) -> (r: i64)
    ensures
        r == crate::time::saturated_i64(playhead + 33_333_333),
{
    saturate_i64(playhead as i128 + FRAME_STEP as i128)
}

// The viewport

/// The largest size with the proportions of a picture that fits an area.
pub open spec fn fitted(width: int, height: int, area_width: int, area_height: int) -> (int, int) {
    if width <= 0 || height <= 0 {
        (area_width, area_height)
    } else if area_width * height <= area_height * width {
        (area_width, area_width * height / width)
    } else {
        (area_height * width / height, area_height)
    }
}

/// Fits a picture into an area, keeping its proportions.
pub fn fit_area(width: u32, height: u32, area_width: i64, area_height: i64) -> (r: (i64, i64))
    requires
        area_width >= 0,
        area_height >= 0,
    ensures
        (r.0 as int, r.1 as int) == fitted(
            width as int,
            height as int,
            area_width as int,
            area_height as int,
        ),
        0 <= r.0 <= area_width,
        0 <= r.1 <= area_height,
{
    if width == 0 || height == 0 {
        return (area_width, area_height);
    }
    proof {
        let (w, h, a, b) = (width as int, height as int, area_width as int, area_height as int);
        assert(0 <= a * h <= 0x8000_0000_0000_0000 * 0x1_0000_0000) by (nonlinear_arith)
            requires
                0 <= a <= 0x8000_0000_0000_0000,
                0 <= h <= 0x1_0000_0000,
        ;
        assert(0 <= b * w <= 0x8000_0000_0000_0000 * 0x1_0000_0000) by (nonlinear_arith)
            requires
                0 <= b <= 0x8000_0000_0000_0000,
                0 <= w <= 0x1_0000_0000,
        ;
        if a * h <= b * w {
            assert(0 <= (a * h) / w <= b) by (nonlinear_arith)
                requires
                    0 <= a * h <= b * w,
                    w > 0,
            ;
        } else {
            assert(0 <= (b * w) / h <= a) by (nonlinear_arith)
                requires
                    0 <= b * w < a * h,
                    h > 0,
            ;
        }
    }
    let by_width: i128 = area_width as i128 * height as i128;
    let by_height: i128 = area_height as i128 * width as i128;
    if by_width <= by_height {
        (area_width, (by_width / width as i128) as i64)
    } else {
        ((by_height / height as i128) as i64, area_height)
    }
}

} // verus!
