//! What is seen and heard of the timeline.

use crate::audio::Voice;
use crate::editor::{Clip, EditorModel, TrackModel};
use crate::laws::editing::tracks_of;
use crate::laws::trimming::is_asset_of;
use crate::media::MediaAsset;
use crate::preview::PreviewEngine;
use vstd::prelude::*;

verus! {

// What is seen

/// Whether the clip at these indices may be seen at `t`: it plays then, its asset is known,
/// and its track is not hidden, and solo if any video track is.
pub open spec fn may_be_seen(m: EditorModel, t: int, track: int, clip: int) -> bool {
    &&& 0 <= track < m.video_tracks.len()
    &&& 0 <= clip < m.video_tracks[track].clips.len()
    &&& !m.video_tracks[track].is_hidden
    &&& (exists|k: int| 0 <= k < m.video_tracks.len() && (#[trigger] m.video_tracks[k]).is_solo)
        ==> m.video_tracks[track].is_solo
    &&& m.video_tracks[track].clips[clip].timeline_start <= t
    &&& t < m.video_tracks[track].clips[clip].timeline_end
    &&& exists|a: int| is_asset_of(m, m.video_tracks[track].clips[clip], a)
}

/// Whether the clip at these indices is the one that is seen at `t`: it may be seen, none on a
/// later track may, and it is the first of its track that may.
pub open spec fn is_on_top(m: EditorModel, t: int, track: int, clip: int) -> bool {
    &&& may_be_seen(m, t, track, clip)
    &&& forall|k: int, i: int|
        #[trigger] may_be_seen(m, t, k, i) ==> k < track || k == track && i >= clip
}

proof fn lemma_playing(m: EditorModel, t: int, track: int, clip: int)
    requires
        0 <= track < m.video_tracks.len(),
        0 <= clip < m.video_tracks[track].clips.len(),
    ensures
        may_be_seen(m, t, track, clip) == (crate::preview::is_seen(
            m.video_tracks[track],
            crate::preview::any_solo(m.video_tracks),
        ) && crate::preview::playing_at(m.assets, t)(m.video_tracks[track].clips[clip])),
{
    let c = m.video_tracks[track].clips[clip];
    crate::laws::trimming::assets_are_found_by_their_id(m, c);
    match crate::search::first_where(m.assets, crate::drag::of_asset(c.asset_id)) {
        Some(a) => {
            assert(is_asset_of(m, c, a));
        },
        None => {},
    }
}

proof fn lemma_on_top(m: EditorModel, t: int, upto: int)
    requires
        0 <= upto <= m.video_tracks.len(),
    ensures
        match crate::preview::seen_in(m.video_tracks, m.assets, t, upto) {
            Some((k, i)) => k < upto && may_be_seen(m, t, k, i) && forall|l: int, j: int|
                l < upto && #[trigger] may_be_seen(m, t, l, j) ==> l < k || l == k && j >= i,
            None => forall|l: int, j: int| l < upto ==> !#[trigger] may_be_seen(m, t, l, j),
        },
    decreases upto,
{
    if upto > 0 {
        lemma_on_top(m, t, upto - 1);
        let clips = m.video_tracks[upto - 1].clips;
        let cond = crate::preview::playing_at(m.assets, t);
        crate::search::first_where_is_first(clips, cond);
        assert forall|j: int| 0 <= j < clips.len() implies #[trigger] may_be_seen(
            m,
            t,
            upto - 1,
            j,
        ) == (crate::preview::is_seen(
            m.video_tracks[upto - 1],
            crate::preview::any_solo(m.video_tracks),
        ) && cond(clips[j])) by {
            lemma_playing(m, t, upto - 1, j);
        }
        match crate::search::first_where(clips, cond) {
            Some(i) => {
                assert(may_be_seen(m, t, upto - 1, i) == crate::preview::is_seen(
                    m.video_tracks[upto - 1],
                    crate::preview::any_solo(m.video_tracks),
                ));
            },
            None => {},
        }
    }
}

/// What is seen at an instant is the clip on top, with its asset. Nothing is seen only where no
/// clip may be.
pub proof fn the_clip_on_top_is_seen(m: EditorModel, t: int)
    ensures
        match m.seen_at(t) {
            Some((track, clip, asset)) => is_on_top(m, t, track, clip) && is_asset_of(
                m,
                m.video_tracks[track].clips[clip],
                asset,
            ),
            None => forall|track: int, clip: int| !#[trigger] may_be_seen(m, t, track, clip),
        },
{
    lemma_on_top(m, t, m.video_tracks.len() as int);
    match crate::preview::seen_in(m.video_tracks, m.assets, t, m.video_tracks.len() as int) {
        Some((k, i)) => {
            crate::laws::trimming::assets_are_found_by_their_id(m, m.video_tracks[k].clips[i]);
        },
        None => {},
    }
}

/// Whether `part` of `whole` is how much of a clip is to be seen at `t`: a fade-in begins with
/// nothing and grows with the time since the beginning, and a fade-out shrinks with the time
/// that is left to the end. Where both overlap, the fade-in counts.
pub open spec fn is_faded_to(c: Clip, t: int, part: int, whole: int) -> bool {
    let since = t - c.timeline_start;
    let left = c.timeline_end - t;
    if c.fade_in_duration > 0 && since < c.fade_in_duration {
        part == since && whole == c.fade_in_duration
    } else if c.fade_out_duration > 0 && left < c.fade_out_duration {
        part == left && whole == c.fade_out_duration
    } else {
        part == whole && whole > 0
    }
}

/// A clip is faded as its fades say while it plays.
pub proof fn clips_fade_in_and_out(c: Clip, t: int)
    requires
        c.timeline_start <= t < c.timeline_end,
    ensures
        is_faded_to(
            c,
            t,
            crate::preview::brightness(c, t).0,
            crate::preview::brightness(c, t).1,
        ),
{
}

/// Whether `frame` is the number of the frame of an asset that is nearest to an instant of it.
/// A still image has one frame.
pub open spec fn is_nearest_frame(asset: MediaAsset, t: int, frame: int) -> bool {
    let per = asset.fps.den * 1_000_000_000;
    if asset.is_image || asset.fps.den == 0 || t <= 0 {
        frame == 0
    } else {
        (2 * frame - 1) * per <= 2 * (t * asset.fps.num) < (2 * frame + 1) * per
    }
}

/// The frame that is wanted is the nearest to the instant.
pub proof fn frames_are_the_nearest(asset: MediaAsset, t: int)
    requires
        i64::MIN <= t <= i64::MAX,
        crate::preview::frame_number(asset, t) < usize::MAX,
    ensures
        is_nearest_frame(asset, t, crate::preview::frame_number(asset, t)),
{
    if !asset.is_image && asset.fps.den != 0 && t > 0 {
        let per = asset.fps.den * 1_000_000_000;
        let n = 2 * (t * asset.fps.num) + per;
        let f = n / (2 * per);
        assert(t * asset.fps.num >= 0) by (nonlinear_arith)
            requires
                t > 0,
                asset.fps.num >= 0,
        ;
        vstd::arithmetic::div_mod::lemma_fundamental_div_mod(n, 2 * per);
        vstd::arithmetic::div_mod::lemma_div_pos_is_pos(n, 2 * per);
        assert((2 * per) * f == (2 * f - 1) * per + per) by (nonlinear_arith);
        assert((2 * per) * f + 2 * per == (2 * f + 1) * per + per) by (nonlinear_arith);
    }
}

/// The frame to be seen at the playhead is of the clip on top. At the clip's first instant it
/// is the one where the clip begins in its source, and from there on the source advances
/// with the playhead. It is faded as the clip is.
pub proof fn the_preview_shows_the_source_from_its_trim_start(m: EditorModel) -> (r: (int, int))
    ensures
        match m.wanted() {
            Some(w) => {
                let (track, clip) = r;
                let c = m.video_tracks[track].clips[clip];
                let source = c.source_trim_start + (m.playhead - c.timeline_start);
                &&& is_on_top(m, m.playhead as int, track, clip)
                &&& is_asset_of(m, c, w.asset)
                &&& w.key.asset_id == c.asset_id
                &&& i64::MIN <= source <= i64::MAX ==> w.target == source && (w.key.frame_idx
                    < usize::MAX ==> is_nearest_frame(
                    m.assets[w.asset],
                    source,
                    w.key.frame_idx as int,
                ))
                &&& is_faded_to(c, m.playhead as int, w.brightness.0, w.brightness.1)
            },
            None => forall|track: int, clip: int|
                !#[trigger] may_be_seen(m, m.playhead as int, track, clip),
        },
{
    the_clip_on_top_is_seen(m, m.playhead as int);
    match m.seen_at(m.playhead as int) {
        Some((k, i, a)) => {
            let c = m.video_tracks[k].clips[i];
            let source = c.source_trim_start + (m.playhead - c.timeline_start);
            clips_fade_in_and_out(c, m.playhead as int);
            if i64::MIN <= source <= i64::MAX {
                let f = crate::preview::frame_number(m.assets[a], source);
                assert(0 <= f <= usize::MAX) by {
                    let asset = m.assets[a];
                    if !asset.is_image && asset.fps.den != 0 && source > 0 {
                        let per = asset.fps.den * 1_000_000_000;
                        let n = 2 * (source * asset.fps.num) + per;
                        assert(source * asset.fps.num >= 0) by (nonlinear_arith)
                            requires
                                source > 0,
                                asset.fps.num >= 0,
                        ;
                        vstd::arithmetic::div_mod::lemma_div_pos_is_pos(n, 2 * per);
                    }
                }
                if f < usize::MAX {
                    frames_are_the_nearest(m.assets[a], source);
                }
            }
            (k, i)
        },
        None => (0, 0),
    }
}

/// Moving a clip and the playhead together changes neither the source instant nor the frame
/// nor the fade that is seen, as long as the clip stays on top.
pub proof fn what_is_seen_moves_with_the_clip(
    m: EditorModel,
    n: EditorModel,
    track: int,
    clip: int,
    by: int,
)
    requires
        is_on_top(m, m.playhead as int, track, clip),
        is_on_top(n, n.playhead as int, track, clip),
        n.assets == m.assets,
        n.playhead == m.playhead + by,
        ({
            let c = m.video_tracks[track].clips[clip];
            let d = n.video_tracks[track].clips[clip];
            &&& d.timeline_start == c.timeline_start + by
            &&& d.timeline_end == c.timeline_end + by
            &&& d.asset_id == c.asset_id
            &&& d.source_trim_start == c.source_trim_start
            &&& d.fade_in_duration == c.fade_in_duration
            &&& d.fade_out_duration == c.fade_out_duration
        }),
    ensures
        m.wanted() is Some,
        n.wanted() == m.wanted(),
{
    the_clip_on_top_is_seen(m, m.playhead as int);
    the_clip_on_top_is_seen(n, n.playhead as int);
    let c = m.video_tracks[track].clips[clip];
    let d = n.video_tracks[track].clips[clip];
    match m.seen_at(m.playhead as int) {
        Some((k, i, a)) => {
            assert(may_be_seen(m, m.playhead as int, track, clip));
            assert(may_be_seen(m, m.playhead as int, k, i));
            assert(k == track && i == clip);
            match n.seen_at(n.playhead as int) {
                Some((l, j, b)) => {
                    assert(may_be_seen(n, n.playhead as int, track, clip));
                    assert(may_be_seen(n, n.playhead as int, l, j));
                    assert(l == track && j == clip);
                    assert(is_asset_of(n, d, a));
                    crate::laws::trimming::assets_are_found_by_their_id(n, d);
                    assert(a == b);
                },
                None => {
                    assert(!may_be_seen(n, n.playhead as int, track, clip));
                },
            }
        },
        None => {
            assert(!may_be_seen(m, m.playhead as int, track, clip));
        },
    }
}

/// Two engines agree in their sound where both have an output or none, and both have queued
/// sound up to the same instant.
pub proof fn engines_agree_in_their_sound(a: PreviewEngine, b: PreviewEngine)
    ensures
        a.same_sound(b) == (a.has_audio == b.has_audio && a.last_audio_queue_time
            == b.last_audio_queue_time),
        a.shown() is None <==> a.current_frame is None,
        a.current_frame matches Some((key, part, whole)) ==> a.shown() == Some(
            (key, (part as int, whole as int)),
        ),
{
}

// What is heard

/// Whether a track is to be heard: a video track that is not hidden or an audio track that is
/// not muted, and solo if any track of its lane is.
pub open spec fn is_audible(tracks: Seq<TrackModel>, is_video: bool, track: int) -> bool {
    &&& 0 <= track < tracks.len()
    &&& is_video ==> !tracks[track].is_hidden
    &&& !is_video ==> !tracks[track].is_muted
    &&& (exists|k: int| 0 <= k < tracks.len() && (#[trigger] tracks[k]).is_solo)
        ==> tracks[track].is_solo
}

/// Whether `a` is the first of the assets that has the given id.
pub open spec fn is_first_with_id(assets: Seq<MediaAsset>, id: usize, a: int) -> bool {
    0 <= a < assets.len() && assets[a].id == id && forall|b: int|
        0 <= b < a ==> (#[trigger] assets[b]).id != id
}

/// Whether a clip sounds between two instants: it plays then, and the sound of its asset was
/// decoded.
pub open spec fn sounds_between(c: Clip, assets: Seq<MediaAsset>, start: int, end: int) -> bool {
    &&& start < end
    &&& c.timeline_start < c.timeline_end
    &&& c.timeline_start < end
    &&& start < c.timeline_end
    &&& exists|a: int|
        #[trigger] is_first_with_id(assets, c.asset_id, a) && assets[a].audio_samples is Some
}

/// Whether a voice is that of a clip on a track with the given volume.
pub open spec fn is_voice_of(v: Voice, c: Clip, assets: Seq<MediaAsset>, volume: u32) -> bool {
    v.clip == c && v.volume == volume && is_first_with_id(assets, c.asset_id, v.asset as int)
}

proof fn lemma_voice(c: Clip, assets: Seq<MediaAsset>, volume: u32, start: int, end: int)
    requires
        assets.len() <= usize::MAX,
    ensures
        match crate::audio::voice_of(c, assets, volume, start, end) {
            Some(v) => sounds_between(c, assets, start, end) && is_voice_of(v, c, assets, volume),
            None => !sounds_between(c, assets, start, end),
        },
{
    let cond = crate::drag::of_asset(c.asset_id);
    crate::search::first_where_is_first(assets, cond);
    match crate::search::first_where(assets, cond) {
        Some(a) => {
            assert forall|b: int| 0 <= b < a implies (#[trigger] assets[b]).id != c.asset_id by {
                assert(!cond(assets[b]));
            }
            assert(is_first_with_id(assets, c.asset_id, a));
            if sounds_between(c, assets, start, end) {
                let b = choose|b: int|
                    #[trigger] is_first_with_id(assets, c.asset_id, b)
                        && assets[b].audio_samples is Some;
                assert(a == b);
            }
        },
        None => {
            assert forall|b: int| !is_first_with_id(assets, c.asset_id, b) by {
                if 0 <= b < assets.len() {
                    assert(!cond(assets[b]));
                }
            }
        },
    }
}

proof fn lemma_voice_from_clip(
    clips: Seq<Clip>,
    assets: Seq<MediaAsset>,
    volume: u32,
    start: int,
    end: int,
    j: int,
) -> (i: int)
    requires
        assets.len() <= usize::MAX,
        0 <= j < crate::audio::clip_voices(clips, assets, volume, start, end).len(),
    ensures
        0 <= i < clips.len(),
        sounds_between(clips[i], assets, start, end),
        is_voice_of(
            crate::audio::clip_voices(clips, assets, volume, start, end)[j],
            clips[i],
            assets,
            volume,
        ),
    decreases clips.len(),
{
    let front = clips.drop_last();
    let before = crate::audio::clip_voices(front, assets, volume, start, end);
    lemma_voice(clips.last(), assets, volume, start, end);
    if j < before.len() {
        lemma_voice_from_clip(front, assets, volume, start, end, j)
    } else {
        clips.len() - 1
    }
}

proof fn lemma_voice_of_clip(
    clips: Seq<Clip>,
    assets: Seq<MediaAsset>,
    volume: u32,
    start: int,
    end: int,
    i: int,
) -> (j: int)
    requires
        assets.len() <= usize::MAX,
        0 <= i < clips.len(),
        sounds_between(clips[i], assets, start, end),
    ensures
        0 <= j < crate::audio::clip_voices(clips, assets, volume, start, end).len(),
        is_voice_of(
            crate::audio::clip_voices(clips, assets, volume, start, end)[j],
            clips[i],
            assets,
            volume,
        ),
    decreases clips.len(),
{
    let front = clips.drop_last();
    let before = crate::audio::clip_voices(front, assets, volume, start, end);
    lemma_voice(clips.last(), assets, volume, start, end);
    if i < front.len() {
        lemma_voice_of_clip(front, assets, volume, start, end, i)
    } else {
        before.len() as int
    }
}

proof fn lemma_voices_in_clip_order(
    clips: Seq<Clip>,
    assets: Seq<MediaAsset>,
    volume: u32,
    start: int,
    end: int,
    j: int,
    l: int,
) -> (r: (int, int))
    requires
        assets.len() <= usize::MAX,
        0 <= j < l < crate::audio::clip_voices(clips, assets, volume, start, end).len(),
    ensures
        0 <= r.0 < r.1 < clips.len(),
        crate::audio::clip_voices(clips, assets, volume, start, end)[j].clip == clips[r.0],
        crate::audio::clip_voices(clips, assets, volume, start, end)[l].clip == clips[r.1],
    decreases clips.len(),
{
    let front = clips.drop_last();
    let before = crate::audio::clip_voices(front, assets, volume, start, end);
    lemma_voice(clips.last(), assets, volume, start, end);
    if l < before.len() {
        lemma_voices_in_clip_order(front, assets, volume, start, end, j, l)
    } else {
        let i = lemma_voice_from_clip(front, assets, volume, start, end, j);
        (i, clips.len() - 1)
    }
}

proof fn lemma_voice_from_track(
    tracks: Seq<TrackModel>,
    assets: Seq<MediaAsset>,
    is_video: bool,
    has_solo: bool,
    start: int,
    end: int,
    j: int,
) -> (r: (int, int))
    requires
        assets.len() <= usize::MAX,
        0 <= j < crate::audio::track_voices(
            tracks,
            assets,
            is_video,
            has_solo,
            start,
            end,
        ).len(),
    ensures
        0 <= r.0 < tracks.len(),
        0 <= r.1 < tracks[r.0].clips.len(),
        is_video ==> !tracks[r.0].is_hidden,
        !is_video ==> !tracks[r.0].is_muted,
        has_solo ==> tracks[r.0].is_solo,
        sounds_between(tracks[r.0].clips[r.1], assets, start, end),
        is_voice_of(
            crate::audio::track_voices(tracks, assets, is_video, has_solo, start, end)[j],
            tracks[r.0].clips[r.1],
            assets,
            tracks[r.0].volume,
        ),
    decreases tracks.len(),
{
    let front = tracks.drop_last();
    let track = tracks.last();
    let before = crate::audio::track_voices(front, assets, is_video, has_solo, start, end);
    if j < before.len() {
        lemma_voice_from_track(front, assets, is_video, has_solo, start, end, j)
    } else {
        let i = lemma_voice_from_clip(
            track.clips,
            assets,
            track.volume,
            start,
            end,
            j - before.len(),
        );
        (tracks.len() - 1, i)
    }
}

proof fn lemma_voice_of_track(
    tracks: Seq<TrackModel>,
    assets: Seq<MediaAsset>,
    is_video: bool,
    has_solo: bool,
    start: int,
    end: int,
    k: int,
    i: int,
) -> (j: int)
    requires
        assets.len() <= usize::MAX,
        0 <= k < tracks.len(),
        0 <= i < tracks[k].clips.len(),
        is_video ==> !tracks[k].is_hidden,
        !is_video ==> !tracks[k].is_muted,
        has_solo ==> tracks[k].is_solo,
        sounds_between(tracks[k].clips[i], assets, start, end),
    ensures
        0 <= j < crate::audio::track_voices(
            tracks,
            assets,
            is_video,
            has_solo,
            start,
            end,
        ).len(),
        is_voice_of(
            crate::audio::track_voices(tracks, assets, is_video, has_solo, start, end)[j],
            tracks[k].clips[i],
            assets,
            tracks[k].volume,
        ),
    decreases tracks.len(),
{
    let front = tracks.drop_last();
    let track = tracks.last();
    let before = crate::audio::track_voices(front, assets, is_video, has_solo, start, end);
    if k < front.len() {
        lemma_voice_of_track(front, assets, is_video, has_solo, start, end, k, i)
    } else {
        let j = lemma_voice_of_clip(track.clips, assets, track.volume, start, end, i);
        before.len() + j
    }
}

proof fn lemma_voices_in_track_order(
    tracks: Seq<TrackModel>,
    assets: Seq<MediaAsset>,
    is_video: bool,
    has_solo: bool,
    start: int,
    end: int,
    j: int,
    l: int,
) -> (r: (int, int, int, int))
    requires
        assets.len() <= usize::MAX,
        0 <= j < l < crate::audio::track_voices(
            tracks,
            assets,
            is_video,
            has_solo,
            start,
            end,
        ).len(),
    ensures
        0 <= r.0 < tracks.len(),
        0 <= r.1 < tracks[r.0].clips.len(),
        0 <= r.2 < tracks.len(),
        0 <= r.3 < tracks[r.2].clips.len(),
        r.0 < r.2 || r.0 == r.2 && r.1 < r.3,
        crate::audio::track_voices(tracks, assets, is_video, has_solo, start, end)[j].clip
            == tracks[r.0].clips[r.1],
        crate::audio::track_voices(tracks, assets, is_video, has_solo, start, end)[l].clip
            == tracks[r.2].clips[r.3],
    decreases tracks.len(),
{
    let front = tracks.drop_last();
    let track = tracks.last();
    let before = crate::audio::track_voices(front, assets, is_video, has_solo, start, end);
    if l < before.len() {
        lemma_voices_in_track_order(front, assets, is_video, has_solo, start, end, j, l)
    } else if j < before.len() {
        let (k, i) = lemma_voice_from_track(front, assets, is_video, has_solo, start, end, j);
        let n = lemma_voice_from_clip(
            track.clips,
            assets,
            track.volume,
            start,
            end,
            l - before.len(),
        );
        (k, i, tracks.len() - 1, n)
    } else {
        let (i, n) = lemma_voices_in_clip_order(
            track.clips,
            assets,
            track.volume,
            start,
            end,
            j - before.len(),
            l - before.len(),
        );
        (tracks.len() - 1, i, tracks.len() - 1, n)
    }
}

/// Every voice is that of a clip that sounds then, on a track that is to be heard, at the
/// volume of the track. The result is the lane, the track and the place of the clip.
pub proof fn voices_come_from_audible_tracks(m: EditorModel, start: int, end: int, j: int) -> (r: (
    bool,
    int,
    int,
))
    requires
        m.assets.len() <= usize::MAX,
        0 <= j < m.voices(start, end).len(),
    ensures
        ({
            let (is_video, track, clip) = r;
            let tracks = tracks_of(m, is_video);
            &&& is_audible(tracks, is_video, track)
            &&& 0 <= clip < tracks[track].clips.len()
            &&& sounds_between(tracks[track].clips[clip], m.assets, start, end)
            &&& is_voice_of(
                m.voices(start, end)[j],
                tracks[track].clips[clip],
                m.assets,
                tracks[track].volume,
            )
        }),
{
    let video = crate::audio::track_voices(
        m.video_tracks,
        m.assets,
        true,
        crate::preview::any_solo(m.video_tracks),
        start,
        end,
    );
    if j < video.len() {
        let (k, i) = lemma_voice_from_track(
            m.video_tracks,
            m.assets,
            true,
            crate::preview::any_solo(m.video_tracks),
            start,
            end,
            j,
        );
        (true, k, i)
    } else {
        let (k, i) = lemma_voice_from_track(
            m.audio_tracks,
            m.assets,
            false,
            crate::preview::any_solo(m.audio_tracks),
            start,
            end,
            j - video.len(),
        );
        (false, k, i)
    }
}

/// Every clip that sounds then, on a track that is to be heard, has a voice. The result is its
/// number.
pub proof fn audible_clips_have_a_voice(
    m: EditorModel,
    start: int,
    end: int,
    is_video: bool,
    track: int,
    clip: int,
) -> (j: int)
    requires
        m.assets.len() <= usize::MAX,
        is_audible(tracks_of(m, is_video), is_video, track),
        0 <= clip < tracks_of(m, is_video)[track].clips.len(),
        sounds_between(tracks_of(m, is_video)[track].clips[clip], m.assets, start, end),
    ensures
        0 <= j < m.voices(start, end).len(),
        is_voice_of(
            m.voices(start, end)[j],
            tracks_of(m, is_video)[track].clips[clip],
            m.assets,
            tracks_of(m, is_video)[track].volume,
        ),
{
    let video = crate::audio::track_voices(
        m.video_tracks,
        m.assets,
        true,
        crate::preview::any_solo(m.video_tracks),
        start,
        end,
    );
    if is_video {
        lemma_voice_of_track(
            m.video_tracks,
            m.assets,
            true,
            crate::preview::any_solo(m.video_tracks),
            start,
            end,
            track,
            clip,
        )
    } else {
        let j = lemma_voice_of_track(
            m.audio_tracks,
            m.assets,
            false,
            crate::preview::any_solo(m.audio_tracks),
            start,
            end,
            track,
            clip,
        );
        video.len() + j
    }
}

/// No clip is heard twice: two voices are those of clips in different places. The result are
/// the lanes, the tracks and the places.
pub proof fn voices_are_heard_once(m: EditorModel, start: int, end: int, j: int, l: int) -> (r: (
    (bool, int, int),
    (bool, int, int),
))
    requires
        m.assets.len() <= usize::MAX,
        0 <= j < l < m.voices(start, end).len(),
    ensures
        r.0 != r.1,
        0 <= r.0.1 < tracks_of(m, r.0.0).len(),
        0 <= r.0.2 < tracks_of(m, r.0.0)[r.0.1].clips.len(),
        m.voices(start, end)[j].clip == tracks_of(m, r.0.0)[r.0.1].clips[r.0.2],
        0 <= r.1.1 < tracks_of(m, r.1.0).len(),
        0 <= r.1.2 < tracks_of(m, r.1.0)[r.1.1].clips.len(),
        m.voices(start, end)[l].clip == tracks_of(m, r.1.0)[r.1.1].clips[r.1.2],
{
    let video_solo = crate::preview::any_solo(m.video_tracks);
    let audio_solo = crate::preview::any_solo(m.audio_tracks);
    let video = crate::audio::track_voices(
        m.video_tracks,
        m.assets,
        true,
        video_solo,
        start,
        end,
    );
    let n = video.len() as int;
    if l < n {
        let (a, b, c, d) = lemma_voices_in_track_order(
            m.video_tracks,
            m.assets,
            true,
            video_solo,
            start,
            end,
            j,
            l,
        );
        ((true, a, b), (true, c, d))
    } else if j < n {
        let (a, b) = lemma_voice_from_track(
            m.video_tracks,
            m.assets,
            true,
            video_solo,
            start,
            end,
            j,
        );
        let (c, d) = lemma_voice_from_track(
            m.audio_tracks,
            m.assets,
            false,
            audio_solo,
            start,
            end,
            l - n,
        );
        ((true, a, b), (false, c, d))
    } else {
        let (a, b, c, d) = lemma_voices_in_track_order(
            m.audio_tracks,
            m.assets,
            false,
            audio_solo,
            start,
            end,
            j - n,
            l - n,
        );
        ((false, a, b), (false, c, d))
    }
}

/// What is heard of a voice in a frame: the sample `k` of each channel that lasts over the
/// instant of the source that is played in that frame, at the volume of the track and as
/// loud as the clip is faded then. Nothing is heard outside of the clip, outside of its source,
/// or where samples are missing. The instants are counted in parts of which a nanosecond has
/// 44100.
pub proof fn a_frame_plays_the_sample_of_its_instant(
    v: Voice,
    asset: MediaAsset,
    start: int,
    frame: int,
    k: int,
)
    requires
        ({
            let c = v.clip;
            let at = start * 44_100 + frame * 1_000_000_000;
            let source = at + (c.source_trim_start - c.timeline_start) * 44_100;
            &&& 0 <= k
            &&& k * 44_100_000_000_000 <= source * asset.audio_sample_rate < (k + 1)
                * 44_100_000_000_000
        }),
    ensures
        ({
            let c = v.clip;
            let at = start * 44_100 + frame * 1_000_000_000;
            let source = at + (c.source_trim_start - c.timeline_start) * 44_100;
            let since = at - c.timeline_start * 44_100;
            let left = c.timeline_end * 44_100 - at;
            let channels = asset.audio_channels as int;
            let plays = since >= 0 && left > 0 && 0 <= source < asset.duration * 44_100 && channels
                > 0;
            let has_samples = asset.audio_samples matches Some(n) && if channels == 1 {
                k < n
            } else {
                k * channels + 1 < n
            };
            match v.sound(asset, start, frame) {
                None => !plays || !has_samples,
                Some(s) => {
                    &&& plays
                    &&& has_samples
                    &&& s.left == k * channels
                    &&& s.right == if channels == 1 {
                        k
                    } else {
                        k * channels + 1
                    }
                    &&& if c.fade_in_duration > 0 && since < c.fade_in_duration * 44_100 {
                        s.numer == v.volume * since && s.denom == 1_000 * (c.fade_in_duration
                            * 44_100)
                    } else if c.fade_out_duration > 0 && left < c.fade_out_duration * 44_100 {
                        s.numer == v.volume * left && s.denom == 1_000 * (c.fade_out_duration
                            * 44_100)
                    } else {
                        s.numer == v.volume && s.denom == 1_000
                    }
                },
            }
        }),
{
    let c = v.clip;
    let at = start * 44_100 + frame * 1_000_000_000;
    let source = at + (c.source_trim_start - c.timeline_start) * 44_100;
    let rate = asset.audio_sample_rate as int;
    let channels = asset.audio_channels as int;
    assert(source * rate / 44_100_000_000_000 == k);
    if v.sound(asset, start, frame) is Some {
        crate::audio::lemma_scaled(source, rate);
        let (part, whole) = crate::audio::loudness(c, at);
        crate::audio::lemma_scaled(part, v.volume as int);
        assert(v.volume * part == part * v.volume) by (nonlinear_arith);
        assert(k * 1 == k);
        assert(k * channels >= 0) by (nonlinear_arith)
            requires
                k >= 0,
                channels >= 0,
        ;
    }
}

/// The instants of the frames of the mix lie a 44100th of a second apart, rounded down.
pub proof fn frames_of_the_mix_are_even(start: int, frame: int)
    requires
        frame >= 0,
    ensures
        ({
            let t = crate::audio::frame_time(start, frame) - start;
            t * 44_100 <= frame * 1_000_000_000 < (t + 1) * 44_100
        }),
{
}

// Playing

/// Whether no clip ends after `end`.
pub open spec fn nothing_plays_after(m: EditorModel, end: int) -> bool {
    &&& forall|t: int, i: int|
        0 <= t < m.video_tracks.len() && 0 <= i < m.video_tracks[t].clips.len() ==> (
        #[trigger] m.video_tracks[t].clips[i]).timeline_end <= end
    &&& forall|t: int, i: int|
        0 <= t < m.audio_tracks.len() && 0 <= i < m.audio_tracks[t].clips.len() ==> (
        #[trigger] m.audio_tracks[t].clips[i]).timeline_end <= end
}

/// Whether a clip ends at `end`.
pub open spec fn something_ends_at(m: EditorModel, end: int) -> bool {
    ||| exists|t: int, i: int|
        0 <= t < m.video_tracks.len() && 0 <= i < m.video_tracks[t].clips.len() && (
        #[trigger] m.video_tracks[t].clips[i]).timeline_end == end
    ||| exists|t: int, i: int|
        0 <= t < m.audio_tracks.len() && 0 <= i < m.audio_tracks[t].clips.len() && (
        #[trigger] m.audio_tracks[t].clips[i]).timeline_end == end
}

/// The content of the timeline ends with its last clip, or at the given time if all clips end
/// before it.
pub proof fn the_content_ends_with_its_last_clip(m: EditorModel, floor: int)
    ensures
        m.content_end(floor) >= floor,
        nothing_plays_after(m, m.content_end(floor)),
        m.content_end(floor) == floor || something_ends_at(m, m.content_end(floor)),
{
    let video = crate::layout::latest_end(m.video_tracks, floor);
    crate::layout::latest_end_is_latest(m.video_tracks, floor);
    crate::layout::latest_end_is_latest(m.audio_tracks, video);
}

/// While playing, the playhead moves on by the time that has passed. Where that reaches the end
/// of the last clip, it stops there. While paused, nothing changes.
pub proof fn the_playhead_moves_with_time(m: EditorModel, dt: int, end: int)
    requires
        i64::MIN <= m.playhead + dt <= i64::MAX,
        end >= 0,
        nothing_plays_after(m, end),
        end == 0 || something_ends_at(m, end),
    ensures
        ({
            let after = m.advanced(dt);
            &&& after == (EditorModel {
                playhead: after.playhead,
                is_playing: after.is_playing,
                ..m
            })
            &&& !m.is_playing ==> after == m
            &&& m.is_playing && (end == 0 || m.playhead + dt < end) ==> after.is_playing
                && after.playhead == m.playhead + dt
            &&& m.is_playing && end > 0 && m.playhead + dt >= end ==> !after.is_playing
                && after.playhead == end
        }),
{
    the_content_ends_with_its_last_clip(m, 0);
    let found = m.content_end(0);
    assert(found == end) by {
        if found > end {
            assert(something_ends_at(m, found));
        }
        if end > found {
            assert(something_ends_at(m, end));
        }
    }
}

} // verus!
