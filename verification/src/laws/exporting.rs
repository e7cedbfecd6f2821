//! What an export promises.

use crate::editor::{Clip, EditorModel};
use crate::export::ExportQuality;
use crate::h264::{Content, RateControl, RgbFrame};
use crate::laws::playing::may_be_seen;
use crate::laws::trimming::is_asset_of;
use vstd::prelude::*;

verus! {

/// Whether the clip at these indices may be rendered at `t`: it plays then, and its asset is
/// known.
pub open spec fn may_be_rendered(m: EditorModel, t: int, track: int, clip: int) -> bool {
    &&& 0 <= track < m.video_tracks.len()
    &&& 0 <= clip < m.video_tracks[track].clips.len()
    &&& m.video_tracks[track].clips[clip].timeline_start <= t
    &&& t < m.video_tracks[track].clips[clip].timeline_end
    &&& exists|a: int| is_asset_of(m, m.video_tracks[track].clips[clip], a)
}

/// Whether the clip at these indices is the one that is rendered at `t`: it may be, and none
/// on a later track or behind it on its track may.
pub open spec fn is_rendered(m: EditorModel, t: int, track: int, clip: int) -> bool {
    &&& may_be_rendered(m, t, track, clip)
    &&& forall|k: int, i: int|
        #[trigger] may_be_rendered(m, t, k, i) ==> k < track || k == track && i <= clip
}

proof fn lemma_may_be_rendered(m: EditorModel, t: int, track: int, clip: int)
    requires
        0 <= track < m.video_tracks.len(),
        0 <= clip < m.video_tracks[track].clips.len(),
    ensures
        may_be_rendered(m, t, track, clip) == crate::preview::playing_at(m.assets, t)(
            m.video_tracks[track].clips[clip],
        ),
{
    let c = m.video_tracks[track].clips[clip];
    crate::laws::trimming::assets_are_found_by_their_id(m, c);
    match crate::search::first_where(m.assets, crate::drag::of_asset(c.asset_id)) {
        Some(a) => {
            assert(is_asset_of(m, c, a));
        },
        None => {},
    }
}

proof fn lemma_rendered_clip(
    m: EditorModel,
    t: int,
    track: int,
    upto: int,
    before: Option<Clip>,
) -> (i: int)
    requires
        0 <= track < m.video_tracks.len(),
        0 <= upto <= m.video_tracks[track].clips.len(),
    ensures
        ({
            let clips = m.video_tracks[track].clips.take(upto);
            let r = crate::export::rendered_clip(clips, m.assets, t, before);
            if -1 < i {
                &&& i < upto
                &&& may_be_rendered(m, t, track, i)
                &&& r == Some(m.video_tracks[track].clips[i])
                &&& forall|j: int| i < j < upto ==> !#[trigger] may_be_rendered(m, t, track, j)
            } else {
                &&& r == before
                &&& forall|j: int| 0 <= j < upto ==> !#[trigger] may_be_rendered(m, t, track, j)
            }
        }),
    decreases upto,
{
    let all = m.video_tracks[track].clips;
    let clips = all.take(upto);
    if upto == 0 {
        -1
    } else {
        lemma_may_be_rendered(m, t, track, upto - 1);
        assert(clips.last() == all[upto - 1]);
        assert(clips.drop_last() =~= all.take(upto - 1));
        let i = lemma_rendered_clip(m, t, track, upto - 1, before);
        if may_be_rendered(m, t, track, upto - 1) {
            upto - 1
        } else {
            i
        }
    }
}

proof fn lemma_rendered(m: EditorModel, t: int, upto: int) -> (r: (int, int))
    requires
        0 <= upto <= m.video_tracks.len(),
    ensures
        match crate::export::rendered(m.video_tracks.take(upto), m.assets, t) {
            Some(c) => {
                &&& r.0 < upto
                &&& may_be_rendered(m, t, r.0, r.1)
                &&& c == m.video_tracks[r.0].clips[r.1]
                &&& forall|k: int, i: int|
                    k < upto && #[trigger] may_be_rendered(m, t, k, i) ==> k < r.0 || k == r.0 && i
                        <= r.1
            },
            None => forall|k: int, i: int| k < upto ==> !#[trigger] may_be_rendered(m, t, k, i),
        },
    decreases upto,
{
    if upto == 0 {
        (0, 0)
    } else {
        let front = m.video_tracks.take(upto - 1);
        assert(m.video_tracks.take(upto).drop_last() =~= front);
        assert(m.video_tracks.take(upto).last() == m.video_tracks[upto - 1]);
        let r = lemma_rendered(m, t, upto - 1);
        let clips = m.video_tracks[upto - 1].clips;
        assert(clips.take(clips.len() as int) =~= clips);
        let i = lemma_rendered_clip(
            m,
            t,
            upto - 1,
            clips.len() as int,
            crate::export::rendered(front, m.assets, t),
        );
        if i > -1 {
            (upto - 1, i)
        } else {
            r
        }
    }
}

/// Whether `t` is the instant of a frame, rounded down to a nanosecond.
pub open spec fn is_frame_instant(frame: int, fps: int, t: int) -> bool {
    t * fps <= frame * 1_000_000_000 < (t + 1) * fps
}

/// A frame of an export shows the clip on the last track that plays then, at the instant of its
/// source that is played then: where the clip begins it is its trim start, and from there on
/// the source advances with the timeline. Nothing is shown only where no clip plays. The
/// result is the place of the clip.
pub proof fn an_export_shows_the_source_from_its_trim_start(
    m: EditorModel,
    frame: int,
    fps: int,
    t: int,
) -> (r: (int, int))
    requires
        fps > 0,
        frame >= 0,
        is_frame_instant(frame, fps, t),
        m.assets.len() <= usize::MAX,
    ensures
        match m.export_source(frame, fps) {
            Some(s) => {
                let c = m.video_tracks[r.0].clips[r.1];
                let source = c.source_trim_start + (t - c.timeline_start);
                &&& is_rendered(m, t, r.0, r.1)
                &&& is_asset_of(m, c, s.asset as int)
                &&& i64::MIN <= source <= i64::MAX ==> s.target == source
            },
            None => forall|track: int, clip: int| !#[trigger] may_be_rendered(m, t, track, clip),
        },
{
    lemma_frame_instant(frame, fps, t);
    assert(m.video_tracks.take(m.video_tracks.len() as int) =~= m.video_tracks);
    let r = lemma_rendered(m, t, m.video_tracks.len() as int);
    match crate::export::rendered(m.video_tracks, m.assets, t) {
        Some(c) => {
            crate::laws::trimming::assets_are_found_by_their_id(m, c);
            assert(may_be_rendered(m, t, r.0, r.1));
        },
        None => {},
    }
    r
}

proof fn lemma_frame_instant(frame: int, fps: int, t: int)
    requires
        fps > 0,
        is_frame_instant(frame, fps, t),
    ensures
        crate::export::frame_start(frame, fps) == t,
{
    let n = frame * 1_000_000_000;
    assert((t + 1) * fps == t * fps + fps) by (nonlinear_arith);
    vstd::arithmetic::div_mod::lemma_fundamental_div_mod_converse(n, fps, t, n - t * fps);
}

/// The instant of a frame is as many frames behind the beginning as its number says.
pub proof fn frames_are_even(frame: int, fps: int)
    requires
        fps > 0,
    ensures
        is_frame_instant(frame, fps, crate::export::frame_start(frame, fps)),
{
    let n = frame * 1_000_000_000;
    let q = n / fps;
    vstd::arithmetic::div_mod::lemma_fundamental_div_mod(n, fps);
    assert(fps * q == q * fps) by (nonlinear_arith);
    assert((q + 1) * fps == q * fps + fps) by (nonlinear_arith);
}

/// An export shows what the preview shows: where no video track is hidden or solo, and no two
/// clips of a track play at once, the asset and the instant of its source are those that the
/// preview wants with the playhead at the instant of the frame.
pub proof fn an_export_shows_what_the_preview_shows(m: EditorModel, frame: int, fps: int)
    requires
        fps > 0,
        frame >= 0,
        is_frame_instant(frame, fps, m.playhead as int),
        m.assets.len() <= usize::MAX,
        forall|k: int|
            0 <= k < m.video_tracks.len() ==> !(#[trigger] m.video_tracks[k]).is_hidden
                && !m.video_tracks[k].is_solo,
        forall|k: int, i: int, j: int|
            #[trigger] may_be_rendered(m, m.playhead as int, k, i) && #[trigger] may_be_rendered(
                m,
                m.playhead as int,
                k,
                j,
            ) ==> i == j,
    ensures
        match (m.wanted(), m.export_source(frame, fps)) {
            (Some(w), Some(s)) => w.asset == s.asset && w.target == s.target,
            (None, None) => true,
            _ => false,
        },
{
    let t = m.playhead as int;
    let r = an_export_shows_the_source_from_its_trim_start(m, frame, fps, t);
    crate::laws::playing::the_clip_on_top_is_seen(m, t);
    lemma_frame_instant(frame, fps, t);
    assert forall|k: int, i: int|
        #![trigger may_be_seen(m, t, k, i)]
        #![trigger may_be_rendered(m, t, k, i)]
        may_be_seen(m, t, k, i) == may_be_rendered(m, t, k, i) by {}
    match (m.seen_at(t), m.export_source(frame, fps)) {
        (Some((k, i, a)), Some(s)) => {
            assert(may_be_rendered(m, t, k, i));
            assert(may_be_seen(m, t, r.0, r.1));
            assert(k == r.0);
            assert(i == r.1);
            crate::laws::trimming::assets_are_found_by_their_id(m, m.video_tracks[k].clips[i]);
            assert(m.video_tracks.take(m.video_tracks.len() as int) =~= m.video_tracks);
            let q = lemma_rendered(m, t, m.video_tracks.len() as int);
            assert(may_be_rendered(m, t, q.0, q.1));
            assert(q.0 == k && q.1 == i);
        },
        (Some((k, i, a)), None) => {
            assert(may_be_rendered(m, t, k, i));
        },
        (None, Some(s)) => {
            assert(may_be_seen(m, t, r.0, r.1));
        },
        (None, None) => {},
    }
}

/// An export has all the frames that begin before the last clip on a video track has ended, as
/// far as they last until then.
pub proof fn an_export_has_every_whole_frame(m: EditorModel, fps: int, end: int)
    requires
        fps > 0,
        end >= 0,
        forall|t: int, i: int|
            0 <= t < m.video_tracks.len() && 0 <= i < m.video_tracks[t].clips.len() ==> (
            #[trigger] m.video_tracks[t].clips[i]).timeline_end <= end,
        end == 0 || exists|t: int, i: int|
            0 <= t < m.video_tracks.len() && 0 <= i < m.video_tracks[t].clips.len() && (
            #[trigger] m.video_tracks[t].clips[i]).timeline_end == end,
    ensures
        crate::layout::latest_end(m.video_tracks, 0) == end,
        m.export_frames(fps) * 1_000_000_000 <= end * fps < (m.export_frames(fps) + 1)
            * 1_000_000_000,
{
    crate::layout::latest_end_is_latest(m.video_tracks, 0);
}

/// A decoded picture of the size of the export is encoded as it is; any other as the scaled
/// picture, bytes and order of bytes as they come.
pub proof fn pictures_are_scaled_and_nothing_else(f: RgbFrame, width: int, height: int)
    ensures
        f.width == width && f.height == height ==> crate::export::fitted_frame(f, width, height)
            == f.rgb@,
        f.width != width || f.height != height ==> crate::export::fitted_frame(f, width, height)
            == crate::resample::scaled_rgb(
            f.rgb@,
            f.width as int,
            f.height as int,
            width,
            height,
        ),
{
}

/// The picture of a frame that shows nothing is black, with three bytes for each pixel.
pub proof fn nothing_is_black(width: int, height: int, i: int)
    requires
        width >= 0,
        height >= 0,
        0 <= i < width * height * 3,
    ensures
        crate::export::black(width, height).len() == width * height * 3,
        crate::export::black(width, height)[i] == 0,
{
}

/// The progress is the part that is done, in hundredths, rounded to the nearest. It begins with
/// nothing and ends with all.
pub proof fn progress_is_the_part_that_is_done(done: int, total: int)
    requires
        0 <= done <= total,
        total > 0,
    ensures
        ({
            let p = crate::export::percent(done, total);
            &&& (2 * p - 1) * total <= 200 * done < (2 * p + 1) * total
            &&& done == total ==> p == 100
            &&& done == 0 ==> p == 0
        }),
{
    let n = done * 200 + total;
    let p = n / (2 * total);
    vstd::arithmetic::div_mod::lemma_fundamental_div_mod(n, 2 * total);
    assert((2 * total) * p == (2 * p - 1) * total + total) by (nonlinear_arith);
    assert((2 * total) * p + 2 * total == (2 * p + 1) * total + total) by (nonlinear_arith);
    if done == total {
        assert(p == 100) by (nonlinear_arith)
            requires
                (2 * p - 1) * total <= 200 * total < (2 * p + 1) * total,
                total > 0,
        ;
    }
    if done == 0 {
        assert(p == 0) by (nonlinear_arith)
            requires
                (2 * p - 1) * total <= 0 < (2 * p + 1) * total,
                total > 0,
        ;
    }
}

// The encoder

/// The bit rate is a tenth of a bit for each pixel of a second, times the quality in
/// thousandths, rounded down at each step, and kept between half a million and eighty million.
pub proof fn the_bit_rate_follows_the_picture(
    width: int,
    height: int,
    fps: int,
    quality: int,
    tenth: int,
    scaled: int,
)
    requires
        width >= 0,
        height >= 0,
        fps >= 1,
        100 <= quality <= 8_000,
        width * height * fps <= u64::MAX,
        tenth * 10 <= width * height * fps < (tenth + 1) * 10,
        scaled * 1_000 <= tenth * quality < (scaled + 1) * 1_000,
    ensures
        crate::codec::bitrate(width, height, fps, quality) == if scaled < 500_000 {
            500_000
        } else if scaled > 80_000_000 {
            80_000_000
        } else {
            scaled
        },
{
}

/// A frame rate of zero counts as one, a quality below a tenth as a tenth and one above eight
/// as eight.
pub proof fn odd_settings_are_brought_into_range(
    width: int,
    height: int,
    fps: int,
    quality: int,
)
    ensures
        fps < 1 ==> crate::codec::bitrate(width, height, fps, quality) == crate::codec::bitrate(
            width,
            height,
            1,
            quality,
        ),
        quality < 100 ==> crate::codec::bitrate(width, height, fps, quality)
            == crate::codec::bitrate(width, height, fps, 100),
        quality > 8_000 ==> crate::codec::bitrate(width, height, fps, quality)
            == crate::codec::bitrate(width, height, fps, 8_000),
        500_000 <= crate::codec::bitrate(width, height, fps, quality) <= 80_000_000,
{
}

/// An encoder has the bit rate of its pictures, the frame rate asked for, a keyframe once per
/// second, and drops no frame. It is tuned for the screen exactly where that is recorded.
pub proof fn encoders_suit_their_pictures(
    width: u32,
    height: u32,
    fps: u32,
    screen_content: bool,
    quality: u32,
)
    requires
        fps >= 1,
    ensures
        ({
            let s = crate::h264::settings_for(width, height, fps, screen_content, quality);
            &&& s.bitrate == crate::codec::bitrate(
                width as int,
                height as int,
                fps as int,
                quality as int,
            )
            &&& s.fps == fps
            &&& s.keyframe_period == fps
            &&& s.rate_control == RateControl::Bitrate
            &&& !s.skip_frames
            &&& screen_content ==> s.content == Content::Screen
            &&& !screen_content ==> s.content == Content::Camera
        }),
{
    odd_settings_are_brought_into_range(width as int, height as int, fps as int, quality as int);
}

/// The medium quality is the plain one, the low one half of it and the high one twice.
pub proof fn qualities_scale_the_bit_rate()
    ensures
        ExportQuality::Medium.permille() == 1_000,
        2 * ExportQuality::Low.permille() == ExportQuality::Medium.permille(),
        ExportQuality::High.permille() == 2 * ExportQuality::Medium.permille(),
{
}

} // verus!
