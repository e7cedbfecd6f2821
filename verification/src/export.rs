//! Rendering the timeline into a video file.

use crate::editor::{Clip, EditorModel, EditorState, Track, TrackModel};
use crate::h264::{build_encoder, encode_rgb, RgbFrame};
use crate::layout::find_latest_end;
use crate::media::MediaAsset;
use crate::resample::scale_rgb;
use crate::time::saturate_i64;
use openh264::encoder::Encoder;
use vstd::prelude::*;
use vstd::string::*;

verus! {

/// How good an exported video is.
#[derive(Clone, Copy, Debug, PartialEq, Eq, Structural)]
pub enum ExportQuality {
    Low,
    Medium,
    High,
}

impl ExportQuality {
    /// What the bit rate is multiplied by, in thousandths.
    pub open spec fn permille(self) -> u32 {
        match self {
            ExportQuality::Low => 500,
            ExportQuality::Medium => 1_000,
            ExportQuality::High => 2_000,
        }
    }

    pub fn scale(self) -> (r: u32)
        ensures
            r == self.permille(),
    {
        match self {
            ExportQuality::Low => 500,
            ExportQuality::Medium => 1_000,
            ExportQuality::High => 2_000,
        }
    }
}

/// The height that goes with a width that can be chosen.
pub fn export_height(width: u32) -> (r: u32)
    ensures
        r == if width == 1920 {
            1080u32
        } else {
            720
        },
{
    if width == 1920 {
        1080
    } else {
        720
    }
}

/// An export that is under way.
#[derive(Debug)]
pub struct ExportJob {
    pub width: u32,
    pub height: u32,
    pub fps: u32,
    /// How many frames are rendered.
    pub total_frames: usize,
}

/// What is rendered into a frame: an asset, by its place in the project, at an instant of
/// its source.
#[derive(Clone, Copy, Debug, PartialEq, Eq, Structural)]
pub struct ExportSource {
    pub asset: usize,
    pub target: i64,
}

/// The clip rendered at `t`, of one track's clips: the last that plays and whose asset is
/// known, or else `before`.
pub open spec fn rendered_clip(
    clips: Seq<Clip>,
    assets: Seq<MediaAsset>,
    t: int,
    before: Option<Clip>,
) -> Option<Clip>
    decreases clips.len(),
{
    if clips.len() == 0 {
        before
    } else if crate::preview::playing_at(assets, t)(clips.last()) {
        Some(clips.last())
    } else {
        rendered_clip(clips.drop_last(), assets, t, before)
    }
}

/// The clip rendered at `t`: that of the last track that has one.
pub open spec fn rendered(
    tracks: Seq<TrackModel>,
    assets: Seq<MediaAsset>,
    t: int,
) -> Option<Clip>
    decreases tracks.len(),
{
    if tracks.len() == 0 {
        None
    } else {
        rendered_clip(
            tracks.last().clips,
            assets,
            t,
            rendered(tracks.drop_last(), assets, t),
        )
    }
}

/// The instant of a frame.
pub open spec fn frame_start(frame: int, fps: int) -> int {
    frame * 1_000_000_000 / fps
}

impl EditorModel {
    /// How many frames the timeline has.
    pub open spec fn export_frames(self, fps: int) -> int {
        crate::layout::latest_end(self.video_tracks, 0) * fps / 1_000_000_000
    }

    /// What is rendered into a frame.
    pub open spec fn export_source(self, frame: int, fps: int) -> Option<ExportSource> {
        let t = frame_start(frame, fps);
        match rendered(self.video_tracks, self.assets, t) {
            Some(c) => match crate::search::first_where(
                self.assets,
                crate::drag::of_asset(c.asset_id),
            ) {
                Some(a) => Some(
                    ExportSource {
                        asset: a as usize,
                        target: crate::time::saturated_i64(c.source_at(t)) as i64,
                    },
                ),
                None => None,
            },
            None => None,
        }
    }
}

/// What the user is told when there is nothing to export.
pub open spec fn nothing_to_export() -> Seq<char> {
    "No video clips on the timeline to export."@
}

impl ExportJob {
    /// Plans the export of a timeline. It ends with the last clip on a video track; without
    /// one there is nothing to export.
    pub fn plan(state: &EditorState, width: u32, height: u32, fps: u32) -> (r: Result<
        ExportJob,
        String,
    >)
        requires
            fps > 0,
            state@.export_frames(fps as int) <= usize::MAX,
        ensures
            if crate::layout::latest_end(state@.video_tracks, 0) <= 0 {
                r matches Err(text) && text@ == nothing_to_export()
            } else {
                r matches Ok(job) && job.width == width && job.height == height && job.fps == fps
                    && job.total_frames == state@.export_frames(fps as int)
            },
    {
        let end: i64 = find_latest_end(&state.video_tracks, 0);
        proof {
            crate::layout::latest_end_is_latest(state@.video_tracks, 0);
        }
        if end <= 0 {
            return Err(String::from_str("No video clips on the timeline to export."));
        }
        proof {
            let (e, f) = (end as int, fps as int);
            assert(0 <= e * f <= 0x8000_0000_0000_0000 * 0x1_0000_0000) by (nonlinear_arith)
                requires
                    0 <= e <= 0x8000_0000_0000_0000,
                    0 <= f <= 0x1_0000_0000,
            ;
        }
        let total: i128 = end as i128 * fps as i128 / 1_000_000_000;
        Ok(ExportJob { width, height, fps, total_frames: total as usize })
    }

    /// How long a frame is shown, in milliseconds.
    pub fn frame_millis(&self) -> (r: u32)
        requires
            self.fps > 0,
        ensures
            r == 1_000u32 / self.fps,
    {
        1_000 / self.fps
    }

    /// Makes the encoder of the export: for camera pictures, at the size and the rate of the
    /// export and the chosen quality. Where the native library fails, the message says so.
    pub fn open_encoder(&self, quality: ExportQuality) -> (r: Result<Encoder, String>)
        ensures
            match r {
                Ok(e) => {
                    &&& crate::h264::encoder_settings(e) == crate::h264::settings_for(
                        self.width,
                        self.height,
                        self.fps,
                        false,
                        quality.permille(),
                    )
                    &&& crate::h264::encoder_frames(e) == crate::h264::no_frames()
                    &&& crate::h264::encoder_given(e).len() == 0
                },
                Err(text) => crate::h264::is_encoder_failure(text@),
            },
    {
        build_encoder(self.width, self.height, self.fps, false, quality.scale())
    }

    /// Finds what is rendered into a frame.
    pub fn source(&self, state: &EditorState, frame: usize) -> (r: Option<ExportSource>)
        requires
            self.fps > 0,
            frame_start(frame as int, self.fps as int) <= i64::MAX,
        ensures
            r == state@.export_source(frame as int, self.fps as int),
            r matches Some(s) ==> s.asset < state.assets@.len(),
    {
        proof {
            vstd::arithmetic::div_mod::lemma_div_pos_is_pos(
                frame * 1_000_000_000,
                self.fps as int,
            );
        }
        let t: i64 = (frame as i128 * 1_000_000_000 / self.fps as i128) as i64;
        match find_rendered(&state.video_tracks, &state.assets, t) {
            Some(c) => match crate::drag::find_asset(&state.assets, c.asset_id) {
                Some(asset) => Some(
                    ExportSource {
                        asset,
                        target: saturate_i64(
                            c.source_trim_start as i128 + (t as i128 - c.timeline_start as i128),
                        ),
                    },
                ),
                None => None,
            },
            None => None,
        }
    }
}

fn find_rendered(tracks: &Vec<Track>, assets: &Vec<MediaAsset>, t: i64) -> (r: Option<Clip>)
    ensures
        r == rendered(crate::editor::lane_view(tracks@), assets@, t as int),
{
    let ghost all = crate::editor::lane_view(tracks@);
    let mut found: Option<Clip> = None;
    let mut k: usize = 0;
    assert(all.take(0) =~= Seq::empty());
    while k < tracks.len()
        invariant
            k <= tracks@.len(),
            all == crate::editor::lane_view(tracks@),
            found == rendered(all.take(k as int), assets@, t as int),
        decreases tracks@.len() - k,
    {
        let clips: &Vec<Clip> = &tracks[k].clips;
        let ghost before = found;
        let mut i: usize = 0;
        assert(clips@.take(0) =~= Seq::empty());
        while i < clips.len()
            invariant
                i <= clips@.len(),
                found == rendered_clip(clips@.take(i as int), assets@, t as int, before),
            decreases clips@.len() - i,
        {
            proof {
                assert(clips@.take(i + 1).drop_last() =~= clips@.take(i as int));
                assert(clips@.take(i + 1).last() == clips@[i as int]);
            }
            let c: Clip = clips[i];
            if t >= c.timeline_start && t < c.timeline_end {
                if crate::drag::find_asset(assets, c.asset_id).is_some() {
                    found = Some(c);
                }
            }
            i += 1;
        }
        proof {
            assert(clips@.take(i as int) =~= clips@);
            assert(all.take(k + 1).drop_last() =~= all.take(k as int));
            assert(all.take(k + 1).last() == tracks@[k as int]@);
        }
        k += 1;
    }
    assert(all.take(k as int) =~= all);
    found
}

/// The clip that is rendered plays at that instant, and no later track has a clip that does.
pub proof fn the_last_track_is_rendered(
    tracks: Seq<TrackModel>,
    assets: Seq<MediaAsset>,
    t: int,
)
    ensures
        match rendered(tracks, assets, t) {
            Some(c) => exists|k: int, i: int|
                0 <= k < tracks.len() && 0 <= i < tracks[k].clips.len() && (
                #[trigger] tracks[k].clips[i]) == c && crate::preview::playing_at(assets, t)(c)
                    && silent_from(tracks, assets, t, k + 1),
            None => silent_from(tracks, assets, t, 0),
        },
    decreases tracks.len(),
{
    if tracks.len() > 0 {
        let front = tracks.drop_last();
        let last = tracks.last();
        the_last_track_is_rendered(front, assets, t);
        lemma_rendered_clip(last.clips, assets, t, rendered(front, assets, t));
        let n = tracks.len() - 1;
        assert(tracks[n] == last);
        if exists|i: int|
            0 <= i < last.clips.len() && crate::preview::playing_at(assets, t)(
                #[trigger] last.clips[i],
            ) {
            let i = choose|i: int|
                0 <= i < last.clips.len() && crate::preview::playing_at(assets, t)(
                    #[trigger] last.clips[i],
                ) && rendered(tracks, assets, t) == Some(last.clips[i]);
            assert(tracks[n].clips[i] == rendered(tracks, assets, t)->0);
            assert(silent_from(tracks, assets, t, n + 1));
        } else {
            match rendered(front, assets, t) {
                Some(c) => {
                    let (k, i) = choose|k: int, i: int|
                        0 <= k < front.len() && 0 <= i < front[k].clips.len() && (
                        #[trigger] front[k].clips[i]) == c && crate::preview::playing_at(assets, t)(
                            c,
                        ) && silent_from(front, assets, t, k + 1);
                    assert(tracks[k].clips[i] == c);
                    lemma_silent_extends(tracks, assets, t, k + 1);
                },
                None => {
                    lemma_silent_extends(tracks, assets, t, 0);
                },
            }
        }
    }
}

/// Whether no clip of a known asset plays at `t` on the tracks from `from` on.
pub open spec fn silent_from(
    tracks: Seq<TrackModel>,
    assets: Seq<MediaAsset>,
    t: int,
    from: int,
) -> bool {
    forall|k: int, i: int|
        from <= k < tracks.len() && 0 <= i < tracks[k].clips.len()
            ==> !crate::preview::playing_at(assets, t)(#[trigger] tracks[k].clips[i])
}

proof fn lemma_silent_extends(
    tracks: Seq<TrackModel>,
    assets: Seq<MediaAsset>,
    t: int,
    from: int,
)
    requires
        tracks.len() > 0,
        from >= 0,
        silent_from(tracks.drop_last(), assets, t, from),
        forall|i: int|
            0 <= i < tracks.last().clips.len() ==> !crate::preview::playing_at(assets, t)(
                #[trigger] tracks.last().clips[i],
            ),
    ensures
        silent_from(tracks, assets, t, from),
{
    assert forall|k: int, i: int|
        from <= k < tracks.len() && 0 <= i < tracks[k].clips.len() implies !crate::preview::playing_at(
        assets,
        t,
    )(#[trigger] tracks[k].clips[i]) by {
        if k < tracks.len() - 1 {
            assert(tracks.drop_last()[k].clips[i] == tracks[k].clips[i]);
        } else {
            assert(tracks.last().clips[i] == tracks[k].clips[i]);
        }
    }
}

proof fn lemma_rendered_clip(
    clips: Seq<Clip>,
    assets: Seq<MediaAsset>,
    t: int,
    before: Option<Clip>,
)
    ensures
        if exists|i: int|
            0 <= i < clips.len() && crate::preview::playing_at(assets, t)(#[trigger] clips[i]) {
            exists|i: int|
                0 <= i < clips.len() && crate::preview::playing_at(assets, t)(#[trigger] clips[i])
                    && rendered_clip(clips, assets, t, before) == Some(clips[i])
        } else {
            rendered_clip(clips, assets, t, before) == before
        },
    decreases clips.len(),
{
    if clips.len() > 0 {
        let front = clips.drop_last();
        lemma_rendered_clip(front, assets, t, before);
        let n = clips.len() - 1;
        assert(clips[n] == clips.last());
        if !crate::preview::playing_at(assets, t)(clips.last()) {
            if exists|i: int|
                0 <= i < clips.len() && crate::preview::playing_at(assets, t)(#[trigger] clips[i]) {
                let i = choose|i: int|
                    0 <= i < clips.len() && crate::preview::playing_at(assets, t)(
                        #[trigger] clips[i],
                    );
                assert(front[i] == clips[i]);
                let j = choose|j: int|
                    0 <= j < front.len() && crate::preview::playing_at(assets, t)(
                        #[trigger] front[j],
                    ) && rendered_clip(front, assets, t, before) == Some(front[j]);
                assert(clips[j] == front[j]);
            } else {
                assert forall|i: int| 0 <= i < front.len() implies !crate::preview::playing_at(
                    assets,
                    t,
                )(#[trigger] front[i]) by {
                    assert(clips[i] == front[i]);
                }
            }
        }
    }
}

/// The frames lie one behind the other, within the timeline.
pub proof fn frames_cover_the_timeline(m: EditorModel, fps: int, frame: int)
    requires
        fps > 0,
        0 <= frame < m.export_frames(fps),
    ensures
        0 <= frame_start(frame, fps) < crate::layout::latest_end(m.video_tracks, 0),
        fps <= 1_000_000_000 ==> frame_start(frame, fps) < frame_start(frame + 1, fps),
{
    let end = crate::layout::latest_end(m.video_tracks, 0);
    let (a, b) = (frame * 1_000_000_000, (frame + 1) * 1_000_000_000);
    assert(end * fps >= (frame + 1) * 1_000_000_000) by {
        assert(m.export_frames(fps) * 1_000_000_000 <= end * fps);
    }
    vstd::arithmetic::div_mod::lemma_div_pos_is_pos(a, fps);
    vstd::arithmetic::div_mod::lemma_fundamental_div_mod(a, fps);
    vstd::arithmetic::div_mod::lemma_fundamental_div_mod(b, fps);
    let (q, p) = (a / fps, b / fps);
    assert(fps * q <= a < end * fps);
    assert(q < end) by (nonlinear_arith)
        requires
            fps * q < end * fps,
            fps > 0,
    ;
    if fps <= 1_000_000_000 {
        assert(fps * p > fps * q) by {
            assert(fps * p > b - fps);
            assert(b - fps >= a);
            assert(a >= fps * q);
        }
        assert(p > q) by (nonlinear_arith)
            requires
                fps * p > fps * q,
                fps > 0,
        ;
    }
}

// Frames

/// A black frame.
pub open spec fn black(width: int, height: int) -> Seq<u8> {
    Seq::new((width * height * 3) as nat, |i: int| 0u8)
}

/// A decoded frame at the size of the export.
pub open spec fn fitted_frame(frame: RgbFrame, width: int, height: int) -> Seq<u8> {
    if frame.width == width && frame.height == height {
        frame.rgb@
    } else {
        crate::resample::scaled_rgb(
            frame.rgb@,
            frame.width as int,
            frame.height as int,
            width,
            height,
        )
    }
}

/// What the user is told when a decoded frame has too few bytes.
pub open spec fn wrap_failure() -> Seq<char> {
    "Failed to wrap decoded frame as ImageBuffer"@
}

/// Brings a decoded frame to the size of the export.
pub fn fit_frame(frame: RgbFrame, width: usize, height: usize) -> (r: Result<Vec<u8>, String>)
    requires
        frame.width == width && frame.height == height || crate::resample::can_scale(
            frame.width as int,
            frame.height as int,
            width as int,
            height as int,
        ),
    ensures
        if frame.width == width && frame.height == height {
            r matches Ok(v) && v@ == frame.rgb@
        } else if frame.rgb@.len() >= frame.width * frame.height * 3 {
            r matches Ok(v) && v@ == crate::resample::scaled_rgb(
                frame.rgb@,
                frame.width as int,
                frame.height as int,
                width as int,
                height as int,
            ) && v@ == fitted_frame(frame, width as int, height as int) && v@.len() == width
                * height * 3
        } else {
            r matches Err(text) && text@ == wrap_failure()
        },
{
    if frame.width == width && frame.height == height {
        return Ok(frame.rgb);
    }
    match scale_rgb(frame.rgb, frame.width, frame.height, width, height) {
        Some(scaled) => Ok(scaled),
        None => Err(String::from_str("Failed to wrap decoded frame as ImageBuffer")),
    }
}

fn black_frame(width: usize, height: usize) -> (r: Vec<u8>)
    requires
        width * height * 3 <= usize::MAX,
    ensures
        r@ == black(width as int, height as int),
{
    let mut r: Vec<u8> = Vec::new();
    proof {
        let (w, h) = (width as int, height as int);
        assert(0 <= w * h) by (nonlinear_arith)
            requires
                w >= 0,
                h >= 0,
        ;
    }
    r.resize(width * height * 3, 0);
    assert(r@ =~= black(width as int, height as int));
    r
}

/// Ends the rendering of a frame. `taken` is what the encoder gave for the decoded picture, if
/// there was one and the encoder took it: that is what is added to the video. Else a black
/// picture is encoded, and what the encoder gives for that is added, if it gives anything.
pub fn finish_frame(
    encoder: &mut Encoder,
    taken: Option<Vec<u8>>,
    width: usize,
    height: usize,
) -> (r: Option<Vec<u8>>)
    requires
        width % 2 == 0,
        height % 2 == 0,
        width <= i32::MAX,
        height <= i32::MAX,
        width * height * 3 <= usize::MAX,
    ensures
        match taken {
            Some(_) => r == taken && *final(encoder) == *old(encoder),
            None => {
                &&& crate::h264::encoder_settings(*final(encoder))
                    == crate::h264::encoder_settings(*old(encoder))
                &&& crate::h264::encoder_frames(*final(encoder)) == crate::h264::encoder_frames(
                    *old(encoder),
                ).push((width as int, height as int, black(width as int, height as int)))
                &&& crate::h264::encoder_given(*final(encoder)) == crate::h264::encoder_given(
                    *old(encoder),
                ).push(crate::h264::bytes_view(r))
                &&& width > 3840 || height > 3840 || (width > 2160 && height > 2160) ==> r is None
            },
        },
{
    match taken {
        Some(bytes) => Some(bytes),
        None => {
            let rgb: Vec<u8> = black_frame(width, height);
            encode_rgb(encoder, &rgb, width, height)
        },
    }
}

/// Renders one frame: the decoded one at the size of the export or, where there is none or
/// the encoder does not take it, a black one. Gives back what is added to the video, if the
/// encoder gave anything.
pub fn render_frame(
    encoder: &mut Encoder,
    decoded: Option<RgbFrame>,
    width: usize,
    height: usize,
) -> (r: Result<Option<Vec<u8>>, String>)
    requires
        width % 2 == 0,
        height % 2 == 0,
        width <= i32::MAX,
        height <= i32::MAX,
        width * height * 3 <= usize::MAX,
        decoded matches Some(f) ==> if f.width == width && f.height == height {
            f.rgb@.len() == width * height * 3
        } else {
            crate::resample::can_scale(
                f.width as int,
                f.height as int,
                width as int,
                height as int,
            )
        },
    ensures
        crate::h264::encoder_settings(*final(encoder)) == crate::h264::encoder_settings(
            *old(encoder),
        ),
        ({
            let before = crate::h264::encoder_frames(*old(encoder));
            let after = crate::h264::encoder_frames(*final(encoder));
            let had = crate::h264::encoder_given(*old(encoder));
            let given = crate::h264::encoder_given(*final(encoder));
            let (w, h) = (width as int, height as int);
            let dark = (w, h, black(w, h));
            match decoded {
                Some(f) => if f.rgb@.len() < f.width * f.height * 3 {
                    (r matches Err(text) && text@ == wrap_failure()) && *final(encoder) == *old(
                        encoder,
                    )
                } else {
                    let picture = (w, h, fitted_frame(f, w, h));
                    &&& picture.2 == if f.width == w && f.height == h {
                        f.rgb@
                    } else {
                        crate::resample::scaled_rgb(
                            f.rgb@,
                            f.width as int,
                            f.height as int,
                            w,
                            h,
                        )
                    }
                    &&& forall|i: int| 0 <= i < dark.2.len() ==> #[trigger] dark.2[i] == 0
                    &&& dark.2.len() == w * h * 3
                    &&& r is Ok
                    &&& given.len() > had.len()
                    &&& match given[had.len() as int] {
                        Some(bytes) => {
                            &&& after == before.push(picture)
                            &&& given == had.push(Some(bytes))
                            &&& crate::h264::bytes_view(r->Ok_0) == Some(bytes)
                        },
                        None => {
                            &&& after == before.push(picture).push(dark)
                            &&& given == had.push(None).push(crate::h264::bytes_view(r->Ok_0))
                        },
                    }
                },
                None => {
                    &&& forall|i: int| 0 <= i < dark.2.len() ==> #[trigger] dark.2[i] == 0
                    &&& dark.2.len() == w * h * 3
                    &&& r is Ok
                    &&& after == before.push(dark)
                    &&& given == had.push(crate::h264::bytes_view(r->Ok_0))
                },
            }
        }),
        width > 3840 || height > 3840 || (width > 2160 && height > 2160) ==> !(r matches Ok(
            Some(_),
        )),
{
    proof {
        let (w, h) = (width as int, height as int);
        assert(0 <= w * h) by (nonlinear_arith)
            requires
                w >= 0,
                h >= 0,
        ;
    }
    let mut taken: Option<Vec<u8>> = None;
    if let Some(frame) = decoded {
        match fit_frame(frame, width, height) {
            Ok(rgb) => {
                taken = encode_rgb(encoder, &rgb, width, height);
            },
            Err(text) => return Err(text),
        }
    }
    Ok(finish_frame(encoder, taken, width, height))
}

/// How much of the export is done, in percent, rounded.
pub open spec fn percent(done: int, total: int) -> int {
    if total <= 0 {
        100
    } else {
        (done * 200 + total) / (2 * total)
    }
}

/// How much of the export is done, in percent.
pub fn progress_percent(done: usize, total: usize) -> (r: u64)
    requires
        done <= total,
    ensures
        r == percent(done as int, total as int),
        r <= 100,
{
    if total == 0 {
        return 100;
    }
    proof {
        let (d, t) = (done as int, total as int);
        assert((d * 200 + t) / (2 * t) <= 100) by (nonlinear_arith)
            requires
                0 <= d <= t,
                t > 0,
        ;
    }
    ((done as u128 * 200 + total as u128) / (2 * total as u128)) as u64
}

} // verus!
