//! What storing and opening a project promises, and what the models of values show of them.

use crate::codec::VideoTrackInfo;
use crate::editor::{EditorModel, EditorState, Track};
use crate::history::History;
use crate::pixels::YuvFrame;
use crate::project::{Project, ProjectModel, StoredAsset};
use vstd::prelude::*;

verus! {

/// A stored project holds every field of the state and of its assets, but for the decoded
/// sound, and the path of each asset.
pub proof fn projects_hold_every_field(m: EditorModel, paths: Seq<Seq<char>>, i: int)
    requires
        paths.len() == m.assets.len(),
    ensures
        ({
            let p = crate::project::project_of(m, paths);
            &&& p.assets.len() == m.assets.len()
            &&& p.video_tracks == m.video_tracks
            &&& p.audio_tracks == m.audio_tracks
            &&& p.playhead == m.playhead
            &&& p.is_playing == m.is_playing
            &&& p.selected_tool == m.selected_tool
            &&& p.selected_clip == m.selected_clip
            &&& p.zoom_factor == m.zoom_factor
            &&& p.scroll_offset == m.scroll_offset
            &&& p.next_clip_id == m.next_clip_id
            &&& p.next_track_id == m.next_track_id
            &&& 0 <= i < m.assets.len() ==> {
                let (a, s) = (m.assets[i], p.assets[i]);
                &&& s.id == a.id
                &&& s.path == paths[i]
                &&& s.name == a.name@
                &&& s.duration == a.duration
                &&& s.width == a.width
                &&& s.height == a.height
                &&& s.fps == a.fps
                &&& s.is_video == a.is_video
                &&& s.is_image == a.is_image
                &&& s.audio_channels == a.audio_channels
                &&& s.audio_sample_rate == a.audio_sample_rate
            }
        }),
{
}

/// A state that was stored and opened again has every field that it had, and so have its
/// assets, but for the decoded sound and the way their paths are kept.
pub proof fn opening_brings_back_every_field(
    before: EditorModel,
    after: EditorModel,
    paths: Seq<Seq<char>>,
    i: int,
)
    requires
        paths.len() == before.assets.len(),
        crate::project::project_of(after, crate::project::project_of(before, paths).paths())
            == crate::project::project_of(before, paths),
    ensures
        after.video_tracks == before.video_tracks,
        after.audio_tracks == before.audio_tracks,
        after.playhead == before.playhead,
        after.is_playing == before.is_playing,
        after.selected_tool == before.selected_tool,
        after.selected_clip == before.selected_clip,
        after.zoom_factor == before.zoom_factor,
        after.scroll_offset == before.scroll_offset,
        after.next_clip_id == before.next_clip_id,
        after.next_track_id == before.next_track_id,
        after.assets.len() == before.assets.len(),
        0 <= i < before.assets.len() ==> {
            let (a, b) = (before.assets[i], after.assets[i]);
            &&& b.id == a.id
            &&& b.name@ == a.name@
            &&& b.duration == a.duration
            &&& b.width == a.width
            &&& b.height == a.height
            &&& b.fps == a.fps
            &&& b.is_video == a.is_video
            &&& b.is_image == a.is_image
            &&& b.audio_channels == a.audio_channels
            &&& b.audio_sample_rate == a.audio_sample_rate
        },
{
    crate::project::opening_restores_the_state(before, after, paths);
    let p = crate::project::project_of(before, paths);
    assert(p.paths().len() == paths.len());
    projects_hold_every_field(before, paths, i);
    assert(after.assets.len() == before.assets.len());
    projects_hold_every_field(after, p.paths(), i);
}

/// The paths of a project are those of its assets, in their order.
pub proof fn paths_are_those_of_the_assets(p: ProjectModel, i: int)
    ensures
        p.paths().len() == p.assets.len(),
        0 <= i < p.assets.len() ==> p.paths()[i] == p.assets[i].path,
{
}

/// Texts are listed in their order, and an asset is silent until its sound was decoded.
pub proof fn lists_keep_their_order(list: Seq<String>, i: int, asset: crate::media::MediaAsset)
    ensures
        crate::project::texts(list).len() == list.len(),
        0 <= i < list.len() ==> crate::project::texts(list)[i] == list[i]@,
        crate::project::is_silent(asset) == (asset.audio_samples is None),
{
}

// Models

/// The model of a track shows every field of it.
pub proof fn tracks_show_every_field(t: Track)
    ensures
        t@.id == t.id,
        t@.name == t.name@,
        t@.is_video == t.is_video,
        t@.is_muted == t.is_muted,
        t@.is_hidden == t.is_hidden,
        t@.is_solo == t.is_solo,
        t@.volume == t.volume,
        t@.clips == t.clips@,
{
}

/// The model of a state shows every field of it, and each track by its own model.
pub proof fn states_show_every_field(s: EditorState, i: int)
    ensures
        s@.assets == s.assets@,
        s@.video_tracks.len() == s.video_tracks@.len(),
        s@.audio_tracks.len() == s.audio_tracks@.len(),
        0 <= i < s.video_tracks@.len() ==> s@.video_tracks[i] == s.video_tracks@[i]@,
        0 <= i < s.audio_tracks@.len() ==> s@.audio_tracks[i] == s.audio_tracks@[i]@,
        s@.playhead == s.playhead,
        s@.is_playing == s.is_playing,
        s@.selected_tool == s.selected_tool,
        s@.selected_clip == s.selected_clip,
        s@.zoom_factor == s.zoom_factor,
        s@.scroll_offset == s.scroll_offset,
        s@.next_clip_id == s.next_clip_id,
        s@.next_track_id == s.next_track_id,
{
}

/// The model of a stored asset shows every field of it.
pub proof fn stored_assets_show_every_field(a: StoredAsset)
    ensures
        a@.id == a.id,
        a@.path == a.path@,
        a@.name == a.name@,
        a@.duration == a.duration,
        a@.width == a.width,
        a@.height == a.height,
        a@.fps == a.fps,
        a@.is_video == a.is_video,
        a@.is_image == a.is_image,
        a@.audio_channels == a.audio_channels,
        a@.audio_sample_rate == a.audio_sample_rate,
{
}

/// The model of a project shows every field of it.
pub proof fn projects_show_every_field(p: Project, i: int)
    ensures
        p@.assets.len() == p.assets@.len(),
        0 <= i < p.assets@.len() ==> p@.assets[i] == p.assets@[i]@,
        p@.video_tracks.len() == p.video_tracks@.len(),
        0 <= i < p.video_tracks@.len() ==> p@.video_tracks[i] == p.video_tracks@[i]@,
        p@.audio_tracks.len() == p.audio_tracks@.len(),
        0 <= i < p.audio_tracks@.len() ==> p@.audio_tracks[i] == p.audio_tracks@[i]@,
        p@.playhead == p.playhead,
        p@.is_playing == p.is_playing,
        p@.selected_tool == p.selected_tool,
        p@.selected_clip == p.selected_clip,
        p@.zoom_factor == p.zoom_factor,
        p@.scroll_offset == p.scroll_offset,
        p@.next_clip_id == p.next_clip_id,
        p@.next_track_id == p.next_track_id,
{
}

/// The model of a history shows both stacks in their order, and what was noted.
pub proof fn histories_show_every_field(h: History, i: int)
    ensures
        h@.undo.len() == h.undo_stack@.len(),
        0 <= i < h.undo_stack@.len() ==> h@.undo[i] == h.undo_stack@[i]@,
        h@.redo.len() == h.redo_stack@.len(),
        0 <= i < h.redo_stack@.len() ==> h@.redo[i] == h.redo_stack@[i]@,
        h@.skip == h.skip_undo_save,
        match h.interaction_baseline {
            Some(s) => h@.baseline == Some(s@),
            None => h@.baseline is None,
        },
{
}

/// The models of a decoded picture and of a track that is decoded show every field.
pub proof fn decoded_values_show_every_field(f: YuvFrame, t: VideoTrackInfo)
    ensures
        f@.width == f.width,
        f@.height == f.height,
        f@.y == f.y@,
        f@.u == f.u@,
        f@.v == f.v@,
        f@.y_stride == f.y_stride,
        f@.u_stride == f.u_stride,
        f@.v_stride == f.v_stride,
        t@.track_id == t.track_id,
        t@.time_base == t.time_base,
        t@.annexb_header == t.annexb_header@,
        t@.nal_length_size == t.nal_length_size,
{
}

} // verus!
