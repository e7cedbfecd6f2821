use silocut::editor::{earliest_free_start, Clip, EditTool, EditorState};
use silocut::media::MediaAsset;
use std::path::PathBuf;

const S: i64 = 1_000_000_000;

fn clip(id: usize, start: i64, end: i64) -> Clip {
    Clip {
        id,
        asset_id: 0,
        timeline_start: start * S,
        timeline_end: end * S,
        source_trim_start: 2 * S,
        source_trim_end: 2 * S + (end - start) * S,
        fade_in_duration: S,
        fade_out_duration: 2 * S,
    }
}

fn with_clips(clips: Vec<Clip>) -> EditorState {
    let mut state = EditorState::new();
    state.next_clip_id = 100;
    state.selected_clip = Some((true, 0, 0));
    state.video_tracks[0].clips = clips;
    state
}

fn spans(state: &EditorState) -> Vec<(usize, i64, i64)> {
    state.video_tracks[0].clips.iter().map(|c| (c.id, c.timeline_start / S, c.timeline_end / S)).collect()
}

#[test]
fn a_new_project_has_four_tracks() {
    let state = EditorState::new();
    let names: Vec<&str> = state
        .video_tracks
        .iter()
        .chain(state.audio_tracks.iter())
        .map(|t| t.name.as_str())
        .collect();
    assert_eq!(names, vec!["Video 1", "Video 2", "Audio 1", "Audio 2"]);
    let ids: Vec<usize> =
        state.video_tracks.iter().chain(state.audio_tracks.iter()).map(|t| t.id).collect();
    assert_eq!(ids, vec![0, 1, 2, 3]);
    assert_eq!(state.selected_tool, EditTool::Select);
    assert_eq!(state.zoom_factor, 15_000);
    assert_eq!((state.next_clip_id, state.next_track_id), (1, 4));
    assert!(state.video_tracks.iter().all(|t| t.is_video && t.volume == 1000 && t.clips.is_empty()));
}

#[test]
fn razor_splits_a_clip() {
    let mut state = with_clips(vec![clip(1, 0, 10), clip(2, 12, 14)]);
    state.razor_at(true, 0, 0, 4 * S);
    assert_eq!(spans(&state), vec![(1, 0, 4), (100, 4, 10), (2, 12, 14)]);
    let (a, b) = (state.video_tracks[0].clips[0], state.video_tracks[0].clips[1]);
    assert_eq!((a.source_trim_start, a.source_trim_end), (2 * S, 6 * S));
    assert_eq!((b.source_trim_start, b.source_trim_end), (6 * S, 12 * S));
    assert_eq!((a.fade_in_duration, a.fade_out_duration), (S, 0));
    assert_eq!((b.fade_in_duration, b.fade_out_duration), (0, 2 * S));
    assert_eq!(state.next_clip_id, 101);
    assert_eq!(state.selected_clip, None);
}

#[test]
fn razor_outside_a_clip_changes_nothing() {
    let mut state = with_clips(vec![clip(1, 0, 10)]);
    state.razor_at(true, 0, 0, 0);
    state.razor_at(true, 0, 0, 10 * S);
    state.razor_at(true, 0, 1, 5 * S);
    state.razor_at(true, 7, 0, 5 * S);
    state.razor_at(false, 0, 0, 5 * S);
    assert_eq!(spans(&state), vec![(1, 0, 10)]);
    assert_eq!(state.next_clip_id, 100);
    assert_eq!(state.selected_clip, Some((true, 0, 0)));
}

#[test]
fn a_split_plays_what_was_played() {
    let c = clip(1, 0, 10);
    let mut state = with_clips(vec![c]);
    state.razor_at(true, 0, 0, 3 * S);
    for t in 0..10 {
        let playing: Vec<i64> = state.video_tracks[0]
            .clips
            .iter()
            .filter(|p| p.timeline_start <= t * S && t * S < p.timeline_end)
            .map(|p| p.source_trim_start + (t * S - p.timeline_start))
            .collect();
        assert_eq!(playing, vec![c.source_trim_start + t * S]);
    }
}

#[test]
fn ripple_delete_closes_the_gap() {
    let mut state = with_clips(vec![clip(1, 0, 4), clip(2, 4, 7), clip(3, 9, 10), clip(4, 2, 3)]);
    state.ripple_delete(true, 0, 1);
    assert_eq!(spans(&state), vec![(1, 0, 4), (3, 6, 7), (4, 2, 3)]);
    assert_eq!(state.selected_clip, None);
    state.ripple_delete(true, 0, 9);
    assert_eq!(state.video_tracks[0].clips.len(), 3);
}

#[test]
fn ripple_delete_counts_a_nanosecond_as_adjacent() {
    let mut state = with_clips(vec![clip(1, 0, 4), clip(2, 4, 7), clip(3, 4, 7)]);
    state.video_tracks[0].clips[1].timeline_start -= 1;
    state.video_tracks[0].clips[2].timeline_start -= 2;
    state.ripple_delete(true, 0, 0);
    assert_eq!(state.video_tracks[0].clips[0].timeline_start, -1);
    assert_eq!(state.video_tracks[0].clips[1].timeline_start, 4 * S - 2);
}

#[test]
fn duplicate_goes_to_the_first_free_place() {
    let mut state = with_clips(vec![clip(1, 0, 3), clip(2, 4, 6), clip(3, 8, 12)]);
    state.duplicate_clip(true, 0, 0);
    assert_eq!(spans(&state), vec![(1, 0, 3), (2, 4, 6), (3, 8, 12), (100, 12, 15)]);
    state.duplicate_clip(true, 0, 1);
    assert_eq!(spans(&state), vec![(1, 0, 3), (2, 4, 6), (101, 6, 8), (3, 8, 12), (100, 12, 15)]);
    assert_eq!(state.next_clip_id, 102);
    assert_eq!(state.selected_clip, None);
    let copy = state.video_tracks[0].clips[2];
    assert_eq!(copy.source_trim_start, state.video_tracks[0].clips[1].source_trim_start);
}

#[test]
fn clips_that_begin_together_keep_their_order() {
    let mut state = with_clips(vec![clip(5, 8, 9), clip(1, 0, 1), clip(2, 0, 1), clip(3, 0, 1)]);
    state.duplicate_clip(true, 0, 0);
    let ids: Vec<usize> = state.video_tracks[0].clips.iter().map(|c| c.id).collect();
    assert_eq!(ids, vec![1, 2, 3, 5, 100]);
}

#[test]
fn free_places_start_at_zero() {
    let clips = vec![clip(1, 0, 3), clip(2, 3, 5), clip(3, 6, 9)];
    assert_eq!(earliest_free_start(&clips, -4 * S, S, usize::MAX), 5 * S);
    assert_eq!(earliest_free_start(&clips, -4 * S, 2 * S, usize::MAX), 9 * S);
    assert_eq!(earliest_free_start(&clips, -4 * S, 2 * S, 1), 0);
    assert_eq!(earliest_free_start(&Vec::new(), 7 * S, 2 * S, 1), 7 * S);
}

#[test]
fn the_selected_clip_is_deleted() {
    let mut state = with_clips(vec![clip(1, 0, 3), clip(2, 4, 6)]);
    state.selected_clip = Some((true, 0, 1));
    state.delete_selected();
    assert_eq!(spans(&state), vec![(1, 0, 3)]);
    assert_eq!(state.selected_clip, None);
    state.selected_clip = Some((false, 0, 0));
    state.delete_selected();
    assert_eq!(state.selected_clip, Some((false, 0, 0)));
}

#[test]
fn tracks_come_and_go() {
    let mut state = EditorState::new();
    state.add_track(false);
    assert_eq!(state.audio_tracks[2].name, "Audio 3");
    assert_eq!(state.audio_tracks[2].id, 4);
    assert!(!state.audio_tracks[2].is_video);
    assert_eq!(state.next_track_id, 5);
    state.selected_clip = Some((true, 0, 0));
    state.delete_track(false, 0);
    assert_eq!(state.audio_tracks.len(), 2);
    assert_eq!(state.audio_tracks[0].name, "Audio 2");
    assert_eq!(state.selected_clip, None);
}

fn asset(id: usize, is_video: bool) -> MediaAsset {
    let mut asset = MediaAsset::still_image(id, PathBuf::from("a.png"), Some("a".to_string()), 4, 4);
    asset.is_video = is_video;
    asset.is_image = false;
    asset.duration = 7 * S;
    asset
}

#[test]
fn an_asset_is_placed_at_the_playhead() {
    let mut state = EditorState::new();
    assert!(!state.import_asset(asset(0, true)));
    let mut sound = asset(1, false);
    sound.audio_channels = 2;
    sound.audio_sample_rate = 44_100;
    assert!(state.import_asset(sound));
    state.playhead = 3 * S;
    state.add_to_timeline(0);
    state.add_to_timeline(1);
    let c = state.video_tracks[0].clips[0];
    assert_eq!((c.id, c.asset_id, c.timeline_start, c.timeline_end), (1, 0, 3 * S, 10 * S));
    assert_eq!((c.source_trim_start, c.source_trim_end), (0, 7 * S));
    assert_eq!(state.audio_tracks[0].clips[0].id, 2);
    assert_eq!(state.next_clip_id, 3);
}

#[test]
fn a_lane_without_tracks_gets_one() {
    let mut state = EditorState::new();
    state.import_asset(asset(0, true));
    state.delete_track(true, 0);
    state.delete_track(true, 0);
    state.add_to_timeline(0);
    assert_eq!(state.video_tracks.len(), 1);
    assert_eq!(state.video_tracks[0].name, "Video 1");
    assert_eq!(state.video_tracks[0].id, 4);
    assert_eq!(state.video_tracks[0].clips.len(), 1);
}

#[test]
fn decoded_sound_sets_the_length_of_audio_files() {
    let mut state = EditorState::new();
    let mut sound = asset(0, false);
    sound.audio_channels = 2;
    sound.audio_sample_rate = 1_000;
    state.import_asset(sound);
    state.import_asset(asset(1, true));
    state.finish_audio(0, 3_000);
    state.finish_audio(1, 3_000);
    state.finish_audio(9, 3_000);
    assert_eq!(state.assets[0].duration, 1_500_000_000);
    assert_eq!(state.assets[0].audio_samples, Some(3_000));
    assert_eq!(state.assets[1].duration, 7 * S);
    assert_eq!(state.assets[1].audio_samples, Some(3_000));
}

#[test]
fn edits_keep_ids_apart() {
    let mut state = EditorState::new();
    state.import_asset(asset(0, true));
    state.add_to_timeline(0);
    state.duplicate_clip(true, 0, 0);
    state.razor_at(true, 0, 1, 9 * S);
    state.duplicate_clip(true, 0, 2);
    state.ripple_delete(true, 0, 1);
    let mut ids: Vec<usize> = state.video_tracks[0].clips.iter().map(|c| c.id).collect();
    assert!(ids.iter().all(|id| *id < state.next_clip_id));
    ids.sort();
    let count = ids.len();
    ids.dedup();
    assert_eq!(ids.len(), count);
}

#[test]
fn a_clip_that_could_not_be_moved_can_be_rippled_away() {
    let mut state = with_clips(vec![Clip {
        timeline_start: i64::MAX - 1,
        timeline_end: i64::MIN,
        ..clip(1, 0, 1)
    }]);
    state.ripple_delete(true, 0, 0);
    assert!(state.video_tracks[0].clips.is_empty());
}
