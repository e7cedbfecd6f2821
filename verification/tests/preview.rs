use silocut::editor::{Clip, EditorState};
use silocut::media::MediaAsset;
use silocut::pixels::{bgra_to_rgb, fade, is_complete, rgb_to_rgba, yuv420p_to_rgba, YuvFrame};
use silocut::preview::{
    fit_area, step_back, step_forward, CachedFrame, FrameKey, PreviewAction, PreviewEngine,
    SinkAction,
};
use std::path::PathBuf;

const S: i64 = 1_000_000_000;

fn clip(id: usize, asset_id: usize, start: i64, end: i64) -> Clip {
    Clip {
        id,
        asset_id,
        timeline_start: start * S,
        timeline_end: end * S,
        source_trim_start: 4 * S,
        source_trim_end: 4 * S + (end - start) * S,
        fade_in_duration: 0,
        fade_out_duration: 0,
    }
}

fn editor() -> EditorState {
    let mut state = EditorState::new();
    for id in 0..2 {
        let mut asset = MediaAsset::still_image(id, PathBuf::from("v.mp4"), None, 8, 8);
        asset.is_image = false;
        state.import_asset(asset);
    }
    state.video_tracks[0].clips = vec![clip(1, 0, 0, 10)];
    state.video_tracks[1].clips = vec![clip(2, 1, 5, 10)];
    state
}

#[test]
fn the_last_track_is_on_top() {
    let mut state = editor();
    assert_eq!(state.find_seen(2 * S), Some((0, 0, 0)));
    assert_eq!(state.find_seen(6 * S), Some((1, 0, 1)));
    assert_eq!(state.find_seen(10 * S), None);
    state.video_tracks[1].is_hidden = true;
    assert_eq!(state.find_seen(6 * S), Some((0, 0, 0)));
    state.video_tracks[1].is_hidden = false;
    state.video_tracks[0].is_solo = true;
    assert_eq!(state.find_seen(6 * S), Some((0, 0, 0)));
    state.video_tracks[0].is_hidden = true;
    assert_eq!(state.find_seen(6 * S), None);
}

#[test]
fn clips_of_unknown_assets_are_passed_over() {
    let mut state = editor();
    state.video_tracks[1].clips[0].asset_id = 77;
    assert_eq!(state.find_seen(6 * S), Some((0, 0, 0)));
}

#[test]
fn the_playhead_moves_while_playing() {
    let mut state = editor();
    assert!(!state.advance(S));
    assert_eq!(state.playhead, 0);
    state.is_playing = true;
    assert!(!state.advance(S));
    assert_eq!(state.playhead, S);
    assert!(state.advance(20 * S));
    assert_eq!(state.playhead, 10 * S);
    assert!(!state.is_playing);
}

#[test]
fn without_clips_playing_goes_on() {
    let mut state = EditorState::new();
    state.is_playing = true;
    assert!(!state.advance(S));
    assert!(state.is_playing);
    assert_eq!(state.playhead, S);
}

fn frame(key: FrameKey, value: u8) -> CachedFrame {
    CachedFrame { key, width: 2, height: 1, rgba: vec![value, value, value, 255, 9, 9, 9, 9] }
}

#[test]
fn a_frame_is_asked_for_once_and_then_shown() {
    let mut state = editor();
    state.playhead = S;
    let mut engine = PreviewEngine::new(false);
    let key = match engine.refresh(&state) {
        PreviewAction::Request(q) => {
            assert_eq!(q.target, 5 * S);
            assert_eq!(q.path, PathBuf::from("v.mp4"));
            assert!(!q.is_image);
            q.key
        }
        other => panic!("{:?}", other),
    };
    assert_eq!(key, FrameKey { asset_id: 0, frame_idx: 150 });
    assert!(matches!(engine.refresh(&state), PreviewAction::Keep));
    let image = engine.ingest(&state, frame(key, 100)).expect("shown");
    assert_eq!((image.width, image.height), (2, 1));
    assert_eq!(image.rgba, vec![100, 100, 100, 255, 9, 9, 9, 9]);
    assert!(matches!(engine.refresh(&state), PreviewAction::Keep));
    // A frame that is not wanted is only kept.
    let other = FrameKey { asset_id: 0, frame_idx: 160 };
    assert!(engine.ingest(&state, frame(other, 50)).is_none());
    assert_eq!(engine.frame_cache.len(), 2);
    engine.ingest(&state, frame(other, 60));
    assert_eq!(engine.frame_cache.len(), 2);
    assert_eq!(engine.frame_cache[&other.as_number()].rgba[0], 60);
}

#[test]
fn fades_are_shown_while_paused() {
    let mut state = editor();
    state.video_tracks[0].clips[0].fade_in_duration = 4 * S;
    state.assets[0].is_image = true;
    state.playhead = S;
    let mut engine = PreviewEngine::new(false);
    let key = FrameKey { asset_id: 0, frame_idx: 0 };
    let image = engine.ingest(&state, frame(key, 100)).expect("shown");
    assert_eq!(image.rgba, vec![25, 25, 25, 255, 2, 2, 2, 9]);
    state.playhead = 2 * S;
    match engine.refresh(&state) {
        PreviewAction::Show(image) => assert_eq!(&image.rgba[..4], &[50, 50, 50, 255]),
        other => panic!("{:?}", other),
    }
    assert!(matches!(engine.refresh(&state), PreviewAction::Keep));
}

#[test]
fn fades_out_at_the_end() {
    let mut state = editor();
    state.video_tracks[1].clips.clear();
    state.video_tracks[0].clips[0].fade_out_duration = 4 * S;
    state.assets[0].is_image = true;
    state.playhead = 9 * S;
    let mut engine = PreviewEngine::new(false);
    let image = engine.ingest(&state, frame(FrameKey { asset_id: 0, frame_idx: 0 }, 200)).unwrap();
    assert_eq!(image.rgba[0], 50);
}

#[test]
fn nothing_is_shown_where_nothing_is() {
    let mut state = editor();
    let mut engine = PreviewEngine::new(false);
    engine.ingest(&state, frame(FrameKey { asset_id: 0, frame_idx: 120 }, 1)).expect("shown");
    state.playhead = 11 * S;
    assert!(matches!(engine.refresh(&state), PreviewAction::Clear));
    assert!(engine.current_frame.is_none());
}

#[test]
fn too_many_frames_are_thrown_away() {
    let state = editor();
    let mut engine = PreviewEngine::new(false);
    for n in 0..301usize {
        engine.ingest(&state, frame(FrameKey { asset_id: 5, frame_idx: n }, 0));
    }
    assert_eq!(engine.frame_cache.len(), 301);
    engine.refresh(&state);
    assert_eq!(engine.frame_cache.len(), 0);
}

#[test]
fn sound_follows_the_playhead() {
    let mut state = editor();
    let mut engine = PreviewEngine::new(true);
    state.playhead = 3 * S;
    assert_eq!(engine.start_playback(&mut state), SinkAction::Restart);
    assert!(state.is_playing);
    assert_eq!(engine.next_audio_block(), 3 * S);
    assert_eq!(engine.next_audio_block(), 3 * S + 100_000_000);
    assert_eq!(engine.sync_audio(&state), SinkAction::Nothing);
    state.playhead = 3 * S + 600_000_001;
    assert_eq!(engine.sync_audio(&state), SinkAction::Restart);
    assert_eq!(engine.last_audio_queue_time, state.playhead);
    assert_eq!(engine.seek_to(&mut state, S), SinkAction::Restart);
    assert_eq!(engine.stop_playback(&mut state), SinkAction::Pause);
    assert_eq!(engine.seek_to(&mut state, 0), SinkAction::Stop);
    assert_eq!(state.playhead, 0);
}

#[test]
fn without_an_output_there_is_nothing_to_do() {
    let mut state = editor();
    let mut engine = PreviewEngine::new(false);
    engine.last_requested_frame = Some(FrameKey { asset_id: 0, frame_idx: 0 });
    assert_eq!(engine.start_playback(&mut state), SinkAction::Nothing);
    assert_eq!(engine.seek_to(&mut state, 9 * S), SinkAction::Nothing);
    assert_eq!(engine.last_requested_frame, None);
    assert_eq!(engine.sync_audio(&state), SinkAction::Nothing);
    assert_eq!(engine.stop_playback(&mut state), SinkAction::Nothing);
}

#[test]
fn steps_of_a_frame() {
    assert_eq!(step_back(S), 966_666_667);
    assert_eq!(step_back(20_000_000), 0);
    assert_eq!(step_forward(0), 33_333_333);
}

#[test]
fn the_viewport_keeps_the_proportions() {
    assert_eq!(fit_area(1920, 1080, 160_000, 160_000), (160_000, 90_000));
    assert_eq!(fit_area(1080, 1920, 160_000, 160_000), (90_000, 160_000));
    assert_eq!(fit_area(0, 9, 160_000, 90_000), (160_000, 90_000));
}

fn planes(y: u8, u: u8, v: u8) -> YuvFrame {
    YuvFrame {
        width: 3,
        height: 3,
        y: vec![y; 12],
        u: vec![u; 8],
        v: vec![v; 8],
        y_stride: 4,
        u_stride: 4,
        v_stride: 4,
    }
}

#[test]
fn limited_range_video_becomes_full_range() {
    let white = yuv420p_to_rgba(&planes(235, 128, 128));
    assert_eq!(white.len(), 36);
    assert_eq!(&white[..4], &[255, 255, 255, 255]);
    assert_eq!(&yuv420p_to_rgba(&planes(16, 128, 128))[..4], &[0, 0, 0, 255]);
    assert_eq!(&yuv420p_to_rgba(&planes(81, 90, 240))[..4], &[255, 0, 0, 255]);
    assert_eq!(&yuv420p_to_rgba(&planes(145, 54, 34))[..4], &[0, 255, 1, 255]);
    assert_eq!(&yuv420p_to_rgba(&planes(41, 240, 110))[..4], &[0, 0, 255, 255]);
}

#[test]
fn pixels_come_from_their_place() {
    let mut frame = planes(16, 128, 128);
    frame.y[2 * 4 + 1] = 235;
    let rgba = yuv420p_to_rgba(&frame);
    let bright: Vec<usize> = rgba.chunks(4).enumerate().filter(|(_, p)| p[0] == 255).map(|(i, _)| i).collect();
    assert_eq!(bright, vec![7]);
    frame.v[4 + 1] = 240;
    let rgba = yuv420p_to_rgba(&frame);
    let red: Vec<usize> = rgba.chunks(4).enumerate().filter(|(_, p)| p[0] > 100 && p[1] < 100).map(|(i, _)| i).collect();
    assert_eq!(red, vec![8]);
}

#[test]
fn planes_that_are_too_short_are_noticed() {
    assert!(is_complete(&planes(0, 0, 0)));
    let mut frame = planes(0, 0, 0);
    frame.y.truncate(10);
    assert!(!is_complete(&frame));
    let mut frame = planes(0, 0, 0);
    frame.u.truncate(5);
    assert!(!is_complete(&frame));
    let mut frame = planes(0, 0, 0);
    frame.height = usize::MAX;
    assert!(!is_complete(&frame));
    frame.width = 0;
    assert!(is_complete(&frame));
    assert_eq!(yuv420p_to_rgba(&frame), Vec::<u8>::new());
}

#[test]
fn fading_leaves_the_opacity() {
    let mut rgba = vec![200, 100, 51, 255, 4, 3, 2, 1, 7, 7];
    fade(&mut rgba, 1, 2);
    assert_eq!(rgba, vec![100, 50, 25, 255, 2, 1, 1, 1, 7, 7]);
    fade(&mut rgba, 0, 5);
    assert_eq!(rgba, vec![0, 0, 0, 255, 0, 0, 0, 1, 7, 7]);
}

#[test]
fn channels_are_reordered() {
    let mut rgb = vec![0u8; 6];
    bgra_to_rgb(&vec![1, 2, 3, 4, 5, 6, 7, 8], &mut rgb);
    assert_eq!(rgb, vec![3, 2, 1, 7, 6, 5]);
    assert_eq!(rgb_to_rgba(&vec![1, 2, 3, 4, 5, 6]), vec![1, 2, 3, 255, 4, 5, 6, 255]);
}

#[test]
fn keys_have_numbers_of_their_own() {
    let number = |asset_id, frame_idx| FrameKey { asset_id, frame_idx }.as_number();
    assert_eq!(number(0, 7), 7);
    assert_eq!(number(1, 0), 1 << 64);
    assert_ne!(number(0, 1), number(1, 0));
    assert_eq!(number(usize::MAX, usize::MAX), u128::MAX);
}
