use silocut::editor::{Clip, EditorState};
use silocut::export::{export_height, progress_percent, ExportJob, ExportQuality, ExportSource};
use silocut::media::MediaAsset;
use silocut::resample::{scale_rgb, sizes_can_scale};
use silocut::status::{asset_label, Status};
use std::path::PathBuf;

const S: i64 = 1_000_000_000;

fn clip(asset_id: usize, start: i64, end: i64) -> Clip {
    Clip {
        id: 1,
        asset_id,
        timeline_start: start * S,
        timeline_end: end * S,
        source_trim_start: 10 * S,
        source_trim_end: 10 * S + (end - start) * S,
        fade_in_duration: 0,
        fade_out_duration: 0,
    }
}

fn editor() -> EditorState {
    let mut state = EditorState::new();
    for id in 0..3 {
        state.import_asset(MediaAsset::still_image(id, PathBuf::from("a"), None, 1, 1));
    }
    state.video_tracks[0].clips = vec![clip(0, 0, 4), clip(1, 1, 2)];
    state.video_tracks[1].clips = vec![clip(2, 3, 5), clip(7, 0, 6)];
    state
}

#[test]
fn an_export_needs_clips() {
    let mut state = EditorState::new();
    state.audio_tracks[0].clips.push(clip(0, 0, 9));
    assert_eq!(
        ExportJob::plan(&state, 1920, 1080, 30).unwrap_err(),
        "No video clips on the timeline to export."
    );
}

#[test]
fn an_export_ends_with_the_last_video_clip() {
    let mut state = editor();
    let job = ExportJob::plan(&state, 1280, 720, 60).unwrap();
    assert_eq!((job.width, job.height, job.fps), (1280, 720, 60));
    assert_eq!(job.total_frames, 360);
    assert_eq!(job.frame_millis(), 16);
    state.video_tracks[1].clips[1].timeline_end = 6 * S + 99_000_000;
    assert_eq!(ExportJob::plan(&state, 2, 2, 30).unwrap().total_frames, 182);
}

#[test]
fn the_last_playing_clip_is_rendered() {
    let state = editor();
    let job = ExportJob::plan(&state, 2, 2, 30).unwrap();
    assert_eq!(job.source(&state, 15), Some(ExportSource { asset: 0, target: 10 * S + S / 2 }));
    assert_eq!(job.source(&state, 45), Some(ExportSource { asset: 1, target: 10 * S + S / 2 }));
    assert_eq!(job.source(&state, 90), Some(ExportSource { asset: 2, target: 10 * S }));
    assert_eq!(job.source(&state, 165), None);
}

#[test]
fn sizes_and_qualities() {
    assert_eq!(export_height(1920), 1080);
    assert_eq!(export_height(1280), 720);
    assert_eq!(ExportQuality::Low.scale(), 500);
    assert_eq!(ExportQuality::Medium.scale(), 1_000);
    assert_eq!(ExportQuality::High.scale(), 2_000);
}

#[test]
fn progress() {
    assert_eq!(progress_percent(0, 0), 100);
    assert_eq!(progress_percent(0, 7), 0);
    assert_eq!(progress_percent(1, 200), 1);
    assert_eq!(progress_percent(99, 200), 50);
    assert_eq!(progress_percent(7, 7), 100);
}

#[test]
fn pictures_are_scaled() {
    let mut src = Vec::new();
    for x in [0u8, 100, 200, 50] {
        src.extend_from_slice(&[x, x / 2, 255 - x]);
    }
    // two columns of two: averaged into one pixel
    assert_eq!(scale_rgb(src.clone(), 2, 2, 1, 1), Some(vec![88, 44, 168]));
    assert_eq!(scale_rgb(src.clone(), 2, 2, 2, 2), Some(src.clone()));
    assert_eq!(scale_rgb(src, 3, 2, 1, 1), None);
    assert!(sizes_can_scale(1920, 1080, 1280, 720));
    assert!(!sizes_can_scale(0, 1080, 1280, 720));
    assert!(sizes_can_scale(2_000_000, 1, 1, 1));
    assert!(sizes_can_scale(1_100_000, 60, 1_173_333, 64));
    assert!(sizes_can_scale(8_388_608, 1, 8_388_607, 1));
    assert!(sizes_can_scale(9_000_000, 1, 9_000_000, 1));
    assert!(!sizes_can_scale(9_000_000, 1, 8_999_999, 1));
    assert!(!sizes_can_scale(9_000_000, 1, 9_000_000, 2));
}

#[test]
fn wide_pictures_are_scaled() {
    for (width, new_width) in [(1_100_000, 1_173_333), (8_388_607, 8_388_608)] {
        let scaled = scale_rgb(vec![7; width * 3], width, 1, new_width, 1).expect("picture");
        assert_eq!(scaled, vec![7; new_width * 3]);
    }
}

#[test]
fn messages() {
    let s = |t: &str| t.to_string();
    assert_eq!(Status::AudioFailed(s("x")).message(), "Audio decoding failed: x");
    assert_eq!(Status::Exporting.message(), "Exporting...");
    assert_eq!(
        Status::Exported(s("a.mp4"), s("a.wav")).message(),
        "Exported a.mp4 (audio: a.wav)"
    );
    assert_eq!(Status::ExportFailed(s("x")).message(), "Export failed: x");
    assert_eq!(Status::RecordingStarted.message(), "Recording started...");
    assert_eq!(Status::RecordingNotStarted(s("x")).message(), "Failed to start recording: x");
    assert_eq!(Status::RecordingImported.message(), "Recording saved and imported!");
    assert_eq!(Status::RecordingNotLoaded(s("x")).message(), "Failed to load recorded asset: x");
    assert_eq!(Status::RecordingFailed(s("x")).message(), "Recording error: x");
    assert_eq!(asset_label(&s("b.mp4"), true, false), "▶ Video - b.mp4");
    assert_eq!(asset_label(&s("b.wav"), false, true), "♫ Audio - b.wav (Decoding Audio...)");
}
