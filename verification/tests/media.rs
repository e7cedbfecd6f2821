use silocut::media::{
    audio_decoder_failure, is_still_image, AudioDecode, AudioOutcome, AudioParams, MediaAsset,
    MediaTrack, OpenFailure, TrackParams, VideoParams,
};
use silocut::time::{FrameRate, TimeBase};
use std::path::PathBuf;

fn video(time_base: Option<TimeBase>, duration: Option<u64>) -> MediaTrack {
    MediaTrack {
        id: 1,
        params: TrackParams::Video(VideoParams {
            is_h264: true,
            width: Some(640),
            height: Some(360),
            extra_data: Vec::new(),
        }),
        time_base,
        duration,
    }
}

fn audio(duration: Option<u64>) -> MediaTrack {
    MediaTrack {
        id: 2,
        params: TrackParams::Audio(AudioParams { channels: Some(2), sample_rate: Some(48_000) }),
        time_base: Some(TimeBase::new(1, 48_000)),
        duration,
    }
}

fn load(tracks: Vec<MediaTrack>) -> MediaAsset {
    MediaAsset::load_metadata(3, PathBuf::from("m.mp4"), Some("m.mp4".to_string()), Ok(tracks)).unwrap()
}

#[test]
fn a_video_file() {
    let asset = load(vec![
        audio(Some(96_000)),
        video(Some(TimeBase::new(1, 90_000)), Some(135_000)),
        video(Some(TimeBase::new(1, 25)), Some(999)),
    ]);
    assert_eq!((asset.id, asset.name.as_str()), (3, "m.mp4"));
    assert!(asset.is_video && !asset.is_image);
    assert_eq!((asset.width, asset.height), (640, 360));
    assert_eq!(asset.fps, FrameRate { num: 30, den: 1 });
    assert_eq!(asset.duration, 1_500_000_000);
    assert_eq!((asset.audio_channels, asset.audio_sample_rate), (2, 48_000));
    assert_eq!(asset.audio_samples, None);
}

#[test]
fn plausible_time_bases_give_the_frame_rate() {
    let asset = load(vec![video(Some(TimeBase::new(1_001, 24_000)), None)]);
    assert_eq!(asset.fps, FrameRate { num: 24_000, den: 1_001 });
    assert_eq!(load(vec![video(Some(TimeBase::new(1, 241)), None)]).fps, FrameRate { num: 30, den: 1 });
    assert_eq!(load(vec![video(Some(TimeBase::new(2, 1)), None)]).fps, FrameRate { num: 30, den: 1 });
    assert_eq!(load(vec![video(None, None)]).fps, FrameRate { num: 30, den: 1 });
}

#[test]
fn an_audio_file() {
    let asset = load(vec![audio(Some(24_000))]);
    assert!(!asset.is_video);
    assert_eq!((asset.width, asset.height), (0, 0));
    assert_eq!(asset.fps, FrameRate { num: 0, den: 1 });
    assert_eq!(asset.duration, 500_000_000);
}

#[test]
fn the_longest_track_counts_where_the_video_says_nothing() {
    assert_eq!(load(vec![video(None, Some(9)), audio(Some(48_000))]).duration, 1_000_000_000);
    assert_eq!(load(vec![video(None, None)]).duration, 0);
}

#[test]
fn files_that_cannot_be_read() {
    let failed = |f: OpenFailure| MediaAsset::load_metadata(0, PathBuf::from("x"), None, Err(f)).unwrap_err();
    assert_eq!(failed(OpenFailure::Open("gone".to_string())), "Failed to open file: gone");
    assert_eq!(failed(OpenFailure::Probe("odd".to_string())), "Failed to probe file: odd");
}

#[test]
fn still_image_metadata() {
    let asset = MediaAsset::still_image(4, PathBuf::from("p.png"), None, 800, 600);
    assert_eq!(asset.name, "unknown");
    assert!(asset.is_image && asset.is_video);
    assert_eq!(asset.duration, 5_000_000_000);
    assert_eq!((asset.width, asset.height), (800, 600));
    assert_eq!(asset.audio_channels, 0);
}

#[test]
fn sound_is_decoded_packet_by_packet() {
    let mut decode = AudioDecode::begin(Ok(vec![video(None, None), audio(None)])).unwrap();
    assert!(decode.wants(2));
    assert!(!decode.wants(1));
    assert!(decode.take(AudioOutcome::Decoded(100)).is_ok());
    assert!(decode.take(AudioOutcome::Damaged).is_ok());
    assert!(decode.take(AudioOutcome::Decoded(28)).is_ok());
    assert_eq!(
        decode.take(AudioOutcome::Failed("reset".to_string())).unwrap_err(),
        "Audio decode error: reset"
    );
    assert_eq!(decode.finish().unwrap(), 128);
}

#[test]
fn sound_that_cannot_be_decoded() {
    assert_eq!(
        AudioDecode::begin(Ok(vec![video(None, None)])).unwrap_err(),
        "No audio track found for decoding"
    );
    assert_eq!(
        AudioDecode::begin(Err(OpenFailure::Open("gone".to_string()))).unwrap_err(),
        "Failed to open file: gone"
    );
    let decode = AudioDecode::begin(Ok(vec![audio(None)])).unwrap();
    assert_eq!(decode.finish().unwrap_err(), "No audio samples decoded");
    assert_eq!(
        audio_decoder_failure(&"none".to_string()),
        "Failed to create audio decoder: none"
    );
}

#[test]
fn ticks_and_nanoseconds() {
    let base = TimeBase::new(1, 90_000);
    assert_eq!(base.nanos_of_pts(45_000), 500_000_000);
    assert_eq!(base.nanos_of_pts(-45_000), -500_000_000);
    assert_eq!(base.nanos_of_pts(1), 11_111);
    assert_eq!(base.nanos_of_duration(u64::MAX), i64::MAX);
    assert_eq!(base.ticks_at(500_000_000), 45_000);
    assert_eq!(base.ticks_at(-500_000_001), -45_000);
    let rate = FrameRate { num: 30, den: 1 };
    assert_eq!(rate.frame_index(1_000_000_000), 30);
    assert_eq!(rate.frame_index(1_016_000_000), 30);
    assert_eq!(rate.frame_index(1_017_000_000), 31);
    assert_eq!(rate.frame_index(-5), 0);
}

#[test]
fn still_pictures_are_known_by_their_extension() {
    for ext in ["png", "jpg", "jpeg", "PNG", "Jpg", "jPEG"] {
        assert!(is_still_image(ext), "{ext}");
    }
    for ext in ["", "pn", "pngs", "mp4", "gif", "jpe", "p\u{212a}g"] {
        assert!(!is_still_image(ext), "{ext}");
    }
}
