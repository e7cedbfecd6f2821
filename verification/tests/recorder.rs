use silocut::recorder::{
    capture_size, countdown, frame_pause, recording_result, FrameQueue, RecordingTimer,
    ScreenRecorder, WorkerEnd,
};
use silocut::h264::RgbFrame;
use silocut::thumbnail::{
    downscale_rgba, make_thumb, thumb_of, ThumbResponse, ThumbStep, ThumbnailService,
};
use std::path::PathBuf;

#[test]
fn one_recording_at_a_time() {
    let mut recorder = ScreenRecorder::new();
    assert!(!recorder.is_recording());
    assert_eq!(recorder.stop().unwrap_err(), "No recording in progress.");
    assert!(recorder.start().is_ok());
    assert!(recorder.is_recording());
    assert_eq!(recorder.start().unwrap_err(), "Recording is already in progress.");
    assert_eq!(recorder.stop(), Ok(true));
    assert!(!recorder.is_recording());
    assert!(recorder.start().is_ok());
    recorder.worker_ended();
    assert!(!recorder.is_recording());
    assert_eq!(recorder.stop().unwrap_err(), "No recording in progress.");
}

#[test]
fn how_a_recording_ends() {
    let path = PathBuf::from("r.mp4");
    assert_eq!(recording_result(WorkerEnd::Finished(Ok(path.clone()))), Ok(path));
    assert_eq!(
        recording_result(WorkerEnd::Finished(Err("disk".to_string()))).unwrap_err(),
        "disk"
    );
    assert_eq!(recording_result(WorkerEnd::Panicked).unwrap_err(), "Recorder thread panicked.");
    assert_eq!(
        recording_result(WorkerEnd::Missing).unwrap_err(),
        "Recording thread handle was missing."
    );
}

#[test]
fn sizes_are_even() {
    assert_eq!(capture_size(1921, 1080), Ok((1920, 1080)));
    assert_eq!(capture_size(2, 3), Ok((2, 2)));
    assert_eq!(capture_size(1, 1080).unwrap_err(), "Failed to query monitor dimensions.");
    assert_eq!(capture_size(1920, 0).unwrap_err(), "Failed to query monitor dimensions.");
}

#[test]
fn frames_are_paced() {
    assert_eq!(frame_pause(30, 10_000_000), 23_333_333);
    assert_eq!(frame_pause(30, 33_333_333), 0);
    assert_eq!(frame_pause(60, 99_000_000), 0);
}

#[test]
fn frames_last_as_long_as_they_took() {
    let mut frames = FrameQueue::new();
    let times = [5u64, 38, 38, 171, 200];
    let shown: Vec<Option<(Vec<u8>, u32)>> =
        times.iter().enumerate().map(|(i, t)| frames.capture(vec![i as u8], *t)).collect();
    assert_eq!(
        shown,
        vec![
            None,
            Some((vec![0], 33)),
            Some((vec![1], 0)),
            Some((vec![2], 133)),
            Some((vec![3], 29)),
        ]
    );
    let total: u32 = shown.iter().flatten().map(|(_, ms)| ms).sum();
    assert_eq!(total, 195);
    assert_eq!(frames.capture(vec![5], 100), Some((vec![4], 0)));
    assert_eq!(frames.finish(30), Some((vec![5], 33)));
    assert_eq!(FrameQueue::new().finish(30), None);
}

#[test]
fn pauses_do_not_count() {
    let mut timer = RecordingTimer::start(1_000);
    assert_eq!(timer.elapsed(1_500), 500);
    timer.pause(2_000);
    assert_eq!(timer.elapsed(9_000), 1_000);
    timer.resume(10_000);
    assert_eq!(timer.elapsed(10_250), 1_250);
    timer.resume(12_000);
    assert_eq!(timer.elapsed(12_000), 3_000);
}

#[test]
fn three_two_one() {
    let shown: Vec<u64> = [0u64, 999, 1_000, 1_999, 2_000, 2_999, 3_000, 9_000]
        .iter()
        .map(|t| countdown(*t))
        .collect();
    assert_eq!(shown, vec![3, 3, 2, 2, 1, 1, 0, 0]);
}

#[test]
fn thumbnails_are_made_in_order() {
    let mut service = ThumbnailService::new();
    service.request(1, PathBuf::from("a"), false);
    service.request(2, PathBuf::from("b"), true);
    let first = service.next_request().unwrap();
    assert_eq!((first.asset_id, first.path, first.is_image), (1, PathBuf::from("a"), false));
    assert_eq!(service.next_request().unwrap().asset_id, 2);
    assert!(service.next_request().is_none());
    for asset_id in [1, 2] {
        service.deliver(ThumbResponse { asset_id, width: 0, height: 0, rgba: Vec::new() });
    }
    assert_eq!(service.next_response().unwrap().asset_id, 1);
    assert_eq!(service.next_response().unwrap().asset_id, 2);
    assert!(service.next_response().is_none());
}

#[test]
fn thumbnails_keep_the_proportions() {
    let (rgba, w, h) = downscale_rgba(vec![77u8; 128 * 32 * 4], 128, 32);
    assert_eq!((w, h), (256, 64));
    assert_eq!(rgba, vec![77u8; 256 * 64 * 4]);
    let (_, w, h) = downscale_rgba(vec![0u8; 9 * 1_000 * 4], 9, 1_000);
    assert_eq!((w, h), (1, 64));
    let (_, w, _) = downscale_rgba(vec![0u8; 3 * 128 * 4], 3, 128);
    assert_eq!(w, 2);
}

#[test]
fn pictures_that_cannot_be_scaled_stay() {
    assert_eq!(downscale_rgba(vec![1, 2], 0, 5), (vec![1, 2], 0, 5));
    assert_eq!(downscale_rgba(vec![1, 2], 5, 5), (vec![1, 2], 5, 5));
    let huge = 1usize << 40;
    assert_eq!(downscale_rgba(vec![1, 2], huge, huge), (vec![1, 2], huge, huge));
    assert_eq!(make_thumb(1, Vec::new(), huge, 1).unwrap().width, huge);
    let thumb = make_thumb(6, vec![9u8; 4 * 64], 1, 64).unwrap();
    assert_eq!((thumb.asset_id, thumb.width, thumb.height), (6, 1, 64));
    assert_eq!(thumb.rgba, vec![9u8; 4 * 64]);
}

#[test]
fn long_pictures_get_a_thumbnail() {
    let thumb = make_thumb(4, vec![200; 2_000_000 * 4], 1, 2_000_000).expect("thumbnail");
    assert_eq!((thumb.width, thumb.height), (1, 64));
    assert_eq!(thumb.rgba, vec![200; 64 * 4]);
    assert_eq!(make_thumb(5, vec![1; 9_000_000 * 4], 9_000_000, 1).map(|t| t.width), None);
    let (rgba, width, height) = downscale_rgba(vec![7; 320 * 240 * 4], 320, 240);
    assert_eq!((width, height, rgba.len()), (85, 64, 85 * 64 * 4));
}

#[test]
fn a_decoded_picture_becomes_a_thumbnail() {
    let frame = RgbFrame { width: 1, height: 64, rgb: [1u8, 2, 3].repeat(64) };
    match thumb_of(9, frame) {
        ThumbStep::Done(thumb) => {
            assert_eq!((thumb.asset_id, thumb.width, thumb.height), (9, 1, 64));
            assert_eq!(thumb.rgba, [1u8, 2, 3, 255].repeat(64));
        }
        _ => panic!("no thumbnail"),
    }
}

#[test]
fn thumbnails_come_back_in_order() {
    let mut service = ThumbnailService::new();
    for id in 0..4 {
        service.request(id, PathBuf::from("a"), false);
    }
    let mut back = Vec::new();
    // The second one cannot be decoded; another one is asked for meanwhile.
    while let Some(request) = service.next_request() {
        if request.asset_id == 2 {
            service.request(7, PathBuf::from("b"), true);
            back.push(service.next_response().map(|t| t.asset_id));
        }
        if request.asset_id != 1 {
            service.deliver(ThumbResponse {
                asset_id: request.asset_id,
                width: 0,
                height: 0,
                rgba: Vec::new(),
            });
        }
    }
    while let Some(thumb) = service.next_response() {
        back.push(Some(thumb.asset_id));
    }
    assert_eq!(back, vec![Some(0), Some(2), Some(3), Some(7)]);
}
