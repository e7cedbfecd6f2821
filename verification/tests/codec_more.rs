use silocut::codec::{encoder_bitrate, find_video_track, parse_avcc, to_annex_b};
use silocut::media::{ExtraData, MediaTrack, TrackParams, VideoParams};
use silocut::time::TimeBase;

#[test]
fn parsers_never_panic_on_garbage() {
    let mut seed: u64 = 0x9e37_79b9_7f4a_7c15;
    for round in 0..4_000usize {
        let mut data = Vec::new();
        for _ in 0..round % 97 {
            seed ^= seed << 13;
            seed ^= seed >> 7;
            seed ^= seed << 17;
            data.push((seed >> 24) as u8);
        }
        if round % 3 == 0 && !data.is_empty() {
            data[0] = 1;
        }
        let _ = parse_avcc(&data);
        for width in 0..6 {
            let out = to_annex_b(&data, width);
            assert!(data.is_empty() || !out.is_empty());
        }
    }
}

#[test]
fn malformed_records_are_refused() {
    assert!(parse_avcc(&[]).is_none());
    assert!(parse_avcc(&[2, 0x42, 0, 0x0a, 0xff, 0xe1, 0, 0]).is_none());
    // the parameter set is cut off
    assert!(parse_avcc(&[1, 0x42, 0, 0x0a, 0xff, 0xe1, 0, 9, 1, 2]).is_none());
    // no parameter sets at all
    assert!(parse_avcc(&[1, 0x42, 0, 0x0a, 0xff, 0xe0, 0]).is_none());
}

#[test]
fn narrow_prefixes_are_read() {
    assert_eq!(to_annex_b(&[2, 0x65, 0x11, 1, 0x41], 1), vec![0, 0, 0, 1, 0x65, 0x11, 0, 0, 0, 1, 0x41]);
    assert_eq!(to_annex_b(&[0, 1, 0x65], 2), vec![0, 0, 0, 1, 0x65]);
    // what cannot be read stays as it is
    assert_eq!(to_annex_b(&[9, 9], 4), vec![9, 9]);
    // a start code in front means that there is nothing to do
    assert_eq!(to_annex_b(&[0, 0, 1, 0x65], 4), vec![0, 0, 1, 0x65]);
}

fn video(id: u32, width: Option<u16>, extra_data: Vec<ExtraData>) -> MediaTrack {
    MediaTrack {
        id,
        params: TrackParams::Video(VideoParams { is_h264: true, width, height: Some(48), extra_data }),
        time_base: None,
        duration: None,
    }
}

#[test]
fn the_first_track_of_known_size_is_taken() {
    let record = vec![1, 0x42, 0, 0x0a, 0xfd, 0xe1, 0, 2, 0x67, 0x42, 1, 0, 1, 0x68];
    let tracks = vec![
        MediaTrack { id: 1, params: TrackParams::Other, time_base: None, duration: None },
        video(2, None, Vec::new()),
        video(
            3,
            Some(64),
            vec![
                ExtraData { is_avc_config: false, data: record.clone() },
                ExtraData { is_avc_config: true, data: record },
                ExtraData { is_avc_config: true, data: vec![0] },
            ],
        ),
        video(4, Some(32), Vec::new()),
    ];
    let info = find_video_track(&tracks).unwrap();
    assert_eq!(info.track_id, 3);
    assert_eq!(info.time_base, TimeBase::new(1, 30));
    assert_eq!(info.annexb_header, vec![0, 0, 0, 1, 0x67, 0x42, 0, 0, 0, 1, 0x68]);
    assert_eq!(info.nal_length_size, 2);
    assert!(find_video_track(&tracks[..2].iter().map(|_| video(9, None, Vec::new())).collect()).is_none());

    let plain = find_video_track(&vec![video(5, Some(16), Vec::new())]).unwrap();
    assert!(plain.annexb_header.is_empty());
    assert_eq!(plain.nal_length_size, 4);
}

#[test]
fn the_bit_rate_follows_size_rate_and_quality() {
    assert_eq!(encoder_bitrate(1920, 1080, 30, 1_000), 6_220_800);
    assert_eq!(encoder_bitrate(1920, 1080, 30, 500), 3_110_400);
    assert_eq!(encoder_bitrate(1920, 1080, 30, 2_000), 12_441_600);
    assert_eq!(encoder_bitrate(320, 240, 30, 1_000), 500_000);
    assert_eq!(encoder_bitrate(3840, 2160, 60, 8_000), 80_000_000);
    assert_eq!(encoder_bitrate(1920, 1080, 0, 1_000), 500_000);
    assert_eq!(encoder_bitrate(u32::MAX, u32::MAX, u32::MAX, 0), 80_000_000);
}

#[test]
fn only_h264_tracks_are_taken() {
    let mut other = video(1, Some(64), Vec::new());
    if let TrackParams::Video(params) = &mut other.params {
        params.is_h264 = false;
    }
    let info = find_video_track(&vec![other, video(2, Some(64), Vec::new())]).unwrap();
    assert_eq!(info.track_id, 2);
}

#[test]
fn a_prefix_width_of_three_is_passed_over() {
    let record = |width_byte| vec![1, 0x42, 0, 0x0a, width_byte, 0xe1, 0, 1, 0x67, 1, 0, 1, 0x68];
    assert_eq!(parse_avcc(&record(0xfe)).unwrap().1, 3);
    let data = |width_byte| ExtraData { is_avc_config: true, data: record(width_byte) };
    let found = |extra| find_video_track(&vec![video(1, Some(64), extra)]).unwrap();
    let info = found(vec![data(0xfc), data(0xfe)]);
    assert_eq!(info.nal_length_size, 1);
    assert_eq!(info.annexb_header, vec![0, 0, 0, 1, 0x67, 0, 0, 0, 1, 0x68]);
    let info = found(vec![data(0xfe)]);
    assert_eq!(info.nal_length_size, 4);
    assert!(info.annexb_header.is_empty());
}
