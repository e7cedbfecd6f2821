use openh264::decoder::Decoder;
use openh264::formats::{RgbSliceU8, YUVBuffer};
use silocut::codec::find_video_track;
use silocut::export::{finish_frame, fit_frame, render_frame, ExportJob, ExportQuality};
use silocut::h264::{build_encoder, encode_rgb, prime, RgbFrame, VideoDecoder};
use silocut::media::{ExtraData, MediaTrack, TrackParams, VideoParams};
use silocut::preview::FrameKey;
use silocut::recorder::{encode_capture, open_encoder};
use silocut::seek::{ExportDecoder, ExportStep, Packet, PreviewDecoder, PreviewStep, ReadPlan, SeekPlan};
use silocut::thumbnail::{ThumbDecode, ThumbStep};
use silocut::time::TimeBase;
use std::io::Cursor;
use symphonia_core::codecs::video::well_known::extra_data::VIDEO_EXTRA_DATA_ID_AVC_DECODER_CONFIG;
use symphonia_core::codecs::video::well_known::CODEC_ID_H264;
use symphonia_core::codecs::CodecParameters;
use symphonia_core::formats::probe::Hint;
use symphonia_core::formats::{FormatOptions, FormatReader};
use symphonia_core::io::MediaSourceStream;
use symphonia_core::meta::MetadataOptions;

fn synth_rgb(w: u32, h: u32, f: u32) -> Vec<u8> {
    let mut rgb = vec![0u8; (w * h * 3) as usize];
    for y in 0..h {
        for x in 0..w {
            let idx = ((y * w + x) * 3) as usize;
            rgb[idx] = ((x + f * 10) % 256) as u8;
            rgb[idx + 1] = ((y + f * 5) % 256) as u8;
            rgb[idx + 2] = ((x + y + f) % 256) as u8;
        }
    }
    rgb
}

fn recorded_mp4(w: u32, h: u32, fps: u32, frames: u32) -> Vec<u8> {
    let mut buf: Vec<u8> = Vec::new();
    let mut cursor = Cursor::new(&mut buf);
    let mut muxer = mp4e::Mp4e::new(&mut cursor);
    muxer.set_video_track(w, h, mp4e::Codec::AVC);
    let mut encoder = build_encoder(w, h, fps, true, 1_000).expect("encoder");
    let mut bitstream = Vec::new();
    for f in 0..frames {
        let rgb = synth_rgb(w, h, f);
        let yuv = YUVBuffer::from_rgb_source(RgbSliceU8::new(&rgb, (w as usize, h as usize)));
        let bs = encoder.encode(&yuv).expect("encode");
        bitstream.clear();
        bs.write_vec(&mut bitstream);
        muxer.encode_video(&bitstream, 1000 / fps).expect("mux");
    }
    muxer.flush().expect("flush");
    drop(muxer);
    buf
}

fn opened(bytes: Vec<u8>) -> Box<dyn FormatReader> {
    let mss = MediaSourceStream::new(Box::new(Cursor::new(bytes)), Default::default());
    let mut hint = Hint::new();
    hint.with_extension("mp4");
    symphonia::default::get_probe()
        .probe(&hint, mss, FormatOptions::default(), MetadataOptions::default())
        .expect("probe")
}

fn tracks_of(fmt: &dyn FormatReader) -> Vec<MediaTrack> {
    let mut tracks = Vec::new();
    for t in fmt.tracks() {
        let params = match &t.codec_params {
            Some(CodecParameters::Video(vp)) => {
                let mut extra_data = Vec::new();
                for ed in &vp.extra_data {
                    extra_data.push(ExtraData {
                        is_avc_config: ed.id == VIDEO_EXTRA_DATA_ID_AVC_DECODER_CONFIG,
                        data: ed.data.to_vec(),
                    });
                }
                TrackParams::Video(VideoParams {
                    is_h264: vp.codec == CODEC_ID_H264,
                    width: vp.width,
                    height: vp.height,
                    extra_data,
                })
            }
            _ => TrackParams::Other,
        };
        tracks.push(MediaTrack {
            id: t.id,
            params,
            time_base: t.time_base.map(|tb| TimeBase::new(tb.numer.get(), tb.denom.get())),
            duration: t.duration.map(|d| d.get()),
        });
    }
    tracks
}

fn packets_of(fmt: &mut dyn FormatReader) -> Vec<Packet> {
    let mut packets = Vec::new();
    while let Ok(Some(p)) = fmt.next_packet() {
        packets.push(Packet { track_id: p.track_id, pts: p.pts.get(), data: p.data.to_vec() });
    }
    packets
}

#[test]
fn encode_mux_demux_decode_roundtrip() {
    let (w, h, fps) = (320u32, 240u32, 30u32);
    let buf = recorded_mp4(w, h, fps, 15);
    assert!(buf.len() > 200, "muxed MP4 unexpectedly small: {} bytes", buf.len());

    let mut fmt = opened(buf);
    let tracks = tracks_of(&*fmt);
    let info = find_video_track(&tracks).expect("video track found");
    assert!(!info.annexb_header.is_empty(), "avcC SPS/PPS header must be present");

    let track_id = info.track_id;
    let mut decoder = VideoDecoder::open(info).expect("decoder");
    let mut decoded = 0;
    let mut dims = (0usize, 0usize);
    for packet in packets_of(&mut *fmt) {
        if packet.track_id != track_id {
            continue;
        }
        if let Some(yuv) = decoder.decode(&packet.data) {
            decoded += 1;
            dims = (yuv.width, yuv.height);
        }
    }
    assert!(decoded > 0, "decoder produced no frames from the muxed MP4");
    assert_eq!(dims, (w as usize, h as usize), "decoded frame dimensions mismatch");
}

#[test]
fn a_recording_has_a_length() {
    let fmt = opened(recorded_mp4(64, 48, 30, 15));
    let tracks = tracks_of(&*fmt);
    let asset = silocut::media::MediaAsset::load_metadata(
        0,
        std::path::PathBuf::from("recording.mp4"),
        Some("recording.mp4".to_string()),
        Ok(tracks),
    )
    .expect("metadata");
    assert!(asset.is_video);
    assert_eq!((asset.width, asset.height), (64, 48));
    assert!(asset.duration > 400_000_000, "duration {}", asset.duration);
    assert!(asset.duration < 600_000_000, "duration {}", asset.duration);
}

#[test]
fn the_preview_finds_the_frame_it_asks_for() {
    let mut fmt = opened(recorded_mp4(64, 48, 30, 15));
    let tracks = tracks_of(&*fmt);
    let packets = packets_of(&mut *fmt);
    let mut decoder = PreviewDecoder::new();
    assert!(decoder.needs_open(true));
    decoder.open(Some(tracks));
    assert!(!decoder.needs_open(true));
    assert!(decoder.needs_open(false));
    assert!(matches!(decoder.begin(true, 200_000_000), SeekPlan::SeekTo { restarted: true, .. }));

    let key = FrameKey { asset_id: 7, frame_idx: 6 };
    let mut found = None;
    for packet in &packets {
        if !decoder.wants_packet() {
            break;
        }
        if let PreviewStep::Found(frame) = decoder.offer(key, 200_000_000, packet) {
            found = Some(frame);
            break;
        }
    }
    let frame = found.expect("frame");
    assert_eq!(frame.key, key);
    assert_eq!((frame.width, frame.height), (64, 48));
    assert_eq!(frame.rgba.len(), 64 * 48 * 4);
    assert!(frame.rgba.chunks(4).all(|p| p[3] == 255));
    // A little further on the file is read on, and not sought.
    assert_eq!(decoder.begin(false, 300_000_000), SeekPlan::ReadOn);
    assert_eq!(decoder.begin(false, 0), SeekPlan::SeekTo { tick: 0, restarted: true });
    // Without a native decoder the file is sought all the same.
    assert_eq!(decoder.begin_with(true, 0, None), SeekPlan::SeekTo { tick: 0, restarted: false });
    let primed = Decoder::new().ok();
    assert_eq!(decoder.begin_with(true, 0, primed), SeekPlan::SeekTo { tick: 0, restarted: true });
}

#[test]
fn a_file_without_video_is_skipped() {
    let mut decoder = PreviewDecoder::new();
    decoder.open(Some(Vec::new()));
    assert!(!decoder.needs_open(true));
    assert_eq!(decoder.begin(true, 0), SeekPlan::Skip);
    decoder.open(None);
    assert!(decoder.needs_open(true));
    assert!(ExportDecoder::open(&Vec::new()).is_none());
    assert!(ThumbDecode::open(1, &Vec::new()).is_none());
}

#[test]
fn the_export_reads_frames_in_order() {
    let mut fmt = opened(recorded_mp4(64, 48, 30, 15));
    let tracks = tracks_of(&*fmt);
    let packets = packets_of(&mut *fmt);
    let mut decoder = ExportDecoder::open(&tracks).expect("decoder");
    assert!(!decoder.needs_seek(0));
    assert!(decoder.needs_seek(1_600_000_000));
    assert_eq!(decoder.begin(0), ReadPlan::ReadOn);
    let mut found = None;
    for packet in &packets {
        if let ExportStep::Found(frame) = decoder.offer(100_000_000, packet) {
            found = Some(frame);
            break;
        }
    }
    let frame = found.expect("frame");
    assert_eq!((frame.width, frame.height), (64, 48));
    assert_eq!(frame.rgb.len(), 64 * 48 * 3);
    // Going back means seeking, and the decoder starts over.
    assert!(decoder.needs_seek(0));
    assert_eq!(decoder.begin(0), ReadPlan::Restarted);
    assert!(!decoder.needs_seek(0));
}

#[test]
fn a_video_gets_a_thumbnail() {
    let mut fmt = opened(recorded_mp4(128, 96, 30, 5));
    let tracks = tracks_of(&*fmt);
    let packets = packets_of(&mut *fmt);
    let mut search = ThumbDecode::open(3, &tracks).expect("video track");
    let mut thumb = None;
    for packet in &packets {
        assert!(search.wants_packet());
        if let ThumbStep::Done(t) = search.offer(packet.track_id, &packet.data) {
            thumb = Some(t);
            break;
        }
    }
    let thumb = thumb.expect("thumbnail");
    assert_eq!(thumb.asset_id, 3);
    assert_eq!((thumb.width, thumb.height), (85, 64));
    assert_eq!(thumb.rgba.len(), 85 * 64 * 4);
}

#[test]
fn encoded_pictures_come_back() {
    let mut encoder = build_encoder(64, 48, 30, false, 1_000).expect("encoder");
    let mut rgb = Vec::new();
    for _ in 0..64 * 48 {
        rgb.extend_from_slice(&[200, 40, 60]);
    }
    let bytes = encode_rgb(&mut encoder, &rgb, 64, 48).expect("bytes");
    assert!(bytes.starts_with(&[0, 0, 0, 1]));
    let info = silocut::codec::VideoTrackInfo {
        track_id: 1,
        time_base: TimeBase::new(1, 30),
        annexb_header: Vec::new(),
        nal_length_size: 4,
    };
    let mut decoder = VideoDecoder::open(info).expect("decoder");
    let frame = decoder.decode_rgb(&bytes).expect("picture");
    assert_eq!((frame.width, frame.height), (64, 48));
    for pixel in frame.rgb.chunks(3) {
        assert!((pixel[0] as i32 - 200).abs() < 12, "{:?}", pixel);
        assert!((pixel[1] as i32 - 40).abs() < 12, "{:?}", pixel);
        assert!((pixel[2] as i32 - 60).abs() < 12, "{:?}", pixel);
    }
}

#[test]
fn oversized_pictures_are_not_encoded() {
    let mut encoder = build_encoder(3842, 2, 30, false, 1_000).expect("encoder");
    let rgb = vec![0u8; 3842 * 2 * 3];
    assert!(encode_rgb(&mut encoder, &rgb, 3842, 2).is_none());
}

#[test]
fn a_capture_is_encoded() {
    let mut encoder = build_encoder(16, 16, 30, true, 1_000).expect("encoder");
    let mut bgra = Vec::new();
    for _ in 0..256 {
        bgra.extend_from_slice(&[10, 20, 30, 0]);
    }
    let mut rgb = vec![0u8; 256 * 3];
    let bytes = encode_capture(&mut encoder, &bgra, &mut rgb, 16, 16).expect("bytes");
    assert!(!bytes.is_empty());
    assert_eq!(&rgb[..6], &[30, 20, 10, 30, 20, 10]);
}

#[test]
fn frames_are_brought_to_the_export_size() {
    let frame = RgbFrame { width: 4, height: 2, rgb: vec![90u8; 24] };
    assert_eq!(fit_frame(frame, 4, 2).unwrap(), vec![90u8; 24]);
    let frame = RgbFrame { width: 4, height: 2, rgb: vec![90u8; 24] };
    assert_eq!(fit_frame(frame, 8, 6).unwrap(), vec![90u8; 144]);
    let short = RgbFrame { width: 4, height: 2, rgb: vec![90u8; 10] };
    assert_eq!(
        fit_frame(short, 8, 6).unwrap_err(),
        "Failed to wrap decoded frame as ImageBuffer"
    );
}

#[test]
fn a_missing_frame_is_rendered_black() {
    let mut encoder = build_encoder(32, 32, 30, false, 1_000).expect("encoder");
    let black = render_frame(&mut encoder, None, 32, 32).expect("frame").expect("bytes");
    let white = RgbFrame { width: 16, height: 16, rgb: vec![255u8; 768] };
    let shown = render_frame(&mut encoder, Some(white), 32, 32).expect("frame").expect("bytes");

    let info = silocut::codec::VideoTrackInfo {
        track_id: 1,
        time_base: TimeBase::new(1, 30),
        annexb_header: Vec::new(),
        nal_length_size: 4,
    };
    let mut decoder = VideoDecoder::open(info).expect("decoder");
    let first = decoder.decode_rgb(&black).expect("picture");
    assert!(first.rgb.iter().all(|b| *b < 8));
    let second = decoder.decode_rgb(&shown).expect("picture");
    assert!(second.rgb.iter().all(|b| *b > 240));
}

#[test]
fn decoded_planes_become_rgba() {
    let mut encoder = build_encoder(16, 16, 30, false, 1_000).expect("encoder");
    let mut rgb = Vec::new();
    for _ in 0..256 {
        rgb.extend_from_slice(&[30, 160, 90]);
    }
    let bytes = encode_rgb(&mut encoder, &rgb, 16, 16).expect("bytes");
    let info = silocut::codec::VideoTrackInfo {
        track_id: 1,
        time_base: TimeBase::new(1, 30),
        annexb_header: Vec::new(),
        nal_length_size: 4,
    };
    let mut decoder = VideoDecoder::open(info).expect("decoder");
    let planes = decoder.decode(&bytes).expect("picture");
    assert!(silocut::pixels::is_complete(&planes));
    let rgba = silocut::pixels::yuv420p_to_rgba(&planes);
    assert_eq!(rgba.len(), 1024);
    for p in rgba.chunks(4) {
        assert!((p[0] as i32 - 30).abs() < 12, "{:?}", p);
        assert!((p[1] as i32 - 160).abs() < 12, "{:?}", p);
        assert!((p[2] as i32 - 90).abs() < 12, "{:?}", p);
        assert_eq!(p[3], 255);
    }
}

#[test]
fn without_a_native_decoder_nothing_is_opened() {
    let mut fmt = opened(recorded_mp4(320, 240, 30, 5));
    let tracks = tracks_of(&*fmt);
    let info = || find_video_track(&tracks).expect("video track");
    let header = info().annexb_header;
    assert!(prime(None, &header).is_none());
    assert!(VideoDecoder::with_primed(info(), None).is_none());
    assert!(ExportDecoder::of_video(None).is_none());
    assert!(ThumbDecode::of_video(1, None).is_none());

    let primed = prime(Decoder::new().ok(), &header);
    assert!(primed.is_some());
    let mut video = VideoDecoder::with_primed(info(), primed).expect("decoder");
    assert!(!video.reset_with(None));
    assert!(video.reset_with(prime(Decoder::new().ok(), &header)));
    let decoded = packets_of(&mut *fmt).iter().filter_map(|p| video.decode(&p.data)).count();
    assert!(decoded > 0);
}

#[test]
fn a_packet_before_zero_makes_the_file_be_sought() {
    let mut fmt = opened(recorded_mp4(64, 48, 30, 3));
    let tracks = tracks_of(&*fmt);
    let mut packets = packets_of(&mut *fmt);
    let mut decoder = ExportDecoder::open(&tracks).expect("decoder");
    assert_eq!(decoder.begin(0), ReadPlan::ReadOn);
    packets[0].pts = -1;
    decoder.offer(0, &packets[0]);
    assert!(decoder.needs_seek(0));
    assert!(decoder.needs_seek(1_000_000_000));
    assert_eq!(decoder.begin_with(9_000_000_000, None), ReadPlan::Failed);
    assert_eq!(decoder.begin_with(9_000_000_000, Decoder::new().ok()), ReadPlan::Restarted);
    assert!(!decoder.needs_seek(0));
}

#[test]
fn what_the_encoder_gave_is_what_is_added() {
    let mut encoder = build_encoder(64, 48, 30, false, 1_000).expect("encoder");
    let taken = Some(vec![1, 2, 3]);
    assert_eq!(finish_frame(&mut encoder, taken.clone(), 64, 48), taken);
    let dark = finish_frame(&mut encoder, None, 64, 48).expect("black frame");
    assert!(dark.len() > 4);
}

#[test]
fn exports_and_recordings_have_encoders() {
    let state = silocut::editor::EditorState::new();
    assert!(ExportJob::plan(&state, 64, 48, 30).is_err());
    let job = ExportJob { width: 64, height: 48, fps: 30, total_frames: 1 };
    let mut export = job.open_encoder(ExportQuality::High).expect("encoder");
    let mut recording = open_encoder(64, 48, 30).expect("encoder");
    let rgb = synth_rgb(64, 48, 0);
    assert!(encode_rgb(&mut export, &rgb, 64, 48).is_some());
    assert!(encode_rgb(&mut recording, &rgb, 64, 48).is_some());
}
