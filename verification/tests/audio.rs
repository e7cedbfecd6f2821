use silocut::audio::{make_wav_header, mix_time, Sound, Voice};
use silocut::editor::{Clip, EditorState};
use silocut::media::MediaAsset;
use std::path::PathBuf;

const S: i64 = 1_000_000_000;

fn clip(asset_id: usize, start: i64, end: i64) -> Clip {
    Clip {
        id: 1,
        asset_id,
        timeline_start: start * S,
        timeline_end: end * S,
        source_trim_start: S,
        source_trim_end: S + (end - start) * S,
        fade_in_duration: 0,
        fade_out_duration: 0,
    }
}

fn sound(id: usize, channels: u32, samples: Option<usize>) -> MediaAsset {
    let mut asset = MediaAsset::still_image(id, PathBuf::from("s.wav"), None, 0, 0);
    asset.is_image = false;
    asset.is_video = false;
    asset.duration = 8 * S;
    asset.audio_channels = channels;
    asset.audio_sample_rate = 1_000;
    asset.audio_samples = samples;
    asset
}

fn editor() -> EditorState {
    let mut state = EditorState::new();
    state.import_asset(sound(0, 2, Some(16_000)));
    state.import_asset(sound(1, 1, Some(8_000)));
    state.import_asset(sound(2, 2, None));
    state.video_tracks[0].clips = vec![clip(0, 0, 4)];
    state.audio_tracks[0].clips = vec![clip(1, 2, 6), clip(2, 2, 6), clip(9, 2, 6)];
    state.audio_tracks[1].clips = vec![clip(1, 0, 1)];
    state
}

fn heard(state: &EditorState, start: i64, end: i64) -> Vec<usize> {
    state.find_voices(start, end).iter().map(|v| v.asset).collect()
}

#[test]
fn voices_of_a_block() {
    let state = editor();
    assert_eq!(heard(&state, 0, S / 10), vec![0, 1]);
    assert_eq!(heard(&state, 3 * S, 3 * S + S / 10), vec![0, 1]);
    assert_eq!(heard(&state, 5 * S, 6 * S), vec![1]);
    assert_eq!(heard(&state, 2 * S - S / 10, 2 * S), vec![0]);
    assert_eq!(heard(&state, 7 * S, 8 * S), Vec::<usize>::new());
}

#[test]
fn muted_hidden_and_solo_tracks() {
    let mut state = editor();
    state.audio_tracks[0].is_muted = true;
    assert_eq!(heard(&state, 3 * S, 4 * S), vec![0]);
    state.video_tracks[0].is_hidden = true;
    assert_eq!(heard(&state, 3 * S, 4 * S), Vec::<usize>::new());
    let mut state = editor();
    state.audio_tracks[1].is_solo = true;
    assert_eq!(heard(&state, 0, 3 * S), vec![0, 1]);
    assert_eq!(state.find_voices(0, 3 * S)[1].clip.timeline_end, S);
    assert_eq!(heard(&state, 3 * S, 4 * S), vec![0]);
}

#[test]
fn samples_of_a_voice() {
    let state = editor();
    let stereo = Voice { asset: 0, clip: clip(0, 0, 4), volume: 500 };
    let asset = &state.assets[0];
    assert_eq!(
        stereo.sound_at(asset, 2 * S, 0),
        Some(Sound { left: 6_000, right: 6_001, numer: 500, denom: 1_000 })
    );
    assert_eq!(stereo.sound_at(asset, 4 * S, 0), None);
    assert_eq!(stereo.sound_at(asset, -1, 0), None);
    let mono = Voice { asset: 1, clip: clip(1, 2, 6), volume: 1_000 };
    assert_eq!(
        mono.sound_at(&state.assets[1], 2 * S, 0),
        Some(Sound { left: 1_000, right: 1_000, numer: 1_000, denom: 1_000 })
    );
    // Beyond the source, and beyond the samples, there is silence.
    let late = Voice { asset: 1, clip: clip(1, 0, 20), volume: 1_000 };
    assert_eq!(late.sound_at(&state.assets[1], 7 * S, 0), None);
    let short = sound(3, 1, Some(1_500));
    assert!(late.sound_at(&short, S / 4, 0).is_some());
    assert_eq!(late.sound_at(&short, S, 0), None);
    assert_eq!(late.sound_at(&sound(4, 0, Some(9)), S, 0), None);
}

#[test]
fn fades_make_it_softer() {
    let asset = sound(0, 2, Some(16_000));
    let mut voice = Voice { asset: 0, clip: clip(0, 0, 4), volume: 1_000 };
    voice.clip.fade_in_duration = 2 * S;
    voice.clip.fade_out_duration = S;
    let at = |t: i64| {
        let s = voice.sound_at(&asset, t, 0).unwrap();
        s.numer as f64 / s.denom as f64
    };
    assert_eq!(at(0), 0.0);
    assert_eq!(at(S / 2), 0.25);
    assert_eq!(at(2 * S), 1.0);
    assert_eq!(at(3 * S + S / 2), 0.5);
}

#[test]
fn each_frame_is_one_sample_further() {
    let mut asset = sound(0, 1, Some(400_000));
    asset.audio_sample_rate = 44_100;
    let voice = Voice { asset: 0, clip: clip(0, 2, 6), volume: 1_000 };
    for frame in 0..4_410 {
        let s = voice.sound_at(&asset, 2 * S + S / 10, frame).unwrap();
        assert_eq!(s.left, 44_100 + 4_410 + frame as usize);
    }
    // The last frame before the clip begins, and the first of the clip.
    assert_eq!(voice.sound_at(&asset, 0, 88_199), None);
    assert_eq!(voice.sound_at(&asset, 0, 88_200).unwrap().left, 44_100);
    asset.audio_sample_rate = 48_000;
    assert_eq!(voice.sound_at(&asset, 2 * S, 147).unwrap().left, 48_160);
    assert_eq!(voice.sound_at(&asset, 2 * S, 146).unwrap().left, 48_158);
}

#[test]
fn instants_of_the_mix() {
    assert_eq!(mix_time(5, 0), 5);
    assert_eq!(mix_time(0, 1), 22_675);
    assert_eq!(mix_time(S, 44_100), 2 * S);
}

#[test]
fn the_header_of_a_sound_file() {
    let header = make_wav_header(10);
    let expected: Vec<u8> = [
        &b"RIFF"[..],
        &76u32.to_le_bytes(),
        b"WAVEfmt ",
        &16u32.to_le_bytes(),
        &1u16.to_le_bytes(),
        &2u16.to_le_bytes(),
        &44_100u32.to_le_bytes(),
        &176_400u32.to_le_bytes(),
        &4u16.to_le_bytes(),
        &16u16.to_le_bytes(),
        b"data",
        &40u32.to_le_bytes(),
    ]
    .concat();
    assert_eq!(header, expected);
}

#[test]
fn frames_of_the_whole_mix() {
    let mut state = editor();
    assert_eq!(state.count_mix_frames(), Some(6 * 44_100));
    state.audio_tracks[0].clips[0].timeline_end = 100_000 * S;
    assert_eq!(state.count_mix_frames(), None);
    assert_eq!(EditorState::new().count_mix_frames(), Some(0));
}
