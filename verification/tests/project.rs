use silocut::editor::{Clip, EditTool, EditorState};
use silocut::media::MediaAsset;
use silocut::project::Project;
use std::path::PathBuf;

fn sample() -> EditorState {
    let mut state = EditorState::new();
    let still = MediaAsset::still_image(
        0,
        PathBuf::from("/media/bild ü.png"),
        Some("bild ü.png".to_string()),
        640,
        480,
    );
    state.import_asset(still);
    state.assets[0].audio_samples = Some(7);
    state.video_tracks[0].name = "Vidéo ♫".to_string();
    state.video_tracks[0].is_hidden = true;
    state.audio_tracks[1].is_solo = true;
    state.audio_tracks[1].volume = 250;
    state.video_tracks[1].clips.push(Clip {
        id: 9,
        asset_id: 0,
        timeline_start: -5,
        timeline_end: i64::MAX,
        source_trim_start: i64::MIN,
        source_trim_end: 0,
        fade_in_duration: 1,
        fade_out_duration: 2,
    });
    state.playhead = 1_234_567_890;
    state.selected_tool = EditTool::Razor;
    state.selected_clip = Some((true, 1, 0));
    state.next_clip_id = 10;
    state
}

fn paths(state: &EditorState) -> Vec<String> {
    state.assets.iter().map(|a| a.path.to_str().unwrap().to_string()).collect()
}

fn bytes(state: &EditorState) -> Vec<u8> {
    Project::of(state, &paths(state)).write()
}

#[test]
fn a_saved_project_opens_as_it_was() {
    let state = sample();
    let project = Project::read(&bytes(&state)).expect("a project");
    assert_eq!(project.assets[0].path, "/media/bild ü.png");
    let opened = project.open(&vec![PathBuf::from("/elsewhere/bild.png")]);
    let mut expected = state.clone();
    expected.assets[0].audio_samples = None;
    expected.assets[0].path = PathBuf::from("/elsewhere/bild.png");
    assert_eq!(format!("{:?}", opened), format!("{:?}", expected));
}

#[test]
fn an_empty_project_opens_as_it_was() {
    let state = EditorState::new();
    let opened = Project::read(&bytes(&state)).expect("a project").open(&Vec::new());
    assert_eq!(format!("{:?}", opened), format!("{:?}", state));
}

#[test]
fn the_file_begins_with_its_mark_and_the_playhead() {
    let mut state = EditorState::new();
    state.playhead = 1;
    let file = bytes(&state);
    assert_eq!(&file[0..8], b"SILOCUT1");
    assert_eq!(&file[8..16], &[0x80, 0, 0, 0, 0, 0, 0, 1]);
    assert_eq!(file[104..112], 2u64.to_be_bytes());
    assert_eq!(file.len(), 120 + 4 * 64 + 4 * "Video 1".len());
}

#[test]
fn a_cut_or_longer_file_is_no_project() {
    let file = bytes(&sample());
    for len in 0..file.len() {
        assert!(Project::read(&file[..len]).is_none());
    }
    let mut longer = file.clone();
    longer.push(0);
    assert!(Project::read(&longer).is_none());
}

#[test]
fn a_changed_byte_is_refused_or_read_as_it_stands() {
    let file = bytes(&sample());
    for i in 0..file.len() {
        let mut other = file.clone();
        other[i] ^= 0x80;
        if let Some(project) = Project::read(&other) {
            assert_eq!(project.write(), other);
        }
    }
}

#[test]
fn text_that_is_no_utf8_is_refused() {
    let mut file = bytes(&EditorState::new());
    let at = file.windows(7).position(|w| w == b"Video 1").unwrap();
    file[at] = 0xff;
    assert!(Project::read(&file).is_none());
}

#[test]
fn numbers_out_of_range_are_refused() {
    let state = EditorState::new();
    // The flags for playing, the tool and the selection.
    for at in [23, 31, 39] {
        let mut file = bytes(&state);
        file[at] = 2;
        assert!(Project::read(&file).is_none());
    }
    // A selection that is marked as missing.
    let mut file = bytes(&state);
    file[63] = 1;
    assert!(Project::read(&file).is_none());
}
