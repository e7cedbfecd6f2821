use silocut::drag::{find_clip_details, DragState};
use silocut::editor::{Clip, EditTool, EditorState};
use silocut::layout::{Canvas, Point};
use silocut::media::MediaAsset;
use std::path::PathBuf;

const S: i64 = 1_000_000_000;
const P: i64 = 1_000;

fn canvas() -> Canvas {
    Canvas { left: 0, top: 0, right: 1_000 * P, bottom: 302 * P }
}

fn clip(id: usize, start: i64, end: i64) -> Clip {
    Clip {
        id,
        asset_id: 0,
        timeline_start: start * S,
        timeline_end: end * S,
        source_trim_start: 5 * S,
        source_trim_end: 5 * S + (end - start) * S,
        fade_in_duration: 0,
        fade_out_duration: 0,
    }
}

// Ten points per second: a clip from 2 s to 6 s spans the points 20 to 60.
fn editor(clips: Vec<Clip>) -> EditorState {
    let mut state = EditorState::new();
    state.zoom_factor = 10 * P;
    state.next_clip_id = 50;
    state.playhead = 90 * S;
    let mut asset = MediaAsset::still_image(0, PathBuf::from("a.mp4"), None, 4, 4);
    asset.is_image = false;
    asset.duration = 20 * S;
    state.import_asset(asset);
    state.video_tracks[0].clips = clips;
    state
}

fn at(x: i64, y: i64) -> Point {
    Point { x: x * P, y: y * P }
}

fn spans(state: &EditorState, track: usize) -> Vec<(usize, i64, i64)> {
    state.video_tracks[track]
        .clips
        .iter()
        .map(|c| (c.id, c.timeline_start / S, c.timeline_end / S))
        .collect()
}

#[test]
fn a_press_on_the_ruler_takes_the_playhead() {
    let mut state = editor(vec![clip(1, 2, 6)]);
    let drag = state.press(&canvas(), DragState::Idle, at(40, 30));
    assert_eq!(drag, DragState::Playhead);
    assert_eq!(state.playhead, 4 * S);
    state.drag_to(&canvas(), drag, at(125, 200));
    assert_eq!(state.playhead, 12 * S + S / 2);
    state.drag_to(&canvas(), drag, at(-3, 200));
    assert_eq!(state.playhead, 0);
}

#[test]
fn a_press_outside_changes_nothing() {
    let mut state = editor(vec![clip(1, 2, 6)]);
    state.selected_clip = Some((true, 0, 0));
    let drag = state.press(&canvas(), DragState::Playhead, at(1_001, 40));
    assert_eq!(drag, DragState::Playhead);
    assert_eq!(state.selected_clip, Some((true, 0, 0)));
}

#[test]
fn a_press_on_nothing_drops_the_selection() {
    let mut state = editor(vec![clip(1, 2, 6)]);
    state.selected_clip = Some((true, 0, 0));
    let drag = state.press(&canvas(), DragState::Idle, at(80, 50));
    assert_eq!(drag, DragState::Idle);
    assert_eq!(state.selected_clip, None);
}

#[test]
fn a_press_on_a_clip_grabs_it() {
    let mut state = editor(vec![clip(1, 2, 6)]);
    match state.press(&canvas(), DragState::Idle, at(28, 50)) {
        DragState::ClipTrimLeft { clip_id, drag_start_trim_start, .. } => {
            assert_eq!((clip_id, drag_start_trim_start), (1, 5 * S));
        }
        other => panic!("{:?}", other),
    }
    match state.press(&canvas(), DragState::Idle, at(52, 50)) {
        DragState::ClipTrimRight { clip_id, drag_start_trim_end, .. } => {
            assert_eq!((clip_id, drag_start_trim_end), (1, 9 * S));
        }
        other => panic!("{:?}", other),
    }
    match state.press(&canvas(), DragState::Idle, at(40, 50)) {
        DragState::ClipMove { clip_id, is_video, drag_start_track_idx, .. } => {
            assert_eq!((clip_id, is_video, drag_start_track_idx), (1, true, 0));
        }
        other => panic!("{:?}", other),
    }
    assert_eq!(state.selected_clip, Some((true, 0, 0)));
}

#[test]
fn the_margin_between_tracks_belongs_to_no_clip() {
    let state = editor(vec![clip(1, 2, 6)]);
    assert_eq!(state.clip_at(&canvas(), at(40, 32)), Some((true, 0, 0)));
    assert_eq!(state.clip_at(&canvas(), at(40, 31)), None);
    assert_eq!(state.clip_at(&canvas(), at(40, 88)), Some((true, 0, 0)));
    assert_eq!(state.clip_at(&canvas(), at(40, 89)), None);
    assert_eq!(state.clip_at(&canvas(), at(60, 50)), Some((true, 0, 0)));
    assert_eq!(state.clip_at(&canvas(), at(61, 50)), None);
}

#[test]
fn the_razor_splits_where_it_is_pressed() {
    let mut state = editor(vec![clip(1, 2, 6)]);
    state.selected_tool = EditTool::Razor;
    let drag = state.press(&canvas(), DragState::Playhead, at(50, 50));
    assert_eq!(drag, DragState::Idle);
    assert_eq!(spans(&state, 0), vec![(1, 2, 5), (50, 5, 6)]);
}

#[test]
fn clips_are_found_by_id() {
    let mut state = editor(vec![clip(1, 2, 6), clip(2, 7, 8)]);
    state.audio_tracks[1].clips = vec![clip(3, 0, 1)];
    assert_eq!(find_clip_details(&state, 2), Some((true, 0, 1)));
    assert_eq!(find_clip_details(&state, 3), Some((false, 1, 0)));
    assert_eq!(find_clip_details(&state, 4), None);
}

fn grab(state: &mut EditorState, x: i64) -> DragState {
    state.press(&canvas(), DragState::Idle, at(x, 50))
}

#[test]
fn a_clip_is_moved() {
    let mut state = editor(vec![clip(1, 2, 6), clip(2, 40, 44)]);
    let drag = grab(&mut state, 40);
    state.drag_to(&canvas(), drag, at(240, 50));
    assert_eq!(spans(&state, 0), vec![(1, 22, 26), (2, 40, 44)]);
    assert_eq!(state.selected_clip, Some((true, 0, 0)));
    state.drag_to(&canvas(), drag, at(640, 50));
    assert_eq!(spans(&state, 0), vec![(2, 40, 44), (1, 62, 66)]);
    assert_eq!(state.selected_clip, Some((true, 0, 1)));
    let c = state.video_tracks[0].clips[1];
    assert_eq!((c.source_trim_start, c.source_trim_end), (5 * S, 9 * S));
}

#[test]
fn a_clip_is_moved_to_another_track() {
    let mut state = editor(vec![clip(1, 2, 6)]);
    state.video_tracks[1].clips = vec![clip(2, 20, 24)];
    let drag = grab(&mut state, 40);
    state.drag_to(&canvas(), drag, at(340, 110));
    assert_eq!(spans(&state, 0), vec![]);
    assert_eq!(spans(&state, 1), vec![(2, 20, 24), (1, 32, 36)]);
    assert_eq!(state.selected_clip, Some((true, 1, 1)));
    // Below the last video track the last one is meant.
    state.drag_to(&canvas(), drag, at(440, 290));
    assert_eq!(spans(&state, 1), vec![(2, 20, 24), (1, 42, 46)]);
}

#[test]
fn a_move_stops_at_zero() {
    let mut state = editor(vec![clip(1, 2, 6)]);
    let drag = grab(&mut state, 40);
    state.drag_to(&canvas(), drag, at(-500, 50));
    assert_eq!(spans(&state, 0), vec![(1, 0, 4)]);
}

#[test]
fn a_move_snaps_to_other_clips() {
    let mut state = editor(vec![clip(1, 2, 6), clip(2, 40, 44)]);
    let drag = grab(&mut state, 40);
    // 44.5 s is half a second from the end of the other clip: less than eight points.
    state.drag_to(&canvas(), drag, at(465, 50));
    assert_eq!(spans(&state, 0), vec![(2, 40, 44), (1, 44, 48)]);
    // A second away nothing snaps.
    state.drag_to(&canvas(), drag, at(475, 50));
    assert_eq!(state.video_tracks[0].clips[1].timeline_start, 45 * S + S / 2);
}

#[test]
fn a_moved_clip_is_pushed_aside() {
    let mut state = editor(vec![clip(1, 2, 6), clip(2, 40, 44), clip(3, 46, 60)]);
    let drag = grab(&mut state, 40);
    // Over the second clip it comes to stand in front of it.
    state.drag_to(&canvas(), drag, at(390, 50));
    assert_eq!(spans(&state, 0), vec![(1, 36, 40), (2, 40, 44), (3, 46, 60)]);
    // Between the two there is no room: it stays where it is.
    state.drag_to(&canvas(), drag, at(467, 50));
    assert_eq!(spans(&state, 0), vec![(1, 36, 40), (2, 40, 44), (3, 46, 60)]);
}

#[test]
fn a_clip_is_trimmed_on_the_left() {
    let mut state = editor(vec![clip(1, 2, 6), clip(2, 10, 20)]);
    let drag = grab(&mut state, 101);
    state.drag_to(&canvas(), drag, at(131, 50));
    let c = state.video_tracks[0].clips[1];
    assert_eq!((c.timeline_start, c.source_trim_start), (13 * S, 8 * S));
    // Not before the clip in front ends.
    state.drag_to(&canvas(), drag, at(41, 50));
    let c = state.video_tracks[0].clips[1];
    assert_eq!((c.timeline_start, c.source_trim_start), (6 * S, S));
    // A twentieth of a second is left.
    state.drag_to(&canvas(), drag, at(900, 50));
    let c = state.video_tracks[0].clips[1];
    assert_eq!(c.timeline_start, 20 * S - 50_000_000);
}

#[test]
fn a_trim_does_not_pass_the_source() {
    let mut state = editor(vec![clip(1, 8, 12)]);
    let drag = grab(&mut state, 81);
    state.drag_to(&canvas(), drag, at(11, 50));
    let c = state.video_tracks[0].clips[0];
    assert_eq!((c.timeline_start, c.source_trim_start), (3 * S, 0));

    let mut state = editor(vec![clip(1, 8, 12)]);
    let drag = grab(&mut state, 119);
    state.drag_to(&canvas(), drag, at(800, 50));
    let c = state.video_tracks[0].clips[0];
    // The source is 20 s long; the clip ended at 9 s of it.
    assert_eq!((c.timeline_end, c.source_trim_end), (23 * S, 20 * S));
}

#[test]
fn a_clip_is_trimmed_on_the_right() {
    let mut state = editor(vec![clip(1, 2, 6), clip(2, 10, 20)]);
    let drag = grab(&mut state, 59);
    state.drag_to(&canvas(), drag, at(79, 50));
    let c = state.video_tracks[0].clips[0];
    assert_eq!((c.timeline_end, c.source_trim_end), (8 * S, 11 * S));
    state.drag_to(&canvas(), drag, at(150, 50));
    assert_eq!(state.video_tracks[0].clips[0].timeline_end, 10 * S);
    state.drag_to(&canvas(), drag, at(0, 50));
    assert_eq!(state.video_tracks[0].clips[0].timeline_end, 2 * S + 50_000_000);
}

#[test]
fn stills_and_unknown_assets_can_be_drawn_out() {
    let mut state = editor(vec![clip(1, 2, 6)]);
    state.assets[0].is_image = true;
    let drag = grab(&mut state, 59);
    state.drag_to(&canvas(), drag, at(759, 50));
    assert_eq!(state.video_tracks[0].clips[0].timeline_end, 76 * S);

    let mut state = editor(vec![clip(1, 2, 6)]);
    state.video_tracks[0].clips[0].asset_id = 9;
    let drag = grab(&mut state, 59);
    state.drag_to(&canvas(), drag, Point { x: 59 * P + 40_000 * P, y: 50 * P });
    assert_eq!(state.video_tracks[0].clips[0].source_trim_end, 3_600 * S);
}

#[test]
fn a_drag_of_a_clip_that_is_gone_does_nothing() {
    let mut state = editor(vec![clip(1, 2, 6)]);
    let drag = grab(&mut state, 40);
    state.video_tracks[0].clips.clear();
    state.drag_to(&canvas(), drag, at(240, 50));
    state.drag_to(&canvas(), DragState::Idle, at(240, 50));
    assert_eq!(spans(&state, 0), vec![]);
}

#[test]
fn a_clip_that_does_not_fit_is_reverted() {
    let mut state = editor(vec![clip(1, 5, 8)]);
    state.zoom_factor = 15 * P;
    state.playhead = 0;
    state.video_tracks[1].clips = vec![clip(2, 0, 2), clip(3, 4, 9)];
    let drag = state.press(&canvas(), DragState::Idle, at(100, 60));
    assert!(matches!(drag, DragState::ClipMove { clip_id: 1, .. }));
    state.drag_to(&canvas(), drag, Point { x: 62_500, y: 128 * P });
    assert_eq!(spans(&state, 0), vec![(1, 5, 8)]);
    assert_eq!(spans(&state, 1), vec![(2, 0, 2), (3, 4, 9)]);
    // Where there is room it is moved.
    state.drag_to(&canvas(), drag, at(100 + 15 * 6, 128));
    assert_eq!(spans(&state, 0), vec![]);
    assert_eq!(spans(&state, 1), vec![(2, 0, 2), (3, 4, 9), (1, 11, 14)]);
}

#[test]
fn a_clip_that_does_not_fit_keeps_its_start() {
    let mut state = editor(vec![clip(1, 5, 8)]);
    state.zoom_factor = 15 * P;
    state.playhead = 0;
    state.video_tracks[1].clips = vec![clip(2, 0, 2), clip(3, 3, 4)];
    let drag = state.press(&canvas(), DragState::Idle, at(100, 60));
    assert!(matches!(drag, DragState::ClipMove { clip_id: 1, .. }));
    state.drag_to(&canvas(), drag, Point { x: 62_500, y: 128 * P });
    assert_eq!(spans(&state, 0), vec![]);
    assert_eq!(spans(&state, 1), vec![(2, 0, 2), (3, 3, 4), (1, 5, 8)]);
    assert_eq!(state.selected_clip, Some((true, 1, 2)));
}

#[test]
fn a_clip_before_the_gap_is_left_on_its_track() {
    let mut state = editor(vec![clip(1, 0, 3)]);
    state.zoom_factor = 15 * P;
    state.playhead = 20 * S;
    state.video_tracks[1].clips = vec![clip(2, 4, 5), clip(3, 7, 8)];
    let drag = state.press(&canvas(), DragState::Idle, at(20, 60));
    assert!(matches!(drag, DragState::ClipMove { clip_id: 1, .. }));
    state.drag_to(&canvas(), drag, Point { x: 20_000 + 88_000, y: 128 * P });
    assert_eq!(spans(&state, 0), vec![(1, 0, 3)]);
    assert_eq!(spans(&state, 1), vec![(2, 4, 5), (3, 7, 8)]);
}

#[test]
fn the_select_tool_needs_no_room_for_a_cut() {
    let mut state = editor(vec![clip(1, 2, 6)]);
    state.next_clip_id = usize::MAX;
    let drag = state.press(&canvas(), DragState::Idle, at(40, 60));
    assert!(matches!(drag, DragState::ClipMove { clip_id: 1, .. }));
    assert_eq!(state.selected_clip, Some((true, 0, 0)));
}
