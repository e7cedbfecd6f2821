use silocut::editor::{Clip, EditorState};
use silocut::history::{timeline_differs, History};

fn clip(id: usize) -> Clip {
    Clip {
        id,
        asset_id: 0,
        timeline_start: id as i64 * 10,
        timeline_end: id as i64 * 10 + 5,
        source_trim_start: 0,
        source_trim_end: 5,
        fade_in_duration: 0,
        fade_out_duration: 0,
    }
}

fn with_ids(ids: &[usize]) -> EditorState {
    let mut state = EditorState::new();
    state.video_tracks[0].clips = ids.iter().map(|id| clip(*id)).collect();
    state
}

fn ids(state: &EditorState) -> Vec<usize> {
    state.video_tracks[0].clips.iter().map(|c| c.id).collect()
}

#[test]
fn the_first_undo_reverts() {
    let mut history = History::new();
    let mut state = with_ids(&[1]);
    let before = state.clone();
    state.video_tracks[0].clips.push(clip(2));
    history.end_frame(before, &state, false);
    assert!(history.undo(&mut state));
    assert_eq!(ids(&state), vec![1]);
    assert!(history.redo(&mut state));
    assert_eq!(ids(&state), vec![1, 2]);
    assert!(!history.redo(&mut state));
    assert!(history.undo(&mut state));
    assert!(!history.undo(&mut state));
}

#[test]
fn a_drag_becomes_one_step() {
    let mut history = History::new();
    let mut state = with_ids(&[1]);
    for step in 0..20 {
        let before = state.clone();
        state.video_tracks[0].clips[0].timeline_start = 100 + step;
        history.end_frame(before, &state, true);
    }
    assert_eq!(history.undo_stack.len(), 0);
    history.end_frame(state.clone(), &state, false);
    assert_eq!(history.undo_stack.len(), 1);
    assert!(history.undo(&mut state));
    assert_eq!(state.video_tracks[0].clips[0].timeline_start, 10);
}

#[test]
fn a_click_that_changes_nothing_is_no_step() {
    let mut history = History::new();
    let mut state = with_ids(&[1]);
    history.end_frame(state.clone(), &state, true);
    state.selected_clip = Some((true, 0, 0));
    state.playhead = 77;
    state.zoom_factor = 6_000;
    state.scroll_offset = 9;
    let before = with_ids(&[1]);
    history.end_frame(before, &state, false);
    assert_eq!(history.undo_stack.len(), 0);
    assert!(history.interaction_baseline.is_none());
}

#[test]
fn fifty_steps_are_kept() {
    let mut history = History::new();
    for n in 0..60usize {
        history.push_undo_state(with_ids(&[n]));
    }
    assert_eq!(history.undo_stack.len(), 50);
    assert_eq!(ids(&history.undo_stack[0]), vec![10]);
    let mut state = with_ids(&[99]);
    for _ in 0..50 {
        assert!(history.undo(&mut state));
    }
    assert!(!history.undo(&mut state));
    assert_eq!(ids(&state), vec![10]);
    assert_eq!(history.redo_stack.len(), 50);
}

#[test]
fn a_new_edit_forgets_what_was_undone() {
    let mut history = History::new();
    let mut state = with_ids(&[2]);
    history.push_undo_state(with_ids(&[1]));
    history.undo(&mut state);
    assert_eq!(history.redo_stack.len(), 1);
    // The frame of the undo records nothing.
    history.end_frame(with_ids(&[2]), &state, false);
    assert_eq!((history.undo_stack.len(), history.redo_stack.len()), (0, 1));
    history.end_frame(with_ids(&[7]), &state, false);
    assert_eq!((history.undo_stack.len(), history.redo_stack.len()), (1, 0));
}

#[test]
fn what_counts_as_a_change() {
    let a = with_ids(&[1]);
    let mut b = a.clone();
    b.is_playing = true;
    b.playhead = 5;
    assert!(!timeline_differs(&a, &b));
    b.video_tracks[1].name = "Titles".to_string();
    assert!(timeline_differs(&a, &b));
    let mut b = a.clone();
    b.audio_tracks[0].volume = 500;
    assert!(timeline_differs(&a, &b));
    let mut b = a.clone();
    b.video_tracks[0].clips[0].fade_in_duration = 1;
    assert!(timeline_differs(&a, &b));
    let mut b = a.clone();
    b.next_clip_id += 1;
    assert!(timeline_differs(&a, &b));
    let mut b = a.clone();
    b.audio_tracks.pop();
    assert!(timeline_differs(&a, &b));
}
