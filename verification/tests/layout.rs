use silocut::editor::{Clip, EditorState};
use silocut::layout::{
    get_hovered_track_idx, get_track_y, is_labelled, playhead_label, ruler_ticks, tick_label,
    waveform_sample, TimeScale,
};

const S: i64 = 1_000_000_000;

fn clip(start: i64, end: i64) -> Clip {
    Clip {
        id: 1,
        asset_id: 0,
        timeline_start: start * S,
        timeline_end: end * S,
        source_trim_start: 2 * S,
        source_trim_end: 4 * S,
        fade_in_duration: 0,
        fade_out_duration: 0,
    }
}

#[test]
fn times_and_positions() {
    let scale = TimeScale { left: 100_000, zoom: 15_000, scroll: 30_000 };
    assert_eq!(scale.time_to_x(10 * S), 220_000);
    assert_eq!(scale.x_to_time(220_000), 10 * S);
    assert_eq!(scale.x_to_time(70_000), 0);
    assert_eq!(scale.x_to_time(55_000), -S);
    assert_eq!(scale.x_to_time(70_001), 66_666);
    for x in [70_000, 70_001, 123_456, 999_999] {
        let back = scale.time_to_x(scale.x_to_time(x));
        assert!((back - x as i128).abs() <= 1);
    }
}

#[test]
fn rows() {
    assert_eq!(get_track_y(5_000, true, 1, 2), 103_000);
    assert_eq!(get_track_y(5_000, false, 1, 2), 239_000);
    assert_eq!(get_hovered_track_idx(103_000, 5_000, true, 2), 1);
    assert_eq!(get_hovered_track_idx(900_000, 5_000, true, 2), 1);
    assert_eq!(get_hovered_track_idx(0, 5_000, true, 2), 0);
    assert_eq!(get_hovered_track_idx(0, 5_000, true, 0), 0);
    assert_eq!(get_hovered_track_idx(239_000, 5_000, false, 2), 1);
    assert_eq!(get_hovered_track_idx(579_000, 5_000, false, 2), 6);
    assert_eq!(get_hovered_track_idx(0, 5_000, false, 2), 0);
}

#[test]
fn the_canvas_has_room_for_a_minute_and_more() {
    let mut state = EditorState::new();
    // 70 s at 15 points per second, 500 points in sight
    assert_eq!(state.settle_scroll(500_000), 550_000);
    state.video_tracks[1].clips.push(clip(0, 200));
    assert_eq!(state.settle_scroll(500_000), 2_650_000);
    state.playhead = 300 * S;
    assert_eq!(state.settle_scroll(500_000), 4_150_000);
    assert_eq!(state.settle_scroll(5_000_000), 0);
}

#[test]
fn the_scroll_offset_stays_within_its_limits() {
    let mut state = EditorState::new();
    state.scroll_offset = 9_000_000;
    state.settle_scroll(500_000);
    assert_eq!(state.scroll_offset, 550_000);
    state.scroll_offset = -5;
    state.settle_scroll(500_000);
    assert_eq!(state.scroll_offset, 0);
}

#[test]
fn the_canvas_follows_the_playhead() {
    let mut state = EditorState::new();
    state.is_playing = true;
    state.playhead = 40 * S;
    state.settle_scroll(500_000);
    assert_eq!(state.scroll_offset, 140_000);
    state.playhead = 8 * S;
    state.settle_scroll(500_000);
    assert_eq!(state.scroll_offset, 80_000);
    state.playhead = 20 * S;
    state.settle_scroll(500_000);
    assert_eq!(state.scroll_offset, 80_000);
}

#[test]
fn the_zoom_fits_the_clips() {
    let mut state = EditorState::new();
    state.scroll_offset = 70;
    state.fit_zoom(1_176_000);
    assert_eq!(state.zoom_factor, 100_000);
    assert_eq!(state.scroll_offset, 0);
    state.video_tracks[0].clips.push(clip(0, 40));
    state.audio_tracks[0].clips.push(clip(0, 50));
    state.fit_zoom(1_176_000);
    assert_eq!(state.zoom_factor, 20_000);
    state.fit_zoom(0);
    assert_eq!(state.zoom_factor, 5_000);
}

#[test]
fn ticks_of_the_ruler() {
    let scale = TimeScale { left: 0, zoom: 20_000, scroll: 50_000 };
    assert_eq!(ruler_ticks(&scale, 30_000), vec![2, 3, 4]);
    let scale = TimeScale { left: 0, zoom: 10_000, scroll: 120_000 };
    assert_eq!(ruler_ticks(&scale, 100_000), vec![10, 15, 20]);
    let scale = TimeScale { left: 0, zoom: 1_000, scroll: 0 };
    assert_eq!(ruler_ticks(&scale, 25_000), vec![0, 10, 20]);
    let scale = TimeScale { left: 0, zoom: 1_000, scroll: -90_000 };
    assert_eq!(ruler_ticks(&scale, 25_000), Vec::<u64>::new());
}

#[test]
fn labels() {
    assert!(is_labelled(10, 20_000));
    assert!(!is_labelled(4, 20_000));
    assert!(is_labelled(20, 10_000));
    assert!(!is_labelled(15, 10_000));
    assert!(is_labelled(30, 4_000));
    assert!(!is_labelled(20, 4_000));
    assert_eq!(tick_label(0), "0:00");
    assert_eq!(tick_label(65), "1:05");
    assert_eq!(tick_label(3_600), "60:00");
    assert_eq!(playhead_label(0), "Time: 00:00.00");
    assert_eq!(playhead_label(83_456_000_000), "Time: 01:23.45");
    assert_eq!(playhead_label(6_000_000_000_000), "Time: 100:00.00");
}

#[test]
fn the_waveform_shows_the_trimmed_part() {
    let c = clip(0, 2);
    assert_eq!(waveform_sample(&c, 2, 1_000, 100_000, 0, 100_000), Some(4_000));
    assert_eq!(waveform_sample(&c, 2, 1_000, 100_000, 50_000, 100_000), Some(6_000));
    assert_eq!(waveform_sample(&c, 1, 1_000, 100_000, 100_000, 100_000), Some(4_000));
    assert_eq!(waveform_sample(&c, 2, 1_000, 5_000, 50_000, 100_000), None);
    assert_eq!(waveform_sample(&c, 0, 0, 10, 0, 1), Some(2));
}
