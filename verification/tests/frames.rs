use tinyprof::profiler_frame::ProfilerCounter;
use tinyprof::profiler_frame::ProfilerFrame;
use tinyprof::profiler_state::ProfilerState;

#[test]
fn a_new_counter_has_nothing() {
    let counter = ProfilerCounter::new("c".to_string());
    assert_eq!(counter.name, "c");
    assert_eq!(counter.time, 0);
    assert_eq!(counter.counters.len(), 0);
    assert_eq!(counter.active_counter, None);
}

#[test]
fn a_new_frame_has_a_root() {
    let frame = ProfilerFrame::begin_new(17);
    assert_eq!(frame.begin_time, 17);
    assert_eq!(frame.end_time, 0);
    assert_eq!(frame.covered_time, 0);
    assert_eq!(frame.counters.name, "root");
    assert_eq!(ProfilerFrame::new().begin_time, 0);
}

#[test]
fn the_active_counter_is_the_innermost_open_one() {
    let mut root = ProfilerCounter::new("root".to_string());
    assert_eq!(root.active_counter().name, "root");
    assert_eq!(root.parent_active_counter().name, "root");
    let mut a = ProfilerCounter::new("a".to_string());
    let mut b = ProfilerCounter::new("b".to_string());
    b.counters.push(ProfilerCounter::new("c".to_string()));
    b.active_counter = Some(0);
    a.counters.push(ProfilerCounter::new("x".to_string()));
    a.counters.push(b);
    a.active_counter = Some(1);
    root.counters.push(a);
    root.active_counter = Some(0);
    assert_eq!(root.active_counter().name, "c");
    assert_eq!(root.parent_active_counter().name, "b");
    root.active_counter().time = 9;
    assert_eq!(root.counters[0].counters[1].counters[0].time, 9);
    root.parent_active_counter().active_counter = None;
    assert_eq!(root.active_counter().name, "b");
    assert_eq!(root.parent_active_counter().name, "a");
}

#[test]
fn tracked_regions_nest() {
    let mut state = ProfilerState::new();
    assert_eq!(state.current_index(), 0);
    assert_eq!(state.len(), 1);
    state.begin_track_time("a".to_string());
    state.begin_track_time("b".to_string());
    state.end_track_time(5);
    state.begin_track_time("c".to_string());
    state.end_track_time(2);
    state.end_track_time(9);
    state.begin_track_time("d".to_string());
    state.end_track_time(1);
    let frame = state.current_frame();
    assert_eq!(frame.covered_time, 17);
    let root = &frame.counters;
    assert_eq!(root.active_counter, None);
    assert_eq!(root.counters.len(), 2);
    assert_eq!(root.counters[0].name, "a");
    assert_eq!(root.counters[0].time, 9);
    assert_eq!(root.counters[0].active_counter, None);
    assert_eq!(root.counters[0].counters.len(), 2);
    assert_eq!(root.counters[0].counters[0].name, "b");
    assert_eq!(root.counters[0].counters[0].time, 5);
    assert_eq!(root.counters[0].counters[1].name, "c");
    assert_eq!(root.counters[0].counters[1].time, 2);
    assert_eq!(root.counters[1].name, "d");
    assert_eq!(root.counters[1].time, 1);
}

#[test]
fn an_open_region_is_marked_in_its_parent() {
    let mut state = ProfilerState::new();
    state.begin_track_time("a".to_string());
    state.begin_track_time("b".to_string());
    let frame = state.current_frame();
    assert_eq!(frame.counters.active_counter, Some(0));
    assert_eq!(frame.counters.counters[0].active_counter, Some(0));
    assert_eq!(frame.counters.counters[0].counters[0].active_counter, None);
}

#[test]
fn covered_time_stays_at_the_top() {
    let mut state = ProfilerState::new();
    state.begin_track_time("a".to_string());
    state.end_track_time(u64::MAX - 1);
    state.begin_track_time("b".to_string());
    state.end_track_time(5);
    assert_eq!(state.current_frame().covered_time, u64::MAX);
}

#[test]
fn the_next_frame_grows_the_row() {
    let mut state = ProfilerState::new();
    state.begin_track_time("a".to_string());
    state.end_track_time(3);
    state.next_frame();
    assert_eq!(state.current_index(), 1);
    assert_eq!(state.len(), 4);
    assert_eq!(state.previous_frame().counters.counters[0].name, "a");
    assert!(state.previous_frame().end_time >= state.previous_frame().begin_time);
    assert_eq!(state.current_frame().counters.counters.len(), 0);
    assert_eq!(state.current_frame().end_time, 0);
    state.next_frame();
    state.next_frame();
    assert_eq!(state.current_index(), 3);
    assert_eq!(state.len(), 4);
    state.next_frame();
    assert_eq!(state.current_index(), 4);
    assert_eq!(state.len(), 9);
}
