use tinyprof::counters::FrameReport;
use tinyprof::counters::ReportCounter;
use tinyprof::frontends::imgui_frontend::display_order;
use tinyprof::frontends::imgui_frontend::total_duration;
use tinyprof::frontends::imgui_frontend::ImguiBuildParams;
use tinyprof::frontends::imgui_frontend::ImguiFrontend;
use tinyprof::frontends::termion_frontend::append_spaces;
use tinyprof::frontends::termion_frontend::blank;
use tinyprof::frontends::termion_frontend::draw_counter_recursive;
use tinyprof::frontends::termion_frontend::draw_frame_report;
use tinyprof::frontends::termion_frontend::format_counter;
use tinyprof::frontends::termion_frontend::format_millis;
use tinyprof::frontends::termion_frontend::AreaEnd;
use tinyprof::frontends::termion_frontend::AreaStart;
use tinyprof::frontends::termion_frontend::Key;
use tinyprof::frontends::termion_frontend::Layout;
use tinyprof::frontends::termion_frontend::Line;
use tinyprof::frontends::termion_frontend::TerminalHelper;
use tinyprof::frontends::termion_frontend::TermionBuildParams;
use tinyprof::frontends::termion_frontend::TermionFrontend;
use tinyprof::frontends::ProfilerFrontend;
use tinyprof::name_map::NameMap;

fn leaf(name: &str, id: &'static str, duration: Option<u64>) -> ReportCounter {
    ReportCounter::new(name.to_string(), id, duration, Vec::new())
}

fn report(thread: &str, frame: i32, counters: Vec<ReportCounter>) -> FrameReport {
    FrameReport { thread_name: thread.to_string(), frame, counters, variables: NameMap::new() }
}

fn texts(lines: &Vec<Line>) -> Vec<String> {
    lines.iter().map(|line| line.text.trim_end().to_string()).collect()
}

#[test]
fn the_terminal_defaults() {
    let params = TermionBuildParams::default();
    assert_eq!(params.profiler_width, None);
    assert_eq!(params.logger_width, None);
    assert_eq!(params.height, None);
    assert_eq!(params.variables_height, None);
    assert_eq!(params.logs_count, 40);
}

#[test]
fn the_default_layout_of_a_terminal() {
    let layout = TermionBuildParams::default().layout((80, 24));
    assert_eq!(
        layout,
        Some(Layout {
            profiler_width: 40,
            profiler_height: 11,
            variables_height: 5,
            terminal_height: 16,
            logger_width: 40,
        })
    );
    let odd = TermionBuildParams::default().layout((81, 25)).unwrap();
    assert_eq!(odd.profiler_width, 40);
    assert_eq!(odd.logger_width, 41);
    assert_eq!(odd.terminal_height, 16);
    let huge = TermionBuildParams::default().layout((u16::MAX, u16::MAX)).unwrap();
    assert_eq!(huge.terminal_height, 43690);
    assert_eq!(huge.variables_height, 14563);
    assert_eq!(huge.profiler_height, 29127);
}

#[test]
fn a_layout_with_given_sizes() {
    let params = TermionBuildParams {
        profiler_width: Some(30),
        logger_width: Some(20),
        height: Some(12),
        variables_height: Some(4),
        logs_count: 3,
    };
    assert_eq!(
        params.layout((10, 10)),
        Some(Layout {
            profiler_width: 30,
            profiler_height: 8,
            variables_height: 4,
            terminal_height: 12,
            logger_width: 20,
        })
    );
}

#[test]
fn areas_that_do_not_fit_have_no_layout() {
    let too_high = TermionBuildParams { variables_height: Some(17), ..TermionBuildParams::default() };
    assert_eq!(too_high.layout((80, 24)), None);
    let just_fits = TermionBuildParams { variables_height: Some(16), ..TermionBuildParams::default() };
    assert_eq!(just_fits.layout((80, 24)).unwrap().profiler_height, 0);
    let too_wide = TermionBuildParams { profiler_width: Some(81), ..TermionBuildParams::default() };
    assert_eq!(too_wide.layout((80, 24)), None);
    let wide_with_log = TermionBuildParams {
        profiler_width: Some(81),
        logger_width: Some(5),
        ..TermionBuildParams::default()
    };
    assert_eq!(wide_with_log.layout((80, 24)).unwrap().logger_width, 5);
}

#[test]
fn text_is_cut_or_padded() {
    assert_eq!(append_spaces("abc", 5), "abc  ");
    assert_eq!(append_spaces("abcdef", 3), "abc");
    assert_eq!(append_spaces("abc", 3), "abc");
    assert_eq!(append_spaces("", 2), "  ");
    assert_eq!(append_spaces("abc", 0), "");
    assert_eq!(append_spaces("héllo", 3), "hél");
    assert_eq!(append_spaces("é", 3), "é  ");
    assert_eq!(blank(0), "");
    assert_eq!(blank(4), "    ");
}

#[test]
fn times_in_milliseconds() {
    assert_eq!(format_millis(0), "0.000");
    assert_eq!(format_millis(999), "0.000");
    assert_eq!(format_millis(1_000), "0.001");
    assert_eq!(format_millis(1_234_567), "1.234");
    assert_eq!(format_millis(1_999_999), "1.999");
    assert_eq!(format_millis(50_000_000), "50.000");
    assert_eq!(format_millis(12_000_010_000), "12000.010");
    assert_eq!(format_counter(&leaf("load", "id", Some(2_500_000))), "load: 2.500ms");
    assert_eq!(format_counter(&leaf("wait", "id", None)), "wait: 0.000ms");
}

#[test]
fn an_area_begins_and_ends_with_its_borders() {
    let mut helper = TerminalHelper::new(80, 24);
    let start = helper.text_area(5, 2, 20, 6);
    assert_eq!(start, AreaStart { up: 0, down: 2, left: 80, right: 5, width: 17 });
    let put = helper.put_string(0, "title", None);
    assert!(put.open);
    let line = put.line.unwrap();
    assert_eq!(line.left, 80);
    assert_eq!(line.right, 5);
    assert_eq!(line.text, " title           ");
    assert!(!line.highlighted);
    let end = helper.end_text_area();
    assert_eq!(end, AreaEnd { left: 80, right: 5, blank_lines: 3, width: 17 });
    let next = helper.text_area(0, 8, 10, 4);
    assert_eq!(next, AreaStart { up: 8, down: 8, left: 80, right: 0, width: 7 });
}

#[test]
fn lines_are_indented_and_cut() {
    let mut helper = TerminalHelper::new(80, 24);
    helper.text_area(0, 0, 12, 10);
    assert_eq!(helper.put_string(4, "abc", None).line.unwrap().text, "    abc  ");
    assert_eq!(helper.put_string(1, "abc", None).line.unwrap().text, " abc     ");
    assert_eq!(helper.put_string(0, "abcdefghijkl", None).line.unwrap().text, " abcdefgh");
    assert_eq!(helper.put_string(20, "abc", None).line.unwrap().text, "         ");
}

#[test]
fn a_full_area_takes_no_more_lines() {
    let mut helper = TerminalHelper::new(80, 24);
    helper.text_area(0, 0, 10, 5);
    assert!(helper.put_string(0, "one", None).line.is_some());
    assert!(helper.put_string(0, "two", None).line.is_some());
    let put = helper.put_string(0, "three", None);
    assert!(put.line.is_none());
    assert!(!put.open);
    assert_eq!(helper.fill_to_end(), AreaEnd { left: 80, right: 0, blank_lines: 1, width: 7 });
    assert_eq!(helper.fill_to_end(), AreaEnd { left: 80, right: 0, blank_lines: 0, width: 7 });
}

#[test]
fn the_cursor_moves_within_the_terminal() {
    let mut helper = TerminalHelper::new(10, 3);
    helper.text_area(0, 0, 10, 3);
    helper.cursor_up();
    helper.cursor_down();
    helper.cursor_down();
    helper.cursor_down();
    helper.cursor_down();
    helper.text_area(0, 0, 10, 10);
    assert!(!helper.put_string(0, "a", None).line.unwrap().highlighted);
    assert!(helper.put_string(0, "b", None).line.unwrap().highlighted);
    helper.text_area(0, 0, 10, 10);
    helper.cursor_up();
    assert!(helper.put_string(0, "a", None).line.unwrap().highlighted);
    assert!(!helper.put_string(0, "b", None).line.unwrap().highlighted);
}

#[test]
fn space_folds_and_unfolds_the_line_under_the_cursor() {
    let mut helper = TerminalHelper::new(80, 24);
    helper.cursor_down();
    helper.set_space_key();
    helper.text_area(0, 0, 12, 10);
    assert!(!helper.line_pressed(0));
    assert!(helper.line_pressed(1));
    let put = helper.put_string(0, "thread", Some("t".to_string()));
    assert!(put.open);
    assert_eq!(put.line.unwrap().text, " thread  ");
    helper.end_text_area();
    helper.next_frame();
    assert!(!helper.line_pressed(1));
    helper.text_area(0, 0, 12, 10);
    let put = helper.put_string(0, "thread", Some("t".to_string()));
    assert!(!put.open);
    assert_eq!(put.line.unwrap().text, "+thread  ");
    helper.end_text_area();
    helper.next_frame();
    helper.set_space_key();
    helper.text_area(0, 0, 12, 10);
    let put = helper.put_string(0, "thread", Some("t".to_string()));
    assert!(!put.open);
    helper.end_text_area();
    helper.next_frame();
    helper.text_area(0, 0, 12, 10);
    let put = helper.put_string(0, "thread", Some("t".to_string()));
    assert!(put.open);
    assert_eq!(put.line.unwrap().text, " thread  ");
}

#[test]
fn only_the_active_window_feels_the_keys() {
    let mut helper = TerminalHelper::new(80, 24);
    helper.set_space_key();
    helper.text_area(0, 0, 12, 10);
    helper.end_text_area();
    helper.text_area(0, 0, 12, 10);
    assert!(!helper.line_pressed(1));
    helper.cursor_up();
    let put = helper.put_string(0, "x", None);
    assert!(!put.line.unwrap().highlighted);
}

#[test]
fn a_tree_is_drawn_line_by_line() {
    let tree = ReportCounter::new(
        "a".to_string(),
        "id_a",
        Some(3_000_000),
        vec![
            ReportCounter::new("b".to_string(), "id_b", Some(1_000_000), vec![leaf("c", "id_c", None)]),
            leaf("d", "id_d", Some(500_000)),
        ],
    );
    let mut helper = TerminalHelper::new(80, 24);
    helper.text_area(0, 0, 40, 20);
    let mut lines = Vec::new();
    draw_counter_recursive(&mut helper, &tree, 4, &mut lines);
    assert_eq!(
        texts(&lines),
        vec![
            "    a: 3.000ms",
            "        b: 1.000ms",
            "            c: 0.000ms",
            "        d: 0.500ms",
        ]
    );
    assert!(lines.iter().all(|line| line.text.chars().count() == 37));
}

#[test]
fn a_folded_region_hides_what_is_inside() {
    let tree = ReportCounter::new(
        "a".to_string(),
        "id_a",
        Some(3_000_000),
        vec![
            ReportCounter::new("b".to_string(), "id_b", Some(1_000_000), vec![leaf("c", "id_c", None)]),
            leaf("d", "id_d", Some(500_000)),
        ],
    );
    let frame = report("main", 0, vec![tree]);
    let mut helper = TerminalHelper::new(80, 24);
    helper.cursor_down();
    helper.cursor_down();
    helper.cursor_down();
    helper.set_space_key();
    helper.text_area(0, 0, 40, 20);
    let mut lines = Vec::new();
    draw_frame_report(&mut helper, &frame, &mut lines);
    assert_eq!(lines.len(), 5);
    assert!(lines[2].highlighted);
    helper.end_text_area();
    helper.next_frame();
    helper.text_area(0, 0, 40, 20);
    let mut lines = Vec::new();
    draw_frame_report(&mut helper, &frame, &mut lines);
    assert_eq!(
        texts(&lines),
        vec![" main", "    a: 3.000ms", "       +b: 1.000ms", "        d: 0.500ms"]
    );
}

#[test]
fn a_tree_stops_where_the_area_is_full() {
    let tree = ReportCounter::new(
        "a".to_string(),
        "id_a",
        None,
        vec![leaf("b", "id_b", None), leaf("c", "id_c", None), leaf("d", "id_d", None)],
    );
    let mut helper = TerminalHelper::new(80, 24);
    helper.text_area(0, 0, 40, 5);
    let mut lines = Vec::new();
    draw_counter_recursive(&mut helper, &tree, 0, &mut lines);
    assert_eq!(texts(&lines), vec![" a: 0.000ms", "    b: 0.000ms"]);
}

#[test]
fn a_terminal_too_small_has_no_frontend() {
    assert!(TermionFrontend::new(TermionBuildParams::default(), (80, 24)).is_some());
    assert!(TermionFrontend::new(TermionBuildParams::default(), (2, 24)).is_none());
    assert!(TermionFrontend::new(TermionBuildParams::default(), (80, 1)).is_none());
    assert!(TermionFrontend::new(TermionBuildParams::default(), (5, 24)).is_none());
    assert!(TermionFrontend::new(TermionBuildParams::default(), (6, 24)).is_some());
    assert!(TermionFrontend::new(TermionBuildParams::default(), (80, 8)).is_none());
    let no_room = TermionBuildParams { variables_height: Some(15), ..TermionBuildParams::default() };
    assert!(TermionFrontend::new(no_room, (80, 24)).is_none());
}

#[test]
fn the_terminal_keeps_the_last_report_of_each_thread() {
    let mut frontend = TermionFrontend::new(TermionBuildParams::default(), (80, 24)).unwrap();
    frontend.receive_reports(report("T1", 0, vec![leaf("old", "id", None)]));
    frontend.receive_reports(report("T2", 0, vec![leaf("two", "id", None)]));
    frontend.receive_report(report("T1", 1, vec![leaf("new", "id", None)]));
    let threads = frontend.thread_data();
    assert_eq!(threads.len(), 2);
    assert_eq!(threads.name(0), "T1");
    assert_eq!(threads.value(0).frame, 1);
    assert_eq!(threads.value(0).counters[0].name, "new");
    assert_eq!(threads.get("T2").unwrap().counters[0].name, "two");
}

#[test]
fn the_terminal_reads_its_keys() {
    let mut frontend = TermionFrontend::new(TermionBuildParams::default(), (80, 24)).unwrap();
    assert!(frontend.press(Key::Up));
    assert!(frontend.press(Key::Down));
    assert!(frontend.press(Key::Char(' ')));
    assert!(frontend.press(Key::Char('x')));
    assert!(frontend.press(Key::Other));
    assert!(!frontend.press(Key::Char('q')));
}

#[test]
fn the_terminal_collects_its_log() {
    let mut frontend = TermionFrontend::new(TermionBuildParams::default(), (80, 24)).unwrap();
    assert_eq!(frontend.logs(), "");
    assert_eq!(frontend.logs_count(), 40);
    frontend.push_logs("one\n");
    frontend.push_logs("two\n");
    assert_eq!(frontend.logs(), "one\ntwo\n");
    assert_eq!(frontend.layout().profiler_width, 40);
}

#[test]
fn one_frame_of_the_terminal() {
    let mut frontend = TermionFrontend::new(TermionBuildParams::default(), (80, 24)).unwrap();
    frontend.receive_report(report("T1", 0, vec![leaf("work", "id_w", Some(2_000_000))]));
    frontend.receive_report(report("T2", 0, vec![leaf("rest", "id_r", None)]));
    frontend.press(Key::Down);
    let variables = vec!["T1".to_string(), "speed: 2.5".to_string()];
    let logs = vec!["last".to_string(), "first".to_string()];
    let picture = frontend.draw(&variables, &logs);
    assert_eq!(picture.profiler.start, AreaStart { up: 0, down: 0, left: 80, right: 0, width: 37 });
    assert_eq!(
        texts(&picture.profiler.lines),
        vec![
            " PROFILER, Arrows - navigate, space -",
            " T1",
            "    work: 2.000ms",
            " T2",
            "    rest: 0.000ms",
        ]
    );
    assert!(picture.profiler.lines[0].highlighted);
    assert!(!picture.profiler.lines[1].highlighted);
    assert_eq!(picture.profiler.end, AreaEnd { left: 80, right: 0, blank_lines: 4, width: 37 });
    assert_eq!(picture.variables.start, AreaStart { up: 11, down: 11, left: 80, right: 0, width: 37 });
    assert_eq!(texts(&picture.variables.lines), vec![" VARIABLES:", " T1"]);
    assert_eq!(picture.variables.end, AreaEnd { left: 80, right: 0, blank_lines: 1, width: 37 });
    assert_eq!(picture.logs.start, AreaStart { up: 16, down: 0, left: 80, right: 40, width: 37 });
    assert_eq!(texts(&picture.logs.lines), vec![" STDOUT:", " last", " first"]);
    assert_eq!(picture.logs.end, AreaEnd { left: 80, right: 40, blank_lines: 11, width: 37 });
    let again = frontend.draw(&Vec::new(), &Vec::new());
    assert_eq!(again.profiler.start.up, 16);
    assert_eq!(again.profiler.lines.len(), 5);
}

#[test]
fn the_windows_defaults() {
    let params = ImguiBuildParams::default();
    assert_eq!(params.frames_history, 666);
    assert!(params.record_on_start);
    assert_eq!(params.history_area_width, 500);
    assert_eq!(params.history_area_height, 30);
    let frontend = ImguiFrontend::new(params);
    assert!(!frontend.is_paused());
    assert!(frontend.selected_frame().is_none());
    assert_eq!(frontend.threads_data().len(), 0);
    assert_eq!(frontend.history_area_size(), (500, 30));
    let still = ImguiFrontend::new(ImguiBuildParams { record_on_start: false, ..ImguiBuildParams::default() });
    assert!(still.is_paused());
}

#[test]
fn root_times_add_up() {
    assert_eq!(total_duration(&Vec::new()), 0);
    let roots = vec![
        ReportCounter::new("a".to_string(), "id", Some(5), vec![leaf("inner", "id", Some(100))]),
        leaf("b", "id", None),
        leaf("c", "id", Some(7)),
    ];
    assert_eq!(total_duration(&roots), 12);
    let large = vec![leaf("a", "id", Some(u64::MAX)), leaf("b", "id", Some(1))];
    assert_eq!(total_duration(&large), u64::MAX);
}

#[test]
fn regions_are_shown_longest_first() {
    let counters = vec![
        leaf("short", "id", Some(1)),
        leaf("pending", "id", None),
        leaf("long", "id", Some(90)),
        leaf("middle", "id", Some(30)),
        leaf("waiting", "id", None),
        leaf("zero", "id", Some(0)),
    ];
    let order = display_order(&counters);
    let names: Vec<&str> = order.iter().map(|&place| counters[place].name.as_str()).collect();
    assert_eq!(&names[..4], &["long", "middle", "short", "zero"]);
    let mut last: Vec<&str> = names[4..].to_vec();
    last.sort();
    assert_eq!(last, vec!["pending", "waiting"]);
    let mut places = order.clone();
    places.sort();
    assert_eq!(places, vec![0, 1, 2, 3, 4, 5]);
    assert_eq!(display_order(&Vec::new()), Vec::<usize>::new());
}

#[test]
fn the_windows_keep_a_history_of_each_thread() {
    let mut frontend = ImguiFrontend::new(ImguiBuildParams { frames_history: 2, ..ImguiBuildParams::default() });
    frontend.receive_reports(report("T1", 0, vec![leaf("a", "id", Some(5)), leaf("b", "id", Some(6))]));
    frontend.receive_report(report("T2", 0, vec![leaf("x", "id", None)]));
    frontend.receive_report(report("T1", 1, vec![leaf("a", "id", Some(1))]));
    frontend.receive_report(report("T1", 2, vec![]));
    {
        let threads = frontend.threads_data();
        assert_eq!(threads.len(), 2);
        assert_eq!(threads.name(0), "T1");
        let frames: Vec<i32> = threads.value(0).reports.iter().map(|r| r.frame.frame).collect();
        assert_eq!(frames, vec![2, 1, 0]);
        let times: Vec<u64> = threads.value(0).reports.iter().map(|r| r.duration).collect();
        assert_eq!(times, vec![0, 1, 11]);
        assert_eq!(threads.get("T2").unwrap().reports.len(), 1);
    }
    frontend.truncate();
    let threads = frontend.threads_data();
    let frames: Vec<i32> = threads.value(0).reports.iter().map(|r| r.frame.frame).collect();
    assert_eq!(frames, vec![2, 1]);
    assert_eq!(threads.value(1).reports.len(), 1);
}

#[test]
fn paused_windows_take_no_reports() {
    let mut frontend = ImguiFrontend::new(ImguiBuildParams::default());
    frontend.receive_report(report("T1", 0, vec![leaf("a", "id", Some(5))]));
    frontend.toggle_pause();
    assert!(frontend.is_paused());
    frontend.receive_report(report("T1", 1, vec![]));
    frontend.receive_report(report("T9", 1, vec![]));
    assert_eq!(frontend.threads_data().len(), 1);
    assert_eq!(frontend.threads_data().value(0).reports.len(), 1);
    frontend.toggle_pause();
    assert!(!frontend.is_paused());
    frontend.receive_report(report("T1", 2, vec![]));
    assert_eq!(frontend.threads_data().value(0).reports.len(), 2);
}

#[test]
fn a_selected_frame_is_held_until_the_windows_record_again() {
    let mut frontend = ImguiFrontend::new(ImguiBuildParams::default());
    frontend.receive_report(report("T1", 0, vec![leaf("a", "id", Some(5))]));
    frontend.receive_report(report("T1", 1, vec![leaf("b", "id", Some(9))]));
    frontend.select(0, 1);
    assert!(frontend.is_paused());
    {
        let held = frontend.selected_frame().as_ref().unwrap();
        assert_eq!(held.duration, 5);
        assert_eq!(held.frame.frame, 0);
        assert_eq!(held.frame.counters[0].name, "a");
    }
    frontend.select(0, 0);
    assert_eq!(frontend.selected_frame().as_ref().unwrap().frame.frame, 1);
    frontend.toggle_pause();
    assert!(!frontend.is_paused());
    assert!(frontend.selected_frame().is_none());
    frontend.toggle_pause();
    assert!(frontend.is_paused());
    assert!(frontend.selected_frame().is_none());
}
