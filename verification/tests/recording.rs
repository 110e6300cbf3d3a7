use std::sync::Arc;
use std::sync::Mutex;
use tinyprof::counters::FrameReport;
use tinyprof::counters::ReportCounter;
use tinyprof::profiler::send_profiler_state;
use tinyprof::profiler::Profiler;
use tinyprof::profiler::ProfilerError;
use tinyprof::profiler::PROFILER_CHANNEL_BOUND;
use tinyprof::region::Region;
use tinyprof::reporter::CustomReporter;
use tinyprof::reporter::Reporter;
use tinyprof::reporter::CUSTOM;
use tinyprof::reporter::SYSTEM_CLOCK;
use tinyprof::thread_storage::end_region;
use tinyprof::thread_storage::next_frame;
use tinyprof::thread_storage::set_thread_name;
use tinyprof::thread_storage::set_variable_value;
use tinyprof::thread_storage::start_region;
use tinyprof::thread_storage::thread_label;
use tinyprof::thread_storage::ThreadStorage;

fn clock() -> Reporter {
    Reporter::SystemClock { start_time: 0, end_time: 0 }
}

struct Slow {
    polls: u32,
}

impl CustomReporter for Slow {
    fn start(&mut self) {}

    fn end(&mut self) {}

    fn duration(&mut self) -> Option<u64> {
        self.polls += 1;
        if self.polls < 2 {
            None
        } else {
            Some(1_500)
        }
    }
}

struct Counting {
    calls: Arc<Mutex<Vec<&'static str>>>,
}

impl CustomReporter for Counting {
    fn start(&mut self) {
        self.calls.lock().unwrap().push("start");
    }

    fn end(&mut self) {
        self.calls.lock().unwrap().push("end");
    }

    fn duration(&mut self) -> Option<u64> {
        self.calls.lock().unwrap().push("duration");
        Some(42)
    }
}

fn one_region(storage: &mut ThreadStorage, name: &str) {
    start_region(storage, name, "id", clock(), SYSTEM_CLOCK);
    end_region(storage, SYSTEM_CLOCK);
}

fn shape(counter: &ReportCounter) -> String {
    let inner: Vec<String> = counter.counters.iter().map(shape).collect();
    format!("{}({})", counter.name, inner.join(","))
}

fn drain(profiler: &mut Option<Profiler>) -> Vec<FrameReport> {
    profiler.as_mut().unwrap().receive_reports()
}

#[test]
fn nested_regions_report_nested_tree() {
    let mut storage = ThreadStorage::new();
    let mut profiler = Some(Profiler::new());
    start_region(&mut storage, "A", "idA", clock(), SYSTEM_CLOCK);
    start_region(&mut storage, "B", "idB", clock(), SYSTEM_CLOCK);
    end_region(&mut storage, SYSTEM_CLOCK);
    end_region(&mut storage, SYSTEM_CLOCK);
    assert_eq!(next_frame(&mut storage, &mut profiler), Ok(()));
    let reports = drain(&mut profiler);
    assert_eq!(reports.len(), 1);
    let roots = &reports[0].counters;
    assert_eq!(roots.len(), 1);
    assert_eq!(roots[0].name, "A");
    assert_eq!(roots[0].id, "idA");
    assert!(roots[0].duration.is_some());
    assert_eq!(roots[0].counters.len(), 1);
    assert_eq!(roots[0].counters[0].name, "B");
    assert_eq!(roots[0].counters[0].id, "idB");
    assert_eq!(roots[0].counters[0].counters.len(), 0);
    assert_eq!(reports[0].thread_name, "unknown");
    assert_eq!(reports[0].frame, 0);
}

#[test]
fn tree_mirrors_nesting_and_call_order() {
    let mut storage = ThreadStorage::new();
    let mut profiler = Some(Profiler::new());
    let calls = ["(a", "(b", ")", "(c", "(d", ")", "(e", ")", ")", ")", "(f", ")", "(g", "(h", ")", ")"];
    for call in calls.iter() {
        if call.starts_with('(') {
            start_region(&mut storage, &call[1..], "id", clock(), SYSTEM_CLOCK);
        } else {
            end_region(&mut storage, SYSTEM_CLOCK);
        }
    }
    assert_eq!(storage.depth(SYSTEM_CLOCK), 0);
    assert_eq!(next_frame(&mut storage, &mut profiler), Ok(()));
    let reports = drain(&mut profiler);
    let shapes: Vec<String> = reports[0].counters.iter().map(shape).collect();
    assert_eq!(shapes, vec!["a(b(),c(d(),e()))", "f()", "g(h())"]);
}

#[test]
fn depth_follows_begin_and_end() {
    let mut storage = ThreadStorage::new();
    assert_eq!(storage.depth(SYSTEM_CLOCK), 0);
    assert_eq!(storage.active_id(SYSTEM_CLOCK), None);
    start_region(&mut storage, "a", "id_a", clock(), SYSTEM_CLOCK);
    assert_eq!(storage.depth(SYSTEM_CLOCK), 1);
    assert_eq!(storage.active_id(SYSTEM_CLOCK), Some("id_a"));
    start_region(&mut storage, "b", "id_b", clock(), SYSTEM_CLOCK);
    assert_eq!(storage.depth(SYSTEM_CLOCK), 2);
    assert_eq!(storage.active_id(SYSTEM_CLOCK), Some("id_b"));
    assert_eq!(storage.depth(CUSTOM), 0);
    end_region(&mut storage, SYSTEM_CLOCK);
    assert_eq!(storage.active_id(SYSTEM_CLOCK), Some("id_a"));
    end_region(&mut storage, SYSTEM_CLOCK);
    assert_eq!(storage.depth(SYSTEM_CLOCK), 0);
}

#[test]
fn the_two_kinds_keep_separate_stacks() {
    let mut storage = ThreadStorage::new();
    let mut profiler = Some(Profiler::new());
    set_thread_name(&mut storage, "main");
    start_region(&mut storage, "cpu", "id_c", clock(), SYSTEM_CLOCK);
    start_region(&mut storage, "gpu", "id_g", Reporter::Custom(Box::new(Slow { polls: 1 })), CUSTOM);
    assert_eq!(storage.depth(SYSTEM_CLOCK), 1);
    assert_eq!(storage.depth(CUSTOM), 1);
    end_region(&mut storage, SYSTEM_CLOCK);
    assert_eq!(storage.depth(SYSTEM_CLOCK), 0);
    assert_eq!(storage.depth(CUSTOM), 1);
    end_region(&mut storage, CUSTOM);
    assert_eq!(next_frame(&mut storage, &mut profiler), Ok(()));
    let reports = drain(&mut profiler);
    assert_eq!(reports.len(), 2);
    assert_eq!(reports[0].thread_name, "main");
    assert_eq!(reports[0].counters[0].name, "cpu");
    assert_eq!(reports[1].thread_name, "main 1");
    assert_eq!(reports[1].counters[0].name, "gpu");
    assert_eq!(reports[1].counters[0].duration, Some(1_500));
    assert_eq!(reports[0].frame, 0);
    assert_eq!(reports[1].frame, 0);
    assert_eq!(storage.frame(), 1);
}

#[test]
fn two_threads_two_reports() {
    let mut first = ThreadStorage::new();
    let mut second = ThreadStorage::new();
    let mut profiler = Some(Profiler::new());
    set_thread_name(&mut first, "T1");
    set_thread_name(&mut second, "T2");
    start_region(&mut second, "work", "id2", clock(), SYSTEM_CLOCK);
    start_region(&mut first, "work", "id1", clock(), SYSTEM_CLOCK);
    end_region(&mut first, SYSTEM_CLOCK);
    end_region(&mut second, SYSTEM_CLOCK);
    assert_eq!(next_frame(&mut second, &mut profiler), Ok(()));
    assert_eq!(next_frame(&mut first, &mut profiler), Ok(()));
    let reports = drain(&mut profiler);
    assert_eq!(reports.len(), 2);
    let mut names: Vec<String> = reports.iter().map(|r| r.thread_name.clone()).collect();
    names.sort();
    assert_eq!(names, vec!["T1".to_string(), "T2".to_string()]);
}

#[test]
fn custom_source_not_ready_reports_none() {
    let mut storage = ThreadStorage::new();
    let mut profiler = Some(Profiler::new());
    let source = Reporter::Custom(Box::new(Slow { polls: 0 }));
    start_region(&mut storage, "gpu", "idG", source, CUSTOM);
    end_region(&mut storage, CUSTOM);
    assert_eq!(next_frame(&mut storage, &mut profiler), Ok(()));
    let reports = drain(&mut profiler);
    assert_eq!(reports.len(), 1);
    assert_eq!(reports[0].thread_name, "unknown 1");
    assert_eq!(reports[0].counters[0].name, "gpu");
    assert_eq!(reports[0].counters[0].duration, None);
}

#[test]
fn custom_source_resolves_on_second_poll() {
    let mut source = Reporter::Custom(Box::new(Slow { polls: 0 }));
    source.start();
    source.end();
    assert_eq!(source.duration(), None);
    assert_eq!(source.duration(), Some(1_500));
}

#[test]
fn custom_source_is_started_ended_and_polled_once() {
    let calls = Arc::new(Mutex::new(Vec::new()));
    let mut storage = ThreadStorage::new();
    let mut profiler = Some(Profiler::new());
    let source = Reporter::Custom(Box::new(Counting { calls: calls.clone() }));
    start_region(&mut storage, "gpu", "idG", source, CUSTOM);
    assert_eq!(*calls.lock().unwrap(), vec!["start"]);
    end_region(&mut storage, CUSTOM);
    assert_eq!(*calls.lock().unwrap(), vec!["start", "end"]);
    assert_eq!(next_frame(&mut storage, &mut profiler), Ok(()));
    assert_eq!(*calls.lock().unwrap(), vec!["start", "end", "duration"]);
    assert_eq!(drain(&mut profiler)[0].counters[0].duration, Some(42));
}

#[test]
fn clock_duration_is_end_minus_start() {
    let mut source = Reporter::SystemClock { start_time: 10, end_time: 35 };
    assert_eq!(source.duration(), Some(25));
    let mut same = Reporter::SystemClock { start_time: 7, end_time: 7 };
    assert_eq!(same.duration(), Some(0));
    let mut backwards = Reporter::SystemClock { start_time: 35, end_time: 10 };
    assert_eq!(backwards.duration(), None);
}

#[test]
fn clock_readings_are_recorded() {
    let mut source = Reporter::SystemClock { start_time: 0, end_time: 0 };
    source.start_at(100);
    source.end_at(350);
    assert_eq!(source.duration(), Some(250));
    source.start();
    source.end();
    match source {
        Reporter::SystemClock { start_time, end_time } => assert!(end_time >= start_time),
        Reporter::Custom(_) => panic!("a clock stays a clock"),
    }
}

#[test]
fn overflow_is_reported() {
    let bound = 3;
    let mut storage = ThreadStorage::new();
    let mut profiler = Some(Profiler::with_bound(bound));
    for _ in 0..bound {
        one_region(&mut storage, "r");
        assert_eq!(next_frame(&mut storage, &mut profiler), Ok(()));
    }
    one_region(&mut storage, "extra");
    assert_eq!(next_frame(&mut storage, &mut profiler), Err(ProfilerError::ChannelFull));
    assert_eq!(storage.frame(), 3);
    let reports = drain(&mut profiler);
    assert_eq!(reports.len(), bound);
    assert!(reports.iter().all(|r| r.counters[0].name == "r"));
    let frames: Vec<i32> = reports.iter().map(|r| r.frame).collect();
    assert_eq!(frames, vec![0, 1, 2]);
}

#[test]
fn a_channel_without_room_takes_nothing() {
    let mut profiler = Some(Profiler::with_bound(0));
    let report = FrameReport::from_thread_data("t", 0, Vec::new(), ThreadStorage::new().variables());
    assert_eq!(send_profiler_state(&mut profiler, report), Err(ProfilerError::ChannelFull));
    assert_eq!(profiler.as_ref().unwrap().len(), 0);
}

#[test]
fn the_default_bound_is_ten_thousand() {
    assert_eq!(PROFILER_CHANNEL_BOUND, 10000);
    assert_eq!(Profiler::new().capacity(), 10000);
    assert_eq!(Profiler::with_bound(7).capacity(), 7);
}

#[test]
fn reports_are_received_in_the_order_sent() {
    let mut profiler = Some(Profiler::new());
    let variables = ThreadStorage::new();
    for name in ["one", "two", "three"].iter() {
        let report = FrameReport::from_thread_data(name, 5, Vec::new(), variables.variables());
        assert_eq!(send_profiler_state(&mut profiler, report), Ok(()));
    }
    assert_eq!(profiler.as_ref().unwrap().len(), 3);
    let names: Vec<String> = drain(&mut profiler).into_iter().map(|r| r.thread_name).collect();
    assert_eq!(names, vec!["one", "two", "three"]);
}

#[test]
fn draining_nothing_gives_nothing() {
    let mut profiler = Profiler::new();
    assert_eq!(profiler.receive_reports().len(), 0);
    assert_eq!(profiler.receive_reports().len(), 0);
    assert_eq!(profiler.len(), 0);
}

#[test]
fn draining_twice_gives_each_report_once() {
    let mut storage = ThreadStorage::new();
    let mut profiler = Some(Profiler::new());
    one_region(&mut storage, "r");
    assert_eq!(next_frame(&mut storage, &mut profiler), Ok(()));
    assert_eq!(drain(&mut profiler).len(), 1);
    assert_eq!(drain(&mut profiler).len(), 0);
}

#[test]
fn without_a_profiler_the_report_is_lost_with_a_signal() {
    let mut storage = ThreadStorage::new();
    let mut profiler = None;
    one_region(&mut storage, "early");
    assert_eq!(next_frame(&mut storage, &mut profiler), Err(ProfilerError::NotInitialised));
    assert!(profiler.is_none());
    assert_eq!(storage.frame(), 0);
    let mut profiler = Some(Profiler::new());
    assert_eq!(next_frame(&mut storage, &mut profiler), Ok(()));
    assert_eq!(drain(&mut profiler).len(), 0);
    assert_eq!(storage.frame(), 1);
}

#[test]
fn an_open_region_stops_the_frame() {
    let mut storage = ThreadStorage::new();
    let mut profiler = Some(Profiler::new());
    set_variable_value(&mut storage, "v".to_string(), 9);
    start_region(&mut storage, "open", "id", clock(), SYSTEM_CLOCK);
    assert_eq!(next_frame(&mut storage, &mut profiler), Err(ProfilerError::UnterminatedRegion));
    assert_eq!(storage.depth(SYSTEM_CLOCK), 1);
    assert_eq!(storage.frame(), 0);
    assert_eq!(storage.variables().len(), 1);
    assert_eq!(profiler.as_ref().unwrap().len(), 0);
    end_region(&mut storage, SYSTEM_CLOCK);
    assert_eq!(next_frame(&mut storage, &mut profiler), Ok(()));
    let reports = drain(&mut profiler);
    assert_eq!(reports.len(), 1);
    assert_eq!(reports[0].counters[0].name, "open");
    assert_eq!(reports[0].frame, 0);
}

#[test]
fn a_failing_kind_leaves_the_kinds_before_it_advanced() {
    let mut storage = ThreadStorage::new();
    let mut profiler = Some(Profiler::new());
    one_region(&mut storage, "cpu");
    start_region(&mut storage, "gpu", "id", Reporter::Custom(Box::new(Slow { polls: 0 })), CUSTOM);
    assert_eq!(next_frame(&mut storage, &mut profiler), Err(ProfilerError::UnterminatedRegion));
    assert_eq!(storage.frame(), 0);
    assert_eq!(storage.depth(CUSTOM), 1);
    let reports = drain(&mut profiler);
    assert_eq!(reports.len(), 1);
    assert_eq!(reports[0].counters[0].name, "cpu");
    end_region(&mut storage, CUSTOM);
    assert_eq!(next_frame(&mut storage, &mut profiler), Ok(()));
    let reports = drain(&mut profiler);
    assert_eq!(reports.len(), 1);
    assert_eq!(reports[0].thread_name, "unknown 1");
}

#[test]
fn an_idle_frame_sends_nothing_and_counts() {
    let mut storage = ThreadStorage::new();
    let mut profiler = Some(Profiler::new());
    assert_eq!(next_frame(&mut storage, &mut profiler), Ok(()));
    assert_eq!(next_frame(&mut storage, &mut profiler), Ok(()));
    assert_eq!(storage.frame(), 2);
    assert_eq!(profiler.as_ref().unwrap().len(), 0);
}

#[test]
fn ending_without_open_region_fails() {
    let mut storage = ThreadStorage::new();
    let region = Region { reporter_id: SYSTEM_CLOCK, id: "x", depth: 0 };
    assert_eq!(region.end(&mut storage), Err(ProfilerError::StackDiscipline));
    assert_eq!(storage.depth(SYSTEM_CLOCK), 0);
}

#[test]
fn regions_end_through_their_handles() {
    let mut storage = ThreadStorage::new();
    let outer = Region::new(&mut storage, "outer", "id_o", clock(), SYSTEM_CLOCK);
    assert_eq!(outer.reporter_id, SYSTEM_CLOCK);
    assert_eq!(outer.id, "id_o");
    assert_eq!(outer.depth, 0);
    let inner = Region::new(&mut storage, "inner", "id_i", clock(), SYSTEM_CLOCK);
    assert_eq!(inner.depth, 1);
    assert_eq!(inner.end(&mut storage), Ok(()));
    assert_eq!(storage.depth(SYSTEM_CLOCK), 1);
    assert_eq!(outer.end(&mut storage), Ok(()));
    assert_eq!(storage.depth(SYSTEM_CLOCK), 0);
}

#[test]
fn ending_out_of_order_fails_and_changes_nothing() {
    let mut storage = ThreadStorage::new();
    let outer = Region::new(&mut storage, "outer", "id_o", clock(), SYSTEM_CLOCK);
    let inner = Region::new(&mut storage, "inner", "id_i", clock(), SYSTEM_CLOCK);
    assert_eq!(outer.end(&mut storage), Err(ProfilerError::StackDiscipline));
    assert_eq!(storage.depth(SYSTEM_CLOCK), 2);
    assert_eq!(storage.active_id(SYSTEM_CLOCK), Some("id_i"));
    assert_eq!(inner.end(&mut storage), Ok(()));
}

#[test]
fn a_handle_of_another_region_or_kind_fails() {
    let mut storage = ThreadStorage::new();
    let _real = Region::new(&mut storage, "real", "id_r", clock(), SYSTEM_CLOCK);
    let wrong_id = Region { reporter_id: SYSTEM_CLOCK, id: "id_x", depth: 0 };
    assert_eq!(wrong_id.end(&mut storage), Err(ProfilerError::StackDiscipline));
    let wrong_kind = Region { reporter_id: CUSTOM, id: "id_r", depth: 0 };
    assert_eq!(wrong_kind.end(&mut storage), Err(ProfilerError::StackDiscipline));
    let no_kind = Region { reporter_id: 7, id: "id_r", depth: 0 };
    assert_eq!(no_kind.end(&mut storage), Err(ProfilerError::StackDiscipline));
    assert_eq!(storage.depth(SYSTEM_CLOCK), 1);
}

#[test]
fn variables_travel_with_the_report() {
    let mut storage = ThreadStorage::new();
    let mut profiler = Some(Profiler::new());
    set_variable_value(&mut storage, "speed".to_string(), 2.5f32.to_bits());
    one_region(&mut storage, "r");
    set_variable_value(&mut storage, "speed".to_string(), 4.0f32.to_bits());
    set_variable_value(&mut storage, "load".to_string(), 0.5f32.to_bits());
    assert_eq!(storage.variables().len(), 2);
    assert_eq!(next_frame(&mut storage, &mut profiler), Ok(()));
    let reports = drain(&mut profiler);
    assert_eq!(reports[0].variables.get("speed").copied().map(f32::from_bits), Some(4.0));
    assert_eq!(reports[0].variables.get("load").copied().map(f32::from_bits), Some(0.5));
    assert_eq!(reports[0].variables.get("other"), None);
    assert_eq!(reports[0].variables.len(), 2);
    assert_eq!(storage.variables().len(), 0);
    assert_eq!(storage.frame(), 1);
}

#[test]
fn variables_outlive_the_end_of_a_region() {
    let mut storage = ThreadStorage::new();
    start_region(&mut storage, "r", "id", clock(), SYSTEM_CLOCK);
    set_variable_value(&mut storage, "inside".to_string(), 1);
    end_region(&mut storage, SYSTEM_CLOCK);
    assert_eq!(storage.variables().get("inside"), Some(&1));
}

#[test]
fn threads_start_unknown_in_frame_zero() {
    let mut storage = ThreadStorage::new();
    assert_eq!(storage.thread_name(), "unknown");
    assert_eq!(storage.frame(), 0);
    assert_eq!(storage.variables().len(), 0);
    set_thread_name(&mut storage, "worker");
    assert_eq!(storage.thread_name(), "worker");
}

#[test]
fn labels_carry_the_kind() {
    assert_eq!(thread_label(&"t".to_string(), 0), "t");
    assert_eq!(thread_label(&"t".to_string(), 1), "t 1");
    assert_eq!(thread_label(&"render thread".to_string(), 12), "render thread 12");
}

#[test]
fn errors_have_messages() {
    assert_eq!(ProfilerError::NotInitialised.message(), "Profiler not yet initialised!");
    assert_eq!(ProfilerError::ChannelFull.message(), "Profiler channel is full!");
    assert_eq!(ProfilerError::UnterminatedRegion.message(), "Frame advanced inside an open region!");
    assert_eq!(ProfilerError::StackDiscipline.message(), "Region ended out of order!");
}

#[test]
fn a_report_and_its_copy_are_alike() {
    let mut storage = ThreadStorage::new();
    let mut profiler = Some(Profiler::new());
    set_variable_value(&mut storage, "v".to_string(), 3);
    start_region(&mut storage, "a", "id_a", clock(), SYSTEM_CLOCK);
    one_region(&mut storage, "b");
    end_region(&mut storage, SYSTEM_CLOCK);
    assert_eq!(next_frame(&mut storage, &mut profiler), Ok(()));
    let report = drain(&mut profiler).remove(0);
    let copy = report.clone();
    assert_eq!(copy.thread_name, report.thread_name);
    assert_eq!(copy.frame, report.frame);
    assert_eq!(copy.variables.get("v"), Some(&3));
    assert_eq!(shape(&copy.counters[0]), "a(b())");
    assert_eq!(copy.counters[0].duration, report.counters[0].duration);
    assert_eq!(copy.counters[0].counters[0].id, "id");
}

#[test]
fn a_reported_region_is_made_of_its_parts() {
    let child = ReportCounter::new("c".to_string(), "id_c", None, Vec::new());
    let parent = ReportCounter::new("p".to_string(), "id_p", Some(8), vec![child]);
    assert_eq!(parent.name, "p");
    assert_eq!(parent.id, "id_p");
    assert_eq!(parent.duration, Some(8));
    assert_eq!(shape(&parent), "p(c())");
}

#[test]
fn a_stack_records_and_forgets() {
    let mut stack = tinyprof::report::Report::new();
    assert!(stack.empty());
    assert_eq!(stack.depth(), 0);
    stack.start_region("a", "id_a", clock());
    assert!(!stack.empty());
    assert_eq!(stack.depth(), 1);
    stack.start_region("b", "id_b", clock());
    assert_eq!(stack.active_id(), Some("id_b"));
    stack.end_region();
    stack.end_region();
    stack.start_region("c", "id_c", clock());
    stack.end_region();
    assert_eq!(stack.depth(), 0);
    assert!(!stack.empty());
    let counters = stack.take_counters();
    assert!(stack.empty());
    assert_eq!(counters.len(), 2);
    assert_eq!(counters[0].name, "a");
    assert_eq!(counters[0].id, "id_a");
    assert_eq!(counters[0].counters.len(), 1);
    assert_eq!(counters[0].counters[0].name, "b");
    assert_eq!(counters[1].name, "c");
    stack.start_region("d", "id_d", clock());
    stack.clear();
    assert!(stack.empty());
    assert_eq!(stack.depth(), 0);
}
