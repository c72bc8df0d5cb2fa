use interactive::inputs::{InputError, InputManager};
use interactive::logging::{demux_differential, demux_timely, DifferentialEvent, TimelyEvent};
use interactive::manager::Manager;
use interactive::plan::Plan;
use interactive::time::{check_advance, TimeRegression};
use interactive::traces::TraceManager;

fn src(name: &str) -> Plan {
    Plan::source(name.to_string())
}

fn distinct_of(name: &str) -> Plan {
    Plan::Distinct(Box::new(src(name)))
}

#[test]
fn cache_identity_structurally_equal_plans() {
    let mut traces = TraceManager::new();
    let p1 = Plan::Concat(Box::new(distinct_of("a")), Box::new(src("b")));
    let p2 = Plan::Concat(Box::new(distinct_of("a")), Box::new(src("b")));
    traces.set_unkeyed(&p1, 7);
    assert_eq!(traces.get_unkeyed(&p2), Some(7));
    assert_eq!(traces.get_unkeyed(&distinct_of("a")), None);
}

#[test]
fn cache_identity_keyed() {
    let mut traces = TraceManager::new();
    let p1 = Plan::Project(Box::new(src("a")), vec![2, 0]);
    traces.set_keyed(&p1, &[0, 1], 4);
    traces.set_keyed(&p1, &[1, 0], 5);
    let p2 = Plan::Project(Box::new(src("a")), vec![2, 0]);
    assert_eq!(traces.get_keyed(&p2, &[0, 1]), Some(4));
    assert_eq!(traces.get_keyed(&p2, &[1, 0]), Some(5));
    assert_eq!(traces.get_keyed(&p2, &[0]), None);
    assert_eq!(traces.get_unkeyed(&p2), None);
    let p3 = Plan::Project(Box::new(src("a")), vec![0, 2]);
    assert_eq!(traces.get_keyed(&p3, &[0, 1]), None);
}

#[test]
fn reinstall_replaces_entry() {
    let mut traces = TraceManager::new();
    traces.set_unkeyed(&src("a"), 1);
    traces.set_unkeyed(&src("b"), 2);
    traces.set_unkeyed(&src("a"), 3);
    assert_eq!(traces.get_unkeyed(&src("a")), Some(3));
    assert_eq!(traces.get_unkeyed(&src("b")), Some(2));
    let mut ids = traces.cached_traces();
    ids.sort();
    assert_eq!(ids, vec![2, 3]);
}

#[test]
fn miss_before_set() {
    let mut traces = TraceManager::new();
    assert_eq!(traces.get_unkeyed(&src("x")), None);
    traces.set_unkeyed(&src("y"), 1);
    traces.set_keyed(&src("x"), &[0], 2);
    assert_eq!(traces.get_unkeyed(&src("x")), None);
    assert_eq!(traces.get_keyed(&src("y"), &[0]), None);
}

#[test]
fn monotonic_advance_accepts_increasing_times() {
    let mut m = Manager::new();
    assert_eq!(m.try_advance_time(1), Ok(()));
    assert_eq!(m.try_advance_time(2), Ok(()));
    assert_eq!(m.try_advance_time(3), Ok(()));
    assert_eq!(m.try_advance_time(3), Ok(()));
    assert_eq!(m.try_advance_time(2), Err(TimeRegression { last: 3, requested: 2 }));
    assert_eq!(m.traces.current_time(), Some(3));
    assert_eq!(m.inputs.current_time(), Some(3));
}

#[test]
fn check_advance_cases() {
    assert_eq!(check_advance(None, 0), Ok(()));
    assert_eq!(check_advance(Some(5), 5), Ok(()));
    assert_eq!(check_advance(Some(5), 9), Ok(()));
    assert_eq!(check_advance(Some(5), 4), Err(TimeRegression { last: 5, requested: 4 }));
}

#[test]
fn demux_completeness() {
    let batch = vec![
        (10u64, 0usize, TimelyEvent::Operates(vec![1u64])),
        (11, 0, TimelyEvent::Channels(vec![2])),
        (12, 1, TimelyEvent::Schedule(vec![3])),
        (13, 1, TimelyEvent::Messages(vec![4])),
        (14, 0, TimelyEvent::Other),
    ];
    let out = demux_timely(batch);
    assert_eq!(out.operates, vec![(vec![1u64], 10u64, 1isize)]);
    assert_eq!(out.channels, vec![(vec![2u64], 11u64, 1isize)]);
    assert_eq!(out.schedule, vec![(vec![3u64], 12u64, 1isize)]);
    assert_eq!(out.messages, vec![(vec![4u64], 13u64, 1isize)]);
}

#[test]
fn demux_keeps_every_event_of_a_category() {
    let batch = vec![
        (1u64, 0usize, TimelyEvent::Operates("a")),
        (2, 0, TimelyEvent::Other),
        (3, 0, TimelyEvent::Operates("b")),
    ];
    let out = demux_timely(batch);
    assert_eq!(out.operates, vec![("b", 3u64, 1isize), ("a", 1u64, 1isize)]);
    assert!(out.channels.is_empty());
    assert!(out.schedule.is_empty());
    assert!(out.messages.is_empty());
}

#[test]
fn demux_empty_batch() {
    let batch: Vec<(u64, usize, TimelyEvent<u8>)> = Vec::new();
    let out = demux_timely(batch);
    assert!(out.operates.is_empty() && out.channels.is_empty());
    assert!(out.schedule.is_empty() && out.messages.is_empty());
}

#[test]
fn demux_differential_categories() {
    let batch = vec![
        (5u64, 0usize, DifferentialEvent::Batch(7u32)),
        (6, 1, DifferentialEvent::Other),
        (7, 0, DifferentialEvent::Merge(8)),
    ];
    let out = demux_differential(batch);
    assert_eq!(out.batch, vec![(7u32, 5u64, 1isize)]);
    assert_eq!(out.merge, vec![(8u32, 7u64, 1isize)]);
}

#[test]
fn shutdown_clears_state() {
    let mut m = Manager::new();
    assert_eq!(m.insert_input("x".to_string(), 0, 0), Ok(()));
    assert_eq!(m.traces.get_unkeyed(&src("x")), Some(0));
    assert_eq!(m.inputs.get(&"x".to_string()), Some(0));
    m.shutdown();
    assert_eq!(m.traces.get_unkeyed(&src("x")), None);
    assert_eq!(m.inputs.get(&"x".to_string()), None);
    m.shutdown();
    assert_eq!(m.traces.get_unkeyed(&src("x")), None);
}

#[test]
fn duplicate_input_is_refused() {
    let mut m = Manager::new();
    assert_eq!(m.insert_input("x".to_string(), 0, 10), Ok(()));
    assert_eq!(m.insert_input("x".to_string(), 1, 11), Err(InputError::DuplicateName));
    assert_eq!(m.inputs.get(&"x".to_string()), Some(0));
    assert_eq!(m.traces.get_unkeyed(&src("x")), Some(10));
}

#[test]
fn input_manager_lists_sessions() {
    let mut inputs = InputManager::new();
    assert_eq!(inputs.register("a".to_string(), 3), Ok(()));
    assert_eq!(inputs.register("b".to_string(), 4), Ok(()));
    let mut ids = inputs.session_ids();
    ids.sort();
    assert_eq!(ids, vec![3, 4]);
}

#[test]
fn publish_logging_names() {
    let mut m = Manager::new();
    m.publish_timely_logging(1, 2, 3, 4);
    m.publish_differential_logging(5, 6);
    assert_eq!(m.traces.get_unkeyed(&src("logs/timely/operates")), Some(1));
    assert_eq!(m.traces.get_unkeyed(&src("logs/timely/channels")), Some(2));
    assert_eq!(m.traces.get_unkeyed(&src("logs/timely/schedule")), Some(3));
    assert_eq!(m.traces.get_unkeyed(&src("logs/timely/messages")), Some(4));
    assert_eq!(m.traces.get_unkeyed(&src("logs/differential/arrange/batch")), Some(5));
    assert_eq!(m.traces.get_unkeyed(&src("logs/differential/arrange/merge")), Some(6));
}

#[test]
fn plan_equality_and_copy() {
    let p = Plan::Project(Box::new(distinct_of("a")), vec![1, 2]);
    let q = p.duplicate();
    assert!(p.same_as(&q));
    assert!(!p.same_as(&Plan::Project(Box::new(src("a")), vec![1, 2])));
    assert!(!src("a").same_as(&src("b")));
}
