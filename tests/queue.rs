use nagger::alarm::{wait_ms, Alarm};
use nagger::queue::AlarmQueue;
use nagger::scheduler::{after_delivery, poll, Control, Step, POLL_INTERVAL_MS};

const T: i64 = 1_700_000_000_000;

fn alarm(name: &str, due_ms: i64) -> Alarm {
    Alarm::new(name.to_string(), due_ms)
}

#[test]
fn pops_come_out_earliest_first() {
    let mut q = AlarmQueue::new();
    q.insert(alarm("a", T + 5_000));
    q.insert(alarm("b", T + 1_000));
    q.insert(alarm("c", T + 3_000));
    assert_eq!(q.len(), 3);
    assert_eq!(q.pop_minimum().unwrap().name(), "b");
    assert_eq!(q.pop_minimum().unwrap().name(), "c");
    assert_eq!(q.pop_minimum().unwrap().name(), "a");
    assert!(q.pop_minimum().is_none());
    assert!(q.is_empty());
}

#[test]
fn remove_by_name_takes_the_earlier_of_two() {
    let mut q = AlarmQueue::new();
    q.insert(alarm("x", T + 20_000));
    q.insert(alarm("x", T + 10_000));
    let removed = q.remove_by_name("x").unwrap();
    assert_eq!(removed.due_ms(), T + 10_000);
    assert_eq!(q.len(), 1);
    let left = q.pop_minimum().unwrap();
    assert_eq!(left.name(), "x");
    assert_eq!(left.due_ms(), T + 20_000);
}

#[test]
fn remove_by_name_of_missing_name_changes_nothing() {
    let mut q = AlarmQueue::new();
    assert!(q.remove_by_name("x").is_none());
    q.insert(alarm("y", T));
    assert!(q.remove_by_name("x").is_none());
    assert_eq!(q.len(), 1);
}

#[test]
fn remove_by_name_skips_other_names() {
    let mut q = AlarmQueue::new();
    q.insert(alarm("early", T));
    q.insert(alarm("late", T + 1));
    let removed = q.remove_by_name("late").unwrap();
    assert_eq!(removed.name(), "late");
    assert_eq!(q.pop_minimum().unwrap().name(), "early");
}

#[test]
fn equal_due_times_are_all_kept() {
    let mut q = AlarmQueue::new();
    q.insert(alarm("p", T));
    q.insert(alarm("q", T));
    q.insert(alarm("r", T - 1));
    assert_eq!(q.pop_minimum().unwrap().name(), "r");
    let mut rest = vec![
        q.pop_minimum().unwrap().name().to_string(),
        q.pop_minimum().unwrap().name().to_string(),
    ];
    rest.sort();
    assert_eq!(rest, vec!["p".to_string(), "q".to_string()]);
    assert!(q.is_empty());
}

#[test]
fn queue_stays_sorted_under_mixed_operations() {
    let mut q = AlarmQueue::new();
    let dues = [9i64, 3, 7, 1, 8, 2, 6, 4, 5, 0];
    for (k, d) in dues.iter().enumerate() {
        q.insert(alarm(&format!("n{}", k), T + d));
    }
    q.remove_by_name("n2");
    q.pop_minimum();
    q.insert(alarm("late", T + 100));
    q.insert(alarm("early", T - 100));
    let mut last = i64::MIN;
    let mut count = 0;
    while let Some(a) = q.pop_minimum() {
        assert!(a.due_ms() >= last);
        last = a.due_ms();
        count += 1;
    }
    assert_eq!(count, 10);
}

#[test]
fn every_inserted_alarm_comes_out_once() {
    let mut q = AlarmQueue::new();
    let n = 4;
    let m = 5;
    for caller in 0..n {
        for k in 0..m {
            q.insert(alarm(&format!("{}-{}", caller, k), T + (k * 7 + caller) as i64));
        }
    }
    let mut names = Vec::new();
    while let Some(a) = q.pop_minimum() {
        names.push(a.name().to_string());
    }
    assert_eq!(names.len(), n * m);
    names.sort();
    names.dedup();
    assert_eq!(names.len(), n * m);
}

#[test]
fn wait_is_the_time_left_or_zero() {
    assert_eq!(wait_ms(T + 200, T), 200);
    assert_eq!(wait_ms(T - 1_000, T), 0);
    assert_eq!(wait_ms(T, T), 0);
    assert_eq!(wait_ms(i64::MAX, i64::MIN), u64::MAX);
    assert_eq!(alarm("z", T + 200).wait_from(T), 200);
}

#[test]
fn remaining_time_of_an_overdue_alarm_is_zero() {
    assert_eq!(alarm("old", 0).remaining_ms(), 0);
}

#[test]
fn poll_on_empty_queue_sleeps_for_the_interval() {
    let mut q = AlarmQueue::new();
    match poll(&mut q, T) {
        Step::Idle { sleep_ms } => assert_eq!(sleep_ms, POLL_INTERVAL_MS),
        Step::Fire { .. } => panic!("nothing was pending"),
    }
    assert_eq!(POLL_INTERVAL_MS, 1000);
}

#[test]
fn poll_fires_past_alarm_at_once() {
    let mut q = AlarmQueue::new();
    q.insert(alarm("past", T - 1_000));
    match poll(&mut q, T) {
        Step::Fire { alarm, wait_ms } => {
            assert_eq!(alarm.name(), "past");
            assert_eq!(wait_ms, 0);
        }
        Step::Idle { .. } => panic!("an alarm was pending"),
    }
    assert!(q.is_empty());
}

#[test]
fn poll_waits_for_future_alarm() {
    let mut q = AlarmQueue::new();
    q.insert(alarm("later", T + 500));
    q.insert(alarm("soon", T + 200));
    match poll(&mut q, T) {
        Step::Fire { alarm, wait_ms } => {
            assert_eq!(alarm.name(), "soon");
            assert_eq!(wait_ms, 200);
        }
        Step::Idle { .. } => panic!("an alarm was pending"),
    }
    assert_eq!(q.len(), 1);
}

#[test]
fn loop_stops_when_delivery_fails() {
    assert_eq!(after_delivery(true), Control::Continue);
    assert_eq!(after_delivery(false), Control::Stop);
}

#[test]
fn alarms_compare_by_due_time_alone() {
    assert!(alarm("b", T) < alarm("a", T + 1));
    assert!(alarm("a", T + 1) > alarm("b", T));
    assert!(alarm("a", T) == alarm("b", T));
    assert!(alarm("a", T) != alarm("a", T + 1));
}

#[test]
fn into_parts_gives_due_time_and_name() {
    let (due, name) = alarm("n", T + 7).into_parts();
    assert_eq!(due, T + 7);
    assert_eq!(name, "n");
}
