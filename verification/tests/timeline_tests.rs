use ktimetracker::event::{plan_event, DaemonEvent, EventAction};
use ktimetracker::summary::resolve_window;
use ktimetracker::timeline::{Interval, Timeline};

fn open_count(t: &Timeline) -> usize {
    t.records().iter().filter(|r| r.end.is_none()).count()
}

fn snapshot(t: &Timeline) -> Vec<(String, i64, Option<i64>)> {
    t.records()
        .iter()
        .map(|r| (r.name.clone(), r.start, r.end))
        .collect()
}

fn summary_pairs(t: &Timeline, a: i64, b: i64, now: i64) -> Vec<(String, u128)> {
    let mut v = t.summary(a, b, now);
    v.sort();
    v
}

#[test]
fn at_most_one_open_after_any_sequence() {
    let mut t = Timeline::new();
    assert!(open_count(&t) <= 1);
    t.switch_activity("a", 10);
    assert!(open_count(&t) <= 1);
    t.switch_activity("b", 20);
    assert!(open_count(&t) <= 1);
    t.end_current_activity(30);
    assert!(open_count(&t) <= 1);
    t.end_current_activity(40);
    assert!(open_count(&t) <= 1);
    t.switch_activity("a", 50);
    assert!(open_count(&t) <= 1);
    t.switch_activity("c", 50);
    assert!(open_count(&t) <= 1);
    assert_eq!(t.records().len(), 4);
}

#[test]
fn end_twice_is_idempotent() {
    let mut t = Timeline::new();
    t.switch_activity("work", 100);
    t.end_current_activity(150);
    let once = snapshot(&t);
    t.end_current_activity(175);
    assert_eq!(snapshot(&t), once);
}

#[test]
fn end_with_nothing_open_is_a_noop() {
    let mut t = Timeline::new();
    t.end_current_activity(5);
    assert_eq!(t.records().len(), 0);
    assert_eq!(t.current_activity(), None);
}

#[test]
fn switch_then_current_roundtrip() {
    let mut t = Timeline::new();
    t.switch_activity("X", 100);
    assert_eq!(t.current_activity().as_deref(), Some("X"));
}

#[test]
fn summary_is_additive_at_a_split_point() {
    let mut t = Timeline::new();
    t.switch_activity("a", 100);
    t.switch_activity("b", 140);
    t.switch_activity("a", 170);
    t.end_current_activity(200);
    // All intervals lie inside [100, 200); split at 150.
    let whole = summary_pairs(&t, 100, 200, 300);
    let left = summary_pairs(&t, 100, 150, 300);
    let right = summary_pairs(&t, 150, 200, 300);
    let mut merged: Vec<(String, u128)> = Vec::new();
    for (name, secs) in left.into_iter().chain(right.into_iter()) {
        match merged.iter_mut().find(|e| e.0 == name) {
            Some(e) => e.1 += secs,
            None => merged.push((name, secs)),
        }
    }
    merged.sort();
    assert_eq!(whole, merged);
    assert_eq!(
        whole,
        vec![("a".to_string(), 70u128), ("b".to_string(), 30u128)]
    );
}

#[test]
fn summary_before_any_interval_is_empty() {
    let mut t = Timeline::new();
    t.switch_activity("a", 100);
    t.switch_activity("b", 200);
    assert!(t.summary(0, 50, 300).is_empty());
}

#[test]
fn summary_clips_intervals_at_window_bounds() {
    // Intervals a:[100,200), b:[200, open); window [150, 250) at time 300.
    let mut t = Timeline::new();
    t.switch_activity("a", 100);
    t.switch_activity("b", 200);
    let got = summary_pairs(&t, 150, 250, 300);
    assert_eq!(
        got,
        vec![("a".to_string(), 50u128), ("b".to_string(), 50u128)]
    );
}

#[test]
fn summary_default_window_covers_nothing() {
    let mut t = Timeline::new();
    t.switch_activity("a", 100);
    let (a, b) = resolve_window(None, None, 500);
    assert_eq!((a, b), (500, 500));
    assert!(t.summary(a, b, 500).is_empty());
}

#[test]
fn resolve_window_keeps_given_bounds() {
    assert_eq!(resolve_window(Some(10), Some(20), 99), (10, 20));
    assert_eq!(resolve_window(Some(10), None, 99), (10, 99));
    assert_eq!(resolve_window(None, Some(20), 99), (99, 20));
}

#[test]
fn idle_closes_and_resume_opens_a_fresh_interval() {
    let mut t = Timeline::new();
    t.switch_activity("A", 1000);

    // Idle arrives at t=1500.
    match plan_event(DaemonEvent::IdleStatusChanged { idle: true }) {
        EventAction::EndCurrent => t.end_current_activity(1500),
        _ => panic!("idle must end the current activity"),
    }
    assert_eq!(snapshot(&t), vec![("A".to_string(), 1000, Some(1500))]);

    // Input resumes at t=1600; the directory still reports activity A.
    match plan_event(DaemonEvent::IdleStatusChanged { idle: false }) {
        EventAction::SwitchToCurrent => {
            let directory_current = "A";
            t.switch_activity(directory_current, 1600);
        }
        _ => panic!("resume must re-derive the current activity"),
    }
    assert_eq!(
        snapshot(&t),
        vec![
            ("A".to_string(), 1000, Some(1500)),
            ("A".to_string(), 1600, None),
        ]
    );
}

#[test]
fn plan_event_follows_the_transition_table() {
    assert!(matches!(
        plan_event(DaemonEvent::KdeActivityChanged { activity: "n".to_string() }),
        EventAction::SwitchTo(n) if n == "n"
    ));
    assert!(matches!(
        plan_event(DaemonEvent::IdleStatusChanged { idle: true }),
        EventAction::EndCurrent
    ));
    assert!(matches!(
        plan_event(DaemonEvent::IdleStatusChanged { idle: false }),
        EventAction::SwitchToCurrent
    ));
    assert!(matches!(
        plan_event(DaemonEvent::SleepingNow),
        EventAction::EndCurrent
    ));
    assert!(matches!(
        plan_event(DaemonEvent::WakingNow),
        EventAction::SwitchToCurrent
    ));
}

#[test]
fn from_records_accepts_at_most_one_open_interval() {
    let ok = vec![
        Interval {
            name: "a".to_string(),
            start: 1,
            end: Some(2),
        },
        Interval {
            name: "b".to_string(),
            start: 2,
            end: None,
        },
    ];
    let t = Timeline::from_records(ok).expect("one open interval is fine");
    assert_eq!(t.current_activity().as_deref(), Some("b"));

    let bad = vec![
        Interval {
            name: "a".to_string(),
            start: 1,
            end: None,
        },
        Interval {
            name: "b".to_string(),
            start: 2,
            end: None,
        },
    ];
    assert!(Timeline::from_records(bad).is_none());
}

#[test]
fn current_elapsed_counts_from_the_open_start() {
    let mut t = Timeline::new();
    assert_eq!(t.current_elapsed(100), None);
    t.switch_activity("a", 100);
    assert_eq!(t.current_elapsed(250), Some(150));
    assert_eq!(t.current_elapsed(100), Some(0));
    // A clock that moved backwards never yields negative elapsed time.
    assert_eq!(t.current_elapsed(50), Some(0));
    t.end_current_activity(300);
    assert_eq!(t.current_elapsed(400), None);
}
