use chatgate::wake_sleep::{EventDecision, WakeSleepEngine};

fn engine() -> WakeSleepEngine {
    WakeSleepEngine::new()
}

#[test]
fn unknown_thread_is_forwarded() {
    assert_eq!(engine().on_event("ch:ts", false), EventDecision::Forward);
}

#[test]
fn awake_thread_non_mention_is_forwarded() {
    let mut e = engine();
    e.on_event("ch:ts", false);
    assert_eq!(e.on_event("ch:ts", false), EventDecision::Forward);
}

#[test]
fn awake_thread_mention_is_forwarded() {
    let mut e = engine();
    e.on_event("ch:ts", false);
    assert_eq!(e.on_event("ch:ts", true), EventDecision::Forward);
}

#[test]
fn sleeping_thread_non_mention_is_discarded() {
    let mut e = engine();
    e.on_event("ch:ts", false);
    e.mark_sleeping("ch:ts");
    assert_eq!(e.on_event("ch:ts", false), EventDecision::Discard);
}

#[test]
fn sleeping_thread_mention_wakes_and_returns_wake() {
    let mut e = engine();
    e.on_event("ch:ts", false);
    e.mark_sleeping("ch:ts");
    assert_eq!(e.on_event("ch:ts", true), EventDecision::Wake);
}

#[test]
fn woken_thread_is_now_awake() {
    let mut e = engine();
    e.on_event("ch:ts", false);
    e.mark_sleeping("ch:ts");
    e.on_event("ch:ts", true);
    assert!(e.is_awake("ch:ts"));
}

#[test]
fn mark_sleeping_untracked_thread_is_noop() {
    let mut e = engine();
    e.mark_sleeping("ch:never_seen");
    assert_eq!(e.on_event("ch:never_seen", false), EventDecision::Forward);
}

#[test]
fn mark_sleeping_transitions_awake_thread() {
    let mut e = engine();
    e.on_event("ch:ts", false);
    assert!(e.is_awake("ch:ts"));
    e.mark_sleeping("ch:ts");
    assert!(!e.is_awake("ch:ts"));
}

#[test]
fn multiple_threads_are_independent() {
    let mut e = engine();
    e.on_event("ch:ts1", false);
    e.on_event("ch:ts2", false);
    e.mark_sleeping("ch:ts1");

    assert!(!e.is_awake("ch:ts1"));
    assert!(e.is_awake("ch:ts2"));
    assert_eq!(e.on_event("ch:ts1", false), EventDecision::Discard);
    assert_eq!(e.on_event("ch:ts2", false), EventDecision::Forward);
}

#[test]
fn forwarded_thread_is_awake_after_event() {
    let mut e = engine();
    assert_eq!(e.on_event("C1:T9", false), EventDecision::Forward);
    assert!(e.is_awake("C1:T9"));
}

#[test]
fn full_engine_forwards_new_thread_as_awake() {
    let mut e = engine();
    for i in 0..10_000 {
        e.on_event(&format!("C:{i}"), false);
    }
    assert_eq!(e.on_event("C:new", false), EventDecision::Forward);
    assert!(e.is_awake("C:new"));
    e.mark_sleeping("C:new");
    assert_eq!(e.on_event("C:new", false), EventDecision::Forward);
}
