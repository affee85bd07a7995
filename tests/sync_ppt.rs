use ppt_sync::state::State;
use ppt_sync::sync_ppt::{Action, DebugEvent, Disposition, Notify, Observer, Phase, Session};

#[test]
fn breakpoint_then_single_step_cycle() {
    let mut s = Session::new(0x1413C7D9A, 4);
    assert_eq!(s.phase, Phase::Armed);
    assert_eq!(s.continue_kind, Disposition::NotHandled);
    assert_eq!(s.on_event(DebugEvent::Breakpoint { thread: 9, address: 0x1413C7D9A }), Action::Hit);
    assert_eq!(s.thread_id, 9);
    assert_eq!(s.continue_kind, Disposition::Continue);
    assert_eq!(s.phase, Phase::Stepping);
    assert_eq!(s.on_event(DebugEvent::SingleStep { thread: 9 }), Action::Stepped);
    assert_eq!(s.phase, Phase::Armed);
    assert_eq!(s.continue_kind, Disposition::Continue);
}

#[test]
fn unrelated_events_pass_through() {
    let mut s = Session::new(0x100, 1);
    assert_eq!(s.on_event(DebugEvent::Breakpoint { thread: 2, address: 0x200 }), Action::Resume);
    assert_eq!(s.continue_kind, Disposition::NotHandled);
    assert_eq!(s.thread_id, 2);
    assert_eq!(s.on_event(DebugEvent::SingleStep { thread: 3 }), Action::Resume);
    assert_eq!(s.on_event(DebugEvent::OtherException { thread: 3 }), Action::Resume);
    assert_eq!(s.on_event(DebugEvent::Other { thread: 5 }), Action::Resume);
    assert_eq!(s.phase, Phase::Armed);
    assert_eq!(s.on_event(DebugEvent::Breakpoint { thread: 6, address: 0x100 }), Action::Hit);
    assert_eq!(s.on_event(DebugEvent::Breakpoint { thread: 6, address: 0x100 }), Action::Resume);
    assert_eq!(s.phase, Phase::Stepping);
    assert_eq!(s.continue_kind, Disposition::NotHandled);
}

#[test]
fn process_exit_loses_target() {
    let mut s = Session::new(0x100, 1);
    assert_eq!(s.on_event(DebugEvent::ProcessExit { thread: 8 }), Action::TargetLost);
    assert_eq!(s.thread_id, 8);
}

fn snapshot(current: Option<u16>, next: &[u16]) -> State {
    State { columns: vec![], current_piece: current, hold: None, next_queue: next.to_vec() }
}

#[test]
fn observer_announces_seed_then_state() {
    let mut o = Observer::new();
    let notes = o.observe(Some(42), Some(snapshot(Some(1), &[1, 2])));
    assert_eq!(notes.len(), 2);
    assert!(matches!(notes[0], Notify::Start(42)));
    assert!(matches!(&notes[1], Notify::Sync(s) if *s == snapshot(Some(1), &[1, 2])));
    assert_eq!(o.latest_seed, 42);
    assert!(o.observe(Some(42), Some(snapshot(Some(1), &[1, 2]))).is_empty());
}

#[test]
fn observer_skips_inactive_and_unread() {
    let mut o = Observer::new();
    assert!(o.observe(None, None).is_empty());
    assert!(o.observe(Some(0), Some(snapshot(None, &[1]))).is_empty());
    assert!(o.latest_state == State::new_blank());
    let notes = o.observe(None, Some(snapshot(Some(2), &[1])));
    assert_eq!(notes.len(), 1);
    assert!(matches!(&notes[0], Notify::Sync(_)));
}

#[test]
fn new_seed_forgets_last_state() {
    let mut o = Observer::new();
    o.observe(Some(1), Some(snapshot(Some(1), &[1])));
    let notes = o.observe(Some(2), Some(snapshot(Some(1), &[1])));
    assert_eq!(notes.len(), 2);
    assert!(matches!(notes[0], Notify::Start(2)));
    let notes = o.observe(Some(3), None);
    assert_eq!(notes.len(), 1);
    assert!(o.latest_state == State::new_blank());
}
