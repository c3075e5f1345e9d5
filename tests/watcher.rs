use bageri::watcher::{Debouncer, WatchAction, WatchInput};

#[test]
fn burst_collapses_to_one_rebuild() {
    let mut d = Debouncer::new();
    let mut rebuilds = Vec::new();
    let inputs = [
        WatchInput::Changed(0),
        WatchInput::Quiet(100),
        WatchInput::Changed(300),
        WatchInput::Quiet(400),
        WatchInput::Changed(700),
        WatchInput::Quiet(1100),
        WatchInput::Quiet(1199),
        WatchInput::Quiet(1200),
        WatchInput::Quiet(1300),
        WatchInput::Quiet(2000),
    ];
    for input in inputs {
        if d.handle(input) == WatchAction::Rebuild {
            if let WatchInput::Quiet(t) = input {
                rebuilds.push(t);
            }
        }
    }
    assert_eq!(rebuilds, vec![1200]);
}

#[test]
fn quiet_poll_without_change_waits() {
    let mut d = Debouncer::new();
    assert_eq!(d.handle(WatchInput::Quiet(5000)), WatchAction::Wait);
    assert!(!d.poll(6000));
}

#[test]
fn errors_and_closing_map_to_actions() {
    let mut d = Debouncer::new();
    assert_eq!(d.handle(WatchInput::Changed(10)), WatchAction::Poll);
    assert_eq!(d.handle(WatchInput::Failed), WatchAction::Report);
    assert_eq!(d.last_event, Some(10));
    assert_eq!(d.handle(WatchInput::Closed), WatchAction::Stop);
}

#[test]
fn clock_going_back_does_not_fire() {
    let mut d = Debouncer::new();
    d.record(1000);
    assert!(!d.poll(10));
    assert!(d.poll(1500));
    assert_eq!(d.last_event, None);
}
