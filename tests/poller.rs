use vaksms::poller::{Poller, PollerAction, POLL_INTERVAL_SECS};
use vaksms::provider::{Message, RunError};

fn message(text: &str) -> Message {
    Message { tzid: "abc123".to_string(), tel: "4915".to_string(), text: text.to_string() }
}

#[test]
fn polls_its_handle() {
    let mut p = Poller::new("abc123".to_string(), 3);
    assert_eq!(p.begin_cycle(false), PollerAction::Poll { handle: "abc123".to_string() });
}

#[test]
fn interval_is_five_seconds() {
    assert_eq!(POLL_INTERVAL_SECS, 5);
}

#[test]
fn sleep_does_not_depend_on_message_count() {
    let mut p = Poller::new("h".to_string(), 3);
    let (fwd, next, esc) = p.end_cycle(Ok(vec![]), false);
    assert!(fwd.is_empty());
    assert_eq!(next, PollerAction::Sleep { secs: 5 });
    assert!(!esc);
    let (fwd, next, _) = p.end_cycle(Ok(vec![message("x"), message("y")]), false);
    assert_eq!(fwd, vec!["x", "y"]);
    assert_eq!(next, PollerAction::Sleep { secs: 5 });
    let (fwd, next, _) = p.end_cycle(Err(RunError::Transport), false);
    assert!(fwd.is_empty());
    assert_eq!(next, PollerAction::Sleep { secs: 5 });
}

#[test]
fn failures_escalate_once_and_polling_goes_on() {
    let mut p = Poller::new("h".to_string(), 2);
    let (_, _, esc) = p.end_cycle(Err(RunError::Transport), false);
    assert!(!esc);
    let (_, next, esc) = p.end_cycle(Err(RunError::Transport), false);
    assert!(esc);
    assert_eq!(next, PollerAction::Sleep { secs: 5 });
    assert_eq!(p.failures, 2);
    let (_, _, esc) = p.end_cycle(Err(RunError::Transport), false);
    assert!(!esc);
    assert_eq!(p.begin_cycle(false), PollerAction::Poll { handle: "h".to_string() });
    let (_, _, esc) = p.end_cycle(Ok(vec![]), false);
    assert!(!esc);
    assert_eq!(p.failures, 0);
}

#[test]
fn cancel_before_poll_stops() {
    let mut p = Poller::new("h".to_string(), 3);
    assert_eq!(p.begin_cycle(true), PollerAction::Stop);
    assert!(p.stopped);
    assert_eq!(p.begin_cycle(false), PollerAction::Stop);
}

#[test]
fn cancel_before_sleep_stops_but_forwards() {
    let mut p = Poller::new("h".to_string(), 3);
    let (fwd, next, _) = p.end_cycle(Ok(vec![message("late")]), true);
    assert_eq!(fwd, vec!["late"]);
    assert_eq!(next, PollerAction::Stop);
    assert_eq!(p.begin_cycle(false), PollerAction::Stop);
}
