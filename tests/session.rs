use vaksms::provider::{GetNumberResponse, RunError};
use vaksms::session::{Action, Event, Phase, Session};

fn availability(pairs: &[(&str, i32)]) -> Event {
    Event::Availability { entries: pairs.iter().map(|(k, v)| (k.to_string(), *v)).collect() }
}

fn cycle(t: &[&str]) -> Event {
    Event::Cycle { texts: t.iter().map(|s| s.to_string()).collect() }
}

fn ordered(tel: &str, id: &str) -> Event {
    Event::Ordered { response: GetNumberResponse { tel: tel.to_string(), id_num: id.to_string() } }
}

fn polling_session() -> Session {
    let mut s = Session::new(false);
    s.step(Event::Begin);
    s.step(Event::Balance { error: None });
    s.step(availability(&[("dc", 7), ("price", 15)]));
    s.step(ordered("380991234567", "abc123"));
    assert_eq!(s.phase(), Phase::Polling);
    s
}

#[test]
fn full_run_delivers_first_message_then_releases() {
    let mut s = Session::new(false);
    assert_eq!(s.step(Event::Begin), Action::QueryBalance);
    assert_eq!(s.step(Event::Balance { error: None }), Action::QueryAvailability);
    assert_eq!(
        s.step(availability(&[("dc", 7), ("price", 15)])),
        Action::Order { stock: 7, price: 15 }
    );
    assert_eq!(
        s.step(ordered("380991234567", "abc123")),
        Action::StartPolling { phone: "+380991234567".to_string(), handle: "abc123".to_string() }
    );
    assert_eq!(
        s.step(cycle(&["Your code is 4821"])),
        Action::Release { handle: "abc123".to_string(), message: "Your code is 4821".to_string() }
    );
    assert_eq!(s.step(Event::Released), Action::Exit { status: 0 });
    assert_eq!(s.phase(), Phase::Done);
}

#[test]
fn malformed_order_aborts_before_polling() {
    let mut s = Session::new(false);
    s.step(Event::Begin);
    s.step(Event::Balance { error: None });
    s.step(availability(&[("dc", 7), ("price", 15)]));
    assert_eq!(s.step(Event::CallFailed), Action::Abort { error: RunError::Transport });
    assert_eq!(s.phase(), Phase::Aborted);
    assert_eq!(s.step(cycle(&["late"])), Action::Idle);
    assert_eq!(s.step(Event::Released), Action::Idle);
}

#[test]
fn invalid_key_exits_with_status_one() {
    let mut s = Session::new(false);
    s.step(Event::Begin);
    assert_eq!(
        s.step(Event::Balance { error: Some("apiKeyNotFound".to_string()) }),
        Action::Exit { status: 1 }
    );
    assert_eq!(s.step(availability(&[("dc", 7), ("price", 15)])), Action::Idle);
    assert_eq!(s.step(ordered("1", "h")), Action::Idle);
    assert_eq!(s.step(cycle(&["x"])), Action::Idle);
    assert_eq!(s.phase(), Phase::Aborted);
}

#[test]
fn other_balance_error_goes_on() {
    let mut s = Session::new(false);
    s.step(Event::Begin);
    assert_eq!(
        s.step(Event::Balance { error: Some("lowBalance".to_string()) }),
        Action::QueryAvailability
    );
}

#[test]
fn balance_transport_failure_aborts() {
    let mut s = Session::new(false);
    s.step(Event::Begin);
    assert_eq!(s.step(Event::CallFailed), Action::Abort { error: RunError::Transport });
}

#[test]
fn missing_availability_key_aborts() {
    let mut s = Session::new(false);
    s.step(Event::Begin);
    s.step(Event::Balance { error: None });
    assert_eq!(s.step(availability(&[("dc", 7)])), Action::Abort { error: RunError::Transport });
}

#[test]
fn zero_stock_orders_anyway_without_guard() {
    let mut s = Session::new(false);
    s.step(Event::Begin);
    s.step(Event::Balance { error: None });
    assert_eq!(
        s.step(availability(&[("dc", 0), ("price", 15)])),
        Action::Order { stock: 0, price: 15 }
    );
}

#[test]
fn zero_stock_aborts_with_guard() {
    let mut s = Session::new(true);
    s.step(Event::Begin);
    s.step(Event::Balance { error: None });
    assert_eq!(
        s.step(availability(&[("dc", 0), ("price", 15)])),
        Action::Abort { error: RunError::OutOfStock }
    );
}

#[test]
fn empty_cycles_keep_waiting() {
    let mut s = polling_session();
    assert_eq!(s.step(cycle(&[])), Action::AwaitCycle);
    assert_eq!(s.step(Event::CallFailed), Action::Idle);
    assert_eq!(s.step(cycle(&[])), Action::AwaitCycle);
    assert_eq!(
        s.step(cycle(&["one", "two"])),
        Action::Release { handle: "abc123".to_string(), message: "one".to_string() }
    );
}

#[test]
fn release_happens_only_once() {
    let mut s = polling_session();
    s.step(cycle(&["one"]));
    assert_eq!(s.phase(), Phase::Releasing);
    assert_eq!(s.step(cycle(&["two"])), Action::Idle);
    assert_eq!(s.step(Event::Released), Action::Exit { status: 0 });
    assert_eq!(s.step(Event::Released), Action::Idle);
    assert_eq!(s.step(cycle(&["three"])), Action::Idle);
}

#[test]
fn events_out_of_turn_are_ignored() {
    let mut s = Session::new(false);
    assert_eq!(s.step(Event::Released), Action::Idle);
    assert_eq!(s.step(Event::Balance { error: None }), Action::Idle);
    assert_eq!(s.phase(), Phase::Start);
    assert_eq!(s.step(Event::Begin), Action::QueryBalance);
    assert_eq!(s.step(Event::Begin), Action::Idle);
}
