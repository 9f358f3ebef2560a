use arena_lockstep::framing::{FrameError, LineBuffer};
use arena_lockstep::pacing::{DebtTracker, Pace};
use arena_lockstep::rendezvous::{Arrival, Rendezvous};
use arena_lockstep::session::{parse_greeting, tick_parties, Greeting, Registry, Rejection, Role, INPUT_PARTIES};

#[test]
fn greeting_ignores_surrounding_whitespace() {
    assert_eq!(parse_greeting(b"COMPETITOR"), Some(Greeting::Competitor));
    assert_eq!(parse_greeting(b"  SPECTATOR\r\n"), Some(Greeting::Spectator));
    assert_eq!(parse_greeting(b"\tCOMPETITOR "), Some(Greeting::Competitor));
    assert_eq!(parse_greeting(b"competitor"), None);
    assert_eq!(parse_greeting(b"COMPETITORS"), None);
    assert_eq!(parse_greeting(b""), None);
    assert_eq!(parse_greeting(b"COMPE TITOR"), None);
}

#[test]
fn competitors_register_in_order() {
    let mut reg = Registry::new(false);
    assert_eq!(reg.identify(b"COMPETITOR"), Ok(Role::CompetitorA));
    assert_eq!(reg.identify(b"COMPETITOR"), Ok(Role::CompetitorB));
    assert_eq!(reg.identify(b"COMPETITOR"), Err(Rejection::CompetitorsFull));
    assert_eq!(reg.competitors, 2);
}

#[test]
fn one_spectator_outside_training() {
    let mut reg = Registry::new(false);
    assert_eq!(reg.identify(b"SPECTATOR"), Ok(Role::Spectator));
    assert_eq!(reg.identify(b"SPECTATOR"), Err(Rejection::SpectatorTaken));
    let mut training = Registry::new(true);
    assert_eq!(training.identify(b"SPECTATOR"), Err(Rejection::SpectatorsClosed));
    assert!(!training.spectator);
}

#[test]
fn unknown_greeting_is_refused_and_changes_nothing() {
    let mut reg = Registry::new(false);
    assert_eq!(reg.identify(b"HELLO"), Err(Rejection::UnknownGreeting));
    assert_eq!(reg, Registry::new(false));
}

#[test]
fn roles_and_party_counts() {
    assert!(Role::CompetitorA.computes_tick());
    assert!(!Role::CompetitorB.computes_tick());
    assert!(!Role::Spectator.computes_tick());
    assert!(Role::CompetitorB.submits_input());
    assert!(!Role::Spectator.submits_input());
    assert_eq!(INPUT_PARTIES, 2);
    assert_eq!(tick_parties(true), 2);
    assert_eq!(tick_parties(false), 3);
}

#[test]
fn single_input_does_not_release_the_round() {
    let mut r = Rendezvous::new(2);
    let first = r.arrive();
    let ticket = match first {
        Arrival::Wait { ticket } => ticket,
        other => panic!("unexpected {:?}", other),
    };
    assert!(!r.is_released(ticket));
    assert!(!r.is_released(ticket));
    assert_eq!(r.arrive(), Arrival::Release);
    assert!(r.is_released(ticket));
}

#[test]
fn rendezvous_is_reusable() {
    let mut r = Rendezvous::new(3);
    for _ in 0..4 {
        let t1 = r.arrive();
        let t2 = r.arrive();
        assert!(matches!(t1, Arrival::Wait { .. }));
        assert!(matches!(t2, Arrival::Wait { .. }));
        assert_eq!(r.arrive(), Arrival::Release);
    }
}

#[test]
fn abort_releases_waiters() {
    let mut r = Rendezvous::new(2);
    let ticket = match r.arrive() {
        Arrival::Wait { ticket } => ticket,
        other => panic!("unexpected {:?}", other),
    };
    r.abort();
    assert!(r.is_aborted());
    assert!(r.is_released(ticket));
    assert_eq!(r.arrive(), Arrival::Aborted);
}

#[test]
fn zero_parties_act_as_one() {
    let mut r = Rendezvous::new(0);
    assert_eq!(r.arrive(), Arrival::Release);
}

#[test]
fn early_input_sleeps_out_the_tick() {
    let mut t = DebtTracker::new(16, 1000, false);
    assert_eq!(t.after_input(10), Pace::Sleep { millis: 6 });
    assert_eq!(t.after_input(16), Pace::Proceed);
    assert_eq!(t.debt, 0);
}

#[test]
fn late_input_accumulates_debt_until_eviction() {
    let mut t = DebtTracker::new(16, 10, false);
    assert_eq!(t.after_input(20), Pace::Proceed);
    assert_eq!(t.debt, 4);
    assert_eq!(t.after_input(0), Pace::Sleep { millis: 16 });
    assert_eq!(t.debt, 4);
    assert_eq!(t.after_input(22), Pace::Proceed);
    assert_eq!(t.debt, 10);
    assert_eq!(t.after_input(17), Pace::Evict);
    assert_eq!(t.debt, 11);
}

#[test]
fn debt_saturates() {
    let mut t = DebtTracker::new(0, u128::MAX, false);
    t.debt = u128::MAX - 1;
    assert_eq!(t.after_input(5), Pace::Proceed);
    assert_eq!(t.debt, u128::MAX);
}

#[test]
fn training_mode_never_paces() {
    let mut t = DebtTracker::new(16, 0, true);
    assert_eq!(t.after_input(1), Pace::Proceed);
    assert_eq!(t.after_input(5000), Pace::Proceed);
    assert_eq!(t.debt, 0);
}

#[test]
fn lines_split_across_chunks() {
    let mut b = LineBuffer::new(16);
    assert_eq!(b.push(b"COMPE"), Ok(vec![]));
    assert_eq!(b.pending(), b"COMPE");
    assert_eq!(b.push(b"TITOR\n{\"a\""), Ok(vec![b"COMPETITOR".to_vec()]));
    assert_eq!(b.pending(), b"{\"a\"");
    assert_eq!(b.push(b":1}\n\nx"), Ok(vec![b"{\"a\":1}".to_vec(), vec![]]));
    assert_eq!(b.pending(), b"x");
}

#[test]
fn overlong_line_is_refused() {
    let mut b = LineBuffer::new(4);
    assert_eq!(b.push(b"abcd\nef"), Ok(vec![b"abcd".to_vec()]));
    assert_eq!(b.push(b"ghi\n"), Err(FrameError::LineTooLong));
    assert_eq!(b.pending(), b"ef");
    assert_eq!(b.push(b"\n"), Ok(vec![b"ef".to_vec()]));
}
