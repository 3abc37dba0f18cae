use pumpkin::reactor::{
    after_poll, AcceptStatus, DrainStep, EnrollError, LoopStep, PollStatus, Reactor, Route,
};
use pumpkin::token::{next, Token, SERVER};

fn accept_one(r: &mut Reactor<String>, name: &str) -> Token {
    match r.on_accept(AcceptStatus::Accepted) {
        DrainStep::Enroll(t) => {
            r.enroll(t, name.to_string()).unwrap();
            t
        }
        other => panic!("unexpected drain step {:?}", other),
    }
}

#[test]
fn next_hands_out_current_and_advances() {
    let mut t = Token(1);
    assert_eq!(next(&mut t), Token(1));
    assert_eq!(next(&mut t), Token(2));
    assert_eq!(t, Token(3));
}

#[test]
fn new_reactor_is_empty() {
    let r: Reactor<String> = Reactor::new();
    assert_eq!(r.connection_count(), 0);
    assert_eq!(r.client_count(), 0);
    assert_eq!(r.next_token(), Token(SERVER + 1));
}

#[test]
fn minted_tokens_are_distinct_and_above_listener() {
    let mut r: Reactor<String> = Reactor::new();
    let mut seen: Vec<Token> = Vec::new();
    for i in 0..20 {
        let t = accept_one(&mut r, &format!("c{}", i));
        assert!(t.0 > SERVER);
        assert!(!seen.contains(&t));
        if let Some(last) = seen.last() {
            assert!(t.0 > last.0);
        }
        seen.push(t);
    }
    assert_eq!(seen[0], Token(1));
    assert_eq!(seen[19], Token(20));
}

#[test]
fn registry_and_context_agree_between_steps() {
    let mut r: Reactor<String> = Reactor::new();
    let a = accept_one(&mut r, "a");
    let b = accept_one(&mut r, "b");
    assert_eq!(r.connection_count(), r.client_count());
    assert!(r.knows_client(a) && r.knows_client(b));
    assert!(r.settle(a, true).is_some());
    assert_eq!(r.connection_count(), 1);
    assert_eq!(r.client_count(), 1);
    assert!(!r.knows_client(a));
    assert!(r.knows_client(b));
}

#[test]
fn drain_accepts_every_queued_connection() {
    let mut r: Reactor<String> = Reactor::new();
    let queued = 5;
    let mut statuses = vec![AcceptStatus::Accepted; queued];
    statuses.push(AcceptStatus::WouldBlock);
    let mut cycles = 0;
    for status in statuses {
        match r.on_accept(status) {
            DrainStep::Enroll(t) => {
                r.enroll(t, format!("q{}", t.0)).unwrap();
                cycles += 1;
            }
            DrainStep::Stop => break,
            DrainStep::Abort => panic!("unexpected abort"),
        }
    }
    assert_eq!(cycles, queued);
    assert_eq!(r.connection_count(), queued);
    for t in 1..=queued {
        assert_eq!(r.route(Token(t)), Route::Session);
        assert_eq!(r.session(Token(t)).unwrap(), &format!("q{}", t));
    }
}

#[test]
fn would_block_stops_draining_without_minting() {
    let mut r: Reactor<String> = Reactor::new();
    assert_eq!(r.on_accept(AcceptStatus::WouldBlock), DrainStep::Stop);
    assert_eq!(r.next_token(), Token(1));
}

#[test]
fn accept_failure_is_fatal() {
    let mut r: Reactor<String> = Reactor::new();
    assert_eq!(r.on_accept(AcceptStatus::Failed), DrainStep::Abort);
    assert_eq!(r.next_token(), Token(1));
    assert_eq!(r.connection_count(), 0);
}

#[test]
fn closed_session_is_torn_down_and_late_event_ignored() {
    let mut r: Reactor<String> = Reactor::new();
    let t = accept_one(&mut r, "x");
    assert_eq!(r.route(t), Route::Session);
    let removed = r.settle(t, true);
    assert_eq!(removed, Some("x".to_string()));
    assert_eq!(r.route(t), Route::Stale);
    assert!(r.session(t).is_none());
    assert!(!r.knows_client(t));
    assert_eq!(r.settle(t, true), None);
    assert_eq!(r.connection_count(), 0);
}

#[test]
fn open_session_stays_registered() {
    let mut r: Reactor<String> = Reactor::new();
    let t = accept_one(&mut r, "y");
    assert_eq!(r.settle(t, false), None);
    assert_eq!(r.route(t), Route::Session);
    assert_eq!(r.connection_count(), 1);
}

#[test]
fn listener_token_routes_to_listener() {
    let r: Reactor<String> = Reactor::new();
    assert_eq!(r.route(Token(SERVER)), Route::Listener);
    assert_eq!(r.route(Token(7)), Route::Stale);
}

#[test]
fn interrupted_poll_is_retried() {
    assert_eq!(after_poll(PollStatus::Interrupted), LoopStep::Retry);
    assert_eq!(after_poll(PollStatus::Ready), LoopStep::Dispatch);
    assert_eq!(after_poll(PollStatus::Failed), LoopStep::Abort);
}

#[test]
fn enroll_refuses_listener_token() {
    let mut r: Reactor<String> = Reactor::new();
    assert_eq!(r.enroll(Token(SERVER), "l".to_string()), Err(EnrollError::ListenerToken));
    assert_eq!(r.connection_count(), 0);
}

#[test]
fn enroll_refuses_unissued_token() {
    let mut r: Reactor<String> = Reactor::new();
    assert_eq!(r.enroll(Token(1), "u".to_string()), Err(EnrollError::NotIssued));
    assert_eq!(r.connection_count(), 0);
}

#[test]
fn enroll_refuses_duplicate_token() {
    let mut r: Reactor<String> = Reactor::new();
    let t = accept_one(&mut r, "first");
    assert_eq!(r.enroll(t, "second".to_string()), Err(EnrollError::Duplicate));
    assert_eq!(r.session(t).unwrap(), "first");
    assert_eq!(r.connection_count(), 1);
}

#[test]
fn three_clients_get_three_tokens() {
    let mut r: Reactor<String> = Reactor::new();
    let a = accept_one(&mut r, "a");
    let b = accept_one(&mut r, "b");
    let c = accept_one(&mut r, "c");
    assert!(a != b && b != c && a != c);
    assert_eq!(r.connection_count(), 3);
    assert_eq!(r.client_count(), 3);
}

#[test]
fn client_closing_on_first_event_empties_registry() {
    let mut r: Reactor<String> = Reactor::new();
    let t = accept_one(&mut r, "only");
    assert_eq!(r.route(t), Route::Session);
    assert!(r.session(t).is_some());
    assert!(r.settle(t, true).is_some());
    assert_eq!(r.connection_count(), 0);
    assert_eq!(r.client_count(), 0);
    assert_eq!(r.route(t), Route::Stale);
    assert_eq!(r.settle(t, true), None);
    assert_eq!(r.connection_count(), 0);
}
