use axioplan::{
    Action, Event, Exchange, Expect, Phase, Reply, Scope, ScopeConfig, ScopeError, ScopeTurret,
};

/// A transport that hands out its chunks one per poll, each at its time, and
/// nothing once they are gone. Waiting moves its clock on.
struct Simulated {
    chunks: Vec<(u64, Vec<u8>)>,
    now: u64,
    written: Vec<Vec<u8>>,
    polls: usize,
}

fn simulated(chunks: Vec<(u64, Vec<u8>)>) -> Simulated {
    Simulated { chunks, now: 0, written: Vec::new(), polls: 0 }
}

fn drive(exchange: &mut Exchange, transport: &mut Simulated) -> Result<Reply, ScopeError> {
    let mut action = exchange.action();
    for _ in 0..100_000 {
        let event = match action {
            Action::Send(bytes) => {
                transport.written.push(bytes);
                Event::Sent { now: transport.now }
            }
            Action::Poll => {
                transport.polls += 1;
                let ready = !transport.chunks.is_empty() && transport.chunks[0].0 <= transport.now;
                if ready {
                    let (_, bytes) = transport.chunks.remove(0);
                    Event::Polled { bytes, now: transport.now }
                } else {
                    Event::Polled { bytes: Vec::new(), now: transport.now }
                }
            }
            Action::Sleep(duration) => {
                transport.now += duration;
                Event::Woke { now: transport.now }
            }
            Action::Done(outcome) => return outcome,
        };
        action = exchange.step(event);
    }
    panic!("the exchange did not end");
}

fn quick() -> Scope {
    Scope::new(ScopeConfig { baud_rate: 9600, timeout_ms: 200, poll_interval_ms: 5 })
}

#[test]
fn two_chunks_make_one_response() {
    let mut exchange = quick().query_scope(b"HPCr2,1", true);
    let mut transport = simulated(vec![(0, b"PH".to_vec()), (40, b"3\r".to_vec())]);
    assert_eq!(drive(&mut exchange, &mut transport), Ok(Reply::Whole(b"PH3\r".to_vec())));
    assert_eq!(transport.written, vec![b"HPCr2,1\r".to_vec()]);
    assert_eq!(exchange.response().bytes(), b"PH3\r");
    assert_eq!(exchange.response().len(), 4);
    assert_eq!(exchange.phase(), Phase::Finished);
    assert_eq!(transport.now, 40);
}

#[test]
fn two_chunks_make_one_reply() {
    let mut exchange = quick().turret_pos(ScopeTurret::Objective);
    let mut transport = simulated(vec![(0, b"PH".to_vec()), (40, b"3\r".to_vec())]);
    assert_eq!(drive(&mut exchange, &mut transport), Ok(Reply::Number(3)));
    assert_eq!(exchange.response().bytes(), b"PH3\r");
}

#[test]
fn the_terminator_ends_the_response_wherever_it_stands_in_the_chunk() {
    let mut exchange = quick().query_scope(b"FPZp", true);
    let mut transport = simulated(vec![(0, b"PF00\r00FF".to_vec()), (5, b"more\r".to_vec())]);
    assert_eq!(drive(&mut exchange, &mut transport), Ok(Reply::Whole(b"PF00\r00FF".to_vec())));
    assert_eq!(transport.chunks.len(), 1);
}

#[test]
fn silence_ends_the_response_with_nothing() {
    let mut exchange = quick().query_scope(b"FPZp", true);
    let mut transport = simulated(Vec::new());
    assert_eq!(drive(&mut exchange, &mut transport), Ok(Reply::Whole(Vec::new())));
    assert_eq!(transport.now, 200);
    assert_eq!(transport.polls, 40);
    assert_eq!(exchange.response().len(), 0);
}

#[test]
fn silence_ends_the_response_with_what_was_read() {
    let mut exchange = quick().query_scope(b"FPZp", true);
    let mut transport = simulated(vec![(10, b"PF00".to_vec())]);
    assert_eq!(drive(&mut exchange, &mut transport), Ok(Reply::Whole(b"PF00".to_vec())));
    assert_eq!(transport.now, 210);
}

#[test]
fn every_chunk_starts_the_timeout_anew() {
    let mut exchange = quick().query_scope(b"FPZp", true);
    let mut transport = simulated(vec![
        (150, b"P".to_vec()),
        (300, b"F".to_vec()),
        (450, b"0".to_vec()),
        (600, b"\r".to_vec()),
    ]);
    assert_eq!(drive(&mut exchange, &mut transport), Ok(Reply::Whole(b"PF0\r".to_vec())));
    assert_eq!(transport.now, 600);
}

#[test]
fn a_chunk_that_comes_after_the_timeout_is_not_read() {
    let mut exchange = quick().query_scope(b"FPZp", true);
    let mut transport = simulated(vec![(150, b"P".to_vec()), (355, b"F\r".to_vec())]);
    assert_eq!(drive(&mut exchange, &mut transport), Ok(Reply::Whole(b"P".to_vec())));
    assert_eq!(transport.now, 350);
    assert_eq!(transport.chunks.len(), 1);
}

#[test]
fn a_checked_exchange_without_response_is_empty() {
    let mut exchange = quick().focus_distance();
    let mut transport = simulated(Vec::new());
    assert_eq!(drive(&mut exchange, &mut transport), Err(ScopeError::EmptyResponse));
    let mut exchange = quick().focus_distance();
    let mut transport = simulated(vec![(0, b"P".to_vec())]);
    assert_eq!(drive(&mut exchange, &mut transport), Err(ScopeError::EmptyResponse));
}

#[test]
fn a_checked_exchange_refuses_the_wrong_echo() {
    let mut exchange = quick().focus_distance();
    let mut transport = simulated(vec![(0, b"FP0000FF\r".to_vec())]);
    assert_eq!(
        drive(&mut exchange, &mut transport),
        Err(ScopeError::QueryValidation("PF".to_string(), "FP".to_string()))
    );
}

#[test]
fn a_command_that_sets_is_over_when_it_is_sent() {
    let mut exchange = quick().set_light_diaphragm_aperture(17);
    assert_eq!(exchange.action(), Action::Send(b"HPCS4,17\r".to_vec()));
    assert_eq!(exchange.phase(), Phase::Sending);
    assert!(!exchange.is_over());
    assert_eq!(exchange.step(Event::Sent { now: 3 }), Action::Done(Ok(Reply::Nothing)));
    assert_eq!(exchange.phase(), Phase::Finished);
    assert!(exchange.is_over());
    let mut transport = simulated(vec![(0, b"SH\r".to_vec())]);
    let mut exchange = quick().set_light_diaphragm_aperture(17);
    assert_eq!(drive(&mut exchange, &mut transport), Ok(Reply::Nothing));
    assert_eq!(transport.polls, 0);
    assert_eq!(transport.chunks.len(), 1);
}

#[test]
fn the_machine_walks_through_its_phases() {
    let mut exchange = Exchange::new(b"FPZp", Expect::Steps, 100, 7);
    assert_eq!(exchange.query(), b"FPZp");
    assert_eq!(exchange.expects(), Expect::Steps);
    assert!(exchange.expects_response());
    assert_eq!(exchange.action(), Action::Send(b"FPZp\r".to_vec()));
    assert_eq!(exchange.step(Event::Sent { now: 1000 }), Action::Poll);
    assert_eq!(exchange.phase(), Phase::Polling);
    assert_eq!(exchange.step(Event::Polled { bytes: Vec::new(), now: 1000 }), Action::Sleep(7));
    assert_eq!(exchange.phase(), Phase::Pausing);
    assert_eq!(exchange.step(Event::Woke { now: 1099 }), Action::Poll);
    assert_eq!(exchange.step(Event::Polled { bytes: b"pZ00".to_vec(), now: 1100 }), Action::Poll);
    assert_eq!(exchange.step(Event::Polled { bytes: Vec::new(), now: 1101 }), Action::Sleep(7));
    assert_eq!(exchange.step(Event::Woke { now: 1199 }), Action::Poll);
    assert_eq!(exchange.step(Event::Polled { bytes: Vec::new(), now: 1199 }), Action::Sleep(7));
    assert_eq!(
        exchange.step(Event::Woke { now: 1200 }),
        Action::Done(Err(ScopeError::QueryValidation("PF".to_string(), "pZ".to_string())))
    );
    assert_eq!(exchange.phase(), Phase::Finished);
}

#[test]
fn a_clock_that_runs_backwards_counts_as_no_time() {
    let mut exchange = Exchange::new(b"FPZp", Expect::Whole, 100, 7);
    assert_eq!(exchange.step(Event::Sent { now: 1000 }), Action::Poll);
    assert_eq!(exchange.step(Event::Polled { bytes: Vec::new(), now: 0 }), Action::Sleep(7));
    assert_eq!(exchange.step(Event::Woke { now: 10 }), Action::Poll);
    assert_eq!(exchange.step(Event::Polled { bytes: Vec::new(), now: 0 }), Action::Sleep(7));
    assert_eq!(exchange.step(Event::Woke { now: u64::MAX }), Action::Done(Ok(Reply::Whole(Vec::new()))));
}

#[test]
fn no_timeout_at_all_ends_at_the_first_silence() {
    let mut exchange = Exchange::new(b"FPZp", Expect::Whole, 0, 7);
    assert_eq!(exchange.step(Event::Sent { now: 5 }), Action::Poll);
    assert_eq!(exchange.step(Event::Polled { bytes: Vec::new(), now: 5 }), Action::Sleep(7));
    assert_eq!(exchange.step(Event::Woke { now: 5 }), Action::Done(Ok(Reply::Whole(Vec::new()))));
}

#[test]
fn a_failure_of_the_transport_ends_the_exchange() {
    let mut exchange = quick().focus_distance();
    assert_eq!(
        exchange.step(Event::Failed),
        Action::Done(Err(ScopeError::CommunicationFailure))
    );
    assert_eq!(exchange.phase(), Phase::Failed);
    assert!(exchange.is_over());

    let mut exchange = quick().focus_distance();
    exchange.step(Event::Sent { now: 0 });
    exchange.step(Event::Polled { bytes: b"PF".to_vec(), now: 0 });
    assert_eq!(
        exchange.step(Event::Failed),
        Action::Done(Err(ScopeError::CommunicationFailure))
    );

    let mut exchange = quick().focus_distance();
    exchange.step(Event::Sent { now: 0 });
    exchange.step(Event::Polled { bytes: Vec::new(), now: 0 });
    assert_eq!(
        exchange.step(Event::Failed),
        Action::Done(Err(ScopeError::CommunicationFailure))
    );
}

#[test]
fn an_event_that_answers_nothing_changes_nothing() {
    let mut exchange = quick().focus_distance();
    assert_eq!(exchange.step(Event::Woke { now: 9 }), Action::Send(b"FPZp\r".to_vec()));
    assert_eq!(
        exchange.step(Event::Polled { bytes: b"PF\r".to_vec(), now: 9 }),
        Action::Send(b"FPZp\r".to_vec())
    );
    assert_eq!(exchange.phase(), Phase::Sending);
    assert_eq!(exchange.response().len(), 0);
    assert_eq!(exchange.step(Event::Sent { now: 10 }), Action::Poll);
    assert_eq!(exchange.step(Event::Sent { now: 500 }), Action::Poll);
    assert_eq!(exchange.step(Event::Woke { now: 500 }), Action::Poll);
    assert_eq!(exchange.step(Event::Polled { bytes: Vec::new(), now: 10 }), Action::Sleep(5));
    assert_eq!(
        exchange.step(Event::Polled { bytes: b"PF\r".to_vec(), now: 10 }),
        Action::Sleep(5)
    );
    assert_eq!(exchange.response().len(), 0);
}

#[test]
fn an_exchange_that_is_over_stays_as_it_is() {
    let mut exchange = quick().focus_distance();
    exchange.step(Event::Sent { now: 0 });
    let done = exchange.step(Event::Polled { bytes: b"PF0000FF\r".to_vec(), now: 1 });
    assert_eq!(done, Action::Done(Ok(Reply::Steps(255))));
    assert_eq!(exchange.step(Event::Failed), Action::Done(Ok(Reply::Steps(255))));
    assert_eq!(
        exchange.step(Event::Polled { bytes: b"x".to_vec(), now: 2 }),
        Action::Done(Ok(Reply::Steps(255)))
    );
    assert_eq!(exchange.step(Event::Sent { now: 3 }), Action::Done(Ok(Reply::Steps(255))));
    assert_eq!(exchange.action(), Action::Done(Ok(Reply::Steps(255))));
    assert_eq!(exchange.outcome(), Ok(Reply::Steps(255)));
    assert_eq!(exchange.response().bytes(), b"PF0000FF\r");
}
