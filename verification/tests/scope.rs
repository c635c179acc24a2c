use axioplan::reply::read_reply;
use axioplan::{
    Action, Event, Expect, Phase, Reply, Scope, ScopeConfig, ScopeError, ScopeResponse, ScopeTurret,
};

const TURRETS: [ScopeTurret; 6] = [
    ScopeTurret::Unknown,
    ScopeTurret::Reflector,
    ScopeTurret::Objective,
    ScopeTurret::DensityFilter1,
    ScopeTurret::DensityFilter2,
    ScopeTurret::Condenser,
];

fn stand() -> Scope {
    Scope::new(ScopeConfig::standard())
}

#[test]
fn the_standard_settings() {
    let config = ScopeConfig::standard();
    assert_eq!(config.baud_rate, 9600);
    assert_eq!(config.timeout_ms, 2000);
    assert_eq!(config.poll_interval_ms, 5);
    assert_eq!(ScopeConfig::default(), config);
    assert_eq!(stand().config(), config);
}

#[test]
fn turret_positions() {
    assert_eq!(ScopeTurret::Unknown.positions(), 0);
    assert_eq!(ScopeTurret::Reflector.positions(), 0);
    assert_eq!(ScopeTurret::Objective.positions(), 6);
    assert_eq!(ScopeTurret::DensityFilter1.positions(), 4);
    assert_eq!(ScopeTurret::DensityFilter2.positions(), 4);
    assert_eq!(ScopeTurret::Condenser.positions(), 0);
}

#[test]
fn turret_codes() {
    for (code, turret) in TURRETS.iter().enumerate() {
        assert_eq!(turret.code() as usize, code);
    }
}

#[test]
fn turrets_are_ordered_by_their_codes() {
    for a in TURRETS {
        for b in TURRETS {
            assert_eq!(a.cmp(&b), a.code().cmp(&b.code()));
            assert_eq!(a == b, a.code() == b.code());
        }
    }
}

#[test]
fn set_turret_pos_issues_exactly_its_command() {
    for turret in TURRETS {
        for position in 1..=turret.positions() {
            let mut exchange = stand().set_turret_pos(turret, position).unwrap();
            let text = format!("HPCR{},{}", turret.code(), position);
            assert_eq!(exchange.query(), text.as_bytes());
            assert_eq!(exchange.expects(), Expect::Nothing);
            assert!(!exchange.expects_response());
            let frame = format!("HPCR{},{}\r", turret.code(), position);
            assert_eq!(exchange.action(), Action::Send(frame.into_bytes()));
            assert_eq!(exchange.step(Event::Sent { now: 0 }), Action::Done(Ok(Reply::Nothing)));
        }
    }
    let exchange = stand().set_turret_pos(ScopeTurret::Objective, 3).unwrap();
    assert_eq!(exchange.query(), b"HPCR2,3");
}

#[test]
fn set_turret_pos_refuses_a_position_above_the_highest() {
    for turret in TURRETS {
        let highest = turret.positions();
        for position in highest + 1..=255 {
            let refused = stand().set_turret_pos(turret, position);
            match refused {
                Err(error) => {
                    assert_eq!(error, ScopeError::OutOfRange(position as u64, highest as u64))
                }
                Ok(_) => panic!("position {} of {:?} was accepted", position, turret),
            }
        }
    }
}

#[test]
fn set_turret_pos_refuses_position_zero() {
    for turret in TURRETS {
        match stand().set_turret_pos(turret, 0) {
            Err(error) => {
                assert_eq!(error, ScopeError::OutOfRange(0, turret.positions() as u64))
            }
            Ok(_) => panic!("position 0 of {:?} was accepted", turret),
        }
    }
}

#[test]
fn turret_pos_asks_with_the_code_of_the_turret() {
    for turret in TURRETS {
        let exchange = stand().turret_pos(turret);
        let text = format!("HPCr{},1", turret.code());
        assert_eq!(exchange.query(), text.as_bytes());
        assert_eq!(exchange.expects(), Expect::Number);
        assert!(exchange.expects_response());
    }
}

#[test]
fn the_fixed_queries() {
    let scope = stand();
    assert_eq!(scope.firmware_version().query(), b"HPTv0");
    assert_eq!(scope.light_diaphragm_aperture().query(), b"HPCs4,1");
    assert_eq!(scope.focus_distance().query(), b"FPZp");
    assert_eq!(scope.focus_limit_upper().query(), b"FPZu");
    assert_eq!(scope.focus_limit_lower().query(), b"FPZl");
    assert_eq!(scope.firmware_version().expects(), Expect::Version);
    assert_eq!(scope.light_diaphragm_aperture().expects(), Expect::Number);
    assert_eq!(scope.focus_distance().expects(), Expect::Steps);
    assert_eq!(scope.focus_limit_upper().expects(), Expect::Steps);
    assert_eq!(scope.focus_limit_lower().expects(), Expect::Steps);
}

#[test]
fn set_light_diaphragm_aperture_writes_the_level() {
    for level in [0u8, 7, 42, 255] {
        let exchange = stand().set_light_diaphragm_aperture(level);
        assert_eq!(exchange.query(), format!("HPCS4,{}", level).as_bytes());
        assert!(!exchange.expects_response());
    }
}

#[test]
fn set_focus_distance_writes_the_encoded_steps() {
    assert_eq!(stand().set_focus_distance(0).query(), b"FPZT000000");
    assert_eq!(stand().set_focus_distance(255).query(), b"FPZT0000FF");
    assert_eq!(stand().set_focus_distance(-1).query(), b"FPZTFFFFFE");
    assert_eq!(stand().set_focus_distance(0x7FFFFF).query(), b"FPZT7FFFFF");
    assert!(!stand().set_focus_distance(0).expects_response());
}

#[test]
fn an_exchange_takes_its_times_from_the_settings() {
    let scope = Scope::new(ScopeConfig { baud_rate: 9600, timeout_ms: 30, poll_interval_ms: 11 });
    let mut exchange = scope.focus_distance();
    assert_eq!(exchange.step(Event::Sent { now: 0 }), Action::Poll);
    assert_eq!(exchange.step(Event::Polled { bytes: Vec::new(), now: 0 }), Action::Sleep(11));
    assert_eq!(exchange.step(Event::Woke { now: 29 }), Action::Poll);
    assert_eq!(exchange.step(Event::Polled { bytes: Vec::new(), now: 29 }), Action::Sleep(11));
    assert_eq!(exchange.step(Event::Woke { now: 30 }), Action::Done(Err(ScopeError::EmptyResponse)));
}

#[test]
fn a_raw_query_is_not_checked() {
    let mut exchange = stand().query_scope(b"x", true);
    assert_eq!(exchange.action(), Action::Send(b"x\r".to_vec()));
    exchange.step(Event::Sent { now: 0 });
    assert_eq!(exchange.expects(), Expect::Whole);
    assert_eq!(
        exchange.step(Event::Polled { bytes: b"anything\r".to_vec(), now: 1 }),
        Action::Done(Ok(Reply::Whole(b"anything\r".to_vec())))
    );
    let mut exchange = stand().query_scope(b"HPCS4,0", false);
    assert_eq!(exchange.expects(), Expect::Nothing);
    assert_eq!(exchange.step(Event::Sent { now: 0 }), Action::Done(Ok(Reply::Nothing)));
}

#[test]
fn a_firmware_exchange_from_end_to_end() {
    let mut exchange = stand().firmware_version();
    assert_eq!(exchange.action(), Action::Send(b"HPTv0\r".to_vec()));
    assert_eq!(exchange.step(Event::Sent { now: 0 }), Action::Poll);
    assert_eq!(exchange.step(Event::Polled { bytes: b"PHv1".to_vec(), now: 3 }), Action::Poll);
    assert_eq!(
        exchange.step(Event::Polled { bytes: b".2_3.4\r".to_vec(), now: 9 }),
        Action::Done(Ok(Reply::Version("v1.2".to_string(), "3.4".to_string())))
    );
    assert_eq!(exchange.phase(), Phase::Finished);
}

#[test]
fn a_focus_exchange_from_end_to_end() {
    let mut exchange = stand().focus_limit_lower();
    exchange.step(Event::Sent { now: 0 });
    assert_eq!(
        exchange.step(Event::Polled { bytes: b"PFFFFF9B\r".to_vec(), now: 1 }),
        Action::Done(Ok(Reply::Steps(-100)))
    );
}

#[test]
fn an_aperture_exchange_from_end_to_end() {
    let mut exchange = stand().light_diaphragm_aperture();
    exchange.step(Event::Sent { now: 0 });
    assert_eq!(
        exchange.step(Event::Polled { bytes: b"PH128\r".to_vec(), now: 1 }),
        Action::Done(Ok(Reply::Number(128)))
    );
}

#[test]
fn a_response_buffer_keeps_what_arrives_in_order() {
    let mut response = ScopeResponse::new();
    assert_eq!(response.len(), 0);
    assert_eq!(response.bytes(), b"");
    response.append(b"PH");
    response.append(b"");
    response.append(b"3\r");
    assert_eq!(response.len(), 4);
    assert_eq!(response.bytes(), b"PH3\r");
}

#[test]
fn a_reply_is_read_as_expected() {
    assert_eq!(read_reply(Expect::Nothing, b"FPZT000000", b"whatever"), Ok(Reply::Nothing));
    assert_eq!(read_reply(Expect::Whole, b"x", b"PH3\r"), Ok(Reply::Whole(b"PH3\r".to_vec())));
    assert_eq!(read_reply(Expect::Whole, b"x", b""), Ok(Reply::Whole(Vec::new())));
    assert_eq!(read_reply(Expect::Number, b"HPCr2,1", b"PH3\r"), Ok(Reply::Number(3)));
    assert_eq!(read_reply(Expect::Steps, b"FPZp", b"PFFFFFFE\r"), Ok(Reply::Steps(-1)));
    assert_eq!(
        read_reply(Expect::Version, b"HPTv0", b"PHv1.2_3.4\r"),
        Ok(Reply::Version("v1.2".to_string(), "3.4".to_string()))
    );
}

#[test]
fn a_reply_that_cannot_be_read_is_an_error() {
    assert_eq!(read_reply(Expect::Number, b"HPCr2,1", b"P"), Err(ScopeError::EmptyResponse));
    assert_eq!(
        read_reply(Expect::Number, b"HPCr2,1", b"HP3\r"),
        Err(ScopeError::QueryValidation("PH".to_string(), "HP".to_string()))
    );
    assert_eq!(read_reply(Expect::Number, b"HPCr2,1", b"PHx\r"), Err(ScopeError::InvalidNumber));
    assert_eq!(read_reply(Expect::Number, b"HPCr2,1", b"PH"), Err(ScopeError::InvalidNumber));
    assert_eq!(
        read_reply(Expect::Number, b"HPCr2,1", &[b'P', b'H', 0xFF, b'\r']),
        Err(ScopeError::InvalidUTF8)
    );
    assert_eq!(read_reply(Expect::Steps, b"FPZp", b"PF00\r"), Err(ScopeError::InvalidResponse));
    assert_eq!(read_reply(Expect::Steps, b"FPZp", b"PF00000G\r"), Err(ScopeError::InvalidNumber));
    assert_eq!(read_reply(Expect::Steps, b"FPZp", b"PF0000FF"), Err(ScopeError::InvalidNumber));
    assert_eq!(read_reply(Expect::Version, b"HPTv0", b"PHv1.2\r"), Err(ScopeError::InvalidResponse));
}
