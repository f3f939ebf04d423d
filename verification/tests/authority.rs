use blockd_core::authority::{HostSessionRecord, InvalidTransition};
use blockd_core::engine::authority::{
    activate_host_session, cas_placement, challenge_host_session, create_host_session,
    placement_written, poll_or_defend_host_session, read_host_session, read_placement,
    revoke_host_session, AuthorityError, PlacementProof, PollSession, SessionPlan,
    VersionedSession,
};
use blockd_core::engine::lease::{
    authorized, bootstrap_host_authority, bootstrap_step, monitor_deadline, monitor_defend,
    monitor_defended, monitor_placement_read, monitor_session_read, monitor_wake,
    AuthorityHostConfig, Bootstrap, BootstrapAction, BootstrapEvent, HostAuthority, LeaseCounters,
    LeaseHost, MonitorAction,
};
use blockd_core::placement::{valid_placement_transition, ClusterPlacement};
use blockd_core::store::{StoreError, StoreFault};
use blockd_core::types::HostId;

const CONFIG: AuthorityHostConfig = AuthorityHostConfig {
    cluster_id: 5,
    poll_interval: 10,
    max_poll_staleness: 30,
    challenge_interval: 100,
};

fn placement(cluster_id: u64, epoch: u64) -> ClusterPlacement {
    ClusterPlacement { cluster_id, epoch, hosts: vec![HostId(0), HostId(1)] }
}

fn placement_proof() -> PlacementProof {
    PlacementProof { store_version: 3, placement: placement(CONFIG.cluster_id, 1) }
}

fn lease() -> LeaseHost {
    LeaseHost {
        host: HostId(1),
        authority: HostAuthority {
            session: None,
            host_epoch: 0,
            serving: false,
            last_poll: 0,
            placement: None,
        },
        counters: LeaseCounters { gets: 0, challenges: 0, defenses: 0, self_fences: 0 },
        fatal: None,
    }
}

fn versioned(store_version: u64, record: HostSessionRecord) -> VersionedSession {
    VersionedSession { host: HostId(1), store_version, record }
}

/// A host that last saw its record intact at `last_poll`.
fn serving(session: u64, last_poll: u64) -> LeaseHost {
    let mut lease = lease();
    lease.authority.session = Some(session);
    lease.authority.host_epoch = 1;
    lease.authority.serving = true;
    lease.authority.last_poll = last_poll;
    lease
}

#[test]
fn a_session_record_takes_its_steps_only() {
    let first = HostSessionRecord::initial(7).expect("session");
    assert_eq!(first, HostSessionRecord::Active { epoch: 1, session: 7 });
    assert_eq!(HostSessionRecord::initial(0), Err(InvalidTransition));
    assert_eq!(first.challenge(0, 50), Err(InvalidTransition));

    let challenged = first.challenge(9, 50).expect("challenge");
    assert_eq!(
        challenged,
        HostSessionRecord::Challenge { epoch: 1, session: 7, nonce: 9, challenged_at: 50 }
    );
    assert_eq!(challenged.challenge(9, 50), Err(InvalidTransition));
    assert_eq!(challenged.defend(7, 9), Ok(first));
    assert_eq!(challenged.defend(8, 9), Err(InvalidTransition));
    assert_eq!(challenged.defend(7, 8), Err(InvalidTransition));
    assert_eq!(first.revoke(9), Err(InvalidTransition));
    assert_eq!(challenged.revoke(8), Err(InvalidTransition));

    let revoked = challenged.revoke(9).expect("revoke");
    assert_eq!(revoked, HostSessionRecord::Revoked { epoch: 1 });
    assert_eq!(revoked.defend(7, 9), Err(InvalidTransition));
    assert_eq!(revoked.activate(0), Err(InvalidTransition));
    let next = revoked.activate(8).expect("activate");
    assert_eq!(next, HostSessionRecord::Active { epoch: 2, session: 8 });
    assert_eq!(next.epoch(), 2);
    assert_eq!(
        HostSessionRecord::Revoked { epoch: u64::MAX }.activate(8),
        Err(InvalidTransition)
    );
}

#[test]
fn session_writes_replace_what_was_read() {
    let active = HostSessionRecord::Active { epoch: 1, session: 7 };
    let challenge =
        HostSessionRecord::Challenge { epoch: 1, session: 7, nonce: 9, challenged_at: 50 };

    let created = create_host_session(HostId(1), 7).expect("create");
    assert_eq!((created.expected, created.record), (None, active));
    assert_eq!(create_host_session(HostId(1), 0), Err(AuthorityError::Invalid));
    assert_eq!(created.finish(Ok(4)), Ok(versioned(4, active)));
    assert_eq!(created.finish(Err(StoreError::TooLarge)), Err(AuthorityError::Invalid));
    assert_eq!(
        created.finish(Err(StoreError::Fault(StoreFault::CasConflict { actual: Some(1) }))),
        Err(AuthorityError::Conflict)
    );
    assert_eq!(
        created.finish(Err(StoreError::Fault(StoreFault::Unavailable))),
        Err(AuthorityError::Unavailable)
    );

    let own = poll_or_defend_host_session(7, Some(versioned(4, active)));
    assert_eq!(own, Ok(SessionPlan::Settled(PollSession::Active(versioned(4, active)))));
    let Ok(SessionPlan::Write(defence)) =
        poll_or_defend_host_session(7, Some(versioned(5, challenge)))
    else {
        panic!("a challenge is answered");
    };
    assert_eq!((defence.expected, defence.record), (Some(5), active));
    assert_eq!(
        poll_or_defend_host_session(8, Some(versioned(5, challenge))),
        Err(AuthorityError::Fenced)
    );
    assert_eq!(poll_or_defend_host_session(7, None), Err(AuthorityError::Fenced));

    let Ok(SessionPlan::Write(question)) =
        challenge_host_session(Some(versioned(4, active)), 9, 50)
    else {
        panic!("an active session is challenged");
    };
    assert_eq!((question.expected, question.record), (Some(4), challenge));
    assert_eq!(
        challenge_host_session(Some(versioned(5, challenge)), 3, 60),
        Ok(SessionPlan::Settled(versioned(5, challenge)))
    );
    assert_eq!(challenge_host_session(None, 9, 50), Err(AuthorityError::Fenced));

    let revocation = revoke_host_session(versioned(5, challenge), 9).expect("revoke");
    assert_eq!(revocation.record, HostSessionRecord::Revoked { epoch: 1 });
    assert_eq!(revoke_host_session(versioned(5, challenge), 8), Err(AuthorityError::Invalid));
    let revoked = versioned(6, revocation.record);
    let succession = activate_host_session(revoked, 8).expect("activate");
    assert_eq!(
        (succession.expected, succession.record),
        (Some(6), HostSessionRecord::Active { epoch: 2, session: 8 })
    );
    assert_eq!(
        activate_host_session(versioned(4, active), 8),
        Err(AuthorityError::Invalid)
    );
}

#[test]
fn stored_authority_is_read_as_it_is() {
    let active = HostSessionRecord::Active { epoch: 1, session: 7 };
    assert_eq!(read_host_session(HostId(1), Ok(None)), Ok(None));
    assert_eq!(
        read_host_session(HostId(1), Ok(Some((4, Some(active))))),
        Ok(Some(versioned(4, active)))
    );
    assert_eq!(
        read_host_session(HostId(1), Ok(Some((4, None)))),
        Err(AuthorityError::Corrupt)
    );
    assert!(matches!(read_placement(Ok(None)), Ok(None)));
    assert!(matches!(read_placement(Ok(Some((2, None)))), Err(AuthorityError::Corrupt)));
    let Ok(Some(found)) = read_placement(Ok(Some((2, Some(placement(5, 1)))))) else {
        panic!("a placement is there");
    };
    assert_eq!((found.store_version, found.placement.epoch), (2, 1));
}

#[test]
fn placements_follow_each_other() {
    assert!(ClusterPlacement::new(5, 1, vec![HostId(0)]).is_some());
    assert!(ClusterPlacement::new(0, 1, vec![HostId(0)]).is_none());
    assert!(ClusterPlacement::new(5, 0, vec![HostId(0)]).is_none());
    assert!(ClusterPlacement::new(5, 1, Vec::new()).is_none());
    assert!(ClusterPlacement::new(5, 1, vec![HostId(0), HostId(0)]).is_none());

    let first = placement(5, 1);
    assert!(valid_placement_transition(&first, &placement(5, 2)));
    assert!(!valid_placement_transition(&first, &placement(5, 3)));
    assert!(!valid_placement_transition(&first, &placement(6, 2)));

    assert_eq!(cas_placement(None, &first), Ok(None));
    assert_eq!(cas_placement(None, &placement(5, 2)), Err(AuthorityError::Invalid));
    assert_eq!(cas_placement(Some(&placement_proof()), &placement(5, 2)), Ok(Some(3)));
    assert_eq!(cas_placement(Some(&placement_proof()), &placement(5, 1)), Err(AuthorityError::Invalid));
    let written = placement_written(placement(5, 2), Ok(4)).expect("written");
    assert_eq!((written.store_version, written.placement.epoch), (4, 2));
    assert!(matches!(
        placement_written(
            placement(5, 2),
            Err(StoreError::Fault(StoreFault::CasConflict { actual: None })),
        ),
        Err(AuthorityError::Conflict)
    ));
}

#[test]
fn timings_that_make_no_sense_are_refused() {
    assert_eq!(bootstrap_host_authority(None), Ok(None));
    assert_eq!(bootstrap_host_authority(Some(CONFIG)), Ok(Some(CONFIG)));
    let broken = [
        AuthorityHostConfig { cluster_id: 0, ..CONFIG },
        AuthorityHostConfig { poll_interval: 0, ..CONFIG },
        AuthorityHostConfig { max_poll_staleness: 9, ..CONFIG },
        AuthorityHostConfig { challenge_interval: 30, ..CONFIG },
    ];
    for config in broken {
        assert_eq!(bootstrap_host_authority(Some(config)), Err(AuthorityError::Invalid));
    }
}

#[test]
fn a_host_takes_over_a_name_whose_session_is_silent() {
    let mut host = lease();
    let step = |host: &mut LeaseHost, state, event, now| {
        bootstrap_step(host, CONFIG, 8, state, event, now, 0)
    };
    let (state, action) =
        step(&mut host, Bootstrap::ReadingPlacement, BootstrapEvent::Placement(Ok(Some(placement_proof()))), 200);
    assert_eq!(action, BootstrapAction::ReadSession);

    let silent = HostSessionRecord::Active { epoch: 1, session: 7 };
    let seen = BootstrapEvent::Session(Ok(Some(versioned(4, silent))));
    let (state, action) = step(&mut host, state, seen, 200);
    assert_eq!(action, BootstrapAction::ReadSession);
    let seen = BootstrapEvent::Session(Ok(Some(versioned(4, silent))));
    let (state, action) = step(&mut host, state, seen, 201);
    let BootstrapAction::Write(write) = action else {
        panic!("the silent session is challenged");
    };
    let challenge =
        HostSessionRecord::Challenge { epoch: 1, session: 7, nonce: 1, challenged_at: 200 };
    assert_eq!((write.expected, write.record), (Some(4), challenge));

    let written = BootstrapEvent::Written(write.finish(Ok(5)));
    let (state, action) = step(&mut host, state, written, 211);
    assert_eq!(action, BootstrapAction::Wait(89), "counted from when it was decided on");
    let (state, action) = step(&mut host, state, BootstrapEvent::Elapsed, 300);
    assert_eq!(action, BootstrapAction::ReadSession);
    let seen = BootstrapEvent::Session(Ok(Some(versioned(5, challenge))));
    let (state, action) = step(&mut host, state, seen, 302);
    let BootstrapAction::Write(write) = action else {
        panic!("an unanswered challenge ends the session");
    };
    assert_eq!(write.record, HostSessionRecord::Revoked { epoch: 1 });
    let written = BootstrapEvent::Written(write.finish(Ok(6)));
    let (state, action) = step(&mut host, state, written, 303);
    let BootstrapAction::Write(write) = action else {
        panic!("the name is free");
    };
    assert_eq!(write.record, HostSessionRecord::Active { epoch: 2, session: 8 });
    assert!(!host.authority.serving);

    let written = BootstrapEvent::Written(write.finish(Ok(7)));
    let (state, action) = step(&mut host, state, written, 304);
    assert_eq!(action, BootstrapAction::Serve);
    assert!(matches!(state, Bootstrap::Finished));
    assert!(host.authority.serving);
    assert_eq!(host.authority.session, Some(8));
    assert_eq!(host.authority.host_epoch, 2);
    assert_eq!(host.authority.last_poll, 304);
}

#[test]
fn an_answered_challenge_starts_over() {
    let mut host = lease();
    let challenged = Bootstrap::ReadingChallenged {
        placement: placement(5, 1),
        session: 7,
        nonce: 1,
    };
    let answered = HostSessionRecord::Active { epoch: 1, session: 7 };
    let event = BootstrapEvent::Session(Ok(Some(versioned(6, answered))));
    let (state, action) = bootstrap_step(&mut host, CONFIG, 8, challenged, event, 300, 1);
    assert!(matches!(state, Bootstrap::ReadingPlacement));
    assert_eq!(action, BootstrapAction::ReadPlacement);
    assert!(!host.authority.serving);
}

#[test]
fn a_host_starts_under_a_free_name() {
    let mut host = lease();
    let reading = Bootstrap::ReadingSession { placement: placement(5, 1) };
    let (state, action) =
        bootstrap_step(&mut host, CONFIG, 8, reading, BootstrapEvent::Session(Ok(None)), 5, 1);
    let BootstrapAction::Write(write) = action else {
        panic!("the first record is written");
    };
    assert_eq!(write.expected, None);
    let lost = BootstrapEvent::Written(Err(AuthorityError::Conflict));
    let (_, action) = bootstrap_step(&mut host, CONFIG, 8, state, lost, 6, 1);
    assert_eq!(action, BootstrapAction::Wait(CONFIG.poll_interval));

    let foreign = PlacementProof { store_version: 3, placement: placement(6, 1) };
    let cases = [
        (Ok(Some(foreign)), BootstrapAction::Fail(AuthorityError::Invalid)),
        (Ok(None), BootstrapAction::Fail(AuthorityError::Fenced)),
        (Err(AuthorityError::Unavailable), BootstrapAction::Wait(CONFIG.poll_interval)),
        (Err(AuthorityError::Corrupt), BootstrapAction::Fail(AuthorityError::Corrupt)),
    ];
    for (reply, expected) in cases {
        let event = BootstrapEvent::Placement(reply);
        let (_, action) =
            bootstrap_step(&mut host, CONFIG, 8, Bootstrap::ReadingPlacement, event, 7, 1);
        assert_eq!(action, expected);
    }
}

#[test]
fn a_host_whose_look_is_too_old_stops() {
    let mut host = serving(7, 100);
    assert!(authorized(&host.authority, Some(CONFIG), 129));
    assert!(!authorized(&host.authority, Some(CONFIG), 130));
    assert!(authorized(&lease().authority, None, 0));
    assert_eq!(
        monitor_wake(&mut host, CONFIG, 110),
        MonitorAction::ReadSession { session: 7, within: 20 }
    );
    assert_eq!(host.counters.gets, 1);
    assert_eq!(monitor_wake(&mut host, CONFIG, 130), MonitorAction::Stop);
    assert_eq!(host.counters.self_fences, 1);
    assert!(!host.authority.serving);
    assert_eq!(host.fatal.as_ref().map(|fatal| fatal.reason), Some("host session fenced"));

    let mut host = serving(7, 100);
    assert_eq!(monitor_deadline(&mut host), MonitorAction::Stop);
    assert!(!host.authority.serving);

    let mut host = lease();
    assert_eq!(monitor_wake(&mut host, CONFIG, 1), MonitorAction::Stop);
    assert_eq!(
        host.fatal.as_ref().map(|fatal| fatal.reason),
        Some("host authority session missing")
    );
}

#[test]
fn a_challenged_host_answers_and_goes_on() {
    let active = versioned(6, HostSessionRecord::Active { epoch: 3, session: 7 });
    let challenge = versioned(
        5,
        HostSessionRecord::Challenge { epoch: 3, session: 7, nonce: 9, challenged_at: 105 },
    );
    let mut host = serving(7, 100);
    assert_eq!(
        monitor_session_read(&mut host, CONFIG, 7, 100, Ok(Some(challenge)), 110),
        MonitorAction::ReadToDefend { session: 7 }
    );
    assert!(!host.authority.serving);
    assert_eq!(host.counters.challenges, 1);
    let MonitorAction::Defend(write) = monitor_defend(&mut host, 7, Ok(Some(challenge)), 111)
    else {
        panic!("the challenge is answered");
    };
    assert_eq!((write.expected, write.record), (Some(5), active.record));
    assert_eq!(monitor_defended(&mut host, write.finish(Ok(6)), 112), MonitorAction::Sleep);
    assert!(host.authority.serving);
    assert_eq!(host.authority.host_epoch, 3);
    assert_eq!(host.authority.last_poll, 112);
    assert_eq!(host.counters.defenses, 1);

    assert_eq!(
        monitor_session_read(&mut host, CONFIG, 7, 112, Ok(Some(active)), 120),
        MonitorAction::ReadPlacement { observed: active }
    );
    assert_eq!(
        monitor_placement_read(&mut host, CONFIG, active, Ok(Some(placement_proof())), 121),
        MonitorAction::Sleep
    );
    assert_eq!(host.authority.last_poll, 121);
    let elsewhere = PlacementProof { store_version: 3, placement: placement(6, 1) };
    assert_eq!(
        monitor_placement_read(&mut host, CONFIG, active, Ok(Some(elsewhere)), 122),
        MonitorAction::Stop
    );
    assert_eq!(
        host.fatal.as_ref().map(|fatal| fatal.reason),
        Some("host authority placement belongs to another cluster")
    );
}

#[test]
fn a_host_without_its_record_is_fenced() {
    let other = versioned(6, HostSessionRecord::Active { epoch: 4, session: 8 });
    let revoked = versioned(6, HostSessionRecord::Revoked { epoch: 3 });
    for observed in [Ok(Some(other)), Ok(Some(revoked)), Ok(None), Err(AuthorityError::Corrupt)] {
        let mut host = serving(7, 100);
        assert_eq!(
            monitor_session_read(&mut host, CONFIG, 7, 100, observed, 110),
            MonitorAction::Stop
        );
        assert!(!host.authority.serving);
        let mut host = serving(7, 100);
        assert_eq!(monitor_defend(&mut host, 7, observed, 110), MonitorAction::Stop);
        assert_eq!(host.counters.self_fences, 1);
    }
    let mut host = serving(7, 100);
    let silent = Err(AuthorityError::Unavailable);
    assert_eq!(
        monitor_session_read(&mut host, CONFIG, 7, 100, silent, 129),
        MonitorAction::Sleep
    );
    assert_eq!(
        monitor_session_read(&mut host, CONFIG, 7, 100, silent, 130),
        MonitorAction::Stop
    );
    let mut host = serving(7, 100);
    assert_eq!(
        monitor_defended(&mut host, Err(AuthorityError::Conflict), 110),
        MonitorAction::Stop
    );
}
