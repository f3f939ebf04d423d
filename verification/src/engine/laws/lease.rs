//! What a host's session is for: at most one incarnation of a host acts at a time,
//! and one that nobody answers for is replaced.

use super::super::authority::{AuthorityError, SessionWrite, VersionedSession};
use super::super::lease::{
    bootstrap_next, defended, failed, fenced, may_act, AuthorityHostConfig, Bootstrap,
    BootstrapAction, BootstrapEvent, HostAuthority, LeaseHost,
};
use crate::authority::{session_step, HostSessionRecord};
use crate::placement::{placement_follows, ClusterPlacement};
use crate::store::{StoreError, StoreFault};
use crate::types::HostId;
use vstd::prelude::*;

verus! {

/// How a host comes to serve. It claims a session of its own where there is none or
/// the last was revoked, under the next epoch; serves if the session is its own;
/// and looks again at a foreign one before it challenges it.
pub proof fn a_host_claims_the_next_epoch(
    config: AuthorityHostConfig,
    host: HostId,
    session: u64,
    placement: ClusterPlacement,
    found: VersionedSession,
    now: u64,
    nonce: u64,
)
    ensures
        ({
            let next = bootstrap_next(
                config,
                host,
                session,
                Bootstrap::ReadingSession { placement },
                BootstrapEvent::Session(Ok(None)),
                now,
                nonce,
            );
            &&& next.0 == (Bootstrap::Claiming { placement })
            &&& next.1 == BootstrapAction::Write(
                SessionWrite {
                    host,
                    expected: None,
                    record: HostSessionRecord::Active { epoch: 1, session },
                },
            )
        }),
        ({
            let next = bootstrap_next(
                config,
                host,
                session,
                Bootstrap::ReadingSession { placement },
                BootstrapEvent::Session(Ok(Some(found))),
                now,
                nonce,
            );
            match found.record {
                HostSessionRecord::Active { epoch, session: theirs } => {
                    &&& theirs == session ==> next.1 is Serve
                    &&& theirs != session ==> next.1 is ReadSession && next.0 == (
                    Bootstrap::ReadingToChallenge { placement, nonce, challenged_at: now })
                },
                HostSessionRecord::Revoked { epoch } => {
                    &&& epoch < u64::MAX ==> next.0 == (Bootstrap::Claiming { placement })
                        && match next.1 {
                        BootstrapAction::Write(write) => {
                            &&& write.host == found.host
                            &&& write.expected == Some(found.store_version)
                            &&& match write.record {
                                HostSessionRecord::Active { epoch: e, session: s } => e == epoch + 1
                                    && s == session,
                                _ => false,
                            }
                        },
                        _ => false,
                    }
                    &&& epoch == u64::MAX ==> next.1 is Fail
                },
                HostSessionRecord::Challenge { .. } => next.1 == BootstrapAction::Wait(
                    config.poll_interval,
                ) && next.0 is Pausing,
            }
        }),
{
}

/// How a foreign session is challenged: as it was found, under a nonce that is not
/// zero and the time at which the challenge was decided on; a challenge that is
/// there already is taken over, and is given its whole time.
pub proof fn a_challenge_is_of_the_session_that_was_found(
    config: AuthorityHostConfig,
    host: HostId,
    session: u64,
    placement: ClusterPlacement,
    own: u64,
    at: u64,
    found: VersionedSession,
    now: u64,
    nonce: u64,
)
    ensures
        ({
            let next = bootstrap_next(
                config,
                host,
                session,
                Bootstrap::ReadingToChallenge { placement, nonce: own, challenged_at: at },
                BootstrapEvent::Session(Ok(Some(found))),
                now,
                nonce,
            );
            match found.record {
                HostSessionRecord::Active { epoch, session: theirs } => next.0 == (
                Bootstrap::Challenging { placement }) && match next.1 {
                    BootstrapAction::Write(write) => {
                        &&& write.host == found.host
                        &&& write.expected == Some(found.store_version)
                        &&& match write.record {
                            HostSessionRecord::Challenge {
                                epoch: e,
                                session: s,
                                nonce: n,
                                challenged_at,
                            } => e == epoch && s == theirs && n != 0 && (own != 0 ==> n == own)
                                && challenged_at == at,
                            _ => false,
                        }
                    },
                    _ => false,
                },
                HostSessionRecord::Challenge {
                    session: theirs,
                    nonce: there,
                    challenged_at,
                    ..
                } => {
                    &&& next.0 == (Bootstrap::Waiting {
                        placement,
                        session: theirs,
                        nonce: there,
                    })
                    &&& challenged_at + config.challenge_interval <= u64::MAX ==> match next.1 {
                        BootstrapAction::Wait(time) => now + time >= challenged_at
                            + config.challenge_interval && (now <= challenged_at
                            + config.challenge_interval ==> now + time == challenged_at
                            + config.challenge_interval),
                        _ => false,
                    }
                },
                HostSessionRecord::Revoked { .. } => next.1 == BootstrapAction::Fail(
                    AuthorityError::Fenced,
                ),
            }
        }),
{
}

/// How an unanswered challenge ends: the session is revoked only if it is the very
/// one that was challenged, and the host's own follows under the next epoch. An
/// answered one is left alone.
pub proof fn only_the_challenged_session_is_revoked(
    config: AuthorityHostConfig,
    host: HostId,
    session: u64,
    placement: ClusterPlacement,
    theirs: u64,
    challenge: u64,
    found: VersionedSession,
    now: u64,
    nonce: u64,
)
    ensures
        bootstrap_next(
            config,
            host,
            session,
            Bootstrap::Waiting { placement, session: theirs, nonce: challenge },
            BootstrapEvent::Elapsed,
            now,
            nonce,
        ) == (
            Bootstrap::ReadingChallenged { placement, session: theirs, nonce: challenge },
            BootstrapAction::ReadSession,
        ),
        ({
            let next = bootstrap_next(
                config,
                host,
                session,
                Bootstrap::ReadingChallenged { placement, session: theirs, nonce: challenge },
                BootstrapEvent::Session(Ok(Some(found))),
                now,
                nonce,
            );
            let (same, epoch) = match found.record {
                HostSessionRecord::Challenge { epoch, session: s, nonce: n, .. } => (
                    s == theirs && n == challenge,
                    epoch,
                ),
                _ => (false, 0u64),
            };
            &&& same ==> next.0 == (Bootstrap::Revoking { placement }) && match next.1 {
                BootstrapAction::Write(write) => write.host == found.host && write.expected
                    == Some(found.store_version) && write.record == (HostSessionRecord::Revoked {
                    epoch,
                }),
                _ => false,
            }
            &&& !same ==> next.0 is ReadingPlacement && next.1 is ReadPlacement
        }),
        ({
            let next = bootstrap_next(
                config,
                host,
                session,
                Bootstrap::Revoking { placement },
                BootstrapEvent::Written(Ok(found)),
                now,
                nonce,
            );
            match found.record {
                HostSessionRecord::Revoked { epoch } => epoch < u64::MAX ==> next.0 == (
                Bootstrap::Succeeding { placement }) && match next.1 {
                    BootstrapAction::Write(write) => write.host == found.host && write.expected
                        == Some(found.store_version) && match write.record {
                        HostSessionRecord::Active { epoch: e, session: s } => e == epoch + 1 && s
                            == session,
                        _ => false,
                    },
                    _ => false,
                },
                _ => next.1 is Fail,
            }
        }),
{
}

/// A host serves once its own session was written, and starts over if another was
/// faster.
pub proof fn a_written_session_serves(
    config: AuthorityHostConfig,
    host: HostId,
    session: u64,
    placement: ClusterPlacement,
    written: VersionedSession,
    now: u64,
    nonce: u64,
)
    ensures
        bootstrap_next(
            config,
            host,
            session,
            Bootstrap::Claiming { placement },
            BootstrapEvent::Written(Ok(written)),
            now,
            nonce,
        ).1 is Serve,
        bootstrap_next(
            config,
            host,
            session,
            Bootstrap::Succeeding { placement },
            BootstrapEvent::Written(Ok(written)),
            now,
            nonce,
        ).1 is Serve,
        bootstrap_next(
            config,
            host,
            session,
            Bootstrap::Claiming { placement },
            BootstrapEvent::Written(Err(AuthorityError::Conflict)),
            now,
            nonce,
        ) == (Bootstrap::Pausing, BootstrapAction::Wait(config.poll_interval)),
        bootstrap_next(
            config,
            host,
            session,
            Bootstrap::Succeeding { placement },
            BootstrapEvent::Written(Err(AuthorityError::Conflict)),
            now,
            nonce,
        ) == (Bootstrap::ReadingPlacement, BootstrapAction::ReadPlacement),
        bootstrap_next(
            config,
            host,
            session,
            Bootstrap::Pausing,
            BootstrapEvent::Elapsed,
            now,
            nonce,
        ) == (Bootstrap::ReadingPlacement, BootstrapAction::ReadPlacement),
{
}

/// A host acts while it serves and its last look at the store is fresh.
pub proof fn a_host_acts_while_its_look_is_fresh(
    authority: HostAuthority,
    config: AuthorityHostConfig,
    now: u64,
)
    ensures
        may_act(authority, config, now) <==> authority.serving && authority.session is Some && (now
            < authority.last_poll + config.max_poll_staleness) && config.max_poll_staleness > 0,
{
}

/// A configuration is sound if a host looks often enough, and stops acting before a
/// challenge against it runs out.
pub proof fn a_sound_configuration_looks_often_enough(config: AuthorityHostConfig)
    ensures
        config.valid() <==> config.cluster_id != 0 && config.poll_interval != 0
            && config.poll_interval <= config.max_poll_staleness && config.max_poll_staleness
            < config.challenge_interval,
{
}

/// A host that is fenced stops serving, and says why unless something failed before.
pub proof fn a_fenced_host_stops_serving(before: LeaseHost, after: LeaseHost)
    requires
        fenced(before, after),
        before.counters.self_fences < u64::MAX,
    ensures
        !after.authority.serving,
        after.authority.session == before.authority.session,
        after.counters.self_fences == before.counters.self_fences + 1,
        after.fatal is Some,
        before.fatal is Some ==> after.fatal == before.fatal,
        after.host == before.host,
{
}

/// The first failure is the one that is reported.
pub proof fn the_first_failure_is_reported(
    before: LeaseHost,
    after: LeaseHost,
    reason: Seq<char>,
)
    requires
        failed(before, after, reason),
    ensures
        before.fatal is Some ==> after.fatal == before.fatal,
        before.fatal is None ==> after.fatal is Some && after.fatal->0.reason@ == reason,
        after.authority == before.authority,
        after.counters == before.counters,
{
}

/// A host that answered a challenge serves on, under the epoch of its record, and
/// its look is fresh.
pub proof fn a_defended_session_serves_on(
    before: LeaseHost,
    after: LeaseHost,
    session: VersionedSession,
    now: u64,
)
    requires
        defended(before, after, session, now),
        before.counters.defenses < u64::MAX,
    ensures
        after.authority.serving,
        after.authority.last_poll == now,
        match session.record {
            HostSessionRecord::Active { epoch, .. } => after.authority.host_epoch == epoch,
            HostSessionRecord::Challenge { epoch, .. } => after.authority.host_epoch == epoch,
            HostSessionRecord::Revoked { epoch } => after.authority.host_epoch == epoch,
        },
        after.authority.session == before.authority.session,
        after.counters.defenses == before.counters.defenses + 1,
        after.fatal == before.fatal,
{
}

/// A session record is replaced by what it was read as, and the store's answer is
/// told as it is.
pub proof fn a_record_is_replaced_as_it_was_read(
    observed: VersionedSession,
    record: HostSessionRecord,
    version: u64,
    fault: StoreFault,
)
    ensures
        observed.replacement(record).host == observed.host,
        observed.replacement(record).expected == Some(observed.store_version),
        observed.replacement(record).record == record,
        ({
            let write = observed.replacement(record);
            &&& write.outcome(Ok(version)) == Ok::<VersionedSession, AuthorityError>(
                VersionedSession { host: observed.host, store_version: version, record },
            )
            &&& fault is CasConflict ==> write.outcome(Err(StoreError::Fault(fault))) == Err::<
                VersionedSession,
                AuthorityError,
            >(AuthorityError::Conflict)
            &&& fault is Unavailable ==> write.outcome(Err(StoreError::Fault(fault))) == Err::<
                VersionedSession,
                AuthorityError,
            >(AuthorityError::Unavailable)
            &&& write.outcome(Err(StoreError::TooLarge)) == Err::<VersionedSession, AuthorityError>(
                AuthorityError::Invalid,
            )
        }),
{
}

/// How a session record may change: a session is challenged, answers, or is revoked
/// under its own epoch; only after a revocation does another follow, under the next.
/// A session that was not challenged is never revoked.
pub proof fn sessions_change_step_by_step(
    epoch: u64,
    session: u64,
    nonce: u64,
    at: u64,
    to: HostSessionRecord,
)
    ensures
        session_step(HostSessionRecord::Active { epoch, session }, to) <==> match to {
            HostSessionRecord::Challenge { epoch: e, session: s, nonce: n, .. } => e == epoch && s
                == session && n != 0,
            _ => false,
        },
        session_step(
            HostSessionRecord::Challenge { epoch, session, nonce, challenged_at: at },
            to,
        ) <==> match to {
            HostSessionRecord::Active { epoch: e, session: s } => e == epoch && s == session,
            HostSessionRecord::Revoked { epoch: e } => e == epoch,
            _ => false,
        },
        session_step(HostSessionRecord::Revoked { epoch }, to) <==> match to {
            HostSessionRecord::Active { epoch: e, session: s } => e == epoch + 1 && s != 0,
            _ => false,
        },
{
}

/// Placements of a cluster follow each other one by one.
pub proof fn placements_follow_one_by_one(previous: ClusterPlacement, next: ClusterPlacement)
    ensures
        placement_follows(previous, next) <==> next.cluster_id == previous.cluster_id && next.epoch
            == previous.epoch + 1,
        next.valid() <==> next.cluster_id != 0 && next.epoch != 0 && next.hosts@.len() > 0
            && next.hosts@.no_duplicates(),
{
}

} // verus!
