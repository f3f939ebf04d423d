//! How a host obtains the right to act under its name, keeps it, and gives up
//! acting when it can no longer be sure of it.

use super::authority::{
    activate_host_session, challenge_host_session, create_host_session, poll_or_defend_host_session,
    revoke_host_session, write_follows, AuthorityError, PlacementProof, PollSession, SessionPlan,
    SessionWrite, VersionedSession,
};
use super::error::HostFatal;
use crate::arith::{sat_add, sat_sub};
use crate::authority::HostSessionRecord;
use crate::placement::ClusterPlacement;
use crate::types::HostId;
use vstd::prelude::*;

verus! {

/// How often a host looks at its record and when it stops trusting what it
/// saw.
#[derive(Clone, Copy, Debug, PartialEq, Eq, Structural)]
pub struct AuthorityHostConfig {
    pub cluster_id: u64,
    pub poll_interval: u64,
    pub max_poll_staleness: u64,
    pub challenge_interval: u64,
}

impl AuthorityHostConfig {
    /// A host polls at least once before its last look is too old, and stops
    /// acting before a challenge against it can run out.
    pub open spec fn valid(self) -> bool {
        &&& self.cluster_id != 0
        &&& self.poll_interval != 0
        &&& self.max_poll_staleness >= self.poll_interval
        &&& self.challenge_interval > self.max_poll_staleness
    }
}

/// What a host knows about its own right to act.
pub struct HostAuthority {
    pub session: Option<u64>,
    pub host_epoch: u64,
    pub serving: bool,
    pub last_poll: u64,
    pub placement: Option<ClusterPlacement>,
}

#[derive(Clone, Copy, Debug, PartialEq, Eq, Structural)]
pub struct LeaseCounters {
    pub gets: u64,
    pub challenges: u64,
    pub defenses: u64,
    pub self_fences: u64,
}

impl LeaseCounters {
    /// No counter is at its limit.
    pub open spec fn countable(self) -> bool {
        &&& self.gets < u64::MAX
        &&& self.challenges < u64::MAX
        &&& self.defenses < u64::MAX
        &&& self.self_fences < u64::MAX
    }
}

/// The part of a host that the lease decides about.
pub struct LeaseHost {
    pub host: HostId,
    pub authority: HostAuthority,
    pub counters: LeaseCounters,
    pub fatal: Option<HostFatal>,
}

pub open spec fn at_least_one(n: u64) -> u64 {
    if n == 0 {
        1
    } else {
        n
    }
}

// ---------------------------------------------------------------------------
// Taking the name
// ---------------------------------------------------------------------------

/// Where a host stands on its way to acting under its name.
pub enum Bootstrap {
    /// Waiting before another attempt.
    Pausing,
    ReadingPlacement,
    ReadingSession { placement: ClusterPlacement },
    /// Writing the first record, or the one after a revocation.
    Claiming { placement: ClusterPlacement },
    /// Looking at the record once more before challenging it. The challenge bears
    /// the nonce and the time at which it was decided on.
    ReadingToChallenge { placement: ClusterPlacement, nonce: u64, challenged_at: u64 },
    Challenging { placement: ClusterPlacement },
    /// Giving the challenged session its time to answer.
    Waiting { placement: ClusterPlacement, session: u64, nonce: u64 },
    ReadingChallenged { placement: ClusterPlacement, session: u64, nonce: u64 },
    Revoking { placement: ClusterPlacement },
    /// Writing the record after an own revocation.
    Succeeding { placement: ClusterPlacement },
    Finished,
}

pub enum BootstrapEvent {
    Placement(Result<Option<PlacementProof>, AuthorityError>),
    Session(Result<Option<VersionedSession>, AuthorityError>),
    Written(Result<VersionedSession, AuthorityError>),
    Elapsed,
}

#[derive(Clone, Copy, Debug, PartialEq, Eq, Structural)]
pub enum BootstrapAction {
    ReadPlacement,
    ReadSession,
    Write(SessionWrite),
    Wait(u64),
    /// The host may act.
    Serve,
    Fail(AuthorityError),
}

impl Bootstrap {
    /// The kind of event this state waits for.
    pub open spec fn expects(self, event: BootstrapEvent) -> bool {
        match self {
            Bootstrap::Pausing => event is Elapsed,
            Bootstrap::Waiting { .. } => event is Elapsed,
            Bootstrap::ReadingPlacement => event is Placement,
            Bootstrap::ReadingSession { .. } => event is Session,
            Bootstrap::ReadingToChallenge { .. } => event is Session,
            Bootstrap::ReadingChallenged { .. } => event is Session,
            Bootstrap::Claiming { .. } => event is Written,
            Bootstrap::Challenging { .. } => event is Written,
            Bootstrap::Revoking { .. } => event is Written,
            Bootstrap::Succeeding { .. } => event is Written,
            Bootstrap::Finished => false,
        }
    }

    /// The placement this attempt goes by, once it is known.
    pub open spec fn placement(self) -> Option<ClusterPlacement> {
        match self {
            Bootstrap::ReadingSession { placement } => Some(placement),
            Bootstrap::Claiming { placement } => Some(placement),
            Bootstrap::ReadingToChallenge { placement, .. } => Some(placement),
            Bootstrap::Challenging { placement } => Some(placement),
            Bootstrap::Waiting { placement, .. } => Some(placement),
            Bootstrap::ReadingChallenged { placement, .. } => Some(placement),
            Bootstrap::Revoking { placement } => Some(placement),
            Bootstrap::Succeeding { placement } => Some(placement),
            _ => None,
        }
    }
}

/// A fault that another attempt may get past.
pub open spec fn transient(error: AuthorityError) -> bool {
    error == AuthorityError::Conflict || error == AuthorityError::Unavailable
}

fn is_transient(error: AuthorityError) -> (r: bool)
    ensures
        r == transient(error),
{
    match error {
        AuthorityError::Conflict => true,
        AuthorityError::Unavailable => true,
        _ => false,
    }
}

/// The next state and action after `event`.
pub open spec fn bootstrap_next(
    config: AuthorityHostConfig,
    host: HostId,
    session: u64,
    state: Bootstrap,
    event: BootstrapEvent,
    now: u64,
    nonce: u64,
) -> (Bootstrap, BootstrapAction) {
    let pause = (Bootstrap::Pausing, BootstrapAction::Wait(config.poll_interval));
    let again = (Bootstrap::ReadingPlacement, BootstrapAction::ReadPlacement);
    match (state, event) {
        (Bootstrap::ReadingPlacement, BootstrapEvent::Placement(reply)) => match reply {
            Ok(Some(proof)) => if proof.placement.cluster_id == config.cluster_id {
                (
                    Bootstrap::ReadingSession { placement: proof.placement },
                    BootstrapAction::ReadSession,
                )
            } else {
                (Bootstrap::Finished, BootstrapAction::Fail(AuthorityError::Invalid))
            },
            Ok(None) => (Bootstrap::Finished, BootstrapAction::Fail(AuthorityError::Fenced)),
            Err(AuthorityError::Unavailable) => pause,
            Err(error) => (Bootstrap::Finished, BootstrapAction::Fail(error)),
        },
        (Bootstrap::ReadingSession { placement }, BootstrapEvent::Session(reply)) => match reply {
            Ok(None) => (
                Bootstrap::Claiming { placement },
                BootstrapAction::Write(
                    SessionWrite {
                        host,
                        expected: None,
                        record: HostSessionRecord::Active { epoch: 1, session },
                    },
                ),
            ),
            Ok(Some(found)) => match found.record {
                HostSessionRecord::Active { session: s, .. } => if s == session {
                    (Bootstrap::Finished, BootstrapAction::Serve)
                } else {
                    (
                        Bootstrap::ReadingToChallenge {
                            placement,
                            nonce,
                            challenged_at: now,
                        },
                        BootstrapAction::ReadSession,
                    )
                },
                HostSessionRecord::Revoked { epoch } => if epoch < u64::MAX {
                    (
                        Bootstrap::Claiming { placement },
                        BootstrapAction::Write(
                            found.replacement(
                                HostSessionRecord::Active { epoch: (epoch + 1) as u64, session },
                            ),
                        ),
                    )
                } else {
                    (Bootstrap::Finished, BootstrapAction::Fail(AuthorityError::Invalid))
                },
                HostSessionRecord::Challenge { .. } => pause,
            },
            Err(AuthorityError::Unavailable) => pause,
            Err(error) => (Bootstrap::Finished, BootstrapAction::Fail(error)),
        },
        (Bootstrap::Claiming { .. }, BootstrapEvent::Written(reply)) => match reply {
            Ok(_) => (Bootstrap::Finished, BootstrapAction::Serve),
            Err(error) => if transient(error) {
                pause
            } else {
                (Bootstrap::Finished, BootstrapAction::Fail(error))
            },
        },
        (
            Bootstrap::ReadingToChallenge { placement, nonce: own, challenged_at: at },
            BootstrapEvent::Session(reply),
        ) => {
            match reply {
                Ok(Some(found)) => match found.record {
                    HostSessionRecord::Challenge { session: s, nonce: n, challenged_at, .. } => (
                        Bootstrap::Waiting { placement, session: s, nonce: n },
                        BootstrapAction::Wait(
                            sat_sub(sat_add(challenged_at, config.challenge_interval), now),
                        ),
                    ),
                    HostSessionRecord::Active { epoch, session: s } => (
                        Bootstrap::Challenging { placement },
                        BootstrapAction::Write(
                            found.replacement(
                                HostSessionRecord::Challenge {
                                    epoch,
                                    session: s,
                                    nonce: at_least_one(own),
                                    challenged_at: at,
                                },
                            ),
                        ),
                    ),
                    HostSessionRecord::Revoked { .. } => (
                        Bootstrap::Finished,
                        BootstrapAction::Fail(AuthorityError::Fenced),
                    ),
                },
                Ok(None) => (Bootstrap::Finished, BootstrapAction::Fail(AuthorityError::Fenced)),
                Err(error) => if transient(error) {
                    pause
                } else {
                    (Bootstrap::Finished, BootstrapAction::Fail(error))
                },
            }
        },
        (Bootstrap::Challenging { placement }, BootstrapEvent::Written(reply)) => match reply {
            Ok(found) => match found.record {
                HostSessionRecord::Challenge { session: s, nonce: n, challenged_at, .. } => (
                    Bootstrap::Waiting { placement, session: s, nonce: n },
                    BootstrapAction::Wait(
                        sat_sub(sat_add(challenged_at, config.challenge_interval), now),
                    ),
                ),
                _ => pause,
            },
            Err(error) => if transient(error) {
                pause
            } else {
                (Bootstrap::Finished, BootstrapAction::Fail(error))
            },
        },
        (Bootstrap::Waiting { placement, session: s, nonce: n }, BootstrapEvent::Elapsed) => (
            Bootstrap::ReadingChallenged { placement, session: s, nonce: n },
            BootstrapAction::ReadSession,
        ),
        (
            Bootstrap::ReadingChallenged { placement, session: s, nonce: n },
            BootstrapEvent::Session(reply),
        ) => match reply {
            Ok(Some(found)) => match found.record {
                HostSessionRecord::Challenge { epoch, session: fs, nonce: fn_, .. } => if fs == s
                    && fn_ == n {
                    (
                        Bootstrap::Revoking { placement },
                        BootstrapAction::Write(
                            found.replacement(HostSessionRecord::Revoked { epoch }),
                        ),
                    )
                } else {
                    again
                },
                _ => again,
            },
            Ok(None) => pause,
            Err(error) => if transient(error) {
                pause
            } else {
                (Bootstrap::Finished, BootstrapAction::Fail(error))
            },
        },
        (Bootstrap::Revoking { placement }, BootstrapEvent::Written(reply)) => match reply {
            Ok(found) => match found.record {
                HostSessionRecord::Revoked { epoch } => if epoch < u64::MAX {
                    (
                        Bootstrap::Succeeding { placement },
                        BootstrapAction::Write(
                            found.replacement(
                                HostSessionRecord::Active { epoch: (epoch + 1) as u64, session },
                            ),
                        ),
                    )
                } else {
                    (Bootstrap::Finished, BootstrapAction::Fail(AuthorityError::Invalid))
                },
                _ => (Bootstrap::Finished, BootstrapAction::Fail(AuthorityError::Invalid)),
            },
            Err(error) => if transient(error) {
                again
            } else {
                (Bootstrap::Finished, BootstrapAction::Fail(error))
            },
        },
        (Bootstrap::Succeeding { .. }, BootstrapEvent::Written(reply)) => match reply {
            Ok(_) => (Bootstrap::Finished, BootstrapAction::Serve),
            Err(error) => if transient(error) {
                again
            } else {
                (Bootstrap::Finished, BootstrapAction::Fail(error))
            },
        },
        _ => again,
    }
}

/// The record a host goes by once it serves: the one it found or wrote last.
pub open spec fn served_session(event: BootstrapEvent) -> Option<VersionedSession> {
    match event {
        BootstrapEvent::Session(Ok(Some(found))) => Some(found),
        BootstrapEvent::Written(Ok(found)) => Some(found),
        _ => None,
    }
}

/// Whether a host may try to act under its name at all: no authority is
/// configured, or its timing makes sense. Without one it serves at once.
pub fn bootstrap_host_authority(config: Option<AuthorityHostConfig>) -> (start: Result<
    Option<AuthorityHostConfig>,
    AuthorityError,
>)
    ensures
        start == (match config {
            None => Ok(None),
            Some(c) => if c.valid() {
                Ok(Some(c))
            } else {
                Err(AuthorityError::Invalid)
            },
        }),
{
    match config {
        None => Ok(None),
        Some(c) => {
            if c.cluster_id == 0 || c.poll_interval == 0 || c.max_poll_staleness < c.poll_interval
                || c.challenge_interval <= c.max_poll_staleness {
                Err(AuthorityError::Invalid)
            } else {
                Ok(Some(c))
            }
        },
    }
}

fn wait_for_answer(
    config: AuthorityHostConfig,
    placement: ClusterPlacement,
    session: u64,
    nonce: u64,
    challenged_at: u64,
    now: u64,
) -> (next: (Bootstrap, BootstrapAction))
    ensures
        next == (
            Bootstrap::Waiting { placement, session, nonce },
            BootstrapAction::Wait(sat_sub(sat_add(challenged_at, config.challenge_interval), now)),
        ),
{
    let deadline: u64 = challenged_at.saturating_add(config.challenge_interval);
    (Bootstrap::Waiting { placement, session, nonce }, BootstrapAction::Wait(
        deadline.saturating_sub(now),
    ))
}

/// Takes one event on the way to acting under the host's name.
pub fn bootstrap_step(
    lease: &mut LeaseHost,
    config: AuthorityHostConfig,
    session: u64,
    state: Bootstrap,
    event: BootstrapEvent,
    now: u64,
    nonce: u64,
) -> (next: (Bootstrap, BootstrapAction))
    requires
        session != 0,
        state.expects(event),
    ensures
        next == bootstrap_next(config, old(lease).host, session, state, event, now, nonce),
        next.1 == BootstrapAction::Serve ==> *final(lease) == (LeaseHost {
            authority: HostAuthority {
                session: Some(session),
                host_epoch: served_session(event)->0.record.epoch(),
                serving: true,
                last_poll: now,
                placement: state.placement(),
            },
            ..*old(lease)
        }),
        next.1 != BootstrapAction::Serve ==> *final(lease) == *old(lease),
{
    let pause = BootstrapAction::Wait(config.poll_interval);
    match (state, event) {
        (Bootstrap::ReadingPlacement, BootstrapEvent::Placement(reply)) => match reply {
            Ok(Some(proof)) => if proof.placement.cluster_id == config.cluster_id {
                (
                    Bootstrap::ReadingSession { placement: proof.placement },
                    BootstrapAction::ReadSession,
                )
            } else {
                (Bootstrap::Finished, BootstrapAction::Fail(AuthorityError::Invalid))
            },
            Ok(None) => (Bootstrap::Finished, BootstrapAction::Fail(AuthorityError::Fenced)),
            Err(AuthorityError::Unavailable) => (Bootstrap::Pausing, pause),
            Err(error) => (Bootstrap::Finished, BootstrapAction::Fail(error)),
        },
        (Bootstrap::ReadingSession { placement }, BootstrapEvent::Session(reply)) => match reply {
            Ok(None) => match create_host_session(lease.host, session) {
                Ok(write) => (Bootstrap::Claiming { placement }, BootstrapAction::Write(write)),
                Err(error) => (Bootstrap::Finished, BootstrapAction::Fail(error)),
            },
            Ok(Some(found)) => match found.record {
                HostSessionRecord::Active { session: s, .. } => if s == session {
                    serve(lease, session, found, placement, now)
                } else {
                    (
                        Bootstrap::ReadingToChallenge { placement, nonce, challenged_at: now },
                        BootstrapAction::ReadSession,
                    )
                },
                HostSessionRecord::Revoked { .. } => match activate_host_session(found, session) {
                    Ok(write) => (Bootstrap::Claiming { placement }, BootstrapAction::Write(write)),
                    Err(error) => (Bootstrap::Finished, BootstrapAction::Fail(error)),
                },
                HostSessionRecord::Challenge { .. } => (Bootstrap::Pausing, pause),
            },
            Err(AuthorityError::Unavailable) => (Bootstrap::Pausing, pause),
            Err(error) => (Bootstrap::Finished, BootstrapAction::Fail(error)),
        },
        (Bootstrap::Claiming { placement }, BootstrapEvent::Written(reply)) => match reply {
            Ok(found) => serve(lease, session, found, placement, now),
            Err(error) => if is_transient(error) {
                (Bootstrap::Pausing, pause)
            } else {
                (Bootstrap::Finished, BootstrapAction::Fail(error))
            },
        },
        (
            Bootstrap::ReadingToChallenge { placement, nonce: own, challenged_at: at },
            BootstrapEvent::Session(reply),
        ) => {
            let observed = match reply {
                Ok(observed) => observed,
                Err(error) => {
                    return if is_transient(error) {
                        (Bootstrap::Pausing, pause)
                    } else {
                        (Bootstrap::Finished, BootstrapAction::Fail(error))
                    };
                },
            };
            let own: u64 = if own == 0 {
                1
            } else {
                own
            };
            match challenge_host_session(observed, own, at) {
                Ok(SessionPlan::Settled(found)) => match found.record {
                    HostSessionRecord::Challenge { session: s, nonce: n, challenged_at, .. } =>
                    wait_for_answer(config, placement, s, n, challenged_at, now),
                    _ => (Bootstrap::Pausing, pause),
                },
                Ok(SessionPlan::Write(write)) => (
                    Bootstrap::Challenging { placement },
                    BootstrapAction::Write(write),
                ),
                Err(error) => (Bootstrap::Finished, BootstrapAction::Fail(error)),
            }
        },
        (Bootstrap::Challenging { placement }, BootstrapEvent::Written(reply)) => match reply {
            Ok(found) => match found.record {
                HostSessionRecord::Challenge { session: s, nonce: n, challenged_at, .. } =>
                wait_for_answer(config, placement, s, n, challenged_at, now),
                _ => (Bootstrap::Pausing, pause),
            },
            Err(error) => if is_transient(error) {
                (Bootstrap::Pausing, pause)
            } else {
                (Bootstrap::Finished, BootstrapAction::Fail(error))
            },
        },
        (Bootstrap::Waiting { placement, session: s, nonce: n }, BootstrapEvent::Elapsed) => (
            Bootstrap::ReadingChallenged { placement, session: s, nonce: n },
            BootstrapAction::ReadSession,
        ),
        (
            Bootstrap::ReadingChallenged { placement, session: s, nonce: n },
            BootstrapEvent::Session(reply),
        ) => match reply {
            Ok(Some(found)) => match found.record {
                HostSessionRecord::Challenge { session: fs, nonce: fn_, .. } => if fs == s && fn_
                    == n {
                    match revoke_host_session(found, n) {
                        Ok(write) => (
                            Bootstrap::Revoking { placement },
                            BootstrapAction::Write(write),
                        ),
                        Err(error) => (Bootstrap::Finished, BootstrapAction::Fail(error)),
                    }
                } else {
                    (Bootstrap::ReadingPlacement, BootstrapAction::ReadPlacement)
                },
                _ => (Bootstrap::ReadingPlacement, BootstrapAction::ReadPlacement),
            },
            Ok(None) => (Bootstrap::Pausing, pause),
            Err(error) => if is_transient(error) {
                (Bootstrap::Pausing, pause)
            } else {
                (Bootstrap::Finished, BootstrapAction::Fail(error))
            },
        },
        (Bootstrap::Revoking { placement }, BootstrapEvent::Written(reply)) => match reply {
            Ok(found) => match activate_host_session(found, session) {
                Ok(write) => (Bootstrap::Succeeding { placement }, BootstrapAction::Write(write)),
                Err(error) => (Bootstrap::Finished, BootstrapAction::Fail(error)),
            },
            Err(error) => if is_transient(error) {
                (Bootstrap::ReadingPlacement, BootstrapAction::ReadPlacement)
            } else {
                (Bootstrap::Finished, BootstrapAction::Fail(error))
            },
        },
        (Bootstrap::Succeeding { placement }, BootstrapEvent::Written(reply)) => match reply {
            Ok(found) => serve(lease, session, found, placement, now),
            Err(error) => if is_transient(error) {
                (Bootstrap::ReadingPlacement, BootstrapAction::ReadPlacement)
            } else {
                (Bootstrap::Finished, BootstrapAction::Fail(error))
            },
        },
        _ => (Bootstrap::ReadingPlacement, BootstrapAction::ReadPlacement),
    }
}

fn serve(
    lease: &mut LeaseHost,
    session: u64,
    found: VersionedSession,
    placement: ClusterPlacement,
    now: u64,
) -> (next: (Bootstrap, BootstrapAction))
    ensures
        next == (Bootstrap::Finished, BootstrapAction::Serve),
        *final(lease) == (LeaseHost {
            authority: HostAuthority {
                session: Some(session),
                host_epoch: found.record.epoch(),
                serving: true,
                last_poll: now,
                placement: Some(placement),
            },
            ..*old(lease)
        }),
{
    lease.authority = HostAuthority {
        session: Some(session),
        host_epoch: found.record.epoch(),
        serving: true,
        last_poll: now,
        placement: Some(placement),
    };
    (Bootstrap::Finished, BootstrapAction::Serve)
}

/// A session is revoked only if it was found challenged, with the nonce that
/// this host waited out, right before.
pub proof fn revocation_needs_an_unanswered_challenge(
    config: AuthorityHostConfig,
    host: HostId,
    session: u64,
    state: Bootstrap,
    event: BootstrapEvent,
    now: u64,
    nonce: u64,
    write: SessionWrite,
)
    requires
        state.expects(event),
        bootstrap_next(config, host, session, state, event, now, nonce).1
            == BootstrapAction::Write(write),
        write.record is Revoked,
    ensures
        state is ReadingChallenged,
        event matches BootstrapEvent::Session(Ok(Some(found))) && write_follows(write, found)
            && found.record->Challenge_nonce == state->ReadingChallenged_nonce
            && found.record->Challenge_session == state->ReadingChallenged_session,
{
}

/// A challenged session gets the whole challenge interval: the wait ends no
/// sooner than that long after the challenge was written.
pub proof fn a_challenge_runs_its_course(
    config: AuthorityHostConfig,
    host: HostId,
    session: u64,
    state: Bootstrap,
    event: BootstrapEvent,
    now: u64,
    nonce: u64,
    challenged: VersionedSession,
)
    requires
        state.expects(event),
        state is Challenging || state is ReadingToChallenge,
        served_session(event) == Some(challenged),
        challenged.record is Challenge,
        challenged.record->challenged_at + config.challenge_interval <= u64::MAX,
    ensures
        bootstrap_next(config, host, session, state, event, now, nonce).0 is Waiting,
        bootstrap_next(config, host, session, state, event, now, nonce).1
            matches BootstrapAction::Wait(ticks) && now + ticks
            >= challenged.record->challenged_at + config.challenge_interval,
{
}

/// A host starts serving only on a record of its own: one that names its
/// session, or the answer to its own write of one.
pub proof fn serving_needs_the_own_record(
    config: AuthorityHostConfig,
    host: HostId,
    session: u64,
    state: Bootstrap,
    event: BootstrapEvent,
    now: u64,
    nonce: u64,
)
    requires
        state.expects(event),
        bootstrap_next(config, host, session, state, event, now, nonce).1
            == BootstrapAction::Serve,
    ensures
        state.placement() is Some,
        served_session(event) is Some,
        event is Session ==> served_session(event)->0.record.session() == Some(session)
            && served_session(event)->0.record is Active,
        event is Written ==> state is Claiming || state is Succeeding,
{
}

// ---------------------------------------------------------------------------
// Keeping the name
// ---------------------------------------------------------------------------

#[derive(Clone, Copy, Debug, PartialEq, Eq, Structural)]
pub enum MonitorAction {
    /// Look again after the poll interval.
    Sleep,
    /// Read the host's record, but give up after so many ticks.
    ReadSession { session: u64, within: u64 },
    ReadPlacement { observed: VersionedSession },
    /// Read the record again in order to answer a challenge.
    ReadToDefend { session: u64 },
    Defend(SessionWrite),
    Stop,
}

/// The host stops acting for good.
fn self_fence(lease: &mut LeaseHost)
    requires
        old(lease).counters.self_fences < u64::MAX,
    ensures
        fenced(*old(lease), *final(lease)),
{
    lease.authority.serving = false;
    lease.counters.self_fences = lease.counters.self_fences + 1;
    fail(lease, "host session fenced");
}

fn fail(lease: &mut LeaseHost, reason: &'static str)
    ensures
        failed(*old(lease), *final(lease), reason@),
{
    if lease.fatal.is_none() {
        lease.fatal = Some(HostFatal::new(reason));
    }
}

/// `after` is `before` with the host fenced.
pub open spec fn fenced(before: LeaseHost, after: LeaseHost) -> bool {
    &&& after == (LeaseHost {
        authority: HostAuthority { serving: false, ..before.authority },
        counters: LeaseCounters {
            self_fences: (before.counters.self_fences + 1) as u64,
            ..before.counters
        },
        fatal: after.fatal,
        ..before
    })
    &&& first_failure(before.fatal, after.fatal, "host session fenced"@)
}

/// `after` is `before` with a failure recorded.
pub open spec fn failed(before: LeaseHost, after: LeaseHost, reason: Seq<char>) -> bool {
    &&& after == (LeaseHost { fatal: after.fatal, ..before })
    &&& first_failure(before.fatal, after.fatal, reason)
}

/// The first failure of a host is the one that is kept.
pub open spec fn first_failure(
    before: Option<HostFatal>,
    after: Option<HostFatal>,
    reason: Seq<char>,
) -> bool {
    match before {
        Some(_) => after == before,
        None => after is Some && after->0.reason@ == reason,
    }
}

/// The poll interval passed: look at the record, unless the last successful
/// look is too old to act on.
pub fn monitor_wake(lease: &mut LeaseHost, config: AuthorityHostConfig, now: u64) -> (action:
    MonitorAction)
    requires
        old(lease).counters.countable(),
    ensures
        ({
            let counted = LeaseHost {
                counters: LeaseCounters {
                    gets: (old(lease).counters.gets + 1) as u64,
                    ..old(lease).counters
                },
                ..*old(lease)
            };
            let left = sat_sub(
                sat_add(old(lease).authority.last_poll, config.max_poll_staleness),
                now,
            );
            match old(lease).authority.session {
                None => action == MonitorAction::Stop && failed(
                    *old(lease),
                    *final(lease),
                    "host authority session missing"@,
                ),
                Some(session) => if left == 0 {
                    action == MonitorAction::Stop && fenced(counted, *final(lease))
                } else {
                    action == (MonitorAction::ReadSession { session, within: left })
                        && *final(lease) == counted
                },
            }
        }),
{
    let session: u64 = match lease.authority.session {
        Some(session) => session,
        None => {
            fail(lease, "host authority session missing");
            return MonitorAction::Stop;
        },
    };
    lease.counters.gets = lease.counters.gets + 1;
    let deadline: u64 = lease.authority.last_poll.saturating_add(config.max_poll_staleness);
    let left: u64 = deadline.saturating_sub(now);
    if left == 0 {
        self_fence(lease);
        return MonitorAction::Stop;
    }
    MonitorAction::ReadSession { session, within: left }
}

/// The read of the record did not come back in time.
pub fn monitor_deadline(lease: &mut LeaseHost) -> (action: MonitorAction)
    requires
        old(lease).counters.countable(),
    ensures
        action == MonitorAction::Stop,
        fenced(*old(lease), *final(lease)),
{
    self_fence(lease);
    MonitorAction::Stop
}

/// The record was read, or could not be.
pub fn monitor_session_read(
    lease: &mut LeaseHost,
    config: AuthorityHostConfig,
    session: u64,
    last_success: u64,
    observed: Result<Option<VersionedSession>, AuthorityError>,
    now: u64,
) -> (action: MonitorAction)
    requires
        old(lease).counters.countable(),
    ensures
        match observed {
            Ok(Some(found)) => match found.record {
                HostSessionRecord::Active { session: s, .. } => if s == session {
                    action == (MonitorAction::ReadPlacement { observed: found }) && *final(lease)
                        == *old(lease)
                } else {
                    action == MonitorAction::Stop && fenced(*old(lease), *final(lease))
                },
                HostSessionRecord::Challenge { session: s, .. } => if s == session {
                    action == (MonitorAction::ReadToDefend { session }) && *final(lease) == (
                    LeaseHost {
                        authority: HostAuthority {
                            last_poll: now,
                            serving: false,
                            ..old(lease).authority
                        },
                        counters: LeaseCounters {
                            challenges: (old(lease).counters.challenges + 1) as u64,
                            ..old(lease).counters
                        },
                        ..*old(lease)
                    })
                } else {
                    action == MonitorAction::Stop && fenced(*old(lease), *final(lease))
                },
                HostSessionRecord::Revoked { .. } => action == MonitorAction::Stop && fenced(
                    *old(lease),
                    *final(lease),
                ),
            },
            Err(AuthorityError::Unavailable) => if sat_sub(now, last_success)
                < config.max_poll_staleness {
                action == MonitorAction::Sleep && *final(lease) == *old(lease)
            } else {
                action == MonitorAction::Stop && fenced(*old(lease), *final(lease))
            },
            _ => action == MonitorAction::Stop && fenced(*old(lease), *final(lease)),
        },
{
    match observed {
        Ok(Some(found)) => match found.record {
            HostSessionRecord::Active { session: s, .. } if s == session => {
                return MonitorAction::ReadPlacement { observed: found };
            },
            HostSessionRecord::Challenge { session: s, .. } if s == session => {
                lease.authority.last_poll = now;
                lease.authority.serving = false;
                lease.counters.challenges = lease.counters.challenges + 1;
                return MonitorAction::ReadToDefend { session };
            },
            _ => {},
        },
        Err(AuthorityError::Unavailable) => {
            if now.saturating_sub(last_success) < config.max_poll_staleness {
                return MonitorAction::Sleep;
            }
        },
        _ => {},
    }
    self_fence(lease);
    MonitorAction::Stop
}

/// The placement was read after the host found its record intact.
pub fn monitor_placement_read(
    lease: &mut LeaseHost,
    config: AuthorityHostConfig,
    observed: VersionedSession,
    placement: Result<Option<PlacementProof>, AuthorityError>,
    now: u64,
) -> (action: MonitorAction)
    ensures
        match placement {
            Ok(Some(proof)) => if proof.placement.cluster_id != config.cluster_id {
                action == MonitorAction::Stop && failed(
                    *old(lease),
                    *final(lease),
                    "host authority placement belongs to another cluster"@,
                )
            } else {
                action == MonitorAction::Sleep && *final(lease) == (LeaseHost {
                    authority: HostAuthority {
                        session: old(lease).authority.session,
                        host_epoch: observed.record.epoch(),
                        serving: true,
                        last_poll: now,
                        placement: Some(proof.placement),
                    },
                    ..*old(lease)
                })
            },
            _ => action == MonitorAction::Sleep && *final(lease) == *old(lease),
        },
{
    match placement {
        Ok(Some(proof)) => {
            if proof.placement.cluster_id != config.cluster_id {
                fail(lease, "host authority placement belongs to another cluster");
                return MonitorAction::Stop;
            }
            lease.authority.last_poll = now;
            lease.authority.host_epoch = observed.record.epoch();
            lease.authority.serving = true;
            lease.authority.placement = Some(proof.placement);
            MonitorAction::Sleep
        },
        _ => MonitorAction::Sleep,
    }
}

/// The record was read again in order to answer a challenge.
pub fn monitor_defend(
    lease: &mut LeaseHost,
    session: u64,
    observed: Result<Option<VersionedSession>, AuthorityError>,
    now: u64,
) -> (action: MonitorAction)
    requires
        old(lease).counters.countable(),
    ensures
        match observed {
            Ok(Some(found)) => match found.record {
                HostSessionRecord::Active { session: s, .. } => if s == session {
                    action == MonitorAction::Sleep && defended(
                        *old(lease),
                        *final(lease),
                        found,
                        now,
                    )
                } else {
                    action == MonitorAction::Stop && fenced(*old(lease), *final(lease))
                },
                HostSessionRecord::Challenge { epoch, session: s, .. } => if s == session {
                    action == MonitorAction::Defend(
                        found.replacement(HostSessionRecord::Active { epoch, session }),
                    ) && *final(lease) == *old(lease)
                } else {
                    action == MonitorAction::Stop && fenced(*old(lease), *final(lease))
                },
                HostSessionRecord::Revoked { .. } => action == MonitorAction::Stop && fenced(
                    *old(lease),
                    *final(lease),
                ),
            },
            Err(AuthorityError::Unavailable) => action == MonitorAction::Sleep && *final(lease)
                == *old(lease),
            _ => action == MonitorAction::Stop && fenced(*old(lease), *final(lease)),
        },
{
    let found = match observed {
        Ok(found) => found,
        Err(AuthorityError::Unavailable) => {
            return MonitorAction::Sleep;
        },
        Err(_) => {
            self_fence(lease);
            return MonitorAction::Stop;
        },
    };
    match poll_or_defend_host_session(session, found) {
        Ok(SessionPlan::Settled(PollSession::Active(active))) => monitor_defended(
            lease,
            Ok(active),
            now,
        ),
        Ok(SessionPlan::Settled(PollSession::Defended(active))) => monitor_defended(
            lease,
            Ok(active),
            now,
        ),
        Ok(SessionPlan::Write(write)) => MonitorAction::Defend(write),
        Err(_) => {
            self_fence(lease);
            MonitorAction::Stop
        },
    }
}

/// `after` is `before` after a challenge was answered.
pub open spec fn defended(
    before: LeaseHost,
    after: LeaseHost,
    session: VersionedSession,
    now: u64,
) -> bool {
    after == (LeaseHost {
        authority: HostAuthority {
            last_poll: now,
            host_epoch: session.record.epoch(),
            serving: true,
            ..before.authority
        },
        counters: LeaseCounters {
            defenses: (before.counters.defenses + 1) as u64,
            ..before.counters
        },
        ..before
    })
}

/// The answer to a challenge was written, or could not be.
pub fn monitor_defended(
    lease: &mut LeaseHost,
    outcome: Result<VersionedSession, AuthorityError>,
    now: u64,
) -> (action: MonitorAction)
    requires
        old(lease).counters.countable(),
    ensures
        match outcome {
            Ok(session) => action == MonitorAction::Sleep && defended(
                *old(lease),
                *final(lease),
                session,
                now,
            ),
            Err(AuthorityError::Unavailable) => action == MonitorAction::Sleep && *final(lease)
                == *old(lease),
            Err(_) => action == MonitorAction::Stop && fenced(*old(lease), *final(lease)),
        },
{
    match outcome {
        Ok(session) => {
            lease.authority.last_poll = now;
            lease.authority.host_epoch = session.record.epoch();
            lease.authority.serving = true;
            lease.counters.defenses = lease.counters.defenses + 1;
            MonitorAction::Sleep
        },
        Err(AuthorityError::Unavailable) => MonitorAction::Sleep,
        Err(_) => {
            self_fence(lease);
            MonitorAction::Stop
        },
    }
}

// ---------------------------------------------------------------------------
// Acting under the name
// ---------------------------------------------------------------------------

/// Whether a host may act at `now`: its record was its own when it last
/// looked, and that look is recent enough.
pub open spec fn may_act(authority: HostAuthority, config: AuthorityHostConfig, now: u64) -> bool {
    &&& authority.serving
    &&& authority.session is Some
    &&& sat_sub(now, authority.last_poll) < config.max_poll_staleness
}

/// Whether work may be admitted at `now`. A host that was stopped and resumed
/// finds out here, before its monitor runs.
pub fn authorized(
    authority: &HostAuthority,
    config: Option<AuthorityHostConfig>,
    now: u64,
) -> (yes: bool)
    ensures
        yes == (match config {
            None => true,
            Some(c) => may_act(*authority, c, now),
        }),
{
    match config {
        None => true,
        Some(c) => authority.serving && authority.session.is_some() && now.saturating_sub(
            authority.last_poll,
        ) < c.max_poll_staleness,
    }
}

/// A host that was challenged no sooner than it last saw its record intact
/// stops acting before anyone may revoke it, whether or not its monitor runs.
pub proof fn old_host_stops_before_revocation(
    authority: HostAuthority,
    config: AuthorityHostConfig,
    challenged_at: u64,
    revoked_at: u64,
)
    requires
        config.valid(),
        authority.last_poll <= challenged_at,
        challenged_at + config.challenge_interval <= revoked_at,
    ensures
        !may_act(authority, config, revoked_at),
{
}

} // verus!
