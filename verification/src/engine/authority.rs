//! Reading and replacing the cluster's placement and a host's session record
//! through compare-and-swap.
//!
//! Each operation that writes comes in two halves: one decides what to write,
//! or why not to, and one turns the store's reply into the outcome.

use crate::authority::{session_step, HostSessionRecord};
use crate::placement::{placement_follows, valid_placement_transition, ClusterPlacement};
use crate::store::{StoreError, StoreFault};
use crate::types::HostId;
use vstd::prelude::*;

verus! {

#[derive(Clone, Copy, Debug, PartialEq, Eq, Structural)]
pub enum AuthorityError {
    Unavailable,
    Conflict,
    Corrupt,
    Fenced,
    Invalid,
}

/// A session record as found in, or written to, the store.
#[derive(Clone, Copy, Debug, PartialEq, Eq, Structural)]
pub struct VersionedSession {
    pub host: HostId,
    pub store_version: u64,
    pub record: HostSessionRecord,
}

/// A session record to be written if the stored one still has `expected` as
/// its version; no version means that there must be none yet.
#[derive(Clone, Copy, Debug, PartialEq, Eq, Structural)]
pub struct SessionWrite {
    pub host: HostId,
    pub expected: Option<u64>,
    pub record: HostSessionRecord,
}

#[derive(Clone, Copy, Debug, PartialEq, Eq, Structural)]
pub enum PollSession {
    Active(VersionedSession),
    Defended(VersionedSession),
}

/// A placement as found in, or written to, the store.
pub struct PlacementProof {
    pub store_version: u64,
    pub placement: ClusterPlacement,
}

pub open spec fn authority_error(error: StoreError) -> AuthorityError {
    match error {
        StoreError::Fault(StoreFault::Unavailable) => AuthorityError::Unavailable,
        StoreError::Fault(StoreFault::CasConflict { .. }) => AuthorityError::Conflict,
        StoreError::TooLarge => AuthorityError::Invalid,
    }
}

fn map_store_error(error: StoreError) -> (mapped: AuthorityError)
    ensures
        mapped == authority_error(error),
{
    match error {
        StoreError::Fault(StoreFault::Unavailable) => AuthorityError::Unavailable,
        StoreError::Fault(StoreFault::CasConflict { .. }) => AuthorityError::Conflict,
        StoreError::TooLarge => AuthorityError::Invalid,
    }
}

impl SessionWrite {
    /// What the writer holds after the store answered.
    pub open spec fn outcome(self, reply: Result<u64, StoreError>) -> Result<
        VersionedSession,
        AuthorityError,
    > {
        match reply {
            Ok(store_version) => Ok(
                VersionedSession { host: self.host, store_version, record: self.record },
            ),
            Err(error) => Err(authority_error(error)),
        }
    }

    pub fn finish(self, reply: Result<u64, StoreError>) -> (session: Result<
        VersionedSession,
        AuthorityError,
    >)
        ensures
            session == self.outcome(reply),
    {
        match reply {
            Ok(store_version) => Ok(
                VersionedSession { host: self.host, store_version, record: self.record },
            ),
            Err(error) => Err(map_store_error(error)),
        }
    }
}

impl VersionedSession {
    /// The write that puts `record` in the place of this one.
    pub open spec fn replacement(self, record: HostSessionRecord) -> SessionWrite {
        SessionWrite { host: self.host, expected: Some(self.store_version), record }
    }

    fn replace(self, record: HostSessionRecord) -> (write: SessionWrite)
        ensures
            write == self.replacement(record),
    {
        SessionWrite { host: self.host, expected: Some(self.store_version), record }
    }

    fn defend(self, session: u64, nonce: u64) -> (write: Result<SessionWrite, AuthorityError>)
        ensures
            write == (match self.record {
                HostSessionRecord::Challenge { epoch, session: s, nonce: n, .. } if s == session
                    && n == nonce => Ok(
                    self.replacement(HostSessionRecord::Active { epoch, session }),
                ),
                _ => Err(AuthorityError::Invalid),
            }),
    {
        match self.record.defend(session, nonce) {
            Ok(defended) => Ok(self.replace(defended)),
            Err(_) => Err(AuthorityError::Invalid),
        }
    }

    fn challenge(self, nonce: u64, challenged_at: u64) -> (write: Result<
        SessionWrite,
        AuthorityError,
    >)
        ensures
            write == (match self.record {
                HostSessionRecord::Active { epoch, session } if nonce != 0 => Ok(
                    self.replacement(
                        HostSessionRecord::Challenge { epoch, session, nonce, challenged_at },
                    ),
                ),
                _ => Err(AuthorityError::Fenced),
            }),
    {
        match self.record.challenge(nonce, challenged_at) {
            Ok(next) => Ok(self.replace(next)),
            Err(_) => Err(AuthorityError::Fenced),
        }
    }

    fn revoke(self, nonce: u64) -> (write: Result<SessionWrite, AuthorityError>)
        ensures
            write == (match self.record {
                HostSessionRecord::Challenge { epoch, nonce: n, .. } if n == nonce => Ok(
                    self.replacement(HostSessionRecord::Revoked { epoch }),
                ),
                _ => Err(AuthorityError::Invalid),
            }),
    {
        match self.record.revoke(nonce) {
            Ok(revoked) => Ok(self.replace(revoked)),
            Err(_) => Err(AuthorityError::Invalid),
        }
    }

    fn activate(self, session: u64) -> (write: Result<SessionWrite, AuthorityError>)
        ensures
            write == (match self.record {
                HostSessionRecord::Revoked { epoch } if session != 0 && epoch < u64::MAX => Ok(
                    self.replacement(
                        HostSessionRecord::Active { epoch: (epoch + 1) as u64, session },
                    ),
                ),
                _ => Err(AuthorityError::Invalid),
            }),
    {
        match self.record.activate(session) {
            Ok(active) => Ok(self.replace(active)),
            Err(_) => Err(AuthorityError::Invalid),
        }
    }
}

/// What was found where the placement is kept: nothing, or a version and the
/// placement in it if the stored bytes are one.
pub fn read_placement(found: Result<Option<(u64, Option<ClusterPlacement>)>, StoreError>) -> (proof:
    Result<Option<PlacementProof>, AuthorityError>)
    ensures
        proof == (match found {
            Ok(None) => Ok(None),
            Ok(Some((store_version, Some(placement)))) => Ok(
                Some(PlacementProof { store_version, placement }),
            ),
            Ok(Some((_, None))) => Err(AuthorityError::Corrupt),
            Err(error) => Err(authority_error(error)),
        }),
{
    match found {
        Ok(None) => Ok(None),
        Ok(Some((store_version, decoded))) => match decoded {
            Some(placement) => Ok(Some(PlacementProof { store_version, placement })),
            None => Err(AuthorityError::Corrupt),
        },
        Err(error) => Err(map_store_error(error)),
    }
}

/// Whether `next` may be written over `expected`, and the version the stored
/// placement must still have.
pub fn cas_placement(expected: Option<&PlacementProof>, next: &ClusterPlacement) -> (write: Result<
    Option<u64>,
    AuthorityError,
>)
    ensures
        write == (if next.valid() && (match expected {
            None => next.epoch == 1,
            Some(previous) => placement_follows(previous.placement, *next),
        }) {
            Ok(
                match expected {
                    None => None::<u64>,
                    Some(previous) => Some(previous.store_version),
                },
            )
        } else {
            Err(AuthorityError::Invalid)
        }),
{
    if !next.validate() {
        return Err(AuthorityError::Invalid);
    }
    match expected {
        None => if next.epoch != 1 {
            Err(AuthorityError::Invalid)
        } else {
            Ok(None)
        },
        Some(previous) => if valid_placement_transition(&previous.placement, next) {
            Ok(Some(previous.store_version))
        } else {
            Err(AuthorityError::Invalid)
        },
    }
}

/// The proof of a placement after the store answered its write.
pub fn placement_written(next: ClusterPlacement, reply: Result<u64, StoreError>) -> (proof: Result<
    PlacementProof,
    AuthorityError,
>)
    ensures
        proof == (match reply {
            Ok(store_version) => Ok(PlacementProof { store_version, placement: next }),
            Err(error) => Err(authority_error(error)),
        }),
{
    match reply {
        Ok(store_version) => Ok(PlacementProof { store_version, placement: next }),
        Err(error) => Err(map_store_error(error)),
    }
}

/// The first record of `host`, to be written where there is none.
pub fn create_host_session(host: HostId, session: u64) -> (write: Result<
    SessionWrite,
    AuthorityError,
>)
    ensures
        write == (if session == 0 {
            Err(AuthorityError::Invalid)
        } else {
            Ok(
                SessionWrite {
                    host,
                    expected: None,
                    record: HostSessionRecord::Active { epoch: 1, session },
                },
            )
        }),
{
    match HostSessionRecord::initial(session) {
        Ok(record) => Ok(SessionWrite { host, expected: None, record }),
        Err(_) => Err(AuthorityError::Invalid),
    }
}

/// What was found where the record of `host` is kept: nothing, or a version
/// and the record in it if the stored bytes are one.
pub fn read_host_session(
    host: HostId,
    found: Result<Option<(u64, Option<HostSessionRecord>)>, StoreError>,
) -> (session: Result<Option<VersionedSession>, AuthorityError>)
    ensures
        session == (match found {
            Ok(None) => Ok(None),
            Ok(Some((store_version, Some(record)))) => Ok(
                Some(VersionedSession { host, store_version, record }),
            ),
            Ok(Some((_, None))) => Err(AuthorityError::Corrupt),
            Err(error) => Err(authority_error(error)),
        }),
{
    match found {
        Ok(None) => Ok(None),
        Ok(Some((store_version, decoded))) => match decoded {
            Some(record) => Ok(Some(VersionedSession { host, store_version, record })),
            None => Err(AuthorityError::Corrupt),
        },
        Err(error) => Err(map_store_error(error)),
    }
}

/// What to do about an observed session: nothing more, or a write.
#[derive(Clone, Copy, Debug, PartialEq, Eq, Structural)]
pub enum SessionPlan<T> {
    Settled(T),
    Write(SessionWrite),
}

/// How `session` answers what it found under its host's name. Anything but a
/// record of its own fences it.
pub fn poll_or_defend_host_session(session: u64, observed: Option<VersionedSession>) -> (plan:
    Result<SessionPlan<PollSession>, AuthorityError>)
    ensures
        plan == (match observed {
            Some(found) => match found.record {
                HostSessionRecord::Active { session: s, .. } if s == session => Ok(
                    SessionPlan::Settled(PollSession::Active(found)),
                ),
                HostSessionRecord::Challenge { epoch, session: s, .. } if s == session => Ok(
                    SessionPlan::Write(
                        found.replacement(HostSessionRecord::Active { epoch, session }),
                    ),
                ),
                _ => Err(AuthorityError::Fenced),
            },
            None => Err(AuthorityError::Fenced),
        }),
{
    match observed {
        Some(found) => match found.record {
            HostSessionRecord::Active { session: s, .. } if s == session => Ok(
                SessionPlan::Settled(PollSession::Active(found)),
            ),
            HostSessionRecord::Challenge { session: s, nonce, .. } if s == session => {
                match found.defend(session, nonce) {
                    Ok(write) => Ok(SessionPlan::Write(write)),
                    Err(error) => Err(error),
                }
            },
            _ => Err(AuthorityError::Fenced),
        },
        None => Err(AuthorityError::Fenced),
    }
}

/// How to challenge what was found under a host's name. A challenge that is
/// already open stands.
pub fn challenge_host_session(observed: Option<VersionedSession>, nonce: u64, challenged_at: u64)
    -> (plan: Result<SessionPlan<VersionedSession>, AuthorityError>)
    ensures
        plan == (match observed {
            Some(found) => match found.record {
                HostSessionRecord::Challenge { .. } => Ok(SessionPlan::Settled(found)),
                HostSessionRecord::Active { epoch, session } if nonce != 0 => Ok(
                    SessionPlan::Write(
                        found.replacement(
                            HostSessionRecord::Challenge { epoch, session, nonce, challenged_at },
                        ),
                    ),
                ),
                _ => Err(AuthorityError::Fenced),
            },
            None => Err(AuthorityError::Fenced),
        }),
{
    match observed {
        Some(found) => match found.record {
            HostSessionRecord::Challenge { .. } => Ok(SessionPlan::Settled(found)),
            _ => match found.challenge(nonce, challenged_at) {
                Ok(write) => Ok(SessionPlan::Write(write)),
                Err(error) => Err(error),
            },
        },
        None => Err(AuthorityError::Fenced),
    }
}

/// The write that revokes a session which left the challenge `nonce`
/// unanswered.
pub fn revoke_host_session(challenged: VersionedSession, nonce: u64) -> (write: Result<
    SessionWrite,
    AuthorityError,
>)
    ensures
        write == (match challenged.record {
            HostSessionRecord::Challenge { epoch, nonce: n, .. } if n == nonce => Ok(
                challenged.replacement(HostSessionRecord::Revoked { epoch }),
            ),
            _ => Err(AuthorityError::Invalid),
        }),
{
    challenged.revoke(nonce)
}

/// The write by which `session` takes over from a revoked one.
pub fn activate_host_session(revoked: VersionedSession, session: u64) -> (write: Result<
    SessionWrite,
    AuthorityError,
>)
    ensures
        write == (match revoked.record {
            HostSessionRecord::Revoked { epoch } if session != 0 && epoch < u64::MAX => Ok(
                revoked.replacement(
                    HostSessionRecord::Active { epoch: (epoch + 1) as u64, session },
                ),
            ),
            _ => Err(AuthorityError::Invalid),
        }),
{
    revoked.activate(session)
}

/// Every write that follows from an observed record replaces exactly that
/// record, and by an allowed step: a write that lands has lost no race.
pub open spec fn write_follows(write: SessionWrite, observed: VersionedSession) -> bool {
    &&& write.host == observed.host
    &&& write.expected == Some(observed.store_version)
    &&& session_step(observed.record, write.record)
}

} // verus!
