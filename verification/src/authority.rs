//! The record by which a host proves that it is the only one acting under its
//! name.

use vstd::prelude::*;

verus! {

/// A transition that the record does not allow.
#[derive(Clone, Copy, Debug, PartialEq, Eq, Structural)]
pub struct InvalidTransition;

/// Who acts under a host's name. A session that has stopped answering is
/// challenged; unless it defends itself it is revoked, and a later session
/// takes over under a higher epoch.
#[derive(Clone, Copy, Debug, PartialEq, Eq, Structural)]
pub enum HostSessionRecord {
    Active { epoch: u64, session: u64 },
    Challenge { epoch: u64, session: u64, nonce: u64, challenged_at: u64 },
    Revoked { epoch: u64 },
}

impl HostSessionRecord {
    pub open spec fn epoch_spec(self) -> u64 {
        match self {
            HostSessionRecord::Active { epoch, .. } => epoch,
            HostSessionRecord::Challenge { epoch, .. } => epoch,
            HostSessionRecord::Revoked { epoch } => epoch,
        }
    }

    #[verifier::when_used_as_spec(epoch_spec)]
    pub fn epoch(self) -> (epoch: u64)
        ensures
            epoch == self.epoch_spec(),
    {
        match self {
            HostSessionRecord::Active { epoch, .. } => epoch,
            HostSessionRecord::Challenge { epoch, .. } => epoch,
            HostSessionRecord::Revoked { epoch } => epoch,
        }
    }

    /// The session the record belongs to, unless it was revoked.
    pub open spec fn session(self) -> Option<u64> {
        match self {
            HostSessionRecord::Active { session, .. } => Some(session),
            HostSessionRecord::Challenge { session, .. } => Some(session),
            HostSessionRecord::Revoked { .. } => None,
        }
    }

    /// The first record of a host. Session zero names nobody.
    pub fn initial(session: u64) -> (record: Result<HostSessionRecord, InvalidTransition>)
        ensures
            record == (if session == 0 {
                Err(InvalidTransition)
            } else {
                Ok(HostSessionRecord::Active { epoch: 1, session })
            }),
    {
        if session == 0 {
            Err(InvalidTransition)
        } else {
            Ok(HostSessionRecord::Active { epoch: 1, session })
        }
    }

    /// Questions an active session.
    pub fn challenge(self, nonce: u64, challenged_at: u64) -> (record: Result<
        HostSessionRecord,
        InvalidTransition,
    >)
        ensures
            record == (match self {
                HostSessionRecord::Active { epoch, session } if nonce != 0 => Ok(
                    HostSessionRecord::Challenge { epoch, session, nonce, challenged_at },
                ),
                _ => Err(InvalidTransition),
            }),
    {
        match self {
            HostSessionRecord::Active { epoch, session } if nonce != 0 => Ok(
                HostSessionRecord::Challenge { epoch, session, nonce, challenged_at },
            ),
            _ => Err(InvalidTransition),
        }
    }

    /// Answers the challenge `nonce` on behalf of `session`.
    pub fn defend(self, session: u64, nonce: u64) -> (record: Result<
        HostSessionRecord,
        InvalidTransition,
    >)
        ensures
            record == (match self {
                HostSessionRecord::Challenge { epoch, session: s, nonce: n, .. } if s == session
                    && n == nonce => Ok(HostSessionRecord::Active { epoch, session }),
                _ => Err(InvalidTransition),
            }),
    {
        match self {
            HostSessionRecord::Challenge { epoch, session: s, nonce: n, .. } if s == session && n
                == nonce => Ok(HostSessionRecord::Active { epoch, session }),
            _ => Err(InvalidTransition),
        }
    }

    /// Ends a session that did not answer the challenge `nonce`.
    pub fn revoke(self, nonce: u64) -> (record: Result<HostSessionRecord, InvalidTransition>)
        ensures
            record == (match self {
                HostSessionRecord::Challenge { epoch, nonce: n, .. } if n == nonce => Ok(
                    HostSessionRecord::Revoked { epoch },
                ),
                _ => Err(InvalidTransition),
            }),
    {
        match self {
            HostSessionRecord::Challenge { epoch, nonce: n, .. } if n == nonce => Ok(
                HostSessionRecord::Revoked { epoch },
            ),
            _ => Err(InvalidTransition),
        }
    }

    /// Lets `session` take over after a revocation, under the next epoch.
    pub fn activate(self, session: u64) -> (record: Result<HostSessionRecord, InvalidTransition>)
        ensures
            record == (match self {
                HostSessionRecord::Revoked { epoch } if session != 0 && epoch < u64::MAX => Ok(
                    HostSessionRecord::Active { epoch: (epoch + 1) as u64, session },
                ),
                _ => Err(InvalidTransition),
            }),
    {
        match self {
            HostSessionRecord::Revoked { epoch } if session != 0 && epoch < u64::MAX => Ok(
                HostSessionRecord::Active { epoch: epoch + 1, session },
            ),
            _ => Err(InvalidTransition),
        }
    }
}

/// One allowed step of a host's record.
pub open spec fn session_step(from: HostSessionRecord, to: HostSessionRecord) -> bool {
    match (from, to) {
        (
            HostSessionRecord::Active { epoch, session },
            HostSessionRecord::Challenge { epoch: e, session: s, nonce, .. },
        ) => e == epoch && s == session && nonce != 0,
        (
            HostSessionRecord::Challenge { epoch, session, .. },
            HostSessionRecord::Active { epoch: e, session: s },
        ) => e == epoch && s == session,
        (
            HostSessionRecord::Challenge { epoch, .. },
            HostSessionRecord::Revoked { epoch: e },
        ) => e == epoch,
        (
            HostSessionRecord::Revoked { epoch },
            HostSessionRecord::Active { epoch: e, session },
        ) => e == epoch + 1 && session != 0,
        _ => false,
    }
}

/// Whoever holds the record under one epoch holds it alone: along any chain of
/// allowed steps the epoch never falls, and as long as it stays the same the
/// record names one session or, once revoked, none.
pub proof fn one_session_per_epoch(chain: Seq<HostSessionRecord>, i: int, j: int)
    requires
        0 <= i <= j < chain.len(),
        forall|k: int|
            0 <= k < chain.len() - 1 ==> session_step(#[trigger] chain[k], chain[k + 1]),
    ensures
        chain[i].epoch() <= chain[j].epoch(),
        chain[i].epoch() == chain[j].epoch() && chain[i].session() is None ==> chain[j].session()
            is None,
        chain[i].epoch() == chain[j].epoch() && chain[j].session() is Some ==> chain[i].session()
            == chain[j].session(),
    decreases j - i,
{
    if i < j {
        one_session_per_epoch(chain, i + 1, j);
    }
}

} // verus!
