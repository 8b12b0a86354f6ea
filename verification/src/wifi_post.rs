//! The decisions of the WiFi station-mode power-on self-test: the baked-in
//! credentials are checked before the radio is asked to do anything, the
//! join uses an open or a passphrase handshake as they demand, and a join
//! that times out is retried up to [`JOIN_ATTEMPTS`] times. A join the radio
//! rejects is final. The firmware performs each join and reports how it
//! ended.
use vstd::prelude::*;
use crate::wifi::{credential_rules, CredentialError, Credentials, Security};

verus! {

/// `cyw43::JoinError`, the radio driver's reason for a rejected join.
#[verifier::external_type_specification]
#[verifier::external_body]
pub struct ExJoinError(cyw43::JoinError);

/// Number of association attempts before the POST fails.
pub const JOIN_ATTEMPTS: usize = 3;

/// What a successful WiFi POST established.
#[derive(Clone, Copy, Debug, PartialEq, Eq, Structural)]
pub struct PostReport {
    /// Whether the joined network is password-protected.
    pub protected: bool,
}

/// Why a WiFi POST failed.
#[derive(Debug)]
pub enum PostError {
    /// The credentials broke a length rule; the radio was never asked to
    /// join. Carries the rule's message.
    InvalidCredentials(&'static str),
    /// The radio rejected the join; carries the driver's reason.
    Join(cyw43::JoinError),
    /// No join attempt completed before its timeout.
    JoinTimeout,
}

/// How one join attempt ended.
#[derive(Debug)]
pub enum JoinOutcome {
    /// The access point accepted the station.
    Joined,
    /// The radio rejected the join.
    Failed(cyw43::JoinError),
    /// No association event arrived in time.
    TimedOut,
}

/// What the POST wants after a join attempt.
#[derive(Debug)]
pub enum JoinStep {
    /// Leave, wait, and join again.
    Retry,
    /// The POST is over with this result.
    Done(Result<PostReport, PostError>),
    /// Leave the half-finished association, then the POST is over with this
    /// result: no join is left pending when the POST gives up.
    LeaveThenDone(Result<PostReport, PostError>),
}

/// A running WiFi POST: the security to join with and the number of the
/// current attempt.
#[derive(Clone, Copy, Debug, PartialEq, Eq)]
pub struct WifiPost {
    security: Security,
    attempt: usize,
}

impl WifiPost {
    /// The security the join uses.
    pub closed spec fn spec_security(self) -> Security {
        self.security
    }

    /// The number of the current join attempt, from 1.
    pub closed spec fn attempt(self) -> usize {
        self.attempt
    }

    /// A POST is always on one of its allowed attempts.
    #[verifier::type_invariant]
    spec fn attempt_in_range(self) -> bool {
        1 <= self.attempt <= JOIN_ATTEMPTS
    }

    /// Check the credentials and, when they pass, begin the first join
    /// attempt; a broken rule ends the POST with its message.
    pub fn begin(creds: &Credentials) -> (r: Result<WifiPost, PostError>)
        ensures
            match credential_rules(creds.ssid.len(), creds.password.len()) {
                Ok(security) => r matches Ok(post) && post.spec_security() == security
                    && post.attempt() == 1,
                Err(e) => r matches Err(PostError::InvalidCredentials(m)) && m@
                    == e.spec_message(),
            },
    {
        match creds.validate() {
            Ok(security) => Ok(WifiPost { security, attempt: 1 }),
            Err(e) => Err(PostError::InvalidCredentials(e.message())),
        }
    }

    /// The security the join uses: open (no passphrase) or protected.
    pub fn security(&self) -> (s: Security)
        ensures
            s == self.spec_security(),
            1 <= self.attempt() <= JOIN_ATTEMPTS,
    {
        proof {
            use_type_invariant(self);
        }
        self.security
    }

    /// Record how the current join attempt ended: success reports whether
    /// the network is protected; a rejection ends the POST with the driver's
    /// reason; a timeout is retried until [`JOIN_ATTEMPTS`] attempts have
    /// timed out, and the last one is left before the POST reports it.
    pub fn on_join(&mut self, outcome: JoinOutcome) -> (step: JoinStep)
        ensures
            final(self).spec_security() == old(self).spec_security(),
            1 <= final(self).attempt() <= JOIN_ATTEMPTS,
            match outcome {
                JoinOutcome::Joined => step matches JoinStep::Done(Ok(report)) && report.protected
                    == (old(self).spec_security() == Security::Protected),
                JoinOutcome::Failed(reason) => step matches JoinStep::Done(Err(PostError::Join(r)))
                    && r == reason,
                JoinOutcome::TimedOut => if old(self).attempt() < JOIN_ATTEMPTS {
                    step is Retry && final(self).attempt() == old(self).attempt() + 1
                } else {
                    step matches JoinStep::LeaveThenDone(Err(PostError::JoinTimeout))
                },
            },
    {
        proof {
            use_type_invariant(&*self);
        }
        match outcome {
            JoinOutcome::Joined => JoinStep::Done(
                Ok(
                    PostReport {
                        protected: match self.security {
                            Security::Protected => true,
                            Security::Open => false,
                        },
                    },
                ),
            ),
            JoinOutcome::Failed(error) => JoinStep::Done(Err(PostError::Join(error))),
            JoinOutcome::TimedOut => if self.attempt < JOIN_ATTEMPTS {
                self.attempt = self.attempt + 1;
                JoinStep::Retry
            } else {
                JoinStep::LeaveThenDone(Err(PostError::JoinTimeout))
            },
        }
    }
}

} // verus!
