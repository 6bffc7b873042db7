//! The handshake that opens a session: each peer commits to a nonce by its
//! hash before either reveals its nonce, so that neither can choose its nonce
//! after seeing the other's.

use crate::proto::wgps::{AccessChallenge, ChallengeHash};
use crate::session::{Error, InitialTransmission, Role, SessionInit};
use vstd::prelude::*;

verus! {

/// How far the handshake has come.
#[derive(Debug, Clone, Copy, PartialEq, Eq)]
pub enum Phase {
    /// Nothing was sent yet.
    Uninitialized,
    /// We chose our nonce and sent its hash, our commitment.
    NonceSent {
        /// Our nonce.
        our_nonce: AccessChallenge,
    },
    /// The other peer's commitment arrived; we have revealed our nonce.
    CommitmentReceived {
        /// Our nonce, and what the other peer sent.
        transmission: InitialTransmission,
    },
    /// The other peer revealed a nonce that hashes to its commitment. The
    /// session stays in this phase.
    Established {
        /// Our nonce, and what the other peer sent before it revealed.
        transmission: InitialTransmission,
        /// The nonce that the other peer revealed.
        their_nonce: AccessChallenge,
    },
}

/// What happens to a handshake.
#[derive(Debug, Clone, Copy)]
pub enum HandshakeEvent {
    /// The session starts, with the nonce that we chose for it.
    Start {
        /// Our nonce.
        our_nonce: AccessChallenge,
    },
    /// The other peer's commitment arrived.
    CommitmentReceived {
        /// The hash of the other peer's nonce, as that peer sent it.
        commitment: ChallengeHash,
        /// The largest payload that the other peer takes.
        max_payload_size: u64,
    },
    /// The other peer revealed its nonce.
    NonceRevealed {
        /// The nonce as revealed.
        nonce: AccessChallenge,
        /// The hash of `nonce`.
        digest: ChallengeHash,
    },
}

/// What is to be done after a step of the handshake.
#[derive(Debug, Clone, Copy, PartialEq, Eq)]
pub enum HandshakeAction {
    /// Send the hash of `nonce` as our commitment.
    SendCommitment {
        /// Our nonce.
        nonce: AccessChallenge,
    },
    /// Reveal `nonce`.
    RevealNonce {
        /// Our nonce.
        nonce: AccessChallenge,
    },
    /// The session is established: resources may be bound from now on.
    StartBinding,
}

impl Phase {
    /// The number of steps that lead to this phase.
    pub open spec fn rank(self) -> nat {
        match self {
            Phase::Uninitialized => 0,
            Phase::NonceSent { .. } => 1,
            Phase::CommitmentReceived { .. } => 2,
            Phase::Established { .. } => 3,
        }
    }

    /// The phase after `event` and what is to be done then, or the error that
    /// ends the session: an event that has no place in this phase, or a
    /// revealed nonce whose hash is not the commitment received before.
    pub open spec fn spec_step(self, event: HandshakeEvent) -> Result<
        (Phase, HandshakeAction),
        Error,
    > {
        match (self, event) {
            (Phase::Uninitialized, HandshakeEvent::Start { our_nonce }) => Ok(
                (Phase::NonceSent { our_nonce }, HandshakeAction::SendCommitment { nonce: our_nonce }),
            ),
            (
                Phase::NonceSent { our_nonce },
                HandshakeEvent::CommitmentReceived { commitment, max_payload_size },
            ) => Ok(
                (
                    Phase::CommitmentReceived {
                        transmission: InitialTransmission {
                            our_nonce,
                            received_commitment: commitment,
                            their_max_payload_size: max_payload_size,
                        },
                    },
                    HandshakeAction::RevealNonce { nonce: our_nonce },
                ),
            ),
            (
                Phase::CommitmentReceived { transmission },
                HandshakeEvent::NonceRevealed { nonce, digest },
            ) => if digest == transmission.received_commitment {
                Ok(
                    (
                        Phase::Established { transmission, their_nonce: nonce },
                        HandshakeAction::StartBinding,
                    ),
                )
            } else {
                Err(Error::BrokenCommitment)
            },
            _ => Err(Error::InvalidMessageInCurrentState),
        }
    }

    /// The phase after the events of `events`, one after the other, or the
    /// error of the first of them that ends the session.
    pub open spec fn spec_run(self, events: Seq<HandshakeEvent>) -> Result<Phase, Error>
        decreases events.len(),
    {
        if events.len() == 0 {
            Ok(self)
        } else {
            match self.spec_run(events.drop_last()) {
                Ok(phase) => match phase.spec_step(events.last()) {
                    Ok(next) => Ok(next.0),
                    Err(error) => Err(error),
                },
                Err(error) => Err(error),
            }
        }
    }

    /// Every step that does not end the session leads to the next phase.
    pub proof fn lemma_run_rank(self, events: Seq<HandshakeEvent>)
        ensures
            self.spec_run(events) matches Ok(phase) ==> phase.rank() == self.rank() + events.len(),
        decreases events.len(),
    {
        if events.len() > 0 {
            self.lemma_run_rank(events.drop_last());
        }
    }

    /// A session is established only by these three events, in this order:
    /// the start, the other peer's commitment, and the reveal of a nonce whose
    /// hash is that commitment. The established session holds what they
    /// brought.
    pub proof fn lemma_established_only_verified(events: Seq<HandshakeEvent>)
        requires
            Phase::Uninitialized.spec_run(events) matches Ok(phase) && phase is Established,
        ensures
            events.len() == 3,
            events[0] is Start,
            events[1] is CommitmentReceived,
            events[2] is NonceRevealed,
            events[2]->digest == events[1]->commitment,
            Phase::Uninitialized.spec_run(events) == Ok::<Phase, Error>(
                Phase::Established {
                    transmission: InitialTransmission {
                        our_nonce: events[0]->our_nonce,
                        received_commitment: events[1]->commitment,
                        their_max_payload_size: events[1]->max_payload_size,
                    },
                    their_nonce: events[2]->nonce,
                },
            ),
    {
        let start = Phase::Uninitialized;
        start.lemma_run_rank(events);
        let two = events.drop_last();
        let one = two.drop_last();
        let none = one.drop_last();
        start.lemma_run_rank(two);
        start.lemma_run_rank(one);
        assert(none.len() == 0);
        assert(start.spec_run(none) == Ok::<Phase, Error>(start));
        assert(one.last() == events[0]);
        assert(two.last() == events[1]);
        assert(events.last() == events[2]);
    }

    /// A reveal that does not match the commitment ends the session, and so
    /// does every event that comes to an established session.
    pub proof fn lemma_mismatch_is_fatal(self, event: HandshakeEvent)
        ensures
            (self matches Phase::CommitmentReceived { transmission } && event
                matches HandshakeEvent::NonceRevealed { digest, .. } && digest
                != transmission.received_commitment) ==> self.spec_step(event) == Err::<
                (Phase, HandshakeAction),
                Error,
            >(Error::BrokenCommitment),
            self is Established ==> self.spec_step(event) is Err,
    {
    }
}

/// What a handshake is, as far as contracts are concerned.
pub struct HandshakeView {
    /// Which peer we are.
    pub role: Role,
    /// What we wish to synchronise.
    pub init: SessionInit,
    /// How far the handshake has come.
    pub phase: Phase,
}

/// The state of the handshake of one session.
#[derive(Debug)]
pub struct HandshakeState {
    role: Role,
    init: SessionInit,
    phase: Phase,
}

impl View for HandshakeState {
    type V = HandshakeView;

    closed spec fn view(&self) -> HandshakeView {
        HandshakeView { role: self.role, init: self.init, phase: self.phase }
    }
}

impl HandshakeState {
    /// The handshake of a session that has not started: we are `role` and
    /// wish to synchronise `init`.
    pub fn new(role: Role, init: SessionInit) -> (state: Self)
        ensures
            state@ == (HandshakeView { role, init, phase: Phase::Uninitialized }),
    {
        HandshakeState { role, init, phase: Phase::Uninitialized }
    }

    /// Which peer we are.
    pub fn role(&self) -> (role: Role)
        ensures
            role == self@.role,
    {
        self.role
    }

    /// What we wish to synchronise.
    pub fn interests(&self) -> (init: &SessionInit)
        ensures
            *init == self@.init,
    {
        &self.init
    }

    /// How far the handshake has come.
    pub fn phase(&self) -> (phase: Phase)
        ensures
            phase == self@.phase,
    {
        self.phase
    }

    /// Whether the session is established, so that resources may be bound.
    pub fn is_established(&self) -> (established: bool)
        ensures
            established == (self@.phase is Established),
    {
        matches!(self.phase, Phase::Established { .. })
    }

    /// Takes the handshake one step further: the state after `event` and
    /// what is to be done then. An error ends the session, and the state is
    /// gone with it. Role and interests stay as they are.
    pub fn step(self, event: HandshakeEvent) -> (next: Result<(Self, HandshakeAction), Error>)
        ensures
            match next {
                Ok(next) => {
                    &&& self@.phase.spec_step(event) == Ok::<(Phase, HandshakeAction), Error>(
                        (next.0@.phase, next.1),
                    )
                    &&& next.0@.role == self@.role
                    &&& next.0@.init == self@.init
                },
                Err(error) => self@.phase.spec_step(event) == Err::<
                    (Phase, HandshakeAction),
                    Error,
                >(error),
            },
    {
        let HandshakeState { role, init, phase } = self;
        match (phase, event) {
            (Phase::Uninitialized, HandshakeEvent::Start { our_nonce }) => Ok(
                (
                    HandshakeState { role, init, phase: Phase::NonceSent { our_nonce } },
                    HandshakeAction::SendCommitment { nonce: our_nonce },
                ),
            ),
            (
                Phase::NonceSent { our_nonce },
                HandshakeEvent::CommitmentReceived { commitment, max_payload_size },
            ) => {
                let transmission = InitialTransmission {
                    our_nonce,
                    received_commitment: commitment,
                    their_max_payload_size: max_payload_size,
                };
                Ok(
                    (
                        HandshakeState {
                            role,
                            init,
                            phase: Phase::CommitmentReceived { transmission },
                        },
                        HandshakeAction::RevealNonce { nonce: our_nonce },
                    ),
                )
            },
            (
                Phase::CommitmentReceived { transmission },
                HandshakeEvent::NonceRevealed { nonce, digest },
            ) => {
                if digest == transmission.received_commitment {
                    Ok(
                        (
                            HandshakeState {
                                role,
                                init,
                                phase: Phase::Established { transmission, their_nonce: nonce },
                            },
                            HandshakeAction::StartBinding,
                        ),
                    )
                } else {
                    Err(Error::BrokenCommitment)
                }
            },
            _ => Err(Error::InvalidMessageInCurrentState),
        }
    }
}

} // verus!
