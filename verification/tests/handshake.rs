use willow_session::proto::grouping::{Area, AreaOfInterest};
use willow_session::proto::keys::NamespaceId;
use willow_session::proto::wgps::{AccessChallenge, ChallengeHash, ReadCapability};
use willow_session::session::handshake::{
    HandshakeAction, HandshakeEvent, HandshakeState, Phase,
};
use willow_session::session::{Error, InitialTransmission, Role, SessionInit};

fn toy_hash(nonce: &AccessChallenge) -> ChallengeHash {
    let mut out = [0u8; 32];
    let mut carry: u8 = 0x5a;
    for (i, byte) in nonce.0.iter().enumerate() {
        carry = carry.rotate_left(3) ^ byte.wrapping_mul(31).wrapping_add(i as u8);
        out[i] = carry;
    }
    ChallengeHash(out)
}

fn some_init() -> SessionInit {
    SessionInit::with_interest(
        ReadCapability::new(NamespaceId([1; 32]), Area::new(0, 0xFF)),
        AreaOfInterest::new(Area::new(0, 0x80)),
    )
}

fn expect_ok(
    next: Result<(HandshakeState, HandshakeAction), Error>,
) -> (HandshakeState, HandshakeAction) {
    match next {
        Ok(next) => next,
        Err(error) => panic!("the step failed: {:?}", error),
    }
}

fn expect_err(next: Result<(HandshakeState, HandshakeAction), Error>) -> Error {
    match next {
        Ok(_) => panic!("the step went through"),
        Err(error) => error,
    }
}

#[test]
fn role_is_alfie_or_betty() {
    assert!(Role::Alfie.is_alfie());
    assert!(!Role::Alfie.is_betty());
    assert!(Role::Betty.is_betty());
    assert!(!Role::Betty.is_alfie());
}

#[test]
fn with_interest_lists_one_interest() {
    let capability = ReadCapability::new(NamespaceId([4; 32]), Area::new(0, 10));
    let area = AreaOfInterest::new(Area::new(2, 5));
    let init = SessionInit::with_interest(capability, area);
    assert_eq!(init.interests, vec![(capability, vec![area])]);
}

#[test]
fn new_handshake_is_uninitialized() {
    let state = HandshakeState::new(Role::Betty, some_init());
    assert_eq!(state.phase(), Phase::Uninitialized);
    assert_eq!(state.role(), Role::Betty);
    assert!(!state.is_established());
    assert_eq!(state.interests().interests.len(), 1);
}

#[test]
fn both_peers_reach_established() {
    let nonce_a = AccessChallenge([0xA1; 32]);
    let nonce_b = AccessChallenge([0xB2; 32]);
    let a = HandshakeState::new(Role::Alfie, some_init());
    let b = HandshakeState::new(Role::Betty, some_init());

    let (a, action_a) = expect_ok(a.step(HandshakeEvent::Start { our_nonce: nonce_a }));
    let (b, action_b) = expect_ok(b.step(HandshakeEvent::Start { our_nonce: nonce_b }));
    assert_eq!(action_a, HandshakeAction::SendCommitment { nonce: nonce_a });
    assert_eq!(action_b, HandshakeAction::SendCommitment { nonce: nonce_b });
    assert_eq!(a.phase(), Phase::NonceSent { our_nonce: nonce_a });
    let commitment_a = toy_hash(&nonce_a);
    let commitment_b = toy_hash(&nonce_b);

    let (a, action_a) = expect_ok(a.step(HandshakeEvent::CommitmentReceived {
        commitment: commitment_b,
        max_payload_size: 1024,
    }));
    let (b, action_b) = expect_ok(b.step(HandshakeEvent::CommitmentReceived {
        commitment: commitment_a,
        max_payload_size: 2048,
    }));
    assert_eq!(action_a, HandshakeAction::RevealNonce { nonce: nonce_a });
    assert_eq!(action_b, HandshakeAction::RevealNonce { nonce: nonce_b });
    let transmission_a = InitialTransmission {
        our_nonce: nonce_a,
        received_commitment: commitment_b,
        their_max_payload_size: 1024,
    };
    assert_eq!(a.phase(), Phase::CommitmentReceived { transmission: transmission_a });
    assert!(!a.is_established());

    let (a, action_a) = expect_ok(a.step(HandshakeEvent::NonceRevealed {
        nonce: nonce_b,
        digest: toy_hash(&nonce_b),
    }));
    let (b, action_b) = expect_ok(b.step(HandshakeEvent::NonceRevealed {
        nonce: nonce_a,
        digest: toy_hash(&nonce_a),
    }));
    assert_eq!(action_a, HandshakeAction::StartBinding);
    assert_eq!(action_b, HandshakeAction::StartBinding);
    assert!(a.is_established());
    assert!(b.is_established());
    assert_eq!(
        a.phase(),
        Phase::Established { transmission: transmission_a, their_nonce: nonce_b }
    );
    assert_eq!(a.role(), Role::Alfie);
    assert_eq!(b.role(), Role::Betty);
}

#[test]
fn mismatched_reveal_is_fatal() {
    let nonce_a = AccessChallenge([0xA1; 32]);
    let nonce_b = AccessChallenge([0xB2; 32]);
    let forged = AccessChallenge([0xB3; 32]);
    let a = HandshakeState::new(Role::Alfie, some_init());
    let (a, _) = expect_ok(a.step(HandshakeEvent::Start { our_nonce: nonce_a }));
    let (a, _) = expect_ok(a.step(HandshakeEvent::CommitmentReceived {
        commitment: toy_hash(&nonce_b),
        max_payload_size: 1024,
    }));
    let error = expect_err(a.step(HandshakeEvent::NonceRevealed {
        nonce: forged,
        digest: toy_hash(&forged),
    }));
    assert_eq!(error, Error::BrokenCommitment);
}

#[test]
fn events_out_of_order_end_the_session() {
    let nonce = AccessChallenge([1; 32]);
    let commitment = toy_hash(&nonce);
    let reveal = HandshakeEvent::NonceRevealed { nonce, digest: commitment };
    let received = HandshakeEvent::CommitmentReceived { commitment, max_payload_size: 1 };
    let start = HandshakeEvent::Start { our_nonce: nonce };

    let fresh = HandshakeState::new(Role::Alfie, some_init());
    assert_eq!(expect_err(fresh.step(received)), Error::InvalidMessageInCurrentState);
    let fresh = HandshakeState::new(Role::Alfie, some_init());
    assert_eq!(expect_err(fresh.step(reveal)), Error::InvalidMessageInCurrentState);

    let fresh = HandshakeState::new(Role::Alfie, some_init());
    let (sent, _) = expect_ok(fresh.step(start));
    assert_eq!(expect_err(sent.step(start)), Error::InvalidMessageInCurrentState);
    let fresh = HandshakeState::new(Role::Alfie, some_init());
    let (sent, _) = expect_ok(fresh.step(start));
    assert_eq!(expect_err(sent.step(reveal)), Error::InvalidMessageInCurrentState);

    let fresh = HandshakeState::new(Role::Alfie, some_init());
    let (sent, _) = expect_ok(fresh.step(start));
    let (got, _) = expect_ok(sent.step(received));
    assert_eq!(expect_err(got.step(received)), Error::InvalidMessageInCurrentState);
}

#[test]
fn established_takes_no_further_handshake_event() {
    let nonce = AccessChallenge([1; 32]);
    let theirs = AccessChallenge([2; 32]);
    let fresh = HandshakeState::new(Role::Betty, some_init());
    let (state, _) = expect_ok(fresh.step(HandshakeEvent::Start { our_nonce: nonce }));
    let (state, _) = expect_ok(state.step(HandshakeEvent::CommitmentReceived {
        commitment: toy_hash(&theirs),
        max_payload_size: 9,
    }));
    let (state, _) = expect_ok(state.step(HandshakeEvent::NonceRevealed {
        nonce: theirs,
        digest: toy_hash(&theirs),
    }));
    assert!(state.is_established());
    let error = expect_err(state.step(HandshakeEvent::NonceRevealed {
        nonce: theirs,
        digest: toy_hash(&theirs),
    }));
    assert_eq!(error, Error::InvalidMessageInCurrentState);
}

#[test]
fn add_interest_lists_each_area_once() {
    let first = ReadCapability::new(NamespaceId([1; 32]), Area::new(0, 10));
    let second = ReadCapability::new(NamespaceId([2; 32]), Area::new(0, 10));
    let a = AreaOfInterest::new(Area::new(0, 5));
    let b = AreaOfInterest::new(Area::new(5, 10));
    let mut init = SessionInit::new();
    assert!(init.interests.is_empty());
    assert!(init.add_interest(first, a));
    assert!(!init.add_interest(first, a));
    assert!(init.add_interest(second, a));
    assert!(init.add_interest(first, b));
    assert!(!init.add_interest(first, b));
    assert!(!init.add_interest(second, a));
    assert_eq!(init.interests, vec![(first, vec![a, b]), (second, vec![a])]);

    let mut single = SessionInit::with_interest(first, a);
    assert!(!single.add_interest(first, a));
    assert!(single.add_interest(first, b));
    assert_eq!(single.interests, vec![(first, vec![a, b])]);
}
