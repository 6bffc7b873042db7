use std::sync::{Arc, Mutex};
use std::task::{Context, Poll, Wake, Waker};

use willow_session::proto::grouping::{Area, AreaOfInterest};
use willow_session::proto::keys::NamespaceId;
use willow_session::proto::wgps::{
    AccessChallenge, AreaOfInterestHandle, CapabilityHandle, ChallengeHash, ReadCapability,
    ResourceHandle, SetupBindAreaOfInterest, StaticToken, StaticTokenHandle,
};
use willow_session::session::handshake::{HandshakeAction, HandshakeEvent};
use willow_session::session::resource::ResourceValue;
use willow_session::session::state::{FirstBinds, Session};
use willow_session::session::{
    AreaOfInterestIntersection, Error, Role, Scope, SessionInit,
};

struct SessionRecorder {
    log: Arc<Mutex<Vec<u32>>>,
}

impl Wake for SessionRecorder {
    fn wake(self: Arc<Self>) {
        self.log.lock().unwrap().push(1);
    }
}

fn digest_of(nonce: &AccessChallenge) -> ChallengeHash {
    let mut out = nonce.0;
    out.reverse();
    for byte in out.iter_mut() {
        *byte = byte.wrapping_add(0x11);
    }
    ChallengeHash(out)
}

fn capability_in(namespace: u8) -> ReadCapability {
    ReadCapability::new(NamespaceId([namespace; 32]), Area::new(0x00, 0xFF))
}

fn established(init: SessionInit) -> Session {
    let ours = AccessChallenge([3; 32]);
    let theirs = AccessChallenge([4; 32]);
    let session = Session::new(Role::Alfie, init);
    let session = match session.step(HandshakeEvent::Start { our_nonce: ours }) {
        Ok((session, _)) => session,
        Err(error) => panic!("{:?}", error),
    };
    let session = match session.step(HandshakeEvent::CommitmentReceived {
        commitment: digest_of(&theirs),
        max_payload_size: 4096,
    }) {
        Ok((session, _)) => session,
        Err(error) => panic!("{:?}", error),
    };
    match session.step(HandshakeEvent::NonceRevealed { nonce: theirs, digest: digest_of(&theirs) })
    {
        Ok((session, action)) => {
            assert_eq!(action, HandshakeAction::StartBinding);
            session
        },
        Err(error) => panic!("{:?}", error),
    }
}

fn one_interest() -> SessionInit {
    SessionInit::with_interest(capability_in(1), AreaOfInterest::new(Area::new(0x00, 0x80)))
}

#[test]
fn nothing_is_bound_before_the_session_is_established() {
    let mut session = Session::new(Role::Betty, one_interest());
    assert!(!session.is_established());
    assert_eq!(session.role(), Role::Betty);
    assert_eq!(
        session.bind_capability(Scope::Theirs, capability_in(1)),
        Err(Error::InvalidMessageInCurrentState)
    );
    assert_eq!(
        session.bind_static_token(Scope::Theirs, StaticToken([0; 32])),
        Err(Error::InvalidMessageInCurrentState)
    );
    let message = SetupBindAreaOfInterest {
        area_of_interest: AreaOfInterest::new(Area::new(0, 1)),
        authorisation: CapabilityHandle(0),
    };
    assert_eq!(
        session.bind_area_of_interest(Scope::Theirs, message),
        Err(Error::InvalidMessageInCurrentState)
    );
    assert_eq!(session.bind_interests(), Err(Error::InvalidMessageInCurrentState));
    assert_eq!(session.resources().ours.capabilities.len(), 0);
    assert_eq!(session.resources().theirs.capabilities.len(), 0);
    assert_eq!(session.resources().theirs.areas_of_interest.len(), 0);
    assert_eq!(session.resources().theirs.static_tokens.len(), 0);
}

#[test]
fn a_broken_commitment_ends_the_session() {
    let session = Session::new(Role::Alfie, one_interest());
    let ours = AccessChallenge([3; 32]);
    let theirs = AccessChallenge([4; 32]);
    let (session, _) = session.step(HandshakeEvent::Start { our_nonce: ours }).ok().unwrap();
    let (session, _) = session
        .step(HandshakeEvent::CommitmentReceived {
            commitment: digest_of(&theirs),
            max_payload_size: 1,
        })
        .ok()
        .unwrap();
    let other = AccessChallenge([5; 32]);
    let ended = session.step(HandshakeEvent::NonceRevealed { nonce: other, digest: digest_of(&other) });
    assert_eq!(ended.err(), Some(Error::BrokenCommitment));
}

#[test]
fn capabilities_and_tokens_are_bound_once() {
    let mut session = established(one_interest());
    assert!(session.is_established());
    assert_eq!(
        session.bind_capability(Scope::Theirs, capability_in(1)),
        Ok((CapabilityHandle(0), true))
    );
    assert_eq!(
        session.bind_capability(Scope::Theirs, capability_in(1)),
        Ok((CapabilityHandle(0), false))
    );
    assert_eq!(
        session.bind_capability(Scope::Theirs, capability_in(2)),
        Ok((CapabilityHandle(1), true))
    );
    assert_eq!(
        session.bind_capability(Scope::Ours, capability_in(2)),
        Ok((CapabilityHandle(0), true))
    );
    assert_eq!(
        session.bind_static_token(Scope::Ours, StaticToken([9; 32])),
        Ok((StaticTokenHandle(0), true))
    );
    assert_eq!(
        session.bind_static_token(Scope::Ours, StaticToken([9; 32])),
        Ok((StaticTokenHandle(0), false))
    );
}

#[test]
fn an_area_needs_its_capability() {
    let mut session = established(one_interest());
    let message = SetupBindAreaOfInterest {
        area_of_interest: AreaOfInterest::new(Area::new(0x40, 0xFF)),
        authorisation: CapabilityHandle(0),
    };
    assert_eq!(
        session.bind_area_of_interest(Scope::Theirs, message),
        Err(Error::MissingResource(ResourceHandle::Capability(CapabilityHandle(0))))
    );
    assert_eq!(session.resources().theirs.areas_of_interest.len(), 0);
}

#[test]
fn binding_an_area_reports_its_intersections() {
    let mut session = established(one_interest());
    let (ours, _) = session.bind_capability(Scope::Ours, capability_in(1)).ok().unwrap();
    let our_area = SetupBindAreaOfInterest {
        area_of_interest: AreaOfInterest::new(Area::new(0x00, 0x80)),
        authorisation: ours,
    };
    assert_eq!(
        session.bind_area_of_interest(Scope::Ours, our_area),
        Ok((AreaOfInterestHandle(0), true, vec![]))
    );
    let (theirs, _) = session.bind_capability(Scope::Theirs, capability_in(1)).ok().unwrap();
    let their_area = SetupBindAreaOfInterest {
        area_of_interest: AreaOfInterest::new(Area::new(0x40, 0xFF)),
        authorisation: theirs,
    };
    let expected = AreaOfInterestIntersection {
        our_handle: AreaOfInterestHandle(0),
        their_handle: AreaOfInterestHandle(0),
        intersection: Area::new(0x40, 0x80),
        namespace: NamespaceId([1; 32]),
    };
    assert_eq!(
        session.bind_area_of_interest(Scope::Theirs, their_area),
        Ok((AreaOfInterestHandle(0), true, vec![expected]))
    );
    assert_eq!(
        session.bind_area_of_interest(Scope::Theirs, their_area),
        Ok((AreaOfInterestHandle(0), false, vec![]))
    );
    let (other, _) = session.bind_capability(Scope::Theirs, capability_in(2)).ok().unwrap();
    let elsewhere = SetupBindAreaOfInterest {
        area_of_interest: AreaOfInterest::new(Area::new(0x40, 0xFF)),
        authorisation: other,
    };
    assert_eq!(
        session.bind_area_of_interest(Scope::Theirs, elsewhere),
        Ok((AreaOfInterestHandle(1), true, vec![]))
    );
}

#[test]
fn own_interests_are_bound_in_order() {
    let first = capability_in(1);
    let second = capability_in(2);
    let a = AreaOfInterest::new(Area::new(0x00, 0x80));
    let b = AreaOfInterest::new(Area::new(0x80, 0xC0));
    let c = AreaOfInterest::new(Area::new(0x10, 0x20));
    let init = SessionInit { interests: vec![(first, vec![a, b]), (second, vec![c])] };
    let mut session = established(init);
    let (theirs, _) = session.bind_capability(Scope::Theirs, capability_in(1)).ok().unwrap();
    let their_area = SetupBindAreaOfInterest {
        area_of_interest: AreaOfInterest::new(Area::new(0x70, 0x90)),
        authorisation: theirs,
    };
    session.bind_area_of_interest(Scope::Theirs, their_area).ok().unwrap();

    let bound = session.bind_interests();
    let expected = FirstBinds {
        capabilities: vec![(CapabilityHandle(0), first), (CapabilityHandle(1), second)],
        areas_of_interest: vec![
            SetupBindAreaOfInterest { area_of_interest: a, authorisation: CapabilityHandle(0) },
            SetupBindAreaOfInterest { area_of_interest: b, authorisation: CapabilityHandle(0) },
            SetupBindAreaOfInterest { area_of_interest: c, authorisation: CapabilityHandle(1) },
        ],
        intersections: vec![
            AreaOfInterestIntersection {
                our_handle: AreaOfInterestHandle(0),
                their_handle: AreaOfInterestHandle(0),
                intersection: Area::new(0x70, 0x80),
                namespace: NamespaceId([1; 32]),
            },
            AreaOfInterestIntersection {
                our_handle: AreaOfInterestHandle(1),
                their_handle: AreaOfInterestHandle(0),
                intersection: Area::new(0x80, 0x90),
                namespace: NamespaceId([1; 32]),
            },
        ],
    };
    assert_eq!(bound, Ok(expected));
    assert_eq!(session.resources().ours.capabilities.len(), 2);
    assert_eq!(session.resources().ours.areas_of_interest.len(), 3);

    let again = session.bind_interests();
    assert_eq!(
        again,
        Ok(FirstBinds { capabilities: vec![], areas_of_interest: vec![], intersections: vec![] })
    );
    assert_eq!(session.resources().ours.areas_of_interest.len(), 3);
}

#[test]
fn a_session_poll_waits_for_the_other_peer() {
    let log = Arc::new(Mutex::new(Vec::new()));
    let waker = Waker::from(Arc::new(SessionRecorder { log: log.clone() }));
    let mut cx = Context::from_waker(&waker);
    let mut session = established(one_interest());
    let handle = ResourceHandle::Capability(CapabilityHandle(0));
    assert_eq!(session.poll_get_eventually(Scope::Theirs, handle, &mut cx), Poll::Pending);
    session.bind_capability(Scope::Ours, capability_in(7)).ok().unwrap();
    assert!(log.lock().unwrap().is_empty());
    session.bind_capability(Scope::Theirs, capability_in(1)).ok().unwrap();
    assert_eq!(log.lock().unwrap().clone(), vec![1]);
    assert_eq!(
        session.poll_get_eventually(Scope::Theirs, handle, &mut cx),
        Poll::Ready(ResourceValue::Capability(capability_in(1)))
    );
}
