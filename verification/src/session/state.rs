//! The state of one session: its handshake and the resources that the two
//! peers have bound. Resources are bound only once the session is
//! established.

use crate::proto::grouping::AreaOfInterest;
use crate::proto::wgps::{
    AreaOfInterestHandle, CapabilityHandle, ReadCapability, ResourceHandle,
    SetupBindAreaOfInterest, StaticToken, StaticTokenHandle,
};
use crate::session::handshake::{
    HandshakeAction, HandshakeEvent, HandshakeState, HandshakeView, Phase,
};
use crate::session::intersection::spec_intersections_below;
use crate::session::resource::{MapsView, ResourceValue, Resources};
use crate::session::{AreaOfInterestIntersection, Error, Role, Scope, SessionInit};
use std::task::{Context, Poll, Waker};
use vstd::prelude::*;

verus! {

/// What a session is, as far as contracts are concerned.
#[verifier::ext_equal]
pub struct SessionView {
    /// The handshake.
    pub handshake: HandshakeView,
    /// The resources bound by ourselves.
    pub ours: MapsView,
    /// The resources bound by the other peer.
    pub theirs: MapsView,
}

impl SessionView {
    /// The tables of the peer that `scope` names.
    pub open spec fn maps(self, scope: Scope) -> MapsView {
        match scope {
            Scope::Ours => self.ours,
            Scope::Theirs => self.theirs,
        }
    }

    /// This session with `maps` as the tables of the peer that `scope` names.
    pub open spec fn with_maps(self, scope: Scope, maps: MapsView) -> SessionView {
        match scope {
            Scope::Ours => SessionView { ours: maps, ..self },
            Scope::Theirs => SessionView { theirs: maps, ..self },
        }
    }

    /// Whether the session is established.
    pub open spec fn established(self) -> bool {
        self.handshake.phase is Established
    }

    /// Binding `capability` for the peer that `scope` names unless that peer
    /// has bound an equal one: the session afterwards, the handle under
    /// which the capability then sits, and whether it is new.
    pub open spec fn bind_capability(self, scope: Scope, capability: ReadCapability) -> (
        SessionView,
        CapabilityHandle,
        bool,
    ) {
        let found = self.maps(scope).capabilities.bind_if_new(capability);
        (
            self.with_maps(scope, MapsView { capabilities: found.0, ..self.maps(scope) }),
            CapabilityHandle(found.1),
            found.2,
        )
    }

    /// Binding a static token for the peer that `scope` names unless that
    /// peer has bound an equal one: the session afterwards, the handle under
    /// which the token then sits, and whether it is new.
    pub open spec fn bind_static_token(self, scope: Scope, token: StaticToken) -> (
        SessionView,
        StaticTokenHandle,
        bool,
    ) {
        let found = self.maps(scope).static_tokens.bind_if_new(token);
        (
            self.with_maps(scope, MapsView { static_tokens: found.0, ..self.maps(scope) }),
            StaticTokenHandle(found.1),
            found.2,
        )
    }

    /// Binding an area of interest for the peer that `scope` names unless
    /// that peer has bound an equal one: the session afterwards, the handle
    /// under which the area then sits, whether it is new, and, if it is new,
    /// its intersections with the areas that the other peer has bound, in the
    /// order of their handles.
    pub open spec fn bind_area_of_interest(self, scope: Scope, message: SetupBindAreaOfInterest) -> (
        SessionView,
        AreaOfInterestHandle,
        bool,
        Seq<AreaOfInterestIntersection>,
    ) {
        let found = self.maps(scope).areas_of_interest.bind_if_new(message);
        let after = self.with_maps(
            scope,
            MapsView { areas_of_interest: found.0, ..self.maps(scope) },
        );
        (
            after,
            AreaOfInterestHandle(found.1),
            found.2,
            if found.2 {
                spec_intersections_below(
                    after.ours,
                    after.theirs,
                    scope,
                    AreaOfInterestHandle(found.1),
                    after.maps(scope.spec_other()).areas_of_interest.next as nat,
                )
            } else {
                Seq::empty()
            },
        )
    }

    /// Binding each of `areas` for ourselves under the capability with the
    /// handle `authorisation`, from the first to the last: the session
    /// afterwards, the messages that bind the areas that are new, and the
    /// intersections that the new areas have with what the other peer bound.
    pub open spec fn bind_areas(self, authorisation: CapabilityHandle, areas: Seq<AreaOfInterest>) -> (
        SessionView,
        Seq<SetupBindAreaOfInterest>,
        Seq<AreaOfInterestIntersection>,
    )
        decreases areas.len(),
    {
        if areas.len() == 0 {
            (self, Seq::empty(), Seq::empty())
        } else {
            let before = self.bind_areas(authorisation, areas.drop_last());
            let message = SetupBindAreaOfInterest { area_of_interest: areas.last(), authorisation };
            let step = before.0.bind_area_of_interest(Scope::Ours, message);
            (
                step.0,
                if step.2 {
                    before.1.push(message)
                } else {
                    before.1
                },
                before.2 + step.3,
            )
        }
    }

    /// Binding for ourselves each capability of `entries` and then the areas
    /// listed under it, from the first entry to the last: the session
    /// afterwards and what there is to tell the other peer.
    pub open spec fn bind_interests(
        self,
        entries: Seq<(ReadCapability, Seq<AreaOfInterest>)>,
    ) -> (SessionView, FirstBindsView)
        decreases entries.len(),
    {
        if entries.len() == 0 {
            (
                self,
                FirstBindsView {
                    capabilities: Seq::empty(),
                    areas_of_interest: Seq::empty(),
                    intersections: Seq::empty(),
                },
            )
        } else {
            let before = self.bind_interests(entries.drop_last());
            let bound = before.0.bind_capability(Scope::Ours, entries.last().0);
            let areas = bound.0.bind_areas(bound.1, entries.last().1);
            (
                areas.0,
                FirstBindsView {
                    capabilities: if bound.2 {
                        before.1.capabilities.push((bound.1, entries.last().0))
                    } else {
                        before.1.capabilities
                    },
                    areas_of_interest: before.1.areas_of_interest + areas.1,
                    intersections: before.1.intersections + areas.2,
                },
            )
        }
    }

    /// What holds of every session: its tables are well formed, and nothing
    /// is bound in them unless the session is established.
    pub open spec fn wf(self) -> bool {
        &&& self.ours.wf()
        &&& self.theirs.wf()
        &&& !self.established() ==> self.ours.nothing_bound() && self.theirs.nothing_bound()
    }
}

/// The number of areas listed in `entries`.
pub open spec fn spec_count_areas(entries: Seq<(ReadCapability, Seq<AreaOfInterest>)>) -> nat
    decreases entries.len(),
{
    if entries.len() == 0 {
        0
    } else {
        spec_count_areas(entries.drop_last()) + entries.last().1.len()
    }
}

/// Counting the areas of the first `i + 1` entries adds those of entry `i`
/// to the count of the first `i`; a part of the entries lists no more areas
/// than all of them.
pub proof fn lemma_count_areas_take(entries: Seq<(ReadCapability, Seq<AreaOfInterest>)>, i: int)
    requires
        0 <= i < entries.len(),
    ensures
        spec_count_areas(entries.take(i + 1)) == spec_count_areas(entries.take(i)) + entries[i].1.len(),
        spec_count_areas(entries.take(i + 1)) <= spec_count_areas(entries),
    decreases entries.len() - i,
{
    assert(entries.take(i + 1).drop_last() == entries.take(i));
    assert(entries.take(i + 1).last() == entries[i]);
    if i + 1 < entries.len() {
        lemma_count_areas_take(entries, i + 1);
    } else {
        assert(entries.take(i + 1) == entries);
    }
}

/// What a session tells the other peer first: the resources that it bound
/// from its own interests.
#[derive(Debug, PartialEq, Eq)]
pub struct FirstBinds {
    /// The capabilities that were bound, each with its handle.
    pub capabilities: Vec<(CapabilityHandle, ReadCapability)>,
    /// The messages that bind the areas of interest.
    pub areas_of_interest: Vec<SetupBindAreaOfInterest>,
    /// The intersections that were found with what the other peer had bound.
    pub intersections: Vec<AreaOfInterestIntersection>,
}

/// What [`FirstBinds`] holds, as far as contracts are concerned.
#[verifier::ext_equal]
pub struct FirstBindsView {
    /// The capabilities that were bound, each with its handle.
    pub capabilities: Seq<(CapabilityHandle, ReadCapability)>,
    /// The messages that bind the areas of interest.
    pub areas_of_interest: Seq<SetupBindAreaOfInterest>,
    /// The intersections that were found with what the other peer had bound.
    pub intersections: Seq<AreaOfInterestIntersection>,
}

impl View for FirstBinds {
    type V = FirstBindsView;

    open spec fn view(&self) -> FirstBindsView {
        FirstBindsView {
            capabilities: self.capabilities@,
            areas_of_interest: self.areas_of_interest@,
            intersections: self.intersections@,
        }
    }
}

/// One session with another peer.
#[derive(Debug)]
pub struct Session {
    handshake: HandshakeState,
    resources: Resources,
}

impl View for Session {
    type V = SessionView;

    closed spec fn view(&self) -> SessionView {
        SessionView {
            handshake: self.handshake@,
            ours: self.resources.ours.views(),
            theirs: self.resources.theirs.views(),
        }
    }
}

impl Session {
    /// A session that has not started: we are `role` and wish to synchronise
    /// `init`. Nothing is bound.
    pub fn new(role: Role, init: SessionInit) -> (session: Self)
        ensures
            session@.wf(),
            session@ == (SessionView {
                handshake: HandshakeView { role, init, phase: Phase::Uninitialized },
                ours: MapsView::empty(),
                theirs: MapsView::empty(),
            }),
    {
        Session { handshake: HandshakeState::new(role, init), resources: Resources::default() }
    }

    /// Which peer we are.
    pub fn role(&self) -> (role: Role)
        ensures
            role == self@.handshake.role,
    {
        self.handshake.role()
    }

    /// Whether the session is established, so that resources may be bound.
    pub fn is_established(&self) -> (established: bool)
        ensures
            established == self@.established(),
    {
        self.handshake.is_established()
    }

    /// The resources that the two peers have bound.
    pub fn resources(&self) -> (resources: &Resources)
        ensures
            resources.ours.views() == self@.ours,
            resources.theirs.views() == self@.theirs,
    {
        &self.resources
    }

    /// Takes the handshake one step further: the session after `event` and
    /// what is to be done then. An error ends the session. What is bound
    /// stays as it is.
    pub fn step(self, event: HandshakeEvent) -> (next: Result<(Self, HandshakeAction), Error>)
        requires
            self@.wf(),
        ensures
            match next {
                Ok(next) => {
                    &&& self@.handshake.phase.spec_step(event) == Ok::<
                        (Phase, HandshakeAction),
                        Error,
                    >((next.0@.handshake.phase, next.1))
                    &&& next.0@ == (SessionView {
                        handshake: HandshakeView {
                            phase: next.0@.handshake.phase,
                            ..self@.handshake
                        },
                        ..self@
                    })
                    &&& next.0@.wf()
                },
                Err(error) => self@.handshake.phase.spec_step(event) == Err::<
                    (Phase, HandshakeAction),
                    Error,
                >(error),
            },
    {
        let Session { handshake, resources } = self;
        match handshake.step(event) {
            Ok((handshake, action)) => Ok((Session { handshake, resources }, action)),
            Err(error) => Err(error),
        }
    }

    /// Binds a capability for the peer that `scope` names, unless that peer
    /// has bound an equal one. Returns its handle and whether it is new.
    /// Before the session is established nothing is bound, and the answer is
    /// the error.
    pub fn bind_capability(&mut self, scope: Scope, capability: ReadCapability) -> (bound: Result<
        (CapabilityHandle, bool),
        Error,
    >)
        requires
            old(self)@.wf(),
            old(self)@.maps(scope).capabilities.next < u64::MAX,
        ensures
            final(self)@.wf(),
            match bound {
                Ok(found) => {
                    &&& old(self)@.established()
                    &&& (final(self)@, found.0, found.1) == old(self)@.bind_capability(
                        scope,
                        capability,
                    )
                },
                Err(error) => {
                    &&& !old(self)@.established()
                    &&& error == Error::InvalidMessageInCurrentState
                    &&& final(self)@ == old(self)@
                },
            },
    {
        if !self.handshake.is_established() {
            return Err(Error::InvalidMessageInCurrentState);
        }
        let found = match scope {
            Scope::Ours => self.resources.ours.capabilities.bind_if_new(capability),
            Scope::Theirs => self.resources.theirs.capabilities.bind_if_new(capability),
        };
        Ok(found)
    }

    /// Binds an area of interest for the peer that `scope` names, unless that
    /// peer has bound an equal one. The capability that the message names must
    /// be bound by the same peer. Returns the handle of the area, whether it
    /// is new, and, if it is new, its intersections with the areas that the
    /// other peer has bound, in the order of their handles.
    pub fn bind_area_of_interest(&mut self, scope: Scope, message: SetupBindAreaOfInterest) -> (bound:
        Result<(AreaOfInterestHandle, bool, Vec<AreaOfInterestIntersection>), Error>)
        requires
            old(self)@.wf(),
            old(self)@.maps(scope).areas_of_interest.next < u64::MAX,
        ensures
            final(self)@.wf(),
            match bound {
                Ok(found) => {
                    &&& old(self)@.established()
                    &&& old(self)@.maps(scope).capabilities.lookup(message.authorisation@) is Some
                    &&& (final(self)@, found.0, found.1, found.2@) == old(
                        self,
                    )@.bind_area_of_interest(scope, message)
                },
                Err(error) => {
                    &&& final(self)@ == old(self)@
                    &&& error == if !old(self)@.established() {
                        Error::InvalidMessageInCurrentState
                    } else {
                        Error::MissingResource(ResourceHandle::Capability(message.authorisation))
                    }
                    &&& old(self)@.established() ==> old(self)@.maps(scope).capabilities.lookup(
                        message.authorisation@,
                    ) is None
                },
            },
    {
        if !self.handshake.is_established() {
            return Err(Error::InvalidMessageInCurrentState);
        }
        if let Err(error) = self.resources.scope(scope).capabilities.try_get(
            &message.authorisation,
        ) {
            return Err(error);
        }
        let found = match scope {
            Scope::Ours => self.resources.ours.areas_of_interest.bind_if_new(message),
            Scope::Theirs => self.resources.theirs.areas_of_interest.bind_if_new(message),
        };
        let intersections = if found.1 {
            self.resources.intersections_with(scope, found.0)
        } else {
            Vec::new()
        };
        Ok((found.0, found.1, intersections))
    }

    /// Binds for ourselves what we wish to synchronise: each capability of
    /// our interests, and under it the areas listed with it. Returns what there
    /// is to tell the other peer. Before the session is established nothing is
    /// bound, and the answer is the error.
    pub fn bind_interests(&mut self) -> (bound: Result<FirstBinds, Error>)
        requires
            old(self)@.wf(),
            old(self)@.ours.capabilities.next + old(self)@.handshake.init.entries().len()
                <= u64::MAX,
            old(self)@.ours.areas_of_interest.next + spec_count_areas(
                old(self)@.handshake.init.entries(),
            ) <= u64::MAX,
        ensures
            final(self)@.wf(),
            match bound {
                Ok(first) => {
                    &&& old(self)@.established()
                    &&& (final(self)@, first@) == old(self)@.bind_interests(
                        old(self)@.handshake.init.entries(),
                    )
                },
                Err(error) => {
                    &&& !old(self)@.established()
                    &&& error == Error::InvalidMessageInCurrentState
                    &&& final(self)@ == old(self)@
                },
            },
    {
        if !self.handshake.is_established() {
            return Err(Error::InvalidMessageInCurrentState);
        }
        let mut first = FirstBinds {
            capabilities: Vec::new(),
            areas_of_interest: Vec::new(),
            intersections: Vec::new(),
        };
        let count = self.handshake.interests().interests.len();
        let ghost entries = self@.handshake.init.entries();
        let mut i: usize = 0;
        while i < count
            invariant
                i <= count,
                count == entries.len(),
                entries == old(self)@.handshake.init.entries(),
                old(self)@.established(),
                self@.handshake == old(self)@.handshake,
                self@.wf(),
                (self@, first@) == old(self)@.bind_interests(entries.take(i as int)),
                self@.ours.capabilities.next <= old(self)@.ours.capabilities.next + i,
                self@.ours.areas_of_interest.next <= old(self)@.ours.areas_of_interest.next
                    + spec_count_areas(entries.take(i as int)),
                old(self)@.ours.capabilities.next + entries.len() <= u64::MAX,
                old(self)@.ours.areas_of_interest.next + spec_count_areas(entries) <= u64::MAX,
            decreases count - i,
        {
            let capability = self.handshake.interests().interests[i].0;
            let listed = self.handshake.interests().interests[i].1.len();
            let ghost areas = entries[i as int].1;
            let ghost before = (self@, first@);
            proof {
                lemma_count_areas_take(entries, i as int);
                assert(entries.take(i + 1).drop_last() == entries.take(i as int));
                assert(entries.take(i + 1).last() == entries[i as int]);
            }
            let (authorisation, created) = match self.bind_capability(Scope::Ours, capability) {
                Ok(found) => found,
                Err(error) => {
                    return Err(error);
                },
            };
            if created {
                first.capabilities.push((authorisation, capability));
            }
            let ghost bound = self@;
            proof {
                before.0.ours.capabilities.lemma_bind_if_new(capability);
            }
            let mut j: usize = 0;
            while j < listed
                invariant
                    j <= listed,
                    listed == areas.len(),
                    i < count,
                    count == entries.len(),
                    areas == entries[i as int].1,
                    entries == old(self)@.handshake.init.entries(),
                    old(self)@.established(),
                    self@.handshake == old(self)@.handshake,
                    self@.wf(),
                    self@.ours.capabilities == bound.ours.capabilities,
                    bound.ours.capabilities.lookup(authorisation@) is Some,
                    bound.ours.areas_of_interest.next + areas.len() <= u64::MAX,
                    self@.ours.areas_of_interest.next <= bound.ours.areas_of_interest.next + j,
                    first@.capabilities == if created {
                        before.1.capabilities.push((authorisation, capability))
                    } else {
                        before.1.capabilities
                    },
                    ({
                        let done = bound.bind_areas(authorisation, areas.take(j as int));
                        &&& self@ == done.0
                        &&& first@.areas_of_interest == before.1.areas_of_interest + done.1
                        &&& first@.intersections == before.1.intersections + done.2
                    }),
                decreases listed - j,
            {
                let area = self.handshake.interests().interests[i].1[j];
                let message = SetupBindAreaOfInterest { area_of_interest: area, authorisation };
                proof {
                    assert(areas.take(j + 1).drop_last() == areas.take(j as int));
                    assert(areas.take(j + 1).last() == area);
                }
                match self.bind_area_of_interest(Scope::Ours, message) {
                    Ok((_, fresh, mut intersections)) => {
                        if fresh {
                            first.areas_of_interest.push(message);
                        }
                        first.intersections.append(&mut intersections);
                    },
                    Err(error) => {
                        return Err(error);
                    },
                }
                j += 1;
            }
            proof {
                assert(areas.take(listed as int) == areas);
            }
            i += 1;
        }
        proof {
            assert(entries.take(count as int) == entries);
        }
        Ok(first)
    }

    /// One step of waiting for `handle` in the tables of the peer that
    /// `scope` names: a copy of the value if it is bound; else the polling
    /// task's waker takes its place at the end of the queue for `handle` and
    /// the answer is `Pending`.
    pub fn poll_get_eventually(
        &mut self,
        scope: Scope,
        handle: ResourceHandle,
        cx: &mut Context<'_>,
    ) -> (value: Poll<ResourceValue>)
        requires
            old(self)@.wf(),
            !(handle is Intersection),
        ensures
            final(self)@.wf(),
            exists|waker: Waker|
                {
                    let polled = #[trigger] old(self)@.maps(scope).poll(handle, waker);
                    &&& final(self)@ == old(self)@.with_maps(scope, polled.0)
                    &&& polled.1 == match value {
                        Poll::Ready(v) => Some(v),
                        Poll::Pending => None,
                    }
                },
    {
        let value = match scope {
            Scope::Ours => self.resources.ours.poll_get_eventually(handle, cx),
            Scope::Theirs => self.resources.theirs.poll_get_eventually(handle, cx),
        };
        proof {
            let found = match value {
                Poll::Ready(v) => Some(v),
                Poll::Pending => None,
            };
            let waker = choose|waker: Waker|
                #[trigger] old(self)@.maps(scope).poll(handle, waker) == (
                    self@.maps(scope),
                    found,
                );
            assert(self@ == old(self)@.with_maps(
                scope,
                old(self)@.maps(scope).poll(handle, waker).0,
            ));
            old(self)@.maps(scope).lemma_poll_binds_nothing(handle, waker);
        }
        value
    }

    /// Binds a static token for the peer that `scope` names, unless that peer
    /// has bound an equal one. Returns its handle and whether it is new.
    /// Before the session is established nothing is bound, and the answer is
    /// the error.
    pub fn bind_static_token(&mut self, scope: Scope, token: StaticToken) -> (bound: Result<
        (StaticTokenHandle, bool),
        Error,
    >)
        requires
            old(self)@.wf(),
            old(self)@.maps(scope).static_tokens.next < u64::MAX,
        ensures
            final(self)@.wf(),
            match bound {
                Ok(found) => {
                    &&& old(self)@.established()
                    &&& (final(self)@, found.0, found.1) == old(self)@.bind_static_token(
                        scope,
                        token,
                    )
                },
                Err(error) => {
                    &&& !old(self)@.established()
                    &&& error == Error::InvalidMessageInCurrentState
                    &&& final(self)@ == old(self)@
                },
            },
    {
        if !self.handshake.is_established() {
            return Err(Error::InvalidMessageInCurrentState);
        }
        let found = match scope {
            Scope::Ours => self.resources.ours.static_tokens.bind_if_new(token),
            Scope::Theirs => self.resources.theirs.static_tokens.bind_if_new(token),
        };
        Ok(found)
    }
}

} // verus!
