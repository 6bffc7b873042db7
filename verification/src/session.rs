//! A session between two peers.

use crate::proto::grouping::{Area, AreaOfInterest};
use crate::proto::keys::NamespaceId;
use crate::proto::wgps::{
    AccessChallenge, AreaOfInterestHandle, ChallengeHash, ReadCapability, ResourceHandle,
};
use vstd::prelude::*;

pub mod handshake;
pub mod intersection;
pub mod model;
pub mod resource;
pub mod state;
pub mod task;

verus! {

/// What ends a session.
#[derive(Debug, Clone, Copy, PartialEq, Eq, Structural)]
pub enum Error {
    /// A message named a handle that had to be bound already and was not.
    MissingResource(ResourceHandle),
    /// The nonce that the other peer revealed does not hash to the commitment
    /// it had sent.
    BrokenCommitment,
    /// A message came in a state of the session in which it has no place.
    InvalidMessageInCurrentState,
}

/// Data from the initial transmission
///
/// This happens before the session is initialized.
#[derive(Debug, Clone, Copy, PartialEq, Eq)]
pub struct InitialTransmission {
    /// The [`AccessChallenge`] nonce, whose hash we sent to the remote.
    pub our_nonce: AccessChallenge,
    /// The [`ChallengeHash`] we received from the remote.
    pub received_commitment: ChallengeHash,
    /// The maximum payload size we received from the remote.
    pub their_max_payload_size: u64,
}

/// To break symmetry, we refer to the peer that initiated the synchronisation session as Alfie,
/// and the other peer as Betty.
#[derive(Debug, Clone, Copy, Eq, PartialEq, Structural)]
pub enum Role {
    /// The peer that initiated the synchronisation session.
    Alfie,
    /// The peer that accepted the synchronisation session.
    Betty,
}

impl Role {
    /// Returns `true` if we initiated the session.
    pub fn is_alfie(&self) -> (initiated: bool)
        ensures
            initiated == (*self == Role::Alfie),
    {
        matches!(self, Role::Alfie)
    }

    /// Returns `true` if we accepted the session.
    pub fn is_betty(&self) -> (accepted: bool)
        ensures
            accepted == (*self == Role::Betty),
    {
        matches!(self, Role::Betty)
    }
}

/// Options to initialize a session with.
#[derive(Debug)]
pub struct SessionInit {
    /// List of interests we wish to synchronize, together with our capabilities to read them.
    pub interests: Vec<(ReadCapability, Vec<AreaOfInterest>)>,
}

impl SessionInit {
    /// The interests as a list: each capability with the areas declared under it.
    pub open spec fn entries(self) -> Seq<(ReadCapability, Seq<AreaOfInterest>)> {
        self.interests@.map_values(|e: (ReadCapability, Vec<AreaOfInterest>)| (e.0, e.1@))
    }

    /// No capability is listed twice, and no area twice under one capability.
    pub open spec fn wf(self) -> bool {
        &&& forall|i: int, j: int|
            0 <= i < j < self.entries().len() ==> self.entries()[i].0 != self.entries()[j].0
        &&& forall|i: int| 0 <= i < self.entries().len() ==> (#[trigger] self.entries()[i]).1.no_duplicates()
    }

    /// The place of `capability` in the list, if it is listed.
    pub open spec fn position(self, capability: ReadCapability) -> Option<int> {
        if exists|i: int| 0 <= i < self.entries().len() && self.entries()[i].0 == capability {
            Some(choose|i: int| 0 <= i < self.entries().len() && self.entries()[i].0 == capability)
        } else {
            None
        }
    }

    /// The list after `area_of_interest` was listed under `capability`, and
    /// whether it is new there: an area that is listed under the capability
    /// changes nothing; a new area of a listed capability joins its areas at
    /// the end; a capability that is not listed joins the list at the end,
    /// with the one area.
    pub open spec fn spec_add_interest(
        self,
        capability: ReadCapability,
        area_of_interest: AreaOfInterest,
    ) -> (Seq<(ReadCapability, Seq<AreaOfInterest>)>, bool) {
        match self.position(capability) {
            Some(i) => if self.entries()[i].1.contains(area_of_interest) {
                (self.entries(), false)
            } else {
                (
                    self.entries().update(
                        i,
                        (capability, self.entries()[i].1.push(area_of_interest)),
                    ),
                    true,
                )
            },
            None => (self.entries().push((capability, seq![area_of_interest])), true),
        }
    }

    /// An empty list of interests.
    pub fn new() -> (init: Self)
        ensures
            init.wf(),
            init.entries() == Seq::<(ReadCapability, Seq<AreaOfInterest>)>::empty(),
    {
        let init = Self { interests: Vec::new() };
        proof {
            assert(init.entries() =~= Seq::empty());
        }
        init
    }

    /// Lists `area_of_interest` under `capability`, unless it is listed there
    /// already. Returns whether it is new there.
    pub fn add_interest(&mut self, capability: ReadCapability, area_of_interest: AreaOfInterest) -> (added:
        bool)
        requires
            old(self).wf(),
        ensures
            final(self).wf(),
            (final(self).entries(), added) == old(self).spec_add_interest(
                capability,
                area_of_interest,
            ),
    {
        let mut i: usize = 0;
        while i < self.interests.len() && self.interests[i].0 != capability
            invariant
                *self == *old(self),
                i <= self.interests.len(),
                forall|k: int| 0 <= k < i ==> self.entries()[k].0 != capability,
            decreases self.interests.len() - i,
        {
            i += 1;
        }
        if i == self.interests.len() {
            let mut areas: Vec<AreaOfInterest> = Vec::new();
            areas.push(area_of_interest);
            self.interests.push((capability, areas));
            proof {
                assert(old(self).position(capability) is None);
                assert(self.entries() =~= old(self).entries().push(
                    (capability, seq![area_of_interest]),
                ));
            }
            return true;
        }
        proof {
            assert(old(self).entries()[i as int].0 == capability);
            assert(old(self).position(capability) == Some(i as int));
        }
        let mut j: usize = 0;
        while j < self.interests[i].1.len()
            invariant
                *self == *old(self),
                old(self).wf(),
                old(self).position(capability) == Some(i as int),
                i < self.interests.len(),
                j <= self.interests[i as int].1.len(),
                forall|k: int| 0 <= k < j ==> self.interests[i as int].1[k] != area_of_interest,
            decreases self.interests[i as int].1.len() - j,
        {
            if self.interests[i].1[j] == area_of_interest {
                proof {
                    assert(self.entries()[i as int].1[j as int] == area_of_interest);
                }
                return false;
            }
            j += 1;
        }
        let mut entry = self.interests.remove(i);
        entry.1.push(area_of_interest);
        self.interests.insert(i, entry);
        proof {
            let before = old(self).entries();
            assert(!before[i as int].1.contains(area_of_interest));
            assert(self.entries() =~= before.update(
                i as int,
                (capability, before[i as int].1.push(area_of_interest)),
            ));
            assert forall|k: int| 0 <= k < self.entries().len() implies (
            #[trigger] self.entries()[k]).1.no_duplicates() by {
                assert(before[k].1.no_duplicates());
            }
        }
        true
    }

    /// Returns a [`SessionInit`] with a single interest.
    pub fn with_interest(capability: ReadCapability, area_of_interest: AreaOfInterest) -> (init:
        Self)
        ensures
            init.wf(),
            init.entries() == seq![(capability, seq![area_of_interest])],
    {
        let mut areas: Vec<AreaOfInterest> = Vec::new();
        areas.push(area_of_interest);
        let mut interests: Vec<(ReadCapability, Vec<AreaOfInterest>)> = Vec::new();
        interests.push((capability, areas));
        let init = Self { interests };
        proof {
            assert(init.entries() =~= seq![(capability, seq![area_of_interest])]);
        }
        init
    }
}

/// The bind scope for resources.
///
/// Resources are bound by either peer
#[derive(Copy, Clone, Debug, PartialEq, Eq, Structural)]
pub enum Scope {
    /// Resources bound by ourselves.
    Ours,
    /// Resources bound by the other peer.
    Theirs,
}

impl Scope {
    /// The other peer's scope.
    pub open spec fn spec_other(self) -> Scope {
        match self {
            Scope::Ours => Scope::Theirs,
            Scope::Theirs => Scope::Ours,
        }
    }

    /// The other peer's scope.
    pub fn other(&self) -> (other: Scope)
        ensures
            other == self.spec_other(),
    {
        match self {
            Scope::Ours => Scope::Theirs,
            Scope::Theirs => Scope::Ours,
        }
    }
}

/// Intersection between two areas of interest.
#[derive(Debug, Clone, Copy, PartialEq, Eq)]
pub struct AreaOfInterestIntersection {
    /// The handle of our area of interest.
    pub our_handle: AreaOfInterestHandle,
    /// The handle of their area of interest.
    pub their_handle: AreaOfInterestHandle,
    /// The area that both are interested in.
    pub intersection: Area,
    /// The namespace of that area.
    pub namespace: NamespaceId,
}

} // verus!
