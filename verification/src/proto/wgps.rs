//! Handles, the small numbers that stand for a resource one peer has bound,
//! and the resources themselves.

use crate::proto::grouping::{Area, AreaOfInterest};
use crate::proto::keys::{bytes32_eq, NamespaceId};
use vstd::prelude::*;
use vstd::std_specs::cmp::PartialEqSpecImpl;

verus! {

/// The kinds of resource a handle can stand for.
#[derive(Debug, Clone, Copy, PartialEq, Eq, Hash, Structural)]
pub enum HandleType {
    /// A read capability.
    Capability,
    /// An area of interest.
    AreaOfInterest,
    /// A static token.
    StaticToken,
    /// The intersection of two areas of interest. Intersections are computed,
    /// never bound by a peer.
    Intersection,
}

/// A handle of one resource kind.
///
/// The view of a handle is the number it was issued as. Two handles of the same
/// kind with the same number are the same handle.
pub trait IsHandle: Copy + View<V = u64> {
    /// The kind of resource that handles of this type stand for.
    spec fn spec_handle_type() -> HandleType;

    /// This handle, tagged with its kind.
    spec fn spec_resource_handle(self) -> ResourceHandle;

    /// The handle with the given number.
    fn from_value(value: u64) -> (handle: Self)
        ensures
            handle@ == value,
    ;

    /// The number of this handle.
    fn value(&self) -> (value: u64)
        ensures
            value == self@,
    ;

    /// The kind of resource this handle stands for.
    fn handle_type(&self) -> (kind: HandleType)
        ensures
            kind == Self::spec_handle_type(),
    ;

    /// This handle, tagged with its kind.
    fn resource_handle(&self) -> (tagged: ResourceHandle)
        ensures
            tagged == self.spec_resource_handle(),
    ;

    /// A handle is determined by its number, and tagging keeps number and kind.
    proof fn lemma_handle_laws(a: Self, b: Self)
        ensures
            a@ == b@ ==> a == b,
            a.spec_resource_handle().spec_value() == a@,
            a.spec_resource_handle().spec_handle_type() == Self::spec_handle_type(),
    ;
}

/// Handle of a read capability.
#[derive(Debug, Clone, Copy, PartialEq, Eq, Hash, Structural)]
pub struct CapabilityHandle(pub u64);

/// Handle of an area of interest.
#[derive(Debug, Clone, Copy, PartialEq, Eq, Hash, Structural)]
pub struct AreaOfInterestHandle(pub u64);

/// Handle of a static token.
#[derive(Debug, Clone, Copy, PartialEq, Eq, Hash, Structural)]
pub struct StaticTokenHandle(pub u64);

/// Handle of an intersection of two areas of interest.
#[derive(Debug, Clone, Copy, PartialEq, Eq, Hash, Structural)]
pub struct IntersectionHandle(pub u64);

/// A handle together with the kind of resource it stands for.
#[derive(Debug, Clone, Copy, PartialEq, Eq, Hash, Structural)]
pub enum ResourceHandle {
    /// Handle of a read capability.
    Capability(CapabilityHandle),
    /// Handle of an area of interest.
    AreaOfInterest(AreaOfInterestHandle),
    /// Handle of a static token.
    StaticToken(StaticTokenHandle),
    /// Handle of an intersection.
    Intersection(IntersectionHandle),
}

impl ResourceHandle {
    /// The number of the handle inside.
    pub open spec fn spec_value(self) -> u64 {
        match self {
            ResourceHandle::Capability(h) => h.0,
            ResourceHandle::AreaOfInterest(h) => h.0,
            ResourceHandle::StaticToken(h) => h.0,
            ResourceHandle::Intersection(h) => h.0,
        }
    }

    /// The kind of the handle inside.
    pub open spec fn spec_handle_type(self) -> HandleType {
        match self {
            ResourceHandle::Capability(_) => HandleType::Capability,
            ResourceHandle::AreaOfInterest(_) => HandleType::AreaOfInterest,
            ResourceHandle::StaticToken(_) => HandleType::StaticToken,
            ResourceHandle::Intersection(_) => HandleType::Intersection,
        }
    }

    /// The number of the handle inside.
    pub fn value(&self) -> (value: u64)
        ensures
            value == self.spec_value(),
    {
        match self {
            ResourceHandle::Capability(h) => h.0,
            ResourceHandle::AreaOfInterest(h) => h.0,
            ResourceHandle::StaticToken(h) => h.0,
            ResourceHandle::Intersection(h) => h.0,
        }
    }

    /// The kind of the handle inside.
    pub fn handle_type(&self) -> (kind: HandleType)
        ensures
            kind == self.spec_handle_type(),
    {
        match self {
            ResourceHandle::Capability(_) => HandleType::Capability,
            ResourceHandle::AreaOfInterest(_) => HandleType::AreaOfInterest,
            ResourceHandle::StaticToken(_) => HandleType::StaticToken,
            ResourceHandle::Intersection(_) => HandleType::Intersection,
        }
    }
}

impl View for CapabilityHandle {
    type V = u64;

    open spec fn view(&self) -> u64 {
        self.0
    }
}

impl IsHandle for CapabilityHandle {
    open spec fn spec_handle_type() -> HandleType {
        HandleType::Capability
    }

    open spec fn spec_resource_handle(self) -> ResourceHandle {
        ResourceHandle::Capability(self)
    }

    fn from_value(value: u64) -> Self {
        CapabilityHandle(value)
    }

    fn value(&self) -> u64 {
        self.0
    }

    fn handle_type(&self) -> HandleType {
        HandleType::Capability
    }

    fn resource_handle(&self) -> ResourceHandle {
        ResourceHandle::Capability(*self)
    }

    proof fn lemma_handle_laws(a: Self, b: Self) {
    }
}

impl View for AreaOfInterestHandle {
    type V = u64;

    open spec fn view(&self) -> u64 {
        self.0
    }
}

impl IsHandle for AreaOfInterestHandle {
    open spec fn spec_handle_type() -> HandleType {
        HandleType::AreaOfInterest
    }

    open spec fn spec_resource_handle(self) -> ResourceHandle {
        ResourceHandle::AreaOfInterest(self)
    }

    fn from_value(value: u64) -> Self {
        AreaOfInterestHandle(value)
    }

    fn value(&self) -> u64 {
        self.0
    }

    fn handle_type(&self) -> HandleType {
        HandleType::AreaOfInterest
    }

    fn resource_handle(&self) -> ResourceHandle {
        ResourceHandle::AreaOfInterest(*self)
    }

    proof fn lemma_handle_laws(a: Self, b: Self) {
    }
}

impl View for StaticTokenHandle {
    type V = u64;

    open spec fn view(&self) -> u64 {
        self.0
    }
}

impl IsHandle for StaticTokenHandle {
    open spec fn spec_handle_type() -> HandleType {
        HandleType::StaticToken
    }

    open spec fn spec_resource_handle(self) -> ResourceHandle {
        ResourceHandle::StaticToken(self)
    }

    fn from_value(value: u64) -> Self {
        StaticTokenHandle(value)
    }

    fn value(&self) -> u64 {
        self.0
    }

    fn handle_type(&self) -> HandleType {
        HandleType::StaticToken
    }

    fn resource_handle(&self) -> ResourceHandle {
        ResourceHandle::StaticToken(*self)
    }

    proof fn lemma_handle_laws(a: Self, b: Self) {
    }
}

impl View for IntersectionHandle {
    type V = u64;

    open spec fn view(&self) -> u64 {
        self.0
    }
}

impl IsHandle for IntersectionHandle {
    open spec fn spec_handle_type() -> HandleType {
        HandleType::Intersection
    }

    open spec fn spec_resource_handle(self) -> ResourceHandle {
        ResourceHandle::Intersection(self)
    }

    fn from_value(value: u64) -> Self {
        IntersectionHandle(value)
    }

    fn value(&self) -> u64 {
        self.0
    }

    fn handle_type(&self) -> HandleType {
        HandleType::Intersection
    }

    fn resource_handle(&self) -> ResourceHandle {
        ResourceHandle::Intersection(*self)
    }

    proof fn lemma_handle_laws(a: Self, b: Self) {
    }
}

/// Proof that a peer may read a namespace, within an area.
#[derive(Debug, Clone, Copy, Eq, Hash)]
pub struct ReadCapability {
    /// The namespace that may be read.
    pub namespace: NamespaceId,
    /// The area of that namespace that may be read.
    pub area: Area,
}

impl ReadCapability {
    /// The capability to read `area` of `namespace`.
    pub fn new(namespace: NamespaceId, area: Area) -> (capability: Self)
        ensures
            capability == (ReadCapability { namespace, area }),
    {
        ReadCapability { namespace, area }
    }

    /// The namespace that the capability grants.
    pub fn granted_namespace(&self) -> (namespace: &NamespaceId)
        ensures
            *namespace == self.namespace,
    {
        &self.namespace
    }

    /// The area that the capability grants.
    pub fn granted_area(&self) -> (area: &Area)
        ensures
            *area == self.area,
    {
        &self.area
    }

    /// Whether the capability grants every position of `area`.
    pub open spec fn spec_authorises(self, area: Area) -> bool {
        self.area.spec_includes_area(area)
    }

    /// Whether the capability grants every position of `area`.
    pub fn authorises(&self, area: &Area) -> (granted: bool)
        ensures
            granted == self.spec_authorises(*area),
            granted == area@.subset_of(self.area@),
    {
        self.area.includes_area(area)
    }
}

impl PartialEq for ReadCapability {
    fn eq(&self, other: &Self) -> (same: bool) {
        self.namespace == other.namespace && self.area == other.area
    }
}

impl PartialEqSpecImpl for ReadCapability {
    open spec fn obeys_eq_spec() -> bool {
        true
    }

    open spec fn eq_spec(&self, other: &Self) -> bool {
        *self == *other
    }
}

/// The message that binds an area of interest: the area, and the handle of
/// the capability under which it is declared.
#[derive(Debug, Clone, Copy, Eq, Hash)]
pub struct SetupBindAreaOfInterest {
    /// The area that the peer wishes to synchronise.
    pub area_of_interest: AreaOfInterest,
    /// The handle of the capability that grants the area.
    pub authorisation: CapabilityHandle,
}

impl SetupBindAreaOfInterest {
    /// The area that the message declares.
    pub fn area(&self) -> (area: &Area)
        ensures
            *area == self.area_of_interest.area,
    {
        &self.area_of_interest.area
    }
}

impl PartialEq for SetupBindAreaOfInterest {
    fn eq(&self, other: &Self) -> (same: bool) {
        self.area_of_interest == other.area_of_interest && self.authorisation
            == other.authorisation
    }
}

impl PartialEqSpecImpl for SetupBindAreaOfInterest {
    open spec fn obeys_eq_spec() -> bool {
        true
    }

    open spec fn eq_spec(&self, other: &Self) -> bool {
        *self == *other
    }
}

/// A token that a peer binds once and then names by its handle.
#[derive(Debug, Clone, Copy, Eq, Hash)]
pub struct StaticToken(pub [u8; 32]);

impl PartialEq for StaticToken {
    fn eq(&self, other: &Self) -> (same: bool) {
        bytes32_eq(&self.0, &other.0)
    }
}

impl PartialEqSpecImpl for StaticToken {
    open spec fn obeys_eq_spec() -> bool {
        true
    }

    open spec fn eq_spec(&self, other: &Self) -> bool {
        *self == *other
    }
}

/// The nonce that a peer chooses for a session and reveals only after both
/// commitments were exchanged.
#[derive(Debug, Clone, Copy, Eq, Hash)]
pub struct AccessChallenge(pub [u8; 32]);

impl PartialEq for AccessChallenge {
    fn eq(&self, other: &Self) -> (same: bool) {
        bytes32_eq(&self.0, &other.0)
    }
}

impl PartialEqSpecImpl for AccessChallenge {
    open spec fn obeys_eq_spec() -> bool {
        true
    }

    open spec fn eq_spec(&self, other: &Self) -> bool {
        *self == *other
    }
}

/// The hash of an [`AccessChallenge`]: the commitment that a peer sends before
/// it reveals its nonce.
#[derive(Debug, Clone, Copy, Eq, Hash)]
pub struct ChallengeHash(pub [u8; 32]);

impl PartialEq for ChallengeHash {
    fn eq(&self, other: &Self) -> (same: bool) {
        bytes32_eq(&self.0, &other.0)
    }
}

impl PartialEqSpecImpl for ChallengeHash {
    open spec fn obeys_eq_spec() -> bool {
        true
    }

    open spec fn eq_spec(&self, other: &Self) -> bool {
        *self == *other
    }
}

} // verus!
