//! The areas that both peers may reconcile: what their declared areas of
//! interest share, as far as their capabilities grant it.

use crate::proto::grouping::Area;
use crate::proto::wgps::{AreaOfInterestHandle, IsHandle, ReadCapability};
use crate::session::resource::{MapsView, Resources};
use crate::session::{AreaOfInterestIntersection, Scope};
use vstd::prelude::*;

verus! {

/// What an area of ours, declared under a capability of ours, shares with an
/// area of theirs, declared under a capability of theirs: the positions that
/// both areas hold, if the two capabilities are for the same namespace, there
/// is such a position, and both capabilities grant all of them. Else nothing.
pub open spec fn spec_intersect(
    our_handle: AreaOfInterestHandle,
    our_capability: ReadCapability,
    our_area: Area,
    their_handle: AreaOfInterestHandle,
    their_capability: ReadCapability,
    their_area: Area,
) -> Option<AreaOfInterestIntersection> {
    let common = our_area.common(their_area);
    if our_capability.namespace == their_capability.namespace && !common.spec_is_empty()
        && our_capability.spec_authorises(common) && their_capability.spec_authorises(common) {
        Some(
            AreaOfInterestIntersection {
                our_handle,
                their_handle,
                intersection: common,
                namespace: our_capability.namespace,
            },
        )
    } else {
        None
    }
}

/// What an area of ours shares with an area of theirs, as far as the
/// capabilities under which they are declared grant it.
pub fn intersect(
    our_handle: AreaOfInterestHandle,
    our_capability: &ReadCapability,
    our_area: &Area,
    their_handle: AreaOfInterestHandle,
    their_capability: &ReadCapability,
    their_area: &Area,
) -> (found: Option<AreaOfInterestIntersection>)
    ensures
        found == spec_intersect(
            our_handle,
            *our_capability,
            *our_area,
            their_handle,
            *their_capability,
            *their_area,
        ),
{
    if our_capability.namespace != their_capability.namespace {
        return None;
    }
    match our_area.intersection(their_area) {
        Some(common) => {
            if our_capability.authorises(&common) && their_capability.authorises(&common) {
                Some(
                    AreaOfInterestIntersection {
                        our_handle,
                        their_handle,
                        intersection: common,
                        namespace: our_capability.namespace,
                    },
                )
            } else {
                None
            }
        },
        None => None,
    }
}

/// An intersection is produced only for one namespace, holds exactly the
/// positions that both areas hold, holds at least one, and lies within what
/// each capability grants. It does not depend on which side is called ours.
pub proof fn lemma_intersect_sound(
    our_handle: AreaOfInterestHandle,
    our_capability: ReadCapability,
    our_area: Area,
    their_handle: AreaOfInterestHandle,
    their_capability: ReadCapability,
    their_area: Area,
)
    ensures
        spec_intersect(
            our_handle,
            our_capability,
            our_area,
            their_handle,
            their_capability,
            their_area,
        ) matches Some(found) ==> {
            &&& found.our_handle == our_handle
            &&& found.their_handle == their_handle
            &&& found.namespace == our_capability.namespace
            &&& found.namespace == their_capability.namespace
            &&& found.intersection@ == our_area@.intersect(their_area@)
            &&& found.intersection@ != Set::<int>::empty()
            &&& found.intersection@.subset_of(our_capability.area@)
            &&& found.intersection@.subset_of(their_capability.area@)
        },
        spec_intersect(
            their_handle,
            their_capability,
            their_area,
            our_handle,
            our_capability,
            our_area,
        ) == match spec_intersect(
            our_handle,
            our_capability,
            our_area,
            their_handle,
            their_capability,
            their_area,
        ) {
            Some(found) => Some(
                AreaOfInterestIntersection {
                    our_handle: their_handle,
                    their_handle: our_handle,
                    ..found
                },
            ),
            None => None,
        },
{
    let common = our_area.common(their_area);
    our_area.lemma_common(their_area);
    common.lemma_common(our_area);
    our_capability.area.lemma_common(common);
    their_capability.area.lemma_common(common);
}

impl MapsView {
    /// The area of interest bound under the handle numbered `h`, with the
    /// capability under which it is declared, if both are bound.
    pub open spec fn declaration(self, h: u64) -> Option<(ReadCapability, Area)> {
        match self.areas_of_interest.lookup(h) {
            Some(bound) => match self.capabilities.lookup(bound.authorisation@) {
                Some(capability) => Some((capability, bound.area_of_interest.area)),
                None => None,
            },
            None => None,
        }
    }
}

/// What the area bound under `our_handle` in our tables shares with the area
/// bound under `their_handle` in theirs. Nothing, if one of the two areas or
/// the capability that one of them names is not bound.
pub open spec fn spec_intersection(
    ours: MapsView,
    our_handle: AreaOfInterestHandle,
    theirs: MapsView,
    their_handle: AreaOfInterestHandle,
) -> Option<AreaOfInterestIntersection> {
    match (ours.declaration(our_handle@), theirs.declaration(their_handle@)) {
        (Some(our), Some(their)) => spec_intersect(
            our_handle,
            our.0,
            our.1,
            their_handle,
            their.0,
            their.1,
        ),
        _ => None,
    }
}

/// An intersection of two bound areas is found only where both areas are
/// bound, each under a capability that is bound by the same peer, the two
/// capabilities are for one namespace, and both grant what is found; and
/// what is found is what the two areas share, which is not nothing.
pub proof fn lemma_intersection_sound(
    ours: MapsView,
    our_handle: AreaOfInterestHandle,
    theirs: MapsView,
    their_handle: AreaOfInterestHandle,
)
    ensures
        spec_intersection(ours, our_handle, theirs, their_handle) matches Some(found) ==> {
            &&& ours.areas_of_interest.lookup(our_handle@) matches Some(our_area)
            &&& theirs.areas_of_interest.lookup(their_handle@) matches Some(their_area)
            &&& ours.capabilities.lookup(our_area.authorisation@) matches Some(our_capability)
            &&& theirs.capabilities.lookup(their_area.authorisation@) matches Some(
                their_capability,
            )
            &&& found.our_handle == our_handle
            &&& found.their_handle == their_handle
            &&& found.namespace == our_capability.namespace
            &&& found.namespace == their_capability.namespace
            &&& found.intersection@ == our_area.area_of_interest.area@.intersect(
                their_area.area_of_interest.area@,
            )
            &&& found.intersection@ != Set::<int>::empty()
            &&& found.intersection@.subset_of(our_capability.area@)
            &&& found.intersection@.subset_of(their_capability.area@)
        },
{
    if spec_intersection(ours, our_handle, theirs, their_handle) is Some {
        let our = ours.declaration(our_handle@).unwrap();
        let their = theirs.declaration(their_handle@).unwrap();
        lemma_intersect_sound(our_handle, our.0, our.1, their_handle, their.0, their.1);
    }
}

/// The pair of handles, ours first, made of `handle`, which belongs to the
/// peer that `scope` names, and `other`, which belongs to the other peer.
pub open spec fn spec_oriented(scope: Scope, handle: AreaOfInterestHandle, other: u64) -> (
    AreaOfInterestHandle,
    AreaOfInterestHandle,
) {
    match scope {
        Scope::Ours => (handle, AreaOfInterestHandle(other)),
        Scope::Theirs => (AreaOfInterestHandle(other), handle),
    }
}

/// The intersections of the area bound under `handle` by the peer that
/// `scope` names with the areas that the other peer bound under the handles
/// below `limit`, in the order of those handles.
pub open spec fn spec_intersections_below(
    ours: MapsView,
    theirs: MapsView,
    scope: Scope,
    handle: AreaOfInterestHandle,
    limit: nat,
) -> Seq<AreaOfInterestIntersection>
    decreases limit,
{
    if limit == 0 {
        Seq::empty()
    } else {
        let before = spec_intersections_below(ours, theirs, scope, handle, (limit - 1) as nat);
        let pair = spec_oriented(scope, handle, (limit - 1) as u64);
        match spec_intersection(ours, pair.0, theirs, pair.1) {
            Some(found) => before.push(found),
            None => before,
        }
    }
}

impl Resources {
    /// The area of interest bound under `handle` by the peer that `scope`
    /// names, with the capability under which it is declared, if both are
    /// bound.
    fn declaration(&self, scope: Scope, handle: &AreaOfInterestHandle) -> (declared: Option<
        (ReadCapability, Area),
    >)
        ensures
            declared == self.spec_scope(scope).views().declaration(handle@),
    {
        let maps = self.scope(scope);
        match maps.areas_of_interest.get(handle) {
            Some(bound) => match maps.capabilities.get(&bound.authorisation) {
                Some(capability) => Some((*capability, bound.area_of_interest.area)),
                None => None,
            },
            None => None,
        }
    }

    /// What the area that we bound under `our_handle` shares with the area
    /// that the other peer bound under `their_handle`.
    pub fn intersection(
        &self,
        our_handle: AreaOfInterestHandle,
        their_handle: AreaOfInterestHandle,
    ) -> (found: Option<AreaOfInterestIntersection>)
        ensures
            found == spec_intersection(
                self.ours.views(),
                our_handle,
                self.theirs.views(),
                their_handle,
            ),
    {
        let our = match self.declaration(Scope::Ours, &our_handle) {
            Some(our) => our,
            None => {
                return None;
            },
        };
        let their = match self.declaration(Scope::Theirs, &their_handle) {
            Some(their) => their,
            None => {
                return None;
            },
        };
        intersect(our_handle, &our.0, &our.1, their_handle, &their.0, &their.1)
    }

    /// The intersections of the area bound under `handle` by the peer that
    /// `scope` names with each area that the other peer has bound, in the
    /// order in which the other peer bound them.
    pub fn intersections_with(&self, scope: Scope, handle: AreaOfInterestHandle) -> (found: Vec<
        AreaOfInterestIntersection,
    >)
        ensures
            found@ == spec_intersections_below(
                self.ours.views(),
                self.theirs.views(),
                scope,
                handle,
                match scope {
                    Scope::Ours => self.theirs.areas_of_interest@.next,
                    Scope::Theirs => self.ours.areas_of_interest@.next,
                } as nat,
            ),
    {
        let candidates = match scope {
            Scope::Ours => self.theirs.areas_of_interest.len(),
            Scope::Theirs => self.ours.areas_of_interest.len(),
        };
        let mut found: Vec<AreaOfInterestIntersection> = Vec::new();
        let mut k: u64 = 0;
        while k < candidates
            invariant
                k <= candidates,
                found@ == spec_intersections_below(
                    self.ours.views(),
                    self.theirs.views(),
                    scope,
                    handle,
                    k as nat,
                ),
            decreases candidates - k,
        {
            let other = AreaOfInterestHandle::from_value(k);
            let step = match scope {
                Scope::Ours => self.intersection(handle, other),
                Scope::Theirs => self.intersection(other, handle),
            };
            if let Some(intersection) = step {
                found.push(intersection);
            }
            k += 1;
        }
        found
    }
}

} // verus!
