//! Areas: the regions of a namespace that peers declare and compare.

use vstd::prelude::*;

verus! {

/// A region of a namespace: the positions from `start` up to, but not
/// including, `end`. An area with `end <= start` holds no position.
#[derive(Debug, Clone, Copy, PartialEq, Eq, Hash, Structural)]
pub struct Area {
    /// The first position of the area.
    pub start: u64,
    /// The position after the last one of the area.
    pub end: u64,
}

impl View for Area {
    type V = Set<int>;

    /// The positions that the area holds.
    open spec fn view(&self) -> Set<int> {
        Set::new(|x: int| self.start <= x < self.end)
    }
}

impl Area {
    /// The area from `start` up to, but not including, `end`.
    pub fn new(start: u64, end: u64) -> (area: Self)
        ensures
            area == (Area { start, end }),
    {
        Area { start, end }
    }

    /// Whether the area holds no position.
    pub open spec fn spec_is_empty(self) -> bool {
        self.end <= self.start
    }

    /// The positions that two areas share, as an area: it starts where the
    /// later of the two starts and ends where the earlier of the two ends.
    pub open spec fn common(self, other: Area) -> Area {
        Area {
            start: if self.start >= other.start {
                self.start
            } else {
                other.start
            },
            end: if self.end <= other.end {
                self.end
            } else {
                other.end
            },
        }
    }

    /// Whether the area reaches at least as far as `other` on both sides, or
    /// `other` is empty.
    pub open spec fn spec_includes_area(self, other: Area) -> bool {
        other.spec_is_empty() || (self.start <= other.start && other.end <= self.end)
    }

    /// An area is empty exactly if it holds no position; it includes another
    /// exactly if it holds every position of the other; and what two areas
    /// share holds exactly the positions that both hold.
    pub proof fn lemma_common(self, other: Area)
        ensures
            self.spec_is_empty() <==> self@ == Set::<int>::empty(),
            self.spec_includes_area(other) <==> other@.subset_of(self@),
            self.common(other)@ == self@.intersect(other@),
            self.common(other) == other.common(self),
            self.spec_includes_area(self.common(other)),
    {
        if self.start < self.end {
            assert(self@.contains(self.start as int));
        } else {
            assert(self@ =~= Set::<int>::empty());
        }
        if other.start < other.end {
            assert(other@.contains(other.start as int));
            assert(other@.contains(other.end - 1));
        }
        assert(self.common(other)@ =~= self@.intersect(other@));
    }

    /// Whether the area holds no position.
    pub fn is_empty(&self) -> (empty: bool)
        ensures
            empty == self.spec_is_empty(),
            empty == (self@ == Set::<int>::empty()),
    {
        proof {
            self.lemma_common(*self);
        }
        self.end <= self.start
    }

    /// Whether the area holds the position `x`.
    pub fn includes(&self, x: u64) -> (inside: bool)
        ensures
            inside == self@.contains(x as int),
    {
        self.start <= x && x < self.end
    }

    /// Whether every position of `other` is a position of this area.
    pub fn includes_area(&self, other: &Area) -> (inside: bool)
        ensures
            inside == self.spec_includes_area(*other),
            inside == other@.subset_of(self@),
    {
        proof {
            self.lemma_common(*other);
        }
        other.end <= other.start || (self.start <= other.start && other.end <= self.end)
    }

    /// The area that two areas have in common, or `None` if they share no
    /// position.
    pub fn intersection(&self, other: &Area) -> (common: Option<Area>)
        ensures
            common == if self.common(*other).spec_is_empty() {
                None
            } else {
                Some(self.common(*other))
            },
            match common {
                Some(area) => area@ == self@.intersect(other@) && area@ != Set::<int>::empty(),
                None => self@.intersect(other@) == Set::<int>::empty(),
            },
    {
        let start = if self.start >= other.start {
            self.start
        } else {
            other.start
        };
        let end = if self.end <= other.end {
            self.end
        } else {
            other.end
        };
        let area = Area { start, end };
        proof {
            self.lemma_common(*other);
            area.lemma_common(area);
        }
        if start < end {
            Some(area)
        } else {
            None
        }
    }
}

/// An area that a peer wishes to synchronise, with the limits it sets on what
/// it takes.
#[derive(Debug, Clone, Copy, PartialEq, Eq, Hash, Structural)]
pub struct AreaOfInterest {
    /// The area.
    pub area: Area,
    /// The largest number of entries wanted, or 0 for no limit.
    pub max_count: u64,
    /// The largest total size of entries wanted, or 0 for no limit.
    pub max_size: u64,
}

impl AreaOfInterest {
    /// An area of interest without limits.
    pub fn new(area: Area) -> (interest: Self)
        ensures
            interest == (AreaOfInterest { area, max_count: 0, max_size: 0 }),
    {
        AreaOfInterest { area, max_count: 0, max_size: 0 }
    }
}

} // verus!
