//! The registry of bound resources.

use crate::proto::wgps::{
    AreaOfInterestHandle, CapabilityHandle, IsHandle, ReadCapability, ResourceHandle,
    SetupBindAreaOfInterest, StaticToken, StaticTokenHandle,
};
use crate::session::model::TableView;
use crate::session::task::{spec_marks, spec_unmarked, spec_will_wake};
use crate::session::{Error, Scope};
use std::collections::{HashMap, VecDeque};
use std::marker::PhantomData;
use std::task::{Context, Poll, Waker};
use vstd::prelude::*;
use vstd::std_specs::cmp::PartialEqSpec;

verus! {

broadcast use vstd::std_specs::hash::group_hash_axioms;

/// A bound value, as the table stores it.
#[derive(Debug)]
pub struct Resource<V> {
    /// The value that was bound.
    pub value: V,
}

impl<V> Resource<V> {
    /// Wraps a value for storing.
    pub fn new(value: V) -> (resource: Self)
        ensures
            resource.value == value,
    {
        Self { value }
    }
}

/// A table of the resources of one kind that one peer has bound.
#[derive(Debug)]
pub struct ResourceMap<H, R> {
    next_handle: u64,
    map: HashMap<u64, Resource<R>>,
    wakers: HashMap<u64, VecDeque<Waker>>,
    kind: PhantomData<H>,
}

impl<H, R> View for ResourceMap<H, R> {
    type V = TableView<R>;

    closed spec fn view(&self) -> TableView<R> {
        TableView {
            next: self.next_handle,
            bound: self.map@.map_values(|r: Resource<R>| r.value),
            waiting: self.wakers@.map_values(|q: VecDeque<Waker>| q@),
        }
    }
}

impl<H, R> Default for ResourceMap<H, R> {
    fn default() -> (table: Self)
        ensures
            table@ == TableView::<R>::empty(),
            table@.wf(),
    {
        Self { next_handle: 0, map: HashMap::new(), wakers: HashMap::new(), kind: PhantomData }
    }
}

/// Wakes the tasks behind `queue`, from the front to the back. Returns the
/// record of the wakers on which `wake` was called, in the order of the calls.
fn wake_all(queue: VecDeque<Waker>) -> (woken: Ghost<Seq<Waker>>)
    ensures
        woken@ == queue@,
{
    let mut rest = queue;
    let ghost mut record: Seq<Waker> = Seq::empty();
    while rest.len() > 0
        invariant
            record + rest@ == queue@,
        decreases rest@.len(),
    {
        let ghost before = rest@;
        if let Some(waker) = rest.pop_front() {
            proof {
                record = record.push(waker);
                assert(record + rest@ == queue@) by {
                    assert(before == seq![waker] + rest@);
                    assert(record + rest@ =~= (record.drop_last() + before));
                }
            }
            waker.wake();
        }
    }
    proof {
        assert(record == record + rest@);
    }
    Ghost(record)
}

impl<H: IsHandle, R> ResourceMap<H, R> {
    /// The number of resources bound so far, which is the number of the handle
    /// that the next `bind` issues.
    pub fn len(&self) -> (n: u64)
        ensures
            n == self@.next,
    {
        self.next_handle
    }

    /// The bound resources with their handles, in the order they were bound.
    pub fn iter(&self) -> (entries: Vec<(H, &R)>)
        requires
            self@.wf(),
        ensures
            entries@.len() == self@.next,
            forall|i: int|
                0 <= i < entries@.len() ==> {
                    &&& (#[trigger] entries@[i]).0@ == i
                    &&& *entries@[i].1 == self@.bound[i as u64]
                },
    {
        let mut entries: Vec<(H, &R)> = Vec::new();
        let mut k: u64 = 0;
        while k < self.next_handle
            invariant
                self@.wf(),
                k <= self.next_handle,
                entries@.len() == k,
                forall|i: int|
                    0 <= i < entries@.len() ==> {
                        &&& (#[trigger] entries@[i]).0@ == i
                        &&& *entries@[i].1 == self@.bound[i as u64]
                    },
            decreases self.next_handle - k,
        {
            assert(self@.bound.contains_key(k));
            if let Some(r) = self.map.get(&k) {
                entries.push((H::from_value(k), &r.value));
            }
            k += 1;
        }
        entries
    }

    /// Takes the queue of wakers that wait for the handle numbered `k` out of
    /// the table.
    fn take_waiters(&mut self, k: u64) -> (queue: VecDeque<Waker>)
        ensures
            queue@ == old(self)@.waiters(k),
            final(self)@ == (TableView { waiting: old(self)@.waiting.remove(k), ..old(self)@ }),
    {
        let taken = self.wakers.remove(&k);
        proof {
            assert(self@.waiting =~= old(self)@.waiting.remove(k));
        }
        match taken {
            Some(queue) => queue,
            None => VecDeque::new(),
        }
    }

    /// Binds `resource` under the next handle of this table, takes the queue
    /// of that handle, `old(self)@.released()`, out of the table, and hands
    /// it to the loop that wakes its tasks from the first to the last.
    pub fn bind(&mut self, resource: R) -> (handle: H)
        requires
            old(self)@.wf(),
            old(self)@.next < u64::MAX,
        ensures
            handle@ == old(self)@.next,
            final(self)@ == old(self)@.bind(resource),
            final(self)@.wf(),
    {
        let k = self.next_handle;
        self.next_handle = k + 1;
        self.map.insert(k, Resource::new(resource));
        proof {
            assert(self@.bound =~= old(self)@.bound.insert(k, resource));
        }
        let released = self.take_waiters(k);
        let woken = wake_all(released);
        assert(woken@ == old(self)@.released());
        H::from_value(k)
    }

    /// Puts `notifier` at the end of the queue of wakers that wait for `handle`.
    pub fn register_waker(&mut self, handle: H, notifier: Waker)
        requires
            old(self)@.wf(),
        ensures
            final(self)@ == old(self)@.register(handle@, notifier),
            final(self)@.wf(),
    {
        let k = handle.value();
        let queue = self.wakers.entry(k).or_insert(VecDeque::new());
        queue.push_back(notifier);
        proof {
            assert(self@.waiting =~= old(self)@.waiting.insert(
                k,
                old(self)@.waiters(k).push(notifier),
            ));
        }
    }

    /// Takes out of the queue for `handle` the wakers that are known to wake
    /// the task of `waker`, for a task that has given up waiting. The wakers
    /// that stay keep their order. Returns how many were taken out.
    pub fn remove_waker(&mut self, handle: H, waker: &Waker) -> (removed: usize)
        requires
            old(self)@.wf(),
        ensures
            final(self)@.wf(),
            final(self)@ == old(self)@.remove_waker(handle@, *waker),
            removed == old(self)@.waiters(handle@).len() - final(self)@.waiters(handle@).len(),
    {
        let k = handle.value();
        let mut queue = self.take_waiters(k);
        let mut kept: VecDeque<Waker> = VecDeque::new();
        let mut removed: usize = 0;
        let total = queue.len();
        let ghost all = queue@;
        let ghost mut gone: Seq<bool> = Seq::empty();
        while queue.len() > 0
            invariant
                self@ == (TableView { waiting: old(self)@.waiting.remove(k), ..old(self)@ }),
                old(self)@.wf(),
                all == old(self)@.waiters(k),
                all.len() == total,
                gone.len() + queue@.len() == all.len(),
                queue@ == all.skip(gone.len() as int),
                kept@ == spec_unmarked(all.take(gone.len() as int), gone),
                removed + kept@.len() == gone.len(),
                forall|i: int| 0 <= i < gone.len() ==> gone[i] == spec_will_wake(all[i], *waker),
            decreases queue@.len(),
        {
            let ghost before = gone;
            if let Some(candidate) = queue.pop_front() {
                let same = candidate.will_wake(waker);
                proof {
                    gone = before.push(same);
                    assert(gone.drop_last() == before);
                    assert(all.take(gone.len() as int).drop_last() == all.take(
                        before.len() as int,
                    ));
                    assert(all.take(gone.len() as int).last() == candidate);
                }
                if same {
                    removed = removed + 1;
                } else {
                    kept.push_back(candidate);
                }
            }
        }
        proof {
            assert(all.take(gone.len() as int) == all);
            assert(gone == spec_marks(all, *waker));
        }
        let ghost stay = kept@;
        let ghost emptied = self@;
        if kept.len() > 0 {
            self.wakers.insert(k, kept);
            proof {
                assert(self@.waiting =~= emptied.waiting.insert(k, stay));
                assert(self@.waiting =~= old(self)@.waiting.insert(k, stay));
            }
        }
        proof {
            assert(stay == spec_unmarked(old(self)@.waiters(k), gone));
            assert(self@.waiting =~= old(self)@.unregister(k, gone).waiting);
        }
        removed
    }

    /// Binds `resource` unless an equal value is bound already. Returns the
    /// lowest handle that holds an equal value and `false`, or else the new
    /// handle and `true`.
    pub fn bind_if_new(&mut self, resource: R) -> (found: (H, bool)) where R: PartialEq
        requires
            old(self)@.wf(),
            old(self)@.next < u64::MAX,
        ensures
            final(self)@.wf(),
            found.1 ==> found.0@ == old(self)@.next && final(self)@ == old(self)@.bind(resource),
            !found.1 ==> found.0@ < old(self)@.next && final(self)@ == old(self)@,
            R::obeys_eq_spec() ==> (final(self)@, found.0@, found.1) == old(self)@.bind_if_new(
                resource,
            ),
            R::obeys_eq_spec() ==> (found.1 <==> old(self)@.none_equal_below(
                old(self)@.next,
                resource,
            )),
            R::obeys_eq_spec() && !found.1 ==> old(self)@.holds_equal(found.0@, resource)
                && old(self)@.none_equal_below(found.0@, resource),
    {
        let mut k: u64 = 0;
        while k < self.next_handle
            invariant
                *self == *old(self),
                self@.wf(),
                k <= self.next_handle,
                R::obeys_eq_spec() ==> self@.none_equal_below(k, resource),
            decreases self.next_handle - k,
        {
            if let Some(r) = self.map.get(&k) {
                if r.value == resource {
                    proof {
                        assert(self@.bound[k] == r.value);
                        if R::obeys_eq_spec() {
                            self@.lemma_first_equal_is(resource, k);
                        }
                    }
                    return (H::from_value(k), false);
                }
            }
            k += 1;
        }
        proof {
            if R::obeys_eq_spec() {
                self@.lemma_first_equal_none(resource);
            }
        }
        let handle = self.bind(resource);
        (handle, true)
    }

    /// The value bound under `handle`, or the error that names the handle if
    /// nothing is bound under it.
    pub fn try_get(&self, handle: &H) -> (value: Result<&R, Error>)
        ensures
            match value {
                Ok(v) => self@.lookup(handle@) == Some(*v),
                Err(e) => self@.lookup(handle@) is None && e == Error::MissingResource(
                    handle.spec_resource_handle(),
                ),
            },
    {
        let k = handle.value();
        match self.map.get(&k) {
            Some(r) => Ok(&r.value),
            None => Err(Error::MissingResource(handle.resource_handle())),
        }
    }

    /// The value bound under `handle`, if any.
    pub fn get(&self, handle: &H) -> (value: Option<&R>)
        ensures
            match value {
                Some(v) => self@.lookup(handle@) == Some(*v),
                None => self@.lookup(handle@) is None,
            },
    {
        let k = handle.value();
        match self.map.get(&k) {
            Some(r) => Some(&r.value),
            None => None,
        }
    }

    /// One step of waiting for `handle` by the task behind `waker`, without
    /// the value: whether `handle` is bound. If it is not, `waker` takes its
    /// place at the end of the queue for `handle`, in the same step, and the
    /// wakers that are known to wake the same task leave the queue.
    pub fn poll_with_waker(&mut self, handle: H, waker: Waker) -> (bound: bool)
        requires
            old(self)@.wf(),
        ensures
            final(self)@.wf(),
            bound == old(self)@.bound.contains_key(handle@),
            final(self)@ == old(self)@.poll(handle@, waker).0,
    {
        let k = handle.value();
        if self.map.contains_key(&k) {
            true
        } else {
            self.remove_waker(handle, &waker);
            self.register_waker(handle, waker);
            false
        }
    }

    /// One step of waiting for `handle` by the task that is being polled,
    /// without the value: whether `handle` is bound. If it is not, a waker
    /// of the polling task takes its place at the end of the queue for
    /// `handle`, as in [`Self::poll_with_waker`].
    pub fn poll_bound(&mut self, handle: H, cx: &mut Context<'_>) -> (bound: bool)
        requires
            old(self)@.wf(),
        ensures
            final(self)@.wf(),
            bound == old(self)@.bound.contains_key(handle@),
            exists|waker: Waker| #[trigger] old(self)@.poll(handle@, waker).0 == final(self)@,
    {
        let k = handle.value();
        if self.map.contains_key(&k) {
            proof {
                let any: Waker = arbitrary();
                assert(self@.poll(handle@, any).0 == self@);
            }
            true
        } else {
            let waker = cx.waker().clone();
            self.poll_with_waker(handle, waker)
        }
    }

    /// One step of waiting for `handle`: the value if it is bound; else the
    /// polling task's waker takes its place at the end of the queue for
    /// `handle`, in the same step, and the answer is `Pending`.
    pub fn poll_get_eventually(&mut self, handle: H, cx: &mut Context<'_>) -> (value: Poll<&R>)
        requires
            old(self)@.wf(),
        ensures
            final(self)@.wf(),
            exists|waker: Waker|
                #[trigger] old(self)@.poll(handle@, waker) == (
                    final(self)@,
                    match value {
                        Poll::Ready(v) => Some(*v),
                        Poll::Pending => None,
                    },
                ),
    {
        if self.poll_bound(handle, cx) {
            proof {
                let waker = choose|waker: Waker|
                    #[trigger] old(self)@.poll(handle@, waker).0 == self@;
                assert(old(self)@.poll(handle@, waker) == (
                    self@,
                    Some(old(self)@.bound[handle@]),
                ));
            }
            let k = handle.value();
            Poll::Ready(&self.map.get(&k).unwrap().value)
        } else {
            proof {
                let waker = choose|waker: Waker|
                    #[trigger] old(self)@.poll(handle@, waker).0 == self@;
                assert(old(self)@.poll(handle@, waker) == (self@, None::<R>));
            }
            Poll::Pending
        }
    }
}

/// A bound resource of any kind.
#[derive(Debug, Clone, Copy, PartialEq, Eq)]
pub enum ResourceValue {
    /// A read capability.
    Capability(ReadCapability),
    /// The binding of an area of interest.
    AreaOfInterest(SetupBindAreaOfInterest),
    /// A static token.
    StaticToken(StaticToken),
}

/// What the tables of one peer are, as far as contracts are concerned.
#[verifier::ext_equal]
pub struct MapsView {
    /// The table of read capabilities.
    pub capabilities: TableView<ReadCapability>,
    /// The table of areas of interest.
    pub areas_of_interest: TableView<SetupBindAreaOfInterest>,
    /// The table of static tokens.
    pub static_tokens: TableView<StaticToken>,
}

impl MapsView {
    /// The tables in which nothing was bound and for which nobody waits.
    pub open spec fn empty() -> Self {
        MapsView {
            capabilities: TableView::empty(),
            areas_of_interest: TableView::empty(),
            static_tokens: TableView::empty(),
        }
    }

    /// Whether each of the tables is well formed.
    pub open spec fn wf(self) -> bool {
        &&& self.capabilities.wf()
        &&& self.areas_of_interest.wf()
        &&& self.static_tokens.wf()
    }

    /// Whether nothing was bound in any of the tables.
    pub open spec fn nothing_bound(self) -> bool {
        &&& self.capabilities.next == 0
        &&& self.areas_of_interest.next == 0
        &&& self.static_tokens.next == 0
    }

    /// The resource bound under `handle` in the table of its kind, if any.
    pub open spec fn value_of(self, handle: ResourceHandle) -> Option<ResourceValue> {
        match handle {
            ResourceHandle::Capability(h) => if self.capabilities.bound.contains_key(h@) {
                Some(ResourceValue::Capability(self.capabilities.bound[h@]))
            } else {
                None
            },
            ResourceHandle::AreaOfInterest(h) => if self.areas_of_interest.bound.contains_key(
                h@,
            ) {
                Some(ResourceValue::AreaOfInterest(self.areas_of_interest.bound[h@]))
            } else {
                None
            },
            ResourceHandle::StaticToken(h) => if self.static_tokens.bound.contains_key(h@) {
                Some(ResourceValue::StaticToken(self.static_tokens.bound[h@]))
            } else {
                None
            },
            ResourceHandle::Intersection(_) => None,
        }
    }

    /// One step of waiting for `handle` in the table of its kind by the task
    /// behind `waker`: the tables afterwards, and the value if `handle` is
    /// bound. There is no table of intersections.
    pub open spec fn poll(self, handle: ResourceHandle, waker: Waker) -> (
        MapsView,
        Option<ResourceValue>,
    ) {
        match handle {
            ResourceHandle::Capability(h) => {
                let polled = self.capabilities.poll(h@, waker);
                (
                    MapsView { capabilities: polled.0, ..self },
                    match polled.1 {
                        Some(v) => Some(ResourceValue::Capability(v)),
                        None => None,
                    },
                )
            },
            ResourceHandle::AreaOfInterest(h) => {
                let polled = self.areas_of_interest.poll(h@, waker);
                (
                    MapsView { areas_of_interest: polled.0, ..self },
                    match polled.1 {
                        Some(v) => Some(ResourceValue::AreaOfInterest(v)),
                        None => None,
                    },
                )
            },
            ResourceHandle::StaticToken(h) => {
                let polled = self.static_tokens.poll(h@, waker);
                (
                    MapsView { static_tokens: polled.0, ..self },
                    match polled.1 {
                        Some(v) => Some(ResourceValue::StaticToken(v)),
                        None => None,
                    },
                )
            },
            ResourceHandle::Intersection(_) => (self, None),
        }
    }

    /// A poll binds nothing and keeps the tables well formed.
    pub proof fn lemma_poll_binds_nothing(self, handle: ResourceHandle, waker: Waker)
        requires
            self.wf(),
        ensures
            self.poll(handle, waker).0.wf(),
            self.poll(handle, waker).0.nothing_bound() == self.nothing_bound(),
    {
        match handle {
            ResourceHandle::Capability(h) => {
                if !self.capabilities.bound.contains_key(h@) {
                    self.capabilities.lemma_poll_pending(h@, waker);
                }
            },
            ResourceHandle::AreaOfInterest(h) => {
                if !self.areas_of_interest.bound.contains_key(h@) {
                    self.areas_of_interest.lemma_poll_pending(h@, waker);
                }
            },
            ResourceHandle::StaticToken(h) => {
                if !self.static_tokens.bound.contains_key(h@) {
                    self.static_tokens.lemma_poll_pending(h@, waker);
                }
            },
            ResourceHandle::Intersection(_) => {},
        }
    }

    /// The tables after `waker` joined the end of the queue for `handle` in the
    /// table of its kind. There is no table of intersections.
    pub open spec fn register(self, handle: ResourceHandle, waker: Waker) -> Self {
        match handle {
            ResourceHandle::Capability(h) => MapsView {
                capabilities: self.capabilities.register(h@, waker),
                ..self
            },
            ResourceHandle::AreaOfInterest(h) => MapsView {
                areas_of_interest: self.areas_of_interest.register(h@, waker),
                ..self
            },
            ResourceHandle::StaticToken(h) => MapsView {
                static_tokens: self.static_tokens.register(h@, waker),
                ..self
            },
            ResourceHandle::Intersection(_) => self,
        }
    }
}

/// The tables of one peer's bound resources, one for each kind.
#[derive(Debug)]
pub struct ResourceMaps {
    /// The read capabilities.
    pub capabilities: ResourceMap<CapabilityHandle, ReadCapability>,
    /// The areas of interest.
    pub areas_of_interest: ResourceMap<AreaOfInterestHandle, SetupBindAreaOfInterest>,
    /// The static tokens.
    pub static_tokens: ResourceMap<StaticTokenHandle, StaticToken>,
}

impl ResourceMaps {
    /// The three tables, each by its view.
    pub open spec fn views(self) -> MapsView {
        MapsView {
            capabilities: self.capabilities@,
            areas_of_interest: self.areas_of_interest@,
            static_tokens: self.static_tokens@,
        }
    }

    /// Whether each of the tables is well formed.
    pub open spec fn wf(self) -> bool {
        self.views().wf()
    }

    /// A copy of the value bound under `handle` in the table that `selector`
    /// picks, or the error that names the handle.
    pub fn get<F, H: IsHandle, R: Clone>(&self, selector: F, handle: H) -> (value: Result<
        R,
        Error,
    >) where F: for <'a>Fn(&'a Self) -> &'a ResourceMap<H, R>
        requires
            call_requires(selector, (self,)),
        ensures
            exists|table: &ResourceMap<H, R>|
                {
                    &&& call_ensures(selector, (self,), table)
                    &&& match value {
                        Ok(v) => table@.bound.contains_key(handle@) && cloned(
                            table@.bound[handle@],
                            v,
                        ),
                        Err(e) => !table@.bound.contains_key(handle@) && e
                            == Error::MissingResource(handle.spec_resource_handle()),
                    }
                },
    {
        let res = selector(self);
        match res.try_get(&handle) {
            Ok(v) => Ok(v.clone()),
            Err(e) => Err(e),
        }
    }

    /// Puts `waker` at the end of the queue for `handle`, in the table of the
    /// handle's kind. Intersections are computed, never bound, so nobody can
    /// wait for one.
    pub fn register_waker(&mut self, handle: ResourceHandle, waker: Waker)
        requires
            old(self).wf(),
            !(handle is Intersection),
        ensures
            final(self).wf(),
            final(self).views() == old(self).views().register(handle, waker),
    {
        match handle {
            ResourceHandle::AreaOfInterest(h) => self.areas_of_interest.register_waker(h, waker),
            ResourceHandle::Capability(h) => self.capabilities.register_waker(h, waker),
            ResourceHandle::StaticToken(h) => self.static_tokens.register_waker(h, waker),
            ResourceHandle::Intersection(_h) => unreached(),
        }
    }

    /// One step of waiting for `handle` in the table of the handle's kind: a
    /// copy of the value if it is bound; else the polling task's waker takes
    /// its place at the end of the queue for `handle` and the answer is
    /// `Pending`.
    pub fn poll_get_eventually(&mut self, handle: ResourceHandle, cx: &mut Context<'_>) -> (value:
        Poll<ResourceValue>)
        requires
            old(self).wf(),
            !(handle is Intersection),
        ensures
            final(self).wf(),
            exists|waker: Waker|
                #[trigger] old(self).views().poll(handle, waker) == (
                    final(self).views(),
                    match value {
                        Poll::Ready(v) => Some(v),
                        Poll::Pending => None,
                    },
                ),
    {
        match handle {
            ResourceHandle::AreaOfInterest(h) => {
                let polled = self.areas_of_interest.poll_get_eventually(h, cx);
                let ghost found = match polled {
                    Poll::Ready(r) => Some(*r),
                    Poll::Pending => None,
                };
                let value = match polled {
                    Poll::Ready(r) => Poll::Ready(ResourceValue::AreaOfInterest(*r)),
                    Poll::Pending => Poll::Pending,
                };
                proof {
                    let waker = choose|waker: Waker|
                        #[trigger] old(self).areas_of_interest@.poll(h@, waker) == (self.areas_of_interest@, found);
                    assert(old(self).views().poll(handle, waker).0 == self.views());
                }
                value
            },
            ResourceHandle::Capability(h) => {
                let polled = self.capabilities.poll_get_eventually(h, cx);
                let ghost found = match polled {
                    Poll::Ready(r) => Some(*r),
                    Poll::Pending => None,
                };
                let value = match polled {
                    Poll::Ready(r) => Poll::Ready(ResourceValue::Capability(*r)),
                    Poll::Pending => Poll::Pending,
                };
                proof {
                    let waker = choose|waker: Waker|
                        #[trigger] old(self).capabilities@.poll(h@, waker) == (self.capabilities@, found);
                    assert(old(self).views().poll(handle, waker).0 == self.views());
                }
                value
            },
            ResourceHandle::StaticToken(h) => {
                let polled = self.static_tokens.poll_get_eventually(h, cx);
                let ghost found = match polled {
                    Poll::Ready(r) => Some(*r),
                    Poll::Pending => None,
                };
                let value = match polled {
                    Poll::Ready(r) => Poll::Ready(ResourceValue::StaticToken(*r)),
                    Poll::Pending => Poll::Pending,
                };
                proof {
                    let waker = choose|waker: Waker|
                        #[trigger] old(self).static_tokens@.poll(h@, waker) == (self.static_tokens@, found);
                    assert(old(self).views().poll(handle, waker).0 == self.views());
                }
                value
            },
            ResourceHandle::Intersection(_h) => unreached(),
        }
    }
}

impl Default for ResourceMaps {
    fn default() -> (maps: Self)
        ensures
            maps.wf(),
            maps.views() == MapsView::empty(),
    {
        ResourceMaps {
            capabilities: ResourceMap::default(),
            areas_of_interest: ResourceMap::default(),
            static_tokens: ResourceMap::default(),
        }
    }
}

/// The resources of a session: those that we bound and those that the other
/// peer bound, in tables of their own, so that a handle of ours is never taken
/// for one of theirs.
#[derive(Debug)]
pub struct Resources {
    /// The resources bound by ourselves.
    pub ours: ResourceMaps,
    /// The resources bound by the other peer.
    pub theirs: ResourceMaps,
}

impl Resources {
    /// Whether the tables of both peers are well formed.
    pub open spec fn wf(self) -> bool {
        self.ours.wf() && self.theirs.wf()
    }

    /// The tables of the peer that `scope` names.
    pub open spec fn spec_scope(self, scope: Scope) -> ResourceMaps {
        match scope {
            Scope::Ours => self.ours,
            Scope::Theirs => self.theirs,
        }
    }

    /// The tables of the peer that `scope` names.
    pub fn scope(&self, scope: Scope) -> (maps: &ResourceMaps)
        ensures
            *maps == self.spec_scope(scope),
    {
        match scope {
            Scope::Ours => &self.ours,
            Scope::Theirs => &self.theirs,
        }
    }

    /// The tables of the peer that `scope` names, to change them.
    pub fn scope_mut(&mut self, scope: Scope) -> (maps: &mut ResourceMaps)
        ensures
            *maps == old(self).spec_scope(scope),
            *final(self) == match scope {
                Scope::Ours => Resources { ours: *final(maps), theirs: old(self).theirs },
                Scope::Theirs => Resources { ours: old(self).ours, theirs: *final(maps) },
            },
    {
        match scope {
            Scope::Ours => &mut self.ours,
            Scope::Theirs => &mut self.theirs,
        }
    }
}

impl Default for Resources {
    fn default() -> (resources: Self)
        ensures
            resources.wf(),
            resources.ours.views() == MapsView::empty(),
            resources.theirs.views() == MapsView::empty(),
    {
        Resources { ours: ResourceMaps::default(), theirs: ResourceMaps::default() }
    }
}

} // verus!
