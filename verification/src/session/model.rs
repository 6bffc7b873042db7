//! What a table of bound resources is, as far as contracts are concerned, and
//! what follows from that.

use crate::session::task::{
    lemma_unmarked, lemma_without, lemma_without_last, spec_marks, spec_unmarked, spec_will_wake,
    spec_without,
};
use std::task::Waker;
use vstd::prelude::*;
use vstd::std_specs::cmp::PartialEqSpec;

verus! {

/// The state of a table: what is bound in it, and who waits for what.
#[verifier::ext_equal]
pub struct TableView<R> {
    /// The number of the handle that the next `bind` issues.
    pub next: u64,
    /// The value bound under each handle that was issued.
    pub bound: Map<u64, R>,
    /// For each handle that tasks wait for, their wakers, first come first.
    pub waiting: Map<u64, Seq<Waker>>,
}

impl<R> TableView<R> {
    /// The table in which nothing was bound and for which nobody waits.
    pub open spec fn empty() -> Self {
        TableView { next: 0, bound: Map::empty(), waiting: Map::empty() }
    }

    /// What holds of every table: the handles issued so far are exactly those
    /// below `next`, each with its value, and no queue of waiters is empty.
    pub open spec fn wf(self) -> bool {
        &&& forall|k: u64| self.bound.contains_key(k) <==> k < self.next
        &&& forall|k: u64| self.waiting.contains_key(k) ==> self.waiting[k].len() > 0
    }

    /// The value bound under handle `h`, if any.
    pub open spec fn lookup(self, h: u64) -> Option<R> {
        if self.bound.contains_key(h) {
            Some(self.bound[h])
        } else {
            None
        }
    }

    /// The wakers waiting for handle `h`, in the order they registered.
    pub open spec fn waiters(self, h: u64) -> Seq<Waker> {
        if self.waiting.contains_key(h) {
            self.waiting[h]
        } else {
            Seq::empty()
        }
    }

    /// The wakers that the next `bind` releases, in the order it wakes them.
    pub open spec fn released(self) -> Seq<Waker> {
        self.waiters(self.next)
    }

    /// The table after binding `value`: it sits under the handle `self.next`,
    /// and nobody waits for that handle any more.
    pub open spec fn bind(self, value: R) -> Self {
        TableView {
            next: (self.next + 1) as u64,
            bound: self.bound.insert(self.next, value),
            waiting: self.waiting.remove(self.next),
        }
    }

    /// The table after binding each of `values`, from the first to the last.
    pub open spec fn bind_all(self, values: Seq<R>) -> Self
        decreases values.len(),
    {
        if values.len() == 0 {
            self
        } else {
            self.bind_all(values.drop_last()).bind(values.last())
        }
    }

    /// The table after `waker` joined the end of the queue for handle `h`.
    pub open spec fn register(self, h: u64, waker: Waker) -> Self {
        TableView { waiting: self.waiting.insert(h, self.waiters(h).push(waker)), ..self }
    }

    /// The table after each of `wakers` joined the queue for handle `h`, from
    /// the first to the last.
    pub open spec fn register_all(self, h: u64, wakers: Seq<Waker>) -> Self
        decreases wakers.len(),
    {
        if wakers.len() == 0 {
            self
        } else {
            self.register_all(h, wakers.drop_last()).register(h, wakers.last())
        }
    }

    /// The table after the wakers at the positions marked in `gone` left the
    /// queue for handle `h`; the others keep their order.
    pub open spec fn unregister(self, h: u64, gone: Seq<bool>) -> Self {
        let kept = spec_unmarked(self.waiters(h), gone);
        TableView {
            waiting: if kept.len() == 0 {
                self.waiting.remove(h)
            } else {
                self.waiting.insert(h, kept)
            },
            ..self
        }
    }

    /// The table after the wakers that are known to wake the task of `waker`
    /// left the queue for handle `h`; the others keep their order.
    pub open spec fn remove_waker(self, h: u64, waker: Waker) -> Self {
        self.unregister(h, spec_marks(self.waiters(h), waker))
    }

    /// One step of waiting for handle `h` by the task behind `waker`: the
    /// value, with the table as it was, if `h` is bound; else no value, with
    /// `waker` at the end of the queue for `h` in place of the wakers that
    /// are known to wake the same task, so that a task that polls again is
    /// queued once. Looking and queueing are one step.
    pub open spec fn poll(self, h: u64, waker: Waker) -> (Self, Option<R>) {
        if self.bound.contains_key(h) {
            (self, Some(self.bound[h]))
        } else {
            (self.remove_waker(h, waker).register(h, waker), None)
        }
    }

    /// Whether the value bound under handle `k` equals `value`, as `==` on `R`
    /// decides it.
    pub open spec fn holds_equal(self, k: u64, value: R) -> bool where R: PartialEq {
        self.bound.contains_key(k) && self.bound[k].eq_spec(&value)
    }

    /// Whether no handle below `limit` holds a value equal to `value`.
    pub open spec fn none_equal_below(self, limit: u64, value: R) -> bool where R: PartialEq {
        forall|j: u64| j < limit ==> !self.holds_equal(j, value)
    }

    /// The lowest handle that holds a value equal to `value`, if there is one.
    pub open spec fn first_equal(self, value: R) -> Option<u64> where R: PartialEq {
        if exists|k: u64| self.holds_equal(k, value) {
            Some(choose|k: u64| self.holds_equal(k, value) && self.none_equal_below(k, value))
        } else {
            None
        }
    }

    /// Binding `value` unless an equal value is bound: the table afterwards,
    /// the handle under which the value then sits, and whether `value` was
    /// bound by this step.
    pub open spec fn bind_if_new(self, value: R) -> (Self, u64, bool) where R: PartialEq {
        match self.first_equal(value) {
            Some(k) => (self, k, false),
            None => (self.bind(value), self.next, true),
        }
    }

    /// A handle that holds an equal value while none below it does is the
    /// lowest such handle.
    pub proof fn lemma_first_equal_is(self, value: R, k: u64) where R: PartialEq
        requires
            self.holds_equal(k, value),
            self.none_equal_below(k, value),
        ensures
            self.first_equal(value) == Some(k),
    {
        let chosen = choose|j: u64| self.holds_equal(j, value) && self.none_equal_below(j, value);
        assert(self.holds_equal(chosen, value) && self.none_equal_below(chosen, value));
        if chosen < k {
            assert(!self.holds_equal(chosen, value));
        }
        if k < chosen {
            assert(!self.holds_equal(k, value));
        }
    }

    /// Below a handle that holds an equal value there is a lowest one that
    /// does.
    pub proof fn lemma_least_equal(self, value: R, k: u64) -> (least: u64) where R: PartialEq
        requires
            self.holds_equal(k, value),
        ensures
            least <= k,
            self.holds_equal(least, value),
            self.none_equal_below(least, value),
        decreases k,
    {
        if self.none_equal_below(k, value) {
            k
        } else {
            let j = choose|j: u64| j < k && self.holds_equal(j, value);
            self.lemma_least_equal(value, j)
        }
    }

    /// The lowest handle that holds an equal value does hold one, and no
    /// handle below it does.
    pub proof fn lemma_first_equal_some(self, value: R) where R: PartialEq
        ensures
            self.first_equal(value) matches Some(k) ==> self.holds_equal(k, value)
                && self.none_equal_below(k, value),
            self.first_equal(value) is None ==> forall|k: u64| !self.holds_equal(k, value),
    {
        if exists|k: u64| self.holds_equal(k, value) {
            let k = choose|k: u64| self.holds_equal(k, value);
            let least = self.lemma_least_equal(value, k);
            self.lemma_first_equal_is(value, least);
        }
    }

    /// Binding a value unless it is bound keeps a table well formed, issues
    /// at most one handle, and returns a handle under which a value is bound.
    pub proof fn lemma_bind_if_new(self, value: R) where R: PartialEq
        requires
            self.wf(),
            self.next < u64::MAX,
        ensures
            self.bind_if_new(value).0.wf(),
            self.bind_if_new(value).0.lookup(self.bind_if_new(value).1) is Some,
            self.bind_if_new(value).0.next == if self.bind_if_new(value).2 {
                self.next + 1
            } else {
                self.next as int
            },
            self.bind_if_new(value).1 < self.bind_if_new(value).0.next,
    {
        self.lemma_first_equal_some(value);
    }

    /// Where no issued handle holds an equal value, there is no lowest one.
    pub proof fn lemma_first_equal_none(self, value: R) where R: PartialEq
        requires
            self.wf(),
            self.none_equal_below(self.next, value),
        ensures
            self.first_equal(value) is None,
    {
        assert forall|k: u64| !self.holds_equal(k, value) by {
            if k < self.next {
                assert(!self.holds_equal(k, value));
            }
        }
    }

    /// Binding keeps a table well formed, issues the handle `next`, keeps
    /// what was bound before, and touches no queue but that of the handle it
    /// issues, which it empties.
    pub proof fn lemma_bind(self, value: R)
        requires
            self.wf(),
            self.next < u64::MAX,
        ensures
            self.bind(value).wf(),
            self.bind(value).next == self.next + 1,
            self.bind(value).lookup(self.next) == Some(value),
            self.bind(value).waiters(self.next) == Seq::<Waker>::empty(),
            forall|h: u64| h != self.next ==> self.bind(value).lookup(h) == self.lookup(h),
            forall|h: u64| h != self.next ==> self.bind(value).waiters(h) == self.waiters(h),
    {
    }

    /// Registering keeps a table well formed, changes nothing that is bound,
    /// and lengthens the queue of the one handle at its end.
    pub proof fn lemma_register(self, h: u64, waker: Waker)
        requires
            self.wf(),
        ensures
            self.register(h, waker).wf(),
            self.register(h, waker).next == self.next,
            self.register(h, waker).bound == self.bound,
            self.register(h, waker).waiters(h) == self.waiters(h).push(waker),
            forall|k: u64| k != h ==> self.register(h, waker).waiters(k) == self.waiters(k),
    {
    }

    /// Taking wakers out of the queue of one handle keeps a table well
    /// formed, changes nothing that is bound, and leaves the queues of the
    /// other handles alone. Taking none out changes nothing.
    pub proof fn lemma_unregister(self, h: u64, gone: Seq<bool>)
        requires
            self.wf(),
        ensures
            self.unregister(h, gone).wf(),
            self.unregister(h, gone).next == self.next,
            self.unregister(h, gone).bound == self.bound,
            self.unregister(h, gone).waiters(h) == spec_unmarked(self.waiters(h), gone),
            forall|k: u64| k != h ==> self.unregister(h, gone).waiters(k) == self.waiters(k),
            spec_unmarked(self.waiters(h), gone).len() <= self.waiters(h).len(),
            gone == Seq::new(self.waiters(h).len(), |i: int| false) ==> self.unregister(h, gone)
                == self,
    {
        lemma_unmarked(self.waiters(h), gone);
        if gone == Seq::new(self.waiters(h).len(), |i: int| false) {
            assert(self.unregister(h, gone).waiting =~= self.waiting);
        }
    }

    /// After a task gave up waiting for a handle, the queue for it holds no
    /// waker that is known to wake that task; the wakers of other tasks are
    /// all still there, in their order; nothing else changes.
    pub proof fn lemma_remove_waker(self, h: u64, waker: Waker)
        requires
            self.wf(),
        ensures
            self.remove_waker(h, waker).wf(),
            self.remove_waker(h, waker).next == self.next,
            self.remove_waker(h, waker).bound == self.bound,
            self.remove_waker(h, waker).waiters(h) == spec_without(self.waiters(h), waker),
            forall|k: u64| k != h ==> self.remove_waker(h, waker).waiters(k) == self.waiters(k),
            forall|i: int|
                0 <= i < self.remove_waker(h, waker).waiters(h).len() ==> !spec_will_wake(
                    #[trigger] self.remove_waker(h, waker).waiters(h)[i],
                    waker,
                ),
            forall|i: int|
                0 <= i < self.waiters(h).len() && !spec_will_wake(
                    #[trigger] self.waiters(h)[i],
                    waker,
                ) ==> self.remove_waker(h, waker).waiters(h).contains(self.waiters(h)[i]),
    {
        self.lemma_unregister(h, spec_marks(self.waiters(h), waker));
        lemma_without(self.waiters(h), waker);
    }

    /// A poll for an unbound handle keeps a table well formed, binds
    /// nothing, and leaves the polling task's waker at the end of the
    /// queue, which then holds no other waker known to wake that task.
    /// Where the queue held no waker of the task, the poll only adds one.
    pub proof fn lemma_poll_pending(self, h: u64, waker: Waker)
        requires
            self.wf(),
            !self.bound.contains_key(h),
        ensures
            self.poll(h, waker).1 is None,
            self.poll(h, waker).0.wf(),
            self.poll(h, waker).0.next == self.next,
            self.poll(h, waker).0.bound == self.bound,
            self.poll(h, waker).0.waiters(h) == spec_without(self.waiters(h), waker).push(waker),
            forall|k: u64| k != h ==> self.poll(h, waker).0.waiters(k) == self.waiters(k),
            (forall|i: int|
                0 <= i < self.waiters(h).len() ==> !spec_will_wake(
                    #[trigger] self.waiters(h)[i],
                    waker,
                )) ==> self.poll(h, waker).0 == self.register(h, waker),
    {
        self.lemma_remove_waker(h, waker);
        self.remove_waker(h, waker).lemma_register(h, waker);
        lemma_without(self.waiters(h), waker);
        if forall|i: int|
            0 <= i < self.waiters(h).len() ==> !spec_will_wake(
                #[trigger] self.waiters(h)[i],
                waker,
            ) {
            assert(self.poll(h, waker).0.waiting =~= self.register(h, waker).waiting);
        }
    }

    /// A task that polls again for an unbound handle is queued once: where
    /// the waker of the second poll is known to be woken with that of the
    /// first, the first leaves the queue as the second joins it. On a queue
    /// that was empty, the task is then the only one waiting, and the bind
    /// that issues the handle releases it once.
    pub proof fn lemma_poll_again(self, h: u64, first: Waker, second: Waker)
        requires
            self.wf(),
            !self.bound.contains_key(h),
            spec_will_wake(first, second),
        ensures
            ({
                let once = self.poll(h, first).0;
                let twice = once.poll(h, second).0;
                &&& twice.wf()
                &&& twice.waiters(h) == spec_without(
                    spec_without(self.waiters(h), first),
                    second,
                ).push(second)
                &&& forall|i: int|
                    0 <= i < twice.waiters(h).len() - 1 ==> !spec_will_wake(
                        #[trigger] twice.waiters(h)[i],
                        second,
                    )
                &&& self.waiters(h).len() == 0 ==> twice.waiters(h) == seq![second]
            }),
    {
        self.lemma_poll_pending(h, first);
        let once = self.poll(h, first).0;
        once.lemma_poll_pending(h, second);
        let kept = spec_without(self.waiters(h), first);
        lemma_without_last(kept, first, second);
        lemma_without(kept, second);
        lemma_without(self.waiters(h), first);
    }

    /// A run of binds issues the handles from `next` on, one after the other,
    /// keeps what was bound before it, and leaves alone the queues of the
    /// handles it does not issue.
    pub proof fn lemma_bind_all(self, values: Seq<R>)
        requires
            self.wf(),
            self.next + values.len() <= u64::MAX,
        ensures
            self.bind_all(values).wf(),
            self.bind_all(values).next == self.next + values.len(),
            forall|i: int|
                0 <= i < values.len() ==> self.bind_all(values).lookup((self.next + i) as u64)
                    == Some(#[trigger] values[i]),
            forall|h: u64| h < self.next ==> self.bind_all(values).lookup(h) == self.lookup(h),
            forall|h: u64|
                h < self.next || h >= self.next + values.len() ==> self.bind_all(values).waiters(h)
                    == self.waiters(h),
        decreases values.len(),
    {
        if values.len() > 0 {
            let before = self.bind_all(values.drop_last());
            self.lemma_bind_all(values.drop_last());
            before.lemma_bind(values.last());
            assert forall|i: int| 0 <= i < values.len() implies self.bind_all(values).lookup(
                (self.next + i) as u64,
            ) == Some(#[trigger] values[i]) by {
                if i < values.len() - 1 {
                    assert(values.drop_last()[i] == values[i]);
                }
            }
        }
    }

    /// A run of registrations for one handle lengthens its queue by the new
    /// wakers, in their order, and changes nothing else.
    pub proof fn lemma_register_all(self, h: u64, wakers: Seq<Waker>)
        requires
            self.wf(),
        ensures
            self.register_all(h, wakers).wf(),
            self.register_all(h, wakers).next == self.next,
            self.register_all(h, wakers).bound == self.bound,
            self.register_all(h, wakers).waiters(h) == self.waiters(h) + wakers,
            forall|k: u64| k != h ==> self.register_all(h, wakers).waiters(k) == self.waiters(k),
        decreases wakers.len(),
    {
        if wakers.len() > 0 {
            let before = self.register_all(h, wakers.drop_last());
            self.lemma_register_all(h, wakers.drop_last());
            before.lemma_register(h, wakers.last());
            assert(wakers == wakers.drop_last().push(wakers.last()));
            assert(self.waiters(h) + wakers == (self.waiters(h) + wakers.drop_last()).push(
                wakers.last(),
            ));
        } else {
            assert(self.waiters(h) + wakers == self.waiters(h));
        }
    }

    /// Handles come out in strictly increasing order, starting with the first
    /// handle the table issues: in a run of binds, bind number `i` acts on the
    /// table that the binds before it left and issues the handle `i` places
    /// after the first one.
    pub proof fn lemma_handles_increase(self, values: Seq<R>, i: int)
        requires
            self.wf(),
            self.next + values.len() <= u64::MAX,
            0 <= i < values.len(),
        ensures
            self.bind_all(values.take(i + 1)) == self.bind_all(values.take(i)).bind(values[i]),
            self.bind_all(values.take(i)).next == self.next + i,
            forall|j: int|
                i < j < values.len() ==> self.bind_all(values.take(i)).next < (#[trigger] self.bind_all(
                    values.take(j),
                )).next,
    {
        assert(values.take(i + 1).drop_last() == values.take(i));
        self.lemma_bind_all(values.take(i));
        assert forall|j: int| i < j < values.len() implies self.bind_all(values.take(i)).next < (
        #[trigger] self.bind_all(values.take(j))).next by {
            self.lemma_bind_all(values.take(j));
        }
    }

    /// A task that polls for a handle before it is bound joins the queue for
    /// it, stays there while other handles are bound, is released by the bind
    /// that issues the handle, behind the other tasks that came before it,
    /// and by no later bind; from that bind on, a poll finds the value at
    /// once.
    pub proof fn lemma_wait_then_bind(
        self,
        h: u64,
        waker: Waker,
        earlier: Seq<R>,
        value: R,
        later: Seq<R>,
        again: Waker,
    )
        requires
            self.wf(),
            self.next <= h,
            earlier.len() == h - self.next,
            h + 1 + later.len() <= u64::MAX,
        ensures
            ({
                let polled = self.poll(h, waker);
                let before = polled.0.bind_all(earlier);
                let after = before.bind(value);
                let end = after.bind_all(later);
                &&& polled.1 is None
                &&& before.next == h
                &&& before.lookup(h) is None
                &&& before.released() == spec_without(self.waiters(h), waker).push(waker)
                &&& after.waiters(h) == Seq::<Waker>::empty()
                &&& after.poll(h, again) == (after, Some(value))
                &&& end.waiters(h) == Seq::<Waker>::empty()
                &&& end.poll(h, again) == (end, Some(value))
            }),
    {
        let queued = self.poll(h, waker).0;
        self.lemma_poll_pending(h, waker);
        queued.lemma_bind_all(earlier);
        let before = queued.bind_all(earlier);
        before.lemma_bind(value);
        let after = before.bind(value);
        after.lemma_bind_all(later);
    }

    /// A task that polls for a handle after it was bound gets the value at
    /// once, and joins no queue.
    pub proof fn lemma_poll_after_bind(self, value: R, waker: Waker)
        requires
            self.wf(),
            self.next < u64::MAX,
        ensures
            self.bind(value).poll(self.next, waker) == (self.bind(value), Some(value)),
            forall|h: u64| h < self.next ==> self.poll(h, waker) == (self, Some(self.bound[h])),
    {
    }

    /// Tasks that wait for the same unbound handle are released, by the bind
    /// that issues it, in the order in which they registered, behind those
    /// that waited before them; afterwards a poll by any of them finds the
    /// one value that was bound.
    pub proof fn lemma_waiters_released_in_order(
        self,
        h: u64,
        wakers: Seq<Waker>,
        earlier: Seq<R>,
        value: R,
    )
        requires
            self.wf(),
            self.next <= h < u64::MAX,
            earlier.len() == h - self.next,
        ensures
            ({
                let before = self.register_all(h, wakers).bind_all(earlier);
                let after = before.bind(value);
                &&& before.next == h
                &&& before.released() == self.waiters(h) + wakers
                &&& after.waiters(h) == Seq::<Waker>::empty()
                &&& forall|i: int|
                    0 <= i < wakers.len() ==> after.poll(h, #[trigger] wakers[i]) == (
                        after,
                        Some(value),
                    )
            }),
    {
        let queued = self.register_all(h, wakers);
        self.lemma_register_all(h, wakers);
        queued.lemma_bind_all(earlier);
        queued.bind_all(earlier).lemma_bind(value);
    }

    /// Binding a value again with `bind_if_new` binds nothing: the second call
    /// returns the handle that the first returned, and leaves the table as the
    /// first left it.
    pub proof fn lemma_bind_if_new_again(self, value: R) where R: PartialEq
        requires
            self.wf(),
            self.next < u64::MAX,
            value.eq_spec(&value),
        ensures
            ({
                let first = self.bind_if_new(value);
                first.0.bind_if_new(value) == (first.0, first.1, false)
            }),
    {
        if self.first_equal(value) is None {
            let after = self.bind(value);
            assert(after.holds_equal(self.next, value));
            assert forall|j: u64| j < self.next implies !after.holds_equal(j, value) by {
                if self.holds_equal(j, value) {
                    assert(self.first_equal(value) is Some);
                }
            }
            assert(after.none_equal_below(self.next, value));
            after.lemma_first_equal_is(value, self.next);
        }
    }
}

} // verus!
