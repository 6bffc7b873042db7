//! What the registry takes from `std::task`: the waker of a suspended task,
//! and the context and the answer of a poll.

use std::task::{Context, Poll, Waker};
use vstd::prelude::*;

verus! {

/// `std::task::Waker`, the handle by which a suspended task is made runnable
/// again. The type is taken as it is: nothing is claimed of what a waker
/// holds.
#[verifier::external_type_specification]
#[verifier::external_body]
pub struct ExWaker(Waker);

/// `std::task::Context`, which a poll is handed and which carries the waker of
/// the polling task. The type is taken as it is: nothing is claimed of what a
/// context holds.
#[verifier::external_type_specification]
#[verifier::external_body]
pub struct ExContext<'a>(Context<'a>);

/// `std::task::Poll`, taken with its two variants: `Ready`, which holds a
/// value, and `Pending`.
#[verifier::external_type_specification]
#[verifier::reject_recursive_types(T)]
pub struct ExPoll<T>(Poll<T>);

/// What `Waker::will_wake` answers for `waker` and `other`: whether the two
/// are known to wake the same task. It may be `false` for two wakers of one
/// task. Nothing more is claimed of it.
pub uninterp spec fn spec_will_wake(waker: Waker, other: Waker) -> bool;

/// `Context::waker` hands out the waker of the task that is being polled.
/// Nothing is claimed of the waker it returns.
pub assume_specification<'a, 'b>[ Context::<'a>::waker ](cx: &'b Context<'a>) -> (waker: &'a Waker);

/// `Waker::clone` makes another waker for the same task. Nothing is claimed
/// of the copy.
pub assume_specification[ <Waker as Clone>::clone ](waker: &Waker) -> (copy: Waker);

/// `Waker::will_wake` compares the two wakers, and nothing else: the claim is
/// that its answer is the one that `spec_will_wake` names for them.
pub assume_specification[ Waker::will_wake ](waker: &Waker, other: &Waker) -> (same: bool)
    ensures
        same == spec_will_wake(*waker, *other),
;

/// `Waker::wake` makes the task behind the waker runnable again, by the means
/// of the executor that made the waker. Nothing is claimed of what that does.
pub assume_specification[ Waker::wake ](waker: Waker);

/// For each waker of `queue`, whether it is known to wake the task of
/// `waker`.
pub open spec fn spec_marks(queue: Seq<Waker>, waker: Waker) -> Seq<bool> {
    Seq::new(queue.len(), |i: int| spec_will_wake(queue[i], waker))
}

/// The wakers of `queue` whose position is not marked in `gone`, in the
/// order they have in `queue`.
pub open spec fn spec_unmarked(queue: Seq<Waker>, gone: Seq<bool>) -> Seq<Waker>
    recommends
        gone.len() == queue.len(),
    decreases queue.len(),
{
    if queue.len() == 0 || gone.len() != queue.len() {
        queue
    } else if gone.last() {
        spec_unmarked(queue.drop_last(), gone.drop_last())
    } else {
        spec_unmarked(queue.drop_last(), gone.drop_last()).push(queue.last())
    }
}

/// The wakers of `queue` that are not known to wake the task of `waker`, in
/// the order they have in `queue`.
pub open spec fn spec_without(queue: Seq<Waker>, waker: Waker) -> Seq<Waker> {
    spec_unmarked(queue, spec_marks(queue, waker))
}

/// Taking wakers out of a queue makes it no longer, and taking none out
/// leaves it as it is.
pub proof fn lemma_unmarked(queue: Seq<Waker>, gone: Seq<bool>)
    ensures
        spec_unmarked(queue, gone).len() <= queue.len(),
        gone == Seq::new(queue.len(), |i: int| false) ==> spec_unmarked(queue, gone) == queue,
    decreases queue.len(),
{
    if queue.len() > 0 && gone.len() == queue.len() {
        lemma_unmarked(queue.drop_last(), gone.drop_last());
        if gone == Seq::new(queue.len(), |i: int| false) {
            assert(gone.drop_last() == Seq::new(queue.drop_last().len(), |i: int| false));
            assert(queue == queue.drop_last().push(queue.last()));
        }
    }
}

/// What is left of a queue without the wakers of one task: it holds no
/// waker that is known to wake that task, every waker in it was in the
/// queue, and every waker of the queue that is not known to wake the task is
/// in it. A queue that holds no waker of the task is left as it is.
pub proof fn lemma_without(queue: Seq<Waker>, waker: Waker)
    ensures
        spec_without(queue, waker).len() <= queue.len(),
        forall|i: int|
            0 <= i < spec_without(queue, waker).len() ==> {
                &&& !spec_will_wake(#[trigger] spec_without(queue, waker)[i], waker)
                &&& queue.contains(spec_without(queue, waker)[i])
            },
        forall|i: int|
            0 <= i < queue.len() && !spec_will_wake(#[trigger] queue[i], waker)
                ==> spec_without(queue, waker).contains(queue[i]),
        (forall|i: int| 0 <= i < queue.len() ==> !spec_will_wake(#[trigger] queue[i], waker))
            ==> spec_without(queue, waker) == queue,
    decreases queue.len(),
{
    let marks = spec_marks(queue, waker);
    let kept = spec_without(queue, waker);
    if queue.len() > 0 {
        let front = queue.drop_last();
        assert(marks.drop_last() == spec_marks(front, waker));
        lemma_without(front, waker);
        let before = spec_without(front, waker);
        assert forall|i: int| 0 <= i < kept.len() implies {
            &&& !spec_will_wake(#[trigger] kept[i], waker)
            &&& queue.contains(kept[i])
        } by {
            if i < before.len() {
                assert(kept[i] == before[i]);
                assert(front.contains(before[i]));
                let j = choose|j: int| 0 <= j < front.len() && front[j] == before[i];
                assert(queue[j] == kept[i]);
            } else {
                assert(kept[i] == queue.last());
                assert(queue[queue.len() - 1] == kept[i]);
            }
        }
        assert forall|i: int|
            0 <= i < queue.len() && !spec_will_wake(#[trigger] queue[i], waker) implies kept.contains(
            queue[i],
        ) by {
            if i < front.len() {
                assert(front[i] == queue[i]);
                assert(before.contains(front[i]));
                let j = choose|j: int| 0 <= j < before.len() && before[j] == front[i];
                assert(kept[j] == queue[i]);
            } else {
                assert(kept[kept.len() - 1] == queue[i]);
            }
        }
        if forall|i: int| 0 <= i < queue.len() ==> !spec_will_wake(#[trigger] queue[i], waker) {
            assert forall|i: int| 0 <= i < front.len() implies !spec_will_wake(
                #[trigger] front[i],
                waker,
            ) by {
                assert(front[i] == queue[i]);
            }
            assert(!spec_will_wake(queue[queue.len() - 1], waker));
            assert(queue == front.push(queue.last()));
        }
    }
}

/// A queue that ends with a waker known to wake the task of `waker` is
/// left, without the wakers of that task, as the queue before that last
/// waker is left.
pub proof fn lemma_without_last(queue: Seq<Waker>, last: Waker, waker: Waker)
    ensures
        spec_without(queue.push(last), waker) == if spec_will_wake(last, waker) {
            spec_without(queue, waker)
        } else {
            spec_without(queue, waker).push(last)
        },
{
    let longer = queue.push(last);
    assert(longer.drop_last() == queue);
    assert(spec_marks(longer, waker).drop_last() == spec_marks(queue, waker));
}

} // verus!
