//! Result distribution: what each submitter of a batch gets back from the
//! one result of the aggregate.

use crate::batch::{counts_of, lemma_offset_bounds, lemma_offset_step, offset, slot_counts};
use crate::batch::{total, ReplySlot};
use vstd::prelude::*;

verus! {

/// The aggregate returned a number of outputs other than the number of items
/// it was given, so the outputs cannot be told apart by submitter.
#[derive(Debug, PartialEq, Eq, Structural)]
pub struct ShapeViolation {
    /// The number of outputs that the aggregate returned.
    pub returned: usize,
}

/// The share of submission `i` in `result`: as many outputs as the submission
/// gave items, from the place where its items stood in the batch.
pub open spec fn slice_of<T>(result: Seq<T>, counts: Seq<usize>, i: int) -> Seq<T> {
    result.subrange(offset(counts, i) as int, offset(counts, i) + counts[i])
}

/// Whether `counts` add up to `len`.
fn adds_up(counts: &Vec<usize>, len: usize) -> (yes: bool)
    ensures
        yes == (total(counts@) == len),
{
    let mut sum: usize = 0;
    let mut i: usize = 0;
    while i < counts.len()
        invariant
            i <= counts@.len(),
            sum == offset(counts@, i as int),
            sum <= len,
        decreases counts@.len() - i,
    {
        proof {
            lemma_offset_step(counts@, i as int);
            lemma_offset_bounds(counts@, i + 1);
        }
        if counts[i] > len - sum {
            return false;
        }
        sum += counts[i];
        i += 1;
    }
    proof {
        assert(counts@.take(i as int) =~= counts@);
    }
    sum == len
}

/// `backwards` from its last element to its first.
fn turn_round<T>(backwards: Vec<T>) -> (forwards: Vec<T>)
    ensures
        forwards@ == backwards@.reverse(),
{
    let ghost turned = backwards@;
    let mut backwards = backwards;
    let mut forwards: Vec<T> = Vec::new();
    while backwards.len() > 0
        invariant
            backwards@.len() <= turned.len(),
            backwards@ == turned.take(backwards@.len() as int),
            forwards@ == turned.skip(backwards@.len() as int).reverse(),
        decreases backwards@.len(),
    {
        let last = backwards.pop().unwrap();
        forwards.push(last);
        proof {
            assert(backwards@ =~= turned.take(backwards@.len() as int));
            assert(forwards@ =~= turned.skip(backwards@.len() as int).reverse());
        }
    }
    proof {
        assert(turned.skip(0) =~= turned);
    }
    forwards
}

/// Cuts `result` into the shares of the submissions, the last submission's
/// share first.
fn cut_backwards<T>(result: Vec<T>, counts: &Vec<usize>) -> (backwards: Vec<Vec<T>>)
    requires
        total(counts@) == result@.len(),
    ensures
        backwards@.len() == counts@.len(),
        forall|j: int|
            0 <= j < counts@.len() ==> (#[trigger] backwards@[j])@ == slice_of(
                result@,
                counts@,
                counts@.len() - 1 - j,
            ),
{
    let ghost whole = result@;
    let n = counts.len();
    let mut rest = result;
    let mut backwards: Vec<Vec<T>> = Vec::new();
    let mut i: usize = n;
    proof {
        assert(counts@.take(n as int) =~= counts@);
        assert(whole.subrange(0, whole.len() as int) =~= whole);
    }
    while i > 0
        invariant
            i <= n,
            n == counts@.len(),
            total(counts@) == whole.len(),
            rest@ == whole.subrange(0, offset(counts@, i as int) as int),
            backwards@.len() == n - i,
            forall|j: int|
                0 <= j < n - i ==> (#[trigger] backwards@[j])@ == slice_of(
                    whole,
                    counts@,
                    n - 1 - j,
                ),
        decreases i,
    {
        proof {
            lemma_offset_step(counts@, i - 1);
            lemma_offset_bounds(counts@, i as int);
        }
        let at = rest.len() - counts[i - 1];
        let share = rest.split_off(at);
        proof {
            assert(share@ =~= slice_of(whole, counts@, i - 1));
            assert(rest@ =~= whole.subrange(0, offset(counts@, i - 1) as int));
        }
        backwards.push(share);
        i -= 1;
    }
    backwards
}

/// Vector shape: cuts `result` into one share for each submission, in order.
///
/// The shares exist only where the aggregate returned exactly one output for
/// each item: with more or fewer, no submitter gets anything.
pub fn partition<T>(result: Vec<T>, counts: &Vec<usize>) -> (shares: Result<
    Vec<Vec<T>>,
    ShapeViolation,
>)
    ensures
        shares is Ok <==> total(counts@) == result@.len(),
        shares matches Ok(shares) ==> {
            &&& shares@.len() == counts@.len()
            &&& forall|i: int|
                0 <= i < counts@.len() ==> (#[trigger] shares@[i])@ == slice_of(
                    result@,
                    counts@,
                    i,
                )
        },
        shares matches Err(violation) ==> violation.returned == result@.len(),
{
    if !adds_up(counts, result.len()) {
        return Err(ShapeViolation { returned: result.len() });
    }
    Ok(turn_round(cut_backwards(result, counts)))
}

/// Scalar shape: one copy of `result` for each of `slots` submissions.
pub fn share<R: Clone>(result: &R, slots: usize) -> (shares: Vec<R>)
    ensures
        shares@.len() == slots,
        forall|i: int| 0 <= i < slots ==> cloned(*result, #[trigger] shares@[i]),
{
    let mut shares: Vec<R> = Vec::new();
    let mut i: usize = 0;
    while i < slots
        invariant
            i <= slots,
            shares@.len() == i,
            forall|j: int| 0 <= j < i ==> cloned(*result, #[trigger] shares@[j]),
        decreases slots - i,
    {
        shares.push(result.clone());
        i += 1;
    }
    shares
}

/// `copy` carries what `result` carries: a copy of its value where the
/// aggregate succeeded, a copy of its error where it failed.
pub open spec fn shares_outcome<R: Clone, E: Clone>(
    result: Result<R, E>,
    copy: Result<R, E>,
) -> bool {
    match result {
        Ok(value) => copy matches Ok(c) && cloned(value, c),
        Err(error) => copy matches Err(c) && cloned(error, c),
    }
}

/// Fallible scalar shape: one copy of the value, or of the error, for each of
/// `slots` submissions. After a failure no submission gets a value.
pub fn share_fallible<R: Clone, E: Clone>(result: &Result<R, E>, slots: usize) -> (shares: Vec<
    Result<R, E>,
>)
    ensures
        shares@.len() == slots,
        forall|i: int| 0 <= i < slots ==> shares_outcome(*result, #[trigger] shares@[i]),
{
    let mut shares: Vec<Result<R, E>> = Vec::new();
    let mut i: usize = 0;
    while i < slots
        invariant
            i <= slots,
            shares@.len() == i,
            forall|j: int| 0 <= j < i ==> shares_outcome(*result, #[trigger] shares@[j]),
        decreases slots - i,
    {
        let copy = match result {
            Ok(value) => Ok(value.clone()),
            Err(error) => Err(error.clone()),
        };
        shares.push(copy);
        i += 1;
    }
    shares
}

/// `share` is what submission `i` gets of `result`: its cut of the outputs
/// where the aggregate succeeded, a copy of the error where it failed.
pub open spec fn is_share_of<T, E: Clone>(
    result: Result<Vec<T>, E>,
    counts: Seq<usize>,
    i: int,
    share: Result<Vec<T>, E>,
) -> bool {
    match result {
        Ok(outputs) => share matches Ok(cut) && cut@ == slice_of(outputs@, counts, i),
        Err(error) => share matches Err(copy) && cloned(error, copy),
    }
}

/// Fallible vector shape: after a success the outputs are cut into shares as
/// in [`partition`]; after a failure every submission gets a copy of the
/// error, whatever it gave.
pub fn partition_fallible<T, E: Clone>(result: Result<Vec<T>, E>, counts: &Vec<usize>) -> (shares:
    Result<Vec<Result<Vec<T>, E>>, ShapeViolation>)
    ensures
        shares is Ok <==> (result matches Ok(outputs) ==> total(counts@) == outputs@.len()),
        shares matches Ok(shares) ==> {
            &&& shares@.len() == counts@.len()
            &&& forall|i: int|
                0 <= i < counts@.len() ==> is_share_of(result, counts@, i, #[trigger] shares@[i])
        },
        shares matches Err(violation) ==> {
            &&& result matches Ok(outputs)
            &&& violation.returned == outputs@.len()
        },
{
    match result {
        Ok(outputs) => {
            if !adds_up(counts, outputs.len()) {
                return Err(ShapeViolation { returned: outputs.len() });
            }
            let ghost n = counts@.len();
            let mut backwards = cut_backwards(outputs, counts);
            let mut shares: Vec<Result<Vec<T>, E>> = Vec::new();
            while backwards.len() > 0
                invariant
                    n == counts@.len(),
                    shares@.len() + backwards@.len() == n,
                    forall|j: int|
                        0 <= j < backwards@.len() ==> (#[trigger] backwards@[j])@ == slice_of(
                            outputs@,
                            counts@,
                            n - 1 - j,
                        ),
                    forall|j: int|
                        0 <= j < shares@.len() ==> is_share_of(
                            Ok::<Vec<T>, E>(outputs),
                            counts@,
                            j,
                            #[trigger] shares@[j],
                        ),
                decreases backwards@.len(),
            {
                let share = backwards.pop().unwrap();
                shares.push(Ok(share));
            }
            Ok(shares)
        },
        Err(error) => {
            let n = counts.len();
            let mut shares: Vec<Result<Vec<T>, E>> = Vec::new();
            let mut i: usize = 0;
            while i < n
                invariant
                    i <= n,
                    shares@.len() == i,
                    forall|j: int|
                        0 <= j < i ==> is_share_of(
                            Err::<Vec<T>, E>(error),
                            counts@,
                            j,
                            #[trigger] shares@[j],
                        ),
                decreases n - i,
            {
                shares.push(Err(error.clone()));
                i += 1;
            }
            Ok(shares)
        },
    }
}

/// What a caller that gave one item gets from its share: the first output.
pub fn first<T>(share: Vec<T>) -> (output: Option<T>)
    ensures
        output == if share@.len() > 0 {
            Some(share@[0])
        } else {
            None
        },
{
    let mut share = share;
    if share.len() > 0 {
        Some(share.remove(0))
    } else {
        None
    }
}

/// A share on its way: the reply endpoint of a submission and what is sent
/// to it.
pub struct Delivery<C, R> {
    pub reply: C,
    pub value: R,
}

/// The deliveries that `slots` and `shares` give, slot by slot in order: the
/// share of a submission goes to its reply endpoint, and the share of a
/// submission that awaits no reply goes nowhere. Where one of the two is
/// longer, what it has over the other is left out.
pub open spec fn deliveries_of<C, R>(slots: Seq<ReplySlot<C>>, shares: Seq<R>) -> Seq<
    Delivery<C, R>,
>
    decreases slots.len() + shares.len(),
{
    if slots.len() == 0 || shares.len() == 0 {
        Seq::empty()
    } else if slots.len() > shares.len() {
        deliveries_of(slots.drop_last(), shares)
    } else if slots.len() < shares.len() {
        deliveries_of(slots, shares.drop_last())
    } else {
        let earlier = deliveries_of(slots.drop_last(), shares.drop_last());
        match slots.last().reply {
            Some(reply) => earlier.push(Delivery { reply, value: shares.last() }),
            None => earlier,
        }
    }
}

/// What is over on the longer side makes no delivery.
proof fn lemma_deliveries_of_pairs<C, R>(slots: Seq<ReplySlot<C>>, shares: Seq<R>, n: int)
    requires
        0 <= n <= slots.len(),
        n <= shares.len(),
        n == slots.len() || n == shares.len(),
    ensures
        deliveries_of(slots, shares) == deliveries_of(slots.take(n), shares.take(n)),
    decreases slots.len() + shares.len(),
{
    if slots.len() == 0 || shares.len() == 0 {
        assert(slots.take(n).len() == 0 || shares.take(n).len() == 0);
    } else if slots.len() > shares.len() {
        lemma_deliveries_of_pairs(slots.drop_last(), shares, n);
        assert(slots.drop_last().take(n) =~= slots.take(n));
    } else if slots.len() < shares.len() {
        lemma_deliveries_of_pairs(slots, shares.drop_last(), n);
        assert(shares.drop_last().take(n) =~= shares.take(n));
    } else {
        assert(slots.take(n) =~= slots);
        assert(shares.take(n) =~= shares);
    }
}

/// Addresses each share to the reply endpoint of its submission.
pub fn address<C, R>(slots: Vec<ReplySlot<C>>, shares: Vec<R>) -> (deliveries: Vec<Delivery<C, R>>)
    ensures
        deliveries@ == deliveries_of(slots@, shares@),
{
    let mut slots = slots;
    let mut shares = shares;
    let ghost all_slots = slots@;
    let ghost all_shares = shares@;
    let n = if slots.len() <= shares.len() {
        slots.len()
    } else {
        shares.len()
    };
    slots.truncate(n);
    shares.truncate(n);
    let ghost paired_slots = slots@;
    let ghost paired_shares = shares@;
    proof {
        assert(paired_slots =~= all_slots.take(n as int));
        assert(paired_shares =~= all_shares.take(n as int));
        lemma_deliveries_of_pairs(all_slots, all_shares, n as int);
    }
    // from the last pair to the first, then turned round
    let mut backwards: Vec<Delivery<C, R>> = Vec::new();
    while slots.len() > 0
        invariant
            slots@.len() == shares@.len(),
            slots@.len() <= n,
            slots@ == paired_slots.take(slots@.len() as int),
            shares@ == paired_shares.take(shares@.len() as int),
            paired_slots.len() == n,
            paired_shares.len() == n,
            deliveries_of(paired_slots, paired_shares) == deliveries_of(slots@, shares@)
                + backwards@.reverse(),
        decreases slots@.len(),
    {
        let ghost before_slots = slots@;
        let ghost before_shares = shares@;
        let ghost before = backwards@;
        let slot = slots.pop().unwrap();
        let value = shares.pop().unwrap();
        proof {
            assert(slots@ =~= before_slots.drop_last());
            assert(shares@ =~= before_shares.drop_last());
            assert(slots@ =~= paired_slots.take(slots@.len() as int));
            assert(shares@ =~= paired_shares.take(shares@.len() as int));
        }
        match slot.reply {
            Some(reply) => {
                backwards.push(Delivery { reply, value });
                proof {
                    let delivery = Delivery { reply, value };
                    assert(backwards@.reverse() =~= seq![delivery] + before.reverse());
                    assert(deliveries_of(before_slots, before_shares) == deliveries_of(
                        slots@,
                        shares@,
                    ).push(delivery));
                    assert(deliveries_of(slots@, shares@).push(delivery) + before.reverse()
                        =~= deliveries_of(slots@, shares@) + backwards@.reverse());
                }
            },
            None => {},
        }
    }
    proof {
        assert(deliveries_of(slots@, shares@) =~= Seq::<Delivery<C, R>>::empty());
        assert(deliveries_of(paired_slots, paired_shares) =~= backwards@.reverse());
    }
    turn_round(backwards)
}

/// The places of the submissions of `slots` that await a reply, in order.
pub open spec fn awaited<C>(slots: Seq<ReplySlot<C>>) -> Seq<int>
    decreases slots.len(),
{
    if slots.len() == 0 {
        Seq::empty()
    } else if slots.last().reply is Some {
        awaited(slots.drop_last()).push(slots.len() - 1)
    } else {
        awaited(slots.drop_last())
    }
}

/// `deliveries` are what the submissions of `slots` are sent: one delivery
/// for each submission that awaits a reply, in arrival order, to the reply
/// endpoint of that submission, of a value that `is_share` of it.
pub open spec fn delivers<C, R>(
    slots: Seq<ReplySlot<C>>,
    deliveries: Seq<Delivery<C, R>>,
    is_share: spec_fn(int, R) -> bool,
) -> bool {
    &&& deliveries.len() == awaited(slots).len()
    &&& forall|k: int|
        0 <= k < deliveries.len() ==> {
            &&& 0 <= awaited(slots)[k] < slots.len()
            &&& slots[awaited(slots)[k]].reply == Some((#[trigger] deliveries[k]).reply)
            &&& is_share(awaited(slots)[k], deliveries[k].value)
        }
}

/// The deliveries of `slots` and `shares` go to the submissions that await
/// a reply, each with the share of its place.
proof fn lemma_deliveries_by_place<C, R>(slots: Seq<ReplySlot<C>>, shares: Seq<R>)
    requires
        slots.len() == shares.len(),
    ensures
        deliveries_of(slots, shares).len() == awaited(slots).len(),
        forall|k: int|
            0 <= k < awaited(slots).len() ==> {
                &&& 0 <= #[trigger] awaited(slots)[k] < slots.len()
                &&& slots[awaited(slots)[k]].reply == Some(deliveries_of(slots, shares)[k].reply)
                &&& deliveries_of(slots, shares)[k].value == shares[awaited(slots)[k]]
            },
    decreases slots.len(),
{
    if slots.len() > 0 {
        let fewer = slots.drop_last();
        let fewer_shares = shares.drop_last();
        lemma_deliveries_by_place(fewer, fewer_shares);
        let all = deliveries_of(slots, shares);
        let earlier = deliveries_of(fewer, fewer_shares);
        assert forall|k: int| 0 <= k < awaited(slots).len() implies {
            &&& 0 <= #[trigger] awaited(slots)[k] < slots.len()
            &&& slots[awaited(slots)[k]].reply == Some(all[k].reply)
            &&& all[k].value == shares[awaited(slots)[k]]
        } by {
            if k < earlier.len() {
                let place = awaited(fewer)[k];
                assert(awaited(slots)[k] == place);
                assert(all[k] == earlier[k]);
                assert(fewer[place] == slots[place]);
                assert(fewer_shares[place] == shares[place]);
            } else {
                assert(slots.last().reply is Some);
                assert(awaited(slots)[k] == slots.len() - 1);
            }
        }
    } else {
        assert(awaited(slots).len() == 0);
    }
}

/// Scalar shape, from the result to the deliveries: every submission that
/// awaits a reply is sent a copy of `result`.
pub fn deliver_scalar<C, R: Clone>(result: &R, slots: Vec<ReplySlot<C>>) -> (deliveries: Vec<
    Delivery<C, R>,
>)
    ensures
        delivers(slots@, deliveries@, |i: int, value: R| cloned(*result, value)),
{
    let shares = share(result, slots.len());
    proof {
        lemma_deliveries_by_place(slots@, shares@);
    }
    address(slots, shares)
}

/// Fallible scalar shape, from the result to the deliveries: every
/// submission that awaits a reply is sent a copy of the value, or of the
/// error.
pub fn deliver_fallible_scalar<C, R: Clone, E: Clone>(
    result: &Result<R, E>,
    slots: Vec<ReplySlot<C>>,
) -> (deliveries: Vec<Delivery<C, Result<R, E>>>)
    ensures
        delivers(slots@, deliveries@, |i: int, value: Result<R, E>| shares_outcome(*result, value)),
{
    let shares = share_fallible(result, slots.len());
    proof {
        lemma_deliveries_by_place(slots@, shares@);
    }
    address(slots, shares)
}

/// Vector shape, from the result to the deliveries: every submission that
/// awaits a reply is sent the outputs of its own items. Nothing is sent
/// where the aggregate did not return one output for each item.
pub fn deliver_vector<C, T>(result: Vec<T>, slots: Vec<ReplySlot<C>>) -> (deliveries: Result<
    Vec<Delivery<C, Vec<T>>>,
    ShapeViolation,
>)
    ensures
        deliveries is Ok <==> total(counts_of(slots@)) == result@.len(),
        deliveries matches Ok(deliveries) ==> delivers(
            slots@,
            deliveries@,
            |i: int, value: Vec<T>| value@ == slice_of(result@, counts_of(slots@), i),
        ),
        deliveries matches Err(violation) ==> violation.returned == result@.len(),
{
    let counts = slot_counts(&slots);
    match partition(result, &counts) {
        Ok(shares) => {
            proof {
                lemma_deliveries_by_place(slots@, shares@);
            }
            Ok(address(slots, shares))
        },
        Err(violation) => Err(violation),
    }
}

/// Fallible vector shape, from the result to the deliveries: after a success
/// every submission that awaits a reply is sent the outputs of its own
/// items, after a failure a copy of the error. Nothing is sent where the
/// aggregate succeeded without returning one output for each item.
pub fn deliver_fallible_vector<C, T, E: Clone>(
    result: Result<Vec<T>, E>,
    slots: Vec<ReplySlot<C>>,
) -> (deliveries: Result<Vec<Delivery<C, Result<Vec<T>, E>>>, ShapeViolation>)
    ensures
        deliveries is Ok <==> (result matches Ok(outputs) ==> total(counts_of(slots@))
            == outputs@.len()),
        deliveries matches Ok(deliveries) ==> delivers(
            slots@,
            deliveries@,
            |i: int, value: Result<Vec<T>, E>| is_share_of(result, counts_of(slots@), i, value),
        ),
        deliveries matches Err(violation) ==> {
            &&& result matches Ok(outputs)
            &&& violation.returned == outputs@.len()
        },
{
    let counts = slot_counts(&slots);
    match partition_fallible(result, &counts) {
        Ok(shares) => {
            proof {
                lemma_deliveries_by_place(slots@, shares@);
            }
            Ok(address(slots, shares))
        },
        Err(violation) => Err(violation),
    }
}

} // verus!
