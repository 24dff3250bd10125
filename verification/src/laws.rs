//! What holds of the collector and of the distribution, whatever the
//! submissions and whenever they arrive.

use crate::batch::{
    counts_of, lemma_offset_push, lemma_offset_step, lemma_total_push, offset, total, BatchView,
    ReplySlot, SubmissionView,
};
use crate::collector::{CollectorView, EventView, Wait};
use crate::distribute::{is_share_of, shares_outcome, slice_of};
use crate::error::SharedError;
use crate::window::{remaining_at, window_of};
use vstd::prelude::*;

verus! {

/// A submission of an executable batch: its items are no more than a `Vec`
/// holds.
pub open spec fn fits<I, C, S>(submission: SubmissionView<I, C, S>) -> bool {
    submission.items.len() <= usize::MAX
}

/// An event of an executable run.
pub open spec fn event_fits<I, C, S>(event: EventView<I, C, S>) -> bool {
    event matches EventView::Arrival(submission) ==> fits(submission)
}

/// A step flushes exactly when one of the two triggers fires: after an
/// arrival, when the batch with the arrival in it has reached the limit; on
/// any other event, when a batch is pending and its window, counted from the
/// start of the batch, has elapsed. What is flushed is all that was pending,
/// the arrival included, and without a flush all of it stays pending.
pub proof fn law_flush_triggers<I, C, S>(
    collector: CollectorView<I, C, S>,
    event: EventView<I, C, S>,
    now: u64,
)
    ensures
        collector.step(event, now).1.flushed is Some <==> match event {
            EventView::Arrival(submission) => collector.pending.data.len()
                + submission.items.len() >= collector.limit,
            _ => !collector.idle() && collector.window_start + window_of(
                collector.windows,
                collector.default_window,
                collector.pending.data.len() as int,
            ) <= now,
        },
        match collector.step(event, now).1.flushed {
            Some(batch) => batch == collector.absorb(event, now).pending && collector.step(
                event,
                now,
            ).0.idle(),
            None => collector.step(event, now).0.pending == collector.absorb(event, now).pending,
        },
{
}

/// The window of a batch starts with its first submission, and later
/// arrivals do not move it.
pub proof fn law_window_start<I, C, S>(
    collector: CollectorView<I, C, S>,
    submission: SubmissionView<I, C, S>,
    now: u64,
)
    ensures
        collector.step(EventView::Arrival(submission), now).0.window_start == if collector.idle() {
            now
        } else {
            collector.window_start
        },
{
}

/// A step keeps the collector well formed, hands out only well formed
/// batches of at least one submission, and asks the driver to wait for a
/// first submission exactly when nothing is pending and the channel is open.
pub proof fn law_step_invariant<I, C, S>(
    collector: CollectorView<I, C, S>,
    event: EventView<I, C, S>,
    now: u64,
)
    requires
        collector.wf(),
        event_fits(event),
    ensures
        collector.step(event, now).0.wf(),
        collector.step(event, now).1.flushed matches Some(batch) ==> batch.wf()
            && batch.reply_slots.len() > 0,
        collector.step(event, now).1.next == Wait::First <==> collector.step(event, now).0.idle()
            && !collector.step(event, now).0.closed,
        collector.step(event, now).1.next == Wait::Exit <==> collector.step(event, now).0.idle()
            && collector.step(event, now).0.closed,
{
    let absorbed = collector.absorb(event, now);
    if let EventView::Arrival(submission) = event {
        lemma_total_push(counts_of(collector.pending.reply_slots), submission.items.len() as usize);
        assert(counts_of(absorbed.pending.reply_slots) =~= counts_of(
            collector.pending.reply_slots,
        ).push(submission.items.len() as usize));
    }
    assert(counts_of(BatchView::<I, C, S>::empty().reply_slots) =~= Seq::<usize>::empty());
}

/// The deadline follows the size of the batch: after an arrival that causes
/// no flush, the driver is told to wait for what is left of the window that
/// belongs to the batch with the arrival in it, counted from the start of
/// the batch. A larger batch with a shorter window is due earlier.
pub proof fn law_deadline_follows_size<I, C, S>(
    collector: CollectorView<I, C, S>,
    submission: SubmissionView<I, C, S>,
    now: u64,
)
    requires
        !collector.closed,
        collector.step(EventView::Arrival(submission), now).1.flushed is None,
    ensures
        collector.step(EventView::Arrival(submission), now).1.next == Wait::Race(
            remaining_at(
                if collector.idle() {
                    now
                } else {
                    collector.window_start
                },
                window_of(
                    collector.windows,
                    collector.default_window,
                    (collector.pending.data.len() + submission.items.len()) as int,
                ),
                now,
            ),
        ),
{
}

/// A submission that stays alone waits exactly the window of its size: taken
/// in by an idle collector whose limit it does not reach, it is not flushed
/// on arrival, and a later poll flushes it exactly when that window has
/// elapsed since its arrival.
pub proof fn law_single_submission_waits_its_window<I, C, S>(
    collector: CollectorView<I, C, S>,
    submission: SubmissionView<I, C, S>,
    now: u64,
    later: u64,
)
    requires
        collector.wf(),
        collector.idle(),
        submission.items.len() < collector.limit,
    ensures
        collector.step(EventView::Arrival(submission), now).1.flushed is None,
        collector.step(EventView::Arrival(submission), now).0.step(
            EventView::Tick,
            later,
        ).1.flushed is Some <==> now + window_of(
            collector.windows,
            collector.default_window,
            submission.items.len() as int,
        ) <= later,
        collector.step(EventView::Arrival(submission), now).0.step(
            EventView::Tick,
            later,
        ).1.flushed matches Some(batch) ==> batch.data == submission.items,
{
    assert(counts_of(collector.pending.reply_slots) =~= Seq::<usize>::empty());
    assert(collector.pending.data + submission.items =~= submission.items);
}

/// A submission without items is a submission: an idle collector that takes
/// one in, with a limit of at least one item, holds it as a pending batch
/// without items, whose window runs from that moment, and flushes that
/// batch once the window has elapsed, so that its caller gets a reply.
pub proof fn law_empty_submission_is_kept<I, C, S>(
    collector: CollectorView<I, C, S>,
    submission: SubmissionView<I, C, S>,
    now: u64,
    later: u64,
)
    requires
        collector.wf(),
        collector.idle(),
        collector.limit >= 1,
        submission.items.len() == 0,
        now + window_of(collector.windows, collector.default_window, 0) <= later,
    ensures
        collector.step(EventView::Arrival(submission), now).1.flushed is None,
        !collector.step(EventView::Arrival(submission), now).0.idle(),
        collector.step(EventView::Arrival(submission), now).0.step(
            EventView::Tick,
            later,
        ).1.flushed matches Some(batch) && batch.data.len() == 0 && batch.reply_slots.len() == 1,
{
    assert(counts_of(collector.pending.reply_slots) =~= Seq::<usize>::empty());
}

/// The batch that holds `submissions`, gathered in arrival order.
pub open spec fn gather<I, C, S>(submissions: Seq<SubmissionView<I, C, S>>) -> BatchView<I, C, S>
    decreases submissions.len(),
{
    if submissions.len() == 0 {
        BatchView::empty()
    } else {
        gather(submissions.drop_last()).push(submissions.last())
    }
}

/// The items of `submissions`, laid end to end in arrival order.
pub open spec fn concatenation<I, C, S>(submissions: Seq<SubmissionView<I, C, S>>) -> Seq<I>
    decreases submissions.len(),
{
    if submissions.len() == 0 {
        Seq::empty()
    } else {
        concatenation(submissions.drop_last()) + submissions.last().items
    }
}

/// Whatever the submissions and their sizes, the batch that gathers them
/// holds exactly the concatenation of their items in arrival order, one
/// reply slot with the right count and one tracing context for each, and the
/// items of each submission stand where its count says.
pub proof fn law_gather<I, C, S>(submissions: Seq<SubmissionView<I, C, S>>)
    requires
        forall|i: int| 0 <= i < submissions.len() ==> fits(#[trigger] submissions[i]),
    ensures
        gather(submissions).wf(),
        gather(submissions).data == concatenation(submissions),
        gather(submissions).reply_slots.len() == submissions.len(),
        gather(submissions).spans.len() == submissions.len(),
        forall|i: int|
            0 <= i < submissions.len() ==> {
                &&& (#[trigger] gather(submissions).reply_slots[i]) == (ReplySlot {
                    reply: submissions[i].reply,
                    count: submissions[i].items.len() as usize,
                })
                &&& gather(submissions).spans[i] == submissions[i].span
            },
        forall|i: int|
            0 <= i < submissions.len() ==> #[trigger] gather(submissions).items_of(i)
                == submissions[i].items,
    decreases submissions.len(),
{
    if submissions.len() == 0 {
        assert(counts_of(gather(submissions).reply_slots) =~= Seq::<usize>::empty());
    } else {
        let before = submissions.drop_last();
        let last = submissions.last();
        law_gather(before);
        let earlier = gather(before);
        let batch = gather(submissions);
        let count = last.items.len() as usize;
        lemma_total_push(earlier.counts(), count);
        assert(batch.counts() =~= earlier.counts().push(count));
        assert forall|i: int| 0 <= i < submissions.len() implies #[trigger] batch.items_of(i)
            == submissions[i].items by {
            lemma_offset_push(earlier.counts(), count, i);
            if i < before.len() {
                lemma_offset_step(earlier.counts(), i);
                crate::batch::lemma_offset_bounds(earlier.counts(), i + 1);
                assert(earlier.items_of(i) == before[i].items);
                assert(batch.items_of(i) =~= earlier.items_of(i));
            } else {
                assert(earlier.counts().take(i) =~= earlier.counts());
                assert(batch.items_of(i) =~= last.items);
            }
        }
    }
}

/// Vector shape, whatever the submissions: where the aggregate returns one
/// output for each item, the share of submission `i` has as many outputs as
/// the submission gave items, and it is the stretch of the result that
/// stands where the items of the submission stood in the batch.
pub proof fn law_partition<I, C, S, T>(
    submissions: Seq<SubmissionView<I, C, S>>,
    result: Seq<T>,
    i: int,
)
    requires
        forall|j: int| 0 <= j < submissions.len() ==> fits(#[trigger] submissions[j]),
        result.len() == concatenation(submissions).len(),
        0 <= i < submissions.len(),
    ensures
        slice_of(result, gather(submissions).counts(), i).len() == submissions[i].items.len(),
        offset(gather(submissions).counts(), i) + submissions[i].items.len() <= result.len(),
        slice_of(result, gather(submissions).counts(), i) == result.subrange(
            offset(gather(submissions).counts(), i) as int,
            (offset(gather(submissions).counts(), i) + submissions[i].items.len()) as int,
        ),
        submissions[i].items == gather(submissions).data.subrange(
            offset(gather(submissions).counts(), i) as int,
            (offset(gather(submissions).counts(), i) + submissions[i].items.len()) as int,
        ),
{
    law_gather(submissions);
    let batch = gather(submissions);
    let counts = batch.counts();
    lemma_offset_step(counts, i);
    crate::batch::lemma_offset_bounds(counts, i + 1);
    assert(batch.items_of(i) == submissions[i].items);
}

/// A submission without items takes nothing from the others: it adds no
/// item to the batch, every other submission keeps its share, and its own
/// share is empty. It still counts as a submission, so the batch that holds
/// it is flushed like any other.
pub proof fn law_empty_submission<I, C, S, T>(
    batch: BatchView<I, C, S>,
    submission: SubmissionView<I, C, S>,
    result: Seq<T>,
)
    requires
        batch.wf(),
        submission.items.len() == 0,
        result.len() == batch.data.len(),
    ensures
        batch.push(submission).data == batch.data,
        batch.push(submission).wf(),
        batch.push(submission).reply_slots.len() == batch.reply_slots.len() + 1,
        slice_of(result, batch.push(submission).counts(), batch.reply_slots.len() as int).len()
            == 0,
        forall|i: int|
            0 <= i < batch.reply_slots.len() ==> #[trigger] slice_of(
                result,
                batch.push(submission).counts(),
                i,
            ) == slice_of(result, batch.counts(), i),
{
    let after = batch.push(submission);
    lemma_total_push(batch.counts(), 0);
    assert(after.counts() =~= batch.counts().push(0));
    assert(after.data =~= batch.data);
    assert forall|i: int| 0 <= i < batch.reply_slots.len() implies #[trigger] slice_of(
        result,
        after.counts(),
        i,
    ) == slice_of(result, batch.counts(), i) by {
        lemma_offset_push(batch.counts(), 0, i);
    }
}

/// An event and the time at which the driver reports it.
pub struct Timed<I, C, S> {
    pub event: EventView<I, C, S>,
    pub now: u64,
}

/// The collector after `events`, taken in order.
pub open spec fn run<I, C, S>(
    collector: CollectorView<I, C, S>,
    events: Seq<Timed<I, C, S>>,
) -> CollectorView<I, C, S>
    decreases events.len(),
{
    if events.len() == 0 {
        collector
    } else {
        run(collector, events.drop_last()).step(events.last().event, events.last().now).0
    }
}

/// The batches that the collector flushes on `events`, in order.
pub open spec fn flushed<I, C, S>(
    collector: CollectorView<I, C, S>,
    events: Seq<Timed<I, C, S>>,
) -> Seq<BatchView<I, C, S>>
    decreases events.len(),
{
    if events.len() == 0 {
        Seq::empty()
    } else {
        let before = flushed(collector, events.drop_last());
        match run(collector, events.drop_last()).step(
            events.last().event,
            events.last().now,
        ).1.flushed {
            Some(batch) => before.push(batch),
            None => before,
        }
    }
}

/// The submissions that arrive in `events`, in order.
pub open spec fn arrivals<I, C, S>(events: Seq<Timed<I, C, S>>) -> Seq<SubmissionView<I, C, S>>
    decreases events.len(),
{
    if events.len() == 0 {
        Seq::empty()
    } else {
        match events.last().event {
            EventView::Arrival(submission) => arrivals(events.drop_last()).push(submission),
            _ => arrivals(events.drop_last()),
        }
    }
}

/// `first` with the submissions of `second` behind it.
pub open spec fn join<I, C, S>(first: BatchView<I, C, S>, second: BatchView<I, C, S>) -> BatchView<
    I,
    C,
    S,
> {
    BatchView {
        data: first.data + second.data,
        reply_slots: first.reply_slots + second.reply_slots,
        spans: first.spans + second.spans,
    }
}

/// The submissions of `batches`, in order, as one batch.
pub open spec fn join_all<I, C, S>(batches: Seq<BatchView<I, C, S>>) -> BatchView<I, C, S>
    decreases batches.len(),
{
    if batches.len() == 0 {
        BatchView::empty()
    } else {
        join(join_all(batches.drop_last()), batches.last())
    }
}

proof fn lemma_join_push<I, C, S>(
    first: BatchView<I, C, S>,
    second: BatchView<I, C, S>,
    submission: SubmissionView<I, C, S>,
)
    ensures
        join(first, second.push(submission)) == join(first, second).push(submission),
{
    let pushed = join(first, second.push(submission));
    let joined = join(first, second).push(submission);
    assert(pushed.data =~= joined.data);
    assert(pushed.reply_slots =~= joined.reply_slots);
    assert(pushed.spans =~= joined.spans);
}

proof fn lemma_join_empty<I, C, S>(batch: BatchView<I, C, S>)
    ensures
        join(batch, BatchView::empty()) == batch,
        join(BatchView::empty(), batch) == batch,
{
    assert(join(batch, BatchView::empty()).data =~= batch.data);
    assert(join(batch, BatchView::empty()).reply_slots =~= batch.reply_slots);
    assert(join(batch, BatchView::empty()).spans =~= batch.spans);
    assert(join(BatchView::empty(), batch).data =~= batch.data);
    assert(join(BatchView::empty(), batch).reply_slots =~= batch.reply_slots);
    assert(join(BatchView::empty(), batch).spans =~= batch.spans);
}

/// Whatever arrives and whenever, in whatever interleaving with timer
/// expiries: the batches flushed so far, followed by what is still pending,
/// hold exactly what was pending at the start followed by the submissions
/// that arrived, in arrival order. No accepted submission is lost, none is
/// handed out twice, and none changes place.
pub proof fn law_nothing_lost<I, C, S>(
    collector: CollectorView<I, C, S>,
    events: Seq<Timed<I, C, S>>,
)
    ensures
        join(join_all(flushed(collector, events)), run(collector, events).pending) == join(
            collector.pending,
            gather(arrivals(events)),
        ),
    decreases events.len(),
{
    if events.len() == 0 {
        lemma_join_empty(collector.pending);
    } else {
        let earlier = events.drop_last();
        let last = events.last();
        law_nothing_lost(collector, earlier);
        let before = run(collector, earlier);
        let done = join_all(flushed(collector, earlier));
        let absorbed = before.absorb(last.event, last.now);
        // what is there once the event is taken in
        match last.event {
            EventView::Arrival(submission) => {
                assert(arrivals(events).drop_last() =~= arrivals(earlier));
                lemma_join_push(done, before.pending, submission);
                lemma_join_push(collector.pending, gather(arrivals(earlier)), submission);
            },
            _ => {},
        }
        assert(join(done, absorbed.pending) == join(collector.pending, gather(arrivals(events))));
        // a flush moves all of it from pending to flushed
        if before.flushes(last.event, last.now) {
            assert(flushed(collector, events).drop_last() =~= flushed(collector, earlier));
            lemma_join_empty(join(done, absorbed.pending));
        }
    }
}

/// A copy of a shared error holds the error that was copied.
pub proof fn law_shared_error_copy<E>(error: SharedError<E>, copy: SharedError<E>)
    requires
        cloned(error, copy),
    ensures
        copy == error,
        copy@ == error@,
{
}

/// Error fan-out: when the aggregate fails with a shared error, whatever a
/// submitter gets as its copy of the outcome is an error, never a value, and
/// it holds the very error of the aggregate.
pub proof fn law_error_fan_out<R: Clone, E>(
    result: Result<R, SharedError<E>>,
    copy: Result<R, SharedError<E>>,
)
    requires
        result is Err,
        shares_outcome(result, copy),
    ensures
        copy is Err,
        copy->Err_0@ == result->Err_0@,
{
    law_shared_error_copy(result->Err_0, copy->Err_0);
}

/// The same for the vector shape: after a failure the share of every
/// submission, whatever it gave, is the error of the aggregate.
pub proof fn law_error_fan_out_vector<T, E>(
    result: Result<Vec<T>, SharedError<E>>,
    counts: Seq<usize>,
    i: int,
    share: Result<Vec<T>, SharedError<E>>,
)
    requires
        result is Err,
        is_share_of(result, counts, i, share),
    ensures
        share is Err,
        share->Err_0@ == result->Err_0@,
{
    law_shared_error_copy(result->Err_0, share->Err_0);
}

} // verus!
