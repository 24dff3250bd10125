//! A batch: the items of several submissions laid end to end, with one reply
//! slot and one tracing context for each submission.

use vstd::prelude::*;

verus! {

/// One call's contribution to a batch.
///
/// `I` is the item type, `C` the reply endpoint and `S` the tracing context
/// of the caller. A call that awaits no reply carries no endpoint.
pub struct Submission<I, C, S> {
    pub items: Vec<I>,
    pub span: S,
    pub reply: Option<C>,
}

/// Where the reply to one submission goes, and how many items it gave.
pub struct ReplySlot<C> {
    pub reply: Option<C>,
    pub count: usize,
}

/// The items of the submissions gathered so far, in arrival order, with the
/// reply slots and tracing contexts of those submissions, in the same order.
pub struct Batch<I, C, S> {
    pub data: Vec<I>,
    pub reply_slots: Vec<ReplySlot<C>>,
    pub spans: Vec<S>,
}

/// A submission as a value: its items as a sequence.
pub struct SubmissionView<I, C, S> {
    pub items: Seq<I>,
    pub span: S,
    pub reply: Option<C>,
}

/// A batch as a value: three sequences.
pub struct BatchView<I, C, S> {
    pub data: Seq<I>,
    pub reply_slots: Seq<ReplySlot<C>>,
    pub spans: Seq<S>,
}

impl<I, C, S> View for Submission<I, C, S> {
    type V = SubmissionView<I, C, S>;

    open spec fn view(&self) -> SubmissionView<I, C, S> {
        SubmissionView { items: self.items@, span: self.span, reply: self.reply }
    }
}

impl<I, C, S> View for Batch<I, C, S> {
    type V = BatchView<I, C, S>;

    open spec fn view(&self) -> BatchView<I, C, S> {
        BatchView { data: self.data@, reply_slots: self.reply_slots@, spans: self.spans@ }
    }
}

impl<I, C, S> BatchView<I, C, S> {
    /// The batch without submissions.
    pub open spec fn empty() -> Self {
        BatchView { data: Seq::empty(), reply_slots: Seq::empty(), spans: Seq::empty() }
    }

    /// The counts of the reply slots add up to the number of items, and
    /// there is one tracing context for each reply slot.
    pub open spec fn wf(self) -> bool {
        &&& total(counts_of(self.reply_slots)) == self.data.len()
        &&& self.spans.len() == self.reply_slots.len()
    }

    /// The batch with `submission` added: its items go behind those already
    /// gathered, and it gets a reply slot and a tracing context of its own,
    /// also where it brings no items.
    pub open spec fn push(self, submission: SubmissionView<I, C, S>) -> Self {
        BatchView {
            data: self.data + submission.items,
            reply_slots: self.reply_slots.push(
                ReplySlot { reply: submission.reply, count: submission.items.len() as usize },
            ),
            spans: self.spans.push(submission.span),
        }
    }

    /// The number of items that each submission gave, in arrival order.
    pub open spec fn counts(self) -> Seq<usize> {
        counts_of(self.reply_slots)
    }

    /// The items that submission `i` gave, as they stand in `data`.
    pub open spec fn items_of(self, i: int) -> Seq<I> {
        self.data.subrange(
            offset(self.counts(), i) as int,
            offset(self.counts(), i) + self.counts()[i],
        )
    }
}

/// The sum of `counts`.
pub open spec fn total(counts: Seq<usize>) -> nat
    decreases counts.len(),
{
    if counts.len() == 0 {
        0
    } else {
        total(counts.drop_last()) + counts.last() as nat
    }
}

/// The number of items that stand before those of submission `i`: the sum of
/// the first `i` counts.
pub open spec fn offset(counts: Seq<usize>, i: int) -> nat {
    total(counts.take(i))
}

/// The counts of `slots`, in order.
pub open spec fn counts_of<C>(slots: Seq<ReplySlot<C>>) -> Seq<usize> {
    slots.map_values(|slot: ReplySlot<C>| slot.count)
}

pub proof fn lemma_total_push(counts: Seq<usize>, count: usize)
    ensures
        total(counts.push(count)) == total(counts) + count,
{
    assert(counts.push(count).drop_last() =~= counts);
}

pub proof fn lemma_offset_step(counts: Seq<usize>, i: int)
    requires
        0 <= i < counts.len(),
    ensures
        offset(counts, i + 1) == offset(counts, i) + counts[i],
        offset(counts, 0) == 0,
        offset(counts, counts.len() as int) == total(counts),
{
    assert(counts.take(i + 1).drop_last() =~= counts.take(i));
    assert(counts.take(counts.len() as int) =~= counts);
}

pub proof fn lemma_offset_bounds(counts: Seq<usize>, i: int)
    requires
        0 <= i <= counts.len(),
    ensures
        offset(counts, i) <= total(counts),
    decreases counts.len() - i,
{
    if i < counts.len() {
        lemma_offset_step(counts, i);
        lemma_offset_bounds(counts, i + 1);
    } else {
        assert(counts.take(counts.len() as int) =~= counts);
    }
}

pub proof fn lemma_offset_push(counts: Seq<usize>, count: usize, i: int)
    requires
        0 <= i <= counts.len(),
    ensures
        offset(counts.push(count), i) == offset(counts, i),
{
    assert(counts.push(count).take(i) =~= counts.take(i));
}

impl<I, C, S> Submission<I, C, S> {
    pub fn new(items: Vec<I>, span: S, reply: Option<C>) -> (submission: Self)
        ensures
            submission.items == items,
            submission.span == span,
            submission.reply == reply,
    {
        Submission { items, span, reply }
    }
}

/// The counts of `slots`, in order.
pub fn slot_counts<C>(slots: &Vec<ReplySlot<C>>) -> (counts: Vec<usize>)
    ensures
        counts@ == counts_of(slots@),
{
    let mut counts: Vec<usize> = Vec::new();
    let mut i: usize = 0;
    while i < slots.len()
        invariant
            i <= slots@.len(),
            counts@ == counts_of(slots@).take(i as int),
        decreases slots@.len() - i,
    {
        counts.push(slots[i].count);
        proof {
            assert(counts_of(slots@).take(i + 1) =~= counts_of(slots@).take(i as int).push(
                slots@[i as int].count,
            ));
        }
        i += 1;
    }
    proof {
        assert(counts_of(slots@).take(i as int) =~= counts_of(slots@));
    }
    counts
}

impl<I, C, S> Batch<I, C, S> {
    /// A batch without submissions.
    pub fn new() -> (batch: Self)
        ensures
            batch@ == BatchView::<I, C, S>::empty(),
            batch@.wf(),
    {
        let batch = Batch { data: Vec::new(), reply_slots: Vec::new(), spans: Vec::new() };
        assert(counts_of(batch.reply_slots@) =~= Seq::<usize>::empty());
        batch
    }

    /// Appends a submission.
    pub fn push(&mut self, submission: Submission<I, C, S>)
        requires
            old(self)@.wf(),
        ensures
            final(self)@ == old(self)@.push(submission@),
            final(self)@.wf(),
    {
        let Submission { items, span, reply } = submission;
        let mut items = items;
        let count = items.len();
        proof {
            lemma_total_push(counts_of(self.reply_slots@), count);
            assert(counts_of(self.reply_slots@.push(ReplySlot { reply, count })) =~= counts_of(
                self.reply_slots@,
            ).push(count));
        }
        self.reply_slots.push(ReplySlot { reply, count });
        self.spans.push(span);
        self.data.append(&mut items);
    }

    /// The number of items gathered.
    pub fn len(&self) -> (len: usize)
        ensures
            len == self@.data.len(),
    {
        self.data.len()
    }

    /// Whether no submission has been gathered. A batch of submissions that
    /// all came without items is not empty.
    pub fn is_empty(&self) -> (empty: bool)
        ensures
            empty == (self@.reply_slots.len() == 0),
    {
        self.reply_slots.len() == 0
    }

    /// The number of items that each submission gave, in arrival order.
    pub fn counts(&self) -> (counts: Vec<usize>)
        ensures
            counts@ == self@.counts(),
    {
        slot_counts(&self.reply_slots)
    }

    /// Moves the gathered submissions out and leaves the batch without any.
    pub fn take(&mut self) -> (taken: Self)
        ensures
            taken@ == old(self)@,
            final(self)@ == BatchView::<I, C, S>::empty(),
    {
        let mut taken = Batch { data: Vec::new(), reply_slots: Vec::new(), spans: Vec::new() };
        std::mem::swap(&mut taken.data, &mut self.data);
        std::mem::swap(&mut taken.reply_slots, &mut self.reply_slots);
        std::mem::swap(&mut taken.spans, &mut self.spans);
        taken
    }
}

} // verus!
