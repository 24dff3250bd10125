//! The collector: the state machine that gathers submissions into a batch and
//! decides when the batch is handed on.
//!
//! The collector does not wait, receive or sleep. Its driver does: it awaits
//! what the last step asked for, and reports what happened as the next event,
//! with the time at which it happened.

use crate::batch::{Batch, BatchView, Submission, SubmissionView};
use crate::window::{lookup, remaining, remaining_at, window_of};
use std::collections::BTreeMap;
use vstd::prelude::*;

verus! {

/// What the driver reports to the collector.
pub enum Event<I, C, S> {
    /// A submission was received.
    Arrival(Submission<I, C, S>),
    /// The sleep that the last step asked for has ended.
    Tick,
    /// Every sender is gone: no submission will arrive any more.
    Closed,
}

/// An event as a value.
pub enum EventView<I, C, S> {
    Arrival(SubmissionView<I, C, S>),
    Tick,
    Closed,
}

impl<I, C, S> View for Event<I, C, S> {
    type V = EventView<I, C, S>;

    open spec fn view(&self) -> EventView<I, C, S> {
        match self {
            Event::Arrival(submission) => EventView::Arrival(submission@),
            Event::Tick => EventView::Tick,
            Event::Closed => EventView::Closed,
        }
    }
}

/// What the driver awaits next.
#[derive(Debug, Clone, Copy, PartialEq, Eq, Structural)]
pub enum Wait {
    /// The first submission of a batch, however long it takes.
    First,
    /// The next submission, or the end of so many milliseconds, whichever
    /// comes first.
    Race(u64),
    /// The end of so many milliseconds: nothing can arrive any more.
    Sleep(u64),
    /// Nothing: the collector is done.
    Exit,
}

/// What a step of the collector asks of its driver.
pub struct Step<I, C, S> {
    /// The batch to hand to the dispatcher, where the step flushed one.
    pub flushed: Option<Batch<I, C, S>>,
    /// What to await after that.
    pub next: Wait,
}

/// A step as a value.
pub struct StepView<I, C, S> {
    pub flushed: Option<BatchView<I, C, S>>,
    pub next: Wait,
}

impl<I, C, S> View for Step<I, C, S> {
    type V = StepView<I, C, S>;

    open spec fn view(&self) -> StepView<I, C, S> {
        StepView {
            flushed: match self.flushed {
                Some(batch) => Some(batch@),
                None => None,
            },
            next: self.next,
        }
    }
}

/// The collector of one executor.
///
/// It is idle while it holds no submission, and accumulating from the first
/// submission of a batch until that batch is flushed.
pub struct Collector<I, C, S> {
    /// The number of items at which a batch is flushed at once.
    pub limit: usize,
    /// The window of a batch whose size no threshold reaches.
    pub default_window: u64,
    /// The windows by threshold.
    pub windows: BTreeMap<u64, u64>,
    /// The submissions gathered since the last flush.
    pub pending: Batch<I, C, S>,
    /// When the pending batch began to accumulate.
    pub window_start: u64,
    /// Whether the submission channel has been reported closed.
    pub closed: bool,
}

/// The collector as a value.
pub struct CollectorView<I, C, S> {
    pub limit: usize,
    pub default_window: u64,
    pub windows: Map<u64, u64>,
    pub pending: BatchView<I, C, S>,
    pub window_start: u64,
    pub closed: bool,
}

impl<I, C, S> View for Collector<I, C, S> {
    type V = CollectorView<I, C, S>;

    open spec fn view(&self) -> CollectorView<I, C, S> {
        CollectorView {
            limit: self.limit,
            default_window: self.default_window,
            windows: self.windows@,
            pending: self.pending@,
            window_start: self.window_start,
            closed: self.closed,
        }
    }
}

impl<I, C, S> CollectorView<I, C, S> {
    /// The pending batch is well formed.
    pub open spec fn wf(self) -> bool {
        self.pending.wf()
    }

    /// No submission is pending.
    pub open spec fn idle(self) -> bool {
        self.pending.reply_slots.len() == 0
    }

    /// The window of the pending batch at its present size.
    pub open spec fn window(self) -> u64 {
        window_of(self.windows, self.default_window, self.pending.data.len() as int)
    }

    /// How long the pending batch may still accumulate at `now`.
    pub open spec fn remaining(self, now: u64) -> u64 {
        remaining_at(self.window_start, self.window(), now)
    }

    /// A batch is pending and its window has elapsed at `now`.
    pub open spec fn due(self, now: u64) -> bool {
        !self.idle() && self.remaining(now) == 0
    }

    /// The pending batch has reached the limit.
    pub open spec fn full(self) -> bool {
        self.pending.data.len() >= self.limit
    }

    /// The collector once it has taken `event` in, before it decides on a
    /// flush: an arrival joins the pending batch, and starts the window where
    /// it is the first of its batch.
    pub open spec fn absorb(self, event: EventView<I, C, S>, now: u64) -> Self {
        match event {
            EventView::Arrival(submission) => CollectorView {
                pending: self.pending.push(submission),
                window_start: if self.idle() {
                    now
                } else {
                    self.window_start
                },
                ..self
            },
            EventView::Tick => self,
            EventView::Closed => CollectorView { closed: true, ..self },
        }
    }

    /// Whether the step on `event` flushes: after an arrival, where the batch
    /// has reached the limit; otherwise, where the window of a pending batch
    /// has elapsed.
    pub open spec fn flushes(self, event: EventView<I, C, S>, now: u64) -> bool {
        match event {
            EventView::Arrival(_) => self.absorb(event, now).full(),
            _ => self.absorb(event, now).due(now),
        }
    }

    /// What the driver awaits in this state at `now`.
    pub open spec fn wait(self, now: u64) -> Wait {
        if self.idle() {
            if self.closed {
                Wait::Exit
            } else {
                Wait::First
            }
        } else if self.closed {
            Wait::Sleep(self.remaining(now))
        } else {
            Wait::Race(self.remaining(now))
        }
    }

    /// One step: the state after `event` at `now`, and what the driver is
    /// asked to do.
    pub open spec fn step(self, event: EventView<I, C, S>, now: u64) -> (Self, StepView<I, C, S>) {
        let absorbed = self.absorb(event, now);
        if self.flushes(event, now) {
            let after = CollectorView { pending: BatchView::empty(), ..absorbed };
            (after, StepView { flushed: Some(absorbed.pending), next: after.wait(now) })
        } else {
            (absorbed, StepView { flushed: None, next: absorbed.wait(now) })
        }
    }
}

impl<I, C, S> Collector<I, C, S> {
    /// An idle collector with the given limit and window policy.
    pub fn new(limit: usize, default_window: u64, windows: BTreeMap<u64, u64>) -> (collector: Self)
        ensures
            collector@.wf(),
            collector@.idle(),
            !collector@.closed,
            collector@.limit == limit,
            collector@.default_window == default_window,
            collector@.windows == windows@,
            collector@.pending == BatchView::<I, C, S>::empty(),
    {
        Collector {
            limit,
            default_window,
            windows,
            pending: Batch::new(),
            window_start: 0,
            closed: false,
        }
    }

    /// What the driver awaits at `now`.
    pub fn wait(&self, now: u64) -> (wait: Wait)
        ensures
            wait == self@.wait(now),
    {
        if self.pending.is_empty() {
            if self.closed {
                Wait::Exit
            } else {
                Wait::First
            }
        } else {
            let window = lookup(&self.windows, self.default_window, self.pending.len());
            let left = remaining(self.window_start, window, now);
            if self.closed {
                Wait::Sleep(left)
            } else {
                Wait::Race(left)
            }
        }
    }

    /// Takes in what the driver reports at `now`, and says what to do next.
    pub fn step(&mut self, event: Event<I, C, S>, now: u64) -> (step: Step<I, C, S>)
        requires
            old(self)@.wf(),
        ensures
            (final(self)@, step@) == old(self)@.step(event@, now),
            final(self)@.wf(),
            step@.flushed matches Some(batch) ==> batch.wf() && batch.reply_slots.len() > 0,
    {
        let flush = match event {
            Event::Arrival(submission) => {
                if self.pending.is_empty() {
                    self.window_start = now;
                }
                self.pending.push(submission);
                self.pending.len() >= self.limit
            },
            Event::Tick => self.due(now),
            Event::Closed => {
                self.closed = true;
                self.due(now)
            },
        };
        if flush {
            let batch = self.pending.take();
            let next = self.wait(now);
            Step { flushed: Some(batch), next }
        } else {
            let next = self.wait(now);
            Step { flushed: None, next }
        }
    }

    /// Whether a batch is pending whose window has elapsed at `now`.
    pub fn due(&self, now: u64) -> (due: bool)
        ensures
            due == self@.due(now),
    {
        if self.pending.is_empty() {
            false
        } else {
            let window = lookup(&self.windows, self.default_window, self.pending.len());
            remaining(self.window_start, window, now) == 0
        }
    }
}

} // verus!
