//! The tracing hook: how the tracing context of a caller is tied to the span
//! under which its batch runs.

use tracing::Span;
use vstd::prelude::*;

verus! {

/// `tracing::Span`, a handle to a span of the `tracing` crate. Nothing is
/// stated of what it holds.
#[verifier::external_type_specification]
#[verifier::external_body]
pub struct ExSpan(tracing::Span);

/// A tracing context that can be linked to the span of a batch.
pub trait TracingSpan {
    /// Links this context to `span`, the span under which the batch runs.
    fn link_span(&mut self, span: &Span);
}

impl<N> TracingSpan for N {
    /// Without a tracing backend there is nothing to link: the context stays
    /// as it is.
    fn link_span(&mut self, _span: &Span)
        ensures
            *final(self) == *old(self),
    {
    }
}

/// Links the context of every submission of a batch to the span of the
/// batch, in arrival order. With the hook above, every context stays as it is.
pub fn link_spans<S>(spans: &mut Vec<S>, batch_span: &Span)
    ensures
        final(spans)@ == old(spans)@,
{
    let mut i: usize = 0;
    while i < spans.len()
        invariant
            spans@ == old(spans)@,
        decreases spans@.len() - i,
    {
        spans[i].link_span(batch_span);
        i += 1;
    }
}

} // verus!
