use batched::trace::{link_spans, TracingSpan};
use tracing::Span;

#[test]
fn the_hook_without_a_backend_changes_nothing() {
    let batch_span = Span::none();
    let mut span = 5u32;
    span.link_span(&batch_span);
    assert_eq!(span, 5);
    let mut spans = vec![1u32, 2, 3];
    link_spans(&mut spans, &batch_span);
    assert_eq!(spans, vec![1, 2, 3]);
    let mut callers = vec![Span::none(), Span::current()];
    link_spans(&mut callers, &batch_span);
    assert_eq!(callers.len(), 2);
    assert!(callers.iter().all(Span::is_none));
}
