use batched::attributes::{AttributeError, Attributes, MetaEntry};
use batched::syntax::{expr_to_u64, MetaForm};

fn entry(name: &str, number: Option<u64>) -> MetaEntry {
    MetaEntry { name: Some(name.to_string()), form: MetaForm::NameValue, number }
}

fn flag(name: &str) -> MetaEntry {
    MetaEntry { name: Some(name.to_string()), form: MetaForm::Path, number: None }
}

fn refused(tokens: &str) -> AttributeError {
    Attributes::parse(tokens).unwrap_err()
}

#[test]
fn reads_window_and_limit() {
    let attributes = Attributes::parse("window = 100, limit = 1000").unwrap();
    assert_eq!(attributes.limit, 1000);
    assert_eq!(attributes.default_window, 100);
    assert_eq!(attributes.concurrent_limit, None);
    assert!(!attributes.asynchronous);
    assert!(attributes.windows.is_empty());
}

#[test]
fn reads_thresholds() {
    let attributes = Attributes::parse("window = 1000, window2 = 10, limit = 1000").unwrap();
    assert_eq!(attributes.windows.get(&2), Some(&10));
    assert_eq!(attributes.windows.len(), 1);
    let attributes =
        Attributes::parse("window1 = 10, window20 = 5, window = 100, limit = 1000").unwrap();
    assert_eq!(attributes.windows.into_iter().collect::<Vec<_>>(), vec![(1, 10), (20, 5)]);
}

#[test]
fn reads_concurrent_and_asynchronous() {
    let attributes =
        Attributes::parse("window = 500, limit = 1000, concurrent = 4, asynchronous").unwrap();
    assert_eq!(attributes.concurrent_limit, Some(4));
    assert!(attributes.asynchronous);
    assert_eq!(attributes.permits(), 4);
}

#[test]
fn ignores_other_names() {
    let attributes =
        Attributes::parse("window = 100, limit = 1000, boxed, iterator_value = u32, a::b = 1")
            .unwrap();
    assert_eq!(attributes.limit, 1000);
    assert!(attributes.windows.is_empty());
}

#[test]
fn the_last_value_of_an_option_stands() {
    let attributes = Attributes::parse("window = 1, limit = 2, window = 3, limit = 4").unwrap();
    assert_eq!((attributes.default_window, attributes.limit), (3, 4));
    assert_eq!(refused("window = 1, limit = 2, limit = x"), AttributeError::MissingLimit);
    assert_eq!(refused("window = 1, limit = 2, window = \"x\""), AttributeError::MissingWindow);
    let attributes = Attributes::parse("window = 1, limit = 2, concurrent = 3, concurrent = x");
    assert_eq!(attributes.unwrap().concurrent_limit, None);
}

#[test]
fn refuses_unsorted_thresholds() {
    let outcome = Attributes::parse("window5 = 10, window2 = 10, window = 1, limit = 1");
    assert_eq!(outcome.unwrap_err(), AttributeError::UnsortedThresholds);
    assert_eq!(
        refused("window2 = 10, window2 = 20, window = 1, limit = 1"),
        AttributeError::UnsortedThresholds
    );
}

#[test]
fn names_each_refusal() {
    assert_eq!(refused(""), AttributeError::Syntax);
    assert_eq!(refused("window = 1 limit = 1"), AttributeError::Syntax);
    assert_eq!(refused("window = 1, limit"), AttributeError::ExpectedValue);
    assert_eq!(refused("window, limit = 1"), AttributeError::ExpectedValue);
    assert_eq!(refused("window = 1, limit = 1, concurrent(2)"), AttributeError::ExpectedValue);
    assert_eq!(refused("window = 1, limit = 1, window2"), AttributeError::ExpectedValue);
    assert_eq!(refused("window = 1, limit = 0"), AttributeError::InvalidLimit);
    assert_eq!(refused("window = 1, limit = 1, concurrent = 0"), AttributeError::InvalidConcurrent);
    assert_eq!(refused("window = 1, limit = 1, windows = 5"), AttributeError::InvalidThreshold);
    assert_eq!(refused("window = 1, limit = 1, window0 = 5"), AttributeError::InvalidThreshold);
    assert_eq!(
        refused("window = 1, limit = 1, window18446744073709551616 = 5"),
        AttributeError::InvalidThreshold
    );
    assert_eq!(refused("window = 1, limit = 1, window2 = x"), AttributeError::ExpectedInteger);
    assert_eq!(refused("limit = 1"), AttributeError::MissingWindow);
    assert_eq!(refused("window = 1"), AttributeError::MissingLimit);
    assert_eq!(refused("asynchronous"), AttributeError::MissingWindow);
}

#[test]
fn the_first_refusal_is_reported() {
    assert_eq!(refused("limit = 0, window0 = 1"), AttributeError::InvalidLimit);
    assert_eq!(refused("window0 = 1, limit = 0"), AttributeError::InvalidThreshold);
}

#[test]
fn reads_entries_without_syntax() {
    let entries = vec![
        entry("window", Some(1000)),
        entry("window2", Some(10)),
        entry("window18446744073709551615", Some(7)),
        entry("limit", Some(3)),
        flag("asynchronous"),
        MetaEntry { name: None, form: MetaForm::List, number: None },
    ];
    let attributes = Attributes::from_entries(&entries).unwrap();
    assert_eq!(attributes.limit, 3);
    assert_eq!(attributes.default_window, 1000);
    assert!(attributes.asynchronous);
    assert_eq!(attributes.windows.get(&2), Some(&10));
    assert_eq!(attributes.windows.get(&u64::MAX), Some(&7));
    assert_eq!(Attributes::from_entries(&vec![]).unwrap_err(), AttributeError::MissingWindow);
    let wide = vec![entry("window", Some(1)), entry("limit", Some(u64::MAX))];
    match usize::try_from(u64::MAX) {
        Ok(limit) => assert_eq!(Attributes::from_entries(&wide).unwrap().limit, limit),
        Err(_) => {
            assert_eq!(Attributes::from_entries(&wide).unwrap_err(), AttributeError::InvalidLimit)
        }
    }
}

#[test]
fn bounds_permits_and_capacity() {
    let attributes = Attributes::parse("window = 1, limit = 1000").unwrap();
    assert_eq!(attributes.permits(), usize::MAX / 8);
    assert_eq!(attributes.capacity(), 1000);
    if usize::BITS == 64 {
        assert_eq!(attributes.permits(), 2305843009213693951);
    }
    let wide = vec![
        entry("window", Some(1)),
        entry("limit", Some(usize::MAX as u64)),
        entry("concurrent", Some(usize::MAX as u64)),
    ];
    let attributes = Attributes::from_entries(&wide).unwrap();
    assert_eq!(attributes.permits(), usize::MAX / 8);
    assert_eq!(attributes.capacity(), usize::MAX / 8);
}

#[test]
fn reads_integer_literals() {
    assert_eq!(expr_to_u64("1000"), Some(1000));
    assert_eq!(expr_to_u64("0"), Some(0));
    assert_eq!(expr_to_u64("1_000u64"), Some(1000));
    assert_eq!(expr_to_u64("0x10"), Some(16));
    assert_eq!(expr_to_u64("18446744073709551615"), Some(u64::MAX));
    assert_eq!(expr_to_u64("18446744073709551616"), None);
    assert_eq!(expr_to_u64("-1"), None);
    assert_eq!(expr_to_u64("1.5"), None);
    assert_eq!(expr_to_u64("\"1000\""), None);
    assert_eq!(expr_to_u64("u32"), None);
    assert_eq!(expr_to_u64("1 +"), None);
}
