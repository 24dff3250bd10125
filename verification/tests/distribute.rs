use batched::batch::ReplySlot;
use batched::distribute::{
    address, deliver_fallible_scalar, deliver_fallible_vector, deliver_scalar, deliver_vector,
    first, partition, partition_fallible, share, share_fallible, Delivery, ShapeViolation,
};
use batched::error::SharedError;

#[test]
fn cuts_the_outputs_by_the_counts() {
    let shares = partition(vec![10, 11, 12, 13, 14, 15], &vec![2, 0, 3, 1]).unwrap();
    assert_eq!(shares, vec![vec![10, 11], vec![], vec![12, 13, 14], vec![15]]);
    assert_eq!(partition(Vec::<u8>::new(), &vec![]).unwrap(), Vec::<Vec<u8>>::new());
    assert_eq!(partition(Vec::<u8>::new(), &vec![0, 0]).unwrap(), vec![vec![], vec![]]);
}

#[test]
fn refuses_too_few_and_too_many_outputs() {
    assert_eq!(partition(vec![1, 2], &vec![2, 1]), Err(ShapeViolation { returned: 2 }));
    assert_eq!(partition(vec![1, 2, 3, 4], &vec![2, 1]), Err(ShapeViolation { returned: 4 }));
    assert_eq!(partition(vec![1], &vec![]), Err(ShapeViolation { returned: 1 }));
    assert_eq!(
        partition(vec![1], &vec![usize::MAX, usize::MAX]),
        Err(ShapeViolation { returned: 1 })
    );
}

#[test]
fn gives_every_submission_the_scalar() {
    assert_eq!(share(&300u32, 3), vec![300, 300, 300]);
    assert_eq!(share(&String::from("x"), 0), Vec::<String>::new());
    let ok: Result<u32, String> = Ok(5);
    assert_eq!(share_fallible(&ok, 2), vec![Ok(5), Ok(5)]);
}

#[test]
fn gives_every_submission_the_error() {
    let failed: Result<u32, SharedError<String>> = Err(SharedError::new(String::from("1234")));
    let shares = share_fallible(&failed, 3);
    assert_eq!(shares.len(), 3);
    for share in &shares {
        let error = share.as_ref().unwrap_err();
        assert_eq!(error.inner(), "1234");
        assert!(std::ptr::eq(error.inner(), failed.as_ref().unwrap_err().inner()));
    }
    let failed: Result<Vec<u32>, SharedError<String>> = Err(SharedError::new(String::from("1234")));
    let shares = partition_fallible(failed, &vec![2, 0, 9]).unwrap();
    assert_eq!(shares.len(), 3);
    assert!(shares.iter().all(|share| share.as_ref().unwrap_err().inner() == "1234"));
}

#[test]
fn cuts_the_outputs_of_a_fallible_aggregate() {
    let done: Result<Vec<u32>, String> = Ok(vec![2, 2, 2, 3]);
    let shares = partition_fallible(done, &vec![3, 1]).unwrap();
    assert_eq!(shares, vec![Ok(vec![2, 2, 2]), Ok(vec![3])]);
    let done: Result<Vec<u32>, String> = Ok(vec![2, 2]);
    assert_eq!(partition_fallible(done, &vec![3, 1]), Err(ShapeViolation { returned: 2 }));
}

#[test]
fn a_single_call_gets_the_first_output() {
    assert_eq!(first(vec![3]), Some(3));
    assert_eq!(first(vec![3, 4]), Some(3));
    assert_eq!(first(Vec::<u32>::new()), None);
}

#[test]
fn addresses_each_share_to_its_endpoint() {
    let slots = vec![
        ReplySlot { reply: Some('a'), count: 2 },
        ReplySlot { reply: None, count: 1 },
        ReplySlot { reply: Some('c'), count: 0 },
    ];
    let deliveries = address(slots, vec![vec![1, 2], vec![3], vec![]]);
    let sent: Vec<(char, Vec<u32>)> =
        deliveries.into_iter().map(|delivery| (delivery.reply, delivery.value)).collect();
    assert_eq!(sent, vec![('a', vec![1, 2]), ('c', vec![])]);
    let slots = vec![ReplySlot { reply: Some('a'), count: 1 }, ReplySlot { reply: Some('b'), count: 1 }];
    let deliveries = address(slots, vec![7]);
    let sent: Vec<(char, u32)> =
        deliveries.into_iter().map(|delivery| (delivery.reply, delivery.value)).collect();
    assert_eq!(sent, vec![('a', 7)]);
}

fn slots() -> Vec<ReplySlot<char>> {
    vec![
        ReplySlot { reply: Some('a'), count: 2 },
        ReplySlot { reply: None, count: 1 },
        ReplySlot { reply: Some('c'), count: 0 },
        ReplySlot { reply: Some('d'), count: 1 },
    ]
}

fn sent<R>(deliveries: Vec<Delivery<char, R>>) -> Vec<(char, R)> {
    deliveries.into_iter().map(|delivery| (delivery.reply, delivery.value)).collect()
}

#[test]
fn delivers_the_scalar_to_those_who_await_it() {
    assert_eq!(sent(deliver_scalar(&9u32, slots())), vec![('a', 9), ('c', 9), ('d', 9)]);
    assert_eq!(sent(deliver_scalar(&9u32, Vec::<ReplySlot<char>>::new())), vec![]);
    let failed: Result<u32, String> = Err("1234".to_string());
    let deliveries = sent(deliver_fallible_scalar(&failed, slots()));
    assert_eq!(deliveries.len(), 3);
    assert!(deliveries.iter().all(|(_, value)| value == &Err("1234".to_string())));
}

#[test]
fn delivers_to_each_its_own_outputs() {
    let deliveries = deliver_vector(vec![10, 11, 12, 13], slots()).unwrap();
    assert_eq!(sent(deliveries), vec![('a', vec![10, 11]), ('c', vec![]), ('d', vec![13])]);
    assert_eq!(
        deliver_vector(vec![10, 11, 12], slots()).err(),
        Some(ShapeViolation { returned: 3 })
    );
    assert_eq!(
        deliver_vector(vec![10, 11, 12, 13, 14], slots()).err(),
        Some(ShapeViolation { returned: 5 })
    );
    let done: Result<Vec<u32>, String> = Ok(vec![10, 11, 12, 13]);
    let deliveries = sent(deliver_fallible_vector(done, slots()).unwrap());
    assert_eq!(deliveries, vec![('a', Ok(vec![10, 11])), ('c', Ok(vec![])), ('d', Ok(vec![13]))]);
    let failed: Result<Vec<u32>, String> = Err("1234".to_string());
    let deliveries = sent(deliver_fallible_vector(failed, slots()).unwrap());
    assert_eq!(deliveries.len(), 3);
    assert!(deliveries.iter().all(|(_, value)| value == &Err("1234".to_string())));
    let short: Result<Vec<u32>, String> = Ok(vec![10]);
    assert_eq!(
        deliver_fallible_vector(short, slots()).err(),
        Some(ShapeViolation { returned: 1 })
    );
}
