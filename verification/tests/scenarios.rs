//! Whole runs of one executor, with a clock that the test advances: the
//! driver below does what the task around the collector does, without
//! waiting.

use batched::attributes::Attributes;
use batched::batch::{Batch, Submission};
use batched::collector::{Collector, Event, Wait};
use batched::distribute::{
    address, first, partition, partition_fallible, share, share_fallible, Delivery,
};
use batched::error::SharedError;
use std::collections::VecDeque;
use std::io;

struct Call {
    at: u64,
    items: Vec<u32>,
}

fn call(at: u64, items: Vec<u32>) -> Call {
    Call { at, items }
}

struct Run<R> {
    /// The time of each flush, with the items of the batch.
    batches: Vec<(u64, Vec<u32>)>,
    /// The reply to each call that got one, by the number of the call, with
    /// the time at which it was sent.
    replies: Vec<Option<(u64, R)>>,
}

/// Feeds `calls`, which are in the order of their times, to a collector with
/// `options`, and hands each flushed batch to `dispatch`.
fn run<R>(
    options: &str,
    calls: Vec<Call>,
    mut dispatch: impl FnMut(Batch<u32, usize, ()>) -> Vec<Delivery<usize, R>>,
) -> Run<R> {
    let options = Attributes::parse(options).unwrap();
    let awaited = !options.asynchronous;
    let mut replies: Vec<Option<(u64, R)>> = calls.iter().map(|_| None).collect();
    let mut batches = Vec::new();
    let mut arrivals: VecDeque<(usize, Call)> = calls.into_iter().enumerate().collect();
    let mut collector = Collector::new(options.limit, options.default_window, options.windows);
    let mut now = 0;
    let mut wait = collector.wait(now);
    loop {
        let next_arrival = arrivals.front().map(|(_, call)| call.at);
        let arrives_within = |left: u64| next_arrival.is_some_and(|at| at < now + left);
        let event = match wait {
            Wait::Exit => break,
            Wait::First if next_arrival.is_none() => Event::Closed,
            Wait::Race(left) | Wait::Sleep(left) if !arrives_within(left) => {
                now += left;
                Event::Tick
            }
            _ => {
                let (caller, call) = arrivals.pop_front().unwrap();
                now = now.max(call.at);
                Event::Arrival(Submission::new(call.items, (), awaited.then_some(caller)))
            }
        };
        let step = collector.step(event, now);
        wait = step.next;
        if let Some(batch) = step.flushed {
            batches.push((now, batch.data.clone()));
            for delivery in dispatch(batch) {
                replies[delivery.reply] = Some((now, delivery.value));
            }
        }
    }
    Run { batches, replies }
}

fn sum(batch: Batch<u32, usize, ()>) -> Vec<Delivery<usize, u32>> {
    let total: u32 = batch.data.iter().sum();
    let shares = share(&total, batch.reply_slots.len());
    address(batch.reply_slots, shares)
}

fn add_each(batch: Batch<u32, usize, ()>) -> Vec<Delivery<usize, Vec<u32>>> {
    let counts = batch.counts();
    let outputs: Vec<u32> = batch.data.into_iter().map(|n| n + 1).collect();
    address(batch.reply_slots, partition(outputs, &counts).unwrap())
}

#[test]
fn test_simple() {
    let calls = (0..100).map(|_| call(0, vec![1, 1, 1])).collect();
    let run = run("window = 100, limit = 1000", calls, sum);
    assert_eq!(run.batches.len(), 1);
    let expected_total = 100 * 3;
    for reply in run.replies {
        assert_eq!(reply, Some((100, expected_total)));
    }
}

#[test]
fn macro_simple() {
    let calls = (0..100).map(|_| call(0, vec![1, 1, 1])).collect();
    let run = run("window1 = 10, window = 100, limit = 1000", calls, sum);
    let expected_total = 100 * 3;
    assert_eq!(run.replies[99], Some((100, expected_total)));
    assert!(run.replies.iter().all(|reply| reply == &Some((100, expected_total))));
}

#[test]
fn simple_sum_of_single_items() {
    let calls = (0..100).map(|at| call(at / 2, vec![1])).collect();
    let run = run("window = 100, limit = 1000", calls, sum);
    assert_eq!(run.batches, vec![(100, vec![1; 100])]);
    for reply in run.replies {
        let (at, total) = reply.unwrap();
        assert_eq!(total, 100);
        assert!(at <= 200);
    }
}

fn always_fails(batch: Batch<u32, usize, ()>) -> Vec<Delivery<usize, Result<(), SharedError<io::Error>>>> {
    let result: Result<(), io::Error> = Err(io::Error::other("1234"));
    let result = result.map_err(|e: io::Error| e.into());
    let shares = share_fallible(&result, batch.reply_slots.len());
    address(batch.reply_slots, shares)
}

#[test]
fn test_propagates_errors() {
    let run = run("window = 100, limit = 1000, boxed", vec![call(0, vec![0])], always_fails);
    let (_, result) = run.replies.into_iter().next().unwrap().unwrap();
    assert_eq!(result.is_err(), true);
}

#[test]
fn macro_propagates_errors() {
    let calls = vec![call(0, vec![0]), call(1, vec![0, 0]), call(2, vec![])];
    let run = run("window = 100, limit = 1000", calls, always_fails);
    assert_eq!(run.batches.len(), 1);
    for reply in run.replies {
        let (_, result) = reply.unwrap();
        assert!(result.is_err());
        assert_eq!(result.unwrap_err().to_string(), "1234");
    }
}

#[test]
fn test_empty_batch() {
    let run = run("window = 100, limit = 1000", vec![call(0, vec![])], sum);
    let (at, total) = run.replies[0].unwrap();
    assert!(at <= 1000, "batch timed out");
    assert_eq!(total, 0);
}

#[test]
fn macro_empty_batch() {
    let run = run("window = 100, limit = 1000", vec![call(0, vec![])], sum);
    assert_eq!(run.batches, vec![(100, vec![])]);
    assert!(run.replies[0].is_some(), "batch timed out");
}

#[test]
fn empty_submission_among_others() {
    let calls = vec![call(0, vec![1, 2]), call(5, vec![]), call(9, vec![3])];
    let shared = run("window = 100, limit = 1000", calls, sum);
    assert_eq!(shared.batches, vec![(100, vec![1, 2, 3])]);
    assert_eq!(shared.replies[1], Some((100, 6)));
    let calls = vec![call(0, vec![1, 2]), call(5, vec![]), call(9, vec![3])];
    let cut = run("window = 100, limit = 1000", calls, add_each);
    assert_eq!(cut.replies[0], Some((100, vec![2, 3])));
    assert_eq!(cut.replies[1], Some((100, vec![])));
    assert_eq!(cut.replies[2], Some((100, vec![4])));
}

#[test]
fn batched_window() {
    let run = run("window = 1000, limit = 1000", vec![call(0, vec![1, 1, 1])], sum);
    let (after, _) = run.replies[0].unwrap();
    assert!(after / 1000 == 1);
    assert_eq!(after, 1000);
}

#[test]
fn batched_with_returned_iterator() {
    let options = "window = 100, limit = 1000, iterator_value = u32";
    let input = vec![1, 1, 1];
    let result = run(options, vec![call(0, input)], add_each).replies.remove(0).unwrap().1;
    assert!(result == vec![2, 2, 2]);

    let result = run(options, vec![call(0, vec![2])], add_each).replies.remove(0).unwrap().1;
    let result = first(result).unwrap();
    assert!(result == 3);
}

#[test]
fn returned_iterator() {
    let options = "window = 100, limit = 1000";
    let calls = vec![call(0, vec![1, 1, 1]), call(0, vec![2])];
    let mut run = run(options, calls, add_each);
    assert_eq!(run.batches, vec![(100, vec![1, 1, 1, 2])]);
    let result = run.replies.remove(0).unwrap().1;
    assert!(result == vec![2, 2, 2]);
    let result = first(run.replies.remove(0).unwrap().1).unwrap();
    assert!(result == 3);
}

#[test]
fn returned_iterator_with_error() {
    fn add_each(batch: Batch<u32, usize, ()>) -> Vec<Delivery<usize, Result<Vec<u32>, SharedError<()>>>> {
        let counts = batch.counts();
        let result = Ok(batch.data.into_iter().map(|n| n + 1).collect());
        address(batch.reply_slots, partition_fallible(result, &counts).unwrap())
    }
    let options = "window = 100, limit = 1000";
    let result = run(options, vec![call(0, vec![1, 1, 1])], add_each).replies.remove(0).unwrap().1;
    let result = result.unwrap();
    assert!(result == vec![2, 2, 2]);

    let result = run(options, vec![call(0, vec![2])], add_each).replies.remove(0).unwrap().1;
    let result = first(result.unwrap()).unwrap();
    assert!(result == 3);
}

#[test]
fn asynchronous() {
    let mut background_fn_ran = false;
    let forget = |batch: Batch<u32, usize, ()>| {
        let _sum = batch.data.iter().sum::<u32>();
        background_fn_ran = true;
        let shares = share(&(), batch.reply_slots.len());
        address(batch.reply_slots, shares)
    };
    let run = run("window = 500, limit = 1000, asynchronous", vec![call(0, vec![1])], forget);
    assert_eq!(run.batches, vec![(500, vec![1])]);
    assert!(run.batches[0].0 <= 1000);
    assert_eq!(run.replies, vec![None]);
    assert_eq!(background_fn_ran, true);
}

#[test]
fn window() {
    let options = "window = 1000, window2 = 10, limit = 1000";
    let short = run(options, vec![call(0, vec![1, 1])], sum);
    let (elapsed, _) = short.replies[0].unwrap();
    assert!(elapsed <= 15);
    assert_eq!(elapsed, 10);

    let long = run(options, vec![call(0, vec![1, 1, 1])], sum);
    let (elapsed, _) = long.replies[0].unwrap();
    assert!(elapsed / 1000 == 1);
    assert_eq!(elapsed, 1000);
}

#[test]
fn every_submission_is_in_one_batch_in_arrival_order() {
    let sizes = [3usize, 0, 1, 4, 2, 0, 5, 1];
    let mut next = 0u32;
    let mut calls = Vec::new();
    let mut given = Vec::new();
    for (n, size) in sizes.iter().enumerate() {
        let items: Vec<u32> = (0..*size as u32).map(|k| next + k).collect();
        next += *size as u32;
        given.push(items.clone());
        calls.push(call(n as u64 * 30, items));
    }
    let run = run("window = 100, window2 = 20, limit = 6", calls, add_each);
    let all: Vec<u32> = run.batches.iter().flat_map(|(_, data)| data.clone()).collect();
    assert_eq!(all, (0..next).collect::<Vec<u32>>());
    assert!(run.batches.len() > 1);
    for (items, reply) in given.iter().zip(run.replies) {
        let outputs: Vec<u32> = items.iter().map(|n| n + 1).collect();
        assert_eq!(reply.unwrap().1, outputs);
    }
}
