use teelog::merge::MergeQueues;
use teelog::message::{Message, Origin};

fn msg(timestamp: u64, line: &str) -> Message {
    Message { timestamp, line: line.to_string() }
}

const BACKOFF_100MS: u64 = 100_000_000;

#[test]
fn empty_queues_release_nothing() {
    let mut q = MergeQueues::new();
    let batch = q.release_ready(1_000_000_000, BACKOFF_100MS);
    assert!(batch.is_empty());
}

#[test]
fn lone_head_waits_for_backoff_window() {
    let mut q = MergeQueues::new();
    q.push(Origin::Stdout, msg(1_000, "a"));
    // Not yet aged past the window: nothing may be released.
    let batch = q.release_ready(1_000 + BACKOFF_100MS - 1, BACKOFF_100MS);
    assert!(batch.is_empty());
    // One nanosecond later the head has aged: it is released.
    let batch = q.release_ready(1_000 + BACKOFF_100MS, BACKOFF_100MS);
    assert_eq!(batch.len(), 1);
    assert!(matches!(batch[0].0, Origin::Stdout));
    assert_eq!(batch[0].1.line, "a");
}

#[test]
fn program_order_within_a_millisecond_is_kept() {
    // Command `echo -n a; echo b 1>&2`: stdout "a" then stderr "b", captured
    // within 1 ms of each other, backoff 100 ms.
    let mut q = MergeQueues::new();
    q.push(Origin::Stdout, msg(5_000_000, "a"));
    q.push(Origin::Stderr, msg(6_000_000, "b"));
    let batch = q.release_ready(6_000_000 + BACKOFF_100MS, BACKOFF_100MS);
    assert_eq!(batch.len(), 2);
    assert!(matches!(batch[0].0, Origin::Stdout));
    assert_eq!(batch[0].1.line, "a");
    assert!(matches!(batch[1].0, Origin::Stderr));
    assert_eq!(batch[1].1.line, "b");
}

#[test]
fn equal_timestamps_dispatch_stderr_first() {
    let mut q = MergeQueues::new();
    q.push(Origin::Stdout, msg(42, "out"));
    q.push(Origin::Stderr, msg(42, "err"));
    let mut remaining = q;
    let batch = remaining.drain_remaining();
    assert_eq!(batch.len(), 2);
    assert!(matches!(batch[0].0, Origin::Stderr));
    assert_eq!(batch[0].1.line, "err");
    assert!(matches!(batch[1].0, Origin::Stdout));
    assert_eq!(batch[1].1.line, "out");
}

#[test]
fn comparison_needs_no_backoff_when_both_queues_hold_messages() {
    let mut q = MergeQueues::new();
    q.push(Origin::Stdout, msg(500, "late"));
    q.push(Origin::Stderr, msg(300, "early"));
    // Neither head has aged, but a true comparison is possible: the earlier
    // head is released; the remaining lone head then waits for its window.
    let batch = q.release_ready(501, BACKOFF_100MS);
    assert_eq!(batch.len(), 1);
    assert!(matches!(batch[0].0, Origin::Stderr));
    assert_eq!(batch[0].1.line, "early");
}

#[test]
fn stalled_stream_does_not_block_the_other() {
    // stderr is silent for far longer than the window; stdout's queued
    // messages are all released once aged.
    let mut q = MergeQueues::new();
    q.push(Origin::Stdout, msg(1_000, "one"));
    q.push(Origin::Stdout, msg(2_000, "two"));
    q.push(Origin::Stdout, msg(3_000, "three"));
    let batch = q.release_ready(3_000 + BACKOFF_100MS, BACKOFF_100MS);
    assert_eq!(batch.len(), 3);
    assert_eq!(batch[0].1.line, "one");
    assert_eq!(batch[1].1.line, "two");
    assert_eq!(batch[2].1.line, "three");
}

#[test]
fn chronological_order_across_interleaved_streams() {
    let mut q = MergeQueues::new();
    q.push(Origin::Stdout, msg(10, "o1"));
    q.push(Origin::Stdout, msg(30, "o2"));
    q.push(Origin::Stderr, msg(20, "e1"));
    q.push(Origin::Stderr, msg(40, "e2"));
    let batch = q.drain_remaining();
    let lines: Vec<&str> = batch.iter().map(|p| p.1.line.as_str()).collect();
    assert_eq!(lines, vec!["o1", "e1", "o2", "e2"]);
    let stamps: Vec<u64> = batch.iter().map(|p| p.1.timestamp).collect();
    let mut sorted = stamps.clone();
    sorted.sort();
    assert_eq!(stamps, sorted);
}

#[test]
fn final_drain_empties_both_queues() {
    let mut q = MergeQueues::new();
    q.push(Origin::Stderr, msg(7, "x"));
    q.push(Origin::Stdout, msg(9, "y"));
    let batch = q.drain_remaining();
    assert_eq!(batch.len(), 2);
    let batch = q.drain_remaining();
    assert!(batch.is_empty());
}
