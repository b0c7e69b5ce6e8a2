use block_uploader::key::{object_key, push_decimal};
use block_uploader::scheduler::{Action, Scheduler};
use block_uploader::stats::Stats;
use block_uploader::upload::{
    build_request, finish_upload, prepare_upload, BlockMessage, UploadError, UploadResult,
};
use std::collections::HashMap;

const PREFIX: &str = "blocks";

fn block(height: u64) -> BlockMessage {
    let payload = format!("{{\"block\":{{\"header\":{{\"height\":{}}}}},\"shards\":[]}}", height);
    BlockMessage { height, payload: payload.into_bytes() }
}

struct Run {
    sched: Scheduler,
    results: Vec<UploadResult>,
    store: HashMap<String, Vec<u8>>,
    max_in_flight: usize,
}

/// Runs the scheduler to the end against an in-memory store. Uploads finish
/// newest first, so completion order differs from input order; `store_fails`
/// says which heights the store refuses.
fn drive(limit: usize, messages: Vec<BlockMessage>, store_fails: &dyn Fn(u64) -> bool) -> Run {
    let mut sched = Scheduler::new(limit);
    let mut source = messages.into_iter();
    let mut pending: Vec<(u64, u64, Result<block_uploader::upload::PutRequest, UploadError>)> =
        Vec::new();
    let mut results = Vec::new();
    let mut store = HashMap::new();
    let mut max_in_flight = 0;
    loop {
        match sched.next_action() {
            Action::Pull => match source.next() {
                Some(msg) => {
                    assert!(sched.can_launch());
                    let ticket = sched.launch();
                    let height = msg.height;
                    pending.push((ticket, height, prepare_upload(PREFIX, msg)));
                    max_in_flight = max_in_flight.max(sched.in_flight_count());
                }
                None => sched.source_exhausted(),
            },
            Action::AwaitCompletion => {
                let (ticket, height, prepared) = pending.pop().unwrap();
                let outcome = match prepared {
                    Ok(req) => {
                        if store_fails(height) {
                            Err(UploadError::Store("injected".to_string()))
                        } else {
                            store.insert(req.key, req.body);
                            Ok(())
                        }
                    }
                    Err(e) => Err(e),
                };
                assert!(sched.is_in_flight(ticket));
                results.push(sched.complete(ticket, height, outcome));
            }
            Action::Finished => break,
        }
    }
    Run { sched, results, store, max_in_flight }
}

#[test]
fn test_sending_blocks_in_parallel() {
    let messages: Vec<BlockMessage> = (0..100u64).map(block).collect();
    let run = drive(2, messages, &|_| false);
    let mut blocks = 0;
    for result in &run.results {
        assert!(result.is_success());
        blocks += 1;
    }
    assert_eq!(blocks, 100);
    assert_eq!(run.sched.stats().blocks_processed_count, u64::try_from(100usize).unwrap());
}

#[test]
fn hundred_blocks_two_slots_hundred_keys() {
    let messages: Vec<BlockMessage> = (1000..1100u64).map(block).collect();
    let run = drive(2, messages, &|_| false);
    assert_eq!(run.results.len(), 100);
    assert_eq!(run.sched.stats().snapshot(), 100);
    assert_eq!(run.store.len(), 100);
    for h in 1000..1100u64 {
        assert!(run.store.contains_key(&format!("blocks/{}.json", h)));
    }
    assert!(run.max_in_flight <= 2);
    assert_eq!(run.max_in_flight, 2);
}

#[test]
fn malformed_fifth_message_fails_alone() {
    let mut messages: Vec<BlockMessage> = (1..=10u64).map(block).collect();
    messages[4].payload = b"{\"block\": ".to_vec();
    let run = drive(3, messages, &|_| false);
    assert_eq!(run.results.len(), 10);
    assert_eq!(run.sched.stats().snapshot(), 9);
    let failures: Vec<&UploadResult> = run.results.iter().filter(|r| !r.is_success()).collect();
    assert_eq!(failures.len(), 1);
    assert_eq!(failures[0].height(), 5);
    assert!(matches!(failures[0], UploadResult::Failure { error: UploadError::Malformed, .. }));
    let summary = run.sched.summary();
    assert_eq!(summary.processed, 9);
    assert_eq!(summary.failed, 1);
    assert!(!summary.source_failed);
}

#[test]
fn injected_store_failures_are_counted_once() {
    let messages: Vec<BlockMessage> = (0..30u64).map(block).collect();
    let run = drive(4, messages, &|h| h % 3 == 0);
    assert_eq!(run.results.len(), 30);
    let failed = run.results.iter().filter(|r| !r.is_success()).count();
    assert_eq!(failed, 10);
    assert_eq!(run.sched.stats().snapshot(), 20);
    let mut heights: Vec<u64> = run.results.iter().map(|r| r.height()).collect();
    heights.sort();
    assert_eq!(heights, (0..30u64).collect::<Vec<u64>>());
    assert!(run.max_in_flight <= 4);
}

#[test]
fn any_limit_counts_all_blocks() {
    for limit in [1usize, 2, 5, 64] {
        let messages: Vec<BlockMessage> = (0..20u64).map(block).collect();
        let run = drive(limit, messages, &|_| false);
        assert_eq!(run.sched.stats().snapshot(), 20);
        assert!(run.max_in_flight <= limit);
    }
}

#[test]
fn empty_source_yields_nothing() {
    let run = drive(2, Vec::new(), &|_| false);
    assert!(run.results.is_empty());
    assert_eq!(run.sched.stats().snapshot(), 0);
    assert!(run.sched.is_finished());
    assert_eq!(run.sched.admitted(), 0);
}

#[test]
fn same_block_twice_is_counted_twice() {
    let run = drive(2, vec![block(7), block(7)], &|_| false);
    assert_eq!(run.sched.stats().snapshot(), 2);
    assert_eq!(run.store.len(), 1);
    assert!(run.store.contains_key("blocks/7.json"));
}

#[test]
fn full_slots_wait_for_completion() {
    let mut sched = Scheduler::new(2);
    assert!(matches!(sched.next_action(), Action::Pull));
    let a = sched.launch();
    let b = sched.launch();
    assert_eq!((a, b), (0, 1));
    assert!(!sched.can_launch());
    assert!(matches!(sched.next_action(), Action::AwaitCompletion));
    let r = sched.complete(b, 42, Ok(()));
    assert!(r.is_success());
    assert!(!sched.is_in_flight(b));
    assert!(sched.is_in_flight(a));
    assert!(matches!(sched.next_action(), Action::Pull));
    assert_eq!(sched.limit(), 2);
}

#[test]
fn source_failure_drains_in_flight() {
    let mut sched = Scheduler::new(3);
    let a = sched.launch();
    sched.source_failed();
    assert!(matches!(sched.next_action(), Action::AwaitCompletion));
    assert!(!sched.can_launch());
    sched.complete(a, 1, Ok(()));
    assert!(matches!(sched.next_action(), Action::Finished));
    let summary = sched.summary();
    assert!(summary.source_failed);
    assert_eq!(summary.processed, 1);
    assert_eq!(summary.failed, 0);
}

#[test]
fn object_key_is_prefix_height_json() {
    assert_eq!(object_key("blocks", 123), "blocks/123.json");
    assert_eq!(object_key("blocks", 0), "blocks/0.json");
    assert_eq!(object_key("", 10), "/10.json");
    assert_eq!(object_key("b", u64::MAX), "b/18446744073709551615.json");
    let mut s = String::from("x");
    push_decimal(&mut s, 9070);
    assert_eq!(s, "x9070");
}

#[test]
fn prepare_upload_checks_json() {
    match prepare_upload("blocks", block(5)) {
        Ok(req) => {
            assert_eq!(req.key, "blocks/5.json");
            assert_eq!(req.body, block(5).payload);
        }
        Err(_) => panic!("well-formed payload refused"),
    }
    let bad = BlockMessage { height: 5, payload: b"not json".to_vec() };
    assert!(matches!(prepare_upload("blocks", bad), Err(UploadError::Malformed)));
    let trailing = BlockMessage { height: 6, payload: b"{} {}".to_vec() };
    assert!(matches!(prepare_upload("blocks", trailing), Err(UploadError::Malformed)));
}

#[test]
fn build_request_follows_flag() {
    let r = build_request("p", BlockMessage { height: 3, payload: b"xyz".to_vec() }, true);
    match r {
        Ok(req) => {
            assert_eq!(req.key, "p/3.json");
            assert_eq!(req.body, b"xyz".to_vec());
        }
        Err(_) => panic!("flagged well-formed yet refused"),
    }
    let r = build_request("p", block(3), false);
    assert!(matches!(r, Err(UploadError::Malformed)));
}

#[test]
fn finish_upload_counts_only_success() {
    let mut stats = Stats::new();
    let r = finish_upload(&mut stats, 8, Ok(()));
    assert!(matches!(r, UploadResult::Success { height: 8 }));
    assert_eq!(stats.snapshot(), 1);
    let r = finish_upload(&mut stats, 9, Err(UploadError::Store("denied".to_string())));
    match r {
        UploadResult::Failure { height, error: UploadError::Store(cause) } => {
            assert_eq!(height, 9);
            assert_eq!(cause, "denied");
        }
        _ => panic!("expected a store failure"),
    }
    assert_eq!(stats.snapshot(), 1);
    stats.increment();
    assert_eq!(stats.blocks_processed_count, 2);
}
