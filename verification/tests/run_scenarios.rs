use crawler::crawler::{Crawler, CrawlerOptions, RequestOutcome};
use crawler::extract_fn::{Record, RecordField};
use crawler::request::RequestOptions;
use crawler::requestlist::RequestList;

fn opts(url: &str) -> RequestOptions {
    RequestOptions { url: url.to_string(), unique_key: None }
}

fn record(tag: &str) -> Record {
    Record { fields: vec![RecordField { name: "url".to_string(), value: Some(tag.to_string()) }] }
}

fn crawler_for(urls: &[&str], max_concurrency: usize, max_request_retries: usize, push_data_size: usize) -> Crawler {
    let list = RequestList::new(urls.iter().map(|u| opts(u)).collect(), false);
    let mut options = CrawlerOptions::default();
    options.set_max_concurrency(max_concurrency);
    options.set_max_request_retries(max_request_retries);
    options.set_push_data_size(push_data_size);
    Crawler::new(list, options)
}

#[test]
fn example_scenario_one_url_always_fails() {
    // 5 URLs, ceiling 2, one retry allowed, one URL that never succeeds:
    // 4 handled, 1 failed after exactly 2 attempts, one final flush of 4
    let mut c = crawler_for(&["u0", "u1", "u2", "u3", "u4"], 2, 1, 500);
    let outcomes = vec![0, 0, 100, 0, 0];
    let records = (0..5).map(|i| Some(record(&format!("u{}", i)))).collect();
    let (flushes, report) = c.run(&outcomes, records);
    assert_eq!(report.len(), 5);
    for i in [0usize, 1, 3, 4] {
        assert_eq!(report[i], RequestOutcome::Handled);
    }
    assert_eq!(report[2], RequestOutcome::Failed);
    // 2 attempts in total: the retry count was bumped exactly once
    assert_eq!(c.request_list.state.requests[2].retry_count, 1);
    assert_eq!(flushes.len(), 1);
    assert_eq!(flushes[0].len(), 4);
    let mut delivered: Vec<String> =
        flushes[0].iter().map(|r| r.fields[0].value.clone().unwrap()).collect();
    delivered.sort();
    assert_eq!(delivered, vec!["u0", "u1", "u3", "u4"]);
}

#[test]
fn retry_budget_counts_attempts_exactly() {
    // fails twice, succeeds on the third attempt; budget allows it
    let mut c = crawler_for(&["a"], 1, 3, 10);
    let (flushes, report) = c.run(&vec![2], vec![Some(record("a"))]);
    assert_eq!(report[0], RequestOutcome::Handled);
    assert_eq!(c.request_list.state.requests[0].retry_count, 2);
    assert_eq!(flushes.len(), 1);
    assert_eq!(flushes[0].len(), 1);
}

#[test]
fn exhausted_budget_marks_failed_after_max_plus_one_attempts() {
    let mut c = crawler_for(&["a"], 1, 3, 10);
    let (flushes, report) = c.run(&vec![4], vec![Some(record("a"))]);
    assert_eq!(report[0], RequestOutcome::Failed);
    assert_eq!(c.request_list.state.requests[0].retry_count, 3);
    assert_eq!(flushes.len(), 1);
    assert!(flushes[0].is_empty());
}

#[test]
fn batches_fill_to_push_data_size_and_remainder_flushes_once() {
    let mut c = crawler_for(&["a", "b", "c", "d", "e"], 2, 0, 2);
    let outcomes = vec![0, 0, 0, 0, 0];
    let records = (0..5).map(|i| Some(record(&format!("r{}", i)))).collect();
    let (flushes, report) = c.run(&outcomes, records);
    assert!(report.iter().all(|o| *o == RequestOutcome::Handled));
    // five records at batch size two: two full batches, then the remainder
    assert_eq!(flushes.len(), 3);
    assert_eq!(flushes[0].len(), 2);
    assert_eq!(flushes[1].len(), 2);
    assert_eq!(flushes[2].len(), 1);
}

#[test]
fn empty_input_still_makes_the_final_flush() {
    let mut c = crawler_for(&[], 4, 3, 500);
    let (flushes, report) = c.run(&vec![], vec![]);
    assert!(report.is_empty());
    assert_eq!(flushes.len(), 1);
    assert!(flushes[0].is_empty());
}

#[test]
fn run_terminates_with_mixed_outcomes_and_tight_ceiling() {
    let mut c = crawler_for(&["a", "b", "c", "d", "e", "f", "g"], 1, 2, 3);
    let outcomes = vec![1, 0, 2, 5, 0, 3, 2];
    let records = (0..7).map(|i| Some(record(&format!("r{}", i)))).collect();
    let (flushes, report) = c.run(&outcomes, records);
    // budget 2 means up to 3 attempts: failure counts above 2 fail for good
    let expect_failed = [false, false, false, true, false, true, false];
    for (i, failed) in expect_failed.iter().enumerate() {
        if *failed {
            assert_eq!(report[i], RequestOutcome::Failed);
            assert_eq!(c.request_list.state.requests[i].retry_count, 2);
        } else {
            assert_eq!(report[i], RequestOutcome::Handled);
            assert_eq!(c.request_list.state.requests[i].retry_count, outcomes[i]);
        }
    }
    let total: usize = flushes.iter().map(|b| b.len()).sum();
    assert_eq!(total, 5);
    for b in &flushes[..flushes.len() - 1] {
        assert_eq!(b.len(), 3);
    }
    assert!(flushes.last().unwrap().len() < 3);
}
