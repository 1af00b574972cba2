use crawler::crawler::{apply_worker_outcome, may_claim};
use crawler::request::{Request, RequestOptions};
use crawler::requestlist::RequestList;
use crawler::sink::SinkBuffer;

fn opts(url: &str, key: Option<&str>) -> RequestOptions {
    RequestOptions { url: url.to_string(), unique_key: key.map(|k| k.to_string()) }
}

#[test]
fn request_new_defaults_key_to_url() {
    let r = Request::new(opts("http://a.example", None));
    assert_eq!(r.url, "http://a.example");
    assert_eq!(r.unique_key, "http://a.example");
    assert_eq!(r.retry_count, 0);
}

#[test]
fn request_new_keeps_explicit_key() {
    let r = Request::new(opts("http://a.example", Some("k1")));
    assert_eq!(r.unique_key, "k1");
}

#[test]
fn dedup_keeps_first_occurrence() {
    let sources = vec![
        opts("http://one.example", None),
        opts("http://two.example", Some("shared")),
        opts("http://three.example", Some("shared")),
        opts("http://one.example", None),
    ];
    let list = RequestList::new(sources, false);
    assert_eq!(list.state.requests.len(), 2);
    assert_eq!(list.state.requests[0].url, "http://one.example");
    assert_eq!(list.state.requests[0].unique_key, "http://one.example");
    assert_eq!(list.state.requests[1].url, "http://two.example");
    assert_eq!(list.state.requests[1].unique_key, "shared");
}

#[test]
fn fresh_claims_come_in_order() {
    let list = RequestList::new(vec![opts("http://a.example", None), opts("http://b.example", None)], false);
    let mut list = list;
    let (i0, r0) = list.fetch_next_request().unwrap();
    let (i1, r1) = list.fetch_next_request().unwrap();
    assert_eq!((i0, r0.url.as_str()), (0, "http://a.example"));
    assert_eq!((i1, r1.url.as_str()), (1, "http://b.example"));
    assert_eq!(list.snapshot_counts(), (2, 0));
    assert!(list.fetch_next_request().is_none());
}

#[test]
fn reclaim_bypasses_exhausted_cursor_and_keeps_in_progress() {
    let mut list = RequestList::new(vec![opts("http://a.example", None)], false);
    let (i, _r) = list.fetch_next_request().unwrap();
    assert!(list.fetch_next_request().is_none());
    list.reclaim_request(i);
    assert_eq!(list.snapshot_counts(), (1, 1));
    // a reclaimed request must be claimable even with the cursor spent,
    // and re-claiming does not grow the in-progress count
    let (i2, r2) = list.fetch_next_request().unwrap();
    assert_eq!(i2, i);
    assert_eq!(r2.retry_count, 1);
    assert_eq!(list.snapshot_counts(), (1, 0));
}

#[test]
fn mark_handled_and_failed_clear_state() {
    let mut list = RequestList::new(vec![opts("http://a.example", None), opts("http://b.example", None)], false);
    let (ia, _) = list.fetch_next_request().unwrap();
    let (ib, _) = list.fetch_next_request().unwrap();
    list.mark_request_handled(ia);
    assert_eq!(list.snapshot_counts(), (1, 0));
    list.reclaim_request(ib);
    list.mark_request_failed(ib);
    assert_eq!(list.snapshot_counts(), (0, 0));
}

#[test]
fn sink_flushes_exactly_at_capacity() {
    let mut sink: SinkBuffer<String> = SinkBuffer::new(3);
    assert!(sink.append("a".to_string()).is_none());
    assert!(sink.append("b".to_string()).is_none());
    let batch = sink.append("c".to_string());
    assert_eq!(batch, Some(vec!["a".to_string(), "b".to_string(), "c".to_string()]));
    assert_eq!(sink.buffer.len(), 0);
}

#[test]
fn sink_final_flush_hands_back_remainder() {
    let mut sink: SinkBuffer<u64> = SinkBuffer::new(10);
    sink.append(1);
    sink.append(2);
    let rest = sink.final_flush();
    assert_eq!(rest, vec![1, 2]);
    assert_eq!(sink.buffer.len(), 0);
    let empty = sink.final_flush();
    assert!(empty.is_empty());
}

#[test]
fn sink_restore_puts_failed_batch_first() {
    let mut sink: SinkBuffer<u64> = SinkBuffer::new(2);
    let batch = sink.append(1).map(|_| ()).is_some();
    assert!(!batch);
    let full = sink.append(2).unwrap();
    assert_eq!(full, vec![1, 2]);
    sink.append(3);
    // delivery of [1, 2] failed: the records go back in front
    sink.restore(full);
    assert_eq!(sink.final_flush(), vec![1, 2, 3]);
}

#[test]
fn admission_lets_retries_pass_the_ceiling() {
    assert!(may_claim(1, 0, 2));
    assert!(!may_claim(2, 0, 2));
    // at the ceiling, a pending retry is still admitted
    assert!(may_claim(2, 1, 2));
    assert!(!may_claim(0, 0, 0));
}

#[test]
fn worker_outcome_drives_all_three_paths() {
    let mut list = RequestList::new(
        vec![opts("http://a.example", None), opts("http://b.example", None)],
        false,
    );
    let (ia, _) = list.fetch_next_request().unwrap();
    let (ib, _) = list.fetch_next_request().unwrap();
    apply_worker_outcome(&mut list, ia, true, 1);
    assert_eq!(list.snapshot_counts(), (1, 0));
    // first failure fits the budget of one retry
    apply_worker_outcome(&mut list, ib, false, 1);
    assert_eq!(list.snapshot_counts(), (1, 1));
    assert_eq!(list.state.requests[ib].retry_count, 1);
    let (ib2, _) = list.fetch_next_request().unwrap();
    assert_eq!(ib2, ib);
    // second failure exhausts it
    apply_worker_outcome(&mut list, ib, false, 1);
    assert_eq!(list.snapshot_counts(), (0, 0));
    assert_eq!(list.state.requests[ib].retry_count, 1);
}
