//! The scheduler: the control loop that pulls work from the queue under a
//! concurrency ceiling, lets retries jump ahead of fresh work, feeds
//! produced records through the batched sink, and drives every request to a
//! terminal state.
//!
//! What a worker does out in the world — fetch a page, extract a record —
//! is outside this crate's control; here a worker attempt is summed up by
//! its outcome. `Crawler::run` takes, for every request, the number of
//! attempts that fail before one succeeds, and plays the whole scheduling
//! loop out against those outcomes: one verified pass that claims under the
//! admission rule, completes workers, re-queues retries within their
//! budget, and flushes the sink. The embedding program drives the same
//! queue and sink operations from its asynchronous loop.

use vstd::prelude::*;
use vstd::multiset::Multiset;
use vstd::seq_lib::lemma_multiset_commutative;

use crate::extract_fn::Record;
use crate::input::{is_default_extract, Extract, ProxySettings};
use crate::request::Request;
use crate::requestlist::{RequestList, RequestListState};
use crate::sink::SinkBuffer;

verus! {

broadcast use vstd::multiset::group_multiset_axioms;

/// The knobs of one crawl run, with the crawl's defaults.
pub struct CrawlerOptions {
    pub extract: Vec<Extract>,
    pub proxy_settings: Option<ProxySettings>,
    pub force_cloud: bool,
    pub debug_log: bool,
    pub push_data_size: usize,
    pub max_concurrency: usize,
    pub max_request_retries: usize,
}

impl Default for CrawlerOptions {
    fn default() -> (r: Self)
        ensures
            r.debug_log == false,
            r.force_cloud == false,
            r.push_data_size == 500usize,
            r.max_concurrency == 200usize,
            r.max_request_retries == 3usize,
            r.proxy_settings matches Some(p) && p.useApifyProxy && p.apifyProxyGroups is None,
            r.extract@.len() == 1 && is_default_extract(r.extract@[0]),
    {
        CrawlerOptions {
            debug_log: false,
            force_cloud: false,
            push_data_size: 500,
            max_concurrency: 200,
            max_request_retries: 3,
            proxy_settings: Some(Default::default()),
            extract: vec![Default::default()],
        }
    }
}

impl CrawlerOptions {
    pub fn set_extract(&mut self, extract: Vec<Extract>)
        ensures
            *final(self) == (CrawlerOptions { extract, ..*old(self) }),
    {
        self.extract = extract;
    }

    pub fn set_push_data_size(&mut self, push_data_size: usize)
        ensures
            *final(self) == (CrawlerOptions { push_data_size, ..*old(self) }),
    {
        self.push_data_size = push_data_size;
    }

    pub fn set_max_concurrency(&mut self, max_concurrency: usize)
        ensures
            *final(self) == (CrawlerOptions { max_concurrency, ..*old(self) }),
    {
        self.max_concurrency = max_concurrency;
    }

    pub fn set_max_request_retries(&mut self, max_request_retries: usize)
        ensures
            *final(self) == (CrawlerOptions { max_request_retries, ..*old(self) }),
    {
        self.max_request_retries = max_request_retries;
    }

    pub fn set_proxy_settings(&mut self, proxy_settings: ProxySettings)
        ensures
            *final(self) == (CrawlerOptions {
                proxy_settings: Some(proxy_settings),
                ..*old(self)
            }),
    {
        self.proxy_settings = Some(proxy_settings);
    }

    pub fn set_debug_log(&mut self, debug_log: bool)
        ensures
            *final(self) == (CrawlerOptions { debug_log, ..*old(self) }),
    {
        self.debug_log = debug_log;
    }
}

/// Where one request ended up. `Pending` only occurs while a run is in
/// flight; when `run` returns, every request is `Handled` or `Failed`.
#[derive(PartialEq, Eq, Structural, Clone, Copy, Debug)]
pub enum RequestOutcome {
    Pending,
    Handled,
    Failed,
}

/// The batch size every non-final flush carries: the configured
/// `push_data_size`, except that a zero threshold makes every single append
/// flush at once.
pub open spec fn flush_unit(push_data_size: usize) -> int {
    if push_data_size == 0 {
        1
    } else {
        push_data_size as int
    }
}

/// All flushed batches, oldest first, laid out flat.
pub open spec fn batches_flat(flushes: Seq<Vec<Record>>) -> Seq<Record>
    decreases flushes.len(),
{
    if flushes.len() == 0 {
        Seq::empty()
    } else {
        batches_flat(flushes.drop_last()) + flushes.last()@
    }
}

/// One more batch lays its records at the end.
proof fn lemma_batches_flat_push(flushes: Seq<Vec<Record>>, batch: Vec<Record>)
    ensures
        batches_flat(flushes.push(batch)) == batches_flat(flushes) + batch@,
{
    assert(flushes.push(batch).drop_last() =~= flushes);
    assert(flushes.push(batch).last() == batch);
}

/// The records of the requests a report marks handled, as a multiset: the
/// order in which concurrent workers deliver is not pinned down.
pub open spec fn handled_ms(
    recs0: Seq<Option<Record>>,
    report: Seq<RequestOutcome>,
    n: int,
) -> Multiset<Record>
    decreases n,
{
    if n <= 0 {
        Multiset::empty()
    } else {
        let rest = handled_ms(recs0, report, n - 1);
        if report[n - 1] == RequestOutcome::Handled {
            rest.insert(recs0[n - 1].unwrap())
        } else {
            rest
        }
    }
}

/// A report without handled entries contributes nothing.
proof fn lemma_handled_ms_none(recs0: Seq<Option<Record>>, report: Seq<RequestOutcome>, n: int)
    requires
        forall|i: int| 0 <= i < n ==> report[i] != RequestOutcome::Handled,
    ensures
        handled_ms(recs0, report, n) == Multiset::<Record>::empty(),
    decreases n,
{
    if n > 0 {
        lemma_handled_ms_none(recs0, report, n - 1);
    }
}

/// Marking one pending entry adds exactly its record (when it is marked
/// handled) or nothing (when it is marked failed).
proof fn lemma_handled_ms_update(
    recs0: Seq<Option<Record>>,
    report: Seq<RequestOutcome>,
    k: int,
    v: RequestOutcome,
    n: int,
)
    requires
        0 <= k < report.len(),
        report[k] != RequestOutcome::Handled,
        n <= report.len(),
    ensures
        handled_ms(recs0, report.update(k, v), n) == if k < n && v == RequestOutcome::Handled {
            handled_ms(recs0, report, n).insert(recs0[k].unwrap())
        } else {
            handled_ms(recs0, report, n)
        },
    decreases n,
{
    let report2 = report.update(k, v);
    if n <= 0 {
    } else {
        lemma_handled_ms_update(recs0, report, k, v, n - 1);
        if k == n - 1 {
        } else {
            assert(report2[n - 1] == report[n - 1]);
            if k < n && v == RequestOutcome::Handled && report[n - 1] == RequestOutcome::Handled {
                let rest = handled_ms(recs0, report, n - 1);
                let a = recs0[k].unwrap();
                let b = recs0[n - 1].unwrap();
                assert(rest.insert(a).insert(b) =~= rest.insert(b).insert(a));
            }
        }
    }
}

/// What pushing one element does to membership.
proof fn lemma_push_contains(s: Seq<usize>, v: usize, x: usize)
    ensures
        s.push(v).contains(x) <==> (s.contains(x) || x == v),
{
    assert(s.push(v)[s.len() as int] == v);
    if s.contains(x) {
        let k = choose|k: int| 0 <= k < s.len() && s[k] == x;
        assert(s.push(v)[k] == x);
    }
    if s.push(v).contains(x) {
        let k = choose|k: int| 0 <= k < s.push(v).len() && s.push(v)[k] == x;
        if k < s.len() {
            assert(s[k] == x);
        }
    }
}

/// The per-request share of the termination measure. A request that was
/// never started can still be claimed once and retried `retries` times,
/// each claim and each completion paying one step; the share shrinks with
/// every transition and reaches zero in a terminal state.
pub open spec fn phi(s: RequestListState, retries: int, i: int) -> int {
    let rc = s.requests@[i].retry_count as int;
    if s.reclaimed@.contains(i as usize) {
        2 * (retries - rc) + 2
    } else if s.in_progress@.contains(i as usize) {
        2 * (retries - rc) + 1
    } else if i < s.next_index {
        0
    } else {
        2 * retries + 2
    }
}

/// The termination measure: the sum of every request's share.
pub open spec fn phi_sum(s: RequestListState, retries: int, n: int) -> int
    decreases n,
{
    if n <= 0 {
        0
    } else {
        phi_sum(s, retries, n - 1) + phi(s, retries, n - 1)
    }
}

/// When two states agree on every share but one, the sums differ by
/// exactly that share's change.
proof fn lemma_phi_sum_frame(
    s1: RequestListState,
    s2: RequestListState,
    retries: int,
    k: int,
    n: int,
)
    requires
        forall|i: int| 0 <= i < n && i != k ==> phi(s1, retries, i) == phi(s2, retries, i),
    ensures
        phi_sum(s2, retries, n) == phi_sum(s1, retries, n) + if 0 <= k < n {
            phi(s2, retries, k) - phi(s1, retries, k)
        } else {
            0
        },
    decreases n,
{
    if n > 0 {
        lemma_phi_sum_frame(s1, s2, retries, k, n - 1);
    }
}

/// A sum of non-negative shares is non-negative.
proof fn lemma_phi_sum_nonneg(s: RequestListState, retries: int, n: int)
    requires
        forall|i: int| 0 <= i < n ==> phi(s, retries, i) >= 0,
    ensures
        phi_sum(s, retries, n) >= 0,
    decreases n,
{
    if n > 0 {
        lemma_phi_sum_nonneg(s, retries, n - 1);
    }
}

/// The lifecycle facts that hold of request `i` throughout a run, keyed by
/// what the report says of it. A pending request still holds its record
/// and has spent at most `outcomes[i]` failing attempts and at most the
/// retry budget; a handled one succeeded on attempt `outcomes[i]` exactly;
/// a failed one spent the whole budget on a request that needed more.
pub open spec fn per_index_inv(
    s: RequestListState,
    retries: int,
    report: Seq<RequestOutcome>,
    records: Seq<Option<Record>>,
    recs0: Seq<Option<Record>>,
    outcomes: Seq<usize>,
    i: int,
) -> bool {
    let rc = s.requests@[i].retry_count as int;
    match report[i] {
        RequestOutcome::Pending => {
            &&& records[i] == recs0[i]
            &&& rc <= outcomes[i]
            &&& rc <= retries
            &&& (i < s.next_index ==> s.in_progress@.contains(i as usize))
        },
        RequestOutcome::Handled => {
            &&& records[i] is None
            &&& !s.in_progress@.contains(i as usize)
            &&& i < s.next_index
            &&& outcomes[i] <= retries
            &&& rc == outcomes[i]
        },
        RequestOutcome::Failed => {
            &&& records[i] == recs0[i]
            &&& !s.in_progress@.contains(i as usize)
            &&& i < s.next_index
            &&& outcomes[i] > retries
            &&& rc == retries
        },
    }
}

/// Everything the scheduling loop keeps true from one step to the next:
/// the queue's own invariant; the spawned workers (`running`) and the
/// retry pool partitioning exactly the in-progress set; the concurrency
/// ceiling (never more requests in progress than `max_concurrency`); each
/// request's lifecycle facts; and the sink bookkeeping — every full batch
/// flushed so far holds exactly `flush_unit` records, and batches plus
/// buffer hold exactly the records of the handled requests.
pub open spec fn run_inv(
    c: Crawler,
    running: Seq<usize>,
    report: Seq<RequestOutcome>,
    records: Seq<Option<Record>>,
    flushes: Seq<Vec<Record>>,
    reqs0: Seq<Request>,
    recs0: Seq<Option<Record>>,
    outcomes: Seq<usize>,
) -> bool {
    let s = c.request_list.state;
    let n = reqs0.len() as int;
    let retries = c.max_request_retries as int;
    &&& s.wf()
    &&& s.requests@.len() == n
    &&& recs0.len() == n
    &&& outcomes.len() == n
    &&& report.len() == n
    &&& records.len() == n
    &&& forall|i: int|
        0 <= i < n ==> ((#[trigger] s.requests@[i]).url == reqs0[i].url && s.requests@[i].unique_key
            == reqs0[i].unique_key)
    &&& forall|i: int| 0 <= i < n ==> (#[trigger] recs0[i]) is Some
    &&& running.no_duplicates()
    &&& forall|x: usize| #[trigger]
        running.contains(x) ==> (s.in_progress@.contains(x) && !s.reclaimed@.contains(x))
    &&& forall|x: usize| #[trigger]
        s.in_progress@.contains(x) ==> (running.contains(x) || s.reclaimed@.contains(x))
    &&& s.in_progress@.len() == running.len() + s.reclaimed@.len()
    &&& s.in_progress@.len() <= c.max_concurrency
    &&& forall|i: int|
        0 <= i < n ==> #[trigger] per_index_inv(s, retries, report, records, recs0, outcomes, i)
    &&& c.sink.buffer@.len() < flush_unit(c.sink.push_data_size)
    &&& forall|j: int|
        0 <= j < flushes.len() ==> (#[trigger] flushes[j])@.len() == flush_unit(
            c.sink.push_data_size,
        )
    &&& batches_flat(flushes).to_multiset().add(c.sink.buffer@.to_multiset()) == handled_ms(
        recs0,
        report,
        n,
    )
}

/// The concurrency bound: at every point of a run — the loop keeps
/// `run_inv` true from each step to the next — the number of in-progress
/// requests stays within `max_concurrency`. Reclaimed requests never
/// threaten the bound: they are part of the in-progress set already, so
/// letting them bypass the admission check cannot grow it.
pub proof fn lemma_concurrency_ceiling(
    c: Crawler,
    running: Seq<usize>,
    report: Seq<RequestOutcome>,
    records: Seq<Option<Record>>,
    flushes: Seq<Vec<Record>>,
    reqs0: Seq<Request>,
    recs0: Seq<Option<Record>>,
    outcomes: Seq<usize>,
)
    requires
        run_inv(c, running, report, records, flushes, reqs0, recs0, outcomes),
    ensures
        c.request_list.state.in_progress_count() <= c.max_concurrency,
        c.request_list.state.reclaimed_count() <= c.request_list.state.in_progress_count(),
{
}

/// The scheduler's admission rule: claiming is allowed unless the
/// concurrency ceiling is reached with nothing reclaimed. A reclaimed
/// request may pass the ceiling: it is already counted as in progress, so
/// re-claiming it never raises the number of requests in flight.
pub fn may_claim(in_progress_count: usize, reclaimed_count: usize, max_concurrency: usize) -> (r:
    bool)
    ensures
        r == (reclaimed_count > 0 || in_progress_count < max_concurrency),
{
    !(reclaimed_count == 0 && in_progress_count >= max_concurrency)
}

/// Applies a finished worker's outcome to the queue, exactly once per
/// attempt: success marks the request handled; failure re-queues it while
/// the pre-increment retry count is within the budget, and otherwise marks
/// it failed for good. The claim the worker held keeps its index out of
/// `reclaimed` until this call.
pub fn apply_worker_outcome(
    list: &mut RequestList,
    index: usize,
    success: bool,
    max_request_retries: usize,
)
    requires
        old(list).state.wf(),
        old(list).state.in_progress@.contains(index),
        !old(list).state.reclaimed@.contains(index),
    ensures
        final(list).state.wf(),
        final(list).state.next_index == old(list).state.next_index,
        ({
            let pre = old(list).state;
            let post = final(list).state;
            let rc = pre.requests@[index as int].retry_count;
            if success {
                &&& post.requests@ == pre.requests@
                &&& post.reclaimed@ == pre.reclaimed@
                &&& !post.in_progress@.contains(index)
                &&& forall|x: usize|
                    post.in_progress@.contains(x) <==> (pre.in_progress@.contains(x) && x != index)
                &&& post.in_progress@.len() == pre.in_progress@.len() - 1
            } else if rc < max_request_retries {
                &&& post.requests@ == pre.requests@.update(
                    index as int,
                    Request { retry_count: (rc + 1) as usize, ..pre.requests@[index as int] },
                )
                &&& post.in_progress@ == pre.in_progress@
                &&& post.reclaimed@ == pre.reclaimed@.push(index)
            } else {
                &&& post.requests@ == pre.requests@
                &&& !post.in_progress@.contains(index)
                &&& forall|x: usize|
                    post.in_progress@.contains(x) <==> (pre.in_progress@.contains(x) && x != index)
                &&& post.in_progress@.len() == pre.in_progress@.len() - 1
                &&& forall|x: usize|
                    post.reclaimed@.contains(x) <==> (pre.reclaimed@.contains(x) && x != index)
                &&& post.reclaimed@.len() == pre.reclaimed@.len()
            }
        }),
{
    proof {
        let j = choose|j: int|
            0 <= j < old(list).state.in_progress@.len() && old(list).state.in_progress@[j] == index;
        assert(index < old(list).state.next_index);
    }
    if success {
        list.mark_request_handled(index);
    } else if list.state.requests[index].retry_count < max_request_retries {
        list.reclaim_request(index);
    } else {
        list.mark_request_failed(index);
    }
}

/// The crawler: the work queue, the batched sink, and the run's knobs.
pub struct Crawler {
    pub request_list: RequestList,
    pub sink: SinkBuffer<Record>,
    pub extract: Vec<Extract>,
    pub force_cloud: bool,
    pub debug_log: bool,
    pub max_concurrency: usize,
    pub max_request_retries: usize,
}

/// Takes the record out of its slot, leaving the slot empty.
fn take_slot(records: &mut Vec<Option<Record>>, i: usize) -> (r: Option<Record>)
    requires
        i < old(records)@.len(),
    ensures
        r == old(records)@[i as int],
        final(records)@ == old(records)@.update(i as int, None),
{
    let slot = &mut records[i];
    slot.take()
}

impl Crawler {
    /// Puts a crawler together from its queue and options: an empty sink
    /// with the configured batch size, and every knob taken over.
    pub fn new(request_list: RequestList, options: CrawlerOptions) -> (r: Crawler)
        ensures
            r.request_list == request_list,
            r.sink.buffer@.len() == 0,
            r.sink.push_data_size == options.push_data_size,
            r.extract == options.extract,
            r.force_cloud == options.force_cloud,
            r.debug_log == options.debug_log,
            r.max_concurrency == options.max_concurrency,
            r.max_request_retries == options.max_request_retries,
    {
        Crawler {
            request_list,
            sink: SinkBuffer::new(options.push_data_size),
            extract: options.extract,
            force_cloud: options.force_cloud,
            debug_log: options.debug_log,
            max_concurrency: options.max_concurrency,
            max_request_retries: options.max_request_retries,
        }
    }

    /// Completes the oldest spawned worker: looks its outcome up, and
    /// applies exactly one of the three completion paths — handled,
    /// reclaimed within the retry budget, or failed for good. Every step
    /// keeps the loop invariant and strictly shrinks the termination
    /// measure.
    fn complete_first(
        &mut self,
        running: &mut Vec<usize>,
        report: &mut Vec<RequestOutcome>,
        records: &mut Vec<Option<Record>>,
        flushes: &mut Vec<Vec<Record>>,
        outcomes: &Vec<usize>,
        Ghost(reqs0): Ghost<Seq<Request>>,
        Ghost(recs0): Ghost<Seq<Option<Record>>>,
    )
        requires
            run_inv(
                *old(self),
                old(running)@,
                old(report)@,
                old(records)@,
                old(flushes)@,
                reqs0,
                recs0,
                outcomes@,
            ),
            old(running)@.len() > 0,
        ensures
            run_inv(
                *final(self),
                final(running)@,
                final(report)@,
                final(records)@,
                final(flushes)@,
                reqs0,
                recs0,
                outcomes@,
            ),
            final(running)@.len() == old(running)@.len() - 1,
            final(self).request_list.state.next_index == old(self).request_list.state.next_index,
            final(self).max_concurrency == old(self).max_concurrency,
            final(self).max_request_retries == old(self).max_request_retries,
            final(self).sink.push_data_size == old(self).sink.push_data_size,
            phi_sum(
                final(self).request_list.state,
                final(self).max_request_retries as int,
                reqs0.len() as int,
            ) < phi_sum(
                old(self).request_list.state,
                old(self).max_request_retries as int,
                reqs0.len() as int,
            ),
            phi_sum(
                final(self).request_list.state,
                final(self).max_request_retries as int,
                reqs0.len() as int,
            ) >= 0,
    {
        let ghost n = reqs0.len() as int;
        let ghost retries = self.max_request_retries as int;
        let ghost s1 = self.request_list.state;
        let i = running.remove(0);
        proof {
            // `n` is the length of a vector, so every index below it fits a usize
            assert(s1.requests.len() as int == n);
            assert(old(running)@.contains(i));
            crate::requestlist::lemma_remove_at(old(running)@, 0);
            assert(s1.in_progress@.contains(i));
            let j = choose|j: int| 0 <= j < s1.in_progress@.len() && s1.in_progress@[j] == i;
            assert(i < s1.next_index);
            // the worker's request is still pending: a terminal request is
            // no longer in progress
            assert(per_index_inv(s1, retries, report@, records@, recs0, outcomes@, i as int));
            assert(report@[i as int] == RequestOutcome::Pending);
        }
        let rc = self.request_list.state.requests[i].retry_count;
        if rc >= outcomes[i] {
            // success: the attempt number reached the request's failure count
            let rec_opt = take_slot(records, i);
            let rec = rec_opt.unwrap();
            proof {
                assert(rec == recs0[i as int].unwrap());
            }
            self.request_list.mark_request_handled(i);
            report[i] = RequestOutcome::Handled;
            let maybe_batch = self.sink.append(rec);
            let ghost s2 = self.request_list.state;
            proof {
                assert(rc == outcomes@[i as int]);
                // the share of request i drops from 2 * (retries - rc) + 1 to 0
                assert forall|j: int| 0 <= j < n && j != i as int implies phi(s1, retries, j)
                    == phi(s2, retries, j) by {
                    let ju = j as usize;
                    assert(ju as int == j);
                    assert(ju != i);
                    assert(s2.in_progress@.contains(ju) == s1.in_progress@.contains(ju));
                }
                lemma_phi_sum_frame(s1, s2, retries, i as int, n);
                // lifecycle facts for every index
                assert forall|j: int| 0 <= j < n implies #[trigger] per_index_inv(
                    s2,
                    retries,
                    report@,
                    records@,
                    recs0,
                    outcomes@,
                    j,
                ) by {
                    assert(per_index_inv(s1, retries, old(report)@, old(records)@, recs0, outcomes@, j));
                    if j != i as int {
                        let ju = j as usize;
                        assert(ju as int == j);
                        assert(ju != i);
                        assert(s2.in_progress@.contains(ju) == s1.in_progress@.contains(ju));
                        assert(report@[j] == old(report)@[j]);
                        assert(records@[j] == old(records)@[j]);
                    }
                }
                // the partition: i left the workers and the in-progress set
                assert forall|x: usize| #[trigger] running@.contains(x) implies (
                s2.in_progress@.contains(x) && !s2.reclaimed@.contains(x)) by {
                    assert(old(running)@.contains(x) && x != i);
                    assert(s1.in_progress@.contains(x));
                }
                assert forall|x: usize| #[trigger] s2.in_progress@.contains(x) implies (
                running@.contains(x) || s2.reclaimed@.contains(x)) by {
                    assert(s1.in_progress@.contains(x) && x != i);
                }
                // sink bookkeeping
                old(self).sink.buffer@.to_multiset_ensures();
                lemma_handled_ms_update(
                    recs0,
                    old(report)@,
                    i as int,
                    RequestOutcome::Handled,
                    n,
                );
                match &maybe_batch {
                    Some(batch) => {
                        lemma_batches_flat_push(old(flushes)@, *batch);
                        lemma_multiset_commutative(batches_flat(old(flushes)@), batch@);
                        assert(batch@ == old(self).sink.buffer@.push(rec));
                        assert(old(self).sink.buffer@.push(rec).to_multiset() =~= old(
                            self,
                        ).sink.buffer@.to_multiset().insert(rec));
                        let e = Seq::<Record>::empty();
                        e.to_multiset_ensures();
                        vstd::multiset::lemma_multiset_empty_len(e.to_multiset());
                        assert(self.sink.buffer@ == e);
                        assert(batches_flat(old(flushes)@.push(*batch)).to_multiset().add(
                            self.sink.buffer@.to_multiset(),
                        ) =~= handled_ms(recs0, report@, n));
                    },
                    None => {
                        assert(self.sink.buffer@ == old(self).sink.buffer@.push(rec));
                        assert(old(self).sink.buffer@.push(rec).to_multiset() =~= old(
                            self,
                        ).sink.buffer@.to_multiset().insert(rec));
                        assert(batches_flat(flushes@).to_multiset().add(
                            self.sink.buffer@.to_multiset(),
                        ) =~= handled_ms(recs0, report@, n));
                    },
                }
            }
            match maybe_batch {
                Some(batch) => flushes.push(batch),
                None => (),
            }
            proof {
                if maybe_batch is Some {
                    assert forall|j: int| 0 <= j < flushes@.len() implies (
                    #[trigger] flushes@[j])@.len() == flush_unit(self.sink.push_data_size) by {
                        if j < flushes@.len() - 1 {
                            assert(flushes@[j] == old(flushes)@[j]);
                        }
                    }
                }
            }
        } else if rc < self.max_request_retries {
            // failure within the retry budget: re-queue for another attempt
            self.request_list.reclaim_request(i);
            let ghost s2 = self.request_list.state;
            proof {
                // the share of request i drops by one: the retry count rose
                // and the request moved from running to reclaimed
                assert(s2.reclaimed@ == s1.reclaimed@.push(i));
                lemma_push_contains(s1.reclaimed@, i, i);
                assert(s2.reclaimed@.contains(i));
                assert forall|j: int| 0 <= j < n && j != i as int implies phi(s1, retries, j)
                    == phi(s2, retries, j) by {
                    let ju = j as usize;
                    assert(ju as int == j);
                    assert(ju != i);
                    lemma_push_contains(s1.reclaimed@, i, ju);
                    assert(s2.requests@[j] == s1.requests@[j]);
                }
                lemma_phi_sum_frame(s1, s2, retries, i as int, n);
                assert forall|j: int| 0 <= j < n implies #[trigger] per_index_inv(
                    s2,
                    retries,
                    report@,
                    records@,
                    recs0,
                    outcomes@,
                    j,
                ) by {
                    assert(per_index_inv(s1, retries, old(report)@, old(records)@, recs0, outcomes@, j));
                    if j != i as int {
                        assert(s2.requests@[j] == s1.requests@[j]);
                    }
                }
                // the partition: i moved from the workers to the retry pool
                assert forall|x: usize| #[trigger] running@.contains(x) implies (
                s2.in_progress@.contains(x) && !s2.reclaimed@.contains(x)) by {
                    assert(old(running)@.contains(x) && x != i);
                    assert(s1.in_progress@.contains(x));
                    lemma_push_contains(s1.reclaimed@, i, x);
                }
                assert forall|x: usize| #[trigger] s2.in_progress@.contains(x) implies (
                running@.contains(x) || s2.reclaimed@.contains(x)) by {
                    lemma_push_contains(s1.reclaimed@, i, x);
                    if x != i {
                        assert(s1.in_progress@.contains(x));
                        if old(running)@.contains(x) {
                            assert(running@.contains(x));
                        } else {
                            assert(s1.reclaimed@.contains(x));
                        }
                    }
                }
            }
        } else {
            // the retry budget is spent: terminal failure
            self.request_list.mark_request_failed(i);
            report[i] = RequestOutcome::Failed;
            let ghost s2 = self.request_list.state;
            proof {
                assert(rc == retries);
                assert(outcomes@[i as int] > retries);
                assert forall|j: int| 0 <= j < n && j != i as int implies phi(s1, retries, j)
                    == phi(s2, retries, j) by {
                    let ju = j as usize;
                    assert(ju as int == j);
                    assert(ju != i);
                    assert(s2.in_progress@.contains(ju) == s1.in_progress@.contains(ju));
                    assert(s2.reclaimed@.contains(ju) == s1.reclaimed@.contains(ju));
                }
                lemma_phi_sum_frame(s1, s2, retries, i as int, n);
                assert forall|j: int| 0 <= j < n implies #[trigger] per_index_inv(
                    s2,
                    retries,
                    report@,
                    records@,
                    recs0,
                    outcomes@,
                    j,
                ) by {
                    assert(per_index_inv(s1, retries, old(report)@, records@, recs0, outcomes@, j));
                    if j != i as int {
                        let ju = j as usize;
                        assert(ju as int == j);
                        assert(ju != i);
                        assert(s2.in_progress@.contains(ju) == s1.in_progress@.contains(ju));
                        assert(s2.reclaimed@.contains(ju) == s1.reclaimed@.contains(ju));
                        assert(report@[j] == old(report)@[j]);
                    }
                }
                lemma_handled_ms_update(recs0, old(report)@, i as int, RequestOutcome::Failed, n);
                // the partition: i left the workers and both queue sets
                assert forall|x: usize| #[trigger] running@.contains(x) implies (
                s2.in_progress@.contains(x) && !s2.reclaimed@.contains(x)) by {
                    assert(old(running)@.contains(x) && x != i);
                    assert(s1.in_progress@.contains(x));
                }
                assert forall|x: usize| #[trigger] s2.in_progress@.contains(x) implies (
                running@.contains(x) || s2.reclaimed@.contains(x)) by {
                    assert(s1.in_progress@.contains(x) && x != i);
                    if !old(running)@.contains(x) {
                        assert(s1.reclaimed@.contains(x));
                    }
                }
            }
        }
        proof {
            // every share is still non-negative, so the measure stays one
            // of a well-founded descent
            let s2 = self.request_list.state;
            assert forall|j: int| 0 <= j < n implies phi(s2, retries, j) >= 0 by {
                assert(per_index_inv(s2, retries, report@, records@, recs0, outcomes@, j));
                if s2.reclaimed@.contains(j as usize) || s2.in_progress@.contains(j as usize) {
                    assert(s2.in_progress@.contains(j as usize));
                    assert(!(report@[j] is Handled) && !(report@[j] is Failed));
                }
            }
            lemma_phi_sum_nonneg(s2, retries, n);
        }
    }

    /// Plays one whole crawl out against the given worker outcomes.
    ///
    /// `outcomes[i]` is the number of attempts of request `i` that fail
    /// before one would succeed; `records[i]` is the record a successful
    /// attempt of request `i` delivers. The run claims work under the
    /// admission rule — no fresh claim while `max_concurrency` requests
    /// are in progress, retries admitted past the ceiling since they are
    /// already counted — and ends only when no work is claimable and
    /// nothing is in progress.
    ///
    /// The result is the list of flushed batches, final remainder flush
    /// included, and the per-request report: a request fails for good
    /// exactly when its failure count exceeds the retry budget, after
    /// `max_request_retries + 1` attempts; every other request is handled,
    /// with its record delivered in exactly one batch.
    pub fn run(&mut self, outcomes: &Vec<usize>, records: Vec<Option<Record>>) -> (out: (
        Vec<Vec<Record>>,
        Vec<RequestOutcome>,
    ))
        requires
            old(self).request_list.state.wf(),
            old(self).request_list.state.next_index == 0,
            old(self).request_list.state.in_progress_count() == 0,
            old(self).request_list.state.reclaimed_count() == 0,
            old(self).sink.buffer@.len() == 0,
            old(self).max_concurrency >= 1,
            outcomes@.len() == old(self).request_list.state.requests@.len(),
            records@.len() == old(self).request_list.state.requests@.len(),
            forall|i: int| 0 <= i < records@.len() ==> (#[trigger] records@[i]) is Some,
        ensures
            ({
                let n = old(self).request_list.state.requests@.len() as int;
                let retries = old(self).max_request_retries as int;
                let reqs_pre = old(self).request_list.state.requests@;
                let post = final(self).request_list.state;
                let flushes = out.0;
                let report = out.1;
                &&& report@.len() == n
                &&& forall|i: int|
                    0 <= i < n ==> if outcomes@[i] <= retries {
                        (#[trigger] report@[i]) == RequestOutcome::Handled
                            && post.requests@[i].retry_count == outcomes@[i]
                    } else {
                        report@[i] == RequestOutcome::Failed && post.requests@[i].retry_count
                            == retries
                    }
                &&& forall|i: int|
                    0 <= i < n ==> ((#[trigger] post.requests@[i]).url == reqs_pre[i].url
                        && post.requests@[i].unique_key == reqs_pre[i].unique_key)
                &&& post.in_progress_count() == 0
                &&& post.reclaimed_count() == 0
                &&& post.next_index == n
                &&& final(self).sink.buffer@.len() == 0
                &&& flushes@.len() >= 1
                &&& forall|j: int|
                    0 <= j < flushes@.len() - 1 ==> (#[trigger] flushes@[j])@.len() == flush_unit(
                        old(self).sink.push_data_size,
                    )
                &&& flushes@.last()@.len() < flush_unit(old(self).sink.push_data_size)
                &&& batches_flat(flushes@).to_multiset() == handled_ms(records@, report@, n)
            }),
    {
        let ghost reqs0 = self.request_list.state.requests@;
        let ghost recs0 = records@;
        let ghost retries0 = self.max_request_retries;
        let ghost psize0 = self.sink.push_data_size;
        let ghost mc0 = self.max_concurrency;
        let n = self.request_list.state.requests.len();
        let mut records = records;
        let mut running: Vec<usize> = Vec::new();
        let mut flushes: Vec<Vec<Record>> = Vec::new();
        let mut report: Vec<RequestOutcome> = Vec::new();
        let mut j: usize = 0;
        while j < n
            invariant
                j <= n,
                report@.len() == j,
                forall|k: int| 0 <= k < j ==> report@[k] == RequestOutcome::Pending,
            decreases n - j,
        {
            report.push(RequestOutcome::Pending);
            j += 1;
        }
        proof {
            lemma_handled_ms_none(recs0, report@, n as int);
            let e = Seq::<Record>::empty();
            e.to_multiset_ensures();
            vstd::multiset::lemma_multiset_empty_len(e.to_multiset());
            assert(e.to_multiset() =~= Multiset::<Record>::empty());
            assert(self.sink.buffer@ =~= e);
            assert(batches_flat(flushes@) == e);
            assert(batches_flat(flushes@).to_multiset().add(self.sink.buffer@.to_multiset())
                =~= handled_ms(recs0, report@, n as int));
            assert(run_inv(*self, running@, report@, records@, flushes@, reqs0, recs0, outcomes@));
        }
        loop
            invariant
                run_inv(*self, running@, report@, records@, flushes@, reqs0, recs0, outcomes@),
                self.max_concurrency == mc0,
                self.max_concurrency >= 1,
                self.max_request_retries == retries0,
                self.sink.push_data_size == psize0,
                reqs0.len() == n,
            ensures
                run_inv(*self, running@, report@, records@, flushes@, reqs0, recs0, outcomes@),
                self.max_concurrency == mc0,
                self.max_request_retries == retries0,
                self.sink.push_data_size == psize0,
                self.request_list.state.in_progress@.len() == 0,
                self.request_list.state.reclaimed@.len() == 0,
                self.request_list.state.next_index == n,
            decreases phi_sum(self.request_list.state, retries0 as int, n as int),
        {
            proof {
                assert forall|i: int| 0 <= i < n implies phi(
                    self.request_list.state,
                    retries0 as int,
                    i,
                ) >= 0 by {
                    let s = self.request_list.state;
                    assert(per_index_inv(
                        s,
                        retries0 as int,
                        report@,
                        records@,
                        recs0,
                        outcomes@,
                        i,
                    ));
                    if s.reclaimed@.contains(i as usize) || s.in_progress@.contains(i as usize) {
                        assert(s.in_progress@.contains(i as usize));
                        assert(!(report@[i] is Handled) && !(report@[i] is Failed));
                    }
                }
                lemma_phi_sum_nonneg(self.request_list.state, retries0 as int, n as int);
            }
            let (in_progress_count, reclaimed_count) = self.request_list.snapshot_counts();
            if !may_claim(in_progress_count, reclaimed_count, self.max_concurrency) {
                // the ceiling is reached and nothing is reclaimed: no new
                // work may be admitted until a worker finishes
                proof {
                    assert(running@.len() > 0);
                }
                self.complete_first(
                    &mut running,
                    &mut report,
                    &mut records,
                    &mut flushes,
                    outcomes,
                    Ghost(reqs0),
                    Ghost(recs0),
                );
                continue ;
            }
            let ghost s1 = self.request_list.state;
            let claimed = self.request_list.fetch_next_request();
            match claimed {
                None => {
                    let (still_in_progress, _) = self.request_list.snapshot_counts();
                    if still_in_progress > 0 {
                        // workers are still out: one of them finishes next
                        proof {
                            assert(running@.len() > 0);
                        }
                        self.complete_first(
                            &mut running,
                            &mut report,
                            &mut records,
                            &mut flushes,
                            outcomes,
                            Ghost(reqs0),
                            Ghost(recs0),
                        );
                        continue ;
                    } else {
                        // nothing claimable, nothing in progress: finished
                        break ;
                    }
                },
                Some((index, _request)) => {
                    let ghost running1 = running@;
                    proof {
                        if s1.reclaimed@.len() > 0 {
                            assert(s1.reclaimed@.contains(s1.reclaimed@[0]));
                            assert(!running@.contains(index));
                        } else {
                            if running@.contains(index) {
                                assert(s1.in_progress@.contains(index));
                                let j2 = choose|j2: int|
                                    0 <= j2 < s1.in_progress@.len() && s1.in_progress@[j2] == index;
                                assert(false);
                            }
                        }
                    }
                    running.push(index);
                    let ghost s2 = self.request_list.state;
                    proof {
                        let retries = retries0 as int;
                        let fresh = s1.reclaimed@.len() == 0;
                        if fresh {
                            assert(s2.in_progress@ == s1.in_progress@.push(index));
                            assert(index == s1.next_index);
                            if s1.in_progress@.contains(index) {
                                let k = choose|k: int|
                                    0 <= k < s1.in_progress@.len() && s1.in_progress@[k] == index;
                                assert(false);
                            }
                        } else {
                            assert(s1.reclaimed@.contains(s1.reclaimed@[0]));
                            assert(index == s1.reclaimed@[0]);
                            assert(s1.in_progress@.contains(index));
                        }
                        assert forall|j2: int| 0 <= j2 < n && j2 != index as int implies phi(
                            s1,
                            retries,
                            j2,
                        ) == phi(s2, retries, j2) by {
                            let ju = j2 as usize;
                            assert(ju as int == j2);
                            assert(ju != index);
                            if fresh {
                                lemma_push_contains(s1.in_progress@, index, ju);
                            }
                            assert(s2.in_progress@.contains(ju) == s1.in_progress@.contains(ju));
                            assert(s2.reclaimed@.contains(ju) == s1.reclaimed@.contains(ju));
                        }
                        lemma_phi_sum_frame(s1, s2, retries, index as int, n as int);
                        if fresh {
                            lemma_push_contains(s1.in_progress@, index, index);
                        }
                        assert(s2.in_progress@.contains(index));
                        if fresh {
                            assert(!s1.reclaimed@.contains(index));
                            assert(phi(s1, retries, index as int) == 2 * retries + 2);
                            assert(phi(s2, retries, index as int) == 2 * retries + 1);
                        } else {
                            assert(!s2.reclaimed@.contains(index));
                            assert(phi(s2, retries, index as int) + 1 == phi(s1, retries, index as int));
                        }
                        assert forall|j2: int| 0 <= j2 < n implies #[trigger] per_index_inv(
                            s2,
                            retries,
                            report@,
                            records@,
                            recs0,
                            outcomes@,
                            j2,
                        ) by {
                            assert(per_index_inv(s1, retries, report@, records@, recs0, outcomes@, j2));
                            if j2 != index as int {
                                let ju = j2 as usize;
                                assert(ju as int == j2);
                                if fresh {
                                    lemma_push_contains(s1.in_progress@, index, ju);
                                }
                                assert(s2.in_progress@.contains(ju) == s1.in_progress@.contains(
                                    ju,
                                ));
                            }
                        }
                        assert forall|x: usize| #[trigger] running@.contains(x) implies (
                        s2.in_progress@.contains(x) && !s2.reclaimed@.contains(x)) by {
                            lemma_push_contains(running1, index, x);
                            if fresh {
                                lemma_push_contains(s1.in_progress@, index, x);
                            }
                            if x != index {
                                assert(running1.contains(x));
                                assert(s1.in_progress@.contains(x));
                            }
                        }
                        assert forall|x: usize| #[trigger] s2.in_progress@.contains(x) implies (
                        running@.contains(x) || s2.reclaimed@.contains(x)) by {
                            lemma_push_contains(running1, index, x);
                            if fresh {
                                lemma_push_contains(s1.in_progress@, index, x);
                            }
                            if x != index {
                                assert(s1.in_progress@.contains(x));
                                if running1.contains(x) {
                                    assert(running@.contains(x));
                                } else {
                                    assert(s1.reclaimed@.contains(x));
                                    assert(s2.reclaimed@.contains(x));
                                }
                            } else {
                                assert(running@.contains(index));
                            }
                        }
                        assert forall|j2: int| 0 <= j2 < n implies phi(s2, retries, j2) >= 0 by {
                            assert(per_index_inv(s2, retries, report@, records@, recs0, outcomes@, j2));
                            if s2.reclaimed@.contains(j2 as usize) || s2.in_progress@.contains(
                                j2 as usize,
                            ) {
                                assert(s2.in_progress@.contains(j2 as usize));
                                assert(!(report@[j2] is Handled) && !(report@[j2] is Failed));
                            }
                        }
                        lemma_phi_sum_nonneg(s2, retries, n as int);
                    }
                },
            }
        }
        let last_batch = self.sink.final_flush();
        proof {
            lemma_batches_flat_push(flushes@, last_batch);
            lemma_multiset_commutative(batches_flat(flushes@), last_batch@);
            self.sink.buffer@.to_multiset_ensures();
            assert(batches_flat(flushes@.push(last_batch)).to_multiset() =~= batches_flat(
                flushes@,
            ).to_multiset().add(last_batch@.to_multiset()));
        }
        flushes.push(last_batch);
        proof {
            // with the cursor exhausted and nothing in progress, every
            // request is terminal, and the report says which way
            assert forall|i: int| 0 <= i < n implies (report@[i] == RequestOutcome::Handled
                || report@[i] == RequestOutcome::Failed) by {
                let s = self.request_list.state;
                assert(per_index_inv(
                    s,
                    retries0 as int,
                    report@,
                    records@,
                    recs0,
                    outcomes@,
                    i,
                ));
                if report@[i] == RequestOutcome::Pending {
                    assert(i < s.next_index);
                    assert(s.in_progress@.contains(i as usize));
                    let j2 = choose|j2: int|
                        0 <= j2 < s.in_progress@.len() && s.in_progress@[j2] == i as usize;
                    assert(false);
                }
            }
            assert forall|j2: int| 0 <= j2 < flushes@.len() - 1 implies (
            #[trigger] flushes@[j2])@.len() == flush_unit(psize0) by {
                assert(flushes@[j2] == flushes@.drop_last()[j2]);
            }
            let retries = retries0 as int;
            assert forall|i: int| 0 <= i < n implies if outcomes@[i] <= retries {
                (#[trigger] report@[i]) == RequestOutcome::Handled
                    && self.request_list.state.requests@[i].retry_count == outcomes@[i]
            } else {
                report@[i] == RequestOutcome::Failed
                    && self.request_list.state.requests@[i].retry_count == retries
            } by {
                assert(per_index_inv(
                    self.request_list.state,
                    retries,
                    report@,
                    records@,
                    recs0,
                    outcomes@,
                    i,
                ));
            }
        }
        (flushes, report)
    }
}

} // verus!
