//! The work queue of one crawl run.
//!
//! All requests are fixed at construction, deduplicated by unique key with
//! the first occurrence winning. A request is identified by its index in
//! `requests`; the key-to-index correspondence is a bijection for the life of
//! the queue because keys are unique. `in_progress` holds the indices of
//! requests that are claimed and not yet terminal, `reclaimed` the subset of
//! those waiting to be re-claimed for a retry, and `next_index` is the cursor
//! over fresh, never-claimed work.

use vstd::prelude::*;

use crate::request::{key_of_options, spec_request_of, Request, RequestOptions};

verus! {

/// The lifecycle state of a work queue, one atomic unit: every operation on
/// it reads and writes it as a whole.
pub struct RequestListState {
    /// Cursor over fresh work; requests at indices below it have been claimed
    /// at least once. It only ever grows.
    pub next_index: usize,
    /// Indices of requests that are claimed and not yet terminal.
    pub in_progress: Vec<usize>,
    /// Indices waiting to be re-claimed for a retry; a subset of `in_progress`.
    pub reclaimed: Vec<usize>,
    /// All requests of the run, in first-appearance order of their keys.
    pub requests: Vec<Request>,
}

/// No two requests share a unique key.
pub open spec fn unique_keys(reqs: Seq<Request>) -> bool {
    forall|i: int, j: int|
        0 <= i < reqs.len() && 0 <= j < reqs.len() && i != j ==> (#[trigger] reqs[i]).unique_key@
            != (#[trigger] reqs[j]).unique_key@
}

/// Some request in `reqs` carries the key `key`.
pub open spec fn contains_key(reqs: Seq<Request>, key: Seq<char>) -> bool {
    exists|i: int| 0 <= i < reqs.len() && (#[trigger] reqs[i]).unique_key@ == key
}

/// The requests a source list gives rise to: one request per key, first
/// occurrence wins, order of first appearance kept, retry counts zero.
pub open spec fn dedup_requests(sources: Seq<RequestOptions>) -> Seq<Request>
    decreases sources.len(),
{
    if sources.len() == 0 {
        Seq::empty()
    } else {
        let prefix = dedup_requests(sources.drop_last());
        let last = sources.last();
        if contains_key(prefix, key_of_options(last)) {
            prefix
        } else {
            prefix.push(spec_request_of(last))
        }
    }
}

impl RequestListState {
    /// The queue's invariant. `reclaimed` is a subset of `in_progress`, both
    /// are duplicate-free, every claimed index lies below the cursor, keys
    /// are unique, and requests the cursor has not reached are untouched.
    pub open spec fn wf(self) -> bool {
        &&& self.next_index <= self.requests@.len()
        &&& self.in_progress@.no_duplicates()
        &&& self.reclaimed@.no_duplicates()
        &&& forall|j: int|
            0 <= j < self.in_progress@.len() ==> (#[trigger] self.in_progress@[j]) < self.next_index
        &&& forall|j: int|
            0 <= j < self.reclaimed@.len() ==> self.in_progress@.contains(
                #[trigger] self.reclaimed@[j],
            )
        &&& unique_keys(self.requests@)
        &&& forall|i: int|
            self.next_index <= i < self.requests@.len() ==> (#[trigger] self.requests@[i]).retry_count
                == 0
    }

    /// How many requests are claimed and not yet terminal.
    pub open spec fn in_progress_count(self) -> nat {
        self.in_progress@.len()
    }

    /// How many requests wait to be re-claimed.
    pub open spec fn reclaimed_count(self) -> nat {
        self.reclaimed@.len()
    }
}

/// A work queue. The embedding program is expected to serialize access to it
/// (typically behind one lock); each operation here is one
/// such atomic step.
pub struct RequestList {
    pub state: RequestListState,
    pub debug_log: bool,
}

/// Removes the one occurrence of `value` from a duplicate-free vector, or
/// leaves it unchanged when `value` is absent.
fn remove_index_value(v: &mut Vec<usize>, value: usize)
    requires
        old(v)@.no_duplicates(),
    ensures
        final(v)@.no_duplicates(),
        forall|x: usize| final(v)@.contains(x) <==> (old(v)@.contains(x) && x != value),
        final(v)@.len() == if old(v)@.contains(value) {
            old(v)@.len() - 1
        } else {
            old(v)@.len() as int
        },
{
    let ghost orig = v@;
    let mut j: usize = 0;
    while j < v.len()
        invariant
            v@ == orig,
            orig == old(v)@,
            orig.no_duplicates(),
            j <= orig.len(),
            forall|k: int| 0 <= k < j ==> orig[k] != value,
        decreases orig.len() - j,
    {
        if v[j] == value {
            v.remove(j);
            proof {
                lemma_remove_at(orig, j as int);
            }
            return ;
        }
        j += 1;
    }
    proof {
        assert forall|x: usize| v@.contains(x) implies (orig.contains(x) && x != value) by {
            assert(!orig.contains(value));
        }
    }
}

/// Removing position `j` from a duplicate-free sequence removes exactly the
/// value that stood there.
pub(crate) proof fn lemma_remove_at(s: Seq<usize>, j: int)
    requires
        0 <= j < s.len(),
        s.no_duplicates(),
    ensures
        s.remove(j).no_duplicates(),
        forall|x: usize| s.remove(j).contains(x) <==> (s.contains(x) && x != s[j]),
{
    let t = s.remove(j);
    assert forall|x: usize| t.contains(x) implies (s.contains(x) && x != s[j]) by {
        let k = choose|k: int| 0 <= k < t.len() && t[k] == x;
        if k < j {
            assert(s[k] == x);
        } else {
            assert(s[k + 1] == x);
        }
    }
    assert forall|x: usize| (s.contains(x) && x != s[j]) implies t.contains(x) by {
        let k = choose|k: int| 0 <= k < s.len() && s[k] == x;
        if k < j {
            assert(t[k] == x);
        } else {
            assert(t[k - 1] == x);
        }
    }
}

/// Looks a key up among the requests gathered so far.
fn contains_key_exec(reqs: &Vec<Request>, key: &String) -> (b: bool)
    ensures
        b == contains_key(reqs@, key@),
{
    let mut j: usize = 0;
    while j < reqs.len()
        invariant
            j <= reqs@.len(),
            forall|k: int| 0 <= k < j ==> (#[trigger] reqs@[k]).unique_key@ != key@,
        decreases reqs@.len() - j,
    {
        if reqs[j].unique_key == *key {
            return true;
        }
        j += 1;
    }
    false
}

impl RequestList {
    /// Builds the queue for one run: the sources deduplicated by unique key,
    /// first occurrence winning, nothing claimed yet.
    pub fn new(sources: Vec<RequestOptions>, debug_log: bool) -> (r: RequestList)
        ensures
            r.state.wf(),
            r.state.requests@ == dedup_requests(sources@),
            r.state.next_index == 0,
            r.state.in_progress@.len() == 0,
            r.state.reclaimed@.len() == 0,
    {
        let mut requests: Vec<Request> = Vec::new();
        let mut idx: usize = 0;
        while idx < sources.len()
            invariant
                idx <= sources@.len(),
                requests@ == dedup_requests(sources@.take(idx as int)),
            decreases sources@.len() - idx,
        {
            let source_req = sources[idx].clone();
            let new_req = Request::new(source_req);
            let is_duplicate = contains_key_exec(&requests, &new_req.unique_key);
            proof {
                assert(sources@.take(idx + 1).drop_last() =~= sources@.take(idx as int));
                assert(sources@.take(idx + 1).last() == sources@[idx as int]);
            }
            if !is_duplicate {
                requests.push(new_req);
            }
            idx += 1;
        }
        proof {
            assert(sources@.take(sources@.len() as int) =~= sources@);
            lemma_dedup_requests_wf(sources@);
        }
        let fresh_state = RequestListState {
            next_index: 0,
            in_progress: Vec::new(),
            reclaimed: Vec::new(),
            requests,
        };
        RequestList { state: fresh_state, debug_log }
    }

    /// A read-only snapshot of `(in_progress_count, reclaimed_count)`, the
    /// pair the scheduler's admission rule looks at.
    pub fn snapshot_counts(&self) -> (counts: (usize, usize))
        ensures
            counts.0 == self.state.in_progress_count(),
            counts.1 == self.state.reclaimed_count(),
    {
        (self.state.in_progress.len(), self.state.reclaimed.len())
    }

    /// Claims the next piece of work, retries first.
    ///
    /// When `reclaimed` is non-empty one of its elements is taken out and its
    /// request returned: a re-claim, which leaves `in_progress` exactly as it
    /// was, so it succeeds even when the concurrency ceiling is reached and
    /// never grows the number of requests in flight. Otherwise, when the
    /// cursor has not exhausted `requests`, the request at the cursor is
    /// claimed afresh: its index joins `in_progress` and the cursor advances.
    /// Otherwise there is no claimable work right now, which does not mean
    /// the run is finished: requests may still be in flight.
    pub fn fetch_next_request(&mut self) -> (r: Option<(usize, Request)>)
        requires
            old(self).state.wf(),
        ensures
            final(self).state.wf(),
            final(self).state.requests@ == old(self).state.requests@,
            final(self).debug_log == old(self).debug_log,
            r is Some <==> (old(self).state.reclaimed@.len() > 0 || old(self).state.next_index
                < old(self).state.requests@.len()),
            old(self).state.reclaimed@.len() > 0 ==> {
                let i = old(self).state.reclaimed@[0];
                &&& r == Some((i, old(self).state.requests@[i as int]))
                &&& final(self).state.reclaimed@.no_duplicates()
                &&& forall|x: usize|
                    final(self).state.reclaimed@.contains(x) <==> (
                    old(self).state.reclaimed@.contains(x) && x != i)
                &&& final(self).state.reclaimed@.len() == old(self).state.reclaimed@.len() - 1
                &&& final(self).state.in_progress@ == old(self).state.in_progress@
                &&& final(self).state.next_index == old(self).state.next_index
            },
            (old(self).state.reclaimed@.len() == 0 && old(self).state.next_index < old(
                self,
            ).state.requests@.len()) ==> {
                let i = old(self).state.next_index;
                &&& r == Some((i, old(self).state.requests@[i as int]))
                &&& old(self).state.requests@[i as int].retry_count == 0
                &&& final(self).state.in_progress@ == old(self).state.in_progress@.push(i)
                &&& final(self).state.next_index == i + 1
                &&& final(self).state.reclaimed@ == old(self).state.reclaimed@
            },
            r is None ==> *final(self) == *old(self),
    {
        if self.state.reclaimed.len() > 0 {
            let i = self.state.reclaimed.remove(0);
            proof {
                lemma_remove_at(old(self).state.reclaimed@, 0);
                assert(old(self).state.in_progress@.contains(i));
                let j = choose|j: int|
                    0 <= j < old(self).state.in_progress@.len() && old(
                        self,
                    ).state.in_progress@[j] == i;
                assert(i < old(self).state.next_index);
            }
            let req = self.state.requests[i].clone();
            Some((i, req))
        } else if self.state.next_index < self.state.requests.len() {
            let i = self.state.next_index;
            let req = self.state.requests[i].clone();
            proof {
                assert(!old(self).state.in_progress@.contains(i));
            }
            self.state.in_progress.push(i);
            self.state.next_index = i + 1;
            Some((i, req))
        } else {
            None
        }
    }

    /// Marks a claimed request as successfully handled: its index leaves
    /// `in_progress` for good. A no-op when the index is not recorded as in
    /// progress.
    pub fn mark_request_handled(&mut self, index: usize)
        requires
            old(self).state.wf(),
            !old(self).state.reclaimed@.contains(index),
        ensures
            final(self).state.wf(),
            final(self).state.requests@ == old(self).state.requests@,
            final(self).state.next_index == old(self).state.next_index,
            final(self).state.reclaimed@ == old(self).state.reclaimed@,
            final(self).debug_log == old(self).debug_log,
            forall|x: usize|
                final(self).state.in_progress@.contains(x) <==> (
                old(self).state.in_progress@.contains(x) && x != index),
            final(self).state.in_progress@.len() == if old(self).state.in_progress@.contains(index) {
                old(self).state.in_progress@.len() - 1
            } else {
                old(self).state.in_progress@.len() as int
            },
    {
        remove_index_value(&mut self.state.in_progress, index);
        proof {
            self.lemma_sets_still_wf(*old(self), index);
        }
    }

    /// After `index` left `in_progress` (and possibly `reclaimed`), the
    /// indexed forms of the invariant still hold.
    proof fn lemma_sets_still_wf(&self, pre: RequestList, index: usize)
        requires
            pre.state.wf(),
            self.state.next_index == pre.state.next_index,
            self.state.requests@ == pre.state.requests@,
            self.state.in_progress@.no_duplicates(),
            self.state.reclaimed@.no_duplicates(),
            forall|x: usize|
                self.state.in_progress@.contains(x) <==> (pre.state.in_progress@.contains(x) && x
                    != index),
            forall|x: usize|
                self.state.reclaimed@.contains(x) ==> (pre.state.reclaimed@.contains(x) && x
                    != index),
        ensures
            self.state.wf(),
    {
        assert forall|j: int| 0 <= j < self.state.in_progress@.len() implies (
        #[trigger] self.state.in_progress@[j]) < self.state.next_index by {
            let x = self.state.in_progress@[j];
            assert(self.state.in_progress@.contains(x));
            assert(pre.state.in_progress@.contains(x));
            let k = choose|k: int|
                0 <= k < pre.state.in_progress@.len() && pre.state.in_progress@[k] == x;
        }
        assert forall|j: int| 0 <= j < self.state.reclaimed@.len() implies self
            .state
            .in_progress@
            .contains(#[trigger] self.state.reclaimed@[j]) by {
            let x = self.state.reclaimed@[j];
            assert(self.state.reclaimed@.contains(x));
            assert(pre.state.reclaimed@.contains(x));
            assert(x != index);
            assert(pre.state.in_progress@.contains(x));
        }
    }

    /// Re-queues a claimed request for another attempt: its retry count grows
    /// by one and its index joins `reclaimed`, while it stays in
    /// `in_progress` — a reclaim never raises the number of requests in
    /// flight. The caller decides beforehand whether the retry budget allows
    /// this; a request whose budget is spent goes to `mark_request_failed`
    /// instead.
    pub fn reclaim_request(&mut self, index: usize)
        requires
            old(self).state.wf(),
            old(self).state.in_progress@.contains(index),
            !old(self).state.reclaimed@.contains(index),
            old(self).state.requests@[index as int].retry_count < usize::MAX,
        ensures
            final(self).state.wf(),
            final(self).state.requests@ == old(self).state.requests@.update(
                index as int,
                Request {
                    retry_count: (old(self).state.requests@[index as int].retry_count + 1) as usize,
                    ..old(self).state.requests@[index as int]
                },
            ),
            final(self).state.in_progress@ == old(self).state.in_progress@,
            final(self).state.next_index == old(self).state.next_index,
            final(self).state.reclaimed@ == old(self).state.reclaimed@.push(index),
            final(self).debug_log == old(self).debug_log,
    {
        proof {
            let j = choose|j: int|
                0 <= j < old(self).state.in_progress@.len() && old(self).state.in_progress@[j]
                    == index;
            assert(index < old(self).state.next_index);
        }
        let mut updated = self.state.requests[index].clone();
        updated.retry_count = updated.retry_count + 1;
        self.state.requests[index] = updated;
        self.state.reclaimed.push(index);
        proof {
            assert forall|i: int|
                final(self).state.next_index <= i < final(self).state.requests@.len() implies (
            #[trigger] final(self).state.requests@[i]).retry_count == 0 by {
                assert(final(self).state.requests@[i] == old(self).state.requests@[i]);
            }
            assert(unique_keys(final(self).state.requests@));
        }
    }

    /// Marks a claimed request as permanently failed: its index leaves both
    /// `reclaimed` and `in_progress`. Terminal and unrecoverable.
    pub fn mark_request_failed(&mut self, index: usize)
        requires
            old(self).state.wf(),
        ensures
            final(self).state.wf(),
            final(self).state.requests@ == old(self).state.requests@,
            final(self).state.next_index == old(self).state.next_index,
            final(self).debug_log == old(self).debug_log,
            forall|x: usize|
                final(self).state.in_progress@.contains(x) <==> (
                old(self).state.in_progress@.contains(x) && x != index),
            final(self).state.in_progress@.len() == if old(self).state.in_progress@.contains(index) {
                old(self).state.in_progress@.len() - 1
            } else {
                old(self).state.in_progress@.len() as int
            },
            forall|x: usize|
                final(self).state.reclaimed@.contains(x) <==> (
                old(self).state.reclaimed@.contains(x) && x != index),
            final(self).state.reclaimed@.len() == if old(self).state.reclaimed@.contains(index) {
                old(self).state.reclaimed@.len() - 1
            } else {
                old(self).state.reclaimed@.len() as int
            },
    {
        remove_index_value(&mut self.state.reclaimed, index);
        remove_index_value(&mut self.state.in_progress, index);
        proof {
            self.lemma_sets_still_wf(*old(self), index);
        }
    }
}

/// The deduplicated request list always has unique keys and zero retry
/// counts, and holds exactly the keys of its sources.
pub proof fn lemma_dedup_requests_wf(sources: Seq<RequestOptions>)
    ensures
        unique_keys(dedup_requests(sources)),
        forall|i: int|
            0 <= i < dedup_requests(sources).len() ==> (#[trigger] dedup_requests(
                sources,
            )[i]).retry_count == 0,
    decreases sources.len(),
{
    if sources.len() == 0 {
    } else {
        let prefix = dedup_requests(sources.drop_last());
        let last = sources.last();
        lemma_dedup_requests_wf(sources.drop_last());
        if !contains_key(prefix, key_of_options(last)) {
            let pushed = prefix.push(spec_request_of(last));
            assert forall|i: int, j: int|
                0 <= i < pushed.len() && 0 <= j < pushed.len() && i != j implies (
            #[trigger] pushed[i]).unique_key@ != (#[trigger] pushed[j]).unique_key@ by {
                if i < prefix.len() && j < prefix.len() {
                    assert(prefix[i] == pushed[i] && prefix[j] == pushed[j]);
                } else if j == prefix.len() {
                    assert(!(0 <= i < prefix.len() && prefix[i].unique_key@ == key_of_options(
                        last,
                    )));
                    assert(pushed[i] == prefix[i]);
                } else {
                    assert(!(0 <= j < prefix.len() && prefix[j].unique_key@ == key_of_options(
                        last,
                    )));
                    assert(pushed[j] == prefix[j]);
                }
            }
        }
    }
}

} // verus!

