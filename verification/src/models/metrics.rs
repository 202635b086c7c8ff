//! Outcomes of single requests and the running statistics that they are
//! folded into.
//!
//! Times are whole milliseconds. The model of a [`Metrics`] value is the
//! sequence of observations recorded so far: every figure it reports is a
//! function of that sequence.

use crate::models::dsl_model::{method_name, DslConfig};
use crate::text::{decimal, decimal_string};
use vstd::prelude::*;
use vstd::relations::{sorted_by, total_ordering};
use vstd::seq_lib::{lemma_multiset_commutative, lemma_sorted_unique, to_multiset_build};
use vstd::slice::{slice_subrange, slice_to_vec};
use vstd::string::StringExecFns;

verus! {

/// How one request ended.
#[derive(Debug, Clone, Copy, PartialEq, Eq, Structural)]
pub enum Classification {
    /// A response arrived; its status code, whatever it is.
    HttpStatus(u16),
    /// The per-request timeout ran out first.
    Timeout,
    /// The connection was refused or the host could not be reached.
    ConnectFailure,
    /// The peer closed the connection during the exchange.
    ConnectionClosed,
    /// Any other failure of the transport.
    UnknownNetworkError,
}

/// The label under which an outcome is counted.
#[derive(Debug, Clone, Copy, PartialEq, Eq, Structural)]
pub enum StatusKey {
    /// A completed response with this status code.
    Http(u16),
    /// A request that got no response.
    RequestError,
    /// A request that timed out, where timeouts are counted apart.
    Timeout,
}

/// What the statistics keep of one request.
#[derive(Debug, Clone, Copy, PartialEq, Eq, Structural)]
pub struct Observation {
    pub classification: Classification,
    pub elapsed_ms: u64,
}

/// One label with the number of requests counted under it.
#[derive(Debug, Clone, Copy, PartialEq, Eq, Structural)]
pub struct StatusCount {
    pub key: StatusKey,
    pub count: u64,
}

/// A request counts as successful when a response arrived, with any status.
pub open spec fn is_success(c: Classification) -> bool {
    c is HttpStatus
}

/// The label of an outcome. A timeout is a request error unless timeouts are
/// counted apart.
pub open spec fn status_key(c: Classification, timeouts_apart: bool) -> StatusKey {
    match c {
        Classification::HttpStatus(code) => StatusKey::Http(code),
        Classification::Timeout => if timeouts_apart {
            StatusKey::Timeout
        } else {
            StatusKey::RequestError
        },
        _ => StatusKey::RequestError,
    }
}

/// The number of successful requests among `h`.
pub open spec fn successes(h: Seq<Observation>) -> nat
    decreases h.len(),
{
    if h.len() == 0 {
        0
    } else {
        successes(h.drop_last()) + if is_success(h.last().classification) {
            1nat
        } else {
            0nat
        }
    }
}

/// The number of failed requests among `h`.
pub open spec fn failures(h: Seq<Observation>) -> nat
    decreases h.len(),
{
    if h.len() == 0 {
        0
    } else {
        failures(h.drop_last()) + if is_success(h.last().classification) {
            0nat
        } else {
            1nat
        }
    }
}

/// The sum of the elapsed times of `h`.
pub open spec fn elapsed_total(h: Seq<Observation>) -> nat
    decreases h.len(),
{
    if h.len() == 0 {
        0
    } else {
        elapsed_total(h.drop_last()) + h.last().elapsed_ms as nat
    }
}

/// The elapsed times of `h`, in the order of recording.
pub open spec fn elapsed_values(h: Seq<Observation>) -> Seq<u64> {
    Seq::new(h.len(), |i: int| h[i].elapsed_ms)
}

/// The shortest elapsed time of `h`, if there is any.
pub open spec fn fastest(h: Seq<Observation>) -> Option<u64>
    decreases h.len(),
{
    if h.len() == 0 {
        None
    } else {
        match fastest(h.drop_last()) {
            Some(m) if m <= h.last().elapsed_ms => Some(m),
            _ => Some(h.last().elapsed_ms),
        }
    }
}

/// The longest elapsed time of `h`, if there is any.
pub open spec fn slowest(h: Seq<Observation>) -> Option<u64>
    decreases h.len(),
{
    if h.len() == 0 {
        None
    } else {
        match slowest(h.drop_last()) {
            Some(m) if m >= h.last().elapsed_ms => Some(m),
            _ => Some(h.last().elapsed_ms),
        }
    }
}

/// Whether some entry of `t` carries the label `k`.
pub open spec fn has_key(t: Seq<(StatusKey, nat)>, k: StatusKey) -> bool {
    exists|i: int| 0 <= i < t.len() && (#[trigger] t[i]).0 == k
}

/// No label occurs twice in `t`.
pub open spec fn distinct_keys(t: Seq<(StatusKey, nat)>) -> bool {
    forall|i: int, j: int|
        0 <= i < j < t.len() ==> (#[trigger] t[i]).0 != (#[trigger] t[j]).0
}

/// `t` with one more request counted under `k`: its entry grows by one, or a
/// new entry with count 1 is put at the end.
pub open spec fn bump(t: Seq<(StatusKey, nat)>, k: StatusKey) -> Seq<(StatusKey, nat)> {
    if has_key(t, k) {
        let i = choose|i: int| 0 <= i < t.len() && (#[trigger] t[i]).0 == k;
        t.update(i, (k, t[i].1 + 1))
    } else {
        t.push((k, 1nat))
    }
}

/// The counts per label after `h`, each label where it first occurred.
pub open spec fn tally(h: Seq<Observation>, timeouts_apart: bool) -> Seq<(StatusKey, nat)>
    decreases h.len(),
{
    if h.len() == 0 {
        Seq::empty()
    } else {
        bump(
            tally(h.drop_last(), timeouts_apart),
            status_key(h.last().classification, timeouts_apart),
        )
    }
}

/// The sum of the counts of `t`.
pub open spec fn count_sum(t: Seq<(StatusKey, nat)>) -> nat
    decreases t.len(),
{
    if t.len() == 0 {
        0
    } else {
        count_sum(t.drop_last()) + t.last().1
    }
}


/// The outcome of one request, as the executor reports it.
#[derive(Debug)]
pub struct RequestOutcome {
    pub classification: Classification,
    pub elapsed_ms: u64,
    /// A short text for the operator, where the request failed.
    pub error_detail: Option<String>,
}

impl RequestOutcome {
    /// What the statistics keep of this outcome.
    pub open spec fn observation(&self) -> Observation {
        Observation { classification: self.classification, elapsed_ms: self.elapsed_ms }
    }
}

/// Replacing entry `i` of `t` changes the sum of the counts by the
/// difference of the two counts.
proof fn lemma_count_sum_update(t: Seq<(StatusKey, nat)>, i: int, entry: (StatusKey, nat))
    requires
        0 <= i < t.len(),
    ensures
        count_sum(t.update(i, entry)) + t[i].1 == count_sum(t) + entry.1,
    decreases t.len(),
{
    let u = t.update(i, entry);
    if i == t.len() - 1 {
        assert(u.drop_last() =~= t.drop_last());
    } else {
        assert(u.drop_last() =~= t.drop_last().update(i, entry));
        lemma_count_sum_update(t.drop_last(), i, entry);
    }
}

/// No count of `t` is above the sum of all of them.
proof fn lemma_count_below_sum(t: Seq<(StatusKey, nat)>, i: int)
    requires
        0 <= i < t.len(),
    ensures
        t[i].1 <= count_sum(t),
    decreases t.len(),
{
    if i < t.len() - 1 {
        lemma_count_below_sum(t.drop_last(), i);
    }
}

/// Counting one more request keeps the labels distinct and raises the sum of
/// the counts by one.
proof fn lemma_bump(t: Seq<(StatusKey, nat)>, k: StatusKey)
    requires
        distinct_keys(t),
    ensures
        distinct_keys(bump(t, k)),
        count_sum(bump(t, k)) == count_sum(t) + 1,
        has_key(bump(t, k), k),
{
    let b = bump(t, k);
    if has_key(t, k) {
        let i = choose|i: int| 0 <= i < t.len() && (#[trigger] t[i]).0 == k;
        lemma_count_sum_update(t, i, (k, t[i].1 + 1));
        assert forall|x: int, y: int| 0 <= x < y < b.len() implies (#[trigger] b[x]).0 != (
        #[trigger] b[y]).0 by {
            assert(b[x].0 == t[x].0);
            assert(b[y].0 == t[y].0);
        }
        assert(b[i].0 == k);
    } else {
        assert(b.drop_last() =~= t);
        assert forall|x: int, y: int| 0 <= x < y < b.len() implies (#[trigger] b[x]).0 != (
        #[trigger] b[y]).0 by {
            if y == t.len() {
                assert(t[x].0 != k);
            } else {
                assert(b[x].0 == t[x].0);
                assert(b[y].0 == t[y].0);
            }
        }
        assert(b[t.len() as int].0 == k);
    }
}

/// The counts per label hold every request once: no label occurs twice, and
/// the counts add up to the number of requests.
pub proof fn lemma_tally_counts_every_request(h: Seq<Observation>, timeouts_apart: bool)
    ensures
        distinct_keys(tally(h, timeouts_apart)),
        count_sum(tally(h, timeouts_apart)) == h.len(),
    decreases h.len(),
{
    if h.len() > 0 {
        lemma_tally_counts_every_request(h.drop_last(), timeouts_apart);
        lemma_bump(
            tally(h.drop_last(), timeouts_apart),
            status_key(h.last().classification, timeouts_apart),
        );
    }
}

/// Every request is either successful or failed.
pub proof fn lemma_successes_and_failures(h: Seq<Observation>)
    ensures
        successes(h) + failures(h) == h.len(),
    decreases h.len(),
{
    if h.len() > 0 {
        lemma_successes_and_failures(h.drop_last());
    }
}

/// The sum of the elapsed times is bounded by their number.
proof fn lemma_elapsed_total_bound(h: Seq<Observation>)
    ensures
        elapsed_total(h) <= h.len() * u64::MAX,
    decreases h.len(),
{
    if h.len() > 0 {
        lemma_elapsed_total_bound(h.drop_last());
        assert((h.len() - 1) * u64::MAX + u64::MAX == h.len() * u64::MAX) by (nonlinear_arith);
    }
}


/// The entries of `counts` are those of `t`, one for one.
pub open spec fn counts_agree(counts: Seq<StatusCount>, t: Seq<(StatusKey, nat)>) -> bool {
    &&& counts.len() == t.len()
    &&& forall|i: int|
        0 <= i < counts.len() ==> (#[trigger] counts[i]).key == t[i].0 && counts[i].count
            == t[i].1
}

/// The running statistics of one test.
pub struct Metrics {
    total_requests: u64,
    successful_requests: u64,
    failed_requests: u64,
    fastest_response: Option<u64>,
    slowest_response: Option<u64>,
    total_duration: u128,
    status_counts: Vec<StatusCount>,
    response_times: Vec<u64>,
    timeouts_apart: bool,
    history: Ghost<Seq<Observation>>,
}

impl View for Metrics {
    type V = Seq<Observation>;

    /// The observations recorded so far, oldest first. How timeouts are
    /// labelled is no part of it: `counts_timeouts_apart` says that.
    closed spec fn view(&self) -> Seq<Observation> {
        self.history@
    }
}

impl Metrics {
    /// Whether timeouts are counted under a label of their own.
    pub closed spec fn counts_timeouts_apart(&self) -> bool {
        self.timeouts_apart
    }

    /// Every stored figure is the one that the recorded observations give.
    pub closed spec fn wf(&self) -> bool {
        &&& self.total_requests == self@.len()
        &&& self.successful_requests == successes(self@)
        &&& self.failed_requests == failures(self@)
        &&& self.fastest_response == fastest(self@)
        &&& self.slowest_response == slowest(self@)
        &&& self.total_duration == elapsed_total(self@)
        &&& self.response_times@ == elapsed_values(self@)
        &&& counts_agree(self.status_counts@, tally(self@, self.timeouts_apart))
    }

    /// Statistics with nothing recorded. With `timeouts_apart` a timeout is
    /// counted under `TIMEOUT`, else under `REQUEST_ERROR` like every other
    /// failure.
    pub fn new(timeouts_apart: bool) -> (metrics: Metrics)
        ensures
            metrics.wf(),
            metrics@ == Seq::<Observation>::empty(),
            metrics.counts_timeouts_apart() == timeouts_apart,
    {
        let metrics = Metrics {
            total_requests: 0,
            successful_requests: 0,
            failed_requests: 0,
            fastest_response: None,
            slowest_response: None,
            total_duration: 0,
            status_counts: Vec::new(),
            response_times: Vec::new(),
            timeouts_apart,
            history: Ghost(Seq::empty()),
        };
        assert(metrics.response_times@ =~= elapsed_values(metrics@));
        metrics
    }

    /// Folds one outcome into the statistics.
    pub fn record(&mut self, outcome: &RequestOutcome)
        requires
            old(self).wf(),
        ensures
            final(self).wf(),
            final(self)@ == old(self)@.push(outcome.observation()),
            final(self).counts_timeouts_apart() == old(self).counts_timeouts_apart(),
    {
        let ghost before = self@;
        let ghost after = before.push(outcome.observation());
        let elapsed: u64 = outcome.elapsed_ms;
        proof {
            assert(after.drop_last() =~= before);
            lemma_elapsed_total_bound(before);
            lemma_successes_and_failures(before);
            lemma_tally_counts_every_request(before, self.timeouts_apart);
            assert(before.len() * u64::MAX + u64::MAX <= u128::MAX) by (nonlinear_arith)
                requires
                    before.len() <= u64::MAX,
            ;
        }
        self.response_times.push(elapsed);
        let stored: usize = self.response_times.len();
        assert(self.response_times@ =~= elapsed_values(after));
        self.total_requests = self.total_requests + 1;
        self.total_duration = self.total_duration + elapsed as u128;
        let success = match outcome.classification {
            Classification::HttpStatus(_) => true,
            _ => false,
        };
        if success {
            self.successful_requests = self.successful_requests + 1;
        } else {
            self.failed_requests = self.failed_requests + 1;
        }
        self.fastest_response = match self.fastest_response {
            Some(m) if m <= elapsed => Some(m),
            _ => Some(elapsed),
        };
        self.slowest_response = match self.slowest_response {
            Some(m) if m >= elapsed => Some(m),
            _ => Some(elapsed),
        };
        let key = key_of(outcome.classification, self.timeouts_apart);
        count_under(&mut self.status_counts, key, Ghost(tally(before, self.timeouts_apart)));
        self.history = Ghost(after);
    }

    /// The number of requests recorded.
    pub fn total_requests(&self) -> (n: u64)
        requires
            self.wf(),
        ensures
            n == self@.len(),
    {
        self.total_requests
    }

    /// The number of requests that got a response.
    pub fn successful_requests(&self) -> (n: u64)
        requires
            self.wf(),
        ensures
            n == successes(self@),
    {
        self.successful_requests
    }

    /// The number of requests that got no response.
    pub fn failed_requests(&self) -> (n: u64)
        requires
            self.wf(),
        ensures
            n == failures(self@),
    {
        self.failed_requests
    }

    /// The shortest elapsed time, if anything was recorded.
    pub fn fastest_response(&self) -> (ms: Option<u64>)
        requires
            self.wf(),
        ensures
            ms == fastest(self@),
    {
        self.fastest_response
    }

    /// The longest elapsed time, if anything was recorded.
    pub fn slowest_response(&self) -> (ms: Option<u64>)
        requires
            self.wf(),
        ensures
            ms == slowest(self@),
    {
        self.slowest_response
    }

    /// The sum of all elapsed times; divided by the number of requests it
    /// is the mean.
    pub fn total_duration(&self) -> (ms: u128)
        requires
            self.wf(),
        ensures
            ms == elapsed_total(self@),
    {
        self.total_duration
    }
}

/// The label of an outcome.
pub fn key_of(c: Classification, timeouts_apart: bool) -> (key: StatusKey)
    ensures
        key == status_key(c, timeouts_apart),
{
    match c {
        Classification::HttpStatus(code) => StatusKey::Http(code),
        Classification::Timeout => if timeouts_apart {
            StatusKey::Timeout
        } else {
            StatusKey::RequestError
        },
        _ => StatusKey::RequestError,
    }
}

/// Counts one more request under `key`.
fn count_under(counts: &mut Vec<StatusCount>, key: StatusKey, Ghost(t): Ghost<Seq<(StatusKey, nat)>>)
    requires
        counts_agree(old(counts)@, t),
        distinct_keys(t),
        count_sum(t) < u64::MAX,
    ensures
        counts_agree(final(counts)@, bump(t, key)),
{
    let mut i: usize = 0;
    while i < counts.len()
        invariant
            0 <= i <= counts.len(),
            counts_agree(counts@, t),
            distinct_keys(t),
            count_sum(t) < u64::MAX,
            *counts == *old(counts),
            forall|j: int| 0 <= j < i ==> (#[trigger] t[j]).0 != key,
        decreases counts.len() - i,
    {
        if counts[i].key == key {
            proof {
                assert(t[i as int].0 == key);
                let c = choose|c: int| 0 <= c < t.len() && (#[trigger] t[c]).0 == key;
                assert(c == i);
                lemma_count_below_sum(t, i as int);
            }
            let entry = StatusCount { key, count: counts[i].count + 1 };
            counts.set(i, entry);
            return ;
        }
        i = i + 1;
    }
    assert(!has_key(t, key));
    counts.push(StatusCount { key, count: 1 });
}


/// The order of elapsed times.
pub open spec fn at_most() -> spec_fn(u64, u64) -> bool {
    |a: u64, b: u64| a <= b
}

/// No value of `s` is followed by a smaller one.
pub open spec fn ascending(s: Seq<u64>) -> bool {
    forall|i: int, j: int| 0 <= i < j < s.len() ==> s[i] <= s[j]
}

/// The values of `s` in ascending order.
pub open spec fn in_order(s: Seq<u64>) -> Seq<u64> {
    s.sort_by(at_most())
}

/// The median of a set of samples, kept exact: the two middle values of the
/// samples in ascending order, which are one and the same value where their
/// number is odd. The median is their mean.
#[derive(Debug, Clone, Copy, PartialEq, Eq, Structural)]
pub struct Median {
    pub lower: u64,
    pub upper: u64,
}

/// The median of `s`; of no samples it is 0.
pub open spec fn median_of(s: Seq<u64>) -> Median {
    let t = in_order(s);
    let n = t.len() as int;
    if n == 0 {
        Median { lower: 0, upper: 0 }
    } else if n % 2 == 0 {
        Median { lower: t[n / 2 - 1], upper: t[n / 2] }
    } else {
        Median { lower: t[n / 2], upper: t[n / 2] }
    }
}

/// Merges two ascending runs into one.
fn merge(left: &Vec<u64>, right: &Vec<u64>) -> (out: Vec<u64>)
    requires
        ascending(left@),
        ascending(right@),
    ensures
        ascending(out@),
        out@.to_multiset() == left@.to_multiset().add(right@.to_multiset()),
{
    broadcast use {vstd::seq_lib::group_to_multiset_ensures, vstd::multiset::group_multiset_axioms};

    let mut out: Vec<u64> = Vec::new();
    let mut i: usize = 0;
    let mut j: usize = 0;
    assert(left@.take(0) =~= Seq::empty());
    assert(right@.take(0) =~= Seq::empty());
    assert(out@ =~= Seq::empty());
    assert(Seq::<u64>::empty().to_multiset().len() == 0);
    assert(out@.to_multiset() =~= left@.take(0).to_multiset().add(right@.take(0).to_multiset()));
    while i < left.len() || j < right.len()
        invariant
            0 <= i <= left.len(),
            0 <= j <= right.len(),
            ascending(left@),
            ascending(right@),
            ascending(out@),
            out@.to_multiset() == left@.take(i as int).to_multiset().add(
                right@.take(j as int).to_multiset(),
            ),
            forall|k: int| 0 <= k < out.len() && i < left.len() ==> out@[k] <= left@[i as int],
            forall|k: int| 0 <= k < out.len() && j < right.len() ==> out@[k] <= right@[j as int],
        decreases left.len() - i + right.len() - j,
    {
        let ghost before = out@;
        if j >= right.len() || (i < left.len() && left[i] <= right[j]) {
            let value: u64 = left[i];
            out.push(value);
            proof {
                let taken = left@.take(i as int);
                assert(left@.take(i + 1) =~= taken.push(value));
                assert(out@ =~= before.push(value));
                to_multiset_build(before, value);
                to_multiset_build(taken, value);
                assert(taken.to_multiset().add(right@.take(j as int).to_multiset()).insert(value)
                    =~= taken.to_multiset().insert(value).add(right@.take(j as int).to_multiset()));
            }
            i = i + 1;
        } else {
            let value: u64 = right[j];
            out.push(value);
            proof {
                let taken = right@.take(j as int);
                assert(right@.take(j + 1) =~= taken.push(value));
                assert(out@ =~= before.push(value));
                to_multiset_build(before, value);
                to_multiset_build(taken, value);
                assert(left@.take(i as int).to_multiset().add(taken.to_multiset()).insert(value)
                    =~= left@.take(i as int).to_multiset().add(taken.to_multiset().insert(value)));
            }
            j = j + 1;
        }
    }
    assert(left@.take(left@.len() as int) =~= left@);
    assert(right@.take(right@.len() as int) =~= right@);
    out
}

/// The values of `data` in ascending order, by merging its two halves, each
/// put in order the same way.
fn sort_ascending(data: &[u64]) -> (out: Vec<u64>)
    ensures
        ascending(out@),
        out@.to_multiset() == data@.to_multiset(),
    decreases data@.len(),
{
    let len: usize = data.len();
    if len <= 1 {
        return slice_to_vec(data);
    }
    let mid: usize = len / 2;
    let left = sort_ascending(slice_subrange(data, 0, mid));
    let right = sort_ascending(slice_subrange(data, mid, len));
    proof {
        let a = data@.subrange(0, mid as int);
        let b = data@.subrange(mid as int, len as int);
        assert(a + b =~= data@);
        lemma_multiset_commutative(a, b);
    }
    merge(&left, &right)
}

/// The ascending arrangement of given values is the only one.
proof fn lemma_in_order_is_the_ascending(s: Seq<u64>, t: Seq<u64>)
    requires
        ascending(t),
        t.to_multiset() == s.to_multiset(),
    ensures
        t == in_order(s),
{
    let leq = at_most();
    assert(total_ordering(leq));
    s.lemma_sort_by_ensures(leq);
    assert(sorted_by(t, leq));
    lemma_sorted_unique(t, in_order(s), leq);
}

/// The median of `data`: its values are put in ascending order and the
/// middle one is taken, or the two middle ones where their number is even.
pub fn calculate_median(data: &[u64]) -> (m: Median)
    ensures
        m == median_of(data@),
{
    let sorted = sort_ascending(data);
    proof {
        lemma_in_order_is_the_ascending(data@, sorted@);
    }
    let len: usize = sorted.len();
    if len == 0 {
        Median { lower: 0, upper: 0 }
    } else if len % 2 == 0 {
        Median { lower: sorted[len / 2 - 1], upper: sorted[len / 2] }
    } else {
        Median { lower: sorted[len / 2], upper: sorted[len / 2] }
    }
}


/// A rate kept exact: `whole` requests per second and `remainder` more over
/// the whole test.
#[derive(Debug, Clone, Copy, PartialEq, Eq, Structural)]
pub struct Throughput {
    pub whole: u64,
    pub remainder: u64,
}

/// The text of a label: the status code in decimal, or the tag of a failure.
pub open spec fn status_key_text(key: StatusKey) -> Seq<char> {
    match key {
        StatusKey::Http(code) => decimal(code as nat),
        StatusKey::RequestError => "REQUEST_ERROR"@,
        StatusKey::Timeout => "TIMEOUT"@,
    }
}

/// The text of a label.
pub fn key_text(key: StatusKey) -> (text: String)
    ensures
        text@ == status_key_text(key),
{
    match key {
        StatusKey::Http(code) => decimal_string(code as u64),
        StatusKey::RequestError => String::from_str("REQUEST_ERROR"),
        StatusKey::Timeout => String::from_str("TIMEOUT"),
    }
}

/// The figures of a finished test.
#[derive(Debug)]
pub struct Summary {
    pub target_url: String,
    pub http_method: String,
    pub duration_secs: u64,
    pub concurrency: u64,
    pub timestamp: String,
    pub total_requests: u64,
    pub successful_requests: u64,
    pub failed_requests: u64,
    /// The shortest elapsed time, 0 where nothing was recorded.
    pub fastest_response_ms: u64,
    /// The longest elapsed time, 0 where nothing was recorded.
    pub slowest_response_ms: u64,
    pub median_response_ms: Median,
    pub throughput_rps: Throughput,
    /// The number of requests under each label, the labels in the order in
    /// which they first occurred.
    pub status_counts: Vec<(String, u64)>,
}

/// What a [`Summary`] says.
pub struct SummaryView {
    pub target_url: Seq<char>,
    pub http_method: Seq<char>,
    pub duration_secs: u64,
    pub concurrency: u64,
    pub timestamp: Seq<char>,
    pub total_requests: nat,
    pub successful_requests: nat,
    pub failed_requests: nat,
    pub fastest_response_ms: u64,
    pub slowest_response_ms: u64,
    pub median_response_ms: Median,
    pub throughput_rps: Throughput,
    pub status_counts: Seq<(Seq<char>, nat)>,
}

impl View for Summary {
    type V = SummaryView;

    open spec fn view(&self) -> SummaryView {
        SummaryView {
            target_url: self.target_url@,
            http_method: self.http_method@,
            duration_secs: self.duration_secs,
            concurrency: self.concurrency,
            timestamp: self.timestamp@,
            total_requests: self.total_requests as nat,
            successful_requests: self.successful_requests as nat,
            failed_requests: self.failed_requests as nat,
            fastest_response_ms: self.fastest_response_ms,
            slowest_response_ms: self.slowest_response_ms,
            median_response_ms: self.median_response_ms,
            throughput_rps: self.throughput_rps,
            status_counts: Seq::new(
                self.status_counts@.len(),
                |i: int| (self.status_counts@[i].0@, self.status_counts@[i].1 as nat),
            ),
        }
    }
}

/// An extreme value, or 0 where there is none.
pub open spec fn or_zero(extreme: Option<u64>) -> u64 {
    match extreme {
        Some(ms) => ms,
        None => 0,
    }
}

/// The counts per label with the labels as text.
pub open spec fn labelled(t: Seq<(StatusKey, nat)>) -> Seq<(Seq<char>, nat)> {
    Seq::new(t.len(), |i: int| (status_key_text(t[i].0), t[i].1))
}

/// The sum of the counts of `counts`.
pub open spec fn labelled_sum(counts: Seq<(Seq<char>, nat)>) -> nat
    decreases counts.len(),
{
    if counts.len() == 0 {
        0
    } else {
        labelled_sum(counts.drop_last()) + counts.last().1
    }
}

/// The summary of a test of `duration_secs` seconds in which `h` was
/// recorded.
pub open spec fn summary_of(
    h: Seq<Observation>,
    timeouts_apart: bool,
    config: &DslConfig,
    timestamp: Seq<char>,
) -> SummaryView {
    SummaryView {
        target_url: config.target@,
        http_method: method_name(config.method),
        duration_secs: config.duration,
        concurrency: config.concurrency,
        timestamp,
        total_requests: h.len(),
        successful_requests: successes(h),
        failed_requests: failures(h),
        fastest_response_ms: or_zero(fastest(h)),
        slowest_response_ms: or_zero(slowest(h)),
        median_response_ms: median_of(elapsed_values(h)),
        throughput_rps: Throughput {
            whole: (h.len() as int / config.duration as int) as u64,
            remainder: (h.len() as int % config.duration as int) as u64,
        },
        status_counts: labelled(tally(h, timeouts_apart)),
    }
}

impl Metrics {
    /// The summary of the test: the counters, the extremes, the median of
    /// the elapsed times, the requests per second over the length of the
    /// test and the counts per label, beside what identifies the test. The
    /// statistics stay as they are.
    pub fn finalize(&self, config: &DslConfig, timestamp: String) -> (summary: Summary)
        requires
            self.wf(),
            config.duration >= 1,
        ensures
            summary@ == summary_of(self@, self.counts_timeouts_apart(), config, timestamp@),
    {
        let ghost t = tally(self@, self.timeouts_apart);
        let mut status_counts: Vec<(String, u64)> = Vec::new();
        let mut i: usize = 0;
        while i < self.status_counts.len()
            invariant
                0 <= i <= self.status_counts.len(),
                counts_agree(self.status_counts@, t),
                status_counts@.len() == i,
                forall|j: int|
                    0 <= j < i ==> (#[trigger] status_counts@[j]).0@ == status_key_text(t[j].0)
                        && status_counts@[j].1 == t[j].1,
            decreases self.status_counts.len() - i,
        {
            let entry = self.status_counts[i];
            status_counts.push((key_text(entry.key), entry.count));
            i = i + 1;
        }
        let fastest_response_ms: u64 = match self.fastest_response {
            Some(ms) => ms,
            None => 0,
        };
        let slowest_response_ms: u64 = match self.slowest_response {
            Some(ms) => ms,
            None => 0,
        };
        let summary = Summary {
            target_url: config.target.clone(),
            http_method: String::from_str(config.method.as_str()),
            duration_secs: config.duration,
            concurrency: config.concurrency,
            timestamp,
            total_requests: self.total_requests,
            successful_requests: self.successful_requests,
            failed_requests: self.failed_requests,
            fastest_response_ms,
            slowest_response_ms,
            median_response_ms: calculate_median(self.response_times.as_slice()),
            throughput_rps: Throughput {
                whole: self.total_requests / config.duration,
                remainder: self.total_requests % config.duration,
            },
            status_counts,
        };
        assert(summary@.status_counts =~= labelled(t));
        summary
    }
}


/// With the labels as text the counts add up to the same sum.
proof fn lemma_labelled_sum(t: Seq<(StatusKey, nat)>)
    ensures
        labelled_sum(labelled(t)) == count_sum(t),
    decreases t.len(),
{
    if t.len() > 0 {
        assert(labelled(t).drop_last() =~= labelled(t.drop_last()));
        lemma_labelled_sum(t.drop_last());
    }
}

/// Where anything was recorded, the extremes exist and every elapsed time
/// lies between them.
proof fn lemma_extremes_bound(h: Seq<Observation>, i: int)
    requires
        0 <= i < h.len(),
    ensures
        fastest(h) is Some,
        slowest(h) is Some,
        fastest(h)->0 <= h[i].elapsed_ms <= slowest(h)->0,
    decreases h.len(),
{
    if h.len() > 1 {
        if i < h.len() - 1 {
            lemma_extremes_bound(h.drop_last(), i);
        } else {
            lemma_extremes_bound(h.drop_last(), 0);
        }
    }
}

/// Every value of the samples in ascending order is one of the samples.
proof fn lemma_in_order_holds_samples(s: Seq<u64>, k: int)
    requires
        0 <= k < in_order(s).len(),
    ensures
        in_order(s).len() == s.len(),
        ascending(in_order(s)),
        exists|i: int| 0 <= i < s.len() && s[i] == in_order(s)[k],
{
    let t = in_order(s);
    assert(total_ordering(at_most()));
    s.lemma_sort_by_ensures(at_most());
    s.to_multiset_ensures();
    t.to_multiset_ensures();
    assert(t.contains(t[k]));
    assert(s.contains(t[k]));
    assert forall|i: int, j: int| 0 <= i < j < t.len() implies t[i] <= t[j] by {
        assert(at_most()(t[i], t[j]));
    }
}

/// The requests of a summary are its successful and its failed ones.
pub proof fn lemma_total_is_successful_plus_failed(
    h: Seq<Observation>,
    timeouts_apart: bool,
    config: &DslConfig,
    timestamp: Seq<char>,
)
    ensures
        ({
            let s = summary_of(h, timeouts_apart, config, timestamp);
            s.total_requests == s.successful_requests + s.failed_requests
        }),
{
    lemma_successes_and_failures(h);
}

/// The counts per label of a summary add up to its requests.
pub proof fn lemma_status_counts_sum_to_total(
    h: Seq<Observation>,
    timeouts_apart: bool,
    config: &DslConfig,
    timestamp: Seq<char>,
)
    ensures
        ({
            let s = summary_of(h, timeouts_apart, config, timestamp);
            labelled_sum(s.status_counts) == s.total_requests
        }),
{
    lemma_tally_counts_every_request(h, timeouts_apart);
    lemma_labelled_sum(tally(h, timeouts_apart));
}

/// A summary has no counts per label exactly when it has no requests.
pub proof fn lemma_status_counts_empty_iff_no_requests(
    h: Seq<Observation>,
    timeouts_apart: bool,
    config: &DslConfig,
    timestamp: Seq<char>,
)
    ensures
        ({
            let s = summary_of(h, timeouts_apart, config, timestamp);
            s.status_counts.len() == 0 <==> s.total_requests == 0
        }),
{
    if h.len() > 0 {
        lemma_tally_counts_every_request(h.drop_last(), timeouts_apart);
        lemma_bump(
            tally(h.drop_last(), timeouts_apart),
            status_key(h.last().classification, timeouts_apart),
        );
    }
}

/// Where a summary has a request, its median lies between its fastest and
/// its slowest response.
pub proof fn lemma_median_between_extremes(
    h: Seq<Observation>,
    timeouts_apart: bool,
    config: &DslConfig,
    timestamp: Seq<char>,
)
    requires
        h.len() >= 1,
    ensures
        ({
            let s = summary_of(h, timeouts_apart, config, timestamp);
            &&& s.fastest_response_ms <= s.median_response_ms.lower
            &&& s.median_response_ms.lower <= s.median_response_ms.upper
            &&& s.median_response_ms.upper <= s.slowest_response_ms
        }),
{
    let samples = elapsed_values(h);
    let t = in_order(samples);
    let m = median_of(samples);
    lemma_extremes_bound(h, 0);
    assert(total_ordering(at_most()));
    samples.lemma_sort_by_ensures(at_most());
    samples.to_multiset_ensures();
    t.to_multiset_ensures();
    let n = t.len() as int;
    assert(n == h.len());
    let lo = if n % 2 == 0 {
        n / 2 - 1
    } else {
        n / 2
    };
    let hi = n / 2;
    lemma_in_order_holds_samples(samples, lo);
    lemma_in_order_holds_samples(samples, hi);
    let a = choose|i: int| 0 <= i < samples.len() && samples[i] == t[lo];
    let b = choose|i: int| 0 <= i < samples.len() && samples[i] == t[hi];
    lemma_extremes_bound(h, a);
    lemma_extremes_bound(h, b);
}

/// Summarising twice with nothing recorded in between gives the same
/// summary.
pub proof fn lemma_finalize_is_idempotent(
    metrics: Metrics,
    config: &DslConfig,
    timestamp: Seq<char>,
    first: Summary,
    second: Summary,
)
    requires
        first@ == summary_of(metrics@, metrics.counts_timeouts_apart(), config, timestamp),
        second@ == summary_of(metrics@, metrics.counts_timeouts_apart(), config, timestamp),
    ensures
        first@ == second@,
{
}

} // verus!
