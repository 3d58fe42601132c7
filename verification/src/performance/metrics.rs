//! The aggregate of what the workers of a performance run observe, and the
//! statistics derived from it.

use crate::performance::sorting::{nats, sorted_copy, sorted_samples};
use crate::ratio::{Rate, Ratio};
use crate::span::{max_span_nanos, TimeSpan};
use std::collections::HashMap;
use vstd::arithmetic::div_mod::lemma_fundamental_div_mod;
use vstd::arithmetic::div_mod::lemma_fundamental_div_mod_converse;
use vstd::prelude::*;
use vstd::std_specs::hash::*;

verus! {

broadcast use vstd::std_specs::hash::group_hash_axioms;

/// What a `PerformanceMetrics` holds.
pub struct MetricsModel {
    /// The response times, in nanoseconds, in the order of recording.
    pub samples: Seq<nat>,
    /// Recorded requests that were flagged as errors.
    pub request_errors: nat,
    /// Requests that never got a response.
    pub connection_errors: nat,
    /// How often each status code was seen.
    pub status_counts: Map<u16, nat>,
    /// Bytes sent, over all recorded requests.
    pub bytes_sent: nat,
    /// Bytes received, over all recorded requests.
    pub bytes_received: nat,
}

/// How often `status` occurs in `counts`; 0 where it never did.
pub open spec fn count_of(counts: Map<u16, nat>, status: u16) -> nat {
    if counts.contains_key(status) {
        counts[status]
    } else {
        0
    }
}

impl MetricsModel {
    /// Nothing recorded.
    pub open spec fn empty() -> MetricsModel {
        MetricsModel {
            samples: Seq::empty(),
            request_errors: 0,
            connection_errors: 0,
            status_counts: Map::empty(),
            bytes_sent: 0,
            bytes_received: 0,
        }
    }

    /// Requests attempted: those with a response and those without.
    pub open spec fn total_requests(self) -> nat {
        self.samples.len() + self.connection_errors
    }

    /// Requests that failed, with or without a response.
    pub open spec fn failed_requests(self) -> nat {
        self.request_errors + self.connection_errors
    }

    /// The aggregate after one more request with a response.
    pub open spec fn record_request(
        self,
        nanos: nat,
        status: u16,
        sent: nat,
        received: nat,
        is_error: bool,
    ) -> MetricsModel {
        MetricsModel {
            samples: self.samples.push(nanos),
            request_errors: if is_error {
                self.request_errors + 1
            } else {
                self.request_errors
            },
            connection_errors: self.connection_errors,
            status_counts: self.status_counts.insert(
                status,
                count_of(self.status_counts, status) + 1,
            ),
            bytes_sent: self.bytes_sent + sent,
            bytes_received: self.bytes_received + received,
        }
    }

    /// The aggregate after one more request without a response.
    pub open spec fn record_connection_error(self) -> MetricsModel {
        MetricsModel { connection_errors: self.connection_errors + 1, ..self }
    }

    /// The aggregate of two aggregates: the samples of `other` follow those
    /// of `self`, and every count is the sum of the two.
    pub open spec fn merge(self, other: MetricsModel) -> MetricsModel {
        MetricsModel {
            samples: self.samples + other.samples,
            request_errors: self.request_errors + other.request_errors,
            connection_errors: self.connection_errors + other.connection_errors,
            status_counts: Map::new(
                |k: u16| self.status_counts.contains_key(k) || other.status_counts.contains_key(k),
                |k: u16| count_of(self.status_counts, k) + count_of(other.status_counts, k),
            ),
            bytes_sent: self.bytes_sent + other.bytes_sent,
            bytes_received: self.bytes_received + other.bytes_received,
        }
    }
}

/// The view of a table of counters.
pub open spec fn counts_of(table: Map<u16, u64>) -> Map<u16, nat> {
    Map::new(|k: u16| table.contains_key(k), |k: u16| table[k] as nat)
}

/// Per-request outcomes of one performance run, written by every worker.
#[derive(Debug)]
pub struct PerformanceMetrics {
    response_times: Vec<TimeSpan>,
    request_errors: u64,
    status_codes: HashMap<u16, u64>,
    bytes_sent: u128,
    bytes_received: u128,
    connection_errors: u64,
}

impl View for PerformanceMetrics {
    type V = MetricsModel;

    closed spec fn view(&self) -> MetricsModel {
        MetricsModel {
            samples: Seq::new(self.response_times@.len(), |i: int| self.response_times@[i]@),
            request_errors: self.request_errors as nat,
            connection_errors: self.connection_errors as nat,
            status_counts: counts_of(self.status_codes@),
            bytes_sent: self.bytes_sent as nat,
            bytes_received: self.bytes_received as nat,
        }
    }
}

impl Default for PerformanceMetrics {
    fn default() -> (r: PerformanceMetrics)
        ensures
            r.wf(),
            r@ == MetricsModel::empty(),
    {
        PerformanceMetrics::new()
    }
}

impl PerformanceMetrics {
    /// The counts agree with one another and leave room for the sums that
    /// the statistics take.
    pub closed spec fn wf(&self) -> bool {
        &&& self.request_errors <= self.response_times@.len()
        &&& self.response_times@.len() + self.connection_errors <= u64::MAX
        &&& self.bytes_sent <= self.response_times@.len() * u64::MAX
        &&& self.bytes_received <= self.response_times@.len() * u64::MAX
        &&& forall|k: u16| #[trigger]
            self.status_codes@.contains_key(k) ==> self.status_codes@[k]
                <= self.response_times@.len()
    }

    /// An aggregate with nothing recorded.
    pub fn new() -> (r: PerformanceMetrics)
        ensures
            r.wf(),
            r@ == MetricsModel::empty(),
    {
        let r = PerformanceMetrics {
            response_times: Vec::new(),
            request_errors: 0,
            status_codes: HashMap::new(),
            bytes_sent: 0,
            bytes_received: 0,
            connection_errors: 0,
        };
        proof {
            assert(r@.samples =~= Seq::<nat>::empty());
            assert(r@.status_counts =~= Map::<u16, nat>::empty());
        }
        r
    }

    /// Records one request that got a response.
    pub fn record_request(
        &mut self,
        response_time: TimeSpan,
        status_code: u16,
        bytes_sent: u64,
        bytes_received: u64,
        is_error: bool,
    )
        requires
            old(self).wf(),
            old(self)@.total_requests() < u64::MAX,
        ensures
            final(self).wf(),
            final(self)@ == old(self)@.record_request(
                response_time@,
                status_code,
                bytes_sent as nat,
                bytes_received as nat,
                is_error,
            ),
    {
        let ghost before = *self;
        let ghost n = self.response_times@.len();
        proof {
            assert((n + 1) * u64::MAX == n * u64::MAX + u64::MAX) by (nonlinear_arith);
            assert(n * u64::MAX + u64::MAX <= u64::MAX * u64::MAX) by (nonlinear_arith)
                requires
                    n < u64::MAX,
            ;
        }
        self.response_times.push(response_time);
        self.bytes_sent = self.bytes_sent + bytes_sent as u128;
        self.bytes_received = self.bytes_received + bytes_received as u128;
        let seen: u64 = match self.status_codes.get(&status_code) {
            Some(c) => *c,
            None => 0,
        };
        self.status_codes.insert(status_code, seen + 1);
        if is_error {
            self.request_errors = self.request_errors + 1;
        }
        proof {
            assert(self@.samples =~= before@.samples.push(response_time@));
            assert(self@.status_counts =~= before@.status_counts.insert(
                status_code,
                count_of(before@.status_counts, status_code) + 1,
            ));
        }
    }

    /// Records one request that never got a response.
    pub fn record_connection_error(&mut self)
        requires
            old(self).wf(),
            old(self)@.total_requests() < u64::MAX,
        ensures
            final(self).wf(),
            final(self)@ == old(self)@.record_connection_error(),
    {
        self.connection_errors = self.connection_errors + 1;
    }

    /// The number of requests attempted so far.
    pub fn total_requests(&self) -> (r: u64)
        requires
            self.wf(),
        ensures
            r == self@.total_requests(),
    {
        self.response_times.len() as u64 + self.connection_errors
    }

    /// What well-formedness says of the model.
    pub proof fn lemma_wf(&self)
        requires
            self.wf(),
        ensures
            self@.request_errors <= self@.samples.len(),
            self@.total_requests() <= u64::MAX,
            self@.bytes_sent <= self@.samples.len() * u64::MAX,
            self@.bytes_received <= self@.samples.len() * u64::MAX,
            forall|k: u16| count_of(self@.status_counts, k) <= self@.samples.len(),
    {
        assert forall|k: u16| count_of(self@.status_counts, k) <= self@.samples.len() by {
            if self.status_codes@.contains_key(k) {
            }
        }
    }

    /// Adds what `other` holds to `self`.
    pub fn merge(&mut self, other: &PerformanceMetrics)
        requires
            old(self).wf(),
            other.wf(),
            old(self)@.total_requests() + other@.total_requests() <= u64::MAX,
        ensures
            final(self).wf(),
            final(self)@ == old(self)@.merge(other@),
    {
        let ghost before = *self;
        let ghost n0 = self.response_times@.len();
        let ghost n1 = other.response_times@.len();
        proof {
            assert((n0 + n1) * u64::MAX == n0 * u64::MAX + n1 * u64::MAX) by (nonlinear_arith);
            assert(n0 * u64::MAX + n1 * u64::MAX <= u64::MAX * u64::MAX) by (nonlinear_arith)
                requires
                    n0 + n1 <= u64::MAX,
            ;
        }
        let mut i: usize = 0;
        while i < other.response_times.len()
            invariant
                i <= other.response_times.len(),
                self.response_times@ == before.response_times@ + other.response_times@.take(
                    i as int,
                ),
                self.request_errors == before.request_errors,
                self.connection_errors == before.connection_errors,
                self.status_codes == before.status_codes,
                self.bytes_sent == before.bytes_sent,
                self.bytes_received == before.bytes_received,
            decreases other.response_times.len() - i,
        {
            self.response_times.push(other.response_times[i]);
            proof {
                assert(other.response_times@.take(i + 1) =~= other.response_times@.take(
                    i as int,
                ).push(other.response_times@[i as int]));
                assert(self.response_times@ =~= before.response_times@
                    + other.response_times@.take(i + 1));
            }
            i += 1;
        }
        proof {
            assert(other.response_times@.take(n1 as int) =~= other.response_times@);
        }
        self.request_errors = self.request_errors + other.request_errors;
        self.connection_errors = self.connection_errors + other.connection_errors;
        self.bytes_sent = self.bytes_sent + other.bytes_sent;
        self.bytes_received = self.bytes_received + other.bytes_received;
        let mut code: u16 = 0;
        let mut done: bool = false;
        while !done
            invariant
                self.response_times@ == before.response_times@ + other.response_times@,
                self.request_errors == before.request_errors + other.request_errors,
                self.connection_errors == before.connection_errors + other.connection_errors,
                self.bytes_sent == before.bytes_sent + other.bytes_sent,
                self.bytes_received == before.bytes_received + other.bytes_received,
                before.wf(),
                other.wf(),
                n0 == before.response_times@.len(),
                n1 == other.response_times@.len(),
                n0 + n1 <= u64::MAX,
                forall|k: u16|
                    (k < code || done) ==> (#[trigger] self.status_codes@.contains_key(k) <==> (
                    before.status_codes@.contains_key(k) || other.status_codes@.contains_key(k))),
                forall|k: u16|
                    (k < code || done) && #[trigger] self.status_codes@.contains_key(k)
                        ==> self.status_codes@[k] == count_of(counts_of(before.status_codes@), k)
                        + count_of(counts_of(other.status_codes@), k),
                forall|k: u16|
                    !(k < code || done) ==> (#[trigger] self.status_codes@.contains_key(k)
                        <==> before.status_codes@.contains_key(k)),
                forall|k: u16|
                    !(k < code || done) && #[trigger] self.status_codes@.contains_key(k)
                        ==> self.status_codes@[k] == before.status_codes@[k],
            decreases
                    if done {
                        0int
                    } else {
                        0x10000 - code
                    },
        {
            let added: u64 = match other.status_codes.get(&code) {
                Some(c) => *c,
                None => 0,
            };
            if other.status_codes.contains_key(&code) {
                let seen: u64 = match self.status_codes.get(&code) {
                    Some(c) => *c,
                    None => 0,
                };
                self.status_codes.insert(code, seen + added);
            }
            if code == u16::MAX {
                done = true;
            } else {
                code = code + 1;
            }
        }
        proof {
            assert(self@.samples =~= before@.samples + other@.samples);
            assert(self@.status_counts =~= before@.merge(other@).status_counts);
        }
    }

    /// The statistics of what was recorded, for a run that has lasted
    /// `elapsed`.
    pub fn calculate_results(&self, elapsed: TimeSpan) -> (r: PerformanceResults)
        requires
            self.wf(),
        ensures
            r.describes(self@, elapsed),
            r.success_rate.num <= r.success_rate.den <= u64::MAX,
            r.requests_per_second.amount <= u64::MAX,
            r.requests_per_second.nanos <= max_span_nanos(),
    {
        let n: usize = self.response_times.len();
        let total_requests: u64 = n as u64 + self.connection_errors;
        let failed_requests: u64 = self.request_errors + self.connection_errors;
        let successful_requests: u64 = total_requests - failed_requests;
        let status_code_distribution = self.status_codes.clone();
        if n == 0 {
            return PerformanceResults {
                total_requests,
                successful_requests,
                failed_requests,
                success_rate: Ratio::zero(),
                requests_per_second: Rate::zero(),
                average_response_time: TimeSpan::zero(),
                min_response_time: TimeSpan::zero(),
                max_response_time: TimeSpan::zero(),
                p50_response_time: TimeSpan::zero(),
                p95_response_time: TimeSpan::zero(),
                p99_response_time: TimeSpan::zero(),
                status_code_distribution,
                bytes_per_second_sent: Rate::zero(),
                bytes_per_second_received: Rate::zero(),
                connection_errors: self.connection_errors,
                total_duration: elapsed,
            };
        }
        let ghost samples = self@.samples;
        let mut nanos: Vec<u128> = Vec::new();
        let mut sum_secs: u128 = 0;
        let mut sum_rest: u128 = 0;
        let mut i: usize = 0;
        proof {
            assert(samples.take(0) =~= Seq::<nat>::empty());
            assert(nats(nanos@) =~= samples.take(0));
        }
        while i < n
            invariant
                n == self.response_times.len(),
                samples == self@.samples,
                i <= n,
                nats(nanos@) == samples.take(i as int),
                forall|k: int| 0 <= k < i ==> nanos@[k] <= max_span_nanos(),
                sum_of(samples.take(i as int)) == sum_secs * 1_000_000_000 + sum_rest,
                sum_secs <= i * u64::MAX,
                sum_rest <= i * 999_999_999,
                sum_of(samples.take(i as int)) <= i * max_span_nanos(),
            decreases n - i,
        {
            let sample: &TimeSpan = &self.response_times[i];
            let value: u128 = sample.as_nanos();
            let secs: u64 = sample.as_secs();
            let rest: u32 = sample.subsec_nanos();
            proof {
                assert(samples[i as int] == value);
                assert(samples.take(i + 1).drop_last() =~= samples.take(i as int));
                assert(samples.take(i + 1).last() == value);
                lemma_fundamental_div_mod(value as int, 1_000_000_000);
                assert((i + 1) * u64::MAX == i * u64::MAX + u64::MAX) by (nonlinear_arith);
                assert((i + 1) * 999_999_999 == i * 999_999_999 + 999_999_999)
                    by (nonlinear_arith);
                assert((i + 1) * max_span_nanos() == i * max_span_nanos() + max_span_nanos())
                    by (nonlinear_arith);
                assert(i * u64::MAX + u64::MAX <= u64::MAX * u64::MAX + u64::MAX)
                    by (nonlinear_arith)
                    requires
                        i <= u64::MAX,
                ;
                assert(i * 999_999_999 + 999_999_999 <= u64::MAX * 999_999_999 + 999_999_999)
                    by (nonlinear_arith)
                    requires
                        i <= u64::MAX,
                ;
                assert((sum_secs + secs) * 1_000_000_000 == sum_secs * 1_000_000_000 + secs
                    * 1_000_000_000) by (nonlinear_arith);
            }
            nanos.push(value);
            sum_secs = sum_secs + secs as u128;
            sum_rest = sum_rest + rest as u128;
            proof {
                assert(nats(nanos@) =~= samples.take(i + 1));
            }
            i += 1;
        }
        proof {
            assert(samples.take(n as int) =~= samples);
        }
        let count: u128 = n as u128;
        let whole: u128 = sum_secs / count;
        let left: u128 = sum_secs % count;
        proof {
            assert(left * 1_000_000_000 <= u64::MAX * 1_000_000_000) by (nonlinear_arith)
                requires
                    left < count,
                    count <= u64::MAX,
            ;
            assert(n * 999_999_999 <= u64::MAX * 999_999_999) by (nonlinear_arith)
                requires
                    n <= u64::MAX,
            ;
            assert(whole <= u64::MAX) by (nonlinear_arith)
                requires
                    whole == sum_secs / count,
                    sum_secs <= count * u64::MAX,
                    count > 0,
            ;
            assert(whole * 1_000_000_000 <= u64::MAX * 1_000_000_000) by (nonlinear_arith)
                requires
                    whole <= u64::MAX,
            ;
        }
        let carried: u128 = left * 1_000_000_000 + sum_rest;
        let mean: u128 = whole * 1_000_000_000 + carried / count;
        proof {
            let total = sum_of(samples) as int;
            let c = count as int;
            lemma_fundamental_div_mod(sum_secs as int, c);
            lemma_fundamental_div_mod(carried as int, c);
            let q = whole * 1_000_000_000 + carried / count;
            let rem = carried % count;
            assert(total == q * c + rem) by (nonlinear_arith)
                requires
                    total == sum_secs * 1_000_000_000 + sum_rest,
                    sum_secs == c * whole + left,
                    carried == left * 1_000_000_000 + sum_rest,
                    carried == c * (carried / count) + rem,
                    q == whole * 1_000_000_000 + carried / count,
            ;
            lemma_fundamental_div_mod_converse(total, c, q as int, rem as int);
            assert(mean == mean_of(samples));
            assert(total / c <= max_span_nanos()) by (nonlinear_arith)
                requires
                    total <= c * max_span_nanos(),
                    c > 0,
            ;
        }
        let sorted = sorted_copy(&nanos);
        let p50: usize = ((count * 50) / 100) as usize;
        let p95: usize = ((count * 95) / 100) as usize;
        let p99: usize = ((count * 99) / 100) as usize;
        proof {
            let t = sorted_samples(samples);
            assert(nats(sorted@) == t);
            assert(t.len() == n);
            assert forall|k: int| 0 <= k < n implies #[trigger] sorted@[k] <= max_span_nanos() by {
                samples.lemma_sort_by_ensures(crate::performance::sorting::leq());
                crate::performance::sorting::lemma_leq_total();
                assert(t[k] == sorted@[k] as nat);
                assert(t.contains(t[k]));
                assert(samples.contains(t[k]));
                let j = choose|j: int| 0 <= j < samples.len() && samples[j] == t[k];
                assert(nats(nanos@)[j] == nanos@[j] as nat);
            }
            assert(t[0] == sorted@[0] as nat);
            assert(t[n - 1] == sorted@[n - 1] as nat);
            assert(t[p50 as int] == sorted@[p50 as int] as nat);
            assert(t[p95 as int] == sorted@[p95 as int] as nat);
            assert(t[p99 as int] == sorted@[p99 as int] as nat);
        }
        PerformanceResults {
            total_requests,
            successful_requests,
            failed_requests,
            success_rate: Ratio {
                num: (total_requests - failed_requests) as u128,
                den: total_requests as u128,
            },
            requests_per_second: Rate { amount: total_requests as u128, nanos: elapsed.as_nanos() },
            average_response_time: TimeSpan::from_total_nanos(mean),
            min_response_time: TimeSpan::from_total_nanos(sorted[0]),
            max_response_time: TimeSpan::from_total_nanos(sorted[n - 1]),
            p50_response_time: TimeSpan::from_total_nanos(sorted[p50]),
            p95_response_time: TimeSpan::from_total_nanos(sorted[p95]),
            p99_response_time: TimeSpan::from_total_nanos(sorted[p99]),
            status_code_distribution,
            bytes_per_second_sent: Rate { amount: self.bytes_sent, nanos: elapsed.as_nanos() },
            bytes_per_second_received: Rate {
                amount: self.bytes_received,
                nanos: elapsed.as_nanos(),
            },
            connection_errors: self.connection_errors,
            total_duration: elapsed,
        }
    }
}

/// The sum of the samples.
pub open spec fn sum_of(s: Seq<nat>) -> nat
    decreases s.len(),
{
    if s.len() == 0 {
        0
    } else {
        sum_of(s.drop_last()) + s.last()
    }
}

/// The mean of the samples, rounded down to a whole nanosecond; 0 where
/// there is no sample.
pub open spec fn mean_of(s: Seq<nat>) -> nat {
    if s.len() == 0 {
        0
    } else {
        sum_of(s) / s.len()
    }
}

/// The percentile `p` of the samples: the sample at position
/// `floor(len * p / 100)` of the samples in ascending order, with no
/// interpolation; 0 where there is no sample.
pub open spec fn percentile_of(s: Seq<nat>, p: nat) -> nat
    recommends
        p < 100,
{
    if s.len() == 0 {
        0
    } else {
        sorted_samples(s)[(s.len() * p / 100) as int]
    }
}

/// The smallest sample; 0 where there is none.
pub open spec fn min_of(s: Seq<nat>) -> nat {
    if s.len() == 0 {
        0
    } else {
        sorted_samples(s).first()
    }
}

/// The largest sample; 0 where there is none.
pub open spec fn max_of(s: Seq<nat>) -> nat {
    if s.len() == 0 {
        0
    } else {
        sorted_samples(s).last()
    }
}

/// Every sample lies between the smallest and the largest.
proof fn lemma_sample_bounds(s: Seq<nat>, i: int)
    requires
        0 <= i < s.len(),
    ensures
        min_of(s) <= s[i] <= max_of(s),
{
    broadcast use vstd::seq_lib::group_to_multiset_ensures;

    let t = sorted_samples(s);
    crate::performance::sorting::lemma_leq_total();
    s.lemma_sort_by_ensures(crate::performance::sorting::leq());
    s.to_multiset_ensures();
    t.to_multiset_ensures();
    assert(t.len() == s.len());
    assert(s.contains(s[i]));
    assert(s.to_multiset().count(s[i]) > 0);
    assert(t.contains(s[i]));
    let k = choose|k: int| 0 <= k < t.len() && t[k] == s[i];
    if 0 < k {
        assert(crate::performance::sorting::leq()(t[0], t[k]));
    }
    if k < t.len() - 1 {
        assert(crate::performance::sorting::leq()(t[k], t[t.len() - 1]));
    }
}

/// The sum of the samples lies between as many times the bounds of every
/// sample.
proof fn lemma_sum_bounds(s: Seq<nat>, low: nat, high: nat)
    requires
        forall|i: int| 0 <= i < s.len() ==> low <= #[trigger] s[i] <= high,
    ensures
        s.len() * low <= sum_of(s) <= s.len() * high,
    decreases s.len(),
{
    if s.len() > 0 {
        let rest = s.drop_last();
        assert forall|i: int| 0 <= i < rest.len() implies low <= #[trigger] rest[i] <= high by {
            assert(rest[i] == s[i]);
        }
        lemma_sum_bounds(rest, low, high);
        assert(s.len() * low == rest.len() * low + low) by (nonlinear_arith)
            requires
                s.len() == rest.len() + 1,
        ;
        assert(s.len() * high == rest.len() * high + high) by (nonlinear_arith)
            requires
                s.len() == rest.len() + 1,
        ;
    } else {
        assert(s.len() * low == 0) by (nonlinear_arith)
            requires
                s.len() == 0,
        ;
        assert(s.len() * high == 0) by (nonlinear_arith)
            requires
                s.len() == 0,
        ;
    }
}

/// The statistics are in order: the smallest sample is no larger than the
/// median, the median no larger than the 95th percentile, that no larger
/// than the 99th, and that no larger than the largest sample; and the mean
/// lies between the smallest and the largest.
pub proof fn lemma_statistics_in_order(s: Seq<nat>)
    ensures
        min_of(s) <= percentile_of(s, 50) <= percentile_of(s, 95) <= percentile_of(s, 99)
            <= max_of(s),
        min_of(s) <= mean_of(s) <= max_of(s),
{
    broadcast use vstd::seq_lib::group_to_multiset_ensures;

    if s.len() > 0 {
        let n = s.len() as int;
        let t = sorted_samples(s);
        let order = crate::performance::sorting::leq();
        crate::performance::sorting::lemma_leq_total();
        s.lemma_sort_by_ensures(order);
        s.to_multiset_ensures();
        t.to_multiset_ensures();
        assert(t.len() == n);
        let a = n * 50 / 100;
        let b = n * 95 / 100;
        let c = n * 99 / 100;
        assert(0 <= a <= b <= c <= n - 1) by (nonlinear_arith)
            requires
                n >= 1,
                a == n * 50 / 100,
                b == n * 95 / 100,
                c == n * 99 / 100,
        ;
        if 0 < a {
            assert(order(t[0], t[a]));
        }
        if a < b {
            assert(order(t[a], t[b]));
        }
        if b < c {
            assert(order(t[b], t[c]));
        }
        if c < n - 1 {
            assert(order(t[c], t[n - 1]));
        }
        let low = min_of(s);
        let high = max_of(s);
        assert forall|i: int| 0 <= i < s.len() implies low <= #[trigger] s[i] <= high by {
            lemma_sample_bounds(s, i);
        }
        lemma_sum_bounds(s, low, high);
        let total = sum_of(s) as int;
        assert(low <= total / n <= high) by (nonlinear_arith)
            requires
                n >= 1,
                n * low <= total <= n * high,
        ;
    }
}

/// A snapshot of the statistics of a performance run.
#[derive(Debug)]
pub struct PerformanceResults {
    pub total_requests: u64,
    pub successful_requests: u64,
    pub failed_requests: u64,
    pub success_rate: Ratio,
    pub requests_per_second: Rate,
    pub average_response_time: TimeSpan,
    pub min_response_time: TimeSpan,
    pub max_response_time: TimeSpan,
    pub p50_response_time: TimeSpan,
    pub p95_response_time: TimeSpan,
    pub p99_response_time: TimeSpan,
    pub status_code_distribution: HashMap<u16, u64>,
    pub bytes_per_second_sent: Rate,
    pub bytes_per_second_received: Rate,
    pub connection_errors: u64,
    pub total_duration: TimeSpan,
}

impl PerformanceResults {
    /// With no response recorded, every request counted is a failed one,
    /// the success rate is 0 and every response-time statistic is zero.
    pub proof fn lemma_empty_results(self, metrics: PerformanceMetrics, elapsed: TimeSpan)
        requires
            metrics.wf(),
            metrics@.samples.len() == 0,
            self.describes(metrics@, elapsed),
        ensures
            self.total_requests == self.failed_requests,
            self.successful_requests == 0,
            self.success_rate == (Ratio { num: 0, den: 1 }),
            self.average_response_time@ == 0,
            self.min_response_time@ == 0,
            self.max_response_time@ == 0,
            self.p50_response_time@ == 0,
            self.p95_response_time@ == 0,
            self.p99_response_time@ == 0,
    {
        metrics.lemma_wf();
    }

    /// Whether these are the statistics of the aggregate `m` after a run of
    /// `elapsed`.
    pub open spec fn describes(self, m: MetricsModel, elapsed: TimeSpan) -> bool {
        &&& self.total_requests == m.total_requests()
        &&& self.failed_requests == m.failed_requests()
        &&& self.successful_requests == m.total_requests() - m.failed_requests()
        &&& self.connection_errors == m.connection_errors
        &&& counts_of(self.status_code_distribution@) == m.status_counts
        &&& self.total_duration == elapsed
        &&& self.average_response_time@ == mean_of(m.samples)
        &&& self.min_response_time@ == min_of(m.samples)
        &&& self.max_response_time@ == max_of(m.samples)
        &&& self.p50_response_time@ == percentile_of(m.samples, 50)
        &&& self.p95_response_time@ == percentile_of(m.samples, 95)
        &&& self.p99_response_time@ == percentile_of(m.samples, 99)
        &&& if m.samples.len() == 0 {
            &&& self.success_rate == (Ratio { num: 0, den: 1 })
            &&& self.requests_per_second == (Rate { amount: 0, nanos: 1_000_000_000 })
            &&& self.bytes_per_second_sent == (Rate { amount: 0, nanos: 1_000_000_000 })
            &&& self.bytes_per_second_received == (Rate { amount: 0, nanos: 1_000_000_000 })
        } else {
            &&& self.success_rate == (Ratio {
                num: (m.total_requests() - m.failed_requests()) as u128,
                den: m.total_requests() as u128,
            })
            &&& self.requests_per_second == (Rate {
                amount: m.total_requests() as u128,
                nanos: elapsed@ as u128,
            })
            &&& self.bytes_per_second_sent == (Rate {
                amount: m.bytes_sent as u128,
                nanos: elapsed@ as u128,
            })
            &&& self.bytes_per_second_received == (Rate {
                amount: m.bytes_received as u128,
                nanos: elapsed@ as u128,
            })
        }
    }
}

} // verus!
