//! The metrics aggregator: an append-only record of request attempts
//! (samples) together with incrementally maintained status-code and
//! per-second tallies, and the summary derived from them.
//!
//! All times are in milliseconds; a sample's timestamp counts from the start
//! of the run, so its one-second throughput bucket is `observed_at_ms / 1000`.
//! The aggregator itself is a plain sequential structure; a run shares one
//! instance between its workers behind a lock owned by the caller.

use vstd::prelude::*;

verus! {

use crate::stats;
use crate::stats::LatencyHistogram;

/// How one request attempt ended.
///
/// A response with any HTTP status — including 4xx and 5xx — is a completed
/// request; `Failed` is reserved for transport-level breakdowns (connection
/// refused, timeout, DNS failure), where no status code exists and only the
/// reason can be kept.
#[derive(Debug, Clone)]
pub enum Outcome {
    Completed(u16),
    Failed(String),
}

/// One immutable record of a request attempt.  Samples are only ever
/// appended to the aggregator, never mutated afterwards.
#[derive(Debug, Clone)]
pub struct Sample {
    /// Elapsed wall-clock time of the full attempt, in milliseconds.
    pub latency_ms: u32,
    /// When the attempt finished, in milliseconds since the run started.
    pub observed_at_ms: u64,
    pub outcome: Outcome,
}

impl Sample {
    /// A response was received (whatever its status code).
    pub open spec fn is_completed(self) -> bool {
        self.outcome is Completed
    }

    pub open spec fn status(self) -> u16
        recommends
            self.is_completed(),
    {
        self.outcome->Completed_0
    }

    /// Counted against the error rate: a transport failure, or a completed
    /// request whose status code is 400 or above.
    pub open spec fn is_error(self) -> bool {
        match self.outcome {
            Outcome::Completed(status) => status >= 400,
            Outcome::Failed(_) => true,
        }
    }

    /// The one-second throughput bucket this sample falls into.
    pub open spec fn second(self) -> u64 {
        self.observed_at_ms / 1000
    }
}

/// A completed request as the worker hands it in: how long it took, the
/// status code of the response, and when it finished (milliseconds since
/// the run started).
#[derive(Debug, Clone, Copy)]
pub struct RequestMetric {
    pub duration_ms: u32,
    pub status: u16,
    pub timestamp_ms: u64,
}

// Spec-level accounting over the recorded sequence of samples.  Each
// function recurses over `drop_last`, which keeps the proofs about
// appending a sample direct.
/// The latencies of all samples, in record order.
pub open spec fn latencies_of(s: Seq<Sample>) -> Seq<u32>
    decreases s.len(),
{
    if s.len() == 0 {
        Seq::empty()
    } else {
        latencies_of(s.drop_last()).push(s.last().latency_ms)
    }
}

/// How many completed requests got this status code.
pub open spec fn count_status(s: Seq<Sample>, code: u16) -> nat
    decreases s.len(),
{
    if s.len() == 0 {
        0
    } else {
        count_status(s.drop_last(), code) + if s.last().is_completed() && s.last().status()
            == code {
            1nat
        } else {
            0nat
        }
    }
}

/// How many samples count as errors: transport failures plus completed
/// requests with status 400 or above.
pub open spec fn count_errors(s: Seq<Sample>) -> nat
    decreases s.len(),
{
    if s.len() == 0 {
        0
    } else {
        count_errors(s.drop_last()) + if s.last().is_error() {
            1nat
        } else {
            0nat
        }
    }
}

/// How many samples count as successes: completed requests with status
/// below 400.
pub open spec fn count_successes(s: Seq<Sample>) -> nat
    decreases s.len(),
{
    if s.len() == 0 {
        0
    } else {
        count_successes(s.drop_last()) + if !s.last().is_error() {
            1nat
        } else {
            0nat
        }
    }
}

/// How many samples fell into the given one-second bucket.
pub open spec fn count_in_second(s: Seq<Sample>, sec: u64) -> nat
    decreases s.len(),
{
    if s.len() == 0 {
        0
    } else {
        count_in_second(s.drop_last(), sec) + if s.last().second() == sec {
            1nat
        } else {
            0nat
        }
    }
}

/// The status codes seen among completed requests, in order of first
/// occurrence.
pub open spec fn status_codes_of(s: Seq<Sample>) -> Seq<u16>
    decreases s.len(),
{
    if s.len() == 0 {
        Seq::empty()
    } else {
        let rest = status_codes_of(s.drop_last());
        if s.last().is_completed() && !rest.contains(s.last().status()) {
            rest.push(s.last().status())
        } else {
            rest
        }
    }
}

/// The one-second buckets that received at least one sample, in order of
/// first occurrence.
pub open spec fn seconds_of(s: Seq<Sample>) -> Seq<u64>
    decreases s.len(),
{
    if s.len() == 0 {
        Seq::empty()
    } else {
        let rest = seconds_of(s.drop_last());
        if !rest.contains(s.last().second()) {
            rest.push(s.last().second())
        } else {
            rest
        }
    }
}

/// The largest count any one-second bucket reached; 0 with no samples.
pub open spec fn peak_of(s: Seq<Sample>) -> nat {
    max_over_seconds(s, seconds_of(s))
}

pub open spec fn max_over_seconds(s: Seq<Sample>, secs: Seq<u64>) -> nat
    decreases secs.len(),
{
    if secs.len() == 0 {
        0
    } else if count_in_second(s, secs.last()) >= max_over_seconds(s, secs.drop_last()) {
        count_in_second(s, secs.last())
    } else {
        max_over_seconds(s, secs.drop_last())
    }
}

/// The key column of a status-count table.
pub open spec fn keys_u16(entries: Seq<(u16, usize)>) -> Seq<u16>
    decreases entries.len(),
{
    if entries.len() == 0 {
        Seq::empty()
    } else {
        keys_u16(entries.drop_last()).push(entries.last().0)
    }
}

/// The key column of a per-second-count table.
pub open spec fn keys_u64(entries: Seq<(u64, usize)>) -> Seq<u64>
    decreases entries.len(),
{
    if entries.len() == 0 {
        Seq::empty()
    } else {
        keys_u64(entries.drop_last()).push(entries.last().0)
    }
}

// How each accounting function reacts to appending one sample.
pub proof fn lemma_counts_push(s: Seq<Sample>, x: Sample)
    ensures
        latencies_of(s.push(x)) == latencies_of(s).push(x.latency_ms),
        forall|code: u16|
            count_status(s.push(x), code) == count_status(s, code) + if x.is_completed()
                && x.status() == code {
                1nat
            } else {
                0nat
            },
        count_errors(s.push(x)) == count_errors(s) + if x.is_error() {
            1nat
        } else {
            0nat
        },
        count_successes(s.push(x)) == count_successes(s) + if !x.is_error() {
            1nat
        } else {
            0nat
        },
        forall|sec: u64|
            count_in_second(s.push(x), sec) == count_in_second(s, sec) + if x.second() == sec {
                1nat
            } else {
                0nat
            },
        status_codes_of(s.push(x)) == if x.is_completed() && !status_codes_of(s).contains(
            x.status(),
        ) {
            status_codes_of(s).push(x.status())
        } else {
            status_codes_of(s)
        },
        seconds_of(s.push(x)) == if !seconds_of(s).contains(x.second()) {
            seconds_of(s).push(x.second())
        } else {
            seconds_of(s)
        },
{
    assert(s.push(x).drop_last() =~= s);
    assert(s.push(x).last() == x);
}

pub proof fn lemma_keys_u16_push(entries: Seq<(u16, usize)>, e: (u16, usize))
    ensures
        keys_u16(entries.push(e)) == keys_u16(entries).push(e.0),
{
    assert(entries.push(e).drop_last() =~= entries);
}

pub proof fn lemma_keys_u64_push(entries: Seq<(u64, usize)>, e: (u64, usize))
    ensures
        keys_u64(entries.push(e)) == keys_u64(entries).push(e.0),
{
    assert(entries.push(e).drop_last() =~= entries);
}

pub proof fn lemma_keys_u16_len_index(entries: Seq<(u16, usize)>)
    ensures
        keys_u16(entries).len() == entries.len(),
        forall|j: int| 0 <= j < entries.len() ==> keys_u16(entries)[j] == (#[trigger] entries[j]).0,
    decreases entries.len(),
{
    if entries.len() > 0 {
        lemma_keys_u16_len_index(entries.drop_last());
        assert forall|j: int| 0 <= j < entries.len() implies keys_u16(entries)[j] == (
        #[trigger] entries[j]).0 by {
            if j < entries.len() - 1 {
                assert(entries.drop_last()[j] == entries[j]);
                assert(keys_u16(entries.drop_last())[j] == entries.drop_last()[j].0);
            }
        }
    }
}

pub proof fn lemma_keys_u64_len_index(entries: Seq<(u64, usize)>)
    ensures
        keys_u64(entries).len() == entries.len(),
        forall|j: int| 0 <= j < entries.len() ==> keys_u64(entries)[j] == (#[trigger] entries[j]).0,
    decreases entries.len(),
{
    if entries.len() > 0 {
        lemma_keys_u64_len_index(entries.drop_last());
        assert forall|j: int| 0 <= j < entries.len() implies keys_u64(entries)[j] == (
        #[trigger] entries[j]).0 by {
            if j < entries.len() - 1 {
                assert(entries.drop_last()[j] == entries[j]);
                assert(keys_u64(entries.drop_last())[j] == entries.drop_last()[j].0);
            }
        }
    }
}

/// Updating the count of an existing row leaves the key column unchanged.
pub proof fn lemma_keys_u16_update(entries: Seq<(u16, usize)>, j: int, e: (u16, usize))
    requires
        0 <= j < entries.len(),
        entries[j].0 == e.0,
    ensures
        keys_u16(entries.update(j, e)) == keys_u16(entries),
    decreases entries.len(),
{
    lemma_keys_u16_len_index(entries);
    lemma_keys_u16_len_index(entries.update(j, e));
    assert forall|i: int| 0 <= i < entries.len() implies keys_u16(entries.update(j, e))[i]
        == keys_u16(entries)[i] by {
        assert(keys_u16(entries.update(j, e))[i] == entries.update(j, e)[i].0);
        assert(keys_u16(entries)[i] == entries[i].0);
    }
    assert(keys_u16(entries.update(j, e)) =~= keys_u16(entries));
}

pub proof fn lemma_keys_u64_update(entries: Seq<(u64, usize)>, j: int, e: (u64, usize))
    requires
        0 <= j < entries.len(),
        entries[j].0 == e.0,
    ensures
        keys_u64(entries.update(j, e)) == keys_u64(entries),
    decreases entries.len(),
{
    lemma_keys_u64_len_index(entries);
    lemma_keys_u64_len_index(entries.update(j, e));
    assert forall|i: int| 0 <= i < entries.len() implies keys_u64(entries.update(j, e))[i]
        == keys_u64(entries)[i] by {
        assert(keys_u64(entries.update(j, e))[i] == entries.update(j, e)[i].0);
        assert(keys_u64(entries)[i] == entries[i].0);
    }
    assert(keys_u64(entries.update(j, e)) =~= keys_u64(entries));
}

/// A status code appears in the first-occurrence table exactly when some
/// completed sample carries it.
pub proof fn lemma_status_codes_contains(s: Seq<Sample>, code: u16)
    ensures
        status_codes_of(s).contains(code) <==> count_status(s, code) > 0,
    decreases s.len(),
{
    if s.len() > 0 {
        lemma_status_codes_contains(s.drop_last(), code);
        let rest = status_codes_of(s.drop_last());
        if s.last().is_completed() && !rest.contains(s.last().status()) {
            assert(status_codes_of(s) == rest.push(s.last().status()));
            assert forall|c: u16| rest.push(s.last().status()).contains(c) implies rest.contains(c)
                || c == s.last().status() by {
                let i = choose|i: int|
                    0 <= i < rest.push(s.last().status()).len() && rest.push(s.last().status())[i]
                        == c;
                if i < rest.len() {
                    assert(rest[i] == c);
                }
            }
            assert(rest.push(s.last().status()).contains(s.last().status())) by {
                assert(rest.push(s.last().status())[rest.len() as int] == s.last().status());
            }
            if rest.contains(code) {
                let i = choose|i: int| 0 <= i < rest.len() && rest[i] == code;
                assert(rest.push(s.last().status())[i] == code);
            }
        }
    }
}

/// A one-second bucket appears in the first-occurrence table exactly when
/// some sample fell into it.
pub proof fn lemma_seconds_contains(s: Seq<Sample>, sec: u64)
    ensures
        seconds_of(s).contains(sec) <==> count_in_second(s, sec) > 0,
    decreases s.len(),
{
    if s.len() > 0 {
        lemma_seconds_contains(s.drop_last(), sec);
        let rest = seconds_of(s.drop_last());
        if !rest.contains(s.last().second()) {
            assert(seconds_of(s) == rest.push(s.last().second()));
            assert forall|c: u64| rest.push(s.last().second()).contains(c) implies rest.contains(c)
                || c == s.last().second() by {
                let i = choose|i: int|
                    0 <= i < rest.push(s.last().second()).len() && rest.push(s.last().second())[i]
                        == c;
                if i < rest.len() {
                    assert(rest[i] == c);
                }
            }
            assert(rest.push(s.last().second()).contains(s.last().second())) by {
                assert(rest.push(s.last().second())[rest.len() as int] == s.last().second());
            }
            if rest.contains(sec) {
                let i = choose|i: int| 0 <= i < rest.len() && rest[i] == sec;
                assert(rest.push(s.last().second())[i] == sec);
            }
        }
    }
}

/// The shared aggregator of one load run.  Samples are appended by
/// `record` / `record_error`; the status-code and per-second tables are
/// kept in step so a snapshot never rescans the whole history for them.
pub struct Metrics {
    samples: Vec<Sample>,
    status_counts: Vec<(u16, usize)>,
    per_second: Vec<(u64, usize)>,
}

impl View for Metrics {
    type V = Seq<Sample>;

    closed spec fn view(&self) -> Seq<Sample> {
        self.samples@
    }
}

impl Metrics {
    /// The derived tables agree with the recorded samples: each table lists
    /// the codes (or seconds) in order of first occurrence, and each row
    /// carries the exact number of matching samples.
    pub closed spec fn inv(&self) -> bool {
        &&& keys_u16(self.status_counts@) == status_codes_of(self.samples@)
        &&& forall|j: int|
            0 <= j < self.status_counts@.len() ==> (#[trigger] self.status_counts@[j]).1
                == count_status(self.samples@, self.status_counts@[j].0)
        &&& keys_u64(self.per_second@) == seconds_of(self.samples@)
        &&& forall|j: int|
            0 <= j < self.per_second@.len() ==> (#[trigger] self.per_second@[j]).1
                == count_in_second(self.samples@, self.per_second@[j].0)
    }

    /// A fresh aggregator with nothing recorded.
    pub fn new() -> (m: Metrics)
        ensures
            m.inv(),
            m@ == Seq::<Sample>::empty(),
    {
        let m = Metrics { samples: Vec::new(), status_counts: Vec::new(), per_second: Vec::new() };
        proof {
            assert(keys_u16(m.status_counts@) =~= status_codes_of(m.samples@));
            assert(keys_u64(m.per_second@) =~= seconds_of(m.samples@));
        }
        m
    }

    /// Appends one sample and keeps both derived tables in step with it.
    fn record_sample(&mut self, sample: Sample)
        requires
            old(self).inv(),
        ensures
            final(self).inv(),
            final(self)@ == old(self)@.push(sample),
    {
        let ghost prev: Seq<Sample> = self.samples@;
        let ghost x: Sample = sample;
        let completed = match &sample.outcome {
            Outcome::Completed(_) => true,
            Outcome::Failed(_) => false,
        };
        let status: u16 = match &sample.outcome {
            Outcome::Completed(code) => *code,
            Outcome::Failed(_) => 0,
        };
        let second: u64 = sample.observed_at_ms / 1000;
        self.samples.push(sample);
        let new_total = self.samples.len();
        proof {
            lemma_counts_push(prev, x);
            assert(new_total == prev.len() + 1);
        }
        // Status-code table: only completed requests appear in it.
        if completed {
            let ghost entries: Seq<(u16, usize)> = self.status_counts@;
            let mut j: usize = 0;
            while j < self.status_counts.len() && self.status_counts[j].0 != status
                invariant
                    j <= entries.len(),
                    self.status_counts@ == entries,
                    forall|i: int| 0 <= i < j ==> (#[trigger] entries[i]).0 != status,
                decreases entries.len() - j,
            {
                j = j + 1;
            }
            let found = j < self.status_counts.len();
            proof {
                lemma_keys_u16_len_index(entries);
                lemma_status_codes_contains(prev, status);
                if !found {
                    // No row for this code: it never occurred before.
                    assert forall|i: int|
                        0 <= i < keys_u16(entries).len() implies #[trigger] keys_u16(entries)[i]
                            != status by {
                        assert(keys_u16(entries)[i] == entries[i].0);
                    }
                    assert(!status_codes_of(prev).contains(status));
                } else {
                    assert(keys_u16(entries)[j as int] == entries[j as int].0);
                    assert(status_codes_of(prev).contains(status));
                }
            }
            if found {
                let (code, count) = self.status_counts[j];
                proof {
                    assert(count == count_status(prev, status));
                    assert(count_status(prev, status) < prev.len() + 1) by {
                        lemma_count_status_le_len(prev, status);
                    }
                    assert(prev.len() + 1 == self.samples@.len());
                }
                self.status_counts.set(j, (code, count + 1));
                proof {
                    lemma_keys_u16_update(entries, j as int, (status, (count + 1) as usize));
                    assert(status_codes_of(self.samples@) == status_codes_of(prev));
                    assert forall|i: int| 0 <= i < self.status_counts@.len() implies (
                    #[trigger] self.status_counts@[i]).1 == count_status(
                        self.samples@,
                        self.status_counts@[i].0,
                    ) by {
                        if i != j {
                            assert(self.status_counts@[i] == entries[i]);
                            assert(keys_u16(entries)[i] == entries[i].0);
                            assert(keys_u16(entries)[j as int] == status);
                            // Keys are the first-occurrence sequence, which has
                            // no duplicates; hence this row's code differs.
                            lemma_status_codes_distinct(prev);
                        }
                    }
                }
            } else {
                self.status_counts.push((status, 1));
                proof {
                    lemma_keys_u16_push(entries, (status, 1));
                    assert(keys_u16(self.status_counts@) == status_codes_of(self.samples@));
                    assert forall|i: int| 0 <= i < self.status_counts@.len() implies (
                    #[trigger] self.status_counts@[i]).1 == count_status(
                        self.samples@,
                        self.status_counts@[i].0,
                    ) by {
                        if i < entries.len() {
                            assert(self.status_counts@[i] == entries[i]);
                            assert(keys_u16(entries)[i] == entries[i].0);
                            lemma_status_codes_contains(prev, entries[i].0);
                            assert(status_codes_of(prev).contains(entries[i].0)) by {
                                assert(keys_u16(entries)[i] == entries[i].0);
                            }
                        } else {
                            assert(self.status_counts@[i] == (status, 1usize));
                            assert(count_status(prev, status) == 0);
                        }
                    }
                }
            }
        } else {
            proof {
                assert(status_codes_of(self.samples@) == status_codes_of(prev));
                assert forall|i: int| 0 <= i < self.status_counts@.len() implies (
                #[trigger] self.status_counts@[i]).1 == count_status(
                    self.samples@,
                    self.status_counts@[i].0,
                ) by {}
            }
        }
        // Per-second table: every sample lands in its one-second bucket.
        let ghost entries2: Seq<(u64, usize)> = self.per_second@;
        let mut j: usize = 0;
        while j < self.per_second.len() && self.per_second[j].0 != second
            invariant
                j <= entries2.len(),
                self.per_second@ == entries2,
                forall|i: int| 0 <= i < j ==> (#[trigger] entries2[i]).0 != second,
            decreases entries2.len() - j,
        {
            j = j + 1;
        }
        let found = j < self.per_second.len();
        proof {
            lemma_keys_u64_len_index(entries2);
            lemma_seconds_contains(prev, second);
            assert(x.second() == second);
            if !found {
                assert forall|i: int|
                    0 <= i < keys_u64(entries2).len() implies #[trigger] keys_u64(entries2)[i]
                        != second by {
                    assert(keys_u64(entries2)[i] == entries2[i].0);
                }
                assert(!seconds_of(prev).contains(second));
            } else {
                assert(keys_u64(entries2)[j as int] == entries2[j as int].0);
                assert(seconds_of(prev).contains(second));
            }
        }
        if found {
            let (sec, count) = self.per_second[j];
            proof {
                assert(count == count_in_second(prev, second));
                assert(count_in_second(prev, second) < prev.len() + 1) by {
                    lemma_count_in_second_le_len(prev, second);
                }
                assert(prev.len() + 1 == self.samples@.len());
            }
            self.per_second.set(j, (sec, count + 1));
            proof {
                lemma_keys_u64_update(entries2, j as int, (second, (count + 1) as usize));
                assert(seconds_of(self.samples@) == seconds_of(prev));
                assert forall|i: int| 0 <= i < self.per_second@.len() implies (
                #[trigger] self.per_second@[i]).1 == count_in_second(
                    self.samples@,
                    self.per_second@[i].0,
                ) by {
                    if i != j {
                        assert(self.per_second@[i] == entries2[i]);
                        assert(keys_u64(entries2)[i] == entries2[i].0);
                        assert(keys_u64(entries2)[j as int] == second);
                        lemma_seconds_distinct(prev);
                    }
                }
            }
        } else {
            self.per_second.push((second, 1));
            proof {
                lemma_keys_u64_push(entries2, (second, 1));
                assert(keys_u64(self.per_second@) == seconds_of(self.samples@));
                assert forall|i: int| 0 <= i < self.per_second@.len() implies (
                #[trigger] self.per_second@[i]).1 == count_in_second(
                    self.samples@,
                    self.per_second@[i].0,
                ) by {
                    if i < entries2.len() {
                        assert(self.per_second@[i] == entries2[i]);
                        assert(keys_u64(entries2)[i] == entries2[i].0);
                        lemma_seconds_contains(prev, entries2[i].0);
                        assert(seconds_of(prev).contains(entries2[i].0)) by {
                            assert(keys_u64(entries2)[i] == entries2[i].0);
                        }
                    } else {
                        assert(self.per_second@[i] == (second, 1usize));
                        assert(count_in_second(prev, second) == 0);
                    }
                }
            }
        }
    }

    /// Records one completed request (any status code, 2xx or not).
    pub fn record(&mut self, metric: RequestMetric)
        requires
            old(self).inv(),
        ensures
            final(self).inv(),
            final(self)@ == old(self)@.push(
                (Sample {
                    latency_ms: metric.duration_ms,
                    observed_at_ms: metric.timestamp_ms,
                    outcome: Outcome::Completed(metric.status),
                }),
            ),
    {
        self.record_sample(
            Sample {
                latency_ms: metric.duration_ms,
                observed_at_ms: metric.timestamp_ms,
                outcome: Outcome::Completed(metric.status),
            },
        );
    }

    /// Records one transport failure: no response was obtained, and the
    /// elapsed time until the failure stands in for the latency.
    pub fn record_error(&mut self, error: String, duration_ms: u32, timestamp_ms: u64)
        requires
            old(self).inv(),
        ensures
            final(self).inv(),
            final(self)@ == old(self)@.push(
                (Sample {
                    latency_ms: duration_ms,
                    observed_at_ms: timestamp_ms,
                    outcome: Outcome::Failed(error),
                }),
            ),
    {
        self.record_sample(
            Sample {
                latency_ms: duration_ms,
                observed_at_ms: timestamp_ms,
                outcome: Outcome::Failed(error),
            },
        );
    }
}

/// The derived statistical snapshot of one run: counts, error rate,
/// latency percentiles and spread, the status-code and per-second tables,
/// and the peak one-second throughput.
///
/// Latencies are in whole milliseconds; the error rate is in permyriad
/// (10000 = every request failed), so the snapshot stays in integers.
#[derive(Debug, Clone, PartialEq, Eq)]
pub struct MetricsSummary {
    pub total_requests: usize,
    /// Completed requests with status below 400.
    pub success_count: usize,
    /// Transport failures plus completed requests with status 400 or above.
    pub error_count: usize,
    /// `error_count / total_requests` in permyriad; 0 for an empty run.
    pub error_rate_permyriad: u64,
    pub avg_latency_ms: u32,
    pub median_latency_ms: u32,
    pub p95_latency_ms: u32,
    pub p99_latency_ms: u32,
    pub std_dev_latency_ms: u32,
    /// Completed requests per status code, in order of first occurrence.
    pub status_counts: Vec<(u16, usize)>,
    pub response_time_ranges: LatencyHistogram,
    /// Samples per one-second bucket, in order of first occurrence.
    pub requests_per_second: Vec<(u64, usize)>,
    pub peak_rps: usize,
}

impl MetricsSummary {
    /// This summary is exactly the one determined by the given sample
    /// history.  Every field is pinned, so any two summaries of the same
    /// history agree (see `lemma_snapshot_deterministic`).
    pub open spec fn matches(self, s: Seq<Sample>) -> bool {
        &&& self.total_requests == s.len()
        &&& self.success_count == count_successes(s)
        &&& self.error_count == count_errors(s)
        &&& self.error_rate_permyriad == stats::permyriad_of(
            count_errors(s) as int,
            s.len() as int,
        )
        &&& self.avg_latency_ms == stats::mean_of(latencies_of(s))
        &&& self.median_latency_ms == stats::percentile_of(latencies_of(s), 50)
        &&& self.p95_latency_ms == stats::percentile_of(latencies_of(s), 95)
        &&& self.p99_latency_ms == stats::percentile_of(latencies_of(s), 99)
        &&& stats::is_std_dev_of(latencies_of(s), self.std_dev_latency_ms as int)
        &&& self.response_time_ranges.matches(latencies_of(s))
        &&& keys_u16(self.status_counts@) == status_codes_of(s)
        &&& forall|j: int|
            0 <= j < self.status_counts@.len() ==> (#[trigger] self.status_counts@[j]).1
                == count_status(s, self.status_counts@[j].0)
        &&& keys_u64(self.requests_per_second@) == seconds_of(s)
        &&& forall|j: int|
            0 <= j < self.requests_per_second@.len() ==> (#[trigger] self.requests_per_second@[j]).1
                == count_in_second(s, self.requests_per_second@[j].0)
        &&& self.peak_rps == peak_of(s)
    }
}

impl Metrics {
    /// A consistent snapshot of everything recorded so far.  Derived
    /// values are total: an empty run yields all-zero fields rather than a
    /// division by zero, and `success_count + error_count` always equals
    /// `total_requests`.
    pub fn summary(&self) -> (r: MetricsSummary)
        requires
            self.inv(),
        ensures
            r.matches(self@),
            r.success_count + r.error_count == r.total_requests,
            r.error_rate_permyriad <= 10000,
    {
        let ghost s: Seq<Sample> = self.samples@;
        // The latencies of all samples, in record order.
        let mut lats: Vec<u32> = Vec::new();
        let mut i: usize = 0;
        proof {
            assert(s.take(0) =~= Seq::<Sample>::empty());
        }
        while i < self.samples.len()
            invariant
                i <= self.samples@.len(),
                self.samples@ == s,
                lats@ == latencies_of(s.take(i as int)),
            decreases self.samples@.len() - i,
        {
            proof {
                assert(s.take(i + 1).drop_last() =~= s.take(i as int));
                assert(s.take(i + 1).last() == s[i as int]);
            }
            lats.push(self.samples[i].latency_ms);
            i = i + 1;
        }
        // Success and error tallies.
        let mut ok: usize = 0;
        let mut err: usize = 0;
        let mut i: usize = 0;
        while i < self.samples.len()
            invariant
                i <= self.samples@.len(),
                self.samples@ == s,
                ok == count_successes(s.take(i as int)),
                err == count_errors(s.take(i as int)),
                ok + err == i,
            decreases self.samples@.len() - i,
        {
            proof {
                assert(s.take(i + 1).drop_last() =~= s.take(i as int));
                assert(s.take(i + 1).last() == s[i as int]);
            }
            let is_error = match &self.samples[i].outcome {
                Outcome::Completed(code) => *code >= 400,
                Outcome::Failed(_) => true,
            };
            if is_error {
                err = err + 1;
            } else {
                ok = ok + 1;
            }
            i = i + 1;
        }
        let total = self.samples.len();
        proof {
            assert(s.take(s.len() as int) =~= s);
        }
        // Copies of the two tables, row for row.
        let mut status_counts: Vec<(u16, usize)> = Vec::new();
        let mut i: usize = 0;
        proof {
            assert(self.status_counts@.take(0) =~= Seq::<(u16, usize)>::empty());
        }
        while i < self.status_counts.len()
            invariant
                i <= self.status_counts@.len(),
                status_counts@ == self.status_counts@.take(i as int),
            decreases self.status_counts@.len() - i,
        {
            status_counts.push(self.status_counts[i]);
            proof {
                assert(self.status_counts@.take(i + 1) =~= self.status_counts@.take(i as int).push(
                    self.status_counts@[i as int],
                ));
            }
            i = i + 1;
        }
        let mut requests_per_second: Vec<(u64, usize)> = Vec::new();
        let mut i: usize = 0;
        proof {
            assert(self.per_second@.take(0) =~= Seq::<(u64, usize)>::empty());
        }
        while i < self.per_second.len()
            invariant
                i <= self.per_second@.len(),
                requests_per_second@ == self.per_second@.take(i as int),
            decreases self.per_second@.len() - i,
        {
            requests_per_second.push(self.per_second[i]);
            proof {
                assert(self.per_second@.take(i + 1) =~= self.per_second@.take(i as int).push(
                    self.per_second@[i as int],
                ));
            }
            i = i + 1;
        }
        proof {
            assert(status_counts@ =~= self.status_counts@);
            assert(requests_per_second@ =~= self.per_second@);
            lemma_max_from_table(s, self.per_second@);
        }
        let peak = stats::peak_rps(&requests_per_second);
        MetricsSummary {
            total_requests: total,
            success_count: ok,
            error_count: err,
            error_rate_permyriad: stats::rate_permyriad(err, total),
            avg_latency_ms: stats::average(&lats),
            median_latency_ms: stats::percentile(&lats, 50),
            p95_latency_ms: stats::percentile(&lats, 95),
            p99_latency_ms: stats::percentile(&lats, 99),
            std_dev_latency_ms: stats::std_dev(&lats),
            status_counts,
            response_time_ranges: stats::histogram_ranges(&lats),
            requests_per_second,
            peak_rps: peak,
        }
    }
}

/// A per-second table whose rows carry the exact per-bucket counts has the
/// same maximum as the spec-level peak over its key column.
pub proof fn lemma_max_from_table(s: Seq<Sample>, entries: Seq<(u64, usize)>)
    requires
        forall|j: int|
            0 <= j < entries.len() ==> (#[trigger] entries[j]).1 == count_in_second(
                s,
                entries[j].0,
            ),
    ensures
        stats::max_count_of(entries) == max_over_seconds(s, keys_u64(entries)),
    decreases entries.len(),
{
    if entries.len() > 0 {
        assert forall|j: int| 0 <= j < entries.drop_last().len() implies (
        #[trigger] entries.drop_last()[j]).1 == count_in_second(s, entries.drop_last()[j].0) by {
            assert(entries.drop_last()[j] == entries[j]);
        }
        lemma_max_from_table(s, entries.drop_last());
        assert(keys_u64(entries).drop_last() =~= keys_u64(entries.drop_last())) by {
            lemma_keys_u64_len_index(entries);
            lemma_keys_u64_len_index(entries.drop_last());
            assert forall|j: int| 0 <= j < entries.len() - 1 implies keys_u64(
                entries,
            ).drop_last()[j] == keys_u64(entries.drop_last())[j] by {
                assert(keys_u64(entries)[j] == entries[j].0);
                assert(keys_u64(entries.drop_last())[j] == entries.drop_last()[j].0);
                assert(entries.drop_last()[j] == entries[j]);
            }
        }
        assert(keys_u64(entries).last() == entries.last().0) by {
            lemma_keys_u64_len_index(entries);
        }
        assert(entries.last().1 == count_in_second(s, entries.last().0));
    }
}

pub proof fn lemma_latencies_len(s: Seq<Sample>)
    ensures
        latencies_of(s).len() == s.len(),
    decreases s.len(),
{
    if s.len() > 0 {
        lemma_latencies_len(s.drop_last());
    }
}

/// What holds of every summary, read off the summary itself: the success
/// and error tallies partition the total, the histogram buckets sum to the
/// total, and — whenever anything was recorded — the p50/p95/p99
/// latencies come in non-decreasing order.
pub proof fn lemma_summary_well_formed(s: Seq<Sample>, summary: MetricsSummary)
    requires
        summary.matches(s),
    ensures
        summary.success_count + summary.error_count == summary.total_requests,
        summary.response_time_ranges.under_800_ms + summary.response_time_ranges.under_1200_ms
            + summary.response_time_ranges.under_2000_ms
            + summary.response_time_ranges.over_2000_ms == summary.total_requests,
        summary.total_requests > 0 ==> summary.median_latency_ms <= summary.p95_latency_ms
            <= summary.p99_latency_ms,
{
    lemma_success_error_partition(s);
    lemma_latencies_len(s);
    if s.len() > 0 {
        stats::lemma_percentile_monotone(latencies_of(s), 50, 95);
        stats::lemma_percentile_monotone(latencies_of(s), 95, 99);
    }
}

/// Every recorded sample is either a success or an error, and never both:
/// the two tallies always partition the total.
pub proof fn lemma_success_error_partition(s: Seq<Sample>)
    ensures
        count_successes(s) + count_errors(s) == s.len(),
    decreases s.len(),
{
    if s.len() > 0 {
        lemma_success_error_partition(s.drop_last());
    }
}

/// Snapshots are a function of the recorded history alone: two summaries
/// taken from the same sample history — for instance two `summary` calls
/// with no `record` in between — agree on every field.
pub proof fn lemma_snapshot_deterministic(s: Seq<Sample>, a: MetricsSummary, b: MetricsSummary)
    requires
        a.matches(s),
        b.matches(s),
    ensures
        a.total_requests == b.total_requests,
        a.success_count == b.success_count,
        a.error_count == b.error_count,
        a.error_rate_permyriad == b.error_rate_permyriad,
        a.avg_latency_ms == b.avg_latency_ms,
        a.median_latency_ms == b.median_latency_ms,
        a.p95_latency_ms == b.p95_latency_ms,
        a.p99_latency_ms == b.p99_latency_ms,
        a.std_dev_latency_ms == b.std_dev_latency_ms,
        a.status_counts@ == b.status_counts@,
        a.response_time_ranges == b.response_time_ranges,
        a.requests_per_second@ == b.requests_per_second@,
        a.peak_rps == b.peak_rps,
{
    stats::lemma_isqrt_unique(
        stats::variance_of(latencies_of(s)),
        a.std_dev_latency_ms as int,
        b.std_dev_latency_ms as int,
    );
    lemma_keys_u16_len_index(a.status_counts@);
    lemma_keys_u16_len_index(b.status_counts@);
    assert forall|j: int| 0 <= j < a.status_counts@.len() implies a.status_counts@[j]
        == b.status_counts@[j] by {
        assert(keys_u16(a.status_counts@)[j] == (#[trigger] a.status_counts@[j]).0);
        assert(keys_u16(b.status_counts@)[j] == b.status_counts@[j].0);
        assert(a.status_counts@[j].0 == b.status_counts@[j].0);
        assert(a.status_counts@[j].1 == count_status(s, a.status_counts@[j].0));
        assert(b.status_counts@[j].1 == count_status(s, b.status_counts@[j].0));
    }
    assert(a.status_counts@ =~= b.status_counts@);
    lemma_keys_u64_len_index(a.requests_per_second@);
    lemma_keys_u64_len_index(b.requests_per_second@);
    assert forall|j: int| 0 <= j < a.requests_per_second@.len() implies a.requests_per_second@[j]
        == b.requests_per_second@[j] by {
        assert(keys_u64(a.requests_per_second@)[j] == (#[trigger] a.requests_per_second@[j]).0);
        assert(keys_u64(b.requests_per_second@)[j] == b.requests_per_second@[j].0);
        assert(a.requests_per_second@[j].0 == b.requests_per_second@[j].0);
        assert(a.requests_per_second@[j].1 == count_in_second(s, a.requests_per_second@[j].0));
        assert(b.requests_per_second@[j].1 == count_in_second(s, b.requests_per_second@[j].0));
    }
    assert(a.requests_per_second@ =~= b.requests_per_second@);
}

/// No status code occurs more often than there are samples.
pub proof fn lemma_count_status_le_len(s: Seq<Sample>, code: u16)
    ensures
        count_status(s, code) <= s.len(),
    decreases s.len(),
{
    if s.len() > 0 {
        lemma_count_status_le_len(s.drop_last(), code);
    }
}

/// No one-second bucket holds more samples than there are samples.
pub proof fn lemma_count_in_second_le_len(s: Seq<Sample>, sec: u64)
    ensures
        count_in_second(s, sec) <= s.len(),
    decreases s.len(),
{
    if s.len() > 0 {
        lemma_count_in_second_le_len(s.drop_last(), sec);
    }
}

/// The first-occurrence status-code sequence never repeats a code.
pub proof fn lemma_status_codes_distinct(s: Seq<Sample>)
    ensures
        forall|a: int, b: int|
            0 <= a < b < status_codes_of(s).len() ==> status_codes_of(s)[a] != status_codes_of(
                s,
            )[b],
    decreases s.len(),
{
    if s.len() > 0 {
        lemma_status_codes_distinct(s.drop_last());
        let rest = status_codes_of(s.drop_last());
        if s.last().is_completed() && !rest.contains(s.last().status()) {
            assert forall|a: int, b: int|
                0 <= a < b < status_codes_of(s).len() implies status_codes_of(s)[a]
                != status_codes_of(s)[b] by {
                if b == rest.len() {
                    assert(status_codes_of(s)[a] == rest[a]);
                    assert(rest.contains(rest[a]));
                }
            }
        }
    }
}

/// The first-occurrence second sequence never repeats a bucket.
pub proof fn lemma_seconds_distinct(s: Seq<Sample>)
    ensures
        forall|a: int, b: int|
            0 <= a < b < seconds_of(s).len() ==> seconds_of(s)[a] != seconds_of(s)[b],
    decreases s.len(),
{
    if s.len() > 0 {
        lemma_seconds_distinct(s.drop_last());
        let rest = seconds_of(s.drop_last());
        if !rest.contains(s.last().second()) {
            assert forall|a: int, b: int|
                0 <= a < b < seconds_of(s).len() implies seconds_of(s)[a] != seconds_of(s)[b] by {
                if b == rest.len() {
                    assert(seconds_of(s)[a] == rest[a]);
                    assert(rest.contains(rest[a]));
                }
            }
        }
    }
}

} // verus!
