use vstd::prelude::*;
use crate::roster::saturate;
use crate::worker::WorkerProgress;

verus! {

/// An average response time above this many microseconds is high.
pub const HIGH_LATENCY_US: u64 = 1_500_000;

/// A single response that takes longer than this many milliseconds is
/// slow.
pub const SLOW_REQUEST_MS: u64 = 2_000;

/// Two notices of a slow response are at least this many nanoseconds
/// apart.
pub const SLOW_NOTICE_INTERVAL_NANOS: u64 = 5_000_000_000;

/// The number of values that a counter can take: a counter that is
/// incremented beyond the largest starts again at zero.
pub open spec fn counter_range() -> int {
    0x1_0000_0000_0000_0000
}

/// The sum of a list of samples.
pub open spec fn sum(samples: Seq<u64>) -> nat
    decreases samples.len(),
{
    if samples.len() == 0 {
        0
    } else {
        sum(samples.drop_last()) + samples.last() as nat
    }
}

/// The mean of a list of samples in milliseconds, in microseconds and
/// rounded down; zero for an empty list.
pub open spec fn mean_micros_spec(samples: Seq<u64>) -> nat {
    if samples.len() == 0 {
        0
    } else {
        (sum(samples) * 1000) / samples.len()
    }
}

/// The rate of `count` events in `elapsed_nanos` nanoseconds, in
/// thousandths of an event per second and rounded down; zero when no time
/// has passed.
pub open spec fn rate_milli_spec(count: nat, elapsed_nanos: nat) -> nat {
    if elapsed_nanos == 0 {
        0
    } else {
        (count * 1_000_000_000_000) / elapsed_nanos
    }
}

/// The share of successes among the requests sent, in parts per million
/// and rounded down; zero when nothing was sent.
pub open spec fn success_rate_ppm_spec(success: nat, sent: nat) -> nat {
    if sent == 0 {
        0
    } else {
        (success * 1_000_000) / sent
    }
}

/// More than one request in ten has failed.
pub open spec fn high_error_rate_spec(sent: nat, error: nat) -> bool {
    sent > 0 && error * 10 > sent
}

/// Brings a number down to what a counter can hold.
pub fn clamp(n: u128) -> (c: u64)
    ensures
        c == saturate(n as nat),
{
    if n > u64::MAX as u128 {
        u64::MAX
    } else {
        n as u64
    }
}

/// A sum of samples is at most the largest sample value for each sample.
pub proof fn lemma_sum_bound(samples: Seq<u64>)
    ensures
        sum(samples) <= samples.len() * u64::MAX,
    decreases samples.len(),
{
    if samples.len() > 0 {
        lemma_sum_bound(samples.drop_last());
        assert((samples.len() - 1) * u64::MAX + u64::MAX == samples.len() * u64::MAX)
            by (nonlinear_arith);
    }
}

/// Adds up a list of samples.
pub fn sum_of(samples: &Vec<u64>) -> (total: u128)
    ensures
        total == sum(samples@),
{
    let mut total: u128 = 0;
    let mut i: usize = 0;
    while i < samples.len()
        invariant
            i <= samples@.len(),
            total == sum(samples@.take(i as int)),
        decreases samples@.len() - i,
    {
        proof {
            let next = samples@.take(i + 1);
            assert(next.drop_last() =~= samples@.take(i as int));
            lemma_sum_bound(next);
            assert(next.len() * u64::MAX <= u128::MAX) by (nonlinear_arith)
                requires
                    next.len() <= u64::MAX,
            ;
        }
        total = total + samples[i] as u128;
        i += 1;
    }
    assert(samples@.take(i as int) =~= samples@);
    total
}

/// The mean of a list of samples in milliseconds, in microseconds.
pub fn mean_micros(samples: &Vec<u64>) -> (mean: u64)
    ensures
        mean == saturate(mean_micros_spec(samples@)),
{
    let count: usize = samples.len();
    if count == 0 {
        return 0;
    }
    let total: u128 = sum_of(samples);
    match total.checked_mul(1000) {
        Some(scaled) => clamp(scaled / count as u128),
        None => {
            assert((total * 1000) / (count as int) > u64::MAX) by (nonlinear_arith)
                requires
                    total * 1000 > u128::MAX,
                    0 < count <= u64::MAX,
            ;
            u64::MAX
        },
    }
}

/// The rate of `count` events in `elapsed_nanos` nanoseconds, in
/// thousandths of an event per second.
pub fn rate_milli(count: u64, elapsed_nanos: u64) -> (rate: u64)
    ensures
        rate == saturate(rate_milli_spec(count as nat, elapsed_nanos as nat)),
{
    if elapsed_nanos == 0 {
        return 0;
    }
    assert(count * 1_000_000_000_000 <= u128::MAX) by (nonlinear_arith)
        requires
            count <= u64::MAX,
    ;
    let scaled: u128 = count as u128 * 1_000_000_000_000;
    clamp(scaled / elapsed_nanos as u128)
}

/// The share of successes among the requests sent, in parts per million.
pub fn success_rate_ppm(success: u64, sent: u64) -> (rate: u64)
    ensures
        rate == saturate(success_rate_ppm_spec(success as nat, sent as nat)),
{
    if sent == 0 {
        return 0;
    }
    assert(success * 1_000_000 <= u128::MAX) by (nonlinear_arith)
        requires
            success <= u64::MAX,
    ;
    let scaled: u128 = success as u128 * 1_000_000;
    clamp(scaled / sent as u128)
}

/// Tests whether more than one request in ten has failed.
pub fn high_error_rate(sent: u64, error: u64) -> (high: bool)
    ensures
        high == high_error_rate_spec(sent as nat, error as nat),
{
    sent > 0 && error as u128 * 10 > sent as u128
}

/// Tests whether an average response time, in microseconds, is high.
pub fn high_latency(avg_response_time_us: u64) -> (high: bool)
    ensures
        high == (avg_response_time_us > HIGH_LATENCY_US),
{
    avg_response_time_us > HIGH_LATENCY_US
}

/// What became of one unit of work.
#[derive(Clone, Copy, Debug, PartialEq, Eq, Structural)]
pub enum Outcome {
    /// The unit succeeded, with its response time in milliseconds where
    /// one was measured.
    Success(Option<u64>),
    /// The unit failed.
    Error,
}

/// One for a success, zero for an error.
pub open spec fn success_of(outcome: Outcome) -> nat {
    if outcome is Success {
        1
    } else {
        0
    }
}

/// One for an error, zero for a success.
pub open spec fn error_of(outcome: Outcome) -> nat {
    if outcome is Error {
        1
    } else {
        0
    }
}

/// The response time that an outcome carries, as a list of one sample or
/// of none.
pub open spec fn latency_of(outcome: Outcome) -> Seq<u64> {
    match outcome {
        Outcome::Success(Some(ms)) => seq![ms],
        _ => Seq::empty(),
    }
}

/// How many of a list of outcomes are successes.
pub open spec fn successes(outcomes: Seq<Outcome>) -> nat
    decreases outcomes.len(),
{
    if outcomes.len() == 0 {
        0
    } else {
        successes(outcomes.drop_last()) + success_of(outcomes.last())
    }
}

/// How many of a list of outcomes are errors.
pub open spec fn errors(outcomes: Seq<Outcome>) -> nat
    decreases outcomes.len(),
{
    if outcomes.len() == 0 {
        0
    } else {
        errors(outcomes.drop_last()) + error_of(outcomes.last())
    }
}

/// The response times that a list of outcomes carries, in their order.
pub open spec fn latencies(outcomes: Seq<Outcome>) -> Seq<u64>
    decreases outcomes.len(),
{
    if outcomes.len() == 0 {
        Seq::empty()
    } else {
        latencies(outcomes.drop_last()) + latency_of(outcomes.last())
    }
}

/// Counting on from a wrapped count gives the wrapped sum.
proof fn lemma_wrap_add(start: int, counted: int, more: int)
    requires
        0 <= start,
        0 <= counted,
        0 <= more,
    ensures
        ((start + counted) % counter_range() + more) % counter_range() == (start + counted + more)
            % counter_range(),
{
    vstd::arithmetic::div_mod::lemma_add_mod_noop_right(more, start + counted, counter_range());
}

/// Every outcome is a success or an error, so the two counts add up to the
/// number of outcomes; and where every unit succeeds, no error is counted
/// and the successes are all there is.
pub proof fn lemma_outcomes_add_up(outcomes: Seq<Outcome>)
    ensures
        successes(outcomes) + errors(outcomes) == outcomes.len(),
        (forall|i: int| 0 <= i < outcomes.len() ==> outcomes[i] is Success) ==> errors(outcomes)
            == 0 && successes(outcomes) == outcomes.len(),
        latencies(outcomes).len() <= successes(outcomes),
    decreases outcomes.len(),
{
    if outcomes.len() > 0 {
        let front = outcomes.drop_last();
        lemma_outcomes_add_up(front);
        assert(latency_of(outcomes.last()).len() <= success_of(outcomes.last()));
        if forall|i: int| 0 <= i < outcomes.len() ==> outcomes[i] is Success {
            assert forall|i: int| 0 <= i < front.len() implies front[i] is Success by {
                assert(front[i] == outcomes[i]);
            }
            assert(outcomes.last() == outcomes[outcomes.len() - 1]);
        }
    }
}

/// A run in which every unit succeeds, counted from zero, ends with no
/// error counted and with as many successes as requests sent.
pub proof fn lemma_run_without_failure(outcomes: Seq<Outcome>)
    requires
        forall|i: int| 0 <= i < outcomes.len() ==> outcomes[i] is Success,
    ensures
        (0u64 + errors(outcomes)) % counter_range() == 0,
        (0u64 + successes(outcomes)) % counter_range() == (0u64 + outcomes.len())
            % counter_range(),
{
    lemma_outcomes_add_up(outcomes);
}

/// The counters of one worker's run and the response times, in
/// milliseconds, that were measured since the last report.
pub struct Accumulator {
    sent: u64,
    success: u64,
    error: u64,
    latencies: Vec<u64>,
}

impl Accumulator {
    /// Requests sent.
    pub closed spec fn sent(&self) -> u64 {
        self.sent
    }

    /// Requests that succeeded.
    pub closed spec fn success(&self) -> u64 {
        self.success
    }

    /// Requests that failed.
    pub closed spec fn error(&self) -> u64 {
        self.error
    }

    /// The response times measured since the last report, oldest first.
    pub closed spec fn window(&self) -> Seq<u64> {
        self.latencies@
    }

    /// Every request sent is counted as a success or as an error. The
    /// counters wrap, so the equation holds up to the counter range.
    pub open spec fn balanced(&self) -> bool {
        self.sent() as int == (self.success() + self.error()) % counter_range()
    }

    /// An accumulator that has counted nothing.
    pub fn new() -> (acc: Accumulator)
        ensures
            acc.sent() == 0,
            acc.success() == 0,
            acc.error() == 0,
            acc.window() == Seq::<u64>::empty(),
            acc.balanced(),
    {
        Accumulator { sent: 0, success: 0, error: 0, latencies: Vec::new() }
    }

    /// Counts a request that succeeded, with its response time in
    /// milliseconds where one was measured.
    pub fn record_success(&mut self, latency_ms: Option<u64>)
        ensures
            final(self).sent() as int == (old(self).sent() + 1) % counter_range(),
            final(self).success() as int == (old(self).success() + 1) % counter_range(),
            final(self).error() == old(self).error(),
            final(self).window() == match latency_ms {
                Some(ms) => old(self).window().push(ms),
                None => old(self).window(),
            },
            old(self).balanced() ==> final(self).balanced(),
    {
        self.sent = self.sent.wrapping_add(1);
        self.success = self.success.wrapping_add(1);
        match latency_ms {
            Some(ms) => {
                self.latencies.push(ms);
            },
            None => {},
        }
    }

    /// Counts a request that failed.
    pub fn record_error(&mut self)
        ensures
            final(self).sent() as int == (old(self).sent() + 1) % counter_range(),
            final(self).error() as int == (old(self).error() + 1) % counter_range(),
            final(self).success() == old(self).success(),
            final(self).window() == old(self).window(),
            old(self).balanced() ==> final(self).balanced(),
    {
        self.sent = self.sent.wrapping_add(1);
        self.error = self.error.wrapping_add(1);
    }

    /// Counts one unit of work by its outcome.
    pub fn record(&mut self, outcome: Outcome)
        ensures
            final(self).sent() as int == (old(self).sent() + 1) % counter_range(),
            final(self).success() as int == (old(self).success() + success_of(outcome))
                % counter_range(),
            final(self).error() as int == (old(self).error() + error_of(outcome))
                % counter_range(),
            final(self).window() == old(self).window() + latency_of(outcome),
            old(self).balanced() ==> final(self).balanced(),
    {
        match outcome {
            Outcome::Success(latency_ms) => {
                self.record_success(latency_ms);
            },
            Outcome::Error => {
                self.record_error();
            },
        }
        assert(self.window() =~= old(self).window() + latency_of(outcome));
    }

    /// Counts the units of a run by their outcomes, in their order: every
    /// unit as sent, and as a success or as an error.
    pub fn record_all(&mut self, outcomes: &Vec<Outcome>)
        ensures
            final(self).sent() as int == (old(self).sent() + outcomes@.len()) % counter_range(),
            final(self).success() as int == (old(self).success() + successes(outcomes@))
                % counter_range(),
            final(self).error() as int == (old(self).error() + errors(outcomes@))
                % counter_range(),
            final(self).window() == old(self).window() + latencies(outcomes@),
            old(self).balanced() ==> final(self).balanced(),
    {
        let mut i: usize = 0;
        assert(self.window() =~= old(self).window() + latencies(outcomes@.take(0)));
        while i < outcomes.len()
            invariant
                i <= outcomes@.len(),
                self.sent() as int == (old(self).sent() + i) % counter_range(),
                self.success() as int == (old(self).success() + successes(outcomes@.take(i as int)))
                    % counter_range(),
                self.error() as int == (old(self).error() + errors(outcomes@.take(i as int)))
                    % counter_range(),
                self.window() == old(self).window() + latencies(outcomes@.take(i as int)),
                old(self).balanced() ==> self.balanced(),
            decreases outcomes@.len() - i,
        {
            let ghost seen = outcomes@.take(i as int);
            let ghost next = outcomes@.take(i + 1);
            let outcome = outcomes[i];
            proof {
                assert(next.drop_last() =~= seen);
                assert(next.last() == outcome);
                lemma_wrap_add(old(self).sent() as int, i as int, 1);
                lemma_wrap_add(
                    old(self).success() as int,
                    successes(seen) as int,
                    success_of(outcome) as int,
                );
                lemma_wrap_add(
                    old(self).error() as int,
                    errors(seen) as int,
                    error_of(outcome) as int,
                );
            }
            self.record(outcome);
            assert(self.window() =~= old(self).window() + latencies(next));
            i += 1;
        }
        assert(outcomes@.take(i as int) =~= outcomes@);
    }

    /// Requests sent.
    pub fn requests_sent(&self) -> (n: u64)
        ensures
            n == self.sent(),
    {
        self.sent
    }

    /// Requests that succeeded.
    pub fn requests_success(&self) -> (n: u64)
        ensures
            n == self.success(),
    {
        self.success
    }

    /// Requests that failed.
    pub fn requests_error(&self) -> (n: u64)
        ensures
            n == self.error(),
    {
        self.error
    }

    /// Hands out the response times measured since the last report and
    /// starts a new window. The counters stay.
    pub fn drain(&mut self) -> (samples: Vec<u64>)
        ensures
            samples@ == old(self).window(),
            final(self).window() == Seq::<u64>::empty(),
            final(self).sent() == old(self).sent(),
            final(self).success() == old(self).success(),
            final(self).error() == old(self).error(),
    {
        let mut samples: Vec<u64> = Vec::new();
        core::mem::swap(&mut self.latencies, &mut samples);
        samples
    }
}

/// What the periodic reporter remembers between two reports: the number of
/// requests that had been sent at the last one.
pub struct Reporter {
    last_sent: u64,
}

impl Reporter {
    /// The number of requests sent at the last report.
    pub closed spec fn last_sent(&self) -> u64 {
        self.last_sent
    }

    /// The snapshot that a report makes of an accumulator, `elapsed_nanos`
    /// nanoseconds after a report at which `last_sent` requests had been
    /// sent: the counters as they stand, the mean of the window, and the
    /// rate of the requests sent since.
    pub open spec fn snapshot(acc: Accumulator, last_sent: u64, elapsed_nanos: u64) -> WorkerProgress {
        WorkerProgress {
            requests_sent: acc.sent(),
            requests_success: acc.success(),
            requests_error: acc.error(),
            avg_response_time_us: saturate(mean_micros_spec(acc.window())),
            current_rps_milli: saturate(
                rate_milli_spec(
                    ((acc.sent() - last_sent) % counter_range()) as nat,
                    elapsed_nanos as nat,
                ),
            ),
        }
    }

    /// A reporter that has not reported yet.
    pub fn new() -> (reporter: Reporter)
        ensures
            reporter.last_sent() == 0,
    {
        Reporter { last_sent: 0 }
    }

    /// Makes a report `elapsed_nanos` nanoseconds after the last one: takes
    /// the snapshot, empties the window, and remembers how many requests
    /// have been sent.
    pub fn report(&mut self, acc: &mut Accumulator, elapsed_nanos: u64) -> (progress:
        WorkerProgress)
        ensures
            progress == Reporter::snapshot(*old(acc), old(self).last_sent(), elapsed_nanos),
            final(self).last_sent() == old(acc).sent(),
            final(acc).window() == Seq::<u64>::empty(),
            final(acc).sent() == old(acc).sent(),
            final(acc).success() == old(acc).success(),
            final(acc).error() == old(acc).error(),
    {
        let sent = acc.requests_sent();
        let since = sent.wrapping_sub(self.last_sent);
        let samples = acc.drain();
        let progress = WorkerProgress {
            requests_sent: sent,
            requests_success: acc.requests_success(),
            requests_error: acc.requests_error(),
            avg_response_time_us: mean_micros(&samples),
            current_rps_milli: rate_milli(since, elapsed_nanos),
        };
        self.last_sent = sent;
        progress
    }
}

/// When the last notice of a slow response was given, in nanoseconds of a
/// monotonic clock.
pub struct SlowNotice {
    last_notice: u64,
}

impl SlowNotice {
    /// The time of the last notice.
    pub closed spec fn last_notice(&self) -> u64 {
        self.last_notice
    }

    /// Whether a response that took `latency_ms` milliseconds and ended at
    /// time `now` calls for a notice: it was slow, and the last notice is
    /// longer ago than the interval between two notices.
    pub open spec fn due(last_notice: u64, latency_ms: u64, now: u64) -> bool {
        latency_ms > SLOW_REQUEST_MS && now - last_notice > SLOW_NOTICE_INTERVAL_NANOS
    }

    /// Starts at time `now`, as if a notice had just been given.
    pub fn new(now: u64) -> (notice: SlowNotice)
        ensures
            notice.last_notice() == now,
    {
        SlowNotice { last_notice: now }
    }

    /// Decides whether a response calls for a notice, and remembers the
    /// time when it does.
    pub fn observe(&mut self, latency_ms: u64, now: u64) -> (notify: bool)
        ensures
            notify == SlowNotice::due(old(self).last_notice(), latency_ms, now),
            final(self).last_notice() == if notify {
                now
            } else {
                old(self).last_notice()
            },
    {
        if latency_ms > SLOW_REQUEST_MS && now.saturating_sub(self.last_notice)
            > SLOW_NOTICE_INTERVAL_NANOS {
            self.last_notice = now;
            true
        } else {
            false
        }
    }
}

} // verus!
