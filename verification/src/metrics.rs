use vstd::prelude::*;

verus! {

/// The sum of a sequence of durations.
pub open spec fn total_of(times: Seq<u64>) -> nat
    decreases times.len(),
{
    if times.len() == 0 {
        0
    } else {
        total_of(times.drop_last()) + times.last() as nat
    }
}

/// The counters of an arbitrage run: opportunities seen, executions tried and how
/// they ended, and how long each successful execution took.
#[derive(Debug, Clone)]
pub struct ExecutionStats {
    total_opportunities: u64,
    executed: u64,
    successful: u64,
    failed: u64,
    execution_times: Vec<u64>,
}

/// The counters of an [`ExecutionStats`] as mathematical values.
pub struct ExecutionStatsView {
    pub total_opportunities: nat,
    pub executed: nat,
    pub successful: nat,
    pub failed: nat,
    pub execution_times: Seq<u64>,
}

impl View for ExecutionStats {
    type V = ExecutionStatsView;

    closed spec fn view(&self) -> ExecutionStatsView {
        ExecutionStatsView {
            total_opportunities: self.total_opportunities as nat,
            executed: self.executed as nat,
            successful: self.successful as nat,
            failed: self.failed as nat,
            execution_times: self.execution_times@,
        }
    }
}

impl ExecutionStatsView {
    /// Every execution either succeeded or failed, and each success recorded its time.
    pub open spec fn wf(self) -> bool {
        &&& self.executed == self.successful + self.failed
        &&& self.execution_times.len() == self.successful
    }
}

impl ExecutionStats {
    /// No opportunity and no execution yet.
    pub fn new() -> (s: Self)
        ensures
            s@.wf(),
            s@.total_opportunities == 0,
            s@.executed == 0,
            s@.successful == 0,
            s@.failed == 0,
            s@.execution_times == Seq::<u64>::empty(),
    {
        ExecutionStats {
            total_opportunities: 0,
            executed: 0,
            successful: 0,
            failed: 0,
            execution_times: Vec::new(),
        }
    }

    /// Records that an opportunity was found.
    pub fn record_opportunity(&mut self)
        requires
            old(self)@.total_opportunities < u64::MAX,
        ensures
            final(self)@ == (ExecutionStatsView {
                total_opportunities: old(self)@.total_opportunities + 1,
                ..old(self)@
            }),
    {
        self.total_opportunities = self.total_opportunities + 1;
    }

    /// Records a successful execution that took `execution_time_ms` milliseconds.
    pub fn record_success(&mut self, execution_time_ms: u64)
        requires
            old(self)@.wf(),
            old(self)@.executed < u64::MAX,
        ensures
            final(self)@ == (ExecutionStatsView {
                executed: old(self)@.executed + 1,
                successful: old(self)@.successful + 1,
                execution_times: old(self)@.execution_times.push(execution_time_ms),
                ..old(self)@
            }),
    {
        self.executed = self.executed + 1;
        self.successful = self.successful + 1;
        self.execution_times.push(execution_time_ms);
    }

    /// Records a failed execution.
    pub fn record_failure(&mut self)
        requires
            old(self)@.wf(),
            old(self)@.executed < u64::MAX,
        ensures
            final(self)@ == (ExecutionStatsView {
                executed: old(self)@.executed + 1,
                failed: old(self)@.failed + 1,
                ..old(self)@
            }),
    {
        self.executed = self.executed + 1;
        self.failed = self.failed + 1;
    }

    pub fn total_opportunities(&self) -> (n: u64)
        ensures
            n == self@.total_opportunities,
    {
        self.total_opportunities
    }

    pub fn executed(&self) -> (n: u64)
        ensures
            n == self@.executed,
    {
        self.executed
    }

    pub fn successful(&self) -> (n: u64)
        ensures
            n == self@.successful,
    {
        self.successful
    }

    pub fn failed(&self) -> (n: u64)
        ensures
            n == self@.failed,
    {
        self.failed
    }

    /// The recorded execution times, in milliseconds, in the order recorded.
    pub fn execution_times(&self) -> (t: &Vec<u64>)
        ensures
            t@ == self@.execution_times,
    {
        &self.execution_times
    }

    /// The sum of the recorded execution times, in milliseconds; `None` when the sum
    /// does not fit in a `u64`.
    pub fn total_execution_time(&self) -> (t: Option<u64>)
        ensures
            t is None <==> total_of(self@.execution_times) > u64::MAX,
            t matches Some(v) ==> v == total_of(self@.execution_times),
    {
        let times = &self.execution_times;
        let mut sum: u64 = 0;
        let mut i: usize = 0;
        while i < times.len()
            invariant
                i <= times.len(),
                times@ == self@.execution_times,
                sum == total_of(times@.take(i as int)),
            decreases times.len() - i,
        {
            assert(times@.take(i + 1).drop_last() =~= times@.take(i as int));
            match sum.checked_add(times[i]) {
                Some(v) => {
                    sum = v;
                },
                None => {
                    proof {
                        assert(times@.take(i + 1).last() == times@[i as int]);
                        assert(total_of(times@.take(i + 1)) == sum + times@[i as int]);
                        lemma_total_of_prefix(times@, i + 1);
                    }
                    return None;
                },
            }
            i = i + 1;
        }
        assert(times@.take(times.len() as int) =~= times@);
        Some(sum)
    }
}

impl Default for ExecutionStats {
    fn default() -> (s: Self)
        ensures
            s@.wf(),
            s@.total_opportunities == 0,
            s@.executed == 0,
            s@.execution_times == Seq::<u64>::empty(),
    {
        ExecutionStats::new()
    }
}

/// A prefix never sums to more than the whole sequence.
pub proof fn lemma_total_of_prefix(times: Seq<u64>, n: int)
    requires
        0 <= n <= times.len(),
    ensures
        total_of(times.take(n)) <= total_of(times),
    decreases times.len(),
{
    if n < times.len() {
        assert(times.drop_last().take(n) =~= times.take(n));
        lemma_total_of_prefix(times.drop_last(), n);
    } else {
        assert(times.take(n) =~= times);
    }
}

/// Recording keeps the counters consistent: executions are exactly the successes
/// plus the failures, and there is one execution time per success.
pub proof fn lemma_recording_keeps_counts_consistent(s: ExecutionStatsView, t: u64)
    requires
        s.wf(),
    ensures
        (ExecutionStatsView { total_opportunities: s.total_opportunities + 1, ..s }).wf(),
        (ExecutionStatsView {
            executed: s.executed + 1,
            successful: s.successful + 1,
            execution_times: s.execution_times.push(t),
            ..s
        }).wf(),
        (ExecutionStatsView { executed: s.executed + 1, failed: s.failed + 1, ..s }).wf(),
{
}

/// In consistent counters there are never more successes than executions, so the
/// success rate lies between 0 and 1.
pub proof fn lemma_successes_within_executions(s: ExecutionStatsView)
    requires
        s.wf(),
    ensures
        s.successful <= s.executed,
        s.failed <= s.executed,
{
}

/// The hour-of-day bucket (0 to 23) of an hour; later hours wrap around.
pub fn hourly_bucket(hour: usize) -> (b: usize)
    ensures
        b == hour % 24,
        b < 24,
{
    hour % 24
}

/// `h` is the last position holding the largest key.
pub open spec fn is_last_largest(keys: Seq<u64>, h: int) -> bool {
    &&& 0 <= h < keys.len()
    &&& forall|k: int| 0 <= k < keys.len() ==> #[trigger] keys[k] <= keys[h]
    &&& forall|k: int| h < k < keys.len() ==> #[trigger] keys[k] < keys[h]
}

/// The most profitable hour: the last position with the largest key.
///
/// `profit_keys[h]` orders the profit of hour `h`: a larger key is a larger profit.
pub fn best_hour(profit_keys: &Vec<u64>) -> (h: usize)
    requires
        profit_keys.len() > 0,
    ensures
        is_last_largest(profit_keys@, h as int),
{
    let mut best: usize = 0;
    let mut k: usize = 1;
    while k < profit_keys.len()
        invariant
            1 <= k <= profit_keys.len(),
            is_last_largest(profit_keys@.take(k as int), best as int),
        decreases profit_keys.len() - k,
    {
        if profit_keys[k] >= profit_keys[best] {
            best = k;
        }
        k = k + 1;
    }
    assert(profit_keys@.take(profit_keys.len() as int) =~= profit_keys@);
    best
}

} // verus!
