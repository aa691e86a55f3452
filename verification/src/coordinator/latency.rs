//! Latency statistics over calls to workers.

use std::time::Duration;
use vstd::prelude::*;
use vstd::string::*;

verus! {

/// Name of the counter over the bytes of all task plans sent.
pub const PLAN_BYTES_SENT: &'static str = "plan_bytes_sent";

/// Name of the latency statistics over the calls that publish task plans.
pub const PLAN_SEND_LATENCY: &'static str = "plan_send_latency";

/// Task under which the metrics of the coordinator itself are filed.
pub const COORDINATOR_TASK_LABEL: &'static str = "0";

/// What a [`LatencyMetric`] has recorded, in microseconds.
pub struct LatencyTotals {
    pub max: u64,
    pub sum: u64,
    pub count: u64,
}

/// The whole microseconds of a duration, as a counter of 64 bits shows them.
pub open spec fn micros(duration: Duration) -> u64 {
    ((crate::duration::total_nanos(duration) / 1000) % 0x1_0000_0000_0000_0000) as u64
}

impl LatencyTotals {
    /// Nothing recorded.
    pub open spec fn none() -> LatencyTotals {
        LatencyTotals { max: 0, sum: 0, count: 0 }
    }

    /// The totals once a call of `micros` has been recorded.
    pub open spec fn after(self, micros: u64) -> LatencyTotals {
        LatencyTotals {
            max: if micros > self.max {
                micros
            } else {
                self.max
            },
            sum: crate::plan_telemetry::wrap_u64(self.sum + micros),
            count: crate::plan_telemetry::wrap_u64(self.count + 1),
        }
    }

    /// The totals once calls of all of `micros` have been recorded.
    pub open spec fn after_all(self, micros: Seq<u64>) -> LatencyTotals
        decreases micros.len(),
    {
        if micros.len() == 0 {
            self
        } else {
            self.after_all(micros.drop_last()).after(micros.last())
        }
    }

    /// The mean, rounded down; zero when nothing was recorded.
    pub open spec fn average(self) -> u64 {
        self.sum / (if self.count > 0 {
            self.count
        } else {
            1
        })
    }
}

/// The longest and the mean latency of the calls recorded so far.
pub struct LatencyMetric {
    max_name: String,
    avg_name: String,
    max_latency_micros: u64,
    sum_latency_micros: u64,
    count_latency_micros: u64,
}

/// The statistics under which a [`LatencyMetric`] is filed.
pub struct LatencySummary {
    /// Name of the longest latency.
    pub max_name: String,
    /// The longest latency.
    pub max: Duration,
    /// Name of the mean latency.
    pub avg_name: String,
    /// The mean latency.
    pub avg: Duration,
}

impl View for LatencyMetric {
    type V = LatencyTotals;

    closed spec fn view(&self) -> LatencyTotals {
        LatencyTotals {
            max: self.max_latency_micros,
            sum: self.sum_latency_micros,
            count: self.count_latency_micros,
        }
    }
}

impl LatencyMetric {
    /// Name of the longest latency.
    pub closed spec fn max_name(&self) -> Seq<char> {
        self.max_name@
    }

    /// Name of the mean latency.
    pub closed spec fn avg_name(&self) -> Seq<char> {
        self.avg_name@
    }

    /// Starts with nothing recorded.
    pub fn new(name: &str) -> (r: Self)
        ensures
            r@ == LatencyTotals::none(),
            r.max_name() == name@ + "_max"@,
            r.avg_name() == name@ + "_avg"@,
    {
        let mut max_name = name.to_string();
        max_name.append("_max");
        let mut avg_name = name.to_string();
        avg_name.append("_avg");
        LatencyMetric {
            max_name,
            avg_name,
            max_latency_micros: 0,
            sum_latency_micros: 0,
            count_latency_micros: 0,
        }
    }

    /// The names of the longest and of the mean latency.
    pub fn names(&self) -> (r: (String, String))
        ensures
            r.0@ == self.max_name(),
            r.1@ == self.avg_name(),
    {
        (self.max_name.clone(), self.avg_name.clone())
    }

    /// Records a call that took `elapsed`.
    pub fn record(&mut self, elapsed: Duration)
        ensures
            final(self)@ == old(self)@.after(micros(elapsed)),
            final(self).max_name() == old(self).max_name(),
            final(self).avg_name() == old(self).avg_name(),
    {
        let whole: u128 = elapsed.as_micros();
        assert(whole as u64 == whole % 0x1_0000_0000_0000_0000) by (bit_vector);
        let micros: u64 = #[verifier::truncate]
        (whole as u64);
        if micros > self.max_latency_micros {
            self.max_latency_micros = micros;
        }
        self.sum_latency_micros = self.sum_latency_micros.wrapping_add(micros);
        self.count_latency_micros = self.count_latency_micros.wrapping_add(1);
    }

    /// What is filed when no more calls will be recorded.
    pub fn summary(self) -> (r: LatencySummary)
        ensures
            r.max_name@ == self.max_name(),
            r.avg_name@ == self.avg_name(),
            crate::duration::total_nanos(r.max) == self@.max * 1000,
            crate::duration::total_nanos(r.avg) == self@.average() * 1000,
    {
        let count: u64 = if self.count_latency_micros > 0 {
            self.count_latency_micros
        } else {
            1
        };
        LatencySummary {
            max_name: self.max_name,
            max: Duration::from_micros(self.max_latency_micros),
            avg_name: self.avg_name,
            avg: Duration::from_micros(self.sum_latency_micros / count),
        }
    }
}

/// The sum of all latencies.
pub open spec fn latency_sum(micros: Seq<u64>) -> nat
    decreases micros.len(),
{
    if micros.len() == 0 {
        0
    } else {
        latency_sum(micros.drop_last()) + micros.last() as nat
    }
}

proof fn lemma_totals(micros: Seq<u64>)
    requires
        latency_sum(micros) <= u64::MAX,
        micros.len() <= u64::MAX,
    ensures
        ({
            let totals = LatencyTotals::none().after_all(micros);
            &&& totals.sum == latency_sum(micros)
            &&& totals.count == micros.len()
            &&& forall|i: int| 0 <= i < micros.len() ==> #[trigger] micros[i] <= totals.max
            &&& totals.sum <= totals.count * totals.max
        }),
    decreases micros.len(),
{
    if micros.len() > 0 {
        let before = micros.drop_last();
        lemma_totals(before);
        let old_totals = LatencyTotals::none().after_all(before);
        let totals = LatencyTotals::none().after_all(micros);
        let last = micros.last();
        assert(totals.sum == old_totals.sum + last);
        assert(totals.count == old_totals.count + 1);
        assert forall|i: int| 0 <= i < micros.len() implies #[trigger] micros[i] <= totals.max by {
            if i < before.len() {
                assert(before[i] <= old_totals.max);
            }
        }
        assert(totals.sum <= totals.count * totals.max) by (nonlinear_arith)
            requires
                totals.sum == old_totals.sum + last,
                totals.count == old_totals.count + 1,
                old_totals.sum <= old_totals.count * old_totals.max,
                old_totals.max <= totals.max,
                last <= totals.max,
        ;
    }
}

/// As long as the sum of all latencies fits its counter, the maximum bounds every latency and
/// the mean, and the mean is the true mean.
pub proof fn average_within_maximum(micros: Seq<u64>)
    requires
        latency_sum(micros) <= u64::MAX,
        micros.len() <= u64::MAX,
    ensures
        ({
            let totals = LatencyTotals::none().after_all(micros);
            &&& forall|i: int| 0 <= i < micros.len() ==> #[trigger] micros[i] <= totals.max
            &&& totals.average() <= totals.max
            &&& micros.len() > 0 ==> totals.average() == latency_sum(micros) / micros.len()
            &&& micros.len() == 0 ==> totals.average() == 0
        }),
{
    lemma_totals(micros);
    let totals = LatencyTotals::none().after_all(micros);
    if micros.len() > 0 {
        assert(totals.sum / totals.count <= totals.max) by (nonlinear_arith)
            requires
                totals.count > 0,
                totals.sum <= totals.count * totals.max,
        ;
    }
}

/// The whole microseconds of each of `elapsed`.
spec fn all_micros(elapsed: Seq<Duration>) -> Seq<u64> {
    elapsed.map_values(|duration: Duration| micros(duration))
}

proof fn lemma_recorded(
    name: &str,
    begun: LatencyMetric,
    calls: Seq<&mut LatencyMetric>,
    elapsed: Seq<Duration>,
    i: int,
)
    requires
        call_ensures(LatencyMetric::new, (name,), begun),
        calls.len() == elapsed.len(),
        calls.len() > 0 ==> *calls[0] == begun,
        forall|k: int|
            0 <= k < calls.len() ==> call_ensures(
                LatencyMetric::record,
                (#[trigger] calls[k], elapsed[k]),
                (),
            ),
        forall|k: int| 0 < k < calls.len() ==> *(#[trigger] calls[k]) == *final(calls[k - 1]),
        0 <= i < calls.len(),
    ensures
        final(calls[i])@ == LatencyTotals::none().after_all(all_micros(elapsed.take(i + 1))),
        final(calls[i]).max_name() == begun.max_name(),
        final(calls[i]).avg_name() == begun.avg_name(),
    decreases i,
{
    let now = all_micros(elapsed.take(i + 1));
    let before = all_micros(elapsed.take(i));
    assert(call_ensures(LatencyMetric::record, (calls[i], elapsed[i]), ()));
    assert(now.drop_last() =~= before);
    assert(now.last() == micros(elapsed[i]));
    if i > 0 {
        lemma_recorded(name, begun, calls, elapsed, i - 1);
        assert(i - 1 + 1 == i);
        assert(*calls[i] == *final(calls[i - 1]));
    } else {
        assert(before =~= Seq::empty());
    }
    assert(calls[i]@ == LatencyTotals::none().after_all(before));
    assert(final(calls[i])@ == calls[i]@.after(micros(elapsed[i])));
    assert(LatencyTotals::none().after_all(now) == LatencyTotals::none().after_all(before).after(
        micros(elapsed[i]),
    ));
}

/// The sum of the whole microseconds of all of `elapsed`.
pub open spec fn micros_in_all(elapsed: Seq<Duration>) -> int
    decreases elapsed.len(),
{
    if elapsed.len() == 0 {
        0
    } else {
        micros_in_all(elapsed.drop_last()) + crate::duration::total_nanos(elapsed.last()) as int
            / 1000
    }
}

proof fn lemma_micros_in_all(elapsed: Seq<Duration>)
    requires
        micros_in_all(elapsed) <= u64::MAX,
    ensures
        latency_sum(all_micros(elapsed)) == micros_in_all(elapsed),
        forall|i: int|
            0 <= i < elapsed.len() ==> micros(#[trigger] elapsed[i])
                == crate::duration::total_nanos(elapsed[i]) as int / 1000,
        0 <= micros_in_all(elapsed),
    decreases elapsed.len(),
{
    let all = all_micros(elapsed);
    if elapsed.len() > 0 {
        let before = elapsed.drop_last();
        lemma_micros_nonnegative(before);
        lemma_micros_in_all(before);
        assert(all.drop_last() =~= all_micros(before));
        let last = crate::duration::total_nanos(elapsed.last()) as int / 1000;
        assert(0 <= last <= u64::MAX);
        assert(micros(elapsed.last()) == last);
        assert forall|i: int| 0 <= i < elapsed.len() implies micros(#[trigger] elapsed[i])
            == crate::duration::total_nanos(elapsed[i]) as int / 1000 by {
            if i < before.len() {
                assert(before[i] == elapsed[i]);
            }
        }
    }
}

proof fn lemma_micros_nonnegative(elapsed: Seq<Duration>)
    ensures
        0 <= micros_in_all(elapsed),
    decreases elapsed.len(),
{
    if elapsed.len() > 0 {
        lemma_micros_nonnegative(elapsed.drop_last());
    }
}

proof fn lemma_max_is_one(all: Seq<u64>)
    ensures
        all.len() > 0 ==> exists|i: int|
            0 <= i < all.len() && #[trigger] all[i] == LatencyTotals::none().after_all(all).max,
        all.len() == 0 ==> LatencyTotals::none().after_all(all).max == 0,
    decreases all.len(),
{
    if all.len() > 0 {
        let before = all.drop_last();
        lemma_max_is_one(before);
        let old_max = LatencyTotals::none().after_all(before).max;
        let max = LatencyTotals::none().after_all(all).max;
        if all.last() == max {
            assert(all[all.len() - 1] == max);
        } else if before.len() > 0 {
            let i = choose|i: int| 0 <= i < before.len() && #[trigger] before[i] == old_max;
            assert(all[i] == max);
        }
    }
}

/// Over all calls that were recorded, one by one: the longest latency is that of one of them and
/// none is longer, and the mean is the sum of all of them divided by their number, each in whole
/// microseconds. Both are filed under the name of the metric.
pub proof fn latencies_are_summed_up(
    name: &str,
    begun: LatencyMetric,
    calls: Seq<&mut LatencyMetric>,
    elapsed: Seq<Duration>,
    summary: LatencySummary,
)
    requires
        call_ensures(LatencyMetric::new, (name,), begun),
        calls.len() == elapsed.len(),
        0 < calls.len() <= u64::MAX,
        *calls[0] == begun,
        forall|k: int|
            0 <= k < calls.len() ==> call_ensures(
                LatencyMetric::record,
                (#[trigger] calls[k], elapsed[k]),
                (),
            ),
        forall|k: int| 0 < k < calls.len() ==> *(#[trigger] calls[k]) == *final(calls[k - 1]),
        call_ensures(LatencyMetric::summary, (*final(calls[calls.len() - 1]),), summary),
        micros_in_all(elapsed) <= u64::MAX,
    ensures
        summary.max_name@ == name@ + "_max"@,
        summary.avg_name@ == name@ + "_avg"@,
        forall|i: int|
            0 <= i < elapsed.len() ==> crate::duration::total_nanos(#[trigger] elapsed[i]) as int
                / 1000 * 1000 <= crate::duration::total_nanos(summary.max),
        exists|i: int|
            0 <= i < elapsed.len() && crate::duration::total_nanos(#[trigger] elapsed[i]) as int
                / 1000 * 1000 == crate::duration::total_nanos(summary.max),
        crate::duration::total_nanos(summary.avg) == micros_in_all(elapsed)
            / elapsed.len() as int * 1000,
{
    let all = all_micros(elapsed);
    let last = calls.len() - 1;
    lemma_recorded(name, begun, calls, elapsed, last);
    assert(elapsed.take(last + 1) =~= elapsed);
    lemma_micros_in_all(elapsed);
    average_within_maximum(all);
    lemma_max_is_one(all);
    let totals = LatencyTotals::none().after_all(all);
    assert forall|i: int| 0 <= i < elapsed.len() implies crate::duration::total_nanos(
        #[trigger] elapsed[i],
    ) as int / 1000 * 1000 <= crate::duration::total_nanos(summary.max) by {
        assert(all[i] == micros(elapsed[i]));
    }
    let i = choose|i: int| 0 <= i < all.len() && #[trigger] all[i] == totals.max;
    assert(all[i] == micros(elapsed[i]));
}

} // verus!
