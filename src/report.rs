//! The report: per-type latency and throughput data, the aggregate over all
//! types, tpmC, and the series of tpmC readings that repeated runs build up.

use vstd::prelude::*;
use vstd::multiset::Multiset;
use vstd::string::*;
use vstd::arithmetic::mul::lemma_mul_inequality;
use crate::aggregate::{
    Aggregator,
    TxStatsContainer,
    TX_COUNT_SAMPLING_INTERVAL_MSEC,
    lemma_steady_total_le_len,
    steady_count_of,
};
use crate::cfg::TransactionType;
use crate::histo::{
    Hdr,
    hdr_count_at,
    hdr_count_between,
    hdr_get_count_at,
    hdr_get_count_between,
    hdr_get_max,
    hdr_get_mean,
    hdr_get_value_at_percentile,
    hdr_max,
    hdr_mean,
    hdr_value_at_percentile,
    hdr_values,
    all_exact,
    is_max_of,
};
use crate::util::Error;

verus! {

/// Number of buckets of the response-time and think-time series.
pub const TX_RT_INTERVAL_COUNT: u64 = 20;

/// Number of buckets of the think-time series.
pub const TT_INTERVAL_COUNT: u64 = 20;

/// The percentile reported as P90.
pub const PERCENTILE_90: u8 = 90;

/// Width, in milliseconds, of the window that one tpm reading counts over.
pub const TPM_SAMPLING_INTERVAL_MSEC: u64 = 60000;

/// Seconds of the tpm window; a steady window no longer than it counts as
/// one minute.
pub const TPM_SAMPLING_INTERVAL_SEC: u64 = 60;

/// What precedes the serialized report in its data file, so that a page can
/// load the file as a script.
pub const DATA_VAR_PREFIX: &'static str = "var data=";

/// How a run's report relates to a report that already exists.
#[derive(Clone, Copy, Debug, PartialEq, Eq, Structural)]
pub enum ReportMode {
    /// Write a report of this run alone.
    New,
    /// Add this run's tpmC reading to an existing report.
    Append,
}

/// Throughput over time of one transaction type, or of all of them.
#[derive(Clone, Debug)]
pub struct ThroughputData {
    /// Start of the steady window, from the earliest terminal start.
    pub steady_begin_time: u64,
    /// End of the steady window, from the earliest terminal start.
    pub steady_end_time: u64,
    /// `[t, n]`: `n` transactions completed in the minute up to `t`.
    pub tpm_series: Vec<[u64; 2]>,
    /// `[t, n]`: `n` transactions completed in the arrival bucket `t`.
    pub tx_count_series: Vec<[u64; 2]>,
}

/// Latency figures of one transaction type over the steady window.
#[derive(Clone, Debug)]
pub struct TxRtData {
    pub tx_rt_p90: u64,
    pub tx_rt_mean: u64,
    pub tx_rt_max: u64,
    /// The largest count of the response-time series.
    pub tx_rt_high: u64,
    /// Number of the steady transactions.
    pub tx_rt_tx_count: u64,
    pub tt_mean: u64,
    /// `[upper bound, count]` of each response-time bucket.
    pub tx_rt_series: Vec<[u64; 2]>,
    /// `[upper bound, count]` of each think-time bucket.
    pub tt_series: Vec<[u64; 2]>,
    pub tpmc: u64,
}

/// Everything the report shows of one transaction type.
#[derive(Clone, Debug)]
pub struct TransactionData {
    pub tx_type: TransactionType,
    pub tx_rt_data: TxRtData,
    pub throughput_data: ThroughputData,
}

/// The report of one or more runs.
#[derive(Clone, Debug)]
pub struct ReportingData {
    /// One entry per transaction type, in the order of `TransactionType::iter`.
    pub tx_data: Box<Vec<TransactionData>>,
    /// Throughput of all types together.
    pub total_tx_data: Box<ThroughputData>,
    /// `[tpmC, NewOrder P90]` of every run, in the order of the runs.
    pub tx_rt_tpm_series: Vec<[u64; 2]>,
    pub total_tpmc: u64,
    pub total_tx_count: u64,
    pub terminal_count: usize,
}

/// tpmC of `tx_count` transactions in a steady window of `steady_length_ms`:
/// per minute of the window, and a window no longer than a minute counts as
/// one minute.
pub open spec fn tpmc_of(steady_length_ms: int, tx_count: int) -> int {
    if steady_length_ms > TPM_SAMPLING_INTERVAL_MSEC {
        tx_count * TPM_SAMPLING_INTERVAL_MSEC / steady_length_ms
    } else {
        tx_count / TPM_SAMPLING_INTERVAL_SEC as int
    }
}

/// tpmC of `tx_count` transactions in a steady window of `steady_length_ms`.
pub fn calculate_tpmc(steady_length_ms: u64, tx_count: u64) -> (r: u64)
    ensures
        r == tpmc_of(steady_length_ms as int, tx_count as int),
        r <= tx_count,
{
    if steady_length_ms > TPM_SAMPLING_INTERVAL_MSEC {
        let c = tx_count as u128 * TPM_SAMPLING_INTERVAL_MSEC as u128;
        proof {
            assert((c as int) / (steady_length_ms as int) <= tx_count) by (nonlinear_arith)
                requires
                    c == tx_count * TPM_SAMPLING_INTERVAL_MSEC,
                    steady_length_ms > TPM_SAMPLING_INTERVAL_MSEC,
                    tx_count >= 0,
            ;
        }
        (c / steady_length_ms as u128) as u64
    } else {
        tx_count / TPM_SAMPLING_INTERVAL_SEC
    }
}

/// Width of one bucket of an axis that spans four times `one_x`, saturating
/// at `u64::MAX`, in `interval_count` buckets.
pub open spec fn interval_size_of(one_x: int, interval_count: int) -> int {
    let four_x = if 4 * one_x > u64::MAX { u64::MAX as int } else { 4 * one_x };
    four_x / interval_count
}

/// Width of one of `interval_count` buckets of an axis that spans four
/// times `one_x`.
pub fn axis_interval_size(one_x: u64, interval_count: u64) -> (r: u64)
    requires
        interval_count > 0,
    ensures
        r == interval_size_of(one_x as int, interval_count as int),
        r * interval_count <= u64::MAX,
{
    let four_x = if one_x > u64::MAX / 4 {
        u64::MAX
    } else {
        one_x * 4
    };
    let r = four_x / interval_count;
    assert(r * interval_count <= four_x) by (nonlinear_arith)
        requires
            r == four_x / interval_count,
            interval_count > 0,
    ;
    r
}

/// Lower end of the minute that ends at `value`, both ends included.
pub open spec fn tpm_lower_bound_of(value: int) -> int {
    if value > TPM_SAMPLING_INTERVAL_MSEC {
        value - TPM_SAMPLING_INTERVAL_MSEC + 1
    } else {
        1
    }
}

/// Lower end of the minute that ends at `value`, both ends included.
pub fn tpm_lower_bound(value: u64) -> (r: u64)
    ensures
        r == tpm_lower_bound_of(value as int),
{
    if value > TPM_SAMPLING_INTERVAL_MSEC {
        value - TPM_SAMPLING_INTERVAL_MSEC + 1
    } else {
        1
    }
}

/// The largest count of a series; 0 for an empty one.
pub open spec fn series_high_of(s: Seq<[u64; 2]>) -> u64
    decreases s.len(),
{
    if s.len() == 0 {
        0
    } else {
        let rest = series_high_of(s.drop_last());
        if s.last()[1] > rest {
            s.last()[1]
        } else {
            rest
        }
    }
}

/// The largest count of a series; 0 for an empty one.
pub fn series_high(s: &Vec<[u64; 2]>) -> (r: u64)
    ensures
        r == series_high_of(s@),
{
    let mut high: u64 = 0;
    let mut i: usize = 0;
    while i < s.len()
        invariant
            i <= s@.len(),
            high == series_high_of(s@.subrange(0, i as int)),
        decreases s@.len() - i,
    {
        proof {
            assert(s@.subrange(0, i + 1).drop_last() =~= s@.subrange(0, i as int));
        }
        let count = s[i][1];
        if count > high {
            high = count;
        }
        i = i + 1;
    }
    proof {
        assert(s@.subrange(0, s@.len() as int) =~= s@);
    }
    high
}

/// Adds the counts of `s` to those of `total`, bucket by bucket, saturating
/// at `u64::MAX`; the keys of `total` stay.
pub fn add_series(total: &mut Vec<[u64; 2]>, s: &Vec<[u64; 2]>)
    requires
        old(total)@.len() == s@.len(),
    ensures
        final(total)@.len() == old(total)@.len(),
        forall|i: int| 0 <= i < s@.len() ==> #[trigger] final(total)@[i][0] == old(total)@[i][0],
        forall|i: int| 0 <= i < s@.len() ==> #[trigger] final(total)@[i][1] == old(total)@[i][1].saturating_add(s@[i][1]),
{
    let mut i: usize = 0;
    while i < s.len()
        invariant
            i <= s@.len(),
            total@.len() == s@.len(),
            forall|j: int| 0 <= j < s@.len() ==> #[trigger] total@[j][0] == old(total)@[j][0],
            forall|j: int| 0 <= j < i ==> #[trigger] total@[j][1] == old(total)@[j][1].saturating_add(s@[j][1]),
            forall|j: int| i <= j < s@.len() ==> #[trigger] total@[j][1] == old(total)@[j][1],
        decreases s@.len() - i,
    {
        let key = total[i][0];
        let sum = total[i][1].saturating_add(s[i][1]);
        total.set(i, [key, sum]);
        i = i + 1;
    }
}

/// Entry `i` of a series of buckets of width `size` over the values `m`:
/// the bucket's upper bound, and the count of the values in
/// `[i * size + 1, (i + 1) * size]`.
pub open spec fn bucket_entry_ok(e: [u64; 2], m: Multiset<u64>, size: int, i: int) -> bool {
    &&& e[0] == (i + 1) * size
    &&& e[1] == hdr_count_between(m, (i * size + 1) as u64, ((i + 1) * size) as u64)
}

/// Entry `i` of a tpm series over the arrival buckets `m`: the end of the
/// `(i + 1)`-th arrival interval and the arrivals in the minute up to it.
pub open spec fn tpm_entry_ok(e: [u64; 2], m: Multiset<u64>, i: int) -> bool {
    let v = (i + 1) * TX_COUNT_SAMPLING_INTERVAL_MSEC;
    &&& e[0] == v
    &&& e[1] == hdr_count_between(m, tpm_lower_bound_of(v) as u64, v as u64)
}

/// Entry `i` of an arrival-count series over the arrival buckets `m`: the
/// end of the `(i + 1)`-th arrival interval and the arrivals in it.
pub open spec fn count_entry_ok(e: [u64; 2], m: Multiset<u64>, i: int) -> bool {
    let v = (i + 1) * TX_COUNT_SAMPLING_INTERVAL_MSEC;
    &&& e[0] == v
    &&& e[1] == hdr_count_at(m, v as u64)
}

/// The `interval_count` buckets of width `interval_size` over the values of
/// `h`, each as `[upper bound, count]`.
pub fn bucket_series(h: &Hdr, interval_size: u64, interval_count: u64) -> (r: Vec<[u64; 2]>)
    requires
        interval_size * interval_count <= u64::MAX,
    ensures
        r@.len() == interval_count,
        forall|i: int| 0 <= i < interval_count ==> #[trigger] bucket_entry_ok(r@[i], hdr_values(*h), interval_size as int, i),
{
    let mut r: Vec<[u64; 2]> = Vec::new();
    let mut i: u64 = 0;
    while i < interval_count
        invariant
            i <= interval_count,
            interval_size * interval_count <= u64::MAX,
            r@.len() == i,
            forall|j: int| 0 <= j < i ==> #[trigger] bucket_entry_ok(r@[j], hdr_values(*h), interval_size as int, j),
        decreases interval_count - i,
    {
        proof {
            lemma_mul_inequality(i + 1, interval_count as int, interval_size as int);
            assert((i + 1) * interval_size == i * interval_size + interval_size) by (nonlinear_arith);
            if interval_size == 0 {
                assert(i * interval_size == 0) by (nonlinear_arith)
                    requires
                        interval_size == 0,
                ;
            }
        }
        let upper = (i + 1) * interval_size;
        let lower = i * interval_size + 1;
        let count = hdr_get_count_between(h, lower, upper);
        r.push([upper, count]);
        i = i + 1;
    }
    r
}

/// The tpm series and the arrival-count series of the arrival buckets of
/// `h`, over `interval_count` arrival intervals.
pub fn throughput_series(h: &Hdr, interval_count: u64) -> (r: (Vec<[u64; 2]>, Vec<[u64; 2]>))
    requires
        interval_count * TX_COUNT_SAMPLING_INTERVAL_MSEC <= u64::MAX,
    ensures
        r.0@.len() == interval_count,
        r.1@.len() == interval_count,
        forall|i: int| 0 <= i < interval_count ==> #[trigger] tpm_entry_ok(r.0@[i], hdr_values(*h), i),
        forall|i: int| 0 <= i < interval_count ==> #[trigger] count_entry_ok(r.1@[i], hdr_values(*h), i),
{
    let mut tpm: Vec<[u64; 2]> = Vec::new();
    let mut counts: Vec<[u64; 2]> = Vec::new();
    let mut i: u64 = 0;
    while i < interval_count
        invariant
            i <= interval_count,
            interval_count * TX_COUNT_SAMPLING_INTERVAL_MSEC <= u64::MAX,
            tpm@.len() == i,
            counts@.len() == i,
            forall|j: int| 0 <= j < i ==> #[trigger] tpm_entry_ok(tpm@[j], hdr_values(*h), j),
            forall|j: int| 0 <= j < i ==> #[trigger] count_entry_ok(counts@[j], hdr_values(*h), j),
        decreases interval_count - i,
    {
        proof {
            lemma_mul_inequality(i + 1, interval_count as int, TX_COUNT_SAMPLING_INTERVAL_MSEC as int);
        }
        let value = (i + 1) * TX_COUNT_SAMPLING_INTERVAL_MSEC;
        let lower = tpm_lower_bound(value);
        let count = hdr_get_count_between(h, lower, value);
        let count_at = hdr_get_count_at(h, value);
        tpm.push([value, count]);
        counts.push([value, count_at]);
        i = i + 1;
    }
    (tpm, counts)
}

/// The latency figures of the container `c`, on axes with buckets of
/// `rt_size` and `tt_size`, and its tpmC over a steady window of
/// `steady_length_ms`.
pub open spec fn tx_rt_data_ok(d: TxRtData, c: TxStatsContainer, rt_size: int, tt_size: int, steady_length_ms: int) -> bool {
    let rt = hdr_values(c.tx_rt_histo);
    let tt = hdr_values(c.tt_histo);
    &&& d.tx_rt_p90 == hdr_value_at_percentile(rt, PERCENTILE_90)
    &&& d.tx_rt_mean == hdr_mean(rt)
    &&& d.tx_rt_max == hdr_max(rt)
    &&& d.tx_rt_high == series_high_of(d.tx_rt_series@)
    &&& d.tx_rt_tx_count == c.steady_count
    &&& d.tt_mean == hdr_mean(tt)
    &&& d.tx_rt_series@.len() == TX_RT_INTERVAL_COUNT
    &&& forall|i: int| 0 <= i < TX_RT_INTERVAL_COUNT ==> #[trigger] bucket_entry_ok(d.tx_rt_series@[i], rt, rt_size, i)
    &&& d.tt_series@.len() == TT_INTERVAL_COUNT
    &&& forall|i: int| 0 <= i < TT_INTERVAL_COUNT ==> #[trigger] bucket_entry_ok(d.tt_series@[i], tt, tt_size, i)
    &&& d.tpmc == tpmc_of(steady_length_ms, c.steady_count as int)
}

/// The throughput of the arrival buckets `m` over `interval_count` arrival
/// intervals, with the steady window `[begin, end)` measured from the
/// earliest terminal start.
pub open spec fn throughput_ok(d: ThroughputData, m: Multiset<u64>, interval_count: int, begin: u64, end: u64) -> bool {
    &&& d.steady_begin_time == begin
    &&& d.steady_end_time == end
    &&& d.tpm_series@.len() == interval_count
    &&& d.tx_count_series@.len() == interval_count
    &&& forall|i: int| 0 <= i < interval_count ==> #[trigger] tpm_entry_ok(d.tpm_series@[i], m, i)
    &&& forall|i: int| 0 <= i < interval_count ==> #[trigger] count_entry_ok(d.tx_count_series@[i], m, i)
}

/// What the report shows of the container `c`.
pub open spec fn transaction_data_ok(
    d: TransactionData,
    c: TxStatsContainer,
    rt_size: int,
    tt_size: int,
    interval_count: int,
    steady_length_ms: int,
    begin: u64,
    end: u64,
) -> bool {
    &&& d.tx_type == c.tx_type
    &&& tx_rt_data_ok(d.tx_rt_data, c, rt_size, tt_size, steady_length_ms)
    &&& throughput_ok(d.throughput_data, hdr_values(c.tx_cnt_histo), interval_count, begin, end)
}

/// The report's data of one transaction type.
pub fn transaction_data(
    c: &TxStatsContainer,
    rt_size: u64,
    tt_size: u64,
    interval_count: u64,
    steady_length_ms: u64,
    begin: u64,
    end: u64,
) -> (r: TransactionData)
    requires
        rt_size * TX_RT_INTERVAL_COUNT <= u64::MAX,
        tt_size * TT_INTERVAL_COUNT <= u64::MAX,
        interval_count * TX_COUNT_SAMPLING_INTERVAL_MSEC <= u64::MAX,
    ensures
        transaction_data_ok(
            r,
            *c,
            rt_size as int,
            tt_size as int,
            interval_count as int,
            steady_length_ms as int,
            begin,
            end,
        ),
        hdr_values(c.tx_rt_histo).len() == 0 ==> {
            &&& r.tx_rt_data.tx_rt_p90 == 0
            &&& r.tx_rt_data.tx_rt_mean == 0
            &&& r.tx_rt_data.tx_rt_max == 0
        },
        hdr_values(c.tt_histo).len() == 0 ==> r.tx_rt_data.tt_mean == 0,
        hdr_values(c.tx_rt_histo).len() > 0 && all_exact(hdr_values(c.tx_rt_histo)) ==> is_max_of(
            hdr_values(c.tx_rt_histo),
            r.tx_rt_data.tx_rt_max,
        ),
        r.tx_rt_data.tpmc <= c.steady_count,
{
    let tx_rt_series = bucket_series(&c.tx_rt_histo, rt_size, TX_RT_INTERVAL_COUNT);
    let tt_series = bucket_series(&c.tt_histo, tt_size, TT_INTERVAL_COUNT);
    let (tpm_series, tx_count_series) = throughput_series(&c.tx_cnt_histo, interval_count);
    let tx_rt_high = series_high(&tx_rt_series);
    TransactionData {
        tx_type: c.tx_type,
        tx_rt_data: TxRtData {
            tx_rt_p90: hdr_get_value_at_percentile(&c.tx_rt_histo, PERCENTILE_90),
            tx_rt_mean: hdr_get_mean(&c.tx_rt_histo),
            tx_rt_max: hdr_get_max(&c.tx_rt_histo),
            tx_rt_high,
            tx_rt_tx_count: c.steady_count,
            tt_mean: hdr_get_mean(&c.tt_histo),
            tx_rt_series,
            tt_series,
            tpmc: calculate_tpmc(steady_length_ms, c.steady_count),
        },
        throughput_data: ThroughputData {
            steady_begin_time: begin,
            steady_end_time: end,
            tpm_series,
            tx_count_series,
        },
    }
}

/// The sum of five counts, saturating at `u64::MAX`.
pub open spec fn sat_sum5(a: u64, b: u64, c: u64, d: u64, e: u64) -> u64 {
    a.saturating_add(b).saturating_add(c).saturating_add(d).saturating_add(e)
}

/// A series with the keys of `s` and every count 0.
fn zeroed_keys(s: &Vec<[u64; 2]>) -> (r: Vec<[u64; 2]>)
    ensures
        r@.len() == s@.len(),
        forall|i: int| #![trigger r@[i]] 0 <= i < s@.len() ==> r@[i][0] == s@[i][0] && r@[i][1] == 0,
{
    let mut r: Vec<[u64; 2]> = Vec::new();
    let mut i: usize = 0;
    while i < s.len()
        invariant
            i <= s@.len(),
            r@.len() == i,
            forall|j: int| #![trigger r@[j]] 0 <= j < i ==> r@[j][0] == s@[j][0] && r@[j][1] == 0,
        decreases s@.len() - i,
    {
        r.push([s[i][0], 0]);
        i = i + 1;
    }
    r
}

/// The bucket-by-bucket sum of five series with the keys of the first,
/// each count saturating at `u64::MAX`.
pub fn sum_series5(
    s0: &Vec<[u64; 2]>,
    s1: &Vec<[u64; 2]>,
    s2: &Vec<[u64; 2]>,
    s3: &Vec<[u64; 2]>,
    s4: &Vec<[u64; 2]>,
) -> (r: Vec<[u64; 2]>)
    requires
        s1@.len() == s0@.len(),
        s2@.len() == s0@.len(),
        s3@.len() == s0@.len(),
        s4@.len() == s0@.len(),
    ensures
        r@.len() == s0@.len(),
        forall|i: int| #![trigger r@[i]] 0 <= i < s0@.len() ==> {
            &&& r@[i][0] == s0@[i][0]
            &&& r@[i][1] == sat_sum5(s0@[i][1], s1@[i][1], s2@[i][1], s3@[i][1], s4@[i][1])
        },
{
    let mut total = zeroed_keys(s0);
    let ghost acc0 = total@;
    add_series(&mut total, s0);
    let ghost acc1 = total@;
    add_series(&mut total, s1);
    let ghost acc2 = total@;
    add_series(&mut total, s2);
    let ghost acc3 = total@;
    add_series(&mut total, s3);
    let ghost acc4 = total@;
    add_series(&mut total, s4);
    assert forall|i: int| #![trigger total@[i]] 0 <= i < s0@.len() implies {
        &&& total@[i][0] == s0@[i][0]
        &&& total@[i][1] == sat_sum5(s0@[i][1], s1@[i][1], s2@[i][1], s3@[i][1], s4@[i][1])
    } by {
        assert(acc0[i][1] == 0 && acc0[i][0] == s0@[i][0]);
        assert(acc1[i][1] == acc0[i][1].saturating_add(s0@[i][1]) && acc1[i][0] == acc0[i][0]);
        assert(acc2[i][1] == acc1[i][1].saturating_add(s1@[i][1]) && acc2[i][0] == acc1[i][0]);
        assert(acc3[i][1] == acc2[i][1].saturating_add(s2@[i][1]) && acc3[i][0] == acc2[i][0]);
        assert(acc4[i][1] == acc3[i][1].saturating_add(s3@[i][1]) && acc4[i][0] == acc3[i][0]);
        assert(total@[i][1] == acc4[i][1].saturating_add(s4@[i][1]) && total@[i][0] == acc4[i][0]);
    }
    total
}

impl Aggregator {
    /// The P90 of NewOrder's running times, which scales the response-time
    /// axes and goes with this run's tpmC reading.
    pub open spec fn new_order_p90(self) -> u64 {
        hdr_value_at_percentile(hdr_values(self.new_order.tx_rt_histo), PERCENTILE_90)
    }

    /// Bucket width of the response-time axes: a twentieth of four times
    /// NewOrder's P90.
    pub open spec fn rt_interval_size(self) -> int {
        interval_size_of(self.new_order_p90() as int, TX_RT_INTERVAL_COUNT as int)
    }

    /// Bucket width of the think-time axes: a twentieth of four times
    /// NewOrder's mean think time.
    pub open spec fn tt_interval_size(self) -> int {
        interval_size_of(hdr_mean(hdr_values(self.new_order.tt_histo)) as int, TT_INTERVAL_COUNT as int)
    }

    /// Number of arrival intervals that the throughput series span: those up
    /// to NewOrder's latest arrival bucket.
    pub open spec fn arrival_interval_count(self) -> int {
        hdr_max(hdr_values(self.new_order.tx_cnt_histo)) as int / TX_COUNT_SAMPLING_INTERVAL_MSEC as int
    }

    /// Length of the steady window; 0 where it ends before it begins.
    pub open spec fn steady_length(self) -> u64 {
        self.steady_end_time_ms.saturating_sub(self.steady_begin_time_ms)
    }

    /// The latest arrival bucket of NewOrder: how long the run went on,
    /// from the earliest terminal start.
    pub fn total_running_time_ms(&self) -> (r: u64)
        ensures
            r == hdr_max(hdr_values(self.new_order.tx_cnt_histo)),
    {
        hdr_get_max(&self.new_order.tx_cnt_histo)
    }

    /// Builds the report of this run, in new mode: the data of every
    /// transaction type, the throughput of all types together, the totals,
    /// and a series that holds this run's tpmC reading alone.
    pub fn finish(&self, terminal_count: usize) -> (r: ReportingData)
        requires
            self.wf(),
        ensures
            r.tx_data@.len() == 5,
            forall|k: int| 0 <= k < 5 ==> #[trigger] transaction_data_ok(
                r.tx_data@[k],
                self.stats(TransactionType::all()[k]),
                self.rt_interval_size(),
                self.tt_interval_size(),
                self.arrival_interval_count(),
                self.steady_length() as int,
                self.steady_begin_time_ms.saturating_sub(self.earliest_start_time_ms),
                self.steady_end_time_ms.saturating_sub(self.earliest_start_time_ms),
            ),
            forall|k: int| 0 <= k < 5 ==> #[trigger] r.tx_data@[k].tx_type == TransactionType::all()[k],
            r.total_tx_data.steady_begin_time == self.steady_begin_time_ms.saturating_sub(self.earliest_start_time_ms),
            r.total_tx_data.steady_end_time == self.steady_end_time_ms.saturating_sub(self.earliest_start_time_ms),
            r.total_tx_data.tpm_series@.len() == self.arrival_interval_count(),
            r.total_tx_data.tx_count_series@.len() == self.arrival_interval_count(),
            forall|i: int| 0 <= i < self.arrival_interval_count() ==> {
                &&& #[trigger] r.total_tx_data.tpm_series@[i][0] == (i + 1) * TX_COUNT_SAMPLING_INTERVAL_MSEC
                &&& r.total_tx_data.tpm_series@[i][1] == sat_sum5(
                    r.tx_data@[0].throughput_data.tpm_series@[i][1],
                    r.tx_data@[1].throughput_data.tpm_series@[i][1],
                    r.tx_data@[2].throughput_data.tpm_series@[i][1],
                    r.tx_data@[3].throughput_data.tpm_series@[i][1],
                    r.tx_data@[4].throughput_data.tpm_series@[i][1],
                )
            },
            forall|i: int| 0 <= i < self.arrival_interval_count() ==> {
                &&& #[trigger] r.total_tx_data.tx_count_series@[i][0] == (i + 1) * TX_COUNT_SAMPLING_INTERVAL_MSEC
                &&& r.total_tx_data.tx_count_series@[i][1] == sat_sum5(
                    r.tx_data@[0].throughput_data.tx_count_series@[i][1],
                    r.tx_data@[1].throughput_data.tx_count_series@[i][1],
                    r.tx_data@[2].throughput_data.tx_count_series@[i][1],
                    r.tx_data@[3].throughput_data.tx_count_series@[i][1],
                    r.tx_data@[4].throughput_data.tx_count_series@[i][1],
                )
            },
            r.total_tx_count == r.tx_data@[0].tx_rt_data.tx_rt_tx_count + r.tx_data@[1].tx_rt_data.tx_rt_tx_count
                + r.tx_data@[2].tx_rt_data.tx_rt_tx_count + r.tx_data@[3].tx_rt_data.tx_rt_tx_count
                + r.tx_data@[4].tx_rt_data.tx_rt_tx_count,
            r.total_tpmc == tpmc_of(self.steady_length() as int, r.total_tx_count as int),
            r.tx_rt_tpm_series@.len() == 1,
            r.tx_rt_tpm_series@[0][0] == r.total_tpmc,
            r.tx_rt_tpm_series@[0][1] == self.new_order_p90(),
            r.terminal_count == terminal_count,
            forall|k: int| 0 <= k < 5 && hdr_values(#[trigger] self.stats(TransactionType::all()[k]).tx_rt_histo).len() == 0 ==> {
                &&& r.tx_data@[k].tx_rt_data.tx_rt_p90 == 0
                &&& r.tx_data@[k].tx_rt_data.tx_rt_mean == 0
                &&& r.tx_data@[k].tx_rt_data.tx_rt_max == 0
            },
            self.records@.len() == 0 ==> r.total_tx_count == 0 && r.total_tpmc == 0,
            forall|k: int| 0 <= k < 5 && hdr_values(#[trigger] self.stats(TransactionType::all()[k]).tx_rt_histo).len() > 0
                && all_exact(hdr_values(self.stats(TransactionType::all()[k]).tx_rt_histo)) ==> is_max_of(
                hdr_values(self.stats(TransactionType::all()[k]).tx_rt_histo),
                r.tx_data@[k].tx_rt_data.tx_rt_max,
            ),
    {
        let earliest = self.earliest_start_time_ms;
        let begin = self.steady_begin_time_ms.saturating_sub(earliest);
        let end = self.steady_end_time_ms.saturating_sub(earliest);
        let steady_length = self.steady_end_time_ms.saturating_sub(self.steady_begin_time_ms);

        let tx_rt_1x = hdr_get_value_at_percentile(&self.new_order.tx_rt_histo, PERCENTILE_90);
        let rt_size = axis_interval_size(tx_rt_1x, TX_RT_INTERVAL_COUNT);
        let tt_1x = hdr_get_mean(&self.new_order.tt_histo);
        let tt_size = axis_interval_size(tt_1x, TT_INTERVAL_COUNT);
        let total_running_time_ms = hdr_get_max(&self.new_order.tx_cnt_histo);
        let n = total_running_time_ms / TX_COUNT_SAMPLING_INTERVAL_MSEC;
        assert(n * TX_COUNT_SAMPLING_INTERVAL_MSEC <= total_running_time_ms) by (nonlinear_arith)
            requires
                n == total_running_time_ms / TX_COUNT_SAMPLING_INTERVAL_MSEC,
        ;

        let d0 = transaction_data(&self.new_order, rt_size, tt_size, n, steady_length, begin, end);
        let d1 = transaction_data(&self.payment, rt_size, tt_size, n, steady_length, begin, end);
        let d2 = transaction_data(&self.order_status, rt_size, tt_size, n, steady_length, begin, end);
        let d3 = transaction_data(&self.delivery, rt_size, tt_size, n, steady_length, begin, end);
        let d4 = transaction_data(&self.stock_level, rt_size, tt_size, n, steady_length, begin, end);

        let total_tpm = sum_series5(
            &d0.throughput_data.tpm_series,
            &d1.throughput_data.tpm_series,
            &d2.throughput_data.tpm_series,
            &d3.throughput_data.tpm_series,
            &d4.throughput_data.tpm_series,
        );
        let total_count = sum_series5(
            &d0.throughput_data.tx_count_series,
            &d1.throughput_data.tx_count_series,
            &d2.throughput_data.tx_count_series,
            &d3.throughput_data.tx_count_series,
            &d4.throughput_data.tx_count_series,
        );
        let ghost m0 = hdr_values(self.new_order.tx_cnt_histo);
        assert forall|i: int| 0 <= i < n implies #[trigger] total_tpm@[i][0] == (i + 1)
            * TX_COUNT_SAMPLING_INTERVAL_MSEC by {
            assert(tpm_entry_ok(d0.throughput_data.tpm_series@[i], m0, i));
        }
        assert forall|i: int| 0 <= i < n implies #[trigger] total_count@[i][0] == (i + 1)
            * TX_COUNT_SAMPLING_INTERVAL_MSEC by {
            assert(count_entry_ok(d0.throughput_data.tx_count_series@[i], m0, i));
        }

        let ghost recs = self.records@;
        let ghost b = self.steady_begin_time_ms as int;
        let ghost e = self.steady_end_time_ms as int;
        proof {
            lemma_steady_total_le_len(recs, b, e);
            assert(self.stats(TransactionType::NewOrder).tracks(TransactionType::NewOrder, recs, earliest as int, b, e));
            assert(self.stats(TransactionType::Payment).tracks(TransactionType::Payment, recs, earliest as int, b, e));
            assert(self.stats(TransactionType::OrderStatus).tracks(TransactionType::OrderStatus, recs, earliest as int, b, e));
            assert(self.stats(TransactionType::Delivery).tracks(TransactionType::Delivery, recs, earliest as int, b, e));
            assert(self.stats(TransactionType::StockLevel).tracks(TransactionType::StockLevel, recs, earliest as int, b, e));
        }
        let total_tx_count = d0.tx_rt_data.tx_rt_tx_count + d1.tx_rt_data.tx_rt_tx_count + d2.tx_rt_data.tx_rt_tx_count
            + d3.tx_rt_data.tx_rt_tx_count + d4.tx_rt_data.tx_rt_tx_count;
        let total_tpmc = calculate_tpmc(steady_length, total_tx_count);

        let mut tx_data: Vec<TransactionData> = Vec::new();
        tx_data.push(d0);
        tx_data.push(d1);
        tx_data.push(d2);
        tx_data.push(d3);
        tx_data.push(d4);
        let mut tx_rt_tpm_series: Vec<[u64; 2]> = Vec::new();
        tx_rt_tpm_series.push([total_tpmc, tx_rt_1x]);

        let r = ReportingData {
            tx_data: Box::new(tx_data),
            total_tx_data: Box::new(ThroughputData {
                steady_begin_time: begin,
                steady_end_time: end,
                tpm_series: total_tpm,
                tx_count_series: total_count,
            }),
            tx_rt_tpm_series,
            total_tpmc,
            total_tx_count,
            terminal_count,
        };
        assert forall|k: int| 0 <= k < 5 implies #[trigger] transaction_data_ok(
            r.tx_data@[k],
            self.stats(TransactionType::all()[k]),
            self.rt_interval_size(),
            self.tt_interval_size(),
            self.arrival_interval_count(),
            self.steady_length() as int,
            begin,
            end,
        ) && r.tx_data@[k].tx_type == TransactionType::all()[k] by {
            if k == 0 {
            } else if k == 1 {
            } else if k == 2 {
            } else if k == 3 {
            } else {
            }
        }
        r
    }
}

/// Whether a prior series already holds a reading above `tpmc`.
pub open spec fn has_higher_reading(series: Seq<[u64; 2]>, tpmc: u64) -> bool {
    exists|i: int| 0 <= i < series.len() && #[trigger] series[i][0] > tpmc
}

/// Whether a prior series already holds a reading above `tpmc`.
pub fn find_higher_reading(series: &Vec<[u64; 2]>, tpmc: u64) -> (r: bool)
    ensures
        r == has_higher_reading(series@, tpmc),
{
    let mut i: usize = 0;
    while i < series.len()
        invariant
            i <= series@.len(),
            forall|j: int| 0 <= j < i ==> #[trigger] series@[j][0] <= tpmc,
        decreases series@.len() - i,
    {
        if series[i][0] > tpmc {
            return true;
        }
        i = i + 1;
    }
    false
}

/// The series of tpmC readings of `prev` followed by those of `current`.
pub open spec fn merged_tpm_series(prev: ReportingData, current: ReportingData) -> Seq<[u64; 2]> {
    prev.tx_rt_tpm_series@ + current.tx_rt_tpm_series@
}

/// Merges this run's report `current` into the prior report `prev`: the
/// merged series of tpmC readings is `prev`'s followed by `current`'s. Where
/// `prev` already holds a reading above this run's tpmC, this run is one more
/// point on the prior report, whose other fields stay; otherwise this run's
/// report is the new one, with the merged series.
pub fn merge_append(prev: ReportingData, current: ReportingData) -> (r: ReportingData)
    ensures
        r.tx_rt_tpm_series@ == merged_tpm_series(prev, current),
        has_higher_reading(prev.tx_rt_tpm_series@, current.total_tpmc) ==> {
            &&& r.tx_data == prev.tx_data
            &&& r.total_tx_data == prev.total_tx_data
            &&& r.total_tpmc == prev.total_tpmc
            &&& r.total_tx_count == prev.total_tx_count
            &&& r.terminal_count == prev.terminal_count
        },
        !has_higher_reading(prev.tx_rt_tpm_series@, current.total_tpmc) ==> {
            &&& r.tx_data == current.tx_data
            &&& r.total_tx_data == current.total_tx_data
            &&& r.total_tpmc == current.total_tpmc
            &&& r.total_tx_count == current.total_tx_count
            &&& r.terminal_count == current.terminal_count
        },
{
    let higher = find_higher_reading(&prev.tx_rt_tpm_series, current.total_tpmc);
    let mut series: Vec<[u64; 2]> = Vec::new();
    let mut i: usize = 0;
    while i < prev.tx_rt_tpm_series.len()
        invariant
            i <= prev.tx_rt_tpm_series@.len(),
            series@ == prev.tx_rt_tpm_series@.subrange(0, i as int),
        decreases prev.tx_rt_tpm_series@.len() - i,
    {
        series.push(prev.tx_rt_tpm_series[i]);
        proof {
            assert(series@ =~= prev.tx_rt_tpm_series@.subrange(0, i + 1));
        }
        i = i + 1;
    }
    let mut j: usize = 0;
    while j < current.tx_rt_tpm_series.len()
        invariant
            j <= current.tx_rt_tpm_series@.len(),
            series@ == prev.tx_rt_tpm_series@ + current.tx_rt_tpm_series@.subrange(0, j as int),
        decreases current.tx_rt_tpm_series@.len() - j,
    {
        series.push(current.tx_rt_tpm_series[j]);
        proof {
            assert(series@ =~= prev.tx_rt_tpm_series@ + current.tx_rt_tpm_series@.subrange(0, j + 1));
        }
        j = j + 1;
    }
    proof {
        assert(current.tx_rt_tpm_series@.subrange(0, current.tx_rt_tpm_series@.len() as int)
            =~= current.tx_rt_tpm_series@);
    }
    if higher {
        ReportingData {
            tx_data: prev.tx_data,
            total_tx_data: prev.total_tx_data,
            tx_rt_tpm_series: series,
            total_tpmc: prev.total_tpmc,
            total_tx_count: prev.total_tx_count,
            terminal_count: prev.terminal_count,
        }
    } else {
        ReportingData {
            tx_data: current.tx_data,
            total_tx_data: current.total_tx_data,
            tx_rt_tpm_series: series,
            total_tpmc: current.total_tpmc,
            total_tx_count: current.total_tx_count,
            terminal_count: current.terminal_count,
        }
    }
}

/// A run in append mode after a first run in new mode: the merged series of
/// tpmC readings holds more readings than the first run's single one, and
/// that reading stays first and unchanged.
pub proof fn lemma_append_keeps_first_reading(first: ReportingData, second: ReportingData)
    requires
        first.tx_rt_tpm_series@.len() == 1,
        second.tx_rt_tpm_series@.len() == 1,
    ensures
        merged_tpm_series(first, second).len() > first.tx_rt_tpm_series@.len(),
        merged_tpm_series(first, second)[0] == first.tx_rt_tpm_series@[0],
{
}

/// Whether `s` begins with `prefix`.
pub open spec fn starts_with(s: Seq<char>, prefix: Seq<char>) -> bool {
    prefix.len() <= s.len() && s.subrange(0, prefix.len() as int) == prefix
}

/// The content of a data file for `json`, the serialized report.
pub fn frame_report_data(json: &str) -> (r: String)
    ensures
        r@ == DATA_VAR_PREFIX@ + json@,
{
    let mut r = String::from_str(DATA_VAR_PREFIX);
    r.append(json);
    r
}

/// The serialized report in the content of a data file: what follows the
/// prefix. A content without the prefix is not a data file of this library.
pub fn strip_data_prefix(content: &str) -> (r: Result<String, Error>)
    ensures
        r is Ok <==> starts_with(content@, DATA_VAR_PREFIX@),
        r is Ok ==> r->Ok_0@ == content@.subrange(DATA_VAR_PREFIX@.len() as int, content@.len() as int),
{
    let prefix = DATA_VAR_PREFIX;
    let plen = prefix.unicode_len();
    let clen = content.unicode_len();
    if clen < plen {
        return Err(Error { err_msg: String::from_str("previous report data file does not begin with the data prefix") });
    }
    let mut i: usize = 0;
    while i < plen
        invariant
            i <= plen,
            plen == prefix@.len(),
            prefix@ == DATA_VAR_PREFIX@,
            plen <= clen,
            clen == content@.len(),
            forall|j: int| 0 <= j < i ==> content@[j] == prefix@[j],
        decreases plen - i,
    {
        if content.get_char(i) != prefix.get_char(i) {
            proof {
                assert(content@.subrange(0, plen as int)[i as int] != prefix@[i as int]);
            }
            return Err(Error { err_msg: String::from_str("previous report data file does not begin with the data prefix") });
        }
        i = i + 1;
    }
    proof {
        assert(content@.subrange(0, plen as int) =~= prefix@);
    }
    Ok(String::from_str(content.substring_char(plen, clen)))
}

/// Checks the report options before any work: append mode needs the path
/// of a prior report whose data file exists.
pub fn validate_report_args(report_mode: ReportMode, report_path: &Option<String>, data_file_exists: bool) -> (r: Result<(), Error>)
    ensures
        r is Ok <==> report_mode == ReportMode::New || (report_path is Some && data_file_exists),
{
    match report_mode {
        ReportMode::New => Ok(()),
        ReportMode::Append => {
            match report_path {
                None => Err(Error { err_msg: String::from_str("report-mode 'Append' requires non-empty path") }),
                Some(_) => {
                    if data_file_exists {
                        Ok(())
                    } else {
                        Err(Error { err_msg: String::from_str("Report path or data file (data.js) does not exist") })
                    }
                },
            }
        },
    }
}

} // verus!
