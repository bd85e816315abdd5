//! The aggregator: it classifies every log record against the steady-state
//! window and deposits it into the histograms of its transaction type.

use vstd::prelude::*;
use vstd::multiset::Multiset;
use vstd::arithmetic::div_mod::{
    lemma_fundamental_div_mod,
    lemma_fundamental_div_mod_converse_div,
    lemma_mod_multiples_basic,
};
use vstd::arithmetic::mul::{lemma_mul_inequality, lemma_mul_inequality_converse};
use crate::cfg::TransactionType;
use crate::histo::{Hdr, hdr_new, hdr_record, hdr_values};
use crate::terminal::TermLogRecord;
use crate::util::Error;
use crate::window::TermGroupParams;

verus! {

/// Bucket width, in milliseconds, of response and think times.
pub const TX_SAMPLING_INTERVAL_MSEC: u64 = 100;

/// Bucket width, in milliseconds, of the arrivals over time.
pub const TX_COUNT_SAMPLING_INTERVAL_MSEC: u64 = 30000;

/// The smallest positive multiple of `interval` that is at least `d`.
pub open spec fn quantized(d: int, interval: int) -> int {
    if d <= 0 {
        interval
    } else {
        ((d + interval - 1) / interval) * interval
    }
}

/// Rounds `d` up to its bucket: the smallest positive multiple of
/// `interval` that is at least `d`.
pub fn quantize(d: u64, interval: u64) -> (r: u64)
    requires
        0 < interval,
        d + interval <= u64::MAX,
    ensures
        r == quantized(d as int, interval as int),
{
    if d == 0 {
        interval
    } else {
        let c = (d + interval - 1) / interval;
        proof {
            lemma_quantized_bounds(d as int, interval as int);
        }
        c * interval
    }
}

/// For a positive `d`, the quantized value lies in `[d, d + interval)`.
proof fn lemma_quantized_bounds(d: int, interval: int)
    requires
        0 < d,
        0 < interval,
    ensures
        d <= quantized(d, interval) < d + interval,
        ((d + interval - 1) / interval) >= 1,
{
    let x = d + interval - 1;
    let c = x / interval;
    lemma_fundamental_div_mod(x, interval);
    assert(interval * c == c * interval) by (nonlinear_arith);
    if c < 1 {
        assert(c <= 0);
        lemma_mul_inequality(c, 0, interval);
        assert(false);
    }
}

/// The quantized value of `d` is the smallest positive multiple of
/// `interval` that is at least `d`, and quantizing it again leaves it as it
/// is.
pub proof fn lemma_quantize_smallest_multiple(d: int, interval: int)
    requires
        0 <= d,
        0 < interval,
    ensures
        quantized(d, interval) > 0,
        quantized(d, interval) >= d,
        quantized(d, interval) % interval == 0,
        forall|k: int| k > 0 && #[trigger] (k * interval) >= d ==> k * interval >= quantized(d, interval),
        quantized(quantized(d, interval), interval) == quantized(d, interval),
{
    let q = quantized(d, interval);
    let c: int = if d == 0 { 1 } else { (d + interval - 1) / interval };
    if d == 0 {
        assert(1 * interval == interval);
    } else {
        lemma_quantized_bounds(d, interval);
    }
    assert(q == c * interval);
    assert(c >= 1);
    lemma_mod_multiples_basic(c, interval);
    assert forall|k: int| k > 0 && #[trigger] (k * interval) >= d implies k * interval >= q by {
        if k * interval < q {
            lemma_mul_inequality_converse(k, c, interval);
            assert(k <= c - 1);
            lemma_mul_inequality(k, c - 1, interval);
            assert((c - 1) * interval == c * interval - interval) by (nonlinear_arith);
            if d > 0 {
                lemma_quantized_bounds(d, interval);
            }
            assert(false);
        }
    }
    lemma_mul_inequality(1, c, interval);
    assert(q > 0);
    assert(q + interval - 1 == c * interval + (interval - 1));
    lemma_fundamental_div_mod_converse_div(q + interval - 1, interval, c, interval - 1);
}

/// A later completion never falls into an earlier bucket.
pub proof fn lemma_quantize_monotonic(d1: int, d2: int, interval: int)
    requires
        0 <= d1 <= d2,
        0 < interval,
    ensures
        quantized(d1, interval) <= quantized(d2, interval),
{
    lemma_quantize_smallest_multiple(d1, interval);
    lemma_quantize_smallest_multiple(d2, interval);
    let q2 = quantized(d2, interval);
    let c2 = q2 / interval;
    lemma_fundamental_div_mod(q2, interval);
    assert(c2 * interval == q2) by (nonlinear_arith)
        requires
            q2 == interval * c2 + q2 % interval,
            q2 % interval == 0,
    ;
    if c2 <= 0 {
        lemma_mul_inequality(c2, 0, interval);
        assert(false);
    }
    assert(c2 > 0 && c2 * interval >= d1);
}

/// Completion of a record's cycle: its start plus the transaction's running
/// time and the think time after it.
pub open spec fn cycle_finish_time(r: TermLogRecord) -> int {
    r.time_started + r.tx_running_time + r.think_time_ms
}

/// Whether `t` lies in the half-open window `[begin, end)`.
pub open spec fn in_window(t: int, begin: int, end: int) -> bool {
    begin <= t < end
}

/// A record counts toward the steady metrics when both its start and its
/// cycle's completion lie in the steady window.
pub open spec fn is_steady(r: TermLogRecord, begin: int, end: int) -> bool {
    in_window(r.time_started as int, begin, end) && in_window(cycle_finish_time(r), begin, end)
}

/// Number of the steady records of type `t` in `recs`.
pub open spec fn steady_count_of(recs: Seq<TermLogRecord>, t: TransactionType, begin: int, end: int) -> nat
    decreases recs.len(),
{
    if recs.len() == 0 {
        0
    } else {
        let r = recs.last();
        steady_count_of(recs.drop_last(), t, begin, end) + if r.typ == t && is_steady(r, begin, end) {
            1nat
        } else {
            0nat
        }
    }
}

/// Quantized transaction running times of the steady records of type `t`.
pub open spec fn steady_rt_values(recs: Seq<TermLogRecord>, t: TransactionType, begin: int, end: int) -> Multiset<u64>
    decreases recs.len(),
{
    if recs.len() == 0 {
        Multiset::empty()
    } else {
        let r = recs.last();
        let m = steady_rt_values(recs.drop_last(), t, begin, end);
        if r.typ == t && is_steady(r, begin, end) {
            m.insert(quantized(r.tx_running_time as int, TX_SAMPLING_INTERVAL_MSEC as int) as u64)
        } else {
            m
        }
    }
}

/// Quantized think times of the steady records of type `t`.
pub open spec fn steady_tt_values(recs: Seq<TermLogRecord>, t: TransactionType, begin: int, end: int) -> Multiset<u64>
    decreases recs.len(),
{
    if recs.len() == 0 {
        Multiset::empty()
    } else {
        let r = recs.last();
        let m = steady_tt_values(recs.drop_last(), t, begin, end);
        if r.typ == t && is_steady(r, begin, end) {
            m.insert(quantized(r.think_time_ms as int, TX_SAMPLING_INTERVAL_MSEC as int) as u64)
        } else {
            m
        }
    }
}

/// The arrival bucket of a record: its cycle's completion, measured from
/// the earliest terminal start and quantized to the arrival interval.
pub open spec fn arrival_bucket(r: TermLogRecord, earliest: int) -> u64 {
    quantized(cycle_finish_time(r) - earliest, TX_COUNT_SAMPLING_INTERVAL_MSEC as int) as u64
}

/// Arrival buckets of all records of type `t`, steady or not.
pub open spec fn arrival_values(recs: Seq<TermLogRecord>, t: TransactionType, earliest: int) -> Multiset<u64>
    decreases recs.len(),
{
    if recs.len() == 0 {
        Multiset::empty()
    } else {
        let r = recs.last();
        let m = arrival_values(recs.drop_last(), t, earliest);
        if r.typ == t {
            m.insert(arrival_bucket(r, earliest))
        } else {
            m
        }
    }
}

proof fn lemma_steady_count_le_len(recs: Seq<TermLogRecord>, t: TransactionType, begin: int, end: int)
    ensures
        steady_count_of(recs, t, begin, end) <= recs.len(),
    decreases recs.len(),
{
    if recs.len() > 0 {
        lemma_steady_count_le_len(recs.drop_last(), t, begin, end);
    }
}

/// Each record is a steady record of at most one type, so the steady counts
/// of all types together do not exceed the number of records.
pub proof fn lemma_steady_total_le_len(recs: Seq<TermLogRecord>, begin: int, end: int)
    ensures
        steady_count_of(recs, TransactionType::NewOrder, begin, end) + steady_count_of(recs, TransactionType::Payment, begin, end)
            + steady_count_of(recs, TransactionType::OrderStatus, begin, end) + steady_count_of(
            recs,
            TransactionType::Delivery,
            begin,
            end,
        ) + steady_count_of(recs, TransactionType::StockLevel, begin, end) <= recs.len(),
    decreases recs.len(),
{
    if recs.len() > 0 {
        lemma_steady_total_le_len(recs.drop_last(), begin, end);
    }
}

/// The statistics of one transaction type.
pub struct TxStatsContainer {
    pub tx_type: TransactionType,
    /// Quantized running times of the steady records.
    pub tx_rt_histo: Hdr,
    /// Quantized think times of the steady records.
    pub tt_histo: Hdr,
    /// Arrival buckets of all records.
    pub tx_cnt_histo: Hdr,
    /// Number of the steady records.
    pub steady_count: u64,
}

impl TxStatsContainer {
    /// Whether the container holds exactly what the records `recs` give to
    /// type `t`.
    pub open spec fn tracks(self, t: TransactionType, recs: Seq<TermLogRecord>, earliest: int, begin: int, end: int) -> bool {
        &&& self.tx_type == t
        &&& hdr_values(self.tx_rt_histo) == steady_rt_values(recs, t, begin, end)
        &&& hdr_values(self.tt_histo) == steady_tt_values(recs, t, begin, end)
        &&& hdr_values(self.tx_cnt_histo) == arrival_values(recs, t, earliest)
        &&& self.steady_count == steady_count_of(recs, t, begin, end)
    }

    /// Empty statistics of the type `transaction_type`.
    pub fn new(transaction_type: &TransactionType) -> (r: Self)
        ensures
            r.tx_type == *transaction_type,
            hdr_values(r.tx_rt_histo) == Multiset::<u64>::empty(),
            hdr_values(r.tt_histo) == Multiset::<u64>::empty(),
            hdr_values(r.tx_cnt_histo) == Multiset::<u64>::empty(),
            r.steady_count == 0,
    {
        TxStatsContainer {
            tx_type: *transaction_type,
            tx_rt_histo: hdr_new(),
            tt_histo: hdr_new(),
            tx_cnt_histo: hdr_new(),
            steady_count: 0,
        }
    }

    /// Records a quantized running time.
    pub fn record_tx_rt(&mut self, value: u64)
        ensures
            hdr_values(final(self).tx_rt_histo) == hdr_values(old(self).tx_rt_histo).insert(value),
            final(self).tt_histo == old(self).tt_histo,
            final(self).tx_cnt_histo == old(self).tx_cnt_histo,
            final(self).tx_type == old(self).tx_type,
            final(self).steady_count == old(self).steady_count,
    {
        hdr_record(&mut self.tx_rt_histo, value);
    }

    /// Records a quantized think time.
    pub fn record_tt(&mut self, value: u64)
        ensures
            hdr_values(final(self).tt_histo) == hdr_values(old(self).tt_histo).insert(value),
            final(self).tx_rt_histo == old(self).tx_rt_histo,
            final(self).tx_cnt_histo == old(self).tx_cnt_histo,
            final(self).tx_type == old(self).tx_type,
            final(self).steady_count == old(self).steady_count,
    {
        hdr_record(&mut self.tt_histo, value);
    }

    /// Records an arrival bucket.
    pub fn record_tx_cnt(&mut self, value: u64)
        ensures
            hdr_values(final(self).tx_cnt_histo) == hdr_values(old(self).tx_cnt_histo).insert(value),
            final(self).tx_rt_histo == old(self).tx_rt_histo,
            final(self).tt_histo == old(self).tt_histo,
            final(self).tx_type == old(self).tx_type,
            final(self).steady_count == old(self).steady_count,
    {
        hdr_record(&mut self.tx_cnt_histo, value);
    }

    /// Counts one more steady record.
    pub fn record_steady(&mut self)
        requires
            old(self).steady_count < u64::MAX,
        ensures
            final(self).steady_count == old(self).steady_count + 1,
            final(self).tx_rt_histo == old(self).tx_rt_histo,
            final(self).tt_histo == old(self).tt_histo,
            final(self).tx_cnt_histo == old(self).tx_cnt_histo,
            final(self).tx_type == old(self).tx_type,
    {
        self.steady_count = self.steady_count + 1;
    }

    /// Deposits one record of this container's type: a steady record adds
    /// its quantized running and think times and one to the steady count;
    /// every record adds its arrival bucket.
    fn deposit(&mut self, r: TermLogRecord, earliest: u64, steady_begin: u64, steady_end: u64)
        requires
            r.typ == old(self).tx_type,
            earliest <= r.time_started,
            cycle_finish_time(r) + TX_COUNT_SAMPLING_INTERVAL_MSEC <= u64::MAX,
            is_steady(r, steady_begin as int, steady_end as int) ==> old(self).steady_count < u64::MAX,
        ensures
            final(self).tx_type == old(self).tx_type,
            is_steady(r, steady_begin as int, steady_end as int) ==> {
                &&& hdr_values(final(self).tx_rt_histo) == hdr_values(old(self).tx_rt_histo).insert(
                    quantized(r.tx_running_time as int, TX_SAMPLING_INTERVAL_MSEC as int) as u64)
                &&& hdr_values(final(self).tt_histo) == hdr_values(old(self).tt_histo).insert(
                    quantized(r.think_time_ms as int, TX_SAMPLING_INTERVAL_MSEC as int) as u64)
                &&& final(self).steady_count == old(self).steady_count + 1
            },
            !is_steady(r, steady_begin as int, steady_end as int) ==> {
                &&& final(self).tx_rt_histo == old(self).tx_rt_histo
                &&& final(self).tt_histo == old(self).tt_histo
                &&& final(self).steady_count == old(self).steady_count
            },
            hdr_values(final(self).tx_cnt_histo) == hdr_values(old(self).tx_cnt_histo).insert(
                arrival_bucket(r, earliest as int)),
    {
        let start = r.time_started;
        let finish = start + r.tx_running_time as u64 + r.think_time_ms as u64;
        if start >= steady_begin && start < steady_end && finish >= steady_begin && finish < steady_end {
            let rt = quantize(r.tx_running_time as u64, TX_SAMPLING_INTERVAL_MSEC);
            self.record_tx_rt(rt);
            let tt = quantize(r.think_time_ms as u64, TX_SAMPLING_INTERVAL_MSEC);
            self.record_tt(tt);
            self.record_steady();
        }
        let cnt = quantize(finish - earliest, TX_COUNT_SAMPLING_INTERVAL_MSEC);
        self.record_tx_cnt(cnt);
    }
}

/// The single consumer of the log records: one statistics container per
/// transaction type, filled as records arrive.
pub struct Aggregator {
    pub earliest_start_time_ms: u64,
    pub steady_begin_time_ms: u64,
    pub steady_end_time_ms: u64,
    pub new_order: TxStatsContainer,
    pub payment: TxStatsContainer,
    pub order_status: TxStatsContainer,
    pub delivery: TxStatsContainer,
    pub stock_level: TxStatsContainer,
    /// Number of the records consumed so far.
    pub received: u64,
    /// The records consumed so far, in order.
    pub records: Ghost<Seq<TermLogRecord>>,
}

impl Aggregator {
    /// The container of type `t`.
    pub open spec fn stats(self, t: TransactionType) -> TxStatsContainer {
        match t {
            TransactionType::NewOrder => self.new_order,
            TransactionType::Payment => self.payment,
            TransactionType::OrderStatus => self.order_status,
            TransactionType::Delivery => self.delivery,
            TransactionType::StockLevel => self.stock_level,
        }
    }

    /// Every container holds exactly what the records consumed so far give
    /// to its type.
    pub open spec fn wf(self) -> bool {
        &&& self.received == self.records@.len()
        &&& forall|t: TransactionType| #[trigger] self.stats(t).tracks(
            t,
            self.records@,
            self.earliest_start_time_ms as int,
            self.steady_begin_time_ms as int,
            self.steady_end_time_ms as int,
        )
    }

    /// Whether `r` can be consumed: its cycle's arrival bucket is
    /// representable, it does not start before the earliest terminal, and
    /// the count of records has room.
    pub open spec fn admits(self, r: TermLogRecord) -> bool {
        &&& self.received < u64::MAX
        &&& self.earliest_start_time_ms <= r.time_started
        &&& cycle_finish_time(r) + TX_COUNT_SAMPLING_INTERVAL_MSEC <= u64::MAX
    }

    /// An aggregator for the window of `params` that has consumed nothing.
    pub fn new(params: &TermGroupParams) -> (r: Self)
        ensures
            r.wf(),
            r.records@ == Seq::<TermLogRecord>::empty(),
            r.earliest_start_time_ms == params.earliest_start_time_ms,
            r.steady_begin_time_ms == params.steady_begin_time_ms,
            r.steady_end_time_ms == params.steady_end_time_ms,
    {
        let r = Aggregator {
            earliest_start_time_ms: params.earliest_start_time_ms,
            steady_begin_time_ms: params.steady_begin_time_ms,
            steady_end_time_ms: params.steady_end_time_ms,
            new_order: TxStatsContainer::new(&TransactionType::NewOrder),
            payment: TxStatsContainer::new(&TransactionType::Payment),
            order_status: TxStatsContainer::new(&TransactionType::OrderStatus),
            delivery: TxStatsContainer::new(&TransactionType::Delivery),
            stock_level: TxStatsContainer::new(&TransactionType::StockLevel),
            received: 0,
            records: Ghost(Seq::empty()),
        };
        assert forall|t: TransactionType| #[trigger] r.stats(t).tracks(
            t,
            r.records@,
            r.earliest_start_time_ms as int,
            r.steady_begin_time_ms as int,
            r.steady_end_time_ms as int,
        ) by {
        }
        r
    }

    /// Consumes one record: a steady record of type `t` adds its quantized
    /// running and think times to `t`'s histograms and one to its steady
    /// count; every record adds its arrival bucket to `t`'s arrival
    /// histogram. A record that cannot be represented is refused with an
    /// error and changes nothing.
    pub fn consume(&mut self, rec: TermLogRecord) -> (res: Result<(), Error>)
        requires
            old(self).wf(),
        ensures
            final(self).wf(),
            final(self).earliest_start_time_ms == old(self).earliest_start_time_ms,
            final(self).steady_begin_time_ms == old(self).steady_begin_time_ms,
            final(self).steady_end_time_ms == old(self).steady_end_time_ms,
            res is Ok <==> old(self).admits(rec),
            res is Ok ==> final(self).records@ == old(self).records@.push(rec),
            res is Err ==> final(self).records@ == old(self).records@,
            res is Ok ==> final(self).stats(rec.typ).steady_count == old(self).stats(rec.typ).steady_count + if is_steady(
                rec,
                old(self).steady_begin_time_ms as int,
                old(self).steady_end_time_ms as int,
            ) {
                1int
            } else {
                0int
            },
            res is Ok && is_steady(rec, old(self).steady_begin_time_ms as int, old(self).steady_end_time_ms as int) ==> {
                &&& hdr_values(final(self).stats(rec.typ).tx_rt_histo) == hdr_values(
                    old(self).stats(rec.typ).tx_rt_histo,
                ).insert(quantized(rec.tx_running_time as int, TX_SAMPLING_INTERVAL_MSEC as int) as u64)
                &&& hdr_values(final(self).stats(rec.typ).tt_histo) == hdr_values(
                    old(self).stats(rec.typ).tt_histo,
                ).insert(quantized(rec.think_time_ms as int, TX_SAMPLING_INTERVAL_MSEC as int) as u64)
            },
            res is Ok && !is_steady(rec, old(self).steady_begin_time_ms as int, old(self).steady_end_time_ms as int) ==> {
                &&& hdr_values(final(self).stats(rec.typ).tx_rt_histo) == hdr_values(old(self).stats(rec.typ).tx_rt_histo)
                &&& hdr_values(final(self).stats(rec.typ).tt_histo) == hdr_values(old(self).stats(rec.typ).tt_histo)
            },
            res is Ok ==> hdr_values(final(self).stats(rec.typ).tx_cnt_histo) == hdr_values(
                old(self).stats(rec.typ).tx_cnt_histo,
            ).insert(arrival_bucket(rec, old(self).earliest_start_time_ms as int)),
            res is Ok ==> forall|t: TransactionType| t != rec.typ ==> #[trigger] final(self).stats(t) == old(self).stats(t),
    {
        let earliest = self.earliest_start_time_ms;
        let begin = self.steady_begin_time_ms;
        let end = self.steady_end_time_ms;
        if self.received == u64::MAX || rec.time_started < earliest || rec.time_started > u64::MAX
            - TX_COUNT_SAMPLING_INTERVAL_MSEC - rec.tx_running_time as u64 - rec.think_time_ms as u64 {
            return Err(Error { err_msg: String::from_str("log record out of range") });
        }
        let ghost recs = self.records@;
        let ghost new_recs = recs.push(rec);
        proof {
            assert(new_recs.drop_last() =~= recs);
            assert(new_recs.last() == rec);
            lemma_steady_count_le_len(recs, rec.typ, begin as int, end as int);
            assert(self.stats(rec.typ).tracks(rec.typ, recs, earliest as int, begin as int, end as int));
        }
        match rec.typ {
            TransactionType::NewOrder => self.new_order.deposit(rec, earliest, begin, end),
            TransactionType::Payment => self.payment.deposit(rec, earliest, begin, end),
            TransactionType::OrderStatus => self.order_status.deposit(rec, earliest, begin, end),
            TransactionType::Delivery => self.delivery.deposit(rec, earliest, begin, end),
            TransactionType::StockLevel => self.stock_level.deposit(rec, earliest, begin, end),
        }
        self.received = self.received + 1;
        self.records = Ghost(new_recs);
        assert forall|t: TransactionType| #[trigger] self.stats(t).tracks(
            t,
            self.records@,
            earliest as int,
            begin as int,
            end as int,
        ) by {
            assert(old(self).stats(t).tracks(t, recs, earliest as int, begin as int, end as int));
        }
        Ok(())
    }
}

} // verus!
