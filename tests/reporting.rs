use tpcc_report::aggregate::{quantize, Aggregator, TX_COUNT_SAMPLING_INTERVAL_MSEC, TX_SAMPLING_INTERVAL_MSEC};
use tpcc_report::cfg::TransactionType;
use tpcc_report::report::{
    add_series, axis_interval_size, calculate_tpmc, frame_report_data, merge_append, series_high,
    strip_data_prefix, tpm_lower_bound, validate_report_args, ReportMode, ReportingData,
    DATA_VAR_PREFIX,
};
use tpcc_report::terminal::TermLogRecord;
use tpcc_report::window::{analyze_term_group, TermGroupParams};

fn rec(typ: TransactionType, start: u64, tx: u32, tt: u32) -> TermLogRecord {
    TermLogRecord {
        time_started: start,
        typ,
        running_time: tx + 10,
        tx_running_time: tx,
        think_time_ms: tt,
        is_rbk: false,
    }
}

fn params(earliest: u64, begin: u64, end: u64) -> TermGroupParams {
    TermGroupParams {
        term_count: 1,
        log_files_valid: vec!["a.csv".to_string()],
        earliest_start_time_ms: earliest,
        latest_start_time_ms: earliest,
        steady_begin_time_ms: begin,
        steady_end_time_ms: end,
    }
}

fn run(p: &TermGroupParams, recs: &[TermLogRecord], terminals: usize) -> ReportingData {
    let mut agg = Aggregator::new(p);
    for r in recs {
        agg.consume(*r).unwrap();
    }
    agg.finish(terminals)
}

#[test]
fn quantize_rounds_up_to_positive_multiple() {
    assert_eq!(quantize(0, TX_SAMPLING_INTERVAL_MSEC), 100);
    assert_eq!(quantize(1, TX_SAMPLING_INTERVAL_MSEC), 100);
    assert_eq!(quantize(100, TX_SAMPLING_INTERVAL_MSEC), 100);
    assert_eq!(quantize(101, TX_SAMPLING_INTERVAL_MSEC), 200);
    assert_eq!(quantize(30001, TX_COUNT_SAMPLING_INTERVAL_MSEC), 60000);
}

#[test]
fn quantize_idempotent_and_monotonic() {
    for d in [0u64, 1, 99, 100, 101, 250, 999, 1000, 123456] {
        let q = quantize(d, 100);
        assert!(q >= d && q > 0 && q % 100 == 0);
        assert_eq!(quantize(q, 100), q);
        assert!(quantize(d + 1, 100) >= q);
    }
}

#[test]
fn tpmc_over_two_minutes() {
    assert_eq!(calculate_tpmc(120000, 120), 60);
}

#[test]
fn tpmc_of_short_window_counts_one_minute() {
    assert_eq!(calculate_tpmc(60000, 120), 2);
    assert_eq!(calculate_tpmc(0, 59), 0);
    assert_eq!(calculate_tpmc(30000, 600), 10);
}

#[test]
fn axis_interval_is_a_twentieth_of_four_times() {
    assert_eq!(axis_interval_size(100, 20), 20);
    assert_eq!(axis_interval_size(0, 20), 0);
    assert_eq!(axis_interval_size(u64::MAX, 20), u64::MAX / 20);
}

#[test]
fn tpm_window_lower_bound() {
    assert_eq!(tpm_lower_bound(30000), 1);
    assert_eq!(tpm_lower_bound(60000), 1);
    assert_eq!(tpm_lower_bound(90000), 30001);
}

#[test]
fn series_high_and_sum() {
    assert_eq!(series_high(&vec![]), 0);
    assert_eq!(series_high(&vec![[1, 3], [2, 9], [3, 4]]), 9);
    let mut total = vec![[30000, 1], [60000, u64::MAX]];
    add_series(&mut total, &vec![[30000, 5], [60000, 7]]);
    assert_eq!(total, vec![[30000, 6], [60000, u64::MAX]]);
}

#[test]
fn window_of_three_files_two_parseable() {
    let scans = vec![
        ("t1.csv".to_string(), Some(1000)),
        ("t2.csv".to_string(), Some(5000)),
        ("t3.csv".to_string(), None),
    ];
    let p = analyze_term_group(&scans, 60000, 120000);
    assert_eq!(p.earliest_start_time_ms, 1000);
    assert_eq!(p.latest_start_time_ms, 5000);
    assert_eq!(p.log_files_valid.len(), 2);
    assert_eq!(p.log_files_valid, vec!["t1.csv".to_string(), "t2.csv".to_string()]);
    assert_eq!(p.term_count, 2);
    assert_eq!(p.steady_begin_time_ms, 65000);
    assert_eq!(p.steady_end_time_ms, 185000);
}

#[test]
fn window_without_valid_files_is_zero() {
    let scans = vec![("empty.csv".to_string(), None)];
    let p = analyze_term_group(&scans, 10, 20);
    assert_eq!(p.earliest_start_time_ms, 0);
    assert_eq!(p.latest_start_time_ms, 0);
    assert_eq!(p.steady_begin_time_ms, 10);
    assert_eq!(p.steady_end_time_ms, 30);
    assert!(p.log_files_valid.is_empty());
}

#[test]
fn empty_input_report() {
    let p = analyze_term_group(&vec![], 60000, 120000);
    let agg = Aggregator::new(&p);
    let r = agg.finish(p.log_files_valid.len());
    assert_eq!(r.terminal_count, 0);
    assert_eq!(r.total_tx_count, 0);
    assert_eq!(r.total_tpmc, 0);
    assert_eq!(r.tx_data.len(), 5);
    assert!(r.total_tx_data.tpm_series.is_empty());
}

#[test]
fn untouched_histograms_report_zero() {
    let agg = Aggregator::new(&params(0, 1000, 2000));
    let r = agg.finish(0);
    for d in r.tx_data.iter() {
        assert_eq!(d.tx_rt_data.tx_rt_p90, 0);
        assert_eq!(d.tx_rt_data.tx_rt_mean, 0);
        assert_eq!(d.tx_rt_data.tx_rt_max, 0);
        assert_eq!(d.tx_rt_data.tt_mean, 0);
        assert_eq!(d.tx_rt_data.tx_rt_high, 0);
    }
    assert_eq!(r.tx_rt_tpm_series, vec![[0, 0]]);
}

#[test]
fn steady_iff_start_and_finish_in_window() {
    let mut agg = Aggregator::new(&params(0, 10000, 20000));
    // whole cycle inside
    agg.consume(rec(TransactionType::Payment, 10000, 500, 1000)).unwrap();
    assert_eq!(agg.payment.steady_count, 1);
    // finishes at the end of the window, which is not in it
    agg.consume(rec(TransactionType::Payment, 19000, 500, 500)).unwrap();
    assert_eq!(agg.payment.steady_count, 1);
    // starts before the window
    agg.consume(rec(TransactionType::Payment, 9999, 1, 1)).unwrap();
    assert_eq!(agg.payment.steady_count, 1);
    // finishes one millisecond before the end
    agg.consume(rec(TransactionType::Payment, 19000, 499, 500)).unwrap();
    assert_eq!(agg.payment.steady_count, 2);
    assert_eq!(agg.new_order.steady_count, 0);
    assert_eq!(agg.received, 4);
}

#[test]
fn record_before_earliest_is_refused() {
    let mut agg = Aggregator::new(&params(5000, 10000, 20000));
    assert!(agg.consume(rec(TransactionType::NewOrder, 4999, 1, 1)).is_err());
    assert!(agg.consume(rec(TransactionType::NewOrder, u64::MAX - 10, 1, 1)).is_err());
    assert_eq!(agg.received, 0);
    assert!(agg.consume(rec(TransactionType::NewOrder, 5000, 1, 1)).is_ok());
    assert_eq!(agg.received, 1);
}

#[test]
fn total_count_is_sum_of_steady_counts() {
    let p = params(0, 0, 120000);
    let recs = vec![
        rec(TransactionType::NewOrder, 1000, 100, 100),
        rec(TransactionType::NewOrder, 2000, 100, 100),
        rec(TransactionType::Payment, 3000, 100, 100),
        rec(TransactionType::Delivery, 4000, 100, 100),
        rec(TransactionType::StockLevel, 119900, 100, 100),
    ];
    let r = run(&p, &recs, 3);
    let sum: u64 = r.tx_data.iter().map(|d| d.tx_rt_data.tx_rt_tx_count).sum();
    assert_eq!(r.total_tx_count, 4);
    assert_eq!(sum, 4);
    assert_eq!(r.terminal_count, 3);
    assert_eq!(r.tx_data[0].tx_rt_data.tx_rt_tx_count, 2);
    assert_eq!(r.tx_data[4].tx_rt_data.tx_rt_tx_count, 0);
}

#[test]
fn finish_reports_new_order_figures() {
    // a two-minute window holding 120 NewOrder transactions of 150 ms
    let p = params(0, 0, 120000);
    let recs: Vec<TermLogRecord> = (0..120).map(|i| rec(TransactionType::NewOrder, i * 900, 150, 250)).collect();
    let r = run(&p, &recs, 1);
    let no = &r.tx_data[0];
    assert_eq!(no.tx_type, TransactionType::NewOrder);
    assert_eq!(no.tx_rt_data.tx_rt_p90, 200);
    assert_eq!(no.tx_rt_data.tx_rt_mean, 200);
    assert_eq!(no.tx_rt_data.tx_rt_max, 200);
    assert_eq!(no.tx_rt_data.tt_mean, 300);
    assert_eq!(no.tx_rt_data.tpmc, 60);
    assert_eq!(r.total_tpmc, 60);
    // the response-time axis spans 4 x 200 in buckets of 40
    assert_eq!(no.tx_rt_data.tx_rt_series.len(), 20);
    assert_eq!(no.tx_rt_data.tx_rt_series[4], [200, 120]);
    assert_eq!(no.tx_rt_data.tx_rt_series[3], [160, 0]);
    assert_eq!(no.tx_rt_data.tx_rt_high, 120);
    // the think-time axis spans 4 x 300 in buckets of 60
    assert_eq!(no.tx_rt_data.tt_series[4], [300, 120]);
    assert_eq!(r.tx_rt_tpm_series, vec![[60, 200]]);
    // arrivals: the last completes at 107100 + 400, in the bucket ending at 120000
    assert_eq!(no.throughput_data.tx_count_series.len(), 4);
    let counted: u64 = no.throughput_data.tx_count_series.iter().map(|e| e[1]).sum();
    assert_eq!(counted, 120);
    assert_eq!(r.total_tx_data.tx_count_series, no.throughput_data.tx_count_series);
    assert_eq!(no.throughput_data.tpm_series[0][0], 30000);
    assert_eq!(no.throughput_data.tpm_series[1][1], no.throughput_data.tx_count_series[0][1] + no.throughput_data.tx_count_series[1][1]);
}

#[test]
fn totals_sum_types_at_matching_keys() {
    let p = params(0, 0, 60000);
    let recs = vec![
        rec(TransactionType::NewOrder, 1000, 100, 100),
        rec(TransactionType::NewOrder, 40000, 100, 100),
        rec(TransactionType::Payment, 2000, 100, 100),
        rec(TransactionType::OrderStatus, 35000, 100, 100),
    ];
    let r = run(&p, &recs, 1);
    assert_eq!(r.total_tx_data.tx_count_series, vec![[30000, 2], [60000, 2]]);
    assert_eq!(r.total_tx_data.tpm_series, vec![[30000, 2], [60000, 4]]);
}

#[test]
fn degenerate_window_gives_zero_length() {
    let p = params(0, 5000, 1000);
    let r = run(&p, &[rec(TransactionType::NewOrder, 3000, 1, 1)], 1);
    assert_eq!(r.total_tx_count, 0);
    assert_eq!(r.total_tpmc, 0);
    assert_eq!(r.total_tx_data.steady_begin_time, 5000);
    assert_eq!(r.total_tx_data.steady_end_time, 1000);
}

#[test]
fn append_after_new_keeps_first_reading() {
    let p = params(0, 0, 120000);
    let first_recs: Vec<TermLogRecord> = (0..60).map(|i| rec(TransactionType::NewOrder, i * 1000, 150, 250)).collect();
    let first = run(&p, &first_recs, 1);
    assert_eq!(first.tx_rt_tpm_series.len(), 1);
    let first_point = first.tx_rt_tpm_series[0];
    let second_recs: Vec<TermLogRecord> = (0..240).map(|i| rec(TransactionType::NewOrder, i * 400, 350, 250)).collect();
    let second = run(&p, &second_recs, 2);
    assert!(second.total_tpmc > first.total_tpmc);
    let merged = merge_append(first.clone(), second.clone());
    assert!(merged.tx_rt_tpm_series.len() > 1);
    assert_eq!(merged.tx_rt_tpm_series[0], first_point);
    assert_eq!(merged.tx_rt_tpm_series[1], second.tx_rt_tpm_series[0]);
    // no prior reading is higher: this run's report is the new one
    assert_eq!(merged.total_tpmc, second.total_tpmc);
    assert_eq!(merged.terminal_count, 2);
}

#[test]
fn append_below_prior_reading_keeps_prior_report() {
    let p = params(0, 0, 120000);
    let high_recs: Vec<TermLogRecord> = (0..240).map(|i| rec(TransactionType::NewOrder, i * 400, 150, 250)).collect();
    let high = run(&p, &high_recs, 4);
    let low_recs: Vec<TermLogRecord> = (0..10).map(|i| rec(TransactionType::Payment, i * 1000, 150, 250)).collect();
    let low = run(&p, &low_recs, 1);
    let merged = merge_append(high.clone(), low.clone());
    assert_eq!(merged.tx_rt_tpm_series, vec![high.tx_rt_tpm_series[0], low.tx_rt_tpm_series[0]]);
    assert_eq!(merged.total_tpmc, high.total_tpmc);
    assert_eq!(merged.terminal_count, 4);
    assert_eq!(merged.total_tx_count, high.total_tx_count);
}

#[test]
fn data_file_framing_round_trip() {
    let framed = frame_report_data("{\"a\":1}");
    assert_eq!(framed, "var data={\"a\":1}");
    assert!(framed.starts_with(DATA_VAR_PREFIX));
    let inner = strip_data_prefix(&framed).unwrap();
    assert_eq!(inner, "{\"a\":1}");
}

#[test]
fn data_file_without_prefix_is_refused() {
    assert!(strip_data_prefix("{\"a\":1}").is_err());
    assert!(strip_data_prefix("var").is_err());
    assert_eq!(strip_data_prefix("var data=").unwrap(), "");
}

#[test]
fn append_mode_needs_prior_data_file() {
    assert!(validate_report_args(ReportMode::New, &None, false).is_ok());
    let e = validate_report_args(ReportMode::Append, &None, false).unwrap_err();
    assert_eq!(e.to_string(), "report-mode 'Append' requires non-empty path");
    let e = validate_report_args(ReportMode::Append, &Some("r".to_string()), false).unwrap_err();
    assert_eq!(e.to_string(), "Report path or data file (data.js) does not exist");
    assert!(validate_report_args(ReportMode::Append, &Some("r".to_string()), true).is_ok());
}

#[test]
fn total_tpmc_applies_formula_to_total_count() {
    // a window of one minute: each type alone rounds down to 0 per minute
    let p = params(0, 0, 60000);
    let mut recs: Vec<TermLogRecord> = (0..30).map(|i| rec(TransactionType::NewOrder, i * 1000, 100, 100)).collect();
    recs.extend((0..30).map(|i| rec(TransactionType::Payment, i * 1000, 100, 100)));
    let r = run(&p, &recs, 1);
    assert_eq!(r.tx_data[0].tx_rt_data.tpmc, 0);
    assert_eq!(r.tx_data[1].tx_rt_data.tpmc, 0);
    assert_eq!(r.total_tx_count, 60);
    assert_eq!(r.total_tpmc, 1);
    assert_eq!(r.tx_rt_tpm_series[0][0], 1);
}
