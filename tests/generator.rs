use tpcc_report::cfg::TransactionType;
use tpcc_report::generator::{
    build_deck, build_term_cfg, cfg_targets, check_gen_cfg_params, distinct_ids, fraction_non_zero,
    gen_term_cfg, tx_breakdown, TransactionDefaults,
};

#[test]
fn fraction_is_rounded_down_and_at_least_one() {
    assert_eq!(fraction_non_zero(25, 44), 11);
    assert_eq!(fraction_non_zero(100, 44), 44);
    assert_eq!(fraction_non_zero(10, 4), 1);
    assert_eq!(fraction_non_zero(0, 1), 1);
    assert_eq!(fraction_non_zero(250, 4), 10);
}

#[test]
fn breakdown_of_one_hundred() {
    let b = tx_breakdown(100, &[12000, 11000, 10000, 5000, 4000]);
    assert_eq!(b.len(), 5);
    assert_eq!(b[0].0, TransactionType::NewOrder);
    assert_eq!(
        b[0].1,
        TransactionDefaults { tx_count: 44, keying_time_ms: 18000, think_time_ms: 12000, rbk_count: 1 }
    );
    assert_eq!(
        b[1],
        (
            TransactionType::Payment,
            TransactionDefaults { tx_count: 44, keying_time_ms: 3000, think_time_ms: 11000, rbk_count: 0 }
        )
    );
    for (k, typ) in [TransactionType::OrderStatus, TransactionType::Delivery, TransactionType::StockLevel].iter().enumerate() {
        assert_eq!(b[k + 2].0, *typ);
        assert_eq!(b[k + 2].1.tx_count, 4);
        assert_eq!(b[k + 2].1.keying_time_ms, 2000);
    }
    let total: u32 = b.iter().map(|e| e.1.tx_count).sum();
    assert_eq!(total, 100);
}

#[test]
fn breakdown_of_smallest_deck() {
    let b = tx_breakdown(23, &[1, 2, 3, 4, 5]);
    let counts: Vec<u32> = b.iter().map(|e| e.1.tx_count).collect();
    assert_eq!(counts, vec![10, 10, 1, 1, 1]);
    assert_eq!(b[0].1.rbk_count, 1);
}

#[test]
fn gen_params_are_checked() {
    assert_eq!(
        check_gen_cfg_params(&vec![], 1, 23).unwrap_err().to_string(),
        "Warehouse id list is empty"
    );
    assert_eq!(
        check_gen_cfg_params(&vec![1], 0, 23).unwrap_err().to_string(),
        "Terminal count must be more than 0"
    );
    assert_eq!(
        check_gen_cfg_params(&vec![1], 1, 22).unwrap_err().to_string(),
        "Minimum transaction count must be 23"
    );
    assert!(check_gen_cfg_params(&vec![1], 1, 23).is_ok());
}

#[test]
fn warehouses_are_distinct() {
    assert_eq!(distinct_ids(&vec![3, 1, 3, 2, 1]), vec![3, 1, 2]);
    assert_eq!(distinct_ids(&vec![]), Vec::<u32>::new());
}

#[test]
fn targets_pair_each_warehouse_with_each_terminal() {
    assert_eq!(cfg_targets(&vec![1, 1, 2], 2), vec![(1, 1), (1, 2), (2, 1), (2, 2)]);
    assert_eq!(cfg_targets(&vec![7], 0), Vec::<(u32, u32)>::new());
}

#[test]
fn term_cfg_marks_first_transactions_as_rollbacks() {
    let b = vec![
        (TransactionType::NewOrder, TransactionDefaults { tx_count: 3, keying_time_ms: 18000, think_time_ms: 7, rbk_count: 2 }),
        (TransactionType::Payment, TransactionDefaults { tx_count: 1, keying_time_ms: 3000, think_time_ms: 9, rbk_count: 0 }),
    ];
    let cfg = build_term_cfg(4, 2, &b);
    assert_eq!(cfg.home_warehouse_id, 4);
    assert_eq!(cfg.this_terminal_id, 2);
    let rbk: Vec<bool> = cfg.transactions_to_run.iter().map(|t| t.is_rbk).collect();
    assert_eq!(rbk, vec![true, true, false, false]);
    assert_eq!(cfg.transactions_to_run[3].typ, TransactionType::Payment);
    assert_eq!(cfg.transactions_to_run[3].think_time_ms, 9);
    assert_eq!(cfg.transactions_to_run[0].keying_time_ms, 18000);
}

#[test]
fn gen_term_cfg_holds_whole_deck() {
    let cfg = gen_term_cfg(1, 3, 100, &[1, 2, 3, 4, 5]);
    assert_eq!(cfg.transactions_to_run.len(), 100);
    assert_eq!(cfg.transactions_to_run.iter().filter(|t| t.is_rbk).count(), 1);
    assert_eq!(cfg.transactions_to_run.iter().filter(|t| t.typ == TransactionType::Payment).count(), 44);
}

#[test]
fn deck_repeats_each_type_by_its_count() {
    let b = tx_breakdown(25, &[0; 5]);
    let deck = build_deck(&b);
    assert_eq!(deck.len(), 25);
    assert_eq!(deck.iter().filter(|t| **t == TransactionType::NewOrder).count(), 11);
    assert_eq!(deck[0], TransactionType::NewOrder);
    assert_eq!(deck[24], TransactionType::StockLevel);
}

#[test]
fn gen_params_report_first_failure() {
    assert_eq!(
        check_gen_cfg_params(&vec![], 0, 0).unwrap_err().to_string(),
        "Warehouse id list is empty"
    );
    assert_eq!(
        check_gen_cfg_params(&vec![1], 0, 0).unwrap_err().to_string(),
        "Terminal count must be more than 0"
    );
}
