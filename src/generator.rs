//! The transaction mix that terminals are configured with: how many
//! transactions of each type a deck holds, and the configurations and decks
//! built from it. Think times are drawn at random by the caller and handed
//! in.

use vstd::prelude::*;
use crate::cfg::{TermControlCfg, TransactionParams, TransactionType};
use crate::util::Error;

verus! {

/// The smallest deck that holds every transaction type in its share.
pub const MIN_TRANSACTION_COUNT: u32 = 23;

/// The defaults of one transaction type in a deck.
#[derive(Clone, Copy, Debug, PartialEq, Eq, Structural)]
pub struct TransactionDefaults {
    pub tx_count: u32,
    pub keying_time_ms: u32,
    pub think_time_ms: u32,
    /// How many of the `tx_count` transactions are rollbacks.
    pub rbk_count: u32,
}

/// `percent` percent of `base`, rounded down, and at least 1.
pub open spec fn fraction_non_zero_of(base: int, percent: int) -> int {
    let f = base * percent / 100;
    if f < 1 {
        1
    } else {
        f
    }
}

/// `percent` percent of `base`, rounded down, and at least 1.
pub fn fraction_non_zero(base: u32, percent: u32) -> (r: u32)
    requires
        percent <= 100,
    ensures
        r == fraction_non_zero_of(base as int, percent as int),
{
    assert(base as u64 * percent as u64 <= 100 * u32::MAX) by (nonlinear_arith)
        requires
            percent <= 100,
            base <= u32::MAX,
    ;
    let product = base as u64 * percent as u64;
    assert(product / 100 <= base) by (nonlinear_arith)
        requires
            product == base * percent,
            percent <= 100,
            base >= 0,
    ;
    let f = (product / 100) as u32;
    if f < 1 {
        1
    } else {
        f
    }
}

/// Transactions of a deck of `transaction_count` that are not NewOrder:
/// 44% Payment and 4% each of OrderStatus, Delivery and StockLevel, each at
/// least one.
pub open spec fn other_tx_count(transaction_count: int) -> int {
    fraction_non_zero_of(transaction_count, 44) + 3 * fraction_non_zero_of(transaction_count, 4)
}

/// The defaults of type `t` in a deck of `transaction_count` transactions,
/// with the think time `think_time_ms`.
pub open spec fn defaults_of(t: TransactionType, transaction_count: int, think_time_ms: u32) -> TransactionDefaults {
    let new_order_count = transaction_count - other_tx_count(transaction_count);
    match t {
        TransactionType::NewOrder => TransactionDefaults {
            tx_count: new_order_count as u32,
            keying_time_ms: 18000,
            think_time_ms,
            rbk_count: fraction_non_zero_of(new_order_count, 1) as u32,
        },
        TransactionType::Payment => TransactionDefaults {
            tx_count: fraction_non_zero_of(transaction_count, 44) as u32,
            keying_time_ms: 3000,
            think_time_ms,
            rbk_count: 0,
        },
        _ => TransactionDefaults {
            tx_count: fraction_non_zero_of(transaction_count, 4) as u32,
            keying_time_ms: 2000,
            think_time_ms,
            rbk_count: 0,
        },
    }
}

/// The mix of a deck of `transaction_count` transactions with the think
/// times `think_times_ms`, in the order of `TransactionType::iter`.
pub open spec fn breakdown_of(transaction_count: int, think_times_ms: [u32; 5]) -> Seq<(TransactionType, TransactionDefaults)> {
    Seq::new(
        5,
        |k: int| (TransactionType::all()[k], defaults_of(TransactionType::all()[k], transaction_count, think_times_ms[k])),
    )
}

/// The mix of a deck of `transaction_count` transactions: one entry per
/// transaction type, in the order of `TransactionType::iter`, with the think
/// time of the same position in `think_times_ms`. NewOrder takes what the
/// other types leave, and 1% of it, at least one, are rollbacks.
pub fn tx_breakdown(transaction_count: u32, think_times_ms: &[u32; 5]) -> (r: Vec<(TransactionType, TransactionDefaults)>)
    requires
        other_tx_count(transaction_count as int) <= transaction_count,
    ensures
        r@ == breakdown_of(transaction_count as int, *think_times_ms),
{
    let payment = fraction_non_zero(transaction_count, 44);
    let small = fraction_non_zero(transaction_count, 4);
    let new_order_count = transaction_count - payment - small - small - small;
    let mut r: Vec<(TransactionType, TransactionDefaults)> = Vec::new();
    r.push((TransactionType::NewOrder, TransactionDefaults {
        tx_count: new_order_count,
        keying_time_ms: 18000,
        think_time_ms: think_times_ms[0],
        rbk_count: fraction_non_zero(new_order_count, 1),
    }));
    r.push((TransactionType::Payment, TransactionDefaults {
        tx_count: payment,
        keying_time_ms: 3000,
        think_time_ms: think_times_ms[1],
        rbk_count: 0,
    }));
    r.push((TransactionType::OrderStatus, TransactionDefaults {
        tx_count: small,
        keying_time_ms: 2000,
        think_time_ms: think_times_ms[2],
        rbk_count: 0,
    }));
    r.push((TransactionType::Delivery, TransactionDefaults {
        tx_count: small,
        keying_time_ms: 2000,
        think_time_ms: think_times_ms[3],
        rbk_count: 0,
    }));
    r.push((TransactionType::StockLevel, TransactionDefaults {
        tx_count: small,
        keying_time_ms: 2000,
        think_time_ms: think_times_ms[4],
        rbk_count: 0,
    }));
    assert(r@ =~= breakdown_of(transaction_count as int, *think_times_ms));
    r
}

/// Checks what configurations are asked for: some warehouse, some terminal,
/// and a deck of at least `MIN_TRANSACTION_COUNT` transactions, in that
/// order; the error names the first that is missing.
pub fn check_gen_cfg_params(warehouse_id_list: &Vec<u32>, terminal_count: u32, transaction_count: u32) -> (r: Result<(), Error>)
    ensures
        r is Ok <==> warehouse_id_list@.len() > 0 && terminal_count > 0 && transaction_count >= MIN_TRANSACTION_COUNT,
        r is Err ==> r->Err_0.err_msg@ == if warehouse_id_list@.len() == 0 {
            "Warehouse id list is empty"@
        } else if terminal_count == 0 {
            "Terminal count must be more than 0"@
        } else {
            "Minimum transaction count must be 23"@
        },
{
    if warehouse_id_list.len() == 0 {
        return Err(Error { err_msg: String::from_str("Warehouse id list is empty") });
    }
    if terminal_count == 0 {
        return Err(Error { err_msg: String::from_str("Terminal count must be more than 0") });
    }
    if transaction_count < MIN_TRANSACTION_COUNT {
        return Err(Error { err_msg: String::from_str("Minimum transaction count must be 23") });
    }
    Ok(())
}

/// The decks of at least `MIN_TRANSACTION_COUNT` transactions leave NewOrder
/// its share.
pub proof fn lemma_min_deck_fits(transaction_count: int)
    requires
        transaction_count >= MIN_TRANSACTION_COUNT,
    ensures
        other_tx_count(transaction_count) <= transaction_count,
{
    let p = transaction_count * 44 / 100;
    let s = transaction_count * 4 / 100;
    assert(p <= transaction_count * 44 / 100);
    assert(100 * p <= transaction_count * 44 && 100 * s <= transaction_count * 4) by (nonlinear_arith)
        requires
            p == transaction_count * 44 / 100,
            s == transaction_count * 4 / 100,
            transaction_count >= 0,
    ;
}

/// The ids of `ids` without repetitions, each where it first occurs.
pub open spec fn dedup(ids: Seq<u32>) -> Seq<u32>
    decreases ids.len(),
{
    if ids.len() == 0 {
        Seq::empty()
    } else {
        let rest = dedup(ids.drop_last());
        if rest.contains(ids.last()) {
            rest
        } else {
            rest.push(ids.last())
        }
    }
}

/// The distinct warehouse ids of `ids`, in the order they first occur.
pub fn distinct_ids(ids: &Vec<u32>) -> (r: Vec<u32>)
    ensures
        r@ == dedup(ids@),
{
    let mut r: Vec<u32> = Vec::new();
    let mut i: usize = 0;
    while i < ids.len()
        invariant
            i <= ids@.len(),
            r@ == dedup(ids@.subrange(0, i as int)),
        decreases ids@.len() - i,
    {
        let id = ids[i];
        proof {
            assert(ids@.subrange(0, i + 1).drop_last() =~= ids@.subrange(0, i as int));
        }
        let mut found = false;
        let mut j: usize = 0;
        while j < r.len()
            invariant
                j <= r@.len(),
                found <==> exists|m: int| 0 <= m < j && r@[m] == id,
            decreases r@.len() - j,
        {
            if r[j] == id {
                found = true;
            }
            j = j + 1;
        }
        if !found {
            r.push(id);
        }
        i = i + 1;
    }
    proof {
        assert(ids@.subrange(0, ids@.len() as int) =~= ids@);
    }
    r
}

/// Every pair of a warehouse of `ids` and a terminal from 1 to
/// `terminal_count`, warehouse by warehouse.
pub open spec fn targets_of(ids: Seq<u32>, terminal_count: u32) -> Seq<(u32, u32)>
    decreases ids.len(),
{
    if ids.len() == 0 {
        Seq::empty()
    } else {
        targets_of(ids.drop_last(), terminal_count) + Seq::new(
            terminal_count as nat,
            |j: int| (ids.last(), (j + 1) as u32),
        )
    }
}

/// The terminals to configure: each distinct warehouse of
/// `warehouse_id_list` with each terminal from 1 to `terminal_count`.
pub fn cfg_targets(warehouse_id_list: &Vec<u32>, terminal_count: u32) -> (r: Vec<(u32, u32)>)
    ensures
        r@ == targets_of(dedup(warehouse_id_list@), terminal_count),
{
    let ids = distinct_ids(warehouse_id_list);
    let mut r: Vec<(u32, u32)> = Vec::new();
    let mut i: usize = 0;
    while i < ids.len()
        invariant
            i <= ids@.len(),
            r@ == targets_of(ids@.subrange(0, i as int), terminal_count),
        decreases ids@.len() - i,
    {
        let w = ids[i];
        let ghost before = r@;
        let mut t: u32 = 0;
        while t < terminal_count
            invariant
                t <= terminal_count,
                r@ == before + Seq::new(t as nat, |j: int| (w, (j + 1) as u32)),
            decreases terminal_count - t,
        {
            r.push((w, t + 1));
            t = t + 1;
            assert(r@ =~= before + Seq::new(t as nat, |j: int| (w, (j + 1) as u32)));
        }
        proof {
            assert(ids@.subrange(0, i + 1).drop_last() =~= ids@.subrange(0, i as int));
        }
        i = i + 1;
    }
    proof {
        assert(ids@.subrange(0, ids@.len() as int) =~= ids@);
    }
    r
}

/// The transactions of a deck with the mix `b`: for each entry, its count
/// of transactions of its type, the first `rbk_count` of them rollbacks.
pub open spec fn params_of(b: Seq<(TransactionType, TransactionDefaults)>) -> Seq<TransactionParams>
    decreases b.len(),
{
    if b.len() == 0 {
        Seq::empty()
    } else {
        let (typ, d) = b.last();
        params_of(b.drop_last()) + Seq::new(
            d.tx_count as nat,
            |k: int|
                (TransactionParams {
                    typ,
                    keying_time_ms: d.keying_time_ms,
                    think_time_ms: d.think_time_ms,
                    is_rbk: k < d.rbk_count,
                }),
        )
    }
}

/// The configuration of terminal `terminal_id` of warehouse `warehouse_id`,
/// with a deck of the mix `breakdown`.
pub fn build_term_cfg(warehouse_id: u32, terminal_id: u32, breakdown: &Vec<(TransactionType, TransactionDefaults)>) -> (r: TermControlCfg)
    ensures
        r.home_warehouse_id == warehouse_id,
        r.this_terminal_id == terminal_id,
        r.transactions_to_run@ == params_of(breakdown@),
{
    let mut txs: Vec<TransactionParams> = Vec::new();
    let mut i: usize = 0;
    while i < breakdown.len()
        invariant
            i <= breakdown@.len(),
            txs@ == params_of(breakdown@.subrange(0, i as int)),
        decreases breakdown@.len() - i,
    {
        let (typ, d) = breakdown[i];
        let ghost before = txs@;
        let mut rbk_count_left = d.rbk_count;
        let mut k: u32 = 0;
        while k < d.tx_count
            invariant
                k <= d.tx_count,
                rbk_count_left == if k < d.rbk_count { d.rbk_count - k } else { 0 },
                txs@ == before + Seq::new(
                    k as nat,
                    |m: int|
                        (TransactionParams {
                            typ,
                            keying_time_ms: d.keying_time_ms,
                            think_time_ms: d.think_time_ms,
                            is_rbk: m < d.rbk_count,
                        }),
                ),
            decreases d.tx_count - k,
        {
            let is_rbk = rbk_count_left > 0;
            if is_rbk {
                rbk_count_left = rbk_count_left - 1;
            }
            txs.push(TransactionParams {
                typ,
                keying_time_ms: d.keying_time_ms,
                think_time_ms: d.think_time_ms,
                is_rbk,
            });
            k = k + 1;
            assert(txs@ =~= before + Seq::new(
                k as nat,
                |m: int|
                    (TransactionParams {
                        typ,
                        keying_time_ms: d.keying_time_ms,
                        think_time_ms: d.think_time_ms,
                        is_rbk: m < d.rbk_count,
                    }),
            ));
        }
        proof {
            assert(breakdown@.subrange(0, i + 1).drop_last() =~= breakdown@.subrange(0, i as int));
        }
        i = i + 1;
    }
    proof {
        assert(breakdown@.subrange(0, breakdown@.len() as int) =~= breakdown@);
    }
    TermControlCfg { home_warehouse_id: warehouse_id, this_terminal_id: terminal_id, transactions_to_run: txs }
}

/// The configuration of terminal `terminal_id` of warehouse `warehouse_id`
/// with a deck of `transaction_count` transactions, the types in the order
/// of `TransactionType::iter` with the think times of `think_times_ms`.
pub fn gen_term_cfg(warehouse_id: u32, terminal_id: u32, transaction_count: u32, think_times_ms: &[u32; 5]) -> (r: TermControlCfg)
    requires
        transaction_count >= MIN_TRANSACTION_COUNT,
    ensures
        r.home_warehouse_id == warehouse_id,
        r.this_terminal_id == terminal_id,
        r.transactions_to_run@ == params_of(breakdown_of(transaction_count as int, *think_times_ms)),
{
    proof {
        lemma_min_deck_fits(transaction_count as int);
    }
    let breakdown = tx_breakdown(transaction_count, think_times_ms);
    build_term_cfg(warehouse_id, terminal_id, &breakdown)
}

/// The types of a deck with the mix `b`: for each entry, its count of
/// transactions of its type.
pub open spec fn deck_of(b: Seq<(TransactionType, TransactionDefaults)>) -> Seq<TransactionType>
    decreases b.len(),
{
    if b.len() == 0 {
        Seq::empty()
    } else {
        deck_of(b.drop_last()) + Seq::new(b.last().1.tx_count as nat, |k: int| b.last().0)
    }
}

/// The unshuffled deck of transaction types of the mix `breakdown`.
pub fn build_deck(breakdown: &Vec<(TransactionType, TransactionDefaults)>) -> (r: Vec<TransactionType>)
    ensures
        r@ == deck_of(breakdown@),
{
    let mut deck: Vec<TransactionType> = Vec::new();
    let mut i: usize = 0;
    while i < breakdown.len()
        invariant
            i <= breakdown@.len(),
            deck@ == deck_of(breakdown@.subrange(0, i as int)),
        decreases breakdown@.len() - i,
    {
        let (typ, d) = breakdown[i];
        let ghost before = deck@;
        let mut k: u32 = 0;
        while k < d.tx_count
            invariant
                k <= d.tx_count,
                deck@ == before + Seq::new(k as nat, |m: int| typ),
            decreases d.tx_count - k,
        {
            deck.push(typ);
            k = k + 1;
            assert(deck@ =~= before + Seq::new(k as nat, |m: int| typ));
        }
        proof {
            assert(breakdown@.subrange(0, i + 1).drop_last() =~= breakdown@.subrange(0, i as int));
        }
        i = i + 1;
    }
    proof {
        assert(breakdown@.subrange(0, breakdown@.len() as int) =~= breakdown@);
    }
    deck
}

} // verus!
