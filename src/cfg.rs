//! Transaction types and the per-terminal configuration that the generator
//! writes.

use vstd::prelude::*;

verus! {

/// The closed set of TPC-C transaction types.
#[derive(Clone, Copy, Debug, PartialEq, Eq, Hash, Structural)]
pub enum TransactionType {
    NewOrder,
    Payment,
    OrderStatus,
    Delivery,
    StockLevel,
}

impl TransactionType {
    /// Every transaction type, in the order reports list them.
    pub open spec fn all() -> Seq<TransactionType> {
        seq![
            TransactionType::NewOrder,
            TransactionType::Payment,
            TransactionType::OrderStatus,
            TransactionType::Delivery,
            TransactionType::StockLevel,
        ]
    }

    /// Every transaction type, in the order reports list them.
    pub fn iter() -> (r: Vec<TransactionType>)
        ensures
            r@ == Self::all(),
    {
        let r = vec![
            TransactionType::NewOrder,
            TransactionType::Payment,
            TransactionType::OrderStatus,
            TransactionType::Delivery,
            TransactionType::StockLevel,
        ];
        assert(r@ =~= Self::all());
        r
    }
}

/// One transaction that a terminal is told to run.
#[derive(Clone, Copy, Debug, PartialEq, Eq, Structural)]
pub struct TransactionParams {
    pub typ: TransactionType,
    pub keying_time_ms: u32,
    pub think_time_ms: u32,
    pub is_rbk: bool,
}

/// The configuration of one terminal: its warehouse, its id and its deck of
/// transactions.
#[derive(Clone, Debug)]
pub struct TermControlCfg {
    pub home_warehouse_id: u32,
    pub this_terminal_id: u32,
    pub transactions_to_run: Vec<TransactionParams>,
}

} // verus!
