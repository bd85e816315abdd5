//! The record that a terminal writes for every transaction it executed.

use vstd::prelude::*;
use crate::cfg::TransactionType;

verus! {

/// One executed transaction, as read from a terminal's log.
#[derive(Clone, Copy, Debug, PartialEq, Eq, Structural)]
pub struct TermLogRecord {
    /// Absolute start time in milliseconds.
    pub time_started: u64,
    pub typ: TransactionType,
    /// Milliseconds of the full cycle; kept as read, not used by the reports.
    pub running_time: u32,
    /// Milliseconds that the transaction itself ran.
    pub tx_running_time: u32,
    /// Milliseconds of the pause after the transaction.
    pub think_time_ms: u32,
    /// Whether this was an injected rollback.
    pub is_rbk: bool,
}

} // verus!
