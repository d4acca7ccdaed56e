use vstd::prelude::*;

use super::errors::BridgeErrorInfo;

verus! {

/// Lifecycle of a chain-wrapped withdrawal.
#[derive(Debug)]
pub enum BridgeStatus {
    Staged,
    Requested,
    FeeQuoted,
    Submitted,
    InProgress,
    Completed,
    Reimbursed,
    Failed(String),
}

pub struct CkWithdrawRecord {
    pub asset_id: u64,
    pub heir_id: u64,
    pub amount: u128,
    pub staged_at: u64,
    pub requested_at: Option<u64>,
    pub completed_at: Option<u64>,
    pub tx_index: Option<u128>,
    pub bridge_status: Option<BridgeStatus>,
    pub bridge_tx_id: Option<String>,
    pub bridge_error: Option<BridgeErrorInfo>,
    pub tx_hash: Option<String>,
    pub effective_fee: Option<u128>,
    pub quoted_fee: Option<u128>,
}

/// Submission bookkeeping paired with a ck-withdraw record; carries the
/// consecutive-miss counter for the terminal "not found" classification.
pub struct BridgeTxInfo {
    pub asset_id: u64,
    pub heir_id: u64,
    pub l1_address: String,
    pub submitted_at: u64,
    pub tx_id: Option<String>,
    pub consecutive_misses: Option<u32>,
    pub notfound_terminal: Option<bool>,
}

} // verus!
