use vstd::prelude::*;

use super::base::PayoutPreference;

verus! {

/// Structured classification of a transfer failure; the legacy string code
/// stays on the record for human detail.
#[derive(Clone, Copy, PartialEq, Eq, Structural, Debug)]
pub enum TransferErrorKind {
    MissingApproval,
    AllowanceNotFoundOnChain,
    InvalidOwnerPrincipal,
    MissingDestinationPrincipal,
    NftDip721,
    NftExt,
    NftUnsupported,
    TransferCallFailed,
    Other,
}

#[derive(Clone, Copy, PartialEq, Eq, Structural, Debug)]
pub enum TransferKind {
    Fungible,
    Nft,
    Document,
}

/// One entry of the append-only transfer ledger.
pub struct TransferRecord {
    pub id: u64,
    pub timestamp: u64,
    pub asset_id: Option<u64>,
    pub heir_id: Option<u64>,
    pub kind: TransferKind,
    pub amount: Option<u128>,
    pub payout_preference: Option<PayoutPreference>,
    pub note: Option<String>,
    pub tx_index: Option<u128>,
    pub error: Option<String>,
    pub error_kind: Option<TransferErrorKind>,
}

/// Persisted result of a Merkle attestation over the transfer ledger.
pub struct LedgerAttestation {
    pub merkle_root: Vec<u8>,
    pub computed_at: u64,
    pub transfer_count: u64,
}

} // verus!
