use vstd::prelude::*;

use super::base::{AssetKind, ChainWrappedKind, HoldingMode, NftStandard};

verus! {

/// Canonical asset record stored per user. Fields that do not apply to a
/// particular kind stay `None`.
pub struct Asset {
    pub id: u64,
    pub name: String,
    pub asset_type: String,
    pub kind: AssetKind,
    /// Estimated monetary value in smallest units.
    pub value: u64,
    /// 0 means unknown / not yet fetched.
    pub decimals: u8,
    pub description: String,
    pub created_at: u64,
    pub updated_at: u64,
    pub token_canister: Option<String>,
    pub token_id: Option<u64>,
    pub holding_mode: Option<HoldingMode>,
    pub nft_standard: Option<NftStandard>,
    pub chain_wrapped: Option<ChainWrappedKind>,
    pub file_path: Option<String>,
}

pub struct AssetInput {
    pub name: String,
    pub asset_type: String,
    pub kind: AssetKind,
    pub value: Option<u64>,
    pub decimals: Option<u8>,
    pub description: String,
    pub token_canister: Option<String>,
    pub token_id: Option<u64>,
    pub file_path: Option<String>,
    pub holding_mode: Option<HoldingMode>,
    pub nft_standard: Option<NftStandard>,
    pub chain_wrapped: Option<ChainWrappedKind>,
}

pub struct AssetTokenMetaInput {
    pub token_canister: Option<String>,
    pub token_id: Option<u64>,
    pub holding_mode: Option<HoldingMode>,
    pub decimals: Option<u8>,
    pub nft_standard: Option<NftStandard>,
    pub chain_wrapped: Option<ChainWrappedKind>,
}

} // verus!
