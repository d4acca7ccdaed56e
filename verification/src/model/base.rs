use vstd::prelude::*;

verus! {

#[derive(Clone, Copy, PartialEq, Eq, Structural, Debug)]
pub enum AssetKind {
    Fungible,
    ChainWrapped,
    Nft,
    Document,
}

#[derive(Clone, Copy, PartialEq, Eq, Structural, Debug)]
pub enum HoldingMode {
    Escrow,
    Approval,
}

#[derive(Clone, Copy, PartialEq, Eq, Structural, Debug)]
pub enum PayoutPreference {
    ToPrincipal,
    ToCustody,
    CkWithdraw,
}

#[derive(Clone, Copy, PartialEq, Eq, Structural, Debug)]
pub enum HeirSecretStatus {
    Pending,
    Verified,
}

#[derive(Clone, Copy, PartialEq, Eq, Structural, Debug)]
pub enum ChainWrappedKind {
    CkBtc,
    CkEth,
}

#[derive(Clone, Debug, PartialEq, Eq)]
pub enum NftStandard {
    Dip721,
    Ext,
    Other(String),
}

/// Salted hash of the heir's identity secret, with the attempt throttle state.
pub struct HeirIdentitySecret {
    pub kind: String,
    pub hash: Vec<u8>,
    pub salt: Vec<u8>,
    pub status: HeirSecretStatus,
    pub updated_at: u64,
    pub attempts: u32,
    pub last_attempt_at: Option<u64>,
    pub next_allowed_attempt_at: Option<u64>,
}

} // verus!
