use vstd::prelude::*;

verus! {

#[derive(Clone, Copy, PartialEq, Eq, Structural, Debug)]
pub enum BridgeErrorKind {
    FeeShortfall,
    Rejected,
    Timeout,
    Network,
    InvalidCanister,
    Reimbursed,
    RateLimited,
    UnauthorizedChain,
    Other,
}

#[derive(Debug)]
pub struct BridgeErrorInfo {
    pub kind: BridgeErrorKind,
    pub message: String,
}

/// Uniform error taxonomy of the core. `Other` carries stable string codes
/// for terms the core does not classify further.
#[derive(Debug)]
pub enum CivError {
    AssetExists,
    AssetNotFound,
    HeirExists,
    HeirNotFound,
    UserNotFound,
    InvalidHeirPercentage,
    Other(String),
    DistributionAssetNotFound,
    DistributionHeirNotFound,
    SecretInvalid,
    InvalidPayoutPreference,
    EstateLocked,
    EstateNotReady,
    TransferFailed,
    AlreadyExecuted,
    AlreadyTransferred,
    Unauthorized,
    SessionExpired,
    MissingApproval,
    AllowanceNotFoundOnChain,
    AllowanceInsufficient { needed: u128, found: u128 },
    InvalidOwnerPrincipal,
    TransferCallFailed(String),
    NftStandardUnsupported(String),
    NftTransferFailed(String),
    Bridge(BridgeErrorInfo),
    RateLimited,
    ReadinessCacheStale,
    ReadinessIssue(String),
    HeirSessionUnauthorized,
}

impl CivError {
    pub fn bridge_err(kind: BridgeErrorKind, msg: String) -> (r: CivError)
        ensures
            r matches CivError::Bridge(i) && i.kind == kind && i.message == msg,
    {
        CivError::Bridge(BridgeErrorInfo { kind, message: msg })
    }
}

} // verus!
