use vstd::prelude::*;

use super::base::PayoutPreference;

verus! {

pub struct AssetDistribution {
    pub asset_id: u64,
    pub heir_id: u64,
    pub percentage: u8,
}

pub struct DistributionShare {
    pub asset_id: u64,
    pub heir_id: u64,
    pub percentage: u8,
    pub payout_preference: PayoutPreference,
}

/// Heir-chosen override of the default payout preference of a share.
pub struct HeirPayoutOverride {
    pub heir_id: u64,
    pub asset_id: u64,
    pub payout_preference: PayoutPreference,
    pub set_at: u64,
}

} // verus!
