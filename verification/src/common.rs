//! Shared guards and lookup helpers over the user aggregate's collections.

use vstd::prelude::*;

use crate::model::asset::Asset;
use crate::model::bridge::{BridgeTxInfo, CkWithdrawRecord};
use crate::model::custody::{
    ApprovalRecord, CustodyRecord, EscrowRecord, FungibleCustodyRecord, NftCustodyRecord,
};
use crate::model::distribution::{AssetDistribution, DistributionShare, HeirPayoutOverride};
use crate::model::document::{DocumentEntry, DocumentUploadSession};
use crate::model::errors::CivError;
use crate::model::heir::{Heir, HeirEx};
use crate::model::integrity::{ClaimLink, HeirSession};
use crate::model::payout::TransferRecord;
use crate::model::user::{EstatePhase, PayoutOverrideRate, User};
use crate::retry::RetryItem;

verus! {

/// Phases in their lifecycle order.
pub open spec fn phase_num(p: EstatePhase) -> int {
    match p {
        EstatePhase::Draft => 0,
        EstatePhase::Warning => 1,
        EstatePhase::Locked => 2,
        EstatePhase::Executed => 3,
    }
}

/// `a` comes no later than `b` in the lifecycle.
pub open spec fn phase_le(a: EstatePhase, b: EstatePhase) -> bool {
    phase_num(a) <= phase_num(b)
}

/// Mutations to assets, heirs, distributions, approvals and escrow are only
/// accepted while the estate is in Draft or Warning.
pub open spec fn is_mutable(u: User) -> bool {
    u.phase == EstatePhase::Draft || u.phase == EstatePhase::Warning
}

/// Guard that the estate is still mutable.
pub fn assert_mutable(u: &User) -> (r: Result<(), CivError>)
    ensures
        r is Ok <==> is_mutable(*u),
        r is Err ==> r matches Err(CivError::EstateLocked),
{
    match u.phase {
        EstatePhase::Draft | EstatePhase::Warning => Ok(()),
        _ => Err(CivError::EstateLocked),
    }
}

/// `i` is the index of the first asset with this id.
pub open spec fn first_asset_at(s: Seq<Asset>, id: u64, i: int) -> bool {
    0 <= i < s.len() && s[i].id == id && forall|j: int| 0 <= j < i ==> s[j].id != id
}

/// `i` is the index of the first heir with this id.
pub open spec fn first_heir_at(s: Seq<HeirEx>, id: u64, i: int) -> bool {
    0 <= i < s.len() && s[i].id == id && forall|j: int| 0 <= j < i ==> s[j].id != id
}

/// `i` is the index of the first share of this pair.
pub open spec fn first_share_at(s: Seq<DistributionShare>, asset_id: u64, heir_id: u64, i: int) -> bool {
    &&& 0 <= i < s.len()
    &&& s[i].asset_id == asset_id
    &&& s[i].heir_id == heir_id
    &&& forall|j: int|
        0 <= j < i ==> !(s[j].asset_id == asset_id && s[j].heir_id == heir_id)
}

/// `i` is the index of the first approval of this asset.
pub open spec fn first_approval_at(s: Seq<ApprovalRecord>, asset_id: u64, i: int) -> bool {
    0 <= i < s.len() && s[i].asset_id == asset_id && forall|j: int|
        0 <= j < i ==> s[j].asset_id != asset_id
}

/// `i` is the index of the first transfer with this id.
pub open spec fn first_transfer_at(s: Seq<TransferRecord>, id: u64, i: int) -> bool {
    0 <= i < s.len() && s[i].id == id && forall|j: int| 0 <= j < i ==> s[j].id != id
}

/// `i` is the index of the first session with this id.
pub open spec fn first_session_at(s: Seq<HeirSession>, id: u64, i: int) -> bool {
    0 <= i < s.len() && s[i].id == id && forall|j: int| 0 <= j < i ==> s[j].id != id
}

/// `i` is the index of the first ck-withdraw record of the pair.
pub open spec fn first_ckw_at(s: Seq<CkWithdrawRecord>, asset_id: u64, heir_id: u64, i: int) -> bool {
    &&& 0 <= i < s.len()
    &&& s[i].asset_id == asset_id
    &&& s[i].heir_id == heir_id
    &&& forall|j: int| 0 <= j < i ==> !(s[j].asset_id == asset_id && s[j].heir_id == heir_id)
}

/// `i` is the index of the first bridge submission info of the pair.
pub open spec fn first_btx_at(s: Seq<BridgeTxInfo>, asset_id: u64, heir_id: u64, i: int) -> bool {
    &&& 0 <= i < s.len()
    &&& s[i].asset_id == asset_id
    &&& s[i].heir_id == heir_id
    &&& forall|j: int| 0 <= j < i ==> !(s[j].asset_id == asset_id && s[j].heir_id == heir_id)
}

/// A fungible custody record is still open for the pair.
pub open spec fn open_fc(rec: FungibleCustodyRecord, asset_id: u64, heir_id: u64) -> bool {
    rec.asset_id == asset_id && rec.heir_id == heir_id && rec.released_at is None
}

/// `i` is the index of the first open fungible custody record of the pair.
pub open spec fn first_open_fc_at(
    s: Seq<FungibleCustodyRecord>,
    asset_id: u64,
    heir_id: u64,
    i: int,
) -> bool {
    0 <= i < s.len() && open_fc(s[i], asset_id, heir_id) && forall|j: int|
        0 <= j < i ==> !open_fc(s[j], asset_id, heir_id)
}

/// An NFT custody record is still open for the triple.
pub open spec fn open_nc(rec: NftCustodyRecord, asset_id: u64, heir_id: u64, token_id: u64) -> bool {
    rec.asset_id == asset_id && rec.heir_id == heir_id && rec.token_id == token_id
        && rec.released_at is None
}

/// `i` is the index of the first open NFT custody record of the triple.
pub open spec fn first_open_nc_at(
    s: Seq<NftCustodyRecord>,
    asset_id: u64,
    heir_id: u64,
    token_id: u64,
    i: int,
) -> bool {
    0 <= i < s.len() && open_nc(s[i], asset_id, heir_id, token_id) && forall|j: int|
        0 <= j < i ==> !open_nc(s[j], asset_id, heir_id, token_id)
}

/// Some element of `s` matches.
pub open spec fn has_asset(s: Seq<Asset>, id: u64) -> bool {
    exists|i: int| 0 <= i < s.len() && s[i].id == id
}

/// Index of the first match, scanning from the front.
pub fn find_asset(v: &Vec<Asset>, id: u64) -> (r: Option<usize>)
    ensures
        match r {
            Some(i) => i < v@.len() && v@[i as int].id == id && forall|j: int|
                0 <= j < i ==> !(v@[j].id == id),
            None => !has_asset(v@, id),
        },
{
    let mut i: usize = 0;
    while i < v.len()
        invariant
            i <= v@.len(),
            forall|j: int| 0 <= j < i ==> !(v@[j].id == id),
        decreases v@.len() - i,
    {
        if v[i].id == id {
            return Some(i);
        }
        i = i + 1;
    }
    None
}

/// Some element of `s` matches.
pub open spec fn has_heir(s: Seq<Heir>, id: u64) -> bool {
    exists|i: int| 0 <= i < s.len() && s[i].id == id
}

/// Index of the first match, scanning from the front.
pub fn find_heir(v: &Vec<Heir>, id: u64) -> (r: Option<usize>)
    ensures
        match r {
            Some(i) => i < v@.len() && v@[i as int].id == id && forall|j: int|
                0 <= j < i ==> !(v@[j].id == id),
            None => !has_heir(v@, id),
        },
{
    let mut i: usize = 0;
    while i < v.len()
        invariant
            i <= v@.len(),
            forall|j: int| 0 <= j < i ==> !(v@[j].id == id),
        decreases v@.len() - i,
    {
        if v[i].id == id {
            return Some(i);
        }
        i = i + 1;
    }
    None
}

/// Some element of `s` matches.
pub open spec fn has_heir_ex(s: Seq<HeirEx>, id: u64) -> bool {
    exists|i: int| 0 <= i < s.len() && s[i].id == id
}

/// Index of the first match, scanning from the front.
pub fn find_heir_ex(v: &Vec<HeirEx>, id: u64) -> (r: Option<usize>)
    ensures
        match r {
            Some(i) => i < v@.len() && v@[i as int].id == id && forall|j: int|
                0 <= j < i ==> !(v@[j].id == id),
            None => !has_heir_ex(v@, id),
        },
{
    let mut i: usize = 0;
    while i < v.len()
        invariant
            i <= v@.len(),
            forall|j: int| 0 <= j < i ==> !(v@[j].id == id),
        decreases v@.len() - i,
    {
        if v[i].id == id {
            return Some(i);
        }
        i = i + 1;
    }
    None
}

/// Some element of `s` matches.
pub open spec fn has_share(s: Seq<DistributionShare>, asset_id: u64, heir_id: u64) -> bool {
    exists|i: int| 0 <= i < s.len() && s[i].asset_id == asset_id && s[i].heir_id == heir_id
}

/// Index of the first match, scanning from the front.
pub fn find_share(v: &Vec<DistributionShare>, asset_id: u64, heir_id: u64) -> (r: Option<usize>)
    ensures
        match r {
            Some(i) => i < v@.len() && v@[i as int].asset_id == asset_id && v@[i as int].heir_id == heir_id && forall|j: int|
                0 <= j < i ==> !(v@[j].asset_id == asset_id && v@[j].heir_id == heir_id),
            None => !has_share(v@, asset_id, heir_id),
        },
{
    let mut i: usize = 0;
    while i < v.len()
        invariant
            i <= v@.len(),
            forall|j: int| 0 <= j < i ==> !(v@[j].asset_id == asset_id && v@[j].heir_id == heir_id),
        decreases v@.len() - i,
    {
        if v[i].asset_id == asset_id && v[i].heir_id == heir_id {
            return Some(i);
        }
        i = i + 1;
    }
    None
}

/// Some element of `s` matches.
pub open spec fn has_legacy_dist(s: Seq<AssetDistribution>, asset_id: u64, heir_id: u64) -> bool {
    exists|i: int| 0 <= i < s.len() && s[i].asset_id == asset_id && s[i].heir_id == heir_id
}

/// Index of the first match, scanning from the front.
pub fn find_legacy_dist(v: &Vec<AssetDistribution>, asset_id: u64, heir_id: u64) -> (r: Option<usize>)
    ensures
        match r {
            Some(i) => i < v@.len() && v@[i as int].asset_id == asset_id && v@[i as int].heir_id == heir_id && forall|j: int|
                0 <= j < i ==> !(v@[j].asset_id == asset_id && v@[j].heir_id == heir_id),
            None => !has_legacy_dist(v@, asset_id, heir_id),
        },
{
    let mut i: usize = 0;
    while i < v.len()
        invariant
            i <= v@.len(),
            forall|j: int| 0 <= j < i ==> !(v@[j].asset_id == asset_id && v@[j].heir_id == heir_id),
        decreases v@.len() - i,
    {
        if v[i].asset_id == asset_id && v[i].heir_id == heir_id {
            return Some(i);
        }
        i = i + 1;
    }
    None
}

/// Some element of `s` matches.
pub open spec fn has_escrow(s: Seq<EscrowRecord>, asset_id: u64) -> bool {
    exists|i: int| 0 <= i < s.len() && s[i].asset_id == asset_id
}

/// Index of the first match, scanning from the front.
pub fn find_escrow(v: &Vec<EscrowRecord>, asset_id: u64) -> (r: Option<usize>)
    ensures
        match r {
            Some(i) => i < v@.len() && v@[i as int].asset_id == asset_id && forall|j: int|
                0 <= j < i ==> !(v@[j].asset_id == asset_id),
            None => !has_escrow(v@, asset_id),
        },
{
    let mut i: usize = 0;
    while i < v.len()
        invariant
            i <= v@.len(),
            forall|j: int| 0 <= j < i ==> !(v@[j].asset_id == asset_id),
        decreases v@.len() - i,
    {
        if v[i].asset_id == asset_id {
            return Some(i);
        }
        i = i + 1;
    }
    None
}

/// Some element of `s` matches.
pub open spec fn has_approval(s: Seq<ApprovalRecord>, asset_id: u64) -> bool {
    exists|i: int| 0 <= i < s.len() && s[i].asset_id == asset_id
}

/// Index of the first match, scanning from the front.
pub fn find_approval(v: &Vec<ApprovalRecord>, asset_id: u64) -> (r: Option<usize>)
    ensures
        match r {
            Some(i) => i < v@.len() && v@[i as int].asset_id == asset_id && forall|j: int|
                0 <= j < i ==> !(v@[j].asset_id == asset_id),
            None => !has_approval(v@, asset_id),
        },
{
    let mut i: usize = 0;
    while i < v.len()
        invariant
            i <= v@.len(),
            forall|j: int| 0 <= j < i ==> !(v@[j].asset_id == asset_id),
        decreases v@.len() - i,
    {
        if v[i].asset_id == asset_id {
            return Some(i);
        }
        i = i + 1;
    }
    None
}

/// Some element of `s` matches.
pub open spec fn has_custody(s: Seq<CustodyRecord>, heir_id: u64) -> bool {
    exists|i: int| 0 <= i < s.len() && s[i].heir_id == heir_id
}

/// Index of the first match, scanning from the front.
pub fn find_custody(v: &Vec<CustodyRecord>, heir_id: u64) -> (r: Option<usize>)
    ensures
        match r {
            Some(i) => i < v@.len() && v@[i as int].heir_id == heir_id && forall|j: int|
                0 <= j < i ==> !(v@[j].heir_id == heir_id),
            None => !has_custody(v@, heir_id),
        },
{
    let mut i: usize = 0;
    while i < v.len()
        invariant
            i <= v@.len(),
            forall|j: int| 0 <= j < i ==> !(v@[j].heir_id == heir_id),
        decreases v@.len() - i,
    {
        if v[i].heir_id == heir_id {
            return Some(i);
        }
        i = i + 1;
    }
    None
}

/// Some element of `s` matches.
pub open spec fn has_fungible_custody(s: Seq<FungibleCustodyRecord>, asset_id: u64, heir_id: u64) -> bool {
    exists|i: int| 0 <= i < s.len() && s[i].asset_id == asset_id && s[i].heir_id == heir_id
}

/// Index of the first match, scanning from the front.
pub fn find_fungible_custody(v: &Vec<FungibleCustodyRecord>, asset_id: u64, heir_id: u64) -> (r: Option<usize>)
    ensures
        match r {
            Some(i) => i < v@.len() && v@[i as int].asset_id == asset_id && v@[i as int].heir_id == heir_id && forall|j: int|
                0 <= j < i ==> !(v@[j].asset_id == asset_id && v@[j].heir_id == heir_id),
            None => !has_fungible_custody(v@, asset_id, heir_id),
        },
{
    let mut i: usize = 0;
    while i < v.len()
        invariant
            i <= v@.len(),
            forall|j: int| 0 <= j < i ==> !(v@[j].asset_id == asset_id && v@[j].heir_id == heir_id),
        decreases v@.len() - i,
    {
        if v[i].asset_id == asset_id && v[i].heir_id == heir_id {
            return Some(i);
        }
        i = i + 1;
    }
    None
}

/// Some element of `s` matches.
pub open spec fn has_open_fungible_custody(s: Seq<FungibleCustodyRecord>, asset_id: u64, heir_id: u64) -> bool {
    exists|i: int| 0 <= i < s.len() && s[i].asset_id == asset_id && s[i].heir_id == heir_id && s[i].released_at is None
}

/// Index of the first match, scanning from the front.
pub fn find_open_fungible_custody(v: &Vec<FungibleCustodyRecord>, asset_id: u64, heir_id: u64) -> (r: Option<usize>)
    ensures
        match r {
            Some(i) => i < v@.len() && v@[i as int].asset_id == asset_id && v@[i as int].heir_id == heir_id && v@[i as int].released_at is None && forall|j: int|
                0 <= j < i ==> !(v@[j].asset_id == asset_id && v@[j].heir_id == heir_id && v@[j].released_at is None),
            None => !has_open_fungible_custody(v@, asset_id, heir_id),
        },
{
    let mut i: usize = 0;
    while i < v.len()
        invariant
            i <= v@.len(),
            forall|j: int| 0 <= j < i ==> !(v@[j].asset_id == asset_id && v@[j].heir_id == heir_id && v@[j].released_at is None),
        decreases v@.len() - i,
    {
        if v[i].asset_id == asset_id && v[i].heir_id == heir_id && v[i].released_at.is_none() {
            return Some(i);
        }
        i = i + 1;
    }
    None
}

/// Some element of `s` matches.
pub open spec fn has_nft_custody(s: Seq<NftCustodyRecord>, asset_id: u64, heir_id: u64, token_id: u64) -> bool {
    exists|i: int| 0 <= i < s.len() && s[i].asset_id == asset_id && s[i].heir_id == heir_id && s[i].token_id == token_id
}

/// Index of the first match, scanning from the front.
pub fn find_nft_custody(v: &Vec<NftCustodyRecord>, asset_id: u64, heir_id: u64, token_id: u64) -> (r: Option<usize>)
    ensures
        match r {
            Some(i) => i < v@.len() && v@[i as int].asset_id == asset_id && v@[i as int].heir_id == heir_id && v@[i as int].token_id == token_id && forall|j: int|
                0 <= j < i ==> !(v@[j].asset_id == asset_id && v@[j].heir_id == heir_id && v@[j].token_id == token_id),
            None => !has_nft_custody(v@, asset_id, heir_id, token_id),
        },
{
    let mut i: usize = 0;
    while i < v.len()
        invariant
            i <= v@.len(),
            forall|j: int| 0 <= j < i ==> !(v@[j].asset_id == asset_id && v@[j].heir_id == heir_id && v@[j].token_id == token_id),
        decreases v@.len() - i,
    {
        if v[i].asset_id == asset_id && v[i].heir_id == heir_id && v[i].token_id == token_id {
            return Some(i);
        }
        i = i + 1;
    }
    None
}

/// Some element of `s` matches.
pub open spec fn has_ck_withdraw(s: Seq<CkWithdrawRecord>, asset_id: u64, heir_id: u64) -> bool {
    exists|i: int| 0 <= i < s.len() && s[i].asset_id == asset_id && s[i].heir_id == heir_id
}

/// Index of the first match, scanning from the front.
pub fn find_ck_withdraw(v: &Vec<CkWithdrawRecord>, asset_id: u64, heir_id: u64) -> (r: Option<usize>)
    ensures
        match r {
            Some(i) => i < v@.len() && v@[i as int].asset_id == asset_id && v@[i as int].heir_id == heir_id && forall|j: int|
                0 <= j < i ==> !(v@[j].asset_id == asset_id && v@[j].heir_id == heir_id),
            None => !has_ck_withdraw(v@, asset_id, heir_id),
        },
{
    let mut i: usize = 0;
    while i < v.len()
        invariant
            i <= v@.len(),
            forall|j: int| 0 <= j < i ==> !(v@[j].asset_id == asset_id && v@[j].heir_id == heir_id),
        decreases v@.len() - i,
    {
        if v[i].asset_id == asset_id && v[i].heir_id == heir_id {
            return Some(i);
        }
        i = i + 1;
    }
    None
}

/// Some element of `s` matches.
pub open spec fn has_bridge_tx(s: Seq<BridgeTxInfo>, asset_id: u64, heir_id: u64) -> bool {
    exists|i: int| 0 <= i < s.len() && s[i].asset_id == asset_id && s[i].heir_id == heir_id
}

/// Index of the first match, scanning from the front.
pub fn find_bridge_tx(v: &Vec<BridgeTxInfo>, asset_id: u64, heir_id: u64) -> (r: Option<usize>)
    ensures
        match r {
            Some(i) => i < v@.len() && v@[i as int].asset_id == asset_id && v@[i as int].heir_id == heir_id && forall|j: int|
                0 <= j < i ==> !(v@[j].asset_id == asset_id && v@[j].heir_id == heir_id),
            None => !has_bridge_tx(v@, asset_id, heir_id),
        },
{
    let mut i: usize = 0;
    while i < v.len()
        invariant
            i <= v@.len(),
            forall|j: int| 0 <= j < i ==> !(v@[j].asset_id == asset_id && v@[j].heir_id == heir_id),
        decreases v@.len() - i,
    {
        if v[i].asset_id == asset_id && v[i].heir_id == heir_id {
            return Some(i);
        }
        i = i + 1;
    }
    None
}

/// Some element of `s` matches.
pub open spec fn has_session(s: Seq<HeirSession>, id: u64) -> bool {
    exists|i: int| 0 <= i < s.len() && s[i].id == id
}

/// Index of the first match, scanning from the front.
pub fn find_session(v: &Vec<HeirSession>, id: u64) -> (r: Option<usize>)
    ensures
        match r {
            Some(i) => i < v@.len() && v@[i as int].id == id && forall|j: int|
                0 <= j < i ==> !(v@[j].id == id),
            None => !has_session(v@, id),
        },
{
    let mut i: usize = 0;
    while i < v.len()
        invariant
            i <= v@.len(),
            forall|j: int| 0 <= j < i ==> !(v@[j].id == id),
        decreases v@.len() - i,
    {
        if v[i].id == id {
            return Some(i);
        }
        i = i + 1;
    }
    None
}

/// Some element of `s` matches.
pub open spec fn has_claim_link(s: Seq<ClaimLink>, id: u64) -> bool {
    exists|i: int| 0 <= i < s.len() && s[i].id == id
}

/// Index of the first match, scanning from the front.
pub fn find_claim_link(v: &Vec<ClaimLink>, id: u64) -> (r: Option<usize>)
    ensures
        match r {
            Some(i) => i < v@.len() && v@[i as int].id == id && forall|j: int|
                0 <= j < i ==> !(v@[j].id == id),
            None => !has_claim_link(v@, id),
        },
{
    let mut i: usize = 0;
    while i < v.len()
        invariant
            i <= v@.len(),
            forall|j: int| 0 <= j < i ==> !(v@[j].id == id),
        decreases v@.len() - i,
    {
        if v[i].id == id {
            return Some(i);
        }
        i = i + 1;
    }
    None
}

/// Some element of `s` matches.
pub open spec fn has_payout_override(s: Seq<HeirPayoutOverride>, asset_id: u64, heir_id: u64) -> bool {
    exists|i: int| 0 <= i < s.len() && s[i].asset_id == asset_id && s[i].heir_id == heir_id
}

/// Index of the first match, scanning from the front.
pub fn find_payout_override(v: &Vec<HeirPayoutOverride>, asset_id: u64, heir_id: u64) -> (r: Option<usize>)
    ensures
        match r {
            Some(i) => i < v@.len() && v@[i as int].asset_id == asset_id && v@[i as int].heir_id == heir_id && forall|j: int|
                0 <= j < i ==> !(v@[j].asset_id == asset_id && v@[j].heir_id == heir_id),
            None => !has_payout_override(v@, asset_id, heir_id),
        },
{
    let mut i: usize = 0;
    while i < v.len()
        invariant
            i <= v@.len(),
            forall|j: int| 0 <= j < i ==> !(v@[j].asset_id == asset_id && v@[j].heir_id == heir_id),
        decreases v@.len() - i,
    {
        if v[i].asset_id == asset_id && v[i].heir_id == heir_id {
            return Some(i);
        }
        i = i + 1;
    }
    None
}

/// Some element of `s` matches.
pub open spec fn has_override_rate(s: Seq<PayoutOverrideRate>, heir_id: u64, asset_id: u64) -> bool {
    exists|i: int| 0 <= i < s.len() && s[i].heir_id == heir_id && s[i].asset_id == asset_id
}

/// Index of the first match, scanning from the front.
pub fn find_override_rate(v: &Vec<PayoutOverrideRate>, heir_id: u64, asset_id: u64) -> (r: Option<usize>)
    ensures
        match r {
            Some(i) => i < v@.len() && v@[i as int].heir_id == heir_id && v@[i as int].asset_id == asset_id && forall|j: int|
                0 <= j < i ==> !(v@[j].heir_id == heir_id && v@[j].asset_id == asset_id),
            None => !has_override_rate(v@, heir_id, asset_id),
        },
{
    let mut i: usize = 0;
    while i < v.len()
        invariant
            i <= v@.len(),
            forall|j: int| 0 <= j < i ==> !(v@[j].heir_id == heir_id && v@[j].asset_id == asset_id),
        decreases v@.len() - i,
    {
        if v[i].heir_id == heir_id && v[i].asset_id == asset_id {
            return Some(i);
        }
        i = i + 1;
    }
    None
}

/// Some element of `s` matches.
pub open spec fn has_transfer(s: Seq<TransferRecord>, id: u64) -> bool {
    exists|i: int| 0 <= i < s.len() && s[i].id == id
}

/// Index of the first match, scanning from the front.
pub fn find_transfer(v: &Vec<TransferRecord>, id: u64) -> (r: Option<usize>)
    ensures
        match r {
            Some(i) => i < v@.len() && v@[i as int].id == id && forall|j: int|
                0 <= j < i ==> !(v@[j].id == id),
            None => !has_transfer(v@, id),
        },
{
    let mut i: usize = 0;
    while i < v.len()
        invariant
            i <= v@.len(),
            forall|j: int| 0 <= j < i ==> !(v@[j].id == id),
        decreases v@.len() - i,
    {
        if v[i].id == id {
            return Some(i);
        }
        i = i + 1;
    }
    None
}

/// Some element of `s` matches.
pub open spec fn has_transfer_for(s: Seq<TransferRecord>, asset_id: u64, heir_id: u64) -> bool {
    exists|i: int| 0 <= i < s.len() && s[i].asset_id == Some(asset_id) && s[i].heir_id == Some(heir_id)
}

/// Index of the first match, scanning from the front.
pub fn find_transfer_for(v: &Vec<TransferRecord>, asset_id: u64, heir_id: u64) -> (r: Option<usize>)
    ensures
        match r {
            Some(i) => i < v@.len() && v@[i as int].asset_id == Some(asset_id) && v@[i as int].heir_id == Some(heir_id) && forall|j: int|
                0 <= j < i ==> !(v@[j].asset_id == Some(asset_id) && v@[j].heir_id == Some(heir_id)),
            None => !has_transfer_for(v@, asset_id, heir_id),
        },
{
    let mut i: usize = 0;
    while i < v.len()
        invariant
            i <= v@.len(),
            forall|j: int| 0 <= j < i ==> !(v@[j].asset_id == Some(asset_id) && v@[j].heir_id == Some(heir_id)),
        decreases v@.len() - i,
    {
        if v[i].asset_id == Some(asset_id) && v[i].heir_id == Some(heir_id) {
            return Some(i);
        }
        i = i + 1;
    }
    None
}

/// Some element of `s` matches.
pub open spec fn has_document(s: Seq<DocumentEntry>, id: u64) -> bool {
    exists|i: int| 0 <= i < s.len() && s[i].id == id
}

/// Index of the first match, scanning from the front.
pub fn find_document(v: &Vec<DocumentEntry>, id: u64) -> (r: Option<usize>)
    ensures
        match r {
            Some(i) => i < v@.len() && v@[i as int].id == id && forall|j: int|
                0 <= j < i ==> !(v@[j].id == id),
            None => !has_document(v@, id),
        },
{
    let mut i: usize = 0;
    while i < v.len()
        invariant
            i <= v@.len(),
            forall|j: int| 0 <= j < i ==> !(v@[j].id == id),
        decreases v@.len() - i,
    {
        if v[i].id == id {
            return Some(i);
        }
        i = i + 1;
    }
    None
}

/// Some element of `s` matches.
pub open spec fn has_upload(s: Seq<DocumentUploadSession>, upload_id: u64) -> bool {
    exists|i: int| 0 <= i < s.len() && s[i].upload_id == upload_id
}

/// Index of the first match, scanning from the front.
pub fn find_upload(v: &Vec<DocumentUploadSession>, upload_id: u64) -> (r: Option<usize>)
    ensures
        match r {
            Some(i) => i < v@.len() && v@[i as int].upload_id == upload_id && forall|j: int|
                0 <= j < i ==> !(v@[j].upload_id == upload_id),
            None => !has_upload(v@, upload_id),
        },
{
    let mut i: usize = 0;
    while i < v.len()
        invariant
            i <= v@.len(),
            forall|j: int| 0 <= j < i ==> !(v@[j].upload_id == upload_id),
        decreases v@.len() - i,
    {
        if v[i].upload_id == upload_id {
            return Some(i);
        }
        i = i + 1;
    }
    None
}

/// Some element of `s` matches.
pub open spec fn has_retry(s: Seq<RetryItem>, id: u64) -> bool {
    exists|i: int| 0 <= i < s.len() && s[i].id == id
}

/// Index of the first match, scanning from the front.
pub fn find_retry(v: &Vec<RetryItem>, id: u64) -> (r: Option<usize>)
    ensures
        match r {
            Some(i) => i < v@.len() && v@[i as int].id == id && forall|j: int|
                0 <= j < i ==> !(v@[j].id == id),
            None => !has_retry(v@, id),
        },
{
    let mut i: usize = 0;
    while i < v.len()
        invariant
            i <= v@.len(),
            forall|j: int| 0 <= j < i ==> !(v@[j].id == id),
        decreases v@.len() - i,
    {
        if v[i].id == id {
            return Some(i);
        }
        i = i + 1;
    }
    None
}

/// Largest `id` present, 0 when empty.
pub open spec fn max_asset_id(s: Seq<Asset>) -> int
    decreases s.len(),
{
    if s.len() == 0 {
        0
    } else {
        let rest = max_asset_id(s.drop_last());
        if s.last().id > rest {
            s.last().id as int
        } else {
            rest
        }
    }
}

pub proof fn lemma_max_asset_id_bounds(s: Seq<Asset>)
    ensures
        0 <= max_asset_id(s) <= u64::MAX,
    decreases s.len(),
{
    if s.len() > 0 {
        lemma_max_asset_id_bounds(s.drop_last());
    }
}

/// One past the largest `id`, saturating at the type's end.
pub open spec fn spec_next_asset_id(s: Seq<Asset>) -> u64 {
    if max_asset_id(s) >= u64::MAX {
        u64::MAX
    } else {
        (max_asset_id(s) + 1) as u64
    }
}

pub fn next_asset_id(v: &Vec<Asset>) -> (r: u64)
    ensures
        r == spec_next_asset_id(v@),
{
    let mut m: u64 = 0;
    let mut i: usize = 0;
    while i < v.len()
        invariant
            i <= v@.len(),
            m == max_asset_id(v@.subrange(0, i as int)),
        decreases v@.len() - i,
    {
        proof {
            assert(v@.subrange(0, i + 1).drop_last() =~= v@.subrange(0, i as int));
            assert(v@.subrange(0, i + 1).last() == v@[i as int]);
            lemma_max_asset_id_bounds(v@.subrange(0, i as int));
        }
        if v[i].id > m {
            m = v[i].id;
        }
        i = i + 1;
    }
    proof {
        assert(v@.subrange(0, v@.len() as int) =~= v@);
        lemma_max_asset_id_bounds(v@);
    }
    if m == u64::MAX {
        u64::MAX
    } else {
        m + 1
    }
}

/// Largest `id` present, 0 when empty.
pub open spec fn max_heir_id(s: Seq<Heir>) -> int
    decreases s.len(),
{
    if s.len() == 0 {
        0
    } else {
        let rest = max_heir_id(s.drop_last());
        if s.last().id > rest {
            s.last().id as int
        } else {
            rest
        }
    }
}

pub proof fn lemma_max_heir_id_bounds(s: Seq<Heir>)
    ensures
        0 <= max_heir_id(s) <= u64::MAX,
    decreases s.len(),
{
    if s.len() > 0 {
        lemma_max_heir_id_bounds(s.drop_last());
    }
}

/// One past the largest `id`, saturating at the type's end.
pub open spec fn spec_next_heir_id(s: Seq<Heir>) -> u64 {
    if max_heir_id(s) >= u64::MAX {
        u64::MAX
    } else {
        (max_heir_id(s) + 1) as u64
    }
}

pub fn next_heir_id(v: &Vec<Heir>) -> (r: u64)
    ensures
        r == spec_next_heir_id(v@),
{
    let mut m: u64 = 0;
    let mut i: usize = 0;
    while i < v.len()
        invariant
            i <= v@.len(),
            m == max_heir_id(v@.subrange(0, i as int)),
        decreases v@.len() - i,
    {
        proof {
            assert(v@.subrange(0, i + 1).drop_last() =~= v@.subrange(0, i as int));
            assert(v@.subrange(0, i + 1).last() == v@[i as int]);
            lemma_max_heir_id_bounds(v@.subrange(0, i as int));
        }
        if v[i].id > m {
            m = v[i].id;
        }
        i = i + 1;
    }
    proof {
        assert(v@.subrange(0, v@.len() as int) =~= v@);
        lemma_max_heir_id_bounds(v@);
    }
    if m == u64::MAX {
        u64::MAX
    } else {
        m + 1
    }
}

/// Largest `id` present, 0 when empty.
pub open spec fn max_heir_ex_id(s: Seq<HeirEx>) -> int
    decreases s.len(),
{
    if s.len() == 0 {
        0
    } else {
        let rest = max_heir_ex_id(s.drop_last());
        if s.last().id > rest {
            s.last().id as int
        } else {
            rest
        }
    }
}

pub proof fn lemma_max_heir_ex_id_bounds(s: Seq<HeirEx>)
    ensures
        0 <= max_heir_ex_id(s) <= u64::MAX,
    decreases s.len(),
{
    if s.len() > 0 {
        lemma_max_heir_ex_id_bounds(s.drop_last());
    }
}

/// One past the largest `id`, saturating at the type's end.
pub open spec fn spec_next_heir_ex_id(s: Seq<HeirEx>) -> u64 {
    if max_heir_ex_id(s) >= u64::MAX {
        u64::MAX
    } else {
        (max_heir_ex_id(s) + 1) as u64
    }
}

pub fn next_heir_ex_id(v: &Vec<HeirEx>) -> (r: u64)
    ensures
        r == spec_next_heir_ex_id(v@),
{
    let mut m: u64 = 0;
    let mut i: usize = 0;
    while i < v.len()
        invariant
            i <= v@.len(),
            m == max_heir_ex_id(v@.subrange(0, i as int)),
        decreases v@.len() - i,
    {
        proof {
            assert(v@.subrange(0, i + 1).drop_last() =~= v@.subrange(0, i as int));
            assert(v@.subrange(0, i + 1).last() == v@[i as int]);
            lemma_max_heir_ex_id_bounds(v@.subrange(0, i as int));
        }
        if v[i].id > m {
            m = v[i].id;
        }
        i = i + 1;
    }
    proof {
        assert(v@.subrange(0, v@.len() as int) =~= v@);
        lemma_max_heir_ex_id_bounds(v@);
    }
    if m == u64::MAX {
        u64::MAX
    } else {
        m + 1
    }
}

/// Largest `id` present, 0 when empty.
pub open spec fn max_claim_link_id(s: Seq<ClaimLink>) -> int
    decreases s.len(),
{
    if s.len() == 0 {
        0
    } else {
        let rest = max_claim_link_id(s.drop_last());
        if s.last().id > rest {
            s.last().id as int
        } else {
            rest
        }
    }
}

pub proof fn lemma_max_claim_link_id_bounds(s: Seq<ClaimLink>)
    ensures
        0 <= max_claim_link_id(s) <= u64::MAX,
    decreases s.len(),
{
    if s.len() > 0 {
        lemma_max_claim_link_id_bounds(s.drop_last());
    }
}

/// One past the largest `id`, saturating at the type's end.
pub open spec fn spec_next_claim_link_id(s: Seq<ClaimLink>) -> u64 {
    if max_claim_link_id(s) >= u64::MAX {
        u64::MAX
    } else {
        (max_claim_link_id(s) + 1) as u64
    }
}

pub fn next_claim_link_id(v: &Vec<ClaimLink>) -> (r: u64)
    ensures
        r == spec_next_claim_link_id(v@),
{
    let mut m: u64 = 0;
    let mut i: usize = 0;
    while i < v.len()
        invariant
            i <= v@.len(),
            m == max_claim_link_id(v@.subrange(0, i as int)),
        decreases v@.len() - i,
    {
        proof {
            assert(v@.subrange(0, i + 1).drop_last() =~= v@.subrange(0, i as int));
            assert(v@.subrange(0, i + 1).last() == v@[i as int]);
            lemma_max_claim_link_id_bounds(v@.subrange(0, i as int));
        }
        if v[i].id > m {
            m = v[i].id;
        }
        i = i + 1;
    }
    proof {
        assert(v@.subrange(0, v@.len() as int) =~= v@);
        lemma_max_claim_link_id_bounds(v@);
    }
    if m == u64::MAX {
        u64::MAX
    } else {
        m + 1
    }
}

/// Largest `id` present, 0 when empty.
pub open spec fn max_session_id(s: Seq<HeirSession>) -> int
    decreases s.len(),
{
    if s.len() == 0 {
        0
    } else {
        let rest = max_session_id(s.drop_last());
        if s.last().id > rest {
            s.last().id as int
        } else {
            rest
        }
    }
}

pub proof fn lemma_max_session_id_bounds(s: Seq<HeirSession>)
    ensures
        0 <= max_session_id(s) <= u64::MAX,
    decreases s.len(),
{
    if s.len() > 0 {
        lemma_max_session_id_bounds(s.drop_last());
    }
}

/// One past the largest `id`, saturating at the type's end.
pub open spec fn spec_next_session_id(s: Seq<HeirSession>) -> u64 {
    if max_session_id(s) >= u64::MAX {
        u64::MAX
    } else {
        (max_session_id(s) + 1) as u64
    }
}

pub fn next_session_id(v: &Vec<HeirSession>) -> (r: u64)
    ensures
        r == spec_next_session_id(v@),
{
    let mut m: u64 = 0;
    let mut i: usize = 0;
    while i < v.len()
        invariant
            i <= v@.len(),
            m == max_session_id(v@.subrange(0, i as int)),
        decreases v@.len() - i,
    {
        proof {
            assert(v@.subrange(0, i + 1).drop_last() =~= v@.subrange(0, i as int));
            assert(v@.subrange(0, i + 1).last() == v@[i as int]);
            lemma_max_session_id_bounds(v@.subrange(0, i as int));
        }
        if v[i].id > m {
            m = v[i].id;
        }
        i = i + 1;
    }
    proof {
        assert(v@.subrange(0, v@.len() as int) =~= v@);
        lemma_max_session_id_bounds(v@);
    }
    if m == u64::MAX {
        u64::MAX
    } else {
        m + 1
    }
}

/// Largest `id` present, 0 when empty.
pub open spec fn max_transfer_id(s: Seq<TransferRecord>) -> int
    decreases s.len(),
{
    if s.len() == 0 {
        0
    } else {
        let rest = max_transfer_id(s.drop_last());
        if s.last().id > rest {
            s.last().id as int
        } else {
            rest
        }
    }
}

pub proof fn lemma_max_transfer_id_bounds(s: Seq<TransferRecord>)
    ensures
        0 <= max_transfer_id(s) <= u64::MAX,
    decreases s.len(),
{
    if s.len() > 0 {
        lemma_max_transfer_id_bounds(s.drop_last());
    }
}

/// One past the largest `id`, saturating at the type's end.
pub open spec fn spec_next_transfer_id_of(s: Seq<TransferRecord>) -> u64 {
    if max_transfer_id(s) >= u64::MAX {
        u64::MAX
    } else {
        (max_transfer_id(s) + 1) as u64
    }
}

pub fn next_transfer_id_of(v: &Vec<TransferRecord>) -> (r: u64)
    ensures
        r == spec_next_transfer_id_of(v@),
{
    let mut m: u64 = 0;
    let mut i: usize = 0;
    while i < v.len()
        invariant
            i <= v@.len(),
            m == max_transfer_id(v@.subrange(0, i as int)),
        decreases v@.len() - i,
    {
        proof {
            assert(v@.subrange(0, i + 1).drop_last() =~= v@.subrange(0, i as int));
            assert(v@.subrange(0, i + 1).last() == v@[i as int]);
            lemma_max_transfer_id_bounds(v@.subrange(0, i as int));
        }
        if v[i].id > m {
            m = v[i].id;
        }
        i = i + 1;
    }
    proof {
        assert(v@.subrange(0, v@.len() as int) =~= v@);
        lemma_max_transfer_id_bounds(v@);
    }
    if m == u64::MAX {
        u64::MAX
    } else {
        m + 1
    }
}

/// Largest `id` present, 0 when empty.
pub open spec fn max_document_id(s: Seq<DocumentEntry>) -> int
    decreases s.len(),
{
    if s.len() == 0 {
        0
    } else {
        let rest = max_document_id(s.drop_last());
        if s.last().id > rest {
            s.last().id as int
        } else {
            rest
        }
    }
}

pub proof fn lemma_max_document_id_bounds(s: Seq<DocumentEntry>)
    ensures
        0 <= max_document_id(s) <= u64::MAX,
    decreases s.len(),
{
    if s.len() > 0 {
        lemma_max_document_id_bounds(s.drop_last());
    }
}

/// One past the largest `id`, saturating at the type's end.
pub open spec fn spec_next_document_id(s: Seq<DocumentEntry>) -> u64 {
    if max_document_id(s) >= u64::MAX {
        u64::MAX
    } else {
        (max_document_id(s) + 1) as u64
    }
}

pub fn next_document_id(v: &Vec<DocumentEntry>) -> (r: u64)
    ensures
        r == spec_next_document_id(v@),
{
    let mut m: u64 = 0;
    let mut i: usize = 0;
    while i < v.len()
        invariant
            i <= v@.len(),
            m == max_document_id(v@.subrange(0, i as int)),
        decreases v@.len() - i,
    {
        proof {
            assert(v@.subrange(0, i + 1).drop_last() =~= v@.subrange(0, i as int));
            assert(v@.subrange(0, i + 1).last() == v@[i as int]);
            lemma_max_document_id_bounds(v@.subrange(0, i as int));
        }
        if v[i].id > m {
            m = v[i].id;
        }
        i = i + 1;
    }
    proof {
        assert(v@.subrange(0, v@.len() as int) =~= v@);
        lemma_max_document_id_bounds(v@);
    }
    if m == u64::MAX {
        u64::MAX
    } else {
        m + 1
    }
}

/// Largest `upload_id` present, 0 when empty.
pub open spec fn max_upload_id(s: Seq<DocumentUploadSession>) -> int
    decreases s.len(),
{
    if s.len() == 0 {
        0
    } else {
        let rest = max_upload_id(s.drop_last());
        if s.last().upload_id > rest {
            s.last().upload_id as int
        } else {
            rest
        }
    }
}

pub proof fn lemma_max_upload_id_bounds(s: Seq<DocumentUploadSession>)
    ensures
        0 <= max_upload_id(s) <= u64::MAX,
    decreases s.len(),
{
    if s.len() > 0 {
        lemma_max_upload_id_bounds(s.drop_last());
    }
}

/// One past the largest `upload_id`, saturating at the type's end.
pub open spec fn spec_next_upload_id(s: Seq<DocumentUploadSession>) -> u64 {
    if max_upload_id(s) >= u64::MAX {
        u64::MAX
    } else {
        (max_upload_id(s) + 1) as u64
    }
}

pub fn next_upload_id(v: &Vec<DocumentUploadSession>) -> (r: u64)
    ensures
        r == spec_next_upload_id(v@),
{
    let mut m: u64 = 0;
    let mut i: usize = 0;
    while i < v.len()
        invariant
            i <= v@.len(),
            m == max_upload_id(v@.subrange(0, i as int)),
        decreases v@.len() - i,
    {
        proof {
            assert(v@.subrange(0, i + 1).drop_last() =~= v@.subrange(0, i as int));
            assert(v@.subrange(0, i + 1).last() == v@[i as int]);
            lemma_max_upload_id_bounds(v@.subrange(0, i as int));
        }
        if v[i].upload_id > m {
            m = v[i].upload_id;
        }
        i = i + 1;
    }
    proof {
        assert(v@.subrange(0, v@.len() as int) =~= v@);
        lemma_max_upload_id_bounds(v@);
    }
    if m == u64::MAX {
        u64::MAX
    } else {
        m + 1
    }
}

/// Largest `id` present, 0 when empty.
pub open spec fn max_retry_item_id(s: Seq<RetryItem>) -> int
    decreases s.len(),
{
    if s.len() == 0 {
        0
    } else {
        let rest = max_retry_item_id(s.drop_last());
        if s.last().id > rest {
            s.last().id as int
        } else {
            rest
        }
    }
}

pub proof fn lemma_max_retry_item_id_bounds(s: Seq<RetryItem>)
    ensures
        0 <= max_retry_item_id(s) <= u64::MAX,
    decreases s.len(),
{
    if s.len() > 0 {
        lemma_max_retry_item_id_bounds(s.drop_last());
    }
}

/// One past the largest `id`, saturating at the type's end.
pub open spec fn spec_next_retry_item_id(s: Seq<RetryItem>) -> u64 {
    if max_retry_item_id(s) >= u64::MAX {
        u64::MAX
    } else {
        (max_retry_item_id(s) + 1) as u64
    }
}

pub fn next_retry_item_id(v: &Vec<RetryItem>) -> (r: u64)
    ensures
        r == spec_next_retry_item_id(v@),
{
    let mut m: u64 = 0;
    let mut i: usize = 0;
    while i < v.len()
        invariant
            i <= v@.len(),
            m == max_retry_item_id(v@.subrange(0, i as int)),
        decreases v@.len() - i,
    {
        proof {
            assert(v@.subrange(0, i + 1).drop_last() =~= v@.subrange(0, i as int));
            assert(v@.subrange(0, i + 1).last() == v@[i as int]);
            lemma_max_retry_item_id_bounds(v@.subrange(0, i as int));
        }
        if v[i].id > m {
            m = v[i].id;
        }
        i = i + 1;
    }
    proof {
        assert(v@.subrange(0, v@.len() as int) =~= v@);
        lemma_max_retry_item_id_bounds(v@);
    }
    if m == u64::MAX {
        u64::MAX
    } else {
        m + 1
    }
}

} // verus!
