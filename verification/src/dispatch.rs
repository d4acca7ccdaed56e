//! Per-work-item dispatch decisions of the execution engine, split at the
//! ledger-call suspension points: a pure plan, an allowance-informed call
//! choice, and the post-call bookkeeping.

use vstd::prelude::*;
use vstd::string::StringExecFns;

use crate::audit::{push_audit, spec_push_audit};
use crate::common::{
    find_approval, find_custody, find_escrow, find_heir_ex, find_share, first_approval_at,
    first_open_fc_at, has_approval, has_open_fungible_custody, open_fc,
};
use crate::custody::spec_dec_allowance;
use crate::retry::{spec_enqueued_item, RetryItem, RetryKind};
use crate::crypto::derive_custody_subaccount;
use crate::model::audit::AuditEventKind;
use crate::model::base::{HoldingMode, PayoutPreference};
use crate::model::custody::{CustodyRecord, FungibleCustodyRecord};
use crate::model::errors::CivError;
use crate::model::user::User;
use crate::executor::WorkItem;

verus! {

/// Whether a string parses as a principal.
pub uninterp spec fn principal_text_valid(s: Seq<char>) -> bool;

/// Relies on `candid::Principal::from_text`: whether a text parses as a
/// principal depends on the characters alone.
#[verifier::external_body]
pub fn is_valid_principal(s: &str) -> (r: bool)
    ensures
        r == principal_text_valid(s@),
{
    candid::Principal::from_text(s).is_ok()
}

/// `10^d`, saturating in the wide type.
pub open spec fn sat_pow10_u128(d: int) -> u128
    decreases d,
{
    if d <= 0 {
        1u128
    } else {
        let rest = sat_pow10_u128(d - 1);
        if rest > u128::MAX / 10 {
            u128::MAX
        } else {
            (rest * 10) as u128
        }
    }
}

fn sat_pow10_u128_exec(d: u8) -> (r: u128)
    ensures
        r == sat_pow10_u128(d as int),
{
    let mut r: u128 = 1;
    let mut i: u8 = 0;
    while i < d
        invariant
            i <= d,
            r == sat_pow10_u128(i as int),
        decreases d - i,
    {
        r = if r > u128::MAX / 10 {
            u128::MAX
        } else {
            r * 10
        };
        i = i + 1;
    }
    r
}

/// Saturating product.
pub open spec fn sat_mul_u128(a: u128, b: u128) -> u128 {
    if a * b > u128::MAX {
        u128::MAX
    } else {
        (a * b) as u128
    }
}

fn sat_mul_u128_exec(a: u128, b: u128) -> (r: u128)
    ensures
        r == sat_mul_u128(a, b),
{
    if b == 0 {
        proof {
            assert(a * 0 == 0) by (nonlinear_arith);
        }
        return 0;
    }
    if a > u128::MAX / b {
        proof {
            vstd::arithmetic::div_mod::lemma_fundamental_div_mod(u128::MAX as int, b as int);
            assert(a * b > u128::MAX) by (nonlinear_arith)
                requires
                    a > (u128::MAX as int) / (b as int),
                    b >= 1,
                    (b as int) * ((u128::MAX as int) / (b as int)) + ((u128::MAX as int) % (
                    b as int)) == u128::MAX as int,
                    0 <= (u128::MAX as int) % (b as int),
                    ((u128::MAX as int) % (b as int)) < (b as int),
            ;
        }
        u128::MAX
    } else {
        proof {
            vstd::arithmetic::div_mod::lemma_fundamental_div_mod(u128::MAX as int, b as int);
            assert(a * b <= u128::MAX) by (nonlinear_arith)
                requires
                    a <= (u128::MAX as int) / (b as int),
                    b >= 1,
                    (b as int) * ((u128::MAX as int) / (b as int)) + ((u128::MAX as int) % (
                    b as int)) == u128::MAX as int,
                    0 <= (u128::MAX as int) % (b as int),
            ;
        }
        a * b
    }
}

/// The raw per-heir amount of a work item's share: `value * pct / 100`,
/// scaled by `10^decimals` when decimals are known.
pub open spec fn spec_transfer_amount(value: u64, pct: u8, decimals: u8) -> u128 {
    let raw = (value * pct / 100) as u128;
    if decimals != 0 {
        sat_mul_u128(raw, sat_pow10_u128(decimals as int))
    } else {
        raw
    }
}

/// Compute a work item's transfer amount from the asset value, share
/// percentage and decimals.
pub fn transfer_amount(value: u64, pct: u8, decimals: u8) -> (r: u128)
    ensures
        r == spec_transfer_amount(value, pct, decimals),
{
    proof {
        assert((value as int) * (pct as int) <= (u64::MAX as int) * 255) by (nonlinear_arith)
            requires
                value <= u64::MAX && pct <= 255,
        ;
    }
    let raw = (value as u128) * (pct as u128) / 100;
    if decimals != 0 {
        sat_mul_u128_exec(raw, sat_pow10_u128_exec(decimals))
    } else {
        raw
    }
}

/// What the fungible dispatch decides before any ledger call.
#[derive(PartialEq, Eq, Structural, Clone, Copy, Debug)]
pub enum FungiblePlan {
    /// No token canister on the asset: note `no_token_metadata`.
    NoTokenMetadata,
    /// The canister text does not parse: note `invalid token canister principal`.
    InvalidCanister,
    /// The computed amount is zero: note `zero_amount_skip`, counted skipped.
    Zero { },
    /// Custody funding without an approval record: error `missing_approval`.
    CustodyMissingApproval { amount: u128 },
    /// Custody funding with an untracked allowance: error `allowance_not_found_on_chain`.
    CustodyAllowanceUntracked { amount: u128 },
    /// Custody funding may proceed once the chain allowance is refreshed.
    CustodyNeedAllowance { amount: u128 },
    /// Direct payout without a destination principal: error `missing_destination_principal`.
    MissingDestination { amount: u128 },
    /// Direct payout without an approval record: error `missing_approval`.
    DirectMissingApproval { amount: u128 },
    /// Direct payout with an untracked allowance: error `allowance_not_found_on_chain`.
    DirectAllowanceUntracked { amount: u128 },
    /// Direct payout may proceed once the chain allowance is refreshed.
    DirectNeedAllowance { amount: u128 },
}

/// The share percentage recorded for a work item, zero when absent.
pub open spec fn item_pct_in(dv2: Seq<crate::model::distribution::DistributionShare>, asset_id: u64, heir_id: u64) -> u8
    decreases dv2.len(),
{
    if dv2.len() == 0 {
        0u8
    } else if dv2[0].asset_id == asset_id && dv2[0].heir_id == heir_id {
        dv2[0].percentage
    } else {
        item_pct_in(dv2.skip(1), asset_id, heir_id)
    }
}

pub proof fn lemma_item_pct_hit(
    dv2: Seq<crate::model::distribution::DistributionShare>,
    asset_id: u64,
    heir_id: u64,
    i: int,
)
    requires
        0 <= i < dv2.len(),
        dv2[i].asset_id == asset_id && dv2[i].heir_id == heir_id,
        forall|j: int| 0 <= j < i ==> !(dv2[j].asset_id == asset_id && dv2[j].heir_id == heir_id),
    ensures
        item_pct_in(dv2, asset_id, heir_id) == dv2[i].percentage,
    decreases dv2.len(),
{
    if i > 0 {
        lemma_item_pct_hit(dv2.skip(1), asset_id, heir_id, i - 1);
    }
}

pub proof fn lemma_item_pct_miss(
    dv2: Seq<crate::model::distribution::DistributionShare>,
    asset_id: u64,
    heir_id: u64,
)
    requires
        forall|j: int|
            0 <= j < dv2.len() ==> !(dv2[j].asset_id == asset_id && dv2[j].heir_id == heir_id),
    ensures
        item_pct_in(dv2, asset_id, heir_id) == 0u8,
    decreases dv2.len(),
{
    if dv2.len() > 0 {
        lemma_item_pct_miss(dv2.skip(1), asset_id, heir_id);
    }
}

/// The (value, decimals) of the item's asset, zeroes when absent.
pub open spec fn item_asset_value(u: User, asset_id: u64) -> (u64, u8) {
    let ai = crate::executor::first_asset_idx(u.assets@, asset_id);
    if ai >= 0 {
        (u.assets@[ai].value, u.assets@[ai].decimals)
    } else {
        (0u64, 0u8)
    }
}

/// The heir's bound principal, when one exists.
pub open spec fn item_heir_principal(heirs: Seq<crate::model::heir::HeirEx>, heir_id: u64) -> Option<String>
    decreases heirs.len(),
{
    if heirs.len() == 0 {
        None
    } else if heirs[0].id == heir_id {
        heirs[0].principal
    } else {
        item_heir_principal(heirs.skip(1), heir_id)
    }
}

pub proof fn lemma_item_heir_principal_hit(
    heirs: Seq<crate::model::heir::HeirEx>,
    heir_id: u64,
    i: int,
)
    requires
        0 <= i < heirs.len(),
        heirs[i].id == heir_id,
        forall|j: int| 0 <= j < i ==> heirs[j].id != heir_id,
    ensures
        item_heir_principal(heirs, heir_id) == heirs[i].principal,
    decreases heirs.len(),
{
    if i > 0 {
        lemma_item_heir_principal_hit(heirs.skip(1), heir_id, i - 1);
    }
}

pub proof fn lemma_item_heir_principal_miss(heirs: Seq<crate::model::heir::HeirEx>, heir_id: u64)
    requires
        forall|j: int| 0 <= j < heirs.len() ==> heirs[j].id != heir_id,
    ensures
        item_heir_principal(heirs, heir_id) is None,
    decreases heirs.len(),
{
    if heirs.len() > 0 {
        lemma_item_heir_principal_miss(heirs.skip(1), heir_id);
    }
}

/// The locally tracked allowance of an asset's approval record.
pub open spec fn spec_local_allowance(approvals: Seq<crate::model::custody::ApprovalRecord>, asset_id: u64) -> Option<u128>
    decreases approvals.len(),
{
    if approvals.len() == 0 {
        None
    } else if approvals[0].asset_id == asset_id {
        approvals[0].allowance
    } else {
        spec_local_allowance(approvals.skip(1), asset_id)
    }
}

pub proof fn lemma_local_allowance_hit(
    approvals: Seq<crate::model::custody::ApprovalRecord>,
    asset_id: u64,
    i: int,
)
    requires
        0 <= i < approvals.len(),
        approvals[i].asset_id == asset_id,
        forall|j: int| 0 <= j < i ==> approvals[j].asset_id != asset_id,
    ensures
        spec_local_allowance(approvals, asset_id) == approvals[i].allowance,
    decreases approvals.len(),
{
    if i > 0 {
        lemma_local_allowance_hit(approvals.skip(1), asset_id, i - 1);
    }
}

pub proof fn lemma_local_allowance_miss(
    approvals: Seq<crate::model::custody::ApprovalRecord>,
    asset_id: u64,
)
    requires
        forall|j: int| 0 <= j < approvals.len() ==> approvals[j].asset_id != asset_id,
    ensures
        spec_local_allowance(approvals, asset_id) is None,
    decreases approvals.len(),
{
    if approvals.len() > 0 {
        lemma_local_allowance_miss(approvals.skip(1), asset_id);
    }
}

/// Decide the fungible dispatch plan for a work item, before any call: the
/// amount, the custody-versus-direct path, and every refusal that needs no
/// ledger round trip.
pub fn fungible_plan(u: &User, w: &WorkItem) -> (r: FungiblePlan)
    ensures
        (match w.token_canister {
            None => r == FungiblePlan::NoTokenMetadata,
            Some(c) => {
                if !principal_text_valid(c@) {
                    r == FungiblePlan::InvalidCanister
                } else {
                    {
                        let (value, decimals) = item_asset_value(*u, w.asset_id);
                        let amount = spec_transfer_amount(
                            value,
                            item_pct_in(u.distributions_v2@, w.asset_id, w.heir_id),
                            decimals,
                        );
                        if amount == 0 {
                            r == (FungiblePlan::Zero { })
                        } else if w.payout_pref == PayoutPreference::ToCustody {
                            if !crate::common::has_approval(u.approvals@, w.asset_id) {
                                r == (FungiblePlan::CustodyMissingApproval { amount })
                            } else if spec_local_allowance(u.approvals@, w.asset_id) is None {
                                r == (FungiblePlan::CustodyAllowanceUntracked { amount })
                            } else {
                                r == (FungiblePlan::CustodyNeedAllowance { amount })
                            }
                        } else {
                            match item_heir_principal(u.heirs_v2@, w.heir_id) {
                                None => r == (FungiblePlan::MissingDestination { amount }),
                                Some(p) => {
                                    if !principal_text_valid(p@) {
                                        r == (FungiblePlan::MissingDestination { amount })
                                    } else if !crate::common::has_approval(
                                        u.approvals@,
                                        w.asset_id,
                                    ) {
                                        r == (FungiblePlan::DirectMissingApproval { amount })
                                    } else if spec_local_allowance(u.approvals@, w.asset_id)
                                        is None {
                                        r == (FungiblePlan::DirectAllowanceUntracked { amount })
                                    } else {
                                        r == (FungiblePlan::DirectNeedAllowance { amount })
                                    }
                                },
                            }
                        }
                    }
                }
            },
        }),
{
    let can = match &w.token_canister {
        None => {
            return FungiblePlan::NoTokenMetadata;
        },
        Some(c) => c,
    };
    if !is_valid_principal(can.as_str()) {
        return FungiblePlan::InvalidCanister;
    }
    proof {
        crate::executor::lemma_first_asset_idx(u.assets@, w.asset_id);
    }
    let (value, decimals) = match crate::common::find_asset(&u.assets, w.asset_id) {
        Some(ai) => {
            proof {
                let fi = crate::executor::first_asset_idx(u.assets@, w.asset_id);
                if fi < 0 {
                    assert(u.assets@[ai as int].id != w.asset_id);
                    assert(false);
                }
                crate::executor::lemma_first_asset_unique(
                    u.assets@,
                    w.asset_id,
                    fi,
                    ai as int,
                );
            }
            (u.assets[ai].value, u.assets[ai].decimals)
        },
        None => {
            proof {
                let fi = crate::executor::first_asset_idx(u.assets@, w.asset_id);
                if fi >= 0 {
                    assert(crate::executor::first_asset(u.assets@, w.asset_id, fi));
                    assert(false);
                }
            }
            (0u64, 0u8)
        },
    };
    let pct = match find_share(&u.distributions_v2, w.asset_id, w.heir_id) {
        Some(di) => {
            proof {
                lemma_item_pct_hit(u.distributions_v2@, w.asset_id, w.heir_id, di as int);
            }
            u.distributions_v2[di].percentage
        },
        None => {
            proof {
                lemma_item_pct_miss(u.distributions_v2@, w.asset_id, w.heir_id);
            }
            0
        },
    };
    let amount = transfer_amount(value, pct, decimals);
    if amount == 0 {
        return FungiblePlan::Zero { };
    }
    if w.payout_pref == PayoutPreference::ToCustody {
        match find_approval(&u.approvals, w.asset_id) {
            None => FungiblePlan::CustodyMissingApproval { amount },
            Some(ai) => {
                proof {
                    lemma_local_allowance_hit(u.approvals@, w.asset_id, ai as int);
                }
                match u.approvals[ai].allowance {
                    None => FungiblePlan::CustodyAllowanceUntracked { amount },
                    Some(_) => FungiblePlan::CustodyNeedAllowance { amount },
                }
            },
        }
    } else {
        let hp = match find_heir_ex(&u.heirs_v2, w.heir_id) {
            Some(hi) => {
                proof {
                    lemma_item_heir_principal_hit(u.heirs_v2@, w.heir_id, hi as int);
                }
                match &u.heirs_v2[hi].principal {
                    Some(p) => Some(p.clone()),
                    None => None,
                }
            },
            None => {
                proof {
                    lemma_item_heir_principal_miss(u.heirs_v2@, w.heir_id);
                }
                None
            },
        };
        match hp {
            None => FungiblePlan::MissingDestination { amount },
            Some(p) => {
                if !is_valid_principal(p.as_str()) {
                    FungiblePlan::MissingDestination { amount }
                } else {
                    match find_approval(&u.approvals, w.asset_id) {
                        None => FungiblePlan::DirectMissingApproval { amount },
                        Some(ai) => {
                            proof {
                                lemma_local_allowance_hit(u.approvals@, w.asset_id, ai as int);
                            }
                            match u.approvals[ai].allowance {
                                None => FungiblePlan::DirectAllowanceUntracked { amount },
                                Some(_) => FungiblePlan::DirectNeedAllowance { amount },
                            }
                        },
                    }
                }
            },
        }
    }
}

/// What the fungible dispatch does once the chain allowance is known.
#[derive(PartialEq, Eq, Structural, Clone, Copy, Debug)]
pub enum FungibleCall {
    /// The effective allowance cannot cover a custody pull: error
    /// `allowance_not_found_on_chain`.
    CustodyShort,
    /// Pull `amount` from the owner into the custody subaccount through
    /// `icrc2_transfer_from`.
    PullToCustody { amount: u128 },
    /// Send `amount` to the heir through `icrc2_transfer_from`.
    SendTransferFrom { amount: u128 },
    /// Fall back to a direct `icrc1_transfer` of `amount`.
    SendTransfer { amount: u128 },
}

/// Decide the ledger call once the chain allowance has been refreshed
/// (`None` keeps the locally tracked figure). On the custody path this also
/// makes sure the heir's custody subaccount record exists.
pub fn fungible_with_allowance(
    u: &mut User,
    w: &WorkItem,
    custody_path: bool,
    amount: u128,
    chain_allowance: Option<u128>,
) -> (r: FungibleCall)
    ensures
        *final(u) == (User { custody: final(u).custody, ..*old(u) }),
        ({
            let effective = match chain_allowance {
                Some(a) => Some(a),
                None => spec_local_allowance(old(u).approvals@, w.asset_id),
            };
            match effective {
                None => r == (if custody_path {
                    FungibleCall::CustodyShort
                } else {
                    FungibleCall::SendTransfer { amount }
                }),
                Some(eff) => {
                    if custody_path {
                        if eff < amount {
                            r == FungibleCall::CustodyShort && final(u).custody@ == old(
                                u,
                            ).custody@
                        } else {
                            r == (FungibleCall::PullToCustody { amount })
                                && crate::common::has_custody(final(u).custody@, w.heir_id)
                        }
                    } else {
                        if eff >= amount {
                            r == (FungibleCall::SendTransferFrom { amount })
                        } else {
                            r == (FungibleCall::SendTransfer { amount })
                        }
                    }
                },
            }
        }),
{
    let effective = match chain_allowance {
        Some(a) => Some(a),
        None => {
            match find_approval(&u.approvals, w.asset_id) {
                Some(ai) => {
                    proof {
                        lemma_local_allowance_hit(u.approvals@, w.asset_id, ai as int);
                    }
                    u.approvals[ai].allowance
                },
                None => {
                    proof {
                        lemma_local_allowance_miss(u.approvals@, w.asset_id);
                    }
                    None
                },
            }
        },
    };
    if custody_path {
        match effective {
            None => FungibleCall::CustodyShort,
            Some(eff) => {
                if eff < amount {
                    FungibleCall::CustodyShort
                } else {
                    if find_custody(&u.custody, w.heir_id).is_none() {
                        let sub = derive_custody_subaccount(u.user.as_str(), w.heir_id);
                        u.custody.push(CustodyRecord { heir_id: w.heir_id, subaccount: sub });
                        proof {
                            assert(u.custody@[u.custody@.len() - 1].heir_id == w.heir_id);
                        }
                    }
                    FungibleCall::PullToCustody { amount }
                }
            },
        }
    } else {
        match effective {
            None => FungibleCall::SendTransfer { amount },
            Some(eff) => {
                if eff >= amount {
                    FungibleCall::SendTransferFrom { amount }
                } else {
                    FungibleCall::SendTransfer { amount }
                }
            },
        }
    }
}

/// Saturating sum in the wide type.
pub open spec fn sat_add_u128(a: u128, b: u128) -> u128 {
    if a + b > u128::MAX {
        u128::MAX
    } else {
        (a + b) as u128
    }
}

/// After a successful custody pull: the tracked allowance of the first
/// approval drops by the pulled amount and the first open custody record of
/// the pair accumulates it (a fresh record is staged and audited when none
/// is open).
pub fn apply_custody_pull_success(u: &mut User, w: &WorkItem, amount: u128, now: u64)
    ensures
        *final(u) == (User {
            approvals: final(u).approvals,
            fungible_custody: final(u).fungible_custody,
            audit_log: final(u).audit_log,
            ..*old(u)
        }),
        final(u).fungible_custody@.len() >= old(u).fungible_custody@.len(),
        !has_approval(old(u).approvals@, w.asset_id) ==> final(u).approvals@ == old(u).approvals@,
        forall|ai: int|
            #[trigger] first_approval_at(old(u).approvals@, w.asset_id, ai) ==> final(u).approvals@
                == old(u).approvals@.update(
                ai,
                crate::model::custody::ApprovalRecord {
                    allowance: spec_dec_allowance(old(u).approvals@[ai].allowance, amount),
                    ..old(u).approvals@[ai]
                },
            ),
        !has_open_fungible_custody(old(u).fungible_custody@, w.asset_id, w.heir_id)
            ==> final(u).fungible_custody@ == old(u).fungible_custody@.push(
            FungibleCustodyRecord {
                asset_id: w.asset_id,
                heir_id: w.heir_id,
                amount,
                staged_at: now,
                released_at: None,
                attempts: 0,
                last_error: None,
                releasing: false,
                next_attempt_after: None,
            },
        ) && final(u).audit_log@ == spec_push_audit(
            old(u).audit_log@,
            AuditEventKind::FungibleCustodyStaged {
                asset_id: w.asset_id,
                heir_id: w.heir_id,
                amount,
            },
            now,
        ),
        forall|ci: int|
            #[trigger] first_open_fc_at(old(u).fungible_custody@, w.asset_id, w.heir_id, ci)
                ==> final(u).fungible_custody@ == old(u).fungible_custody@.update(
                ci,
                FungibleCustodyRecord {
                    amount: sat_add_u128(old(u).fungible_custody@[ci].amount, amount),
                    ..old(u).fungible_custody@[ci]
                },
            ) && final(u).audit_log@ == old(u).audit_log@,
{
    match find_approval(&u.approvals, w.asset_id) {
        Some(ai) => {
            proof {
                assert(first_approval_at(old(u).approvals@, w.asset_id, ai as int));
                assert forall|aj: int|
                    #[trigger] first_approval_at(old(u).approvals@, w.asset_id, aj) implies aj
                    == ai as int by {
                    if aj < ai as int {
                        assert(old(u).approvals@[aj].asset_id == w.asset_id);
                    }
                    if aj > ai as int {
                        assert(old(u).approvals@[ai as int].asset_id != w.asset_id);
                    }
                }
            }
            let rec = u.approvals.remove(ai);
            let new_allowance = match rec.allowance {
                Some(alw) => {
                    if alw >= amount {
                        Some(alw - amount)
                    } else {
                        Some(0)
                    }
                },
                None => None,
            };
            u.approvals.insert(
                ai,
                crate::model::custody::ApprovalRecord { allowance: new_allowance, ..rec },
            );
            proof {
                assert(u.approvals@ =~= old(u).approvals@.update(
                    ai as int,
                    crate::model::custody::ApprovalRecord {
                        allowance: spec_dec_allowance(
                            old(u).approvals@[ai as int].allowance,
                            amount,
                        ),
                        ..old(u).approvals@[ai as int]
                    },
                ));
            }
        },
        None => {},
    }
    match crate::common::find_open_fungible_custody(&u.fungible_custody, w.asset_id, w.heir_id) {
        Some(ci) => {
            proof {
                assert(first_open_fc_at(
                    old(u).fungible_custody@,
                    w.asset_id,
                    w.heir_id,
                    ci as int,
                ));
                assert forall|cj: int|
                    #[trigger] first_open_fc_at(
                        old(u).fungible_custody@,
                        w.asset_id,
                        w.heir_id,
                        cj,
                    ) implies cj == ci as int by {
                    if cj < ci as int {
                        assert(open_fc(old(u).fungible_custody@[cj], w.asset_id, w.heir_id));
                    }
                    if cj > ci as int {
                        assert(!open_fc(
                            old(u).fungible_custody@[ci as int],
                            w.asset_id,
                            w.heir_id,
                        ));
                    }
                }
            }
            let rec = u.fungible_custody.remove(ci);
            let new_amount = if rec.amount > u128::MAX - amount {
                u128::MAX
            } else {
                rec.amount + amount
            };
            u.fungible_custody.insert(
                ci,
                FungibleCustodyRecord { amount: new_amount, ..rec },
            );
            proof {
                assert(u.fungible_custody@ =~= old(u).fungible_custody@.update(
                    ci as int,
                    FungibleCustodyRecord {
                        amount: sat_add_u128(old(u).fungible_custody@[ci as int].amount, amount),
                        ..old(u).fungible_custody@[ci as int]
                    },
                ));
            }
        },
        None => {
            u.fungible_custody.push(
                FungibleCustodyRecord {
                    asset_id: w.asset_id,
                    heir_id: w.heir_id,
                    amount,
                    staged_at: now,
                    released_at: None,
                    attempts: 0,
                    last_error: None,
                    releasing: false,
                    next_attempt_after: None,
                },
            );
            push_audit(
                u,
                AuditEventKind::FungibleCustodyStaged {
                    asset_id: w.asset_id,
                    heir_id: w.heir_id,
                    amount,
                },
                now,
            );
        },
    }
}

/// Escrow-mode fungible dispatch: compute the heir's share of the logical
/// escrow remaining and enqueue the asynchronous release; a zero share or a
/// missing or unparsable heir principal resolves immediately.
#[derive(PartialEq, Eq, Structural, Clone, Copy, Debug)]
pub enum EscrowPlan {
    /// Empty escrow or a zero percentage: note `escrow_release_zero`.
    Zero,
    /// Release enqueued for the retry scheduler: note `escrow_release_enqueued`.
    Enqueued { amount: u128 },
    /// No heir principal on file: note `escrow_release`, error `missing_heir_principal`.
    MissingHeirPrincipal { amount: u128 },
    /// The heir principal does not parse: note `escrow_release`, error `invalid_heir_principal`.
    InvalidHeirPrincipal { amount: u128 },
    /// No token canister or an unparsable one: note `escrow_release`.
    NoCanister { amount: u128 },
}

/// The escrow dispatch resolves to zero work: empty escrow or no share.
pub open spec fn escrow_zero_case(u: User, w: WorkItem) -> bool {
    crate::executor::escrow_remaining(u, w.asset_id) == 0 || item_pct_in(
        u.distributions_v2@,
        w.asset_id,
        w.heir_id,
    ) == 0
}

/// The work item names a token canister that parses as a principal.
pub open spec fn item_canister_ok(w: WorkItem) -> bool {
    match w.token_canister {
        Some(c) => principal_text_valid(c@),
        None => false,
    }
}

/// The heir has a bound principal that parses.
pub open spec fn heir_principal_ok(u: User, heir_id: u64) -> bool {
    match item_heir_principal(u.heirs_v2@, heir_id) {
        Some(p) => principal_text_valid(p@),
        None => false,
    }
}

/// Decide and stage the escrow-mode dispatch of a fungible work item: each
/// plan variant comes on exactly one condition, and enqueueing appends one
/// escrow-release retry.
pub fn escrow_dispatch(u: &mut User, w: &WorkItem, now: u64) -> (r: EscrowPlan)
    ensures
        *final(u) == (User {
            retry_queue: final(u).retry_queue,
            retry_seq: final(u).retry_seq,
            audit_log: final(u).audit_log,
            ..*old(u)
        }),
        r == EscrowPlan::Zero <==> escrow_zero_case(*old(u), *w),
        r matches EscrowPlan::NoCanister { .. } <==> !escrow_zero_case(*old(u), *w)
            && !item_canister_ok(*w),
        r matches EscrowPlan::MissingHeirPrincipal { .. } <==> !escrow_zero_case(*old(u), *w)
            && item_canister_ok(*w) && item_heir_principal(old(u).heirs_v2@, w.heir_id) is None,
        r matches EscrowPlan::InvalidHeirPrincipal { .. } <==> !escrow_zero_case(*old(u), *w)
            && item_canister_ok(*w) && (match item_heir_principal(old(u).heirs_v2@, w.heir_id) {
            Some(p) => !principal_text_valid(p@),
            None => false,
        }),
        r matches EscrowPlan::Enqueued { .. } <==> !escrow_zero_case(*old(u), *w)
            && item_canister_ok(*w) && heir_principal_ok(*old(u), w.heir_id),
        (match r {
            EscrowPlan::Zero => true,
            EscrowPlan::Enqueued { amount } => amount == spec_escrow_share(*old(u), *w),
            EscrowPlan::MissingHeirPrincipal { amount } => amount == spec_escrow_share(*old(u), *w),
            EscrowPlan::InvalidHeirPrincipal { amount } => amount == spec_escrow_share(*old(u), *w),
            EscrowPlan::NoCanister { amount } => amount == spec_escrow_share(*old(u), *w),
        }),
        !(r matches EscrowPlan::Enqueued { .. }) ==> final(u).retry_queue == old(u).retry_queue
            && final(u).audit_log@ == old(u).audit_log@ && final(u).retry_seq == old(u).retry_seq,
        r matches EscrowPlan::Enqueued { .. } ==> final(u).retry_queue matches Some(q) && q@ == (
        match old(u).retry_queue {
            Some(v) => v@,
            None => Seq::<RetryItem>::empty(),
        }).push(
            spec_enqueued_item(
                *old(u),
                RetryKind::EscrowRelease { asset_id: w.asset_id, heir_id: w.heir_id },
                5,
                now,
            ),
        ),
{
    let total: u128 = match find_escrow(&u.escrow, w.asset_id) {
        Some(ei) => {
            match u.escrow[ei].amount {
                Some(a) => a,
                None => 0,
            }
        },
        None => 0,
    };
    proof {
        assert(total as int == crate::executor::escrow_remaining(*old(u), w.asset_id));
    }
    let pct = match find_share(&u.distributions_v2, w.asset_id, w.heir_id) {
        Some(di) => {
            proof {
                lemma_item_pct_hit(u.distributions_v2@, w.asset_id, w.heir_id, di as int);
            }
            u.distributions_v2[di].percentage
        },
        None => {
            proof {
                lemma_item_pct_miss(u.distributions_v2@, w.asset_id, w.heir_id);
            }
            0
        },
    };
    if total == 0 || pct == 0 {
        return EscrowPlan::Zero;
    }
    let amount = sat_mul_u128_exec(total, pct as u128) / 100;
    let can_ok = match &w.token_canister {
        Some(c) => is_valid_principal(c.as_str()),
        None => false,
    };
    if !can_ok {
        return EscrowPlan::NoCanister { amount };
    }
    let hp = match find_heir_ex(&u.heirs_v2, w.heir_id) {
        Some(hi) => {
            proof {
                lemma_item_heir_principal_hit(u.heirs_v2@, w.heir_id, hi as int);
            }
            match &u.heirs_v2[hi].principal {
                Some(p) => Some(p.clone()),
                None => None,
            }
        },
        None => {
            proof {
                lemma_item_heir_principal_miss(u.heirs_v2@, w.heir_id);
            }
            None
        },
    };
    match hp {
        None => EscrowPlan::MissingHeirPrincipal { amount },
        Some(p) => {
            if !is_valid_principal(p.as_str()) {
                EscrowPlan::InvalidHeirPrincipal { amount }
            } else {
                crate::retry::enqueue_retry(
                    u,
                    crate::retry::RetryKind::EscrowRelease {
                        asset_id: w.asset_id,
                        heir_id: w.heir_id,
                    },
                    5,
                    now,
                );
                EscrowPlan::Enqueued { amount }
            }
        },
    }
}

/// The amount one escrow release pays a heir: that heir's share of the
/// logical escrow remaining at release time, `total * pct / 100` with
/// saturation.
pub fn escrow_release_share(u: &User, asset_id: u64, heir_id: u64) -> (r: u128)
    ensures
        r == (sat_mul_u128(
            crate::executor::escrow_remaining(*u, asset_id) as u128,
            item_pct_in(u.distributions_v2@, asset_id, heir_id) as u128,
        ) / 100) as u128,
{
    let total: u128 = match find_escrow(&u.escrow, asset_id) {
        Some(ei) => {
            match u.escrow[ei].amount {
                Some(a) => a,
                None => 0,
            }
        },
        None => 0,
    };
    proof {
        assert(total as int == crate::executor::escrow_remaining(*u, asset_id));
    }
    let pct = match find_share(&u.distributions_v2, asset_id, heir_id) {
        Some(di) => {
            proof {
                lemma_item_pct_hit(u.distributions_v2@, asset_id, heir_id, di as int);
            }
            u.distributions_v2[di].percentage
        },
        None => {
            proof {
                lemma_item_pct_miss(u.distributions_v2@, asset_id, heir_id);
            }
            0
        },
    };
    sat_mul_u128_exec(total, pct as u128) / 100
}

/// The heir's share of the current logical escrow remaining.
pub open spec fn spec_escrow_share(u: User, w: WorkItem) -> u128 {
    let total = crate::executor::escrow_remaining(u, w.asset_id);
    let pct = item_pct_in(u.distributions_v2@, w.asset_id, w.heir_id);
    (sat_mul_u128(total as u128, pct as u128) / 100) as u128
}

/// What the NFT dispatch decides before any transfer call.
#[derive(Debug)]
pub enum NftPlan {
    /// No token id on the item: note `nft_no_token_id`.
    NoTokenId,
    /// No heir principal: the token stages into custody.
    StageCustody { token_id: u64 },
    /// The heir principal does not parse: error `invalid_heir_principal`.
    InvalidHeirPrincipal,
    /// No approval covering the token: error `missing_approval`.
    MissingApproval,
    /// No token canister on the asset: note `nft_no_token_canister`.
    NoCanister,
    /// The canister text does not parse: error `invalid_token_canister_principal`.
    InvalidCanister,
    /// The asset names a standard outside the adapters: error
    /// `nft_standard_unsupported:<s>`.
    Unsupported { standard: String },
    /// Call the adapter of the standard.
    Call { token_id: u64, standard: crate::model::base::NftStandard },
}

/// An approval record covers the token.
pub open spec fn has_token_approval(
    approvals: Seq<crate::model::custody::ApprovalRecord>,
    asset_id: u64,
    token_id: u64,
) -> bool {
    exists|i: int|
        0 <= i < approvals.len() && approvals[i].asset_id == asset_id && approvals[i].token_id
            == Some(token_id)
}

fn find_token_approval(
    approvals: &Vec<crate::model::custody::ApprovalRecord>,
    asset_id: u64,
    token_id: u64,
) -> (r: bool)
    ensures
        r == has_token_approval(approvals@, asset_id, token_id),
{
    let mut i: usize = 0;
    while i < approvals.len()
        invariant
            i <= approvals@.len(),
            forall|j: int|
                0 <= j < i ==> !(approvals@[j].asset_id == asset_id && approvals@[j].token_id
                    == Some(token_id)),
        decreases approvals@.len() - i,
    {
        if approvals[i].asset_id == asset_id && approvals[i].token_id == Some(token_id) {
            return true;
        }
        i = i + 1;
    }
    false
}

/// The NFT standard recorded on the first asset with this id.
pub open spec fn item_nft_standard(assets: Seq<crate::model::asset::Asset>, asset_id: u64) -> Option<crate::model::base::NftStandard>
    decreases assets.len(),
{
    if assets.len() == 0 {
        None
    } else if assets[0].id == asset_id {
        assets[0].nft_standard
    } else {
        item_nft_standard(assets.skip(1), asset_id)
    }
}

pub proof fn lemma_item_nft_standard_hit(
    assets: Seq<crate::model::asset::Asset>,
    asset_id: u64,
    i: int,
)
    requires
        0 <= i < assets.len(),
        assets[i].id == asset_id,
        forall|j: int| 0 <= j < i ==> assets[j].id != asset_id,
    ensures
        item_nft_standard(assets, asset_id) == assets[i].nft_standard,
    decreases assets.len(),
{
    if i > 0 {
        lemma_item_nft_standard_hit(assets.skip(1), asset_id, i - 1);
    }
}

pub proof fn lemma_item_nft_standard_miss(assets: Seq<crate::model::asset::Asset>, asset_id: u64)
    requires
        forall|j: int| 0 <= j < assets.len() ==> assets[j].id != asset_id,
    ensures
        item_nft_standard(assets, asset_id) is None,
    decreases assets.len(),
{
    if assets.len() > 0 {
        lemma_item_nft_standard_miss(assets.skip(1), asset_id);
    }
}

/// The NFT delivery guards short of the standard: a token id, a bound and
/// parsable heir principal, a covering approval, and a parsable canister.
pub open spec fn nft_deliverable(u: User, w: WorkItem) -> bool {
    &&& w.token_id is Some
    &&& heir_principal_ok(u, w.heir_id)
    &&& has_token_approval(u.approvals@, w.asset_id, w.token_id.unwrap())
    &&& item_canister_ok(w)
}

/// Decide the NFT dispatch: a missing heir principal stages the token into
/// custody, an unparsable one is an error; delivery needs an approval
/// covering the token, a parsable canister, and a supported standard. Each
/// plan variant comes on exactly one condition.
pub fn nft_plan(u: &User, w: &WorkItem) -> (r: NftPlan)
    ensures
        w.token_id is None <==> r matches NftPlan::NoTokenId,
        (w.token_id matches Some(t) && item_heir_principal(u.heirs_v2@, w.heir_id) is None)
            <==> (r matches NftPlan::StageCustody { token_id } && w.token_id == Some(token_id)),
        r matches NftPlan::InvalidHeirPrincipal <==> w.token_id is Some && (match item_heir_principal(
            u.heirs_v2@,
            w.heir_id,
        ) {
            Some(p) => !principal_text_valid(p@),
            None => false,
        }),
        r matches NftPlan::MissingApproval <==> w.token_id is Some && heir_principal_ok(
            *u,
            w.heir_id,
        ) && !has_token_approval(u.approvals@, w.asset_id, w.token_id.unwrap()),
        r matches NftPlan::NoCanister <==> w.token_id is Some && heir_principal_ok(*u, w.heir_id)
            && has_token_approval(u.approvals@, w.asset_id, w.token_id.unwrap())
            && w.token_canister is None,
        r matches NftPlan::InvalidCanister <==> w.token_id is Some && heir_principal_ok(
            *u,
            w.heir_id,
        ) && has_token_approval(u.approvals@, w.asset_id, w.token_id.unwrap()) && (match w.token_canister {
            Some(c) => !principal_text_valid(c@),
            None => false,
        }),
        r matches NftPlan::Unsupported { .. } <==> nft_deliverable(*u, *w) && (match item_nft_standard(
            u.assets@,
            w.asset_id,
        ) {
            Some(crate::model::base::NftStandard::Other(_)) => true,
            _ => false,
        }),
        r matches NftPlan::Unsupported { standard } ==> (match item_nft_standard(
            u.assets@,
            w.asset_id,
        ) {
            Some(crate::model::base::NftStandard::Other(s)) => standard@ == s@,
            _ => false,
        }),
        r matches NftPlan::Call { .. } <==> nft_deliverable(*u, *w) && !(match item_nft_standard(
            u.assets@,
            w.asset_id,
        ) {
            Some(crate::model::base::NftStandard::Other(_)) => true,
            _ => false,
        }),
        r matches NftPlan::Call { token_id, standard } ==> w.token_id == Some(token_id)
            && has_token_approval(u.approvals@, w.asset_id, token_id) && standard == (
        match item_nft_standard(u.assets@, w.asset_id) {
            Some(crate::model::base::NftStandard::Ext) => crate::model::base::NftStandard::Ext,
            _ => crate::model::base::NftStandard::Dip721,
        }),
{
    let token_id = match w.token_id {
        Some(t) => t,
        None => {
            return NftPlan::NoTokenId;
        },
    };
    let hp = match find_heir_ex(&u.heirs_v2, w.heir_id) {
        Some(hi) => {
            proof {
                lemma_item_heir_principal_hit(u.heirs_v2@, w.heir_id, hi as int);
            }
            match &u.heirs_v2[hi].principal {
                Some(p) => Some(p.clone()),
                None => None,
            }
        },
        None => {
            proof {
                lemma_item_heir_principal_miss(u.heirs_v2@, w.heir_id);
            }
            None
        },
    };
    let hp = match hp {
        Some(p) => p,
        None => {
            return NftPlan::StageCustody { token_id };
        },
    };
    if !is_valid_principal(hp.as_str()) {
        return NftPlan::InvalidHeirPrincipal;
    }
    if !find_token_approval(&u.approvals, w.asset_id, token_id) {
        return NftPlan::MissingApproval;
    }
    let can = match &w.token_canister {
        Some(c) => c,
        None => {
            return NftPlan::NoCanister;
        },
    };
    if !is_valid_principal(can.as_str()) {
        return NftPlan::InvalidCanister;
    }
    let standard = match crate::common::find_asset(&u.assets, w.asset_id) {
        Some(ai) => {
            proof {
                lemma_item_nft_standard_hit(u.assets@, w.asset_id, ai as int);
            }
            match &u.assets[ai].nft_standard {
                Some(crate::model::base::NftStandard::Dip721) => {
                    crate::model::base::NftStandard::Dip721
                },
                Some(crate::model::base::NftStandard::Ext) => crate::model::base::NftStandard::Ext,
                Some(crate::model::base::NftStandard::Other(s)) => {
                    return NftPlan::Unsupported { standard: s.clone() };
                },
                None => crate::model::base::NftStandard::Dip721,
            }
        },
        None => {
            proof {
                lemma_item_nft_standard_miss(u.assets@, w.asset_id);
            }
            crate::model::base::NftStandard::Dip721
        },
    };
    NftPlan::Call { token_id, standard }
}

/// Stage an NFT into custody for its heir, once per (asset, heir, token).
pub fn nft_stage_custody(u: &mut User, w: &WorkItem, token_id: u64, now: u64)
    ensures
        *final(u) == (User {
            nft_custody: final(u).nft_custody,
            audit_log: final(u).audit_log,
            ..*old(u)
        }),
        crate::common::has_nft_custody(final(u).nft_custody@, w.asset_id, w.heir_id, token_id),
        crate::common::has_nft_custody(old(u).nft_custody@, w.asset_id, w.heir_id, token_id)
            ==> *final(u) == *old(u),
{
    if crate::common::find_nft_custody(&u.nft_custody, w.asset_id, w.heir_id, token_id).is_some() {
        return ;
    }
    u.nft_custody.push(
        crate::model::custody::NftCustodyRecord {
            asset_id: w.asset_id,
            heir_id: w.heir_id,
            token_id,
            staged_at: now,
            released_at: None,
            attempts: 0,
            last_error: None,
            releasing: false,
            next_attempt_after: None,
        },
    );
    proof {
        assert(u.nft_custody@[u.nft_custody@.len() - 1].token_id == token_id);
    }
    push_audit(
        u,
        AuditEventKind::NftCustodyStaged { asset_id: w.asset_id, heir_id: w.heir_id, token_id },
        now,
    );
}

/// The note and error a fungible plan resolves to when no ledger call is
/// made; the variants that proceed to a call carry neither.
pub fn fungible_plan_texts(p: &FungiblePlan) -> (r: (Option<String>, Option<String>))
    ensures
        (match p {
            FungiblePlan::NoTokenMetadata => (r.0 matches Some(n) && n@ == "no_token_metadata"@)
                && r.1 is None,
            FungiblePlan::InvalidCanister => (r.0 matches Some(n) && n@
                == "invalid token canister principal"@) && r.1 is None,
            FungiblePlan::Zero {  } => (r.0 matches Some(n) && n@ == "zero_amount_skip"@)
                && r.1 is None,
            FungiblePlan::CustodyMissingApproval { .. } => r.0 is None && (r.1 matches Some(e)
                && e@ == "missing_approval"@),
            FungiblePlan::DirectMissingApproval { .. } => r.0 is None && (r.1 matches Some(e) && e@
                == "missing_approval"@),
            FungiblePlan::CustodyAllowanceUntracked { .. } => r.0 is None && (r.1 matches Some(e)
                && e@ == "allowance_not_found_on_chain"@),
            FungiblePlan::DirectAllowanceUntracked { .. } => r.0 is None && (r.1 matches Some(e)
                && e@ == "allowance_not_found_on_chain"@),
            FungiblePlan::MissingDestination { .. } => r.0 is None && (r.1 matches Some(e) && e@
                == "missing_destination_principal"@),
            FungiblePlan::CustodyNeedAllowance { .. } => r.0 is None && r.1 is None,
            FungiblePlan::DirectNeedAllowance { .. } => r.0 is None && r.1 is None,
        }),
{
    match p {
        FungiblePlan::NoTokenMetadata => (
            Some(<String as StringExecFns>::from_str("no_token_metadata")),
            None,
        ),
        FungiblePlan::InvalidCanister => (
            Some(<String as StringExecFns>::from_str("invalid token canister principal")),
            None,
        ),
        FungiblePlan::Zero {  } => (
            Some(<String as StringExecFns>::from_str("zero_amount_skip")),
            None,
        ),
        FungiblePlan::CustodyMissingApproval { .. } | FungiblePlan::DirectMissingApproval {
            ..
        } => (None, Some(<String as StringExecFns>::from_str("missing_approval"))),
        FungiblePlan::CustodyAllowanceUntracked { .. } | FungiblePlan::DirectAllowanceUntracked {
            ..
        } => (None, Some(<String as StringExecFns>::from_str("allowance_not_found_on_chain"))),
        FungiblePlan::MissingDestination { .. } => (
            None,
            Some(<String as StringExecFns>::from_str("missing_destination_principal")),
        ),
        FungiblePlan::CustodyNeedAllowance { .. } | FungiblePlan::DirectNeedAllowance { .. } => (
            None,
            None,
        ),
    }
}

/// The note a custody pull's ledger outcome records.
pub fn custody_pull_note(success: bool) -> (r: String)
    ensures
        success ==> r@ == "custody_funded"@,
        !success ==> r@ == "custody_funding_failed"@,
{
    if success {
        <String as StringExecFns>::from_str("custody_funded")
    } else {
        <String as StringExecFns>::from_str("custody_funding_failed")
    }
}

/// The note and error an escrow plan resolves to.
pub fn escrow_plan_texts(p: &EscrowPlan) -> (r: (Option<String>, Option<String>))
    ensures
        (match p {
            EscrowPlan::Zero => (r.0 matches Some(n) && n@ == "escrow_release_zero"@)
                && r.1 is None,
            EscrowPlan::Enqueued { .. } => (r.0 matches Some(n) && n@
                == "escrow_release_enqueued"@) && r.1 is None,
            EscrowPlan::MissingHeirPrincipal { .. } => (r.0 matches Some(n) && n@
                == "escrow_release"@) && (r.1 matches Some(e) && e@ == "missing_heir_principal"@),
            EscrowPlan::InvalidHeirPrincipal { .. } => (r.0 matches Some(n) && n@
                == "escrow_release"@) && (r.1 matches Some(e) && e@ == "invalid_heir_principal"@),
            EscrowPlan::NoCanister { .. } => (r.0 matches Some(n) && n@ == "escrow_release"@)
                && r.1 is None,
        }),
{
    match p {
        EscrowPlan::Zero => (
            Some(<String as StringExecFns>::from_str("escrow_release_zero")),
            None,
        ),
        EscrowPlan::Enqueued { .. } => (
            Some(<String as StringExecFns>::from_str("escrow_release_enqueued")),
            None,
        ),
        EscrowPlan::MissingHeirPrincipal { .. } => (
            Some(<String as StringExecFns>::from_str("escrow_release")),
            Some(<String as StringExecFns>::from_str("missing_heir_principal")),
        ),
        EscrowPlan::InvalidHeirPrincipal { .. } => (
            Some(<String as StringExecFns>::from_str("escrow_release")),
            Some(<String as StringExecFns>::from_str("invalid_heir_principal")),
        ),
        EscrowPlan::NoCanister { .. } => (
            Some(<String as StringExecFns>::from_str("escrow_release")),
            None,
        ),
    }
}

/// The note and error an NFT plan resolves to when no adapter call is made;
/// the `Call` variant carries neither.
pub fn nft_plan_texts(p: &NftPlan) -> (r: (Option<String>, Option<String>))
    ensures
        (match p {
            NftPlan::NoTokenId => (r.0 matches Some(n) && n@ == "nft_no_token_id"@) && r.1 is None,
            NftPlan::StageCustody { .. } => (r.0 matches Some(n) && n@ == "nft_custody_staged"@)
                && r.1 is None,
            NftPlan::InvalidHeirPrincipal => r.0 is None && (r.1 matches Some(e) && e@
                == "invalid_heir_principal"@),
            NftPlan::MissingApproval => r.0 is None && (r.1 matches Some(e) && e@
                == "missing_approval"@),
            NftPlan::NoCanister => (r.0 matches Some(n) && n@ == "nft_no_token_canister"@)
                && r.1 is None,
            NftPlan::InvalidCanister => r.0 is None && (r.1 matches Some(e) && e@
                == "invalid_token_canister_principal"@),
            NftPlan::Unsupported { standard } => (r.0 matches Some(n) && n@
                == "nft_transfer_unsupported"@) && (r.1 matches Some(e) && e@
                == "nft_standard_unsupported:"@ + standard@),
            NftPlan::Call { .. } => r.0 is None && r.1 is None,
        }),
{
    match p {
        NftPlan::NoTokenId => (
            Some(<String as StringExecFns>::from_str("nft_no_token_id")),
            None,
        ),
        NftPlan::StageCustody { .. } => (
            Some(<String as StringExecFns>::from_str("nft_custody_staged")),
            None,
        ),
        NftPlan::InvalidHeirPrincipal => (
            None,
            Some(<String as StringExecFns>::from_str("invalid_heir_principal")),
        ),
        NftPlan::MissingApproval => (
            None,
            Some(<String as StringExecFns>::from_str("missing_approval")),
        ),
        NftPlan::NoCanister => (
            Some(<String as StringExecFns>::from_str("nft_no_token_canister")),
            None,
        ),
        NftPlan::InvalidCanister => (
            None,
            Some(<String as StringExecFns>::from_str("invalid_token_canister_principal")),
        ),
        NftPlan::Unsupported { standard } => {
            let mut e = <String as StringExecFns>::from_str("nft_standard_unsupported:");
            StringExecFns::append(&mut e, standard.as_str());
            (Some(<String as StringExecFns>::from_str("nft_transfer_unsupported")), Some(e))
        },
        NftPlan::Call { .. } => (None, None),
    }
}

} // verus!
