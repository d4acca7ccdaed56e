//! Custody accounting: heir subaccounts, the asynchronous fungible and NFT
//! release bookkeeping around the ledger calls, and the heir-initiated
//! custody withdrawal.

use vstd::prelude::*;
use vstd::string::StringExecFns;

use crate::audit::{push_audit, spec_push_audit};
use crate::common::{
    find_asset, find_custody, find_heir_ex, find_open_fungible_custody, find_share, find_transfer,
    first_approval_at, first_asset_at, first_heir_at, first_open_fc_at, first_open_nc_at,
    first_share_at, first_transfer_at, has_approval, has_asset, has_custody, has_heir_ex,
    has_open_fungible_custody, has_share, has_transfer, next_transfer_id_of, open_fc, open_nc,
    spec_next_transfer_id_of,
};
use crate::crypto::{custody_preimage_chars, derive_custody_subaccount, sha256_of};
use crate::model::asset::Asset;
use crate::model::audit::AuditEventKind;
use crate::model::base::HeirSecretStatus;
use crate::model::custody::{ApprovalRecord, CustodyRecord, FungibleCustodyRecord, NftCustodyRecord};
use crate::model::errors::CivError;
use crate::model::payout::{TransferKind, TransferRecord};
use crate::model::user::{EstatePhase, User};

verus! {

/// Fungible custody release backoff: one minute base, doubling, capped at
/// a day.
pub const CUSTODY_BACKOFF_BASE_SECS: u64 = 60;

/// Backoff cap for custody releases.
pub const CUSTODY_BACKOFF_MAX_SECS: u64 = 86400;

/// `base * 2^(attempts-1)` capped at a day; exponent capped at ten.
pub open spec fn spec_custody_backoff(attempts: u32) -> u64 {
    let e = if attempts == 0 {
        0u32
    } else if attempts - 1 >= 10 {
        10u32
    } else {
        (attempts - 1) as u32
    };
    let raw = CUSTODY_BACKOFF_BASE_SECS * ((1u64 << e) as int);
    if raw > CUSTODY_BACKOFF_MAX_SECS {
        CUSTODY_BACKOFF_MAX_SECS
    } else {
        raw as u64
    }
}

/// Compute the custody release backoff.
pub fn custody_backoff(attempts: u32) -> (r: u64)
    ensures
        r == spec_custody_backoff(attempts),
        r <= CUSTODY_BACKOFF_MAX_SECS,
{
    let e: u32 = if attempts == 0 {
        0
    } else if attempts - 1 >= 10 {
        10
    } else {
        attempts - 1
    };
    proof {
        assert(e <= 10 ==> (1u64 << e) >= 1 && (1u64 << e) <= 1024) by (bit_vector);
    }
    let raw = CUSTODY_BACKOFF_BASE_SECS * (1u64 << e);
    if raw > CUSTODY_BACKOFF_MAX_SECS {
        CUSTODY_BACKOFF_MAX_SECS
    } else {
        raw
    }
}

/// The heir's custody subaccount: the stored one, or a fresh deterministic
/// derivation recorded on first use.
pub fn custody_subaccount_for_heir(u: &mut User, heir_id: u64) -> (r: Vec<u8>)
    ensures
        *final(u) == (User { custody: final(u).custody, ..*old(u) }),
        has_custody(final(u).custody@, heir_id),
        !has_custody(old(u).custody@, heir_id) ==> r@ == sha256_of(
            custody_preimage_chars(old(u).user@, heir_id),
        ) && final(u).custody@.len() == old(u).custody@.len() + 1
            && final(u).custody@.drop_last() == old(u).custody@
            && final(u).custody@.last().heir_id == heir_id
            && final(u).custody@.last().subaccount@ == r@,
        has_custody(old(u).custody@, heir_id) ==> final(u).custody@ == old(u).custody@ && exists|
            i: int,
        |
            0 <= i < old(u).custody@.len() && old(u).custody@[i].heir_id == heir_id && (forall|
                j: int,
            | 0 <= j < i ==> old(u).custody@[j].heir_id != heir_id) && r@ == old(u).custody@[i].subaccount@,
{
    match find_custody(&u.custody, heir_id) {
        Some(i) => crate::audit::clone_bytes(&u.custody[i].subaccount),
        None => {
            let sub = derive_custody_subaccount(u.user.as_str(), heir_id);
            let stored = crate::audit::clone_bytes(&sub);
            u.custody.push(CustodyRecord { heir_id, subaccount: stored });
            proof {
                assert(u.custody@[u.custody@.len() - 1].heir_id == heir_id);
            }
            sub
        },
    }
}

/// One fungible custody release to drive: the pair, the amount, and whether
/// the asset sits behind an approval (pull from the owner) or in custody
/// (pay out of the subaccount).
#[derive(Debug)]
pub struct FungibleReleaseItem {
    pub asset_id: u64,
    pub heir_id: u64,
    pub amount: u128,
    pub use_approval: bool,
}

/// A fungible custody record is due for a release attempt.
pub open spec fn fungible_due(rec: FungibleCustodyRecord, now: u64) -> bool {
    &&& rec.released_at is None
    &&& !rec.releasing
    &&& (match rec.next_attempt_after {
        Some(at) => now >= at,
        None => true,
    })
    &&& rec.amount > 0
}

/// The first asset with this id sits behind an approval.
pub open spec fn spec_use_approval(assets: Seq<Asset>, asset_id: u64) -> bool
    decreases assets.len(),
{
    if assets.len() == 0 {
        false
    } else if assets[0].id == asset_id {
        assets[0].holding_mode == Some(crate::model::base::HoldingMode::Approval)
    } else {
        spec_use_approval(assets.skip(1), asset_id)
    }
}

proof fn lemma_use_approval_at(assets: Seq<crate::model::asset::Asset>, asset_id: u64, i: int)
    requires
        crate::common::first_asset_at(assets, asset_id, i),
    ensures
        spec_use_approval(assets, asset_id) == (assets[i].holding_mode == Some(
            crate::model::base::HoldingMode::Approval,
        )),
    decreases i,
{
    if i > 0 {
        assert forall|j: int| 0 <= j < i - 1 implies assets.skip(1)[j].id != asset_id by {
            assert(assets.skip(1)[j] == assets[j + 1]);
        }
        assert(assets.skip(1)[i - 1] == assets[i]);
        lemma_use_approval_at(assets.skip(1), asset_id, i - 1);
    }
}

proof fn lemma_use_approval_miss(assets: Seq<crate::model::asset::Asset>, asset_id: u64)
    requires
        forall|j: int| 0 <= j < assets.len() ==> assets[j].id != asset_id,
    ensures
        !spec_use_approval(assets, asset_id),
    decreases assets.len(),
{
    if assets.len() > 0 {
        assert forall|j: int| 0 <= j < assets.skip(1).len() implies assets.skip(1)[j].id
            != asset_id by {
            assert(assets.skip(1)[j] == assets[j + 1]);
        }
        lemma_use_approval_miss(assets.skip(1), asset_id);
    }
}

/// The release items built from the first `j` custody records: one per due
/// record, in order, with the approval flag read off the asset table.
pub open spec fn fungible_items_prefix(
    q: Seq<FungibleCustodyRecord>,
    assets: Seq<Asset>,
    now: u64,
    j: int,
) -> Seq<FungibleReleaseItem>
    decreases j,
{
    if j <= 0 {
        Seq::empty()
    } else {
        fungible_items_prefix(q, assets, now, j - 1) + if fungible_due(q[j - 1], now) {
            seq![
                FungibleReleaseItem {
                    asset_id: q[j - 1].asset_id,
                    heir_id: q[j - 1].heir_id,
                    amount: q[j - 1].amount,
                    use_approval: spec_use_approval(assets, q[j - 1].asset_id),
                },
            ]
        } else {
            Seq::empty()
        }
    }
}

/// Collect the due fungible custody records, marking each releasing.
/// Records not due stay exactly as they were; no release timestamp moves;
/// the returned items are exactly the due records in queue order.
pub fn collect_fungible_releases(u: &mut User, now: u64) -> (out: Vec<FungibleReleaseItem>)
    ensures
        *final(u) == (User { fungible_custody: final(u).fungible_custody, ..*old(u) }),
        final(u).fungible_custody@.len() == old(u).fungible_custody@.len(),
        forall|i: int|
            0 <= i < old(u).fungible_custody@.len() ==> final(u).fungible_custody@[i] == (if
            fungible_due(old(u).fungible_custody@[i], now) {
                FungibleCustodyRecord { releasing: true, ..old(u).fungible_custody@[i] }
            } else {
                old(u).fungible_custody@[i]
            }),
        forall|i: int|
            0 <= i < old(u).fungible_custody@.len() ==> final(u).fungible_custody@[i].released_at
                == old(u).fungible_custody@[i].released_at,
        out@ == fungible_items_prefix(
            old(u).fungible_custody@,
            old(u).assets@,
            now,
            old(u).fungible_custody@.len() as int,
        ),
{
    let mut out: Vec<FungibleReleaseItem> = Vec::new();
    let mut i: usize = 0;
    let n = u.fungible_custody.len();
    while i < n
        invariant
            i <= n,
            n == old(u).fungible_custody@.len(),
            u.fungible_custody@.len() == n,
            *u == (User { fungible_custody: u.fungible_custody, ..*old(u) }),
            forall|k: int|
                0 <= k < i ==> u.fungible_custody@[k] == (if fungible_due(
                    old(u).fungible_custody@[k],
                    now,
                ) {
                    FungibleCustodyRecord { releasing: true, ..old(u).fungible_custody@[k] }
                } else {
                    old(u).fungible_custody@[k]
                }),
            forall|k: int| i <= k < n ==> u.fungible_custody@[k] == old(u).fungible_custody@[k],
            out@ == fungible_items_prefix(old(u).fungible_custody@, old(u).assets@, now, i as int),
        decreases n - i,
    {
        let due = u.fungible_custody[i].released_at.is_none() && !u.fungible_custody[i].releasing
            && (match u.fungible_custody[i].next_attempt_after {
            Some(at) => now >= at,
            None => true,
        }) && u.fungible_custody[i].amount > 0;
        let ghost pre_out = out@;
        if due {
            let rec = u.fungible_custody.remove(i);
            let use_approval = match find_asset(&u.assets, rec.asset_id) {
                Some(ai) => {
                    proof {
                        lemma_use_approval_at(u.assets@, rec.asset_id, ai as int);
                    }
                    match &u.assets[ai].holding_mode {
                        Some(crate::model::base::HoldingMode::Approval) => true,
                        _ => false,
                    }
                },
                None => {
                    proof {
                        lemma_use_approval_miss(u.assets@, rec.asset_id);
                    }
                    false
                },
            };
            proof {
                assert(use_approval == spec_use_approval(old(u).assets@, rec.asset_id));
            }
            out.push(
                FungibleReleaseItem {
                    asset_id: rec.asset_id,
                    heir_id: rec.heir_id,
                    amount: rec.amount,
                    use_approval,
                },
            );
            u.fungible_custody.insert(i, FungibleCustodyRecord { releasing: true, ..rec });
            proof {
                assert(rec == old(u).fungible_custody@[i as int]);
                assert(out@ =~= fungible_items_prefix(
                    old(u).fungible_custody@,
                    old(u).assets@,
                    now,
                    i + 1,
                ));
            }
        } else {
            proof {
                assert(out@ =~= fungible_items_prefix(
                    old(u).fungible_custody@,
                    old(u).assets@,
                    now,
                    i + 1,
                ));
            }
        }
        i = i + 1;
    }
    out
}

/// The attempt counter after one more try, saturating.
pub open spec fn spec_bump_attempts(a: u32) -> u32 {
    if a == u32::MAX {
        u32::MAX
    } else {
        (a + 1) as u32
    }
}

/// The next-attempt time after a failed release, saturating.
pub open spec fn spec_custody_next(now: u64, attempts: u32) -> u64 {
    if now > u64::MAX - spec_custody_backoff(attempts) {
        u64::MAX
    } else {
        (now + spec_custody_backoff(attempts)) as u64
    }
}

/// The error text an outcome records: the message carried, or "unknown".
pub open spec fn spec_err_text(err: Option<String>) -> Seq<char> {
    match err {
        Some(e) => e@,
        None => "unknown"@,
    }
}

/// Allowance after a released amount is deducted, floored at zero.
pub open spec fn spec_dec_allowance(alw: Option<u128>, amount: u128) -> Option<u128> {
    match alw {
        Some(a) => if a >= amount {
            Some((a - amount) as u128)
        } else {
            Some(0u128)
        },
        None => None,
    }
}

/// Settle one fungible release attempt on its first open record. Success
/// stamps `released_at` once, clears the wait, optionally deducts the
/// approval allowance, and logs the release; failure keeps the error and
/// waits exponentially longer. With no open record nothing changes.
pub fn apply_fungible_release_outcome(
    u: &mut User,
    asset_id: u64,
    heir_id: u64,
    success: bool,
    err: Option<String>,
    decrement_allowance: bool,
    now: u64,
)
    ensures
        *final(u) == (User {
            fungible_custody: final(u).fungible_custody,
            approvals: final(u).approvals,
            audit_log: final(u).audit_log,
            ..*old(u)
        }),
        final(u).fungible_custody@.len() == old(u).fungible_custody@.len(),
        !has_open_fungible_custody(old(u).fungible_custody@, asset_id, heir_id) ==> *final(u)
            == *old(u),
        forall|i: int|
            #[trigger] first_open_fc_at(old(u).fungible_custody@, asset_id, heir_id, i) ==> ({
                let rec = old(u).fungible_custody@[i];
                let na = spec_bump_attempts(rec.attempts);
                &&& (success ==> final(u).fungible_custody@ == old(u).fungible_custody@.update(
                    i,
                    FungibleCustodyRecord {
                        releasing: false,
                        attempts: na,
                        released_at: Some(now),
                        last_error: None,
                        next_attempt_after: None,
                        ..rec
                    },
                ))
                &&& (success ==> final(u).audit_log@ == spec_push_audit(
                    old(u).audit_log@,
                    AuditEventKind::FungibleCustodyReleased {
                        asset_id,
                        heir_id,
                        amount: rec.amount,
                    },
                    now,
                ))
                &&& (!success ==> final(u).fungible_custody@ == old(u).fungible_custody@.update(
                    i,
                    FungibleCustodyRecord {
                        releasing: false,
                        attempts: na,
                        last_error: err,
                        next_attempt_after: Some(spec_custody_next(now, na)),
                        ..rec
                    },
                ))
                &&& (!success ==> exists|k: AuditEventKind|
                    final(u).audit_log@ == #[trigger] spec_push_audit(old(u).audit_log@, k, now)
                        && (k matches AuditEventKind::FungibleCustodyReleaseFailed {
                        asset_id: a2,
                        heir_id: h2,
                        amount: m2,
                        attempt: at2,
                        error: er,
                    } && a2 == asset_id && h2 == heir_id && m2 == rec.amount && at2 == na && er@
                        == spec_err_text(err)))
                &&& (!success ==> final(u).approvals@ == old(u).approvals@)
                &&& ((success && !(decrement_allowance && has_approval(
                    old(u).approvals@,
                    asset_id,
                ))) ==> final(u).approvals@ == old(u).approvals@)
                &&& (forall|ai: int|
                    success && decrement_allowance && #[trigger] first_approval_at(
                        old(u).approvals@,
                        asset_id,
                        ai,
                    ) ==> final(u).approvals@ == old(u).approvals@.update(
                        ai,
                        ApprovalRecord {
                            allowance: spec_dec_allowance(
                                old(u).approvals@[ai].allowance,
                                rec.amount,
                            ),
                            ..old(u).approvals@[ai]
                        },
                    ))
            }),
        forall|i: int|
            0 <= i < old(u).fungible_custody@.len() && old(u).fungible_custody@[i].released_at is Some ==> final(u).fungible_custody@[i]
                == old(u).fungible_custody@[i],
        forall|i: int|
            0 <= i < old(u).fungible_custody@.len() ==> final(u).fungible_custody@[i].staged_at == old(u).fungible_custody@[i].staged_at && final(u).fungible_custody@[i].amount == old(u).fungible_custody@[i].amount,
        forall|i: int|
            0 <= i < old(u).fungible_custody@.len() && final(u).fungible_custody@[i].released_at is Some && old(u).fungible_custody@[i].released_at is None ==> final(u).fungible_custody@[i].released_at == Some(now),
{
    let ci = match find_open_fungible_custody(&u.fungible_custody, asset_id, heir_id) {
        Some(i) => i,
        None => {
            return ;
        },
    };
    proof {
        assert(first_open_fc_at(old(u).fungible_custody@, asset_id, heir_id, ci as int));
        assert forall|i: int|
            #[trigger] first_open_fc_at(old(u).fungible_custody@, asset_id, heir_id, i) implies i
            == ci as int by {
            if i < ci as int {
                assert(open_fc(old(u).fungible_custody@[i], asset_id, heir_id));
            }
            if i > ci as int {
                assert(!open_fc(old(u).fungible_custody@[ci as int], asset_id, heir_id));
            }
        }
    }
    let rec = u.fungible_custody.remove(ci);
    let attempts = if rec.attempts == u32::MAX {
        u32::MAX
    } else {
        rec.attempts + 1
    };
    let amount = rec.amount;
    if success {
        u.fungible_custody.insert(
            ci,
            FungibleCustodyRecord {
                releasing: false,
                attempts,
                released_at: Some(now),
                last_error: None,
                next_attempt_after: None,
                ..rec
            },
        );
        proof {
            assert(u.fungible_custody@ =~= old(u).fungible_custody@.update(
                ci as int,
                FungibleCustodyRecord {
                    releasing: false,
                    attempts,
                    released_at: Some(now),
                    last_error: None,
                    next_attempt_after: None,
                    ..old(u).fungible_custody@[ci as int]
                },
            ));
        }
        if decrement_allowance {
            match crate::common::find_approval(&u.approvals, asset_id) {
                Some(ai) => {
                    proof {
                        assert(first_approval_at(old(u).approvals@, asset_id, ai as int));
                        assert forall|aj: int|
                            #[trigger] first_approval_at(old(u).approvals@, asset_id, aj) implies aj
                            == ai as int by {
                            if aj < ai as int {
                                assert(old(u).approvals@[aj].asset_id == asset_id);
                            }
                            if aj > ai as int {
                                assert(old(u).approvals@[ai as int].asset_id != asset_id);
                            }
                        }
                    }
                    let ar = u.approvals.remove(ai);
                    let new_allowance = match ar.allowance {
                        Some(alw) => {
                            if alw >= amount {
                                Some(alw - amount)
                            } else {
                                Some(0)
                            }
                        },
                        None => None,
                    };
                    u.approvals.insert(
                        ai,
                        crate::model::custody::ApprovalRecord { allowance: new_allowance, ..ar },
                    );
                    proof {
                        assert(u.approvals@ =~= old(u).approvals@.update(
                            ai as int,
                            ApprovalRecord {
                                allowance: spec_dec_allowance(
                                    old(u).approvals@[ai as int].allowance,
                                    amount,
                                ),
                                ..old(u).approvals@[ai as int]
                            },
                        ));
                    }
                },
                None => {},
            }
        }
        push_audit(
            u,
            AuditEventKind::FungibleCustodyReleased { asset_id, heir_id, amount },
            now,
        );
    } else {
        let delay = custody_backoff(attempts);
        let next = if now > u64::MAX - delay {
            u64::MAX
        } else {
            now + delay
        };
        let err_text = match &err {
            Some(e) => e.clone(),
            None => <String as StringExecFns>::from_str("unknown"),
        };
        u.fungible_custody.insert(
            ci,
            FungibleCustodyRecord {
                releasing: false,
                attempts,
                last_error: err,
                next_attempt_after: Some(next),
                ..rec
            },
        );
        proof {
            assert(u.fungible_custody@ =~= old(u).fungible_custody@.update(
                ci as int,
                FungibleCustodyRecord {
                    releasing: false,
                    attempts,
                    last_error: u.fungible_custody@[ci as int].last_error,
                    next_attempt_after: Some(next),
                    ..old(u).fungible_custody@[ci as int]
                },
            ));
        }
        let kind = AuditEventKind::FungibleCustodyReleaseFailed {
            asset_id,
            heir_id,
            amount,
            attempt: attempts,
            error: err_text,
        };
        let ghost gk = kind;
        push_audit(u, kind, now);
        proof {
            assert(u.audit_log@ == spec_push_audit(old(u).audit_log@, gk, now));
        }
    }
}

/// An NFT custody record is due for a release attempt.
pub open spec fn nft_due(rec: NftCustodyRecord, now: u64) -> bool {
    &&& rec.released_at is None
    &&& !rec.releasing
    &&& (match rec.next_attempt_after {
        Some(at) => now >= at,
        None => true,
    })
}

/// One NFT custody release to drive.
#[derive(Debug)]
pub struct NftReleaseItem {
    pub asset_id: u64,
    pub heir_id: u64,
    pub token_id: u64,
}

/// The NFT release items built from the first `j` custody records.
pub open spec fn nft_items_prefix(q: Seq<NftCustodyRecord>, now: u64, j: int) -> Seq<
    NftReleaseItem,
>
    decreases j,
{
    if j <= 0 {
        Seq::empty()
    } else {
        nft_items_prefix(q, now, j - 1) + if nft_due(q[j - 1], now) {
            seq![
                NftReleaseItem {
                    asset_id: q[j - 1].asset_id,
                    heir_id: q[j - 1].heir_id,
                    token_id: q[j - 1].token_id,
                },
            ]
        } else {
            Seq::empty()
        }
    }
}

/// Collect the due NFT custody records, marking each releasing; the items
/// are exactly the due records in queue order.
pub fn collect_nft_releases(u: &mut User, now: u64) -> (out: Vec<NftReleaseItem>)
    ensures
        *final(u) == (User { nft_custody: final(u).nft_custody, ..*old(u) }),
        final(u).nft_custody@.len() == old(u).nft_custody@.len(),
        forall|i: int|
            0 <= i < old(u).nft_custody@.len() ==> final(u).nft_custody@[i] == (if nft_due(
                old(u).nft_custody@[i],
                now,
            ) {
                NftCustodyRecord { releasing: true, ..old(u).nft_custody@[i] }
            } else {
                old(u).nft_custody@[i]
            }),
        forall|i: int|
            0 <= i < old(u).nft_custody@.len() ==> final(u).nft_custody@[i].released_at == old(u).nft_custody@[i].released_at,
        out@ == nft_items_prefix(old(u).nft_custody@, now, old(u).nft_custody@.len() as int),
{
    let mut out: Vec<NftReleaseItem> = Vec::new();
    let mut i: usize = 0;
    let n = u.nft_custody.len();
    while i < n
        invariant
            i <= n,
            n == old(u).nft_custody@.len(),
            u.nft_custody@.len() == n,
            *u == (User { nft_custody: u.nft_custody, ..*old(u) }),
            forall|k: int|
                0 <= k < i ==> u.nft_custody@[k] == (if nft_due(old(u).nft_custody@[k], now) {
                    NftCustodyRecord { releasing: true, ..old(u).nft_custody@[k] }
                } else {
                    old(u).nft_custody@[k]
                }),
            forall|k: int| i <= k < n ==> u.nft_custody@[k] == old(u).nft_custody@[k],
            out@ == nft_items_prefix(old(u).nft_custody@, now, i as int),
        decreases n - i,
    {
        let due = u.nft_custody[i].released_at.is_none() && !u.nft_custody[i].releasing && (
        match u.nft_custody[i].next_attempt_after {
            Some(at) => now >= at,
            None => true,
        });
        if due {
            let rec = u.nft_custody.remove(i);
            out.push(
                NftReleaseItem {
                    asset_id: rec.asset_id,
                    heir_id: rec.heir_id,
                    token_id: rec.token_id,
                },
            );
            u.nft_custody.insert(i, NftCustodyRecord { releasing: true, ..rec });
            proof {
                assert(rec == old(u).nft_custody@[i as int]);
                assert(out@ =~= nft_items_prefix(old(u).nft_custody@, now, i + 1));
            }
        } else {
            proof {
                assert(out@ =~= nft_items_prefix(old(u).nft_custody@, now, i + 1));
            }
        }
        i = i + 1;
    }
    out
}

/// Settle one NFT release attempt on its first open record, mirroring the
/// fungible bookkeeping; a failure logs the attempt and the error. With no
/// open record nothing changes.
pub fn apply_nft_release_outcome(
    u: &mut User,
    asset_id: u64,
    heir_id: u64,
    token_id: u64,
    success: bool,
    err: Option<String>,
    now: u64,
)
    ensures
        *final(u) == (User {
            nft_custody: final(u).nft_custody,
            audit_log: final(u).audit_log,
            ..*old(u)
        }),
        final(u).nft_custody@.len() == old(u).nft_custody@.len(),
        (forall|i: int|
            0 <= i < old(u).nft_custody@.len() ==> !open_nc(
                old(u).nft_custody@[i],
                asset_id,
                heir_id,
                token_id,
            )) ==> *final(u) == *old(u),
        forall|i: int|
            #[trigger] first_open_nc_at(old(u).nft_custody@, asset_id, heir_id, token_id, i)
                ==> ({
                let rec = old(u).nft_custody@[i];
                let na = spec_bump_attempts(rec.attempts);
                &&& (success ==> final(u).nft_custody@ == old(u).nft_custody@.update(
                    i,
                    NftCustodyRecord {
                        releasing: false,
                        attempts: na,
                        released_at: Some(now),
                        last_error: None,
                        next_attempt_after: None,
                        ..rec
                    },
                ))
                &&& (success ==> final(u).audit_log@ == spec_push_audit(
                    old(u).audit_log@,
                    AuditEventKind::NftCustodyReleased { asset_id, heir_id, token_id },
                    now,
                ))
                &&& (!success ==> final(u).nft_custody@ == old(u).nft_custody@.update(
                    i,
                    NftCustodyRecord {
                        releasing: false,
                        attempts: na,
                        last_error: err,
                        next_attempt_after: Some(spec_custody_next(now, na)),
                        ..rec
                    },
                ))
                &&& (!success ==> exists|k: AuditEventKind|
                    final(u).audit_log@ == #[trigger] spec_push_audit(
                        spec_push_audit(
                            old(u).audit_log@,
                            AuditEventKind::NftCustodyReleaseAttempt {
                                asset_id,
                                heir_id,
                                token_id,
                                attempt: na,
                            },
                            now,
                        ),
                        k,
                        now,
                    ) && (k matches AuditEventKind::NftCustodyReleaseFailed {
                        asset_id: a2,
                        heir_id: h2,
                        token_id: t2,
                        attempt: at2,
                        error: er,
                    } && a2 == asset_id && h2 == heir_id && t2 == token_id && at2 == na && er@
                        == spec_err_text(err)))
            }),
        forall|i: int|
            0 <= i < old(u).nft_custody@.len() && old(u).nft_custody@[i].released_at is Some
                ==> final(u).nft_custody@[i] == old(u).nft_custody@[i],
        forall|i: int|
            0 <= i < old(u).nft_custody@.len() ==> final(u).nft_custody@[i].staged_at == old(u).nft_custody@[i].staged_at,
        forall|i: int|
            0 <= i < old(u).nft_custody@.len() && final(u).nft_custody@[i].released_at is Some && old(u).nft_custody@[i].released_at is None
                ==> final(u).nft_custody@[i].released_at == Some(now),
{
    let ci = match find_open_nft(&u.nft_custody, asset_id, heir_id, token_id) {
        Some(i) => i,
        None => {
            return ;
        },
    };
    proof {
        assert(first_open_nc_at(old(u).nft_custody@, asset_id, heir_id, token_id, ci as int));
        assert forall|i: int|
            #[trigger] first_open_nc_at(
                old(u).nft_custody@,
                asset_id,
                heir_id,
                token_id,
                i,
            ) implies i == ci as int by {
            if i < ci as int {
                assert(open_nc(old(u).nft_custody@[i], asset_id, heir_id, token_id));
            }
            if i > ci as int {
                assert(!open_nc(old(u).nft_custody@[ci as int], asset_id, heir_id, token_id));
            }
        }
    }
    let rec = u.nft_custody.remove(ci);
    let attempts = if rec.attempts == u32::MAX {
        u32::MAX
    } else {
        rec.attempts + 1
    };
    if success {
        u.nft_custody.insert(
            ci,
            NftCustodyRecord {
                releasing: false,
                attempts,
                released_at: Some(now),
                last_error: None,
                next_attempt_after: None,
                ..rec
            },
        );
        proof {
            assert(u.nft_custody@ =~= old(u).nft_custody@.update(
                ci as int,
                NftCustodyRecord {
                    releasing: false,
                    attempts,
                    released_at: Some(now),
                    last_error: None,
                    next_attempt_after: None,
                    ..old(u).nft_custody@[ci as int]
                },
            ));
        }
        push_audit(
            u,
            AuditEventKind::NftCustodyReleased { asset_id, heir_id, token_id },
            now,
        );
    } else {
        let delay = custody_backoff(attempts);
        let next = if now > u64::MAX - delay {
            u64::MAX
        } else {
            now + delay
        };
        let err_text = match &err {
            Some(e) => e.clone(),
            None => <String as StringExecFns>::from_str("unknown"),
        };
        u.nft_custody.insert(
            ci,
            NftCustodyRecord {
                releasing: false,
                attempts,
                last_error: err,
                next_attempt_after: Some(next),
                ..rec
            },
        );
        proof {
            assert(u.nft_custody@ =~= old(u).nft_custody@.update(
                ci as int,
                NftCustodyRecord {
                    releasing: false,
                    attempts,
                    last_error: u.nft_custody@[ci as int].last_error,
                    next_attempt_after: Some(next),
                    ..old(u).nft_custody@[ci as int]
                },
            ));
        }
        push_audit(
            u,
            AuditEventKind::NftCustodyReleaseAttempt {
                asset_id,
                heir_id,
                token_id,
                attempt: attempts,
            },
            now,
        );
        let ghost log1 = u.audit_log@;
        let kind = AuditEventKind::NftCustodyReleaseFailed {
            asset_id,
            heir_id,
            token_id,
            attempt: attempts,
            error: err_text,
        };
        let ghost gk = kind;
        push_audit(u, kind, now);
        proof {
            assert(u.audit_log@ == spec_push_audit(log1, gk, now));
        }
    }
}

fn find_open_nft(v: &Vec<NftCustodyRecord>, asset_id: u64, heir_id: u64, token_id: u64) -> (r:
    Option<usize>)
    ensures
        match r {
            Some(i) => i < v@.len() && v@[i as int].asset_id == asset_id && v@[i as int].heir_id
                == heir_id && v@[i as int].token_id == token_id && v@[i as int].released_at is None
                && forall|j: int|
                0 <= j < i ==> !(v@[j].asset_id == asset_id && v@[j].heir_id == heir_id
                    && v@[j].token_id == token_id && v@[j].released_at is None),
            None => forall|j: int|
                0 <= j < v@.len() ==> !(v@[j].asset_id == asset_id && v@[j].heir_id == heir_id
                    && v@[j].token_id == token_id && v@[j].released_at is None),
        },
{
    let mut i: usize = 0;
    while i < v.len()
        invariant
            i <= v@.len(),
            forall|j: int|
                0 <= j < i ==> !(v@[j].asset_id == asset_id && v@[j].heir_id == heir_id
                    && v@[j].token_id == token_id && v@[j].released_at is None),
        decreases v@.len() - i,
    {
        if v[i].asset_id == asset_id && v[i].heir_id == heir_id && v[i].token_id == token_id
            && v[i].released_at.is_none() {
            return Some(i);
        }
        i = i + 1;
    }
    None
}

/// The plan of a heir-initiated custody withdrawal: the pending transfer
/// record is already appended; the ledger movement follows.
#[derive(Debug)]
pub struct CustodyWithdrawPlan {
    pub transfer_id: u64,
    pub amount: u128,
    pub token_canister: Option<String>,
    pub from_subaccount: Vec<u8>,
    pub heir_principal: String,
}

/// The estate accepts heir-initiated withdrawals.
pub open spec fn withdraw_ready(u: User) -> bool {
    u.phase == EstatePhase::Locked || u.phase == EstatePhase::Executed
}

/// The first heir with this id exists and has no principal on file.
pub open spec fn heir_principal_missing(hs: Seq<crate::model::heir::HeirEx>, heir_id: u64) -> bool {
    exists|hi: int|
        #[trigger] first_heir_at(hs, heir_id, hi) && hs[hi].principal is None
}

/// The first heir with this id has a principal but an unverified secret.
pub open spec fn heir_secret_unverified(hs: Seq<crate::model::heir::HeirEx>, heir_id: u64) -> bool {
    exists|hi: int|
        #[trigger] first_heir_at(hs, heir_id, hi) && hs[hi].principal is Some
            && hs[hi].identity_secret.status != HeirSecretStatus::Verified
}

/// The first heir with this id is principal-bound and secret-verified.
pub open spec fn heir_claim_ready(hs: Seq<crate::model::heir::HeirEx>, heir_id: u64) -> bool {
    exists|hi: int|
        #[trigger] first_heir_at(hs, heir_id, hi) && hs[hi].principal is Some
            && hs[hi].identity_secret.status == HeirSecretStatus::Verified
}

/// Begin a heir-initiated custody withdrawal: allowed once the estate is
/// Locked or Executed, for a verified heir with a principal on file and a
/// recorded share. A pending transfer record is appended and audited; the
/// ledger call follows outside.
pub fn withdraw_custody_prepare(u: &mut User, asset_id: u64, heir_id: u64, now: u64) -> (r: Result<
    CustodyWithdrawPlan,
    CivError,
>)
    ensures
        r is Err ==> *final(u) == *old(u),
        !(old(u).phase == EstatePhase::Locked || old(u).phase == EstatePhase::Executed)
            <==> r matches Err(CivError::EstateNotReady),
        r matches Err(CivError::HeirNotFound) <==> withdraw_ready(*old(u)) && !has_heir_ex(
            old(u).heirs_v2@,
            heir_id,
        ),
        r matches Err(CivError::Other(_)) <==> withdraw_ready(*old(u)) && heir_principal_missing(
            old(u).heirs_v2@,
            heir_id,
        ),
        r matches Err(CivError::Other(m)) ==> m@ == "heir_principal_missing"@,
        r matches Err(CivError::SecretInvalid) <==> withdraw_ready(*old(u))
            && heir_secret_unverified(old(u).heirs_v2@, heir_id),
        r matches Err(CivError::AssetNotFound) <==> withdraw_ready(*old(u)) && heir_claim_ready(
            old(u).heirs_v2@,
            heir_id,
        ) && !has_asset(old(u).assets@, asset_id),
        r matches Err(CivError::DistributionHeirNotFound) <==> withdraw_ready(*old(u))
            && heir_claim_ready(old(u).heirs_v2@, heir_id) && has_asset(old(u).assets@, asset_id)
            && !has_share(old(u).distributions_v2@, asset_id, heir_id),
        r is Ok <==> withdraw_ready(*old(u)) && heir_claim_ready(old(u).heirs_v2@, heir_id)
            && has_asset(old(u).assets@, asset_id) && has_share(
            old(u).distributions_v2@,
            asset_id,
            heir_id,
        ),
        r matches Ok(p) ==> exists|hi: int, ai: int, di: int|
            #![trigger first_heir_at(old(u).heirs_v2@, heir_id, hi), first_asset_at(old(u).assets@, asset_id, ai), first_share_at(old(u).distributions_v2@, asset_id, heir_id, di)]
            first_heir_at(old(u).heirs_v2@, heir_id, hi) && first_asset_at(
                old(u).assets@,
                asset_id,
                ai,
            ) && first_share_at(old(u).distributions_v2@, asset_id, heir_id, di) && ({
                let hp = old(u).heirs_v2@[hi].principal;
                let tc = old(u).assets@[ai].token_canister;
                &&& (match hp {
                    Some(pp) => p.heir_principal@ == pp@,
                    None => false,
                })
                &&& p.amount == (old(u).assets@[ai].value as u128) * (
                old(u).distributions_v2@[di].percentage as u128) / 100
                &&& (match tc {
                    Some(c) => p.token_canister matches Some(pc) && pc@ == c@,
                    None => p.token_canister is None,
                })
            }),
        r matches Ok(p) ==> {
            &&& *final(u) == (User {
                custody: final(u).custody,
                transfers: final(u).transfers,
                audit_log: final(u).audit_log,
                ..*old(u)
            })
            &&& final(u).transfers@.len() == old(u).transfers@.len() + 1
            &&& final(u).transfers@.drop_last() == old(u).transfers@
            &&& p.transfer_id == spec_next_transfer_id_of(old(u).transfers@)
            &&& ({
                let t = final(u).transfers@.last();
                &&& t.id == p.transfer_id
                &&& t.timestamp == now
                &&& t.asset_id == Some(asset_id)
                &&& t.heir_id == Some(heir_id)
                &&& t.kind == TransferKind::Fungible
                &&& t.amount == Some(p.amount)
                &&& t.tx_index is None
                &&& t.error is None
                &&& (t.note matches Some(n) && n@ == "custody_withdraw_pending_transfer"@)
            })
        },
{
    if !(u.phase == EstatePhase::Locked || u.phase == EstatePhase::Executed) {
        return Err(CivError::EstateNotReady);
    }
    let hidx = match find_heir_ex(&u.heirs_v2, heir_id) {
        Some(i) => i,
        None => {
            return Err(CivError::HeirNotFound);
        },
    };
    proof {
        assert(first_heir_at(u.heirs_v2@, heir_id, hidx as int));
        assert forall|hi: int| #[trigger] first_heir_at(u.heirs_v2@, heir_id, hi) implies hi
            == hidx as int by {
            if hi < hidx as int {
                assert(u.heirs_v2@[hi].id == heir_id);
            }
            if hi > hidx as int {
                assert(u.heirs_v2@[hidx as int].id != heir_id);
            }
        }
    }
    let heir_principal = match &u.heirs_v2[hidx].principal {
        Some(p) => p.clone(),
        None => {
            return Err(CivError::Other(
                <String as StringExecFns>::from_str("heir_principal_missing"),
            ));
        },
    };
    if !(u.heirs_v2[hidx].identity_secret.status == HeirSecretStatus::Verified) {
        return Err(CivError::SecretInvalid);
    }
    let aidx = match find_asset(&u.assets, asset_id) {
        Some(i) => i,
        None => {
            return Err(CivError::AssetNotFound);
        },
    };
    let value = u.assets[aidx].value;
    let token_canister = match &u.assets[aidx].token_canister {
        Some(c) => Some(c.clone()),
        None => None,
    };
    let didx = match find_share(&u.distributions_v2, asset_id, heir_id) {
        Some(i) => i,
        None => {
            return Err(CivError::DistributionHeirNotFound);
        },
    };
    let pct = u.distributions_v2[didx].percentage;
    let pref = u.distributions_v2[didx].payout_preference;
    let from_subaccount = custody_subaccount_for_heir(u, heir_id);
    proof {
        assert((value as int) * (pct as int) <= (u64::MAX as int) * 255) by (nonlinear_arith)
            requires
                value <= u64::MAX && pct <= 255,
        ;
    }
    let amount = (value as u128) * (pct as u128) / 100;
    let next_id = next_transfer_id_of(&u.transfers);
    u.transfers.push(
        TransferRecord {
            id: next_id,
            timestamp: now,
            asset_id: Some(asset_id),
            heir_id: Some(heir_id),
            kind: TransferKind::Fungible,
            amount: Some(amount),
            payout_preference: Some(pref),
            note: Some(<String as StringExecFns>::from_str("custody_withdraw_pending_transfer")),
            tx_index: None,
            error: None,
            error_kind: None,
        },
    );
    push_audit(u, AuditEventKind::CustodyWithdrawExecuted { asset_id, heir_id }, now);
    proof {
        assert(first_heir_at(old(u).heirs_v2@, heir_id, hidx as int));
        assert(first_asset_at(old(u).assets@, asset_id, aidx as int));
        assert(first_share_at(old(u).distributions_v2@, asset_id, heir_id, didx as int));
    }
    Ok(
        CustodyWithdrawPlan {
            transfer_id: next_id,
            amount,
            token_canister,
            from_subaccount,
            heir_principal,
        },
    )
}

/// Settle a heir-initiated custody withdrawal's ledger outcome on its
/// transfer record; success also stamps the first matching open custody
/// record. An unknown transfer id leaves the ledger alone.
pub fn withdraw_custody_finish(
    u: &mut User,
    transfer_id: u64,
    asset_id: u64,
    heir_id: u64,
    tx: Option<u128>,
    err: Option<String>,
    now: u64,
)
    ensures
        *final(u) == (User {
            transfers: final(u).transfers,
            fungible_custody: final(u).fungible_custody,
            ..*old(u)
        }),
        final(u).transfers@.len() == old(u).transfers@.len(),
        !has_transfer(old(u).transfers@, transfer_id) ==> final(u).transfers@ == old(u).transfers@,
        forall|ti: int|
            #[trigger] first_transfer_at(old(u).transfers@, transfer_id, ti) ==> ({
                let t = final(u).transfers@[ti];
                &&& final(u).transfers@ == old(u).transfers@.update(ti, t)
                &&& t == (TransferRecord {
                    tx_index: t.tx_index,
                    note: t.note,
                    error: t.error,
                    error_kind: t.error_kind,
                    ..old(u).transfers@[ti]
                })
                &&& t.tx_index == tx
                &&& (match (err, t.error) {
                    (Some(e), Some(te)) => te@ == e@,
                    (None, None) => true,
                    _ => false,
                })
                &&& (match err {
                    Some(e) => t.error_kind == Some(crate::errcodes::spec_from_legacy(e@)) && (
                    t.note matches Some(n) && n@ == "custody_withdraw_transfer_failed"@),
                    None => t.error_kind is None && (t.note matches Some(n) && n@
                        == "custody_withdraw_transferred"@),
                })
            }),
        err is Some ==> final(u).fungible_custody@ == old(u).fungible_custody@,
        err is None && !has_open_fungible_custody(old(u).fungible_custody@, asset_id, heir_id)
            ==> final(u).fungible_custody@ == old(u).fungible_custody@,
        forall|ci: int|
            err is None && #[trigger] first_open_fc_at(
                old(u).fungible_custody@,
                asset_id,
                heir_id,
                ci,
            ) ==> final(u).fungible_custody@ == old(u).fungible_custody@.update(
                ci,
                FungibleCustodyRecord { released_at: Some(now), ..old(u).fungible_custody@[ci] },
            ),
{
    match find_transfer(&u.transfers, transfer_id) {
        Some(ti) => {
            proof {
                assert(first_transfer_at(old(u).transfers@, transfer_id, ti as int));
                assert forall|tj: int|
                    #[trigger] first_transfer_at(old(u).transfers@, transfer_id, tj) implies tj
                    == ti as int by {
                    if tj < ti as int {
                        assert(old(u).transfers@[tj].id == transfer_id);
                    }
                    if tj > ti as int {
                        assert(old(u).transfers@[ti as int].id != transfer_id);
                    }
                }
            }
            let rec = u.transfers.remove(ti);
            let (note, error, error_kind) = match &err {
                Some(e) => {
                    let kind = crate::errcodes::transfer_error_kind_from_legacy(e.as_str());
                    (
                        Some(
                            <String as StringExecFns>::from_str(
                                "custody_withdraw_transfer_failed",
                            ),
                        ),
                        Some(e.clone()),
                        Some(kind),
                    )
                },
                None => {
                    (
                        Some(<String as StringExecFns>::from_str("custody_withdraw_transferred")),
                        None,
                        None,
                    )
                },
            };
            u.transfers.insert(
                ti,
                TransferRecord { tx_index: tx, note, error, error_kind, ..rec },
            );
            proof {
                assert(u.transfers@ =~= old(u).transfers@.update(
                    ti as int,
                    u.transfers@[ti as int],
                ));
            }
        },
        None => {},
    }
    if err.is_none() {
        match find_open_fungible_custody(&u.fungible_custody, asset_id, heir_id) {
            Some(ci) => {
                proof {
                    assert(first_open_fc_at(
                        old(u).fungible_custody@,
                        asset_id,
                        heir_id,
                        ci as int,
                    ));
                    assert forall|cj: int|
                        #[trigger] first_open_fc_at(
                            old(u).fungible_custody@,
                            asset_id,
                            heir_id,
                            cj,
                        ) implies cj == ci as int by {
                        if cj < ci as int {
                            assert(open_fc(old(u).fungible_custody@[cj], asset_id, heir_id));
                        }
                        if cj > ci as int {
                            assert(!open_fc(
                                old(u).fungible_custody@[ci as int],
                                asset_id,
                                heir_id,
                            ));
                        }
                    }
                }
                let rec = u.fungible_custody.remove(ci);
                u.fungible_custody.insert(
                    ci,
                    FungibleCustodyRecord { released_at: Some(now), ..rec },
                );
                proof {
                    assert(u.fungible_custody@ =~= old(u).fungible_custody@.update(
                        ci as int,
                        FungibleCustodyRecord {
                            released_at: Some(now),
                            ..old(u).fungible_custody@[ci as int]
                        },
                    ));
                }
            },
            None => {},
        }
    }
}

} // verus!
