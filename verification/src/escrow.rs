//! Escrow and approval accounting: logical escrow entries per asset,
//! on-chain withdrawal planning and settlement, and local approval records.

use vstd::prelude::*;
use vstd::string::StringExecFns;

use crate::audit::{push_audit, spec_push_audit};
use crate::common::{assert_mutable, find_approval, find_asset, find_escrow, has_asset, has_escrow, is_mutable};
use crate::model::audit::AuditEventKind;
use crate::audit::{lemma_push_audits_snoc, spec_push_audits};
use crate::model::audit::AuditEvent;
use crate::model::custody::{
    ApprovalRecord, EscrowReconEntry, EscrowRecord, ESCROW_AUTO_ACTION_COOLDOWN_SECS,
    ESCROW_RECLAIM_MIN_SURPLUS, ESCROW_TOP_UP_MIN_SHORTFALL,
};
use crate::retry::{enqueue_retry, RetryItem, RetryKind};
use crate::model::errors::CivError;
use crate::model::user::{EstatePhase, User};

verus! {

/// Input to an escrow deposit.
pub struct EscrowDepositInput {
    pub asset_id: u64,
    pub amount: Option<u128>,
    pub token_id: Option<u64>,
}

/// Record the logical escrow entry after a deposit; any previous entry for
/// the asset is replaced.
pub fn deposit_escrow_record(u: &mut User, input: EscrowDepositInput, now: u64) -> (r: Result<
    (),
    CivError,
>)
    ensures
        r is Err ==> *final(u) == *old(u),
        !is_mutable(*old(u)) <==> r matches Err(CivError::EstateLocked),
        is_mutable(*old(u)) && !has_asset(old(u).assets@, input.asset_id) <==> r matches Err(
            CivError::AssetNotFound,
        ),
        r is Ok <==> is_mutable(*old(u)) && has_asset(old(u).assets@, input.asset_id),
        r is Ok ==> {
            &&& *final(u) == (User {
                escrow: final(u).escrow,
                audit_log: final(u).audit_log,
                ..*old(u)
            })
            &&& final(u).escrow@ == old(u).escrow@.filter(
                |e: EscrowRecord| e.asset_id != input.asset_id,
            ).push(
                EscrowRecord {
                    asset_id: input.asset_id,
                    amount: input.amount,
                    token_id: input.token_id,
                    deposited_at: now,
                },
            )
            &&& final(u).audit_log@ == spec_push_audit(
                old(u).audit_log@,
                AuditEventKind::EscrowDeposited { asset_id: input.asset_id, amount: input.amount },
                now,
            )
        },
{
    if let Err(e) = assert_mutable(u) {
        return Err(e);
    }
    if find_asset(&u.assets, input.asset_id).is_none() {
        return Err(CivError::AssetNotFound);
    }
    retain_escrow_not(&mut u.escrow, input.asset_id);
    u.escrow.push(
        EscrowRecord {
            asset_id: input.asset_id,
            amount: input.amount,
            token_id: input.token_id,
            deposited_at: now,
        },
    );
    push_audit(
        u,
        AuditEventKind::EscrowDeposited { asset_id: input.asset_id, amount: input.amount },
        now,
    );
    Ok(())
}

#[verifier::rlimit(80)]
fn retain_escrow_not(v: &mut Vec<EscrowRecord>, id: u64)
    ensures
        final(v)@ == old(v)@.filter(|e: EscrowRecord| e.asset_id != id),
{
    let ghost pred = |e: EscrowRecord| e.asset_id != id;
    let ghost orig = v@;
    let mut i: usize = 0;
    let ghost j: int = 0;
    proof {
        assert(orig.subrange(0, 0).filter(pred) =~= Seq::<EscrowRecord>::empty()) by {
            reveal_with_fuel(Seq::<EscrowRecord>::filter, 2);
        }
        assert(v@ =~= orig.subrange(0, 0).filter(pred) + orig.skip(0));
    }
    while i < v.len()
        invariant
            pred == (|e: EscrowRecord| e.asset_id != id),
            0 <= j <= orig.len(),
            v@ =~= orig.subrange(0, j).filter(pred) + orig.skip(j),
            i == orig.subrange(0, j).filter(pred).len(),
            i <= j,
        decreases orig.len() - j,
    {
        let ghost here = orig[j];
        proof {
            assert(v@[i as int] == orig.skip(j)[0]);
            assert(orig.subrange(0, j + 1) =~= orig.subrange(0, j) + seq![here]);
            Seq::<EscrowRecord>::filter_distributes_over_add(orig.subrange(0, j), seq![here], pred);
            assert(seq![here].filter(pred) =~= if pred(here) {
                seq![here]
            } else {
                Seq::<EscrowRecord>::empty()
            }) by {
                reveal_with_fuel(Seq::<EscrowRecord>::filter, 2);
                assert(seq![here].drop_last() =~= Seq::<EscrowRecord>::empty());
            }
        }
        if v[i].asset_id != id {
            i = i + 1;
        } else {
            v.remove(i);
        }
        proof {
            assert(v@ =~= orig.subrange(0, j + 1).filter(pred) + orig.skip(j + 1));
            j = j + 1;
        }
    }
    proof {
        assert(j == orig.len());
        assert(orig.subrange(0, orig.len() as int) =~= orig);
        assert(orig.skip(j) =~= Seq::<EscrowRecord>::empty());
        assert(v@ =~= orig.filter(pred));
    }
}

/// The user's escrow records.
pub fn list_escrow(u: &User) -> (r: &Vec<EscrowRecord>)
    ensures
        r@ == u.escrow@,
{
    &u.escrow
}

/// Drop an asset's logical escrow entry without any ledger movement.
pub fn withdraw_escrow(u: &mut User, asset_id: u64, now: u64) -> (r: Result<(), CivError>)
    ensures
        r is Err ==> *final(u) == *old(u),
        !is_mutable(*old(u)) <==> r matches Err(CivError::EstateLocked),
        is_mutable(*old(u)) && !has_escrow(old(u).escrow@, asset_id) <==> r matches Err(
            CivError::AssetNotFound,
        ),
        r is Ok <==> is_mutable(*old(u)) && has_escrow(old(u).escrow@, asset_id),
        r is Ok ==> {
            &&& *final(u) == (User {
                escrow: final(u).escrow,
                audit_log: final(u).audit_log,
                ..*old(u)
            })
            &&& final(u).escrow@ == old(u).escrow@.filter(
                |e: EscrowRecord| e.asset_id != asset_id,
            )
            &&& final(u).audit_log@ == spec_push_audit(
                old(u).audit_log@,
                AuditEventKind::EscrowWithdrawn { asset_id, amount: None },
                now,
            )
        },
{
    if let Err(e) = assert_mutable(u) {
        return Err(e);
    }
    if find_escrow(&u.escrow, asset_id).is_none() {
        return Err(CivError::AssetNotFound);
    }
    retain_escrow_not(&mut u.escrow, asset_id);
    push_audit(u, AuditEventKind::EscrowWithdrawn { asset_id, amount: None }, now);
    Ok(())
}

/// The logical escrow remaining of an asset at its first record, zero when
/// absent or unset.
pub open spec fn spec_escrow_amount(escrow: Seq<EscrowRecord>, asset_id: u64) -> int
    decreases escrow.len(),
{
    if escrow.len() == 0 {
        0
    } else if escrow[0].asset_id == asset_id {
        match escrow[0].amount {
            Some(a) => a as int,
            None => 0,
        }
    } else {
        spec_escrow_amount(escrow.skip(1), asset_id)
    }
}

pub proof fn lemma_escrow_amount_hit(escrow: Seq<EscrowRecord>, asset_id: u64, i: int)
    requires
        0 <= i < escrow.len(),
        escrow[i].asset_id == asset_id,
        forall|j: int| 0 <= j < i ==> escrow[j].asset_id != asset_id,
    ensures
        spec_escrow_amount(escrow, asset_id) == (match escrow[i].amount {
            Some(a) => a as int,
            None => 0,
        }),
    decreases escrow.len(),
{
    if i > 0 {
        lemma_escrow_amount_hit(escrow.skip(1), asset_id, i - 1);
    }
}

/// At most one escrow record names the asset.
pub open spec fn escrow_unique(escrow: Seq<EscrowRecord>, asset_id: u64) -> bool {
    forall|j: int, k: int|
        0 <= j < escrow.len() && 0 <= k < escrow.len() && escrow[j].asset_id == asset_id
            && escrow[k].asset_id == asset_id ==> j == k
}

pub proof fn lemma_escrow_amount_miss(escrow: Seq<EscrowRecord>, asset_id: u64)
    requires
        forall|j: int| 0 <= j < escrow.len() ==> escrow[j].asset_id != asset_id,
    ensures
        spec_escrow_amount(escrow, asset_id) == 0,
    decreases escrow.len(),
{
    if escrow.len() > 0 {
        lemma_escrow_amount_miss(escrow.skip(1), asset_id);
    }
}

/// An on-chain escrow withdrawal plan: the amount to transfer back to the
/// owner from the escrow subaccount.
#[derive(Debug)]
pub struct EscrowWithdrawPlan {
    pub amount: u128,
}

/// Plan an on-chain escrow withdrawal: refused after the estate locks, on
/// an empty escrow (`escrow_empty`), and on a zero request
/// (`escrow_zero_withdraw`); otherwise the amount is the request bounded by
/// the logical remaining, the whole remaining when unstated.
pub fn withdraw_escrow_prepare(u: &User, asset_id: u64, amount: Option<u128>, now: u64) -> (r:
    Result<EscrowWithdrawPlan, CivError>)
    ensures
        (u.phase == EstatePhase::Locked || u.phase == EstatePhase::Executed) <==> (r matches Err(
            CivError::Other(m),
        ) && m@ == "escrow_withdraw_locked"@),
        ({
            let mutable_now = !(u.phase == EstatePhase::Locked || u.phase == EstatePhase::Executed);
            let total = spec_escrow_amount(u.escrow@, asset_id);
            &&& ((mutable_now && !has_asset(u.assets@, asset_id)) <==> r matches Err(
                CivError::AssetNotFound,
            ))
            &&& ((mutable_now && has_asset(u.assets@, asset_id) && total == 0) <==> (r matches Err(
                CivError::Other(m),
            ) && m@ == "escrow_empty"@))
            &&& ((mutable_now && has_asset(u.assets@, asset_id) && total > 0 && (
            match amount {
                Some(a) => a == 0,
                None => false,
            })) <==> (r matches Err(CivError::Other(m)) && m@ == "escrow_zero_withdraw"@))
            &&& (r matches Ok(p) ==> {
                &&& mutable_now
                &&& total > 0
                &&& p.amount == (match amount {
                    Some(req) => if req < total {
                        req as int
                    } else {
                        total
                    },
                    None => total,
                })
                &&& p.amount > 0
            })
            &&& ((mutable_now && has_asset(u.assets@, asset_id) && total > 0 && (match amount {
                Some(a) => a > 0,
                None => true,
            })) ==> r is Ok)
        }),
{
    if u.phase == EstatePhase::Locked || u.phase == EstatePhase::Executed {
        proof {
            reveal_strlit("escrow_withdraw_locked");
            reveal_strlit("escrow_empty");
            reveal_strlit("escrow_zero_withdraw");
            assert("escrow_withdraw_locked"@.len() == 22);
            assert("escrow_empty"@.len() == 12);
            assert("escrow_zero_withdraw"@.len() == 20);
        }
        return Err(CivError::Other(<String as StringExecFns>::from_str(
            "escrow_withdraw_locked",
        )));
    }
    if find_asset(&u.assets, asset_id).is_none() {
        return Err(CivError::AssetNotFound);
    }
    let total: u128 = match find_escrow(&u.escrow, asset_id) {
        Some(ei) => {
            proof {
                lemma_escrow_amount_hit(u.escrow@, asset_id, ei as int);
            }
            match u.escrow[ei].amount {
                Some(a) => a,
                None => 0,
            }
        },
        None => {
            proof {
                lemma_escrow_amount_miss(u.escrow@, asset_id);
            }
            0
        },
    };
    proof {
        reveal_strlit("escrow_withdraw_locked");
        reveal_strlit("escrow_empty");
        reveal_strlit("escrow_zero_withdraw");
        assert("escrow_withdraw_locked"@.len() == 22);
        assert("escrow_empty"@.len() == 12);
        assert("escrow_zero_withdraw"@.len() == 20);
    }
    if total == 0 {
        return Err(CivError::Other(<String as StringExecFns>::from_str("escrow_empty")));
    }
    let requested = match amount {
        Some(a) => a,
        None => total,
    };
    let withdraw_amount = if requested < total {
        requested
    } else {
        total
    };
    if withdraw_amount == 0 {
        return Err(CivError::Other(<String as StringExecFns>::from_str(
            "escrow_zero_withdraw",
        )));
    }
    Ok(EscrowWithdrawPlan { amount: withdraw_amount })
}

/// Settle a successful on-chain escrow withdrawal: the logical remaining
/// drops by the amount and a depleted entry leaves the list.
pub fn withdraw_escrow_apply(u: &mut User, asset_id: u64, amount: u128, now: u64)
    ensures
        *final(u) == (User {
            escrow: final(u).escrow,
            audit_log: final(u).audit_log,
            ..*old(u)
        }),
        final(u).audit_log@ == spec_push_audit(
            old(u).audit_log@,
            AuditEventKind::EscrowWithdrawn { asset_id, amount: Some(amount) },
            now,
        ),
        escrow_unique(old(u).escrow@, asset_id) ==> spec_escrow_amount(final(u).escrow@, asset_id)
            == (if spec_escrow_amount(old(u).escrow@, asset_id) >= amount {
            spec_escrow_amount(old(u).escrow@, asset_id) - amount
        } else {
            0int
        }),
        (escrow_unique(old(u).escrow@, asset_id) && spec_escrow_amount(old(u).escrow@, asset_id)
            == amount && amount > 0) ==> !has_escrow(final(u).escrow@, asset_id),
{
    match find_escrow(&u.escrow, asset_id) {
        Some(ei) => {
            proof {
                lemma_escrow_amount_hit(u.escrow@, asset_id, ei as int);
            }
            let rec = u.escrow.remove(ei);
            let prev: u128 = match rec.amount {
                Some(a) => a,
                None => 0,
            };
            let rem = if prev >= amount {
                prev - amount
            } else {
                0
            };
            if rem > 0 {
                u.escrow.insert(ei, EscrowRecord { amount: Some(rem), ..rec });
                proof {
                    lemma_escrow_amount_hit(u.escrow@, asset_id, ei as int);
                }
            } else {
                proof {
                    if escrow_unique(old(u).escrow@, asset_id) {
                        lemma_no_escrow_after_remove(old(u).escrow@, asset_id, ei as int);
                    }
                }
            }
        },
        None => {
            proof {
                lemma_escrow_amount_miss(u.escrow@, asset_id);
            }
        },
    }
    push_audit(u, AuditEventKind::EscrowWithdrawn { asset_id, amount: Some(amount) }, now);
}

proof fn lemma_no_escrow_after_remove(escrow: Seq<EscrowRecord>, asset_id: u64, i: int)
    requires
        0 <= i < escrow.len(),
        escrow[i].asset_id == asset_id,
        forall|j: int| 0 <= j < i ==> escrow[j].asset_id != asset_id,
        forall|j: int| 0 <= j < escrow.len() && escrow[j].asset_id == asset_id ==> j == i,
    ensures
        !has_escrow(escrow.remove(i), asset_id),
        spec_escrow_amount(escrow.remove(i), asset_id) == 0,
{
    let rest = escrow.remove(i);
    assert forall|j: int| 0 <= j < rest.len() implies rest[j].asset_id != asset_id by {
        if j < i {
            assert(rest[j] == escrow[j]);
        } else {
            assert(rest[j] == escrow[j + 1]);
        }
    }
    lemma_escrow_amount_miss(rest, asset_id);
}

/// Record a local approval for an asset, replacing any previous one.
pub fn approval_set(
    u: &mut User,
    asset_id: u64,
    allowance: Option<u128>,
    token_id: Option<u64>,
    now: u64,
) -> (r: Result<(), CivError>)
    ensures
        r is Err ==> *final(u) == *old(u),
        !is_mutable(*old(u)) <==> r matches Err(CivError::EstateLocked),
        is_mutable(*old(u)) && !has_asset(old(u).assets@, asset_id) <==> r matches Err(
            CivError::AssetNotFound,
        ),
        r is Ok <==> is_mutable(*old(u)) && has_asset(old(u).assets@, asset_id),
        r is Ok ==> {
            &&& *final(u) == (User {
                approvals: final(u).approvals,
                audit_log: final(u).audit_log,
                ..*old(u)
            })
            &&& final(u).approvals@ == old(u).approvals@.filter(
                |a: ApprovalRecord| a.asset_id != asset_id,
            ).push(ApprovalRecord { asset_id, allowance, token_id, granted_at: now })
            &&& final(u).audit_log@ == spec_push_audit(
                old(u).audit_log@,
                AuditEventKind::ApprovalSet { asset_id },
                now,
            )
        },
{
    if let Err(e) = assert_mutable(u) {
        return Err(e);
    }
    if find_asset(&u.assets, asset_id).is_none() {
        return Err(CivError::AssetNotFound);
    }
    retain_approvals_not(&mut u.approvals, asset_id);
    u.approvals.push(ApprovalRecord { asset_id, allowance, token_id, granted_at: now });
    push_audit(u, AuditEventKind::ApprovalSet { asset_id }, now);
    Ok(())
}

#[verifier::rlimit(80)]
fn retain_approvals_not(v: &mut Vec<ApprovalRecord>, id: u64)
    ensures
        final(v)@ == old(v)@.filter(|a: ApprovalRecord| a.asset_id != id),
{
    let ghost pred = |a: ApprovalRecord| a.asset_id != id;
    let ghost orig = v@;
    let mut i: usize = 0;
    let ghost j: int = 0;
    proof {
        assert(orig.subrange(0, 0).filter(pred) =~= Seq::<ApprovalRecord>::empty()) by {
            reveal_with_fuel(Seq::<ApprovalRecord>::filter, 2);
        }
        assert(v@ =~= orig.subrange(0, 0).filter(pred) + orig.skip(0));
    }
    while i < v.len()
        invariant
            pred == (|a: ApprovalRecord| a.asset_id != id),
            0 <= j <= orig.len(),
            v@ =~= orig.subrange(0, j).filter(pred) + orig.skip(j),
            i == orig.subrange(0, j).filter(pred).len(),
            i <= j,
        decreases orig.len() - j,
    {
        let ghost here = orig[j];
        proof {
            assert(v@[i as int] == orig.skip(j)[0]);
            assert(orig.subrange(0, j + 1) =~= orig.subrange(0, j) + seq![here]);
            Seq::<ApprovalRecord>::filter_distributes_over_add(
                orig.subrange(0, j),
                seq![here],
                pred,
            );
            assert(seq![here].filter(pred) =~= if pred(here) {
                seq![here]
            } else {
                Seq::<ApprovalRecord>::empty()
            }) by {
                reveal_with_fuel(Seq::<ApprovalRecord>::filter, 2);
                assert(seq![here].drop_last() =~= Seq::<ApprovalRecord>::empty());
            }
        }
        if v[i].asset_id != id {
            i = i + 1;
        } else {
            v.remove(i);
        }
        proof {
            assert(v@ =~= orig.subrange(0, j + 1).filter(pred) + orig.skip(j + 1));
            j = j + 1;
        }
    }
    proof {
        assert(j == orig.len());
        assert(orig.subrange(0, orig.len() as int) =~= orig);
        assert(orig.skip(j) =~= Seq::<ApprovalRecord>::empty());
        assert(v@ =~= orig.filter(pred));
    }
}

/// Revoke an asset's local approval.
pub fn approval_revoke(u: &mut User, asset_id: u64, now: u64) -> (r: Result<(), CivError>)
    ensures
        r is Err ==> *final(u) == *old(u),
        !is_mutable(*old(u)) <==> r matches Err(CivError::EstateLocked),
        r is Ok <==> is_mutable(*old(u)) && crate::common::has_approval(
            old(u).approvals@,
            asset_id,
        ),
        r is Ok ==> {
            &&& *final(u) == (User {
                approvals: final(u).approvals,
                audit_log: final(u).audit_log,
                ..*old(u)
            })
            &&& final(u).approvals@ == old(u).approvals@.filter(
                |a: ApprovalRecord| a.asset_id != asset_id,
            )
            &&& final(u).audit_log@ == spec_push_audit(
                old(u).audit_log@,
                AuditEventKind::ApprovalRevoked { asset_id },
                now,
            )
        },
{
    if let Err(e) = assert_mutable(u) {
        return Err(e);
    }
    if find_approval(&u.approvals, asset_id).is_none() {
        return Err(CivError::AssetNotFound);
    }
    retain_approvals_not(&mut u.approvals, asset_id);
    push_audit(u, AuditEventKind::ApprovalRevoked { asset_id }, now);
    Ok(())
}

/// The user's approvals.
pub fn list_approvals(u: &User) -> (r: &Vec<ApprovalRecord>)
    ensures
        r@ == u.approvals@,
{
    &u.approvals
}

/// Settle an asynchronous escrow release for one heir: the logical
/// remaining drops by the released share and a depleted entry leaves the
/// list. Marks the matching enqueued transfer note released.
/// A transfer record still carries the pair's enqueued escrow release.
pub open spec fn escrow_note_match(tr: crate::model::payout::TransferRecord, asset_id: u64, heir_id: u64) -> bool {
    tr.asset_id == Some(asset_id) && tr.heir_id == Some(heir_id) && (tr.note matches Some(n)
        && n@ == "escrow_release_enqueued"@)
}

/// `t` is the last transfer still carrying the pair's enqueued release.
pub open spec fn last_escrow_note_at(
    s: Seq<crate::model::payout::TransferRecord>,
    asset_id: u64,
    heir_id: u64,
    t: int,
) -> bool {
    &&& 0 <= t < s.len()
    &&& escrow_note_match(s[t], asset_id, heir_id)
    &&& forall|j: int| t < j < s.len() ==> !escrow_note_match(s[j], asset_id, heir_id)
}

pub fn attempt_escrow_release_apply(u: &mut User, asset_id: u64, heir_id: u64, amount: u128, now: u64)
    ensures
        *final(u) == (User {
            escrow: final(u).escrow,
            transfers: final(u).transfers,
            audit_log: final(u).audit_log,
            ..*old(u)
        }),
        escrow_unique(old(u).escrow@, asset_id) ==> spec_escrow_amount(final(u).escrow@, asset_id)
            == (if spec_escrow_amount(old(u).escrow@, asset_id) >= amount {
            spec_escrow_amount(old(u).escrow@, asset_id) - amount
        } else {
            0int
        }),
        final(u).transfers@.len() == old(u).transfers@.len(),
        final(u).audit_log@ == spec_push_audit(
            old(u).audit_log@,
            AuditEventKind::EscrowReleased { asset_id, heir_id, amount },
            now,
        ),
        (forall|t: int|
            0 <= t < old(u).transfers@.len() ==> !escrow_note_match(
                #[trigger] old(u).transfers@[t],
                asset_id,
                heir_id,
            )) ==> final(u).transfers@ == old(u).transfers@,
        forall|t: int|
            #[trigger] last_escrow_note_at(old(u).transfers@, asset_id, heir_id, t) ==> ({
                let tr = final(u).transfers@[t];
                &&& final(u).transfers@ == old(u).transfers@.update(t, tr)
                &&& tr == (crate::model::payout::TransferRecord {
                    note: tr.note,
                    ..old(u).transfers@[t]
                })
                &&& (tr.note matches Some(n) && n@ == "escrow_released"@)
            }),
{
    match find_escrow(&u.escrow, asset_id) {
        Some(ei) => {
            proof {
                lemma_escrow_amount_hit(u.escrow@, asset_id, ei as int);
            }
            let rec = u.escrow.remove(ei);
            let prev: u128 = match rec.amount {
                Some(a) => a,
                None => 0,
            };
            let rem = if prev >= amount {
                prev - amount
            } else {
                0
            };
            if rem > 0 {
                u.escrow.insert(ei, EscrowRecord { amount: Some(rem), ..rec });
                proof {
                    lemma_escrow_amount_hit(u.escrow@, asset_id, ei as int);
                }
            } else {
                proof {
                    if escrow_unique(old(u).escrow@, asset_id) {
                        lemma_no_escrow_after_remove(old(u).escrow@, asset_id, ei as int);
                    }
                }
            }
        },
        None => {
            proof {
                lemma_escrow_amount_miss(u.escrow@, asset_id);
            }
        },
    }
    push_audit(u, AuditEventKind::EscrowReleased { asset_id, heir_id, amount }, now);
    let ghost esc_mid = u.escrow@;
    let ghost log_mid = u.audit_log@;
    let mut i: usize = u.transfers.len();
    let mut done = false;
    let ghost mut hit: int = 0;
    while i > 0
        invariant
            i <= u.transfers@.len(),
            u.transfers@.len() == old(u).transfers@.len(),
            u.escrow@ == esc_mid,
            u.audit_log@ == log_mid,
            *u == (User {
                escrow: u.escrow,
                transfers: u.transfers,
                audit_log: u.audit_log,
                ..*old(u)
            }),
            !done ==> u.transfers@ == old(u).transfers@ && (forall|j: int|
                i <= j < old(u).transfers@.len() ==> !escrow_note_match(
                    #[trigger] old(u).transfers@[j],
                    asset_id,
                    heir_id,
                )),
            done ==> ({
                let tr = u.transfers@[hit];
                &&& last_escrow_note_at(old(u).transfers@, asset_id, heir_id, hit)
                &&& u.transfers@ == old(u).transfers@.update(hit, tr)
                &&& tr == (crate::model::payout::TransferRecord {
                    note: tr.note,
                    ..old(u).transfers@[hit]
                })
                &&& (tr.note matches Some(n) && n@ == "escrow_released"@)
            }),
        decreases i,
    {
        i = i - 1;
        if !done {
            let matches_here = u.transfers[i].asset_id == Some(asset_id) && u.transfers[i].heir_id
                == Some(heir_id) && (match &u.transfers[i].note {
                Some(n) => crate::strutil::str_eq(n.as_str(), "escrow_release_enqueued"),
                None => false,
            });
            if matches_here {
                proof {
                    assert(last_escrow_note_at(old(u).transfers@, asset_id, heir_id, i as int));
                }
                let rec = u.transfers.remove(i);
                u.transfers.insert(
                    i,
                    crate::model::payout::TransferRecord {
                        note: Some(<String as StringExecFns>::from_str("escrow_released")),
                        ..rec
                    },
                );
                done = true;
                proof {
                    hit = i as int;
                    assert(u.transfers@ =~= old(u).transfers@.update(
                        hit,
                        u.transfers@[hit],
                    ));
                }
            }
        }
    }
    proof {
        if done {
            assert forall|t: int|
                #[trigger] last_escrow_note_at(old(u).transfers@, asset_id, heir_id, t) implies t
                == hit by {
                if t < hit {
                    assert(!escrow_note_match(old(u).transfers@[hit], asset_id, heir_id));
                }
                if t > hit {
                    assert(!escrow_note_match(old(u).transfers@[t], asset_id, heir_id));
                }
            }
        } else {
            assert forall|t: int|
                #[trigger] last_escrow_note_at(old(u).transfers@, asset_id, heir_id, t) implies false by {
                assert(escrow_note_match(old(u).transfers@[t], asset_id, heir_id));
            }
        }
    }
}


/// One escrow auto-management action the scan took.
#[derive(Debug)]
pub struct EscrowAutoAction {
    pub asset_id: u64,
    pub top_up: bool,
    pub amount: u128,
}

/// The magnitude a signed delta reports.
pub open spec fn delta_mag(d: i128) -> u128 {
    if d == i128::MIN {
        ((i128::MAX as u128) + 1) as u128
    } else if d < 0 {
        (-d) as u128
    } else {
        d as u128
    }
}

/// What a reconciliation entry calls for: a top-up on a large shortfall,
/// a reclaim on a large surplus, nothing otherwise.
pub open spec fn auto_action_of(e: EscrowReconEntry) -> Option<(bool, u128)> {
    match e.delta {
        Some(d) => if d < 0 && delta_mag(d) >= ESCROW_TOP_UP_MIN_SHORTFALL {
            Some((true, delta_mag(d)))
        } else if d > 0 && delta_mag(d) >= ESCROW_RECLAIM_MIN_SURPLUS {
            Some((false, delta_mag(d)))
        } else {
            Option::<(bool, u128)>::None
        },
        None => Option::<(bool, u128)>::None,
    }
}

/// An auto action for the asset sits among the hundred newest audit
/// entries, inside the cooldown.
pub open spec fn recent_auto_action(log: Seq<AuditEvent>, asset_id: u64, now: u64) -> bool {
    exists|i: int|
        log.len() - 100 <= i && 0 <= i < log.len() && (match (#[trigger] log[i]).kind {
            AuditEventKind::EscrowAutoTopUp { asset_id: a, .. } => a == asset_id && (if now
                >= log[i].timestamp {
                now - log[i].timestamp
            } else {
                0
            }) < ESCROW_AUTO_ACTION_COOLDOWN_SECS,
            AuditEventKind::EscrowAutoReclaim { asset_id: a, .. } => a == asset_id && (if now
                >= log[i].timestamp {
                now - log[i].timestamp
            } else {
                0
            }) < ESCROW_AUTO_ACTION_COOLDOWN_SECS,
            _ => false,
        })
}

/// Some earlier action of this pass covered the asset.
pub open spec fn acted_on(acts: Seq<EscrowAutoAction>, asset_id: u64) -> bool {
    exists|k: int| 0 <= k < acts.len() && (#[trigger] acts[k].asset_id) == asset_id
}

/// The actions the scan takes over the first `j` reconciliation entries:
/// thresholds met, cooldown clear, one action per asset, at most `max`.
pub open spec fn auto_actions_prefix(u: User, now: u64, j: int, max: int) -> Seq<EscrowAutoAction>
    decreases j,
{
    match u.escrow_recon {
        Some(es) => if j <= 0 {
            Seq::empty()
        } else {
            let prev = auto_actions_prefix(u, now, j - 1, max);
            match auto_action_of(es@[j - 1]) {
                Some((top_up, amount)) => if prev.len() < max && !recent_auto_action(
                    u.audit_log@,
                    es@[j - 1].asset_id,
                    now,
                ) && !acted_on(prev, es@[j - 1].asset_id) {
                    prev.push(
                        EscrowAutoAction { asset_id: es@[j - 1].asset_id, top_up, amount },
                    )
                } else {
                    prev
                },
                None => prev,
            }
        },
        None => Seq::empty(),
    }
}

/// The audit event one action emits.
pub open spec fn auto_action_event(a: EscrowAutoAction) -> AuditEventKind {
    if a.top_up {
        AuditEventKind::EscrowAutoTopUp { asset_id: a.asset_id, amount: a.amount }
    } else {
        AuditEventKind::EscrowAutoReclaim { asset_id: a.asset_id, amount: a.amount }
    }
}

/// An audit kind other than a retry-enqueue marker.
pub open spec fn non_retry_kind(k: AuditEventKind) -> bool {
    !(k matches AuditEventKind::RetryAttempt { .. })
}

proof fn lemma_filter_kinds_snoc(ks: Seq<AuditEventKind>, k: AuditEventKind)
    ensures
        ks.push(k).filter(|x: AuditEventKind| non_retry_kind(x)) == if non_retry_kind(k) {
            ks.filter(|x: AuditEventKind| non_retry_kind(x)).push(k)
        } else {
            ks.filter(|x: AuditEventKind| non_retry_kind(x))
        },
{
    reveal_with_fuel(Seq::<AuditEventKind>::filter, 2);
    assert(ks.push(k).drop_last() =~= ks);
    assert(ks.push(k).last() == k);
}

fn recent_auto_action_exec(log: &Vec<AuditEvent>, asset_id: u64, now: u64) -> (r: bool)
    ensures
        r == recent_auto_action(log@, asset_id, now),
{
    let start: usize = if log.len() > 100 {
        log.len() - 100
    } else {
        0
    };
    let mut i: usize = start;
    while i < log.len()
        invariant
            start <= i <= log@.len(),
            start == (if log@.len() > 100 {
                log@.len() - 100
            } else {
                0int
            }),
            forall|j: int|
                start <= j < i ==> !(match (#[trigger] log@[j]).kind {
                    AuditEventKind::EscrowAutoTopUp { asset_id: a, .. } => a == asset_id && (
                    if now >= log@[j].timestamp {
                        now - log@[j].timestamp
                    } else {
                        0
                    }) < ESCROW_AUTO_ACTION_COOLDOWN_SECS,
                    AuditEventKind::EscrowAutoReclaim { asset_id: a, .. } => a == asset_id && (
                    if now >= log@[j].timestamp {
                        now - log@[j].timestamp
                    } else {
                        0
                    }) < ESCROW_AUTO_ACTION_COOLDOWN_SECS,
                    _ => false,
                }),
        decreases log@.len() - i,
    {
        let age = if now >= log[i].timestamp {
            now - log[i].timestamp
        } else {
            0
        };
        let hits = match &log[i].kind {
            AuditEventKind::EscrowAutoTopUp { asset_id: a, .. } => *a == asset_id && age
                < ESCROW_AUTO_ACTION_COOLDOWN_SECS,
            AuditEventKind::EscrowAutoReclaim { asset_id: a, .. } => *a == asset_id && age
                < ESCROW_AUTO_ACTION_COOLDOWN_SECS,
            _ => false,
        };
        if hits {
            return true;
        }
        i = i + 1;
    }
    false
}

fn acted_on_exec(acts: &Vec<EscrowAutoAction>, asset_id: u64) -> (r: bool)
    ensures
        r == acted_on(acts@, asset_id),
{
    let mut k: usize = 0;
    while k < acts.len()
        invariant
            k <= acts@.len(),
            forall|t: int| 0 <= t < k ==> (#[trigger] acts@[t].asset_id) != asset_id,
        decreases acts@.len() - k,
    {
        if acts[k].asset_id == asset_id {
            return true;
        }
        k = k + 1;
    }
    false
}

/// Scan the stored escrow reconciliation for auto-management work: each
/// qualifying shortfall or surplus, at most one per asset and `max` per
/// pass, outside the cooldown window, emits its top-up or reclaim event
/// and enqueues escrow-release retries for up to ten of the asset's share
/// heirs. The actions taken come back to the caller.
#[verifier::rlimit(100)]
#[verifier::spinoff_prover]
pub fn scan_escrow_auto_actions(u: &mut User, max: usize, now: u64) -> (out: Vec<EscrowAutoAction>)
    ensures
        *final(u) == (User {
            audit_log: final(u).audit_log,
            retry_queue: final(u).retry_queue,
            retry_seq: final(u).retry_seq,
            ..*old(u)
        }),
        out@ == auto_actions_prefix(
            *old(u),
            now,
            (match old(u).escrow_recon {
                Some(es) => es@.len() as int,
                None => 0int,
            }),
            max as int,
        ),
        exists|ks: Seq<AuditEventKind>|
            final(u).audit_log@ == #[trigger] spec_push_audits(old(u).audit_log@, ks, now)
                && ks.filter(|x: AuditEventKind| non_retry_kind(x)) == out@.map_values(
                |a: EscrowAutoAction| auto_action_event(a),
            ),
        final(u).retry_queue matches Some(q2) && ({
            let base = match old(u).retry_queue {
                Some(v) => v@,
                None => Seq::<RetryItem>::empty(),
            };
            &&& q2@.len() >= base.len()
            &&& (forall|t: int| 0 <= t < base.len() ==> #[trigger] q2@[t] == base[t])
            &&& (forall|t: int|
                base.len() <= t < q2@.len() ==> ((#[trigger] q2@[t].kind) matches RetryKind::EscrowRelease {
                    asset_id: a,
                    ..
                } && acted_on(out@, a) && q2@[t].attempts == 0 && !q2@[t].terminal))
        }),
{
    let ghost base = match old(u).retry_queue {
        Some(v) => v@,
        None => Seq::<RetryItem>::empty(),
    };
    if u.retry_queue.is_none() {
        u.retry_queue = Some(Vec::new());
    }
    let mut out: Vec<EscrowAutoAction> = Vec::new();
    let n = match &u.escrow_recon {
        Some(es) => es.len(),
        None => 0,
    };
    let mut i: usize = 0;
    while i < n
        invariant
            i <= n,
            n as int == (match old(u).escrow_recon {
                Some(es) => es@.len() as int,
                None => 0int,
            }),
            *u == (User { retry_queue: u.retry_queue, ..*old(u) }),
            u.retry_queue matches Some(q) && q@ == base,
            out@ == auto_actions_prefix(*old(u), now, i as int, max as int),
        decreases n - i,
    {
        let ghost prev = out@;
        let (aid, qual) = match &u.escrow_recon {
            Some(es) => {
                let aid = es[i].asset_id;
                let q: Option<(bool, u128)> = match es[i].delta {
                    Some(d) => {
                        let mag: u128 = if d == i128::MIN {
                            (i128::MAX as u128) + 1
                        } else if d < 0 {
                            (-d) as u128
                        } else {
                            d as u128
                        };
                        if d < 0 && mag >= ESCROW_TOP_UP_MIN_SHORTFALL {
                            Some((true, mag))
                        } else if d > 0 && mag >= ESCROW_RECLAIM_MIN_SURPLUS {
                            Some((false, mag))
                        } else {
                            None
                        }
                    },
                    None => None,
                };
                (aid, q)
            },
            None => {
                proof {
                    assert(false);
                }
                (0u64, None)
            },
        };
        match qual {
            Some((top_up, amount)) => {
                if out.len() < max && !recent_auto_action_exec(&u.audit_log, aid, now)
                    && !acted_on_exec(&out, aid) {
                    out.push(EscrowAutoAction { asset_id: aid, top_up, amount });
                    proof {
                        assert(out@ =~= prev.push(
                            EscrowAutoAction { asset_id: aid, top_up, amount },
                        ));
                    }
                }
            },
            None => {},
        }
        i = i + 1;
    }
    let ghost acts = out@;
    let ghost mut ks: Seq<AuditEventKind> = Seq::empty();
    proof {
        assert(u.audit_log@ == spec_push_audits(old(u).audit_log@, ks, now));
        assert(ks.filter(|x: AuditEventKind| non_retry_kind(x)) =~= Seq::<
            AuditEventKind,
        >::empty()) by {
            reveal_with_fuel(Seq::<AuditEventKind>::filter, 2);
        }
        assert(acts.subrange(0, 0).map_values(|a: EscrowAutoAction| auto_action_event(a)) =~= Seq::<
            AuditEventKind,
        >::empty());
    }
    let mut k: usize = 0;
    while k < out.len()
        invariant
            k <= out@.len(),
            out@ == acts,
            *u == (User {
                audit_log: u.audit_log,
                retry_queue: u.retry_queue,
                retry_seq: u.retry_seq,
                ..*old(u)
            }),
            u.audit_log@ == spec_push_audits(old(u).audit_log@, ks, now),
            ks.filter(|x: AuditEventKind| non_retry_kind(x)) == acts.subrange(
                0,
                k as int,
            ).map_values(|a: EscrowAutoAction| auto_action_event(a)),
            u.retry_queue matches Some(q) && ({
                &&& q@.len() >= base.len()
                &&& (forall|t: int| 0 <= t < base.len() ==> #[trigger] q@[t] == base[t])
                &&& (forall|t: int|
                    base.len() <= t < q@.len() ==> ((#[trigger] q@[t].kind) matches RetryKind::EscrowRelease {
                        asset_id: a,
                        ..
                    } && acted_on(acts, a) && q@[t].attempts == 0 && !q@[t].terminal))
            }),
        decreases out@.len() - k,
    {
        let action_asset = out[k].asset_id;
        let action_top_up = out[k].top_up;
        let action_amount = out[k].amount;
        let kind = if action_top_up {
            AuditEventKind::EscrowAutoTopUp { asset_id: action_asset, amount: action_amount }
        } else {
            AuditEventKind::EscrowAutoReclaim { asset_id: action_asset, amount: action_amount }
        };
        let ghost gk = kind;
        let ghost pre_ks = ks;
        push_audit(u, kind, now);
        proof {
            lemma_push_audits_snoc(old(u).audit_log@, ks, gk, now);
            ks = ks.push(gk);
            lemma_filter_kinds_snoc(pre_ks, gk);
            assert(gk == auto_action_event(acts[k as int]));
            assert(acts.subrange(0, k + 1) =~= acts.subrange(0, k as int).push(acts[k as int]));
            assert(acts.subrange(0, k + 1).map_values(
                |a: EscrowAutoAction| auto_action_event(a),
            ) =~= acts.subrange(0, k as int).map_values(
                |a: EscrowAutoAction| auto_action_event(a),
            ).push(auto_action_event(acts[k as int])));
            assert(acted_on(acts, action_asset));
        }
        let mut fanout: usize = 0;
        let mut d: usize = 0;
        let dn = u.distributions_v2.len();
        while d < dn
            invariant
                d <= dn,
                dn == u.distributions_v2@.len(),
                fanout <= 10,
                k < acts.len(),
                action_asset == acts[k as int].asset_id,
                *u == (User {
                    audit_log: u.audit_log,
                    retry_queue: u.retry_queue,
                    retry_seq: u.retry_seq,
                    ..*old(u)
                }),
                u.audit_log@ == spec_push_audits(old(u).audit_log@, ks, now),
                ks.filter(|x: AuditEventKind| non_retry_kind(x)) == acts.subrange(
                    0,
                    k + 1,
                ).map_values(|a: EscrowAutoAction| auto_action_event(a)),
                u.retry_queue matches Some(q) && ({
                    &&& q@.len() >= base.len()
                    &&& (forall|t: int| 0 <= t < base.len() ==> #[trigger] q@[t] == base[t])
                    &&& (forall|t: int|
                        base.len() <= t < q@.len() ==> ((#[trigger] q@[t].kind) matches RetryKind::EscrowRelease {
                            asset_id: a,
                            ..
                        } && acted_on(acts, a) && q@[t].attempts == 0 && !q@[t].terminal))
                }),
            decreases dn - d,
        {
            if u.distributions_v2[d].asset_id == action_asset && fanout < 10 {
                let heir_id = u.distributions_v2[d].heir_id;
                let ghost pre_log = u.audit_log@;
                let ghost pre_ks2 = ks;
                enqueue_retry(
                    u,
                    RetryKind::EscrowRelease { asset_id: action_asset, heir_id },
                    15,
                    now,
                );
                proof {
                    let kk = choose|kv: AuditEventKind|
                        u.audit_log@ == #[trigger] spec_push_audit(pre_log, kv, now) && (
                        kv matches AuditEventKind::RetryAttempt { .. });
                    lemma_push_audits_snoc(old(u).audit_log@, ks, kk, now);
                    ks = ks.push(kk);
                    lemma_filter_kinds_snoc(pre_ks2, kk);
                    assert(acted_on(acts, action_asset));
                }
                fanout = fanout + 1;
            }
            d = d + 1;
        }
        k = k + 1;
    }
    proof {
        assert(acts.subrange(0, acts.len() as int) =~= acts);
    }
    out
}

} // verus!
