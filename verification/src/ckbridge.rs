//! The chain-wrapped withdrawal lifecycle: heir-initiated request, fee
//! quote and submission bookkeeping, and the poll state machine with its
//! terminal consecutive-miss classification.

use vstd::prelude::*;
use vstd::string::StringExecFns;

use crate::audit::{push_audit, spec_push_audit};
use crate::common::{
    find_bridge_tx, find_ck_withdraw, find_session, first_asset_at, first_btx_at, first_ckw_at,
    first_session_at, has_bridge_tx, has_ck_withdraw, has_session,
};
use crate::retry::{RetryItem, RetryKind};
use crate::model::audit::AuditEventKind;
use crate::model::bridge::{BridgeStatus, BridgeTxInfo, CkWithdrawRecord};
use crate::model::errors::{BridgeErrorInfo, BridgeErrorKind, CivError};
use crate::model::user::{EstatePhase, User};

verus! {

/// Consecutive NotFound polls before a withdrawal is closed as terminal.
pub const BRIDGE_NOTFOUND_TERMINAL: u32 = 5;

/// A session with this id exists, has not expired, and belongs to the heir.
pub open spec fn session_live(
    s: Seq<crate::model::integrity::HeirSession>,
    id: u64,
    heir_id: u64,
    now: u64,
) -> bool {
    exists|si: int|
        #[trigger] first_session_at(s, id, si) && now <= s[si].expires_at && s[si].heir_id
            == heir_id
}

/// The consecutive-miss counter after one more miss, saturating; an unset
/// counter counts as zero.
pub open spec fn sat_inc_miss(m: Option<u32>) -> u32 {
    match m {
        Some(v) => if v == u32::MAX {
            u32::MAX
        } else {
            (v + 1) as u32
        },
        None => 1u32,
    }
}

/// Stage a chain-wrapped withdrawal for a heir once its work item has an
/// amount: only under Locked; the record starts Staged and unrequested,
/// and the staging is audited. Outside Locked nothing changes.
pub fn stage_ck_withdraw(u: &mut User, asset_id: u64, heir_id: u64, amount: u128, now: u64)
    ensures
        old(u).phase != EstatePhase::Locked ==> *final(u) == *old(u),
        old(u).phase == EstatePhase::Locked ==> {
            &&& *final(u) == (User {
                ck_withdraws: final(u).ck_withdraws,
                audit_log: final(u).audit_log,
                ..*old(u)
            })
            &&& final(u).ck_withdraws@ == old(u).ck_withdraws@.push(
                CkWithdrawRecord {
                    asset_id,
                    heir_id,
                    amount,
                    staged_at: now,
                    requested_at: None,
                    completed_at: None,
                    tx_index: None,
                    bridge_status: Some(BridgeStatus::Staged),
                    bridge_tx_id: None,
                    bridge_error: None,
                    tx_hash: None,
                    effective_fee: None,
                    quoted_fee: None,
                },
            )
            &&& final(u).audit_log@ == spec_push_audit(
                old(u).audit_log@,
                AuditEventKind::CkWithdrawStaged { asset_id, heir_id, amount },
                now,
            )
        },
{
    if !(u.phase == EstatePhase::Locked) {
        return ;
    }
    u.ck_withdraws.push(
        CkWithdrawRecord {
            asset_id,
            heir_id,
            amount,
            staged_at: now,
            requested_at: None,
            completed_at: None,
            tx_index: None,
            bridge_status: Some(BridgeStatus::Staged),
            bridge_tx_id: None,
            bridge_error: None,
            tx_hash: None,
            effective_fee: None,
            quoted_fee: None,
        },
    );
    push_audit(u, AuditEventKind::CkWithdrawStaged { asset_id, heir_id, amount }, now);
}

/// The user's ck-withdraw records.
pub fn list_ck_withdraws(u: &User) -> (r: &Vec<CkWithdrawRecord>)
    ensures
        r@ == u.ck_withdraws@,
{
    &u.ck_withdraws
}

/// Heir-initiated request of a staged withdrawal, allowed once, under a
/// live session of the right heir, after the estate locked.
pub fn request_ck_withdraw(
    u: &mut User,
    session_id: u64,
    asset_id: u64,
    heir_id: u64,
    now: u64,
) -> (r: Result<(), CivError>)
    ensures
        !(old(u).phase == EstatePhase::Locked || old(u).phase == EstatePhase::Executed)
            <==> r matches Err(CivError::EstateNotReady),
        r is Err ==> *final(u) == *old(u),
        r is Ok <==> (old(u).phase == EstatePhase::Locked || old(u).phase == EstatePhase::Executed)
            && session_live(old(u).sessions@, session_id, heir_id, now) && (exists|ci: int|
            #[trigger] first_ckw_at(old(u).ck_withdraws@, asset_id, heir_id, ci)
                && old(u).ck_withdraws@[ci].requested_at is None),
        r is Ok ==> exists|si: int, ci: int|
            {
                &&& 0 <= si < old(u).sessions@.len()
                &&& old(u).sessions@[si].id == session_id
                &&& now <= old(u).sessions@[si].expires_at
                &&& old(u).sessions@[si].heir_id == heir_id
                &&& 0 <= ci < old(u).ck_withdraws@.len()
                &&& old(u).ck_withdraws@[ci].asset_id == asset_id
                &&& old(u).ck_withdraws@[ci].heir_id == heir_id
                &&& (forall|j: int|
                    0 <= j < ci ==> !(old(u).ck_withdraws@[j].asset_id == asset_id && old(
                        u,
                    ).ck_withdraws@[j].heir_id == heir_id))
                &&& old(u).ck_withdraws@[ci].requested_at is None
                &&& *final(u) == (User {
                    ck_withdraws: final(u).ck_withdraws,
                    audit_log: final(u).audit_log,
                    ..*old(u)
                })
                &&& final(u).ck_withdraws@ =~= old(u).ck_withdraws@.update(
                    ci,
                    CkWithdrawRecord {
                        requested_at: Some(now),
                        bridge_status: Some(BridgeStatus::Requested),
                        ..old(u).ck_withdraws@[ci]
                    },
                )
                &&& final(u).audit_log@ == spec_push_audit(
                    old(u).audit_log@,
                    AuditEventKind::CkWithdrawRequested { asset_id, heir_id },
                    now,
                )
            },
        (r matches Err(CivError::Other(m)) && m@ == "already_requested"@) <==> (old(u).phase
            == EstatePhase::Locked || old(u).phase == EstatePhase::Executed) && session_live(
            old(u).sessions@,
            session_id,
            heir_id,
            now,
        ) && (exists|ci: int|
            #[trigger] first_ckw_at(old(u).ck_withdraws@, asset_id, heir_id, ci)
                && old(u).ck_withdraws@[ci].requested_at is Some),
{
    if !(u.phase == EstatePhase::Locked || u.phase == EstatePhase::Executed) {
        return Err(CivError::EstateNotReady);
    }
    let sidx = match find_session(&u.sessions, session_id) {
        Some(i) => i,
        None => {
            proof {
                reveal_strlit("session_not_found");
                reveal_strlit("already_requested");
                assert("session_not_found"@[0] == 's');
                assert("already_requested"@[0] == 'a');
            }
            return Err(CivError::Other(
                <String as StringExecFns>::from_str("session_not_found"),
            ));
        },
    };
    proof {
        assert(first_session_at(u.sessions@, session_id, sidx as int));
        assert forall|si: int| #[trigger] first_session_at(u.sessions@, session_id, si) implies si
            == sidx as int by {
            if si < sidx as int {
                assert(u.sessions@[si].id == session_id);
            }
            if si > sidx as int {
                assert(u.sessions@[sidx as int].id != session_id);
            }
        }
    }
    if now > u.sessions[sidx].expires_at {
        return Err(CivError::SessionExpired);
    }
    if u.sessions[sidx].heir_id != heir_id {
        return Err(CivError::Unauthorized);
    }
    let ci = match find_ck_withdraw(&u.ck_withdraws, asset_id, heir_id) {
        Some(i) => i,
        None => {
            return Err(CivError::AssetNotFound);
        },
    };
    proof {
        assert(first_ckw_at(u.ck_withdraws@, asset_id, heir_id, ci as int));
        assert forall|cj: int|
            #[trigger] first_ckw_at(u.ck_withdraws@, asset_id, heir_id, cj) implies cj
            == ci as int by {
            if cj < ci as int {
                assert(u.ck_withdraws@[cj].asset_id == asset_id && u.ck_withdraws@[cj].heir_id
                    == heir_id);
            }
            if cj > ci as int {
                assert(!(u.ck_withdraws@[ci as int].asset_id == asset_id
                    && u.ck_withdraws@[ci as int].heir_id == heir_id));
            }
        }
    }
    if u.ck_withdraws[ci].requested_at.is_some() {
        return Err(CivError::Other(<String as StringExecFns>::from_str("already_requested")));
    }
    let rec = u.ck_withdraws.remove(ci);
    u.ck_withdraws.insert(
        ci,
        CkWithdrawRecord {
            requested_at: Some(now),
            bridge_status: Some(BridgeStatus::Requested),
            ..rec
        },
    );
    proof {
        assert(u.ck_withdraws@ =~= old(u).ck_withdraws@.update(
            ci as int,
            u.ck_withdraws@[ci as int],
        ));
    }
    push_audit(u, AuditEventKind::CkWithdrawRequested { asset_id, heir_id }, now);
    Ok(())
}

/// What a submission needs: the token canister, the amount, whether a fee
/// quote is still missing, and the chain kind.
#[derive(Debug)]
pub struct SubmitPlan {
    pub canister: String,
    pub amount: u128,
    pub need_fee_quote: bool,
    pub chain_wrapped: Option<crate::model::base::ChainWrappedKind>,
}

/// Validate a submission and say what to call: the record must have been
/// requested and not completed, under a live session of the heir.
pub fn submit_ck_withdraw_prepare(
    u: &User,
    session_id: u64,
    asset_id: u64,
    heir_id: u64,
    now: u64,
) -> (r: Result<SubmitPlan, CivError>)
    ensures
        r is Ok <==> session_live(u.sessions@, session_id, heir_id, now) && (exists|ci: int|
            #[trigger] first_ckw_at(u.ck_withdraws@, asset_id, heir_id, ci)
                && u.ck_withdraws@[ci].requested_at is Some
                && u.ck_withdraws@[ci].completed_at is None) && (exists|ai: int|
            #[trigger] first_asset_at(u.assets@, asset_id, ai)
                && u.assets@[ai].token_canister is Some),
        r matches Ok(p) ==> exists|si: int, ci: int|
            {
                &&& 0 <= si < u.sessions@.len()
                &&& u.sessions@[si].id == session_id
                &&& now <= u.sessions@[si].expires_at
                &&& u.sessions@[si].heir_id == heir_id
                &&& 0 <= ci < u.ck_withdraws@.len()
                &&& u.ck_withdraws@[ci].asset_id == asset_id
                &&& u.ck_withdraws@[ci].heir_id == heir_id
                &&& u.ck_withdraws@[ci].requested_at is Some
                &&& u.ck_withdraws@[ci].completed_at is None
                &&& p.amount == u.ck_withdraws@[ci].amount
                &&& (p.need_fee_quote <==> u.ck_withdraws@[ci].quoted_fee is None)
            },
{
    let sidx = match find_session(&u.sessions, session_id) {
        Some(i) => i,
        None => {
            return Err(CivError::Other(
                <String as StringExecFns>::from_str("session_not_found"),
            ));
        },
    };
    proof {
        assert(first_session_at(u.sessions@, session_id, sidx as int));
        assert forall|si: int| #[trigger] first_session_at(u.sessions@, session_id, si) implies si
            == sidx as int by {
            if si < sidx as int {
                assert(u.sessions@[si].id == session_id);
            }
            if si > sidx as int {
                assert(u.sessions@[sidx as int].id != session_id);
            }
        }
    }
    if now > u.sessions[sidx].expires_at {
        return Err(CivError::SessionExpired);
    }
    if u.sessions[sidx].heir_id != heir_id {
        return Err(CivError::Unauthorized);
    }
    let ci = match find_ck_withdraw(&u.ck_withdraws, asset_id, heir_id) {
        Some(i) => i,
        None => {
            return Err(CivError::AssetNotFound);
        },
    };
    proof {
        assert(first_ckw_at(u.ck_withdraws@, asset_id, heir_id, ci as int));
        assert forall|cj: int|
            #[trigger] first_ckw_at(u.ck_withdraws@, asset_id, heir_id, cj) implies cj
            == ci as int by {
            if cj < ci as int {
                assert(u.ck_withdraws@[cj].asset_id == asset_id && u.ck_withdraws@[cj].heir_id
                    == heir_id);
            }
            if cj > ci as int {
                assert(!(u.ck_withdraws@[ci as int].asset_id == asset_id
                    && u.ck_withdraws@[ci as int].heir_id == heir_id));
            }
        }
    }
    if u.ck_withdraws[ci].requested_at.is_none() {
        return Err(CivError::EstateNotReady);
    }
    if u.ck_withdraws[ci].completed_at.is_some() {
        return Err(CivError::Other(
            <String as StringExecFns>::from_str("bridge_already_completed"),
        ));
    }
    let aidx = match crate::common::find_asset(&u.assets, asset_id) {
        Some(i) => i,
        None => {
            return Err(CivError::AssetNotFound);
        },
    };
    proof {
        assert(first_asset_at(u.assets@, asset_id, aidx as int));
        assert forall|aj: int| #[trigger] first_asset_at(u.assets@, asset_id, aj) implies aj
            == aidx as int by {
            if aj < aidx as int {
                assert(u.assets@[aj].id == asset_id);
            }
            if aj > aidx as int {
                assert(u.assets@[aidx as int].id != asset_id);
            }
        }
    }
    let canister = match &u.assets[aidx].token_canister {
        Some(c) => c.clone(),
        None => {
            return Err(CivError::AssetNotFound);
        },
    };
    let chain_wrapped = match &u.assets[aidx].chain_wrapped {
        Some(k) => Some(*k),
        None => None,
    };
    Ok(
        SubmitPlan {
            canister,
            amount: u.ck_withdraws[ci].amount,
            need_fee_quote: u.ck_withdraws[ci].quoted_fee.is_none(),
            chain_wrapped,
        },
    )
}

/// Persist a submission's outcome: an optional fresh fee quote, then either
/// the accepted transaction id (status Submitted) or the classified failure
/// (status Failed with the error recorded); a `BridgeTxInfo` with a zeroed
/// miss counter always joins the log, and the submission is audited.
pub fn submit_ck_withdraw_persist(
    u: &mut User,
    asset_id: u64,
    heir_id: u64,
    l1_address: String,
    fee_quote: Option<u128>,
    outcome: Result<Option<String>, CivError>,
    now: u64,
) -> (r: Result<(), CivError>)
    ensures
        !has_ck_withdraw(old(u).ck_withdraws@, asset_id, heir_id) <==> r matches Err(
            CivError::AssetNotFound,
        ),
        r is Ok <==> has_ck_withdraw(old(u).ck_withdraws@, asset_id, heir_id),
        r is Err ==> *final(u) == *old(u),
        r is Ok ==> {
            &&& *final(u) == (User {
                ck_withdraws: final(u).ck_withdraws,
                bridge_txs: final(u).bridge_txs,
                audit_log: final(u).audit_log,
                ..*old(u)
            })
            &&& final(u).bridge_txs@.len() == old(u).bridge_txs@.len() + 1
            &&& final(u).bridge_txs@.drop_last() == old(u).bridge_txs@
            &&& ({
                let info = final(u).bridge_txs@.last();
                &&& info.asset_id == asset_id
                &&& info.heir_id == heir_id
                &&& info.submitted_at == now
                &&& info.consecutive_misses == Some(0u32)
                &&& info.notfound_terminal == Some(false)
                &&& (match outcome {
                    Ok(tx) => info.tx_id == tx,
                    Err(_) => info.tx_id is None,
                })
            })
            &&& exists|ci: int|
                {
                    &&& 0 <= ci < old(u).ck_withdraws@.len()
                    &&& old(u).ck_withdraws@[ci].asset_id == asset_id
                    &&& old(u).ck_withdraws@[ci].heir_id == heir_id
                    &&& final(u).ck_withdraws@.len() == old(u).ck_withdraws@.len()
                    &&& ({
                        let rec2 = final(u).ck_withdraws@[ci];
                        &&& (match outcome {
                            Ok(tx) => rec2.bridge_status == Some(BridgeStatus::Submitted)
                                && rec2.bridge_tx_id == tx,
                            Err(_) => rec2.bridge_status matches Some(
                                BridgeStatus::Failed(_),
                            ),
                        })
                        &&& (fee_quote is Some && old(u).ck_withdraws@[ci].quoted_fee is None
                            ==> rec2.quoted_fee == fee_quote)
                    })
                }
        },
{
    let ci = match find_ck_withdraw(&u.ck_withdraws, asset_id, heir_id) {
        Some(i) => i,
        None => {
            return Err(CivError::AssetNotFound);
        },
    };
    let rec = u.ck_withdraws.remove(ci);
    let (new_quoted, fee_event) = match (fee_quote, rec.quoted_fee) {
        (Some(fv), None) => (Some(fv), true),
        (q, prev) => {
            (
                match prev {
                    Some(p) => Some(p),
                    None => q,
                },
                false,
            )
        },
    };
    let fee_value = match new_quoted {
        Some(v) => v,
        None => 0,
    };
    let mut rec2 = CkWithdrawRecord { quoted_fee: new_quoted, ..rec };
    let mut fail_msg: Option<String> = None;
    let tx_for_info: Option<String>;
    match outcome {
        Ok(tx) => {
            tx_for_info = match &tx {
                Some(t) => Some(t.clone()),
                None => None,
            };
            rec2 = CkWithdrawRecord {
                bridge_status: Some(BridgeStatus::Submitted),
                bridge_tx_id: tx,
                ..rec2
            };
        },
        Err(e) => {
            tx_for_info = None;
            let (msg, info_opt) = match e {
                CivError::Bridge(info) => {
                    let m = info.message.clone();
                    (m, Some(info))
                },
                CivError::Other(sm) => (sm, None),
                _ => (<String as StringExecFns>::from_str("bridge_submit_failed"), None),
            };
            fail_msg = Some(msg.clone());
            rec2 = CkWithdrawRecord {
                bridge_status: Some(BridgeStatus::Failed(msg)),
                bridge_error: info_opt,
                ..rec2
            };
        },
    }
    u.ck_withdraws.insert(ci, rec2);
    if fee_event {
        push_audit(
            u,
            AuditEventKind::CkWithdrawFeeQuoted { asset_id, heir_id, fee: fee_value },
            now,
        );
    }
    u.bridge_txs.push(
        BridgeTxInfo {
            asset_id,
            heir_id,
            l1_address,
            submitted_at: now,
            tx_id: tx_for_info,
            consecutive_misses: Some(0),
            notfound_terminal: Some(false),
        },
    );
    push_audit(u, AuditEventKind::CkWithdrawSubmitted { asset_id, heir_id }, now);
    match fail_msg {
        Some(m) => {
            push_audit(
                u,
                AuditEventKind::CkWithdrawFailed { asset_id, heir_id, error: m },
                now,
            );
        },
        None => {},
    }
    Ok(())
}

/// One poll's observed outcome, as plain values.
pub enum PollOutcome {
    /// The bridge reports completion (a ckBTC confirmation, or a finalized
    /// ckETH transaction with its hash and effective fee).
    Completed { tx_hash: Option<String>, effective_fee: Option<u128> },
    /// The chain reimbursed the withdrawal.
    Reimbursed { tx_hash: String, message: String },
    /// Reimbursement is pending; classified as a timeout.
    PendingReimbursement { tx_hash: String },
    /// Still in flight.
    Pending,
    /// The bridge does not know the transaction.
    NotFound,
}

/// What the caller should do after a poll was applied.
pub struct PollDecision {
    pub enqueue_retry: bool,
}

/// Whether a bridge status is terminal.
pub open spec fn status_terminal(s: Option<BridgeStatus>) -> bool {
    match s {
        Some(BridgeStatus::Completed) => true,
        Some(BridgeStatus::Reimbursed) => true,
        Some(BridgeStatus::Failed(_)) => true,
        _ => false,
    }
}

/// The pair's first submission info is marked not-found-terminal.
pub open spec fn btx_terminal(s: Seq<BridgeTxInfo>, asset_id: u64, heir_id: u64) -> bool {
    exists|ti: int|
        #[trigger] first_btx_at(s, asset_id, heir_id, ti) && s[ti].notfound_terminal == Some(true)
}

/// Apply one poll outcome to the withdrawal and its submission info:
/// completion seals the record once; reimbursement and pending
/// reimbursement close it with their classifications; a NotFound advances
/// the consecutive-miss counter and the fifth miss closes the record as
/// `not_found_terminal` with its audit event emitted exactly then; an
/// already terminal record never moves again. A retry is requested exactly
/// when the record stays live.
pub fn poll_ck_withdraw_apply(
    u: &mut User,
    asset_id: u64,
    heir_id: u64,
    outcome: PollOutcome,
    now: u64,
) -> (d: PollDecision)
    ensures
        *final(u) == (User {
            ck_withdraws: final(u).ck_withdraws,
            bridge_txs: final(u).bridge_txs,
            retry_queue: final(u).retry_queue,
            retry_seq: final(u).retry_seq,
            audit_log: final(u).audit_log,
            ..*old(u)
        }),
        final(u).ck_withdraws@.len() == old(u).ck_withdraws@.len(),
        final(u).bridge_txs@.len() == old(u).bridge_txs@.len(),
        !has_ck_withdraw(old(u).ck_withdraws@, asset_id, heir_id) ==> *final(u) == *old(u)
            && !d.enqueue_retry,
        forall|i: int|
            0 <= i < old(u).ck_withdraws@.len() && !(old(u).ck_withdraws@[i].asset_id == asset_id
                && old(u).ck_withdraws@[i].heir_id == heir_id) ==> final(u).ck_withdraws@[i]
                == old(u).ck_withdraws@[i],
        exists|ci: int|
            {
                &&& 0 <= ci < old(u).ck_withdraws@.len() && old(u).ck_withdraws@[ci].asset_id
                    == asset_id && old(u).ck_withdraws@[ci].heir_id == heir_id
                &&& (forall|j: int|
                    0 <= j < ci ==> !(old(u).ck_withdraws@[j].asset_id == asset_id && old(
                        u,
                    ).ck_withdraws@[j].heir_id == heir_id))
                &&& ({
                    let rec = old(u).ck_withdraws@[ci];
                    let rec2 = final(u).ck_withdraws@[ci];
                    &&& (outcome matches PollOutcome::Completed { .. }
                        && rec.completed_at is None ==> rec2.completed_at == Some(now)
                        && rec2.bridge_status == Some(BridgeStatus::Completed) && final(u).audit_log@
                        == spec_push_audit(
                        old(u).audit_log@,
                        AuditEventKind::CkWithdrawCompleted { asset_id, heir_id },
                        now,
                    ))
                    &&& (outcome matches PollOutcome::Completed { .. }
                        && rec.completed_at is Some ==> rec2.completed_at == rec.completed_at)
                    &&& (rec.completed_at is Some ==> rec2.completed_at == rec.completed_at)
                    &&& (outcome matches PollOutcome::Reimbursed { .. } ==> rec2.bridge_status
                        == Some(BridgeStatus::Reimbursed) && !d.enqueue_retry && final(u).audit_log@
                        == spec_push_audit(
                        old(u).audit_log@,
                        AuditEventKind::CkWithdrawReimbursed { asset_id, heir_id },
                        now,
                    ))
                    &&& (outcome matches PollOutcome::PendingReimbursement { .. }
                        ==> (rec2.bridge_status matches Some(BridgeStatus::Failed(m)) && m@
                        == "pending_reimbursement"@) && !d.enqueue_retry && final(u).audit_log@
                        == old(u).audit_log@)
                    &&& (outcome matches PollOutcome::Pending ==> final(u).bridge_txs@ == old(
                        u,
                    ).bridge_txs@ && (rec.completed_at is None && !status_terminal(
                        rec.bridge_status,
                    ) ==> rec2 == (CkWithdrawRecord {
                        bridge_status: Some(BridgeStatus::InProgress),
                        ..rec
                    })) && (!(rec.completed_at is None && !status_terminal(rec.bridge_status))
                        ==> rec2 == rec))
                })
            } || !has_ck_withdraw(old(u).ck_withdraws@, asset_id, heir_id),
        !has_bridge_tx(old(u).bridge_txs@, asset_id, heir_id) ==> final(u).bridge_txs@ == old(
            u,
        ).bridge_txs@,
        (outcome matches PollOutcome::NotFound) && !has_bridge_tx(
            old(u).bridge_txs@,
            asset_id,
            heir_id,
        ) ==> final(u).ck_withdraws@ == old(u).ck_withdraws@ && (final(u).audit_log@ == old(
            u,
        ).audit_log@ || exists|k: AuditEventKind|
            final(u).audit_log@ == #[trigger] spec_push_audit(old(u).audit_log@, k, now) && (
            k matches AuditEventKind::RetryAttempt { .. })),
        forall|ti: int|
            (outcome matches PollOutcome::NotFound) && has_ck_withdraw(
                old(u).ck_withdraws@,
                asset_id,
                heir_id,
            ) && #[trigger] first_btx_at(old(u).bridge_txs@, asset_id, heir_id, ti) ==> ({
                let info = old(u).bridge_txs@[ti];
                let miss = sat_inc_miss(info.consecutive_misses);
                let was_terminal = info.notfound_terminal == Some(true);
                &&& (miss >= BRIDGE_NOTFOUND_TERMINAL && !was_terminal ==> final(u).bridge_txs@
                    == old(u).bridge_txs@.update(
                    ti,
                    BridgeTxInfo {
                        consecutive_misses: Some(miss),
                        notfound_terminal: Some(true),
                        ..info
                    },
                ) && final(u).audit_log@ == spec_push_audit(
                    old(u).audit_log@,
                    AuditEventKind::BridgePollNotFoundTerminal { asset_id, heir_id },
                    now,
                ) && !d.enqueue_retry)
                &&& (!(miss >= BRIDGE_NOTFOUND_TERMINAL && !was_terminal) ==> final(u).bridge_txs@
                    == old(u).bridge_txs@.update(
                    ti,
                    BridgeTxInfo { consecutive_misses: Some(miss), ..info },
                ))
                &&& (!(miss >= BRIDGE_NOTFOUND_TERMINAL && !was_terminal) ==> (final(u).audit_log@
                    == old(u).audit_log@ || exists|k: AuditEventKind|
                    final(u).audit_log@ == #[trigger] spec_push_audit(old(u).audit_log@, k, now)
                        && (k matches AuditEventKind::RetryAttempt { .. })))
                &&& (was_terminal ==> final(u).ck_withdraws@ == old(u).ck_withdraws@
                    && final(u).audit_log@ == old(u).audit_log@ && !d.enqueue_retry)
            }),
        forall|ci: int, ti: int|
            #![trigger first_ckw_at(old(u).ck_withdraws@, asset_id, heir_id, ci), first_btx_at(old(u).bridge_txs@, asset_id, heir_id, ti)]
            (outcome matches PollOutcome::NotFound) && first_ckw_at(
                old(u).ck_withdraws@,
                asset_id,
                heir_id,
                ci,
            ) && first_btx_at(old(u).bridge_txs@, asset_id, heir_id, ti) ==> ({
                let rec = old(u).ck_withdraws@[ci];
                let rec2 = final(u).ck_withdraws@[ci];
                let info = old(u).bridge_txs@[ti];
                let miss = sat_inc_miss(info.consecutive_misses);
                let was_terminal = info.notfound_terminal == Some(true);
                &&& (miss >= BRIDGE_NOTFOUND_TERMINAL && !was_terminal ==> rec2 == (
                CkWithdrawRecord { bridge_status: rec2.bridge_status, ..rec })
                    && (rec2.bridge_status matches Some(BridgeStatus::Failed(m)) && m@
                    == "not_found_terminal"@))
                &&& (!(miss >= BRIDGE_NOTFOUND_TERMINAL && !was_terminal) ==> rec2 == rec)
            }),
        d.enqueue_retry <==> (exists|ci: int|
            #[trigger] first_ckw_at(old(u).ck_withdraws@, asset_id, heir_id, ci)
                && !status_terminal(final(u).ck_withdraws@[ci].bridge_status))
            && !(outcome matches PollOutcome::Completed {
            ..
        }) && !btx_terminal(final(u).bridge_txs@, asset_id, heir_id),
        d.enqueue_retry ==> (final(u).retry_queue matches Some(q) && q@.len() == (match old(
            u,
        ).retry_queue {
            Some(v) => v@.len(),
            None => 0,
        }) + 1 && q@.drop_last() == (match old(u).retry_queue {
            Some(v) => v@,
            None => Seq::<RetryItem>::empty(),
        }) && q@.last().kind == (RetryKind::BridgePoll { asset_id, heir_id })
            && q@.last().attempts == 0 && !q@.last().terminal),
        !d.enqueue_retry ==> final(u).retry_queue == old(u).retry_queue && final(u).retry_seq
            == old(u).retry_seq,
{
    let ci = match find_ck_withdraw(&u.ck_withdraws, asset_id, heir_id) {
        Some(i) => i,
        None => {
            return PollDecision { enqueue_retry: false };
        },
    };
    proof {
        assert(first_ckw_at(u.ck_withdraws@, asset_id, heir_id, ci as int));
        assert forall|cj: int|
            #[trigger] first_ckw_at(old(u).ck_withdraws@, asset_id, heir_id, cj) implies cj
            == ci as int by {
            if cj < ci as int {
                assert(u.ck_withdraws@[cj].asset_id == asset_id && u.ck_withdraws@[cj].heir_id
                    == heir_id);
            }
            if cj > ci as int {
                assert(!(u.ck_withdraws@[ci as int].asset_id == asset_id
                    && u.ck_withdraws@[ci as int].heir_id == heir_id));
            }
        }
    }
    let mut completed = false;
    let mut not_found = false;
    let mut reimbursed = false;
    let rec = u.ck_withdraws.remove(ci);
    let rec2 = match outcome {
        PollOutcome::Completed { tx_hash, effective_fee } => {
            completed = true;
            let new_hash = match tx_hash {
                Some(h) => Some(h),
                None => rec.tx_hash,
            };
            let new_fee = match effective_fee {
                Some(f) => Some(f),
                None => rec.effective_fee,
            };
            if rec.completed_at.is_none() {
                CkWithdrawRecord {
                    tx_hash: new_hash,
                    effective_fee: new_fee,
                    completed_at: Some(now),
                    bridge_status: Some(BridgeStatus::Completed),
                    ..rec
                }
            } else {
                CkWithdrawRecord { tx_hash: new_hash, effective_fee: new_fee, ..rec }
            }
        },
        PollOutcome::Reimbursed { tx_hash, message } => {
            reimbursed = true;
            CkWithdrawRecord {
                tx_hash: Some(tx_hash),
                bridge_status: Some(BridgeStatus::Reimbursed),
                bridge_error: Some(
                    BridgeErrorInfo { kind: BridgeErrorKind::Reimbursed, message },
                ),
                ..rec
            }
        },
        PollOutcome::PendingReimbursement { tx_hash } => {
            let msg = <String as StringExecFns>::from_str("pending_reimbursement");
            CkWithdrawRecord {
                tx_hash: Some(tx_hash),
                bridge_status: Some(BridgeStatus::Failed(msg)),
                bridge_error: Some(
                    BridgeErrorInfo {
                        kind: BridgeErrorKind::Timeout,
                        message: <String as StringExecFns>::from_str("pending_reimbursement"),
                    },
                ),
                ..rec
            }
        },
        PollOutcome::Pending => {
            if rec.completed_at.is_none() && !(match &rec.bridge_status {
                Some(BridgeStatus::Failed(_)) => true,
                Some(BridgeStatus::Reimbursed) => true,
                Some(BridgeStatus::Completed) => true,
                _ => false,
            }) {
                CkWithdrawRecord { bridge_status: Some(BridgeStatus::InProgress), ..rec }
            } else {
                rec
            }
        },
        PollOutcome::NotFound => {
            not_found = true;
            rec
        },
    };
    let became_completed = completed && rec2.completed_at == Some(now);
    let mut terminal_event = false;
    let mut rec3 = rec2;
    let ghost btx0 = u.bridge_txs@;
    match find_bridge_tx(&u.bridge_txs, asset_id, heir_id) {
        Some(ti) => {
            proof {
                assert(first_btx_at(btx0, asset_id, heir_id, ti as int));
                assert forall|tj: int|
                    #[trigger] first_btx_at(btx0, asset_id, heir_id, tj) implies tj
                    == ti as int by {
                    if tj < ti as int {
                        assert(btx0[tj].asset_id == asset_id && btx0[tj].heir_id == heir_id);
                    }
                    if tj > ti as int {
                        assert(!(btx0[ti as int].asset_id == asset_id && btx0[ti as int].heir_id
                            == heir_id));
                    }
                }
            }
            let info = u.bridge_txs.remove(ti);
            let info2 = if not_found && !completed {
                let miss = match info.consecutive_misses {
                    Some(m) => {
                        if m == u32::MAX {
                            u32::MAX
                        } else {
                            m + 1
                        }
                    },
                    None => 1,
                };
                let was_terminal = info.notfound_terminal == Some(true);
                if miss >= BRIDGE_NOTFOUND_TERMINAL && !was_terminal {
                    terminal_event = true;
                    rec3 = CkWithdrawRecord {
                        bridge_status: Some(
                            BridgeStatus::Failed(
                                <String as StringExecFns>::from_str("not_found_terminal"),
                            ),
                        ),
                        ..rec3
                    };
                    BridgeTxInfo {
                        consecutive_misses: Some(miss),
                        notfound_terminal: Some(true),
                        ..info
                    }
                } else {
                    BridgeTxInfo { consecutive_misses: Some(miss), ..info }
                }
            } else if completed {
                BridgeTxInfo { consecutive_misses: Some(0), ..info }
            } else {
                info
            };
            u.bridge_txs.insert(ti, info2);
            proof {
                assert(u.bridge_txs@ =~= btx0.update(ti as int, u.bridge_txs@[ti as int]));
                if u.bridge_txs@[ti as int] == btx0[ti as int] {
                    assert(u.bridge_txs@ =~= btx0);
                }
            }
        },
        None => {},
    }
    let now_terminal = match &rec3.bridge_status {
        Some(BridgeStatus::Failed(_)) => true,
        Some(BridgeStatus::Reimbursed) => true,
        Some(BridgeStatus::Completed) => true,
        _ => false,
    };
    let is_terminal_notfound = match find_bridge_tx(&u.bridge_txs, asset_id, heir_id) {
        Some(ti2) => {
            proof {
                assert(first_btx_at(u.bridge_txs@, asset_id, heir_id, ti2 as int));
                assert forall|tj: int|
                    #[trigger] first_btx_at(u.bridge_txs@, asset_id, heir_id, tj) implies tj
                    == ti2 as int by {
                    if tj < ti2 as int {
                        assert(u.bridge_txs@[tj].asset_id == asset_id && u.bridge_txs@[tj].heir_id
                            == heir_id);
                    }
                    if tj > ti2 as int {
                        assert(!(u.bridge_txs@[ti2 as int].asset_id == asset_id
                            && u.bridge_txs@[ti2 as int].heir_id == heir_id));
                    }
                }
            }
            u.bridge_txs[ti2].notfound_terminal == Some(true)
        },
        None => false,
    };
    proof {
        assert(is_terminal_notfound == btx_terminal(u.bridge_txs@, asset_id, heir_id));
    }
    u.ck_withdraws.insert(ci, rec3);
    proof {
        assert(u.ck_withdraws@ =~= old(u).ck_withdraws@.update(
            ci as int,
            u.ck_withdraws@[ci as int],
        ));
        if u.ck_withdraws@[ci as int] == old(u).ck_withdraws@[ci as int] {
            assert(u.ck_withdraws@ =~= old(u).ck_withdraws@);
        }
    }
    if became_completed {
        push_audit(u, AuditEventKind::CkWithdrawCompleted { asset_id, heir_id }, now);
    }
    if terminal_event {
        push_audit(u, AuditEventKind::BridgePollNotFoundTerminal { asset_id, heir_id }, now);
    }
    if reimbursed {
        push_audit(u, AuditEventKind::CkWithdrawReimbursed { asset_id, heir_id }, now);
    }
    let enqueue = !completed && !now_terminal && !is_terminal_notfound;
    if enqueue {
        crate::retry::enqueue_retry(
            u,
            crate::retry::RetryKind::BridgePoll { asset_id, heir_id },
            5,
            now,
        );
    }
    PollDecision { enqueue_retry: enqueue }
}


/// The classification of a ckETH `TemporarilyUnavailable` message: rate
/// limiting and chain-authorization phrases get their own kinds, anything
/// else counts as a timeout.
pub open spec fn spec_classify_eth_temp_unavail(s: Seq<char>) -> BridgeErrorKind {
    let lower = crate::strutil::lower_of(s);
    if crate::strutil::spec_contains(lower, "rate limit"@) || crate::strutil::spec_contains(
        lower,
        "rate_limit"@,
    ) {
        BridgeErrorKind::RateLimited
    } else if crate::strutil::spec_contains(lower, "unauthorized"@) || crate::strutil::spec_contains(
        lower,
        "wrong chain"@,
    ) || crate::strutil::spec_contains(lower, "chain id"@) {
        BridgeErrorKind::UnauthorizedChain
    } else {
        BridgeErrorKind::Timeout
    }
}

/// Classify a ckETH temporarily-unavailable message, case-insensitively.
pub fn classify_eth_temp_unavail(s: &str) -> (r: BridgeErrorKind)
    ensures
        r == spec_classify_eth_temp_unavail(s@),
{
    let lower = crate::strutil::to_ascii_lower(s);
    if crate::strutil::str_contains(lower.as_str(), "rate limit") || crate::strutil::str_contains(
        lower.as_str(),
        "rate_limit",
    ) {
        BridgeErrorKind::RateLimited
    } else if crate::strutil::str_contains(lower.as_str(), "unauthorized")
        || crate::strutil::str_contains(lower.as_str(), "wrong chain")
        || crate::strutil::str_contains(lower.as_str(), "chain id") {
        BridgeErrorKind::UnauthorizedChain
    } else {
        BridgeErrorKind::Timeout
    }
}

} // verus!
