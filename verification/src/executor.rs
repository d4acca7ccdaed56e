//! Estate lifecycle and the execution engine's serialized protocol: phase
//! transitions, the work-item snapshot with its preflight gates, execution
//! finalization, and the Merkle attestation over the transfer ledger.

use vstd::prelude::*;
use vstd::string::StringExecFns;

use crate::assets::{infer_asset_kind, spec_infer_asset_kind};
use crate::audit::{push_audit, spec_push_audit};
use crate::common::{
    find_approval, find_asset, find_escrow, find_payout_override, has_approval, has_asset,
    next_transfer_id_of, phase_le, spec_next_transfer_id_of,
};
use crate::distributions::{estate_readiness, spec_estate_ready, sum_pct};
use crate::model::asset::Asset;
use crate::model::audit::AuditEventKind;
use crate::model::base::{AssetKind, HoldingMode, PayoutPreference};
use crate::model::distribution::{DistributionShare, HeirPayoutOverride};
use crate::model::errors::CivError;
use crate::model::payout::{TransferErrorKind, TransferKind, TransferRecord};
use crate::model::user::{
    EstatePhase, EstateStatus, ExecutionSummary, User, INACTIVITY_PERIOD_SECS,
    WARNING_WINDOW_SECS,
};
use crate::strutil::{dec_of, push_dec_u128, str_eq};

verus! {

/// Phase and timing of the estate, as the owner sees it.
pub fn estate_status(u: &User, now: u64) -> (r: EstateStatus)
    ensures
        r.phase == u.phase,
        u.timer_expiry == 0 ==> r.seconds_to_expiry == -1,
        u.timer_expiry != 0 ==> r.seconds_to_expiry == (if u.timer_expiry >= now {
            (u.timer_expiry - now) as u64
        } else {
            0u64
        }) as i64,
        r.warning_started_at == u.warning_started_at,
        r.locked_at == u.locked_at,
        r.executed_at == u.executed_at,
{
    let remaining: i64 = if u.timer_expiry == 0 {
        -1
    } else {
        (if u.timer_expiry >= now {
            u.timer_expiry - now
        } else {
            0
        }) as i64
    };
    EstateStatus {
        phase: u.phase,
        seconds_to_expiry: remaining,
        warning_started_at: u.warning_started_at,
        locked_at: u.locked_at,
        executed_at: u.executed_at,
    }
}

/// Owner-requested move from Draft to Warning.
pub fn start_warning(u: &mut User, now: u64) -> (r: Result<(), CivError>)
    ensures
        r is Ok <==> old(u).phase == EstatePhase::Draft,
        r is Err ==> *final(u) == *old(u) && (r matches Err(CivError::Other(m)) && m@
            == "cannot_start_warning"@),
        r is Ok ==> {
            &&& *final(u) == (User {
                phase: final(u).phase,
                warning_started_at: final(u).warning_started_at,
                audit_log: final(u).audit_log,
                ..*old(u)
            })
            &&& final(u).phase == EstatePhase::Warning
            &&& final(u).warning_started_at == Some(now)
            &&& final(u).audit_log@ == spec_push_audit(
                old(u).audit_log@,
                AuditEventKind::PhaseChanged { from: EstatePhase::Draft, to: EstatePhase::Warning },
                now,
            )
        },
        phase_le(old(u).phase, final(u).phase),
{
    if u.phase == EstatePhase::Draft {
        u.phase = EstatePhase::Warning;
        u.warning_started_at = Some(now);
        push_audit(
            u,
            AuditEventKind::PhaseChanged { from: EstatePhase::Draft, to: EstatePhase::Warning },
            now,
        );
        Ok(())
    } else {
        Err(CivError::Other(<String as StringExecFns>::from_str("cannot_start_warning")))
    }
}

/// Owner-requested lock. Requires the estate mutable, the escrow preflight
/// clear, and readiness to hold; once locked, no mutation path accepts
/// changes.
pub fn lock_estate(u: &mut User, now: u64) -> (r: Result<(), CivError>)
    ensures
        (old(u).phase == EstatePhase::Locked || old(u).phase == EstatePhase::Executed) <==> (
        r matches Err(CivError::EstateLocked)),
        r matches Err(CivError::EstateLocked) ==> *final(u) == *old(u),
        r matches Err(CivError::Other(_)) <==> !(old(u).phase == EstatePhase::Locked || old(
            u,
        ).phase == EstatePhase::Executed) && (exists|i: int| escrow_gate_at(*old(u), i)),
        r matches Err(CivError::Other(m)) ==> *final(u) == *old(u) && exists|i: int|
            {
                &&& #[trigger] escrow_gate_at(*old(u), i)
                &&& (forall|j: int| 0 <= j < i ==> !escrow_gate_at(*old(u), j))
                &&& m@ == escrow_insufficient_msg(
                    old(u).assets@[i].id,
                    escrow_remaining(*old(u), old(u).assets@[i].id),
                    required_payout(
                        old(u).distributions_v2@,
                        old(u).assets@[i].id,
                        old(u).assets@[i].value,
                    ) as int,
                )
            },
        r matches Err(CivError::EstateNotReady) ==> (match old(u).readiness_cache {
            Some(c) => (now >= c.computed_at && now - c.computed_at
                <= crate::distributions::READINESS_FRESH_SECS) ==> !c.ready,
            None => true,
        }) && (!(match old(u).readiness_cache {
            Some(c) => now >= c.computed_at && now - c.computed_at
                <= crate::distributions::READINESS_FRESH_SECS,
            None => false,
        }) ==> !spec_estate_ready(*old(u))),
        r is Ok <==> !(old(u).phase == EstatePhase::Locked || old(u).phase
            == EstatePhase::Executed) && (forall|i: int| !escrow_gate_at(*old(u), i)) && (
        match old(u).readiness_cache {
            Some(c) => if now >= c.computed_at && now - c.computed_at
                <= crate::distributions::READINESS_FRESH_SECS {
                c.ready
            } else {
                spec_estate_ready(*old(u))
            },
            None => spec_estate_ready(*old(u)),
        }),
        r is Ok ==> {
            &&& final(u).phase == EstatePhase::Locked
            &&& final(u).locked_at == Some(now)
            &&& *final(u) == (User {
                phase: final(u).phase,
                locked_at: final(u).locked_at,
                readiness_cache: final(u).readiness_cache,
                audit_log: final(u).audit_log,
                ..*old(u)
            })
        },
        r is Ok ==> (match old(u).readiness_cache {
            Some(c) => now >= c.computed_at && now - c.computed_at
                <= crate::distributions::READINESS_FRESH_SECS && c.ready,
            None => false,
        }) || spec_estate_ready(*old(u)),
        r matches Err(CivError::EstateNotReady) ==> *final(u) == (User {
            readiness_cache: final(u).readiness_cache,
            ..*old(u)
        }),
        phase_le(old(u).phase, final(u).phase),
{
    if u.phase == EstatePhase::Locked || u.phase == EstatePhase::Executed {
        return Err(CivError::EstateLocked);
    }
    match find_escrow_violation(u) {
        Some((i, rem, req)) => {
            let aid = u.assets[i].id;
            let mut msg = <String as StringExecFns>::from_str("escrow_insufficient_required:");
            push_dec_u128(&mut msg, aid as u128);
            StringExecFns::append(&mut msg, ":");
            push_dec_u128(&mut msg, rem);
            StringExecFns::append(&mut msg, ":");
            push_dec_u128(&mut msg, req);
            return Err(CivError::Other(msg));
        },
        None => {},
    }
    let report = estate_readiness(u, now);
    if !report.ready {
        return Err(CivError::EstateNotReady);
    }
    let from = u.phase;
    u.phase = EstatePhase::Locked;
    u.locked_at = Some(now);
    push_audit(u, AuditEventKind::PhaseChanged { from, to: EstatePhase::Locked }, now);
    Ok(())
}

/// Restart the inactivity timer and clear the distributed flag.
pub fn reset_timer(u: &mut User, now: u64)
    requires
        now + INACTIVITY_PERIOD_SECS <= u64::MAX,
    ensures
        *final(u) == (User {
            timer_expiry: final(u).timer_expiry,
            distributed: false,
            last_timer_reset: now,
            ..*old(u)
        }),
        final(u).timer_expiry == now + INACTIVITY_PERIOD_SECS,
{
    u.timer_expiry = now + INACTIVITY_PERIOD_SECS;
    u.distributed = false;
    u.last_timer_reset = now;
}

/// The phase the inactivity timer drives a user to at `now`.
pub open spec fn spec_advanced_phase(u: User, now: u64) -> EstatePhase {
    match u.phase {
        EstatePhase::Draft => {
            if u.timer_expiry > 0 && (if u.timer_expiry >= now {
                u.timer_expiry - now
            } else {
                0
            }) <= WARNING_WINDOW_SECS {
                EstatePhase::Warning
            } else {
                EstatePhase::Draft
            }
        },
        EstatePhase::Warning => {
            if u.timer_expiry > 0 && now >= u.timer_expiry {
                EstatePhase::Locked
            } else {
                EstatePhase::Warning
            }
        },
        _ => u.phase,
    }
}

/// Advance the phase as the inactivity timer dictates; the movement is
/// always forward.
pub fn maybe_advance_phase(u: &mut User, now: u64)
    ensures
        *final(u) == (User {
            phase: final(u).phase,
            warning_started_at: final(u).warning_started_at,
            locked_at: final(u).locked_at,
            audit_log: final(u).audit_log,
            ..*old(u)
        }),
        final(u).phase == spec_advanced_phase(*old(u), now),
        final(u).phase != old(u).phase ==> final(u).audit_log@ == spec_push_audit(
            old(u).audit_log@,
            AuditEventKind::PhaseChanged { from: old(u).phase, to: final(u).phase },
            now,
        ),
        final(u).phase == old(u).phase ==> *final(u) == *old(u),
        (final(u).phase == EstatePhase::Warning && old(u).phase == EstatePhase::Draft
            ==> final(u).warning_started_at == Some(now)),
        (final(u).phase == EstatePhase::Locked && old(u).phase == EstatePhase::Warning
            ==> final(u).locked_at == Some(now)),
        phase_le(old(u).phase, final(u).phase),
{
    match u.phase {
        EstatePhase::Draft => {
            let remaining = if u.timer_expiry >= now {
                u.timer_expiry - now
            } else {
                0
            };
            if u.timer_expiry > 0 && remaining <= WARNING_WINDOW_SECS {
                u.phase = EstatePhase::Warning;
                u.warning_started_at = Some(now);
                push_audit(
                    u,
                    AuditEventKind::PhaseChanged {
                        from: EstatePhase::Draft,
                        to: EstatePhase::Warning,
                    },
                    now,
                );
            }
        },
        EstatePhase::Warning => {
            if u.timer_expiry > 0 && now >= u.timer_expiry {
                u.phase = EstatePhase::Locked;
                u.locked_at = Some(now);
                push_audit(
                    u,
                    AuditEventKind::PhaseChanged {
                        from: EstatePhase::Warning,
                        to: EstatePhase::Locked,
                    },
                    now,
                );
            }
        },
        _ => {},
    }
}

/// One unit of execution work: an (asset, heir) share with its token
/// metadata and effective payout preference.
#[derive(Debug)]
pub struct WorkItem {
    pub asset_id: u64,
    pub token_canister: Option<String>,
    pub token_id: Option<u64>,
    pub holding_mode: Option<HoldingMode>,
    pub heir_id: u64,
    pub payout_pref: PayoutPreference,
}

/// `value * pct / 100` in the wide type.
pub open spec fn share_amount(value: u64, pct: u8) -> int {
    value * pct / 100
}

/// Total payout one asset's shares require, in smallest units, saturating
/// at the wide type's end.
pub open spec fn required_payout(dv2: Seq<DistributionShare>, asset_id: u64, value: u64) -> u128
    decreases dv2.len(),
{
    if dv2.len() == 0 {
        0u128
    } else {
        let rest = required_payout(dv2.drop_last(), asset_id, value);
        let term = if dv2.last().asset_id == asset_id {
            share_amount(value, dv2.last().percentage)
        } else {
            0
        };
        if rest + term > u128::MAX {
            u128::MAX
        } else {
            (rest + term) as u128
        }
    }
}

fn required_payout_exec(dv2: &Vec<DistributionShare>, asset_id: u64, value: u64) -> (r: u128)
    ensures
        r == required_payout(dv2@, asset_id, value),
{
    let mut total: u128 = 0;
    let mut i: usize = 0;
    while i < dv2.len()
        invariant
            i <= dv2@.len(),
            total == required_payout(dv2@.subrange(0, i as int), asset_id, value),
        decreases dv2@.len() - i,
    {
        proof {
            assert(dv2@.subrange(0, i + 1).drop_last() =~= dv2@.subrange(0, i as int));
            assert(dv2@.subrange(0, i + 1).last() == dv2@[i as int]);
        }
        if dv2[i].asset_id == asset_id {
            proof {
                assert((value as int) * (dv2@[i as int].percentage as int) <= (u64::MAX as int)
                    * 255) by (nonlinear_arith)
                    requires
                        value <= u64::MAX && dv2@[i as int].percentage <= 255,
                ;
            }
            let amt = (value as u128) * (dv2[i].percentage as u128) / 100;
            total = if total > u128::MAX - amt {
                u128::MAX
            } else {
                total + amt
            };
        }
        i = i + 1;
    }
    proof {
        assert(dv2@.subrange(0, dv2@.len() as int) =~= dv2@);
    }
    total
}

/// The escrow-insufficiency refusal message:
/// `escrow_insufficient_required:<asset>:<remaining>:<required>`.
pub open spec fn escrow_insufficient_msg(asset_id: u64, rem: int, req: int) -> Seq<char> {
    "escrow_insufficient_required:"@ + dec_of(asset_id as int) + ":"@ + dec_of(rem) + ":"@
        + dec_of(req)
}

/// The missing-approval refusal message: `approval_missing_asset:<asset>`.
pub open spec fn approval_missing_msg(asset_id: u64) -> Seq<char> {
    "approval_missing_asset:"@ + dec_of(asset_id as int)
}

/// Logical escrow remaining for an asset; zero when absent.
pub open spec fn escrow_remaining(u: User, asset_id: u64) -> int {
    if exists|i: int| 0 <= i < u.escrow@.len() && u.escrow@[i].asset_id == asset_id {
        let i = choose|i: int|
            0 <= i < u.escrow@.len() && u.escrow@[i].asset_id == asset_id && (forall|j: int|
                0 <= j < i ==> u.escrow@[j].asset_id != asset_id);
        match u.escrow@[i].amount {
            Some(a) => a as int,
            None => 0,
        }
    } else {
        0
    }
}

/// An asset's first record index, when present.
pub open spec fn first_asset(assets: Seq<Asset>, id: u64, i: int) -> bool {
    &&& 0 <= i < assets.len()
    &&& assets[i].id == id
    &&& forall|j: int| 0 <= j < i ==> assets[j].id != id
}

/// The payout preference a share settles to: the heir's first recorded
/// override when one exists, the share's own otherwise.
pub open spec fn effective_pref(overrides: Seq<HeirPayoutOverride>, s: DistributionShare) -> PayoutPreference
    decreases overrides.len(),
{
    if overrides.len() == 0 {
        s.payout_preference
    } else if overrides[0].asset_id == s.asset_id && overrides[0].heir_id == s.heir_id {
        overrides[0].payout_preference
    } else {
        effective_pref(overrides.skip(1), s)
    }
}

pub proof fn lemma_effective_pref_hit(
    overrides: Seq<HeirPayoutOverride>,
    s: DistributionShare,
    oi: int,
)
    requires
        0 <= oi < overrides.len(),
        overrides[oi].asset_id == s.asset_id && overrides[oi].heir_id == s.heir_id,
        forall|j: int|
            0 <= j < oi ==> !(overrides[j].asset_id == s.asset_id && overrides[j].heir_id
                == s.heir_id),
    ensures
        effective_pref(overrides, s) == overrides[oi].payout_preference,
    decreases overrides.len(),
{
    if oi > 0 {
        lemma_effective_pref_hit(overrides.skip(1), s, oi - 1);
    }
}

pub proof fn lemma_effective_pref_miss(overrides: Seq<HeirPayoutOverride>, s: DistributionShare)
    requires
        forall|j: int|
            0 <= j < overrides.len() ==> !(overrides[j].asset_id == s.asset_id
                && overrides[j].heir_id == s.heir_id),
    ensures
        effective_pref(overrides, s) == s.payout_preference,
    decreases overrides.len(),
{
    if overrides.len() > 0 {
        lemma_effective_pref_miss(overrides.skip(1), s);
    }
}

pub proof fn lemma_first_asset_unique(assets: Seq<Asset>, id: u64, i: int, j: int)
    requires
        first_asset(assets, id, i),
        first_asset(assets, id, j),
    ensures
        i == j,
{
    if i < j {
        assert(assets[i].id == id);
    } else if j < i {
        assert(assets[j].id == id);
    }
}

/// Index of an asset's first record, `-1` when absent.
pub open spec fn first_asset_idx(assets: Seq<Asset>, id: u64) -> int
    decreases assets.len(),
{
    if assets.len() == 0 {
        -1
    } else if assets[0].id == id {
        0
    } else {
        let rest = first_asset_idx(assets.skip(1), id);
        if rest < 0 {
            -1
        } else {
            rest + 1
        }
    }
}

pub proof fn lemma_first_asset_idx(assets: Seq<Asset>, id: u64)
    ensures
        first_asset_idx(assets, id) < 0 ==> forall|j: int|
            0 <= j < assets.len() ==> assets[j].id != id,
        first_asset_idx(assets, id) >= 0 ==> first_asset(assets, id, first_asset_idx(assets, id)),
    decreases assets.len(),
{
    if assets.len() > 0 && assets[0].id != id {
        lemma_first_asset_idx(assets.skip(1), id);
        let rest = first_asset_idx(assets.skip(1), id);
        if rest >= 0 {
            assert(assets.skip(1)[rest] == assets[rest + 1]);
            assert forall|j: int| 0 <= j < rest + 1 implies assets[j].id != id by {
                if j > 0 {
                    assert(assets.skip(1)[j - 1] == assets[j]);
                }
            }
        } else {
            assert forall|j: int| 0 <= j < assets.len() implies assets[j].id != id by {
                if j > 0 {
                    assert(assets.skip(1)[j - 1] == assets[j]);
                }
            }
        }
    }
}

/// The work items of the first `j` shares, in share order: one per share
/// whose asset exists, with the asset's token metadata and the effective
/// preference.
pub open spec fn work_items_prefix(u: User, j: int) -> Seq<WorkItem>
    decreases j,
{
    if j <= 0 {
        Seq::empty()
    } else {
        let s = u.distributions_v2@[j - 1];
        let ai = first_asset_idx(u.assets@, s.asset_id);
        work_items_prefix(u, j - 1) + if ai >= 0 {
            seq![
                WorkItem {
                    asset_id: u.assets@[ai].id,
                    token_canister: u.assets@[ai].token_canister,
                    token_id: u.assets@[ai].token_id,
                    holding_mode: u.assets@[ai].holding_mode,
                    heir_id: s.heir_id,
                    payout_pref: effective_pref(u.payout_overrides@, s),
                },
            ]
        } else {
            Seq::empty()
        }
    }
}

/// Some fungible or chain-wrapped asset still has unknown decimals.
pub open spec fn decimals_gate(u: User) -> bool {
    exists|i: int|
        0 <= i < u.assets@.len() && (spec_infer_asset_kind(#[trigger] u.assets@[i].asset_type@)
            == AssetKind::Fungible || spec_infer_asset_kind(u.assets@[i].asset_type@)
            == AssetKind::ChainWrapped) && u.assets@[i].decimals == 0
}

/// The escrow preflight fails at asset index `i`.
pub open spec fn escrow_gate_at(u: User, i: int) -> bool {
    &&& 0 <= i < u.assets@.len()
    &&& u.assets@[i].holding_mode == Some(HoldingMode::Escrow)
    &&& escrow_remaining(u, u.assets@[i].id) < required_payout(
        u.distributions_v2@,
        u.assets@[i].id,
        u.assets@[i].value,
    )
}

/// The approval-presence preflight fails at share index `k`.
pub open spec fn approval_gate_at(u: User, k: int) -> bool {
    &&& 0 <= k < u.distributions_v2@.len()
    &&& exists|i: int|
        first_asset(u.assets@, u.distributions_v2@[k].asset_id, i) && u.assets@[i].holding_mode
            != Some(HoldingMode::Escrow)
    &&& !has_approval(u.approvals@, u.distributions_v2@[k].asset_id)
}

/// The local allowance projection fails at asset index `i`.
pub open spec fn allowance_gate_at(u: User, i: int) -> bool {
    &&& 0 <= i < u.assets@.len()
    &&& (spec_infer_asset_kind(u.assets@[i].asset_type@) == AssetKind::Fungible
        || spec_infer_asset_kind(u.assets@[i].asset_type@) == AssetKind::ChainWrapped)
    &&& u.assets@[i].holding_mode != Some(HoldingMode::Escrow)
    &&& exists|ai: int|
        {
            &&& 0 <= ai < u.approvals@.len()
            &&& u.approvals@[ai].asset_id == u.assets@[i].id
            &&& (forall|aj: int|
                0 <= aj < ai ==> u.approvals@[aj].asset_id != u.assets@[i].id)
            &&& (match u.approvals@[ai].allowance {
                Some(a) => (a as int) < required_payout(
                    u.distributions_v2@,
                    u.assets@[i].id,
                    u.assets@[i].value,
                ),
                None => false,
            })
        }
}

fn check_decimals_gate(u: &User) -> (r: bool)
    ensures
        r == decimals_gate(*u),
{
    let mut i: usize = 0;
    while i < u.assets.len()
        invariant
            i <= u.assets@.len(),
            forall|k: int|
                0 <= k < i ==> !((spec_infer_asset_kind(#[trigger] u.assets@[k].asset_type@)
                    == AssetKind::Fungible || spec_infer_asset_kind(u.assets@[k].asset_type@)
                    == AssetKind::ChainWrapped) && u.assets@[k].decimals == 0),
        decreases u.assets@.len() - i,
    {
        let kind = infer_asset_kind(u.assets[i].asset_type.as_str());
        let token_like = match kind {
            AssetKind::Fungible => true,
            AssetKind::ChainWrapped => true,
            _ => false,
        };
        if token_like && u.assets[i].decimals == 0 {
            return true;
        }
        i = i + 1;
    }
    false
}

fn find_escrow_violation(u: &User) -> (r: Option<(usize, u128, u128)>)
    ensures
        match r {
            Some((i, rem, req)) => {
                &&& escrow_gate_at(*u, i as int)
                &&& (forall|j: int| 0 <= j < i ==> !escrow_gate_at(*u, j))
                &&& rem as int == escrow_remaining(*u, u.assets@[i as int].id)
                &&& req == required_payout(
                    u.distributions_v2@,
                    u.assets@[i as int].id,
                    u.assets@[i as int].value,
                )
            },
            None => forall|i: int| !escrow_gate_at(*u, i),
        },
{
    let mut i: usize = 0;
    while i < u.assets.len()
        invariant
            i <= u.assets@.len(),
            forall|k: int| 0 <= k < i ==> !escrow_gate_at(*u, k),
        decreases u.assets@.len() - i,
    {
        let is_escrow = match &u.assets[i].holding_mode {
            Some(HoldingMode::Escrow) => true,
            _ => false,
        };
        if is_escrow {
            let aid = u.assets[i].id;
            let rem: u128 = match find_escrow(&u.escrow, aid) {
                Some(ei) => {
                    match u.escrow[ei].amount {
                        Some(a) => a,
                        None => 0,
                    }
                },
                None => 0,
            };
            proof {
                assert(rem as int == escrow_remaining(*u, aid));
            }
            let req = required_payout_exec(&u.distributions_v2, aid, u.assets[i].value);
            if rem < req {
                return Some((i, rem, req));
            }
        }
        i = i + 1;
    }
    proof {
        assert forall|i: int| !escrow_gate_at(*u, i) by {
            if 0 <= i < u.assets@.len() {
            }
        }
    }
    None
}

fn find_approval_violation(u: &User) -> (r: Option<u64>)
    ensures
        match r {
            Some(aid) => exists|k: int|
                {
                    &&& approval_gate_at(*u, k)
                    &&& (forall|j: int| 0 <= j < k ==> !approval_gate_at(*u, j))
                    &&& aid == u.distributions_v2@[k].asset_id
                },
            None => forall|k: int| !approval_gate_at(*u, k),
        },
{
    let mut k: usize = 0;
    while k < u.distributions_v2.len()
        invariant
            k <= u.distributions_v2@.len(),
            forall|j: int| 0 <= j < k ==> !approval_gate_at(*u, j),
        decreases u.distributions_v2@.len() - k,
    {
        let aid = u.distributions_v2[k].asset_id;
        match find_asset(&u.assets, aid) {
            Some(ai) => {
                let is_escrow = match &u.assets[ai].holding_mode {
                    Some(HoldingMode::Escrow) => true,
                    _ => false,
                };
                if !is_escrow {
                    if find_approval(&u.approvals, aid).is_none() {
                        proof {
                            assert(first_asset(u.assets@, aid, ai as int));
                            assert(approval_gate_at(*u, k as int));
                        }
                        return Some(aid);
                    }
                }
            },
            None => {},
        }
        k = k + 1;
    }
    proof {
        assert forall|k: int| !approval_gate_at(*u, k) by {
            if 0 <= k < u.distributions_v2@.len() {
            }
        }
    }
    None
}

fn find_allowance_violation(u: &User) -> (r: Option<(u128, u128)>)
    ensures
        match r {
            Some((needed, found)) => exists|i: int|
                {
                    &&& allowance_gate_at(*u, i)
                    &&& (forall|j: int| 0 <= j < i ==> !allowance_gate_at(*u, j))
                    &&& needed == required_payout(
                        u.distributions_v2@,
                        u.assets@[i].id,
                        u.assets@[i].value,
                    )
                },
            None => forall|i: int| !allowance_gate_at(*u, i),
        },
{
    let mut i: usize = 0;
    while i < u.assets.len()
        invariant
            i <= u.assets@.len(),
            forall|k2: int| 0 <= k2 < i ==> !allowance_gate_at(*u, k2),
        decreases u.assets@.len() - i,
    {
        let kind = infer_asset_kind(u.assets[i].asset_type.as_str());
        let token_like = match kind {
            AssetKind::Fungible => true,
            AssetKind::ChainWrapped => true,
            _ => false,
        };
        let is_escrow = match &u.assets[i].holding_mode {
            Some(HoldingMode::Escrow) => true,
            _ => false,
        };
        if token_like && !is_escrow {
            let aid = u.assets[i].id;
            match find_approval(&u.approvals, aid) {
                Some(ai) => {
                    match u.approvals[ai].allowance {
                        Some(local_allow) => {
                            let req = required_payout_exec(
                                &u.distributions_v2,
                                aid,
                                u.assets[i].value,
                            );
                            if local_allow < req {
                                proof {
                                    assert(allowance_gate_at(*u, i as int));
                                }
                                return Some((req, local_allow));
                            }
                        },
                        None => {},
                    }
                },
                None => {},
            }
        }
        i = i + 1;
    }
    proof {
        assert forall|i: int| !allowance_gate_at(*u, i) by {
            if 0 <= i < u.assets@.len() {
            }
        }
    }
    None
}

#[verifier::rlimit(100)]
#[verifier::spinoff_prover]
fn build_work_items(u: &User) -> (items: Vec<WorkItem>)
    ensures
        items@.len() == work_items_prefix(*u, u.distributions_v2@.len() as int).len(),
        forall|t: int|
            0 <= t < items@.len() ==> #[trigger] item_eq(
                items@[t],
                work_items_prefix(*u, u.distributions_v2@.len() as int)[t],
            ),
{
    let mut items: Vec<WorkItem> = Vec::new();
    let mut k: usize = 0;
    while k < u.distributions_v2.len()
        invariant
            k <= u.distributions_v2@.len(),
            items@.len() == work_items_prefix(*u, k as int).len(),
            forall|t: int|
                0 <= t < items@.len() ==> #[trigger] item_eq(
                    items@[t],
                    work_items_prefix(*u, k as int)[t],
                ),
        decreases u.distributions_v2@.len() - k,
    {
        let s_asset = u.distributions_v2[k].asset_id;
        let s_heir = u.distributions_v2[k].heir_id;
        proof {
            lemma_first_asset_idx(u.assets@, s_asset);
        }
        match find_asset(&u.assets, s_asset) {
            Some(ai) => {
                let pref = match find_payout_override(&u.payout_overrides, s_asset, s_heir) {
                    Some(oi) => {
                        proof {
                            lemma_effective_pref_hit(
                                u.payout_overrides@,
                                u.distributions_v2@[k as int],
                                oi as int,
                            );
                        }
                        u.payout_overrides[oi].payout_preference
                    },
                    None => {
                        proof {
                            lemma_effective_pref_miss(
                                u.payout_overrides@,
                                u.distributions_v2@[k as int],
                            );
                        }
                        u.distributions_v2[k].payout_preference
                    },
                };
                let token_canister = match &u.assets[ai].token_canister {
                    Some(c) => Some(c.clone()),
                    None => None,
                };
                let item = WorkItem {
                    asset_id: u.assets[ai].id,
                    token_canister,
                    token_id: u.assets[ai].token_id,
                    holding_mode: match &u.assets[ai].holding_mode {
                        Some(HoldingMode::Escrow) => Some(HoldingMode::Escrow),
                        Some(HoldingMode::Approval) => Some(HoldingMode::Approval),
                        None => None,
                    },
                    heir_id: s_heir,
                    payout_pref: pref,
                };
                items.push(item);
                proof {
                    assert(first_asset(u.assets@, s_asset, ai as int));
                    let fi = first_asset_idx(u.assets@, s_asset);
                    assert(fi >= 0 ==> first_asset(u.assets@, s_asset, fi));
                    if fi < 0 {
                        assert(u.assets@[ai as int].id != s_asset);
                        assert(false);
                    }
                    lemma_first_asset_unique(u.assets@, s_asset, fi, ai as int);
                    assert(work_items_prefix(*u, k + 1) == work_items_prefix(*u, k as int)
                        + seq![
                        WorkItem {
                            asset_id: u.assets@[ai as int].id,
                            token_canister: u.assets@[ai as int].token_canister,
                            token_id: u.assets@[ai as int].token_id,
                            holding_mode: u.assets@[ai as int].holding_mode,
                            heir_id: u.distributions_v2@[k as int].heir_id,
                            payout_pref: effective_pref(
                                u.payout_overrides@,
                                u.distributions_v2@[k as int],
                            ),
                        },
                    ]);
                }
            },
            None => {
                proof {
                    let fi = first_asset_idx(u.assets@, s_asset);
                    if fi >= 0 {
                        assert(first_asset(u.assets@, s_asset, fi));
                        assert(u.assets@[fi].id == s_asset);
                        assert(false);
                    }
                    assert(work_items_prefix(*u, k + 1) =~= work_items_prefix(*u, k as int));
                }
            },
        }
        k = k + 1;
    }
    items
}

/// Compute the execution work-item snapshot under Locked, after the four
/// preflight gates: unknown decimals refuse, underfunded escrow refuses
/// with the asset and amounts named, a missing approval refuses, and a
/// tracked allowance short of the requirement refuses.
#[verifier::rlimit(100)]
#[verifier::spinoff_prover]
pub fn snapshot_workitems(u: &User) -> (r: Result<Vec<WorkItem>, CivError>)
    ensures
        u.phase != EstatePhase::Locked ==> (r matches Ok(v) && v@.len() == 0),
        r matches Err(CivError::Other(m)) ==> m@ != "execution_in_progress"@,
        u.phase == EstatePhase::Locked ==> {
            &&& (decimals_gate(*u) <==> (r matches Err(CivError::Other(m)) && m@
                == "decimals_missing_gate"@))
            &&& ((!decimals_gate(*u) && (exists|i: int| escrow_gate_at(*u, i))) ==> (
            r matches Err(CivError::Other(m)) && exists|i: int|
                {
                    &&& escrow_gate_at(*u, i)
                    &&& (forall|j: int| 0 <= j < i ==> !escrow_gate_at(*u, j))
                    &&& m@ == escrow_insufficient_msg(
                        u.assets@[i].id,
                        escrow_remaining(*u, u.assets@[i].id),
                        required_payout(u.distributions_v2@, u.assets@[i].id, u.assets@[i].value) as int,
                    )
                }))
            &&& ((!decimals_gate(*u) && (forall|i: int| !escrow_gate_at(*u, i)) && (exists|k: int|
                approval_gate_at(*u, k))) ==> (r matches Err(CivError::Other(m)) && exists|k: int|
                {
                    &&& approval_gate_at(*u, k)
                    &&& (forall|j: int| 0 <= j < k ==> !approval_gate_at(*u, j))
                    &&& m@ == approval_missing_msg(u.distributions_v2@[k].asset_id)
                }))
            &&& ((!decimals_gate(*u) && (forall|i: int| !escrow_gate_at(*u, i)) && (forall|k: int|
                !approval_gate_at(*u, k)) && (exists|i: int| allowance_gate_at(*u, i))) ==> (
            r matches Err(CivError::AllowanceInsufficient { needed, found }) && exists|i: int|
                {
                    &&& allowance_gate_at(*u, i)
                    &&& (forall|j: int| 0 <= j < i ==> !allowance_gate_at(*u, j))
                    &&& needed == required_payout(
                        u.distributions_v2@,
                        u.assets@[i].id,
                        u.assets@[i].value,
                    )
                }))
            &&& ((!decimals_gate(*u) && (forall|i: int| !escrow_gate_at(*u, i)) && (forall|k: int|
                !approval_gate_at(*u, k)) && (forall|i: int| !allowance_gate_at(*u, i))) ==> (
            r matches Ok(v) && v@.len() == work_items_prefix(
                *u,
                u.distributions_v2@.len() as int,
            ).len() && (forall|t: int|
                0 <= t < v@.len() ==> #[trigger] item_eq(
                    v@[t],
                    work_items_prefix(*u, u.distributions_v2@.len() as int)[t],
                ))))
        },
{
    if !(u.phase == EstatePhase::Locked) {
        return Ok(Vec::new());
    }
    if check_decimals_gate(u) {
        proof {
            reveal_strlit("decimals_missing_gate");
            reveal_strlit("execution_in_progress");
            assert("decimals_missing_gate"@[0] == 'd');
            assert("execution_in_progress"@[0] == 'e');
        }
        return Err(CivError::Other(<String as StringExecFns>::from_str(
            "decimals_missing_gate",
        )));
    }
    match find_escrow_violation(u) {
        Some((i, rem, req)) => {
            let aid = u.assets[i].id;
            let mut msg = <String as StringExecFns>::from_str("escrow_insufficient_required:");
            push_dec_u128(&mut msg, aid as u128);
            StringExecFns::append(&mut msg, ":");
            push_dec_u128(&mut msg, rem);
            StringExecFns::append(&mut msg, ":");
            push_dec_u128(&mut msg, req);
            proof {
                reveal_strlit("decimals_missing_gate");
                reveal_strlit("execution_in_progress");
                reveal_strlit("escrow_insufficient_required:");
                assert("escrow_insufficient_required:"@.len() == 29);
                crate::strutil::lemma_dec_of_len(aid as int);
                crate::strutil::lemma_dec_of_len(rem as int);
                crate::strutil::lemma_dec_of_len(req as int);
                assert(msg@.len() >= 32);
            }
            return Err(CivError::Other(msg));
        },
        None => {},
    }
    match find_approval_violation(u) {
        Some(aid) => {
            let mut msg = <String as StringExecFns>::from_str("approval_missing_asset:");
            push_dec_u128(&mut msg, aid as u128);
            proof {
                reveal_strlit("decimals_missing_gate");
                reveal_strlit("execution_in_progress");
                reveal_strlit("approval_missing_asset:");
                assert("approval_missing_asset:"@.len() == 23);
                crate::strutil::lemma_dec_of_len(aid as int);
                assert(msg@.len() >= 24);
            }
            return Err(CivError::Other(msg));
        },
        None => {},
    }
    match find_allowance_violation(u) {
        Some((needed, found)) => {
            return Err(CivError::AllowanceInsufficient { needed, found });
        },
        None => {},
    }
    Ok(build_work_items(u))
}

/// Work items agree on every field; canister texts by their characters.
pub open spec fn item_eq(a: WorkItem, b: WorkItem) -> bool {
    &&& a.asset_id == b.asset_id
    &&& (match (a.token_canister, b.token_canister) {
        (Some(x), Some(y)) => x@ == y@,
        (None, None) => true,
        _ => false,
    })
    &&& a.token_id == b.token_id
    &&& a.holding_mode == b.holding_mode
    &&& a.heir_id == b.heir_id
    &&& a.payout_pref == b.payout_pref
}

/// Begin a serialized execution: refuse when already executed or when one
/// is in flight, then take the nonce and snapshot the work items.
pub fn execution_begin(u: &mut User, now: u64) -> (r: Result<Vec<WorkItem>, CivError>)
    ensures
        old(u).phase == EstatePhase::Executed <==> r matches Err(CivError::AlreadyExecuted),
        old(u).phase == EstatePhase::Executed ==> *final(u) == *old(u),
        (old(u).phase != EstatePhase::Executed && old(u).execution_nonce is Some) <==> (r matches Err(
            CivError::Other(m),
        ) && m@ == "execution_in_progress"@),
        (old(u).phase != EstatePhase::Executed && old(u).execution_nonce is Some) ==> *final(u)
            == *old(u),
        (old(u).phase != EstatePhase::Executed && old(u).execution_nonce is None) ==> *final(u)
            == (User { execution_nonce: Some(now), ..*old(u) }),
        r is Ok ==> old(u).phase != EstatePhase::Executed && old(u).execution_nonce is None,
        r is Ok <==> old(u).phase == EstatePhase::Locked && old(u).execution_nonce is None
            && !decimals_gate(*old(u)) && (forall|i: int| !escrow_gate_at(*old(u), i)) && (forall|
            k: int,
        | !approval_gate_at(*old(u), k)) && (forall|i: int| !allowance_gate_at(*old(u), i))
            && work_items_prefix(*old(u), old(u).distributions_v2@.len() as int).len() > 0,
        r matches Ok(v) ==> v@.len() == work_items_prefix(
            *old(u),
            old(u).distributions_v2@.len() as int,
        ).len() && (forall|t: int|
            0 <= t < v@.len() ==> #[trigger] item_eq(
                v@[t],
                work_items_prefix(*old(u), old(u).distributions_v2@.len() as int)[t],
            )),
{
    if u.phase == EstatePhase::Executed {
        return Err(CivError::AlreadyExecuted);
    }
    if u.execution_nonce.is_some() {
        return Err(CivError::Other(<String as StringExecFns>::from_str(
            "execution_in_progress",
        )));
    }
    proof {
        reveal_strlit("execution_in_progress");
        reveal_strlit("decimals_missing_gate");
    }
    let snap = snapshot_workitems(u);
    u.execution_nonce = Some(now);
    match snap {
        Ok(items) => {
            if items.len() == 0 {
                return Err(CivError::EstateLocked);
            }
            Ok(items)
        },
        Err(e) => Err(e),
    }
}

/// The transfer ledger's next id.
pub fn next_transfer_id(u: &User) -> (r: u64)
    ensures
        r == spec_next_transfer_id_of(u.transfers@),
{
    next_transfer_id_of(&u.transfers)
}

/// Count the records whose note is exactly `zero_amount_skip`.
pub open spec fn is_skip_note(t: TransferRecord) -> bool {
    match t.note {
        Some(n) => n@ == "zero_amount_skip"@,
        None => false,
    }
}

/// Execution summary over a batch of records: failures carry an error,
/// skips carry the zero-amount note, successes are the rest.
pub fn summarize_execution(
    records: &Vec<TransferRecord>,
    started_at: u64,
    finished_at: u64,
    ck_staged_count: u64,
    auto: bool,
) -> (s: ExecutionSummary)
    requires
        records@.len() <= u64::MAX,
    ensures
        s.total_items == records@.len(),
        s.failure_count == records@.filter(|t: TransferRecord| t.error is Some).len(),
        s.skipped_count == records@.filter(|t: TransferRecord| is_skip_note(t)).len(),
        s.success_count == (if records@.len() >= records@.filter(
            |t: TransferRecord| t.error is Some,
        ).len() + records@.filter(|t: TransferRecord| is_skip_note(t)).len() {
            records@.len() - records@.filter(|t: TransferRecord| t.error is Some).len()
                - records@.filter(|t: TransferRecord| is_skip_note(t)).len()
        } else {
            0int
        }),
        s.started_at == started_at && s.finished_at == finished_at && s.ck_staged_count
            == ck_staged_count && s.auto == auto,
{
    let ghost perr = |t: TransferRecord| t.error is Some;
    let ghost pskip = |t: TransferRecord| is_skip_note(t);
    let mut failure_count: u64 = 0;
    let mut skipped_count: u64 = 0;
    let mut i: usize = 0;
    proof {
        assert(records@.subrange(0, 0).filter(perr) =~= Seq::<TransferRecord>::empty()) by {
            reveal_with_fuel(Seq::<TransferRecord>::filter, 2);
        }
        assert(records@.subrange(0, 0).filter(pskip) =~= Seq::<TransferRecord>::empty()) by {
            reveal_with_fuel(Seq::<TransferRecord>::filter, 2);
        }
    }
    while i < records.len()
        invariant
            i <= records@.len(),
            records@.len() <= u64::MAX,
            perr == (|t: TransferRecord| t.error is Some),
            pskip == (|t: TransferRecord| is_skip_note(t)),
            failure_count == records@.subrange(0, i as int).filter(perr).len(),
            skipped_count == records@.subrange(0, i as int).filter(pskip).len(),
            failure_count <= i && skipped_count <= i,
        decreases records@.len() - i,
    {
        let ghost prefix = records@.subrange(0, i as int);
        let ghost here = records@[i as int];
        proof {
            assert(records@.subrange(0, i + 1) =~= prefix + seq![here]);
            Seq::<TransferRecord>::filter_distributes_over_add(prefix, seq![here], perr);
            Seq::<TransferRecord>::filter_distributes_over_add(prefix, seq![here], pskip);
            assert(seq![here].filter(perr) =~= if perr(here) {
                seq![here]
            } else {
                Seq::<TransferRecord>::empty()
            }) by {
                reveal_with_fuel(Seq::<TransferRecord>::filter, 2);
                assert(seq![here].drop_last() =~= Seq::<TransferRecord>::empty());
            }
            assert(seq![here].filter(pskip) =~= if pskip(here) {
                seq![here]
            } else {
                Seq::<TransferRecord>::empty()
            }) by {
                reveal_with_fuel(Seq::<TransferRecord>::filter, 2);
                assert(seq![here].drop_last() =~= Seq::<TransferRecord>::empty());
            }
        }
        if records[i].error.is_some() {
            failure_count = failure_count + 1;
        }
        let skip = match &records[i].note {
            Some(n) => str_eq(n.as_str(), "zero_amount_skip"),
            None => false,
        };
        if skip {
            skipped_count = skipped_count + 1;
        }
        i = i + 1;
    }
    proof {
        assert(records@.subrange(0, records@.len() as int) =~= records@);
        records@.lemma_filter_len(perr);
        records@.lemma_filter_len(pskip);
    }
    let total_items = records.len() as u64;
    let success_count = if total_items >= failure_count && total_items - failure_count
        >= skipped_count {
        total_items - failure_count - skipped_count
    } else {
        0
    };
    ExecutionSummary {
        started_at,
        finished_at,
        total_items,
        success_count,
        failure_count,
        skipped_count,
        ck_staged_count,
        auto,
    }
}

/// Finalize a completed execution: append its transfer records, move to
/// Executed, record the summary, and release the nonce. The ledger stays
/// append-only, ids strictly increasing across it.
pub fn finalize_execution(
    u: &mut User,
    records: Vec<TransferRecord>,
    ts: u64,
    summary: ExecutionSummary,
)
    ensures
        old(u).phase != EstatePhase::Locked ==> *final(u) == *old(u),
        old(u).phase == EstatePhase::Locked ==> {
            &&& *final(u) == (User {
                transfers: final(u).transfers,
                phase: EstatePhase::Executed,
                executed_at: Some(ts),
                last_execution_summary: final(u).last_execution_summary,
                execution_nonce: None,
                audit_log: final(u).audit_log,
                ..*old(u)
            })
            &&& final(u).transfers@ == old(u).transfers@ + records@
            &&& final(u).phase == EstatePhase::Executed
            &&& (match final(u).last_execution_summary {
                Some(s) => s == summary,
                None => false,
            })
        },
        phase_le(old(u).phase, final(u).phase),
{
    if !(u.phase == EstatePhase::Locked) {
        return ;
    }
    let mut records = records;
    u.transfers.append(&mut records);
    let from = u.phase;
    u.phase = EstatePhase::Executed;
    u.executed_at = Some(ts);
    u.last_execution_summary = Some(summary);
    u.execution_nonce = None;
    push_audit(u, AuditEventKind::PhaseChanged { from, to: EstatePhase::Executed }, ts);
    push_audit(u, AuditEventKind::TriggerExecuted, ts);
}

/// The last execution's summary, if any.
pub fn last_execution_summary(u: &User) -> (r: Option<ExecutionSummary>)
    ensures
        r == u.last_execution_summary,
{
    match &u.last_execution_summary {
        Some(s) => Some(
            ExecutionSummary {
                started_at: s.started_at,
                finished_at: s.finished_at,
                total_items: s.total_items,
                success_count: s.success_count,
                failure_count: s.failure_count,
                skipped_count: s.skipped_count,
                ck_staged_count: s.ck_staged_count,
                auto: s.auto,
            },
        ),
        None => None,
    }
}

/// A transfer kind as one byte in the leaf serialization.
pub open spec fn kind_byte(k: TransferKind) -> u8 {
    match k {
        TransferKind::Fungible => 0,
        TransferKind::Nft => 1,
        TransferKind::Document => 2,
    }
}

/// A payout preference as one byte in the leaf serialization.
pub open spec fn pref_byte(p: PayoutPreference) -> u8 {
    match p {
        PayoutPreference::ToPrincipal => 1,
        PayoutPreference::ToCustody => 2,
        PayoutPreference::CkWithdraw => 3,
    }
}

/// A transfer error kind as one byte in the leaf serialization.
pub open spec fn errk_byte(e: TransferErrorKind) -> u8 {
    match e {
        TransferErrorKind::MissingApproval => 1,
        TransferErrorKind::AllowanceNotFoundOnChain => 2,
        TransferErrorKind::InvalidOwnerPrincipal => 3,
        TransferErrorKind::MissingDestinationPrincipal => 4,
        TransferErrorKind::NftDip721 => 5,
        TransferErrorKind::NftExt => 6,
        TransferErrorKind::NftUnsupported => 7,
        TransferErrorKind::TransferCallFailed => 8,
        TransferErrorKind::Other => 9,
    }
}

/// Deterministic byte serialization of one transfer record, the Merkle
/// leaf's preimage: id, timestamp, asset and heir (absent as zero), the
/// kind byte, then the optional amount, preference, ledger index and error
/// kind.
pub open spec fn leaf_bytes(t: TransferRecord) -> Seq<u8> {
    vstd::bytes::spec_u64_to_le_bytes(t.id) + vstd::bytes::spec_u64_to_le_bytes(t.timestamp)
        + vstd::bytes::spec_u64_to_le_bytes(
        match t.asset_id {
            Some(a) => a,
            None => 0,
        },
    ) + vstd::bytes::spec_u64_to_le_bytes(
        match t.heir_id {
            Some(h) => h,
            None => 0,
        },
    ) + seq![kind_byte(t.kind)] + (match t.amount {
        Some(a) => vstd::bytes::spec_u128_to_le_bytes(a),
        None => Seq::empty(),
    }) + (match t.payout_preference {
        Some(p) => seq![pref_byte(p)],
        None => Seq::empty(),
    }) + (match t.tx_index {
        Some(x) => vstd::bytes::spec_u128_to_le_bytes(x),
        None => Seq::empty(),
    }) + (match t.error_kind {
        Some(e) => seq![errk_byte(e)],
        None => Seq::empty(),
    })
}

/// One record's Merkle leaf.
pub open spec fn leaf_hash(t: TransferRecord) -> Seq<u8> {
    crate::crypto::sha256_of(leaf_bytes(t))
}

/// The leaf level of the tree.
pub open spec fn leaves_of(ts: Seq<TransferRecord>) -> Seq<Seq<u8>> {
    ts.map_values(|t: TransferRecord| leaf_hash(t))
}

/// One fold level: adjacent pairs hash together, an odd tail promotes.
pub open spec fn pair_up(level: Seq<Seq<u8>>) -> Seq<Seq<u8>>
    decreases level.len(),
{
    if level.len() <= 1 {
        level
    } else {
        seq![crate::crypto::sha256_of(level[0] + level[1])] + pair_up(level.skip(2))
    }
}

pub proof fn lemma_pair_up_len(level: Seq<Seq<u8>>)
    ensures
        level.len() <= 1 ==> pair_up(level).len() == level.len(),
        level.len() >= 2 ==> pair_up(level).len() == (level.len() + 1) / 2,
    decreases level.len(),
{
    if level.len() >= 2 {
        lemma_pair_up_len(level.skip(2));
    }
}

/// The all-zero root of an empty ledger.
pub open spec fn zeros32() -> Seq<u8> {
    Seq::new(32, |i: int| 0u8)
}

/// Root of a level, with fuel standing in for the fold depth.
pub open spec fn merkle_root_rec(level: Seq<Seq<u8>>, fuel: nat) -> Seq<u8>
    decreases fuel,
{
    if level.len() == 0 {
        zeros32()
    } else if level.len() == 1 {
        level[0]
    } else if fuel == 0 {
        level[0]
    } else {
        merkle_root_rec(pair_up(level), (fuel - 1) as nat)
    }
}

/// Merkle root of a level: pairs fold bottom-up until one node remains.
pub open spec fn merkle_root_of(level: Seq<Seq<u8>>) -> Seq<u8> {
    merkle_root_rec(level, level.len())
}

/// The attestation of a transfer ledger: the root over its leaves.
pub open spec fn spec_ledger_root(ts: Seq<TransferRecord>) -> Seq<u8> {
    merkle_root_of(leaves_of(ts))
}

proof fn lemma_merkle_fuel(level: Seq<Seq<u8>>, fuel: nat)
    requires
        fuel >= level.len(),
    ensures
        merkle_root_rec(level, fuel) == merkle_root_of(level),
    decreases fuel,
{
    if level.len() >= 2 && fuel > 0 {
        lemma_pair_up_len(level);
        lemma_merkle_fuel(pair_up(level), (fuel - 1) as nat);
        lemma_merkle_fuel(pair_up(level), (level.len() - 1) as nat);
        assert(merkle_root_rec(level, level.len() as nat) == merkle_root_rec(
            pair_up(level),
            (level.len() - 1) as nat,
        ));
    }
}

/// Folding one level leaves the root unchanged.
pub proof fn lemma_merkle_step(level: Seq<Seq<u8>>)
    requires
        level.len() >= 2,
    ensures
        merkle_root_of(level) == merkle_root_of(pair_up(level)),
{
    lemma_pair_up_len(level);
    lemma_merkle_fuel(pair_up(level), (level.len() - 1) as nat);
}

/// Serialize one record's leaf preimage.
#[verifier::rlimit(100)]
#[verifier::spinoff_prover]
pub fn leaf_bytes_exec(t: &TransferRecord) -> (r: Vec<u8>)
    ensures
        r@ == leaf_bytes(*t),
{
    let mut buf: Vec<u8> = Vec::new();
    let b = vstd::bytes::u64_to_le_bytes(t.id);
    crate::strutil::push_bytes(&mut buf, b.as_slice());
    let b = vstd::bytes::u64_to_le_bytes(t.timestamp);
    crate::strutil::push_bytes(&mut buf, b.as_slice());
    let b = vstd::bytes::u64_to_le_bytes(
        match t.asset_id {
            Some(a) => a,
            None => 0,
        },
    );
    crate::strutil::push_bytes(&mut buf, b.as_slice());
    let b = vstd::bytes::u64_to_le_bytes(
        match t.heir_id {
            Some(h) => h,
            None => 0,
        },
    );
    crate::strutil::push_bytes(&mut buf, b.as_slice());
    let ghost chk1 = buf@;
    let kb: u8 = match t.kind {
        TransferKind::Fungible => 0,
        TransferKind::Nft => 1,
        TransferKind::Document => 2,
    };
    buf.push(kb);
    proof {
        assert(buf@ =~= chk1 + seq![kind_byte(t.kind)]);
    }
    match t.amount {
        Some(a) => {
            let b = vstd::bytes::u128_to_le_bytes(a);
            crate::strutil::push_bytes(&mut buf, b.as_slice());
        },
        None => {},
    }
    let ghost chk2 = buf@;
    proof {
        assert(chk2 =~= chk1 + seq![kind_byte(t.kind)] + (match t.amount {
            Some(a) => vstd::bytes::spec_u128_to_le_bytes(a),
            None => Seq::<u8>::empty(),
        }));
    }
    match &t.payout_preference {
        Some(p) => {
            let pb: u8 = match p {
                PayoutPreference::ToPrincipal => 1,
                PayoutPreference::ToCustody => 2,
                PayoutPreference::CkWithdraw => 3,
            };
            buf.push(pb);
        },
        None => {},
    }
    let ghost chk3 = buf@;
    proof {
        assert(chk3 =~= chk2 + (match t.payout_preference {
            Some(p) => seq![pref_byte(p)],
            None => Seq::<u8>::empty(),
        }));
    }
    match t.tx_index {
        Some(x) => {
            let b = vstd::bytes::u128_to_le_bytes(x);
            crate::strutil::push_bytes(&mut buf, b.as_slice());
        },
        None => {},
    }
    let ghost chk4 = buf@;
    proof {
        assert(chk4 =~= chk3 + (match t.tx_index {
            Some(x) => vstd::bytes::spec_u128_to_le_bytes(x),
            None => Seq::<u8>::empty(),
        }));
    }
    match &t.error_kind {
        Some(e) => {
            let eb: u8 = match e {
                TransferErrorKind::MissingApproval => 1,
                TransferErrorKind::AllowanceNotFoundOnChain => 2,
                TransferErrorKind::InvalidOwnerPrincipal => 3,
                TransferErrorKind::MissingDestinationPrincipal => 4,
                TransferErrorKind::NftDip721 => 5,
                TransferErrorKind::NftExt => 6,
                TransferErrorKind::NftUnsupported => 7,
                TransferErrorKind::TransferCallFailed => 8,
                TransferErrorKind::Other => 9,
            };
            buf.push(eb);
        },
        None => {},
    }
    proof {
        assert(buf@ =~= chk4 + (match t.error_kind {
            Some(e) => seq![errk_byte(e)],
            None => Seq::<u8>::empty(),
        }));
        assert(buf@ =~= leaf_bytes(*t));
    }
    buf
}

/// The views of a level's nodes.
pub open spec fn views_of(nodes: Seq<Vec<u8>>) -> Seq<Seq<u8>> {
    nodes.map_values(|v: Vec<u8>| v@)
}

/// Compute and persist the Merkle attestation of the transfer ledger, and
/// return the 32-byte root. Recomputing over the same ledger always yields
/// the same bytes: the root is a function of the ordered records alone.
#[verifier::rlimit(100)]
#[verifier::spinoff_prover]
pub fn compute_ledger_attestation(u: &mut User, now: u64) -> (r: Vec<u8>)
    requires
        old(u).transfers@.len() <= u64::MAX,
    ensures
        r@ == spec_ledger_root(old(u).transfers@),
        r@.len() == 32,
        *final(u) == (User {
            ledger_attestation: final(u).ledger_attestation,
            audit_log: final(u).audit_log,
            ..*old(u)
        }),
        (match final(u).ledger_attestation {
            Some(a) => a.merkle_root@ == r@ && a.computed_at == now && a.transfer_count == old(
                u,
            ).transfers@.len(),
            None => false,
        }),
        exists|k: AuditEventKind|
            #![trigger spec_push_audit(old(u).audit_log@, k, now)]
            {
                &&& k matches AuditEventKind::LedgerAttested { merkle_root: m }
                &&& m@ == r@
                &&& final(u).audit_log@ == spec_push_audit(old(u).audit_log@, k, now)
            },
{
    let mut nodes: Vec<Vec<u8>> = Vec::new();
    let mut i: usize = 0;
    while i < u.transfers.len()
        invariant
            i <= u.transfers@.len(),
            views_of(nodes@) =~= leaves_of(u.transfers@.subrange(0, i as int)),
            nodes@.len() == i,
            forall|k: int| 0 <= k < nodes@.len() ==> #[trigger] nodes@[k]@.len() == 32,
            *u == *old(u),
        decreases u.transfers@.len() - i,
    {
        let lb = leaf_bytes_exec(&u.transfers[i]);
        let h = crate::crypto::sha256(lb.as_slice());
        let ghost prev_nodes = nodes@;
        let ghost hv = h@;
        nodes.push(h);
        proof {
            assert(u.transfers@.subrange(0, i + 1) =~= u.transfers@.subrange(0, i as int).push(
                u.transfers@[i as int],
            ));
            assert(hv == leaf_hash(u.transfers@[i as int]));
            assert forall|k: int| 0 <= k < i + 1 implies #[trigger] views_of(nodes@)[k]
                == leaves_of(u.transfers@.subrange(0, i + 1))[k] by {
                assert(views_of(nodes@)[k] == nodes@[k]@);
                assert(leaves_of(u.transfers@.subrange(0, i + 1))[k] == leaf_hash(
                    u.transfers@.subrange(0, i + 1)[k],
                ));
                if k < i {
                    assert(nodes@[k] == prev_nodes[k]);
                    assert(views_of(prev_nodes)[k] == prev_nodes[k]@);
                    assert(u.transfers@.subrange(0, i + 1)[k] == u.transfers@.subrange(
                        0,
                        i as int,
                    )[k]);
                } else {
                    assert(nodes@[k] == h);
                    assert(u.transfers@.subrange(0, i + 1)[k] == u.transfers@[i as int]);
                }
            }
            assert(views_of(nodes@) =~~= leaves_of(u.transfers@.subrange(0, i + 1)));
        }
        i = i + 1;
    }
    proof {
        assert(u.transfers@.subrange(0, u.transfers@.len() as int) =~= u.transfers@);
    }
    let ghost leaves = leaves_of(u.transfers@);
    while nodes.len() > 1
        invariant
            merkle_root_of(views_of(nodes@)) == merkle_root_of(leaves),
            forall|k: int| 0 <= k < nodes@.len() ==> #[trigger] nodes@[k]@.len() == 32,
            *u == *old(u),
        decreases nodes@.len(),
    {
        let ghost level = views_of(nodes@);
        let mut next: Vec<Vec<u8>> = Vec::new();
        let mut j: usize = 0;
        while j + 1 < nodes.len()
            invariant
                j % 2 == 0,
                j <= nodes@.len(),
                nodes@.len() >= 2,
                level == views_of(nodes@),
                views_of(next@) =~= pair_up(level.subrange(0, j as int)),
                views_of(next@).len() == j / 2,
                forall|k: int| 0 <= k < nodes@.len() ==> #[trigger] nodes@[k]@.len() == 32,
                forall|k: int| 0 <= k < next@.len() ==> #[trigger] next@[k]@.len() == 32,
                *u == *old(u),
            decreases nodes@.len() - j,
        {
            let mut cat: Vec<u8> = Vec::new();
            crate::strutil::push_bytes(&mut cat, nodes[j].as_slice());
            crate::strutil::push_bytes(&mut cat, nodes[j + 1].as_slice());
            let h = crate::crypto::sha256(cat.as_slice());
            next.push(h);
            proof {
                lemma_pair_up_prefix_step(level, j as int);
            }
            j = j + 2;
        }
        if j < nodes.len() {
            let tail = crate::audit::clone_bytes(&nodes[j]);
            next.push(tail);
            proof {
                lemma_pair_up_prefix_tail(level, j as int);
            }
        } else {
            proof {
                assert(level.subrange(0, j as int) =~= level);
            }
        }
        proof {
            assert(views_of(next@) =~~= pair_up(level));
            lemma_merkle_step(level);
            lemma_pair_up_len(level);
            assert(views_of(next@).len() == next@.len());
            assert(level.len() == nodes@.len());
        }
        nodes = next;
    }
    let root: Vec<u8> = if nodes.len() == 0 {
        let mut z: Vec<u8> = Vec::new();
        let mut k: usize = 0;
        while k < 32
            invariant
                k <= 32,
                z@.len() == k,
                forall|m: int| 0 <= m < k ==> z@[m] == 0u8,
            decreases 32 - k,
        {
            z.push(0);
            k = k + 1;
        }
        proof {
            assert(z@ =~= zeros32());
        }
        z
    } else {
        let r = crate::audit::clone_bytes(&nodes[0]);
        proof {
            assert(views_of(nodes@).len() == 1);
            assert(views_of(nodes@)[0] == nodes@[0]@);
        }
        r
    };
    let stored = crate::audit::clone_bytes(&root);
    let evroot = crate::audit::clone_bytes(&root);
    u.ledger_attestation = Some(
        crate::model::payout::LedgerAttestation {
            merkle_root: stored,
            computed_at: now,
            transfer_count: u.transfers.len() as u64,
        },
    );
    push_audit(u, AuditEventKind::LedgerAttested { merkle_root: evroot }, now);
    root
}

proof fn lemma_pair_up_prefix_step(level: Seq<Seq<u8>>, j: int)
    requires
        0 <= j,
        j % 2 == 0,
        j + 1 < level.len(),
    ensures
        pair_up(level.subrange(0, j + 2)) =~= pair_up(level.subrange(0, j)).push(
            crate::crypto::sha256_of(level[j] + level[j + 1]),
        ),
    decreases j,
{
    if j == 0 {
        assert(level.subrange(0, 2).skip(2) =~= Seq::<Seq<u8>>::empty());
        assert(level.subrange(0, 2)[0] == level[0]);
        assert(level.subrange(0, 2)[1] == level[1]);
        assert(pair_up(level.subrange(0, 0)) =~= Seq::<Seq<u8>>::empty());
    } else {
        lemma_pair_up_prefix_step(level.skip(2), j - 2);
        assert(level.subrange(0, j + 2).skip(2) =~= level.skip(2).subrange(0, j));
        assert(level.subrange(0, j).skip(2) =~= level.skip(2).subrange(0, j - 2));
        assert(level.skip(2)[j - 2] == level[j]);
        assert(level.skip(2)[j - 1] == level[j + 1]);
    }
}

proof fn lemma_pair_up_prefix_tail(level: Seq<Seq<u8>>, j: int)
    requires
        0 <= j,
        j % 2 == 0,
        j == level.len() - 1,
    ensures
        pair_up(level) =~= pair_up(level.subrange(0, j)).push(level[j]),
    decreases j,
{
    if j == 0 {
        assert(pair_up(level.subrange(0, 0)) =~= Seq::<Seq<u8>>::empty());
        assert(pair_up(level) =~= seq![level[0]]);
    } else {
        lemma_pair_up_prefix_tail(level.skip(2), j - 2);
        assert(level.subrange(0, j).skip(2) =~= level.skip(2).subrange(0, j - 2));
        assert(level.skip(2)[j - 2] == level[j]);
    }
}

/// Assemble one transfer record from a work item's dispatch parts: the raw
/// error marker normalizes to its stable code and classifies into the
/// structured kind.
pub fn build_transfer_record(
    w: &WorkItem,
    ts: u64,
    id: u64,
    amount: Option<u128>,
    tx_index: Option<u128>,
    note: Option<String>,
    error: Option<String>,
) -> (r: TransferRecord)
    ensures
        r.id == id && r.timestamp == ts,
        r.asset_id == Some(w.asset_id) && r.heir_id == Some(w.heir_id),
        r.kind == (if w.token_id is Some {
            TransferKind::Nft
        } else {
            TransferKind::Fungible
        }),
        r.amount == amount && r.tx_index == tx_index,
        (match (note, r.note) {
            (Some(n), Some(rn)) => rn@ == n@,
            (None, None) => true,
            _ => false,
        }),
        (match (error, r.error, r.error_kind) {
            (Some(e), Some(re), Some(k)) => re@ == crate::errcodes::spec_map_error_code(e@) && k
                == crate::errcodes::spec_from_legacy(crate::errcodes::spec_map_error_code(e@)),
            (None, None, None) => true,
            _ => false,
        }),
        r.payout_preference == Some(w.payout_pref),
{
    let kind = if w.token_id.is_some() {
        TransferKind::Nft
    } else {
        TransferKind::Fungible
    };
    let (norm_error, error_kind) = match &error {
        Some(e) => {
            let code = crate::errcodes::map_error_code(e.as_str());
            let k = crate::errcodes::transfer_error_kind_from_legacy(code.as_str());
            (Some(code), Some(k))
        },
        None => (None, None),
    };
    TransferRecord {
        id,
        timestamp: ts,
        asset_id: Some(w.asset_id),
        heir_id: Some(w.heir_id),
        kind,
        amount,
        payout_preference: Some(w.payout_pref),
        note,
        tx_index,
        error: norm_error,
        error_kind,
    }
}

/// The whole transfer ledger.
pub fn list_transfers(u: &User) -> (r: &Vec<TransferRecord>)
    ensures
        r@ == u.transfers@,
{
    &u.transfers
}

} // verus!
