//! Reconciliation of logical custody and escrow balances against the
//! authoritative ledger: the query set, the delta classification, and the
//! persisted snapshot with its discrepancy events, split around the
//! balance calls.

use vstd::prelude::*;
use vstd::string::StringExecFns;

use crate::audit::{lemma_push_audits_snoc, push_audit, spec_push_audits};
use crate::common::{find_custody, has_custody};
use crate::crypto::derive_escrow_subaccount;
use crate::model::audit::AuditEventKind;
use crate::model::custody::{CustodyReconEntry, EscrowReconEntry, FungibleCustodyRecord, ReconStatus};
use crate::model::user::User;
use crate::strutil::push_dec_u128;

verus! {

/// Users go this long between reconciliation passes.
pub const RECON_INTERVAL_SECS: u64 = 21600;

/// Classify an on-chain balance against the expected logical total:
/// the delta saturates at the signed type's ends.
pub open spec fn spec_classified_delta(on_chain: u128, expected: u128) -> (i128, ReconStatus) {
    if on_chain == expected {
        (0i128, ReconStatus::Exact)
    } else if on_chain < expected {
        let gap = expected - on_chain;
        ((if gap > i128::MAX + 1 {
            i128::MIN
        } else {
            (-gap) as i128
        }), ReconStatus::Shortfall)
    } else {
        let gap = on_chain - expected;
        ((if gap > i128::MAX {
            i128::MAX
        } else {
            gap as i128
        }), ReconStatus::Surplus)
    }
}

/// Compute the classified delta of one balance pair.
pub fn classify_delta(on_chain: u128, expected: u128) -> (r: (i128, ReconStatus))
    ensures
        r == spec_classified_delta(on_chain, expected),
{
    if on_chain == expected {
        (0, ReconStatus::Exact)
    } else if on_chain < expected {
        let gap = expected - on_chain;
        let delta = if gap > i128::MAX as u128 + 1 {
            i128::MIN
        } else if gap == i128::MAX as u128 + 1 {
            i128::MIN
        } else {
            -(gap as i128)
        };
        (delta, ReconStatus::Shortfall)
    } else {
        let gap = on_chain - expected;
        let delta = if gap > i128::MAX as u128 {
            i128::MAX
        } else {
            gap as i128
        };
        (delta, ReconStatus::Surplus)
    }
}

/// One balance query the reconciliation wants answered.
#[derive(Debug)]
pub struct ReconQuery {
    pub asset_id: u64,
    pub heir_id: u64,
    pub canister: Option<String>,
    pub subaccount: Vec<u8>,
    pub staged_sum: u128,
}

/// Unreleased custody staged for a pair, summed with saturation.
pub open spec fn staged_sum_of(s: Seq<FungibleCustodyRecord>, asset_id: u64, heir_id: u64) -> u128
    decreases s.len(),
{
    if s.len() == 0 {
        0u128
    } else {
        let rest = staged_sum_of(s.drop_last(), asset_id, heir_id);
        let term: u128 = if s.last().asset_id == asset_id && s.last().heir_id == heir_id
            && s.last().released_at is None {
            s.last().amount
        } else {
            0
        };
        if rest + term > u128::MAX {
            u128::MAX
        } else {
            (rest + term) as u128
        }
    }
}

fn staged_sum_exec(v: &Vec<FungibleCustodyRecord>, asset_id: u64, heir_id: u64) -> (r: u128)
    ensures
        r == staged_sum_of(v@, asset_id, heir_id),
{
    let mut total: u128 = 0;
    let mut i: usize = 0;
    while i < v.len()
        invariant
            i <= v@.len(),
            total == staged_sum_of(v@.subrange(0, i as int), asset_id, heir_id),
        decreases v@.len() - i,
    {
        proof {
            assert(v@.subrange(0, i + 1).drop_last() =~= v@.subrange(0, i as int));
            assert(v@.subrange(0, i + 1).last() == v@[i as int]);
        }
        if v[i].asset_id == asset_id && v[i].heir_id == heir_id && v[i].released_at.is_none() {
            let amt = v[i].amount;
            total = if total > u128::MAX - amt {
                u128::MAX
            } else {
                total + amt
            };
        }
        i = i + 1;
    }
    proof {
        assert(v@.subrange(0, v@.len() as int) =~= v@);
    }
    total
}

/// Collect the custody balance queries: one per distinct (asset, heir)
/// pair with unreleased custody and a recorded subaccount, staged sums
/// taken over the unreleased records.
/// `i` is the first unreleased custody record of its (asset, heir) pair.
pub open spec fn recon_pair_first(fc: Seq<FungibleCustodyRecord>, i: int) -> bool {
    &&& 0 <= i < fc.len()
    &&& fc[i].released_at is None
    &&& forall|j: int|
        0 <= j < i ==> !(fc[j].asset_id == fc[i].asset_id && fc[j].heir_id == fc[i].heir_id
            && fc[j].released_at is None)
}

/// Some query covers the pair.
pub open spec fn pair_queried(out: Seq<ReconQuery>, asset_id: u64, heir_id: u64) -> bool {
    exists|k: int|
        0 <= k < out.len() && out[k].asset_id == asset_id && (#[trigger] out[k].heir_id) == heir_id
}

/// Every query carries the pair's unreleased staged sum and a recorded
/// custody subaccount.
pub open spec fn queries_sound(u: User, out: Seq<ReconQuery>) -> bool {
    forall|k: int|
        0 <= k < out.len() ==> (#[trigger] out[k].staged_sum) == staged_sum_of(
            u.fungible_custody@,
            out[k].asset_id,
            out[k].heir_id,
        ) && has_custody(u.custody@, out[k].heir_id)
}

/// Every pair whose first unreleased record sits below `upto` and whose
/// heir has custody recorded is covered by some query.
pub open spec fn queries_complete(u: User, out: Seq<ReconQuery>, upto: int) -> bool {
    forall|t: int|
        t < upto && #[trigger] recon_pair_first(u.fungible_custody@, t) && has_custody(
            u.custody@,
            u.fungible_custody@[t].heir_id,
        ) ==> pair_queried(out, u.fungible_custody@[t].asset_id, u.fungible_custody@[t].heir_id)
}

proof fn lemma_pair_queried_push(out: Seq<ReconQuery>, q: ReconQuery, asset_id: u64, heir_id: u64)
    requires
        pair_queried(out, asset_id, heir_id),
    ensures
        pair_queried(out.push(q), asset_id, heir_id),
{
    let k = choose|k: int|
        0 <= k < out.len() && out[k].asset_id == asset_id && (#[trigger] out[k].heir_id)
            == heir_id;
    assert(out.push(q)[k] == out[k]);
}

/// Collect the custody balance queries: one per distinct (asset, heir)
/// pair with unreleased custody and a recorded subaccount, staged sums
/// taken over the unreleased records; every such pair is represented.
#[verifier::rlimit(100)]
#[verifier::spinoff_prover]
pub fn custody_recon_queries(u: &User) -> (out: Vec<ReconQuery>)
    ensures
        queries_sound(*u, out@),
        queries_complete(*u, out@, u.fungible_custody@.len() as int),
{
    let mut out: Vec<ReconQuery> = Vec::new();
    let mut i: usize = 0;
    while i < u.fungible_custody.len()
        invariant
            i <= u.fungible_custody@.len(),
            queries_sound(*u, out@),
            queries_complete(*u, out@, i as int),
        decreases u.fungible_custody@.len() - i,
    {
        let rec_asset = u.fungible_custody[i].asset_id;
        let rec_heir = u.fungible_custody[i].heir_id;
        let unreleased = u.fungible_custody[i].released_at.is_none();
        let first = first_pair_before(&u.fungible_custody, rec_asset, rec_heir, i);
        let cust = find_custody(&u.custody, rec_heir);
        let ghost prev = out@;
        let mut pushed = false;
        if unreleased && first {
            match cust {
                Some(ci) => {
                    let canister = match crate::common::find_asset(&u.assets, rec_asset) {
                        Some(ai) => {
                            match &u.assets[ai].token_canister {
                                Some(c) => Some(c.clone()),
                                None => None,
                            }
                        },
                        None => None,
                    };
                    let staged_sum = staged_sum_exec(&u.fungible_custody, rec_asset, rec_heir);
                    out.push(
                        ReconQuery {
                            asset_id: rec_asset,
                            heir_id: rec_heir,
                            canister,
                            subaccount: crate::audit::clone_bytes(&u.custody[ci].subaccount),
                            staged_sum,
                        },
                    );
                    pushed = true;
                    proof {
                        assert(u.custody@[ci as int].heir_id == rec_heir);
                        assert(queries_sound(*u, out@)) by {
                            assert forall|k: int|
                                0 <= k < out@.len() implies (#[trigger] out@[k].staged_sum)
                                == staged_sum_of(
                                u.fungible_custody@,
                                out@[k].asset_id,
                                out@[k].heir_id,
                            ) && has_custody(u.custody@, out@[k].heir_id) by {
                                if k < prev.len() {
                                    assert(out@[k] == prev[k]);
                                } else {
                                    assert(out@[k].staged_sum == staged_sum);
                                    assert(out@[k].asset_id == rec_asset);
                                    assert(out@[k].heir_id == rec_heir);
                                }
                            }
                        }
                    }
                },
                None => {},
            }
        }
        proof {
            assert(queries_complete(*u, out@, i + 1)) by {
                assert forall|t: int|
                    t < i + 1 && #[trigger] recon_pair_first(u.fungible_custody@, t)
                        && has_custody(
                        u.custody@,
                        u.fungible_custody@[t].heir_id,
                    ) implies pair_queried(
                    out@,
                    u.fungible_custody@[t].asset_id,
                    u.fungible_custody@[t].heir_id,
                ) by {
                    if t == i as int {
                        assert(unreleased);
                        assert(first);
                        assert(cust is Some);
                        assert(pushed);
                        assert(out@[out@.len() - 1].asset_id == rec_asset);
                        assert(out@[out@.len() - 1].heir_id == rec_heir);
                    } else {
                        assert(pair_queried(
                            prev,
                            u.fungible_custody@[t].asset_id,
                            u.fungible_custody@[t].heir_id,
                        ));
                        if pushed {
                            lemma_pair_queried_push(
                                prev,
                                out@[out@.len() - 1],
                                u.fungible_custody@[t].asset_id,
                                u.fungible_custody@[t].heir_id,
                            );
                            assert(out@ =~= prev.push(out@[out@.len() - 1]));
                        } else {
                            assert(out@ == prev);
                        }
                    }
                }
            }
        }
        i = i + 1;
    }
    out
}

fn first_pair_before(
    v: &Vec<FungibleCustodyRecord>,
    asset_id: u64,
    heir_id: u64,
    upto: usize,
) -> (r: bool)
    requires
        upto < v@.len(),
    ensures
        r == (forall|j: int|
            0 <= j < upto ==> !(v@[j].asset_id == asset_id && v@[j].heir_id == heir_id
                && v@[j].released_at is None)),
{
    let mut j: usize = 0;
    while j < upto
        invariant
            j <= upto,
            upto < v@.len(),
            forall|m: int|
                0 <= m < j ==> !(v@[m].asset_id == asset_id && v@[m].heir_id == heir_id
                    && v@[m].released_at is None),
        decreases upto - j,
    {
        if v[j].asset_id == asset_id && v[j].heir_id == heir_id && v[j].released_at.is_none() {
            return false;
        }
        j = j + 1;
    }
    true
}

/// Build one custody reconciliation entry from a query's answered balance;
/// a missing answer classifies as a query error.
pub fn build_custody_entry(
    asset_id: u64,
    heir_id: u64,
    staged_sum: u128,
    balance: Option<u128>,
    now: u64,
) -> (r: CustodyReconEntry)
    ensures
        r.asset_id == asset_id && r.heir_id == heir_id && r.staged_sum == staged_sum
            && r.last_checked == now,
        match balance {
            Some(b) => {
                &&& r.on_chain == Some(b)
                &&& (r.delta, r.status) == ({
                    let (d, s) = spec_classified_delta(b, staged_sum);
                    (Some(d), s)
                })
            },
            None => r.on_chain is None && r.delta is None && r.status == ReconStatus::QueryError,
        },
{
    match balance {
        Some(b) => {
            let (delta, status) = classify_delta(b, staged_sum);
            CustodyReconEntry {
                asset_id,
                heir_id,
                on_chain: Some(b),
                staged_sum,
                delta: Some(delta),
                status,
                last_checked: now,
            }
        },
        None => CustodyReconEntry {
            asset_id,
            heir_id,
            on_chain: None,
            staged_sum,
            delta: None,
            status: ReconStatus::QueryError,
            last_checked: now,
        },
    }
}

/// A reconciliation status names a discrepancy.
pub open spec fn status_discrepant(st: ReconStatus) -> bool {
    st == ReconStatus::Shortfall || st == ReconStatus::Surplus
}

/// The discrepant entries among the first `j`, in order.
pub open spec fn custody_discrepancies(es: Seq<CustodyReconEntry>, j: int) -> Seq<
    CustodyReconEntry,
>
    decreases j,
{
    if j <= 0 {
        Seq::empty()
    } else {
        custody_discrepancies(es, j - 1) + if status_discrepant(es[j - 1].status) {
            seq![es[j - 1]]
        } else {
            Seq::empty()
        }
    }
}

/// Persist a custody reconciliation snapshot: the stored snapshot is the
/// entries handed in, and each non-exact entry is audited as a
/// discrepancy, in order.
pub fn apply_custody_recon(u: &mut User, entries: Vec<CustodyReconEntry>, now: u64)
    ensures
        *final(u) == (User {
            custody_recon: final(u).custody_recon,
            audit_log: final(u).audit_log,
            ..*old(u)
        }),
        final(u).custody_recon matches Some(v) && v@ == entries@,
        exists|ks: Seq<AuditEventKind>|
            ({
                let ds = custody_discrepancies(entries@, entries@.len() as int);
                &&& final(u).audit_log@ == #[trigger] spec_push_audits(
                    old(u).audit_log@,
                    ks,
                    now,
                )
                &&& ks.len() == ds.len()
                &&& (forall|t: int|
                    0 <= t < ks.len() ==> (#[trigger] ks[t] matches AuditEventKind::CustodyReconciliationDiscrepancy {
                        heir_id: h2,
                        expected_total: e2,
                        ..
                    } && h2 == ds[t].heir_id && e2 == ds[t].staged_sum))
            }),
{
    let ghost mut ks: Seq<AuditEventKind> = Seq::empty();
    let mut i: usize = 0;
    while i < entries.len()
        invariant
            i <= entries@.len(),
            *u == (User { audit_log: u.audit_log, ..*old(u) }),
            u.audit_log@ == spec_push_audits(old(u).audit_log@, ks, now),
            ks.len() == custody_discrepancies(entries@, i as int).len(),
            forall|t: int|
                0 <= t < ks.len() ==> (#[trigger] ks[t] matches AuditEventKind::CustodyReconciliationDiscrepancy {
                    heir_id: h2,
                    expected_total: e2,
                    ..
                } && h2 == custody_discrepancies(entries@, i as int)[t].heir_id && e2
                    == custody_discrepancies(entries@, i as int)[t].staged_sum),
        decreases entries@.len() - i,
    {
        let ghost ds_pre = custody_discrepancies(entries@, i as int);
        let discrepant = match entries[i].status {
            ReconStatus::Shortfall => true,
            ReconStatus::Surplus => true,
            _ => false,
        };
        if discrepant {
            let mut note = <String as StringExecFns>::from_str("delta:");
            match entries[i].delta {
                Some(d) => {
                    if d < 0 {
                        StringExecFns::append(&mut note, "-");
                        let mag = if d == i128::MIN {
                            (i128::MAX as u128) + 1
                        } else {
                            (-d) as u128
                        };
                        push_dec_u128(&mut note, mag);
                    } else {
                        StringExecFns::append(&mut note, "+");
                        push_dec_u128(&mut note, d as u128);
                    }
                },
                None => {},
            }
            let kind = AuditEventKind::CustodyReconciliationDiscrepancy {
                heir_id: entries[i].heir_id,
                expected_total: entries[i].staged_sum,
                note,
            };
            let ghost gk = kind;
            push_audit(u, kind, now);
            proof {
                lemma_push_audits_snoc(old(u).audit_log@, ks, gk, now);
                ks = ks.push(gk);
                assert(custody_discrepancies(entries@, i + 1) =~= ds_pre.push(
                    entries@[i as int],
                ));
            }
        } else {
            proof {
                assert(custody_discrepancies(entries@, i + 1) =~= ds_pre);
            }
        }
        i = i + 1;
    }
    u.custody_recon = Some(entries);
}

/// One escrow balance query.
#[derive(Debug)]
pub struct EscrowReconQuery {
    pub asset_id: u64,
    pub canister: String,
    pub subaccount: Vec<u8>,
    pub logical_remaining: u128,
}

/// Collect the escrow balance queries: one per escrow entry with a
/// positive logical remainder and a token canister on its asset.
pub fn escrow_recon_queries(u: &User) -> (out: Vec<EscrowReconQuery>)
    ensures
        forall|k: int| 0 <= k < out@.len() ==> #[trigger] out@[k].logical_remaining > 0,
{
    let mut out: Vec<EscrowReconQuery> = Vec::new();
    let mut i: usize = 0;
    while i < u.escrow.len()
        invariant
            i <= u.escrow@.len(),
            forall|k: int| 0 <= k < out@.len() ==> #[trigger] out@[k].logical_remaining > 0,
        decreases u.escrow@.len() - i,
    {
        let logical: u128 = match u.escrow[i].amount {
            Some(a) => a,
            None => 0,
        };
        if logical > 0 {
            match crate::common::find_asset(&u.assets, u.escrow[i].asset_id) {
                Some(ai) => {
                    match &u.assets[ai].token_canister {
                        Some(c) => {
                            let sub = derive_escrow_subaccount(
                                u.user.as_str(),
                                u.escrow[i].asset_id,
                            );
                            out.push(
                                EscrowReconQuery {
                                    asset_id: u.escrow[i].asset_id,
                                    canister: c.clone(),
                                    subaccount: sub,
                                    logical_remaining: logical,
                                },
                            );
                        },
                        None => {},
                    }
                },
                None => {},
            }
        }
        i = i + 1;
    }
    out
}

/// The discrepant escrow entries among the first `j`, in order.
pub open spec fn escrow_discrepancies(es: Seq<EscrowReconEntry>, j: int) -> Seq<EscrowReconEntry>
    decreases j,
{
    if j <= 0 {
        Seq::empty()
    } else {
        escrow_discrepancies(es, j - 1) + if status_discrepant(es[j - 1].status) {
            seq![es[j - 1]]
        } else {
            Seq::empty()
        }
    }
}

/// Persist an escrow reconciliation snapshot: the stored snapshot is the
/// entries handed in, and each non-exact entry is audited as a
/// discrepancy, in order.
pub fn apply_escrow_recon(u: &mut User, entries: Vec<EscrowReconEntry>, now: u64)
    ensures
        *final(u) == (User {
            escrow_recon: final(u).escrow_recon,
            audit_log: final(u).audit_log,
            ..*old(u)
        }),
        final(u).escrow_recon matches Some(v) && v@ == entries@,
        exists|ks: Seq<AuditEventKind>|
            ({
                let ds = escrow_discrepancies(entries@, entries@.len() as int);
                &&& final(u).audit_log@ == #[trigger] spec_push_audits(
                    old(u).audit_log@,
                    ks,
                    now,
                )
                &&& ks.len() == ds.len()
                &&& (forall|t: int|
                    0 <= t < ks.len() ==> (#[trigger] ks[t] matches AuditEventKind::EscrowReconciliationDiscrepancy {
                        asset_id: a2,
                        expected_total: e2,
                        ..
                    } && a2 == ds[t].asset_id && e2 == ds[t].logical_remaining))
            }),
{
    let ghost mut ks: Seq<AuditEventKind> = Seq::empty();
    let mut i: usize = 0;
    while i < entries.len()
        invariant
            i <= entries@.len(),
            *u == (User { audit_log: u.audit_log, ..*old(u) }),
            u.audit_log@ == spec_push_audits(old(u).audit_log@, ks, now),
            ks.len() == escrow_discrepancies(entries@, i as int).len(),
            forall|t: int|
                0 <= t < ks.len() ==> (#[trigger] ks[t] matches AuditEventKind::EscrowReconciliationDiscrepancy {
                    asset_id: a2,
                    expected_total: e2,
                    ..
                } && a2 == escrow_discrepancies(entries@, i as int)[t].asset_id && e2
                    == escrow_discrepancies(entries@, i as int)[t].logical_remaining),
        decreases entries@.len() - i,
    {
        let ghost ds_pre = escrow_discrepancies(entries@, i as int);
        let discrepant = match entries[i].status {
            ReconStatus::Shortfall => true,
            ReconStatus::Surplus => true,
            _ => false,
        };
        if discrepant {
            let kind = AuditEventKind::EscrowReconciliationDiscrepancy {
                asset_id: entries[i].asset_id,
                expected_total: entries[i].logical_remaining,
                note: <String as StringExecFns>::from_str("balance_differs"),
            };
            let ghost gk = kind;
            push_audit(u, kind, now);
            proof {
                lemma_push_audits_snoc(old(u).audit_log@, ks, gk, now);
                ks = ks.push(gk);
                assert(escrow_discrepancies(entries@, i + 1) =~= ds_pre.push(entries@[i as int]));
            }
        } else {
            proof {
                assert(escrow_discrepancies(entries@, i + 1) =~= ds_pre);
            }
        }
        i = i + 1;
    }
    u.escrow_recon = Some(entries);
}

/// The earliest `last_checked` of the stored custody snapshot; zero with
/// no snapshot or an empty one.
pub open spec fn min_last_checked(es: Seq<CustodyReconEntry>, j: int) -> u64
    decreases j,
{
    if j <= 0 {
        u64::MAX
    } else {
        let rest = min_last_checked(es, j - 1);
        if es[j - 1].last_checked < rest {
            es[j - 1].last_checked
        } else {
            rest
        }
    }
}

/// The staleness mark reconciliation scheduling reads.
pub open spec fn spec_recon_stale(u: User) -> u64 {
    match u.custody_recon {
        Some(v) => if v@.len() == 0 {
            0u64
        } else {
            min_last_checked(v@, v@.len() as int)
        },
        None => 0u64,
    }
}

/// The user has unreleased custody and the last snapshot is older than the
/// reconciliation interval (or none was ever taken).
pub open spec fn spec_recon_due(u: User, now: u64) -> bool {
    &&& (exists|i: int|
        0 <= i < u.fungible_custody@.len() && (#[trigger] u.fungible_custody@[i].released_at) is None)
    &&& (spec_recon_stale(u) == 0 || (if now >= spec_recon_stale(u) {
        now - spec_recon_stale(u)
    } else {
        0
    }) >= RECON_INTERVAL_SECS)
}

/// Decide whether a reconciliation pass is due for this user.
pub fn recon_due(u: &User, now: u64) -> (r: bool)
    ensures
        r == spec_recon_due(*u, now),
{
    let mut has_open = false;
    let mut i: usize = 0;
    while i < u.fungible_custody.len()
        invariant
            i <= u.fungible_custody@.len(),
            has_open == (exists|t: int|
                0 <= t < i && (#[trigger] u.fungible_custody@[t].released_at) is None),
        decreases u.fungible_custody@.len() - i,
    {
        if u.fungible_custody[i].released_at.is_none() {
            has_open = true;
        }
        i = i + 1;
    }
    if !has_open {
        return false;
    }
    let stale: u64 = match &u.custody_recon {
        Some(v) => {
            if v.len() == 0 {
                0
            } else {
                let mut m: u64 = u64::MAX;
                let mut k: usize = 0;
                while k < v.len()
                    invariant
                        k <= v@.len(),
                        m == min_last_checked(v@, k as int),
                    decreases v@.len() - k,
                {
                    if v[k].last_checked < m {
                        m = v[k].last_checked;
                    }
                    k = k + 1;
                }
                m
            }
        },
        None => 0,
    };
    proof {
        assert(stale == spec_recon_stale(*u));
    }
    stale == 0 || (if now >= stale {
        now - stale
    } else {
        0
    }) >= RECON_INTERVAL_SECS
}

/// The stored custody reconciliation, if one was taken.
pub fn get_custody_reconciliation(u: &User) -> (r: &Option<Vec<CustodyReconEntry>>)
    ensures
        r == u.custody_recon,
{
    &u.custody_recon
}

} // verus!
