//! The periodic metrics frame: per-kind retry counts, unreleased custody
//! and escrow totals per asset, and the discrepancy tallies, with the
//! bounded history ring they land in.

use vstd::prelude::*;
use vstd::string::StringExecFns;

use crate::model::audit::{AuditEvent, AuditEventKind};
use crate::model::custody::{EscrowRecord, FungibleCustodyRecord};
use crate::model::user::{AssetAmountTotal, MetricsFrame, RetryKindCount, User};
use crate::retry::{RetryItem, RetryKind};

verus! {

/// Queued retry items of one kind name, terminal or not.
pub open spec fn count_kind_name(s: Seq<RetryItem>, n: Seq<char>) -> int
    decreases s.len(),
{
    if s.len() == 0 {
        0
    } else {
        count_kind_name(s.drop_last(), n) + if s.last().kind.spec_name() == n {
            1int
        } else {
            0int
        }
    }
}

proof fn lemma_count_kind_name_bounds(s: Seq<RetryItem>, n: Seq<char>)
    ensures
        0 <= count_kind_name(s, n) <= s.len(),
    decreases s.len(),
{
    if s.len() > 0 {
        lemma_count_kind_name_bounds(s.drop_last(), n);
    }
}

fn count_kind_exec(v: &Vec<RetryItem>, kind: &RetryKind) -> (r: u64)
    requires
        v@.len() <= u64::MAX,
    ensures
        r == count_kind_name(v@, kind.spec_name()),
{
    let ghost n = kind.spec_name();
    let mut c: u64 = 0;
    let mut i: usize = 0;
    while i < v.len()
        invariant
            i <= v@.len(),
            v@.len() <= u64::MAX,
            c == count_kind_name(v@.subrange(0, i as int), n),
            c <= i,
            n == kind.spec_name(),
        decreases v@.len() - i,
    {
        proof {
            assert(v@.subrange(0, i + 1).drop_last() =~= v@.subrange(0, i as int));
            assert(v@.subrange(0, i + 1).last() == v@[i as int]);
            lemma_count_kind_name_bounds(v@.subrange(0, i as int), n);
        }
        let same = match (&v[i].kind, kind) {
            (RetryKind::FungibleCustodyRelease { .. }, RetryKind::FungibleCustodyRelease {
                ..
            }) => true,
            (RetryKind::NftCustodyRelease { .. }, RetryKind::NftCustodyRelease { .. }) => true,
            (RetryKind::BridgeSubmit { .. }, RetryKind::BridgeSubmit { .. }) => true,
            (RetryKind::BridgePoll { .. }, RetryKind::BridgePoll { .. }) => true,
            (RetryKind::EscrowRelease { .. }, RetryKind::EscrowRelease { .. }) => true,
            _ => false,
        };
        proof {
            crate::retry::lemma_kind_names_distinct();
            assert(same == (v@[i as int].kind.spec_name() == n));
        }
        if same {
            c = c + 1;
        }
        i = i + 1;
    }
    proof {
        assert(v@.subrange(0, v@.len() as int) =~= v@);
    }
    c
}

/// Unreleased custody of one asset, summed with saturation.
pub open spec fn custody_total_of(s: Seq<FungibleCustodyRecord>, asset_id: u64) -> u128
    decreases s.len(),
{
    if s.len() == 0 {
        0u128
    } else {
        let rest = custody_total_of(s.drop_last(), asset_id);
        let term: u128 = if s.last().asset_id == asset_id && s.last().released_at is None {
            s.last().amount
        } else {
            0
        };
        if rest + term > u128::MAX {
            u128::MAX
        } else {
            (rest + term) as u128
        }
    }
}

fn custody_total_exec(v: &Vec<FungibleCustodyRecord>, asset_id: u64) -> (r: u128)
    ensures
        r == custody_total_of(v@, asset_id),
{
    let mut total: u128 = 0;
    let mut i: usize = 0;
    while i < v.len()
        invariant
            i <= v@.len(),
            total == custody_total_of(v@.subrange(0, i as int), asset_id),
        decreases v@.len() - i,
    {
        proof {
            assert(v@.subrange(0, i + 1).drop_last() =~= v@.subrange(0, i as int));
            assert(v@.subrange(0, i + 1).last() == v@[i as int]);
        }
        if v[i].asset_id == asset_id && v[i].released_at.is_none() {
            let amt = v[i].amount;
            total = if total > u128::MAX - amt {
                u128::MAX
            } else {
                total + amt
            };
        }
        i = i + 1;
    }
    proof {
        assert(v@.subrange(0, v@.len() as int) =~= v@);
    }
    total
}

/// Logical escrow of one asset, summed with saturation over all entries.
pub open spec fn escrow_total_of(s: Seq<EscrowRecord>, asset_id: u64) -> u128
    decreases s.len(),
{
    if s.len() == 0 {
        0u128
    } else {
        let rest = escrow_total_of(s.drop_last(), asset_id);
        let term: u128 = if s.last().asset_id == asset_id {
            match s.last().amount {
                Some(a) => a,
                None => 0,
            }
        } else {
            0
        };
        if rest + term > u128::MAX {
            u128::MAX
        } else {
            (rest + term) as u128
        }
    }
}

fn escrow_total_exec(v: &Vec<EscrowRecord>, asset_id: u64) -> (r: u128)
    ensures
        r == escrow_total_of(v@, asset_id),
{
    let mut total: u128 = 0;
    let mut i: usize = 0;
    while i < v.len()
        invariant
            i <= v@.len(),
            total == escrow_total_of(v@.subrange(0, i as int), asset_id),
        decreases v@.len() - i,
    {
        proof {
            assert(v@.subrange(0, i + 1).drop_last() =~= v@.subrange(0, i as int));
            assert(v@.subrange(0, i + 1).last() == v@[i as int]);
        }
        if v[i].asset_id == asset_id {
            let amt = match v[i].amount {
                Some(a) => a,
                None => 0,
            };
            total = if total > u128::MAX - amt {
                u128::MAX
            } else {
                total + amt
            };
        }
        i = i + 1;
    }
    proof {
        assert(v@.subrange(0, v@.len() as int) =~= v@);
    }
    total
}

/// Assets among the first `j` custody records holding the first unreleased
/// record of their asset, in order.
pub open spec fn custody_metric_assets(s: Seq<FungibleCustodyRecord>, j: int) -> Seq<u64>
    decreases j,
{
    if j <= 0 {
        Seq::empty()
    } else {
        custody_metric_assets(s, j - 1) + if s[j - 1].released_at is None && (forall|t: int|
            #![trigger s[t]]
            0 <= t < j - 1 ==> !(s[t].asset_id == s[j - 1].asset_id && s[t].released_at is None)) {
            seq![s[j - 1].asset_id]
        } else {
            Seq::empty()
        }
    }
}

/// Assets among the first `j` escrow entries holding the first entry of
/// their asset, in order.
pub open spec fn escrow_metric_assets(s: Seq<EscrowRecord>, j: int) -> Seq<u64>
    decreases j,
{
    if j <= 0 {
        Seq::empty()
    } else {
        escrow_metric_assets(s, j - 1) + if (forall|t: int|
            #![trigger s[t]]
            0 <= t < j - 1 ==> s[t].asset_id != s[j - 1].asset_id) {
            seq![s[j - 1].asset_id]
        } else {
            Seq::empty()
        }
    }
}

/// Audit entries recording custody reconciliation discrepancies.
pub open spec fn count_custody_disc(log: Seq<AuditEvent>) -> int
    decreases log.len(),
{
    if log.len() == 0 {
        0
    } else {
        count_custody_disc(log.drop_last()) + if log.last().kind matches AuditEventKind::CustodyReconciliationDiscrepancy {
            ..
        } {
            1int
        } else {
            0int
        }
    }
}

/// Audit entries recording escrow reconciliation discrepancies.
pub open spec fn count_escrow_disc(log: Seq<AuditEvent>) -> int
    decreases log.len(),
{
    if log.len() == 0 {
        0
    } else {
        count_escrow_disc(log.drop_last()) + if log.last().kind matches AuditEventKind::EscrowReconciliationDiscrepancy {
            ..
        } {
            1int
        } else {
            0int
        }
    }
}

proof fn lemma_disc_counts_bounds(log: Seq<AuditEvent>)
    ensures
        0 <= count_custody_disc(log) <= log.len(),
        0 <= count_escrow_disc(log) <= log.len(),
    decreases log.len(),
{
    if log.len() > 0 {
        lemma_disc_counts_bounds(log.drop_last());
    }
}

/// Capture one metrics frame: the five per-kind retry counts in a fixed
/// order, one unreleased-custody total per asset with open custody, one
/// logical total per escrowed asset, and the discrepancy tallies.
#[verifier::rlimit(100)]
#[verifier::spinoff_prover]
pub fn metrics_frame_of(u: &User, now: u64) -> (r: MetricsFrame)
    requires
        (match u.retry_queue {
            Some(q) => q@.len() <= u64::MAX,
            None => true,
        }),
        u.audit_log@.len() <= u64::MAX,
    ensures
        r.ts == now,
        ({
            let q = match u.retry_queue {
                Some(v) => v@,
                None => Seq::<RetryItem>::empty(),
            };
            &&& r.retry_counts@.len() == 5
            &&& r.retry_counts@[0].kind_name@ == "FungibleCustodyRelease"@
                && r.retry_counts@[0].count == count_kind_name(q, "FungibleCustodyRelease"@)
            &&& r.retry_counts@[1].kind_name@ == "NftCustodyRelease"@ && r.retry_counts@[1].count
                == count_kind_name(q, "NftCustodyRelease"@)
            &&& r.retry_counts@[2].kind_name@ == "BridgeSubmit"@ && r.retry_counts@[2].count
                == count_kind_name(q, "BridgeSubmit"@)
            &&& r.retry_counts@[3].kind_name@ == "BridgePoll"@ && r.retry_counts@[3].count
                == count_kind_name(q, "BridgePoll"@)
            &&& r.retry_counts@[4].kind_name@ == "EscrowRelease"@ && r.retry_counts@[4].count
                == count_kind_name(q, "EscrowRelease"@)
        }),
        ({
            let fs = custody_metric_assets(u.fungible_custody@, u.fungible_custody@.len() as int);
            &&& r.custody_totals@.len() == fs.len()
            &&& (forall|t: int|
                0 <= t < fs.len() ==> (#[trigger] r.custody_totals@[t].asset_id) == fs[t]
                    && r.custody_totals@[t].total == custody_total_of(
                    u.fungible_custody@,
                    fs[t],
                ))
        }),
        ({
            let es = escrow_metric_assets(u.escrow@, u.escrow@.len() as int);
            &&& r.escrow_totals@.len() == es.len()
            &&& (forall|t: int|
                0 <= t < es.len() ==> (#[trigger] r.escrow_totals@[t].asset_id) == es[t]
                    && r.escrow_totals@[t].total == escrow_total_of(u.escrow@, es[t]))
        }),
        r.custody_discrepancies == count_custody_disc(u.audit_log@),
        r.escrow_discrepancies == count_escrow_disc(u.audit_log@),
{
    let mut retry_counts: Vec<RetryKindCount> = Vec::new();
    match &u.retry_queue {
        Some(q) => {
            retry_counts.push(
                RetryKindCount {
                    kind_name: <String as StringExecFns>::from_str("FungibleCustodyRelease"),
                    count: count_kind_exec(
                        q,
                        &(RetryKind::FungibleCustodyRelease { asset_id: 0, heir_id: 0 }),
                    ),
                },
            );
            retry_counts.push(
                RetryKindCount {
                    kind_name: <String as StringExecFns>::from_str("NftCustodyRelease"),
                    count: count_kind_exec(
                        q,
                        &(RetryKind::NftCustodyRelease { asset_id: 0, heir_id: 0, token_id: 0 }),
                    ),
                },
            );
            retry_counts.push(
                RetryKindCount {
                    kind_name: <String as StringExecFns>::from_str("BridgeSubmit"),
                    count: count_kind_exec(
                        q,
                        &(RetryKind::BridgeSubmit { asset_id: 0, heir_id: 0 }),
                    ),
                },
            );
            retry_counts.push(
                RetryKindCount {
                    kind_name: <String as StringExecFns>::from_str("BridgePoll"),
                    count: count_kind_exec(q, &(RetryKind::BridgePoll { asset_id: 0, heir_id: 0 })),
                },
            );
            retry_counts.push(
                RetryKindCount {
                    kind_name: <String as StringExecFns>::from_str("EscrowRelease"),
                    count: count_kind_exec(
                        q,
                        &(RetryKind::EscrowRelease { asset_id: 0, heir_id: 0 }),
                    ),
                },
            );
        },
        None => {
            retry_counts.push(
                RetryKindCount {
                    kind_name: <String as StringExecFns>::from_str("FungibleCustodyRelease"),
                    count: 0,
                },
            );
            retry_counts.push(
                RetryKindCount {
                    kind_name: <String as StringExecFns>::from_str("NftCustodyRelease"),
                    count: 0,
                },
            );
            retry_counts.push(
                RetryKindCount {
                    kind_name: <String as StringExecFns>::from_str("BridgeSubmit"),
                    count: 0,
                },
            );
            retry_counts.push(
                RetryKindCount {
                    kind_name: <String as StringExecFns>::from_str("BridgePoll"),
                    count: 0,
                },
            );
            retry_counts.push(
                RetryKindCount {
                    kind_name: <String as StringExecFns>::from_str("EscrowRelease"),
                    count: 0,
                },
            );
        },
    }
    let mut custody_totals: Vec<AssetAmountTotal> = Vec::new();
    let mut i: usize = 0;
    while i < u.fungible_custody.len()
        invariant
            i <= u.fungible_custody@.len(),
            custody_totals@.len() == custody_metric_assets(u.fungible_custody@, i as int).len(),
            forall|t: int|
                0 <= t < custody_totals@.len() ==> (#[trigger] custody_totals@[t].asset_id)
                    == custody_metric_assets(u.fungible_custody@, i as int)[t]
                    && custody_totals@[t].total == custody_total_of(
                    u.fungible_custody@,
                    custody_metric_assets(u.fungible_custody@, i as int)[t],
                ),
        decreases u.fungible_custody@.len() - i,
    {
        let ghost pre = custody_totals@;
        let aid = u.fungible_custody[i].asset_id;
        let mut is_first = u.fungible_custody[i].released_at.is_none();
        let mut t: usize = 0;
        while t < i
            invariant
                t <= i,
                i < u.fungible_custody@.len(),
                aid == u.fungible_custody@[i as int].asset_id,
                is_first == (u.fungible_custody@[i as int].released_at is None && (forall|s: int|
                    0 <= s < t ==> !(u.fungible_custody@[s].asset_id == aid
                        && u.fungible_custody@[s].released_at is None))),
            decreases i - t,
        {
            if u.fungible_custody[t].asset_id == aid && u.fungible_custody[t].released_at.is_none()
            {
                is_first = false;
            }
            t = t + 1;
        }
        if is_first {
            let total = custody_total_exec(&u.fungible_custody, aid);
            custody_totals.push(AssetAmountTotal { asset_id: aid, total });
            proof {
                assert(custody_metric_assets(u.fungible_custody@, i + 1)
                    =~= custody_metric_assets(u.fungible_custody@, i as int).push(aid));
            }
        } else {
            proof {
                assert(custody_metric_assets(u.fungible_custody@, i + 1)
                    =~= custody_metric_assets(u.fungible_custody@, i as int));
            }
        }
        proof {
            assert(custody_totals@.len() == custody_metric_assets(
                u.fungible_custody@,
                i + 1,
            ).len());
            assert forall|k: int|
                0 <= k < custody_totals@.len() implies (#[trigger] custody_totals@[k].asset_id)
                == custody_metric_assets(u.fungible_custody@, i + 1)[k]
                && custody_totals@[k].total == custody_total_of(
                u.fungible_custody@,
                custody_metric_assets(u.fungible_custody@, i + 1)[k],
            ) by {
                if k < pre.len() {
                    assert(custody_totals@[k] == pre[k]);
                    assert(custody_metric_assets(u.fungible_custody@, i + 1)[k]
                        == custody_metric_assets(u.fungible_custody@, i as int)[k]);
                }
            }
        }
        i = i + 1;
    }
    let mut escrow_totals: Vec<AssetAmountTotal> = Vec::new();
    let mut i: usize = 0;
    while i < u.escrow.len()
        invariant
            i <= u.escrow@.len(),
            escrow_totals@.len() == escrow_metric_assets(u.escrow@, i as int).len(),
            forall|t: int|
                0 <= t < escrow_totals@.len() ==> (#[trigger] escrow_totals@[t].asset_id)
                    == escrow_metric_assets(u.escrow@, i as int)[t] && escrow_totals@[t].total
                    == escrow_total_of(u.escrow@, escrow_metric_assets(u.escrow@, i as int)[t]),
        decreases u.escrow@.len() - i,
    {
        let ghost pre = escrow_totals@;
        let aid = u.escrow[i].asset_id;
        let mut is_first = true;
        let mut t: usize = 0;
        while t < i
            invariant
                t <= i,
                i < u.escrow@.len(),
                aid == u.escrow@[i as int].asset_id,
                is_first == (forall|s: int| 0 <= s < t ==> u.escrow@[s].asset_id != aid),
            decreases i - t,
        {
            if u.escrow[t].asset_id == aid {
                is_first = false;
            }
            t = t + 1;
        }
        if is_first {
            let total = escrow_total_exec(&u.escrow, aid);
            escrow_totals.push(AssetAmountTotal { asset_id: aid, total });
            proof {
                assert(escrow_metric_assets(u.escrow@, i + 1) =~= escrow_metric_assets(
                    u.escrow@,
                    i as int,
                ).push(aid));
            }
        } else {
            proof {
                assert(escrow_metric_assets(u.escrow@, i + 1) =~= escrow_metric_assets(
                    u.escrow@,
                    i as int,
                ));
            }
        }
        proof {
            assert(escrow_totals@.len() == escrow_metric_assets(u.escrow@, i + 1).len());
            assert forall|k: int|
                0 <= k < escrow_totals@.len() implies (#[trigger] escrow_totals@[k].asset_id)
                == escrow_metric_assets(u.escrow@, i + 1)[k] && escrow_totals@[k].total
                == escrow_total_of(u.escrow@, escrow_metric_assets(u.escrow@, i + 1)[k]) by {
                if k < pre.len() {
                    assert(escrow_totals@[k] == pre[k]);
                    assert(escrow_metric_assets(u.escrow@, i + 1)[k] == escrow_metric_assets(
                        u.escrow@,
                        i as int,
                    )[k]);
                }
            }
        }
        i = i + 1;
    }
    let mut custody_discrepancies: u64 = 0;
    let mut escrow_discrepancies: u64 = 0;
    let mut i: usize = 0;
    while i < u.audit_log.len()
        invariant
            i <= u.audit_log@.len(),
            u.audit_log@.len() <= u64::MAX,
            custody_discrepancies == count_custody_disc(u.audit_log@.subrange(0, i as int)),
            escrow_discrepancies == count_escrow_disc(u.audit_log@.subrange(0, i as int)),
            custody_discrepancies <= i,
            escrow_discrepancies <= i,
        decreases u.audit_log@.len() - i,
    {
        proof {
            assert(u.audit_log@.subrange(0, i + 1).drop_last() =~= u.audit_log@.subrange(
                0,
                i as int,
            ));
            assert(u.audit_log@.subrange(0, i + 1).last() == u.audit_log@[i as int]);
            lemma_disc_counts_bounds(u.audit_log@.subrange(0, i as int));
        }
        match &u.audit_log[i].kind {
            AuditEventKind::CustodyReconciliationDiscrepancy { .. } => {
                custody_discrepancies = custody_discrepancies + 1;
            },
            AuditEventKind::EscrowReconciliationDiscrepancy { .. } => {
                escrow_discrepancies = escrow_discrepancies + 1;
            },
            _ => {},
        }
        i = i + 1;
    }
    proof {
        assert(u.audit_log@.subrange(0, u.audit_log@.len() as int) =~= u.audit_log@);
    }
    MetricsFrame {
        ts: now,
        retry_counts,
        custody_totals,
        escrow_totals,
        custody_discrepancies,
        escrow_discrepancies,
    }
}

/// Append one frame to the bounded history ring: the oldest frames leave
/// so that at most `capacity` remain after the push.
pub fn push_metrics_frame(u: &mut User, frame: MetricsFrame, capacity: usize)
    requires
        capacity >= 1,
    ensures
        *final(u) == (User { metrics_history: final(u).metrics_history, ..*old(u) }),
        final(u).metrics_history@ == (if old(u).metrics_history@.len() >= capacity {
            old(u).metrics_history@.skip(
                old(u).metrics_history@.len() + 1 - capacity,
            )
        } else {
            old(u).metrics_history@
        }).push(frame),
{
    let ghost orig = u.metrics_history@;
    if u.metrics_history.len() >= capacity {
        let drop = u.metrics_history.len() - capacity + 1;
        let mut d: usize = 0;
        while d < drop
            invariant
                d <= drop,
                drop == orig.len() + 1 - capacity,
                capacity >= 1,
                orig.len() >= capacity,
                u.metrics_history@ == orig.skip(d as int),
                *u == (User { metrics_history: u.metrics_history, ..*old(u) }),
            decreases drop - d,
        {
            u.metrics_history.remove(0);
            proof {
                assert(u.metrics_history@ =~= orig.skip(d + 1));
            }
            d = d + 1;
        }
    }
    u.metrics_history.push(frame);
}

} // verus!
