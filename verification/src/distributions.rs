//! Distribution shares: the v2 per-asset setter with its validation gates,
//! the legacy bulk and per-asset paths kept as thin compatibility shims,
//! readiness evaluation with its cache, and the integrity report.

use vstd::prelude::*;

use crate::assets::{infer_asset_kind, spec_infer_asset_kind};
use crate::audit::{push_audit, spec_push_audit};
use crate::common::{
    assert_mutable, find_asset, find_heir, find_heir_ex, find_legacy_dist, has_asset, has_heir,
    has_heir_ex, has_legacy_dist, is_mutable,
};
use crate::model::asset::Asset;
use crate::model::audit::AuditEventKind;
use crate::model::base::{AssetKind, PayoutPreference};
use crate::model::distribution::{AssetDistribution, DistributionShare};
use crate::model::integrity::IntegrityReport;
use crate::model::errors::CivError;
use crate::model::user::{User, INACTIVITY_PERIOD_SECS};

verus! {

/// Sum of the v2 percentages recorded for one asset.
pub open spec fn sum_pct(s: Seq<DistributionShare>, asset_id: u64) -> int
    decreases s.len(),
{
    if s.len() == 0 {
        0
    } else {
        sum_pct(s.drop_last(), asset_id) + if s.last().asset_id == asset_id {
            s.last().percentage as int
        } else {
            0
        }
    }
}

pub proof fn lemma_sum_pct_bounds(s: Seq<DistributionShare>, asset_id: u64)
    ensures
        0 <= sum_pct(s, asset_id) <= s.len() * 255,
    decreases s.len(),
{
    if s.len() > 0 {
        lemma_sum_pct_bounds(s.drop_last(), asset_id);
        assert((s.len() - 1) * 255 + 255 == s.len() * 255) by (nonlinear_arith);
    }
}

/// Compute `sum_pct` of a share vector.
pub fn sum_pct_exec(v: &Vec<DistributionShare>, asset_id: u64) -> (r: u128)
    ensures
        r == sum_pct(v@, asset_id),
{
    let mut total: u128 = 0;
    let mut i: usize = 0;
    while i < v.len()
        invariant
            i <= v@.len(),
            total == sum_pct(v@.subrange(0, i as int), asset_id),
            total <= i * 255,
        decreases v@.len() - i,
    {
        proof {
            assert(v@.subrange(0, i + 1).drop_last() =~= v@.subrange(0, i as int));
            assert(v@.subrange(0, i + 1).last() == v@[i as int]);
            assert(i * 255 + 255 == (i + 1) * 255) by (nonlinear_arith);
            assert(i < v@.len());
        }
        if v[i].asset_id == asset_id {
            total = total + (v[i].percentage as u128);
        }
        i = i + 1;
    }
    proof {
        assert(v@.subrange(0, v@.len() as int) =~= v@);
    }
    total
}

/// Sum of the legacy percentages recorded for one asset.
pub open spec fn sum_pct_legacy(s: Seq<AssetDistribution>, asset_id: u64) -> int
    decreases s.len(),
{
    if s.len() == 0 {
        0
    } else {
        sum_pct_legacy(s.drop_last(), asset_id) + if s.last().asset_id == asset_id {
            s.last().percentage as int
        } else {
            0
        }
    }
}

pub proof fn lemma_sum_pct_legacy_bounds(s: Seq<AssetDistribution>, asset_id: u64)
    ensures
        0 <= sum_pct_legacy(s, asset_id) <= s.len() * 255,
    decreases s.len(),
{
    if s.len() > 0 {
        lemma_sum_pct_legacy_bounds(s.drop_last(), asset_id);
        assert((s.len() - 1) * 255 + 255 == s.len() * 255) by (nonlinear_arith);
    }
}

/// Compute `sum_pct_legacy` of a legacy distribution vector.
pub fn sum_pct_legacy_exec(v: &Vec<AssetDistribution>, asset_id: u64) -> (r: u128)
    ensures
        r == sum_pct_legacy(v@, asset_id),
{
    let mut total: u128 = 0;
    let mut i: usize = 0;
    while i < v.len()
        invariant
            i <= v@.len(),
            total == sum_pct_legacy(v@.subrange(0, i as int), asset_id),
            total <= i * 255,
        decreases v@.len() - i,
    {
        proof {
            assert(v@.subrange(0, i + 1).drop_last() =~= v@.subrange(0, i as int));
            assert(v@.subrange(0, i + 1).last() == v@[i as int]);
            assert(i * 255 + 255 == (i + 1) * 255) by (nonlinear_arith);
            assert(i < v@.len());
        }
        if v[i].asset_id == asset_id {
            total = total + (v[i].percentage as u128);
        }
        i = i + 1;
    }
    proof {
        assert(v@.subrange(0, v@.len() as int) =~= v@);
    }
    total
}

/// Which payout preferences an asset kind accepts.
pub open spec fn pref_allowed_for_kind(kind: AssetKind, pref: PayoutPreference) -> bool {
    match kind {
        AssetKind::Fungible => pref == PayoutPreference::ToPrincipal || pref
            == PayoutPreference::ToCustody,
        AssetKind::ChainWrapped => true,
        AssetKind::Nft => pref == PayoutPreference::ToPrincipal || pref
            == PayoutPreference::ToCustody,
        AssetKind::Document => false,
    }
}

/// Check the preference matrix for one kind.
pub fn pref_allowed_for_kind_exec(kind: AssetKind, pref: PayoutPreference) -> (r: bool)
    ensures
        r == pref_allowed_for_kind(kind, pref),
{
    match kind {
        AssetKind::Fungible => pref == PayoutPreference::ToPrincipal || pref
            == PayoutPreference::ToCustody,
        AssetKind::ChainWrapped => true,
        AssetKind::Nft => pref == PayoutPreference::ToPrincipal || pref
            == PayoutPreference::ToCustody,
        AssetKind::Document => false,
    }
}

/// One share passes the heir gate.
pub open spec fn share_heir_ok(u: User, s: DistributionShare) -> bool {
    has_heir_ex(u.heirs_v2@, s.heir_id)
}

/// One share passes the preference gate for the asset's inferred kind.
pub open spec fn share_pref_ok(kind: AssetKind, s: DistributionShare) -> bool {
    pref_allowed_for_kind(kind, s.payout_preference)
}

/// Replace the distribution of one asset with the given shares. The shares
/// must name existing heirs, fit the asset kind's preference matrix, and sum
/// to exactly 100. The inactivity timer starts the first time distributions
/// appear.
pub fn set_distribution_v2(
    u: &mut User,
    asset_id: u64,
    shares: Vec<DistributionShare>,
    now: u64,
) -> (r: Result<(), CivError>)
    requires
        now + INACTIVITY_PERIOD_SECS <= u64::MAX,
    ensures
        r is Err ==> *final(u) == *old(u),
        !is_mutable(*old(u)) <==> r matches Err(CivError::EstateLocked),
        is_mutable(*old(u)) && !has_asset(old(u).assets@, asset_id) <==> r matches Err(
            CivError::DistributionAssetNotFound,
        ),
        ({
            let kind = spec_infer_asset_kind(asset_kind_label(*old(u), asset_id));
            &&& (r matches Err(CivError::DistributionHeirNotFound) <==> is_mutable(*old(u))
                && has_asset(old(u).assets@, asset_id) && (exists|i: int|
                0 <= i < shares@.len() && !share_heir_ok(*old(u), shares@[i]) && (forall|j: int|
                    0 <= j < i ==> share_heir_ok(*old(u), shares@[j]) && share_pref_ok(
                        kind,
                        shares@[j],
                    ))))
            &&& (r matches Err(CivError::InvalidPayoutPreference) <==> is_mutable(*old(u))
                && has_asset(old(u).assets@, asset_id) && (exists|i: int|
                0 <= i < shares@.len() && share_heir_ok(*old(u), shares@[i]) && !share_pref_ok(
                    kind,
                    shares@[i],
                ) && (forall|j: int|
                    0 <= j < i ==> share_heir_ok(*old(u), shares@[j]) && share_pref_ok(
                        kind,
                        shares@[j],
                    ))))
            &&& (r matches Err(CivError::InvalidHeirPercentage) <==> is_mutable(*old(u))
                && has_asset(old(u).assets@, asset_id) && (forall|i: int|
                0 <= i < shares@.len() ==> share_heir_ok(*old(u), shares@[i]) && share_pref_ok(
                    kind,
                    shares@[i],
                )) && sum_pct(shares@, asset_id) != 100)
            &&& (r is Ok <==> is_mutable(*old(u)) && has_asset(old(u).assets@, asset_id) && (
            forall|i: int|
                0 <= i < shares@.len() ==> share_heir_ok(*old(u), shares@[i]) && share_pref_ok(
                    kind,
                    shares@[i],
                )) && sum_pct(shares@, asset_id) == 100)
        }),
        r is Ok ==> {
            &&& *final(u) == (User {
                distributions_v2: final(u).distributions_v2,
                audit_log: final(u).audit_log,
                timer_expiry: final(u).timer_expiry,
                ..*old(u)
            })
            &&& final(u).distributions_v2@ == old(u).distributions_v2@.filter(
                |d: DistributionShare| d.asset_id != asset_id,
            ) + shares@
            &&& final(u).audit_log@ == spec_push_audit(
                old(u).audit_log@,
                AuditEventKind::DistributionSet { asset_id },
                now,
            )
            &&& final(u).timer_expiry == if old(u).timer_expiry == 0 {
                (now + INACTIVITY_PERIOD_SECS) as u64
            } else {
                old(u).timer_expiry
            }
        },
{
    if let Err(e) = assert_mutable(u) {
        return Err(e);
    }
    let aidx = match find_asset(&u.assets, asset_id) {
        Some(i) => i,
        None => {
            return Err(CivError::DistributionAssetNotFound);
        },
    };
    let kind = infer_asset_kind(u.assets[aidx].asset_type.as_str());
    proof {
        assert(asset_kind_label(*old(u), asset_id) == old(u).assets@[aidx as int].asset_type@);
    }
    let mut i: usize = 0;
    while i < shares.len()
        invariant
            i <= shares@.len(),
            kind == spec_infer_asset_kind(asset_kind_label(*old(u), asset_id)),
            *u == *old(u),
            forall|j: int|
                0 <= j < i ==> share_heir_ok(*old(u), shares@[j]) && share_pref_ok(
                    kind,
                    shares@[j],
                ),
        decreases shares@.len() - i,
    {
        if find_heir_ex(&u.heirs_v2, shares[i].heir_id).is_none() {
            return Err(CivError::DistributionHeirNotFound);
        }
        if !pref_allowed_for_kind_exec(kind, shares[i].payout_preference) {
            return Err(CivError::InvalidPayoutPreference);
        }
        i = i + 1;
    }
    let total = sum_pct_exec(&shares, asset_id);
    if total != 100 {
        return Err(CivError::InvalidHeirPercentage);
    }
    retain_shares_not_asset_local(&mut u.distributions_v2, asset_id);
    let mut shares = shares;
    u.distributions_v2.append(&mut shares);
    push_audit(u, AuditEventKind::DistributionSet { asset_id }, now);
    if u.timer_expiry == 0 {
        u.timer_expiry = now + INACTIVITY_PERIOD_SECS;
    }
    Ok(())
}

/// The asset-type label of the named asset (empty when absent), as the kind
/// inference reads it.
pub open spec fn asset_kind_label(u: User, asset_id: u64) -> Seq<char> {
    if exists|i: int| 0 <= i < u.assets@.len() && u.assets@[i].id == asset_id {
        let i = choose|i: int|
            0 <= i < u.assets@.len() && u.assets@[i].id == asset_id && (forall|j: int|
                0 <= j < i ==> u.assets@[j].id != asset_id);
        u.assets@[i].asset_type@
    } else {
        Seq::empty()
    }
}

fn retain_shares_not_asset_local(v: &mut Vec<DistributionShare>, id: u64)
    ensures
        final(v)@ == old(v)@.filter(|d: DistributionShare| d.asset_id != id),
{
    let ghost pred = |d: DistributionShare| d.asset_id != id;
    let ghost orig = v@;
    let mut i: usize = 0;
    let ghost j: int = 0;
    proof {
        assert(orig.subrange(0, 0).filter(pred) =~= Seq::<DistributionShare>::empty()) by {
            reveal_with_fuel(Seq::<DistributionShare>::filter, 2);
        }
        assert(v@ =~= orig.subrange(0, 0).filter(pred) + orig.skip(0));
    }
    while i < v.len()
        invariant
            pred == (|d: DistributionShare| d.asset_id != id),
            0 <= j <= orig.len(),
            v@ =~= orig.subrange(0, j).filter(pred) + orig.skip(j),
            i == orig.subrange(0, j).filter(pred).len(),
            i <= j,
        decreases orig.len() - j,
    {
        let ghost here = orig[j];
        proof {
            assert(v@[i as int] == orig.skip(j)[0]);
            assert(orig.subrange(0, j + 1) =~= orig.subrange(0, j) + seq![here]);
            Seq::<DistributionShare>::filter_distributes_over_add(
                orig.subrange(0, j),
                seq![here],
                pred,
            );
            assert(seq![here].filter(pred) =~= if pred(here) {
                seq![here]
            } else {
                Seq::<DistributionShare>::empty()
            }) by {
                reveal_with_fuel(Seq::<DistributionShare>::filter, 2);
                assert(seq![here].drop_last() =~= Seq::<DistributionShare>::empty());
            }
        }
        if v[i].asset_id != id {
            i = i + 1;
        } else {
            v.remove(i);
        }
        proof {
            assert(v@ =~= orig.subrange(0, j + 1).filter(pred) + orig.skip(j + 1));
            j = j + 1;
        }
    }
    proof {
        assert(j == orig.len());
        assert(orig.subrange(0, orig.len() as int) =~= orig);
        assert(orig.skip(j) =~= Seq::<DistributionShare>::empty());
        assert(v@ =~= orig.filter(pred));
    }
}

/// The v2 shares of one asset, in stored order.
pub fn get_asset_distributions_v2(u: &User, asset_id: u64) -> (r: Vec<DistributionShare>)
    ensures
        r@ == u.distributions_v2@.filter(|d: DistributionShare| d.asset_id == asset_id),
{
    let ghost pred = |d: DistributionShare| d.asset_id == asset_id;
    let mut out: Vec<DistributionShare> = Vec::new();
    let mut i: usize = 0;
    proof {
        assert(u.distributions_v2@.subrange(0, 0).filter(pred) =~= Seq::<
            DistributionShare,
        >::empty()) by {
            reveal_with_fuel(Seq::<DistributionShare>::filter, 2);
        }
    }
    while i < u.distributions_v2.len()
        invariant
            i <= u.distributions_v2@.len(),
            pred == (|d: DistributionShare| d.asset_id == asset_id),
            out@ == u.distributions_v2@.subrange(0, i as int).filter(pred),
        decreases u.distributions_v2@.len() - i,
    {
        let ghost prefix = u.distributions_v2@.subrange(0, i as int);
        let ghost here = u.distributions_v2@[i as int];
        proof {
            assert(u.distributions_v2@.subrange(0, i + 1) =~= prefix + seq![here]);
            Seq::<DistributionShare>::filter_distributes_over_add(prefix, seq![here], pred);
            assert(seq![here].filter(pred) =~= if pred(here) {
                seq![here]
            } else {
                Seq::<DistributionShare>::empty()
            }) by {
                reveal_with_fuel(Seq::<DistributionShare>::filter, 2);
                assert(seq![here].drop_last() =~= Seq::<DistributionShare>::empty());
            }
        }
        let d = &u.distributions_v2[i];
        if d.asset_id == asset_id {
            out.push(
                DistributionShare {
                    asset_id: d.asset_id,
                    heir_id: d.heir_id,
                    percentage: d.percentage,
                    payout_preference: d.payout_preference,
                },
            );
        }
        i = i + 1;
    }
    proof {
        assert(u.distributions_v2@.subrange(0, u.distributions_v2@.len() as int)
            =~= u.distributions_v2@);
    }
    out
}

/// The whole legacy distribution list.
pub fn list_distributions(u: &User) -> (r: &Vec<AssetDistribution>)
    ensures
        r@ == u.distributions@,
{
    &u.distributions
}

/// The legacy distribution entries of one asset.
pub fn get_asset_distributions(u: &User, asset_id: u64) -> (r: Vec<AssetDistribution>)
    ensures
        r@ == u.distributions@.filter(|d: AssetDistribution| d.asset_id == asset_id),
{
    let ghost pred = |d: AssetDistribution| d.asset_id == asset_id;
    let mut out: Vec<AssetDistribution> = Vec::new();
    let mut i: usize = 0;
    proof {
        assert(u.distributions@.subrange(0, 0).filter(pred) =~= Seq::<AssetDistribution>::empty())
            by {
            reveal_with_fuel(Seq::<AssetDistribution>::filter, 2);
        }
    }
    while i < u.distributions.len()
        invariant
            i <= u.distributions@.len(),
            pred == (|d: AssetDistribution| d.asset_id == asset_id),
            out@ == u.distributions@.subrange(0, i as int).filter(pred),
        decreases u.distributions@.len() - i,
    {
        let ghost prefix = u.distributions@.subrange(0, i as int);
        let ghost here = u.distributions@[i as int];
        proof {
            assert(u.distributions@.subrange(0, i + 1) =~= prefix + seq![here]);
            Seq::<AssetDistribution>::filter_distributes_over_add(prefix, seq![here], pred);
            assert(seq![here].filter(pred) =~= if pred(here) {
                seq![here]
            } else {
                Seq::<AssetDistribution>::empty()
            }) by {
                reveal_with_fuel(Seq::<AssetDistribution>::filter, 2);
                assert(seq![here].drop_last() =~= Seq::<AssetDistribution>::empty());
            }
        }
        let d = &u.distributions[i];
        if d.asset_id == asset_id {
            out.push(
                AssetDistribution {
                    asset_id: d.asset_id,
                    heir_id: d.heir_id,
                    percentage: d.percentage,
                },
            );
        }
        i = i + 1;
    }
    proof {
        assert(u.distributions@.subrange(0, u.distributions@.len() as int) =~= u.distributions@);
    }
    out
}

/// Legacy minimal mapping of distributions: decimal asset id and heir id.
pub fn get_distribution(u: &User) -> (r: Vec<(String, u64)>)
    ensures
        r@.len() == u.distributions@.len(),
        forall|k: int|
            0 <= k < r@.len() ==> r@[k].0@ == crate::strutil::dec_of(
                u.distributions@[k].asset_id as int,
            ) && r@[k].1 == u.distributions@[k].heir_id,
{
    let mut out: Vec<(String, u64)> = Vec::new();
    let mut i: usize = 0;
    while i < u.distributions.len()
        invariant
            i <= u.distributions@.len(),
            out@.len() == i,
            forall|k: int|
                0 <= k < i ==> out@[k].0@ == crate::strutil::dec_of(
                    u.distributions@[k].asset_id as int,
                ) && out@[k].1 == u.distributions@[k].heir_id,
        decreases u.distributions@.len() - i,
    {
        let s = crate::strutil::dec_string_u64(u.distributions[i].asset_id);
        out.push((s, u.distributions[i].heir_id));
        i = i + 1;
    }
    out
}

/// Legacy bulk assignment: every asset named must exist, every heir named
/// must exist, and per asset the percentages must total exactly 100. The
/// whole legacy list is replaced.
pub fn assign_distributions(
    u: &mut User,
    distributions: Vec<AssetDistribution>,
    now: u64,
) -> (r: Result<(), CivError>)
    ensures
        r is Err ==> *final(u) == *old(u),
        (r matches Err(CivError::DistributionAssetNotFound) <==> exists|i: int|
            0 <= i < distributions@.len() && !has_asset(
                old(u).assets@,
                distributions@[i].asset_id,
            ) && (forall|j: int|
                0 <= j < i ==> has_asset(old(u).assets@, distributions@[j].asset_id) && has_heir(
                    old(u).heirs@,
                    distributions@[j].heir_id,
                ))),
        (r matches Err(CivError::DistributionHeirNotFound) <==> exists|i: int|
            0 <= i < distributions@.len() && has_asset(old(u).assets@, distributions@[i].asset_id)
                && !has_heir(old(u).heirs@, distributions@[i].heir_id) && (forall|j: int|
                0 <= j < i ==> has_asset(old(u).assets@, distributions@[j].asset_id) && has_heir(
                    old(u).heirs@,
                    distributions@[j].heir_id,
                ))),
        (r matches Err(CivError::InvalidHeirPercentage) <==> (forall|i: int|
            0 <= i < distributions@.len() ==> has_asset(old(u).assets@, distributions@[i].asset_id)
                && has_heir(old(u).heirs@, distributions@[i].heir_id)) && (exists|i: int|
            0 <= i < distributions@.len() && sum_pct_legacy(
                distributions@,
                distributions@[i].asset_id,
            ) != 100)),
        (r is Ok <==> (forall|i: int|
            0 <= i < distributions@.len() ==> has_asset(old(u).assets@, distributions@[i].asset_id)
                && has_heir(old(u).heirs@, distributions@[i].heir_id)) && (forall|i: int|
            0 <= i < distributions@.len() ==> sum_pct_legacy(
                distributions@,
                distributions@[i].asset_id,
            ) == 100)),
        r is Ok ==> {
            &&& *final(u) == (User { distributions: final(u).distributions, ..*old(u) })
            &&& final(u).distributions@ == distributions@
        },
{
    let mut i: usize = 0;
    while i < distributions.len()
        invariant
            i <= distributions@.len(),
            *u == *old(u),
            forall|j: int|
                0 <= j < i ==> has_asset(old(u).assets@, distributions@[j].asset_id) && has_heir(
                    old(u).heirs@,
                    distributions@[j].heir_id,
                ),
        decreases distributions@.len() - i,
    {
        if find_asset(&u.assets, distributions[i].asset_id).is_none() {
            return Err(CivError::DistributionAssetNotFound);
        }
        if find_heir(&u.heirs, distributions[i].heir_id).is_none() {
            return Err(CivError::DistributionHeirNotFound);
        }
        i = i + 1;
    }
    let mut i: usize = 0;
    while i < distributions.len()
        invariant
            i <= distributions@.len(),
            *u == *old(u),
            forall|j: int|
                0 <= j < i ==> sum_pct_legacy(distributions@, distributions@[j].asset_id) == 100,
        decreases distributions@.len() - i,
    {
        let total = sum_pct_legacy_exec(&distributions, distributions[i].asset_id);
        if total != 100 {
            return Err(CivError::InvalidHeirPercentage);
        }
        i = i + 1;
    }
    u.distributions = distributions;
    Ok(())
}

/// Legacy per-asset replacement: entries must name this asset and existing
/// heirs, and may total at most 100. Starts the timer with the first
/// distributions.
pub fn set_asset_distributions(
    u: &mut User,
    asset_id: u64,
    distributions: Vec<AssetDistribution>,
    now: u64,
) -> (r: Result<(), CivError>)
    requires
        now + INACTIVITY_PERIOD_SECS <= u64::MAX,
    ensures
        r is Err ==> *final(u) == *old(u),
        !has_asset(old(u).assets@, asset_id) ==> r matches Err(CivError::DistributionAssetNotFound),
        r is Ok <==> has_asset(old(u).assets@, asset_id) && (forall|i: int|
            0 <= i < distributions@.len() ==> distributions@[i].asset_id == asset_id && has_heir(
                old(u).heirs@,
                distributions@[i].heir_id,
            )) && sum_pct_legacy(distributions@, asset_id) <= 100,
        r is Ok ==> {
            &&& *final(u) == (User {
                distributions: final(u).distributions,
                timer_expiry: final(u).timer_expiry,
                distributed: final(u).distributed,
                ..*old(u)
            })
            &&& final(u).distributions@ == old(u).distributions@.filter(
                |d: AssetDistribution| d.asset_id != asset_id,
            ) + distributions@
            &&& (final(u).timer_expiry == if old(u).timer_expiry == 0
                && final(u).distributions@.len() > 0 {
                (now + INACTIVITY_PERIOD_SECS) as u64
            } else {
                old(u).timer_expiry
            })
        },
{
    if find_asset(&u.assets, asset_id).is_none() {
        return Err(CivError::DistributionAssetNotFound);
    }
    let mut i: usize = 0;
    while i < distributions.len()
        invariant
            i <= distributions@.len(),
            *u == *old(u),
            forall|j: int|
                0 <= j < i ==> distributions@[j].asset_id == asset_id && has_heir(
                    old(u).heirs@,
                    distributions@[j].heir_id,
                ),
        decreases distributions@.len() - i,
    {
        if distributions[i].asset_id != asset_id {
            return Err(CivError::DistributionAssetNotFound);
        }
        if find_heir(&u.heirs, distributions[i].heir_id).is_none() {
            return Err(CivError::DistributionHeirNotFound);
        }
        i = i + 1;
    }
    let total = sum_pct_legacy_exec(&distributions, asset_id);
    if total > 100 {
        return Err(CivError::InvalidHeirPercentage);
    }
    retain_legacy_not_asset_local(&mut u.distributions, asset_id);
    let mut distributions = distributions;
    u.distributions.append(&mut distributions);
    if u.distributions.len() > 0 && u.timer_expiry == 0 {
        u.timer_expiry = now + INACTIVITY_PERIOD_SECS;
        u.distributed = false;
    }
    Ok(())
}

fn retain_legacy_not_asset_local(v: &mut Vec<AssetDistribution>, id: u64)
    ensures
        final(v)@ == old(v)@.filter(|d: AssetDistribution| d.asset_id != id),
{
    let ghost pred = |d: AssetDistribution| d.asset_id != id;
    let ghost orig = v@;
    let mut i: usize = 0;
    let ghost j: int = 0;
    proof {
        assert(orig.subrange(0, 0).filter(pred) =~= Seq::<AssetDistribution>::empty()) by {
            reveal_with_fuel(Seq::<AssetDistribution>::filter, 2);
        }
        assert(v@ =~= orig.subrange(0, 0).filter(pred) + orig.skip(0));
    }
    while i < v.len()
        invariant
            pred == (|d: AssetDistribution| d.asset_id != id),
            0 <= j <= orig.len(),
            v@ =~= orig.subrange(0, j).filter(pred) + orig.skip(j),
            i == orig.subrange(0, j).filter(pred).len(),
            i <= j,
        decreases orig.len() - j,
    {
        let ghost here = orig[j];
        proof {
            assert(v@[i as int] == orig.skip(j)[0]);
            assert(orig.subrange(0, j + 1) =~= orig.subrange(0, j) + seq![here]);
            Seq::<AssetDistribution>::filter_distributes_over_add(
                orig.subrange(0, j),
                seq![here],
                pred,
            );
            assert(seq![here].filter(pred) =~= if pred(here) {
                seq![here]
            } else {
                Seq::<AssetDistribution>::empty()
            }) by {
                reveal_with_fuel(Seq::<AssetDistribution>::filter, 2);
                assert(seq![here].drop_last() =~= Seq::<AssetDistribution>::empty());
            }
        }
        if v[i].asset_id != id {
            i = i + 1;
        } else {
            v.remove(i);
        }
        proof {
            assert(v@ =~= orig.subrange(0, j + 1).filter(pred) + orig.skip(j + 1));
            j = j + 1;
        }
    }
    proof {
        assert(j == orig.len());
        assert(orig.subrange(0, orig.len() as int) =~= orig);
        assert(orig.skip(j) =~= Seq::<AssetDistribution>::empty());
        assert(v@ =~= orig.filter(pred));
    }
}

/// Delete one legacy distribution entry.
pub fn delete_distribution(u: &mut User, asset_id: u64, heir_id: u64) -> (r: Result<(), CivError>)
    ensures
        r is Err ==> *final(u) == *old(u),
        r is Ok <==> has_legacy_dist(old(u).distributions@, asset_id, heir_id),
        r is Err ==> r matches Err(CivError::DistributionHeirNotFound),
        r is Ok ==> {
            &&& *final(u) == (User { distributions: final(u).distributions, ..*old(u) })
            &&& final(u).distributions@ == old(u).distributions@.filter(
                |d: AssetDistribution| !(d.asset_id == asset_id && d.heir_id == heir_id),
            )
        },
{
    if find_legacy_dist(&u.distributions, asset_id, heir_id).is_none() {
        return Err(CivError::DistributionHeirNotFound);
    }
    let ghost pred = |d: AssetDistribution| !(d.asset_id == asset_id && d.heir_id == heir_id);
    let ghost orig = u.distributions@;
    let mut i: usize = 0;
    let ghost j: int = 0;
    proof {
        assert(orig.subrange(0, 0).filter(pred) =~= Seq::<AssetDistribution>::empty()) by {
            reveal_with_fuel(Seq::<AssetDistribution>::filter, 2);
        }
        assert(u.distributions@ =~= orig.subrange(0, 0).filter(pred) + orig.skip(0));
    }
    while i < u.distributions.len()
        invariant
            pred == (|d: AssetDistribution| !(d.asset_id == asset_id && d.heir_id == heir_id)),
            0 <= j <= orig.len(),
            u.distributions@ =~= orig.subrange(0, j).filter(pred) + orig.skip(j),
            i == orig.subrange(0, j).filter(pred).len(),
            i <= j,
            *u == (User { distributions: u.distributions, ..*old(u) }),
            orig == old(u).distributions@,
        decreases orig.len() - j,
    {
        let ghost here = orig[j];
        proof {
            assert(u.distributions@[i as int] == orig.skip(j)[0]);
            assert(orig.subrange(0, j + 1) =~= orig.subrange(0, j) + seq![here]);
            Seq::<AssetDistribution>::filter_distributes_over_add(
                orig.subrange(0, j),
                seq![here],
                pred,
            );
            assert(seq![here].filter(pred) =~= if pred(here) {
                seq![here]
            } else {
                Seq::<AssetDistribution>::empty()
            }) by {
                reveal_with_fuel(Seq::<AssetDistribution>::filter, 2);
                assert(seq![here].drop_last() =~= Seq::<AssetDistribution>::empty());
            }
        }
        if !(u.distributions[i].asset_id == asset_id && u.distributions[i].heir_id == heir_id) {
            i = i + 1;
        } else {
            u.distributions.remove(i);
        }
        proof {
            assert(u.distributions@ =~= orig.subrange(0, j + 1).filter(pred) + orig.skip(j + 1));
            j = j + 1;
        }
    }
    proof {
        assert(j == orig.len());
        assert(orig.subrange(0, orig.len() as int) =~= orig);
        assert(orig.skip(j) =~= Seq::<AssetDistribution>::empty());
        assert(u.distributions@ =~= orig.filter(pred));
    }
    Ok(())
}

/// Seconds until the inactivity timer fires, `-1` while no legacy
/// distributions exist.
pub fn get_timer(u: &User, now: u64) -> (r: i64)
    ensures
        u.distributions@.len() == 0 ==> r == -1,
        u.distributions@.len() > 0 ==> r == (if u.timer_expiry >= now {
            (u.timer_expiry - now) as u64
        } else {
            0u64
        }) as i64,
{
    if u.distributions.len() == 0 {
        return -1;
    }
    let remaining = if u.timer_expiry >= now {
        u.timer_expiry - now
    } else {
        0
    };
    remaining as i64
}

/// Readiness verdict with its human-readable issue list.
pub struct ReadinessReport {
    pub ready: bool,
    pub issues: Vec<String>,
}

/// Readiness cache window.
pub const READINESS_FRESH_SECS: u64 = 30;

/// Blocking readiness: every share's asset is fully allocated and every
/// share names an existing heir.
pub open spec fn spec_estate_ready(u: User) -> bool {
    forall|i: int|
        0 <= i < u.distributions_v2@.len() ==> sum_pct(
            u.distributions_v2@,
            #[trigger] u.distributions_v2@[i].asset_id,
        ) == 100 && has_heir_ex(u.heirs_v2@, u.distributions_v2@[i].heir_id)
}

/// Evaluate readiness, serving a cached verdict while it is fresh (thirty
/// seconds) and refreshing the cache otherwise. Blocking issues gate
/// readiness; missing decimals and missing principals are reported only.

/// The under/over-allocation message of one asset.
pub open spec fn alloc_issue_msg(asset_id: u64, total: int) -> Seq<char> {
    "asset_"@ + crate::strutil::dec_of(asset_id as int) + "_not_fully_allocated_"@
        + crate::strutil::dec_of(total) + "pct"@
}

/// The dangling-heir message of one share.
pub open spec fn share_heir_issue_msg(heir_id: u64) -> Seq<char> {
    "distribution_missing_heir_"@ + crate::strutil::dec_of(heir_id as int)
}

/// The missing-decimals message of one token asset.
pub open spec fn decimals_issue_msg(asset_id: u64) -> Seq<char> {
    "asset_"@ + crate::strutil::dec_of(asset_id as int) + "_missing_decimals"@
}

/// The unbound-principal message of one heir.
pub open spec fn principal_issue_msg(heir_id: u64) -> Seq<char> {
    "heir_"@ + crate::strutil::dec_of(heir_id as int) + "_missing_principal"@
}

/// The allocation issues the first `j` shares raise: one line per asset
/// whose sum misses 100, at its first share, and one per dangling heir.
pub open spec fn alloc_issues_prefix(u: User, j: int) -> Seq<Seq<char>>
    decreases j,
{
    if j <= 0 {
        Seq::empty()
    } else {
        let d = u.distributions_v2@[j - 1];
        alloc_issues_prefix(u, j - 1) + (if sum_pct(u.distributions_v2@, d.asset_id) != 100 && (
        forall|t: int|
            #![trigger u.distributions_v2@[t]]
            0 <= t < j - 1 ==> u.distributions_v2@[t].asset_id != d.asset_id) {
            seq![alloc_issue_msg(d.asset_id, sum_pct(u.distributions_v2@, d.asset_id))]
        } else {
            Seq::empty()
        }) + (if !has_heir_ex(u.heirs_v2@, d.heir_id) {
            seq![share_heir_issue_msg(d.heir_id)]
        } else {
            Seq::empty()
        })
    }
}

/// The decimals issues the first `j` assets raise.
pub open spec fn decimals_issues_prefix(u: User, j: int) -> Seq<Seq<char>>
    decreases j,
{
    if j <= 0 {
        Seq::empty()
    } else {
        let a = u.assets@[j - 1];
        decimals_issues_prefix(u, j - 1) + (if (crate::assets::spec_infer_asset_kind(
            a.asset_type@,
        ) == AssetKind::Fungible || crate::assets::spec_infer_asset_kind(a.asset_type@)
            == AssetKind::ChainWrapped) && a.decimals == 0 {
            seq![decimals_issue_msg(a.id)]
        } else {
            Seq::empty()
        })
    }
}

/// The principal issues the first `j` shares raise: a payout to a
/// principal whose heir exists but has none bound.
pub open spec fn principal_issues_prefix(u: User, j: int) -> Seq<Seq<char>>
    decreases j,
{
    if j <= 0 {
        Seq::empty()
    } else {
        let d = u.distributions_v2@[j - 1];
        principal_issues_prefix(u, j - 1) + (if (d.payout_preference
            == PayoutPreference::ToPrincipal || d.payout_preference
            == PayoutPreference::CkWithdraw) && has_heir_ex(u.heirs_v2@, d.heir_id)
            && crate::dispatch::item_heir_principal(u.heirs_v2@, d.heir_id) is None {
            seq![principal_issue_msg(d.heir_id)]
        } else {
            Seq::empty()
        })
    }
}

/// Every readiness issue of the user, in report order.
pub open spec fn readiness_issues(u: User) -> Seq<Seq<char>> {
    alloc_issues_prefix(u, u.distributions_v2@.len() as int) + decimals_issues_prefix(
        u,
        u.assets@.len() as int,
    ) + principal_issues_prefix(u, u.distributions_v2@.len() as int)
}

pub fn estate_readiness(u: &mut User, now: u64) -> (r: ReadinessReport)
    ensures
        (match old(u).readiness_cache {
            Some(c) => now >= c.computed_at && now - c.computed_at <= READINESS_FRESH_SECS,
            None => false,
        }) ==> {
            &&& *final(u) == *old(u)
            &&& (match old(u).readiness_cache {
                Some(c) => r.ready == c.ready && r.issues@.len() == c.issues@.len() && (forall|
                    k: int,
                |
                    0 <= k < r.issues@.len() ==> r.issues@[k]@ == c.issues@[k]@),
                None => false,
            })
        },
        !(match old(u).readiness_cache {
            Some(c) => now >= c.computed_at && now - c.computed_at <= READINESS_FRESH_SECS,
            None => false,
        }) ==> {
            &&& r.ready == spec_estate_ready(*old(u))
            &&& r.issues@.len() == readiness_issues(*old(u)).len()
            &&& (forall|k: int|
                0 <= k < r.issues@.len() ==> (#[trigger] r.issues@[k]@) == readiness_issues(
                    *old(u),
                )[k])
            &&& *final(u) == (User { readiness_cache: final(u).readiness_cache, ..*old(u) })
            &&& (match final(u).readiness_cache {
                Some(c) => c.computed_at == now && c.ready == r.ready && c.issues@.len()
                    == r.issues@.len() && (forall|k: int|
                    0 <= k < r.issues@.len() ==> c.issues@[k]@ == r.issues@[k]@),
                None => false,
            })
        },
{
    let fresh = match &u.readiness_cache {
        Some(c) => now >= c.computed_at && now - c.computed_at <= READINESS_FRESH_SECS,
        None => false,
    };
    if fresh {
        match &u.readiness_cache {
            Some(c) => {
                let mut issues: Vec<String> = Vec::new();
                let mut k: usize = 0;
                while k < c.issues.len()
                    invariant
                        k <= c.issues@.len(),
                        issues@.len() == k,
                        forall|m: int| 0 <= m < k ==> issues@[m]@ == c.issues@[m]@,
                    decreases c.issues@.len() - k,
                {
                    issues.push(c.issues[k].clone());
                    k = k + 1;
                }
                return ReadinessReport { ready: c.ready, issues };
            },
            None => {
                proof {
                    assert(false);
                }
            },
        }
    }
    let mut issues: Vec<String> = Vec::new();
    let mut ready = true;
    let mut i: usize = 0;
    while i < u.distributions_v2.len()
        invariant
            i <= u.distributions_v2@.len(),
            *u == *old(u),
            ready == (forall|k: int|
                0 <= k < i ==> sum_pct(
                    u.distributions_v2@,
                    #[trigger] u.distributions_v2@[k].asset_id,
                ) == 100 && has_heir_ex(u.heirs_v2@, u.distributions_v2@[k].heir_id)),
            issues@.len() == alloc_issues_prefix(*old(u), i as int).len(),
            forall|m: int|
                0 <= m < issues@.len() ==> (#[trigger] issues@[m]@) == alloc_issues_prefix(
                    *old(u),
                    i as int,
                )[m],
        decreases u.distributions_v2@.len() - i,
    {
        let ghost issues_pre = issues@;
        let ghost ready_before = ready;
        let aid = u.distributions_v2[i].asset_id;
        let hid = u.distributions_v2[i].heir_id;
        let total = sum_pct_exec(&u.distributions_v2, aid);
        let first = find_share_first_for_asset(&u.distributions_v2, aid, i);
        let heir_found = find_heir_ex(&u.heirs_v2, hid).is_some();
        let ok_item = total == 100 && heir_found;
        if total != 100 {
            if first {
                let mut msg = <String as vstd::string::StringExecFns>::from_str("asset_");
                crate::strutil::push_dec_u128(&mut msg, aid as u128);
                vstd::string::StringExecFns::append(&mut msg, "_not_fully_allocated_");
                crate::strutil::push_dec_u128(&mut msg, total);
                vstd::string::StringExecFns::append(&mut msg, "pct");
                issues.push(msg);
            }
            ready = false;
        }
        if !heir_found {
            let mut msg = <String as vstd::string::StringExecFns>::from_str(
                "distribution_missing_heir_",
            );
            crate::strutil::push_dec_u128(&mut msg, hid as u128);
            issues.push(msg);
            ready = false;
        }
        proof {
            assert(issues@.len() == alloc_issues_prefix(*old(u), i + 1).len());
            assert forall|m: int|
                0 <= m < issues@.len() implies (#[trigger] issues@[m]@) == alloc_issues_prefix(
                *old(u),
                i + 1,
            )[m] by {
                if m < issues_pre.len() {
                    assert(issues@[m] == issues_pre[m]);
                    assert(alloc_issues_prefix(*old(u), i + 1)[m] == alloc_issues_prefix(
                        *old(u),
                        i as int,
                    )[m]);
                }
            }
        }
        proof {
            if ready_before && ok_item {
                assert(ready);
                assert forall|k: int|
                    0 <= k < i + 1 implies sum_pct(
                    u.distributions_v2@,
                    #[trigger] u.distributions_v2@[k].asset_id,
                ) == 100 && has_heir_ex(u.heirs_v2@, u.distributions_v2@[k].heir_id) by {
                    if k < i {
                    } else {
                        assert(u.distributions_v2@[k].asset_id == aid);
                    }
                }
            } else {
                assert(!ready);
                if !ok_item {
                    assert(!(sum_pct(u.distributions_v2@, u.distributions_v2@[i as int].asset_id)
                        == 100 && has_heir_ex(
                        u.heirs_v2@,
                        u.distributions_v2@[i as int].heir_id,
                    )));
                } else {
                    if forall|k: int|
                        0 <= k < i + 1 ==> sum_pct(
                            u.distributions_v2@,
                            #[trigger] u.distributions_v2@[k].asset_id,
                        ) == 100 && has_heir_ex(u.heirs_v2@, u.distributions_v2@[k].heir_id) {
                        assert(forall|k: int|
                            0 <= k < i ==> sum_pct(
                                u.distributions_v2@,
                                #[trigger] u.distributions_v2@[k].asset_id,
                            ) == 100 && has_heir_ex(u.heirs_v2@, u.distributions_v2@[k].heir_id));
                        assert(false);
                    }
                }
            }
        }
        i = i + 1;
    }
    let ghost alloc_full = alloc_issues_prefix(*old(u), old(u).distributions_v2@.len() as int);
    let mut i: usize = 0;
    while i < u.assets.len()
        invariant
            i <= u.assets@.len(),
            *u == *old(u),
            ready == spec_estate_ready(*old(u)),
            alloc_full == alloc_issues_prefix(*old(u), old(u).distributions_v2@.len() as int),
            issues@.len() == alloc_full.len() + decimals_issues_prefix(*old(u), i as int).len(),
            forall|m: int|
                0 <= m < issues@.len() ==> (#[trigger] issues@[m]@) == (alloc_full
                    + decimals_issues_prefix(*old(u), i as int))[m],
        decreases u.assets@.len() - i,
    {
        let ghost issues_pre = issues@;
        let kind = infer_asset_kind(u.assets[i].asset_type.as_str());
        let is_token = match kind {
            AssetKind::Fungible => true,
            AssetKind::ChainWrapped => true,
            _ => false,
        };
        if is_token && u.assets[i].decimals == 0 {
            let mut msg = <String as vstd::string::StringExecFns>::from_str("asset_");
            crate::strutil::push_dec_u128(&mut msg, u.assets[i].id as u128);
            vstd::string::StringExecFns::append(&mut msg, "_missing_decimals");
            issues.push(msg);
        }
        proof {
            assert(issues@.len() == alloc_full.len() + decimals_issues_prefix(
                *old(u),
                i + 1,
            ).len());
            assert forall|m: int|
                0 <= m < issues@.len() implies (#[trigger] issues@[m]@) == (alloc_full
                + decimals_issues_prefix(*old(u), i + 1))[m] by {
                if m < issues_pre.len() {
                    assert(issues@[m] == issues_pre[m]);
                    assert((alloc_full + decimals_issues_prefix(*old(u), i + 1))[m] == (alloc_full
                        + decimals_issues_prefix(*old(u), i as int))[m]);
                }
            }
        }
        i = i + 1;
    }
    let ghost base2 = alloc_full + decimals_issues_prefix(*old(u), old(u).assets@.len() as int);
    let mut i: usize = 0;
    while i < u.distributions_v2.len()
        invariant
            i <= u.distributions_v2@.len(),
            *u == *old(u),
            ready == spec_estate_ready(*old(u)),
            base2 == alloc_issues_prefix(*old(u), old(u).distributions_v2@.len() as int)
                + decimals_issues_prefix(*old(u), old(u).assets@.len() as int),
            issues@.len() == base2.len() + principal_issues_prefix(*old(u), i as int).len(),
            forall|m: int|
                0 <= m < issues@.len() ==> (#[trigger] issues@[m]@) == (base2
                    + principal_issues_prefix(*old(u), i as int))[m],
        decreases u.distributions_v2@.len() - i,
    {
        let ghost issues_pre = issues@;
        let hid = u.distributions_v2[i].heir_id;
        let needs_principal = match u.distributions_v2[i].payout_preference {
            PayoutPreference::ToPrincipal => true,
            PayoutPreference::CkWithdraw => true,
            PayoutPreference::ToCustody => false,
        };
        if needs_principal {
            match find_heir_ex(&u.heirs_v2, hid) {
                Some(hi) => {
                    proof {
                        crate::dispatch::lemma_item_heir_principal_hit(
                            u.heirs_v2@,
                            hid,
                            hi as int,
                        );
                    }
                    if u.heirs_v2[hi].principal.is_none() {
                        let mut msg = <String as vstd::string::StringExecFns>::from_str("heir_");
                        crate::strutil::push_dec_u128(&mut msg, hid as u128);
                        vstd::string::StringExecFns::append(&mut msg, "_missing_principal");
                        issues.push(msg);
                    }
                },
                None => {
                    proof {
                        crate::dispatch::lemma_item_heir_principal_miss(u.heirs_v2@, hid);
                    }
                },
            }
        }
        proof {
            assert(issues@.len() == base2.len() + principal_issues_prefix(
                *old(u),
                i + 1,
            ).len());
            assert forall|m: int|
                0 <= m < issues@.len() implies (#[trigger] issues@[m]@) == (base2
                + principal_issues_prefix(*old(u), i + 1))[m] by {
                if m < issues_pre.len() {
                    assert(issues@[m] == issues_pre[m]);
                    assert((base2 + principal_issues_prefix(*old(u), i + 1))[m] == (base2
                        + principal_issues_prefix(*old(u), i as int))[m]);
                }
            }
        }
        i = i + 1;
    }
    let mut cached_issues: Vec<String> = Vec::new();
    let mut k: usize = 0;
    while k < issues.len()
        invariant
            k <= issues@.len(),
            cached_issues@.len() == k,
            forall|m: int| 0 <= m < k ==> cached_issues@[m]@ == issues@[m]@,
            *u == *old(u),
            ready == spec_estate_ready(*old(u)),
        decreases issues@.len() - k,
    {
        cached_issues.push(issues[k].clone());
        k = k + 1;
    }
    u.readiness_cache = Some(
        crate::model::user::ReadinessCache { computed_at: now, ready, issues: cached_issues },
    );
    ReadinessReport { ready, issues }
}

fn find_share_first_for_asset(v: &Vec<DistributionShare>, asset_id: u64, upto: usize) -> (r: bool)
    requires
        upto < v@.len(),
    ensures
        r == (forall|j: int| 0 <= j < upto ==> v@[j].asset_id != asset_id),
{
    let mut j: usize = 0;
    while j < upto
        invariant
            j <= upto,
            upto < v@.len(),
            forall|m: int| 0 <= m < j ==> v@[m].asset_id != asset_id,
        decreases upto - j,
    {
        if v[j].asset_id == asset_id {
            return false;
        }
        j = j + 1;
    }
    true
}


/// Some legacy distribution entry mentions the asset.
pub open spec fn asset_has_legacy_dist(ds: Seq<AssetDistribution>, asset_id: u64) -> bool {
    exists|i: int| 0 <= i < ds.len() && ds[i].asset_id == asset_id
}

/// The assets among the first `j` whose legacy percentage sum is over 100.
pub open spec fn over_allocated_prefix(u: User, j: int) -> Seq<u64>
    decreases j,
{
    if j <= 0 {
        Seq::empty()
    } else {
        over_allocated_prefix(u, j - 1) + if sum_pct_legacy(u.distributions@, u.assets@[j - 1].id)
            > 100 {
            seq![u.assets@[j - 1].id]
        } else {
            Seq::empty()
        }
    }
}

/// The assets among the first `j` whose sum is exactly 100.
pub open spec fn fully_allocated_prefix(u: User, j: int) -> Seq<u64>
    decreases j,
{
    if j <= 0 {
        Seq::empty()
    } else {
        fully_allocated_prefix(u, j - 1) + if sum_pct_legacy(u.distributions@, u.assets@[j - 1].id)
            == 100 {
            seq![u.assets@[j - 1].id]
        } else {
            Seq::empty()
        }
    }
}

/// The assets among the first `j` whose sum sits strictly between 0 and 100.
pub open spec fn partially_allocated_prefix(u: User, j: int) -> Seq<u64>
    decreases j,
{
    if j <= 0 {
        Seq::empty()
    } else {
        partially_allocated_prefix(u, j - 1) + if 0 < sum_pct_legacy(
            u.distributions@,
            u.assets@[j - 1].id,
        ) && sum_pct_legacy(u.distributions@, u.assets@[j - 1].id) < 100 {
            seq![u.assets@[j - 1].id]
        } else {
            Seq::empty()
        }
    }
}

/// The assets among the first `j` no legacy distribution mentions.
pub open spec fn unallocated_prefix(u: User, j: int) -> Seq<u64>
    decreases j,
{
    if j <= 0 {
        Seq::empty()
    } else {
        unallocated_prefix(u, j - 1) + if !asset_has_legacy_dist(
            u.distributions@,
            u.assets@[j - 1].id,
        ) {
            seq![u.assets@[j - 1].id]
        } else {
            Seq::empty()
        }
    }
}

/// The issue a distribution entry raises for a missing asset.
pub open spec fn missing_asset_msg(asset_id: u64) -> Seq<char> {
    "Distribution references missing asset "@ + crate::strutil::dec_of(asset_id as int)
}

/// The issue a distribution entry raises for a missing heir.
pub open spec fn missing_heir_msg(heir_id: u64) -> Seq<char> {
    "Distribution references missing heir "@ + crate::strutil::dec_of(heir_id as int)
}

/// The issue a zero-percentage entry raises.
pub open spec fn zero_pct_msg(asset_id: u64, heir_id: u64) -> Seq<char> {
    "Zero percentage entry asset "@ + crate::strutil::dec_of(asset_id as int) + " heir "@
        + crate::strutil::dec_of(heir_id as int)
}

/// The integrity issues the first `j` legacy distributions raise, in order:
/// a dangling asset, a dangling heir, and a zero percentage each get a line.
pub open spec fn integrity_issues_prefix(u: User, j: int) -> Seq<Seq<char>>
    decreases j,
{
    if j <= 0 {
        Seq::empty()
    } else {
        let d = u.distributions@[j - 1];
        integrity_issues_prefix(u, j - 1) + (if !crate::common::has_asset(u.assets@, d.asset_id) {
            seq![missing_asset_msg(d.asset_id)]
        } else {
            Seq::empty()
        }) + (if !crate::common::has_heir(u.heirs@, d.heir_id) {
            seq![missing_heir_msg(d.heir_id)]
        } else {
            Seq::empty()
        }) + (if d.percentage == 0 {
            seq![zero_pct_msg(d.asset_id, d.heir_id)]
        } else {
            Seq::empty()
        })
    }
}

fn has_legacy_dist_exec(v: &Vec<AssetDistribution>, asset_id: u64) -> (r: bool)
    ensures
        r == asset_has_legacy_dist(v@, asset_id),
{
    let mut i: usize = 0;
    while i < v.len()
        invariant
            i <= v@.len(),
            forall|j: int| 0 <= j < i ==> v@[j].asset_id != asset_id,
        decreases v@.len() - i,
    {
        if v[i].asset_id == asset_id {
            return true;
        }
        i = i + 1;
    }
    false
}

/// Classify every asset by its legacy allocation sum and name each
/// dangling or zero-percentage distribution entry.
#[verifier::rlimit(100)]
#[verifier::spinoff_prover]
pub fn check_integrity(u: &User) -> (r: IntegrityReport)
    requires
        u.assets@.len() <= u64::MAX,
        u.distributions@.len() <= u64::MAX,
    ensures
        r.asset_count == u.assets@.len(),
        r.distribution_count == u.distributions@.len(),
        r.over_allocated_assets@ == over_allocated_prefix(*u, u.assets@.len() as int),
        r.fully_allocated_assets@ == fully_allocated_prefix(*u, u.assets@.len() as int),
        r.partially_allocated_assets@ == partially_allocated_prefix(*u, u.assets@.len() as int),
        r.unallocated_assets@ == unallocated_prefix(*u, u.assets@.len() as int),
        r.issues@.len() == integrity_issues_prefix(*u, u.distributions@.len() as int).len(),
        forall|k: int|
            0 <= k < r.issues@.len() ==> (#[trigger] r.issues@[k]@) == integrity_issues_prefix(
                *u,
                u.distributions@.len() as int,
            )[k],
{
    let mut issues: Vec<String> = Vec::new();
    let mut i: usize = 0;
    while i < u.distributions.len()
        invariant
            i <= u.distributions@.len(),
            issues@.len() == integrity_issues_prefix(*u, i as int).len(),
            forall|k: int|
                0 <= k < issues@.len() ==> (#[trigger] issues@[k]@) == integrity_issues_prefix(
                    *u,
                    i as int,
                )[k],
        decreases u.distributions@.len() - i,
    {
        let ghost pre = issues@;
        let d_asset = u.distributions[i].asset_id;
        let d_heir = u.distributions[i].heir_id;
        let d_pct = u.distributions[i].percentage;
        if crate::common::find_asset(&u.assets, d_asset).is_none() {
            let mut m = <String as StringExecFns>::from_str(
                "Distribution references missing asset ",
            );
            crate::strutil::push_dec_u128(&mut m, d_asset as u128);
            issues.push(m);
        }
        if crate::common::find_heir(&u.heirs, d_heir).is_none() {
            let mut m = <String as StringExecFns>::from_str(
                "Distribution references missing heir ",
            );
            crate::strutil::push_dec_u128(&mut m, d_heir as u128);
            issues.push(m);
        }
        if d_pct == 0 {
            let mut m = <String as StringExecFns>::from_str("Zero percentage entry asset ");
            crate::strutil::push_dec_u128(&mut m, d_asset as u128);
            StringExecFns::append(&mut m, " heir ");
            crate::strutil::push_dec_u128(&mut m, d_heir as u128);
            issues.push(m);
        }
        proof {
            assert(issues@.len() == integrity_issues_prefix(*u, i + 1).len());
            assert forall|k: int|
                0 <= k < issues@.len() implies (#[trigger] issues@[k]@)
                == integrity_issues_prefix(*u, i + 1)[k] by {
                if k < pre.len() {
                    assert(issues@[k] == pre[k]);
                    assert(integrity_issues_prefix(*u, i + 1)[k] == integrity_issues_prefix(
                        *u,
                        i as int,
                    )[k]);
                }
            }
        }
        i = i + 1;
    }
    let mut over: Vec<u64> = Vec::new();
    let mut full: Vec<u64> = Vec::new();
    let mut partial: Vec<u64> = Vec::new();
    let mut unalloc: Vec<u64> = Vec::new();
    let mut a: usize = 0;
    while a < u.assets.len()
        invariant
            a <= u.assets@.len(),
            over@ == over_allocated_prefix(*u, a as int),
            full@ == fully_allocated_prefix(*u, a as int),
            partial@ == partially_allocated_prefix(*u, a as int),
            unalloc@ == unallocated_prefix(*u, a as int),
        decreases u.assets@.len() - a,
    {
        let aid = u.assets[a].id;
        let sum = sum_pct_legacy_exec(&u.distributions, aid);
        if sum > 100 {
            over.push(aid);
        } else if sum == 100 {
            full.push(aid);
        } else if sum > 0 {
            partial.push(aid);
        }
        if !has_legacy_dist_exec(&u.distributions, aid) {
            unalloc.push(aid);
        }
        proof {
            assert(over@ =~= over_allocated_prefix(*u, a + 1));
            assert(full@ =~= fully_allocated_prefix(*u, a + 1));
            assert(partial@ =~= partially_allocated_prefix(*u, a + 1));
            assert(unalloc@ =~= unallocated_prefix(*u, a + 1));
        }
        a = a + 1;
    }
    IntegrityReport {
        asset_count: u.assets.len() as u64,
        distribution_count: u.distributions.len() as u64,
        over_allocated_assets: over,
        fully_allocated_assets: full,
        partially_allocated_assets: partial,
        unallocated_assets: unalloc,
        issues,
    }
}

} // verus!
