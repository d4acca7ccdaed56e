//! Asset CRUD on the user aggregate, and the kind heuristics over the
//! human-facing asset-type label.

use vstd::prelude::*;

use crate::audit::{push_audit, spec_push_audit};
use crate::common::{
    assert_mutable, find_asset, has_asset, is_mutable, next_asset_id, spec_next_asset_id,
};
use crate::model::asset::{Asset, AssetInput, AssetTokenMetaInput};
use crate::model::audit::AuditEventKind;
use crate::model::base::AssetKind;
use crate::model::distribution::{AssetDistribution, DistributionShare};
use crate::model::errors::CivError;
use crate::model::user::User;
use crate::strutil::{lower_of, spec_contains, spec_starts_with, str_contains, str_eq,
    str_starts_with, to_ascii_lower};

verus! {

/// The kind that an asset-type label names: documents, NFTs and
/// chain-wrapped tokens by keyword, anything else fungible.
pub open spec fn spec_infer_asset_kind(s: Seq<char>) -> AssetKind {
    let t = lower_of(s);
    if t == "doc"@ || t == "document"@ {
        AssetKind::Document
    } else if t == "nft"@ || spec_contains(t, "dip721"@) {
        AssetKind::Nft
    } else if spec_starts_with(t, "ckbtc"@) || spec_starts_with(t, "cketh"@) {
        AssetKind::ChainWrapped
    } else {
        AssetKind::Fungible
    }
}

/// Classify an asset-type label, case-insensitively.
pub fn infer_asset_kind(asset_type: &str) -> (r: AssetKind)
    ensures
        r == spec_infer_asset_kind(asset_type@),
{
    let t = to_ascii_lower(asset_type);
    if str_eq(t.as_str(), "doc") || str_eq(t.as_str(), "document") {
        AssetKind::Document
    } else if str_eq(t.as_str(), "nft") || str_contains(t.as_str(), "dip721") {
        AssetKind::Nft
    } else if str_starts_with(t.as_str(), "ckbtc") || str_starts_with(t.as_str(), "cketh") {
        AssetKind::ChainWrapped
    } else {
        AssetKind::Fungible
    }
}

/// Register a new asset. Value and decimals start at their unknown
/// sentinels: the backend never trusts caller-supplied figures, they are
/// filled later through the token-metadata path.
pub fn add_asset(u: &mut User, new_asset: AssetInput, now: u64) -> (r: Result<u64, CivError>)
    ensures
        r is Err <==> !is_mutable(*old(u)),
        r is Err ==> *final(u) == *old(u) && r matches Err(CivError::EstateLocked),
        r is Ok ==> {
            &&& r matches Ok(id) && id == spec_next_asset_id(old(u).assets@)
            &&& *final(u) == (User {
                assets: final(u).assets,
                audit_log: final(u).audit_log,
                ..*old(u)
            })
            &&& final(u).assets@ == old(u).assets@.push(
                Asset {
                    id: spec_next_asset_id(old(u).assets@),
                    name: new_asset.name,
                    asset_type: new_asset.asset_type,
                    kind: new_asset.kind,
                    value: 0u64,
                    decimals: 0u8,
                    description: new_asset.description,
                    created_at: now,
                    updated_at: now,
                    token_canister: new_asset.token_canister,
                    token_id: new_asset.token_id,
                    holding_mode: new_asset.holding_mode,
                    nft_standard: new_asset.nft_standard,
                    chain_wrapped: new_asset.chain_wrapped,
                    file_path: new_asset.file_path,
                },
            )
            &&& final(u).audit_log@ == spec_push_audit(
                old(u).audit_log@,
                AuditEventKind::AssetAdded { asset_id: spec_next_asset_id(old(u).assets@) },
                now,
            )
        },
{
    if let Err(e) = assert_mutable(u) {
        return Err(e);
    }
    let next_id = next_asset_id(&u.assets);
    let AssetInput {
        name,
        asset_type,
        kind,
        value: _,
        decimals: _,
        description,
        token_canister,
        token_id,
        file_path,
        holding_mode,
        nft_standard,
        chain_wrapped,
    } = new_asset;
    u.assets.push(
        Asset {
            id: next_id,
            name,
            asset_type,
            kind,
            value: 0u64,
            decimals: 0u8,
            description,
            created_at: now,
            updated_at: now,
            token_canister,
            token_id,
            holding_mode,
            nft_standard,
            chain_wrapped,
            file_path,
        },
    );
    push_audit(u, AuditEventKind::AssetAdded { asset_id: next_id }, now);
    Ok(next_id)
}

/// The user's assets.
pub fn list_assets(u: &User) -> (r: &Vec<Asset>)
    ensures
        r@ == u.assets@,
{
    &u.assets
}

fn retain_assets_not(v: &mut Vec<Asset>, id: u64)
    ensures
        final(v)@ == old(v)@.filter(|a: Asset| a.id != id),
{
    let ghost pred = |a: Asset| a.id != id;
    let ghost orig = v@;
    let mut i: usize = 0;
    let ghost j: int = 0;
    proof {
        assert(orig.subrange(0, 0).filter(pred) =~= Seq::<Asset>::empty()) by {
            reveal_with_fuel(Seq::<Asset>::filter, 2);
        }
        assert(v@ =~= orig.subrange(0, 0).filter(pred) + orig.skip(0));
    }
    while i < v.len()
        invariant
            pred == (|a: Asset| a.id != id),
            0 <= j <= orig.len(),
            v@ =~= orig.subrange(0, j).filter(pred) + orig.skip(j),
            i == orig.subrange(0, j).filter(pred).len(),
            i <= j,
        decreases orig.len() - j,
    {
        let ghost here = orig[j];
        proof {
            assert(v@[i as int] == orig.skip(j)[0]);
            assert(orig.subrange(0, j + 1) =~= orig.subrange(0, j) + seq![here]);
            Seq::<Asset>::filter_distributes_over_add(orig.subrange(0, j), seq![here], pred);
            assert(seq![here].filter(pred) =~= if pred(here) {
                seq![here]
            } else {
                Seq::<Asset>::empty()
            }) by {
                reveal_with_fuel(Seq::<Asset>::filter, 2);
                assert(seq![here].drop_last() =~= Seq::<Asset>::empty());
            }
        }
        if v[i].id != id {
            i = i + 1;
        } else {
            v.remove(i);
        }
        proof {
            assert(v@ =~= orig.subrange(0, j + 1).filter(pred) + orig.skip(j + 1));
            j = j + 1;
        }
    }
    proof {
        assert(j == orig.len());
        assert(orig.subrange(0, orig.len() as int) =~= orig);
        assert(orig.skip(j) =~= Seq::<Asset>::empty());
        assert(v@ =~= orig.filter(pred));
    }
}

fn retain_shares_not_asset(v: &mut Vec<DistributionShare>, id: u64)
    ensures
        final(v)@ == old(v)@.filter(|d: DistributionShare| d.asset_id != id),
{
    let ghost pred = |d: DistributionShare| d.asset_id != id;
    let ghost orig = v@;
    let mut i: usize = 0;
    let ghost j: int = 0;
    proof {
        assert(orig.subrange(0, 0).filter(pred) =~= Seq::<DistributionShare>::empty()) by {
            reveal_with_fuel(Seq::<DistributionShare>::filter, 2);
        }
        assert(v@ =~= orig.subrange(0, 0).filter(pred) + orig.skip(0));
    }
    while i < v.len()
        invariant
            pred == (|d: DistributionShare| d.asset_id != id),
            0 <= j <= orig.len(),
            v@ =~= orig.subrange(0, j).filter(pred) + orig.skip(j),
            i == orig.subrange(0, j).filter(pred).len(),
            i <= j,
        decreases orig.len() - j,
    {
        let ghost here = orig[j];
        proof {
            assert(v@[i as int] == orig.skip(j)[0]);
            assert(orig.subrange(0, j + 1) =~= orig.subrange(0, j) + seq![here]);
            Seq::<DistributionShare>::filter_distributes_over_add(
                orig.subrange(0, j),
                seq![here],
                pred,
            );
            assert(seq![here].filter(pred) =~= if pred(here) {
                seq![here]
            } else {
                Seq::<DistributionShare>::empty()
            }) by {
                reveal_with_fuel(Seq::<DistributionShare>::filter, 2);
                assert(seq![here].drop_last() =~= Seq::<DistributionShare>::empty());
            }
        }
        if v[i].asset_id != id {
            i = i + 1;
        } else {
            v.remove(i);
        }
        proof {
            assert(v@ =~= orig.subrange(0, j + 1).filter(pred) + orig.skip(j + 1));
            j = j + 1;
        }
    }
    proof {
        assert(j == orig.len());
        assert(orig.subrange(0, orig.len() as int) =~= orig);
        assert(orig.skip(j) =~= Seq::<DistributionShare>::empty());
        assert(v@ =~= orig.filter(pred));
    }
}

fn retain_legacy_dists_not_asset(v: &mut Vec<AssetDistribution>, id: u64)
    ensures
        final(v)@ == old(v)@.filter(|d: AssetDistribution| d.asset_id != id),
{
    let ghost pred = |d: AssetDistribution| d.asset_id != id;
    let ghost orig = v@;
    let mut i: usize = 0;
    let ghost j: int = 0;
    proof {
        assert(orig.subrange(0, 0).filter(pred) =~= Seq::<AssetDistribution>::empty()) by {
            reveal_with_fuel(Seq::<AssetDistribution>::filter, 2);
        }
        assert(v@ =~= orig.subrange(0, 0).filter(pred) + orig.skip(0));
    }
    while i < v.len()
        invariant
            pred == (|d: AssetDistribution| d.asset_id != id),
            0 <= j <= orig.len(),
            v@ =~= orig.subrange(0, j).filter(pred) + orig.skip(j),
            i == orig.subrange(0, j).filter(pred).len(),
            i <= j,
        decreases orig.len() - j,
    {
        let ghost here = orig[j];
        proof {
            assert(v@[i as int] == orig.skip(j)[0]);
            assert(orig.subrange(0, j + 1) =~= orig.subrange(0, j) + seq![here]);
            Seq::<AssetDistribution>::filter_distributes_over_add(
                orig.subrange(0, j),
                seq![here],
                pred,
            );
            assert(seq![here].filter(pred) =~= if pred(here) {
                seq![here]
            } else {
                Seq::<AssetDistribution>::empty()
            }) by {
                reveal_with_fuel(Seq::<AssetDistribution>::filter, 2);
                assert(seq![here].drop_last() =~= Seq::<AssetDistribution>::empty());
            }
        }
        if v[i].asset_id != id {
            i = i + 1;
        } else {
            v.remove(i);
        }
        proof {
            assert(v@ =~= orig.subrange(0, j + 1).filter(pred) + orig.skip(j + 1));
            j = j + 1;
        }
    }
    proof {
        assert(j == orig.len());
        assert(orig.subrange(0, orig.len() as int) =~= orig);
        assert(orig.skip(j) =~= Seq::<AssetDistribution>::empty());
        assert(v@ =~= orig.filter(pred));
    }
}

/// Remove an asset; its distribution shares cascade away with it.
pub fn remove_asset(u: &mut User, asset_id: u64, now: u64) -> (r: Result<(), CivError>)
    ensures
        r is Err ==> *final(u) == *old(u),
        !is_mutable(*old(u)) <==> r matches Err(CivError::EstateLocked),
        is_mutable(*old(u)) && !has_asset(old(u).assets@, asset_id) <==> r matches Err(
            CivError::AssetNotFound,
        ),
        r is Ok <==> is_mutable(*old(u)) && has_asset(old(u).assets@, asset_id),
        r is Ok ==> {
            &&& *final(u) == (User {
                assets: final(u).assets,
                distributions: final(u).distributions,
                distributions_v2: final(u).distributions_v2,
                audit_log: final(u).audit_log,
                ..*old(u)
            })
            &&& final(u).assets@ == old(u).assets@.filter(|a: Asset| a.id != asset_id)
            &&& final(u).distributions@ == old(u).distributions@.filter(
                |d: AssetDistribution| d.asset_id != asset_id,
            )
            &&& final(u).distributions_v2@ == old(u).distributions_v2@.filter(
                |d: DistributionShare| d.asset_id != asset_id,
            )
            &&& final(u).audit_log@ == spec_push_audit(
                old(u).audit_log@,
                AuditEventKind::AssetRemoved { asset_id },
                now,
            )
        },
{
    if let Err(e) = assert_mutable(u) {
        return Err(e);
    }
    if find_asset(&u.assets, asset_id).is_none() {
        return Err(CivError::AssetNotFound);
    }
    retain_assets_not(&mut u.assets, asset_id);
    retain_legacy_dists_not_asset(&mut u.distributions, asset_id);
    retain_shares_not_asset(&mut u.distributions_v2, asset_id);
    push_audit(u, AuditEventKind::AssetRemoved { asset_id }, now);
    Ok(())
}

/// Update the user-editable fields of an asset; value and decimals stay
/// server-managed.
pub fn update_asset(u: &mut User, asset_id: u64, new_asset: AssetInput, now: u64) -> (r: Result<
    (),
    CivError,
>)
    ensures
        r is Err ==> *final(u) == *old(u),
        !is_mutable(*old(u)) <==> r matches Err(CivError::EstateLocked),
        is_mutable(*old(u)) && !has_asset(old(u).assets@, asset_id) <==> r matches Err(
            CivError::AssetNotFound,
        ),
        r is Ok <==> is_mutable(*old(u)) && has_asset(old(u).assets@, asset_id),
        r is Ok ==> {
            &&& *final(u) == (User {
                assets: final(u).assets,
                audit_log: final(u).audit_log,
                ..*old(u)
            })
            &&& exists|i: int|
                {
                    &&& 0 <= i < old(u).assets@.len()
                    &&& old(u).assets@[i].id == asset_id
                    &&& final(u).assets@ =~= old(u).assets@.update(
                        i,
                        Asset {
                            name: new_asset.name,
                            asset_type: new_asset.asset_type,
                            description: new_asset.description,
                            token_canister: if new_asset.token_canister is Some {
                                new_asset.token_canister
                            } else {
                                old(u).assets@[i].token_canister
                            },
                            token_id: if new_asset.token_id is Some {
                                new_asset.token_id
                            } else {
                                old(u).assets@[i].token_id
                            },
                            holding_mode: if new_asset.holding_mode is Some {
                                new_asset.holding_mode
                            } else {
                                old(u).assets@[i].holding_mode
                            },
                            nft_standard: if new_asset.nft_standard is Some {
                                new_asset.nft_standard
                            } else {
                                old(u).assets@[i].nft_standard
                            },
                            chain_wrapped: if new_asset.chain_wrapped is Some {
                                new_asset.chain_wrapped
                            } else {
                                old(u).assets@[i].chain_wrapped
                            },
                            updated_at: now,
                            ..old(u).assets@[i]
                        },
                    )
                }
            &&& final(u).audit_log@ == spec_push_audit(
                old(u).audit_log@,
                AuditEventKind::AssetUpdated { asset_id },
                now,
            )
        },
{
    if let Err(e) = assert_mutable(u) {
        return Err(e);
    }
    let idx = match find_asset(&u.assets, asset_id) {
        Some(i) => i,
        None => {
            return Err(CivError::AssetNotFound);
        },
    };
    let existing = u.assets.remove(idx);
    let AssetInput {
        name,
        asset_type,
        kind: _,
        value: _,
        decimals: _,
        description,
        token_canister,
        token_id,
        file_path: _,
        holding_mode,
        nft_standard,
        chain_wrapped,
    } = new_asset;
    let updated = Asset {
        id: existing.id,
        name,
        asset_type,
        kind: existing.kind,
        value: existing.value,
        decimals: existing.decimals,
        description,
        created_at: existing.created_at,
        updated_at: now,
        token_canister: if token_canister.is_some() {
            token_canister
        } else {
            existing.token_canister
        },
        token_id: if token_id.is_some() {
            token_id
        } else {
            existing.token_id
        },
        holding_mode: if holding_mode.is_some() {
            holding_mode
        } else {
            existing.holding_mode
        },
        nft_standard: if nft_standard.is_some() {
            nft_standard
        } else {
            existing.nft_standard
        },
        chain_wrapped: if chain_wrapped.is_some() {
            chain_wrapped
        } else {
            existing.chain_wrapped
        },
        file_path: existing.file_path,
    };
    u.assets.insert(idx, updated);
    proof {
        assert(u.assets@ =~= old(u).assets@.update(idx as int, u.assets@[idx as int]));
    }
    push_audit(u, AuditEventKind::AssetUpdated { asset_id }, now);
    Ok(())
}

/// Apply token metadata to an asset: canister, token id, holding mode,
/// decimals and standards. Returns the canister to fetch decimals from when
/// they are still unknown.
pub fn update_asset_token_meta(
    u: &mut User,
    asset_id: u64,
    meta: AssetTokenMetaInput,
    now: u64,
) -> (r: Result<Option<String>, CivError>)
    ensures
        r is Err ==> *final(u) == *old(u),
        !is_mutable(*old(u)) <==> r matches Err(CivError::EstateLocked),
        is_mutable(*old(u)) && !has_asset(old(u).assets@, asset_id) <==> r matches Err(
            CivError::AssetNotFound,
        ),
        r is Ok <==> is_mutable(*old(u)) && has_asset(old(u).assets@, asset_id),
        r is Ok ==> {
            &&& *final(u) == (User {
                assets: final(u).assets,
                audit_log: final(u).audit_log,
                ..*old(u)
            })
            &&& exists|i: int|
                {
                    &&& 0 <= i < old(u).assets@.len()
                    &&& old(u).assets@[i].id == asset_id
                    &&& final(u).assets@ =~= old(u).assets@.update(
                        i,
                        Asset {
                            token_canister: meta.token_canister,
                            token_id: meta.token_id,
                            holding_mode: meta.holding_mode,
                            decimals: if meta.decimals is Some {
                                meta.decimals.unwrap()
                            } else {
                                old(u).assets@[i].decimals
                            },
                            nft_standard: if meta.nft_standard is Some {
                                meta.nft_standard
                            } else {
                                old(u).assets@[i].nft_standard
                            },
                            chain_wrapped: if meta.chain_wrapped is Some {
                                meta.chain_wrapped
                            } else {
                                old(u).assets@[i].chain_wrapped
                            },
                            updated_at: now,
                            ..old(u).assets@[i]
                        },
                    )
                    &&& match r {
                        Ok(fetch) => {
                            &&& ((fetch is Some) <==> (final(u).assets@[i].decimals == 0 && final(u).assets@[i].token_canister is Some))
                            &&& ((fetch is Some) ==> fetch == final(u).assets@[i].token_canister)
                        },
                        _ => false,
                    }
                }
            &&& final(u).audit_log@ == spec_push_audit(
                old(u).audit_log@,
                AuditEventKind::AssetMetadataUpdated { asset_id },
                now,
            )
        },
{
    if let Err(e) = assert_mutable(u) {
        return Err(e);
    }
    let idx = match find_asset(&u.assets, asset_id) {
        Some(i) => i,
        None => {
            return Err(CivError::AssetNotFound);
        },
    };
    let existing = u.assets.remove(idx);
    let AssetTokenMetaInput {
        token_canister, token_id, holding_mode, decimals, nft_standard, chain_wrapped } = meta;
    let new_decimals = match decimals {
        Some(d) => d,
        None => existing.decimals,
    };
    let updated = Asset {
        id: existing.id,
        name: existing.name,
        asset_type: existing.asset_type,
        kind: existing.kind,
        value: existing.value,
        decimals: new_decimals,
        description: existing.description,
        created_at: existing.created_at,
        updated_at: now,
        token_canister,
        token_id,
        holding_mode,
        nft_standard: if nft_standard.is_some() {
            nft_standard
        } else {
            existing.nft_standard
        },
        chain_wrapped: if chain_wrapped.is_some() {
            chain_wrapped
        } else {
            existing.chain_wrapped
        },
        file_path: existing.file_path,
    };
    let needs_fetch = updated.decimals == 0 && updated.token_canister.is_some();
    let fetch = if needs_fetch {
        match &updated.token_canister {
            Some(c) => Some(c.clone()),
            None => None,
        }
    } else {
        None
    };
    u.assets.insert(idx, updated);
    proof {
        assert(u.assets@ =~= old(u).assets@.update(idx as int, u.assets@[idx as int]));
    }
    push_audit(u, AuditEventKind::AssetMetadataUpdated { asset_id }, now);
    Ok(fetch)
}

/// Record ledger-fetched decimals for an asset, only while still unknown.
pub fn apply_fetched_decimals(u: &mut User, asset_id: u64, decimals: u8, now: u64)
    ensures
        *final(u) == (User { assets: final(u).assets, ..*old(u) }),
        final(u).assets@.len() == old(u).assets@.len(),
        forall|i: int|
            0 <= i < old(u).assets@.len() ==> final(u).assets@[i] == (if old(u).assets@[i].id
                == asset_id && old(u).assets@[i].decimals == 0 && (forall|j: int|
                0 <= j < i ==> old(u).assets@[j].id != asset_id) {
                Asset { decimals, updated_at: now, ..old(u).assets@[i] }
            } else {
                old(u).assets@[i]
            }),
{
    let idx = match find_asset(&u.assets, asset_id) {
        Some(i) => i,
        None => {
            return ;
        },
    };
    if u.assets[idx].decimals != 0 {
        return ;
    }
    let existing = u.assets.remove(idx);
    let updated = Asset { decimals, updated_at: now, ..existing };
    u.assets.insert(idx, updated);
    proof {
        assert forall|i: int| 0 <= i < old(u).assets@.len() implies final(u).assets@[i] == (if old(
            u,
        ).assets@[i].id == asset_id && old(u).assets@[i].decimals == 0 && (forall|j: int|
            0 <= j < i ==> old(u).assets@[j].id != asset_id) {
            Asset { decimals, updated_at: now, ..old(u).assets@[i] }
        } else {
            old(u).assets@[i]
        }) by {
            assert(final(u).assets@ =~= old(u).assets@.update(
                idx as int,
                final(u).assets@[idx as int],
            ));
        }
    }
}

} // verus!
