//! Upgrade-time schema migration of a restored aggregate, and the
//! store-wide maintenance selections over many users.

use vstd::prelude::*;

use vstd::string::StringExecFns;

use crate::model::asset::Asset;
use crate::model::base::ChainWrappedKind;
use crate::model::errors::CivError;
use crate::model::payout::TransferRecord;
use crate::model::user::{User, CURRENT_SCHEMA_VERSION};
use crate::strutil::{lower_of, spec_starts_with, str_starts_with, to_ascii_lower};

verus! {

/// The chain-wrapped kind an asset-type label implies, for records written
/// before the field existed.
pub open spec fn spec_inferred_chain_kind(label: Seq<char>) -> Option<ChainWrappedKind> {
    let t = lower_of(label);
    if spec_starts_with(t, "ckbtc"@) {
        Some(ChainWrappedKind::CkBtc)
    } else if spec_starts_with(t, "cketh"@) {
        Some(ChainWrappedKind::CkEth)
    } else {
        None
    }
}

fn inferred_chain_kind(label: &str) -> (r: Option<ChainWrappedKind>)
    ensures
        r == spec_inferred_chain_kind(label@),
{
    let t = to_ascii_lower(label);
    if str_starts_with(t.as_str(), "ckbtc") {
        Some(ChainWrappedKind::CkBtc)
    } else if str_starts_with(t.as_str(), "cketh") {
        Some(ChainWrappedKind::CkEth)
    } else {
        None
    }
}

/// What migration does to one asset: a missing chain-wrapped kind fills in
/// from the label; nothing else moves.
pub open spec fn migrated_asset(a: Asset, from_version: u16) -> Asset {
    if from_version < 3 && a.chain_wrapped is None {
        Asset { chain_wrapped: spec_inferred_chain_kind(a.asset_type@), ..a }
    } else {
        a
    }
}

/// What migration does to one transfer record: a missing structured error
/// kind fills in from the legacy code; nothing else moves.
pub open spec fn migrated_transfer(t: TransferRecord, from_version: u16) -> TransferRecord {
    if from_version < 5 && t.error_kind is None && t.error is Some {
        TransferRecord {
            error_kind: match t.error {
                Some(code) => Some(crate::errcodes::spec_from_legacy(code@)),
                None => None,
            },
            ..t
        }
    } else {
        t
    }
}

/// Forward-migrate a restored aggregate to the current schema: the
/// documented transforms run, everything else is preserved exactly, and a
/// second run changes nothing.
pub fn migrate_user(u: &mut User) -> (r: Result<(), CivError>)
    ensures
        old(u).schema_version > CURRENT_SCHEMA_VERSION <==> r is Err,
        r is Err ==> *final(u) == *old(u) && (r matches Err(CivError::Other(m)) && m@
            == "unknown_schema_version"@),
        r is Ok ==> *final(u) == (User {
            assets: final(u).assets,
            transfers: final(u).transfers,
            schema_version: CURRENT_SCHEMA_VERSION,
            ..*old(u)
        }),
        r is Ok ==> final(u).assets@.len() == old(u).assets@.len(),
        r is Ok ==> forall|i: int|
            0 <= i < old(u).assets@.len() ==> final(u).assets@[i] == migrated_asset(
                old(u).assets@[i],
                old(u).schema_version,
            ),
        r is Ok ==> final(u).transfers@.len() == old(u).transfers@.len(),
        r is Ok ==> forall|i: int|
            0 <= i < old(u).transfers@.len() ==> final(u).transfers@[i] == migrated_transfer(
                old(u).transfers@[i],
                old(u).schema_version,
            ),
        old(u).schema_version == CURRENT_SCHEMA_VERSION ==> *final(u) == *old(u) && r is Ok,
{
    if u.schema_version > CURRENT_SCHEMA_VERSION {
        return Err(CivError::Other(<String as StringExecFns>::from_str(
            "unknown_schema_version",
        )));
    }
    let from_version = u.schema_version;
    if from_version < 3 {
        let n = u.assets.len();
        let mut i: usize = 0;
        while i < n
            invariant
                i <= n,
                n == old(u).assets@.len(),
                u.assets@.len() == n,
                from_version == old(u).schema_version,
                from_version < 3,
                *u == (User { assets: u.assets, ..*old(u) }),
                forall|k: int|
                    0 <= k < i ==> u.assets@[k] == migrated_asset(
                        old(u).assets@[k],
                        from_version,
                    ),
                forall|k: int| i <= k < n ==> u.assets@[k] == old(u).assets@[k],
            decreases n - i,
        {
            if u.assets[i].chain_wrapped.is_none() {
                let rec = u.assets.remove(i);
                let kind = inferred_chain_kind(rec.asset_type.as_str());
                u.assets.insert(i, Asset { chain_wrapped: kind, ..rec });
            }
            i = i + 1;
        }
    }
    if from_version < 5 {
        let n = u.transfers.len();
        let mut i: usize = 0;
        while i < n
            invariant
                i <= n,
                n == old(u).transfers@.len(),
                u.transfers@.len() == n,
                from_version == old(u).schema_version,
                from_version < 5,
                from_version >= 3 ==> *u == (User { transfers: u.transfers, ..*old(u) }),
                from_version < 3 ==> *u == (User {
                    assets: u.assets,
                    transfers: u.transfers,
                    ..*old(u)
                }),
                from_version < 3 ==> u.assets@.len() == old(u).assets@.len() && (forall|k: int|
                    0 <= k < old(u).assets@.len() ==> u.assets@[k] == migrated_asset(
                        old(u).assets@[k],
                        from_version,
                    )),
                forall|k: int|
                    0 <= k < i ==> u.transfers@[k] == migrated_transfer(
                        old(u).transfers@[k],
                        from_version,
                    ),
                forall|k: int| i <= k < n ==> u.transfers@[k] == old(u).transfers@[k],
            decreases n - i,
        {
            let fill = u.transfers[i].error_kind.is_none() && u.transfers[i].error.is_some();
            if fill {
                let rec = u.transfers.remove(i);
                let kind = match &rec.error {
                    Some(code) => Some(
                        crate::errcodes::transfer_error_kind_from_legacy(code.as_str()),
                    ),
                    None => None,
                };
                u.transfers.insert(i, TransferRecord { error_kind: kind, ..rec });
            }
            i = i + 1;
        }
    }
    u.schema_version = CURRENT_SCHEMA_VERSION;
    Ok(())
}

/// Migration settles in one pass: at the current version every documented
/// transform is the identity.
pub proof fn law_migration_idempotent(a: Asset, t: TransferRecord)
    ensures
        migrated_asset(a, CURRENT_SCHEMA_VERSION) == a,
        migrated_transfer(t, CURRENT_SCHEMA_VERSION) == t,
{
}

} // verus!
