//! Heir records: CRUD, the throttled secret verification, and principal
//! binding with its custody-release sweep.

use vstd::prelude::*;
use vstd::string::{StrSliceExecFns, StringExecFns};

use crate::audit::{push_audit, spec_push_audit, spec_push_audits};
use crate::common::{
    assert_mutable, find_heir, find_heir_ex, first_heir_at, has_heir, has_heir_ex, is_mutable,
    next_heir_ex_id, next_heir_id, spec_next_heir_ex_id, spec_next_heir_id,
};
use crate::crypto::{constant_time_eq, hash_secret_with_salt, secret_preimage, secret_preimage_chars, sha256_of};
use crate::model::audit::AuditEventKind;
use crate::model::base::{HeirIdentitySecret, HeirSecretStatus};
use crate::model::distribution::{AssetDistribution, DistributionShare};
use crate::model::errors::CivError;
use crate::model::custody::{FungibleCustodyRecord, NftCustodyRecord};
use crate::model::heir::{Heir, HeirAddInputV2, HeirEx, HeirInput};
use crate::model::user::User;
use crate::retry::{enqueue_retry, RetryItem, RetryKind};
use crate::rng::{fill_bytes, rng_wf, Rng};

verus! {

/// A heir secret may be retried freely for an hour; after that the attempt
/// counter resets.
pub const HEIR_SECRET_ATTEMPT_WINDOW_SECS: u64 = 3600;

/// Base backoff after a failed attempt.
pub const HEIR_SECRET_BACKOFF_BASE_SECS: u64 = 30;

/// Backoff cap: six hours.
pub const HEIR_SECRET_BACKOFF_MAX_SECS: u64 = 21600;

/// Backoff after `attempts` tries (counted post-increment): none for the
/// first, then `30 * 2^(attempts-2)` seconds capped at six hours.
pub open spec fn spec_secret_backoff(attempts: u32) -> u64 {
    if attempts <= 1 {
        0u64
    } else {
        let e = if attempts - 2 >= 12 {
            12u32
        } else {
            (attempts - 2) as u32
        };
        let raw = HEIR_SECRET_BACKOFF_BASE_SECS * ((1u64 << e) as int);
        if raw > HEIR_SECRET_BACKOFF_MAX_SECS {
            HEIR_SECRET_BACKOFF_MAX_SECS
        } else {
            raw as u64
        }
    }
}

/// Compute the secret backoff.
pub fn compute_secret_backoff(attempts: u32) -> (r: u64)
    ensures
        r == spec_secret_backoff(attempts),
        r <= HEIR_SECRET_BACKOFF_MAX_SECS,
{
    if attempts <= 1 {
        return 0;
    }
    let e: u32 = if attempts - 2 >= 12 {
        12
    } else {
        attempts - 2
    };
    proof {
        assert(e <= 12 ==> (1u64 << e) >= 1 && (1u64 << e) <= 4096) by (bit_vector);
    }
    let raw = HEIR_SECRET_BACKOFF_BASE_SECS * (1u64 << e);
    if raw > HEIR_SECRET_BACKOFF_MAX_SECS {
        HEIR_SECRET_BACKOFF_MAX_SECS
    } else {
        raw
    }
}

/// The provided secret hashes to the heir's stored hash.
pub open spec fn secret_matches(h: HeirEx, secret: &str) -> bool {
    sha256_of(secret_preimage(h.identity_secret.salt@, secret)) == h.identity_secret.hash@
}

/// Saturating sum of two instants.
pub open spec fn sat_add(a: u64, b: u64) -> u64 {
    if a + b > u64::MAX {
        u64::MAX
    } else {
        (a + b) as u64
    }
}

pub fn sat_add_exec(a: u64, b: u64) -> (r: u64)
    ensures
        r == sat_add(a, b),
{
    if a > u64::MAX - b {
        u64::MAX
    } else {
        a + b
    }
}

/// Register a legacy heir; a placeholder extended record with a pending
/// secret rides along.
pub fn add_heir(u: &mut User, new_heir: HeirInput, rng: &mut Rng, now: u64) -> (r: Result<
    u64,
    CivError,
>)
    requires
        old(rng).seeded,
        rng_wf(*old(rng)),
    ensures
        rng_wf(*final(rng)) && final(rng).seeded,
        r is Err <==> !is_mutable(*old(u)),
        r is Err ==> *final(u) == *old(u) && r matches Err(CivError::EstateLocked),
        r is Ok ==> {
            &&& r matches Ok(id) && id == spec_next_heir_id(old(u).heirs@)
            &&& *final(u) == (User {
                heirs: final(u).heirs,
                heirs_v2: final(u).heirs_v2,
                audit_log: final(u).audit_log,
                ..*old(u)
            })
            &&& final(u).heirs@ == old(u).heirs@.push(
                Heir {
                    id: spec_next_heir_id(old(u).heirs@),
                    name: new_heir.name,
                    relationship: new_heir.relationship,
                    email: new_heir.email,
                    phone: new_heir.phone,
                    address: new_heir.address,
                    created_at: now,
                    updated_at: now,
                },
            )
            &&& final(u).heirs_v2@.len() == old(u).heirs_v2@.len() + 1
            &&& final(u).heirs_v2@.drop_last() == old(u).heirs_v2@
            &&& ({
                let he = final(u).heirs_v2@.last();
                &&& he.id == spec_next_heir_id(old(u).heirs@)
                &&& he.name@ == new_heir.name@
                &&& he.principal is None
                &&& he.identity_secret.status == HeirSecretStatus::Pending
                &&& he.identity_secret.attempts == 0
                &&& he.identity_secret.salt@.len() == 16
                &&& he.identity_secret.hash@ == sha256_of(
                    secret_preimage(he.identity_secret.salt@, "PENDING"),
                )
            })
            &&& final(u).audit_log@ == spec_push_audit(
                old(u).audit_log@,
                AuditEventKind::HeirAdded { heir_id: spec_next_heir_id(old(u).heirs@) },
                now,
            )
        },
{
    if let Err(e) = assert_mutable(u) {
        return Err(e);
    }
    let next_id = next_heir_id(&u.heirs);
    let HeirInput { name, relationship, email, phone, address } = new_heir;
    u.heirs.push(
        Heir {
            id: next_id,
            name: name.clone(),
            relationship: relationship.clone(),
            email: email.clone(),
            phone: phone.clone(),
            address: address.clone(),
            created_at: now,
            updated_at: now,
        },
    );
    let salt = fill_bytes(rng, 16);
    let placeholder_hash = hash_secret_with_salt("PENDING", salt.as_slice());
    u.heirs_v2.push(
        HeirEx {
            id: next_id,
            name,
            relationship,
            email,
            phone,
            address,
            principal: None,
            identity_secret: HeirIdentitySecret {
                kind: String::from_str("PENDING"),
                hash: placeholder_hash,
                salt,
                status: HeirSecretStatus::Pending,
                updated_at: now,
                attempts: 0,
                last_attempt_at: None,
                next_allowed_attempt_at: None,
            },
            identity_hash: None,
            identity_salt: None,
            notes: None,
            created_at: now,
            updated_at: now,
        },
    );
    push_audit(u, AuditEventKind::HeirAdded { heir_id: next_id }, now);
    Ok(next_id)
}

/// Whether a string is blank: empty or ASCII whitespace only.
pub open spec fn is_blank(s: Seq<char>) -> bool {
    forall|i: int| 0 <= i < s.len() ==> s[i] == ' ' || s[i] == '\t' || s[i] == '\n' || s[i] == '\r'
}

fn is_blank_exec(s: &str) -> (r: bool)
    ensures
        r == is_blank(s@),
{
    let len = s.unicode_len();
    let mut i: usize = 0;
    while i < len
        invariant
            i <= len,
            len == s@.len(),
            forall|j: int| 0 <= j < i ==> s@[j] == ' ' || s@[j] == '\t' || s@[j] == '\n' || s@[j] == '\r',
        decreases len - i,
    {
        let c = s.get_char(i);
        if !(c == ' ' || c == '\t' || c == '\n' || c == '\r') {
            return false;
        }
        i = i + 1;
    }
    true
}

/// Register an extended heir with a salted secret hash and an optional
/// identity-claim hash. A blank secret is rejected.
pub fn add_heir_v2(u: &mut User, input: HeirAddInputV2, rng: &mut Rng, now: u64) -> (r: Result<
    u64,
    CivError,
>)
    requires
        old(rng).seeded,
        rng_wf(*old(rng)),
    ensures
        rng_wf(*final(rng)) && final(rng).seeded,
        r is Err ==> *final(u) == *old(u),
        !is_mutable(*old(u)) <==> r matches Err(CivError::EstateLocked),
        is_mutable(*old(u)) && is_blank(input.secret_plain@) <==> r matches Err(
            CivError::SecretInvalid,
        ),
        r is Ok <==> is_mutable(*old(u)) && !is_blank(input.secret_plain@),
        r is Ok ==> {
            &&& r matches Ok(id) && id == spec_next_heir_ex_id(old(u).heirs_v2@)
            &&& *final(u) == (User {
                heirs_v2: final(u).heirs_v2,
                audit_log: final(u).audit_log,
                ..*old(u)
            })
            &&& final(u).heirs_v2@.len() == old(u).heirs_v2@.len() + 1
            &&& final(u).heirs_v2@.drop_last() == old(u).heirs_v2@
            &&& ({
                let he = final(u).heirs_v2@.last();
                &&& he.id == spec_next_heir_ex_id(old(u).heirs_v2@)
                &&& he.name@ == input.name@
                &&& he.principal == input.heir_principal
                &&& he.identity_secret.kind@ == input.secret_kind@
                &&& he.identity_secret.status == HeirSecretStatus::Pending
                &&& he.identity_secret.attempts == 0
                &&& he.identity_secret.salt@.len() == 16
                &&& he.identity_secret.hash@ == sha256_of(
                    secret_preimage_chars(he.identity_secret.salt@, input.secret_plain@),
                )
                &&& (match (input.identity_claim, he.identity_hash, he.identity_salt) {
                    (Some(claim), Some(ih), Some(isalt)) => !is_blank(claim@) && isalt@.len() == 16
                        && ih@ == sha256_of(secret_preimage_chars(isalt@, claim@)),
                    (Some(claim), None, None) => is_blank(claim@),
                    (None, None, None) => true,
                    _ => false,
                })
            })
            &&& final(u).audit_log@ == spec_push_audit(
                old(u).audit_log@,
                AuditEventKind::HeirAdded { heir_id: spec_next_heir_ex_id(old(u).heirs_v2@) },
                now,
            )
        },
{
    if let Err(e) = assert_mutable(u) {
        return Err(e);
    }
    if is_blank_exec(input.secret_plain.as_str()) {
        return Err(CivError::SecretInvalid);
    }
    let next_id = next_heir_ex_id(&u.heirs_v2);
    let salt = fill_bytes(rng, 16);
    let hash = hash_secret_with_salt(input.secret_plain.as_str(), salt.as_slice());
    let HeirAddInputV2 {
        name,
        relationship,
        email,
        phone,
        address,
        heir_principal,
        secret_kind,
        secret_plain: _,
        identity_claim,
        notes,
    } = input;
    let (identity_hash, identity_salt) = match &identity_claim {
        Some(claim) => {
            if !is_blank_exec(claim.as_str()) {
                let salt_id = fill_bytes(rng, 16);
                let hash_id = hash_secret_with_salt(claim.as_str(), salt_id.as_slice());
                (Some(hash_id), Some(salt_id))
            } else {
                (None, None)
            }
        },
        None => (None, None),
    };
    u.heirs_v2.push(
        HeirEx {
            id: next_id,
            name,
            relationship,
            email,
            phone,
            address,
            principal: heir_principal,
            identity_secret: HeirIdentitySecret {
                kind: secret_kind,
                hash,
                salt,
                status: HeirSecretStatus::Pending,
                updated_at: now,
                attempts: 0,
                last_attempt_at: None,
                next_allowed_attempt_at: None,
            },
            identity_hash,
            identity_salt,
            notes,
            created_at: now,
            updated_at: now,
        },
    );
    push_audit(u, AuditEventKind::HeirAdded { heir_id: next_id }, now);
    Ok(next_id)
}

/// The throttle is open at `now` for this secret.
pub open spec fn throttle_open(sec: HeirIdentitySecret, now: u64) -> bool {
    match sec.next_allowed_attempt_at {
        Some(na) => now >= na,
        None => true,
    }
}

/// Attempt counter after the rolling window: reset when the last attempt
/// is more than an hour gone.
pub open spec fn windowed_attempts(sec: HeirIdentitySecret, now: u64) -> u32 {
    match sec.last_attempt_at {
        Some(last) => {
            if (if now >= last {
                now - last
            } else {
                0
            }) > HEIR_SECRET_ATTEMPT_WINDOW_SECS {
                0u32
            } else {
                sec.attempts
            }
        },
        None => sec.attempts,
    }
}

/// The secret state after one counted attempt: the counter moves within
/// the rolling window and the next allowed instant follows from the new
/// count's backoff.
pub open spec fn attempted_secret(sec: HeirIdentitySecret, now: u64) -> HeirIdentitySecret {
    let attempts = crate::retry::sat_add_u32(windowed_attempts(sec, now), 1);
    let delay = spec_secret_backoff(attempts);
    HeirIdentitySecret {
        attempts,
        last_attempt_at: Some(now),
        next_allowed_attempt_at: if delay > 0 {
            Some(sat_add(now, delay))
        } else {
            sec.next_allowed_attempt_at
        },
        ..sec
    }
}

/// The secret state verification success leaves behind: verified, counters
/// cleared.
pub open spec fn verified_secret(sec: HeirIdentitySecret, now: u64) -> HeirIdentitySecret {
    HeirIdentitySecret {
        status: HeirSecretStatus::Verified,
        updated_at: now,
        attempts: 0,
        last_attempt_at: Some(now),
        next_allowed_attempt_at: None,
        ..sec
    }
}

/// Owner-side verification of an heir's secret, throttled with exponential
/// backoff. `Ok(true)` exactly when the hash matches.
pub fn verify_heir_secret(u: &mut User, heir_id: u64, secret_plain: &str, now: u64) -> (r: Result<
    bool,
    CivError,
>)
    ensures
        !has_heir_ex(old(u).heirs_v2@, heir_id) <==> r matches Err(CivError::HeirNotFound),
        r matches Err(CivError::HeirNotFound) ==> *final(u) == *old(u),
        r is Ok <==> (exists|i: int|
            #[trigger] first_heir_at(old(u).heirs_v2@, heir_id, i) && throttle_open(
                old(u).heirs_v2@[i].identity_secret,
                now,
            )),
        ({
            let hit = exists|i: int|
                {
                    &&& 0 <= i < old(u).heirs_v2@.len()
                    &&& old(u).heirs_v2@[i].id == heir_id
                    &&& (forall|j: int| 0 <= j < i ==> old(u).heirs_v2@[j].id != heir_id)
                    &&& !throttle_open(old(u).heirs_v2@[i].identity_secret, now)
                };
            &&& (hit <==> r matches Err(CivError::RateLimited))
            &&& (r matches Err(CivError::RateLimited) ==> *final(u) == (User {
                audit_log: final(u).audit_log,
                ..*old(u)
            }))
        }),
        r is Ok ==> exists|i: int|
            {
                &&& 0 <= i < old(u).heirs_v2@.len()
                &&& old(u).heirs_v2@[i].id == heir_id
                &&& (forall|j: int| 0 <= j < i ==> old(u).heirs_v2@[j].id != heir_id)
                &&& throttle_open(old(u).heirs_v2@[i].identity_secret, now)
                &&& (r matches Ok(b) && b == secret_matches(old(u).heirs_v2@[i], secret_plain))
                &&& *final(u) == (User {
                    heirs_v2: final(u).heirs_v2,
                    audit_log: final(u).audit_log,
                    ..*old(u)
                })
                &&& ({
                    let he = old(u).heirs_v2@[i];
                    let matched = secret_matches(he, secret_plain);
                    if matched && he.identity_secret.status != HeirSecretStatus::Verified {
                        final(u).heirs_v2@ =~= old(u).heirs_v2@.update(
                            i,
                            HeirEx {
                                identity_secret: verified_secret(he.identity_secret, now),
                                ..he
                            },
                        )
                    } else if matched {
                        final(u).heirs_v2@ =~= old(u).heirs_v2@.update(
                            i,
                            HeirEx {
                                identity_secret: attempted_secret(he.identity_secret, now),
                                ..he
                            },
                        )
                    } else {
                        final(u).heirs_v2@ =~= old(u).heirs_v2@.update(
                            i,
                            HeirEx {
                                identity_secret: attempted_secret(he.identity_secret, now),
                                ..he
                            },
                        )
                    }
                })
            },
{
    let idx = match find_heir_ex(&u.heirs_v2, heir_id) {
        Some(i) => i,
        None => {
            return Err(CivError::HeirNotFound);
        },
    };
    proof {
        assert(first_heir_at(u.heirs_v2@, heir_id, idx as int));
        assert forall|hi: int| #[trigger] first_heir_at(u.heirs_v2@, heir_id, hi) implies hi
            == idx as int by {
            if hi < idx as int {
                assert(u.heirs_v2@[hi].id == heir_id);
            }
            if hi > idx as int {
                assert(u.heirs_v2@[idx as int].id != heir_id);
            }
        }
    }
    let gate = match u.heirs_v2[idx].identity_secret.next_allowed_attempt_at {
        Some(na) => now < na,
        None => false,
    };
    if gate {
        let wait = match u.heirs_v2[idx].identity_secret.next_allowed_attempt_at {
            Some(na) => {
                if na >= now {
                    na - now
                } else {
                    0
                }
            },
            None => 0,
        };
        let stored = u.heirs_v2[idx].identity_secret.attempts;
        let attempts = if stored == u32::MAX {
            u32::MAX
        } else {
            stored + 1
        };
        push_audit(
            u,
            AuditEventKind::HeirSecretBackoffRateLimited { heir_id, attempts, wait_secs: wait },
            now,
        );
        return Err(CivError::RateLimited);
    }
    let he = u.heirs_v2.remove(idx);
    let was_verified = he.identity_secret.status == HeirSecretStatus::Verified;
    let windowed = match he.identity_secret.last_attempt_at {
        Some(last) => {
            let aged = if now >= last {
                now - last
            } else {
                0
            };
            if aged > HEIR_SECRET_ATTEMPT_WINDOW_SECS {
                0
            } else {
                he.identity_secret.attempts
            }
        },
        None => he.identity_secret.attempts,
    };
    let attempts = if windowed == u32::MAX {
        u32::MAX
    } else {
        windowed + 1
    };
    let delay = compute_secret_backoff(attempts);
    let recomputed = hash_secret_with_salt(secret_plain, he.identity_secret.salt.as_slice());
    let matched = constant_time_eq(recomputed.as_slice(), he.identity_secret.hash.as_slice());
    let new_secret = if matched && !was_verified {
        HeirIdentitySecret {
            status: HeirSecretStatus::Verified,
            updated_at: now,
            attempts: 0,
            last_attempt_at: Some(now),
            next_allowed_attempt_at: None,
            ..he.identity_secret
        }
    } else {
        HeirIdentitySecret {
            attempts,
            last_attempt_at: Some(now),
            next_allowed_attempt_at: if delay > 0 {
                Some(sat_add_exec(now, delay))
            } else {
                he.identity_secret.next_allowed_attempt_at
            },
            ..he.identity_secret
        }
    };
    let newly_verified = matched && !was_verified;
    let updated = HeirEx { identity_secret: new_secret, ..he };
    u.heirs_v2.insert(idx, updated);
    proof {
        assert(u.heirs_v2@ =~= old(u).heirs_v2@.update(idx as int, u.heirs_v2@[idx as int]));
    }
    if newly_verified {
        push_audit(u, AuditEventKind::HeirSecretVerified { heir_id }, now);
    }
    Ok(matched)
}

/// Owner-side principal binding; the secret must be verified first. All
/// pending custody for the heir gets fresh release retries, so the new
/// principal unblocks them.
pub fn bind_heir_principal(u: &mut User, heir_id: u64, principal: String, now: u64) -> (r: Result<
    (),
    CivError,
>)
    ensures
        r is Err ==> *final(u) == *old(u),
        !is_mutable(*old(u)) <==> r matches Err(CivError::EstateLocked),
        r is Ok ==> {
            &&& *final(u) == (User {
                heirs_v2: final(u).heirs_v2,
                retry_queue: final(u).retry_queue,
                retry_seq: final(u).retry_seq,
                audit_log: final(u).audit_log,
                ..*old(u)
            })
            &&& exists|i: int|
                {
                    &&& 0 <= i < old(u).heirs_v2@.len()
                    &&& old(u).heirs_v2@[i].id == heir_id
                    &&& old(u).heirs_v2@[i].identity_secret.status == HeirSecretStatus::Verified
                    &&& final(u).heirs_v2@ =~= old(u).heirs_v2@.update(
                        i,
                        HeirEx {
                            principal: Some(principal),
                            updated_at: now,
                            ..old(u).heirs_v2@[i]
                        },
                    )
                }
        },
        r is Ok ==> is_mutable(*old(u)) && has_heir_ex(old(u).heirs_v2@, heir_id),
        r is Ok <==> is_mutable(*old(u)) && (exists|i: int|
            #[trigger] first_heir_at(old(u).heirs_v2@, heir_id, i) && old(
                u,
            ).heirs_v2@[i].identity_secret.status == HeirSecretStatus::Verified),
        r is Ok ==> exists|ks: Seq<AuditEventKind>|
            final(u).audit_log@ == #[trigger] spec_push_audits(
                spec_push_audit(
                    old(u).audit_log@,
                    AuditEventKind::HeirPrincipalBound { heir_id },
                    now,
                ),
                ks,
                now,
            ) && (forall|t: int|
                0 <= t < ks.len() ==> (#[trigger] ks[t] matches AuditEventKind::RetryAttempt {
                    ..
                })),
{
    if let Err(e) = assert_mutable(u) {
        return Err(e);
    }
    let idx = match find_heir_ex(&u.heirs_v2, heir_id) {
        Some(i) => i,
        None => {
            return Err(CivError::HeirNotFound);
        },
    };
    proof {
        assert(first_heir_at(u.heirs_v2@, heir_id, idx as int));
        assert forall|hi: int| #[trigger] first_heir_at(u.heirs_v2@, heir_id, hi) implies hi
            == idx as int by {
            if hi < idx as int {
                assert(u.heirs_v2@[hi].id == heir_id);
            }
            if hi > idx as int {
                assert(u.heirs_v2@[idx as int].id != heir_id);
            }
        }
    }
    if !(u.heirs_v2[idx].identity_secret.status == HeirSecretStatus::Verified) {
        return Err(CivError::SecretInvalid);
    }
    let he = u.heirs_v2.remove(idx);
    let updated = HeirEx { principal: Some(principal), updated_at: now, ..he };
    u.heirs_v2.insert(idx, updated);
    proof {
        assert(u.heirs_v2@ =~= old(u).heirs_v2@.update(idx as int, u.heirs_v2@[idx as int]));
    }
    push_audit(u, AuditEventKind::HeirPrincipalBound { heir_id }, now);
    sweep_enqueue_pending_custody(u, heir_id, now);
    Ok(())
}

/// The asset ids of the heir's unreleased fungible custody among the
/// first `j` records, in order.
pub open spec fn sweep_fungible_assets(
    q: Seq<FungibleCustodyRecord>,
    heir_id: u64,
    j: int,
) -> Seq<u64>
    decreases j,
{
    if j <= 0 {
        Seq::empty()
    } else {
        sweep_fungible_assets(q, heir_id, j - 1) + if q[j - 1].heir_id == heir_id && q[j
            - 1].released_at is None {
            seq![q[j - 1].asset_id]
        } else {
            Seq::empty()
        }
    }
}

/// The (asset, token) pairs of the heir's unreleased NFT custody among the
/// first `j` records, in order.
pub open spec fn sweep_nft_pairs(q: Seq<NftCustodyRecord>, heir_id: u64, j: int) -> Seq<(u64, u64)>
    decreases j,
{
    if j <= 0 {
        Seq::empty()
    } else {
        sweep_nft_pairs(q, heir_id, j - 1) + if q[j - 1].heir_id == heir_id && q[j
            - 1].released_at is None {
            seq![(q[j - 1].asset_id, q[j - 1].token_id)]
        } else {
            Seq::empty()
        }
    }
}

/// Enqueue release retries for every unreleased custody record of an heir:
/// one fungible-release retry per unreleased fungible record, then one
/// NFT-release retry per unreleased NFT record, in queue order; the log
/// only gains the enqueue events.
pub fn sweep_enqueue_pending_custody(u: &mut User, heir_id: u64, now: u64)
    ensures
        *final(u) == (User {
            retry_queue: final(u).retry_queue,
            retry_seq: final(u).retry_seq,
            audit_log: final(u).audit_log,
            ..*old(u)
        }),
        ({
            let base = match old(u).retry_queue {
                Some(v) => v@,
                None => Seq::<RetryItem>::empty(),
            };
            let fs = sweep_fungible_assets(
                old(u).fungible_custody@,
                heir_id,
                old(u).fungible_custody@.len() as int,
            );
            let ns = sweep_nft_pairs(
                old(u).nft_custody@,
                heir_id,
                old(u).nft_custody@.len() as int,
            );
            final(u).retry_queue matches Some(q2) && ({
                &&& q2@.len() == base.len() + fs.len() + ns.len()
                &&& (forall|t: int| 0 <= t < base.len() ==> #[trigger] q2@[t] == base[t])
                &&& (forall|t: int|
                    #![trigger fs[t]]
                    0 <= t < fs.len() ==> ({
                        let it = q2@[base.len() + t];
                        &&& it.kind == (RetryKind::FungibleCustodyRelease {
                            asset_id: fs[t],
                            heir_id,
                        })
                        &&& it.attempts == 0
                        &&& !it.terminal
                        &&& it.created_at == now
                    }))
                &&& (forall|t: int|
                    #![trigger ns[t]]
                    0 <= t < ns.len() ==> ({
                        let it = q2@[base.len() + fs.len() + t];
                        &&& it.kind == (RetryKind::NftCustodyRelease {
                            asset_id: ns[t].0,
                            heir_id,
                            token_id: ns[t].1,
                        })
                        &&& it.attempts == 0
                        &&& !it.terminal
                        &&& it.created_at == now
                    }))
            })
        }),
        exists|ks: Seq<AuditEventKind>|
            final(u).audit_log@ == #[trigger] spec_push_audits(old(u).audit_log@, ks, now) && (
            forall|t: int|
                0 <= t < ks.len() ==> (#[trigger] ks[t] matches AuditEventKind::RetryAttempt {
                    ..
                })),
{
    let ghost base = match old(u).retry_queue {
        Some(v) => v@,
        None => Seq::<RetryItem>::empty(),
    };
    if u.retry_queue.is_none() {
        u.retry_queue = Some(Vec::new());
    }
    let mut targets_f: Vec<u64> = Vec::new();
    let mut i: usize = 0;
    while i < u.fungible_custody.len()
        invariant
            i <= u.fungible_custody@.len(),
            u.fungible_custody@ == old(u).fungible_custody@,
            targets_f@ == sweep_fungible_assets(old(u).fungible_custody@, heir_id, i as int),
            *u == (User { retry_queue: u.retry_queue, ..*old(u) }),
            u.retry_queue matches Some(q) && q@ == base,
        decreases u.fungible_custody@.len() - i,
    {
        if u.fungible_custody[i].heir_id == heir_id && u.fungible_custody[i].released_at.is_none()
        {
            targets_f.push(u.fungible_custody[i].asset_id);
        }
        proof {
            assert(targets_f@ =~= sweep_fungible_assets(
                old(u).fungible_custody@,
                heir_id,
                i + 1,
            ));
        }
        i = i + 1;
    }
    let mut targets_n: Vec<(u64, u64)> = Vec::new();
    let mut i: usize = 0;
    while i < u.nft_custody.len()
        invariant
            i <= u.nft_custody@.len(),
            u.nft_custody@ == old(u).nft_custody@,
            targets_n@ == sweep_nft_pairs(old(u).nft_custody@, heir_id, i as int),
            *u == (User { retry_queue: u.retry_queue, ..*old(u) }),
            u.retry_queue matches Some(q) && q@ == base,
        decreases u.nft_custody@.len() - i,
    {
        if u.nft_custody[i].heir_id == heir_id && u.nft_custody[i].released_at.is_none() {
            targets_n.push((u.nft_custody[i].asset_id, u.nft_custody[i].token_id));
        }
        proof {
            assert(targets_n@ =~= sweep_nft_pairs(old(u).nft_custody@, heir_id, i + 1));
        }
        i = i + 1;
    }
    let ghost fs = sweep_fungible_assets(
        old(u).fungible_custody@,
        heir_id,
        old(u).fungible_custody@.len() as int,
    );
    let ghost ns = sweep_nft_pairs(old(u).nft_custody@, heir_id, old(u).nft_custody@.len() as int);
    let ghost mut ks: Seq<AuditEventKind> = Seq::empty();
    proof {
        assert(u.audit_log@ == spec_push_audits(old(u).audit_log@, ks, now));
    }
    let mut k: usize = 0;
    while k < targets_f.len()
        invariant
            k <= targets_f@.len(),
            targets_f@ == fs,
            targets_n@ == ns,
            *u == (User {
                retry_queue: u.retry_queue,
                retry_seq: u.retry_seq,
                audit_log: u.audit_log,
                ..*old(u)
            }),
            u.retry_queue matches Some(q) && ({
                &&& q@.len() == base.len() + k
                &&& (forall|t: int| 0 <= t < base.len() ==> #[trigger] q@[t] == base[t])
                &&& (forall|t: int|
                    #![trigger fs[t]]
                    0 <= t < k ==> ({
                        let it = q@[base.len() + t];
                        &&& it.kind == (RetryKind::FungibleCustodyRelease {
                            asset_id: fs[t],
                            heir_id,
                        })
                        &&& it.attempts == 0
                        &&& !it.terminal
                        &&& it.created_at == now
                    }))
            }),
            u.audit_log@ == spec_push_audits(old(u).audit_log@, ks, now),
            forall|t: int|
                0 <= t < ks.len() ==> (#[trigger] ks[t] matches AuditEventKind::RetryAttempt {
                    ..
                }),
        decreases targets_f@.len() - k,
    {
        let ghost pre_log = u.audit_log@;
        enqueue_retry(
            u,
            RetryKind::FungibleCustodyRelease { asset_id: targets_f[k], heir_id },
            1,
            now,
        );
        proof {
            let kk = choose|kv: AuditEventKind|
                u.audit_log@ == #[trigger] spec_push_audit(pre_log, kv, now) && (
                kv matches AuditEventKind::RetryAttempt { .. });
            crate::audit::lemma_push_audits_snoc(old(u).audit_log@, ks, kk, now);
            ks = ks.push(kk);
        }
        k = k + 1;
    }
    let mut k: usize = 0;
    while k < targets_n.len()
        invariant
            k <= targets_n@.len(),
            targets_f@ == fs,
            targets_n@ == ns,
            *u == (User {
                retry_queue: u.retry_queue,
                retry_seq: u.retry_seq,
                audit_log: u.audit_log,
                ..*old(u)
            }),
            u.retry_queue matches Some(q) && ({
                &&& q@.len() == base.len() + fs.len() + k
                &&& (forall|t: int| 0 <= t < base.len() ==> #[trigger] q@[t] == base[t])
                &&& (forall|t: int|
                    #![trigger fs[t]]
                    0 <= t < fs.len() ==> ({
                        let it = q@[base.len() + t];
                        &&& it.kind == (RetryKind::FungibleCustodyRelease {
                            asset_id: fs[t],
                            heir_id,
                        })
                        &&& it.attempts == 0
                        &&& !it.terminal
                        &&& it.created_at == now
                    }))
                &&& (forall|t: int|
                    #![trigger ns[t]]
                    0 <= t < k ==> ({
                        let it = q@[base.len() + fs.len() + t];
                        &&& it.kind == (RetryKind::NftCustodyRelease {
                            asset_id: ns[t].0,
                            heir_id,
                            token_id: ns[t].1,
                        })
                        &&& it.attempts == 0
                        &&& !it.terminal
                        &&& it.created_at == now
                    }))
            }),
            u.audit_log@ == spec_push_audits(old(u).audit_log@, ks, now),
            forall|t: int|
                0 <= t < ks.len() ==> (#[trigger] ks[t] matches AuditEventKind::RetryAttempt {
                    ..
                }),
        decreases targets_n@.len() - k,
    {
        let ghost pre_log = u.audit_log@;
        enqueue_retry(
            u,
            RetryKind::NftCustodyRelease {
                asset_id: targets_n[k].0,
                heir_id,
                token_id: targets_n[k].1,
            },
            1,
            now,
        );
        proof {
            let kk = choose|kv: AuditEventKind|
                u.audit_log@ == #[trigger] spec_push_audit(pre_log, kv, now) && (
                kv matches AuditEventKind::RetryAttempt { .. });
            crate::audit::lemma_push_audits_snoc(old(u).audit_log@, ks, kk, now);
            ks = ks.push(kk);
        }
        k = k + 1;
    }
}

/// The user's legacy heirs.
pub fn list_heirs(u: &User) -> (r: &Vec<Heir>)
    ensures
        r@ == u.heirs@,
{
    &u.heirs
}

/// The user's extended heirs.
pub fn list_heirs_v2(u: &User) -> (r: &Vec<HeirEx>)
    ensures
        r@ == u.heirs_v2@,
{
    &u.heirs_v2
}

/// Remove an heir from both lists; their distribution entries cascade away.
pub fn remove_heir(u: &mut User, heir_id: u64, now: u64) -> (r: Result<(), CivError>)
    ensures
        r is Err ==> *final(u) == *old(u),
        !is_mutable(*old(u)) <==> r matches Err(CivError::EstateLocked),
        r is Ok <==> is_mutable(*old(u)) && (has_heir(old(u).heirs@, heir_id) || has_heir_ex(
            old(u).heirs_v2@,
            heir_id,
        )),
        is_mutable(*old(u)) && !has_heir(old(u).heirs@, heir_id) && !has_heir_ex(
            old(u).heirs_v2@,
            heir_id,
        ) <==> r matches Err(CivError::HeirNotFound),
        r is Ok ==> {
            &&& *final(u) == (User {
                heirs: final(u).heirs,
                heirs_v2: final(u).heirs_v2,
                distributions: final(u).distributions,
                distributions_v2: final(u).distributions_v2,
                audit_log: final(u).audit_log,
                ..*old(u)
            })
            &&& final(u).heirs@ == old(u).heirs@.filter(|h: Heir| h.id != heir_id)
            &&& final(u).heirs_v2@ == old(u).heirs_v2@.filter(|h: HeirEx| h.id != heir_id)
            &&& final(u).distributions@ == old(u).distributions@.filter(
                |d: AssetDistribution| d.heir_id != heir_id,
            )
            &&& final(u).distributions_v2@ == old(u).distributions_v2@.filter(
                |d: DistributionShare| d.heir_id != heir_id,
            )
            &&& final(u).audit_log@ == spec_push_audit(
                old(u).audit_log@,
                AuditEventKind::HeirRemoved { heir_id },
                now,
            )
        },
{
    if let Err(e) = assert_mutable(u) {
        return Err(e);
    }
    let in_legacy = find_heir(&u.heirs, heir_id).is_some();
    let in_v2 = find_heir_ex(&u.heirs_v2, heir_id).is_some();
    if !in_legacy && !in_v2 {
        return Err(CivError::HeirNotFound);
    }
    retain_heirs_not(&mut u.heirs, heir_id);
    retain_heirs_v2_not(&mut u.heirs_v2, heir_id);
    retain_legacy_not_heir(&mut u.distributions, heir_id);
    retain_shares_not_heir(&mut u.distributions_v2, heir_id);
    push_audit(u, AuditEventKind::HeirRemoved { heir_id }, now);
    Ok(())
}

#[verifier::rlimit(60)]
fn retain_heirs_not(v: &mut Vec<Heir>, id: u64)
    ensures
        final(v)@ == old(v)@.filter(|h: Heir| h.id != id),
{
    let ghost pred = |h: Heir| h.id != id;
    let ghost orig = v@;
    let mut i: usize = 0;
    let ghost j: int = 0;
    proof {
        assert(orig.subrange(0, 0).filter(pred) =~= Seq::<Heir>::empty()) by {
            reveal_with_fuel(Seq::<Heir>::filter, 2);
        }
        assert(v@ =~= orig.subrange(0, 0).filter(pred) + orig.skip(0));
    }
    while i < v.len()
        invariant
            pred == (|h: Heir| h.id != id),
            0 <= j <= orig.len(),
            v@ =~= orig.subrange(0, j).filter(pred) + orig.skip(j),
            i == orig.subrange(0, j).filter(pred).len(),
            i <= j,
        decreases orig.len() - j,
    {
        let ghost here = orig[j];
        proof {
            assert(v@[i as int] == orig.skip(j)[0]);
            assert(orig.subrange(0, j + 1) =~= orig.subrange(0, j) + seq![here]);
            Seq::<Heir>::filter_distributes_over_add(orig.subrange(0, j), seq![here], pred);
            assert(seq![here].filter(pred) =~= if pred(here) {
                seq![here]
            } else {
                Seq::<Heir>::empty()
            }) by {
                reveal_with_fuel(Seq::<Heir>::filter, 2);
                assert(seq![here].drop_last() =~= Seq::<Heir>::empty());
            }
        }
        if v[i].id != id {
            i = i + 1;
        } else {
            v.remove(i);
        }
        proof {
            assert(v@ =~= orig.subrange(0, j + 1).filter(pred) + orig.skip(j + 1));
            j = j + 1;
        }
    }
    proof {
        assert(j == orig.len());
        assert(orig.subrange(0, orig.len() as int) =~= orig);
        assert(orig.skip(j) =~= Seq::<Heir>::empty());
        assert(v@ =~= orig.filter(pred));
    }
}

#[verifier::rlimit(60)]
fn retain_heirs_v2_not(v: &mut Vec<HeirEx>, id: u64)
    ensures
        final(v)@ == old(v)@.filter(|h: HeirEx| h.id != id),
{
    let ghost pred = |h: HeirEx| h.id != id;
    let ghost orig = v@;
    let mut i: usize = 0;
    let ghost j: int = 0;
    proof {
        assert(orig.subrange(0, 0).filter(pred) =~= Seq::<HeirEx>::empty()) by {
            reveal_with_fuel(Seq::<HeirEx>::filter, 2);
        }
        assert(v@ =~= orig.subrange(0, 0).filter(pred) + orig.skip(0));
    }
    while i < v.len()
        invariant
            pred == (|h: HeirEx| h.id != id),
            0 <= j <= orig.len(),
            v@ =~= orig.subrange(0, j).filter(pred) + orig.skip(j),
            i == orig.subrange(0, j).filter(pred).len(),
            i <= j,
        decreases orig.len() - j,
    {
        let ghost here = orig[j];
        proof {
            assert(v@[i as int] == orig.skip(j)[0]);
            assert(orig.subrange(0, j + 1) =~= orig.subrange(0, j) + seq![here]);
            Seq::<HeirEx>::filter_distributes_over_add(orig.subrange(0, j), seq![here], pred);
            assert(seq![here].filter(pred) =~= if pred(here) {
                seq![here]
            } else {
                Seq::<HeirEx>::empty()
            }) by {
                reveal_with_fuel(Seq::<HeirEx>::filter, 2);
                assert(seq![here].drop_last() =~= Seq::<HeirEx>::empty());
            }
        }
        if v[i].id != id {
            i = i + 1;
        } else {
            v.remove(i);
        }
        proof {
            assert(v@ =~= orig.subrange(0, j + 1).filter(pred) + orig.skip(j + 1));
            j = j + 1;
        }
    }
    proof {
        assert(j == orig.len());
        assert(orig.subrange(0, orig.len() as int) =~= orig);
        assert(orig.skip(j) =~= Seq::<HeirEx>::empty());
        assert(v@ =~= orig.filter(pred));
    }
}

#[verifier::rlimit(60)]
fn retain_legacy_not_heir(v: &mut Vec<AssetDistribution>, id: u64)
    ensures
        final(v)@ == old(v)@.filter(|d: AssetDistribution| d.heir_id != id),
{
    let ghost pred = |d: AssetDistribution| d.heir_id != id;
    let ghost orig = v@;
    let mut i: usize = 0;
    let ghost j: int = 0;
    proof {
        assert(orig.subrange(0, 0).filter(pred) =~= Seq::<AssetDistribution>::empty()) by {
            reveal_with_fuel(Seq::<AssetDistribution>::filter, 2);
        }
        assert(v@ =~= orig.subrange(0, 0).filter(pred) + orig.skip(0));
    }
    while i < v.len()
        invariant
            pred == (|d: AssetDistribution| d.heir_id != id),
            0 <= j <= orig.len(),
            v@ =~= orig.subrange(0, j).filter(pred) + orig.skip(j),
            i == orig.subrange(0, j).filter(pred).len(),
            i <= j,
        decreases orig.len() - j,
    {
        let ghost here = orig[j];
        proof {
            assert(v@[i as int] == orig.skip(j)[0]);
            assert(orig.subrange(0, j + 1) =~= orig.subrange(0, j) + seq![here]);
            Seq::<AssetDistribution>::filter_distributes_over_add(
                orig.subrange(0, j),
                seq![here],
                pred,
            );
            assert(seq![here].filter(pred) =~= if pred(here) {
                seq![here]
            } else {
                Seq::<AssetDistribution>::empty()
            }) by {
                reveal_with_fuel(Seq::<AssetDistribution>::filter, 2);
                assert(seq![here].drop_last() =~= Seq::<AssetDistribution>::empty());
            }
        }
        if v[i].heir_id != id {
            i = i + 1;
        } else {
            v.remove(i);
        }
        proof {
            assert(v@ =~= orig.subrange(0, j + 1).filter(pred) + orig.skip(j + 1));
            j = j + 1;
        }
    }
    proof {
        assert(j == orig.len());
        assert(orig.subrange(0, orig.len() as int) =~= orig);
        assert(orig.skip(j) =~= Seq::<AssetDistribution>::empty());
        assert(v@ =~= orig.filter(pred));
    }
}

#[verifier::rlimit(60)]
fn retain_shares_not_heir(v: &mut Vec<DistributionShare>, id: u64)
    ensures
        final(v)@ == old(v)@.filter(|d: DistributionShare| d.heir_id != id),
{
    let ghost pred = |d: DistributionShare| d.heir_id != id;
    let ghost orig = v@;
    let mut i: usize = 0;
    let ghost j: int = 0;
    proof {
        assert(orig.subrange(0, 0).filter(pred) =~= Seq::<DistributionShare>::empty()) by {
            reveal_with_fuel(Seq::<DistributionShare>::filter, 2);
        }
        assert(v@ =~= orig.subrange(0, 0).filter(pred) + orig.skip(0));
    }
    while i < v.len()
        invariant
            pred == (|d: DistributionShare| d.heir_id != id),
            0 <= j <= orig.len(),
            v@ =~= orig.subrange(0, j).filter(pred) + orig.skip(j),
            i == orig.subrange(0, j).filter(pred).len(),
            i <= j,
        decreases orig.len() - j,
    {
        let ghost here = orig[j];
        proof {
            assert(v@[i as int] == orig.skip(j)[0]);
            assert(orig.subrange(0, j + 1) =~= orig.subrange(0, j) + seq![here]);
            Seq::<DistributionShare>::filter_distributes_over_add(
                orig.subrange(0, j),
                seq![here],
                pred,
            );
            assert(seq![here].filter(pred) =~= if pred(here) {
                seq![here]
            } else {
                Seq::<DistributionShare>::empty()
            }) by {
                reveal_with_fuel(Seq::<DistributionShare>::filter, 2);
                assert(seq![here].drop_last() =~= Seq::<DistributionShare>::empty());
            }
        }
        if v[i].heir_id != id {
            i = i + 1;
        } else {
            v.remove(i);
        }
        proof {
            assert(v@ =~= orig.subrange(0, j + 1).filter(pred) + orig.skip(j + 1));
            j = j + 1;
        }
    }
    proof {
        assert(j == orig.len());
        assert(orig.subrange(0, orig.len() as int) =~= orig);
        assert(orig.skip(j) =~= Seq::<DistributionShare>::empty());
        assert(v@ =~= orig.filter(pred));
    }
}

/// Update a legacy heir's contact fields.
pub fn update_heir(u: &mut User, heir_id: u64, new_heir: HeirInput, now: u64) -> (r: Result<
    (),
    CivError,
>)
    ensures
        r is Err ==> *final(u) == *old(u),
        !is_mutable(*old(u)) <==> r matches Err(CivError::EstateLocked),
        is_mutable(*old(u)) && !has_heir(old(u).heirs@, heir_id) <==> r matches Err(
            CivError::HeirNotFound,
        ),
        r is Ok <==> is_mutable(*old(u)) && has_heir(old(u).heirs@, heir_id),
        r is Ok ==> {
            &&& *final(u) == (User {
                heirs: final(u).heirs,
                audit_log: final(u).audit_log,
                ..*old(u)
            })
            &&& exists|i: int|
                {
                    &&& 0 <= i < old(u).heirs@.len()
                    &&& old(u).heirs@[i].id == heir_id
                    &&& final(u).heirs@ =~= old(u).heirs@.update(
                        i,
                        Heir {
                            name: new_heir.name,
                            relationship: new_heir.relationship,
                            email: new_heir.email,
                            phone: new_heir.phone,
                            address: new_heir.address,
                            updated_at: now,
                            ..old(u).heirs@[i]
                        },
                    )
                }
            &&& final(u).audit_log@ == spec_push_audit(
                old(u).audit_log@,
                AuditEventKind::HeirUpdated { heir_id },
                now,
            )
        },
{
    if let Err(e) = assert_mutable(u) {
        return Err(e);
    }
    let idx = match find_heir(&u.heirs, heir_id) {
        Some(i) => i,
        None => {
            return Err(CivError::HeirNotFound);
        },
    };
    let existing = u.heirs.remove(idx);
    let HeirInput { name, relationship, email, phone, address } = new_heir;
    let updated = Heir {
        id: existing.id,
        name,
        relationship,
        email,
        phone,
        address,
        created_at: existing.created_at,
        updated_at: now,
    };
    u.heirs.insert(idx, updated);
    proof {
        assert(u.heirs@ =~= old(u).heirs@.update(idx as int, u.heirs@[idx as int]));
    }
    push_audit(u, AuditEventKind::HeirUpdated { heir_id }, now);
    Ok(())
}

} // verus!
