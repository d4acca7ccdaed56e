//! The heir claim protocol: single-use claim links, sessions with a 24-hour
//! TTL, throttled in-session secret verification, principal binding, and
//! rate-limited payout-preference overrides.

use vstd::prelude::*;
use vstd::string::StrSliceExecFns;

use crate::assets::{infer_asset_kind, spec_infer_asset_kind};
use crate::audit::{lemma_push_audits_snoc, push_audit, spec_push_audit, spec_push_audits};
use crate::common::{
    find_asset, find_claim_link, find_heir_ex, find_override_rate, find_payout_override,
    find_session, find_share, find_transfer_for, first_asset_at, first_heir_at, first_session_at,
    has_claim_link, has_heir_ex, has_session, has_share, has_transfer_for, next_claim_link_id,
    next_session_id, spec_next_claim_link_id, spec_next_session_id,
};
use crate::distributions::{pref_allowed_for_kind, pref_allowed_for_kind_exec};
use crate::heirs::{
    attempted_secret, sat_add, secret_matches, throttle_open, verified_secret,
    compute_secret_backoff, HEIR_SECRET_ATTEMPT_WINDOW_SECS,
};
use crate::crypto::{constant_time_eq, hash_secret_with_salt, secret_preimage_chars, sha256_of};
use crate::model::audit::AuditEventKind;
use crate::model::base::{AssetKind, HeirIdentitySecret, HeirSecretStatus, PayoutPreference};
use crate::model::distribution::HeirPayoutOverride;
use crate::model::errors::CivError;
use crate::model::heir::HeirEx;
use crate::model::integrity::{ClaimLink, ClaimLinkUnsealed, HeirSession};
use crate::model::user::{EstatePhase, PayoutOverrideRate, User};
use crate::rng::{fill_bytes, rng_wf, Rng};
use crate::strutil::{dec6_string, dec6_of};

verus! {

/// Session lifetime.
pub const SESSION_TTL_SECS: u64 = 86400;

/// At most this many preference changes per (heir, asset) per day.
pub const PREF_OVERRIDE_DAILY_MAX: u32 = 3;

/// Cooldown between preference changes of one (heir, asset).
pub const PREF_OVERRIDE_COOLDOWN_SECS: u64 = 7200;

/// `i` is the index of the first claim link with this id.
pub open spec fn first_claim_link_at(s: Seq<ClaimLink>, id: u64, i: int) -> bool {
    0 <= i < s.len() && s[i].id == id && forall|j: int| 0 <= j < i ==> s[j].id != id
}

/// A session is live at `now`; it expires strictly after `expires_at`.
pub open spec fn session_live(s: HeirSession, now: u64) -> bool {
    now <= s.expires_at
}

/// Issue a single-use claim link for an heir: a random six-digit code whose
/// salted hash is stored, the plain code returned once.
pub fn create_claim_link(u: &mut User, heir_id: u64, rng: &mut Rng, now: u64) -> (r: Result<
    ClaimLinkUnsealed,
    CivError,
>)
    requires
        old(rng).seeded,
        rng_wf(*old(rng)),
    ensures
        rng_wf(*final(rng)) && final(rng).seeded,
        r is Err ==> *final(u) == *old(u),
        r is Ok <==> crate::common::has_heir_ex(old(u).heirs_v2@, heir_id),
        r is Err ==> r matches Err(CivError::HeirNotFound),
        r is Ok ==> {
            &&& *final(u) == (User {
                claim_links: final(u).claim_links,
                audit_log: final(u).audit_log,
                ..*old(u)
            })
            &&& final(u).claim_links@.len() == old(u).claim_links@.len() + 1
            &&& final(u).claim_links@.drop_last() == old(u).claim_links@
            &&& ({
                let link = final(u).claim_links@.last();
                &&& link.id == spec_next_claim_link_id(old(u).claim_links@)
                &&& link.heir_id == heir_id
                &&& link.used == false
                &&& link.created_at == now
                &&& link.salt@.len() == 16
                &&& (r matches Ok(unsealed) && {
                    &&& unsealed.link_id == link.id
                    &&& unsealed.code_plain@.len() == 6
                    &&& (exists|n: int|
                        0 <= n < 1000000 && unsealed.code_plain@ == crate::strutil::dec6_of(n))
                    &&& link.code_hash@ == sha256_of(
                        secret_preimage_chars(link.salt@, unsealed.code_plain@),
                    )
                })
            })
            &&& final(u).audit_log@ == spec_push_audit(
                old(u).audit_log@,
                AuditEventKind::ClaimLinkCreated {
                    heir_id,
                    link_id: spec_next_claim_link_id(old(u).claim_links@),
                },
                now,
            )
        },
{
    if find_heir_ex(&u.heirs_v2, heir_id).is_none() {
        return Err(CivError::HeirNotFound);
    }
    let salt = fill_bytes(rng, 16);
    let raw_bytes = fill_bytes(rng, 4);
    let raw = vstd::bytes::u32_from_le_bytes(raw_bytes.as_slice());
    let code = raw % 1000000;
    let code_plain = dec6_string(code);
    let hash = hash_secret_with_salt(code_plain.as_str(), salt.as_slice());
    let next_id = next_claim_link_id(&u.claim_links);
    u.claim_links.push(
        ClaimLink { id: next_id, heir_id, code_hash: hash, salt, created_at: now, used: false },
    );
    push_audit(u, AuditEventKind::ClaimLinkCreated { heir_id, link_id: next_id }, now);
    Ok(ClaimLinkUnsealed { link_id: next_id, code_plain })
}

/// Redeem a claim link: on a correct code the link burns and a session
/// starts, expiring a day later.
pub fn heir_begin_claim(u: &mut User, link_id: u64, code_plain: &str, now: u64) -> (r: Result<
    u64,
    CivError,
>)
    requires
        now + SESSION_TTL_SECS <= u64::MAX,
    ensures
        r is Err ==> *final(u) == *old(u),
        (!has_claim_link(old(u).claim_links@, link_id) <==> (r matches Err(CivError::Other(m))
            && m@ == "claim_link_not_found"@)),
        r is Ok <==> (exists|i: int|
            #[trigger] first_claim_link_at(old(u).claim_links@, link_id, i) && !old(
                u,
            ).claim_links@[i].used && sha256_of(
                secret_preimage_chars(old(u).claim_links@[i].salt@, code_plain@),
            ) == old(u).claim_links@[i].code_hash@),
        (r matches Err(CivError::Other(m)) && m@ == "link_used"@) <==> (exists|i: int|
            #[trigger] first_claim_link_at(old(u).claim_links@, link_id, i) && old(
                u,
            ).claim_links@[i].used),
        r is Ok ==> exists|i: int|
            {
                &&& 0 <= i < old(u).claim_links@.len()
                &&& old(u).claim_links@[i].id == link_id
                &&& (forall|j: int| 0 <= j < i ==> old(u).claim_links@[j].id != link_id)
                &&& old(u).claim_links@[i].used == false
                &&& sha256_of(
                    secret_preimage_chars(old(u).claim_links@[i].salt@, code_plain@),
                ) == old(u).claim_links@[i].code_hash@
                &&& *final(u) == (User {
                    claim_links: final(u).claim_links,
                    sessions: final(u).sessions,
                    audit_log: final(u).audit_log,
                    ..*old(u)
                })
                &&& final(u).claim_links@ =~= old(u).claim_links@.update(
                    i,
                    ClaimLink { used: true, ..old(u).claim_links@[i] },
                )
                &&& (r matches Ok(sid) && sid == spec_next_session_id(old(u).sessions@))
                &&& final(u).sessions@ == old(u).sessions@.push(
                    HeirSession {
                        id: spec_next_session_id(old(u).sessions@),
                        heir_id: old(u).claim_links@[i].heir_id,
                        started_at: now,
                        verified_secret: false,
                        bound_principal: false,
                        expires_at: (now + SESSION_TTL_SECS) as u64,
                    },
                )
            },
        r matches Err(CivError::SecretInvalid) ==> exists|i: int|
            {
                &&& 0 <= i < old(u).claim_links@.len()
                &&& old(u).claim_links@[i].id == link_id
                &&& sha256_of(
                    secret_preimage_chars(old(u).claim_links@[i].salt@, code_plain@),
                ) != old(u).claim_links@[i].code_hash@
            },
{
    let idx = match find_claim_link(&u.claim_links, link_id) {
        Some(i) => i,
        None => {
            proof {
                reveal_strlit("claim_link_not_found");
                reveal_strlit("link_used");
                assert("claim_link_not_found"@.len() == 20);
                assert("link_used"@.len() == 9);
            }
            return Err(CivError::Other(
                <String as vstd::string::StringExecFns>::from_str("claim_link_not_found"),
            ));
        },
    };
    proof {
        assert(first_claim_link_at(u.claim_links@, link_id, idx as int));
        assert forall|li: int|
            #[trigger] first_claim_link_at(u.claim_links@, link_id, li) implies li
            == idx as int by {
            if li < idx as int {
                assert(u.claim_links@[li].id == link_id);
            }
            if li > idx as int {
                assert(u.claim_links@[idx as int].id != link_id);
            }
        }
    }
    if u.claim_links[idx].used {
        proof {
            reveal_strlit("claim_link_not_found");
            reveal_strlit("link_used");
            assert("claim_link_not_found"@.len() == 20);
            assert("link_used"@.len() == 9);
        }
        return Err(CivError::Other(<String as vstd::string::StringExecFns>::from_str("link_used")));
    }
    let recomputed = hash_secret_with_salt(code_plain, u.claim_links[idx].salt.as_slice());
    if !constant_time_eq(recomputed.as_slice(), u.claim_links[idx].code_hash.as_slice()) {
        return Err(CivError::SecretInvalid);
    }
    let link = u.claim_links.remove(idx);
    let heir_id = link.heir_id;
    u.claim_links.insert(idx, ClaimLink { used: true, ..link });
    proof {
        assert(u.claim_links@ =~= old(u).claim_links@.update(
            idx as int,
            u.claim_links@[idx as int],
        ));
    }
    let session_id = next_session_id(&u.sessions);
    u.sessions.push(
        HeirSession {
            id: session_id,
            heir_id,
            started_at: now,
            verified_secret: false,
            bound_principal: false,
            expires_at: now + SESSION_TTL_SECS,
        },
    );
    push_audit(u, AuditEventKind::HeirSessionStarted { heir_id, session_id }, now);
    Ok(session_id)
}

/// Check an optional identity claim under a live session; with none
/// configured the check passes.
pub fn heir_verify_identity_session(
    u: &User,
    session_id: u64,
    identity_claim: &str,
    now: u64,
) -> (r: Result<bool, CivError>)
    ensures
        !has_session(u.sessions@, session_id) <==> (r matches Err(CivError::Other(m)) && m@
            == "session_not_found"@),
        r is Ok <==> (exists|si: int|
            #[trigger] first_session_at(u.sessions@, session_id, si) && now
                <= u.sessions@[si].expires_at && has_heir_ex(
                u.heirs_v2@,
                u.sessions@[si].heir_id,
            )),
        r is Ok ==> exists|si: int, hi: int|
            {
                &&& 0 <= si < u.sessions@.len()
                &&& u.sessions@[si].id == session_id
                &&& session_live(u.sessions@[si], now)
                &&& 0 <= hi < u.heirs_v2@.len()
                &&& u.heirs_v2@[hi].id == u.sessions@[si].heir_id
                &&& (r matches Ok(b) && b == (match (u.heirs_v2@[hi].identity_hash, u.heirs_v2@[hi].identity_salt) {
                    (Some(h), Some(s)) => sha256_of(secret_preimage_chars(s@, identity_claim@))
                        == h@,
                    _ => true,
                }))
            },
{
    let sidx = match find_session(&u.sessions, session_id) {
        Some(i) => i,
        None => {
            return Err(CivError::Other(
                <String as vstd::string::StringExecFns>::from_str("session_not_found"),
            ));
        },
    };
    proof {
        assert(first_session_at(u.sessions@, session_id, sidx as int));
        assert forall|si: int| #[trigger] first_session_at(u.sessions@, session_id, si) implies si
            == sidx as int by {
            if si < sidx as int {
                assert(u.sessions@[si].id == session_id);
            }
            if si > sidx as int {
                assert(u.sessions@[sidx as int].id != session_id);
            }
        }
    }
    if now > u.sessions[sidx].expires_at {
        return Err(CivError::SessionExpired);
    }
    let heir_id = u.sessions[sidx].heir_id;
    let hidx = match find_heir_ex(&u.heirs_v2, heir_id) {
        Some(i) => i,
        None => {
            return Err(CivError::HeirNotFound);
        },
    };
    match (&u.heirs_v2[hidx].identity_hash, &u.heirs_v2[hidx].identity_salt) {
        (Some(h), Some(s)) => {
            let recomputed = hash_secret_with_salt(identity_claim, s.as_slice());
            Ok(constant_time_eq(recomputed.as_slice(), h.as_slice()))
        },
        _ => Ok(true),
    }
}

/// In-session secret verification with the same throttle as the owner-side
/// path; success also marks the session verified.
pub fn heir_verify_secret_session(
    u: &mut User,
    session_id: u64,
    secret_plain: &str,
    now: u64,
) -> (r: Result<bool, CivError>)
    ensures
        !has_session(old(u).sessions@, session_id) <==> (r matches Err(CivError::Other(m)) && m@
            == "session_not_found"@),
        (r matches Err(CivError::Other(m)) && m@ == "session_not_found"@) ==> *final(u) == *old(
            u,
        ),
        r matches Err(CivError::SessionExpired) <==> (exists|si: int|
            #[trigger] first_session_at(old(u).sessions@, session_id, si) && now > old(
                u,
            ).sessions@[si].expires_at),
        r matches Err(CivError::SessionExpired) ==> *final(u) == *old(u),
        r matches Err(CivError::HeirNotFound) <==> (exists|si: int|
            #[trigger] first_session_at(old(u).sessions@, session_id, si) && now <= old(
                u,
            ).sessions@[si].expires_at && !old(u).sessions@[si].verified_secret && !has_heir_ex(
                old(u).heirs_v2@,
                old(u).sessions@[si].heir_id,
            )),
        r matches Err(CivError::HeirNotFound) ==> *final(u) == *old(u),
        forall|si: int|
            #[trigger] first_session_at(old(u).sessions@, session_id, si) && now <= old(
                u,
            ).sessions@[si].expires_at && old(u).sessions@[si].verified_secret ==> (
            r matches Ok(b) && b) && *final(u) == *old(u),
        forall|si: int, hi: int|
            #![trigger first_session_at(old(u).sessions@, session_id, si), first_heir_at(old(u).heirs_v2@, old(u).sessions@[si].heir_id, hi)]
            first_session_at(old(u).sessions@, session_id, si) && now <= old(
                u,
            ).sessions@[si].expires_at && !old(u).sessions@[si].verified_secret && first_heir_at(
                old(u).heirs_v2@,
                old(u).sessions@[si].heir_id,
                hi,
            ) && !throttle_open(old(u).heirs_v2@[hi].identity_secret, now) ==> ({
                let he = old(u).heirs_v2@[hi];
                let sec = he.identity_secret;
                &&& r matches Err(CivError::RateLimited)
                &&& *final(u) == (User {
                    heirs_v2: final(u).heirs_v2,
                    audit_log: final(u).audit_log,
                    ..*old(u)
                })
                &&& final(u).heirs_v2@ == old(u).heirs_v2@.update(
                    hi,
                    HeirEx {
                        identity_secret: HeirIdentitySecret {
                            last_attempt_at: Some(now),
                            ..sec
                        },
                        ..he
                    },
                )
                &&& final(u).audit_log@ == spec_push_audit(
                    old(u).audit_log@,
                    AuditEventKind::HeirSecretBackoffRateLimited {
                        heir_id: he.id,
                        attempts: crate::retry::sat_add_u32(sec.attempts, 1),
                        wait_secs: (match sec.next_allowed_attempt_at {
                            Some(na) => if na >= now {
                                (na - now) as u64
                            } else {
                                0u64
                            },
                            None => 0u64,
                        }),
                    },
                    now,
                )
            }),
        forall|si: int, hi: int|
            #![trigger first_session_at(old(u).sessions@, session_id, si), first_heir_at(old(u).heirs_v2@, old(u).sessions@[si].heir_id, hi)]
            first_session_at(old(u).sessions@, session_id, si) && now <= old(
                u,
            ).sessions@[si].expires_at && !old(u).sessions@[si].verified_secret && first_heir_at(
                old(u).heirs_v2@,
                old(u).sessions@[si].heir_id,
                hi,
            ) && throttle_open(old(u).heirs_v2@[hi].identity_secret, now) ==> ({
                let he = old(u).heirs_v2@[hi];
                let matched = secret_matches(he, secret_plain);
                &&& (r matches Ok(b) && b == matched)
                &&& *final(u) == (User {
                    heirs_v2: final(u).heirs_v2,
                    sessions: final(u).sessions,
                    audit_log: final(u).audit_log,
                    ..*old(u)
                })
                &&& (matched ==> final(u).heirs_v2@ == old(u).heirs_v2@.update(
                    hi,
                    HeirEx { identity_secret: verified_secret(he.identity_secret, now), ..he },
                ))
                &&& (!matched ==> final(u).heirs_v2@ == old(u).heirs_v2@.update(
                    hi,
                    HeirEx { identity_secret: attempted_secret(he.identity_secret, now), ..he },
                ))
                &&& (matched ==> final(u).sessions@ == old(u).sessions@.update(
                    si,
                    HeirSession { verified_secret: true, ..old(u).sessions@[si] },
                ))
                &&& (!matched ==> final(u).sessions@ == old(u).sessions@)
                &&& (matched ==> final(u).audit_log@ == spec_push_audit(
                    spec_push_audit(
                        old(u).audit_log@,
                        AuditEventKind::HeirSessionSecretVerified { heir_id: he.id, session_id },
                        now,
                    ),
                    AuditEventKind::HeirSecretVerified { heir_id: he.id },
                    now,
                ))
                &&& (!matched ==> final(u).audit_log@ == old(u).audit_log@)
            }),
{
    let sidx = match find_session(&u.sessions, session_id) {
        Some(i) => i,
        None => {
            return Err(CivError::Other(
                <String as vstd::string::StringExecFns>::from_str("session_not_found"),
            ));
        },
    };
    proof {
        assert(first_session_at(u.sessions@, session_id, sidx as int));
        assert forall|si: int| #[trigger] first_session_at(u.sessions@, session_id, si) implies si
            == sidx as int by {
            if si < sidx as int {
                assert(u.sessions@[si].id == session_id);
            }
            if si > sidx as int {
                assert(u.sessions@[sidx as int].id != session_id);
            }
        }
    }
    if now > u.sessions[sidx].expires_at {
        return Err(CivError::SessionExpired);
    }
    if u.sessions[sidx].verified_secret {
        return Ok(true);
    }
    let heir_id = u.sessions[sidx].heir_id;
    let hidx = match find_heir_ex(&u.heirs_v2, heir_id) {
        Some(i) => i,
        None => {
            return Err(CivError::HeirNotFound);
        },
    };
    proof {
        assert(first_heir_at(u.heirs_v2@, heir_id, hidx as int));
        assert forall|hi: int| #[trigger] first_heir_at(u.heirs_v2@, heir_id, hi) implies hi
            == hidx as int by {
            if hi < hidx as int {
                assert(u.heirs_v2@[hi].id == heir_id);
            }
            if hi > hidx as int {
                assert(u.heirs_v2@[hidx as int].id != heir_id);
            }
        }
    }
    let gate = match u.heirs_v2[hidx].identity_secret.next_allowed_attempt_at {
        Some(na) => now < na,
        None => false,
    };
    if gate {
        let he = u.heirs_v2.remove(hidx);
        let wait = match he.identity_secret.next_allowed_attempt_at {
            Some(na) => {
                if na >= now {
                    na - now
                } else {
                    0
                }
            },
            None => 0,
        };
        let stored = he.identity_secret.attempts;
        let attempts = if stored == u32::MAX {
            u32::MAX
        } else {
            stored + 1
        };
        let updated = HeirEx {
            identity_secret: HeirIdentitySecret {
                last_attempt_at: Some(now),
                ..he.identity_secret
            },
            ..he
        };
        u.heirs_v2.insert(hidx, updated);
        proof {
            assert(u.heirs_v2@ =~= old(u).heirs_v2@.update(
                hidx as int,
                u.heirs_v2@[hidx as int],
            ));
        }
        push_audit(
            u,
            AuditEventKind::HeirSecretBackoffRateLimited { heir_id, attempts, wait_secs: wait },
            now,
        );
        return Err(CivError::RateLimited);
    }
    let he = u.heirs_v2.remove(hidx);
    let was_verified = he.identity_secret.status == HeirSecretStatus::Verified;
    let windowed = match he.identity_secret.last_attempt_at {
        Some(last) => {
            let aged = if now >= last {
                now - last
            } else {
                0
            };
            if aged > HEIR_SECRET_ATTEMPT_WINDOW_SECS {
                0
            } else {
                he.identity_secret.attempts
            }
        },
        None => he.identity_secret.attempts,
    };
    let attempts = if windowed == u32::MAX {
        u32::MAX
    } else {
        windowed + 1
    };
    let delay = compute_secret_backoff(attempts);
    let recomputed = hash_secret_with_salt(secret_plain, he.identity_secret.salt.as_slice());
    let matched = constant_time_eq(recomputed.as_slice(), he.identity_secret.hash.as_slice());
    let new_secret = if matched {
        HeirIdentitySecret {
            status: HeirSecretStatus::Verified,
            updated_at: now,
            attempts: 0,
            last_attempt_at: Some(now),
            next_allowed_attempt_at: None,
            ..he.identity_secret
        }
    } else {
        HeirIdentitySecret {
            attempts,
            last_attempt_at: Some(now),
            next_allowed_attempt_at: if delay > 0 {
                Some(crate::heirs::sat_add_exec(now, delay))
            } else {
                he.identity_secret.next_allowed_attempt_at
            },
            ..he.identity_secret
        }
    };
    let updated = HeirEx { identity_secret: new_secret, ..he };
    u.heirs_v2.insert(hidx, updated);
    proof {
        let sec0 = old(u).heirs_v2@[hidx as int].identity_secret;
        if matched {
            assert(u.heirs_v2@[hidx as int].identity_secret == verified_secret(sec0, now));
        } else {
            assert(windowed == crate::heirs::windowed_attempts(sec0, now));
            assert(u.heirs_v2@[hidx as int].identity_secret == attempted_secret(sec0, now));
        }
        assert(u.heirs_v2@ =~= old(u).heirs_v2@.update(hidx as int, u.heirs_v2@[hidx as int]));
    }
    if matched {
        let sess = u.sessions.remove(sidx);
        u.sessions.insert(sidx, HeirSession { verified_secret: true, ..sess });
        proof {
            assert(u.sessions@ =~= old(u).sessions@.update(
                sidx as int,
                u.sessions@[sidx as int],
            ));
        }
        push_audit(u, AuditEventKind::HeirSessionSecretVerified { heir_id, session_id }, now);
        push_audit(u, AuditEventKind::HeirSecretVerified { heir_id }, now);
    }
    Ok(matched)
}

/// Bind the heir's principal under a verified session, and sweep pending
/// custody so the fresh principal unblocks releases.
pub fn heir_bind_principal_session(
    u: &mut User,
    session_id: u64,
    principal: String,
    now: u64,
) -> (r: Result<(), CivError>)
    ensures
        !has_session(old(u).sessions@, session_id) <==> (r matches Err(CivError::Other(m)) && m@
            == "session_not_found"@),
        r is Ok <==> (exists|si: int|
            #[trigger] first_session_at(old(u).sessions@, session_id, si) && now <= old(
                u,
            ).sessions@[si].expires_at && old(u).sessions@[si].verified_secret && has_heir_ex(
                old(u).heirs_v2@,
                old(u).sessions@[si].heir_id,
            )),
        r is Ok ==> *final(u) == (User {
            heirs_v2: final(u).heirs_v2,
            sessions: final(u).sessions,
            retry_queue: final(u).retry_queue,
            retry_seq: final(u).retry_seq,
            audit_log: final(u).audit_log,
            ..*old(u)
        }),
        r is Ok ==> exists|si: int, hi: int|
            {
                &&& 0 <= si < old(u).sessions@.len()
                &&& old(u).sessions@[si].id == session_id
                &&& session_live(old(u).sessions@[si], now)
                &&& old(u).sessions@[si].verified_secret
                &&& 0 <= hi < old(u).heirs_v2@.len()
                &&& old(u).heirs_v2@[hi].id == old(u).sessions@[si].heir_id
                &&& final(u).heirs_v2@ =~= old(u).heirs_v2@.update(
                    hi,
                    HeirEx { principal: Some(principal), ..old(u).heirs_v2@[hi] },
                )
                &&& final(u).sessions@ =~= old(u).sessions@.update(
                    si,
                    HeirSession { bound_principal: true, ..old(u).sessions@[si] },
                )
                &&& (exists|ks: Seq<AuditEventKind>|
                    final(u).audit_log@ == #[trigger] spec_push_audits(
                        spec_push_audit(
                            old(u).audit_log@,
                            AuditEventKind::HeirPrincipalBound {
                                heir_id: old(u).sessions@[si].heir_id,
                            },
                            now,
                        ),
                        ks,
                        now,
                    ) && (forall|t: int|
                        0 <= t < ks.len() ==> (#[trigger] ks[t] matches AuditEventKind::RetryAttempt {
                            ..
                        })))
            },
{
    let sidx = match find_session(&u.sessions, session_id) {
        Some(i) => i,
        None => {
            return Err(CivError::Other(
                <String as vstd::string::StringExecFns>::from_str("session_not_found"),
            ));
        },
    };
    proof {
        assert(first_session_at(u.sessions@, session_id, sidx as int));
        assert forall|si: int| #[trigger] first_session_at(u.sessions@, session_id, si) implies si
            == sidx as int by {
            if si < sidx as int {
                assert(u.sessions@[si].id == session_id);
            }
            if si > sidx as int {
                assert(u.sessions@[sidx as int].id != session_id);
            }
        }
    }
    if now > u.sessions[sidx].expires_at {
        return Err(CivError::SessionExpired);
    }
    if !u.sessions[sidx].verified_secret {
        return Err(CivError::SecretInvalid);
    }
    let heir_id = u.sessions[sidx].heir_id;
    let hidx = match find_heir_ex(&u.heirs_v2, heir_id) {
        Some(i) => i,
        None => {
            return Err(CivError::HeirNotFound);
        },
    };
    let he = u.heirs_v2.remove(hidx);
    u.heirs_v2.insert(hidx, HeirEx { principal: Some(principal), ..he });
    let sess = u.sessions.remove(sidx);
    u.sessions.insert(sidx, HeirSession { bound_principal: true, ..sess });
    proof {
        assert(u.heirs_v2@ =~= old(u).heirs_v2@.update(hidx as int, u.heirs_v2@[hidx as int]));
        assert(u.sessions@ =~= old(u).sessions@.update(sidx as int, u.sessions@[sidx as int]));
    }
    push_audit(u, AuditEventKind::HeirPrincipalBound { heir_id }, now);
    let ghost log1 = u.audit_log@;
    proof {
        assert(log1 == spec_push_audit(
            old(u).audit_log@,
            AuditEventKind::HeirPrincipalBound { heir_id },
            now,
        ));
    }
    crate::heirs::sweep_enqueue_pending_custody(u, heir_id, now);
    Ok(())
}

/// Whether a preference needs the heir's principal on file.
pub open spec fn pref_needs_principal(p: PayoutPreference) -> bool {
    p == PayoutPreference::ToPrincipal || p == PayoutPreference::CkWithdraw
}

/// `i` is the index of the first rate record of the pair.
pub open spec fn first_rate_at(
    s: Seq<PayoutOverrideRate>,
    heir_id: u64,
    asset_id: u64,
    i: int,
) -> bool {
    &&& 0 <= i < s.len()
    &&& s[i].heir_id == heir_id
    &&& s[i].asset_id == asset_id
    &&& forall|j: int| 0 <= j < i ==> !(s[j].heir_id == heir_id && s[j].asset_id == asset_id)
}

/// A rate record blocks a change at `now`: same day, and either the daily
/// budget is spent or the cooldown since the last change has not passed.
pub open spec fn rate_rec_blocked(rec: PayoutOverrideRate, now: u64) -> bool {
    rec.day_epoch == now / 86400 && (rec.count >= PREF_OVERRIDE_DAILY_MAX || (if now
        >= rec.last_set_at {
        now - rec.last_set_at
    } else {
        0
    }) < PREF_OVERRIDE_COOLDOWN_SECS)
}

/// The pair's first rate record blocks a change at `now`.
pub open spec fn pref_rate_blocked(u: User, heir_id: u64, asset_id: u64, now: u64) -> bool {
    match u.payout_override_rates {
        Some(rs) => exists|i: int|
            #[trigger] first_rate_at(rs@, heir_id, asset_id, i) && rate_rec_blocked(rs@[i], now),
        None => false,
    }
}

/// The session, heir, share and asset all line up for a preference change:
/// a live verified session, its heir on file, a recorded share and the
/// asset present. The indices are the first matches.
pub open spec fn pref_path_ok(
    u: User,
    session_id: u64,
    asset_id: u64,
    now: u64,
    si: int,
    hi: int,
    ai: int,
) -> bool {
    &&& first_session_at(u.sessions@, session_id, si)
    &&& now <= u.sessions@[si].expires_at
    &&& u.sessions@[si].verified_secret
    &&& first_heir_at(u.heirs_v2@, u.sessions@[si].heir_id, hi)
    &&& has_share(u.distributions_v2@, asset_id, u.sessions@[si].heir_id)
    &&& first_asset_at(u.assets@, asset_id, ai)
}

/// The preference fits the asset's kind and, where it pays a principal,
/// the heir has one bound.
pub open spec fn pref_fits(u: User, preference: PayoutPreference, hi: int, ai: int) -> bool {
    &&& pref_allowed_for_kind(spec_infer_asset_kind(u.assets@[ai].asset_type@), preference)
    &&& (pref_needs_principal(preference) ==> u.heirs_v2@[hi].principal is Some)
}

/// Heir-chosen payout preference for one asset, under a verified session:
/// compatible with the asset kind, impossible once transferred, and rate
/// limited to three changes a day with a two-hour cooldown.
pub fn heir_set_payout_preference_session(
    u: &mut User,
    session_id: u64,
    asset_id: u64,
    preference: PayoutPreference,
    now: u64,
) -> (r: Result<(), CivError>)
    ensures
        old(u).phase == EstatePhase::Executed ==> r matches Err(CivError::EstateLocked),
        r is Ok <==> old(u).phase != EstatePhase::Executed && (exists|si: int, hi: int, ai: int|
            #![trigger pref_path_ok(*old(u), session_id, asset_id, now, si, hi, ai)]
            pref_path_ok(*old(u), session_id, asset_id, now, si, hi, ai) && pref_fits(
                *old(u),
                preference,
                hi,
                ai,
            ) && !has_transfer_for(
                old(u).transfers@,
                asset_id,
                old(u).sessions@[si].heir_id,
            ) && !pref_rate_blocked(*old(u), old(u).sessions@[si].heir_id, asset_id, now)),
        r matches Err(CivError::InvalidPayoutPreference) <==> old(u).phase != EstatePhase::Executed
            && (exists|si: int, hi: int, ai: int|
            #![trigger pref_path_ok(*old(u), session_id, asset_id, now, si, hi, ai)]
            pref_path_ok(*old(u), session_id, asset_id, now, si, hi, ai) && !pref_fits(
                *old(u),
                preference,
                hi,
                ai,
            )),
        r matches Err(CivError::RateLimited) <==> old(u).phase != EstatePhase::Executed && (exists|
            si: int,
            hi: int,
            ai: int,
        |
            #![trigger pref_path_ok(*old(u), session_id, asset_id, now, si, hi, ai)]
            pref_path_ok(*old(u), session_id, asset_id, now, si, hi, ai) && pref_fits(
                *old(u),
                preference,
                hi,
                ai,
            ) && !has_transfer_for(
                old(u).transfers@,
                asset_id,
                old(u).sessions@[si].heir_id,
            ) && pref_rate_blocked(*old(u), old(u).sessions@[si].heir_id, asset_id, now)),
        r is Ok ==> *final(u) == (User {
            payout_overrides: final(u).payout_overrides,
            payout_override_rates: final(u).payout_override_rates,
            audit_log: final(u).audit_log,
            ..*old(u)
        }),
        r is Ok ==> exists|si: int|
            {
                &&& 0 <= si < old(u).sessions@.len()
                &&& old(u).sessions@[si].id == session_id
                &&& session_live(old(u).sessions@[si], now)
                &&& old(u).sessions@[si].verified_secret
                &&& has_share(old(u).distributions_v2@, asset_id, old(u).sessions@[si].heir_id)
                &&& !has_transfer_for(old(u).transfers@, asset_id, old(u).sessions@[si].heir_id)
                &&& ({
                    let hid = old(u).sessions@[si].heir_id;
                    exists|oi: int|
                        {
                            &&& 0 <= oi < final(u).payout_overrides@.len()
                            &&& final(u).payout_overrides@[oi].heir_id == hid
                            &&& final(u).payout_overrides@[oi].asset_id == asset_id
                            &&& final(u).payout_overrides@[oi].payout_preference == preference
                            &&& final(u).payout_overrides@[oi].set_at == now
                        }
                })
            },
        r matches Err(CivError::RateLimited) ==> *final(u) == (User {
            payout_override_rates: final(u).payout_override_rates,
            audit_log: final(u).audit_log,
            ..*old(u)
        }),
{
    if u.phase == EstatePhase::Executed {
        return Err(CivError::EstateLocked);
    }
    let sidx = match find_session(&u.sessions, session_id) {
        Some(i) => i,
        None => {
            return Err(CivError::Other(
                <String as vstd::string::StringExecFns>::from_str("session_not_found"),
            ));
        },
    };
    proof {
        assert(first_session_at(u.sessions@, session_id, sidx as int));
        assert forall|si: int| #[trigger] first_session_at(u.sessions@, session_id, si) implies si
            == sidx as int by {
            if si < sidx as int {
                assert(u.sessions@[si].id == session_id);
            }
            if si > sidx as int {
                assert(u.sessions@[sidx as int].id != session_id);
            }
        }
    }
    if now > u.sessions[sidx].expires_at {
        return Err(CivError::SessionExpired);
    }
    if !u.sessions[sidx].verified_secret {
        return Err(CivError::SecretInvalid);
    }
    let heir_id = u.sessions[sidx].heir_id;
    let hidx = match find_heir_ex(&u.heirs_v2, heir_id) {
        Some(i) => i,
        None => {
            return Err(CivError::HeirNotFound);
        },
    };
    proof {
        assert(first_heir_at(u.heirs_v2@, heir_id, hidx as int));
        assert forall|hi: int| #[trigger] first_heir_at(u.heirs_v2@, heir_id, hi) implies hi
            == hidx as int by {
            if hi < hidx as int {
                assert(u.heirs_v2@[hi].id == heir_id);
            }
            if hi > hidx as int {
                assert(u.heirs_v2@[hidx as int].id != heir_id);
            }
        }
    }
    let didx = match find_share(&u.distributions_v2, asset_id, heir_id) {
        Some(i) => i,
        None => {
            return Err(CivError::DistributionAssetNotFound);
        },
    };
    let aidx = match find_asset(&u.assets, asset_id) {
        Some(i) => i,
        None => {
            return Err(CivError::AssetNotFound);
        },
    };
    proof {
        assert(first_asset_at(u.assets@, asset_id, aidx as int));
        assert forall|ai: int| #[trigger] first_asset_at(u.assets@, asset_id, ai) implies ai
            == aidx as int by {
            if ai < aidx as int {
                assert(u.assets@[ai].id == asset_id);
            }
            if ai > aidx as int {
                assert(u.assets@[aidx as int].id != asset_id);
            }
        }
        assert(pref_path_ok(
            *old(u),
            session_id,
            asset_id,
            now,
            sidx as int,
            hidx as int,
            aidx as int,
        ));
    }
    let kind = infer_asset_kind(u.assets[aidx].asset_type.as_str());
    if !pref_allowed_for_kind_exec(kind, preference) {
        return Err(CivError::InvalidPayoutPreference);
    }
    let heir_has_principal = u.heirs_v2[hidx].principal.is_some();
    if (preference == PayoutPreference::ToPrincipal || preference == PayoutPreference::CkWithdraw)
        && !heir_has_principal {
        return Err(CivError::InvalidPayoutPreference);
    }
    proof {
        assert(pref_fits(*old(u), preference, hidx as int, aidx as int));
    }
    if find_transfer_for(&u.transfers, asset_id, heir_id).is_some() {
        return Err(CivError::EstateLocked);
    }
    let day_epoch = now / 86400;
    if u.payout_override_rates.is_none() {
        u.payout_override_rates = Some(Vec::new());
    }
    let mut blocked = false;
    let ghost blocked_spec = pref_rate_blocked(*old(u), heir_id, asset_id, now);
    match &mut u.payout_override_rates {
        Some(rates) => {
            match find_override_rate(rates, heir_id, asset_id) {
                Some(ri) => {
                    proof {
                        assert(old(u).payout_override_rates matches Some(rs0) && rs0@ == rates@);
                        assert(first_rate_at(rates@, heir_id, asset_id, ri as int));
                        assert forall|t: int|
                            #[trigger] first_rate_at(rates@, heir_id, asset_id, t) implies t
                            == ri as int by {
                            if t < ri as int {
                                assert(rates@[t].heir_id == heir_id && rates@[t].asset_id
                                    == asset_id);
                            }
                            if t > ri as int {
                                assert(!(rates@[ri as int].heir_id == heir_id
                                    && rates@[ri as int].asset_id == asset_id));
                            }
                        }
                        assert(blocked_spec == rate_rec_blocked(rates@[ri as int], now));
                    }
                    let mut rec = rates.remove(ri);
                    if rec.day_epoch == day_epoch {
                        if rec.count >= PREF_OVERRIDE_DAILY_MAX {
                            blocked = true;
                        } else if (if now >= rec.last_set_at {
                            now - rec.last_set_at
                        } else {
                            0
                        }) < PREF_OVERRIDE_COOLDOWN_SECS {
                            blocked = true;
                        }
                    } else {
                        rec.day_epoch = day_epoch;
                        rec.count = 0;
                    }
                    if !blocked {
                        rec.count = if rec.count == u32::MAX {
                            u32::MAX
                        } else {
                            rec.count + 1
                        };
                        rec.last_set_at = now;
                    }
                    rates.insert(ri, rec);
                },
                None => {
                    rates.push(
                        PayoutOverrideRate {
                            heir_id,
                            asset_id,
                            day_epoch,
                            count: 1,
                            last_set_at: now,
                        },
                    );
                },
            }
        },
        None => {
            proof {
                assert(false);
            }
        },
    }
    proof {
        assert(blocked == blocked_spec);
    }
    if blocked {
        push_audit(u, AuditEventKind::HeirPayoutPreferenceRateLimited { heir_id, asset_id }, now);
        return Err(CivError::RateLimited);
    }
    let share_pref = u.distributions_v2[didx].payout_preference;
    let from_pref;
    let target_idx;
    match find_payout_override(&u.payout_overrides, asset_id, heir_id) {
        Some(oi) => {
            from_pref = u.payout_overrides[oi].payout_preference;
            let rec = u.payout_overrides.remove(oi);
            u.payout_overrides.insert(
                oi,
                HeirPayoutOverride { payout_preference: preference, set_at: now, ..rec },
            );
            target_idx = oi;
        },
        None => {
            from_pref = share_pref;
            u.payout_overrides.push(
                HeirPayoutOverride { heir_id, asset_id, payout_preference: preference, set_at: now },
            );
            target_idx = u.payout_overrides.len() - 1;
        },
    }
    proof {
        assert(u.payout_overrides@[target_idx as int].heir_id == heir_id);
        assert(u.payout_overrides@[target_idx as int].asset_id == asset_id);
        assert(u.payout_overrides@[target_idx as int].payout_preference == preference);
        assert(u.payout_overrides@[target_idx as int].set_at == now);
    }
    push_audit(
        u,
        AuditEventKind::HeirPayoutPreferenceSet {
            heir_id,
            asset_id,
            from: from_pref,
            to: preference,
        },
        now,
    );
    Ok(())
}

/// An entry survives the purge when it is live, or past the removal budget
/// counted over the expired entries before it.
pub open spec fn purge_keep(orig: Seq<HeirSession>, idx: int, max: int, now: u64) -> bool {
    now <= orig[idx].expires_at || expired_before(orig, idx, now) >= max
}

/// Expired entries among the first `j`.
pub open spec fn expired_before(orig: Seq<HeirSession>, j: int, now: u64) -> int
    decreases j,
{
    if j <= 0 {
        0
    } else {
        expired_before(orig, j - 1, now) + if now > orig[j - 1].expires_at {
            1int
        } else {
            0int
        }
    }
}

/// The first `j` entries after the purge.
pub open spec fn purge_kept_prefix(orig: Seq<HeirSession>, j: int, max: int, now: u64) -> Seq<
    HeirSession,
>
    decreases j,
{
    if j <= 0 {
        Seq::empty()
    } else {
        purge_kept_prefix(orig, j - 1, max, now) + if purge_keep(orig, j - 1, max, now) {
            seq![orig[j - 1]]
        } else {
            Seq::empty()
        }
    }
}

/// The expiry events of the removed sessions among the first `j`, in
/// removal order.
pub open spec fn purge_events(orig: Seq<HeirSession>, j: int, max: int, now: u64) -> Seq<
    AuditEventKind,
>
    decreases j,
{
    if j <= 0 {
        Seq::empty()
    } else {
        purge_events(orig, j - 1, max, now) + if !purge_keep(orig, j - 1, max, now) {
            seq![
                AuditEventKind::HeirSessionExpired {
                    heir_id: orig[j - 1].heir_id,
                    session_id: orig[j - 1].id,
                },
            ]
        } else {
            Seq::empty()
        }
    }
}

/// Drop up to `max` expired sessions, in stored order, with an audit event
/// for each removal.
#[verifier::rlimit(100)]
#[verifier::spinoff_prover]
pub fn purge_expired_sessions_for(u: &mut User, max: usize, now: u64)
    ensures
        *final(u) == (User {
            sessions: final(u).sessions,
            audit_log: final(u).audit_log,
            ..*old(u)
        }),
        final(u).sessions@ == purge_kept_prefix(
            old(u).sessions@,
            old(u).sessions@.len() as int,
            max as int,
            now,
        ),
        final(u).audit_log@ == spec_push_audits(
            old(u).audit_log@,
            purge_events(old(u).sessions@, old(u).sessions@.len() as int, max as int, now),
            now,
        ),
{
    let ghost orig = u.sessions@;
    let mut removed: usize = 0;
    let mut i: usize = 0;
    let ghost j: int = 0;
    proof {
        assert(u.sessions@ =~= purge_kept_prefix(orig, 0, max as int, now) + orig.skip(0));
        assert(u.audit_log@ == spec_push_audits(
            old(u).audit_log@,
            purge_events(orig, 0, max as int, now),
            now,
        ));
    }
    while i < u.sessions.len()
        invariant
            0 <= j <= orig.len(),
            u.sessions@ =~= purge_kept_prefix(orig, j, max as int, now) + orig.skip(j),
            i == purge_kept_prefix(orig, j, max as int, now).len(),
            i <= j,
            removed == expired_before(orig, j, now) || removed == max,
            removed == if expired_before(orig, j, now) > max {
                max as int
            } else {
                expired_before(orig, j, now)
            },
            *u == (User { sessions: u.sessions, audit_log: u.audit_log, ..*old(u) }),
            orig == old(u).sessions@,
            u.audit_log@ == spec_push_audits(
                old(u).audit_log@,
                purge_events(orig, j, max as int, now),
                now,
            ),
        decreases orig.len() - j,
    {
        let ghost here = orig[j];
        proof {
            assert(u.sessions@[i as int] == orig.skip(j)[0]);
        }
        let expired = now > u.sessions[i].expires_at;
        if expired && removed < max {
            let sess = u.sessions.remove(i);
            proof {
                assert(!purge_keep(orig, j, max as int, now));
            }
            push_audit(
                u,
                AuditEventKind::HeirSessionExpired { heir_id: sess.heir_id, session_id: sess.id },
                now,
            );
            proof {
                lemma_push_audits_snoc(
                    old(u).audit_log@,
                    purge_events(orig, j, max as int, now),
                    AuditEventKind::HeirSessionExpired {
                        heir_id: orig[j].heir_id,
                        session_id: orig[j].id,
                    },
                    now,
                );
                assert(purge_events(orig, j + 1, max as int, now) =~= purge_events(
                    orig,
                    j,
                    max as int,
                    now,
                ).push(
                    AuditEventKind::HeirSessionExpired {
                        heir_id: orig[j].heir_id,
                        session_id: orig[j].id,
                    },
                ));
            }
            removed = removed + 1;
        } else {
            proof {
                assert(purge_keep(orig, j, max as int, now));
                assert(purge_events(orig, j + 1, max as int, now) =~= purge_events(
                    orig,
                    j,
                    max as int,
                    now,
                ));
            }
            i = i + 1;
        }
        proof {
            assert(u.sessions@ =~= purge_kept_prefix(orig, j + 1, max as int, now) + orig.skip(
                j + 1,
            ));
            j = j + 1;
        }
    }
    proof {
        assert(j == orig.len());
        assert(orig.skip(j) =~= Seq::<HeirSession>::empty());
        assert(u.sessions@ =~= purge_kept_prefix(orig, orig.len() as int, max as int, now));
    }
}

} // verus!
