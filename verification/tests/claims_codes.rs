use civ_backend::assets::infer_asset_kind;
use sha2::Digest;
use civ_backend::errcodes::map_error_code;
use civ_backend::heirs::add_heir_v2;
use civ_backend::model::base::AssetKind;
use civ_backend::model::errors::CivError;
use civ_backend::model::heir::HeirAddInputV2;
use civ_backend::model::user::User;
use civ_backend::sessions::{
    create_claim_link, heir_begin_claim, heir_bind_principal_session,
    heir_set_payout_preference_session, heir_verify_secret_session, purge_expired_sessions_for,
};
use civ_backend::model::base::PayoutPreference;
use civ_backend::strutil::{dec6_string, dec_string_u64};

fn owner() -> User {
    User::new("2vxsx-fae", 0)
}

fn seeded_rng() -> civ_backend::rng::Rng {
    let mut r = civ_backend::rng::rng_new();
    civ_backend::rng::seed(&mut r, vec![5u8; 32]);
    r
}

fn heir_input(secret: &str) -> HeirAddInputV2 {
    HeirAddInputV2 {
        name: "h".to_string(),
        relationship: String::new(),
        email: String::new(),
        phone: String::new(),
        address: String::new(),
        heir_principal: None,
        secret_kind: "phrase".to_string(),
        secret_plain: secret.to_string(),
        identity_claim: None,
        notes: None,
    }
}

#[test]
fn claim_link_burns_once_and_opens_a_session() {
    let mut u = owner();
    let mut rng = seeded_rng();
    let hid = add_heir_v2(&mut u, heir_input("swordfish"), &mut rng, 0).unwrap();
    let unsealed = create_claim_link(&mut u, hid, &mut rng, 10).unwrap();
    assert_eq!(unsealed.code_plain.len(), 6);
    let wrong = if unsealed.code_plain == "000000" { "000001" } else { "000000" };
    match heir_begin_claim(&mut u, unsealed.link_id, wrong, 20) {
        Err(CivError::SecretInvalid) => {}
        other => panic!("unexpected: {:?}", other),
    }
    let sid = heir_begin_claim(&mut u, unsealed.link_id, &unsealed.code_plain, 30).unwrap();
    assert!(u.claim_links[0].used);
    match heir_begin_claim(&mut u, unsealed.link_id, &unsealed.code_plain, 40) {
        Err(CivError::Other(m)) => assert_eq!(m, "link_used"),
        other => panic!("unexpected: {:?}", other),
    }
    assert!(matches!(
        heir_verify_secret_session(&mut u, sid, "swordfish", 50),
        Ok(true)
    ));
    assert!(u.sessions[0].verified_secret);
    heir_bind_principal_session(&mut u, sid, "aaaaa-aa".to_string(), 60).unwrap();
    assert!(u.sessions[0].bound_principal);
    assert_eq!(u.heirs_v2[0].principal.as_deref(), Some("aaaaa-aa"));
}

#[test]
fn payout_preference_override_is_rate_limited() {
    let mut u = owner();
    let mut rng = seeded_rng();
    let hid = add_heir_v2(&mut u, heir_input("swordfish"), &mut rng, 0).unwrap();
    u.assets.push(civ_backend::model::asset::Asset {
        id: 1,
        name: "a".to_string(),
        asset_type: "Cash".to_string(),
        kind: AssetKind::Fungible,
        value: 10,
        decimals: 1,
        description: String::new(),
        created_at: 0,
        updated_at: 0,
        token_canister: None,
        token_id: None,
        holding_mode: None,
        nft_standard: None,
        chain_wrapped: None,
        file_path: None,
    });
    u.distributions_v2.push(civ_backend::model::distribution::DistributionShare {
        asset_id: 1,
        heir_id: hid,
        percentage: 100,
        payout_preference: PayoutPreference::ToCustody,
    });
    let link = create_claim_link(&mut u, hid, &mut rng, 1).unwrap();
    let sid = heir_begin_claim(&mut u, link.link_id, &link.code_plain, 2).unwrap();
    heir_verify_secret_session(&mut u, sid, "swordfish", 3).unwrap();
    heir_set_payout_preference_session(&mut u, sid, 1, PayoutPreference::ToCustody, 100).unwrap();
    assert_eq!(u.payout_overrides.len(), 1);
    match heir_set_payout_preference_session(&mut u, sid, 1, PayoutPreference::ToCustody, 200) {
        Err(CivError::RateLimited) => {}
        other => panic!("cooldown not enforced: {:?}", other),
    }
    match heir_set_payout_preference_session(
        &mut u,
        sid,
        1,
        PayoutPreference::CkWithdraw,
        100 + 7200,
    ) {
        Err(CivError::InvalidPayoutPreference) => {}
        other => panic!("kind matrix not enforced: {:?}", other),
    }
}

#[test]
fn expired_sessions_purge_with_audits() {
    let mut u = owner();
    u.sessions.push(civ_backend::model::integrity::HeirSession {
        id: 1,
        heir_id: 9,
        started_at: 0,
        verified_secret: false,
        bound_principal: false,
        expires_at: 100,
    });
    u.sessions.push(civ_backend::model::integrity::HeirSession {
        id: 2,
        heir_id: 9,
        started_at: 0,
        verified_secret: false,
        bound_principal: false,
        expires_at: 10_000,
    });
    purge_expired_sessions_for(&mut u, 64, 101);
    assert_eq!(u.sessions.len(), 1);
    assert_eq!(u.sessions[0].id, 2);
    assert!(u.audit_log.iter().any(|e| matches!(
        e.kind,
        civ_backend::model::audit::AuditEventKind::HeirSessionExpired { session_id: 1, .. }
    )));
}

#[test]
fn asset_kind_inference_follows_the_label() {
    assert!(matches!(infer_asset_kind("doc"), AssetKind::Document));
    assert!(matches!(infer_asset_kind("Document"), AssetKind::Document));
    assert!(matches!(infer_asset_kind("NFT"), AssetKind::Nft));
    assert!(matches!(infer_asset_kind("mydip721coll"), AssetKind::Nft));
    assert!(matches!(infer_asset_kind("ckBTC"), AssetKind::ChainWrapped));
    assert!(matches!(infer_asset_kind("ckETH token"), AssetKind::ChainWrapped));
    assert!(matches!(infer_asset_kind("Cash"), AssetKind::Fungible));
}

#[test]
fn error_code_normalization_matches_the_table() {
    assert_eq!(map_error_code("missing_approval"), "ERR_MISSING_APPROVAL");
    assert_eq!(
        map_error_code("allowance_not_found_on_chain"),
        "ERR_ALLOWANCE_CHAIN_MISSING"
    );
    assert_eq!(map_error_code("invalid_owner_principal"), "ERR_INVALID_OWNER_PRINCIPAL");
    assert_eq!(map_error_code("missing_destination_principal"), "ERR_MISSING_DESTINATION");
    assert_eq!(map_error_code("dip721_err:Unauthorized"), "NFT_DIP721:Unauthorized");
    assert_eq!(map_error_code("ext_err:TokenNotFound"), "NFT_EXT:TokenNotFound");
    assert_eq!(map_error_code("nft_standard_unsupported:icrc7"), "NFT_UNSUPPORTED:icrc7");
    assert_eq!(map_error_code("somethingelse"), "somethingelse");
}

#[test]
fn decimal_rendering_matches_expected_digits() {
    assert_eq!(dec_string_u64(0), "0");
    assert_eq!(dec_string_u64(42), "42");
    assert_eq!(dec_string_u64(1000000), "1000000");
    assert_eq!(dec6_string(7), "000007");
    assert_eq!(dec6_string(123456), "123456");
}

#[test]
fn sha256_wrapper_hashes_like_the_crate() {
    let h = civ_backend::crypto::sha256(b"abc");
    let expected = sha2::Sha256::digest(b"abc").to_vec();
    assert_eq!(h, expected);
    let salted = civ_backend::crypto::hash_secret_with_salt("secret", b"salt");
    let mut cat = b"salt".to_vec();
    cat.extend_from_slice(b"secret");
    assert_eq!(salted, sha2::Sha256::digest(&cat).to_vec());
}

#[test]
fn session_secret_throttle_rate_limits_with_reported_attempts() {
    let mut u = owner();
    let mut rng = seeded_rng();
    let hid = add_heir_v2(&mut u, heir_input("opensesame"), &mut rng, 0).unwrap();
    let link = create_claim_link(&mut u, hid, &mut rng, 1).unwrap();
    let sid = heir_begin_claim(&mut u, link.link_id, &link.code_plain, 2).unwrap();
    assert!(matches!(
        heir_verify_secret_session(&mut u, sid, "wrong", 100),
        Ok(false)
    ));
    assert!(matches!(
        heir_verify_secret_session(&mut u, sid, "wrong", 110),
        Ok(true) | Ok(false)
    ));
    let sec = &u.heirs_v2[0].identity_secret;
    assert_eq!(sec.attempts, 2);
    assert_eq!(sec.next_allowed_attempt_at, Some(110 + 30));
    match heir_verify_secret_session(&mut u, sid, "wrong", 120) {
        Err(CivError::RateLimited) => {}
        other => panic!("unexpected: {:?}", other),
    }
    assert!(u.audit_log.iter().any(|e| matches!(
        e.kind,
        civ_backend::model::audit::AuditEventKind::HeirSecretBackoffRateLimited {
            attempts: 3,
            wait_secs: w,
            ..
        } if w <= 30
    )));
    assert!(matches!(
        heir_verify_secret_session(&mut u, sid, "opensesame", 110 + 30),
        Ok(true)
    ));
    assert!(u.sessions[0].verified_secret);
}

#[test]
fn notifications_queue_and_settle() {
    let mut u = owner();
    let id = civ_backend::notify::enqueue_notification(
        &mut u,
        civ_backend::model::user::NotificationChannel::Email,
        "warn".to_string(),
        "payload".to_string(),
        5,
    );
    assert_eq!(id, 1);
    assert_eq!(u.notifications.len(), 1);
    assert!(u.notifications[0].sent_at.is_none());
    civ_backend::notify::apply_notification_outcome(&mut u, id, true, 9).unwrap();
    assert_eq!(u.notifications[0].sent_at, Some(9));
    assert_eq!(u.notifications[0].success, Some(true));
    assert_eq!(u.notifications[0].attempts, 1);
    assert!(civ_backend::notify::apply_notification_outcome(&mut u, id, true, 10).is_err());
    assert!(u.audit_log.iter().any(|e| matches!(
        &e.kind,
        civ_backend::model::audit::AuditEventKind::NotificationSent { success: true, .. }
    )));
}
