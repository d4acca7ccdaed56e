use civ_backend::heirs::{add_heir_v2, bind_heir_principal, compute_secret_backoff, verify_heir_secret};
use civ_backend::model::audit::AuditEventKind;
use civ_backend::model::errors::CivError;
use civ_backend::model::heir::HeirAddInputV2;
use civ_backend::model::user::User;
use civ_backend::retry::{
    compute_backoff, enqueue_retry, retry_apply_outcomes, retry_collect_due, retry_prune,
    RetryKind,
};

fn owner() -> User {
    User::new("2vxsx-fae", 0)
}

fn seeded_rng() -> civ_backend::rng::Rng {
    let mut r = civ_backend::rng::rng_new();
    civ_backend::rng::seed(&mut r, vec![9u8; 32]);
    r
}

fn heir_input(secret: &str) -> HeirAddInputV2 {
    HeirAddInputV2 {
        name: "h".to_string(),
        relationship: String::new(),
        email: String::new(),
        phone: String::new(),
        address: String::new(),
        heir_principal: None,
        secret_kind: "phrase".to_string(),
        secret_plain: secret.to_string(),
        identity_claim: None,
        notes: None,
    }
}

#[test]
fn wrong_attempts_raise_the_gate_then_rate_limit() {
    let mut u = owner();
    let mut rng = seeded_rng();
    let hid = add_heir_v2(&mut u, heir_input("correct horse"), &mut rng, 0).unwrap();
    assert!(matches!(verify_heir_secret(&mut u, hid, "nope", 100), Ok(false)));
    assert!(matches!(verify_heir_secret(&mut u, hid, "nope", 110), Ok(false)));
    let sec = &u.heirs_v2[0].identity_secret;
    assert_eq!(sec.attempts, 2);
    assert_eq!(sec.next_allowed_attempt_at, Some(110 + 30));
    match verify_heir_secret(&mut u, hid, "nope", 120) {
        Err(CivError::RateLimited) => {}
        other => panic!("unexpected: {:?}", other),
    }
    let limited = u.audit_log.iter().any(|e| {
        matches!(
            e.kind,
            AuditEventKind::HeirSecretBackoffRateLimited { attempts: 3, wait_secs: w, .. }
            if w <= 30
        )
    });
    assert!(limited);
}

#[test]
fn correct_secret_verifies_and_resets_counters() {
    let mut u = owner();
    let mut rng = seeded_rng();
    let hid = add_heir_v2(&mut u, heir_input("correct horse"), &mut rng, 0).unwrap();
    assert!(matches!(verify_heir_secret(&mut u, hid, "nope", 10), Ok(false)));
    assert!(matches!(verify_heir_secret(&mut u, hid, "correct horse", 50), Ok(true)));
    let sec = &u.heirs_v2[0].identity_secret;
    assert_eq!(sec.attempts, 0);
    assert!(sec.next_allowed_attempt_at.is_none());
    bind_heir_principal(&mut u, hid, "aaaaa-aa".to_string(), 60).unwrap();
    assert_eq!(u.heirs_v2[0].principal.as_deref(), Some("aaaaa-aa"));
}

#[test]
fn secret_backoff_boundaries_hold() {
    assert_eq!(compute_secret_backoff(1), 0);
    assert_eq!(compute_secret_backoff(2), 30);
    assert_eq!(compute_secret_backoff(20), 21600);
}

#[test]
fn retry_backoff_boundaries_hold_per_kind() {
    let kinds = [
        (RetryKind::FungibleCustodyRelease { asset_id: 1, heir_id: 1 }, 60u64, 1800u64),
        (RetryKind::NftCustodyRelease { asset_id: 1, heir_id: 1, token_id: 1 }, 120, 7200),
        (RetryKind::BridgeSubmit { asset_id: 1, heir_id: 1 }, 5, 300),
        (RetryKind::BridgePoll { asset_id: 1, heir_id: 1 }, 5, 600),
        (RetryKind::EscrowRelease { asset_id: 1, heir_id: 1 }, 60, 1800),
    ];
    for (kind, base, cap) in kinds.iter() {
        assert_eq!(compute_backoff(kind, 1), *base);
        assert_eq!(compute_backoff(kind, 20), *cap);
    }
}

#[test]
fn terminal_retries_freeze_and_are_not_collected_again() {
    let mut u = owner();
    let mut rng = seeded_rng();
    let id = enqueue_retry(
        &mut u,
        RetryKind::BridgePoll { asset_id: 1, heir_id: 2 },
        0,
        100,
    );
    let due = retry_collect_due(&mut u, 200);
    assert_eq!(due.len(), 1);
    assert_eq!(due[0].id, id);
    assert_eq!(due[0].attempts, 1);
    let successes = vec![id];
    let errors: Vec<(u64, String)> = Vec::new();
    retry_apply_outcomes(&mut u, &due, &successes, &errors, 8, 210, &mut rng);
    let q = u.retry_queue.as_ref().unwrap();
    assert!(q[0].terminal);
    let frozen_at = q[0].next_attempt_after;
    let due2 = retry_collect_due(&mut u, 10_000);
    assert!(due2.is_empty());
    assert_eq!(u.retry_queue.as_ref().unwrap()[0].next_attempt_after, frozen_at);
    let succeeded = u
        .audit_log
        .iter()
        .any(|e| matches!(e.kind, AuditEventKind::RetrySucceeded { .. }));
    assert!(succeeded);
}

#[test]
fn prune_drops_stale_terminal_items() {
    let mut u = owner();
    let mut rng = seeded_rng();
    let id = enqueue_retry(
        &mut u,
        RetryKind::EscrowRelease { asset_id: 1, heir_id: 1 },
        0,
        0,
    );
    let due = retry_collect_due(&mut u, 10);
    let successes = vec![id];
    let errors: Vec<(u64, String)> = Vec::new();
    retry_apply_outcomes(&mut u, &due, &successes, &errors, 8, 10, &mut rng);
    retry_prune(&mut u, 10 + 601);
    assert!(u.retry_queue.as_ref().unwrap().is_empty());
}

#[test]
fn failed_attempts_reschedule_into_the_future() {
    let mut u = owner();
    let mut rng = seeded_rng();
    let id = enqueue_retry(
        &mut u,
        RetryKind::BridgeSubmit { asset_id: 3, heir_id: 4 },
        0,
        0,
    );
    let due = retry_collect_due(&mut u, 50);
    let successes: Vec<u64> = Vec::new();
    let errors = vec![(id, "call failed: refused".to_string())];
    retry_apply_outcomes(&mut u, &due, &successes, &errors, 8, 60, &mut rng);
    let it = &u.retry_queue.as_ref().unwrap()[0];
    assert!(!it.terminal);
    assert!(it.next_attempt_after >= 60);
    assert_eq!(it.last_error.as_deref(), Some("call failed: refused"));
}
