use civ_backend::ckbridge::{
    classify_eth_temp_unavail, poll_ck_withdraw_apply, request_ck_withdraw, PollOutcome,
};
use civ_backend::model::errors::BridgeErrorKind;
use civ_backend::escrow::{
    deposit_escrow_record, withdraw_escrow_apply, withdraw_escrow_prepare, EscrowDepositInput,
};
use civ_backend::executor::snapshot_workitems;
use civ_backend::model::asset::Asset;
use civ_backend::model::audit::AuditEventKind;
use civ_backend::model::base::{AssetKind, HoldingMode, PayoutPreference};
use civ_backend::model::bridge::{BridgeStatus, BridgeTxInfo, CkWithdrawRecord};
use civ_backend::model::distribution::DistributionShare;
use civ_backend::model::errors::CivError;
use civ_backend::model::integrity::HeirSession;
use civ_backend::model::user::{EstatePhase, User};

fn owner() -> User {
    User::new("2vxsx-fae", 0)
}

fn raw_asset(id: u64, value: u64, decimals: u8, holding: Option<HoldingMode>) -> Asset {
    Asset {
        id,
        name: format!("asset{}", id),
        asset_type: "Cash".to_string(),
        kind: AssetKind::Fungible,
        value,
        decimals,
        description: String::new(),
        created_at: 0,
        updated_at: 0,
        token_canister: Some("aaaaa-aa".to_string()),
        token_id: None,
        holding_mode: holding,
        nft_standard: None,
        chain_wrapped: None,
        file_path: None,
    }
}

#[test]
fn escrow_deposit_then_full_withdraw_empties_the_record() {
    let mut u = owner();
    u.assets.push(raw_asset(1, 100, 1, Some(HoldingMode::Escrow)));
    deposit_escrow_record(
        &mut u,
        EscrowDepositInput { asset_id: 1, amount: Some(100), token_id: None },
        10,
    )
    .unwrap();
    let plan = withdraw_escrow_prepare(&u, 1, Some(100), 20).unwrap();
    assert_eq!(plan.amount, 100);
    withdraw_escrow_apply(&mut u, 1, plan.amount, 21);
    assert!(u.escrow.is_empty());
    match withdraw_escrow_prepare(&u, 1, Some(1), 22) {
        Err(CivError::Other(m)) => assert_eq!(m, "escrow_empty"),
        other => panic!("unexpected: {:?}", other),
    }
}

#[test]
fn escrow_withdraw_is_refused_after_lock() {
    let mut u = owner();
    u.assets.push(raw_asset(1, 100, 1, Some(HoldingMode::Escrow)));
    u.phase = EstatePhase::Locked;
    match withdraw_escrow_prepare(&u, 1, None, 5) {
        Err(CivError::Other(m)) => assert_eq!(m, "escrow_withdraw_locked"),
        other => panic!("unexpected: {:?}", other),
    }
}

#[test]
fn escrow_preflight_refuses_underfunded_asset() {
    let mut u = owner();
    u.assets.push(raw_asset(1, 100, 1, Some(HoldingMode::Escrow)));
    u.escrow.push(civ_backend::model::custody::EscrowRecord {
        asset_id: 1,
        amount: Some(50),
        token_id: None,
        deposited_at: 0,
    });
    u.distributions_v2.push(DistributionShare {
        asset_id: 1,
        heir_id: 1,
        percentage: 100,
        payout_preference: PayoutPreference::ToCustody,
    });
    u.phase = EstatePhase::Locked;
    match snapshot_workitems(&u) {
        Err(CivError::Other(m)) => {
            assert_eq!(m, "escrow_insufficient_required:1:50:100");
        }
        other => panic!("unexpected: {:?}", other),
    }
}

fn staged_withdraw(u: &mut User) {
    u.phase = EstatePhase::Locked;
    u.assets.push(raw_asset(9, 10, 1, Some(HoldingMode::Approval)));
    u.sessions.push(HeirSession {
        id: 4,
        heir_id: 2,
        started_at: 0,
        verified_secret: true,
        bound_principal: false,
        expires_at: 1_000_000,
    });
    u.ck_withdraws.push(CkWithdrawRecord {
        asset_id: 9,
        heir_id: 2,
        amount: 77,
        staged_at: 0,
        requested_at: Some(1),
        completed_at: None,
        tx_index: None,
        bridge_status: Some(BridgeStatus::Submitted),
        bridge_tx_id: Some("42".to_string()),
        bridge_error: None,
        tx_hash: None,
        effective_fee: None,
        quoted_fee: Some(1),
    });
    u.bridge_txs.push(BridgeTxInfo {
        asset_id: 9,
        heir_id: 2,
        l1_address: "0xabc".to_string(),
        submitted_at: 1,
        tx_id: Some("42".to_string()),
        consecutive_misses: Some(0),
        notfound_terminal: Some(false),
    });
}

#[test]
fn five_notfound_polls_close_the_withdrawal_once() {
    let mut u = owner();
    staged_withdraw(&mut u);
    for k in 0..5u64 {
        poll_ck_withdraw_apply(&mut u, 9, 2, PollOutcome::NotFound, 100 + k);
    }
    match &u.ck_withdraws[0].bridge_status {
        Some(BridgeStatus::Failed(m)) => assert_eq!(m, "not_found_terminal"),
        other => panic!("unexpected status: {:?}", other),
    }
    assert_eq!(u.bridge_txs[0].notfound_terminal, Some(true));
    let terminal_events = u
        .audit_log
        .iter()
        .filter(|e| matches!(e.kind, AuditEventKind::BridgePollNotFoundTerminal { .. }))
        .count();
    assert_eq!(terminal_events, 1);
    let before_len = u.audit_log.len();
    let d = poll_ck_withdraw_apply(&mut u, 9, 2, PollOutcome::NotFound, 200);
    assert!(!d.enqueue_retry);
    let after = u
        .audit_log
        .iter()
        .filter(|e| matches!(e.kind, AuditEventKind::BridgePollNotFoundTerminal { .. }))
        .count();
    assert_eq!(after, 1);
    assert!(u.audit_log.len() >= before_len);
}

#[test]
fn completed_poll_seals_the_record_once() {
    let mut u = owner();
    staged_withdraw(&mut u);
    poll_ck_withdraw_apply(
        &mut u,
        9,
        2,
        PollOutcome::Completed { tx_hash: Some("0xdead".to_string()), effective_fee: Some(3) },
        500,
    );
    assert_eq!(u.ck_withdraws[0].completed_at, Some(500));
    assert!(matches!(u.ck_withdraws[0].bridge_status, Some(BridgeStatus::Completed)));
    poll_ck_withdraw_apply(
        &mut u,
        9,
        2,
        PollOutcome::Completed { tx_hash: None, effective_fee: None },
        600,
    );
    assert_eq!(u.ck_withdraws[0].completed_at, Some(500));
}

#[test]
fn request_ck_withdraw_is_single_shot() {
    let mut u = owner();
    staged_withdraw(&mut u);
    u.ck_withdraws[0].requested_at = None;
    request_ck_withdraw(&mut u, 4, 9, 2, 10).unwrap();
    assert_eq!(u.ck_withdraws[0].requested_at, Some(10));
    match request_ck_withdraw(&mut u, 4, 9, 2, 11) {
        Err(CivError::Other(m)) => assert_eq!(m, "already_requested"),
        other => panic!("unexpected: {:?}", other),
    }
}

#[test]
fn eth_unavailability_classifies_by_phrase() {
    assert!(matches!(classify_eth_temp_unavail("Rate Limit hit"), BridgeErrorKind::RateLimited));
    assert!(matches!(
        classify_eth_temp_unavail("wrong CHAIN id"),
        BridgeErrorKind::UnauthorizedChain
    ));
    assert!(matches!(classify_eth_temp_unavail("try later"), BridgeErrorKind::Timeout));
}

#[test]
fn lock_estate_runs_the_escrow_preflight() {
    let mut u = owner();
    u.assets.push(raw_asset(1, 100, 1, Some(HoldingMode::Escrow)));
    u.escrow.push(civ_backend::model::custody::EscrowRecord {
        asset_id: 1,
        amount: Some(50),
        token_id: None,
        deposited_at: 0,
    });
    u.distributions_v2.push(DistributionShare {
        asset_id: 1,
        heir_id: 1,
        percentage: 100,
        payout_preference: PayoutPreference::ToCustody,
    });
    match civ_backend::executor::lock_estate(&mut u, 10) {
        Err(CivError::Other(m)) => {
            assert_eq!(m, "escrow_insufficient_required:1:50:100");
        }
        other => panic!("unexpected: {:?}", other),
    }
    assert!(matches!(u.phase, EstatePhase::Draft));
}

#[test]
fn staging_a_ck_withdraw_is_locked_phase_only() {
    let mut u = owner();
    civ_backend::ckbridge::stage_ck_withdraw(&mut u, 4, 7, 123, 50);
    assert!(u.ck_withdraws.is_empty());
    u.phase = EstatePhase::Locked;
    civ_backend::ckbridge::stage_ck_withdraw(&mut u, 4, 7, 123, 60);
    assert_eq!(u.ck_withdraws.len(), 1);
    let rec = &u.ck_withdraws[0];
    assert_eq!(rec.asset_id, 4);
    assert_eq!(rec.heir_id, 7);
    assert_eq!(rec.amount, 123);
    assert_eq!(rec.staged_at, 60);
    assert!(rec.requested_at.is_none());
    assert!(matches!(rec.bridge_status, Some(BridgeStatus::Staged)));
    assert!(u.audit_log.iter().any(|e| matches!(
        e.kind,
        AuditEventKind::CkWithdrawStaged { asset_id: 4, heir_id: 7, amount: 123 }
    )));
}

#[test]
fn escrow_release_share_is_the_heir_percentage() {
    let mut u = owner();
    u.assets.push(raw_asset(3, 10, 0, Some(HoldingMode::Escrow)));
    u.escrow.push(civ_backend::model::custody::EscrowRecord {
        asset_id: 3,
        amount: Some(200),
        token_id: None,
        deposited_at: 0,
    });
    u.distributions_v2.push(DistributionShare {
        asset_id: 3,
        heir_id: 5,
        percentage: 40,
        payout_preference: PayoutPreference::ToCustody,
    });
    assert_eq!(civ_backend::dispatch::escrow_release_share(&u, 3, 5), 80);
    assert_eq!(civ_backend::dispatch::escrow_release_share(&u, 3, 6), 0);
}

#[test]
fn plan_texts_match_the_recorded_notes() {
    let (note, error) =
        civ_backend::dispatch::escrow_plan_texts(&civ_backend::dispatch::EscrowPlan::Enqueued {
            amount: 5,
        });
    assert_eq!(note.as_deref(), Some("escrow_release_enqueued"));
    assert!(error.is_none());
    let (note, error) = civ_backend::dispatch::fungible_plan_texts(
        &civ_backend::dispatch::FungiblePlan::MissingDestination { amount: 5 },
    );
    assert!(note.is_none());
    assert_eq!(error.as_deref(), Some("missing_destination_principal"));
    assert_eq!(civ_backend::dispatch::custody_pull_note(true), "custody_funded");
}

#[test]
fn escrow_auto_scan_acts_once_per_asset_inside_the_cooldown() {
    let mut u = owner();
    u.distributions_v2.push(DistributionShare {
        asset_id: 3,
        heir_id: 5,
        percentage: 100,
        payout_preference: PayoutPreference::ToCustody,
    });
    let entry = civ_backend::model::custody::EscrowReconEntry {
        asset_id: 3,
        on_chain: Some(10),
        logical_remaining: 60,
        delta: Some(-50),
        status: civ_backend::model::custody::ReconStatus::Shortfall,
        last_checked: 100,
    };
    civ_backend::reconciliation::apply_escrow_recon(&mut u, vec![entry], 100);
    let acts = civ_backend::escrow::scan_escrow_auto_actions(&mut u, 16, 200);
    assert_eq!(acts.len(), 1);
    assert_eq!(acts[0].asset_id, 3);
    assert!(acts[0].top_up);
    assert_eq!(acts[0].amount, 50);
    assert!(u.audit_log.iter().any(|e| matches!(
        e.kind,
        AuditEventKind::EscrowAutoTopUp { asset_id: 3, amount: 50 }
    )));
    let q = u.retry_queue.as_ref().unwrap();
    assert!(q.iter().any(|it| matches!(
        it.kind,
        civ_backend::retry::RetryKind::EscrowRelease { asset_id: 3, heir_id: 5 }
    )));
    let again = civ_backend::escrow::scan_escrow_auto_actions(&mut u, 16, 300);
    assert!(again.is_empty());
    let later = civ_backend::escrow::scan_escrow_auto_actions(&mut u, 16, 200 + 21_600);
    assert_eq!(later.len(), 1);
}
