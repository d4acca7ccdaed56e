use civ_backend::custody::{
    apply_fungible_release_outcome, collect_fungible_releases, custody_subaccount_for_heir,
    withdraw_custody_finish, withdraw_custody_prepare,
};
use civ_backend::dispatch::{
    apply_custody_pull_success, escrow_dispatch, fungible_plan, fungible_with_allowance,
    transfer_amount, EscrowPlan, FungibleCall, FungiblePlan,
};
use civ_backend::executor::{
    build_transfer_record, execution_begin, finalize_execution, next_transfer_id,
    snapshot_workitems, summarize_execution, WorkItem,
};
use civ_backend::heirs::sweep_enqueue_pending_custody;
use civ_backend::model::asset::Asset;
use civ_backend::model::audit::AuditEventKind;
use civ_backend::model::base::{AssetKind, HeirSecretStatus, HoldingMode, PayoutPreference};
use civ_backend::model::custody::{ApprovalRecord, FungibleCustodyRecord};
use civ_backend::model::distribution::DistributionShare;
use civ_backend::model::heir::HeirEx;
use civ_backend::model::payout::TransferErrorKind;
use civ_backend::model::user::{EstatePhase, User};
use civ_backend::retry::RetryKind;

fn owner() -> User {
    User::new("2vxsx-fae", 0)
}

fn verified_heir(id: u64, principal: Option<&str>) -> HeirEx {
    HeirEx {
        id,
        name: "h".to_string(),
        relationship: String::new(),
        email: String::new(),
        phone: String::new(),
        address: String::new(),
        principal: principal.map(|p| p.to_string()),
        identity_secret: civ_backend::model::base::HeirIdentitySecret {
            kind: "phrase".to_string(),
            hash: vec![0; 32],
            salt: vec![0; 16],
            status: HeirSecretStatus::Verified,
            updated_at: 0,
            attempts: 0,
            last_attempt_at: None,
            next_allowed_attempt_at: None,
        },
        identity_hash: None,
        identity_salt: None,
        notes: None,
        created_at: 0,
        updated_at: 0,
    }
}

fn token_asset(id: u64, value: u64, decimals: u8) -> Asset {
    Asset {
        id,
        name: format!("a{}", id),
        asset_type: "Cash".to_string(),
        kind: AssetKind::Fungible,
        value,
        decimals,
        description: String::new(),
        created_at: 0,
        updated_at: 0,
        token_canister: Some("aaaaa-aa".to_string()),
        token_id: None,
        holding_mode: Some(HoldingMode::Approval),
        nft_standard: None,
        chain_wrapped: None,
        file_path: None,
    }
}

#[test]
fn happy_direct_execution_records_one_success() {
    let mut u = owner();
    u.assets.push(token_asset(1, 10, 1));
    u.heirs_v2.push(verified_heir(1, Some("aaaaa-aa")));
    u.distributions_v2.push(DistributionShare {
        asset_id: 1,
        heir_id: 1,
        percentage: 100,
        payout_preference: PayoutPreference::ToPrincipal,
    });
    u.approvals.push(ApprovalRecord {
        asset_id: 1,
        allowance: Some(100),
        token_id: None,
        granted_at: 0,
    });
    u.phase = EstatePhase::Locked;
    let items = execution_begin(&mut u, 1000).unwrap();
    assert_eq!(items.len(), 1);
    let w = &items[0];
    let plan = fungible_plan(&u, w);
    match plan {
        FungiblePlan::DirectNeedAllowance { amount } => assert_eq!(amount, 100),
        other => panic!("unexpected plan: {:?}", other),
    }
    let call = fungible_with_allowance(&mut u, w, false, 100, Some(100));
    assert!(matches!(call, FungibleCall::SendTransferFrom { amount: 100 }));
    let id = next_transfer_id(&u);
    let rec = build_transfer_record(
        w,
        1000,
        id,
        Some(100),
        Some(42),
        Some("icrc2_transfer_from".to_string()),
        None,
    );
    assert_eq!(rec.amount, Some(100));
    assert_eq!(rec.tx_index, Some(42));
    assert!(rec.error.is_none());
    let records = vec![rec];
    let summary = summarize_execution(&records, 1000, 1001, 0, true);
    assert_eq!(summary.total_items, 1);
    assert_eq!(summary.success_count, 1);
    assert_eq!(summary.failure_count, 0);
    assert_eq!(summary.skipped_count, 0);
    finalize_execution(&mut u, records, 1000, summary);
    assert!(matches!(u.phase, EstatePhase::Executed));
    assert_eq!(u.transfers.len(), 1);
    assert_eq!(u.transfers[0].id, 1);
    assert!(u.execution_nonce.is_none());
}

#[test]
fn transfer_amount_scales_by_decimals() {
    assert_eq!(transfer_amount(10, 100, 1), 100);
    assert_eq!(transfer_amount(100, 50, 0), 50);
    assert_eq!(transfer_amount(100, 100, 2), 10000);
    assert_eq!(civ_backend::heir_share_amount(1000, 25), 250);
    assert_eq!(civ_backend::heir_share_amount(7, 50), 3);
}

#[test]
fn error_codes_normalize_into_kinds() {
    let w = WorkItem {
        asset_id: 1,
        token_canister: None,
        token_id: None,
        holding_mode: None,
        heir_id: 1,
        payout_pref: PayoutPreference::ToPrincipal,
    };
    let rec = build_transfer_record(
        &w,
        5,
        1,
        None,
        None,
        None,
        Some("missing_approval".to_string()),
    );
    assert_eq!(rec.error.as_deref(), Some("ERR_MISSING_APPROVAL"));
    assert!(matches!(rec.error_kind, Some(TransferErrorKind::MissingApproval)));
    let rec2 = build_transfer_record(
        &w,
        5,
        2,
        None,
        None,
        None,
        Some("dip721_err:TokenNotFound".to_string()),
    );
    assert_eq!(rec2.error.as_deref(), Some("NFT_DIP721:TokenNotFound"));
    assert!(matches!(rec2.error_kind, Some(TransferErrorKind::NftDip721)));
}

#[test]
fn custody_release_waits_for_a_principal_then_releases() {
    let mut u = owner();
    u.assets.push(token_asset(7, 40, 0));
    u.heirs_v2.push(verified_heir(3, None));
    u.approvals.push(ApprovalRecord {
        asset_id: 7,
        allowance: Some(100),
        token_id: None,
        granted_at: 0,
    });
    u.fungible_custody.push(FungibleCustodyRecord {
        asset_id: 7,
        heir_id: 3,
        amount: 40,
        staged_at: 10,
        released_at: None,
        attempts: 0,
        last_error: None,
        releasing: false,
        next_attempt_after: None,
    });
    let due = collect_fungible_releases(&mut u, 100);
    assert_eq!(due.len(), 1);
    apply_fungible_release_outcome(
        &mut u,
        7,
        3,
        false,
        Some("missing_destination_or_canister".to_string()),
        false,
        110,
    );
    assert!(u.fungible_custody[0].released_at.is_none());
    assert_eq!(u.fungible_custody[0].attempts, 1);
    u.heirs_v2[0].principal = Some("aaaaa-aa".to_string());
    sweep_enqueue_pending_custody(&mut u, 3, 120);
    let q = u.retry_queue.as_ref().unwrap();
    assert!(q.iter().any(|it| matches!(
        it.kind,
        RetryKind::FungibleCustodyRelease { asset_id: 7, heir_id: 3 }
    )));
    u.fungible_custody[0].next_attempt_after = None;
    apply_fungible_release_outcome(&mut u, 7, 3, true, None, true, 200);
    assert_eq!(u.fungible_custody[0].released_at, Some(200));
    assert_eq!(u.approvals[0].allowance, Some(60));
    assert!(u.audit_log.iter().any(|e| matches!(
        e.kind,
        AuditEventKind::FungibleCustodyReleased { amount: 40, .. }
    )));
    let stamped = u.fungible_custody[0].released_at;
    apply_fungible_release_outcome(&mut u, 7, 3, true, None, true, 300);
    assert_eq!(u.fungible_custody[0].released_at, stamped);
}

#[test]
fn custody_pull_stages_a_record_and_decrements_allowance() {
    let mut u = owner();
    u.assets.push(token_asset(1, 10, 1));
    u.heirs_v2.push(verified_heir(2, Some("aaaaa-aa")));
    u.approvals.push(ApprovalRecord {
        asset_id: 1,
        allowance: Some(500),
        token_id: None,
        granted_at: 0,
    });
    let w = WorkItem {
        asset_id: 1,
        token_canister: Some("aaaaa-aa".to_string()),
        token_id: None,
        holding_mode: Some(HoldingMode::Approval),
        heir_id: 2,
        payout_pref: PayoutPreference::ToCustody,
    };
    let call = fungible_with_allowance(&mut u, &w, true, 100, Some(500));
    assert!(matches!(call, FungibleCall::PullToCustody { amount: 100 }));
    assert_eq!(u.custody.len(), 1);
    apply_custody_pull_success(&mut u, &w, 100, 50);
    assert_eq!(u.approvals[0].allowance, Some(400));
    assert_eq!(u.fungible_custody.len(), 1);
    assert_eq!(u.fungible_custody[0].amount, 100);
}

#[test]
fn withdraw_custody_round_trip_marks_the_record() {
    let mut u = owner();
    u.phase = EstatePhase::Locked;
    u.assets.push(token_asset(1, 100, 0));
    u.heirs_v2.push(verified_heir(2, Some("aaaaa-aa")));
    u.distributions_v2.push(DistributionShare {
        asset_id: 1,
        heir_id: 2,
        percentage: 40,
        payout_preference: PayoutPreference::ToPrincipal,
    });
    u.fungible_custody.push(FungibleCustodyRecord {
        asset_id: 1,
        heir_id: 2,
        amount: 40,
        staged_at: 1,
        released_at: None,
        attempts: 0,
        last_error: None,
        releasing: false,
        next_attempt_after: None,
    });
    let plan = withdraw_custody_prepare(&mut u, 1, 2, 900).unwrap();
    assert_eq!(plan.amount, 40);
    assert_eq!(u.transfers.len(), 1);
    assert_eq!(
        u.transfers[0].note.as_deref(),
        Some("custody_withdraw_pending_transfer")
    );
    withdraw_custody_finish(&mut u, plan.transfer_id, 1, 2, Some(11), None, 905);
    assert_eq!(u.transfers[0].tx_index, Some(11));
    assert_eq!(
        u.transfers[0].note.as_deref(),
        Some("custody_withdraw_transferred")
    );
    assert_eq!(u.fungible_custody[0].released_at, Some(905));
}

#[test]
fn escrow_dispatch_enqueues_a_release_for_a_bound_heir() {
    let mut u = owner();
    let mut asset = token_asset(5, 100, 1);
    asset.holding_mode = Some(HoldingMode::Escrow);
    u.assets.push(asset);
    u.heirs_v2.push(verified_heir(6, Some("aaaaa-aa")));
    u.distributions_v2.push(DistributionShare {
        asset_id: 5,
        heir_id: 6,
        percentage: 50,
        payout_preference: PayoutPreference::ToCustody,
    });
    u.escrow.push(civ_backend::model::custody::EscrowRecord {
        asset_id: 5,
        amount: Some(100),
        token_id: None,
        deposited_at: 0,
    });
    let w = WorkItem {
        asset_id: 5,
        token_canister: Some("aaaaa-aa".to_string()),
        token_id: None,
        holding_mode: Some(HoldingMode::Escrow),
        heir_id: 6,
        payout_pref: PayoutPreference::ToCustody,
    };
    match escrow_dispatch(&mut u, &w, 10) {
        EscrowPlan::Enqueued { amount } => assert_eq!(amount, 50),
        other => panic!("unexpected: {:?}", other),
    }
    assert!(u.retry_queue.as_ref().unwrap().iter().any(|it| matches!(
        it.kind,
        RetryKind::EscrowRelease { asset_id: 5, heir_id: 6 }
    )));
    let sub = custody_subaccount_for_heir(&mut u, 6);
    assert_eq!(sub.len(), 32);
    let again = custody_subaccount_for_heir(&mut u, 6);
    assert_eq!(sub, again);
}

#[test]
fn snapshot_applies_overrides_and_decimals_gate() {
    let mut u = owner();
    u.assets.push(token_asset(1, 10, 0));
    u.distributions_v2.push(DistributionShare {
        asset_id: 1,
        heir_id: 1,
        percentage: 100,
        payout_preference: PayoutPreference::ToPrincipal,
    });
    u.approvals.push(ApprovalRecord {
        asset_id: 1,
        allowance: None,
        token_id: None,
        granted_at: 0,
    });
    u.phase = EstatePhase::Locked;
    match snapshot_workitems(&u) {
        Err(civ_backend::model::errors::CivError::Other(m)) => {
            assert_eq!(m, "decimals_missing_gate")
        }
        other => panic!("unexpected: {:?}", other),
    }
    u.assets[0].decimals = 1;
    u.payout_overrides.push(civ_backend::model::distribution::HeirPayoutOverride {
        heir_id: 1,
        asset_id: 1,
        payout_preference: PayoutPreference::ToCustody,
        set_at: 0,
    });
    let items = snapshot_workitems(&u).unwrap();
    assert_eq!(items.len(), 1);
    assert!(matches!(items[0].payout_pref, PayoutPreference::ToCustody));
}

#[test]
fn integrity_report_partitions_assets_and_names_issues() {
    let mut u = User::new("2vxsx-fae", 0);
    for id in [1u64, 2, 3, 4] {
        u.assets.push(token_asset(id, 10, 0));
    }
    u.heirs.push(civ_backend::model::heir::Heir {
        id: 1,
        name: "h".to_string(),
        relationship: String::new(),
        email: String::new(),
        phone: String::new(),
        address: String::new(),
        created_at: 0,
        updated_at: 0,
    });
    let d = |asset_id: u64, heir_id: u64, percentage: u8| {
        civ_backend::model::distribution::AssetDistribution { asset_id, heir_id, percentage }
    };
    u.distributions.push(d(1, 1, 120));
    u.distributions.push(d(2, 1, 100));
    u.distributions.push(d(3, 1, 40));
    u.distributions.push(d(9, 7, 0));
    let r = civ_backend::distributions::check_integrity(&u);
    assert_eq!(r.asset_count, 4);
    assert_eq!(r.distribution_count, 4);
    assert_eq!(r.over_allocated_assets, vec![1]);
    assert_eq!(r.fully_allocated_assets, vec![2]);
    assert_eq!(r.partially_allocated_assets, vec![3]);
    assert_eq!(r.unallocated_assets, vec![4]);
    assert_eq!(r.issues.len(), 3);
    assert_eq!(r.issues[0], "Distribution references missing asset 9");
    assert_eq!(r.issues[1], "Distribution references missing heir 7");
    assert_eq!(r.issues[2], "Zero percentage entry asset 9 heir 7");
}

#[test]
fn metrics_frame_counts_kinds_and_totals() {
    let mut u = User::new("2vxsx-fae", 0);
    civ_backend::retry::enqueue_retry(
        &mut u,
        civ_backend::retry::RetryKind::BridgePoll { asset_id: 1, heir_id: 2 },
        5,
        0,
    );
    civ_backend::retry::enqueue_retry(
        &mut u,
        civ_backend::retry::RetryKind::BridgePoll { asset_id: 1, heir_id: 3 },
        5,
        0,
    );
    u.fungible_custody.push(civ_backend::model::custody::FungibleCustodyRecord {
        asset_id: 4,
        heir_id: 2,
        amount: 30,
        staged_at: 0,
        released_at: None,
        attempts: 0,
        last_error: None,
        releasing: false,
        next_attempt_after: None,
    });
    u.fungible_custody.push(civ_backend::model::custody::FungibleCustodyRecord {
        asset_id: 4,
        heir_id: 3,
        amount: 12,
        staged_at: 0,
        released_at: None,
        attempts: 0,
        last_error: None,
        releasing: false,
        next_attempt_after: None,
    });
    let frame = civ_backend::metrics::metrics_frame_of(&u, 77);
    assert_eq!(frame.ts, 77);
    assert_eq!(frame.retry_counts.len(), 5);
    assert_eq!(frame.retry_counts[3].kind_name, "BridgePoll");
    assert_eq!(frame.retry_counts[3].count, 2);
    assert_eq!(frame.retry_counts[0].count, 0);
    assert_eq!(frame.custody_totals.len(), 1);
    assert_eq!(frame.custody_totals[0].asset_id, 4);
    assert_eq!(frame.custody_totals[0].total, 42);
    civ_backend::metrics::push_metrics_frame(&mut u, frame, 1);
    let frame2 = civ_backend::metrics::metrics_frame_of(&u, 78);
    civ_backend::metrics::push_metrics_frame(&mut u, frame2, 1);
    assert_eq!(u.metrics_history.len(), 1);
    assert_eq!(u.metrics_history[0].ts, 78);
}

#[test]
fn reconciliation_is_due_only_with_open_custody_and_stale_snapshot() {
    let mut u = User::new("2vxsx-fae", 0);
    assert!(!civ_backend::reconciliation::recon_due(&u, 1_000_000));
    u.fungible_custody.push(civ_backend::model::custody::FungibleCustodyRecord {
        asset_id: 4,
        heir_id: 2,
        amount: 30,
        staged_at: 0,
        released_at: None,
        attempts: 0,
        last_error: None,
        releasing: false,
        next_attempt_after: None,
    });
    assert!(civ_backend::reconciliation::recon_due(&u, 1_000_000));
    let entry = civ_backend::reconciliation::build_custody_entry(4, 2, 30, Some(30), 1_000_000);
    civ_backend::reconciliation::apply_custody_recon(&mut u, vec![entry], 1_000_000);
    assert!(!civ_backend::reconciliation::recon_due(&u, 1_000_000 + 100));
    assert!(civ_backend::reconciliation::recon_due(&u, 1_000_000 + 21_600));
}
