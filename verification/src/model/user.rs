use vstd::prelude::*;

use super::asset::Asset;
use super::audit::AuditEvent;
use super::bridge::{BridgeTxInfo, CkWithdrawRecord};
use super::custody::{
    ApprovalRecord, CustodyReconEntry, CustodyRecord, EscrowReconEntry, EscrowRecord,
    FungibleCustodyRecord, NftCustodyRecord,
};
use super::distribution::{AssetDistribution, DistributionShare, HeirPayoutOverride};
use super::document::{DocumentEntry, DocumentUploadSession};
use super::heir::{Heir, HeirEx};
use super::integrity::{ClaimLink, HeirSession};
use super::payout::{LedgerAttestation, TransferRecord};
use crate::retry::{AdaptiveKindEntry, RetryItem};

verus! {

#[derive(Clone, Copy, PartialEq, Eq, Structural, Debug)]
pub enum NotificationChannel {
    Email,
    Sms,
}

pub struct NotificationRecord {
    pub id: u64,
    pub channel: NotificationChannel,
    pub template: String,
    pub payload: String,
    pub queued_at: u64,
    pub sent_at: Option<u64>,
    pub success: Option<bool>,
    pub attempts: u32,
}

/// Count of queued retry items of one kind.
pub struct RetryKindCount {
    pub kind_name: String,
    pub count: u64,
}

/// Unreleased or remaining total per asset.
pub struct AssetAmountTotal {
    pub asset_id: u64,
    pub total: u128,
}

/// One frame of the periodic metrics ring.
pub struct MetricsFrame {
    pub ts: u64,
    pub retry_counts: Vec<RetryKindCount>,
    pub custody_totals: Vec<AssetAmountTotal>,
    pub escrow_totals: Vec<AssetAmountTotal>,
    pub custody_discrepancies: u64,
    pub escrow_discrepancies: u64,
}

#[derive(Clone, Copy, PartialEq, Eq, Structural, Debug)]
pub enum EstatePhase {
    Draft,
    Warning,
    Locked,
    Executed,
}

pub struct ExecutionSummary {
    pub started_at: u64,
    pub finished_at: u64,
    pub total_items: u64,
    pub success_count: u64,
    pub failure_count: u64,
    pub skipped_count: u64,
    pub ck_staged_count: u64,
    pub auto: bool,
}

pub struct EstateStatus {
    pub phase: EstatePhase,
    pub seconds_to_expiry: i64,
    pub warning_started_at: Option<u64>,
    pub locked_at: Option<u64>,
    pub executed_at: Option<u64>,
}

/// Rate-limit bucket for heir payout-preference overrides.
pub struct PayoutOverrideRate {
    pub heir_id: u64,
    pub asset_id: u64,
    pub day_epoch: u64,
    pub count: u32,
    pub last_set_at: u64,
}

pub struct ReadinessCache {
    pub computed_at: u64,
    pub ready: bool,
    pub issues: Vec<String>,
}

/// The one persistent record: everything the custodian knows of a principal.
pub struct User {
    pub user: String,
    pub assets: Vec<Asset>,
    pub heirs: Vec<Heir>,
    pub distributions: Vec<AssetDistribution>,
    pub timer_expiry: u64,
    pub distributed: bool,
    pub last_timer_reset: u64,
    pub distributions_v2: Vec<DistributionShare>,
    pub heirs_v2: Vec<HeirEx>,
    pub documents: Vec<DocumentEntry>,
    pub custody: Vec<CustodyRecord>,
    pub escrow: Vec<EscrowRecord>,
    pub approvals: Vec<ApprovalRecord>,
    pub ck_withdraws: Vec<CkWithdrawRecord>,
    pub audit_log: Vec<AuditEvent>,
    pub phase: EstatePhase,
    pub warning_started_at: Option<u64>,
    pub locked_at: Option<u64>,
    pub executed_at: Option<u64>,
    pub transfers: Vec<TransferRecord>,
    pub doc_master_key: Option<Vec<u8>>,
    pub claim_links: Vec<ClaimLink>,
    pub sessions: Vec<HeirSession>,
    pub bridge_txs: Vec<BridgeTxInfo>,
    pub payout_overrides: Vec<HeirPayoutOverride>,
    pub execution_nonce: Option<u64>,
    pub last_execution_summary: Option<ExecutionSummary>,
    pub nft_custody: Vec<NftCustodyRecord>,
    pub fungible_custody: Vec<FungibleCustodyRecord>,
    pub retry_queue: Option<Vec<RetryItem>>,
    pub retry_seq: u64,
    pub schema_version: u16,
    pub custody_recon: Option<Vec<CustodyReconEntry>>,
    pub escrow_recon: Option<Vec<EscrowReconEntry>>,
    pub notifications: Vec<NotificationRecord>,
    pub metrics_history: Vec<MetricsFrame>,
    pub retry_adaptive: Option<Vec<AdaptiveKindEntry>>,
    pub payout_override_rates: Option<Vec<PayoutOverrideRate>>,
    pub doc_uploads: Option<Vec<DocumentUploadSession>>,
    pub readiness_cache: Option<ReadinessCache>,
    pub ledger_attestation: Option<LedgerAttestation>,
    pub audit_prune_in_progress: bool,
}

pub const CURRENT_SCHEMA_VERSION: u16 = 9;

pub const INACTIVITY_PERIOD_SECS: u64 = 2592000;

pub const WARNING_WINDOW_SECS: u64 = 604800;

impl User {
    /// Fresh aggregate for a principal, at the current schema version.
    pub fn new(principal: &str, timer_expiry: u64) -> (u: User)
        ensures
            u.user@ == principal@,
            u.timer_expiry == timer_expiry,
            u.phase == EstatePhase::Draft,
            u.assets@.len() == 0,
            u.heirs@.len() == 0,
            u.heirs_v2@.len() == 0,
            u.distributions@.len() == 0,
            u.distributions_v2@.len() == 0,
            u.documents@.len() == 0,
            u.custody@.len() == 0,
            u.escrow@.len() == 0,
            u.approvals@.len() == 0,
            u.ck_withdraws@.len() == 0,
            u.audit_log@.len() == 0,
            u.transfers@.len() == 0,
            u.claim_links@.len() == 0,
            u.sessions@.len() == 0,
            u.bridge_txs@.len() == 0,
            u.payout_overrides@.len() == 0,
            u.nft_custody@.len() == 0,
            u.fungible_custody@.len() == 0,
            u.notifications@.len() == 0,
            u.metrics_history@.len() == 0,
            u.warning_started_at is None,
            u.locked_at is None,
            u.executed_at is None,
            u.execution_nonce is None,
            u.last_execution_summary is None,
            u.retry_queue is None,
            u.custody_recon is None,
            u.escrow_recon is None,
            u.retry_adaptive is None,
            u.payout_override_rates is None,
            u.doc_uploads is None,
            u.readiness_cache is None,
            u.ledger_attestation is None,
            u.doc_master_key is None,
            u.distributed == false,
            u.last_timer_reset == 0,
            u.audit_prune_in_progress == false,
            u.retry_seq == 0,
            u.schema_version == CURRENT_SCHEMA_VERSION,
    {
        User {
            user: principal.to_owned(),
            assets: Vec::new(),
            heirs: Vec::new(),
            distributions: Vec::new(),
            timer_expiry,
            distributed: false,
            last_timer_reset: 0,
            distributions_v2: Vec::new(),
            heirs_v2: Vec::new(),
            documents: Vec::new(),
            custody: Vec::new(),
            escrow: Vec::new(),
            approvals: Vec::new(),
            ck_withdraws: Vec::new(),
            audit_log: Vec::new(),
            phase: EstatePhase::Draft,
            warning_started_at: None,
            locked_at: None,
            executed_at: None,
            transfers: Vec::new(),
            doc_master_key: None,
            claim_links: Vec::new(),
            sessions: Vec::new(),
            bridge_txs: Vec::new(),
            payout_overrides: Vec::new(),
            execution_nonce: None,
            last_execution_summary: None,
            nft_custody: Vec::new(),
            fungible_custody: Vec::new(),
            retry_queue: None,
            retry_seq: 0,
            schema_version: CURRENT_SCHEMA_VERSION,
            custody_recon: None,
            escrow_recon: None,
            notifications: Vec::new(),
            metrics_history: Vec::new(),
            retry_adaptive: None,
            payout_override_rates: None,
            doc_uploads: None,
            readiness_cache: None,
            ledger_attestation: None,
            audit_prune_in_progress: false,
        }
    }
}

} // verus!
