//! Append-only audit log per user: monotone event ids, FIFO retention cap,
//! pagination, filtering and pruning.

use vstd::prelude::*;

use crate::model::audit::{AuditEvent, AuditEventKind};
use crate::model::user::User;

verus! {

/// Soft cap on the audit log; excess drains FIFO.
pub const MAX_AUDIT_EVENTS: usize = 10000;

/// Largest event id present, 0 for an empty log.
pub open spec fn max_audit_id(log: Seq<AuditEvent>) -> int
    decreases log.len(),
{
    if log.len() == 0 {
        0
    } else {
        let rest = max_audit_id(log.drop_last());
        if log.last().id > rest {
            log.last().id as int
        } else {
            rest
        }
    }
}

/// Next event id: one past the maximum, saturating at the type's end.
pub open spec fn next_audit_id(log: Seq<AuditEvent>) -> u64 {
    if max_audit_id(log) >= u64::MAX {
        u64::MAX
    } else {
        (max_audit_id(log) + 1) as u64
    }
}

/// The log after appending `kind` at `now`: the new event carries the next
/// id, and the front drains once the cap is passed.
pub open spec fn spec_push_audit(log: Seq<AuditEvent>, kind: AuditEventKind, now: u64) -> Seq<
    AuditEvent,
> {
    let grown = log.push(AuditEvent { id: next_audit_id(log), timestamp: now, kind });
    if grown.len() > MAX_AUDIT_EVENTS as nat {
        grown.skip(grown.len() - MAX_AUDIT_EVENTS as nat)
    } else {
        grown
    }
}

proof fn lemma_max_audit_id_nonneg(log: Seq<AuditEvent>)
    ensures
        0 <= max_audit_id(log) <= u64::MAX,
    decreases log.len(),
{
    if log.len() > 0 {
        lemma_max_audit_id_nonneg(log.drop_last());
    }
}

fn max_audit_id_exec(log: &Vec<AuditEvent>) -> (r: u64)
    ensures
        r == max_audit_id(log@),
{
    let mut m: u64 = 0;
    let mut i: usize = 0;
    while i < log.len()
        invariant
            i <= log@.len(),
            m == max_audit_id(log@.subrange(0, i as int)),
        decreases log@.len() - i,
    {
        proof {
            assert(log@.subrange(0, i + 1).drop_last() =~= log@.subrange(0, i as int));
            assert(log@.subrange(0, i + 1).last() == log@[i as int]);
            lemma_max_audit_id_nonneg(log@.subrange(0, i as int));
        }
        if log[i].id > m {
            m = log[i].id;
        }
        i = i + 1;
    }
    proof {
        assert(log@.subrange(0, log@.len() as int) =~= log@);
    }
    m
}

/// Append one event to the user's log, with FIFO retention past the cap.
pub fn push_audit(u: &mut User, kind: AuditEventKind, now: u64)
    ensures
        *final(u) == (User { audit_log: final(u).audit_log, ..*old(u) }),
        final(u).audit_log@ == spec_push_audit(old(u).audit_log@, kind, now),
{
    let m = max_audit_id_exec(&u.audit_log);
    let id = if m == u64::MAX {
        u64::MAX
    } else {
        proof {
            lemma_max_audit_id_nonneg(u.audit_log@);
        }
        m + 1
    };
    let ghost grown = u.audit_log@.push(
        AuditEvent { id: next_audit_id(u.audit_log@), timestamp: now, kind },
    );
    u.audit_log.push(AuditEvent { id, timestamp: now, kind });
    let ghost removed: int = 0;
    while u.audit_log.len() > MAX_AUDIT_EVENTS
        invariant
            u.audit_log@ =~= grown.skip(removed),
            0 <= removed <= grown.len(),
            removed <= if grown.len() > MAX_AUDIT_EVENTS as nat {
                grown.len() - MAX_AUDIT_EVENTS as nat
            } else {
                0
            },
            *u == (User { audit_log: u.audit_log, ..*old(u) }),
        decreases u.audit_log@.len(),
    {
        u.audit_log.remove(0);
        proof {
            assert(grown.skip(removed).remove(0) =~= grown.skip(removed + 1));
            removed = removed + 1;
        }
    }
    proof {
        if grown.len() > MAX_AUDIT_EVENTS as nat {
            assert(u.audit_log@.len() == MAX_AUDIT_EVENTS as nat);
            assert(removed == grown.len() - MAX_AUDIT_EVENTS as nat);
        } else {
            assert(removed == 0);
            assert(grown.skip(0) =~= grown);
        }
    }
}

/// The user's whole audit log, oldest first.
pub fn list_audit_log(u: &User) -> (r: &Vec<AuditEvent>)
    ensures
        r@ == u.audit_log@,
{
    &u.audit_log
}

/// A page of the audit log: `limit` events from `offset`.
pub fn list_audit_paged<'a>(u: &'a User, offset: usize, limit: usize) -> (r: &'a [AuditEvent])
    ensures
        offset >= u.audit_log@.len() ==> r@ =~= Seq::<AuditEvent>::empty(),
        offset < u.audit_log@.len() ==> r@ =~= u.audit_log@.subrange(
            offset as int,
            if offset + limit <= u.audit_log@.len() {
                offset + limit
            } else {
                u.audit_log@.len() as int
            },
        ),
{
    let len = u.audit_log.len();
    if offset >= len {
        return vstd::slice::slice_subrange(u.audit_log.as_slice(), 0, 0);
    }
    let end = if limit > len - offset {
        len
    } else {
        offset + limit
    };
    vstd::slice::slice_subrange(u.audit_log.as_slice(), offset, end)
}

/// Copies agree on every field; the attested root is compared by its bytes.
pub open spec fn kind_eq(a: AuditEventKind, b: AuditEventKind) -> bool {
    match a {
        AuditEventKind::LedgerAttested { merkle_root: m } => {
            &&& b matches AuditEventKind::LedgerAttested { merkle_root: m2 }
            &&& m2@ == m@
        },
        _ => a == b,
    }
}

/// Event copies agree on id, timestamp and kind (roots by their bytes).
pub open spec fn event_eq(a: AuditEvent, b: AuditEvent) -> bool {
    a.id == b.id && a.timestamp == b.timestamp && kind_eq(a.kind, b.kind)
}

/// Field-for-field copy of one audit event.
pub fn clone_audit_event(e: &AuditEvent) -> (r: AuditEvent)
    ensures
        event_eq(r, *e),
{
    AuditEvent { id: e.id, timestamp: e.timestamp, kind: clone_audit_kind(&e.kind) }
}

fn clone_string(s: &String) -> (r: String)
    ensures
        r@ == s@,
        r == *s,
{
    let r = s.clone();
    proof {
        assert(r@ == s@);
        assert(r == *s);
    }
    r
}

fn clone_audit_kind(k: &AuditEventKind) -> (r: AuditEventKind)
    ensures
        kind_eq(r, *k),
{
    match k {
        AuditEventKind::UserCreated => AuditEventKind::UserCreated,
        AuditEventKind::AssetAdded { asset_id } => AuditEventKind::AssetAdded {
            asset_id: *asset_id,
        },
        AuditEventKind::AssetUpdated { asset_id } => AuditEventKind::AssetUpdated {
            asset_id: *asset_id,
        },
        AuditEventKind::AssetMetadataUpdated { asset_id } => AuditEventKind::AssetMetadataUpdated {
            asset_id: *asset_id,
        },
        AuditEventKind::AssetRemoved { asset_id } => AuditEventKind::AssetRemoved {
            asset_id: *asset_id,
        },
        AuditEventKind::HeirAdded { heir_id } => AuditEventKind::HeirAdded { heir_id: *heir_id },
        AuditEventKind::HeirUpdated { heir_id } => AuditEventKind::HeirUpdated {
            heir_id: *heir_id,
        },
        AuditEventKind::HeirRemoved { heir_id } => AuditEventKind::HeirRemoved {
            heir_id: *heir_id,
        },
        AuditEventKind::DistributionSet { asset_id } => AuditEventKind::DistributionSet {
            asset_id: *asset_id,
        },
        AuditEventKind::DistributionDeleted { asset_id, heir_id } => (AuditEventKind::DistributionDeleted {
            asset_id: *asset_id,
            heir_id: *heir_id,
        }),
        AuditEventKind::TimerReset => AuditEventKind::TimerReset,
        AuditEventKind::TriggerExecuted => AuditEventKind::TriggerExecuted,
        AuditEventKind::HeirSecretVerified { heir_id } => AuditEventKind::HeirSecretVerified {
            heir_id: *heir_id,
        },
        AuditEventKind::HeirPrincipalBound { heir_id } => AuditEventKind::HeirPrincipalBound {
            heir_id: *heir_id,
        },
        AuditEventKind::PhaseChanged { from, to } => AuditEventKind::PhaseChanged {
            from: *from,
            to: *to,
        },
        AuditEventKind::EscrowDeposited { asset_id, amount } => (AuditEventKind::EscrowDeposited {
            asset_id: *asset_id,
            amount: *amount,
        }),
        AuditEventKind::EscrowWithdrawn { asset_id, amount } => (AuditEventKind::EscrowWithdrawn {
            asset_id: *asset_id,
            amount: *amount,
        }),
        AuditEventKind::EscrowReleaseAttempt { asset_id, heir_id, amount, attempt } => (AuditEventKind::EscrowReleaseAttempt {
            asset_id: *asset_id,
            heir_id: *heir_id,
            amount: *amount,
            attempt: *attempt,
        }),
        AuditEventKind::EscrowReleased { asset_id, heir_id, amount } => (AuditEventKind::EscrowReleased {
            asset_id: *asset_id,
            heir_id: *heir_id,
            amount: *amount,
        }),
        AuditEventKind::EscrowReleaseFailed { asset_id, heir_id, amount, attempt, error } => (AuditEventKind::EscrowReleaseFailed {
            asset_id: *asset_id,
            heir_id: *heir_id,
            amount: *amount,
            attempt: *attempt,
            error: clone_string(error),
        }),
        AuditEventKind::ApprovalSet { asset_id } => AuditEventKind::ApprovalSet {
            asset_id: *asset_id,
        },
        AuditEventKind::ApprovalRevoked { asset_id } => AuditEventKind::ApprovalRevoked {
            asset_id: *asset_id,
        },
        AuditEventKind::DocAccessed { doc_id, heir_id } => AuditEventKind::DocAccessed {
            doc_id: *doc_id,
            heir_id: *heir_id,
        },
        AuditEventKind::DocUploadStarted { upload_id, name } => (AuditEventKind::DocUploadStarted {
            upload_id: *upload_id,
            name: clone_string(name),
        }),
        AuditEventKind::DocUploadChunkAppended { upload_id, bytes } => (AuditEventKind::DocUploadChunkAppended {
            upload_id: *upload_id,
            bytes: *bytes,
        }),
        AuditEventKind::DocUploadFinalized { upload_id, doc_id, size } => (AuditEventKind::DocUploadFinalized {
            upload_id: *upload_id,
            doc_id: *doc_id,
            size: *size,
        }),
        AuditEventKind::DocUploadAborted { upload_id, reason } => (AuditEventKind::DocUploadAborted {
            upload_id: *upload_id,
            reason: clone_string(reason),
        }),
        AuditEventKind::CkWithdrawStaged { asset_id, heir_id, amount } => (AuditEventKind::CkWithdrawStaged {
            asset_id: *asset_id,
            heir_id: *heir_id,
            amount: *amount,
        }),
        AuditEventKind::CkWithdrawRequested { asset_id, heir_id } => (AuditEventKind::CkWithdrawRequested {
            asset_id: *asset_id,
            heir_id: *heir_id,
        }),
        AuditEventKind::CkWithdrawSubmitted { asset_id, heir_id } => (AuditEventKind::CkWithdrawSubmitted {
            asset_id: *asset_id,
            heir_id: *heir_id,
        }),
        AuditEventKind::CkWithdrawFeeQuoted { asset_id, heir_id, fee } => (AuditEventKind::CkWithdrawFeeQuoted {
            asset_id: *asset_id,
            heir_id: *heir_id,
            fee: *fee,
        }),
        AuditEventKind::CkWithdrawCompleted { asset_id, heir_id } => (AuditEventKind::CkWithdrawCompleted {
            asset_id: *asset_id,
            heir_id: *heir_id,
        }),
        AuditEventKind::CkWithdrawReimbursed { asset_id, heir_id } => (AuditEventKind::CkWithdrawReimbursed {
            asset_id: *asset_id,
            heir_id: *heir_id,
        }),
        AuditEventKind::CkWithdrawFailed { asset_id, heir_id, error } => (AuditEventKind::CkWithdrawFailed {
            asset_id: *asset_id,
            heir_id: *heir_id,
            error: clone_string(error),
        }),
        AuditEventKind::CustodyWithdrawExecuted { asset_id, heir_id } => (AuditEventKind::CustodyWithdrawExecuted {
            asset_id: *asset_id,
            heir_id: *heir_id,
        }),
        AuditEventKind::ClaimLinkCreated { heir_id, link_id } => (AuditEventKind::ClaimLinkCreated {
            heir_id: *heir_id,
            link_id: *link_id,
        }),
        AuditEventKind::HeirSessionStarted { heir_id, session_id } => (AuditEventKind::HeirSessionStarted {
            heir_id: *heir_id,
            session_id: *session_id,
        }),
        AuditEventKind::HeirSessionSecretVerified { heir_id, session_id } => (AuditEventKind::HeirSessionSecretVerified {
            heir_id: *heir_id,
            session_id: *session_id,
        }),
        AuditEventKind::HeirPayoutPreferenceSet { heir_id, asset_id, from, to } => (AuditEventKind::HeirPayoutPreferenceSet {
            heir_id: *heir_id,
            asset_id: *asset_id,
            from: *from,
            to: *to,
        }),
        AuditEventKind::NftCustodyStaged { asset_id, heir_id, token_id } => (AuditEventKind::NftCustodyStaged {
            asset_id: *asset_id,
            heir_id: *heir_id,
            token_id: *token_id,
        }),
        AuditEventKind::NftCustodyReleaseAttempt { asset_id, heir_id, token_id, attempt } => (AuditEventKind::NftCustodyReleaseAttempt {
            asset_id: *asset_id,
            heir_id: *heir_id,
            token_id: *token_id,
            attempt: *attempt,
        }),
        AuditEventKind::NftCustodyReleased { asset_id, heir_id, token_id } => (AuditEventKind::NftCustodyReleased {
            asset_id: *asset_id,
            heir_id: *heir_id,
            token_id: *token_id,
        }),
        AuditEventKind::NftCustodyReleaseFailed { asset_id, heir_id, token_id, attempt, error } => (AuditEventKind::NftCustodyReleaseFailed {
            asset_id: *asset_id,
            heir_id: *heir_id,
            token_id: *token_id,
            attempt: *attempt,
            error: clone_string(error),
        }),
        AuditEventKind::FungibleCustodyStaged { asset_id, heir_id, amount } => (AuditEventKind::FungibleCustodyStaged {
            asset_id: *asset_id,
            heir_id: *heir_id,
            amount: *amount,
        }),
        AuditEventKind::FungibleCustodyReleaseAttempt { asset_id, heir_id, amount, attempt } => (AuditEventKind::FungibleCustodyReleaseAttempt {
            asset_id: *asset_id,
            heir_id: *heir_id,
            amount: *amount,
            attempt: *attempt,
        }),
        AuditEventKind::FungibleCustodyReleased { asset_id, heir_id, amount } => (AuditEventKind::FungibleCustodyReleased {
            asset_id: *asset_id,
            heir_id: *heir_id,
            amount: *amount,
        }),
        AuditEventKind::FungibleCustodyReleaseFailed { asset_id, heir_id, amount, attempt, error } => (AuditEventKind::FungibleCustodyReleaseFailed {
            asset_id: *asset_id,
            heir_id: *heir_id,
            amount: *amount,
            attempt: *attempt,
            error: clone_string(error),
        }),
        AuditEventKind::CustodyReconciliationDiscrepancy { heir_id, expected_total, note } => (AuditEventKind::CustodyReconciliationDiscrepancy {
            heir_id: *heir_id,
            expected_total: *expected_total,
            note: clone_string(note),
        }),
        AuditEventKind::EscrowReconciliationDiscrepancy { asset_id, expected_total, note } => (AuditEventKind::EscrowReconciliationDiscrepancy {
            asset_id: *asset_id,
            expected_total: *expected_total,
            note: clone_string(note),
        }),
        AuditEventKind::RetryAttempt { retry_id, attempt, kind } => (AuditEventKind::RetryAttempt {
            retry_id: *retry_id,
            attempt: *attempt,
            kind: clone_string(kind),
        }),
        AuditEventKind::RetryTerminal { retry_id, attempts, kind } => (AuditEventKind::RetryTerminal {
            retry_id: *retry_id,
            attempts: *attempts,
            kind: clone_string(kind),
        }),
        AuditEventKind::RetrySucceeded { retry_id, attempts, kind } => (AuditEventKind::RetrySucceeded {
            retry_id: *retry_id,
            attempts: *attempts,
            kind: clone_string(kind),
        }),
        AuditEventKind::AuditPruned { removed, remaining } => (AuditEventKind::AuditPruned {
            removed: *removed,
            remaining: *remaining,
        }),
        AuditEventKind::HeirSecretAttemptRateLimited { heir_id, attempts } => (AuditEventKind::HeirSecretAttemptRateLimited {
            heir_id: *heir_id,
            attempts: *attempts,
        }),
        AuditEventKind::HeirSecretBackoffRateLimited { heir_id, attempts, wait_secs } => (AuditEventKind::HeirSecretBackoffRateLimited {
            heir_id: *heir_id,
            attempts: *attempts,
            wait_secs: *wait_secs,
        }),
        AuditEventKind::NotificationQueued { channel, template } => (AuditEventKind::NotificationQueued {
            channel: clone_string(channel),
            template: clone_string(template),
        }),
        AuditEventKind::NotificationSent { channel, template, success } => (AuditEventKind::NotificationSent {
            channel: clone_string(channel),
            template: clone_string(template),
            success: *success,
        }),
        AuditEventKind::EscrowAutoTopUp { asset_id, amount } => (AuditEventKind::EscrowAutoTopUp {
            asset_id: *asset_id,
            amount: *amount,
        }),
        AuditEventKind::EscrowAutoReclaim { asset_id, amount } => (AuditEventKind::EscrowAutoReclaim {
            asset_id: *asset_id,
            amount: *amount,
        }),
        AuditEventKind::LedgerAttested { merkle_root } => (AuditEventKind::LedgerAttested {
            merkle_root: clone_bytes(merkle_root),
        }),
        AuditEventKind::HeirSessionExpired { heir_id, session_id } => (AuditEventKind::HeirSessionExpired {
            heir_id: *heir_id,
            session_id: *session_id,
        }),
        AuditEventKind::BridgePollNotFoundTerminal { asset_id, heir_id } => (AuditEventKind::BridgePollNotFoundTerminal {
            asset_id: *asset_id,
            heir_id: *heir_id,
        }),
        AuditEventKind::HeirPayoutPreferenceRateLimited { heir_id, asset_id } => (AuditEventKind::HeirPayoutPreferenceRateLimited {
            heir_id: *heir_id,
            asset_id: *asset_id,
        }),
    }
}

pub fn clone_bytes(v: &Vec<u8>) -> (r: Vec<u8>)
    ensures
        r@ == v@,
{
    let mut out: Vec<u8> = Vec::new();
    let mut i: usize = 0;
    while i < v.len()
        invariant
            i <= v@.len(),
            out@ =~= v@.subrange(0, i as int),
        decreases v@.len() - i,
    {
        out.push(v[i]);
        i = i + 1;
    }
    proof {
        assert(v@.subrange(0, v@.len() as int) =~= v@);
    }
    out
}


/// The log after appending each kind in order.
pub open spec fn spec_push_audits(log: Seq<AuditEvent>, ks: Seq<AuditEventKind>, now: u64) -> Seq<
    AuditEvent,
>
    decreases ks.len(),
{
    if ks.len() == 0 {
        log
    } else {
        spec_push_audits(spec_push_audit(log, ks[0], now), ks.skip(1), now)
    }
}

pub proof fn lemma_push_audits_snoc(log: Seq<AuditEvent>, ks: Seq<AuditEventKind>, k: AuditEventKind, now: u64)
    ensures
        spec_push_audits(log, ks.push(k), now) == spec_push_audit(
            spec_push_audits(log, ks, now),
            k,
            now,
        ),
    decreases ks.len(),
{
    reveal_with_fuel(spec_push_audits, 3);
    if ks.len() == 0 {
        assert(ks.push(k)[0] == k);
        assert(ks.push(k).skip(1) =~= Seq::<AuditEventKind>::empty());
        assert(spec_push_audits(log, ks, now) == log);
    } else {
        assert(ks.push(k)[0] == ks[0]);
        assert(ks.push(k).skip(1) =~= ks.skip(1).push(k));
        lemma_push_audits_snoc(spec_push_audit(log, ks[0], now), ks.skip(1), k, now);
    }
}

/// Age of an event at `now`; events from the future count as fresh.
pub open spec fn audit_age(now: u64, e: AuditEvent) -> int {
    if now >= e.timestamp {
        now - e.timestamp
    } else {
        0
    }
}

/// What an age-and-count prune keeps: young-enough events, newest
/// `max_events` of them.
pub open spec fn spec_prune_kept(
    log: Seq<AuditEvent>,
    max_events: usize,
    max_age_secs: u64,
    now: u64,
) -> Seq<AuditEvent> {
    let young = log.filter(|e: AuditEvent| audit_age(now, e) <= max_age_secs);
    if young.len() > max_events as nat {
        young.skip(young.len() - max_events as nat)
    } else {
        young
    }
}

/// Prune the log by age and count, keeping the newest events; a per-user
/// flag keeps concurrent prunes from overlapping. When events were dropped,
/// an `AuditPruned` event records how many.
pub fn prune_audit_log(u: &mut User, max_events: usize, max_age_secs: u64, now: u64)
    ensures
        *final(u) == (User { audit_log: final(u).audit_log, ..*old(u) }),
        old(u).audit_prune_in_progress ==> final(u).audit_log@ == spec_push_audit(
            old(u).audit_log@,
            AuditEventKind::AuditPruned { removed: 0, remaining: old(u).audit_log@.len() as u64 },
            now,
        ),
        !old(u).audit_prune_in_progress ==> {
            let kept = spec_prune_kept(old(u).audit_log@, max_events, max_age_secs, now);
            if kept.len() == old(u).audit_log@.len() {
                final(u).audit_log@ == kept
            } else {
                final(u).audit_log@ == spec_push_audit(
                    kept,
                    AuditEventKind::AuditPruned {
                        removed: (old(u).audit_log@.len() - kept.len()) as u64,
                        remaining: kept.len() as u64,
                    },
                    now,
                )
            }
        },
{
    if u.audit_prune_in_progress {
        let remaining = u.audit_log.len() as u64;
        push_audit(u, AuditEventKind::AuditPruned { removed: 0, remaining }, now);
        return ;
    }
    let ghost pred = |e: AuditEvent| audit_age(now, e) <= max_age_secs;
    let ghost orig = u.audit_log@;
    let before = u.audit_log.len();
    let mut i: usize = 0;
    let ghost j: int = 0;
    proof {
        assert(orig.subrange(0, 0).filter(pred) =~= Seq::<AuditEvent>::empty()) by {
            reveal_with_fuel(Seq::<AuditEvent>::filter, 2);
        }
        assert(u.audit_log@ =~= orig.subrange(0, 0).filter(pred) + orig.skip(0));
    }
    while i < u.audit_log.len()
        invariant
            pred == (|e: AuditEvent| audit_age(now, e) <= max_age_secs),
            0 <= j <= orig.len(),
            u.audit_log@ =~= orig.subrange(0, j).filter(pred) + orig.skip(j),
            i == orig.subrange(0, j).filter(pred).len(),
            i <= j,
            *u == (User { audit_log: u.audit_log, ..*old(u) }),
            orig == old(u).audit_log@,
        decreases orig.len() - j,
    {
        let ghost here = orig[j];
        proof {
            assert(u.audit_log@[i as int] == orig.skip(j)[0]);
            assert(orig.skip(j)[0] == here);
            assert(orig.subrange(0, j + 1) =~= orig.subrange(0, j) + seq![here]);
            Seq::<AuditEvent>::filter_distributes_over_add(orig.subrange(0, j), seq![here], pred);
            assert(seq![here].filter(pred) =~= if pred(here) {
                seq![here]
            } else {
                Seq::<AuditEvent>::empty()
            }) by {
                reveal_with_fuel(Seq::<AuditEvent>::filter, 2);
                assert(seq![here].drop_last() =~= Seq::<AuditEvent>::empty());
            }
        }
        let ts = u.audit_log[i].timestamp;
        let age = if now >= ts {
            now - ts
        } else {
            0
        };
        if age <= max_age_secs {
            i = i + 1;
            proof {
                assert(u.audit_log@ =~= orig.subrange(0, j + 1).filter(pred) + orig.skip(j + 1));
            }
        } else {
            u.audit_log.remove(i);
            proof {
                assert(u.audit_log@ =~= orig.subrange(0, j + 1).filter(pred) + orig.skip(j + 1));
            }
        }
        proof {
            j = j + 1;
        }
    }
    proof {
        assert(j == orig.len());
        assert(orig.subrange(0, orig.len() as int) =~= orig);
        assert(orig.skip(j) =~= Seq::<AuditEvent>::empty());
        assert(u.audit_log@ =~= orig.filter(pred));
        orig.lemma_filter_len(pred);
    }
    let ghost young = orig.filter(pred);
    let ghost removed: int = 0;
    while u.audit_log.len() > max_events
        invariant
            u.audit_log@ =~= young.skip(removed),
            0 <= removed <= young.len(),
            removed <= if young.len() > max_events as nat {
                young.len() - max_events as nat
            } else {
                0
            },
            *u == (User { audit_log: u.audit_log, ..*old(u) }),
        decreases u.audit_log@.len(),
    {
        u.audit_log.remove(0);
        proof {
            assert(young.skip(removed).remove(0) =~= young.skip(removed + 1));
            removed = removed + 1;
        }
    }
    proof {
        if young.len() > max_events as nat {
            assert(u.audit_log@.len() == max_events as nat);
            assert(removed == young.len() - max_events as nat);
        } else {
            assert(removed == 0);
            assert(young.skip(0) =~= young);
        }
        assert(u.audit_log@ == spec_prune_kept(old(u).audit_log@, max_events, max_age_secs, now));
    }
    let after = u.audit_log.len();
    if before != after {
        push_audit(
            u,
            AuditEventKind::AuditPruned {
                removed: (before - after) as u64,
                remaining: after as u64,
            },
            now,
        );
    }
}

} // verus!
