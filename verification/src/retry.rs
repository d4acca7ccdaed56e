//! Typed retry queue: per-kind backoff policy, adaptive delay factor,
//! queue control and pruning.

use vstd::prelude::*;
use vstd::string::StringExecFns;

use crate::audit::spec_push_audit;
use crate::model::audit::AuditEventKind;
use crate::model::errors::CivError;
use crate::model::user::User;

verus! {

/// What a queued retry will drive when it comes due.
#[derive(Clone, Copy, PartialEq, Eq, Structural, Debug)]
pub enum RetryKind {
    FungibleCustodyRelease { asset_id: u64, heir_id: u64 },
    NftCustodyRelease { asset_id: u64, heir_id: u64, token_id: u64 },
    BridgeSubmit { asset_id: u64, heir_id: u64 },
    BridgePoll { asset_id: u64, heir_id: u64 },
    EscrowRelease { asset_id: u64, heir_id: u64 },
}

impl RetryKind {
    pub fn name(&self) -> (r: &'static str)
        ensures
            r@ == self.spec_name(),
    {
        match self {
            RetryKind::FungibleCustodyRelease { .. } => "FungibleCustodyRelease",
            RetryKind::NftCustodyRelease { .. } => "NftCustodyRelease",
            RetryKind::BridgeSubmit { .. } => "BridgeSubmit",
            RetryKind::BridgePoll { .. } => "BridgePoll",
            RetryKind::EscrowRelease { .. } => "EscrowRelease",
        }
    }

    pub open spec fn spec_name(self) -> Seq<char> {
        match self {
            RetryKind::FungibleCustodyRelease { .. } => "FungibleCustodyRelease"@,
            RetryKind::NftCustodyRelease { .. } => "NftCustodyRelease"@,
            RetryKind::BridgeSubmit { .. } => "BridgeSubmit"@,
            RetryKind::BridgePoll { .. } => "BridgePoll"@,
            RetryKind::EscrowRelease { .. } => "EscrowRelease"@,
        }
    }
}

pub struct RetryItem {
    pub id: u64,
    pub created_at: u64,
    pub next_attempt_after: u64,
    pub attempts: u32,
    pub kind: RetryKind,
    pub last_error: Option<String>,
    pub terminal: bool,
}

/// Rolling success/failure counts of one retry kind, with the delay factor
/// they map to (basis points; 10000 = 1.0x).
#[derive(Clone, Copy, PartialEq, Eq, Structural, Debug)]
pub struct AdaptiveKindStats {
    pub successes: u64,
    pub failures: u64,
    pub last_update: u64,
    pub dynamic_factor_bps: u32,
}

/// Adaptive stats keyed by the kind's name.
pub struct AdaptiveKindEntry {
    pub kind_name: String,
    pub stats: AdaptiveKindStats,
}

/// Base delay in seconds for one retry kind.
pub open spec fn kind_base_secs(k: RetryKind) -> u64 {
    match k {
        RetryKind::FungibleCustodyRelease { .. } => 60,
        RetryKind::NftCustodyRelease { .. } => 120,
        RetryKind::BridgeSubmit { .. } => 5,
        RetryKind::BridgePoll { .. } => 5,
        RetryKind::EscrowRelease { .. } => 60,
    }
}

/// Delay cap in seconds for one retry kind.
pub open spec fn kind_max_secs(k: RetryKind) -> u64 {
    match k {
        RetryKind::FungibleCustodyRelease { .. } => 1800,
        RetryKind::NftCustodyRelease { .. } => 7200,
        RetryKind::BridgeSubmit { .. } => 300,
        RetryKind::BridgePoll { .. } => 600,
        RetryKind::EscrowRelease { .. } => 1800,
    }
}

/// Exponential backoff for one kind: `base * 2^(attempts-1)`, exponent
/// capped at 16, the whole delay capped at the kind's maximum.
pub open spec fn spec_compute_backoff(kind: RetryKind, attempts: u32) -> u64 {
    let exp = if attempts <= 1 {
        0u32
    } else if attempts - 1 >= 16 {
        16u32
    } else {
        (attempts - 1) as u32
    };
    let raw = kind_base_secs(kind) * ((1u64 << exp) as int);
    if raw > kind_max_secs(kind) {
        kind_max_secs(kind)
    } else {
        raw as u64
    }
}

/// Compute the pure (jitter-free) backoff of a kind.
pub fn compute_backoff(kind: &RetryKind, attempts: u32) -> (r: u64)
    ensures
        r == spec_compute_backoff(*kind, attempts),
        1 <= r <= kind_max_secs(*kind),
{
    let exp: u32 = if attempts <= 1 {
        0
    } else if attempts - 1 >= 16 {
        16
    } else {
        attempts - 1
    };
    proof {
        assert(exp <= 16 ==> (1u64 << exp) >= 1 && (1u64 << exp) <= 65536) by (bit_vector);
    }
    let base = match kind {
        RetryKind::FungibleCustodyRelease { .. } => 60u64,
        RetryKind::NftCustodyRelease { .. } => 120u64,
        RetryKind::BridgeSubmit { .. } => 5u64,
        RetryKind::BridgePoll { .. } => 5u64,
        RetryKind::EscrowRelease { .. } => 60u64,
    };
    let maxs = match kind {
        RetryKind::FungibleCustodyRelease { .. } => 1800u64,
        RetryKind::NftCustodyRelease { .. } => 7200u64,
        RetryKind::BridgeSubmit { .. } => 300u64,
        RetryKind::BridgePoll { .. } => 600u64,
        RetryKind::EscrowRelease { .. } => 1800u64,
    };
    let raw = base * (1u64 << exp);
    if raw > maxs {
        maxs
    } else {
        raw
    }
}

/// Apply a plus or minus twenty percent jitter to a delay when entropy is
/// available; without entropy the delay stands as computed.
pub fn apply_jitter(base: u64, rng: &mut crate::rng::Rng) -> (r: u64)
    requires
        base >= 1,
    ensures
        1 <= r,
        r >= base - base / 5,
        r <= base + base / 5,
{
    let span = base / 5;
    if span == 0 {
        return base;
    }
    match crate::rng::try_u64(rng) {
        None => base,
        Some(rv) => {
            let window = 2 * (span as u128) + 1;
            let offset = (rv as u128) % window;
            proof {
                vstd::arithmetic::div_mod::lemma_mod_bound(rv as int, window as int);
            }
            let adjusted = (base as u128) - (span as u128) + offset;
            if adjusted == 0 {
                1
            } else if adjusted > u64::MAX as u128 {
                u64::MAX
            } else {
                adjusted as u64
            }
        },
    }
}

impl AdaptiveKindStats {
    /// Fresh stats: no outcomes yet, neutral factor.
    pub fn new(now: u64) -> (s: AdaptiveKindStats)
        ensures
            s.successes == 0,
            s.failures == 0,
            s.last_update == now,
            s.dynamic_factor_bps == 10000,
    {
        AdaptiveKindStats { successes: 0, failures: 0, last_update: now, dynamic_factor_bps: 10000 }
    }

    /// Record one outcome and refresh the factor.
    pub fn record(&mut self, ok: bool, now: u64)
        ensures
            final(self).successes == if ok {
                sat_add_u64(old(self).successes, 1)
            } else {
                old(self).successes
            },
            final(self).failures == if ok {
                old(self).failures
            } else {
                sat_add_u64(old(self).failures, 1)
            },
            final(self).last_update == now,
            final(self).dynamic_factor_bps == spec_recomputed_factor(
                final(self).successes,
                final(self).failures,
                old(self).dynamic_factor_bps,
            ),
    {
        if ok {
            self.successes = if self.successes == u64::MAX {
                u64::MAX
            } else {
                self.successes + 1
            };
        } else {
            self.failures = if self.failures == u64::MAX {
                u64::MAX
            } else {
                self.failures + 1
            };
        }
        self.last_update = now;
        self.recompute();
    }

    /// Map the failure ratio to a delay factor: linearly from 0.8x at no
    /// failures up to 1.0x at half, then on to 2.0x at all failures.
    fn recompute(&mut self)
        ensures
            final(self).dynamic_factor_bps == spec_recomputed_factor(
                old(self).successes,
                old(self).failures,
                old(self).dynamic_factor_bps,
            ),
            *final(self) == (AdaptiveKindStats {
                dynamic_factor_bps: final(self).dynamic_factor_bps,
                ..*old(self)
            }),
    {
        let s = self.successes;
        let f = self.failures;
        if s > u64::MAX - f {
            return ;
        }
        let total = s + f;
        if total < 5 {
            return ;
        }
        let ratio = ((f as u128) * 10000 / (total as u128)) as u64;
        proof {
            lemma_ratio_bound(f as int, total as int);
        }
        let factor: u64 = if ratio < 5000 {
            8000 + ratio * 2000 / 5000
        } else {
            10000 + (ratio - 5000) * 10000 / 5000
        };
        let clamped: u64 = if factor < 5000 {
            5000
        } else if factor > 25000 {
            25000
        } else {
            factor
        };
        self.dynamic_factor_bps = clamped as u32;
    }
}

/// Saturating increment used by the outcome counters.
pub open spec fn sat_add_u64(a: u64, b: u64) -> u64 {
    if a + b > u64::MAX {
        u64::MAX
    } else {
        (a + b) as u64
    }
}

/// The factor that `record` leaves behind: unchanged below five outcomes,
/// else piecewise linear in the failure ratio, clamped to [0.5x, 2.5x].
pub open spec fn spec_recomputed_factor(s: u64, f: u64, prev: u32) -> u32 {
    if s + f > u64::MAX || s + f < 5 {
        prev
    } else {
        let ratio = f * 10000 / (s + f);
        let factor = if ratio < 5000 {
            8000 + ratio * 2000 / 5000
        } else {
            10000 + (ratio - 5000) * 10000 / 5000
        };
        if factor < 5000 {
            5000u32
        } else if factor > 25000 {
            25000u32
        } else {
            factor as u32
        }
    }
}

proof fn lemma_ratio_bound(f: int, total: int)
    requires
        0 <= f <= total,
        total >= 1,
    ensures
        f * 10000 / total <= 10000,
{
    assert(f * 10000 <= total * 10000) by (nonlinear_arith)
        requires
            0 <= f <= total,
    ;
    vstd::arithmetic::div_mod::lemma_div_is_ordered(f * 10000, total * 10000, total);
    assert(total * 10000 == 10000 * total) by (nonlinear_arith);
    vstd::arithmetic::div_mod::lemma_div_multiples_vanish(10000, total);
}

/// The adaptive factor stored for a kind name, when any.
pub open spec fn spec_adaptive_factor(entries: Seq<AdaptiveKindEntry>, name: Seq<char>) -> Option<
    u32,
> {
    if exists|i: int| 0 <= i < entries.len() && entries[i].kind_name@ == name {
        let i = choose|i: int|
            0 <= i < entries.len() && entries[i].kind_name@ == name && (forall|j: int|
                0 <= j < i ==> entries[j].kind_name@ != name);
        Some(entries[i].stats.dynamic_factor_bps)
    } else {
        None
    }
}

fn find_adaptive(entries: &Vec<AdaptiveKindEntry>, name: &str) -> (r: Option<usize>)
    ensures
        match r {
            Some(i) => i < entries@.len() && entries@[i as int].kind_name@ == name@ && forall|
                j: int,
            | 0 <= j < i ==> entries@[j].kind_name@ != name@,
            None => forall|j: int| 0 <= j < entries@.len() ==> entries@[j].kind_name@ != name@,
        },
{
    let mut i: usize = 0;
    while i < entries.len()
        invariant
            i <= entries@.len(),
            forall|j: int| 0 <= j < i ==> entries@[j].kind_name@ != name@,
        decreases entries@.len() - i,
    {
        if crate::strutil::str_eq(entries[i].kind_name.as_str(), name) {
            return Some(i);
        }
        i = i + 1;
    }
    None
}

/// Scale a delay by a basis-point factor, never below one second and
/// saturating at the type's end.
pub open spec fn spec_apply_factor(base: u64, bps: u32) -> u64 {
    let scaled = base * bps / 10000;
    if scaled == 0 {
        1u64
    } else if scaled > u64::MAX {
        u64::MAX
    } else {
        scaled as u64
    }
}

/// Scale a delay by the adaptive factor.
pub fn apply_factor(base: u64, bps: u32) -> (r: u64)
    ensures
        r == spec_apply_factor(base, bps),
{
    proof {
        assert(base as int * bps as int <= u64::MAX * (u32::MAX as int)) by (nonlinear_arith)
            requires
                base as int <= u64::MAX && bps as int <= u32::MAX,
        ;
    }
    let scaled = (base as u128) * (bps as u128) / 10000;
    if scaled == 0 {
        1
    } else if scaled > u64::MAX as u128 {
        u64::MAX
    } else {
        scaled as u64
    }
}

/// The delay a kind gets after consulting the user's adaptive stats.
pub open spec fn spec_adjust_delay(u: User, kind: RetryKind, base_delay: u64) -> u64 {
    let entries = match u.retry_adaptive {
        Some(v) => v@,
        None => Seq::empty(),
    };
    match spec_adaptive_factor(entries, kind.spec_name()) {
        Some(bps) => spec_apply_factor(base_delay, bps),
        None => base_delay,
    }
}

/// Adjust a delay by the user's adaptive factor for the kind, if tracked.
pub fn adjust_delay(u: &User, kind: &RetryKind, base_delay: u64) -> (r: u64)
    ensures
        r == spec_adjust_delay(*u, *kind, base_delay),
{
    let name = kind.name();
    match &u.retry_adaptive {
        None => base_delay,
        Some(entries) => {
            match find_adaptive(entries, name) {
                Some(i) => apply_factor(base_delay, entries[i].stats.dynamic_factor_bps),
                None => base_delay,
            }
        },
    }
}

pub proof fn lemma_retry_ids_le_max(s: Seq<RetryItem>, i: int)
    requires
        0 <= i < s.len(),
    ensures
        s[i].id <= crate::common::max_retry_item_id(s),
    decreases s.len(),
{
    if i < s.len() - 1 {
        lemma_retry_ids_le_max(s.drop_last(), i);
        crate::common::lemma_max_retry_item_id_bounds(s.drop_last());
    }
}

/// A fresh retry id: one past both the monotone high-water mark and every
/// id still in the queue, so pruning can never cause reuse.
pub open spec fn spec_fresh_retry_id(u: User) -> u64 {
    let q = match u.retry_queue {
        Some(v) => v@,
        None => Seq::empty(),
    };
    let floor = if u.retry_seq as int >= crate::common::max_retry_item_id(q) {
        u.retry_seq as int
    } else {
        crate::common::max_retry_item_id(q)
    };
    if floor >= u64::MAX {
        u64::MAX
    } else {
        (floor + 1) as u64
    }
}

/// The queue after enqueueing one item of `kind` with its adjusted delay.
pub open spec fn spec_enqueued_item(u: User, kind: RetryKind, delay: u64, now: u64) -> RetryItem {
    RetryItem {
        id: spec_fresh_retry_id(u),
        created_at: now,
        next_attempt_after: sat_add_u64(now, spec_adjust_delay(u, kind, delay)),
        attempts: 0,
        kind,
        last_error: None,
        terminal: false,
    }
}

/// Enqueue a retry of `kind`, its initial delay scaled by the adaptive
/// factor; an `Enqueued` attempt event marks it in the audit log. The id
/// advances a monotone per-user mark, so ids of pruned items never return.
pub fn enqueue_retry(u: &mut User, kind: RetryKind, initial_delay_secs: u64, now: u64) -> (id: u64)
    ensures
        *final(u) == (User {
            retry_queue: final(u).retry_queue,
            retry_seq: id,
            audit_log: final(u).audit_log,
            ..*old(u)
        }),
        id == spec_fresh_retry_id(*old(u)),
        id > old(u).retry_seq || id == u64::MAX,
        (match old(u).retry_queue {
            Some(q) => forall|i: int| 0 <= i < q@.len() ==> q@[i].id < id || id == u64::MAX,
            None => true,
        }),
        final(u).retry_queue matches Some(q) && q@ == (match old(u).retry_queue {
            Some(v) => v@,
            None => Seq::<RetryItem>::empty(),
        }).push(spec_enqueued_item(*old(u), kind, initial_delay_secs, now)),
        id == spec_enqueued_item(*old(u), kind, initial_delay_secs, now).id,
        exists|k: AuditEventKind|
            #![trigger spec_push_audit(old(u).audit_log@, k, now)]
            {
                &&& k matches AuditEventKind::RetryAttempt { retry_id: rid, attempt: a, kind: s }
                &&& rid == id
                &&& a == 0
                &&& s@ == "Enqueued"@
                &&& final(u).audit_log@ == spec_push_audit(old(u).audit_log@, k, now)
            },
{
    let adjusted = adjust_delay(u, &kind, initial_delay_secs);
    let seq_floor = u.retry_seq;
    if u.retry_queue.is_none() {
        u.retry_queue = Some(Vec::new());
    }
    let id;
    match &mut u.retry_queue {
        Some(q) => {
            let from_queue = crate::common::next_retry_item_id(q);
            proof {
                crate::common::lemma_max_retry_item_id_bounds(q@);
            }
            id = if seq_floor >= u64::MAX {
                u64::MAX
            } else if (seq_floor + 1) as u64 > from_queue {
                seq_floor + 1
            } else {
                from_queue
            };
            proof {
                assert forall|i: int| 0 <= i < q@.len() implies q@[i].id < id || id
                    == u64::MAX by {
                    lemma_retry_ids_le_max(q@, i);
                }
            }
            let next = if now > u64::MAX - adjusted {
                u64::MAX
            } else {
                now + adjusted
            };
            q.push(
                RetryItem {
                    id,
                    created_at: now,
                    next_attempt_after: next,
                    attempts: 0,
                    kind,
                    last_error: None,
                    terminal: false,
                },
            );
        },
        None => {
            proof {
                assert(false);
            }
            id = 0;
        },
    }
    u.retry_seq = id;
    crate::audit::push_audit(
        u,
        AuditEventKind::RetryAttempt {
            retry_id: id,
            attempt: 0,
            kind: String::from_str("Enqueued"),
        },
        now,
    );
    id
}

/// Copy one retry item, field for field.
pub fn clone_retry_item(it: &RetryItem) -> (r: RetryItem)
    ensures
        r == *it,
{
    RetryItem {
        id: it.id,
        created_at: it.created_at,
        next_attempt_after: it.next_attempt_after,
        attempts: it.attempts,
        kind: it.kind,
        last_error: match &it.last_error {
            Some(e) => Some(clone_string_local(e)),
            None => None,
        },
        terminal: it.terminal,
    }
}

fn clone_string_local(s: &String) -> (r: String)
    ensures
        r == *s,
{
    s.clone()
}

/// The user's retry queue, empty when never created.
pub fn list_retries(u: &User) -> (r: Vec<RetryItem>)
    ensures
        r@ == match u.retry_queue {
            Some(q) => q@,
            None => Seq::<RetryItem>::empty(),
        },
{
    let mut out: Vec<RetryItem> = Vec::new();
    match &u.retry_queue {
        None => out,
        Some(q) => {
            let mut i: usize = 0;
            while i < q.len()
                invariant
                    i <= q@.len(),
                    out@ =~= q@.subrange(0, i as int),
                decreases q@.len() - i,
            {
                out.push(clone_retry_item(&q[i]));
                proof {
                    assert(q@.subrange(0, i + 1) =~= q@.subrange(0, i as int).push(q@[i as int]));
                }
                i = i + 1;
            }
            proof {
                assert(q@.subrange(0, q@.len() as int) =~= q@);
            }
            out
        },
    }
}

/// Aggregated view of the queue.
pub struct RetryStats {
    pub total: u64,
    pub terminal: u64,
    pub due_now: u64,
    pub earliest_next: Option<u64>,
}

/// A queued item is due: not terminal and its time has come.
pub open spec fn item_due(it: RetryItem, now: u64) -> bool {
    !it.terminal && now >= it.next_attempt_after
}

/// Count of items satisfying `pred`-like flags, kept abstract through
/// `filter`.
pub open spec fn spec_retry_stats_of(q: Seq<RetryItem>, now: u64) -> (Seq<RetryItem>, Seq<
    RetryItem,
>) {
    (q.filter(|r: RetryItem| r.terminal), q.filter(|r: RetryItem| item_due(r, now)))
}

/// Totals over the queue: size, terminal count, due count, and the earliest
/// future attempt of a live item.
pub fn stats_for(u: &User, now: u64) -> (r: RetryStats)
    ensures
        r.total == match u.retry_queue {
            Some(q) => q@.len() as u64,
            None => 0u64,
        },
        match u.retry_queue {
            Some(q) => {
                &&& r.terminal == q@.filter(|it: RetryItem| it.terminal).len()
                &&& r.due_now == q@.filter(|it: RetryItem| item_due(it, now)).len()
                &&& (r.earliest_next matches Some(e) ==> (exists|i: int|
                    0 <= i < q@.len() && !q@[i].terminal && q@[i].next_attempt_after > now && q@[i].next_attempt_after == e) && (forall|i: int|
                    0 <= i < q@.len() && !q@[i].terminal && q@[i].next_attempt_after > now
                        ==> e <= q@[i].next_attempt_after))
                &&& (r.earliest_next is None ==> forall|i: int|
                    0 <= i < q@.len() ==> !(!q@[i].terminal && q@[i].next_attempt_after > now))
            },
            None => r.terminal == 0 && r.due_now == 0 && r.earliest_next is None,
        },
{
    match &u.retry_queue {
        None => RetryStats { total: 0, terminal: 0, due_now: 0, earliest_next: None },
        Some(q) => {
            let ghost pt = |it: RetryItem| it.terminal;
            let ghost pd = |it: RetryItem| item_due(it, now);
            let mut terminal: u64 = 0;
            let mut due_now: u64 = 0;
            let mut earliest: Option<u64> = None;
            let mut i: usize = 0;
            proof {
                assert(q@.subrange(0, 0).filter(pt) =~= Seq::<RetryItem>::empty()) by {
                    reveal_with_fuel(Seq::<RetryItem>::filter, 2);
                }
                assert(q@.subrange(0, 0).filter(pd) =~= Seq::<RetryItem>::empty()) by {
                    reveal_with_fuel(Seq::<RetryItem>::filter, 2);
                }
            }
            while i < q.len()
                invariant
                    i <= q@.len(),
                    pt == (|it: RetryItem| it.terminal),
                    pd == (|it: RetryItem| item_due(it, now)),
                    terminal == q@.subrange(0, i as int).filter(pt).len(),
                    due_now == q@.subrange(0, i as int).filter(pd).len(),
                    terminal <= i && due_now <= i,
                    earliest matches Some(e) ==> (exists|k: int|
                        0 <= k < i && !q@[k].terminal && q@[k].next_attempt_after > now
                            && q@[k].next_attempt_after == e) && (forall|k: int|
                        0 <= k < i && !q@[k].terminal && q@[k].next_attempt_after > now
                            ==> e <= q@[k].next_attempt_after),
                    earliest is None ==> forall|k: int|
                        0 <= k < i ==> !(!q@[k].terminal && q@[k].next_attempt_after > now),
                decreases q@.len() - i,
            {
                let ghost prefix = q@.subrange(0, i as int);
                let ghost here = q@[i as int];
                proof {
                    assert(q@.subrange(0, i + 1) =~= prefix + seq![here]);
                    Seq::<RetryItem>::filter_distributes_over_add(prefix, seq![here], pt);
                    Seq::<RetryItem>::filter_distributes_over_add(prefix, seq![here], pd);
                    assert(seq![here].filter(pt) =~= if pt(here) {
                        seq![here]
                    } else {
                        Seq::<RetryItem>::empty()
                    }) by {
                        reveal_with_fuel(Seq::<RetryItem>::filter, 2);
                        assert(seq![here].drop_last() =~= Seq::<RetryItem>::empty());
                    }
                    assert(seq![here].filter(pd) =~= if pd(here) {
                        seq![here]
                    } else {
                        Seq::<RetryItem>::empty()
                    }) by {
                        reveal_with_fuel(Seq::<RetryItem>::filter, 2);
                        assert(seq![here].drop_last() =~= Seq::<RetryItem>::empty());
                    }
                }
                let it = &q[i];
                if it.terminal {
                    terminal = terminal + 1;
                }
                if !it.terminal && now >= it.next_attempt_after {
                    due_now = due_now + 1;
                }
                if !it.terminal && it.next_attempt_after > now {
                    earliest = match earliest {
                        None => Some(it.next_attempt_after),
                        Some(e) => {
                            if it.next_attempt_after < e {
                                Some(it.next_attempt_after)
                            } else {
                                Some(e)
                            }
                        },
                    };
                }
                i = i + 1;
            }
            proof {
                assert(q@.subrange(0, q@.len() as int) =~= q@);
            }
            RetryStats { total: q.len() as u64, terminal, due_now, earliest_next: earliest }
        },
    }
}

/// Make one pending retry due immediately.
pub fn force_retry(u: &mut User, id: u64, now: u64) -> (r: Result<(), CivError>)
    ensures
        r is Err ==> *final(u) == *old(u),
        *final(u) == (User { retry_queue: final(u).retry_queue, ..*old(u) }),
        match old(u).retry_queue {
            None => r matches Err(CivError::Other(m)) && m@ == "retry_not_found"@,
            Some(q) => {
                &&& (r is Ok <==> exists|i: int|
                    0 <= i < q@.len() && q@[i].id == id && !q@[i].terminal && (forall|j: int|
                        0 <= j < i ==> q@[j].id != id))
                &&& (r is Ok ==> (match final(u).retry_queue {
                    Some(q2) => exists|i: int|
                        {
                            &&& 0 <= i < q@.len()
                            &&& q@[i].id == id
                            &&& (forall|j: int| 0 <= j < i ==> q@[j].id != id)
                            &&& q2@ =~= q@.update(
                                i,
                                RetryItem { next_attempt_after: now, ..q@[i] },
                            )
                        },
                    None => false,
                }))
            },
        },
{
    match &mut u.retry_queue {
        None => Err(CivError::Other(String::from_str("retry_not_found"))),
        Some(q) => {
            let idx = match crate::common::find_retry(q, id) {
                Some(i) => i,
                None => {
                    return Err(CivError::Other(String::from_str("retry_not_found")));
                },
            };
            if q[idx].terminal {
                return Err(CivError::Other(String::from_str("retry_terminal")));
            }
            let old_item = q.remove(idx);
            q.insert(idx, RetryItem { next_attempt_after: now, ..old_item });
            proof {
                assert(q@ =~= old(u).retry_queue.unwrap()@.update(idx as int, q@[idx as int]));
            }
            Ok(())
        },
    }
}

/// Make every pending retry due immediately.
pub fn force_all_due(u: &mut User, now: u64)
    ensures
        *final(u) == (User { retry_queue: final(u).retry_queue, ..*old(u) }),
        match (old(u).retry_queue, final(u).retry_queue) {
            (None, None) => true,
            (Some(q), Some(q2)) => q2@.len() == q@.len() && forall|i: int|
                0 <= i < q@.len() ==> q2@[i] == (if q@[i].terminal {
                    q@[i]
                } else {
                    RetryItem { next_attempt_after: now, ..q@[i] }
                }),
            _ => false,
        },
{
    match &mut u.retry_queue {
        None => (),
        Some(q) => {
            let mut i: usize = 0;
            while i < q.len()
                invariant
                    i <= q@.len(),
                    q@.len() == old(u).retry_queue.unwrap()@.len(),
                    forall|k: int|
                        0 <= k < i ==> q@[k] == (if old(u).retry_queue.unwrap()@[k].terminal {
                            old(u).retry_queue.unwrap()@[k]
                        } else {
                            RetryItem {
                                next_attempt_after: now,
                                ..old(u).retry_queue.unwrap()@[k]
                            }
                        }),
                    forall|k: int| i <= k < q@.len() ==> q@[k] == old(u).retry_queue.unwrap()@[k],
                decreases q@.len() - i,
            {
                if !q[i].terminal {
                    let old_item = q.remove(i);
                    q.insert(i, RetryItem { next_attempt_after: now, ..old_item });
                }
                i = i + 1;
            }
        },
    }
}

/// Saturating increment of an attempt counter.
pub open spec fn sat_add_u32(a: u32, b: u32) -> u32 {
    if a + b > u32::MAX {
        u32::MAX
    } else {
        (a + b) as u32
    }
}

/// A due item with its attempt counter advanced.
pub open spec fn bump_item(it: RetryItem) -> RetryItem {
    RetryItem { attempts: sat_add_u32(it.attempts, 1), ..it }
}

/// The stats one recorded outcome leaves behind.
pub open spec fn spec_recorded_stats(st: AdaptiveKindStats, ok: bool, now: u64) -> AdaptiveKindStats {
    let s2 = if ok {
        sat_add_u64(st.successes, 1)
    } else {
        st.successes
    };
    let f2 = if ok {
        st.failures
    } else {
        sat_add_u64(st.failures, 1)
    };
    AdaptiveKindStats {
        successes: s2,
        failures: f2,
        last_update: now,
        dynamic_factor_bps: spec_recomputed_factor(s2, f2, st.dynamic_factor_bps),
    }
}

/// The user's adaptive entries, empty when never created.
pub open spec fn adaptive_entries_of(u: User) -> Seq<AdaptiveKindEntry> {
    match u.retry_adaptive {
        Some(v) => v@,
        None => Seq::empty(),
    }
}

/// Record the outcome of one retry kind for a user's adaptive stats: the
/// kind's entry gains the outcome and recomputes its factor (a fresh entry
/// starts from zero counters); a factor movement is audited.
pub fn record_outcome(u: &mut User, kind: &RetryKind, success: bool, now: u64)
    ensures
        *final(u) == (User {
            retry_adaptive: final(u).retry_adaptive,
            audit_log: final(u).audit_log,
            ..*old(u)
        }),
        final(u).retry_adaptive is Some,
        ({
            let before = adaptive_entries_of(*old(u));
            let entries = match final(u).retry_adaptive {
                Some(v) => v@,
                None => Seq::empty(),
            };
            if exists|i: int|
                0 <= i < before.len() && #[trigger] before[i].kind_name@ == kind.spec_name() {
                exists|i: int|
                    {
                        &&& 0 <= i < before.len()
                        &&& #[trigger] before[i].kind_name@ == kind.spec_name()
                        &&& (forall|j: int|
                            0 <= j < i ==> before[j].kind_name@ != kind.spec_name())
                        &&& entries.len() == before.len()
                        &&& entries[i].kind_name == before[i].kind_name
                        &&& entries[i].stats == spec_recorded_stats(before[i].stats, success, now)
                        &&& (forall|j: int|
                            0 <= j < before.len() && j != i ==> entries[j] == before[j])
                    }
            } else {
                &&& entries.len() == before.len() + 1
                &&& entries.drop_last() == before
                &&& entries.last().kind_name@ == kind.spec_name()
                &&& entries.last().stats == spec_recorded_stats(
                    AdaptiveKindStats {
                        successes: 0,
                        failures: 0,
                        last_update: now,
                        dynamic_factor_bps: 10000,
                    },
                    success,
                    now,
                )
            }
        }),
        final(u).audit_log@ == old(u).audit_log@ || exists|k: AuditEventKind|
            #![trigger spec_push_audit(old(u).audit_log@, k, now)]
            {
                &&& k matches AuditEventKind::RetryAttempt { retry_id: rid, attempt: a, kind: m }
                &&& rid == 0 && a == 0
                &&& final(u).audit_log@ == spec_push_audit(old(u).audit_log@, k, now)
            },
{
    if u.retry_adaptive.is_none() {
        u.retry_adaptive = Some(Vec::new());
    }
    let name = kind.name();
    let mut before: u32 = 10000;
    let mut after: u32 = 10000;
    match &mut u.retry_adaptive {
        Some(entries) => {
            match find_adaptive(entries, name) {
                Some(i) => {
                    let ghost pre = entries@;
                    let mut e = entries.remove(i);
                    before = e.stats.dynamic_factor_bps;
                    let ghost st0 = e.stats;
                    e.stats.record(success, now);
                    proof {
                        assert(e.stats == spec_recorded_stats(st0, success, now));
                    }
                    after = e.stats.dynamic_factor_bps;
                    entries.insert(i, e);
                    proof {
                        assert(entries@ =~= pre.update(i as int, entries@[i as int]));
                    }
                },
                None => {
                    let mut st = AdaptiveKindStats::new(now);
                    before = st.dynamic_factor_bps;
                    let ghost st0 = st;
                    st.record(success, now);
                    proof {
                        assert(st == spec_recorded_stats(st0, success, now));
                    }
                    after = st.dynamic_factor_bps;
                    entries.push(
                        AdaptiveKindEntry { kind_name: String::from_str(name), stats: st },
                    );
                },
            }
        },
        None => {
            proof {
                assert(false);
            }
        },
    }
    if before != after {
        let mut msg = String::from_str("AdaptiveFactor:");
        crate::strutil::push_dec_u128(&mut msg, before as u128);
        msg.append("->");
        crate::strutil::push_dec_u128(&mut msg, after as u128);
        msg.append(":");
        msg.append(name);
        crate::audit::push_audit(
            u,
            AuditEventKind::RetryAttempt { retry_id: 0, attempt: 0, kind: msg },
            now,
        );
    }
}

/// Collect the due items of the queue: their attempt counters advance, a
/// copy of each (post-advance) comes back in order, and one `RetryAttempt`
/// event per due item lands in the log.
pub fn retry_collect_due(u: &mut User, now: u64) -> (out: Vec<RetryItem>)
    ensures
        *final(u) == (User {
            retry_queue: final(u).retry_queue,
            audit_log: final(u).audit_log,
            ..*old(u)
        }),
        match (old(u).retry_queue, final(u).retry_queue) {
            (None, None) => out@.len() == 0 && final(u).audit_log@ == old(u).audit_log@,
            (Some(q), Some(q2)) => {
                &&& q2@.len() == q@.len()
                &&& (forall|i: int|
                    0 <= i < q@.len() ==> q2@[i] == (if item_due(q@[i], now) {
                        bump_item(q@[i])
                    } else {
                        q@[i]
                    }))
                &&& out@ == q@.filter(|it: RetryItem| item_due(it, now)).map_values(
                    |it: RetryItem| bump_item(it),
                )
                &&& (forall|i: int| 0 <= i < q@.len() && q@[i].terminal ==> q2@[i] == q@[i])
                &&& exists|ks: Seq<AuditEventKind>|
                    #![trigger crate::audit::spec_push_audits(old(u).audit_log@, ks, now)]
                    {
                        &&& final(u).audit_log@ == crate::audit::spec_push_audits(
                            old(u).audit_log@,
                            ks,
                            now,
                        )
                        &&& ks.len() == out@.len()
                    }
            },
            _ => false,
        },
{
    let ghost due_pred = |it: RetryItem| item_due(it, now);
    let ghost bump_f = |it: RetryItem| bump_item(it);
    let mut out: Vec<RetryItem> = Vec::new();
    if u.retry_queue.is_none() {
        return out;
    }
    let ghost q0 = u.retry_queue.unwrap()@;
    let ghost ks: Seq<AuditEventKind> = Seq::empty();
    proof {
        assert(q0.subrange(0, 0).filter(due_pred) =~= Seq::<RetryItem>::empty()) by {
            reveal_with_fuel(Seq::<RetryItem>::filter, 2);
        }
        assert(Seq::<RetryItem>::empty().map_values(bump_f) =~= Seq::<RetryItem>::empty());
        assert(crate::audit::spec_push_audits(old(u).audit_log@, Seq::empty(), now) == old(
            u,
        ).audit_log@);
    }
    let ghost qlen = q0.len();
    let qlen_e = match &u.retry_queue {
        Some(q) => q.len(),
        None => 0,
    };
    let mut i: usize = 0;
    while i < qlen_e
        invariant
            0 <= i <= qlen,
            qlen_e == qlen,
            due_pred == (|it: RetryItem| item_due(it, now)),
            bump_f == (|it: RetryItem| bump_item(it)),
            u.retry_queue is Some,
            u.retry_queue.unwrap()@.len() == qlen,
            old(u).retry_queue matches Some(oq) && oq@ == q0,
            forall|k: int|
                0 <= k < i ==> u.retry_queue.unwrap()@[k] == (if item_due(q0[k], now) {
                    bump_item(q0[k])
                } else {
                    q0[k]
                }),
            forall|k: int| i <= k < qlen ==> u.retry_queue.unwrap()@[k] == q0[k],
            out@ == q0.subrange(0, i as int).filter(due_pred).map_values(bump_f),
            u.audit_log@ == crate::audit::spec_push_audits(old(u).audit_log@, ks, now),
            ks.len() == out@.len(),
            *u == (User { retry_queue: u.retry_queue, audit_log: u.audit_log, ..*old(u) }),
        decreases qlen - i,
    {
        let ghost prefix = q0.subrange(0, i as int);
        let ghost here = q0[i as int];
        proof {
            assert(q0.subrange(0, i + 1) =~= prefix + seq![here]);
            Seq::<RetryItem>::filter_distributes_over_add(prefix, seq![here], due_pred);
            assert(seq![here].filter(due_pred) =~= if due_pred(here) {
                seq![here]
            } else {
                Seq::<RetryItem>::empty()
            }) by {
                reveal_with_fuel(Seq::<RetryItem>::filter, 2);
                assert(seq![here].drop_last() =~= Seq::<RetryItem>::empty());
            }
        }
        let mut due_here = false;
        let mut item_copy: Option<RetryItem> = None;
        match &mut u.retry_queue {
            Some(q) => {
                if !q[i].terminal && now >= q[i].next_attempt_after {
                    due_here = true;
                    let ghost q_pre = q@;
                    let mut it = q.remove(i);
                    it.attempts = if it.attempts == u32::MAX {
                        u32::MAX
                    } else {
                        it.attempts + 1
                    };
                    let copy = clone_retry_item(&it);
                    q.insert(i, it);
                    item_copy = Some(copy);
                    proof {
                        assert(q@ =~= q_pre.update(i as int, q@[i as int]));
                    }
                }
            },
            None => {
                proof {
                    assert(false);
                }
            },
        }
        if due_here {
            match item_copy {
                Some(copy) => {
                    let kind_name = String::from_str(copy.kind.name());
                    let ghost ev = AuditEventKind::RetryAttempt {
                        retry_id: copy.id,
                        attempt: copy.attempts,
                        kind: kind_name,
                    };
                    let attempt = copy.attempts;
                    let retry_id = copy.id;
                    out.push(copy);
                    crate::audit::push_audit(
                        u,
                        AuditEventKind::RetryAttempt { retry_id, attempt, kind: kind_name },
                        now,
                    );
                    proof {
                        crate::audit::lemma_push_audits_snoc(old(u).audit_log@, ks, ev, now);
                        ks = ks.push(ev);
                    }
                },
                None => {
                    proof {
                        assert(false);
                    }
                },
            }
        }
        proof {
            assert(out@ =~= q0.subrange(0, i + 1).filter(due_pred).map_values(bump_f));
        }
        i = i + 1;
    }
    proof {
        assert(q0.subrange(0, qlen as int) =~= q0);
    }
    out
}

/// The ids of a batch of items.
pub open spec fn due_ids_of(due: Seq<RetryItem>) -> Seq<u64> {
    due.map_values(|it: RetryItem| it.id)
}

/// Whether an id is among the given ones.
pub open spec fn id_listed(ids: Seq<u64>, id: u64) -> bool {
    exists|i: int| 0 <= i < ids.len() && ids[i] == id
}

fn id_listed_exec(ids: &Vec<u64>, id: u64) -> (r: bool)
    ensures
        r == id_listed(ids@, id),
{
    let mut i: usize = 0;
    while i < ids.len()
        invariant
            i <= ids@.len(),
            forall|j: int| 0 <= j < i ==> ids@[j] != id,
        decreases ids@.len() - i,
    {
        if ids[i] == id {
            return true;
        }
        i = i + 1;
    }
    false
}

/// The error recorded for an id, if any.
pub open spec fn error_listed(errs: Seq<(u64, String)>, id: u64) -> Option<Seq<char>> {
    if exists|i: int| 0 <= i < errs.len() && errs[i].0 == id {
        let i = choose|i: int|
            0 <= i < errs.len() && errs[i].0 == id && (forall|j: int|
                0 <= j < i ==> errs[j].0 != id);
        Some(errs[i].1@)
    } else {
        None
    }
}

fn error_listed_exec(errs: &Vec<(u64, String)>, id: u64) -> (r: Option<String>)
    ensures
        match (r, error_listed(errs@, id)) {
            (Some(m), Some(sm)) => m@ == sm,
            (None, None) => true,
            _ => false,
        },
{
    let mut i: usize = 0;
    while i < errs.len()
        invariant
            i <= errs@.len(),
            forall|j: int| 0 <= j < i ==> errs@[j].0 != id,
        decreases errs@.len() - i,
    {
        if errs[i].0 == id {
            return Some(clone_string_local(&errs[i].1));
        }
        i = i + 1;
    }
    None
}


/// How one due, live item looks after a pass: successes and exhausted
/// budgets freeze it as terminal, anything else is rescheduled in the
/// future; a reported error is recorded on the item.
pub open spec fn outcome_applied(
    it: RetryItem,
    it2: RetryItem,
    successes: Seq<u64>,
    errors: Seq<(u64, String)>,
    max_attempts: u32,
    now: u64,
) -> bool {
    &&& it2.id == it.id
    &&& it2.kind == it.kind
    &&& it2.created_at == it.created_at
    &&& it2.attempts == it.attempts
    &&& (match error_listed(errors, it.id) {
        Some(m) => it2.last_error matches Some(l) && l@ == m,
        None => it2.last_error == it.last_error,
    })
    &&& (id_listed(successes, it.id) ==> it2.terminal && it2.next_attempt_after
        == it.next_attempt_after)
    &&& (!id_listed(successes, it.id) && it.attempts >= max_attempts ==> it2.terminal
        && it2.next_attempt_after == it.next_attempt_after)
    &&& (!id_listed(successes, it.id) && it.attempts < max_attempts ==> !it2.terminal
        && it2.next_attempt_after >= now)
}

/// Apply one scheduler pass's outcomes to the due items: successes become
/// terminal, items at the attempt budget become terminal, everything else
/// gets a jittered, adaptively scaled backoff in the future. Terminal items
/// never move again.
#[verifier::rlimit(80)]
pub fn retry_apply_outcomes(
    u: &mut User,
    due: &Vec<RetryItem>,
    successes: &Vec<u64>,
    errors: &Vec<(u64, String)>,
    max_attempts: u32,
    now: u64,
    rng: &mut crate::rng::Rng,
)
    ensures
        *final(u) == (User {
            retry_queue: final(u).retry_queue,
            retry_adaptive: final(u).retry_adaptive,
            audit_log: final(u).audit_log,
            ..*old(u)
        }),
        match (old(u).retry_queue, final(u).retry_queue) {
            (None, None) => true,
            (Some(q), Some(q2)) => {
                &&& q2@.len() == q@.len()
                &&& (forall|i: int| 0 <= i < q@.len() && q@[i].terminal ==> q2@[i] == q@[i])
                &&& (forall|i: int|
                    0 <= i < q@.len() && !q@[i].terminal && !id_listed(due_ids_of(due@), q@[i].id)
                        ==> q2@[i] == q@[i])
                &&& (forall|i: int|
                    0 <= i < q@.len() && !q@[i].terminal && id_listed(due_ids_of(due@), q@[i].id)
                        ==> outcome_applied(q@[i], q2@[i], successes@, errors@, max_attempts, now))
            },
            _ => false,
        },
{
    if u.retry_queue.is_none() {
        return ;
    }
    let ghost q0 = u.retry_queue.unwrap()@;
    let ghost qlen = q0.len();
    let ghost due_ids = due_ids_of(due@);
    let qlen_e = match &u.retry_queue {
        Some(q) => q.len(),
        None => 0,
    };
    let mut i: usize = 0;
    while i < qlen_e
        invariant
            0 <= i <= qlen,
            qlen_e == qlen,
            due_ids == due_ids_of(due@),
            u.retry_queue is Some,
            u.retry_queue.unwrap()@.len() == qlen,
            old(u).retry_queue matches Some(oq) && oq@ == q0,
            forall|k: int| i <= k < qlen ==> u.retry_queue.unwrap()@[k] == q0[k],
            forall|k: int| 0 <= k < i && q0[k].terminal ==> u.retry_queue.unwrap()@[k] == q0[k],
            forall|k: int|
                0 <= k < i && !q0[k].terminal && !id_listed(due_ids, q0[k].id)
                    ==> u.retry_queue.unwrap()@[k] == q0[k],
            forall|k: int|
                0 <= k < i && !q0[k].terminal && id_listed(due_ids, q0[k].id) ==> outcome_applied(
                    q0[k],
                    u.retry_queue.unwrap()@[k],
                    successes@,
                    errors@,
                    max_attempts,
                    now,
                ),
            *u == (User {
                retry_queue: u.retry_queue,
                retry_adaptive: u.retry_adaptive,
                audit_log: u.audit_log,
                ..*old(u)
            }),
        decreases qlen - i,
    {
        let is_terminal;
        let is_due;
        let item_id;
        match &u.retry_queue {
            Some(q) => {
                is_terminal = q[i].terminal;
                item_id = q[i].id;
                is_due = id_listed_exec_items(due, item_id);
            },
            None => {
                proof {
                    assert(false);
                }
                is_terminal = true;
                is_due = false;
                item_id = 0;
            },
        }
        if !is_terminal && is_due {
            let err = error_listed_exec(errors, item_id);
            let succeeded = id_listed_exec(successes, item_id);
            let mut it;
            match &mut u.retry_queue {
                Some(q) => {
                    it = q.remove(i);
                },
                None => {
                    proof {
                        assert(false);
                    }
                    it = RetryItem {
                        id: 0,
                        created_at: 0,
                        next_attempt_after: 0,
                        attempts: 0,
                        kind: RetryKind::BridgePoll { asset_id: 0, heir_id: 0 },
                        last_error: None,
                        terminal: false,
                    };
                },
            }
            if err.is_some() {
                it.last_error = err;
            }
            let kind_name_string = String::from_str(it.kind.name());
            let attempts = it.attempts;
            let retry_id = it.id;
            let kind = it.kind;
            if succeeded {
                it.terminal = true;
                restore_item(u, i, it);
                crate::audit::push_audit(
                    u,
                    AuditEventKind::RetrySucceeded {
                        retry_id,
                        attempts,
                        kind: kind_name_string,
                    },
                    now,
                );
                record_outcome(u, &kind, true, now);
            } else if attempts >= max_attempts {
                it.terminal = true;
                restore_item(u, i, it);
                crate::audit::push_audit(
                    u,
                    AuditEventKind::RetryTerminal { retry_id, attempts, kind: kind_name_string },
                    now,
                );
                record_outcome(u, &kind, false, now);
            } else {
                let delay = compute_backoff(&kind, attempts);
                let jittered = apply_jitter(delay, rng);
                let adjusted = adjust_delay(u, &kind, jittered);
                it.next_attempt_after = if now > u64::MAX - adjusted {
                    u64::MAX
                } else {
                    now + adjusted
                };
                let had_error = it.last_error.is_some();
                restore_item(u, i, it);
                if had_error {
                    record_outcome(u, &kind, false, now);
                }
            }
        }
        i = i + 1;
    }
}

/// Membership of an id among collected due items.
fn id_listed_exec_items(due: &Vec<RetryItem>, id: u64) -> (r: bool)
    ensures
        r == id_listed(due_ids_of(due@), id),
{
    let mut i: usize = 0;
    while i < due.len()
        invariant
            i <= due@.len(),
            forall|j: int| 0 <= j < i ==> due@[j].id != id,
        decreases due@.len() - i,
    {
        if due[i].id == id {
            proof {
                assert(due_ids_of(due@)[i as int] == id);
            }
            return true;
        }
        i = i + 1;
    }
    proof {
        assert forall|j: int| 0 <= j < due_ids_of(due@).len() implies due_ids_of(due@)[j]
            != id by {
            assert(due_ids_of(due@)[j] == due@[j].id);
        }
    }
    false
}

fn restore_item(u: &mut User, i: usize, it: RetryItem)
    requires
        old(u).retry_queue matches Some(q) && i <= q@.len(),
    ensures
        *final(u) == (User { retry_queue: final(u).retry_queue, ..*old(u) }),
        final(u).retry_queue matches Some(q2) && q2@ == old(u).retry_queue.unwrap()@.insert(
            i as int,
            it,
        ),
{
    match &mut u.retry_queue {
        Some(q) => {
            q.insert(i, it);
        },
        None => {
            proof {
                assert(false);
            }
        },
    }
}

/// Queue size cap; oldest non-terminal items beyond it drain first.
pub const RETRY_PRUNE_MAX: usize = 200;

/// Terminal items older than this leave the queue.
pub const RETRY_PRUNE_AGE_SECS: u64 = 86400;

/// Successful (error-free) terminal items linger at most this long.
pub const RETRY_SUCCESS_AGE_SECS: u64 = 600;

/// `now - at`, clamped at zero.
pub open spec fn age_of(now: u64, at: u64) -> int {
    if now >= at {
        now - at
    } else {
        0
    }
}

/// Terminal items of one kind name in a sequence.
pub open spec fn count_term_name(s: Seq<RetryItem>, n: Seq<char>) -> int
    decreases s.len(),
{
    if s.len() == 0 {
        0
    } else {
        count_term_name(s.drop_last(), n) + if s.last().terminal && s.last().kind.spec_name()
            == n {
            1int
        } else {
            0int
        }
    }
}

/// An item survives the per-kind cap when it is live, or among the last
/// five terminal items of its kind.
pub open spec fn cap_keep(orig: Seq<RetryItem>, idx: int) -> bool {
    !orig[idx].terminal || count_term_name(orig.skip(idx + 1), orig[idx].kind.spec_name()) <= 4
}

/// The first `j` entries, those passing the per-kind cap kept in order.
pub open spec fn cap_kept_prefix(orig: Seq<RetryItem>, j: int) -> Seq<RetryItem>
    decreases j,
{
    if j <= 0 {
        Seq::empty()
    } else {
        cap_kept_prefix(orig, j - 1) + if cap_keep(orig, j - 1) {
            seq![orig[j - 1]]
        } else {
            Seq::empty()
        }
    }
}

pub proof fn lemma_cap_kept_prefix_len(orig: Seq<RetryItem>, j: int)
    ensures
        cap_kept_prefix(orig, j).len() <= if j <= 0 {
            0
        } else {
            j
        },
    decreases j,
{
    if j > 0 {
        lemma_cap_kept_prefix_len(orig, j - 1);
    }
}

proof fn lemma_count_term_name_nonneg(s: Seq<RetryItem>, n: Seq<char>)
    ensures
        0 <= count_term_name(s, n) <= s.len(),
    decreases s.len(),
{
    if s.len() > 0 {
        lemma_count_term_name_nonneg(s.drop_last(), n);
    }
}

proof fn lemma_count_term_name_snoc(s: Seq<RetryItem>, x: RetryItem, n: Seq<char>)
    ensures
        count_term_name(s + seq![x], n) == count_term_name(s, n) + if x.terminal
            && x.kind.spec_name() == n {
            1int
        } else {
            0int
        },
{
    let t = s + seq![x];
    assert(t.len() == s.len() + 1);
    assert(t.drop_last() =~= s);
    assert(t.last() == x);
    assert(count_term_name(t, n) == count_term_name(t.drop_last(), n) + if t.last().terminal
        && t.last().kind.spec_name() == n {
        1int
    } else {
        0int
    });
}

proof fn lemma_count_term_name_cons(x: RetryItem, s: Seq<RetryItem>, n: Seq<char>)
    ensures
        count_term_name(seq![x] + s, n) == count_term_name(s, n) + if x.terminal
            && x.kind.spec_name() == n {
            1int
        } else {
            0int
        },
    decreases s.len(),
{
    if s.len() == 0 {
        assert(seq![x] + s =~= seq![x]);
        lemma_count_term_name_snoc(Seq::<RetryItem>::empty(), x, n);
        assert(Seq::<RetryItem>::empty() + seq![x] =~= seq![x]);
        assert(count_term_name(Seq::<RetryItem>::empty(), n) == 0);
    } else {
        let t = seq![x] + s;
        assert(t.drop_last() =~= seq![x] + s.drop_last());
        assert(t.last() == s.last());
        lemma_count_term_name_cons(x, s.drop_last(), n);
        assert(count_term_name(t, n) == count_term_name(t.drop_last(), n) + if t.last().terminal
            && t.last().kind.spec_name() == n {
            1int
        } else {
            0int
        });
        assert(count_term_name(s, n) == count_term_name(s.drop_last(), n) + if s.last().terminal
            && s.last().kind.spec_name() == n {
            1int
        } else {
            0int
        });
    }
}

/// The per-kind cap leaves at most five terminal items of any kind once
/// the suffix still to be walked holds none of that kind.
proof fn lemma_cap_kept_count(orig: Seq<RetryItem>, j: int, n: Seq<char>)
    requires
        0 <= j <= orig.len(),
    ensures
        count_term_name(cap_kept_prefix(orig, j), n) + (
        if count_term_name(orig.skip(j), n) > 5 {
            5int
        } else {
            count_term_name(orig.skip(j), n)
        }) <= 5,
    decreases j,
{
    lemma_count_term_name_nonneg(orig.skip(j), n);
    if j > 0 {
        lemma_cap_kept_count(orig, j - 1, n);
        lemma_count_term_name_nonneg(cap_kept_prefix(orig, j - 1), n);
        let x = orig[j - 1];
        assert(orig.skip(j - 1) =~= seq![x] + orig.skip(j));
        lemma_count_term_name_cons(x, orig.skip(j), n);
        if cap_keep(orig, j - 1) {
            assert(cap_kept_prefix(orig, j) == cap_kept_prefix(orig, j - 1) + seq![x]);
            lemma_count_term_name_snoc(cap_kept_prefix(orig, j - 1), x, n);
            if x.terminal && x.kind.spec_name() == n {
                assert(count_term_name(orig.skip(j), n) <= 4);
            }
        } else {
            assert(cap_kept_prefix(orig, j) =~= cap_kept_prefix(orig, j - 1));
        }
    }
}

proof fn lemma_count_term_filter(s: Seq<RetryItem>, p: spec_fn(RetryItem) -> bool, n: Seq<char>)
    ensures
        count_term_name(s.filter(p), n) <= count_term_name(s, n),
    decreases s.len(),
{
    reveal_with_fuel(Seq::<RetryItem>::filter, 2);
    if s.len() > 0 {
        lemma_count_term_filter(s.drop_last(), p, n);
        assert(count_term_name(s, n) == count_term_name(s.drop_last(), n) + if s.last().terminal
            && s.last().kind.spec_name() == n {
            1int
        } else {
            0int
        });
        if p(s.last()) {
            assert(s.filter(p) == s.drop_last().filter(p).push(s.last()));
            assert(s.drop_last().filter(p).push(s.last()) =~= s.drop_last().filter(p) + seq![
                s.last(),
            ]);
            lemma_count_term_name_snoc(s.drop_last().filter(p), s.last(), n);
        } else {
            assert(s.filter(p) == s.drop_last().filter(p));
        }
    } else {
        assert(s.filter(p) =~= Seq::<RetryItem>::empty());
    }
}

pub proof fn lemma_kind_names_distinct()
    ensures
        "FungibleCustodyRelease"@.len() == 22,
        "NftCustodyRelease"@.len() == 17,
        "BridgeSubmit"@.len() == 12,
        "BridgePoll"@.len() == 10,
        "EscrowRelease"@.len() == 13,
{
    reveal_strlit("FungibleCustodyRelease");
    reveal_strlit("NftCustodyRelease");
    reveal_strlit("BridgeSubmit");
    reveal_strlit("BridgePoll");
    reveal_strlit("EscrowRelease");
}

fn count_term_name_from(v: &Vec<RetryItem>, start: usize, kind: &RetryKind) -> (r: u64)
    requires
        start <= v@.len(),
    ensures
        r == count_term_name(v@.skip(start as int), kind.spec_name()),
{
    let ghost n = kind.spec_name();
    let mut c: u64 = 0;
    let mut i: usize = start;
    while i < v.len()
        invariant
            start <= i <= v@.len(),
            c == count_term_name(v@.skip(start as int).subrange(0, i - start), n),
            c <= i - start,
            n == kind.spec_name(),
        decreases v@.len() - i,
    {
        let ghost pre = v@.skip(start as int).subrange(0, i - start);
        proof {
            assert(v@.skip(start as int).subrange(0, i - start + 1).drop_last() =~= pre);
            assert(v@.skip(start as int).subrange(0, i - start + 1).last() == v@[i as int]);
            lemma_count_term_name_nonneg(pre, n);
        }
        let same = match (&v[i].kind, kind) {
            (RetryKind::FungibleCustodyRelease { .. }, RetryKind::FungibleCustodyRelease { .. }) => true,
            (RetryKind::NftCustodyRelease { .. }, RetryKind::NftCustodyRelease { .. }) => true,
            (RetryKind::BridgeSubmit { .. }, RetryKind::BridgeSubmit { .. }) => true,
            (RetryKind::BridgePoll { .. }, RetryKind::BridgePoll { .. }) => true,
            (RetryKind::EscrowRelease { .. }, RetryKind::EscrowRelease { .. }) => true,
            _ => false,
        };
        proof {
            lemma_kind_names_distinct();
            assert(same == (v@[i as int].kind.spec_name() == n));
        }
        if v[i].terminal && same {
            c = c + 1;
        }
        i = i + 1;
    }
    proof {
        assert(v@.skip(start as int).subrange(0, v@.len() - start) =~= v@.skip(start as int));
    }
    c
}

/// Drop all but the last five terminal items of each kind.
#[verifier::rlimit(80)]
#[verifier::spinoff_prover]
fn prune_cap_per_kind(u: &mut User)
    requires
        old(u).retry_queue is Some,
    ensures
        *final(u) == (User { retry_queue: final(u).retry_queue, ..*old(u) }),
        final(u).retry_queue matches Some(q2) && q2@ == cap_kept_prefix(
            old(u).retry_queue.unwrap()@,
            old(u).retry_queue.unwrap()@.len() as int,
        ),
{
    let ghost orig = u.retry_queue.unwrap()@;
    let mut i: usize = 0;
    let ghost j: int = 0;
    proof {
        assert(u.retry_queue.unwrap()@ =~= cap_kept_prefix(orig, 0) + orig.skip(0));
    }
    let mut remaining = match &u.retry_queue {
        Some(q) => q.len(),
        None => 0,
    };
    while i < remaining
        invariant
            u.retry_queue is Some,
            old(u).retry_queue matches Some(oq) && oq@ == orig,
            0 <= j <= orig.len(),
            u.retry_queue.unwrap()@ =~= cap_kept_prefix(orig, j) + orig.skip(j),
            i == cap_kept_prefix(orig, j).len(),
            i <= j,
            remaining == u.retry_queue.unwrap()@.len(),
            *u == (User { retry_queue: u.retry_queue, ..*old(u) }),
        decreases orig.len() - j,
    {
        let keep;
        match &u.retry_queue {
            Some(q) => {
                proof {
                    assert(q@[i as int] == orig[j]);
                    assert(q@.skip(i + 1) =~= orig.skip(j + 1));
                }
                if !q[i].terminal {
                    keep = true;
                } else {
                    let kind = q[i].kind;
                    let cnt = count_term_name_from(q, i + 1, &kind);
                    keep = cnt <= 4;
                }
            },
            None => {
                proof {
                    assert(false);
                }
                keep = true;
            },
        }
        proof {
            assert(keep == cap_keep(orig, j));
        }
        match &mut u.retry_queue {
            Some(q) => {
                if keep {
                    i = i + 1;
                } else {
                    q.remove(i);
                    remaining = remaining - 1;
                }
            },
            None => {
                proof {
                    assert(false);
                }
            },
        }
        proof {
            assert(u.retry_queue.unwrap()@ =~= cap_kept_prefix(orig, j + 1) + orig.skip(j + 1));
            lemma_cap_kept_prefix_len(orig, j + 1);
            j = j + 1;
        }
    }
    proof {
        assert(j == orig.len());
        assert(orig.skip(j) =~= Seq::<RetryItem>::empty());
        assert(u.retry_queue.unwrap()@ =~= cap_kept_prefix(orig, orig.len() as int));
    }
}

/// Whether retention keeps an item at `now`: live items always, terminal
/// ones only while young enough (and error-free ones only briefly).
pub open spec fn retention_keep(it: RetryItem, now: u64) -> bool {
    !(it.terminal && age_of(now, it.next_attempt_after) > RETRY_PRUNE_AGE_SECS) && !(it.terminal
        && it.last_error is None && age_of(now, it.next_attempt_after) > RETRY_SUCCESS_AGE_SECS)
}

/// Drop terminal items past their retention age.
#[verifier::rlimit(80)]
#[verifier::spinoff_prover]
fn prune_by_age(u: &mut User, now: u64)
    requires
        old(u).retry_queue is Some,
    ensures
        *final(u) == (User { retry_queue: final(u).retry_queue, ..*old(u) }),
        final(u).retry_queue matches Some(q2) && q2@ == old(u).retry_queue.unwrap()@.filter(
            |it: RetryItem| retention_keep(it, now),
        ),
{
    let ghost pred = |it: RetryItem| retention_keep(it, now);
    let ghost orig = u.retry_queue.unwrap()@;
    let mut i: usize = 0;
    let ghost j: int = 0;
    proof {
        assert(orig.subrange(0, 0).filter(pred) =~= Seq::<RetryItem>::empty()) by {
            reveal_with_fuel(Seq::<RetryItem>::filter, 2);
        }
        assert(u.retry_queue.unwrap()@ =~= orig.subrange(0, 0).filter(pred) + orig.skip(0));
    }
    let mut remaining = match &u.retry_queue {
        Some(q) => q.len(),
        None => 0,
    };
    while i < remaining
        invariant
            u.retry_queue is Some,
            old(u).retry_queue matches Some(oq) && oq@ == orig,
            pred == (|it: RetryItem| retention_keep(it, now)),
            0 <= j <= orig.len(),
            u.retry_queue.unwrap()@ =~= orig.subrange(0, j).filter(pred) + orig.skip(j),
            i == orig.subrange(0, j).filter(pred).len(),
            i <= j,
            remaining == u.retry_queue.unwrap()@.len(),
            *u == (User { retry_queue: u.retry_queue, ..*old(u) }),
        decreases orig.len() - j,
    {
        let ghost here = orig[j];
        proof {
            assert(u.retry_queue.unwrap()@[i as int] == orig.skip(j)[0]);
            assert(orig.subrange(0, j + 1) =~= orig.subrange(0, j) + seq![here]);
            Seq::<RetryItem>::filter_distributes_over_add(orig.subrange(0, j), seq![here], pred);
            assert(seq![here].filter(pred) =~= if pred(here) {
                seq![here]
            } else {
                Seq::<RetryItem>::empty()
            }) by {
                reveal_with_fuel(Seq::<RetryItem>::filter, 2);
                assert(seq![here].drop_last() =~= Seq::<RetryItem>::empty());
            }
        }
        match &mut u.retry_queue {
            Some(q) => {
                let it_terminal = q[i].terminal;
                let it_next = q[i].next_attempt_after;
                let it_no_err = q[i].last_error.is_none();
                let age = if now >= it_next {
                    now - it_next
                } else {
                    0
                };
                let keep = !(it_terminal && age > RETRY_PRUNE_AGE_SECS) && !(it_terminal
                    && it_no_err && age > RETRY_SUCCESS_AGE_SECS);
                if keep {
                    i = i + 1;
                } else {
                    q.remove(i);
                    remaining = remaining - 1;
                }
            },
            None => {
                proof {
                    assert(false);
                }
            },
        }
        proof {
            assert(u.retry_queue.unwrap()@ =~= orig.subrange(0, j + 1).filter(pred) + orig.skip(
                j + 1,
            ));
            j = j + 1;
        }
    }
    proof {
        assert(j == orig.len());
        assert(orig.subrange(0, orig.len() as int) =~= orig);
        assert(orig.skip(j) =~= Seq::<RetryItem>::empty());
    }
}

/// Prune the retry queue: cap its size, keep at most the last five terminal
/// items per kind, and drop terminal items past the retention ages. When
/// the queue was within its cap, the result is exactly the per-kind cap
/// followed by age retention; live items never leave then.
pub fn retry_prune(u: &mut User, now: u64)
    ensures
        *final(u) == (User { retry_queue: final(u).retry_queue, ..*old(u) }),
        match (old(u).retry_queue, final(u).retry_queue) {
            (None, None) => true,
            (Some(q), Some(q2)) => {
                &&& (forall|i: int|
                    0 <= i < q2@.len() ==> #[trigger] retention_keep(q2@[i], now))
                &&& (q@.len() <= RETRY_PRUNE_MAX as nat ==> q2@ == cap_kept_prefix(
                    q@,
                    q@.len() as int,
                ).filter(|it: RetryItem| retention_keep(it, now)))
                &&& q2@.len() <= RETRY_PRUNE_MAX as nat
                &&& (forall|n: Seq<char>| #[trigger] count_term_name(q2@, n) <= 5)
            },
            _ => false,
        },
{
    if u.retry_queue.is_none() {
        return ;
    }
    let ghost q_start = u.retry_queue.unwrap()@;
    match &mut u.retry_queue {
        Some(q) => {
            while q.len() > RETRY_PRUNE_MAX
                invariant
                    q_start.len() <= RETRY_PRUNE_MAX as nat ==> q@ == q_start,
                decreases q@.len(),
            {
                let mut victim: usize = 0;
                let mut found_terminal = false;
                let mut best: usize = 0;
                let mut i: usize = 0;
                while i < q.len()
                    invariant
                        q@.len() > RETRY_PRUNE_MAX as nat,
                        i <= q@.len(),
                        best < q@.len(),
                        victim < q@.len(),
                    decreases q@.len() - i,
                {
                    if q[i].terminal && !found_terminal {
                        found_terminal = true;
                        victim = i;
                    }
                    if q[i].next_attempt_after < q[best].next_attempt_after {
                        best = i;
                    }
                    i = i + 1;
                }
                if found_terminal {
                    q.remove(victim);
                } else {
                    q.remove(best);
                }
            }
        },
        None => {
            proof {
                assert(false);
            }
        },
    }
    let ghost q_cap = u.retry_queue.unwrap()@;
    proof {
        if q_start.len() <= RETRY_PRUNE_MAX as nat {
            assert(q_cap == q_start);
        }
    }
    prune_cap_per_kind(u);
    prune_by_age(u, now);
    proof {
        broadcast use vstd::seq_lib::group_filter_ensures;

        let kept = cap_kept_prefix(q_cap, q_cap.len() as int);
        let pred = |it: RetryItem| retention_keep(it, now);
        assert(final(u).retry_queue.unwrap()@ == kept.filter(pred));
        assert forall|i: int|
            0 <= i < final(u).retry_queue.unwrap()@.len() implies #[trigger] retention_keep(
            final(u).retry_queue.unwrap()@[i],
            now,
        ) by {
            kept.lemma_filter_pred(pred, i);
        }
        assert(q_cap.len() <= RETRY_PRUNE_MAX as nat);
        lemma_cap_kept_prefix_len(q_cap, q_cap.len() as int);
        kept.lemma_filter_len(pred);
        assert(final(u).retry_queue.unwrap()@.len() <= RETRY_PRUNE_MAX as nat);
        assert forall|n: Seq<char>| #[trigger] count_term_name(
            final(u).retry_queue.unwrap()@,
            n,
        ) <= 5 by {
            lemma_cap_kept_count(q_cap, q_cap.len() as int, n);
            assert(q_cap.skip(q_cap.len() as int) =~= Seq::<RetryItem>::empty());
            lemma_count_term_filter(kept, pred, n);
        }
    }
}
} // verus!
