//! The cross-cutting guarantees of the custodian, stated once and proved:
//! allocation under lock, ledger ordering, phase monotonicity, the secret
//! throttle gate, backoff boundaries, and the shape of the Merkle fold.

use vstd::prelude::*;

use crate::common::{max_transfer_id, phase_le};
use crate::distributions::{spec_estate_ready, sum_pct};
use crate::executor::{
    leaf_hash, merkle_root_of, merkle_root_rec, pair_up, spec_advanced_phase, spec_ledger_root,
};
use crate::heirs::{attempted_secret, sat_add, spec_secret_backoff};
use crate::model::base::HeirIdentitySecret;
use crate::model::distribution::DistributionShare;
use crate::model::payout::TransferRecord;
use crate::model::user::User;
use crate::retry::{kind_base_secs, kind_max_secs, spec_compute_backoff, RetryKind};

verus! {

/// Under a ready estate — the state `lock_estate` demands — every asset
/// with distribution shares is allocated to exactly one hundred percent.
/// Since every mutation path refuses once the phase reaches Locked, the
/// allocation stands through Locked and Executed.
pub proof fn law_locked_allocation(u: User)
    requires
        spec_estate_ready(u),
    ensures
        forall|i: int|
            0 <= i < u.distributions_v2@.len() ==> sum_pct(
                u.distributions_v2@,
                #[trigger] u.distributions_v2@[i].asset_id,
            ) == 100,
{
}

/// Transfer ids never exceed the ledger's maximum.
pub proof fn lemma_transfer_ids_bounded(ts: Seq<TransferRecord>, i: int)
    requires
        0 <= i < ts.len(),
    ensures
        ts[i].id <= max_transfer_id(ts),
    decreases ts.len(),
{
    if i < ts.len() - 1 {
        lemma_transfer_ids_bounded(ts.drop_last(), i);
        lemma_max_transfer_id_monotone(ts);
    }
}

proof fn lemma_max_transfer_id_monotone(ts: Seq<TransferRecord>)
    requires
        ts.len() > 0,
    ensures
        max_transfer_id(ts.drop_last()) <= max_transfer_id(ts),
{
}

/// The transfer ledger is totally ordered by id with timestamps moving
/// forward: appending records whose ids start past the ledger's maximum,
/// are strictly increasing, and whose timestamps do not go back keeps the
/// whole ledger ordered.
pub open spec fn transfers_ordered(ts: Seq<TransferRecord>) -> bool {
    forall|i: int, j: int|
        0 <= i < j < ts.len() ==> #[trigger] ts[i].id < #[trigger] ts[j].id && ts[i].timestamp
            <= ts[j].timestamp
}

pub proof fn law_ledger_append_ordered(ts: Seq<TransferRecord>, recs: Seq<TransferRecord>)
    requires
        transfers_ordered(ts),
        transfers_ordered(recs),
        forall|k: int| 0 <= k < recs.len() ==> #[trigger] recs[k].id > max_transfer_id(ts),
        forall|i: int, k: int|
            0 <= i < ts.len() && 0 <= k < recs.len() ==> #[trigger] ts[i].timestamp
                <= #[trigger] recs[k].timestamp,
    ensures
        transfers_ordered(ts + recs),
{
    let all = ts + recs;
    assert forall|i: int, j: int| 0 <= i < j < all.len() implies #[trigger] all[i].id
        < #[trigger] all[j].id && all[i].timestamp <= all[j].timestamp by {
        if j < ts.len() {
            assert(all[i] == ts[i] && all[j] == ts[j]);
        } else if i >= ts.len() {
            assert(all[i] == recs[i - ts.len()] && all[j] == recs[j - ts.len()]);
        } else {
            assert(all[i] == ts[i] && all[j] == recs[j - ts.len()]);
            lemma_transfer_ids_bounded(ts, i);
        }
    }
}

/// The inactivity timer only moves the phase forward: Draft to Warning to
/// Locked, never back.
pub proof fn law_phase_advance_forward(u: User, now: u64)
    ensures
        phase_le(u.phase, spec_advanced_phase(u, now)),
{
}

/// The secret throttle gate: a failed or counted attempt leaves
/// `last_attempt_at` at `now` and, whenever the backoff of the new attempt
/// count is positive, sets `next_allowed_attempt_at` exactly that backoff
/// past `now`.
pub proof fn law_secret_throttle_gate(sec: HeirIdentitySecret, now: u64)
    ensures
        attempted_secret(sec, now).last_attempt_at == Some(now),
        ({
            let attempts = attempted_secret(sec, now).attempts;
            spec_secret_backoff(attempts) > 0 ==> attempted_secret(sec, now).next_allowed_attempt_at
                == Some(sat_add(now, spec_secret_backoff(attempts)))
        }),
{
}

/// Backoff boundaries: a first attempt waits exactly the kind's base, and
/// by the twentieth attempt the delay sits at the kind's cap.
pub proof fn law_retry_backoff_boundaries(kind: RetryKind)
    ensures
        spec_compute_backoff(kind, 1) == kind_base_secs(kind),
        spec_compute_backoff(kind, 20) == kind_max_secs(kind),
{
    assert((1u64 << 0u32) == 1) by (bit_vector);
    assert((1u64 << 16u32) == 65536) by (bit_vector);
}

/// The heir secret backoff has no delay on the first attempt and caps at
/// six hours by the twentieth.
pub proof fn law_secret_backoff_boundaries()
    ensures
        spec_secret_backoff(1) == 0,
        spec_secret_backoff(20) == crate::heirs::HEIR_SECRET_BACKOFF_MAX_SECS,
{
    assert((1u64 << 12u32) == 4096) by (bit_vector);
}

/// The fold shape over three leaves: the root is the hash of the first
/// pair's hash joined with the promoted third leaf. Appending or reordering
/// records therefore reaches a different preimage at the top.
pub proof fn law_root_of_three(a: Seq<u8>, b: Seq<u8>, c: Seq<u8>)
    ensures
        merkle_root_of(seq![a, b, c]) == crate::crypto::sha256_of(
            crate::crypto::sha256_of(a + b) + c,
        ),
{
    let level = seq![a, b, c];
    let h = crate::crypto::sha256_of(a + b);
    assert(level.skip(2) =~= seq![c]);
    assert(pair_up(seq![c]) =~= seq![c]);
    assert(level[0] == a);
    assert(level[1] == b);
    assert(pair_up(level) =~= seq![h, c]);
    assert(pair_up(seq![h, c]) =~= seq![crate::crypto::sha256_of(h + c)]) by {
        assert(seq![h, c].skip(2) =~= Seq::<Seq<u8>>::empty());
        assert(seq![h, c][0] == h);
        assert(seq![h, c][1] == c);
        assert(pair_up(Seq::<Seq<u8>>::empty()) =~= Seq::<Seq<u8>>::empty());
        assert(pair_up(seq![h, c]) =~= seq![crate::crypto::sha256_of(seq![h, c][0] + seq![h, c][1])]
            + pair_up(seq![h, c].skip(2)));
    }
    crate::executor::lemma_merkle_step(level);
    crate::executor::lemma_merkle_step(seq![h, c]);
    assert(merkle_root_of(seq![crate::crypto::sha256_of(h + c)]) == crate::crypto::sha256_of(
        h + c,
    ));
}

/// One transfer's leaf enters the tree as the hash of its serialized
/// bytes: the attestation is a function of the ordered records alone.
pub proof fn law_attestation_of_ledger(ts: Seq<TransferRecord>)
    ensures
        spec_ledger_root(ts) == merkle_root_of(ts.map_values(|t: TransferRecord| leaf_hash(t))),
{
}

} // verus!
