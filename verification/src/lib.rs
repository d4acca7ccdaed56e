//! Digital-estate custodian core: estate lifecycle, execution engine,
//! custody/escrow accounting, bridge withdrawals, retry scheduling,
//! heir claim protocol, audit ledger and Merkle attestation.

#![verifier::loop_isolation(false)]

use vstd::prelude::*;

pub mod assets;
pub mod audit;
pub mod ckbridge;
pub mod common;
pub mod crypto;
pub mod custody;
pub mod dispatch;
pub mod documents;
pub mod errcodes;
pub mod distributions;
pub mod escrow;
pub mod executor;
pub mod heirs;
pub mod laws;
pub mod metrics;
pub mod model;
pub mod notify;
pub mod reconciliation;
pub mod retry;
pub mod rng;
pub mod sessions;
pub mod store;
pub mod strutil;

verus! {

/// Compute the per-heir amount of an asset share: `value * pct / 100`,
/// without intermediate overflow.
pub fn heir_share_amount(value: u128, pct: u8) -> (r: u128)
    requires
        pct <= 100,
    ensures
        r == value * pct / 100,
        r <= value,
{
    let q = value / 100;
    let rm = value % 100;
    let p = pct as u128;
    proof {
        let qi = q as int;
        let rmi = rm as int;
        let pi = p as int;
        let vi = value as int;
        assert(vi == 100 * qi + rmi);
        assert(vi * pi == 100 * (qi * pi) + rmi * pi) by (nonlinear_arith)
            requires
                vi == 100 * qi + rmi,
        ;
        vstd::arithmetic::div_mod::lemma_hoist_over_denominator(rmi * pi, qi * pi, 100);
        assert(qi * pi <= qi * 100) by (nonlinear_arith)
            requires
                0 <= qi && pi <= 100,
        ;
        assert(rmi * pi <= 99 * 100) by (nonlinear_arith)
            requires
                0 <= rmi < 100 && 0 <= pi <= 100,
        ;
        assert(100 * qi <= vi);
        assert(qi * pi + (rmi * pi) / 100 == (vi * pi) / 100);
        assert(vi * pi <= vi * 100) by (nonlinear_arith)
            requires
                0 <= vi && pi <= 100,
        ;
        vstd::arithmetic::div_mod::lemma_div_is_ordered(vi * pi, vi * 100, 100);
        assert(vi * 100 == 100 * vi) by (nonlinear_arith);
        vstd::arithmetic::div_mod::lemma_div_multiples_vanish(vi, 100);
    }
    q * p + rm * p / 100
}

} // verus!
