//! Deterministic-state CSPRNG: a ChaCha20 keystream over a seeded key, with
//! a drained buffer of unused bytes. Entropy arrives from outside through
//! `seed` and `reseed`; everything after that is pure state.

use vstd::prelude::*;

use crate::crypto::{sha256, sha256_of};
use crate::strutil::push_bytes;

verus! {

/// After this many generated bytes the key should be remixed with fresh
/// entropy.
pub const RESEED_INTERVAL: u64 = 65536;

/// One 64-byte ChaCha20 keystream block for `key` at block `counter`
/// (counter little-endian in the low bytes of the nonce).
pub uninterp spec fn chacha20_block_of(key: Seq<u8>, counter: u64) -> Seq<u8>;

/// Relies on `chacha20::ChaCha20`: the keystream block is a function of key
/// and nonce alone, and is 64 bytes long.
#[verifier::external_body]
fn chacha20_block(key: &[u8], counter: u64) -> (r: Vec<u8>)
    requires
        key@.len() == 32,
    ensures
        r@ == chacha20_block_of(key@, counter),
        r@.len() == 64,
{
    let mut nonce = [0u8; 12];
    nonce[..8].copy_from_slice(&counter.to_le_bytes());
    let mut cipher = <chacha20::ChaCha20 as chacha20::cipher::KeyIvInit>::new(
        key.try_into().unwrap(),
        (&nonce).into(),
    );
    let mut block = [0u8; 64];
    chacha20::cipher::StreamCipher::apply_keystream(&mut cipher, &mut block);
    block.to_vec()
}

/// Process-wide pseudorandom generator state.
pub struct Rng {
    pub key: Vec<u8>,
    pub seeded: bool,
    pub block_counter: u64,
    pub generated: u64,
    pub buffer: Vec<u8>,
}

/// A seeded generator always holds a 32-byte key.
pub open spec fn rng_wf(r: Rng) -> bool {
    r.seeded ==> r.key@.len() == 32
}

/// A fresh, unseeded generator.
pub fn rng_new() -> (r: Rng)
    ensures
        rng_wf(r),
        !r.seeded,
        r.buffer@.len() == 0,
{
    Rng { key: Vec::new(), seeded: false, block_counter: 0, generated: 0, buffer: Vec::new() }
}

/// Whether the generator has been seeded.
pub fn is_initialized(r: &Rng) -> (b: bool)
    ensures
        b == r.seeded,
{
    r.seeded
}

/// Whether enough bytes have been produced that the key should be remixed.
pub fn needs_reseed(r: &Rng) -> (b: bool)
    ensures
        b == (r.generated >= RESEED_INTERVAL),
{
    r.generated >= RESEED_INTERVAL
}

/// Seed from host entropy: at least 32 bytes are used as the key directly,
/// shorter input is widened through SHA-256.
pub fn seed(r: &mut Rng, entropy: Vec<u8>)
    ensures
        rng_wf(*final(r)),
        final(r).seeded,
        final(r).block_counter == 0,
        final(r).generated == 0,
        final(r).buffer@ == old(r).buffer@,
        final(r).key@ == if entropy@.len() >= 32 {
            entropy@.subrange(0, 32)
        } else {
            sha256_of(entropy@)
        },
{
    if entropy.len() >= 32 {
        let key = vstd::slice::slice_to_vec(
            vstd::slice::slice_subrange(entropy.as_slice(), 0, 32),
        );
        r.key = key;
    } else {
        r.key = sha256(entropy.as_slice());
    }
    r.seeded = true;
    r.block_counter = 0;
    r.generated = 0;
}

/// Remix the key with fresh entropy: the new key is
/// `SHA256(old key || entropy)`.
pub fn reseed(r: &mut Rng, entropy: Vec<u8>)
    requires
        old(r).seeded,
        rng_wf(*old(r)),
    ensures
        rng_wf(*final(r)),
        final(r).seeded,
        final(r).block_counter == 0,
        final(r).generated == 0,
        final(r).buffer@ == old(r).buffer@,
        final(r).key@ == sha256_of(old(r).key@ + entropy@),
{
    let mut buf: Vec<u8> = Vec::new();
    push_bytes(&mut buf, r.key.as_slice());
    push_bytes(&mut buf, entropy.as_slice());
    r.key = sha256(buf.as_slice());
    r.block_counter = 0;
    r.generated = 0;
}

/// Extend the buffer from the keystream until it holds at least `need`
/// bytes.
pub fn ensure_buffered(r: &mut Rng, need: usize)
    requires
        old(r).seeded,
        rng_wf(*old(r)),
    ensures
        rng_wf(*final(r)),
        final(r).seeded,
        final(r).key@ == old(r).key@,
        final(r).buffer@.len() >= need,
{
    while r.buffer.len() < need
        invariant
            r.seeded,
            rng_wf(*r),
            r.key@ == old(r).key@,
        decreases need + 64 - r.buffer@.len(),
    {
        let mut block = chacha20_block(r.key.as_slice(), r.block_counter);
        r.buffer.append(&mut block);
        r.block_counter = if r.block_counter == u64::MAX {
            0
        } else {
            r.block_counter + 1
        };
        r.generated = if r.generated > u64::MAX - 64 {
            u64::MAX
        } else {
            r.generated + 64
        };
    }
}

/// Produce `n` pseudorandom bytes, refilling the buffer as needed.
pub fn fill_bytes(r: &mut Rng, n: usize) -> (out: Vec<u8>)
    requires
        old(r).seeded,
        rng_wf(*old(r)),
    ensures
        rng_wf(*final(r)),
        final(r).seeded,
        final(r).key@ == old(r).key@,
        out@.len() == n,
{
    ensure_buffered(r, n);
    let mut out: Vec<u8> = Vec::new();
    let mut i: usize = 0;
    while i < n
        invariant
            i <= n,
            out@.len() == i,
            r.buffer@.len() >= n - i,
            r.seeded,
            rng_wf(*r),
            r.key@ == old(r).key@,
        decreases n - i,
    {
        let b = u_remove_front(&mut r.buffer);
        out.push(b);
        i = i + 1;
    }
    out
}

fn u_remove_front(v: &mut Vec<u8>) -> (b: u8)
    requires
        old(v)@.len() > 0,
    ensures
        final(v)@ == old(v)@.skip(1),
        b == old(v)@[0],
{
    let b = v.remove(0);
    proof {
        assert(old(v)@.remove(0) =~= old(v)@.skip(1));
    }
    b
}

/// A pseudorandom `u64` if the generator is seeded and its buffer holds at
/// least eight bytes; `None` otherwise. Never refills, so it is safe where
/// randomness is a nice-to-have.
pub fn try_u64(r: &mut Rng) -> (out: Option<u64>)
    ensures
        rng_wf(*final(r)) == rng_wf(*old(r)),
        final(r).seeded == old(r).seeded,
        final(r).key@ == old(r).key@,
        out is Some <==> old(r).seeded && old(r).buffer@.len() >= 8,
{
    if !r.seeded {
        return None;
    }
    if r.buffer.len() < 8 {
        return None;
    }
    let mut bytes: Vec<u8> = Vec::new();
    let mut i: usize = 0;
    while i < 8
        invariant
            i <= 8,
            bytes@.len() == i,
            r.buffer@.len() >= 8 - i,
            r.seeded == old(r).seeded,
            r.key@ == old(r).key@,
        decreases 8 - i,
    {
        let b = u_remove_front(&mut r.buffer);
        bytes.push(b);
        i = i + 1;
    }
    Some(vstd::bytes::u64_from_le_bytes(bytes.as_slice()))
}

/// `10^digits` for the code lengths in use.
pub open spec fn pow10(d: int) -> int
    decreases d,
{
    if d <= 0 {
        1
    } else {
        10 * pow10(d - 1)
    }
}

proof fn lemma_pow10_pos(d: int)
    ensures
        pow10(d) >= 1,
    decreases d,
{
    if d > 0 {
        lemma_pow10_pos(d - 1);
    }
}

proof fn lemma_pow10_mono(a: int, b: int)
    requires
        a <= b,
    ensures
        pow10(a) <= pow10(b),
    decreases b - a,
{
    if a < b {
        lemma_pow10_mono(a, b - 1);
        lemma_pow10_pos(b - 1);
    }
}

fn pow10_exec(d: u32) -> (r: u64)
    requires
        d <= 12,
    ensures
        r == pow10(d as int),
        1 <= r <= 1000000000000,
{
    proof {
        reveal_with_fuel(pow10, 14);
        assert(pow10(12) == 1000000000000);
    }
    let mut r: u64 = 1;
    let mut i: u32 = 0;
    while i < d
        invariant
            i <= d,
            r == pow10(i as int),
        decreases d - i,
    {
        proof {
            lemma_pow10_pos(i as int);
            lemma_pow10_mono(i + 1, 12);
        }
        r = r * 10;
        i = i + 1;
    }
    proof {
        lemma_pow10_pos(d as int);
        lemma_pow10_mono(d as int, 12);
    }
    r
}

/// Draw an unbiased numeric code below `10^digits` by rejection sampling,
/// with a bounded number of draws. `None` only if every draw landed in the
/// biased tail, which is vanishingly unlikely.
pub fn numeric_code(r: &mut Rng, digits: u32) -> (out: Option<u64>)
    requires
        old(r).seeded,
        rng_wf(*old(r)),
    ensures
        rng_wf(*final(r)),
        final(r).seeded,
        final(r).key@ == old(r).key@,
        out matches Some(c) ==> c < pow10(if digits <= 12 {
            digits as int
        } else {
            12
        }),
{
    let d = if digits > 12 {
        12
    } else {
        digits
    };
    let bound = pow10_exec(d);
    let mut tries: usize = 0;
    while tries < 64
        invariant
            r.seeded,
            rng_wf(*r),
            r.key@ == old(r).key@,
            bound == pow10(d as int),
            1 <= bound <= 1000000000000,
        decreases 64 - tries,
    {
        let bytes = fill_bytes(r, 8);
        let mut val = vstd::bytes::u64_from_le_bytes(bytes.as_slice());
        proof {
            assert((val & 0x00ff_ffff_ffff_ffffu64) < 0x0100_0000_0000_0000u64) by (bit_vector);
        }
        val = val & 0x00ff_ffff_ffff_ffff;
        proof {
            vstd::arithmetic::div_mod::lemma_fundamental_div_mod(u64::MAX as int, bound as int);
            assert((u64::MAX as int / bound as int) * bound as int <= u64::MAX as int)
                by (nonlinear_arith)
                requires
                    bound as int * (u64::MAX as int / bound as int) + u64::MAX as int
                        % bound as int == u64::MAX as int,
                    0 <= u64::MAX as int % bound as int,
            ;
            assert(bound > 0);
            vstd::arithmetic::div_mod::lemma_mod_bound(val as int, bound as int);
        }
        if val < (u64::MAX / bound) * bound {
            return Some(val % bound);
        }
        tries = tries + 1;
    }
    None
}

/// A fresh 32-byte symmetric key for the document vault.
pub fn generate_master_key(r: &mut Rng) -> (out: Vec<u8>)
    requires
        old(r).seeded,
        rng_wf(*old(r)),
    ensures
        rng_wf(*final(r)),
        final(r).seeded,
        final(r).key@ == old(r).key@,
        out@.len() == 32,
{
    fill_bytes(r, 32)
}

} // verus!
