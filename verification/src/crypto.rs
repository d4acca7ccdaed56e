//! Crypto primitives behind the custodian: salted SHA-256 secret hashing,
//! constant-time comparison, XChaCha20-Poly1305 document sealing, and
//! deterministic subaccount derivation.

use vstd::prelude::*;
use vstd::string::StringSliceAdditionalSpecFns;

use crate::strutil::push_bytes;

verus! {

/// The SHA-256 digest of a byte sequence; 32 bytes.
pub uninterp spec fn sha256_of(data: Seq<u8>) -> Seq<u8>;

/// Relies on `sha2::Sha256`: the digest depends on the input bytes alone and
/// is 32 bytes long.
#[verifier::external_body]
pub fn sha256(data: &[u8]) -> (r: Vec<u8>)
    ensures
        r@ == sha256_of(data@),
        r@.len() == 32,
{
    let digest = <sha2::Sha256 as sha2::Digest>::digest(data);
    digest.as_slice().to_vec()
}

/// XChaCha20-Poly1305 sealing of `plain` under `key` and `nonce` with the
/// fixed associated data `"DOC"`; ciphertext plus 16-byte tag.
pub uninterp spec fn xchacha_seal(key: Seq<u8>, nonce: Seq<u8>, plain: Seq<u8>) -> Seq<u8>;

/// The inverse opening; `None` when the tag does not verify.
pub uninterp spec fn xchacha_open(key: Seq<u8>, nonce: Seq<u8>, ct: Seq<u8>) -> Option<Seq<u8>>;

/// Relies on `chacha20poly1305::XChaCha20Poly1305::encrypt` with AAD `"DOC"`:
/// deterministic in key, nonce and plaintext; the ciphertext is the plaintext
/// length plus the 16-byte tag, and opening it under the same key and nonce
/// yields the plaintext back. The cipher refuses messages of 64 * (2^32 - 1)
/// bytes and more, so such plaintexts are out of the domain here.
#[verifier::external_body]
pub fn xchacha_encrypt(key: &[u8], nonce: &[u8], plain: &[u8]) -> (r: Vec<u8>)
    requires
        key@.len() == 32,
        nonce@.len() == 24,
        plain@.len() < 0x3fffffffc0,
    ensures
        r@ == xchacha_seal(key@, nonce@, plain@),
        r@.len() == plain@.len() + 16,
        xchacha_open(key@, nonce@, r@) == Some(plain@),
{
    let cipher = <chacha20poly1305::XChaCha20Poly1305 as chacha20poly1305::KeyInit>::new(
        key.try_into().unwrap(),
    );
    let payload = chacha20poly1305::aead::Payload { msg: plain, aad: b"DOC" };
    chacha20poly1305::aead::Aead::encrypt(&cipher, nonce.try_into().unwrap(), payload).unwrap()
}

/// Relies on `chacha20poly1305::XChaCha20Poly1305::decrypt` with AAD `"DOC"`:
/// returns the plaintext exactly when the tag verifies.
#[verifier::external_body]
pub fn xchacha_decrypt(key: &[u8], nonce: &[u8], ct: &[u8]) -> (r: Option<Vec<u8>>)
    requires
        key@.len() == 32,
        nonce@.len() == 24,
    ensures
        match (r, xchacha_open(key@, nonce@, ct@)) {
            (Some(v), Some(s)) => v@ == s,
            (None, None) => true,
            _ => false,
        },
{
    let cipher = <chacha20poly1305::XChaCha20Poly1305 as chacha20poly1305::KeyInit>::new(
        key.try_into().unwrap(),
    );
    let payload = chacha20poly1305::aead::Payload { msg: ct, aad: b"DOC" };
    chacha20poly1305::aead::Aead::decrypt(&cipher, nonce.try_into().unwrap(), payload).ok()
}

/// The preimage hashed for a secret: salt, then the secret's UTF-8 bytes.
pub open spec fn secret_preimage_chars(salt: Seq<u8>, secret: Seq<char>) -> Seq<u8> {
    salt + vstd::utf8::encode_utf8(secret)
}

/// The preimage hashed for a secret given as a string slice.
pub open spec fn secret_preimage(salt: Seq<u8>, secret: &str) -> Seq<u8> {
    secret_preimage_chars(salt, secret@)
}

/// `SHA256(salt || secret)`, the stored form of every secret and code.
pub fn hash_secret_with_salt(secret: &str, salt: &[u8]) -> (r: Vec<u8>)
    ensures
        r@ == sha256_of(secret_preimage(salt@, secret)),
        r@.len() == 32,
{
    let mut buf: Vec<u8> = Vec::new();
    push_bytes(&mut buf, salt);
    push_bytes(&mut buf, secret.as_bytes());
    proof {
        assert(buf@ =~= salt@ + secret.spec_bytes());
    }
    sha256(buf.as_slice())
}

/// Constant-time byte comparison, to keep secret checks timing-neutral.
pub fn constant_time_eq(a: &[u8], b: &[u8]) -> (r: bool)
    ensures
        r == (a@ == b@),
{
    if a.len() != b.len() {
        proof {
            assert(a@ != b@);
        }
        return false;
    }
    let mut diff: u8 = 0;
    let mut i: usize = 0;
    while i < a.len()
        invariant
            i <= a@.len(),
            a@.len() == b@.len(),
            (diff == 0) <==> (forall|j: int| 0 <= j < i ==> a@[j] == b@[j]),
        decreases a@.len() - i,
    {
        let x = a[i];
        let y = b[i];
        proof {
            assert((diff | (x ^ y)) == 0 <==> diff == 0 && (x ^ y) == 0) by (bit_vector);
            assert((x ^ y) == 0 <==> x == y) by (bit_vector);
        }
        diff = diff | (x ^ y);
        i = i + 1;
    }
    proof {
        if diff == 0 {
            assert(a@ =~= b@);
        } else {
            assert(a@ != b@);
        }
    }
    diff == 0
}

/// Preimage of an heir's custody subaccount:
/// `"CUSTODY" || owner principal || heir id (little endian)`.
pub open spec fn custody_preimage_chars(owner: Seq<char>, heir_id: u64) -> Seq<u8> {
    "CUSTODY".spec_bytes() + vstd::utf8::encode_utf8(owner) + vstd::bytes::spec_u64_to_le_bytes(
        heir_id,
    )
}

/// The same preimage given the owner as a string slice.
pub open spec fn custody_subaccount_preimage(owner: &str, heir_id: u64) -> Seq<u8> {
    custody_preimage_chars(owner@, heir_id)
}

/// Deterministic custody subaccount for `(owner, heir)`.
pub fn derive_custody_subaccount(user_principal: &str, heir_id: u64) -> (r: Vec<u8>)
    ensures
        r@ == sha256_of(custody_subaccount_preimage(user_principal, heir_id)),
        r@.len() == 32,
{
    let mut buf: Vec<u8> = Vec::new();
    push_bytes(&mut buf, "CUSTODY".as_bytes());
    push_bytes(&mut buf, user_principal.as_bytes());
    let id_bytes = vstd::bytes::u64_to_le_bytes(heir_id);
    push_bytes(&mut buf, id_bytes.as_slice());
    proof {
        assert(buf@ =~= custody_subaccount_preimage(user_principal, heir_id));
    }
    sha256(buf.as_slice())
}

/// Preimage of an asset's escrow subaccount:
/// `"ESCROW" || owner principal || asset id (little endian)`.
pub open spec fn escrow_subaccount_preimage(owner: &str, asset_id: u64) -> Seq<u8> {
    "ESCROW".spec_bytes() + owner.spec_bytes() + vstd::bytes::spec_u64_to_le_bytes(asset_id)
}

/// Deterministic escrow subaccount for `(owner, asset)`.
pub fn derive_escrow_subaccount(user_principal: &str, asset_id: u64) -> (r: Vec<u8>)
    ensures
        r@ == sha256_of(escrow_subaccount_preimage(user_principal, asset_id)),
        r@.len() == 32,
{
    let mut buf: Vec<u8> = Vec::new();
    push_bytes(&mut buf, "ESCROW".as_bytes());
    push_bytes(&mut buf, user_principal.as_bytes());
    let id_bytes = vstd::bytes::u64_to_le_bytes(asset_id);
    push_bytes(&mut buf, id_bytes.as_slice());
    proof {
        assert(buf@ =~= escrow_subaccount_preimage(user_principal, asset_id));
    }
    sha256(buf.as_slice())
}

} // verus!
