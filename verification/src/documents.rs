//! The encrypted document vault where it meets the lifecycle guards: size
//! ceilings on direct adds and chunked uploads, checksum verification, and
//! the phase-gated heir read.

use vstd::prelude::*;
use vstd::string::StringExecFns;

use crate::audit::{push_audit, spec_push_audit};
use crate::common::{
    assert_mutable, find_document, find_heir_ex, find_upload, first_heir_at, has_upload,
    is_mutable, next_document_id, next_upload_id, spec_next_document_id, spec_next_upload_id,
};
use crate::crypto::{sha256, sha256_of, xchacha_encrypt, xchacha_open, xchacha_seal};
use crate::model::audit::AuditEventKind;
use crate::model::base::HeirSecretStatus;
use crate::model::document::{
    DocumentChunk, DocumentEntry, DocumentUploadInit, DocumentUploadSession, MAX_CHUNK_BYTES,
    MAX_CONCURRENT_UPLOADS, MAX_DOC_BYTES,
};
use crate::model::errors::CivError;
use crate::model::user::{EstatePhase, User};
use crate::rng::{fill_bytes, generate_master_key, rng_wf, Rng};

verus! {

/// In-flight chunked uploads may hold at most this much expected plaintext.
pub const MAX_INFLIGHT_BYTES: usize = 30000000;

/// `i` is the index of the first upload session with this id.
pub open spec fn first_upload_at(s: Seq<DocumentUploadSession>, id: u64, i: int) -> bool {
    0 <= i < s.len() && s[i].upload_id == id && forall|j: int| 0 <= j < i ==> s[j].upload_id != id
}

/// `i` is the index of the first document with this id.
pub open spec fn first_document_at(s: Seq<DocumentEntry>, id: u64, i: int) -> bool {
    0 <= i < s.len() && s[i].id == id && forall|j: int| 0 <= j < i ==> s[j].id != id
}

/// `i` is the first index of the oldest in-flight upload.
pub open spec fn oldest_upload_at(s: Seq<DocumentUploadSession>, i: int) -> bool {
    &&& 0 <= i < s.len()
    &&& (forall|j: int| 0 <= j < s.len() ==> s[i].started_at <= #[trigger] s[j].started_at)
    &&& (forall|j: int| 0 <= j < i ==> #[trigger] s[j].started_at > s[i].started_at)
}

/// Total expected plaintext of the first `j` in-flight sessions.
pub open spec fn upload_aggregate(s: Seq<DocumentUploadSession>, j: int) -> int
    decreases j,
{
    if j <= 0 {
        0
    } else {
        upload_aggregate(s, j - 1) + s[j - 1].expected_plain_size
    }
}

/// A fresh upload of `extra` bytes fits in the in-flight budget, after the
/// eviction the concurrency cap forces.
pub open spec fn upload_capacity_ok(u: User, extra: u64) -> bool {
    match u.doc_uploads {
        Some(ups) => if ups@.len() < MAX_CONCURRENT_UPLOADS as nat {
            upload_aggregate(ups@, ups@.len() as int) + extra <= MAX_INFLIGHT_BYTES as int
        } else {
            exists|oi: int|
                #[trigger] oldest_upload_at(ups@, oi) && upload_aggregate(
                    ups@.remove(oi),
                    ups@.len() - 1,
                ) + extra <= MAX_INFLIGHT_BYTES as int
        },
        None => true,
    }
}

/// Start a chunked upload. A declared size beyond the document ceiling is
/// refused with `document_too_large`; the size of exactly the ceiling is
/// accepted. The oldest in-flight session evicts at the concurrency cap.
pub fn start_document_upload(u: &mut User, init: DocumentUploadInit, now: u64) -> (r: Result<
    u64,
    CivError,
>)
    ensures
        init.expected_plain_size > MAX_DOC_BYTES as u64 <==> (r matches Err(CivError::Other(m))
            && m@ == "document_too_large"@),
        init.expected_plain_size > MAX_DOC_BYTES as u64 ==> *final(u) == *old(u),
        r is Ok ==> {
            &&& init.expected_plain_size <= MAX_DOC_BYTES as u64
            &&& is_mutable(*old(u))
            &&& *final(u) == (User {
                doc_uploads: final(u).doc_uploads,
                audit_log: final(u).audit_log,
                ..*old(u)
            })
            &&& (match final(u).doc_uploads {
                Some(ups) => ups@.len() >= 1 && {
                    let sess = ups@.last();
                    &&& (r matches Ok(id) && sess.upload_id == id)
                    &&& sess.name@ == init.name@
                    &&& sess.expected_plain_size == init.expected_plain_size
                    &&& sess.received_plain == 0
                    &&& sess.plaintext@.len() == 0
                    &&& sess.started_at == now
                },
                None => false,
            })
        },
        !is_mutable(*old(u)) && init.expected_plain_size <= MAX_DOC_BYTES as u64 ==> (r matches Err(
            CivError::EstateLocked,
        ) && *final(u) == *old(u)),
        r is Ok <==> init.expected_plain_size <= MAX_DOC_BYTES as u64 && is_mutable(*old(u))
            && upload_capacity_ok(*old(u), init.expected_plain_size),
        (r matches Err(CivError::Other(m)) && m@ == "inflight_upload_memory_limit"@)
            <==> init.expected_plain_size <= MAX_DOC_BYTES as u64 && is_mutable(*old(u))
            && !upload_capacity_ok(*old(u), init.expected_plain_size),
{
    if init.expected_plain_size > MAX_DOC_BYTES as u64 {
        proof {
            reveal_strlit("document_too_large");
            reveal_strlit("inflight_upload_memory_limit");
            assert("document_too_large"@.len() == 18);
            assert("inflight_upload_memory_limit"@.len() == 28);
        }
        return Err(CivError::Other(<String as StringExecFns>::from_str("document_too_large")));
    }
    if let Err(e) = assert_mutable(u) {
        return Err(e);
    }
    if u.doc_uploads.is_none() {
        u.doc_uploads = Some(Vec::new());
    }
    let mut aggregate: u128 = 0;
    let next_id;
    let ghost cap_ok = upload_capacity_ok(*old(u), init.expected_plain_size);
    match &mut u.doc_uploads {
        Some(ups) => {
            let ghost pre = ups@;
            if ups.len() >= MAX_CONCURRENT_UPLOADS {
                let mut oldest: usize = 0;
                let mut k: usize = 1;
                while k < ups.len()
                    invariant
                        oldest < k,
                        k <= ups@.len(),
                        ups@.len() > 0,
                        ups@ == pre,
                        forall|j: int|
                            0 <= j < k ==> ups@[oldest as int].started_at
                                <= #[trigger] ups@[j].started_at,
                        forall|j: int|
                            0 <= j < oldest ==> #[trigger] ups@[j].started_at
                                > ups@[oldest as int].started_at,
                    decreases ups@.len() - k,
                {
                    if ups[k].started_at < ups[oldest].started_at {
                        oldest = k;
                    }
                    k = k + 1;
                }
                proof {
                    assert(oldest_upload_at(pre, oldest as int));
                    assert forall|oi: int| #[trigger] oldest_upload_at(pre, oi) implies oi
                        == oldest as int by {
                        if oi < oldest as int {
                            assert(pre[oi].started_at > pre[oldest as int].started_at);
                            assert(pre[oi].started_at <= pre[oldest as int].started_at);
                        }
                        if oi > oldest as int {
                            assert(pre[oldest as int].started_at > pre[oi].started_at);
                            assert(pre[oldest as int].started_at <= pre[oi].started_at);
                        }
                    }
                }
                ups.remove(oldest);
                proof {
                    assert(ups@ =~= pre.remove(oldest as int));
                }
            }
            let ghost base = ups@;
            let mut k: usize = 0;
            while k < ups.len()
                invariant
                    k <= ups@.len(),
                    ups@ == base,
                    aggregate <= k * (u64::MAX as int),
                    aggregate == upload_aggregate(base, k as int),
                decreases ups@.len() - k,
            {
                proof {
                    assert(k * (u64::MAX as int) + u64::MAX == (k + 1) * (u64::MAX as int))
                        by (nonlinear_arith);
                    assert((k + 1) * (u64::MAX as int) <= usize::MAX * (u64::MAX as int))
                        by (nonlinear_arith)
                        requires
                            k + 1 <= usize::MAX,
                    ;
                }
                aggregate = aggregate + (ups[k].expected_plain_size as u128);
                k = k + 1;
            }
            proof {
                if pre.len() >= MAX_CONCURRENT_UPLOADS as nat {
                    assert(base.len() == pre.len() - 1);
                }
                assert(cap_ok == (aggregate + init.expected_plain_size
                    <= MAX_INFLIGHT_BYTES as int));
            }
            if aggregate + (init.expected_plain_size as u128) > MAX_INFLIGHT_BYTES as u128 {
                proof {
                    reveal_strlit("document_too_large");
                    reveal_strlit("inflight_upload_memory_limit");
                    assert("document_too_large"@.len() == 18);
                    assert("inflight_upload_memory_limit"@.len() == 28);
                }
                return Err(CivError::Other(
                    <String as StringExecFns>::from_str("inflight_upload_memory_limit"),
                ));
            }
            next_id = next_upload_id(ups);
            let DocumentUploadInit { name, mime_type, expected_plain_size, expected_sha256 } =
                init;
            let name_copy = name.clone();
            ups.push(
                DocumentUploadSession {
                    upload_id: next_id,
                    name,
                    mime_type,
                    expected_plain_size,
                    expected_sha256,
                    received_plain: 0,
                    plaintext: Vec::new(),
                    started_at: now,
                },
            );
            push_audit(
                u,
                AuditEventKind::DocUploadStarted { upload_id: next_id, name: name_copy },
                now,
            );
        },
        None => {
            proof {
                assert(false);
            }
            next_id = 0;
        },
    }
    Ok(next_id)
}

/// Append one chunk to an upload: oversized chunks, overruns of the
/// declared size and the absolute ceiling are refused exactly.
pub fn upload_document_chunk(u: &mut User, chunk: DocumentChunk, now: u64) -> (r: Result<
    u64,
    CivError,
>)
    ensures
        chunk.data@.len() > MAX_CHUNK_BYTES ==> (r matches Err(CivError::Other(m)) && m@
            == "chunk_too_large"@ && *final(u) == *old(u)),
        r is Ok <==> chunk.data@.len() <= MAX_CHUNK_BYTES && (match old(u).doc_uploads {
            Some(ups) => exists|i: int|
                #[trigger] first_upload_at(ups@, chunk.upload_id, i)
                    && ups@[i].received_plain + chunk.data@.len() <= ups@[i].expected_plain_size
                    && ups@[i].received_plain + chunk.data@.len() <= MAX_DOC_BYTES as int,
            None => false,
        }),
        r matches Ok(got) ==> {
            &&& chunk.data@.len() <= MAX_CHUNK_BYTES
            &&& *final(u) == (User {
                doc_uploads: final(u).doc_uploads,
                audit_log: final(u).audit_log,
                ..*old(u)
            })
            &&& (match (old(u).doc_uploads, final(u).doc_uploads) {
                (Some(ups), Some(ups2)) => exists|i: int|
                    {
                        &&& 0 <= i < ups@.len()
                        &&& ups@[i].upload_id == chunk.upload_id
                        &&& ups2@.len() == ups@.len()
                        &&& ups2@[i].plaintext@ == ups@[i].plaintext@ + chunk.data@
                        &&& ups2@[i].received_plain == got
                        &&& got == ups@[i].received_plain + chunk.data@.len()
                        &&& got <= ups@[i].expected_plain_size
                        &&& got <= MAX_DOC_BYTES as u64
                    },
                _ => false,
            })
        },
{
    if chunk.data.len() > MAX_CHUNK_BYTES {
        proof {
            reveal_strlit("chunk_too_large");
            reveal_strlit("exceeds_expected_size");
            reveal_strlit("document_too_large");
            reveal_strlit("upload_not_found");
            assert("chunk_too_large"@.len() == 15);
            assert("exceeds_expected_size"@.len() == 21);
            assert("document_too_large"@.len() == 18);
            assert("upload_not_found"@.len() == 16);
        }
        return Err(CivError::Other(<String as StringExecFns>::from_str("chunk_too_large")));
    }
    proof {
        reveal_strlit("chunk_too_large");
        reveal_strlit("exceeds_expected_size");
        reveal_strlit("document_too_large");
        reveal_strlit("upload_not_found");
        assert("chunk_too_large"@.len() == 15);
        assert("exceeds_expected_size"@.len() == 21);
        assert("document_too_large"@.len() == 18);
        assert("upload_not_found"@.len() == 16);
    }
    let got;
    match &mut u.doc_uploads {
        Some(ups) => {
            let si = match find_upload(ups, chunk.upload_id) {
                Some(i) => i,
                None => {
                    return Err(CivError::Other(
                        <String as StringExecFns>::from_str("upload_not_found"),
                    ));
                },
            };
            proof {
                assert(first_upload_at(ups@, chunk.upload_id, si as int));
                assert forall|t: int|
                    #[trigger] first_upload_at(ups@, chunk.upload_id, t) implies t
                    == si as int by {
                    if t < si as int {
                        assert(ups@[t].upload_id == chunk.upload_id);
                    }
                    if t > si as int {
                        assert(ups@[si as int].upload_id != chunk.upload_id);
                    }
                }
            }
            let mut sess = ups.remove(si);
            let new_total = (sess.received_plain as u128) + (chunk.data.len() as u128);
            if new_total > sess.expected_plain_size as u128 {
                ups.insert(si, sess);
                return Err(CivError::Other(
                    <String as StringExecFns>::from_str("exceeds_expected_size"),
                ));
            }
            if new_total > MAX_DOC_BYTES as u128 {
                ups.insert(si, sess);
                return Err(CivError::Other(
                    <String as StringExecFns>::from_str("document_too_large"),
                ));
            }
            let mut data = chunk.data;
            sess.plaintext.append(&mut data);
            sess.received_plain = new_total as u64;
            got = sess.received_plain;
            ups.insert(si, sess);
        },
        None => {
            return Err(CivError::Other(
                <String as StringExecFns>::from_str("upload_not_found"),
            ));
        },
    }
    push_audit(
        u,
        AuditEventKind::DocUploadChunkAppended {
            upload_id: chunk.upload_id,
            bytes: got,
        },
        now,
    );
    Ok(got)
}

/// Discard an in-progress upload.
pub fn abort_document_upload(u: &mut User, upload_id: u64, reason: String, now: u64) -> (r: Result<
    (),
    CivError,
>)
    ensures
        r is Ok <==> (match old(u).doc_uploads {
            Some(ups) => has_upload(ups@, upload_id),
            None => false,
        }),
        r is Err ==> *final(u) == *old(u),
        r is Ok ==> *final(u) == (User {
            doc_uploads: final(u).doc_uploads,
            audit_log: final(u).audit_log,
            ..*old(u)
        }),
{
    match &mut u.doc_uploads {
        Some(ups) => {
            let si = match find_upload(ups, upload_id) {
                Some(i) => i,
                None => {
                    return Err(CivError::Other(
                        <String as StringExecFns>::from_str("upload_not_found"),
                    ));
                },
            };
            ups.remove(si);
        },
        None => {
            return Err(CivError::Other(
                <String as StringExecFns>::from_str("upload_not_found"),
            ));
        },
    }
    push_audit(u, AuditEventKind::DocUploadAborted { upload_id, reason }, now);
    Ok(())
}

/// Finalize an upload: sizes must agree, an expected checksum must match,
/// and the plaintext seals into a fresh document under the vault key.
pub fn finalize_document_upload(u: &mut User, upload_id: u64, rng: &mut Rng, now: u64) -> (r:
    Result<u64, CivError>)
    requires
        old(rng).seeded,
        rng_wf(*old(rng)),
    ensures
        rng_wf(*final(rng)) && final(rng).seeded,
        !is_mutable(*old(u)) <==> r matches Err(CivError::EstateLocked),
        r is Ok <==> is_mutable(*old(u)) && (match old(u).doc_uploads {
            Some(ups) => exists|i: int|
                #[trigger] first_upload_at(ups@, upload_id, i) && ups@[i].received_plain
                    == ups@[i].expected_plain_size && ups@[i].plaintext@.len()
                    <= MAX_DOC_BYTES as int && (match ups@[i].expected_sha256 {
                    Some(exp) => exp@ == sha256_of(ups@[i].plaintext@),
                    None => true,
                }),
            None => false,
        }) && (match old(u).doc_master_key {
            Some(k) => k@.len() == 32,
            None => true,
        }),
        r matches Ok(doc_id) ==> {
            &&& final(u).documents@.len() == old(u).documents@.len() + 1
            &&& final(u).documents@.drop_last() == old(u).documents@
            &&& ({
                let d = final(u).documents@.last();
                &&& d.id == doc_id
                &&& d.created_at == now
                &&& d.size == d.encrypted_data@.len()
                &&& (match d.checksum_sha256 {
                    Some(c) => c@ == sha256_of(spec_finalized_plaintext(*old(u), upload_id)),
                    None => false,
                })
                &&& d.encrypted_data@.len() == spec_finalized_plaintext(*old(u), upload_id).len()
                    + 16
            })
        },
{
    if let Err(e) = assert_mutable(u) {
        return Err(e);
    }
    if u.doc_master_key.is_none() {
        let key = generate_master_key(rng);
        u.doc_master_key = Some(key);
    }
    let sess;
    match &mut u.doc_uploads {
        Some(ups) => {
            let si = match find_upload(ups, upload_id) {
                Some(i) => i,
                None => {
                    return Err(CivError::Other(
                        <String as StringExecFns>::from_str("upload_not_found"),
                    ));
                },
            };
            proof {
                lemma_upload_plaintext_hit(ups@, upload_id, si as int);
                assert(first_upload_at(ups@, upload_id, si as int));
                assert forall|t: int| #[trigger] first_upload_at(ups@, upload_id, t) implies t
                    == si as int by {
                    if t < si as int {
                        assert(ups@[t].upload_id == upload_id);
                    }
                    if t > si as int {
                        assert(ups@[si as int].upload_id != upload_id);
                    }
                }
            }
            sess = ups.remove(si);
        },
        None => {
            return Err(CivError::Other(
                <String as StringExecFns>::from_str("upload_not_found"),
            ));
        },
    }
    if sess.received_plain != sess.expected_plain_size {
        return Err(CivError::Other(<String as StringExecFns>::from_str("size_mismatch")));
    }
    if sess.plaintext.len() > MAX_DOC_BYTES {
        return Err(CivError::Other(<String as StringExecFns>::from_str("document_too_large")));
    }
    let checksum = sha256(sess.plaintext.as_slice());
    match &sess.expected_sha256 {
        Some(exp) => {
            let expected = vstd::slice::slice_to_vec(exp.as_slice());
            if !crate::crypto::constant_time_eq(checksum.as_slice(), expected.as_slice()) {
                return Err(CivError::Other(
                    <String as StringExecFns>::from_str("checksum_mismatch"),
                ));
            }
        },
        None => {},
    }
    let key = match &u.doc_master_key {
        Some(k) => {
            if k.len() != 32 {
                return Err(CivError::Other(
                    <String as StringExecFns>::from_str("vault_key_invalid"),
                ));
            }
            crate::audit::clone_bytes(k)
        },
        None => {
            proof {
                assert(false);
            }
            Vec::new()
        },
    };
    let nonce = fill_bytes(rng, 24);
    let ciphertext = xchacha_encrypt(key.as_slice(), nonce.as_slice(), sess.plaintext.as_slice());
    let mut nonce_arr = [0u8; 24];
    copy_nonce(&mut nonce_arr, &nonce);
    let mut checksum_arr = [0u8; 32];
    copy_checksum(&mut checksum_arr, &checksum);
    let next_id = next_document_id(&u.documents);
    let stored_size = ciphertext.len() as u64;
    u.documents.push(
        DocumentEntry {
            id: next_id,
            name: sess.name,
            mime_type: sess.mime_type,
            size: stored_size,
            encrypted_data: ciphertext,
            nonce: nonce_arr,
            created_at: now,
            checksum_sha256: Some(checksum_arr),
        },
    );
    push_audit(
        u,
        AuditEventKind::DocUploadFinalized { upload_id, doc_id: next_id, size: stored_size },
        now,
    );
    Ok(next_id)
}

/// The plaintext an upload finalizes with, as the session holds it.
pub open spec fn spec_finalized_plaintext(u: User, upload_id: u64) -> Seq<u8> {
    match u.doc_uploads {
        Some(ups) => spec_upload_plaintext(ups@, upload_id),
        None => Seq::empty(),
    }
}

/// The plaintext of the first session with the id.
pub open spec fn spec_upload_plaintext(ups: Seq<DocumentUploadSession>, upload_id: u64) -> Seq<u8>
    decreases ups.len(),
{
    if ups.len() == 0 {
        Seq::empty()
    } else if ups[0].upload_id == upload_id {
        ups[0].plaintext@
    } else {
        spec_upload_plaintext(ups.skip(1), upload_id)
    }
}

pub proof fn lemma_upload_plaintext_hit(ups: Seq<DocumentUploadSession>, upload_id: u64, i: int)
    requires
        0 <= i < ups.len(),
        ups[i].upload_id == upload_id,
        forall|j: int| 0 <= j < i ==> ups[j].upload_id != upload_id,
    ensures
        spec_upload_plaintext(ups, upload_id) == ups[i].plaintext@,
    decreases ups.len(),
{
    if i > 0 {
        lemma_upload_plaintext_hit(ups.skip(1), upload_id, i - 1);
    }
}

fn copy_nonce(dst: &mut [u8; 24], src: &Vec<u8>)
    requires
        src@.len() == 24,
    ensures
        final(dst)@ == src@,
{
    let mut i: usize = 0;
    while i < 24
        invariant
            i <= 24,
            src@.len() == 24,
            dst@.len() == 24,
            forall|j: int| 0 <= j < i ==> dst@[j] == src@[j],
        decreases 24 - i,
    {
        dst.set(i, src[i]);
        i = i + 1;
    }
    proof {
        assert(dst@ =~= src@);
    }
}

fn copy_checksum(dst: &mut [u8; 32], src: &Vec<u8>)
    requires
        src@.len() == 32,
    ensures
        final(dst)@ == src@,
{
    let mut i: usize = 0;
    while i < 32
        invariant
            i <= 32,
            src@.len() == 32,
            dst@.len() == 32,
            forall|j: int| 0 <= j < i ==> dst@[j] == src@[j],
        decreases 32 - i,
    {
        dst.set(i, src[i]);
        i = i + 1;
    }
    proof {
        assert(dst@ =~= src@);
    }
}

/// The user's documents.
pub fn list_documents(u: &User) -> (r: &Vec<DocumentEntry>)
    ensures
        r@ == u.documents@,
{
    &u.documents
}

/// Heir read of one document: only once the estate is Executed, only for a
/// verified heir, and only when the ciphertext opens under the vault key.
pub fn heir_get_document(u: &User, heir_id: u64, doc_id: u64) -> (r: Result<
    Option<Vec<u8>>,
    CivError,
>)
    ensures
        u.phase != EstatePhase::Executed ==> (r matches Ok(p) && p is None),
        (r matches Ok(p) && p is Some) <==> u.phase == EstatePhase::Executed && (exists|hi: int|
            #[trigger] first_heir_at(u.heirs_v2@, heir_id, hi)
                && u.heirs_v2@[hi].identity_secret.status == HeirSecretStatus::Verified) && (exists|
            di: int,
        |
            #[trigger] first_document_at(u.documents@, doc_id, di) && (match u.doc_master_key {
                Some(k) => k@.len() == 32 && xchacha_open(
                    k@,
                    u.documents@[di].nonce@,
                    u.documents@[di].encrypted_data@,
                ) is Some,
                None => false,
            })),
        r matches Ok(Some(plain)) ==> {
            &&& u.phase == EstatePhase::Executed
            &&& exists|hi: int|
                0 <= hi < u.heirs_v2@.len() && u.heirs_v2@[hi].id == heir_id
                    && u.heirs_v2@[hi].identity_secret.status == HeirSecretStatus::Verified
            &&& exists|di: int|
                {
                    &&& 0 <= di < u.documents@.len()
                    &&& u.documents@[di].id == doc_id
                    &&& (match u.doc_master_key {
                        Some(k) => xchacha_open(
                            k@,
                            u.documents@[di].nonce@,
                            u.documents@[di].encrypted_data@,
                        ) == Some(plain@),
                        None => false,
                    })
                }
        },
{
    if !(u.phase == EstatePhase::Executed) {
        return Ok(None);
    }
    let verified = match find_heir_ex(&u.heirs_v2, heir_id) {
        Some(hi) => {
            proof {
                assert(first_heir_at(u.heirs_v2@, heir_id, hi as int));
                assert forall|t: int| #[trigger] first_heir_at(u.heirs_v2@, heir_id, t) implies t
                    == hi as int by {
                    if t < hi as int {
                        assert(u.heirs_v2@[t].id == heir_id);
                    }
                    if t > hi as int {
                        assert(u.heirs_v2@[hi as int].id != heir_id);
                    }
                }
            }
            u.heirs_v2[hi].identity_secret.status == HeirSecretStatus::Verified
        },
        None => false,
    };
    if !verified {
        return Ok(None);
    }
    let di = match find_document(&u.documents, doc_id) {
        Some(i) => i,
        None => {
            return Ok(None);
        },
    };
    proof {
        assert(first_document_at(u.documents@, doc_id, di as int));
        assert forall|t: int| #[trigger] first_document_at(u.documents@, doc_id, t) implies t
            == di as int by {
            if t < di as int {
                assert(u.documents@[t].id == doc_id);
            }
            if t > di as int {
                assert(u.documents@[di as int].id != doc_id);
            }
        }
    }
    let key = match &u.doc_master_key {
        Some(k) => {
            if k.len() != 32 {
                return Ok(None);
            }
            k
        },
        None => {
            return Ok(None);
        },
    };
    let nonce = vstd::slice::slice_to_vec(u.documents[di].nonce.as_slice());
    match crate::crypto::xchacha_decrypt(
        key.as_slice(),
        nonce.as_slice(),
        u.documents[di].encrypted_data.as_slice(),
    ) {
        Some(plain) => Ok(Some(plain)),
        None => Ok(None),
    }
}

} // verus!
