use civ_backend::documents::{
    finalize_document_upload, heir_get_document, start_document_upload, upload_document_chunk,
};
use civ_backend::executor::{compute_ledger_attestation, leaf_bytes_exec};
use civ_backend::model::base::HeirSecretStatus;
use civ_backend::model::document::{DocumentChunk, DocumentUploadInit, MAX_DOC_BYTES};
use civ_backend::model::errors::CivError;
use civ_backend::model::payout::{TransferKind, TransferRecord};
use civ_backend::model::user::{EstatePhase, User};
use civ_backend::model::base::ChainWrappedKind;
use civ_backend::model::payout::TransferErrorKind;
use civ_backend::store::migrate_user;
use sha2::Digest;

fn owner() -> User {
    User::new("2vxsx-fae", 0)
}

fn seeded_rng() -> civ_backend::rng::Rng {
    let mut r = civ_backend::rng::rng_new();
    civ_backend::rng::seed(&mut r, vec![3u8; 32]);
    r
}

fn record(id: u64, amount: u128) -> TransferRecord {
    TransferRecord {
        id,
        timestamp: 100 + id,
        asset_id: Some(1),
        heir_id: Some(2),
        kind: TransferKind::Fungible,
        amount: Some(amount),
        payout_preference: None,
        note: None,
        tx_index: None,
        error: None,
        error_kind: None,
    }
}

fn sha(bytes: &[u8]) -> Vec<u8> {
    sha2::Sha256::digest(bytes).to_vec()
}

#[test]
fn attestation_matches_the_hand_folded_tree_of_three() {
    let mut u = owner();
    u.transfers.push(record(1, 10));
    u.transfers.push(record(2, 20));
    u.transfers.push(record(3, 30));
    let root = compute_ledger_attestation(&mut u, 999);
    let l1 = sha(&leaf_bytes_exec(&u.transfers[0]));
    let l2 = sha(&leaf_bytes_exec(&u.transfers[1]));
    let l3 = sha(&leaf_bytes_exec(&u.transfers[2]));
    let mut cat = l1.clone();
    cat.extend_from_slice(&l2);
    let h12 = sha(&cat);
    let mut top = h12.clone();
    top.extend_from_slice(&l3);
    let expected = sha(&top);
    assert_eq!(root, expected);
    let att = u.ledger_attestation.as_ref().unwrap();
    assert_eq!(att.merkle_root, expected);
    assert_eq!(att.transfer_count, 3);
}

#[test]
fn attestation_is_deterministic_and_order_sensitive() {
    let mut u = owner();
    u.transfers.push(record(1, 10));
    u.transfers.push(record(2, 20));
    u.transfers.push(record(3, 30));
    let root_a = compute_ledger_attestation(&mut u, 1);
    let root_b = compute_ledger_attestation(&mut u, 2);
    assert_eq!(root_a, root_b);
    u.transfers.push(record(4, 40));
    let root_c = compute_ledger_attestation(&mut u, 3);
    assert_ne!(root_a, root_c);
    let mut v = owner();
    v.transfers.push(record(1, 10));
    v.transfers.push(record(3, 30));
    v.transfers.push(record(2, 20));
    let root_d = compute_ledger_attestation(&mut v, 4);
    assert_ne!(root_a, root_d);
}

#[test]
fn upload_of_exactly_the_ceiling_starts_and_one_more_byte_fails() {
    let mut u = owner();
    let ok = start_document_upload(
        &mut u,
        DocumentUploadInit {
            name: "big".to_string(),
            mime_type: "application/octet-stream".to_string(),
            expected_plain_size: MAX_DOC_BYTES as u64,
            expected_sha256: None,
        },
        5,
    );
    assert!(ok.is_ok());
    match start_document_upload(
        &mut u,
        DocumentUploadInit {
            name: "toolarge".to_string(),
            mime_type: "application/octet-stream".to_string(),
            expected_plain_size: MAX_DOC_BYTES as u64 + 1,
            expected_sha256: None,
        },
        6,
    ) {
        Err(CivError::Other(m)) => assert_eq!(m, "document_too_large"),
        other => panic!("unexpected: {:?}", other),
    }
}

#[test]
fn chunked_upload_roundtrips_through_the_vault() {
    let mut u = owner();
    let mut rng = seeded_rng();
    let plain = b"estate paperwork".to_vec();
    let up = start_document_upload(
        &mut u,
        DocumentUploadInit {
            name: "will".to_string(),
            mime_type: "text/plain".to_string(),
            expected_plain_size: plain.len() as u64,
            expected_sha256: None,
        },
        10,
    )
    .unwrap();
    let got = upload_document_chunk(
        &mut u,
        DocumentChunk { upload_id: up, data: plain.clone() },
        11,
    )
    .unwrap();
    assert_eq!(got, plain.len() as u64);
    let doc_id = finalize_document_upload(&mut u, up, &mut rng, 12).unwrap();
    assert_eq!(u.documents.len(), 1);
    assert_eq!(u.documents[0].id, doc_id);
    assert_eq!(u.documents[0].encrypted_data.len(), plain.len() + 16);
    let checksum = sha(&plain);
    assert_eq!(u.documents[0].checksum_sha256.unwrap().to_vec(), checksum);

    u.heirs_v2.push(civ_backend::model::heir::HeirEx {
        id: 7,
        name: "h".to_string(),
        relationship: String::new(),
        email: String::new(),
        phone: String::new(),
        address: String::new(),
        principal: None,
        identity_secret: civ_backend::model::base::HeirIdentitySecret {
            kind: "phrase".to_string(),
            hash: vec![0; 32],
            salt: vec![0; 16],
            status: HeirSecretStatus::Verified,
            updated_at: 0,
            attempts: 0,
            last_attempt_at: None,
            next_allowed_attempt_at: None,
        },
        identity_hash: None,
        identity_salt: None,
        notes: None,
        created_at: 0,
        updated_at: 0,
    });
    assert!(matches!(heir_get_document(&u, 7, doc_id), Ok(None)));
    u.phase = EstatePhase::Executed;
    match heir_get_document(&u, 7, doc_id) {
        Ok(Some(read_back)) => assert_eq!(read_back, plain),
        other => panic!("unexpected: {:?}", other),
    }
}

#[test]
fn migration_fills_chain_kind_and_error_kind_then_settles() {
    let mut u = owner();
    u.schema_version = 2;
    u.assets.push(civ_backend::model::asset::Asset {
        id: 1,
        name: "wrapped".to_string(),
        asset_type: "ckBTC".to_string(),
        kind: civ_backend::model::base::AssetKind::ChainWrapped,
        value: 1,
        decimals: 8,
        description: String::new(),
        created_at: 0,
        updated_at: 0,
        token_canister: None,
        token_id: None,
        holding_mode: None,
        nft_standard: None,
        chain_wrapped: None,
        file_path: None,
    });
    let mut t = record(1, 5);
    t.error = Some("ERR_MISSING_APPROVAL".to_string());
    u.transfers.push(t);
    migrate_user(&mut u).unwrap();
    assert_eq!(u.schema_version, civ_backend::model::user::CURRENT_SCHEMA_VERSION);
    assert!(matches!(u.assets[0].chain_wrapped, Some(ChainWrappedKind::CkBtc)));
    assert!(matches!(
        u.transfers[0].error_kind,
        Some(TransferErrorKind::MissingApproval)
    ));
    let assets_before = u.assets.len();
    migrate_user(&mut u).unwrap();
    assert_eq!(u.assets.len(), assets_before);
    assert!(matches!(u.assets[0].chain_wrapped, Some(ChainWrappedKind::CkBtc)));
}

#[test]
fn migration_rejects_unknown_forward_versions() {
    let mut u = User::new("2vxsx-fae", 0);
    u.schema_version = civ_backend::model::user::CURRENT_SCHEMA_VERSION + 1;
    match migrate_user(&mut u) {
        Err(civ_backend::model::errors::CivError::Other(m)) => {
            assert_eq!(m, "unknown_schema_version")
        }
        other => panic!("unexpected: {:?}", other),
    }
    assert_eq!(
        u.schema_version,
        civ_backend::model::user::CURRENT_SCHEMA_VERSION + 1
    );
}

#[test]
fn upload_of_exactly_the_ceiling_is_accepted() {
    let mut u = User::new("2vxsx-fae", 0);
    let mut rng = civ_backend::rng::rng_new();
    civ_backend::rng::seed(&mut rng, vec![9u8; 32]);
    let upload_id = start_document_upload(
        &mut u,
        DocumentUploadInit {
            name: "big".to_string(),
            mime_type: "application/octet-stream".to_string(),
            expected_plain_size: MAX_DOC_BYTES as u64,
            expected_sha256: None,
        },
        1,
    )
    .unwrap();
    let chunk_len = 524288usize;
    let mut sent = 0usize;
    while sent < MAX_DOC_BYTES {
        let len = chunk_len.min(MAX_DOC_BYTES - sent);
        upload_document_chunk(
            &mut u,
            DocumentChunk { upload_id, data: vec![7u8; len] },
            2,
        )
        .unwrap();
        sent += len;
    }
    let doc_id = finalize_document_upload(&mut u, upload_id, &mut rng, 3).unwrap();
    assert_eq!(u.documents.len(), 1);
    assert_eq!(u.documents[0].id, doc_id);
}

#[test]
fn upload_one_over_the_ceiling_is_refused() {
    let mut u = User::new("2vxsx-fae", 0);
    match start_document_upload(
        &mut u,
        DocumentUploadInit {
            name: "big".to_string(),
            mime_type: String::new(),
            expected_plain_size: MAX_DOC_BYTES as u64 + 1,
            expected_sha256: None,
        },
        1,
    ) {
        Err(CivError::Other(m)) => assert_eq!(m, "document_too_large"),
        other => panic!("unexpected: {:?}", other),
    }
    assert!(u.doc_uploads.is_none());
}
