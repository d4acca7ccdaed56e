use vstd::prelude::*;

verus! {

pub struct DocumentEntry {
    pub id: u64,
    pub name: String,
    pub mime_type: String,
    /// Size of the stored ciphertext in bytes.
    pub size: u64,
    pub encrypted_data: Vec<u8>,
    pub nonce: [u8; 24],
    pub created_at: u64,
    /// SHA-256 of the plaintext, recorded before encryption.
    pub checksum_sha256: Option<[u8; 32]>,
}

pub struct DocumentAddInput {
    pub name: String,
    pub mime_type: String,
    pub data: Vec<u8>,
}

pub struct DocumentUploadInit {
    pub name: String,
    pub mime_type: String,
    pub expected_plain_size: u64,
    pub expected_sha256: Option<[u8; 32]>,
}

/// In-flight chunked upload; plaintext accumulates until finalize.
pub struct DocumentUploadSession {
    pub upload_id: u64,
    pub name: String,
    pub mime_type: String,
    pub expected_plain_size: u64,
    pub expected_sha256: Option<[u8; 32]>,
    pub received_plain: u64,
    pub plaintext: Vec<u8>,
    pub started_at: u64,
}

pub struct DocumentChunk {
    pub upload_id: u64,
    pub data: Vec<u8>,
}

/// Hard ceiling on one document's plaintext size.
pub const MAX_DOC_BYTES: usize = 10000000;

/// Most chunked uploads kept in flight at once.
pub const MAX_CONCURRENT_UPLOADS: usize = 4;

/// Largest accepted chunk.
pub const MAX_CHUNK_BYTES: usize = 524288;

} // verus!
