use vstd::prelude::*;

use super::base::HeirIdentitySecret;

verus! {

pub struct Heir {
    pub id: u64,
    pub name: String,
    pub relationship: String,
    pub email: String,
    pub phone: String,
    pub address: String,
    pub created_at: u64,
    pub updated_at: u64,
}

pub struct HeirInput {
    pub name: String,
    pub relationship: String,
    pub email: String,
    pub phone: String,
    pub address: String,
}

/// Extended heir record: optional bound principal, identity secret with
/// throttle state, and an optional second identity-claim hash.
pub struct HeirEx {
    pub id: u64,
    pub name: String,
    pub relationship: String,
    pub email: String,
    pub phone: String,
    pub address: String,
    pub principal: Option<String>,
    pub identity_secret: HeirIdentitySecret,
    pub identity_hash: Option<Vec<u8>>,
    pub identity_salt: Option<Vec<u8>>,
    pub notes: Option<String>,
    pub created_at: u64,
    pub updated_at: u64,
}

pub struct HeirAddInputV2 {
    pub name: String,
    pub relationship: String,
    pub email: String,
    pub phone: String,
    pub address: String,
    pub heir_principal: Option<String>,
    pub secret_kind: String,
    pub secret_plain: String,
    pub identity_claim: Option<String>,
    pub notes: Option<String>,
}

} // verus!
