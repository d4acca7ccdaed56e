use civ_backend::assets::add_asset;
use civ_backend::distributions::{estate_readiness, set_distribution_v2};
use civ_backend::executor::{
    estate_status, lock_estate, maybe_advance_phase, reset_timer, start_warning,
};
use civ_backend::model::asset::AssetInput;
use civ_backend::model::base::{AssetKind, HeirSecretStatus, PayoutPreference};
use civ_backend::model::distribution::DistributionShare;
use civ_backend::model::errors::CivError;
use civ_backend::model::heir::HeirAddInputV2;
use civ_backend::model::user::{EstatePhase, User, INACTIVITY_PERIOD_SECS, WARNING_WINDOW_SECS};

fn owner() -> User {
    User::new("2vxsx-fae", 0)
}

fn seeded_rng() -> civ_backend::rng::Rng {
    let mut r = civ_backend::rng::rng_new();
    civ_backend::rng::seed(&mut r, vec![7u8; 32]);
    r
}

fn asset_input(name: &str, kind: AssetKind) -> AssetInput {
    AssetInput {
        name: name.to_string(),
        asset_type: "Cash".to_string(),
        kind,
        value: None,
        decimals: None,
        description: String::new(),
        token_canister: None,
        token_id: None,
        file_path: None,
        holding_mode: None,
        nft_standard: None,
        chain_wrapped: None,
    }
}

fn heir_input(name: &str) -> HeirAddInputV2 {
    HeirAddInputV2 {
        name: name.to_string(),
        relationship: String::new(),
        email: String::new(),
        phone: String::new(),
        address: String::new(),
        heir_principal: None,
        secret_kind: "phrase".to_string(),
        secret_plain: "open sesame".to_string(),
        identity_claim: None,
        notes: None,
    }
}

#[test]
fn phase_advances_draft_warning_locked_in_order() {
    let mut u = owner();
    u.timer_expiry = 1000 + INACTIVITY_PERIOD_SECS;
    maybe_advance_phase(&mut u, 1000);
    assert!(matches!(u.phase, EstatePhase::Draft));
    let warn_time = u.timer_expiry - WARNING_WINDOW_SECS;
    maybe_advance_phase(&mut u, warn_time);
    assert!(matches!(u.phase, EstatePhase::Warning));
    assert_eq!(u.warning_started_at, Some(warn_time));
    let expiry = u.timer_expiry;
    maybe_advance_phase(&mut u, expiry);
    assert!(matches!(u.phase, EstatePhase::Locked));
    maybe_advance_phase(&mut u, expiry + 5);
    assert!(matches!(u.phase, EstatePhase::Locked));
}

#[test]
fn start_warning_moves_only_from_draft() {
    let mut u = owner();
    assert!(start_warning(&mut u, 50).is_ok());
    assert!(matches!(u.phase, EstatePhase::Warning));
    assert!(start_warning(&mut u, 60).is_err());
}

#[test]
fn lock_estate_needs_readiness() {
    let mut u = owner();
    let mut rng = seeded_rng();
    add_asset(&mut u, asset_input("wallet", AssetKind::Fungible), 10).unwrap();
    let hid = civ_backend::heirs::add_heir_v2(&mut u, heir_input("alice"), &mut rng, 11).unwrap();
    let shares = vec![DistributionShare {
        asset_id: 1,
        heir_id: hid,
        percentage: 60,
        payout_preference: PayoutPreference::ToCustody,
    }];
    assert!(matches!(
        set_distribution_v2(&mut u, 1, shares, 12),
        Err(CivError::InvalidHeirPercentage)
    ));
    let report = estate_readiness(&mut u, 13);
    assert!(report.ready);
    let full = vec![DistributionShare {
        asset_id: 1,
        heir_id: hid,
        percentage: 100,
        payout_preference: PayoutPreference::ToCustody,
    }];
    set_distribution_v2(&mut u, 1, full, 50).unwrap();
    assert!(lock_estate(&mut u, 100).is_ok());
    assert!(matches!(u.phase, EstatePhase::Locked));
    assert!(matches!(lock_estate(&mut u, 101), Err(CivError::EstateLocked)));
}

#[test]
fn reset_timer_restarts_inactivity() {
    let mut u = owner();
    reset_timer(&mut u, 500);
    assert_eq!(u.timer_expiry, 500 + INACTIVITY_PERIOD_SECS);
    assert!(!u.distributed);
    assert_eq!(u.last_timer_reset, 500);
    let st = estate_status(&u, 600);
    assert_eq!(st.seconds_to_expiry, (u.timer_expiry - 600) as i64);
}
