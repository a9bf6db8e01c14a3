use orizon_contracts::attestation::{seal_step, Error as SealError};
use orizon_contracts::escrow::{
    advance_nonce, authorize_step, charge_step, revoke_step, Error as EscrowError,
};
use orizon_contracts::ids::{Address, Bytes16, Bytes32, Symbol};
use orizon_contracts::registry::{append_id, register_step, update_price_step, Error as RegistryError};
use orizon_contracts::reputation::{can_submit_step, submit_step, Error as RepError, RepState};
use orizon_contracts::score_ledger::submit_step as score_submit_step;
use orizon_contracts::shared::Score;

#[test]
fn reputation_submit_step_decays_then_rates() {
    let scorer = Address::new("GSCORER");
    let stored = Some(RepState { sum_w: 1_000_000, weight: 1_000, count: 1, disputed: 0, last_epoch: 0 });
    let now = 604_800; // epoch 1
    let kind = Symbol::new("dispute");
    assert!(can_submit_step(now, &scorer, &scorer, false, stored, Some(7), 50, 10, &kind));
    let (s, total) = submit_step(now, &scorer, &scorer, false, stored, Some(7), 50, 10, &kind).unwrap();
    assert_eq!(s, RepState { sum_w: 925_000 + 50_000, weight: 935, count: 2, disputed: 1, last_epoch: 1 });
    assert_eq!(total, 17);
    let e = submit_step(now, &scorer, &scorer, true, stored, None, 50, 10, &kind);
    assert_eq!(e.unwrap_err(), RepError::Replay);
    // an overflowing payer total is reported before the step is run
    assert!(!can_submit_step(now, &scorer, &scorer, false, stored, Some(i128::MAX), 50, 10, &kind));
}

#[test]
fn escrow_steps_match_the_calls() {
    let payer = Address::new("GPAYER");
    let settler = Address::new("GSETTLER");
    let agent = Symbol::new("copy_v3");
    assert_eq!(authorize_step(&payer, &agent, 0, 9).unwrap_err(), EscrowError::BadAmount);
    let a = authorize_step(&payer, &agent, 100, 9).unwrap();
    let b = charge_step(&settler, &settler, 60, Some(&a), 5).unwrap();
    assert_eq!(b.spent, 60);
    assert_eq!(charge_step(&settler, &settler, 41, Some(&b), 5).unwrap_err(), EscrowError::Insufficient);
    assert_eq!(revoke_step(&settler, Some(&b)).unwrap_err(), EscrowError::Unauthorized);
    let c = revoke_step(&payer, Some(&b)).unwrap();
    assert!(c.revoked && c.spent == 60);
    assert_eq!(charge_step(&settler, &settler, 1, Some(&c), 5).unwrap_err(), EscrowError::Revoked);
    assert_eq!(revoke_step(&payer, None).unwrap_err(), EscrowError::NotFound);
    assert_eq!(advance_nonce(41), 42);
}

#[test]
fn registry_steps_match_the_calls() {
    let owner = Address::new("GOWNER");
    let id = Symbol::new("seo_b");
    assert_eq!(
        register_step(true, &owner, &id, "seo".to_string(), vec![], 1, 0).unwrap_err(),
        RegistryError::AlreadyExists
    );
    let a = register_step(false, &owner, &id, "seo".to_string(), vec![], 1, 5).unwrap();
    assert!(a.active && a.registered_at == 5 && a.owner == owner);
    let b = update_price_step(Some(&a), 9).unwrap();
    assert_eq!(b.price, 9);
    assert_eq!(update_price_step(None, 9).unwrap_err(), RegistryError::NotFound);
    let mut ids = vec![Symbol::new("x")];
    append_id(&mut ids, &id);
    assert_eq!(ids, vec![Symbol::new("x"), id]);
}

#[test]
fn seal_and_score_steps_match_the_calls() {
    let sealer = Address::new("GSEALER");
    let r = seal_step(3, &sealer, &sealer, false, &sealer, &Bytes32 { bytes: [1; 32] }, vec![], vec![Bytes16 { bytes: [2; 16] }], 7)
        .unwrap();
    assert_eq!(r.sealed_at, 3);
    assert_eq!(r.receipts, vec![Bytes16 { bytes: [2; 16] }]);
    let e = seal_step(3, &sealer, &sealer, true, &sealer, &Bytes32 { bytes: [1; 32] }, vec![], vec![], 7);
    assert_eq!(e.unwrap_err(), SealError::AlreadyExists);
    let s = score_submit_step(&sealer, &sealer, false, Some(Score { sum: 3, count: 1 }), 5).unwrap();
    assert_eq!(s, Score { sum: 8, count: 2 });
}
