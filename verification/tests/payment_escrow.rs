use std::collections::HashMap;

use orizon_contracts::escrow::{id_from_digest, Error, PaymentEscrow, Transfer};
use orizon_contracts::ids::{Address, Bytes16, Bytes32, Symbol};
use orizon_contracts::registry::AgentRegistry;

fn address(n: u32) -> Address {
    Address::new(&format!("GACCOUNT{:048}", n))
}

/// A record id that differs for each nonce, standing for the one the host derives.
fn id_for(nonce: u64) -> Bytes16 {
    let mut bytes = [0xA5u8; 16];
    bytes[..8].copy_from_slice(&nonce.to_be_bytes());
    Bytes16 { bytes }
}

/// Token balances, moved by the transfers that charges instruct.
struct Token {
    balances: HashMap<String, i128>,
}

impl Token {
    fn mint(&mut self, to: &Address, amount: i128) {
        *self.balances.entry(to.strkey.clone()).or_insert(0) += amount;
    }

    fn apply(&mut self, t: &Transfer) {
        *self.balances.entry(t.from.strkey.clone()).or_insert(0) -= t.amount;
        *self.balances.entry(t.to.strkey.clone()).or_insert(0) += t.amount;
    }

    fn balance(&self, a: &Address) -> i128 {
        *self.balances.get(&a.strkey).unwrap_or(&0)
    }
}

struct Fixture {
    admin: Address,
    payer: Address,
    agent_owner: Address,
    agent_id: Symbol,
    usdc: Token,
    reg_id: Address,
    registry: AgentRegistry,
    escrow: PaymentEscrow,
}

fn setup() -> Fixture {
    let admin = address(1);
    let payer = address(2);
    let agent_owner = address(3);
    let usdc_id = address(4);

    // Fund payer with 10 USDC (7 decimals)
    let mut usdc = Token { balances: HashMap::new() };
    usdc.mint(&payer, 100_000_000);

    // Registry
    let reg_id = address(5);
    let mut registry = AgentRegistry::new(admin.clone());
    let agent_id = Symbol::new("copy_v3");
    registry
        .register(1_000, &agent_owner, &agent_id, "copywrite.v3".to_string(), vec![Symbol::new("copy")], 120_000)
        .unwrap();

    // Escrow
    let settler = admin.clone();
    let escrow = PaymentEscrow::new(admin.clone(), usdc_id, reg_id.clone(), settler);

    Fixture { admin, payer, agent_owner, agent_id, usdc, reg_id, registry, escrow }
}

#[test]
fn authorize_charge_receipt() {
    let now = 1_000;
    let mut f = setup();

    // payer pre-authorizes 0.5 USDC (5_000_000 stroops) for the copy agent
    let new_id = id_for(f.escrow.nonce());
    let auth_id = f.escrow.authorize(&f.payer, &f.agent_id, 5_000_000, 9_999, new_id).unwrap();

    // settler (admin in test) charges 0.012 USDC of it
    let new_id = id_for(f.escrow.nonce());
    let (receipt_id, transfer) = f
        .escrow
        .charge(now, &f.reg_id, &f.registry, &f.admin, &auth_id, 120_000, &Bytes16 { bytes: [7u8; 16] }, new_id)
        .unwrap();
    f.usdc.apply(&transfer);

    let r = f.escrow.receipt(&receipt_id).unwrap();
    assert_eq!(r.amount, 120_000);
    assert_eq!(r.agent_id, f.agent_id);

    let a = f.escrow.authorization(&auth_id).unwrap();
    assert_eq!(a.spent, 120_000);

    // USDC moved
    assert_eq!(f.usdc.balance(&f.agent_owner), 120_000);
    assert_eq!(f.usdc.balance(&f.payer), 100_000_000 - 120_000);
}

#[test]
fn cannot_overdraw_authorization() {
    let now = 1_000;
    let mut f = setup();
    let new_id = id_for(f.escrow.nonce());
    let auth_id = f.escrow.authorize(&f.payer, &f.agent_id, 100_000, 9_999, new_id).unwrap();
    let err = f.escrow.charge(
        now,
        &f.reg_id,
        &f.registry,
        &f.admin,
        &auth_id,
        200_000,
        &Bytes16 { bytes: [1u8; 16] },
        id_for(f.escrow.nonce()),
    );
    assert_eq!(err.unwrap_err(), Error::Insufficient);
}

#[test]
fn charge_refusals_in_order() {
    let mut f = setup();
    let auth_id = f.escrow.authorize(&f.payer, &f.agent_id, 100_000, 2_000, id_for(0)).unwrap();
    let job = Bytes16 { bytes: [1u8; 16] };
    let stranger = address(9);
    let e = f.escrow.charge(1_000, &f.reg_id, &f.registry, &stranger, &auth_id, 10, &job, id_for(1));
    assert_eq!(e.unwrap_err(), Error::Unauthorized);
    let e = f.escrow.charge(1_000, &f.reg_id, &f.registry, &f.admin, &auth_id, 0, &job, id_for(1));
    assert_eq!(e.unwrap_err(), Error::BadAmount);
    let e = f.escrow.charge(1_000, &f.reg_id, &f.registry, &f.admin, &id_for(99), 10, &job, id_for(1));
    assert_eq!(e.unwrap_err(), Error::NotFound);
    // expiry is inclusive: a charge at the expiry time passes, one after it fails
    f.escrow.charge(2_000, &f.reg_id, &f.registry, &f.admin, &auth_id, 10, &job, id_for(1)).unwrap();
    let e = f.escrow.charge(2_001, &f.reg_id, &f.registry, &f.admin, &auth_id, 10, &job, id_for(2));
    assert_eq!(e.unwrap_err(), Error::Expired);
    // the exact remainder can still be drawn, one more unit cannot
    f.escrow.charge(1_500, &f.reg_id, &f.registry, &f.admin, &auth_id, 99_990, &job, id_for(2)).unwrap();
    let e = f.escrow.charge(1_500, &f.reg_id, &f.registry, &f.admin, &auth_id, 1, &job, id_for(3));
    assert_eq!(e.unwrap_err(), Error::Insufficient);
    assert_eq!(f.escrow.authorization(&auth_id).unwrap().spent, 100_000);
    assert_eq!(f.escrow.nonce(), 3);
}

#[test]
fn revoke_is_payer_only_and_final() {
    let mut f = setup();
    let auth_id = f.escrow.authorize(&f.payer, &f.agent_id, 100_000, 9_999, id_for(0)).unwrap();
    let stranger = address(9);
    assert_eq!(f.escrow.revoke(&stranger, &auth_id).unwrap_err(), Error::Unauthorized);
    assert!(!f.escrow.authorization(&auth_id).unwrap().revoked);
    assert_eq!(f.escrow.revoke(&f.payer, &id_for(50)).unwrap_err(), Error::NotFound);
    f.escrow.revoke(&f.payer, &auth_id).unwrap();
    assert!(f.escrow.authorization(&auth_id).unwrap().revoked);
    let e = f.escrow.charge(1_000, &f.reg_id, &f.registry, &f.admin, &auth_id, 10, &Bytes16 { bytes: [1u8; 16] }, id_for(1));
    assert_eq!(e.unwrap_err(), Error::Revoked);
    assert_eq!(f.escrow.authorization(&auth_id).unwrap().spent, 0);
}

#[test]
fn authorize_rejects_non_positive_maximum() {
    let mut f = setup();
    let e = f.escrow.authorize(&f.payer, &f.agent_id, 0, 9_999, id_for(0));
    assert_eq!(e.unwrap_err(), Error::BadAmount);
    let e = f.escrow.authorize(&f.payer, &f.agent_id, -5, 9_999, id_for(0));
    assert_eq!(e.unwrap_err(), Error::BadAmount);
    assert_eq!(f.escrow.nonce(), 0);
    assert_eq!(f.escrow.authorization(&id_for(0)).unwrap_err(), Error::NotFound);
    let a_id = f.escrow.authorize(&f.payer, &f.agent_id, 1, 5, id_for(0)).unwrap();
    let a = f.escrow.authorization(&a_id).unwrap();
    assert_eq!(a.payer, f.payer);
    assert_eq!(a.max_amount, 1);
    assert_eq!(a.spent, 0);
    assert_eq!(a.expires_at, 5);
    assert!(!a.revoked);
    assert_eq!(f.escrow.settler(), f.admin);
    assert_eq!(f.escrow.registry(), f.reg_id);
}

#[test]
fn charge_receipt_records_job_and_time() {
    let mut f = setup();
    let auth_id = f.escrow.authorize(&f.payer, &f.agent_id, 500, 9_999, id_for(0)).unwrap();
    let job = Bytes16 { bytes: [3u8; 16] };
    let (rid, t) = f.escrow.charge(1_234, &f.reg_id, &f.registry, &f.admin, &auth_id, 200, &job, id_for(1)).unwrap();
    assert_eq!(rid, id_for(1));
    assert_eq!(t.from, f.payer);
    assert_eq!(t.to, f.agent_owner);
    assert_eq!(t.amount, 200);
    let r = f.escrow.receipt(&rid).unwrap();
    assert_eq!(r.auth_id, auth_id);
    assert_eq!(r.job_id, job);
    assert_eq!(r.settled_at, 1_234);
}

#[test]
fn record_id_is_first_half_of_digest() {
    let mut digest = [0u8; 32];
    for (i, b) in digest.iter_mut().enumerate() {
        *b = i as u8;
    }
    let id = id_from_digest(&Bytes32 { bytes: digest });
    let expected: [u8; 16] = [0, 1, 2, 3, 4, 5, 6, 7, 8, 9, 10, 11, 12, 13, 14, 15];
    assert_eq!(id.bytes, expected);
}

#[test]
fn escrow_error_codes() {
    assert_eq!(Error::Unauthorized.code(), 1);
    assert_eq!(Error::NotFound.code(), 2);
    assert_eq!(Error::Expired.code(), 4);
    assert_eq!(Error::Insufficient.code(), 5);
    assert_eq!(Error::Revoked.code(), 6);
    assert_eq!(Error::BadAmount.code(), 101);
}
