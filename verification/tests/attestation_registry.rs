use orizon_contracts::attestation::{AttestationRegistry, Error};
use orizon_contracts::ids::{Address, Bytes16, Bytes32, Symbol};

fn address(n: u32) -> Address {
    Address::new(&format!("GACCOUNT{:048}", n))
}

fn setup() -> (AttestationRegistry, Address, Address) {
    let admin = address(1);
    let sealer = address(2);
    (AttestationRegistry::new(admin.clone(), sealer.clone()), admin, sealer)
}

#[test]
fn seal_and_read() {
    let (mut client, _admin, sealer) = setup();

    let job = Bytes16 { bytes: [1u8; 16] };
    let intent_hash = Bytes32 { bytes: [2u8; 32] };
    let orch = address(3);
    let agents = vec![Symbol::new("seo_b"), Symbol::new("copy_v3")];
    let receipts = vec![Bytes16 { bytes: [3u8; 16] }, Bytes16 { bytes: [4u8; 16] }];

    client.seal(0, &sealer, &job, &orch, &intent_hash, agents, receipts, 180_000).unwrap();

    assert!(client.job_exists(&job));
    let a = client.get(&job).unwrap();
    assert_eq!(a.total_spent, 180_000);
    assert_eq!(a.agents.len(), 2);
}

#[test]
fn write_once() {
    let (mut client, _admin, sealer) = setup();

    let job = Bytes16 { bytes: [1u8; 16] };
    let intent_hash = Bytes32 { bytes: [2u8; 32] };
    let orch = address(3);
    let agents = vec![Symbol::new("seo_b")];
    let receipts = vec![Bytes16 { bytes: [3u8; 16] }];

    client
        .seal(0, &sealer, &job, &orch, &intent_hash, agents.clone(), receipts.clone(), 10)
        .unwrap();
    let err = client.seal(0, &sealer, &job, &orch, &intent_hash, agents, receipts, 10);
    assert_eq!(err.unwrap_err(), Error::AlreadyExists);
}

#[test]
fn sealed_record_survives_a_second_seal_attempt() {
    let (mut client, _admin, sealer) = setup();
    let job = Bytes16 { bytes: [9u8; 16] };
    let orch = address(3);
    client
        .seal(77, &sealer, &job, &orch, &Bytes32 { bytes: [5u8; 32] }, vec![Symbol::new("a")], vec![], 5)
        .unwrap();
    let err = client.seal(78, &sealer, &job, &address(4), &Bytes32 { bytes: [6u8; 32] }, vec![], vec![], 6);
    assert_eq!(err.unwrap_err(), Error::AlreadyExists);
    let a = client.get(&job).unwrap();
    assert_eq!(a.orchestrator, orch);
    assert_eq!(a.intent_hash, Bytes32 { bytes: [5u8; 32] });
    assert_eq!(a.total_spent, 5);
    assert_eq!(a.sealed_at, 77);
    assert_eq!(a.agents, vec![Symbol::new("a")]);
}

#[test]
fn only_sealer_seals_and_sealer_can_be_swapped() {
    let (mut client, _admin, sealer) = setup();
    let job = Bytes16 { bytes: [1u8; 16] };
    let stranger = address(9);
    let err = client.seal(0, &stranger, &job, &stranger, &Bytes32 { bytes: [0u8; 32] }, vec![], vec![], 1);
    assert_eq!(err.unwrap_err(), Error::Unauthorized);
    assert!(!client.job_exists(&job));
    assert_eq!(client.get(&job).unwrap_err(), Error::NotFound);

    client.set_sealer(stranger.clone()).unwrap();
    assert_eq!(client.sealer(), stranger);
    let err = client.seal(0, &sealer, &job, &sealer, &Bytes32 { bytes: [0u8; 32] }, vec![], vec![], 1);
    assert_eq!(err.unwrap_err(), Error::Unauthorized);
    client
        .seal(0, &stranger, &job, &stranger, &Bytes32 { bytes: [0u8; 32] }, vec![], vec![], 1)
        .unwrap();
    assert!(client.job_exists(&job));
}

#[test]
fn attestation_error_codes() {
    assert_eq!(Error::Unauthorized.code(), 1);
    assert_eq!(Error::NotFound.code(), 2);
    assert_eq!(Error::AlreadyExists.code(), 3);
}
