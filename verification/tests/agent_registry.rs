use orizon_contracts::ids::{Address, Symbol};
use orizon_contracts::registry::{AgentRegistry, Error};

fn address(n: u32) -> Address {
    Address::new(&format!("GACCOUNT{:048}", n))
}

fn setup() -> (AgentRegistry, Address) {
    let admin = address(1);
    (AgentRegistry::new(admin.clone()), admin)
}

#[test]
fn register_then_read() {
    let (mut client, _admin) = setup();
    let owner = address(2);

    client
        .register(
            0,
            &owner,
            &Symbol::new("copy_v3"),
            "copywrite.v3".to_string(),
            vec![Symbol::new("copy"), Symbol::new("en")],
            120_000, // 0.012 USDC (7 decimals)
        )
        .unwrap();

    let a = client.get(&Symbol::new("copy_v3")).unwrap();
    assert_eq!(a.owner, owner);
    assert_eq!(a.price, 120_000);
    assert!(a.active);

    let ids = client.list_ids();
    assert_eq!(ids.len(), 1);
}

#[test]
fn cannot_register_twice() {
    let (mut client, _admin) = setup();
    let owner = address(2);
    let id = Symbol::new("copy_v3");

    client
        .register(0, &owner, &id, "copywrite.v3".to_string(), vec![Symbol::new("copy")], 120_000)
        .unwrap();

    let err = client.register(0, &owner, &id, "copywrite.v3".to_string(), vec![Symbol::new("copy")], 120_000);
    assert_eq!(err.unwrap_err(), Error::AlreadyExists);
}

#[test]
fn update_price_and_deactivate() {
    let (mut client, _admin) = setup();
    let owner = address(2);
    let id = Symbol::new("seo_b");

    client
        .register(0, &owner, &id, "seo.brief".to_string(), vec![Symbol::new("seo")], 90_000)
        .unwrap();

    client.update_price(&id, 180_000).unwrap();
    assert_eq!(client.get(&id).unwrap().price, 180_000);

    client.set_active(&id, false).unwrap();
    assert!(!client.get(&id).unwrap().active);
}

#[test]
fn registry_keeps_registration_order_and_record() {
    let (mut client, admin) = setup();
    let owner = address(2);
    client
        .register(42, &owner, &Symbol::new("b_agent"), "b".to_string(), vec![], 5)
        .unwrap();
    client
        .register(43, &address(3), &Symbol::new("a_agent"), "a".to_string(), vec![Symbol::new("x")], 7)
        .unwrap();
    let ids = client.list_ids();
    assert_eq!(ids, vec![Symbol::new("b_agent"), Symbol::new("a_agent")]);
    let a = client.get(&Symbol::new("a_agent")).unwrap();
    assert_eq!(a.registered_at, 43);
    assert_eq!(a.skills, vec![Symbol::new("x")]);
    assert_eq!(a.name, "a");
    assert_eq!(a.id, Symbol::new("a_agent"));
    assert_eq!(client.owner_of(&Symbol::new("b_agent")).unwrap(), owner);
    assert_eq!(client.admin(), admin);
}

#[test]
fn unknown_agent_is_not_found() {
    let (mut client, _admin) = setup();
    let id = Symbol::new("ghost");
    assert_eq!(client.get(&id).unwrap_err(), Error::NotFound);
    assert_eq!(client.owner_of(&id).unwrap_err(), Error::NotFound);
    assert_eq!(client.update_price(&id, 1).unwrap_err(), Error::NotFound);
    assert_eq!(client.set_active(&id, true).unwrap_err(), Error::NotFound);
    assert!(client.list_ids().is_empty());
}

#[test]
fn registry_error_codes() {
    assert_eq!(Error::Unauthorized.code(), 1);
    assert_eq!(Error::NotFound.code(), 2);
    assert_eq!(Error::AlreadyExists.code(), 3);
    assert_eq!(Error::Inactive.code(), 8);
}
