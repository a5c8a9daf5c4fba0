use pizza_pap::{OrderError, OrderPayload, PizzaPap, STORAGE_FEE};

fn payload(id: &str, flavor: &str, total: &str) -> OrderPayload {
    OrderPayload {
        id: id.to_string(),
        flavor: flavor.to_string(),
        size: "large".to_string(),
        crust: "thin".to_string(),
        toppings: "olives".to_string(),
        name: "A. Customer".to_string(),
        location: "12 Oak Street".to_string(),
        phone_number: "0700000000".to_string(),
        total: total.to_string(),
    }
}

#[test]
fn scenario_create_then_confirm() {
    let mut ledger = PizzaPap::init("operator.test".to_string());
    let t = ledger
        .create_order(
            payload("1", "margherita", "2000000000000000000000"),
            2_000_000_000_000_000_000_000,
            "alice.test".to_string(),
        )
        .expect("exact payment must be accepted");
    assert_eq!(t.amount, 1_000_000_000_000_000_000_000);
    assert_eq!(t.recipient, "operator.test");

    let orders = ledger.get_user_orders(&"alice.test".to_string());
    assert_eq!(orders.len(), 1);
    assert_eq!(orders[0].id, "1");
    assert_eq!(orders[0].flavor, "margherita");
    assert!(!orders[0].status);

    ledger
        .confirm_order(&"1".to_string(), "alice.test".to_string())
        .expect("the caller's own order must be confirmable");
    let orders = ledger.get_user_orders(&"alice.test".to_string());
    assert_eq!(orders.len(), 1);
    assert!(orders[0].status);
}

#[test]
fn create_rejects_mismatched_amount() {
    let mut ledger = PizzaPap::init("operator.test".to_string());
    let r = ledger.create_order(
        payload("1", "margherita", "2000000000000000000000"),
        2_000_000_000_000_000_000_001,
        "alice.test".to_string(),
    );
    assert_eq!(r.err(), Some(OrderError::InvalidAmount));
    assert!(ledger.get_user_orders(&"alice.test".to_string()).is_empty());
}

#[test]
fn create_rejects_unparseable_total() {
    let mut ledger = PizzaPap::init("operator.test".to_string());
    let r = ledger.create_order(
        payload("1", "margherita", "about two"),
        2_000_000_000_000_000_000_000,
        "alice.test".to_string(),
    );
    assert_eq!(r.err(), Some(OrderError::InvalidAmount));
    let r = ledger.create_order(
        payload("1", "margherita", ""),
        0,
        "alice.test".to_string(),
    );
    assert_eq!(r.err(), Some(OrderError::InvalidAmount));
    assert!(ledger.get_user_orders(&"alice.test".to_string()).is_empty());
}

#[test]
fn create_rejects_amount_below_fee() {
    let mut ledger = PizzaPap::init("operator.test".to_string());
    let r = ledger.create_order(payload("1", "margherita", "5"), 5, "alice.test".to_string());
    assert_eq!(r.err(), Some(OrderError::InsufficientAmount));
    assert!(ledger.get_user_orders(&"alice.test".to_string()).is_empty());
}

#[test]
fn create_accepts_exactly_the_fee() {
    let mut ledger = PizzaPap::init("operator.test".to_string());
    let t = ledger
        .create_order(
            payload("1", "margherita", "1000000000000000000000"),
            STORAGE_FEE,
            "alice.test".to_string(),
        )
        .expect("a payment equal to the fee must be accepted");
    assert_eq!(t.amount, 0);
}

#[test]
fn payout_is_attached_minus_fee() {
    let mut ledger = PizzaPap::init("operator.test".to_string());
    let t = ledger
        .create_order(
            payload("1", "margherita", "1000000000000000000123"),
            STORAGE_FEE + 123,
            "alice.test".to_string(),
        )
        .expect("exact payment must be accepted");
    assert_eq!(t.amount, 123);
    assert_eq!(t.recipient, "operator.test");
}

#[test]
fn failed_create_leaves_ledger_unchanged() {
    let mut ledger = PizzaPap::init("operator.test".to_string());
    let r = ledger.create_order(
        payload("1", "margherita", "2000000000000000000000"),
        7,
        "alice.test".to_string(),
    );
    assert!(r.is_err());
    // No store was created for the caller, so confirming still says so.
    let r = ledger.confirm_order(&"1".to_string(), "alice.test".to_string());
    assert_eq!(r.err(), Some(OrderError::NoSuchAccount));
}

#[test]
fn confirm_without_store_is_refused() {
    let mut ledger = PizzaPap::init("operator.test".to_string());
    let r = ledger.confirm_order(&"1".to_string(), "bob.test".to_string());
    assert_eq!(r.err(), Some(OrderError::NoSuchAccount));
}

#[test]
fn confirm_unknown_id_is_refused() {
    let mut ledger = PizzaPap::init("operator.test".to_string());
    ledger
        .create_order(
            payload("1", "margherita", "2000000000000000000000"),
            2_000_000_000_000_000_000_000,
            "alice.test".to_string(),
        )
        .expect("exact payment must be accepted");
    let r = ledger.confirm_order(&"2".to_string(), "alice.test".to_string());
    assert_eq!(r.err(), Some(OrderError::NoSuchOrder));
}

#[test]
fn confirm_twice_is_idempotent() {
    let mut ledger = PizzaPap::init("operator.test".to_string());
    ledger
        .create_order(
            payload("1", "margherita", "2000000000000000000000"),
            2_000_000_000_000_000_000_000,
            "alice.test".to_string(),
        )
        .expect("exact payment must be accepted");
    assert!(ledger.confirm_order(&"1".to_string(), "alice.test".to_string()).is_ok());
    let orders = ledger.get_user_orders(&"alice.test".to_string());
    assert!(orders[0].status);
    assert!(ledger.confirm_order(&"1".to_string(), "alice.test".to_string()).is_ok());
    let orders = ledger.get_user_orders(&"alice.test".to_string());
    assert_eq!(orders.len(), 1);
    assert!(orders[0].status);
}

#[test]
fn orders_are_isolated_between_accounts() {
    let mut ledger = PizzaPap::init("operator.test".to_string());
    ledger
        .create_order(
            payload("1", "margherita", "2000000000000000000000"),
            2_000_000_000_000_000_000_000,
            "alice.test".to_string(),
        )
        .expect("exact payment must be accepted");
    assert!(ledger.get_user_orders(&"bob.test".to_string()).is_empty());
    let orders = ledger.get_user_orders(&"alice.test".to_string());
    assert_eq!(orders.len(), 1);
}

#[test]
fn confirmation_is_scoped_to_the_caller() {
    let mut ledger = PizzaPap::init("operator.test".to_string());
    ledger
        .create_order(
            payload("1", "margherita", "2000000000000000000000"),
            2_000_000_000_000_000_000_000,
            "alice.test".to_string(),
        )
        .expect("exact payment must be accepted");
    ledger
        .create_order(
            payload("9", "hawaiian", "2000000000000000000000"),
            2_000_000_000_000_000_000_000,
            "bob.test".to_string(),
        )
        .expect("exact payment must be accepted");
    // Bob cannot reach Alice's order "1": the lookup stays in his own store.
    let r = ledger.confirm_order(&"1".to_string(), "bob.test".to_string());
    assert_eq!(r.err(), Some(OrderError::NoSuchOrder));
    let alice_orders = ledger.get_user_orders(&"alice.test".to_string());
    assert!(!alice_orders[0].status);
}

#[test]
fn create_overwrites_an_existing_id() {
    let mut ledger = PizzaPap::init("operator.test".to_string());
    ledger
        .create_order(
            payload("1", "margherita", "2000000000000000000000"),
            2_000_000_000_000_000_000_000,
            "alice.test".to_string(),
        )
        .expect("exact payment must be accepted");
    ledger
        .create_order(
            payload("1", "pepperoni", "2000000000000000000000"),
            2_000_000_000_000_000_000_000,
            "alice.test".to_string(),
        )
        .expect("exact payment must be accepted");
    let orders = ledger.get_user_orders(&"alice.test".to_string());
    assert_eq!(orders.len(), 1);
    assert_eq!(orders[0].flavor, "pepperoni");
    assert!(!orders[0].status);
}

#[test]
fn lists_every_order_of_the_account() {
    let mut ledger = PizzaPap::init("operator.test".to_string());
    ledger
        .create_order(
            payload("1", "margherita", "2000000000000000000000"),
            2_000_000_000_000_000_000_000,
            "alice.test".to_string(),
        )
        .expect("exact payment must be accepted");
    ledger
        .create_order(
            payload("2", "quattro formaggi", "3000000000000000000000"),
            3_000_000_000_000_000_000_000,
            "alice.test".to_string(),
        )
        .expect("exact payment must be accepted");
    let orders = ledger.get_user_orders(&"alice.test".to_string());
    assert_eq!(orders.len(), 2);
    let mut ids: Vec<&str> = orders.iter().map(|o| o.id.as_str()).collect();
    ids.sort();
    assert_eq!(ids, vec!["1", "2"]);
    assert!(orders.iter().all(|o| !o.status));
}
