use pizza_pap::{Order, OrderPayload, OrderStore};

fn payload(id: &str, total: &str) -> OrderPayload {
    OrderPayload {
        id: id.to_string(),
        flavor: "margherita".to_string(),
        size: "medium".to_string(),
        crust: "stuffed".to_string(),
        toppings: "mushrooms".to_string(),
        name: "A. Customer".to_string(),
        location: "12 Oak Street".to_string(),
        phone_number: "0700000000".to_string(),
        total: total.to_string(),
    }
}

#[test]
fn from_payload_carries_every_field_and_starts_placed() {
    let o = Order::from_payload(payload("17", "42"));
    assert_eq!(o.id, "17");
    assert_eq!(o.flavor, "margherita");
    assert_eq!(o.size, "medium");
    assert_eq!(o.crust, "stuffed");
    assert_eq!(o.toppings, "mushrooms");
    assert_eq!(o.name, "A. Customer");
    assert_eq!(o.location, "12 Oak Street");
    assert_eq!(o.phone_number, "0700000000");
    assert_eq!(o.total, "42");
    assert!(!o.status);
}

#[test]
fn update_order_status_raises_the_flag() {
    let mut o = Order::from_payload(payload("17", "42"));
    o.update_order_status();
    assert!(o.status);
    o.update_order_status();
    assert!(o.status);
}

#[test]
fn store_get_finds_what_put_stored() {
    let mut store = OrderStore::new();
    store.put(Order::from_payload(payload("a", "10")));
    store.put(Order::from_payload(payload("b", "20")));
    let found = store.get(&"a".to_string()).expect("id a was stored");
    assert_eq!(found.total, "10");
    let found = store.get(&"b".to_string()).expect("id b was stored");
    assert_eq!(found.total, "20");
    assert!(store.get(&"c".to_string()).is_none());
}

#[test]
fn store_put_replaces_under_the_same_id() {
    let mut store = OrderStore::new();
    store.put(Order::from_payload(payload("a", "10")));
    store.put(Order::from_payload(payload("a", "30")));
    let values = store.values();
    assert_eq!(values.len(), 1);
    assert_eq!(values[0].total, "30");
}

#[test]
fn store_confirm_reports_presence() {
    let mut store = OrderStore::new();
    store.put(Order::from_payload(payload("a", "10")));
    assert!(!store.confirm(&"b".to_string()));
    assert!(store.confirm(&"a".to_string()));
    let found = store.get(&"a".to_string()).expect("id a was stored");
    assert!(found.status);
}

#[test]
fn store_values_lists_everything() {
    let mut store = OrderStore::new();
    assert!(store.values().is_empty());
    store.put(Order::from_payload(payload("a", "10")));
    store.put(Order::from_payload(payload("b", "20")));
    let mut ids: Vec<String> = store.values().iter().map(|o| o.id.clone()).collect();
    ids.sort();
    assert_eq!(ids, vec!["a".to_string(), "b".to_string()]);
}
