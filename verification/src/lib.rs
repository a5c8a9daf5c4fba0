//! A minimal verified ledger for food orders.
//!
//! Accounts place orders with an attached payment that must match the
//! declared total exactly; a fixed storage fee is withheld and the remainder
//! is owed to a configured operator account. Each order moves through a
//! two-state lifecycle: placed, then confirmed. The ledger itself is a
//! two-level store: account identifier to that account's orders, keyed by
//! order id.
//!
//! The host that supplies caller identity, the attached amount, and the
//! actual movement of funds sits outside this crate: every operation here
//! takes those as plain values and reports the transfer it owes as a value.

mod error;
mod keyed;
mod laws;
mod ledger;
mod order;
mod payment;
mod store;

pub use error::OrderError;
pub use keyed::{assoc_map, keys_unique};
pub use laws::{
    lemma_confirm_idempotent, lemma_confirm_raises_status, lemma_confirm_scoped,
    lemma_create_isolated, lemma_create_places_unconfirmed,
};
pub use ledger::{
    spec_confirm, spec_create_commit, store_or_empty, LedgerView, PizzaPap, Transfer,
};
pub use order::{confirmed, order_of_payload, Order, OrderPayload, OrderView, PayloadView};
pub use payment::{
    all_decimal_digits, decimal_value, parse_amount, spec_parse_amount, spec_validate_payment,
    validate_payment, STORAGE_FEE,
};
pub use store::{order_entries, OrderStore};
