use vstd::prelude::*;

use crate::error::OrderError;
use crate::ledger::{spec_confirm, spec_create_commit, store_or_empty};
use crate::order::{confirmed, order_of_payload, OrderView, PayloadView};

verus! {

/// A created order starts its lifecycle placed: right after a successful
/// creation the caller's store holds the payload's order with its status
/// flag down.
pub proof fn lemma_create_places_unconfirmed(
    m: Map<Seq<char>, Map<Seq<char>, OrderView>>,
    caller: Seq<char>,
    p: PayloadView,
)
    ensures
        store_or_empty(spec_create_commit(m, caller, order_of_payload(p)), caller).contains_key(
            p.id,
        ),
        store_or_empty(spec_create_commit(m, caller, order_of_payload(p)), caller)[p.id]
            == order_of_payload(p),
        order_of_payload(p).status == false,
{
}

/// A successful confirmation raises the status flag of exactly the order it
/// names, in the caller's own store.
pub proof fn lemma_confirm_raises_status(
    m: Map<Seq<char>, Map<Seq<char>, OrderView>>,
    caller: Seq<char>,
    id: Seq<char>,
)
    requires
        m.contains_key(caller),
        m[caller].contains_key(id),
    ensures
        spec_confirm(m, caller, id) is Ok,
        store_or_empty(spec_confirm(m, caller, id)->Ok_0, caller)[id].status == true,
        store_or_empty(spec_confirm(m, caller, id)->Ok_0, caller)[id] == confirmed(m[caller][id]),
{
}

/// Confirming is idempotent: a second confirmation of the same order by the
/// same caller succeeds and changes nothing — the status stays raised and
/// no error is reported.
pub proof fn lemma_confirm_idempotent(
    m: Map<Seq<char>, Map<Seq<char>, OrderView>>,
    caller: Seq<char>,
    id: Seq<char>,
)
    requires
        m.contains_key(caller),
        m[caller].contains_key(id),
    ensures
        spec_confirm(m, caller, id) is Ok,
        spec_confirm(spec_confirm(m, caller, id)->Ok_0, caller, id) == spec_confirm(m, caller, id),
{
    let s = m[caller];
    let o = confirmed(s[id]);
    let s1 = s.insert(id, o);
    let m1 = m.insert(caller, s1);
    assert(confirmed(o) =~= o);
    assert(s1.insert(id, confirmed(o)) =~= s1);
    assert(m1.insert(caller, s1.insert(id, confirmed(o))) =~= m1);
}

/// Isolation: creating an order under one account leaves every other
/// account's recorded orders exactly as they were.
pub proof fn lemma_create_isolated(
    m: Map<Seq<char>, Map<Seq<char>, OrderView>>,
    caller: Seq<char>,
    o: OrderView,
    other: Seq<char>,
)
    requires
        other != caller,
    ensures
        store_or_empty(spec_create_commit(m, caller, o), other) == store_or_empty(m, other),
{
}

/// Ownership scoping: confirmation only ever looks inside the caller's own
/// store, so an order that exists only under another account is not found —
/// the call is refused and, by `confirm_order`'s contract, the ledger is
/// left unchanged.
pub proof fn lemma_confirm_scoped(
    m: Map<Seq<char>, Map<Seq<char>, OrderView>>,
    owner: Seq<char>,
    caller: Seq<char>,
    id: Seq<char>,
)
    requires
        caller != owner,
        m.contains_key(owner),
        m[owner].contains_key(id),
        m.contains_key(caller),
        !m[caller].contains_key(id),
    ensures
        spec_confirm(m, caller, id) == Err::<
            Map<Seq<char>, Map<Seq<char>, OrderView>>,
            OrderError,
        >(OrderError::NoSuchOrder),
{
}

} // verus!
