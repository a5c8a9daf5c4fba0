use vstd::prelude::*;

use crate::error::OrderError;
use crate::keyed::{
    assoc_map, keys_unique, lemma_assoc_map_domain, lemma_assoc_map_index, lemma_assoc_map_push,
    lemma_assoc_map_update,
};
use crate::order::{confirmed, order_of_payload, Order, OrderPayload, OrderView};
use crate::payment::{spec_parse_amount, spec_validate_payment, validate_payment, STORAGE_FEE};
use crate::store::{order_entries, OrderStore};

verus! {

/// One account's slot in the ledger: who owns the store, and the store.
struct AccountEntry {
    account: String,
    store: OrderStore,
}

/// The keyed entries a run of account slots describes: each account's
/// orders under the account's identifier.
spec fn account_entries(s: Seq<AccountEntry>) -> Seq<(Seq<char>, Map<Seq<char>, OrderView>)> {
    s.map_values(|e: AccountEntry| (e.account@, e.store@))
}

/// Mathematical image of the whole ledger: the operator account the net
/// payouts are owed to, and every account's orders, each keyed by order id.
#[verifier::ext_equal]
pub struct LedgerView {
    pub operator: Seq<char>,
    pub accounts: Map<Seq<char>, Map<Seq<char>, OrderView>>,
}

/// The orders recorded under `account`: its store when it has one, and the
/// empty map when it has never ordered — absence is not an error on reads.
pub open spec fn store_or_empty(
    accounts: Map<Seq<char>, Map<Seq<char>, OrderView>>,
    account: Seq<char>,
) -> Map<Seq<char>, OrderView> {
    if accounts.contains_key(account) {
        accounts[account]
    } else {
        Map::empty()
    }
}

/// The ledger's accounts after a successful order creation: `caller`'s
/// store — created empty on first use — with order `o` put under its id,
/// every other account untouched.
pub open spec fn spec_create_commit(
    accounts: Map<Seq<char>, Map<Seq<char>, OrderView>>,
    caller: Seq<char>,
    o: OrderView,
) -> Map<Seq<char>, Map<Seq<char>, OrderView>> {
    accounts.insert(caller, store_or_empty(accounts, caller).insert(o.id, o))
}

/// What confirming order `id` as `caller` decides: the caller must already
/// have a store, the id must be in it, and then that one order's status is
/// raised — the lookup is always scoped to the caller's own store.
pub open spec fn spec_confirm(
    accounts: Map<Seq<char>, Map<Seq<char>, OrderView>>,
    caller: Seq<char>,
    id: Seq<char>,
) -> Result<Map<Seq<char>, Map<Seq<char>, OrderView>>, OrderError> {
    if !accounts.contains_key(caller) {
        Err(OrderError::NoSuchAccount)
    } else if !accounts[caller].contains_key(id) {
        Err(OrderError::NoSuchOrder)
    } else {
        Ok(
            accounts.insert(
                caller,
                accounts[caller].insert(id, confirmed(accounts[caller][id])),
            ),
        )
    }
}

/// The transfer a successful order creation obliges the host to perform:
/// the net payout, owed to the operator account.
pub struct Transfer {
    pub recipient: String,
    pub amount: u128,
}

/// The order ledger: every account's orders, plus the operator account
/// identifier set once at initialization and never reassigned.
pub struct PizzaPap {
    user_orders: Vec<AccountEntry>,
    pizza_pap_address: String,
}

impl View for PizzaPap {
    type V = LedgerView;

    closed spec fn view(&self) -> LedgerView {
        LedgerView {
            operator: self.pizza_pap_address@,
            accounts: assoc_map(account_entries(self.user_orders@)),
        }
    }
}

impl PizzaPap {
    /// Account identifiers are pairwise distinct, every store keeps its own
    /// ids distinct, and the operator identifier is nonempty.
    pub closed spec fn wf(&self) -> bool {
        &&& keys_unique(account_entries(self.user_orders@))
        &&& forall|i: int|
            0 <= i < self.user_orders@.len() ==> (#[trigger] self.user_orders@[i]).store.wf()
        &&& self.pizza_pap_address@.len() > 0
    }

    /// Set up an empty ledger with the operator payout address.
    pub fn init(pizza_pap_address: String) -> (r: Self)
        requires
            pizza_pap_address@.len() > 0,
        ensures
            r.wf(),
            r@.operator == pizza_pap_address@,
            r@.accounts == Map::<Seq<char>, Map<Seq<char>, OrderView>>::empty(),
    {
        let r = PizzaPap { user_orders: Vec::new(), pizza_pap_address };
        proof {
            assert(account_entries(r.user_orders@) =~= Seq::<
                (Seq<char>, Map<Seq<char>, OrderView>),
            >::empty());
        }
        r
    }

    /// The position of `account`'s slot, if it has one.
    fn find_account(&self, account: &String) -> (r: Option<usize>)
        ensures
            match r {
                Some(i) => i < self.user_orders@.len() && self.user_orders@[i as int].account@
                    == account@,
                None => forall|i: int|
                    0 <= i < self.user_orders@.len() ==> (#[trigger] self.user_orders@[i]).account@
                        != account@,
            },
    {
        let n = self.user_orders.len();
        let mut i: usize = 0;
        while i < n
            invariant
                n == self.user_orders@.len(),
                i <= n,
                forall|j: int| 0 <= j < i ==> (#[trigger] self.user_orders@[j]).account@ != account@,
            decreases n - i,
        {
            if self.user_orders[i].account == *account {
                return Some(i);
            }
            i = i + 1;
        }
        None
    }

    /// Place an order. Succeeds exactly when the attached amount equals the
    /// declared total and covers the storage fee; then the order is recorded
    /// under the caller, placed and unconfirmed, and the returned transfer —
    /// the attached amount less the fee, owed to the operator — must be
    /// performed by the host. On any error nothing is recorded and no
    /// transfer is owed.
    pub fn create_order(&mut self, payload: OrderPayload, attached: u128, caller: String) -> (r:
        Result<Transfer, OrderError>)
        requires
            old(self).wf(),
        ensures
            final(self).wf(),
            final(self)@.operator == old(self)@.operator,
            r is Ok <==> spec_parse_amount(payload@.total) == Some(attached) && attached
                >= STORAGE_FEE,
            match r {
                Ok(t) => ({
                    &&& t.amount == attached - STORAGE_FEE
                    &&& t.recipient@ == old(self)@.operator
                    &&& final(self)@.accounts == spec_create_commit(
                        old(self)@.accounts,
                        caller@,
                        order_of_payload(payload@),
                    )
                }),
                Err(e) => ({
                    &&& spec_validate_payment(attached, payload@.total) == Err::<u128, OrderError>(e)
                    &&& final(self)@ == old(self)@
                }),
            },
    {
        let net = match validate_payment(attached, payload.total.as_str()) {
            Ok(n) => n,
            Err(e) => {
                return Err(e);
            }
        };
        let order = Order::from_payload(payload);
        let recipient = self.pizza_pap_address.clone();
        let ghost entries0 = account_entries(old(self).user_orders@);
        let ghost caller_id = caller@;
        let ghost ov = order@;
        match self.find_account(&caller) {
            Some(i) => {
                proof {
                    lemma_assoc_map_index(entries0, i as int);
                }
                let mut entry = self.user_orders.remove(i);
                entry.store.put(order);
                self.user_orders.insert(i, entry);
                proof {
                    let ghost e1 = self.user_orders@[i as int];
                    assert(self.user_orders@ =~= old(self).user_orders@.update(i as int, e1));
                    assert(account_entries(self.user_orders@) =~= entries0.update(
                        i as int,
                        (caller_id, e1.store@),
                    ));
                    lemma_assoc_map_update(entries0, i as int, (caller_id, e1.store@));
                }
            }
            None => {
                proof {
                    lemma_assoc_map_domain(entries0, caller_id);
                }
                let mut store = OrderStore::new();
                store.put(order);
                self.user_orders.push(AccountEntry { account: caller, store });
                proof {
                    let ghost e1 = self.user_orders@[self.user_orders@.len() - 1];
                    assert(account_entries(self.user_orders@) =~= entries0.push(
                        (caller_id, e1.store@),
                    ));
                    lemma_assoc_map_push(entries0, (caller_id, e1.store@));
                }
            }
        }
        Ok(Transfer { recipient, amount: net })
    }

    /// Every order recorded under `user`, cloned out: the result describes
    /// exactly `user`'s store — same ids, same entities — and is empty for
    /// an account that has never ordered. A pure read, open to any caller.
    pub fn get_user_orders(&self, user: &String) -> (r: Vec<Order>)
        requires
            self.wf(),
        ensures
            keys_unique(order_entries(r@)),
            assoc_map(order_entries(r@)) == store_or_empty(self@.accounts, user@),
    {
        let ghost entries0 = account_entries(self.user_orders@);
        match self.find_account(user) {
            Some(i) => {
                proof {
                    lemma_assoc_map_index(entries0, i as int);
                }
                self.user_orders[i].store.values()
            }
            None => {
                proof {
                    lemma_assoc_map_domain(entries0, user@);
                }
                let r: Vec<Order> = Vec::new();
                proof {
                    assert(order_entries(r@) =~= Seq::<(Seq<char>, OrderView)>::empty());
                }
                r
            }
        }
    }

    /// Confirm one of the caller's own orders. The lookup is scoped to the
    /// caller's store: a caller with no store is refused outright, an id the
    /// caller never recorded is not found — even if another account holds
    /// it — and otherwise that one order's status is raised, idempotently.
    /// On any error the ledger is left as it was.
    pub fn confirm_order(&mut self, order_id: &String, caller: String) -> (r: Result<
        (),
        OrderError,
    >)
        requires
            old(self).wf(),
        ensures
            final(self).wf(),
            final(self)@.operator == old(self)@.operator,
            match r {
                Ok(_) => spec_confirm(old(self)@.accounts, caller@, order_id@) == Ok::<
                    Map<Seq<char>, Map<Seq<char>, OrderView>>,
                    OrderError,
                >(final(self)@.accounts),
                Err(e) => ({
                    &&& spec_confirm(old(self)@.accounts, caller@, order_id@) == Err::<
                        Map<Seq<char>, Map<Seq<char>, OrderView>>,
                        OrderError,
                    >(e)
                    &&& final(self)@ == old(self)@
                }),
            },
    {
        let ghost entries0 = account_entries(old(self).user_orders@);
        let ghost caller_id = caller@;
        match self.find_account(&caller) {
            Some(i) => {
                proof {
                    lemma_assoc_map_index(entries0, i as int);
                }
                let mut entry = self.user_orders.remove(i);
                let had = entry.store.confirm(order_id);
                self.user_orders.insert(i, entry);
                proof {
                    let ghost e1 = self.user_orders@[i as int];
                    assert(self.user_orders@ =~= old(self).user_orders@.update(i as int, e1));
                    assert(account_entries(self.user_orders@) =~= entries0.update(
                        i as int,
                        (caller_id, e1.store@),
                    ));
                    lemma_assoc_map_update(entries0, i as int, (caller_id, e1.store@));
                }
                if had {
                    Ok(())
                } else {
                    proof {
                        assert(self@.accounts =~= old(self)@.accounts);
                        assert(self@ =~= old(self)@);
                    }
                    Err(OrderError::NoSuchOrder)
                }
            }
            None => {
                proof {
                    lemma_assoc_map_domain(entries0, caller_id);
                }
                Err(OrderError::NoSuchAccount)
            }
        }
    }
}

} // verus!
