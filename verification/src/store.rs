use vstd::prelude::*;

use crate::keyed::{
    assoc_map, keys_unique, lemma_assoc_map_domain, lemma_assoc_map_index, lemma_assoc_map_push,
    lemma_assoc_map_update,
};
use crate::order::{confirmed, Order, OrderView};

verus! {

/// The keyed entries a run of orders describes: each order under its own id.
pub open spec fn order_entries(s: Seq<Order>) -> Seq<(Seq<char>, OrderView)> {
    s.map_values(|o: Order| (o@.id, o@))
}

/// One account's orders, keyed by order id. Created lazily on the account's
/// first order; nothing is ever deleted from it.
pub struct OrderStore {
    orders: Vec<Order>,
}

impl View for OrderStore {
    type V = Map<Seq<char>, OrderView>;

    closed spec fn view(&self) -> Map<Seq<char>, OrderView> {
        assoc_map(order_entries(self.orders@))
    }
}

impl OrderStore {
    /// Ids are pairwise distinct, so each id denotes exactly one order.
    pub closed spec fn wf(&self) -> bool {
        keys_unique(order_entries(self.orders@))
    }

    /// An empty store.
    pub fn new() -> (r: OrderStore)
        ensures
            r.wf(),
            r@ == Map::<Seq<char>, OrderView>::empty(),
    {
        let r = OrderStore { orders: Vec::new() };
        proof {
            assert(order_entries(r.orders@) =~= Seq::<(Seq<char>, OrderView)>::empty());
        }
        r
    }

    /// The position of the order carrying `id`, if any does.
    fn find(&self, id: &String) -> (r: Option<usize>)
        ensures
            match r {
                Some(i) => i < self.orders@.len() && self.orders@[i as int]@.id == id@,
                None => forall|i: int|
                    0 <= i < self.orders@.len() ==> (#[trigger] self.orders@[i])@.id != id@,
            },
    {
        let n = self.orders.len();
        let mut i: usize = 0;
        while i < n
            invariant
                n == self.orders@.len(),
                i <= n,
                forall|j: int| 0 <= j < i ==> (#[trigger] self.orders@[j])@.id != id@,
            decreases n - i,
        {
            if self.orders[i].id == *id {
                return Some(i);
            }
            i = i + 1;
        }
        None
    }

    /// Look an order up by id: the stored entity, or absent.
    pub fn get(&self, id: &String) -> (r: Option<&Order>)
        requires
            self.wf(),
        ensures
            match r {
                Some(o) => self@.contains_key(id@) && o@ == self@[id@],
                None => !self@.contains_key(id@),
            },
    {
        match self.find(id) {
            Some(i) => {
                proof {
                    lemma_assoc_map_index(order_entries(self.orders@), i as int);
                }
                Some(&self.orders[i])
            }
            None => {
                proof {
                    lemma_assoc_map_domain(order_entries(self.orders@), id@);
                }
                None
            }
        }
    }

    /// Insert-or-replace, keyed by the order's own id.
    pub fn put(&mut self, order: Order)
        requires
            old(self).wf(),
        ensures
            final(self).wf(),
            final(self)@ == old(self)@.insert(order@.id, order@),
    {
        let ghost entries0 = order_entries(old(self).orders@);
        match self.find(&order.id) {
            Some(i) => {
                let ghost oid = order@.id;
                let ghost ov = order@;
                let _replaced = self.orders.remove(i);
                self.orders.insert(i, order);
                proof {
                    assert(self.orders@ =~= old(self).orders@.update(i as int, self.orders@[i as int]));
                    assert(order_entries(self.orders@) =~= entries0.update(i as int, (oid, ov)));
                    lemma_assoc_map_update(entries0, i as int, (oid, ov));
                }
            }
            None => {
                let ghost oid = order@.id;
                let ghost ov = order@;
                self.orders.push(order);
                proof {
                    assert(order_entries(self.orders@) =~= entries0.push((oid, ov)));
                    lemma_assoc_map_push(entries0, (oid, ov));
                }
            }
        }
    }

    /// Raise the status flag of the order carrying `id`, if any does;
    /// reports whether one did. Everything else is left as it was.
    pub fn confirm(&mut self, id: &String) -> (r: bool)
        requires
            old(self).wf(),
        ensures
            final(self).wf(),
            r == old(self)@.contains_key(id@),
            r ==> final(self)@ == old(self)@.insert(id@, confirmed(old(self)@[id@])),
            !r ==> final(self)@ == old(self)@,
    {
        let ghost entries0 = order_entries(old(self).orders@);
        match self.find(id) {
            Some(i) => {
                proof {
                    lemma_assoc_map_index(entries0, i as int);
                }
                let mut order = self.orders.remove(i);
                order.update_order_status();
                let ghost ov = order@;
                self.orders.insert(i, order);
                proof {
                    assert(self.orders@ =~= old(self).orders@.update(i as int, self.orders@[i as int]));
                    assert(order_entries(self.orders@) =~= entries0.update(i as int, (id@, ov)));
                    lemma_assoc_map_update(entries0, i as int, (id@, ov));
                }
                true
            }
            None => {
                proof {
                    lemma_assoc_map_domain(entries0, id@);
                }
                false
            }
        }
    }

    /// Every stored order, cloned out, in the store's own walk order. The
    /// result describes exactly the store's map: same ids, same entities.
    pub fn values(&self) -> (r: Vec<Order>)
        requires
            self.wf(),
        ensures
            keys_unique(order_entries(r@)),
            assoc_map(order_entries(r@)) == self@,
    {
        let n = self.orders.len();
        let mut r: Vec<Order> = Vec::new();
        let mut i: usize = 0;
        while i < n
            invariant
                n == self.orders@.len(),
                i <= n,
                r@.len() == i,
                forall|j: int| 0 <= j < i ==> (#[trigger] r@[j])@ == self.orders@[j]@,
            decreases n - i,
        {
            r.push(self.orders[i].duplicate());
            i = i + 1;
        }
        proof {
            assert(order_entries(r@) =~= order_entries(self.orders@));
        }
        r
    }
}

} // verus!
