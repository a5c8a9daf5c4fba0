use vstd::prelude::*;

verus! {

/// Mathematical image of an order: each descriptive field as a sequence of
/// characters, the declared total as written, and the confirmation flag.
#[verifier::ext_equal]
pub struct OrderView {
    pub id: Seq<char>,
    pub flavor: Seq<char>,
    pub size: Seq<char>,
    pub crust: Seq<char>,
    pub toppings: Seq<char>,
    pub name: Seq<char>,
    pub location: Seq<char>,
    pub phone_number: Seq<char>,
    pub total: Seq<char>,
    pub status: bool,
}

/// Mathematical image of an order payload: the same fields as an order,
/// minus the confirmation flag, which a payload never carries.
#[verifier::ext_equal]
pub struct PayloadView {
    pub id: Seq<char>,
    pub flavor: Seq<char>,
    pub size: Seq<char>,
    pub crust: Seq<char>,
    pub toppings: Seq<char>,
    pub name: Seq<char>,
    pub location: Seq<char>,
    pub phone_number: Seq<char>,
    pub total: Seq<char>,
}

/// The order entity a payload gives rise to: the payload's fields, with the
/// confirmation flag down.
pub open spec fn order_of_payload(p: PayloadView) -> OrderView {
    OrderView {
        id: p.id,
        flavor: p.flavor,
        size: p.size,
        crust: p.crust,
        toppings: p.toppings,
        name: p.name,
        location: p.location,
        phone_number: p.phone_number,
        total: p.total,
        status: false,
    }
}

/// The same order with the confirmation flag raised; every other field kept.
pub open spec fn confirmed(o: OrderView) -> OrderView {
    OrderView { status: true, ..o }
}

/// What a caller hands in to place an order. The descriptive fields are
/// free-form text the ledger never interprets; `total` is the declared
/// price, a decimal amount written out in the smallest currency unit.
pub struct OrderPayload {
    pub id: String,
    pub flavor: String,
    pub size: String,
    pub crust: String,
    pub toppings: String,
    pub name: String,
    pub location: String,
    pub phone_number: String,
    pub total: String,
}

impl View for OrderPayload {
    type V = PayloadView;

    open spec fn view(&self) -> PayloadView {
        PayloadView {
            id: self.id@,
            flavor: self.flavor@,
            size: self.size@,
            crust: self.crust@,
            toppings: self.toppings@,
            name: self.name@,
            location: self.location@,
            phone_number: self.phone_number@,
            total: self.total@,
        }
    }
}

/// A recorded order: the payload's facts plus a status flag that starts
/// `false` (placed) and is only ever raised to `true` (confirmed).
pub struct Order {
    pub id: String,
    pub flavor: String,
    pub size: String,
    pub crust: String,
    pub toppings: String,
    pub name: String,
    pub location: String,
    pub phone_number: String,
    pub total: String,
    pub status: bool,
}

impl View for Order {
    type V = OrderView;

    open spec fn view(&self) -> OrderView {
        OrderView {
            id: self.id@,
            flavor: self.flavor@,
            size: self.size@,
            crust: self.crust@,
            toppings: self.toppings@,
            name: self.name@,
            location: self.location@,
            phone_number: self.phone_number@,
            total: self.total@,
            status: self.status,
        }
    }
}

impl Order {
    /// Build the order a payload describes, in the placed state.
    pub fn from_payload(payload: OrderPayload) -> (r: Self)
        ensures
            r@ == order_of_payload(payload@),
    {
        Self {
            id: payload.id,
            flavor: payload.flavor,
            size: payload.size,
            crust: payload.crust,
            toppings: payload.toppings,
            name: payload.name,
            location: payload.location,
            phone_number: payload.phone_number,
            total: payload.total,
            status: false,
        }
    }

    /// Mark the order confirmed. Raising the flag a second time changes
    /// nothing: confirmation is idempotent.
    pub fn update_order_status(&mut self)
        ensures
            final(self)@ == confirmed(old(self)@),
    {
        self.status = true;
    }

    /// An order with the same facts and the same status.
    pub fn duplicate(&self) -> (r: Order)
        ensures
            r@ == self@,
    {
        Order {
            id: self.id.clone(),
            flavor: self.flavor.clone(),
            size: self.size.clone(),
            crust: self.crust.clone(),
            toppings: self.toppings.clone(),
            name: self.name.clone(),
            location: self.location.clone(),
            phone_number: self.phone_number.clone(),
            total: self.total.clone(),
            status: self.status,
        }
    }
}

} // verus!
