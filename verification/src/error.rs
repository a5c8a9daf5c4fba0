use vstd::prelude::*;

verus! {

/// Why an operation on the ledger was refused. Every error aborts the whole
/// operation: no storage write and no transfer happens on a failed call.
#[derive(Clone, Copy, Debug, PartialEq, Eq, Structural)]
pub enum OrderError {
    /// The attached payment does not equal the declared order total exactly,
    /// or the declared total is not a well-formed amount.
    InvalidAmount,
    /// The attached payment is below the fixed storage fee, so no payout
    /// could be carved out of it.
    InsufficientAmount,
    /// The caller has never placed an order, so it has no store to confirm in.
    NoSuchAccount,
    /// The caller's store holds no order under the given id.
    NoSuchOrder,
}

} // verus!
