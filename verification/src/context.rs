//! What the host hands to an operation, and what an operation hands back.

use vstd::prelude::*;

verus! {

/// A snapshot of the host's view of one call.
#[derive(Debug)]
pub struct Context {
    /// Current time, in the unit of the orders' deadlines (nanoseconds).
    pub now: u64,
    /// Identity of whoever made the call.
    pub caller: String,
    /// Value attached to the call.
    pub attached_deposit: u128,
}

impl Context {
    /// Bundles the three values of a call.
    pub fn new(now: u64, caller: String, attached_deposit: u128) -> (ctx: Context)
        ensures
            ctx.now == now,
            ctx.caller == caller,
            ctx.attached_deposit == attached_deposit,
    {
        Context { now, caller, attached_deposit }
    }
}

/// A payout the host must perform for the call to take effect: `amount` of
/// the native asset to `recipient`.
#[derive(Debug)]
pub struct Transfer {
    /// Who is paid.
    pub recipient: String,
    /// How much is paid.
    pub amount: u128,
}

} // verus!
