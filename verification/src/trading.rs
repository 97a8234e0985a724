use vstd::prelude::*;
use crate::principal::Principal;

verus! {

/// A fee to be moved between two principals: `amount` of `token`, out of
/// the balance of `from` and into that of `to`.
#[derive(Clone, Debug, PartialEq, Eq)]
pub struct FeeTransfer {
    pub token: Principal,
    pub from: Principal,
    pub to: Principal,
    pub amount: i128,
}

/// The trading entry point, whose trades are paid for with a fee.
pub struct TradingContract;

impl TradingContract {
    /// The fee that a trade collects before anything else happens: the
    /// trader, who must have authorized the trade, pays `fee_amount` of
    /// `fee_token` to `fee_recipient`. A trade whose fee cannot be collected
    /// fails as the collection did.
    pub fn trade(
        trader: Principal,
        fee_token: Principal,
        fee_amount: i128,
        fee_recipient: Principal,
    ) -> (fee: FeeTransfer)
        ensures
            fee.token@ == fee_token@,
            fee.from@ == trader@,
            fee.to@ == fee_recipient@,
            fee.amount == fee_amount,
    {
        FeeTransfer { token: fee_token, from: trader, to: fee_recipient, amount: fee_amount }
    }
}

} // verus!
