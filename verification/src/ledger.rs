//! Movement of value between two balances.

use vstd::prelude::*;
use crate::error::ErrorCode;

verus! {

/// Why a transfer of `amount` from a balance of `from` to a balance of `to`
/// is refused, if it is: the payer is looked at first, then the receiver.
pub open spec fn transfer_error(from: nat, to: nat, amount: nat) -> Option<ErrorCode> {
    if from < amount {
        Some(ErrorCode::InsufficientFunds)
    } else if to + amount > u64::MAX {
        Some(ErrorCode::BalanceOverflow)
    } else {
        None
    }
}

/// Moves `amount` from one balance to another, or refuses and moves nothing.
///
/// The sum of the two balances is the same before and after, whatever the
/// outcome.
pub fn transfer(from: &mut u64, to: &mut u64, amount: u64) -> (result: Result<(), ErrorCode>)
    ensures
        match result {
            Ok(_) => {
                &&& transfer_error(*old(from) as nat, *old(to) as nat, amount as nat) is None
                &&& *final(from) == *old(from) - amount
                &&& *final(to) == *old(to) + amount
            },
            Err(e) => {
                &&& transfer_error(*old(from) as nat, *old(to) as nat, amount as nat) == Some(e)
                &&& *final(from) == *old(from)
                &&& *final(to) == *old(to)
            },
        },
{
    if *from < amount {
        return Err(ErrorCode::InsufficientFunds);
    }
    if amount > u64::MAX - *to {
        return Err(ErrorCode::BalanceOverflow);
    }
    *from = *from - amount;
    *to = *to + amount;
    Ok(())
}

} // verus!
