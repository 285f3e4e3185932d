//! Settlement: the share of the combined pool that a winning bet withdraws.

use vstd::prelude::*;
use crate::bet::{Bet, BetView};
use crate::error::ErrorCode;
use crate::identity::Identity;
use crate::ledger::{transfer, transfer_error};
use crate::market::{BetOption, Market, MarketView};

verus! {

/// The share of `total_pool` that a stake of `amount` in a winning pool of
/// `winning_pool` withdraws: the product is taken first, then divided, and
/// the quotient is rounded down.
pub open spec fn payout(amount: nat, total_pool: nat, winning_pool: nat) -> nat
    recommends
        winning_pool > 0,
{
    (amount * total_pool) / winning_pool
}

/// What `bet` withdraws from `market`, were it on the winning side.
pub open spec fn winnings(market: MarketView, bet: BetView) -> nat {
    payout(bet.amount, market.total_pool(), market.pool(bet.option))
}

/// Why `claim_winnings` rejects a call, if it does.
///
/// The market is looked at first, then whether the bet was paid before,
/// then the caller, then whether the bet was placed on this market, under
/// the key `market_key`, then the outcome that the bet backs, then the
/// combined and the winning pool, and last the two balances that the
/// winnings move between.
pub open spec fn claim_winnings_error(
    market: MarketView,
    market_key: Seq<u8>,
    bet: BetView,
    caller: Seq<u8>,
    custody: nat,
    user_balance: nat,
) -> Option<ErrorCode> {
    if !market.is_resolved {
        Some(ErrorCode::MarketNotResolved)
    } else if bet.claimed {
        Some(ErrorCode::AlreadyClaimed)
    } else if caller != bet.user {
        Some(ErrorCode::UnauthorizedClaim)
    } else if bet.market != market_key {
        Some(ErrorCode::WrongMarket)
    } else if market.winning_option != Some(bet.option) {
        Some(ErrorCode::LosingBet)
    } else if market.total_pool() > u64::MAX {
        Some(ErrorCode::AccumulatorOverflow)
    } else if market.pool(bet.option) == 0 {
        Some(ErrorCode::EmptyWinningPool)
    } else {
        transfer_error(custody, user_balance, winnings(market, bet))
    }
}

/// A product of two 64-bit numbers fits in 128 bits.
proof fn lemma_product_fits(a: u64, b: u64)
    ensures
        a * b <= u128::MAX,
{
    assert(a * b <= 0xffff_ffff_ffff_ffff * 0xffff_ffff_ffff_ffff) by (nonlinear_arith)
        requires
            0 <= a <= 0xffff_ffff_ffff_ffff,
            0 <= b <= 0xffff_ffff_ffff_ffff,
    ;
}

/// Computes the share of `total_pool` that a stake of `amount` withdraws
/// from a winning pool of `winning_pool`, in 128 bits so that the product
/// cannot overflow. An empty winning pool has no shares.
pub fn compute_payout(amount: u64, total_pool: u64, winning_pool: u64) -> (result: Result<
    u128,
    ErrorCode,
>)
    ensures
        winning_pool == 0 ==> result == Err::<u128, ErrorCode>(ErrorCode::EmptyWinningPool),
        winning_pool > 0 ==> result == Ok::<u128, ErrorCode>(
            payout(amount as nat, total_pool as nat, winning_pool as nat) as u128,
        ),
        winning_pool > 0 ==> payout(amount as nat, total_pool as nat, winning_pool as nat)
            <= u128::MAX,
{
    if winning_pool == 0 {
        return Err(ErrorCode::EmptyWinningPool);
    }
    proof {
        lemma_product_fits(amount, total_pool);
    }
    let product: u128 = (amount as u128) * (total_pool as u128);
    Ok(product / (winning_pool as u128))
}

/// Pays the winnings of `bet` out of `custody`, the balance that the market
/// under the key `market_key` holds, into `user_balance`.
///
/// The market must be resolved, the bet not paid before, the caller the
/// bettor, the bet one that was placed on this market, and on the winning
/// outcome. The winnings are the bet's share of the combined pool, rounded
/// down. A rejected call changes neither the bet nor a balance.
pub fn claim_winnings(
    market: &Market,
    market_key: &Identity,
    bet: &mut Bet,
    caller: &Identity,
    custody: &mut u64,
    user_balance: &mut u64,
) -> (result: Result<u64, ErrorCode>)
    ensures
        match result {
            Ok(paid) => {
                &&& claim_winnings_error(
                    market@,
                    market_key@,
                    old(bet)@,
                    caller@,
                    *old(custody) as nat,
                    *old(user_balance) as nat,
                ) is None
                &&& paid == winnings(market@, old(bet)@)
                &&& final(bet)@ == old(bet)@.after_claim()
                &&& final(bet).market == old(bet).market
                &&& final(bet).user == old(bet).user
                &&& *final(custody) == *old(custody) - paid
                &&& *final(user_balance) == *old(user_balance) + paid
            },
            Err(e) => {
                &&& claim_winnings_error(
                    market@,
                    market_key@,
                    old(bet)@,
                    caller@,
                    *old(custody) as nat,
                    *old(user_balance) as nat,
                ) == Some(e)
                &&& *final(bet) == *old(bet)
                &&& *final(custody) == *old(custody)
                &&& *final(user_balance) == *old(user_balance)
            },
        },
{
    if !market.is_resolved {
        return Err(ErrorCode::MarketNotResolved);
    }
    if bet.claimed {
        return Err(ErrorCode::AlreadyClaimed);
    }
    if *caller != bet.user {
        return Err(ErrorCode::UnauthorizedClaim);
    }
    if bet.market != *market_key {
        return Err(ErrorCode::WrongMarket);
    }
    let winning_pool = match (market.winning_option, bet.option) {
        (Some(BetOption::Yes), BetOption::Yes) => market.yes_pool,
        (Some(BetOption::No), BetOption::No) => market.no_pool,
        _ => {
            return Err(ErrorCode::LosingBet);
        },
    };
    let total_pool = match market.yes_pool.checked_add(market.no_pool) {
        Some(total_pool) => total_pool,
        None => {
            return Err(ErrorCode::AccumulatorOverflow);
        },
    };
    let share = match compute_payout(bet.amount, total_pool, winning_pool) {
        Err(e) => {
            return Err(e);
        },
        Ok(share) => share,
    };
    if share > u64::MAX as u128 {
        return Err(ErrorCode::InsufficientFunds);
    }
    let paid = share as u64;
    match transfer(custody, user_balance, paid) {
        Err(e) => {
            return Err(e);
        },
        Ok(_) => {},
    }
    bet.mark_claimed();
    Ok(paid)
}

} // verus!
