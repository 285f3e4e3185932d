//! What holds of the four operations, whatever their inputs.
//!
//! Each statement is about the functions that say when an operation is
//! rejected and what it changes, the same functions that the contracts of
//! the operations are written in.

use vstd::prelude::*;
use crate::bet::{place_bet_error, BetView};
use crate::error::ErrorCode;
use crate::market::{resolve_market_error, BetOption, MarketView};
use crate::settlement::{claim_winnings_error, payout, winnings};

verus! {

/// A bet never shrinks a pool, and it grows the combined pool by exactly the stake.
pub proof fn lemma_bet_grows_pools(market: MarketView, option: BetOption, amount: nat)
    ensures
        market.after_bet(option, amount).yes_pool >= market.yes_pool,
        market.after_bet(option, amount).no_pool >= market.no_pool,
        market.after_bet(option, amount).pool(option) == market.pool(option) + amount,
        market.after_bet(option, amount).total_pool() == market.total_pool() + amount,
        market.after_bet(option, amount).is_resolved == market.is_resolved,
{
}

/// No bet is accepted on a resolved market, so its pools stay as they are.
pub proof fn lemma_resolved_market_takes_no_bet(
    market: MarketView,
    amount: nat,
    now: int,
    user_balance: nat,
    custody: nat,
)
    requires
        market.is_resolved,
    ensures
        place_bet_error(market, amount, now, user_balance, custody) == Some(
            ErrorCode::MarketResolved,
        ),
{
}

/// Resolution leaves both pools and the count of bets as they are.
pub proof fn lemma_resolution_keeps_pools(market: MarketView, winning_option: BetOption, now: int)
    ensures
        market.after_resolution(winning_option, now).yes_pool == market.yes_pool,
        market.after_resolution(winning_option, now).no_pool == market.no_pool,
        market.after_resolution(winning_option, now).total_bets == market.total_bets,
{
}

/// A market is resolved once: after a successful resolution every further
/// one is rejected as already resolved, whoever asks, whenever, and for
/// whichever outcome, and the outcome of the first stands.
pub proof fn lemma_single_resolution(
    market: MarketView,
    first_option: BetOption,
    first_resolver: Seq<u8>,
    first_now: int,
    second_resolver: Seq<u8>,
    second_now: int,
)
    requires
        resolve_market_error(market, first_resolver, first_now) is None,
    ensures
        market.after_resolution(first_option, first_now).winning_option == Some(first_option),
        resolve_market_error(
            market.after_resolution(first_option, first_now),
            second_resolver,
            second_now,
        ) == Some(ErrorCode::AlreadyResolved),
{
}

/// The winnings of a bet are paid once: after a successful claim every
/// further claim of the same bet from the same market is rejected as
/// already claimed, whoever asks and whatever the balances are.
pub proof fn lemma_single_claim(
    market: MarketView,
    market_key: Seq<u8>,
    bet: BetView,
    first_caller: Seq<u8>,
    first_custody: nat,
    first_balance: nat,
    second_caller: Seq<u8>,
    second_custody: nat,
    second_balance: nat,
)
    requires
        claim_winnings_error(market, market_key, bet, first_caller, first_custody, first_balance)
            is None,
    ensures
        bet.after_claim().claimed,
        claim_winnings_error(
            market,
            market_key,
            bet.after_claim(),
            second_caller,
            second_custody,
            second_balance,
        ) == Some(ErrorCode::AlreadyClaimed),
{
}

/// A bet is paid only from the market that it was placed on: a claim from
/// a market under another key is always rejected, whatever the state of the
/// market and of the bet, whoever asks and whatever the balances are.
pub proof fn lemma_foreign_bet_rejected(
    market: MarketView,
    market_key: Seq<u8>,
    bet: BetView,
    caller: Seq<u8>,
    custody: nat,
    user_balance: nat,
)
    requires
        bet.market != market_key,
    ensures
        claim_winnings_error(market, market_key, bet, caller, custody, user_balance) is Some,
        market.is_resolved && !bet.claimed && caller == bet.user ==> claim_winnings_error(
            market,
            market_key,
            bet,
            caller,
            custody,
            user_balance,
        ) == Some(ErrorCode::WrongMarket),
{
}

/// A bet of zero is always rejected; on an open market, as an invalid amount.
pub proof fn lemma_zero_bet_rejected(market: MarketView, now: int, user_balance: nat, custody: nat)
    ensures
        place_bet_error(market, 0, now, user_balance, custody) is Some,
        market.is_open(now) ==> place_bet_error(market, 0, now, user_balance, custody) == Some(
            ErrorCode::InvalidAmount,
        ),
{
}

/// At its deadline a market that is not resolved takes no bet and can be
/// resolved by its creator: the deadline is the first moment at which it no
/// longer takes bets, and the first at which it may be resolved.
pub proof fn lemma_deadline_boundary(
    market: MarketView,
    amount: nat,
    user_balance: nat,
    custody: nat,
    now: int,
)
    requires
        !market.is_resolved,
    ensures
        place_bet_error(market, amount, market.end_time, user_balance, custody) == Some(
            ErrorCode::MarketEnded,
        ),
        resolve_market_error(market, market.creator, market.end_time) is None,
        now >= market.end_time ==> place_bet_error(market, amount, now, user_balance, custody)
            == Some(ErrorCode::MarketEnded),
        now >= market.end_time ==> resolve_market_error(market, market.creator, now) is None,
        now < market.end_time ==> resolve_market_error(market, market.creator, now) == Some(
            ErrorCode::MarketNotEnded,
        ),
        now < market.end_time ==> place_bet_error(market, amount, now, user_balance, custody)
            != Some(ErrorCode::MarketEnded),
{
}

/// Nobody but the creator resolves a market: such a call is always
/// rejected, and once the deadline of a market that is not resolved has
/// come, it is rejected as unauthorized.
pub proof fn lemma_unauthorized_resolver(market: MarketView, resolver: Seq<u8>, now: int)
    requires
        resolver != market.creator,
    ensures
        resolve_market_error(market, resolver, now) is Some,
        !market.is_resolved && now >= market.end_time ==> resolve_market_error(
            market,
            resolver,
            now,
        ) == Some(ErrorCode::UnauthorizedResolver),
{
}

/// The payout is the quotient of `amount * total_pool` by `winning_pool`,
/// rounded down: less than one share of the winning pool is lost.
pub proof fn lemma_payout_is_floor(amount: nat, total_pool: nat, winning_pool: nat)
    requires
        winning_pool > 0,
    ensures
        payout(amount, total_pool, winning_pool) * winning_pool <= amount * total_pool,
        amount * total_pool < (payout(amount, total_pool, winning_pool) + 1) * winning_pool,
{
    let product = (amount * total_pool) as int;
    let pool = winning_pool as int;
    assert(0 <= product - (product / pool) * pool < pool) by (nonlinear_arith)
        requires
            pool > 0,
            product >= 0,
    ;
    assert((product / pool + 1) * pool == (product / pool) * pool + pool) by (nonlinear_arith);
}

/// A winner gets back at least the stake, and a stake that is part of the
/// winning pool gets no more than the combined pool.
pub proof fn lemma_payout_range(amount: nat, total_pool: nat, winning_pool: nat)
    requires
        0 < winning_pool <= total_pool,
    ensures
        amount <= payout(amount, total_pool, winning_pool),
        amount <= winning_pool ==> payout(amount, total_pool, winning_pool) <= total_pool,
{
    lemma_payout_is_floor(amount, total_pool, winning_pool);
    let share = payout(amount, total_pool, winning_pool) as int;
    let a = amount as int;
    let t = total_pool as int;
    let w = winning_pool as int;
    assert(a <= share) by (nonlinear_arith)
        requires
            0 < w <= t,
            0 <= a,
            a * t < (share + 1) * w,
    ;
    if amount <= winning_pool {
        assert(share <= t) by (nonlinear_arith)
            requires
                0 < w,
                0 <= a <= w,
                0 <= t,
                share * w <= a * t,
        ;
    }
}

/// What a bet on the winning side withdraws from a market in good order:
/// at least the stake, and no more than the combined pool when the stake
/// is part of the winning pool.
pub proof fn lemma_winnings_range(market: MarketView, bet: BetView)
    requires
        market.pool(bet.option) > 0,
    ensures
        bet.amount <= winnings(market, bet),
        bet.amount <= market.pool(bet.option) ==> winnings(market, bet) <= market.total_pool(),
{
    lemma_payout_range(bet.amount, market.total_pool(), market.pool(bet.option));
}

} // verus!
