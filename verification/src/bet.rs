//! The bet record: one user's stake on one outcome of one market.

use vstd::prelude::*;
use crate::error::ErrorCode;
use crate::identity::Identity;
use crate::ledger::{transfer, transfer_error};
use crate::market::{BetOption, Market, MarketView};

verus! {

/// A stake of `amount` that `user` has put on `option` in `market`.
#[derive(Clone, Copy, Debug, PartialEq, Eq)]
pub struct Bet {
    /// The address of the market that the bet belongs to.
    pub market: Identity,
    pub user: Identity,
    /// The stake: more than zero, fixed when the bet is placed.
    pub amount: u64,
    pub option: BetOption,
    /// When the bet was placed.
    pub timestamp: i64,
    /// Whether the winnings were paid. Once true, it stays true.
    pub claimed: bool,
}

/// A bet as a mathematical value.
pub struct BetView {
    pub market: Seq<u8>,
    pub user: Seq<u8>,
    pub amount: nat,
    pub option: BetOption,
    pub timestamp: int,
    pub claimed: bool,
}

impl View for Bet {
    type V = BetView;

    open spec fn view(&self) -> BetView {
        BetView {
            market: self.market@,
            user: self.user@,
            amount: self.amount as nat,
            option: self.option,
            timestamp: self.timestamp as int,
            claimed: self.claimed,
        }
    }
}

impl BetView {
    /// The bet that `place_bet` records: not yet claimed.
    pub open spec fn placed(
        market: Seq<u8>,
        user: Seq<u8>,
        amount: nat,
        option: BetOption,
        now: int,
    ) -> BetView {
        BetView { market, user, amount, option, timestamp: now, claimed: false }
    }

    /// The invariant of a bet record: the stake is not zero.
    pub open spec fn wf(self) -> bool {
        self.amount > 0
    }

    /// The same bet with its winnings paid.
    pub open spec fn after_claim(self) -> BetView {
        BetView { claimed: true, ..self }
    }
}

/// Why `place_bet` rejects a call, if it does.
///
/// The state of the market is looked at first, then the time, then the
/// stake, then the room left in the market's accumulators, and last the two
/// balances that the stake moves between.
pub open spec fn place_bet_error(
    market: MarketView,
    amount: nat,
    now: int,
    user_balance: nat,
    custody: nat,
) -> Option<ErrorCode> {
    if market.is_resolved {
        Some(ErrorCode::MarketResolved)
    } else if now >= market.end_time {
        Some(ErrorCode::MarketEnded)
    } else if amount == 0 {
        Some(ErrorCode::InvalidAmount)
    } else if market.total_pool() + amount > u64::MAX || market.total_bets >= u64::MAX {
        Some(ErrorCode::AccumulatorOverflow)
    } else {
        transfer_error(user_balance, custody, amount)
    }
}

impl Bet {
    /// The invariant of a bet record: see [`BetView::wf`].
    pub open spec fn wf(&self) -> bool {
        self@.wf()
    }

    /// Records that the winnings of this bet were paid.
    ///
    /// The caller has checked that they were not paid before.
    pub fn mark_claimed(&mut self)
        requires
            !old(self).claimed,
        ensures
            final(self)@ == old(self)@.after_claim(),
            final(self).market == old(self).market,
            final(self).user == old(self).user,
    {
        self.claimed = true;
    }
}

/// Stakes `amount` of `user`'s balance on `option`.
///
/// The market must be open at `now` and the stake more than zero. The stake
/// moves from `user_balance` into `custody`, the balance that the market
/// holds for its winners; then the bet is recorded and added to the pool of
/// its outcome. A rejected call changes neither the market nor a balance.
pub fn place_bet(
    market: &mut Market,
    market_key: Identity,
    user: Identity,
    amount: u64,
    option: BetOption,
    now: i64,
    user_balance: &mut u64,
    custody: &mut u64,
) -> (result: Result<Bet, ErrorCode>)
    ensures
        match result {
            Ok(bet) => {
                &&& place_bet_error(
                    old(market)@,
                    amount as nat,
                    now as int,
                    *old(user_balance) as nat,
                    *old(custody) as nat,
                ) is None
                &&& bet@ == BetView::placed(market_key@, user@, amount as nat, option, now as int)
                &&& bet.market == market_key
                &&& bet.user == user
                &&& bet.wf()
                &&& final(market)@ == old(market)@.after_bet(option, amount as nat)
                &&& final(market).creator == old(market).creator
                &&& final(market).question == old(market).question
                &&& final(market).description == old(market).description
                &&& *final(user_balance) == *old(user_balance) - amount
                &&& *final(custody) == *old(custody) + amount
            },
            Err(e) => {
                &&& place_bet_error(
                    old(market)@,
                    amount as nat,
                    now as int,
                    *old(user_balance) as nat,
                    *old(custody) as nat,
                ) == Some(e)
                &&& *final(market) == *old(market)
                &&& *final(user_balance) == *old(user_balance)
                &&& *final(custody) == *old(custody)
            },
        },
        old(market).wf() ==> final(market).wf(),
{
    if market.is_resolved {
        return Err(ErrorCode::MarketResolved);
    }
    if now >= market.end_time {
        return Err(ErrorCode::MarketEnded);
    }
    if amount == 0 {
        return Err(ErrorCode::InvalidAmount);
    }
    let staked: u128 = market.yes_pool as u128 + market.no_pool as u128 + amount as u128;
    if staked > u64::MAX as u128 || market.total_bets == u64::MAX {
        return Err(ErrorCode::AccumulatorOverflow);
    }
    match transfer(user_balance, custody, amount) {
        Err(e) => {
            return Err(e);
        },
        Ok(_) => {},
    }
    let bet = Bet { market: market_key, user, amount, option, timestamp: now, claimed: false };
    market.accumulate_bet(option, amount);
    Ok(bet)
}

} // verus!
