//! Solvency: a market that was opened empty can always pay its winners.
//!
//! The pools of a [`Book`] are the sums of the stakes of its bets, and the
//! winnings of all bets on the winning side together never exceed the
//! combined pool. So the custody, which is the combined pool less the
//! winnings paid, covers every winning bet that is not paid yet, and what
//! rounding leaves behind once all are paid is less than the winning pool.

use vstd::prelude::*;
use crate::bet::{place_bet_error, BetView};
use crate::book::{all_possible, Book, Request};
use crate::error::ErrorCode;
use crate::laws::lemma_payout_is_floor;
use crate::market::{resolve_market_error, BetOption, MarketView};
use crate::settlement::{claim_winnings_error, winnings};

verus! {

/// The sum of the stakes that `bets` put on `option`.
pub open spec fn staked(bets: Seq<BetView>, option: BetOption) -> nat
    decreases bets.len(),
{
    if bets.len() == 0 {
        0
    } else {
        staked(bets.drop_last(), option) + if bets.last().option == option {
            bets.last().amount
        } else {
            0
        }
    }
}

/// How many of `bets` are on `option`.
pub open spec fn backers(bets: Seq<BetView>, option: BetOption) -> nat
    decreases bets.len(),
{
    if bets.len() == 0 {
        0
    } else {
        backers(bets.drop_last(), option) + if bets.last().option == option {
            1nat
        } else {
            0
        }
    }
}

/// The sum of the winnings of those of `bets` that were paid.
pub open spec fn paid_out(market: MarketView, bets: Seq<BetView>) -> nat
    decreases bets.len(),
{
    if bets.len() == 0 {
        0
    } else {
        paid_out(market, bets.drop_last()) + if bets.last().claimed {
            winnings(market, bets.last())
        } else {
            0
        }
    }
}

/// The sum of the winnings of those of `bets` that back the outcome of
/// `market`, paid or not.
pub open spec fn due(market: MarketView, bets: Seq<BetView>) -> nat
    decreases bets.len(),
{
    if bets.len() == 0 {
        0
    } else {
        due(market, bets.drop_last()) + if market.winning_option == Some(bets.last().option) {
            winnings(market, bets.last())
        } else {
            0
        }
    }
}

impl Book {
    /// The book is in good order: the market record is, the custody holds at
    /// least the pools less the winnings paid, each pool is the sum of the
    /// stakes on its outcome, every bet is counted, names the market's key
    /// and has a stake, only bets on the winning side were paid, and the
    /// winnings paid are theirs.
    pub open spec fn inv(self) -> bool {
        &&& self.market.wf()
        &&& forall|i: int|
            0 <= i < self.bets.len() ==> (#[trigger] self.bets[i]).market == self.market_key
        &&& self.surplus() >= 0
        &&& staked(self.bets, BetOption::Yes) == self.market.yes_pool
        &&& staked(self.bets, BetOption::No) == self.market.no_pool
        &&& self.bets.len() == self.market.total_bets
        &&& forall|i: int| 0 <= i < self.bets.len() ==> (#[trigger] self.bets[i]).amount > 0
        &&& forall|i: int|
            0 <= i < self.bets.len() && (#[trigger] self.bets[i]).claimed
                ==> self.market.winning_option == Some(self.bets[i].option)
        &&& self.paid == paid_out(self.market, self.bets)
    }
}

proof fn lemma_staked_push(bets: Seq<BetView>, bet: BetView, option: BetOption)
    ensures
        staked(bets.push(bet), option) == staked(bets, option) + if bet.option == option {
            bet.amount
        } else {
            0
        },
        backers(bets.push(bet), option) == backers(bets, option) + if bet.option == option {
            1nat
        } else {
            0
        },
{
    assert(bets.push(bet).drop_last() =~= bets);
}

proof fn lemma_staked_same_stakes(bets: Seq<BetView>, others: Seq<BetView>, option: BetOption)
    requires
        bets.len() == others.len(),
        forall|i: int|
            0 <= i < bets.len() ==> (#[trigger] bets[i]).amount == others[i].amount && bets[i].option
                == others[i].option,
    ensures
        staked(bets, option) == staked(others, option),
        backers(bets, option) == backers(others, option),
    decreases bets.len(),
{
    if bets.len() > 0 {
        lemma_staked_same_stakes(bets.drop_last(), others.drop_last(), option);
    }
}

/// A pool is at least as large as each stake in it.
proof fn lemma_staked_covers(bets: Seq<BetView>, index: int)
    requires
        0 <= index < bets.len(),
    ensures
        bets[index].amount <= staked(bets, bets[index].option),
    decreases bets.len(),
{
    if index < bets.len() - 1 {
        lemma_staked_covers(bets.drop_last(), index);
    }
}

/// A pool of bets that all have a stake holds at least one unit per bet, and
/// has a bet if it holds anything.
proof fn lemma_backers_bound(bets: Seq<BetView>, option: BetOption)
    requires
        forall|i: int| 0 <= i < bets.len() ==> (#[trigger] bets[i]).amount > 0,
    ensures
        backers(bets, option) <= staked(bets, option),
        staked(bets, option) > 0 ==> backers(bets, option) > 0,
    decreases bets.len(),
{
    if bets.len() > 0 {
        lemma_backers_bound(bets.drop_last(), option);
    }
}

proof fn lemma_nothing_paid(market: MarketView, bets: Seq<BetView>)
    requires
        forall|i: int| 0 <= i < bets.len() ==> !(#[trigger] bets[i]).claimed,
    ensures
        paid_out(market, bets) == 0,
    decreases bets.len(),
{
    if bets.len() > 0 {
        lemma_nothing_paid(market, bets.drop_last());
    }
}

proof fn lemma_paid_out_after_claim(market: MarketView, bets: Seq<BetView>, index: int)
    requires
        0 <= index < bets.len(),
        !bets[index].claimed,
    ensures
        paid_out(market, bets.update(index, bets[index].after_claim())) == paid_out(market, bets)
            + winnings(market, bets[index]),
    decreases bets.len(),
{
    let after = bets.update(index, bets[index].after_claim());
    if index == bets.len() - 1 {
        assert(after.drop_last() =~= bets.drop_last());
    } else {
        assert(after.drop_last() =~= bets.drop_last().update(
            index,
            bets.drop_last()[index].after_claim(),
        ));
        lemma_paid_out_after_claim(market, bets.drop_last(), index);
    }
}

/// The winnings paid are part of the winnings due.
proof fn lemma_paid_within_due(market: MarketView, bets: Seq<BetView>)
    requires
        forall|i: int|
            0 <= i < bets.len() && (#[trigger] bets[i]).claimed ==> market.winning_option == Some(
                bets[i].option,
            ),
    ensures
        paid_out(market, bets) <= due(market, bets),
    decreases bets.len(),
{
    if bets.len() > 0 {
        lemma_paid_within_due(market, bets.drop_last());
    }
}

/// The winnings paid and those of one unpaid winner are part of the winnings due.
proof fn lemma_unpaid_within_due(market: MarketView, bets: Seq<BetView>, index: int)
    requires
        0 <= index < bets.len(),
        !bets[index].claimed,
        market.winning_option == Some(bets[index].option),
        forall|i: int|
            0 <= i < bets.len() && (#[trigger] bets[i]).claimed ==> market.winning_option == Some(
                bets[i].option,
            ),
    ensures
        paid_out(market, bets) + winnings(market, bets[index]) <= due(market, bets),
    decreases bets.len(),
{
    if index == bets.len() - 1 {
        lemma_paid_within_due(market, bets.drop_last());
    } else {
        lemma_unpaid_within_due(market, bets.drop_last(), index);
    }
}

/// Rounded down, the winnings due are no more than the winners' share of
/// the combined pool, and fall short of it by less than one unit of the
/// winning pool for each winner.
proof fn lemma_due_bounds(market: MarketView, bets: Seq<BetView>, option: BetOption)
    requires
        market.winning_option == Some(option),
        market.pool(option) > 0,
    ensures
        due(market, bets) * market.pool(option) <= staked(bets, option) * market.total_pool(),
        staked(bets, option) * market.total_pool() <= due(market, bets) * market.pool(option)
            + backers(bets, option) * (market.pool(option) - 1),
    decreases bets.len(),
{
    let pool = market.pool(option) as int;
    let total = market.total_pool() as int;
    let due_all = due(market, bets) as int;
    let staked_all = staked(bets, option) as int;
    let backers_all = backers(bets, option) as int;
    if bets.len() == 0 {
        assert(due_all == 0 && staked_all == 0 && backers_all == 0);
        assert(due_all * pool == 0 && staked_all * total == 0 && backers_all * (pool - 1) == 0)
            by (nonlinear_arith)
            requires
                due_all == 0 && staked_all == 0 && backers_all == 0,
        ;
    } else {
        let rest = bets.drop_last();
        let last = bets.last();
        lemma_due_bounds(market, rest, option);
        let due_rest = due(market, rest) as int;
        let staked_rest = staked(rest, option) as int;
        let backers_rest = backers(rest, option) as int;
        assert(due_rest * pool <= staked_rest * total);
        assert(staked_rest * total <= due_rest * pool + backers_rest * (pool - 1));
        if last.option == option {
            let share = winnings(market, last) as int;
            let stake = last.amount as int;
            assert(due_all == due_rest + share);
            assert(staked_all == staked_rest + stake);
            assert(backers_all == backers_rest + 1);
            lemma_payout_is_floor(last.amount, market.total_pool(), market.pool(option));
            assert(share * pool <= stake * total);
            assert(stake * total < (share + 1) * pool);
            assert((due_rest + share) * pool == due_rest * pool + share * pool)
                by (nonlinear_arith);
            assert((staked_rest + stake) * total == staked_rest * total + stake * total)
                by (nonlinear_arith);
            assert((backers_rest + 1) * (pool - 1) == backers_rest * (pool - 1) + (pool - 1))
                by (nonlinear_arith);
            assert((share + 1) * pool == share * pool + pool) by (nonlinear_arith);
        } else {
            assert(due_all == due_rest);
            assert(staked_all == staked_rest);
            assert(backers_all == backers_rest);
        }
    }
}

/// The book of a market that was just created is in good order.
pub proof fn lemma_opened_in_order(market: MarketView, market_key: Seq<u8>)
    requires
        market.wf(),
        market.yes_pool == 0,
        market.no_pool == 0,
        market.total_bets == 0,
    ensures
        Book::opened(market, market_key).inv(),
{
}

/// One call keeps a book in good order.
pub proof fn lemma_step_keeps_order(book: Book, request: Request)
    requires
        book.inv(),
        request.possible(book.market_key),
    ensures
        book.step(request).inv(),
        book.step(request).market_key == book.market_key,
{
    let next = book.step(request);
    match request {
        Request::PlaceBet { user, amount, option, now, user_balance } => {
            if place_bet_error(book.market, amount, now, user_balance, book.custody) is None {
                let bet = BetView::placed(book.market_key, user, amount, option, now);
                lemma_staked_push(book.bets, bet, BetOption::Yes);
                lemma_staked_push(book.bets, bet, BetOption::No);
                lemma_nothing_paid(book.market, book.bets);
                lemma_nothing_paid(next.market, next.bets);
            }
        },
        Request::Resolve { winning_option, resolver, now } => {
            if resolve_market_error(book.market, resolver, now) is None {
                lemma_nothing_paid(book.market, book.bets);
                lemma_nothing_paid(next.market, next.bets);
            }
        },
        Request::Claim { index, caller, user_balance } => {
            if 0 <= index < book.bets.len() && claim_winnings_error(
                book.market,
                book.market_key,
                book.bets[index],
                caller,
                book.custody,
                user_balance,
            ) is None {
                lemma_staked_same_stakes(book.bets, next.bets, BetOption::Yes);
                lemma_staked_same_stakes(book.bets, next.bets, BetOption::No);
                lemma_paid_out_after_claim(book.market, book.bets, index);
            }
        },
        Request::ClaimForeign { bet, caller, user_balance } => {},
    }
}

/// Every history keeps a book in good order.
pub proof fn lemma_run_keeps_order(book: Book, requests: Seq<Request>)
    requires
        book.inv(),
        all_possible(requests, book.market_key),
    ensures
        book.run(requests).inv(),
        book.run(requests).market_key == book.market_key,
    decreases requests.len(),
{
    if requests.len() > 0 {
        assert(requests.last().possible(book.market_key));
        assert(all_possible(requests.drop_last(), book.market_key)) by {
            assert forall|i: int| 0 <= i < requests.drop_last().len() implies (
            #[trigger] requests.drop_last()[i]).possible(book.market_key) by {
                assert(requests[i].possible(book.market_key));
            }
        }
        lemma_run_keeps_order(book, requests.drop_last());
        lemma_step_keeps_order(book.run(requests.drop_last()), requests.last());
    }
}

/// Solvency: in a book in good order the winning pool is not empty and the
/// custody covers the winnings of every bet of the market on the winning
/// side that is not paid yet. Such a claim by the bettor is rejected only
/// where the bettor's own balance has no room for the winnings.
pub proof fn lemma_custody_covers_winner(book: Book, index: int, user_balance: nat)
    requires
        book.inv(),
        0 <= index < book.bets.len(),
        !book.bets[index].claimed,
        book.market.winning_option == Some(book.bets[index].option),
    ensures
        book.market.pool(book.bets[index].option) >= book.bets[index].amount > 0,
        winnings(book.market, book.bets[index]) <= book.custody,
        winnings(book.market, book.bets[index]) <= book.market.total_pool(),
        user_balance + winnings(book.market, book.bets[index]) <= u64::MAX
            ==> claim_winnings_error(
            book.market,
            book.market_key,
            book.bets[index],
            book.bets[index].user,
            book.custody,
            user_balance,
        ) is None,
        user_balance + winnings(book.market, book.bets[index]) > u64::MAX
            ==> claim_winnings_error(
            book.market,
            book.market_key,
            book.bets[index],
            book.bets[index].user,
            book.custody,
            user_balance,
        ) == Some(ErrorCode::BalanceOverflow),
{
    let market = book.market;
    let bet = book.bets[index];
    let option = bet.option;
    lemma_staked_covers(book.bets, index);
    lemma_due_bounds(market, book.bets, option);
    lemma_unpaid_within_due(market, book.bets, index);
    let pool = market.pool(option) as int;
    let total = market.total_pool() as int;
    let owed = due(market, book.bets) as int;
    assert(owed <= total) by (nonlinear_arith)
        requires
            pool > 0,
            owed * pool <= pool * total,
    ;
}

/// From the creation of a market on, whatever was called in between: the
/// bettor of a bet on the winning side that is not paid yet can claim, and
/// is paid in full, as long as the bettor's own balance has room.
pub proof fn lemma_winner_can_claim(
    market: MarketView,
    market_key: Seq<u8>,
    requests: Seq<Request>,
    index: int,
    user_balance: nat,
)
    requires
        market.wf(),
        market.yes_pool == 0,
        market.no_pool == 0,
        market.total_bets == 0,
        all_possible(requests, market_key),
        ({
            let book = Book::opened(market, market_key).run(requests);
            &&& 0 <= index < book.bets.len()
            &&& !book.bets[index].claimed
            &&& book.market.winning_option == Some(book.bets[index].option)
            &&& user_balance + winnings(book.market, book.bets[index]) <= u64::MAX
        }),
    ensures
        ({
            let book = Book::opened(market, market_key).run(requests);
            claim_winnings_error(
                book.market,
                book.market_key,
                book.bets[index],
                book.bets[index].user,
                book.custody,
                user_balance,
            ) is None
        }),
{
    lemma_opened_in_order(market, market_key);
    lemma_run_keeps_order(Book::opened(market, market_key), requests);
    lemma_custody_covers_winner(
        Book::opened(market, market_key).run(requests),
        index,
        user_balance,
    );
}

/// Rounding: once a market in good order is resolved in favour of a pool
/// that is not empty, the winnings of all its winners together fall short
/// of the combined pool by less than the winning pool.
pub proof fn lemma_rounding_loss(book: Book, option: BetOption)
    requires
        book.inv(),
        book.market.winning_option == Some(option),
        book.market.pool(option) > 0,
    ensures
        due(book.market, book.bets) <= book.market.total_pool(),
        book.market.total_pool() - due(book.market, book.bets) <= book.market.pool(option) - 1,
{
    let market = book.market;
    lemma_due_bounds(market, book.bets, option);
    lemma_backers_bound(book.bets, option);
    let pool = market.pool(option) as int;
    let total = market.total_pool() as int;
    let owed = due(market, book.bets) as int;
    let count = backers(book.bets, option) as int;
    assert(owed <= total) by (nonlinear_arith)
        requires
            pool > 0,
            owed * pool <= pool * total,
    ;
    assert(total - owed <= pool - 1) by (nonlinear_arith)
        requires
            pool > 0,
            0 < count <= pool,
            pool * total <= owed * pool + count * (pool - 1),
    ;
}

} // verus!
