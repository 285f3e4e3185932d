//! The accounts of one market over its whole life.
//!
//! A [`Book`] holds what the operations on one market read and change: the
//! market record and its key, the bets placed on it, the balance held for
//! its winners and the winnings paid so far. A [`Request`] is one call of an
//! operation, [`Book::step`] is what the call does, by the same functions
//! that the operations' contracts are written in, and [`Book::run`] is a
//! history of calls. The theorems of this module hold after every history.
//!
//! A claim is made either with one of the market's own bets or with the
//! record of a bet that was placed elsewhere: both go through
//! `claim_winnings_error`, so the theorems cover every record that a claim
//! can be handed.

use vstd::prelude::*;
use crate::bet::{place_bet_error, BetView};
use crate::error::ErrorCode;
use crate::market::{resolve_market_error, BetOption, MarketView};
use crate::settlement::{claim_winnings_error, winnings};

verus! {

/// The state that the operations on one market work on.
pub struct Book {
    pub market: MarketView,
    /// The key under which the market record is kept, and which its bets name.
    pub market_key: Seq<u8>,
    /// The bets placed on the market, in the order in which they were placed.
    pub bets: Seq<BetView>,
    /// The balance that the market holds for its winners.
    pub custody: nat,
    /// The sum of the winnings paid so far.
    pub paid: nat,
}

/// One call of an operation on a market, with everything that the caller
/// brings: who calls, when, and the balance of the user's own account.
pub enum Request {
    /// A bet on this market, recorded under the market's key.
    PlaceBet { user: Seq<u8>, amount: nat, option: BetOption, now: int, user_balance: nat },
    Resolve { winning_option: BetOption, resolver: Seq<u8>, now: int },
    /// A claim of the winnings of the market's own bet at `index`.
    Claim { index: int, caller: Seq<u8>, user_balance: nat },
    /// A claim from this market with the record of a bet that is not one of
    /// its own.
    ClaimForeign { bet: BetView, caller: Seq<u8>, user_balance: nat },
}

impl Request {
    /// The records of a market's own bets are the bets of its book, so a
    /// record that is not among them was placed on another market and
    /// names another key.
    pub open spec fn possible(self, market_key: Seq<u8>) -> bool {
        self matches Request::ClaimForeign { bet, .. } ==> bet.market != market_key
    }
}

/// Every call of a history is possible with the market under `market_key`.
pub open spec fn all_possible(requests: Seq<Request>, market_key: Seq<u8>) -> bool {
    forall|i: int| 0 <= i < requests.len() ==> (#[trigger] requests[i]).possible(market_key)
}

impl Book {
    /// The book of a market on which nothing has happened yet.
    pub open spec fn opened(market: MarketView, market_key: Seq<u8>) -> Book {
        Book { market, market_key, bets: Seq::empty(), custody: 0, paid: 0 }
    }

    /// The book after one call. A rejected call leaves it as it was.
    pub open spec fn step(self, request: Request) -> Book {
        match request {
            Request::PlaceBet { user, amount, option, now, user_balance } => {
                if place_bet_error(self.market, amount, now, user_balance, self.custody) is None {
                    Book {
                        market: self.market.after_bet(option, amount),
                        bets: self.bets.push(
                            BetView::placed(self.market_key, user, amount, option, now),
                        ),
                        custody: self.custody + amount,
                        ..self
                    }
                } else {
                    self
                }
            },
            Request::Resolve { winning_option, resolver, now } => {
                if resolve_market_error(self.market, resolver, now) is None {
                    Book { market: self.market.after_resolution(winning_option, now), ..self }
                } else {
                    self
                }
            },
            Request::Claim { index, caller, user_balance } => {
                if 0 <= index < self.bets.len() && claim_winnings_error(
                    self.market,
                    self.market_key,
                    self.bets[index],
                    caller,
                    self.custody,
                    user_balance,
                ) is None {
                    Book {
                        bets: self.bets.update(index, self.bets[index].after_claim()),
                        custody: (self.custody - winnings(self.market, self.bets[index])) as nat,
                        paid: self.paid + winnings(self.market, self.bets[index]),
                        ..self
                    }
                } else {
                    self
                }
            },
            Request::ClaimForeign { bet, caller, user_balance } => {
                if claim_winnings_error(
                    self.market,
                    self.market_key,
                    bet,
                    caller,
                    self.custody,
                    user_balance,
                ) is None {
                    Book {
                        custody: (self.custody - winnings(self.market, bet)) as nat,
                        paid: self.paid + winnings(self.market, bet),
                        ..self
                    }
                } else {
                    self
                }
            },
        }
    }

    /// The book after a history of calls, the earliest first.
    pub open spec fn run(self, requests: Seq<Request>) -> Book
        decreases requests.len(),
    {
        if requests.len() == 0 {
            self
        } else {
            self.run(requests.drop_last()).step(requests.last())
        }
    }

    /// What the custody holds beyond the pools less the winnings paid.
    pub open spec fn surplus(self) -> int {
        self.custody + self.paid - self.market.total_pool()
    }
}

/// One call changes the custody by exactly what it changes the pools and
/// the winnings paid by.
pub proof fn lemma_step_keeps_surplus(book: Book, request: Request)
    ensures
        book.step(request).surplus() == book.surplus(),
{
}

/// Conservation: after every history the custody holds what it held beyond
/// the pools at the start, plus the pools, less the winnings paid.
pub proof fn lemma_run_keeps_surplus(book: Book, requests: Seq<Request>)
    ensures
        book.run(requests).surplus() == book.surplus(),
    decreases requests.len(),
{
    if requests.len() > 0 {
        lemma_run_keeps_surplus(book, requests.drop_last());
        lemma_step_keeps_surplus(book.run(requests.drop_last()), requests.last());
    }
}

/// Conservation, from the creation of a market on: at any time the custody
/// is the two pools together less the winnings paid so far.
pub proof fn lemma_conservation(
    market: MarketView,
    market_key: Seq<u8>,
    requests: Seq<Request>,
)
    requires
        market.total_pool() == 0,
    ensures
        ({
            let book = Book::opened(market, market_key).run(requests);
            book.custody == book.market.yes_pool + book.market.no_pool - book.paid
        }),
{
    lemma_run_keeps_surplus(Book::opened(market, market_key), requests);
}

/// One call never shrinks a pool, and changes nothing of a resolved market.
pub proof fn lemma_step_pools(book: Book, request: Request)
    ensures
        book.step(request).market.yes_pool >= book.market.yes_pool,
        book.step(request).market.no_pool >= book.market.no_pool,
        book.market.is_resolved ==> book.step(request).market == book.market,
{
}

/// One call changes neither the key of the market, nor who created it,
/// nor what it asks, nor when it was created, nor its deadline.
pub proof fn lemma_step_terms(book: Book, request: Request)
    ensures
        book.step(request).market_key == book.market_key,
        book.step(request).market.creator == book.market.creator,
        book.step(request).market.question == book.market.question,
        book.step(request).market.description == book.market.description,
        book.step(request).market.end_time == book.market.end_time,
        book.step(request).market.created_at == book.market.created_at,
{
}

/// The terms of a market are fixed: over every history its key, its
/// creator, and with it the right to resolve, its texts, its creation and
/// its deadline stay as they are.
pub proof fn lemma_run_terms(book: Book, requests: Seq<Request>)
    ensures
        book.run(requests).market_key == book.market_key,
        book.run(requests).market.creator == book.market.creator,
        book.run(requests).market.question == book.market.question,
        book.run(requests).market.description == book.market.description,
        book.run(requests).market.end_time == book.market.end_time,
        book.run(requests).market.created_at == book.market.created_at,
    decreases requests.len(),
{
    if requests.len() > 0 {
        lemma_run_terms(book, requests.drop_last());
        lemma_step_terms(book.run(requests.drop_last()), requests.last());
    }
}

/// Pool monotonicity: over every history the pools only grow, and from the
/// resolution on the market record, its pools and its outcome with it,
/// stays as it is.
pub proof fn lemma_run_pools(book: Book, requests: Seq<Request>)
    ensures
        book.run(requests).market.yes_pool >= book.market.yes_pool,
        book.run(requests).market.no_pool >= book.market.no_pool,
        book.market.is_resolved ==> book.run(requests).market == book.market,
    decreases requests.len(),
{
    if requests.len() > 0 {
        lemma_run_pools(book, requests.drop_last());
        lemma_step_pools(book.run(requests.drop_last()), requests.last());
    }
}

/// Single resolution over a history: once a resolution has succeeded, the
/// outcome it declared stands whatever is called afterwards, and every
/// later resolution is rejected as already resolved.
pub proof fn lemma_outcome_stands(
    book: Book,
    winning_option: BetOption,
    resolver: Seq<u8>,
    now: int,
    later: Seq<Request>,
    second_option: BetOption,
    second_resolver: Seq<u8>,
    second_now: int,
)
    requires
        resolve_market_error(book.market, resolver, now) is None,
    ensures
        ({
            let after = book.step(Request::Resolve { winning_option, resolver, now }).run(later);
            let second = Request::Resolve {
                winning_option: second_option,
                resolver: second_resolver,
                now: second_now,
            };
            &&& after.market.is_resolved
            &&& after.market.winning_option == Some(winning_option)
            &&& after.market.resolved_at == Some(now)
            &&& resolve_market_error(after.market, second_resolver, second_now) == Some(
                ErrorCode::AlreadyResolved,
            )
            &&& after.step(second) == after
        }),
{
    let resolved = book.step(Request::Resolve { winning_option, resolver, now });
    lemma_run_pools(resolved, later);
}

/// One call never takes a bet away, never changes the stake, the side or
/// the owner of a bet, and never makes a paid bet unpaid.
pub proof fn lemma_step_bets(book: Book, request: Request, index: int)
    requires
        0 <= index < book.bets.len(),
    ensures
        index < book.step(request).bets.len(),
        book.step(request).bets[index].amount == book.bets[index].amount,
        book.step(request).bets[index].option == book.bets[index].option,
        book.step(request).bets[index].user == book.bets[index].user,
        book.step(request).bets[index].market == book.bets[index].market,
        book.step(request).bets[index].timestamp == book.bets[index].timestamp,
        book.bets[index].claimed ==> book.step(request).bets[index].claimed,
        book.bets[index].claimed ==> book.step(request).bets[index] == book.bets[index],
{
}

/// Over every history a bet keeps its place, its stake, its side and its
/// owner, and a paid bet stays paid.
pub proof fn lemma_run_bets(book: Book, requests: Seq<Request>, index: int)
    requires
        0 <= index < book.bets.len(),
    ensures
        index < book.run(requests).bets.len(),
        book.run(requests).bets[index].amount == book.bets[index].amount,
        book.run(requests).bets[index].option == book.bets[index].option,
        book.run(requests).bets[index].user == book.bets[index].user,
        book.run(requests).bets[index].market == book.bets[index].market,
        book.run(requests).bets[index].timestamp == book.bets[index].timestamp,
        book.bets[index].claimed ==> book.run(requests).bets[index] == book.bets[index],
    decreases requests.len(),
{
    if requests.len() > 0 {
        lemma_run_bets(book, requests.drop_last(), index);
        lemma_step_bets(book.run(requests.drop_last()), requests.last(), index);
    }
}

/// Single claim over a history: once the winnings of a bet were paid,
/// every later claim of that bet, by whomever and whatever was called in
/// between, is rejected as already claimed and moves nothing.
pub proof fn lemma_paid_once(
    book: Book,
    index: int,
    caller: Seq<u8>,
    user_balance: nat,
    later: Seq<Request>,
    second_caller: Seq<u8>,
    second_balance: nat,
)
    requires
        0 <= index < book.bets.len(),
        claim_winnings_error(
            book.market,
            book.market_key,
            book.bets[index],
            caller,
            book.custody,
            user_balance,
        ) is None,
    ensures
        ({
            let claimed = book.step(Request::Claim { index, caller, user_balance });
            let after = claimed.run(later);
            let second = Request::Claim {
                index,
                caller: second_caller,
                user_balance: second_balance,
            };
            &&& claimed.custody == book.custody - winnings(book.market, book.bets[index])
            &&& claimed.paid == book.paid + winnings(book.market, book.bets[index])
            &&& index < after.bets.len()
            &&& after.bets[index].claimed
            &&& claim_winnings_error(
                after.market,
                after.market_key,
                after.bets[index],
                second_caller,
                after.custody,
                second_balance,
            ) == Some(ErrorCode::AlreadyClaimed)
            &&& after.step(second) == after
        }),
{
    let claimed = book.step(Request::Claim { index, caller, user_balance });
    assert(claimed.bets[index].claimed);
    assert(claimed.market.is_resolved);
    lemma_run_bets(claimed, later, index);
    lemma_run_pools(claimed, later);
    lemma_run_terms(claimed, later);
}

/// A claim with the record of a bet that was placed on another market is
/// rejected and moves nothing, whatever the state of the book and of the
/// bet, whoever asks and whatever the balances are.
pub proof fn lemma_foreign_claim_moves_nothing(
    book: Book,
    bet: BetView,
    caller: Seq<u8>,
    user_balance: nat,
)
    requires
        bet.market != book.market_key,
    ensures
        claim_winnings_error(book.market, book.market_key, bet, caller, book.custody, user_balance)
            is Some,
        book.step(Request::ClaimForeign { bet, caller, user_balance }) == book,
{
}

} // verus!
