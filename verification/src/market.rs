//! The market record: creation, pool accumulation and resolution.

use vstd::prelude::*;
use crate::error::ErrorCode;
use crate::identity::Identity;

verus! {

/// The largest number of characters in a market's question.
pub const MAX_QUESTION_LEN: usize = 200;

/// The largest number of characters in a market's description.
pub const MAX_DESCRIPTION_LEN: usize = 500;

/// One of the two outcomes of a market.
#[derive(Clone, Copy, Debug, PartialEq, Eq, Structural)]
pub enum BetOption {
    Yes,
    No,
}

/// A yes/no question with a deadline and the two pools of stakes behind its outcomes.
#[derive(Debug, PartialEq, Eq)]
pub struct Market {
    /// Who created the market, and the only one who may resolve it.
    pub creator: Identity,
    pub question: String,
    pub description: String,
    /// The deadline: bets are taken strictly before it, resolution at or after it.
    pub end_time: i64,
    /// The sum of all stakes on `Yes`.
    pub yes_pool: u64,
    /// The sum of all stakes on `No`.
    pub no_pool: u64,
    /// How many bets were placed.
    pub total_bets: u64,
    pub is_resolved: bool,
    /// Absent until the market is resolved, fixed from then on.
    pub winning_option: Option<BetOption>,
    pub created_at: i64,
    /// When the market was resolved; present exactly when it is.
    pub resolved_at: Option<i64>,
}

/// A market as a mathematical value.
pub struct MarketView {
    pub creator: Seq<u8>,
    pub question: Seq<char>,
    pub description: Seq<char>,
    pub end_time: int,
    pub yes_pool: nat,
    pub no_pool: nat,
    pub total_bets: nat,
    pub is_resolved: bool,
    pub winning_option: Option<BetOption>,
    pub created_at: int,
    pub resolved_at: Option<int>,
}

impl View for Market {
    type V = MarketView;

    open spec fn view(&self) -> MarketView {
        MarketView {
            creator: self.creator@,
            question: self.question@,
            description: self.description@,
            end_time: self.end_time as int,
            yes_pool: self.yes_pool as nat,
            no_pool: self.no_pool as nat,
            total_bets: self.total_bets as nat,
            is_resolved: self.is_resolved,
            winning_option: self.winning_option,
            created_at: self.created_at as int,
            resolved_at: match self.resolved_at {
                Some(t) => Some(t as int),
                None => None,
            },
        }
    }
}

impl MarketView {
    /// The market that `create_market` makes: empty pools, not resolved.
    pub open spec fn created(
        creator: Seq<u8>,
        question: Seq<char>,
        description: Seq<char>,
        end_time: int,
        now: int,
    ) -> MarketView {
        MarketView {
            creator,
            question,
            description,
            end_time,
            yes_pool: 0,
            no_pool: 0,
            total_bets: 0,
            is_resolved: false,
            winning_option: None,
            created_at: now,
            resolved_at: None,
        }
    }

    /// The invariant of a market record.
    ///
    /// The texts are within their limits, the deadline lies after the
    /// creation, the outcome and the time of resolution are present exactly
    /// when the market is resolved, the combined pool fits in 64 bits, and
    /// every counted bet has put at least one unit into a pool.
    pub open spec fn wf(self) -> bool {
        &&& self.question.len() <= MAX_QUESTION_LEN
        &&& self.description.len() <= MAX_DESCRIPTION_LEN
        &&& self.created_at < self.end_time
        &&& self.is_resolved == self.winning_option.is_some()
        &&& self.is_resolved == self.resolved_at.is_some()
        &&& self.yes_pool + self.no_pool <= u64::MAX
        &&& self.total_bets <= self.yes_pool + self.no_pool
    }

    /// The pool behind one outcome.
    pub open spec fn pool(self, option: BetOption) -> nat {
        match option {
            BetOption::Yes => self.yes_pool,
            BetOption::No => self.no_pool,
        }
    }

    /// Both pools together.
    pub open spec fn total_pool(self) -> nat {
        self.yes_pool + self.no_pool
    }

    /// A market takes bets while it is not resolved and its deadline has not come.
    pub open spec fn is_open(self, now: int) -> bool {
        !self.is_resolved && now < self.end_time
    }

    /// The market after a stake of `amount` on `option` was added.
    pub open spec fn after_bet(self, option: BetOption, amount: nat) -> MarketView {
        match option {
            BetOption::Yes => MarketView {
                yes_pool: self.yes_pool + amount,
                total_bets: self.total_bets + 1,
                ..self
            },
            BetOption::No => MarketView {
                no_pool: self.no_pool + amount,
                total_bets: self.total_bets + 1,
                ..self
            },
        }
    }

    /// The market after it was resolved at `now` in favour of `winning_option`.
    pub open spec fn after_resolution(self, winning_option: BetOption, now: int) -> MarketView {
        MarketView {
            is_resolved: true,
            winning_option: Some(winning_option),
            resolved_at: Some(now),
            ..self
        }
    }
}

/// Why `create_market` rejects its input, if it does. The deadline is looked
/// at first, then the question, then the description.
pub open spec fn create_market_error(
    question: Seq<char>,
    description: Seq<char>,
    end_time: int,
    now: int,
) -> Option<ErrorCode> {
    if end_time <= now {
        Some(ErrorCode::InvalidEndTime)
    } else if question.len() > MAX_QUESTION_LEN {
        Some(ErrorCode::QuestionTooLong)
    } else if description.len() > MAX_DESCRIPTION_LEN {
        Some(ErrorCode::DescriptionTooLong)
    } else {
        None
    }
}

/// Why `resolve_market` rejects a call, if it does. The state of the market
/// is looked at first, then the time, then the caller.
pub open spec fn resolve_market_error(market: MarketView, resolver: Seq<u8>, now: int) -> Option<
    ErrorCode,
> {
    if market.is_resolved {
        Some(ErrorCode::AlreadyResolved)
    } else if now < market.end_time {
        Some(ErrorCode::MarketNotEnded)
    } else if resolver != market.creator {
        Some(ErrorCode::UnauthorizedResolver)
    } else {
        None
    }
}

impl Clone for Market {
    fn clone(&self) -> (copy: Market)
        ensures
            copy == *self,
    {
        Market {
            creator: self.creator,
            question: self.question.clone(),
            description: self.description.clone(),
            end_time: self.end_time,
            yes_pool: self.yes_pool,
            no_pool: self.no_pool,
            total_bets: self.total_bets,
            is_resolved: self.is_resolved,
            winning_option: self.winning_option,
            created_at: self.created_at,
            resolved_at: self.resolved_at,
        }
    }
}

impl Market {
    /// The invariant of a market record: see [`MarketView::wf`].
    pub open spec fn wf(&self) -> bool {
        self@.wf()
    }

    /// Adds a stake to the pool of its outcome and counts the bet.
    ///
    /// The caller has checked that the market is open and that its
    /// accumulators have room for the stake.
    pub fn accumulate_bet(&mut self, option: BetOption, amount: u64)
        requires
            !old(self).is_resolved,
            old(self)@.total_pool() + amount <= u64::MAX,
            old(self).total_bets < u64::MAX,
        ensures
            final(self)@ == old(self)@.after_bet(option, amount as nat),
            old(self).wf() && amount > 0 ==> final(self).wf(),
            final(self).creator == old(self).creator,
            final(self).question == old(self).question,
            final(self).description == old(self).description,
    {
        match option {
            BetOption::Yes => {
                self.yes_pool = self.yes_pool + amount;
            },
            BetOption::No => {
                self.no_pool = self.no_pool + amount;
            },
        }
        self.total_bets = self.total_bets + 1;
    }
}

/// Creates a market on `question` that takes bets until `end_time`.
///
/// The deadline must lie strictly after `now`, the question may have up to
/// 200 characters and the description up to 500. The new market has empty
/// pools and is not resolved.
pub fn create_market(
    question: String,
    description: String,
    end_time: i64,
    creator: Identity,
    now: i64,
) -> (result: Result<Market, ErrorCode>)
    ensures
        match result {
            Ok(market) => {
                &&& create_market_error(question@, description@, end_time as int, now as int) is None
                &&& market@ == MarketView::created(
                    creator@,
                    question@,
                    description@,
                    end_time as int,
                    now as int,
                )
                &&& market.creator == creator
                &&& market.question == question
                &&& market.description == description
                &&& market.wf()
            },
            Err(e) => create_market_error(question@, description@, end_time as int, now as int)
                == Some(e),
        },
{
    if end_time <= now {
        return Err(ErrorCode::InvalidEndTime);
    }
    if question.as_str().unicode_len() > MAX_QUESTION_LEN {
        return Err(ErrorCode::QuestionTooLong);
    }
    if description.as_str().unicode_len() > MAX_DESCRIPTION_LEN {
        return Err(ErrorCode::DescriptionTooLong);
    }
    Ok(
        Market {
            creator,
            question,
            description,
            end_time,
            yes_pool: 0,
            no_pool: 0,
            total_bets: 0,
            is_resolved: false,
            winning_option: None,
            created_at: now,
            resolved_at: None,
        },
    )
}

/// Declares the outcome of a market.
///
/// Only the creator may do so, only once, and only at or after the deadline.
/// A rejected call leaves the market as it was.
pub fn resolve_market(
    market: &mut Market,
    winning_option: BetOption,
    resolver: &Identity,
    now: i64,
) -> (result: Result<(), ErrorCode>)
    ensures
        match result {
            Ok(_) => {
                &&& resolve_market_error(old(market)@, resolver@, now as int) is None
                &&& final(market)@ == old(market)@.after_resolution(winning_option, now as int)
                &&& final(market).creator == old(market).creator
                &&& final(market).question == old(market).question
                &&& final(market).description == old(market).description
            },
            Err(e) => {
                &&& resolve_market_error(old(market)@, resolver@, now as int) == Some(e)
                &&& *final(market) == *old(market)
            },
        },
        old(market).wf() ==> final(market).wf(),
{
    if market.is_resolved {
        return Err(ErrorCode::AlreadyResolved);
    }
    if now < market.end_time {
        return Err(ErrorCode::MarketNotEnded);
    }
    if *resolver != market.creator {
        return Err(ErrorCode::UnauthorizedResolver);
    }
    market.is_resolved = true;
    market.winning_option = Some(winning_option);
    market.resolved_at = Some(now);
    Ok(())
}

} // verus!
