//! The typed rejections of the four market operations.

use vstd::prelude::*;

verus! {

/// Why an operation was rejected. A rejected operation changes nothing.
#[derive(Clone, Copy, Debug, PartialEq, Eq, Structural)]
pub enum ErrorCode {
    /// The deadline of a new market is not strictly in the future.
    InvalidEndTime,
    /// The question is longer than [`crate::market::MAX_QUESTION_LEN`] characters.
    QuestionTooLong,
    /// The description is longer than [`crate::market::MAX_DESCRIPTION_LEN`] characters.
    DescriptionTooLong,
    /// A bet was placed on a market that is already resolved.
    MarketResolved,
    /// A bet was placed at or after the deadline.
    MarketEnded,
    /// A bet of zero was placed.
    InvalidAmount,
    /// The market was resolved before.
    AlreadyResolved,
    /// The market was resolved before its deadline.
    MarketNotEnded,
    /// Someone other than the creator tried to resolve the market.
    UnauthorizedResolver,
    /// Winnings were claimed from a market that is not resolved.
    MarketNotResolved,
    /// The winnings of this bet were paid before.
    AlreadyClaimed,
    /// Someone other than the bettor tried to claim the winnings.
    UnauthorizedClaim,
    /// The bet is on the losing outcome.
    LosingBet,
    /// The bet was placed on another market than the one it is claimed from.
    WrongMarket,
    /// The paying balance is smaller than the amount to move.
    InsufficientFunds,
    /// The receiving balance would leave the 64-bit range.
    BalanceOverflow,
    /// A pool of the market, both together, or its count of bets would
    /// leave the 64-bit range.
    AccumulatorOverflow,
    /// The winning pool of a resolved market is empty, so no share can be computed.
    EmptyWinningPool,
}

/// The kinds of rejection, by what a caller can do about them.
#[derive(Clone, Copy, Debug, PartialEq, Eq, Structural)]
pub enum ErrorCategory {
    /// The input has the wrong shape: correct it and submit again.
    Validation,
    /// The record is in a state in which the operation does not apply.
    Lifecycle,
    /// The caller is not the identity that the record names.
    Authorization,
    /// The bet backs the outcome that lost.
    OutcomeMismatch,
    /// The movement of value between two balances was refused.
    Transfer,
    /// The records contradict the accounting rules: a defect, never a normal outcome.
    InternalInvariant,
}

impl ErrorCode {
    /// The category of each rejection.
    pub open spec fn spec_category(self) -> ErrorCategory {
        match self {
            ErrorCode::InvalidEndTime
            | ErrorCode::QuestionTooLong
            | ErrorCode::DescriptionTooLong
            | ErrorCode::InvalidAmount
            | ErrorCode::WrongMarket => ErrorCategory::Validation,
            ErrorCode::MarketResolved
            | ErrorCode::MarketEnded
            | ErrorCode::AlreadyResolved
            | ErrorCode::MarketNotEnded
            | ErrorCode::MarketNotResolved
            | ErrorCode::AlreadyClaimed => ErrorCategory::Lifecycle,
            ErrorCode::UnauthorizedResolver | ErrorCode::UnauthorizedClaim => ErrorCategory::Authorization,
            ErrorCode::LosingBet => ErrorCategory::OutcomeMismatch,
            ErrorCode::InsufficientFunds | ErrorCode::BalanceOverflow => ErrorCategory::Transfer,
            ErrorCode::AccumulatorOverflow | ErrorCode::EmptyWinningPool => ErrorCategory::InternalInvariant,
        }
    }

    /// The text shown for each rejection.
    pub open spec fn spec_message(self) -> Seq<char> {
        match self {
            ErrorCode::InvalidEndTime => "Invalid end time"@,
            ErrorCode::QuestionTooLong => "Question too long"@,
            ErrorCode::DescriptionTooLong => "Description too long"@,
            ErrorCode::MarketResolved => "Market already resolved"@,
            ErrorCode::MarketEnded => "Market has ended"@,
            ErrorCode::InvalidAmount => "Invalid amount"@,
            ErrorCode::AlreadyResolved => "Market already resolved"@,
            ErrorCode::MarketNotEnded => "Market has not ended yet"@,
            ErrorCode::UnauthorizedResolver => "Unauthorized resolver"@,
            ErrorCode::MarketNotResolved => "Market not resolved"@,
            ErrorCode::AlreadyClaimed => "Winnings already claimed"@,
            ErrorCode::UnauthorizedClaim => "Unauthorized claim"@,
            ErrorCode::LosingBet => "This is a losing bet"@,
            ErrorCode::WrongMarket => "Bet belongs to another market"@,
            ErrorCode::InsufficientFunds => "Insufficient funds"@,
            ErrorCode::BalanceOverflow => "Balance overflow"@,
            ErrorCode::AccumulatorOverflow => "Accumulator overflow"@,
            ErrorCode::EmptyWinningPool => "Winning pool is empty"@,
        }
    }

    /// Tells which kind of rejection this is.
    pub fn category(&self) -> (c: ErrorCategory)
        ensures
            c == self.spec_category(),
    {
        match self {
            ErrorCode::InvalidEndTime
            | ErrorCode::QuestionTooLong
            | ErrorCode::DescriptionTooLong
            | ErrorCode::InvalidAmount
            | ErrorCode::WrongMarket => ErrorCategory::Validation,
            ErrorCode::MarketResolved
            | ErrorCode::MarketEnded
            | ErrorCode::AlreadyResolved
            | ErrorCode::MarketNotEnded
            | ErrorCode::MarketNotResolved
            | ErrorCode::AlreadyClaimed => ErrorCategory::Lifecycle,
            ErrorCode::UnauthorizedResolver | ErrorCode::UnauthorizedClaim => ErrorCategory::Authorization,
            ErrorCode::LosingBet => ErrorCategory::OutcomeMismatch,
            ErrorCode::InsufficientFunds | ErrorCode::BalanceOverflow => ErrorCategory::Transfer,
            ErrorCode::AccumulatorOverflow | ErrorCode::EmptyWinningPool => ErrorCategory::InternalInvariant,
        }
    }

    /// The text of this rejection, for display.
    pub fn message(&self) -> (text: &'static str)
        ensures
            text@ == self.spec_message(),
    {
        match self {
            ErrorCode::InvalidEndTime => "Invalid end time",
            ErrorCode::QuestionTooLong => "Question too long",
            ErrorCode::DescriptionTooLong => "Description too long",
            ErrorCode::MarketResolved => "Market already resolved",
            ErrorCode::MarketEnded => "Market has ended",
            ErrorCode::InvalidAmount => "Invalid amount",
            ErrorCode::AlreadyResolved => "Market already resolved",
            ErrorCode::MarketNotEnded => "Market has not ended yet",
            ErrorCode::UnauthorizedResolver => "Unauthorized resolver",
            ErrorCode::MarketNotResolved => "Market not resolved",
            ErrorCode::AlreadyClaimed => "Winnings already claimed",
            ErrorCode::UnauthorizedClaim => "Unauthorized claim",
            ErrorCode::LosingBet => "This is a losing bet",
            ErrorCode::WrongMarket => "Bet belongs to another market",
            ErrorCode::InsufficientFunds => "Insufficient funds",
            ErrorCode::BalanceOverflow => "Balance overflow",
            ErrorCode::AccumulatorOverflow => "Accumulator overflow",
            ErrorCode::EmptyWinningPool => "Winning pool is empty",
        }
    }
}

} // verus!
