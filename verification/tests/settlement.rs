use solanapredict::ledger::transfer;
use solanapredict::settlement::compute_payout;
use solanapredict::{claim_winnings, Bet, BetOption, ErrorCategory, ErrorCode, Identity, Market};

fn key(tag: u8) -> Identity {
    Identity::new([tag; 32])
}

fn resolved_market(yes_pool: u64, no_pool: u64, winning_option: BetOption) -> Market {
    Market {
        creator: key(1),
        question: String::from("Will the bridge open this year?"),
        description: String::new(),
        end_time: 100,
        yes_pool,
        no_pool,
        total_bets: 2,
        is_resolved: true,
        winning_option: Some(winning_option),
        created_at: 0,
        resolved_at: Some(100),
    }
}

fn bet_of(user: Identity, amount: u64, option: BetOption) -> Bet {
    Bet { market: key(9), user, amount, option, timestamp: 50, claimed: false }
}

#[test]
fn payout_of_a_yes_bet_of_60_in_300_of_400_is_80() {
    let market = resolved_market(300, 100, BetOption::Yes);
    let mut bet = bet_of(key(2), 60, BetOption::Yes);
    let mut custody = 400u64;
    let mut wallet = 0u64;
    let paid = claim_winnings(&market, &key(9), &mut bet, &key(2), &mut custody, &mut wallet);
    assert_eq!(paid, Ok(80));
    assert_eq!(custody, 320);
    assert_eq!(wallet, 80);
    assert!(bet.claimed);
    assert_eq!(bet, Bet { claimed: true, ..bet_of(key(2), 60, BetOption::Yes) });
}

#[test]
fn a_no_bet_on_a_market_resolved_yes_is_a_losing_bet() {
    let market = resolved_market(300, 100, BetOption::Yes);
    let mut bet = bet_of(key(3), 100, BetOption::No);
    let mut custody = 400u64;
    let mut wallet = 0u64;
    let paid = claim_winnings(&market, &key(9), &mut bet, &key(3), &mut custody, &mut wallet);
    assert_eq!(paid, Err(ErrorCode::LosingBet));
    assert_eq!(custody, 400);
    assert_eq!(wallet, 0);
    assert_eq!(bet, bet_of(key(3), 100, BetOption::No));
}

#[test]
fn a_no_bet_wins_when_the_market_resolves_no() {
    let market = resolved_market(300, 100, BetOption::No);
    let mut bet = bet_of(key(3), 25, BetOption::No);
    let mut custody = 400u64;
    let mut wallet = 5u64;
    let paid = claim_winnings(&market, &key(9), &mut bet, &key(3), &mut custody, &mut wallet);
    assert_eq!(paid, Ok(100));
    assert_eq!(custody, 300);
    assert_eq!(wallet, 105);
}

#[test]
fn claim_on_an_unresolved_market_is_rejected() {
    let mut market = resolved_market(300, 100, BetOption::Yes);
    market.is_resolved = false;
    market.winning_option = None;
    market.resolved_at = None;
    let mut bet = bet_of(key(2), 60, BetOption::Yes);
    bet.claimed = true;
    let mut custody = 400u64;
    let mut wallet = 0u64;
    let paid = claim_winnings(&market, &key(9), &mut bet, &key(7), &mut custody, &mut wallet);
    assert_eq!(paid, Err(ErrorCode::MarketNotResolved));
    assert_eq!((custody, wallet), (400, 0));
}

#[test]
fn claim_checks_paid_before_caller_before_outcome() {
    let market = resolved_market(300, 100, BetOption::Yes);
    let mut custody = 400u64;
    let mut wallet = 0u64;

    let mut paid_loser = bet_of(key(3), 10, BetOption::No);
    paid_loser.claimed = true;
    let result = claim_winnings(&market, &key(9), &mut paid_loser, &key(7), &mut custody, &mut wallet);
    assert_eq!(result, Err(ErrorCode::AlreadyClaimed));

    let mut loser = bet_of(key(3), 10, BetOption::No);
    let result = claim_winnings(&market, &key(9), &mut loser, &key(7), &mut custody, &mut wallet);
    assert_eq!(result, Err(ErrorCode::UnauthorizedClaim));
    assert!(!loser.claimed);

    let mut winner = bet_of(key(2), 10, BetOption::Yes);
    let result = claim_winnings(&market, &key(9), &mut winner, &key(3), &mut custody, &mut wallet);
    assert_eq!(result, Err(ErrorCode::UnauthorizedClaim));
    assert!(!winner.claimed);
    assert_eq!((custody, wallet), (400, 0));
}

#[test]
fn claim_twice_pays_once() {
    let market = resolved_market(300, 100, BetOption::Yes);
    let mut bet = bet_of(key(2), 150, BetOption::Yes);
    let mut custody = 400u64;
    let mut wallet = 10u64;
    assert_eq!(claim_winnings(&market, &key(9), &mut bet, &key(2), &mut custody, &mut wallet), Ok(200));
    assert_eq!((custody, wallet), (200, 210));
    assert_eq!(
        claim_winnings(&market, &key(9), &mut bet, &key(2), &mut custody, &mut wallet),
        Err(ErrorCode::AlreadyClaimed)
    );
    assert_eq!(
        claim_winnings(&market, &key(9), &mut bet, &key(8), &mut custody, &mut wallet),
        Err(ErrorCode::AlreadyClaimed)
    );
    assert_eq!((custody, wallet), (200, 210));
    assert!(bet.claimed);
}

#[test]
fn claim_from_an_empty_winning_pool_is_an_internal_error() {
    let market = resolved_market(0, 100, BetOption::Yes);
    let mut bet = bet_of(key(2), 60, BetOption::Yes);
    let mut custody = 100u64;
    let mut wallet = 0u64;
    let paid = claim_winnings(&market, &key(9), &mut bet, &key(2), &mut custody, &mut wallet);
    assert_eq!(paid, Err(ErrorCode::EmptyWinningPool));
    assert_eq!(ErrorCode::EmptyWinningPool.category(), ErrorCategory::InternalInvariant);
    assert!(!bet.claimed);
    assert_eq!((custody, wallet), (100, 0));
}

#[test]
fn claim_beyond_the_custody_fails_and_leaves_the_bet_unpaid() {
    let market = resolved_market(300, 100, BetOption::Yes);
    let mut bet = bet_of(key(2), 60, BetOption::Yes);
    let mut custody = 79u64;
    let mut wallet = 0u64;
    let paid = claim_winnings(&market, &key(9), &mut bet, &key(2), &mut custody, &mut wallet);
    assert_eq!(paid, Err(ErrorCode::InsufficientFunds));
    assert!(!bet.claimed);
    assert_eq!((custody, wallet), (79, 0));
    custody = 80;
    assert_eq!(claim_winnings(&market, &key(9), &mut bet, &key(2), &mut custody, &mut wallet), Ok(80));
    assert_eq!((custody, wallet), (0, 80));
}

#[test]
fn claim_of_a_share_beyond_64_bits_fails_for_want_of_funds() {
    let market = resolved_market(1, u64::MAX - 1, BetOption::Yes);
    let mut bet = bet_of(key(2), 2, BetOption::Yes);
    let mut custody = u64::MAX;
    let mut wallet = 0u64;
    let paid = claim_winnings(&market, &key(9), &mut bet, &key(2), &mut custody, &mut wallet);
    assert_eq!(paid, Err(ErrorCode::InsufficientFunds));
    assert!(!bet.claimed);
    assert_eq!((custody, wallet), (u64::MAX, 0));
}

#[test]
fn claim_that_overflows_the_wallet_fails() {
    let market = resolved_market(300, 100, BetOption::Yes);
    let mut bet = bet_of(key(2), 60, BetOption::Yes);
    let mut custody = 400u64;
    let mut wallet = u64::MAX - 79;
    let paid = claim_winnings(&market, &key(9), &mut bet, &key(2), &mut custody, &mut wallet);
    assert_eq!(paid, Err(ErrorCode::BalanceOverflow));
    assert!(!bet.claimed);
    assert_eq!((custody, wallet), (400, u64::MAX - 79));
    wallet = u64::MAX - 80;
    assert_eq!(claim_winnings(&market, &key(9), &mut bet, &key(2), &mut custody, &mut wallet), Ok(80));
    assert_eq!(wallet, u64::MAX);
}

#[test]
fn compute_payout_multiplies_before_it_divides() {
    assert_eq!(compute_payout(60, 400, 300), Ok(80));
    assert_eq!(compute_payout(100, 150, 100), Ok(150));
    // 1 * 5 / 3 rounds down to 1; dividing first would give 0 or 1 * 1.
    assert_eq!(compute_payout(1, 5, 3), Ok(1));
    assert_eq!(compute_payout(2, 5, 3), Ok(3));
    assert_eq!(compute_payout(3, 5, 3), Ok(5));
    assert_eq!(compute_payout(7, 10, 4), Ok(17));
    assert_eq!(compute_payout(0, 10, 4), Ok(0));
    assert_eq!(compute_payout(5, 0, 4), Ok(0));
}

#[test]
fn compute_payout_works_in_128_bits() {
    assert_eq!(compute_payout(u64::MAX, u64::MAX, u64::MAX), Ok(u64::MAX as u128));
    assert_eq!(
        compute_payout(u64::MAX, u64::MAX, 1),
        Ok(u64::MAX as u128 * u64::MAX as u128)
    );
    assert_eq!(compute_payout(1 << 63, 6, 4), Ok(3u128 << 62));
}

#[test]
fn compute_payout_of_an_empty_pool_is_an_error() {
    assert_eq!(compute_payout(5, 10, 0), Err(ErrorCode::EmptyWinningPool));
    assert_eq!(compute_payout(0, 0, 0), Err(ErrorCode::EmptyWinningPool));
}

#[test]
fn transfer_moves_the_amount_or_nothing() {
    let mut from = 10u64;
    let mut to = 1u64;
    assert_eq!(transfer(&mut from, &mut to, 4), Ok(()));
    assert_eq!((from, to), (6, 5));
    assert_eq!(transfer(&mut from, &mut to, 7), Err(ErrorCode::InsufficientFunds));
    assert_eq!((from, to), (6, 5));
    assert_eq!(transfer(&mut from, &mut to, 6), Ok(()));
    assert_eq!((from, to), (0, 11));
    assert_eq!(transfer(&mut from, &mut to, 0), Ok(()));
    assert_eq!((from, to), (0, 11));
}

#[test]
fn transfer_refuses_to_overflow_the_receiver() {
    let mut from = 10u64;
    let mut to = u64::MAX - 3;
    assert_eq!(transfer(&mut from, &mut to, 4), Err(ErrorCode::BalanceOverflow));
    assert_eq!((from, to), (10, u64::MAX - 3));
    assert_eq!(transfer(&mut from, &mut to, 11), Err(ErrorCode::InsufficientFunds));
    assert_eq!(transfer(&mut from, &mut to, 3), Ok(()));
    assert_eq!((from, to), (7, u64::MAX));
}

#[test]
fn mark_claimed_flips_the_flag_and_nothing_else() {
    let mut bet = bet_of(key(2), 60, BetOption::Yes);
    bet.mark_claimed();
    assert_eq!(
        bet,
        Bet {
            market: key(9),
            user: key(2),
            amount: 60,
            option: BetOption::Yes,
            timestamp: 50,
            claimed: true,
        }
    );
}

#[test]
fn claim_from_pools_that_exceed_64_bits_together_is_an_internal_error() {
    let market = resolved_market(u64::MAX, 1, BetOption::Yes);
    let mut bet = bet_of(key(2), 60, BetOption::Yes);
    let mut custody = u64::MAX;
    let mut wallet = 0u64;
    let paid = claim_winnings(&market, &key(9), &mut bet, &key(2), &mut custody, &mut wallet);
    assert_eq!(paid, Err(ErrorCode::AccumulatorOverflow));
    assert!(!bet.claimed);
    assert_eq!((custody, wallet), (u64::MAX, 0));
}

#[test]
fn claim_without_a_recorded_outcome_is_a_losing_bet() {
    let mut market = resolved_market(300, 100, BetOption::Yes);
    market.winning_option = None;
    let mut bet = bet_of(key(2), 60, BetOption::Yes);
    let mut custody = 400u64;
    let mut wallet = 0u64;
    let paid = claim_winnings(&market, &key(9), &mut bet, &key(2), &mut custody, &mut wallet);
    assert_eq!(paid, Err(ErrorCode::LosingBet));
    assert_eq!((custody, wallet), (400, 0));
}

#[test]
fn winners_together_never_get_more_than_the_pools() {
    // Three winners share 7 + 5: each share is rounded down.
    let market = resolved_market(7, 5, BetOption::Yes);
    let mut custody = 12u64;
    let mut total_paid = 0u64;
    for (who, amount) in [(2u8, 3u64), (3, 3), (4, 1)] {
        let mut bet = bet_of(key(who), amount, BetOption::Yes);
        let mut wallet = 0u64;
        let paid = claim_winnings(&market, &key(9), &mut bet, &key(who), &mut custody, &mut wallet).unwrap();
        assert_eq!(paid as u128, compute_payout(amount, 12, 7).unwrap());
        total_paid += paid;
    }
    // 3 * 12 / 7 = 5, 5, and 1 * 12 / 7 = 1.
    assert_eq!(total_paid, 11);
    assert_eq!(custody, 1);
    assert!(12 - total_paid <= 7 - 1);
}

#[test]
fn a_bet_placed_on_another_market_is_not_paid() {
    // A stake of 10 recorded under one key, claimed from a market under another.
    let market = resolved_market(10, 990, BetOption::Yes);
    let mut bet = bet_of(key(2), 10, BetOption::Yes);
    let mut custody = 1_000u64;
    let mut wallet = 0u64;
    let paid = claim_winnings(&market, &key(8), &mut bet, &key(2), &mut custody, &mut wallet);
    assert_eq!(paid, Err(ErrorCode::WrongMarket));
    assert_eq!(bet, bet_of(key(2), 10, BetOption::Yes));
    assert!(!bet.claimed);
    assert_eq!((custody, wallet), (1_000, 0));

    // The same bet is paid from its own market.
    let paid = claim_winnings(&market, &key(9), &mut bet, &key(2), &mut custody, &mut wallet);
    assert_eq!(paid, Ok(1_000));
    assert_eq!((custody, wallet), (0, 1_000));
}

#[test]
fn a_market_key_that_differs_in_one_byte_is_another_market() {
    let market = resolved_market(300, 100, BetOption::Yes);
    let mut bet = bet_of(key(2), 60, BetOption::Yes);
    let mut custody = 400u64;
    let mut wallet = 0u64;
    for i in 0..32 {
        let mut bytes = [9u8; 32];
        bytes[i] = 10;
        let other = Identity::new(bytes);
        let paid = claim_winnings(&market, &other, &mut bet, &key(2), &mut custody, &mut wallet);
        assert_eq!(paid, Err(ErrorCode::WrongMarket));
    }
    assert!(!bet.claimed);
    assert_eq!((custody, wallet), (400, 0));
}

#[test]
fn claim_checks_the_bettor_before_the_market_and_the_market_before_the_outcome() {
    let market = resolved_market(300, 100, BetOption::Yes);
    let mut custody = 400u64;
    let mut wallet = 0u64;

    let mut paid_elsewhere = bet_of(key(2), 60, BetOption::Yes);
    paid_elsewhere.claimed = true;
    let result =
        claim_winnings(&market, &key(8), &mut paid_elsewhere, &key(2), &mut custody, &mut wallet);
    assert_eq!(result, Err(ErrorCode::AlreadyClaimed));

    let mut foreign = bet_of(key(2), 60, BetOption::Yes);
    let result = claim_winnings(&market, &key(8), &mut foreign, &key(3), &mut custody, &mut wallet);
    assert_eq!(result, Err(ErrorCode::UnauthorizedClaim));

    let mut foreign_loser = bet_of(key(2), 60, BetOption::No);
    let result =
        claim_winnings(&market, &key(8), &mut foreign_loser, &key(2), &mut custody, &mut wallet);
    assert_eq!(result, Err(ErrorCode::WrongMarket));

    let mut unresolved = resolved_market(300, 100, BetOption::Yes);
    unresolved.is_resolved = false;
    unresolved.winning_option = None;
    unresolved.resolved_at = None;
    let result =
        claim_winnings(&unresolved, &key(8), &mut foreign, &key(2), &mut custody, &mut wallet);
    assert_eq!(result, Err(ErrorCode::MarketNotResolved));
    assert_eq!((custody, wallet), (400, 0));
}
