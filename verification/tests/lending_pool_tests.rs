use remittance_lending::account::AccountId;
use remittance_lending::error::Error;
use remittance_lending::lending_pool::{LenderInfo, LendingPool, DEFAULT_MAX_UTILIZATION};
use remittance_lending::math::{basis_points, mul_div_floor};

fn manager() -> AccountId {
    AccountId::new(0, 0, 1 as u128)
}

fn token() -> AccountId {
    AccountId::new(0, 0, 2 as u128)
}

fn alice() -> AccountId {
    AccountId::new(0, 0, 10 as u128)
}

fn bob() -> AccountId {
    AccountId::new(0, 0, 11 as u128)
}

fn fresh_pool() -> LendingPool {
    LendingPool::initialize(manager(), token(), 800)
}

fn funded_pool(amount: i128) -> LendingPool {
    let mut pool = fresh_pool();
    assert_eq!(pool.deposit(alice(), amount, 1_000), Ok(()));
    pool
}

fn principal_sum(pool: &LendingPool) -> i128 {
    let mut sum: i128 = 0;
    for entry in pool.lenders.iter() {
        sum += entry.info.deposit_amount;
    }
    sum
}

fn assert_invariants(pool: &LendingPool) {
    assert!(pool.total_liquidity - pool.total_borrowed >= 0);
    assert_eq!(principal_sum(pool), pool.total_liquidity);
}

#[test]
fn initialize_zeroes_totals_and_sets_default_cap() {
    let pool = fresh_pool();
    assert_eq!(pool.loan_manager, manager());
    assert_eq!(pool.usdc_token, token());
    assert_eq!(pool.base_interest_rate, 800);
    assert_eq!(pool.max_utilization, 9000);
    assert_eq!(DEFAULT_MAX_UTILIZATION, 9000);
    assert_eq!(pool.total_liquidity, 0);
    assert_eq!(pool.total_borrowed, 0);
    assert_eq!(pool.total_interest_earned, 0);
    assert_eq!(pool.accumulated_interest_per_share, 0);
    assert!(pool.lenders.is_empty());
}

#[test]
fn first_deposit_takes_the_whole_share() {
    let mut pool = fresh_pool();
    assert_eq!(pool.deposit(alice(), 1_000_000, 77), Ok(()));
    assert_eq!(pool.total_liquidity, 1_000_000);
    let info = pool.get_lender_info(alice());
    assert_eq!(
        info,
        LenderInfo {
            deposit_amount: 1_000_000,
            deposit_timestamp: 77,
            earned_interest: 0,
            share_percentage: 10000,
        }
    );
}

#[test]
fn deposit_applies_the_amount_exactly_once() {
    let mut pool = funded_pool(1_000_000);
    assert_eq!(pool.deposit(alice(), 250_000, 2_000), Ok(()));
    assert_eq!(pool.total_liquidity, 1_250_000);
    let info = pool.get_lender_info(alice());
    assert_eq!(info.deposit_amount, 1_250_000);
    assert_eq!(info.deposit_timestamp, 1_000);
    assert_eq!(info.share_percentage, 10000);
    assert_eq!(pool.lenders.len(), 1);
}

#[test]
fn deposit_rejects_amounts_that_are_not_positive() {
    let mut pool = funded_pool(500);
    assert_eq!(pool.deposit(alice(), 0, 5), Err(Error::InvalidAmount));
    assert_eq!(pool.deposit(bob(), -1, 5), Err(Error::InvalidAmount));
    assert_eq!(pool.total_liquidity, 500);
    assert_eq!(pool.lenders.len(), 1);
    assert_eq!(pool.get_lender_info(alice()).deposit_amount, 500);
}

#[test]
fn second_lender_gets_a_share_of_the_new_total() {
    let mut pool = funded_pool(1_000_000);
    assert_eq!(pool.deposit(bob(), 500_000, 2_000), Ok(()));
    assert_eq!(pool.total_liquidity, 1_500_000);
    let second = pool.get_lender_info(bob());
    assert_eq!(second.deposit_amount, 500_000);
    assert_eq!(second.deposit_timestamp, 2_000);
    assert_eq!(second.share_percentage, 3333);
    let first = pool.get_lender_info(alice());
    assert_eq!(first.deposit_amount, 1_000_000);
    assert_eq!(first.share_percentage, 10000);
    assert_invariants(&pool);
}

#[test]
fn shares_of_very_large_deposits_do_not_overflow() {
    let big: i128 = 10_000_000_000_000_000_000_000_000_000_000_000_000;
    let mut pool = fresh_pool();
    assert_eq!(pool.deposit(alice(), big, 1), Ok(()));
    assert_eq!(pool.get_lender_info(alice()).share_percentage, 10000);
    assert_eq!(pool.deposit(bob(), big, 2), Ok(()));
    assert_eq!(pool.get_lender_info(bob()).share_percentage, 5000);
    assert_eq!(pool.deposit(bob(), big, 3), Ok(()));
    assert_eq!(pool.get_lender_info(bob()).share_percentage, 6666);
    assert_invariants(&pool);
}

#[test]
fn withdraw_rejects_in_the_documented_order() {
    let mut pool = funded_pool(1_000);
    assert_eq!(pool.withdraw(bob(), 0), Err(Error::InvalidAmount));
    assert_eq!(pool.withdraw(alice(), -5), Err(Error::InvalidAmount));
    assert_eq!(pool.withdraw(bob(), 10), Err(Error::NotFound));
    assert_eq!(pool.withdraw(alice(), 1_001), Err(Error::InsufficientBalance));
    assert_eq!(pool.borrow(manager(), 600), Ok(()));
    assert_eq!(pool.withdraw(alice(), 401), Err(Error::InsufficientLiquidity));
    assert_eq!(pool.total_liquidity, 1_000);
    assert_eq!(pool.total_borrowed, 600);
    assert_eq!(pool.get_lender_info(alice()).deposit_amount, 1_000);
    assert_eq!(pool.withdraw(alice(), 400), Ok(400));
    assert_invariants(&pool);
}

#[test]
fn withdraw_without_interest_pays_the_amount() {
    let mut pool = funded_pool(1_000_000);
    assert_eq!(pool.withdraw(alice(), 250_000), Ok(250_000));
    assert_eq!(pool.total_liquidity, 750_000);
    let info = pool.get_lender_info(alice());
    assert_eq!(info.deposit_amount, 750_000);
    assert_eq!(info.earned_interest, 0);
    assert_eq!(info.share_percentage, 10000);
    assert_eq!(info.deposit_timestamp, 1_000);
}

#[test]
fn withdraw_of_everything_leaves_a_zero_position() {
    let mut pool = funded_pool(1_000_000);
    assert_eq!(pool.withdraw(alice(), 1_000_000), Ok(1_000_000));
    assert_eq!(pool.total_liquidity, 0);
    let info = pool.get_lender_info(alice());
    assert_eq!(info.deposit_amount, 0);
    assert_eq!(info.share_percentage, 0);
    assert_eq!(pool.lenders.len(), 1);
    assert_eq!(pool.get_utilization_rate(), 0);
}

#[test]
fn withdraw_settles_the_interest_that_accrued() {
    let mut pool = funded_pool(1_000_000);
    assert_eq!(pool.borrow(manager(), 100_000), Ok(()));
    assert_eq!(pool.repay(manager(), 8_333, 1_250), Ok(9_583));
    assert_eq!(pool.accumulated_interest_per_share, 1_250_000);
    assert_eq!(pool.total_interest_earned, 1_250);
    assert_eq!(pool.total_borrowed, 91_667);

    assert_eq!(pool.withdraw(alice(), 400_000), Ok(401_250));
    let info = pool.get_lender_info(alice());
    assert_eq!(info.deposit_amount, 600_000);
    assert_eq!(info.earned_interest, 1_250);
    assert_eq!(pool.total_liquidity, 600_000);
    assert_eq!(pool.total_interest_earned, 1_250);

    // 600,000 * 1,250,000 / 10^9 = 750, which is below the checkpoint.
    assert_eq!(pool.withdraw(alice(), 100_000), Ok(100_000));
    let info = pool.get_lender_info(alice());
    assert_eq!(info.deposit_amount, 500_000);
    assert_eq!(info.earned_interest, 1_250);
    assert_invariants(&pool);
}

#[test]
fn interest_is_shared_by_principal() {
    let mut pool = fresh_pool();
    assert_eq!(pool.deposit(alice(), 3_000, 1), Ok(()));
    assert_eq!(pool.deposit(bob(), 1_000, 2), Ok(()));
    assert_eq!(pool.borrow(manager(), 2_000), Ok(()));
    assert_eq!(pool.repay(manager(), 0, 400), Ok(400));
    // 400 * 10^9 / 4,000 = 10^8 per unit.
    assert_eq!(pool.accumulated_interest_per_share, 100_000_000);
    assert_eq!(pool.withdraw(bob(), 1_000), Ok(1_100));
    assert_eq!(pool.withdraw(alice(), 1_000), Ok(1_300));
    assert_eq!(pool.get_lender_info(alice()).earned_interest, 300);
    assert_eq!(pool.get_lender_info(bob()).earned_interest, 100);
    assert_invariants(&pool);
}

#[test]
fn borrow_is_for_the_loan_manager_only() {
    let mut pool = funded_pool(1_000_000);
    assert_eq!(pool.borrow(alice(), 100), Err(Error::Unauthorized));
    assert_eq!(pool.check_borrow(alice(), 100), Err(Error::Unauthorized));
    assert_eq!(pool.total_borrowed, 0);
}

#[test]
fn borrow_rejects_in_the_documented_order() {
    let mut pool = funded_pool(1_000_000);
    assert_eq!(pool.borrow(alice(), 0), Err(Error::Unauthorized));
    assert_eq!(pool.borrow(manager(), 0), Err(Error::InvalidAmount));
    assert_eq!(pool.borrow(manager(), -7), Err(Error::InvalidAmount));
    assert_eq!(pool.borrow(manager(), 1_000_001), Err(Error::InsufficientLiquidity));
    assert_eq!(pool.borrow(manager(), 1_000_000), Err(Error::MaxUtilizationExceeded));
    assert_eq!(pool.total_borrowed, 0);
}

#[test]
fn borrow_within_the_cap_succeeds() {
    let mut pool = funded_pool(1_000_000);
    assert_eq!(pool.check_borrow(manager(), 100_000), Ok(()));
    assert_eq!(pool.total_borrowed, 0);
    assert_eq!(pool.borrow(manager(), 100_000), Ok(()));
    assert_eq!(pool.total_borrowed, 100_000);
    assert_eq!(pool.total_liquidity, 1_000_000);
    assert_eq!(pool.get_utilization_rate(), 1000);
    assert_eq!(pool.get_available_liquidity(), 900_000);
    assert!(pool.get_utilization_rate() <= pool.max_utilization);
}

#[test]
fn borrow_beyond_the_cap_fails_and_changes_nothing() {
    let mut pool = funded_pool(1_000_000);
    assert_eq!(pool.borrow(manager(), 100_000), Ok(()));
    assert_eq!(pool.borrow(manager(), 800_100), Err(Error::MaxUtilizationExceeded));
    assert_eq!(pool.total_borrowed, 100_000);
    assert_eq!(pool.total_liquidity, 1_000_000);
    // Exactly at the cap is allowed.
    assert_eq!(pool.borrow(manager(), 800_000), Ok(()));
    assert_eq!(pool.total_borrowed, 900_000);
    assert_eq!(pool.get_utilization_rate(), 9000);
}

#[test]
fn utilization_just_under_the_next_basis_point_rounds_down() {
    let mut pool = funded_pool(1_000_000);
    assert_eq!(pool.borrow(manager(), 900_099), Ok(()));
    assert_eq!(pool.get_utilization_rate(), 9000);
    assert_eq!(pool.borrow(manager(), 1), Err(Error::MaxUtilizationExceeded));
}

#[test]
fn repay_is_for_the_loan_manager_only() {
    let mut pool = funded_pool(1_000_000);
    assert_eq!(pool.borrow(manager(), 100_000), Ok(()));
    assert_eq!(pool.repay(bob(), 10, 1), Err(Error::Unauthorized));
    assert_eq!(pool.check_repay(bob(), 10, 1), Err(Error::Unauthorized));
    assert_eq!(pool.total_borrowed, 100_000);
    assert_eq!(pool.total_interest_earned, 0);
}

#[test]
fn repay_rejects_negative_parts() {
    let mut pool = funded_pool(1_000_000);
    assert_eq!(pool.borrow(manager(), 100_000), Ok(()));
    assert_eq!(pool.repay(manager(), -1, 5), Err(Error::InvalidAmount));
    assert_eq!(pool.repay(manager(), 5, -1), Err(Error::InvalidAmount));
    assert_eq!(pool.check_repay(manager(), 0, 0), Ok(()));
    assert_eq!(pool.total_borrowed, 100_000);
    assert_eq!(pool.total_interest_earned, 0);
    assert_eq!(pool.accumulated_interest_per_share, 0);
}

#[test]
fn repay_updates_totals_and_the_accumulator() {
    let mut pool = funded_pool(1_000_000);
    assert_eq!(pool.borrow(manager(), 100_000), Ok(()));
    assert_eq!(pool.repay(manager(), 8_333, 1_250), Ok(9_583));
    assert_eq!(pool.total_borrowed, 91_667);
    assert_eq!(pool.total_interest_earned, 1_250);
    assert_eq!(pool.accumulated_interest_per_share, 1_250_000);
    assert_eq!(pool.repay(manager(), 0, 1), Ok(1));
    assert_eq!(pool.accumulated_interest_per_share, 1_251_000);
    assert_eq!(pool.repay(manager(), 10, 0), Ok(10));
    assert_eq!(pool.accumulated_interest_per_share, 1_251_000);
    assert_eq!(pool.total_borrowed, 91_657);
    // Positions are untouched: interest is not pushed to the lenders.
    assert_eq!(pool.get_lender_info(alice()).earned_interest, 0);
    assert_eq!(pool.get_lender_info(alice()).deposit_amount, 1_000_000);
}

#[test]
fn repay_of_interest_into_an_empty_pool_keeps_the_accumulator() {
    let mut pool = fresh_pool();
    assert_eq!(pool.repay(manager(), 0, 500), Ok(500));
    assert_eq!(pool.total_interest_earned, 500);
    assert_eq!(pool.accumulated_interest_per_share, 0);
}

#[test]
fn queries_of_an_empty_pool() {
    let pool = fresh_pool();
    assert_eq!(pool.get_available_liquidity(), 0);
    assert_eq!(pool.get_utilization_rate(), 0);
    assert_eq!(
        pool.get_lender_info(alice()),
        LenderInfo { deposit_amount: 0, deposit_timestamp: 0, earned_interest: 0, share_percentage: 0 }
    );
}

#[test]
fn queries_do_not_change_the_pool() {
    let mut pool = funded_pool(1_000_000);
    assert_eq!(pool.deposit(bob(), 10, 9), Ok(()));
    assert_eq!(pool.borrow(manager(), 5_000), Ok(()));
    let lenders = pool.lenders.clone();
    for _ in 0..3 {
        assert_eq!(pool.get_available_liquidity(), 995_010);
        assert_eq!(pool.get_utilization_rate(), 49);
        assert_eq!(pool.get_lender_info(bob()).deposit_amount, 10);
        assert_eq!(pool.get_lender_info(manager()).deposit_amount, 0);
    }
    assert_eq!(pool.lenders, lenders);
    assert_eq!(pool.total_liquidity, 1_000_010);
    assert_eq!(pool.total_borrowed, 5_000);
}

#[test]
fn deposit_then_withdraw_is_a_round_trip() {
    let mut pool = funded_pool(1_000_000);
    assert_eq!(pool.deposit(bob(), 40_000, 2), Ok(()));
    assert_eq!(pool.borrow(manager(), 300_000), Ok(()));
    let principal_before = pool.get_lender_info(bob()).deposit_amount;
    let total_before = pool.total_liquidity;
    assert_eq!(pool.deposit(bob(), 123_456, 3), Ok(()));
    assert_eq!(pool.withdraw(bob(), 123_456), Ok(123_456));
    assert_eq!(pool.get_lender_info(bob()).deposit_amount, principal_before);
    assert_eq!(pool.total_liquidity, total_before);
    assert_eq!(pool.total_borrowed, 300_000);
    assert_eq!(pool.get_lender_info(alice()).deposit_amount, 1_000_000);
}

#[test]
fn round_trip_of_a_new_lender_leaves_zero_principal() {
    let mut pool = funded_pool(1_000_000);
    assert_eq!(pool.deposit(bob(), 77, 3), Ok(()));
    assert_eq!(pool.withdraw(bob(), 77), Ok(77));
    assert_eq!(pool.get_lender_info(bob()).deposit_amount, 0);
    assert_eq!(pool.total_liquidity, 1_000_000);
}

#[test]
fn invariants_hold_over_a_sequence_of_operations() {
    let mut pool = fresh_pool();
    assert_invariants(&pool);
    let _ = pool.deposit(alice(), 500_000, 1);
    assert_invariants(&pool);
    let _ = pool.deposit(bob(), 300_000, 2);
    assert_invariants(&pool);
    let _ = pool.borrow(manager(), 700_000);
    assert_invariants(&pool);
    let _ = pool.withdraw(alice(), 200_000);
    assert_invariants(&pool);
    assert_eq!(pool.total_liquidity, 800_000);
    let _ = pool.withdraw(bob(), 100_000);
    assert_invariants(&pool);
    let _ = pool.repay(manager(), 50_000, 7_000);
    assert_invariants(&pool);
    let _ = pool.withdraw(bob(), 100_000);
    assert_invariants(&pool);
    let _ = pool.deposit(alice(), -3, 9);
    assert_invariants(&pool);
    let _ = pool.borrow(bob(), 1);
    assert_invariants(&pool);
    let _ = pool.repay(manager(), 650_000, 0);
    assert_invariants(&pool);
    let _ = pool.withdraw(alice(), 300_000);
    assert_invariants(&pool);
    assert_eq!(pool.total_borrowed, 0);
}

#[test]
fn repaying_more_than_was_lent_keeps_the_pool_solvent() {
    let mut pool = funded_pool(1_000);
    assert_eq!(pool.borrow(manager(), 100), Ok(()));
    assert_eq!(pool.repay(manager(), 150, 0), Ok(150));
    assert_eq!(pool.total_borrowed, -50);
    assert_eq!(pool.get_available_liquidity(), 1_050);
    assert_eq!(pool.get_utilization_rate(), 0);
    assert_invariants(&pool);
}

#[test]
fn mul_div_floor_is_exact() {
    assert_eq!(mul_div_floor(1, 10000, 3), 3333);
    assert_eq!(mul_div_floor(2, 10000, 3), 6666);
    assert_eq!(mul_div_floor(3, 10000, 3), 10000);
    assert_eq!(mul_div_floor(0, 10000, 3), 0);
    assert_eq!(mul_div_floor(7, 0, 9), 0);
    assert_eq!(mul_div_floor(7, 1, 9), 0);
    assert_eq!(mul_div_floor(123_456, 1_000_000_000, 1_000_000), 123_456_000);
    let max = i128::MAX as u128;
    assert_eq!(mul_div_floor(max, 10000, max), 10000);
    assert_eq!(mul_div_floor(max - 1, 10000, max), 9999);
    assert_eq!(mul_div_floor(max / 2, 10000, max), 4999);
    assert_eq!(mul_div_floor(max / 2 + 1, 10000, max), 5000);
    assert_eq!(mul_div_floor(max, u128::MAX, max), u128::MAX);
}

#[test]
fn basis_points_round_down_and_clamp_at_zero() {
    assert_eq!(basis_points(1, 3), 3333);
    assert_eq!(basis_points(100_000, 1_000_000), 1000);
    assert_eq!(basis_points(5, 5), 10000);
    assert_eq!(basis_points(0, 5), 0);
    assert_eq!(basis_points(-4, 5), 0);
    assert_eq!(basis_points(0, 0), 0);
    assert_eq!(basis_points(-1, 0), 0);
}

#[test]
fn identities_differ_in_kind_or_key() {
    let account = AccountId::new(0, 7, 9);
    assert_eq!(account, AccountId { kind: 0, high: 7, low: 9 });
    assert_ne!(account, AccountId::new(1, 7, 9));
    assert_ne!(account, AccountId::new(0, 8, 9));
    assert_ne!(account, AccountId::new(0, 7, 10));
    let mut pool = LendingPool::initialize(AccountId::new(1, 0, 1), token(), 800);
    assert_eq!(pool.deposit(account, 100, 0), Ok(()));
    assert_eq!(pool.borrow(AccountId::new(0, 0, 1), 10), Err(Error::Unauthorized));
    assert_eq!(pool.borrow(AccountId::new(1, 0, 1), 10), Ok(()));
    assert_eq!(pool.get_lender_info(AccountId::new(0, 9, 7)).deposit_amount, 0);
    assert_eq!(pool.get_lender_info(account).deposit_amount, 100);
}

#[test]
fn check_withdraw_reports_what_withdraw_would_do() {
    let mut pool = funded_pool(1_000);
    assert_eq!(pool.check_withdraw(alice(), 0), Err(Error::InvalidAmount));
    assert_eq!(pool.check_withdraw(bob(), 10), Err(Error::NotFound));
    assert_eq!(pool.check_withdraw(alice(), 1_001), Err(Error::InsufficientBalance));
    assert_eq!(pool.borrow(manager(), 600), Ok(()));
    assert_eq!(pool.check_withdraw(alice(), 401), Err(Error::InsufficientLiquidity));
    assert_eq!(pool.check_withdraw(alice(), 400), Ok(()));
    assert_eq!(pool.check_repay(manager(), 1, 1), Ok(()));
    // Checking changes nothing.
    assert_eq!(pool.total_liquidity, 1_000);
    assert_eq!(pool.total_borrowed, 600);
    assert_eq!(pool.get_lender_info(alice()).deposit_amount, 1_000);
}

#[test]
fn a_withdrawal_may_leave_the_pool_lent_out_beyond_the_cap() {
    let mut pool = funded_pool(100);
    assert_eq!(pool.borrow(manager(), 90), Ok(()));
    assert_eq!(pool.get_utilization_rate(), 9000);
    assert_eq!(pool.withdraw(alice(), 10), Ok(10));
    assert_eq!(pool.get_utilization_rate(), 10000);
    assert_eq!(pool.get_available_liquidity(), 0);
    // The cap binds the next borrow all the same.
    assert_eq!(pool.deposit(bob(), 5, 1), Ok(()));
    assert_eq!(pool.borrow(manager(), 1), Err(Error::MaxUtilizationExceeded));
    assert_invariants(&pool);
}
