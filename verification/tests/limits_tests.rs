use remittance_lending::account::AccountId;
use remittance_lending::lending_pool::{LenderEntry, LenderInfo, LendingPool};
use remittance_lending::loan_manager::{LoanManager, LoanStatus};
use remittance_lending::oracle_verifier::OracleVerifier;
use remittance_lending::remittance_nft::RemittanceNFT;
use soroban_sdk::Env;

/// A host vector with no months.
fn no_history() -> soroban_sdk::Vec<u64> {
    soroban_sdk::Vec::new(&Env::default())
}

fn id(key: u64) -> AccountId {
    AccountId::new(0, 0, key as u128)
}

fn pool() -> LendingPool {
    let mut pool = LendingPool::initialize(id(1), id(2), 800);
    assert_eq!(pool.deposit(id(10), 1_000_000, 0), Ok(()));
    assert_eq!(pool.deposit(id(11), 500_000, 0), Ok(()));
    assert_eq!(pool.borrow(id(1), 100_000), Ok(()));
    pool
}

fn active_loan() -> (LoanManager, RemittanceNFT, LendingPool) {
    let pool = pool();
    let mut nft = RemittanceNFT::new();
    assert_eq!(nft.initialize(id(4), id(1)), Ok(()));
    assert_eq!(nft.mint(id(20), 5_000, 95, 12, 60_000, no_history(), 0), 1);
    let mut manager = LoanManager::new(id(1));
    assert_eq!(manager.initialize(id(3), id(2), id(4), id(5)), Ok(()));
    assert_eq!(manager.request_loan(&nft, id(20), 1, 100_000, 12, 1_000), Ok(1));
    let mut pool = pool;
    assert!(manager.approve_loan(&mut nft, &mut pool, 1).is_ok());
    (manager, nft, pool)
}

#[test]
fn pools_built_by_operations_are_well_formed() {
    assert!(LendingPool::initialize(id(1), id(2), 0).is_well_formed());
    let mut pool = pool();
    assert!(pool.is_well_formed());
    assert_eq!(pool.repay(id(1), 150_000, 7), Ok(150_007));
    assert!(pool.is_well_formed());
    assert_eq!(pool.withdraw(id(10), 1_000_000), Ok(1_000_004));
    assert!(pool.is_well_formed());
}

#[test]
fn corrupted_pools_are_not_well_formed() {
    let mut broken = pool();
    broken.total_liquidity += 1;
    assert!(!broken.is_well_formed());

    let mut broken = pool();
    broken.total_borrowed = broken.total_liquidity + 1;
    assert!(!broken.is_well_formed());

    let mut broken = pool();
    broken.lenders.push(LenderEntry {
        lender: id(10),
        info: LenderInfo { deposit_amount: 0, deposit_timestamp: 0, earned_interest: 0, share_percentage: 0 },
    });
    assert!(!broken.is_well_formed());

    let mut broken = pool();
    broken.lenders[0].info.deposit_amount -= 2_000_000;
    broken.total_liquidity -= 2_000_000;
    assert!(!broken.is_well_formed());

    let mut broken = pool();
    broken.lenders[1].info.earned_interest = -1;
    assert!(!broken.is_well_formed());

    let mut broken = pool();
    broken.total_interest_earned = -1;
    assert!(!broken.is_well_formed());

    let mut broken = pool();
    broken.accumulated_interest_per_share = -1;
    assert!(!broken.is_well_formed());

    let mut broken = pool();
    broken.lenders[0].info.deposit_amount = i128::MAX;
    broken.lenders[1].info.deposit_amount = i128::MAX;
    assert!(!broken.is_well_formed());

    let mut broken = pool();
    broken.total_borrowed = i128::MIN;
    assert!(!broken.is_well_formed());
}

#[test]
fn deposit_limit_is_the_width_of_the_totals() {
    let pool = pool();
    assert!(pool.deposit_fits(1));
    assert!(pool.deposit_fits(i128::MAX - 1_500_000));
    assert!(!pool.deposit_fits(i128::MAX - 1_499_999));
    assert!(pool.deposit_fits(-5));
    let mut overpaid = pool;
    assert_eq!(overpaid.repay(id(1), 100_010, 0), Ok(100_010));
    assert_eq!(overpaid.total_borrowed, -10);
    assert!(overpaid.deposit_fits(i128::MAX - 1_500_010));
    assert!(!overpaid.deposit_fits(i128::MAX - 1_500_009));
}

#[test]
fn withdraw_limit_is_the_accrual_product() {
    let mut pool = pool();
    assert!(pool.withdraw_fits(id(10), 1));
    assert!(pool.withdraw_fits(id(99), 1));
    pool.accumulated_interest_per_share = i128::MAX / 1_000_000;
    assert!(pool.withdraw_fits(id(10), 1));
    pool.accumulated_interest_per_share = i128::MAX / 1_000_000 + 1;
    assert!(!pool.withdraw_fits(id(10), 1));
    assert!(pool.withdraw_fits(id(11), 1));
    pool.accumulated_interest_per_share = 1_000_000_000;
    // A million of interest is pending for the first lender.
    assert!(pool.withdraw_fits(id(10), i128::MAX - 1_000_000));
    assert!(!pool.withdraw_fits(id(10), i128::MAX - 999_999));
}

#[test]
fn repay_limit_covers_totals_and_accumulator() {
    let mut pool = pool();
    assert!(pool.repay_fits(100_000, 5_000));
    assert!(pool.repay_fits(i128::MAX - 1_400_000, 0));
    assert!(!pool.repay_fits(i128::MAX - 1_399_999, 0));
    let widest: i128 = (u128::MAX / 1_000_000_000) as i128;
    assert!(pool.repay_fits(0, widest));
    assert!(!pool.repay_fits(0, widest + 1));
    pool.total_interest_earned = i128::MAX - 10;
    assert!(pool.repay_fits(0, 10));
    assert!(!pool.repay_fits(0, 11));
    pool.total_interest_earned = 0;
    pool.accumulated_interest_per_share = i128::MAX - 1_000;
    // 1,500 of interest over 1,500,000 of liquidity is 1,000,000 per unit.
    assert!(!pool.repay_fits(0, 1_500));
    assert!(pool.repay_fits(0, 1));
    assert!(pool.repay_fits(7, 0));
}

#[test]
fn collateral_ledger_well_formedness_is_the_counter() {
    let mut nft = RemittanceNFT::new();
    assert!(nft.is_well_formed());
    nft.mint(id(1), 1, 1, 1, 1, no_history(), 1);
    assert!(nft.is_well_formed());
    nft.token_counter = 5;
    assert!(!nft.is_well_formed());
}

#[test]
fn appraisal_limit_is_each_product() {
    assert!(RemittanceNFT::collateral_value_fits(1_000, 90, 12));
    assert!(RemittanceNFT::collateral_value_fits(i128::MAX, 1, 1));
    assert!(!RemittanceNFT::collateral_value_fits(i128::MAX, 1, 2));
    assert!(!RemittanceNFT::collateral_value_fits(i128::MAX, 2, 1));
    assert!(RemittanceNFT::collateral_value_fits(i128::MAX / 100, 100, 1));
    assert!(RemittanceNFT::collateral_value_fits(i128::MIN, 1, 1));
    assert!(!RemittanceNFT::collateral_value_fits(i128::MIN, 100, 1));
    assert!(RemittanceNFT::collateral_value_fits(i128::MAX, 0, 0));
}

#[test]
fn schedule_limit_is_the_interest_product() {
    assert!(LoanManager::monthly_payment_fits(100_000, 1500, 12));
    assert!(!LoanManager::monthly_payment_fits(100_000, 1500, 0));
    assert!(LoanManager::monthly_payment_fits(i128::MAX / 18_000, 1500, 12));
    assert!(!LoanManager::monthly_payment_fits(i128::MAX / 18_000 + 1, 1500, 12));
    assert!(LoanManager::monthly_payment_fits(i128::MAX, 0, 12));
    assert!(!LoanManager::monthly_payment_fits(i128::MAX, 1, 1));
    assert!(LoanManager::monthly_payment_fits(-100_000, 4000, 24));
}

#[test]
fn loan_ledgers_built_by_operations_are_well_formed() {
    let (mut manager, mut nft, mut pool) = active_loan();
    assert!(manager.is_well_formed());
    assert!(manager.get_loan(1).unwrap().is_well_formed());
    assert!(manager.make_payment(&mut nft, &mut pool, 1, 9_583).is_ok());
    assert!(manager.is_well_formed());
    assert!(manager.mark_payment_missed(id(4), 1).is_ok());
    assert!(manager.is_well_formed());
    assert!(manager.make_payment(&mut nft, &mut pool, 1, 200_000).is_ok());
    assert_eq!(manager.get_loan(1).unwrap().status, LoanStatus::Repaid);
    assert!(manager.is_well_formed());
    assert!(pool.is_well_formed());
    assert!(nft.is_well_formed());
    assert!(LoanManager::new(id(1)).is_well_formed());
}

#[test]
fn corrupted_loan_ledgers_are_not_well_formed() {
    let (manager, _, _) = active_loan();
    let good = manager.get_loan(1).unwrap();

    let mut broken = good;
    broken.monthly_payment += 1;
    assert!(!broken.is_well_formed());

    let mut broken = good;
    broken.outstanding_balance = 0;
    assert!(!broken.is_well_formed());

    let mut broken = good;
    broken.payments_missed = 2;
    assert!(!broken.is_well_formed());

    let mut broken = good;
    broken.status = LoanStatus::Defaulted;
    assert!(!broken.is_well_formed());

    let mut broken = good;
    broken.status = LoanStatus::Repaid;
    assert!(!broken.is_well_formed());

    let mut broken = good;
    broken.status = LoanStatus::Pending;
    broken.outstanding_balance -= 1;
    assert!(!broken.is_well_formed());

    let mut broken = good;
    broken.duration_months = 0;
    assert!(!broken.is_well_formed());

    let (mut manager, _, _) = active_loan();
    manager.loans[0].loan_id = 2;
    assert!(!manager.is_well_formed());
    let (mut manager, _, _) = active_loan();
    manager.loan_counter = 2;
    assert!(!manager.is_well_formed());
}

#[test]
fn request_limit_covers_schedule_counter_and_due_date() {
    let (mut manager, nft, _) = active_loan();
    assert!(manager.request_fits(&nft, 1, 100_000, 12, 0));
    assert!(!manager.request_fits(&nft, 1, 100_000, 0, 0));
    assert!(!manager.request_fits(&nft, 1, i128::MAX, 12, 0));
    assert!(manager.request_fits(&nft, 1, 1, 1, u64::MAX - 2_592_000));
    assert!(!manager.request_fits(&nft, 1, 1, 1, u64::MAX - 2_591_999));
    manager.loan_counter = u64::MAX;
    assert!(!manager.request_fits(&nft, 1, 100_000, 12, 0));
}

#[test]
fn payment_limit_covers_the_record_and_the_pool() {
    let (mut manager, nft, mut pool) = active_loan();
    assert!(manager.payment_fits(1, 9_583));
    assert!(manager.make_payment_fits(&nft, &pool, 1, 9_583));
    assert!(manager.automatic_payment_fits(1, 12_000));
    assert!(manager.automatic_repayment_fits(&nft, &pool, id(4), 1, 12_000));
    // Unknown and inactive loans are refused before anything is computed.
    assert!(manager.make_payment_fits(&nft, &pool, 9, i128::MAX));
    assert!(manager.automatic_payment_fits(9, i128::MAX));

    pool.total_interest_earned = i128::MAX - 1_249;
    assert!(!manager.make_payment_fits(&nft, &pool, 1, 9_583));
    assert!(!manager.automatic_repayment_fits(&nft, &pool, id(4), 1, 12_000));
    // A caller whom the manager refuses never reaches the pool.
    assert!(manager.automatic_repayment_fits(&nft, &pool, id(99), 1, 12_000));
    pool.total_interest_earned = i128::MAX - 1_250;
    assert!(manager.make_payment_fits(&nft, &pool, 1, 9_583));

    manager.loans[0].total_repaid = i128::MAX - 9_582;
    assert!(!manager.payment_fits(1, 9_583));
    assert!(manager.payment_fits(1, 9_582));
    assert!(!manager.make_payment_fits(&nft, &pool, 1, 9_583));
    assert!(!manager.automatic_payment_fits(1, 12_000));
    assert!(manager.automatic_payment_fits(1, 9_000));
    manager.loans[0].total_repaid = 0;
    manager.loans[0].payments_made = u32::MAX;
    assert!(!manager.payment_fits(1, 1));
    manager.loans[0].payments_made = 0;
    manager.loans[0].next_payment_due = u64::MAX - 2_591_999;
    assert!(!manager.payment_fits(1, 1));
    manager.loans[0].next_payment_due = u64::MAX - 2_592_000;
    assert!(manager.payment_fits(1, 1));
}

#[test]
fn oracle_well_formedness_is_one_request_per_user() {
    let mut oracle = OracleVerifier::initialize(id(4), id(3), id(1), vec![id(30)]);
    assert!(oracle.is_well_formed());
    oracle.request_verification(id(20), soroban_sdk::String::from_str(&Env::default(), "wise"), soroban_sdk::String::from_str(&Env::default(), "a"), 1);
    oracle.request_verification(id(21), soroban_sdk::String::from_str(&Env::default(), "wise"), soroban_sdk::String::from_str(&Env::default(), "b"), 2);
    oracle.request_verification(id(20), soroban_sdk::String::from_str(&Env::default(), "paypal"), soroban_sdk::String::from_str(&Env::default(), "c"), 3);
    assert!(oracle.is_well_formed());
    assert_eq!(oracle.requests.len(), 2);
    oracle.requests[1].user = id(20);
    assert!(!oracle.is_well_formed());
}

#[test]
fn report_limit_covers_all_three_ledgers() {
    let (manager, mut nft, mut pool) = active_loan();
    let mut oracle = OracleVerifier::initialize(id(4), id(3), id(1), vec![id(30)]);
    assert_eq!(oracle.start_monitoring_loan(id(1), 1), Ok(()));
    assert!(oracle.report_remittance_fits(&nft, &manager, &pool, id(30), 1, 12_000, 1));
    nft.tokens[0].data.history_months = u32::MAX;
    assert!(!oracle.report_remittance_fits(&nft, &manager, &pool, id(30), 1, 12_000, 1));
    nft.tokens[0].data.history_months = 12;
    pool.total_interest_earned = i128::MAX;
    assert!(!oracle.report_remittance_fits(&nft, &manager, &pool, id(30), 1, 12_000, 1));
    // A report that the oracle refuses never reaches the pool.
    assert!(oracle.report_remittance_fits(&nft, &manager, &pool, id(31), 1, 12_000, 1));
    assert!(oracle.report_remittance_fits(&nft, &manager, &pool, id(30), 1, 12_000, 2));
}
