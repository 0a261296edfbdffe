//! The loan lifecycle manager: loan records and their state machine.
//!
//! A loan is requested against a credential, approved (which locks the
//! credential and draws the principal from the pool), paid down in instalments
//! that are split into interest and principal, and ends either repaid or, after
//! two missed payments, defaulted.
//!
//! An operation that touches several ledgers validates every step against all
//! of them before it changes any: it commits to all or to none.

use vstd::prelude::*;
use crate::account::AccountId;
use crate::error::Error;
use crate::math::{trunc_div, PAYMENT_PERIOD_SECS};
use crate::lending_pool::LendingPool;
use crate::remittance_nft::{RemittanceData, RemittanceNFT};

verus! {

/// Where a loan stands in its life. A loan moves from `Pending` to `Active`
/// and from there to `Repaid` or `Defaulted`, and never back.
#[derive(Clone, Copy, Debug, PartialEq, Eq, Structural)]
pub enum LoanStatus {
    Pending,
    Active,
    Repaid,
    Defaulted,
}

/// A loan record.
#[derive(Clone, Copy, Debug, PartialEq, Eq, Structural)]
pub struct Loan {
    pub loan_id: u64,
    pub borrower: AccountId,
    /// The credential that backs the loan.
    pub nft_collateral_id: u64,
    /// The principal.
    pub loan_amount: i128,
    /// The principal that is still owed.
    pub outstanding_balance: i128,
    /// Everything the borrower has paid, interest included.
    pub total_repaid: i128,
    /// The annual rate in basis points.
    pub interest_rate: u32,
    pub duration_months: u32,
    pub monthly_payment: i128,
    pub start_timestamp: u64,
    pub next_payment_due: u64,
    pub status: LoanStatus,
    pub payments_made: u32,
    pub payments_missed: u32,
}

/// A loan was approved and funded.
#[derive(Clone, Copy, Debug, PartialEq, Eq, Structural)]
pub struct LoanApprovedEvent {
    pub loan_id: u64,
}

/// A payment was made on a loan.
#[derive(Clone, Copy, Debug, PartialEq, Eq, Structural)]
pub struct PaymentMadeEvent {
    pub loan_id: u64,
    pub amount: i128,
}

/// A payment on a loan was missed; `missed_count` is the count after it.
#[derive(Clone, Copy, Debug, PartialEq, Eq, Structural)]
pub struct PaymentMissedEvent {
    pub loan_id: u64,
    pub missed_count: u32,
}

/// The loan ledger. Loans are numbered from 1 in the order in which they were
/// requested.
#[derive(Debug)]
pub struct LoanManager {
    /// The identity under which the manager acts towards the other ledgers.
    pub address: AccountId,
    /// The collateral ledger; none until the manager is initialized.
    pub nft_contract: Option<AccountId>,
    pub pool_contract: Option<AccountId>,
    /// The only identity that may report remittances and missed payments.
    pub oracle_contract: Option<AccountId>,
    pub usdc_token: Option<AccountId>,
    /// The number of loans requested so far.
    pub loan_counter: u64,
    pub loans: Vec<Loan>,
}

/// The annual rate, in basis points, that a reliability score earns.
pub open spec fn interest_rate_for(score: int) -> int {
    if score >= 90 {
        1500
    } else if score >= 80 {
        2000
    } else if score >= 70 {
        3000
    } else {
        4000
    }
}

/// The flat interest on `principal` at `apr` basis points a year over
/// `months`, rounded towards zero.
pub open spec fn total_interest_of(principal: int, apr: int, months: int) -> int {
    trunc_div(principal * apr * months, 120000)
}

/// The instalment that repays `principal` with its flat interest in `months`
/// equal parts, rounded towards zero.
pub open spec fn monthly_payment_of(principal: int, apr: int, months: int) -> int {
    trunc_div(principal + total_interest_of(principal, apr, months), months)
}

/// The machine limits of a payment schedule: there is at least one month, and
/// the interest product and the total to repay fit in 128 bits.
pub open spec fn monthly_payment_in_range(principal: int, apr: int, months: int) -> bool {
    &&& months > 0
    &&& i128::MIN <= principal * apr * months <= i128::MAX
    &&& i128::MIN <= principal + total_interest_of(principal, apr, months) <= i128::MAX
}

/// One month's interest on `outstanding` at `apr` basis points a year: a
/// twelfth of the rate, rounded down, applied to what is owed now.
pub open spec fn interest_portion_of(outstanding: int, apr: int) -> int {
    trunc_div(outstanding * (apr / 12), 10000)
}

/// What of a payment goes to principal once the interest is covered.
pub open spec fn principal_portion_of(amount: int, interest: int) -> int {
    if amount > interest {
        amount - interest
    } else {
        0
    }
}

/// What of a remittance goes to the loan: the instalment, or all of the
/// remittance if that is less.
pub open spec fn automatic_payment_of(remittance: int, monthly_payment: int) -> int {
    if remittance >= monthly_payment {
        monthly_payment
    } else {
        remittance
    }
}

/// The numbers of the loans among `loans` that `borrower` requested, in the
/// order in which they were requested.
pub open spec fn loan_ids_of(loans: Seq<Loan>, borrower: AccountId) -> Seq<u64>
    decreases loans.len(),
{
    if loans.len() == 0 {
        Seq::<u64>::empty()
    } else if loans.last().borrower == borrower {
        loan_ids_of(loans.drop_last(), borrower).push(loans.last().loan_id)
    } else {
        loan_ids_of(loans.drop_last(), borrower)
    }
}

proof fn lemma_product_in_range(principal: int, apr: int, months: int)
    by (nonlinear_arith)
    requires
        0 <= apr,
        1 <= months,
        i128::MIN <= principal * apr * months <= i128::MAX,
    ensures
        i128::MIN <= principal * apr <= i128::MAX,
{
}

/// The instalment on a positive principal is not negative.
pub proof fn lemma_monthly_payment_nonnegative(principal: int, apr: int, months: int)
    requires
        principal > 0,
        apr >= 0,
        months > 0,
    ensures
        total_interest_of(principal, apr, months) >= 0,
        monthly_payment_of(principal, apr, months) >= 0,
{
    assert(principal * apr * months >= 0) by (nonlinear_arith)
        requires
            principal > 0,
            apr >= 0,
            months > 0,
    ;
    let interest = total_interest_of(principal, apr, months);
    assert(interest >= 0);
    assert((principal + interest) / months >= 0) by (nonlinear_arith)
        requires
            principal + interest >= 0,
            months > 0,
    ;
}

/// A month's interest on a debt is not negative, and a payment's principal
/// part is neither negative nor more than the payment.
pub proof fn lemma_portions_nonnegative(outstanding: int, apr: int, amount: int)
    requires
        outstanding >= 0,
        apr >= 0,
    ensures
        interest_portion_of(outstanding, apr) >= 0,
        principal_portion_of(amount, interest_portion_of(outstanding, apr)) >= 0,
        amount >= 0 ==> principal_portion_of(amount, interest_portion_of(outstanding, apr))
            <= amount,
{
    let rate = apr / 12;
    assert(outstanding * rate >= 0) by (nonlinear_arith)
        requires
            outstanding >= 0,
            rate >= 0,
    ;
}

impl Loan {
    /// What holds of every loan record: its schedule can be computed, and its
    /// instalment follows from its terms;
    /// a pending loan owes its whole principal; an active loan owes something
    /// and has missed at most one payment; a repaid loan owes nothing; a loan
    /// is defaulted exactly when two payments were missed.
    pub open spec fn wf(self) -> bool {
        &&& monthly_payment_in_range(
            self.loan_amount as int,
            self.interest_rate as int,
            self.duration_months as int,
        )
        &&& self.monthly_payment == monthly_payment_of(
            self.loan_amount as int,
            self.interest_rate as int,
            self.duration_months as int,
        )
        &&& self.status == LoanStatus::Pending ==> self.outstanding_balance == self.loan_amount
        &&& self.status != LoanStatus::Pending ==> self.loan_amount > 0
        &&& self.status == LoanStatus::Active ==> self.outstanding_balance > 0
        &&& self.status == LoanStatus::Repaid ==> self.outstanding_balance <= 0
        &&& self.payments_missed >= 2 <==> self.status == LoanStatus::Defaulted
    }

    /// Whether the loan has ended: it is repaid or defaulted.
    pub open spec fn is_terminal(self) -> bool {
        self.status == LoanStatus::Repaid || self.status == LoanStatus::Defaulted
    }

    /// Whether the record is well formed.
    pub fn is_well_formed(&self) -> (ok: bool)
        ensures
            ok == self.wf(),
    {
        if !LoanManager::monthly_payment_fits(
            self.loan_amount,
            self.interest_rate,
            self.duration_months,
        ) {
            return false;
        }
        let payment: i128 = LoanManager::calculate_monthly_payment(
            self.loan_amount,
            self.interest_rate,
            self.duration_months,
        );
        if self.monthly_payment != payment {
            return false;
        }
        if (self.payments_missed >= 2) != (self.status == LoanStatus::Defaulted) {
            return false;
        }
        match self.status {
            LoanStatus::Pending => self.outstanding_balance == self.loan_amount,
            LoanStatus::Active => self.loan_amount > 0 && self.outstanding_balance > 0,
            LoanStatus::Repaid => self.loan_amount > 0 && self.outstanding_balance <= 0,
            LoanStatus::Defaulted => self.loan_amount > 0,
        }
    }
}

impl LoanManager {
    /// What holds of the ledger between operations: the counter is the number
    /// of loans, the loans are numbered in order from 1, and every record is
    /// well formed.
    pub open spec fn wf(self) -> bool {
        &&& self.loans@.len() == self.loan_counter
        &&& forall|k: int|
            0 <= k < self.loans@.len() ==> (#[trigger] self.loans@[k]).loan_id == k + 1
                && self.loans@[k].wf()
    }

    /// Whether a loan is numbered `loan_id`.
    pub open spec fn has_loan(self, loan_id: u64) -> bool {
        1 <= loan_id <= self.loan_counter
    }

    /// The record of loan `loan_id`.
    pub open spec fn loan(self, loan_id: u64) -> Loan {
        self.loans@[loan_id - 1]
    }

    /// The numbers of the loans that `borrower` requested, oldest first.
    pub open spec fn borrower_loans(self, borrower: AccountId) -> Seq<u64> {
        loan_ids_of(self.loans@, borrower)
    }

    /// Both ledgers have the same identity and the same registered peers.
    pub open spec fn same_registry(self, other: LoanManager) -> bool {
        &&& self.address == other.address
        &&& self.nft_contract == other.nft_contract
        &&& self.pool_contract == other.pool_contract
        &&& self.oracle_contract == other.oracle_contract
        &&& self.usdc_token == other.usdc_token
    }

    /// The ledger `post` is `self` with the record of loan `loan_id` replaced
    /// by `record`.
    pub open spec fn loan_replaced(self, post: LoanManager, loan_id: u64, record: Loan) -> bool {
        &&& post.same_registry(self)
        &&& post.loan_counter == self.loan_counter
        &&& post.loans@ == self.loans@.update(loan_id - 1, record)
    }

    /// Why a loan request is refused, if it is. The checks are made in this
    /// order.
    pub open spec fn request_error(nft: RemittanceNFT, borrower: AccountId, nft_id: u64) -> Option<
        Error,
    > {
        if !nft.has_token(nft_id) {
            Some(Error::NotFound)
        } else if nft.data_of(nft_id).owner != borrower {
            Some(Error::OwnershipMismatch)
        } else {
            None
        }
    }

    /// The machine limits of a loan request: the schedule can be computed, and
    /// the loan counter and the first due date do not overflow.
    pub open spec fn request_in_range(
        self,
        nft: RemittanceNFT,
        nft_id: u64,
        amount: i128,
        duration_months: u32,
        now: u64,
    ) -> bool {
        &&& monthly_payment_in_range(
            amount as int,
            interest_rate_for(nft.data_of(nft_id).reliability_score as int),
            duration_months as int,
        )
        &&& self.loan_counter < u64::MAX
        &&& now + PAYMENT_PERIOD_SECS <= u64::MAX
    }

    /// The record of a loan as it is requested.
    pub open spec fn requested_loan(
        loan_id: u64,
        collateral: RemittanceData,
        borrower: AccountId,
        nft_id: u64,
        amount: i128,
        duration_months: u32,
        now: u64,
    ) -> Loan {
        let apr = interest_rate_for(collateral.reliability_score as int);
        Loan {
            loan_id,
            borrower,
            nft_collateral_id: nft_id,
            loan_amount: amount,
            outstanding_balance: amount,
            total_repaid: 0,
            interest_rate: apr as u32,
            duration_months,
            monthly_payment: monthly_payment_of(amount as int, apr, duration_months as int) as i128,
            start_timestamp: now,
            next_payment_due: (now + PAYMENT_PERIOD_SECS) as u64,
            status: LoanStatus::Pending,
            payments_made: 0,
            payments_missed: 0,
        }
    }

    /// Why an approval is refused, if it is: the loan is checked first, then
    /// the locking of its collateral, then the borrow from the pool.
    pub open spec fn approve_error(self, nft: RemittanceNFT, pool: LendingPool, loan_id: u64)
        -> Option<Error> {
        if !self.has_loan(loan_id) {
            Some(Error::NotFound)
        } else if self.loan(loan_id).status != LoanStatus::Pending {
            Some(Error::InvalidState)
        } else if nft.stake_error(self.address, self.loan(loan_id).nft_collateral_id) is Some {
            nft.stake_error(self.address, self.loan(loan_id).nft_collateral_id)
        } else {
            pool.borrow_error(self.address, self.loan(loan_id).loan_amount)
        }
    }

    /// The interest part of a payment on loan `loan_id` made now.
    pub open spec fn interest_due(self, loan_id: u64) -> int {
        interest_portion_of(
            self.loan(loan_id).outstanding_balance as int,
            self.loan(loan_id).interest_rate as int,
        )
    }

    /// The principal part of a payment of `amount` on loan `loan_id` made now.
    pub open spec fn principal_due(self, loan_id: u64, amount: i128) -> int {
        principal_portion_of(amount as int, self.interest_due(loan_id))
    }

    /// Whether a payment of `amount` on loan `loan_id` repays it.
    pub open spec fn pays_off(self, loan_id: u64, amount: i128) -> bool {
        self.loan(loan_id).outstanding_balance - self.principal_due(loan_id, amount) <= 0
    }

    /// Why a payment is refused, if it is: the loan is checked first, then, if
    /// the payment repays the loan, the release of its collateral, then the
    /// repayment to the pool.
    pub open spec fn payment_error(
        self,
        nft: RemittanceNFT,
        pool: LendingPool,
        loan_id: u64,
        amount: i128,
    ) -> Option<Error> {
        if !self.has_loan(loan_id) {
            Some(Error::NotFound)
        } else if self.loan(loan_id).status != LoanStatus::Active {
            Some(Error::InvalidState)
        } else if self.pays_off(loan_id, amount) && nft.unstake_error(
            self.address,
            self.loan(loan_id).nft_collateral_id,
        ) is Some {
            nft.unstake_error(self.address, self.loan(loan_id).nft_collateral_id)
        } else {
            pool.repay_error(
                self.address,
                self.principal_due(loan_id, amount) as i128,
                self.interest_due(loan_id) as i128,
            )
        }
    }

    /// The machine limits of a payment on the loan's own record: the interest
    /// product, the total repaid, the count of payments and the next due date
    /// do not overflow.
    pub open spec fn payment_in_range(self, loan_id: u64, amount: i128) -> bool {
        let loan = self.loan(loan_id);
        &&& i128::MIN <= loan.outstanding_balance * (loan.interest_rate / 12) <= i128::MAX
        &&& i128::MIN <= loan.total_repaid + amount <= i128::MAX
        &&& loan.payments_made < u32::MAX
        &&& loan.next_payment_due + PAYMENT_PERIOD_SECS <= u64::MAX
    }

    /// The record of loan `loan_id` after a payment of `amount`.
    pub open spec fn paid_loan(self, loan_id: u64, amount: i128) -> Loan {
        let loan = self.loan(loan_id);
        Loan {
            total_repaid: (loan.total_repaid + amount) as i128,
            outstanding_balance: (loan.outstanding_balance - self.principal_due(
                loan_id,
                amount,
            )) as i128,
            payments_made: (loan.payments_made + 1) as u32,
            next_payment_due: (loan.next_payment_due + PAYMENT_PERIOD_SECS) as u64,
            status: if self.pays_off(loan_id, amount) {
                LoanStatus::Repaid
            } else {
                LoanStatus::Active
            },
            ..loan
        }
    }

    /// What a successful payment of `amount` on loan `loan_id` makes of the
    /// three ledgers: the loan record is paid down, the collateral is released
    /// if and only if the loan is thereby repaid, and the pool receives the
    /// principal part and the interest part.
    pub open spec fn paid(
        self,
        nft: RemittanceNFT,
        pool: LendingPool,
        post: LoanManager,
        post_nft: RemittanceNFT,
        post_pool: LendingPool,
        loan_id: u64,
        amount: i128,
    ) -> bool {
        &&& self.loan_replaced(post, loan_id, self.paid_loan(loan_id, amount))
        &&& if self.pays_off(loan_id, amount) {
            nft.unstaked(post_nft, self.loan(loan_id).nft_collateral_id)
        } else {
            post_nft == nft
        }
        &&& pool.repaid(
            post_pool,
            self.principal_due(loan_id, amount) as i128,
            self.interest_due(loan_id) as i128,
        )
    }

    /// Why an automatic repayment is refused, if it is: the caller is checked
    /// first, then the loan, then the payment itself.
    pub open spec fn automatic_repayment_error(
        self,
        nft: RemittanceNFT,
        pool: LendingPool,
        caller: AccountId,
        loan_id: u64,
        remittance_amount: i128,
    ) -> Option<Error> {
        if self.oracle_contract != Some(caller) {
            Some(Error::Unauthorized)
        } else if !self.has_loan(loan_id) {
            Some(Error::NotFound)
        } else {
            self.payment_error(nft, pool, loan_id, self.automatic_payment(loan_id, remittance_amount))
        }
    }

    /// What of a remittance goes to loan `loan_id`.
    pub open spec fn automatic_payment(self, loan_id: u64, remittance_amount: i128) -> i128 {
        automatic_payment_of(
            remittance_amount as int,
            self.loan(loan_id).monthly_payment as int,
        ) as i128
    }

    /// Why a report of a missed payment is refused, if it is. The checks are
    /// made in this order.
    pub open spec fn missed_error(self, caller: AccountId, loan_id: u64) -> Option<Error> {
        if self.oracle_contract != Some(caller) {
            Some(Error::Unauthorized)
        } else if !self.has_loan(loan_id) {
            Some(Error::NotFound)
        } else if self.loan(loan_id).status != LoanStatus::Active {
            Some(Error::InvalidState)
        } else {
            None
        }
    }

    /// The record of loan `loan_id` after one more missed payment: the second
    /// one defaults the loan.
    pub open spec fn missed_loan(self, loan_id: u64) -> Loan {
        let loan = self.loan(loan_id);
        Loan {
            payments_missed: (loan.payments_missed + 1) as u32,
            status: if loan.payments_missed + 1 >= 2 {
                LoanStatus::Defaulted
            } else {
                loan.status
            },
            ..loan
        }
    }

    /// A manager that acts as `address`, with no loans and no registered
    /// peers.
    pub fn new(address: AccountId) -> (manager: LoanManager)
        ensures
            manager.wf(),
            manager.address == address,
            manager.nft_contract is None,
            manager.pool_contract is None,
            manager.oracle_contract is None,
            manager.usdc_token is None,
            manager.loan_counter == 0,
    {
        LoanManager {
            address,
            nft_contract: None,
            pool_contract: None,
            oracle_contract: None,
            usdc_token: None,
            loan_counter: 0,
            loans: Vec::new(),
        }
    }

    /// Registers the collateral ledger, the pool, the oracle and the asset.
    /// Fails with `AlreadyInitialized` if a collateral ledger is registered
    /// already.
    pub fn initialize(
        &mut self,
        nft_contract: AccountId,
        pool_contract: AccountId,
        oracle_contract: AccountId,
        usdc_token: AccountId,
    ) -> (result: Result<(), Error>)
        ensures
            old(self).wf() ==> final(self).wf(),
            match result {
                Ok(_) => {
                    &&& old(self).nft_contract is None
                    &&& final(self).address == old(self).address
                    &&& final(self).nft_contract == Some(nft_contract)
                    &&& final(self).pool_contract == Some(pool_contract)
                    &&& final(self).oracle_contract == Some(oracle_contract)
                    &&& final(self).usdc_token == Some(usdc_token)
                    &&& final(self).loan_counter == 0
                    &&& final(self).loans@.len() == 0
                },
                Err(e) => e == Error::AlreadyInitialized && old(self).nft_contract is Some
                    && *final(self) == *old(self),
            },
    {
        if self.nft_contract.is_some() {
            return Err(Error::AlreadyInitialized);
        }
        self.nft_contract = Some(nft_contract);
        self.pool_contract = Some(pool_contract);
        self.oracle_contract = Some(oracle_contract);
        self.usdc_token = Some(usdc_token);
        self.loan_counter = 0;
        self.loans = Vec::new();
        Ok(())
    }

    /// Where loan `loan_id` stands among the loans.
    fn slot_of(&self, loan_id: u64) -> (slot: Option<usize>)
        requires
            self.wf(),
        ensures
            match slot {
                Some(i) => self.has_loan(loan_id) && i == loan_id - 1,
                None => !self.has_loan(loan_id),
            },
    {
        let count: usize = self.loans.len();
        if loan_id < 1 || loan_id > self.loan_counter {
            None
        } else {
            assert(loan_id - 1 < count);
            Some((loan_id - 1) as usize)
        }
    }

    /// Where the existing loan `loan_id` stands among the loans.
    fn slot_of_existing(&self, loan_id: u64) -> (i: usize)
        requires
            self.wf(),
            self.has_loan(loan_id),
        ensures
            i == loan_id - 1,
            i < self.loans@.len(),
    {
        let count: usize = self.loans.len();
        assert(loan_id - 1 < count);
        (loan_id - 1) as usize
    }

    /// Whether `caller` is the registered oracle.
    fn is_oracle(&self, caller: AccountId) -> (yes: bool)
        ensures
            yes == (self.oracle_contract == Some(caller)),
    {
        match self.oracle_contract {
            Some(oracle) => oracle == caller,
            None => false,
        }
    }

    /// The annual rate, in basis points, for a collateral with the given
    /// reliability score: 1500 from 90 up, 2000 from 80, 3000 from 70, and 4000
    /// below.
    pub fn calculate_interest_rate(reliability_score: u32) -> (apr: u32)
        ensures
            apr == interest_rate_for(reliability_score as int),
    {
        if reliability_score >= 90 {
            1500
        } else if reliability_score >= 80 {
            2000
        } else if reliability_score >= 70 {
            3000
        } else {
            4000
        }
    }

    /// The instalment of a loan of `principal` at `annual_rate_bps` over
    /// `months`: flat interest, not compounded, in equal parts. The schedule
    /// must stay within the machine limits, which `monthly_payment_fits` tests.
    pub fn calculate_monthly_payment(principal: i128, annual_rate_bps: u32, months: u32) -> (payment:
        i128)
        requires
            monthly_payment_in_range(principal as int, annual_rate_bps as int, months as int),
        ensures
            payment == monthly_payment_of(principal as int, annual_rate_bps as int, months as int),
    {
        proof {
            lemma_product_in_range(principal as int, annual_rate_bps as int, months as int);
        }
        let total_interest: i128 = (principal * (annual_rate_bps as i128) * (months as i128)) / (12
            * 10000);
        let total_repayment: i128 = principal + total_interest;
        total_repayment / (months as i128)
    }

    /// The interest part of a payment: one month's interest on what is owed
    /// now. The product of balance and monthly rate must fit in 128 bits.
    pub fn calculate_interest_portion(outstanding: i128, annual_rate_bps: u32) -> (interest: i128)
        requires
            i128::MIN <= outstanding * (annual_rate_bps / 12) <= i128::MAX,
        ensures
            interest == interest_portion_of(outstanding as int, annual_rate_bps as int),
    {
        let monthly_rate_bps: u32 = annual_rate_bps / 12;
        (outstanding * (monthly_rate_bps as i128)) / 10000
    }

    /// Whether a payment of `amount` on loan `loan_id` would be accepted, and
    /// if not, why. No ledger is changed.
    pub fn check_payment(&self, nft: &RemittanceNFT, pool: &LendingPool, loan_id: u64, amount: i128)
        -> (result: Result<(), Error>)
        requires
            self.wf(),
            nft.wf(),
            self.has_loan(loan_id) && self.loan(loan_id).status == LoanStatus::Active
                ==> self.payment_in_range(loan_id, amount),
        ensures
            match result {
                Ok(_) => self.payment_error(*nft, *pool, loan_id, amount) is None,
                Err(e) => self.payment_error(*nft, *pool, loan_id, amount) == Some(e),
            },
    {
        let i: usize = match self.slot_of(loan_id) {
            Some(i) => i,
            None => {
                return Err(Error::NotFound);
            },
        };
        let loan: Loan = self.loans[i];
        if loan.status != LoanStatus::Active {
            return Err(Error::InvalidState);
        }
        let (interest_portion, principal_portion) = self.split_payment(i, amount);
        if loan.outstanding_balance - principal_portion <= 0 {
            match nft.check_unstake(self.address, loan.nft_collateral_id) {
                Ok(_) => {},
                Err(e) => {
                    return Err(e);
                },
            }
        }
        pool.check_repay(self.address, principal_portion, interest_portion)
    }

    /// Whether `caller` may apply a remittance of `remittance_amount` to loan
    /// `loan_id`, and if not, why. No ledger is changed.
    pub fn check_automatic_repayment(
        &self,
        nft: &RemittanceNFT,
        pool: &LendingPool,
        caller: AccountId,
        loan_id: u64,
        remittance_amount: i128,
    ) -> (result: Result<(), Error>)
        requires
            self.wf(),
            nft.wf(),
            self.has_loan(loan_id) && self.loan(loan_id).status == LoanStatus::Active
                ==> self.payment_in_range(
                loan_id,
                self.automatic_payment(loan_id, remittance_amount),
            ),
        ensures
            match result {
                Ok(_) => self.automatic_repayment_error(
                    *nft,
                    *pool,
                    caller,
                    loan_id,
                    remittance_amount,
                ) is None,
                Err(e) => self.automatic_repayment_error(
                    *nft,
                    *pool,
                    caller,
                    loan_id,
                    remittance_amount,
                ) == Some(e),
            },
    {
        if !self.is_oracle(caller) {
            return Err(Error::Unauthorized);
        }
        let i: usize = match self.slot_of(loan_id) {
            Some(i) => i,
            None => {
                return Err(Error::NotFound);
            },
        };
        let payment_amount: i128 = self.automatic_payment_amount(i, remittance_amount);
        self.check_payment(nft, pool, loan_id, payment_amount)
    }

    /// Whether `caller` may report a missed payment on loan `loan_id`, and if
    /// not, why. The ledger is not changed.
    pub fn check_payment_missed(&self, caller: AccountId, loan_id: u64) -> (result: Result<
        (),
        Error,
    >)
        requires
            self.wf(),
        ensures
            match result {
                Ok(_) => self.missed_error(caller, loan_id) is None,
                Err(e) => self.missed_error(caller, loan_id) == Some(e),
            },
    {
        if !self.is_oracle(caller) {
            return Err(Error::Unauthorized);
        }
        match self.slot_of(loan_id) {
            Some(i) => {
                if self.loans[i].status != LoanStatus::Active {
                    Err(Error::InvalidState)
                } else {
                    Ok(())
                }
            },
            None => Err(Error::NotFound),
        }
    }

    /// The interest part and the principal part of a payment of `amount` on
    /// the active loan in slot `i`.
    fn split_payment(&self, i: usize, amount: i128) -> (parts: (i128, i128))
        requires
            self.wf(),
            i < self.loans@.len(),
            self.loans@[i as int].status == LoanStatus::Active,
            self.payment_in_range((i + 1) as u64, amount),
        ensures
            parts.0 == self.interest_due((i + 1) as u64),
            parts.1 == self.principal_due((i + 1) as u64, amount),
            parts.0 >= 0,
            parts.1 >= 0,
    {
        let loan: Loan = self.loans[i];
        proof {
            lemma_portions_nonnegative(
                loan.outstanding_balance as int,
                loan.interest_rate as int,
                amount as int,
            );
            let rate = loan.interest_rate as int / 12;
            assert(loan.outstanding_balance * rate >= 0) by (nonlinear_arith)
                requires
                    loan.outstanding_balance > 0,
                    rate >= 0,
            ;
        }
        let interest_portion: i128 = Self::calculate_interest_portion(
            loan.outstanding_balance,
            loan.interest_rate,
        );
        let principal_portion: i128 = if amount > interest_portion {
            amount - interest_portion
        } else {
            0
        };
        (interest_portion, principal_portion)
    }

    /// What of a remittance goes to the loan in slot `i`.
    fn automatic_payment_amount(&self, i: usize, remittance_amount: i128) -> (payment: i128)
        requires
            self.wf(),
            i < self.loans@.len(),
        ensures
            payment == self.automatic_payment((i + 1) as u64, remittance_amount),
    {
        let monthly_payment: i128 = self.loans[i].monthly_payment;
        if remittance_amount >= monthly_payment {
            monthly_payment
        } else {
            remittance_amount
        }
    }

    /// Records a request by `borrower` for a loan of `amount` over
    /// `duration_months` against credential `nft_id`, and returns the loan's
    /// number. The loan is pending until it is approved.
    ///
    /// Fails with `NotFound` if there is no such credential and with
    /// `OwnershipMismatch` if it is not the borrower's.
    ///
    /// A request that is not refused must stay within the machine limits,
    /// which `request_fits` tests; in particular the loan runs for at least one
    /// month.
    pub fn request_loan(
        &mut self,
        nft: &RemittanceNFT,
        borrower: AccountId,
        nft_id: u64,
        amount: i128,
        duration_months: u32,
        now: u64,
    ) -> (result: Result<u64, Error>)
        requires
            old(self).wf(),
            nft.wf(),
            Self::request_error(*nft, borrower, nft_id) is None ==> old(self).request_in_range(
                *nft,
                nft_id,
                amount,
                duration_months,
                now,
            ),
        ensures
            final(self).wf(),
            match result {
                Ok(loan_id) => {
                    &&& Self::request_error(*nft, borrower, nft_id) is None
                    &&& loan_id == old(self).loan_counter + 1
                    &&& final(self).same_registry(*old(self))
                    &&& final(self).loan_counter == loan_id
                    &&& final(self).loans@ == old(self).loans@.push(
                        Self::requested_loan(
                            loan_id,
                            nft.data_of(nft_id),
                            borrower,
                            nft_id,
                            amount,
                            duration_months,
                            now,
                        ),
                    )
                    &&& final(self).borrower_loans(borrower) == old(self).borrower_loans(
                        borrower,
                    ).push(loan_id)
                    &&& forall|other: AccountId|
                        other != borrower ==> final(self).borrower_loans(other) == old(
                            self,
                        ).borrower_loans(other)
                },
                Err(e) => Self::request_error(*nft, borrower, nft_id) == Some(e) && *final(self)
                    == *old(self),
            },
    {
        let collateral: RemittanceData = match nft.get_nft_data(nft_id) {
            Ok(data) => data,
            Err(e) => {
                return Err(e);
            },
        };
        if collateral.owner != borrower {
            return Err(Error::OwnershipMismatch);
        }
        let interest_rate: u32 = Self::calculate_interest_rate(collateral.reliability_score);
        let monthly_payment: i128 = Self::calculate_monthly_payment(
            amount,
            interest_rate,
            duration_months,
        );
        let counter: u64 = self.loan_counter + 1;
        let loan = Loan {
            loan_id: counter,
            borrower,
            nft_collateral_id: nft_id,
            loan_amount: amount,
            outstanding_balance: amount,
            total_repaid: 0,
            interest_rate,
            duration_months,
            monthly_payment,
            start_timestamp: now,
            next_payment_due: now + PAYMENT_PERIOD_SECS,
            status: LoanStatus::Pending,
            payments_made: 0,
            payments_missed: 0,
        };
        proof {
            let before = self.loans@;
            assert(before.push(loan).drop_last() =~= before);
            assert forall|other: AccountId| other != borrower implies loan_ids_of(
                before.push(loan),
                other,
            ) == loan_ids_of(before, other) by {}
        }
        self.loans.push(loan);
        self.loan_counter = counter;
        Ok(counter)
    }

    /// Approves and funds loan `loan_id`: locks its collateral, draws its
    /// principal from the pool, and makes the loan active. The caller moves
    /// the principal from the pool to the borrower.
    ///
    /// Fails with `NotFound` if there is no such loan, with `InvalidState`
    /// unless it is pending, with the collateral ledger's error if the
    /// collateral cannot be locked, and with the pool's error if the principal
    /// cannot be borrowed. On failure neither the loan nor the collateral nor
    /// the pool has changed.
    pub fn approve_loan(&mut self, nft: &mut RemittanceNFT, pool: &mut LendingPool, loan_id: u64)
        -> (result: Result<LoanApprovedEvent, Error>)
        requires
            old(self).wf(),
            old(nft).wf(),
            old(pool).wf(),
        ensures
            final(self).wf(),
            final(nft).wf(),
            final(pool).wf(),
            match result {
                Ok(event) => {
                    &&& old(self).approve_error(*old(nft), *old(pool), loan_id) is None
                    &&& event.loan_id == loan_id
                    &&& old(self).loan_replaced(
                        *final(self),
                        loan_id,
                        (Loan { status: LoanStatus::Active, ..old(self).loan(loan_id) }),
                    )
                    &&& old(nft).staked(
                        *final(nft),
                        old(self).loan(loan_id).nft_collateral_id,
                        loan_id,
                    )
                    &&& old(pool).borrowed(*final(pool), old(self).loan(loan_id).loan_amount)
                    &&& final(pool).utilization() <= final(pool).max_utilization
                },
                Err(e) => {
                    &&& old(self).approve_error(*old(nft), *old(pool), loan_id) == Some(e)
                    &&& *final(self) == *old(self)
                    &&& *final(nft) == *old(nft)
                    &&& *final(pool) == *old(pool)
                },
            },
    {
        let i: usize = match self.slot_of(loan_id) {
            Some(i) => i,
            None => {
                return Err(Error::NotFound);
            },
        };
        let loan: Loan = self.loans[i];
        if loan.status != LoanStatus::Pending {
            return Err(Error::InvalidState);
        }
        match nft.check_stake(self.address, loan.nft_collateral_id) {
            Ok(_) => {},
            Err(e) => {
                return Err(e);
            },
        }
        match pool.check_borrow(self.address, loan.loan_amount) {
            Ok(_) => {},
            Err(e) => {
                return Err(e);
            },
        }
        let locked = nft.stake_nft(self.address, loan.nft_collateral_id, loan_id);
        let drawn = pool.borrow(self.address, loan.loan_amount);
        assert(locked is Ok && drawn is Ok);
        proof {
            lemma_monthly_payment_nonnegative(
                loan.loan_amount as int,
                loan.interest_rate as int,
                loan.duration_months as int,
            );
        }
        self.loans[i].status = LoanStatus::Active;
        Ok(LoanApprovedEvent { loan_id })
    }

    /// Takes a payment of `amount` on loan `loan_id`. The payment covers one
    /// month's interest on what is owed now; the rest reduces the principal.
    /// A loan whose principal is thereby paid is repaid, and its collateral is
    /// released. The pool always receives both parts of the payment. The
    /// caller moves `amount` from the borrower to the pool.
    ///
    /// Fails with `NotFound` if there is no such loan, with `InvalidState`
    /// unless it is active, with the collateral ledger's error if the
    /// collateral of a repaid loan cannot be released, and with the pool's error
    /// if it refuses the repayment. On failure none of the three ledgers has
    /// changed.
    ///
    /// A payment on an active loan must stay within the machine limits, which
    /// `make_payment_fits` tests.
    pub fn make_payment(
        &mut self,
        nft: &mut RemittanceNFT,
        pool: &mut LendingPool,
        loan_id: u64,
        amount: i128,
    ) -> (result: Result<PaymentMadeEvent, Error>)
        requires
            old(self).wf(),
            old(nft).wf(),
            old(pool).wf(),
            old(self).has_loan(loan_id) && old(self).loan(loan_id).status == LoanStatus::Active
                ==> old(self).payment_in_range(loan_id, amount),
            old(self).payment_error(*old(nft), *old(pool), loan_id, amount) is None ==> old(
                pool,
            ).repay_in_range(
                old(self).principal_due(loan_id, amount) as i128,
                old(self).interest_due(loan_id) as i128,
            ),
        ensures
            final(self).wf(),
            final(nft).wf(),
            final(pool).wf(),
            match result {
                Ok(event) => {
                    &&& old(self).payment_error(*old(nft), *old(pool), loan_id, amount) is None
                    &&& event == (PaymentMadeEvent { loan_id, amount })
                    &&& old(self).paid(
                        *old(nft),
                        *old(pool),
                        *final(self),
                        *final(nft),
                        *final(pool),
                        loan_id,
                        amount,
                    )
                    &&& final(self).loan(loan_id).outstanding_balance <= old(self).loan(
                        loan_id,
                    ).outstanding_balance
                },
                Err(e) => {
                    &&& old(self).payment_error(*old(nft), *old(pool), loan_id, amount) == Some(e)
                    &&& *final(self) == *old(self)
                    &&& *final(nft) == *old(nft)
                    &&& *final(pool) == *old(pool)
                },
            },
    {
        match self.check_payment(nft, pool, loan_id, amount) {
            Ok(_) => {},
            Err(e) => {
                return Err(e);
            },
        }
        let i: usize = self.slot_of_existing(loan_id);
        let loan: Loan = self.loans[i];
        let (interest_portion, principal_portion) = self.split_payment(i, amount);
        let outstanding: i128 = loan.outstanding_balance - principal_portion;
        let repaid: bool = outstanding <= 0;
        if repaid {
            let released = nft.unstake_nft(self.address, loan.nft_collateral_id);
            assert(released is Ok);
        }
        let settled = pool.repay(self.address, principal_portion, interest_portion);
        assert(settled is Ok);
        self.loans[i].total_repaid = loan.total_repaid + amount;
        self.loans[i].outstanding_balance = outstanding;
        self.loans[i].payments_made = loan.payments_made + 1;
        self.loans[i].next_payment_due = loan.next_payment_due + PAYMENT_PERIOD_SECS;
        if repaid {
            self.loans[i].status = LoanStatus::Repaid;
        }
        assert(self.loans@ =~= old(self).loans@.update(
            loan_id - 1,
            old(self).paid_loan(loan_id, amount),
        ));
        Ok(PaymentMadeEvent { loan_id, amount })
    }

    /// Applies a remittance of `remittance_amount` to loan `loan_id`: the
    /// instalment, or all of the remittance if that is less, is paid on the
    /// loan, and what is left of the remittance is returned. Only the
    /// registered oracle may do so.
    ///
    /// Fails with `Unauthorized` for any other caller, with `NotFound` if
    /// there is no such loan, and otherwise as the payment itself fails.
    ///
    /// The payment must stay within the machine limits, which
    /// `automatic_repayment_fits` tests.
    pub fn process_automatic_repayment(
        &mut self,
        nft: &mut RemittanceNFT,
        pool: &mut LendingPool,
        caller: AccountId,
        loan_id: u64,
        remittance_amount: i128,
    ) -> (result: Result<i128, Error>)
        requires
            old(self).wf(),
            old(nft).wf(),
            old(pool).wf(),
            old(self).has_loan(loan_id) && old(self).loan(loan_id).status == LoanStatus::Active
                ==> old(self).payment_in_range(
                loan_id,
                old(self).automatic_payment(loan_id, remittance_amount),
            ),
            old(self).automatic_repayment_error(
                *old(nft),
                *old(pool),
                caller,
                loan_id,
                remittance_amount,
            ) is None ==> old(pool).repay_in_range(
                old(self).principal_due(
                    loan_id,
                    old(self).automatic_payment(loan_id, remittance_amount),
                ) as i128,
                old(self).interest_due(loan_id) as i128,
            ),
        ensures
            final(self).wf(),
            final(nft).wf(),
            final(pool).wf(),
            match result {
                Ok(leftover) => {
                    &&& old(self).automatic_repayment_error(
                        *old(nft),
                        *old(pool),
                        caller,
                        loan_id,
                        remittance_amount,
                    ) is None
                    &&& leftover == remittance_amount - old(self).automatic_payment(
                        loan_id,
                        remittance_amount,
                    )
                    &&& leftover >= 0
                    &&& old(self).paid(
                        *old(nft),
                        *old(pool),
                        *final(self),
                        *final(nft),
                        *final(pool),
                        loan_id,
                        old(self).automatic_payment(loan_id, remittance_amount),
                    )
                },
                Err(e) => {
                    &&& old(self).automatic_repayment_error(
                        *old(nft),
                        *old(pool),
                        caller,
                        loan_id,
                        remittance_amount,
                    ) == Some(e)
                    &&& *final(self) == *old(self)
                    &&& *final(nft) == *old(nft)
                    &&& *final(pool) == *old(pool)
                },
            },
    {
        if !self.is_oracle(caller) {
            return Err(Error::Unauthorized);
        }
        let i: usize = match self.slot_of(loan_id) {
            Some(i) => i,
            None => {
                return Err(Error::NotFound);
            },
        };
        let payment_amount: i128 = self.automatic_payment_amount(i, remittance_amount);
        proof {
            let loan = self.loans@[i as int];
            if loan.status == LoanStatus::Active {
                lemma_monthly_payment_nonnegative(
                    loan.loan_amount as int,
                    loan.interest_rate as int,
                    loan.duration_months as int,
                );
            }
        }
        match self.make_payment(nft, pool, loan_id, payment_amount) {
            Ok(_) => Ok(remittance_amount - payment_amount),
            Err(e) => Err(e),
        }
    }

    /// Records a missed payment on loan `loan_id`; the second one defaults the
    /// loan. Only the registered oracle may do so.
    ///
    /// A defaulted loan keeps its collateral locked and its principal lent
    /// out: what becomes of them is for a liquidation that is not part of this
    /// ledger.
    ///
    /// Fails with `Unauthorized` for any other caller, with `NotFound` if
    /// there is no such loan, and with `InvalidState` unless the loan is
    /// active: a loan can only miss a payment that is due.
    pub fn mark_payment_missed(&mut self, caller: AccountId, loan_id: u64) -> (result: Result<
        PaymentMissedEvent,
        Error,
    >)
        requires
            old(self).wf(),
        ensures
            final(self).wf(),
            match result {
                Ok(event) => {
                    &&& old(self).missed_error(caller, loan_id) is None
                    &&& old(self).loan_replaced(
                        *final(self),
                        loan_id,
                        old(self).missed_loan(loan_id),
                    )
                    &&& event == (PaymentMissedEvent {
                        loan_id,
                        missed_count: final(self).loan(loan_id).payments_missed,
                    })
                    &&& event.missed_count == old(self).loan(loan_id).payments_missed + 1
                    &&& event.missed_count >= 2 <==> final(self).loan(loan_id).status
                        == LoanStatus::Defaulted
                },
                Err(e) => old(self).missed_error(caller, loan_id) == Some(e) && *final(self)
                    == *old(self),
            },
    {
        match self.check_payment_missed(caller, loan_id) {
            Ok(_) => {},
            Err(e) => {
                return Err(e);
            },
        }
        let i: usize = self.slot_of_existing(loan_id);
        let missed: u32 = self.loans[i].payments_missed + 1;
        self.loans[i].payments_missed = missed;
        if missed >= 2 {
            self.loans[i].status = LoanStatus::Defaulted;
        }
        assert(self.loans@ =~= old(self).loans@.update(
            loan_id - 1,
            old(self).missed_loan(loan_id),
        ));
        Ok(PaymentMissedEvent { loan_id, missed_count: missed })
    }

    /// The record of loan `loan_id`. Fails with `NotFound` if there is no
    /// such loan.
    pub fn get_loan(&self, loan_id: u64) -> (result: Result<Loan, Error>)
        requires
            self.wf(),
        ensures
            match result {
                Ok(loan) => self.has_loan(loan_id) && loan == self.loan(loan_id),
                Err(e) => e == Error::NotFound && !self.has_loan(loan_id),
            },
    {
        match self.slot_of(loan_id) {
            Some(i) => Ok(self.loans[i]),
            None => Err(Error::NotFound),
        }
    }

    /// The numbers of the loans that `borrower` requested, oldest first.
    pub fn get_borrower_loans(&self, borrower: AccountId) -> (ids: Vec<u64>)
        ensures
            ids@ == self.borrower_loans(borrower),
    {
        let mut ids: Vec<u64> = Vec::new();
        let mut i: usize = 0;
        while i < self.loans.len()
            invariant
                i <= self.loans@.len(),
                ids@ == loan_ids_of(self.loans@.take(i as int), borrower),
            decreases self.loans@.len() - i,
        {
            proof {
                assert(self.loans@.take(i + 1).drop_last() =~= self.loans@.take(i as int));
            }
            if self.loans[i].borrower == borrower {
                ids.push(self.loans[i].loan_id);
            }
            i = i + 1;
        }
        proof {
            assert(self.loans@.take(i as int) =~= self.loans@);
        }
        ids
    }

    /// Whether a payment schedule for these terms stays within the machine
    /// limits.
    pub fn monthly_payment_fits(principal: i128, annual_rate_bps: u32, months: u32) -> (ok: bool)
        ensures
            ok == monthly_payment_in_range(
                principal as int,
                annual_rate_bps as int,
                months as int,
            ),
    {
        if months == 0 {
            return false;
        }
        proof {
            if i128::MIN <= principal * annual_rate_bps * months <= i128::MAX {
                lemma_product_in_range(principal as int, annual_rate_bps as int, months as int);
            }
        }
        let yearly: i128 = match principal.checked_mul(annual_rate_bps as i128) {
            Some(yearly) => yearly,
            None => {
                return false;
            },
        };
        let product: i128 = match yearly.checked_mul(months as i128) {
            Some(product) => product,
            None => {
                return false;
            },
        };
        let total_interest: i128 = product / 120000;
        principal.checked_add(total_interest).is_some()
    }

    /// Whether the ledger is well formed.
    pub fn is_well_formed(&self) -> (ok: bool)
        ensures
            ok == self.wf(),
    {
        if self.loans.len() as u64 != self.loan_counter {
            return false;
        }
        let mut i: usize = 0;
        while i < self.loans.len()
            invariant
                i <= self.loans@.len(),
                self.loans@.len() == self.loan_counter,
                forall|k: int|
                    0 <= k < i ==> (#[trigger] self.loans@[k]).loan_id == k + 1
                        && self.loans@[k].wf(),
            decreases self.loans@.len() - i,
        {
            let loan: Loan = self.loans[i];
            if loan.loan_id != (i as u64) + 1 || !loan.is_well_formed() {
                return false;
            }
            i = i + 1;
        }
        true
    }

    /// Whether a request for a loan of `amount` over `duration_months`
    /// against the existing credential `nft_id` stays within the machine limits.
    pub fn request_fits(
        &self,
        nft: &RemittanceNFT,
        nft_id: u64,
        amount: i128,
        duration_months: u32,
        now: u64,
    ) -> (ok: bool)
        requires
            nft.wf(),
            nft.has_token(nft_id),
        ensures
            ok == self.request_in_range(*nft, nft_id, amount, duration_months, now),
    {
        let score: u32 = match nft.get_nft_data(nft_id) {
            Ok(data) => data.reliability_score,
            Err(_) => {
                return false;
            },
        };
        let rate: u32 = Self::calculate_interest_rate(score);
        Self::monthly_payment_fits(amount, rate, duration_months) && self.loan_counter < u64::MAX
            && now.checked_add(PAYMENT_PERIOD_SECS).is_some()
    }

    /// Whether a payment of `amount` stays within the machine limits of the
    /// record of the existing loan `loan_id`.
    pub fn payment_fits(&self, loan_id: u64, amount: i128) -> (ok: bool)
        requires
            self.wf(),
            self.has_loan(loan_id),
        ensures
            ok == self.payment_in_range(loan_id, amount),
    {
        let loan: Loan = self.loans[self.slot_of_existing(loan_id)];
        let monthly_rate_bps: u32 = loan.interest_rate / 12;
        loan.outstanding_balance.checked_mul(monthly_rate_bps as i128).is_some()
            && loan.total_repaid.checked_add(amount).is_some() && loan.payments_made < u32::MAX
            && loan.next_payment_due.checked_add(PAYMENT_PERIOD_SECS).is_some()
    }

    /// Whether a payment of `amount` on loan `loan_id` stays within the
    /// machine limits of the loan ledger and of the pool: what `make_payment`
    /// asks of its caller beyond well-formed ledgers.
    pub fn make_payment_fits(
        &self,
        nft: &RemittanceNFT,
        pool: &LendingPool,
        loan_id: u64,
        amount: i128,
    ) -> (ok: bool)
        requires
            self.wf(),
            nft.wf(),
            pool.wf(),
        ensures
            ok == ((self.has_loan(loan_id) && self.loan(loan_id).status == LoanStatus::Active
                ==> self.payment_in_range(loan_id, amount)) && (self.payment_error(
                *nft,
                *pool,
                loan_id,
                amount,
            ) is None ==> pool.repay_in_range(
                self.principal_due(loan_id, amount) as i128,
                self.interest_due(loan_id) as i128,
            ))),
    {
        let i: usize = match self.slot_of(loan_id) {
            Some(i) => i,
            None => {
                return true;
            },
        };
        if self.loans[i].status != LoanStatus::Active {
            return true;
        }
        if !self.payment_fits(loan_id, amount) {
            return false;
        }
        match self.check_payment(nft, pool, loan_id, amount) {
            Ok(_) => {
                let (interest_portion, principal_portion) = self.split_payment(i, amount);
                pool.repay_fits(principal_portion, interest_portion)
            },
            Err(_) => true,
        }
    }

    /// Whether applying a remittance of `remittance_amount` to loan `loan_id`
    /// stays within the machine limits: what `process_automatic_repayment` asks
    /// of its caller beyond well-formed ledgers.
    pub fn automatic_repayment_fits(
        &self,
        nft: &RemittanceNFT,
        pool: &LendingPool,
        caller: AccountId,
        loan_id: u64,
        remittance_amount: i128,
    ) -> (ok: bool)
        requires
            self.wf(),
            nft.wf(),
            pool.wf(),
        ensures
            ok == ((self.has_loan(loan_id) && self.loan(loan_id).status == LoanStatus::Active
                ==> self.payment_in_range(
                loan_id,
                self.automatic_payment(loan_id, remittance_amount),
            )) && (self.automatic_repayment_error(
                *nft,
                *pool,
                caller,
                loan_id,
                remittance_amount,
            ) is None ==> pool.repay_in_range(
                self.principal_due(
                    loan_id,
                    self.automatic_payment(loan_id, remittance_amount),
                ) as i128,
                self.interest_due(loan_id) as i128,
            ))),
    {
        let i: usize = match self.slot_of(loan_id) {
            Some(i) => i,
            None => {
                return true;
            },
        };
        let payment_amount: i128 = self.automatic_payment_amount(i, remittance_amount);
        if !self.is_oracle(caller) {
            return self.loans[i].status != LoanStatus::Active || self.payment_fits(
                loan_id,
                payment_amount,
            );
        }
        self.make_payment_fits(nft, pool, loan_id, payment_amount)
    }

    /// Whether the payment that a remittance of `remittance_amount` makes on
    /// loan `loan_id` stays within the machine limits of the loan's record.
    pub fn automatic_payment_fits(&self, loan_id: u64, remittance_amount: i128) -> (ok: bool)
        requires
            self.wf(),
        ensures
            ok == (self.has_loan(loan_id) && self.loan(loan_id).status == LoanStatus::Active
                ==> self.payment_in_range(
                loan_id,
                self.automatic_payment(loan_id, remittance_amount),
            )),
    {
        match self.slot_of(loan_id) {
            Some(i) => {
                let payment_amount: i128 = self.automatic_payment_amount(i, remittance_amount);
                self.loans[i].status != LoanStatus::Active || self.payment_fits(
                    loan_id,
                    payment_amount,
                )
            },
            None => true,
        }
    }
}

} // verus!
