//! What holds of the protocol as a whole: the pool's invariants over any
//! sequence of operations, the utilization cap, the round trip of a deposit and
//! a withdrawal, the one-way life of a loan, and the agreement between the
//! pool's books and the loans'.

use vstd::prelude::*;
use crate::account::AccountId;
use crate::error::Error;
use crate::lending_pool::{
    lemma_position_set, lemma_principal_within_total, sum_principal, LendingPool,
};
use crate::loan_manager::{lemma_portions_nonnegative, Loan, LoanManager, LoanStatus};
use crate::remittance_nft::RemittanceNFT;

verus! {

/// An operation on the pool, with its arguments.
pub enum PoolOperation {
    Deposit { lender: AccountId, amount: i128, now: u64 },
    Withdraw { lender: AccountId, amount: i128 },
    Borrow { caller: AccountId, amount: i128 },
    Repay { caller: AccountId, principal: i128, interest: i128 },
}

/// Whether the operation, where the pool accepts it, stays within the machine
/// limits.
pub open spec fn within_limits(pre: LendingPool, op: PoolOperation) -> bool {
    match op {
        PoolOperation::Deposit { lender, amount, now } => amount > 0 ==> pre.deposit_in_range(
            amount,
        ),
        PoolOperation::Withdraw { lender, amount } => pre.withdraw_error(lender, amount) is None
            ==> pre.withdraw_in_range(lender, amount),
        PoolOperation::Borrow { caller, amount } => true,
        PoolOperation::Repay { caller, principal, interest } => pre.repay_error(
            caller,
            principal,
            interest,
        ) is None ==> pre.repay_in_range(principal, interest),
    }
}

/// Whether `post` is what the operation makes of `pre`: the operation's
/// effect where the pool accepts it, and `pre` itself where the pool refuses
/// it.
pub open spec fn outcome(pre: LendingPool, op: PoolOperation, post: LendingPool) -> bool {
    match op {
        PoolOperation::Deposit { lender, amount, now } => if amount > 0 {
            pre.deposited(post, lender, amount, now)
        } else {
            post == pre
        },
        PoolOperation::Withdraw { lender, amount } => if pre.withdraw_error(lender, amount)
            is None {
            pre.withdrew(post, lender, amount)
        } else {
            post == pre
        },
        PoolOperation::Borrow { caller, amount } => if pre.borrow_error(caller, amount) is None {
            pre.borrowed(post, amount)
        } else {
            post == pre
        },
        PoolOperation::Repay { caller, principal, interest } => if pre.repay_error(
            caller,
            principal,
            interest,
        ) is None {
            pre.repaid(post, principal, interest)
        } else {
            post == pre
        },
    }
}

/// A deposit keeps the ledger well formed.
pub proof fn law_deposit_keeps_invariants(
    pre: LendingPool,
    post: LendingPool,
    lender: AccountId,
    amount: i128,
    now: u64,
)
    requires
        pre.wf(),
        amount > 0,
        pre.deposit_in_range(amount),
        pre.deposited(post, lender, amount, now),
    ensures
        post.wf(),
{
    let info = pre.position_after_deposit(lender, amount, now);
    lemma_principal_within_total(pre, lender);
    lemma_position_set(pre, post, lender, info);
    assert forall|k: int| 0 <= k < post.lenders@.len() implies (#[trigger] post.lenders@[k]).info.deposit_amount
        >= 0 && post.lenders@[k].info.earned_interest >= 0 by {
        if post.lenders@[k].info != info {
            let j = choose|j: int| 0 <= j < pre.lenders@.len() && pre.lenders@[j] == post.lenders@[k];
            assert(pre.lenders@[j].info.deposit_amount >= 0);
        }
    }
}

/// An accepted withdrawal keeps the ledger well formed.
pub proof fn law_withdrawal_keeps_invariants(
    pre: LendingPool,
    post: LendingPool,
    lender: AccountId,
    amount: i128,
)
    requires
        pre.wf(),
        pre.withdraw_error(lender, amount) is None,
        pre.withdraw_in_range(lender, amount),
        pre.withdrew(post, lender, amount),
    ensures
        post.wf(),
{
    let info = pre.position_after_withdrawal(lender, amount);
    let before = pre.position(lender);
    lemma_principal_within_total(pre, lender);
    lemma_position_set(pre, post, lender, info);
    let product = before.deposit_amount * pre.accumulated_interest_per_share;
    assert(0 <= product) by (nonlinear_arith)
        requires
            before.deposit_amount >= 0,
            pre.accumulated_interest_per_share >= 0,
            product == before.deposit_amount * pre.accumulated_interest_per_share,
    ;
    assert forall|k: int| 0 <= k < post.lenders@.len() implies (#[trigger] post.lenders@[k]).info.deposit_amount
        >= 0 && post.lenders@[k].info.earned_interest >= 0 by {
        if post.lenders@[k].info != info {
            let j = choose|j: int| 0 <= j < pre.lenders@.len() && pre.lenders@[j] == post.lenders@[k];
            assert(pre.lenders@[j].info.deposit_amount >= 0);
        }
    }
}

/// An accepted borrow keeps the ledger well formed.
pub proof fn law_borrow_keeps_invariants(
    pre: LendingPool,
    post: LendingPool,
    caller: AccountId,
    amount: i128,
)
    requires
        pre.wf(),
        pre.borrow_error(caller, amount) is None,
        pre.borrowed(post, amount),
    ensures
        post.wf(),
{
}

/// An accepted repayment keeps the ledger well formed.
pub proof fn law_repayment_keeps_invariants(
    pre: LendingPool,
    post: LendingPool,
    caller: AccountId,
    principal: i128,
    interest: i128,
)
    requires
        pre.wf(),
        pre.repay_error(caller, principal, interest) is None,
        pre.repay_in_range(principal, interest),
        pre.repaid(post, principal, interest),
    ensures
        post.wf(),
{
    if interest > 0 && pre.total_liquidity > 0 {
        let total = pre.total_liquidity as int;
        assert((interest * 1_000_000_000) / total >= 0) by (nonlinear_arith)
            requires
                interest > 0,
                total > 0,
        ;
    }
}

/// Every operation keeps the ledger well formed, whether the pool accepts it
/// or refuses it.
pub proof fn law_operation_keeps_invariants(pre: LendingPool, op: PoolOperation, post: LendingPool)
    requires
        pre.wf(),
        within_limits(pre, op),
        outcome(pre, op, post),
    ensures
        post.wf(),
{
    match op {
        PoolOperation::Deposit { lender, amount, now } => {
            if amount > 0 {
                law_deposit_keeps_invariants(pre, post, lender, amount, now);
            }
        },
        PoolOperation::Withdraw { lender, amount } => {
            if pre.withdraw_error(lender, amount) is None {
                law_withdrawal_keeps_invariants(pre, post, lender, amount);
            }
        },
        PoolOperation::Borrow { caller, amount } => {
            if pre.borrow_error(caller, amount) is None {
                law_borrow_keeps_invariants(pre, post, caller, amount);
            }
        },
        PoolOperation::Repay { caller, principal, interest } => {
            if pre.repay_error(caller, principal, interest) is None {
                law_repayment_keeps_invariants(pre, post, caller, principal, interest);
            }
        },
    }
}

/// Whether `states` is a run of the pool under `ops`: each state follows from
/// the one before it by the operation between them.
pub open spec fn is_run(states: Seq<LendingPool>, ops: Seq<PoolOperation>) -> bool {
    &&& states.len() == ops.len() + 1
    &&& forall|i: int|
        0 <= i < ops.len() ==> within_limits(states[i], #[trigger] ops[i]) && outcome(
            states[i],
            ops[i],
            states[i + 1],
        )
}

proof fn lemma_run_stays_well_formed(states: Seq<LendingPool>, ops: Seq<PoolOperation>, n: int)
    requires
        is_run(states, ops),
        states[0].wf(),
        0 <= n < states.len(),
    ensures
        states[n].wf(),
    decreases n,
{
    if n > 0 {
        lemma_run_stays_well_formed(states, ops, n - 1);
        let op = ops[n - 1];
        law_operation_keeps_invariants(states[n - 1], op, states[n]);
    }
}

/// Over any sequence of operations on a well-formed pool, in every state no
/// more is lent out than the pool holds, and the principal of all lenders adds
/// up to the total liquidity.
pub proof fn law_pool_invariants_hold_throughout(
    states: Seq<LendingPool>,
    ops: Seq<PoolOperation>,
)
    requires
        is_run(states, ops),
        states[0].wf(),
    ensures
        forall|n: int|
            0 <= n < states.len() ==> (#[trigger] states[n]).total_liquidity
                - states[n].total_borrowed >= 0 && sum_principal(states[n].lenders@)
                == states[n].total_liquidity,
{
    assert forall|n: int| 0 <= n < states.len() implies (#[trigger] states[n]).total_liquidity
        - states[n].total_borrowed >= 0 && sum_principal(states[n].lenders@)
        == states[n].total_liquidity by {
        lemma_run_stays_well_formed(states, ops, n);
    }
}

/// After an accepted borrow the pool is lent out no further than its cap.
pub proof fn law_borrow_respects_cap(
    pre: LendingPool,
    post: LendingPool,
    caller: AccountId,
    amount: i128,
)
    requires
        pre.wf(),
        pre.borrow_error(caller, amount) is None,
        pre.borrowed(post, amount),
    ensures
        post.utilization() <= post.max_utilization,
        post.total_borrowed == pre.total_borrowed + amount,
{
}

/// A deposit that is followed at once by a withdrawal of the same amount is
/// always accepted, and leaves the lender's principal and the total liquidity
/// as they were before the deposit.
pub proof fn law_deposit_withdraw_round_trip(
    start: LendingPool,
    funded: LendingPool,
    end: LendingPool,
    lender: AccountId,
    amount: i128,
    now: u64,
)
    requires
        start.wf(),
        amount > 0,
        start.deposit_in_range(amount),
        start.deposited(funded, lender, amount, now),
        funded.withdrew(end, lender, amount),
    ensures
        funded.withdraw_error(lender, amount) is None,
        end.position(lender).deposit_amount == start.position(lender).deposit_amount,
        end.total_liquidity == start.total_liquidity,
        end.total_borrowed == start.total_borrowed,
        end.same_positions_except(start, lender),
{
    lemma_principal_within_total(start, lender);
    lemma_position_set(
        start,
        funded,
        lender,
        start.position_after_deposit(lender, amount, now),
    );
    law_deposit_keeps_invariants(start, funded, lender, amount, now);
    lemma_position_set(funded, end, lender, funded.position_after_withdrawal(lender, amount));
}

/// A loan that has ended takes no payment, no approval and no report of a
/// missed payment: each is refused with `InvalidState`.
pub proof fn law_ended_loan_rejects_changes(
    manager: LoanManager,
    nft: RemittanceNFT,
    pool: LendingPool,
    caller: AccountId,
    loan_id: u64,
    amount: i128,
)
    requires
        manager.has_loan(loan_id),
        manager.loan(loan_id).is_terminal(),
    ensures
        manager.payment_error(nft, pool, loan_id, amount) == Some(Error::InvalidState),
        manager.approve_error(nft, pool, loan_id) == Some(Error::InvalidState),
        manager.oracle_contract == Some(caller) ==> manager.missed_error(caller, loan_id) == Some(
            Error::InvalidState,
        ),
        manager.oracle_contract == Some(caller) ==> manager.automatic_repayment_error(
            nft,
            pool,
            caller,
            loan_id,
            amount,
        ) == Some(Error::InvalidState),
{
}

/// How far a loan has come in its life.
pub open spec fn stage(status: LoanStatus) -> int {
    match status {
        LoanStatus::Pending => 0,
        LoanStatus::Active => 1,
        LoanStatus::Repaid => 2,
        LoanStatus::Defaulted => 2,
    }
}

/// A payment moves an active loan forward or leaves it active, never back: the
/// balance does not rise, and the loan is repaid exactly when the balance is
/// no longer positive.
pub proof fn law_payment_moves_loan_forward(manager: LoanManager, loan_id: u64, amount: i128)
    requires
        manager.wf(),
        manager.has_loan(loan_id),
        manager.loan(loan_id).status == LoanStatus::Active,
        manager.payment_in_range(loan_id, amount),
    ensures
        manager.paid_loan(loan_id, amount).wf(),
        stage(manager.paid_loan(loan_id, amount).status) >= stage(manager.loan(loan_id).status),
        manager.paid_loan(loan_id, amount).outstanding_balance <= manager.loan(
            loan_id,
        ).outstanding_balance,
        manager.paid_loan(loan_id, amount).outstanding_balance <= 0 <==> manager.paid_loan(
            loan_id,
            amount,
        ).status == LoanStatus::Repaid,
{
    let loan = manager.loan(loan_id);
    assert(loan == manager.loans@[loan_id - 1]);
    assert(loan.wf());
    lemma_portions_nonnegative(
        loan.outstanding_balance as int,
        loan.interest_rate as int,
        amount as int,
    );
}

/// A missed payment moves an active loan forward or leaves it active, never
/// back: the second miss, and only the second, defaults it.
pub proof fn law_missed_payment_moves_loan_forward(manager: LoanManager, loan_id: u64)
    requires
        manager.wf(),
        manager.has_loan(loan_id),
        manager.loan(loan_id).status == LoanStatus::Active,
    ensures
        manager.missed_loan(loan_id).wf(),
        stage(manager.missed_loan(loan_id).status) >= stage(manager.loan(loan_id).status),
        manager.missed_loan(loan_id).payments_missed >= 2 <==> manager.missed_loan(
            loan_id,
        ).status == LoanStatus::Defaulted,
{
    let loan = manager.loan(loan_id);
    assert(loan == manager.loans@[loan_id - 1]);
    assert(loan.wf());
}

/// Approval is the only way out of `Pending`, and it leads to `Active`.
pub proof fn law_approval_activates(loan: Loan)
    requires
        loan.wf(),
        loan.status == LoanStatus::Pending,
        loan.loan_amount > 0,
    ensures
        (Loan { status: LoanStatus::Active, ..loan }).wf(),
        stage(LoanStatus::Active) > stage(loan.status),
{
}

/// What a loan owes the pool: nothing before it is funded, and its balance
/// from then on.
pub open spec fn owed(loan: Loan) -> int {
    if loan.status == LoanStatus::Pending {
        0
    } else {
        loan.outstanding_balance as int
    }
}

/// What all loans together owe the pool.
pub open spec fn total_owed(loans: Seq<Loan>) -> int
    decreases loans.len(),
{
    if loans.len() == 0 {
        0
    } else {
        total_owed(loans.drop_last()) + owed(loans.last())
    }
}

/// The books agree: what the pool has lent out is what the loans owe.
pub open spec fn reconciled(manager: LoanManager, pool: LendingPool) -> bool {
    pool.total_borrowed == total_owed(manager.loans@)
}

proof fn lemma_total_owed_update(loans: Seq<Loan>, i: int, record: Loan)
    requires
        0 <= i < loans.len(),
    ensures
        total_owed(loans.update(i, record)) == total_owed(loans) - owed(loans[i]) + owed(record),
    decreases loans.len(),
{
    let updated = loans.update(i, record);
    if i == loans.len() - 1 {
        assert(updated.drop_last() =~= loans.drop_last());
    } else {
        lemma_total_owed_update(loans.drop_last(), i, record);
        assert(updated.drop_last() =~= loans.drop_last().update(i, record));
    }
}

/// A request leaves the books in agreement: a pending loan owes nothing.
pub proof fn law_request_keeps_books(
    manager: LoanManager,
    requested: LoanManager,
    pool: LendingPool,
    loan: Loan,
)
    requires
        reconciled(manager, pool),
        loan.status == LoanStatus::Pending,
        requested.loans@ == manager.loans@.push(loan),
    ensures
        reconciled(requested, pool),
{
    assert(manager.loans@.push(loan).drop_last() =~= manager.loans@);
}

/// An approval leaves the books in agreement: the loan owes its principal
/// from now on, and the pool has lent that principal out.
pub proof fn law_approval_keeps_books(
    manager: LoanManager,
    pool: LendingPool,
    approved: LoanManager,
    drawn: LendingPool,
    loan_id: u64,
)
    requires
        manager.wf(),
        reconciled(manager, pool),
        manager.has_loan(loan_id),
        manager.loan(loan_id).status == LoanStatus::Pending,
        manager.loan_replaced(
            approved,
            loan_id,
            (Loan { status: LoanStatus::Active, ..manager.loan(loan_id) }),
        ),
        pool.borrowed(drawn, manager.loan(loan_id).loan_amount),
    ensures
        reconciled(approved, drawn),
{
    let loan = manager.loan(loan_id);
    assert(loan == manager.loans@[loan_id - 1]);
    assert(loan.wf());
    lemma_total_owed_update(
        manager.loans@,
        loan_id - 1,
        Loan { status: LoanStatus::Active, ..loan },
    );
}

/// A payment leaves the books in agreement: the principal part that comes
/// off the loan is the principal that the pool takes back.
pub proof fn law_payment_keeps_books(
    manager: LoanManager,
    pool: LendingPool,
    paid: LoanManager,
    settled: LendingPool,
    loan_id: u64,
    amount: i128,
)
    requires
        manager.wf(),
        reconciled(manager, pool),
        manager.has_loan(loan_id),
        manager.loan(loan_id).status == LoanStatus::Active,
        manager.payment_in_range(loan_id, amount),
        manager.loan_replaced(paid, loan_id, manager.paid_loan(loan_id, amount)),
        pool.repaid(
            settled,
            manager.principal_due(loan_id, amount) as i128,
            manager.interest_due(loan_id) as i128,
        ),
    ensures
        reconciled(paid, settled),
{
    let loan = manager.loan(loan_id);
    assert(loan == manager.loans@[loan_id - 1]);
    assert(loan.wf());
    lemma_portions_nonnegative(
        loan.outstanding_balance as int,
        loan.interest_rate as int,
        amount as int,
    );
    lemma_total_owed_update(manager.loans@, loan_id - 1, manager.paid_loan(loan_id, amount));
}

/// A missed payment leaves the books in agreement: a defaulted loan still
/// owes what it owed.
pub proof fn law_missed_payment_keeps_books(
    manager: LoanManager,
    pool: LendingPool,
    missed: LoanManager,
    loan_id: u64,
)
    requires
        manager.wf(),
        reconciled(manager, pool),
        manager.has_loan(loan_id),
        manager.loan(loan_id).status == LoanStatus::Active,
        manager.loan_replaced(missed, loan_id, manager.missed_loan(loan_id)),
    ensures
        reconciled(missed, pool),
{
    let loan = manager.loan(loan_id);
    assert(loan == manager.loans@[loan_id - 1]);
    lemma_total_owed_update(manager.loans@, loan_id - 1, manager.missed_loan(loan_id));
}

/// Deposits and withdrawals leave the books in agreement: they lend nothing
/// out and take nothing back.
pub proof fn law_liquidity_keeps_books(
    manager: LoanManager,
    pool: LendingPool,
    op: PoolOperation,
    after: LendingPool,
)
    requires
        reconciled(manager, pool),
        op is Deposit || op is Withdraw,
        outcome(pool, op, after),
    ensures
        reconciled(manager, after),
{
}

} // verus!
