//! The liquidity pool ledger: total liquidity, what is lent out, the interest
//! earned, and each lender's position.
//!
//! Interest is distributed lazily. A repayment raises the pool-wide
//! interest-per-share accumulator; a lender realizes what has accrued to their
//! principal when they next withdraw. What a lender is owed is measured against
//! a checkpoint of their own, which only a withdrawal advances.
//!
//! The ledger moves no funds itself. A deposit, a withdrawal and a borrow say
//! what is to be moved; the caller moves it, and drops the whole operation if
//! that fails.
//!
//! A borrower may repay more principal than was lent out. The principal lent
//! out is then negative, the pool counts as not lent out at all, and what the
//! pool has available exceeds its liquidity by the surplus.

use vstd::prelude::*;
use crate::account::AccountId;
use crate::error::Error;
use crate::math::{basis_points, bps_of, lemma_bps_of_bounds, SHARE_SCALE};

verus! {

/// The share of the pool that may be lent out unless configured otherwise: 90%.
pub const DEFAULT_MAX_UTILIZATION: u32 = 9000;

/// One lender's position in the pool.
#[derive(Clone, Copy, Debug, PartialEq, Eq, Structural)]
pub struct LenderInfo {
    /// The principal that the lender has in the pool.
    pub deposit_amount: i128,
    /// When the position was opened.
    pub deposit_timestamp: u64,
    /// The interest settled to the lender so far: the checkpoint against which
    /// newly accrued interest is measured.
    pub earned_interest: i128,
    /// The lender's share of the pool in basis points, as of their last
    /// deposit or withdrawal.
    pub share_percentage: u32,
}

/// A lender together with their position.
#[derive(Clone, Copy, Debug, PartialEq, Eq, Structural)]
pub struct LenderEntry {
    pub lender: AccountId,
    pub info: LenderInfo,
}

/// The pool ledger.
#[derive(Debug)]
pub struct LendingPool {
    /// The only identity that may borrow from and repay to the pool.
    pub loan_manager: AccountId,
    /// The asset that the pool holds.
    pub usdc_token: AccountId,
    /// The base interest rate in basis points.
    pub base_interest_rate: u32,
    /// The largest share of the pool, in basis points, that may be lent out.
    pub max_utilization: u32,
    /// The sum of all lenders' principal.
    pub total_liquidity: i128,
    /// The principal currently lent out.
    pub total_borrowed: i128,
    /// All interest that borrowers have paid.
    pub total_interest_earned: i128,
    /// Interest paid per unit of liquidity, scaled by 10^9.
    pub accumulated_interest_per_share: i128,
    /// The positions, one per lender, in the order in which they were opened.
    pub lenders: Vec<LenderEntry>,
}

/// The position of someone who never deposited.
pub open spec fn empty_position() -> LenderInfo {
    LenderInfo { deposit_amount: 0, deposit_timestamp: 0, earned_interest: 0, share_percentage: 0 }
}

/// The sum of the principal of all positions.
pub open spec fn sum_principal(s: Seq<LenderEntry>) -> int
    decreases s.len(),
{
    if s.len() == 0 {
        0
    } else {
        sum_principal(s.drop_last()) + s.last().info.deposit_amount
    }
}

/// No lender has two positions.
pub open spec fn distinct_lenders(s: Seq<LenderEntry>) -> bool {
    forall|i: int, j: int| 0 <= i < j < s.len() ==> s[i].lender != s[j].lender
}

/// Whether `lender` has a position among `s`.
pub open spec fn lender_known(s: Seq<LenderEntry>, lender: AccountId) -> bool {
    exists|i: int| 0 <= i < s.len() && s[i].lender == lender
}

/// Where the position of `lender` stands in `s`, if they have one.
pub open spec fn lender_slot(s: Seq<LenderEntry>, lender: AccountId) -> int {
    choose|i: int| 0 <= i < s.len() && s[i].lender == lender
}

/// The position of `lender` among `s`; the empty position if they have none.
pub open spec fn info_of(s: Seq<LenderEntry>, lender: AccountId) -> LenderInfo {
    if lender_known(s, lender) {
        s[lender_slot(s, lender)].info
    } else {
        empty_position()
    }
}

/// The interest that has accrued to a position and is not yet settled, given
/// the pool's interest-per-share accumulator. It may be negative.
pub open spec fn pending_interest(info: LenderInfo, per_share: int) -> int {
    (info.deposit_amount * per_share) / 1_000_000_000 - info.earned_interest
}

proof fn lemma_slot_unique(s: Seq<LenderEntry>, i: int)
    requires
        distinct_lenders(s),
        0 <= i < s.len(),
    ensures
        lender_known(s, s[i].lender),
        lender_slot(s, s[i].lender) == i,
        info_of(s, s[i].lender) == s[i].info,
{
    let j = lender_slot(s, s[i].lender);
    if j < i {
        assert(s[j].lender != s[i].lender);
    } else if i < j {
        assert(s[i].lender != s[j].lender);
    }
}

proof fn lemma_sum_push(s: Seq<LenderEntry>, e: LenderEntry)
    ensures
        sum_principal(s.push(e)) == sum_principal(s) + e.info.deposit_amount,
{
    assert(s.push(e).drop_last() =~= s);
}

proof fn lemma_sum_update(s: Seq<LenderEntry>, i: int, e: LenderEntry)
    requires
        0 <= i < s.len(),
    ensures
        sum_principal(s.update(i, e)) == sum_principal(s) - s[i].info.deposit_amount
            + e.info.deposit_amount,
    decreases s.len(),
{
    let t = s.update(i, e);
    if i == s.len() - 1 {
        assert(t.drop_last() =~= s.drop_last());
    } else {
        lemma_sum_update(s.drop_last(), i, e);
        assert(t.drop_last() =~= s.drop_last().update(i, e));
    }
}

proof fn lemma_sum_bounds(s: Seq<LenderEntry>, i: int)
    requires
        forall|k: int| 0 <= k < s.len() ==> (#[trigger] s[k]).info.deposit_amount >= 0,
        0 <= i < s.len(),
    ensures
        0 <= s[i].info.deposit_amount <= sum_principal(s),
    decreases s.len(),
{
    lemma_sum_nonnegative(s.drop_last());
    if i < s.len() - 1 {
        lemma_sum_bounds(s.drop_last(), i);
    }
}

proof fn lemma_sum_nonnegative(s: Seq<LenderEntry>)
    requires
        forall|k: int| 0 <= k < s.len() ==> (#[trigger] s[k]).info.deposit_amount >= 0,
    ensures
        0 <= sum_principal(s),
    decreases s.len(),
{
    if s.len() > 0 {
        lemma_sum_nonnegative(s.drop_last());
    }
}

proof fn lemma_prefix_sum(s: Seq<LenderEntry>, n: int)
    requires
        forall|k: int| 0 <= k < s.len() ==> (#[trigger] s[k]).info.deposit_amount >= 0,
        0 <= n <= s.len(),
    ensures
        0 <= sum_principal(s.take(n)) <= sum_principal(s),
        n < s.len() ==> sum_principal(s.take(n + 1)) == sum_principal(s.take(n))
            + s[n].info.deposit_amount,
    decreases s.len() - n,
{
    lemma_sum_nonnegative(s.take(n));
    if n < s.len() {
        assert(s.take(n + 1).drop_last() =~= s.take(n));
        lemma_prefix_sum(s, n + 1);
    } else {
        assert(s.take(n) =~= s);
    }
}

proof fn lemma_update_frame(s: Seq<LenderEntry>, i: int, e: LenderEntry)
    requires
        distinct_lenders(s),
        0 <= i < s.len(),
        e.lender == s[i].lender,
    ensures
        distinct_lenders(s.update(i, e)),
        lender_known(s.update(i, e), e.lender),
        info_of(s.update(i, e), e.lender) == e.info,
        forall|other: AccountId|
            other != e.lender ==> lender_known(s.update(i, e), other) == lender_known(s, other)
                && info_of(s.update(i, e), other) == info_of(s, other),
{
    let t = s.update(i, e);
    assert(distinct_lenders(t)) by {
        assert forall|a: int, b: int| 0 <= a < b < t.len() implies t[a].lender != t[b].lender by {
            assert(s[a].lender != s[b].lender);
        }
    }
    lemma_slot_unique(t, i);
    assert forall|other: AccountId| other != e.lender implies lender_known(t, other)
        == lender_known(s, other) && info_of(t, other) == info_of(s, other) by {
        if lender_known(s, other) {
            let j = lender_slot(s, other);
            assert(t[j] == s[j]);
            lemma_slot_unique(t, j);
        } else if lender_known(t, other) {
            let j = lender_slot(t, other);
            assert(s[j] == t[j]);
            assert(lender_known(s, other));
        }
    }
}

proof fn lemma_push_frame(s: Seq<LenderEntry>, e: LenderEntry)
    requires
        distinct_lenders(s),
        !lender_known(s, e.lender),
    ensures
        distinct_lenders(s.push(e)),
        lender_known(s.push(e), e.lender),
        info_of(s.push(e), e.lender) == e.info,
        forall|other: AccountId|
            other != e.lender ==> lender_known(s.push(e), other) == lender_known(s, other)
                && info_of(s.push(e), other) == info_of(s, other),
{
    let t = s.push(e);
    assert(distinct_lenders(t)) by {
        assert forall|a: int, b: int| 0 <= a < b < t.len() implies t[a].lender != t[b].lender by {
            if b < s.len() {
                assert(s[a].lender != s[b].lender);
            } else {
                assert(s[a].lender == t[a].lender);
            }
        }
    }
    lemma_slot_unique(t, s.len() as int);
    assert forall|other: AccountId| other != e.lender implies lender_known(t, other)
        == lender_known(s, other) && info_of(t, other) == info_of(s, other) by {
        if lender_known(s, other) {
            let j = lender_slot(s, other);
            assert(t[j] == s[j]);
            lemma_slot_unique(t, j);
        } else if lender_known(t, other) {
            let j = lender_slot(t, other);
            assert(s[j] == t[j]);
            assert(lender_known(s, other));
        }
    }
}

/// Setting the position of one lender touches that position alone: the
/// lender then has exactly the new position, every other lender has what they
/// had, no lender has two positions, and the sum of all principal changes by
/// the change in that lender's principal.
pub proof fn lemma_position_set(
    pre: LendingPool,
    post: LendingPool,
    lender: AccountId,
    info: LenderInfo,
)
    requires
        distinct_lenders(pre.lenders@),
        pre.position_set(post, lender, info),
    ensures
        distinct_lenders(post.lenders@),
        post.has_position(lender),
        post.position(lender) == info,
        post.same_positions_except(pre, lender),
        sum_principal(post.lenders@) == sum_principal(pre.lenders@) - pre.position(
            lender,
        ).deposit_amount + info.deposit_amount,
        forall|k: int|
            0 <= k < post.lenders@.len() ==> (#[trigger] post.lenders@[k]).info == info || exists|
                j: int,
            |
                0 <= j < pre.lenders@.len() && pre.lenders@[j] == post.lenders@[k],
{
    let entry = LenderEntry { lender, info };
    if pre.has_position(lender) {
        let i = lender_slot(pre.lenders@, lender);
        lemma_update_frame(pre.lenders@, i, entry);
        lemma_sum_update(pre.lenders@, i, entry);
        assert forall|k: int| 0 <= k < post.lenders@.len() implies (#[trigger] post.lenders@[k]).info
            == info || exists|j: int|
            0 <= j < pre.lenders@.len() && pre.lenders@[j] == post.lenders@[k] by {
            if k != i {
                assert(pre.lenders@[k] == post.lenders@[k]);
            }
        }
    } else {
        lemma_push_frame(pre.lenders@, entry);
        lemma_sum_push(pre.lenders@, entry);
        assert forall|k: int| 0 <= k < post.lenders@.len() implies (#[trigger] post.lenders@[k]).info
            == info || exists|j: int|
            0 <= j < pre.lenders@.len() && pre.lenders@[j] == post.lenders@[k] by {
            if k < pre.lenders@.len() {
                assert(pre.lenders@[k] == post.lenders@[k]);
            }
        }
    }
}

/// The principal of one lender is part of the total liquidity.
pub proof fn lemma_principal_within_total(pool: LendingPool, lender: AccountId)
    requires
        pool.wf(),
    ensures
        0 <= pool.position(lender).deposit_amount <= pool.total_liquidity,
        0 <= pool.position(lender).earned_interest,
{
    lemma_sum_nonnegative(pool.lenders@);
    if pool.has_position(lender) {
        lemma_sum_bounds(pool.lenders@, lender_slot(pool.lenders@, lender));
    }
}

impl LendingPool {
    /// What holds of the ledger between operations: no lender has two
    /// positions; no principal and no settled interest is negative; the
    /// principal of all positions adds up to the total liquidity; no more is
    /// lent out than the pool holds.
    pub open spec fn wf(self) -> bool {
        &&& distinct_lenders(self.lenders@)
        &&& forall|k: int|
            0 <= k < self.lenders@.len() ==> (#[trigger] self.lenders@[k]).info.deposit_amount
                >= 0
        &&& forall|k: int|
            0 <= k < self.lenders@.len() ==> (#[trigger] self.lenders@[k]).info.earned_interest
                >= 0
        &&& sum_principal(self.lenders@) == self.total_liquidity
        &&& 0 <= self.total_liquidity - self.total_borrowed <= i128::MAX
        &&& self.total_interest_earned >= 0
        &&& self.accumulated_interest_per_share >= 0
    }

    /// Whether `lender` has a position.
    pub open spec fn has_position(self, lender: AccountId) -> bool {
        lender_known(self.lenders@, lender)
    }

    /// The position of `lender`; the empty position if they have none.
    pub open spec fn position(self, lender: AccountId) -> LenderInfo {
        info_of(self.lenders@, lender)
    }

    /// The funds that are in the pool and not lent out.
    pub open spec fn available(self) -> int {
        self.total_liquidity - self.total_borrowed
    }

    /// The share of the pool that is lent out, in basis points.
    pub open spec fn utilization(self) -> int {
        bps_of(self.total_borrowed as int, self.total_liquidity as int)
    }

    /// The fields that no operation changes are the same in both ledgers.
    pub open spec fn same_terms(self, other: LendingPool) -> bool {
        &&& self.loan_manager == other.loan_manager
        &&& self.usdc_token == other.usdc_token
        &&& self.base_interest_rate == other.base_interest_rate
        &&& self.max_utilization == other.max_utilization
    }

    /// Every position but that of `lender` is the same in both ledgers.
    pub open spec fn same_positions_except(self, other: LendingPool, lender: AccountId) -> bool {
        forall|who: AccountId|
            who != lender ==> self.has_position(who) == other.has_position(who) && self.position(
                who,
            ) == other.position(who)
    }

    /// A new pool with no liquidity, nothing lent out, no interest earned, and
    /// the default utilization cap.
    pub fn initialize(loan_manager: AccountId, usdc_token: AccountId, base_rate: u32) -> (pool:
        LendingPool)
        ensures
            pool.wf(),
            pool.loan_manager == loan_manager,
            pool.usdc_token == usdc_token,
            pool.base_interest_rate == base_rate,
            pool.max_utilization == DEFAULT_MAX_UTILIZATION,
            pool.total_liquidity == 0,
            pool.total_borrowed == 0,
            pool.total_interest_earned == 0,
            pool.accumulated_interest_per_share == 0,
            pool.lenders@.len() == 0,
    {
        LendingPool {
            loan_manager,
            usdc_token,
            base_interest_rate: base_rate,
            max_utilization: DEFAULT_MAX_UTILIZATION,
            total_liquidity: 0,
            total_borrowed: 0,
            total_interest_earned: 0,
            accumulated_interest_per_share: 0,
            lenders: Vec::new(),
        }
    }

    /// The machine limits of a deposit: the new total liquidity, and what of it
    /// is not lent out, fit in 128 bits.
    pub open spec fn deposit_in_range(self, amount: i128) -> bool {
        &&& self.total_liquidity + amount <= i128::MAX
        &&& self.total_liquidity + amount - self.total_borrowed <= i128::MAX
    }

    /// The ledger `post` is `self` with the position of `lender` set to
    /// `info`: replaced where it stood if the lender had one, and added last if
    /// not. No other position differs.
    pub open spec fn position_set(self, post: LendingPool, lender: AccountId, info: LenderInfo)
        -> bool {
        post.lenders@ == if self.has_position(lender) {
            self.lenders@.update(lender_slot(self.lenders@, lender), LenderEntry { lender, info })
        } else {
            self.lenders@.push(LenderEntry { lender, info })
        }
    }

    /// The position of `lender` after they deposit `amount` at time `now`: the
    /// amount is added to their principal, their share of the new total is
    /// taken, and a first deposit opens the position at `now`.
    pub open spec fn position_after_deposit(self, lender: AccountId, amount: i128, now: u64)
        -> LenderInfo {
        let before = self.position(lender);
        LenderInfo {
            deposit_amount: (before.deposit_amount + amount) as i128,
            deposit_timestamp: if self.has_position(lender) {
                before.deposit_timestamp
            } else {
                now
            },
            earned_interest: before.earned_interest,
            share_percentage: bps_of(
                before.deposit_amount + amount,
                self.total_liquidity + amount,
            ) as u32,
        }
    }

    /// What a deposit of `amount` by `lender` at time `now` makes of the ledger
    /// `self`: the amount is added once to the total liquidity and once to the
    /// lender's principal, and nothing else changes.
    pub open spec fn deposited(
        self,
        post: LendingPool,
        lender: AccountId,
        amount: i128,
        now: u64,
    ) -> bool {
        &&& post.same_terms(self)
        &&& post.total_liquidity == self.total_liquidity + amount
        &&& post.total_borrowed == self.total_borrowed
        &&& post.total_interest_earned == self.total_interest_earned
        &&& post.accumulated_interest_per_share == self.accumulated_interest_per_share
        &&& self.position_set(post, lender, self.position_after_deposit(lender, amount, now))
    }

    /// Why a withdrawal is refused, if it is. The checks are made in this order.
    pub open spec fn withdraw_error(self, lender: AccountId, amount: i128) -> Option<Error> {
        if amount <= 0 {
            Some(Error::InvalidAmount)
        } else if !self.has_position(lender) {
            Some(Error::NotFound)
        } else if amount > self.position(lender).deposit_amount {
            Some(Error::InsufficientBalance)
        } else if amount > self.available() {
            Some(Error::InsufficientLiquidity)
        } else {
            None
        }
    }

    /// The interest that a withdrawal by `lender` settles: what has accrued to
    /// their principal beyond their checkpoint, if that is positive.
    pub open spec fn settled_interest(self, lender: AccountId) -> int {
        let pending = pending_interest(
            self.position(lender),
            self.accumulated_interest_per_share as int,
        );
        if pending > 0 {
            pending
        } else {
            0
        }
    }

    /// The machine limits of a withdrawal: the accrual and the payout fit in
    /// 128 bits.
    pub open spec fn withdraw_in_range(self, lender: AccountId, amount: i128) -> bool {
        &&& self.position(lender).deposit_amount * self.accumulated_interest_per_share
            <= i128::MAX
        &&& amount + self.settled_interest(lender) <= i128::MAX
    }

    /// The position of `lender` after they withdraw `amount`: the pending
    /// interest is settled into their checkpoint, the amount leaves their
    /// principal, and their share of the new total is taken.
    pub open spec fn position_after_withdrawal(self, lender: AccountId, amount: i128)
        -> LenderInfo {
        let before = self.position(lender);
        LenderInfo {
            deposit_amount: (before.deposit_amount - amount) as i128,
            deposit_timestamp: before.deposit_timestamp,
            earned_interest: (before.earned_interest + self.settled_interest(lender)) as i128,
            share_percentage: bps_of(
                before.deposit_amount - amount,
                self.total_liquidity - amount,
            ) as u32,
        }
    }

    /// What a successful withdrawal of `amount` by `lender` makes of the ledger
    /// `self`: the amount leaves the total liquidity and the lender's
    /// principal, and nothing else changes.
    pub open spec fn withdrew(self, post: LendingPool, lender: AccountId, amount: i128) -> bool {
        &&& post.same_terms(self)
        &&& post.total_liquidity == self.total_liquidity - amount
        &&& post.total_borrowed == self.total_borrowed
        &&& post.total_interest_earned == self.total_interest_earned
        &&& post.accumulated_interest_per_share == self.accumulated_interest_per_share
        &&& self.position_set(post, lender, self.position_after_withdrawal(lender, amount))
    }

    /// Why a borrow is refused, if it is. The checks are made in this order.
    pub open spec fn borrow_error(self, caller: AccountId, amount: i128) -> Option<Error> {
        if caller != self.loan_manager {
            Some(Error::Unauthorized)
        } else if amount <= 0 {
            Some(Error::InvalidAmount)
        } else if amount > self.available() {
            Some(Error::InsufficientLiquidity)
        } else if bps_of(self.total_borrowed + amount, self.total_liquidity as int)
            > self.max_utilization {
            Some(Error::MaxUtilizationExceeded)
        } else {
            None
        }
    }

    /// What a successful borrow of `amount` makes of the ledger `self`.
    pub open spec fn borrowed(self, post: LendingPool, amount: i128) -> bool {
        &&& post.same_terms(self)
        &&& post.total_liquidity == self.total_liquidity
        &&& post.total_borrowed == self.total_borrowed + amount
        &&& post.total_interest_earned == self.total_interest_earned
        &&& post.accumulated_interest_per_share == self.accumulated_interest_per_share
        &&& post.lenders@ == self.lenders@
    }

    /// Why a repayment is refused, if it is. The checks are made in this order.
    pub open spec fn repay_error(self, caller: AccountId, principal: i128, interest: i128)
        -> Option<Error> {
        if caller != self.loan_manager {
            Some(Error::Unauthorized)
        } else if principal < 0 || interest < 0 {
            Some(Error::InvalidAmount)
        } else {
            None
        }
    }

    /// By how much a repayment of `interest` raises the interest-per-share
    /// accumulator.
    pub open spec fn interest_per_share(self, interest: i128) -> int {
        if interest > 0 && self.total_liquidity > 0 {
            (interest * 1_000_000_000) / (self.total_liquidity as int)
        } else {
            0
        }
    }

    /// The machine limits of a repayment: what is received, the new totals
    /// and the scaled interest fit in 128 bits.
    pub open spec fn repay_in_range(self, principal: i128, interest: i128) -> bool {
        &&& principal + interest <= i128::MAX
        &&& self.total_liquidity - (self.total_borrowed - principal) <= i128::MAX
        &&& self.total_interest_earned + interest <= i128::MAX
        &&& interest > 0 && self.total_liquidity > 0 ==> interest * 1_000_000_000 <= u128::MAX
        &&& self.accumulated_interest_per_share + self.interest_per_share(interest) <= i128::MAX
    }

    /// What a successful repayment makes of the ledger `self`: the principal
    /// comes off what is lent out, the interest is added to what was earned and,
    /// scaled and divided by the liquidity, to the interest-per-share
    /// accumulator. No position changes.
    pub open spec fn repaid(self, post: LendingPool, principal: i128, interest: i128) -> bool {
        &&& post.same_terms(self)
        &&& post.total_liquidity == self.total_liquidity
        &&& post.total_borrowed == self.total_borrowed - principal
        &&& post.total_interest_earned == self.total_interest_earned + interest
        &&& post.accumulated_interest_per_share == self.accumulated_interest_per_share
            + self.interest_per_share(interest)
        &&& post.lenders@ == self.lenders@
    }

    /// Where the position of `lender` stands among the positions.
    fn find_lender(&self, lender: AccountId) -> (slot: Option<usize>)
        requires
            distinct_lenders(self.lenders@),
        ensures
            match slot {
                Some(i) => i < self.lenders@.len() && self.lenders@[i as int].lender == lender
                    && self.has_position(lender) && self.position(lender)
                    == self.lenders@[i as int].info,
                None => !self.has_position(lender),
            },
    {
        let mut i: usize = 0;
        while i < self.lenders.len()
            invariant
                i <= self.lenders@.len(),
                distinct_lenders(self.lenders@),
                forall|k: int| 0 <= k < i ==> self.lenders@[k].lender != lender,
            decreases self.lenders@.len() - i,
        {
            if self.lenders[i].lender == lender {
                proof {
                    lemma_slot_unique(self.lenders@, i as int);
                }
                return Some(i);
            }
            i = i + 1;
        }
        None
    }

    /// Adds `amount` of the asset to the pool on behalf of `lender`.
    ///
    /// Fails with `InvalidAmount` unless the amount is positive. The caller
    /// moves the asset from the lender to the pool.
    ///
    /// A positive amount must stay within the machine limits, which
    /// `deposit_fits` tests.
    pub fn deposit(&mut self, lender: AccountId, amount: i128, now: u64) -> (result: Result<
        (),
        Error,
    >)
        requires
            old(self).wf(),
            amount > 0 ==> old(self).deposit_in_range(amount),
        ensures
            final(self).wf(),
            result is Ok <==> amount > 0,
            result is Ok ==> old(self).deposited(*final(self), lender, amount, now),
            result is Ok ==> final(self).has_position(lender) && final(self).position(lender)
                == old(self).position_after_deposit(lender, amount, now),
            result is Ok ==> final(self).same_positions_except(*old(self), lender),
            result is Ok && old(self).total_liquidity == 0 ==> final(self).position(
                lender,
            ).share_percentage == 10000,
            result is Err ==> result == Err::<(), Error>(Error::InvalidAmount) && *final(self)
                == *old(self),
    {
        if amount <= 0 {
            return Err(Error::InvalidAmount);
        }
        let slot = self.find_lender(lender);
        let new_total: i128 = self.total_liquidity + amount;
        match slot {
            Some(i) => {
                let cur: LenderInfo = self.lenders[i].info;
                proof {
                    lemma_sum_bounds(self.lenders@, i as int);
                }
                let principal: i128 = cur.deposit_amount + amount;
                let share: u32 = basis_points(principal, new_total);
                let entry = LenderEntry {
                    lender,
                    info: LenderInfo {
                        deposit_amount: principal,
                        deposit_timestamp: cur.deposit_timestamp,
                        earned_interest: cur.earned_interest,
                        share_percentage: share,
                    },
                };
                proof {
                    lemma_update_frame(self.lenders@, i as int, entry);
                    lemma_sum_update(self.lenders@, i as int, entry);
                    lemma_bps_of_bounds(principal as int, new_total as int);
                }
                self.lenders.set(i, entry);
            },
            None => {
                proof {
                    lemma_sum_nonnegative(self.lenders@);
                }
                let share: u32 = basis_points(amount, new_total);
                let entry = LenderEntry {
                    lender,
                    info: LenderInfo {
                        deposit_amount: amount,
                        deposit_timestamp: now,
                        earned_interest: 0,
                        share_percentage: share,
                    },
                };
                proof {
                    lemma_push_frame(self.lenders@, entry);
                    lemma_sum_push(self.lenders@, entry);
                    lemma_bps_of_bounds(amount as int, new_total as int);
                }
                self.lenders.push(entry);
            },
        }
        self.total_liquidity = new_total;
        Ok(())
    }

    /// Takes `amount` of principal out of the pool for `lender`, together with
    /// the interest that has accrued to their position, and returns what is to
    /// be paid out: the amount plus the settled interest.
    ///
    /// Fails with `InvalidAmount` unless the amount is positive, with
    /// `NotFound` if the lender has no position, with `InsufficientBalance` if
    /// the amount exceeds their principal, and with `InsufficientLiquidity` if it
    /// exceeds what is not lent out. The caller moves the payout from the pool
    /// to the lender.
    ///
    /// A withdrawal that is not refused must stay within the machine limits,
    /// which `withdraw_fits` tests.
    pub fn withdraw(&mut self, lender: AccountId, amount: i128) -> (result: Result<i128, Error>)
        requires
            old(self).wf(),
            old(self).withdraw_error(lender, amount) is None ==> old(self).withdraw_in_range(
                lender,
                amount,
            ),
        ensures
            final(self).wf(),
            match result {
                Ok(payout) => {
                    &&& old(self).withdraw_error(lender, amount) is None
                    &&& old(self).withdrew(*final(self), lender, amount)
                    &&& payout == amount + old(self).settled_interest(lender)
                    &&& final(self).has_position(lender)
                    &&& final(self).position(lender) == old(self).position_after_withdrawal(
                        lender,
                        amount,
                    )
                    &&& final(self).same_positions_except(*old(self), lender)
                },
                Err(e) => old(self).withdraw_error(lender, amount) == Some(e) && *final(self)
                    == *old(self),
            },
    {
        let i: usize = match self.locate_withdrawal(lender, amount) {
            Ok(i) => i,
            Err(e) => {
                return Err(e);
            },
        };
        let cur: LenderInfo = self.lenders[i].info;
        let per_share: i128 = self.accumulated_interest_per_share;
        assert(0 <= cur.deposit_amount * per_share) by (nonlinear_arith)
            requires
                cur.deposit_amount >= 0,
                per_share >= 0,
        ;
        let accrued: i128 = (cur.deposit_amount * per_share) / 1_000_000_000;
        let pending: i128 = accrued - cur.earned_interest;
        let settled: i128 = if pending > 0 {
            pending
        } else {
            0
        };
        let payout: i128 = amount + settled;
        proof {
            lemma_sum_bounds(self.lenders@, i as int);
        }
        let principal: i128 = cur.deposit_amount - amount;
        let new_total: i128 = self.total_liquidity - amount;
        let share: u32 = basis_points(principal, new_total);
        let entry = LenderEntry {
            lender,
            info: LenderInfo {
                deposit_amount: principal,
                deposit_timestamp: cur.deposit_timestamp,
                earned_interest: cur.earned_interest + settled,
                share_percentage: share,
            },
        };
        proof {
            lemma_update_frame(self.lenders@, i as int, entry);
            lemma_sum_update(self.lenders@, i as int, entry);
        }
        self.lenders.set(i, entry);
        self.total_liquidity = new_total;
        Ok(payout)
    }

    /// Where the position stands from which a withdrawal of `amount` by
    /// `lender` is taken, or why the withdrawal is refused.
    fn locate_withdrawal(&self, lender: AccountId, amount: i128) -> (result: Result<usize, Error>)
        requires
            self.wf(),
        ensures
            match result {
                Ok(i) => {
                    &&& self.withdraw_error(lender, amount) is None
                    &&& i < self.lenders@.len()
                    &&& self.lenders@[i as int].lender == lender
                    &&& self.position(lender) == self.lenders@[i as int].info
                    &&& lender_slot(self.lenders@, lender) == i
                },
                Err(e) => self.withdraw_error(lender, amount) == Some(e),
            },
    {
        if amount <= 0 {
            return Err(Error::InvalidAmount);
        }
        let i: usize = match self.find_lender(lender) {
            Some(i) => i,
            None => {
                return Err(Error::NotFound);
            },
        };
        proof {
            lemma_slot_unique(self.lenders@, i as int);
        }
        if amount > self.lenders[i].info.deposit_amount {
            return Err(Error::InsufficientBalance);
        }
        if amount > self.total_liquidity - self.total_borrowed {
            return Err(Error::InsufficientLiquidity);
        }
        Ok(i)
    }

    /// Whether a withdrawal of `amount` by `lender` would be accepted, and if
    /// not, why. The ledger is not changed.
    pub fn check_withdraw(&self, lender: AccountId, amount: i128) -> (result: Result<(), Error>)
        requires
            self.wf(),
        ensures
            match result {
                Ok(_) => self.withdraw_error(lender, amount) is None,
                Err(e) => self.withdraw_error(lender, amount) == Some(e),
            },
    {
        match self.locate_withdrawal(lender, amount) {
            Ok(_) => Ok(()),
            Err(e) => Err(e),
        }
    }

    /// Whether a borrow of `amount` by `caller` would be accepted, and if not,
    /// why. The ledger is not changed.
    pub fn check_borrow(&self, caller: AccountId, amount: i128) -> (result: Result<(), Error>)
        requires
            self.wf(),
        ensures
            match result {
                Ok(_) => self.borrow_error(caller, amount) is None,
                Err(e) => self.borrow_error(caller, amount) == Some(e),
            },
    {
        if caller != self.loan_manager {
            return Err(Error::Unauthorized);
        }
        if amount <= 0 {
            return Err(Error::InvalidAmount);
        }
        let available: i128 = self.total_liquidity - self.total_borrowed;
        if amount > available {
            return Err(Error::InsufficientLiquidity);
        }
        let prospective: u32 = basis_points(self.total_borrowed + amount, self.total_liquidity);
        if prospective > self.max_utilization {
            return Err(Error::MaxUtilizationExceeded);
        }
        Ok(())
    }

    /// Whether a repayment by `caller` would be accepted, and if not, why. The
    /// ledger is not changed.
    pub fn check_repay(&self, caller: AccountId, principal: i128, interest: i128) -> (result:
        Result<(), Error>)
        ensures
            match result {
                Ok(_) => self.repay_error(caller, principal, interest) is None,
                Err(e) => self.repay_error(caller, principal, interest) == Some(e),
            },
    {
        if caller != self.loan_manager {
            return Err(Error::Unauthorized);
        }
        if principal < 0 || interest < 0 {
            return Err(Error::InvalidAmount);
        }
        Ok(())
    }

    /// Lends `amount` out of the pool. Only the registered loan manager may
    /// borrow.
    ///
    /// Fails with `Unauthorized` for any other caller, with `InvalidAmount`
    /// unless the amount is positive, with `InsufficientLiquidity` if the amount
    /// exceeds what is not lent out, and with `MaxUtilizationExceeded` if the
    /// pool would then be lent out beyond its cap. The caller moves the asset
    /// from the pool to the borrower.
    pub fn borrow(&mut self, caller: AccountId, amount: i128) -> (result: Result<(), Error>)
        requires
            old(self).wf(),
        ensures
            final(self).wf(),
            match result {
                Ok(_) => {
                    &&& old(self).borrow_error(caller, amount) is None
                    &&& old(self).borrowed(*final(self), amount)
                    &&& final(self).utilization() <= final(self).max_utilization
                },
                Err(e) => old(self).borrow_error(caller, amount) == Some(e) && *final(self)
                    == *old(self),
            },
    {
        match self.check_borrow(caller, amount) {
            Ok(_) => {},
            Err(e) => {
                return Err(e);
            },
        }
        self.total_borrowed = self.total_borrowed + amount;
        Ok(())
    }

    /// Takes a repayment of `principal` and `interest` into the pool, and
    /// returns what was received in all. Only the registered loan manager may
    /// repay.
    ///
    /// Fails with `Unauthorized` for any other caller and with `InvalidAmount`
    /// if either part is negative. The interest is not pushed to the lenders:
    /// it raises the interest-per-share accumulator, and each lender realizes
    /// their part when they next withdraw.
    ///
    /// A repayment that is not refused must stay within the machine limits,
    /// which `repay_fits` tests.
    pub fn repay(&mut self, caller: AccountId, principal: i128, interest: i128) -> (result:
        Result<i128, Error>)
        requires
            old(self).wf(),
            old(self).repay_error(caller, principal, interest) is None ==> old(self).repay_in_range(principal, interest),
        ensures
            final(self).wf(),
            match result {
                Ok(received) => {
                    &&& old(self).repay_error(caller, principal, interest) is None
                    &&& old(self).repaid(*final(self), principal, interest)
                    &&& received == principal + interest
                },
                Err(e) => old(self).repay_error(caller, principal, interest) == Some(e)
                    && *final(self) == *old(self),
            },
    {
        match self.check_repay(caller, principal, interest) {
            Ok(_) => {},
            Err(e) => {
                return Err(e);
            },
        }
        proof {
            lemma_sum_nonnegative(self.lenders@);
        }
        if interest > 0 && self.total_liquidity > 0 {
            let scaled: u128 = (interest as u128) * SHARE_SCALE;
            let per_share: u128 = scaled / (self.total_liquidity as u128);
            self.accumulated_interest_per_share = self.accumulated_interest_per_share
                + (per_share as i128);
        }
        self.total_borrowed = self.total_borrowed - principal;
        self.total_interest_earned = self.total_interest_earned + interest;
        Ok(principal + interest)
    }

    /// The funds that are in the pool and not lent out.
    pub fn get_available_liquidity(&self) -> (available: i128)
        requires
            self.wf(),
        ensures
            available == self.available(),
            available >= 0,
    {
        self.total_liquidity - self.total_borrowed
    }

    /// The position of `lender`; a record of zeros if they have none.
    pub fn get_lender_info(&self, lender: AccountId) -> (info: LenderInfo)
        requires
            self.wf(),
        ensures
            info == self.position(lender),
            !self.has_position(lender) ==> info == empty_position(),
    {
        match self.find_lender(lender) {
            Some(i) => self.lenders[i].info,
            None => LenderInfo {
                deposit_amount: 0,
                deposit_timestamp: 0,
                earned_interest: 0,
                share_percentage: 0,
            },
        }
    }

    /// The share of the pool that is lent out, in basis points; zero while the
    /// pool is empty.
    pub fn get_utilization_rate(&self) -> (rate: u32)
        requires
            self.wf(),
        ensures
            rate == self.utilization(),
            self.total_liquidity == 0 ==> rate == 0,
            rate <= 10000,
    {
        basis_points(self.total_borrowed, self.total_liquidity)
    }

    /// Whether no principal and no settled interest of any position is
    /// negative.
    fn positions_nonnegative(&self) -> (ok: bool)
        ensures
            ok == (forall|k: int|
                0 <= k < self.lenders@.len() ==> (#[trigger] self.lenders@[k]).info.deposit_amount
                    >= 0 && self.lenders@[k].info.earned_interest >= 0),
    {
        let mut i: usize = 0;
        while i < self.lenders.len()
            invariant
                i <= self.lenders@.len(),
                forall|k: int|
                    0 <= k < i ==> (#[trigger] self.lenders@[k]).info.deposit_amount >= 0
                        && self.lenders@[k].info.earned_interest >= 0,
            decreases self.lenders@.len() - i,
        {
            let info: LenderInfo = self.lenders[i].info;
            if info.deposit_amount < 0 || info.earned_interest < 0 {
                return false;
            }
            i = i + 1;
        }
        true
    }

    /// Whether no lender has two positions.
    fn positions_distinct(&self) -> (ok: bool)
        ensures
            ok == distinct_lenders(self.lenders@),
    {
        let mut i: usize = 0;
        while i < self.lenders.len()
            invariant
                i <= self.lenders@.len(),
                forall|a: int, b: int| 0 <= a < b < i ==> self.lenders@[a].lender
                    != self.lenders@[b].lender,
            decreases self.lenders@.len() - i,
        {
            let mut j: usize = 0;
            while j < i
                invariant
                    j <= i < self.lenders@.len(),
                    forall|a: int| 0 <= a < j ==> self.lenders@[a].lender
                        != self.lenders@[i as int].lender,
                decreases i - j,
            {
                if self.lenders[j].lender == self.lenders[i].lender {
                    return false;
                }
                j = j + 1;
            }
            i = i + 1;
        }
        true
    }

    /// The sum of the principal of all positions, if it fits in 128 bits.
    fn principal_total(&self) -> (total: Option<i128>)
        requires
            forall|k: int|
                0 <= k < self.lenders@.len() ==> (#[trigger] self.lenders@[k]).info.deposit_amount
                    >= 0,
        ensures
            match total {
                Some(sum) => sum == sum_principal(self.lenders@),
                None => sum_principal(self.lenders@) > i128::MAX,
            },
    {
        let mut sum: i128 = 0;
        let mut i: usize = 0;
        proof {
            assert(self.lenders@.take(0) =~= Seq::<LenderEntry>::empty());
        }
        while i < self.lenders.len()
            invariant
                i <= self.lenders@.len(),
                forall|k: int|
                    0 <= k < self.lenders@.len() ==> (#[trigger] self.lenders@[k]).info.deposit_amount
                        >= 0,
                sum == sum_principal(self.lenders@.take(i as int)),
            decreases self.lenders@.len() - i,
        {
            proof {
                lemma_prefix_sum(self.lenders@, i as int);
                lemma_prefix_sum(self.lenders@, i + 1);
            }
            match sum.checked_add(self.lenders[i].info.deposit_amount) {
                Some(next) => {
                    sum = next;
                },
                None => {
                    return None;
                },
            }
            i = i + 1;
        }
        proof {
            assert(self.lenders@.take(i as int) =~= self.lenders@);
        }
        Some(sum)
    }

    /// Whether the ledger is well formed.
    pub fn is_well_formed(&self) -> (ok: bool)
        ensures
            ok == self.wf(),
    {
        if !self.positions_distinct() || !self.positions_nonnegative() {
            return false;
        }
        if self.total_interest_earned < 0 || self.accumulated_interest_per_share < 0 {
            return false;
        }
        match self.principal_total() {
            Some(sum) => {
                if sum != self.total_liquidity {
                    return false;
                }
            },
            None => {
                return false;
            },
        }
        match self.total_liquidity.checked_sub(self.total_borrowed) {
            Some(available) => available >= 0,
            None => false,
        }
    }

    /// Whether a deposit of `amount` stays within the machine limits.
    pub fn deposit_fits(&self, amount: i128) -> (ok: bool)
        requires
            self.wf(),
        ensures
            ok == self.deposit_in_range(amount),
    {
        proof {
            lemma_sum_nonnegative(self.lenders@);
        }
        match self.total_liquidity.checked_add(amount) {
            Some(total) => match total.checked_sub(self.total_borrowed) {
                Some(_) => true,
                None => self.total_borrowed > 0,
            },
            None => false,
        }
    }

    /// Whether a withdrawal of `amount` by `lender` stays within the machine
    /// limits.
    pub fn withdraw_fits(&self, lender: AccountId, amount: i128) -> (ok: bool)
        requires
            self.wf(),
        ensures
            ok == self.withdraw_in_range(lender, amount),
    {
        let info: LenderInfo = self.get_lender_info(lender);
        proof {
            lemma_principal_within_total(*self, lender);
            assert(0 <= info.deposit_amount * self.accumulated_interest_per_share)
                by (nonlinear_arith)
                requires
                    info.deposit_amount >= 0,
                    self.accumulated_interest_per_share >= 0,
            ;
        }
        match info.deposit_amount.checked_mul(self.accumulated_interest_per_share) {
            Some(product) => {
                let pending: i128 = product / 1_000_000_000 - info.earned_interest;
                let settled: i128 = if pending > 0 {
                    pending
                } else {
                    0
                };
                amount.checked_add(settled).is_some()
            },
            None => false,
        }
    }

    /// Whether a repayment of `principal` and `interest` stays within the
    /// machine limits.
    pub fn repay_fits(&self, principal: i128, interest: i128) -> (ok: bool)
        requires
            self.wf(),
        ensures
            ok == self.repay_in_range(principal, interest),
    {
        proof {
            lemma_sum_nonnegative(self.lenders@);
        }
        if principal.checked_add(interest).is_none() {
            // A sum below the range has two negative parts, which pass no limit.
            return principal < 0 && interest < 0;
        }
        let available: i128 = self.total_liquidity - self.total_borrowed;
        if available.checked_add(principal).is_none() {
            return false;
        }
        if self.total_interest_earned.checked_add(interest).is_none() {
            return false;
        }
        if interest > 0 && self.total_liquidity > 0 {
            match (interest as u128).checked_mul(SHARE_SCALE) {
                Some(scaled) => {
                    let per_share: u128 = scaled / (self.total_liquidity as u128);
                    if per_share > i128::MAX as u128 {
                        return false;
                    }
                    self.accumulated_interest_per_share.checked_add(per_share as i128).is_some()
                },
                None => false,
            }
        } else {
            true
        }
    }
}

} // verus!
