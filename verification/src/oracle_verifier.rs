//! The verification oracle: authorized operators confirm a user's remittance
//! history, which mints a credential, and report remittances and missed
//! payments on monitored loans.
//!
//! A report runs through the collateral ledger, the loan ledger and the pool.
//! It is validated against all of them before any of them changes.

use vstd::prelude::*;
use crate::account::AccountId;
use crate::error::Error;
use crate::lending_pool::LendingPool;
use crate::loan_manager::{LoanManager, LoanStatus, PaymentMissedEvent};
use crate::remittance_nft::{
    missed_count, paid_percentage, records_of, RemittanceData, RemittanceNFT,
};

pub use crate::remittance_nft::PaymentRecord;

verus! {

/// Where a verification request stands.
#[derive(Clone, Copy, Debug, PartialEq, Eq, Structural)]
pub enum VerificationStatus {
    Pending,
    Verified,
    Failed,
}

/// A user's request to have their remittance history verified.
#[derive(Debug)]
pub struct VerificationRequest {
    pub user: AccountId,
    /// The remittance provider that holds the history.
    pub provider: soroban_sdk::String,
    /// The user's account with the provider.
    pub account_id: soroban_sdk::String,
    pub request_timestamp: u64,
    pub status: VerificationStatus,
}

/// The oracle's ledger.
#[derive(Debug)]
pub struct OracleVerifier {
    /// The identity under which the oracle acts towards the other ledgers.
    pub address: AccountId,
    pub nft_contract: AccountId,
    /// The only identity that may put a loan under monitoring.
    pub loan_manager: AccountId,
    /// The operators that may submit verifications and reports.
    pub operators: Vec<AccountId>,
    /// At most one request per user.
    pub requests: Vec<VerificationRequest>,
    /// The loans under monitoring.
    pub monitored_loans: Vec<u64>,
}

/// No user has two requests.
pub open spec fn distinct_users(s: Seq<VerificationRequest>) -> bool {
    forall|i: int, j: int| 0 <= i < j < s.len() ==> s[i].user != s[j].user
}

/// Whether `user` has a request among `s`.
pub open spec fn user_known(s: Seq<VerificationRequest>, user: AccountId) -> bool {
    exists|i: int| 0 <= i < s.len() && s[i].user == user
}

/// Where the request of `user` stands in `s`, if they have one.
pub open spec fn user_slot(s: Seq<VerificationRequest>, user: AccountId) -> int {
    choose|i: int| 0 <= i < s.len() && s[i].user == user
}

proof fn lemma_user_slot_unique(s: Seq<VerificationRequest>, i: int)
    requires
        distinct_users(s),
        0 <= i < s.len(),
    ensures
        user_known(s, s[i].user),
        user_slot(s, s[i].user) == i,
{
    let j = user_slot(s, s[i].user);
    if j < i {
        assert(s[j].user != s[i].user);
    } else if i < j {
        assert(s[i].user != s[j].user);
    }
}

proof fn lemma_request_replaced(s: Seq<VerificationRequest>, i: int, r: VerificationRequest)
    requires
        distinct_users(s),
        0 <= i < s.len(),
        r.user == s[i].user,
    ensures
        distinct_users(s.update(i, r)),
        user_known(s.update(i, r), r.user),
        s.update(i, r)[user_slot(s.update(i, r), r.user)] == r,
        forall|other: AccountId|
            other != r.user ==> user_known(s.update(i, r), other) == user_known(s, other) && (
            user_known(s, other) ==> s.update(i, r)[user_slot(s.update(i, r), other)]
                == s[user_slot(s, other)]),
{
    let t = s.update(i, r);
    assert(distinct_users(t)) by {
        assert forall|a: int, b: int| 0 <= a < b < t.len() implies t[a].user != t[b].user by {
            assert(s[a].user != s[b].user);
        }
    }
    lemma_user_slot_unique(t, i);
    assert forall|other: AccountId| other != r.user implies user_known(t, other) == user_known(
        s,
        other,
    ) && (user_known(s, other) ==> t[user_slot(t, other)] == s[user_slot(s, other)]) by {
        if user_known(s, other) {
            let j = user_slot(s, other);
            assert(t[j] == s[j]);
            lemma_user_slot_unique(t, j);
        } else if user_known(t, other) {
            let j = user_slot(t, other);
            assert(s[j] == t[j]);
            assert(user_known(s, other));
        }
    }
}

proof fn lemma_request_added(s: Seq<VerificationRequest>, r: VerificationRequest)
    requires
        distinct_users(s),
        !user_known(s, r.user),
    ensures
        distinct_users(s.push(r)),
        user_known(s.push(r), r.user),
        s.push(r)[user_slot(s.push(r), r.user)] == r,
        forall|other: AccountId|
            other != r.user ==> user_known(s.push(r), other) == user_known(s, other) && (
            user_known(s, other) ==> s.push(r)[user_slot(s.push(r), other)] == s[user_slot(
                s,
                other,
            )]),
{
    let t = s.push(r);
    assert(distinct_users(t)) by {
        assert forall|a: int, b: int| 0 <= a < b < t.len() implies t[a].user != t[b].user by {
            if b < s.len() {
                assert(s[a].user != s[b].user);
            } else {
                assert(s[a].user == t[a].user);
            }
        }
    }
    lemma_user_slot_unique(t, s.len() as int);
    assert forall|other: AccountId| other != r.user implies user_known(t, other) == user_known(
        s,
        other,
    ) && (user_known(s, other) ==> t[user_slot(t, other)] == s[user_slot(s, other)]) by {
        if user_known(s, other) {
            let j = user_slot(s, other);
            assert(t[j] == s[j]);
            lemma_user_slot_unique(t, j);
        } else if user_known(t, other) {
            let j = user_slot(t, other);
            assert(s[j] == t[j]);
            assert(user_known(s, other));
        }
    }
}

impl OracleVerifier {
    /// What holds of the ledger between operations: no user has two requests.
    pub open spec fn wf(self) -> bool {
        distinct_users(self.requests@)
    }

    /// Whether `operator` is authorized.
    pub open spec fn is_operator(self, operator: AccountId) -> bool {
        self.operators@.contains(operator)
    }

    /// Whether loan `loan_id` is under monitoring.
    pub open spec fn is_monitored(self, loan_id: u64) -> bool {
        self.monitored_loans@.contains(loan_id)
    }

    /// Whether `user` has a request.
    pub open spec fn has_request(self, user: AccountId) -> bool {
        user_known(self.requests@, user)
    }

    /// The request of `user`.
    pub open spec fn request_of(self, user: AccountId) -> VerificationRequest {
        self.requests@[user_slot(self.requests@, user)]
    }

    /// Both ledgers have the same identity, peers and operators.
    pub open spec fn same_config(self, other: OracleVerifier) -> bool {
        &&& self.address == other.address
        &&& self.nft_contract == other.nft_contract
        &&& self.loan_manager == other.loan_manager
        &&& self.operators@ == other.operators@
    }

    /// Every request but that of `user` is the same in both ledgers.
    pub open spec fn same_requests_except(self, other: OracleVerifier, user: AccountId) -> bool {
        forall|who: AccountId|
            who != user ==> self.has_request(who) == other.has_request(who) && (other.has_request(
                who,
            ) ==> self.request_of(who) == other.request_of(who))
    }

    /// Why a verification is refused, if it is. The checks are made in this
    /// order.
    pub open spec fn verification_error(self, operator: AccountId, user: AccountId) -> Option<
        Error,
    > {
        if !self.is_operator(operator) {
            Some(Error::Unauthorized)
        } else if !self.has_request(user) {
            Some(Error::NotFound)
        } else if self.request_of(user).status != VerificationStatus::Pending {
            Some(Error::InvalidState)
        } else {
            None
        }
    }

    /// Why a reported remittance is refused, if it is: the operator is checked
    /// first, then that the loan is monitored, then the collateral ledger, then
    /// the repayment itself.
    pub open spec fn remittance_error(
        self,
        nft: RemittanceNFT,
        manager: LoanManager,
        pool: LendingPool,
        operator: AccountId,
        nft_id: u64,
        amount: i128,
        loan_id: u64,
    ) -> Option<Error> {
        if !self.is_operator(operator) {
            Some(Error::Unauthorized)
        } else if !self.is_monitored(loan_id) {
            Some(Error::InvalidState)
        } else if nft.report_error(self.address, nft_id) is Some {
            nft.report_error(self.address, nft_id)
        } else {
            manager.automatic_repayment_error(nft, pool, self.address, loan_id, amount)
        }
    }

    /// Why a reported missed payment is refused, if it is: the operator is
    /// checked first, then the collateral ledger, then the loan ledger.
    pub open spec fn missed_payment_error(
        self,
        nft: RemittanceNFT,
        manager: LoanManager,
        operator: AccountId,
        loan_id: u64,
        nft_id: u64,
    ) -> Option<Error> {
        if !self.is_operator(operator) {
            Some(Error::Unauthorized)
        } else if nft.report_error(self.address, nft_id) is Some {
            nft.report_error(self.address, nft_id)
        } else {
            manager.missed_error(self.address, loan_id)
        }
    }

    /// An oracle that acts as `address`, with the given peers and operators
    /// and with no requests and no monitored loans.
    pub fn initialize(
        address: AccountId,
        nft_contract: AccountId,
        loan_manager: AccountId,
        operators: Vec<AccountId>,
    ) -> (oracle: OracleVerifier)
        ensures
            oracle.wf(),
            oracle.address == address,
            oracle.nft_contract == nft_contract,
            oracle.loan_manager == loan_manager,
            oracle.operators@ == operators@,
            oracle.requests@.len() == 0,
            oracle.monitored_loans@.len() == 0,
    {
        OracleVerifier {
            address,
            nft_contract,
            loan_manager,
            operators,
            requests: Vec::new(),
            monitored_loans: Vec::new(),
        }
    }

    /// Accepts `operator` if it is authorized; fails with `Unauthorized` if
    /// it is not.
    pub fn verify_operator(&self, operator: AccountId) -> (result: Result<(), Error>)
        ensures
            result is Ok <==> self.is_operator(operator),
            result is Err ==> result == Err::<(), Error>(Error::Unauthorized),
    {
        let mut i: usize = 0;
        while i < self.operators.len()
            invariant
                i <= self.operators@.len(),
                forall|k: int| 0 <= k < i ==> self.operators@[k] != operator,
            decreases self.operators@.len() - i,
        {
            if self.operators[i] == operator {
                return Ok(());
            }
            i = i + 1;
        }
        Err(Error::Unauthorized)
    }

    /// Whether loan `loan_id` is under monitoring.
    pub fn is_loan_monitored(&self, loan_id: u64) -> (yes: bool)
        ensures
            yes == self.is_monitored(loan_id),
    {
        let mut i: usize = 0;
        while i < self.monitored_loans.len()
            invariant
                i <= self.monitored_loans@.len(),
                forall|k: int| 0 <= k < i ==> self.monitored_loans@[k] != loan_id,
            decreases self.monitored_loans@.len() - i,
        {
            if self.monitored_loans[i] == loan_id {
                return true;
            }
            i = i + 1;
        }
        false
    }

    /// Where the request of `user` stands among the requests.
    fn find_request(&self, user: AccountId) -> (slot: Option<usize>)
        requires
            self.wf(),
        ensures
            match slot {
                Some(i) => i < self.requests@.len() && self.requests@[i as int].user == user
                    && self.has_request(user) && user_slot(self.requests@, user) == i,
                None => !self.has_request(user),
            },
    {
        let mut i: usize = 0;
        while i < self.requests.len()
            invariant
                i <= self.requests@.len(),
                self.wf(),
                forall|k: int| 0 <= k < i ==> self.requests@[k].user != user,
            decreases self.requests@.len() - i,
        {
            if self.requests[i].user == user {
                proof {
                    lemma_user_slot_unique(self.requests@, i as int);
                }
                return Some(i);
            }
            i = i + 1;
        }
        None
    }

    /// The reliability score of a reported history: the percentage of paid
    /// months, and 100 of an empty history.
    pub fn calculate_reliability_score(payment_history: &soroban_sdk::Vec<u64>) -> (score:
        u32)
        ensures
            score == paid_percentage(records_of(*payment_history)),
            score <= 100,
    {
        RemittanceNFT::calculate_paid_percentage(payment_history)
    }

    /// Records that `user` asks to have their history with `provider`
    /// verified. A request that the user made before is replaced.
    pub fn request_verification(
        &mut self,
        user: AccountId,
        provider: soroban_sdk::String,
        account_id: soroban_sdk::String,
        now: u64,
    )
        requires
            old(self).wf(),
        ensures
            final(self).wf(),
            final(self).same_config(*old(self)),
            final(self).monitored_loans@ == old(self).monitored_loans@,
            final(self).has_request(user),
            final(self).request_of(user) == (VerificationRequest {
                user,
                provider,
                account_id,
                request_timestamp: now,
                status: VerificationStatus::Pending,
            }),
            final(self).same_requests_except(*old(self), user),
    {
        let request = VerificationRequest {
            user,
            provider,
            account_id,
            request_timestamp: now,
            status: VerificationStatus::Pending,
        };
        match self.find_request(user) {
            Some(i) => {
                proof {
                    lemma_request_replaced(self.requests@, i as int, request);
                }
                self.requests.set(i, request);
            },
            None => {
                proof {
                    lemma_request_added(self.requests@, request);
                }
                self.requests.push(request);
            },
        }
    }

    /// Confirms the pending request of `user` with the history that
    /// `operator` found, mints a credential for the user with the score of that
    /// history, and returns the credential's number.
    ///
    /// Fails with `Unauthorized` unless the operator is authorized, with
    /// `NotFound` if the user has no request, and with `InvalidState` unless
    /// the request is pending.
    ///
    /// The number of credentials must not be at its machine limit.
    pub fn submit_verification(
        &mut self,
        nft: &mut RemittanceNFT,
        operator: AccountId,
        user: AccountId,
        monthly_amount: i128,
        history_months: u32,
        total_sent: i128,
        payment_history: soroban_sdk::Vec<u64>,
        now: u64,
    ) -> (result: Result<u64, Error>)
        requires
            old(self).wf(),
            old(nft).wf(),
            old(self).verification_error(operator, user) is None ==> old(nft).token_counter
                < u64::MAX,
        ensures
            final(self).wf(),
            final(nft).wf(),
            match result {
                Ok(token_id) => {
                    &&& old(self).verification_error(operator, user) is None
                    &&& final(self).same_config(*old(self))
                    &&& final(self).monitored_loans@ == old(self).monitored_loans@
                    &&& final(self).requests@ == old(self).requests@.update(
                        user_slot(old(self).requests@, user),
                        (VerificationRequest {
                            status: VerificationStatus::Verified,
                            ..old(self).request_of(user)
                        }),
                    )
                    &&& final(self).has_request(user)
                    &&& final(self).request_of(user).status == VerificationStatus::Verified
                    &&& final(self).same_requests_except(*old(self), user)
                    &&& token_id == old(nft).token_counter + 1
                    &&& final(nft).token_counter == token_id
                    &&& final(nft).oracle == old(nft).oracle
                    &&& final(nft).loan_manager == old(nft).loan_manager
                    &&& final(nft).history_of(token_id) == records_of(payment_history)
                    &&& final(nft).data_of(token_id) == (RemittanceData {
                        owner: user,
                        monthly_amount,
                        reliability_score: paid_percentage(records_of(payment_history)) as u32,
                        history_months,
                        total_sent,
                        last_remittance_timestamp: now,
                        lifetime_missed_payments: missed_count(
                            records_of(payment_history),
                        ) as u32,
                        is_staked: false,
                        staked_in_loan: 0,
                    })
                    &&& forall|t: u64|
                        old(nft).has_token(t) ==> final(nft).data_of(t) == old(nft).data_of(t)
                            && final(nft).history_of(t) == old(nft).history_of(t)
                },
                Err(e) => {
                    &&& old(self).verification_error(operator, user) == Some(e)
                    &&& *final(self) == *old(self)
                    &&& *final(nft) == *old(nft)
                },
            },
    {
        match self.verify_operator(operator) {
            Ok(_) => {},
            Err(e) => {
                return Err(e);
            },
        }
        let i: usize = match self.find_request(user) {
            Some(i) => i,
            None => {
                return Err(Error::NotFound);
            },
        };
        if self.requests[i].status != VerificationStatus::Pending {
            return Err(Error::InvalidState);
        }
        let reliability_score: u32 = Self::calculate_reliability_score(&payment_history);
        let token_id: u64 = nft.mint(
            user,
            monthly_amount,
            reliability_score,
            history_months,
            total_sent,
            payment_history,
            now,
        );
        proof {
            lemma_request_replaced(
                self.requests@,
                i as int,
                VerificationRequest {
                    status: VerificationStatus::Verified,
                    ..self.requests@[i as int]
                },
            );
        }
        self.requests[i].status = VerificationStatus::Verified;
        Ok(token_id)
    }

    /// Puts loan `loan_id` under monitoring. Only the registered loan manager
    /// may do so; any other caller fails with `Unauthorized`.
    pub fn start_monitoring_loan(&mut self, caller: AccountId, loan_id: u64) -> (result: Result<
        (),
        Error,
    >)
        requires
            old(self).wf(),
        ensures
            final(self).wf(),
            match result {
                Ok(_) => {
                    &&& caller == old(self).loan_manager
                    &&& final(self).same_config(*old(self))
                    &&& final(self).requests == old(self).requests
                    &&& final(self).is_monitored(loan_id)
                    &&& forall|other: u64|
                        other != loan_id ==> final(self).is_monitored(other) == old(self).is_monitored(other)
                },
                Err(e) => e == Error::Unauthorized && caller != old(self).loan_manager && *final(self) == *old(self),
            },
    {
        if caller != self.loan_manager {
            return Err(Error::Unauthorized);
        }
        if !self.is_loan_monitored(loan_id) {
            let ghost before = self.monitored_loans@;
            self.monitored_loans.push(loan_id);
            proof {
                let after = self.monitored_loans@;
                assert(after[before.len() as int] == loan_id);
                assert forall|other: u64| other != loan_id implies after.contains(other)
                    == before.contains(other) by {
                    if before.contains(other) {
                        let k = choose|k: int| 0 <= k < before.len() && before[k] == other;
                        assert(after[k] == other);
                    }
                }
            }
        }
        Ok(())
    }

    /// Reports a remittance of `amount` that pays towards the monitored loan
    /// `loan_id`: the remittance is recorded on credential `nft_id`, the
    /// instalment is paid on the loan out of it, and what is left of the
    /// remittance is returned.
    ///
    /// Fails with `Unauthorized` unless the operator is authorized, with
    /// `InvalidState` unless the loan is monitored, with the collateral
    /// ledger's error if it refuses the report, and otherwise as the automatic
    /// repayment fails. On failure none of the ledgers has changed.
    ///
    /// The report must stay within the machine limits of the three ledgers,
    /// which `report_remittance_fits` tests.
    pub fn report_remittance(
        &self,
        nft: &mut RemittanceNFT,
        manager: &mut LoanManager,
        pool: &mut LendingPool,
        operator: AccountId,
        nft_id: u64,
        amount: i128,
        loan_id: u64,
        now: u64,
    ) -> (result: Result<i128, Error>)
        requires
            self.wf(),
            old(nft).wf(),
            old(manager).wf(),
            old(pool).wf(),
            old(nft).report_error(self.address, nft_id) is None ==> old(nft).data_of(
                nft_id,
            ).history_months < u32::MAX,
            old(manager).has_loan(loan_id) && old(manager).loan(loan_id).status
                == LoanStatus::Active ==> old(manager).payment_in_range(
                loan_id,
                old(manager).automatic_payment(loan_id, amount),
            ),
            self.remittance_error(
                *old(nft),
                *old(manager),
                *old(pool),
                operator,
                nft_id,
                amount,
                loan_id,
            ) is None ==> old(pool).repay_in_range(
                old(manager).principal_due(
                    loan_id,
                    old(manager).automatic_payment(loan_id, amount),
                ) as i128,
                old(manager).interest_due(loan_id) as i128,
            ),
        ensures
            final(nft).wf(),
            final(manager).wf(),
            final(pool).wf(),
            match result {
                Ok(leftover) => {
                    &&& self.remittance_error(
                        *old(nft),
                        *old(manager),
                        *old(pool),
                        operator,
                        nft_id,
                        amount,
                        loan_id,
                    ) is None
                    &&& leftover == amount - old(manager).automatic_payment(loan_id, amount)
                    &&& leftover >= 0
                    &&& exists|recorded: RemittanceNFT|
                        {
                            &&& old(nft).remittance_recorded(recorded, nft_id, amount, 0, now)
                            &&& old(manager).paid(
                                recorded,
                                *old(pool),
                                *final(manager),
                                *final(nft),
                                *final(pool),
                                loan_id,
                                old(manager).automatic_payment(loan_id, amount),
                            )
                        }
                },
                Err(e) => {
                    &&& self.remittance_error(
                        *old(nft),
                        *old(manager),
                        *old(pool),
                        operator,
                        nft_id,
                        amount,
                        loan_id,
                    ) == Some(e)
                    &&& *final(nft) == *old(nft)
                    &&& *final(manager) == *old(manager)
                    &&& *final(pool) == *old(pool)
                },
            },
    {
        match self.verify_operator(operator) {
            Ok(_) => {},
            Err(e) => {
                return Err(e);
            },
        }
        if !self.is_loan_monitored(loan_id) {
            return Err(Error::InvalidState);
        }
        match nft.check_report(self.address, nft_id) {
            Ok(_) => {},
            Err(e) => {
                return Err(e);
            },
        }
        match manager.check_automatic_repayment(nft, pool, self.address, loan_id, amount) {
            Ok(_) => {},
            Err(e) => {
                return Err(e);
            },
        }
        let updated = nft.update_remittance_data(self.address, nft_id, amount, 0, now);
        assert(updated is Ok);
        let ghost recorded: RemittanceNFT = *nft;
        let repaid = manager.process_automatic_repayment(nft, pool, self.address, loan_id, amount);
        assert(repaid is Ok);
        assert(old(nft).remittance_recorded(recorded, nft_id, amount, 0, now));
        repaid
    }

    /// Reports a missed payment on loan `loan_id`, which credential `nft_id`
    /// backs: the miss is recorded on the credential and on the loan, which
    /// defaults on its second miss.
    ///
    /// Fails with `Unauthorized` unless the operator is authorized, with the
    /// collateral ledger's error if it refuses the report, and with the loan
    /// ledger's error if it does. On failure neither ledger has changed.
    ///
    /// The credential's counts of months and of missed payments must not be
    /// at their machine limits.
    pub fn report_missed_payment(
        &self,
        nft: &mut RemittanceNFT,
        manager: &mut LoanManager,
        operator: AccountId,
        loan_id: u64,
        nft_id: u64,
    ) -> (result: Result<PaymentMissedEvent, Error>)
        requires
            self.wf(),
            old(nft).wf(),
            old(manager).wf(),
            old(nft).report_error(self.address, nft_id) is None ==> old(nft).data_of(
                nft_id,
            ).history_months < u32::MAX && old(nft).data_of(nft_id).lifetime_missed_payments
                < u32::MAX,
        ensures
            final(nft).wf(),
            final(manager).wf(),
            match result {
                Ok(event) => {
                    &&& self.missed_payment_error(
                        *old(nft),
                        *old(manager),
                        operator,
                        loan_id,
                        nft_id,
                    ) is None
                    &&& old(nft).miss_recorded(*final(nft), nft_id)
                    &&& old(manager).loan_replaced(
                        *final(manager),
                        loan_id,
                        old(manager).missed_loan(loan_id),
                    )
                    &&& event == (PaymentMissedEvent {
                        loan_id,
                        missed_count: final(manager).loan(loan_id).payments_missed,
                    })
                },
                Err(e) => {
                    &&& self.missed_payment_error(
                        *old(nft),
                        *old(manager),
                        operator,
                        loan_id,
                        nft_id,
                    ) == Some(e)
                    &&& *final(nft) == *old(nft)
                    &&& *final(manager) == *old(manager)
                },
            },
    {
        match self.verify_operator(operator) {
            Ok(_) => {},
            Err(e) => {
                return Err(e);
            },
        }
        match nft.check_report(self.address, nft_id) {
            Ok(_) => {},
            Err(e) => {
                return Err(e);
            },
        }
        match manager.check_payment_missed(self.address, loan_id) {
            Ok(_) => {},
            Err(e) => {
                return Err(e);
            },
        }
        let recorded = nft.mark_payment_missed(self.address, nft_id);
        assert(recorded is Ok);
        let missed = manager.mark_payment_missed(self.address, loan_id);
        assert(missed is Ok);
        missed
    }

    /// Where the request of `user` stands. Fails with `NotFound` if the user
    /// has no request.
    pub fn get_verification_status(&self, user: AccountId) -> (result: Result<
        VerificationStatus,
        Error,
    >)
        requires
            self.wf(),
        ensures
            match result {
                Ok(status) => self.has_request(user) && status == self.request_of(user).status,
                Err(e) => e == Error::NotFound && !self.has_request(user),
            },
    {
        match self.find_request(user) {
            Some(i) => Ok(self.requests[i].status),
            None => Err(Error::NotFound),
        }
    }

    /// Whether the ledger is well formed.
    pub fn is_well_formed(&self) -> (ok: bool)
        ensures
            ok == self.wf(),
    {
        let mut i: usize = 0;
        while i < self.requests.len()
            invariant
                i <= self.requests@.len(),
                forall|a: int, b: int| 0 <= a < b < i ==> self.requests@[a].user
                    != self.requests@[b].user,
            decreases self.requests@.len() - i,
        {
            let mut j: usize = 0;
            while j < i
                invariant
                    j <= i < self.requests@.len(),
                    forall|a: int| 0 <= a < j ==> self.requests@[a].user
                        != self.requests@[i as int].user,
                decreases i - j,
            {
                if self.requests[j].user == self.requests[i].user {
                    return false;
                }
                j = j + 1;
            }
            i = i + 1;
        }
        true
    }

    /// Whether a report of a remittance stays within the machine limits of
    /// the three ledgers: what `report_remittance` asks of its caller beyond
    /// well-formed ledgers.
    pub fn report_remittance_fits(
        &self,
        nft: &RemittanceNFT,
        manager: &LoanManager,
        pool: &LendingPool,
        operator: AccountId,
        nft_id: u64,
        amount: i128,
        loan_id: u64,
    ) -> (ok: bool)
        requires
            self.wf(),
            nft.wf(),
            manager.wf(),
            pool.wf(),
        ensures
            ok == ((nft.report_error(self.address, nft_id) is None ==> nft.data_of(
                nft_id,
            ).history_months < u32::MAX) && (manager.has_loan(loan_id) && manager.loan(
                loan_id,
            ).status == LoanStatus::Active ==> manager.payment_in_range(
                loan_id,
                manager.automatic_payment(loan_id, amount),
            )) && (self.remittance_error(*nft, *manager, *pool, operator, nft_id, amount, loan_id)
                is None ==> pool.repay_in_range(
                manager.principal_due(loan_id, manager.automatic_payment(loan_id, amount)) as i128,
                manager.interest_due(loan_id) as i128,
            ))),
    {
        let reportable: bool = nft.check_report(self.address, nft_id).is_ok();
        if reportable {
            match nft.get_nft_data(nft_id) {
                Ok(data) => {
                    if data.history_months == u32::MAX {
                        return false;
                    }
                },
                Err(_) => {},
            }
        }
        if !manager.automatic_payment_fits(loan_id, amount) {
            return false;
        }
        if self.verify_operator(operator).is_ok() && self.is_loan_monitored(loan_id) && reportable {
            manager.automatic_repayment_fits(nft, pool, self.address, loan_id, amount)
        } else {
            true
        }
    }
}

} // verus!
