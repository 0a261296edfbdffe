//! The collateral ledger: remittance credentials, their payment history and
//! reliability score, their appraised value, and whether each is locked in a
//! loan.
//!
//! A payment history is a vector of the Soroban host with one number per
//! month: twice the month's index, plus one if the month was paid. The host
//! does not promise that every item of a vector it hands over is such a
//! number. A month whose item cannot be read counts as missed.

use vstd::prelude::*;
use crate::account::AccountId;
use crate::error::Error;
use crate::host::{history_entries, history_get, history_len, history_push_back, history_remove};
use crate::math::trunc_div;

verus! {

/// How many months of payment history a credential keeps once it is updated.
pub const HISTORY_WINDOW: u32 = 24;

/// What a credential says of its owner's remittances.
#[derive(Clone, Copy, Debug, PartialEq, Eq, Structural)]
pub struct RemittanceData {
    pub owner: AccountId,
    /// What the owner sends per month, in the asset's smallest unit.
    pub monthly_amount: i128,
    /// From 0 to 100.
    pub reliability_score: u32,
    pub history_months: u32,
    pub total_sent: i128,
    pub last_remittance_timestamp: u64,
    pub lifetime_missed_payments: u32,
    pub is_staked: bool,
    /// The loan in which the credential is locked; 0 while it is not.
    pub staked_in_loan: u64,
}

/// One month of a payment history.
#[derive(Clone, Copy, Debug, PartialEq, Eq, Structural)]
pub struct PaymentRecord {
    pub month_index: u32,
    /// Whether the month's remittance was sent.
    pub paid: bool,
}

/// A credential: its data and its payment history, oldest month first.
#[derive(Debug)]
pub struct Token {
    pub data: RemittanceData,
    pub history: soroban_sdk::Vec<u64>,
}

/// The collateral ledger. Credentials are numbered from 1 in the order in which
/// they were minted.
#[derive(Debug)]
pub struct RemittanceNFT {
    /// The only identity that may report remittances and missed payments; none
    /// until the ledger is initialized.
    pub oracle: Option<AccountId>,
    /// The only identity that may lock and release credentials.
    pub loan_manager: Option<AccountId>,
    /// The number of credentials minted so far.
    pub token_counter: u64,
    pub tokens: Vec<Token>,
}

/// The number that stands for a month in a host vector: twice its index, plus
/// one if it was paid.
pub open spec fn month_code(record: PaymentRecord) -> int {
    record.month_index * 2 + if record.paid {
        1int
    } else {
        0int
    }
}

/// The month that an item of a host vector stands for, if it stands for one:
/// the item is a number, and half of it is a month's index.
pub open spec fn month_of(entry: Option<u64>) -> Option<PaymentRecord> {
    match entry {
        Some(code) => if code / 2 <= u32::MAX {
            Some(PaymentRecord { month_index: (code / 2) as u32, paid: code % 2 == 1 })
        } else {
            None
        },
        None => None,
    }
}

/// The months of a payment history, oldest first; nothing stands where the
/// host's item cannot be read.
pub open spec fn records_of(history: soroban_sdk::Vec<u64>) -> Seq<Option<PaymentRecord>> {
    history_entries(history).map_values(|entry: Option<u64>| month_of(entry))
}

/// Whether a month counts as paid: its record can be read and says so.
pub open spec fn counts_as_paid(month: Option<PaymentRecord>) -> bool {
    month is Some && month->Some_0.paid
}

/// How many months of `s` were paid.
pub open spec fn paid_count(s: Seq<Option<PaymentRecord>>) -> int
    decreases s.len(),
{
    if s.len() == 0 {
        0
    } else {
        paid_count(s.drop_last()) + if counts_as_paid(s.last()) {
            1int
        } else {
            0int
        }
    }
}

/// How many months of `s` were missed.
pub open spec fn missed_count(s: Seq<Option<PaymentRecord>>) -> int {
    s.len() - paid_count(s)
}

/// The percentage of paid months in `s`; 100 of an empty history.
pub open spec fn paid_percentage(s: Seq<Option<PaymentRecord>>) -> int {
    if s.len() > 0 {
        (paid_count(s) * 100) / (s.len() as int)
    } else {
        100
    }
}

/// The points that `missed` missed payments over a lifetime take off a score:
/// 2 for the first, 3 for the second, 4 for the third, 5 for each one after.
pub open spec fn lifetime_penalty(missed: int) -> int {
    if missed <= 0 {
        0
    } else if missed == 1 {
        2
    } else if missed == 2 {
        5
    } else if missed == 3 {
        9
    } else {
        9 + (missed - 3) * 5
    }
}

/// The reliability score: the percentage of paid months in the history less
/// the lifetime penalty, and never below zero.
pub open spec fn score_of(s: Seq<Option<PaymentRecord>>, missed: int) -> int {
    let recent = paid_percentage(s);
    let penalty = lifetime_penalty(missed);
    if recent > penalty {
        recent - penalty
    } else {
        0
    }
}

/// The history `s` with one more month: the new record goes last, and the
/// oldest month leaves if the history would then pass the window.
pub open spec fn with_record(s: Seq<Option<PaymentRecord>>, r: PaymentRecord) -> Seq<
    Option<PaymentRecord>,
> {
    let t = s.push(Some(r));
    if t.len() > 24 {
        t.remove(0)
    } else {
        t
    }
}

/// The appraised value of monthly remittances of `monthly_amount` over
/// `duration_months`, weighted by the score and cut to a 70% advance rate.
/// Each division rounds towards zero.
pub open spec fn collateral_value(monthly_amount: int, score: int, duration_months: int) -> int {
    let base = monthly_amount * duration_months;
    let adjusted = trunc_div(base * score, 100);
    trunc_div(adjusted * 70, 100)
}

/// The machine limits of an appraisal: each product fits in 128 bits.
pub open spec fn collateral_value_in_range(
    monthly_amount: int,
    score: int,
    duration_months: int,
) -> bool {
    let base = monthly_amount * duration_months;
    let adjusted = trunc_div(base * score, 100);
    &&& i128::MIN <= base <= i128::MAX
    &&& i128::MIN <= base * score <= i128::MAX
    &&& i128::MIN <= adjusted * 70 <= i128::MAX
}

proof fn lemma_paid_count_bounds(s: Seq<Option<PaymentRecord>>)
    ensures
        0 <= paid_count(s) <= s.len(),
    decreases s.len(),
{
    if s.len() > 0 {
        lemma_paid_count_bounds(s.drop_last());
    }
}

/// A percentage of paid months is between 0 and 100.
pub proof fn lemma_paid_percentage_bounds(s: Seq<Option<PaymentRecord>>)
    ensures
        0 <= paid_percentage(s) <= 100,
{
    lemma_paid_count_bounds(s);
    if s.len() > 0 {
        let p = paid_count(s);
        let n = s.len() as int;
        assert(0 <= (p * 100) / n <= 100) by (nonlinear_arith)
            requires
                0 <= p <= n,
                n > 0,
        ;
    }
}

/// The number that stands for the month `record` in a host vector.
pub fn encode_month(record: PaymentRecord) -> (code: u64)
    ensures
        code == month_code(record),
        month_of(Some(code)) == Some(record),
{
    let flag: u64 = if record.paid {
        1
    } else {
        0
    };
    (record.month_index as u64) * 2 + flag
}

/// The month that the number `code` stands for, if it stands for one.
pub fn decode_month(code: u64) -> (record: Option<PaymentRecord>)
    ensures
        record == month_of(Some(code)),
{
    let index: u64 = code / 2;
    if index <= u32::MAX as u64 {
        Some(PaymentRecord { month_index: index as u32, paid: code % 2 == 1 })
    } else {
        None
    }
}

/// The month at position `i` of the history, if there is one that can be
/// read.
fn month_at(payment_history: &soroban_sdk::Vec<u64>, i: u32) -> (record: Option<PaymentRecord>)
    requires
        i < records_of(*payment_history).len(),
    ensures
        record == records_of(*payment_history)[i as int],
{
    match history_get(payment_history, i) {
        Some(code) => decode_month(code),
        None => None,
    }
}

/// How many months of the history were paid.
pub fn count_paid_months(payment_history: &soroban_sdk::Vec<u64>) -> (count: u32)
    ensures
        count == paid_count(records_of(*payment_history)),
        count <= records_of(*payment_history).len(),
{
    let total: u32 = history_len(payment_history);
    let ghost records = records_of(*payment_history);
    let mut count: u32 = 0;
    let mut i: u32 = 0;
    while i < total
        invariant
            total == records.len(),
            records == records_of(*payment_history),
            i <= total,
            count == paid_count(records.take(i as int)),
            count <= i,
        decreases total - i,
    {
        proof {
            assert(records.take(i + 1).drop_last() =~= records.take(i as int));
        }
        match month_at(payment_history, i) {
            Some(record) => {
                if record.paid {
                    count = count + 1;
                }
            },
            None => {},
        }
        i = i + 1;
    }
    proof {
        assert(records.take(i as int) =~= records);
    }
    count
}

/// The months of the history as records, oldest first.
pub fn read_history(payment_history: &soroban_sdk::Vec<u64>) -> (months: Vec<
    Option<PaymentRecord>,
>)
    ensures
        months@ == records_of(*payment_history),
{
    let total: u32 = history_len(payment_history);
    let mut months: Vec<Option<PaymentRecord>> = Vec::new();
    let mut i: u32 = 0;
    while i < total
        invariant
            total == records_of(*payment_history).len(),
            i <= total,
            months@ == records_of(*payment_history).take(i as int),
        decreases total - i,
    {
        let month: Option<PaymentRecord> = month_at(payment_history, i);
        months.push(month);
        proof {
            assert(months@ =~= records_of(*payment_history).take(i + 1));
        }
        i = i + 1;
    }
    proof {
        assert(records_of(*payment_history).take(i as int) =~= records_of(*payment_history));
    }
    months
}

/// Adds the month `record` to the history: it goes last, and the oldest month
/// leaves if the history then passes the window.
fn append_month(payment_history: &mut soroban_sdk::Vec<u64>, record: PaymentRecord)
    ensures
        records_of(*final(payment_history)) == with_record(
            records_of(*old(payment_history)),
            record,
        ),
{
    history_push_back(payment_history, encode_month(record));
    assert(records_of(*payment_history) =~= records_of(*old(payment_history)).push(Some(record)));
    if history_len(payment_history) > HISTORY_WINDOW {
        let ghost longer = records_of(*payment_history);
        let removed = history_remove(payment_history, 0);
        assert(removed is Some);
        assert(records_of(*payment_history) =~= longer.remove(0));
    }
}

impl RemittanceNFT {
    /// What holds of the ledger between operations: the counter is the number
    /// of credentials.
    pub open spec fn wf(self) -> bool {
        self.tokens@.len() == self.token_counter
    }

    /// Whether a credential is numbered `token_id`.
    pub open spec fn has_token(self, token_id: u64) -> bool {
        1 <= token_id <= self.token_counter
    }

    /// The data of credential `token_id`.
    pub open spec fn data_of(self, token_id: u64) -> RemittanceData {
        self.tokens@[token_id - 1].data
    }

    /// The payment history of credential `token_id`, oldest month first.
    pub open spec fn history_of(self, token_id: u64) -> Seq<Option<PaymentRecord>> {
        records_of(self.tokens@[token_id - 1].history)
    }

    /// Both ledgers have the same registered peers and the same number of
    /// credentials.
    pub open spec fn same_registry(self, other: RemittanceNFT) -> bool {
        &&& self.oracle == other.oracle
        &&& self.loan_manager == other.loan_manager
        &&& self.token_counter == other.token_counter
    }

    /// Every credential but `token_id` is the same in both ledgers.
    pub open spec fn same_tokens_except(self, other: RemittanceNFT, token_id: u64) -> bool {
        forall|t: u64|
            other.has_token(t) && t != token_id ==> self.data_of(t) == other.data_of(t)
                && self.history_of(t) == other.history_of(t)
    }

    /// Why locking a credential is refused, if it is. The checks are made in
    /// this order.
    pub open spec fn stake_error(self, caller: AccountId, token_id: u64) -> Option<Error> {
        if self.loan_manager != Some(caller) {
            Some(Error::Unauthorized)
        } else if !self.has_token(token_id) {
            Some(Error::NotFound)
        } else if self.data_of(token_id).is_staked {
            Some(Error::AlreadyStaked)
        } else {
            None
        }
    }

    /// Why releasing a credential is refused, if it is. The checks are made in
    /// this order.
    pub open spec fn unstake_error(self, caller: AccountId, token_id: u64) -> Option<Error> {
        if self.loan_manager != Some(caller) {
            Some(Error::Unauthorized)
        } else if !self.has_token(token_id) {
            Some(Error::NotFound)
        } else if !self.data_of(token_id).is_staked {
            Some(Error::NotStaked)
        } else {
            None
        }
    }

    /// Why a report on a credential is refused, if it is. The checks are made
    /// in this order.
    pub open spec fn report_error(self, caller: AccountId, token_id: u64) -> Option<Error> {
        if self.oracle != Some(caller) {
            Some(Error::Unauthorized)
        } else if !self.has_token(token_id) {
            Some(Error::NotFound)
        } else {
            None
        }
    }

    /// What locking credential `token_id` in loan `loan_id` makes of the ledger
    /// `self`.
    pub open spec fn staked(self, post: RemittanceNFT, token_id: u64, loan_id: u64) -> bool {
        &&& post.same_registry(self)
        &&& post.data_of(token_id) == (RemittanceData {
            is_staked: true,
            staked_in_loan: loan_id,
            ..self.data_of(token_id)
        })
        &&& post.history_of(token_id) == self.history_of(token_id)
        &&& post.same_tokens_except(self, token_id)
    }

    /// What releasing credential `token_id` makes of the ledger `self`.
    pub open spec fn unstaked(self, post: RemittanceNFT, token_id: u64) -> bool {
        &&& post.same_registry(self)
        &&& post.data_of(token_id) == (RemittanceData {
            is_staked: false,
            staked_in_loan: 0,
            ..self.data_of(token_id)
        })
        &&& post.history_of(token_id) == self.history_of(token_id)
        &&& post.same_tokens_except(self, token_id)
    }

    /// What a reported remittance makes of the ledger `self`: a paid month
    /// joins the history of the credential, its amounts are replaced, and its
    /// score is taken anew.
    pub open spec fn remittance_recorded(
        self,
        post: RemittanceNFT,
        token_id: u64,
        new_monthly_amount: i128,
        new_total_sent: i128,
        now: u64,
    ) -> bool {
        let before = self.data_of(token_id);
        let history = with_record(
            self.history_of(token_id),
            PaymentRecord { month_index: (before.history_months + 1) as u32, paid: true },
        );
        &&& post.same_registry(self)
        &&& post.history_of(token_id) == history
        &&& post.data_of(token_id) == (RemittanceData {
            monthly_amount: new_monthly_amount,
            total_sent: new_total_sent,
            history_months: (before.history_months + 1) as u32,
            last_remittance_timestamp: now,
            reliability_score: score_of(history, before.lifetime_missed_payments as int) as u32,
            ..before
        })
        &&& post.same_tokens_except(self, token_id)
    }

    /// What a reported missed payment makes of the ledger `self`: a missed
    /// month joins the history of the credential, its lifetime count of missed
    /// payments goes up by one, and its score is taken anew.
    pub open spec fn miss_recorded(self, post: RemittanceNFT, token_id: u64) -> bool {
        let before = self.data_of(token_id);
        let history = with_record(
            self.history_of(token_id),
            PaymentRecord { month_index: (before.history_months + 1) as u32, paid: false },
        );
        &&& post.same_registry(self)
        &&& post.history_of(token_id) == history
        &&& post.data_of(token_id) == (RemittanceData {
            history_months: (before.history_months + 1) as u32,
            lifetime_missed_payments: (before.lifetime_missed_payments + 1) as u32,
            reliability_score: score_of(history, before.lifetime_missed_payments + 1) as u32,
            ..before
        })
        &&& post.same_tokens_except(self, token_id)
    }

    /// A ledger with no credentials and no registered peers.
    pub fn new() -> (nft: RemittanceNFT)
        ensures
            nft.wf(),
            nft.oracle is None,
            nft.loan_manager is None,
            nft.token_counter == 0,
    {
        RemittanceNFT { oracle: None, loan_manager: None, token_counter: 0, tokens: Vec::new() }
    }

    /// Registers the oracle and the loan manager. Fails with
    /// `AlreadyInitialized` if an oracle is registered already.
    pub fn initialize(&mut self, oracle: AccountId, loan_manager: AccountId) -> (result: Result<
        (),
        Error,
    >)
        ensures
            old(self).wf() ==> final(self).wf(),
            match result {
                Ok(_) => {
                    &&& old(self).oracle is None
                    &&& final(self).oracle == Some(oracle)
                    &&& final(self).loan_manager == Some(loan_manager)
                    &&& final(self).token_counter == old(self).token_counter
                    &&& final(self).tokens == old(self).tokens
                },
                Err(e) => e == Error::AlreadyInitialized && old(self).oracle is Some && *final(self) == *old(self),
            },
    {
        if self.oracle.is_some() {
            return Err(Error::AlreadyInitialized);
        }
        self.oracle = Some(oracle);
        self.loan_manager = Some(loan_manager);
        Ok(())
    }

    /// Whether `caller` is the registered peer `registered`.
    fn is_peer(registered: Option<AccountId>, caller: AccountId) -> (yes: bool)
        ensures
            yes == (registered == Some(caller)),
    {
        match registered {
            Some(peer) => peer == caller,
            None => false,
        }
    }

    /// Where credential `token_id` stands among the credentials.
    fn slot_of(&self, token_id: u64) -> (slot: Option<usize>)
        requires
            self.wf(),
        ensures
            match slot {
                Some(i) => self.has_token(token_id) && i == token_id - 1,
                None => !self.has_token(token_id),
            },
    {
        let count: usize = self.tokens.len();
        if token_id < 1 || token_id > self.token_counter {
            None
        } else {
            assert(token_id - 1 < count);
            Some((token_id - 1) as usize)
        }
    }

    /// The points that `lifetime_missed` missed payments take off a score. The
    /// points must fit in 32 bits.
    pub fn calculate_lifetime_penalty(lifetime_missed: u32) -> (penalty: u32)
        requires
            lifetime_penalty(lifetime_missed as int) <= u32::MAX,
        ensures
            penalty == lifetime_penalty(lifetime_missed as int),
    {
        if lifetime_missed == 0 {
            0
        } else if lifetime_missed == 1 {
            2
        } else if lifetime_missed == 2 {
            5
        } else if lifetime_missed == 3 {
            9
        } else {
            9 + (lifetime_missed - 3) * 5
        }
    }

    /// How many months of the history were missed.
    pub fn count_missed_payments(payment_history: &soroban_sdk::Vec<u64>) -> (count: u32)
        ensures
            count == missed_count(records_of(*payment_history)),
    {
        let paid: u32 = count_paid_months(payment_history);
        history_len(payment_history) - paid
    }

    /// The percentage of paid months in the history; 100 of an empty history.
    pub fn calculate_paid_percentage(payment_history: &soroban_sdk::Vec<u64>) -> (percentage:
        u32)
        ensures
            percentage == paid_percentage(records_of(*payment_history)),
            percentage <= 100,
    {
        proof {
            lemma_paid_percentage_bounds(records_of(*payment_history));
        }
        let total: u32 = history_len(payment_history);
        if total > 0 {
            let paid: u32 = count_paid_months(payment_history);
            ((paid as u64 * 100) / (total as u64)) as u32
        } else {
            100
        }
    }

    /// The reliability score of a payment history and a lifetime count of
    /// missed payments.
    pub fn calculate_score(payment_history: &soroban_sdk::Vec<u64>, lifetime_missed: u32)
        -> (score: u32)
        ensures
            score == score_of(records_of(*payment_history), lifetime_missed as int),
            score <= 100,
    {
        let recent: u32 = Self::calculate_paid_percentage(payment_history);
        if lifetime_missed > 3 && lifetime_missed - 3 >= 20 {
            // Twenty-three misses take 109 points: more than any history scores.
            return 0;
        }
        let penalty: u32 = Self::calculate_lifetime_penalty(lifetime_missed);
        if recent > penalty {
            recent - penalty
        } else {
            0
        }
    }

    /// Mints a credential for `owner` and returns its number. The credential
    /// is not locked, and its lifetime count of missed payments is that of the
    /// history it is minted with.
    ///
    /// The number of credentials must not be at its machine limit.
    pub fn mint(
        &mut self,
        owner: AccountId,
        monthly_amount: i128,
        reliability_score: u32,
        history_months: u32,
        total_sent: i128,
        payment_history: soroban_sdk::Vec<u64>,
        now: u64,
    ) -> (token_id: u64)
        requires
            old(self).wf(),
            old(self).token_counter < u64::MAX,
        ensures
            final(self).wf(),
            token_id == old(self).token_counter + 1,
            final(self).token_counter == token_id,
            final(self).oracle == old(self).oracle,
            final(self).loan_manager == old(self).loan_manager,
            final(self).history_of(token_id) == records_of(payment_history),
            final(self).data_of(token_id) == (RemittanceData {
                owner,
                monthly_amount,
                reliability_score,
                history_months,
                total_sent,
                last_remittance_timestamp: now,
                lifetime_missed_payments: missed_count(records_of(payment_history)) as u32,
                is_staked: false,
                staked_in_loan: 0,
            }),
            forall|t: u64|
                old(self).has_token(t) ==> final(self).data_of(t) == old(self).data_of(t) && final(self).history_of(t) == old(self).history_of(t),
    {
        let missed: u32 = Self::count_missed_payments(&payment_history);
        let counter: u64 = self.token_counter + 1;
        let data = RemittanceData {
            owner,
            monthly_amount,
            reliability_score,
            history_months,
            total_sent,
            last_remittance_timestamp: now,
            lifetime_missed_payments: missed,
            is_staked: false,
            staked_in_loan: 0,
        };
        self.tokens.push(Token { data, history: payment_history });
        self.token_counter = counter;
        counter
    }

    /// Whether `caller` may lock credential `token_id`, and if not, why. The
    /// ledger is not changed.
    pub fn check_stake(&self, caller: AccountId, token_id: u64) -> (result: Result<(), Error>)
        requires
            self.wf(),
        ensures
            match result {
                Ok(_) => self.stake_error(caller, token_id) is None,
                Err(e) => self.stake_error(caller, token_id) == Some(e),
            },
    {
        if !Self::is_peer(self.loan_manager, caller) {
            return Err(Error::Unauthorized);
        }
        match self.slot_of(token_id) {
            Some(i) => {
                if self.tokens[i].data.is_staked {
                    Err(Error::AlreadyStaked)
                } else {
                    Ok(())
                }
            },
            None => Err(Error::NotFound),
        }
    }

    /// Whether `caller` may release credential `token_id`, and if not, why.
    /// The ledger is not changed.
    pub fn check_unstake(&self, caller: AccountId, token_id: u64) -> (result: Result<(), Error>)
        requires
            self.wf(),
        ensures
            match result {
                Ok(_) => self.unstake_error(caller, token_id) is None,
                Err(e) => self.unstake_error(caller, token_id) == Some(e),
            },
    {
        if !Self::is_peer(self.loan_manager, caller) {
            return Err(Error::Unauthorized);
        }
        match self.slot_of(token_id) {
            Some(i) => {
                if self.tokens[i].data.is_staked {
                    Ok(())
                } else {
                    Err(Error::NotStaked)
                }
            },
            None => Err(Error::NotFound),
        }
    }

    /// Whether `caller` may report on credential `token_id`, and if not, why.
    /// The ledger is not changed.
    pub fn check_report(&self, caller: AccountId, token_id: u64) -> (result: Result<(), Error>)
        requires
            self.wf(),
        ensures
            match result {
                Ok(_) => self.report_error(caller, token_id) is None,
                Err(e) => self.report_error(caller, token_id) == Some(e),
            },
    {
        if !Self::is_peer(self.oracle, caller) {
            return Err(Error::Unauthorized);
        }
        match self.slot_of(token_id) {
            Some(_) => Ok(()),
            None => Err(Error::NotFound),
        }
    }

    /// Locks credential `token_id` as the collateral of loan `loan_id`. Only
    /// the registered loan manager may do so.
    ///
    /// Fails with `Unauthorized` for any other caller, with `NotFound` if there
    /// is no such credential, and with `AlreadyStaked` if it is locked already.
    pub fn stake_nft(&mut self, caller: AccountId, token_id: u64, loan_id: u64) -> (result:
        Result<(), Error>)
        requires
            old(self).wf(),
        ensures
            final(self).wf(),
            match result {
                Ok(_) => old(self).stake_error(caller, token_id) is None && old(self).staked(
                    *final(self),
                    token_id,
                    loan_id,
                ),
                Err(e) => old(self).stake_error(caller, token_id) == Some(e) && *final(self)
                    == *old(self),
            },
    {
        if !Self::is_peer(self.loan_manager, caller) {
            return Err(Error::Unauthorized);
        }
        let i: usize = match self.slot_of(token_id) {
            Some(i) => i,
            None => {
                return Err(Error::NotFound);
            },
        };
        if self.tokens[i].data.is_staked {
            return Err(Error::AlreadyStaked);
        }
        self.tokens[i].data.is_staked = true;
        self.tokens[i].data.staked_in_loan = loan_id;
        Ok(())
    }

    /// Releases credential `token_id`. Only the registered loan manager may do
    /// so.
    ///
    /// Fails with `Unauthorized` for any other caller, with `NotFound` if there
    /// is no such credential, and with `NotStaked` if it is not locked.
    pub fn unstake_nft(&mut self, caller: AccountId, token_id: u64) -> (result: Result<(), Error>)
        requires
            old(self).wf(),
        ensures
            final(self).wf(),
            match result {
                Ok(_) => old(self).unstake_error(caller, token_id) is None && old(self).unstaked(
                    *final(self),
                    token_id,
                ),
                Err(e) => old(self).unstake_error(caller, token_id) == Some(e) && *final(self)
                    == *old(self),
            },
    {
        if !Self::is_peer(self.loan_manager, caller) {
            return Err(Error::Unauthorized);
        }
        let i: usize = match self.slot_of(token_id) {
            Some(i) => i,
            None => {
                return Err(Error::NotFound);
            },
        };
        if !self.tokens[i].data.is_staked {
            return Err(Error::NotStaked);
        }
        self.tokens[i].data.is_staked = false;
        self.tokens[i].data.staked_in_loan = 0;
        Ok(())
    }

    /// Records a remittance on credential `token_id`. Only the registered
    /// oracle may do so.
    ///
    /// Fails with `Unauthorized` for any other caller and with `NotFound` if
    /// there is no such credential.
    ///
    /// The credential's count of months must not be at its machine limit.
    pub fn update_remittance_data(
        &mut self,
        caller: AccountId,
        token_id: u64,
        new_monthly_amount: i128,
        new_total_sent: i128,
        now: u64,
    ) -> (result: Result<(), Error>)
        requires
            old(self).wf(),
            old(self).report_error(caller, token_id) is None ==> old(self).data_of(
                token_id,
            ).history_months < u32::MAX,
        ensures
            final(self).wf(),
            match result {
                Ok(_) => old(self).report_error(caller, token_id) is None && old(self).remittance_recorded(*final(self), token_id, new_monthly_amount, new_total_sent, now),
                Err(e) => old(self).report_error(caller, token_id) == Some(e) && *final(self)
                    == *old(self),
            },
    {
        if !Self::is_peer(self.oracle, caller) {
            return Err(Error::Unauthorized);
        }
        let i: usize = match self.slot_of(token_id) {
            Some(i) => i,
            None => {
                return Err(Error::NotFound);
            },
        };
        let month: u32 = self.tokens[i].data.history_months + 1;
        append_month(&mut self.tokens[i].history, PaymentRecord { month_index: month, paid: true });
        let score: u32 = Self::calculate_score(
            &self.tokens[i].history,
            self.tokens[i].data.lifetime_missed_payments,
        );
        self.tokens[i].data.monthly_amount = new_monthly_amount;
        self.tokens[i].data.total_sent = new_total_sent;
        self.tokens[i].data.history_months = month;
        self.tokens[i].data.last_remittance_timestamp = now;
        self.tokens[i].data.reliability_score = score;
        Ok(())
    }

    /// Records a missed payment on credential `token_id`. Only the registered
    /// oracle may do so.
    ///
    /// Fails with `Unauthorized` for any other caller and with `NotFound` if
    /// there is no such credential.
    ///
    /// The credential's counts of months and of missed payments must not be
    /// at their machine limits.
    pub fn mark_payment_missed(&mut self, caller: AccountId, token_id: u64) -> (result: Result<
        (),
        Error,
    >)
        requires
            old(self).wf(),
            old(self).report_error(caller, token_id) is None ==> old(self).data_of(
                token_id,
            ).history_months < u32::MAX && old(self).data_of(token_id).lifetime_missed_payments
                < u32::MAX,
        ensures
            final(self).wf(),
            match result {
                Ok(_) => old(self).report_error(caller, token_id) is None && old(self).miss_recorded(*final(self), token_id),
                Err(e) => old(self).report_error(caller, token_id) == Some(e) && *final(self)
                    == *old(self),
            },
    {
        if !Self::is_peer(self.oracle, caller) {
            return Err(Error::Unauthorized);
        }
        let i: usize = match self.slot_of(token_id) {
            Some(i) => i,
            None => {
                return Err(Error::NotFound);
            },
        };
        let month: u32 = self.tokens[i].data.history_months + 1;
        let missed: u32 = self.tokens[i].data.lifetime_missed_payments + 1;
        append_month(&mut self.tokens[i].history, PaymentRecord { month_index: month, paid: false });
        let score: u32 = Self::calculate_score(&self.tokens[i].history, missed);
        self.tokens[i].data.history_months = month;
        self.tokens[i].data.lifetime_missed_payments = missed;
        self.tokens[i].data.reliability_score = score;
        Ok(())
    }

    /// The data of credential `token_id`. Fails with `NotFound` if there is no
    /// such credential.
    pub fn get_nft_data(&self, token_id: u64) -> (result: Result<RemittanceData, Error>)
        requires
            self.wf(),
        ensures
            match result {
                Ok(data) => self.has_token(token_id) && data == self.data_of(token_id),
                Err(e) => e == Error::NotFound && !self.has_token(token_id),
            },
    {
        match self.slot_of(token_id) {
            Some(i) => Ok(self.tokens[i].data),
            None => Err(Error::NotFound),
        }
    }

    /// The payment history of credential `token_id`, oldest month first.
    /// Fails with `NotFound` if there is no such credential.
    pub fn get_payment_history(&self, token_id: u64) -> (result: Result<
        Vec<Option<PaymentRecord>>,
        Error,
    >)
        requires
            self.wf(),
        ensures
            match result {
                Ok(months) => self.has_token(token_id) && months@ == self.history_of(token_id),
                Err(e) => e == Error::NotFound && !self.has_token(token_id),
            },
    {
        match self.slot_of(token_id) {
            Some(i) => Ok(read_history(&self.tokens[i].history)),
            None => Err(Error::NotFound),
        }
    }

    /// The appraised value of credential `token_id` as collateral for a loan
    /// of `duration_months`. Fails with `NotFound` if there is no such
    /// credential.
    ///
    /// The appraisal of an existing credential must stay within the machine
    /// limits, which `collateral_value_fits` tests.
    pub fn calculate_collateral_value(&self, token_id: u64, duration_months: u32) -> (result:
        Result<i128, Error>)
        requires
            self.wf(),
            self.has_token(token_id) ==> collateral_value_in_range(
                self.data_of(token_id).monthly_amount as int,
                self.data_of(token_id).reliability_score as int,
                duration_months as int,
            ),
        ensures
            match result {
                Ok(value) => self.has_token(token_id) && value == collateral_value(
                    self.data_of(token_id).monthly_amount as int,
                    self.data_of(token_id).reliability_score as int,
                    duration_months as int,
                ),
                Err(e) => e == Error::NotFound && !self.has_token(token_id),
            },
    {
        let data: RemittanceData = match self.get_nft_data(token_id) {
            Ok(data) => data,
            Err(e) => {
                return Err(e);
            },
        };
        let base: i128 = data.monthly_amount * (duration_months as i128);
        let adjusted: i128 = (base * (data.reliability_score as i128)) / 100;
        let value: i128 = (adjusted * 70) / 100;
        Ok(value)
    }

    /// Whether the ledger is well formed.
    pub fn is_well_formed(&self) -> (ok: bool)
        ensures
            ok == self.wf(),
    {
        self.tokens.len() as u64 == self.token_counter
    }

    /// Whether an appraisal of these values stays within the machine limits.
    pub fn collateral_value_fits(monthly_amount: i128, reliability_score: u32, duration_months: u32)
        -> (ok: bool)
        ensures
            ok == collateral_value_in_range(
                monthly_amount as int,
                reliability_score as int,
                duration_months as int,
            ),
    {
        let base: i128 = match monthly_amount.checked_mul(duration_months as i128) {
            Some(base) => base,
            None => {
                return false;
            },
        };
        let scaled: i128 = match base.checked_mul(reliability_score as i128) {
            Some(scaled) => scaled,
            None => {
                return false;
            },
        };
        let adjusted: i128 = scaled / 100;
        adjusted.checked_mul(70).is_some()
    }
}

} // verus!
