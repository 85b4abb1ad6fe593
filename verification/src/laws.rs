//! Properties of the engine that span several transactions or clients.
use crate::account::{csv_row_text, transaction_outcome, AccountError, AccountModel};
use crate::processor::{
    account_of, record_outcome, row_outcome, ProcessorModel, RecordOutcome, TransactionProcessorError,
};
use crate::transaction::{
    parse_amount, parse_row, AccountTransactionInput, CsvRow, TransactionId, TransactionParseError,
    TransactionState, TransactionType,
};
use crate::decimal::{
    decimal_digits, decimal_value, four_digits, is_digit, lemma_decimal_digits_read_back,
};
use crate::types::{balance_text, Amount, ClientId};
use vstd::set::fold::{is_fun_commutative, lemma_fold_empty, lemma_fold_insert};
use vstd::prelude::*;

verus! {

/// The input of a transaction of type `tt` on transaction `id` for client `c`.
pub open spec fn input_of(c: ClientId, tt: TransactionType, id: u32) -> AccountTransactionInput {
    AccountTransactionInput { client_id: c, transaction_type: tt, transaction_id: TransactionId(id) }
}

/// Every accepted transaction keeps the total balance equal to the available
/// plus the held balance.
pub proof fn lemma_outcome_keeps_balance(m: AccountModel, input: AccountTransactionInput)
    requires
        m.balanced(),
        transaction_outcome(m, input) is Ok,
    ensures
        transaction_outcome(m, input)->Ok_0.balanced(),
{
}

/// What an accepted transaction does to the balances, by type: a deposit adds
/// its amount to available and total; a withdrawal takes it from both; a
/// dispute moves the disputed deposit's amount from available to held; a
/// resolution moves it back; a chargeback takes it from held and total and
/// freezes the account. The total changes only with deposits, withdrawals
/// and chargebacks.
pub proof fn lemma_transaction_effects(m: AccountModel, input: AccountTransactionInput)
    requires
        transaction_outcome(m, input) is Ok,
    ensures
        ({
            let n = transaction_outcome(m, input)->Ok_0;
            let id = input.transaction_id.0;
            match input.transaction_type {
                TransactionType::Deposit { amount } => {
                    &&& n.available == m.available + amount.units()
                    &&& n.held == m.held
                    &&& n.total == m.total + amount.units()
                    &&& n.amounts == m.amounts.insert(id, amount)
                    &&& !n.frozen
                },
                TransactionType::Withdraw { amount } => {
                    &&& n.available == m.available - amount.units()
                    &&& n.held == m.held
                    &&& n.total == m.total - amount.units()
                    &&& n.amounts == m.amounts.insert(id, amount)
                    &&& !n.frozen
                },
                TransactionType::Dispute => {
                    &&& n.available == m.available - m.amounts[id].units()
                    &&& n.held == m.held + m.amounts[id].units()
                    &&& n.total == m.total
                    &&& n.amounts == m.amounts
                    &&& !n.frozen
                },
                TransactionType::Resolve => {
                    &&& n.available == m.available + m.amounts[id].units()
                    &&& n.held == m.held - m.amounts[id].units()
                    &&& n.total == m.total
                    &&& n.amounts == m.amounts
                    &&& !n.frozen
                },
                TransactionType::Chargeback => {
                    &&& n.available == m.available
                    &&& n.held == m.held - m.amounts[id].units()
                    &&& n.total == m.total - m.amounts[id].units()
                    &&& n.amounts == m.amounts
                    &&& n.frozen
                },
            }
        }),
        transaction_outcome(m, input)->Ok_0.client_id == m.client_id,
{
}

/// Every balance is written with exactly four decimal places: its text ends
/// with a point and four digits.
pub proof fn lemma_balance_text_four_places(units: nat)
    ensures
        balance_text(units).len() >= 6,
        balance_text(units)[balance_text(units).len() - 5] == '.',
        balance_text(units).subrange(balance_text(units).len() - 4, balance_text(units).len() as int)
            == four_digits(units % 10_000),
{
    assert(balance_text(units).subrange(
        balance_text(units).len() - 4,
        balance_text(units).len() as int,
    ) =~= four_digits(units % 10_000));
}

/// A frozen account refuses every transaction of its client, and so stays
/// frozen with its balances unchanged.
pub proof fn lemma_frozen_rejects(m: AccountModel, input: AccountTransactionInput)
    requires
        m.frozen,
        input.client_id == m.client_id,
    ensures
        transaction_outcome(m, input) == Err::<AccountModel, AccountError>(
            AccountError::AccountFrozen { client_id: m.client_id, transaction_id: input.transaction_id },
        ),
{
}

/// Only a chargeback freezes an account, and an accepted transaction never
/// unfreezes one.
pub proof fn lemma_only_chargeback_freezes(m: AccountModel, input: AccountTransactionInput)
    requires
        transaction_outcome(m, input) is Ok,
    ensures
        !m.frozen,
        transaction_outcome(m, input)->Ok_0.frozen ==> input.transaction_type is Chargeback,
{
}

/// A transaction for another client is refused with `InvalidClientId`.
pub proof fn lemma_other_client_rejected(m: AccountModel, input: AccountTransactionInput)
    requires
        input.client_id != m.client_id,
    ensures
        transaction_outcome(m, input) == Err::<AccountModel, AccountError>(
            AccountError::InvalidClientId {
                transaction_id: input.transaction_id,
                expected: m.client_id,
                actual: input.client_id,
            },
        ),
{
}

/// The life cycle of a transaction: a deposit or withdrawal is accepted only
/// for an identifier not seen before and leaves it complete; only a completed
/// deposit can be disputed; only a disputed transaction can be resolved or
/// charged back. Resolved and charged-back transactions accept nothing more.
pub proof fn lemma_state_machine(m: AccountModel, input: AccountTransactionInput)
    requires
        transaction_outcome(m, input) is Ok,
    ensures
        ({
            let id = input.transaction_id.0;
            let before = m.current_state(id);
            let after = transaction_outcome(m, input)->Ok_0.states[id];
            match input.transaction_type {
                TransactionType::Deposit { .. } => before is None && after
                    == TransactionState::DepositComplete,
                TransactionType::Withdraw { .. } => before is None && after
                    == TransactionState::WithdrawalComplete,
                TransactionType::Dispute => before == Some(TransactionState::DepositComplete)
                    && after == TransactionState::Disputed,
                TransactionType::Resolve => before == Some(TransactionState::Disputed) && after
                    == TransactionState::Resolved,
                TransactionType::Chargeback => before == Some(TransactionState::Disputed) && after
                    == TransactionState::Chargeback,
            }
        }),
        m.current_state(input.transaction_id.0) != Some(TransactionState::Resolved),
        m.current_state(input.transaction_id.0) != Some(TransactionState::Chargeback),
{
}

/// An accepted transaction changes the state of its own transaction only.
pub proof fn lemma_other_transactions_unchanged(
    m: AccountModel,
    input: AccountTransactionInput,
    other: u32,
)
    requires
        transaction_outcome(m, input) is Ok,
        other != input.transaction_id.0,
    ensures
        transaction_outcome(m, input)->Ok_0.current_state(other) == m.current_state(other),
{
}

/// A dispute moves a deposit's amount from available to held without touching
/// the total; the resolution that follows is always accepted and restores the
/// balances the account had before the dispute.
pub proof fn lemma_dispute_then_resolve(m: AccountModel, id: u32)
    requires
        m.held >= 0,
        transaction_outcome(m, input_of(m.client_id, TransactionType::Dispute, id)) is Ok,
    ensures
        ({
            let m1 = transaction_outcome(m, input_of(m.client_id, TransactionType::Dispute, id))->Ok_0;
            let r = transaction_outcome(m1, input_of(m.client_id, TransactionType::Resolve, id));
            &&& m1.total == m.total
            &&& m1.available + m1.held == m.available + m.held
            &&& r is Ok
            &&& r->Ok_0.available == m.available
            &&& r->Ok_0.held == m.held
            &&& r->Ok_0.total == m.total
            &&& r->Ok_0.frozen == m.frozen
            &&& r->Ok_0.states[id] == TransactionState::Resolved
        }),
{
}

/// The chargeback that follows an accepted dispute is always accepted: it
/// takes the disputed amount out of the held and total balances, leaves the
/// available balance as the dispute left it, and freezes the account.
pub proof fn lemma_dispute_then_chargeback(m: AccountModel, id: u32)
    requires
        m.held >= 0,
        transaction_outcome(m, input_of(m.client_id, TransactionType::Dispute, id)) is Ok,
    ensures
        ({
            let m1 = transaction_outcome(m, input_of(m.client_id, TransactionType::Dispute, id))->Ok_0;
            let r = transaction_outcome(m1, input_of(m.client_id, TransactionType::Chargeback, id));
            let a = m.amounts[id].units() as int;
            &&& r is Ok
            &&& r->Ok_0.available == m.available - a
            &&& r->Ok_0.held == m.held
            &&& r->Ok_0.total == m.total - a
            &&& r->Ok_0.frozen
            &&& r->Ok_0.states[id] == TransactionState::Chargeback
        }),
{
}

/// A withdrawal is accepted exactly when the available balance covers it (on
/// an active account of the right client, for a new identifier).
pub proof fn lemma_withdrawal_needs_funds(m: AccountModel, input: AccountTransactionInput)
    requires
        input.client_id == m.client_id,
        !m.frozen,
        input.transaction_type is Withdraw,
        m.current_state(input.transaction_id.0) is None,
    ensures
        (transaction_outcome(m, input) is Ok) == (m.available
            >= input.transaction_type->Withdraw_amount.units()),
{
}

/// Processing a row changes no account but that of the row's client.
pub proof fn lemma_client_isolation(p: ProcessorModel, row: CsvRow, d: u16)
    requires
        d != row.client_id,
        p.accounts.contains_key(d),
    ensures
        row_outcome(p, row).0.accounts.contains_key(d),
        row_outcome(p, row).0.accounts[d] == p.accounts[d],
{
}

/// Where records are processed in fail mode, every failure stops processing.
pub proof fn lemma_fail_mode_stops(p: ProcessorModel, record: Result<CsvRow, csv::Error>)
    requires
        p.fail_file_on_error,
    ensures
        !(record_outcome(p, record).1 is Skipped),
{
}

/// The policy decides only whether a failure stops processing: the state a
/// record leaves is the same under both policies.
pub proof fn lemma_policy_only_decides_stopping(
    p: ProcessorModel,
    record: Result<CsvRow, csv::Error>,
)
    ensures
        record_outcome(p, record).0.accounts == record_outcome(
            ProcessorModel { fail_file_on_error: !p.fail_file_on_error, ..p },
            record,
        ).0.accounts,
{
}

/// Processing a row never forgets a client and never changes the policy.
pub proof fn lemma_accounts_persist(p: ProcessorModel, row: CsvRow, d: u16)
    requires
        p.accounts.contains_key(d),
    ensures
        row_outcome(p, row).0.accounts.contains_key(d),
        row_outcome(p, row).0.fail_file_on_error == p.fail_file_on_error,
{
}

/// Where failed records are skipped, no record stops processing.
pub proof fn lemma_skip_mode_never_fails(p: ProcessorModel, record: Result<CsvRow, csv::Error>)
    requires
        !p.fail_file_on_error,
    ensures
        !(record_outcome(p, record).1 is Stopped),
{
}

/// The transactions of `m` that are under dispute.
pub open spec fn disputed_ids(m: AccountModel) -> Set<u32> {
    m.states.dom().filter(|id: u32| m.states[id] == TransactionState::Disputed)
}

/// The step of a sum of the units of the amounts of transactions.
pub open spec fn add_units(amounts: Map<u32, Amount>) -> spec_fn(int, u32) -> int {
    |acc: int, id: u32| acc + amounts[id].units()
}

/// The units of the given transactions' amounts, summed.
pub open spec fn sum_units(ids: Set<u32>, amounts: Map<u32, Amount>) -> int {
    ids.fold(0int, add_units(amounts))
}

/// The units of the amounts under dispute, summed.
pub open spec fn disputed_units(m: AccountModel) -> int {
    sum_units(disputed_ids(m), m.amounts)
}

proof fn lemma_add_units_commutative(amounts: Map<u32, Amount>)
    ensures
        is_fun_commutative(add_units(amounts)),
{
}

/// A sum is the sum without one of its transactions, plus that one.
proof fn lemma_sum_units_remove(ids: Set<u32>, amounts: Map<u32, Amount>, id: u32)
    requires
        ids.finite(),
        ids.contains(id),
    ensures
        sum_units(ids, amounts) == sum_units(ids.remove(id), amounts) + amounts[id].units(),
{
    lemma_add_units_commutative(amounts);
    lemma_fold_insert(ids.remove(id), 0int, add_units(amounts), id);
}

/// A sum depends only on the amounts of the transactions summed, and is
/// never negative.
proof fn lemma_sum_units_congruent(ids: Set<u32>, a1: Map<u32, Amount>, a2: Map<u32, Amount>)
    requires
        ids.finite(),
        forall|id: u32| #[trigger] ids.contains(id) ==> a1[id] == a2[id],
    ensures
        sum_units(ids, a1) == sum_units(ids, a2),
        sum_units(ids, a1) >= 0,
    decreases ids.len(),
{
    if ids.len() == 0 {
        assert(ids =~= Set::<u32>::empty());
        lemma_fold_empty(0int, add_units(a1));
        lemma_fold_empty(0int, add_units(a2));
    } else {
        let id = ids.choose();
        lemma_sum_units_remove(ids, a1, id);
        lemma_sum_units_remove(ids, a2, id);
        lemma_sum_units_congruent(ids.remove(id), a1, a2);
    }
}

/// The held balance is the sum of the amounts under dispute, in every state
/// an account reaches: a dispute adds the disputed deposit's amount, and a
/// resolution or chargeback takes away the amount of a disputed transaction.
pub proof fn lemma_held_is_disputed_units(m: AccountModel, input: AccountTransactionInput)
    requires
        m.states.dom().finite(),
        m.held == disputed_units(m),
        transaction_outcome(m, input) is Ok,
    ensures
        transaction_outcome(m, input)->Ok_0.states.dom().finite(),
        transaction_outcome(m, input)->Ok_0.held == disputed_units(
            transaction_outcome(m, input)->Ok_0,
        ),
{
    let n = transaction_outcome(m, input)->Ok_0;
    let id = input.transaction_id.0;
    let s = disputed_ids(m);
    lemma_add_units_commutative(m.amounts);
    match input.transaction_type {
        TransactionType::Deposit { .. } | TransactionType::Withdraw { .. } => {
            assert(disputed_ids(n) =~= s);
            lemma_sum_units_congruent(s, m.amounts, n.amounts);
        },
        TransactionType::Dispute => {
            assert(disputed_ids(n) =~= s.insert(id));
            lemma_fold_insert(s, 0int, add_units(m.amounts), id);
        },
        TransactionType::Resolve | TransactionType::Chargeback => {
            assert(disputed_ids(n) =~= s.remove(id));
            lemma_sum_units_remove(s, m.amounts, id);
        },
    }
}

/// Where the held balance is the sum of the amounts under dispute, the
/// resolution or chargeback of a disputed transaction never lacks held funds.
pub proof fn lemma_disputed_funds_are_held(m: AccountModel, id: u32)
    requires
        m.states.dom().finite(),
        m.held == disputed_units(m),
        m.current_state(id) == Some(TransactionState::Disputed),
    ensures
        m.held >= m.amounts[id].units(),
{
    let s = disputed_ids(m);
    lemma_sum_units_remove(s, m.amounts, id);
    lemma_sum_units_congruent(s.remove(id), m.amounts, m.amounts);
}

/// The transactions whose amounts count toward the total: deposits that were
/// not charged back.
pub open spec fn credited_ids(m: AccountModel) -> Set<u32> {
    m.states.dom().filter(
        |id: u32|
            m.states[id] == TransactionState::DepositComplete || m.states[id]
                == TransactionState::Disputed || m.states[id] == TransactionState::Resolved,
    )
}

/// The completed withdrawals.
pub open spec fn withdrawn_ids(m: AccountModel) -> Set<u32> {
    m.states.dom().filter(|id: u32| m.states[id] == TransactionState::WithdrawalComplete)
}

/// Whether some transaction of `m` was charged back.
pub open spec fn charged_back(m: AccountModel) -> bool {
    exists|id: u32| #[trigger] m.states.contains_key(id) && m.states[id] == TransactionState::Chargeback
}

/// The total balance is what was credited less what was withdrawn.
pub open spec fn total_is_net_flow(m: AccountModel) -> bool {
    m.total == sum_units(credited_ids(m), m.amounts) - sum_units(withdrawn_ids(m), m.amounts)
}

/// The total balance is the sum of the deposits not charged back less the sum
/// of the withdrawals, in every state an account reaches.
pub proof fn lemma_total_is_net_flow(m: AccountModel, input: AccountTransactionInput)
    requires
        m.states.dom().finite(),
        total_is_net_flow(m),
        transaction_outcome(m, input) is Ok,
    ensures
        total_is_net_flow(transaction_outcome(m, input)->Ok_0),
{
    let n = transaction_outcome(m, input)->Ok_0;
    let id = input.transaction_id.0;
    let cs = credited_ids(m);
    let ws = withdrawn_ids(m);
    lemma_add_units_commutative(n.amounts);
    match input.transaction_type {
        TransactionType::Deposit { .. } => {
            assert(credited_ids(n) =~= cs.insert(id));
            assert(withdrawn_ids(n) =~= ws);
            lemma_fold_insert(cs, 0int, add_units(n.amounts), id);
            lemma_sum_units_congruent(cs, m.amounts, n.amounts);
            lemma_sum_units_congruent(ws, m.amounts, n.amounts);
        },
        TransactionType::Withdraw { .. } => {
            assert(credited_ids(n) =~= cs);
            assert(withdrawn_ids(n) =~= ws.insert(id));
            lemma_fold_insert(ws, 0int, add_units(n.amounts), id);
            lemma_sum_units_congruent(cs, m.amounts, n.amounts);
            lemma_sum_units_congruent(ws, m.amounts, n.amounts);
        },
        TransactionType::Dispute | TransactionType::Resolve => {
            assert(credited_ids(n) =~= cs);
            assert(withdrawn_ids(n) =~= ws);
        },
        TransactionType::Chargeback => {
            assert(credited_ids(n) =~= cs.remove(id));
            assert(withdrawn_ids(n) =~= ws);
            lemma_sum_units_remove(cs, m.amounts, id);
        },
    }
}

/// An account is frozen exactly when one of its transactions was charged
/// back, in every state an account reaches.
pub proof fn lemma_frozen_iff_charged_back(m: AccountModel, input: AccountTransactionInput)
    requires
        m.frozen == charged_back(m),
        transaction_outcome(m, input) is Ok,
    ensures
        transaction_outcome(m, input)->Ok_0.frozen == charged_back(
            transaction_outcome(m, input)->Ok_0,
        ),
{
    let n = transaction_outcome(m, input)->Ok_0;
    let id = input.transaction_id.0;
    if input.transaction_type is Chargeback {
        assert(n.states.contains_key(id));
    } else {
        assert forall|t: u32| #[trigger] n.states.contains_key(t) implies n.states[t]
            != TransactionState::Chargeback by {
            if t != id {
                assert(m.states.contains_key(t));
            }
        }
    }
}

/// The invariant of every account a processor holds: the total is the
/// available plus the held balance; the held balance is the sum of the
/// amounts under dispute; the total is the sum of the deposits not charged
/// back less the withdrawals; the account is frozen exactly when one of its
/// transactions was charged back; and every recorded transaction, of which
/// there are finitely many, has both a state and an amount.
pub open spec fn consistent(m: AccountModel) -> bool {
    &&& m.balanced()
    &&& m.states.dom().finite()
    &&& m.states.dom() == m.amounts.dom()
    &&& m.held == disputed_units(m)
    &&& total_is_net_flow(m)
    &&& m.frozen == charged_back(m)
}

/// A new account is consistent.
pub proof fn lemma_fresh_account_consistent(c: ClientId)
    ensures
        consistent(AccountModel::fresh(c)),
{
    let m = AccountModel::fresh(c);
    assert(disputed_ids(m) =~= Set::<u32>::empty());
    assert(credited_ids(m) =~= Set::<u32>::empty());
    assert(withdrawn_ids(m) =~= Set::<u32>::empty());
    lemma_fold_empty(0int, add_units(m.amounts));
}

/// Every transaction keeps an account consistent, and a consistent account
/// never refuses a transaction for want of held funds or of a recorded amount.
pub proof fn lemma_outcome_keeps_consistent(m: AccountModel, input: AccountTransactionInput)
    requires
        consistent(m),
    ensures
        transaction_outcome(m, input) matches Ok(n) ==> consistent(n),
        transaction_outcome(m, input) matches Err(e) ==> !(e is InsufficientHeldFunds)
            && !(e is TransactionNotFound),
{
    let id = input.transaction_id.0;
    if m.current_state(id) == Some(TransactionState::Disputed) {
        lemma_disputed_funds_are_held(m, id);
    }
    if transaction_outcome(m, input) is Ok {
        let n = transaction_outcome(m, input)->Ok_0;
        lemma_outcome_keeps_balance(m, input);
        lemma_held_is_disputed_units(m, input);
        lemma_total_is_net_flow(m, input);
        lemma_frozen_iff_charged_back(m, input);
        assert(n.states.dom() =~= n.amounts.dom());
    }
}

/// If every account is consistent before a row is processed, every account
/// is consistent after it.
pub proof fn lemma_row_keeps_accounts_consistent(p: ProcessorModel, row: CsvRow)
    requires
        forall|c: u16| #[trigger] p.accounts.contains_key(c) ==> consistent(p.accounts[c]),
    ensures
        ({
            let q = row_outcome(p, row).0;
            forall|c: u16| #[trigger] q.accounts.contains_key(c) ==> consistent(q.accounts[c])
        }),
{
    match parse_row(row) {
        Ok(input) => {
            let c = input.client_id.0;
            let a = account_of(p, c);
            if !p.accounts.contains_key(c) {
                lemma_fresh_account_consistent(ClientId(c));
            }
            lemma_outcome_keeps_consistent(a, input);
        },
        Err(_) => {},
    }
}

/// If every account is consistent before a record is processed, every account
/// is consistent after it, whatever the policy and whether or not the record
/// could be read.
pub proof fn lemma_record_keeps_accounts_consistent(
    p: ProcessorModel,
    record: Result<CsvRow, csv::Error>,
)
    requires
        forall|c: u16| #[trigger] p.accounts.contains_key(c) ==> consistent(p.accounts[c]),
    ensures
        ({
            let q = record_outcome(p, record).0;
            forall|c: u16| #[trigger] q.accounts.contains_key(c) ==> consistent(q.accounts[c])
        }),
{
    if let Ok(row) = record {
        lemma_row_keeps_accounts_consistent(p, row);
    }
}

/// The state after feeding `records` one by one to a processor in state `p`,
/// and the failure that stopped processing, if one did.
pub open spec fn run_records(p: ProcessorModel, records: Seq<Result<CsvRow, csv::Error>>) -> (
    ProcessorModel,
    Option<TransactionProcessorError>,
)
    decreases records.len(),
{
    if records.len() == 0 {
        (p, None)
    } else {
        let (q, o) = record_outcome(p, records[0]);
        match o {
            RecordOutcome::Stopped(e) => (q, Some(e)),
            _ => run_records(q, records.drop_first()),
        }
    }
}

/// The readable rows of `records` that belong to client `c`, in order.
pub open spec fn client_rows(records: Seq<Result<CsvRow, csv::Error>>, c: u16) -> Seq<CsvRow>
    decreases records.len(),
{
    if records.len() == 0 {
        Seq::empty()
    } else {
        let rest = client_rows(records.drop_first(), c);
        match records[0] {
            Ok(row) => if row.client_id == c {
                seq![row] + rest
            } else {
                rest
            },
            Err(_) => rest,
        }
    }
}

/// The account of client `c` in `p`, if it has one.
pub open spec fn slot(p: ProcessorModel, c: u16) -> Option<AccountModel> {
    if p.accounts.contains_key(c) {
        Some(p.accounts[c])
    } else {
        None
    }
}

/// What one row of a client does to that client's account, if any.
pub open spec fn slot_step(s: Option<AccountModel>, row: CsvRow) -> Option<AccountModel> {
    match parse_row(row) {
        Err(_) => s,
        Ok(input) => {
            let a = match s {
                Some(a) => a,
                None => AccountModel::fresh(ClientId(row.client_id)),
            };
            match transaction_outcome(a, input) {
                Ok(m) => Some(m),
                Err(_) => Some(a),
            }
        },
    }
}

/// What a client's rows, in order, do to that client's account, if any.
pub open spec fn slot_run(s: Option<AccountModel>, rows: Seq<CsvRow>) -> Option<AccountModel>
    decreases rows.len(),
{
    if rows.len() == 0 {
        s
    } else {
        slot_run(slot_step(s, rows[0]), rows.drop_first())
    }
}

/// One row changes client `c`'s account only if it is `c`'s row, and then as
/// `slot_step` says.
proof fn lemma_row_slot(p: ProcessorModel, row: CsvRow, c: u16)
    ensures
        slot(row_outcome(p, row).0, c) == if row.client_id == c {
            slot_step(slot(p, c), row)
        } else {
            slot(p, c)
        },
        row_outcome(p, row).0.fail_file_on_error == p.fail_file_on_error,
{
}

/// Where failed records are skipped, processing all records never stops, and
/// leaves client `c`'s account as `c`'s own rows alone make it.
pub proof fn lemma_run_records_per_client(
    p: ProcessorModel,
    records: Seq<Result<CsvRow, csv::Error>>,
    c: u16,
)
    requires
        !p.fail_file_on_error,
    ensures
        run_records(p, records).1 is None,
        slot(run_records(p, records).0, c) == slot_run(slot(p, c), client_rows(records, c)),
    decreases records.len(),
{
    if records.len() > 0 {
        let q = record_outcome(p, records[0]).0;
        let rest = records.drop_first();
        match records[0] {
            Ok(row) => {
                lemma_row_slot(p, row, c);
                if row.client_id == c {
                    let rows = seq![row] + client_rows(rest, c);
                    assert(rows[0] == row);
                    assert(rows.drop_first() =~= client_rows(rest, c));
                }
            },
            Err(_) => {},
        }
        lemma_run_records_per_client(q, rest, c);
    }
}

/// Client isolation over whole inputs: where failed records are skipped, a
/// client's account after all records depends only on that account before and
/// on that client's own readable rows, whatever the rows of other clients.
pub proof fn lemma_client_isolation_over_records(
    p1: ProcessorModel,
    p2: ProcessorModel,
    records1: Seq<Result<CsvRow, csv::Error>>,
    records2: Seq<Result<CsvRow, csv::Error>>,
    c: u16,
)
    requires
        !p1.fail_file_on_error,
        !p2.fail_file_on_error,
        slot(p1, c) == slot(p2, c),
        client_rows(records1, c) == client_rows(records2, c),
    ensures
        slot(run_records(p1, records1).0, c) == slot(run_records(p2, records2).0, c),
{
    lemma_run_records_per_client(p1, records1, c);
    lemma_run_records_per_client(p2, records2, c);
}

/// When a transaction of the account's own client reaches an active account,
/// it is accepted exactly when: a deposit names a new transaction; a
/// withdrawal names a new transaction and the available balance covers it; a
/// dispute names a completed deposit whose amount the available balance
/// covers, whatever is held; a resolution or chargeback names a disputed
/// transaction whose amount the held balance covers.
pub proof fn lemma_acceptance(m: AccountModel, input: AccountTransactionInput)
    requires
        input.client_id == m.client_id,
        !m.frozen,
    ensures
        ({
            let id = input.transaction_id.0;
            let before = m.current_state(id);
            let accepted = transaction_outcome(m, input) is Ok;
            match input.transaction_type {
                TransactionType::Deposit { .. } => accepted == (before is None),
                TransactionType::Withdraw { amount } => accepted == (before is None && m.available
                    >= amount.units()),
                TransactionType::Dispute => accepted == (before == Some(
                    TransactionState::DepositComplete,
                ) && m.amounts.contains_key(id) && m.available >= m.amounts[id].units()),
                TransactionType::Resolve => accepted == (before == Some(TransactionState::Disputed)
                    && m.amounts.contains_key(id) && m.held >= m.amounts[id].units()),
                TransactionType::Chargeback => accepted == (before == Some(
                    TransactionState::Disputed,
                ) && m.amounts.contains_key(id) && m.held >= m.amounts[id].units()),
            }
        }),
{
}

/// A dispute refused for want of funds reports the available balance and the
/// disputed deposit's amount; a withdrawal refused so reports the available
/// balance and the amount asked for.
pub proof fn lemma_insufficient_funds_report(m: AccountModel, input: AccountTransactionInput)
    requires
        input.client_id == m.client_id,
        !m.frozen,
        0 <= m.available,
        transaction_outcome(m, input) matches Err(e) && e is InsufficientAvailableFunds,
    ensures
        ({
            let e = transaction_outcome(m, input)->Err_0;
            let id = input.transaction_id.0;
            &&& e->InsufficientAvailableFunds_available.0 == m.available
            &&& match input.transaction_type {
                TransactionType::Withdraw { amount } => e->InsufficientAvailableFunds_requested
                    == amount && m.available < amount.units(),
                TransactionType::Dispute => e->InsufficientAvailableFunds_requested == m.amounts[id]
                    && m.available < m.amounts[id].units(),
                _ => false,
            }
        }),
{
}

/// Processing a readable row reports the row's own failure: `Ok` exactly when
/// the row parses and the client's account accepts its transaction; the
/// parse error where it does not parse; otherwise the account's refusal.
pub proof fn lemma_row_result_reports_account(p: ProcessorModel, row: CsvRow)
    ensures
        ({
            let r = row_outcome(p, row).1;
            match parse_row(row) {
                Err(pe) => r == Err::<(), TransactionProcessorError>(
                    TransactionProcessorError::LineParseError(pe),
                ),
                Ok(input) => {
                    let a = account_of(p, input.client_id.0);
                    &&& (r is Ok) == (transaction_outcome(a, input) is Ok)
                    &&& transaction_outcome(a, input) matches Err(ae) ==> r == Err::<
                        (),
                        TransactionProcessorError,
                    >(TransactionProcessorError::ClientAccountError(ae))
                },
            }
        }),
{
}

/// In fail mode every failed record stops processing with its own failure:
/// an unreadable record with the reader's error, an unparsable row with the
/// parse error, a refused transaction with the account's error; a record
/// counts as processed exactly when its transaction was accepted.
pub proof fn lemma_fail_mode_stops_on_every_failure(
    p: ProcessorModel,
    record: Result<CsvRow, csv::Error>,
)
    requires
        p.fail_file_on_error,
    ensures
        ({
            let o = record_outcome(p, record).1;
            match record {
                Err(ce) => o == RecordOutcome::Stopped(TransactionProcessorError::CsvReaderError(ce)),
                Ok(row) => match parse_row(row) {
                    Err(pe) => o == RecordOutcome::Stopped(
                        TransactionProcessorError::LineParseError(pe),
                    ),
                    Ok(input) => {
                        let a = account_of(p, input.client_id.0);
                        match transaction_outcome(a, input) {
                            Ok(_) => o is Processed,
                            Err(ae) => o == RecordOutcome::Stopped(
                                TransactionProcessorError::ClientAccountError(ae),
                            ),
                        }
                    },
                },
            }
        }),
{
}

/// In skip mode a failed record is skipped with its own failure, and a record
/// counts as processed exactly when its transaction was accepted.
pub proof fn lemma_skip_mode_skips_every_failure(
    p: ProcessorModel,
    record: Result<CsvRow, csv::Error>,
)
    requires
        !p.fail_file_on_error,
    ensures
        ({
            let o = record_outcome(p, record).1;
            match record {
                Err(ce) => o == RecordOutcome::Skipped(TransactionProcessorError::CsvReaderError(ce)),
                Ok(row) => match parse_row(row) {
                    Err(pe) => o == RecordOutcome::Skipped(
                        TransactionProcessorError::LineParseError(pe),
                    ),
                    Ok(input) => {
                        let a = account_of(p, input.client_id.0);
                        match transaction_outcome(a, input) {
                            Ok(_) => o is Processed,
                            Err(ae) => o == RecordOutcome::Skipped(
                                TransactionProcessorError::ClientAccountError(ae),
                            ),
                        }
                    },
                },
            }
        }),
{
}

/// An amount is read exactly: a present, non-zero number of units gives an
/// amount of exactly that many units; zero is refused as a zero amount and
/// an absent amount as an invalid one.
pub proof fn lemma_amount_read_exactly(raw: Option<u64>)
    ensures
        parse_amount(raw) is Ok <==> (raw is Some && raw->0 != 0),
        parse_amount(raw) is Ok ==> parse_amount(raw)->Ok_0.units() == raw->0,
        raw == Some(0u64) ==> parse_amount(raw) == Err::<Amount, TransactionParseError>(
            TransactionParseError::ZeroAmount,
        ),
        raw is None ==> parse_amount(raw) == Err::<Amount, TransactionParseError>(
            TransactionParseError::InvalidAmount(None),
        ),
{
    broadcast use Amount::lemma_of_units;
}

/// A parsed row keeps its fields whole: the client and transaction
/// identifiers are those of the row, and a deposit or withdrawal carries
/// exactly the row's number of units.
pub proof fn lemma_row_fields_kept(raw: CsvRow)
    ensures
        parse_row(raw) is Ok ==> ({
            let input = parse_row(raw)->Ok_0;
            &&& input.client_id == ClientId(raw.client_id)
            &&& input.transaction_id == TransactionId(raw.transaction_id)
            &&& (input.transaction_type matches TransactionType::Deposit { amount } ==> raw.amount
                == Some(amount.units()))
            &&& (input.transaction_type matches TransactionType::Withdraw { amount } ==> raw.amount
                == Some(amount.units()))
        }),
{
    broadcast use Amount::lemma_of_units;
}

/// An account's output line begins with its client identifier: the line
/// starts with the decimal text of the full identifier (the text that
/// `ClientId::to_string` gives), which is all digits, reads back as the
/// identifier, and is followed by the first comma.
pub proof fn lemma_row_starts_with_client(m: AccountModel)
    ensures
        ({
            let s = csv_row_text(m);
            exists|k: int|
                0 < k < s.len() && #[trigger] s[k] == ',' && (forall|i: int|
                    0 <= i < k ==> is_digit(#[trigger] s[i])) && s.take(k) == decimal_digits(
                    m.client_id.0 as nat,
                ) && decimal_value(s.take(k)) == m.client_id.0 as int
        }),
{
    let s = csv_row_text(m);
    let d = decimal_digits(m.client_id.0 as nat);
    lemma_decimal_digits_read_back(m.client_id.0 as nat);
    let k = d.len() as int;
    assert(s.take(k) =~= d);
    assert(s[k] == ',');
    assert forall|i: int| 0 <= i < k implies is_digit(#[trigger] s[i]) by {
        assert(s[i] == d[i]);
    }
}

} // verus!
