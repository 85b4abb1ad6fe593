//! One client's account: balances, the life cycle of each of its
//! transactions, and the rules by which a transaction changes them.
use crate::decimal::{decimal_digits, push_decimal};
use crate::laws::{consistent, lemma_fresh_account_consistent, lemma_outcome_keeps_consistent};
use crate::transaction::{AccountTransactionInput, TransactionId, TransactionState, TransactionType};
use crate::types::{balance_text, Amount, Balance, ClientId, NotSend};
use std::collections::HashMap;
use vstd::prelude::*;
use vstd::relations::injective_on;
use vstd::set_lib::{lemma_int_range, lemma_len_subset, lemma_map_size, set_int_range};

verus! {

broadcast use vstd::std_specs::hash::group_hash_axioms;

/// Whether an account still accepts transactions.
#[derive(Debug)]
pub enum AccountState {
    Active,
    Frozen,
}

impl Default for AccountState {
    fn default() -> (r: Self)
        ensures
            r == AccountState::Active,
    {
        AccountState::Active
    }
}

impl AccountState {
    /// Whether the account is frozen.
    pub fn is_locked(&self) -> (r: bool)
        ensures
            r == (*self is Frozen),
    {
        match self {
            AccountState::Frozen => true,
            AccountState::Active => false,
        }
    }
}

/// Why an account refused a transaction. A refused transaction leaves the
/// account as it was.
#[derive(Debug)]
pub enum AccountError {
    AccountFrozen { client_id: ClientId, transaction_id: TransactionId },
    InvalidClientId { expected: ClientId, actual: ClientId, transaction_id: TransactionId },
    InsufficientAvailableFunds { available: Balance, requested: Amount },
    InsufficientHeldFunds { held: Balance, requested: Amount },
    TransactionNotFound { transaction_id: TransactionId },
    InvalidStateTransition {
        transaction_id: TransactionId,
        transaction_type: TransactionType,
        current_state: Option<TransactionState>,
    },
}

#[verifier::ext_equal]
/// The abstract state of an account: its balances in units, the state and the
/// amount of each transaction it has recorded, and whether it is frozen.
pub struct AccountModel {
    pub client_id: ClientId,
    pub available: int,
    pub held: int,
    pub total: int,
    pub states: Map<u32, TransactionState>,
    pub amounts: Map<u32, Amount>,
    pub frozen: bool,
}

impl AccountModel {
    /// The state of a new account of `client_id`.
    pub open spec fn fresh(client_id: ClientId) -> AccountModel {
        AccountModel {
            client_id,
            available: 0,
            held: 0,
            total: 0,
            states: Map::empty(),
            amounts: Map::empty(),
            frozen: false,
        }
    }

    /// The total balance is the sum of the available and the held balances.
    pub open spec fn balanced(self) -> bool {
        self.total == self.available + self.held
    }

    /// The recorded state of transaction `id`, if any.
    pub open spec fn current_state(self, id: u32) -> Option<TransactionState> {
        if self.states.contains_key(id) {
            Some(self.states[id])
        } else {
            None
        }
    }

    /// The account with balances changed by the given differences.
    pub open spec fn shifted(self, available: int, held: int, total: int) -> AccountModel {
        AccountModel {
            available: self.available + available,
            held: self.held + held,
            total: self.total + total,
            ..self
        }
    }
}

/// What a transaction of type `tt` on transaction `id`, whose recorded state is
/// `current`, does to the balances and amounts of `m`, and the state it leaves
/// the transaction in; or why it is refused.
///
/// A new deposit adds to the available and total balances; a new withdrawal
/// takes from them, if enough is available. A dispute of a completed deposit
/// moves its amount from available to held; a resolution moves it back; a
/// chargeback removes it from held and total and freezes the account. Every
/// other combination is an invalid state transition.
pub open spec fn transition(
    m: AccountModel,
    id: u32,
    tt: TransactionType,
    current: Option<TransactionState>,
) -> Result<(AccountModel, TransactionState), AccountError> {
    let invalid = Err(
        AccountError::InvalidStateTransition {
            transaction_id: TransactionId(id),
            transaction_type: tt,
            current_state: current,
        },
    );
    let not_found = Err(AccountError::TransactionNotFound { transaction_id: TransactionId(id) });
    match tt {
        TransactionType::Deposit { amount } => if current is None {
            let a = amount.units() as int;
            Ok(
                (
                    AccountModel { amounts: m.amounts.insert(id, amount), ..m.shifted(a, 0, a) },
                    TransactionState::DepositComplete,
                ),
            )
        } else {
            invalid
        },
        TransactionType::Withdraw { amount } => if current is None {
            let a = amount.units() as int;
            if m.available < a {
                Err(
                    AccountError::InsufficientAvailableFunds {
                        available: Balance(m.available as u128),
                        requested: amount,
                    },
                )
            } else {
                Ok(
                    (
                        AccountModel {
                            amounts: m.amounts.insert(id, amount),
                            ..m.shifted(-a, 0, -a)
                        },
                        TransactionState::WithdrawalComplete,
                    ),
                )
            }
        } else {
            invalid
        },
        TransactionType::Dispute => if current == Some(TransactionState::DepositComplete) {
            if !m.amounts.contains_key(id) {
                not_found
            } else {
                let amount = m.amounts[id];
                let a = amount.units() as int;
                if m.available < a {
                    Err(
                        AccountError::InsufficientAvailableFunds {
                            available: Balance(m.available as u128),
                            requested: amount,
                        },
                    )
                } else {
                    Ok((m.shifted(-a, a, 0), TransactionState::Disputed))
                }
            }
        } else {
            invalid
        },
        TransactionType::Resolve => if current == Some(TransactionState::Disputed) {
            if !m.amounts.contains_key(id) {
                not_found
            } else {
                let amount = m.amounts[id];
                let a = amount.units() as int;
                if m.held < a {
                    Err(
                        AccountError::InsufficientHeldFunds {
                            held: Balance(m.held as u128),
                            requested: amount,
                        },
                    )
                } else {
                    Ok((m.shifted(a, -a, 0), TransactionState::Resolved))
                }
            }
        } else {
            invalid
        },
        TransactionType::Chargeback => if current == Some(TransactionState::Disputed) {
            if !m.amounts.contains_key(id) {
                not_found
            } else {
                let amount = m.amounts[id];
                let a = amount.units() as int;
                if m.held < a {
                    Err(
                        AccountError::InsufficientHeldFunds {
                            held: Balance(m.held as u128),
                            requested: amount,
                        },
                    )
                } else {
                    Ok(
                        (
                            AccountModel { frozen: true, ..m.shifted(0, -a, -a) },
                            TransactionState::Chargeback,
                        ),
                    )
                }
            }
        } else {
            invalid
        },
    }
}

/// What handling `input` does to an account in state `m`: the new state, or
/// why the transaction is refused. A transaction for another client is
/// refused first, then any transaction on a frozen account; otherwise the
/// transition applies and the transaction's new state is recorded.
pub open spec fn transaction_outcome(m: AccountModel, input: AccountTransactionInput) -> Result<
    AccountModel,
    AccountError,
> {
    let id = input.transaction_id;
    if input.client_id != m.client_id {
        Err(
            AccountError::InvalidClientId {
                transaction_id: id,
                expected: m.client_id,
                actual: input.client_id,
            },
        )
    } else if m.frozen {
        Err(AccountError::AccountFrozen { client_id: m.client_id, transaction_id: id })
    } else {
        match transition(m, id.0, input.transaction_type, m.current_state(id.0)) {
            Ok((n, s)) => Ok(AccountModel { states: n.states.insert(id.0, s), ..n }),
            Err(e) => Err(e),
        }
    }
}

/// The text of a boolean.
pub open spec fn bool_text(b: bool) -> Seq<char> {
    if b {
        seq!['t', 'r', 'u', 'e']
    } else {
        seq!['f', 'a', 'l', 's', 'e']
    }
}

/// The output line of an account: client, available, held, total, locked.
pub open spec fn csv_row_text(m: AccountModel) -> Seq<char> {
    decimal_digits(m.client_id.0 as nat) + seq![','] + balance_text(m.available as nat) + seq![',']
        + balance_text(m.held as nat) + seq![','] + balance_text(m.total as nat) + seq![',']
        + bool_text(m.frozen)
}

/// The header line of the account output.
pub const ACCOUNT_HEADER_ROW: &'static str = "client,available,held,total,locked";

/// The largest number of units one amount can hold.
pub open spec fn max_units() -> int {
    0xffff_ffff_ffff_ffff
}

/// A set of transaction identifiers has at most 2^32 members.
proof fn lemma_u32_set_len(s: Set<u32>)
    requires
        s.finite(),
    ensures
        s.len() <= 0x1_0000_0000,
{
    let f = |x: u32| x as int;
    let img = s.map(f);
    lemma_map_size(s, img, f);
    lemma_int_range(0, 0x1_0000_0000);
    lemma_len_subset(img, set_int_range(0, 0x1_0000_0000));
}

/// An account of one client. The balance and state fields are public for
/// inspection; verified code reads them through the methods of the same
/// names, whose contracts tie them to the view, and an account whose fields
/// were written directly is accepted by `handle_transaction` only once `wf`
/// is shown again.
pub struct Account {
    client_id: ClientId,
    pub available_balance: Balance,
    pub held_balance: Balance,
    pub total_balance: Balance,
    transaction_states: HashMap<u32, TransactionState>,
    transaction_amounts: HashMap<u32, Amount>,
    pub account_state: AccountState,
    _ns: NotSend,
}

impl View for Account {
    type V = AccountModel;

    closed spec fn view(&self) -> AccountModel {
        AccountModel {
            client_id: self.client_id,
            available: self.available_balance.0 as int,
            held: self.held_balance.0 as int,
            total: self.total_balance.0 as int,
            states: self.transaction_states@,
            amounts: self.transaction_amounts@,
            frozen: self.account_state is Frozen,
        }
    }
}

impl Account {
    /// The balances never exceed what the recorded amounts could have brought.
    closed spec fn bounded(&self) -> bool {
        let n = self.transaction_amounts@.dom().len();
        &&& self.transaction_amounts@.dom().finite()
        &&& self.available_balance.0 + self.held_balance.0 <= self.total_balance.0
        &&& self.total_balance.0 <= n * max_units()
    }

    /// Well-formedness: every recorded transaction has both a state and an
    /// amount, available and held together never exceed the total, and no
    /// balance can overflow.
    pub closed spec fn wf(&self) -> bool {
        &&& self.transaction_states@.dom() == self.transaction_amounts@.dom()
        &&& self.bounded()
    }

    /// A well-formed account's balances are non-negative and satisfy
    /// `available + held <= total`; its recorded transactions are finitely
    /// many, and each has both a state and an amount.
    pub proof fn lemma_wf_balances(&self)
        requires
            self.wf(),
        ensures
            0 <= self@.available,
            0 <= self@.held,
            self@.available + self@.held <= self@.total,
            self@.states.dom().finite(),
            self@.states.dom() == self@.amounts.dom(),
    {
    }

    /// A new, active account of `client_id` with zero balances.
    pub fn new(client_id: ClientId) -> (r: Self)
        ensures
            r.wf(),
            r@ == AccountModel::fresh(client_id),
            consistent(r@),
    {
        proof {
            lemma_fresh_account_consistent(client_id);
        }
        let r = Self {
            client_id,
            available_balance: Balance(0),
            held_balance: Balance(0),
            total_balance: Balance(0),
            transaction_states: HashMap::new(),
            transaction_amounts: HashMap::new(),
            account_state: AccountState::Active,
            _ns: NotSend::new(),
        };
        r
    }

    /// The client the account belongs to.
    pub fn client_id(&self) -> (r: ClientId)
        ensures
            r == self@.client_id,
    {
        self.client_id
    }

    /// The available balance, as the view has it.
    pub fn available_balance(&self) -> (r: Balance)
        ensures
            r.0 == self@.available,
    {
        self.available_balance
    }

    /// The held balance, as the view has it.
    pub fn held_balance(&self) -> (r: Balance)
        ensures
            r.0 == self@.held,
    {
        self.held_balance
    }

    /// The total balance, as the view has it.
    pub fn total_balance(&self) -> (r: Balance)
        ensures
            r.0 == self@.total,
    {
        self.total_balance
    }

    /// Whether the account is active or frozen, as the view has it.
    pub fn account_state(&self) -> (r: &AccountState)
        ensures
            (*r is Frozen) == self@.frozen,
    {
        &self.account_state
    }

    /// Handles one transaction: on success the account is in the state that
    /// `transaction_outcome` gives; on refusal it is unchanged and the error
    /// is the one `transaction_outcome` gives.
    pub fn handle_transaction(&mut self, transaction: &AccountTransactionInput) -> (r: Result<
        (),
        AccountError,
    >)
        requires
            old(self).wf(),
        ensures
            final(self).wf(),
            match transaction_outcome(old(self)@, *transaction) {
                Ok(m) => r is Ok && final(self)@ == m,
                Err(e) => r == Err::<(), AccountError>(e) && final(self)@ == old(self)@,
            },
            old(self)@.balanced() ==> final(self)@.balanced(),
            r matches Err(e) ==> !(e is TransactionNotFound),
            consistent(old(self)@) ==> consistent(final(self)@),
            consistent(old(self)@) ==> (r matches Err(e) ==> !(e is InsufficientHeldFunds)),
    {
        proof {
            if consistent(self@) {
                lemma_outcome_keeps_consistent(self@, *transaction);
            }
        }
        let transaction_id = transaction.transaction_id;
        let transaction_type = transaction.transaction_type;

        if transaction.client_id.0 != self.client_id.0 {
            return Err(
                AccountError::InvalidClientId {
                    transaction_id,
                    expected: self.client_id,
                    actual: transaction.client_id,
                },
            );
        }
        if self.account_state.is_locked() {
            return Err(
                AccountError::AccountFrozen { client_id: self.client_id, transaction_id },
            );
        }
        let current_state = self.get_transaction_state(&transaction_id);
        let state = match self.handle_transaction_state_transition(
            transaction_id,
            transaction_type,
            current_state,
        ) {
            Ok(state) => state,
            Err(e) => return Err(e),
        };
        self.transaction_states.insert(transaction_id.0, state);
        proof {
            assert(self.transaction_states@.dom() =~= self.transaction_amounts@.dom());
        }
        Ok(())
    }

    /// Applies `transition` for a transaction that is not frozen out and
    /// belongs to this client.
    fn handle_transaction_state_transition(
        &mut self,
        transaction_id: TransactionId,
        transaction_type: TransactionType,
        current_state: Option<TransactionState>,
    ) -> (r: Result<TransactionState, AccountError>)
        requires
            old(self).wf(),
            current_state == old(self)@.current_state(transaction_id.0),
        ensures
            match transition(old(self)@, transaction_id.0, transaction_type, current_state) {
                Ok((m, s)) => r == Ok::<TransactionState, AccountError>(s) && final(self)@ == m,
                Err(e) => r == Err::<TransactionState, AccountError>(e) && final(self)@ == old(
                    self,
                )@,
            },
            final(self).bounded(),
            final(self).client_id == old(self).client_id,
    {
        match (transaction_type, current_state) {
            (TransactionType::Deposit { amount }, None) => self.handle_deposit(
                transaction_id,
                amount,
            ),
            (TransactionType::Withdraw { amount }, None) => self.handle_withdrawal(
                transaction_id,
                amount,
            ),
            (TransactionType::Dispute, Some(TransactionState::DepositComplete)) => self.handle_dispute(
                transaction_id,
            ),
            (TransactionType::Resolve, Some(TransactionState::Disputed)) => self.handle_resolve(
                transaction_id,
            ),
            (TransactionType::Chargeback, Some(TransactionState::Disputed)) => self.handle_chargeback(
                transaction_id,
            ),
            _ => Err(
                AccountError::InvalidStateTransition {
                    transaction_id,
                    transaction_type,
                    current_state,
                },
            ),
        }
    }

    /// The recorded state of a transaction, if any.
    fn get_transaction_state(&self, transaction_id: &TransactionId) -> (r: Option<TransactionState>)
        ensures
            r == self@.current_state(transaction_id.0),
    {
        match self.transaction_states.get(&transaction_id.0) {
            Some(state) => Some(*state),
            None => None,
        }
    }

    /// The recorded amount of a transaction, or `TransactionNotFound`.
    fn get_amount_from_transaction_id(&self, id: TransactionId) -> (r: Result<&Amount, AccountError>)
        ensures
            match r {
                Ok(a) => self@.amounts.contains_key(id.0) && *a == self@.amounts[id.0],
                Err(e) => !self@.amounts.contains_key(id.0) && e
                    == AccountError::TransactionNotFound { transaction_id: id },
            },
    {
        match self.transaction_amounts.get(&id.0) {
            Some(a) => Ok(a),
            None => Err(AccountError::TransactionNotFound { transaction_id: id }),
        }
    }

    fn handle_deposit(&mut self, id: TransactionId, amount: Amount) -> (r: Result<
        TransactionState,
        AccountError,
    >)
        requires
            old(self).wf(),
            old(self)@.current_state(id.0) is None,
        ensures
            transition(old(self)@, id.0, TransactionType::Deposit { amount }, None) == Ok::<
                (AccountModel, TransactionState),
                AccountError,
            >((final(self)@, TransactionState::DepositComplete)),
            r == Ok::<TransactionState, AccountError>(TransactionState::DepositComplete),
            final(self).bounded(),
            final(self).client_id == old(self).client_id,
    {
        proof {
            lemma_u32_set_len(self.transaction_amounts@.dom().insert(id.0));
        }
        self.available_balance.add_amount(amount);
        self.total_balance.add_amount(amount);
        self.transaction_amounts.insert(id.0, amount);
        proof {
            assert(self.transaction_amounts@.dom() =~= old(self).transaction_amounts@.dom().insert(
                id.0,
            ));
        }
        Ok(TransactionState::DepositComplete)
    }

    fn handle_withdrawal(&mut self, id: TransactionId, amount: Amount) -> (r: Result<
        TransactionState,
        AccountError,
    >)
        requires
            old(self).wf(),
            old(self)@.current_state(id.0) is None,
        ensures
            match transition(old(self)@, id.0, TransactionType::Withdraw { amount }, None) {
                Ok((m, s)) => r == Ok::<TransactionState, AccountError>(s) && final(self)@ == m,
                Err(e) => r == Err::<TransactionState, AccountError>(e) && final(self)@ == old(
                    self,
                )@,
            },
            final(self).bounded(),
            final(self).client_id == old(self).client_id,
    {
        if self.available_balance < amount {
            return Err(
                AccountError::InsufficientAvailableFunds {
                    available: self.available_balance,
                    requested: amount,
                },
            );
        }
        self.available_balance.sub_amount(amount);
        self.total_balance.sub_amount(amount);
        self.transaction_amounts.insert(id.0, amount);
        proof {
            assert(self.transaction_amounts@.dom() =~= old(self).transaction_amounts@.dom().insert(
                id.0,
            ));
        }
        Ok(TransactionState::WithdrawalComplete)
    }

    fn handle_dispute(&mut self, transaction_id: TransactionId) -> (r: Result<
        TransactionState,
        AccountError,
    >)
        requires
            old(self).wf(),
            old(self)@.current_state(transaction_id.0) == Some(TransactionState::DepositComplete),
        ensures
            match transition(
                old(self)@,
                transaction_id.0,
                TransactionType::Dispute,
                Some(TransactionState::DepositComplete),
            ) {
                Ok((m, s)) => r == Ok::<TransactionState, AccountError>(s) && final(self)@ == m,
                Err(e) => r == Err::<TransactionState, AccountError>(e) && final(self)@ == old(
                    self,
                )@,
            },
            final(self).bounded(),
            final(self).client_id == old(self).client_id,
    {
        let amount = match self.get_amount_from_transaction_id(transaction_id) {
            Ok(a) => *a,
            Err(e) => return Err(e),
        };
        if self.available_balance < amount {
            return Err(
                AccountError::InsufficientAvailableFunds {
                    available: self.available_balance,
                    requested: amount,
                },
            );
        }
        self.available_balance.sub_amount(amount);
        self.held_balance.add_amount(amount);
        Ok(TransactionState::Disputed)
    }

    fn handle_resolve(&mut self, transaction_id: TransactionId) -> (r: Result<
        TransactionState,
        AccountError,
    >)
        requires
            old(self).wf(),
            old(self)@.current_state(transaction_id.0) == Some(TransactionState::Disputed),
        ensures
            match transition(
                old(self)@,
                transaction_id.0,
                TransactionType::Resolve,
                Some(TransactionState::Disputed),
            ) {
                Ok((m, s)) => r == Ok::<TransactionState, AccountError>(s) && final(self)@ == m,
                Err(e) => r == Err::<TransactionState, AccountError>(e) && final(self)@ == old(
                    self,
                )@,
            },
            final(self).bounded(),
            final(self).client_id == old(self).client_id,
    {
        let amount = match self.get_amount_from_transaction_id(transaction_id) {
            Ok(a) => *a,
            Err(e) => return Err(e),
        };
        if self.held_balance < amount {
            return Err(
                AccountError::InsufficientHeldFunds { held: self.held_balance, requested: amount },
            );
        }
        self.held_balance.sub_amount(amount);
        self.available_balance.add_amount(amount);
        Ok(TransactionState::Resolved)
    }

    fn handle_chargeback(&mut self, transaction_id: TransactionId) -> (r: Result<
        TransactionState,
        AccountError,
    >)
        requires
            old(self).wf(),
            old(self)@.current_state(transaction_id.0) == Some(TransactionState::Disputed),
        ensures
            match transition(
                old(self)@,
                transaction_id.0,
                TransactionType::Chargeback,
                Some(TransactionState::Disputed),
            ) {
                Ok((m, s)) => r == Ok::<TransactionState, AccountError>(s) && final(self)@ == m,
                Err(e) => r == Err::<TransactionState, AccountError>(e) && final(self)@ == old(
                    self,
                )@,
            },
            final(self).bounded(),
            final(self).client_id == old(self).client_id,
    {
        let amount = match self.get_amount_from_transaction_id(transaction_id) {
            Ok(a) => *a,
            Err(e) => return Err(e),
        };
        if self.held_balance < amount {
            return Err(
                AccountError::InsufficientHeldFunds { held: self.held_balance, requested: amount },
            );
        }
        self.held_balance.sub_amount(amount);
        self.total_balance.sub_amount(amount);
        self.freeze_account();
        Ok(TransactionState::Chargeback)
    }

    /// Freezes the account.
    fn freeze_account(&mut self)
        ensures
            final(self)@ == (AccountModel { frozen: true, ..old(self)@ }),
            final(self).available_balance == old(self).available_balance,
            final(self).held_balance == old(self).held_balance,
            final(self).total_balance == old(self).total_balance,
            final(self).transaction_amounts@ == old(self).transaction_amounts@,
            final(self).client_id == old(self).client_id,
    {
        self.account_state = AccountState::Frozen;
    }

    /// The output line of the account: client, available, held, total, locked.
    pub fn to_csv_row(&self) -> (s: String)
        ensures
            s@ == csv_row_text(self@),
    {
        let mut s = String::new();
        push_decimal(&mut s, self.client_id.0 as u128);
        proof { reveal_strlit(","); }
        s.append(",");
        self.available_balance.push_text(&mut s);
        s.append(",");
        self.held_balance.push_text(&mut s);
        s.append(",");
        self.total_balance.push_text(&mut s);
        s.append(",");
        if self.account_state.is_locked() {
            proof { reveal_strlit("true"); }
            s.append("true");
        } else {
            proof { reveal_strlit("false"); }
            s.append("false");
        }
        s
    }
}

} // verus!
