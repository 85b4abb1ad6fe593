//! Transactions: their kinds, their life-cycle states, and their parsing from
//! the fields of an input row.
use crate::types::{Amount, ClientId};
use vstd::prelude::*;

verus! {

/// What a transaction asks of an account.
#[derive(Copy, Clone, Debug)]
pub enum TransactionType {
    Withdraw { amount: Amount },
    Deposit { amount: Amount },
    Dispute,
    Resolve,
    Chargeback,
}

/// Where a transaction stands in its life cycle.
#[derive(Debug, Copy, Clone, PartialEq, Eq)]
pub enum TransactionState {
    DepositComplete,
    WithdrawalComplete,
    Disputed,
    Resolved,
    Chargeback,
}

/// The identifier of a transaction.
#[derive(Debug, Eq, Hash, PartialEq, Copy, Clone, Structural)]
pub struct TransactionId(pub u32);

/// A transaction addressed to one client's account.
pub struct AccountTransactionInput {
    pub client_id: ClientId,
    pub transaction_type: TransactionType,
    pub transaction_id: TransactionId,
}

/// Why an input row does not describe a transaction.
#[derive(Debug)]
pub enum TransactionParseError {
    /// The type field names no known transaction type.
    UnknownType(String),
    /// A deposit or withdrawal carries no amount.
    InvalidAmount(Option<u64>),
    /// A deposit or withdrawal carries an amount that is zero once scaled.
    ZeroAmount,
}

/// The fields of one input row; `amount` is already scaled to units of one
/// ten-thousandth (rounded to the nearest unit), or absent.
#[derive(Debug)]
pub struct CsvRow {
    pub transaction_type: String,
    pub client_id: u16,
    pub transaction_id: u32,
    pub amount: Option<u64>,
}

/// The amount read from an optional number of units: absent is
/// `InvalidAmount(None)`, zero is `ZeroAmount`.
pub open spec fn parse_amount(raw: Option<u64>) -> Result<Amount, TransactionParseError> {
    match raw {
        None => Err(TransactionParseError::InvalidAmount(None)),
        Some(n) => if n == 0 {
            Err(TransactionParseError::ZeroAmount)
        } else {
            Ok(Amount::of_units(n))
        },
    }
}

/// The type names of the five transaction types.
pub open spec fn withdrawal_name() -> Seq<char> {
    seq!['w', 'i', 't', 'h', 'd', 'r', 'a', 'w', 'a', 'l']
}

pub open spec fn deposit_name() -> Seq<char> {
    seq!['d', 'e', 'p', 'o', 's', 'i', 't']
}

pub open spec fn dispute_name() -> Seq<char> {
    seq!['d', 'i', 's', 'p', 'u', 't', 'e']
}

pub open spec fn resolve_name() -> Seq<char> {
    seq!['r', 'e', 's', 'o', 'l', 'v', 'e']
}

pub open spec fn chargeback_name() -> Seq<char> {
    seq!['c', 'h', 'a', 'r', 'g', 'e', 'b', 'a', 'c', 'k']
}

/// The transaction type named `name`, with the amount that a deposit or a
/// withdrawal reads from `amount`.
pub open spec fn parse_type(name: String, amount: Option<u64>) -> Result<
    TransactionType,
    TransactionParseError,
> {
    if name@ == withdrawal_name() {
        match parse_amount(amount) {
            Ok(a) => Ok(TransactionType::Withdraw { amount: a }),
            Err(e) => Err(e),
        }
    } else if name@ == deposit_name() {
        match parse_amount(amount) {
            Ok(a) => Ok(TransactionType::Deposit { amount: a }),
            Err(e) => Err(e),
        }
    } else if name@ == dispute_name() {
        Ok(TransactionType::Dispute)
    } else if name@ == resolve_name() {
        Ok(TransactionType::Resolve)
    } else if name@ == chargeback_name() {
        Ok(TransactionType::Chargeback)
    } else {
        Err(TransactionParseError::UnknownType(name))
    }
}

/// The transaction an input row describes, or why it describes none.
pub open spec fn parse_row(raw: CsvRow) -> Result<AccountTransactionInput, TransactionParseError> {
    match parse_type(raw.transaction_type, raw.amount) {
        Ok(tt) => Ok(
            AccountTransactionInput {
                client_id: ClientId(raw.client_id),
                transaction_type: tt,
                transaction_id: TransactionId(raw.transaction_id),
            },
        ),
        Err(e) => Err(e),
    }
}

impl Amount {
    /// Reads an optional amount of units: absent is `InvalidAmount(None)`,
    /// zero is `ZeroAmount`.
    pub fn from(raw: Option<u64>) -> (r: Result<Self, TransactionParseError>)
        ensures
            r == parse_amount(raw),
            r is Ok <==> (raw is Some && raw->0 != 0),
            r is Ok ==> r->Ok_0.units() == raw->0,
    {
        match raw {
            Some(units) => match Amount::new(units) {
                Some(amount) => Ok(amount),
                None => Err(TransactionParseError::ZeroAmount),
            },
            None => Err(TransactionParseError::InvalidAmount(raw)),
        }
    }
}

/// Whether `s` is the text `name`.
fn is_named(s: &String, name: &str) -> (r: bool)
    ensures
        r == (s@ == name@),
{
    *s == String::from_str(name)
}

impl AccountTransactionInput {
    /// Reads the transaction of an input row. Deposits and withdrawals need a
    /// non-zero amount; disputes, resolutions and chargebacks ignore it.
    pub fn create(raw: CsvRow) -> (r: Result<AccountTransactionInput, TransactionParseError>)
        ensures
            r == parse_row(raw),
    {
        proof {
            reveal_strlit("withdrawal");
            reveal_strlit("deposit");
            reveal_strlit("dispute");
            reveal_strlit("resolve");
            reveal_strlit("chargeback");
        }
        let ghost name = raw.transaction_type@;
        assert("withdrawal"@ =~= withdrawal_name());
        assert("deposit"@ =~= deposit_name());
        assert("dispute"@ =~= dispute_name());
        assert("resolve"@ =~= resolve_name());
        assert("chargeback"@ =~= chargeback_name());
        let transaction_type = if is_named(&raw.transaction_type, "withdrawal") {
            match Amount::from(raw.amount) {
                Ok(amount) => TransactionType::Withdraw { amount },
                Err(e) => return Err(e),
            }
        } else if is_named(&raw.transaction_type, "deposit") {
            match Amount::from(raw.amount) {
                Ok(amount) => TransactionType::Deposit { amount },
                Err(e) => return Err(e),
            }
        } else if is_named(&raw.transaction_type, "dispute") {
            TransactionType::Dispute
        } else if is_named(&raw.transaction_type, "resolve") {
            TransactionType::Resolve
        } else if is_named(&raw.transaction_type, "chargeback") {
            TransactionType::Chargeback
        } else {
            return Err(TransactionParseError::UnknownType(raw.transaction_type));
        };
        Ok(AccountTransactionInput {
            client_id: ClientId(raw.client_id),
            transaction_type,
            transaction_id: TransactionId(raw.transaction_id),
        })
    }
}

} // verus!
