//! The processor: one account per client, fed one input record at a time,
//! skipping or stopping at failed records as configured.
use crate::account::{transaction_outcome, Account, AccountError, AccountModel};
use crate::transaction::{parse_row, AccountTransactionInput, CsvRow, TransactionParseError};
use crate::types::{ClientId, NotSend};
use std::collections::HashMap;
use vstd::prelude::*;

verus! {

broadcast use vstd::std_specs::hash::group_hash_axioms;

/// The error of the `csv` crate, carried through unchanged.
#[verifier::external_type_specification]
#[verifier::external_body]
pub struct ExCsvError(csv::Error);

/// The error of an output stream, carried through unchanged.
#[verifier::external_type_specification]
#[verifier::external_body]
pub struct ExIoError(std::io::Error);

/// Why processing an input stopped or a record was skipped.
#[derive(Debug)]
pub enum TransactionProcessorError {
    LineParseError(TransactionParseError),
    ClientAccountError(AccountError),
    CsvReaderError(csv::Error),
    CsvWriterError(std::io::Error),
}

#[verifier::ext_equal]
/// The abstract state of a processor: the account of each client seen so far,
/// the clients in the order they were first seen, and the error policy.
pub struct ProcessorModel {
    pub accounts: Map<u16, AccountModel>,
    pub order: Seq<u16>,
    pub fail_file_on_error: bool,
}

/// The account of client `c`: the recorded one, or a fresh one.
pub open spec fn account_of(p: ProcessorModel, c: u16) -> AccountModel {
    if p.accounts.contains_key(c) {
        p.accounts[c]
    } else {
        AccountModel::fresh(ClientId(c))
    }
}

/// The processor with client `c`'s account set to `m`.
pub open spec fn with_account(p: ProcessorModel, c: u16, m: AccountModel) -> ProcessorModel {
    ProcessorModel {
        accounts: p.accounts.insert(c, m),
        order: if p.accounts.contains_key(c) {
            p.order
        } else {
            p.order.push(c)
        },
        fail_file_on_error: p.fail_file_on_error,
    }
}

/// What processing one parsed-or-not row does. A row that describes no
/// transaction changes nothing. Otherwise the client's account is created
/// if it is new (even where the transaction is then refused) and the
/// transaction is handled by it.
pub open spec fn row_outcome(p: ProcessorModel, row: CsvRow) -> (
    ProcessorModel,
    Result<(), TransactionProcessorError>,
) {
    match parse_row(row) {
        Err(e) => (p, Err(TransactionProcessorError::LineParseError(e))),
        Ok(input) => {
            let c = input.client_id.0;
            let a = account_of(p, c);
            match transaction_outcome(a, input) {
                Ok(m) => (with_account(p, c, m), Ok(())),
                Err(e) => (with_account(p, c, a), Err(TransactionProcessorError::ClientAccountError(e))),
            }
        },
    }
}

/// What became of one input record.
#[derive(Debug)]
pub enum RecordOutcome {
    /// The record's transaction was accepted.
    Processed,
    /// The record failed and processing goes on with the next one.
    Skipped(TransactionProcessorError),
    /// The record failed and processing stops.
    Stopped(TransactionProcessorError),
}

/// What processing one input record does: a record that could not be read
/// changes nothing; a row is processed as `row_outcome` says. A failure
/// stops processing where the processor fails on errors, and is skipped
/// otherwise.
pub open spec fn record_outcome(p: ProcessorModel, record: Result<CsvRow, csv::Error>) -> (
    ProcessorModel,
    RecordOutcome,
) {
    let (q, r) = match record {
        Err(e) => (p, Err(TransactionProcessorError::CsvReaderError(e))),
        Ok(row) => row_outcome(p, row),
    };
    (
        q,
        match r {
            Ok(_) => RecordOutcome::Processed,
            Err(e) => if p.fail_file_on_error {
                RecordOutcome::Stopped(e)
            } else {
                RecordOutcome::Skipped(e)
            },
        },
    )
}

/// Processes transactions, keeping one account per client.
pub struct TransactionProcessor {
    accounts: Vec<Account>,
    index: HashMap<u16, usize>,
    pub fail_file_on_error: bool,
    _ns: NotSend,
}

impl View for TransactionProcessor {
    type V = ProcessorModel;

    closed spec fn view(&self) -> ProcessorModel {
        ProcessorModel {
            accounts: Map::new(
                |c: u16| self.index@.contains_key(c),
                |c: u16| self.accounts@[self.index@[c] as int]@,
            ),
            order: Seq::new(self.accounts@.len(), |i: int| self.accounts@[i]@.client_id.0),
            fail_file_on_error: self.fail_file_on_error,
        }
    }
}

impl TransactionProcessor {
    /// Well-formedness: the index maps each client to the position of its
    /// account, positions and clients match one to one, and each account is
    /// well formed.
    pub closed spec fn wf(&self) -> bool {
        &&& self.index@.dom().finite()
        &&& self.index@.dom().len() == self.accounts@.len()
        &&& forall|c: u16|
            #[trigger] self.index@.contains_key(c) ==> self.index@[c] < self.accounts@.len()
                && self.accounts@[self.index@[c] as int]@.client_id.0 == c
        &&& forall|i: int|
            0 <= i < self.accounts@.len() ==> {
                &&& self.index@.contains_key(#[trigger] self.accounts@[i]@.client_id.0)
                &&& self.index@[self.accounts@[i]@.client_id.0] == i
                &&& self.accounts@[i].wf()
            }
    }

    /// A processor with no accounts; it stops at the first failed record
    /// where `fail_file_on_error` holds, and skips failed records otherwise.
    pub fn new(fail_file_on_error: bool) -> (r: Self)
        ensures
            r.wf(),
            r@.accounts == Map::<u16, AccountModel>::empty(),
            r@.order == Seq::<u16>::empty(),
            r@.fail_file_on_error == fail_file_on_error,
    {
        Self { accounts: Vec::new(), index: HashMap::new(), fail_file_on_error, _ns: NotSend::new() }
    }

    /// The number of accounts.
    pub fn account_count(&self) -> (r: usize)
        requires
            self.wf(),
        ensures
            r == self@.accounts.dom().len(),
    {
        assert(self@.accounts.dom() =~= self.index@.dom());
        self.accounts.len()
    }

    /// The account of a client, if it has one.
    pub fn get_account(&self, client_id: &ClientId) -> (r: Option<&Account>)
        requires
            self.wf(),
        ensures
            match r {
                Some(a) => self@.accounts.contains_key(client_id.0) && a@ == self@.accounts[client_id.0]
                    && a.wf(),
                None => !self@.accounts.contains_key(client_id.0),
            },
    {
        match self.index.get(&client_id.0) {
            Some(i) => Some(&self.accounts[*i]),
            None => None,
        }
    }

    /// The accounts, in the order their clients were first seen.
    pub fn accounts(&self) -> (r: &[Account])
        requires
            self.wf(),
        ensures
            r@.len() == self@.order.len(),
            forall|i: int|
                0 <= i < r@.len() ==> self@.accounts.contains_key(self@.order[i])
                    && #[trigger] r@[i]@ == self@.accounts[self@.order[i]] && r@[i].wf(),
            self@.order.no_duplicates(),
            forall|c: u16| #[trigger] self@.accounts.contains_key(c) <==> self@.order.contains(c),
    {
        let ghost order = self@.order;
        assert forall|c: u16| #[trigger] self@.accounts.contains_key(c) implies order.contains(c) by {
            assert(order[self.index@[c] as int] == c);
        }
        self.accounts.as_slice()
    }

    /// Processes one row: parses it, finds or creates the client's account,
    /// and lets the account handle the transaction.
    pub fn process_transaction_row(&mut self, next_line: CsvRow) -> (r: Result<
        (),
        TransactionProcessorError,
    >)
        requires
            old(self).wf(),
        ensures
            final(self).wf(),
            (final(self)@, r) == row_outcome(old(self)@, next_line),
    {
        let account_input = match AccountTransactionInput::create(next_line) {
            Ok(input) => input,
            Err(error) => return Err(TransactionProcessorError::LineParseError(error)),
        };
        let c = account_input.client_id.0;
        let i = self.account_position(c);
        let ghost mid = *self;
        let result = self.accounts[i].handle_transaction(&account_input);
        proof {
            let p = old(self)@;
            let a = account_of(p, c);
            let q = mid@;
            assert(q.accounts[c] == a);
            assert forall|d: u16| #[trigger] self.index@.contains_key(d) implies self.index@[d]
                < self.accounts@.len() && self.accounts@[self.index@[d] as int]@.client_id.0
                == d by {
            }
            assert forall|j: int| 0 <= j < self.accounts@.len() implies {
                &&& self.index@.contains_key(#[trigger] self.accounts@[j]@.client_id.0)
                &&& self.index@[self.accounts@[j]@.client_id.0] == j
                &&& self.accounts@[j].wf()
            } by {
                if j != i {
                    assert(self.accounts@[j] == mid.accounts@[j]);
                }
            }
            let m = self.accounts@[i as int]@;
            assert(self@.accounts =~= q.accounts.insert(c, m)) by {
                assert forall|d: u16| #[trigger] self@.accounts.contains_key(d) implies self@.accounts[d]
                    == q.accounts.insert(c, m)[d] by {
                    if d != c {
                        assert(self.index@[d] != i);
                    }
                }
            }
        }
        match result {
            Ok(_) => Ok(()),
            Err(error) => Err(TransactionProcessorError::ClientAccountError(error)),
        }
    }

    /// The position of client `c`'s account, created fresh if it has none.
    fn account_position(&mut self, c: u16) -> (i: usize)
        requires
            old(self).wf(),
        ensures
            final(self).wf(),
            i < final(self).accounts@.len(),
            final(self).index@.contains_key(c),
            final(self).index@[c] == i,
            final(self)@ == with_account(old(self)@, c, account_of(old(self)@, c)),
    {
        match self.index.get(&c) {
            Some(i) => {
                *i
            },
            None => {
                let i = self.accounts.len();
                let ghost old_accounts = self.accounts@;
                let ghost old_index = self.index@;
                let ghost p = old(self)@;
                self.accounts.push(Account::new(ClientId(c)));
                self.index.insert(c, i);
                proof {
                    assert forall|d: u16| #[trigger] self.index@.contains_key(d) implies self.index@[d]
                        < self.accounts@.len() && self.accounts@[self.index@[d] as int]@.client_id.0
                        == d by {
                        if d != c {
                            assert(old_index.contains_key(d));
                        }
                    }
                    assert forall|j: int| 0 <= j < self.accounts@.len() implies {
                        &&& self.index@.contains_key(#[trigger] self.accounts@[j]@.client_id.0)
                        &&& self.index@[self.accounts@[j]@.client_id.0] == j
                        &&& self.accounts@[j].wf()
                    } by {
                        if j < old_accounts.len() {
                            assert(self.accounts@[j] == old_accounts[j]);
                        }
                    }
                    let q = with_account(p, c, account_of(p, c));
                    assert(self@.accounts =~= q.accounts) by {
                        assert forall|d: u16| #[trigger] self@.accounts.contains_key(d) implies self@.accounts[d] == q.accounts[d] by {
                            if d != c {
                                assert(old_index.contains_key(d));
                            }
                        }
                    }
                }
                i
            },
        }
    }

    /// Processes one input record: one that could not be read, or a row.
    /// A failure stops processing where the processor fails on errors, and is
    /// skipped otherwise.
    pub fn process_record(&mut self, record: Result<CsvRow, csv::Error>) -> (r: RecordOutcome)
        requires
            old(self).wf(),
        ensures
            final(self).wf(),
            (final(self)@, r) == record_outcome(old(self)@, record),
    {
        let result = match record {
            Ok(row) => self.process_transaction_row(row),
            Err(err) => Err(TransactionProcessorError::CsvReaderError(err)),
        };
        match result {
            Ok(_) => RecordOutcome::Processed,
            Err(e) => if self.fail_file_on_error {
                RecordOutcome::Stopped(e)
            } else {
                RecordOutcome::Skipped(e)
            },
        }
    }
}

} // verus!
