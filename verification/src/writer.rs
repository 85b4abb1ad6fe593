//! Rendering of the accounts as CSV text: a header line, then one line per
//! account.
use crate::account::{csv_row_text, Account, AccountModel, ACCOUNT_HEADER_ROW};
use vstd::prelude::*;

verus! {

/// The header line of the account output, without its line break.
pub open spec fn header_text() -> Seq<char> {
    seq![
        'c', 'l', 'i', 'e', 'n', 't', ',', 'a', 'v', 'a', 'i', 'l', 'a', 'b', 'l', 'e', ',', 'h',
        'e', 'l', 'd', ',', 't', 'o', 't', 'a', 'l', ',', 'l', 'o', 'c', 'k', 'e', 'd',
    ]
}

/// One line per account, in the order given, each ended by a line break.
pub open spec fn rows_text(accounts: Seq<AccountModel>) -> Seq<char>
    decreases accounts.len(),
{
    if accounts.len() == 0 {
        Seq::empty()
    } else {
        rows_text(accounts.drop_last()) + csv_row_text(accounts.last()) + seq!['\n']
    }
}

/// The abstract accounts of a sequence of accounts.
pub open spec fn models(accounts: Seq<Account>) -> Seq<AccountModel> {
    accounts.map_values(|a: Account| a@)
}

/// The rows of the first `i + 1` accounts are those of the first `i`, then
/// the line of account `i`.
proof fn lemma_rows_text_step(ms: Seq<AccountModel>, i: int)
    requires
        0 <= i < ms.len(),
    ensures
        rows_text(ms.take(i + 1)) == rows_text(ms.take(i)) + csv_row_text(ms[i]) + seq!['\n'],
{
    assert(ms.take(i + 1).drop_last() =~= ms.take(i));
}

/// Appends the line of `account`, with its line break, to `out`.
fn push_line(out: &mut String, account: &Account)
    ensures
        final(out)@ == old(out)@ + csv_row_text(account@) + seq!['\n'],
{
    let row = account.to_csv_row();
    out.append(row.as_str());
    proof {
        reveal_strlit("\n");
    }
    out.append("\n");
}

/// Collects the CSV text of account states.
pub struct AccountWriter {
    output: String,
}

impl View for AccountWriter {
    type V = Seq<char>;

    closed spec fn view(&self) -> Seq<char> {
        self.output@
    }
}

impl AccountWriter {
    /// A writer that has written nothing yet.
    pub fn new() -> (r: Self)
        ensures
            r@ == Seq::<char>::empty(),
    {
        AccountWriter { output: String::new() }
    }

    /// Writes the header line and then one line per account, in order.
    pub fn write_all(&mut self, accounts: &[Account])
        ensures
            final(self)@ == old(self)@ + header_text() + seq!['\n'] + rows_text(models(accounts@)),
    {
        proof {
            reveal_strlit("client,available,held,total,locked");
            reveal_strlit("\n");
        }
        self.output.append(ACCOUNT_HEADER_ROW);
        self.output.append("\n");
        let ghost start = self.output@;
        let mut i: usize = 0;
        while i < accounts.len()
            invariant
                i <= accounts@.len(),
                self.output@ == start + rows_text(models(accounts@).take(i as int)),
            decreases accounts@.len() - i,
        {
            push_line(&mut self.output, &accounts[i]);
            proof {
                lemma_rows_text_step(models(accounts@), i as int);
            }
            i = i + 1;
        }
        assert(models(accounts@).take(accounts@.len() as int) =~= models(accounts@));
        assert(final(self)@ =~= old(self)@ + header_text() + seq!['\n'] + rows_text(
            models(accounts@),
        ));
    }

    /// The text written so far.
    pub fn text(&self) -> (r: &String)
        ensures
            r@ == self@,
    {
        &self.output
    }
}

} // verus!
