//! The engine's collaborators: where transactions come from, where
//! accounts and applied transactions are kept, and where failures go.

use crate::domain::account::{account_line, Account};
use crate::domain::error::{EngineError, Error, ErrorView};
use crate::domain::transaction::Transaction;
use vstd::prelude::*;

verus! {

/// An input item as the contracts see it.
pub type ItemView = Result<Transaction, ErrorView>;

/// The view of one input item.
pub open spec fn item_view(item: Result<Transaction, Error>) -> ItemView {
    match item {
        Ok(tx) => Ok(tx),
        Err(e) => Err(e@),
    }
}

/// The views of a sequence of input items.
pub open spec fn items_view(items: Seq<Result<Transaction, Error>>) -> Seq<ItemView> {
    items.map_values(|item: Result<Transaction, Error>| item_view(item))
}

/// The lines that report the accounts of the clients with an id below
/// `bound`, in ascending order of the id.
pub open spec fn account_lines(accounts: Map<u16, Account>, bound: nat) -> Seq<Seq<char>>
    decreases bound,
{
    if bound == 0 {
        Seq::empty()
    } else {
        let before = account_lines(accounts, (bound - 1) as nat);
        let client_id = (bound - 1) as u16;
        if accounts.contains_key(client_id) {
            before.push(account_line(client_id, accounts[client_id]))
        } else {
            before
        }
    }
}

/// The report of all accounts: the header, then one line for each known
/// client, in ascending order of the client id.
pub open spec fn balance_report(accounts: Map<u16, Account>) -> Seq<Seq<char>> {
    seq!["client,available,held,total,locked"@] + account_lines(accounts, 0x1_0000)
}

/// The texts of a sequence of strings.
pub open spec fn texts(lines: Seq<String>) -> Seq<Seq<char>> {
    lines.map_values(|line: String| line@)
}

/// A source of transactions that can be read once.
pub trait TransactionStream {
    /// The items that the source has not handed out yet.
    spec fn pending(&self) -> Seq<ItemView>;

    /// Hands out all pending items in order. The source is empty
    /// afterwards.
    fn stream(&mut self) -> (items: Vec<Result<Transaction, Error>>)
        ensures
            items_view(items@) == old(self).pending(),
            final(self).pending() == Seq::<ItemView>::empty(),
    ;
}

/// The sink for rejected rows and transactions.
pub trait DeadLetterQueue {
    /// Everything reported so far, oldest first.
    spec fn reported(&self) -> Seq<ErrorView>;

    /// Takes one failure. Nothing is filtered, batched or retried.
    fn report(&mut self, error: &Error)
        ensures
            final(self).reported() == old(self).reported().push(error@),
    ;
}

/// The store of accounts and of applied deposits and withdrawals.
pub trait OutputRepository {
    /// The account of every known client.
    spec fn accounts(&self) -> Map<u16, Account>;

    /// Every recorded transaction by its id, with its dispute flag.
    spec fn ledger(&self) -> Map<u32, (Transaction, bool)>;

    /// The client's account, opened first if the client is new. What the
    /// caller writes through the reference is the client's account
    /// afterwards.
    fn get_or_create_account(&mut self, client_id: &u16) -> (account: &mut Account)
        ensures
            *account == (if old(self).accounts().contains_key(*client_id) {
                old(self).accounts()[*client_id]
            } else {
                Account::opened()
            }),
            final(self).accounts() == old(self).accounts().insert(*client_id, *final(account)),
            final(self).ledger() == old(self).ledger(),
    ;

    /// The report of all accounts, for the caller to write out: see
    /// [`balance_report`]. Nothing changes.
    fn flush(&mut self) -> (lines: Vec<String>)
        ensures
            texts(lines@) == balance_report(old(self).accounts()),
            final(self).accounts() == old(self).accounts(),
            final(self).ledger() == old(self).ledger(),
    ;

    /// Records a transaction under an id that is not in use; refuses one
    /// that is, and changes nothing then.
    fn report_transaction(&mut self, transaction_id: &u32, transaction: &Transaction) -> (result:
        Result<(), Error>)
        ensures
            final(self).accounts() == old(self).accounts(),
            match result {
                Ok(_) => !old(self).ledger().contains_key(*transaction_id)
                    && final(self).ledger() == old(self).ledger().insert(
                    *transaction_id,
                    (*transaction, false),
                ),
                Err(e) => old(self).ledger().contains_key(*transaction_id)
                    && final(self).ledger() == old(self).ledger()
                    && e@ == ErrorView::Engine(
                    EngineError::DuplicateTransactionId { transaction_id: *transaction_id },
                ),
            },
    ;

    /// The transaction recorded under the id.
    fn get_transaction(&self, transaction_id: u32) -> (found: Option<&Transaction>)
        ensures
            match found {
                Some(tx) => self.ledger().contains_key(transaction_id) && *tx
                    == self.ledger()[transaction_id].0,
                None => !self.ledger().contains_key(transaction_id),
            },
    ;

    /// Sets the dispute flag of a recorded transaction; does nothing for an
    /// unknown id.
    fn mark_transaction_disputed(&mut self, transaction_id: u32)
        ensures
            final(self).accounts() == old(self).accounts(),
            final(self).ledger() == (if old(self).ledger().contains_key(transaction_id) {
                old(self).ledger().insert(
                    transaction_id,
                    (old(self).ledger()[transaction_id].0, true),
                )
            } else {
                old(self).ledger()
            }),
    ;

    /// Clears the dispute flag of a recorded transaction; does nothing for
    /// an unknown id.
    fn mark_transaction_resolved(&mut self, transaction_id: u32)
        ensures
            final(self).accounts() == old(self).accounts(),
            final(self).ledger() == (if old(self).ledger().contains_key(transaction_id) {
                old(self).ledger().insert(
                    transaction_id,
                    (old(self).ledger()[transaction_id].0, false),
                )
            } else {
                old(self).ledger()
            }),
    ;

    /// Whether the transaction is recorded and under dispute.
    fn has_dispute(&self, transaction_id: u32) -> (disputed: bool)
        ensures
            disputed == (self.ledger().contains_key(transaction_id)
                && self.ledger()[transaction_id].1),
    ;
}

} // verus!
