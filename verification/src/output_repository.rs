//! The store that keeps accounts and applied transactions in memory.

use crate::domain::account::Account;
use crate::domain::error::{EngineError, Error};
use crate::domain::traits::{account_lines, texts, OutputRepository};
use crate::domain::transaction::Transaction;
use std::collections::hash_map::Entry;
use std::collections::HashMap;
use vstd::prelude::*;

verus! {

broadcast use vstd::std_specs::hash::group_hash_axioms;

/// Accounts by client and applied deposits and withdrawals by id, each
/// with its dispute flag.
#[derive(Debug)]
pub struct StdOutOutput {
    accounts: HashMap<u16, Account>,
    ledger: HashMap<u32, (Transaction, bool)>,
}

impl StdOutOutput {
    /// A store that knows no client and no transaction.
    pub fn new() -> (store: Self)
        ensures
            store.accounts() == Map::<u16, Account>::empty(),
            store.ledger() == Map::<u32, (Transaction, bool)>::empty(),
    {
        StdOutOutput { accounts: HashMap::new(), ledger: HashMap::new() }
    }
}

impl Default for StdOutOutput {
    fn default() -> (store: Self)
        ensures
            store.accounts() == Map::<u16, Account>::empty(),
            store.ledger() == Map::<u32, (Transaction, bool)>::empty(),
    {
        StdOutOutput::new()
    }
}

impl OutputRepository for StdOutOutput {
    closed spec fn accounts(&self) -> Map<u16, Account> {
        self.accounts@
    }

    closed spec fn ledger(&self) -> Map<u32, (Transaction, bool)> {
        self.ledger@
    }

    fn get_or_create_account(&mut self, client_id: &u16) -> (account: &mut Account) {
        self.accounts.entry(*client_id).or_insert(Account::new())
    }

    fn flush(&mut self) -> (lines: Vec<String>) {
        let mut lines: Vec<String> = Vec::new();
        lines.push(String::from_str("client,available,held,total,locked"));
        let mut next: u32 = 0;
        assert(texts(lines@) =~= seq!["client,available,held,total,locked"@] + account_lines(
            self.accounts@,
            0,
        ));
        while next < 0x1_0000
            invariant
                next <= 0x1_0000,
                texts(lines@) == seq!["client,available,held,total,locked"@] + account_lines(
                    self.accounts@,
                    next as nat,
                ),
            decreases 0x1_0000 - next,
        {
            let client_id: u16 = next as u16;
            let ghost before = lines@;
            match self.accounts.get(&client_id) {
                Some(account) => {
                    lines.push(account.line(client_id));
                    assert(texts(lines@) =~= texts(before).push(lines@.last()@));
                },
                None => {},
            }
            next = next + 1;
            assert(texts(lines@) =~= seq!["client,available,held,total,locked"@] + account_lines(
                self.accounts@,
                next as nat,
            ));
        }
        lines
    }

    fn report_transaction(&mut self, transaction_id: &u32, transaction: &Transaction) -> (result:
        Result<(), Error>) {
        match self.ledger.entry(*transaction_id) {
            Entry::Vacant(e) => {
                e.insert((*transaction, false));
                Ok(())
            },
            Entry::Occupied(_) => Err(
                Error::Engine(
                    EngineError::DuplicateTransactionId { transaction_id: *transaction_id },
                ),
            ),
        }
    }

    fn get_transaction(&self, transaction_id: u32) -> (found: Option<&Transaction>) {
        match self.ledger.get(&transaction_id) {
            Some(entry) => Some(&entry.0),
            None => None,
        }
    }

    fn mark_transaction_disputed(&mut self, transaction_id: u32) {
        match self.ledger.entry(transaction_id) {
            Entry::Occupied(mut e) => {
                e.get_mut().1 = true;
            },
            Entry::Vacant(_) => {},
        }
    }

    fn mark_transaction_resolved(&mut self, transaction_id: u32) {
        match self.ledger.entry(transaction_id) {
            Entry::Occupied(mut e) => {
                e.get_mut().1 = false;
            },
            Entry::Vacant(_) => {},
        }
    }

    fn has_dispute(&self, transaction_id: u32) -> (disputed: bool) {
        match self.ledger.get(&transaction_id) {
            Some(entry) => entry.1,
            None => false,
        }
    }
}

} // verus!
