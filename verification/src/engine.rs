//! The transaction state machine: the rules by which each transaction
//! changes accounts and ledger, and the engine that applies them.

use crate::domain::account::Account;
use crate::domain::error::{EngineError, Error, ErrorView};
use crate::domain::money::Money;
use crate::domain::traits::{
    balance_report, item_view, items_view, texts, DeadLetterQueue, ItemView, OutputRepository,
    TransactionStream,
};
use crate::domain::transaction::{Transaction, TransactionKind};
use crate::laws::{lemma_apply_keeps_balance, lemma_run_keeps_balance};
use vstd::prelude::*;

verus! {

/// The accounts and the ledger, as the rules see them.
pub struct Books {
    /// The account of every known client.
    pub accounts: Map<u16, Account>,
    /// Every applied deposit and withdrawal by its id, with its dispute
    /// flag.
    pub ledger: Map<u32, (Transaction, bool)>,
}

/// What a transaction does: the books after it, and whether it was
/// applied.
pub type Verdict = (Books, Result<(), EngineError>);

/// Whether `v` ten-thousandths are an amount.
pub open spec fn in_range(v: int) -> bool {
    i64::MIN <= v <= i64::MAX
}

impl Books {
    /// The client's account; that of a new client is freshly opened.
    pub open spec fn account(self, client_id: u16) -> Account {
        if self.accounts.contains_key(client_id) {
            self.accounts[client_id]
        } else {
            Account::opened()
        }
    }

    /// The books with the client's account opened, if the client is new.
    pub open spec fn with_client(self, client_id: u16) -> Books {
        Books { accounts: self.accounts.insert(client_id, self.account(client_id)), ..self }
    }

    /// The books with the client's account replaced.
    pub open spec fn with_account(self, client_id: u16, account: Account) -> Books {
        Books { accounts: self.accounts.insert(client_id, account), ..self }
    }

    /// The books with the dispute flag of a recorded transaction set to
    /// `disputed`.
    pub open spec fn with_flag(self, transaction_id: u32, disputed: bool) -> Books {
        Books {
            ledger: self.ledger.insert(transaction_id, (self.ledger[transaction_id].0, disputed)),
            ..self
        }
    }

    /// Whether every account's total is the sum of its two balances.
    pub open spec fn balanced(self) -> bool {
        forall|client_id: u16| #[trigger]
            self.accounts.contains_key(client_id) ==> self.accounts[client_id].balanced()
    }

    /// Whether the ledger holds deposits and withdrawals only, each under
    /// its own id.
    pub open spec fn ledger_sound(self) -> bool {
        forall|transaction_id: u32| #[trigger]
            self.ledger.contains_key(transaction_id) ==> {
                &&& self.ledger[transaction_id].0.kind.amount_spec() is Some
                &&& self.ledger[transaction_id].0.transaction_id == transaction_id
            }
    }
}

/// The account after `to_available` is added to its available funds and
/// `to_held` to its held funds, with the total following; `None` where a
/// balance would leave the range of an amount.
pub open spec fn moved(account: Account, to_available: int, to_held: int) -> Option<Account> {
    let available = account.available.0 + to_available;
    let held = account.held.0 + to_held;
    if in_range(available) && in_range(held) && in_range(available + held) {
        Some(
            Account {
                available: Money(available as i64),
                held: Money(held as i64),
                total: Money((available + held) as i64),
                locked: account.locked,
            },
        )
    } else {
        None
    }
}

/// A deposit: refused where its id is in use; else recorded, and its
/// amount added to the available funds.
pub open spec fn deposit_spec(books: Books, tx: Transaction, amount: Money) -> Verdict {
    let client = tx.client_id;
    if books.ledger.contains_key(tx.transaction_id) {
        (books, Err(EngineError::DuplicateTransactionId { transaction_id: tx.transaction_id }))
    } else {
        match moved(books.account(client), amount.0 as int, 0) {
            None => (
                books.with_client(client),
                Err(EngineError::BalanceOverflow { client_id: client }),
            ),
            Some(account) => (
                Books {
                    accounts: books.accounts.insert(client, account),
                    ledger: books.ledger.insert(tx.transaction_id, (tx, false)),
                },
                Ok(()),
            ),
        }
    }
}

/// A withdrawal: refused where its id is in use or where it asks for more
/// than is available; else recorded, and its amount taken from the
/// available funds.
pub open spec fn withdraw_spec(books: Books, tx: Transaction, amount: Money) -> Verdict {
    let client = tx.client_id;
    if books.ledger.contains_key(tx.transaction_id) {
        (books, Err(EngineError::DuplicateTransactionId { transaction_id: tx.transaction_id }))
    } else if books.account(client).available.0 < amount.0 {
        (books.with_client(client), Err(EngineError::InsufficientFunds { client_id: client }))
    } else {
        match moved(books.account(client), -(amount.0 as int), 0) {
            None => (
                books.with_client(client),
                Err(EngineError::BalanceOverflow { client_id: client }),
            ),
            Some(account) => (
                Books {
                    accounts: books.accounts.insert(client, account),
                    ledger: books.ledger.insert(tx.transaction_id, (tx, false)),
                },
                Ok(()),
            ),
        }
    }
}

/// The transaction that `tx` refers to, where it is recorded and belongs
/// to the same client.
pub open spec fn referenced(books: Books, tx: Transaction) -> Result<Transaction, EngineError> {
    if !books.ledger.contains_key(tx.transaction_id) {
        Err(EngineError::UnknownReferencedTransaction)
    } else if books.ledger[tx.transaction_id].0.client_id != tx.client_id {
        Err(EngineError::ClientMismatch)
    } else {
        Ok(books.ledger[tx.transaction_id].0)
    }
}

/// A dispute: refused where the transaction it refers to is unknown or
/// another client's; else that transaction is flagged, and its amount
/// moves from the available to the held funds.
pub open spec fn dispute_spec(books: Books, tx: Transaction) -> Verdict {
    let client = tx.client_id;
    match referenced(books, tx) {
        Err(e) => (books, Err(e)),
        Ok(referred) => match referred.kind.amount_spec() {
            None => (books, Ok(())),
            Some(amount) => match moved(
                books.account(client),
                -(amount.0 as int),
                amount.0 as int,
            ) {
                None => (
                    books.with_client(client),
                    Err(EngineError::BalanceOverflow { client_id: client }),
                ),
                Some(account) => (
                    books.with_flag(tx.transaction_id, true).with_account(client, account),
                    Ok(()),
                ),
            },
        },
    }
}

/// A resolution: refused where the transaction it refers to is unknown,
/// another client's or not under dispute; else the flag is cleared, and
/// the amount moves back from the held to the available funds.
pub open spec fn resolve_spec(books: Books, tx: Transaction) -> Verdict {
    let client = tx.client_id;
    match referenced(books, tx) {
        Err(e) => (books, Err(e)),
        Ok(referred) => if !books.ledger[tx.transaction_id].1 {
            (books, Err(EngineError::NotDisputed))
        } else {
            match referred.kind.amount_spec() {
                None => (books, Ok(())),
                Some(amount) => match moved(
                    books.account(client),
                    amount.0 as int,
                    -(amount.0 as int),
                ) {
                    None => (
                        books.with_client(client),
                        Err(EngineError::BalanceOverflow { client_id: client }),
                    ),
                    Some(account) => (
                        books.with_flag(tx.transaction_id, false).with_account(client, account),
                        Ok(()),
                    ),
                },
            }
        },
    }
}

/// A chargeback: refused where the transaction it refers to is unknown,
/// another client's or not under dispute; else the amount leaves the held
/// funds, nothing is credited, and the account is locked. The transaction
/// stays flagged.
pub open spec fn chargeback_spec(books: Books, tx: Transaction) -> Verdict {
    let client = tx.client_id;
    match referenced(books, tx) {
        Err(e) => (books, Err(e)),
        Ok(referred) => if !books.ledger[tx.transaction_id].1 {
            (books, Err(EngineError::NotDisputed))
        } else {
            match referred.kind.amount_spec() {
                None => (books, Ok(())),
                Some(amount) => match moved(books.account(client), 0, -(amount.0 as int)) {
                    None => (
                        books.with_client(client),
                        Err(EngineError::BalanceOverflow { client_id: client }),
                    ),
                    Some(account) => (
                        books.with_account(client, Account { locked: true, ..account }),
                        Ok(()),
                    ),
                },
            }
        },
    }
}

/// What one transaction does to the books. The client's account is opened
/// first if the client is new. A locked account refuses everything; else
/// the rule of the transaction's kind decides.
pub open spec fn apply_spec(books: Books, tx: Transaction) -> Verdict {
    let opened = books.with_client(tx.client_id);
    if books.account(tx.client_id).locked {
        (opened, Err(EngineError::AccountLocked { client_id: tx.client_id }))
    } else {
        match tx.kind {
            TransactionKind::Deposit { amount } => deposit_spec(opened, tx, amount),
            TransactionKind::Withdrawal { amount } => withdraw_spec(opened, tx, amount),
            TransactionKind::Dispute => dispute_spec(opened, tx),
            TransactionKind::Resolve => resolve_spec(opened, tx),
            TransactionKind::Chargeback => chargeback_spec(opened, tx),
        }
    }
}

/// What one input item does: a row that was no transaction changes
/// nothing and is reported; a transaction is applied, and reported where
/// it was refused.
pub open spec fn step_spec(books: Books, item: ItemView) -> (Books, Option<ErrorView>) {
    match item {
        Err(e) => (books, Some(e)),
        Ok(tx) => {
            let (after, result) = apply_spec(books, tx);
            (
                after,
                match result {
                    Ok(_) => None,
                    Err(e) => Some(ErrorView::Engine(e)),
                },
            )
        },
    }
}

/// What a sequence of input items does, taken in order: the books after
/// the last one, and the reports in the order in which they were made.
pub open spec fn run_spec(books: Books, items: Seq<ItemView>) -> (Books, Seq<ErrorView>)
    decreases items.len(),
{
    if items.len() == 0 {
        (books, Seq::empty())
    } else {
        let (before, reports) = run_spec(books, items.drop_last());
        let (after, report) = step_spec(before, items.last());
        (
            after,
            match report {
                Some(e) => reports.push(e),
                None => reports,
            },
        )
    }
}

/// Whether a result is the one that the rules give.
pub open spec fn agrees(result: Result<(), Error>, expected: Result<(), EngineError>) -> bool {
    match result {
        Ok(_) => expected is Ok,
        Err(e) => expected is Err && e@ == ErrorView::Engine(expected->Err_0),
    }
}

/// The account after the two movements: see [`moved`].
fn move_funds(account: &Account, to_available: i128, to_held: i128) -> (result: Option<Account>)
    requires
        -0x8000_0000_0000_0000 <= to_available <= 0x8000_0000_0000_0000,
        -0x8000_0000_0000_0000 <= to_held <= 0x8000_0000_0000_0000,
    ensures
        result == moved(*account, to_available as int, to_held as int),
{
    let available: i128 = account.available.0 as i128 + to_available;
    let held: i128 = account.held.0 as i128 + to_held;
    let total: i128 = available + held;
    let low: i128 = i64::MIN as i128;
    let high: i128 = i64::MAX as i128;
    if available < low || available > high || held < low || held > high || total < low || total
        > high {
        None
    } else {
        Some(
            Account {
                available: Money(available as i64),
                held: Money(held as i64),
                total: Money(total as i64),
                locked: account.locked,
            },
        )
    }
}

/// The engine with its three collaborators: the source of transactions,
/// the store of accounts and ledger, and the sink for failures.
#[derive(Debug)]
pub struct Engine<I, O, D> where I: TransactionStream, O: OutputRepository, D: DeadLetterQueue {
    /// Where the transactions come from.
    pub ingestion: I,
    /// Where accounts and applied transactions are kept.
    pub output_repository: O,
    /// Where rejected rows and transactions are reported.
    pub dlq: D,
}

impl<I, O, D> Engine<I, O, D> where I: TransactionStream, O: OutputRepository, D: DeadLetterQueue {
    /// The accounts and the ledger that the engine works on.
    pub open spec fn books(&self) -> Books {
        Books {
            accounts: self.output_repository.accounts(),
            ledger: self.output_repository.ledger(),
        }
    }

    /// An engine over the given collaborators.
    pub fn new(ingestion: I, output_repository: O, dlq: D) -> (engine: Self)
        ensures
            engine.ingestion == ingestion,
            engine.output_repository == output_repository,
            engine.dlq == dlq,
    {
        Engine { ingestion, output_repository, dlq }
    }

    /// Applies a deposit of `amount`: see [`deposit_spec`].
    pub fn deposit(&mut self, tx: &Transaction, amount: Money) -> (result: Result<(), Error>)
        ensures
            final(self).books() == deposit_spec(old(self).books(), *tx, amount).0,
            agrees(result, deposit_spec(old(self).books(), *tx, amount).1),
            final(self).ingestion == old(self).ingestion,
            final(self).dlq == old(self).dlq,
    {
        if self.output_repository.get_transaction(tx.transaction_id).is_some() {
            return Err(
                Error::Engine(
                    EngineError::DuplicateTransactionId { transaction_id: tx.transaction_id },
                ),
            );
        }
        let account = self.output_repository.get_or_create_account(&tx.client_id);
        match move_funds(account, amount.0 as i128, 0) {
            None => Err(Error::Engine(EngineError::BalanceOverflow { client_id: tx.client_id })),
            Some(credited) => {
                *account = credited;
                let recorded = self.output_repository.report_transaction(&tx.transaction_id, tx);
                assert(final(self).books().accounts =~= deposit_spec(
                    old(self).books(),
                    *tx,
                    amount,
                ).0.accounts);
                recorded
            },
        }
    }

    /// Applies a withdrawal of `amount`: see [`withdraw_spec`].
    pub fn withraw(&mut self, tx: &Transaction, amount: Money) -> (result: Result<(), Error>)
        ensures
            final(self).books() == withdraw_spec(old(self).books(), *tx, amount).0,
            agrees(result, withdraw_spec(old(self).books(), *tx, amount).1),
            final(self).ingestion == old(self).ingestion,
            final(self).dlq == old(self).dlq,
    {
        if self.output_repository.get_transaction(tx.transaction_id).is_some() {
            return Err(
                Error::Engine(
                    EngineError::DuplicateTransactionId { transaction_id: tx.transaction_id },
                ),
            );
        }
        let account = self.output_repository.get_or_create_account(&tx.client_id);
        if account.available.less_than(amount) {
            return Err(Error::Engine(EngineError::InsufficientFunds { client_id: tx.client_id }));
        }
        match move_funds(account, -(amount.0 as i128), 0) {
            None => Err(Error::Engine(EngineError::BalanceOverflow { client_id: tx.client_id })),
            Some(debited) => {
                *account = debited;
                let recorded = self.output_repository.report_transaction(&tx.transaction_id, tx);
                assert(final(self).books().accounts =~= withdraw_spec(
                    old(self).books(),
                    *tx,
                    amount,
                ).0.accounts);
                recorded
            },
        }
    }

    /// The recorded transaction that `tx` refers to: see [`referenced`].
    fn find_referenced(&self, tx: &Transaction) -> (result: Result<Transaction, Error>)
        ensures
            match result {
                Ok(referred) => referenced(self.books(), *tx) == Ok::<Transaction, EngineError>(
                    referred,
                ),
                Err(e) => referenced(self.books(), *tx) is Err && e@ == ErrorView::Engine(
                    referenced(self.books(), *tx)->Err_0,
                ),
            },
    {
        let referred: Transaction = match self.output_repository.get_transaction(
            tx.transaction_id,
        ) {
            None => {
                return Err(Error::Engine(EngineError::UnknownReferencedTransaction));
            },
            Some(found) => *found,
        };
        if referred.client_id != tx.client_id {
            return Err(Error::Engine(EngineError::ClientMismatch));
        }
        Ok(referred)
    }

    /// Applies a dispute: see [`dispute_spec`].
    pub fn dispute(&mut self, tx: &Transaction) -> (result: Result<(), Error>)
        ensures
            final(self).books() == dispute_spec(old(self).books(), *tx).0,
            agrees(result, dispute_spec(old(self).books(), *tx).1),
            final(self).ingestion == old(self).ingestion,
            final(self).dlq == old(self).dlq,
    {
        let referred = match self.find_referenced(tx) {
            Err(e) => {
                return Err(e);
            },
            Ok(referred) => referred,
        };
        match referred.kind.amount() {
            None => Ok(()),
            Some(amount) => {
                let account = self.output_repository.get_or_create_account(&tx.client_id);
                match move_funds(account, -(amount.0 as i128), amount.0 as i128) {
                    None => Err(
                        Error::Engine(EngineError::BalanceOverflow { client_id: tx.client_id }),
                    ),
                    Some(frozen) => {
                        *account = frozen;
                        self.output_repository.mark_transaction_disputed(tx.transaction_id);
                        Ok(())
                    },
                }
            },
        }
    }

    /// Applies a resolution: see [`resolve_spec`].
    pub fn resolve(&mut self, tx: &Transaction) -> (result: Result<(), Error>)
        ensures
            final(self).books() == resolve_spec(old(self).books(), *tx).0,
            agrees(result, resolve_spec(old(self).books(), *tx).1),
            final(self).ingestion == old(self).ingestion,
            final(self).dlq == old(self).dlq,
    {
        let referred = match self.find_referenced(tx) {
            Err(e) => {
                return Err(e);
            },
            Ok(referred) => referred,
        };
        if !self.output_repository.has_dispute(tx.transaction_id) {
            return Err(Error::Engine(EngineError::NotDisputed));
        }
        match referred.kind.amount() {
            None => Ok(()),
            Some(amount) => {
                let account = self.output_repository.get_or_create_account(&tx.client_id);
                match move_funds(account, amount.0 as i128, -(amount.0 as i128)) {
                    None => Err(
                        Error::Engine(EngineError::BalanceOverflow { client_id: tx.client_id }),
                    ),
                    Some(released) => {
                        *account = released;
                        self.output_repository.mark_transaction_resolved(tx.transaction_id);
                        Ok(())
                    },
                }
            },
        }
    }

    /// Applies a chargeback: see [`chargeback_spec`].
    pub fn chargeback(&mut self, tx: Transaction) -> (result: Result<(), Error>)
        ensures
            final(self).books() == chargeback_spec(old(self).books(), tx).0,
            agrees(result, chargeback_spec(old(self).books(), tx).1),
            final(self).ingestion == old(self).ingestion,
            final(self).dlq == old(self).dlq,
    {
        let referred = match self.find_referenced(&tx) {
            Err(e) => {
                return Err(e);
            },
            Ok(referred) => referred,
        };
        if !self.output_repository.has_dispute(tx.transaction_id) {
            return Err(Error::Engine(EngineError::NotDisputed));
        }
        match referred.kind.amount() {
            None => Ok(()),
            Some(amount) => {
                let account = self.output_repository.get_or_create_account(&tx.client_id);
                match move_funds(account, 0, -(amount.0 as i128)) {
                    None => Err(
                        Error::Engine(EngineError::BalanceOverflow { client_id: tx.client_id }),
                    ),
                    Some(reversed) => {
                        *account = Account { locked: true, ..reversed };
                        Ok(())
                    },
                }
            },
        }
    }

    /// Applies one transaction: see [`apply_spec`].
    pub fn apply_transaction(&mut self, tx: Transaction) -> (result: Result<(), Error>)
        ensures
            final(self).books() == apply_spec(old(self).books(), tx).0,
            agrees(result, apply_spec(old(self).books(), tx).1),
            old(self).books().balanced() ==> final(self).books().balanced(),
            final(self).ingestion == old(self).ingestion,
            final(self).dlq == old(self).dlq,
    {
        proof {
            if self.books().balanced() {
                lemma_apply_keeps_balance(self.books(), tx);
            }
        }
        let account = self.output_repository.get_or_create_account(&tx.client_id);
        if account.locked {
            return Err(Error::Engine(EngineError::AccountLocked { client_id: tx.client_id }));
        }
        match tx.kind {
            TransactionKind::Deposit { amount } => self.deposit(&tx, amount),
            TransactionKind::Withdrawal { amount } => self.withraw(&tx, amount),
            TransactionKind::Dispute => self.dispute(&tx),
            TransactionKind::Resolve => self.resolve(&tx),
            TransactionKind::Chargeback => self.chargeback(tx),
        }
    }

    /// Handles one input item: applies a transaction, and reports it where
    /// it was refused; reports a row that was no transaction. See
    /// [`step_spec`].
    pub fn process_item(&mut self, item: &Result<Transaction, Error>)
        ensures
            final(self).books() == step_spec(old(self).books(), item_view(*item)).0,
            final(self).dlq.reported() == (match step_spec(old(self).books(), item_view(*item)).1 {
                Some(e) => old(self).dlq.reported().push(e),
                None => old(self).dlq.reported(),
            }),
            old(self).books().balanced() ==> final(self).books().balanced(),
            final(self).ingestion == old(self).ingestion,
    {
        match item {
            Ok(tx) => match self.apply_transaction(*tx) {
                Ok(()) => {},
                Err(e) => self.dlq.report(&e),
            },
            Err(e) => self.dlq.report(e),
        }
    }

    /// Takes every pending item from the source, in order: applies each
    /// transaction, and reports each row that was no transaction and each
    /// transaction that was refused. No failure stops the run: see
    /// [`run_spec`].
    pub fn process(&mut self) -> (result: Result<(), Error>)
        ensures
            result is Ok,
            final(self).books() == run_spec(old(self).books(), old(self).ingestion.pending()).0,
            final(self).dlq.reported() == old(self).dlq.reported() + run_spec(
                old(self).books(),
                old(self).ingestion.pending(),
            ).1,
            final(self).ingestion.pending() == Seq::<ItemView>::empty(),
            old(self).books().balanced() ==> final(self).books().balanced(),
    {
        proof {
            if self.books().balanced() {
                lemma_run_keeps_balance(self.books(), self.ingestion.pending());
            }
        }
        let items = self.ingestion.stream();
        let ghost all = items_view(items@);
        let ghost start = self.books();
        let mut i: usize = 0;
        assert(all.take(0) == Seq::<ItemView>::empty());
        while i < items.len()
            invariant
                i <= items.len(),
                all == items_view(items@),
                self.ingestion.pending() == Seq::<ItemView>::empty(),
                self.books() == run_spec(start, all.take(i as int)).0,
                self.dlq.reported() == old(self).dlq.reported() + run_spec(
                    start,
                    all.take(i as int),
                ).1,
            decreases items.len() - i,
        {
            assert(all.take(i + 1).drop_last() == all.take(i as int));
            assert(all.take(i + 1).last() == all[i as int]);
            self.process_item(&items[i]);
            i = i + 1;
        }
        assert(all.take(items.len() as int) == all);
        Ok(())
    }

    /// The report of all accounts, for the caller to write out: the
    /// header, then one line for each known client. Nothing changes.
    pub fn flush(&mut self) -> (lines: Vec<String>)
        ensures
            texts(lines@) == balance_report(old(self).books().accounts),
            final(self).books() == old(self).books(),
            final(self).ingestion == old(self).ingestion,
            final(self).dlq == old(self).dlq,
    {
        self.output_repository.flush()
    }
}

} // verus!
