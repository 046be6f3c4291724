//! What holds of the rules whatever the transactions are.

use crate::domain::error::EngineError;
use crate::domain::traits::ItemView;
use crate::domain::transaction::{Transaction, TransactionKind};
use crate::engine::{apply_spec, run_spec, step_spec, Books};
use vstd::prelude::*;

verus! {

/// A transaction that is refused leaves no trace: the ledger and every
/// balance are as before. All it may do is open the account of a client
/// that was not known.
pub proof fn lemma_refused_changes_nothing(books: Books, tx: Transaction)
    requires
        apply_spec(books, tx).1 is Err,
    ensures
        apply_spec(books, tx).0 == books.with_client(tx.client_id),
{
    let opened = books.with_client(tx.client_id);
    assert(opened.with_client(tx.client_id).accounts =~= opened.accounts);
}

/// After every transaction the total of every account is the sum of its
/// available and held funds, given that this held before.
pub proof fn lemma_apply_keeps_balance(books: Books, tx: Transaction)
    requires
        books.balanced(),
    ensures
        apply_spec(books, tx).0.balanced(),
{
    let opened = books.with_client(tx.client_id);
    assert(opened.balanced());
    assert(opened.with_client(tx.client_id).accounts =~= opened.accounts);
}

/// After every input item the total of every account is the sum of its
/// available and held funds, given that this held before.
pub proof fn lemma_step_keeps_balance(books: Books, item: ItemView)
    requires
        books.balanced(),
    ensures
        step_spec(books, item).0.balanced(),
{
    if let Ok(tx) = item {
        lemma_apply_keeps_balance(books, tx);
    }
}

/// After a whole run the total of every account is the sum of its
/// available and held funds, given that this held before.
pub proof fn lemma_run_keeps_balance(books: Books, items: Seq<ItemView>)
    requires
        books.balanced(),
    ensures
        run_spec(books, items).0.balanced(),
    decreases items.len(),
{
    if items.len() > 0 {
        lemma_run_keeps_balance(books, items.drop_last());
        lemma_step_keeps_balance(run_spec(books, items.drop_last()).0, items.last());
    }
}

/// The ledger holds deposits and withdrawals only, each under its own id,
/// after every transaction, given that this held before.
pub proof fn lemma_apply_keeps_ledger_sound(books: Books, tx: Transaction)
    requires
        books.ledger_sound(),
    ensures
        apply_spec(books, tx).0.ledger_sound(),
{
}

/// The ledger holds deposits and withdrawals only, each under its own id,
/// after a whole run, given that this held before.
pub proof fn lemma_run_keeps_ledger_sound(books: Books, items: Seq<ItemView>)
    requires
        books.ledger_sound(),
    ensures
        run_spec(books, items).0.ledger_sound(),
    decreases items.len(),
{
    if items.len() > 0 {
        lemma_run_keeps_ledger_sound(books, items.drop_last());
        if let Ok(tx) = items.last() {
            lemma_apply_keeps_ledger_sound(run_spec(books, items.drop_last()).0, tx);
        }
    }
}

/// Nothing leaves the ledger, and a recorded transaction is never
/// replaced.
pub proof fn lemma_ledger_keeps_entries(books: Books, tx: Transaction, transaction_id: u32)
    requires
        books.ledger.contains_key(transaction_id),
    ensures
        apply_spec(books, tx).0.ledger.contains_key(transaction_id),
        apply_spec(books, tx).0.ledger[transaction_id].0 == books.ledger[transaction_id].0,
{
}

/// A deposit or withdrawal under an id that is in use is refused as a
/// duplicate, unless its client's account is locked.
pub proof fn lemma_used_id_rejected(books: Books, tx: Transaction)
    requires
        tx.kind.amount_spec() is Some,
        books.ledger.contains_key(tx.transaction_id),
        !books.account(tx.client_id).locked,
    ensures
        apply_spec(books, tx).1 == Err::<(), EngineError>(
            EngineError::DuplicateTransactionId { transaction_id: tx.transaction_id },
        ),
        apply_spec(books, tx).0 == books.with_client(tx.client_id),
{
    let opened = books.with_client(tx.client_id);
    assert(opened.with_client(tx.client_id).accounts =~= opened.accounts);
}

/// Of two deposits or withdrawals under one id, where the first is
/// applied, the second is refused as a duplicate and changes no balance
/// and no ledger entry. (Where the account of the second one's client is
/// locked, it is refused for that.)
pub proof fn lemma_duplicate_id_rejected(books: Books, first: Transaction, second: Transaction)
    requires
        first.kind.amount_spec() is Some,
        second.kind.amount_spec() is Some,
        first.transaction_id == second.transaction_id,
        apply_spec(books, first).1 is Ok,
        !apply_spec(books, first).0.account(second.client_id).locked,
    ensures
        ({
            let after = apply_spec(books, first).0;
            &&& apply_spec(after, second).1 == Err::<(), EngineError>(
                EngineError::DuplicateTransactionId { transaction_id: second.transaction_id },
            )
            &&& apply_spec(after, second).0.ledger == after.ledger
            &&& forall|client_id: u16|
                apply_spec(after, second).0.account(client_id) == after.account(client_id)
        }),
{
    let after = apply_spec(books, first).0;
    assert(after.ledger.contains_key(first.transaction_id));
    lemma_used_id_rejected(after, second);
}

/// A locked account refuses every transaction of its client, and no
/// balance and no ledger entry changes.
pub proof fn lemma_locked_account_refuses(books: Books, tx: Transaction)
    requires
        books.account(tx.client_id).locked,
    ensures
        apply_spec(books, tx).1 == Err::<(), EngineError>(
            EngineError::AccountLocked { client_id: tx.client_id },
        ),
        apply_spec(books, tx).0.ledger == books.ledger,
        forall|client_id: u16| apply_spec(books, tx).0.account(client_id) == books.account(client_id),
{
}

/// A locked account stays locked whatever is applied.
pub proof fn lemma_lock_is_permanent(books: Books, tx: Transaction, client_id: u16)
    requires
        books.account(client_id).locked,
    ensures
        apply_spec(books, tx).0.account(client_id).locked,
{
    if tx.client_id == client_id {
        lemma_locked_account_refuses(books, tx);
    }
}

/// A withdrawal of more than is available is refused for insufficient
/// funds, and no balance and no ledger entry changes.
pub proof fn lemma_insufficient_funds(books: Books, tx: Transaction)
    requires
        tx.kind matches TransactionKind::Withdrawal { amount } && books.account(
            tx.client_id,
        ).available.0 < amount.0,
        !books.ledger.contains_key(tx.transaction_id),
        !books.account(tx.client_id).locked,
    ensures
        apply_spec(books, tx).1 == Err::<(), EngineError>(
            EngineError::InsufficientFunds { client_id: tx.client_id },
        ),
        apply_spec(books, tx).0.ledger == books.ledger,
        forall|client_id: u16| apply_spec(books, tx).0.account(client_id) == books.account(client_id),
{
    let opened = books.with_client(tx.client_id);
    assert(opened.with_client(tx.client_id).accounts =~= opened.accounts);
}

/// Once a resolution was applied, the same resolution again is refused:
/// the transaction is no longer under dispute.
pub proof fn lemma_resolve_twice(books: Books, tx: Transaction)
    requires
        tx.kind == TransactionKind::Resolve,
        books.ledger_sound(),
        apply_spec(books, tx).1 is Ok,
    ensures
        apply_spec(apply_spec(books, tx).0, tx).1 == Err::<(), EngineError>(
            EngineError::NotDisputed,
        ),
{
}

/// A dispute that is then resolved leaves every balance as it was.
pub proof fn lemma_dispute_then_resolve(books: Books, dispute: Transaction, resolve: Transaction)
    requires
        dispute.kind == TransactionKind::Dispute,
        resolve.kind == TransactionKind::Resolve,
        dispute.client_id == resolve.client_id,
        dispute.transaction_id == resolve.transaction_id,
        apply_spec(books, dispute).1 is Ok,
        apply_spec(apply_spec(books, dispute).0, resolve).1 is Ok,
        books.balanced(),
    ensures
        forall|client_id: u16|
            apply_spec(apply_spec(books, dispute).0, resolve).0.account(client_id)
                == books.account(client_id),
{
}

/// A chargeback that is applied locks the account of its client.
pub proof fn lemma_chargeback_locks(books: Books, tx: Transaction)
    requires
        tx.kind == TransactionKind::Chargeback,
        books.ledger_sound(),
        apply_spec(books, tx).1 is Ok,
    ensures
        apply_spec(books, tx).0.account(tx.client_id).locked,
{
}

} // verus!
