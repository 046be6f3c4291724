//! What can go wrong with one input row or one transaction.

use crate::numeral::{nat_digits, push_nat};
use vstd::prelude::*;

verus! {

/// The rule that a transaction broke. Such a transaction changes nothing.
#[derive(Debug, Clone, Copy, PartialEq, Eq, Structural)]
pub enum EngineError {
    /// The client's account is locked after a chargeback.
    AccountLocked { client_id: u16 },
    /// A deposit or withdrawal with this id was applied before.
    DuplicateTransactionId { transaction_id: u32 },
    /// The withdrawal asks for more than is available.
    InsufficientFunds { client_id: u16 },
    /// No deposit or withdrawal with the id referred to was applied.
    UnknownReferencedTransaction,
    /// The transaction referred to belongs to another client.
    ClientMismatch,
    /// The transaction referred to is not under dispute.
    NotDisputed,
    /// A balance of the client would leave the range of an amount.
    BalanceOverflow { client_id: u16 },
}

/// Why an input item did not change the books.
#[derive(Debug)]
pub enum Error {
    /// An input row that is no transaction, with the reason.
    Ingestion(String),
    /// A transaction that broke a rule.
    Engine(EngineError),
}

/// An [`Error`] with its text as a sequence of characters.
pub enum ErrorView {
    Ingestion(Seq<char>),
    Engine(EngineError),
}

impl View for Error {
    type V = ErrorView;

    open spec fn view(&self) -> ErrorView {
        match self {
            Error::Ingestion(reason) => ErrorView::Ingestion(reason@),
            Error::Engine(e) => ErrorView::Engine(*e),
        }
    }
}

/// What is said of a broken rule.
pub open spec fn engine_message(e: EngineError) -> Seq<char> {
    match e {
        EngineError::AccountLocked { client_id } => nat_digits(client_id as nat)
            + " account is locked"@,
        EngineError::DuplicateTransactionId { transaction_id } => "Transaction ID "@ + nat_digits(
            transaction_id as nat,
        ) + " already exists"@,
        EngineError::InsufficientFunds { client_id } => "Insufficient funds for client "@
            + nat_digits(client_id as nat),
        EngineError::UnknownReferencedTransaction => "Referenced transaction not found"@,
        EngineError::ClientMismatch => "Transaction client ID does not match referenced client ID"@,
        EngineError::NotDisputed => "Transaction is not disputed"@,
        EngineError::BalanceOverflow { client_id } => "Balance overflow for client "@ + nat_digits(
            client_id as nat,
        ),
    }
}

/// What is said of an error.
pub open spec fn error_message(e: ErrorView) -> Seq<char> {
    match e {
        ErrorView::Ingestion(reason) => "Ingestion failed with: "@ + reason,
        ErrorView::Engine(e) => "Engine failed with: "@ + engine_message(e),
    }
}

impl EngineError {
    /// Appends what is said of the broken rule to `out`.
    pub fn write_message(&self, out: &mut String)
        ensures
            final(out)@ == old(out)@ + engine_message(*self),
    {
        match self {
            EngineError::AccountLocked { client_id } => {
                push_nat(out, *client_id as u64);
                out.append(" account is locked");
            },
            EngineError::DuplicateTransactionId { transaction_id } => {
                out.append("Transaction ID ");
                push_nat(out, *transaction_id as u64);
                out.append(" already exists");
            },
            EngineError::InsufficientFunds { client_id } => {
                out.append("Insufficient funds for client ");
                push_nat(out, *client_id as u64);
            },
            EngineError::UnknownReferencedTransaction => {
                out.append("Referenced transaction not found");
            },
            EngineError::ClientMismatch => {
                out.append("Transaction client ID does not match referenced client ID");
            },
            EngineError::NotDisputed => {
                out.append("Transaction is not disputed");
            },
            EngineError::BalanceOverflow { client_id } => {
                out.append("Balance overflow for client ");
                push_nat(out, *client_id as u64);
            },
        }
        assert(out@ =~= old(out)@ + engine_message(*self));
    }

    /// What is said of the broken rule.
    pub fn message(&self) -> (text: String)
        ensures
            text@ == engine_message(*self),
    {
        let mut text = String::new();
        self.write_message(&mut text);
        assert(Seq::<char>::empty() + engine_message(*self) =~= engine_message(*self));
        text
    }
}

impl Error {
    /// What is said of the error.
    pub fn message(&self) -> (text: String)
        ensures
            text@ == error_message(self@),
    {
        match self {
            Error::Ingestion(reason) => {
                let mut text = String::from_str("Ingestion failed with: ");
                text.append(reason.as_str());
                text
            },
            Error::Engine(e) => {
                let mut text = String::from_str("Engine failed with: ");
                e.write_message(&mut text);
                text
            },
        }
    }

    /// A copy of the error.
    pub fn duplicate(&self) -> (copy: Error)
        ensures
            copy@ == self@,
    {
        match self {
            Error::Ingestion(reason) => Error::Ingestion(reason.clone()),
            Error::Engine(e) => Error::Engine(*e),
        }
    }
}

} // verus!
