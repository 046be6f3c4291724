//! Transactions: what a client asks the engine to do.

use crate::domain::money::{format_decimal, Money};
use crate::numeral::{nat_digits, push_nat};
use vstd::prelude::*;

verus! {

/// The five kinds of transaction. Deposits and withdrawals carry their
/// amount; the others refer to an earlier transaction by its id.
#[derive(Debug, Clone, Copy, PartialEq, Eq, Structural)]
pub enum TransactionKind {
    Deposit { amount: Money },
    Withdrawal { amount: Money },
    Dispute,
    Resolve,
    Chargeback,
}

/// One transaction: its kind, the client it is for, and its id. The id of
/// a dispute, resolution or chargeback is that of the deposit or
/// withdrawal it refers to.
#[derive(Debug, Clone, Copy, PartialEq, Eq, Structural)]
pub struct Transaction {
    pub kind: TransactionKind,
    pub client_id: u16,
    pub transaction_id: u32,
}

impl TransactionKind {
    /// The amount that a deposit or withdrawal carries.
    pub open spec fn amount_spec(self) -> Option<Money> {
        match self {
            TransactionKind::Deposit { amount } => Some(amount),
            TransactionKind::Withdrawal { amount } => Some(amount),
            _ => None,
        }
    }

    /// The amount that a deposit or withdrawal carries; `None` for the
    /// other kinds.
    pub fn amount(&self) -> (amount: Option<Money>)
        ensures
            amount == self.amount_spec(),
    {
        match self {
            TransactionKind::Deposit { amount } => Some(*amount),
            TransactionKind::Withdrawal { amount } => Some(*amount),
            _ => None,
        }
    }
}

/// The text of a kind: its name, and the amount where it carries one.
pub open spec fn kind_text(kind: TransactionKind) -> Seq<char> {
    match kind {
        TransactionKind::Deposit { amount } => "Deposit { amount: "@ + format_decimal(
            amount.0 as int,
        ) + " }"@,
        TransactionKind::Withdrawal { amount } => "Withdrawal { amount: "@ + format_decimal(
            amount.0 as int,
        ) + " }"@,
        TransactionKind::Dispute => "Dispute"@,
        TransactionKind::Resolve => "Resolve"@,
        TransactionKind::Chargeback => "Chargeback"@,
    }
}

/// The text of a transaction: kind, client, id, and the amount where it
/// carries one.
pub open spec fn transaction_text(tx: Transaction) -> Seq<char> {
    let head = kind_text(tx.kind) + ",client="@ + nat_digits(tx.client_id as nat) + ",tx="@
        + nat_digits(tx.transaction_id as nat);
    match tx.kind.amount_spec() {
        Some(amount) => head + ",amount="@ + format_decimal(amount.0 as int),
        None => head,
    }
}

impl TransactionKind {
    /// Appends the text of the kind to `out`.
    fn write_text(&self, out: &mut String)
        ensures
            final(out)@ == old(out)@ + kind_text(*self),
    {
        match self {
            TransactionKind::Deposit { amount } => {
                out.append("Deposit { amount: ");
                out.append(amount.format().as_str());
                out.append(" }");
            },
            TransactionKind::Withdrawal { amount } => {
                out.append("Withdrawal { amount: ");
                out.append(amount.format().as_str());
                out.append(" }");
            },
            TransactionKind::Dispute => {
                out.append("Dispute");
            },
            TransactionKind::Resolve => {
                out.append("Resolve");
            },
            TransactionKind::Chargeback => {
                out.append("Chargeback");
            },
        }
        assert(out@ =~= old(out)@ + kind_text(*self));
    }
}

impl Transaction {
    /// The text of the transaction: see [`transaction_text`].
    pub fn describe(&self) -> (text: String)
        ensures
            text@ == transaction_text(*self),
    {
        let mut text = String::new();
        self.kind.write_text(&mut text);
        text.append(",client=");
        push_nat(&mut text, self.client_id as u64);
        text.append(",tx=");
        push_nat(&mut text, self.transaction_id as u64);
        match self.kind.amount() {
            Some(amount) => {
                text.append(",amount=");
                text.append(amount.format().as_str());
            },
            None => {},
        }
        assert(text@ =~= transaction_text(*self));
        text
    }
}

} // verus!
