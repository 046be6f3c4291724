//! From input rows to transactions.

use crate::domain::error::{Error, ErrorView};
use crate::domain::money::{lemma_rescale_not_negative, money_of, rescale, Money};
use crate::domain::traits::{item_view, items_view, ItemView, TransactionStream};
use crate::domain::transaction::{Transaction, TransactionKind};
use crate::text::{equals_text, lowercase, push_chars, trim, trimmed_lowercase};
use vstd::prelude::*;

verus! {

/// An amount as the input gives it: `value` counted in units of
/// `10^-scale`.
#[derive(Debug, Clone, Copy, PartialEq, Eq, Structural)]
pub struct ScaledInteger {
    pub value: i128,
    pub scale: u32,
}

/// One row of the input: the name of the kind, the client, the
/// transaction id, and the amount where the row has one.
#[derive(Debug)]
pub struct CsvRow {
    pub kind: String,
    pub client: u16,
    pub tx: u32,
    pub amount: Option<ScaledInteger>,
}

/// A [`CsvRow`] with its text as a sequence of characters.
pub struct CsvRowView {
    pub kind: Seq<char>,
    pub client: u16,
    pub tx: u32,
    pub amount: Option<ScaledInteger>,
}

impl View for CsvRow {
    type V = CsvRowView;

    open spec fn view(&self) -> CsvRowView {
        CsvRowView { kind: self.kind@, client: self.client, tx: self.tx, amount: self.amount }
    }
}

/// The name of a kind as it is compared: trimmed, in lower case.
pub open spec fn kind_name(kind: Seq<char>) -> Seq<char> {
    lowercase(trim(kind))
}

/// The report of a row whose kind and amount do not go together.
pub open spec fn invalid_kind(name: Seq<char>) -> ErrorView {
    ErrorView::Ingestion("Invalid transaction type: "@ + name)
}

/// The report of a row whose amount is negative or beyond any amount.
pub open spec fn invalid_amount(name: Seq<char>) -> ErrorView {
    ErrorView::Ingestion("Invalid amount for transaction type: "@ + name)
}

/// The amount of a row in ten-thousandths, rounded half to even; `None`
/// where the row's amount is negative or the result is outside 64 bits.
pub open spec fn row_amount(raw: ScaledInteger) -> Option<Money> {
    if raw.value < 0 {
        None
    } else {
        money_of(rescale(raw.value as int, raw.scale as nat))
    }
}

/// The transaction that a row stands for. A deposit or a withdrawal needs
/// an amount, and one that is not negative; a dispute, a resolution or a
/// chargeback must have none. Every other row is refused.
pub open spec fn transaction_of(row: CsvRowView) -> Result<Transaction, ErrorView> {
    let name = kind_name(row.kind);
    match row.amount {
        Some(raw) => if name == "deposit"@ || name == "withdrawal"@ {
            match row_amount(raw) {
                None => Err(invalid_amount(name)),
                Some(amount) => Ok(
                    Transaction {
                        kind: if name == "deposit"@ {
                            TransactionKind::Deposit { amount }
                        } else {
                            TransactionKind::Withdrawal { amount }
                        },
                        client_id: row.client,
                        transaction_id: row.tx,
                    },
                ),
            }
        } else {
            Err(invalid_kind(name))
        },
        None => if name == "dispute"@ || name == "resolve"@ || name == "chargeback"@ {
            Ok(
                Transaction {
                    kind: if name == "dispute"@ {
                        TransactionKind::Dispute
                    } else if name == "resolve"@ {
                        TransactionKind::Resolve
                    } else {
                        TransactionKind::Chargeback
                    },
                    client_id: row.client,
                    transaction_id: row.tx,
                },
            )
        } else {
            Err(invalid_kind(name))
        },
    }
}

/// The amount of a transaction that a row stands for is never negative.
pub proof fn lemma_row_amount_not_negative(row: CsvRowView)
    ensures
        transaction_of(row) matches Ok(tx) ==> (tx.kind.amount_spec() matches Some(amount)
            ==> amount.0 >= 0),
{
    if let Some(raw) = row.amount {
        if raw.value >= 0 {
            lemma_rescale_not_negative(raw.value as int, raw.scale as nat);
        }
    }
}

/// What a row, or the failure to read one, hands to the engine.
pub open spec fn item_of(row: Result<CsvRow, String>) -> ItemView {
    match row {
        Ok(row) => transaction_of(row@),
        Err(reason) => Err(ErrorView::Ingestion("CSV deserialization error: "@ + reason@)),
    }
}

/// What a sequence of rows hands to the engine.
pub open spec fn items_of(rows: Seq<Result<CsvRow, String>>) -> Seq<ItemView> {
    rows.map_values(|row: Result<CsvRow, String>| item_of(row))
}

/// An error whose text is `prefix` followed by `name`.
fn ingestion_error(prefix: &str, name: &Vec<char>) -> (error: Error)
    ensures
        error@ == ErrorView::Ingestion(prefix@ + name@),
{
    let mut reason = String::from_str(prefix);
    push_chars(&mut reason, name);
    Error::Ingestion(reason)
}

/// The transaction that a row stands for: see [`transaction_of`].
fn transaction_from(row: &CsvRow) -> (result: Result<Transaction, Error>)
    ensures
        item_view(result) == transaction_of(row@),
{
    let name = trimmed_lowercase(row.kind.as_str());
    let is_deposit = equals_text(&name, "deposit");
    let is_withdrawal = equals_text(&name, "withdrawal");
    match row.amount {
        Some(raw) => {
            if !is_deposit && !is_withdrawal {
                return Err(ingestion_error("Invalid transaction type: ", &name));
            }
            if raw.value < 0 {
                return Err(ingestion_error("Invalid amount for transaction type: ", &name));
            }
            let amount = match Money::from_scaled_i128(raw.value, raw.scale) {
                Some(amount) => amount,
                None => {
                    return Err(ingestion_error("Invalid amount for transaction type: ", &name));
                },
            };
            let kind = if is_deposit {
                TransactionKind::Deposit { amount }
            } else {
                TransactionKind::Withdrawal { amount }
            };
            Ok(Transaction { kind, client_id: row.client, transaction_id: row.tx })
        },
        None => {
            let kind = if equals_text(&name, "dispute") {
                TransactionKind::Dispute
            } else if equals_text(&name, "resolve") {
                TransactionKind::Resolve
            } else if equals_text(&name, "chargeback") {
                TransactionKind::Chargeback
            } else {
                return Err(ingestion_error("Invalid transaction type: ", &name));
            };
            Ok(Transaction { kind, client_id: row.client, transaction_id: row.tx })
        },
    }
}

/// What a row, or the failure to read one, hands to the engine: see
/// [`item_of`].
pub fn item_from_row(row: &Result<CsvRow, String>) -> (item: Result<Transaction, Error>)
    ensures
        item_view(item) == item_of(*row),
{
    match row {
        Ok(row) => transaction_from(row),
        Err(reason) => {
            let mut text = String::from_str("CSV deserialization error: ");
            text.append(reason.as_str());
            Err(Error::Ingestion(text))
        },
    }
}

impl Transaction {
    /// The transaction that a row stands for: see [`transaction_of`].
    pub fn try_from(row: CsvRow) -> (result: Result<Transaction, Error>)
        ensures
            item_view(result) == transaction_of(row@),
    {
        transaction_from(&row)
    }
}

/// The rows of an input, to be handed out once as transactions.
pub struct CsvReader {
    rows: Option<Vec<Result<CsvRow, String>>>,
}

impl CsvReader {
    /// A reader over the rows of an input. A row that could not be read
    /// stands in the sequence as the reason.
    pub fn new(rows: Vec<Result<CsvRow, String>>) -> (result: Result<Self, Error>)
        ensures
            result is Ok,
            result->Ok_0.pending() == items_of(rows@),
    {
        Ok(CsvReader { rows: Some(rows) })
    }
}

impl TransactionStream for CsvReader {
    closed spec fn pending(&self) -> Seq<ItemView> {
        match self.rows {
            Some(rows) => items_of(rows@),
            None => Seq::empty(),
        }
    }

    fn stream(&mut self) -> (items: Vec<Result<Transaction, Error>>) {
        let mut items: Vec<Result<Transaction, Error>> = Vec::new();
        let rows = match self.rows.take() {
            Some(rows) => rows,
            None => {
                assert(items_view(items@) =~= Seq::<ItemView>::empty());
                return items;
            },
        };
        let mut k: usize = 0;
        assert(items_view(items@) =~= items_of(rows@.take(0)));
        while k < rows.len()
            invariant
                k <= rows.len(),
                items@.len() == k,
                items_view(items@) == items_of(rows@.take(k as int)),
            decreases rows.len() - k,
        {
            let item = item_from_row(&rows[k]);
            let ghost before = items@;
            items.push(item);
            assert(items_view(items@).len() == k + 1);
            assert(items_of(rows@.take(k + 1)).len() == k + 1);
            assert forall|i: int| 0 <= i < k + 1 implies items_view(items@)[i] == items_of(
                rows@.take(k + 1),
            )[i] by {
                if i < k {
                    assert(items_view(before)[i] == item_view(before[i]));
                    assert(items_of(rows@.take(k as int))[i] == item_of(rows@[i]));
                } else {
                    assert(items@[i] == item);
                }
                assert(items_view(items@)[i] == item_view(items@[i]));
                assert(items_of(rows@.take(k + 1))[i] == item_of(rows@[i]));
            }
            assert(items_view(items@) =~= items_of(rows@.take(k + 1)));
            k = k + 1;
        }
        assert(rows@.take(rows.len() as int) == rows@);
        items
    }
}

} // verus!
