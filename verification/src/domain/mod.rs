//! The values that the engine works on: amounts, accounts, transactions,
//! errors, and the interfaces of its collaborators.

pub mod account;
pub mod error;
pub mod money;
pub mod traits;
pub mod transaction;

pub use account::Account;
pub use error::{EngineError, Error};
pub use money::Money;
pub use traits::{DeadLetterQueue, OutputRepository, TransactionStream};
pub use transaction::{Transaction, TransactionKind};
