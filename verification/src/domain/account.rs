//! The balances of one client.

use crate::domain::money::{format_decimal, Money};
use crate::numeral::{nat_digits, push_nat};
use vstd::prelude::*;

verus! {

/// What one client holds. `total` is kept equal to `available + held`.
#[derive(Debug, Clone, Copy, PartialEq, Eq, Structural)]
pub struct Account {
    /// Funds that can be withdrawn.
    pub available: Money,
    /// Funds frozen by open disputes.
    pub held: Money,
    /// All funds of the client.
    pub total: Money,
    /// Set by a chargeback, and never cleared.
    pub locked: bool,
}

/// The line that reports an account: client, available, held, total and
/// lock, separated by commas, the amounts with four decimal places.
pub open spec fn account_line(client_id: u16, account: Account) -> Seq<char> {
    nat_digits(client_id as nat) + seq![','] + format_decimal(account.available.0 as int)
        + seq![','] + format_decimal(account.held.0 as int) + seq![','] + format_decimal(
        account.total.0 as int,
    ) + seq![','] + (if account.locked {
        "true"@
    } else {
        "false"@
    })
}

impl Account {
    /// The state of an account that no transaction has touched.
    pub open spec fn opened() -> Account {
        Account { available: Money(0), held: Money(0), total: Money(0), locked: false }
    }

    /// Whether `total` is the sum of `available` and `held`.
    pub open spec fn balanced(&self) -> bool {
        self.total.0 == self.available.0 + self.held.0
    }

    /// An account that no transaction has touched: nothing in it, not
    /// locked.
    pub fn new() -> (account: Self)
        ensures
            account == Account::opened(),
            account.balanced(),
    {
        Account { available: Money(0), held: Money(0), total: Money(0), locked: false }
    }

    /// Recomputes `total` from the two balances. Their sum has to be an
    /// amount.
    pub fn sync_total(&mut self)
        requires
            i64::MIN <= old(self).available.0 + old(self).held.0 <= i64::MAX,
        ensures
            final(self).balanced(),
            final(self).available == old(self).available,
            final(self).held == old(self).held,
            final(self).locked == old(self).locked,
    {
        self.total = Money(self.available.0 + self.held.0);
    }

    /// The line that reports the account of `client_id`: see
    /// [`account_line`].
    pub fn line(&self, client_id: u16) -> (text: String)
        ensures
            text@ == account_line(client_id, *self),
    {
        let mut text = String::new();
        push_nat(&mut text, client_id as u64);
        text.push(',');
        text.append(self.available.format().as_str());
        text.push(',');
        text.append(self.held.format().as_str());
        text.push(',');
        text.append(self.total.format().as_str());
        text.push(',');
        if self.locked {
            text.append("true");
        } else {
            text.append("false");
        }
        assert(text@ =~= account_line(client_id, *self));
        text
    }
}

} // verus!
