use crate::date::Date;
use currency::Currency;
use vstd::prelude::*;

verus! {

/// An amount of money: an optional symbol and a whole number of coins, a
/// hundred to the note. The library stores and hands on such values and never
/// looks inside one.
#[verifier::external_type_specification]
#[verifier::external_body]
pub struct ExCurrency(Currency);

/// `Clone::clone` of a `Currency` copies its symbol and its coins: the copy
/// is the same amount.
pub assume_specification[ <Currency as Clone>::clone ](amount: &Currency) -> (copy: Currency)
    ensures
        copy == *amount,
;

/// Identifies an account. Two identifiers are the same account exactly if
/// their numbers are equal.
#[derive(Clone, Copy, Debug, PartialEq, Eq, Hash, Structural)]
pub struct AccountID {
    pub id_val: u64,
}

impl Default for AccountID {
    fn default() -> (r: AccountID)
        ensures
            r.id_val == 0,
    {
        AccountID { id_val: 0 }
    }
}

/// A proportion such as an interest rate, held as the bit pattern of an
/// IEEE 754 double. The library stores rates and passes them on; arithmetic on
/// them is left to the value functions that a caller supplies.
#[derive(Clone, Copy, Debug)]
pub struct Rate {
    pub bits: u64,
}

/// What the owner of an account has stated about it: how it starts and how
/// its value responds to transfers and to the passing of a day.
#[derive(Clone, Debug)]
pub struct AccountSpec {
    /// The name of the account.
    pub name: String,
    /// The value of the account when a projection starts.
    pub initial_value: Currency,
    /// The interest per year as a fraction of the account's value.
    pub interest: Rate,
    /// The charge on a transfer out of the account as a fraction of the amount.
    pub out_charge: Rate,
    /// The charge on a transfer into the account as a fraction of the amount.
    pub in_charge: Rate,
}

/// The value of an account on a given date.
#[derive(Clone, Debug, PartialEq, Eq)]
pub struct AccountState {
    /// The value of the account.
    pub value: Currency,
    /// The date on which the account has this value.
    pub date: Date,
}

} // verus!
