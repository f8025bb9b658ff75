use crate::account::AccountSpec;
use crate::transaction::Transaction;
use std::collections::HashMap;
use vstd::prelude::*;

verus! {

/// Accounts and the transfers between them, without a start date. Accounts
/// are keyed by the number of their `AccountID`.
#[derive(Clone, Debug)]
pub struct BudgetData {
    /// Every account that a transfer may name.
    pub accounts: HashMap<u64, AccountSpec>,
    /// The transfers that take place.
    pub transactions: Vec<Transaction>,
}

impl Default for BudgetData {
    /// Neither accounts nor transfers.
    fn default() -> (r: BudgetData)
        ensures
            r.accounts@ == Map::<u64, AccountSpec>::empty(),
            r.transactions@ == Seq::<Transaction>::empty(),
    {
        BudgetData { accounts: HashMap::new(), transactions: Vec::new() }
    }
}

} // verus!
