use crate::account::AccountSpec;
use crate::date::{CalendarDay, Date};
use crate::transaction::{Transaction, TransactionView};
use currency::Currency;
use std::collections::HashMap;
use vstd::prelude::*;
use vstd::std_specs::iter::IteratorSpec;

verus! {

broadcast use vstd::std_specs::hash::group_hash_axioms;

/// The value that the transfer rule `rule` gives for an account that holds
/// `value` when `amount` is transferred.
pub open spec fn transfer_outcome<F: Fn(&AccountSpec, &Currency, &Currency) -> Currency>(
    rule: F,
    account: AccountSpec,
    value: Currency,
    amount: Currency,
) -> Currency {
    choose|r: Currency| rule.ensures((&account, &value, &amount), r)
}

/// `rule` is a function in the mathematical sense: it can be called on all
/// arguments, and what it returns depends on its arguments alone.
pub open spec fn is_transfer_rule<F: Fn(&AccountSpec, &Currency, &Currency) -> Currency>(
    rule: F,
) -> bool {
    &&& forall|account: AccountSpec, value: Currency, amount: Currency| #[trigger]
        rule.requires((&account, &value, &amount))
    &&& forall|account: AccountSpec, value: Currency, amount: Currency, r: Currency| #[trigger]
        rule.ensures((&account, &value, &amount), r) ==> r == transfer_outcome(
            rule,
            account,
            value,
            amount,
        )
}

/// The value that the daily rule `rule` gives for an account that holds
/// `value` when a day has passed.
pub open spec fn daily_outcome<F: Fn(&AccountSpec, &Currency) -> Currency>(
    rule: F,
    account: AccountSpec,
    value: Currency,
) -> Currency {
    choose|r: Currency| rule.ensures((&account, &value), r)
}

/// `rule` is a function in the mathematical sense: it can be called on all
/// arguments, and what it returns depends on its arguments alone.
pub open spec fn is_daily_rule<F: Fn(&AccountSpec, &Currency) -> Currency>(rule: F) -> bool {
    &&& forall|account: AccountSpec, value: Currency| #[trigger] rule.requires((&account, &value))
    &&& forall|account: AccountSpec, value: Currency, r: Currency| #[trigger]
        rule.ensures((&account, &value), r) ==> r == daily_outcome(rule, account, value)
}

/// The values after one transfer: the source account's value goes through
/// `source`, then the sink account's value goes through `sink`.
pub open spec fn transfer<
    S: Fn(&AccountSpec, &Currency, &Currency) -> Currency,
    K: Fn(&AccountSpec, &Currency, &Currency) -> Currency,
>(
    source: S,
    sink: K,
    accounts: Map<u64, AccountSpec>,
    values: Map<u64, Currency>,
    t: TransactionView,
) -> Map<u64, Currency> {
    let from = t.source.id_val;
    let to = t.sink.id_val;
    let taken = values.insert(from, transfer_outcome(source, accounts[from], values[from], t.value));
    taken.insert(to, transfer_outcome(sink, accounts[to], taken[to], t.value))
}

/// The values after those of `transfers` that occur on `day` have taken
/// place, one after the other in the order of the sequence.
pub open spec fn settle<
    S: Fn(&AccountSpec, &Currency, &Currency) -> Currency,
    K: Fn(&AccountSpec, &Currency, &Currency) -> Currency,
>(
    source: S,
    sink: K,
    accounts: Map<u64, AccountSpec>,
    values: Map<u64, Currency>,
    transfers: Seq<TransactionView>,
    day: CalendarDay,
) -> Map<u64, Currency>
    decreases transfers.len(),
{
    if transfers.len() == 0 {
        values
    } else {
        let before = settle(source, sink, accounts, values, transfers.drop_last(), day);
        if transfers.last().occurs_on(day) {
            transfer(source, sink, accounts, before, transfers.last())
        } else {
            before
        }
    }
}

/// The values after a day has passed: every account's value goes through
/// `update`.
pub open spec fn accrue<U: Fn(&AccountSpec, &Currency) -> Currency>(
    update: U,
    accounts: Map<u64, AccountSpec>,
    values: Map<u64, Currency>,
) -> Map<u64, Currency> {
    Map::new(
        |id: u64| values.contains_key(id),
        |id: u64| daily_outcome(update, accounts[id], values[id]),
    )
}

/// A projection at one moment, as contracts see it: the accounts and the
/// transfers it was made from, the value of every account and the day that
/// is about to pass.
pub struct Projection {
    pub accounts: Map<u64, AccountSpec>,
    pub transfers: Seq<TransactionView>,
    pub values: Map<u64, Currency>,
    pub day: CalendarDay,
}

impl Projection {
    /// The projection one day later: the transfers that occur on the day
    /// have taken place in their order, then every account has had its daily
    /// update, and the day is the following one.
    pub open spec fn step<
        S: Fn(&AccountSpec, &Currency, &Currency) -> Currency,
        K: Fn(&AccountSpec, &Currency, &Currency) -> Currency,
        U: Fn(&AccountSpec, &Currency) -> Currency,
    >(self, source: S, sink: K, update: U) -> Projection {
        Projection {
            accounts: self.accounts,
            transfers: self.transfers,
            values: accrue(
                update,
                self.accounts,
                settle(source, sink, self.accounts, self.values, self.transfers, self.day),
            ),
            day: self.day.next(),
        }
    }

    /// The projection `days` days later.
    pub open spec fn after<
        S: Fn(&AccountSpec, &Currency, &Currency) -> Currency,
        K: Fn(&AccountSpec, &Currency, &Currency) -> Currency,
        U: Fn(&AccountSpec, &Currency) -> Currency,
    >(self, source: S, sink: K, update: U, days: nat) -> Projection
        decreases days,
    {
        if days == 0 {
            self
        } else {
            self.after(source, sink, update, (days - 1) as nat).step(source, sink, update)
        }
    }
}

/// The accounts, the transfers between them and the day on which a
/// projection starts. Accounts are keyed by the number of their `AccountID`.
#[derive(Clone, Debug)]
pub struct Simulation {
    /// Every account that a transfer may name.
    pub accounts: HashMap<u64, AccountSpec>,
    /// The transfers that take place.
    pub transactions: Vec<Transaction>,
    /// The first day of the projection.
    pub start: Date,
}

impl Default for Simulation {
    /// A simulation without accounts or transfers that starts on the
    /// default date.
    fn default() -> (r: Simulation)
        ensures
            r.accounts@ == Map::<u64, AccountSpec>::empty(),
            r.transactions@ == Seq::<Transaction>::empty(),
            r.start@ == (CalendarDay { year: 1970, month: 1, day: 1 }),
            r.is_consistent(),
    {
        Simulation { accounts: HashMap::new(), transactions: Vec::new(), start: Date::default() }
    }
}

/// A projection under way: the simulation it was made from, the value of
/// every account and the day that is about to pass.
#[derive(Clone, Debug)]
pub struct SimulationIterator {
    /// The simulation that is projected.
    pub sim: Simulation,
    /// The value of every account at the start of `date`.
    pub values: HashMap<u64, Currency>,
    /// The day that the next step lets pass.
    pub date: Date,
}

/// The keys of `map`, each once, in the order in which the map hands them out.
fn keys_of<V>(map: &HashMap<u64, V>) -> (keys: Vec<u64>)
    ensures
        keys@.no_duplicates(),
        keys@.to_set() == map@.dom(),
{
    let mut keys: Vec<u64> = Vec::new();
    let ghost all: Seq<u64> = map.keys().remaining().unref();
    for key in it: map.keys()
        invariant
            it.seq().unref() == all,
            keys@ == all.take(it.index()),
    {
        keys.push(*key);
    }
    assert(keys@ == all);
    keys
}

impl Simulation {
    /// The transfers of the simulation as contracts see them.
    pub open spec fn transfers(&self) -> Seq<TransactionView> {
        Seq::new(self.transactions@.len(), |i: int| self.transactions@[i]@)
    }

    /// Every transfer names accounts that the simulation has.
    pub open spec fn is_consistent(&self) -> bool {
        forall|i: int|
            0 <= i < self.transactions@.len() ==> {
                &&& self.accounts@.contains_key((#[trigger] self.transactions@[i])@.source.id_val)
                &&& self.accounts@.contains_key(self.transactions@[i]@.sink.id_val)
            }
    }

    /// The value with which each account starts.
    pub open spec fn initial_values(&self) -> Map<u64, Currency> {
        Map::new(
            |id: u64| self.accounts@.contains_key(id),
            |id: u64| self.accounts@[id].initial_value,
        )
    }

    /// The projection before its first day has passed.
    pub open spec fn opening(&self) -> Projection {
        Projection {
            accounts: self.accounts@,
            transfers: self.transfers(),
            values: self.initial_values(),
            day: self.start@,
        }
    }

    /// Whether every transfer names accounts that the simulation has.
    pub fn check_consistent(&self) -> (r: bool)
        ensures
            r == self.is_consistent(),
    {
        let mut i: usize = 0;
        while i < self.transactions.len()
            invariant
                0 <= i <= self.transactions@.len(),
                forall|j: int|
                    0 <= j < i ==> {
                        &&& self.accounts@.contains_key(
                            (#[trigger] self.transactions@[j])@.source.id_val,
                        )
                        &&& self.accounts@.contains_key(self.transactions@[j]@.sink.id_val)
                    },
            decreases self.transactions@.len() - i,
        {
            let t = &self.transactions[i];
            if !self.accounts.contains_key(&t.source().id_val) || !self.accounts.contains_key(
                &t.sink().id_val,
            ) {
                return false;
            }
            i += 1;
        }
        true
    }

    /// Starts a projection: every account has its initial value, and the
    /// first day to pass is the start of the simulation.
    pub fn iter(self) -> (r: SimulationIterator)
        ensures
            r.sim == self,
            r.date == self.start,
            r.values@ == self.initial_values(),
            r@ == self.opening(),
            r.is_consistent() == self.is_consistent(),
    {
        let keys = keys_of(&self.accounts);
        let mut values: HashMap<u64, Currency> = HashMap::new();
        let mut i: usize = 0;
        while i < keys.len()
            invariant
                0 <= i <= keys@.len(),
                keys@.to_set() == self.accounts@.dom(),
                forall|id: u64|
                    values@.contains_key(id) <==> exists|j: int| 0 <= j < i && keys@[j] == id,
                forall|id: u64| #[trigger]
                    values@.contains_key(id) ==> values@[id] == self.accounts@[id].initial_value,
            decreases keys@.len() - i,
        {
            let id = keys[i];
            assert(keys@.to_set().contains(id));
            let account = self.accounts.get(&id).unwrap();
            values.insert(id, account.initial_value.clone());
            i += 1;
        }
        assert(values@ =~= self.initial_values()) by {
            assert forall|id: u64| self.accounts@.contains_key(id) implies values@.contains_key(
                id,
            ) by {
                assert(keys@.to_set().contains(id));
            }
        }
        assert(values@.dom() == self.accounts@.dom());
        let date = self.start;
        SimulationIterator { sim: self, values, date }
    }
}

impl View for SimulationIterator {
    type V = Projection;

    open spec fn view(&self) -> Projection {
        Projection {
            accounts: self.sim.accounts@,
            transfers: self.sim.transfers(),
            values: self.values@,
            day: self.date@,
        }
    }
}

impl SimulationIterator {
    /// Every account has a value, and every transfer names accounts that the
    /// simulation has.
    pub open spec fn is_consistent(&self) -> bool {
        &&& self.sim.is_consistent()
        &&& self.values@.dom() == self.sim.accounts@.dom()
    }

    /// Lets the transfers that occur on `self.date` take place, in the order
    /// in which the simulation lists them.
    fn settle_day<
        S: Fn(&AccountSpec, &Currency, &Currency) -> Currency,
        K: Fn(&AccountSpec, &Currency, &Currency) -> Currency,
    >(&mut self, source: &S, sink: &K)
        requires
            old(self).is_consistent(),
            is_transfer_rule(*source),
            is_transfer_rule(*sink),
        ensures
            final(self).sim == old(self).sim,
            final(self).date == old(self).date,
            final(self).is_consistent(),
            final(self).values@ == settle(
                *source,
                *sink,
                old(self).sim.accounts@,
                old(self).values@,
                old(self).sim.transfers(),
                old(self).date@,
            ),
    {
        let ghost accounts = self.sim.accounts@;
        let ghost before = self.values@;
        let ghost transfers = self.sim.transfers();
        let ghost day = self.date@;
        let mut i: usize = 0;
        while i < self.sim.transactions.len()
            invariant
                0 <= i <= self.sim.transactions@.len(),
                self.sim == old(self).sim,
                self.date == old(self).date,
                self.is_consistent(),
                accounts == self.sim.accounts@,
                transfers == self.sim.transfers(),
                day == self.date@,
                is_transfer_rule(*source),
                is_transfer_rule(*sink),
                self.values@ == settle(
                    *source,
                    *sink,
                    accounts,
                    before,
                    transfers.take(i as int),
                    day,
                ),
            decreases self.sim.transactions@.len() - i,
        {
            let ghost so_far = self.values@;
            let t = &self.sim.transactions[i];
            assert(transfers.take(i + 1).drop_last() == transfers.take(i as int));
            assert(transfers.take(i + 1).last() == t@);
            if t.occurs(self.date) {
                let from = t.source().id_val;
                let to = t.sink().id_val;
                let taken = source(
                    self.sim.accounts.get(&from).unwrap(),
                    self.values.get(&from).unwrap(),
                    t.value(),
                );
                self.values.insert(from, taken);
                let given = sink(
                    self.sim.accounts.get(&to).unwrap(),
                    self.values.get(&to).unwrap(),
                    t.value(),
                );
                self.values.insert(to, given);
                assert(self.values@ == transfer(*source, *sink, accounts, so_far, t@));
                assert(self.values@.dom() == accounts.dom());
            }
            i += 1;
        }
        assert(transfers.take(i as int) == transfers);
    }

    /// Gives every account its daily update.
    fn accrue_day<U: Fn(&AccountSpec, &Currency) -> Currency>(&mut self, update: &U)
        requires
            old(self).is_consistent(),
            is_daily_rule(*update),
        ensures
            final(self).sim == old(self).sim,
            final(self).date == old(self).date,
            final(self).is_consistent(),
            final(self).values@ == accrue(*update, old(self).sim.accounts@, old(self).values@),
    {
        let ghost accounts = self.sim.accounts@;
        let ghost before = self.values@;
        let keys = keys_of(&self.values);
        let mut i: usize = 0;
        while i < keys.len()
            invariant
                0 <= i <= keys@.len(),
                self.sim == old(self).sim,
                self.date == old(self).date,
                accounts == self.sim.accounts@,
                is_daily_rule(*update),
                keys@.no_duplicates(),
                keys@.to_set() == before.dom(),
                before.dom() == accounts.dom(),
                self.values@.dom() == before.dom(),
                forall|j: int|
                    0 <= j < i ==> self.values@[#[trigger] keys@[j]] == daily_outcome(
                        *update,
                        accounts[keys@[j]],
                        before[keys@[j]],
                    ),
                forall|j: int|
                    i <= j < keys@.len() ==> self.values@[#[trigger] keys@[j]] == before[keys@[j]],
            decreases keys@.len() - i,
        {
            let id = keys[i];
            assert(keys@.to_set().contains(id));
            let updated = update(
                self.sim.accounts.get(&id).unwrap(),
                self.values.get(&id).unwrap(),
            );
            self.values.insert(id, updated);
            assert(self.values@.dom() == before.dom());
            i += 1;
        }
        assert(self.values@ == accrue(*update, accounts, before)) by {
            assert forall|id: u64| before.contains_key(id) implies self.values@[id]
                == daily_outcome(*update, accounts[id], before[id]) by {
                assert(keys@.to_set().contains(id));
                let j = choose|j: int| 0 <= j < keys@.len() && keys@[j] == id;
                assert(self.values@[keys@[j]] == daily_outcome(
                    *update,
                    accounts[keys@[j]],
                    before[keys@[j]],
                ));
            }
        }
    }

    /// Lets one day pass and returns a copy of the values at its end,
    /// together with the day that follows. The transfers that occur on the
    /// day take place first, each through `source` for its source account and
    /// through `sink` for its sink account; then every account goes through
    /// `update`. Returns `None`, and changes nothing, where the calendar has
    /// no following day.
    pub fn next<
        S: Fn(&AccountSpec, &Currency, &Currency) -> Currency,
        K: Fn(&AccountSpec, &Currency, &Currency) -> Currency,
        U: Fn(&AccountSpec, &Currency) -> Currency,
    >(&mut self, source: &S, sink: &K, update: &U) -> (r: Option<(HashMap<u64, Currency>, Date)>)
        requires
            old(self).is_consistent(),
            is_transfer_rule(*source),
            is_transfer_rule(*sink),
            is_daily_rule(*update),
        ensures
            final(self).sim == old(self).sim,
            final(self).is_consistent(),
            match r {
                None => {
                    &&& old(self).date@.is_last()
                    &&& final(self).values == old(self).values
                    &&& final(self).date == old(self).date
                },
                Some((snapshot, date)) => {
                    &&& !old(self).date@.is_last()
                    &&& date@ == old(self).date@.next()
                    &&& final(self).date == date
                    &&& final(self)@ == old(self)@.step(*source, *sink, *update)
                    &&& snapshot@ == final(self).values@
                },
            },
    {
        let tomorrow = match self.date.succ_opt() {
            Some(d) => d,
            None => {
                return None;
            },
        };
        self.settle_day(source, sink);
        self.accrue_day(update);
        self.date = tomorrow;
        Some((self.values.clone(), self.date))
    }
}

/// A projection is determined by what it was made from: two that agree on
/// accounts, transfers, values and day agree after any number of days, one
/// by one, whatever the order in which either walks its accounts.
pub proof fn lemma_runs_agree<
    S: Fn(&AccountSpec, &Currency, &Currency) -> Currency,
    K: Fn(&AccountSpec, &Currency, &Currency) -> Currency,
    U: Fn(&AccountSpec, &Currency) -> Currency,
>(a: SimulationIterator, b: SimulationIterator, source: S, sink: K, update: U, days: nat)
    requires
        a@ == b@,
    ensures
        forall|n: nat|
            n <= days ==> #[trigger] a@.after(source, sink, update, n) == b@.after(
                source,
                sink,
                update,
                n,
            ),
{
}

/// Letting `m` days pass and then `n` more is letting `m + n` days pass.
pub proof fn lemma_after_adds_up<
    S: Fn(&AccountSpec, &Currency, &Currency) -> Currency,
    K: Fn(&AccountSpec, &Currency, &Currency) -> Currency,
    U: Fn(&AccountSpec, &Currency) -> Currency,
>(p: Projection, source: S, sink: K, update: U, m: nat, n: nat)
    ensures
        p.after(source, sink, update, m).after(source, sink, update, n) == p.after(
            source,
            sink,
            update,
            m + n,
        ),
    decreases n,
{
    if n > 0 {
        lemma_after_adds_up(p, source, sink, update, m, (n - 1) as nat);
    }
}

/// A step leaves the accounts and the transfers as they are, and gives a
/// value to exactly the accounts that had one.
pub proof fn lemma_step_keeps_accounts<
    S: Fn(&AccountSpec, &Currency, &Currency) -> Currency,
    K: Fn(&AccountSpec, &Currency, &Currency) -> Currency,
    U: Fn(&AccountSpec, &Currency) -> Currency,
>(p: Projection, source: S, sink: K, update: U)
    requires
        forall|i: int|
            0 <= i < p.transfers.len() ==> {
                &&& p.values.contains_key((#[trigger] p.transfers[i]).source.id_val)
                &&& p.values.contains_key(p.transfers[i].sink.id_val)
            },
    ensures
        p.step(source, sink, update).accounts == p.accounts,
        p.step(source, sink, update).transfers == p.transfers,
        p.step(source, sink, update).values.dom() == p.values.dom(),
{
    lemma_settle_keeps_accounts(source, sink, p.accounts, p.values, p.transfers, p.day);
}

/// Transfers between accounts that have a value leave the set of accounts
/// that have a value as it is.
pub proof fn lemma_settle_keeps_accounts<
    S: Fn(&AccountSpec, &Currency, &Currency) -> Currency,
    K: Fn(&AccountSpec, &Currency, &Currency) -> Currency,
>(
    source: S,
    sink: K,
    accounts: Map<u64, AccountSpec>,
    values: Map<u64, Currency>,
    transfers: Seq<TransactionView>,
    day: CalendarDay,
)
    requires
        forall|i: int|
            0 <= i < transfers.len() ==> {
                &&& values.contains_key((#[trigger] transfers[i]).source.id_val)
                &&& values.contains_key(transfers[i].sink.id_val)
            },
    ensures
        settle(source, sink, accounts, values, transfers, day).dom() == values.dom(),
    decreases transfers.len(),
{
    if transfers.len() > 0 {
        let rest = transfers.drop_last();
        assert forall|i: int| 0 <= i < rest.len() implies {
            &&& values.contains_key((#[trigger] rest[i]).source.id_val)
            &&& values.contains_key(rest[i].sink.id_val)
        } by {
            assert(rest[i] == transfers[i]);
        }
        lemma_settle_keeps_accounts(source, sink, accounts, values, rest, day);
        let before = settle(source, sink, accounts, values, rest, day);
        let t = transfers.last();
        assert(t == transfers[transfers.len() - 1]);
        assert(transfer(source, sink, accounts, before, t).dom() =~= before.dom());
    }
}

} // verus!
