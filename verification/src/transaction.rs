use crate::account::AccountID;
use crate::date::{days_in_month, lemma_next_day, CalendarDay, Date};
use crate::simulation::Simulation;
use crate::util::DateInterval;
use currency::Currency;
use vstd::prelude::*;

verus! {

broadcast use vstd::std_specs::hash::group_hash_axioms;

/// What a [`Transaction`] stands for in contracts.
pub struct TransactionView {
    /// The value that is transferred.
    pub value: Currency,
    /// The account that the value is taken from.
    pub source: AccountID,
    /// The account that the value goes to.
    pub sink: AccountID,
    /// The first day on which the transfer can take place.
    pub start: CalendarDay,
    /// How the transfer repeats; `None` for a single transfer.
    pub repetition: Option<DateInterval>,
    /// The day from which on the transfer takes place no more, if there is one.
    pub end: Option<CalendarDay>,
}

impl TransactionView {
    /// Source and sink differ, only a repeating transfer has an end, and the
    /// end is not before the start.
    pub open spec fn is_well_formed(self) -> bool {
        &&& self.source != self.sink
        &&& self.end matches Some(e) ==> self.repetition is Some && !e.before(self.start)
    }

    /// Whether `day` is one that the repetition rule picks, the start and the
    /// end left aside.
    pub open spec fn is_due_on(self, day: CalendarDay) -> bool {
        match self.repetition {
            None => day == self.start,
            Some(DateInterval::Daily) => true,
            Some(DateInterval::Weekly) => day.weekday() == self.start.weekday(),
            Some(DateInterval::Monthly) => day.day == self.start.day,
            Some(DateInterval::Yearly) => day.day_of_year() == self.start.day_of_year(),
        }
    }

    /// Whether the transfer takes place on `day`: not before the start, on a
    /// day that the repetition rule picks, and before the end.
    pub open spec fn occurs_on(self, day: CalendarDay) -> bool {
        &&& !day.before(self.start)
        &&& self.is_due_on(day)
        &&& self.end matches Some(e) ==> day.before(e)
    }
}

/// A transfer of a value from a source account to a sink account, on one day
/// or on every day that a repetition rule picks from its first day on.
#[derive(Debug, PartialEq, Eq, Hash)]
pub struct Transaction {
    value: Currency,
    source: AccountID,
    sink: AccountID,
    start: Date,
    rpt: Option<DateInterval>,
    end: Option<Date>,
}

/// Why a transaction was not made.
#[derive(Clone, Copy, Debug, PartialEq, Eq, Hash, Structural)]
pub enum TransactionError {
    /// The simulation has no account with this identifier.
    InvalidAccountID { id: AccountID },
    /// Source and sink are the same account.
    DuplicateAccountID { duplicate_id: AccountID },
    /// The end date lies before the start date.
    InvalidStartEndDateCombination { start: Date, end: Date },
}

impl View for Transaction {
    type V = TransactionView;

    closed spec fn view(&self) -> TransactionView {
        TransactionView {
            value: self.value,
            source: self.source,
            sink: self.sink,
            start: self.start@,
            repetition: self.rpt,
            end: match self.end {
                Some(e) => Some(e@),
                None => None,
            },
        }
    }
}

impl Clone for Transaction {
    fn clone(&self) -> (r: Transaction)
        ensures
            r@ == self@,
    {
        proof {
            use_type_invariant(self);
        }
        Transaction {
            value: self.value.clone(),
            source: self.source,
            sink: self.sink,
            start: self.start,
            rpt: self.rpt,
            end: self.end,
        }
    }
}

impl Transaction {
    /// Holds of every transaction that a program can hold.
    #[verifier::type_invariant]
    pub open spec fn is_well_formed(self) -> bool {
        self@.is_well_formed()
    }

    /// Two transactions with the same parts are the same transaction.
    pub proof fn lemma_view_is_injective(a: Transaction, b: Transaction)
        requires
            a@ == b@,
        ensures
            a == b,
    {
        Date::lemma_view_is_injective(a.start, b.start);
        if a.end is Some {
            Date::lemma_view_is_injective(a.end->0, b.end->0);
        }
    }

    /// The value that is transferred.
    pub fn value(&self) -> (r: &Currency)
        ensures
            *r == self@.value,
    {
        &self.value
    }

    /// The account that the value is taken from.
    pub fn source(&self) -> (r: AccountID)
        ensures
            r == self@.source,
    {
        self.source
    }

    /// The account that the value goes to.
    pub fn sink(&self) -> (r: AccountID)
        ensures
            r == self@.sink,
    {
        self.sink
    }

    /// The first day on which the transfer can take place.
    pub fn start(&self) -> (r: Date)
        ensures
            r@ == self@.start,
    {
        self.start
    }

    /// How the transfer repeats; `None` for a single transfer.
    pub fn repetition(&self) -> (r: Option<DateInterval>)
        ensures
            r == self@.repetition,
    {
        self.rpt
    }

    /// The day from which on the transfer takes place no more, if there is one.
    pub fn end(&self) -> (r: Option<Date>)
        ensures
            r is Some == self@.end is Some,
            r matches Some(e) ==> self@.end == Some(e@),
    {
        self.end
    }

    /// The first reason, if any, for which no transfer from `source` to `sink`
    /// can be made among `accounts`: the source is unknown, the sink is
    /// unknown, or the two are the same account.
    pub open spec fn account_error(
        accounts: Set<u64>,
        source: AccountID,
        sink: AccountID,
    ) -> Option<TransactionError> {
        if !accounts.contains(source.id_val) {
            Some(TransactionError::InvalidAccountID { id: source })
        } else if !accounts.contains(sink.id_val) {
            Some(TransactionError::InvalidAccountID { id: sink })
        } else if source == sink {
            Some(TransactionError::DuplicateAccountID { duplicate_id: source })
        } else {
            None
        }
    }

    /// The first reason, if any, for which no transfer from `source` to `sink`
    /// from `start` until `end` can be made among `accounts`: one of the
    /// account errors, or an end before the start.
    pub open spec fn bounded_error(
        accounts: Set<u64>,
        source: AccountID,
        sink: AccountID,
        start: Date,
        end: Date,
    ) -> Option<TransactionError> {
        if Self::account_error(accounts, source, sink) is Some {
            Self::account_error(accounts, source, sink)
        } else if end@.before(start@) {
            Some(TransactionError::InvalidStartEndDateCombination { start, end })
        } else {
            None
        }
    }

    /// A transfer that takes place once, on `date`.
    pub fn single(
        sim: &Simulation,
        value: Currency,
        source: AccountID,
        sink: AccountID,
        date: Date,
    ) -> (r: Result<Transaction, TransactionError>)
        ensures
            match Self::account_error(sim.accounts@.dom(), source, sink) {
                Some(e) => r == Err::<Transaction, TransactionError>(e),
                None => r matches Ok(t) && t@ == (TransactionView {
                    value,
                    source,
                    sink,
                    start: date@,
                    repetition: None,
                    end: None,
                }),
            },
    {
        if !sim.accounts.contains_key(&source.id_val) {
            return Err(TransactionError::InvalidAccountID { id: source });
        }
        if !sim.accounts.contains_key(&sink.id_val) {
            return Err(TransactionError::InvalidAccountID { id: sink });
        }
        if source == sink {
            return Err(TransactionError::DuplicateAccountID { duplicate_id: source });
        }
        Ok(Transaction { value, source, sink, start: date, rpt: None, end: None })
    }

    /// A transfer that takes place first on `start` and then again and again
    /// as `rpt` says, without end.
    pub fn repeating(
        sim: &Simulation,
        value: Currency,
        source: AccountID,
        sink: AccountID,
        start: Date,
        rpt: DateInterval,
    ) -> (r: Result<Transaction, TransactionError>)
        ensures
            match Self::account_error(sim.accounts@.dom(), source, sink) {
                Some(e) => r == Err::<Transaction, TransactionError>(e),
                None => r matches Ok(t) && t@ == (TransactionView {
                    value,
                    source,
                    sink,
                    start: start@,
                    repetition: Some(rpt),
                    end: None,
                }),
            },
    {
        match Transaction::single(sim, value, source, sink, start) {
            Ok(t) => {
                proof {
                    use_type_invariant(&t);
                }
                Ok(
                    Transaction {
                        value: t.value,
                        source: t.source,
                        sink: t.sink,
                        start: t.start,
                        rpt: Some(rpt),
                        end: None,
                    },
                )
            },
            Err(e) => Err(e),
        }
    }

    /// A transfer that takes place first on `start` and then again and again
    /// as `rpt` says, on days before `end`.
    pub fn repeating_until(
        sim: &Simulation,
        value: Currency,
        source: AccountID,
        sink: AccountID,
        start: Date,
        rpt: DateInterval,
        end: Date,
    ) -> (r: Result<Transaction, TransactionError>)
        ensures
            match Self::bounded_error(sim.accounts@.dom(), source, sink, start, end) {
                Some(e) => r == Err::<Transaction, TransactionError>(e),
                None => r matches Ok(t) && t@ == (TransactionView {
                    value,
                    source,
                    sink,
                    start: start@,
                    repetition: Some(rpt),
                    end: Some(end@),
                }),
            },
    {
        match Transaction::repeating(sim, value, source, sink, start, rpt) {
            Ok(t) => {
                if end.is_before(&start) {
                    return Err(TransactionError::InvalidStartEndDateCombination { start, end });
                }
                proof {
                    use_type_invariant(&t);
                }
                Ok(
                    Transaction {
                        value: t.value,
                        source: t.source,
                        sink: t.sink,
                        start: t.start,
                        rpt: t.rpt,
                        end: Some(end),
                    },
                )
            },
            Err(e) => Err(e),
        }
    }

    /// Whether the transfer takes place on `date`.
    pub fn occurs(&self, date: Date) -> (r: bool)
        ensures
            r == self@.occurs_on(date@),
    {
        if date.is_before(&self.start) {
            return false;
        }
        let due = match self.rpt {
            Some(DateInterval::Daily) => true,
            Some(DateInterval::Weekly) => date.weekday() == self.start.weekday(),
            Some(DateInterval::Monthly) => date.day() == self.start.day(),
            Some(DateInterval::Yearly) => date.ordinal() == self.start.ordinal(),
            None => {
                proof {
                    if date@ == self.start@ {
                        Date::lemma_view_is_injective(date, self.start);
                    }
                }
                date == self.start
            },
        };
        let open = match self.end {
            Some(e) => date.is_before(&e),
            None => true,
        };
        due && open
    }
}

/// A transaction can be made exactly if both accounts are known and differ.
/// A repeating transaction fails exactly where the single one fails, and one
/// with an end fails exactly where the single one fails or the end lies
/// before the start.
pub proof fn lemma_construction_fails_exactly_when(
    accounts: Set<u64>,
    source: AccountID,
    sink: AccountID,
    start: Date,
    end: Date,
)
    ensures
        Transaction::account_error(accounts, source, sink) is None <==> accounts.contains(
            source.id_val,
        ) && accounts.contains(sink.id_val) && source != sink,
        Transaction::bounded_error(accounts, source, sink, start, end) is Some
            <==> Transaction::account_error(accounts, source, sink) is Some || end@.before(start@),
        Transaction::account_error(accounts, source, sink) matches Some(e)
            ==> Transaction::bounded_error(accounts, source, sink, start, end) == Some(e),
{
}

/// A transfer that does not repeat takes place on exactly one day: its start.
pub proof fn lemma_single_occurs_once(t: TransactionView, day: CalendarDay)
    requires
        t.is_well_formed(),
        t.repetition is None,
    ensures
        t.occurs_on(day) <==> day == t.start,
{
}

/// A weekly transfer takes place on exactly the days from its start on, and
/// before its end if it has one, that fall on the start's day of the week.
pub proof fn lemma_weekly_occurs_on_same_weekday(t: TransactionView, day: CalendarDay)
    requires
        t.repetition == Some(DateInterval::Weekly),
    ensures
        t.end is None ==> (t.occurs_on(day) <==> !day.before(t.start) && day.weekday()
            == t.start.weekday()),
        t.end matches Some(e) ==> (t.occurs_on(day) <==> !day.before(t.start) && day.before(e)
            && day.weekday() == t.start.weekday()),
{
}

/// A monthly transfer that starts on a 31st takes place on no day of a month
/// that has fewer than 31 days.
pub proof fn lemma_monthly_skips_short_months(t: TransactionView, day: CalendarDay)
    requires
        t.repetition == Some(DateInterval::Monthly),
        t.start.day == 31,
        day.is_valid(),
        days_in_month(day.year, day.month) < 31,
    ensures
        !t.occurs_on(day),
{
}

/// No transfer takes place on its end date, nor on any later day.
pub proof fn lemma_end_is_exclusive(t: TransactionView, end: CalendarDay, day: CalendarDay)
    requires
        t.end == Some(end),
        !day.before(end),
    ensures
        !t.occurs_on(end),
        !t.occurs_on(day),
{
}

/// A daily transfer takes place on every day from its start up to the day
/// before its end, that day included.
pub proof fn lemma_daily_occurs_until_end(t: TransactionView, end: CalendarDay, day: CalendarDay)
    requires
        t.repetition == Some(DateInterval::Daily),
        t.end == Some(end),
        !day.before(t.start),
        day.is_valid(),
        !day.is_last(),
        day.next() == end,
    ensures
        t.occurs_on(day),
{
    lemma_next_day(day);
}

} // verus!
