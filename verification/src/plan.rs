//! One facility's plan: its days in the order of their dates, each date at
//! most once.
use crate::date::{iso_date_days, Date};
use crate::meal::{grouped, MealDay, MealDayView};
use crate::raw::{ApiPlan, ApiResult};
use vstd::prelude::*;

verus! {

/// One facility's known days and its display name. The days are strictly
/// sorted by date at all times.
#[derive(Debug)]
pub struct MealPlan {
    days: Vec<MealDay>,
    mensa_name: String,
}

pub struct MealPlanView {
    pub days: Seq<MealDayView>,
    pub mensa_name: Seq<char>,
}

/// Why an upstream answer is no plan.
#[derive(Debug)]
pub enum MealPlanParseError {
    /// A day's date could not be read; the error holds the text that was
    /// sent as the date.
    InvalidDate(String),
}

/// What a lookup in a plan gives: the day that the plan holds, or the date
/// that has to be asked for elsewhere.
#[derive(Debug)]
pub enum DayLookup<'a> {
    Cached(&'a MealDay),
    Request(Date),
}

pub open spec fn days_view(days: Seq<MealDay>) -> Seq<MealDayView> {
    days.map_values(|d: MealDay| d@)
}

/// Every day is earlier than all the days after it.
pub open spec fn strictly_sorted(days: Seq<MealDayView>) -> bool {
    forall|i: int, j: int| 0 <= i < j < days.len() ==> days[i].date < days[j].date
}

/// Some day of `days` has the date `date`.
pub open spec fn has_date(days: Seq<MealDayView>, date: int) -> bool {
    exists|i: int| 0 <= i < days.len() && (#[trigger] days[i]).date == date
}

/// Where the day of the date `date` stands in `days`, if one does.
pub open spec fn index_on(days: Seq<MealDayView>, date: int) -> int {
    choose|i: int| 0 <= i < days.len() && (#[trigger] days[i]).date == date
}

/// The day of the date `date`, if `days` holds one.
pub open spec fn day_on(days: Seq<MealDayView>, date: int) -> Option<MealDayView> {
    if has_date(days, date) {
        Some(days[index_on(days, date)])
    } else {
        None
    }
}

/// Number of days of `days` that are earlier than `date`: in sorted days,
/// the place at which a day of that date stands or belongs.
pub open spec fn rank(days: Seq<MealDayView>, date: int) -> int
    decreases days.len(),
{
    if days.len() == 0 {
        0
    } else {
        rank(days.drop_last(), date) + if days.last().date < date {
            1int
        } else {
            0int
        }
    }
}

/// `days` after the day `day` has been added: unchanged where a day of that
/// date is there already, else with `day` at its place.
pub open spec fn with_day(days: Seq<MealDayView>, day: MealDayView) -> Seq<MealDayView> {
    if has_date(days, day.date) {
        days
    } else {
        days.insert(rank(days, day.date), day)
    }
}

/// `days` without the day of the date `date`.
pub open spec fn without_date(days: Seq<MealDayView>, date: int) -> Seq<MealDayView> {
    if has_date(days, date) {
        days.remove(index_on(days, date))
    } else {
        days
    }
}

/// Whether the date of an upstream record can be read.
pub open spec fn dated(record: ApiPlan) -> bool {
    iso_date_days(record.tag.datum_iso@) is Some
}

/// Number of records at the front of `records` whose dates can be read.
pub open spec fn dated_prefix(records: Seq<ApiPlan>) -> int
    decreases records.len(),
{
    if records.len() == 0 || !dated(records[0]) {
        0
    } else {
        1 + dated_prefix(records.skip(1))
    }
}

/// The day that an upstream record describes.
pub open spec fn day_of_record(record: ApiPlan) -> MealDayView {
    MealDayView {
        date: iso_date_days(record.tag.datum_iso@).unwrap(),
        categories: grouped(record.essen@),
    }
}

/// `days` after the days `more` have been added one after the other.
pub open spec fn with_days(days: Seq<MealDayView>, more: Seq<MealDayView>) -> Seq<MealDayView>
    decreases more.len(),
{
    if more.len() == 0 {
        days
    } else {
        with_day(with_days(days, more.drop_last()), more.last())
    }
}

/// The days of a plan that is built from upstream's records: each record's
/// day is added in turn, so that of several records with one date the first
/// counts.
pub open spec fn plan_days(records: Seq<ApiPlan>) -> Seq<MealDayView> {
    with_days(Seq::empty(), records.map_values(|r: ApiPlan| day_of_record(r)))
}

/// The plan that an upstream answer describes, or the text of the first
/// date in it that cannot be read.
pub open spec fn parsed_plan(value: ApiResult) -> Result<MealPlanView, Seq<char>> {
    let k = dated_prefix(value.result@);
    if 0 <= k < value.result@.len() {
        Err(value.result@[k].tag.datum_iso@)
    } else {
        Ok(MealPlanView { days: plan_days(value.result@), mensa_name: value.mensaname@ })
    }
}

/// A result of reading a plan, as texts and numbers.
pub open spec fn plan_result_view(r: Result<MealPlan, MealPlanParseError>) -> Result<
    MealPlanView,
    Seq<char>,
> {
    match r {
        Ok(plan) => Ok(plan@),
        Err(MealPlanParseError::InvalidDate(text)) => Err(text@),
    }
}

/// The text that an error names, where a result is an error.
pub open spec fn plan_result_text(r: Result<(), MealPlanParseError>) -> Option<Seq<char>> {
    match r {
        Ok(_) => None,
        Err(MealPlanParseError::InvalidDate(text)) => Some(text@),
    }
}

/// A place that splits sorted days into the earlier ones and the rest is
/// the rank of the date.
pub proof fn lemma_rank_is(days: Seq<MealDayView>, date: int, k: int)
    requires
        0 <= k <= days.len(),
        forall|i: int| 0 <= i < k ==> (#[trigger] days[i]).date < date,
        forall|i: int| k <= i < days.len() ==> (#[trigger] days[i]).date >= date,
    ensures
        rank(days, date) == k,
    decreases days.len(),
{
    if days.len() > 0 {
        let before = days.drop_last();
        if k == days.len() {
            lemma_rank_is(before, date, k - 1);
        } else {
            lemma_rank_is(before, date, k);
        }
    }
}

/// In sorted days, the days before the rank of a date are earlier than the
/// date and the others are not.
pub proof fn lemma_rank_splits(days: Seq<MealDayView>, date: int)
    requires
        strictly_sorted(days),
    ensures
        0 <= rank(days, date) <= days.len(),
        forall|i: int| 0 <= i < rank(days, date) ==> (#[trigger] days[i]).date < date,
        forall|i: int| rank(days, date) <= i < days.len() ==> (#[trigger] days[i]).date >= date,
    decreases days.len(),
{
    if days.len() > 0 {
        let before = days.drop_last();
        lemma_rank_splits(before, date);
        let k = rank(before, date);
        if days.last().date < date {
            assert forall|i: int| 0 <= i < before.len() implies (#[trigger] before[i]).date
                < date by {
                assert(days[i].date < days[days.len() - 1].date);
            }
            if k < before.len() {
                assert(before[k].date >= date);
            }
            assert forall|i: int| 0 <= i < k + 1 implies (#[trigger] days[i]).date < date by {
                if i < k {
                    assert(before[i].date < date);
                }
            }
        } else {
            assert forall|i: int| 0 <= i < k implies (#[trigger] days[i]).date < date by {
                assert(before[i].date < date);
            }
            assert forall|i: int| k <= i < days.len() implies (#[trigger] days[i]).date
                >= date by {
                if i < before.len() {
                    assert(before[i].date >= date);
                }
            }
        }
    }
}

/// Adding a day keeps the days sorted, makes its date one of theirs, and
/// touches no day that was there.
pub proof fn lemma_with_day(days: Seq<MealDayView>, day: MealDayView)
    requires
        strictly_sorted(days),
    ensures
        strictly_sorted(with_day(days, day)),
        has_date(with_day(days, day), day.date),
        forall|date: int|
            has_date(with_day(days, day), date) <==> has_date(days, date) || date == day.date,
        forall|date: int| has_date(days, date) ==> day_on(with_day(days, day), date) == day_on(days, date),
        !has_date(days, day.date) ==> day_on(with_day(days, day), day.date) == Some(day),
{
    let after = with_day(days, day);
    if has_date(days, day.date) {
    } else {
        let k = rank(days, day.date);
        lemma_rank_splits(days, day.date);
        assert forall|i: int| k <= i < days.len() implies (#[trigger] days[i]).date
            > day.date by {
            assert(days[i].date >= day.date);
        }
        assert forall|i: int, j: int| 0 <= i < j < after.len() implies after[i].date
            < after[j].date by {
            if i < k {
                assert(after[i] == days[i]);
            } else if i > k {
                assert(after[i] == days[i - 1]);
            }
            if j < k {
                assert(after[j] == days[j]);
            } else if j > k {
                assert(after[j] == days[j - 1]);
            }
        }
        assert(after[k] == day);
        assert forall|date: int| has_date(after, date) <==> has_date(days, date) || date
            == day.date by {
            if has_date(after, date) {
                let i = index_on(after, date);
                if i < k {
                    assert(days[i].date == date);
                } else if i > k {
                    assert(days[i - 1].date == date);
                }
            }
            if has_date(days, date) {
                let i = index_on(days, date);
                if i < k {
                    assert(after[i].date == date);
                } else {
                    assert(after[i + 1].date == date);
                }
            }
        }
        assert forall|date: int| has_date(days, date) implies day_on(after, date) == day_on(
            days,
            date,
        ) by {
            let i = index_on(days, date);
            let j = index_on(after, date);
            let i2 = if i < k {
                i
            } else {
                i + 1
            };
            assert(after[i2] == days[i]);
            assert(has_date(after, date));
            if j != i2 {
                if j < i2 {
                    assert(after[j].date < after[i2].date);
                } else {
                    assert(after[i2].date < after[j].date);
                }
            }
        }
        assert(has_date(after, day.date));
        let j = index_on(after, day.date);
        if j != k {
            if j < k {
                assert(after[j].date < after[k].date);
            } else {
                assert(after[k].date < after[j].date);
            }
        }
    }
}

/// However many days are added, and whatever their dates: the days stay
/// sorted, so that no date occurs twice; the dates are those that were
/// there and those that were added; a day that was there is there
/// unchanged; and of the added days with a new date the first counts.
pub proof fn lemma_with_days(days: Seq<MealDayView>, more: Seq<MealDayView>)
    requires
        strictly_sorted(days),
    ensures
        strictly_sorted(with_days(days, more)),
        forall|date: int|
            has_date(with_days(days, more), date) <==> has_date(days, date) || has_date(
                more,
                date,
            ),
        forall|date: int|
            has_date(days, date) ==> day_on(with_days(days, more), date) == day_on(days, date),
        forall|k: int|
            0 <= k < more.len() && !has_date(days, more[k].date) && !has_date(
                more.take(k),
                more[k].date,
            ) ==> day_on(with_days(days, more), more[k].date) == Some(#[trigger] more[k]),
    decreases more.len(),
{
    if more.len() > 0 {
        let before = more.drop_last();
        let mid = with_days(days, before);
        let last = more.last();
        let after = with_days(days, more);
        lemma_with_days(days, before);
        lemma_with_day(mid, last);
        assert forall|date: int|
            has_date(after, date) <==> has_date(days, date) || has_date(more, date) by {
            if has_date(before, date) {
                let i = index_on(before, date);
                assert(more[i].date == date);
            }
            if has_date(more, date) {
                let i = index_on(more, date);
                if i < before.len() {
                    assert(before[i].date == date);
                }
            }
            assert(more[more.len() - 1].date == last.date);
        }
        assert forall|k: int|
            0 <= k < more.len() && !has_date(days, more[k].date) && !has_date(
                more.take(k),
                more[k].date,
            ) implies day_on(after, more[k].date) == Some(#[trigger] more[k]) by {
            if k < before.len() {
                assert(before.take(k) =~= more.take(k));
                assert(before[k] == more[k]);
                assert(day_on(mid, more[k].date) == Some(more[k]));
                assert(has_date(before, before[k].date));
                assert(has_date(mid, more[k].date));
            } else {
                assert(more.take(k) =~= before);
                assert(!has_date(mid, last.date));
            }
        }
    }
}

/// The plan that is built from upstream's records has its days sorted; its
/// dates are those of the records; and the day of each date is that of the
/// first record with that date.
pub proof fn lemma_plan_days(records: Seq<ApiPlan>)
    ensures
        strictly_sorted(plan_days(records)),
        forall|k: int|
            0 <= k < records.len() ==> has_date(
                plan_days(records),
                day_of_record(#[trigger] records[k]).date,
            ),
        forall|date: int|
            has_date(plan_days(records), date) ==> exists|k: int|
                0 <= k < records.len() && day_of_record(#[trigger] records[k]).date == date,
        forall|k: int|
            0 <= k < records.len() && (forall|j: int|
                0 <= j < k ==> day_of_record(#[trigger] records[j]).date != day_of_record(
                    records[k],
                ).date) ==> day_on(plan_days(records), day_of_record(records[k]).date) == Some(
                day_of_record(#[trigger] records[k]),
            ),
{
    let days = records.map_values(|r: ApiPlan| day_of_record(r));
    let none = Seq::<MealDayView>::empty();
    lemma_with_days(none, days);
    assert forall|k: int| 0 <= k < records.len() implies has_date(
        plan_days(records),
        day_of_record(#[trigger] records[k]).date,
    ) by {
        assert(days[k].date == day_of_record(records[k]).date);
        assert(has_date(days, days[k].date));
    }
    assert forall|date: int| has_date(plan_days(records), date) implies exists|k: int|
        0 <= k < records.len() && day_of_record(#[trigger] records[k]).date == date by {
        assert(has_date(days, date));
        let k = index_on(days, date);
        assert(day_of_record(records[k]).date == date);
    }
    assert forall|k: int|
        0 <= k < records.len() && (forall|j: int|
            0 <= j < k ==> day_of_record(#[trigger] records[j]).date != day_of_record(
                records[k],
            ).date) implies day_on(plan_days(records), day_of_record(records[k]).date) == Some(
        day_of_record(#[trigger] records[k]),
    ) by {
        if has_date(days.take(k), days[k].date) {
            let j = index_on(days.take(k), days[k].date);
            assert(days.take(k)[j] == day_of_record(records[j]));
        }
        assert(days[k] == day_of_record(records[k]));
    }
}

/// Taking a date out keeps the days sorted, leaves no day of that date,
/// and touches no other day.
pub proof fn lemma_without_date(days: Seq<MealDayView>, date: int)
    requires
        strictly_sorted(days),
    ensures
        strictly_sorted(without_date(days, date)),
        !has_date(without_date(days, date), date),
        forall|other: int|
            other != date ==> day_on(without_date(days, date), other) == day_on(days, other),
        !has_date(days, date) ==> without_date(days, date) == days,
{
    let after = without_date(days, date);
    if has_date(days, date) {
        let k = index_on(days, date);
        assert forall|i: int| 0 <= i < after.len() implies (#[trigger] after[i]) == days[if i
            < k {
            i
        } else {
            i + 1
        }] by {}
        assert forall|i: int, j: int| 0 <= i < j < after.len() implies after[i].date
            < after[j].date by {
            let i2 = if i < k {
                i
            } else {
                i + 1
            };
            let j2 = if j < k {
                j
            } else {
                j + 1
            };
            assert(days[i2].date < days[j2].date);
        }
        if has_date(after, date) {
            let i = index_on(after, date);
            let i2 = if i < k {
                i
            } else {
                i + 1
            };
            assert(days[i2].date == date);
            if i2 < k {
                assert(days[i2].date < days[k].date);
            } else {
                assert(days[k].date < days[i2].date);
            }
        }
        assert forall|other: int| other != date implies day_on(after, other) == day_on(
            days,
            other,
        ) by {
            if has_date(days, other) {
                let i = index_on(days, other);
                let i1 = if i < k {
                    i
                } else {
                    i - 1
                };
                assert(after[i1] == days[i]);
                assert(has_date(after, other));
                let j = index_on(after, other);
                if j != i1 {
                    if j < i1 {
                        assert(after[j].date < after[i1].date);
                    } else {
                        assert(after[i1].date < after[j].date);
                    }
                }
            }
            if has_date(after, other) {
                let j = index_on(after, other);
                let j2 = if j < k {
                    j
                } else {
                    j + 1
                };
                assert(days[j2].date == other);
            }
        }
    }
}

/// A count of dated records at the front, followed by the end or by a
/// record without a date, is the dated prefix.
pub proof fn lemma_dated_prefix_is(records: Seq<ApiPlan>, k: int)
    requires
        0 <= k <= records.len(),
        forall|j: int| 0 <= j < k ==> dated(#[trigger] records[j]),
        k < records.len() ==> !dated(records[k]),
    ensures
        dated_prefix(records) == k,
    decreases records.len(),
{
    if k > 0 {
        let rest = records.skip(1);
        assert(dated(records[0]));
        assert forall|j: int| 0 <= j < k - 1 implies dated(#[trigger] rest[j]) by {
            assert(rest[j] == records[j + 1]);
        }
        if k - 1 < rest.len() {
            assert(rest[k - 1] == records[k]);
        }
        lemma_dated_prefix_is(rest, k - 1);
    }
}

impl View for MealPlan {
    type V = MealPlanView;

    closed spec fn view(&self) -> MealPlanView {
        MealPlanView { days: days_view(self.days@), mensa_name: self.mensa_name@ }
    }
}

impl MealPlan {
    #[verifier::type_invariant]
    spec fn inv(self) -> bool {
        strictly_sorted(days_view(self.days@))
    }

    /// A plan without days.
    pub fn new(mensa_name: String) -> (plan: MealPlan)
        ensures
            plan@ == (MealPlanView { days: Seq::empty(), mensa_name: mensa_name@ }),
    {
        let plan = MealPlan { mensa_name, days: Vec::new() };
        assert(days_view(plan.days@) =~= Seq::empty());
        plan
    }

    /// Searches the days for a date by halving. Gives whether the date was
    /// found, and the place at which it stands or belongs.
    fn search(&self, day: &Date) -> (r: (bool, usize))
        ensures
            r.0 == has_date(self@.days, day@),
            r.1 == rank(self@.days, day@),
            r.1 <= self@.days.len(),
            r.0 ==> r.1 < self@.days.len() && self@.days[r.1 as int].date == day@ && r.1
                == index_on(self@.days, day@),
            strictly_sorted(self@.days),
    {
        proof {
            use_type_invariant(self);
        }
        let ghost days = days_view(self.days@);
        let key = day.days();
        let mut lo: usize = 0;
        let mut hi: usize = self.days.len();
        while lo < hi
            invariant
                lo <= hi <= self.days.len(),
                days == days_view(self.days@),
                strictly_sorted(days),
                key == day@,
                forall|i: int| 0 <= i < lo ==> (#[trigger] days[i]).date < key,
                forall|i: int| hi <= i < days.len() ==> (#[trigger] days[i]).date > key,
            decreases hi - lo,
        {
            let mid = lo + (hi - lo) / 2;
            let at = self.days[mid].date().days();
            assert(at == days[mid as int].date);
            if at == key {
                proof {
                    assert forall|i: int| 0 <= i < mid implies (#[trigger] days[i]).date
                        < key by {
                        assert(days[i].date < days[mid as int].date);
                    }
                    assert forall|i: int| mid <= i < days.len() implies (#[trigger] days[i]).date
                        >= key by {
                        if i > mid {
                            assert(days[mid as int].date < days[i].date);
                        }
                    }
                    lemma_rank_is(days, key as int, mid as int);
                    assert(has_date(days, key as int));
                    let j = index_on(days, key as int);
                    if j < mid {
                        assert(days[j].date < days[mid as int].date);
                    } else if j > mid {
                        assert(days[mid as int].date < days[j].date);
                    }
                }
                return (true, mid);
            } else if at < key {
                proof {
                    assert forall|i: int| 0 <= i < mid + 1 implies (#[trigger] days[i]).date
                        < key by {
                        if i < mid {
                            assert(days[i].date < days[mid as int].date);
                        }
                    }
                }
                lo = mid + 1;
            } else {
                proof {
                    assert forall|i: int| mid <= i < days.len() implies (#[trigger] days[i]).date
                        > key by {
                        if i > mid {
                            assert(days[mid as int].date < days[i].date);
                        }
                    }
                }
                hi = mid;
            }
        }
        proof {
            lemma_rank_is(days, key as int, lo as int);
            if has_date(days, key as int) {
                let j = index_on(days, key as int);
                assert(days[j].date == key);
            }
        }
        (false, lo)
    }

    /// Adds a day under its date. Where the plan has a day of that date
    /// already, that day stays and nothing changes.
    pub fn add_day(&mut self, day: Date, meals: MealDay)
        requires
            meals@.date == day@,
        ensures
            final(self)@.mensa_name == old(self)@.mensa_name,
            final(self)@.days == with_day(old(self)@.days, meals@),
            strictly_sorted(final(self)@.days),
    {
        let (found, i) = self.search(&day);
        proof {
            lemma_with_day(self@.days, meals@);
        }
        if !found {
            let mut days: Vec<MealDay> = Vec::new();
            std::mem::swap(&mut days, &mut self.days);
            let ghost before = days_view(days@);
            let ghost added = meals@;
            days.insert(i, meals);
            assert(days_view(days@) =~= before.insert(i as int, added));
            self.days = days;
        }
    }

    /// Takes the day of a date out. Where the plan has no day of that
    /// date, nothing changes.
    pub fn remove_day(&mut self, day: Date)
        ensures
            final(self)@.mensa_name == old(self)@.mensa_name,
            final(self)@.days == without_date(old(self)@.days, day@),
            strictly_sorted(final(self)@.days),
            !has_date(final(self)@.days, day@),
    {
        let (found, i) = self.search(&day);
        proof {
            lemma_without_date(self@.days, day@);
        }
        if found {
            let mut days: Vec<MealDay> = Vec::new();
            std::mem::swap(&mut days, &mut self.days);
            let ghost before = days_view(days@);
            days.remove(i);
            assert(days_view(days@) =~= before.remove(i as int));
            self.days = days;
        }
    }

    /// The facility's display name.
    pub fn mensa(&self) -> (name: &str)
        ensures
            name@ == self@.mensa_name,
    {
        self.mensa_name.as_str()
    }

    /// The day of a date, if the plan has one.
    pub fn get_day_internal(&self, day: &Date) -> (r: Option<&MealDay>)
        ensures
            match r {
                Some(found) => day_on(self@.days, day@) == Some(found@),
                None => day_on(self@.days, day@) is None,
            },
    {
        let (found, i) = self.search(day);
        if found {
            Some(&self.days[i])
        } else {
            None
        }
    }

    /// Looks a date up: the plan's own day where it has one, else the date
    /// to ask for elsewhere.
    pub fn get_day(&self, day: &Date) -> (r: DayLookup<'_>)
        ensures
            match r {
                DayLookup::Cached(found) => day_on(self@.days, day@) == Some(found@),
                DayLookup::Request(date) => day_on(self@.days, day@) is None && date == *day,
            },
    {
        match self.get_day_internal(day) {
            Some(found) => DayLookup::Cached(found),
            None => DayLookup::Request(*day),
        }
    }

    /// All days, earliest first.
    pub fn days(&self) -> (days: &Vec<MealDay>)
        ensures
            days_view(days@) == self@.days,
            strictly_sorted(self@.days),
    {
        proof {
            use_type_invariant(self);
        }
        &self.days
    }

    /// Adds the day that an upstream record describes, given the date that
    /// was read from the record's date text. Where no date could be read,
    /// the plan stays as it is and the error names the text.
    pub fn add_record(&mut self, date: Option<Date>, record: ApiPlan) -> (r: Result<
        (),
        MealPlanParseError,
    >)
        ensures
            final(self)@.mensa_name == old(self)@.mensa_name,
            strictly_sorted(final(self)@.days),
            match date {
                Some(d) => r is Ok && final(self)@.days == with_day(
                    old(self)@.days,
                    MealDayView { date: d@, categories: grouped(record.essen@) },
                ),
                None => plan_result_text(r) == Some(record.tag.datum_iso@) && final(self)@
                    == old(self)@,
            },
    {
        proof {
            use_type_invariant(&*self);
        }
        match date {
            Some(date) => {
                let day = MealDay::from_raw(date, record.essen);
                self.add_day(date, day);
                Ok(())
            },
            None => Err(MealPlanParseError::InvalidDate(record.tag.datum_iso)),
        }
    }

    /// Builds the plan that an upstream answer describes. The records may
    /// come in any order. A date that cannot be read fails the whole
    /// answer: the error is that of the first such record.
    pub fn try_from(value: ApiResult) -> (r: Result<MealPlan, MealPlanParseError>)
        ensures
            plan_result_view(r) == parsed_plan(value),
            r matches Ok(plan) ==> strictly_sorted(plan@.days),
    {
        let ghost records = value.result@;
        let ghost name = value.mensaname@;
        let mut plan = MealPlan::new(value.mensaname);
        assert(records.take(0).map_values(|r: ApiPlan| day_of_record(r)) =~= Seq::empty());
        for record in it: value.result
            invariant
                it.seq() == records,
                plan@.mensa_name == name,
                plan@.days == plan_days(records.take(it.index() as int)),
                forall|j: int| 0 <= j < it.index() ==> dated(#[trigger] records[j]),
        {
            proof {
                let upto = records.take(it.index() + 1).map_values(|r: ApiPlan| day_of_record(r));
                let before = records.take(it.index() as int).map_values(
                    |r: ApiPlan| day_of_record(r),
                );
                assert(upto.drop_last() =~= before);
                assert(upto.last() == day_of_record(record));
            }
            let date = Date::parse(record.tag.datum_iso.as_str());
            if date.is_none() {
                proof {
                    lemma_dated_prefix_is(records, it.index() as int);
                }
            }
            match plan.add_record(date, record) {
                Ok(()) => {},
                Err(e) => {
                    return Err(e);
                },
            }
        }
        proof {
            lemma_dated_prefix_is(records, records.len() as int);
            assert(records.take(records.len() as int) =~= records);
            use_type_invariant(&plan);
        }
        Ok(plan)
    }
}

impl Clone for MealPlan {
    fn clone(&self) -> (r: Self)
        ensures
            r@ == self@,
    {
        proof {
            use_type_invariant(self);
        }
        let days = self.days.clone();
        assert(days_view(days@) =~= days_view(self.days@));
        MealPlan { days, mensa_name: self.mensa_name.clone() }
    }
}

} // verus!
