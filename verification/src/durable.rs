//! The documents of the durable store, and what to ask of it.
//!
//! The store keeps two collections. One holds a document for each facility
//! and language, with an identifier that the store assigns. The other holds
//! a document for each day, under the facility's identifier and the date.
//! This module decides which documents to look for and to write; sending
//! the requests is left to the caller.
use crate::date::{iso_date_text, Date};
use crate::meal::{MealDay, MealDayView};
use crate::plan::{days_view, MealPlan};
use crate::plans::lang_or_default;
use crate::text::{owned_text, text_of};
use vstd::prelude::*;

verus! {

/// The identifier that the store gives a facility's document.
#[derive(Debug, Clone, Copy, PartialEq, Eq, Hash)]
pub struct RecordId {
    pub bytes: [u8; 12],
}

/// The document of one facility in one language.
#[derive(Debug)]
pub struct MensaData {
    pub _id: Option<RecordId>,
    pub name: String,
    pub mensa_id: String,
    pub lang: String,
}

pub struct MensaDataView {
    pub _id: Option<RecordId>,
    pub name: Seq<char>,
    pub mensa_id: Seq<char>,
    pub lang: Seq<char>,
}

/// The document of one day of one facility.
#[derive(Debug)]
pub struct MensaMealDay {
    pub mensa_record_id: RecordId,
    pub meal: MealDay,
}

pub struct MensaMealDayView {
    pub mensa_record_id: RecordId,
    pub meal: MealDayView,
}

/// What picks out a facility's document.
#[derive(Debug)]
pub struct FacilityFilter {
    pub mensa_id: String,
    pub lang: String,
}

pub struct FacilityFilterView {
    pub mensa_id: Seq<char>,
    pub lang: Seq<char>,
}

/// What picks out a day's document: the facility's identifier and the date
/// as text.
#[derive(Debug)]
pub struct DayFilter {
    pub mensa_record_id: RecordId,
    pub date: String,
}

pub struct DayFilterView {
    pub mensa_record_id: RecordId,
    pub date: Seq<char>,
}

/// A facility's document to put in place of the one that the filter picks
/// out, or to insert where there is none.
#[derive(Debug)]
pub struct FacilityUpsert {
    pub filter: FacilityFilter,
    pub data: MensaData,
}

/// A day's document to put in place of the one that the filter picks out, or
/// to insert where there is none.
#[derive(Debug)]
pub struct DayUpsert {
    pub filter: DayFilter,
    pub data: MensaMealDay,
}

pub struct DayUpsertView {
    pub filter: DayFilterView,
    pub data: MensaMealDayView,
}

/// The two collections of the durable store, by name.
#[derive(Debug)]
pub struct MealCollections {
    meals: String,
    mensas: String,
}

impl View for MensaData {
    type V = MensaDataView;

    open spec fn view(&self) -> MensaDataView {
        MensaDataView {
            _id: self._id,
            name: self.name@,
            mensa_id: self.mensa_id@,
            lang: self.lang@,
        }
    }
}

impl View for MensaMealDay {
    type V = MensaMealDayView;

    open spec fn view(&self) -> MensaMealDayView {
        MensaMealDayView { mensa_record_id: self.mensa_record_id, meal: self.meal@ }
    }
}

impl View for FacilityFilter {
    type V = FacilityFilterView;

    open spec fn view(&self) -> FacilityFilterView {
        FacilityFilterView { mensa_id: self.mensa_id@, lang: self.lang@ }
    }
}

impl View for DayFilter {
    type V = DayFilterView;

    open spec fn view(&self) -> DayFilterView {
        DayFilterView { mensa_record_id: self.mensa_record_id, date: self.date@ }
    }
}

impl View for DayUpsert {
    type V = DayUpsertView;

    open spec fn view(&self) -> DayUpsertView {
        DayUpsertView { filter: self.filter@, data: self.data@ }
    }
}

/// The filter for the document of a facility in a language; a query that
/// names no language means the default one.
pub open spec fn facility_filter(mensa_id: Seq<char>, lang: Option<Seq<char>>) -> FacilityFilterView {
    FacilityFilterView { mensa_id, lang: lang_or_default(lang) }
}

/// The filter for the document of a day, given the facility's document as
/// the store returned it: there is none where the facility is unknown to
/// the store or its document has no identifier.
pub open spec fn day_filter(facility: Option<MensaDataView>, date: int) -> Option<DayFilterView> {
    match facility {
        Some(MensaDataView { _id: Some(id), .. }) => Some(
            DayFilterView { mensa_record_id: id, date: iso_date_text(date) },
        ),
        _ => None,
    }
}

/// The day that a day's document holds.
pub open spec fn day_in(found: Option<MensaMealDayView>) -> Option<MealDayView> {
    match found {
        Some(doc) => Some(doc.meal),
        None => None,
    }
}

/// The document to write for one day of a facility.
pub open spec fn day_upsert(id: RecordId, day: MealDayView) -> DayUpsertView {
    DayUpsertView {
        filter: DayFilterView { mensa_record_id: id, date: iso_date_text(day.date) },
        data: MensaMealDayView { mensa_record_id: id, meal: day },
    }
}

/// The documents to write for the days of a plan, in the order of the days:
/// one for each day where the facility's document has an identifier, none
/// at all where it has not.
pub open spec fn day_upserts(facility: MensaDataView, days: Seq<MealDayView>) -> Seq<DayUpsertView> {
    match facility._id {
        Some(id) => days.map_values(|day: MealDayView| day_upsert(id, day)),
        None => Seq::empty(),
    }
}

pub open spec fn upserts_view(writes: Seq<DayUpsert>) -> Seq<DayUpsertView> {
    writes.map_values(|w: DayUpsert| w@)
}

impl MealCollections {
    /// The collections under their usual names, `meals` and `mensas`.
    pub fn new() -> (r: MealCollections)
        ensures
            r.meals_name() == "meals"@,
            r.mensas_name() == "mensas"@,
    {
        MealCollections { meals: "meals".to_owned(), mensas: "mensas".to_owned() }
    }

    pub closed spec fn meals_name(&self) -> Seq<char> {
        self.meals@
    }

    pub closed spec fn mensas_name(&self) -> Seq<char> {
        self.mensas@
    }

    /// Name of the collection of days.
    pub fn meals(&self) -> (r: &str)
        ensures
            r@ == self.meals_name(),
    {
        self.meals.as_str()
    }

    /// Name of the collection of facilities.
    pub fn mensas(&self) -> (r: &str)
        ensures
            r@ == self.mensas_name(),
    {
        self.mensas.as_str()
    }

    /// First step of reading a day: the facility's document to look for.
    pub fn get_day(&self, mensa_id: &str, lang: Option<&str>) -> (r: FacilityFilter)
        ensures
            r@ == facility_filter(mensa_id@, text_of(lang)),
    {
        FacilityFilter {
            mensa_id: mensa_id.to_owned(),
            lang: match lang {
                Some(l) => l.to_owned(),
                None => "en".to_owned(),
            },
        }
    }

    /// Second step of reading a day: given what the store returned for the
    /// facility, the day's document to look for. `None` ends the reading
    /// without a day.
    pub fn get_day_of(&self, facility: &Option<MensaData>, day: &Date) -> (r: Option<DayFilter>)
        ensures
            match r {
                Some(filter) => day_filter(facility_view(*facility), day@) == Some(filter@),
                None => day_filter(facility_view(*facility), day@) is None,
            },
    {
        match facility {
            Some(doc) => match doc._id {
                Some(id) => Some(DayFilter { mensa_record_id: id, date: day.to_iso() }),
                None => None,
            },
            None => None,
        }
    }

    /// Last step of reading a day: the day in what the store returned.
    pub fn day_found(&self, found: Option<MensaMealDay>) -> (r: Option<MealDay>)
        ensures
            day_view(r) == day_in(doc_view(found)),
    {
        match found {
            Some(doc) => Some(doc.meal),
            None => None,
        }
    }

    /// First step of storing a plan: the facility's document to write. A
    /// plan that is stored without a language is stored under the default
    /// one.
    pub fn store_plan(&self, mensa_id: String, lang: Option<String>, plan: &MealPlan) -> (r:
        FacilityUpsert)
        ensures
            r.filter@ == facility_filter(mensa_id@, owned_text(lang)),
            r.data@ == (MensaDataView {
                _id: None,
                name: plan@.mensa_name,
                mensa_id: mensa_id@,
                lang: lang_or_default(owned_text(lang)),
            }),
    {
        let lang = match lang {
            Some(l) => l,
            None => "en".to_owned(),
        };
        FacilityUpsert {
            filter: FacilityFilter { mensa_id: mensa_id.clone(), lang: lang.clone() },
            data: MensaData { _id: None, mensa_id, lang, name: plan.mensa().to_owned() },
        }
    }

    /// Second step of storing a plan: given the facility's document as the
    /// store holds it after the first step, the documents of the days to
    /// write, in the order of the days. Without an identifier on the
    /// facility's document no day is written.
    pub fn store_days(&self, facility: &MensaData, plan: &MealPlan) -> (r: Vec<DayUpsert>)
        ensures
            upserts_view(r@) == day_upserts(facility@, plan@.days),
    {
        let mut writes: Vec<DayUpsert> = Vec::new();
        match facility._id {
            Some(id) => {
                let days = plan.days();
                let mut i: usize = 0;
                while i < days.len()
                    invariant
                        i <= days.len(),
                        days_view(days@) == plan@.days,
                        upserts_view(writes@) == day_upserts(facility@, plan@.days.take(i as int)),
                        facility._id == Some(id),
                    decreases days.len() - i,
                {
                    let day = &days[i];
                    let ghost before = upserts_view(writes@);
                    writes.push(
                        DayUpsert {
                            filter: DayFilter { mensa_record_id: id, date: day.date().to_iso() },
                            data: MensaMealDay { mensa_record_id: id, meal: day.clone() },
                        },
                    );
                    proof {
                        assert(plan@.days[i as int] == days@[i as int]@);
                        assert(upserts_view(writes@) =~= before.push(
                            day_upsert(id, plan@.days[i as int]),
                        ));
                        assert(day_upserts(facility@, plan@.days.take(i + 1)) =~= day_upserts(
                            facility@,
                            plan@.days.take(i as int),
                        ).push(day_upsert(id, plan@.days[i as int])));
                    }
                    i += 1;
                }
                assert(plan@.days.take(i as int) =~= plan@.days);
            },
            None => {
                assert(upserts_view(writes@) =~= Seq::empty());
            },
        }
        writes
    }
}

impl Clone for MealCollections {
    fn clone(&self) -> (r: Self)
        ensures
            r == *self,
    {
        MealCollections { meals: self.meals.clone(), mensas: self.mensas.clone() }
    }
}

pub open spec fn facility_view(facility: Option<MensaData>) -> Option<MensaDataView> {
    match facility {
        Some(doc) => Some(doc@),
        None => None,
    }
}

pub open spec fn doc_view(found: Option<MensaMealDay>) -> Option<MensaMealDayView> {
    match found {
        Some(doc) => Some(doc@),
        None => None,
    }
}

pub open spec fn day_view(day: Option<MealDay>) -> Option<MealDayView> {
    match day {
        Some(d) => Some(d@),
        None => None,
    }
}

} // verus!
