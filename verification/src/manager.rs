//! Answering queries from three tiers: the cache in memory, the durable
//! store, and the upstream service.
//!
//! Each query runs through the tiers in that order and stops at the first
//! that answers. The manager owns the cache and decides, step by step,
//! what has to happen next; it performs no request itself. A caller sends
//! what a step asks for and hands the outcome to the function that decides
//! the following step:
//!
//! * a plan is answered from memory, or fetched (`get_plan`, then
//!   `fetched`);
//! * a day is answered from memory, else read from the durable store where
//!   one is configured, else fetched (`get_day`, then `get_day_stored`,
//!   then `get_day_fetched`);
//! * a refresh fetches every known plan again (`fetch_all`, then `fetched`
//!   for each request).
use crate::date::Date;
use crate::durable::{day_view, MealCollections};
use crate::meal::{MealDay, MealDayView};
use crate::plan::{day_on, parsed_plan, MealPlan, MealPlanParseError, MealPlanView};
use crate::plans::{key_of, keys_with, lemma_pair_round_trip, pair_of, MealPlans};
use crate::raw::{query_for, ApiQuery, ApiQueryView, ApiResult};
use crate::text::{owned_text, text_of};
use vstd::prelude::*;

verus! {

/// Why a fetch gave no answer to read.
#[derive(Debug)]
pub enum UpstreamFailure {
    /// The service could not be reached, or answered with a failure
    /// status.
    Transport(String),
    /// The answer did not have the expected shape.
    Decode(String),
}

pub enum UpstreamFailureView {
    Transport(Seq<char>),
    Decode(Seq<char>),
}

/// Why a plan could not be had from upstream.
#[derive(Debug)]
pub enum MealPlanError {
    Upstream(UpstreamFailure),
    ParsePlan(MealPlanParseError),
}

pub enum MealPlanErrorView {
    Upstream(UpstreamFailureView),
    /// Holds the text that could not be read as a date.
    ParsePlan(Seq<char>),
}

/// A day to read from the durable store.
#[derive(Debug)]
pub struct DayRequest {
    pub mensa_id: String,
    pub lang: Option<String>,
    pub day: Date,
}

pub struct DayRequestView {
    pub mensa_id: Seq<char>,
    pub lang: Option<Seq<char>>,
    pub day: int,
}

/// A plan to write to the durable store, in the background.
#[derive(Debug)]
pub struct StoreJob {
    pub mensa_id: String,
    pub lang: Option<String>,
    pub plan: MealPlan,
}

pub struct StoreJobView {
    pub mensa_id: Seq<char>,
    pub lang: Option<Seq<char>>,
    pub plan: MealPlanView,
}

/// What a query for a plan needs next.
#[derive(Debug)]
pub enum PlanStep {
    /// The plan is in memory: answer with it.
    Cached(MealPlan),
    /// Send this request to upstream.
    Fetch(ApiQuery),
}

pub enum PlanStepView {
    Cached(MealPlanView),
    Fetch(ApiQueryView),
}

/// What a query for a day needs next.
#[derive(Debug)]
pub enum DayStep {
    /// The day is at hand: answer with it.
    Found(MealDay),
    /// Read this day from the durable store.
    ReadDurable(DayRequest),
    /// Send this request to upstream.
    Fetch(ApiQuery),
}

pub enum DayStepView {
    Found(MealDayView),
    ReadDurable(DayRequestView),
    Fetch(ApiQueryView),
}

/// The cache of plans, and whether there is a durable store behind it.
#[derive(Debug)]
pub struct MealPlanManager {
    collections: Option<MealCollections>,
    data: MealPlans,
}

pub struct ManagerView {
    /// Whether a durable store is configured.
    pub durable: bool,
    /// The plans in memory, by key.
    pub data: Map<Seq<char>, MealPlanView>,
}

impl View for UpstreamFailure {
    type V = UpstreamFailureView;

    open spec fn view(&self) -> UpstreamFailureView {
        match self {
            UpstreamFailure::Transport(m) => UpstreamFailureView::Transport(m@),
            UpstreamFailure::Decode(m) => UpstreamFailureView::Decode(m@),
        }
    }
}

impl View for MealPlanError {
    type V = MealPlanErrorView;

    open spec fn view(&self) -> MealPlanErrorView {
        match self {
            MealPlanError::Upstream(f) => MealPlanErrorView::Upstream(f@),
            MealPlanError::ParsePlan(MealPlanParseError::InvalidDate(text)) => {
                MealPlanErrorView::ParsePlan(text@)
            },
        }
    }
}

impl View for DayRequest {
    type V = DayRequestView;

    open spec fn view(&self) -> DayRequestView {
        DayRequestView { mensa_id: self.mensa_id@, lang: owned_text(self.lang), day: self.day@ }
    }
}

impl View for StoreJob {
    type V = StoreJobView;

    open spec fn view(&self) -> StoreJobView {
        StoreJobView { mensa_id: self.mensa_id@, lang: owned_text(self.lang), plan: self.plan@ }
    }
}

impl View for PlanStep {
    type V = PlanStepView;

    open spec fn view(&self) -> PlanStepView {
        match self {
            PlanStep::Cached(plan) => PlanStepView::Cached(plan@),
            PlanStep::Fetch(query) => PlanStepView::Fetch(query@),
        }
    }
}

impl View for DayStep {
    type V = DayStepView;

    open spec fn view(&self) -> DayStepView {
        match self {
            DayStep::Found(day) => DayStepView::Found(day@),
            DayStep::ReadDurable(request) => DayStepView::ReadDurable(request@),
            DayStep::Fetch(query) => DayStepView::Fetch(query@),
        }
    }
}

impl View for MealPlanManager {
    type V = ManagerView;

    closed spec fn view(&self) -> ManagerView {
        ManagerView { durable: self.collections is Some, data: self.data@ }
    }
}

/// The day of a facility, a language and a date that is in memory, if
/// one is.
pub open spec fn memory_day(
    data: Map<Seq<char>, MealPlanView>,
    mensa: Seq<char>,
    lang: Option<Seq<char>>,
    day: int,
) -> Option<MealDayView> {
    if data.contains_key(key_of(mensa, lang)) {
        day_on(data[key_of(mensa, lang)].days, day)
    } else {
        None
    }
}

/// The first step of a query for a plan: memory answers, or upstream is
/// asked. The durable store holds single days only and is not asked for
/// plans.
pub open spec fn plan_step(
    manager: ManagerView,
    mensa: Seq<char>,
    lang: Option<Seq<char>>,
) -> PlanStepView {
    if manager.data.contains_key(key_of(mensa, lang)) {
        PlanStepView::Cached(manager.data[key_of(mensa, lang)])
    } else {
        PlanStepView::Fetch(query_for(mensa, lang))
    }
}

/// The first step of a query for a day: memory answers; failing that the
/// durable store is asked where there is one, upstream where there is
/// none.
pub open spec fn day_step(
    manager: ManagerView,
    mensa: Seq<char>,
    lang: Option<Seq<char>>,
    day: int,
) -> DayStepView {
    match memory_day(manager.data, mensa, lang, day) {
        Some(found) => DayStepView::Found(found),
        None => if manager.durable {
            DayStepView::ReadDurable(DayRequestView { mensa_id: mensa, lang, day })
        } else {
            DayStepView::Fetch(query_for(mensa, lang))
        },
    }
}

/// The step after the durable store was asked: its day answers the query;
/// without one, and likewise where the store failed, upstream is asked.
pub open spec fn day_step_stored(
    request: DayRequestView,
    found: Result<Option<MealDayView>, Seq<char>>,
) -> DayStepView {
    match found {
        Ok(Some(day)) => DayStepView::Found(day),
        _ => DayStepView::Fetch(query_for(request.mensa_id, request.lang)),
    }
}

/// What a fetch yields: the plan that the answer describes, or why there
/// is none.
pub open spec fn fetched_plan(answer: Result<ApiResult, UpstreamFailure>) -> Result<
    MealPlanView,
    MealPlanErrorView,
> {
    match answer {
        Ok(raw) => match parsed_plan(raw) {
            Ok(plan) => Ok(plan),
            Err(text) => Err(MealPlanErrorView::ParsePlan(text)),
        },
        Err(failure) => Err(MealPlanErrorView::Upstream(failure@)),
    }
}

/// The plans in memory after a fetch: a plan that was fetched replaces the
/// one under its key; a failed fetch changes nothing.
pub open spec fn data_fetched(
    data: Map<Seq<char>, MealPlanView>,
    query: ApiQueryView,
    answer: Result<ApiResult, UpstreamFailure>,
) -> Map<Seq<char>, MealPlanView> {
    match fetched_plan(answer) {
        Ok(plan) => data.insert(key_of(query.mensa_id, query.lang), plan),
        Err(_) => data,
    }
}

/// The write to the durable store that follows a fetch: the fetched plan,
/// where there is a plan and a store.
pub open spec fn job_fetched(
    durable: bool,
    query: ApiQueryView,
    answer: Result<ApiResult, UpstreamFailure>,
) -> Option<StoreJobView> {
    match fetched_plan(answer) {
        Ok(plan) => if durable {
            Some(StoreJobView { mensa_id: query.mensa_id, lang: query.lang, plan })
        } else {
            None
        },
        Err(_) => None,
    }
}

/// The day that answers a query after a fetch: the day of the asked date
/// in the fetched plan.
pub open spec fn day_fetched(answer: Result<ApiResult, UpstreamFailure>, day: int) -> Option<
    MealDayView,
> {
    match fetched_plan(answer) {
        Ok(plan) => day_on(plan.days, day),
        Err(_) => None,
    }
}

pub open spec fn fetch_view(r: Result<MealPlan, MealPlanError>) -> Result<
    MealPlanView,
    MealPlanErrorView,
> {
    match r {
        Ok(plan) => Ok(plan@),
        Err(e) => Err(e@),
    }
}

pub open spec fn job_view(job: Option<StoreJob>) -> Option<StoreJobView> {
    match job {
        Some(j) => Some(j@),
        None => None,
    }
}

pub open spec fn stored_view(found: Result<Option<MealDay>, String>) -> Result<
    Option<MealDayView>,
    Seq<char>,
> {
    match found {
        Ok(day) => Ok(day_view(day)),
        Err(message) => Err(message@),
    }
}

/// The request that refreshes the plan under a key.
pub open spec fn refresh_query(key: Seq<char>) -> ApiQueryView {
    let pair = pair_of(key).unwrap();
    query_for(pair.0, Some(pair.1))
}

/// A day that memory holds is answered at once: no request goes to the
/// durable store or to upstream.
pub proof fn lemma_cached_day_needs_no_request(
    manager: ManagerView,
    mensa: Seq<char>,
    lang: Option<Seq<char>>,
    day: int,
)
    requires
        memory_day(manager.data, mensa, lang, day) is Some,
    ensures
        day_step(manager, mensa, lang, day) == DayStepView::Found(
            memory_day(manager.data, mensa, lang, day).unwrap(),
        ),
{
}

/// A day that memory lacks and the durable store holds is answered by the
/// store: upstream is not asked.
pub proof fn lemma_stored_day_needs_no_fetch(
    manager: ManagerView,
    mensa: Seq<char>,
    lang: Option<Seq<char>>,
    day: int,
    stored: MealDayView,
)
    requires
        manager.durable,
        memory_day(manager.data, mensa, lang, day) is None,
    ensures
        day_step(manager, mensa, lang, day) == DayStepView::ReadDurable(
            DayRequestView { mensa_id: mensa, lang, day },
        ),
        day_step_stored(DayRequestView { mensa_id: mensa, lang, day }, Ok(Some(stored)))
            == DayStepView::Found(stored),
{
}

/// A day that neither memory nor the durable store holds takes one fetch,
/// for the facility and language of the query. What the fetch answers is
/// in memory afterwards: the same query is then answered from there with
/// the same day.
pub proof fn lemma_missing_day_is_fetched_once(
    manager: ManagerView,
    mensa: Seq<char>,
    lang: Option<Seq<char>>,
    day: int,
    stored: Result<Option<MealDayView>, Seq<char>>,
    answer: Result<ApiResult, UpstreamFailure>,
)
    requires
        memory_day(manager.data, mensa, lang, day) is None,
        !(stored matches Ok(Some(_))),
    ensures
        manager.durable ==> day_step(manager, mensa, lang, day) == DayStepView::ReadDurable(
            DayRequestView { mensa_id: mensa, lang, day },
        ),
        manager.durable ==> day_step_stored(DayRequestView { mensa_id: mensa, lang, day }, stored)
            == DayStepView::Fetch(query_for(mensa, lang)),
        !manager.durable ==> day_step(manager, mensa, lang, day) == DayStepView::Fetch(
            query_for(mensa, lang),
        ),
        fetched_plan(answer) is Ok ==> memory_day(
            data_fetched(manager.data, query_for(mensa, lang), answer),
            mensa,
            lang,
            day,
        ) == day_fetched(answer, day),
        day_fetched(answer, day) matches Some(found) ==> day_step(
            ManagerView {
                durable: manager.durable,
                data: data_fetched(manager.data, query_for(mensa, lang), answer),
            },
            mensa,
            lang,
            day,
        ) == DayStepView::Found(found),
{
}

/// Refreshing a known plan adds no key: whatever upstream answers, the
/// plans in memory are those of the same facilities and languages as
/// before, and only the plan under the refreshed key can have changed.
pub proof fn lemma_refresh_keeps_keys(
    data: Map<Seq<char>, MealPlanView>,
    key: Seq<char>,
    answer: Result<ApiResult, UpstreamFailure>,
)
    requires
        data.contains_key(key),
        pair_of(key) is Some,
    ensures
        data_fetched(data, refresh_query(key), answer).dom() == data.dom(),
        forall|other: Seq<char>|
            other != key && data.contains_key(other) ==> data_fetched(
                data,
                refresh_query(key),
                answer,
            )[other] == data[other],
{
    lemma_pair_round_trip(key);
    assert(data_fetched(data, refresh_query(key), answer).dom() =~= data.dom());
}

impl MealPlanManager {
    /// The keys of the plans in memory, in the order in which they were
    /// first stored.
    pub closed spec fn keys(&self) -> Seq<Seq<char>> {
        self.data.keys()
    }

    /// The durable store's collections, where a store is configured.
    pub closed spec fn store(&self) -> Option<MealCollections> {
        self.collections
    }

    /// A manager with nothing in memory.
    pub fn new(collections: Option<MealCollections>) -> (manager: MealPlanManager)
        ensures
            manager@ == (ManagerView { durable: collections is Some, data: Map::empty() }),
            manager.store() == collections,
            manager.keys() == Seq::<Seq<char>>::empty(),
    {
        MealPlanManager { collections, data: MealPlans::new() }
    }

    /// The durable store's collections, where a store is configured.
    pub fn collections(&self) -> (r: &Option<MealCollections>)
        ensures
            *r == self.store(),
            r is Some == self@.durable,
    {
        &self.collections
    }

    /// First step of a query for a plan.
    pub fn get_plan(&self, mensa: &str, lang: Option<&str>) -> (step: PlanStep)
        ensures
            step@ == plan_step(self@, mensa@, text_of(lang)),
    {
        match self.data.get(mensa, lang) {
            Some(plan) => PlanStep::Cached(plan.clone()),
            None => PlanStep::Fetch(ApiQuery::new(mensa, lang)),
        }
    }

    /// The request that fetches a plan, whether or not memory has it.
    pub fn fetch_plan(&self, mensa: &str, lang: Option<&str>) -> (query: ApiQuery)
        ensures
            query@ == query_for(mensa@, text_of(lang)),
    {
        ApiQuery::new(mensa, lang)
    }

    /// Takes the outcome of a fetch. An answer that describes a plan puts
    /// that plan into memory and is handed back, with the write to the
    /// durable store that is to follow where a store is configured. A
    /// failure changes nothing and is handed back as the error.
    pub fn fetched(&mut self, query: &ApiQuery, answer: Result<ApiResult, UpstreamFailure>) -> (r: (
        Result<MealPlan, MealPlanError>,
        Option<StoreJob>,
    ))
        ensures
            fetch_view(r.0) == fetched_plan(answer),
            job_view(r.1) == job_fetched(old(self)@.durable, query@, answer),
            final(self)@.durable == old(self)@.durable,
            final(self)@.data == data_fetched(old(self)@.data, query@, answer),
            final(self).store() == old(self).store(),
            final(self).keys() == if fetched_plan(answer) is Ok {
                keys_with(old(self).keys(), key_of(query@.mensa_id, query@.lang))
            } else {
                old(self).keys()
            },
    {
        match answer {
            Ok(raw) => match MealPlan::try_from(raw) {
                Ok(plan) => {
                    let mensa_id = query.mensa_id().to_owned();
                    let lang = match query.lang() {
                        Some(l) => Some(l.to_owned()),
                        None => None,
                    };
                    let job = self.store_plan(mensa_id, lang, plan.clone());
                    (Ok(plan), job)
                },
                Err(e) => (Err(MealPlanError::ParsePlan(e)), None),
            },
            Err(failure) => (Err(MealPlanError::Upstream(failure)), None),
        }
    }

    /// Puts a plan into memory, in place of the one that was known for the
    /// facility and language, and names the write to the durable store
    /// that is to follow where a store is configured.
    pub fn store_plan(&mut self, mensa_id: String, lang: Option<String>, plan: MealPlan) -> (job:
        Option<StoreJob>)
        ensures
            final(self)@.durable == old(self)@.durable,
            final(self)@.data == old(self)@.data.insert(key_of(mensa_id@, owned_text(lang)), plan@),
            final(self).store() == old(self).store(),
            final(self).keys() == keys_with(old(self).keys(), key_of(mensa_id@, owned_text(lang))),
            job_view(job) == if old(self)@.durable {
                Some(StoreJobView { mensa_id: mensa_id@, lang: owned_text(lang), plan: plan@ })
            } else {
                None
            },
    {
        let copy = plan.clone();
        let lang_ref = match &lang {
            Some(l) => Some(l.as_str()),
            None => None,
        };
        self.data.insert(mensa_id.as_str(), lang_ref, plan);
        match &self.collections {
            Some(_) => Some(StoreJob { mensa_id, lang, plan: copy }),
            None => None,
        }
    }

    /// The requests of a refresh: one for each plan in memory, for the
    /// facility and language that its key stands for.
    pub fn fetch_all(&self) -> (queries: Vec<ApiQuery>)
        ensures
            self@.data == Map::<Seq<char>, MealPlanView>::empty() ==> queries@.len() == 0,
            queries@.len() == self@.data.dom().len(),
            queries@.len() == self.keys().len(),
            self.keys().no_duplicates(),
            self.keys().to_set() == self@.data.dom(),
            forall|i: int|
                0 <= i < queries@.len() ==> (#[trigger] queries@[i])@ == refresh_query(
                    self.keys()[i],
                ),
            forall|i: int|
                0 <= i < queries@.len() ==> key_of(
                    (#[trigger] queries@[i])@.mensa_id,
                    queries@[i]@.lang,
                ) == self.keys()[i],
    {
        let pairs = self.data.mensas();
        proof {
            assert forall|j: int| 0 <= j < self.keys().len() implies key_of(
                refresh_query(#[trigger] self.keys()[j]).mensa_id,
                refresh_query(self.keys()[j]).lang,
            ) == self.keys()[j] by {
                assert(pair_of(self.keys()[j]) == Some((pairs@[j].0@, pairs@[j].1@)));
                lemma_pair_round_trip(self.keys()[j]);
            }
        }
        let mut queries: Vec<ApiQuery> = Vec::new();
        let mut i: usize = 0;
        while i < pairs.len()
            invariant
                i <= pairs.len(),
                pairs@.len() == self.keys().len(),
                forall|j: int|
                    0 <= j < pairs@.len() ==> pair_of(self.keys()[j]) == Some(
                        ((#[trigger] pairs@[j]).0@, pairs@[j].1@),
                    ),
                queries@.len() == i,
                forall|j: int|
                    0 <= j < i ==> (#[trigger] queries@[j])@ == refresh_query(self.keys()[j]),
            decreases pairs.len() - i,
        {
            let pair = &pairs[i];
            queries.push(ApiQuery::new(pair.0.as_str(), Some(pair.1.as_str())));
            i += 1;
        }
        queries
    }

    /// The day of a facility, a language and a date that is in memory.
    pub fn get_day_internal(&self, mensa: &str, lang: Option<&str>, day: &Date) -> (r: Option<
        MealDay,
    >)
        ensures
            day_view(r) == memory_day(self@.data, mensa@, text_of(lang), day@),
    {
        match self.data.get(mensa, lang) {
            Some(plan) => match plan.get_day_internal(day) {
                Some(found) => Some(found.clone()),
                None => None,
            },
            None => None,
        }
    }

    /// First step of a query for a day.
    pub fn get_day(&self, mensa_id: &str, lang: Option<&str>, day: &Date) -> (step: DayStep)
        ensures
            step@ == day_step(self@, mensa_id@, text_of(lang), day@),
    {
        match self.get_day_internal(mensa_id, lang, day) {
            Some(found) => DayStep::Found(found),
            None => match &self.collections {
                Some(_) => DayStep::ReadDurable(
                    DayRequest {
                        mensa_id: mensa_id.to_owned(),
                        lang: match lang {
                            Some(l) => Some(l.to_owned()),
                            None => None,
                        },
                        day: *day,
                    },
                ),
                None => DayStep::Fetch(ApiQuery::new(mensa_id, lang)),
            },
        }
    }

    /// The step of a query for a day after the durable store was asked:
    /// `found` is what the store returned, or why it could not be read.
    pub fn get_day_stored(&self, request: &DayRequest, found: Result<Option<MealDay>, String>) -> (step:
        DayStep)
        ensures
            step@ == day_step_stored(request@, stored_view(found)),
            step@ is Found || step@ is Fetch,
    {
        match found {
            Ok(Some(day)) => DayStep::Found(day),
            _ => {
                let lang = match &request.lang {
                    Some(l) => Some(l.as_str()),
                    None => None,
                };
                DayStep::Fetch(ApiQuery::new(request.mensa_id.as_str(), lang))
            },
        }
    }

    /// The end of a query for a day that had to be fetched: the plan that
    /// the answer describes goes into memory as with `fetched`, and its
    /// day of the asked date answers the query. Without a plan, or without
    /// that date in it, the day is not found.
    pub fn get_day_fetched(
        &mut self,
        query: &ApiQuery,
        day: &Date,
        answer: Result<ApiResult, UpstreamFailure>,
    ) -> (r: (Option<MealDay>, Option<StoreJob>))
        ensures
            day_view(r.0) == day_fetched(answer, day@),
            job_view(r.1) == job_fetched(old(self)@.durable, query@, answer),
            final(self)@.durable == old(self)@.durable,
            final(self)@.data == data_fetched(old(self)@.data, query@, answer),
            final(self).store() == old(self).store(),
            final(self).keys() == if fetched_plan(answer) is Ok {
                keys_with(old(self).keys(), key_of(query@.mensa_id, query@.lang))
            } else {
                old(self).keys()
            },
            day_view(r.0) is Some ==> day_view(r.0) == memory_day(
                final(self)@.data,
                query@.mensa_id,
                query@.lang,
                day@,
            ),
    {
        let (plan, job) = self.fetched(query, answer);
        let found = match plan {
            Ok(plan) => match plan.get_day_internal(day) {
                Some(found) => Some(found.clone()),
                None => None,
            },
            Err(_) => None,
        };
        (found, job)
    }
}

} // verus!
