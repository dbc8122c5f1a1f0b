use mensa_meal_api::{
    ApiDay, ApiMeal, ApiMealAttributes, ApiPlan, ApiQuery, ApiResult, Date, DayStep,
    MealCollections, MealDay, MealPlan, MealPlanError, MealPlanManager, MealPlanParseError,
    PlanStep, StoreJob, UpstreamFailure,
};

fn raw_meal(category: &str, title: &str) -> ApiMeal {
    ApiMeal {
        category: category.to_string(),
        title: title.to_string(),
        description: String::new(),
        kennzeichnungen: "0Ampel0".to_string(),
        preis1: "3,50".to_string(),
        preis2: "4,50".to_string(),
        preis3: "5,50".to_string(),
        ampel: String::new(),
        co2_wert: String::new(),
        co2_bewertung: String::new(),
        h2o_wert: String::new(),
        h2o_bewertung: String::new(),
        attributes: ApiMealAttributes {
            produktion_id: String::new(),
            artikel_id: format!("id-{title}"),
            dispo_id: String::new(),
        },
        title_orig: String::new(),
        already_extracted_title: false,
        title_clean: title.to_string(),
        title2: String::new(),
        already_extracted_description: false,
        description_clean: String::new(),
        md5_source: String::new(),
        md5: String::new(),
        kat_id: String::new(),
        loc_id: String::new(),
        a_id: String::new(),
        kennz_rest: String::new(),
        preis_vorhanden: true,
    }
}

fn raw_day(date: &str, title: &str) -> ApiPlan {
    ApiPlan {
        tag: ApiDay {
            timestamp: 0,
            datum_iso: date.to_string(),
            tag_formatiert: String::new(),
            tag_formatiert2: String::new(),
            tag_formatiert_rel: String::new(),
            jahrestag: String::new(),
            wochentag: String::new(),
            wochentag_short: String::new(),
            datum: String::new(),
            datum2: String::new(),
            wota_index: String::new(),
            kw: String::new(),
        },
        essen: vec![raw_meal("Main", title)],
    }
}

fn date(text: &str) -> Date {
    Date::parse(text).unwrap()
}

fn first_title(day: &MealDay) -> &str {
    day.categories()[0].meals()[0].title()
}

/// Stands in for the durable store and for upstream, and counts what is
/// asked of them.
struct World {
    store_reads: usize,
    fetches: Vec<(String, Option<String>)>,
    jobs: Vec<StoreJob>,
    stored: Vec<(String, Option<String>, MealDay)>,
    store_fails: bool,
    upstream_fails: bool,
    upstream_dates: Vec<&'static str>,
}

impl World {
    fn new() -> World {
        World {
            store_reads: 0,
            fetches: Vec::new(),
            jobs: Vec::new(),
            stored: Vec::new(),
            store_fails: false,
            upstream_fails: false,
            upstream_dates: vec!["2024-05-18", "2024-05-17"],
        }
    }

    fn read(&mut self, mensa: &str, lang: Option<&str>, day: Date) -> Result<Option<MealDay>, String> {
        self.store_reads += 1;
        if self.store_fails {
            return Err("store is down".to_string());
        }
        Ok(self
            .stored
            .iter()
            .find(|(m, l, d)| m == mensa && l.as_deref() == lang && d.date() == day)
            .map(|(_, _, d)| d.clone()))
    }

    fn fetch(&mut self, query: &ApiQuery) -> Result<ApiResult, UpstreamFailure> {
        self.fetches.push((query.mensa_id().to_string(), query.lang().map(|l| l.to_string())));
        if self.upstream_fails {
            return Err(UpstreamFailure::Transport("unreachable".to_string()));
        }
        Ok(ApiResult {
            mensaname: format!("Mensa {}", query.mensa_id()),
            result: self
                .upstream_dates
                .iter()
                .map(|d| raw_day(d, &format!("{} {}", query.mensa_id(), d)))
                .collect(),
        })
    }
}

fn get_day(
    manager: &mut MealPlanManager,
    world: &mut World,
    mensa: &str,
    lang: Option<&str>,
    day: Date,
) -> Option<MealDay> {
    let mut step = manager.get_day(mensa, lang, &day);
    loop {
        match step {
            DayStep::Found(found) => return Some(found),
            DayStep::ReadDurable(request) => {
                let found = world.read(&request.mensa_id, request.lang.as_deref(), request.day);
                step = manager.get_day_stored(&request, found);
            }
            DayStep::Fetch(query) => {
                let answer = world.fetch(&query);
                let (found, job) = manager.get_day_fetched(&query, &day, answer);
                world.jobs.extend(job);
                return found;
            }
        }
    }
}

fn get_plan(
    manager: &mut MealPlanManager,
    world: &mut World,
    mensa: &str,
    lang: Option<&str>,
) -> Result<MealPlan, MealPlanError> {
    match manager.get_plan(mensa, lang) {
        PlanStep::Cached(plan) => Ok(plan),
        PlanStep::Fetch(query) => {
            let answer = world.fetch(&query);
            let (plan, job) = manager.fetched(&query, answer);
            world.jobs.extend(job);
            plan
        }
    }
}

fn refresh_all(manager: &mut MealPlanManager, world: &mut World) -> usize {
    let mut failed = 0;
    for query in manager.fetch_all() {
        let answer = world.fetch(&query);
        let (plan, job) = manager.fetched(&query, answer);
        world.jobs.extend(job);
        if plan.is_err() {
            failed += 1;
        }
    }
    failed
}

#[test]
fn cached_day_is_answered_from_memory() {
    let mut manager = MealPlanManager::new(Some(MealCollections::new()));
    let mut world = World::new();
    get_plan(&mut manager, &mut world, "nord", Some("de")).unwrap();
    assert_eq!(world.fetches.len(), 1);
    let found = get_day(&mut manager, &mut world, "nord", Some("de"), date("2024-05-17")).unwrap();
    assert_eq!(first_title(&found), "nord 2024-05-17");
    assert_eq!(world.fetches.len(), 1);
    assert_eq!(world.store_reads, 0);
}

#[test]
fn stored_day_is_answered_without_a_fetch() {
    let mut manager = MealPlanManager::new(Some(MealCollections::new()));
    let mut world = World::new();
    let stored = MealDay::from_raw(date("2024-05-17"), vec![raw_meal("Main", "from the store")]);
    world.stored.push(("nord".to_string(), Some("de".to_string()), stored));
    let found = get_day(&mut manager, &mut world, "nord", Some("de"), date("2024-05-17")).unwrap();
    assert_eq!(first_title(&found), "from the store");
    assert_eq!(world.store_reads, 1);
    assert!(world.fetches.is_empty());
    assert!(manager.get_day_internal("nord", Some("de"), &date("2024-05-17")).is_none());
}

#[test]
fn day_absent_from_every_tier_takes_one_fetch() {
    let mut manager = MealPlanManager::new(Some(MealCollections::new()));
    let mut world = World::new();
    let found = get_day(&mut manager, &mut world, "nord", Some("de"), date("2024-05-17")).unwrap();
    assert_eq!(first_title(&found), "nord 2024-05-17");
    assert_eq!(world.store_reads, 1);
    assert_eq!(world.fetches, vec![("nord".to_string(), Some("de".to_string()))]);
    let again = get_day(&mut manager, &mut world, "nord", Some("de"), date("2024-05-17")).unwrap();
    assert_eq!(format!("{again:?}"), format!("{found:?}"));
    assert_eq!(world.store_reads, 1);
    assert_eq!(world.fetches.len(), 1);
    let cached = manager.get_day_internal("nord", Some("de"), &date("2024-05-17")).unwrap();
    assert_eq!(format!("{cached:?}"), format!("{found:?}"));
}

#[test]
fn without_a_store_a_missing_day_is_fetched_at_once() {
    let mut manager = MealPlanManager::new(None);
    let mut world = World::new();
    let found = get_day(&mut manager, &mut world, "nord", None, date("2024-05-18")).unwrap();
    assert_eq!(first_title(&found), "nord 2024-05-18");
    assert_eq!(world.store_reads, 0);
    assert_eq!(world.fetches, vec![("nord".to_string(), None)]);
    assert!(world.jobs.is_empty());
}

#[test]
fn failing_store_counts_as_a_miss() {
    let mut manager = MealPlanManager::new(Some(MealCollections::new()));
    let mut world = World::new();
    world.store_fails = true;
    let found = get_day(&mut manager, &mut world, "nord", Some("de"), date("2024-05-17")).unwrap();
    assert_eq!(first_title(&found), "nord 2024-05-17");
    assert_eq!(world.store_reads, 1);
    assert_eq!(world.fetches.len(), 1);
}

#[test]
fn day_is_not_found_when_all_tiers_miss() {
    let mut manager = MealPlanManager::new(Some(MealCollections::new()));
    let mut world = World::new();
    assert!(get_day(&mut manager, &mut world, "nord", Some("de"), date("2024-05-19")).is_none());
    assert_eq!(world.store_reads, 1);
    assert_eq!(world.fetches.len(), 1);
    assert!(manager.get_day_internal("nord", Some("de"), &date("2024-05-17")).is_some());
    world.upstream_fails = true;
    assert!(get_day(&mut manager, &mut world, "sued", Some("de"), date("2024-05-17")).is_none());
    assert_eq!(world.fetches.len(), 2);
    assert!(manager.get_day_internal("sued", Some("de"), &date("2024-05-17")).is_none());
}

#[test]
fn plan_is_fetched_once_and_then_cached() {
    let mut manager = MealPlanManager::new(None);
    let mut world = World::new();
    let plan = get_plan(&mut manager, &mut world, "nord", Some("de")).unwrap();
    assert_eq!(plan.mensa(), "Mensa nord");
    assert_eq!(plan.days().len(), 2);
    assert_eq!(plan.days()[0].date(), date("2024-05-17"));
    assert_eq!(plan.days()[1].date(), date("2024-05-18"));
    let again = get_plan(&mut manager, &mut world, "nord", Some("de")).unwrap();
    assert_eq!(format!("{again:?}"), format!("{plan:?}"));
    assert_eq!(world.fetches.len(), 1);
    get_plan(&mut manager, &mut world, "nord", Some("en")).unwrap();
    assert_eq!(world.fetches.len(), 2);
    get_plan(&mut manager, &mut world, "nord", None).unwrap();
    assert_eq!(world.fetches.len(), 2);
}

#[test]
fn fetch_plan_asks_upstream_even_for_a_cached_plan() {
    let mut manager = MealPlanManager::new(None);
    let mut world = World::new();
    get_plan(&mut manager, &mut world, "nord", Some("de")).unwrap();
    let query = manager.fetch_plan("nord", Some("de"));
    assert_eq!(query.mensa_id(), "nord");
    assert_eq!(query.lang(), Some("de"));
    world.upstream_dates = vec!["2024-06-01"];
    let answer = world.fetch(&query);
    let (plan, job) = manager.fetched(&query, answer);
    assert!(job.is_none());
    assert_eq!(plan.unwrap().days().len(), 1);
    let cached = get_plan(&mut manager, &mut world, "nord", Some("de")).unwrap();
    assert_eq!(cached.days().len(), 1);
    assert_eq!(cached.days()[0].date(), date("2024-06-01"));
}

#[test]
fn transport_failure_is_handed_back() {
    let mut manager = MealPlanManager::new(Some(MealCollections::new()));
    let query = manager.fetch_plan("nord", None);
    let (plan, job) =
        manager.fetched(&query, Err(UpstreamFailure::Transport("timed out".to_string())));
    match plan {
        Err(MealPlanError::Upstream(UpstreamFailure::Transport(m))) => assert_eq!(m, "timed out"),
        other => panic!("{other:?}"),
    }
    assert!(job.is_none());
    assert!(manager.fetch_all().is_empty());
    let (plan, _) = manager.fetched(&query, Err(UpstreamFailure::Decode("no json".to_string())));
    match plan {
        Err(MealPlanError::Upstream(UpstreamFailure::Decode(m))) => assert_eq!(m, "no json"),
        other => panic!("{other:?}"),
    }
}

#[test]
fn bad_date_is_a_parse_error_and_stores_nothing() {
    let mut manager = MealPlanManager::new(Some(MealCollections::new()));
    let query = manager.fetch_plan("nord", None);
    let raw = ApiResult { mensaname: "x".to_string(), result: vec![raw_day("tomorrow", "a")] };
    let (plan, job) = manager.fetched(&query, Ok(raw));
    match plan {
        Err(MealPlanError::ParsePlan(MealPlanParseError::InvalidDate(text))) => {
            assert_eq!(text, "tomorrow")
        }
        other => panic!("{other:?}"),
    }
    assert!(job.is_none());
    assert!(matches!(manager.get_plan("nord", None), PlanStep::Fetch(_)));
}

#[test]
fn fetched_plan_is_to_be_persisted_where_a_store_is_configured() {
    let mut manager = MealPlanManager::new(Some(MealCollections::new()));
    let mut world = World::new();
    let plan = get_plan(&mut manager, &mut world, "nord", Some("de")).unwrap();
    assert_eq!(world.jobs.len(), 1);
    assert_eq!(world.jobs[0].mensa_id, "nord");
    assert_eq!(world.jobs[0].lang, Some("de".to_string()));
    assert_eq!(format!("{:?}", world.jobs[0].plan), format!("{plan:?}"));
    get_plan(&mut manager, &mut world, "nord", Some("de")).unwrap();
    assert_eq!(world.jobs.len(), 1);
}

#[test]
fn store_plan_replaces_the_plan_in_memory() {
    let mut manager = MealPlanManager::new(None);
    assert!(manager.collections().is_none());
    let job = manager.store_plan("nord".to_string(), None, MealPlan::new("one".to_string()));
    assert!(job.is_none());
    manager.store_plan("nord".to_string(), Some("en".to_string()), MealPlan::new("two".to_string()));
    match manager.get_plan("nord", None) {
        PlanStep::Cached(plan) => assert_eq!(plan.mensa(), "two"),
        PlanStep::Fetch(_) => panic!("the plan is in memory"),
    }
    let mut manager = MealPlanManager::new(Some(MealCollections::new()));
    assert!(manager.collections().is_some());
    let job = manager.store_plan("nord".to_string(), None, MealPlan::new("one".to_string()));
    let job = job.unwrap();
    assert_eq!((job.mensa_id.as_str(), job.lang, job.plan.mensa()), ("nord", None, "one"));
}

#[test]
fn refresh_of_nothing_fetches_nothing() {
    let mut manager = MealPlanManager::new(Some(MealCollections::new()));
    let mut world = World::new();
    assert!(manager.fetch_all().is_empty());
    assert_eq!(refresh_all(&mut manager, &mut world), 0);
    assert!(world.fetches.is_empty());
    assert_eq!(world.store_reads, 0);
    assert!(world.jobs.is_empty());
}

#[test]
fn refresh_fetches_every_known_pair_once() {
    let mut manager = MealPlanManager::new(None);
    let mut world = World::new();
    get_plan(&mut manager, &mut world, "nord", Some("de")).unwrap();
    get_plan(&mut manager, &mut world, "sued", None).unwrap();
    get_plan(&mut manager, &mut world, "nord", Some("en")).unwrap();
    world.fetches.clear();
    world.upstream_dates = vec!["2024-06-03"];
    assert_eq!(refresh_all(&mut manager, &mut world), 0);
    let mut fetched = world.fetches.clone();
    fetched.sort();
    assert_eq!(
        fetched,
        vec![
            ("nord".to_string(), Some("de".to_string())),
            ("nord".to_string(), Some("en".to_string())),
            ("sued".to_string(), Some("en".to_string())),
        ]
    );
    for (mensa, lang) in [("nord", Some("de")), ("nord", Some("en")), ("sued", None)] {
        let plan = get_plan(&mut manager, &mut world, mensa, lang).unwrap();
        assert_eq!(plan.days().len(), 1);
        assert_eq!(plan.days()[0].date(), date("2024-06-03"));
    }
    assert_eq!(world.fetches.len(), 3);
}

#[test]
fn refresh_goes_on_after_a_failure() {
    let mut manager = MealPlanManager::new(None);
    let mut world = World::new();
    get_plan(&mut manager, &mut world, "nord", Some("de")).unwrap();
    get_plan(&mut manager, &mut world, "sued", Some("de")).unwrap();
    world.fetches.clear();
    world.upstream_fails = true;
    assert_eq!(refresh_all(&mut manager, &mut world), 2);
    assert_eq!(world.fetches.len(), 2);
    world.upstream_fails = false;
    let plan = get_plan(&mut manager, &mut world, "nord", Some("de")).unwrap();
    assert_eq!(plan.days().len(), 2);
    assert_eq!(world.fetches.len(), 2);
}

#[test]
fn refresh_asks_in_the_order_in_which_plans_were_first_stored() {
    let mut manager = MealPlanManager::new(None);
    let mut world = World::new();
    get_plan(&mut manager, &mut world, "sued", Some("de")).unwrap();
    get_plan(&mut manager, &mut world, "nord", Some("de")).unwrap();
    get_plan(&mut manager, &mut world, "sued", Some("en")).unwrap();
    let query = manager.fetch_plan("sued", Some("de"));
    let answer = world.fetch(&query);
    manager.fetched(&query, answer).0.unwrap();
    let asked: Vec<(String, Option<String>)> = manager
        .fetch_all()
        .iter()
        .map(|q| (q.mensa_id().to_string(), q.lang().map(|l| l.to_string())))
        .collect();
    assert_eq!(
        asked,
        vec![
            ("sued".to_string(), Some("de".to_string())),
            ("nord".to_string(), Some("de".to_string())),
            ("sued".to_string(), Some("en".to_string())),
        ]
    );
}
