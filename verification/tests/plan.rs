use mensa_meal_api::{
    ApiDay, ApiMeal, ApiMealAttributes, ApiPlan, ApiResult, Date, DayLookup, MealDay, MealPlan,
    MealPlanParseError, MensaMeal, Price,
};

fn raw_meal(category: &str, title: &str) -> ApiMeal {
    ApiMeal {
        category: category.to_string(),
        title: title.to_string(),
        description: String::new(),
        kennzeichnungen: String::new(),
        preis1: "3,50".to_string(),
        preis2: "4,50".to_string(),
        preis3: "5,50".to_string(),
        ampel: String::new(),
        co2_wert: String::new(),
        co2_bewertung: String::new(),
        h2o_wert: String::new(),
        h2o_bewertung: String::new(),
        attributes: ApiMealAttributes {
            produktion_id: String::new(),
            artikel_id: format!("id-{title}"),
            dispo_id: String::new(),
        },
        title_orig: String::new(),
        already_extracted_title: false,
        title_clean: title.to_string(),
        title2: String::new(),
        already_extracted_description: false,
        description_clean: format!(" about {title} "),
        md5_source: String::new(),
        md5: String::new(),
        kat_id: String::new(),
        loc_id: String::new(),
        a_id: String::new(),
        kennz_rest: String::new(),
        preis_vorhanden: true,
    }
}

fn raw_day(date: &str, essen: Vec<ApiMeal>) -> ApiPlan {
    ApiPlan {
        tag: ApiDay {
            timestamp: 0,
            datum_iso: date.to_string(),
            tag_formatiert: String::new(),
            tag_formatiert2: String::new(),
            tag_formatiert_rel: String::new(),
            jahrestag: String::new(),
            wochentag: String::new(),
            wochentag_short: String::new(),
            datum: String::new(),
            datum2: String::new(),
            wota_index: String::new(),
            kw: String::new(),
        },
        essen,
    }
}

fn date(text: &str) -> Date {
    Date::parse(text).unwrap()
}

fn day_with(text: &str, title: &str) -> MealDay {
    MealDay::from_raw(date(text), vec![raw_meal("Main", title)])
}

fn dates(plan: &MealPlan) -> Vec<String> {
    plan.days().iter().map(|d| d.date().to_iso()).collect()
}

fn first_title(day: &MealDay) -> &str {
    day.categories()[0].meals()[0].title()
}

#[test]
fn new_plan_is_empty() {
    let plan = MealPlan::new("Mensa Nord".to_string());
    assert_eq!(plan.mensa(), "Mensa Nord");
    assert!(plan.days().is_empty());
    assert!(plan.get_day_internal(&date("2024-05-17")).is_none());
}

#[test]
fn add_day_keeps_the_days_sorted() {
    let mut plan = MealPlan::new("m".to_string());
    for text in ["2024-05-17", "2024-05-15", "2024-05-20", "2024-05-16", "2023-12-31", "2024-05-18"] {
        plan.add_day(date(text), day_with(text, text));
        let ds = dates(&plan);
        let mut sorted = ds.clone();
        sorted.sort();
        sorted.dedup();
        assert_eq!(ds, sorted);
    }
    assert_eq!(
        dates(&plan),
        vec!["2023-12-31", "2024-05-15", "2024-05-16", "2024-05-17", "2024-05-18", "2024-05-20"]
    );
}

#[test]
fn add_day_twice_keeps_the_first() {
    let mut plan = MealPlan::new("m".to_string());
    plan.add_day(date("2024-05-17"), day_with("2024-05-17", "first"));
    plan.add_day(date("2024-05-18"), day_with("2024-05-18", "other"));
    plan.add_day(date("2024-05-17"), day_with("2024-05-17", "second"));
    assert_eq!(dates(&plan), vec!["2024-05-17", "2024-05-18"]);
    assert_eq!(first_title(plan.get_day_internal(&date("2024-05-17")).unwrap()), "first");
    assert_eq!(first_title(plan.get_day_internal(&date("2024-05-18")).unwrap()), "other");
}

#[test]
fn add_day_in_every_order_gives_the_same_days() {
    let texts = ["2024-01-03", "2024-01-01", "2024-01-02", "2024-01-04"];
    let orders = [[0, 1, 2, 3], [3, 2, 1, 0], [1, 3, 0, 2], [2, 0, 3, 1]];
    for order in orders {
        let mut plan = MealPlan::new("m".to_string());
        for i in order {
            plan.add_day(date(texts[i]), day_with(texts[i], texts[i]));
        }
        assert_eq!(dates(&plan), vec!["2024-01-01", "2024-01-02", "2024-01-03", "2024-01-04"]);
    }
}

#[test]
fn remove_day_of_absent_date_changes_nothing() {
    let mut plan = MealPlan::new("m".to_string());
    plan.remove_day(date("2024-05-17"));
    assert!(plan.days().is_empty());
    plan.add_day(date("2024-05-16"), day_with("2024-05-16", "a"));
    plan.add_day(date("2024-05-18"), day_with("2024-05-18", "b"));
    let before = format!("{plan:?}");
    plan.remove_day(date("2024-05-17"));
    assert_eq!(format!("{plan:?}"), before);
}

#[test]
fn remove_day_takes_the_date_out() {
    let mut plan = MealPlan::new("m".to_string());
    for text in ["2024-05-16", "2024-05-17", "2024-05-18"] {
        plan.add_day(date(text), day_with(text, text));
    }
    plan.remove_day(date("2024-05-17"));
    assert_eq!(dates(&plan), vec!["2024-05-16", "2024-05-18"]);
    assert!(plan.get_day_internal(&date("2024-05-17")).is_none());
    assert_eq!(first_title(plan.get_day_internal(&date("2024-05-16")).unwrap()), "2024-05-16");
    plan.remove_day(date("2024-05-16"));
    plan.remove_day(date("2024-05-18"));
    assert!(plan.days().is_empty());
    plan.remove_day(date("2024-05-18"));
    assert!(plan.days().is_empty());
}

#[test]
fn lookup_finds_each_day() {
    let mut plan = MealPlan::new("m".to_string());
    let texts: Vec<String> = (1..=28).map(|d| format!("2024-02-{d:02}")).collect();
    for text in texts.iter().rev() {
        plan.add_day(date(text), day_with(text, text));
    }
    for text in &texts {
        let found = plan.get_day_internal(&date(text)).unwrap();
        assert_eq!(found.date(), date(text));
        assert_eq!(first_title(found), text);
    }
    assert!(plan.get_day_internal(&date("2024-01-31")).is_none());
    assert!(plan.get_day_internal(&date("2024-02-29")).is_none());
}

#[test]
fn get_day_asks_for_what_is_missing() {
    let mut plan = MealPlan::new("m".to_string());
    plan.add_day(date("2024-05-17"), day_with("2024-05-17", "a"));
    match plan.get_day(&date("2024-05-17")) {
        DayLookup::Cached(day) => assert_eq!(first_title(day), "a"),
        DayLookup::Request(_) => panic!("the day is there"),
    }
    match plan.get_day(&date("2024-05-18")) {
        DayLookup::Cached(_) => panic!("the day is not there"),
        DayLookup::Request(d) => assert_eq!(d, date("2024-05-18")),
    }
}

#[test]
fn try_from_sorts_the_days() {
    let raw = ApiResult {
        mensaname: "Mensa Süd".to_string(),
        result: vec![
            raw_day("2024-05-20", vec![raw_meal("Main", "c")]),
            raw_day("2024-05-16", vec![raw_meal("Main", "a")]),
            raw_day("2024-05-17", vec![raw_meal("Main", "b")]),
        ],
    };
    let plan = MealPlan::try_from(raw).unwrap();
    assert_eq!(plan.mensa(), "Mensa Süd");
    assert_eq!(dates(&plan), vec!["2024-05-16", "2024-05-17", "2024-05-20"]);
    let titles: Vec<&str> = plan.days().iter().map(first_title).collect();
    assert_eq!(titles, vec!["a", "b", "c"]);
}

#[test]
fn try_from_gives_the_fields_of_the_payload() {
    let mut soup = raw_meal("Starter", "Soup");
    soup.kennzeichnungen = "0Ampel0,21a,999".to_string();
    let mut stew = raw_meal("Main", "Stew");
    stew.preis1 = "3,5".to_string();
    let raw = ApiResult {
        mensaname: "Mensa".to_string(),
        result: vec![raw_day("2024-05-17", vec![soup, stew])],
    };
    let plan = MealPlan::try_from(raw).unwrap();
    let day = plan.get_day_internal(&date("2024-05-17")).unwrap();
    let soup: &MensaMeal = &day.meals("Starter").unwrap()[0];
    assert_eq!(soup.title(), "Soup");
    assert_eq!(soup.description(), Some("about Soup"));
    assert_eq!(soup.id(), "id-Soup");
    let price = soup.price().unwrap();
    assert_eq!(price.students, Price::new(3, 50).unwrap());
    assert_eq!(price.servants, Price::new(4, 50).unwrap());
    assert_eq!(price.guests, Price::new(5, 50).unwrap());
    assert_eq!(soup.info().allergens().len(), 1);
    let stew: &MensaMeal = &day.meals("Main").unwrap()[0];
    assert_eq!(stew.title(), "Stew");
    assert_eq!(stew.price(), None);
}

#[test]
fn try_from_fails_on_the_first_bad_date() {
    let raw = ApiResult {
        mensaname: "Mensa".to_string(),
        result: vec![
            raw_day("2024-05-17", vec![]),
            raw_day("17.05.2024", vec![]),
            raw_day("2024-05-18", vec![]),
            raw_day("never", vec![]),
        ],
    };
    match MealPlan::try_from(raw) {
        Err(MealPlanParseError::InvalidDate(text)) => assert_eq!(text, "17.05.2024"),
        Ok(_) => panic!("the second date is no date"),
    }
}

#[test]
fn try_from_keeps_the_first_of_two_records_of_a_date() {
    let raw = ApiResult {
        mensaname: "Mensa".to_string(),
        result: vec![
            raw_day("2024-05-18", vec![raw_meal("Main", "x")]),
            raw_day("2024-05-17", vec![raw_meal("Main", "first")]),
            raw_day("2024-05-17", vec![raw_meal("Main", "second")]),
        ],
    };
    let plan = MealPlan::try_from(raw).unwrap();
    assert_eq!(dates(&plan), vec!["2024-05-17", "2024-05-18"]);
    assert_eq!(first_title(plan.get_day_internal(&date("2024-05-17")).unwrap()), "first");
}

#[test]
fn try_from_of_no_days_is_an_empty_plan() {
    let raw = ApiResult { mensaname: "Mensa".to_string(), result: Vec::new() };
    let plan = MealPlan::try_from(raw).unwrap();
    assert!(plan.days().is_empty());
    assert_eq!(plan.mensa(), "Mensa");
}

#[test]
fn clone_keeps_the_plan() {
    let mut plan = MealPlan::new("m".to_string());
    plan.add_day(date("2024-05-17"), day_with("2024-05-17", "a"));
    plan.add_day(date("2024-05-16"), day_with("2024-05-16", "b"));
    assert_eq!(format!("{:?}", plan.clone()), format!("{plan:?}"));
}

#[test]
fn add_record_adds_the_dated_day() {
    let mut plan = MealPlan::new("m".to_string());
    let r = plan.add_record(Some(date("2024-05-17")), raw_day("ignored", vec![raw_meal("Main", "a")]));
    assert!(r.is_ok());
    let r = plan.add_record(Some(date("2024-05-16")), raw_day("2024-05-16", vec![raw_meal("Main", "b")]));
    assert!(r.is_ok());
    let r = plan.add_record(Some(date("2024-05-17")), raw_day("2024-05-17", vec![raw_meal("Main", "c")]));
    assert!(r.is_ok());
    assert_eq!(dates(&plan), vec!["2024-05-16", "2024-05-17"]);
    assert_eq!(first_title(plan.get_day_internal(&date("2024-05-17")).unwrap()), "a");
}

#[test]
fn add_record_without_a_date_names_the_text() {
    let mut plan = MealPlan::new("m".to_string());
    plan.add_day(date("2024-05-17"), day_with("2024-05-17", "a"));
    let before = format!("{plan:?}");
    match plan.add_record(None, raw_day("yesterday", vec![raw_meal("Main", "b")])) {
        Err(MealPlanParseError::InvalidDate(text)) => assert_eq!(text, "yesterday"),
        Ok(()) => panic!("there is no date"),
    }
    assert_eq!(format!("{plan:?}"), before);
}
