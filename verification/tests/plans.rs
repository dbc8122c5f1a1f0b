use mensa_meal_api::{MealPlan, MealPlans};

fn pairs(plans: &MealPlans) -> Vec<(String, String)> {
    let mut pairs = plans.mensas();
    pairs.sort();
    pairs
}

#[test]
fn key_is_language_semicolon_facility() {
    assert_eq!(MealPlans::key("mensa_nord", Some("de")), "de;mensa_nord");
    assert_eq!(MealPlans::key("", Some("")), ";");
    assert_eq!(MealPlans::key("a;b", Some("de")), "de;a;b");
}

#[test]
fn key_defaults_the_language() {
    assert_eq!(MealPlans::key("mensa_nord", None), "en;mensa_nord");
    assert_eq!(MealPlans::key("mensa_nord", None), MealPlans::key("mensa_nord", Some("en")));
}

#[test]
fn key_round_trips() {
    for mensa in ["mensa_nord", "", "a;b", ";", "ä ö"] {
        for lang in [Some("de"), Some("en"), Some(""), Some("zh-Hans"), None] {
            let mut plans = MealPlans::new();
            plans.insert(mensa, lang, MealPlan::new("x".to_string()));
            assert_eq!(
                plans.mensas(),
                vec![(mensa.to_string(), lang.unwrap_or("en").to_string())]
            );
        }
    }
}

#[test]
fn semicolon_in_the_language_moves_into_the_facility() {
    let mut plans = MealPlans::new();
    plans.insert("m", Some("a;b"), MealPlan::new("x".to_string()));
    assert_eq!(plans.mensas(), vec![("b;m".to_string(), "a".to_string())]);
}

#[test]
fn get_finds_what_was_inserted() {
    let mut plans = MealPlans::new();
    assert!(plans.get("nord", Some("de")).is_none());
    assert!(plans.insert("nord", Some("de"), MealPlan::new("Nord".to_string())).is_none());
    assert!(plans.insert("nord", Some("en"), MealPlan::new("North".to_string())).is_none());
    assert!(plans.insert("sued", Some("de"), MealPlan::new("Süd".to_string())).is_none());
    assert_eq!(plans.get("nord", Some("de")).unwrap().mensa(), "Nord");
    assert_eq!(plans.get("nord", Some("en")).unwrap().mensa(), "North");
    assert_eq!(plans.get("nord", None).unwrap().mensa(), "North");
    assert_eq!(plans.get("sued", Some("de")).unwrap().mensa(), "Süd");
    assert!(plans.get("sued", None).is_none());
    assert!(plans.get("west", Some("de")).is_none());
}

#[test]
fn insert_replaces_and_returns_the_prior_plan() {
    let mut plans = MealPlans::new();
    assert!(plans.insert("nord", None, MealPlan::new("first".to_string())).is_none());
    let prior = plans.insert("nord", Some("en"), MealPlan::new("second".to_string()));
    assert_eq!(prior.unwrap().mensa(), "first");
    assert_eq!(plans.get("nord", None).unwrap().mensa(), "second");
    assert_eq!(plans.mensas().len(), 1);
}

#[test]
fn mensas_lists_every_pair_once() {
    let mut plans = MealPlans::new();
    assert!(plans.mensas().is_empty());
    plans.insert("nord", Some("de"), MealPlan::new("a".to_string()));
    plans.insert("nord", None, MealPlan::new("b".to_string()));
    plans.insert("sued", Some("de"), MealPlan::new("c".to_string()));
    plans.insert("nord", Some("de"), MealPlan::new("d".to_string()));
    assert_eq!(
        pairs(&plans),
        vec![
            ("nord".to_string(), "de".to_string()),
            ("nord".to_string(), "en".to_string()),
            ("sued".to_string(), "de".to_string()),
        ]
    );
    assert_eq!(plans.mensas(), plans.mensas());
}

#[test]
fn default_is_empty() {
    let plans = MealPlans::default();
    assert!(plans.mensas().is_empty());
    assert!(plans.get("nord", None).is_none());
}

#[test]
fn mensas_keeps_the_order_of_first_storing() {
    let mut plans = MealPlans::new();
    plans.insert("sued", Some("de"), MealPlan::new("a".to_string()));
    plans.insert("nord", None, MealPlan::new("b".to_string()));
    plans.insert("sued", Some("de"), MealPlan::new("c".to_string()));
    assert_eq!(
        plans.mensas(),
        vec![("sued".to_string(), "de".to_string()), ("nord".to_string(), "en".to_string())]
    );
}
