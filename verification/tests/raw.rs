use mensa_meal_api::{ApiQuery, DbConfig};

#[test]
fn query_asks_for_json_in_the_fixed_mode() {
    let q = ApiQuery::new("mensa_nord", Some("de"));
    assert_eq!(q.mensa_id(), "mensa_nord");
    assert_eq!(q.json(), "1");
    assert_eq!(q.mode(), "slsys");
    assert_eq!(q.lang(), Some("de"));
}

#[test]
fn query_without_language_sends_none() {
    let q = ApiQuery::new("mensa_nord", None);
    assert_eq!(q.mensa_id(), "mensa_nord");
    assert_eq!(q.json(), "1");
    assert_eq!(q.mode(), "slsys");
    assert_eq!(q.lang(), None);
}

#[test]
fn default_database_is_local() {
    let c = DbConfig::default();
    assert_eq!(c.url, "mongodb://localhost:27017");
    assert_eq!(c.database, "stw_mensa");
}
