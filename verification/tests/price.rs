use mensa_meal_api::{MealPrice, Price};

#[test]
fn price_reads_euros_and_cents() {
    let p = Price::parse("3,50").unwrap();
    assert_eq!(p.eur(), 3);
    assert_eq!(p.cent(), 50);
}

#[test]
fn price_accepts_zero_and_leading_zero_cents() {
    let zero = Price::parse("0,00").unwrap();
    assert_eq!((zero.eur(), zero.cent()), (0, 0));
    let p = Price::parse("12,05").unwrap();
    assert_eq!((p.eur(), p.cent()), (12, 5));
}

#[test]
fn price_rejects_one_digit_cents() {
    assert!(Price::parse("3,5").is_none());
}

#[test]
fn price_rejects_three_digit_cents() {
    assert!(Price::parse("12,100").is_none());
    assert!(Price::parse("12,099").is_none());
}

#[test]
fn price_rejects_letters_and_missing_comma() {
    assert!(Price::parse("abc,50").is_none());
    assert!(Price::parse("1250").is_none());
    assert!(Price::parse("").is_none());
    assert!(Price::parse(",50").is_none());
    assert!(Price::parse("3,").is_none());
    assert!(Price::parse("3,+5").is_none());
    assert!(Price::parse("3.50").is_none());
    assert!(Price::parse(" 3,50").is_none());
    assert!(Price::parse("3,5o").is_none());
}

#[test]
fn price_splits_at_the_first_comma() {
    assert!(Price::parse("1,50,00").is_none());
    assert!(Price::parse("1,,50").is_none());
}

#[test]
fn price_euros_follow_the_rules_of_unsigned_numbers() {
    let p = Price::parse("+7,10").unwrap();
    assert_eq!((p.eur(), p.cent()), (7, 10));
    let p = Price::parse("007,10").unwrap();
    assert_eq!((p.eur(), p.cent()), (7, 10));
    assert!(Price::parse("-7,10").is_none());
    assert!(Price::parse("+,10").is_none());
    let max = Price::parse("4294967295,99").unwrap();
    assert_eq!((max.eur(), max.cent()), (u32::MAX, 99));
    assert!(Price::parse("4294967296,00").is_none());
    assert!(Price::parse("99999999999999999999999,00").is_none());
}

#[test]
fn price_euros_agree_with_the_standard_parser() {
    for text in ["0", "1", "+1", "-1", "", "+", "12a", "4294967295", "4294967296", "00012", " 1", "1 ", "１"] {
        let with_cents = format!("{text},00");
        let expected = text.parse::<u32>().ok();
        assert_eq!(Price::parse(&with_cents).map(|p| p.eur()), expected, "{text:?}");
    }
}

#[test]
fn price_from_parts_checks_the_cents() {
    let p = Price::new(4, 99).unwrap();
    assert_eq!((p.eur(), p.cent()), (4, 99));
    assert!(Price::new(4, 100).is_none());
    assert!(Price::new(0, 255).is_none());
}

#[test]
fn meal_price_needs_all_three() {
    let p = MealPrice::parse("1,95", "2,15", "3,00").unwrap();
    assert_eq!((p.students.eur(), p.students.cent()), (1, 95));
    assert_eq!((p.servants.eur(), p.servants.cent()), (2, 15));
    assert_eq!((p.guests.eur(), p.guests.cent()), (3, 0));
    assert!(MealPrice::parse("1,95", "x", "3,00").is_none());
    assert!(MealPrice::parse("", "2,15", "3,00").is_none());
    assert!(MealPrice::parse("1,95", "2,15", "3,0").is_none());
}

#[test]
fn price_text_has_two_digit_cents() {
    assert_eq!(Price::new(3, 50).unwrap().to_text(), "3,50");
    assert_eq!(Price::new(3, 5).unwrap().to_text(), "3,05");
    assert_eq!(Price::new(0, 0).unwrap().to_text(), "0,00");
    assert_eq!(Price::new(u32::MAX, 99).unwrap().to_text(), "4294967295,99");
    assert_eq!(Price::new(1000, 9).unwrap().to_text(), "1000,09");
}

#[test]
fn price_text_reads_back() {
    for eur in [0u32, 1, 9, 10, 11, 99, 100, 101, 12345, 4294967295] {
        for cent in [0u8, 1, 9, 10, 50, 99] {
            let p = Price::new(eur, cent).unwrap();
            let back = Price::parse(&p.to_text()).unwrap();
            assert_eq!((back.eur(), back.cent()), (eur, cent));
            assert_eq!(back, p);
        }
    }
}
