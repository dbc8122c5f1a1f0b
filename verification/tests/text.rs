use mensa_meal_api::text::{
    chars_of, copy_range, find_from, parse_unsigned, reads_as, split_at, split_once_at,
    split_once_text, trim,
};

fn chars(s: &str) -> Vec<char> {
    s.chars().collect()
}

fn text(v: &[char]) -> String {
    v.iter().collect()
}

#[test]
fn chars_of_gives_every_character() {
    assert_eq!(chars_of(""), Vec::<char>::new());
    assert_eq!(chars_of("aäb€"), vec!['a', 'ä', 'b', '€']);
}

#[test]
fn copy_range_copies_the_range() {
    let v = chars("hello");
    assert_eq!(text(&copy_range(&v, 1, 3)), "el");
    assert_eq!(text(&copy_range(&v, 0, 5)), "hello");
    assert_eq!(text(&copy_range(&v, 5, 5)), "");
}

#[test]
fn find_from_finds_the_first_at_or_after() {
    let v = chars("a,b,c");
    assert_eq!(find_from(&v, 0, ','), 1);
    assert_eq!(find_from(&v, 1, ','), 1);
    assert_eq!(find_from(&v, 2, ','), 3);
    assert_eq!(find_from(&v, 4, ','), 5);
    assert_eq!(find_from(&v, 5, ','), 5);
}

#[test]
fn split_once_at_splits_at_the_first() {
    let (a, b) = split_once_at(&chars("en;mensa;x"), ';').unwrap();
    assert_eq!((text(&a), text(&b)), ("en".to_string(), "mensa;x".to_string()));
    let (a, b) = split_once_at(&chars(";"), ';').unwrap();
    assert_eq!((text(&a), text(&b)), (String::new(), String::new()));
    assert!(split_once_at(&chars("no separator"), ';').is_none());
    assert!(split_once_at(&chars(""), ';').is_none());
}

#[test]
fn split_once_text_agrees_with_the_standard_library() {
    for s in ["", ";", "a;b", "a;b;c", ";;", "ä;ö", "none", "a;", ";b"] {
        assert_eq!(split_once_text(s, ';'), s.split_once(';'), "{s:?}");
    }
}

#[test]
fn split_at_agrees_with_the_standard_library() {
    for s in ["", ",", "a", "a,b", "a,,b", ",a,", "21a,0Ampel1,999", "ä,ö,ü", ",,,"] {
        let ours: Vec<String> = split_at(&chars(s), ',').iter().map(|p| text(p)).collect();
        let theirs: Vec<String> = s.split(',').map(|p| p.to_string()).collect();
        assert_eq!(ours, theirs, "{s:?}");
    }
}

#[test]
fn split_at_of_nothing_is_one_empty_piece() {
    let pieces = split_at(&chars(""), ',');
    assert_eq!(pieces.len(), 1);
    assert!(pieces[0].is_empty());
}

#[test]
fn trim_agrees_with_the_standard_library() {
    for s in [
        "",
        " ",
        "   ",
        "a",
        " a",
        "a ",
        "  a b  ",
        "\t\n x \r\n",
        "\u{a0}wide\u{2003}",
        "ä ",
        " \u{3000}",
        "inner  space",
    ] {
        assert_eq!(trim(s), s.trim(), "{s:?}");
    }
}

#[test]
fn parse_unsigned_agrees_with_the_standard_library() {
    for s in [
        "", "0", "7", "42", "+42", "-42", "+", "-", "++1", "4294967295", "4294967296",
        "42949672950", "000000000000000000001", "1a", "a1", " 1", "1 ", "1_000", "٣",
        "99999999999999999999999999999",
    ] {
        assert_eq!(parse_unsigned(&chars(s)), s.parse::<u32>().ok(), "{s:?}");
    }
}

#[test]
fn reads_as_compares_whole_texts() {
    assert!(reads_as(&chars("21a"), "21a"));
    assert!(!reads_as(&chars("21"), "21a"));
    assert!(!reads_as(&chars("21ab"), "21a"));
    assert!(!reads_as(&chars("21b"), "21a"));
    assert!(reads_as(&chars(""), ""));
    assert!(!reads_as(&chars(""), "a"));
    assert!(!reads_as(&chars("a"), ""));
}
