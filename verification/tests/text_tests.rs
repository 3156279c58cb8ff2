use letta_lite::clock::{new_id, Timestamp};
use letta_lite::json::Json;
use letta_lite::number::{format_thousandths, parse_digits, parse_thousandths};
use letta_lite::text::{
    byte_length, concat2, concat3, contains_ignore_case, decimal_string, keep_tail,
    push_decimal, same_text,
};

#[test]
fn decimal_numerals() {
    assert_eq!(decimal_string(0), "0");
    assert_eq!(decimal_string(7), "7");
    assert_eq!(decimal_string(10), "10");
    assert_eq!(decimal_string(2000), "2000");
    assert_eq!(decimal_string(1234567890), "1234567890");
    assert_eq!(decimal_string(usize::MAX), usize::MAX.to_string());
    let mut s = "n=".to_string();
    push_decimal(&mut s, 42);
    assert_eq!(s, "n=42");
}

#[test]
fn tails() {
    assert_eq!(keep_tail("hello", 10), "hello");
    assert_eq!(keep_tail("hello", 5), "hello");
    assert_eq!(keep_tail("hello", 3), "llo");
    assert_eq!(keep_tail("hello", 0), "");
    assert_eq!(keep_tail("a€b", 4), "€b");
    assert_eq!(keep_tail("a€b", 3), "b");
    assert_eq!(keep_tail("a€b", 2), "b");
    assert_eq!(keep_tail("a€b", 1), "b");
    assert_eq!(keep_tail("😀😀", 7), "😀");
}

#[test]
fn case_is_ignored_in_searches() {
    assert!(contains_ignore_case("The Quick Brown Fox", "quick brown"));
    assert!(contains_ignore_case("ÄPFEL", "äpfel"));
    assert!(contains_ignore_case("anything", ""));
    assert!(!contains_ignore_case("The Quick Brown Fox", "quickbrown"));
    assert!(!contains_ignore_case("", "x"));
}

#[test]
fn small_helpers() {
    assert_eq!(byte_length("aé€"), 6);
    assert_eq!(concat2("a", "b"), "ab");
    assert_eq!(concat3("a", "", "c"), "ac");
    assert!(same_text("a", "a"));
    assert!(!same_text("a", "A"));
}

#[test]
fn identifiers_and_times() {
    let a = new_id();
    let b = new_id();
    assert_eq!(a.len(), 36);
    assert_ne!(a, b);
    assert_eq!(a.matches('-').count(), 4);
    let now = Timestamp::now();
    assert!(now.text.ends_with('Z'));
    assert!(now.text.contains('T'));
    assert_eq!(now.clone().text, now.text);
}

#[test]
fn json_documents() {
    let doc = Json::Object(vec![
        ("b".to_string(), Json::Array(vec![Json::Null, Json::Bool(true), Json::Int(-3)])),
        ("a".to_string(), Json::text("x\"y")),
        ("n".to_string(), Json::UInt(18446744073709551615)),
        ("a".to_string(), Json::text("later")),
    ]);
    // members are written by name, and a later member replaces an earlier one
    assert_eq!(
        doc.to_text().unwrap(),
        "{\"a\":\"later\",\"b\":[null,true,-3],\"n\":18446744073709551615}"
    );
    assert_eq!(doc.get_str("a"), Some("later"));
    assert_eq!(doc.get_u64("n"), Some(u64::MAX));
    assert_eq!(doc.get_u64("a"), None);
    assert_eq!(doc.get_str("n"), None);
    assert!(doc.get("zzz").is_none());
    assert!(Json::Null.get("a").is_none());
    assert_eq!(Json::Int(5).as_u64(), Some(5));
    assert_eq!(Json::Int(-5).as_u64(), None);
    assert_eq!(Json::text("x").as_u64(), None);
    assert_eq!(Json::text("x").as_str(), Some("x"));
    assert_eq!(Json::empty_object().to_text().unwrap(), "{}");
    assert_eq!(Json::array(vec![Json::UInt(1)]).to_text().unwrap(), "[1]");
    assert_eq!(doc.clone().to_text().unwrap(), doc.to_text().unwrap());
    assert_eq!(Json::text("a\nb").to_text().unwrap(), "\"a\\nb\"");
}

#[test]
fn json_numbers_with_a_fraction() {
    let doc = Json::Array(vec![Json::Real("0.700".to_string()), Json::Real("1e3".to_string()), Json::Real("x".to_string())]);
    // a number that is kept as its text is printed as the reader reads it
    assert_eq!(doc.to_text().unwrap(), "[0.7,1000.0,null]");
    assert_eq!(Json::Real("2.50".to_string()).to_text_pretty().unwrap(), "2.5");
}

#[test]
fn json_texts_are_parsed() {
    let doc = Json::parse(r#"{"b": [null, true, -3, 2.5], "a": "x", "n": 18446744073709551615, "o": {}}"#).unwrap();
    assert_eq!(doc.get_str("a"), Some("x"));
    assert_eq!(doc.get_u64("n"), Some(u64::MAX));
    match doc.get("b") {
        Some(Json::Array(items)) => {
            assert!(matches!(items[0], Json::Null));
            assert!(matches!(items[1], Json::Bool(true)));
            assert!(matches!(items[2], Json::Int(-3)));
            assert!(matches!(&items[3], Json::Real(t) if t == "2.5"));
        }
        other => panic!("unexpected array: {:?}", other),
    }
    assert_eq!(doc.to_text().unwrap(), r#"{"a":"x","b":[null,true,-3,2.5],"n":18446744073709551615,"o":{}}"#);
    assert!(matches!(Json::parse("7").unwrap(), Json::UInt(7)));
    assert!(matches!(Json::parse("false").unwrap(), Json::Bool(false)));
    assert!(Json::parse("{").is_err());
    assert!(Json::parse("").is_err());
    let twice = Json::parse(r#"{"a": 1, "a": 2}"#).unwrap();
    assert_eq!(twice.get_u64("a"), Some(2));
    let pretty = Json::parse(r#"{"a":[1]}"#).unwrap().to_text_pretty().unwrap();
    assert_eq!(pretty, "{\n  \"a\": [\n    1\n  ]\n}");
    assert_eq!(doc.get_usize("n").is_some(), usize::MAX as u64 == u64::MAX);
    assert!(doc.get_present("o").is_some());
    assert!(Json::parse(r#"{"z": null}"#).unwrap().get_present("z").is_none());
    assert_eq!(doc.get("b").unwrap().as_array().unwrap().len(), 4);
}

#[test]
fn thousandths() {
    assert_eq!(format_thousandths(700), "0.700");
    assert_eq!(format_thousandths(0), "0.000");
    assert_eq!(format_thousandths(1005), "1.005");
    assert_eq!(format_thousandths(u32::MAX), "4294967.295");
    assert_eq!(parse_thousandths("0.7"), Some(700));
    assert_eq!(parse_thousandths("0.700"), Some(700));
    assert_eq!(parse_thousandths("0.7009"), Some(700));
    assert_eq!(parse_thousandths("12"), Some(12000));
    assert_eq!(parse_thousandths("12.34"), Some(12340));
    assert_eq!(parse_thousandths("4294967.295"), Some(u32::MAX));
    assert_eq!(parse_thousandths("4294967.296"), None);
    assert_eq!(parse_thousandths("4294968"), None);
    for bad in ["", ".", "1.", ".5", "-1", "1e3", "1.2.3", " 1", "1,5", "0x10"] {
        assert_eq!(parse_thousandths(bad), None, "{:?}", bad);
    }
    assert_eq!(parse_digits("0042"), Some(42));
    assert_eq!(parse_digits("18446744073709551615"), Some(u64::MAX));
    assert_eq!(parse_digits("18446744073709551616"), None);
    assert_eq!(parse_digits(""), None);
    assert_eq!(parse_digits("4a"), None);
}

#[test]
fn the_current_time_is_written_in_utc() {
    let now = Timestamp::now();
    assert!(now.text.ends_with('Z'));
    assert!(now.text.len() >= 20);
    assert_eq!(&now.text[4..5], "-");
    assert_eq!(&now.text[10..11], "T");
}

#[test]
fn every_document_prints() {
    let odd = Json::array(vec![
        Json::Real("not a number".to_string()),
        Json::Real("1e400".to_string()),
        Json::Int(i64::MIN),
        Json::UInt(u64::MAX),
        Json::text("\u{0}\u{1f}\"\\"),
        Json::object(vec![("".to_string(), Json::Null), ("".to_string(), Json::Bool(true))]),
    ]);
    assert!(odd.to_text().is_ok());
    assert!(odd.to_text_pretty().is_ok());
    assert_eq!(
        Json::array(vec![Json::Int(i64::MIN), Json::UInt(u64::MAX)]).to_text(),
        Ok("[-9223372036854775808,18446744073709551615]".to_string())
    );
}

#[test]
fn a_later_member_replaces_an_earlier_one_in_print() {
    let twice = Json::object(vec![
        ("a".to_string(), Json::UInt(1)),
        ("b".to_string(), Json::text("x")),
        ("a".to_string(), Json::UInt(2)),
    ]);
    assert_eq!(twice.to_text(), Ok("{\"a\":2,\"b\":\"x\"}".to_string()));
    assert_eq!(Json::empty_object().to_text(), Ok("{}".to_string()));
}
