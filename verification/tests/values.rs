use planeai_plugin_github::codec::{from_value, parse_json, render_json, to_value};
use planeai_plugin_github::json::{Json, Object, has_text};
use planeai_plugin_github::table::Table;
use planeai_plugin_github::text::{
    contains, find, is_blank, same_letters, split_lines, starts_with, tail, take_chars,
    to_decimal, to_small_letters, trim, trim_trailing,
};

#[test]
fn json_texts_are_read_and_written_back() {
    let text = r#"{"z":[1,-2,0.5,true,null,"\"ä\n"],"a":{}}"#;
    let json = parse_json(text).unwrap();
    assert_eq!(render_json(&json), r#"{"a":{},"z":[1,-2,0.5,true,null,"\"ä\n"]}"#);
    assert_eq!(json.copy(), json);
    assert_eq!(from_value(to_value(&json)), json);
}

#[test]
fn texts_that_are_no_json_are_refused_with_a_message() {
    assert_eq!(
        parse_json("{").unwrap_err(),
        "EOF while parsing an object at line 1 column 1"
    );
    assert!(parse_json("").is_err());
    assert!(parse_json("1 2").is_err());
}

#[test]
fn of_two_members_with_one_key_the_later_counts() {
    let json = parse_json(r#"{"a":1,"a":2}"#).unwrap();
    assert_eq!(json.natural_at("a"), Some(2));
    assert_eq!(render_json(&json), r#"{"a":2}"#);
}

#[test]
fn members_are_read_by_their_kind() {
    let json = parse_json(r#"{"t":"x","n":7,"m":-7,"f":7.0,"b":false,"l":[1]}"#).unwrap();
    assert_eq!(json.text_at("t"), Some("x"));
    assert_eq!(json.text_at("n"), None);
    assert_eq!(json.natural_at("n"), Some(7));
    assert_eq!(json.natural_at("m"), None);
    assert_eq!(json.natural_at("f"), None);
    assert_eq!(json.bool_at("b"), Some(false));
    assert_eq!(json.bool_at("t"), None);
    assert_eq!(json.items_at("l").map(|items| items.len()), Some(1));
    assert_eq!(json.items_at("t"), None);
    assert_eq!(json.copy_at("none"), Json::Null);
    assert!(has_text(&json, "t", "x"));
    assert!(!has_text(&json, "n", "7"));
    assert_eq!(Json::Null.get("t"), None);
    assert_eq!(Json::natural(u64::MAX).as_u64(), Some(u64::MAX));
    assert_eq!(render_json(&Json::integer(i64::MIN)), "-9223372036854775808");
}

#[test]
fn objects_keep_their_keys_in_order() {
    let mut object = Object::new();
    for key in ["b", "a", "ab", "b", ""] {
        object.insert(key.to_string(), Json::text(key));
    }
    let keys: Vec<&str> = (0..object.len()).map(|at| object.entry(at).0.as_str()).collect();
    assert_eq!(keys, ["", "a", "ab", "b"]);
}

#[test]
fn tables_hold_each_key_once() {
    let mut table: Table<u32> = Table::new();
    assert!(table.is_empty());
    table.insert("a".to_string(), 1);
    table.insert("b".to_string(), 2);
    table.insert("a".to_string(), 3);
    assert_eq!(table.len(), 2);
    assert_eq!(table.get("a"), Some(&3));
    assert_eq!(table.remove("a"), Some(3));
    assert_eq!(table.remove("a"), None);
    assert_eq!(table.get("b"), Some(&2));
    assert_eq!(table.entry(0), (&"b".to_string(), &2));
}

#[test]
fn texts_are_trimmed_searched_and_cut() {
    assert_eq!(trim("\u{3000} a b\t\n"), "a b");
    assert_eq!(trim(" \u{85}"), "");
    assert!(is_blank("\u{a0}\u{2028}"));
    assert!(!is_blank("\u{200b}"));
    assert_eq!(find("ääb", "b"), Some(2));
    assert_eq!(find("ab", ""), Some(0));
    assert_eq!(find("ab", "abc"), None);
    assert!(contains("abc", "bc"));
    assert!(starts_with("abc", "ab"));
    assert!(!starts_with("a", "ab"));
    assert_eq!(trim_trailing("x.git.git", ".git"), "x");
    assert_eq!(to_small_letters("AÄz"), "aÄz");
    assert!(same_letters("FaIl", "fAiL"));
    assert_eq!(take_chars("äöü", 2), "äö");
    assert_eq!(to_decimal(0), "0");
    assert_eq!(to_decimal(u64::MAX), "18446744073709551615");
}

#[test]
fn texts_are_split_into_lines() {
    assert_eq!(split_lines(""), Vec::<String>::new());
    assert_eq!(split_lines("\n"), [""]);
    assert_eq!(split_lines("a\r\nb\n\nc\r"), ["a", "b", "", "c\r"]);
    assert_eq!(tail("a\nb\nc\n", 2), "b\nc");
    assert_eq!(tail("a\n", 2), "a");
    assert_eq!(tail("", 2), "");
}
