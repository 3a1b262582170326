use ri_agent::json::{
    lenient_unsigned, object_of_one, object_of_two, owned_text_member, parse_unsigned,
    text_array_member,
};
use ri_agent::text::{
    bytes_up_to, clone_texts, contains_text, eq_ignore_case, file_extension, file_stem, join,
    number_text, same, split_lines, split_words, starts_with, trim, truncate,
};

fn json(text: &str) -> serde_json::Value {
    serde_json::from_str(text).unwrap()
}

fn strings(items: &[&str]) -> Vec<String> {
    items.iter().map(|s| s.to_string()).collect()
}

#[test]
fn truncate_cuts_at_a_character() {
    assert_eq!(truncate("hello", 5), "hello");
    assert_eq!(truncate("hello", 4), "hell...");
    assert_eq!(truncate("h\u{e9}llo", 2), "h...");
    assert_eq!(truncate("\u{1f600}x", 3), "...");
    assert_eq!(truncate("", 0), "");
}

#[test]
fn trim_takes_unicode_space() {
    assert_eq!(trim(" \t\u{a0}a b\u{3000}\n"), "a b");
    assert_eq!(trim(trim("  x ").as_str()), "x");
    assert_eq!(trim("\u{2003}"), "");
}

#[test]
fn words_are_split_and_joined() {
    assert_eq!(split_words("  a\n bc\u{2009}d "), ["a", "bc", "d"]);
    assert!(split_words(" \r\n").is_empty());
    assert_eq!(join(&strings(&["a", "b", "c"]), ", "), "a, b, c");
    assert_eq!(join(&strings(&["a"]), ", "), "a");
    assert_eq!(join(&Vec::new(), ", "), "");
}

#[test]
fn lines_end_with_line_feeds() {
    assert_eq!(split_lines("foo\nbar\n\r\nbaz\r"), ["foo", "bar", "", "baz\r"]);
    assert_eq!(split_lines("a\r\nb\n"), ["a", "b"]);
    assert_eq!(split_lines("\n"), [""]);
    assert!(split_lines("").is_empty());
}

#[test]
fn bytes_are_counted_up_to_a_limit() {
    assert_eq!(bytes_up_to("a\u{e9}\u{20ac}\u{1f600}", 100), 10);
    assert_eq!(bytes_up_to("a\u{e9}\u{20ac}", 3), 3);
}

#[test]
fn text_comparisons() {
    assert!(same("a", "a") && !same("a", "A"));
    assert!(eq_ignore_case("dEfEr", "DEFER") && !eq_ignore_case("DEFERR", "DEFER"));
    assert!(!eq_ignore_case("\u{e9}", "\u{c9}"));
    assert!(starts_with("/login x", "/login") && !starts_with("/log", "/login"));
    assert!(contains_text(&strings(&["x", "y"]), "y") && !contains_text(&strings(&["x"]), "y"));
    assert_eq!(clone_texts(&strings(&["x", "y"])), ["x", "y"]);
}

#[test]
fn numbers_are_written_in_decimal() {
    assert_eq!(number_text(0), "0");
    assert_eq!(number_text(1234567890), "1234567890");
    assert_eq!(number_text(u64::MAX as u128), u64::MAX.to_string());
}

#[test]
fn file_names_have_stems_and_extensions() {
    assert_eq!(file_extension("a.b.jsonl").as_deref(), Some("jsonl"));
    assert_eq!(file_stem("a.b.jsonl"), "a.b");
    assert_eq!(file_extension(".jsonl"), None);
    assert_eq!(file_stem(".jsonl"), ".jsonl");
    assert_eq!(file_extension("name."), Some(String::new()));
    assert_eq!(file_extension("name"), None);
}

#[test]
fn unsigned_numbers_are_read_from_text() {
    assert_eq!(parse_unsigned("007"), Some(7));
    assert_eq!(parse_unsigned("+5"), Some(5));
    assert_eq!(parse_unsigned("18446744073709551615"), Some(u64::MAX));
    assert_eq!(parse_unsigned("18446744073709551616"), None);
    for bad in ["", "+", "-1", " 1", "1a", "++1"] {
        assert_eq!(parse_unsigned(bad), None);
    }
}

#[test]
fn json_numbers_may_come_as_text() {
    assert_eq!(lenient_unsigned(&json("12")), Some(12));
    assert_eq!(lenient_unsigned(&json("\"12\"")), Some(12));
    assert_eq!(lenient_unsigned(&json("-3")), None);
    assert_eq!(lenient_unsigned(&json("1.0")), None);
    assert_eq!(lenient_unsigned(&json("[1]")), None);
}

#[test]
fn json_members_are_read() {
    let v = json("{\"a\":\"x\",\"b\":[\"p\",null,\"q\"],\"c\":1}");
    assert_eq!(owned_text_member(&v, "a").as_deref(), Some("x"));
    assert_eq!(owned_text_member(&v, "c"), None);
    assert_eq!(owned_text_member(&json("[]"), "a"), None);
    assert_eq!(text_array_member(&v, "b").unwrap(), ["p", "q"]);
    assert!(text_array_member(&v, "a").is_none());
}

#[test]
fn later_members_replace_earlier_ones() {
    let number = |n: u64| serde_json::Value::from(n);
    let two = object_of_two("a", number(1), "b", number(2));
    assert_eq!(two.to_string(), "{\"a\":1,\"b\":2}");
    let same = object_of_two("a", number(1), "a", number(2));
    assert_eq!(same.to_string(), "{\"a\":2}");
    assert_eq!(object_of_one("k", number(3)).to_string(), "{\"k\":3}");
}
