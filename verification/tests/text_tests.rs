use elm_duet::error::{Error, ErrorKind};
use elm_duet::inflected_string::{sanitize, to_camel, to_pascal, InflectedString};
use elm_duet::sorted_map::SortedMap;
use elm_duet::text::{
    contains_char, first_char, join_strings, push_parenthesized, replace_char_with, split_on,
    str_eq, str_lt,
};

#[test]
fn replace_char_with_indents_every_line() {
    assert_eq!(replace_char_with("a\nb\n\nc", '\n', "\n    "), "a\n    b\n    \n    c");
}

#[test]
fn replace_char_with_leaves_other_text_alone() {
    assert_eq!(replace_char_with("no newline", '\n', "\n  "), "no newline");
    assert_eq!(replace_char_with("", '\n', "\n  "), "");
    assert_eq!(replace_char_with("a.b", '.', ""), "ab");
}

#[test]
fn contains_char_finds_spaces() {
    assert!(contains_char("Maybe Int", ' '));
    assert!(!contains_char("Int", ' '));
    assert!(!contains_char("", ' '));
}

#[test]
fn first_char_of_texts() {
    assert_eq!(first_char("abc"), Some('a'));
    assert_eq!(first_char("√2"), Some('√'));
    assert_eq!(first_char(""), None);
}

#[test]
fn push_parenthesized_wraps_only_texts_with_spaces() {
    let mut out = String::from("List ");
    push_parenthesized(&mut out, "Maybe Int");
    assert_eq!(out, "List (Maybe Int)");

    let mut out = String::from("List ");
    push_parenthesized(&mut out, "Int");
    assert_eq!(out, "List Int");
}

#[test]
fn split_on_dots() {
    assert_eq!(split_on("Main", '.'), vec!["Main".to_string()]);
    assert_eq!(split_on("A.B.C", '.'), vec!["A".to_string(), "B".to_string(), "C".to_string()]);
    assert_eq!(split_on("", '.'), vec!["".to_string()]);
    assert_eq!(split_on("A.", '.'), vec!["A".to_string(), "".to_string()]);
    assert_eq!(split_on(".A", '.'), vec!["".to_string(), "A".to_string()]);
}

#[test]
fn join_strings_puts_the_separator_between() {
    assert_eq!(join_strings(&vec!["A".to_string(), "B".to_string()], "."), "A.B");
    assert_eq!(join_strings(&vec!["A".to_string()], "."), "A");
    assert_eq!(join_strings(&Vec::new(), "."), "");
    assert_eq!(join_strings(&vec!["".to_string(), "".to_string()], "/"), "/");
}

#[test]
fn split_then_join_gives_the_text_back() {
    for text in ["", "Main", "A.B.C", "..", "A..B."] {
        assert_eq!(join_strings(&split_on(text, '.'), "."), text);
    }
}

#[test]
fn str_lt_is_the_order_of_strings() {
    let samples = ["", "a", "ab", "b", "B", "tag", "value", "é", "z", "日本", "a\u{10000}", "aé"];
    for a in samples {
        for b in samples {
            assert_eq!(str_lt(a, b), a < b, "{a:?} < {b:?}");
            assert_eq!(str_eq(a, b), a == b, "{a:?} == {b:?}");
        }
    }
}

#[test]
fn sorted_map_keeps_keys_in_order() {
    let mut map: SortedMap<u32> = SortedMap::new();
    assert!(map.is_empty());
    map.insert("tag".to_string(), 1);
    map.insert("a".to_string(), 2);
    map.insert("value".to_string(), 3);
    map.insert("b".to_string(), 4);

    assert_eq!(map.len(), 4);
    assert!(!map.is_empty());
    assert_eq!(map.key_at(0), "a");
    assert_eq!(map.key_at(1), "b");
    assert_eq!(map.key_at(2), "tag");
    assert_eq!(map.key_at(3), "value");
    assert_eq!(*map.value_at(2), 1);
    assert_eq!(
        map.into_entries(),
        vec![
            ("a".to_string(), 2),
            ("b".to_string(), 4),
            ("tag".to_string(), 1),
            ("value".to_string(), 3)
        ]
    );
}

#[test]
fn sorted_map_insert_replaces_the_value_of_a_key() {
    let mut map: SortedMap<u32> = SortedMap::new();
    map.insert("a".to_string(), 1);
    map.insert("b".to_string(), 2);
    map.insert("a".to_string(), 3);

    assert_eq!(map.len(), 2);
    assert_eq!(map.get("a"), Some(&3));
    assert_eq!(map.get("b"), Some(&2));
    assert_eq!(map.get("c"), None);
    assert_eq!(map.position("b"), Some(1));
    assert_eq!(map.position("c"), None);
}

#[test]
fn sorted_map_from_entries_keeps_the_last_value_of_a_key() {
    let map = SortedMap::from_entries(vec![
        ("b".to_string(), 1),
        ("a".to_string(), 2),
        ("b".to_string(), 3),
    ]);

    assert_eq!(map.into_entries(), vec![("a".to_string(), 2), ("b".to_string(), 3)]);
}

#[test]
fn sorted_map_equal_when_filled_in_another_order() {
    let one = SortedMap::from_entries(vec![("a".to_string(), 1), ("b".to_string(), 2)]);
    let other = SortedMap::from_entries(vec![("b".to_string(), 2), ("a".to_string(), 1)]);

    assert_eq!(one, other);
}

#[test]
fn pascal_case_of_names() {
    assert_eq!(to_pascal("foo_bar").unwrap(), "FooBar");
    assert_eq!(to_pascal("fooBar").unwrap(), "FooBar");
    assert_eq!(to_pascal("notificationPermission").unwrap(), "NotificationPermission");
    assert_eq!(to_pascal("").unwrap(), "");
    assert_eq!(InflectedString::from("new_msg").to_pascal_case().unwrap(), "NewMsg");
}

#[test]
fn camel_case_of_names() {
    assert_eq!(to_camel("foo_bar").unwrap(), "fooBar");
    assert_eq!(to_camel("FooBar").unwrap(), "fooBar");
    assert_eq!(to_camel("Flags").unwrap(), "flags");
    assert_eq!(InflectedString::from("nick_name".to_string()).to_camel_case().unwrap(), "nickName");
}

#[test]
fn names_that_start_with_a_digit_are_refused() {
    let err = to_pascal("1abc").unwrap_err();
    assert_eq!(err.kind(), ErrorKind::IdentifierInvalid);
    assert_eq!(err.message(), "identifier `1abc` cannot start with a digit");

    let err = InflectedString::from("9lives").to_camel_case().unwrap_err();
    assert_eq!(err.kind(), ErrorKind::IdentifierInvalid);
    assert_eq!(err.message(), "identifier `9lives` cannot start with a digit");

    for digit in ["0", "1", "2", "3", "4", "5", "6", "7", "8", "9"] {
        assert!(sanitize(digit).is_err());
    }
}

#[test]
fn names_that_start_with_another_numeric_character_are_refused() {
    assert!(sanitize("٣abc").is_err());
    assert!(sanitize("½").is_err());
}

#[test]
fn names_that_start_otherwise_are_accepted() {
    assert!(sanitize("abc1").is_ok());
    assert!(sanitize("_1").is_ok());
    assert!(sanitize("").is_ok());
}

#[test]
fn error_messages_from_the_outside_in() {
    let err = Error::new(ErrorKind::UnresolvedReference, "cause".to_string());
    assert_eq!(err.message(), "cause");
    assert_eq!(err.root_cause(), "cause");
    assert_eq!(err.chain(), vec!["cause".to_string()]);

    let err = err.wrap("inner".to_string()).wrap("outer".to_string());
    assert_eq!(err.kind(), ErrorKind::UnresolvedReference);
    assert_eq!(err.message(), "outer");
    assert_eq!(err.root_cause(), "cause");
    assert_eq!(err.chain(), vec!["outer".to_string(), "inner".to_string(), "cause".to_string()]);
}
