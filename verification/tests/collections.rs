//! Texts, tables and orders.
use waldur_cli_generator::order::{at_most, sort_by_name, sorted_unique};
use waldur_cli_generator::reference_docs::IndexEntry;
use waldur_cli_generator::table::{NameSet, Table};
use waldur_cli_generator::text::{
    capitalize, chars_of, copy_strings, decimal_text, has_char, has_name, join, last_segment,
    remove_char, replace_char, same, split_once, strip_prefix, text_of, trim_end,
};

fn strings(texts: &[&str]) -> Vec<String> {
    texts.iter().map(|s| s.to_string()).collect()
}

#[test]
fn texts_are_compared_by_their_characters() {
    assert!(same("a\u{e4}", "a\u{e4}"));
    assert!(!same("a", "b"));
    assert!(!same("a", ""));
    assert_eq!(chars_of("a\u{e4}"), vec!['a', '\u{e4}']);
    assert_eq!(text_of(&vec!['a', '\u{e4}', 'c'], 1, 3), "\u{e4}c");
    assert_eq!(copy_strings(&strings(&["a", "b"])), strings(&["a", "b"]));
}

#[test]
fn texts_are_searched() {
    assert!(has_name(&strings(&["a", "b"]), "b"));
    assert!(!has_name(&strings(&["a", "b"]), "c"));
    assert!(has_char("a/b", '/'));
    assert!(!has_char("ab", '/'));
    assert_eq!(strip_prefix("/api/x", "/api/").as_deref(), Some("x"));
    assert_eq!(strip_prefix("/ap", "/api/"), None);
    assert_eq!(last_segment("#/components/schemas/X", '/'), "X");
    assert_eq!(last_segment("X", '/'), "X");
    assert_eq!(last_segment("a/", '/'), "");
}

#[test]
fn texts_are_taken_apart() {
    let parts = |text, needle| split_once(text, needle);
    assert_eq!(parts("a{u}b{u}c", "{u}"), Some(("a".to_string(), "b{u}c".to_string())));
    assert_eq!(parts("{u}", "{u}"), Some((String::new(), String::new())));
    assert_eq!(parts("a{u", "{u}"), None);
    assert_eq!(parts("a", ""), Some((String::new(), "a".to_string())));
    assert_eq!(trim_end("a//", '/'), "a");
    assert_eq!(trim_end("//", '/'), "");
    assert_eq!(trim_end("a/b", '/'), "a/b");
}

#[test]
fn texts_are_changed() {
    assert_eq!(replace_char("a-b-c", '-', '_'), "a_b_c");
    assert_eq!(remove_char("a b c", ' '), "abc");
    assert_eq!(join(&strings(&["a", "b", "c"]), ", "), "a, b, c");
    assert_eq!(join(&strings(&["a"]), ", "), "a");
    assert_eq!(join(&Vec::new(), ", "), "");
    assert_eq!(capitalize("list"), "List");
    assert_eq!(capitalize("\u{df}x"), "SSx");
    assert_eq!(capitalize(""), "");
    assert_eq!(decimal_text(0), "0");
    assert_eq!(decimal_text(9), "9");
    assert_eq!(decimal_text(1205), "1205");
}

#[test]
fn texts_are_ordered() {
    let samples = ["", "-a", "A", "B", "a", "aa", "ab", "b", "\u{e4}", "\u{ffff}", "\u{10000}"];
    for a in samples {
        for b in samples {
            assert_eq!(at_most(a, b), a <= b);
        }
    }
    assert_eq!(sorted_unique(&strings(&["b", "a", "b", "c", "a"])), strings(&["a", "b", "c"]));
    assert!(sorted_unique(&Vec::new()).is_empty());
}

fn entry(resource: &str, group: &str) -> IndexEntry {
    IndexEntry { group: group.to_string(), resource: resource.to_string(), verbs: Vec::new() }
}

#[test]
fn sorting_keeps_equal_names_in_their_order() {
    let sorted =
        sort_by_name(vec![entry("b", "1"), entry("a", "2"), entry("b", "3"), entry("a", "4")]);
    let groups: Vec<&str> = sorted.iter().map(|e| e.group.as_str()).collect();
    assert_eq!(groups, vec!["2", "4", "1", "3"]);
}

#[test]
fn a_table_keeps_the_order_of_its_names() {
    let mut table: Table<i32> = Table::new();
    assert_eq!(table.len(), 0);
    assert_eq!(table.get("a"), None);
    table.insert("b".to_string(), 1);
    table.insert("a".to_string(), 2);
    table.insert("b".to_string(), 3);
    assert_eq!(table.len(), 2);
    assert_eq!(table.name_at(0), "b");
    assert_eq!(table.value_at(0), &3);
    assert_eq!(table.name_at(1), "a");
    assert_eq!(table.get("a"), Some(&2));
    assert!(table.contains_key("b"));
    assert!(!table.contains_key("c"));
}

#[test]
fn a_set_of_names() {
    let mut set = NameSet::new();
    assert!(!set.contains("a"));
    set.insert("a");
    set.insert("a");
    assert!(set.contains("a"));
    set.remove("a");
    assert!(!set.contains("a"));
    set.remove("a");
    assert!(!set.contains("a"));
}
