use tskmstr::text::{
    chars_of, contains_text, decimal_text, find_first, join_with, same_chars, same_text,
    sorted_distinct, text_precedes,
};

fn strings(items: &[&str]) -> Vec<String> {
    items.iter().map(|s| s.to_string()).collect()
}

#[test]
fn chars_of_lists_the_characters() {
    assert_eq!(chars_of("a/b"), vec!['a', '/', 'b']);
    assert_eq!(chars_of(""), Vec::<char>::new());
    assert_eq!(chars_of("\u{e9}x"), vec!['\u{e9}', 'x']);
}

#[test]
fn same_text_compares_by_content() {
    assert!(same_text("gh0", "gh0"));
    assert!(!same_text("gh0", "gh"));
    assert!(!same_text("gh0", "gh1"));
    assert!(same_text("", ""));
    assert!(same_chars(&vec!['a'], &vec!['a']));
    assert!(!same_chars(&vec!['a'], &vec!['b']));
}

#[test]
fn find_first_gives_the_first_position_or_the_length() {
    assert_eq!(find_first(&chars_of("gh0/12/3"), '/'), 3);
    assert_eq!(find_first(&chars_of("gh0"), '/'), 3);
    assert_eq!(find_first(&chars_of("/x"), '/'), 0);
    assert_eq!(find_first(&chars_of(""), '/'), 0);
}

#[test]
fn contains_text_finds_equal_strings_only() {
    let items = strings(&["urgent", "soon"]);
    assert!(contains_text(&items, "soon"));
    assert!(!contains_text(&items, "so"));
    assert!(!contains_text(&items, "Urgent"));
    assert!(!contains_text(&Vec::new(), "urgent"));
}

#[test]
fn join_with_puts_the_separator_between_parts() {
    assert_eq!(join_with(&strings(&["a", "b", "c"]), ", "), "a, b, c");
    assert_eq!(join_with(&strings(&["a"]), ", "), "a");
    assert_eq!(join_with(&strings(&[]), ", "), "");
    assert_eq!(join_with(&strings(&["", ""]), "-"), "-");
}

#[test]
fn text_precedes_orders_as_strings_do() {
    let samples = ["", "a", "ab", "b", "B", "priority", "10", "9", "\u{e9}", "z", "a\u{0}"];
    for a in samples {
        for b in samples {
            assert_eq!(text_precedes(&chars_of(a), &chars_of(b)), a < b);
        }
    }
}

#[test]
fn sorted_distinct_sorts_and_drops_repeats() {
    assert_eq!(
        sorted_distinct(&strings(&["ui", "bug", "ui", "api", "bug"])),
        strings(&["api", "bug", "ui"])
    );
    assert_eq!(sorted_distinct(&strings(&[])), strings(&[]));
    assert_eq!(sorted_distinct(&strings(&["b", "a"])), strings(&["a", "b"]));
}

#[test]
fn decimal_text_writes_numbers_without_leading_zeros() {
    assert_eq!(decimal_text(0), "0");
    assert_eq!(decimal_text(7), "7");
    assert_eq!(decimal_text(10), "10");
    assert_eq!(decimal_text(123), "123");
    assert_eq!(decimal_text(4294967295), "4294967295");
}
