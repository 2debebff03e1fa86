use lists::order::{insert_sorted, sort_lines, str_le};

#[test]
fn str_le_orders_by_byte_value() {
    assert!(str_le("abc", "abd"));
    assert!(!str_le("abd", "abc"));
    assert!(str_le("abc", "abc"));
    assert!(str_le("ab", "abc"));
    assert!(!str_le("abc", "ab"));
    assert!(str_le("", "a"));
    // '.' (0x2E) sorts before 'A' (0x41), which sorts before 'a' (0x61)
    assert!(str_le(".hidden", "Apple"));
    assert!(str_le("Apple", "apple"));
}

#[test]
fn sort_lines_orders_ascending_and_keeps_duplicates() {
    let lines = vec![
        String::from("pear"),
        String::from("apple"),
        String::from("pear"),
        String::from("fig"),
    ];
    let sorted = sort_lines(&lines);
    assert_eq!(vec!["apple", "fig", "pear", "pear"], sorted);
}

#[test]
fn insert_sorted_places_the_line_before_its_first_upper_bound() {
    let lines = vec![String::from("a"), String::from("c")];
    assert_eq!(vec!["a", "b", "c"], insert_sorted(String::from("b"), &lines));
    assert_eq!(vec!["a", "c", "d"], insert_sorted(String::from("d"), &lines));
}
