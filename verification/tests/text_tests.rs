use floating_memo::text::{ends_with, push_decimal, same_text, starts_with};

#[test]
fn decimal_notation_of_positive_zero_and_negative() {
    let mut s = String::from("x=");
    push_decimal(&mut s, 1700000000000);
    assert_eq!(s, "x=1700000000000");
    let mut z = String::new();
    push_decimal(&mut z, 0);
    assert_eq!(z, "0");
    let mut n = String::new();
    push_decimal(&mut n, -42);
    assert_eq!(n, "-42");
}

#[test]
fn decimal_notation_of_extremes() {
    let mut a = String::new();
    push_decimal(&mut a, i64::MIN);
    assert_eq!(a, i64::MIN.to_string());
    let mut b = String::new();
    push_decimal(&mut b, i64::MAX);
    assert_eq!(b, i64::MAX.to_string());
}

#[test]
fn prefix_suffix_and_equality() {
    assert!(starts_with("notes-1.db", "notes-"));
    assert!(!starts_with("note", "notes-"));
    assert!(ends_with("notes-1.db", ".db"));
    assert!(!ends_with("notes-1.dbx", ".db"));
    assert!(starts_with("日本語メモ", "日本"));
    assert!(same_text("abc", "abc"));
    assert!(!same_text("abc", "abd"));
    assert!(!same_text("abc", "ab"));
}
