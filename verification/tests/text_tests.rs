use lightkeeper::sorting::sort_by_lowercase;
use lightkeeper::text::{
    append_decimal, append_text, contains_str, first_nonempty_trimmed_line, is_alphanumeric,
    is_alphanumeric_with, replace_text, split_on_char, text_is_less, trim,
};

#[test]
fn trim_removes_surrounding_white_space() {
    assert_eq!(trim("  hello world \n\t"), "hello world");
    assert_eq!(trim("\u{a0}x\u{3000}"), "x");
    assert_eq!(trim("   "), "");
    assert_eq!(trim(""), "");
}

#[test]
fn first_nonempty_line_skips_blank_lines() {
    assert_eq!(first_nonempty_trimmed_line("\n  \n  /usr/bin/x  \nnext"), Some(String::from("/usr/bin/x")));
    assert_eq!(first_nonempty_trimmed_line("one"), Some(String::from("one")));
    assert_eq!(first_nonempty_trimmed_line(" \n\t\n"), None);
    assert_eq!(first_nonempty_trimmed_line(""), None);
}

#[test]
fn split_keeps_empty_pieces() {
    assert_eq!(split_on_char("-e bash", ' '), vec![String::from("-e"), String::from("bash")]);
    assert_eq!(split_on_char("a  b", ' '), vec![String::from("a"), String::new(), String::from("b")]);
    assert_eq!(split_on_char("", ' '), vec![String::new()]);
    assert_eq!(split_on_char("x ", ' '), vec![String::from("x"), String::new()]);
}

#[test]
fn replace_and_contains() {
    assert_eq!(replace_text("Edit %s now %s", "%s", "f.txt"), "Edit f.txt now f.txt");
    assert_eq!(replace_text("no marker", "%s", "f"), "no marker");
    assert_eq!(replace_text("%%s", "%s", "x"), "%x");
    assert!(contains_str("title %s", "%s"));
    assert!(!contains_str("title %", "%s"));
    assert!(contains_str("abc", ""));
}

#[test]
fn decimal_text_of_integers() {
    let mut s = String::from("exit ");
    append_decimal(&mut s, -1);
    assert_eq!(s, "exit -1");
    let mut t = String::new();
    append_decimal(&mut t, 127);
    assert_eq!(t, "127");
    let mut m = String::new();
    append_decimal(&mut m, i64::MIN);
    assert_eq!(m, i64::MIN.to_string());
    let mut z = String::new();
    append_decimal(&mut z, 0);
    assert_eq!(z, "0");
}

#[test]
fn append_text_concatenates() {
    let mut s = String::from("ab");
    append_text(&mut s, "cd");
    assert_eq!(s, "abcd");
}

#[test]
fn alphanumeric_checks() {
    assert!(is_alphanumeric_with("view-list-2", "-"));
    assert!(!is_alphanumeric_with("view_list", "-"));
    assert!(is_alphanumeric("MiB"));
    assert!(is_alphanumeric("é"));
    assert!(!is_alphanumeric("%"));
    assert!(is_alphanumeric(""));
}

#[test]
fn lowercase_wrapper_changes_letters() {
    assert_eq!(sort_by_lowercase(&vec![String::from("a"), String::from("B")]), vec!["a", "B"]);
    assert_eq!(sort_by_lowercase(&vec![String::from("Up-2"), String::from("up-1")]), vec!["up-1", "Up-2"]);
}

#[test]
fn text_order_is_string_order() {
    assert!(text_is_less("apple", "banana"));
    assert!(text_is_less("app", "apple"));
    assert!(!text_is_less("apple", "app"));
    assert!(!text_is_less("same", "same"));
    assert!(text_is_less("", "a"));
    assert_eq!(text_is_less("Zeta", "alpha"), String::from("Zeta") < String::from("alpha"));
}
