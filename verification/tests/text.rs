use webgenr::text::chars_of;
use webgenr::text::decimal_string;
use webgenr::text::find_from;
use webgenr::text::occurs;
use webgenr::text::str_eq;

fn chars(s: &str) -> Vec<char> {
    s.chars().collect()
}

#[test]
fn chars_of_string() {
    assert_eq!(chars_of("añ→z"), vec!['a', 'ñ', '→', 'z']);
    assert_eq!(chars_of(""), Vec::<char>::new());
}

#[test]
fn str_eq_compares_text() {
    assert!(str_eq("", ""));
    assert!(str_eq("abc", "abc"));
    assert!(!str_eq("abc", "abd"));
    assert!(!str_eq("abc", "ab"));
}

#[test]
fn occurs_at_index() {
    let text = chars("abcabc");
    assert!(occurs(&text, &chars("abc"), 0));
    assert!(occurs(&text, &chars("abc"), 3));
    assert!(!occurs(&text, &chars("abc"), 1));
    assert!(!occurs(&text, &chars("abc"), 4));
    assert!(occurs(&text, &chars(""), 6));
    assert!(!occurs(&text, &chars(""), 7));
    assert!(!occurs(&text, &chars("abcabca"), 0));
    assert!(!occurs(&text, &chars("c"), usize::MAX));
}

#[test]
fn find_from_gives_first_occurrence() {
    let text = chars("--x--y--");
    let pat = chars("--");
    assert_eq!(find_from(&text, &pat, 0), Some(0));
    assert_eq!(find_from(&text, &pat, 1), Some(3));
    assert_eq!(find_from(&text, &pat, 4), Some(6));
    assert_eq!(find_from(&text, &pat, 7), None);
    assert_eq!(find_from(&text, &pat, 100), None);
    assert_eq!(find_from(&text, &chars(""), 8), Some(8));
    assert_eq!(find_from(&text, &chars(""), 9), None);
    assert_eq!(find_from(&chars(""), &pat, 0), None);
    assert_eq!(find_from(&chars("aaa"), &chars("aa"), 1), Some(1));
}

#[test]
fn decimal_string_of_numbers() {
    assert_eq!(decimal_string(0), "0");
    assert_eq!(decimal_string(7), "7");
    assert_eq!(decimal_string(10), "10");
    assert_eq!(decimal_string(1234567890), "1234567890");
    assert_eq!(decimal_string(u64::MAX), "18446744073709551615");
}
