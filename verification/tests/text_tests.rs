use wpc::text::{
    after_last_char, before_first_str, bool_to_string, contains_str, encode_utf16, ends_with_str,
    i64_to_string, join_strings, replace_str, same_text, sort_strings,
};

#[test]
fn decimal_text_of_integers() {
    assert_eq!(i64_to_string(0), "0");
    assert_eq!(i64_to_string(803855), "803855");
    assert_eq!(i64_to_string(-42), "-42");
    assert_eq!(i64_to_string(i64::MIN), i64::MIN.to_string());
    assert_eq!(i64_to_string(i64::MAX), i64::MAX.to_string());
}

#[test]
fn bool_text() {
    assert_eq!(bool_to_string(true), "true");
    assert_eq!(bool_to_string(false), "false");
}

#[test]
fn searching_text() {
    assert!(contains_str("https://i.redd.it/abc.jpeg", "jpeg"));
    assert!(!contains_str("https://i.redd.it/abc.gif", "png"));
    assert!(contains_str("abc", ""));
    assert!(ends_with_str("tests/1.jpg", ".jpg"));
    assert!(!ends_with_str("jpg", ".jpg"));
    assert!(same_text("wpc", "wpc"));
    assert!(!same_text("wpc", "wp"));
}

#[test]
fn replacing_and_splitting() {
    assert_eq!(replace_str("a&pid=hpb&pid=hp", "&pid=hp", ""), "ab");
    assert_eq!(replace_str("aaa", "aa", "b"), "ba");
    assert_eq!(before_first_str("x&rf=y&rf=z", "&rf="), "x");
    assert_eq!(before_first_str("xyz", "&rf="), "xyz");
    assert_eq!(after_last_char("https://w.wallhaven.cc/full/ab/wallhaven-abc.jpg", '/'), "wallhaven-abc.jpg");
    assert_eq!(after_last_char("plain", '/'), "plain");
    assert_eq!(after_last_char("ends/", '/'), "");
}

#[test]
fn joining() {
    let v = vec!["-d".to_string(), "/home/u/wp".to_string()];
    assert_eq!(join_strings(&v, " "), "-d /home/u/wp");
    assert_eq!(join_strings(&vec![], " "), "");
}

#[test]
fn utf16_encoding() {
    assert_eq!(encode_utf16("a\u{e9}\u{1F600}"), "a\u{e9}\u{1F600}".encode_utf16().collect::<Vec<u16>>());
}

#[test]
fn sorting_strings() {
    let v = vec!["b.jpg".to_string(), "a.jpg".to_string(), "\u{e9}.jpg".to_string(), "B.jpg".to_string(), "a.jpg".to_string()];
    let mut expected = v.clone();
    expected.sort();
    assert_eq!(sort_strings(v), expected);
}

