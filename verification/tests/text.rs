use webspec_fetch::digest::hash_html;
use webspec_fetch::encode::{decimal_text, encode_ref, lower_hex_text};
use webspec_fetch::text::{
    after_last_slash, begins_with, finishes_with, holds, same_text, trim_trailing_slashes,
};

#[test]
fn texts_are_compared_by_their_characters() {
    assert!(same_text("", ""));
    assert!(same_text("spec", "spec"));
    assert!(!same_text("spec", "spek"));
    assert!(!same_text("spec", "specs"));
    assert!(same_text("é—漢", "é—漢"));
}

#[test]
fn beginnings_and_ends() {
    assert!(begins_with("proposal-x", "proposal-"));
    assert!(begins_with("x", ""));
    assert!(!begins_with("prop", "proposal-"));
    assert!(finishes_with("index.html", ".html"));
    assert!(finishes_with("x", ""));
    assert!(!finishes_with("index.htm", ".html"));
    assert!(!finishes_with("l", ".html"));
    assert!(begins_with("éa", "é"));
    assert!(finishes_with("aé", "é"));
    // The last byte of one character can be that of another.
    assert!(!finishes_with("é", "©"));
}

#[test]
fn occurrences() {
    assert!(holds("abcabd", "abd"));
    assert!(holds("abc", ""));
    assert!(holds("", ""));
    assert!(!holds("", "a"));
    assert!(!holds("ab", "abc"));
    assert!(holds("x漢字y", "字y"));
    assert!(!holds("x漢y", "字"));
    assert!(holds("aaab", "aab"));
}

#[test]
fn segments_and_slashes() {
    assert_eq!(after_last_slash("tc39/ecma262"), "ecma262");
    assert_eq!(after_last_slash("ecma262"), "ecma262");
    assert_eq!(after_last_slash("a/b/"), "");
    assert_eq!(after_last_slash(""), "");
    assert_eq!(trim_trailing_slashes("https://a.b/c//"), "https://a.b/c");
    assert_eq!(trim_trailing_slashes("c"), "c");
    assert_eq!(trim_trailing_slashes("///"), "");
    assert_eq!(trim_trailing_slashes("é/"), "é");
}

#[test]
fn decimal_numbers() {
    assert_eq!(decimal_text(0), "0");
    assert_eq!(decimal_text(7), "7");
    assert_eq!(decimal_text(10), "10");
    assert_eq!(decimal_text(-85), "-85");
    assert_eq!(decimal_text(i64::MAX), "9223372036854775807");
    assert_eq!(decimal_text(i64::MIN), "-9223372036854775808");
}

#[test]
fn hexadecimal_bytes() {
    assert_eq!(lower_hex_text(&vec![]), "");
    assert_eq!(lower_hex_text(&vec![0x00, 0x0f, 0xa0, 0xff]), "000fa0ff");
}

#[test]
fn refs_are_escaped_in_a_path() {
    assert_eq!(encode_ref("feature/x-1.2_~"), "feature/x-1.2_~");
    assert_eq!(encode_ref(" #?%\"<>`{}^\\|"), "%20%23%3F%25%22%3C%3E%60%7B%7D%5E%5C%7C");
    assert_eq!(encode_ref("a\u{1f}\u{7f}"), "a%1F%7F");
    assert_eq!(encode_ref("é"), "%C3%A9");
    assert_eq!(encode_ref(""), "");
}

#[test]
fn different_refs_stay_different() {
    assert_ne!(encode_ref("a b"), encode_ref("a%20b"));
    assert_eq!(encode_ref("a%20b"), "a%2520b");
}

#[test]
fn hash_of_a_page() {
    assert_eq!(
        hash_html(""),
        "e3b0c44298fc1c149afbf4c8996fb92427ae41e4649b934ca495991b7852b855"
    );
    assert_eq!(
        hash_html("abc"),
        "ba7816bf8f01cfea414140de5dae2223b00361a396177a9cb410ff61f20015ad"
    );
    assert_eq!(
        hash_html("é"),
        "4a99557e4033c3539de2eb65472017cad5f9557f7a0625a09f1c3f6e2ba69c4c"
    );
}
