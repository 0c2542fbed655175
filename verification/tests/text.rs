use dedoc::strings::{fold, is_substring, same_str, slice, sorts_before};
use dedoc::text::{contains, find, has_suffix, less, matches_at, same_bytes};

#[test]
fn find_gives_the_first_offset() {
    assert_eq!(find(b"abcabc", b"bc"), Some(1));
    assert_eq!(find(b"abcabc", b""), Some(0));
    assert_eq!(find(b"abc", b"abcd"), None);
    assert_eq!(find(b"", b""), Some(0));
    assert_eq!(find(b"", b"a"), None);
    assert_eq!(find(b"aab", b"ab"), Some(1));
    assert_eq!(find(b"abc", b"abc"), Some(0));
    assert_eq!(find(b"abc", b"c"), Some(2));
    assert_eq!(find(b"abc", b"d"), None);
}

#[test]
fn a_needle_is_matched_where_it_stands() {
    assert!(matches_at(b"hello", b"ell", 1));
    assert!(!matches_at(b"hello", b"ell", 0));
    assert!(matches_at(b"hello", b"lo", 3));
    assert!(!matches_at(b"hello", b"lo", 2));
    assert!(matches_at(b"hello", b"", 5));
    assert!(contains(b"hello", b"ell"));
    assert!(!contains(b"hello", b"elo"));
}

#[test]
fn a_suffix_stands_at_the_end() {
    assert!(has_suffix(b"page.html", b".html"));
    assert!(has_suffix(b".html", b".html"));
    assert!(has_suffix(b"page", b""));
    assert!(!has_suffix(b"html", b".html"));
    assert!(!has_suffix(b"page.html.bak", b".html"));
}

#[test]
fn bytes_are_ordered_as_in_a_dictionary() {
    assert!(less(b"ab", b"abc"));
    assert!(!less(b"abc", b"ab"));
    assert!(less(b"", b"a"));
    assert!(!less(b"", b""));
    assert!(!less(b"a", b"a"));
    assert!(less(b"Z", b"a"));
    assert!(less(b"abc", b"abd"));
    assert!(!less(b"b", b"abc"));
    assert!(same_bytes(b"abc", b"abc"));
    assert!(!same_bytes(b"abc", b"abd"));
    assert!(!same_bytes(b"abc", b"ab"));
    assert!(same_bytes(b"", b""));
}

#[test]
fn strings_are_compared_by_their_bytes() {
    assert!(same_str("für", "für"));
    assert!(!same_str("für", "fur"));
    assert!(sorts_before("Vec", "vec"));
    assert!(sorts_before("z", "é"));
    assert!(!sorts_before("é", "z"));
    assert!(!sorts_before("a", "a"));
    assert!(is_substring("HashMap", "Map"));
    assert!(is_substring("naïve", "ï"));
    assert!(!is_substring("HashMap", "map"));
    assert!(is_substring("", ""));
}

#[test]
fn folding_lowers_only_when_asked() {
    assert_eq!(fold("HashMap", true), "hashmap");
    assert_eq!(fold("HashMap", false), "HashMap");
    assert_eq!(fold("ÀB", true), "àb");
    assert_eq!(fold("", true), "");
}

#[test]
fn a_slice_lies_between_two_boundaries() {
    assert_eq!(slice("hello", 1, 3), "el");
    assert_eq!(slice("hello", 0, 5), "hello");
    assert_eq!(slice("hello", 2, 2), "");
    assert_eq!(slice("aé", 1, 3), "é");
}
