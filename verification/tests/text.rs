use alloy_studio::text::replace_all;

#[test]
fn replace_all_matches_str_replace() {
    assert_eq!(replace_all("a\\b\\c", "\\", "/"), "a/b/c");
    assert_eq!(replace_all("aaa", "aa", "b"), "ba");
    assert_eq!(replace_all("ab", "", "-"), "ab".replace("", "-"));
    assert_eq!(replace_all("ab", "", "-"), "-a-b-");
    assert_eq!(replace_all("", "", "x"), "x");
    assert_eq!(replace_all("héllo", "", "|"), "héllo".replace("", "|"));
}
