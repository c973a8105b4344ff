use sys_design::utils::text::replace_text;

#[test]
fn replace_text_replaces_every_match() {
    assert_eq!(replace_text("a.b.c", ".", "::"), "a::b::c");
    assert_eq!(replace_text("Custom(rust)", "Custom(", "\""), "\"rust)");
}

#[test]
fn replace_text_takes_matches_from_the_left_without_overlap() {
    assert_eq!(replace_text("aaa", "aa", "b"), "ba");
    assert_eq!(replace_text("aaaa", "aa", "b"), "bb");
}

#[test]
fn replace_text_without_a_match_keeps_the_text() {
    assert_eq!(replace_text("plain", "xyz", "q"), "plain");
    assert_eq!(replace_text("", "x", "y"), "");
    assert_eq!(replace_text("éé-é", "é", "e"), "ee-e");
}
