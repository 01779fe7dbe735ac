use jcode_app_core::replace::replace_all;

#[test]
fn replace_all_agrees_with_the_standard_library() {
    let words = ["a", "ab", "aa", "ba", "é", "aba"];
    let texts = ["", "a", "aa", "aaa", "aaaa", "abab", "ababa", "xéyéé", "baab", "aabaab"];
    for text in texts {
        for from in words {
            for to in ["", "a", "ab", "日本"] {
                assert_eq!(replace_all(text, from, to), text.replace(from, to));
            }
        }
    }
}

#[test]
fn replacement_goes_from_left_to_right_without_overlap() {
    assert_eq!(replace_all("aaaaa", "aa", "b"), "bba");
}
