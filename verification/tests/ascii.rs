use language_unpack::ascii::{
    alphanumeric_title_case_normalize, char_is_ascii_alphanumeric, char_to_ascii_lower,
    char_to_ascii_upper,
};

#[test]
fn title_case_of_enemy_keys() {
    assert_eq!(alphanumeric_title_case_normalize("EM7700"), "Em7700");
    assert_eq!(alphanumeric_title_case_normalize("em_07"), "Em_07");
}

#[test]
fn title_case_starts_anew_after_a_break() {
    assert_eq!(alphanumeric_title_case_normalize("ab_cd"), "Ab_Cd");
    assert_eq!(alphanumeric_title_case_normalize("EM7700_BOSS"), "Em7700_Boss");
    assert_eq!(alphanumeric_title_case_normalize("a-b c"), "A-B C");
    assert_eq!(alphanumeric_title_case_normalize("__x"), "__X");
}

#[test]
fn title_case_edge_cases() {
    assert_eq!(alphanumeric_title_case_normalize(""), "");
    assert_eq!(alphanumeric_title_case_normalize("x"), "X");
    assert_eq!(alphanumeric_title_case_normalize("_"), "_");
    assert_eq!(alphanumeric_title_case_normalize("7up"), "7up");
    // Letters outside ASCII are left alone and count as a break.
    assert_eq!(alphanumeric_title_case_normalize("éCOLE"), "éCole");
    assert_eq!(alphanumeric_title_case_normalize("ÄB"), "ÄB");
}

#[test]
fn ascii_case_of_single_characters() {
    assert_eq!(char_to_ascii_upper('a'), 'A');
    assert_eq!(char_to_ascii_upper('z'), 'Z');
    assert_eq!(char_to_ascii_upper('A'), 'A');
    assert_eq!(char_to_ascii_upper('_'), '_');
    assert_eq!(char_to_ascii_upper('é'), 'é');
    assert_eq!(char_to_ascii_lower('A'), 'a');
    assert_eq!(char_to_ascii_lower('Z'), 'z');
    assert_eq!(char_to_ascii_lower('7'), '7');
    assert_eq!(char_to_ascii_lower('['), '[');
    assert!(char_is_ascii_alphanumeric('0'));
    assert!(char_is_ascii_alphanumeric('9'));
    assert!(char_is_ascii_alphanumeric('g'));
    assert!(char_is_ascii_alphanumeric('G'));
    assert!(!char_is_ascii_alphanumeric('_'));
    assert!(!char_is_ascii_alphanumeric('é'));
    assert!(!char_is_ascii_alphanumeric('@'));
    assert!(!char_is_ascii_alphanumeric('`'));
}

#[test]
fn ascii_case_agrees_with_the_standard_library() {
    for code in 0u32..0x300 {
        if let Some(c) = char::from_u32(code) {
            assert_eq!(char_to_ascii_upper(c), c.to_ascii_uppercase());
            assert_eq!(char_to_ascii_lower(c), c.to_ascii_lowercase());
            assert_eq!(char_is_ascii_alphanumeric(c), c.is_ascii_alphanumeric());
        }
    }
}
