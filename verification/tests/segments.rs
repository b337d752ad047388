use language_unpack::segments::{nth_field, starts_with};
use language_unpack::text::{chars_of, same_text};

#[test]
fn prefixes() {
    assert!(starts_with("TXT_QR_0042_title", "TXT_QR"));
    assert!(starts_with("TXT_QR", "TXT_QR"));
    assert!(starts_with("anything", ""));
    assert!(starts_with("", ""));
    assert!(!starts_with("TXT_OTHER_1", "TXT_QR"));
    assert!(!starts_with("TXT_Q", "TXT_QR"));
    assert!(!starts_with("", "T"));
    assert!(!starts_with("txt_qr_1", "TXT_QR"));
}

#[test]
fn fields_between_delimiters() {
    assert_eq!(nth_field("TXT_QR_0042_title", '_', 0), Some("TXT".to_string()));
    assert_eq!(nth_field("TXT_QR_0042_title", '_', 1), Some("QR".to_string()));
    assert_eq!(nth_field("TXT_QR_0042_title", '_', 2), Some("0042".to_string()));
    assert_eq!(nth_field("TXT_QR_0042_title", '_', 3), Some("title".to_string()));
    assert_eq!(nth_field("TXT_QR_0042_title", '_', 4), None);
}

#[test]
fn fields_may_be_empty() {
    assert_eq!(nth_field("", '_', 0), Some(String::new()));
    assert_eq!(nth_field("", '_', 1), None);
    assert_eq!(nth_field("_", '_', 0), Some(String::new()));
    assert_eq!(nth_field("_", '_', 1), Some(String::new()));
    assert_eq!(nth_field("_", '_', 2), None);
    assert_eq!(nth_field("TXT_QR_", '_', 2), Some(String::new()));
    assert_eq!(nth_field("TXT_QR", '_', 2), None);
    assert_eq!(nth_field("a__b", '_', 1), Some(String::new()));
    assert_eq!(nth_field("a__b", '_', 2), Some("b".to_string()));
}

#[test]
fn fields_agree_with_the_standard_library() {
    for text in ["", "_", "a", "a_b", "_a_", "TXT_QR_0042_title", "__", "é_ü_ß"] {
        for n in 0..5 {
            assert_eq!(nth_field(text, '_', n), text.split('_').nth(n).map(|s| s.to_string()));
        }
    }
}

#[test]
fn texts_are_compared_character_by_character() {
    assert!(same_text("", ""));
    assert!(same_text("abc", "abc"));
    assert!(!same_text("abc", "abd"));
    assert!(!same_text("abc", "ab"));
    assert!(!same_text("ab", "abc"));
    assert_eq!(chars_of("aé_"), vec!['a', 'é', '_']);
}
