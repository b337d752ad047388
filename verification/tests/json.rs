use language_unpack::json::{render_table, rendered_or_failure, table_object};
use language_unpack::run::ErrorKind;
use language_unpack::table::{OutputTable, ResolvedEntry};

fn entry(id: &str, key: &str, text: &str) -> ResolvedEntry {
    ResolvedEntry {
        output_id: id.to_string(),
        display_key: key.to_string(),
        text: text.to_string(),
    }
}

#[test]
fn empty_table_is_an_empty_object() {
    let table = OutputTable::new();
    assert!(table_object(&table).is_empty());
    assert_eq!(render_table(&table), Ok("{}".to_string()));
}

#[test]
fn every_entry_is_written_with_key_and_text() {
    let mut table = OutputTable::new();
    table.insert(entry("eb13bc01", "Wp0001", "Sword"));
    let object = table_object(&table);
    assert_eq!(object.len(), 1);
    let written = object.get("eb13bc01").and_then(|v| v.as_object());
    assert_eq!(written.map(|o| o.len()), Some(2));
    assert_eq!(written.and_then(|o| o.get("key")).and_then(|v| v.as_str()), Some("Wp0001"));
    assert_eq!(written.and_then(|o| o.get("text")).and_then(|v| v.as_str()), Some("Sword"));
    assert_eq!(
        render_table(&table),
        Ok("{\n  \"eb13bc01\": {\n    \"key\": \"Wp0001\",\n    \"text\": \"Sword\"\n  }\n}"
            .to_string())
    );
}

#[test]
fn entries_are_written_once_each_whatever_their_order() {
    let mut forth = OutputTable::new();
    forth.insert(entry("b", "B", "second"));
    forth.insert(entry("a", "A", "first"));
    forth.insert(entry("b", "B2", "third"));
    let mut back = OutputTable::new();
    back.insert(entry("a", "A", "first"));
    back.insert(entry("b", "B2", "third"));
    assert_eq!(render_table(&forth), render_table(&back));
    let object = table_object(&forth);
    assert_eq!(object.len(), 2);
    assert_eq!(
        object.get("b").and_then(|v| v.get("text")).and_then(|v| v.as_str()),
        Some("third")
    );
    assert_eq!(
        object.get("b").and_then(|v| v.get("key")).and_then(|v| v.as_str()),
        Some("B2")
    );
}

#[test]
fn text_is_escaped_by_the_renderer() {
    let mut table = OutputTable::new();
    table.insert(entry("q", "K", "say \"hi\"\n"));
    let text = render_table(&table).unwrap_or_default();
    assert!(text.contains("\"text\": \"say \\\"hi\\\"\\n\""));
    let back: serde_json::Value = serde_json::from_str(&text).unwrap_or(serde_json::Value::Null);
    assert_eq!(back["q"]["text"].as_str(), Some("say \"hi\"\n"));
}

#[test]
fn every_table_has_a_rendering() {
    let mut table = OutputTable::new();
    assert!(render_table(&table).is_ok());
    table.insert(entry("", "", "\u{0}\u{1f}\u{7f}"));
    table.insert(entry("ü\"\\", "K\t", "line\r\nline"));
    table.insert(entry("\u{10FFFF}", "é", "\u{2028}"));
    let rendered = render_table(&table);
    assert!(rendered.is_ok());
    let text = rendered.unwrap_or_default();
    let back: serde_json::Value = serde_json::from_str(&text).unwrap_or(serde_json::Value::Null);
    assert_eq!(back.as_object().map(|o| o.len()), Some(3));
    assert_eq!(back[""]["text"].as_str(), Some("\u{0}\u{1f}\u{7f}"));
    assert_eq!(back["ü\"\\"]["key"].as_str(), Some("K\t"));
    assert_eq!(back["\u{10FFFF}"]["text"].as_str(), Some("\u{2028}"));
}

#[test]
fn a_failed_rendering_is_an_output_failure() {
    assert_eq!(rendered_or_failure(Ok("{}".to_string())), Ok("{}".to_string()));
    match serde_json::from_str::<serde_json::Value>("{") {
        Ok(_) => panic!("an unfinished object is no JSON"),
        Err(error) => {
            assert_eq!(rendered_or_failure(Err(error)), Err(ErrorKind::OutputWriteFailed))
        }
    }
}
