use language_unpack::catalog::{CatalogRow, LanguageFile, MessageCatalog};
use language_unpack::run::ErrorKind;

fn row(id: &str, text: &str) -> CatalogRow {
    CatalogRow { id_hash: id.to_string(), sub_id: String::new(), text: text.to_string() }
}

#[test]
fn later_row_replaces_earlier_row() {
    let file = LanguageFile { rows: vec![row("A", "x"), row("A", "y")] };
    let catalog = file.to_hashmap();
    assert_eq!(catalog.get("A"), Some(&"y".to_string()));
}

#[test]
fn catalog_knows_the_identifiers_of_its_rows() {
    let file = LanguageFile {
        rows: vec![row("TXT_0001", "Sword"), row("TXT_0002", "Shield"), row("TXT_0001", "Blade")],
    };
    let catalog = file.to_hashmap();
    assert_eq!(catalog.get("TXT_0001"), Some(&"Blade".to_string()));
    assert_eq!(catalog.get("TXT_0002"), Some(&"Shield".to_string()));
    assert_eq!(catalog.get("TXT_0003"), None);
    assert_eq!(catalog.get(""), None);
}

#[test]
fn empty_catalog_knows_nothing() {
    let catalog = LanguageFile { rows: Vec::new() }.to_hashmap();
    assert_eq!(catalog.get("A"), None);
    assert_eq!(catalog.lookup("A"), None);
}

#[test]
fn empty_text_counts_as_no_text() {
    let catalog = MessageCatalog::from_rows(&vec![row("A", ""), row("B", "b"), row("C", "c"), row("C", "")]);
    assert_eq!(catalog.get("A"), Some(&String::new()));
    assert_eq!(catalog.lookup("A"), None);
    assert_eq!(catalog.lookup("B"), Some(&"b".to_string()));
    assert_eq!(catalog.get("C"), Some(&String::new()));
    assert_eq!(catalog.lookup("C"), None);
    assert_eq!(catalog.lookup("D"), None);
}

#[test]
fn loading_a_decoded_file_gives_its_catalog() {
    let file = LanguageFile { rows: vec![row("A", "x"), row("A", "y")] };
    match MessageCatalog::load(Some(file)) {
        Ok(catalog) => assert_eq!(catalog.get("A"), Some(&"y".to_string())),
        Err(_) => panic!("a decoded file must load"),
    }
}

#[test]
fn loading_without_a_file_is_catalog_unavailable() {
    match MessageCatalog::load(None) {
        Ok(_) => panic!("nothing to load from"),
        Err(kind) => assert_eq!(kind, ErrorKind::CatalogUnavailable),
    }
}
