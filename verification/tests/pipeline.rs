use language_unpack::catalog::{CatalogRow, LanguageFile, MessageCatalog};
use language_unpack::categories::{
    categories, Characters, Enemies, Items, Overmastery, Quests, Sigils, Traits, Weapon,
};
use language_unpack::category::{CategorySpec, IdMapping, IdentifierDerivation, KeyTransform};
use language_unpack::derive::{derive_output_id, lookup_id, transform_key};
use language_unpack::hash::xxhash32_custom;
use language_unpack::pipeline::{
    catalog_driven_rows, catalog_rows, extract_pair, resolve, resolve_row, table_rows, SourceRow,
};
use language_unpack::table::{OutputTable, ResolvedEntry};

fn catalog_row(id: &str, text: &str) -> CatalogRow {
    CatalogRow { id_hash: id.to_string(), sub_id: String::new(), text: text.to_string() }
}

fn catalog_of(rows: &[(&str, &str)]) -> MessageCatalog {
    MessageCatalog::from_rows(&rows.iter().map(|(id, text)| catalog_row(id, text)).collect())
}

fn source_row(key: &str, translation_id: &str) -> SourceRow {
    SourceRow { natural_key: key.to_string(), translation_id: translation_id.to_string() }
}

fn entry_of(table: &OutputTable, id: &str) -> Option<(String, String, String)> {
    table.get(id).map(|e| (e.output_id.clone(), e.display_key.clone(), e.text.clone()))
}

fn triple(id: &str, key: &str, text: &str) -> Option<(String, String, String)> {
    Some((id.to_string(), key.to_string(), text.to_string()))
}

#[test]
fn row_without_text_gives_no_entry() {
    let catalog = catalog_of(&[("TXT_0001", ""), ("TXT_0002", "Shield")]);
    let rows = vec![source_row("Wp0001", "TXT_0001"), source_row("Wp0002", "TXT_0002")];
    let table = Weapon::extract(&rows, &catalog);
    assert_eq!(table.len(), 1);
    assert_eq!(table.get(&format!("{:08x}", xxhash32_custom("Wp0001"))).map(|e| e.text.clone()), None);
    assert!(resolve_row(&Weapon::category(), &rows[0], &catalog).is_none());
    assert!(resolve_row(&Weapon::category(), &rows[1], &catalog).is_some());
}

#[test]
fn row_with_unknown_translation_gives_no_entry() {
    let catalog = catalog_of(&[("TXT_0002", "Shield")]);
    let rows = vec![source_row("Wp0001", "TXT_0001")];
    let table = Weapon::extract(&rows, &catalog);
    assert_eq!(table.len(), 0);
    assert!(table.entries().is_empty());
}

#[test]
fn weapon_is_published_under_the_hash_of_its_key() {
    let catalog = catalog_of(&[("TXT_0001", "Sword")]);
    let rows = vec![source_row("Wp0001", "TXT_0001")];
    let table = Weapon::extract(&rows, &catalog);
    assert_eq!(table.len(), 1);
    let id = format!("{:08x}", xxhash32_custom("Wp0001"));
    assert_eq!(id, "eb13bc01");
    assert_eq!(entry_of(&table, &id), triple("eb13bc01", "Wp0001", "Sword"));
    assert_eq!(table.entries().len(), 1);
    assert_eq!(table.entries()[0].output_id, "eb13bc01");
}

#[test]
fn sigils_traits_and_items_resolve_as_weapons_do() {
    let catalog = catalog_of(&[("TXT_0001", "Sword")]);
    let rows = vec![source_row("Wp0001", "TXT_0001")];
    for table in [
        Sigils::extract(&rows, &catalog),
        Traits::extract(&rows, &catalog),
        Items::extract(&rows, &catalog),
    ] {
        assert_eq!(table.len(), 1);
        assert_eq!(entry_of(&table, "eb13bc01"), triple("eb13bc01", "Wp0001", "Sword"));
    }
}

#[test]
fn quest_is_published_under_its_number() {
    let file = LanguageFile {
        rows: vec![
            catalog_row("TXT_QR_0042_title", "Find the Sword"),
            catalog_row("TXT_OTHER_1", "Elsewhere"),
        ],
    };
    let table = Quests::extract(&file);
    assert_eq!(table.len(), 1);
    assert_eq!(entry_of(&table, "0042"), triple("0042", "TXT_QR_0042_title", "Find the Sword"));
    assert_eq!(entry_of(&table, "1"), None);
    assert_eq!(entry_of(&table, "OTHER"), None);
}

#[test]
fn quest_rows_with_too_few_fields_or_no_text_are_skipped() {
    let file = LanguageFile {
        rows: vec![
            catalog_row("TXT_QR", "no number"),
            catalog_row("TXT_QR_0007_title", ""),
            catalog_row("TXT_QR_0008_title", "Eight"),
            catalog_row("TXT_QR_0008_desc", "Eight, described"),
            catalog_row("TXT_QRX_0009", "Nine"),
        ],
    };
    let table = Quests::extract(&file);
    assert_eq!(table.len(), 2);
    assert_eq!(entry_of(&table, "0007"), None);
    assert_eq!(entry_of(&table, "0008"), triple("0008", "TXT_QR_0008_desc", "Eight, described"));
    assert_eq!(entry_of(&table, "0009"), triple("0009", "TXT_QRX_0009", "Nine"));
}

#[test]
fn enemy_key_is_hashed_in_title_case_and_shown_as_it_came() {
    let catalog = catalog_of(&[("TXT_EM7700", "Proto Bahamut")]);
    let rows = vec![source_row("EM7700", "TXT_EM7700")];
    let table = Enemies::extract(&rows, &catalog);
    let id = format!("{:08x}", xxhash32_custom("Em7700"));
    assert_eq!(id, "2b31654b");
    assert_eq!(entry_of(&table, &id), triple("2b31654b", "EM7700", "Proto Bahamut"));
    assert_eq!(entry_of(&table, &format!("{:08x}", xxhash32_custom("EM7700"))), None);
}

#[test]
fn overmastery_is_published_under_its_key_in_lower_case() {
    let catalog = catalog_of(&[("TXT_LB_01", "Attack Power")]);
    let rows = vec![source_row("LB_Atk_01", "TXT_LB_01")];
    let table = Overmastery::extract(&rows, &catalog);
    assert_eq!(table.len(), 1);
    assert_eq!(entry_of(&table, "lb_atk_01"), triple("lb_atk_01", "LB_Atk_01", "Attack Power"));
    assert_eq!(entry_of(&table, "LB_Atk_01"), None);
}

#[test]
fn lower_case_reaches_beyond_ascii() {
    assert_eq!(
        derive_output_id(&IdentifierDerivation::LowercaseKey, KeyTransform::Identity, "ÄÖÜ_Key"),
        Some("äöü_key".to_string())
    );
}

#[test]
fn characters_are_published_under_their_short_identifiers() {
    let catalog = catalog_of(&[
        ("TXT_PL0000", "Gran"),
        ("TXT_PL0100", "Djeeta"),
        ("TXT_PL0200", ""),
        ("TXT_PL9900", "Nobody"),
    ]);
    let table = Characters::extract(&catalog);
    assert_eq!(table.len(), 2);
    assert_eq!(entry_of(&table, "Pl0000"), triple("Pl0000", "TXT_PL0000", "Gran"));
    assert_eq!(entry_of(&table, "Pl0100"), triple("Pl0100", "TXT_PL0100", "Djeeta"));
    assert_eq!(entry_of(&table, "Pl0200"), None);
    assert_eq!(entry_of(&table, "Pl9900"), None);
}

#[test]
fn character_table_has_twenty_five_lines() {
    let table = Characters::table();
    assert_eq!(table.len(), 25);
    assert_eq!(table[0].catalog_id, "TXT_PL0000");
    assert_eq!(table[0].output_id, "Pl0000");
    assert_eq!(table[24].catalog_id, "TXT_PL2400");
    assert_eq!(table[24].output_id, "Pl2400");
    for (i, line) in table.iter().enumerate() {
        assert_eq!(line.catalog_id, format!("TXT_PL{:02}00", i));
        assert_eq!(line.output_id, format!("Pl{:02}00", i));
    }
    assert_eq!(lookup_id(&table, "TXT_PL1300"), Some("Pl1300".to_string()));
    assert_eq!(lookup_id(&table, "TXT_PL2500"), None);
    assert_eq!(lookup_id(&table, "Pl1300"), None);
}

#[test]
fn first_line_of_a_table_counts() {
    let table = vec![
        IdMapping { catalog_id: "A".to_string(), output_id: "first".to_string() },
        IdMapping { catalog_id: "A".to_string(), output_id: "second".to_string() },
    ];
    assert_eq!(lookup_id(&table, "A"), Some("first".to_string()));
    assert_eq!(lookup_id(&Vec::new(), "A"), None);
}

#[test]
fn later_entry_replaces_earlier_entry_with_the_same_identifier() {
    let catalog = catalog_of(&[("T1", "one"), ("T2", "two"), ("T3", "three")]);
    let rows = vec![source_row("Key", "T1"), source_row("Other", "T3"), source_row("KEY", "T2")];
    let table = Overmastery::extract(&rows, &catalog);
    assert_eq!(table.len(), 2);
    assert_eq!(entry_of(&table, "key"), triple("key", "KEY", "two"));
    assert_eq!(entry_of(&table, "other"), triple("other", "Other", "three"));
    // Each identifier once, in the order in which it first came in.
    let ids: Vec<&str> = table.entries().iter().map(|e| e.output_id.as_str()).collect();
    assert_eq!(ids, vec!["key", "other"]);
}

#[test]
fn table_takes_entries_one_by_one() {
    let mut table = OutputTable::new();
    assert_eq!(table.len(), 0);
    assert!(table.get("a").is_none());
    table.insert(ResolvedEntry {
        output_id: "a".to_string(),
        display_key: "A".to_string(),
        text: "first".to_string(),
    });
    table.insert(ResolvedEntry {
        output_id: "b".to_string(),
        display_key: "B".to_string(),
        text: "second".to_string(),
    });
    table.insert(ResolvedEntry {
        output_id: "a".to_string(),
        display_key: "A2".to_string(),
        text: "third".to_string(),
    });
    assert_eq!(table.len(), 2);
    assert_eq!(entry_of(&table, "a"), triple("a", "A2", "third"));
    assert_eq!(entry_of(&table, "b"), triple("b", "B", "second"));
    assert_eq!(table.entries().len(), 2);
}

#[test]
fn keys_are_transformed_before_they_are_hashed() {
    assert_eq!(transform_key(KeyTransform::Identity, "EM7700"), "EM7700");
    assert_eq!(transform_key(KeyTransform::AlphanumericTitleCaseNormalize, "EM7700"), "Em7700");
    assert_eq!(
        derive_output_id(&IdentifierDerivation::HashOfKeyHex, KeyTransform::Identity, ""),
        Some("887ae0b0".to_string())
    );
    assert_eq!(
        derive_output_id(&IdentifierDerivation::HashOfKeyHex, KeyTransform::Identity, "hello"),
        Some("9ad6310d".to_string())
    );
    assert_eq!(
        derive_output_id(
            &IdentifierDerivation::HashOfKeyHex,
            KeyTransform::AlphanumericTitleCaseNormalize,
            "HELLO"
        ),
        Some(format!("{:08x}", xxhash32_custom("Hello")))
    );
}

#[test]
fn field_of_a_key_with_the_prefix() {
    let derivation = IdentifierDerivation::SubstringExtraction {
        prefix: "TXT_QR".to_string(),
        delimiter: '_',
        position: 2,
    };
    assert_eq!(
        derive_output_id(&derivation, KeyTransform::Identity, "TXT_QR_0042_title"),
        Some("0042".to_string())
    );
    assert_eq!(derive_output_id(&derivation, KeyTransform::Identity, "TXT_OTHER_1"), None);
    assert_eq!(derive_output_id(&derivation, KeyTransform::Identity, "TXT_QR"), None);
    assert_eq!(
        derive_output_id(&derivation, KeyTransform::Identity, "TXT_QR_"),
        Some(String::new())
    );
}

#[test]
fn generic_pass_agrees_with_the_categories() {
    let catalog = catalog_of(&[("TXT_0001", "Sword")]);
    let rows = vec![source_row("Wp0001", "TXT_0001")];
    let table = resolve(&Weapon::category(), &rows, &catalog);
    assert_eq!(entry_of(&table, "eb13bc01"), triple("eb13bc01", "Wp0001", "Sword"));
}

#[test]
fn rows_of_a_category_without_relational_source() {
    let file = LanguageFile {
        rows: vec![catalog_row("TXT_QR_0042_title", "Find the Sword"), catalog_row("TXT_PL0000", "Gran")],
    };
    assert!(catalog_driven_rows(&Weapon::category(), &file).is_none());
    let quests = catalog_driven_rows(&Quests::category(), &file);
    assert_eq!(quests.as_ref().map(|rows| rows.len()), Some(2));
    let characters = catalog_driven_rows(&Characters::category(), &file);
    assert_eq!(characters.as_ref().map(|rows| rows.len()), Some(25));
    let rows = catalog_rows(&file);
    assert_eq!(rows[0].natural_key, "TXT_QR_0042_title");
    assert_eq!(rows[0].translation_id, "TXT_QR_0042_title");
    let lines = table_rows(&Characters::table());
    assert_eq!(lines[3].natural_key, "TXT_PL0300");
    assert_eq!(lines[3].translation_id, "TXT_PL0300");
}

#[test]
fn one_pass_for_every_kind_of_category() {
    let file = LanguageFile {
        rows: vec![
            catalog_row("TXT_QR_0042_title", "Find the Sword"),
            catalog_row("TXT_PL0000", "Gran"),
            catalog_row("TXT_0001", "Sword"),
        ],
    };
    let relational = vec![source_row("Wp0001", "TXT_0001")];
    let weapons = extract_pair(&Weapon::category(), &relational, &file);
    assert_eq!(weapons.len(), 1);
    assert_eq!(entry_of(&weapons, "eb13bc01"), triple("eb13bc01", "Wp0001", "Sword"));
    let quests = extract_pair(&Quests::category(), &relational, &file);
    assert_eq!(quests.len(), 1);
    assert_eq!(entry_of(&quests, "0042"), triple("0042", "TXT_QR_0042_title", "Find the Sword"));
    let characters = extract_pair(&Characters::category(), &relational, &file);
    assert_eq!(characters.len(), 1);
    assert_eq!(entry_of(&characters, "Pl0000"), triple("Pl0000", "TXT_PL0000", "Gran"));
}

#[test]
fn every_category_is_configured() {
    let all: Vec<CategorySpec> = categories();
    let outputs: Vec<&str> = all.iter().map(|c| c.output_file.as_str()).collect();
    assert_eq!(
        outputs,
        vec![
            "characters.json",
            "overmasteries.json",
            "weapons.json",
            "sigils.json",
            "traits.json",
            "items.json",
            "quests.json",
            "enemies.json"
        ]
    );
    let catalogs: Vec<&str> = all.iter().map(|c| c.catalog_file.as_str()).collect();
    assert_eq!(
        catalogs,
        vec![
            "text_chara.msg",
            "text_limit_bonus.msg",
            "text.msg",
            "text.msg",
            "text.msg",
            "text.msg",
            "text_stage.msg",
            "text_chara.msg"
        ]
    );
    assert!(all[0].relation_query.is_none());
    assert!(all[6].relation_query.is_none());
    assert_eq!(
        all[1].relation_query.as_deref(),
        Some("SELECT Key, Unk16 FROM limit_bonus_param WHERE Unk16 IS NOT NULL")
    );
    assert_eq!(
        all[2].relation_query.as_deref(),
        Some("SELECT Key, Name FROM weapon WHERE Name IS NOT NULL AND Key IS NOT NULL")
    );
    assert_eq!(
        all[3].relation_query.as_deref(),
        Some("SELECT Key, Name FROM gem WHERE Name IS NOT NULL AND Key IS NOT NULL")
    );
    assert_eq!(
        all[4].relation_query.as_deref(),
        Some("SELECT Key, Name FROM skill WHERE Name IS NOT NULL AND Key IS NOT NULL")
    );
    assert_eq!(
        all[5].relation_query.as_deref(),
        Some("SELECT Key, ItemName FROM item WHERE ItemName IS NOT NULL AND Key IS NOT NULL")
    );
    assert_eq!(
        all[7].relation_query.as_deref(),
        Some("SELECT KeyMaybe, VariantName1 FROM enemy WHERE KeyMaybe IS NOT NULL AND VariantName1 IS NOT NULL")
    );
    assert_eq!(all[7].key_transform, KeyTransform::AlphanumericTitleCaseNormalize);
    assert_eq!(all[2].key_transform, KeyTransform::Identity);
    assert!(matches!(all[1].identifier_derivation, IdentifierDerivation::LowercaseKey));
    assert!(matches!(all[2].identifier_derivation, IdentifierDerivation::HashOfKeyHex));
    assert!(matches!(all[0].identifier_derivation, IdentifierDerivation::FixedIdTableLookup { .. }));
    assert!(matches!(all[6].identifier_derivation, IdentifierDerivation::SubstringExtraction { .. }));
}
