//! The categories of game data, each with its configuration and its
//! resolution pass.

use crate::catalog::{texts_of, LanguageFile, MessageCatalog};
use crate::category::{
    CategoryModel, CategorySpec, DerivationModel, IdMapping, IdentifierDerivation, KeyTransform,
    table_view,
};
use crate::pipeline::{
    catalog_rows, resolve, resolved_order, resolved_table, row_views, rows_of_catalog,
    rows_of_table, table_rows, SourceRow,
};
use crate::table::OutputTable;
use vstd::prelude::*;
use vstd::string::StringExecFns;

verus! {

/// The playable characters: the catalog identifier of each name and the
/// identifier that the name is published under.
pub open spec fn character_ids() -> Seq<(Seq<char>, Seq<char>)> {
    seq![
        ("TXT_PL0000"@, "Pl0000"@),
        ("TXT_PL0100"@, "Pl0100"@),
        ("TXT_PL0200"@, "Pl0200"@),
        ("TXT_PL0300"@, "Pl0300"@),
        ("TXT_PL0400"@, "Pl0400"@),
        ("TXT_PL0500"@, "Pl0500"@),
        ("TXT_PL0600"@, "Pl0600"@),
        ("TXT_PL0700"@, "Pl0700"@),
        ("TXT_PL0800"@, "Pl0800"@),
        ("TXT_PL0900"@, "Pl0900"@),
        ("TXT_PL1000"@, "Pl1000"@),
        ("TXT_PL1100"@, "Pl1100"@),
        ("TXT_PL1200"@, "Pl1200"@),
        ("TXT_PL1300"@, "Pl1300"@),
        ("TXT_PL1400"@, "Pl1400"@),
        ("TXT_PL1500"@, "Pl1500"@),
        ("TXT_PL1600"@, "Pl1600"@),
        ("TXT_PL1700"@, "Pl1700"@),
        ("TXT_PL1800"@, "Pl1800"@),
        ("TXT_PL1900"@, "Pl1900"@),
        ("TXT_PL2000"@, "Pl2000"@),
        ("TXT_PL2100"@, "Pl2100"@),
        ("TXT_PL2200"@, "Pl2200"@),
        ("TXT_PL2300"@, "Pl2300"@),
        ("TXT_PL2400"@, "Pl2400"@),
    ]
}

/// The prefix that marks the catalog identifiers of quest texts.
pub open spec fn quest_prefix() -> Seq<char> {
    "TXT_QR"@
}

/// The playable characters, as a category.
pub open spec fn characters() -> CategoryModel {
    CategoryModel {
        relation_query: None,
        catalog_file: "text_chara.msg"@,
        key_transform: KeyTransform::Identity,
        identifier_derivation: DerivationModel::FixedIdTableLookup { table: character_ids() },
        output_file: "characters.json"@,
    }
}

/// The quests, as a category.
pub open spec fn quests() -> CategoryModel {
    CategoryModel {
        relation_query: None,
        catalog_file: "text_stage.msg"@,
        key_transform: KeyTransform::Identity,
        identifier_derivation: DerivationModel::SubstringExtraction {
            prefix: quest_prefix(),
            delimiter: '_',
            position: 2,
        },
        output_file: "quests.json"@,
    }
}

/// The overmasteries, as a category.
pub open spec fn overmasteries() -> CategoryModel {
    CategoryModel {
        relation_query: Some(
            "SELECT Key, Unk16 FROM limit_bonus_param WHERE Unk16 IS NOT NULL"@,
        ),
        catalog_file: "text_limit_bonus.msg"@,
        key_transform: KeyTransform::Identity,
        identifier_derivation: DerivationModel::LowercaseKey,
        output_file: "overmasteries.json"@,
    }
}

/// The weapons, as a category.
pub open spec fn weapons() -> CategoryModel {
    CategoryModel {
        relation_query: Some(
            "SELECT Key, Name FROM weapon WHERE Name IS NOT NULL AND Key IS NOT NULL"@,
        ),
        catalog_file: "text.msg"@,
        key_transform: KeyTransform::Identity,
        identifier_derivation: DerivationModel::HashOfKeyHex,
        output_file: "weapons.json"@,
    }
}

/// The sigils, as a category.
pub open spec fn sigils() -> CategoryModel {
    CategoryModel {
        relation_query: Some(
            "SELECT Key, Name FROM gem WHERE Name IS NOT NULL AND Key IS NOT NULL"@,
        ),
        catalog_file: "text.msg"@,
        key_transform: KeyTransform::Identity,
        identifier_derivation: DerivationModel::HashOfKeyHex,
        output_file: "sigils.json"@,
    }
}

/// The traits, as a category.
pub open spec fn traits() -> CategoryModel {
    CategoryModel {
        relation_query: Some(
            "SELECT Key, Name FROM skill WHERE Name IS NOT NULL AND Key IS NOT NULL"@,
        ),
        catalog_file: "text.msg"@,
        key_transform: KeyTransform::Identity,
        identifier_derivation: DerivationModel::HashOfKeyHex,
        output_file: "traits.json"@,
    }
}

/// The items, as a category.
pub open spec fn items() -> CategoryModel {
    CategoryModel {
        relation_query: Some(
            "SELECT Key, ItemName FROM item WHERE ItemName IS NOT NULL AND Key IS NOT NULL"@,
        ),
        catalog_file: "text.msg"@,
        key_transform: KeyTransform::Identity,
        identifier_derivation: DerivationModel::HashOfKeyHex,
        output_file: "items.json"@,
    }
}

/// The enemies, as a category.
pub open spec fn enemies() -> CategoryModel {
    CategoryModel {
        relation_query: Some(
            "SELECT KeyMaybe, VariantName1 FROM enemy WHERE KeyMaybe IS NOT NULL AND VariantName1 IS NOT NULL"@,
        ),
        catalog_file: "text_chara.msg"@,
        key_transform: KeyTransform::AlphanumericTitleCaseNormalize,
        identifier_derivation: DerivationModel::HashOfKeyHex,
        output_file: "enemies.json"@,
    }
}

/// One line of a fixed table.
fn line(catalog_id: &str, output_id: &str) -> (mapping: IdMapping)
    ensures
        mapping@ == (catalog_id@, output_id@),
{
    IdMapping { catalog_id: String::from_str(catalog_id), output_id: String::from_str(output_id) }
}

/// Characters: a closed set of names, looked up in the catalog by a fixed
/// table of identifiers.
pub struct Characters;

impl Characters {
    /// The table of the playable characters.
    pub fn table() -> (table: Vec<IdMapping>)
        ensures
            table_view(table@) == character_ids(),
    {
        let mut table: Vec<IdMapping> = Vec::new();
        table.push(line("TXT_PL0000", "Pl0000"));
        table.push(line("TXT_PL0100", "Pl0100"));
        table.push(line("TXT_PL0200", "Pl0200"));
        table.push(line("TXT_PL0300", "Pl0300"));
        table.push(line("TXT_PL0400", "Pl0400"));
        table.push(line("TXT_PL0500", "Pl0500"));
        table.push(line("TXT_PL0600", "Pl0600"));
        table.push(line("TXT_PL0700", "Pl0700"));
        table.push(line("TXT_PL0800", "Pl0800"));
        table.push(line("TXT_PL0900", "Pl0900"));
        table.push(line("TXT_PL1000", "Pl1000"));
        table.push(line("TXT_PL1100", "Pl1100"));
        table.push(line("TXT_PL1200", "Pl1200"));
        table.push(line("TXT_PL1300", "Pl1300"));
        table.push(line("TXT_PL1400", "Pl1400"));
        table.push(line("TXT_PL1500", "Pl1500"));
        table.push(line("TXT_PL1600", "Pl1600"));
        table.push(line("TXT_PL1700", "Pl1700"));
        table.push(line("TXT_PL1800", "Pl1800"));
        table.push(line("TXT_PL1900", "Pl1900"));
        table.push(line("TXT_PL2000", "Pl2000"));
        table.push(line("TXT_PL2100", "Pl2100"));
        table.push(line("TXT_PL2200", "Pl2200"));
        table.push(line("TXT_PL2300", "Pl2300"));
        table.push(line("TXT_PL2400", "Pl2400"));
        assert(table_view(table@) =~= character_ids());
        table
    }

    /// The configuration of this category.
    pub fn category() -> (category: CategorySpec)
        ensures
            category@ == characters(),
    {
        CategorySpec {
            relation_query: None,
            catalog_file: String::from_str("text_chara.msg"),
            key_transform: KeyTransform::Identity,
            identifier_derivation: IdentifierDerivation::FixedIdTableLookup {
                table: Characters::table(),
            },
            output_file: String::from_str("characters.json"),
        }
    }

    /// The names of the characters that the catalog has text for.
    pub fn extract(catalog: &MessageCatalog) -> (table: OutputTable)
        ensures
            table@ == resolved_table(characters(), rows_of_table(character_ids()), catalog@),
            table.order() == resolved_order(characters(), rows_of_table(character_ids()), catalog@),
    {
        let rows = table_rows(&Characters::table());
        resolve(&Characters::category(), &rows, catalog)
    }
}

/// Quests: the catalog of stage texts names the quest in the third field
/// of every identifier that begins with the quest prefix.
pub struct Quests;

impl Quests {
    /// The configuration of this category.
    pub fn category() -> (category: CategorySpec)
        ensures
            category@ == quests(),
    {
        CategorySpec {
            relation_query: None,
            catalog_file: String::from_str("text_stage.msg"),
            key_transform: KeyTransform::Identity,
            identifier_derivation: IdentifierDerivation::SubstringExtraction {
                prefix: String::from_str("TXT_QR"),
                delimiter: '_',
                position: 2,
            },
            output_file: String::from_str("quests.json"),
        }
    }

    /// The quest texts of a catalog file, each under the number of its
    /// quest.
    pub fn extract(file: &LanguageFile) -> (table: OutputTable)
        ensures
            table@ == resolved_table(quests(), rows_of_catalog(file.rows@), texts_of(file.rows@)),
            table.order() == resolved_order(quests(), rows_of_catalog(file.rows@), texts_of(file.rows@)),
    {
        let rows = catalog_rows(file);
        resolve(&Quests::category(), &rows, &file.to_hashmap())
    }
}

/// Overmasteries: the key is a stable identifier already and is published in lower case.
pub struct Overmastery;

impl Overmastery {
    /// The configuration of this category.
    pub fn category() -> (category: CategorySpec)
        ensures
            category@ == overmasteries(),
    {
        CategorySpec {
            relation_query: Some(
                String::from_str(
                    "SELECT Key, Unk16 FROM limit_bonus_param WHERE Unk16 IS NOT NULL",
                ),
            ),
            catalog_file: String::from_str("text_limit_bonus.msg"),
            key_transform: KeyTransform::Identity,
            identifier_derivation: IdentifierDerivation::LowercaseKey,
            output_file: String::from_str("overmasteries.json"),
        }
    }

    /// The entries that the rows give against the catalog of one language.
    pub fn extract(rows: &Vec<SourceRow>, catalog: &MessageCatalog) -> (table: OutputTable)
        ensures
            table@ == resolved_table(overmasteries(), row_views(rows@), catalog@),
            table.order() == resolved_order(overmasteries(), row_views(rows@), catalog@),
    {
        resolve(&Overmastery::category(), rows, catalog)
    }
}

/// Weapons: published under the hash of the key.
pub struct Weapon;

impl Weapon {
    /// The configuration of this category.
    pub fn category() -> (category: CategorySpec)
        ensures
            category@ == weapons(),
    {
        CategorySpec {
            relation_query: Some(
                String::from_str(
                    "SELECT Key, Name FROM weapon WHERE Name IS NOT NULL AND Key IS NOT NULL",
                ),
            ),
            catalog_file: String::from_str("text.msg"),
            key_transform: KeyTransform::Identity,
            identifier_derivation: IdentifierDerivation::HashOfKeyHex,
            output_file: String::from_str("weapons.json"),
        }
    }

    /// The entries that the rows give against the catalog of one language.
    pub fn extract(rows: &Vec<SourceRow>, catalog: &MessageCatalog) -> (table: OutputTable)
        ensures
            table@ == resolved_table(weapons(), row_views(rows@), catalog@),
            table.order() == resolved_order(weapons(), row_views(rows@), catalog@),
    {
        resolve(&Weapon::category(), rows, catalog)
    }
}

/// Sigils: published under the hash of the key.
pub struct Sigils;

impl Sigils {
    /// The configuration of this category.
    pub fn category() -> (category: CategorySpec)
        ensures
            category@ == sigils(),
    {
        CategorySpec {
            relation_query: Some(
                String::from_str(
                    "SELECT Key, Name FROM gem WHERE Name IS NOT NULL AND Key IS NOT NULL",
                ),
            ),
            catalog_file: String::from_str("text.msg"),
            key_transform: KeyTransform::Identity,
            identifier_derivation: IdentifierDerivation::HashOfKeyHex,
            output_file: String::from_str("sigils.json"),
        }
    }

    /// The entries that the rows give against the catalog of one language.
    pub fn extract(rows: &Vec<SourceRow>, catalog: &MessageCatalog) -> (table: OutputTable)
        ensures
            table@ == resolved_table(sigils(), row_views(rows@), catalog@),
            table.order() == resolved_order(sigils(), row_views(rows@), catalog@),
    {
        resolve(&Sigils::category(), rows, catalog)
    }
}

/// Traits: published under the hash of the key.
pub struct Traits;

impl Traits {
    /// The configuration of this category.
    pub fn category() -> (category: CategorySpec)
        ensures
            category@ == traits(),
    {
        CategorySpec {
            relation_query: Some(
                String::from_str(
                    "SELECT Key, Name FROM skill WHERE Name IS NOT NULL AND Key IS NOT NULL",
                ),
            ),
            catalog_file: String::from_str("text.msg"),
            key_transform: KeyTransform::Identity,
            identifier_derivation: IdentifierDerivation::HashOfKeyHex,
            output_file: String::from_str("traits.json"),
        }
    }

    /// The entries that the rows give against the catalog of one language.
    pub fn extract(rows: &Vec<SourceRow>, catalog: &MessageCatalog) -> (table: OutputTable)
        ensures
            table@ == resolved_table(traits(), row_views(rows@), catalog@),
            table.order() == resolved_order(traits(), row_views(rows@), catalog@),
    {
        resolve(&Traits::category(), rows, catalog)
    }
}

/// Items: published under the hash of the key.
pub struct Items;

impl Items {
    /// The configuration of this category.
    pub fn category() -> (category: CategorySpec)
        ensures
            category@ == items(),
    {
        CategorySpec {
            relation_query: Some(
                String::from_str(
                    "SELECT Key, ItemName FROM item WHERE ItemName IS NOT NULL AND Key IS NOT NULL",
                ),
            ),
            catalog_file: String::from_str("text.msg"),
            key_transform: KeyTransform::Identity,
            identifier_derivation: IdentifierDerivation::HashOfKeyHex,
            output_file: String::from_str("items.json"),
        }
    }

    /// The entries that the rows give against the catalog of one language.
    pub fn extract(rows: &Vec<SourceRow>, catalog: &MessageCatalog) -> (table: OutputTable)
        ensures
            table@ == resolved_table(items(), row_views(rows@), catalog@),
            table.order() == resolved_order(items(), row_views(rows@), catalog@),
    {
        resolve(&Items::category(), rows, catalog)
    }
}

/// Enemies: published under the hash of the key in title case, which is how the game
/// writes the keys that it hashes.
pub struct Enemies;

impl Enemies {
    /// The configuration of this category.
    pub fn category() -> (category: CategorySpec)
        ensures
            category@ == enemies(),
    {
        CategorySpec {
            relation_query: Some(
                String::from_str(
                    "SELECT KeyMaybe, VariantName1 FROM enemy WHERE KeyMaybe IS NOT NULL AND VariantName1 IS NOT NULL",
                ),
            ),
            catalog_file: String::from_str("text_chara.msg"),
            key_transform: KeyTransform::AlphanumericTitleCaseNormalize,
            identifier_derivation: IdentifierDerivation::HashOfKeyHex,
            output_file: String::from_str("enemies.json"),
        }
    }

    /// The entries that the rows give against the catalog of one language.
    pub fn extract(rows: &Vec<SourceRow>, catalog: &MessageCatalog) -> (table: OutputTable)
        ensures
            table@ == resolved_table(enemies(), row_views(rows@), catalog@),
            table.order() == resolved_order(enemies(), row_views(rows@), catalog@),
    {
        resolve(&Enemies::category(), rows, catalog)
    }
}

/// Every category, in the order in which a run goes through them.
pub open spec fn all_categories() -> Seq<CategoryModel> {
    seq![
        characters(),
        overmasteries(),
        weapons(),
        sigils(),
        traits(),
        items(),
        quests(),
        enemies(),
    ]
}

/// What the categories say, one by one.
pub open spec fn category_views(categories: Seq<CategorySpec>) -> Seq<CategoryModel> {
    Seq::new(categories.len(), |i: int| categories[i]@)
}

/// Every category, in the order in which a run goes through them.
pub fn categories() -> (categories: Vec<CategorySpec>)
    ensures
        category_views(categories@) == all_categories(),
{
    let mut categories: Vec<CategorySpec> = Vec::new();
    categories.push(Characters::category());
    categories.push(Overmastery::category());
    categories.push(Weapon::category());
    categories.push(Sigils::category());
    categories.push(Traits::category());
    categories.push(Items::category());
    categories.push(Quests::category());
    categories.push(Enemies::category());
    assert(category_views(categories@) =~= all_categories());
    categories
}

} // verus!
