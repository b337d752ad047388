//! What tells one category of game data from another: where its rows and
//! its catalog come from, how its keys are normalized, and how the
//! identifier of an entry is derived.

use crate::language::Language;
use vstd::prelude::*;
use vstd::string::StringExecFns;

verus! {

/// What is done to a natural key before it is hashed.
#[derive(Clone, Copy, Debug, PartialEq, Eq, Structural)]
pub enum KeyTransform {
    /// The key as it is.
    Identity,
    /// The key in title case, as the game writes enemy keys.
    AlphanumericTitleCaseNormalize,
}

/// One line of a fixed table: the catalog identifier and the output
/// identifier that stands for it.
pub struct IdMapping {
    pub catalog_id: String,
    pub output_id: String,
}

/// How the output identifier of an entry is derived.
pub enum IdentifierDerivation {
    /// The content hash of the transformed key, as eight hexadecimal digits.
    HashOfKeyHex,
    /// The natural key in lower case.
    LowercaseKey,
    /// The output identifier that a fixed table gives for the key; keys that
    /// the table does not hold give no entry.
    FixedIdTableLookup { table: Vec<IdMapping> },
    /// One field of the key, the fields being separated by `delimiter`;
    /// keys that do not begin with `prefix`, or have too few fields, give no
    /// entry.
    SubstringExtraction { prefix: String, delimiter: char, position: usize },
}

/// The configuration of one category.
pub struct CategorySpec {
    /// The query that yields the category's rows; `None` where the entries
    /// are driven off the catalog alone.
    pub relation_query: Option<String>,
    /// The name of the catalog file within a language's text directory.
    pub catalog_file: String,
    pub key_transform: KeyTransform,
    pub identifier_derivation: IdentifierDerivation,
    /// The name of the output file within a language's data directory.
    pub output_file: String,
}

/// What an `IdentifierDerivation` says.
pub ghost enum DerivationModel {
    HashOfKeyHex,
    LowercaseKey,
    FixedIdTableLookup { table: Seq<(Seq<char>, Seq<char>)> },
    SubstringExtraction { prefix: Seq<char>, delimiter: char, position: nat },
}

/// What a `CategorySpec` says.
pub ghost struct CategoryModel {
    pub relation_query: Option<Seq<char>>,
    pub catalog_file: Seq<char>,
    pub key_transform: KeyTransform,
    pub identifier_derivation: DerivationModel,
    pub output_file: Seq<char>,
}

impl View for IdMapping {
    type V = (Seq<char>, Seq<char>);

    open spec fn view(&self) -> (Seq<char>, Seq<char>) {
        (self.catalog_id@, self.output_id@)
    }
}

/// The lines of a table as pairs of catalog and output identifier.
pub open spec fn table_view(table: Seq<IdMapping>) -> Seq<(Seq<char>, Seq<char>)> {
    Seq::new(table.len(), |i: int| table[i]@)
}

impl View for IdentifierDerivation {
    type V = DerivationModel;

    open spec fn view(&self) -> DerivationModel {
        match self {
            IdentifierDerivation::HashOfKeyHex => DerivationModel::HashOfKeyHex,
            IdentifierDerivation::LowercaseKey => DerivationModel::LowercaseKey,
            IdentifierDerivation::FixedIdTableLookup { table } => {
                DerivationModel::FixedIdTableLookup { table: table_view(table@) }
            },
            IdentifierDerivation::SubstringExtraction { prefix, delimiter, position } => {
                DerivationModel::SubstringExtraction {
                    prefix: prefix@,
                    delimiter: *delimiter,
                    position: *position as nat,
                }
            },
        }
    }
}

impl View for CategorySpec {
    type V = CategoryModel;

    open spec fn view(&self) -> CategoryModel {
        CategoryModel {
            relation_query: match self.relation_query {
                Some(query) => Some(query@),
                None => None,
            },
            catalog_file: self.catalog_file@,
            key_transform: self.key_transform,
            identifier_derivation: self.identifier_derivation@,
            output_file: self.output_file@,
        }
    }
}

/// Where the catalog of a category lies for a language:
/// `text/<code>/<catalog file>`.
pub open spec fn catalog_path_of(category: CategoryModel, language: Language) -> Seq<char> {
    "text/"@ + language.code_of() + "/"@ + category.catalog_file
}

/// Where the output of a category goes for a language:
/// `data/<code>/<output file>`.
pub open spec fn output_path_of(category: CategoryModel, language: Language) -> Seq<char> {
    "data/"@ + language.code_of() + "/"@ + category.output_file
}

/// The directory that holds every output of a language: `data/<code>`.
pub open spec fn output_directory_of(language: Language) -> Seq<char> {
    "data/"@ + language.code_of()
}

impl CategorySpec {
    /// The path of the catalog file of this category in `language`.
    pub fn catalog_path(&self, language: Language) -> (path: String)
        ensures
            path@ == catalog_path_of(self@, language),
    {
        let mut path = String::from_str("text/");
        path.append(language.code());
        path.append("/");
        path.append(self.catalog_file.as_str());
        path
    }

    /// The path of the output file of this category in `language`.
    pub fn output_path(&self, language: Language) -> (path: String)
        ensures
            path@ == output_path_of(self@, language),
    {
        let mut path = String::from_str("data/");
        path.append(language.code());
        path.append("/");
        path.append(self.output_file.as_str());
        path
    }
}

/// The directory that the outputs of `language` are written to.
pub fn output_directory(language: Language) -> (path: String)
    ensures
        path@ == output_directory_of(language),
{
    let mut path = String::from_str("data/");
    path.append(language.code());
    path
}

} // verus!
