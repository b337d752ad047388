//! From a natural key to the identifier under which its text is published.

use crate::ascii::{alphanumeric_title_case_normalize, title_case};
use crate::category::{DerivationModel, IdMapping, IdentifierDerivation, KeyTransform, table_view};
use crate::hash::{hash, xxhash32_custom};
use crate::hex::{hex8, to_hex8};
use crate::segments::{field, has_prefix, nth_field, starts_with};
use crate::text::{said, same_text};
use vstd::prelude::*;
use vstd::string::StringExecFns;
use vstd::utf8::encode_utf8;

verus! {

/// The lower-case form that `str::to_lowercase` gives a text: its
/// characters mapped to lower case as Unicode defines it.
pub uninterp spec fn lowercase_of(text: Seq<char>) -> Seq<char>;

/// `str::to_lowercase`: the lower-case equivalent of `text` as a new string.
#[verifier::external_body]
fn to_lowercase(text: &str) -> (lower: String)
    ensures
        lower@ == lowercase_of(text@),
{
    text.to_lowercase()
}

/// The key in the form that is hashed.
pub open spec fn transformed_key(transform: KeyTransform, key: Seq<char>) -> Seq<char> {
    match transform {
        KeyTransform::Identity => key,
        KeyTransform::AlphanumericTitleCaseNormalize => title_case(key),
    }
}

/// The output identifier of the first line of `table` whose catalog
/// identifier is `key`.
pub open spec fn mapped_id(table: Seq<(Seq<char>, Seq<char>)>, key: Seq<char>) -> Option<
    Seq<char>,
>
    decreases table.len(),
{
    if table.len() == 0 {
        None
    } else if table[0].0 == key {
        Some(table[0].1)
    } else {
        mapped_id(table.drop_first(), key)
    }
}

/// The output identifier of an entry with the given natural key, or `None`
/// where the category has no entry for such a key.
pub open spec fn output_id_of(
    derivation: DerivationModel,
    transform: KeyTransform,
    natural_key: Seq<char>,
) -> Option<Seq<char>> {
    match derivation {
        DerivationModel::HashOfKeyHex => Some(
            hex8(hash(encode_utf8(transformed_key(transform, natural_key)))),
        ),
        DerivationModel::LowercaseKey => Some(lowercase_of(natural_key)),
        DerivationModel::FixedIdTableLookup { table } => mapped_id(table, natural_key),
        DerivationModel::SubstringExtraction { prefix, delimiter, position } => {
            if has_prefix(natural_key, prefix) {
                field(natural_key, delimiter, position)
            } else {
                None
            }
        },
    }
}

/// Applies `transform` to `key`.
pub fn transform_key(transform: KeyTransform, key: &str) -> (transformed: String)
    ensures
        transformed@ == transformed_key(transform, key@),
{
    match transform {
        KeyTransform::Identity => String::from_str(key),
        KeyTransform::AlphanumericTitleCaseNormalize => alphanumeric_title_case_normalize(key),
    }
}

/// Looks `key` up in a fixed table.
pub fn lookup_id(table: &Vec<IdMapping>, key: &str) -> (id: Option<String>)
    ensures
        said(id) == mapped_id(table_view(table@), key@),
{
    let ghost lines = table_view(table@);
    let mut i: usize = 0;
    assert(lines.skip(0) == lines);
    while i < table.len()
        invariant
            lines == table_view(table@),
            i <= table.len(),
            mapped_id(lines, key@) == mapped_id(lines.skip(i as int), key@),
        decreases table.len() - i,
    {
        assert(lines.skip(i as int)[0] == table@[i as int]@);
        if same_text(table[i].catalog_id.as_str(), key) {
            return Some(table[i].output_id.clone());
        }
        assert(lines.skip(i as int).drop_first() == lines.skip(i + 1));
        i = i + 1;
    }
    None
}

/// Derives the output identifier of an entry from its natural key.
pub fn derive_output_id(
    derivation: &IdentifierDerivation,
    transform: KeyTransform,
    natural_key: &str,
) -> (id: Option<String>)
    ensures
        said(id) == output_id_of(derivation@, transform, natural_key@),
{
    match derivation {
        IdentifierDerivation::HashOfKeyHex => {
            let hashed = transform_key(transform, natural_key);
            Some(to_hex8(xxhash32_custom(hashed.as_str())))
        },
        IdentifierDerivation::LowercaseKey => Some(to_lowercase(natural_key)),
        IdentifierDerivation::FixedIdTableLookup { table } => lookup_id(table, natural_key),
        IdentifierDerivation::SubstringExtraction { prefix, delimiter, position } => {
            if starts_with(natural_key, prefix.as_str()) {
                nth_field(natural_key, *delimiter, *position)
            } else {
                None
            }
        },
    }
}

} // verus!
