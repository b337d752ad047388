//! The message catalog of one language: what a catalog file holds, row by
//! row, and the lookup from translation identifier to text built from it.

use vstd::hash_map::StringHashMap;
use vstd::prelude::*;

verus! {

/// One decoded row of a catalog file.
pub struct CatalogRow {
    pub id_hash: String,
    pub sub_id: String,
    pub text: String,
}

/// The decoded rows of one catalog file, in file order.
pub struct LanguageFile {
    pub rows: Vec<CatalogRow>,
}

/// The lookup from translation identifier to text, for one language.
pub struct MessageCatalog {
    texts: StringHashMap<String>,
}

/// The lookup that the rows build when they are entered in order, a later
/// row replacing an earlier one with the same identifier.
pub open spec fn texts_of(rows: Seq<CatalogRow>) -> Map<Seq<char>, Seq<char>>
    decreases rows.len(),
{
    if rows.len() == 0 {
        Map::empty()
    } else {
        texts_of(rows.drop_last()).insert(rows.last().id_hash@, rows.last().text@)
    }
}

/// The text that counts as present under `id`: there is none where the
/// catalog has no such identifier, nor where it holds the empty text.
pub open spec fn text_for(catalog: Map<Seq<char>, Seq<char>>, id: Seq<char>) -> Option<Seq<char>> {
    if catalog.contains_key(id) && catalog[id].len() > 0 {
        Some(catalog[id])
    } else {
        None
    }
}

impl View for MessageCatalog {
    type V = Map<Seq<char>, Seq<char>>;

    closed spec fn view(&self) -> Map<Seq<char>, Seq<char>> {
        self.texts@.map_values(|text: String| text@)
    }
}

impl MessageCatalog {
    /// The catalog of the given rows.
    pub fn from_rows(rows: &Vec<CatalogRow>) -> (catalog: MessageCatalog)
        ensures
            catalog@ == texts_of(rows@),
    {
        let mut texts: StringHashMap<String> = StringHashMap::new();
        let mut i: usize = 0;
        while i < rows.len()
            invariant
                i <= rows.len(),
                texts@.map_values(|text: String| text@) == texts_of(rows@.take(i as int)),
            decreases rows.len() - i,
        {
            let ghost before = texts@;
            texts.insert(rows[i].id_hash.clone(), rows[i].text.clone());
            proof {
                assert(rows@.take(i + 1).drop_last() == rows@.take(i as int));
                assert(texts@.map_values(|text: String| text@) == before.map_values(
                    |text: String| text@,
                ).insert(rows[i as int].id_hash@, rows[i as int].text@));
            }
            i = i + 1;
        }
        assert(rows@.take(rows@.len() as int) == rows@);
        MessageCatalog { texts }
    }

    /// The text stored under `id`, if the catalog has that identifier.
    pub fn get(&self, id: &str) -> (text: Option<&String>)
        ensures
            text is Some <==> self@.contains_key(id@),
            text matches Some(t) ==> t@ == self@[id@],
    {
        self.texts.get(id)
    }

    /// The text under `id` where there is one and it is not empty.
    pub fn lookup(&self, id: &str) -> (text: Option<&String>)
        ensures
            text is Some <==> text_for(self@, id@) is Some,
            text matches Some(t) ==> text_for(self@, id@) == Some(t@),
    {
        match self.texts.get(id) {
            Some(t) => if t.as_str().is_empty() {
                None
            } else {
                Some(t)
            },
            None => None,
        }
    }
}

impl LanguageFile {
    /// The lookup from identifier to text that this file's rows build.
    pub fn to_hashmap(&self) -> (catalog: MessageCatalog)
        ensures
            catalog@ == texts_of(self.rows@),
    {
        MessageCatalog::from_rows(&self.rows)
    }
}

/// Of the rows that share an identifier the last one counts.
pub proof fn lemma_last_write_wins(rows: Seq<CatalogRow>, i: int)
    requires
        0 <= i < rows.len(),
        forall|j: int| i < j < rows.len() ==> rows[j].id_hash@ != rows[i].id_hash@,
    ensures
        texts_of(rows).contains_key(rows[i].id_hash@),
        texts_of(rows)[rows[i].id_hash@] == rows[i].text@,
    decreases rows.len(),
{
    if i < rows.len() - 1 {
        lemma_last_write_wins(rows.drop_last(), i);
    }
}

/// The catalog knows exactly the identifiers that occur in the rows.
pub proof fn lemma_catalog_identifiers(rows: Seq<CatalogRow>, id: Seq<char>)
    ensures
        texts_of(rows).contains_key(id) <==> exists|i: int|
            0 <= i < rows.len() && #[trigger] rows[i].id_hash@ == id,
    decreases rows.len(),
{
    if rows.len() > 0 {
        let front = rows.drop_last();
        lemma_catalog_identifiers(front, id);
        if texts_of(rows).contains_key(id) {
            if rows.last().id_hash@ == id {
                assert(rows[rows.len() - 1].id_hash@ == id);
            } else {
                let i = choose|i: int| 0 <= i < front.len() && #[trigger] front[i].id_hash@ == id;
                assert(rows[i].id_hash@ == id);
            }
        }
        if exists|i: int| 0 <= i < rows.len() && #[trigger] rows[i].id_hash@ == id {
            let i = choose|i: int| 0 <= i < rows.len() && #[trigger] rows[i].id_hash@ == id;
            if i < rows.len() - 1 {
                assert(front[i].id_hash@ == id);
            }
        }
    }
}

} // verus!
