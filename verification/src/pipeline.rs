//! The resolution pass: for one category and one language, every row is
//! joined against the catalog and the rows that have text become the
//! entries of the output table.

use crate::catalog::{text_for, texts_of, CatalogRow, LanguageFile, MessageCatalog};
use crate::category::{
    CategoryModel, CategorySpec, DerivationModel, IdMapping, IdentifierDerivation, table_view,
};
use crate::derive::{derive_output_id, output_id_of};
use crate::table::{EntryView, OutputTable, ResolvedEntry};
use vstd::prelude::*;

verus! {

/// One row of the relational source: the natural key of a thing and the
/// identifier of its text in the catalog.
pub struct SourceRow {
    pub natural_key: String,
    pub translation_id: String,
}

/// What a row says, as plain sequences of characters.
pub ghost struct RowView {
    pub natural_key: Seq<char>,
    pub translation_id: Seq<char>,
}

impl View for SourceRow {
    type V = RowView;

    open spec fn view(&self) -> RowView {
        RowView { natural_key: self.natural_key@, translation_id: self.translation_id@ }
    }
}

/// What the rows say, row by row.
pub open spec fn row_views(rows: Seq<SourceRow>) -> Seq<RowView> {
    Seq::new(rows.len(), |i: int| rows[i]@)
}

/// The entry that a row gives: none where the catalog has no text for it or
/// only the empty text, and none where the category derives no identifier
/// from its key. The entry shows the natural key as it came.
pub open spec fn resolved(
    category: CategoryModel,
    row: RowView,
    catalog: Map<Seq<char>, Seq<char>>,
) -> Option<EntryView> {
    match text_for(catalog, row.translation_id) {
        None => None,
        Some(text) => match output_id_of(
            category.identifier_derivation,
            category.key_transform,
            row.natural_key,
        ) {
            None => None,
            Some(id) => Some(EntryView { output_id: id, display_key: row.natural_key, text }),
        },
    }
}

/// The table that the rows give when they are resolved in order, a later
/// entry replacing an earlier one under the same identifier.
pub open spec fn resolved_table(
    category: CategoryModel,
    rows: Seq<RowView>,
    catalog: Map<Seq<char>, Seq<char>>,
) -> Map<Seq<char>, EntryView>
    decreases rows.len(),
{
    if rows.len() == 0 {
        Map::empty()
    } else {
        let before = resolved_table(category, rows.drop_last(), catalog);
        match resolved(category, rows.last(), catalog) {
            Some(entry) => before.insert(entry.output_id, entry),
            None => before,
        }
    }
}

/// The output identifiers of the table that the rows give, each once, in
/// the order of the rows that first gave them.
pub open spec fn resolved_order(
    category: CategoryModel,
    rows: Seq<RowView>,
    catalog: Map<Seq<char>, Seq<char>>,
) -> Seq<Seq<char>>
    decreases rows.len(),
{
    if rows.len() == 0 {
        Seq::empty()
    } else {
        let before = resolved_order(category, rows.drop_last(), catalog);
        match resolved(category, rows.last(), catalog) {
            Some(entry) => if resolved_table(category, rows.drop_last(), catalog).contains_key(
                entry.output_id,
            ) {
                before
            } else {
                before.push(entry.output_id)
            },
            None => before,
        }
    }
}

/// The rows that stand for a catalog's own rows where a category has no
/// relational source: each identifier is its own key.
pub open spec fn rows_of_catalog(rows: Seq<CatalogRow>) -> Seq<RowView> {
    Seq::new(
        rows.len(),
        |i: int| RowView { natural_key: rows[i].id_hash@, translation_id: rows[i].id_hash@ },
    )
}

/// The rows that stand for the lines of a fixed table: each catalog
/// identifier is its own key.
pub open spec fn rows_of_table(table: Seq<(Seq<char>, Seq<char>)>) -> Seq<RowView> {
    Seq::new(
        table.len(),
        |i: int| RowView { natural_key: table[i].0, translation_id: table[i].0 },
    )
}

/// Resolves one row.
pub fn resolve_row(category: &CategorySpec, row: &SourceRow, catalog: &MessageCatalog) -> (entry:
    Option<ResolvedEntry>)
    ensures
        entry is Some <==> resolved(category@, row@, catalog@) is Some,
        entry matches Some(e) ==> resolved(category@, row@, catalog@) == Some(e@),
{
    match catalog.lookup(row.translation_id.as_str()) {
        None => None,
        Some(text) => match derive_output_id(
            &category.identifier_derivation,
            category.key_transform,
            row.natural_key.as_str(),
        ) {
            None => None,
            Some(output_id) => Some(
                ResolvedEntry {
                    output_id,
                    display_key: row.natural_key.clone(),
                    text: text.clone(),
                },
            ),
        },
    }
}

/// Resolves the rows of one category against the catalog of one language.
pub fn resolve(category: &CategorySpec, rows: &Vec<SourceRow>, catalog: &MessageCatalog) -> (table:
    OutputTable)
    ensures
        table@ == resolved_table(category@, row_views(rows@), catalog@),
        table.order() == resolved_order(category@, row_views(rows@), catalog@),
{
    let mut table = OutputTable::new();
    let mut i: usize = 0;
    while i < rows.len()
        invariant
            i <= rows.len(),
            table@ == resolved_table(category@, row_views(rows@).take(i as int), catalog@),
            table.order() == resolved_order(
                category@,
                row_views(rows@).take(i as int),
                catalog@,
            ),
        decreases rows.len() - i,
    {
        assert(row_views(rows@).take(i + 1).drop_last() == row_views(rows@).take(i as int));
        match resolve_row(category, &rows[i], catalog) {
            Some(entry) => {
                table.insert(entry);
            },
            None => {},
        }
        i = i + 1;
    }
    assert(row_views(rows@).take(rows@.len() as int) == row_views(rows@));
    table
}

/// The rows that stand for the rows of a catalog file.
pub fn catalog_rows(file: &LanguageFile) -> (rows: Vec<SourceRow>)
    ensures
        row_views(rows@) == rows_of_catalog(file.rows@),
{
    let mut rows: Vec<SourceRow> = Vec::new();
    let mut i: usize = 0;
    while i < file.rows.len()
        invariant
            i <= file.rows.len(),
            rows.len() == i,
            forall|j: int| 0 <= j < i ==> rows@[j]@ == rows_of_catalog(file.rows@)[j],
        decreases file.rows.len() - i,
    {
        rows.push(
            SourceRow {
                natural_key: file.rows[i].id_hash.clone(),
                translation_id: file.rows[i].id_hash.clone(),
            },
        );
        i = i + 1;
    }
    assert(row_views(rows@) =~= rows_of_catalog(file.rows@));
    rows
}

/// The rows that stand for the lines of a fixed table.
pub fn table_rows(table: &Vec<IdMapping>) -> (rows: Vec<SourceRow>)
    ensures
        row_views(rows@) == rows_of_table(table_view(table@)),
{
    let ghost lines = table_view(table@);
    let mut rows: Vec<SourceRow> = Vec::new();
    let mut i: usize = 0;
    while i < table.len()
        invariant
            i <= table.len(),
            rows.len() == i,
            lines == table_view(table@),
            forall|j: int| 0 <= j < i ==> rows@[j]@ == rows_of_table(lines)[j],
        decreases table.len() - i,
    {
        rows.push(
            SourceRow {
                natural_key: table[i].catalog_id.clone(),
                translation_id: table[i].catalog_id.clone(),
            },
        );
        i = i + 1;
    }
    assert(row_views(rows@) =~= rows_of_table(lines));
    rows
}

/// The rows of a category that has no relational source: the lines of its
/// fixed table where it has one, the rows of the catalog file otherwise.
/// `None` for a category whose rows come from the relational source.
pub open spec fn rows_without_source(category: CategoryModel, file: Seq<CatalogRow>) -> Option<
    Seq<RowView>,
> {
    if category.relation_query is Some {
        None
    } else {
        match category.identifier_derivation {
            DerivationModel::FixedIdTableLookup { table } => Some(rows_of_table(table)),
            _ => Some(rows_of_catalog(file)),
        }
    }
}

/// The rows that a category is resolved from: its own where it has no
/// relational source, the relational rows otherwise.
pub open spec fn rows_of_pair(
    category: CategoryModel,
    relational: Seq<RowView>,
    file: Seq<CatalogRow>,
) -> Seq<RowView> {
    match rows_without_source(category, file) {
        Some(rows) => rows,
        None => relational,
    }
}

/// The rows of a category that has no relational source.
pub fn catalog_driven_rows(category: &CategorySpec, file: &LanguageFile) -> (rows: Option<
    Vec<SourceRow>,
>)
    ensures
        rows is Some <==> rows_without_source(category@, file.rows@) is Some,
        rows matches Some(found) ==> rows_without_source(category@, file.rows@) == Some(
            row_views(found@),
        ),
{
    if category.relation_query.is_some() {
        None
    } else {
        match &category.identifier_derivation {
            IdentifierDerivation::FixedIdTableLookup { table } => Some(table_rows(table)),
            _ => Some(catalog_rows(file)),
        }
    }
}

/// The output table of one category in one language, from the decoded
/// catalog file of that language and the rows of the relational source.
/// The relational rows count only for a category that has such a source.
pub fn extract_pair(category: &CategorySpec, relational: &Vec<SourceRow>, file: &LanguageFile) -> (table:
    OutputTable)
    ensures
        table@ == resolved_table(
            category@,
            rows_of_pair(category@, row_views(relational@), file.rows@),
            texts_of(file.rows@),
        ),
        table.order() == resolved_order(
            category@,
            rows_of_pair(category@, row_views(relational@), file.rows@),
            texts_of(file.rows@),
        ),
{
    let catalog = file.to_hashmap();
    match catalog_driven_rows(category, file) {
        Some(rows) => resolve(category, &rows, &catalog),
        None => resolve(category, relational, &catalog),
    }
}

/// No entry of a resolved table has the empty text, and each stands under
/// its own identifier.
pub proof fn lemma_entries_have_text(
    category: CategoryModel,
    rows: Seq<RowView>,
    catalog: Map<Seq<char>, Seq<char>>,
    id: Seq<char>,
)
    requires
        resolved_table(category, rows, catalog).contains_key(id),
    ensures
        resolved_table(category, rows, catalog)[id].text.len() > 0,
        resolved_table(category, rows, catalog)[id].output_id == id,
    decreases rows.len(),
{
    if rows.len() > 0 {
        let last = resolved(category, rows.last(), catalog);
        if !(last matches Some(entry) && entry.output_id == id) {
            lemma_entries_have_text(category, rows.drop_last(), catalog, id);
        }
    }
}

/// The order of a resolved table lists the identifiers of its entries, and
/// lists none twice.
pub proof fn lemma_order_lists_each_identifier_once(
    category: CategoryModel,
    rows: Seq<RowView>,
    catalog: Map<Seq<char>, Seq<char>>,
)
    ensures
        forall|id: Seq<char>|
            resolved_table(category, rows, catalog).contains_key(id) <==> resolved_order(
                category,
                rows,
                catalog,
            ).contains(id),
        resolved_order(category, rows, catalog).no_duplicates(),
    decreases rows.len(),
{
    let order = resolved_order(category, rows, catalog);
    if rows.len() > 0 {
        let front = rows.drop_last();
        lemma_order_lists_each_identifier_once(category, front, catalog);
        let before = resolved_order(category, front, catalog);
        assert forall|id: Seq<char>|
            resolved_table(category, rows, catalog).contains_key(id) <==> order.contains(
                id,
            ) by {
            if before.contains(id) {
                let i = choose|i: int| 0 <= i < before.len() && before[i] == id;
                assert(order[i] == id);
            }
            if order.contains(id) && !before.contains(id) {
                let i = choose|i: int| 0 <= i < order.len() && order[i] == id;
                if i < before.len() {
                    assert(before[i] == id);
                }
            }
            if order.len() > before.len() {
                assert(order[order.len() - 1] == order.last());
            }
        }
        assert forall|i: int, j: int| 0 <= i < order.len() && 0 <= j < order.len() && i != j implies order[i]
            != order[j] by {
            if i < before.len() && j < before.len() {
                assert(before[i] != before[j]);
            } else if i < before.len() {
                assert(before.contains(before[i]));
            } else if j < before.len() {
                assert(before.contains(before[j]));
            }
        }
    }
}

/// A row whose translation identifier the catalog does not know, or knows
/// with the empty text, gives no entry and leaves the table as it was.
pub proof fn lemma_row_without_text_is_skipped(
    category: CategoryModel,
    rows: Seq<RowView>,
    row: RowView,
    catalog: Map<Seq<char>, Seq<char>>,
)
    requires
        !catalog.contains_key(row.translation_id) || catalog[row.translation_id].len() == 0,
    ensures
        resolved(category, row, catalog) is None,
        resolved_table(category, rows.push(row), catalog) == resolved_table(
            category,
            rows,
            catalog,
        ),
{
    assert(rows.push(row).drop_last() == rows);
}

/// Every entry of a resolved table is what one of the rows gives: it shows
/// that row's natural key and the text that the catalog holds for it.
pub proof fn lemma_entries_come_from_rows(
    category: CategoryModel,
    rows: Seq<RowView>,
    catalog: Map<Seq<char>, Seq<char>>,
    id: Seq<char>,
)
    requires
        resolved_table(category, rows, catalog).contains_key(id),
    ensures
        exists|i: int|
            0 <= i < rows.len() && resolved(category, #[trigger] rows[i], catalog) == Some(
                resolved_table(category, rows, catalog)[id],
            ),
    decreases rows.len(),
{
    if rows.len() > 0 {
        let last = resolved(category, rows.last(), catalog);
        if last matches Some(entry) && entry.output_id == id {
            assert(resolved(category, rows[rows.len() - 1], catalog) == Some(
                resolved_table(category, rows, catalog)[id],
            ));
        } else {
            let front = rows.drop_last();
            lemma_entries_come_from_rows(category, front, catalog, id);
            let i = choose|i: int|
                0 <= i < front.len() && resolved(category, #[trigger] front[i], catalog) == Some(
                    resolved_table(category, front, catalog)[id],
                );
            assert(rows[i] == front[i]);
        }
    }
}

/// Of the rows that give the same output identifier the last one counts.
pub proof fn lemma_last_row_wins(
    category: CategoryModel,
    rows: Seq<RowView>,
    catalog: Map<Seq<char>, Seq<char>>,
    i: int,
)
    requires
        0 <= i < rows.len(),
        resolved(category, rows[i], catalog) is Some,
        forall|j: int|
            i < j < rows.len() ==> (resolved(category, #[trigger] rows[j], catalog) matches Some(
                later,
            ) ==> later.output_id != resolved(category, rows[i], catalog)->0.output_id),
    ensures
        ({
            let entry = resolved(category, rows[i], catalog)->0;
            &&& resolved_table(category, rows, catalog).contains_key(entry.output_id)
            &&& resolved_table(category, rows, catalog)[entry.output_id] == entry
        }),
    decreases rows.len(),
{
    if i < rows.len() - 1 {
        let front = rows.drop_last();
        assert(front[i] == rows[i]);
        assert forall|j: int| i < j < front.len() implies (resolved(
            category,
            #[trigger] front[j],
            catalog,
        ) matches Some(later) ==> later.output_id != resolved(
            category,
            front[i],
            catalog,
        )->0.output_id) by {
            assert(front[j] == rows[j]);
        }
        lemma_last_row_wins(category, front, catalog, i);
        let j = rows.len() - 1;
        assert(rows[j] == rows.last());
    }
}

} // verus!
