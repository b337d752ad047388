//! A run over every category and every language: what can fail, how far a
//! failure reaches, and which pair of category and language comes next.

use crate::catalog::{texts_of, CatalogRow, LanguageFile, MessageCatalog};
use crate::category::{catalog_path_of, output_path_of, CategoryModel, CategorySpec};
use crate::language::Language;
use crate::pipeline::{
    extract_pair, resolved_order, resolved_table, row_views, rows_of_pair, RowView, SourceRow,
};
use crate::table::OutputTable;
use vstd::prelude::*;
use vstd::string::StringExecFns;

verus! {

/// What can go wrong with one pair of category and language.
#[derive(Clone, Copy, Debug, PartialEq, Eq, Structural)]
pub enum ErrorKind {
    /// The catalog file is missing or cannot be decoded.
    CatalogUnavailable,
    /// The relational source cannot be reached.
    SourceUnavailable,
    /// The output could not be written.
    OutputWriteFailed,
}

/// A failure, with what it concerns: the file that could not be read or
/// written, and the category and the language that were being worked on.
pub struct ExtractError {
    pub kind: ErrorKind,
    pub path: String,
    /// The output file of the category, which names it.
    pub category: String,
    pub language: Language,
}

/// Whether the first failure ends the run or only what it touches.
#[derive(Clone, Copy, Debug, PartialEq, Eq, Structural)]
pub enum FailurePolicy {
    /// Any failure ends the run.
    AbortRun,
    /// A failure ends its own scope and the run goes on with the rest.
    IsolateFailures,
}

/// How the work on one pair ended.
#[derive(Clone, Copy, Debug, PartialEq, Eq, Structural)]
pub enum Outcome {
    Completed,
    Failed(ErrorKind),
}

/// What a run does next: work on the pair of the category and the language
/// with the given positions, or stop.
#[derive(Clone, Copy, Debug, PartialEq, Eq, Structural)]
pub enum Step {
    Pair { category: usize, language: usize },
    Finished,
}

/// What a failure says, by kind.
pub open spec fn message_prefix(kind: ErrorKind) -> Seq<char> {
    match kind {
        ErrorKind::CatalogUnavailable => "Could not open language file at path: "@,
        ErrorKind::SourceUnavailable => "Could not open sqlite db at path: "@,
        ErrorKind::OutputWriteFailed => "Could not write output file at path: "@,
    }
}

/// A failure in words: what could not be done with which file, then in
/// brackets the category and the language that were being worked on.
pub open spec fn message_of(
    kind: ErrorKind,
    path: Seq<char>,
    category: Seq<char>,
    language: Language,
) -> Seq<char> {
    message_prefix(kind) + path + " ("@ + category + ", "@ + language.code_of() + ")"@
}

impl ExtractError {
    /// The failure in words.
    pub fn message(&self) -> (text: String)
        ensures
            text@ == message_of(self.kind, self.path@, self.category@, self.language),
    {
        let mut text = match self.kind {
            ErrorKind::CatalogUnavailable => String::from_str(
                "Could not open language file at path: ",
            ),
            ErrorKind::SourceUnavailable => String::from_str("Could not open sqlite db at path: "),
            ErrorKind::OutputWriteFailed => String::from_str(
                "Could not write output file at path: ",
            ),
        };
        text.append(self.path.as_str());
        text.append(" (");
        text.append(self.category.as_str());
        text.append(", ");
        text.append(self.language.code());
        text.append(")");
        text
    }
}

impl MessageCatalog {
    /// The catalog of a decoded catalog file; `CatalogUnavailable` where the
    /// file could not be produced.
    pub fn load(source: Option<LanguageFile>) -> (loaded: Result<MessageCatalog, ErrorKind>)
        ensures
            match source {
                Some(file) => loaded matches Ok(catalog) && catalog@ == texts_of(file.rows@),
                None => loaded == Err::<MessageCatalog, ErrorKind>(ErrorKind::CatalogUnavailable),
            },
    {
        match source {
            Some(file) => Ok(file.to_hashmap()),
            None => Err(ErrorKind::CatalogUnavailable),
        }
    }
}

/// The failure to write the output of a category in a language.
pub fn output_failure(category: &CategorySpec, language: Language) -> (error: ExtractError)
    ensures
        error.kind == ErrorKind::OutputWriteFailed,
        error.path@ == output_path_of(category@, language),
        error.category@ == category@.output_file,
        error.language == language,
{
    ExtractError {
        kind: ErrorKind::OutputWriteFailed,
        path: category.output_path(language),
        category: category.output_file.clone(),
        language,
    }
}

/// What keeps a pair from being resolved, with the path that the failure
/// concerns: the store, where the category has a relational source and its
/// rows could not be had; else the catalog file, where it could not be
/// decoded.
pub open spec fn pair_failure(
    category: CategoryModel,
    language: Language,
    store_path: Seq<char>,
    has_rows: bool,
    has_file: bool,
) -> Option<(ErrorKind, Seq<char>)> {
    if category.relation_query is Some && !has_rows {
        Some((ErrorKind::SourceUnavailable, store_path))
    } else if !has_file {
        Some((ErrorKind::CatalogUnavailable, catalog_path_of(category, language)))
    } else {
        None
    }
}

/// The relational rows as far as they were had.
pub open spec fn rows_had(relational: Option<Vec<SourceRow>>) -> Seq<RowView> {
    match relational {
        Some(rows) => row_views(rows@),
        None => Seq::empty(),
    }
}

/// The rows of the file as far as it was decoded.
pub open spec fn rows_decoded(decoded: Option<LanguageFile>) -> Seq<CatalogRow> {
    match decoded {
        Some(file) => file.rows@,
        None => Seq::empty(),
    }
}

/// Resolves one category in one language from what the relational store
/// and the catalog file gave: `None` stands for rows that could not be had
/// and for a file that could not be decoded. The rows do not count, and
/// need not be there, for a category without relational source.
pub fn resolve_pair(
    category: &CategorySpec,
    language: Language,
    store_path: &str,
    relational: Option<Vec<SourceRow>>,
    decoded: Option<LanguageFile>,
) -> (resolved: Result<OutputTable, ExtractError>)
    ensures
        match pair_failure(category@, language, store_path@, relational is Some, decoded is Some) {
            Some((kind, path)) => resolved matches Err(error) && error.kind == kind && error.path@
                == path && error.category@ == category@.output_file && error.language
                == language,
            None => resolved matches Ok(table) && table@ == resolved_table(
                category@,
                rows_of_pair(category@, rows_had(relational), rows_decoded(decoded)),
                texts_of(rows_decoded(decoded)),
            ) && table.order() == resolved_order(
                category@,
                rows_of_pair(category@, rows_had(relational), rows_decoded(decoded)),
                texts_of(rows_decoded(decoded)),
            ),
        },
{
    let rows = match relational {
        Some(rows) => rows,
        None => {
            if category.relation_query.is_some() {
                return Err(
                    ExtractError {
                        kind: ErrorKind::SourceUnavailable,
                        path: String::from_str(store_path),
                        category: category.output_file.clone(),
                        language,
                    },
                );
            }
            Vec::new()
        },
    };
    match decoded {
        Some(file) => Ok(extract_pair(category, &rows, &file)),
        None => Err(
            ExtractError {
                kind: ErrorKind::CatalogUnavailable,
                path: category.catalog_path(language),
                category: category.output_file.clone(),
                language,
            },
        ),
    }
}

/// The pair with the given positions, if there is one.
pub open spec fn pair_or_finished(
    categories: usize,
    languages: usize,
    category: int,
    language: int,
) -> Step {
    if 0 <= category < categories && 0 <= language < languages {
        Step::Pair { category: category as usize, language: language as usize }
    } else {
        Step::Finished
    }
}

/// The pair that follows in the order of a run: the next language of the
/// same category, then the first language of the next category.
pub open spec fn following_pair(
    categories: usize,
    languages: usize,
    category: usize,
    language: usize,
) -> Step {
    if language + 1 < languages {
        pair_or_finished(categories, languages, category as int, language + 1)
    } else {
        pair_or_finished(categories, languages, category + 1, 0)
    }
}

/// The step that follows the work on a pair. A completed pair is followed
/// by the next one. Under `AbortRun` any failure ends the run. Under
/// `IsolateFailures` a missing catalog or a failed write costs the pair
/// alone, and an unreachable source costs the category in every language.
pub open spec fn step_after(
    policy: FailurePolicy,
    categories: usize,
    languages: usize,
    category: usize,
    language: usize,
    outcome: Outcome,
) -> Step {
    match outcome {
        Outcome::Completed => following_pair(categories, languages, category, language),
        Outcome::Failed(kind) => match policy {
            FailurePolicy::AbortRun => Step::Finished,
            FailurePolicy::IsolateFailures => match kind {
                ErrorKind::SourceUnavailable => pair_or_finished(
                    categories,
                    languages,
                    category + 1,
                    0,
                ),
                _ => following_pair(categories, languages, category, language),
            },
        },
    }
}

/// The first step of a run over the given numbers of categories and
/// languages.
pub fn first_step(categories: usize, languages: usize) -> (step: Step)
    ensures
        step == pair_or_finished(categories, languages, 0, 0),
{
    if categories > 0 && languages > 0 {
        Step::Pair { category: 0, language: 0 }
    } else {
        Step::Finished
    }
}

fn first_pair_of(categories: usize, languages: usize, category: usize) -> (step: Step)
    ensures
        step == pair_or_finished(categories, languages, category as int, 0),
{
    if category < categories && languages > 0 {
        Step::Pair { category, language: 0 }
    } else {
        Step::Finished
    }
}

/// The step that follows the work on the pair of `category` and `language`.
pub fn next_step(
    policy: FailurePolicy,
    categories: usize,
    languages: usize,
    category: usize,
    language: usize,
    outcome: Outcome,
) -> (step: Step)
    requires
        category < categories,
        language < languages,
    ensures
        step == step_after(policy, categories, languages, category, language, outcome),
{
    let whole_category = match outcome {
        Outcome::Completed => false,
        Outcome::Failed(kind) => {
            match policy {
                FailurePolicy::AbortRun => {
                    return Step::Finished;
                },
                FailurePolicy::IsolateFailures => {},
            }
            match kind {
                ErrorKind::SourceUnavailable => true,
                _ => false,
            }
        },
    };
    if !whole_category && language + 1 < languages {
        Step::Pair { category, language: language + 1 }
    } else {
        first_pair_of(categories, languages, category + 1)
    }
}

/// A run that meets no failure goes through every pair, category by
/// category and language by language, and then stops.
pub proof fn lemma_completed_pairs_follow_in_order(
    policy: FailurePolicy,
    categories: usize,
    languages: usize,
    category: usize,
    language: usize,
)
    requires
        category < categories,
        language < languages,
    ensures
        step_after(policy, categories, languages, category, language, Outcome::Completed) == (
        if language + 1 < languages {
            Step::Pair { category, language: (language + 1) as usize }
        } else if category + 1 < categories {
            Step::Pair { category: (category + 1) as usize, language: 0 }
        } else {
            Step::Finished
        }),
{
}

/// Under `IsolateFailures` a pair whose catalog is missing holds nothing
/// up: the run goes on as if the pair had been completed.
pub proof fn lemma_missing_catalog_costs_one_pair(
    categories: usize,
    languages: usize,
    category: usize,
    language: usize,
)
    ensures
        step_after(
            FailurePolicy::IsolateFailures,
            categories,
            languages,
            category,
            language,
            Outcome::Failed(ErrorKind::CatalogUnavailable),
        ) == step_after(
            FailurePolicy::IsolateFailures,
            categories,
            languages,
            category,
            language,
            Outcome::Completed,
        ),
{
}

} // verus!
