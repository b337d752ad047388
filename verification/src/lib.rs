//! Extraction of localized game text: a bit-exact 32-bit content hash, the
//! per-language message catalog, and the pipeline that joins relational rows
//! against a catalog and derives a stable identifier for every entry.
//!
//! - [`hash`]: the content hash.
//! - [`catalog`]: the rows of a catalog file and the lookup built from them.
//! - [`category`], [`categories`]: how categories are configured, and the
//!   categories that there are.
//! - [`derive`], [`pipeline`]: from a row to its entry, from rows to the
//!   output table.
//! - [`table`], [`json`]: the output table, and the document written for it.
//! - [`run`]: failures and the order of a run over categories and languages.
//! - [`ascii`], [`hex`], [`segments`], [`text`], [`language`]: the parts that
//!   the rest is built from.

pub mod ascii;
pub mod catalog;
pub mod categories;
pub mod category;
pub mod derive;
pub mod hash;
pub mod hex;
pub mod json;
pub mod language;
pub mod pipeline;
pub mod run;
pub mod segments;
pub mod table;
pub mod text;
