//! Storage-usage breakdown of an embedded SQL database: per-table and
//! per-index sizes, recovered index definitions, table schemas, and the state
//! of a three-view browser over them.
//!
//! - `model`: the summaries and the view type
//! - `sort`: the stable largest-first ordering of summaries
//! - `text`: character-sequence searching and trimming
//! - `index_sql`: what an index's defining statement says about it
//! - `introspect`: summaries from what the storage engine reported
//! - `nav`: the navigation state machine
//! - `format`: numbers, byte sizes and table definitions as text

use vstd::prelude::*;

pub mod model;
pub mod sort;
pub mod text;
pub mod index_sql;
pub mod introspect;
pub mod nav;
pub mod format;

verus! {

/// Number of presentation header rows that precede the data rows of every list.
pub const HEADER_ROWS: usize = 2;

} // verus!
