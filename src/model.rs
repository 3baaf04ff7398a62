use vstd::prelude::*;

verus! {

/// Storage summary of one user table.
#[derive(Debug, Clone)]
pub struct TableInfo {
    pub name: String,
    pub size_bytes: u64,
    pub row_count: u64,
    pub index_count: u64,
    pub index_size_bytes: u64,
}

/// Storage summary and recovered definition of one index.
#[derive(Debug, Clone)]
pub struct IndexInfo {
    pub name: String,
    pub size_bytes: u64,
    pub is_unique: bool,
    pub columns: String,
    pub partial_clause: Option<String>,
}

/// One column of a table, in declaration order.
#[derive(Debug, Clone)]
pub struct ColumnInfo {
    pub name: String,
    pub col_type: String,
    pub not_null: bool,
    pub default_value: Option<String>,
    pub is_pk: bool,
}

/// One foreign-key reference of a table.
#[derive(Debug, Clone)]
pub struct ForeignKeyInfo {
    pub from_col: String,
    pub to_table: String,
    pub to_col: String,
    pub on_update: String,
    pub on_delete: String,
}

/// The schema of one table: its DDL, columns, foreign keys and triggers.
#[derive(Debug, Clone)]
pub struct TableDetails {
    pub ddl: String,
    pub columns: Vec<ColumnInfo>,
    pub foreign_keys: Vec<ForeignKeyInfo>,
    pub triggers: Vec<String>,
}

/// The view currently shown; the two drill-down views carry their table's name.
#[derive(Debug, Clone)]
pub enum ViewMode {
    Tables,
    Indexes(String),
    TableInfo(String),
}

/// Entries that are ordered by their size in bytes.
pub trait SizeKeyed {
    spec fn key(&self) -> u64;

    fn size_key(&self) -> (r: u64)
        ensures
            r == self.key(),
    ;
}

impl SizeKeyed for TableInfo {
    open spec fn key(&self) -> u64 {
        self.size_bytes
    }

    fn size_key(&self) -> (r: u64) {
        self.size_bytes
    }
}

impl SizeKeyed for IndexInfo {
    open spec fn key(&self) -> u64 {
        self.size_bytes
    }

    fn size_key(&self) -> (r: u64) {
        self.size_bytes
    }
}

} // verus!
