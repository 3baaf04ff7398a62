use vstd::prelude::*;
use crate::model::{TableInfo, IndexInfo, ColumnInfo, ForeignKeyInfo, TableDetails};
use crate::sort::{sort_by_size_desc, is_stable_size_sort};
use crate::text::{chars_of, string_of};
use crate::format::{replace_chars, replace_all};
use crate::index_sql::{
    parse_index_sql, auto_columns, declares_unique, column_list, partial_clause, opt_chars,
};

verus! {

/// What the storage engine reported for one table; `None` marks a probe that failed.
#[derive(Debug, Clone)]
pub struct TableStats {
    pub name: String,
    pub row_count: Option<u64>,
    pub size_bytes: Option<u64>,
    pub index_count: Option<u64>,
    pub index_size_bytes: Option<u64>,
}

/// What the catalog and the statistics view reported for one index: its name,
/// its defining statement (absent for an index the engine made itself) and its
/// page total (`None` when that probe failed).
#[derive(Debug, Clone)]
pub struct IndexRecord {
    pub name: String,
    pub sql: Option<String>,
    pub size_bytes: Option<u64>,
}

/// One row of the engine's column listing, flags still as integers.
#[derive(Debug, Clone)]
pub struct ColumnRecord {
    pub name: String,
    pub col_type: String,
    pub not_null: i32,
    pub default_value: Option<String>,
    pub pk: i32,
}

/// A failed probe counts as zero.
pub open spec fn or_zero(o: Option<u64>) -> u64 {
    match o {
        Some(v) => v,
        None => 0,
    }
}

pub open spec fn table_summary(s: TableStats) -> TableInfo {
    TableInfo {
        name: s.name,
        size_bytes: or_zero(s.size_bytes),
        row_count: or_zero(s.row_count),
        index_count: or_zero(s.index_count),
        index_size_bytes: or_zero(s.index_size_bytes),
    }
}

/// `r` is the summary of the index that `rec` describes.
pub open spec fn summarizes_index(r: IndexInfo, rec: IndexRecord) -> bool {
    &&& r.name == rec.name
    &&& r.size_bytes == or_zero(rec.size_bytes)
    &&& match rec.sql {
        None => !r.is_unique && r.columns@ == auto_columns() && r.partial_clause is None,
        Some(s) => {
            &&& r.is_unique == declares_unique(s@)
            &&& r.columns@ == column_list(s@)
            &&& opt_chars(r.partial_clause) == partial_clause(s@)
        },
    }
}

/// `name` as an SQL identifier: in double quotes, each double quote in it doubled.
pub open spec fn quoted_identifier(name: Seq<char>) -> Seq<char> {
    seq!['"'] + replace_all(name, seq!['"'], seq!['"', '"']) + seq!['"']
}

/// DDL shown for a table without a recorded definition.
pub open spec fn ddl_placeholder() -> Seq<char> {
    "-- DDL not available"@
}

fn value_or_zero(o: Option<u64>) -> (r: u64)
    ensures
        r == or_zero(o),
{
    match o {
        Some(v) => v,
        None => 0,
    }
}

/// Quotes a table name for use where SQL expects an identifier, so that any
/// name, quotes included, stands for itself.
pub fn quote_identifier(name: &str) -> (r: String)
    ensures
        r@ == quoted_identifier(name@),
{
    let s = chars_of(name);
    let mut pat: Vec<char> = Vec::new();
    pat.push('"');
    let mut rep: Vec<char> = Vec::new();
    rep.push('"');
    rep.push('"');
    let body = replace_chars(&s, &pat, &rep);
    let mut out: Vec<char> = Vec::new();
    out.push('"');
    let mut i: usize = 0;
    while i < body.len()
        invariant
            i <= body@.len(),
            out@ == seq!['"'] + body@.take(i as int),
        decreases body@.len() - i,
    {
        out.push(body[i]);
        i = i + 1;
        assert(out@ =~= seq!['"'] + body@.take(i as int));
    }
    out.push('"');
    assert(pat@ =~= seq!['"']);
    assert(rep@ =~= seq!['"', '"']);
    assert(body@.take(body@.len() as int) =~= body@);
    assert(out@ =~= quoted_identifier(name@));
    string_of(&out)
}

/// The summary of one table, with every failed probe counted as zero.
pub fn summarize_table(stats: TableStats) -> (r: TableInfo)
    ensures
        r == table_summary(stats),
{
    TableInfo {
        name: stats.name,
        size_bytes: value_or_zero(stats.size_bytes),
        row_count: value_or_zero(stats.row_count),
        index_count: value_or_zero(stats.index_count),
        index_size_bytes: value_or_zero(stats.index_size_bytes),
    }
}

/// The whole-database summary: one entry per table, largest first, tables of
/// equal size in the order in which the catalog listed them.
pub fn summarize_tables(stats: Vec<TableStats>) -> (r: Vec<TableInfo>)
    ensures
        is_stable_size_sort(r@, stats@.map_values(|s: TableStats| table_summary(s))),
{
    let ghost orig = stats@;
    let n = stats.len();
    let mut rest = stats;
    let mut tables: Vec<TableInfo> = Vec::new();
    let mut i: usize = 0;
    while i < n
        invariant
            n == orig.len(),
            i <= n,
            rest@ == orig.skip(i as int),
            tables@ == orig.take(i as int).map_values(|s: TableStats| table_summary(s)),
        decreases n - i,
    {
        let s = rest.remove(0);
        assert(s == orig[i as int]);
        tables.push(summarize_table(s));
        assert(rest@ =~= orig.skip(i as int + 1));
        assert(tables@ =~= orig.take(i as int + 1).map_values(|s: TableStats| table_summary(s)));
        i = i + 1;
    }
    assert(orig.take(n as int) =~= orig);
    sort_by_size_desc(tables)
}

/// The summary of one index, its definition recovered from its statement.
pub fn summarize_index(rec: IndexRecord) -> (r: IndexInfo)
    ensures
        summarizes_index(r, rec),
{
    let def = match &rec.sql {
        Some(s) => parse_index_sql(Some(s.as_str())),
        None => parse_index_sql(None),
    };
    IndexInfo {
        name: rec.name,
        size_bytes: value_or_zero(rec.size_bytes),
        is_unique: def.is_unique,
        columns: def.columns,
        partial_clause: def.partial_clause,
    }
}

/// The index summary of one table: one entry per record, largest first,
/// indexes of equal size in the order in which the catalog listed them.
pub fn summarize_indexes(recs: Vec<IndexRecord>) -> (r: Vec<IndexInfo>)
    ensures
        exists|m: Seq<IndexInfo>|
            {
                &&& m.len() == recs@.len()
                &&& forall|i: int| 0 <= i < m.len() ==> summarizes_index(#[trigger] m[i], recs@[i])
                &&& is_stable_size_sort(r@, m)
            },
{
    let ghost orig = recs@;
    let n = recs.len();
    let mut rest = recs;
    let mut indexes: Vec<IndexInfo> = Vec::new();
    let mut i: usize = 0;
    while i < n
        invariant
            n == orig.len(),
            i <= n,
            rest@ == orig.skip(i as int),
            indexes@.len() == i,
            forall|j: int| 0 <= j < i ==> summarizes_index(#[trigger] indexes@[j], orig[j]),
        decreases n - i,
    {
        let rec = rest.remove(0);
        assert(rec == orig[i as int]);
        indexes.push(summarize_index(rec));
        assert(rest@ =~= orig.skip(i as int + 1));
        i = i + 1;
    }
    let ghost m = indexes@;
    let r = sort_by_size_desc(indexes);
    assert(m.len() == orig.len() && forall|i: int|
        0 <= i < m.len() ==> summarizes_index(#[trigger] m[i], orig[i]));
    r
}

/// One column's metadata, its flags read as "non-zero means set".
pub fn column_info(rec: ColumnRecord) -> (r: ColumnInfo)
    ensures
        r.name == rec.name,
        r.col_type == rec.col_type,
        r.not_null == (rec.not_null != 0),
        r.default_value == rec.default_value,
        r.is_pk == (rec.pk != 0),
{
    ColumnInfo {
        name: rec.name,
        col_type: rec.col_type,
        not_null: rec.not_null != 0,
        default_value: rec.default_value,
        is_pk: rec.pk != 0,
    }
}

/// The detail of one table; a missing definition is shown as a placeholder,
/// the three listings are kept in the engine's order.
pub fn table_details(
    ddl: Option<String>,
    columns: Vec<ColumnInfo>,
    foreign_keys: Vec<ForeignKeyInfo>,
    triggers: Vec<String>,
) -> (r: TableDetails)
    ensures
        ddl matches Some(d) ==> r.ddl == d,
        ddl is None ==> r.ddl@ == ddl_placeholder(),
        r.columns == columns,
        r.foreign_keys == foreign_keys,
        r.triggers == triggers,
{
    let ddl = match ddl {
        Some(d) => d,
        None => String::from_str("-- DDL not available"),
    };
    TableDetails { ddl, columns, foreign_keys, triggers }
}

} // verus!
