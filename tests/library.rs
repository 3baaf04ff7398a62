use sqdu::format::{format_bytes, format_number, format_sql};
use sqdu::index_sql::parse_index_sql;
use sqdu::introspect::{
    column_info, quote_identifier, summarize_index, summarize_indexes, summarize_table, summarize_tables,
    table_details, ColumnRecord, IndexRecord, TableStats,
};
use sqdu::model::{IndexInfo, TableDetails, TableInfo, ViewMode};
use sqdu::nav::App;
use sqdu::sort::sort_by_size_desc;

fn stats(name: &str, size: Option<u64>) -> TableStats {
    TableStats {
        name: name.to_string(),
        row_count: Some(1),
        size_bytes: size,
        index_count: Some(0),
        index_size_bytes: Some(0),
    }
}

fn table(name: &str, size: u64) -> TableInfo {
    TableInfo {
        name: name.to_string(),
        size_bytes: size,
        row_count: 0,
        index_count: 0,
        index_size_bytes: 0,
    }
}

fn index(name: &str, size: u64) -> IndexInfo {
    IndexInfo {
        name: name.to_string(),
        size_bytes: size,
        is_unique: false,
        columns: String::new(),
        partial_clause: None,
    }
}

fn detail() -> TableDetails {
    table_details(Some("CREATE TABLE t (a)".to_string()), vec![], vec![], vec![])
}

fn app_with(names_sizes: &[(&str, u64)]) -> App {
    let tables = names_sizes.iter().map(|(n, s)| table(n, *s)).collect();
    App::new("db.sqlite".to_string(), tables)
}

#[test]
fn parser_reads_unique_partial_index() {
    let d = parse_index_sql(Some("CREATE UNIQUE INDEX ix ON t (a, b) WHERE a IS NOT NULL"));
    assert!(d.is_unique);
    assert_eq!(d.columns, "a, b");
    assert_eq!(d.partial_clause, Some("a IS NOT NULL".to_string()));
}

#[test]
fn parser_on_absent_statement_gives_sentinel() {
    let d = parse_index_sql(None);
    assert!(!d.is_unique);
    assert_eq!(d.columns, "(auto)");
    assert_eq!(d.partial_clause, None);
}

#[test]
fn parser_ignores_ascii_case() {
    let d = parse_index_sql(Some("create unique index ix on t(x)  where  y > 1  "));
    assert!(d.is_unique);
    assert_eq!(d.columns, "x");
    assert_eq!(d.partial_clause, Some("y > 1".to_string()));
}

#[test]
fn parser_plain_index() {
    let d = parse_index_sql(Some("CREATE INDEX ix ON t (lower(a), b)"));
    assert!(!d.is_unique);
    assert_eq!(d.columns, "lower(a), b");
    assert_eq!(d.partial_clause, None);
}

#[test]
fn parser_without_parenthesis_gives_empty_columns() {
    let d = parse_index_sql(Some("CREATE INDEX ix ON t"));
    assert_eq!(d.columns, "");
    assert_eq!(d.partial_clause, None);
}

#[test]
fn parser_nested_parens_before_where_take_last_close() {
    let d = parse_index_sql(Some("CREATE INDEX ix ON t (a) WHERE (b > 0)"));
    assert_eq!(d.columns, "a");
    assert_eq!(d.partial_clause, Some("(b > 0)".to_string()));
}

#[test]
fn parser_where_before_parenthesis_gives_empty_columns() {
    let d = parse_index_sql(Some("CREATE INDEX \"a WHERE b\" ON t (c)"));
    assert_eq!(d.columns, "");
    assert_eq!(d.partial_clause, Some("b\" ON t (c)".to_string()));
}

#[test]
fn parser_keeps_unicode_text() {
    let d = parse_index_sql(Some("CREATE INDEX ï ON tâble (çol, ünï) WHERE çol <> 'é'"));
    assert_eq!(d.columns, "çol, ünï");
    assert_eq!(d.partial_clause, Some("çol <> 'é'".to_string()));
}

#[test]
fn failed_probes_count_as_zero() {
    let t = summarize_table(TableStats {
        name: "t".to_string(),
        row_count: None,
        size_bytes: None,
        index_count: Some(3),
        index_size_bytes: None,
    });
    assert_eq!(t.name, "t");
    assert_eq!(t.row_count, 0);
    assert_eq!(t.size_bytes, 0);
    assert_eq!(t.index_count, 3);
    assert_eq!(t.index_size_bytes, 0);
}

#[test]
fn tables_sorted_by_size_desc_stable() {
    let r = summarize_tables(vec![
        stats("a", Some(10)),
        stats("b", Some(30)),
        stats("c", Some(10)),
        stats("d", None),
        stats("e", Some(30)),
        stats("f", Some(20)),
    ]);
    let names: Vec<&str> = r.iter().map(|t| t.name.as_str()).collect();
    assert_eq!(names, vec!["b", "e", "f", "a", "c", "d"]);
    let sizes: Vec<u64> = r.iter().map(|t| t.size_bytes).collect();
    assert_eq!(sizes, vec![30, 30, 20, 10, 10, 0]);
}

#[test]
fn empty_catalog_gives_empty_summary() {
    assert!(summarize_tables(vec![]).is_empty());
}

#[test]
fn unknown_table_has_no_indexes() {
    assert!(summarize_indexes(vec![]).is_empty());
}

#[test]
fn indexes_sorted_by_size_desc_stable() {
    let rec = |n: &str, s: Option<u64>| IndexRecord {
        name: n.to_string(),
        sql: Some(format!("CREATE INDEX {} ON t (c)", n)),
        size_bytes: s,
    };
    let r = summarize_indexes(vec![
        rec("i1", Some(4096)),
        rec("i2", Some(8192)),
        rec("i3", None),
        rec("i4", Some(4096)),
    ]);
    let names: Vec<&str> = r.iter().map(|i| i.name.as_str()).collect();
    assert_eq!(names, vec!["i2", "i1", "i4", "i3"]);
    assert_eq!(r[3].size_bytes, 0);
    assert_eq!(r[0].columns, "c");
}

#[test]
fn index_summary_uses_parser() {
    let i = summarize_index(IndexRecord {
        name: "ux".to_string(),
        sql: Some("CREATE UNIQUE INDEX ux ON t(a) WHERE a > 0".to_string()),
        size_bytes: Some(1024),
    });
    assert_eq!(i.name, "ux");
    assert_eq!(i.size_bytes, 1024);
    assert!(i.is_unique);
    assert_eq!(i.columns, "a");
    assert_eq!(i.partial_clause, Some("a > 0".to_string()));
    let auto = summarize_index(IndexRecord {
        name: "auto".to_string(),
        sql: None,
        size_bytes: Some(7),
    });
    assert!(!auto.is_unique);
    assert_eq!(auto.columns, "(auto)");
}

#[test]
fn unknown_table_detail_is_placeholder() {
    let d = table_details(None, vec![], vec![], vec![]);
    assert_eq!(d.ddl, "-- DDL not available");
    assert!(d.columns.is_empty());
    assert!(d.foreign_keys.is_empty());
    assert!(d.triggers.is_empty());
}

#[test]
fn detail_keeps_ddl_and_order() {
    let col = |n: &str, nn: i32, pk: i32| {
        column_info(ColumnRecord {
            name: n.to_string(),
            col_type: "INTEGER".to_string(),
            not_null: nn,
            default_value: None,
            pk,
        })
    };
    let d = table_details(
        Some("CREATE TABLE t (b, a)".to_string()),
        vec![col("b", 1, 0), col("a", 0, 2)],
        vec![],
        vec!["trg".to_string()],
    );
    assert_eq!(d.ddl, "CREATE TABLE t (b, a)");
    assert_eq!(d.columns[0].name, "b");
    assert!(d.columns[0].not_null && !d.columns[0].is_pk);
    assert_eq!(d.columns[1].name, "a");
    assert!(!d.columns[1].not_null && d.columns[1].is_pk);
    assert_eq!(d.triggers, vec!["trg".to_string()]);
}

#[test]
fn sort_keeps_equal_sizes_in_order() {
    let r = sort_by_size_desc(vec![index("x", 1), index("y", 1), index("z", 2)]);
    let names: Vec<&str> = r.iter().map(|i| i.name.as_str()).collect();
    assert_eq!(names, vec!["z", "x", "y"]);
}

#[test]
fn new_app_selects_first_table() {
    let app = app_with(&[("a", 100), ("b", 50)]);
    assert_eq!(app.selected, Some(0));
    assert_eq!(app.total_size, 150);
    assert_eq!(app.scroll_offset, 0);
    assert!(matches!(app.view_mode, ViewMode::Tables));
    let empty = app_with(&[]);
    assert_eq!(empty.selected, None);
    assert_eq!(empty.total_size, 0);
}

#[test]
fn next_full_cycle_returns_to_first() {
    let mut app = app_with(&[("a", 3), ("b", 2), ("c", 1)]);
    for _ in 0..3 {
        app.next();
    }
    assert_eq!(app.selected, Some(0));
    app.next();
    assert_eq!(app.selected, Some(1));
}

#[test]
fn previous_from_first_lands_on_last() {
    let mut app = app_with(&[("a", 3), ("b", 2), ("c", 1)]);
    app.previous();
    assert_eq!(app.selected, Some(2));
    app.previous();
    assert_eq!(app.selected, Some(1));
}

#[test]
fn movement_in_empty_list_is_noop() {
    let mut app = app_with(&[]);
    app.next();
    assert_eq!(app.selected, None);
    app.previous();
    assert_eq!(app.selected, None);
}

#[test]
fn drill_into_indexes() {
    let mut app = app_with(&[("a", 3), ("b", 2)]);
    app.next();
    assert_eq!(app.index_target(), Some("b".to_string()));
    app.show_indexes(Some(vec![index("ix", 10)]));
    assert!(matches!(&app.view_mode, ViewMode::Indexes(t) if t == "b"));
    assert_eq!(app.selected, Some(0));
    assert_eq!(app.index_target(), None);
    assert_eq!(app.detail_target(), Some("b".to_string()));
    app.next();
    assert_eq!(app.selected, Some(0));
}

#[test]
fn drill_into_table_without_indexes_selects_none() {
    let mut app = app_with(&[("a", 3)]);
    app.show_indexes(Some(vec![]));
    assert!(matches!(&app.view_mode, ViewMode::Indexes(t) if t == "a"));
    assert_eq!(app.selected, None);
    app.next();
    assert_eq!(app.selected, None);
}

#[test]
fn failed_fetch_leaves_state_unchanged() {
    let mut app = app_with(&[("a", 3), ("b", 2)]);
    app.next();
    app.show_indexes(None);
    assert!(matches!(app.view_mode, ViewMode::Tables));
    assert_eq!(app.selected, Some(1));
    app.show_detail(None);
    assert!(matches!(app.view_mode, ViewMode::Tables));
    assert_eq!(app.selected, Some(1));
    assert!(app.table_details.is_none());
}

#[test]
fn detail_view_resets_scroll_and_ignores_movement() {
    let mut app = app_with(&[("a", 3), ("b", 2)]);
    app.show_detail(Some(detail()));
    assert!(matches!(&app.view_mode, ViewMode::TableInfo(t) if t == "a"));
    assert_eq!(app.selected, None);
    assert_eq!(app.scroll_offset, 0);
    app.scroll_down();
    app.scroll_down();
    app.next();
    assert_eq!(app.selected, None);
    assert_eq!(app.scroll_offset, 2);
    app.show_detail(Some(detail()));
    assert_eq!(app.scroll_offset, 2);
    app.back();
    assert!(matches!(app.view_mode, ViewMode::Tables));
    assert_eq!(app.selected, Some(0));
    app.show_detail(Some(detail()));
    assert_eq!(app.scroll_offset, 0);
}

#[test]
fn scroll_saturates_at_both_ends() {
    let mut app = app_with(&[("a", 1)]);
    app.scroll_up();
    assert_eq!(app.scroll_offset, 0);
    app.scroll_offset = u16::MAX;
    app.scroll_down();
    assert_eq!(app.scroll_offset, u16::MAX);
    app.reset_scroll();
    assert_eq!(app.scroll_offset, 0);
}

#[test]
fn back_from_tables_is_noop() {
    let mut app = app_with(&[("a", 1), ("b", 1)]);
    app.next();
    app.back();
    assert_eq!(app.selected, Some(1));
    assert!(matches!(app.view_mode, ViewMode::Tables));
}

#[test]
fn detail_from_index_view_uses_its_table() {
    let mut app = app_with(&[("a", 3), ("b", 2)]);
    app.show_indexes(Some(vec![index("i", 1), index("j", 2)]));
    app.next();
    app.show_detail(Some(detail()));
    assert!(matches!(&app.view_mode, ViewMode::TableInfo(t) if t == "a"));
    app.back();
    assert_eq!(app.selected, Some(0));
}

#[test]
fn number_grouping() {
    assert_eq!(format_number(0), "0");
    assert_eq!(format_number(999), "999");
    assert_eq!(format_number(1000), "1,000");
    assert_eq!(format_number(1234567), "1,234,567");
    assert_eq!(format_number(u64::MAX), "18,446,744,073,709,551,615");
}

fn bytes_as_float(bytes: u64) -> String {
    let units = ["B", "KiB", "MiB", "GiB", "TiB"];
    let mut size = bytes as f64;
    let mut unit_index = 0;
    while size >= 1024.0 && unit_index < units.len() - 1 {
        size /= 1024.0;
        unit_index += 1;
    }
    if unit_index == 0 {
        format!("{} {}", bytes, units[0])
    } else {
        format!("{:.1} {}", size, units[unit_index])
    }
}

#[test]
fn byte_sizes() {
    assert_eq!(format_bytes(0), "0 B");
    assert_eq!(format_bytes(1023), "1023 B");
    assert_eq!(format_bytes(1024), "1.0 KiB");
    assert_eq!(format_bytes(1536), "1.5 KiB");
    assert_eq!(format_bytes(1048575), "1024.0 KiB");
    assert_eq!(format_bytes(1048576), "1.0 MiB");
    assert_eq!(format_bytes(5 * 1024 * 1024 * 1024), "5.0 GiB");
    assert_eq!(format_bytes(u64::MAX), "16777216.0 TiB");
}

#[test]
fn byte_sizes_match_float_rounding() {
    let mut samples: Vec<u64> = vec![
        1075, 1126, 1177, 1228, 2099, 10291, 52377, 1024 * 1024 * 1024 * 1024 * 3 / 2,
        (1u64 << 53) + 1, (1u64 << 53) + 3, (1u64 << 60) + 12345, u64::MAX - 1,
    ];
    let mut x: u64 = 7;
    for _ in 0..4000 {
        x = x.wrapping_mul(6364136223846793005).wrapping_add(1442695040888963407);
        samples.push(x >> (x % 60));
    }
    for b in 0..5000u64 {
        samples.push(b * 103);
    }
    for b in samples {
        assert_eq!(format_bytes(b), bytes_as_float(b), "bytes = {}", b);
    }
}

#[test]
fn ddl_gets_spaces_back() {
    assert_eq!(
        format_sql("CREATE TABLE [Orders]([OrderId]INTEGER, [Price]REAL, [Note]TEXT)"),
        "CREATE TABLE [Orders] ([OrderId] INTEGER, [Price] REAL, [Note] TEXT)"
    );
    assert_eq!(format_sql("a)(b ]BLOB ]NUMERIC"), "a) (b ] BLOB ] NUMERIC");
    assert_eq!(format_sql("CREATE TABLE t (a)"), "CREATE TABLE t (a)");
}

#[test]
fn identifiers_are_quoted() {
    assert_eq!(quote_identifier("Order Details"), "\"Order Details\"");
    assert_eq!(quote_identifier("a\"b"), "\"a\"\"b\"");
    assert_eq!(quote_identifier(""), "\"\"");
}

#[test]
fn up_and_down_scroll_in_detail_view() {
    let mut app = app_with(&[("a", 3), ("b", 2)]);
    app.move_down();
    assert_eq!(app.selected, Some(1));
    app.move_up();
    assert_eq!(app.selected, Some(0));
    app.show_detail(Some(detail()));
    app.move_down();
    app.move_down();
    app.move_up();
    assert_eq!(app.scroll_offset, 1);
    assert_eq!(app.selected, None);
}
