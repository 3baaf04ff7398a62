use vstd::prelude::*;
use crate::text::{
    chars_of, string_of, find_ignore_case, find_char, rfind_char_in, sub_chars, trimmed_range,
    find_from, first_char_from, last_char_in, trim, lemma_find_from_bounds,
    lemma_first_char_bounds, lemma_last_char_bounds,
};

verus! {

/// What the defining statement of an index reveals about it.
#[derive(Debug, Clone)]
pub struct IndexDefinition {
    pub is_unique: bool,
    pub columns: String,
    pub partial_clause: Option<String>,
}

/// The characters of an optional string.
pub open spec fn opt_chars(o: Option<String>) -> Option<Seq<char>> {
    match o {
        Some(t) => Some(t@),
        None => None,
    }
}

/// Column list recorded for an index that has no defining statement.
pub open spec fn auto_columns() -> Seq<char> {
    "(auto)"@
}

/// Position of the first ` WHERE ` (any ASCII case) in a statement.
pub open spec fn where_at(s: Seq<char>) -> Option<int> {
    find_from(s, " WHERE "@, 0)
}

/// A statement declares a unique index when `UNIQUE` (any ASCII case) occurs in it.
pub open spec fn declares_unique(s: Seq<char>) -> bool {
    find_from(s, "UNIQUE"@, 0) is Some
}

/// The text between the first `(` and the last `)` that stands before ` WHERE `
/// (or before the end, without one); empty when either is missing.
pub open spec fn column_list(s: Seq<char>) -> Seq<char> {
    match first_char_from(s, '(', 0) {
        None => Seq::empty(),
        Some(open) => {
            let end = match where_at(s) {
                Some(w) => w,
                None => s.len() as int,
            };
            match last_char_in(s, ')', open, end) {
                Some(close) => s.subrange(open + 1, close),
                None => Seq::empty(),
            }
        },
    }
}

/// The trimmed text after the first ` WHERE `, if there is one.
pub open spec fn partial_clause(s: Seq<char>) -> Option<Seq<char>> {
    match where_at(s) {
        Some(w) => Some(trim(s.subrange(w + " WHERE "@.len(), s.len() as int))),
        None => None,
    }
}

/// Recovers uniqueness, the column list and the partial-index predicate from
/// the defining statement of an index; `None` stands for an index that the
/// engine made itself and that has no statement.
pub fn parse_index_sql(sql: Option<&str>) -> (r: IndexDefinition)
    ensures
        sql is None ==> !r.is_unique && r.columns@ == auto_columns() && r.partial_clause is None,
        sql matches Some(s) ==> {
            &&& r.is_unique == declares_unique(s@)
            &&& r.columns@ == column_list(s@)
            &&& opt_chars(r.partial_clause) == partial_clause(s@)
        },
{
    match sql {
        None => IndexDefinition {
            is_unique: false,
            columns: String::from_str("(auto)"),
            partial_clause: None,
        },
        Some(text) => {
            let s = chars_of(text);
            let unique_kw = chars_of("UNIQUE");
            let where_kw = chars_of(" WHERE ");
            let is_unique = find_ignore_case(&s, &unique_kw).is_some();
            let where_pos = find_ignore_case(&s, &where_kw);
            proof {
                lemma_find_from_bounds(s@, where_kw@, 0);
            }
            let end = match where_pos {
                Some(w) => w,
                None => s.len(),
            };
            let columns = match find_char(&s, '(', 0) {
                None => Vec::new(),
                Some(open) => {
                    proof {
                        lemma_first_char_bounds(s@, '(', 0);
                    }
                    match rfind_char_in(&s, ')', open, end) {
                        Some(close) => {
                            proof {
                                lemma_last_char_bounds(s@, ')', open as int, end as int);
                                assert(close != open);
                            }
                            sub_chars(&s, open + 1, close)
                        },
                        None => Vec::new(),
                    }
                },
            };
            let partial_clause = match where_pos {
                Some(w) => Some(string_of(&trimmed_range(&s, w + where_kw.len(), s.len()))),
                None => None,
            };
            let r = IndexDefinition { is_unique, columns: string_of(&columns), partial_clause };
            assert(columns@ == column_list(s@));
            r
        },
    }
}

} // verus!
