use vstd::prelude::*;
use crate::model::{TableInfo, IndexInfo, TableDetails, ViewMode};

verus! {

/// Sum of the sizes of a sequence of tables.
pub open spec fn sum_sizes(s: Seq<TableInfo>) -> nat
    decreases s.len(),
{
    if s.len() == 0 {
        0
    } else {
        sum_sizes(s.drop_last()) + s.last().size_bytes as nat
    }
}

/// A selection fits a list of `n` entries: an entry of it, or none when it is empty.
pub open spec fn valid_selection(sel: Option<usize>, n: nat) -> bool {
    match sel {
        Some(i) => i < n,
        None => n == 0,
    }
}

/// The selection after "next" in a non-empty list of `n` entries: wraps past the last.
pub open spec fn next_selection(sel: Option<usize>, n: nat) -> Option<usize> {
    match sel {
        Some(i) => if i + 1 >= n {
            Some(0)
        } else {
            Some((i + 1) as usize)
        },
        None => Some(0),
    }
}

/// The selection after "previous" in a non-empty list of `n` entries: wraps before the first.
pub open spec fn previous_selection(sel: Option<usize>, n: nat) -> Option<usize> {
    match sel {
        Some(i) => if i == 0 || i > n {
            Some((n - 1) as usize)
        } else {
            Some((i - 1) as usize)
        },
        None => Some(0),
    }
}

/// The selection after `k` moves "next" in a list of `n` entries.
pub open spec fn next_times(sel: Option<usize>, n: nat, k: nat) -> Option<usize>
    decreases k,
{
    if k == 0 {
        sel
    } else {
        next_selection(next_times(sel, n, (k - 1) as nat), n)
    }
}

/// The navigation state: the view shown, the data it shows, the selected entry
/// of its list (an index into that list, header rows not counted) and the
/// scroll position of the detail view.
pub struct App {
    pub tables: Vec<TableInfo>,
    pub indexes: Vec<IndexInfo>,
    pub table_details: Option<TableDetails>,
    pub selected: Option<usize>,
    pub scroll_offset: u16,
    pub db_path: String,
    pub total_size: u64,
    pub view_mode: ViewMode,
}

impl App {
    /// Length of the list that the current view lets the user move through.
    pub open spec fn list_len(&self) -> nat {
        match self.view_mode {
            ViewMode::Tables => self.tables@.len(),
            ViewMode::Indexes(_) => self.indexes@.len(),
            ViewMode::TableInfo(_) => 0,
        }
    }

    /// The selection belongs to the current list, and the detail view has its data.
    pub open spec fn wf(&self) -> bool {
        match self.view_mode {
            ViewMode::Tables => valid_selection(self.selected, self.tables@.len()),
            ViewMode::Indexes(_) => valid_selection(self.selected, self.indexes@.len()),
            ViewMode::TableInfo(_) => self.selected is None && self.table_details is Some,
        }
    }

    /// The table that the selection points at, read as an index into `tables`.
    pub open spec fn selected_table(&self) -> Option<TableInfo> {
        match self.selected {
            Some(i) => if i < self.tables@.len() {
                Some(self.tables@[i as int])
            } else {
                None
            },
            None => None,
        }
    }

    /// The table whose indexes a drill-down would fetch.
    pub open spec fn index_target_of(&self) -> Option<String> {
        match self.view_mode {
            ViewMode::Tables => match self.selected_table() {
                Some(t) => Some(t.name),
                None => None,
            },
            ViewMode::Indexes(_) => None,
            ViewMode::TableInfo(_) => None,
        }
    }

    /// The table whose detail a "show detail" would fetch.
    pub open spec fn detail_target_of(&self) -> Option<String> {
        match self.view_mode {
            ViewMode::Tables => match self.selected_table() {
                Some(t) => Some(t.name),
                None => None,
            },
            ViewMode::Indexes(t) => Some(t),
            ViewMode::TableInfo(_) => None,
        }
    }

    /// Starts in the tables view with the first table selected.
    pub fn new(db_path: String, tables: Vec<TableInfo>) -> (r: App)
        requires
            sum_sizes(tables@) <= u64::MAX,
        ensures
            r.wf(),
            r.tables == tables,
            r.indexes@.len() == 0,
            r.table_details is None,
            r.selected == (if tables@.len() == 0 {
                None::<usize>
            } else {
                Some(0usize)
            }),
            r.scroll_offset == 0,
            r.db_path == db_path,
            r.total_size == sum_sizes(tables@),
            r.view_mode == ViewMode::Tables,
    {
        let mut total: u64 = 0;
        let mut i: usize = 0;
        while i < tables.len()
            invariant
                i <= tables@.len(),
                sum_sizes(tables@) <= u64::MAX,
                total == sum_sizes(tables@.take(i as int)),
            decreases tables@.len() - i,
        {
            proof {
                assert(tables@.take(i as int + 1).drop_last() =~= tables@.take(i as int));
                lemma_sum_sizes_prefix(tables@, i as int + 1);
            }
            total = total + tables[i].size_bytes;
            i = i + 1;
        }
        assert(tables@.take(tables@.len() as int) =~= tables@);
        let selected = if tables.len() == 0 {
            None
        } else {
            Some(0)
        };
        App {
            tables,
            indexes: Vec::new(),
            table_details: None,
            selected,
            scroll_offset: 0,
            db_path,
            total_size: total,
            view_mode: ViewMode::Tables,
        }
    }

    fn current_len(&self) -> (r: usize)
        ensures
            r == self.list_len(),
    {
        match &self.view_mode {
            ViewMode::Tables => self.tables.len(),
            ViewMode::Indexes(_) => self.indexes.len(),
            ViewMode::TableInfo(_) => 0,
        }
    }

    /// Moves the selection to the next entry, from the last back to the first;
    /// does nothing when the current view has no entries to move through.
    pub fn next(&mut self)
        requires
            old(self).wf(),
        ensures
            final(self).wf(),
            old(self).list_len() == 0 ==> *final(self) == *old(self),
            old(self).list_len() > 0 ==> *final(self) == (App {
                selected: next_selection(old(self).selected, old(self).list_len()),
                ..*old(self)
            }),
    {
        let len = self.current_len();
        if len == 0 {
            return;
        }
        let i = match self.selected {
            Some(i) => if i >= len - 1 {
                0
            } else {
                i + 1
            },
            None => 0,
        };
        self.selected = Some(i);
    }

    /// Moves the selection to the previous entry, from the first round to the
    /// last; does nothing when the current view has no entries to move through.
    pub fn previous(&mut self)
        requires
            old(self).wf(),
        ensures
            final(self).wf(),
            old(self).list_len() == 0 ==> *final(self) == *old(self),
            old(self).list_len() > 0 ==> *final(self) == (App {
                selected: previous_selection(old(self).selected, old(self).list_len()),
                ..*old(self)
            }),
    {
        let len = self.current_len();
        if len == 0 {
            return;
        }
        let i = match self.selected {
            Some(i) => if i == 0 || i > len {
                len - 1
            } else {
                i - 1
            },
            None => 0,
        };
        self.selected = Some(i);
    }

    /// Scrolls the detail text one line down, stopping at the largest offset.
    pub fn scroll_down(&mut self)
        ensures
            *final(self) == (App {
                scroll_offset: if old(self).scroll_offset == u16::MAX {
                    u16::MAX
                } else {
                    (old(self).scroll_offset + 1) as u16
                },
                ..*old(self)
            }),
    {
        self.scroll_offset = self.scroll_offset.saturating_add(1);
    }

    /// Scrolls the detail text one line up, stopping at zero.
    pub fn scroll_up(&mut self)
        ensures
            *final(self) == (App {
                scroll_offset: if old(self).scroll_offset == 0 {
                    0
                } else {
                    (old(self).scroll_offset - 1) as u16
                },
                ..*old(self)
            }),
    {
        self.scroll_offset = self.scroll_offset.saturating_sub(1);
    }

    /// Puts the detail text back at its first line.
    pub fn reset_scroll(&mut self)
        ensures
            *final(self) == (App { scroll_offset: 0, ..*old(self) }),
    {
        self.scroll_offset = 0;
    }

    /// The "down" input: scrolls the detail view, moves the selection elsewhere.
    pub fn move_down(&mut self)
        requires
            old(self).wf(),
        ensures
            final(self).wf(),
            old(self).view_mode is TableInfo ==> *final(self) == (App {
                scroll_offset: if old(self).scroll_offset == u16::MAX {
                    u16::MAX
                } else {
                    (old(self).scroll_offset + 1) as u16
                },
                ..*old(self)
            }),
            !(old(self).view_mode is TableInfo) && old(self).list_len() == 0 ==> *final(self)
                == *old(self),
            !(old(self).view_mode is TableInfo) && old(self).list_len() > 0 ==> *final(self) == (
            App { selected: next_selection(old(self).selected, old(self).list_len()), ..*old(self) }),
    {
        match &self.view_mode {
            ViewMode::TableInfo(_) => self.scroll_down(),
            ViewMode::Tables | ViewMode::Indexes(_) => self.next(),
        }
    }

    /// The "up" input: scrolls the detail view, moves the selection elsewhere.
    pub fn move_up(&mut self)
        requires
            old(self).wf(),
        ensures
            final(self).wf(),
            old(self).view_mode is TableInfo ==> *final(self) == (App {
                scroll_offset: if old(self).scroll_offset == 0 {
                    0
                } else {
                    (old(self).scroll_offset - 1) as u16
                },
                ..*old(self)
            }),
            !(old(self).view_mode is TableInfo) && old(self).list_len() == 0 ==> *final(self)
                == *old(self),
            !(old(self).view_mode is TableInfo) && old(self).list_len() > 0 ==> *final(self) == (
            App {
                selected: previous_selection(old(self).selected, old(self).list_len()),
                ..*old(self)
            }),
    {
        match &self.view_mode {
            ViewMode::TableInfo(_) => self.scroll_up(),
            ViewMode::Tables | ViewMode::Indexes(_) => self.previous(),
        }
    }

    fn selected_table_name(&self) -> (r: Option<String>)
        ensures
            r == (match self.selected_table() {
                Some(t) => Some(t.name),
                None => None::<String>,
            }),
    {
        match self.selected {
            Some(i) => if i < self.tables.len() {
                Some(self.tables[i].name.clone())
            } else {
                None
            },
            None => None,
        }
    }

    /// The table whose indexes a drill-down from here would fetch, if any.
    pub fn index_target(&self) -> (r: Option<String>)
        ensures
            r == self.index_target_of(),
    {
        match &self.view_mode {
            ViewMode::Tables => self.selected_table_name(),
            ViewMode::Indexes(_) => None,
            ViewMode::TableInfo(_) => None,
        }
    }

    /// The table whose detail "show detail" from here would fetch, if any.
    pub fn detail_target(&self) -> (r: Option<String>)
        ensures
            r == self.detail_target_of(),
    {
        match &self.view_mode {
            ViewMode::Tables => self.selected_table_name(),
            ViewMode::Indexes(t) => Some(t.clone()),
            ViewMode::TableInfo(_) => None,
        }
    }

    /// Drills into the indexes of the selected table, given what fetching them
    /// gave (`None`: the fetch failed, and nothing changes).
    pub fn show_indexes(&mut self, fetched: Option<Vec<IndexInfo>>)
        requires
            old(self).wf(),
        ensures
            final(self).wf(),
            (fetched is None || old(self).index_target_of() is None) ==> *final(self) == *old(
                self,
            ),
            (fetched is Some && old(self).index_target_of() is Some) ==> *final(self) == (App {
                indexes: fetched->0,
                view_mode: ViewMode::Indexes(old(self).index_target_of()->0),
                selected: if fetched->0@.len() == 0 {
                    None::<usize>
                } else {
                    Some(0usize)
                },
                ..*old(self)
            }),
    {
        let target = self.index_target();
        match (target, fetched) {
            (Some(name), Some(ix)) => {
                let selected = if ix.len() == 0 {
                    None
                } else {
                    Some(0)
                };
                self.indexes = ix;
                self.view_mode = ViewMode::Indexes(name);
                self.selected = selected;
            },
            _ => {},
        }
    }

    /// Shows the detail of the selected table (from the tables view) or of the
    /// table whose indexes are shown, given what fetching it gave (`None`: the
    /// fetch failed, and nothing changes). The detail view opens at its top.
    pub fn show_detail(&mut self, fetched: Option<TableDetails>)
        requires
            old(self).wf(),
        ensures
            final(self).wf(),
            (fetched is None || old(self).detail_target_of() is None) ==> *final(self) == *old(
                self,
            ),
            (fetched is Some && old(self).detail_target_of() is Some) ==> *final(self) == (App {
                table_details: fetched,
                view_mode: ViewMode::TableInfo(old(self).detail_target_of()->0),
                selected: None,
                scroll_offset: 0,
                ..*old(self)
            }),
    {
        let target = self.detail_target();
        match (target, fetched) {
            (Some(name), Some(d)) => {
                self.table_details = Some(d);
                self.view_mode = ViewMode::TableInfo(name);
                self.selected = None;
                self.reset_scroll();
            },
            _ => {},
        }
    }

    /// Returns to the tables view with the first table selected; does nothing
    /// in the tables view.
    pub fn back(&mut self)
        requires
            old(self).wf(),
        ensures
            final(self).wf(),
            old(self).view_mode is Tables ==> *final(self) == *old(self),
            !(old(self).view_mode is Tables) ==> *final(self) == (App {
                view_mode: ViewMode::Tables,
                selected: if old(self).tables@.len() == 0 {
                    None::<usize>
                } else {
                    Some(0usize)
                },
                ..*old(self)
            }),
    {
        match &self.view_mode {
            ViewMode::Tables => {},
            ViewMode::Indexes(_) | ViewMode::TableInfo(_) => {
                self.view_mode = ViewMode::Tables;
                self.selected = if self.tables.len() == 0 {
                    None
                } else {
                    Some(0)
                };
            },
        }
    }
}

proof fn lemma_next_times_from_first(n: nat, k: nat)
    requires
        k < n <= usize::MAX,
    ensures
        next_times(Some(0usize), n, k) == Some(k as usize),
    decreases k,
{
    if k > 0 {
        lemma_next_times_from_first(n, (k - 1) as nat);
    }
}

/// In a non-empty list of `n` entries, moving "next" `n` times from the first
/// entry comes back to the first entry, and moving "previous" once from the
/// first entry lands on the last.
pub proof fn lemma_selection_wraps(n: nat)
    requires
        0 < n <= usize::MAX,
    ensures
        next_times(Some(0usize), n, n) == Some(0usize),
        previous_selection(Some(0usize), n) == Some((n - 1) as usize),
{
    lemma_next_times_from_first(n, (n - 1) as nat);
}

proof fn lemma_sum_sizes_prefix(s: Seq<TableInfo>, i: int)
    requires
        0 <= i <= s.len(),
    ensures
        sum_sizes(s.take(i)) <= sum_sizes(s),
    decreases s.len() - i,
{
    if i < s.len() {
        lemma_sum_sizes_prefix(s, i + 1);
        assert(s.take(i + 1).drop_last() =~= s.take(i));
    } else {
        assert(s.take(i) =~= s);
    }
}

} // verus!
