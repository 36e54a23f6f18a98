//! The torrent list: search and status filtering, column sorting that
//! survives refreshes, and multi-row selection.
use vstd::prelude::*;
use vstd::utf8::encode_utf8;
use crate::index_set::IndexSet;
use crate::sort::{ColumnSort, SortKey, lemma_plan_contains, lemma_plan_multiset, lemma_plan_pairs, order_by_plan, ordered_by_plan};
use crate::text::{
    contains_seq, dec, push_decimal, push_str, to_string, lex_le, lemma_lex_total, lemma_lex_trans, lowercase, parse_unsigned,
    parse_unsigned_str, str_contains, str_eq, str_le, str_to_lowercase, str_trim, trimmed,
};

verus! {

/// One torrent as shown in the list. The `*_order` fields are order keys of
/// the displayed progress and speeds (larger sorts later).
#[derive(Clone, Debug)]
pub struct TorrentRow {
    pub id: usize,
    pub name: String,
    pub info_hash: String,
    pub state: String,
    pub progress: String,
    pub peers: String,
    pub down_speed: String,
    pub up_speed: String,
    pub progress_order: u64,
    pub down_order: u64,
    pub up_order: u64,
}

impl TorrentRow {
    /// An identical copy of the row.
    pub fn duplicate(&self) -> (r: Self)
        ensures
            r == *self,
    {
        TorrentRow {
            id: self.id,
            name: self.name.clone(),
            info_hash: self.info_hash.clone(),
            state: self.state.clone(),
            progress: self.progress.clone(),
            peers: self.peers.clone(),
            down_speed: self.down_speed.clone(),
            up_speed: self.up_speed.clone(),
            progress_order: self.progress_order,
            down_order: self.down_order,
            up_order: self.up_order,
        }
    }
}

/// The peer count a row sorts by: its peers text read as a `u32`, or 0.
pub open spec fn peers_value(r: TorrentRow) -> nat {
    match parse_unsigned(encode_utf8(r.peers@), 4294967295) {
        Some(v) => v,
        None => 0,
    }
}

/// What the torrent list can be sorted by.
#[derive(Clone, Copy, Debug, PartialEq, Eq, Structural)]
pub enum TorrentSortKey {
    /// The torrent id (the API's order).
    Id,
    Name,
    State,
    Progress,
    Peers,
    Down,
    Up,
    /// Every row ties.
    Unordered,
}

impl SortKey for TorrentRow {
    type Key = TorrentSortKey;

    open spec fn key_le(self, other: Self, key: TorrentSortKey) -> bool {
        match key {
            TorrentSortKey::Id => self.id <= other.id,
            TorrentSortKey::Name => lex_le(encode_utf8(self.name@), encode_utf8(other.name@)),
            TorrentSortKey::State => lex_le(encode_utf8(self.state@), encode_utf8(other.state@)),
            TorrentSortKey::Progress => self.progress_order <= other.progress_order,
            TorrentSortKey::Peers => peers_value(self) <= peers_value(other),
            TorrentSortKey::Down => self.down_order <= other.down_order,
            TorrentSortKey::Up => self.up_order <= other.up_order,
            TorrentSortKey::Unordered => true,
        }
    }

    fn le_by(&self, other: &Self, key: TorrentSortKey) -> (r: bool) {
        match key {
            TorrentSortKey::Id => self.id <= other.id,
            TorrentSortKey::Name => str_le(self.name.as_str(), other.name.as_str()),
            TorrentSortKey::State => str_le(self.state.as_str(), other.state.as_str()),
            TorrentSortKey::Progress => self.progress_order <= other.progress_order,
            TorrentSortKey::Peers => {
                let a = match parse_unsigned_str(self.peers.as_str(), 4294967295) {
                    Some(v) => v,
                    None => 0,
                };
                let b = match parse_unsigned_str(other.peers.as_str(), 4294967295) {
                    Some(v) => v,
                    None => 0,
                };
                a <= b
            },
            TorrentSortKey::Down => self.down_order <= other.down_order,
            TorrentSortKey::Up => self.up_order <= other.up_order,
            TorrentSortKey::Unordered => true,
        }
    }

    proof fn lemma_key_total(a: Self, b: Self, key: TorrentSortKey) {
        lemma_lex_total(encode_utf8(a.name@), encode_utf8(b.name@));
        lemma_lex_total(encode_utf8(a.state@), encode_utf8(b.state@));
    }

    proof fn lemma_key_trans(a: Self, b: Self, c: Self, key: TorrentSortKey) {
        if key == TorrentSortKey::Name {
            lemma_lex_trans(encode_utf8(a.name@), encode_utf8(b.name@), encode_utf8(c.name@));
        }
        if key == TorrentSortKey::State {
            lemma_lex_trans(encode_utf8(a.state@), encode_utf8(b.state@), encode_utf8(c.state@));
        }
    }
}

/// The columns of the torrent list, left to right.
#[derive(Clone, Copy, Debug, PartialEq, Eq, Structural)]
pub enum TorrentColumn {
    /// The selection checkbox.
    Select,
    Name,
    State,
    Progress,
    Peers,
    Down,
    Up,
}

/// Number of columns of the torrent list.
pub const TORRENT_COLUMN_COUNT: usize = 7;

/// The column at position `ix`.
pub open spec fn torrent_column_spec(ix: nat) -> Option<TorrentColumn> {
    if ix == 0 {
        Some(TorrentColumn::Select)
    } else if ix == 1 {
        Some(TorrentColumn::Name)
    } else if ix == 2 {
        Some(TorrentColumn::State)
    } else if ix == 3 {
        Some(TorrentColumn::Progress)
    } else if ix == 4 {
        Some(TorrentColumn::Peers)
    } else if ix == 5 {
        Some(TorrentColumn::Down)
    } else if ix == 6 {
        Some(TorrentColumn::Up)
    } else {
        None
    }
}

/// The column at position `ix`, if there is one.
pub fn torrent_column(ix: usize) -> (r: Option<TorrentColumn>)
    ensures
        r == torrent_column_spec(ix as nat),
{
    if ix == 0 {
        Some(TorrentColumn::Select)
    } else if ix == 1 {
        Some(TorrentColumn::Name)
    } else if ix == 2 {
        Some(TorrentColumn::State)
    } else if ix == 3 {
        Some(TorrentColumn::Progress)
    } else if ix == 4 {
        Some(TorrentColumn::Peers)
    } else if ix == 5 {
        Some(TorrentColumn::Down)
    } else if ix == 6 {
        Some(TorrentColumn::Up)
    } else {
        None
    }
}

/// The key a column sorts by.
pub open spec fn column_key(col: TorrentColumn) -> TorrentSortKey {
    match col {
        TorrentColumn::Select => TorrentSortKey::Unordered,
        TorrentColumn::Name => TorrentSortKey::Name,
        TorrentColumn::State => TorrentSortKey::State,
        TorrentColumn::Progress => TorrentSortKey::Progress,
        TorrentColumn::Peers => TorrentSortKey::Peers,
        TorrentColumn::Down => TorrentSortKey::Down,
        TorrentColumn::Up => TorrentSortKey::Up,
    }
}

/// How the visible rows are ordered for a sort state. `Default` restores the
/// id order; `None` (no sort, or no such column) leaves the rows as they are.
pub open spec fn torrent_sort_plan(col_ix: Option<usize>, dir: ColumnSort) -> Option<(TorrentSortKey, bool)> {
    match col_ix {
        None => None,
        Some(ix) => match torrent_column_spec(ix as nat) {
            None => None,
            Some(col) => match dir {
                ColumnSort::Default => Some((TorrentSortKey::Id, false)),
                ColumnSort::Ascending => Some((column_key(col), false)),
                ColumnSort::Descending => Some((column_key(col), true)),
            },
        },
    }
}

/// Executable form of `torrent_sort_plan`.
pub fn torrent_sort_plan_of(col_ix: Option<usize>, dir: ColumnSort) -> (r: Option<(TorrentSortKey, bool)>)
    ensures
        r == torrent_sort_plan(col_ix, dir),
{
    let ix = match col_ix {
        None => return None,
        Some(ix) => ix,
    };
    let col = match torrent_column(ix) {
        None => return None,
        Some(c) => c,
    };
    let key = match col {
        TorrentColumn::Select => TorrentSortKey::Unordered,
        TorrentColumn::Name => TorrentSortKey::Name,
        TorrentColumn::State => TorrentSortKey::State,
        TorrentColumn::Progress => TorrentSortKey::Progress,
        TorrentColumn::Peers => TorrentSortKey::Peers,
        TorrentColumn::Down => TorrentSortKey::Down,
        TorrentColumn::Up => TorrentSortKey::Up,
    };
    match dir {
        ColumnSort::Default => Some((TorrentSortKey::Id, false)),
        ColumnSort::Ascending => Some((key, false)),
        ColumnSort::Descending => Some((key, true)),
    }
}

/// The search text as matched: trimmed, then lowercased (a blank search
/// gives the empty needle).
pub open spec fn search_needle(search: Seq<char>) -> Seq<char> {
    if trimmed(search).len() == 0 {
        Seq::empty()
    } else {
        lowercase(trimmed(search))
    }
}

/// Whether a row passes the search (case-insensitive name substring) and the
/// status filter (exact state); an empty needle or status passes everything.
pub open spec fn row_matches(r: TorrentRow, needle: Seq<char>, status: Seq<char>) -> bool {
    &&& (needle.len() == 0 || contains_seq(lowercase(r.name@), needle))
    &&& (status.len() == 0 || r.state@ == status)
}

/// `row_matches` as a predicate.
pub open spec fn matching(needle: Seq<char>, status: Seq<char>) -> spec_fn(TorrentRow) -> bool {
    |r: TorrentRow| row_matches(r, needle, status)
}

/// Table model of the torrent list.
pub struct TorrentTable {
    /// Full, unfiltered set of rows as last fetched.
    pub all_rows: Vec<TorrentRow>,
    /// The visible rows: `all_rows` filtered, then sorted.
    pub rows: Vec<TorrentRow>,
    /// Indices of the selected visible rows.
    pub selected: IndexSet,
    /// The anchor row for shift-click range selection.
    pub anchor_row: Option<usize>,
    /// Currently active sort column index (None = no active sort).
    pub sort_col_ix: Option<usize>,
    /// Currently active sort direction.
    pub sort_dir: ColumnSort,
}

/// `t1` has the rows and sort state of `t0`.
pub open spec fn same_rows(t0: TorrentTable, t1: TorrentTable) -> bool {
    &&& t1.all_rows@ == t0.all_rows@
    &&& t1.rows@ == t0.rows@
    &&& t1.sort_col_ix == t0.sort_col_ix
    &&& t1.sort_dir == t0.sort_dir
}

/// `t1` shows `t0.all_rows` through the filter `search`/`status`, ordered by
/// the active sort, with nothing selected.
pub open spec fn filtered(t0: TorrentTable, t1: TorrentTable, search: Seq<char>, status: Seq<char>) -> bool {
    &&& t1.all_rows@ == t0.all_rows@
    &&& t1.sort_col_ix == t0.sort_col_ix
    &&& t1.sort_dir == t0.sort_dir
    &&& ordered_by_plan(
        t1.rows@,
        t0.all_rows@.filter(matching(search_needle(search), status)),
        torrent_sort_plan(t0.sort_col_ix, t0.sort_dir),
    )
    &&& t1.selected.wf()
    &&& t1.selected@ == Set::<usize>::empty()
    &&& t1.anchor_row == None::<usize>
}

/// The torrent ids of the selected visible rows.
pub open spec fn selected_ids(t: TorrentTable) -> Set<usize> {
    Set::new(
        |id: usize|
            exists|ix: usize| #[trigger]
                t.selected@.contains(ix) && ix < t.rows@.len() && t.rows@[ix as int].id == id,
    )
}

/// `t1` holds the fresh `rows`, filtered and sorted as before, and a visible
/// row is selected exactly when its torrent was selected in `t0`.
pub open spec fn refreshed(
    t0: TorrentTable,
    t1: TorrentTable,
    rows: Seq<TorrentRow>,
    search: Seq<char>,
    status: Seq<char>,
) -> bool {
    &&& t1.all_rows@ == rows
    &&& t1.sort_col_ix == t0.sort_col_ix
    &&& t1.sort_dir == t0.sort_dir
    &&& ordered_by_plan(
        t1.rows@,
        rows.filter(matching(search_needle(search), status)),
        torrent_sort_plan(t0.sort_col_ix, t0.sort_dir),
    )
    &&& t1.selected.wf()
    &&& (forall|ix: usize| #[trigger]
        t1.selected@.contains(ix) <==> ix < t1.rows@.len() && selected_ids(t0).contains(
            t1.rows@[ix as int].id,
        ))
    &&& t1.anchor_row == None::<usize>
}

/// `t1` results from clicking visible row `row_ix` of `t0`: with shift the
/// range from the anchor (or the row itself) to the row, anchor kept; with
/// control the row toggled and made the anchor; else just the row, as anchor.
pub open spec fn clicked(t0: TorrentTable, t1: TorrentTable, row_ix: usize, shift: bool, control: bool) -> bool {
    &&& same_rows(t0, t1)
    &&& t1.selected.wf()
    &&& if shift {
        let start = match t0.anchor_row {
            Some(a) => a,
            None => row_ix,
        };
        let lo = if start <= row_ix { start } else { row_ix };
        let hi = if start <= row_ix { row_ix } else { start };
        &&& t1.selected@ == Set::new(|x: usize| lo <= x <= hi)
        &&& t1.anchor_row == t0.anchor_row
    } else if control {
        &&& t1.selected@ == (if t0.selected@.contains(row_ix) {
            t0.selected@.remove(row_ix)
        } else {
            t0.selected@.insert(row_ix)
        })
        &&& t1.anchor_row == Some(row_ix)
    } else {
        &&& t1.selected@ == Set::<usize>::empty().insert(row_ix)
        &&& t1.anchor_row == Some(row_ix)
    }
}

/// `t1` is `t0` sorted by column `col_ix` in direction `sort`, which it
/// remembers; nothing is selected.
pub open spec fn sorted_by_column(t0: TorrentTable, t1: TorrentTable, col_ix: usize, sort: ColumnSort) -> bool {
    &&& t1.all_rows@ == t0.all_rows@
    &&& t1.sort_col_ix == Some(col_ix)
    &&& t1.sort_dir == sort
    &&& ordered_by_plan(t1.rows@, t0.rows@, torrent_sort_plan(Some(col_ix), sort))
    &&& t1.selected.wf()
    &&& t1.selected@ == Set::<usize>::empty()
    &&& t1.anchor_row == None::<usize>
}

/// The ids of the rows at the positions `ixs` that exist, in that order.
pub open spec fn ids_at(rows: Seq<TorrentRow>, ixs: Seq<usize>) -> Seq<usize>
    decreases ixs.len(),
{
    if ixs.len() == 0 {
        Seq::empty()
    } else {
        let prev = ids_at(rows, ixs.drop_last());
        if ixs.last() < rows.len() {
            prev.push(rows[ixs.last() as int].id)
        } else {
            prev
        }
    }
}

/// The ids an action on the selection applies to.
pub open spec fn selection_ids(t: TorrentTable, fallback: Option<usize>) -> Seq<usize> {
    if t.selected@.len() == 0 {
        match fallback {
            Some(r) => if r < t.rows@.len() {
                seq![t.rows@[r as int].id]
            } else {
                Seq::empty()
            },
            None => Seq::empty(),
        }
    } else {
        ids_at(t.rows@, t.selected.elems())
    }
}

/// An id is among `ids_at(rows, ixs)` exactly when some listed position holds
/// a row with that id.
pub proof fn lemma_ids_at_contains(rows: Seq<TorrentRow>, ixs: Seq<usize>)
    ensures
        forall|id: usize| #[trigger] ids_at(rows, ixs).contains(id) <==> exists|j: int|
            0 <= j < ixs.len() && ixs[j] < rows.len() && rows[ixs[j] as int].id == id,
    decreases ixs.len(),
{
    if ixs.len() > 0 {
        lemma_ids_at_contains(rows, ixs.drop_last());
        let prev = ids_at(rows, ixs.drop_last());
        assert forall|id: usize| #[trigger] ids_at(rows, ixs).contains(id) <==> exists|j: int|
            0 <= j < ixs.len() && ixs[j] < rows.len() && rows[ixs[j] as int].id == id by {
            if ids_at(rows, ixs).contains(id) {
                if prev.contains(id) {
                    let j = choose|j: int|
                        0 <= j < ixs.drop_last().len() && ixs.drop_last()[j] < rows.len()
                            && rows[ixs.drop_last()[j] as int].id == id;
                    assert(ixs[j] == ixs.drop_last()[j]);
                } else {
                    let k = choose|k: int| 0 <= k < ids_at(rows, ixs).len() && ids_at(rows, ixs)[k] == id;
                    assert(ixs.last() < rows.len());
                    assert(ixs[ixs.len() - 1] == ixs.last());
                }
            }
            if exists|j: int| 0 <= j < ixs.len() && ixs[j] < rows.len() && rows[ixs[j] as int].id == id {
                let j = choose|j: int| 0 <= j < ixs.len() && ixs[j] < rows.len() && rows[ixs[j] as int].id == id;
                if j < ixs.len() - 1 {
                    assert(ixs.drop_last()[j] == ixs[j]);
                    assert(prev.contains(id));
                    let k = choose|k: int| 0 <= k < prev.len() && prev[k] == id;
                    assert(ids_at(rows, ixs)[k] == id);
                } else {
                    assert(ids_at(rows, ixs) == prev.push(id));
                    assert(ids_at(rows, ixs)[prev.len() as int] == id);
                }
            }
        }
    }
}

/// Whether `x` occurs in `v`.
fn vec_contains(v: &Vec<usize>, x: usize) -> (r: bool)
    ensures
        r == v@.contains(x),
{
    let mut i: usize = 0;
    while i < v.len()
        invariant
            i <= v@.len(),
            forall|k: int| 0 <= k < i ==> v@[k] != x,
        decreases v@.len() - i,
    {
        if v[i] == x {
            return true;
        }
        i = i + 1;
    }
    false
}

impl TorrentTable {
    /// Well-formed: the selection is well-formed.
    pub open spec fn wf(&self) -> bool {
        self.selected.wf()
    }

    /// An empty list with no active sort.
    pub fn new() -> (r: Self)
        ensures
            r.wf(),
            r.all_rows@.len() == 0,
            r.rows@.len() == 0,
            r.selected@ == Set::<usize>::empty(),
            r.anchor_row == None::<usize>,
            r.sort_col_ix == None::<usize>,
            r.sort_dir == ColumnSort::Default,
    {
        TorrentTable {
            all_rows: Vec::new(),
            rows: Vec::new(),
            selected: IndexSet::new(),
            anchor_row: None,
            sort_col_ix: None,
            sort_dir: ColumnSort::Default,
        }
    }

    /// Apply the persisted sort to the visible rows.
    pub fn apply_sort(&mut self)
        ensures
            final(self).all_rows@ == old(self).all_rows@,
            final(self).selected == old(self).selected,
            final(self).anchor_row == old(self).anchor_row,
            final(self).sort_col_ix == old(self).sort_col_ix,
            final(self).sort_dir == old(self).sort_dir,
            ordered_by_plan(
                final(self).rows@,
                old(self).rows@,
                torrent_sort_plan(old(self).sort_col_ix, old(self).sort_dir),
            ),
    {
        let plan = torrent_sort_plan_of(self.sort_col_ix, self.sort_dir);
        let mut rows: Vec<TorrentRow> = Vec::new();
        std::mem::swap(&mut rows, &mut self.rows);
        self.rows = order_by_plan(rows, plan);
    }

    /// Recompute the visible rows from `all_rows` with the search text and the
    /// status filter, clear the (now stale) selection and re-apply the sort.
    pub fn apply_filter(&mut self, search: &str, status: &str)
        ensures
            filtered(*old(self), *final(self), search@, status@),
    {
        let trimmed_search = str_trim(search);
        let needle = str_to_lowercase(trimmed_search);
        assert(needle@ =~= search_needle(search@));
        let ghost pred = matching(search_needle(search@), status@);
        let mut rows: Vec<TorrentRow> = Vec::new();
        let mut i: usize = 0;
        while i < self.all_rows.len()
            invariant
                i <= self.all_rows@.len(),
                self.all_rows@ == old(self).all_rows@,
                self.sort_col_ix == old(self).sort_col_ix,
                self.sort_dir == old(self).sort_dir,
                needle@ == search_needle(search@),
                pred == matching(search_needle(search@), status@),
                rows@ == self.all_rows@.take(i as int).filter(pred),
            decreases self.all_rows@.len() - i,
        {
            let row = &self.all_rows[i];
            let name_ok = if needle.as_str().is_empty() {
                true
            } else {
                let lower = str_to_lowercase(row.name.as_str());
                str_contains(lower.as_str(), needle.as_str())
            };
            let status_ok = status.is_empty() || str_eq(row.state.as_str(), status);
            proof {
                assert(self.all_rows@.take(i + 1) =~= self.all_rows@.take(i as int).push(*row));
                self.all_rows@.take(i as int).lemma_filter_push(*row, pred);
            }
            if name_ok && status_ok {
                rows.push(row.duplicate());
            }
            i = i + 1;
        }
        assert(self.all_rows@.take(i as int) =~= self.all_rows@);
        self.rows = rows;
        self.selected.clear();
        self.anchor_row = None;
        self.apply_sort();
    }

    /// Shift-click, ctrl-click or plain click on visible row `row_ix`.
    pub fn on_row_mouse_down(&mut self, row_ix: usize, shift: bool, control: bool)
        requires
            old(self).wf(),
        ensures
            clicked(*old(self), *final(self), row_ix, shift, control),
    {
        if shift {
            let start = match self.anchor_row {
                Some(a) => a,
                None => row_ix,
            };
            let (lo, hi) = if start <= row_ix { (start, row_ix) } else { (row_ix, start) };
            self.selected = IndexSet::range_inclusive(lo, hi);
        } else if control {
            if self.selected.contains(row_ix) {
                self.selected.remove(row_ix);
            } else {
                self.selected.insert(row_ix);
            }
            self.anchor_row = Some(row_ix);
        } else {
            self.selected.clear();
            self.selected.insert(row_ix);
            self.anchor_row = Some(row_ix);
        }
    }

    /// The selection checkbox of row `row_ix` was set to `checked`.
    pub fn set_row_checked(&mut self, row_ix: usize, checked: bool)
        requires
            old(self).wf(),
        ensures
            same_rows(*old(self), *final(self)),
            final(self).wf(),
            final(self).anchor_row == old(self).anchor_row,
            final(self).selected@ == (if checked {
                old(self).selected@.insert(row_ix)
            } else {
                old(self).selected@.remove(row_ix)
            }),
    {
        if checked {
            self.selected.insert(row_ix);
        } else {
            self.selected.remove(row_ix);
        }
    }

    /// The header checkbox was set to `checked`; `total` is the number of
    /// rows it was shown for.
    pub fn set_all_selected(&mut self, checked: bool, total: usize)
        requires
            old(self).wf(),
        ensures
            same_rows(*old(self), *final(self)),
            final(self).wf(),
            final(self).anchor_row == old(self).anchor_row,
            final(self).selected@ == (if checked {
                Set::new(|x: usize| x < total)
            } else {
                Set::<usize>::empty()
            }),
    {
        if checked && total > 0 {
            self.selected = IndexSet::range_inclusive(0, total - 1);
            proof {
                assert(self.selected@ =~= Set::new(|x: usize| x < total));
            }
        } else {
            self.selected.clear();
            proof {
                if checked {
                    assert(Set::new(|x: usize| x < total) =~= Set::<usize>::empty());
                }
            }
        }
    }

    /// Whether the header checkbox shows "all selected".
    pub fn all_selected(&self) -> (r: bool)
        requires
            self.wf(),
        ensures
            r == (self.rows@.len() > 0 && self.selected@.len() == self.rows@.len()),
    {
        self.rows.len() > 0 && self.selected.len() == self.rows.len()
    }

    /// Whether visible row `row_ix` is selected.
    pub fn is_row_selected(&self, row_ix: usize) -> (r: bool)
        requires
            self.wf(),
        ensures
            r == self.selected@.contains(row_ix),
    {
        self.selected.contains(row_ix)
    }

    /// Deselect every row.
    pub fn clear_selection(&mut self)
        ensures
            same_rows(*old(self), *final(self)),
            final(self).wf(),
            final(self).anchor_row == old(self).anchor_row,
            final(self).selected@ == Set::<usize>::empty(),
    {
        self.selected.clear();
    }

    /// Sort by the column at `col_ix` in direction `sort` and remember it;
    /// the selection is cleared since row positions moved.
    pub fn perform_sort(&mut self, col_ix: usize, sort: ColumnSort)
        ensures
            sorted_by_column(*old(self), *final(self), col_ix, sort),
    {
        self.sort_col_ix = Some(col_ix);
        self.sort_dir = sort;
        self.apply_sort();
        self.selected.clear();
        self.anchor_row = None;
    }

    /// Right-click on row `row_ix`: select just that row and give its id and
    /// name for the menu; `None` when there is no such row.
    pub fn select_for_context_menu(&mut self, row_ix: usize) -> (r: Option<(usize, String)>)
        requires
            old(self).wf(),
        ensures
            final(self).wf(),
            same_rows(*old(self), *final(self)),
            row_ix >= old(self).rows@.len() ==> r is None && final(self).selected@ == old(
                self,
            ).selected@ && final(self).anchor_row == old(self).anchor_row,
            row_ix < old(self).rows@.len() ==> r is Some && r.unwrap().0 == old(self).rows@[row_ix as int].id
                && r.unwrap().1@ == old(self).rows@[row_ix as int].name@ && final(self).selected@
                == Set::<usize>::empty().insert(row_ix) && final(self).anchor_row == Some(row_ix),
    {
        if row_ix >= self.rows.len() {
            return None;
        }
        let id = self.rows[row_ix].id;
        let name = self.rows[row_ix].name.clone();
        self.selected.clear();
        self.selected.insert(row_ix);
        self.anchor_row = Some(row_ix);
        Some((id, name))
    }

    /// The ids of the selected rows, in row order; with no selection, the id
    /// of the table's own highlighted row `fallback`, if any.
    pub fn selected_torrent_ids(&self, fallback: Option<usize>) -> (r: Vec<usize>)
        requires
            self.wf(),
        ensures
            r@ == selection_ids(*self, fallback),
    {
        if self.selected.is_empty() {
            let mut out: Vec<usize> = Vec::new();
            if let Some(ix) = fallback {
                if ix < self.rows.len() {
                    out.push(self.rows[ix].id);
                }
            }
            proof {
                assert(out@ =~= selection_ids(*self, fallback));
            }
            return out;
        }
        proof {
            self.selected.lemma_elems();
        }
        self.ids_of_selected()
    }

    /// The ids of the selected visible rows, in ascending row order.
    fn ids_of_selected(&self) -> (r: Vec<usize>)
        requires
            self.wf(),
        ensures
            r@ == ids_at(self.rows@, self.selected.elems()),
    {
        let n = self.selected.count();
        let ghost elems = self.selected.elems();
        let mut out: Vec<usize> = Vec::new();
        let mut k: usize = 0;
        while k < n
            invariant
                k <= n,
                n == elems.len(),
                elems == self.selected.elems(),
                self.selected.wf(),
                out@ == ids_at(self.rows@, elems.take(k as int)),
            decreases n - k,
        {
            let ix = self.selected.get(k);
            assert(elems.take(k + 1).drop_last() =~= elems.take(k as int));
            if ix < self.rows.len() {
                out.push(self.rows[ix].id);
            }
            k = k + 1;
        }
        assert(elems.take(n as int) =~= elems);
        out
    }

    /// Replace the rows with freshly fetched ones: the filter and sort are
    /// re-applied and the previously selected torrents stay selected.
    pub fn refresh(&mut self, rows: Vec<TorrentRow>, search: &str, status: &str)
        requires
            old(self).wf(),
        ensures
            refreshed(*old(self), *final(self), rows@, search@, status@),
    {
        let ghost t0 = *self;
        let prev = self.ids_of_selected();
        proof {
            lemma_ids_at_contains(t0.rows@, t0.selected.elems());
            t0.selected.lemma_elems();
            assert forall|id: usize| prev@.contains(id) <==> selected_ids(t0).contains(id) by {
                if prev@.contains(id) {
                    let j = choose|j: int|
                        0 <= j < t0.selected.elems().len() && t0.selected.elems()[j] < t0.rows@.len()
                            && t0.rows@[t0.selected.elems()[j] as int].id == id;
                    let ix = t0.selected.elems()[j];
                    assert(t0.selected.elems().contains(ix));
                    assert(t0.selected@.contains(ix));
                }
                if selected_ids(t0).contains(id) {
                    let ix = choose|ix: usize| #[trigger]
                        t0.selected@.contains(ix) && ix < t0.rows@.len() && t0.rows@[ix as int].id == id;
                    assert(t0.selected.elems().contains(ix));
                    let j = choose|j: int| 0 <= j < t0.selected.elems().len() && t0.selected.elems()[j] == ix;
                    assert(t0.selected.elems()[j] < t0.rows@.len());
                }
            }
        }
        self.all_rows = rows;
        self.apply_filter(search, status);
        let mut sel = IndexSet::new();
        let mut ix: usize = 0;
        while ix < self.rows.len()
            invariant
                ix <= self.rows@.len(),
                sel.wf(),
                forall|x: usize| #[trigger] sel@.contains(x) <==> x < ix && prev@.contains(self.rows@[x as int].id),
            decreases self.rows@.len() - ix,
        {
            if vec_contains(&prev, self.rows[ix].id) {
                sel.insert(ix);
            }
            ix = ix + 1;
        }
        self.selected = sel;
    }
}

// ---------------------------------------------------------------------------
// Laws of the torrent list.
// ---------------------------------------------------------------------------

/// Ctrl-clicking the same row twice gives back the selection it started with.
pub proof fn law_ctrl_click_twice_restores_selection(
    t0: TorrentTable,
    t1: TorrentTable,
    t2: TorrentTable,
    row_ix: usize,
)
    requires
        clicked(t0, t1, row_ix, false, true),
        clicked(t1, t2, row_ix, false, true),
    ensures
        t2.selected@ == t0.selected@,
        t2.anchor_row == Some(row_ix),
{
    if t0.selected@.contains(row_ix) {
        assert(t2.selected@ =~= t0.selected@);
    } else {
        assert(t2.selected@ =~= t0.selected@);
    }
}

/// A sort chosen by clicking a column header is kept when fresh rows arrive.
pub proof fn law_sort_survives_refresh(
    t0: TorrentTable,
    t1: TorrentTable,
    t2: TorrentTable,
    col_ix: usize,
    sort: ColumnSort,
    rows: Seq<TorrentRow>,
    search: Seq<char>,
    status: Seq<char>,
)
    requires
        sorted_by_column(t0, t1, col_ix, sort),
        refreshed(t1, t2, rows, search, status),
    ensures
        ordered_by_plan(
            t2.rows@,
            rows.filter(matching(search_needle(search), status)),
            torrent_sort_plan(Some(col_ix), sort),
        ),
{
}

/// After a refresh, the selected torrents are those that were selected
/// before and are still listed.
pub proof fn law_refresh_keeps_selected_torrents(
    t0: TorrentTable,
    t1: TorrentTable,
    rows: Seq<TorrentRow>,
    search: Seq<char>,
    status: Seq<char>,
)
    requires
        refreshed(t0, t1, rows, search, status),
    ensures
        selected_ids(t1) == selected_ids(t0).intersect(
            Set::new(|id: usize| exists|i: int| 0 <= i < t1.rows@.len() && t1.rows@[i].id == id),
        ),
{
    let listed = Set::new(|id: usize| exists|i: int| 0 <= i < t1.rows@.len() && t1.rows@[i].id == id);
    assert forall|id: usize| selected_ids(t1).contains(id) <==> selected_ids(t0).intersect(listed).contains(id) by {
        if selected_ids(t1).contains(id) {
            let ix = choose|ix: usize| #[trigger]
                t1.selected@.contains(ix) && ix < t1.rows@.len() && t1.rows@[ix as int].id == id;
            assert(listed.contains(id));
        }
        if selected_ids(t0).intersect(listed).contains(id) {
            let i = choose|i: int| 0 <= i < t1.rows@.len() && t1.rows@[i].id == id;
            vstd::std_specs::vec::axiom_spec_len(&t1.rows);
            assert(t1.rows@.len() <= usize::MAX);
            let ix = i as usize;
            assert(ix as int == i);
            assert(t1.selected@.contains(ix));
            assert(selected_ids(t1).contains(id));
        }
    }
    assert(selected_ids(t1) =~= selected_ids(t0).intersect(listed));
}

/// Every visible row is one of the fetched rows and passes the search and
/// status filter.
pub proof fn law_visible_rows_pass_filter(
    t0: TorrentTable,
    t1: TorrentTable,
    search: Seq<char>,
    status: Seq<char>,
)
    requires
        filtered(t0, t1, search, status),
    ensures
        forall|i: int| 0 <= i < t1.rows@.len() ==> row_matches(#[trigger] t1.rows@[i], search_needle(search), status)
            && t0.all_rows@.contains(t1.rows@[i]),
{
    let pred = matching(search_needle(search), status);
    let f = t0.all_rows@.filter(pred);
    assert forall|i: int| 0 <= i < t1.rows@.len() implies row_matches(#[trigger] t1.rows@[i], search_needle(search), status)
        && t0.all_rows@.contains(t1.rows@[i]) by {
        lemma_plan_contains(t1.rows@, f, torrent_sort_plan(t0.sort_col_ix, t0.sort_dir), i);
        let k = choose|k: int| 0 <= k < f.len() && f[k] == t1.rows@[i];
        t0.all_rows@.lemma_filter_pred(pred, k);
        t0.all_rows@.lemma_filter_contains_rev(pred, t1.rows@[i]);
    }
}

proof fn lemma_filter_keeps_all<T>(s: Seq<T>, p: spec_fn(T) -> bool)
    requires
        forall|i: int| 0 <= i < s.len() ==> p(#[trigger] s[i]),
    ensures
        s.filter(p) == s,
    decreases s.len(),
{
    if s.len() > 0 {
        lemma_filter_keeps_all(s.drop_last(), p);
        s.drop_last().lemma_filter_push(s.last(), p);
        assert(s.drop_last().push(s.last()) =~= s);
    } else {
        reveal(Seq::filter);
    }
}

/// With a blank search and no status filter, every fetched row is listed.
pub proof fn law_blank_filter_lists_every_row(
    t0: TorrentTable,
    t1: TorrentTable,
    search: Seq<char>,
    status: Seq<char>,
)
    requires
        filtered(t0, t1, search, status),
        trimmed(search).len() == 0,
        status.len() == 0,
    ensures
        t1.rows@.to_multiset() == t0.all_rows@.to_multiset(),
        t1.rows@.len() == t0.all_rows@.len(),
{
    let pred = matching(search_needle(search), status);
    lemma_filter_keeps_all(t0.all_rows@, pred);
    lemma_plan_multiset(t1.rows@, t0.all_rows@.filter(pred), torrent_sort_plan(t0.sort_col_ix, t0.sort_dir));
}

} // verus!

verus! {

// ---------------------------------------------------------------------------
// Building rows and the texts of the list.
// ---------------------------------------------------------------------------

/// Live transfer figures of a running torrent, as displayed, with the order
/// keys of the displayed speeds.
pub struct LiveListing {
    pub peers: u64,
    pub down_speed: String,
    pub down_order: u64,
    pub up_speed: String,
    pub up_order: u64,
}

/// Statistics of a torrent, as displayed.
pub struct StatsListing {
    pub state: String,
    pub progress: String,
    pub progress_order: u64,
    pub live: Option<LiveListing>,
}

/// One torrent of the session's list.
pub struct TorrentListing {
    pub id: Option<usize>,
    pub name: Option<String>,
    pub info_hash: String,
    pub stats: Option<StatsListing>,
}

/// The row of a listed torrent. A torrent without an id gets 0, one without
/// a name its info hash; missing statistics show "Unknown" and "N/A", and a
/// torrent that is not running shows "N/A" for peers and speeds.
/// `placeholder_order` is the order key of a displayed "N/A".
pub fn torrent_row(l: TorrentListing, placeholder_order: u64) -> (r: TorrentRow)
    ensures
        r.id == (match l.id {
            Some(i) => i,
            None => 0,
        }),
        r.name@ == (match l.name {
            Some(n) => n@,
            None => l.info_hash@,
        }),
        r.info_hash@ == l.info_hash@,
        match l.stats {
            None => {
                &&& r.state@ == "Unknown"@
                &&& r.progress@ == "N/A"@
                &&& r.progress_order == placeholder_order
                &&& r.peers@ == "N/A"@
                &&& r.down_speed@ == "N/A"@
                &&& r.up_speed@ == "N/A"@
                &&& r.down_order == placeholder_order
                &&& r.up_order == placeholder_order
            },
            Some(s) => {
                &&& r.state@ == s.state@
                &&& r.progress@ == s.progress@
                &&& r.progress_order == s.progress_order
                &&& match s.live {
                    None => {
                        &&& r.peers@ == "N/A"@
                        &&& r.down_speed@ == "N/A"@
                        &&& r.up_speed@ == "N/A"@
                        &&& r.down_order == placeholder_order
                        &&& r.up_order == placeholder_order
                    },
                    Some(v) => {
                        &&& r.peers@ == dec(v.peers as nat)
                        &&& r.down_speed@ == v.down_speed@
                        &&& r.up_speed@ == v.up_speed@
                        &&& r.down_order == v.down_order
                        &&& r.up_order == v.up_order
                    },
                }
            },
        },
{
    let id: usize = match l.id {
        Some(i) => i,
        None => 0,
    };
    let name = match l.name {
        Some(n) => n,
        None => to_string(l.info_hash.as_str()),
    };
    let na = "N/A";
    match l.stats {
        None => TorrentRow {
            id,
            name,
            info_hash: l.info_hash,
            state: to_string("Unknown"),
            progress: to_string(na),
            peers: to_string(na),
            down_speed: to_string(na),
            up_speed: to_string(na),
            progress_order: placeholder_order,
            down_order: placeholder_order,
            up_order: placeholder_order,
        },
        Some(s) => {
            let (peers, down_speed, up_speed, down_order, up_order) = match s.live {
                Some(v) => {
                    let mut p = String::new();
                    push_decimal(&mut p, v.peers as u128);
                    (p, v.down_speed, v.up_speed, v.down_order, v.up_order)
                },
                None => (to_string(na), to_string(na), to_string(na), placeholder_order, placeholder_order),
            };
            TorrentRow {
                id,
                name,
                info_hash: l.info_hash,
                state: s.state,
                progress: s.progress,
                peers,
                down_speed,
                up_speed,
                progress_order: s.progress_order,
                down_order,
                up_order,
            }
        },
    }
}

/// The text of a torrent row's cell; the checkbox column has none.
pub fn torrent_cell_text(row: &TorrentRow, col: TorrentColumn) -> (r: String)
    ensures
        r@ == (match col {
            TorrentColumn::Select => Seq::<char>::empty(),
            TorrentColumn::Name => row.name@,
            TorrentColumn::State => row.state@,
            TorrentColumn::Progress => row.progress@,
            TorrentColumn::Peers => row.peers@,
            TorrentColumn::Down => row.down_speed@,
            TorrentColumn::Up => row.up_speed@,
        }),
{
    match col {
        TorrentColumn::Select => String::new(),
        TorrentColumn::Name => to_string(row.name.as_str()),
        TorrentColumn::State => to_string(row.state.as_str()),
        TorrentColumn::Progress => to_string(row.progress.as_str()),
        TorrentColumn::Peers => to_string(row.peers.as_str()),
        TorrentColumn::Down => to_string(row.down_speed.as_str()),
        TorrentColumn::Up => to_string(row.up_speed.as_str()),
    }
}

/// The labels of a torrent's context menu.
pub struct ContextMenuLabels {
    pub pause: String,
    pub start: String,
    pub delete: String,
}

fn prefixed(prefix: &str, name: &str) -> (r: String)
    ensures
        r@ == prefix@ + name@,
{
    let mut s = to_string(prefix);
    push_str(&mut s, name);
    s
}

/// "Pause: <name>", "Start: <name>" and "Delete: <name>".
pub fn context_menu_labels(name: &str) -> (r: ContextMenuLabels)
    ensures
        r.pause@ == "Pause: "@ + name@,
        r.start@ == "Start: "@ + name@,
        r.delete@ == "Delete: "@ + name@,
{
    ContextMenuLabels {
        pause: prefixed("Pause: ", name),
        start: prefixed("Start: ", name),
        delete: prefixed("Delete: ", name),
    }
}

} // verus!

verus! {

// ---------------------------------------------------------------------------
// What a column sort does to the rows, field by field.
// ---------------------------------------------------------------------------

/// `rows` in ascending order of the number `f` reads off each row, or in
/// descending order when `desc`.
pub open spec fn monotone_by(rows: Seq<TorrentRow>, f: spec_fn(TorrentRow) -> int, desc: bool) -> bool {
    forall|i: int, j: int|
        0 <= i < j < rows.len() ==> if desc {
            #[trigger] f(rows[j]) <= #[trigger] f(rows[i])
        } else {
            f(rows[i]) <= f(rows[j])
        }
}

/// `rows` in byte order of the text `f` reads off each row, or in reverse
/// byte order when `desc`.
pub open spec fn lex_by(rows: Seq<TorrentRow>, f: spec_fn(TorrentRow) -> Seq<char>, desc: bool) -> bool {
    forall|i: int, j: int|
        0 <= i < j < rows.len() ==> if desc {
            lex_le(encode_utf8(#[trigger] f(rows[j])), encode_utf8(#[trigger] f(rows[i])))
        } else {
            lex_le(encode_utf8(f(rows[i])), encode_utf8(f(rows[j])))
        }
}

/// Sorting the list by a column orders its rows by the field that column
/// shows: Name (1) and Status (2) in byte order of the text, Progress (3),
/// Peers (4), Down Speed (5) and Up Speed (6) by their values; ascending,
/// or descending for `Descending`. `Default` restores ascending id order.
/// No row is added or lost.
pub proof fn law_column_sort_orders_rows(out: Seq<TorrentRow>, inp: Seq<TorrentRow>, ix: usize, dir: ColumnSort)
    requires
        ordered_by_plan(out, inp, torrent_sort_plan(Some(ix), dir)),
    ensures
        out.to_multiset() == inp.to_multiset(),
        dir == ColumnSort::Default && ix < 7 ==> monotone_by(out, |r: TorrentRow| r.id as int, false),
        dir != ColumnSort::Default ==> {
            let desc = dir == ColumnSort::Descending;
            &&& ix == 1 ==> lex_by(out, |r: TorrentRow| r.name@, desc)
            &&& ix == 2 ==> lex_by(out, |r: TorrentRow| r.state@, desc)
            &&& ix == 3 ==> monotone_by(out, |r: TorrentRow| r.progress_order as int, desc)
            &&& ix == 4 ==> monotone_by(out, |r: TorrentRow| peers_value(r) as int, desc)
            &&& ix == 5 ==> monotone_by(out, |r: TorrentRow| r.down_order as int, desc)
            &&& ix == 6 ==> monotone_by(out, |r: TorrentRow| r.up_order as int, desc)
        },
        ix >= 7 ==> out == inp,
{
    let plan = torrent_sort_plan(Some(ix), dir);
    lemma_plan_multiset(out, inp, plan);
    let desc = dir == ColumnSort::Descending;
    if ix < 7 {
        if dir == ColumnSort::Default {
            lemma_plan_monotone(out, inp, TorrentSortKey::Id, false, |r: TorrentRow| r.id as int);
        } else if ix == 1 {
            lemma_plan_lex(out, inp, TorrentSortKey::Name, desc, |r: TorrentRow| r.name@);
        } else if ix == 2 {
            lemma_plan_lex(out, inp, TorrentSortKey::State, desc, |r: TorrentRow| r.state@);
        } else if ix == 3 {
            lemma_plan_monotone(out, inp, TorrentSortKey::Progress, desc, |r: TorrentRow| r.progress_order as int);
        } else if ix == 4 {
            lemma_plan_monotone(out, inp, TorrentSortKey::Peers, desc, |r: TorrentRow| peers_value(r) as int);
        } else if ix == 5 {
            lemma_plan_monotone(out, inp, TorrentSortKey::Down, desc, |r: TorrentRow| r.down_order as int);
        } else if ix == 6 {
            lemma_plan_monotone(out, inp, TorrentSortKey::Up, desc, |r: TorrentRow| r.up_order as int);
        }
    }
}

/// Rows ordered by a key whose order follows the number `f` are monotone in it.
proof fn lemma_plan_monotone(
    out: Seq<TorrentRow>,
    inp: Seq<TorrentRow>,
    key: TorrentSortKey,
    rev: bool,
    f: spec_fn(TorrentRow) -> int,
)
    requires
        ordered_by_plan(out, inp, Some((key, rev))),
        forall|a: TorrentRow, b: TorrentRow| #[trigger] a.key_le(b, key) ==> f(a) <= f(b),
    ensures
        monotone_by(out, f, rev),
{
    assert forall|i: int, j: int| 0 <= i < j < out.len() implies (if rev {
        f(out[j]) <= f(out[i])
    } else {
        f(out[i]) <= f(out[j])
    }) by {
        lemma_plan_pairs(out, inp, key, rev, i, j);
    }
}

/// Rows ordered by a key whose order follows the byte order of the text `f`
/// are in that order.
proof fn lemma_plan_lex(
    out: Seq<TorrentRow>,
    inp: Seq<TorrentRow>,
    key: TorrentSortKey,
    rev: bool,
    f: spec_fn(TorrentRow) -> Seq<char>,
)
    requires
        ordered_by_plan(out, inp, Some((key, rev))),
        forall|a: TorrentRow, b: TorrentRow| #[trigger] a.key_le(b, key) ==> lex_le(encode_utf8(f(a)), encode_utf8(f(b))),
    ensures
        lex_by(out, f, rev),
{
    assert forall|i: int, j: int| 0 <= i < j < out.len() implies (if rev {
        lex_le(encode_utf8(f(out[j])), encode_utf8(f(out[i])))
    } else {
        lex_le(encode_utf8(f(out[i])), encode_utf8(f(out[j])))
    }) by {
        lemma_plan_pairs(out, inp, key, rev, i, j);
    }
}

/// A row passes the search and the status filter by its name and state
/// alone: with a search, exactly when its lowercased name contains the
/// lowercased, trimmed search text; with a status, exactly when its state
/// is that status. Two rows with the same name and state pass alike.
pub proof fn law_filter_reads_name_and_state(
    r1: TorrentRow,
    r2: TorrentRow,
    search: Seq<char>,
    status: Seq<char>,
)
    ensures
        row_matches(r1, search_needle(search), status) <==> (
            (trimmed(search).len() == 0 || contains_seq(lowercase(r1.name@), lowercase(trimmed(search))))
            && (status.len() == 0 || r1.state@ == status)),
        r1.name@ == r2.name@ && r1.state@ == r2.state@ ==> (row_matches(r1, search_needle(search), status)
            <==> row_matches(r2, search_needle(search), status)),
{
    let needle = search_needle(search);
    if needle.len() == 0 {
        assert(lowercase(r1.name@).subrange(0int, 0int + needle.len()) =~= needle);
        assert(contains_seq(lowercase(r1.name@), needle));
        assert(lowercase(r2.name@).subrange(0int, 0int + needle.len()) =~= needle);
        assert(contains_seq(lowercase(r2.name@), needle));
    }
}

/// A shift-click selects exactly the rows from the anchor (or the clicked
/// row, with no anchor) to the clicked row, whatever was selected before:
/// two tables that differ only in their selection end with the same one.
pub proof fn law_shift_click_selects_range(
    t0: TorrentTable,
    t1: TorrentTable,
    u0: TorrentTable,
    u1: TorrentTable,
    row_ix: usize,
    control: bool,
)
    requires
        clicked(t0, t1, row_ix, true, control),
        clicked(u0, u1, row_ix, true, control),
        u0.anchor_row == t0.anchor_row,
    ensures
        forall|x: usize| #[trigger] t1.selected@.contains(x) <==> {
            let a = match t0.anchor_row {
                Some(a) => a,
                None => row_ix,
            };
            (a <= x <= row_ix) || (row_ix <= x <= a)
        },
        t1.selected@ == u1.selected@,
        t1.anchor_row == t0.anchor_row,
{
    assert(t1.selected@ =~= u1.selected@);
}

} // verus!
