//! The file-selection table: which files of a torrent to download, with
//! sorting by name or size and "select all" handling.
use vstd::prelude::*;
use vstd::utf8::encode_utf8;
use crate::sort::{ColumnSort, SortKey, lemma_plan_multiset, lemma_plan_pairs, order_by_plan, ordered_by_plan};
use crate::format::{bytes_text, format_bytes};
use crate::text::{lex_le, lemma_lex_total, lemma_lex_trans, str_le, to_string};

verus! {

/// A single row in a file-selection table.
#[derive(Clone, Debug)]
pub struct FileRow {
    pub file_index: usize,
    pub name: String,
    pub length: u64,
    pub included: bool,
}

impl FileRow {
    /// An identical copy of the row.
    pub fn duplicate(&self) -> (r: Self)
        ensures
            r == *self,
    {
        FileRow {
            file_index: self.file_index,
            name: self.name.clone(),
            length: self.length,
            included: self.included,
        }
    }
}

/// What a file table can be sorted by.
#[derive(Clone, Copy, Debug, PartialEq, Eq, Structural)]
pub enum FileSortKey {
    /// By file name, in byte order.
    Name,
    /// By length in bytes.
    Size,
    /// Every row ties.
    Unordered,
}

impl SortKey for FileRow {
    type Key = FileSortKey;

    open spec fn key_le(self, other: Self, key: FileSortKey) -> bool {
        match key {
            FileSortKey::Name => lex_le(encode_utf8(self.name@), encode_utf8(other.name@)),
            FileSortKey::Size => self.length <= other.length,
            FileSortKey::Unordered => true,
        }
    }

    fn le_by(&self, other: &Self, key: FileSortKey) -> (r: bool) {
        match key {
            FileSortKey::Name => str_le(self.name.as_str(), other.name.as_str()),
            FileSortKey::Size => self.length <= other.length,
            FileSortKey::Unordered => true,
        }
    }

    proof fn lemma_key_total(a: Self, b: Self, key: FileSortKey) {
        lemma_lex_total(encode_utf8(a.name@), encode_utf8(b.name@));
    }

    proof fn lemma_key_trans(a: Self, b: Self, c: Self, key: FileSortKey) {
        if key == FileSortKey::Name {
            lemma_lex_trans(encode_utf8(a.name@), encode_utf8(b.name@), encode_utf8(c.name@));
        }
    }
}

/// The columns of a file table, left to right.
#[derive(Clone, Copy, Debug, PartialEq, Eq, Structural)]
pub enum FileColumn {
    /// The "included" checkbox.
    Included,
    /// File name.
    Name,
    /// File size.
    Size,
}

/// The file table's column at position `ix`.
pub open spec fn file_column_spec(ix: nat) -> Option<FileColumn> {
    if ix == 0 {
        Some(FileColumn::Included)
    } else if ix == 1 {
        Some(FileColumn::Name)
    } else if ix == 2 {
        Some(FileColumn::Size)
    } else {
        None
    }
}

/// The file table's column at position `ix`, if there is one.
pub fn file_column(ix: usize) -> (r: Option<FileColumn>)
    ensures
        r == file_column_spec(ix as nat),
{
    if ix == 0 {
        Some(FileColumn::Included)
    } else if ix == 1 {
        Some(FileColumn::Name)
    } else if ix == 2 {
        Some(FileColumn::Size)
    } else {
        None
    }
}

/// Number of columns of a file table.
pub const FILE_COLUMN_COUNT: usize = 3;

/// How the rows get ordered for a sort state: the key, and whether the
/// result is reversed; `None` leaves the rows as they are.
pub open spec fn file_sort_plan(col_ix: Option<usize>, dir: ColumnSort) -> Option<(FileSortKey, bool)> {
    match col_ix {
        None => None,
        Some(ix) => match file_column_spec(ix as nat) {
            None => None,
            Some(col) => {
                let key = match col {
                    FileColumn::Included => FileSortKey::Unordered,
                    FileColumn::Name => FileSortKey::Name,
                    FileColumn::Size => FileSortKey::Size,
                };
                match dir {
                    ColumnSort::Default => Some((FileSortKey::Name, false)),
                    ColumnSort::Ascending => Some((key, false)),
                    ColumnSort::Descending => Some((key, true)),
                }
            },
        },
    }
}

/// `r` with its inclusion set to `included`.
pub open spec fn with_included(r: FileRow, included: bool) -> FileRow {
    FileRow { included, ..r }
}

/// Executable form of `file_sort_plan`.
pub fn file_sort_plan_of(col_ix: Option<usize>, dir: ColumnSort) -> (r: Option<(FileSortKey, bool)>)
    ensures
        r == file_sort_plan(col_ix, dir),
{
    let ix = match col_ix {
        None => return None,
        Some(ix) => ix,
    };
    let col = match file_column(ix) {
        None => return None,
        Some(c) => c,
    };
    let key = match col {
        FileColumn::Included => FileSortKey::Unordered,
        FileColumn::Name => FileSortKey::Name,
        FileColumn::Size => FileSortKey::Size,
    };
    match dir {
        ColumnSort::Default => Some((FileSortKey::Name, false)),
        ColumnSort::Ascending => Some((key, false)),
        ColumnSort::Descending => Some((key, true)),
    }
}

/// The `file_index` of every included row, in row order.
pub open spec fn selected_file_indices(rows: Seq<FileRow>) -> Seq<usize>
    decreases rows.len(),
{
    if rows.len() == 0 {
        Seq::empty()
    } else {
        let prev = selected_file_indices(rows.drop_last());
        if rows.last().included {
            prev.push(rows.last().file_index)
        } else {
            prev
        }
    }
}

/// Reusable table model for selecting which files of a torrent to download.
pub struct FileTable {
    pub rows: Vec<FileRow>,
    /// Currently active sort column index (None = no active sort).
    pub sort_col_ix: Option<usize>,
    /// Currently active sort direction.
    pub sort_dir: ColumnSort,
}

impl FileTable {
    /// An empty table sorted by file name, ascending.
    pub fn new() -> (r: Self)
        ensures
            r.rows@.len() == 0,
            r.sort_col_ix == Some(1usize),
            r.sort_dir == ColumnSort::Ascending,
    {
        FileTable { rows: Vec::new(), sort_col_ix: Some(1), sort_dir: ColumnSort::Ascending }
    }

    /// Apply the persisted sort (`sort_col_ix` / `sort_dir`) to the rows.
    pub fn apply_sort(&mut self)
        ensures
            final(self).sort_col_ix == old(self).sort_col_ix,
            final(self).sort_dir == old(self).sort_dir,
            ordered_by_plan(
                final(self).rows@,
                old(self).rows@,
                file_sort_plan(old(self).sort_col_ix, old(self).sort_dir),
            ),
    {
        let plan = file_sort_plan_of(self.sort_col_ix, self.sort_dir);
        let mut rows: Vec<FileRow> = Vec::new();
        std::mem::swap(&mut rows, &mut self.rows);
        self.rows = order_by_plan(rows, plan);
    }

    /// Replace the rows with freshly loaded ones, keeping the active sort.
    pub fn set_rows(&mut self, rows: Vec<FileRow>)
        ensures
            final(self).sort_col_ix == old(self).sort_col_ix,
            final(self).sort_dir == old(self).sort_dir,
            ordered_by_plan(final(self).rows@, rows@, file_sort_plan(old(self).sort_col_ix, old(self).sort_dir)),
    {
        self.rows = rows;
        self.apply_sort();
    }

    /// Sort by the column at `col_ix` in direction `sort`, and remember it.
    pub fn perform_sort(&mut self, col_ix: usize, sort: ColumnSort)
        ensures
            final(self).sort_col_ix == Some(col_ix),
            final(self).sort_dir == sort,
            ordered_by_plan(final(self).rows@, old(self).rows@, file_sort_plan(Some(col_ix), sort)),
    {
        self.sort_col_ix = Some(col_ix);
        self.sort_dir = sort;
        self.apply_sort();
    }

    /// Currently selected file indices (those with `included == true`).
    pub fn selected_indices(&self) -> (r: Vec<usize>)
        ensures
            r@ == selected_file_indices(self.rows@),
    {
        let mut out: Vec<usize> = Vec::new();
        let mut i: usize = 0;
        while i < self.rows.len()
            invariant
                i <= self.rows@.len(),
                out@ == selected_file_indices(self.rows@.take(i as int)),
            decreases self.rows@.len() - i,
        {
            assert(self.rows@.take(i + 1).drop_last() =~= self.rows@.take(i as int));
            if self.rows[i].included {
                out.push(self.rows[i].file_index);
            }
            i = i + 1;
        }
        assert(self.rows@.take(i as int) =~= self.rows@);
        out
    }

    /// Set the inclusion of the row at `row_ix`; no change if there is none.
    pub fn set_included(&mut self, row_ix: usize, included: bool)
        ensures
            final(self).sort_col_ix == old(self).sort_col_ix,
            final(self).sort_dir == old(self).sort_dir,
            row_ix < old(self).rows@.len() ==> final(self).rows@ == old(self).rows@.update(
                row_ix as int,
                with_included(old(self).rows@[row_ix as int], included),
            ),
            row_ix >= old(self).rows@.len() ==> final(self).rows@ == old(self).rows@,
    {
        if row_ix < self.rows.len() {
            self.rows[row_ix].included = included;
        }
    }

    /// Set the inclusion of every row.
    pub fn set_all_included(&mut self, included: bool)
        ensures
            final(self).sort_col_ix == old(self).sort_col_ix,
            final(self).sort_dir == old(self).sort_dir,
            final(self).rows@.len() == old(self).rows@.len(),
            forall|i: int| 0 <= i < old(self).rows@.len() ==> #[trigger] final(self).rows@[i]
                == with_included(old(self).rows@[i], included),
    {
        let mut i: usize = 0;
        while i < self.rows.len()
            invariant
                i <= self.rows@.len(),
                self.rows@.len() == old(self).rows@.len(),
                self.sort_col_ix == old(self).sort_col_ix,
                self.sort_dir == old(self).sort_dir,
                forall|k: int| 0 <= k < i ==> #[trigger] self.rows@[k] == with_included(
                    old(self).rows@[k],
                    included,
                ),
                forall|k: int| i <= k < self.rows@.len() ==> #[trigger] self.rows@[k]
                    == old(self).rows@[k],
            decreases self.rows@.len() - i,
        {
            self.rows[i].included = included;
            i = i + 1;
        }
    }

    /// A click on a row's checkbox: flips the row's inclusion and gives the
    /// new state; `None` when there is no such row.
    pub fn toggle_row(&mut self, row_ix: usize) -> (r: Option<bool>)
        ensures
            final(self).sort_col_ix == old(self).sort_col_ix,
            final(self).sort_dir == old(self).sort_dir,
            row_ix < old(self).rows@.len() ==> {
                let now = !old(self).rows@[row_ix as int].included;
                &&& r == Some(now)
                &&& final(self).rows@ == old(self).rows@.update(
                    row_ix as int,
                    with_included(old(self).rows@[row_ix as int], now),
                )
            },
            row_ix >= old(self).rows@.len() ==> r is None && final(self).rows@ == old(self).rows@,
    {
        if row_ix < self.rows.len() {
            let now = !self.rows[row_ix].included;
            self.set_included(row_ix, now);
            Some(now)
        } else {
            None
        }
    }

    /// A click on the header checkbox: includes every row unless all are
    /// included already, in which case every row is excluded. Gives the new
    /// state.
    pub fn toggle_all_included(&mut self) -> (new_state: bool)
        ensures
            new_state == !(old(self).rows@.len() > 0 && forall|i: int|
                0 <= i < old(self).rows@.len() ==> #[trigger] old(self).rows@[i].included),
            final(self).sort_col_ix == old(self).sort_col_ix,
            final(self).sort_dir == old(self).sort_dir,
            final(self).rows@.len() == old(self).rows@.len(),
            forall|i: int| 0 <= i < old(self).rows@.len() ==> #[trigger] final(self).rows@[i]
                == with_included(old(self).rows@[i], new_state),
    {
        let new_state = !self.all_included();
        self.set_all_included(new_state);
        new_state
    }

    /// Whether the header checkbox shows "all included": there are rows and
    /// every one is included.
    pub fn all_included(&self) -> (r: bool)
        ensures
            r == (self.rows@.len() > 0 && forall|i: int| 0 <= i < self.rows@.len() ==> #[trigger] self.rows@[i].included),
    {
        if self.rows.len() == 0 {
            return false;
        }
        let mut i: usize = 0;
        while i < self.rows.len()
            invariant
                i <= self.rows@.len(),
                forall|k: int| 0 <= k < i ==> #[trigger] self.rows@[k].included,
            decreases self.rows@.len() - i,
        {
            if !self.rows[i].included {
                return false;
            }
            i = i + 1;
        }
        true
    }
}

/// A file index is selected exactly when some included row carries it.
pub proof fn lemma_selected_file_indices_contains(rows: Seq<FileRow>)
    ensures
        forall|fi: usize| #[trigger] selected_file_indices(rows).contains(fi) <==> exists|i: int|
            0 <= i < rows.len() && rows[i].included && rows[i].file_index == fi,
    decreases rows.len(),
{
    if rows.len() > 0 {
        let prev_rows = rows.drop_last();
        lemma_selected_file_indices_contains(prev_rows);
        let prev = selected_file_indices(prev_rows);
        assert forall|fi: usize| #[trigger] selected_file_indices(rows).contains(fi) <==> exists|i: int|
            0 <= i < rows.len() && rows[i].included && rows[i].file_index == fi by {
            let cur = selected_file_indices(rows);
            if cur.contains(fi) {
                if prev.contains(fi) {
                    let i = choose|i: int| 0 <= i < prev_rows.len() && prev_rows[i].included && prev_rows[i].file_index == fi;
                    assert(rows[i] == prev_rows[i]);
                } else {
                    let k = choose|k: int| 0 <= k < cur.len() && cur[k] == fi;
                    assert(rows[rows.len() - 1] == rows.last());
                }
            }
            if exists|i: int| 0 <= i < rows.len() && rows[i].included && rows[i].file_index == fi {
                let i = choose|i: int| 0 <= i < rows.len() && rows[i].included && rows[i].file_index == fi;
                if i < rows.len() - 1 {
                    assert(prev_rows[i] == rows[i]);
                    assert(prev.contains(fi));
                    let k = choose|k: int| 0 <= k < prev.len() && prev[k] == fi;
                    assert(cur[k] == fi);
                } else {
                    assert(cur == prev.push(fi));
                    assert(cur[prev.len() as int] == fi);
                }
            }
        }
    }
}

/// Sorting the file table changes no file's selection: the same file indices
/// are selected before and after.
pub proof fn law_sort_keeps_selected_files(
    before: Seq<FileRow>,
    after: Seq<FileRow>,
    plan: Option<(FileSortKey, bool)>,
)
    requires
        ordered_by_plan(after, before, plan),
    ensures
        forall|fi: usize| #[trigger] selected_file_indices(after).contains(fi)
            <==> selected_file_indices(before).contains(fi),
{
    lemma_plan_multiset(after, before, plan);
    lemma_selected_file_indices_contains(after);
    lemma_selected_file_indices_contains(before);
    assert forall|fi: usize| #[trigger] selected_file_indices(after).contains(fi)
        <==> selected_file_indices(before).contains(fi) by {
        if selected_file_indices(after).contains(fi) {
            let i = choose|i: int| 0 <= i < after.len() && after[i].included && after[i].file_index == fi;
            vstd::seq_lib::to_multiset_contains(after, after[i]);
            vstd::seq_lib::to_multiset_contains(before, after[i]);
            assert(after.contains(after[i]));
        }
        if selected_file_indices(before).contains(fi) {
            let i = choose|i: int| 0 <= i < before.len() && before[i].included && before[i].file_index == fi;
            vstd::seq_lib::to_multiset_contains(after, before[i]);
            vstd::seq_lib::to_multiset_contains(before, before[i]);
            assert(before.contains(before[i]));
        }
    }
}

/// Including every file and then asking for the selection lists every row's
/// file index, in row order.
pub proof fn law_include_all_selects_every_file(before: Seq<FileRow>, after: Seq<FileRow>)
    requires
        after.len() == before.len(),
        forall|i: int| 0 <= i < before.len() ==> #[trigger] after[i] == with_included(before[i], true),
    ensures
        selected_file_indices(after) == before.map_values(|r: FileRow| r.file_index),
    decreases before.len(),
{
    if before.len() > 0 {
        law_include_all_selects_every_file(before.drop_last(), after.drop_last());
        assert(before.map_values(|r: FileRow| r.file_index) =~= before.drop_last().map_values(
            |r: FileRow| r.file_index,
        ).push(before.last().file_index));
    } else {
        assert(before.map_values(|r: FileRow| r.file_index) =~= Seq::<usize>::empty());
    }
}

/// The text of a file row's cell: its name, or its size as `format_bytes`
/// renders it; the checkbox column has none.
pub fn file_cell_text(row: &FileRow, col: FileColumn) -> (r: String)
    ensures
        r@ == (match col {
            FileColumn::Included => Seq::<char>::empty(),
            FileColumn::Name => row.name@,
            FileColumn::Size => bytes_text(row.length as nat),
        }),
{
    match col {
        FileColumn::Included => String::new(),
        FileColumn::Name => to_string(row.name.as_str()),
        FileColumn::Size => format_bytes(row.length),
    }
}

} // verus!

verus! {

/// Sorting the file table by a column orders its rows by the field that
/// column shows: File Name (1) in byte order of the names, Size (2) by
/// length; ascending, or descending for `Descending`. `Default` restores
/// ascending name order. No row is added or lost.
pub proof fn law_file_sort_orders_rows(out: Seq<FileRow>, inp: Seq<FileRow>, ix: usize, dir: ColumnSort)
    requires
        ordered_by_plan(out, inp, file_sort_plan(Some(ix), dir)),
    ensures
        out.to_multiset() == inp.to_multiset(),
        (ix == 1 || ix == 2) && dir == ColumnSort::Default ==> forall|i: int, j: int|
            0 <= i < j < out.len() ==> lex_le(encode_utf8(#[trigger] out[i].name@), encode_utf8(#[trigger] out[j].name@)),
        ix == 1 && dir == ColumnSort::Ascending ==> forall|i: int, j: int|
            0 <= i < j < out.len() ==> lex_le(encode_utf8(#[trigger] out[i].name@), encode_utf8(#[trigger] out[j].name@)),
        ix == 1 && dir == ColumnSort::Descending ==> forall|i: int, j: int|
            0 <= i < j < out.len() ==> lex_le(encode_utf8(#[trigger] out[j].name@), encode_utf8(#[trigger] out[i].name@)),
        ix == 2 && dir == ColumnSort::Ascending ==> forall|i: int, j: int|
            0 <= i < j < out.len() ==> #[trigger] out[i].length <= #[trigger] out[j].length,
        ix == 2 && dir == ColumnSort::Descending ==> forall|i: int, j: int|
            0 <= i < j < out.len() ==> #[trigger] out[j].length <= #[trigger] out[i].length,
        ix >= 3 ==> out == inp,
{
    let plan = file_sort_plan(Some(ix), dir);
    lemma_plan_multiset(out, inp, plan);
    if let Some((key, rev)) = plan {
        if key == FileSortKey::Name && !rev {
            assert forall|i: int, j: int| 0 <= i < j < out.len() implies lex_le(
                encode_utf8(#[trigger] out[i].name@),
                encode_utf8(#[trigger] out[j].name@),
            ) by {
                lemma_plan_pairs(out, inp, key, rev, i, j);
            }
        }
        if key == FileSortKey::Name && rev {
            assert forall|i: int, j: int| 0 <= i < j < out.len() implies lex_le(
                encode_utf8(#[trigger] out[j].name@),
                encode_utf8(#[trigger] out[i].name@),
            ) by {
                lemma_plan_pairs(out, inp, key, rev, i, j);
            }
        }
        if key == FileSortKey::Size && !rev {
            assert forall|i: int, j: int| 0 <= i < j < out.len() implies #[trigger] out[i].length
                <= #[trigger] out[j].length by {
                lemma_plan_pairs(out, inp, key, rev, i, j);
            }
        }
        if key == FileSortKey::Size && rev {
            assert forall|i: int, j: int| 0 <= i < j < out.len() implies #[trigger] out[j].length
                <= #[trigger] out[i].length by {
                lemma_plan_pairs(out, inp, key, rev, i, j);
            }
        }
    }
}

} // verus!
