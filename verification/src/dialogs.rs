//! The add-torrent, delete and magnet dialogs: what they show and what they
//! report when the user confirms.
use vstd::prelude::*;
use crate::file_table::FileRow;
use crate::text::{dec, push_char, push_decimal, push_str, str_trim, to_string, trimmed};

verus! {

// ---------------------------------------------------------------------------
// Add torrent
// ---------------------------------------------------------------------------

/// The original source of a torrent, retained so it can be re-added for real
/// after its file list has been resolved.
#[derive(Clone, Debug)]
pub enum AddTorrentSource {
    Bytes(Vec<u8>),
    Url(String),
}

/// A single torrent queued for addition, with its resolved file list.
/// No files means "add all files" (no selection).
#[derive(Debug)]
pub struct AddTorrentEntry {
    pub source: AddTorrentSource,
    pub name: String,
    pub files: Vec<FileRow>,
}

/// Events emitted by the add-torrent dialog.
#[derive(Debug)]
pub enum AddTorrentDialogEvent {
    /// User cancelled the dialog.
    Cancelled,
    /// Add one torrent with the given selected file indices; `None` means all
    /// files.
    AddOne(AddTorrentSource, Option<Vec<usize>>),
    /// All torrents have been processed; the dialog can close.
    Finished,
}

/// The file rows of a listed torrent: one per file, in listing order, all
/// included.
pub open spec fn listed_file_rows(files: Seq<(String, u64)>) -> Seq<FileRow> {
    Seq::new(
        files.len(),
        |i: int| FileRow { file_index: i as usize, name: files[i].0, length: files[i].1, included: true },
    )
}

/// Builds the queue entry for a torrent whose listing gave `name` (or none),
/// its `info_hash` and its files (name and length each): the entry is named
/// after the torrent, or after its info hash when it has no name.
pub fn entry_from_listing(
    source: AddTorrentSource,
    name: Option<String>,
    info_hash: String,
    files: Vec<(String, u64)>,
) -> (r: AddTorrentEntry)
    ensures
        r.source == source,
        r.name == (match name {
            Some(n) => n,
            None => info_hash,
        }),
        r.files@ == listed_file_rows(files@),
{
    let display = match name {
        Some(n) => n,
        None => info_hash,
    };
    let mut rows: Vec<FileRow> = Vec::new();
    let mut src = files;
    let ghost all = src@;
    assert(all.len() == src.len());
    let mut i: usize = 0;
    while src.len() > 0
        invariant
            i <= all.len(),
            i + src@.len() == all.len(),
            all.len() <= usize::MAX,
            src@ == all.skip(i as int),
            rows@ == listed_file_rows(all.take(i as int)),
        decreases src@.len(),
    {
        let (fname, length) = src.remove(0);
        rows.push(FileRow { file_index: i, name: fname, length, included: true });
        proof {
            assert(listed_file_rows(all.take(i + 1)) =~= listed_file_rows(all.take(i as int)).push(
                FileRow { file_index: i, name: all[i as int].0, length: all[i as int].1, included: true },
            ));
        }
        i = i + 1;
        proof {
            assert(src@ =~= all.skip(i as int));
        }
    }
    assert(all.take(i as int) =~= all);
    AddTorrentEntry { source, name: display, files: rows }
}

/// The queue entry for a torrent whose file list could not be resolved: no
/// files, so it is added with all files. It is named after its link, or
/// left unnamed when it came from a file.
pub fn unresolved_entry(source: AddTorrentSource) -> (r: AddTorrentEntry)
    ensures
        r.source == source,
        r.files@.len() == 0,
        r.name@ == (match source {
            AddTorrentSource::Url(u) => u@,
            AddTorrentSource::Bytes(_) => Seq::<char>::empty(),
        }),
{
    let name = match &source {
        AddTorrentSource::Url(u) => to_string(u.as_str()),
        AddTorrentSource::Bytes(_) => String::new(),
    };
    AddTorrentEntry { source, name, files: Vec::new() }
}

/// Copies a list of file rows.
pub fn copy_rows(v: &Vec<FileRow>) -> (r: Vec<FileRow>)
    ensures
        r@ == v@,
{
    let mut out: Vec<FileRow> = Vec::new();
    let mut i: usize = 0;
    while i < v.len()
        invariant
            i <= v@.len(),
            out@ == v@.take(i as int),
        decreases v@.len() - i,
    {
        out.push(v[i].duplicate());
        i = i + 1;
        assert(out@ =~= v@.take(i as int));
    }
    assert(v@.take(i as int) =~= v@);
    out
}

/// The title of the add dialog: with several torrents queued, which one of
/// how many is shown.
pub open spec fn add_dialog_title(current: nat, total: nat) -> Seq<char> {
    if total > 1 {
        seq!['A', 'd', 'd', ' ', 'T', 'o', 'r', 'r', 'e', 'n', 't', ' ', '('] + dec(current + 1)
            + seq!['/'] + dec(total) + seq![')']
    } else {
        seq!['A', 'd', 'd', ' ', 'T', 'o', 'r', 'r', 'e', 'n', 't']
    }
}

/// Model of the dialog that adds one or more torrents, one at a time, each
/// with its own file selection.
pub struct AddTorrentDialog {
    pub entries: Vec<AddTorrentEntry>,
    pub current: usize,
}

impl AddTorrentDialog {
    /// A dialog for `entries`, starting with the first.
    pub fn new(entries: Vec<AddTorrentEntry>) -> (r: Self)
        ensures
            r.entries@ == entries@,
            r.current == 0,
    {
        AddTorrentDialog { entries, current: 0 }
    }

    /// The file rows of the current torrent (none if there is none).
    pub fn current_files(&self) -> (r: Vec<FileRow>)
        ensures
            self.current < self.entries@.len() ==> r@ == self.entries@[self.current as int].files@,
            self.current >= self.entries@.len() ==> r@.len() == 0,
    {
        if self.current < self.entries.len() {
            copy_rows(&self.entries[self.current].files)
        } else {
            Vec::new()
        }
    }

    /// The name of the current torrent (empty if there is none).
    pub fn current_name(&self) -> (r: String)
        ensures
            self.current < self.entries@.len() ==> r@ == self.entries@[self.current as int].name@,
            self.current >= self.entries@.len() ==> r@.len() == 0,
    {
        if self.current < self.entries.len() {
            self.entries[self.current].name.clone()
        } else {
            String::new()
        }
    }

    /// Whether another torrent follows the current one.
    pub fn has_more(&self) -> (r: bool)
        ensures
            r == (self.current + 1 < self.entries@.len()),
    {
        self.current < self.entries.len() && self.current + 1 < self.entries.len()
    }

    /// Whether the current torrent offers a file selection.
    pub fn has_files(&self) -> (r: bool)
        ensures
            r == (self.current < self.entries@.len() && self.entries@[self.current as int].files@.len() > 0),
    {
        self.current < self.entries.len() && self.entries[self.current].files.len() > 0
    }

    /// The dialog's title.
    pub fn title(&self) -> (r: String)
        ensures
            r@ == add_dialog_title(self.current as nat, self.entries@.len()),
    {
        let total = self.entries.len();
        let mut out = String::new();
        push_char(&mut out, 'A');
        push_char(&mut out, 'd');
        push_char(&mut out, 'd');
        push_char(&mut out, ' ');
        push_char(&mut out, 'T');
        push_char(&mut out, 'o');
        push_char(&mut out, 'r');
        push_char(&mut out, 'r');
        push_char(&mut out, 'e');
        push_char(&mut out, 'n');
        push_char(&mut out, 't');
        if total > 1 {
            push_char(&mut out, ' ');
            push_char(&mut out, '(');
            push_decimal(&mut out, self.current as u128 + 1);
            push_char(&mut out, '/');
            push_decimal(&mut out, total as u128);
            push_char(&mut out, ')');
        }
        proof {
            assert(out@ =~= add_dialog_title(self.current as nat, self.entries@.len()));
        }
        out
    }

    /// The label of the confirm button.
    pub fn add_button_label(&self) -> (r: String)
        ensures
            r@ == (if self.current + 1 < self.entries@.len() {
                "Add & Next"@
            } else {
                "Add Torrent"@
            }),
    {
        if self.has_more() {
            to_string("Add & Next")
        } else {
            to_string("Add Torrent")
        }
    }

    /// The user cancelled.
    pub fn on_cancel(&self) -> (r: AddTorrentDialogEvent)
        ensures
            r is Cancelled,
    {
        AddTorrentDialogEvent::Cancelled
    }

    /// Add the current torrent with `selected` (the file table's selected
    /// indices) and move on: the current entry leaves the queue; once the
    /// queue is empty the dialog reports `Finished`.
    pub fn on_add_current(&mut self, selected: Vec<usize>) -> (r: Vec<AddTorrentDialogEvent>)
        ensures
            final(self).current == old(self).current,
            old(self).current >= old(self).entries@.len() ==> {
                &&& r@.len() == 1
                &&& r@[0] is Finished
                &&& final(self).entries@ == old(self).entries@
            },
            old(self).current < old(self).entries@.len() ==> {
                let e = old(self).entries@[old(self).current as int];
                &&& final(self).entries@ == old(self).entries@.remove(old(self).current as int)
                &&& r@.len() == (if final(self).entries@.len() == 0 { 2int } else { 1int })
                &&& r@[0] matches AddTorrentDialogEvent::AddOne(src, sel) && src == e.source && (
                if e.files@.len() == 0 {
                    sel is None
                } else {
                    sel is Some && sel.unwrap()@ == selected@
                })
                &&& final(self).entries@.len() == 0 ==> r@[1] is Finished
            },
    {
        let mut events: Vec<AddTorrentDialogEvent> = Vec::new();
        if self.current >= self.entries.len() {
            events.push(AddTorrentDialogEvent::Finished);
            return events;
        }
        let entry = self.entries.remove(self.current);
        let selection = if entry.files.len() == 0 { None } else { Some(selected) };
        events.push(AddTorrentDialogEvent::AddOne(entry.source, selection));
        if self.entries.len() == 0 {
            events.push(AddTorrentDialogEvent::Finished);
        }
        events
    }
}

// ---------------------------------------------------------------------------
// Delete
// ---------------------------------------------------------------------------

/// Events emitted by the delete dialog.
#[derive(Clone, Debug)]
pub enum DeleteDialogEvent {
    /// User cancelled.
    Cancelled,
    /// User confirmed deletion with (ids, delete_files).
    Confirmed(Vec<usize>, bool),
}

/// The name shown for a torrent about to be deleted: its name, or
/// "Torrent #id" when it has none.
pub open spec fn display_name_text(id: nat, name: Option<Seq<char>>) -> Seq<char> {
    match name {
        Some(n) => n,
        None => seq!['T', 'o', 'r', 'r', 'e', 'n', 't', ' ', '#'] + dec(id),
    }
}

/// The name shown for a torrent about to be deleted.
pub fn display_name(id: usize, name: Option<String>) -> (r: String)
    ensures
        r@ == display_name_text(id as nat, match name {
            Some(n) => Some(n@),
            None => None,
        }),
{
    match name {
        Some(n) => n,
        None => {
            let mut out = String::new();
            push_str(&mut out, "Torrent #");
            push_decimal(&mut out, id as u128);
            proof {
                reveal_strlit("Torrent #");
                assert(out@ =~= display_name_text(id as nat, None));
            }
            out
        },
    }
}

/// What confirming a deletion does to each torrent.
#[derive(Clone, Copy, Debug, PartialEq, Eq, Structural)]
pub enum RemovalAction {
    /// Remove the torrent and its downloaded data.
    DeleteWithFiles,
    /// Remove the torrent and keep its files.
    Forget,
}

/// Deleting with "Also delete downloaded files" checked removes the data;
/// otherwise the torrent is forgotten and its files kept.
pub fn removal_action(delete_files: bool) -> (r: RemovalAction)
    ensures
        r == (if delete_files {
            RemovalAction::DeleteWithFiles
        } else {
            RemovalAction::Forget
        }),
{
    if delete_files {
        RemovalAction::DeleteWithFiles
    } else {
        RemovalAction::Forget
    }
}

/// Model of the delete confirmation dialog.
pub struct DeleteDialog {
    pub ids: Vec<usize>,
    pub names: Vec<String>,
    pub is_bulk: bool,
    pub delete_files: bool,
}

impl DeleteDialog {
    /// A dialog for `ids` (shown as `names`); deleting files is preselected.
    pub fn new(ids: Vec<usize>, names: Vec<String>) -> (r: Self)
        ensures
            r.ids@ == ids@,
            r.names@ == names@,
            r.is_bulk == (ids@.len() > 1),
            r.delete_files,
    {
        let is_bulk = ids.len() > 1;
        DeleteDialog { ids, names, is_bulk, delete_files: true }
    }

    /// The "also delete downloaded files" checkbox was set.
    pub fn set_delete_files(&mut self, checked: bool)
        ensures
            final(self).delete_files == checked,
            final(self).ids@ == old(self).ids@,
            final(self).names@ == old(self).names@,
            final(self).is_bulk == old(self).is_bulk,
    {
        self.delete_files = checked;
    }

    /// The dialog's title.
    pub fn title(&self) -> (r: String)
        ensures
            r@ == (if self.is_bulk {
                seq!['D', 'e', 'l', 'e', 't', 'e', ' '] + dec(self.ids@.len()) + " torrents"@
            } else {
                "Delete torrent"@
            }),
    {
        if self.is_bulk {
            let mut out = to_string("Delete ");
            push_decimal(&mut out, self.ids.len() as u128);
            push_str(&mut out, " torrents");
            proof {
                reveal_strlit("Delete ");
            }
            out
        } else {
            to_string("Delete torrent")
        }
    }

    /// The question asked.
    pub fn prompt(&self) -> (r: String)
        ensures
            r@ == (if self.is_bulk {
                "Are you sure you want to delete the following torrents?"@
            } else {
                "Are you sure you want to delete this torrent?"@
            }),
    {
        if self.is_bulk {
            to_string("Are you sure you want to delete the following torrents?")
        } else {
            to_string("Are you sure you want to delete this torrent?")
        }
    }

    /// The label of the confirm button.
    pub fn confirm_label(&self) -> (r: String)
        ensures
            r@ == (if self.is_bulk {
                seq!['D', 'e', 'l', 'e', 't', 'e', ' '] + dec(self.ids@.len()) + " Torrents"@
            } else {
                "Delete Torrent"@
            }),
    {
        if self.is_bulk {
            let mut out = to_string("Delete ");
            push_decimal(&mut out, self.ids.len() as u128);
            push_str(&mut out, " Torrents");
            proof {
                reveal_strlit("Delete ");
            }
            out
        } else {
            to_string("Delete Torrent")
        }
    }

    /// The user cancelled.
    pub fn on_cancel(&self) -> (r: DeleteDialogEvent)
        ensures
            r is Cancelled,
    {
        DeleteDialogEvent::Cancelled
    }

    /// The user confirmed: report the ids and whether to delete the files.
    pub fn on_confirm(&self) -> (r: DeleteDialogEvent)
        ensures
            r matches DeleteDialogEvent::Confirmed(ids, files) && ids@ == self.ids@ && files
                == self.delete_files,
    {
        let mut ids: Vec<usize> = Vec::new();
        let mut i: usize = 0;
        while i < self.ids.len()
            invariant
                i <= self.ids@.len(),
                ids@ == self.ids@.take(i as int),
            decreases self.ids@.len() - i,
        {
            ids.push(self.ids[i]);
            i = i + 1;
            assert(ids@ =~= self.ids@.take(i as int));
        }
        assert(self.ids@.take(i as int) =~= self.ids@);
        DeleteDialogEvent::Confirmed(ids, self.delete_files)
    }
}

// ---------------------------------------------------------------------------
// Magnet
// ---------------------------------------------------------------------------

/// Events emitted by the magnet dialog.
#[derive(Clone, Debug)]
pub enum MagnetDialogEvent {
    /// User clicked Cancel.
    Cancelled,
    /// User clicked Add and provided a magnet URL.
    Submitted(String),
}

/// What clicking Add does with the text typed: the trimmed text is
/// submitted, unless it is blank, in which case nothing happens.
pub fn on_magnet_submit(value: &str) -> (r: Option<MagnetDialogEvent>)
    ensures
        trimmed(value@).len() == 0 ==> r is None,
        trimmed(value@).len() > 0 ==> (r matches Some(MagnetDialogEvent::Submitted(m)) && m@ == trimmed(value@)),
{
    let t = str_trim(value);
    if t.is_empty() {
        None
    } else {
        Some(MagnetDialogEvent::Submitted(to_string(t)))
    }
}

} // verus!
