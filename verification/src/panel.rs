//! Decisions of the main window and of the torrent detail panel: when the
//! detail panel opens or switches, when the list refreshes, which tab shows,
//! and the texts of the overview, the trackers tab and the footer.
use vstd::prelude::*;
use crate::file_table::FileRow;
use crate::format::{bytes_text, format_bytes, format_uptime, uptime_text};
use crate::text::{dec, push_char, push_decimal, push_str, to_string};

verus! {

// ---------------------------------------------------------------------------
// Main window
// ---------------------------------------------------------------------------

/// What selecting a row asks of the main window.
#[derive(Clone, Copy, Debug, PartialEq, Eq, Structural)]
pub enum SelectRowAction {
    /// No torrent at that row: nothing to do.
    Ignore,
    /// The detail panel is open: show this torrent in it.
    SwitchDetail(usize),
    /// Open the detail panel for this torrent at the next render.
    OpenDetailLater(usize),
}

/// One round of the periodic refresh.
#[derive(Clone, Copy, Debug, PartialEq, Eq, Structural)]
pub struct PollStep {
    /// Whether to refresh the torrent list now.
    pub refresh_list: bool,
    /// Seconds to wait before the next round.
    pub wait_secs: u64,
}

/// The main window's state that its decisions depend on.
pub struct MainPanelState {
    /// The torrent shown by the open detail panel (None: closed).
    pub detail_torrent: Option<usize>,
    /// Torrent waiting for its detail panel (created when a render comes).
    pub pending_detail_id: Option<usize>,
    /// Whether the window is active (focused).
    pub window_active: bool,
}

impl MainPanelState {
    /// A window that is active, with no detail panel.
    pub fn new() -> (r: Self)
        ensures
            r.detail_torrent is None,
            r.pending_detail_id is None,
            r.window_active,
    {
        MainPanelState { detail_torrent: None, pending_detail_id: None, window_active: true }
    }

    /// A row holding torrent `torrent_id` (None: no such row) was selected.
    pub fn on_select_row(&mut self, torrent_id: Option<usize>) -> (r: SelectRowAction)
        ensures
            final(self).window_active == old(self).window_active,
            match torrent_id {
                None => r == SelectRowAction::Ignore && *final(self) == *old(self),
                Some(id) => if old(self).detail_torrent is Some {
                    &&& r == SelectRowAction::SwitchDetail(id)
                    &&& final(self).detail_torrent == Some(id)
                    &&& final(self).pending_detail_id == old(self).pending_detail_id
                } else {
                    &&& r == SelectRowAction::OpenDetailLater(id)
                    &&& final(self).detail_torrent == old(self).detail_torrent
                    &&& final(self).pending_detail_id == Some(id)
                },
            },
    {
        match torrent_id {
            None => SelectRowAction::Ignore,
            Some(id) => {
                if self.detail_torrent.is_some() {
                    self.detail_torrent = Some(id);
                    SelectRowAction::SwitchDetail(id)
                } else {
                    self.pending_detail_id = Some(id);
                    SelectRowAction::OpenDetailLater(id)
                }
            },
        }
    }

    /// At render: the torrent whose detail panel is to be created now, if
    /// any; the panel then shows it.
    pub fn take_pending_detail(&mut self) -> (r: Option<usize>)
        ensures
            r == old(self).pending_detail_id,
            final(self).pending_detail_id is None,
            final(self).window_active == old(self).window_active,
            final(self).detail_torrent == (match r {
                Some(id) => Some(id),
                None => old(self).detail_torrent,
            }),
    {
        let r = self.pending_detail_id;
        self.pending_detail_id = None;
        if let Some(id) = r {
            self.detail_torrent = Some(id);
        }
        r
    }

    /// The detail panel was closed.
    pub fn close_details(&mut self)
        ensures
            final(self).detail_torrent is None,
            final(self).pending_detail_id == old(self).pending_detail_id,
            final(self).window_active == old(self).window_active,
    {
        self.detail_torrent = None;
    }

    /// The window's activation changed to `active`; the result says whether
    /// to refresh right away (it just became active again).
    pub fn on_window_activation(&mut self, active: bool) -> (refresh_now: bool)
        ensures
            final(self).window_active == active,
            final(self).detail_torrent == old(self).detail_torrent,
            final(self).pending_detail_id == old(self).pending_detail_id,
            refresh_now == (active && !old(self).window_active),
    {
        let was_active = self.window_active;
        self.window_active = active;
        active && !was_active
    }

    /// The next round of periodic polling: the list is refreshed every second
    /// while the window is active, and only every 30 seconds otherwise.
    pub fn poll_step(&self) -> (r: PollStep)
        ensures
            r == (if self.window_active {
                PollStep { refresh_list: true, wait_secs: 1 }
            } else {
                PollStep { refresh_list: false, wait_secs: 30 }
            }),
    {
        if self.window_active {
            PollStep { refresh_list: true, wait_secs: 1 }
        } else {
            PollStep { refresh_list: false, wait_secs: 30 }
        }
    }
}

// ---------------------------------------------------------------------------
// Detail panel
// ---------------------------------------------------------------------------

/// Which tab is active in the detail panel.
#[derive(Clone, Copy, Debug, PartialEq, Eq, Structural)]
pub enum DetailTab {
    Overview,
    Trackers,
    Peers,
    Files,
}

/// Position of a tab in the tab bar.
pub open spec fn tab_index_spec(tab: DetailTab) -> nat {
    match tab {
        DetailTab::Overview => 0,
        DetailTab::Trackers => 1,
        DetailTab::Peers => 2,
        DetailTab::Files => 3,
    }
}

/// Position of a tab in the tab bar.
pub fn tab_index(tab: DetailTab) -> (r: usize)
    ensures
        r == tab_index_spec(tab),
{
    match tab {
        DetailTab::Overview => 0,
        DetailTab::Trackers => 1,
        DetailTab::Peers => 2,
        DetailTab::Files => 3,
    }
}

/// The tab clicked at position `ix`; anything unknown shows the overview.
pub fn tab_from_index(ix: usize) -> (r: DetailTab)
    ensures
        ix < 4 ==> tab_index_spec(r) == ix,
        ix >= 4 ==> r == DetailTab::Overview,
{
    if ix == 0 {
        DetailTab::Overview
    } else if ix == 1 {
        DetailTab::Trackers
    } else if ix == 2 {
        DetailTab::Peers
    } else if ix == 3 {
        DetailTab::Files
    } else {
        DetailTab::Overview
    }
}

/// Clicking a tab's own position selects that same tab.
pub proof fn law_tab_position_round_trip(tab: DetailTab, ix: usize, back: DetailTab)
    requires
        ix == tab_index_spec(tab),
        ix < 4 ==> tab_index_spec(back) == ix,
    ensures
        back == tab,
{
}

/// Model of the panel that shows one torrent in detail.
pub struct TorrentDetailPanel {
    pub torrent_id: usize,
    pub active_tab: DetailTab,
}

impl TorrentDetailPanel {
    /// A panel for `torrent_id`, on the overview tab.
    pub fn new(torrent_id: usize) -> (r: Self)
        ensures
            r.torrent_id == torrent_id,
            r.active_tab == DetailTab::Overview,
    {
        TorrentDetailPanel { torrent_id, active_tab: DetailTab::Overview }
    }

    /// Show `torrent_id` instead. The result says whether the shown data must
    /// be dropped and fetched again (not when it is the same torrent).
    pub fn switch_torrent(&mut self, torrent_id: usize) -> (refetch: bool)
        ensures
            final(self).torrent_id == torrent_id,
            final(self).active_tab == old(self).active_tab,
            refetch == (torrent_id != old(self).torrent_id),
    {
        if self.torrent_id == torrent_id {
            return false;
        }
        self.torrent_id = torrent_id;
        true
    }

    /// A tab was clicked at position `ix`.
    pub fn select_tab(&mut self, ix: usize)
        ensures
            final(self).torrent_id == old(self).torrent_id,
            ix < 4 ==> tab_index_spec(final(self).active_tab) == ix,
            ix >= 4 ==> final(self).active_tab == DetailTab::Overview,
    {
        self.active_tab = tab_from_index(ix);
    }
}

/// The fields of a torrent's details that the overview shows.
pub struct DetailsSummary {
    pub name: Option<String>,
    pub info_hash: String,
    pub output_folder: String,
    pub total_pieces: u32,
}

/// The fields of a torrent's statistics that the overview shows as text.
pub struct StatsSummary {
    pub state: String,
    pub progress_bytes: u64,
    pub uploaded_bytes: u64,
    pub total_bytes: u64,
    pub error: Option<String>,
}

/// The overview's texts (those that do not depend on live speeds).
pub struct OverviewText {
    pub name: String,
    pub info_hash: String,
    pub output_folder: String,
    pub total_pieces: String,
    pub state: String,
    pub downloaded: String,
    pub uploaded: String,
    pub total_size: String,
    pub error: String,
}

/// The overview's texts: placeholders ("Loading…", "unknown", "N/A") stand
/// in for what has not been fetched.
pub fn overview_text(details: &Option<DetailsSummary>, stats: &Option<StatsSummary>) -> (r: OverviewText)
    ensures
        r.name@ == (match details {
            Some(d) => match d.name {
                Some(n) => n@,
                None => "Loading…"@,
            },
            None => "Loading…"@,
        }),
        r.info_hash@ == (match details {
            Some(d) => d.info_hash@,
            None => Seq::<char>::empty(),
        }),
        r.output_folder@ == (match details {
            Some(d) => d.output_folder@,
            None => Seq::<char>::empty(),
        }),
        r.total_pieces@ == (match details {
            Some(d) => dec(d.total_pieces as nat),
            None => dec(0),
        }),
        r.state@ == (match stats {
            Some(s) => s.state@,
            None => "unknown"@,
        }),
        r.downloaded@ == (match stats {
            Some(s) => bytes_text(s.progress_bytes as nat),
            None => "N/A"@,
        }),
        r.uploaded@ == (match stats {
            Some(s) => bytes_text(s.uploaded_bytes as nat),
            None => "N/A"@,
        }),
        r.total_size@ == (match stats {
            Some(s) => bytes_text(s.total_bytes as nat),
            None => "N/A"@,
        }),
        r.error@ == (match stats {
            Some(s) => match s.error {
                Some(e) => e@,
                None => Seq::<char>::empty(),
            },
            None => Seq::<char>::empty(),
        }),
{
    let (name, info_hash, output_folder, pieces) = match details {
        Some(d) => (
            match &d.name {
                Some(n) => n.clone(),
                None => to_string("Loading…"),
            },
            d.info_hash.clone(),
            d.output_folder.clone(),
            d.total_pieces,
        ),
        None => (to_string("Loading…"), String::new(), String::new(), 0u32),
    };
    let mut total_pieces = String::new();
    push_decimal(&mut total_pieces, pieces as u128);
    let (state, downloaded, uploaded, total_size, error) = match stats {
        Some(s) => (
            s.state.clone(),
            format_bytes(s.progress_bytes),
            format_bytes(s.uploaded_bytes),
            format_bytes(s.total_bytes),
            match &s.error {
                Some(e) => e.clone(),
                None => String::new(),
            },
        ),
        None => (
            to_string("unknown"),
            to_string("N/A"),
            to_string("N/A"),
            to_string("N/A"),
            String::new(),
        ),
    };
    OverviewText {
        name,
        info_hash,
        output_folder,
        total_pieces,
        state,
        downloaded,
        uploaded,
        total_size,
        error,
    }
}

/// The heading of the trackers tab: "Trackers (n)".
pub fn trackers_title(count: usize) -> (r: String)
    ensures
        r@ == seq!['T', 'r', 'a', 'c', 'k', 'e', 'r', 's', ' ', '('] + dec(count as nat) + seq![')'],
{
    let mut out = String::new();
    push_str(&mut out, "Trackers (");
    push_decimal(&mut out, count as u128);
    push_char(&mut out, ')');
    proof {
        reveal_strlit("Trackers (");
        assert(out@ =~= seq!['T', 'r', 'a', 'c', 'k', 'e', 'r', 's', ' ', '('] + dec(count as nat) + seq![')']);
    }
    out
}

// ---------------------------------------------------------------------------
// Footer
// ---------------------------------------------------------------------------

/// Session-wide figures for the footer; the speeds come already written.
pub struct FooterStats {
    pub download_speed: String,
    pub upload_speed: String,
    pub fetched_bytes: u64,
    pub uploaded_bytes: u64,
    pub uptime_seconds: u64,
}

/// The footer's texts: speeds, transferred totals (in parentheses) and
/// uptime.
pub struct FooterText {
    pub down_speed: String,
    pub up_speed: String,
    pub fetched: String,
    pub uploaded: String,
    pub uptime: String,
}

/// The footer's texts; before the first statistics arrive every field shows
/// a dash.
pub fn footer_text(stats: &Option<FooterStats>) -> (r: FooterText)
    ensures
        match stats {
            Some(s) => {
                &&& r.down_speed@ == s.download_speed@
                &&& r.up_speed@ == s.upload_speed@
                &&& r.fetched@ == seq!['('] + bytes_text(s.fetched_bytes as nat) + seq![')']
                &&& r.uploaded@ == seq!['('] + bytes_text(s.uploaded_bytes as nat) + seq![')']
                &&& r.uptime@ == uptime_text(s.uptime_seconds as nat)
            },
            None => {
                &&& r.down_speed@ == seq!['—']
                &&& r.up_speed@ == seq!['—']
                &&& r.fetched@ == seq!['(', '—', ')']
                &&& r.uploaded@ == seq!['(', '—', ')']
                &&& r.uptime@ == seq!['—']
            },
        },
{
    match stats {
        Some(s) => {
            let mut fetched = String::new();
            push_char(&mut fetched, '(');
            let fb = format_bytes(s.fetched_bytes);
            push_str(&mut fetched, fb.as_str());
            push_char(&mut fetched, ')');
            let mut uploaded = String::new();
            push_char(&mut uploaded, '(');
            let ub = format_bytes(s.uploaded_bytes);
            push_str(&mut uploaded, ub.as_str());
            push_char(&mut uploaded, ')');
            proof {
                assert(fetched@ =~= seq!['('] + bytes_text(s.fetched_bytes as nat) + seq![')']);
                assert(uploaded@ =~= seq!['('] + bytes_text(s.uploaded_bytes as nat) + seq![')']);
            }
            FooterText {
                down_speed: s.download_speed.clone(),
                up_speed: s.upload_speed.clone(),
                fetched,
                uploaded,
                uptime: format_uptime(s.uptime_seconds),
            }
        },
        None => {
            let mut dash = String::new();
            push_char(&mut dash, '—');
            let mut d1 = String::new();
            push_char(&mut d1, '—');
            let mut d2 = String::new();
            push_char(&mut d2, '—');
            let mut p1 = String::new();
            push_char(&mut p1, '(');
            push_char(&mut p1, '—');
            push_char(&mut p1, ')');
            let mut p2 = String::new();
            push_char(&mut p2, '(');
            push_char(&mut p2, '—');
            push_char(&mut p2, ')');
            proof {
                assert(p1@ =~= seq!['(', '—', ')']);
                assert(p2@ =~= seq!['(', '—', ')']);
                assert(dash@ =~= seq!['—']);
                assert(d1@ =~= seq!['—']);
                assert(d2@ =~= seq!['—']);
            }
            FooterText { down_speed: dash, up_speed: d1, fetched: p1, uploaded: p2, uptime: d2 }
        },
    }
}

} // verus!

verus! {

// ---------------------------------------------------------------------------
// Peers tab
// ---------------------------------------------------------------------------

/// One peer of a torrent, as the peers tab lists it.
#[derive(Clone, Debug)]
pub struct PeerRow {
    pub address: String,
    pub state: String,
    pub client: String,
    pub conn_kind: String,
    pub downloaded: u64,
    pub uploaded: u64,
}

/// The row of a peer; an unknown client or connection kind shows empty.
pub fn peer_row(
    address: String,
    state: String,
    client: Option<String>,
    conn_kind: Option<String>,
    downloaded: u64,
    uploaded: u64,
) -> (r: PeerRow)
    ensures
        r.address == address,
        r.state == state,
        r.client@ == (match client {
            Some(c) => c@,
            None => Seq::<char>::empty(),
        }),
        r.conn_kind@ == (match conn_kind {
            Some(k) => k@,
            None => Seq::<char>::empty(),
        }),
        r.downloaded == downloaded,
        r.uploaded == uploaded,
{
    PeerRow {
        address,
        state,
        client: match client {
            Some(c) => c,
            None => String::new(),
        },
        conn_kind: match conn_kind {
            Some(k) => k,
            None => String::new(),
        },
        downloaded,
        uploaded,
    }
}

/// The columns of the peers tab, left to right.
#[derive(Clone, Copy, Debug, PartialEq, Eq, Structural)]
pub enum PeerColumn {
    Address,
    State,
    Client,
    Connection,
    Downloaded,
    Uploaded,
}

/// The peers tab's column at position `ix`, if there is one.
pub fn peer_column(ix: usize) -> (r: Option<PeerColumn>)
    ensures
        r == (if ix == 0 {
            Some(PeerColumn::Address)
        } else if ix == 1 {
            Some(PeerColumn::State)
        } else if ix == 2 {
            Some(PeerColumn::Client)
        } else if ix == 3 {
            Some(PeerColumn::Connection)
        } else if ix == 4 {
            Some(PeerColumn::Downloaded)
        } else if ix == 5 {
            Some(PeerColumn::Uploaded)
        } else {
            None::<PeerColumn>
        }),
{
    if ix == 0 {
        Some(PeerColumn::Address)
    } else if ix == 1 {
        Some(PeerColumn::State)
    } else if ix == 2 {
        Some(PeerColumn::Client)
    } else if ix == 3 {
        Some(PeerColumn::Connection)
    } else if ix == 4 {
        Some(PeerColumn::Downloaded)
    } else if ix == 5 {
        Some(PeerColumn::Uploaded)
    } else {
        None
    }
}

/// The text of a peer row's cell; byte counters as `format_bytes` renders
/// them.
pub fn peer_cell_text(row: &PeerRow, col: PeerColumn) -> (r: String)
    ensures
        r@ == (match col {
            PeerColumn::Address => row.address@,
            PeerColumn::State => row.state@,
            PeerColumn::Client => row.client@,
            PeerColumn::Connection => row.conn_kind@,
            PeerColumn::Downloaded => bytes_text(row.downloaded as nat),
            PeerColumn::Uploaded => bytes_text(row.uploaded as nat),
        }),
{
    match col {
        PeerColumn::Address => to_string(row.address.as_str()),
        PeerColumn::State => to_string(row.state.as_str()),
        PeerColumn::Client => to_string(row.client.as_str()),
        PeerColumn::Connection => to_string(row.conn_kind.as_str()),
        PeerColumn::Downloaded => format_bytes(row.downloaded),
        PeerColumn::Uploaded => format_bytes(row.uploaded),
    }
}

// ---------------------------------------------------------------------------
// What a detail fetch brings
// ---------------------------------------------------------------------------

/// The file rows of a torrent's details: one per file, in listing order,
/// with the file's inclusion as the session reports it.
pub open spec fn detail_rows(files: Seq<(String, u64, bool)>) -> Seq<FileRow> {
    Seq::new(
        files.len(),
        |i: int| FileRow { file_index: i as usize, name: files[i].0, length: files[i].1, included: files[i].2 },
    )
}

/// The file rows of a torrent's details (name, length, included each).
pub fn detail_file_rows(files: Vec<(String, u64, bool)>) -> (r: Vec<FileRow>)
    ensures
        r@ == detail_rows(files@),
{
    let mut rows: Vec<FileRow> = Vec::new();
    let mut src = files;
    let ghost all = src@;
    assert(all.len() == src.len());
    let mut i: usize = 0;
    while src.len() > 0
        invariant
            i <= all.len(),
            i + src@.len() == all.len(),
            all.len() <= usize::MAX,
            src@ == all.skip(i as int),
            rows@ == detail_rows(all.take(i as int)),
        decreases src@.len(),
    {
        let (name, length, included) = src.remove(0);
        rows.push(FileRow { file_index: i, name, length, included });
        proof {
            assert(detail_rows(all.take(i + 1)) =~= detail_rows(all.take(i as int)).push(
                FileRow { file_index: i, name: all[i as int].0, length: all[i as int].1, included: all[i as int].2 },
            ));
        }
        i = i + 1;
        proof {
            assert(src@ =~= all.skip(i as int));
        }
    }
    assert(all.take(i as int) =~= all);
    rows
}

/// What the detail panel holds of its torrent: the session's details `D`,
/// statistics `S` and peer statistics `P` (each `None` until, or unless,
/// it came), the trackers, and the rows of its files and peers tables.
pub struct DetailData<D, S, P> {
    pub details: Option<D>,
    pub stats: Option<S>,
    pub trackers: Vec<String>,
    pub peer_stats: Option<P>,
    pub files: Vec<FileRow>,
    pub peers: Vec<PeerRow>,
}

impl<D, S, P> DetailData<D, S, P> {
    /// Nothing fetched yet.
    pub fn new() -> (r: Self)
        ensures
            r.details is None,
            r.stats is None,
            r.trackers@.len() == 0,
            r.peer_stats is None,
            r.files@.len() == 0,
            r.peers@.len() == 0,
    {
        DetailData {
            details: None,
            stats: None,
            trackers: Vec::new(),
            peer_stats: None,
            files: Vec::new(),
            peers: Vec::new(),
        }
    }

    /// The panel switched to another torrent: what was fetched for the old
    /// one is dropped; the tables keep their rows until the next fetch.
    pub fn clear(&mut self)
        ensures
            final(self).details is None,
            final(self).stats is None,
            final(self).trackers@.len() == 0,
            final(self).peer_stats is None,
            final(self).files@ == old(self).files@,
            final(self).peers@ == old(self).peers@,
    {
        self.details = None;
        self.stats = None;
        self.trackers = Vec::new();
        self.peer_stats = None;
    }

    /// Takes the answers of a fetch. Each of the details, statistics and
    /// peer statistics is replaced by its answer, `None` when that request
    /// failed; the trackers by the list, empty when it could not be had. The
    /// files table takes the details' files (`files` is `Some` exactly when
    /// the details came) and the peers table the peers (`Some` exactly when
    /// the peer statistics came); a table whose answer failed keeps its rows.
    pub fn apply_fetch(
        &mut self,
        details: Option<D>,
        files: Option<Vec<(String, u64, bool)>>,
        stats: Option<S>,
        trackers: Option<Vec<String>>,
        peer_stats: Option<P>,
        peers: Option<Vec<PeerRow>>,
    )
        ensures
            final(self).details == details,
            final(self).stats == stats,
            final(self).trackers@ == (match trackers {
                Some(t) => t@,
                None => Seq::<String>::empty(),
            }),
            final(self).peer_stats == peer_stats,
            final(self).files@ == (match files {
                Some(f) => detail_rows(f@),
                None => old(self).files@,
            }),
            final(self).peers@ == (match peers {
                Some(p) => p@,
                None => old(self).peers@,
            }),
    {
        if let Some(f) = files {
            self.files = detail_file_rows(f);
        }
        if let Some(p) = peers {
            self.peers = p;
        }
        self.details = details;
        self.stats = stats;
        self.trackers = match trackers {
            Some(t) => t,
            None => Vec::new(),
        };
        self.peer_stats = peer_stats;
    }
}

} // verus!
