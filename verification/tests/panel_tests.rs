use desktop_gpui::panel::{
    detail_file_rows, footer_text, overview_text, peer_cell_text, DetailData, peer_column, peer_row, tab_from_index, tab_index,
    trackers_title, DetailTab, PeerColumn,
    DetailsSummary, FooterStats, MainPanelState, PollStep, SelectRowAction, StatsSummary,
    TorrentDetailPanel,
};

#[test]
fn selecting_a_row_opens_then_switches_details() {
    let mut s = MainPanelState::new();
    assert_eq!(s.on_select_row(None), SelectRowAction::Ignore);
    assert_eq!(s.on_select_row(Some(4)), SelectRowAction::OpenDetailLater(4));
    assert_eq!(s.detail_torrent, None);
    assert_eq!(s.take_pending_detail(), Some(4));
    assert_eq!(s.detail_torrent, Some(4));
    assert_eq!(s.take_pending_detail(), None);
    assert_eq!(s.on_select_row(Some(9)), SelectRowAction::SwitchDetail(9));
    assert_eq!(s.detail_torrent, Some(9));
    s.close_details();
    assert_eq!(s.detail_torrent, None);
    assert_eq!(s.on_select_row(Some(2)), SelectRowAction::OpenDetailLater(2));
}

#[test]
fn polling_slows_down_in_the_background() {
    let mut s = MainPanelState::new();
    assert_eq!(s.poll_step(), PollStep { refresh_list: true, wait_secs: 1 });
    assert!(!s.on_window_activation(false));
    assert_eq!(s.poll_step(), PollStep { refresh_list: false, wait_secs: 30 });
    assert!(!s.on_window_activation(false));
    assert!(s.on_window_activation(true));
    assert!(!s.on_window_activation(true));
    assert_eq!(s.poll_step(), PollStep { refresh_list: true, wait_secs: 1 });
}

#[test]
fn tab_position_round_trip() {
    for tab in [DetailTab::Overview, DetailTab::Trackers, DetailTab::Peers, DetailTab::Files] {
        assert_eq!(tab_from_index(tab_index(tab)), tab);
    }
    assert_eq!(tab_index(DetailTab::Peers), 2);
    assert_eq!(tab_from_index(3), DetailTab::Files);
    assert_eq!(tab_from_index(4), DetailTab::Overview);
}

#[test]
fn detail_panel_switches_and_selects_tabs() {
    let mut p = TorrentDetailPanel::new(1);
    assert_eq!(p.active_tab, DetailTab::Overview);
    p.select_tab(1);
    assert_eq!(p.active_tab, DetailTab::Trackers);
    assert!(!p.switch_torrent(1));
    assert!(p.switch_torrent(2));
    assert_eq!(p.torrent_id, 2);
    assert_eq!(p.active_tab, DetailTab::Trackers);
    p.select_tab(12);
    assert_eq!(p.active_tab, DetailTab::Overview);
}

#[test]
fn overview_placeholders_while_loading() {
    let o = overview_text(&None, &None);
    assert_eq!(o.name, "Loading…");
    assert_eq!(o.info_hash, "");
    assert_eq!(o.total_pieces, "0");
    assert_eq!(o.state, "unknown");
    assert_eq!(o.downloaded, "N/A");
    assert_eq!(o.uploaded, "N/A");
    assert_eq!(o.total_size, "N/A");
    assert_eq!(o.error, "");
}

#[test]
fn overview_with_details_and_stats() {
    let details = DetailsSummary {
        name: None,
        info_hash: "c9e15763".to_string(),
        output_folder: "/dl".to_string(),
        total_pieces: 1024,
    };
    let stats = StatsSummary {
        state: "live".to_string(),
        progress_bytes: 1536,
        uploaded_bytes: 0,
        total_bytes: 1048576,
        error: Some("disk full".to_string()),
    };
    let o = overview_text(&Some(details), &Some(stats));
    assert_eq!(o.name, "Loading…");
    assert_eq!(o.info_hash, "c9e15763");
    assert_eq!(o.output_folder, "/dl");
    assert_eq!(o.total_pieces, "1024");
    assert_eq!(o.state, "live");
    assert_eq!(o.downloaded, "1.50 KiB");
    assert_eq!(o.uploaded, "0 B");
    assert_eq!(o.total_size, "1.00 MiB");
    assert_eq!(o.error, "disk full");
}

#[test]
fn trackers_tab_title() {
    assert_eq!(trackers_title(0), "Trackers (0)");
    assert_eq!(trackers_title(12), "Trackers (12)");
}

#[test]
fn footer_texts() {
    let none = footer_text(&None);
    assert_eq!(none.down_speed, "—");
    assert_eq!(none.fetched, "(—)");
    assert_eq!(none.uptime, "—");
    let s = FooterStats {
        download_speed: "1.00 MiB/s".to_string(),
        upload_speed: "0 B/s".to_string(),
        fetched_bytes: 2048,
        uploaded_bytes: 5,
        uptime_seconds: 3725,
    };
    let t = footer_text(&Some(s));
    assert_eq!(t.down_speed, "1.00 MiB/s");
    assert_eq!(t.up_speed, "0 B/s");
    assert_eq!(t.fetched, "(2.00 KiB)");
    assert_eq!(t.uploaded, "(5 B)");
    assert_eq!(t.uptime, "1h 2m 5s");
}

#[test]
fn peer_rows_and_cells() {
    let p = peer_row(
        "10.0.0.2:6881".to_string(),
        "live".to_string(),
        None,
        Some("tcp".to_string()),
        1048576,
        10,
    );
    assert_eq!(p.client, "");
    assert_eq!(p.conn_kind, "tcp");
    assert_eq!(peer_column(0), Some(PeerColumn::Address));
    assert_eq!(peer_column(5), Some(PeerColumn::Uploaded));
    assert_eq!(peer_column(6), None);
    assert_eq!(peer_cell_text(&p, PeerColumn::Address), "10.0.0.2:6881");
    assert_eq!(peer_cell_text(&p, PeerColumn::Downloaded), "1.00 MiB");
    assert_eq!(peer_cell_text(&p, PeerColumn::Uploaded), "10 B");
    assert_eq!(peer_cell_text(&p, PeerColumn::Client), "");
    let q = peer_row("a".into(), "s".into(), Some("qBittorrent".into()), None, 0, 0);
    assert_eq!(peer_cell_text(&q, PeerColumn::Client), "qBittorrent");
    assert_eq!(peer_cell_text(&q, PeerColumn::Connection), "");
}

#[test]
fn detail_files_become_rows() {
    let rows = detail_file_rows(vec![("a.mkv".to_string(), 10, true), ("b.srt".to_string(), 2, false)]);
    assert_eq!(rows.len(), 2);
    assert_eq!((rows[1].file_index, rows[1].name.as_str(), rows[1].length, rows[1].included), (1, "b.srt", 2, false));
    assert_eq!(rows[0].file_index, 0);
}

#[test]
fn detail_fetch_updates_what_came() {
    let mut d: DetailData<&str, u32, bool> = DetailData::new();
    d.apply_fetch(
        Some("details"),
        Some(vec![("f".to_string(), 1, true)]),
        Some(7),
        Some(vec!["udp://t".to_string()]),
        Some(true),
        Some(vec![peer_row("1.2.3.4:1".into(), "live".into(), None, None, 0, 0)]),
    );
    assert_eq!(d.files.len(), 1);
    assert_eq!(d.peers.len(), 1);
    assert_eq!(d.trackers, vec!["udp://t".to_string()]);
    // Every request failed: answers are dropped, the tables keep their rows.
    d.apply_fetch(None, None, None, None, None, None);
    assert_eq!(d.details, None);
    assert_eq!(d.stats, None);
    assert!(d.trackers.is_empty());
    assert_eq!(d.peer_stats, None);
    assert_eq!(d.files.len(), 1);
    assert_eq!(d.peers.len(), 1);
    d.apply_fetch(Some("again"), Some(vec![]), None, None, None, None);
    assert!(d.files.is_empty());
    d.clear();
    assert_eq!(d.details, None);
    assert_eq!(d.peers.len(), 1);
}
