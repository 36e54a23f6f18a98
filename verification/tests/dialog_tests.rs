use desktop_gpui::dialogs::{
    display_name, entry_from_listing, on_magnet_submit, AddTorrentDialog, AddTorrentDialogEvent,
    AddTorrentEntry, AddTorrentSource, DeleteDialog, DeleteDialogEvent, MagnetDialogEvent,
    removal_action, unresolved_entry, RemovalAction,
};

fn listed(url: &str, name: Option<&str>, files: &[(&str, u64)]) -> AddTorrentEntry {
    entry_from_listing(
        AddTorrentSource::Url(url.to_string()),
        name.map(|n| n.to_string()),
        "abcdef0123".to_string(),
        files.iter().map(|(n, l)| (n.to_string(), *l)).collect(),
    )
}

#[test]
fn listing_becomes_included_rows() {
    let e = listed("magnet:?a", Some("Album"), &[("01.flac", 30), ("02.flac", 40)]);
    assert_eq!(e.name, "Album");
    assert_eq!(e.files.len(), 2);
    assert_eq!(e.files[1].file_index, 1);
    assert_eq!(e.files[1].name, "02.flac");
    assert_eq!(e.files[1].length, 40);
    assert!(e.files.iter().all(|f| f.included));
    let unnamed = listed("magnet:?b", None, &[]);
    assert_eq!(unnamed.name, "abcdef0123");
    assert!(unnamed.files.is_empty());
}

#[test]
fn single_torrent_dialog() {
    let mut d = AddTorrentDialog::new(vec![listed("magnet:?a", Some("A"), &[("f", 1)])]);
    assert_eq!(d.title(), "Add Torrent");
    assert_eq!(d.add_button_label(), "Add Torrent");
    assert_eq!(d.current_name(), "A");
    assert!(!d.has_more());
    assert!(d.has_files());
    let events = d.on_add_current(vec![0]);
    assert_eq!(events.len(), 2);
    match &events[0] {
        AddTorrentDialogEvent::AddOne(AddTorrentSource::Url(u), Some(sel)) => {
            assert_eq!(u, "magnet:?a");
            assert_eq!(sel, &vec![0]);
        }
        other => panic!("unexpected {:?}", other),
    }
    assert!(matches!(events[1], AddTorrentDialogEvent::Finished));
    assert!(d.entries.is_empty());
}

#[test]
fn queue_of_torrents_steps_through() {
    let mut d = AddTorrentDialog::new(vec![
        listed("magnet:?a", Some("A"), &[("f", 1)]),
        listed("magnet:?b", Some("B"), &[]),
        listed("magnet:?c", Some("C"), &[("g", 2)]),
    ]);
    assert_eq!(d.title(), "Add Torrent (1/3)");
    assert_eq!(d.add_button_label(), "Add & Next");
    assert!(d.has_more());
    let ev = d.on_add_current(vec![]);
    assert_eq!(ev.len(), 1);
    assert!(matches!(&ev[0], AddTorrentDialogEvent::AddOne(_, Some(sel)) if sel.is_empty()));
    assert_eq!(d.title(), "Add Torrent (1/2)");
    assert_eq!(d.current_name(), "B");
    assert!(!d.has_files());
    // No file list: add all files.
    let ev = d.on_add_current(vec![3]);
    assert!(matches!(&ev[0], AddTorrentDialogEvent::AddOne(_, None)));
    assert_eq!(d.title(), "Add Torrent");
    assert_eq!(d.add_button_label(), "Add Torrent");
    assert_eq!(d.current_files().len(), 1);
    let ev = d.on_add_current(vec![0]);
    assert_eq!(ev.len(), 2);
    assert!(matches!(ev[1], AddTorrentDialogEvent::Finished));
}

#[test]
fn empty_dialog_finishes() {
    let mut d = AddTorrentDialog::new(vec![]);
    assert_eq!(d.current_name(), "");
    assert!(d.current_files().is_empty());
    let ev = d.on_add_current(vec![]);
    assert_eq!(ev.len(), 1);
    assert!(matches!(ev[0], AddTorrentDialogEvent::Finished));
    assert!(matches!(d.on_cancel(), AddTorrentDialogEvent::Cancelled));
}

#[test]
fn bytes_source_is_kept() {
    let e = entry_from_listing(
        AddTorrentSource::Bytes(vec![1, 2, 3]),
        Some("t".to_string()),
        "h".to_string(),
        vec![],
    );
    let mut d = AddTorrentDialog::new(vec![e]);
    let ev = d.on_add_current(vec![]);
    assert!(matches!(&ev[0], AddTorrentDialogEvent::AddOne(AddTorrentSource::Bytes(b), None) if b == &vec![1, 2, 3]));
}

#[test]
fn delete_single_torrent() {
    let d = DeleteDialog::new(vec![5], vec!["Ubuntu".to_string()]);
    assert!(!d.is_bulk);
    assert!(d.delete_files);
    assert_eq!(d.title(), "Delete torrent");
    assert_eq!(d.prompt(), "Are you sure you want to delete this torrent?");
    assert_eq!(d.confirm_label(), "Delete Torrent");
    match d.on_confirm() {
        DeleteDialogEvent::Confirmed(ids, files) => {
            assert_eq!(ids, vec![5]);
            assert!(files);
        }
        other => panic!("unexpected {:?}", other),
    }
    assert!(matches!(d.on_cancel(), DeleteDialogEvent::Cancelled));
}

#[test]
fn delete_several_torrents_keeping_files() {
    let mut d = DeleteDialog::new(vec![1, 2, 3], vec!["a".into(), "b".into(), "c".into()]);
    assert!(d.is_bulk);
    assert_eq!(d.title(), "Delete 3 torrents");
    assert_eq!(d.prompt(), "Are you sure you want to delete the following torrents?");
    assert_eq!(d.confirm_label(), "Delete 3 Torrents");
    d.set_delete_files(false);
    match d.on_confirm() {
        DeleteDialogEvent::Confirmed(ids, files) => {
            assert_eq!(ids, vec![1, 2, 3]);
            assert!(!files);
        }
        other => panic!("unexpected {:?}", other),
    }
}

#[test]
fn torrent_display_names() {
    assert_eq!(display_name(7, Some("Debian".to_string())), "Debian");
    assert_eq!(display_name(7, None), "Torrent #7");
    assert_eq!(display_name(0, None), "Torrent #0");
}

#[test]
fn magnet_submit_trims() {
    match on_magnet_submit("  magnet:?xt=urn:btih:1234\n") {
        Some(MagnetDialogEvent::Submitted(m)) => assert_eq!(m, "magnet:?xt=urn:btih:1234"),
        other => panic!("unexpected {:?}", other),
    }
    assert!(on_magnet_submit("   ").is_none());
    assert!(on_magnet_submit("").is_none());
}

#[test]
fn unresolved_torrents_are_added_whole() {
    let e = unresolved_entry(AddTorrentSource::Url("magnet:?xt=urn:btih:ab".to_string()));
    assert_eq!(e.name, "magnet:?xt=urn:btih:ab");
    assert!(e.files.is_empty());
    let f = unresolved_entry(AddTorrentSource::Bytes(vec![1]));
    assert_eq!(f.name, "");
    let mut d = AddTorrentDialog::new(vec![e]);
    assert!(!d.has_files());
    let ev = d.on_add_current(vec![]);
    assert!(matches!(&ev[0], AddTorrentDialogEvent::AddOne(_, None)));
}

#[test]
fn deletion_keeps_or_removes_files() {
    assert_eq!(removal_action(true), RemovalAction::DeleteWithFiles);
    assert_eq!(removal_action(false), RemovalAction::Forget);
}
