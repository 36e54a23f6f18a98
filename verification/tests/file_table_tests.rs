use desktop_gpui::file_table::{file_cell_text, file_column, FileColumn, FileRow, FileTable};
use desktop_gpui::sort::ColumnSort;

fn file(file_index: usize, name: &str, length: u64, included: bool) -> FileRow {
    FileRow { file_index, name: name.to_string(), length, included }
}

fn files() -> Vec<FileRow> {
    vec![
        file(0, "video.mkv", 700_000_000, true),
        file(1, "Readme.txt", 1_200, false),
        file(2, "cover.jpg", 90_000, true),
        file(3, "subs.srt", 1_200, true),
    ]
}

fn names(t: &FileTable) -> Vec<&str> {
    t.rows.iter().map(|r| r.name.as_str()).collect()
}

#[test]
fn file_columns_by_position() {
    assert_eq!(file_column(0), Some(FileColumn::Included));
    assert_eq!(file_column(1), Some(FileColumn::Name));
    assert_eq!(file_column(2), Some(FileColumn::Size));
    assert_eq!(file_column(3), None);
}

#[test]
fn new_table_sorts_by_name() {
    let mut t = FileTable::new();
    assert_eq!(t.sort_col_ix, Some(1));
    assert_eq!(t.sort_dir, ColumnSort::Ascending);
    t.set_rows(files());
    assert_eq!(names(&t), vec!["Readme.txt", "cover.jpg", "subs.srt", "video.mkv"]);
}

#[test]
fn sort_by_size_is_stable() {
    let mut t = FileTable::new();
    t.set_rows(files());
    t.perform_sort(2, ColumnSort::Ascending);
    assert_eq!(names(&t), vec!["Readme.txt", "subs.srt", "cover.jpg", "video.mkv"]);
    t.perform_sort(2, ColumnSort::Descending);
    assert_eq!(names(&t), vec!["video.mkv", "cover.jpg", "subs.srt", "Readme.txt"]);
    t.perform_sort(2, ColumnSort::Default);
    assert_eq!(names(&t), vec!["Readme.txt", "cover.jpg", "subs.srt", "video.mkv"]);
}

#[test]
fn unknown_column_leaves_order() {
    let mut t = FileTable::new();
    t.rows = files();
    t.perform_sort(9, ColumnSort::Ascending);
    assert_eq!(names(&t), vec!["video.mkv", "Readme.txt", "cover.jpg", "subs.srt"]);
}

#[test]
fn selected_indices_follow_row_order() {
    let mut t = FileTable::new();
    t.rows = files();
    assert_eq!(t.selected_indices(), vec![0, 2, 3]);
    t.perform_sort(1, ColumnSort::Ascending);
    assert_eq!(t.selected_indices(), vec![2, 3, 0]);
}

#[test]
fn sort_keeps_selected_files() {
    let mut t = FileTable::new();
    t.rows = files();
    let mut before = t.selected_indices();
    before.sort();
    for (col, dir) in [(1, ColumnSort::Descending), (2, ColumnSort::Ascending), (0, ColumnSort::Ascending)] {
        t.perform_sort(col, dir);
        let mut after = t.selected_indices();
        after.sort();
        assert_eq!(after, before);
    }
}

#[test]
fn toggling_one_file() {
    let mut t = FileTable::new();
    t.rows = files();
    t.set_included(1, true);
    assert!(t.rows[1].included);
    assert!(t.all_included());
    t.set_included(0, false);
    assert_eq!(t.selected_indices(), vec![1, 2, 3]);
    t.set_included(17, false);
    assert_eq!(t.selected_indices(), vec![1, 2, 3]);
}

#[test]
fn include_all_selects_every_file() {
    let mut t = FileTable::new();
    t.rows = files();
    assert!(!t.all_included());
    t.set_all_included(true);
    assert!(t.all_included());
    assert_eq!(t.selected_indices(), vec![0, 1, 2, 3]);
    t.set_all_included(false);
    assert_eq!(t.selected_indices(), Vec::<usize>::new());
    assert!(!t.all_included());
}

#[test]
fn empty_table_is_not_all_included() {
    let t = FileTable::new();
    assert!(!t.all_included());
    assert_eq!(t.selected_indices(), Vec::<usize>::new());
}

#[test]
fn row_checkbox_flips_inclusion() {
    let mut t = FileTable::new();
    t.rows = files();
    assert_eq!(t.toggle_row(1), Some(true));
    assert!(t.rows[1].included);
    assert_eq!(t.toggle_row(1), Some(false));
    assert!(!t.rows[1].included);
    assert_eq!(t.toggle_row(4), None);
}

#[test]
fn header_checkbox_includes_all_unless_all_are() {
    let mut t = FileTable::new();
    t.rows = files();
    assert!(t.toggle_all_included());
    assert!(t.all_included());
    assert!(!t.toggle_all_included());
    assert_eq!(t.selected_indices(), Vec::<usize>::new());
    assert!(t.toggle_all_included());
    assert_eq!(t.selected_indices(), vec![0, 1, 2, 3]);
}

#[test]
fn file_cells() {
    let f = file(3, "subs.srt", 1536, true);
    assert_eq!(file_cell_text(&f, FileColumn::Name), "subs.srt");
    assert_eq!(file_cell_text(&f, FileColumn::Size), "1.50 KiB");
    assert_eq!(file_cell_text(&f, FileColumn::Included), "");
}
