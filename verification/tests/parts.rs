use deck::br_tasks::BrTaskInfo;
use deck::history::InputHistory;
use deck::preview::FilePreview;

#[test]
fn empty_history() {
    let mut h = InputHistory::new();
    assert!(h.up().is_none());
    assert!(h.down().is_none());
}

#[test]
fn push_and_recall() {
    let mut h = InputHistory::new();
    h.push("first".to_string());
    h.push("second".to_string());

    assert_eq!(h.up(), Some("second".to_string()));
    assert_eq!(h.up(), Some("first".to_string()));
    // Stay at oldest
    assert_eq!(h.up(), Some("first".to_string()));

    assert_eq!(h.down(), Some("second".to_string()));
    // Past newest returns None (new input mode)
    assert_eq!(h.down(), None);
}

#[test]
fn reset_cursor() {
    let mut h = InputHistory::new();
    h.push("a".to_string());
    h.push("b".to_string());

    h.up();
    h.up();
    h.reset_cursor();

    // After reset, up returns the last entry
    assert_eq!(h.up(), Some("b".to_string()));
}

#[test]
fn ignores_empty_entries() {
    let mut h = InputHistory::new();
    h.push("".to_string());
    assert!(h.up().is_none());
}

#[test]
fn preview_splits_text_into_lines() {
    let mut p = FilePreview::new();
    p.load_bytes("/tmp/a.txt".to_string(), b"line1\nline2\nline3");
    assert_eq!(p.total_lines, 3);
    assert_eq!(p.path.as_deref(), Some("/tmp/a.txt"));
    assert_eq!(p.visible_content(10), "line1\nline2\nline3");
}

#[test]
fn preview_scroll_navigation() {
    let mut p = FilePreview::new();
    let mut text = String::new();
    for i in 0..100 {
        text.push_str(&format!("line {}\n", i));
    }
    p.load_bytes("/tmp/b.txt".to_string(), text.as_bytes());

    assert_eq!(p.scroll, 0);
    p.scroll_down(10);
    assert_eq!(p.scroll, 1);
    p.scroll_up();
    assert_eq!(p.scroll, 0);
    p.scroll_up();
    assert_eq!(p.scroll, 0);
}

#[test]
fn preview_window_follows_scroll() {
    let mut p = FilePreview::new();
    p.load_bytes("/tmp/c.txt".to_string(), b"a\nb\nc\nd\ne\n");
    assert!(p.visible_content(3).starts_with('a'));
    p.scroll_down(3);
    assert!(p.visible_content(3).starts_with('b'));
}

#[test]
fn preview_clear() {
    let mut p = FilePreview::new();
    p.load_bytes("/tmp/d.txt".to_string(), b"hello");
    assert!(p.content.is_some());
    p.clear();
    assert!(p.content.is_none());
    assert!(p.path.is_none());
    assert_eq!(p.visible_content(5), "(ファイル未選択)");
}

#[test]
fn preview_binary_detection() {
    let mut p = FilePreview::new();
    p.load_bytes("/tmp/e.bin".to_string(), &[0x00, 0x01, 0x02, 0xFF]);
    assert_eq!(p.total_lines, 1);
    assert_eq!(p.visible_content(5), "(バイナリファイル)");
}

#[test]
fn preview_substitute_message() {
    let mut p = FilePreview::new();
    p.set_message("/tmp/f.txt".to_string(), "(読み取り不可: busy)".to_string());
    assert_eq!(p.total_lines, 1);
    assert_eq!(p.visible_content(5), "(読み取り不可: busy)");
}

#[test]
fn task_counts_from_statuses() {
    let statuses = vec![
        "open".to_string(),
        "closed".to_string(),
        "open".to_string(),
        "closed".to_string(),
    ];
    let info = BrTaskInfo::from_statuses(&statuses);
    assert_eq!(info.done, 2);
    assert_eq!(info.total, 4);

    let empty: Vec<String> = Vec::new();
    let info = BrTaskInfo::from_statuses(&empty);
    assert_eq!(info.done, 0);
    assert_eq!(info.total, 0);
}

use deck::dir_tree::{DirTree, EntryInfo};

fn entry(name: &str, path: &str, is_dir: bool) -> EntryInfo {
    EntryInfo {
        name: name.to_string(),
        path: path.to_string(),
        is_dir,
    }
}

#[test]
fn empty_tree() {
    let tree = DirTree::empty();
    assert!(tree.flatten().is_empty());
    assert!(tree.selected_path().is_none());
}

#[test]
fn root_listing_becomes_rows() {
    let tree = DirTree::new(
        "proj".to_string(),
        "/proj".to_string(),
        vec![
            entry("sub", "/proj/sub", true),
            entry("file.txt", "/proj/file.txt", false),
        ],
    );
    let flat = tree.flatten();
    assert_eq!(flat.len(), 3);
    assert!(flat[0].is_dir);
    assert!(flat[0].expanded);
    assert_eq!(flat[1].name, "sub");
    assert_eq!(flat[2].name, "file.txt");
    assert_eq!(flat[2].depth, 1);
}

#[test]
fn hidden_entries_are_filtered() {
    let tree = DirTree::new(
        "proj".to_string(),
        "/proj".to_string(),
        vec![
            entry(".hidden", "/proj/.hidden", false),
            entry("visible.txt", "/proj/visible.txt", false),
        ],
    );
    assert_eq!(tree.flatten().len(), 2);

    let mut shown = DirTree::empty();
    shown.toggle_hidden();
    shown.set_root(
        "proj".to_string(),
        "/proj".to_string(),
        vec![
            entry(".hidden", "/proj/.hidden", false),
            entry("visible.txt", "/proj/visible.txt", false),
        ],
    );
    assert_eq!(shown.flatten().len(), 3);
}

#[test]
fn tree_cursor_navigation() {
    let mut tree = DirTree::new(
        "proj".to_string(),
        "/proj".to_string(),
        vec![
            entry("a.txt", "/proj/a.txt", false),
            entry("b.txt", "/proj/b.txt", false),
        ],
    );
    assert_eq!(tree.cursor, 0);
    tree.cursor_down();
    assert_eq!(tree.cursor, 1);
    tree.cursor_up();
    assert_eq!(tree.cursor, 0);
    tree.cursor_up();
    assert_eq!(tree.cursor, 0);
    tree.cursor_down();
    assert_eq!(tree.selected_path(), Some("/proj/a.txt".to_string()));
    assert!(!tree.selected_is_dir());
}

#[test]
fn tree_collapse_and_expand() {
    let mut tree = DirTree::new(
        "proj".to_string(),
        "/proj".to_string(),
        vec![entry("sub", "/proj/sub", true)],
    );
    let initial = tree.flatten().len();
    assert_eq!(initial, 2);

    // Collapse the root: only the root row remains.
    tree.toggle(vec![]);
    assert_eq!(tree.flatten().len(), 1);
    assert!(!tree.flatten()[0].expanded);

    // Expand it again with a fresh listing.
    tree.toggle(vec![entry("sub", "/proj/sub", true)]);
    assert_eq!(tree.flatten().len(), initial);

    // Expand the subdirectory with its own listing.
    tree.cursor_down();
    tree.toggle(vec![entry("inner.txt", "/proj/sub/inner.txt", false)]);
    let flat = tree.flatten();
    assert_eq!(flat.len(), 3);
    assert_eq!(flat[2].name, "inner.txt");
    assert_eq!(flat[2].depth, 2);

    // Collapsing the root and expanding it again restores the whole view,
    // the expanded subdirectory included.
    tree.cursor_up();
    tree.toggle(vec![]);
    assert_eq!(tree.flatten().len(), 1);
    tree.toggle(vec![entry("sub", "/proj/sub", true)]);
    let flat = tree.flatten();
    assert_eq!(flat.len(), 3);
    assert_eq!(flat[1].name, "sub");
    assert!(flat[1].expanded);
    assert_eq!(flat[2].name, "inner.txt");
}
