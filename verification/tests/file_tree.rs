use gh_pr_lander::diff::FileDiff;
use gh_pr_lander::tree::FileTreeNode;
use gh_pr_lander::tree::FlatFileEntry;

fn make_file_diff(path: &str, additions: usize, deletions: usize) -> FileDiff {
    let mut f = FileDiff::new(path);
    f.additions = additions;
    f.deletions = deletions;
    f
}

#[test]
fn test_file_tree_construction() {
    let files = vec![
        make_file_diff("src/main.rs", 10, 5),
        make_file_diff("src/lib.rs", 3, 1),
        make_file_diff("tests/test.rs", 20, 0),
        make_file_diff("Cargo.toml", 2, 1),
    ];

    let tree = FileTreeNode::from_files(&files);
    let flat = tree.flatten();

    // Should have: src/, src/lib.rs, src/main.rs, tests/, tests/test.rs, Cargo.toml
    assert_eq!(flat.len(), 6);

    // Directories come first
    assert!(flat[0].is_dir);
    assert_eq!(flat[0].name, "src");

    // Files in src are sorted
    assert!(!flat[1].is_dir);
    assert_eq!(flat[1].name, "lib.rs");
}

#[test]
fn test_file_tree_construction_full_order() {
    let files = vec![
        make_file_diff("src/main.rs", 10, 5),
        make_file_diff("src/lib.rs", 3, 1),
        make_file_diff("tests/test.rs", 20, 0),
        make_file_diff("Cargo.toml", 2, 1),
    ];

    let tree = FileTreeNode::from_files(&files);
    let flat = tree.flatten();

    let names: Vec<&str> = flat.iter().map(|e| e.name.as_str()).collect();
    assert_eq!(names, vec!["src", "lib.rs", "main.rs", "tests", "test.rs", "Cargo.toml"]);
    let dirs: Vec<bool> = flat.iter().map(|e| e.is_dir).collect();
    assert_eq!(dirs, vec![true, false, false, true, false, false]);
}

#[test]
fn test_file_tree_collapse() {
    let files = vec![make_file_diff("src/main.rs", 10, 5), make_file_diff("src/lib.rs", 3, 1)];

    let mut tree = FileTreeNode::from_files(&files);

    // Initially expanded
    let flat = tree.flatten();
    assert_eq!(flat.len(), 3); // src/, lib.rs, main.rs

    // Collapse src
    tree.children[0].toggle();
    let flat = tree.flatten();
    assert_eq!(flat.len(), 1); // just src/
}

#[test]
fn test_collapse_and_expand_restore_rows() {
    let files = vec![
        make_file_diff("src/a.rs", 1, 0),
        make_file_diff("src/b.rs", 2, 0),
        make_file_diff("docs/c.md", 3, 0),
    ];
    let mut tree = FileTreeNode::from_files(&files);
    let before: Vec<String> = tree.flatten().iter().map(|e| e.name.clone()).collect();

    // Collapse "src" by full path: exactly its two children disappear.
    assert!(tree.toggle_at_path("src"));
    let collapsed: Vec<String> = tree.flatten().iter().map(|e| e.name.clone()).collect();
    assert_eq!(collapsed.len(), before.len() - 2);
    assert!(!collapsed.contains(&"a.rs".to_string()));
    assert!(!collapsed.contains(&"b.rs".to_string()));

    // Re-expanding restores the identical prior sequence.
    assert!(tree.toggle_at_path("src"));
    let after: Vec<String> = tree.flatten().iter().map(|e| e.name.clone()).collect();
    assert_eq!(after, before);
}

#[test]
fn test_toggle_refused_on_file_node() {
    let files = vec![make_file_diff("src/main.rs", 1, 0)];
    let mut tree = FileTreeNode::from_files(&files);
    // children[0] is the "src" directory, whose child is the file.
    assert!(!tree.children[0].children[0].toggle());
    assert_eq!(tree.flatten().len(), 2);
    assert!(tree.children[0].toggle());
}

#[test]
fn test_toggle_at_path_refuses_files() {
    let files = vec![make_file_diff("src/main.rs", 1, 0)];
    let mut tree = FileTreeNode::from_files(&files);
    // A file path is refused and nothing changes.
    assert!(!tree.toggle_at_path("src/main.rs"));
    assert_eq!(tree.flatten().len(), 2);
    // An unknown path is refused as well.
    assert!(!tree.toggle_at_path("nope"));
}

#[test]
fn test_same_named_dirs_at_different_depths() {
    let files = vec![make_file_diff("a/x/f.rs", 1, 0), make_file_diff("x/g.rs", 1, 0)];
    let mut tree = FileTreeNode::from_files(&files);
    // Resolution is by full path: "a/x" collapses the nested one only.
    assert!(tree.toggle_at_path("a/x"));
    let names: Vec<String> = tree.flatten().iter().map(|e| e.name.clone()).collect();
    assert!(!names.contains(&"f.rs".to_string()));
    assert!(names.contains(&"g.rs".to_string()));
}

#[test]
fn test_sort_is_idempotent() {
    let files = vec![
        make_file_diff("zeta.rs", 1, 0),
        make_file_diff("src/z.rs", 1, 0),
        make_file_diff("src/a.rs", 1, 0),
        make_file_diff("alpha.rs", 1, 0),
    ];
    let mut tree = FileTreeNode::from_files(&files);
    let once: Vec<String> = tree.flatten().iter().map(|e| e.name.clone()).collect();
    tree.sort_recursive();
    let twice: Vec<String> = tree.flatten().iter().map(|e| e.name.clone()).collect();
    assert_eq!(once, twice);
    assert_eq!(once, vec!["src", "a.rs", "z.rs", "alpha.rs", "zeta.rs"]);
}

#[test]
fn test_calculate_stats_aggregates() {
    let files = vec![make_file_diff("src/main.rs", 10, 5), make_file_diff("src/lib.rs", 3, 1)];
    let mut tree = FileTreeNode::from_files(&files);
    let (adds, dels) = tree.calculate_stats();
    assert_eq!(adds, 13);
    assert_eq!(dels, 6);
    let flat = tree.flatten();
    assert_eq!(flat[0].name, "src");
    assert_eq!(flat[0].additions, 13);
    assert_eq!(flat[0].deletions, 6);
}

#[test]
fn test_file_paths_in_display_order() {
    let files = vec![
        make_file_diff("src/main.rs", 1, 0),
        make_file_diff("src/lib.rs", 1, 0),
        make_file_diff("Cargo.toml", 1, 0),
    ];
    let tree = FileTreeNode::from_files(&files);
    let paths = tree.file_paths();
    assert_eq!(paths, vec!["src/lib.rs", "src/main.rs", "Cargo.toml"]);
}

#[test]
fn test_flat_entry_icon() {
    let dir = FlatFileEntry {
        depth: 0,
        name: "src".to_string(),
        path: None,
        is_dir: true,
        is_expanded: true,
        status: None,
        additions: 0,
        deletions: 0,
    };
    assert_eq!(dir.icon(), "▼ ");

    let collapsed_dir = FlatFileEntry { is_expanded: false, ..dir.clone() };
    assert_eq!(collapsed_dir.icon(), "▶ ");

    let file = FlatFileEntry { is_dir: false, path: Some("src/main.rs".to_string()), ..dir };
    assert_eq!(file.icon(), "  ");
}

#[test]
fn test_flat_entry_indent() {
    let entry = FlatFileEntry {
        depth: 2,
        name: "deep.rs".to_string(),
        path: Some("a/b/deep.rs".to_string()),
        is_dir: false,
        is_expanded: false,
        status: None,
        additions: 0,
        deletions: 0,
    };
    assert_eq!(entry.indent(), "    ");
}

#[test]
fn test_deep_collapse_and_expand_restore_rows() {
    let files = vec![
        make_file_diff("x/y/f1.rs", 1, 0),
        make_file_diff("x/y/f2.rs", 1, 0),
        make_file_diff("x/z.rs", 1, 0),
    ];
    let mut tree = FileTreeNode::from_files(&files);
    let before: Vec<(String, usize)> =
        tree.flatten().iter().map(|e| (e.name.clone(), e.depth)).collect();
    assert_eq!(before.len(), 5); // x, y, f1.rs, f2.rs, z.rs

    // Collapse the nested directory "x/y": exactly its two file rows
    // disappear; everything before and after stays in place.
    assert!(tree.toggle_at_path("x/y"));
    let collapsed: Vec<(String, usize)> =
        tree.flatten().iter().map(|e| (e.name.clone(), e.depth)).collect();
    assert_eq!(collapsed.len(), 3);
    assert_eq!(collapsed[0], before[0]);
    assert_eq!(collapsed[1], before[1]);
    assert_eq!(collapsed[2], before[4]);

    // Re-expanding restores the identical prior sequence; the same holds
    // toggling the deep node directly.
    assert!(tree.toggle_at_path("x/y"));
    let after: Vec<(String, usize)> =
        tree.flatten().iter().map(|e| (e.name.clone(), e.depth)).collect();
    assert_eq!(after, before);

    assert!(tree.children[0].children[0].toggle());
    assert_eq!(tree.flatten().len(), 3);
    assert!(tree.children[0].children[0].toggle());
    let again: Vec<(String, usize)> =
        tree.flatten().iter().map(|e| (e.name.clone(), e.depth)).collect();
    assert_eq!(again, before);
}
