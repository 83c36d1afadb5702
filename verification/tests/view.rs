use code_editor::name_modal::{NameModal, NameModalResult};
use code_editor::services::AppFile;
use code_editor::tree_view::{next_row, tree_rows, TreeRow};

fn tree() -> Vec<AppFile> {
    vec![
        AppFile::new_with_children(
            "./src".to_string(),
            0,
            vec![
                AppFile::new("./src/main.rs".to_string(), 1, false, false),
                AppFile::new("./src/.hidden".to_string(), 1, false, true),
            ],
            false,
        ),
        AppFile::new(".env".to_string(), 1, false, true),
        AppFile::new("./README".to_string(), 1, false, false),
    ]
}

fn describe(rows: &[TreeRow]) -> Vec<String> {
    rows.iter()
        .map(|r| match r {
            TreeRow::Dir { path, label, inner } => format!("dir {} {} {}", path, label, inner),
            TreeRow::Leaf { path, label } => format!("leaf {} {}", path, label),
            TreeRow::CloseDir => "close".to_string(),
        })
        .collect()
}

#[test]
fn rows_without_hidden() {
    let rows = tree_rows(&tree(), false);
    assert_eq!(
        describe(&rows),
        vec!["dir ./src src 1", "leaf ./src/main.rs main.rs", "close", "leaf ./README README"]
    );
}

#[test]
fn rows_with_hidden() {
    let rows = tree_rows(&tree(), true);
    assert_eq!(
        describe(&rows),
        vec![
            "dir ./src src 2",
            "leaf ./src/main.rs main.rs",
            "leaf ./src/.hidden .hidden",
            "close",
            "leaf .env .env",
            "leaf ./README README",
        ]
    );
}

#[test]
fn folder_without_children_still_closes() {
    let rows = tree_rows(&[AppFile::new("d".to_string(), 0, true, false)], false);
    assert_eq!(describe(&rows), vec!["dir d d 0", "close"]);
}

#[test]
fn closed_folder_skips_to_its_close_row() {
    let rows = tree_rows(&tree(), true);
    assert_eq!(next_row(&rows, 0, false), 3);
    assert!(matches!(rows[3], TreeRow::CloseDir));
    assert_eq!(next_row(&rows, 0, true), 1);
    assert_eq!(next_row(&rows, 1, false), 2);
    assert_eq!(next_row(&rows, 3, true), 4);
}

#[test]
fn malformed_rows_skip_to_the_end() {
    let rows = vec![TreeRow::Dir { path: "d".to_string(), label: "d".to_string(), inner: 7 }, TreeRow::CloseDir];
    assert_eq!(next_row(&rows, 0, false), 2);
    assert_eq!(next_row(&rows, 0, true), 1);
}

#[test]
fn modal_constructors() {
    let m = NameModal::new("Create new file".to_string());
    assert_eq!(m.path, ".");
    assert_eq!(m.name, "");
    assert!(m.text.is_none());
    let b = NameModal::new_with_body("t".to_string(), "body".to_string());
    assert_eq!(b.text.as_deref(), Some("body"));
    assert_eq!(b.path, ".");
    let p = NameModal::new_with_path("t".to_string(), "./src".to_string());
    assert_eq!(p.path, "./src");
}

#[test]
fn modal_resolution() {
    let mut m = NameModal::new_with_path("t".to_string(), "./src".to_string());
    m.name = "lib.rs".to_string();
    assert!(matches!(m.resolve(false, false, false), NameModalResult::Open));
    assert!(matches!(m.resolve(true, false, false), NameModalResult::Open));
    assert!(matches!(m.resolve(true, false, true), NameModalResult::Cancelled));
    assert!(matches!(m.resolve(false, false, true), NameModalResult::Cancelled));
    match m.resolve(true, true, true) {
        NameModalResult::Accepted(p, n) => {
            assert_eq!(p, "./src");
            assert_eq!(n, "lib.rs");
        }
        _ => panic!("expected acceptance"),
    }
}
