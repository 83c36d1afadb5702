use code_editor::paths::{file_name_of, join_path};
use code_editor::services::{is_hidden_entry, AppFile, FileServices};
use code_editor::tree::{collect_dir_paths, search_app_file};

fn sample_tree() -> Vec<AppFile> {
    let inner = vec![
        AppFile::new("./src/main.rs".to_string(), 10, false, false),
        AppFile::new("./src/.cache".to_string(), 0, false, true),
        AppFile::new_with_children(
            "./src/ui".to_string(),
            0,
            vec![AppFile::new("./src/ui/tab.rs".to_string(), 5, false, false)],
            false,
        ),
    ];
    vec![
        AppFile::new_with_children("./src".to_string(), 0, inner, false),
        AppFile::new("./Cargo.toml".to_string(), 3, false, false),
        AppFile::new_with_children("./.git".to_string(), 0, vec![], true),
    ]
}

#[test]
fn file_name_is_last_segment() {
    assert_eq!(file_name_of("./src/main.rs"), "main.rs");
    assert_eq!(file_name_of("main.rs"), "main.rs");
    assert_eq!(file_name_of("./src/"), "");
    assert_eq!(file_name_of(""), "");
    assert_eq!(file_name_of("a/ü/ß.txt"), "ß.txt");
}

#[test]
fn app_file_name_method() {
    let f = AppFile::new("./docs/readme.md".to_string(), 1, false, false);
    assert_eq!(f.file_name(), "readme.md");
}

#[test]
fn join_then_name_gives_name_back() {
    let p = join_path("./a/b", "c.txt");
    assert_eq!(p, "./a/b/c.txt");
    assert_eq!(file_name_of(&p), "c.txt");
    assert_eq!(FileServices::entry_path(".", "new"), "./new");
}

#[test]
fn hidden_entries_start_with_dot() {
    assert!(is_hidden_entry(".git"));
    assert!(!is_hidden_entry("git"));
    assert!(!is_hidden_entry(""));
    assert!(is_hidden_entry("."));
}

#[test]
fn constructors_set_fields() {
    let f = AppFile::new("x".to_string(), 7, true, true);
    assert_eq!(f.path, "x");
    assert_eq!(f.size, 7);
    assert!(f.is_dir && f.is_hidden && f.children.is_none());
    let d = AppFile::new_with_children("d".to_string(), 2, vec![f], false);
    assert!(d.is_dir && !d.is_hidden);
    assert_eq!(d.children.as_ref().unwrap().len(), 1);
}

#[test]
fn listed_entries() {
    let f = FileServices::listed_entry("./.env".to_string(), 4, None, is_hidden_entry(".env"));
    assert!(!f.is_dir && f.is_hidden && f.size == 4 && f.children.is_none());
    let d = FileServices::listed_entry("./src".to_string(), 0, Some(vec![]), is_hidden_entry("src"));
    assert!(d.is_dir && !d.is_hidden);
    assert_eq!(d.children.unwrap().len(), 0);
}

#[test]
fn created_entries() {
    let folder = FileServices::created_folder("./parent".to_string());
    assert_eq!(folder.path, "./parent");
    assert!(folder.is_dir && !folder.is_hidden && folder.size == 0);
    let file = FileServices::created_file(FileServices::entry_path("./parent", "x.rs"));
    assert_eq!(file.path, "./parent/x.rs");
    assert!(!file.is_dir);
    assert_eq!(file.file_name(), "x.rs");
}

#[test]
fn move_targets_keep_names() {
    let sources = vec!["./a/one.txt".to_string(), "two".to_string(), "./dir/".to_string()];
    let moves = FileServices::move_targets(&sources, "./dest");
    assert_eq!(moves.len(), 3);
    assert_eq!(moves[0], ("./a/one.txt".to_string(), "./dest/one.txt".to_string()));
    assert_eq!(moves[1], ("two".to_string(), "./dest/two".to_string()));
    assert_eq!(moves[2], ("./dir/".to_string(), "./dest/".to_string()));
}

#[test]
fn read_and_save_outcomes() {
    assert_eq!(AppFile::read_outcome(Some("text".to_string())), Ok("text".to_string()));
    assert_eq!(AppFile::read_outcome(None), Err("File not found".to_string()));
    assert_eq!(AppFile::save_outcome(true, true), Ok("Successfully saved".to_string()));
    assert_eq!(AppFile::save_outcome(true, false), Err("Error saving file".to_string()));
    assert_eq!(AppFile::save_outcome(false, true), Err("File opening found".to_string()));
}

#[test]
fn search_finds_nested_file() {
    let found = search_app_file(sample_tree(), "./src/ui/tab.rs".to_string());
    let f = found.expect("found");
    assert_eq!(f.path, "./src/ui/tab.rs");
    assert_eq!(f.size, 5);
}

#[test]
fn search_finds_folder_and_misses_unknown() {
    let found = search_app_file(sample_tree(), "./src/ui".to_string()).unwrap();
    assert!(found.is_dir);
    assert_eq!(found.children.unwrap().len(), 1);
    assert!(search_app_file(sample_tree(), "./nope".to_string()).is_none());
    assert!(search_app_file(vec![], "./src".to_string()).is_none());
}

#[test]
fn search_does_not_look_into_children_of_files() {
    let mut odd = AppFile::new("f".to_string(), 0, false, false);
    odd.children = Some(vec![AppFile::new("f/inner".to_string(), 0, false, false)]);
    assert!(search_app_file(vec![odd], "f/inner".to_string()).is_none());
}

#[test]
fn search_returns_first_match_depth_first() {
    let a = AppFile::new_with_children("d".to_string(), 0, vec![AppFile::new("x".to_string(), 1, false, false)], false);
    let b = AppFile::new("x".to_string(), 2, false, false);
    let found = search_app_file(vec![a, b], "x".to_string()).unwrap();
    assert_eq!(found.size, 1);
}

#[test]
fn collect_dir_paths_depth_first() {
    let mut paths = vec!["keep".to_string()];
    collect_dir_paths(&sample_tree(), &mut paths);
    assert_eq!(paths, vec!["keep", "./src", "./src/ui", "./.git"]);
}

#[test]
fn clone_copies_the_whole_tree() {
    let t = sample_tree();
    let c = t[0].clone();
    assert_eq!(c.path, "./src");
    let kids = c.children.unwrap();
    assert_eq!(kids.len(), 3);
    assert_eq!(kids[2].children.as_ref().unwrap()[0].path, "./src/ui/tab.rs");
}
