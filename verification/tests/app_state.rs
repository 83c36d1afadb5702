use std::sync::mpsc::channel;
use code_editor::main_app::{
    AsyncEventRequest, AsyncEventResponse, ContextChoice, MainApp, ModalKind, ToolbarAction, TreeAction,
};
use code_editor::name_modal::NameModalResult;
use code_editor::services::AppFile;
use code_editor::tab::{EditorTab, Message, TabRequest, TabResponse};

fn tab_for(path: &str) -> EditorTab {
    let (tx, _rx) = channel::<TabRequest>();
    let (_tx2, rx2) = channel::<TabResponse>();
    EditorTab::from_read(AppFile::new(path.to_string(), 0, false, false), Ok("content".to_string()), tx, rx2)
}

fn files() -> Vec<AppFile> {
    vec![
        AppFile::new_with_children(
            "./src".to_string(),
            0,
            vec![AppFile::new("./src/main.rs".to_string(), 1, false, false)],
            false,
        ),
        AppFile::new("./notes.txt".to_string(), 1, false, false),
    ]
}

fn tab_count(app: &MainApp) -> usize {
    app.tree.main_surface().num_tabs()
}

#[test]
fn new_app_asks_for_listing() {
    let (app, first) = MainApp::new();
    assert!(matches!(first, AsyncEventRequest::GetFilesAndFolders));
    assert!(app.files_and_folders.is_empty());
    assert!(app.new_file_modal.is_none() && app.new_folder_modal.is_none());
    assert!(!app.show_hidden_files && !app.collapse_all_requested);
    assert_eq!(tab_count(&app), 0);
}

#[test]
fn after_change_refreshes_only_on_success() {
    assert!(matches!(AsyncEventRequest::after_change(true), Some(AsyncEventRequest::GetFilesAndFolders)));
    assert!(AsyncEventRequest::after_change(false).is_none());
}

#[test]
fn toolbar_actions() {
    let (mut app, _) = MainApp::new();
    assert!(matches!(app.toolbar(ToolbarAction::Refresh), Some(AsyncEventRequest::GetFilesAndFolders)));
    assert!(app.toolbar(ToolbarAction::NewFile).is_none());
    let m = app.new_file_modal.as_ref().unwrap();
    assert_eq!(m.title, "Create new file");
    assert_eq!(m.path, ".");
    assert!(app.toolbar(ToolbarAction::NewFolder).is_none());
    assert_eq!(app.new_folder_modal.as_ref().unwrap().title, "Create new folder");
    assert!(app.toolbar(ToolbarAction::CollapseAll).is_none());
    assert!(app.collapse_all_requested);
}

#[test]
fn context_menu_actions() {
    let (mut app, _) = MainApp::new();
    match app.context_action(&"./src".to_string(), true, ContextChoice::Delete) {
        Some(AsyncEventRequest::Delete(p, d)) => {
            assert_eq!(p, "./src");
            assert!(d);
        }
        _ => panic!("expected a delete"),
    }
    assert!(app.context_action(&"./a.txt".to_string(), false, ContextChoice::NewFile).is_none());
    assert!(app.new_file_modal.is_none());
    assert!(app.context_action(&"./src".to_string(), true, ContextChoice::NewFile).is_none());
    assert_eq!(app.new_file_modal.as_ref().unwrap().path, "./src");
    assert!(app.context_action(&"./src".to_string(), true, ContextChoice::NewFolder).is_none());
    assert_eq!(app.new_folder_modal.as_ref().unwrap().title, "Create new folder");
}

#[test]
fn modal_results() {
    let (mut app, _) = MainApp::new();
    app.toolbar(ToolbarAction::NewFile);
    assert!(app.on_modal_result(ModalKind::NewFile, NameModalResult::Open).is_none());
    assert!(app.new_file_modal.is_some());
    match app.on_modal_result(ModalKind::NewFile, NameModalResult::Accepted(".".to_string(), "a.rs".to_string())) {
        Some(AsyncEventRequest::CreateNewFile(p, n)) => {
            assert_eq!(p, ".");
            assert_eq!(n, "a.rs");
        }
        _ => panic!("expected a new file"),
    }
    assert!(app.new_file_modal.is_none());
    app.toolbar(ToolbarAction::NewFolder);
    assert!(app.on_modal_result(ModalKind::NewFolder, NameModalResult::Cancelled).is_none());
    assert!(app.new_folder_modal.is_none());
    match app.on_modal_result(ModalKind::NewFolder, NameModalResult::Accepted("./x".to_string(), "y".to_string())) {
        Some(AsyncEventRequest::CreateNewFolder(p, n)) => {
            assert_eq!(p, "./x");
            assert_eq!(n, "y");
        }
        _ => panic!("expected a new folder"),
    }
}

#[test]
fn responses_update_state() {
    let (mut app, _) = MainApp::new();
    app.on_response(AsyncEventResponse::GetFilesAndFolders(files()));
    assert_eq!(app.files_and_folders.len(), 2);
    app.on_response(AsyncEventResponse::GetTab(tab_for("./notes.txt")));
    assert_eq!(tab_count(&app), 1);
}

#[test]
fn collapse_paths_are_taken_once() {
    let (mut app, _) = MainApp::new();
    app.on_response(AsyncEventResponse::GetFilesAndFolders(files()));
    assert!(app.take_collapse_paths().is_empty());
    app.toolbar(ToolbarAction::CollapseAll);
    assert_eq!(app.take_collapse_paths(), vec!["./src".to_string()]);
    assert!(!app.collapse_all_requested);
    assert!(app.take_collapse_paths().is_empty());
}

#[test]
fn visible_rows_follow_hidden_flag() {
    let (mut app, _) = MainApp::new();
    app.on_response(AsyncEventResponse::GetFilesAndFolders(vec![AppFile::new(".h".to_string(), 0, false, true)]));
    assert!(app.visible_rows().is_empty());
    app.show_hidden_files = true;
    assert_eq!(app.visible_rows().len(), 1);
}

#[test]
fn activating_files_opens_or_focuses_tabs() {
    let (mut app, _) = MainApp::new();
    app.on_response(AsyncEventResponse::GetFilesAndFolders(files()));
    let reqs = app.on_tree_action(TreeAction::Activate(vec![
        "./src/main.rs".to_string(),
        "./src".to_string(),
        "./missing".to_string(),
    ]));
    assert_eq!(reqs.len(), 1);
    match &reqs[0] {
        AsyncEventRequest::GetTab(f) => assert_eq!(f.path, "./src/main.rs"),
        _ => panic!("expected a tab request"),
    }
    app.on_response(AsyncEventResponse::GetTab(tab_for("./src/main.rs")));
    let again = app.on_tree_action(TreeAction::Activate(vec!["./src/main.rs".to_string()]));
    assert!(again.is_empty());
    assert_eq!(tab_count(&app), 1);
}

#[test]
fn activating_an_open_file_makes_its_tab_active() {
    let (mut app, _) = MainApp::new();
    app.on_response(AsyncEventResponse::GetFilesAndFolders(files()));
    app.on_response(AsyncEventResponse::GetTab(tab_for("./notes.txt")));
    app.on_response(AsyncEventResponse::GetTab(tab_for("./src/main.rs")));
    let active = app.tree.main_surface_mut().find_active().unwrap().1.file.path.clone();
    assert_eq!(active, "./src/main.rs");
    let reqs = app.on_tree_action(TreeAction::Activate(vec!["./notes.txt".to_string()]));
    assert!(reqs.is_empty());
    let active = app.tree.main_surface_mut().find_active().unwrap().1.file.path.clone();
    assert_eq!(active, "./notes.txt");
    assert_eq!(tab_count(&app), 2);
}

#[test]
fn moving_and_other_actions() {
    let (mut app, _) = MainApp::new();
    let reqs = app.on_tree_action(TreeAction::Move(vec!["./a".to_string()], "./b".to_string()));
    assert_eq!(reqs.len(), 1);
    match &reqs[0] {
        AsyncEventRequest::Move(s, d) => {
            assert_eq!(s, &vec!["./a".to_string()]);
            assert_eq!(d, "./b");
        }
        _ => panic!("expected a move"),
    }
    assert!(app.on_tree_action(TreeAction::Other).is_empty());
}

#[test]
fn focus_tab_finds_by_name() {
    let (mut app, _) = MainApp::new();
    app.on_response(AsyncEventResponse::GetTab(tab_for("./a/x.rs")));
    app.on_response(AsyncEventResponse::GetTab(tab_for("./b/y.rs")));
    let pos = code_editor::dock::focus_tab(&mut app.tree, &AppFile::new("./other/y.rs".to_string(), 0, false, false));
    assert_eq!(pos, Some((0, 1)));
    let active = app.tree.main_surface_mut().find_active().unwrap().1.file.path.clone();
    assert_eq!(active, "./b/y.rs");
    let first = code_editor::dock::focus_tab(&mut app.tree, &AppFile::new("x.rs".to_string(), 0, false, false));
    assert_eq!(first, Some((0, 0)));
    let active = app.tree.main_surface_mut().find_active().unwrap().1.file.path.clone();
    assert_eq!(active, "./a/x.rs");
    let none = code_editor::dock::focus_tab(&mut app.tree, &AppFile::new("z.rs".to_string(), 0, false, false));
    assert_eq!(none, None);
}

#[test]
fn tab_behaviour() {
    let mut tab = tab_for("./src/lib.rs");
    assert_eq!(tab.title(), "lib.rs");
    assert_eq!(tab.edited_content, "content");
    match tab.save_request() {
        TabRequest::SaveFile(f, c) => {
            assert_eq!(f.path, "./src/lib.rs");
            assert_eq!(c, "content");
        }
    }
    tab.receive(TabResponse::SaveFile(Message::save_report(true)));
    assert_eq!(tab.message.as_ref().unwrap().message, "Successfully saved file");
    assert_eq!(tab.message.as_ref().unwrap().show_during_seconds, 5);
    tab.expire_message(Some((5, 0)));
    assert!(tab.message.is_some());
    tab.expire_message(None);
    assert!(tab.message.is_some());
    tab.expire_message(Some((5, 1)));
    assert!(tab.message.is_none());
}

#[test]
fn failed_read_gives_empty_content() {
    let (tx, _rx) = channel::<TabRequest>();
    let (_tx2, rx2) = channel::<TabResponse>();
    let tab = EditorTab::from_read(AppFile::new("f".to_string(), 0, false, false), Err("File not found".to_string()), tx, rx2);
    assert_eq!(tab.edited_content, "");
    assert!(tab.message.is_none());
}

#[test]
fn message_expiry() {
    let m = Message::save_report(false);
    assert_eq!(m.message, "Failed to save file");
    assert!(!m.is_expired_after(4, 999_999_999));
    assert!(!m.is_expired_after(5, 0));
    assert!(m.is_expired_after(5, 1));
    assert!(m.is_expired_after(6, 0));
    let fresh = Message::new("hi".to_string(), 3);
    let age = fresh.age();
    if let Some((s, n)) = age {
        assert!(n < 1_000_000_000);
        assert!(s < 60);
    }
}

#[test]
fn message_shown_at_keeps_its_time() {
    let t = std::time::UNIX_EPOCH;
    let m = Message::shown_at("saved".to_string(), 2, t);
    assert_eq!(m.first_shown, t);
    assert_eq!(m.message, "saved");
    assert_eq!(m.show_during_seconds, 2);
    let (secs, _) = m.age().unwrap();
    assert!(secs > 2);
}
