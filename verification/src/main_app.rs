//! The state of the editor window and how it answers what the user does and what
//! the worker reports. The window itself performs the requests that come out.

use vstd::prelude::*;
use egui_dock::DockState;
use vstd::multiset::Multiset;
use crate::dock::{
    all_tab_paths, can_push_tab, first_named, focus_spec, focus_tab, has_tab_for, main_active_tabs,
    main_surface_tab_paths, main_tab_paths, new_dock, push_to_focused_leaf,
};
use crate::name_modal::{NameModal, NameModalResult};
use crate::services::{AppFile, FileView, files_view};
use crate::tab::EditorTab;
use crate::tree::{collect_dir_paths, dir_paths, find_in, search_spec, strings_view};
use crate::paths::last_segment;
use crate::tree_view::{lemma_rows_well_nested, rows_spec, rows_view, tree_rows, well_nested, TreeRow};

verus! {

/// What the window asks of the worker.
pub enum AsyncEventRequest {
    GetFilesAndFolders,
    GetTab(AppFile),
    /// Create, inside the first folder, a folder of the second name.
    CreateNewFolder(String, String),
    /// Create, inside the first folder, a file of the second name.
    CreateNewFile(String, String),
    /// Delete the entry at this path; the flag tells whether it is a folder.
    Delete(String, bool),
    /// Move these entries into this folder.
    Move(Vec<String>, String),
}

/// What an `AsyncEventRequest` holds, as mathematical values.
pub enum RequestView {
    GetFilesAndFolders,
    GetTab(FileView),
    CreateNewFolder(Seq<char>, Seq<char>),
    CreateNewFile(Seq<char>, Seq<char>),
    Delete(Seq<char>, bool),
    Move(Seq<Seq<char>>, Seq<char>),
}

impl View for AsyncEventRequest {
    type V = RequestView;

    open spec fn view(&self) -> RequestView {
        match self {
            AsyncEventRequest::GetFilesAndFolders => RequestView::GetFilesAndFolders,
            AsyncEventRequest::GetTab(f) => RequestView::GetTab(f@),
            AsyncEventRequest::CreateNewFolder(p, n) => RequestView::CreateNewFolder(p@, n@),
            AsyncEventRequest::CreateNewFile(p, n) => RequestView::CreateNewFile(p@, n@),
            AsyncEventRequest::Delete(p, d) => RequestView::Delete(p@, *d),
            AsyncEventRequest::Move(s, d) => RequestView::Move(strings_view(s@), d@),
        }
    }
}

pub open spec fn requests_view(r: Seq<AsyncEventRequest>) -> Seq<RequestView> {
    r.map_values(|q: AsyncEventRequest| q@)
}

impl AsyncEventRequest {
    /// What follows a request that changes the files: a new listing of the files and
    /// folders when it succeeded, nothing when it failed.
    pub fn after_change(succeeded: bool) -> (next: Option<AsyncEventRequest>)
        ensures
            succeeded ==> (next matches Some(q) && q@ == RequestView::GetFilesAndFolders),
            !succeeded ==> next is None,
    {
        if succeeded {
            Some(AsyncEventRequest::GetFilesAndFolders)
        } else {
            None
        }
    }
}

/// What the worker answers the window.
pub enum AsyncEventResponse {
    GetFilesAndFolders(Vec<AppFile>),
    GetTab(EditorTab),
}

/// What the user did in the tree view.
pub enum TreeAction {
    /// Dragged these entries onto this folder.
    Move(Vec<String>, String),
    /// Activated (double-clicked or pressed enter on) these entries.
    Activate(Vec<String>),
    /// Anything else: selecting, dragging, dropping from outside.
    Other,
}

/// A button of the bar above the tree view.
pub enum ToolbarAction {
    Refresh,
    NewFile,
    NewFolder,
    CollapseAll,
}

/// An entry of the context menu of a file or folder.
pub enum ContextChoice {
    Delete,
    NewFile,
    NewFolder,
}

/// Which of the two naming dialogs.
pub enum ModalKind {
    NewFile,
    NewFolder,
}

/// The state of the editor window.
pub struct MainApp {
    pub tree: DockState<EditorTab>,
    pub files_and_folders: Vec<AppFile>,
    pub new_file_modal: Option<NameModal>,
    pub new_folder_modal: Option<NameModal>,
    pub show_hidden_files: bool,
    pub collapse_all_requested: bool,
}

/// Some tab of `tabs` edits the file at `path`.
pub open spec fn tab_open(tabs: Seq<Seq<Seq<char>>>, path: Seq<char>) -> bool {
    exists|n: int, t: int| 0 <= n < tabs.len() && 0 <= t < tabs[n].len() && #[trigger] tabs[n][t] == path
}

/// The files to open a tab for when `selected` are activated: each selected path,
/// in order, that the search finds as a file (not a folder) that no tab edits yet.
pub open spec fn activation_targets(
    files: Seq<FileView>,
    tabs: Seq<Seq<Seq<char>>>,
    selected: Seq<Seq<char>>,
) -> Seq<FileView>
    decreases selected.len(),
{
    if selected.len() == 0 {
        Seq::empty()
    } else {
        let before = activation_targets(files, tabs, selected.drop_last());
        match search_spec(files, selected.last()) {
            Some(f) => if !f.is_dir && !tab_open(tabs, selected.last()) {
                before.push(f)
            } else {
                before
            },
            None => before,
        }
    }
}

/// The active tabs after `selected` are activated: in order, each selected path
/// that the search finds as a file that a tab already edits focuses the first tab
/// of that file's name.
pub open spec fn activation_focus(
    files: Seq<FileView>,
    tabs: Seq<Seq<Seq<char>>>,
    selected: Seq<Seq<char>>,
    active: Seq<Option<nat>>,
) -> Seq<Option<nat>>
    decreases selected.len(),
{
    if selected.len() == 0 {
        active
    } else {
        let before = activation_focus(files, tabs, selected.drop_last(), active);
        match search_spec(files, selected.last()) {
            Some(f) => if !f.is_dir && tab_open(tabs, selected.last()) {
                focus_spec(tabs, before, last_segment(f.path))
            } else {
                before
            },
            None => before,
        }
    }
}

/// Activating a path opens a new tab exactly when the search finds a file (not a
/// folder) there and no tab edits that very path (a tab of another file with the
/// same name does not count); the tab is for the file found. Otherwise no tab is
/// asked for, and the active tabs change only where a tab edits that very path.
pub proof fn lemma_activation_of_one_path(
    files: Seq<FileView>,
    tabs: Seq<Seq<Seq<char>>>,
    p: Seq<char>,
    active: Seq<Option<nat>>,
)
    ensures
        ({
            let edited = exists|n: int, t: int|
                0 <= n < tabs.len() && 0 <= t < tabs[n].len() && #[trigger] tabs[n][t] == p;
            match search_spec(files, p) {
                Some(f) => if !f.is_dir && !edited {
                    activation_targets(files, tabs, seq![p]) == seq![f]
                        && activation_focus(files, tabs, seq![p], active) == active
                } else if !f.is_dir {
                    activation_targets(files, tabs, seq![p]).len() == 0
                        && activation_focus(files, tabs, seq![p], active)
                            == focus_spec(tabs, active, last_segment(f.path))
                } else {
                    activation_targets(files, tabs, seq![p]).len() == 0
                        && activation_focus(files, tabs, seq![p], active) == active
                },
                None => activation_targets(files, tabs, seq![p]).len() == 0
                    && activation_focus(files, tabs, seq![p], active) == active,
            }
        }),
{
    let one = seq![p];
    let none = Seq::<Seq<char>>::empty();
    assert(one.drop_last() =~= none);
    assert(one.last() == p);
    assert(activation_targets(files, tabs, none) == Seq::<FileView>::empty());
    assert(activation_focus(files, tabs, none, active) == active);
    if let Some(f) = search_spec(files, p) {
        assert(Seq::<FileView>::empty().push(f) =~= seq![f]);
    }
}

/// Activating several paths does, for each path in turn, what activating it alone
/// does: the new tabs asked for are those of the earlier paths followed by those of
/// the last one.
pub proof fn lemma_activation_in_order(
    files: Seq<FileView>,
    tabs: Seq<Seq<Seq<char>>>,
    selected: Seq<Seq<char>>,
    p: Seq<char>,
)
    ensures
        activation_targets(files, tabs, selected.push(p))
            == activation_targets(files, tabs, selected) + activation_targets(files, tabs, seq![p]),
{
    let one = seq![p];
    let none = Seq::<Seq<char>>::empty();
    assert(one.drop_last() =~= none);
    assert(one.last() == p);
    assert(activation_targets(files, tabs, none) == Seq::<FileView>::empty());
    assert(selected.push(p).drop_last() =~= selected);
    assert(selected.push(p).last() == p);
    let before = activation_targets(files, tabs, selected);
    assert(before + Seq::<FileView>::empty() =~= before);
    if let Some(f) = search_spec(files, p) {
        assert(before.push(f) =~= before + seq![f]);
        assert(Seq::<FileView>::empty().push(f) =~= seq![f]);
    }
}

impl MainApp {
    /// The state of a new window, with no tabs, no files yet and no dialog open, and
    /// the first request: to list the files and folders.
    pub fn new() -> (r: (MainApp, AsyncEventRequest))
        ensures
            main_tab_paths(r.0.tree) == seq![Seq::<Seq<char>>::empty()],
            all_tab_paths(r.0.tree) == Multiset::<Seq<char>>::empty(),
            main_active_tabs(r.0.tree) == seq![Some(0nat)],
            can_push_tab(r.0.tree),
            r.0.files_and_folders@.len() == 0,
            r.0.new_file_modal is None,
            r.0.new_folder_modal is None,
            !r.0.show_hidden_files,
            !r.0.collapse_all_requested,
            r.1@ == RequestView::GetFilesAndFolders,
    {
        let app = MainApp {
            tree: new_dock(),
            files_and_folders: Vec::new(),
            new_file_modal: None,
            new_folder_modal: None,
            show_hidden_files: false,
            collapse_all_requested: false,
        };
        (app, AsyncEventRequest::GetFilesAndFolders)
    }

    /// A button of the bar: a refresh asks for a new listing; the two "new" buttons
    /// open their dialog on the current folder; collapsing is noted for the next
    /// drawing of the tree.
    pub fn toolbar(&mut self, action: ToolbarAction) -> (request: Option<AsyncEventRequest>)
        ensures
            final(self).tree == old(self).tree,
            final(self).files_and_folders == old(self).files_and_folders,
            final(self).show_hidden_files == old(self).show_hidden_files,
            match action {
                ToolbarAction::Refresh => request matches Some(q) && q@ == RequestView::GetFilesAndFolders
                    && final(self).new_file_modal == old(self).new_file_modal
                    && final(self).new_folder_modal == old(self).new_folder_modal
                    && final(self).collapse_all_requested == old(self).collapse_all_requested,
                ToolbarAction::NewFile => request is None
                    && (final(self).new_file_modal matches Some(m) && m.title@ == "Create new file"@
                        && m.path@ == "."@ && m.text is None && m.name@.len() == 0)
                    && final(self).new_folder_modal == old(self).new_folder_modal
                    && final(self).collapse_all_requested == old(self).collapse_all_requested,
                ToolbarAction::NewFolder => request is None
                    && (final(self).new_folder_modal matches Some(m) && m.title@ == "Create new folder"@
                        && m.path@ == "."@ && m.text is None && m.name@.len() == 0)
                    && final(self).new_file_modal == old(self).new_file_modal
                    && final(self).collapse_all_requested == old(self).collapse_all_requested,
                ToolbarAction::CollapseAll => request is None
                    && final(self).collapse_all_requested
                    && final(self).new_file_modal == old(self).new_file_modal
                    && final(self).new_folder_modal == old(self).new_folder_modal,
            },
    {
        match action {
            ToolbarAction::Refresh => Some(AsyncEventRequest::GetFilesAndFolders),
            ToolbarAction::NewFile => {
                self.new_file_modal = Some(NameModal::new(String::from_str("Create new file")));
                None
            },
            ToolbarAction::NewFolder => {
                self.new_folder_modal = Some(NameModal::new(String::from_str("Create new folder")));
                None
            },
            ToolbarAction::CollapseAll => {
                self.collapse_all_requested = true;
                None
            },
        }
    }

    /// An entry of the context menu of the entry at `path`: deleting asks the worker
    /// to delete it; the two "new" entries, which a folder's menu alone offers, open
    /// their dialog on that folder.
    pub fn context_action(&mut self, path: &String, is_dir: bool, choice: ContextChoice) -> (request: Option<AsyncEventRequest>)
        ensures
            final(self).tree == old(self).tree,
            final(self).files_and_folders == old(self).files_and_folders,
            final(self).show_hidden_files == old(self).show_hidden_files,
            final(self).collapse_all_requested == old(self).collapse_all_requested,
            match choice {
                ContextChoice::Delete => request matches Some(q) && q@ == RequestView::Delete(path@, is_dir)
                    && final(self).new_file_modal == old(self).new_file_modal
                    && final(self).new_folder_modal == old(self).new_folder_modal,
                ContextChoice::NewFile => request is None
                    && (is_dir ==> (final(self).new_file_modal matches Some(m) && m.title@ == "Create new file"@
                        && m.path@ == path@ && m.text is None && m.name@.len() == 0))
                    && (!is_dir ==> final(self).new_file_modal == old(self).new_file_modal)
                    && final(self).new_folder_modal == old(self).new_folder_modal,
                ContextChoice::NewFolder => request is None
                    && (is_dir ==> (final(self).new_folder_modal matches Some(m) && m.title@ == "Create new folder"@
                        && m.path@ == path@ && m.text is None && m.name@.len() == 0))
                    && (!is_dir ==> final(self).new_folder_modal == old(self).new_folder_modal)
                    && final(self).new_file_modal == old(self).new_file_modal,
            },
    {
        match choice {
            ContextChoice::Delete => Some(AsyncEventRequest::Delete(path.clone(), is_dir)),
            ContextChoice::NewFile => {
                if is_dir {
                    self.new_file_modal = Some(
                        NameModal::new_with_path(String::from_str("Create new file"), path.clone()),
                    );
                }
                None
            },
            ContextChoice::NewFolder => {
                if is_dir {
                    self.new_folder_modal = Some(
                        NameModal::new_with_path(String::from_str("Create new folder"), path.clone()),
                    );
                }
                None
            },
        }
    }

    /// What a naming dialog reported: an accepted name asks the worker to create the
    /// file or folder and closes the dialog; a cancelled dialog closes; an open one
    /// stays.
    pub fn on_modal_result(&mut self, kind: ModalKind, result: NameModalResult) -> (request: Option<AsyncEventRequest>)
        ensures
            final(self).tree == old(self).tree,
            final(self).files_and_folders == old(self).files_and_folders,
            final(self).show_hidden_files == old(self).show_hidden_files,
            final(self).collapse_all_requested == old(self).collapse_all_requested,
            match kind {
                ModalKind::NewFile => final(self).new_folder_modal == old(self).new_folder_modal
                    && match result {
                        NameModalResult::Accepted(p, n) => final(self).new_file_modal is None
                            && (request matches Some(q) && q@ == RequestView::CreateNewFile(p@, n@)),
                        NameModalResult::Cancelled => final(self).new_file_modal is None && request is None,
                        NameModalResult::Open => final(self).new_file_modal == old(self).new_file_modal
                            && request is None,
                    },
                ModalKind::NewFolder => final(self).new_file_modal == old(self).new_file_modal
                    && match result {
                        NameModalResult::Accepted(p, n) => final(self).new_folder_modal is None
                            && (request matches Some(q) && q@ == RequestView::CreateNewFolder(p@, n@)),
                        NameModalResult::Cancelled => final(self).new_folder_modal is None && request is None,
                        NameModalResult::Open => final(self).new_folder_modal == old(self).new_folder_modal
                            && request is None,
                    },
            },
    {
        match kind {
            ModalKind::NewFile => match result {
                NameModalResult::Accepted(path, name) => {
                    self.new_file_modal = None;
                    Some(AsyncEventRequest::CreateNewFile(path, name))
                },
                NameModalResult::Cancelled => {
                    self.new_file_modal = None;
                    None
                },
                NameModalResult::Open => None,
            },
            ModalKind::NewFolder => match result {
                NameModalResult::Accepted(path, name) => {
                    self.new_folder_modal = None;
                    Some(AsyncEventRequest::CreateNewFolder(path, name))
                },
                NameModalResult::Cancelled => {
                    self.new_folder_modal = None;
                    None
                },
                NameModalResult::Open => None,
            },
        }
    }

    /// What the worker reported: a listing replaces the files and folders; a new tab
    /// joins the dock and the first tab of the same file name on the main surface
    /// is made active.
    pub fn on_response(&mut self, response: AsyncEventResponse)
        requires
            can_push_tab(old(self).tree),
        ensures
            can_push_tab(final(self).tree),
            final(self).new_file_modal == old(self).new_file_modal,
            final(self).new_folder_modal == old(self).new_folder_modal,
            final(self).show_hidden_files == old(self).show_hidden_files,
            final(self).collapse_all_requested == old(self).collapse_all_requested,
            match response {
                AsyncEventResponse::GetFilesAndFolders(files) => final(self).files_and_folders == files
                    && final(self).tree == old(self).tree,
                AsyncEventResponse::GetTab(tab) => final(self).files_and_folders == old(self).files_and_folders
                    && all_tab_paths(final(self).tree) == all_tab_paths(old(self).tree).insert(tab.file.path@)
                    && forall|n: int, t: int|
                        #[trigger] first_named(main_tab_paths(final(self).tree), n, t, last_segment(tab.file.path@))
                        ==> main_active_tabs(final(self).tree)[n] == Some(t as nat),
            },
    {
        match response {
            AsyncEventResponse::GetFilesAndFolders(files) => {
                self.files_and_folders = files;
            },
            AsyncEventResponse::GetTab(tab) => {
                let file = tab.file.clone();
                push_to_focused_leaf(&mut self.tree, tab);
                let ghost mid = self.tree;
                let _ = focus_tab(&mut self.tree, &file);
                proof {
                    assert forall|n: int, t: int|
                        #[trigger] first_named(main_tab_paths(self.tree), n, t, last_segment(file.path@))
                        implies main_active_tabs(self.tree)[n] == Some(t as nat) by {
                        crate::dock::lemma_focus_makes_first_active(
                            main_tab_paths(mid),
                            main_active_tabs(mid),
                            last_segment(file.path@),
                            n,
                            t,
                        );
                    }
                }
            },
        }
    }

    /// The folders to close in the tree view: all folder paths, depth first, when
    /// collapsing was asked for (which clears the request), otherwise none.
    pub fn take_collapse_paths(&mut self) -> (paths: Vec<String>)
        ensures
            old(self).collapse_all_requested ==> strings_view(paths@) == dir_paths(files_view(old(self).files_and_folders@)),
            !old(self).collapse_all_requested ==> paths@.len() == 0,
            !final(self).collapse_all_requested,
            final(self).tree == old(self).tree,
            final(self).files_and_folders == old(self).files_and_folders,
            final(self).new_file_modal == old(self).new_file_modal,
            final(self).new_folder_modal == old(self).new_folder_modal,
            final(self).show_hidden_files == old(self).show_hidden_files,
    {
        let mut paths: Vec<String> = Vec::new();
        if self.collapse_all_requested {
            proof {
                assert(strings_view(paths@) =~= Seq::<Seq<char>>::empty());
            }
            collect_dir_paths(self.files_and_folders.as_slice(), &mut paths);
            proof {
                assert(Seq::<Seq<char>>::empty() + dir_paths(files_view(self.files_and_folders@))
                    =~= dir_paths(files_view(self.files_and_folders@)));
            }
            self.collapse_all_requested = false;
        }
        paths
    }

    /// The rows the tree view shows now.
    pub fn visible_rows(&self) -> (rows: Vec<TreeRow>)
        ensures
            rows_view(rows@) == rows_spec(files_view(self.files_and_folders@), self.show_hidden_files),
            well_nested(rows_view(rows@)),
    {
        proof {
            lemma_rows_well_nested(files_view(self.files_and_folders@), self.show_hidden_files);
        }
        tree_rows(self.files_and_folders.as_slice(), self.show_hidden_files)
    }

    /// What the user did in the tree view. Dragging entries onto a folder asks the
    /// worker to move them there. Activating entries, for each one in order that the
    /// search finds as a file: makes active the first main-surface tab of the same
    /// file name when a tab edits that very path, and asks for a new tab otherwise.
    pub fn on_tree_action(&mut self, action: TreeAction) -> (requests: Vec<AsyncEventRequest>)
        ensures
            can_push_tab(final(self).tree) == can_push_tab(old(self).tree),
            main_tab_paths(final(self).tree) == main_tab_paths(old(self).tree),
            all_tab_paths(final(self).tree) == all_tab_paths(old(self).tree),
            final(self).files_and_folders == old(self).files_and_folders,
            final(self).new_file_modal == old(self).new_file_modal,
            final(self).new_folder_modal == old(self).new_folder_modal,
            final(self).show_hidden_files == old(self).show_hidden_files,
            final(self).collapse_all_requested == old(self).collapse_all_requested,
            match action {
                TreeAction::Move(sources, target) => requests_view(requests@)
                    == seq![RequestView::Move(strings_view(sources@), target@)]
                    && final(self).tree == old(self).tree,
                TreeAction::Activate(selected) => requests_view(requests@)
                    == activation_targets(
                        files_view(old(self).files_and_folders@),
                        main_tab_paths(old(self).tree),
                        strings_view(selected@),
                    ).map_values(|f: FileView| RequestView::GetTab(f))
                    && main_active_tabs(final(self).tree) == activation_focus(
                        files_view(old(self).files_and_folders@),
                        main_tab_paths(old(self).tree),
                        strings_view(selected@),
                        main_active_tabs(old(self).tree),
                    ),
                TreeAction::Other => requests@.len() == 0 && final(self).tree == old(self).tree,
            },
    {
        let mut requests: Vec<AsyncEventRequest> = Vec::new();
        match action {
            TreeAction::Move(sources, target) => {
                requests.push(AsyncEventRequest::Move(sources, target));
                proof {
                    assert(requests_view(requests@) =~= seq![RequestView::Move(strings_view(sources@), target@)]);
                }
            },
            TreeAction::Activate(selected) => {
                let ghost files = files_view(self.files_and_folders@);
                let ghost tabs0 = main_tab_paths(self.tree);
                let ghost sel = strings_view(selected@);
                let ghost active0 = main_active_tabs(self.tree);
                let mut i: usize = 0;
                proof {
                    assert(sel.subrange(0, 0) =~= Seq::<Seq<char>>::empty());
                    assert(requests_view(requests@) =~= Seq::<RequestView>::empty());
                }
                while i < selected.len()
                    invariant
                        i <= selected@.len(),
                        sel == strings_view(selected@),
                        files == files_view(self.files_and_folders@),
                        main_tab_paths(self.tree) == tabs0,
                        all_tab_paths(self.tree) == all_tab_paths(old(self).tree),
                        can_push_tab(self.tree) == can_push_tab(old(self).tree),
                        tabs0 == main_tab_paths(old(self).tree),
                        files == files_view(old(self).files_and_folders@),
                        self.files_and_folders == old(self).files_and_folders,
                        self.new_file_modal == old(self).new_file_modal,
                        self.new_folder_modal == old(self).new_folder_modal,
                        self.show_hidden_files == old(self).show_hidden_files,
                        self.collapse_all_requested == old(self).collapse_all_requested,
                        requests_view(requests@) == activation_targets(files, tabs0, sel.subrange(0, i as int))
                            .map_values(|f: FileView| RequestView::GetTab(f)),
                        active0 == main_active_tabs(old(self).tree),
                        main_active_tabs(self.tree) == activation_focus(files, tabs0, sel.subrange(0, i as int), active0),
                    decreases selected@.len() - i,
                {
                    let node_id = &selected[i];
                    let ghost before = activation_targets(files, tabs0, sel.subrange(0, i as int));
                    let ghost focused = activation_focus(files, tabs0, sel.subrange(0, i as int), active0);
                    let ghost prefix = sel.subrange(0, i as int + 1);
                    proof {
                        assert(prefix.drop_last() =~= sel.subrange(0, i as int));
                        assert(prefix.last() == node_id@);
                    }
                    let found = find_in(&self.files_and_folders, node_id);
                    if let Some(found_file) = found {
                        if !found_file.is_dir {
                            let tabs = main_surface_tab_paths(&self.tree);
                            let already_opened_tab = has_tab_for(&tabs, node_id);
                            proof {
                                assert(already_opened_tab == tab_open(tabs0, node_id@));
                            }
                            if already_opened_tab {
                                let _ = focus_tab(&mut self.tree, &found_file);
                                proof {
                                    assert(activation_targets(files, tabs0, prefix) == before);
                                    assert(activation_focus(files, tabs0, prefix, active0)
                                        == focus_spec(tabs0, focused, last_segment(found_file@.path)));
                                }
                            } else {
                                let ghost fv = found_file@;
                                let ghost rv = requests_view(requests@);
                                requests.push(AsyncEventRequest::GetTab(found_file));
                                proof {
                                    assert(requests_view(requests@) =~= rv.push(RequestView::GetTab(fv)));
                                    assert(before.push(fv).map_values(|f: FileView| RequestView::GetTab(f))
                                        =~= before.map_values(|f: FileView| RequestView::GetTab(f)).push(RequestView::GetTab(fv)));
                                    assert(activation_targets(files, tabs0, prefix) == before.push(fv));
                                    assert(activation_focus(files, tabs0, prefix, active0) == focused);
                                    assert(requests_view(requests@) =~= before.push(fv)
                                        .map_values(|f: FileView| RequestView::GetTab(f)));
                                }
                            }
                        } else {
                            proof {
                                assert(activation_targets(files, tabs0, prefix) == before);
                                assert(activation_focus(files, tabs0, prefix, active0) == focused);
                            }
                        }
                    } else {
                        proof {
                            assert(activation_targets(files, tabs0, prefix) == before);
                            assert(activation_focus(files, tabs0, prefix, active0) == focused);
                        }
                    }
                    i = i + 1;
                }
                proof {
                    assert(sel.subrange(0, selected@.len() as int) =~= sel);
                }
            },
            TreeAction::Other => {},
        }
        requests
    }
}

} // verus!
