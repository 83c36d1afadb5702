# code_editor

A small code editor (a file tree beside editor tabs), with its logic verified by Verus.

- `src/` is the verified library:
  - `paths`: the last segment of a path, joining a folder and a name;
  - `services`: the file model `AppFile` and what the file services compute around
    the disk operations (listing entries, new paths, move targets, outcomes);
  - `tree`: finding a file by path, collecting folder paths;
  - `tree_view`: the rows of the tree view and how the view walks over them;
  - `name_modal`: the naming dialog;
  - `tab`: editor tabs and their save messages;
  - `dock`: the tabs held in an `egui_dock::DockState`, and finding a tab;
  - `main_app`: the window's state and how it answers the user and the worker.
- `app/` is the program: the egui window, the tokio worker, disk I/O.
- `tests/` runs the library on concrete values.
