//! Core logic of a small code editor: the model of the file tree, path handling,
//! the rows of the tree view, the naming dialog, editor tabs and the
//! application's state transitions.

pub mod paths;
pub mod services;
pub mod tree;
pub mod tree_view;
pub mod name_modal;
pub mod tab;
pub mod dock;
pub mod main_app;
