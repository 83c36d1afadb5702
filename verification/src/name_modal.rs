//! The dialog that asks for the name of a new file or folder.

use vstd::prelude::*;

verus! {

/// A dialog asking for a name, to create it inside the folder `path`.
pub struct NameModal {
    pub title: String,
    pub text: Option<String>,
    pub path: String,
    pub name: String,
}

/// Where the dialog stands after a frame.
pub enum NameModalResult {
    Open,
    Cancelled,
    /// The folder and the name that were accepted.
    Accepted(String, String),
}

impl NameModal {
    /// A dialog for the current folder `.`, with no text and an empty name.
    pub fn new(title: String) -> (m: NameModal)
        ensures
            m.title@ == title@,
            m.text is None,
            m.path@ == "."@,
            m.name@ == Seq::<char>::empty(),
    {
        NameModal { title, text: None, path: String::from_str("."), name: String::new() }
    }

    /// A dialog for the current folder `.` that shows `text` under its title.
    pub fn new_with_body(title: String, text: String) -> (m: NameModal)
        ensures
            m.title@ == title@,
            m.text matches Some(t) && t@ == text@,
            m.path@ == "."@,
            m.name@ == Seq::<char>::empty(),
    {
        NameModal { title, text: Some(text), path: String::from_str("."), name: String::new() }
    }

    /// A dialog for the folder `path`.
    pub fn new_with_path(title: String, path: String) -> (m: NameModal)
        ensures
            m.title@ == title@,
            m.text is None,
            m.path@ == path@,
            m.name@ == Seq::<char>::empty(),
    {
        NameModal { title, text: None, path, name: String::new() }
    }

    /// The result of one frame of the dialog, from whether "Close" and "Accept" were
    /// clicked and whether the dialog is closing: while it stays open the result is
    /// `Open`; when it closes, "Accept" wins over "Close", and a dialog closed in
    /// any other way counts as cancelled.
    pub fn resolve(&self, close_clicked: bool, accept_clicked: bool, should_close: bool) -> (r: NameModalResult)
        ensures
            !should_close ==> r is Open,
            should_close && accept_clicked ==> (r matches NameModalResult::Accepted(p, n)
                && p@ == self.path@ && n@ == self.name@),
            should_close && !accept_clicked ==> r is Cancelled,
    {
        let mut result = NameModalResult::Open;
        if close_clicked {
            result = NameModalResult::Cancelled;
        }
        if accept_clicked {
            result = NameModalResult::Accepted(self.path.clone(), self.name.clone());
        }
        if should_close {
            match result {
                NameModalResult::Open => NameModalResult::Cancelled,
                other => other,
            }
        } else {
            NameModalResult::Open
        }
    }
}

} // verus!
