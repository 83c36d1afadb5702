//! The model of files and folders, and the computing parts of the file services.

use vstd::prelude::*;
use crate::paths::{
    file_name_of, join_path, last_segment, joined, is_plain_name, lemma_last_segment_of_joined,
    lemma_last_segment_is_plain,
};

verus! {

broadcast use vstd::std_specs::vec::axiom_vec_decreases_to_view;

/// A file or folder as the editor lists it.
#[derive(PartialEq)]
pub struct AppFile {
    pub path: String,
    pub size: u64,
    pub is_dir: bool,
    pub is_hidden: bool,
    pub children: Option<Vec<AppFile>>,
}

/// What an `AppFile` holds, as mathematical values.
pub struct FileView {
    pub path: Seq<char>,
    pub size: u64,
    pub is_dir: bool,
    pub is_hidden: bool,
    pub children: Option<Seq<FileView>>,
}

pub open spec fn file_view(f: AppFile) -> FileView
    decreases f,
{
    FileView {
        path: f.path@,
        size: f.size,
        is_dir: f.is_dir,
        is_hidden: f.is_hidden,
        children: match f.children {
            Some(c) => Some(files_view(c@)),
            None => None,
        },
    }
}

pub open spec fn files_view(s: Seq<AppFile>) -> Seq<FileView>
    decreases s,
{
    if s.len() == 0 {
        Seq::empty()
    } else {
        files_view(s.drop_last()).push(file_view(s.last()))
    }
}

impl View for AppFile {
    type V = FileView;

    open spec fn view(&self) -> FileView {
        file_view(*self)
    }
}

/// `files_view` has one entry per file, and each entry is the view of that file.
pub proof fn lemma_files_view(s: Seq<AppFile>)
    ensures
        files_view(s).len() == s.len(),
        forall|i: int| 0 <= i < s.len() ==> #[trigger] files_view(s)[i] == file_view(s[i]),
    decreases s.len(),
{
    if s.len() > 0 {
        lemma_files_view(s.drop_last());
    }
}

/// The views of the files of `s`, one entry per file.
pub proof fn lemma_files_view_push(s: Seq<AppFile>, f: AppFile)
    ensures
        files_view(s.push(f)) == files_view(s).push(file_view(f)),
{
    assert(s.push(f).drop_last() =~= s);
}

impl AppFile {
    /// A file or folder without children.
    pub fn new(path: String, size: u64, is_dir: bool, is_hidden: bool) -> (f: AppFile)
        ensures
            f@ == (FileView { path: path@, size, is_dir, is_hidden, children: None }),
    {
        AppFile { path, size, is_dir, is_hidden, children: None }
    }

    /// A folder with the given children.
    pub fn new_with_children(path: String, size: u64, children: Vec<AppFile>, is_hidden: bool) -> (f: AppFile)
        ensures
            f@ == (FileView {
                path: path@,
                size,
                is_dir: true,
                is_hidden,
                children: Some(files_view(children@)),
            }),
    {
        AppFile { path, size, is_dir: true, is_hidden, children: Some(children) }
    }

    /// The last `/`-separated segment of the path.
    pub fn file_name(self) -> (name: String)
        ensures
            name@ == last_segment(self.path@),
    {
        file_name_of(self.path.as_str())
    }

    /// A copy of this file and, recursively, of its children.
    pub fn duplicate(&self) -> (copy: AppFile)
        ensures
            copy@ == self@,
        decreases self,
    {
        let children = match &self.children {
            Some(c) => Some(duplicate_all(c)),
            None => None,
        };
        AppFile {
            path: self.path.clone(),
            size: self.size,
            is_dir: self.is_dir,
            is_hidden: self.is_hidden,
            children,
        }
    }
}

/// Copies of the given files, in order.
pub fn duplicate_all(files: &Vec<AppFile>) -> (copies: Vec<AppFile>)
    ensures
        files_view(copies@) == files_view(files@),
    decreases files,
{
    let mut out: Vec<AppFile> = Vec::new();
    let mut i: usize = 0;
    while i < files.len()
        invariant
            i <= files.len(),
            files_view(out@) == files_view(files@.subrange(0, i as int)),
        decreases files.len() - i,
    {
        proof {
            assert(decreases_to!(files => files@[i as int]));
        }
        let c = files[i].duplicate();
        proof {
            lemma_files_view_push(out@, c);
            lemma_files_view_push(files@.subrange(0, i as int), files@[i as int]);
            assert(files@.subrange(0, i as int).push(files@[i as int]) =~= files@.subrange(0, i as int + 1));
        }
        out.push(c);
        i = i + 1;
    }
    proof {
        assert(files@.subrange(0, files@.len() as int) =~= files@);
    }
    out
}

impl Clone for AppFile {
    fn clone(&self) -> (copy: AppFile)
        ensures
            copy@ == self@,
    {
        self.duplicate()
    }
}

/// A name is hidden when it starts with a dot.
pub open spec fn is_hidden(name: Seq<char>) -> bool {
    name.len() > 0 && name[0] == '.'
}

/// Whether a directory entry of this name counts as hidden: its name starts with `.`.
pub fn is_hidden_entry(file_name: &str) -> (hidden: bool)
    ensures
        hidden == is_hidden(file_name@),
        hidden == (file_name@.len() > 0 && file_name@[0] == '.'),
{
    let n: usize = file_name.unicode_len();
    n > 0 && file_name.get_char(0) == '.'
}

/// A name is hidden exactly when it is not empty and starts with a dot; a name
/// whose first character is anything else is never hidden, whatever follows.
pub proof fn lemma_hidden_means_leading_dot(name: Seq<char>)
    ensures
        is_hidden(name) <==> (name.len() > 0 && name[0] == '.'),
        name.len() > 0 && name[0] != '.' ==> !is_hidden(name),
        is_hidden(seq!['.'] + name),
{
    assert((seq!['.'] + name)[0] == '.');
}

/// Whether a name is hidden depends on its first character alone.
pub proof fn lemma_hidden_by_first_char(a: Seq<char>, b: Seq<char>)
    requires
        a.len() > 0,
        b.len() > 0,
        a[0] == b[0],
    ensures
        is_hidden(a) == is_hidden(b),
{
}

/// The services that read and change the files on disk. What they compute around
/// the disk operations stands here.
pub struct FileServices;

impl FileServices {
    /// The entry for a directory listing: a folder with `children` when the entry is
    /// one, otherwise a plain file.
    pub fn listed_entry(path: String, size: u64, children: Option<Vec<AppFile>>, is_hidden: bool) -> (f: AppFile)
        ensures
            f@ == (FileView {
                path: path@,
                size,
                is_dir: children is Some,
                is_hidden,
                children: match children {
                    Some(c) => Some(files_view(c@)),
                    None => None,
                },
            }),
    {
        match children {
            Some(c) => AppFile::new_with_children(path, size, c, is_hidden),
            None => AppFile::new(path, size, false, is_hidden),
        }
    }

    /// The path of a new entry `name` inside the folder `path`.
    pub fn entry_path(path: &str, name: &str) -> (full: String)
        ensures
            full@ == joined(path@, name@),
    {
        join_path(path, name)
    }

    /// What creating a folder reports: an empty, visible folder entry at `path`,
    /// the folder in which the new one was made.
    pub fn created_folder(path: String) -> (f: AppFile)
        ensures
            f@ == (FileView { path: path@, size: 0, is_dir: true, is_hidden: false, children: None }),
    {
        AppFile::new(path, 0, true, false)
    }

    /// What creating a file reports: an empty, visible file entry at `complete_path`.
    pub fn created_file(complete_path: String) -> (f: AppFile)
        ensures
            f@ == (FileView { path: complete_path@, size: 0, is_dir: false, is_hidden: false, children: None }),
    {
        AppFile::new(complete_path, 0, false, false)
    }

    /// For each source, in order, the source and the path it is moved to: the
    /// destination folder joined with the last segment of the source.
    pub fn move_targets(sources: &Vec<String>, destination: &str) -> (moves: Vec<(String, String)>)
        ensures
            moves@.len() == sources@.len(),
            forall|i: int| 0 <= i < sources@.len() ==> {
                &&& (#[trigger] moves@[i]).0@ == sources@[i]@
                &&& moves@[i].1@ == joined(destination@, last_segment(sources@[i]@))
            },
    {
        let mut moves: Vec<(String, String)> = Vec::new();
        let mut i: usize = 0;
        while i < sources.len()
            invariant
                i <= sources@.len(),
                moves@.len() == i,
                forall|j: int| 0 <= j < i ==> {
                    &&& (#[trigger] moves@[j]).0@ == sources@[j]@
                    &&& moves@[j].1@ == joined(destination@, last_segment(sources@[j]@))
                },
            decreases sources@.len() - i,
        {
            let source = &sources[i];
            let name = file_name_of(source.as_str());
            let target = join_path(destination, name.as_str());
            moves.push((source.clone(), target));
            i = i + 1;
        }
        moves
    }
}

/// A file moved into a folder keeps its name.
pub proof fn lemma_move_keeps_name(destination: Seq<char>, source: Seq<char>)
    ensures
        last_segment(joined(destination, last_segment(source))) == last_segment(source),
{
    lemma_last_segment_is_plain(source);
    lemma_last_segment_of_joined(destination, last_segment(source));
}

/// A file created under a name that holds no `/` is listed under that name.
pub proof fn lemma_created_file_name(path: Seq<char>, name: Seq<char>)
    requires
        is_plain_name(name),
    ensures
        last_segment(joined(path, name)) == name,
{
    lemma_last_segment_of_joined(path, name);
}

impl AppFile {
    /// What reading the file reports: its content, or `"File not found"` when it
    /// could not be read.
    pub fn read_outcome(content: Option<String>) -> (r: Result<String, String>)
        ensures
            match content {
                Some(c) => r matches Ok(s) && s@ == c@,
                None => r matches Err(e) && e@ == "File not found"@,
            },
    {
        match content {
            Some(c) => Ok(c),
            None => Err(String::from_str("File not found")),
        }
    }

    /// What saving the file reports, from whether it could be opened for writing
    /// and whether the content was written.
    pub fn save_outcome(opened: bool, written: bool) -> (r: Result<String, String>)
        ensures
            opened && written ==> (r matches Ok(s) && s@ == "Successfully saved"@),
            opened && !written ==> (r matches Err(e) && e@ == "Error saving file"@),
            !opened ==> (r matches Err(e) && e@ == "File opening found"@),
    {
        if opened {
            if written {
                return Ok(String::from_str("Successfully saved"));
            }
            return Err(String::from_str("Error saving file"));
        }
        Err(String::from_str("File opening found"))
    }
}

} // verus!
