//! Walks over the tree of files: finding a file by path, collecting the folder
//! paths, and the rows that the tree view shows.

use vstd::prelude::*;
use crate::services::{AppFile, FileView, file_view, files_view, lemma_files_view};

verus! {

broadcast use vstd::std_specs::vec::axiom_vec_decreases_to_view;

/// The first file, in depth-first order, whose path is `name`, looking into the
/// children of folders only.
pub open spec fn search_spec(files: Seq<FileView>, name: Seq<char>) -> Option<FileView>
    decreases files,
{
    if files.len() == 0 {
        None
    } else {
        let before = search_spec(files.drop_last(), name);
        if before is Some {
            before
        } else {
            search_file_spec(files.last(), name)
        }
    }
}

/// `f` itself when its path is `name`, otherwise the search among its children when
/// it is a folder that has them.
pub open spec fn search_file_spec(f: FileView, name: Seq<char>) -> Option<FileView>
    decreases f,
{
    if f.path == name {
        Some(f)
    } else if f.is_dir {
        match f.children {
            Some(c) => search_spec(c, name),
            None => None,
        }
    } else {
        None
    }
}

/// Once a file has been found among the first files, more files after them change
/// nothing.
proof fn lemma_search_prefix(files: Seq<FileView>, k: int, name: Seq<char>)
    requires
        0 <= k <= files.len(),
        search_spec(files.subrange(0, k), name) is Some,
    ensures
        search_spec(files, name) == search_spec(files.subrange(0, k), name),
    decreases files.len() - k,
{
    if k < files.len() {
        let next = files.subrange(0, k + 1);
        assert(next.drop_last() =~= files.subrange(0, k));
        lemma_search_prefix(files, k + 1, name);
    } else {
        assert(files.subrange(0, k) =~= files);
    }
}

pub(crate) fn find_in(files: &Vec<AppFile>, name: &String) -> (found: Option<AppFile>)
    ensures
        match found {
            Some(f) => search_spec(files_view(files@), name@) == Some(f@),
            None => search_spec(files_view(files@), name@) is None,
        },
    decreases files,
{
    let ghost fv = files_view(files@);
    proof {
        lemma_files_view(files@);
        assert(fv.subrange(0, 0) =~= Seq::<FileView>::empty());
    }
    let mut i: usize = 0;
    while i < files.len()
        invariant
            i <= files.len(),
            fv == files_view(files@),
            fv.len() == files@.len(),
            forall|j: int| 0 <= j < files@.len() ==> #[trigger] fv[j] == file_view(files@[j]),
            search_spec(fv.subrange(0, i as int), name@) is None,
        decreases files.len() - i,
    {
        let f = &files[i];
        let ghost prefix = fv.subrange(0, i as int + 1);
        proof {
            assert(prefix.drop_last() =~= fv.subrange(0, i as int));
            assert(prefix.last() == f@);
        }
        if f.path == *name {
            proof {
                assert(search_file_spec(f@, name@) == Some(f@));
                assert(search_spec(prefix, name@) == Some(f@));
                lemma_search_prefix(fv, i as int + 1, name@);
            }
            return Some(f.duplicate());
        }
        if f.is_dir {
            if let Some(children) = &f.children {
                proof {
                    assert(decreases_to!(files => files@[i as int]));
                }
                let r = find_in(children, name);
                if r.is_some() {
                    proof {
                        lemma_search_prefix(fv, i as int + 1, name@);
                    }
                    return r;
                }
            }
        }
        i = i + 1;
    }
    proof {
        assert(fv.subrange(0, files@.len() as int) =~= fv);
    }
    None
}

/// The first file, in depth-first order, whose path is `name`; the children of a
/// folder are searched before the files that follow it.
pub fn search_app_file(files_and_folders: Vec<AppFile>, name: String) -> (found: Option<AppFile>)
    ensures
        match found {
            Some(f) => search_spec(files_view(files_and_folders@), name@) == Some(f@),
            None => search_spec(files_view(files_and_folders@), name@) is None,
        },
{
    find_in(&files_and_folders, &name)
}

/// The paths of all files that the search looks at, in the order it looks at them.
pub open spec fn all_paths(files: Seq<FileView>) -> Seq<Seq<char>>
    decreases files,
{
    if files.len() == 0 {
        Seq::empty()
    } else {
        all_paths(files.drop_last()) + file_paths(files.last())
    }
}

/// The path of `f`, then the paths under it when it is a folder with children.
pub open spec fn file_paths(f: FileView) -> Seq<Seq<char>>
    decreases f,
{
    seq![f.path] + if f.is_dir {
        match f.children {
            Some(c) => all_paths(c),
            None => Seq::empty(),
        }
    } else {
        Seq::empty()
    }
}

/// The folder paths of the tree, depth first, a folder before what it holds.
pub open spec fn dir_paths(files: Seq<FileView>) -> Seq<Seq<char>>
    decreases files,
{
    if files.len() == 0 {
        Seq::empty()
    } else {
        dir_paths(files.drop_last()) + file_dir_paths(files.last())
    }
}

/// The path of `f` and the folder paths under it, when `f` is a folder.
pub open spec fn file_dir_paths(f: FileView) -> Seq<Seq<char>>
    decreases f,
{
    if f.is_dir {
        seq![f.path] + match f.children {
            Some(c) => dir_paths(c),
            None => Seq::empty(),
        }
    } else {
        Seq::empty()
    }
}

/// The views of a sequence of strings.
pub open spec fn strings_view(s: Seq<String>) -> Seq<Seq<char>> {
    s.map_values(|x: String| x@)
}

/// Appends to `paths` the path of every folder of the tree, depth first.
pub fn collect_dir_paths(files: &[AppFile], paths: &mut Vec<String>)
    ensures
        strings_view(final(paths)@) == strings_view(old(paths)@) + dir_paths(files_view(files@)),
    decreases files@,
{
    let ghost fv = files_view(files@);
    let ghost start = strings_view(paths@);
    proof {
        lemma_files_view(files@);
        assert(fv.subrange(0, 0) =~= Seq::<FileView>::empty());
        assert(start + dir_paths(Seq::<FileView>::empty()) =~= start);
    }
    let mut i: usize = 0;
    while i < files.len()
        invariant
            i <= files@.len(),
            fv == files_view(files@),
            fv.len() == files@.len(),
            forall|j: int| 0 <= j < files@.len() ==> #[trigger] fv[j] == file_view(files@[j]),
            strings_view(paths@) == start + dir_paths(fv.subrange(0, i as int)),
        decreases files@.len() - i,
    {
        let f = &files[i];
        let ghost before = strings_view(paths@);
        let ghost prefix = fv.subrange(0, i as int + 1);
        proof {
            assert(prefix.drop_last() =~= fv.subrange(0, i as int));
            assert(prefix.last() == f@);
        }
        if f.is_dir {
            paths.push(f.path.clone());
            proof {
                assert(strings_view(paths@) =~= before.push(f.path@));
            }
            if let Some(children) = &f.children {
                let ghost mid = strings_view(paths@);
                proof {
                    assert(decreases_to!(files@ => files@[i as int]));
                }
                collect_dir_paths(children.as_slice(), paths);
                proof {
                    assert(strings_view(paths@) =~= before + file_dir_paths(f@));
                }
            } else {
                proof {
                    assert(strings_view(paths@) =~= before + file_dir_paths(f@));
                }
            }
        } else {
            proof {
                assert(file_dir_paths(f@) =~= Seq::<Seq<char>>::empty());
                assert(before + file_dir_paths(f@) =~= before);
            }
        }
        i = i + 1;
    }
    proof {
        assert(fv.subrange(0, files@.len() as int) =~= fv);
    }
}

proof fn lemma_contains_concat(a: Seq<Seq<char>>, b: Seq<Seq<char>>, x: Seq<char>)
    ensures
        (a + b).contains(x) == (a.contains(x) || b.contains(x)),
{
    if a.contains(x) {
        let i = choose|i: int| 0 <= i < a.len() && a[i] == x;
        assert((a + b)[i] == x);
    }
    if b.contains(x) {
        let i = choose|i: int| 0 <= i < b.len() && b[i] == x;
        assert((a + b)[a.len() + i] == x);
    }
    if (a + b).contains(x) {
        let i = choose|i: int| 0 <= i < (a + b).len() && (a + b)[i] == x;
        if i < a.len() {
            assert(a[i] == x);
        } else {
            assert(b[i - a.len()] == x);
        }
    }
}

/// The search finds a file exactly when some file that it looks at has the path it
/// looks for, and what it finds has that path.
pub proof fn lemma_search_finds_exactly_the_path(files: Seq<FileView>, name: Seq<char>)
    ensures
        (search_spec(files, name) is Some) == all_paths(files).contains(name),
        search_spec(files, name) matches Some(f) ==> f.path == name,
    decreases files,
{
    if files.len() > 0 {
        lemma_search_finds_exactly_the_path(files.drop_last(), name);
        lemma_search_file_finds_exactly_the_path(files.last(), name);
        lemma_contains_concat(all_paths(files.drop_last()), file_paths(files.last()), name);
    }
}

proof fn lemma_search_file_finds_exactly_the_path(f: FileView, name: Seq<char>)
    ensures
        (search_file_spec(f, name) is Some) == file_paths(f).contains(name),
        search_file_spec(f, name) matches Some(g) ==> g.path == name,
    decreases f,
{
    let below: Seq<Seq<char>> = if f.is_dir {
        match f.children {
            Some(c) => all_paths(c),
            None => Seq::empty(),
        }
    } else {
        Seq::empty()
    };
    assert(file_paths(f) == seq![f.path] + below);
    lemma_contains_concat(seq![f.path], below, name);
    assert(seq![f.path].contains(name) == (f.path == name)) by {
        if f.path == name {
            assert(seq![f.path][0] == name);
        }
    }
    if f.is_dir {
        if let Some(c) = f.children {
            lemma_search_finds_exactly_the_path(c, name);
        }
    }
}

/// Every collected folder path is among the paths that the search looks at.
pub proof fn lemma_dir_paths_are_searched(files: Seq<FileView>, p: Seq<char>)
    requires
        dir_paths(files).contains(p),
    ensures
        all_paths(files).contains(p),
    decreases files,
{
    if files.len() > 0 {
        let rest = files.drop_last();
        let f = files.last();
        lemma_contains_concat(dir_paths(rest), file_dir_paths(f), p);
        lemma_contains_concat(all_paths(rest), file_paths(f), p);
        if dir_paths(rest).contains(p) {
            lemma_dir_paths_are_searched(rest, p);
        } else {
            lemma_file_dir_paths_are_searched(f, p);
        }
    }
}

proof fn lemma_file_dir_paths_are_searched(f: FileView, p: Seq<char>)
    requires
        file_dir_paths(f).contains(p),
    ensures
        file_paths(f).contains(p),
    decreases f,
{
    if f.is_dir {
        let below: Seq<Seq<char>> = match f.children {
            Some(c) => all_paths(c),
            None => Seq::empty(),
        };
        let dirs_below: Seq<Seq<char>> = match f.children {
            Some(c) => dir_paths(c),
            None => Seq::empty(),
        };
        lemma_contains_concat(seq![f.path], below, p);
        lemma_contains_concat(seq![f.path], dirs_below, p);
        if let Some(c) = f.children {
            if dir_paths(c).contains(p) {
                lemma_dir_paths_are_searched(c, p);
            }
        }
    }
}

/// Every folder that the search can reach is collected: whatever path the search
/// finds as a folder is among the collected folder paths, whether or not that
/// folder or the folders above it are hidden.
pub proof fn lemma_every_folder_is_collected(files: Seq<FileView>, p: Seq<char>)
    requires
        search_spec(files, p) matches Some(f) && f.is_dir,
    ensures
        dir_paths(files).contains(p),
    decreases files,
{
    let rest = files.drop_last();
    let last = files.last();
    lemma_contains_concat(dir_paths(rest), file_dir_paths(last), p);
    if search_spec(rest, p) is Some {
        lemma_every_folder_is_collected(rest, p);
    } else {
        lemma_every_folder_in_file_is_collected(last, p);
    }
}

proof fn lemma_every_folder_in_file_is_collected(f: FileView, p: Seq<char>)
    requires
        search_file_spec(f, p) matches Some(g) && g.is_dir,
    ensures
        file_dir_paths(f).contains(p),
    decreases f,
{
    let below: Seq<Seq<char>> = match f.children {
        Some(c) => dir_paths(c),
        None => Seq::empty(),
    };
    assert(file_dir_paths(f) == seq![f.path] + below);
    lemma_contains_concat(seq![f.path], below, p);
    if f.path == p {
        assert(seq![f.path][0] == p);
    } else if let Some(c) = f.children {
        lemma_every_folder_is_collected(c, p);
    }
}

} // verus!
