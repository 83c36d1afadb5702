//! The rows that the file tree view shows, and how the view walks over them.

use vstd::prelude::*;
use crate::paths::{file_name_of, last_segment};
use crate::services::{AppFile, FileView, file_view, files_view, lemma_files_view};
use crate::tree::{all_paths, file_paths};

verus! {

broadcast use vstd::std_specs::vec::axiom_vec_decreases_to_view;

/// One row of the tree view: a folder opens a level, `CloseDir` ends it.
pub enum TreeRow {
    /// A folder; `inner` is the number of rows between it and its `CloseDir`.
    Dir { path: String, label: String, inner: usize },
    Leaf { path: String, label: String },
    CloseDir,
}

/// What a `TreeRow` holds, as mathematical values.
pub enum RowView {
    Dir { path: Seq<char>, label: Seq<char>, inner: nat },
    Leaf { path: Seq<char>, label: Seq<char> },
    CloseDir,
}

impl View for TreeRow {
    type V = RowView;

    open spec fn view(&self) -> RowView {
        match self {
            TreeRow::Dir { path, label, inner } => RowView::Dir {
                path: path@,
                label: label@,
                inner: *inner as nat,
            },
            TreeRow::Leaf { path, label } => RowView::Leaf { path: path@, label: label@ },
            TreeRow::CloseDir => RowView::CloseDir,
        }
    }
}

pub open spec fn rows_view(rows: Seq<TreeRow>) -> Seq<RowView> {
    rows.map_values(|r: TreeRow| r@)
}

/// The rows of the files, in order; hidden files are left out unless `show_hidden`.
pub open spec fn rows_spec(files: Seq<FileView>, show_hidden: bool) -> Seq<RowView>
    decreases files,
{
    if files.len() == 0 {
        Seq::empty()
    } else {
        rows_spec(files.drop_last(), show_hidden) + file_rows_spec(files.last(), show_hidden)
    }
}

/// The rows of one file: none when it is hidden and hidden files are not shown; a
/// leaf row for a file; for a folder its row, the rows of its children and a
/// closing row.
pub open spec fn file_rows_spec(f: FileView, show_hidden: bool) -> Seq<RowView>
    decreases f,
{
    if !show_hidden && f.is_hidden {
        Seq::empty()
    } else if f.is_dir {
        let inner = match f.children {
            Some(c) => rows_spec(c, show_hidden),
            None => Seq::empty(),
        };
        seq![RowView::Dir { path: f.path, label: last_segment(f.path), inner: inner.len() }]
            + inner + seq![RowView::CloseDir]
    } else {
        seq![RowView::Leaf { path: f.path, label: last_segment(f.path) }]
    }
}

/// The folder row at `j` is followed, `inner` rows later, by a closing row.
pub open spec fn closes_at(rows: Seq<RowView>, j: int) -> bool {
    match rows[j] {
        RowView::Dir { inner, .. } => j + 1 + inner < rows.len() && rows[j + 1 + inner] is CloseDir,
        _ => true,
    }
}

/// Every folder row is closed by the row that its count points at.
pub open spec fn well_nested(rows: Seq<RowView>) -> bool {
    forall|j: int| 0 <= j < rows.len() ==> #[trigger] closes_at(rows, j)
}

/// The rows of the tree view for `files`: a folder row, the rows of its children
/// and a closing row for each folder, a leaf row for each file, depth first, with
/// hidden entries left out unless `show_hidden`. The children of a folder come
/// only from a folder; those of a file are ignored.
pub fn tree_rows(files: &[AppFile], show_hidden: bool) -> (rows: Vec<TreeRow>)
    ensures
        rows_view(rows@) == rows_spec(files_view(files@), show_hidden),
    decreases files@,
{
    let ghost fv = files_view(files@);
    proof {
        lemma_files_view(files@);
        assert(fv.subrange(0, 0) =~= Seq::<FileView>::empty());
    }
    let mut rows: Vec<TreeRow> = Vec::new();
    proof {
        assert(rows_view(rows@) =~= Seq::<RowView>::empty());
    }
    let mut i: usize = 0;
    while i < files.len()
        invariant
            i <= files@.len(),
            fv == files_view(files@),
            fv.len() == files@.len(),
            forall|j: int| 0 <= j < files@.len() ==> #[trigger] fv[j] == file_view(files@[j]),
            rows_view(rows@) == rows_spec(fv.subrange(0, i as int), show_hidden),
        decreases files@.len() - i,
    {
        let f = &files[i];
        let ghost before = rows_view(rows@);
        let ghost prefix = fv.subrange(0, i as int + 1);
        proof {
            assert(prefix.drop_last() =~= fv.subrange(0, i as int));
            assert(prefix.last() == f@);
        }
        if !show_hidden && f.is_hidden {
            proof {
                assert(before + file_rows_spec(f@, show_hidden) =~= before);
            }
        } else if f.is_dir {
            let mut inner: Vec<TreeRow> = match &f.children {
                Some(children) => {
                    proof {
                        assert(decreases_to!(files@ => files@[i as int]));
                    }
                    tree_rows(children.as_slice(), show_hidden)
                },
                None => {
                    let empty: Vec<TreeRow> = Vec::new();
                    proof {
                        assert(rows_view(empty@) =~= Seq::<RowView>::empty());
                    }
                    empty
                },
            };
            let ghost inner_view = rows_view(inner@);
            let label = file_name_of(f.path.as_str());
            rows.push(TreeRow::Dir { path: f.path.clone(), label, inner: inner.len() });
            rows.append(&mut inner);
            rows.push(TreeRow::CloseDir);
            proof {
                assert(rows_view(rows@) =~= before + file_rows_spec(f@, show_hidden));
            }
        } else {
            let label = file_name_of(f.path.as_str());
            rows.push(TreeRow::Leaf { path: f.path.clone(), label });
            proof {
                assert(rows_view(rows@) =~= before + file_rows_spec(f@, show_hidden));
            }
        }
        i = i + 1;
    }
    proof {
        assert(fv.subrange(0, files@.len() as int) =~= fv);
    }
    rows
}

proof fn lemma_well_nested_concat(a: Seq<RowView>, b: Seq<RowView>)
    requires
        well_nested(a),
        well_nested(b),
    ensures
        well_nested(a + b),
{
    let s = a + b;
    assert forall|j: int| 0 <= j < s.len() implies #[trigger] closes_at(s, j) by {
        if j < a.len() {
            assert(closes_at(a, j));
            assert(s[j] == a[j]);
            if let RowView::Dir { inner, .. } = a[j] {
                assert(s[j + 1 + inner] == a[j + 1 + inner]);
            }
        } else {
            let k = j - a.len();
            assert(closes_at(b, k));
            assert(s[j] == b[k]);
            if let RowView::Dir { inner, .. } = b[k] {
                assert(s[j + 1 + inner] == b[k + 1 + inner]);
            }
        }
    }
}

/// In the rows of any tree, every folder row is closed by the row that its count
/// points at, so skipping a closed folder lands on its closing row.
pub proof fn lemma_rows_well_nested(files: Seq<FileView>, show_hidden: bool)
    ensures
        well_nested(rows_spec(files, show_hidden)),
    decreases files,
{
    if files.len() == 0 {
        assert(well_nested(rows_spec(files, show_hidden)));
    } else {
        lemma_rows_well_nested(files.drop_last(), show_hidden);
        lemma_file_rows_well_nested(files.last(), show_hidden);
        lemma_well_nested_concat(
            rows_spec(files.drop_last(), show_hidden),
            file_rows_spec(files.last(), show_hidden),
        );
    }
}

proof fn lemma_file_rows_well_nested(f: FileView, show_hidden: bool)
    ensures
        well_nested(file_rows_spec(f, show_hidden)),
    decreases f,
{
    if !show_hidden && f.is_hidden {
        assert(well_nested(file_rows_spec(f, show_hidden)));
    } else if f.is_dir {
        let inner = match f.children {
            Some(c) => rows_spec(c, show_hidden),
            None => Seq::empty(),
        };
        if let Some(c) = f.children {
            lemma_rows_well_nested(c, show_hidden);
        }
        assert(well_nested(inner));
        let head = seq![RowView::Dir { path: f.path, label: last_segment(f.path), inner: inner.len() }];
        let tail = seq![RowView::CloseDir];
        let s = head + inner + tail;
        assert(s == file_rows_spec(f, show_hidden));
        assert forall|j: int| 0 <= j < s.len() implies #[trigger] closes_at(s, j) by {
            if j == 0 {
                assert(s[1 + inner.len() as int] == RowView::CloseDir);
            } else if j <= inner.len() {
                let k = j - 1;
                assert(closes_at(inner, k));
                assert(s[j] == inner[k]);
                if let RowView::Dir { inner: n, .. } = inner[k] {
                    assert(s[j + 1 + n] == inner[k + 1 + n]);
                }
            } else {
                assert(s[j] == RowView::CloseDir);
            }
        }
    } else {
        let s = file_rows_spec(f, show_hidden);
        assert forall|j: int| 0 <= j < s.len() implies #[trigger] closes_at(s, j) by {
            assert(s[j] is Leaf);
        }
    }
}

/// The files with every hidden entry left out, at every level.
pub open spec fn without_hidden(files: Seq<FileView>) -> Seq<FileView>
    decreases files,
{
    if files.len() == 0 {
        Seq::empty()
    } else {
        let rest = without_hidden(files.drop_last());
        if files.last().is_hidden {
            rest
        } else {
            rest.push(file_without_hidden(files.last()))
        }
    }
}

/// The file with the hidden entries under it left out.
pub open spec fn file_without_hidden(f: FileView) -> FileView
    decreases f,
{
    FileView {
        children: match f.children {
            Some(c) => Some(without_hidden(c)),
            None => None,
        },
        ..f
    }
}

/// Not showing hidden entries shows the same rows as showing everything of the tree
/// with its hidden entries taken out, at every level.
pub proof fn lemma_hiding_is_removing(files: Seq<FileView>)
    ensures
        rows_spec(files, false) == rows_spec(without_hidden(files), true),
    decreases files,
{
    if files.len() > 0 {
        let rest = files.drop_last();
        let f = files.last();
        lemma_hiding_is_removing(rest);
        if !f.is_hidden {
            let w = without_hidden(rest).push(file_without_hidden(f));
            assert(w.drop_last() =~= without_hidden(rest));
            assert(w.last() == file_without_hidden(f));
            lemma_file_hiding_is_removing(f);
            assert(without_hidden(files) == w);
            assert(rows_spec(w, true) == rows_spec(w.drop_last(), true) + file_rows_spec(w.last(), true));
        } else {
            assert(file_rows_spec(f, false) =~= Seq::<RowView>::empty());
            assert(rows_spec(files, false) =~= rows_spec(rest, false));
        }
    }
}

proof fn lemma_file_hiding_is_removing(f: FileView)
    requires
        !f.is_hidden,
    ensures
        file_rows_spec(f, false) == file_rows_spec(file_without_hidden(f), true),
    decreases f,
{
    if let Some(c) = f.children {
        lemma_hiding_is_removing(c);
    }
}

/// The paths of the folder and file rows, in order; closing rows have none.
pub open spec fn row_paths(rows: Seq<RowView>) -> Seq<Seq<char>>
    decreases rows.len(),
{
    if rows.len() == 0 {
        Seq::empty()
    } else {
        let before = row_paths(rows.drop_last());
        match rows.last() {
            RowView::Dir { path, .. } => before.push(path),
            RowView::Leaf { path, .. } => before.push(path),
            RowView::CloseDir => before,
        }
    }
}

proof fn lemma_row_paths_concat(a: Seq<RowView>, b: Seq<RowView>)
    ensures
        row_paths(a + b) == row_paths(a) + row_paths(b),
    decreases b.len(),
{
    if b.len() == 0 {
        assert(a + b =~= a);
        assert(row_paths(a) + row_paths(b) =~= row_paths(a));
    } else {
        assert((a + b).drop_last() =~= a + b.drop_last());
        assert((a + b).last() == b.last());
        lemma_row_paths_concat(a, b.drop_last());
        match b.last() {
            RowView::CloseDir => {},
            _ => {
                assert(row_paths(a) + row_paths(b.drop_last()).push(
                    match b.last() { RowView::Dir { path, .. } => path, RowView::Leaf { path, .. } => path, _ => Seq::empty() },
                ) =~= (row_paths(a) + row_paths(b.drop_last())).push(
                    match b.last() { RowView::Dir { path, .. } => path, RowView::Leaf { path, .. } => path, _ => Seq::empty() },
                ));
            },
        }
    }
}

/// With hidden entries shown, the tree view has one row for every entry the tree
/// holds, in depth-first order: every folder, empty or not, hidden or not, with
/// its children under it, and every file. (A file's own children are not entries
/// of the tree.)
pub proof fn lemma_shown_rows_are_all_entries(files: Seq<FileView>)
    ensures
        row_paths(rows_spec(files, true)) == all_paths(files),
    decreases files,
{
    if files.len() > 0 {
        let rest = files.drop_last();
        let f = files.last();
        lemma_shown_rows_are_all_entries(rest);
        lemma_shown_file_rows_are_its_entries(f);
        lemma_row_paths_concat(rows_spec(rest, true), file_rows_spec(f, true));
    }
}

proof fn lemma_shown_file_rows_are_its_entries(f: FileView)
    ensures
        row_paths(file_rows_spec(f, true)) == file_paths(f),
    decreases f,
{
    if f.is_dir {
        let inner = match f.children {
            Some(c) => rows_spec(c, true),
            None => Seq::empty(),
        };
        if let Some(c) = f.children {
            lemma_shown_rows_are_all_entries(c);
        }
        let head = seq![RowView::Dir { path: f.path, label: last_segment(f.path), inner: inner.len() }];
        let tail = seq![RowView::CloseDir];
        assert(file_rows_spec(f, true) == head + inner + tail);
        lemma_row_paths_concat(head + inner, tail);
        lemma_row_paths_concat(head, inner);
        assert(head.drop_last() =~= Seq::<RowView>::empty());
        assert(row_paths(Seq::<RowView>::empty()) == Seq::<Seq<char>>::empty());
        assert(row_paths(head) == Seq::<Seq<char>>::empty().push(f.path));
        assert(row_paths(head) =~= seq![f.path]);
        assert(tail.drop_last() =~= Seq::<RowView>::empty());
        assert(row_paths(tail) =~= Seq::<Seq<char>>::empty());
        assert(row_paths(inner) == match f.children {
            Some(c) => all_paths(c),
            None => Seq::<Seq<char>>::empty(),
        });
        assert(row_paths(file_rows_spec(f, true)) =~= file_paths(f));
    } else {
        let r = file_rows_spec(f, true);
        assert(r.drop_last() =~= Seq::<RowView>::empty());
        assert(row_paths(Seq::<RowView>::empty()) == Seq::<Seq<char>>::empty());
        assert(row_paths(r) == Seq::<Seq<char>>::empty().push(f.path));
        assert(row_paths(r) =~= seq![f.path]);
        assert(file_paths(f) =~= seq![f.path]);
    }
}

/// With hidden entries not shown, the tree view has one row for every entry that is
/// not hidden and lies under no hidden folder, in depth-first order.
pub proof fn lemma_hidden_rows_are_visible_entries(files: Seq<FileView>)
    ensures
        row_paths(rows_spec(files, false)) == all_paths(without_hidden(files)),
{
    lemma_hiding_is_removing(files);
    lemma_shown_rows_are_all_entries(without_hidden(files));
}

/// Leaving out hidden entries keeps, at each level, exactly the entries that are
/// not hidden, in order, and nothing else of them changes but their children.
pub proof fn lemma_without_hidden_keeps_visible(files: Seq<FileView>, i: int)
    requires
        0 <= i < files.len(),
        !files[i].is_hidden,
    ensures
        without_hidden(files).contains(file_without_hidden(files[i])),
        file_without_hidden(files[i]).path == files[i].path,
        file_without_hidden(files[i]).is_dir == files[i].is_dir,
    decreases files.len(),
{
    let rest = files.drop_last();
    if i < files.len() - 1 {
        assert(rest[i] == files[i]);
        lemma_without_hidden_keeps_visible(rest, i);
        let w = without_hidden(rest);
        let k = choose|k: int| 0 <= k < w.len() && w[k] == file_without_hidden(files[i]);
        if !files.last().is_hidden {
            assert(without_hidden(files)[k] == w[k]);
        }
    } else {
        let w = without_hidden(files);
        assert(w[w.len() - 1] == file_without_hidden(files[i]));
    }
}

/// Every entry that is shown gets a row of its own: the path of every entry that the
/// tree view shows (any entry when hidden ones are shown; otherwise any entry that
/// is not hidden, at the top level) is among the paths of the rows.
pub proof fn lemma_every_shown_entry_has_a_row(files: Seq<FileView>, show_hidden: bool, i: int)
    requires
        0 <= i < files.len(),
        show_hidden || !files[i].is_hidden,
    ensures
        row_paths(rows_spec(files, show_hidden)).contains(files[i].path),
{
    if show_hidden {
        lemma_shown_rows_are_all_entries(files);
        lemma_top_level_paths_are_listed(files, i);
    } else {
        lemma_hidden_rows_are_visible_entries(files);
        lemma_without_hidden_keeps_visible(files, i);
        let w = without_hidden(files);
        let k = choose|k: int| 0 <= k < w.len() && w[k] == file_without_hidden(files[i]);
        lemma_top_level_paths_are_listed(w, k);
    }
}

proof fn lemma_top_level_paths_are_listed(files: Seq<FileView>, i: int)
    requires
        0 <= i < files.len(),
    ensures
        all_paths(files).contains(files[i].path),
    decreases files.len(),
{
    let rest = files.drop_last();
    let f = files.last();
    assert(all_paths(files) == all_paths(rest) + file_paths(f));
    if i < files.len() - 1 {
        assert(rest[i] == files[i]);
        lemma_top_level_paths_are_listed(rest, i);
        let k = choose|k: int| 0 <= k < all_paths(rest).len() && all_paths(rest)[k] == files[i].path;
        assert(all_paths(files)[k] == files[i].path);
    } else {
        assert(file_paths(f)[0] == f.path);
        assert(all_paths(files)[all_paths(rest).len() as int] == f.path);
    }
}

/// The row the tree view goes to after row `i`: past a folder that did not open,
/// to its closing row, `inner` rows further (or to the end, where the rows are too
/// short for that); otherwise the next row.
pub fn next_row(rows: &Vec<TreeRow>, i: usize, opened: bool) -> (next: usize)
    requires
        i < rows@.len(),
    ensures
        match rows@[i as int] {
            TreeRow::Dir { inner, .. } => if opened {
                next == i + 1
            } else if i + 1 + inner < rows@.len() {
                next == i + 1 + inner
            } else {
                next == rows@.len()
            },
            _ => next == i + 1,
        },
        well_nested(rows_view(rows@)) && !opened && rows@[i as int] is Dir ==> next < rows@.len()
            && rows@[next as int] is CloseDir,
{
    let n: usize = rows.len();
    proof {
        assert(rows_view(rows@).len() == n);
        assert(rows_view(rows@)[i as int] == rows@[i as int]@);
        if well_nested(rows_view(rows@)) {
            assert(closes_at(rows_view(rows@), i as int));
        }
    }
    match &rows[i] {
        TreeRow::Dir { inner, .. } => {
            if opened {
                i + 1
            } else if *inner < n - i - 1 {
                proof {
                    assert(rows_view(rows@)[i + 1 + *inner as int] == rows@[i + 1 + *inner as int]@);
                }
                i + 1 + *inner
            } else {
                n
            }
        },
        _ => i + 1,
    }
}

} // verus!
