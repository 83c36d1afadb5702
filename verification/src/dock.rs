//! The tabs of the editor, held in an `egui_dock::DockState`, and finding a tab in it.

use vstd::prelude::*;
use vstd::multiset::Multiset;
use egui_dock::{DockState, NodeIndex, SurfaceIndex, TabIndex, TabPath};
use crate::paths::{file_name_of, last_segment};
use crate::services::AppFile;
use crate::tab::EditorTab;

verus! {

#[verifier::external_type_specification]
#[verifier::external_body]
#[verifier::reject_recursive_types(Tab)]
pub struct ExDockState<Tab>(DockState<Tab>);

/// The paths of the files of the tabs of the main surface of `dock`: one sequence
/// per node of its tree, in node order, empty for a node that holds no tabs, and
/// the tabs of a node in their order; no sequence at all where the main surface
/// holds no tree or does not exist.
pub uninterp spec fn main_tab_paths(dock: DockState<EditorTab>) -> Seq<Seq<Seq<char>>>;

/// The paths of the files of all tabs of `dock`, on every surface.
pub uninterp spec fn all_tab_paths(dock: DockState<EditorTab>) -> Multiset<Seq<char>>;

/// The active tab of each node of the main surface of `dock`, in node order:
/// `LeafNode::active` for a leaf, `None` for a node that is not a leaf.
pub uninterp spec fn main_active_tabs(dock: DockState<EditorTab>) -> Seq<Option<nat>>;

/// `DockState::push_to_focused_leaf` can place a tab in `dock` without panicking:
/// the surface it picks (the focused one, or the main one when none is focused)
/// exists; where that surface holds a tree, the tree's focused node, if any, is one
/// of its nodes, and a tree that holds nodes holds a leaf or an empty node.
pub uninterp spec fn can_push_tab(dock: DockState<EditorTab>) -> bool;

/// `DockState::new` with no tabs: the main surface is one leaf holding no tabs,
/// there are no other surfaces, and nothing is focused.
#[verifier::external_body]
pub(crate) fn new_dock() -> (dock: DockState<EditorTab>)
    ensures
        main_tab_paths(dock) == seq![Seq::<Seq<char>>::empty()],
        all_tab_paths(dock) == Multiset::<Seq<char>>::empty(),
        main_active_tabs(dock) == seq![Some(0nat)],
        can_push_tab(dock),
{
    DockState::new(Vec::new())
}

/// `DockState::get_surface` for the main surface, with each node of its tree
/// (`Surface::iter_nodes`, which yields nothing for a missing surface or one without
/// a tree) turned into the paths of the files of its tabs (`Node::tabs`; none for a
/// node that is not a leaf). There is one list per node, as there is one active
/// entry per node.
#[verifier::external_body]
pub(crate) fn main_surface_tab_paths(dock: &DockState<EditorTab>) -> (paths: Vec<Vec<String>>)
    ensures
        nested_view(paths@) == main_tab_paths(*dock),
        main_active_tabs(*dock).len() == paths@.len(),
{
    match dock.get_surface(SurfaceIndex::main()) {
        Some(surface) => surface.iter_nodes().map(|node| match node.tabs() {
            Some(tabs) => tabs.iter().map(|t| t.file.path.clone()).collect(),
            None => Vec::new(),
        }).collect(),
        None => Vec::new(),
    }
}

/// `DockState::set_active_tab` on the main surface: where node `node` is a leaf
/// holding a tab at `tab`, that tab becomes the node's active one
/// (`LeafNode::set_active_tab`); otherwise it returns an error and changes nothing.
/// It never changes which tabs there are, nor which surface and node are focused.
#[verifier::external_body]
pub(crate) fn set_active_main_tab(dock: &mut DockState<EditorTab>, node: usize, tab: usize)
    ensures
        main_tab_paths(*final(dock)) == main_tab_paths(*old(dock)),
        all_tab_paths(*final(dock)) == all_tab_paths(*old(dock)),
        can_push_tab(*final(dock)) == can_push_tab(*old(dock)),
        node < main_tab_paths(*old(dock)).len() && tab < main_tab_paths(*old(dock))[node as int].len()
            ==> main_active_tabs(*final(dock)) == main_active_tabs(*old(dock)).update(node as int, Some(tab as nat)),
        !(node < main_tab_paths(*old(dock)).len() && tab < main_tab_paths(*old(dock))[node as int].len())
            ==> main_active_tabs(*final(dock)) == main_active_tabs(*old(dock)),
{
    let _ = dock.set_active_tab(TabPath::new(SurfaceIndex::main(), NodeIndex(node), TabIndex(tab)));
}

/// `DockState::push_to_focused_leaf`: the tab joins the focused leaf (or the first
/// leaf or empty node, or a new leaf), on the focused surface (or the main one);
/// the tabs that were there stay, and the node it lands in becomes the focused one
/// of that surface. Which node and surface it lands in is left unsaid.
#[verifier::external_body]
pub(crate) fn push_to_focused_leaf(dock: &mut DockState<EditorTab>, tab: EditorTab)
    requires
        can_push_tab(*old(dock)),
    ensures
        all_tab_paths(*final(dock)) == all_tab_paths(*old(dock)).insert(tab.file.path@),
        can_push_tab(*final(dock)),
{
    dock.push_to_focused_leaf(tab)
}

/// The views of nested sequences of strings.
pub open spec fn nested_view(v: Seq<Vec<String>>) -> Seq<Seq<Seq<char>>> {
    v.map_values(|node: Vec<String>| node@.map_values(|s: String| s@))
}

/// The tab at (`n`, `t`) exists and its file's name is `name`.
pub open spec fn named_at(tabs: Seq<Seq<Seq<char>>>, n: int, t: int, name: Seq<char>) -> bool {
    0 <= n < tabs.len() && 0 <= t < tabs[n].len() && last_segment(tabs[n][t]) == name
}

/// (`n1`, `t1`) comes before (`n2`, `t2`): by node, then by tab.
pub open spec fn before(n1: int, t1: int, n2: int, t2: int) -> bool {
    n1 < n2 || (n1 == n2 && t1 < t2)
}

/// The position of the first tab, by node and then by tab, whose file's name is
/// `name`.
pub fn find_tab_named(tabs: &Vec<Vec<String>>, name: &String) -> (pos: Option<(usize, usize)>)
    ensures
        match pos {
            Some(p) => named_at(nested_view(tabs@), p.0 as int, p.1 as int, name@)
                && forall|n: int, t: int| before(n, t, p.0 as int, p.1 as int)
                    ==> !#[trigger] named_at(nested_view(tabs@), n, t, name@),
            None => forall|n: int, t: int| !#[trigger] named_at(nested_view(tabs@), n, t, name@),
        },
{
    let ghost v = nested_view(tabs@);
    let mut n: usize = 0;
    while n < tabs.len()
        invariant
            n <= tabs@.len(),
            v == nested_view(tabs@),
            forall|n2: int, t2: int| 0 <= n2 < n ==> !#[trigger] named_at(v, n2, t2, name@),
        decreases tabs@.len() - n,
    {
        let node = &tabs[n];
        let mut t: usize = 0;
        while t < node.len()
            invariant
                n < tabs@.len(),
                t <= node@.len(),
                *node == tabs@[n as int],
                v == nested_view(tabs@),
                forall|n2: int, t2: int| 0 <= n2 < n ==> !#[trigger] named_at(v, n2, t2, name@),
                forall|t2: int| 0 <= t2 < t ==> !#[trigger] named_at(v, n as int, t2, name@),
            decreases node@.len() - t,
        {
            let tab_name = file_name_of(node[t].as_str());
            proof {
                assert(v[n as int][t as int] == node@[t as int]@);
            }
            if tab_name == *name {
                return Some((n, t));
            }
            t = t + 1;
        }
        proof {
            assert forall|n2: int, t2: int| 0 <= n2 < n + 1 implies !#[trigger] named_at(v, n2, t2, name@) by {
                if n2 == n as int && named_at(v, n2, t2, name@) {
                    assert(v[n2].len() == node@.len());
                }
            }
        }
        n = n + 1;
    }
    None
}

/// (`n`, `t`) is the first tab, by node and then by tab, whose file's name is `name`.
pub open spec fn first_named(tabs: Seq<Seq<Seq<char>>>, n: int, t: int, name: Seq<char>) -> bool {
    named_at(tabs, n, t, name) && forall|n2: int, t2: int| before(n2, t2, n, t)
        ==> !#[trigger] named_at(tabs, n2, t2, name)
}

/// The active tabs after focusing the first tab named `name`: that tab becomes the
/// active one of its node; nothing changes when no tab has that name.
pub open spec fn focus_spec(tabs: Seq<Seq<Seq<char>>>, active: Seq<Option<nat>>, name: Seq<char>) -> Seq<Option<nat>> {
    if exists|n: int, t: int| first_named(tabs, n, t, name) {
        let (n, t) = choose|n: int, t: int| first_named(tabs, n, t, name);
        active.update(n, Some(t as nat))
    } else {
        active
    }
}

/// There is at most one first tab of a name.
pub proof fn lemma_first_named_unique(tabs: Seq<Seq<Seq<char>>>, name: Seq<char>, n1: int, t1: int, n2: int, t2: int)
    requires
        first_named(tabs, n1, t1, name),
        first_named(tabs, n2, t2, name),
    ensures
        n1 == n2 && t1 == t2,
{
    if before(n1, t1, n2, t2) {
        assert(!named_at(tabs, n1, t1, name));
    } else if before(n2, t2, n1, t1) {
        assert(!named_at(tabs, n2, t2, name));
    }
}

/// After focusing `name`, the first tab of that name, if any, is the active tab of
/// its node.
pub proof fn lemma_focus_makes_first_active(tabs: Seq<Seq<Seq<char>>>, active: Seq<Option<nat>>, name: Seq<char>, n: int, t: int)
    requires
        active.len() == tabs.len(),
        first_named(tabs, n, t, name),
    ensures
        focus_spec(tabs, active, name) == active.update(n, Some(t as nat)),
        focus_spec(tabs, active, name)[n] == Some(t as nat),
{
    let (n2, t2) = choose|n2: int, t2: int| first_named(tabs, n2, t2, name);
    lemma_first_named_unique(tabs, name, n, t, n2, t2);
}

/// Makes active, on the main surface, the first tab whose file has the same name as
/// `file`, and says where it is; nothing changes when no tab does.
pub fn focus_tab(tree: &mut DockState<EditorTab>, file: &AppFile) -> (pos: Option<(usize, usize)>)
    ensures
        main_tab_paths(*final(tree)) == main_tab_paths(*old(tree)),
        all_tab_paths(*final(tree)) == all_tab_paths(*old(tree)),
        main_active_tabs(*final(tree)) == focus_spec(
            main_tab_paths(*old(tree)),
            main_active_tabs(*old(tree)),
            last_segment(file.path@),
        ),
        can_push_tab(*final(tree)) == can_push_tab(*old(tree)),
        main_active_tabs(*old(tree)).len() == main_tab_paths(*old(tree)).len(),
        main_active_tabs(*final(tree)).len() == main_tab_paths(*final(tree)).len(),
        pos matches Some(p) ==> main_active_tabs(*final(tree))[p.0 as int] == Some(p.1 as nat),
        pos is None ==> *final(tree) == *old(tree),
        match pos {
            Some(p) => named_at(main_tab_paths(*old(tree)), p.0 as int, p.1 as int, last_segment(file.path@))
                && forall|n: int, t: int| before(n, t, p.0 as int, p.1 as int)
                    ==> !#[trigger] named_at(main_tab_paths(*old(tree)), n, t, last_segment(file.path@)),
            None => forall|n: int, t: int|
                !#[trigger] named_at(main_tab_paths(*old(tree)), n, t, last_segment(file.path@)),
        },
{
    let tabs = main_surface_tab_paths(tree);
    let name = file_name_of(file.path.as_str());
    let pos = find_tab_named(&tabs, &name);
    if let Some((node, tab)) = pos {
        proof {
            assert(nested_view(tabs@).len() == tabs@.len());
            lemma_focus_makes_first_active(
                main_tab_paths(*tree),
                main_active_tabs(*tree),
                name@,
                node as int,
                tab as int,
            );
        }
        set_active_main_tab(tree, node, tab);
    } else {
        proof {
            if exists|n: int, t: int| first_named(main_tab_paths(*tree), n, t, name@) {
                let (n, t) = choose|n: int, t: int| first_named(main_tab_paths(*tree), n, t, name@);
                assert(named_at(main_tab_paths(*tree), n, t, name@));
            }
        }
    }
    pos
}

/// Whether a tab of the main surface edits the file at `path`.
pub fn has_tab_for(tabs: &Vec<Vec<String>>, path: &String) -> (found: bool)
    ensures
        found == exists|n: int, t: int|
            0 <= n < tabs@.len() && 0 <= t < tabs@[n]@.len() && #[trigger] nested_view(tabs@)[n][t] == path@,
{
    let ghost v = nested_view(tabs@);
    let mut n: usize = 0;
    while n < tabs.len()
        invariant
            n <= tabs@.len(),
            v == nested_view(tabs@),
            forall|n2: int, t2: int|
                0 <= n2 < n && 0 <= t2 < tabs@[n2]@.len() ==> #[trigger] v[n2][t2] != path@,
        decreases tabs@.len() - n,
    {
        let node = &tabs[n];
        let mut t: usize = 0;
        while t < node.len()
            invariant
                n < tabs@.len(),
                t <= node@.len(),
                *node == tabs@[n as int],
                v == nested_view(tabs@),
                forall|n2: int, t2: int|
                    0 <= n2 < n && 0 <= t2 < tabs@[n2]@.len() ==> #[trigger] v[n2][t2] != path@,
                forall|t2: int| 0 <= t2 < t ==> #[trigger] v[n as int][t2] != path@,
            decreases node@.len() - t,
        {
            proof {
                assert(v[n as int][t as int] == node@[t as int]@);
            }
            if node[t] == *path {
                return true;
            }
            t = t + 1;
        }
        n = n + 1;
    }
    false
}

} // verus!
