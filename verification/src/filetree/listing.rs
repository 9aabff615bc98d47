//! Listing one directory, and the files the workspace could have.

use vstd::prelude::*;
use crate::filetree::search::SearchView;
use crate::filetree::snapshot::{is_listed, lists};
use crate::filetree::tree::FileTree;
use crate::order::{
    codes, is_stable_order, key_of, keys_of, permute, stable_order, text_codes,
};
use crate::path::{last_name, TreePath};
use crate::text::same;

verus! {

/// A row of the tree.
#[derive(Debug, PartialEq, Eq)]
pub struct FileNode {
    pub path: TreePath,
    pub is_dir: bool,
    /// A suggested but not yet created file. Activating it creates the real
    /// one.
    pub suggested: bool,
}

/// What a walk found in a directory.
#[derive(Debug, PartialEq, Eq)]
pub struct DirEntry {
    pub path: TreePath,
    pub is_dir: bool,
}

/// An entry the tree lists: not the directory itself, not the repository's own
/// folder, and among the paths kept visible where the list is filtered.
pub open spec fn is_shown(
    entry: DirEntry,
    dir: Seq<Seq<char>>,
    filter: Option<Seq<TreePath>>,
) -> bool {
    &&& entry.path@ != dir
    &&& last_name(entry.path@) != Some(".git"@)
    &&& filter matches Some(kept) ==> lists(kept, entry.path@)
}

/// The entries the tree lists, as they were found.
pub open spec fn shown_entries(
    entries: Seq<DirEntry>,
    dir: Seq<Seq<char>>,
    filter: Option<Seq<TreePath>>,
) -> Seq<DirEntry>
    decreases entries.len(),
{
    if entries.len() == 0 {
        Seq::empty()
    } else {
        let rest = shown_entries(entries.drop_last(), dir, filter);
        if is_shown(entries.last(), dir, filter) {
            rest.push(entries.last())
        } else {
            rest
        }
    }
}

/// An ASCII letter in lower case; any other code as it is.
pub open spec fn ascii_lower(c: u64) -> u64 {
    if 65 <= c <= 90 {
        (c + 32) as u64
    } else {
        c
    }
}

/// A text's codes with ASCII letters in lower case.
pub open spec fn ascii_lower_codes(s: Seq<char>) -> Seq<u64> {
    Seq::new(s.len(), |i: int| ascii_lower(codes(s)[i]))
}

/// Where an entry stands: folders first, then by name whatever the case of its
/// ASCII letters. A path without a name stands before any that has one.
pub open spec fn node_key(entry: DirEntry) -> Seq<Seq<u64>> {
    let side = seq![
        if entry.is_dir {
            0u64
        } else {
            1u64
        },
    ];
    match last_name(entry.path@) {
        Some(name) => seq![side, seq![1u64], ascii_lower_codes(name)],
        None => seq![side, seq![0u64]],
    }
}

/// The keys of a run of entries.
pub open spec fn node_keys(entries: Seq<DirEntry>) -> Seq<Seq<Seq<u64>>> {
    Seq::new(entries.len(), |i: int| node_key(entries[i]))
}

/// The nodes are the listed entries in order, with the suggestions behind
/// them.
pub open spec fn lists_directory(
    nodes: Seq<FileNode>,
    entries: Seq<DirEntry>,
    ghosts: Seq<TreePath>,
) -> bool {
    &&& nodes.len() == entries.len() + ghosts.len()
    &&& exists|order: Seq<usize>| #[trigger]
        is_stable_order(order, node_keys(entries)) && forall|i: int|
            0 <= i < entries.len() ==> {
                &&& (#[trigger] nodes[i]).path == entries[order[i] as int].path
                &&& nodes[i].is_dir == entries[order[i] as int].is_dir
                &&& !nodes[i].suggested
            }
    &&& forall|i: int|
        0 <= i < ghosts.len() ==> {
            &&& nodes[entries.len() + i].path@ == (#[trigger] ghosts[i])@
            &&& !nodes[entries.len() + i].is_dir
            &&& nodes[entries.len() + i].suggested
        }
}

/// A filter as a sequence of paths.
pub open spec fn filter_view(filter: Option<&Vec<TreePath>>) -> Option<Seq<TreePath>> {
    match filter {
        Some(kept) => Some(kept@),
        None => None,
    }
}

fn lower_codes(name: &str) -> (out: Vec<u64>)
    ensures
        out@ == ascii_lower_codes(name@),
{
    let raw = text_codes(name);
    let mut out: Vec<u64> = Vec::new();
    let mut i: usize = 0;
    while i < raw.len()
        invariant
            raw@ == codes(name@),
            i <= raw@.len(),
            out@.len() == i,
            forall|j: int| 0 <= j < i ==> (#[trigger] out@[j]) == ascii_lower(codes(name@)[j]),
        decreases raw@.len() - i,
    {
        let c: u64 = raw[i];
        out.push(
            if 65 <= c && c <= 90 {
                c + 32
            } else {
                c
            },
        );
        i += 1;
    }
    assert(out@ =~= ascii_lower_codes(name@));
    out
}

fn entry_key(entry: &DirEntry) -> (key: Vec<Vec<u64>>)
    ensures
        key_of(key) == node_key(*entry),
{
    let rank: u64 = if entry.is_dir {
        0
    } else {
        1
    };
    let mut side: Vec<u64> = Vec::new();
    side.push(rank);
    assert(side@ =~= seq![rank]);
    let mut named: Vec<u64> = Vec::new();
    let mut key: Vec<Vec<u64>> = Vec::new();
    key.push(side);
    match entry.path.file_name() {
        Some(name) => {
            named.push(1);
            assert(named@ =~= seq![1u64]);
            key.push(named);
            key.push(lower_codes(name));
        },
        None => {
            named.push(0);
            assert(named@ =~= seq![0u64]);
            key.push(named);
        },
    }
    assert(key_of(key) =~= node_key(*entry));
    key
}

/// List one directory: folders first, then by name whatever the case;
/// suggestions last. `entries` is what a walk found, `filter` the paths a
/// search keeps visible.
pub fn build_dir_store(
    dir: &TreePath,
    entries: Vec<DirEntry>,
    ghosts: &Vec<TreePath>,
    filter: Option<&Vec<TreePath>>,
) -> (nodes: Vec<FileNode>)
    ensures
        lists_directory(
            nodes@,
            shown_entries(entries@, dir@, filter_view(filter)),
            ghosts@,
        ),
{
    let ghost kept = filter_view(filter);
    let mut found: Vec<DirEntry> = Vec::new();
    let mut keys: Vec<Vec<Vec<u64>>> = Vec::new();
    for entry in it: entries
        invariant
            it.seq() == entries@,
            kept == filter_view(filter),
            found@ == shown_entries(entries@.take(it.index() as int), dir@, kept),
            keys_of(keys@) == node_keys(found@),
    {
        let ghost before = found@;
        let ghost before_keys = keys@;
        let ghost this = entry;
        let ghost at = it.index() as int;
        assert(entries@.take(at + 1).drop_last() =~= entries@.take(at));
        let hidden = match entry.path.file_name() {
            Some(name) => same(name, ".git"),
            None => false,
        };
        let wanted = match filter {
            Some(paths) => is_listed(paths, &entry.path),
            None => true,
        };
        if !entry.path.same_as(dir) && !hidden && wanted {
            let key = entry_key(&entry);
            keys.push(key);
            found.push(entry);
            assert(keys_of(keys@) =~= keys_of(before_keys).push(node_key(this)));
            assert(node_keys(found@) =~= node_keys(before).push(node_key(this)));
        }
    }
    assert(entries@.take(entries@.len() as int) =~= entries@);
    let order = stable_order(&keys);
    let ghost listed = found@;
    assert(keys_of(keys@).len() == listed.len());
    let sorted = permute(found, &order);
    let mut nodes: Vec<FileNode> = Vec::new();
    for entry in it: sorted
        invariant
            it.seq() == sorted@,
            nodes@.len() == it.index(),
            forall|i: int|
                0 <= i < nodes@.len() ==> {
                    &&& (#[trigger] nodes@[i]).path == sorted@[i].path
                    &&& nodes@[i].is_dir == sorted@[i].is_dir
                    &&& !nodes@[i].suggested
                },
    {
        nodes.push(FileNode { is_dir: entry.is_dir, path: entry.path, suggested: false });
    }
    let ghost n = listed.len() as int;
    let ghost files = nodes@;
    let mut i: usize = 0;
    while i < ghosts.len()
        invariant
            i <= ghosts@.len(),
            files.len() == n,
            nodes@.len() == n + i,
            forall|k: int| 0 <= k < n ==> #[trigger] nodes@[k] == files[k],
            forall|j: int|
                0 <= j < i ==> {
                    &&& nodes@[n + j].path@ == (#[trigger] ghosts@[j])@
                    &&& !nodes@[n + j].is_dir
                    &&& nodes@[n + j].suggested
                },
        decreases ghosts@.len() - i,
    {
        let ghost before = nodes@;
        nodes.push(FileNode { path: ghosts[i].clone(), is_dir: false, suggested: true });
        proof {
            assert forall|j: int| 0 <= j < i + 1 implies {
                &&& nodes@[n + j].path@ == (#[trigger] ghosts@[j])@
                &&& !nodes@[n + j].is_dir
                &&& nodes@[n + j].suggested
            } by {
                if j < i {
                    assert(nodes@[n + j] == before[n + j]);
                }
            }
        }
        i += 1;
    }
    assert(is_stable_order(order@, node_keys(listed)));
    nodes
}

/// A conventional configuration file.
#[derive(Debug, PartialEq, Eq)]
pub struct Convention {
    pub path: TreePath,
    /// Worth suggesting where it is missing.
    pub suggested: bool,
    pub exists: bool,
}

/// The conventions worth suggesting, in order.
pub open spec fn suggestions(conventions: Seq<Convention>) -> Seq<Seq<Seq<char>>>
    decreases conventions.len(),
{
    if conventions.len() == 0 {
        Seq::empty()
    } else {
        let rest = suggestions(conventions.drop_last());
        let last = conventions.last();
        if last.suggested && !last.exists {
            rest.push(last.path@)
        } else {
            rest
        }
    }
}

/// Allowlisted config files the workspace does not have yet, shown as ghosts.
pub fn ghost_candidates(conventions: &Vec<Convention>) -> (out: Vec<TreePath>)
    ensures
        crate::filetree::plan::paths_view(out@) == suggestions(conventions@),
{
    let mut out: Vec<TreePath> = Vec::new();
    let mut i: usize = 0;
    assert(crate::filetree::plan::paths_view(out@) =~= suggestions(conventions@.take(0)));
    while i < conventions.len()
        invariant
            i <= conventions@.len(),
            crate::filetree::plan::paths_view(out@) == suggestions(conventions@.take(i as int)),
        decreases conventions@.len() - i,
    {
        let ghost before = out@;
        assert(conventions@.take(i + 1).drop_last() =~= conventions@.take(i as int));
        if conventions[i].suggested && !conventions[i].exists {
            out.push(conventions[i].path.clone());
            assert(crate::filetree::plan::paths_view(out@) =~= crate::filetree::plan::paths_view(
                before,
            ).push(conventions@[i as int].path@));
        }
        i += 1;
    }
    assert(conventions@.take(i as int) =~= conventions@);
    out
}

/// What shapes the tree when it is built.
#[derive(Debug, Clone, Copy, PartialEq, Eq, Structural)]
pub struct TreeShape {
    /// Only the paths a search keeps visible are listed, all unfolded.
    pub matches_only: bool,
    /// Suggestions stand at the end: not in search results, and an offer to
    /// create a file is a lie in a read-only view.
    pub suggests: bool,
    pub show_ignored: bool,
}

/// What activating a row does.
#[derive(Debug, Clone, Copy, PartialEq, Eq, Structural)]
pub enum Activation {
    /// Create the suggested file.
    CreateGhost,
    /// Fold or unfold the directory.
    ToggleFolder,
    /// List the file's matches below.
    ShowMatches,
    Open,
}

/// How the tree is built now.
pub open spec fn shapes(tree: FileTree, shape: TreeShape) -> bool {
    &&& shape.matches_only == (tree.searching && !tree.ghosting)
    &&& shape.suggests == (!tree.searching && tree.watching is None)
    &&& shape.show_ignored == tree.show_ignored
}

impl FileTree {
    /// How the tree is built now.
    pub fn rebuild(&self) -> (shape: TreeShape)
        ensures
            shapes(*self, shape),
    {
        TreeShape {
            matches_only: self.searching && !self.ghosting,
            suggests: !self.searching && !self.read_only(),
            show_ignored: self.show_ignored,
        }
    }
}

/// What activating a row does.
pub open spec fn activates(node: FileNode, view: Option<SearchView>, out: Activation) -> bool {
    &&& out == if node.suggested {
        Activation::CreateGhost
    } else if node.is_dir {
        Activation::ToggleFolder
    } else if view matches Some(v) && exists|i: int|
        0 <= i < v.files@.len() && (#[trigger] v.files@[i]).path@ == node.path@ {
        Activation::ShowMatches
    } else {
        Activation::Open
    }
}

/// What activating a row does: a single click opens files and folds folders.
pub fn activate(node: &FileNode, view: &Option<SearchView>) -> (out: Activation)
    ensures
        activates(*node, *view, out),
{
    if node.suggested {
        Activation::CreateGhost
    } else if node.is_dir {
        Activation::ToggleFolder
    } else {
        match view {
            Some(view) => match view.matched(&node.path) {
                Some(_) => Activation::ShowMatches,
                None => Activation::Open,
            },
            None => Activation::Open,
        }
    }
}

proof fn lemma_shown_entries(
    entries: Seq<DirEntry>,
    dir: Seq<Seq<char>>,
    filter: Option<Seq<TreePath>>,
)
    ensures
        forall|e: DirEntry| #[trigger]
            shown_entries(entries, dir, filter).contains(e) <==> entries.contains(e) && is_shown(
                e,
                dir,
                filter,
            ),
    decreases entries.len(),
{
    if entries.len() > 0 {
        let rest = entries.drop_last();
        let before = shown_entries(rest, dir, filter);
        let all = shown_entries(entries, dir, filter);
        lemma_shown_entries(rest, dir, filter);
        assert forall|e: DirEntry| #[trigger] all.contains(e) <==> entries.contains(e) && is_shown(
            e,
            dir,
            filter,
        ) by {
            if all.contains(e) {
                let i = choose|i: int| 0 <= i < all.len() && all[i] == e;
                if i < before.len() {
                    assert(before[i] == e);
                    assert(before.contains(e));
                    let k = choose|k: int| 0 <= k < rest.len() && rest[k] == e;
                    assert(entries[k] == e);
                } else {
                    assert(entries[entries.len() - 1] == e);
                }
            }
            if entries.contains(e) && is_shown(e, dir, filter) {
                let k = choose|k: int| 0 <= k < entries.len() && entries[k] == e;
                if k < rest.len() {
                    assert(rest[k] == e);
                    assert(before.contains(e));
                    let i = choose|i: int| 0 <= i < before.len() && before[i] == e;
                    assert(all[i] == e);
                } else {
                    assert(all[all.len() - 1] == e);
                }
            }
        }
    }
}

/// A folder's list holds what was found in it and nothing else: every entry but
/// the folder itself and the repository's own, as far as a search keeps it; the
/// folders stand before the files, and suggestions behind both.
pub proof fn a_folder_lists_what_it_holds(
    nodes: Seq<FileNode>,
    entries: Seq<DirEntry>,
    dir: Seq<Seq<char>>,
    filter: Option<Seq<TreePath>>,
    ghosts: Seq<TreePath>,
)
    requires
        lists_directory(nodes, shown_entries(entries, dir, filter), ghosts),
        entries.len() <= usize::MAX,
    ensures
        forall|k: int|
            0 <= k < entries.len() && (#[trigger] entries[k]).path@ != dir && last_name(
                entries[k].path@,
            ) != Some(".git"@) && (filter matches Some(kept) ==> lists(kept, entries[k].path@))
                ==> exists|i: int|
                0 <= i < nodes.len() && (#[trigger] nodes[i]).path == entries[k].path
                    && nodes[i].is_dir == entries[k].is_dir && !nodes[i].suggested,
        forall|i: int|
            0 <= i < nodes.len() && !(#[trigger] nodes[i]).suggested ==> nodes[i].path@ != dir
                && last_name(nodes[i].path@) != Some(".git"@) && (filter matches Some(kept)
                ==> lists(kept, nodes[i].path@)),
        forall|i: int, j: int|
            0 <= i < j < nodes.len() && !(#[trigger] nodes[i]).suggested && !(
            #[trigger] nodes[j]).suggested && nodes[j].is_dir ==> nodes[i].is_dir,
        forall|i: int, j: int|
            0 <= i < j < nodes.len() && (#[trigger] nodes[i]).suggested ==> (
            #[trigger] nodes[j]).suggested,
{
    let shown = shown_entries(entries, dir, filter);
    let keys = node_keys(shown);
    let order = choose|order: Seq<usize>| #[trigger]
        is_stable_order(order, keys) && forall|i: int|
            0 <= i < shown.len() ==> {
                &&& (#[trigger] nodes[i]).path == shown[order[i] as int].path
                &&& nodes[i].is_dir == shown[order[i] as int].is_dir
                &&& !nodes[i].suggested
            };
    lemma_shown_entries(entries, dir, filter);
    lemma_fewer_shown(entries, dir, filter);
    assert forall|i: int| shown.len() <= i < nodes.len() implies (#[trigger] nodes[i]).suggested by {
        let g = ghosts[i - shown.len()];
        assert(nodes[shown.len() + (i - shown.len())].suggested);
    }
    assert forall|k: int|
        0 <= k < entries.len() && (#[trigger] entries[k]).path@ != dir && last_name(
            entries[k].path@,
        ) != Some(".git"@) && (filter matches Some(kept) ==> lists(kept, entries[k].path@)) implies exists|
        i: int,
    |
        0 <= i < nodes.len() && (#[trigger] nodes[i]).path == entries[k].path && nodes[i].is_dir
            == entries[k].is_dir && !nodes[i].suggested by {
        assert(entries.contains(entries[k]));
        assert(shown.contains(entries[k]));
        let at = choose|at: int| 0 <= at < shown.len() && shown[at] == entries[k];
        assert(order.contains(at as usize));
        let i = choose|i: int| 0 <= i < order.len() && order[i] == at as usize;
        assert(nodes[i].path == entries[k].path);
    }
    assert forall|i: int| 0 <= i < nodes.len() && !(#[trigger] nodes[i]).suggested implies nodes[i].path@
        != dir && last_name(nodes[i].path@) != Some(".git"@) && (filter matches Some(kept) ==> lists(
        kept,
        nodes[i].path@,
    )) by {
        let e = shown[order[i] as int];
        assert(shown.contains(e));
        assert(is_shown(e, dir, filter));
    }
    assert forall|i: int, j: int|
        0 <= i < j < nodes.len() && !(#[trigger] nodes[i]).suggested && !(
        #[trigger] nodes[j]).suggested && nodes[j].is_dir implies nodes[i].is_dir by {
        let a = order[i] as int;
        let b = order[j] as int;
        assert(crate::order::placed_before(keys, a, b));
        assert(keys[a] == node_key(shown[a]) && keys[b] == node_key(shown[b]));
        if !nodes[i].is_dir {
            assert(keys[a][0] =~= seq![1u64]);
            assert(keys[b][0] =~= seq![0u64]);
            assert(keys[a][0][0] != keys[b][0][0]);
            crate::order::the_first_field_decides(keys[a], keys[b], 0);
            crate::order::the_first_difference_decides(keys[a][0], keys[b][0], 0);
        }
    }
}

proof fn lemma_fewer_shown(
    entries: Seq<DirEntry>,
    dir: Seq<Seq<char>>,
    filter: Option<Seq<TreePath>>,
)
    ensures
        shown_entries(entries, dir, filter).len() <= entries.len(),
    decreases entries.len(),
{
    if entries.len() > 0 {
        lemma_fewer_shown(entries.drop_last(), dir, filter);
    }
}

/// What is suggested is what is worth it and missing, and all of that.
pub proof fn a_suggestion_is_missing_and_worth_it(
    conventions: Seq<Convention>,
    path: Seq<Seq<char>>,
)
    ensures
        suggestions(conventions).contains(path) <==> exists|k: int|
            0 <= k < conventions.len() && (#[trigger] conventions[k]).path@ == path
                && conventions[k].suggested && !conventions[k].exists,
    decreases conventions.len(),
{
    if conventions.len() > 0 {
        let rest = conventions.drop_last();
        let before = suggestions(rest);
        let all = suggestions(conventions);
        let last = conventions.last();
        a_suggestion_is_missing_and_worth_it(rest, path);
        if all.contains(path) {
            let i = choose|i: int| 0 <= i < all.len() && all[i] == path;
            if i < before.len() {
                assert(before[i] == path);
                assert(before.contains(path));
                let k = choose|k: int|
                    0 <= k < rest.len() && (#[trigger] rest[k]).path@ == path && rest[k].suggested
                        && !rest[k].exists;
                assert(conventions[k].path@ == path);
            } else {
                assert(conventions[conventions.len() - 1].path@ == path);
            }
        }
        if exists|k: int|
            0 <= k < conventions.len() && (#[trigger] conventions[k]).path@ == path
                && conventions[k].suggested && !conventions[k].exists {
            let k = choose|k: int|
                0 <= k < conventions.len() && (#[trigger] conventions[k]).path@ == path
                    && conventions[k].suggested && !conventions[k].exists;
            if k < rest.len() {
                assert(rest[k].path@ == path);
                assert(before.contains(path));
                let i = choose|i: int| 0 <= i < before.len() && before[i] == path;
                assert(all[i] == path);
            } else {
                assert(all[all.len() - 1] == path);
            }
        }
    }
}

/// Suggestions are offered in the user's own tree alone, never among search
/// results or in someone else's checkout; results are narrowed to their matches
/// unless the rest is to be kept, faded.
pub proof fn suggestions_are_for_the_users_own_tree(tree: FileTree, shape: TreeShape)
    requires
        shapes(tree, shape),
    ensures
        tree.watching is Some ==> !shape.suggests,
        tree.searching ==> !shape.suggests,
        tree.watching is None && !tree.searching ==> shape.suggests,
        shape.matches_only ==> tree.searching,
        tree.searching && !tree.ghosting ==> shape.matches_only,
        tree.ghosting ==> !shape.matches_only,
        shape.show_ignored == tree.show_ignored,
{
}

/// A click makes a suggested file, folds a folder, lists the matches of a file
/// that has some, and opens any other.
pub proof fn a_click_does_what_the_row_is(node: FileNode, view: Option<SearchView>, out: Activation)
    requires
        activates(node, view, out),
    ensures
        out == Activation::CreateGhost <==> node.suggested,
        !node.suggested && node.is_dir ==> out == Activation::ToggleFolder,
        !node.suggested && !node.is_dir && view is None ==> out == Activation::Open,
        out == Activation::ShowMatches ==> (view matches Some(v) && exists|i: int|
            0 <= i < v.files@.len() && (#[trigger] v.files@[i]).path@ == node.path@),
        out == Activation::Open || out == Activation::ShowMatches ==> !node.is_dir
            && !node.suggested,
{
}

/// A folder's files stand by name whatever the case of its letters: names that
/// differ in it alone share a place, and otherwise the first letter that differs
/// decides.
pub proof fn case_does_not_place_a_name(a: DirEntry, b: DirEntry, x: Seq<char>, y: Seq<char>, at: int)
    requires
        a.is_dir == b.is_dir,
        last_name(a.path@) == Some(x),
        last_name(b.path@) == Some(y),
        0 <= at < x.len(),
        at < y.len(),
        forall|i: int|
            0 <= i < at ==> crate::text::lower_ascii(#[trigger] x[i]) == crate::text::lower_ascii(
                y[i],
            ),
        crate::text::lower_ascii(x[at]) as u32 != crate::text::lower_ascii(y[at]) as u32,
    ensures
        crate::order::key_less(node_key(a), node_key(b)) <==> (crate::text::lower_ascii(x[at]) as u32)
            < (crate::text::lower_ascii(y[at]) as u32),
{
    let p = node_key(a);
    let q = node_key(b);
    let u = ascii_lower_codes(x);
    let v = ascii_lower_codes(y);
    assert(p[0] =~= q[0]);
    assert(p[1] == q[1]);
    assert(p[2] == u && q[2] == v);
    assert forall|i: int| 0 <= i < x.len() implies #[trigger] u[i] == crate::text::lower_ascii(
        x[i],
    ) as u64 by {
    }
    assert forall|i: int| 0 <= i < y.len() implies #[trigger] v[i] == crate::text::lower_ascii(
        y[i],
    ) as u64 by {
    }
    assert(u[at] != v[at]);
    assert forall|i: int| 0 <= i < at implies u[i] == v[i] by {
        assert(crate::text::lower_ascii(x[i]) == crate::text::lower_ascii(y[i]));
    }
    assert(u != v);
    crate::order::the_first_field_decides(p, q, 2);
    crate::order::the_first_difference_decides(u, v, at);
}

} // verus!
