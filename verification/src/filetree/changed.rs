//! The changed-files list: which files the active filter lists, in which
//! order, and what each row says.

use vstd::prelude::*;
use crate::filetree::bulk::{pane_shows, SelectionPane};
use crate::filetree::snapshot::{is_listed, labels_tell, lists, FilterLabels};
use crate::filetree::status::{
    badge_of, lemma_said_of_absent, lemma_said_of_found, lookup, paths_are_distinct, said_of,
    FileState, StatusEntry,
};
use crate::filetree::tree::{count_states, FileTree, Filter, PaneKind};
use crate::order::{
    key_less, key_of, keys_of, lemma_codes_injective, lemma_key_total, permute, placed_before,
    stable_order,
};
use crate::path::{path_key, shown_name, written, TreePath};
use crate::text::decimal_of;

verus! {

/// One row of the changed list.
#[derive(Debug, PartialEq, Eq)]
pub struct ChangedRow {
    /// The path within the repository.
    pub path: TreePath,
    /// The path on disk.
    pub absolute: TreePath,
    pub state: FileState,
    /// A stash entry touches this file too.
    pub in_stash: bool,
    pub title: String,
    pub subtitle: String,
}

/// What the active filter lists, and what the list says when it is empty.
#[derive(Debug, PartialEq, Eq)]
pub struct ChangedList {
    pub rows: Vec<ChangedRow>,
    /// Why there is nothing to list; shown only without rows.
    pub empty_text: &'static str,
    pub check_tooltip: &'static str,
    pub row_tooltip: &'static str,
    /// The pane that opens with the list: the Staged view rests on one.
    pub pane: Option<SelectionPane>,
}

/// Whether a filter lists a path.
pub open spec fn shows(tree: FileTree, path: Seq<Seq<char>>) -> bool {
    match tree.filter {
        Filter::All => false,
        Filter::Stashed => lists(tree.stashed@, path),
        Filter::Dirty => said_of(tree.status@, path) matches Some(s) && s.is_stageable(),
        Filter::Staged => said_of(tree.status@, path) == Some(FileState::Staged),
        Filter::Conflicts => said_of(tree.status@, path) == Some(FileState::Conflicted),
    }
}

/// The place on disk of a path within the repository.
pub open spec fn on_disk(workdir: Option<TreePath>, rel: Seq<Seq<char>>) -> Seq<Seq<char>> {
    match workdir {
        Some(dir) => dir@ + rel,
        None => rel,
    }
}

/// A row says what git says of its file.
pub open spec fn row_tells(row: ChangedRow, tree: FileTree) -> bool {
    &&& shows(tree, row.path@)
    &&& row.absolute@ == on_disk(tree.workdir, row.path@)
    &&& row.state == match said_of(tree.status@, row.path@) {
        Some(state) => state,
        None => FileState::Clean,
    }
    &&& row.in_stash == lists(tree.stashed@, row.path@)
    &&& row.title@ == shown_name(row.path@)
    &&& row.subtitle@ == written(row.path@)
}

/// Why the list is empty.
pub open spec fn empty_shown(filter: Filter, rebasing: bool) -> Seq<char> {
    match filter {
        Filter::Conflicts => if rebasing {
            "All conflicts resolved — Continue the rebase above"@
        } else {
            "No conflicts right now"@
        },
        Filter::Staged => "Nothing is staged right now"@,
        Filter::Dirty => "Nothing is dirty right now"@,
        _ => "Nothing is stashed right now"@,
    }
}

/// What a row's checkbox says.
pub open spec fn check_shown(filter: Filter) -> Seq<char> {
    match filter {
        Filter::Conflicts => "Select for conflict resolution"@,
        Filter::Staged => "A commit takes every staged file; unstage a file to leave it out"@,
        _ => "Select for stage/stash/unstage actions"@,
    }
}

/// What activating a row does.
pub open spec fn row_tip_shown(filter: Filter) -> Seq<char> {
    if filter == Filter::Conflicts {
        "Opens the file at its first conflict marker"@
    } else {
        "Opens the diff — the tab's Changes view"@
    }
}

fn empty_text(filter: Filter, rebasing: bool) -> (out: &'static str)
    ensures
        out@ == empty_shown(filter, rebasing),
{
    match filter {
        Filter::Conflicts => {
            if rebasing {
                "All conflicts resolved — Continue the rebase above"
            } else {
                "No conflicts right now"
            }
        },
        Filter::Staged => "Nothing is staged right now",
        Filter::Dirty => "Nothing is dirty right now",
        _ => "Nothing is stashed right now",
    }
}

fn check_tooltip(filter: Filter) -> (out: &'static str)
    ensures
        out@ == check_shown(filter),
{
    match filter {
        Filter::Conflicts => "Select for conflict resolution",
        Filter::Staged => "A commit takes every staged file; unstage a file to leave it out",
        _ => "Select for stage/stash/unstage actions",
    }
}

fn row_tooltip(filter: Filter) -> (out: &'static str)
    ensures
        out@ == row_tip_shown(filter),
{
    if filter == Filter::Conflicts {
        "Opens the file at its first conflict marker"
    } else {
        "Opens the diff — the tab's Changes view"
    }
}

/// The badge at the end of a changed row; a state that needs no badge has an
/// empty one.
pub open spec fn changed_badge_shown(state: FileState) -> Seq<char> {
    match state {
        FileState::Staged => "S"@,
        FileState::Modified => "M"@,
        FileState::Untracked => "U"@,
        FileState::Conflicted => "!"@,
        _ => ""@,
    }
}

pub fn changed_badge(state: FileState) -> (out: &'static str)
    ensures
        out@ == changed_badge_shown(state),
{
    match state {
        FileState::Staged => "S",
        FileState::Modified => "M",
        FileState::Untracked => "U",
        FileState::Conflicted => "!",
        _ => "",
    }
}

/// Whether a row's changes can be discarded: there is a committed state to go
/// back to, and the checkout is the user's.
pub fn discard_enabled(state: FileState, read_only: bool) -> (r: bool)
    ensures
        can_discard(state, read_only, r),
{
    matches!(state, FileState::Modified | FileState::Conflicted) && !read_only
}

/// Whether a row's changes can be discarded.
pub open spec fn can_discard(state: FileState, read_only: bool, r: bool) -> bool {
    &&& r == ((state == FileState::Modified || state == FileState::Conflicted) && !read_only)
}

/// What the discard button says.
pub fn discard_tooltip(state: FileState) -> (out: &'static str)
    ensures
        out@ == if state == FileState::Untracked {
            "Untracked: no committed state to restore"@
        } else {
            "Discard changes (restore the committed state)"@
        },
{
    if state == FileState::Untracked {
        "Untracked: no committed state to restore"
    } else {
        "Discard changes (restore the committed state)"
    }
}

/// Paths with the same place are one path.
pub proof fn lemma_path_key_injective(a: Seq<Seq<char>>, b: Seq<Seq<char>>)
    requires
        path_key(a) == path_key(b),
    ensures
        a == b,
{
    assert(path_key(a).len() == a.len());
    assert(path_key(b).len() == b.len());
    assert forall|i: int| 0 <= i < a.len() implies a[i] == b[i] by {
        assert(path_key(a)[i] == crate::order::codes(a[i]));
        assert(path_key(b)[i] == crate::order::codes(b[i]));
        lemma_codes_injective(a[i], b[i]);
    }
    assert(a =~= b);
}

/// No path is listed twice.
pub open spec fn are_distinct(paths: Seq<TreePath>) -> bool {
    forall|i: int, j: int|
        0 <= i < j < paths.len() ==> (#[trigger] paths[i])@ != (#[trigger] paths[j])@
}

/// The rows are exactly the files the filter lists, each once, in the order of
/// their paths.
pub open spec fn lists_exactly(rows: Seq<ChangedRow>, tree: FileTree) -> bool {
    &&& forall|i: int| 0 <= i < rows.len() ==> row_tells(#[trigger] rows[i], tree)
    &&& forall|path: Seq<Seq<char>>| #[trigger]
        shows(tree, path) ==> exists|i: int|
            0 <= i < rows.len() && (#[trigger] rows[i]).path@ == path
    &&& forall|i: int, j: int|
        0 <= i < j < rows.len() ==> key_less(path_key(rows[i].path@), path_key(rows[j].path@))
}

proof fn lemma_rows_on_disk_are_distinct(rows: Seq<ChangedRow>, tree: FileTree)
    requires
        lists_exactly(rows, tree),
    ensures
        forall|i: int, j: int|
            0 <= i < j < rows.len() ==> (#[trigger] rows[i]).absolute@ != (
            #[trigger] rows[j]).absolute@,
{
    assert forall|i: int, j: int| 0 <= i < j < rows.len() implies (#[trigger] rows[i]).absolute@
        != (#[trigger] rows[j]).absolute@ by {
        assert(row_tells(rows[i], tree) && row_tells(rows[j], tree));
        assert(key_less(path_key(rows[i].path@), path_key(rows[j].path@)));
        if rows[i].absolute@ == rows[j].absolute@ {
            if let Some(dir) = tree.workdir {
                let whole = rows[i].absolute@;
                let from = dir@.len() as int;
                assert(whole.subrange(from, whole.len() as int) =~= rows[i].path@);
                assert(whole.subrange(from, whole.len() as int) =~= rows[j].path@);
            }
            lemma_key_total(path_key(rows[i].path@), path_key(rows[j].path@));
        }
    }
}

impl FileTree {
    fn row_for(&self, path: &TreePath, state: FileState) -> (row: ChangedRow)
        requires
            shows(*self, path@),
            state == match said_of(self.status@, path@) {
                Some(state) => state,
                None => FileState::Clean,
            },
        ensures
            row.path@ == path@,
            row_tells(row, *self),
    {
        let absolute = match &self.workdir {
            Some(dir) => dir.join(path),
            None => path.clone(),
        };
        ChangedRow {
            path: path.clone(),
            absolute,
            state,
            in_stash: is_listed(&self.stashed, path),
            title: path.display_name(),
            subtitle: path.show(),
        }
    }

    /// The files the active filter lists, in the order of their paths.
    pub fn changed_rows(&self) -> (rows: Vec<ChangedRow>)
        requires
            paths_are_distinct(self.status@),
            are_distinct(self.stashed@),
        ensures
            lists_exactly(rows@, *self),
    {
        let mut found: Vec<ChangedRow> = Vec::new();
        let mut keys: Vec<Vec<Vec<u64>>> = Vec::new();
        if self.filter == Filter::Stashed {
            let mut i: usize = 0;
            while i < self.stashed.len()
                invariant
                    self.filter == Filter::Stashed,
                    are_distinct(self.stashed@),
                    i <= self.stashed@.len(),
                    found@.len() == i,
                    keys@.len() == i,
                    forall|j: int|
                        0 <= j < i ==> row_tells(#[trigger] found@[j], *self) && found@[j].path@
                            == self.stashed@[j]@ && key_of(keys@[j]) == path_key(found@[j].path@),
                decreases self.stashed@.len() - i,
            {
                let path = &self.stashed[i];
                assert(lists(self.stashed@, path@));
                let state = match lookup(&self.status, path) {
                    Some(state) => state,
                    None => FileState::Clean,
                };
                keys.push(path.sort_key());
                found.push(self.row_for(path, state));
                i += 1;
            }
            proof {
                assert forall|path: Seq<Seq<char>>| #[trigger] shows(*self, path) implies exists|
                    k: int,
                |
                    0 <= k < found@.len() && (#[trigger] found@[k]).path@ == path by {
                    let k = choose|k: int|
                        0 <= k < self.stashed@.len() && (#[trigger] self.stashed@[k])@ == path;
                    assert(found@[k].path@ == path);
                }
                assert forall|a: int, b: int| 0 <= a < b < found@.len() implies found@[a].path@
                    != found@[b].path@ by {
                    assert(self.stashed@[a]@ != self.stashed@[b]@);
                }
            }
        } else {
            let ghost mut at: Seq<int> = Seq::empty();
            let mut i: usize = 0;
            while i < self.status.len()
                invariant
                    self.filter != Filter::Stashed,
                    paths_are_distinct(self.status@),
                    i <= self.status@.len(),
                    found@.len() == keys@.len() == at.len(),
                    forall|j: int|
                        0 <= j < found@.len() ==> row_tells(#[trigger] found@[j], *self) && key_of(
                            keys@[j],
                        ) == path_key(found@[j].path@) && 0 <= at[j] < i && found@[j].path@
                            == self.status@[at[j]].path@,
                    forall|j: int| 0 <= j < at.len() ==> 0 <= #[trigger] at[j] < i,
                    forall|a: int, b: int| 0 <= a < b < at.len() ==> at[a] < at[b],
                    forall|k: int|
                        0 <= k < i && shows(*self, (#[trigger] self.status@[k]).path@)
                            ==> exists|j: int| 0 <= j < at.len() && #[trigger] at[j] == k,
                decreases self.status@.len() - i,
            {
                let entry = &self.status[i];
                let state = entry.state;
                let listed = match self.filter {
                    Filter::Dirty => state.stageable(),
                    Filter::Staged => state == FileState::Staged,
                    Filter::Conflicts => state == FileState::Conflicted,
                    _ => false,
                };
                proof {
                    assert forall|j: int| 0 <= j < i implies (#[trigger] self.status@[j]).path@
                        != entry.path@ by {}
                    lemma_said_of_absent(self.status@, i as int, entry.path@);
                    assert(said_of(self.status@, entry.path@) == Some(state));
                    assert(listed == shows(*self, entry.path@));
                }
                if listed {
                    keys.push(entry.path.sort_key());
                    found.push(self.row_for(&entry.path, state));
                    proof {
                        let before = at;
                        at = at.push(i as int);
                        assert forall|k: int|
                            0 <= k < i + 1 && shows(*self, (#[trigger] self.status@[k]).path@) implies exists|
                            j: int,
                        | 0 <= j < at.len() && #[trigger] at[j] == k by {
                            if k < i {
                                let j = choose|j: int|
                                    0 <= j < before.len() && #[trigger] before[j] == k;
                                assert(at[j] == k);
                            } else {
                                assert(at[at.len() - 1] == k);
                            }
                        }
                    }
                }
                i += 1;
            }
            proof {
                assert forall|path: Seq<Seq<char>>| #[trigger] shows(*self, path) implies exists|
                    k: int,
                |
                    0 <= k < found@.len() && (#[trigger] found@[k]).path@ == path by {
                    let k = lemma_said_of_found(self.status@, path);
                    assert(shows(*self, self.status@[k].path@));
                    let j = choose|j: int| 0 <= j < at.len() && #[trigger] at[j] == k;
                    assert(found@[j].path@ == path);
                }
                assert forall|a: int, b: int| 0 <= a < b < found@.len() implies found@[a].path@
                    != found@[b].path@ by {
                    assert(self.status@[at[a]].path@ != self.status@[at[b]].path@);
                }
            }
        }
        let order = stable_order(&keys);
        let ghost unsorted = found@;
        let ghost ks = keys_of(keys@);
        let rows = permute(found, &order);
        proof {
            assert forall|i: int| 0 <= i < rows@.len() implies row_tells(
                #[trigger] rows@[i],
                *self,
            ) by {
                assert(rows@[i] == unsorted[order@[i] as int]);
            }
            assert forall|path: Seq<Seq<char>>| #[trigger] shows(*self, path) implies exists|
                i: int,
            |
                0 <= i < rows@.len() && (#[trigger] rows@[i]).path@ == path by {
                let k = choose|k: int|
                    0 <= k < unsorted.len() && (#[trigger] unsorted[k]).path@ == path;
                assert(order@.contains(k as usize));
                let i = choose|i: int| 0 <= i < order@.len() && order@[i] == k as usize;
                assert(rows@[i] == unsorted[k]);
            }
            assert forall|i: int, j: int| 0 <= i < j < rows@.len() implies key_less(
                path_key(rows@[i].path@),
                path_key(rows@[j].path@),
            ) by {
                let a = order@[i] as int;
                let b = order@[j] as int;
                assert(rows@[i] == unsorted[a] && rows@[j] == unsorted[b]);
                assert(placed_before(ks, a, b));
                assert(ks[a] == path_key(unsorted[a].path@));
                assert(ks[b] == path_key(unsorted[b].path@));
                if ks[a] == ks[b] {
                    lemma_path_key_injective(unsorted[a].path@, unsorted[b].path@);
                    if a < b {
                        assert(unsorted[a].path@ != unsorted[b].path@);
                    } else {
                        assert(unsorted[b].path@ != unsorted[a].path@);
                    }
                }
            }
        }
        rows
    }

    /// List the active filter's files. Rebuilding the rows resets every
    /// checkbox, so the selection restarts with them: everything in the Staged
    /// view, where the checkboxes show what the commit takes, and nothing
    /// elsewhere. The Staged view opens its own pane over them. Elsewhere, and
    /// over an empty list, a pane that belonged to the old selection closes;
    /// one-shot flows survive.
    pub fn render_changed_list(&mut self) -> (out: ChangedList)
        requires
            paths_are_distinct(old(self).status@),
            are_distinct(old(self).stashed@),
        ensures
            old(self).wf() ==> final(self).wf(),
            renders(*old(self), *final(self), out),
    {
        let rows = self.changed_rows();
        let ghost start = *self;
        self.selection = Vec::new();
        let mut list = ChangedList {
            pane: None,
            empty_text: empty_text(self.filter, self.rebasing),
            check_tooltip: check_tooltip(self.filter),
            row_tooltip: row_tooltip(self.filter),
            rows,
        };
        let from_selection = matches!(self.pane, PaneKind::Selection | PaneKind::Staged);
        if list.rows.len() == 0 {
            if from_selection {
                self.close_intervention();
            }
            return list;
        }
        if self.filter == Filter::Staged {
            let mut checked: Vec<TreePath> = Vec::new();
            let mut i: usize = 0;
            while i < list.rows.len()
                invariant
                    i <= list.rows@.len(),
                    checked@.len() == i,
                    forall|j: int|
                        0 <= j < i ==> (#[trigger] checked@[j])@ == list.rows@[j].absolute@,
                decreases list.rows@.len() - i,
            {
                checked.push(list.rows[i].absolute.clone());
                i += 1;
            }
            proof {
                lemma_rows_on_disk_are_distinct(list.rows@, start);
                assert forall|a: int, b: int| 0 <= a < b < checked@.len() implies (
                #[trigger] checked@[a])@ != (#[trigger] checked@[b])@ by {
                    assert(list.rows@[a].absolute@ != list.rows@[b].absolute@);
                }
            }
            self.selection = checked;
            list.pane = self.selection_intervention();
        } else if from_selection {
            self.close_intervention();
        }
        list
    }
}

/// Listing the active filter's files.
pub open spec fn renders(
    before: FileTree,
    after: FileTree,
    out: ChangedList,
) -> bool {
    &&& lists_exactly(out.rows@, before)
    &&& out.empty_text@ == empty_shown(before.filter, before.rebasing)
    &&& out.check_tooltip@ == check_shown(before.filter)
    &&& out.row_tooltip@ == row_tip_shown(before.filter)
    &&& before.filter == Filter::Staged ==> after.selection@.len() == out.rows@.len()
        && forall|i: int|
        0 <= i < out.rows@.len() ==> (#[trigger] after.selection@[i])@
            == out.rows@[i].absolute@
    &&& before.filter != Filter::Staged ==> after.selection@.len() == 0
    &&& after == (FileTree {
        selection: after.selection,
        pane: after.pane,
        pane_file: after.pane_file,
        ..before
    })
    &&& after.pane == pane_after(before, out.rows@.len() == 0)
    &&& after.pane_file == if after.pane == PaneKind::Closed && before.pane
        != PaneKind::Closed {
        None
    } else {
        before.pane_file
    }
    &&& out.pane is Some <==> before.filter == Filter::Staged && out.rows@.len() > 0
    &&& out.pane matches Some(pane) ==> pane_shows(
        pane,
        FileTree { selection: after.selection, ..before },
    )
}

/// The pane after re-listing: the Staged view's own while it has files; else
/// none in place of one that was the old selection's.
pub open spec fn pane_after(tree: FileTree, empty: bool) -> PaneKind {
    if !empty && tree.filter == Filter::Staged {
        PaneKind::Staged
    } else if tree.pane == PaneKind::Selection || tree.pane == PaneKind::Staged {
        PaneKind::Closed
    } else {
        tree.pane
    }
}

/// The paths of the entries in a state that satisfies `p`, in order.
pub open spec fn paths_where(status: Seq<StatusEntry>, p: spec_fn(FileState) -> bool) -> Seq<
    Seq<Seq<char>>,
>
    decreases status.len(),
{
    if status.len() == 0 {
        Seq::empty()
    } else if p(status.last().state) {
        paths_where(status.drop_last(), p).push(status.last().path@)
    } else {
        paths_where(status.drop_last(), p)
    }
}

proof fn lemma_paths_where(status: Seq<StatusEntry>, p: spec_fn(FileState) -> bool)
    requires
        paths_are_distinct(status),
    ensures
        paths_where(status, p).len() == count_states(status, p),
        paths_where(status, p).no_duplicates(),
        forall|path: Seq<Seq<char>>| #[trigger]
            paths_where(status, p).contains(path) <==> exists|k: int|
                0 <= k < status.len() && (#[trigger] status[k]).path@ == path && p(status[k].state),
    decreases status.len(),
{
    if status.len() > 0 {
        let rest = status.drop_last();
        let before = paths_where(rest, p);
        let all = paths_where(status, p);
        let last = status.last();
        lemma_paths_where(rest, p);
        assert forall|path: Seq<Seq<char>>| #[trigger] all.contains(path) <==> exists|k: int|
            0 <= k < status.len() && (#[trigger] status[k]).path@ == path && p(status[k].state) by {
            if all.contains(path) {
                let at = choose|at: int| 0 <= at < all.len() && all[at] == path;
                if at < before.len() {
                    assert(before[at] == path);
                    assert(before.contains(path));
                    let k = choose|k: int|
                        0 <= k < rest.len() && (#[trigger] rest[k]).path@ == path && p(
                            rest[k].state,
                        );
                    assert(status[k].path@ == path);
                } else {
                    assert(status[status.len() - 1].path@ == path);
                }
            }
            if exists|k: int|
                0 <= k < status.len() && (#[trigger] status[k]).path@ == path && p(
                    status[k].state,
                ) {
                let k = choose|k: int|
                    0 <= k < status.len() && (#[trigger] status[k]).path@ == path && p(
                        status[k].state,
                    );
                if k < rest.len() {
                    assert(rest[k].path@ == path && p(rest[k].state));
                    assert(before.contains(path));
                    let at = choose|at: int| 0 <= at < before.len() && before[at] == path;
                    assert(all[at] == path);
                } else {
                    assert(all[all.len() - 1] == path);
                }
            }
        }
        if p(last.state) {
            assert(!before.contains(last.path@)) by {
                if before.contains(last.path@) {
                    let k = choose|k: int|
                        0 <= k < rest.len() && (#[trigger] rest[k]).path@ == last.path@ && p(
                            rest[k].state,
                        );
                    assert(status[k].path@ != status[status.len() - 1].path@);
                }
            }
            assert forall|a: int, b: int| 0 <= a < all.len() && 0 <= b < all.len() && a
                != b implies all[a] != all[b] by {
                if a < before.len() && b < before.len() {
                    assert(before[a] != before[b]);
                } else if a < before.len() {
                    assert(before.contains(before[a]));
                } else {
                    assert(before.contains(before[b]));
                }
            }
        }
    }
}

proof fn lemma_said_of_entry(status: Seq<StatusEntry>, k: int)
    requires
        paths_are_distinct(status),
        0 <= k < status.len(),
    ensures
        said_of(status, status[k].path@) == Some(status[k].state),
{
    assert forall|j: int| 0 <= j < k implies (#[trigger] status[j]).path@ != status[k].path@ by {}
    lemma_said_of_absent(status, k, status[k].path@);
}

/// Some row is this file's.
pub open spec fn has_row(rows: Seq<ChangedRow>, path: Seq<Seq<char>>) -> bool {
    exists|i: int| 0 <= i < rows.len() && (#[trigger] rows[i]).path@ == path
}

proof fn lemma_listed_paths(rows: Seq<ChangedRow>, tree: FileTree) -> (listed: Seq<Seq<Seq<char>>>)
    requires
        lists_exactly(rows, tree),
    ensures
        listed.len() == rows.len(),
        listed.no_duplicates(),
        forall|path: Seq<Seq<char>>| #[trigger] listed.contains(path) <==> has_row(rows, path),
        forall|path: Seq<Seq<char>>| #[trigger] has_row(rows, path) <==> shows(tree, path),
{
    let listed = Seq::new(rows.len(), |i: int| rows[i].path@);
    assert forall|a: int, b: int| 0 <= a < listed.len() && 0 <= b < listed.len() && a
        != b implies listed[a] != listed[b] by {
        let (x, y) = if a < b {
            (a, b)
        } else {
            (b, a)
        };
        assert(key_less(path_key(rows[x].path@), path_key(rows[y].path@)));
        lemma_key_total(path_key(rows[x].path@), path_key(rows[y].path@));
    }
    assert forall|path: Seq<Seq<char>>| #[trigger] listed.contains(path) <==> has_row(rows, path) by {
        if listed.contains(path) {
            let i = choose|i: int| 0 <= i < listed.len() && listed[i] == path;
            assert(rows[i].path@ == path);
        }
        if has_row(rows, path) {
            let i = choose|i: int| 0 <= i < rows.len() && (#[trigger] rows[i]).path@ == path;
            assert(listed[i] == path);
        }
    }
    assert forall|path: Seq<Seq<char>>| #[trigger] has_row(rows, path) <==> shows(tree, path) by {
        if has_row(rows, path) {
            let i = choose|i: int| 0 <= i < rows.len() && (#[trigger] rows[i]).path@ == path;
            assert(row_tells(rows[i], tree));
        }
    }
    listed
}

proof fn lemma_same_members(a: Seq<Seq<Seq<char>>>, b: Seq<Seq<Seq<char>>>)
    requires
        a.no_duplicates(),
        b.no_duplicates(),
        forall|path: Seq<Seq<char>>| #[trigger] a.contains(path) <==> b.contains(path),
    ensures
        a.len() == b.len(),
{
    assert(a.to_set() =~= b.to_set());
    a.unique_seq_to_set();
    b.unique_seq_to_set();
}

/// A filter that shows the files in a state that satisfies `p` lists them.
proof fn lemma_lists_state(
    tree: FileTree,
    rows: Seq<ChangedRow>,
    p: spec_fn(FileState) -> bool,
)
    requires
        paths_are_distinct(tree.status@),
        lists_exactly(rows, tree),
        forall|path: Seq<Seq<char>>| #[trigger]
            shows(tree, path) <==> (said_of(tree.status@, path) matches Some(s) && p(s)),
    ensures
        rows.len() == count_states(tree.status@, p),
        forall|i: int| 0 <= i < rows.len() ==> p((#[trigger] rows[i]).state),
        forall|k: int|
            0 <= k < tree.status@.len() && p((#[trigger] tree.status@[k]).state) ==> has_row(
                rows,
                tree.status@[k].path@,
            ),
{
    let status = tree.status@;
    let listed = lemma_listed_paths(rows, tree);
    lemma_paths_where(status, p);
    let wanted = paths_where(status, p);
    assert forall|k: int| 0 <= k < status.len() && p((#[trigger] status[k]).state) implies has_row(
        rows,
        status[k].path@,
    ) by {
        lemma_said_of_entry(status, k);
        assert(shows(tree, status[k].path@));
    }
    assert forall|i: int| 0 <= i < rows.len() implies p((#[trigger] rows[i]).state) by {
        assert(row_tells(rows[i], tree));
    }
    assert forall|path: Seq<Seq<char>>| #[trigger] listed.contains(path) <==> wanted.contains(
        path,
    ) by {
        if listed.contains(path) {
            assert(has_row(rows, path));
            assert(shows(tree, path));
            let k = lemma_said_of_found(status, path);
            lemma_said_of_entry(status, k);
            assert(p(status[k].state));
        }
        if wanted.contains(path) {
            let k = choose|k: int|
                0 <= k < status.len() && (#[trigger] status[k]).path@ == path && p(status[k].state);
            assert(has_row(rows, path));
        }
    }
    lemma_same_members(listed, wanted);
}

/// Each filter lists the files that git says are in its state, every one of
/// them once and no other: a row's state is the state git gives its file, there
/// are as many rows as there are such files, and none of them is left out. All
/// lists nothing here, and Stashed what the stash entries touch.
pub proof fn each_filter_lists_its_own_files(tree: FileTree, rows: Seq<ChangedRow>)
    requires
        paths_are_distinct(tree.status@),
        are_distinct(tree.stashed@),
        lists_exactly(rows, tree),
    ensures
        tree.filter == Filter::Conflicts ==> {
            &&& rows.len() == count_states(tree.status@, |s: FileState| s == FileState::Conflicted)
            &&& forall|i: int|
                0 <= i < rows.len() ==> (#[trigger] rows[i]).state == FileState::Conflicted
            &&& forall|k: int|
                0 <= k < tree.status@.len() && (#[trigger] tree.status@[k]).state
                    == FileState::Conflicted ==> has_row(rows, tree.status@[k].path@)
        },
        tree.filter == Filter::Staged ==> {
            &&& rows.len() == count_states(tree.status@, |s: FileState| s == FileState::Staged)
            &&& forall|i: int| 0 <= i < rows.len() ==> (#[trigger] rows[i]).state == FileState::Staged
            &&& forall|k: int|
                0 <= k < tree.status@.len() && (#[trigger] tree.status@[k]).state
                    == FileState::Staged ==> has_row(rows, tree.status@[k].path@)
        },
        tree.filter == Filter::Dirty ==> {
            &&& rows.len() == count_states(
                tree.status@,
                |s: FileState| s == FileState::Modified || s == FileState::Untracked,
            )
            &&& forall|i: int|
                0 <= i < rows.len() ==> (#[trigger] rows[i]).state == FileState::Modified
                    || rows[i].state == FileState::Untracked
            &&& forall|k: int|
                0 <= k < tree.status@.len() && ((#[trigger] tree.status@[k]).state
                    == FileState::Modified || tree.status@[k].state == FileState::Untracked)
                    ==> has_row(rows, tree.status@[k].path@)
        },
        tree.filter == Filter::Stashed ==> {
            &&& rows.len() == tree.stashed@.len()
            &&& forall|i: int| 0 <= i < rows.len() ==> (#[trigger] rows[i]).in_stash
            &&& forall|k: int|
                0 <= k < tree.stashed@.len() ==> has_row(rows, (#[trigger] tree.stashed@[k])@)
        },
        tree.filter == Filter::All ==> rows.len() == 0,
        forall|i: int, k: int|
            0 <= i < rows.len() && 0 <= k < tree.status@.len() && (#[trigger] rows[i]).path@ == (
            #[trigger] tree.status@[k]).path@ ==> rows[i].state == tree.status@[k].state,
        forall|i: int, k: int|
            0 <= i < rows.len() && 0 <= k < tree.stashed@.len() && (#[trigger] rows[i]).path@ == (
            #[trigger] tree.stashed@[k])@ ==> rows[i].in_stash,
        forall|i: int|
            0 <= i < rows.len() ==> (#[trigger] rows[i]).absolute@ == match tree.workdir {
                Some(dir) => dir@ + rows[i].path@,
                None => rows[i].path@,
            },
{
    let status = tree.status@;
    assert forall|i: int| 0 <= i < rows.len() implies row_tells(#[trigger] rows[i], tree) by {}
    assert forall|i: int, k: int|
        0 <= i < rows.len() && 0 <= k < status.len() && (#[trigger] rows[i]).path@ == (
        #[trigger] status[k]).path@ implies rows[i].state == status[k].state by {
        lemma_said_of_entry(status, k);
    }
    match tree.filter {
        Filter::All => {
            if rows.len() > 0 {
                assert(row_tells(rows[0], tree));
            }
        },
        Filter::Stashed => {
            lemma_lists_stashed(tree, rows);
        },
        Filter::Dirty => {
            lemma_lists_state(
                tree,
                rows,
                |s: FileState| s == FileState::Modified || s == FileState::Untracked,
            );
        },
        Filter::Staged => {
            lemma_lists_state(tree, rows, |s: FileState| s == FileState::Staged);
        },
        Filter::Conflicts => {
            lemma_lists_state(tree, rows, |s: FileState| s == FileState::Conflicted);
        },
    }
}

proof fn lemma_lists_stashed(tree: FileTree, rows: Seq<ChangedRow>)
    requires
        tree.filter == Filter::Stashed,
        are_distinct(tree.stashed@),
        lists_exactly(rows, tree),
    ensures
        rows.len() == tree.stashed@.len(),
        forall|i: int| 0 <= i < rows.len() ==> (#[trigger] rows[i]).in_stash,
        forall|k: int|
            0 <= k < tree.stashed@.len() ==> has_row(rows, (#[trigger] tree.stashed@[k])@),
{
    let listed = lemma_listed_paths(rows, tree);
    let wanted = Seq::new(tree.stashed@.len(), |k: int| tree.stashed@[k]@);
    assert forall|k: int| 0 <= k < tree.stashed@.len() implies has_row(
        rows,
        (#[trigger] tree.stashed@[k])@,
    ) by {
        assert(lists(tree.stashed@, tree.stashed@[k]@));
        assert(shows(tree, tree.stashed@[k]@));
    }
    assert forall|i: int| 0 <= i < rows.len() implies (#[trigger] rows[i]).in_stash by {
        assert(row_tells(rows[i], tree));
    }
    assert forall|a: int, b: int| 0 <= a < wanted.len() && 0 <= b < wanted.len() && a
        != b implies wanted[a] != wanted[b] by {
        if a < b {
            assert(tree.stashed@[a]@ != tree.stashed@[b]@);
        } else {
            assert(tree.stashed@[b]@ != tree.stashed@[a]@);
        }
    }
    assert forall|path: Seq<Seq<char>>| #[trigger] listed.contains(path) <==> wanted.contains(
        path,
    ) by {
        if listed.contains(path) {
            assert(has_row(rows, path));
            assert(lists(tree.stashed@, path));
            let k = choose|k: int|
                0 <= k < tree.stashed@.len() && (#[trigger] tree.stashed@[k])@ == path;
            assert(wanted[k] == path);
        }
        if wanted.contains(path) {
            let k = choose|k: int| 0 <= k < wanted.len() && wanted[k] == path;
            assert(has_row(rows, tree.stashed@[k]@));
        }
    }
    lemma_same_members(listed, wanted);
}

/// The count that the active filter's button carries is the number of rows its
/// list has.
pub proof fn a_button_counts_the_rows_of_its_list(
    tree: FileTree,
    rows: Seq<ChangedRow>,
    labels: FilterLabels,
)
    requires
        paths_are_distinct(tree.status@),
        are_distinct(tree.stashed@),
        lists_exactly(rows, tree),
        labels_tell(labels, tree),
    ensures
        tree.filter == Filter::Conflicts ==> labels.conflicts@ == "Conflicts "@ + decimal_of(
            rows.len(),
        ),
        tree.filter == Filter::Staged ==> labels.staged@ == "Staged "@ + decimal_of(rows.len()),
        tree.filter == Filter::Dirty ==> labels.dirty@ == "Dirty "@ + decimal_of(rows.len()),
        tree.filter == Filter::Stashed ==> labels.stashed@ == "Stashed "@ + decimal_of(rows.len()),
        tree.filter == Filter::Staged ==> (labels.staged_accent <==> rows.len() > 0),
{
    each_filter_lists_its_own_files(tree, rows);
    lemma_same_count(
        tree.status@,
        |s: FileState| s == FileState::Modified || s == FileState::Untracked,
        |s: FileState| s.is_stageable(),
    );
}

proof fn lemma_same_count(
    status: Seq<StatusEntry>,
    p: spec_fn(FileState) -> bool,
    q: spec_fn(FileState) -> bool,
)
    requires
        forall|s: FileState| #[trigger] p(s) == q(s),
    ensures
        count_states(status, p) == count_states(status, q),
    decreases status.len(),
{
    if status.len() > 0 {
        lemma_same_count(status.drop_last(), p, q);
        assert(p(status.last().state) == q(status.last().state));
    }
}

/// One more entry is one more in its state's count and in no other.
pub proof fn a_count_counts_entries(
    status: Seq<StatusEntry>,
    more: StatusEntry,
    p: spec_fn(FileState) -> bool,
)
    ensures
        count_states(status.push(more), p) == count_states(status, p) + if p(more.state) {
            1nat
        } else {
            0nat
        },
        count_states(Seq::<StatusEntry>::empty(), p) == 0,
{
    assert(status.push(more).drop_last() =~= status);
}

/// Only a change on top of a commit can be discarded, and in someone else's
/// checkout nothing can.
pub proof fn only_committed_files_can_be_discarded(state: FileState, read_only: bool, r: bool)
    requires
        can_discard(state, read_only, r),
    ensures
        read_only ==> !r,
        !read_only && state == FileState::Modified ==> r,
        !read_only && state == FileState::Conflicted ==> r,
        state == FileState::Untracked || state == FileState::Staged || state == FileState::Clean
            || state == FileState::Ignored ==> !r,
{
}

/// Every state that a list shows has a badge of its own, the one that the tree
/// paints for it too.
pub proof fn changed_badges_tell_states_apart(a: FileState, b: FileState)
    ensures
        changed_badge_shown(a) == changed_badge_shown(b) && a != FileState::Clean && a
            != FileState::Ignored ==> a == b,
        changed_badge_shown(FileState::Staged) == "S"@,
        changed_badge_shown(FileState::Modified) == "M"@,
        changed_badge_shown(FileState::Untracked) == "U"@,
        changed_badge_shown(FileState::Conflicted) == "!"@,
        a != FileState::Clean && a != FileState::Ignored ==> changed_badge_shown(a) == badge_of(a),
{
    reveal_strlit("S");
    reveal_strlit("M");
    reveal_strlit("U");
    reveal_strlit("!");
    reveal_strlit("");
    reveal_strlit("·");
    assert("S"@[0] == 'S');
    assert("M"@[0] == 'M');
    assert("U"@[0] == 'U');
    assert("!"@[0] == '!');
    assert(""@.len() == 0);
}

/// The Staged view checks every file it lists, since a commit takes them all;
/// any other view starts with nothing checked.
pub proof fn only_the_staged_view_starts_checked(
    before: FileTree,
    after: FileTree,
    out: ChangedList,
)
    requires
        renders(before, after, out),
    ensures
        before.filter == Filter::Staged ==> {
            &&& after.selection@.len() == out.rows@.len()
            &&& forall|i: int|
                0 <= i < out.rows@.len() ==> (#[trigger] after.selection@[i])@
                    == out.rows@[i].absolute@
        },
        before.filter != Filter::Staged ==> after.selection@.len() == 0 && out.pane is None,
        lists_exactly(out.rows@, before),
        before.filter == Filter::Staged && out.rows@.len() > 0 ==> out.pane is Some && after.pane
            == PaneKind::Staged,
        before.pane == PaneKind::Adhoc && before.filter != Filter::Staged ==> after.pane
            == PaneKind::Adhoc,
        before.pane == PaneKind::Selection && before.filter != Filter::Staged ==> after.pane
            == PaneKind::Closed,
        after.status == before.status && after.filter == before.filter && after.workdir
            == before.workdir && after.watching == before.watching,
{
}

/// An empty list says which one is empty, and that a rebase waits to be taken
/// on where its conflicts are gone; a row says what opening it does: a conflict
/// at its marker, any other change as a diff.
pub proof fn a_list_says_what_it_is_of(filter: Filter, rebasing: bool)
    ensures
        filter == Filter::Conflicts && rebasing ==> empty_shown(filter, rebasing)
            == "All conflicts resolved — Continue the rebase above"@,
        filter == Filter::Conflicts && !rebasing ==> empty_shown(filter, rebasing)
            == "No conflicts right now"@,
        filter == Filter::Staged ==> empty_shown(filter, rebasing)
            == "Nothing is staged right now"@,
        filter == Filter::Dirty ==> empty_shown(filter, rebasing) == "Nothing is dirty right now"@,
        filter == Filter::Stashed ==> empty_shown(filter, rebasing)
            == "Nothing is stashed right now"@,
        filter == Filter::Conflicts <==> row_tip_shown(filter)
            == "Opens the file at its first conflict marker"@,
        filter != Filter::Conflicts ==> row_tip_shown(filter)
            == "Opens the diff — the tab's Changes view"@,
{
    reveal_strlit("Opens the file at its first conflict marker");
    reveal_strlit("Opens the diff — the tab's Changes view");
    assert("Opens the file at its first conflict marker"@.len() == 43);
    assert("Opens the diff — the tab's Changes view"@.len() == 39);
}

} // verus!
