//! What a tree row says, and repainting only the rows that moved.

use vstd::prelude::*;
use crate::filetree::search::{groups, hits_in, lemma_file_hits_at, SearchHit, SearchView};
use crate::filetree::snapshot::{is_listed, lists};
use crate::filetree::status::{
    a_file_paints_what_git_says, aggregate_dir_states, badge_of, class_of, directory_priority,
    lookup, painted_state, paths_are_distinct, state_for, state_style, FileState,
};
use crate::filetree::tree::FileTree;
use crate::fleet::{string_view, text_view};
use crate::path::{lies_in, shown_name, TreePath};
use crate::text::{holds_text, lemma_holds_middle};

verus! {

/// A bound row, addressable after the fact.
#[derive(Debug, PartialEq, Eq)]
pub struct RowHandle {
    pub path: TreePath,
    pub is_dir: bool,
    /// The state the row is currently painted as, which is what a restyle
    /// diffs against.
    pub painted: FileState,
    /// The row carries a lock. Its dim label is the lock's, so leaving the
    /// Ignored state must not un-dim it.
    pub locked: bool,
}

/// What moves on one row.
#[derive(Debug, PartialEq, Eq)]
pub struct Restyle {
    /// Which of the rows.
    pub row: usize,
    pub state: FileState,
    pub badge: &'static str,
    /// The class the badge and the label gain.
    pub gains: Option<&'static str>,
    /// The class the badge loses.
    pub badge_loses: Option<&'static str>,
    /// The class the label loses.
    pub label_loses: Option<&'static str>,
}

/// The state a row should be painted as: clean outside the repository, else
/// what the status says.
pub open spec fn state_now(tree: FileTree, path: Seq<Seq<char>>, is_dir: bool) -> FileState {
    match tree.workdir {
        Some(dir) => if lies_in(path, dir@) {
            painted_state(
                tree.status@,
                path.subrange(dir@.len() as int, path.len() as int),
                is_dir,
            )
        } else {
            FileState::Clean
        },
        None => FileState::Clean,
    }
}

/// A restyle takes a row from what it is painted as to what it should be.
pub open spec fn restyles(out: Restyle, row: RowHandle, tree: FileTree) -> bool {
    let now = state_now(tree, row.path@, row.is_dir);
    &&& out.state == now
    &&& out.badge@ == badge_of(now)
    &&& text_view(out.gains) == class_of(now)
    &&& text_view(out.badge_loses) == class_of(row.painted)
    &&& text_view(out.label_loses) == if row.locked && row.painted == FileState::Ignored {
        None
    } else {
        class_of(row.painted)
    }
}

/// The row is painted as something it no longer is.
pub open spec fn has_moved(tree: FileTree, row: RowHandle) -> bool {
    state_now(tree, row.path@, row.is_dir) != row.painted
}

impl FileTree {
    /// A path as seen from the repository.
    pub fn repo_relative(&self, path: &TreePath) -> (out: Option<TreePath>)
        ensures
            match out {
                Some(rel) => {
                    &&& self.workdir is Some
                    &&& lies_in(path@, self.workdir->0@)
                    &&& rel@ == path@.subrange(self.workdir->0@.len() as int, path@.len() as int)
                },
                None => self.workdir is None || !lies_in(path@, self.workdir->0@),
            },
    {
        match &self.workdir {
            Some(dir) => path.strip_prefix(dir),
            None => None,
        }
    }

    /// The state a row paints.
    pub fn state_of(&self, path: &TreePath, is_dir: bool) -> (state: FileState)
        ensures
            state == state_now(*self, path@, is_dir),
    {
        match self.repo_relative(path) {
            None => FileState::Clean,
            Some(rel) => state_for(&self.status, &rel, is_dir),
        }
    }

    /// Repaint only the rows whose git state actually moved: a restyle for
    /// each of them, in order, and none for any other. Folders are aggregated
    /// together, in one pass over the status.
    pub fn restyle_changed_rows(&self, rows: &Vec<RowHandle>) -> (out: Vec<Restyle>)
        ensures
            forall|k: int|
                0 <= k < out@.len() ==> (#[trigger] out@[k]).row < rows@.len() && has_moved(
                    *self,
                    rows@[out@[k].row as int],
                ) && restyles(out@[k], rows@[out@[k].row as int], *self),
            forall|a: int, b: int| 0 <= a < b < out@.len() ==> out@[a].row < out@[b].row,
            forall|i: int|
                0 <= i < rows@.len() && has_moved(*self, #[trigger] rows@[i]) ==> exists|k: int|
                    0 <= k < out@.len() && (#[trigger] out@[k]).row == i,
    {
        let mut dirs: Vec<TreePath> = Vec::new();
        let mut slots: Vec<usize> = Vec::new();
        let mut i: usize = 0;
        while i < rows.len()
            invariant
                i <= rows@.len(),
                slots@.len() == i,
                forall|j: int|
                    0 <= j < i && rows@[j].is_dir && self.workdir is Some && lies_in(
                        rows@[j].path@,
                        self.workdir->0@,
                    ) ==> (#[trigger] slots@[j]) < dirs@.len() && dirs@[slots@[j] as int]@
                        == rows@[j].path@.subrange(
                        self.workdir->0@.len() as int,
                        rows@[j].path@.len() as int,
                    ),
            decreases rows@.len() - i,
        {
            let slot: usize = dirs.len();
            if rows[i].is_dir {
                if let Some(rel) = self.repo_relative(&rows[i].path) {
                    dirs.push(rel);
                }
            }
            slots.push(slot);
            i += 1;
        }
        let folders = aggregate_dir_states(&self.status, &dirs);
        let mut out: Vec<Restyle> = Vec::new();
        let mut i: usize = 0;
        while i < rows.len()
            invariant
                i <= rows@.len(),
                slots@.len() == rows@.len(),
                folders@.len() == dirs@.len(),
                forall|d: int|
                    0 <= d < dirs@.len() ==> (#[trigger] folders@[d])
                        == crate::filetree::status::directory_state(self.status@, dirs@[d]@),
                forall|j: int|
                    0 <= j < rows@.len() && rows@[j].is_dir && self.workdir is Some && lies_in(
                        rows@[j].path@,
                        self.workdir->0@,
                    ) ==> (#[trigger] slots@[j]) < dirs@.len() && dirs@[slots@[j] as int]@
                        == rows@[j].path@.subrange(
                        self.workdir->0@.len() as int,
                        rows@[j].path@.len() as int,
                    ),
                forall|k: int|
                    0 <= k < out@.len() ==> (#[trigger] out@[k]).row < i && has_moved(
                        *self,
                        rows@[out@[k].row as int],
                    ) && restyles(out@[k], rows@[out@[k].row as int], *self),
                forall|a: int, b: int| 0 <= a < b < out@.len() ==> out@[a].row < out@[b].row,
                forall|j: int|
                    0 <= j < i && has_moved(*self, #[trigger] rows@[j]) ==> exists|k: int|
                        0 <= k < out@.len() && (#[trigger] out@[k]).row == j,
            decreases rows@.len() - i,
        {
            let row = &rows[i];
            let state = match self.repo_relative(&row.path) {
                None => FileState::Clean,
                Some(rel) => {
                    if row.is_dir {
                        assert(slots@[i as int] < dirs@.len());
                        folders[slots[i]]
                    } else {
                        match lookup(&self.status, &rel) {
                            Some(state) => state,
                            None => FileState::Clean,
                        }
                    }
                },
            };
            assert(state == state_now(*self, row.path@, row.is_dir));
            let ghost before = out@;
            if state != row.painted {
                let old_style = state_style(row.painted);
                let new_style = state_style(state);
                let label_loses = if row.locked && row.painted == FileState::Ignored {
                    None
                } else {
                    old_style.1
                };
                out.push(
                    Restyle {
                        row: i,
                        state,
                        badge: new_style.0,
                        gains: new_style.1,
                        badge_loses: old_style.1,
                        label_loses,
                    },
                );
                proof {
                    assert forall|j: int|
                        0 <= j < i + 1 && has_moved(*self, #[trigger] rows@[j]) implies exists|
                        k: int,
                    | 0 <= k < out@.len() && (#[trigger] out@[k]).row == j by {
                        if j == i {
                            assert(out@[before.len() as int].row == j);
                        } else {
                            let k = choose|k: int|
                                0 <= k < before.len() && (#[trigger] before[k]).row == j;
                            assert(out@[k].row == j);
                        }
                    }
                }
            }
            i += 1;
        }
        out
    }
}

/// A row that was restyled is painted as it should be: nothing is left to
/// restyle on it.
pub proof fn a_restyled_row_rests(tree: FileTree, row: RowHandle, out: Restyle)
    requires
        restyles(out, row, tree),
    ensures
        !has_moved(tree, RowHandle { painted: out.state, ..row }),
{
}

/// The classes on a row's badge.
pub open spec fn badge_classes(state: FileState) -> Set<Seq<char>> {
    match class_of(state) {
        Some(class) => set![class],
        None => Set::empty(),
    }
}

/// The classes on a row's label: a locked row's is dimmed.
pub open spec fn label_classes(state: FileState, locked: bool) -> Set<Seq<char>> {
    if locked {
        badge_classes(state).insert("dim-label"@)
    } else {
        badge_classes(state)
    }
}

/// Some classes with one lost and another gained.
pub open spec fn reclassed(
    classes: Set<Seq<char>>,
    loses: Option<Seq<char>>,
    gains: Option<Seq<char>>,
) -> Set<Seq<char>> {
    let left = match loses {
        Some(class) => classes.remove(class),
        None => classes,
    };
    match gains {
        Some(class) => left.insert(class),
        None => left,
    }
}

/// A row updated under the pointer and a row built fresh never diverge: with
/// its restyle a row carries the badge and the classes of a row built in the
/// state that git says now.
pub proof fn a_restyled_row_looks_fresh(tree: FileTree, row: RowHandle, out: Restyle)
    requires
        restyles(out, row, tree),
    ensures
        out.badge@ == badge_of(state_now(tree, row.path@, row.is_dir)),
        reclassed(badge_classes(row.painted), text_view(out.badge_loses), text_view(out.gains))
            == badge_classes(state_now(tree, row.path@, row.is_dir)),
        reclassed(
            label_classes(row.painted, row.locked),
            text_view(out.label_loses),
            text_view(out.gains),
        ) == label_classes(state_now(tree, row.path@, row.is_dir), row.locked),
{
    reveal_strlit("warning");
    reveal_strlit("success");
    reveal_strlit("accent");
    reveal_strlit("error");
    reveal_strlit("dim-label");
    let now = state_now(tree, row.path@, row.is_dir);
    assert("warning"@[0] != "dim-label"@[0]);
    assert("success"@[0] != "dim-label"@[0]);
    assert("accent"@[0] != "dim-label"@[0]);
    assert("error"@[0] != "dim-label"@[0]);
    assert(reclassed(
        badge_classes(row.painted),
        text_view(out.badge_loses),
        text_view(out.gains),
    ) =~= badge_classes(now));
    assert(reclassed(
        label_classes(row.painted, row.locked),
        text_view(out.label_loses),
        text_view(out.gains),
    ) =~= label_classes(now, row.locked));
}

/// How search results mark a row.
#[derive(Debug, Clone, Copy, PartialEq, Eq, Structural)]
pub enum SearchMark {
    Plain,
    /// So many matches in this file.
    Hits(usize),
    /// The editor's file, with none: an honest zero at full opacity.
    Zero,
    /// No match: the row stays but fades.
    Faded,
}

/// How search results mark a row.
pub open spec fn search_mark_of(
    view: Option<SearchView>,
    path: Seq<Seq<char>>,
    is_dir: bool,
) -> SearchMark {
    match view {
        None => SearchMark::Plain,
        Some(view) => if is_dir {
            if lists(view.visible@, path) {
                SearchMark::Plain
            } else {
                SearchMark::Faded
            }
        } else if exists|i: int| 0 <= i < view.files@.len() && (#[trigger] view.files@[i]).path@
            == path {
            SearchMark::Hits(view.file_hits(path).len() as usize)
        } else if view.pinned matches Some(file) && file@ == path {
            SearchMark::Zero
        } else {
            SearchMark::Faded
        },
    }
}

/// How search results mark a row: a match count on files, fading elsewhere.
pub fn search_mark(view: &Option<SearchView>, path: &TreePath, is_dir: bool) -> (mark: SearchMark)
    ensures
        mark == search_mark_of(*view, path@, is_dir),
{
    match view {
        None => SearchMark::Plain,
        Some(view) => {
            if is_dir {
                if is_listed(&view.visible, path) {
                    SearchMark::Plain
                } else {
                    SearchMark::Faded
                }
            } else {
                match view.matched(path) {
                    Some(i) => {
                        proof {
                            crate::filetree::search::lemma_file_hits_at(
                                view.files@,
                                i as int,
                                path@,
                            );
                        }
                        SearchMark::Hits(view.files[i].hits.len())
                    },
                    None => match &view.pinned {
                        Some(file) => {
                            if file.same_as(path) {
                                SearchMark::Zero
                            } else {
                                SearchMark::Faded
                            }
                        },
                        None => SearchMark::Faded,
                    },
                }
            }
        },
    }
}

/// Why a row carries a lock.
pub open spec fn lock_shown(
    watching: Option<Seq<char>>,
    safe_mode: bool,
    write_allowed: bool,
) -> Option<Seq<char>> {
    match watching {
        Some(env) => Some(
            "Read-only: "@ + env
                + "'s checkout. Its agent is working here — review what it publishes, or take over its chat."@,
        ),
        None => if safe_mode && !write_allowed {
            Some(
                "Read-only until the project's environment is running — only devcontainer setup and workspace dotfiles are editable"@,
            )
        } else {
            None
        },
    }
}

/// The environment on screen, by its slug.
pub open spec fn watched_slug(tree: FileTree) -> Option<Seq<char>> {
    match tree.watching {
        Some(target) => Some(target.0@),
        None => None,
    }
}

/// One row's content.
#[derive(Debug, PartialEq, Eq)]
pub struct RowFace {
    pub name: String,
    pub state: FileState,
    pub badge: &'static str,
    pub class: Option<&'static str>,
    pub mark: SearchMark,
    /// Why the row is locked; its label is dimmed then.
    pub lock: Option<String>,
}

impl FileTree {
    /// Why a row is locked: it is someone else's file, or the project's
    /// environment is down and the write policy refuses the path. Watching
    /// wins where both apply. In `safe_mode` the environment is down, and
    /// `write_allowed` is the policy's verdict.
    pub fn lock_reason(&self, safe_mode: bool, write_allowed: bool) -> (out: Option<String>)
        ensures
            string_view(out) == lock_shown(watched_slug(*self), safe_mode, write_allowed),
    {
        match &self.watching {
            Some(target) => {
                let mut text = "Read-only: ".to_owned();
                text.append(target.0.as_str());
                text.append(
                    "'s checkout. Its agent is working here — review what it publishes, or take over its chat.",
                );
                Some(text)
            },
            None => {
                if safe_mode && !write_allowed {
                    Some(
                        "Read-only until the project's environment is running — only devcontainer setup and workspace dotfiles are editable".to_owned(),
                    )
                } else {
                    None
                }
            },
        }
    }

    /// One row's content: name, git badge, search annotation and lock.
    pub fn build_row(
        &self,
        path: &TreePath,
        is_dir: bool,
        view: &Option<SearchView>,
        safe_mode: bool,
        write_allowed: bool,
    ) -> (row: RowFace)
        ensures
            row.name@ == shown_name(path@),
            row.state == state_now(*self, path@, is_dir),
            row.badge@ == badge_of(row.state),
            text_view(row.class) == class_of(row.state),
            row.mark == search_mark_of(*view, path@, is_dir),
            string_view(row.lock) == lock_shown(watched_slug(*self), safe_mode, write_allowed),
    {
        let state = self.state_of(path, is_dir);
        let style = state_style(state);
        RowFace {
            name: path.display_name(),
            state,
            badge: style.0,
            class: style.1,
            mark: search_mark(view, path, is_dir),
            lock: self.lock_reason(safe_mode, write_allowed),
        }
    }
}

/// A row's state is what git says of its file in the checkout on screen; a file
/// outside the repository is clean.
pub proof fn a_row_wears_its_files_state(
    tree: FileTree,
    dir: TreePath,
    rel: Seq<Seq<char>>,
    k: int,
)
    requires
        tree.workdir == Some(dir),
        paths_are_distinct(tree.status@),
        0 <= k < tree.status@.len(),
        tree.status@[k].path@ == rel,
    ensures
        state_now(tree, dir@ + rel, false) == tree.status@[k].state,
        tree.status@[k].state == FileState::Conflicted ==> forall|n: int|
            0 <= n <= rel.len() ==> #[trigger] state_now(tree, dir@ + rel.take(n), true)
                == FileState::Conflicted,
{
    let path = dir@ + rel;
    assert(path.subrange(0, dir@.len() as int) =~= dir@);
    assert(path.subrange(dir@.len() as int, path.len() as int) =~= rel);
    a_file_paints_what_git_says(tree.status@, rel, k);
    if tree.status@[k].state == FileState::Conflicted {
        assert forall|n: int| 0 <= n <= rel.len() implies #[trigger] state_now(
            tree,
            dir@ + rel.take(n),
            true,
        ) == FileState::Conflicted by {
            let above = dir@ + rel.take(n);
            assert(above.subrange(0, dir@.len() as int) =~= dir@);
            assert(above.subrange(dir@.len() as int, above.len() as int) =~= rel.take(n));
            assert(rel.subrange(0, n) =~= rel.take(n));
            assert(lies_in(tree.status@[k].path@, rel.take(n)));
            directory_priority(tree.status@, rel.take(n));
        }
    }
}

/// Every row of someone else's checkout is locked and says whose it is. In the
/// user's own a row is locked exactly where the environment is down and the
/// write policy refuses its path.
pub proof fn a_lock_says_what_cannot_be_written(
    tree: FileTree,
    safe_mode: bool,
    write_allowed: bool,
)
    ensures
        tree.watching matches Some(target) ==> (lock_shown(
            watched_slug(tree),
            safe_mode,
            write_allowed,
        ) matches Some(why) && holds_text(why, target.0@)),
        tree.watching is None && write_allowed ==> lock_shown(
            watched_slug(tree),
            safe_mode,
            write_allowed,
        ) is None,
        tree.watching is None && !safe_mode ==> lock_shown(
            watched_slug(tree),
            safe_mode,
            write_allowed,
        ) is None,
        tree.watching is None && safe_mode && !write_allowed ==> lock_shown(
            watched_slug(tree),
            safe_mode,
            write_allowed,
        ) is Some,
{
    if let Some(target) = tree.watching {
        lemma_holds_middle(
            "Read-only: "@,
            target.0@,
            "'s checkout. Its agent is working here — review what it publishes, or take over its chat."@,
        );
    }
}

/// While results are on screen a file says how many of the hits are its own; one
/// without any fades, unless it is the editor's; and a folder fades exactly where
/// nothing in it is kept visible. Without results nothing is marked.
pub proof fn a_row_counts_its_own_hits(
    view: SearchView,
    hits: Seq<SearchHit>,
    path: Seq<Seq<char>>,
)
    requires
        groups(view.files@, hits),
        hits_in(hits, path).len() <= usize::MAX,
    ensures
        hits_in(hits, path).len() > 0 ==> search_mark_of(Some(view), path, false)
            == SearchMark::Hits(hits_in(hits, path).len() as usize),
        hits_in(hits, path).len() == 0 && (view.pinned matches Some(file) && file@ == path)
            ==> search_mark_of(Some(view), path, false) == SearchMark::Zero,
        hits_in(hits, path).len() == 0 && !(view.pinned matches Some(file) && file@ == path)
            ==> search_mark_of(Some(view), path, false) == SearchMark::Faded,
        search_mark_of(Some(view), path, true) == SearchMark::Faded <==> !lists(
            view.visible@,
            path,
        ),
        search_mark_of(None, path, true) == SearchMark::Plain,
        search_mark_of(None, path, false) == SearchMark::Plain,
{
    let files = view.files@;
    if hits_in(hits, path).len() > 0 {
        let i = choose|i: int| 0 <= i < files.len() && (#[trigger] files[i]).path@ == path;
        assert forall|j: int| 0 <= j < i implies (#[trigger] files[j]).path@ != path by {}
        lemma_file_hits_at(files, i, path);
    }
}

} // verus!
