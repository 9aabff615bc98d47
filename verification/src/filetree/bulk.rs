//! Bulk actions on the checked files.
//!
//! The views sit on a pipeline, Stashed ← Dirty ↔ Staged (→ commit): farther
//! left is farther from the commit. Each view offers exactly the moves out of
//! it. Left buttons push the checked files away from the commit and the view
//! stays put; right buttons move them toward it and the view follows.

use vstd::prelude::*;
use crate::filetree::changed::{are_distinct, on_disk};
use crate::filetree::plan::{
    names_the_checked, plans, resolving_takes_the_side_it_names, GitStep,
};
use crate::filetree::snapshot::{is_listed, lists, plural, plural_ending};
use crate::filetree::status::{lookup, said_of, FileState};
use crate::filetree::tree::{FileTree, Filter, PaneKind};
use crate::path::{lies_in, TreePath};
use crate::text::{decimal, decimal_of};

verus! {

/// What can be done to the checked files at once.
#[derive(Debug, Clone, Copy, PartialEq, Eq, Structural)]
pub enum BulkOp {
    Stage,
    Unstage,
    Stash,
    Unstash,
    /// Resolve conflicts with the user's version.
    KeepYours,
    /// Resolve conflicts with the remote tip's version.
    TakeRemote,
    /// The files are fixed by hand: mark them resolved.
    MarkResolved,
}

/// A button of the bulk pane.
#[derive(Debug, PartialEq, Eq)]
pub struct OpButton {
    pub label: &'static str,
    pub op: BulkOp,
    pub tip: &'static str,
    /// How many checked files the move applies to.
    pub count: usize,
    pub sensitive: bool,
}

/// The bulk pane over the checked files.
#[derive(Debug, PartialEq, Eq)]
pub struct SelectionPane {
    pub title: String,
    /// The Staged view's pane is its resting state: not closable.
    pub closable: bool,
    /// Moves away from the commit.
    pub left: Vec<OpButton>,
    /// Moves toward it.
    pub right: Vec<OpButton>,
    /// The commit composer joins the moves in the Staged view.
    pub composer: bool,
}

/// A file's path within the repository, or the path itself where it lies in
/// none.
pub open spec fn rel_path(workdir: Option<TreePath>, path: Seq<Seq<char>>) -> Seq<Seq<char>> {
    match workdir {
        Some(dir) => if lies_in(path, dir@) {
            path.subrange(dir@.len() as int, path.len() as int)
        } else {
            path
        },
        None => path,
    }
}

/// How many of the checked files git says something of that satisfies `p`.
pub open spec fn checked_where(tree: FileTree, n: int, p: spec_fn(FileState) -> bool) -> nat
    decreases n,
{
    if n <= 0 {
        0
    } else {
        checked_where(tree, n - 1, p) + if said_of(
            tree.status@,
            rel_path(tree.workdir, tree.selection@[n - 1]@),
        ) matches Some(s) && p(s) {
            1nat
        } else {
            0nat
        }
    }
}

/// How many of the checked files a stash entry touches.
pub open spec fn checked_in_stash(tree: FileTree, n: int) -> nat
    decreases n,
{
    if n <= 0 {
        0
    } else {
        checked_in_stash(tree, n - 1) + if lists(
            tree.stashed@,
            rel_path(tree.workdir, tree.selection@[n - 1]@),
        ) {
            1nat
        } else {
            0nat
        }
    }
}

/// How the checked files divide.
#[derive(Debug, Clone, Copy, PartialEq, Eq, Structural)]
pub struct Tally {
    pub stageable: usize,
    pub staged: usize,
    pub in_stash: usize,
    pub conflicted: usize,
}

/// The tally counts the checked files of a tree.
pub open spec fn tallies(tally: Tally, tree: FileTree) -> bool {
    let n = tree.selection@.len() as int;
    &&& tally.stageable == checked_where(tree, n, |s: FileState| s.is_stageable())
    &&& tally.staged == checked_where(tree, n, |s: FileState| s == FileState::Staged)
    &&& tally.in_stash == checked_in_stash(tree, n)
    &&& tally.conflicted == checked_where(tree, n, |s: FileState| s == FileState::Conflicted)
    &&& tally.stageable + tally.staged <= n
}

/// One move of the pane: its label, what it does, its tip, and how many of
/// the checked files it applies to.
pub struct OpModel {
    pub label: Seq<char>,
    pub op: BulkOp,
    pub tip: Seq<char>,
    pub count: nat,
}

/// The moves away from the commit that a view offers.
pub open spec fn left_moves(filter: Filter, tally: Tally) -> Seq<OpModel> {
    match filter {
        Filter::Conflicts => seq![
            OpModel {
                label: "Keep Yours"@,
                op: BulkOp::KeepYours,
                tip: "Resolve the checked files with your version"@,
                count: tally.conflicted as nat,
            },
            OpModel {
                label: "Take Remote"@,
                op: BulkOp::TakeRemote,
                tip: "Resolve the checked files with the remote tip's version"@,
                count: tally.conflicted as nat,
            },
        ],
        Filter::Staged => seq![
            OpModel {
                label: "← Stash"@,
                op: BulkOp::Stash,
                tip: "Set the checked files aside — out of the index and the working tree"@,
                count: (tally.stageable + tally.staged) as nat,
            },
            OpModel {
                label: "← Unstage"@,
                op: BulkOp::Unstage,
                tip: "Take the checked files out of the next commit, back to dirty"@,
                count: tally.staged as nat,
            },
        ],
        Filter::Stashed => Seq::empty(),
        _ => seq![
            OpModel {
                label: "← Stash"@,
                op: BulkOp::Stash,
                tip: "Set the checked files aside — out of the working tree"@,
                count: (tally.stageable + tally.staged) as nat,
            },
        ],
    }
}

/// The moves toward the commit that a view offers.
pub open spec fn right_moves(filter: Filter, tally: Tally) -> Seq<OpModel> {
    match filter {
        Filter::Conflicts => seq![
            OpModel {
                label: "Mark Resolved →"@,
                op: BulkOp::MarkResolved,
                tip: "The checked files are fixed by hand — mark them resolved (they join the staged set)"@,
                count: tally.conflicted as nat,
            },
        ],
        Filter::Staged => Seq::empty(),
        Filter::Stashed => seq![
            OpModel {
                label: "Unstash →"@,
                op: BulkOp::Unstash,
                tip: "Restore the checked files to the working tree — one step closer to a commit"@,
                count: tally.in_stash as nat,
            },
        ],
        _ => seq![
            OpModel {
                label: "Stage →"@,
                op: BulkOp::Stage,
                tip: "Put the checked files in the next commit"@,
                count: tally.stageable as nat,
            },
        ],
    }
}

/// The buttons are these moves, each answering only where it applies to a
/// file and the checkout is the user's.
pub open spec fn offers(buttons: Seq<OpButton>, moves: Seq<OpModel>, writable: bool) -> bool {
    &&& buttons.len() == moves.len()
    &&& forall|i: int|
        0 <= i < moves.len() ==> {
            &&& (#[trigger] buttons[i]).label@ == moves[i].label
            &&& buttons[i].op == moves[i].op
            &&& buttons[i].tip@ == moves[i].tip
            &&& buttons[i].count == moves[i].count
            &&& buttons[i].sensitive == (moves[i].count > 0 && writable)
        }
}

fn op_button(
    label: &'static str,
    op: BulkOp,
    tip: &'static str,
    count: usize,
    writable: bool,
) -> (out: OpButton)
    ensures
        out.label@ == label@,
        out.op == op,
        out.tip@ == tip@,
        out.count == count,
        out.sensitive == (count > 0 && writable),
{
    OpButton { label, op, tip, count, sensitive: count > 0 && writable }
}

fn left_buttons(filter: Filter, tally: Tally, writable: bool) -> (out: Vec<OpButton>)
    requires
        tally.stageable + tally.staged <= usize::MAX,
    ensures
        offers(out@, left_moves(filter, tally), writable),
{
    let mut out: Vec<OpButton> = Vec::new();
    let both: usize = tally.stageable + tally.staged;
    match filter {
        Filter::Conflicts => {
            out.push(
                op_button(
                    "Keep Yours",
                    BulkOp::KeepYours,
                    "Resolve the checked files with your version",
                    tally.conflicted,
                    writable,
                ),
            );
            out.push(
                op_button(
                    "Take Remote",
                    BulkOp::TakeRemote,
                    "Resolve the checked files with the remote tip's version",
                    tally.conflicted,
                    writable,
                ),
            );
        },
        Filter::Staged => {
            out.push(
                op_button(
                    "← Stash",
                    BulkOp::Stash,
                    "Set the checked files aside — out of the index and the working tree",
                    both,
                    writable,
                ),
            );
            out.push(
                op_button(
                    "← Unstage",
                    BulkOp::Unstage,
                    "Take the checked files out of the next commit, back to dirty",
                    tally.staged,
                    writable,
                ),
            );
        },
        Filter::Stashed => {},
        _ => {
            out.push(
                op_button(
                    "← Stash",
                    BulkOp::Stash,
                    "Set the checked files aside — out of the working tree",
                    both,
                    writable,
                ),
            );
        },
    }
    out
}

fn right_buttons(filter: Filter, tally: Tally, writable: bool) -> (out: Vec<OpButton>)
    ensures
        offers(out@, right_moves(filter, tally), writable),
{
    let mut out: Vec<OpButton> = Vec::new();
    match filter {
        Filter::Conflicts => {
            out.push(
                op_button(
                    "Mark Resolved →",
                    BulkOp::MarkResolved,
                    "The checked files are fixed by hand — mark them resolved (they join the staged set)",
                    tally.conflicted,
                    writable,
                ),
            );
        },
        Filter::Staged => {},
        Filter::Stashed => {
            out.push(
                op_button(
                    "Unstash →",
                    BulkOp::Unstash,
                    "Restore the checked files to the working tree — one step closer to a commit",
                    tally.in_stash,
                    writable,
                ),
            );
        },
        _ => {
            out.push(
                op_button(
                    "Stage →",
                    BulkOp::Stage,
                    "Put the checked files in the next commit",
                    tally.stageable,
                    writable,
                ),
            );
        },
    }
    out
}

/// What the pane over the checked files holds.
pub open spec fn pane_shows(pane: SelectionPane, tree: FileTree) -> bool {
    let n = tree.selection@.len();
    &&& pane.title@ == decimal_of(n) + " file"@ + plural(n) + " selected"@
    &&& pane.closable == (tree.filter != Filter::Staged)
    &&& pane.composer == (tree.filter == Filter::Staged)
    &&& exists|tally: Tally| #[trigger]
        tallies(tally, tree) && offers(
            pane.left@,
            left_moves(tree.filter, tally),
            tree.watching is None,
        ) && offers(pane.right@, right_moves(tree.filter, tally), tree.watching is None)
}

impl FileTree {
    /// A file's path within the repository.
    pub fn rel_of(&self, path: &TreePath) -> (out: TreePath)
        ensures
            out@ == rel_path(self.workdir, path@),
    {
        match &self.workdir {
            Some(dir) => match path.strip_prefix(dir) {
                Some(rel) => rel,
                None => path.clone(),
            },
            None => path.clone(),
        }
    }

    /// How the checked files divide.
    pub fn tally(&self) -> (out: Tally)
        ensures
            tallies(out, *self),
    {
        let ghost stageable_p = |s: FileState| s.is_stageable();
        let ghost staged_p = |s: FileState| s == FileState::Staged;
        let ghost conflicted_p = |s: FileState| s == FileState::Conflicted;
        let mut out = Tally { stageable: 0, staged: 0, in_stash: 0, conflicted: 0 };
        let mut i: usize = 0;
        while i < self.selection.len()
            invariant
                stageable_p == (|s: FileState| s.is_stageable()),
                staged_p == (|s: FileState| s == FileState::Staged),
                conflicted_p == (|s: FileState| s == FileState::Conflicted),
                i <= self.selection@.len(),
                out.stageable == checked_where(*self, i as int, stageable_p),
                out.staged == checked_where(*self, i as int, staged_p),
                out.conflicted == checked_where(*self, i as int, conflicted_p),
                out.in_stash == checked_in_stash(*self, i as int),
                out.stageable + out.staged <= i,
                out.conflicted <= i,
                out.in_stash <= i,
            decreases self.selection@.len() - i,
        {
            let rel = self.rel_of(&self.selection[i]);
            let stash_too: usize = if is_listed(&self.stashed, &rel) {
                1
            } else {
                0
            };
            let said = lookup(&self.status, &rel);
            let (a, b, c): (usize, usize, usize) = match said {
                Some(FileState::Staged) => (0, 1, 0),
                Some(FileState::Conflicted) => (0, 0, 1),
                Some(state) => {
                    if state.stageable() {
                        (1, 0, 0)
                    } else {
                        (0, 0, 0)
                    }
                },
                None => (0, 0, 0),
            };
            out = Tally {
                stageable: out.stageable + a,
                staged: out.staged + b,
                in_stash: out.in_stash + stash_too,
                conflicted: out.conflicted + c,
            };
            i += 1;
        }
        out
    }

    /// Bottom-anchored bulk actions for the checked files. The Staged view
    /// keeps its pane even with nothing checked; elsewhere an empty selection
    /// closes it.
    pub fn selection_intervention(&mut self) -> (out: Option<SelectionPane>)
        ensures
            opens_selection(*old(self), *final(self), out),
    {
        let staged_view = self.filter == Filter::Staged;
        if self.selection.len() == 0 && !staged_view {
            self.close_intervention();
            return None;
        }
        let tally = self.tally();
        let n: usize = self.selection.len();
        let mut title = decimal(n as u64);
        title.append(" file");
        title.append(plural_ending(n));
        title.append(" selected");
        let writable = !self.read_only();
        let pane = SelectionPane {
            title,
            closable: !staged_view,
            left: left_buttons(self.filter, tally, writable),
            right: right_buttons(self.filter, tally, writable),
            composer: staged_view,
        };
        assert(pane_shows(pane, *self));
        self.pane = if staged_view {
            PaneKind::Staged
        } else {
            PaneKind::Selection
        };
        Some(pane)
    }

    /// An ad-hoc pane ended: the filter views get their own pane back.
    pub fn dismiss_intervention(&mut self) -> (out: Option<SelectionPane>)
        ensures
            dismisses(*old(self), *final(self), out),
    {
        let ghost start = *self;
        self.close_intervention();
        if self.filters_active() {
            let out = self.selection_intervention();
            proof {
                if out is Some {
                    let closed = start.pane_closed();
                    let tally = choose|tally: Tally| #[trigger]
                        tallies(tally, closed) && offers(
                            out->0.left@,
                            left_moves(closed.filter, tally),
                            closed.watching is None,
                        ) && offers(
                            out->0.right@,
                            right_moves(closed.filter, tally),
                            closed.watching is None,
                        );
                    lemma_tallies_see_no_pane(start, closed, tally);
                }
            }
            out
        } else {
            None
        }
    }

    /// Open a one-shot pane over whatever is shown.
    pub fn open_intervention(&mut self)
        ensures
            *final(self) == (FileTree { pane: PaneKind::Adhoc, ..*old(self) }),
    {
        self.pane = PaneKind::Adhoc;
    }

    /// A row's checkbox moved.
    pub fn set_checked(&mut self, path: TreePath, checked: bool)
        requires
            are_distinct(old(self).selection@),
        ensures
            old(self).wf() ==> final(self).wf(),
            are_distinct(final(self).selection@),
            checks_file(*old(self), *final(self), path@, checked),
    {
        let mut kept: Vec<TreePath> = Vec::new();
        let mut i: usize = 0;
        while i < self.selection.len()
            invariant
                *self == *old(self),
                i <= self.selection@.len(),
                are_distinct(self.selection@),
                are_distinct(kept@),
                !lists(kept@, path@),
                forall|p: Seq<Seq<char>>| #[trigger]
                    lists(kept@, p) ==> p != path@ && lists(self.selection@.take(i as int), p),
                forall|p: Seq<Seq<char>>|
                    p != path@ && #[trigger] lists(self.selection@.take(i as int), p) ==> lists(
                        kept@,
                        p,
                    ),
            decreases self.selection@.len() - i,
        {
            let ghost before = kept@;
            let ghost seen = self.selection@.take(i as int);
            let ghost next = self.selection@.take(i + 1);
            let ghost this = self.selection@[i as int]@;
            proof {
                assert forall|p: Seq<Seq<char>>| #[trigger] lists(next, p) == (lists(seen, p) || p
                    == this) by {
                    if lists(seen, p) {
                        let k = choose|k: int| 0 <= k < seen.len() && (#[trigger] seen[k])@ == p;
                        assert(next[k]@ == p);
                    }
                    if p == this {
                        assert(next[i as int]@ == p);
                    }
                    if lists(next, p) && p != this {
                        let k = choose|k: int| 0 <= k < next.len() && (#[trigger] next[k])@ == p;
                        assert(seen[k]@ == p);
                    }
                }
                assert(!lists(seen, this)) by {
                    if lists(seen, this) {
                        let k = choose|k: int| 0 <= k < seen.len() && (#[trigger] seen[k])@ == this;
                        assert(self.selection@[k]@ != self.selection@[i as int]@);
                    }
                }
            }
            if !self.selection[i].same_as(&path) {
                kept.push(self.selection[i].clone());
                proof {
                    lemma_lists_push(before, kept@);
                    assert(!lists(before, this));
                }
            }
            i += 1;
        }
        assert(self.selection@.take(i as int) =~= self.selection@);
        if checked {
            let ghost before = kept@;
            kept.push(path);
            proof {
                lemma_lists_push(before, kept@);
            }
        }
        self.selection = kept;
    }

    /// Gray the composer unless every staged file is checked: a commit takes
    /// everything staged. `None` where the composer is not on screen.
    pub fn refresh_commit_pane_state(&self) -> (out: Option<ComposerState>)
        ensures
            out is Some <==> self.pane == PaneKind::Staged,
            out matches Some(state) ==> composer_shows(state, *self),
    {
        if self.pane != PaneKind::Staged {
            return None;
        }
        let mut all = true;
        let mut i: usize = 0;
        while i < self.status.len()
            invariant
                i <= self.status@.len(),
                all == (forall|k: int|
                    0 <= k < i && (#[trigger] self.status@[k]).state == FileState::Staged ==> lists(
                        self.selection@,
                        on_disk(self.workdir, self.status@[k].path@),
                    )),
            decreases self.status@.len() - i,
        {
            if self.status[i].state == FileState::Staged {
                let absolute = match &self.workdir {
                    Some(dir) => dir.join(&self.status[i].path),
                    None => self.status[i].path.clone(),
                };
                if !is_listed(&self.selection, &absolute) {
                    all = false;
                }
            }
            i += 1;
        }
        Some(ComposerState { enabled: all && !self.read_only(), blocked: !all })
    }
}

/// The commit composer's face.
#[derive(Debug, Clone, Copy, PartialEq, Eq, Structural)]
pub struct ComposerState {
    /// It answers, at full opacity.
    pub enabled: bool,
    /// The banner explains that a commit takes every staged file.
    pub blocked: bool,
}

/// Every staged file is checked.
pub open spec fn all_staged_checked(tree: FileTree) -> bool {
    forall|k: int|
        0 <= k < tree.status@.len() && (#[trigger] tree.status@[k]).state == FileState::Staged
            ==> lists(tree.selection@, on_disk(tree.workdir, tree.status@[k].path@))
}

/// The composer is grey unless every staged file is checked, and says so then.
pub open spec fn composer_shows(state: ComposerState, tree: FileTree) -> bool {
    &&& state.blocked == !all_staged_checked(tree)
    &&& state.enabled == (all_staged_checked(tree) && tree.watching is None)
}

proof fn lemma_lists_push(before: Seq<TreePath>, after: Seq<TreePath>)
    requires
        after.len() == before.len() + 1,
        forall|k: int| 0 <= k < before.len() ==> after[k] == before[k],
    ensures
        forall|p: Seq<Seq<char>>| #[trigger]
            lists(after, p) == (lists(before, p) || p == after.last()@),
{
    assert forall|p: Seq<Seq<char>>| #[trigger] lists(after, p) == (lists(before, p) || p
        == after.last()@) by {
        if lists(before, p) {
            let k = choose|k: int| 0 <= k < before.len() && (#[trigger] before[k])@ == p;
            assert(after[k]@ == p);
        }
        if p == after.last()@ {
            assert(after[before.len() as int]@ == p);
        }
        if lists(after, p) && p != after.last()@ {
            let k = choose|k: int| 0 <= k < after.len() && (#[trigger] after[k])@ == p;
            assert(before[k]@ == p);
        }
    }
}

proof fn lemma_tallies_see_no_pane(a: FileTree, b: FileTree, tally: Tally)
    requires
        b == a.pane_closed(),
        tallies(tally, b),
    ensures
        tallies(tally, a),
{
    let n = a.selection@.len() as int;
    lemma_checked_sees_no_pane(a, b, n, |s: FileState| s.is_stageable());
    lemma_checked_sees_no_pane(a, b, n, |s: FileState| s == FileState::Staged);
    lemma_checked_sees_no_pane(a, b, n, |s: FileState| s == FileState::Conflicted);
}

proof fn lemma_checked_sees_no_pane(
    a: FileTree,
    b: FileTree,
    n: int,
    p: spec_fn(FileState) -> bool,
)
    requires
        b == a.pane_closed(),
    ensures
        checked_where(a, n, p) == checked_where(b, n, p),
        checked_in_stash(a, n) == checked_in_stash(b, n),
    decreases n,
{
    if n > 0 {
        lemma_checked_sees_no_pane(a, b, n - 1, p);
    }
}

/// Each move has a label of its own, and a button that wears it makes that
/// move.
pub open spec fn does_what_it_says(button: OpButton) -> bool {
    &&& button.label@ == "Keep Yours"@ <==> button.op == BulkOp::KeepYours
    &&& button.label@ == "Take Remote"@ <==> button.op == BulkOp::TakeRemote
    &&& button.label@ == "Mark Resolved →"@ <==> button.op == BulkOp::MarkResolved
    &&& button.label@ == "← Unstage"@ <==> button.op == BulkOp::Unstage
    &&& button.label@ == "← Stash"@ <==> button.op == BulkOp::Stash
    &&& button.label@ == "Unstash →"@ <==> button.op == BulkOp::Unstash
    &&& button.label@ == "Stage →"@ <==> button.op == BulkOp::Stage
}

proof fn lemma_labels_differ()
    ensures
        ({
            let labels = seq![
                "Keep Yours"@,
                "Take Remote"@,
                "Mark Resolved →"@,
                "← Unstage"@,
                "← Stash"@,
                "Unstash →"@,
                "Stage →"@,
            ];
            forall|i: int, j: int| 0 <= i < j < 7 ==> labels[i] != labels[j]
        }),
{
    reveal_strlit("Keep Yours");
    reveal_strlit("Take Remote");
    reveal_strlit("Mark Resolved →");
    reveal_strlit("← Unstage");
    reveal_strlit("← Stash");
    reveal_strlit("Unstash →");
    reveal_strlit("Stage →");
    assert("Keep Yours"@.len() == 10);
    assert("Take Remote"@.len() == 11);
    assert("Mark Resolved →"@.len() == 15);
    assert("← Unstage"@.len() == 9 && "← Unstage"@[0] == '←');
    assert("Unstash →"@.len() == 9 && "Unstash →"@[0] == 'U');
    assert("← Stash"@.len() == 7 && "← Stash"@[0] == '←');
    assert("Stage →"@.len() == 7 && "Stage →"@[0] == 'S');
}

/// In every pane a button does what its label says.
pub proof fn a_button_does_what_its_label_says(pane: SelectionPane, tree: FileTree)
    requires
        pane_shows(pane, tree),
    ensures
        forall|i: int| 0 <= i < pane.left@.len() ==> does_what_it_says(#[trigger] pane.left@[i]),
        forall|i: int| 0 <= i < pane.right@.len() ==> does_what_it_says(#[trigger] pane.right@[i]),
{
    lemma_labels_differ();
    let labels = seq![
        "Keep Yours"@,
        "Take Remote"@,
        "Mark Resolved →"@,
        "← Unstage"@,
        "← Stash"@,
        "Unstash →"@,
        "Stage →"@,
    ];
    assert(labels[0] == "Keep Yours"@ && labels[1] == "Take Remote"@ && labels[2]
        == "Mark Resolved →"@ && labels[3] == "← Unstage"@ && labels[4] == "← Stash"@ && labels[5]
        == "Unstash →"@ && labels[6] == "Stage →"@);
    let tally = choose|tally: Tally| #[trigger]
        tallies(tally, tree) && offers(
            pane.left@,
            left_moves(tree.filter, tally),
            tree.watching is None,
        ) && offers(pane.right@, right_moves(tree.filter, tally), tree.watching is None);
    assert forall|i: int| 0 <= i < pane.left@.len() implies does_what_it_says(
        #[trigger] pane.left@[i],
    ) by {
        assert(pane.left@[i].op == left_moves(tree.filter, tally)[i].op);
    }
    assert forall|i: int| 0 <= i < pane.right@.len() implies does_what_it_says(
        #[trigger] pane.right@[i],
    ) by {
        assert(pane.right@[i].op == right_moves(tree.filter, tally)[i].op);
    }
}

/// What git says of the checked file at `i`.
pub open spec fn checked_state(tree: FileTree, i: int) -> Option<FileState> {
    said_of(tree.status@, rel_path(tree.workdir, tree.selection@[i]@))
}

/// Whether a move does something to the checked file at `i`: staging takes an
/// unstaged change or an untracked file, unstaging a staged one, stashing any of
/// these, unstashing what a stash entry touches, and resolving what is in
/// conflict.
pub open spec fn moves_file(op: BulkOp, tree: FileTree, i: int) -> bool {
    let state = checked_state(tree, i);
    let loose = state == Some(FileState::Modified) || state == Some(FileState::Untracked);
    match op {
        BulkOp::Stage => loose,
        BulkOp::Unstage => state == Some(FileState::Staged),
        BulkOp::Stash => loose || state == Some(FileState::Staged),
        BulkOp::Unstash => lists(
            tree.stashed@,
            rel_path(tree.workdir, tree.selection@[i]@),
        ),
        _ => state == Some(FileState::Conflicted),
    }
}

/// How many of the first `n` checked files a move does something to.
pub open spec fn files_moved(op: BulkOp, tree: FileTree, n: int) -> nat
    decreases n,
{
    if n <= 0 {
        0
    } else {
        files_moved(op, tree, n - 1) + if moves_file(op, tree, n - 1) {
            1nat
        } else {
            0nat
        }
    }
}

proof fn lemma_files_moved(tree: FileTree, n: int)
    requires
        0 <= n,
    ensures
        files_moved(BulkOp::Stage, tree, n) == checked_where(
            tree,
            n,
            |s: FileState| s.is_stageable(),
        ),
        files_moved(BulkOp::Unstage, tree, n) == checked_where(
            tree,
            n,
            |s: FileState| s == FileState::Staged,
        ),
        files_moved(BulkOp::Stash, tree, n) == files_moved(BulkOp::Stage, tree, n) + files_moved(
            BulkOp::Unstage,
            tree,
            n,
        ),
        files_moved(BulkOp::Unstash, tree, n) == checked_in_stash(tree, n),
        files_moved(BulkOp::KeepYours, tree, n) == checked_where(
            tree,
            n,
            |s: FileState| s == FileState::Conflicted,
        ),
        files_moved(BulkOp::TakeRemote, tree, n) == files_moved(BulkOp::KeepYours, tree, n),
        files_moved(BulkOp::MarkResolved, tree, n) == files_moved(BulkOp::KeepYours, tree, n),
    decreases n,
{
    if n > 0 {
        lemma_files_moved(tree, n - 1);
    }
}

proof fn lemma_some_file_moves(op: BulkOp, tree: FileTree, n: int)
    requires
        0 <= n,
    ensures
        files_moved(op, tree, n) > 0 <==> exists|i: int|
            0 <= i < n && #[trigger] moves_file(op, tree, i),
        files_moved(op, tree, n) <= n,
    decreases n,
{
    if n > 0 {
        lemma_some_file_moves(op, tree, n - 1);
        if moves_file(op, tree, n - 1) {
            assert(moves_file(op, tree, n - 1));
        }
    }
}

/// A button counts the checked files that its move does something to, and
/// answers exactly where there is one and the checkout is the user's.
pub proof fn a_button_answers_where_it_moves_a_file(
    pane: SelectionPane,
    tree: FileTree,
    button: OpButton,
)
    requires
        pane_shows(pane, tree),
        pane.left@.contains(button) || pane.right@.contains(button),
    ensures
        button.count == files_moved(button.op, tree, tree.selection@.len() as int),
        button.sensitive <==> tree.watching is None && exists|i: int|
            0 <= i < tree.selection@.len() && #[trigger] moves_file(button.op, tree, i),
{
    let n = tree.selection@.len() as int;
    lemma_files_moved(tree, n);
    lemma_some_file_moves(button.op, tree, n);
    let tally = choose|tally: Tally| #[trigger]
        tallies(tally, tree) && offers(
            pane.left@,
            left_moves(tree.filter, tally),
            tree.watching is None,
        ) && offers(pane.right@, right_moves(tree.filter, tally), tree.watching is None);
    if pane.left@.contains(button) {
        let i = choose|i: int| 0 <= i < pane.left@.len() && pane.left@[i] == button;
        assert(pane.left@[i].op == left_moves(tree.filter, tally)[i].op);
    } else {
        let i = choose|i: int| 0 <= i < pane.right@.len() && pane.right@[i] == button;
        assert(pane.right@[i].op == right_moves(tree.filter, tally)[i].op);
    }
}

/// Each view offers exactly the moves out of it: conflicts are resolved one way
/// or the other or marked so; staged files go back or aside, and the composer is
/// theirs alone; stashed ones come back; any other is set aside or staged.
pub proof fn a_view_offers_the_moves_out_of_it(pane: SelectionPane, tree: FileTree)
    requires
        pane_shows(pane, tree),
    ensures
        tree.filter == Filter::Conflicts ==> {
            &&& pane.left@.len() == 2 && pane.right@.len() == 1
            &&& pane.left@[0].op == BulkOp::KeepYours && pane.left@[1].op == BulkOp::TakeRemote
            &&& pane.right@[0].op == BulkOp::MarkResolved
        },
        tree.filter == Filter::Staged ==> {
            &&& pane.left@.len() == 2 && pane.right@.len() == 0
            &&& pane.left@[0].op == BulkOp::Stash && pane.left@[1].op == BulkOp::Unstage
        },
        tree.filter == Filter::Stashed ==> {
            &&& pane.left@.len() == 0 && pane.right@.len() == 1
            &&& pane.right@[0].op == BulkOp::Unstash
        },
        tree.filter == Filter::Dirty || tree.filter == Filter::All ==> {
            &&& pane.left@.len() == 1 && pane.right@.len() == 1
            &&& pane.left@[0].op == BulkOp::Stash && pane.right@[0].op == BulkOp::Stage
        },
        pane.composer <==> tree.filter == Filter::Staged,
        pane.closable <==> tree.filter != Filter::Staged,
{
    let tally = choose|tally: Tally| #[trigger]
        tallies(tally, tree) && offers(
            pane.left@,
            left_moves(tree.filter, tally),
            tree.watching is None,
        ) && offers(pane.right@, right_moves(tree.filter, tally), tree.watching is None);
    let left = left_moves(tree.filter, tally);
    let right = right_moves(tree.filter, tally);
    assert(offers(pane.left@, left, tree.watching is None));
    assert(forall|i: int| 0 <= i < left.len() ==> (#[trigger] pane.left@[i]).op == left[i].op);
    assert(forall|i: int| 0 <= i < right.len() ==> (#[trigger] pane.right@[i]).op == right[i].op);
}

/// A file was checked, or no longer.
pub open spec fn checks_file(before: FileTree, after: FileTree, path: Seq<Seq<char>>, checked: bool) -> bool {
    &&& forall|p: Seq<Seq<char>>| #[trigger]
        lists(after.selection@, p) == if p == path {
            checked
        } else {
            lists(before.selection@, p)
        }
    &&& after == (FileTree { selection: after.selection, ..before })
}

/// The pane of the selection.
pub open spec fn opens_selection(before: FileTree, after: FileTree, out: Option<SelectionPane>) -> bool {
    &&& out is None <==> before.selection@.len() == 0 && before.filter != Filter::Staged
    &&& out is None ==> after == before.pane_closed()
    &&& out matches Some(pane) ==> {
        &&& pane_shows(pane, before)
        &&& after == (FileTree {
            pane: if before.filter == Filter::Staged {
                PaneKind::Staged
            } else {
                PaneKind::Selection
            },
            ..before
        })
    }
}

/// A pane was dismissed.
pub open spec fn dismisses(before: FileTree, after: FileTree, out: Option<SelectionPane>) -> bool {
    &&& out is Some <==> before.filtering() && (before.selection@.len() > 0 || before.filter == Filter::Staged)
    &&& out is None ==> after == before.pane_closed()
    &&& out matches Some(pane) ==> {
        &&& pane_shows(pane, before)
        &&& after == (FileTree {
            pane: if before.filter == Filter::Staged {
                PaneKind::Staged
            } else {
                PaneKind::Selection
            },
            pane_file: None,
            ..before
        })
    }
}

/// Pressing a conflict's button resolves it as the label says: outside a rebase
/// "Keep Yours" checks out git's "ours", inside one its "theirs", and "Take
/// Remote" the other.
pub proof fn keep_yours_keeps_the_users_side(
    pane: SelectionPane,
    tree: FileTree,
    button: OpButton,
    rebasing: bool,
    entries: Seq<Vec<TreePath>>,
    steps: Seq<GitStep>,
)
    requires
        pane_shows(pane, tree),
        pane.left@.contains(button) || pane.right@.contains(button),
        button.label@ == "Keep Yours"@ || button.label@ == "Take Remote"@,
        plans(steps, tree, button.op, rebasing, entries),
    ensures
        steps.len() > 0 && (steps[0] matches GitStep::Git(args) && args@.len() >= 5 && args@[2]@
            == "checkout"@ && args@[3]@ == if (button.label@ == "Keep Yours"@) == rebasing {
            "--theirs"@
        } else {
            "--ours"@
        } && names_the_checked(args@, 5, tree)),
{
    a_button_does_what_its_label_says(pane, tree);
    if pane.left@.contains(button) {
        let i = choose|i: int| 0 <= i < pane.left@.len() && pane.left@[i] == button;
        assert(does_what_it_says(pane.left@[i]));
    } else {
        let i = choose|i: int| 0 <= i < pane.right@.len() && pane.right@[i] == button;
        assert(does_what_it_says(pane.right@[i]));
    }
    resolving_takes_the_side_it_names(tree, button.op, rebasing, entries, steps);
}

/// The composer answers exactly where every staged file is checked and the
/// checkout is the user's: a commit takes everything staged.
pub proof fn a_commit_takes_everything_staged(tree: FileTree, state: ComposerState, k: int)
    requires
        composer_shows(state, tree),
    ensures
        state.enabled ==> tree.watching is None,
        state.enabled && 0 <= k < tree.status@.len() && tree.status@[k].state == FileState::Staged
            ==> exists|i: int|
            0 <= i < tree.selection@.len() && (#[trigger] tree.selection@[i])@ == match tree.workdir {
                Some(dir) => dir@ + tree.status@[k].path@,
                None => tree.status@[k].path@,
            },
        (forall|j: int|
            0 <= j < tree.status@.len() ==> (#[trigger] tree.status@[j]).state != FileState::Staged)
            && tree.watching is None ==> state.enabled,
        state.blocked ==> !state.enabled,
        !state.blocked && tree.watching is None ==> state.enabled,
{
    if state.enabled && 0 <= k < tree.status@.len() && tree.status@[k].state == FileState::Staged {
        assert(lists(tree.selection@, on_disk(tree.workdir, tree.status@[k].path@)));
    }
}

/// Checking a file checks that file and no other, and unchecking it undoes that.
pub proof fn a_check_is_of_its_file(
    before: FileTree,
    after: FileTree,
    path: Seq<Seq<char>>,
    checked: bool,
    other: Seq<Seq<char>>,
)
    requires
        checks_file(before, after, path, checked),
    ensures
        lists(after.selection@, path) == checked,
        other != path ==> lists(after.selection@, other) == lists(before.selection@, other),
        after.status == before.status && after.filter == before.filter && after.pane == before.pane,
{
}

/// The pane of the selection stands while something is checked, and always over
/// what is staged; otherwise it closes.
pub proof fn a_selection_keeps_its_pane(
    before: FileTree,
    after: FileTree,
    out: Option<SelectionPane>,
)
    requires
        opens_selection(before, after, out),
    ensures
        before.selection@.len() > 0 ==> out is Some,
        before.filter == Filter::Staged ==> out is Some && after.pane == PaneKind::Staged,
        before.selection@.len() == 0 && before.filter != Filter::Staged ==> out is None
            && after.pane == PaneKind::Closed,
        out is Some && before.filter != Filter::Staged ==> after.pane == PaneKind::Selection,
        after.selection == before.selection && after.filter == before.filter,
{
}

/// Dismissing a pane gives way to the selection's where a list is on screen with
/// something to act on, and to none otherwise.
pub proof fn a_dismissed_pane_gives_way(
    before: FileTree,
    after: FileTree,
    out: Option<SelectionPane>,
)
    requires
        dismisses(before, after, out),
    ensures
        !before.filtering() ==> out is None && after.pane == PaneKind::Closed,
        before.filtering() && before.selection@.len() > 0 ==> out is Some,
        before.filtering() && before.filter == Filter::Staged ==> out is Some && after.pane
            == PaneKind::Staged,
        before.selection@.len() == 0 && before.filter != Filter::Staged ==> out is None,
        after.selection == before.selection && after.filter == before.filter,
{
}

} // verus!
