//! What the tree pane is showing, and how it moves from one view to another.

use vstd::prelude::*;
use crate::environment::EnvironmentId;
use crate::filetree::gate::RefreshGate;
use crate::filetree::changed::are_distinct;
use crate::filetree::status::{paths_are_distinct, FileState, StatusEntry};
use crate::path::TreePath;
use crate::text::{is_blank, lemma_blank, same, trim, trimmed};

verus! {

/// What the pane is reviewing: one environment's branch of record, and the
/// branch it would be merged into.
#[derive(Debug, PartialEq, Eq)]
pub struct ReviewAim {
    pub branch: String,
    pub target: String,
}

impl Clone for ReviewAim {
    fn clone(&self) -> (out: Self)
        ensures
            out == *self,
    {
        ReviewAim { branch: self.branch.clone(), target: self.target.clone() }
    }
}

/// What occupies the bottom intervention slot.
#[derive(Debug, Clone, Copy, PartialEq, Eq, Structural)]
pub enum PaneKind {
    Closed,
    /// A one-shot flow. Survives list re-renders.
    Adhoc,
    /// The bulk-ops pane for the checked files.
    Selection,
    /// The Staged view's resting pane: bulk ops and the commit composer.
    Staged,
}

/// The git filters, of which exactly one is on.
#[derive(Debug, Clone, Copy, PartialEq, Eq, Structural)]
pub enum Filter {
    All,
    Stashed,
    Dirty,
    Staged,
    Conflicts,
}

/// What the list has to do next.
#[derive(Debug, PartialEq, Eq)]
pub enum Paint {
    /// Leave the list as it is.
    Keep,
    /// Build the tree afresh.
    Tree,
    /// List the files of the active git filter.
    Changed,
    /// List the files of the branch under review.
    Review(ReviewAim),
    /// Search for this query.
    Search(String),
    /// Repaint the rows whose git state moved.
    Restyle,
    /// Bind every visible row again.
    Rebind,
}

/// Everything the pane remembers that is not a widget.
#[derive(Debug, PartialEq, Eq)]
pub struct FileTree {
    /// The user's own checkout.
    pub root: TreePath,
    /// The environment whose checkout is on screen; `None` is the user's own.
    /// Moves by explicit action only.
    pub watching: Option<(EnvironmentId, TreePath)>,
    /// The repository's working directory, where there is a repository.
    pub workdir: Option<TreePath>,
    pub status: Vec<StatusEntry>,
    /// Paths touched by stash entries.
    pub stashed: Vec<TreePath>,
    pub ignore_rules: usize,
    pub filter: Filter,
    pub conflicts_visible: bool,
    /// The branch these views are aimed at for review, if any.
    pub review: Option<ReviewAim>,
    /// Checked files in the changed list, awaiting a bulk action.
    pub selection: Vec<TreePath>,
    pub pane: PaneKind,
    /// Which file the bottom match panel is showing.
    pub pane_file: Option<TreePath>,
    /// Mode the rows were last styled for.
    pub container_mode: bool,
    /// A workspace without a repository has been painted as one.
    pub rendered_non_repo: bool,
    pub show_ignored: bool,
    /// A push or sync is running: the sync row belongs to the spinner.
    pub sync_busy: bool,
    /// The previous snapshot's rebase was paused.
    pub rebasing: bool,
    /// What the search entry holds.
    pub query: String,
    /// Search results are on screen.
    pub searching: bool,
    /// While searching: show all files with non-matches ghosted.
    pub ghosting: bool,
    /// How many files the search index holds, once it is built.
    pub indexed: Option<usize>,
    pub index_building: bool,
    /// Collapses the watcher's per-path events into one status query.
    pub refresh: RefreshGate,
}

/// What leaving one view for another asks of the pane's surroundings.
#[derive(Debug, PartialEq, Eq)]
pub struct Move {
    /// A review ended: the tabs it opened go with it.
    pub review_ended: bool,
    pub paint: Paint,
}

/// What the list shows when it is not searching.
pub open spec fn resting_paint(review: Option<ReviewAim>, filter: Filter) -> Paint {
    match review {
        Some(aim) => Paint::Review(aim),
        None => if filter == Filter::All {
            Paint::Tree
        } else {
            Paint::Changed
        },
    }
}

impl FileTree {
    /// The list shows something other than the tree: a git filter, or a
    /// branch under review.
    pub open spec fn filtering(&self) -> bool {
        self.filter != Filter::All || self.review is Some
    }

    /// No path is listed twice: not by git, not among the stashed files, not
    /// among the checked ones. Search results are on screen only over a query,
    /// and a re-run of the status query is owed only behind one that runs.
    pub open spec fn wf(&self) -> bool {
        &&& paths_are_distinct(self.status@)
        &&& are_distinct(self.stashed@)
        &&& are_distinct(self.selection@)
        &&& self.searching ==> trimmed(self.query@).len() > 0
        &&& self.refresh.wf()
    }

    /// The pane's state before anything has been read: the user's checkout,
    /// no filter, nothing searched, selected or open.
    pub fn new(root: TreePath, workdir: Option<TreePath>, container_mode: bool) -> (out: Self)
        ensures
            out.wf(),
            out.root == root,
            out.workdir == workdir,
            out.container_mode == container_mode,
            out.watching is None,
            out.status@.len() == 0,
            out.stashed@.len() == 0,
            out.ignore_rules == 0,
            out.filter == Filter::All,
            !out.conflicts_visible,
            out.review is None,
            out.selection@.len() == 0,
            out.pane == PaneKind::Closed,
            out.pane_file is None,
            !out.rendered_non_repo,
            !out.show_ignored,
            !out.sync_busy,
            !out.rebasing,
            out.query@.len() == 0,
            !out.searching,
            !out.ghosting,
            out.indexed is None,
            !out.index_building,
            out.refresh == RefreshGate::idle(),
    {
        FileTree {
            root,
            watching: None,
            workdir,
            status: Vec::new(),
            stashed: Vec::new(),
            ignore_rules: 0,
            filter: Filter::All,
            conflicts_visible: false,
            review: None,
            selection: Vec::new(),
            pane: PaneKind::Closed,
            pane_file: None,
            container_mode,
            rendered_non_repo: false,
            show_ignored: false,
            sync_busy: false,
            rebasing: false,
            query: String::new(),
            searching: false,
            ghosting: false,
            indexed: None,
            index_building: false,
            refresh: RefreshGate::default(),
        }
    }

    /// What the tree is looking at.
    pub open spec fn shown_root(&self) -> Seq<Seq<char>> {
        match self.watching {
            Some(target) => target.1@,
            None => self.root@,
        }
    }

    /// What the tree is looking at: the watched environment's clone, or the
    /// user's own checkout.
    pub fn view_root(&self) -> (out: TreePath)
        ensures
            out@ == self.shown_root(),
    {
        match &self.watching {
            Some(target) => target.1.clone(),
            None => self.root.clone(),
        }
    }

    /// Whether what is on screen belongs to someone else. Environments other
    /// than the primary are read-only to the user.
    pub fn read_only(&self) -> (r: bool)
        ensures
            is_foreign(*self, r),
    {
        self.watching.is_some()
    }

    /// Which environment the panes are aimed at (`None` is the primary).
    pub fn watching(&self) -> (out: Option<EnvironmentId>)
        ensures
            watches(*self, out),
    {
        match &self.watching {
            Some(target) => Some(target.0.clone()),
            None => None,
        }
    }

    /// True when the list is showing something other than the tree: a git
    /// filter, or a branch under review.
    pub fn filters_active(&self) -> (r: bool)
        ensures
            r == self.filtering(),
    {
        self.filter != Filter::All || self.review.is_some()
    }

    /// Render whichever view is active. A branch under review outranks the
    /// filters: it was aimed here by an explicit action.
    pub fn render_filter_view(&self) -> (paint: Paint)
        ensures
            paint == resting_paint(self.review, self.filter),
    {
        match &self.review {
            Some(aim) => Paint::Review(aim.clone()),
            None => {
                if self.filter == Filter::All {
                    Paint::Tree
                } else {
                    Paint::Changed
                }
            },
        }
    }

    /// The pane is closed and shows no file; nothing else moved.
    pub open spec fn pane_closed(self) -> Self {
        FileTree { pane: PaneKind::Closed, pane_file: None, ..self }
    }

    /// Close the intervention pane.
    pub fn close_intervention(&mut self)
        ensures
            *final(self) == old(self).pane_closed(),
    {
        self.pane = PaneKind::Closed;
        self.pane_file = None;
    }

    /// Leave the review, if there is one. `true` means there was one: its
    /// tabs leave with it.
    pub fn leave_review(&mut self) -> (was: bool)
        ensures
            *final(self) == (FileTree { review: None, ..*old(self) }),
            was == (old(self).review is Some),
    {
        let was = self.review.is_some();
        self.review = None;
        was
    }

    /// Aim the git views at one environment's branch of record. Whatever
    /// filter was on stays on underneath.
    pub fn open_review(&mut self, branch: String, target: String) -> (paint: Paint)
        ensures
            opens_review(*old(self), *final(self), branch, target, paint),
    {
        let aim = ReviewAim { branch, target };
        self.review = Some(aim.clone());
        self.close_intervention();
        Paint::Review(aim)
    }

    /// Leave the review and repaint: the way out once merging or rejecting
    /// has settled the environment being reviewed. Without a review nothing
    /// moves.
    pub fn close_review(&mut self) -> (out: Move)
        ensures
            closes_review(*old(self), *final(self), out),
    {
        if self.review.is_none() {
            return Move { review_ended: false, paint: Paint::Keep };
        }
        let was = self.leave_review();
        self.close_intervention();
        Move { review_ended: was, paint: self.render_filter_view() }
    }

    /// Whether `target` is what the panes are aimed at already.
    pub open spec fn aimed_at(&self, target: Option<(EnvironmentId, TreePath)>) -> bool {
        match (self.watching, target) {
            (Some(now), Some(then_to)) => now.0@ == then_to.0@ && now.1@ == then_to.1@,
            (None, None) => true,
            _ => false,
        }
    }

    /// Aim the tree and the git views at an environment's checkout, or with
    /// `None` back at the user's own; `workdir` is the repository found there.
    ///
    /// The active filter is kept. The search, the selection, the review and
    /// any open pane go: they were about the other checkout. `None` comes
    /// back where the panes were aimed there already, and nothing moved.
    pub fn aim_at(
        &mut self,
        target: Option<(EnvironmentId, TreePath)>,
        workdir: Option<TreePath>,
    ) -> (out: Option<Move>)
        ensures
            old(self).wf() ==> final(self).wf(),
            aims(*old(self), *final(self), target, workdir, out),
    {
        let already = match (&self.watching, &target) {
            (Some(now), Some(then_to)) => now.0.same_as(&then_to.0) && now.1.same_as(&then_to.1),
            (None, None) => true,
            _ => false,
        };
        if already {
            return None;
        }
        self.watching = target;
        self.workdir = workdir;
        self.selection = Vec::new();
        let review_ended = self.leave_review();
        self.close_intervention();
        self.query = String::new();
        self.searching = false;
        self.status = Vec::new();
        self.stashed = Vec::new();
        self.rendered_non_repo = false;
        let paint = self.render_filter_view();
        Some(Move { review_ended, paint })
    }

    /// A filter was chosen. Entering one drops the selection, the search and
    /// any review; entering All also closes the pane.
    pub fn choose_filter(&mut self, filter: Filter) -> (out: Move)
        ensures
            old(self).wf() ==> final(self).wf(),
            enters(*old(self), *final(self), filter, out),
    {
        self.filter = filter;
        self.selection = Vec::new();
        let review_ended = self.leave_review();
        if filter == Filter::All {
            self.close_intervention();
        } else {
            self.conflicts_visible = self.conflict_toggle_shows();
        }
        self.query = String::new();
        self.searching = false;
        Move { review_ended, paint: self.render_filter_view() }
    }

    /// The Conflicts filter is offered only while it means something, but
    /// never yanked out from under its own active view.
    pub fn conflict_toggle_shows(&self) -> (r: bool)
        ensures
            offers_conflicts(*self, r),
    {
        count_conflicts(&self.status) > 0 || self.filter == Filter::Conflicts
    }

    /// The search entry changed. A blank query ends the search and shows what
    /// was underneath; any other is run as typed.
    pub fn search_changed(&mut self, query: String) -> (paint: Paint)
        ensures
            old(self).wf() ==> final(self).wf(),
            types(*old(self), *final(self), query, paint),
    {
        let blank = trim(query.as_str()).is_empty();
        if blank {
            self.query = query;
            self.searching = false;
            self.render_filter_view()
        } else {
            let wanted = query.clone();
            self.query = query;
            Paint::Search(wanted)
        }
    }

    /// The ghosting toggle moved: an active search runs again.
    pub fn ghosting_toggled(&mut self, ghosting: bool) -> (paint: Paint)
        ensures
            *final(self) == (FileTree { ghosting, ..*old(self) }),
            trimmed(old(self).query@).len() == 0 ==> paint == Paint::Keep,
            trimmed(old(self).query@).len() > 0 ==> {
                &&& paint is Search
                &&& paint->Search_0@ == trimmed(old(self).query@)
            },
    {
        self.ghosting = ghosting;
        self.search_again()
    }

    fn search_again(&self) -> (paint: Paint)
        ensures
            trimmed(self.query@).len() == 0 ==> paint == Paint::Keep,
            trimmed(self.query@).len() > 0 ==> {
                &&& paint is Search
                &&& paint->Search_0@ == trimmed(self.query@)
            },
    {
        let query = trim(self.query.as_str());
        if query.is_empty() {
            Paint::Keep
        } else {
            Paint::Search(query.to_owned())
        }
    }

    /// The ignored-files toggle moved. Search results and filter views are
    /// never clobbered with the tree; the flag applies when it next shows.
    pub fn ignored_toggled(&mut self, show_ignored: bool) -> (paint: Paint)
        ensures
            shows_ignored(*old(self), *final(self), show_ignored, paint),
    {
        self.show_ignored = show_ignored;
        if trim(self.query.as_str()).is_empty() && !self.filters_active() {
            Paint::Tree
        } else {
            Paint::Keep
        }
    }

    /// Files appeared or vanished on disk: keep whichever view is active
    /// current. The changed-files view refreshes with the status.
    pub fn refresh_tree(&self) -> (paint: Paint)
        ensures
            keeps_current(*self, paint),
    {
        let query = trim(self.query.as_str());
        if !query.is_empty() {
            Paint::Search(query.to_owned())
        } else if !self.filters_active() {
            Paint::Tree
        } else {
            Paint::Keep
        }
    }

    /// A search's results render only while its query is still what is
    /// typed: a slower, older search must not overwrite newer results.
    pub fn search_still_wanted(&self, query: &str) -> (r: bool)
        ensures
            r == (trimmed(self.query@) == trimmed(query@)),
    {
        same(trim(self.query.as_str()), trim(query))
    }

    /// A review's file list renders only while the pane still reviews that
    /// branch against that target.
    pub fn review_still_wanted(&self, aim: &ReviewAim) -> (r: bool)
        ensures
            r == (self.review matches Some(now) && now.branch@ == aim.branch@ && now.target@
                == aim.target@),
    {
        match &self.review {
            Some(now) => now.branch == aim.branch && now.target == aim.target,
            None => false,
        }
    }

    /// An index build was asked for: `true` means start one, `false` that one
    /// is running.
    pub fn rebuild_index(&mut self) -> (start: bool)
        ensures
            index_asked(*old(self), *final(self), start),
    {
        let start = !self.index_building;
        self.index_building = true;
        start
    }

    /// The index landed.
    pub fn index_built(&mut self, files: usize)
        ensures
            index_lands(*old(self), *final(self), files),
    {
        self.indexed = Some(files);
        self.index_building = false;
    }

    /// Ask for the status to be queried again: `true` means arm the timer. The
    /// watcher reports one event for each changed path, and a busy checkout
    /// produces those in bursts; a burst is one query.
    pub fn refresh_status(&mut self) -> (arm: bool)
        requires
            old(self).refresh.wf(),
        ensures
            final(self).refresh.wf(),
            arm == (!old(self).refresh.inflight && !old(self).refresh.armed),
            *final(self) == (FileTree { refresh: old(self).refresh.requested(), ..*old(self) }),
    {
        self.refresh.request()
    }

    /// Git reported a change: the rows restyle once the fresh status lands.
    pub fn on_git_status_changed(&mut self) -> (arm: bool)
        requires
            old(self).refresh.wf(),
        ensures
            final(self).refresh.wf(),
            arm == (!old(self).refresh.inflight && !old(self).refresh.armed),
            *final(self) == (FileTree { refresh: old(self).refresh.requested(), ..*old(self) }),
    {
        self.refresh_status()
    }

    /// Making the checkout a repository was tried. Whether or not that went
    /// well, `workdir` is the repository that is found there now, and its status
    /// is asked for: `true` means arm the timer.
    pub fn initialized(&mut self, workdir: Option<TreePath>) -> (arm: bool)
        requires
            old(self).refresh.wf(),
        ensures
            final(self).refresh.wf(),
            arm == (!old(self).refresh.inflight && !old(self).refresh.armed),
            *final(self) == (FileTree {
                workdir,
                refresh: old(self).refresh.requested(),
                ..*old(self)
            }),
    {
        self.workdir = workdir;
        self.refresh_status()
    }

    /// Aim the git views at a branch, for a screenshot of the review.
    pub fn seed_review_for_probe(&mut self, branch: &str, target: &str) -> (paint: Paint)
        ensures
            final(self).review matches Some(aim) && aim.branch@ == branch@ && aim.target@
                == target@ && paint == Paint::Review(aim),
            *final(self) == (FileTree {
                review: final(self).review,
                ..*old(self)
            }).pane_closed(),
    {
        self.open_review(branch.to_owned(), target.to_owned())
    }

    /// Aim the tree at an environment, for a screenshot of watching. What is
    /// fabricated is the binding: the checkout is the user's own, and `workdir`
    /// the repository found there.
    pub fn seed_watching_for_probe(
        &mut self,
        env: &EnvironmentId,
        workdir: Option<TreePath>,
    ) -> (out: Option<Move>)
        ensures
            old(self).wf() ==> final(self).wf(),
            final(self).watching matches Some(target) && target.0@ == env@ && target.1@ == old(
                self,
            ).root@,
            final(self).root == old(self).root,
            final(self).filter == old(self).filter,
            out is None <==> (old(self).watching matches Some(target) && target.0@ == env@
                && target.1@ == old(self).root@),
            out is None ==> *final(self) == *old(self),
            out matches Some(moved) ==> {
                &&& moved.review_ended == (old(self).review is Some)
                &&& moved.paint == resting_paint(None, old(self).filter)
                &&& final(self).review is None
                &&& final(self).pane == PaneKind::Closed
                &&& final(self).status@.len() == 0
                &&& final(self).workdir == workdir
            },
    {
        let root = self.root.clone();
        self.aim_at(Some((env.clone(), root)), workdir)
    }

    /// Hand the sync row to the spinner until the operation ends.
    pub fn begin_sync_op(&mut self)
        ensures
            sync_begins(*old(self), *final(self)),
    {
        self.sync_busy = true;
    }

    /// Give it back. Cleared before the refresh is asked for, so the row
    /// rebuilds straight to the state the operation produced.
    pub fn end_sync_op(&mut self)
        ensures
            sync_ends(*old(self), *final(self)),
    {
        self.sync_busy = false;
    }
}

/// Aiming the pane at a checkout: what goes, and what stays.
pub open spec fn aims(
    before: FileTree,
    after: FileTree,
    target: Option<(EnvironmentId, TreePath)>,
    workdir: Option<TreePath>,
    out: Option<Move>,
) -> bool {
    &&& out is None <==> before.aimed_at(target)
    &&& out is None ==> after == before
    &&& out matches Some(moved) ==> {
        &&& moved.review_ended == (before.review is Some)
        &&& moved.paint == resting_paint(None, before.filter)
        &&& after.watching == target
        &&& after.workdir == workdir
        &&& after.status@.len() == 0
        &&& after.stashed@.len() == 0
        &&& after.selection@.len() == 0
        &&& after.review is None
        &&& after.pane == PaneKind::Closed
        &&& after.pane_file is None
        &&& after.query@.len() == 0
        &&& !after.searching
        &&& !after.rendered_non_repo
        &&& after == (FileTree {
            watching: target,
            workdir,
            status: after.status,
            stashed: after.stashed,
            selection: after.selection,
            review: None,
            pane: PaneKind::Closed,
            pane_file: None,
            query: after.query,
            searching: false,
            rendered_non_repo: false,
            ..before
        })
    }
}

/// Entering a filter: what goes, and what stays.
pub open spec fn enters(before: FileTree, after: FileTree, filter: Filter, out: Move) -> bool {
    &&& out.review_ended == (before.review is Some)
    &&& out.paint == resting_paint(None, filter)
    &&& after.selection@.len() == 0
    &&& after.query@.len() == 0
    &&& filter == Filter::All ==> after == (FileTree {
        filter,
        selection: after.selection,
        review: None,
        query: after.query,
        searching: false,
        ..before
    }).pane_closed()
    &&& filter != Filter::All ==> after == (FileTree {
        filter,
        selection: after.selection,
        review: None,
        query: after.query,
        searching: false,
        conflicts_visible: after.conflicts_visible,
        ..before
    })
    &&& filter != Filter::All ==> after.conflicts_visible == (filter == Filter::Conflicts
        || count_states(before.status@, |s: FileState| s == FileState::Conflicted) > 0)
}

/// Typing in the search entry.
pub open spec fn types(before: FileTree, after: FileTree, query: String, paint: Paint) -> bool {
    &&& trimmed(query@).len() == 0 ==> {
        &&& after == (FileTree { query, searching: false, ..before })
        &&& paint == resting_paint(before.review, before.filter)
    }
    &&& trimmed(query@).len() > 0 ==> {
        &&& after == (FileTree { query, ..before })
        &&& paint is Search
        &&& paint->Search_0@ == query@
    }
}

/// Turning the ignored files on or off.
pub open spec fn shows_ignored(before: FileTree, after: FileTree, show_ignored: bool, paint: Paint) -> bool {
    &&& after == (FileTree { show_ignored, ..before })
    &&& paint == if trimmed(before.query@).len() == 0 && !before.filtering() {
        Paint::Tree
    } else {
        Paint::Keep
    }
}

/// What files that came or went ask of the list.
pub open spec fn keeps_current(tree: FileTree, paint: Paint) -> bool {
    &&& trimmed(tree.query@).len() > 0 ==> {
        &&& paint is Search
        &&& paint->Search_0@ == trimmed(tree.query@)
    }
    &&& trimmed(tree.query@).len() == 0 ==> paint == if tree.filtering() {
        Paint::Keep
    } else {
        Paint::Tree
    }
}

/// Whether the Conflicts filter is offered.
pub open spec fn offers_conflicts(tree: FileTree, r: bool) -> bool {
    &&& r == (tree.filter == Filter::Conflicts || count_states(
        tree.status@,
        |s: FileState| s == FileState::Conflicted,
    ) > 0)
}

/// Aiming the git views at a branch.
pub open spec fn opens_review(before: FileTree, after: FileTree, branch: String, target: String, paint: Paint) -> bool {
    &&& after == (FileTree {
        review: Some(ReviewAim { branch, target }),
        ..before
    }).pane_closed()
    &&& paint == Paint::Review(ReviewAim { branch, target })
}

/// Leaving the review.
pub open spec fn closes_review(before: FileTree, after: FileTree, out: Move) -> bool {
    &&& out.review_ended == (before.review is Some)
    &&& before.review is None ==> after == before && out.paint == Paint::Keep
    &&& before.review is Some ==> {
        &&& after == (FileTree { review: None, ..before }).pane_closed()
        &&& out.paint == resting_paint(None, before.filter)
    }
}

/// How many entries are in a state that satisfies `p`.
pub open spec fn count_states(status: Seq<StatusEntry>, p: spec_fn(FileState) -> bool) -> nat
    decreases status.len(),
{
    if status.len() == 0 {
        0
    } else {
        count_states(status.drop_last(), p) + if p(status.last().state) {
            1nat
        } else {
            0nat
        }
    }
}

/// How many files are in conflict.
pub fn count_conflicts(status: &Vec<StatusEntry>) -> (n: usize)
    ensures
        n == count_states(status@, |s: FileState| s == FileState::Conflicted),
{
    count_in_state(status, FileState::Conflicted)
}

/// How many files are in one state.
pub fn count_in_state(status: &Vec<StatusEntry>, state: FileState) -> (n: usize)
    ensures
        n == count_states(status@, |s: FileState| s == state),
{
    let ghost p = |s: FileState| s == state;
    let mut n: usize = 0;
    let mut i: usize = 0;
    while i < status.len()
        invariant
            i <= status@.len(),
            p == (|s: FileState| s == state),
            n == count_states(status@.take(i as int), p),
            n <= i,
        decreases status@.len() - i,
    {
        if status[i].state == state {
            n += 1;
        }
        i += 1;
        assert(status@.take(i as int).drop_last() =~= status@.take(i - 1));
    }
    assert(status@.take(i as int) =~= status@);
    n
}

/// How many files staging would take something of.
pub fn count_stageable(status: &Vec<StatusEntry>) -> (n: usize)
    ensures
        n == count_states(status@, |s: FileState| s.is_stageable()),
{
    let ghost p = |s: FileState| s.is_stageable();
    let mut n: usize = 0;
    let mut i: usize = 0;
    while i < status.len()
        invariant
            i <= status@.len(),
            p == (|s: FileState| s.is_stageable()),
            n == count_states(status@.take(i as int), p),
            n <= i,
        decreases status@.len() - i,
    {
        if status[i].state.stageable() {
            n += 1;
        }
        i += 1;
        assert(status@.take(i as int).drop_last() =~= status@.take(i - 1));
    }
    assert(status@.take(i as int) =~= status@);
    n
}

/// A review outranks the filter under it, and leaving it shows that filter
/// again: opening a review and closing it leaves the tree as it was but for
/// the pane.
pub proof fn closing_undoes_opening(tree: FileTree, aim: ReviewAim)
    requires
        tree.review is None,
    ensures
        ({
            let open = (FileTree { review: Some(aim), ..tree }).pane_closed();
            &&& resting_paint(open.review, open.filter) == Paint::Review(aim)
            &&& (FileTree { review: None, ..open }).pane_closed() == tree.pane_closed()
        }),
{
}

/// An index build was asked for.
pub open spec fn index_asked(before: FileTree, after: FileTree, start: bool) -> bool {
    &&& start == !before.index_building
    &&& after == (FileTree { index_building: true, ..before })
}

/// The index landed.
pub open spec fn index_lands(before: FileTree, after: FileTree, files: usize) -> bool {
    &&& after == (FileTree {
        index_building: false,
        indexed: Some(files),
        ..before
    })
}

/// Whether what is on screen belongs to someone else.
pub open spec fn is_foreign(tree: FileTree, r: bool) -> bool {
    &&& r == (tree.watching is Some)
}

/// Which environment the panes are aimed at.
pub open spec fn watches(tree: FileTree, out: Option<EnvironmentId>) -> bool {
    &&& match (out, tree.watching) {
        (Some(env), Some(target)) => env@ == target.0@,
        (None, None) => true,
        _ => false,
    }
}

/// A sync operation begins.
pub open spec fn sync_begins(before: FileTree, after: FileTree) -> bool {
    &&& after == (FileTree { sync_busy: true, ..before })
}

/// A sync operation ended.
pub open spec fn sync_ends(before: FileTree, after: FileTree) -> bool {
    &&& after == (FileTree { sync_busy: false, ..before })
}

/// What rests on screen: a branch under review before anything else, then the
/// tree, or the files of a git filter.
pub proof fn a_review_outranks_the_filters(review: Option<ReviewAim>, filter: Filter)
    ensures
        review matches Some(aim) ==> resting_paint(review, filter) == Paint::Review(aim),
        review is None && filter == Filter::All ==> resting_paint(review, filter) == Paint::Tree,
        review is None && filter != Filter::All ==> resting_paint(review, filter) == Paint::Changed,
{
}

/// Aiming the pane at another checkout takes with it all that was about the old
/// one, and nothing else. What is on screen then is that checkout, which is
/// someone else's exactly where an environment was named; aiming there again
/// moves nothing.
pub proof fn aiming_elsewhere_starts_over(
    before: FileTree,
    after: FileTree,
    target: Option<(EnvironmentId, TreePath)>,
    workdir: Option<TreePath>,
    out: Option<Move>,
)
    requires
        aims(before, after, target, workdir, out),
    ensures
        after.watching is Some <==> target is Some,
        target matches Some(to) ==> after.shown_root() == to.1@ && (
        after.watching matches Some(at) && at.0@ == to.0@),
        target is None ==> after.shown_root() == before.root@,
        after.aimed_at(target),
        after.filter == before.filter && after.root == before.root,
        after.show_ignored == before.show_ignored && after.ghosting == before.ghosting,
        after.refresh == before.refresh && after.sync_busy == before.sync_busy,
        out is Some ==> {
            &&& after.workdir == workdir
            &&& after.status@.len() == 0 && after.stashed@.len() == 0
            &&& after.selection@.len() == 0
            &&& after.query@.len() == 0 && !after.searching
            &&& after.review is None && after.pane == PaneKind::Closed && after.pane_file is None
        },
        out is None ==> after == before,
        (before.watching is None) != (target is None) ==> out is Some,
{
}

/// Entering a filter shows its files from a clean slate, over the same checkout
/// and the same status: nothing is checked, searched or under review.
pub proof fn entering_a_filter_starts_clean(
    before: FileTree,
    after: FileTree,
    filter: Filter,
    out: Move,
)
    requires
        enters(before, after, filter, out),
    ensures
        after.filter == filter,
        after.selection@.len() == 0 && after.query@.len() == 0 && !after.searching,
        after.review is None,
        out.review_ended <==> before.review is Some,
        filter == Filter::All ==> out.paint == Paint::Tree && after.pane == PaneKind::Closed,
        filter != Filter::All ==> out.paint == Paint::Changed && after.pane == before.pane,
        after.status == before.status && after.stashed == before.stashed,
        after.watching == before.watching && after.workdir == before.workdir,
        after.root == before.root && after.rebasing == before.rebasing,
        filter == Filter::Conflicts ==> after.conflicts_visible,
{
}

/// A query that says something is searched for as it was typed; a blank one ends
/// the search and shows what was underneath. Typing moves nothing else.
pub proof fn typing_searches_and_a_blank_ends_it(
    before: FileTree,
    after: FileTree,
    query: String,
    paint: Paint,
)
    requires
        types(before, after, query, paint),
    ensures
        after.query@ == query@,
        is_blank(query@) ==> !after.searching && paint == resting_paint(
            before.review,
            before.filter,
        ),
        !is_blank(query@) ==> (paint matches Paint::Search(asked) && asked@ == query@)
            && after.searching == before.searching,
        after == (FileTree { query: after.query, searching: after.searching, ..before }),
{
    lemma_blank(query@);
}

/// Neither the ignored-files switch nor a change on disk puts the tree over
/// search results, a filter's list or a review; the tree itself is kept current.
pub proof fn the_tree_takes_no_other_view_over(
    before: FileTree,
    after: FileTree,
    show_ignored: bool,
    toggled: Paint,
    disk: Paint,
)
    requires
        shows_ignored(before, after, show_ignored, toggled),
        keeps_current(before, disk),
    ensures
        after.show_ignored == show_ignored,
        !is_blank(before.query@) ==> toggled != Paint::Tree && disk is Search,
        is_blank(before.query@) && (before.filter != Filter::All || before.review is Some)
            ==> toggled == Paint::Keep && disk == Paint::Keep,
        is_blank(before.query@) && before.filter == Filter::All && before.review is None
            ==> toggled == Paint::Tree && disk == Paint::Tree,
{
    lemma_blank(before.query@);
}

/// The Conflicts filter is offered while git reports a conflict, and while it is
/// the one on screen; at no other time.
pub proof fn conflicts_are_offered_while_there_are_any(tree: FileTree, r: bool)
    requires
        offers_conflicts(tree, r),
    ensures
        r <==> tree.filter == Filter::Conflicts || exists|k: int|
            0 <= k < tree.status@.len() && (#[trigger] tree.status@[k]).state
                == FileState::Conflicted,
{
    lemma_count_states(tree.status@, |s: FileState| s == FileState::Conflicted);
}

/// Some entry is counted exactly where there is one.
pub proof fn lemma_count_states(status: Seq<StatusEntry>, p: spec_fn(FileState) -> bool)
    ensures
        count_states(status, p) > 0 <==> exists|k: int|
            0 <= k < status.len() && p((#[trigger] status[k]).state),
        count_states(status, p) <= status.len(),
    decreases status.len(),
{
    if status.len() > 0 {
        let rest = status.drop_last();
        lemma_count_states(rest, p);
        if count_states(rest, p) > 0 {
            let k = choose|k: int| 0 <= k < rest.len() && p((#[trigger] rest[k]).state);
            assert(p(status[k].state));
        }
        if p(status.last().state) {
            assert(p(status[status.len() - 1].state));
        }
        if exists|k: int| 0 <= k < status.len() && p((#[trigger] status[k]).state) {
            let k = choose|k: int| 0 <= k < status.len() && p((#[trigger] status[k]).state);
            if k < rest.len() {
                assert(p(rest[k].state));
            }
        }
    }
}

/// A review shows the branch it was opened on and closes over whatever was
/// there: the filter, the checked files and the query come back as they were.
pub proof fn a_review_comes_and_goes(
    before: FileTree,
    open: FileTree,
    closed: FileTree,
    branch: String,
    target: String,
    shown: Paint,
    out: Move,
)
    requires
        opens_review(before, open, branch, target, shown),
        closes_review(open, closed, out),
    ensures
        shown matches Paint::Review(aim) && aim.branch@ == branch@ && aim.target@ == target@,
        open.review matches Some(aim) && aim.branch@ == branch@ && aim.target@ == target@,
        open.pane == PaneKind::Closed,
        out.review_ended,
        closed.review is None,
        out.paint == if before.filter == Filter::All {
            Paint::Tree
        } else {
            Paint::Changed
        },
        closed.filter == before.filter && closed.selection == before.selection && closed.query
            == before.query && closed.status == before.status && closed.watching == before.watching,
{
}

/// One index is built at a time: a build asked for while one runs starts none,
/// and once it lands its count stands and another may start.
pub proof fn one_index_is_built_at_a_time(
    before: FileTree,
    asked: FileTree,
    again: FileTree,
    landed: FileTree,
    start: bool,
    start_again: bool,
    files: usize,
)
    requires
        index_asked(before, asked, start),
        index_asked(asked, again, start_again),
        index_lands(again, landed, files),
    ensures
        start <==> !before.index_building,
        !start_again,
        landed.indexed == Some(files),
        !landed.index_building,
        landed.status == before.status && landed.filter == before.filter && landed.query
            == before.query,
{
}

/// Someone else's checkout can only be read: exactly where the panes are aimed
/// at an environment other than the user's own.
pub proof fn anothers_checkout_is_only_read(
    tree: FileTree,
    r: bool,
    out: Option<EnvironmentId>,
)
    requires
        is_foreign(tree, r),
        watches(tree, out),
    ensures
        r <==> out is Some,
        out matches Some(env) ==> (tree.watching matches Some(target) && env@ == target.0@),
        tree.watching is None ==> out is None && !r,
{
}

/// The spinner has the sync row from an operation's beginning to its end, and
/// nothing else of the tree changes by it.
pub proof fn the_spinner_gives_the_row_back(before: FileTree, busy: FileTree, after: FileTree)
    requires
        sync_begins(before, busy),
        sync_ends(busy, after),
    ensures
        busy.sync_busy,
        !after.sync_busy,
        !before.sync_busy ==> after == before,
{
}

} // verus!
