//! Applying a fresh git status to the pane.

use vstd::prelude::*;
use crate::filetree::changed::are_distinct;
use crate::filetree::status::{
    lemma_said_of_absent, lemma_said_of_found, lookup, paths_are_distinct, said_of, FileState, StatusEntry,
};
use crate::filetree::tree::{
    count_conflicts, count_in_state, count_stageable, count_states, lemma_count_states,
    resting_paint, FileTree, Filter, Paint, PaneKind,
};
use crate::path::TreePath;
use crate::text::{decimal, decimal_of, holds_text, lemma_holds_middle, trim, trimmed};

verus! {

/// How the branch relates to its upstream.
#[derive(Debug, PartialEq, Eq)]
pub struct SyncStatus {
    pub upstream: Option<String>,
    pub ahead: usize,
    pub behind: usize,
}

/// Everything the header and the row badges need.
#[derive(Debug, PartialEq, Eq)]
pub struct StatusSnapshot {
    pub status: Vec<StatusEntry>,
    pub stashed: Vec<TreePath>,
    /// Count of ignore rules, not of ignored files.
    pub ignore_rules: usize,
    pub branch: Option<String>,
    pub sync: Option<SyncStatus>,
    pub rebasing: bool,
}

/// A button's words and whether it answers.
#[derive(Debug, PartialEq, Eq)]
pub struct ButtonFace {
    pub label: String,
    pub tooltip: String,
    pub sensitive: bool,
}

/// What the sync row shows.
#[derive(Debug, PartialEq, Eq)]
pub enum SyncFace {
    /// A rebase is paused: "rebase paused — resolve, mark, Continue".
    Paused,
    /// The counts against the upstream.
    Counts { push: ButtonFace, pull: ButtonFace },
    /// There is nothing to push to or pull from.
    NoUpstream,
    /// The relation is not known.
    Unknown,
}

/// The plural ending of a count.
pub open spec fn plural(n: nat) -> Seq<char> {
    if n == 1 {
        ""@
    } else {
        "s"@
    }
}

pub fn plural_ending(n: usize) -> (s: &'static str)
    ensures
        s@ == plural(n as nat),
{
    if n == 1 {
        ""
    } else {
        "s"
    }
}

/// A prefix with a count behind it.
pub fn counted(prefix: &str, n: usize) -> (out: String)
    ensures
        out@ == prefix@ + decimal_of(n as nat),
{
    let mut out = prefix.to_owned();
    let digits = decimal(n as u64);
    out.append(digits.as_str());
    out
}

/// The push button over an upstream.
pub open spec fn push_shown(face: ButtonFace, upstream: Seq<char>, ahead: nat) -> bool {
    &&& face.label@ == "↑ "@ + decimal_of(ahead)
    &&& face.tooltip@ == "Push "@ + decimal_of(ahead) + " commit"@ + plural(ahead) + " to "@
        + upstream
    &&& face.sensitive == (ahead > 0)
}

/// The pull button.
pub open spec fn pull_shown(face: ButtonFace, behind: nat) -> bool {
    &&& face.label@ == "↓ "@ + decimal_of(behind)
    &&& face.tooltip@ == "Pull "@ + decimal_of(behind) + " commit"@ + plural(behind)
        + " (fetch + rebase)"@
    &&& face.sensitive == (behind > 0)
}

/// What the sync row shows of a snapshot: the upstream's name lives in the
/// button tooltips, the label is for exceptions.
pub fn sync_face(rebasing: bool, sync: &Option<SyncStatus>) -> (face: SyncFace)
    ensures
        sync_shows(face, rebasing, *sync),
{
    if rebasing {
        return SyncFace::Paused;
    }
    match sync {
        None => SyncFace::Unknown,
        Some(sync) => match &sync.upstream {
            None => SyncFace::NoUpstream,
            Some(upstream) => {
                let mut push_tip = counted("Push ", sync.ahead);
                push_tip.append(" commit");
                push_tip.append(plural_ending(sync.ahead));
                push_tip.append(" to ");
                push_tip.append(upstream.as_str());
                let mut pull_tip = counted("Pull ", sync.behind);
                pull_tip.append(" commit");
                pull_tip.append(plural_ending(sync.behind));
                pull_tip.append(" (fetch + rebase)");
                SyncFace::Counts {
                    push: ButtonFace {
                        label: counted("↑ ", sync.ahead),
                        tooltip: push_tip,
                        sensitive: sync.ahead > 0,
                    },
                    pull: ButtonFace {
                        label: counted("↓ ", sync.behind),
                        tooltip: pull_tip,
                        sensitive: sync.behind > 0,
                    },
                }
            },
        },
    }
}

/// The label of a sync row.
pub open spec fn sync_label_shown(face: SyncFace) -> Seq<char> {
    match face {
        SyncFace::Paused => "rebase paused — resolve, mark, Continue"@,
        SyncFace::NoUpstream => "no upstream"@,
        SyncFace::Counts { .. } => ""@,
        SyncFace::Unknown => ""@,
    }
}

/// The words beside the sync buttons: exceptions only.
pub fn sync_label(face: &SyncFace) -> (out: &'static str)
    ensures
        out@ == sync_label_shown(*face),
{
    match face {
        SyncFace::Paused => "rebase paused — resolve, mark, Continue",
        SyncFace::NoUpstream => "no upstream",
        SyncFace::Counts { .. } => "",
        SyncFace::Unknown => "",
    }
}

/// Two statuses say the same of every path.
pub open spec fn says_the_same(a: Seq<StatusEntry>, b: Seq<StatusEntry>) -> bool {
    forall|path: Seq<Seq<char>>| #[trigger] said_of(a, path) == said_of(b, path)
}

/// A path is on a list.
pub open spec fn lists(paths: Seq<TreePath>, path: Seq<Seq<char>>) -> bool {
    exists|i: int| 0 <= i < paths.len() && (#[trigger] paths[i])@ == path
}

/// Two lists hold the same paths.
pub open spec fn lists_the_same(a: Seq<TreePath>, b: Seq<TreePath>) -> bool {
    forall|path: Seq<Seq<char>>| #[trigger] lists(a, path) == lists(b, path)
}

/// Whether a path is on a list.
pub fn is_listed(paths: &Vec<TreePath>, path: &TreePath) -> (r: bool)
    ensures
        r == lists(paths@, path@),
{
    let mut i: usize = 0;
    while i < paths.len()
        invariant
            i <= paths@.len(),
            forall|j: int| 0 <= j < i ==> (#[trigger] paths@[j])@ != path@,
        decreases paths@.len() - i,
    {
        if paths[i].same_as(path) {
            return true;
        }
        i += 1;
    }
    false
}

/// What `a` says of its own paths, `b` says too.
fn agrees_on(a: &Vec<StatusEntry>, b: &Vec<StatusEntry>) -> (r: bool)
    requires
        paths_are_distinct(a@),
    ensures
        r == forall|path: Seq<Seq<char>>| #[trigger]
            said_of(a@, path) is Some ==> said_of(b@, path) == said_of(a@, path),
{
    let mut i: usize = 0;
    while i < a.len()
        invariant
            paths_are_distinct(a@),
            i <= a@.len(),
            forall|j: int|
                0 <= j < i ==> said_of(b@, (#[trigger] a@[j]).path@) == Some(a@[j].state),
        decreases a@.len() - i,
    {
        proof {
            assert forall|j: int| 0 <= j < i implies (#[trigger] a@[j]).path@
                != a@[i as int].path@ by {}
            lemma_said_of_absent(a@, i as int, a@[i as int].path@);
            assert(said_of(a@, a@[i as int].path@) == Some(a@[i as int].state));
        }
        match lookup(b, &a[i].path) {
            Some(state) => {
                if state != a[i].state {
                    return false;
                }
            },
            None => {
                return false;
            },
        }
        i += 1;
    }
    assert forall|path: Seq<Seq<char>>| #[trigger] said_of(a@, path) is Some implies said_of(
        b@,
        path,
    ) == said_of(a@, path) by {
        let k = lemma_said_of_found(a@, path);
        assert forall|j: int| 0 <= j < k implies (#[trigger] a@[j]).path@ != path by {}
        lemma_said_of_absent(a@, k, path);
        assert(said_of(a@, path) == Some(a@[k].state));
        assert(said_of(b@, a@[k].path@) == Some(a@[k].state));
    }
    true
}

/// Whether two statuses say the same.
pub fn same_status(a: &Vec<StatusEntry>, b: &Vec<StatusEntry>) -> (r: bool)
    requires
        paths_are_distinct(a@),
        paths_are_distinct(b@),
    ensures
        r == says_the_same(a@, b@),
{
    let one = agrees_on(a, b);
    let other = agrees_on(b, a);
    proof {
        if one && other {
            assert forall|path: Seq<Seq<char>>| #[trigger] said_of(a@, path) == said_of(
                b@,
                path,
            ) by {
                if said_of(a@, path) is None && said_of(b@, path) is Some {
                    assert(said_of(a@, path) == said_of(b@, path));
                }
            }
        }
        if says_the_same(a@, b@) {
            assert forall|path: Seq<Seq<char>>| #[trigger] said_of(b@, path) is Some implies said_of(
                a@,
                path,
            ) == said_of(b@, path) by {
                assert(said_of(a@, path) == said_of(b@, path));
            }
        }
    }
    one && other
}

fn all_listed(a: &Vec<TreePath>, b: &Vec<TreePath>) -> (r: bool)
    ensures
        r == forall|path: Seq<Seq<char>>| #[trigger] lists(a@, path) ==> lists(b@, path),
{
    let mut i: usize = 0;
    while i < a.len()
        invariant
            i <= a@.len(),
            forall|j: int| 0 <= j < i ==> lists(b@, (#[trigger] a@[j])@),
        decreases a@.len() - i,
    {
        if !is_listed(b, &a[i]) {
            assert(lists(a@, a@[i as int]@));
            return false;
        }
        i += 1;
    }
    true
}

/// Whether two lists hold the same paths.
pub fn same_paths(a: &Vec<TreePath>, b: &Vec<TreePath>) -> (r: bool)
    ensures
        r == lists_the_same(a@, b@),
{
    let one = all_listed(a, b);
    let other = all_listed(b, a);
    proof {
        if one && other {
            assert forall|path: Seq<Seq<char>>| #[trigger] lists(a@, path) == lists(b@, path) by {
                if lists(b@, path) {
                    assert(lists(a@, path));
                }
            }
        }
        if lists_the_same(a@, b@) {
            assert forall|path: Seq<Seq<char>>| #[trigger] lists(b@, path) implies lists(
                a@,
                path,
            ) by {
                assert(lists(a@, path) == lists(b@, path));
            }
        }
    }
    one && other
}

/// Why a snapshot moves the view by itself, if it does.
#[derive(Debug, Clone, Copy, PartialEq, Eq, Structural)]
pub enum Jump {
    Stay,
    /// Conflicts appeared: the rebase cannot move until they are dealt with.
    ToConflicts,
    /// The rebase ended or was aborted: its view is left again.
    ToAll,
}

/// What a snapshot did to the pane.
#[derive(Debug, PartialEq, Eq)]
pub struct StatusApplied {
    pub jump: Jump,
    /// A review ended on the way.
    pub review_ended: bool,
    pub paint: Paint,
    /// The branch as the header names it; `None` without a repository.
    pub branch: Option<String>,
    /// What the sync row shows; `None` leaves it to the spinner, or there is
    /// no repository to sync.
    pub sync: Option<SyncFace>,
    /// Whether the workspace is a repository: with it come the branch, the
    /// sync tools and the filters; without, one Initialize button.
    pub is_repo: bool,
}

/// Conflicts stand in the new status and none stood in the old.
pub open spec fn conflicts_appeared(old_status: Seq<StatusEntry>, status: Seq<StatusEntry>) -> bool {
    count_states(old_status, |s: FileState| s == FileState::Conflicted) == 0 && count_states(
        status,
        |s: FileState| s == FileState::Conflicted,
    ) > 0
}

/// Where a repository's snapshot sends the view.
pub open spec fn jump_for(tree: FileTree, snapshot: StatusSnapshot) -> Jump {
    if conflicts_appeared(tree.status@, snapshot.status@) && tree.filter != Filter::Conflicts {
        Jump::ToConflicts
    } else if tree.rebasing && !snapshot.rebasing && tree.filter == Filter::Conflicts {
        Jump::ToAll
    } else {
        Jump::Stay
    }
}

/// Nothing a row shows can have moved.
pub open spec fn nothing_moved(
    tree: FileTree,
    snapshot: StatusSnapshot,
    container_mode: bool,
) -> bool {
    &&& tree.container_mode == container_mode
    &&& says_the_same(tree.status@, snapshot.status@)
    &&& lists_the_same(tree.stashed@, snapshot.stashed@)
    &&& tree.ignore_rules == snapshot.ignore_rules
}

/// What the list has to do where the snapshot keeps the view.
pub open spec fn repaint_for(
    tree: FileTree,
    snapshot: StatusSnapshot,
    container_mode: bool,
) -> Paint {
    if nothing_moved(tree, snapshot, container_mode) {
        Paint::Keep
    } else if tree.filtering() && trimmed(tree.query@).len() == 0 {
        resting_paint(tree.review, tree.filter)
    } else if tree.container_mode == container_mode && tree.ignore_rules == snapshot.ignore_rules {
        Paint::Restyle
    } else {
        Paint::Rebind
    }
}

/// The pane knows what a snapshot said.
pub open spec fn holds(tree: FileTree, snapshot: StatusSnapshot, container_mode: bool) -> bool {
    &&& tree.status@ == snapshot.status@
    &&& tree.stashed@ == snapshot.stashed@
    &&& tree.ignore_rules == snapshot.ignore_rules
    &&& tree.rebasing == snapshot.rebasing
    &&& tree.container_mode == container_mode
    &&& !tree.rendered_non_repo
}

/// A pane with what another one knows of the repository.
pub open spec fn with_status_of(tree: FileTree, after: FileTree) -> FileTree {
    FileTree {
        status: after.status,
        stashed: after.stashed,
        ignore_rules: after.ignore_rules,
        rebasing: after.rebasing,
        container_mode: after.container_mode,
        rendered_non_repo: after.rendered_non_repo,
        conflicts_visible: after.conflicts_visible,
        ..tree
    }
}

impl FileTree {
    /// Take in a fresh status, or that there is no repository. An unchanged
    /// status must not churn row widgets; conflict transitions steer the view;
    /// a mode flip or a new ignore rule takes the full rebind, because it can
    /// change what a row shows for reasons the status does not record. Without a
    /// repository there is nothing to compare: once the rows are painted, with
    /// a mode flip or without, only another flip paints them again.
    #[verifier::rlimit(60)]
    pub fn apply_status(&mut self, snapshot: Option<StatusSnapshot>, container_mode: bool) -> (out:
        StatusApplied)
        requires
            paths_are_distinct(old(self).status@),
            snapshot matches Some(s) ==> paths_are_distinct(s.status@),
        ensures
            (old(self).wf() && (snapshot matches Some(s) ==> are_distinct(s.stashed@)))
                ==> final(self).wf(),
            applies(*old(self), *final(self), snapshot, container_mode, out),
    {
        let mode_changed = self.container_mode != container_mode;
        self.container_mode = container_mode;
        match snapshot {
            None => {
                let unchanged = !mode_changed && self.rendered_non_repo;
                self.rendered_non_repo = true;
                let paint = if unchanged {
                    Paint::Keep
                } else if self.filters_active() && trim(self.query.as_str()).is_empty() {
                    self.render_filter_view()
                } else {
                    Paint::Rebind
                };
                StatusApplied {
                    jump: Jump::Stay,
                    review_ended: false,
                    paint,
                    branch: None,
                    sync: None,
                    is_repo: false,
                }
            },
            Some(snapshot) => {
                self.rendered_non_repo = false;
                let same_rules = self.ignore_rules == snapshot.ignore_rules;
                let unchanged = !mode_changed && same_rules && same_status(
                    &self.status,
                    &snapshot.status,
                ) && same_paths(&self.stashed, &snapshot.stashed);
                let states_only = !mode_changed && same_rules;
                let appeared = count_conflicts(&self.status) == 0 && count_conflicts(
                    &snapshot.status,
                ) > 0;
                let rebase_ended = self.rebasing && !snapshot.rebasing;
                let sync = if self.sync_busy {
                    None
                } else {
                    Some(sync_face(snapshot.rebasing, &snapshot.sync))
                };
                self.status = snapshot.status;
                self.stashed = snapshot.stashed;
                self.ignore_rules = snapshot.ignore_rules;
                self.rebasing = snapshot.rebasing;
                self.conflicts_visible = self.conflict_toggle_shows();
                let branch = match snapshot.branch {
                    Some(branch) => Some(branch),
                    None => Some("(no branch)".to_owned()),
                };
                if appeared && self.filter != Filter::Conflicts {
                    self.conflicts_visible = true;
                    let moved = self.choose_filter(Filter::Conflicts);
                    return StatusApplied {
                        jump: Jump::ToConflicts,
                        review_ended: moved.review_ended,
                        paint: moved.paint,
                        branch,
                        sync,
                        is_repo: true,
                    };
                }
                if rebase_ended && self.filter == Filter::Conflicts {
                    self.conflicts_visible = false;
                    let moved = self.choose_filter(Filter::All);
                    return StatusApplied {
                        jump: Jump::ToAll,
                        review_ended: moved.review_ended,
                        paint: moved.paint,
                        branch,
                        sync,
                        is_repo: true,
                    };
                }
                let paint = if unchanged {
                    Paint::Keep
                } else if self.filters_active() && trim(self.query.as_str()).is_empty() {
                    self.render_filter_view()
                } else if states_only {
                    Paint::Restyle
                } else {
                    Paint::Rebind
                };
                StatusApplied {
                    jump: Jump::Stay,
                    review_ended: false,
                    paint,
                    branch,
                    sync,
                    is_repo: true,
                }
            },
        }
    }
}

/// Taking in a fresh status, or that there is no repository.
pub open spec fn applies(
    before: FileTree,
    after: FileTree,
    snapshot: Option<StatusSnapshot>,
    container_mode: bool,
    out: StatusApplied,
) -> bool {
    &&& out.is_repo == (snapshot is Some)
    &&& snapshot matches Some(s) ==> {
        &&& out.jump == jump_for(before, s)
        &&& out.branch is Some
        &&& out.branch->0@ == match s.branch {
            Some(branch) => branch@,
            None => "(no branch)"@,
        }
        &&& before.sync_busy ==> out.sync is None
        &&& !before.sync_busy ==> {
            &&& out.sync is Some
            &&& sync_shows(out.sync->0, s.rebasing, s.sync)
        }
        &&& holds(after, s, container_mode)
        &&& paths_are_distinct(after.status@)
        &&& match out.jump {
            Jump::Stay => {
                &&& !out.review_ended
                &&& out.paint == repaint_for(before, s, container_mode)
                &&& after == with_status_of(before, after)
                &&& after.conflicts_visible == (before.filter == Filter::Conflicts
                    || count_states(
                    s.status@,
                    |x: FileState| x == FileState::Conflicted,
                ) > 0)
            },
            Jump::ToConflicts => {
                &&& out.review_ended == (before.review is Some)
                &&& out.paint == Paint::Changed
                &&& after == (FileTree {
                    filter: Filter::Conflicts,
                    review: None,
                    selection: after.selection,
                    query: after.query,
                    searching: false,
                    ..with_status_of(before, after)
                })
                &&& after.conflicts_visible
                &&& after.selection@.len() == 0
                &&& after.query@.len() == 0
            },
            Jump::ToAll => {
                &&& out.review_ended == (before.review is Some)
                &&& out.paint == Paint::Tree
                &&& after == (FileTree {
                    filter: Filter::All,
                    review: None,
                    selection: after.selection,
                    query: after.query,
                    searching: false,
                    ..with_status_of(before, after)
                }).pane_closed()
                &&& !after.conflicts_visible
                &&& after.selection@.len() == 0
                &&& after.query@.len() == 0
            },
        }
    }
    &&& snapshot is None ==> {
        &&& out.jump == Jump::Stay
        &&& !out.review_ended
        &&& out.branch is None
        &&& out.sync is None
        &&& after == (FileTree {
            container_mode,
            rendered_non_repo: true,
            ..before
        })
        &&& out.paint == if before.container_mode == container_mode
            && before.rendered_non_repo {
            Paint::Keep
        } else if before.filtering() && trimmed(before.query@).len() == 0 {
            resting_paint(before.review, before.filter)
        } else {
            Paint::Rebind
        }
    }
}

/// What the sync row shows of a snapshot.
pub open spec fn sync_shows(face: SyncFace, rebasing: bool, sync: Option<SyncStatus>) -> bool {
    &&& face is Paused <==> rebasing
    &&& face is Unknown <==> !rebasing && sync is None
    &&& face is NoUpstream <==> !rebasing && (sync matches Some(s) && s.upstream is None)
    &&& face is Counts <==> !rebasing && (sync matches Some(s) && s.upstream is Some)
    &&& face matches SyncFace::Counts { push, pull } ==> {
        &&& push_shown(push, sync->0.upstream->0@, sync->0.ahead as nat)
        &&& pull_shown(pull, sync->0.behind as nat)
    }
}

/// The words on the filter buttons and the eye.
#[derive(Debug, PartialEq, Eq)]
pub struct FilterLabels {
    pub all: String,
    pub stashed: String,
    pub dirty: String,
    pub staged: String,
    pub conflicts: String,
    /// Something is staged: the button says so.
    pub staged_accent: bool,
    pub ignored_tooltip: String,
    pub ignored_count: String,
}

/// The filter buttons carry the counts of what git says.
pub open spec fn labels_tell(labels: FilterLabels, tree: FileTree) -> bool {
    &&& labels.stashed@ == "Stashed "@ + decimal_of(tree.stashed@.len())
    &&& labels.dirty@ == "Dirty "@ + decimal_of(
        count_states(tree.status@, |s: FileState| s.is_stageable()),
    )
    &&& labels.staged@ == "Staged "@ + decimal_of(
        count_states(tree.status@, |s: FileState| s == FileState::Staged),
    )
    &&& labels.conflicts@ == "Conflicts "@ + decimal_of(
        count_states(tree.status@, |s: FileState| s == FileState::Conflicted),
    )
    &&& labels.staged_accent == (count_states(
        tree.status@,
        |s: FileState| s == FileState::Staged,
    ) > 0)
}

impl FileTree {
    /// The counts carried by the filter buttons and the eye.
    pub fn sync_filter_counts(&self) -> (out: FilterLabels)
        ensures
            labels_tell(out, *self),
            out.all@ == match self.indexed {
                Some(files) => "All "@ + decimal_of(files as nat),
                None => "All"@,
            },
            out.stashed@ == "Stashed "@ + decimal_of(self.stashed@.len()),
            out.dirty@ == "Dirty "@ + decimal_of(
                count_states(self.status@, |s: FileState| s.is_stageable()),
            ),
            out.staged@ == "Staged "@ + decimal_of(
                count_states(self.status@, |s: FileState| s == FileState::Staged),
            ),
            out.conflicts@ == "Conflicts "@ + decimal_of(
                count_states(self.status@, |s: FileState| s == FileState::Conflicted),
            ),
            out.staged_accent == (count_states(
                self.status@,
                |s: FileState| s == FileState::Staged,
            ) > 0),
            out.ignored_tooltip@ == "Show ignored files — "@ + decimal_of(self.ignore_rules as nat)
                + " ignore rule"@ + plural(self.ignore_rules as nat)
                + " (the RULE count; counting ignored files would walk everything)"@,
            out.ignored_count@ == decimal_of(self.ignore_rules as nat),
    {
        let staged = count_in_state(&self.status, FileState::Staged);
        let mut tooltip = counted("Show ignored files — ", self.ignore_rules);
        tooltip.append(" ignore rule");
        tooltip.append(plural_ending(self.ignore_rules));
        tooltip.append(" (the RULE count; counting ignored files would walk everything)");
        FilterLabels {
            all: match self.indexed {
                Some(files) => counted("All ", files),
                None => "All".to_owned(),
            },
            stashed: counted("Stashed ", self.stashed.len()),
            dirty: counted("Dirty ", count_stageable(&self.status)),
            staged: counted("Staged ", staged),
            conflicts: counted("Conflicts ", count_conflicts(&self.status)),
            staged_accent: staged > 0,
            ignored_tooltip: tooltip,
            ignored_count: decimal(self.ignore_rules as u64),
        }
    }
}

/// A pane that took in a snapshot has nothing to repaint for another that says
/// the same, in whatever order: a refresh that changed nothing does not churn
/// the rows.
pub proof fn an_unchanged_status_repaints_nothing(
    tree: FileTree,
    first: StatusSnapshot,
    again: StatusSnapshot,
    container_mode: bool,
)
    requires
        holds(tree, first, container_mode),
        says_the_same(first.status@, again.status@),
        lists_the_same(first.stashed@, again.stashed@),
        first.ignore_rules == again.ignore_rules,
    ensures
        repaint_for(tree, again, container_mode) == Paint::Keep,
{
}

/// With an upstream and no rebase paused, Pull answers exactly where the branch
/// is behind by a commit or more and Push exactly where it is ahead, and each
/// wears its own count. A paused rebase and a branch without an upstream offer
/// neither.
pub proof fn sync_buttons_answer_where_they_move_something(
    face: SyncFace,
    rebasing: bool,
    sync: Option<SyncStatus>,
)
    requires
        sync_shows(face, rebasing, sync),
    ensures
        rebasing ==> face is Paused,
        !rebasing && sync is None ==> face is Unknown,
        !rebasing ==> (sync matches Some(at) ==> match (at.upstream, face) {
            (None, SyncFace::NoUpstream) => true,
            (Some(upstream), SyncFace::Counts { push, pull }) => {
                &&& pull.sensitive <==> at.behind >= 1
                &&& push.sensitive <==> at.ahead >= 1
                &&& pull.label@ == "↓ "@ + decimal_of(at.behind as nat)
                &&& push.label@ == "↑ "@ + decimal_of(at.ahead as nat)
                &&& holds_text(pull.tooltip@, decimal_of(at.behind as nat))
                &&& holds_text(push.tooltip@, decimal_of(at.ahead as nat))
                &&& holds_text(push.tooltip@, upstream@)
                &&& holds_text(pull.tooltip@, "Pull "@) && holds_text(push.tooltip@, "Push "@)
            },
            _ => false,
        }),
{
    if !rebasing && sync is Some && sync->0.upstream is Some {
        let at = sync->0;
        let upstream = at.upstream->0@;
        if let SyncFace::Counts { push, pull } = face {
            let ahead = decimal_of(at.ahead as nat);
            let behind = decimal_of(at.behind as nat);
            let down = " commit"@ + plural(at.behind as nat) + " (fetch + rebase)"@;
            assert(pull.tooltip@ =~= "Pull "@ + behind + down);
            lemma_holds_middle("Pull "@, behind, down);
            assert(pull.tooltip@ =~= Seq::empty() + "Pull "@ + (behind + down));
            lemma_holds_middle(Seq::empty(), "Pull "@, behind + down);
            let up = " commit"@ + plural(at.ahead as nat) + " to "@;
            assert(push.tooltip@ =~= "Push "@ + ahead + (up + upstream));
            lemma_holds_middle("Push "@, ahead, up + upstream);
            assert(push.tooltip@ =~= Seq::empty() + "Push "@ + (ahead + up + upstream));
            lemma_holds_middle(Seq::empty(), "Push "@, ahead + up + upstream);
            assert(push.tooltip@ =~= ("Push "@ + ahead + up) + upstream + Seq::empty());
            lemma_holds_middle("Push "@ + ahead + up, upstream, Seq::empty());
        }
    }
}

/// Some file of a status is in conflict.
pub open spec fn has_conflict(status: Seq<StatusEntry>) -> bool {
    exists|k: int| 0 <= k < status.len() && (#[trigger] status[k]).state == FileState::Conflicted
}

/// A fresh status is what the pane holds afterwards, whatever it held before,
/// and the header names its branch. The sync row is the spinner's while an
/// operation runs.
pub proof fn a_fresh_status_is_held(
    before: FileTree,
    after: FileTree,
    snapshot: StatusSnapshot,
    container_mode: bool,
    out: StatusApplied,
)
    requires
        applies(before, after, Some(snapshot), container_mode, out),
    ensures
        after.status@ == snapshot.status@ && after.stashed@ == snapshot.stashed@,
        after.ignore_rules == snapshot.ignore_rules && after.rebasing == snapshot.rebasing,
        after.container_mode == container_mode,
        out.is_repo,
        snapshot.branch matches Some(name) ==> (out.branch matches Some(shown) && shown@ == name@),
        out.sync is None <==> before.sync_busy,
        out.sync matches Some(face) ==> sync_shows(face, snapshot.rebasing, snapshot.sync),
        after.workdir == before.workdir && after.watching == before.watching && after.root
            == before.root && after.sync_busy == before.sync_busy,
{
}

/// Conflicts that appear take the view, since nothing moves until they are dealt
/// with; a rebase that ends gives it back; nothing else moves the user's view,
/// what they checked or what they typed.
pub proof fn only_conflicts_steer_the_view(
    before: FileTree,
    after: FileTree,
    snapshot: StatusSnapshot,
    container_mode: bool,
    out: StatusApplied,
)
    requires
        applies(before, after, Some(snapshot), container_mode, out),
    ensures
        ({
            let appeared = !has_conflict(before.status@) && has_conflict(snapshot.status@);
            let ended = before.rebasing && !snapshot.rebasing;
            &&& appeared && before.filter != Filter::Conflicts ==> after.filter == Filter::Conflicts
                && after.selection@.len() == 0 && after.review is None && out.paint
                == Paint::Changed && after.conflicts_visible
            &&& !appeared && ended && before.filter == Filter::Conflicts ==> after.filter
                == Filter::All && after.pane == PaneKind::Closed && out.paint == Paint::Tree
            &&& !(appeared && before.filter != Filter::Conflicts) && !(ended && before.filter
                == Filter::Conflicts) ==> {
                &&& after.filter == before.filter && after.selection == before.selection
                &&& after.query == before.query && after.review == before.review
                &&& after.pane == before.pane && !out.review_ended
            }
        }),
{
    let p = |s: FileState| s == FileState::Conflicted;
    lemma_count_states(before.status@, p);
    lemma_count_states(snapshot.status@, p);
    assert(has_conflict(before.status@) == (count_states(before.status@, p) > 0)) by {
        if has_conflict(before.status@) {
            let k = choose|k: int|
                0 <= k < before.status@.len() && (#[trigger] before.status@[k]).state
                    == FileState::Conflicted;
            assert(p(before.status@[k].state));
        }
    }
    assert(has_conflict(snapshot.status@) == (count_states(snapshot.status@, p) > 0)) by {
        if has_conflict(snapshot.status@) {
            let k = choose|k: int|
                0 <= k < snapshot.status@.len() && (#[trigger] snapshot.status@[k]).state
                    == FileState::Conflicted;
            assert(p(snapshot.status@[k].state));
        }
    }
}

/// A status that says something new of a file is never kept off the screen: the
/// rows are restyled, bound again, or the active list is drawn anew.
pub proof fn a_moved_status_repaints(
    before: FileTree,
    after: FileTree,
    snapshot: StatusSnapshot,
    container_mode: bool,
    out: StatusApplied,
    path: Seq<Seq<char>>,
)
    requires
        applies(before, after, Some(snapshot), container_mode, out),
        said_of(before.status@, path) != said_of(snapshot.status@, path) || lists(
            before.stashed@,
            path,
        ) != lists(snapshot.stashed@, path) || before.ignore_rules != snapshot.ignore_rules
            || before.container_mode != container_mode,
    ensures
        out.paint != Paint::Keep,
        before.container_mode != container_mode && out.jump == Jump::Stay && before.filter
            == Filter::All && before.review is None ==> out.paint == Paint::Rebind,
{
}

/// Without a repository there is no branch and nothing to sync, and nothing the
/// pane holds moves.
pub proof fn no_repository_moves_nothing(
    before: FileTree,
    after: FileTree,
    container_mode: bool,
    out: StatusApplied,
)
    requires
        applies(before, after, None, container_mode, out),
    ensures
        !out.is_repo && out.branch is None && out.sync is None,
        after.status == before.status && after.filter == before.filter && after.selection
            == before.selection && after.query == before.query,
{
}

/// Beside the sync buttons only an exception is put into words: a rebase that
/// waits, and a branch that has nowhere to go.
pub proof fn only_an_exception_is_put_into_words(face: SyncFace)
    ensures
        face is Paused ==> sync_label_shown(face) == "rebase paused — resolve, mark, Continue"@,
        face is NoUpstream ==> sync_label_shown(face) == "no upstream"@,
        face is Counts || face is Unknown ==> sync_label_shown(face).len() == 0,
{
    reveal_strlit("");
}

} // verus!
