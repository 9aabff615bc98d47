//! What a bulk action asks of git, step by step, and what follows it.

use vstd::prelude::*;
use crate::filetree::actions::{guarded, Flow};
use crate::filetree::bulk::BulkOp;
use crate::filetree::snapshot::{is_listed, lists};
use crate::filetree::status::FileState;
use crate::filetree::tree::{count_states, FileTree, Filter, Move, Paint};
use crate::path::{lies_in, written, TreePath};
use crate::text::texts;

verus! {

/// One thing to ask of git. Steps run in order and the first failure ends the
/// run.
#[derive(Debug, PartialEq, Eq)]
pub enum GitStep {
    /// Put a file in the index.
    Stage(TreePath),
    /// Take a file out of the index.
    Unstage(TreePath),
    /// Run git with these arguments.
    Git(Vec<String>),
    /// Restore one file from a stash entry.
    UnstashFile { index: usize, path: TreePath },
}

/// A step as data.
pub enum StepModel {
    Stage(Seq<Seq<char>>),
    Unstage(Seq<Seq<char>>),
    Git(Seq<Seq<char>>),
    UnstashFile(int, Seq<Seq<char>>),
}

impl View for GitStep {
    type V = StepModel;

    open spec fn view(&self) -> StepModel {
        match *self {
            GitStep::Stage(path) => StepModel::Stage(path@),
            GitStep::Unstage(path) => StepModel::Unstage(path@),
            GitStep::Git(args) => StepModel::Git(texts(args@)),
            GitStep::UnstashFile { index, path } => StepModel::UnstashFile(index as int, path@),
        }
    }
}

/// Steps as data.
pub open spec fn steps_view(steps: Seq<GitStep>) -> Seq<StepModel> {
    Seq::new(steps.len(), |i: int| steps[i]@)
}

/// The checked files within the repository, as seen from it.
pub open spec fn rels_of(selection: Seq<TreePath>, workdir: Seq<Seq<char>>) -> Seq<Seq<Seq<char>>>
    decreases selection.len(),
{
    if selection.len() == 0 {
        Seq::empty()
    } else {
        let rest = rels_of(selection.drop_last(), workdir);
        let path = selection.last()@;
        if lies_in(path, workdir) {
            rest.push(path.subrange(workdir.len() as int, path.len() as int))
        } else {
            rest
        }
    }
}

/// Paths as git's command line takes them.
pub open spec fn written_all(paths: Seq<Seq<Seq<char>>>) -> Seq<Seq<char>> {
    Seq::new(paths.len(), |i: int| written(paths[i]))
}

/// Staging each path.
pub open spec fn stage_all(paths: Seq<Seq<Seq<char>>>) -> Seq<StepModel> {
    Seq::new(paths.len(), |i: int| StepModel::Stage(paths[i]))
}

/// Unstaging each path.
pub open spec fn unstage_all(paths: Seq<Seq<Seq<char>>>) -> Seq<StepModel> {
    Seq::new(paths.len(), |i: int| StepModel::Unstage(paths[i]))
}

/// The first stash entry that touches a path.
pub open spec fn entry_with(entries: Seq<Vec<TreePath>>, path: Seq<Seq<char>>) -> Option<int>
    decreases entries.len(),
{
    if entries.len() == 0 {
        None
    } else if lists(entries[0]@, path) {
        Some(0)
    } else {
        match entry_with(entries.subrange(1, entries.len() as int), path) {
            Some(i) => Some(i + 1),
            None => None,
        }
    }
}

/// Restoring each path from the first stash entry that touches it; a path no
/// entry touches is passed over.
pub open spec fn unstash_all(
    entries: Seq<Vec<TreePath>>,
    paths: Seq<Seq<Seq<char>>>,
) -> Seq<StepModel>
    decreases paths.len(),
{
    if paths.len() == 0 {
        Seq::empty()
    } else {
        let rest = unstash_all(entries, paths.drop_last());
        match entry_with(entries, paths.last()) {
            Some(i) => rest.push(StepModel::UnstashFile(i, paths.last())),
            None => rest,
        }
    }
}

/// The side of a conflict, in git's words. A rebase replays the user's commits
/// onto the remote tip, which makes "ours" the remote side.
pub open spec fn side_flag(rebasing: bool, keep_yours: bool) -> Seq<char> {
    if rebasing == keep_yours {
        "--theirs"@
    } else {
        "--ours"@
    }
}

/// What a bulk action asks of git.
pub open spec fn planned(
    op: BulkOp,
    workdir: Seq<Seq<char>>,
    rels: Seq<Seq<Seq<char>>>,
    rebasing: bool,
    entries: Seq<Vec<TreePath>>,
) -> Seq<StepModel> {
    match op {
        BulkOp::Stage => stage_all(rels),
        BulkOp::MarkResolved => stage_all(rels),
        BulkOp::Unstage => unstage_all(rels),
        BulkOp::Stash => seq![
            StepModel::Git(
                seq![
                    "-C"@,
                    written(workdir),
                    "stash"@,
                    "push"@,
                    "--include-untracked"@,
                    "-m"@,
                    "taste-ide selection"@,
                    "--"@,
                ] + written_all(rels),
            ),
        ],
        BulkOp::KeepYours => seq![
            StepModel::Git(
                seq!["-C"@, written(workdir), "checkout"@, side_flag(rebasing, true), "--"@]
                    + written_all(rels),
            ),
        ] + stage_all(rels),
        BulkOp::TakeRemote => seq![
            StepModel::Git(
                seq!["-C"@, written(workdir), "checkout"@, side_flag(rebasing, false), "--"@]
                    + written_all(rels),
            ),
        ] + stage_all(rels),
        BulkOp::Unstash => unstash_all(entries, rels),
    }
}

/// The steps are what a bulk action asks of git for the checked files.
pub open spec fn plans(
    steps: Seq<GitStep>,
    tree: FileTree,
    op: BulkOp,
    rebasing: bool,
    entries: Seq<Vec<TreePath>>,
) -> bool {
    steps_view(steps) == planned(
        op,
        tree.workdir->0@,
        rels_of(tree.selection@, tree.workdir->0@),
        rebasing,
        entries,
    )
}

/// A list of paths as sequences of names.
pub open spec fn paths_view(paths: Seq<TreePath>) -> Seq<Seq<Seq<char>>> {
    Seq::new(paths.len(), |i: int| paths[i]@)
}

fn collect_rels(selection: &Vec<TreePath>, workdir: &TreePath) -> (out: Vec<TreePath>)
    ensures
        paths_view(out@) == rels_of(selection@, workdir@),
{
    let mut out: Vec<TreePath> = Vec::new();
    let mut i: usize = 0;
    assert(paths_view(out@) =~= rels_of(selection@.take(0), workdir@));
    while i < selection.len()
        invariant
            i <= selection@.len(),
            paths_view(out@) == rels_of(selection@.take(i as int), workdir@),
        decreases selection@.len() - i,
    {
        let ghost before = out@;
        assert(selection@.take(i + 1).drop_last() =~= selection@.take(i as int));
        if let Some(rel) = selection[i].strip_prefix(workdir) {
            out.push(rel);
            assert(paths_view(out@) =~= paths_view(before).push(rel@));
        }
        i += 1;
    }
    assert(selection@.take(i as int) =~= selection@);
    out
}

fn push_written(args: &mut Vec<String>, rels: &Vec<TreePath>)
    ensures
        texts(final(args)@) == texts(old(args)@) + written_all(paths_view(rels@)),
{
    let ghost start = texts(args@);
    let mut i: usize = 0;
    assert(start + written_all(paths_view(rels@)).take(0) =~= start);
    while i < rels.len()
        invariant
            i <= rels@.len(),
            texts(args@) == start + written_all(paths_view(rels@)).take(i as int),
        decreases rels@.len() - i,
    {
        let ghost before = args@;
        let word = rels[i].show();
        args.push(word);
        i += 1;
        assert(texts(args@) =~= texts(before).push(word@));
        assert(written_all(paths_view(rels@)).take(i as int) =~= written_all(
            paths_view(rels@),
        ).take(i - 1).push(word@));
        assert(start + written_all(paths_view(rels@)).take(i as int) =~= (start + written_all(
            paths_view(rels@),
        ).take(i - 1)).push(word@));
    }
    assert(written_all(paths_view(rels@)).take(i as int) =~= written_all(paths_view(rels@)));
}

fn push_stages(steps: &mut Vec<GitStep>, rels: &Vec<TreePath>)
    ensures
        steps_view(final(steps)@) == steps_view(old(steps)@) + stage_all(paths_view(rels@)),
{
    let ghost start = steps_view(steps@);
    let mut i: usize = 0;
    assert(start + stage_all(paths_view(rels@)).take(0) =~= start);
    while i < rels.len()
        invariant
            i <= rels@.len(),
            steps_view(steps@) == start + stage_all(paths_view(rels@)).take(i as int),
        decreases rels@.len() - i,
    {
        let ghost before = steps@;
        let step = GitStep::Stage(rels[i].clone());
        steps.push(step);
        i += 1;
        assert(steps_view(steps@) =~= steps_view(before).push(step@));
        assert(start + stage_all(paths_view(rels@)).take(i as int) =~= (start + stage_all(
            paths_view(rels@),
        ).take(i - 1)).push(step@));
    }
    assert(stage_all(paths_view(rels@)).take(i as int) =~= stage_all(paths_view(rels@)));
}

fn find_entry(entries: &Vec<Vec<TreePath>>, path: &TreePath) -> (out: Option<usize>)
    ensures
        match out {
            Some(i) => entry_with(entries@, path@) == Some(i as int),
            None => entry_with(entries@, path@) is None,
        },
{
    let mut i: usize = 0;
    assert(entries@.subrange(0, entries@.len() as int) =~= entries@);
    while i < entries.len()
        invariant
            i <= entries@.len(),
            entry_with(entries@, path@) == match entry_with(
                entries@.subrange(i as int, entries@.len() as int),
                path@,
            ) {
                Some(k) => Some(k + i),
                None => None,
            },
        decreases entries@.len() - i,
    {
        let ghost rest = entries@.subrange(i as int, entries@.len() as int);
        if is_listed(&entries[i], path) {
            assert(lists(rest[0]@, path@));
            return Some(i);
        }
        assert(!lists(rest[0]@, path@));
        assert(rest.subrange(1, rest.len() as int) =~= entries@.subrange(
            i + 1,
            entries@.len() as int,
        ));
        i += 1;
    }
    None
}

fn checkout_step(workdir: &TreePath, rels: &Vec<TreePath>, rebasing: bool, keep_yours: bool) -> (step:
    GitStep)
    ensures
        step@ == StepModel::Git(
            seq!["-C"@, written(workdir@), "checkout"@, side_flag(rebasing, keep_yours), "--"@]
                + written_all(paths_view(rels@)),
        ),
{
    let side = if rebasing == keep_yours {
        "--theirs"
    } else {
        "--ours"
    };
    let mut args: Vec<String> = Vec::new();
    args.push("-C".to_owned());
    args.push(workdir.show());
    args.push("checkout".to_owned());
    args.push(side.to_owned());
    args.push("--".to_owned());
    assert(texts(args@) =~= seq![
        "-C"@,
        written(workdir@),
        "checkout"@,
        side_flag(rebasing, keep_yours),
        "--"@,
    ]);
    push_written(&mut args, rels);
    GitStep::Git(args)
}

/// The step puts a file in the index, or takes it out where it stands there.
pub open spec fn switches(
    step: GitStep,
    workdir: Seq<Seq<char>>,
    path: Seq<Seq<char>>,
    currently_staged: bool,
) -> bool {
    let rel = path.subrange(workdir.len() as int, path.len() as int);
    step@ == if currently_staged {
        StepModel::Unstage(rel)
    } else {
        StepModel::Stage(rel)
    }
}

impl FileTree {
    /// What a bulk action asks of git for the checked files; refused in someone
    /// else's checkout, and nothing without a repository. `entries` are the
    /// stash entries' paths, newest first.
    pub fn plan_selection_op(&self, op: BulkOp, rebasing: bool, entries: &Vec<Vec<TreePath>>) -> (out:
        Flow<Vec<GitStep>>)
        ensures
            guarded(out, *self, self.workdir is Some),
            out matches Flow::Open(steps) ==> plans(steps@, *self, op, rebasing, entries@),
    {
        if let Some(text) = self.refuse_read_only() {
            return Flow::Refused(text);
        }
        let workdir = match &self.workdir {
            Some(dir) => dir,
            None => return Flow::Nothing,
        };
        let rels = collect_rels(&self.selection, workdir);
        let mut steps: Vec<GitStep> = Vec::new();
        assert(steps_view(steps@) =~= Seq::empty());
        match op {
            BulkOp::Stage | BulkOp::MarkResolved => {
                push_stages(&mut steps, &rels);
                assert(steps_view(steps@) =~= stage_all(paths_view(rels@)));
            },
            BulkOp::Unstage => {
                let mut i: usize = 0;
                assert(steps_view(steps@) =~= unstage_all(paths_view(rels@)).take(0));
                while i < rels.len()
                    invariant
                        i <= rels@.len(),
                        steps_view(steps@) == unstage_all(paths_view(rels@)).take(i as int),
                    decreases rels@.len() - i,
                {
                    let ghost before = steps@;
                    let step = GitStep::Unstage(rels[i].clone());
                    steps.push(step);
                    i += 1;
                    assert(steps_view(steps@) =~= steps_view(before).push(step@));
                    assert(unstage_all(paths_view(rels@)).take(i as int) =~= unstage_all(
                        paths_view(rels@),
                    ).take(i - 1).push(step@));
                }
                assert(unstage_all(paths_view(rels@)).take(i as int) =~= unstage_all(
                    paths_view(rels@),
                ));
            },
            BulkOp::Stash => {
                let mut args: Vec<String> = Vec::new();
                args.push("-C".to_owned());
                args.push(workdir.show());
                args.push("stash".to_owned());
                args.push("push".to_owned());
                args.push("--include-untracked".to_owned());
                args.push("-m".to_owned());
                args.push("taste-ide selection".to_owned());
                args.push("--".to_owned());
                assert(texts(args@) =~= seq![
                    "-C"@,
                    written(workdir@),
                    "stash"@,
                    "push"@,
                    "--include-untracked"@,
                    "-m"@,
                    "taste-ide selection"@,
                    "--"@,
                ]);
                push_written(&mut args, &rels);
                steps.push(GitStep::Git(args));
                assert(steps_view(steps@) =~= seq![steps@[0]@]);
            },
            BulkOp::KeepYours | BulkOp::TakeRemote => {
                let step = checkout_step(workdir, &rels, rebasing, op == BulkOp::KeepYours);
                steps.push(step);
                assert(steps_view(steps@) =~= seq![step@]);
                push_stages(&mut steps, &rels);
            },
            BulkOp::Unstash => {
                let mut i: usize = 0;
                assert(steps_view(steps@) =~= unstash_all(entries@, paths_view(rels@).take(0)));
                while i < rels.len()
                    invariant
                        i <= rels@.len(),
                        steps_view(steps@) == unstash_all(
                            entries@,
                            paths_view(rels@).take(i as int),
                        ),
                    decreases rels@.len() - i,
                {
                    let ghost before = steps@;
                    assert(paths_view(rels@).take(i + 1).drop_last() =~= paths_view(rels@).take(
                        i as int,
                    ));
                    if let Some(index) = find_entry(entries, &rels[i]) {
                        let step = GitStep::UnstashFile { index, path: rels[i].clone() };
                        steps.push(step);
                        assert(steps_view(steps@) =~= steps_view(before).push(step@));
                    }
                    i += 1;
                }
                assert(paths_view(rels@).take(i as int) =~= paths_view(rels@));
            },
        }
        Flow::Open(steps)
    }

    /// What a row's own staging switch asks of git: refused in someone else's
    /// checkout, and nothing without a repository or for a file outside of it.
    pub fn toggle_stage(&self, path: &TreePath, currently_staged: bool) -> (out: Flow<GitStep>)
        ensures
            guarded(out, *self, self.workdir is Some && lies_in(path@, self.workdir->0@)),
            out matches Flow::Open(step) ==> switches(
                step,
                self.workdir->0@,
                path@,
                currently_staged,
            ),
    {
        if let Some(text) = self.refuse_read_only() {
            return Flow::Refused(text);
        }
        match self.repo_relative(path) {
            Some(rel) => Flow::Open(
                if currently_staged {
                    GitStep::Unstage(rel)
                } else {
                    GitStep::Stage(rel)
                },
            ),
            None => Flow::Nothing,
        }
    }

    /// A bulk action ended. On failure nothing moved: the selection and its
    /// pane stay honest. On success both go, and a move toward the commit is
    /// followed to the view where the files landed.
    pub fn after_selection_op(&mut self, op: BulkOp, succeeded: bool) -> (out: Option<Move>)
        ensures
            old(self).wf() ==> final(self).wf(),
            follows_up(*old(self), *final(self), op, succeeded, out),
    {
        if !succeeded {
            return None;
        }
        self.selection = Vec::new();
        self.close_intervention();
        let target = match op {
            BulkOp::Stage => Filter::Staged,
            BulkOp::Unstash => Filter::Dirty,
            _ => self.filter,
        };
        if target == self.filter {
            None
        } else {
            Some(self.choose_filter(target))
        }
    }
}

/// What follows a bulk action.
pub open spec fn follows_up(
    before: FileTree,
    after: FileTree,
    op: BulkOp,
    succeeded: bool,
    out: Option<Move>,
) -> bool {
    &&& !succeeded ==> after == before && out is None
    &&& succeeded ==> {
        let moves = landing(op, before.filter) != before.filter;
        &&& after == (FileTree {
            selection: after.selection,
            filter: landing(op, before.filter),
            review: if moves {
                None
            } else {
                before.review
            },
            query: after.query,
            searching: before.searching && !moves,
            conflicts_visible: after.conflicts_visible,
            ..before
        }).pane_closed()
        &&& after.selection@.len() == 0
        &&& out is Some <==> moves
        &&& out matches Some(moved) ==> {
            &&& moved.paint == Paint::Changed
            &&& moved.review_ended == (before.review is Some)
            &&& after.query@.len() == 0
            &&& after.conflicts_visible == (count_states(
                before.status@,
                |s: FileState| s == FileState::Conflicted,
            ) > 0)
        }
        &&& out is None ==> after.query == before.query
            && after.conflicts_visible == before.conflicts_visible
    }
}

/// The view a bulk action leaves the user in.
pub open spec fn landing(op: BulkOp, filter: Filter) -> Filter {
    match op {
        BulkOp::Stage => Filter::Staged,
        BulkOp::Unstash => Filter::Dirty,
        _ => filter,
    }
}

/// An action's own name.
pub open spec fn op_token(op: BulkOp) -> Seq<char> {
    match op {
        BulkOp::Stage => "stage"@,
        BulkOp::Unstage => "unstage"@,
        BulkOp::Stash => "stash"@,
        BulkOp::Unstash => "unstash"@,
        BulkOp::KeepYours => "keep-yours"@,
        BulkOp::TakeRemote => "take-remote"@,
        BulkOp::MarkResolved => "mark-resolved"@,
    }
}

/// What the user is told when it succeeded.
pub open spec fn op_done(op: BulkOp) -> Seq<char> {
    match op {
        BulkOp::Stage => "Staged"@,
        BulkOp::Unstage => "Unstaged"@,
        BulkOp::Stash => "Stashed"@,
        BulkOp::Unstash => "Unstashed — back in the working tree"@,
        BulkOp::KeepYours => "Resolved with your version"@,
        BulkOp::TakeRemote => "Resolved with the remote version"@,
        BulkOp::MarkResolved => "Marked resolved"@,
    }
}

fn op_name(op: BulkOp) -> (out: &'static str)
    ensures
        out@ == op_token(op),
{
    match op {
        BulkOp::Stage => "stage",
        BulkOp::Unstage => "unstage",
        BulkOp::Stash => "stash",
        BulkOp::Unstash => "unstash",
        BulkOp::KeepYours => "keep-yours",
        BulkOp::TakeRemote => "take-remote",
        BulkOp::MarkResolved => "mark-resolved",
    }
}

/// What the user is told of a bulk action.
pub open spec fn op_told(op: BulkOp, result: Result<(), String>, out: Seq<char>) -> bool {
    &&& out == match result {
        Ok(()) => op_done(op),
        Err(e) => op_token(op) + " failed: "@ + e@,
    }
}

/// What the user is told of a bulk action.
pub fn op_toast(op: BulkOp, result: &Result<(), String>) -> (out: String)
    ensures
        op_told(op, *result, out@),
{
    match result {
        Ok(()) => match op {
            BulkOp::Stage => "Staged".to_owned(),
            BulkOp::Unstage => "Unstaged".to_owned(),
            BulkOp::Stash => "Stashed".to_owned(),
            BulkOp::Unstash => "Unstashed — back in the working tree".to_owned(),
            BulkOp::KeepYours => "Resolved with your version".to_owned(),
            BulkOp::TakeRemote => "Resolved with the remote version".to_owned(),
            BulkOp::MarkResolved => "Marked resolved".to_owned(),
        },
        Err(e) => {
            let mut text = op_name(op).to_owned();
            text.append(" failed: ");
            text.append(e.as_str());
            text
        },
    }
}

/// Keeping one's own version and taking the remote's name opposite sides, and
/// a rebase swaps them.
pub proof fn sides_are_opposite(rebasing: bool)
    ensures
        side_flag(rebasing, true) != side_flag(rebasing, false),
        side_flag(rebasing, true) == side_flag(!rebasing, false),
{
    reveal_strlit("--theirs");
    reveal_strlit("--ours");
    assert("--theirs"@[2] == 't');
    assert("--ours"@[2] == 'o');
}

/// A file of the repository is checked.
pub open spec fn checks(tree: FileTree, rel: Seq<Seq<char>>) -> bool {
    exists|i: int|
        0 <= i < tree.selection@.len() && (#[trigger] tree.selection@[i])@ == tree.workdir->0@ + rel
}

/// The index once some steps have run: a file put in is there, a file taken out
/// is not, and no other step touches it.
pub open spec fn index_after(index: Set<Seq<Seq<char>>>, steps: Seq<GitStep>) -> Set<Seq<Seq<char>>>
    decreases steps.len(),
{
    if steps.len() == 0 {
        index
    } else {
        let before = index_after(index, steps.drop_last());
        match steps.last() {
            GitStep::Stage(path) => before.insert(path@),
            GitStep::Unstage(path) => before.remove(path@),
            _ => before,
        }
    }
}

proof fn lemma_rels_of(selection: Seq<TreePath>, workdir: Seq<Seq<char>>)
    ensures
        forall|rel: Seq<Seq<char>>| #[trigger]
            rels_of(selection, workdir).contains(rel) <==> exists|i: int|
                0 <= i < selection.len() && (#[trigger] selection[i])@ == workdir + rel,
    decreases selection.len(),
{
    if selection.len() > 0 {
        let rest = selection.drop_last();
        let path = selection.last()@;
        let before = rels_of(rest, workdir);
        let all = rels_of(selection, workdir);
        lemma_rels_of(rest, workdir);
        let own = path.subrange(workdir.len() as int, path.len() as int);
        assert forall|rel: Seq<Seq<char>>| #[trigger] all.contains(rel) <==> exists|i: int|
            0 <= i < selection.len() && (#[trigger] selection[i])@ == workdir + rel by {
            if all.contains(rel) {
                let at = choose|at: int| 0 <= at < all.len() && all[at] == rel;
                if at < before.len() {
                    assert(before[at] == rel);
                    assert(before.contains(rel));
                    let i = choose|i: int|
                        0 <= i < rest.len() && (#[trigger] rest[i])@ == workdir + rel;
                    assert(selection[i]@ == workdir + rel);
                } else {
                    assert(path =~= workdir + rel);
                    assert(selection[selection.len() - 1]@ == workdir + rel);
                }
            }
            if exists|i: int|
                0 <= i < selection.len() && (#[trigger] selection[i])@ == workdir + rel {
                let i = choose|i: int|
                    0 <= i < selection.len() && (#[trigger] selection[i])@ == workdir + rel;
                if i < rest.len() {
                    assert(rest[i]@ == workdir + rel);
                    assert(before.contains(rel));
                    let at = choose|at: int| 0 <= at < before.len() && before[at] == rel;
                    assert(all[at] == rel);
                } else {
                    assert(own =~= rel);
                    assert(path.subrange(0, workdir.len() as int) =~= workdir);
                    assert(lies_in(path, workdir));
                    assert(all[all.len() - 1] == rel);
                }
            }
        }
    }
}

/// Steps that put these paths in the index and do nothing else to it.
proof fn lemma_index_staged(
    index: Set<Seq<Seq<char>>>,
    steps: Seq<GitStep>,
    from: int,
    rels: Seq<Seq<Seq<char>>>,
)
    requires
        0 <= from,
        steps.len() == from + rels.len(),
        forall|i: int| 0 <= i < from ==> (#[trigger] steps[i]) is Git,
        forall|i: int|
            from <= i < steps.len() ==> (#[trigger] steps[i])@ == StepModel::Stage(rels[i - from]),
    ensures
        forall|rel: Seq<Seq<char>>| #[trigger]
            index_after(index, steps).contains(rel) <==> index.contains(rel) || rels.contains(rel),
    decreases steps.len(),
{
    if steps.len() > 0 {
        let rest = steps.drop_last();
        if rels.len() == 0 {
            assert forall|i: int| 0 <= i < from - 1 implies (#[trigger] rest[i]) is Git by {
                assert(steps[i] is Git);
            }
            lemma_index_staged(index, rest, from - 1, rels);
            assert(steps[steps.len() - 1] is Git);
            assert(index_after(index, steps) == index_after(index, rest));
        } else {
            let fewer = rels.drop_last();
            assert forall|i: int| from <= i < rest.len() implies (#[trigger] rest[i])@
                == StepModel::Stage(fewer[i - from]) by {
                assert(steps[i]@ == StepModel::Stage(rels[i - from]));
            }
            assert forall|i: int| 0 <= i < from implies (#[trigger] rest[i]) is Git by {
                assert(steps[i] is Git);
            }
            lemma_index_staged(index, rest, from, fewer);
            assert(steps[steps.len() - 1]@ == StepModel::Stage(rels.last()));
            assert forall|rel: Seq<Seq<char>>| #[trigger] index_after(index, steps).contains(
                rel,
            ) <==> index.contains(rel) || rels.contains(rel) by {
                lemma_drop_last_contains(rels, rel);
                assert(index_after(index, rest).contains(rel) <==> index.contains(rel)
                    || fewer.contains(rel));
            }
        }
    }
}

proof fn lemma_drop_last_contains(rels: Seq<Seq<Seq<char>>>, rel: Seq<Seq<char>>)
    requires
        rels.len() > 0,
    ensures
        rels.contains(rel) == (rels.drop_last().contains(rel) || rel == rels.last()),
{
    let fewer = rels.drop_last();
    if rels.contains(rel) {
        let at = choose|at: int| 0 <= at < rels.len() && rels[at] == rel;
        if at < fewer.len() {
            assert(fewer[at] == rel);
        }
    }
    if fewer.contains(rel) {
        let at = choose|at: int| 0 <= at < fewer.len() && fewer[at] == rel;
        assert(rels[at] == rel);
    }
    if rel == rels.last() {
        assert(rels[rels.len() - 1] == rel);
    }
}

proof fn lemma_index_unstaged(
    index: Set<Seq<Seq<char>>>,
    steps: Seq<GitStep>,
    rels: Seq<Seq<Seq<char>>>,
)
    requires
        steps.len() == rels.len(),
        forall|i: int|
            0 <= i < steps.len() ==> (#[trigger] steps[i])@ == StepModel::Unstage(rels[i]),
    ensures
        forall|rel: Seq<Seq<char>>| #[trigger]
            index_after(index, steps).contains(rel) <==> index.contains(rel) && !rels.contains(rel),
    decreases steps.len(),
{
    if steps.len() > 0 {
        let rest = steps.drop_last();
        let fewer = rels.drop_last();
        assert forall|i: int| 0 <= i < rest.len() implies (#[trigger] rest[i])@
            == StepModel::Unstage(fewer[i]) by {
            assert(steps[i]@ == StepModel::Unstage(rels[i]));
        }
        lemma_index_unstaged(index, rest, fewer);
        assert(steps[steps.len() - 1]@ == StepModel::Unstage(rels.last()));
        assert forall|rel: Seq<Seq<char>>| #[trigger] index_after(index, steps).contains(
            rel,
        ) <==> index.contains(rel) && !rels.contains(rel) by {
            lemma_drop_last_contains(rels, rel);
            assert(index_after(index, rest).contains(rel) <==> index.contains(rel)
                && !fewer.contains(rel));
        }
    }
}

/// What a bulk move does to the index: staging, marking resolved and resolving
/// with either side put every checked file of the repository in it, unstaging
/// takes every one of them out, and no other file's place changes.
pub proof fn a_bulk_move_puts_the_checked_files_where_it_says(
    tree: FileTree,
    op: BulkOp,
    rebasing: bool,
    entries: Seq<Vec<TreePath>>,
    steps: Seq<GitStep>,
    index: Set<Seq<Seq<char>>>,
    rel: Seq<Seq<char>>,
)
    requires
        plans(steps, tree, op, rebasing, entries),
    ensures
        op == BulkOp::Stage || op == BulkOp::MarkResolved || op == BulkOp::KeepYours || op
            == BulkOp::TakeRemote ==> (index_after(index, steps).contains(rel) <==> index.contains(
            rel,
        ) || checks(tree, rel)),
        op == BulkOp::Unstage ==> (index_after(index, steps).contains(rel) <==> index.contains(rel)
            && !checks(tree, rel)),
        op == BulkOp::Stage || op == BulkOp::MarkResolved ==> forall|i: int|
            0 <= i < steps.len() ==> (#[trigger] steps[i]) is Stage,
        op == BulkOp::Unstage ==> forall|i: int|
            0 <= i < steps.len() ==> (#[trigger] steps[i]) is Unstage,
{
    let dir = tree.workdir->0@;
    let rels = rels_of(tree.selection@, dir);
    let model = planned(op, dir, rels, rebasing, entries);
    lemma_rels_of(tree.selection@, dir);
    assert(rels.contains(rel) <==> checks(tree, rel));
    assert(steps.len() == steps_view(steps).len());
    assert forall|i: int| 0 <= i < steps.len() implies (#[trigger] steps[i])@ == model[i] by {
        assert(steps_view(steps)[i] == steps[i]@);
    }
    if op == BulkOp::Stage || op == BulkOp::MarkResolved {
        lemma_index_staged(index, steps, 0, rels);
    } else if op == BulkOp::KeepYours || op == BulkOp::TakeRemote {
        assert(steps[0]@ == model[0]);
        lemma_index_staged(index, steps, 1, rels);
    } else if op == BulkOp::Unstage {
        lemma_index_unstaged(index, steps, rels);
    }
}

/// Staging files that are not in the index and then unstaging them leaves it as
/// it was.
pub proof fn unstaging_undoes_staging(
    tree: FileTree,
    rebasing: bool,
    entries: Seq<Vec<TreePath>>,
    stage: Seq<GitStep>,
    unstage: Seq<GitStep>,
    index: Set<Seq<Seq<char>>>,
)
    requires
        plans(stage, tree, BulkOp::Stage, rebasing, entries),
        plans(unstage, tree, BulkOp::Unstage, rebasing, entries),
        forall|rel: Seq<Seq<char>>| #[trigger] checks(tree, rel) ==> !index.contains(rel),
    ensures
        index_after(index_after(index, stage), unstage) == index,
{
    let staged = index_after(index, stage);
    let back = index_after(staged, unstage);
    assert forall|rel: Seq<Seq<char>>| back.contains(rel) == index.contains(rel) by {
        a_bulk_move_puts_the_checked_files_where_it_says(
            tree,
            BulkOp::Stage,
            rebasing,
            entries,
            stage,
            index,
            rel,
        );
        a_bulk_move_puts_the_checked_files_where_it_says(
            tree,
            BulkOp::Unstage,
            rebasing,
            entries,
            unstage,
            staged,
            rel,
        );
    }
    assert(back =~= index);
}

/// A word is the path of some checked file.
pub open spec fn names_a_checked(word: Seq<char>, tree: FileTree) -> bool {
    exists|rel: Seq<Seq<char>>| #[trigger] checks(tree, rel) && word == written(rel)
}

/// Some word from `from` on is the path of this file.
pub open spec fn is_named(args: Seq<String>, from: int, rel: Seq<Seq<char>>) -> bool {
    exists|i: int| from <= i < args.len() && (#[trigger] args[i])@ == written(rel)
}

/// The words of a git command from `from` on name exactly the checked files.
pub open spec fn names_the_checked(args: Seq<String>, from: int, tree: FileTree) -> bool {
    &&& forall|i: int| from <= i < args.len() ==> names_a_checked((#[trigger] args[i])@, tree)
    &&& forall|rel: Seq<Seq<char>>| #[trigger] checks(tree, rel) ==> is_named(args, from, rel)
}

proof fn lemma_names_the_checked(args: Seq<String>, from: int, tree: FileTree)
    requires
        0 <= from,
        args.len() == from + rels_of(tree.selection@, tree.workdir->0@).len(),
        forall|i: int|
            from <= i < args.len() ==> (#[trigger] args[i])@ == written(
                rels_of(tree.selection@, tree.workdir->0@)[i - from],
            ),
    ensures
        names_the_checked(args, from, tree),
{
    let rels = rels_of(tree.selection@, tree.workdir->0@);
    lemma_rels_of(tree.selection@, tree.workdir->0@);
    assert forall|i: int| from <= i < args.len() implies names_a_checked(
        (#[trigger] args[i])@,
        tree,
    ) by {
        assert(rels.contains(rels[i - from]));
        assert(checks(tree, rels[i - from]));
    }
    assert forall|rel: Seq<Seq<char>>| #[trigger] checks(tree, rel) implies is_named(
        args,
        from,
        rel,
    ) by {
        assert(rels.contains(rel));
        let k = choose|k: int| 0 <= k < rels.len() && rels[k] == rel;
        assert(args[from + k]@ == written(rel));
    }
}

/// Resolving a conflict checks the checked files out of the side that the user
/// means, before they are marked resolved: in a merge "ours" is the user's side,
/// and a rebase, which replays the user's commits onto the remote tip, swaps
/// the two.
pub proof fn resolving_takes_the_side_it_names(
    tree: FileTree,
    op: BulkOp,
    rebasing: bool,
    entries: Seq<Vec<TreePath>>,
    steps: Seq<GitStep>,
)
    requires
        op == BulkOp::KeepYours || op == BulkOp::TakeRemote,
        plans(steps, tree, op, rebasing, entries),
    ensures
        steps.len() > 0,
        steps[0] matches GitStep::Git(args) && {
            &&& args@.len() >= 5
            &&& args@[0]@ == "-C"@ && args@[1]@ == written(tree.workdir->0@)
            &&& args@[2]@ == "checkout"@
            &&& args@[4]@ == "--"@
            &&& op == BulkOp::KeepYours && !rebasing ==> args@[3]@ == "--ours"@
            &&& op == BulkOp::KeepYours && rebasing ==> args@[3]@ == "--theirs"@
            &&& op == BulkOp::TakeRemote && !rebasing ==> args@[3]@ == "--theirs"@
            &&& op == BulkOp::TakeRemote && rebasing ==> args@[3]@ == "--ours"@
            &&& names_the_checked(args@, 5, tree)
        },
{
    let dir = tree.workdir->0@;
    let rels = rels_of(tree.selection@, dir);
    let model = planned(op, dir, rels, rebasing, entries);
    assert(steps.len() == steps_view(steps).len());
    assert(steps_view(steps)[0] == steps[0]@);
    assert(steps[0]@ == model[0]);
    let args = steps[0]->Git_0@;
    assert(texts(args).len() == args.len());
    assert forall|i: int| 0 <= i < args.len() implies (#[trigger] args[i])@ == texts(args)[i] by {}
    assert(args[3]@ == texts(args)[3]);
    assert forall|i: int| 5 <= i < args.len() implies (#[trigger] args[i])@ == written(
        rels[i - 5],
    ) by {
        assert(texts(args)[i] == written_all(rels)[i - 5]);
    }
    lemma_names_the_checked(args, 5, tree);
}

/// Stashing sets exactly the checked files aside in one entry, untracked ones
/// too.
pub proof fn stashing_sets_the_checked_files_aside(
    tree: FileTree,
    rebasing: bool,
    entries: Seq<Vec<TreePath>>,
    steps: Seq<GitStep>,
)
    requires
        plans(steps, tree, BulkOp::Stash, rebasing, entries),
    ensures
        steps.len() == 1,
        steps[0] matches GitStep::Git(args) && {
            &&& args@.len() >= 8
            &&& args@[0]@ == "-C"@ && args@[1]@ == written(tree.workdir->0@)
            &&& args@[2]@ == "stash"@ && args@[3]@ == "push"@
            &&& args@[4]@ == "--include-untracked"@
            &&& args@[7]@ == "--"@
            &&& names_the_checked(args@, 8, tree)
        },
{
    let dir = tree.workdir->0@;
    let rels = rels_of(tree.selection@, dir);
    let model = planned(BulkOp::Stash, dir, rels, rebasing, entries);
    assert(steps.len() == steps_view(steps).len());
    assert(steps_view(steps)[0] == steps[0]@);
    assert(steps[0]@ == model[0]);
    let args = steps[0]->Git_0@;
    assert(texts(args).len() == args.len());
    assert forall|i: int| 0 <= i < args.len() implies (#[trigger] args[i])@ == texts(args)[i] by {}
    assert forall|i: int| 8 <= i < args.len() implies (#[trigger] args[i])@ == written(
        rels[i - 8],
    ) by {
        assert(texts(args)[i] == written_all(rels)[i - 8]);
    }
    lemma_names_the_checked(args, 8, tree);
}

proof fn lemma_entry_with(entries: Seq<Vec<TreePath>>, path: Seq<Seq<char>>)
    ensures
        match entry_with(entries, path) {
            Some(at) => {
                &&& 0 <= at < entries.len()
                &&& lists(entries[at]@, path)
                &&& forall|k: int| 0 <= k < at ==> !lists((#[trigger] entries[k])@, path)
            },
            None => forall|k: int| 0 <= k < entries.len() ==> !lists((#[trigger] entries[k])@, path),
        },
    decreases entries.len(),
{
    if entries.len() > 0 && !lists(entries[0]@, path) {
        let rest = entries.subrange(1, entries.len() as int);
        lemma_entry_with(rest, path);
        match entry_with(rest, path) {
            Some(at) => {
                assert(rest[at] == entries[at + 1]);
                assert forall|k: int| 0 <= k < at + 1 implies !lists(
                    (#[trigger] entries[k])@,
                    path,
                ) by {
                    if k > 0 {
                        assert(rest[k - 1] == entries[k]);
                    }
                }
            },
            None => {
                assert forall|k: int| 0 <= k < entries.len() implies !lists(
                    (#[trigger] entries[k])@,
                    path,
                ) by {
                    if k > 0 {
                        assert(rest[k - 1] == entries[k]);
                    }
                }
            },
        }
    }
}

proof fn lemma_unstash_all(entries: Seq<Vec<TreePath>>, rels: Seq<Seq<Seq<char>>>)
    ensures
        forall|i: int|
            0 <= i < unstash_all(entries, rels).len() ==> ((#[trigger] unstash_all(
                entries,
                rels,
            )[i]) matches StepModel::UnstashFile(at, rel) && rels.contains(rel) && entry_with(
                entries,
                rel,
            ) == Some(at)),
        forall|rel: Seq<Seq<char>>| #[trigger]
            rels.contains(rel) && entry_with(entries, rel) is Some ==> unstash_all(
                entries,
                rels,
            ).contains(StepModel::UnstashFile(entry_with(entries, rel)->0, rel)),
    decreases rels.len(),
{
    if rels.len() > 0 {
        let fewer = rels.drop_last();
        let before = unstash_all(entries, fewer);
        let all = unstash_all(entries, rels);
        lemma_unstash_all(entries, fewer);
        assert forall|i: int| 0 <= i < all.len() implies ((
        #[trigger] all[i]) matches StepModel::UnstashFile(at, rel) && rels.contains(rel)
            && entry_with(entries, rel) == Some(at)) by {
            if i < before.len() {
                assert(all[i] == before[i]);
                if let StepModel::UnstashFile(_, rel) = all[i] {
                    lemma_drop_last_contains(rels, rel);
                }
            } else {
                lemma_drop_last_contains(rels, rels.last());
            }
        }
        assert forall|rel: Seq<Seq<char>>| #[trigger]
            rels.contains(rel) && entry_with(entries, rel) is Some implies all.contains(
            StepModel::UnstashFile(entry_with(entries, rel)->0, rel),
        ) by {
            let step = StepModel::UnstashFile(entry_with(entries, rel)->0, rel);
            lemma_drop_last_contains(rels, rel);
            if fewer.contains(rel) {
                let i = choose|i: int| 0 <= i < before.len() && before[i] == step;
                assert(all[i] == step);
            } else {
                assert(all[all.len() - 1] == step);
            }
        }
    }
}

/// Unstashing restores a checked file from the newest stash entry that touches
/// it, and every checked file that some entry touches; nothing else moves.
pub proof fn unstashing_restores_the_newest(
    tree: FileTree,
    rebasing: bool,
    entries: Seq<Vec<TreePath>>,
    steps: Seq<GitStep>,
)
    requires
        plans(steps, tree, BulkOp::Unstash, rebasing, entries),
    ensures
        forall|i: int|
            0 <= i < steps.len() ==> ((#[trigger] steps[i]) matches GitStep::UnstashFile {
                index,
                path,
            } && checks(tree, path@) && index < entries.len() && lists(entries[index as int]@, path@)
                && forall|k: int| 0 <= k < index ==> !lists((#[trigger] entries[k])@, path@)),
        forall|rel: Seq<Seq<char>>, k: int|
            #![trigger checks(tree, rel), entries[k]]
            checks(tree, rel) && 0 <= k < entries.len() && lists(entries[k]@, rel) ==> exists|i: int|
                0 <= i < steps.len() && ((#[trigger] steps[i]) matches GitStep::UnstashFile {
                    index,
                    path,
                } && path@ == rel),
{
    let dir = tree.workdir->0@;
    let rels = rels_of(tree.selection@, dir);
    let model = unstash_all(entries, rels);
    lemma_rels_of(tree.selection@, dir);
    lemma_unstash_all(entries, rels);
    assert(steps.len() == steps_view(steps).len());
    assert forall|i: int| 0 <= i < steps.len() implies (#[trigger] steps[i])@ == model[i] by {
        assert(steps_view(steps)[i] == steps[i]@);
    }
    assert forall|i: int| 0 <= i < steps.len() implies ((
    #[trigger] steps[i]) matches GitStep::UnstashFile { index, path } && checks(tree, path@)
        && index < entries.len() && lists(entries[index as int]@, path@) && forall|k: int|
        0 <= k < index ==> !lists((#[trigger] entries[k])@, path@)) by {
        assert(steps[i]@ == model[i]);
        if let StepModel::UnstashFile(_, rel) = model[i] {
            lemma_entry_with(entries, rel);
            assert(rels.contains(rel));
        }
    }
    assert forall|rel: Seq<Seq<char>>, k: int|
        #![trigger checks(tree, rel), entries[k]]
        checks(tree, rel) && 0 <= k < entries.len() && lists(entries[k]@, rel) implies exists|i: int|
        0 <= i < steps.len() && ((#[trigger] steps[i]) matches GitStep::UnstashFile { index, path }
            && path@ == rel) by {
        lemma_entry_with(entries, rel);
        assert(rels.contains(rel));
        let step = StepModel::UnstashFile(entry_with(entries, rel)->0, rel);
        let i = choose|i: int| 0 <= i < model.len() && model[i] == step;
        assert(steps[i]@ == step);
    }
}

/// A row's staging switch moves its own file to the other side of the index, so
/// that throwing it twice leaves the index as it was.
pub proof fn the_staging_switch_moves_its_own_file(
    workdir: Seq<Seq<char>>,
    rel: Seq<Seq<char>>,
    index: Set<Seq<Seq<char>>>,
    step: GitStep,
    back: GitStep,
)
    requires
        switches(step, workdir, workdir + rel, index.contains(rel)),
        switches(back, workdir, workdir + rel, !index.contains(rel)),
    ensures
        index_after(index, seq![step]).contains(rel) == !index.contains(rel),
        forall|other: Seq<Seq<char>>|
            other != rel ==> #[trigger] index_after(index, seq![step]).contains(other)
                == index.contains(other),
        index_after(index_after(index, seq![step]), seq![back]) == index,
{
    let path = workdir + rel;
    assert(path.subrange(workdir.len() as int, path.len() as int) =~= rel);
    let one = index_after(index, seq![step]);
    assert(seq![step].drop_last() =~= Seq::<GitStep>::empty());
    assert(seq![back].drop_last() =~= Seq::<GitStep>::empty());
    assert(index_after(index, Seq::<GitStep>::empty()) == index);
    assert(index_after(one, Seq::<GitStep>::empty()) == one);
    assert(index_after(one, seq![back]) =~= index);
}

/// A bulk move that succeeded is followed to the view where its files now stand:
/// staged files to Staged, unstashed ones to Dirty. Every other one leaves the
/// view where it is.
pub proof fn a_move_toward_the_commit_is_followed(op: BulkOp, filter: Filter)
    ensures
        landing(BulkOp::Stage, filter) == Filter::Staged,
        landing(BulkOp::Unstash, filter) == Filter::Dirty,
        op != BulkOp::Stage && op != BulkOp::Unstash ==> landing(op, filter) == filter,
{
}

/// What the user is told names what was done: no two actions that succeed are
/// told alike, a failure names the action and the reason, and each is told in
/// its own words.
pub proof fn an_action_is_told_as_itself(op: BulkOp, result: Result<(), String>, out: Seq<char>)
    requires
        op_told(op, result, out),
    ensures
        result is Ok && op == BulkOp::Stage ==> out == "Staged"@,
        result is Ok && op == BulkOp::Unstage ==> out == "Unstaged"@,
        result is Ok && op == BulkOp::Stash ==> out == "Stashed"@,
        result is Ok && op == BulkOp::Unstash ==> crate::text::begins_with(out, "Unstashed"@),
        result is Ok && op == BulkOp::KeepYours ==> crate::text::holds_text(out, "your version"@),
        result is Ok && op == BulkOp::TakeRemote ==> crate::text::holds_text(
            out,
            "the remote version"@,
        ),
        result is Ok && op == BulkOp::MarkResolved ==> out == "Marked resolved"@,
        result matches Err(e) ==> crate::text::holds_text(out, " failed: "@ + e@) && {
            &&& op == BulkOp::Stage ==> crate::text::begins_with(out, "stage"@)
            &&& op == BulkOp::Unstage ==> crate::text::begins_with(out, "unstage"@)
            &&& op == BulkOp::Stash ==> crate::text::begins_with(out, "stash"@)
            &&& op == BulkOp::Unstash ==> crate::text::begins_with(out, "unstash"@)
            &&& op == BulkOp::KeepYours ==> crate::text::begins_with(out, "keep-yours"@)
            &&& op == BulkOp::TakeRemote ==> crate::text::begins_with(out, "take-remote"@)
            &&& op == BulkOp::MarkResolved ==> crate::text::begins_with(out, "mark-resolved"@)
        },
{
    match result {
        Ok(_) => {
            if op == BulkOp::Unstash {
                let all = "Unstashed — back in the working tree"@;
                assert("Unstashed"@.len() == 9 && all.len() >= 9 && all.subrange(0, 9)
                    =~= "Unstashed"@) by {
                    reveal_strlit("Unstashed — back in the working tree");
                    reveal_strlit("Unstashed");
                }
            }
            if op == BulkOp::KeepYours {
                let lead = "Resolved with "@;
                assert("Resolved with your version"@ =~= lead + "your version"@) by {
                    reveal_strlit("Resolved with your version");
                    reveal_strlit("Resolved with ");
                    reveal_strlit("your version");
                }
                crate::text::lemma_holds_end(lead, "your version"@);
            }
            if op == BulkOp::TakeRemote {
                let lead = "Resolved with "@;
                assert("Resolved with the remote version"@ =~= lead + "the remote version"@) by {
                    reveal_strlit("Resolved with the remote version");
                    reveal_strlit("Resolved with ");
                    reveal_strlit("the remote version");
                }
                crate::text::lemma_holds_end(lead, "the remote version"@);
            }
        },
        Err(e) => {
            let token = op_token(op);
            assert(out =~= token + (" failed: "@ + e@));
            crate::text::lemma_holds_end(token, " failed: "@ + e@);
            assert(out.subrange(0, token.len() as int) =~= token);
        },
    }
}

/// An action that succeeded is followed by a clear selection and a closed pane,
/// and leads to the view where its files are now: what was staged to the staged
/// ones, what was brought back to the changed ones. One that failed changes
/// nothing, so that it can be tried again.
pub proof fn a_failed_action_changes_nothing(
    before: FileTree,
    after: FileTree,
    op: BulkOp,
    succeeded: bool,
    out: Option<Move>,
)
    requires
        follows_up(before, after, op, succeeded, out),
    ensures
        !succeeded ==> after == before && out is None,
        succeeded ==> after.selection@.len() == 0,
        succeeded && op == BulkOp::Stage ==> after.filter == Filter::Staged,
        succeeded && op == BulkOp::Unstash ==> after.filter == Filter::Dirty,
        succeeded && op != BulkOp::Stage && op != BulkOp::Unstash ==> after.filter == before.filter,
        out is Some <==> after.filter != before.filter,
        out is Some ==> !after.searching && after.query@.len() == 0 && after.review is None,
        out is None ==> after.query == before.query && after.review == before.review,
        after.status == before.status,
{
}

} // verus!
