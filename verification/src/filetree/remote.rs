//! Meeting the remote: fetch, rebase, push, and what the user is told.

use vstd::prelude::*;
use crate::filetree::tree::FileTree;
use crate::text::{
    begins_with, concat2, concat3, decimal, decimal_of, holds_text, is_blank, lemma_blank,
    lemma_holds_end, lines, lines_of, texts, trim, trimmed,
};

verus! {

/// How long a fetch, rebase or push may run before it is called failed, in
/// seconds. A hung network step must not leave the sync row spinning for ever.
pub const GIT_NETWORK_TIMEOUT: u64 = 120;

/// How long a background fetch stays fresh, in seconds.
pub const FETCH_INTERVAL: u64 = 300;

/// How a git process ended.
#[derive(Debug, PartialEq, Eq)]
pub enum GitEnd {
    Succeeded,
    /// It failed, with this on its error stream.
    Failed(String),
    /// It could not be run.
    NotRun(String),
}

/// Something worth putting in a toast, where the step did not succeed.
pub open spec fn step_reason(end: Option<GitEnd>) -> Option<Seq<char>> {
    match end {
        Some(GitEnd::Succeeded) => None,
        Some(GitEnd::Failed(stderr)) => Some(
            if lines_of(stderr@).len() > 0 {
                lines_of(stderr@)[0]
            } else {
                "failed"@
            },
        ),
        Some(GitEnd::NotRun(e)) => Some(e@),
        None => Some("timed out after "@ + decimal_of(GIT_NETWORK_TIMEOUT as nat) + "s"@),
    }
}

/// Judge one git step; `None` is one that did not end in time. `Err` carries
/// something worth putting in a toast.
pub fn run_git_step(end: Option<GitEnd>) -> (out: Result<(), String>)
    ensures
        match out {
            Ok(()) => step_reason(end) is None,
            Err(reason) => step_reason(end) == Some(reason@),
        },
{
    match end {
        Some(GitEnd::Succeeded) => Ok(()),
        Some(GitEnd::Failed(stderr)) => {
            let all = lines(stderr.as_str());
            assert(texts(all@).len() == all@.len());
            if all.len() > 0 {
                assert(texts(all@)[0] == all@[0]@);
                Err(all[0].clone())
            } else {
                Err("failed".to_owned())
            }
        },
        Some(GitEnd::NotRun(e)) => Err(e),
        None => {
            let digits = decimal(GIT_NETWORK_TIMEOUT);
            Err(concat3("timed out after ", digits.as_str(), "s"))
        },
    }
}

/// How far a sync has come: fetch, rebase onto the remote tip, then quietly
/// the issues.
#[derive(Debug, Clone, Copy, PartialEq, Eq, Structural)]
pub enum SyncStep {
    Fetch,
    Rebase,
    FetchIssues,
    Reconcile,
    Done,
}

/// How a step of the sync came back.
#[derive(Debug, PartialEq, Eq)]
pub enum StepEnd {
    Done,
    Failed(String),
    /// Its task went away.
    Interrupted,
}

/// Why a step did not get done.
pub open spec fn end_reason(end: StepEnd) -> Option<Seq<char>> {
    match end {
        StepEnd::Done => None,
        StepEnd::Failed(reason) => Some(reason@),
        StepEnd::Interrupted => Some("interrupted"@),
    }
}

/// The step after one.
pub open spec fn step_after(step: SyncStep, done: bool) -> SyncStep {
    match step {
        SyncStep::Fetch => if done {
            SyncStep::Rebase
        } else {
            SyncStep::FetchIssues
        },
        SyncStep::Rebase => SyncStep::FetchIssues,
        SyncStep::FetchIssues => if done {
            SyncStep::Reconcile
        } else {
            SyncStep::Done
        },
        SyncStep::Reconcile => SyncStep::Done,
        SyncStep::Done => SyncStep::Done,
    }
}

/// What the user is told of a step. The issues' own fetch fails in silence: a
/// remote that has never seen an issue is the normal case.
pub open spec fn step_toast(step: SyncStep, end: StepEnd) -> Option<Seq<char>> {
    match end_reason(end) {
        None => None,
        Some(reason) => match step {
            SyncStep::Fetch => Some("fetch failed: "@ + reason),
            SyncStep::Rebase => Some("rebase failed: "@ + reason),
            _ => None,
        },
    }
}

/// A sync step came back: where to go on, and what to tell the user. A failed
/// fetch is never followed by the rebase; the issues are fetched either way.
pub fn sync_next(step: SyncStep, end: StepEnd) -> (out: (SyncStep, Option<String>))
    ensures
        out.0 == step_after(step, end is Done),
        crate::fleet::string_view(out.1) == step_toast(step, end),
{
    let (done, reason): (bool, String) = match end {
        StepEnd::Done => (true, String::new()),
        StepEnd::Failed(reason) => (false, reason),
        StepEnd::Interrupted => (false, "interrupted".to_owned()),
    };
    let next = match step {
        SyncStep::Fetch => {
            if done {
                SyncStep::Rebase
            } else {
                SyncStep::FetchIssues
            }
        },
        SyncStep::Rebase => SyncStep::FetchIssues,
        SyncStep::FetchIssues => {
            if done {
                SyncStep::Reconcile
            } else {
                SyncStep::Done
            }
        },
        SyncStep::Reconcile | SyncStep::Done => SyncStep::Done,
    };
    let toast = if done {
        None
    } else {
        match step {
            SyncStep::Fetch => Some(concat2("fetch failed: ", reason.as_str())),
            SyncStep::Rebase => Some(concat2("rebase failed: ", reason.as_str())),
            _ => None,
        }
    };
    (next, toast)
}

/// The step a sync is at after its first `ends.len()` steps came back so.
pub open spec fn sync_at(ends: Seq<bool>) -> SyncStep
    decreases ends.len(),
{
    if ends.len() == 0 {
        SyncStep::Fetch
    } else {
        step_after(sync_at(ends.drop_last()), ends.last())
    }
}

/// However its steps come back, a sync is done after four of them.
pub proof fn a_sync_ends(ends: Seq<bool>)
    requires
        ends.len() >= 4,
    ensures
        sync_at(ends) == SyncStep::Done,
    decreases ends.len(),
{
    if ends.len() > 4 {
        a_sync_ends(ends.drop_last());
    } else {
        let three = ends.drop_last();
        let two = three.drop_last();
        let one = two.drop_last();
        assert(one.drop_last().len() == 0);
        assert(sync_at(one.drop_last()) == SyncStep::Fetch);
        assert(sync_at(one) == step_after(SyncStep::Fetch, one.last()));
        assert(sync_at(two) == step_after(sync_at(one), two.last()));
        assert(sync_at(three) == step_after(sync_at(two), three.last()));
    }
}

/// The rebase runs only behind a fetch that succeeded.
pub proof fn a_rebase_follows_a_fetch(ends: Seq<bool>)
    requires
        sync_at(ends) == SyncStep::Rebase,
    ensures
        ends =~= seq![true],
{
    assert(ends.len() > 0);
    let before = ends.drop_last();
    assert(sync_at(before) == SyncStep::Fetch && ends.last());
    if before.len() > 0 {
        assert(sync_at(before) == step_after(sync_at(before.drop_last()), before.last()));
        assert(false);
    }
}

/// What the user is told of a push.
pub fn push_toast(end: StepEnd) -> (out: String)
    ensures
        push_told(end, out@),
{
    match end {
        StepEnd::Done => "Pushed".to_owned(),
        StepEnd::Failed(reason) => concat2("Push failed: ", reason.as_str()),
        StepEnd::Interrupted => concat2("Push failed: ", "interrupted"),
    }
}

/// What the user is told of a push.
pub open spec fn push_told(end: StepEnd, out: Seq<char>) -> bool {
    &&& out == match end_reason(end) {
        None => "Pushed"@,
        Some(reason) => "Push failed: "@ + reason,
    }
}

/// The first line that is not blank.
pub open spec fn first_words(lines: Seq<Seq<char>>) -> Option<Seq<char>>
    decreases lines.len(),
{
    if lines.len() == 0 {
        None
    } else if trimmed(lines[0]).len() > 0 {
        Some(lines[0])
    } else {
        first_words(lines.subrange(1, lines.len() as int))
    }
}

/// The first line that is not blank.
pub fn first_spoken(text: &str) -> (out: Option<String>)
    ensures
        crate::fleet::string_view(out) == first_words(lines_of(text@)),
{
    let all = lines(text);
    let ghost said = lines_of(text@);
    let mut i: usize = 0;
    assert(said.subrange(0, said.len() as int) =~= said);
    assert(texts(all@).len() == all@.len());
    while i < all.len()
        invariant
            texts(all@) == said,
            said.len() == all@.len(),
            said == lines_of(text@),
            i <= all@.len(),
            first_words(said) == first_words(said.subrange(i as int, said.len() as int)),
        decreases all@.len() - i,
    {
        let ghost rest = said.subrange(i as int, said.len() as int);
        assert(rest[0] == texts(all@)[i as int]);
        if !trim(all[i].as_str()).is_empty() {
            return Some(all[i].clone());
        }
        assert(rest.subrange(1, rest.len() as int) =~= said.subrange(i + 1, said.len() as int));
        i += 1;
    }
    None
}

/// What the user is told when a rebase was continued. A failure also means
/// "stopped at the next conflict": either way git's first words say what is
/// up.
pub fn continue_toast(end: GitEnd) -> (out: String)
    ensures
        out@ == match end {
            GitEnd::Succeeded => "Rebase complete"@,
            GitEnd::Failed(stderr) => "Rebase: "@ + match first_words(lines_of(stderr@)) {
                Some(line) => line,
                None => "stopped again"@,
            },
            GitEnd::NotRun(e) => "Rebase continue failed: "@ + e@,
        },
{
    match end {
        GitEnd::Succeeded => "Rebase complete".to_owned(),
        GitEnd::Failed(stderr) => match first_spoken(stderr.as_str()) {
            Some(line) => concat2("Rebase: ", line.as_str()),
            None => concat2("Rebase: ", "stopped again"),
        },
        GitEnd::NotRun(e) => concat2("Rebase continue failed: ", e.as_str()),
    }
}

/// Whether a status refresh carries a background fetch: never in someone
/// else's checkout or without a repository, and throttled hard. `since` is how
/// long ago the last one started, in seconds.
pub fn fetch_due(tree: &FileTree, since: Option<u64>) -> (r: bool)
    ensures
        is_due(*tree, since, r),
{
    if tree.read_only() || tree.workdir.is_none() {
        return false;
    }
    match since {
        Some(secs) => secs >= FETCH_INTERVAL,
        None => true,
    }
}

/// Whether a refresh carries a background fetch.
pub open spec fn is_due(tree: FileTree, since: Option<u64>, r: bool) -> bool {
    &&& r == (tree.watching is None && tree.workdir is Some && (since matches Some(secs) ==> secs
        >= FETCH_INTERVAL))
}

/// What the user is told of a branch switched or created.
pub fn branch_toast(name: &str, create: bool, result: &Result<(), String>) -> (out: String)
    ensures
        out@ == match *result {
            Ok(()) => if create {
                "Created and switched to "@ + name@
            } else {
                "Switched to "@ + name@
            },
            Err(e) => "Branch: "@ + e@,
        },
{
    match result {
        Ok(()) => {
            if create {
                concat2("Created and switched to ", name)
            } else {
                concat2("Switched to ", name)
            }
        },
        Err(e) => concat2("Branch: ", e.as_str()),
    }
}

/// A row of the branch dropdown.
#[derive(Debug, PartialEq, Eq)]
pub struct BranchRow {
    pub name: String,
    pub current: bool,
}

/// Every local branch, in order, with the current one marked.
pub fn populate_branch_menu(branches: &Vec<String>, current: &Option<String>) -> (rows: Vec<
    BranchRow,
>)
    ensures
        rows@.len() == branches@.len(),
        forall|i: int|
            0 <= i < rows@.len() ==> (#[trigger] rows@[i]).name@ == branches@[i]@
                && rows@[i].current == (current matches Some(name) && name@ == branches@[i]@),
{
    let mut rows: Vec<BranchRow> = Vec::new();
    let mut i: usize = 0;
    while i < branches.len()
        invariant
            i <= branches@.len(),
            rows@.len() == i,
            forall|j: int|
                0 <= j < i ==> (#[trigger] rows@[j]).name@ == branches@[j]@ && rows@[j].current == (
                current matches Some(name) && name@ == branches@[j]@),
        decreases branches@.len() - i,
    {
        let is_current = match current {
            Some(name) => *name == branches[i],
            None => false,
        };
        rows.push(BranchRow { name: branches[i].clone(), current: is_current });
        i += 1;
    }
    rows
}

/// A name for a new branch: what was entered, trimmed, unless that is blank.
pub fn new_branch_name(entered: &str) -> (out: Option<String>)
    ensures
        match out {
            Some(name) => trimmed(entered@).len() > 0 && name@ == trimmed(entered@),
            None => trimmed(entered@).len() == 0,
        },
{
    let name = trim(entered);
    if name.is_empty() {
        None
    } else {
        Some(name.to_owned())
    }
}

/// How a sync goes on: a fetch that failed is never followed by the rebase; the
/// issues are fetched whatever became of the branch, and reconciled only behind
/// a fetch of theirs that succeeded.
pub proof fn a_sync_goes_on_as_far_as_it_can(done: bool)
    ensures
        step_after(SyncStep::Fetch, true) == SyncStep::Rebase,
        step_after(SyncStep::Fetch, false) == SyncStep::FetchIssues,
        step_after(SyncStep::Rebase, done) == SyncStep::FetchIssues,
        step_after(SyncStep::FetchIssues, true) == SyncStep::Reconcile,
        step_after(SyncStep::FetchIssues, false) == SyncStep::Done,
        step_after(SyncStep::Reconcile, done) == SyncStep::Done,
        step_after(SyncStep::Done, done) == SyncStep::Done,
{
}

/// A fetch, a rebase or a push that did not get done is told, with its reason,
/// and one that did is not called a failure. The issues fail in silence.
pub proof fn a_failed_sync_is_told(step: SyncStep, end: StepEnd, pushed: Seq<char>)
    requires
        push_told(end, pushed),
    ensures
        end is Done ==> step_toast(step, end) is None && pushed == "Pushed"@,
        step == SyncStep::Fetch || step == SyncStep::Rebase ==> (
        end matches StepEnd::Failed(reason) ==> (step_toast(step, end) matches Some(text)
            && holds_text(text, reason@))),
        end is Interrupted && (step == SyncStep::Fetch || step == SyncStep::Rebase) ==> step_toast(
            step,
            end,
        ) is Some,
        step == SyncStep::FetchIssues || step == SyncStep::Reconcile ==> step_toast(step, end) is None,
        end matches StepEnd::Failed(reason) ==> holds_text(pushed, reason@) && begins_with(
            pushed,
            "Push failed: "@,
        ),
        end is Interrupted ==> begins_with(pushed, "Push failed: "@),
{
    if let Some(reason) = end_reason(end) {
        lemma_holds_end("fetch failed: "@, reason);
        lemma_holds_end("rebase failed: "@, reason);
        lemma_holds_end("Push failed: "@, reason);
        assert(pushed.subrange(0, "Push failed: "@.len() as int) =~= "Push failed: "@);
    }
}

/// A git step is called done exactly where git succeeded; what it said, or that
/// it could not be run or took too long, is the reason otherwise.
pub proof fn a_step_is_done_where_git_succeeded(end: Option<GitEnd>)
    ensures
        step_reason(end) is None <==> end == Some(GitEnd::Succeeded),
        end matches Some(GitEnd::NotRun(e)) ==> step_reason(end) == Some(e@),
        end matches Some(GitEnd::Failed(stderr)) ==> (lines_of(stderr@).len() > 0 ==> step_reason(end)
            == Some(lines_of(stderr@)[0])),
{
}

/// A background fetch runs only in the user's own repository, the first time and
/// then no more often than the interval.
pub proof fn a_background_fetch_is_throttled(tree: FileTree, since: Option<u64>, r: bool)
    requires
        is_due(tree, since, r),
    ensures
        tree.watching is Some ==> !r,
        tree.workdir is None ==> !r,
        since matches Some(secs) && secs < FETCH_INTERVAL ==> !r,
        tree.watching is None && tree.workdir is Some && since is None ==> r,
        tree.watching is None && tree.workdir is Some && (since matches Some(secs) && secs
            >= FETCH_INTERVAL) ==> r,
{
}

/// Git's first words are the first of its lines that say anything.
pub proof fn first_words_are_the_first(lines: Seq<Seq<char>>)
    ensures
        first_words(lines) is None <==> forall|i: int|
            0 <= i < lines.len() ==> is_blank(#[trigger] lines[i]),
        first_words(lines) matches Some(line) ==> exists|i: int|
            0 <= i < lines.len() && (#[trigger] lines[i]) == line && !is_blank(line) && forall|j: int|
                0 <= j < i ==> is_blank(#[trigger] lines[j]),
    decreases lines.len(),
{
    if lines.len() > 0 {
        lemma_blank(lines[0]);
        let rest = lines.subrange(1, lines.len() as int);
        first_words_are_the_first(rest);
        if is_blank(lines[0]) {
            if let Some(line) = first_words(rest) {
                let i = choose|i: int|
                    0 <= i < rest.len() && (#[trigger] rest[i]) == line && !is_blank(line)
                        && forall|j: int| 0 <= j < i ==> is_blank(#[trigger] rest[j]);
                assert(lines[i + 1] == line);
                assert forall|j: int| 0 <= j < i + 1 implies is_blank(#[trigger] lines[j]) by {
                    if j > 0 {
                        assert(rest[j - 1] == lines[j]);
                    }
                }
            } else {
                assert forall|i: int| 0 <= i < lines.len() implies is_blank(#[trigger] lines[i]) by {
                    if i > 0 {
                        assert(rest[i - 1] == lines[i]);
                    }
                }
            }
        } else {
            assert(first_words(lines) == Some(lines[0]));
        }
    }
}

} // verus!
