//! One-shot flows of the tree pane: what they ask, and what they say after.

use vstd::prelude::*;
use crate::filetree::bulk::rel_path;
use crate::filetree::tree::{FileTree, PaneKind, ReviewAim};
use crate::path::{shown_name, written, TreePath};
use crate::text::{
    begins_with, concat2, concat3, decimal, decimal_of, lemma_decimal_digits, lines, lines_of,
    starts_with, texts,
};

verus! {

/// A commit time as a row wants it.
pub open spec fn age_shown(elapsed: int) -> Seq<char> {
    if elapsed <= 59 {
        "now"@
    } else if elapsed <= 3_599 {
        decimal_of((elapsed / 60) as nat) + "m"@
    } else if elapsed <= 86_399 {
        decimal_of((elapsed / 3_600) as nat) + "h"@
    } else if elapsed <= 2_591_999 {
        decimal_of((elapsed / 86_400) as nat) + "d"@
    } else {
        decimal_of((elapsed / 604_800) as nat) + "w"@
    }
}

/// The seconds from one time to another, held within the numbers of a clock.
pub open spec fn elapsed_between(from: i64, to: i64) -> int {
    if to - from > i64::MAX {
        i64::MAX as int
    } else if to - from < i64::MIN {
        i64::MIN as int
    } else {
        to - from
    }
}

/// A commit time as a row wants it: coarse, short, and never a timestamp the
/// reader has to subtract from today's date. A clock ahead of the commit's
/// reads as "now" rather than as a negative age.
pub fn relative_age(now: i64, unix_seconds: i64) -> (out: String)
    ensures
        out@ == age_shown(elapsed_between(unix_seconds, now)),
{
    let apart: i128 = now as i128 - unix_seconds as i128;
    if apart <= 59 {
        return "now".to_owned();
    }
    let elapsed: u64 = if apart > i64::MAX as i128 {
        i64::MAX as u64
    } else {
        apart as u64
    };
    let (count, unit): (u64, &str) = if elapsed <= 3_599 {
        (elapsed / 60, "m")
    } else if elapsed <= 86_399 {
        (elapsed / 3_600, "h")
    } else if elapsed <= 2_591_999 {
        (elapsed / 86_400, "d")
    } else {
        (elapsed / 604_800, "w")
    };
    let digits = decimal(count);
    concat2(digits.as_str(), unit)
}

/// A refusal names the environment whose checkout is on screen.
pub open spec fn refusal_shown(env: Seq<char>) -> Seq<char> {
    "Read-only: "@ + env
        + " is another environment's checkout. Review its work with Open Review in the console, or take over its chat."@
}

/// What a refused file operation is answered.
pub open spec fn denial_shown(tree: FileTree) -> Seq<char> {
    match tree.watching {
        Some(target) => refusal_shown(target.0@),
        None => "Read-only until the project's environment is running — only devcontainer setup and workspace dotfiles are editable"@,
    }
}

/// How far an action that writes gets.
#[derive(Debug, PartialEq, Eq)]
pub enum Flow<T> {
    /// The checkout is someone else's: nothing is done, and the user is told
    /// so.
    Refused(String),
    /// There is nothing to act on.
    Nothing,
    /// Go on with this.
    Open(T),
}

/// An action that writes is refused in someone else's checkout, naming the
/// environment; in the user's own it goes on where `ready` holds.
pub open spec fn guarded<T>(flow: Flow<T>, tree: FileTree, ready: bool) -> bool {
    match flow {
        Flow::Refused(text) => tree.watching matches Some(target) && text@ == refusal_shown(
            target.0@,
        ),
        Flow::Nothing => tree.watching is None && !ready,
        Flow::Open(_) => tree.watching is None && ready,
    }
}

/// Nothing is written in a watched checkout: whatever was asked for is refused,
/// and the refusal names the environment. In the user's own nothing is.
pub proof fn a_watched_checkout_refuses<T>(flow: Flow<T>, tree: FileTree, ready: bool)
    requires
        guarded(flow, tree, ready),
    ensures
        flow is Refused <==> tree.watching is Some,
        flow matches Flow::Refused(text) ==> tree.watching matches Some(target) && text@
            == refusal_shown(target.0@),
        flow is Open ==> ready,
{
}

/// What the git controls may do.
#[derive(Debug, Clone, Copy, PartialEq, Eq, Structural)]
pub struct ViewPermissions {
    /// Every control that writes is disabled, never hidden.
    pub frozen: bool,
    /// The branch dropdown answers.
    pub branch: bool,
}

/// What the git controls may do.
pub open spec fn permits(tree: FileTree, out: ViewPermissions) -> bool {
    &&& out.frozen == (tree.watching is Some)
    &&& out.branch == (tree.watching is None)
}

impl FileTree {
    /// The refusal a read-only view gives, naming the environment; `None`
    /// where the checkout is the user's own and nothing is refused.
    pub fn refuse_read_only(&self) -> (out: Option<String>)
        ensures
            match (out, self.watching) {
                (Some(text), Some(target)) => text@ == refusal_shown(target.0@),
                (None, None) => true,
                _ => false,
            },
    {
        match &self.watching {
            Some(target) => Some(
                concat3(
                    "Read-only: ",
                    target.0.as_str(),
                    " is another environment's checkout. Review its work with Open Review in the console, or take over its chat.",
                ),
            ),
            None => None,
        }
    }

    /// What a refused file operation is answered.
    pub fn op_denied(&self) -> (out: String)
        ensures
            out@ == denial_shown(*self),
    {
        match self.refuse_read_only() {
            Some(text) => text,
            None => "Read-only until the project's environment is running — only devcontainer setup and workspace dotfiles are editable".to_owned(),
        }
    }

    /// Everything that writes is disabled while watching; whatever the git
    /// state said is possible, this has the last word.
    pub fn apply_view_permissions(&self) -> (out: ViewPermissions)
        ensures
            permits(*self, out),
    {
        ViewPermissions { frozen: self.read_only(), branch: !self.read_only() }
    }
}

/// Where a renamed file ends up.
pub open spec fn renamed(from: Seq<Seq<char>>, to_name: Seq<char>, out: Option<TreePath>) -> bool {
    &&& match out {
        Some(to) => (from.len() > 1 || (from.len() == 1 && from[0].len() > 0)) && to@
            == from.drop_last().push(to_name),
        None => from.len() == 0 || (from.len() == 1 && from[0].len() == 0),
    }
}

/// Where a renamed file ends up; `None` where it has no folder to stay in.
pub fn rename_target(from: &TreePath, to_name: &str) -> (out: Option<TreePath>)
    ensures
        renamed(from@, to_name@, out),
{
    match from.parent() {
        Some(dir) => Some(dir.child(to_name)),
        None => None,
    }
}

/// A renamed file stays in its folder, and renaming it back names it again.
pub proof fn renaming_stays_in_the_folder(from: Seq<Seq<char>>, name: Seq<char>)
    requires
        from.len() > 0,
    ensures
        from.drop_last().push(name).drop_last() == from.drop_last(),
        from.drop_last().push(name).drop_last().push(from.last()) == from,
{
    assert(from.drop_last().push(name).drop_last() =~= from.drop_last());
    assert(from.drop_last().push(from.last()) =~= from);
}

/// What is being done to a file, where it can fail.
#[derive(Debug, Clone, Copy, PartialEq, Eq, Structural)]
pub enum FileOp {
    Create,
    Rename,
    Delete,
}

/// What the user is told of a file operation that failed.
pub fn file_op_toast(op: FileOp, path: &TreePath, error: &str) -> (out: String)
    ensures
        op_failed(op, path@, error@, out@),
{
    match op {
        FileOp::Create => {
            let name = path.show();
            let mut out = concat3("Could not create ", name.as_str(), ": ");
            out.append(error);
            out
        },
        FileOp::Rename => concat2("Rename failed: ", error),
        FileOp::Delete => concat2("Delete failed: ", error),
    }
}

/// A line where a conflict begins.
pub open spec fn is_marker(line: Seq<char>) -> bool {
    begins_with(line, "<<<<<<<"@)
}

/// The place of the first conflict marker.
pub open spec fn first_marker(lines: Seq<Seq<char>>) -> Option<int>
    decreases lines.len(),
{
    if lines.len() == 0 {
        None
    } else if is_marker(lines[0]) {
        Some(0)
    } else {
        match first_marker(lines.subrange(1, lines.len() as int)) {
            Some(i) => Some(i + 1),
            None => None,
        }
    }
}

/// Where to open a conflicted file: the line of its first conflict marker,
/// counted from one; `None` opens it at the top. A line past what an editor
/// can count opens at the top too.
pub fn open_conflict(text: &str) -> (line: Option<u32>)
    ensures
        line == match first_marker(lines_of(text@)) {
            Some(i) => if i < u32::MAX {
                Some((i + 1) as u32)
            } else {
                None
            },
            None => None,
        },
{
    let all = lines(text);
    let ghost said = lines_of(text@);
    let mut i: usize = 0;
    assert(said.subrange(0, said.len() as int) =~= said);
    assert(texts(all@).len() == all@.len());
    while i < all.len()
        invariant
            texts(all@) == said,
            said.len() == all@.len(),
            said == lines_of(text@),
            i <= all@.len(),
            first_marker(said) == match first_marker(
                said.subrange(i as int, said.len() as int),
            ) {
                Some(k) => Some(k + i),
                None => None,
            },
        decreases all@.len() - i,
    {
        let ghost rest = said.subrange(i as int, said.len() as int);
        assert(rest[0] == texts(all@)[i as int]);
        if starts_with(all[i].as_str(), "<<<<<<<") {
            if i < u32::MAX as usize {
                return Some(i as u32 + 1);
            }
            return None;
        }
        assert(rest.subrange(1, rest.len() as int) =~= said.subrange(i + 1, said.len() as int));
        i += 1;
    }
    None
}

/// A pane that asks before it acts.
#[derive(Debug, PartialEq, Eq)]
pub struct AskPane {
    pub title: String,
    pub body: String,
}

impl FileTree {
    /// Whether an action on the repository goes on, and where it lies.
    pub fn git_flow(&self) -> (out: Flow<TreePath>)
        ensures
            guarded(out, *self, self.workdir is Some),
            out matches Flow::Open(dir) ==> dir@ == self.workdir->0@,
    {
        if let Some(text) = self.refuse_read_only() {
            return Flow::Refused(text);
        }
        match &self.workdir {
            Some(dir) => Flow::Open(dir.clone()),
            None => Flow::Nothing,
        }
    }

    /// Discarding is destructive, so it confirms, in the panel.
    pub fn discard_intervention(&mut self, file: &TreePath) -> (out: Flow<AskPane>)
        ensures
            guarded(out, *old(self), true),
            out !is Open ==> *final(self) == *old(self),
            out matches Flow::Open(pane) ==> {
                &&& pane.title@ == "Discard — "@ + shown_name(file@)
                &&& pane.body@ == "Restore “"@ + shown_name(file@)
                    + "” to its last committed state? Unstaged changes are lost."@
                &&& *final(self) == (FileTree { pane: PaneKind::Adhoc, ..*old(self) })
            },
    {
        if let Some(text) = self.refuse_read_only() {
            return Flow::Refused(text);
        }
        self.open_intervention();
        let name = file.display_name();
        Flow::Open(
            AskPane {
                title: concat2("Discard — ", name.as_str()),
                body: concat3(
                    "Restore “",
                    name.as_str(),
                    "” to its last committed state? Unstaged changes are lost.",
                ),
            },
        )
    }

    /// Stash one file: the pane's title, and the message it starts with.
    pub fn stash_intervention(&mut self, file: &TreePath) -> (out: Flow<AskPane>)
        ensures
            guarded(out, *old(self), old(self).workdir is Some),
            out !is Open ==> *final(self) == *old(self),
            out matches Flow::Open(pane) ==> {
                &&& pane.title@ == "Stash — "@ + shown_name(file@)
                &&& pane.body@ == "taste-ide: "@ + written(rel_path(old(self).workdir, file@))
                &&& *final(self) == (FileTree { pane: PaneKind::Adhoc, ..*old(self) })
            },
    {
        match self.git_flow() {
            Flow::Refused(text) => Flow::Refused(text),
            Flow::Nothing => Flow::Nothing,
            Flow::Open(_) => {
                let name = file.display_name();
                let path = self.rel_of(file).show();
                self.open_intervention();
                Flow::Open(
                    AskPane {
                        title: concat2("Stash — ", name.as_str()),
                        body: concat2("taste-ide: ", path.as_str()),
                    },
                )
            },
        }
    }
}

/// What the user is told of a discard.
pub fn discard_toast(rel: &TreePath, result: &Result<(), String>) -> (out: String)
    ensures
        out@ == match *result {
            Ok(()) => "Discarded — "@ + written(rel@),
            Err(e) => "Discard failed: "@ + e@,
        },
{
    match result {
        Ok(()) => {
            let name = rel.show();
            concat2("Discarded — ", name.as_str())
        },
        Err(e) => concat2("Discard failed: ", e.as_str()),
    }
}

/// What the user is told of a stash.
pub fn stash_toast(result: &Result<(), String>) -> (out: String)
    ensures
        out@ == match *result {
            Ok(()) => "Stashed"@,
            Err(e) => "Stash failed: "@ + e@,
        },
{
    match result {
        Ok(()) => "Stashed".to_owned(),
        Err(e) => concat2("Stash failed: ", e.as_str()),
    }
}

/// What the user is told of a staging that failed.
pub fn staging_toast(rel: &TreePath, error: &str) -> (out: String)
    ensures
        out@ == "Staging "@ + written(rel@) + " failed: "@ + error@,
{
    let path = rel.show();
    let mut out = concat3("Staging ", path.as_str(), " failed: ");
    out.append(error);
    out
}

/// What the user is told of a repository made.
pub fn init_toast(result: &Result<(), String>) -> (out: String)
    ensures
        out@ == match *result {
            Ok(()) => "Repository initialized"@,
            Err(e) => "git init: "@ + e@,
        },
{
    match result {
        Ok(()) => "Repository initialized".to_owned(),
        Err(e) => concat2("git init: ", e.as_str()),
    }
}

/// What the search entry says while the index is built.
pub fn index_placeholder(count: usize) -> (out: String)
    ensures
        out@ == "Indexing… "@ + decimal_of(count as nat) + " files"@,
{
    let digits = decimal(count as u64);
    concat3("Indexing… ", digits.as_str(), " files")
}

/// A file a branch under review changed, and the badge of how.
#[derive(Debug, PartialEq, Eq)]
pub struct ChangedFile {
    pub path: TreePath,
    pub badge: String,
}

/// The row of such a file.
#[derive(Debug, PartialEq, Eq)]
pub struct ReviewRow {
    pub title: String,
    pub subtitle: String,
    pub badge: String,
}

/// What stands in place of the files where a branch has none.
#[derive(Debug, PartialEq, Eq)]
pub struct EmptyBranch {
    pub title: &'static str,
    pub subtitle: &'static str,
}

/// The files of a branch under review.
#[derive(Debug, PartialEq, Eq)]
pub struct ReviewList {
    /// The way out: leaves the review.
    pub close: &'static str,
    /// What is read against what.
    pub subtitle: String,
    pub close_tooltip: &'static str,
    pub row_tooltip: String,
    pub empty: Option<EmptyBranch>,
    pub rows: Vec<ReviewRow>,
}

/// What a branch without changes says.
pub fn empty_branch() -> (out: EmptyBranch)
    ensures
        out.title@ == "Nothing new on this branch"@,
        out.subtitle@ == "Everything on it is already in the current branch"@,
{
    EmptyBranch {
        title: "Nothing new on this branch",
        subtitle: "Everything on it is already in the current branch",
    }
}

/// What the list of a review shows.
pub open spec fn lists_review(out: ReviewList, aim: ReviewAim, changed: Seq<ChangedFile>) -> bool {
    &&& out.close@ == "Close Review"@
    &&& out.subtitle@ == aim.branch@ + " → "@ + aim.target@
    &&& out.close_tooltip@
        == "Back to the file tree, and the diffs this review opened close with it. The environment's review state is unchanged — merging and rejecting happen in the console, where the branch's mergedness is."@
    &&& out.row_tooltip@ == "Opens this file as "@ + aim.branch@ + " left it, against "@
        + aim.target@ + " — read-only, and not your working copy"@
    &&& out.empty is Some <==> changed.len() == 0
    &&& out.empty matches Some(words) ==> words.title@ == "Nothing new on this branch"@
        && words.subtitle@ == "Everything on it is already in the current branch"@
    &&& out.rows@.len() == changed.len()
    &&& forall|i: int|
        0 <= i < changed.len() ==> row_names(#[trigger] out.rows@[i], changed[i])
}

/// What the user is told of a file operation that failed.
pub open spec fn op_failed(op: FileOp, path: Seq<Seq<char>>, error: Seq<char>, out: Seq<char>) -> bool {
    &&& out == match op {
        FileOp::Create => "Could not create "@ + written(path) + ": "@ + error,
        FileOp::Rename => "Rename failed: "@ + error,
        FileOp::Delete => "Delete failed: "@ + error,
    }
}

/// A row names its file and wears its badge.
pub open spec fn row_names(row: ReviewRow, file: ChangedFile) -> bool {
    &&& row.title@ == shown_name(file.path@)
    &&& row.subtitle@ == written(file.path@)
    &&& row.badge@ == file.badge@
}

/// One environment branch's changed files, in the order git gave them, with
/// the way out above them, and words in their place where there are none.
pub fn build_review_file_list(aim: &ReviewAim, changed: &Vec<ChangedFile>) -> (out: ReviewList)
    ensures
        lists_review(out, *aim, changed@),
{
    let mut rows: Vec<ReviewRow> = Vec::new();
    let mut i: usize = 0;
    while i < changed.len()
        invariant
            i <= changed@.len(),
            rows@.len() == i,
            forall|j: int| 0 <= j < i ==> row_names(#[trigger] rows@[j], changed@[j]),
        decreases changed@.len() - i,
    {
        let file = &changed[i];
        rows.push(
            ReviewRow {
                title: file.path.display_name(),
                subtitle: file.path.show(),
                badge: file.badge.clone(),
            },
        );
        i += 1;
    }
    let mut row_tooltip = concat3("Opens this file as ", aim.branch.as_str(), " left it, against ");
    row_tooltip.append(aim.target.as_str());
    row_tooltip.append(" — read-only, and not your working copy");
    ReviewList {
        close: "Close Review",
        subtitle: concat3(aim.branch.as_str(), " → ", aim.target.as_str()),
        close_tooltip:
            "Back to the file tree, and the diffs this review opened close with it. The environment's review state is unchanged — merging and rejecting happen in the console, where the branch's mergedness is.",
        row_tooltip,
        empty: if changed.len() == 0 {
            Some(empty_branch())
        } else {
            None
        },
        rows,
    }
}

/// A suggested file's row: its path as seen from the root, drawn faint.
#[derive(Debug, PartialEq, Eq)]
pub struct GhostRow {
    pub path: String,
    pub tooltip: String,
}

impl FileTree {
    /// A suggestion: config the workspace could have, one activation away
    /// from existing.
    pub fn build_ghost_row(&self, path: &TreePath) -> (out: GhostRow)
        ensures
            ({
                let rel = if crate::path::lies_in(path@, self.shown_root()) {
                    path@.subrange(self.shown_root().len() as int, path@.len() as int)
                } else {
                    path@
                };
                out.path@ == written(rel) && out.tooltip@ == "Create "@ + written(rel)
            }),
    {
        let root = self.view_root();
        let shown = match path.strip_prefix(&root) {
            Some(rel) => rel.show(),
            None => path.show(),
        };
        GhostRow { tooltip: concat2("Create ", shown.as_str()), path: shown }
    }
}

/// The first conflict marker is a line that begins with one, and no line before
/// it does.
pub proof fn a_conflict_opens_at_its_first_marker(lines: Seq<Seq<char>>)
    ensures
        first_marker(lines) is None <==> forall|i: int|
            0 <= i < lines.len() ==> !begins_with(#[trigger] lines[i], "<<<<<<<"@),
        first_marker(lines) matches Some(at) ==> 0 <= at < lines.len() && begins_with(
            lines[at],
            "<<<<<<<"@,
        ) && forall|i: int| 0 <= i < at ==> !begins_with(#[trigger] lines[i], "<<<<<<<"@),
    decreases lines.len(),
{
    if lines.len() > 0 && !is_marker(lines[0]) {
        let rest = lines.subrange(1, lines.len() as int);
        a_conflict_opens_at_its_first_marker(rest);
        match first_marker(rest) {
            Some(at) => {
                assert(rest[at] == lines[at + 1]);
                assert forall|i: int| 0 <= i < at + 1 implies !begins_with(
                    #[trigger] lines[i],
                    "<<<<<<<"@,
                ) by {
                    if i > 0 {
                        assert(rest[i - 1] == lines[i]);
                    }
                }
            },
            None => {
                assert forall|i: int| 0 <= i < lines.len() implies !begins_with(
                    #[trigger] lines[i],
                    "<<<<<<<"@,
                ) by {
                    if i > 0 {
                        assert(rest[i - 1] == lines[i]);
                    }
                }
            },
        }
    }
}

/// The number and the unit that an age is given in are the elapsed time rounded
/// down: no age overstates it, and the next unit up would understate it.
pub proof fn an_age_is_rounded_down(elapsed: int)
    requires
        0 <= elapsed <= i64::MAX,
    ensures
        elapsed < 60 <==> age_shown(elapsed) == "now"@,
        60 <= elapsed < 3_600 ==> exists|n: nat|
            age_shown(elapsed) == #[trigger] decimal_of(n) + "m"@ && n * 60 <= elapsed < (n + 1) * 60,
        3_600 <= elapsed < 86_400 ==> exists|n: nat|
            age_shown(elapsed) == #[trigger] decimal_of(n) + "h"@ && n * 3_600 <= elapsed < (n + 1)
                * 3_600,
        86_400 <= elapsed < 2_592_000 ==> exists|n: nat|
            age_shown(elapsed) == #[trigger] decimal_of(n) + "d"@ && n * 86_400 <= elapsed < (n + 1)
                * 86_400,
        2_592_000 <= elapsed ==> exists|n: nat|
            age_shown(elapsed) == #[trigger] decimal_of(n) + "w"@ && n * 604_800 <= elapsed < (n + 1)
                * 604_800,
{
    reveal_strlit("now");
    reveal_strlit("m");
    reveal_strlit("h");
    reveal_strlit("d");
    reveal_strlit("w");
    let m = decimal_of((elapsed / 60) as nat);
    let h = decimal_of((elapsed / 3_600) as nat);
    let d = decimal_of((elapsed / 86_400) as nat);
    let w = decimal_of((elapsed / 604_800) as nat);
    if elapsed >= 60 {
        assert((m + "m"@).last() == 'm');
        assert((h + "h"@).last() == 'h');
        assert((d + "d"@).last() == 'd');
        assert("now"@.last() == 'w' && "now"@.len() == 3 && "now"@[0] == 'n');
        if elapsed >= 2_592_000 {
            lemma_decimal_digits((elapsed / 604_800) as nat);
            assert((w + "w"@)[0] == w[0]);
        }
    }
}

/// A watched checkout freezes every control that writes; the user's own freezes
/// none.
pub proof fn a_watched_checkout_is_frozen(tree: FileTree, out: ViewPermissions)
    requires
        permits(tree, out),
    ensures
        out.frozen <==> tree.watching is Some,
        out.branch <==> tree.watching is None,
{
}

/// A renamed file stays in its folder, under the name it was given.
pub proof fn a_renamed_file_stays_in_its_folder(
    dir: Seq<Seq<char>>,
    name: Seq<char>,
    to_name: Seq<char>,
    out: Option<TreePath>,
)
    requires
        name.len() > 0,
        renamed(dir.push(name), to_name, out),
    ensures
        out matches Some(to) && to@ == dir.push(to_name),
{
    assert(dir.push(name).drop_last() =~= dir);
}

/// A row of the review names its own file, where it lies and how it changed.
pub proof fn a_review_row_names_its_file(row: ReviewRow, file: ChangedFile)
    requires
        row_names(row, file),
    ensures
        row.title@ == shown_name(file.path@),
        row.subtitle@ == written(file.path@),
        row.badge@ == file.badge@,
        file.path@.len() > 0 && file.path@.last().len() > 0 && file.path@.last() != ".."@
            ==> row.title@ == file.path@.last(),
{
}

/// The time between two moments is their difference wherever a clock can say it,
/// and never of the wrong sign.
pub proof fn elapsed_time_is_the_difference(from: i64, to: i64)
    ensures
        i64::MIN <= to - from <= i64::MAX ==> elapsed_between(from, to) == to - from,
        to >= from ==> elapsed_between(from, to) >= 0,
        to < from ==> elapsed_between(from, to) < 0,
        i64::MIN <= elapsed_between(from, to) <= i64::MAX,
{
}

/// A refusal says whose checkout it is, where it is someone else's, and else
/// what the project still waits for.
pub proof fn a_refusal_says_why(tree: FileTree)
    ensures
        tree.watching is None ==> crate::text::begins_with(
            denial_shown(tree),
            "Read-only until the project's environment is running"@,
        ),
        tree.watching matches Some(target) ==> denial_shown(tree) == refusal_shown(target.0@),
{
    if tree.watching is None {
        let all = "Read-only until the project's environment is running — only devcontainer setup and workspace dotfiles are editable"@;
        let lead = "Read-only until the project's environment is running"@;
        assert(lead.len() <= all.len() && all.subrange(0, lead.len() as int) =~= lead) by {
            reveal_strlit(
                "Read-only until the project's environment is running — only devcontainer setup and workspace dotfiles are editable",
            );
            reveal_strlit("Read-only until the project's environment is running");
        }
    }
}

/// A review lists every file that changed and no other, in order, says what is
/// compared with what, and says that nothing is new exactly where nothing is.
pub proof fn a_review_lists_what_changed(
    out: ReviewList,
    aim: ReviewAim,
    changed: Seq<ChangedFile>,
    i: int,
)
    requires
        lists_review(out, aim, changed),
    ensures
        out.rows@.len() == changed.len(),
        0 <= i < changed.len() ==> out.rows@[i].subtitle@ == written(changed[i].path@)
            && out.rows@[i].badge@ == changed[i].badge@,
        out.empty is Some <==> changed.len() == 0,
        out.subtitle@ == aim.branch@ + " → "@ + aim.target@,
        crate::text::begins_with(out.row_tooltip@, "Opens this file as "@ + aim.branch@),
        out.close@ == "Close Review"@,
{
    let lead = "Opens this file as "@ + aim.branch@;
    assert(out.row_tooltip@.subrange(0, lead.len() as int) =~= lead);
    if 0 <= i < changed.len() {
        assert(row_names(out.rows@[i], changed[i]));
    }
}

/// A file operation that failed is told with its reason, and by what it was.
pub proof fn a_failed_operation_says_why(
    op: FileOp,
    path: Seq<Seq<char>>,
    error: Seq<char>,
    out: Seq<char>,
)
    requires
        op_failed(op, path, error, out),
    ensures
        crate::text::holds_text(out, error),
        op == FileOp::Create ==> crate::text::begins_with(out, "Could not create "@ + written(path)),
        op == FileOp::Rename ==> crate::text::begins_with(out, "Rename failed: "@),
        op == FileOp::Delete ==> crate::text::begins_with(out, "Delete failed: "@),
{
    match op {
        FileOp::Create => {
            let lead = "Could not create "@ + written(path);
            crate::text::lemma_holds_end(lead + ": "@, error);
            assert(out.subrange(0, lead.len() as int) =~= lead);
        },
        FileOp::Rename => {
            crate::text::lemma_holds_end("Rename failed: "@, error);
            assert(out.subrange(0, "Rename failed: "@.len() as int) =~= "Rename failed: "@);
        },
        FileOp::Delete => {
            crate::text::lemma_holds_end("Delete failed: "@, error);
            assert(out.subrange(0, "Delete failed: "@.len() as int) =~= "Delete failed: "@);
        },
    }
}

} // verus!
