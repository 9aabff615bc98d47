//! The review of an environment's branch: what is true of it, and what a
//! ruling comes to.

use vstd::prelude::*;
use crate::console::facts::{row_in, Console};
use crate::environment::{slugs, EnvironmentId, ReviewState};
use crate::envstrip::{title_of, title_shown};
use crate::fleet::{string_view, FleetRow};
use crate::text::{concat2, concat3, decimal, decimal_of, same, trim, trimmed};

verus! {

/// Where a branch stands against its target.
#[derive(Debug, PartialEq, Eq)]
pub struct Mergedness {
    pub branch: String,
    /// What was asked, where that was more than the branch itself.
    pub checked: Option<String>,
    /// Commits the target does not have.
    pub ahead: usize,
    /// The work is in the target.
    pub merged: bool,
    pub note: Option<String>,
}

/// What is known about one environment's branch. No mergedness means that it
/// was never published, which is not the same as "not merged".
#[derive(Debug, PartialEq, Eq)]
pub struct ReviewFacts {
    pub branch: String,
    pub target: String,
    pub mergedness: Option<Mergedness>,
}

/// "s" unless there is one.
pub open spec fn plural_of(n: int) -> Seq<char> {
    if n == 1 {
        ""@
    } else {
        "s"@
    }
}

/// "s" unless there is one.
pub fn plural(n: usize) -> (out: &'static str)
    ensures
        out@ == plural_of(n as int),
{
    if n == 1 {
        ""
    } else {
        "s"
    }
}

impl ReviewFacts {
    /// The judgment row's fact line.
    pub open spec fn detail_shown(&self) -> Seq<char> {
        match self.mergedness {
            None => self.branch@
                + " has never been published, so there is nothing to review against "@
                + self.target@ + "."@,
            Some(merged) => {
                let fact = if merged.merged {
                    self.branch@ + " → "@ + self.target@ + " · already in "@ + self.target@
                } else {
                    self.branch@ + " → "@ + self.target@ + " · "@ + decimal_of(
                        merged.ahead as nat,
                    ) + " commit"@ + plural_of(merged.ahead as int) + " ahead"@
                };
                match merged.note {
                    Some(note) => fact + " · "@ + note@,
                    None => fact,
                }
            },
        }
    }

    /// Merging would do something.
    pub open spec fn can_merge(&self) -> bool {
        self.mergedness matches Some(merged) && !merged.merged
    }

    /// The judgment row's fact line: the branch, the target, and how far apart
    /// they are, asked fresh and never latched.
    pub fn detail(&self) -> (out: String)
        ensures
            out@ == self.detail_shown(),
    {
        match &self.mergedness {
            None => {
                let mut text = concat3(
                    self.branch.as_str(),
                    " has never been published, so there is nothing to review against ",
                    self.target.as_str(),
                );
                text.append(".");
                text
            },
            Some(merged) => {
                let mut text = concat3(self.branch.as_str(), " → ", self.target.as_str());
                if merged.merged {
                    text.append(" · already in ");
                    text.append(self.target.as_str());
                } else {
                    let ahead = decimal(merged.ahead as u64);
                    text.append(" · ");
                    text.append(ahead.as_str());
                    text.append(" commit");
                    text.append(plural(merged.ahead));
                    text.append(" ahead");
                }
                if let Some(note) = &merged.note {
                    text.append(" · ");
                    text.append(note.as_str());
                }
                text
            },
        }
    }

    /// Whether Merge is a thing to offer. Work already in the target has
    /// nothing to merge, and a button that would do nothing is worse than no
    /// button.
    pub fn mergeable(&self) -> (r: bool)
        ensures
            r == self.can_merge(),
    {
        match &self.mergedness {
            Some(merged) => !merged.merged,
            None => false,
        }
    }
}

/// The environments that have left `Working`, in order: the only ones whose
/// branch anybody is judging.
pub open spec fn out_of_work(envs: Seq<(EnvironmentId, ReviewState)>, n: int) -> Seq<Seq<char>>
    decreases n,
{
    if n <= 0 {
        Seq::empty()
    } else if envs[n - 1].1 != ReviewState::Working {
        out_of_work(envs, n - 1).push(envs[n - 1].0@)
    } else {
        out_of_work(envs, n - 1)
    }
}

/// Which environments have left `Working`.
pub fn under_review(envs: &Vec<(EnvironmentId, ReviewState)>) -> (out: Vec<EnvironmentId>)
    ensures
        slugs(out@) == out_of_work(envs@, envs@.len() as int),
{
    let mut out: Vec<EnvironmentId> = Vec::new();
    let mut i: usize = 0;
    assert(slugs(out@) =~= out_of_work(envs@, 0));
    while i < envs.len()
        invariant
            i <= envs@.len(),
            slugs(out@) == out_of_work(envs@, i as int),
        decreases envs@.len() - i,
    {
        if envs[i].1 != ReviewState::Working {
            let ghost before = out@;
            out.push(envs[i].0.clone());
            assert(slugs(out@) =~= slugs(before).push(envs@[i as int].0@));
        }
        i += 1;
    }
    out
}

/// The facts of one environment's branch of record.
pub open spec fn stands_against(
    out: ReviewFacts,
    slug: Seq<char>,
    target: Option<String>,
    mergedness: Option<Mergedness>,
) -> bool {
    &&& out.branch@ == "agents/"@ + slug
    &&& out.target@ == match target {
        Some(target) => target@,
        None => "HEAD"@,
    }
    &&& out.mergedness == mergedness
}

/// The facts of one environment's branch of record against a target. Without
/// a checkout to ask, the target is `HEAD`.
pub fn review_facts_for(
    env: &EnvironmentId,
    target: Option<String>,
    mergedness: Option<Mergedness>,
) -> (out: ReviewFacts)
    ensures
        stands_against(out, env@, target, mergedness),
{
    let target = match target {
        Some(target) => target,
        None => "HEAD".to_owned(),
    };
    ReviewFacts { branch: concat2("agents/", env.as_str()), target, mergedness }
}

/// A ruling on a branch.
#[derive(Debug, Clone, Copy, PartialEq, Eq, Structural)]
pub enum Ruling {
    Merge,
    Reject,
}

/// The first environment whose facts are of this branch.
pub open spec fn env_of(facts: Seq<(EnvironmentId, ReviewFacts)>, branch: Seq<char>) -> Option<int>
    decreases facts.len(),
{
    if facts.len() == 0 {
        None
    } else if facts[0].1.branch@ == branch {
        Some(0)
    } else {
        match env_of(facts.subrange(1, facts.len() as int), branch) {
            Some(i) => Some(i + 1),
            None => None,
        }
    }
}

fn ruled_on(
    facts: &Vec<(EnvironmentId, ReviewFacts)>,
    branch: &str,
    action: &str,
) -> (out: Option<(usize, Ruling)>)
    ensures
        match out {
            Some((i, ruling)) => {
                &&& i < facts@.len()
                &&& env_of(facts@, branch@) == Some(i as int)
                &&& action@ == match ruling {
                    Ruling::Merge => "merge"@,
                    Ruling::Reject => "reject"@,
                }
            },
            None => env_of(facts@, branch@) is None || (action@ != "merge"@ && action@
                != "reject"@),
        },
{
    let ruling = if same(action, "merge") {
        Ruling::Merge
    } else if same(action, "reject") {
        Ruling::Reject
    } else {
        return None;
    };
    let mut i: usize = 0;
    assert(facts@.subrange(0, facts@.len() as int) =~= facts@);
    while i < facts.len()
        invariant
            i <= facts@.len(),
            action@ == match ruling {
                Ruling::Merge => "merge"@,
                Ruling::Reject => "reject"@,
            },
            env_of(facts@, branch@) == match env_of(
                facts@.subrange(i as int, facts@.len() as int),
                branch@,
            ) {
                Some(k) => Some(k + i),
                None => None,
            },
        decreases facts@.len() - i,
    {
        let ghost rest = facts@.subrange(i as int, facts@.len() as int);
        if same(facts[i].1.branch.as_str(), branch) {
            return Some((i, ruling));
        }
        assert(rest.subrange(1, rest.len() as int) =~= facts@.subrange(i + 1, facts@.len() as int));
        i += 1;
    }
    None
}

/// A ruling on the branch of a review.
pub open spec fn rules_on(
    console: Console,
    branch: Seq<char>,
    action: Seq<char>,
    out: Option<(EnvironmentId, Ruling)>,
) -> bool {
    &&& match out {
        Some((env, ruling)) => {
            &&& env_of(console.review_facts.entries@, branch) matches Some(i)
                && console.review_facts.entries@[i].0 == env
            &&& action == match ruling {
                Ruling::Merge => "merge"@,
                Ruling::Reject => "reject"@,
            }
        },
        None => env_of(console.review_facts.entries@, branch) is None || (action
            != "merge"@ && action != "reject"@),
    }
}

/// How a merge ended.
#[derive(Debug, PartialEq, Eq)]
pub enum MergeEnd {
    /// The branch moved, or the target had the work already.
    Clean,
    /// So many files conflict. Nothing was written.
    Conflicts(usize),
    Failed(String),
}

/// What follows a merge.
#[derive(Debug, PartialEq, Eq)]
pub struct MergeAfter {
    pub toast: String,
    /// Record the environment as merged, and take its review off the panes.
    pub settled: bool,
}

/// What follows a merge.
pub open spec fn merged(out: MergeAfter, branch: Seq<char>, end: MergeEnd) -> bool {
    &&& out.settled == (end is Clean)
    &&& out.toast@ == match end {
        MergeEnd::Clean => "Merged "@ + branch,
        MergeEnd::Conflicts(files) => branch + " does not merge cleanly — "@ + decimal_of(
            files as nat,
        ) + " conflicting file"@ + plural_of(files as int)
            + ". Nothing was changed, and it is still waiting for review."@,
        MergeEnd::Failed(reason) => "Merge failed: "@ + reason@,
    }
}

/// What follows a merge. The state moves only if the merge went in: recording
/// "merged" over a merge that refused would be a lie that nothing takes back.
pub fn merge_review(branch: &str, end: &MergeEnd) -> (out: MergeAfter)
    ensures
        merged(out, branch@, *end),
{
    match end {
        MergeEnd::Clean => MergeAfter { toast: concat2("Merged ", branch), settled: true },
        MergeEnd::Conflicts(files) => {
            let count = decimal(*files as u64);
            let mut toast = concat3(branch, " does not merge cleanly — ", count.as_str());
            toast.append(" conflicting file");
            toast.append(plural(*files));
            toast.append(". Nothing was changed, and it is still waiting for review.");
            MergeAfter { toast, settled: false }
        },
        MergeEnd::Failed(reason) => MergeAfter {
            toast: concat2("Merge failed: ", reason.as_str()),
            settled: false,
        },
    }
}

/// What rejecting an environment asks.
#[derive(Debug, PartialEq, Eq)]
pub struct RejectPanel {
    pub title: String,
    pub body: String,
    /// The issue a note would be posted to; without one there is nowhere to
    /// leave it.
    pub issue: Option<String>,
}

/// What rejecting an environment asks, given its row where it has one.
pub open spec fn rejects(out: RejectPanel, slug: Seq<char>, row: Option<FleetRow>) -> bool {
    &&& out.title@ == "Reject "@ + match row {
        Some(row) => title_shown(row),
        None => slug,
    } + "?"@
    &&& match row {
        Some(row) if row.working_on@.len() > 0 => {
            let issue = row.working_on@[0].id@;
            &&& string_view(out.issue) == Some(issue)
            &&& out.body@
                == "Its branch stays where it is — rejecting is a decision, not a delete. The note below is posted to "@
                + issue + ", so whoever picks it up next knows what was already tried."@
        },
        _ => out.issue is None && out.body@
            == "Its branch stays where it is — rejecting is a decision, not a delete. It claimed no issue, so there is nowhere to leave a note; the environment becomes safe to destroy."@,
    }
}

impl Console {
    /// Merge or reject the branch a review tab is showing: which environment
    /// that branch belongs to, and what was ruled. An unknown branch or action
    /// is no ruling.
    pub fn rule_on_review(&self, branch: &str, action: &str) -> (out: Option<
        (EnvironmentId, Ruling),
    >)
        ensures
            rules_on(*self, branch@, action@, out),
    {
        match ruled_on(&self.review_facts.entries, branch, action) {
            Some((i, ruling)) => Some((self.review_facts.entries[i].0.clone(), ruling)),
            None => None,
        }
    }

    /// What rejecting an environment asks: its name, and where a note would be
    /// posted.
    pub fn reject_intervention(&self, env: &EnvironmentId) -> (out: RejectPanel)
        ensures
            rejects(out, env@, row_in(self.rows@, env@)),
    {
        let row = match self.find_row(env) {
            Some(i) => Some(&self.rows[i]),
            None => None,
        };
        reject_panel(env, row)
    }
}

fn reject_panel(env: &EnvironmentId, row: Option<&FleetRow>) -> (out: RejectPanel)
    ensures
        rejects(
            out,
            env@,
            match row {
                Some(row) => Some(*row),
                None => None,
            },
        ),
{
    let name = match row {
        Some(row) => title_of(row),
        None => env.slug.clone(),
    };
    let title = concat3("Reject ", name.as_str(), "?");
    if let Some(row) = row {
        if row.working_on.len() > 0 {
            let issue = row.working_on[0].id.clone();
            let body = concat3(
                "Its branch stays where it is — rejecting is a decision, not a delete. The note below is posted to ",
                issue.as_str(),
                ", so whoever picks it up next knows what was already tried.",
            );
            return RejectPanel { title, body, issue: Some(issue) };
        }
    }
    RejectPanel {
        title,
        body: "Its branch stays where it is — rejecting is a decision, not a delete. It claimed no issue, so there is nowhere to leave a note; the environment becomes safe to destroy.".to_owned(),
        issue: None,
    }
}

/// The note a rejection leaves.
pub open spec fn notes(out: Option<(String, String)>, issue: Option<String>, typed: Seq<char>) -> bool {
    &&& match out {
        Some((to, note)) => issue == Some(to) && note@ == trimmed(typed) && note@.len() > 0,
        None => issue is None || trimmed(typed).len() == 0,
    }
}

/// The note a rejection leaves, where there is one and somewhere to put it: the
/// issue, and what was typed, trimmed.
pub fn reject_note(issue: Option<String>, typed: &str) -> (out: Option<(String, String)>)
    ensures
        notes(out, issue, typed@),
{
    let note = trim(typed);
    if note.is_empty() {
        return None;
    }
    match issue {
        Some(issue) => Some((issue, note.to_owned())),
        None => None,
    }
}

/// What is said of a rejection.
pub open spec fn rejected(out: (String, bool), slug: Seq<char>, outcome: Result<(), String>) -> bool {
    &&& out.1 == (outcome is Ok)
    &&& out.0@ == match outcome {
        Ok(_) => "Rejected "@ + slug,
        Err(reason) => "Reject failed: "@ + reason@,
    }
}

/// What is said of a rejection that went through, or of one that did not. Only
/// the first takes the review off the panes.
pub fn reject_toast(env: &EnvironmentId, outcome: &Result<(), String>) -> (out: (String, bool))
    ensures
        rejected(out, env@, *outcome),
{
    match outcome {
        Ok(_) => (concat2("Rejected ", env.as_str()), true),
        Err(reason) => (concat2("Reject failed: ", reason.as_str()), false),
    }
}

/// A review's line names the branch and what it is against, says what is already
/// in as such and never as ahead, counts the commits that are not, and never
/// takes what was not published for something to merge.
pub proof fn a_review_says_where_the_branch_stands(facts: ReviewFacts)
    ensures
        crate::text::begins_with(facts.detail_shown(), facts.branch@),
        crate::text::holds_text(facts.detail_shown(), facts.target@),
        facts.mergedness is None ==> !facts.can_merge() && facts.detail_shown() == facts.branch@
            + " has never been published, so there is nothing to review against "@ + facts.target@
            + "."@,
        facts.mergedness matches Some(merged) ==> {
            &&& facts.can_merge() <==> !merged.merged
            &&& merged.merged ==> crate::text::holds_text(
                facts.detail_shown(),
                " · already in "@ + facts.target@,
            )
            &&& !merged.merged ==> crate::text::holds_text(
                facts.detail_shown(),
                decimal_of(merged.ahead as nat) + " commit"@,
            )
            &&& merged.note matches Some(note) ==> crate::text::holds_text(
                facts.detail_shown(),
                note@,
            )
        },
{
    let branch = facts.branch@;
    let target = facts.target@;
    let text = facts.detail_shown();
    assert(text.subrange(0, branch.len() as int) =~= branch);
    match facts.mergedness {
        None => {
            crate::text::lemma_holds_middle(
                branch + " has never been published, so there is nothing to review against "@,
                target,
                "."@,
            );
        },
        Some(merged) => {
            let tail = match merged.note {
                Some(note) => " · "@ + note@,
                None => Seq::empty(),
            };
            let lead = branch + " → "@;
            if merged.merged {
                let said = " · already in "@ + target;
                assert(text =~= lead + target + (said + tail));
                crate::text::lemma_holds_middle(lead, target, said + tail);
                assert(text =~= (lead + target) + said + tail);
                crate::text::lemma_holds_middle(lead + target, said, tail);
            } else {
                let said = decimal_of(merged.ahead as nat) + " commit"@;
                let rest = plural_of(merged.ahead as int) + " ahead"@ + tail;
                assert(text =~= lead + target + (" · "@ + said + rest));
                crate::text::lemma_holds_middle(lead, target, " · "@ + said + rest);
                assert(text =~= (lead + target + " · "@) + said + rest);
                crate::text::lemma_holds_middle(lead + target + " · "@, said, rest);
            }
            if let Some(note) = merged.note {
                let front = text.subrange(0, text.len() - note@.len());
                assert(text =~= front + note@);
                crate::text::lemma_holds_end(front, note@);
            }
        },
    }
}

/// The branches anybody judges are those of the environments that have left
/// their work, flagged or ruled on, and no other's.
pub proof fn only_finished_work_is_judged(
    envs: Seq<(EnvironmentId, ReviewState)>,
    n: int,
    slug: Seq<char>,
)
    requires
        0 <= n <= envs.len(),
    ensures
        out_of_work(envs, n).contains(slug) <==> exists|i: int|
            0 <= i < n && (#[trigger] envs[i]).0@ == slug && (envs[i].1
                == ReviewState::FlaggedForReview || envs[i].1 == ReviewState::Merged || envs[i].1
                == ReviewState::Rejected),
        out_of_work(envs, n).len() <= n,
    decreases n,
{
    if n > 0 {
        only_finished_work_is_judged(envs, n - 1, slug);
        let before = out_of_work(envs, n - 1);
        let all = out_of_work(envs, n);
        let last = envs[n - 1];
        if all.contains(slug) {
            let k = choose|k: int| 0 <= k < all.len() && all[k] == slug;
            if k < before.len() {
                assert(before[k] == slug);
                assert(before.contains(slug));
            } else {
                assert(envs[n - 1].0@ == slug);
            }
        }
        if before.contains(slug) {
            let k = choose|k: int| 0 <= k < before.len() && before[k] == slug;
            assert(all[k] == slug);
        }
        if last.0@ == slug && last.1 != ReviewState::Working {
            assert(all[all.len() - 1] == slug);
        }
        if !all.contains(slug) {
            assert(!before.contains(slug));
        }
    }
}

/// A branch is judged as its environment's branch of record, against what was
/// asked for, or the head of the checkout.
pub proof fn a_branch_is_judged_as_its_own(
    out: ReviewFacts,
    slug: Seq<char>,
    target: Option<String>,
    mergedness: Option<Mergedness>,
)
    requires
        stands_against(out, slug, target, mergedness),
    ensures
        out.branch@ == "agents/"@ + slug,
        target matches Some(to) ==> out.target@ == to@,
        target is None ==> out.target@ == "HEAD"@,
        out.mergedness == mergedness,
{
}

/// An environment is settled as merged exactly where the merge went in; a
/// conflict says how many files, and neither it nor a failure settles anything.
pub proof fn only_a_clean_merge_settles(out: MergeAfter, branch: Seq<char>, end: MergeEnd)
    requires
        merged(out, branch, end),
    ensures
        out.settled <==> end == MergeEnd::Clean,
        end is Clean ==> out.toast@ == "Merged "@ + branch,
        end matches MergeEnd::Conflicts(files) ==> !out.settled && crate::text::begins_with(
            out.toast@,
            branch,
        ) && crate::text::holds_text(out.toast@, decimal_of(files as nat) + " conflicting file"@),
        end matches MergeEnd::Failed(reason) ==> !out.settled && crate::text::holds_text(
            out.toast@,
            reason@,
        ),
{
    match end {
        MergeEnd::Clean => {},
        MergeEnd::Conflicts(files) => {
            let lead = branch + " does not merge cleanly — "@;
            let said = decimal_of(files as nat) + " conflicting file"@;
            let rest = plural_of(files as int)
                + ". Nothing was changed, and it is still waiting for review."@;
            assert(out.toast@ =~= lead + said + rest);
            crate::text::lemma_holds_middle(lead, said, rest);
            assert(out.toast@.subrange(0, branch.len() as int) =~= branch);
        },
        MergeEnd::Failed(reason) => {
            crate::text::lemma_holds_end("Merge failed: "@, reason@);
        },
    }
}

/// A rejection asks about the environment it is of, and offers a note exactly
/// where an issue was claimed: the first that was.
pub proof fn a_rejection_leaves_its_note_on_the_issue(
    out: RejectPanel,
    slug: Seq<char>,
    row: Option<FleetRow>,
)
    requires
        rejects(out, slug, row),
    ensures
        row is None ==> out.title@ == "Reject "@ + slug + "?"@ && out.issue is None,
        row matches Some(shown) ==> {
            &&& out.title@ == "Reject "@ + title_shown(shown) + "?"@
            &&& out.issue is Some <==> shown.working_on@.len() > 0
            &&& out.issue matches Some(issue) ==> issue@ == shown.working_on@[0].id@
                && crate::text::holds_text(out.body@, issue@)
        },
{
    if let Some(shown) = row {
        if shown.working_on@.len() > 0 {
            crate::text::lemma_holds_middle(
                "Its branch stays where it is — rejecting is a decision, not a delete. The note below is posted to "@,
                shown.working_on@[0].id@,
                ", so whoever picks it up next knows what was already tried."@,
            );
        }
    }
}

/// A note is left where there is an issue and something was written, and it is
/// what was written, without the blanks around it.
pub proof fn a_note_is_what_was_written(
    out: Option<(String, String)>,
    issue: Option<String>,
    typed: Seq<char>,
)
    requires
        notes(out, issue, typed),
    ensures
        out is Some <==> issue is Some && !crate::text::is_blank(typed),
        out matches Some((to, note)) ==> issue == Some(to) && note@ == trimmed(typed),
{
    crate::text::lemma_blank(typed);
}

/// Only a rejection that went through takes the review off the panes; one that
/// did not says why.
pub proof fn a_failed_rejection_changes_nothing(
    out: (String, bool),
    slug: Seq<char>,
    outcome: Result<(), String>,
)
    requires
        rejected(out, slug, outcome),
    ensures
        out.1 <==> outcome is Ok,
        outcome is Ok ==> out.0@ == "Rejected "@ + slug,
        outcome matches Err(reason) ==> crate::text::holds_text(out.0@, reason@),
{
    if let Err(reason) = outcome {
        crate::text::lemma_holds_end("Reject failed: "@, reason@);
    }
}

proof fn lemma_env_of(facts: Seq<(EnvironmentId, ReviewFacts)>, branch: Seq<char>)
    ensures
        match env_of(facts, branch) {
            Some(i) => 0 <= i < facts.len() && facts[i].1.branch@ == branch,
            None => forall|i: int| 0 <= i < facts.len() ==> (#[trigger] facts[i]).1.branch@ != branch,
        },
    decreases facts.len(),
{
    if facts.len() > 0 && facts[0].1.branch@ != branch {
        let rest = facts.subrange(1, facts.len() as int);
        lemma_env_of(rest, branch);
        assert forall|i: int| 0 < i < facts.len() implies facts[i] == rest[i - 1] by {
        }
        if env_of(rest, branch) is None {
            assert forall|i: int| 0 <= i < facts.len() implies (#[trigger] facts[i]).1.branch@
                != branch by {
                if i > 0 {
                    assert(rest[i - 1].1.branch@ != branch);
                }
            }
        }
    }
}

/// A branch belongs to an environment under review exactly where one of them
/// has it, and to that one.
pub proof fn a_branch_belongs_to_its_environment(
    facts: Seq<(EnvironmentId, ReviewFacts)>,
    branch: Seq<char>,
)
    ensures
        env_of(facts, branch) is Some <==> exists|i: int|
            0 <= i < facts.len() && (#[trigger] facts[i]).1.branch@ == branch,
        env_of(facts, branch) matches Some(i) ==> 0 <= i < facts.len() && facts[i].1.branch@
            == branch,
{
    lemma_env_of(facts, branch);
}

/// A ruling is of the environment whose branch is on screen, and merges where it
/// says merge and rejects where it says reject; nothing else is a ruling.
pub proof fn a_ruling_is_what_it_says(
    console: Console,
    branch: Seq<char>,
    action: Seq<char>,
    out: Option<(EnvironmentId, Ruling)>,
)
    requires
        rules_on(console, branch, action, out),
    ensures
        out matches Some((env, ruling)) ==> {
            &&& ruling == Ruling::Merge <==> action == "merge"@
            &&& ruling == Ruling::Reject <==> action == "reject"@
            &&& exists|i: int|
                0 <= i < console.review_facts.entries@.len() && (
                #[trigger] console.review_facts.entries@[i]).0 == env
                    && console.review_facts.entries@[i].1.branch@ == branch
        },
        action != "merge"@ && action != "reject"@ ==> out is None,
        (forall|i: int|
            0 <= i < console.review_facts.entries@.len() ==> (
            #[trigger] console.review_facts.entries@[i]).1.branch@ != branch) ==> out is None,
{
    reveal_strlit("merge");
    reveal_strlit("reject");
    assert("merge"@.len() == 5 && "reject"@.len() == 6);
    lemma_env_of(console.review_facts.entries@, branch);
    if let Some((env, ruling)) = out {
        let i = env_of(console.review_facts.entries@, branch)->0;
        assert(console.review_facts.entries@[i].0 == env);
    }
}

} // verus!
