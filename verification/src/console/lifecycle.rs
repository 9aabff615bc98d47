//! What is asked and said when an environment is stopped, rebuilt, renamed,
//! nuked or destroyed.

use vstd::prelude::*;
use crate::console::facts::{row_in, Console};
use crate::console::review::{plural, plural_of};
use crate::environment::EnvironmentId;
use crate::fleet::FleetRow;
use crate::text::{concat2, concat3, decimal, decimal_of, same};

verus! {

/// How many branches a destroy enumerates.
pub const BRANCHES_NAMED: usize = 8;

/// A branch that only this environment has.
#[derive(Debug, PartialEq, Eq)]
pub struct UnpublishedBranch {
    pub branch: String,
    pub commits: usize,
    /// There are more commits than were counted.
    pub truncated: bool,
    pub summary: String,
}

/// One branch's line.
pub open spec fn branch_line(b: UnpublishedBranch) -> Seq<char> {
    "  "@ + b.branch@ + " — "@ + decimal_of(b.commits as nat) + " commit"@ + plural_of(
        b.commits as int,
    ) + (if b.truncated {
        "+"@
    } else {
        ""@
    }) + " — "@ + (if b.summary@.len() == 0 {
        "(no commit message)"@
    } else {
        b.summary@
    }) + "\n"@
}

/// The lines of the first `n` branches.
pub open spec fn branch_lines(branches: Seq<UnpublishedBranch>, n: int) -> Seq<char>
    decreases n,
{
    if n <= 0 {
        Seq::empty()
    } else {
        branch_lines(branches, n - 1) + branch_line(branches[n - 1])
    }
}

/// What the clone holds that nobody else has, in words.
pub open spec fn holdings(settled: bool, branches: Seq<UnpublishedBranch>, dirty: nat) -> Seq<char> {
    let named = if branches.len() < BRANCHES_NAMED {
        branches.len() as int
    } else {
        BRANCHES_NAMED as int
    };
    let head = if settled {
        "Its clone still holds what you decided against:\n"@
    } else {
        "This environment holds work nobody else has:\n"@
    };
    let more = if branches.len() > BRANCHES_NAMED {
        "  … and "@ + decimal_of((branches.len() - BRANCHES_NAMED) as nat) + " more\n"@
    } else {
        ""@
    };
    let files = if dirty > 0 {
        "  "@ + decimal_of(dirty) + " uncommitted file"@ + plural_of(dirty as int) + "\n"@
    } else {
        ""@
    };
    head + branch_lines(branches, named) + more + files + "\n"@
}

/// What destroying an environment says first.
pub open spec fn destroy_shown(
    settled: bool,
    branches: Seq<UnpublishedBranch>,
    dirty: nat,
    chat: Option<Seq<char>>,
) -> Seq<char> {
    let ruled = if settled {
        "You have already ruled on this environment, so nothing here is waiting on you.\n\n"@
    } else {
        ""@
    };
    let work = if branches.len() == 0 && dirty == 0 {
        "Nothing here is unpublished: everything this environment committed is already in your checkout.\n\n"@
    } else {
        holdings(settled, branches, dirty)
    };
    let talk = match chat {
        Some(label) => "“"@ + label
            + "” works here; it keeps its conversation but loses the files it was working on.\n\n"@,
        None => ""@,
    };
    ruled + work + talk
        + "Destroying removes the clone, the container, and this environment's volumes. It cannot be undone."@
}

fn push_branch(text: &mut String, b: &UnpublishedBranch)
    ensures
        final(text)@ == old(text)@ + branch_line(*b),
{
    let count = decimal(b.commits as u64);
    let mut line = concat3("  ", b.branch.as_str(), " — ");
    line.append(count.as_str());
    line.append(" commit");
    line.append(plural(b.commits));
    line.append(
        if b.truncated {
            "+"
        } else {
            ""
        },
    );
    line.append(" — ");
    line.append(
        if b.summary.as_str().is_empty() {
            "(no commit message)"
        } else {
            b.summary.as_str()
        },
    );
    line.append("\n");
    text.append(line.as_str());
}

fn describe_holdings(settled: bool, branches: &Vec<UnpublishedBranch>, dirty: usize) -> (out: String)
    ensures
        out@ == holdings(settled, branches@, dirty as nat),
{
    let mut text = if settled {
        "Its clone still holds what you decided against:\n".to_owned()
    } else {
        "This environment holds work nobody else has:\n".to_owned()
    };
    let ghost head = text@;
    let mut i: usize = 0;
    assert(text@ =~= head + branch_lines(branches@, 0));
    while i < branches.len() && i < BRANCHES_NAMED
        invariant
            i <= branches@.len(),
            i <= BRANCHES_NAMED,
            text@ == head + branch_lines(branches@, i as int),
        decreases branches@.len() - i,
    {
        push_branch(&mut text, &branches[i]);
        i += 1;
        assert(text@ =~= head + branch_lines(branches@, i as int));
    }
    let mut more = "".to_owned();
    if branches.len() > BRANCHES_NAMED {
        let count = decimal((branches.len() - BRANCHES_NAMED) as u64);
        more = concat3("  … and ", count.as_str(), " more\n");
    }
    text.append(more.as_str());
    let mut files = "".to_owned();
    if dirty > 0 {
        let count = decimal(dirty as u64);
        files = concat3("  ", count.as_str(), " uncommitted file");
        files.append(plural(dirty));
        files.append("\n");
    }
    text.append(files.as_str());
    text.append("\n");
    text
}

fn describe_destroy(
    settled: bool,
    branches: &Vec<UnpublishedBranch>,
    dirty: usize,
    chat: Option<&str>,
) -> (out: String)
    ensures
        out@ == destroy_shown(
            settled,
            branches@,
            dirty as nat,
            crate::fleet::text_view(chat),
        ),
{
    let mut text = if settled {
        "You have already ruled on this environment, so nothing here is waiting on you.\n\n".to_owned()
    } else {
        "".to_owned()
    };
    if branches.len() == 0 && dirty == 0 {
        text.append(
            "Nothing here is unpublished: everything this environment committed is already in your checkout.\n\n",
        );
    } else {
        let held = describe_holdings(settled, branches, dirty);
        text.append(held.as_str());
    }
    let talk = match chat {
        Some(label) => concat3(
            "“",
            label,
            "” works here; it keeps its conversation but loses the files it was working on.\n\n",
        ),
        None => "".to_owned(),
    };
    text.append(talk.as_str());
    text.append(
        "Destroying removes the clone, the container, and this environment's volumes. It cannot be undone.",
    );
    text
}

/// Work that would be lost is always said: the reassurance that nothing is
/// unpublished is given only where there is neither a branch nor a file.
pub proof fn a_destroy_names_what_it_costs(
    settled: bool,
    branches: Seq<UnpublishedBranch>,
    dirty: nat,
    chat: Option<Seq<char>>,
)
    requires
        branches.len() > 0 || dirty > 0,
    ensures
        destroy_shown(settled, branches, dirty, chat) == (if settled {
            "You have already ruled on this environment, so nothing here is waiting on you.\n\n"@
        } else {
            ""@
        }) + holdings(settled, branches, dirty) + (match chat {
            Some(label) => "“"@ + label
                + "” works here; it keeps its conversation but loses the files it was working on.\n\n"@,
            None => ""@,
        })
            + "Destroying removes the clone, the container, and this environment's volumes. It cannot be undone."@,
{
}

/// What a destroy took with it.
#[derive(Debug, Clone, Copy, PartialEq, Eq, Structural)]
pub struct DestroyReport {
    pub removed_volumes: usize,
    pub unpublished: usize,
    pub dirty_files: usize,
}

impl DestroyReport {
    /// Something nobody else had went with it.
    pub open spec fn lost_work(&self) -> bool {
        self.unpublished > 0 || self.dirty_files > 0
    }
}

/// What is said of a destroy that ended.
pub open spec fn destroy_said(out: Seq<char>, slug: Seq<char>, outcome: Result<DestroyReport, String>) -> bool {
    &&& out == match outcome {
        Ok(report) => "Destroyed "@ + slug + (if report.removed_volumes > 0 {
            " · "@ + decimal_of(report.removed_volumes as nat) + " volume"@ + plural_of(
                report.removed_volumes as int,
            ) + " freed"@
        } else {
            ""@
        }) + (if report.lost_work() {
            " · "@ + decimal_of(report.unpublished as nat) + " unpublished branch(es) and "@
                + decimal_of(report.dirty_files as nat)
                + " uncommitted file(s) went with it"@
        } else {
            ""@
        }),
        Err(reason) => "Destroy failed: "@ + reason@,
    }
}

/// What is said of a destroy that ended.
pub fn destroy_toast(env: &EnvironmentId, outcome: &Result<DestroyReport, String>) -> (out: String)
    ensures
        destroy_said(out@, env@, *outcome),
{
    match outcome {
        Ok(report) => {
            let mut text = concat2("Destroyed ", env.as_str());
            let mut freed = "".to_owned();
            if report.removed_volumes > 0 {
                let count = decimal(report.removed_volumes as u64);
                freed = concat3(" · ", count.as_str(), " volume");
                freed.append(plural(report.removed_volumes));
                freed.append(" freed");
            }
            text.append(freed.as_str());
            let mut lost = "".to_owned();
            if report.unpublished > 0 || report.dirty_files > 0 {
                let branches = decimal(report.unpublished as u64);
                let files = decimal(report.dirty_files as u64);
                lost = concat3(" · ", branches.as_str(), " unpublished branch(es) and ");
                lost.append(files.as_str());
                lost.append(" uncommitted file(s) went with it");
            }
            text.append(lost.as_str());
            text
        },
        Err(reason) => concat2("Destroy failed: ", reason.as_str()),
    }
}

/// What a row's action comes to.
#[derive(Debug, PartialEq, Eq)]
pub enum RowStep {
    /// Nothing: the environment is gone, or the action unknown.
    Nothing,
    /// Ask for a name, with this title and this text to start from.
    Rename { title: String, current: String },
    /// Enumerate and ask, under this title.
    Destroy { title: String },
    Stop,
    /// Start or rebuild.
    Reload,
    /// Confirm under this heading, then remove container and image.
    Nuke { heading: String },
}

/// What the name of a row is edited from: the user's own, or nothing.
pub open spec fn name_to_edit(row: Option<FleetRow>) -> Seq<char> {
    match row {
        Some(row) if row.named => row.name@,
        _ => Seq::empty(),
    }
}

/// What a row's action comes to; `known` is whether the environment is still
/// there.
pub open spec fn step_for(
    out: RowStep,
    action: Seq<char>,
    slug: Seq<char>,
    known: bool,
    row: Option<FleetRow>,
) -> bool {
    match out {
        RowStep::Nothing => !known || (action != "rename"@ && action != "destroy"@ && action
            != "stop"@ && action != "start"@ && action != "rebuild"@ && action != "nuke"@),
        RowStep::Rename { title, current } => known && action == "rename"@ && title@
            == "Name for "@ + slug && current@ == name_to_edit(row),
        RowStep::Destroy { title } => known && action == "destroy"@ && title@ == "Destroy "@ + slug
            + "?"@,
        RowStep::Stop => known && action == "stop"@,
        RowStep::Reload => known && (action == "start"@ || action == "rebuild"@),
        RowStep::Nuke { heading } => known && action == "nuke"@ && heading@ == "Nuke "@ + slug
            + "?"@,
    }
}

/// The chat that works in an environment, by its label.
pub open spec fn chat_in(row: Option<FleetRow>) -> Option<Seq<char>> {
    match row {
        Some(row) => match row.chat {
            Some(chat) => Some(chat.label@),
            None => None,
        },
        None => None,
    }
}

impl Console {
    /// What an action on an environment's row comes to; `known` is whether the
    /// environment is still there.
    pub fn run_row_action(&self, action: &str, env: &EnvironmentId, known: bool) -> (out: RowStep)
        ensures
            step_for(out, action@, env@, known, row_in(self.rows@, env@)),
    {
        let row = match self.find_row(env) {
            Some(i) => Some(&self.rows[i]),
            None => None,
        };
        row_step(action, env, known, row)
    }

    /// Stop an environment: the same action its row's own menu runs.
    pub fn stop_environment(&self, env: &EnvironmentId, known: bool) -> (out: RowStep)
        ensures
            step_for(out, "stop"@, env@, known, row_in(self.rows@, env@)),
    {
        self.run_row_action("stop", env, known)
    }

    /// Rebuild an environment: the user applying a configuration.
    pub fn rebuild_environment(&self, env: &EnvironmentId, known: bool) -> (out: RowStep)
        ensures
            step_for(out, "rebuild"@, env@, known, row_in(self.rows@, env@)),
    {
        self.run_row_action("rebuild", env, known)
    }

    /// Rename an environment: the one thing the clone directory cannot say.
    pub fn rename_environment(&self, env: &EnvironmentId, known: bool) -> (out: RowStep)
        ensures
            step_for(out, "rename"@, env@, known, row_in(self.rows@, env@)),
    {
        self.run_row_action("rename", env, known)
    }

    /// Remove an environment's container and image, so that the next start
    /// rebuilds from scratch.
    pub fn nuke_environment(&self, env: &EnvironmentId, known: bool) -> (out: RowStep)
        ensures
            step_for(out, "nuke"@, env@, known, row_in(self.rows@, env@)),
    {
        self.run_row_action("nuke", env, known)
    }

    /// Destroy an environment, naming what the clone holds and asking.
    pub fn destroy_environment(&self, env: &EnvironmentId, known: bool) -> (out: RowStep)
        ensures
            step_for(out, "destroy"@, env@, known, row_in(self.rows@, env@)),
    {
        self.run_row_action("destroy", env, known)
    }

    /// What destroying an environment says first. The clone can be the only
    /// copy of an agent's work, so what it holds is enumerated before the
    /// confirmation is offered. Once the user has ruled, it is stated as a fact
    /// and not as a caution.
    pub fn destroy_intervention(
        &self,
        env: &EnvironmentId,
        settled: bool,
        branches: &Vec<UnpublishedBranch>,
        dirty: usize,
    ) -> (out: String)
        ensures
            out@ == destroy_shown(
                settled,
                branches@,
                dirty as nat,
                chat_in(row_in(self.rows@, env@)),
            ),
    {
        let chat = match self.find_row(env) {
            Some(i) => match &self.rows[i].chat {
                Some(chat) => Some(chat.label.as_str()),
                None => None,
            },
            None => None,
        };
        describe_destroy(settled, branches, dirty, chat)
    }
}

fn row_step(
    action: &str,
    env: &EnvironmentId,
    known: bool,
    row: Option<&FleetRow>,
) -> (out: RowStep)
    ensures
        step_for(
            out,
            action@,
            env@,
            known,
            match row {
                Some(row) => Some(*row),
                None => None,
            },
        ),
{
    if !known {
        return RowStep::Nothing;
    }
    if same(action, "rename") {
        let current = match row {
            Some(row) => if row.named {
                row.name.clone()
            } else {
                String::new()
            },
            None => String::new(),
        };
        RowStep::Rename { title: concat2("Name for ", env.as_str()), current }
    } else if same(action, "destroy") {
        RowStep::Destroy { title: concat3("Destroy ", env.as_str(), "?") }
    } else if same(action, "stop") {
        RowStep::Stop
    } else if same(action, "start") || same(action, "rebuild") {
        RowStep::Reload
    } else if same(action, "nuke") {
        RowStep::Nuke { heading: concat3("Nuke ", env.as_str(), "?") }
    } else {
        RowStep::Nothing
    }
}

/// What a nuke is asked with.
pub fn nuke_body() -> (out: &'static str)
    ensures
        out@
            == "Removes the container and its image. The next start rebuilds from scratch. The clone and named volumes are kept."@,
{
    "Removes the container and its image. The next start rebuilds from scratch. The clone and named volumes are kept."
}

/// What the rename panel says.
pub fn rename_caption() -> (out: &'static str)
    ensures
        out@
            == "The name is yours; the slug stays the identity — container names, volumes, and its socket keep using it."@,
{
    "The name is yours; the slug stays the identity — container names, volumes, and its socket keep using it."
}

/// What is said of a stop that failed.
pub fn stop_failed(reason: &str) -> (out: String)
    ensures
        out@ == "Stop failed: "@ + reason@,
{
    concat2("Stop failed: ", reason)
}

/// What is said of a start or rebuild that failed.
pub fn reload_failed(env: &EnvironmentId, reason: &str) -> (out: String)
    ensures
        out@ == env@ + ": "@ + reason@,
{
    concat3(env.as_str(), ": ", reason)
}

/// What is said of a volume that would not go.
pub fn volume_removal_failed(reason: &str) -> (out: String)
    ensures
        out@ == "Volume removal failed: "@ + reason@,
{
    concat2("Volume removal failed: ", reason)
}

/// Every branch that would be lost is named with how many commits it has, up to
/// the eighth, and the rest are counted; so are the files nobody committed.
pub proof fn a_destroy_counts_what_would_be_lost(
    settled: bool,
    branches: Seq<UnpublishedBranch>,
    dirty: nat,
    chat: Option<Seq<char>>,
    i: int,
)
    requires
        branches.len() > 0 || dirty > 0,
    ensures
        0 <= i < branches.len() && i < 8 ==> crate::text::holds_text(
            destroy_shown(settled, branches, dirty, chat),
            branches[i].branch@ + " — "@ + decimal_of(branches[i].commits as nat) + " commit"@,
        ),
        branches.len() > 8 ==> crate::text::holds_text(
            destroy_shown(settled, branches, dirty, chat),
            "and "@ + decimal_of((branches.len() - 8) as nat) + " more"@,
        ),
        dirty > 0 ==> crate::text::holds_text(
            destroy_shown(settled, branches, dirty, chat),
            decimal_of(dirty) + " uncommitted file"@,
        ),
        chat matches Some(label) ==> crate::text::holds_text(
            destroy_shown(settled, branches, dirty, chat),
            label,
        ),
{
    let ruled = if settled {
        "You have already ruled on this environment, so nothing here is waiting on you.\n\n"@
    } else {
        ""@
    };
    let talk = match chat {
        Some(label) => "“"@ + label
            + "” works here; it keeps its conversation but loses the files it was working on.\n\n"@,
        None => ""@,
    };
    let end = "Destroying removes the clone, the container, and this environment's volumes. It cannot be undone."@;
    let named = if branches.len() < BRANCHES_NAMED {
        branches.len() as int
    } else {
        BRANCHES_NAMED as int
    };
    let head = if settled {
        "Its clone still holds what you decided against:\n"@
    } else {
        "This environment holds work nobody else has:\n"@
    };
    let more = if branches.len() > BRANCHES_NAMED {
        "  … and "@ + decimal_of((branches.len() - BRANCHES_NAMED) as nat) + " more\n"@
    } else {
        ""@
    };
    let files = if dirty > 0 {
        "  "@ + decimal_of(dirty) + " uncommitted file"@ + plural_of(dirty as int) + "\n"@
    } else {
        ""@
    };
    let lines = branch_lines(branches, named);
    let nl = "\n"@;
    lemma_destroy_parts(ruled, head, lines, more, files, nl, talk, end);
    if 0 <= i < branches.len() && i < 8 {
        lemma_branch_line(branches, named, i);
        lemma_holds_part(
            ruled + head,
            lines,
            more + files + nl + talk + end,
            branches[i].branch@ + " — "@ + decimal_of(branches[i].commits as nat) + " commit"@,
        );
    }
    if branches.len() > 8 {
        let n = decimal_of((branches.len() - 8) as nat);
        lemma_and_more(n);
        lemma_holds_part(
            ruled + head + lines,
            more,
            files + nl + talk + end,
            "and "@ + n + " more"@,
        );
    }
    if dirty > 0 {
        lemma_files_lost(dirty);
        lemma_holds_part(
            ruled + head + lines + more,
            files,
            nl + talk + end,
            decimal_of(dirty) + " uncommitted file"@,
        );
    }
    if let Some(label) = chat {
        crate::text::lemma_holds_middle(
            "“"@,
            label,
            "” works here; it keeps its conversation but loses the files it was working on.\n\n"@,
        );
        lemma_holds_part(ruled + head + lines + more + files + nl, talk, end, label);
    }
}

proof fn lemma_destroy_parts(
    ruled: Seq<char>,
    head: Seq<char>,
    lines: Seq<char>,
    more: Seq<char>,
    files: Seq<char>,
    nl: Seq<char>,
    talk: Seq<char>,
    end: Seq<char>,
)
    ensures
        ({
            let shown = ruled + (head + lines + more + files + nl) + talk + end;
            &&& shown == (ruled + head) + lines + (more + files + nl + talk + end)
            &&& shown == (ruled + head + lines) + more + (files + nl + talk + end)
            &&& shown == (ruled + head + lines + more) + files + (nl + talk + end)
            &&& shown == (ruled + head + lines + more + files + nl) + talk + end
        }),
{
    let shown = ruled + (head + lines + more + files + nl) + talk + end;
    assert(shown =~= (ruled + head) + lines + (more + files + nl + talk + end));
    assert(shown =~= (ruled + head + lines) + more + (files + nl + talk + end));
    assert(shown =~= (ruled + head + lines + more) + files + (nl + talk + end));
    assert(shown =~= (ruled + head + lines + more + files + nl) + talk + end);
}

proof fn lemma_and_more(n: Seq<char>)
    ensures
        crate::text::holds_text("  … and "@ + n + " more\n"@, "and "@ + n + " more"@),
{
    assert("  … and "@ =~= "  … "@ + "and "@) by {
        reveal_strlit("  … and ");
        reveal_strlit("  … ");
        reveal_strlit("and ");
    }
    assert(" more\n"@ =~= " more"@ + "\n"@) by {
        reveal_strlit(" more\n");
        reveal_strlit(" more");
        reveal_strlit("\n");
    }
    let said = "and "@ + n + " more"@;
    assert("  … and "@ + n + " more\n"@ =~= "  … "@ + said + "\n"@);
    crate::text::lemma_holds_middle("  … "@, said, "\n"@);
}

proof fn lemma_files_lost(dirty: nat)
    ensures
        crate::text::holds_text(
            "  "@ + decimal_of(dirty) + " uncommitted file"@ + plural_of(dirty as int) + "\n"@,
            decimal_of(dirty) + " uncommitted file"@,
        ),
{
    let said = decimal_of(dirty) + " uncommitted file"@;
    let back = plural_of(dirty as int) + "\n"@;
    assert("  "@ + decimal_of(dirty) + " uncommitted file"@ + plural_of(dirty as int) + "\n"@
        =~= "  "@ + said + back);
    crate::text::lemma_holds_middle("  "@, said, back);
}

proof fn lemma_holds_part(before: Seq<char>, middle: Seq<char>, after: Seq<char>, part: Seq<char>)
    requires
        crate::text::holds_text(middle, part),
    ensures
        crate::text::holds_text(before + middle + after, part),
{
    let at = choose|at: int| crate::text::stands_at(middle, part, at);
    crate::text::lemma_holds_within(before, middle, after, part, at);
}

proof fn lemma_branch_line(branches: Seq<UnpublishedBranch>, n: int, i: int)
    requires
        0 <= i < n <= branches.len(),
    ensures
        crate::text::holds_text(
            branch_lines(branches, n),
            branches[i].branch@ + " — "@ + decimal_of(branches[i].commits as nat) + " commit"@,
        ),
    decreases n,
{
    let b = branches[i];
    let said = b.branch@ + " — "@ + decimal_of(b.commits as nat) + " commit"@;
    let before = branch_lines(branches, n - 1);
    let line = branch_line(branches[n - 1]);
    if i < n - 1 {
        lemma_branch_line(branches, n - 1, i);
        lemma_three_parts(Seq::empty(), before, line);
        assert(Seq::<char>::empty() + before =~= before);
        lemma_holds_part(Seq::empty(), before, line, said);
    } else {
        lemma_line_holds(b);
        assert(before + line =~= before + line + Seq::<char>::empty());
        lemma_holds_part(before, line, Seq::empty(), said);
    }
}

proof fn lemma_line_holds(b: UnpublishedBranch)
    ensures
        crate::text::holds_text(
            branch_line(b),
            b.branch@ + " — "@ + decimal_of(b.commits as nat) + " commit"@,
        ),
{
    let said = b.branch@ + " — "@ + decimal_of(b.commits as nat) + " commit"@;
    let count = decimal_of(b.commits as nat);
    let tail = if b.truncated {
        "+"@
    } else {
        ""@
    };
    let words = if b.summary@.len() == 0 {
        "(no commit message)"@
    } else {
        b.summary@
    };
    lemma_line_parts(
        "  "@,
        b.branch@,
        " — "@,
        count,
        " commit"@,
        plural_of(b.commits as int),
        tail,
        words,
        "\n"@,
    );
    crate::text::lemma_holds_middle(
        "  "@,
        said,
        plural_of(b.commits as int) + tail + " — "@ + words + "\n"@,
    );
}

proof fn lemma_line_parts(
    a: Seq<char>,
    b: Seq<char>,
    c: Seq<char>,
    d: Seq<char>,
    e: Seq<char>,
    f: Seq<char>,
    g: Seq<char>,
    h: Seq<char>,
    k: Seq<char>,
)
    ensures
        a + b + c + d + e + f + g + c + h + k == a + (b + c + d + e) + (f + g + c + h + k),
{
    assert(a + b + c + d + e + f + g + c + h + k =~= a + (b + c + d + e) + (f + g + c + h + k));
}

/// Nothing is reassured away: that nothing is unpublished is said exactly where
/// there is neither a branch nor a file, and what was ruled on is said to be.
pub proof fn a_reassurance_is_true(
    settled: bool,
    branches: Seq<UnpublishedBranch>,
    dirty: nat,
    chat: Option<Seq<char>>,
)
    ensures
        branches.len() == 0 && dirty == 0 ==> crate::text::holds_text(
            destroy_shown(settled, branches, dirty, chat),
            "Nothing here is unpublished: everything this environment committed is already in your checkout.\n\n"@,
        ),
        settled ==> crate::text::begins_with(
            destroy_shown(settled, branches, dirty, chat),
            "You have already ruled on this environment, so nothing here is waiting on you.\n\n"@,
        ),
        crate::text::holds_text(
            destroy_shown(settled, branches, dirty, chat),
            "Destroying removes the clone, the container, and this environment's volumes. It cannot be undone."@,
        ),
{
    let ruled = if settled {
        "You have already ruled on this environment, so nothing here is waiting on you.\n\n"@
    } else {
        ""@
    };
    let nothing = "Nothing here is unpublished: everything this environment committed is already in your checkout.\n\n"@;
    let work = if branches.len() == 0 && dirty == 0 {
        nothing
    } else {
        holdings(settled, branches, dirty)
    };
    let talk = match chat {
        Some(label) => "“"@ + label
            + "” works here; it keeps its conversation but loses the files it was working on.\n\n"@,
        None => ""@,
    };
    let end = "Destroying removes the clone, the container, and this environment's volumes. It cannot be undone."@;
    let shown = destroy_shown(settled, branches, dirty, chat);
    crate::text::lemma_holds_end(ruled + work + talk, end);
    assert(shown =~= ruled + work + (talk + end));
    crate::text::lemma_holds_middle(ruled, work, talk + end);
    if settled {
        assert(shown.subrange(0, ruled.len() as int) =~= ruled);
    }
}

/// A row's action does what it is called, on an environment that is still there,
/// and nothing on one that is not.
pub proof fn an_action_does_what_it_is_called(
    out: RowStep,
    action: Seq<char>,
    slug: Seq<char>,
    known: bool,
    row: Option<FleetRow>,
)
    requires
        step_for(out, action, slug, known, row),
    ensures
        !known ==> out is Nothing,
        known && action == "rename"@ ==> out is Rename,
        known && action == "destroy"@ ==> out is Destroy,
        known && action == "stop"@ ==> out is Stop,
        known && action == "start"@ ==> out is Reload,
        known && action == "rebuild"@ ==> out is Reload,
        known && action == "nuke"@ ==> out is Nuke,
        out matches RowStep::Rename { title, current } ==> title@ == "Name for "@ + slug && (
        row matches Some(shown) ==> (shown.named ==> current@ == shown.name@) && (!shown.named
            ==> current@.len() == 0)),
        out matches RowStep::Destroy { title } ==> title@ == "Destroy "@ + slug + "?"@,
        out matches RowStep::Nuke { heading } ==> heading@ == "Nuke "@ + slug + "?"@,
{
    reveal_strlit("rename");
    reveal_strlit("destroy");
    reveal_strlit("stop");
    reveal_strlit("start");
    reveal_strlit("rebuild");
    reveal_strlit("nuke");
    assert("rename"@.len() == 6 && "destroy"@.len() == 7 && "destroy"@[0] == 'd');
    assert("stop"@.len() == 4 && "stop"@[0] == 's' && "nuke"@.len() == 4 && "nuke"@[0] == 'n');
    assert("start"@.len() == 5 && "rebuild"@.len() == 7 && "rebuild"@[0] == 'r');
}

/// What a destroy says afterwards is true of it: the volumes it freed, the work
/// that went with it wherever any did, and a failure as one.
pub proof fn a_destroy_owns_up(
    out: Seq<char>,
    slug: Seq<char>,
    outcome: Result<DestroyReport, String>,
)
    requires
        destroy_said(out, slug, outcome),
    ensures
        outcome is Ok ==> crate::text::begins_with(out, "Destroyed "@ + slug),
        outcome matches Err(reason) ==> out == "Destroy failed: "@ + reason@,
        outcome matches Ok(report) ==> {
            &&& report.removed_volumes == 0 && report.unpublished == 0 && report.dirty_files == 0
                ==> out == "Destroyed "@ + slug
            &&& report.removed_volumes > 0 ==> crate::text::holds_text(
                out,
                decimal_of(report.removed_volumes as nat) + " volume"@,
            )
            &&& report.unpublished > 0 || report.dirty_files > 0 ==> crate::text::holds_text(
                out,
                decimal_of(report.unpublished as nat) + " unpublished branch(es) and "@ + decimal_of(
                    report.dirty_files as nat,
                ) + " uncommitted file(s) went with it"@,
            )
        },
{
    if let Ok(report) = outcome {
        let lead = "Destroyed "@ + slug;
        let freed = if report.removed_volumes > 0 {
            " · "@ + decimal_of(report.removed_volumes as nat) + " volume"@ + plural_of(
                report.removed_volumes as int,
            ) + " freed"@
        } else {
            ""@
        };
        let lost = if report.lost_work() {
            " · "@ + decimal_of(report.unpublished as nat) + " unpublished branch(es) and "@
                + decimal_of(report.dirty_files as nat) + " uncommitted file(s) went with it"@
        } else {
            ""@
        };
        assert(""@ =~= Seq::<char>::empty()) by {
            reveal_strlit("");
        }
        lemma_three_parts(lead, freed, lost);
        if report.removed_volumes > 0 {
            lemma_freed(report.removed_volumes);
            lemma_holds_part(
                lead,
                freed,
                lost,
                decimal_of(report.removed_volumes as nat) + " volume"@,
            );
        }
        if report.lost_work() {
            lemma_lost(report.unpublished, report.dirty_files);
            lemma_holds_part(
                lead + freed,
                lost,
                Seq::empty(),
                decimal_of(report.unpublished as nat) + " unpublished branch(es) and "@
                    + decimal_of(report.dirty_files as nat) + " uncommitted file(s) went with it"@,
            );
        }
    }
}

proof fn lemma_three_parts(a: Seq<char>, b: Seq<char>, c: Seq<char>)
    ensures
        crate::text::begins_with(a + b + c, a),
        a + b + c == (a + b) + c + Seq::<char>::empty(),
        b.len() == 0 && c.len() == 0 ==> a + b + c == a,
{
    assert((a + b + c).subrange(0, a.len() as int) =~= a);
    assert(a + b + c =~= (a + b) + c + Seq::<char>::empty());
    if b.len() == 0 && c.len() == 0 {
        assert(a + b + c =~= a);
    }
}

proof fn lemma_freed(n: usize)
    ensures
        crate::text::holds_text(
            " · "@ + decimal_of(n as nat) + " volume"@ + plural_of(n as int) + " freed"@,
            decimal_of(n as nat) + " volume"@,
        ),
{
    let said = decimal_of(n as nat) + " volume"@;
    let back = plural_of(n as int) + " freed"@;
    assert(" · "@ + decimal_of(n as nat) + " volume"@ + plural_of(n as int) + " freed"@
        =~= " · "@ + said + back);
    crate::text::lemma_holds_middle(" · "@, said, back);
}

proof fn lemma_lost(unpublished: usize, dirty: usize)
    ensures
        crate::text::holds_text(
            " · "@ + decimal_of(unpublished as nat) + " unpublished branch(es) and "@ + decimal_of(
                dirty as nat,
            ) + " uncommitted file(s) went with it"@,
            decimal_of(unpublished as nat) + " unpublished branch(es) and "@ + decimal_of(
                dirty as nat,
            ) + " uncommitted file(s) went with it"@,
        ),
{
    let said = decimal_of(unpublished as nat) + " unpublished branch(es) and "@ + decimal_of(
        dirty as nat,
    ) + " uncommitted file(s) went with it"@;
    assert(" · "@ + decimal_of(unpublished as nat) + " unpublished branch(es) and "@ + decimal_of(
        dirty as nat,
    ) + " uncommitted file(s) went with it"@ =~= " · "@ + said);
    crate::text::lemma_holds_end(" · "@, said);
}

} // verus!
