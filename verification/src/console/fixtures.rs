//! A fabricated fleet and a fabricated queue, for the pictures of this pane.
//!
//! What a picture has to show is the rendering, and the rendering's only input
//! is facts: so the facts are made up, and everything downstream of them is the
//! genuine article.

use vstd::prelude::*;
use crate::console::facts::Console;
use crate::console::issues::{Comment, Issue, Resolution};
use crate::console::review::{Mergedness, ReviewFacts};
use crate::environment::{
    Claim, ConfigAuthority, DiskUsage, EnvironmentId, ReviewState, SupervisorState,
};
use crate::fleet::{string_view, ChatBinding, EnvFacts, EnvGit, Spend};
use crate::text::texts;

verus! {

/// What one fabricated issue says.
pub struct IssueFixture {
    pub id: Seq<char>,
    pub title: Seq<char>,
    pub resolution: Resolution,
    pub started_by: Option<Seq<char>>,
    /// How old it is, in seconds.
    pub age: int,
    pub body: Seq<char>,
}

/// Whether an issue says what a fixture does, as of `now`.
pub open spec fn issue_of(issue: Issue, fixture: IssueFixture, now: int) -> bool {
    &&& issue.id@ == fixture.id
    &&& issue.title@ == fixture.title
    &&& issue.resolution == fixture.resolution
    &&& issue.reporter@ == "primary"@
    &&& string_view(issue.started_by) == fixture.started_by
    &&& issue.created == now - fixture.age
    &&& issue.updated == now - fixture.age / 2
    &&& issue.body@ == fixture.body
    &&& issue.claimant is None
    &&& issue.agent is None
    &&& issue.model is None
    &&& issue.labels@.len() == 0
    &&& issue.links@.len() == 0
    &&& issue.attachments@.len() == 0
}

/// The fabricated queue, in an authored order rather than by id, with all the
/// states an issue can be in.
pub open spec fn queue_fixture() -> Seq<IssueFixture> {
    seq![
        IssueFixture {
            id: "i-0007"@,
            title: "The composer loses a half-typed follow-up on switch"@,
            resolution: Resolution::Open,
            started_by: Some("david@atelier"@),
            age: 9_000,
            body: "Type into the prompt box, switch environments, come back: the text is gone. The pane is never destroyed, so the buffer should still be there."@,
        },
        IssueFixture {
            id: "i-0002"@,
            title: "Decide what a stopped environment costs"@,
            resolution: Resolution::Open,
            started_by: Some("david@atelier"@),
            age: 52_000,
            body: "Idle-stop keeps the clone and the volumes, so the footprint does not move when a container stops — worth saying so on the row."@,
        },
        IssueFixture {
            id: "i-0005"@,
            title: "Serve the fleet over varlink"@,
            resolution: Resolution::Open,
            started_by: Some("david@atelier"@),
            age: 30_000,
            body: "One socket the gadget and the shell read the same rows from, so a second renderer is never a second derivation of podman and git."@,
        },
        IssueFixture {
            id: "i-0009"@,
            title: "Sparklines should survive a fleet rebuild"@,
            resolution: Resolution::Open,
            started_by: None,
            age: 4_000,
            body: "The panel rebuilds its list when the entries change, and each rebuild starts every sparkline empty for up to a second."@,
        },
        IssueFixture {
            id: "i-0004"@,
            title: "Terminal tabs should keep their output after the process exits"@,
            resolution: Resolution::Completed,
            started_by: Some("david@atelier"@),
            age: 260_000,
            body: "Closing on exit throws away the record of what happened."@,
        },
        IssueFixture {
            id: "i-0011"@,
            title: "Add a per-project settings file"@,
            resolution: Resolution::Declined,
            started_by: None,
            age: 180_000,
            body: "One file per project for the things the IDE currently decides."@,
        },
    ]
}

fn issue(
    id: &str,
    title: &str,
    resolution: Resolution,
    started_by: Option<&str>,
    now: i64,
    age: i64,
    body: &str,
) -> (out: Issue)
    requires
        0 <= now,
        0 <= age <= 1_000_000,
    ensures
        issue_of(
            out,
            IssueFixture {
                id: id@,
                title: title@,
                resolution,
                started_by: crate::fleet::text_view(started_by),
                age: age as int,
                body: body@,
            },
            now as int,
        ),
        out.comments@.len() == 0,
{
    let started_by = match started_by {
        Some(by) => Some(by.to_owned()),
        None => None,
    };
    Issue {
        id: id.to_owned(),
        title: title.to_owned(),
        resolution,
        reporter: "primary".to_owned(),
        started_by,
        claimant: None,
        agent: None,
        model: None,
        created: now - age,
        updated: now - age / 2,
        labels: Vec::new(),
        links: Vec::new(),
        body: body.to_owned(),
        comments: Vec::new(),
        attachments: Vec::new(),
    }
}

/// A queue with something on it, as of `now`. Only the declined issue has a
/// comment: the decision on its trail is the whole difference between declining
/// and deleting.
pub open spec fn is_queue_fixture(issues: Seq<Issue>, now: int) -> bool {
    &&& issues.len() == queue_fixture().len()
    &&& forall|i: int|
        0 <= i < issues.len() ==> issue_of(#[trigger] issues[i], queue_fixture()[i], now)
    &&& forall|i: int|
        0 <= i < issues.len() && issues[i].resolution != Resolution::Declined ==> (
        #[trigger] issues[i]).comments@.len() == 0
    &&& {
        let trail = issues[5].comments@;
        &&& trail.len() == 1
        &&& trail[0].seq == 1
        &&& trail[0].author@ == "primary"@
        &&& trail[0].created == now - 90_000
        &&& trail[0].body@
            == "Declined: convention over configuration — this is the extension point the architecture refuses."@
    }
}

fn fixture_queue(now: i64) -> (out: Vec<Issue>)
    requires
        0 <= now,
    ensures
        is_queue_fixture(out@, now as int),
{
    let mut declined = issue(
        "i-0011",
        "Add a per-project settings file",
        Resolution::Declined,
        None,
        now,
        180_000,
        "One file per project for the things the IDE currently decides.",
    );
    declined.comments.push(
        Comment {
            seq: 1,
            author: "primary".to_owned(),
            created: now - 90_000,
            body: "Declined: convention over configuration — this is the extension point the architecture refuses.".to_owned(),
        },
    );
    let mut out: Vec<Issue> = Vec::new();
    out.push(
        issue(
            "i-0007",
            "The composer loses a half-typed follow-up on switch",
            Resolution::Open,
            Some("david@atelier"),
            now,
            9_000,
            "Type into the prompt box, switch environments, come back: the text is gone. The pane is never destroyed, so the buffer should still be there.",
        ),
    );
    out.push(
        issue(
            "i-0002",
            "Decide what a stopped environment costs",
            Resolution::Open,
            Some("david@atelier"),
            now,
            52_000,
            "Idle-stop keeps the clone and the volumes, so the footprint does not move when a container stops — worth saying so on the row.",
        ),
    );
    out.push(
        issue(
            "i-0005",
            "Serve the fleet over varlink",
            Resolution::Open,
            Some("david@atelier"),
            now,
            30_000,
            "One socket the gadget and the shell read the same rows from, so a second renderer is never a second derivation of podman and git.",
        ),
    );
    out.push(
        issue(
            "i-0009",
            "Sparklines should survive a fleet rebuild",
            Resolution::Open,
            None,
            now,
            4_000,
            "The panel rebuilds its list when the entries change, and each rebuild starts every sparkline empty for up to a second.",
        ),
    );
    out.push(
        issue(
            "i-0004",
            "Terminal tabs should keep their output after the process exits",
            Resolution::Completed,
            Some("david@atelier"),
            now,
            260_000,
            "Closing on exit throws away the record of what happened.",
        ),
    );
    out.push(declined);
    out
}

/// What one fabricated environment says.
pub struct EnvFixture {
    pub slug: Seq<char>,
    pub chat: Seq<char>,
    pub busy: bool,
    pub awaits_user: bool,
    pub orchestrator: bool,
    pub branch: Seq<char>,
    pub unpublished: int,
    pub dirty: int,
    pub checkout_mib: int,
    pub volume_mib: int,
    pub spend: Spend,
    pub shells: int,
    pub review: ReviewState,
    pub working_on: Seq<char>,
}

/// Whether facts say what a fixture does. An environment claims the issue it
/// is named after.
pub open spec fn facts_of(facts: EnvFacts, fixture: EnvFixture) -> bool {
    &&& facts.env@ == fixture.slug
    &&& facts.authority == ConfigAuthority::Project
    &&& facts.chat matches Some(chat) && chat.label@ == fixture.chat && chat.busy == fixture.busy
        && chat.awaits_user == fixture.awaits_user && chat.orchestrator == fixture.orchestrator
    &&& facts.git matches Some(git) && string_view(git.branch) == Some(fixture.branch)
        && git.unpublished == fixture.unpublished && git.dirty == fixture.dirty
    &&& facts.disk matches Some(disk) && disk.checkout_bytes == fixture.checkout_mib * 1048576
        && disk.volume_bytes == fixture.volume_mib * 1048576 && disk.volumes_measured == 2
        && disk.volumes_unmeasured == 0
    &&& facts.spend == fixture.spend
    &&& facts.shells == fixture.shells
    &&& facts.review == fixture.review
    &&& facts.working_on@.len() == 1
    &&& facts.working_on@[0].id@ == fixture.slug
    &&& facts.working_on@[0].title@ == fixture.working_on
}

/// One of every state a fleet is found in: the orchestrator working, a worker
/// mid-build, one whose work waits for review, and one that asks a question.
pub open spec fn fleet_fixture() -> Seq<EnvFixture> {
    seq![
        EnvFixture {
            slug: "i-0007"@,
            chat: "Orchestrator"@,
            busy: true,
            awaits_user: false,
            orchestrator: true,
            branch: "topic/composer-buffer"@,
            unpublished: 2,
            dirty: 4,
            checkout_mib: 412,
            volume_mib: 1600,
            spend: Spend { requests: 37, input_tokens: 412_000, output_tokens: 21_400 },
            shells: 3,
            review: ReviewState::Working,
            working_on: "The composer loses a half-typed follow-up on switch"@,
        },
        EnvFixture {
            slug: "i-0005"@,
            chat: "Varlink service"@,
            busy: false,
            awaits_user: false,
            orchestrator: false,
            branch: "topic/fleet-varlink"@,
            unpublished: 0,
            dirty: 0,
            checkout_mib: 401,
            volume_mib: 96,
            spend: Spend { requests: 6, input_tokens: 41_200, output_tokens: 2_800 },
            shells: 0,
            review: ReviewState::Working,
            working_on: "Serve the fleet over varlink"@,
        },
        EnvFixture {
            slug: "i-0002"@,
            chat: "Disk accounting"@,
            busy: false,
            awaits_user: false,
            orchestrator: false,
            branch: "topic/disk-footprint"@,
            unpublished: 0,
            dirty: 0,
            checkout_mib: 395,
            volume_mib: 1180,
            spend: Spend { requests: 14, input_tokens: 96_500, output_tokens: 5_100 },
            shells: 0,
            review: ReviewState::FlaggedForReview,
            working_on: "Decide what a stopped environment costs"@,
        },
        EnvFixture {
            slug: "i-0004"@,
            chat: "Terminal roster"@,
            busy: true,
            awaits_user: true,
            orchestrator: false,
            branch: "topic/keep-output"@,
            unpublished: 1,
            dirty: 2,
            checkout_mib: 398,
            volume_mib: 2140,
            spend: Spend { requests: 22, input_tokens: 188_400, output_tokens: 9_600 },
            shells: 2,
            review: ReviewState::Working,
            working_on: "Terminal tabs should keep their output after the process exits"@,
        },
    ]
}

/// The container of a fabricated environment, by its place.
pub open spec fn state_fixture(state: SupervisorState, i: int) -> bool {
    if i == 0 {
        state matches SupervisorState::Running { container_id } && container_id@ == "9f2c1a"@
    } else if i == 1 {
        state == SupervisorState::Building
    } else if i == 2 {
        state == SupervisorState::Stopped
    } else {
        state matches SupervisorState::Running { container_id } && container_id@ == "3e7b04"@
    }
}

struct ChatFlags {
    busy: bool,
    awaits_user: bool,
    orchestrator: bool,
}

fn make(
    slug: &str,
    state: SupervisorState,
    pending_rebuild: bool,
    chat: &str,
    flags: ChatFlags,
    git: (&str, usize, usize),
    disk_mib: (u64, u64),
    spend: Spend,
    shells: usize,
    review: ReviewState,
    working_on: &str,
) -> (out: EnvFacts)
    requires
        disk_mib.0 <= 10_000,
        disk_mib.1 <= 10_000,
    ensures
        out.state == state,
        out.pending_rebuild == pending_rebuild,
        facts_of(
            out,
            EnvFixture {
                slug: slug@,
                chat: chat@,
                busy: flags.busy,
                awaits_user: flags.awaits_user,
                orchestrator: flags.orchestrator,
                branch: git.0@,
                unpublished: git.1 as int,
                dirty: git.2 as int,
                checkout_mib: disk_mib.0 as int,
                volume_mib: disk_mib.1 as int,
                spend,
                shells: shells as int,
                review,
                working_on: working_on@,
            },
        ),
{
    let mut claims: Vec<Claim> = Vec::new();
    claims.push(Claim { id: slug.to_owned(), title: working_on.to_owned() });
    EnvFacts {
        env: EnvironmentId::new(slug),
        state,
        authority: ConfigAuthority::Project,
        pending_rebuild,
        chat: Some(
            ChatBinding {
                label: chat.to_owned(),
                busy: flags.busy,
                awaits_user: flags.awaits_user,
                orchestrator: flags.orchestrator,
            },
        ),
        git: Some(
            EnvGit { branch: Some(git.0.to_owned()), unpublished: git.1, dirty: git.2 },
        ),
        disk: Some(
            DiskUsage {
                checkout_bytes: disk_mib.0 * 1048576,
                volume_bytes: disk_mib.1 * 1048576,
                volumes_measured: 2,
                volumes_unmeasured: 0,
            },
        ),
        spend,
        shells,
        review,
        working_on: claims,
    }
}

/// A fleet with more than one environment in it, as many of them as `keep`
/// allows. The first one's configuration drifted under its running container.
pub open spec fn is_fleet_fixture(facts: Seq<EnvFacts>, keep: int) -> bool {
    &&& facts.len() == if keep < 4 {
        keep
    } else {
        4
    }
    &&& forall|i: int|
        0 <= i < facts.len() ==> facts_of(#[trigger] facts[i], fleet_fixture()[i])
            && state_fixture(facts[i].state, i) && facts[i].pending_rebuild == (i == 0)
}

fn fixture_fleet(keep: usize) -> (out: Vec<EnvFacts>)
    ensures
        is_fleet_fixture(out@, keep as int),
{
    let mut out: Vec<EnvFacts> = Vec::new();
    out.push(
        make(
            "i-0007",
            SupervisorState::Running { container_id: "9f2c1a".to_owned() },
            true,
            "Orchestrator",
            ChatFlags { busy: true, awaits_user: false, orchestrator: true },
            ("topic/composer-buffer", 2, 4),
            (412, 1600),
            Spend { requests: 37, input_tokens: 412_000, output_tokens: 21_400 },
            3,
            ReviewState::Working,
            "The composer loses a half-typed follow-up on switch",
        ),
    );
    out.push(
        make(
            "i-0005",
            SupervisorState::Building,
            false,
            "Varlink service",
            ChatFlags { busy: false, awaits_user: false, orchestrator: false },
            ("topic/fleet-varlink", 0, 0),
            (401, 96),
            Spend { requests: 6, input_tokens: 41_200, output_tokens: 2_800 },
            0,
            ReviewState::Working,
            "Serve the fleet over varlink",
        ),
    );
    out.push(
        make(
            "i-0002",
            SupervisorState::Stopped,
            false,
            "Disk accounting",
            ChatFlags { busy: false, awaits_user: false, orchestrator: false },
            ("topic/disk-footprint", 0, 0),
            (395, 1180),
            Spend { requests: 14, input_tokens: 96_500, output_tokens: 5_100 },
            0,
            ReviewState::FlaggedForReview,
            "Decide what a stopped environment costs",
        ),
    );
    out.push(
        make(
            "i-0004",
            SupervisorState::Running { container_id: "3e7b04".to_owned() },
            false,
            "Terminal roster",
            ChatFlags { busy: true, awaits_user: true, orchestrator: false },
            ("topic/keep-output", 1, 2),
            (398, 2140),
            Spend { requests: 22, input_tokens: 188_400, output_tokens: 9_600 },
            2,
            ReviewState::Working,
            "Terminal tabs should keep their output after the process exits",
        ),
    );
    out.truncate(keep);
    out
}

fn fixture_branches() -> (out: Vec<String>)
    ensures
        out@.len() == 2,
        out@[0]@ == "agents/i-0007"@,
        out@[1]@ == "agents/i-0002"@,
{
    let mut out: Vec<String> = Vec::new();
    out.push("agents/i-0007".to_owned());
    out.push("agents/i-0002".to_owned());
    out
}

/// Where the flagged one's branch stands: published, ahead, and not yet in.
pub open spec fn is_review_fixture(facts: ReviewFacts) -> bool {
    &&& facts.branch@ == "agents/i-0002"@
    &&& facts.target@ == "main"@
    &&& facts.mergedness matches Some(merged) && merged.branch@ == "agents/i-0002"@
        && merged.checked is None && merged.ahead == 6 && !merged.merged && merged.note is None
}

fn fixture_review() -> (out: ReviewFacts)
    ensures
        is_review_fixture(out),
{
    ReviewFacts {
        branch: "agents/i-0002".to_owned(),
        target: "main".to_owned(),
        mergedness: Some(
            Mergedness {
                branch: "agents/i-0002".to_owned(),
                checked: None,
                ahead: 6,
                merged: false,
                note: None,
            },
        ),
    }
}

impl Console {
    /// Put a fabricated queue in place of the real one, which is not read from
    /// then on.
    pub fn seed_issues_for_probe(&mut self, now: i64)
        requires
            0 <= now,
        ensures
            is_queue_fixture(final(self).issues@, now as int),
            *final(self) == (Console {
                issues: final(self).issues,
                probe_issues: true,
                ..*old(self)
            }),
    {
        self.probe_issues = true;
        self.issues = fixture_queue(now);
    }

    /// Put a fabricated fleet behind the real one, as many environments of it
    /// as `keep` allows, with the branches of record it has published and the
    /// review that the flagged one waits for.
    pub fn seed_fleet_for_probe(&mut self, keep: usize)
        ensures
            old(self).wf() ==> final(self).wf(),
            is_fleet_fixture(final(self).probe_rows@, keep as int),
            texts(final(self).published@) == seq!["agents/i-0007"@, "agents/i-0002"@],
            final(self).review_facts.fact("i-0002"@) matches Some(facts) && is_review_fixture(
                facts,
            ),
            forall|slug: Seq<char>|
                slug != "i-0002"@ ==> (#[trigger] final(self).review_facts.fact(slug)) == old(
                    self,
                ).review_facts.fact(slug),
            *final(self) == (Console {
                probe_rows: final(self).probe_rows,
                published: final(self).published,
                review_facts: final(self).review_facts,
                ..*old(self)
            }),
    {
        self.probe_rows = fixture_fleet(keep);
        self.published = fixture_branches();
        assert(texts(self.published@) =~= seq!["agents/i-0007"@, "agents/i-0002"@]);
        self.review_facts.insert(EnvironmentId::new("i-0002"), fixture_review());
    }
}

/// The fabricated fleet is of one piece with the fabricated queue: every
/// environment works on an issue of the queue, under that issue's title, and the
/// pictures show one that works, one that builds, one that waits for review and
/// one that asks.
pub proof fn a_fixture_is_of_one_piece(i: int)
    requires
        0 <= i < fleet_fixture().len(),
    ensures
        exists|k: int|
            0 <= k < queue_fixture().len() && (#[trigger] queue_fixture()[k]).id
                == fleet_fixture()[i].slug && queue_fixture()[k].title
                == fleet_fixture()[i].working_on,
        fleet_fixture()[i].orchestrator <==> i == 0,
        fleet_fixture()[i].awaits_user ==> fleet_fixture()[i].busy,
        exists|k: int|
            0 <= k < fleet_fixture().len() && (#[trigger] fleet_fixture()[k]).review
                == ReviewState::FlaggedForReview,
        exists|k: int| 0 <= k < fleet_fixture().len() && (#[trigger] fleet_fixture()[k]).awaits_user,
        forall|k: int|
            0 <= k < queue_fixture().len() && (#[trigger] queue_fixture()[k]).resolution
                == Resolution::Declined ==> k == 5,
{
    let queue = queue_fixture();
    let fleet = fleet_fixture();
    assert(queue.len() == 6 && fleet.len() == 4);
    assert(queue[0].id == fleet[0].slug && queue[2].id == fleet[1].slug && queue[1].id
        == fleet[2].slug && queue[4].id == fleet[3].slug);
    assert(fleet[2].review == ReviewState::FlaggedForReview);
    assert(fleet[3].awaits_user);
}

} // verus!
