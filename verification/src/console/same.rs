//! Whether anything moved.
//!
//! State arrives constantly, and most of it says what was said a moment ago:
//! redrawing for that would be a frame nobody asked for.

use vstd::prelude::*;
use crate::console::issues::{Comment, Issue};
use crate::environment::{Claim, EnvironmentId, SupervisorState};
use crate::fleet::{string_view, ChatBinding, EnvGit, FleetRow, PoolFacts};
use crate::quota::{PlanWindow, QuotaSnapshot, Refusal};
use crate::text::texts;

verus! {

/// Two optional texts with the same words, or neither.
pub fn same_text(a: &Option<String>, b: &Option<String>) -> (r: bool)
    ensures
        r == (string_view(*a) == string_view(*b)),
{
    match (a, b) {
        (Some(a), Some(b)) => *a == *b,
        (None, None) => true,
        _ => false,
    }
}

/// Two container states that say the same.
pub open spec fn states_agree(a: SupervisorState, b: SupervisorState) -> bool {
    match (a, b) {
        (
            SupervisorState::Running { container_id: x },
            SupervisorState::Running { container_id: y },
        ) => x@ == y@,
        (
            SupervisorState::Failed { message: x },
            SupervisorState::Failed { message: y },
        ) => x@ == y@,
        (SupervisorState::NoConfig, SupervisorState::NoConfig) => true,
        (SupervisorState::ConfigDetected, SupervisorState::ConfigDetected) => true,
        (SupervisorState::Building, SupervisorState::Building) => true,
        (SupervisorState::Starting, SupervisorState::Starting) => true,
        (SupervisorState::Stopped, SupervisorState::Stopped) => true,
        _ => false,
    }
}

fn same_state(a: &SupervisorState, b: &SupervisorState) -> (r: bool)
    ensures
        r == states_agree(*a, *b),
{
    match (a, b) {
        (
            SupervisorState::Running { container_id: x },
            SupervisorState::Running { container_id: y },
        ) => *x == *y,
        (
            SupervisorState::Failed { message: x },
            SupervisorState::Failed { message: y },
        ) => *x == *y,
        (SupervisorState::NoConfig, SupervisorState::NoConfig) => true,
        (SupervisorState::ConfigDetected, SupervisorState::ConfigDetected) => true,
        (SupervisorState::Building, SupervisorState::Building) => true,
        (SupervisorState::Starting, SupervisorState::Starting) => true,
        (SupervisorState::Stopped, SupervisorState::Stopped) => true,
        _ => false,
    }
}

/// Two chats that say the same, or no chat twice.
pub open spec fn chats_agree(a: Option<ChatBinding>, b: Option<ChatBinding>) -> bool {
    match (a, b) {
        (Some(a), Some(b)) => a.label@ == b.label@ && a.busy == b.busy && a.awaits_user
            == b.awaits_user && a.orchestrator == b.orchestrator,
        (None, None) => true,
        _ => false,
    }
}

fn same_chat(a: &Option<ChatBinding>, b: &Option<ChatBinding>) -> (r: bool)
    ensures
        r == chats_agree(*a, *b),
{
    match (a, b) {
        (Some(a), Some(b)) => a.label == b.label && a.busy == b.busy && a.awaits_user
            == b.awaits_user && a.orchestrator == b.orchestrator,
        (None, None) => true,
        _ => false,
    }
}

/// Two checkouts that say the same, or none twice.
pub open spec fn checkouts_agree(a: Option<EnvGit>, b: Option<EnvGit>) -> bool {
    match (a, b) {
        (Some(a), Some(b)) => string_view(a.branch) == string_view(b.branch) && a.unpublished
            == b.unpublished && a.dirty == b.dirty,
        (None, None) => true,
        _ => false,
    }
}

fn same_git(a: &Option<EnvGit>, b: &Option<EnvGit>) -> (r: bool)
    ensures
        r == checkouts_agree(*a, *b),
{
    match (a, b) {
        (Some(a), Some(b)) => same_text(&a.branch, &b.branch) && a.unpublished == b.unpublished
            && a.dirty == b.dirty,
        (None, None) => true,
        _ => false,
    }
}

/// Two claims to the same issue, under the same title.
pub open spec fn claims_agree(a: Seq<Claim>, b: Seq<Claim>) -> bool {
    a.len() == b.len() && forall|i: int|
        0 <= i < a.len() ==> (#[trigger] a[i]).id@ == b[i].id@ && a[i].title@ == b[i].title@
}

fn same_claims(a: &Vec<Claim>, b: &Vec<Claim>) -> (r: bool)
    ensures
        r == claims_agree(a@, b@),
{
    if a.len() != b.len() {
        return false;
    }
    let mut i: usize = 0;
    while i < a.len()
        invariant
            a@.len() == b@.len(),
            i <= a@.len(),
            forall|j: int|
                0 <= j < i ==> (#[trigger] a@[j]).id@ == b@[j].id@ && a@[j].title@ == b@[j].title@,
        decreases a@.len() - i,
    {
        if !(a[i].id == b[i].id && a[i].title == b[i].title) {
            assert(!(a@[i as int].id@ == b@[i as int].id@ && a@[i as int].title@
                == b@[i as int].title@));
            return false;
        }
        i += 1;
    }
    true
}

/// Two rows that would render the same.
pub open spec fn rows_agree(a: FleetRow, b: FleetRow) -> bool {
    &&& a.env@ == b.env@
    &&& a.primary == b.primary
    &&& a.name@ == b.name@
    &&& a.named == b.named
    &&& states_agree(a.state, b.state)
    &&& a.authority == b.authority
    &&& a.pending_rebuild == b.pending_rebuild
    &&& chats_agree(a.chat, b.chat)
    &&& checkouts_agree(a.git, b.git)
    &&& a.published == b.published
    &&& a.disk == b.disk
    &&& a.spend == b.spend
    &&& a.shells == b.shells
    &&& a.review == b.review
    &&& claims_agree(a.working_on@, b.working_on@)
}

fn same_row(a: &FleetRow, b: &FleetRow) -> (r: bool)
    ensures
        r == rows_agree(*a, *b),
{
    let disk = match (a.disk, b.disk) {
        (Some(x), Some(y)) => x == y,
        (None, None) => true,
        _ => false,
    };
    disk && a.env.same_as(&b.env) && a.primary == b.primary && a.name == b.name && a.named
        == b.named && same_state(&a.state, &b.state) && a.authority == b.authority
        && a.pending_rebuild == b.pending_rebuild && same_chat(&a.chat, &b.chat) && same_git(
        &a.git,
        &b.git,
    ) && a.published == b.published && a.spend == b.spend && a.shells == b.shells && a.review
        == b.review && same_claims(&a.working_on, &b.working_on)
}

/// Two fleets that would render the same.
pub open spec fn fleets_agree(a: Seq<FleetRow>, b: Seq<FleetRow>) -> bool {
    a.len() == b.len() && forall|i: int| 0 <= i < a.len() ==> rows_agree(#[trigger] a[i], b[i])
}

/// Whether two fleets would render the same.
pub fn same_fleet(a: &Vec<FleetRow>, b: &Vec<FleetRow>) -> (r: bool)
    ensures
        r == fleets_agree(a@, b@),
{
    if a.len() != b.len() {
        return false;
    }
    let mut i: usize = 0;
    while i < a.len()
        invariant
            a@.len() == b@.len(),
            i <= a@.len(),
            forall|j: int| 0 <= j < i ==> rows_agree(#[trigger] a@[j], b@[j]),
        decreases a@.len() - i,
    {
        if !same_row(&a[i], &b[i]) {
            assert(!rows_agree(a@[i as int], b@[i as int]));
            return false;
        }
        i += 1;
    }
    true
}

/// Two plan windows that were observed alike.
pub open spec fn windows_agree(a: PlanWindow, b: PlanWindow) -> bool {
    &&& string_view(a.label) == string_view(b.label)
    &&& a.utilization == b.utilization
    &&& a.window == b.window
    &&& string_view(a.status) == string_view(b.status)
}

fn same_window(a: &PlanWindow, b: &PlanWindow) -> (r: bool)
    ensures
        r == windows_agree(*a, *b),
{
    let share = match (a.utilization, b.utilization) {
        (Some(x), Some(y)) => x == y,
        (None, None) => true,
        _ => false,
    };
    share && a.window == b.window && same_text(&a.label, &b.label) && same_text(
        &a.status,
        &b.status,
    )
}

fn same_moment(a: Option<u64>, b: Option<u64>) -> (r: bool)
    ensures
        r == (a == b),
{
    match (a, b) {
        (Some(x), Some(y)) => x == y,
        (None, None) => true,
        _ => false,
    }
}

/// Two refusals that were observed alike, or none twice.
pub open spec fn refusals_agree(a: Option<Refusal>, b: Option<Refusal>) -> bool {
    match (a, b) {
        (Some(a), Some(b)) => a.until == b.until && string_view(a.message) == string_view(
            b.message,
        ),
        (None, None) => true,
        _ => false,
    }
}

fn same_refusal(a: &Option<Refusal>, b: &Option<Refusal>) -> (r: bool)
    ensures
        r == refusals_agree(*a, *b),
{
    match (a, b) {
        (Some(a), Some(b)) => same_moment(a.until, b.until) && same_text(&a.message, &b.message),
        (None, None) => true,
        _ => false,
    }
}

/// Two snapshots of one observation. How long ago it was made is no part of
/// it.
pub open spec fn snapshots_agree(a: QuotaSnapshot, b: QuotaSnapshot) -> bool {
    &&& a.observed_at == b.observed_at
    &&& string_view(a.observed_for) == string_view(b.observed_for)
    &&& windows_agree(a.session, b.session)
    &&& windows_agree(a.weekly, b.weekly)
    &&& a.requests == b.requests
    &&& a.input_tokens == b.input_tokens
    &&& a.output_tokens == b.output_tokens
    &&& refusals_agree(a.refusal, b.refusal)
}

/// Whether two snapshots are of one observation.
pub fn same_snapshot(a: &QuotaSnapshot, b: &QuotaSnapshot) -> (r: bool)
    ensures
        r == snapshots_agree(*a, *b),
{
    same_moment(a.observed_at, b.observed_at) && same_text(&a.observed_for, &b.observed_for)
        && same_window(&a.session, &b.session) && same_window(&a.weekly, &b.weekly) && a.requests
        == b.requests && a.input_tokens == b.input_tokens && a.output_tokens == b.output_tokens
        && same_refusal(&a.refusal, &b.refusal)
}

/// Two pools that say the same.
pub open spec fn pools_agree(a: PoolFacts, b: PoolFacts) -> bool {
    &&& snapshots_agree(a.quota, b.quota)
    &&& a.spenders@.len() == b.spenders@.len()
    &&& forall|i: int|
        0 <= i < a.spenders@.len() ==> (#[trigger] a.spenders@[i]).0@ == b.spenders@[i].0@
            && a.spenders@[i].1 == b.spenders@[i].1
}

/// Whether two pools say the same.
pub fn same_pool(a: &PoolFacts, b: &PoolFacts) -> (r: bool)
    ensures
        r == pools_agree(*a, *b),
{
    if !same_snapshot(&a.quota, &b.quota) || a.spenders.len() != b.spenders.len() {
        return false;
    }
    let mut i: usize = 0;
    while i < a.spenders.len()
        invariant
            a.spenders@.len() == b.spenders@.len(),
            i <= a.spenders@.len(),
            forall|j: int|
                0 <= j < i ==> (#[trigger] a.spenders@[j]).0@ == b.spenders@[j].0@
                    && a.spenders@[j].1 == b.spenders@[j].1,
        decreases a.spenders@.len() - i,
    {
        if !(a.spenders[i].0 == b.spenders[i].0 && a.spenders[i].1 == b.spenders[i].1) {
            assert(!(a.spenders@[i as int].0@ == b.spenders@[i as int].0@ && a.spenders@[i as int].1
                == b.spenders@[i as int].1));
            return false;
        }
        i += 1;
    }
    true
}

/// Two trails of comments that read the same.
pub open spec fn comments_agree(a: Seq<Comment>, b: Seq<Comment>) -> bool {
    a.len() == b.len() && forall|i: int|
        0 <= i < a.len() ==> (#[trigger] a[i]).seq == b[i].seq && a[i].author@ == b[i].author@
            && a[i].created == b[i].created && a[i].body@ == b[i].body@
}

fn same_comments(a: &Vec<Comment>, b: &Vec<Comment>) -> (r: bool)
    ensures
        r == comments_agree(a@, b@),
{
    if a.len() != b.len() {
        return false;
    }
    let mut i: usize = 0;
    while i < a.len()
        invariant
            a@.len() == b@.len(),
            i <= a@.len(),
            forall|j: int|
                0 <= j < i ==> (#[trigger] a@[j]).seq == b@[j].seq && a@[j].author@ == b@[j].author@
                    && a@[j].created == b@[j].created && a@[j].body@ == b@[j].body@,
        decreases a@.len() - i,
    {
        if !(a[i].seq == b[i].seq && a[i].author == b[i].author && a[i].created == b[i].created
            && a[i].body == b[i].body) {
            assert(!(a@[i as int].seq == b@[i as int].seq && a@[i as int].author@
                == b@[i as int].author@ && a@[i as int].created == b@[i as int].created
                && a@[i as int].body@ == b@[i as int].body@));
            return false;
        }
        i += 1;
    }
    true
}

/// Whether two lists of texts read the same.
pub fn same_texts(a: &Vec<String>, b: &Vec<String>) -> (r: bool)
    ensures
        r == (texts(a@) == texts(b@)),
{
    assert(texts(a@).len() == a@.len() && texts(b@).len() == b@.len());
    if a.len() != b.len() {
        return false;
    }
    let mut i: usize = 0;
    while i < a.len()
        invariant
            a@.len() == b@.len(),
            i <= a@.len(),
            forall|j: int| 0 <= j < i ==> (#[trigger] a@[j])@ == b@[j]@,
        decreases a@.len() - i,
    {
        if a[i] != b[i] {
            assert(texts(a@)[i as int] != texts(b@)[i as int]);
            return false;
        }
        i += 1;
    }
    assert(texts(a@) =~= texts(b@));
    true
}

/// Two optional environments that are one, or neither.
pub open spec fn claimants_agree(a: Option<EnvironmentId>, b: Option<EnvironmentId>) -> bool {
    match (a, b) {
        (Some(a), Some(b)) => a@ == b@,
        (None, None) => true,
        _ => false,
    }
}

fn same_claimant(a: &Option<EnvironmentId>, b: &Option<EnvironmentId>) -> (r: bool)
    ensures
        r == claimants_agree(*a, *b),
{
    match (a, b) {
        (Some(a), Some(b)) => a.same_as(b),
        (None, None) => true,
        _ => false,
    }
}

/// Two issues that read the same.
pub open spec fn issues_agree(a: Issue, b: Issue) -> bool {
    &&& a.id@ == b.id@
    &&& a.title@ == b.title@
    &&& a.resolution == b.resolution
    &&& a.reporter@ == b.reporter@
    &&& string_view(a.started_by) == string_view(b.started_by)
    &&& claimants_agree(a.claimant, b.claimant)
    &&& string_view(a.agent) == string_view(b.agent)
    &&& string_view(a.model) == string_view(b.model)
    &&& a.created == b.created
    &&& a.updated == b.updated
    &&& texts(a.labels@) == texts(b.labels@)
    &&& texts(a.links@) == texts(b.links@)
    &&& texts(a.attachments@) == texts(b.attachments@)
    &&& a.body@ == b.body@
    &&& comments_agree(a.comments@, b.comments@)
}

fn same_issue(a: &Issue, b: &Issue) -> (r: bool)
    ensures
        r == issues_agree(*a, *b),
{
    a.id == b.id && a.title == b.title && a.resolution == b.resolution && a.reporter == b.reporter
        && same_text(&a.started_by, &b.started_by) && same_claimant(&a.claimant, &b.claimant)
        && same_text(&a.agent, &b.agent) && same_text(&a.model, &b.model) && a.created == b.created
        && a.updated == b.updated && same_texts(&a.labels, &b.labels) && same_texts(
        &a.links,
        &b.links,
    ) && same_texts(&a.attachments, &b.attachments) && a.body == b.body && same_comments(
        &a.comments,
        &b.comments,
    )
}

/// Two queues that read the same.
pub open spec fn queues_agree(a: Seq<Issue>, b: Seq<Issue>) -> bool {
    a.len() == b.len() && forall|i: int| 0 <= i < a.len() ==> issues_agree(#[trigger] a[i], b[i])
}

/// Whether two queues read the same.
pub fn same_queue(a: &Vec<Issue>, b: &Vec<Issue>) -> (r: bool)
    ensures
        r == queues_agree(a@, b@),
{
    if a.len() != b.len() {
        return false;
    }
    let mut i: usize = 0;
    while i < a.len()
        invariant
            a@.len() == b@.len(),
            i <= a@.len(),
            forall|j: int| 0 <= j < i ==> issues_agree(#[trigger] a@[j], b@[j]),
        decreases a@.len() - i,
    {
        if !same_issue(&a[i], &b[i]) {
            assert(!issues_agree(a@[i as int], b@[i as int]));
            return false;
        }
        i += 1;
    }
    true
}

/// Rows that agree read the same wherever they are shown: a stranger reads the
/// same of both, and a list shows the same of both. A row agrees with itself.
pub proof fn rows_that_agree_read_the_same(a: FleetRow, b: FleetRow)
    requires
        rows_agree(a, b),
    ensures
        forall|wire: crate::fleet::Row|
            (#[trigger] crate::fleet::projects(wire, a)) ==> wire.name@ == b.name@ && wire.environment@ == b.env@ && wire.state@
                == b.state_token() && wire.detail@ == b.state_shown() && wire.mode@
                == b.mode_token() && wire.published == b.published && wire.shells == b.shells
                && wire.spend == b.spend && wire.review == b.review && wire.git_known == (b.git
                is Some),
        a.light_shown() == b.light_shown(),
        a.state_shown() == b.state_shown(),
        a.holds_unpublished_work() == b.holds_unpublished_work(),
        a.is_awaiting() == b.is_awaiting(),
        a.chat is Some <==> b.chat is Some,
        a.chat matches Some(x) ==> (b.chat matches Some(y) && x.label@ == y.label@ && x.busy
            == y.busy && x.orchestrator == y.orchestrator),
        a.git matches Some(x) ==> (b.git matches Some(y) && x.unpublished == y.unpublished
            && x.dirty == y.dirty && string_view(x.branch) == string_view(y.branch)),
        a.disk_shown() == b.disk_shown(),
        a.spend_shown() == b.spend_shown(),
        crate::envstrip::title_shown(a) == crate::envstrip::title_shown(b),
        a.named == b.named && a.pending_rebuild == b.pending_rebuild && a.authority == b.authority,
        a.working_on_shown() == b.working_on_shown(),
        a.working_on@.len() == b.working_on@.len(),
        forall|i: int|
            0 <= i < a.working_on@.len() ==> (#[trigger] a.working_on@[i]).id@
                == b.working_on@[i].id@ && a.working_on@[i].title@ == b.working_on@[i].title@,
{
    if a.working_on@.len() > 0 {
        assert(a.working_on@[0].id@ == b.working_on@[0].id@);
    }
}

/// Nothing moved where nothing did: a fleet, a pool's snapshot, a queue and
/// their parts agree with themselves.
pub proof fn everything_agrees_with_itself(
    rows: Seq<FleetRow>,
    pool: PoolFacts,
    issues: Seq<Issue>,
)
    ensures
        fleets_agree(rows, rows),
        pools_agree(pool, pool),
        snapshots_agree(pool.quota, pool.quota),
        queues_agree(issues, issues),
{
}

/// A fleet that agrees with another has as many rows, each agreeing with its
/// counterpart; a queue likewise.
pub proof fn what_agrees_agrees_throughout(
    a: Seq<FleetRow>,
    b: Seq<FleetRow>,
    x: Seq<Issue>,
    y: Seq<Issue>,
    i: int,
)
    ensures
        fleets_agree(a, b) ==> a.len() == b.len(),
        queues_agree(x, y) ==> x.len() == y.len(),
        fleets_agree(a, b) && 0 <= i < a.len() ==> a[i].env@ == b[i].env@ && a[i].name@ == b[i].name@
            && a[i].review == b[i].review,
        queues_agree(x, y) && 0 <= i < x.len() ==> x[i].id@ == y[i].id@ && x[i].title@ == y[i].title@,
{
    if fleets_agree(a, b) && 0 <= i < a.len() {
        assert(rows_agree(a[i], b[i]));
    }
    if queues_agree(x, y) && 0 <= i < x.len() {
        assert(issues_agree(x[i], y[i]));
    }
}

/// Issues that agree read the same, word for word, and are the same work in
/// flight of the same environments.
pub proof fn issues_that_agree_read_the_same(a: Issue, b: Issue)
    requires
        issues_agree(a, b),
    ensures
        a.id@ == b.id@ && a.title@ == b.title@ && a.body@ == b.body@ && a.reporter@ == b.reporter@,
        a.resolution == b.resolution && a.created == b.created && a.updated == b.updated,
        string_view(a.started_by) == string_view(b.started_by),
        string_view(a.agent) == string_view(b.agent) && string_view(a.model) == string_view(
            b.model,
        ),
        forall|slug: Seq<char>|
            crate::console::issues::in_flight(a, slug) == #[trigger] crate::console::issues::in_flight(
                b,
                slug,
            ),
        a.comments@.len() == b.comments@.len(),
        forall|i: int|
            0 <= i < a.comments@.len() ==> (#[trigger] a.comments@[i]).body@ == b.comments@[i].body@
                && a.comments@[i].author@ == b.comments@[i].author@ && a.comments@[i].created
                == b.comments@[i].created && a.comments@[i].seq == b.comments@[i].seq,
        texts(a.labels@) == texts(b.labels@) && texts(a.links@) == texts(b.links@)
            && texts(a.attachments@) == texts(b.attachments@),
{
}

/// Snapshots that agree draw the same: the same spans at every moment, the same
/// share of each window, the same refusal; and pools that agree list the same
/// spenders with the same draws.
pub proof fn snapshots_that_agree_draw_the_same(a: PoolFacts, b: PoolFacts)
    requires
        pools_agree(a, b),
    ensures
        forall|out: crate::quota::QuotaSpans, standing: crate::quota::Standing, now: u64|
            (#[trigger] crate::quota::spans_at(out, a.quota, standing, now))
                ==> crate::quota::spans_at(out, b.quota, standing, now),
        a.quota.session.utilization == b.quota.session.utilization,
        a.quota.weekly.utilization == b.quota.weekly.utilization,
        string_view(a.quota.session.label) == string_view(b.quota.session.label),
        string_view(a.quota.weekly.status) == string_view(b.quota.weekly.status),
        a.quota.requests == b.quota.requests && a.quota.input_tokens == b.quota.input_tokens
            && a.quota.output_tokens == b.quota.output_tokens,
        string_view(a.quota.observed_for) == string_view(b.quota.observed_for),
        a.quota.refusal is Some <==> b.quota.refusal is Some,
        a.quota.refusal matches Some(x) ==> (b.quota.refusal matches Some(y) && x.until == y.until
            && string_view(x.message) == string_view(y.message)),
        a.spenders@.len() == b.spenders@.len(),
        forall|i: int|
            0 <= i < a.spenders@.len() ==> (#[trigger] a.spenders@[i]).0@ == b.spenders@[i].0@
                && a.spenders@[i].1 == b.spenders@[i].1,
{
}

} // verus!
