//! The fleet as data: one row per environment, assembled from the places an
//! environment's facts actually live.
//!
//! The rows come from the registry (state), the workspace state (the human
//! name), the chat strip (the binding), git (branches and unpublished work),
//! the filesystem (disk) and the auth proxy (spend). Everything that renders a
//! fleet renders these rows, so two surfaces cannot disagree about what an
//! environment is called.

use vstd::prelude::*;
use crate::environment::{
    capped_sum, Claim, ConfigAuthority, DiskUsage, EnvironmentId, ReviewState, SupervisorState,
    WorkspaceState,
};
use crate::order::{
    codes, is_stable_order, key_of, keys_of, lemma_codes_injective, lemma_lex_total,
    lemma_lex_trans, lex_less, lex_less_exec, permute, placed_before, stable_order, text_codes,
};
use crate::quantity::{bytes_text, compact, compact_text};
use crate::quota::QuotaSnapshot;
use crate::text::{
    begins_with, chars_of, decimal, decimal_of, first_line, first_line_of, holds_text, lowercase,
    lowered, same, starts_with, string_of, texts,
};

pub use crate::quantity::format_bytes;

verus! {

/// The chat bound to an environment, as a row says it.
#[derive(Debug, PartialEq, Eq)]
pub struct ChatBinding {
    /// The agent's name: what the user sees at the head of the chat.
    pub label: String,
    /// A turn is in flight.
    pub busy: bool,
    /// The chat is stopped on something only the user can answer. Not the
    /// opposite of `busy`: a chat waiting on a person is still mid-turn.
    pub awaits_user: bool,
    /// This chat is the workspace's orchestrator.
    pub orchestrator: bool,
}

impl Clone for ChatBinding {
    fn clone(&self) -> (out: Self)
        ensures
            out == *self,
    {
        ChatBinding {
            label: self.label.clone(),
            busy: self.busy,
            awaits_user: self.awaits_user,
            orchestrator: self.orchestrator,
        }
    }
}

/// What one environment has spent through the auth proxy.
#[derive(Debug, Clone, Copy, PartialEq, Eq, Structural)]
pub struct Spend {
    pub requests: u64,
    pub input_tokens: u64,
    pub output_tokens: u64,
}

impl Default for Spend {
    fn default() -> (out: Self)
        ensures
            out == (Spend { requests: 0, input_tokens: 0, output_tokens: 0 }),
    {
        Spend { requests: 0, input_tokens: 0, output_tokens: 0 }
    }
}

impl Spend {
    pub fn is_zero(&self) -> (r: bool)
        ensures
            r == (self.requests == 0 && self.input_tokens == 0 && self.output_tokens == 0),
    {
        *self == Spend::default()
    }

    /// Tokens either way. What "spent" means when one number has to stand for
    /// a row's draw on the pool.
    pub fn tokens(&self) -> (total: u64)
        ensures
            total == capped_sum(self.input_tokens, self.output_tokens),
    {
        self.input_tokens.saturating_add(self.output_tokens)
    }
}

/// Git facts about one environment's own checkout.
#[derive(Debug, PartialEq, Eq)]
pub struct EnvGit {
    pub branch: Option<String>,
    /// Branches in this environment's clone that the main checkout has never
    /// seen: what destroying it would cost.
    pub unpublished: usize,
    /// Modified-but-uncommitted files in its working tree.
    pub dirty: usize,
}

impl Default for EnvGit {
    fn default() -> (out: Self)
        ensures
            out == (EnvGit { branch: None, unpublished: 0, dirty: 0 }),
    {
        EnvGit { branch: None, unpublished: 0, dirty: 0 }
    }
}

impl Clone for EnvGit {
    fn clone(&self) -> (out: Self)
        ensures
            out == *self,
    {
        let branch = match &self.branch {
            Some(branch) => Some(branch.clone()),
            None => None,
        };
        EnvGit { branch, unpublished: self.unpublished, dirty: self.dirty }
    }
}

/// Everything that was gathered about one environment.
#[derive(Debug, PartialEq, Eq)]
pub struct EnvFacts {
    pub env: EnvironmentId,
    pub state: SupervisorState,
    /// Whose configuration the running container was built from.
    pub authority: ConfigAuthority,
    pub pending_rebuild: bool,
    pub chat: Option<ChatBinding>,
    /// `None` until the git pass has run for this environment.
    pub git: Option<EnvGit>,
    /// `None` until someone asked for the footprint.
    pub disk: Option<DiskUsage>,
    pub spend: Spend,
    /// Live shells attached to this environment.
    pub shells: usize,
    /// Where this environment stands in the review arc.
    pub review: ReviewState,
    /// The issues this environment has claimed.
    pub working_on: Vec<Claim>,
}

/// Two gatherings that say the same of an environment.
pub open spec fn facts_agree(a: EnvFacts, b: EnvFacts) -> bool {
    a.working_on@ == b.working_on@ && a == (EnvFacts { working_on: a.working_on, ..b })
}

impl Clone for EnvFacts {
    fn clone(&self) -> (out: Self)
        ensures
            facts_agree(out, *self),
    {
        let chat = match &self.chat {
            Some(chat) => Some(chat.clone()),
            None => None,
        };
        let git = match &self.git {
            Some(git) => Some(git.clone()),
            None => None,
        };
        let mut working_on: Vec<Claim> = Vec::new();
        let mut i: usize = 0;
        while i < self.working_on.len()
            invariant
                i <= self.working_on@.len(),
                working_on@ == self.working_on@.take(i as int),
            decreases self.working_on@.len() - i,
        {
            working_on.push(self.working_on[i].clone());
            i += 1;
            assert(working_on@ =~= self.working_on@.take(i as int));
        }
        assert(working_on@ =~= self.working_on@);
        EnvFacts {
            env: self.env.clone(),
            state: self.state.clone(),
            authority: self.authority,
            pending_rebuild: self.pending_rebuild,
            chat,
            git,
            disk: self.disk,
            spend: self.spend,
            shells: self.shells,
            review: self.review,
            working_on,
        }
    }
}

/// An environment's status at traffic-light resolution.
#[derive(Debug, Clone, Copy, PartialEq, Eq, Structural)]
pub enum Light {
    /// The environment is up and work runs in it, busy or idle alike.
    Green,
    /// Wants attention: on its way somewhere, or stopped on a person.
    Amber,
    /// Nothing can run here: failed, stopped, or never configured.
    Red,
    /// The fleet has not said yet. Never a row's own light.
    Unknown,
}

impl Light {
    /// The class that colours a light.
    pub open spec fn class(self) -> Seq<char> {
        match self {
            Light::Green => "green"@,
            Light::Amber => "amber"@,
            Light::Red => "red"@,
            Light::Unknown => "unknown"@,
        }
    }

    /// The CSS class that colours it.
    pub fn css(self) -> (out: &'static str)
        ensures
            out@ == self.class(),
    {
        match self {
            Light::Green => "green",
            Light::Amber => "amber",
            Light::Red => "red",
            Light::Unknown => "unknown",
        }
    }
}

/// No two lights share a class.
pub proof fn lights_wear_distinct_classes(a: Light, b: Light)
    requires
        a.class() == b.class(),
    ensures
        a == b,
{
    reveal_strlit("green");
    reveal_strlit("amber");
    reveal_strlit("red");
    reveal_strlit("unknown");
    assert("green"@[0] == 'g');
    assert("amber"@[0] == 'a');
    assert("red"@[0] == 'r');
    assert("unknown"@[0] == 'u');
}

/// How an environment's place in the review arc marks it in a list.
#[derive(Debug, Clone, Copy, PartialEq, Eq, Structural)]
pub enum ReviewMark {
    /// Working: the ordinary case wears no mark.
    Unmarked,
    /// Waiting on the user.
    Flagged,
    /// Merged or rejected: the user has ruled.
    Settled,
}

impl ReviewMark {
    /// The mark of a place in the arc.
    pub open spec fn mark_of(state: ReviewState) -> ReviewMark {
        match state {
            ReviewState::Working => ReviewMark::Unmarked,
            ReviewState::FlaggedForReview => ReviewMark::Flagged,
            ReviewState::Merged => ReviewMark::Settled,
            ReviewState::Rejected => ReviewMark::Settled,
        }
    }

    /// The class on the row.
    pub open spec fn class(self) -> Option<Seq<char>> {
        match self {
            ReviewMark::Unmarked => None,
            ReviewMark::Flagged => Some("review-flagged"@),
            ReviewMark::Settled => Some("review-settled"@),
        }
    }

    /// The glyph beside the name.
    pub open spec fn glyph(self) -> Option<Seq<char>> {
        match self {
            ReviewMark::Unmarked => None,
            ReviewMark::Flagged => Some("view-reveal-symbolic"@),
            ReviewMark::Settled => Some("emblem-ok-symbolic"@),
        }
    }

    pub fn of(state: ReviewState) -> (out: Self)
        ensures
            out == Self::mark_of(state),
    {
        match state {
            ReviewState::Working => ReviewMark::Unmarked,
            ReviewState::FlaggedForReview => ReviewMark::Flagged,
            ReviewState::Merged | ReviewState::Rejected => ReviewMark::Settled,
        }
    }

    /// The class on the row, or `None` for the ordinary case.
    pub fn css(self) -> (out: Option<&'static str>)
        ensures
            text_view(out) == self.class(),
    {
        match self {
            ReviewMark::Unmarked => None,
            ReviewMark::Flagged => Some("review-flagged"),
            ReviewMark::Settled => Some("review-settled"),
        }
    }

    /// The glyph beside the name.
    pub fn icon(self) -> (out: Option<&'static str>)
        ensures
            text_view(out) == self.glyph(),
    {
        match self {
            ReviewMark::Unmarked => None,
            ReviewMark::Flagged => Some("view-reveal-symbolic"),
            ReviewMark::Settled => Some("emblem-ok-symbolic"),
        }
    }
}

/// An optional text, as a sequence of characters.
pub open spec fn text_view(s: Option<&str>) -> Option<Seq<char>> {
    match s {
        Some(s) => Some(s@),
        None => None,
    }
}

/// An optional owned text, as a sequence of characters.
pub open spec fn string_view(s: Option<String>) -> Option<Seq<char>> {
    match s {
        Some(s) => Some(s@),
        None => None,
    }
}

/// Marks are told apart by their class and by their glyph, and only the
/// ordinary case wears nothing.
pub proof fn marks_are_distinct(a: ReviewMark, b: ReviewMark)
    ensures
        a.class() == b.class() ==> a == b,
        a.glyph() == b.glyph() ==> a == b,
        a.class() is None <==> a == ReviewMark::Unmarked,
        a.glyph() is None <==> a == ReviewMark::Unmarked,
{
    reveal_strlit("review-flagged");
    reveal_strlit("review-settled");
    reveal_strlit("view-reveal-symbolic");
    reveal_strlit("emblem-ok-symbolic");
    assert("review-flagged"@[7] == 'f');
    assert("review-settled"@[7] == 's');
    assert("view-reveal-symbolic"@[0] == 'v');
    assert("emblem-ok-symbolic"@[0] == 'e');
}

/// One environment, ready to render.
#[derive(Debug, PartialEq, Eq)]
pub struct FleetRow {
    pub env: EnvironmentId,
    pub primary: bool,
    /// What to call it: the human name if there is one, else the slug.
    pub name: String,
    /// Whether `name` came from the user.
    pub named: bool,
    pub state: SupervisorState,
    pub authority: ConfigAuthority,
    pub pending_rebuild: bool,
    pub chat: Option<ChatBinding>,
    pub git: Option<EnvGit>,
    /// How many branches of record this environment has in the user's
    /// checkout: none or one.
    pub published: usize,
    pub disk: Option<DiskUsage>,
    pub spend: Spend,
    /// Live shells in this environment.
    pub shells: usize,
    pub review: ReviewState,
    pub working_on: Vec<Claim>,
}

impl FleetRow {
    /// The project's own configuration is in force.
    pub open spec fn in_container_mode(&self) -> bool {
        self.state is Running && self.authority == ConfigAuthority::Project
    }

    /// The stand-in configuration is in force.
    pub open spec fn on_baseline(&self) -> bool {
        self.state is Running && self.authority == ConfigAuthority::Baseline
    }

    /// A chat here is stopped on the user.
    pub open spec fn is_awaiting(&self) -> bool {
        self.chat matches Some(chat) && chat.awaits_user
    }

    /// What the light says: red where nothing can run, amber where something
    /// is on its way or waits on the user, green otherwise.
    pub open spec fn light_shown(&self) -> Light {
        if self.state is Building || self.state is Starting {
            Light::Amber
        } else if self.state is Running {
            if self.pending_rebuild || self.is_awaiting() || self.on_baseline() {
                Light::Amber
            } else {
                Light::Green
            }
        } else {
            Light::Red
        }
    }

    /// What the container is doing, in words.
    pub open spec fn detail_shown(&self) -> Seq<char> {
        match self.state {
            SupervisorState::NoConfig => "not configured"@,
            SupervisorState::ConfigDetected => "configured, not started"@,
            SupervisorState::Building => "building…"@,
            SupervisorState::Starting => "starting…"@,
            SupervisorState::Running { .. } => if self.pending_rebuild {
                "running · needs rebuild"@
            } else {
                "running"@
            },
            SupervisorState::Failed { message } => "failed: "@ + first_line_of(message@),
            SupervisorState::Stopped => "stopped"@,
        }
    }

    /// The mode's name, where the mode is worth saying.
    pub open spec fn mode_shown(&self) -> Option<Seq<char>> {
        if self.in_container_mode() {
            None
        } else if self.on_baseline() {
            Some("safe mode"@)
        } else {
            Some("no environment"@)
        }
    }

    /// The row's state in words.
    pub open spec fn state_shown(&self) -> Seq<char> {
        match self.mode_shown() {
            Some(mode) => mode + " · "@ + self.detail_shown(),
            None => self.detail_shown(),
        }
    }

    /// What the mode means for what can be run and written.
    pub open spec fn explainer_shown(&self) -> Seq<char> {
        if self.in_container_mode() {
            "This environment runs the project's own devcontainer configuration."@
        } else if self.on_baseline() {
            "The IDE's baseline environment is standing in, so commands run — but writes are confined to devcontainer setup until the project's own configuration builds."@
        } else {
            "Nothing is running here: no shell, and writes confined to devcontainer setup. Repairs only."@
        }
    }

    /// The mode as a token.
    pub open spec fn mode_token(&self) -> Seq<char> {
        if self.in_container_mode() {
            "container"@
        } else {
            "safe"@
        }
    }

    /// The lifecycle state as a token.
    pub open spec fn state_token(&self) -> Seq<char> {
        state_token_of(self.state)
    }

    /// Destroying it would cost work nobody else has a copy of.
    pub open spec fn holds_unpublished_work(&self) -> bool {
        &&& !self.primary
        &&& !self.review.is_settled()
        &&& self.git matches Some(git) && (git.unpublished > 0 || git.dirty > 0)
    }

    /// What this environment is working on, in a line.
    pub open spec fn working_on_shown(&self) -> Option<Seq<char>> {
        let held = self.working_on@;
        if held.len() == 0 {
            None
        } else if held.len() == 1 {
            Some(held[0].id@ + " — "@ + held[0].title@)
        } else {
            Some(
                held[0].id@ + " — "@ + held[0].title@ + " (+"@ + decimal_of((held.len() - 1) as nat)
                    + " more)"@,
            )
        }
    }

    /// The footprint column.
    pub open spec fn disk_shown(&self) -> Seq<char> {
        match self.disk {
            None => "—"@,
            Some(disk) => {
                let size = bytes_text(capped_sum(disk.checkout_bytes, disk.volume_bytes) as nat);
                if disk.volumes_unmeasured > 0 {
                    size + "+"@
                } else {
                    size
                }
            },
        }
    }

    /// The spend column.
    pub open spec fn spend_shown(&self) -> Seq<char> {
        let spend = self.spend;
        if spend.requests == 0 && spend.input_tokens == 0 && spend.output_tokens == 0 {
            "—"@
        } else {
            compact_text(spend.input_tokens as nat) + " in / "@ + compact_text(
                spend.output_tokens as nat,
            ) + " out"@
        }
    }

    /// Container mode, the only real working mode. Everything else is safe
    /// mode, including a container that is still building and a running
    /// baseline container.
    pub fn container_mode(&self) -> (r: bool)
        ensures
            r == self.in_container_mode(),
    {
        self.container_running() && self.authority == ConfigAuthority::Project
    }

    /// Whether a container is up at all, of either authority.
    pub fn container_running(&self) -> (r: bool)
        ensures
            r == (self.state is Running),
    {
        self.state.is_running()
    }

    /// Whether this environment is running the stand-in rather than the
    /// project's own configuration.
    pub fn baseline(&self) -> (r: bool)
        ensures
            r == self.on_baseline(),
    {
        self.container_running() && self.authority == ConfigAuthority::Baseline
    }

    /// Whether a chat here is stopped on the user.
    pub fn awaits_user(&self) -> (r: bool)
        ensures
            r == self.is_awaiting(),
    {
        match &self.chat {
            Some(chat) => chat.awaits_user,
            None => false,
        }
    }

    /// This row at traffic-light resolution. Severity decides: a stopped
    /// container whose agent happens to be mid-permission is red.
    pub fn light(&self) -> (out: Light)
        ensures
            out == self.light_shown(),
    {
        match &self.state {
            SupervisorState::Failed { .. }
            | SupervisorState::NoConfig
            | SupervisorState::ConfigDetected
            | SupervisorState::Stopped => Light::Red,
            SupervisorState::Building | SupervisorState::Starting => Light::Amber,
            SupervisorState::Running { .. } => {
                if self.pending_rebuild || self.awaits_user() || self.baseline() {
                    Light::Amber
                } else {
                    Light::Green
                }
            },
        }
    }

    /// The row's state, in words: what its container is doing, prefixed by
    /// the mode when the mode is worth saying.
    pub fn state_text(&self) -> (out: String)
        ensures
            out@ == self.state_shown(),
    {
        let detail: String = match &self.state {
            SupervisorState::NoConfig => "not configured".to_owned(),
            SupervisorState::ConfigDetected => "configured, not started".to_owned(),
            SupervisorState::Building => "building…".to_owned(),
            SupervisorState::Starting => "starting…".to_owned(),
            SupervisorState::Running { .. } => {
                if self.pending_rebuild {
                    "running · needs rebuild".to_owned()
                } else {
                    "running".to_owned()
                }
            },
            SupervisorState::Failed { message } => {
                let mut text = "failed: ".to_owned();
                text.append(first_line(message.as_str()));
                text
            },
            SupervisorState::Stopped => "stopped".to_owned(),
        };
        match self.mode_text() {
            Some(mode) => {
                let mut text = mode.to_owned();
                text.append(" · ");
                text.append(detail.as_str());
                text
            },
            None => detail,
        }
    }

    /// What to call the mode, and `None` for the ordinary case.
    pub fn mode_text(&self) -> (out: Option<&'static str>)
        ensures
            text_view(out) == self.mode_shown(),
    {
        if self.container_mode() {
            None
        } else if self.baseline() {
            Some("safe mode")
        } else {
            Some("no environment")
        }
    }

    /// The same three rungs at tooltip length.
    pub fn mode_explainer(&self) -> (out: &'static str)
        ensures
            out@ == self.explainer_shown(),
    {
        if self.container_mode() {
            "This environment runs the project's own devcontainer configuration."
        } else if self.baseline() {
            "The IDE's baseline environment is standing in, so commands run — but writes are confined to devcontainer setup until the project's own configuration builds."
        } else {
            "Nothing is running here: no shell, and writes confined to devcontainer setup. Repairs only."
        }
    }

    /// The mode, as a token a machine matches on. Two values: a baseline
    /// environment is in safe mode.
    pub fn mode_slug(&self) -> (out: &'static str)
        ensures
            out@ == self.mode_token(),
    {
        if self.container_mode() {
            "container"
        } else {
            "safe"
        }
    }

    /// The lifecycle state, as a stable token.
    pub fn state_slug(&self) -> (out: &'static str)
        ensures
            out@ == self.state_token(),
    {
        match &self.state {
            SupervisorState::NoConfig => "no-config",
            SupervisorState::ConfigDetected => "config-detected",
            SupervisorState::Building => "building",
            SupervisorState::Starting => "starting",
            SupervisorState::Running { .. } => "running",
            SupervisorState::Failed { .. } => "failed",
            SupervisorState::Stopped => "stopped",
        }
    }

    /// Whether this environment can be destroyed. The primary cannot: it is
    /// the user's checkout.
    pub fn destroyable(&self) -> (r: bool)
        ensures
            may_go(*self, r),
    {
        !self.primary
    }

    /// Whether destroying it would cost work nobody else has a copy of. Never
    /// true of the primary, nor of an environment the user has ruled on.
    pub fn has_unpublished_work(&self) -> (r: bool)
        ensures
            r == self.holds_unpublished_work(),
    {
        !self.primary && !self.review.settled() && match &self.git {
            Some(git) => git.unpublished > 0 || git.dirty > 0,
            None => false,
        }
    }

    /// Where this row stands in the review arc, as a list marks it.
    pub fn review_mark(&self) -> (out: ReviewMark)
        ensures
            out == ReviewMark::mark_of(self.review),
    {
        ReviewMark::of(self.review)
    }

    /// The one-line answer to "what is this environment working on", or
    /// `None` when nothing has been claimed for it.
    pub fn working_on_text(&self) -> (out: Option<String>)
        ensures
            string_view(out) == self.working_on_shown(),
    {
        if self.working_on.len() == 0 {
            return None;
        }
        let first = &self.working_on[0];
        let mut text = first.id.clone();
        text.append(" — ");
        text.append(first.title.as_str());
        if self.working_on.len() > 1 {
            text.append(" (+");
            let rest = decimal((self.working_on.len() - 1) as u64);
            text.append(rest.as_str());
            text.append(" more)");
        }
        Some(text)
    }

    /// The footprint column: a size, or an honest dash.
    pub fn disk_text(&self) -> (out: String)
        ensures
            out@ == self.disk_shown(),
    {
        match &self.disk {
            None => "—".to_owned(),
            Some(disk) => {
                let mut size = format_bytes(disk.total_bytes());
                if disk.partial() {
                    size.append("+");
                }
                size
            },
        }
    }

    /// The spend column, in tokens.
    pub fn spend_text(&self) -> (out: String)
        ensures
            out@ == self.spend_shown(),
    {
        if self.spend.is_zero() {
            return "—".to_owned();
        }
        let mut text = compact(self.spend.input_tokens);
        text.append(" in / ");
        let spent = compact(self.spend.output_tokens);
        text.append(spent.as_str());
        text.append(" out");
        text
    }
}

/// Whether an environment can be destroyed.
pub open spec fn may_go(row: FleetRow, r: bool) -> bool {
    &&& r == !row.primary
}

/// The token of a lifecycle state.
pub open spec fn state_token_of(state: SupervisorState) -> Seq<char> {
    match state {
        SupervisorState::NoConfig => "no-config"@,
        SupervisorState::ConfigDetected => "config-detected"@,
        SupervisorState::Building => "building"@,
        SupervisorState::Starting => "starting"@,
        SupervisorState::Running { .. } => "running"@,
        SupervisorState::Failed { .. } => "failed"@,
        SupervisorState::Stopped => "stopped"@,
    }
}

/// Which kind of lifecycle state it is, whatever it carries.
pub open spec fn state_kind(state: SupervisorState) -> int {
    match state {
        SupervisorState::NoConfig => 0,
        SupervisorState::ConfigDetected => 1,
        SupervisorState::Building => 2,
        SupervisorState::Starting => 3,
        SupervisorState::Running { .. } => 4,
        SupervisorState::Failed { .. } => 5,
        SupervisorState::Stopped => 6,
    }
}

/// Every lifecycle state has a token of its own.
pub proof fn state_tokens_are_distinct(a: SupervisorState, b: SupervisorState)
    requires
        state_token_of(a) == state_token_of(b),
    ensures
        state_kind(a) == state_kind(b),
{
    reveal_strlit("no-config");
    reveal_strlit("config-detected");
    reveal_strlit("building");
    reveal_strlit("starting");
    reveal_strlit("running");
    reveal_strlit("failed");
    reveal_strlit("stopped");
    assert("no-config"@[0] == 'n');
    assert("config-detected"@[0] == 'c');
    assert("building"@[0] == 'b');
    assert("starting"@[0] == 's' && "starting"@[2] == 'a');
    assert("running"@[0] == 'r');
    assert("failed"@[0] == 'f');
    assert("stopped"@[0] == 's' && "stopped"@[2] == 'o');
}

/// A row always has one of the three lights.
pub proof fn a_row_has_a_light(row: FleetRow)
    ensures
        row.light_shown() != Light::Unknown,
{
}

/// A green light, an unnamed mode and the container token go together as the
/// mode does: the mode is unnamed exactly in container mode, the token is the
/// container's exactly there, and a green row is always in it.
pub proof fn the_mode_is_said_one_way(row: FleetRow)
    ensures
        row.mode_shown() is None <==> row.in_container_mode(),
        row.mode_token() == "container"@ <==> row.in_container_mode(),
        row.light_shown() == Light::Green ==> row.in_container_mode(),
        row.in_container_mode() && row.on_baseline() ==> false,
{
    reveal_strlit("container");
    reveal_strlit("safe");
    assert("container"@[0] == 'c');
    assert("safe"@[0] == 's');
}

/// A settled environment has nothing left to warn about, and neither has the
/// primary.
pub proof fn settled_work_is_not_at_risk(row: FleetRow)
    requires
        row.primary || row.review.is_settled(),
    ensures
        !row.holds_unpublished_work(),
{
}

/// Of an environment that the user has not ruled on and whose checkout was read,
/// the row says that work is at risk exactly where a branch of it was never
/// published or a file of it was never committed.
pub proof fn work_that_only_it_has_is_at_risk(row: FleetRow)
    requires
        !row.primary,
        row.review == ReviewState::Working || row.review == ReviewState::FlaggedForReview,
    ensures
        row.git matches Some(git) && git.unpublished >= 1 ==> row.holds_unpublished_work(),
        row.git matches Some(git) && git.dirty >= 1 ==> row.holds_unpublished_work(),
        row.holds_unpublished_work() ==> (row.git matches Some(git) && (git.unpublished >= 1
            || git.dirty >= 1)),
{
}

/// The environment whose branch of record this is: `agents/<env>` and nothing
/// below it. Anything else belongs to nobody.
pub open spec fn branch_env(branch: Seq<char>) -> Option<Seq<char>> {
    let rest = branch.subrange("agents/"@.len() as int, branch.len() as int);
    if begins_with(branch, "agents/"@) && rest.len() > 0 && !rest.contains('/') {
        Some(rest)
    } else {
        None
    }
}

/// How many of the branches are `slug`'s branch of record.
pub open spec fn branches_of(branches: Seq<Seq<char>>, slug: Seq<char>) -> nat
    decreases branches.len(),
{
    if branches.len() == 0 {
        0
    } else {
        let rest = branches_of(branches.drop_last(), slug);
        if branch_env(branches.last()) == Some(slug) {
            rest + 1
        } else {
            rest
        }
    }
}

proof fn lemma_branches_of_bound(branches: Seq<Seq<char>>, slug: Seq<char>)
    ensures
        branches_of(branches, slug) <= branches.len(),
    decreases branches.len(),
{
    if branches.len() > 0 {
        lemma_branches_of_bound(branches.drop_last(), slug);
    }
}

/// The environment whose branch of record this is, if it is one.
pub fn env_of_branch(branch: &str) -> (out: Option<String>)
    ensures
        string_view(out) == branch_env(branch@),
{
    if !starts_with(branch, "agents/") {
        return None;
    }
    let chars = chars_of(branch);
    proof {
        reveal_strlit("agents/");
    }
    let from: usize = 7;
    let ghost rest = branch@.subrange(7, branch@.len() as int);
    if chars.len() == from {
        return None;
    }
    let mut i: usize = from;
    while i < chars.len()
        invariant
            chars@ == branch@,
            from == 7 == "agents/"@.len(),
            from <= i <= chars@.len(),
            rest == branch@.subrange(7, branch@.len() as int),
            forall|j: int| from <= j < i ==> branch@[j] != '/',
        decreases chars@.len() - i,
    {
        if chars[i] == '/' {
            assert(rest[i - 7] == '/');
            return None;
        }
        i += 1;
    }
    assert(!rest.contains('/')) by {
        if rest.contains('/') {
            let k = choose|k: int| 0 <= k < rest.len() && rest[k] == '/';
            assert(branch@[k + 7] == '/');
        }
    }
    Some(string_of(&chars, from, chars.len()))
}

/// Branches of record, counted by environment, in order of the names.
#[derive(Debug, PartialEq, Eq)]
pub struct BranchCounts {
    pub entries: Vec<(String, usize)>,
}

impl BranchCounts {
    /// These are exactly the counts of `branches`: every environment with a
    /// branch of record stands here once, with how many it has.
    pub open spec fn counts(&self, branches: Seq<Seq<char>>) -> bool {
        &&& forall|i: int, j: int|
            0 <= i < j < self.entries@.len() ==> lex_less(
                codes(self.entries@[i].0@),
                codes(self.entries@[j].0@),
            )
        &&& forall|i: int|
            0 <= i < self.entries@.len() ==> (#[trigger] self.entries@[i]).1 == branches_of(
                branches,
                self.entries@[i].0@,
            ) && self.entries@[i].1 > 0
        &&& forall|slug: Seq<char>| #[trigger]
            branches_of(branches, slug) > 0 ==> exists|i: int|
                0 <= i < self.entries@.len() && (#[trigger] self.entries@[i]).0@ == slug
    }

    /// How many environments have a branch of record.
    pub fn len(&self) -> (n: usize)
        ensures
            n == self.entries@.len(),
    {
        self.entries.len()
    }

    /// What stands for one environment.
    pub fn get(&self, slug: &str) -> (out: Option<usize>)
        ensures
            gets(*self, slug@, out),
    {
        let mut i: usize = 0;
        while i < self.entries.len()
            invariant
                i <= self.entries@.len(),
                forall|j: int| 0 <= j < i ==> (#[trigger] self.entries@[j]).0@ != slug@,
            decreases self.entries@.len() - i,
        {
            if same(self.entries[i].0.as_str(), slug) {
                return Some(self.entries[i].1);
            }
            i += 1;
        }
        None
    }
}

proof fn lemma_branches_of_push(branches: Seq<Seq<char>>, branch: Seq<char>, slug: Seq<char>)
    ensures
        branches_of(branches.push(branch), slug) == branches_of(branches, slug) + if branch_env(
            branch,
        ) == Some(slug) {
            1nat
        } else {
            0nat
        },
{
    assert(branches.push(branch).drop_last() =~= branches);
}

/// What stands for one environment.
pub open spec fn gets(counts: BranchCounts, slug: Seq<char>, out: Option<usize>) -> bool {
    &&& match out {
        Some(n) => exists|i: int|
            0 <= i < counts.entries@.len() && (#[trigger] counts.entries@[i]).0@ == slug
                && counts.entries@[i].1 == n,
        None => forall|i: int|
            0 <= i < counts.entries@.len() ==> (#[trigger] counts.entries@[i]).0@ != slug,
    }
}

/// Attribute published branches to the environments that published them.
///
/// One branch per environment (`agents/<env>`). Anything that does not fit,
/// `agents/<env>/<topic>` included, is counted for nobody rather than guessed
/// at.
pub fn published_by_environment(branches: &Vec<String>) -> (out: BranchCounts)
    ensures
        out.counts(texts(branches@)),
{
    let mut counts = BranchCounts { entries: Vec::new() };
    let ghost all = texts(branches@);
    let mut k: usize = 0;
    while k < branches.len()
        invariant
            all == texts(branches@),
            k <= branches@.len(),
            counts.counts(all.take(k as int)),
        decreases branches@.len() - k,
    {
        let ghost seen = all.take(k as int);
        let ghost branch = branches@[k as int]@;
        proof {
            assert(all.take(k + 1) =~= seen.push(branch));
        }
        match env_of_branch(branches[k].as_str()) {
            None => {
                proof {
                    assert forall|slug: Seq<char>| #[trigger]
                        branches_of(all.take(k + 1), slug) == branches_of(seen, slug) by {
                        lemma_branches_of_push(seen, branch, slug);
                    }
                }
            },
            Some(slug) => {
                let ghost added = slug@;
                let wanted = text_codes(slug.as_str());
                let mut p: usize = 0;
                while p < counts.entries.len() && lex_less_exec(
                    &text_codes(counts.entries[p].0.as_str()),
                    &wanted,
                )
                    invariant
                        wanted@ == codes(added),
                        p <= counts.entries@.len(),
                        forall|j: int|
                            0 <= j < p ==> lex_less(codes((#[trigger] counts.entries@[j]).0@), codes(added)),
                    decreases counts.entries@.len() - p,
                {
                    p += 1;
                }
                let ghost before = counts.entries@;
                proof {
                    assert forall|other: Seq<char>| #[trigger] branches_of(all.take(k + 1), other)
                        == branches_of(seen, other) + if other == added {
                        1nat
                    } else {
                        0nat
                    } by {
                        lemma_branches_of_push(seen, branch, other);
                    }
                    lemma_branches_of_bound(seen, added);
                    assert forall|j: int| 0 <= j < p implies (#[trigger] before[j]).0@ != added by {
                        lemma_lex_total(codes(before[j].0@), codes(added));
                    }
                    assert forall|j: int| p < j < before.len() implies lex_less(
                        codes(added),
                        codes((#[trigger] before[j]).0@),
                    ) && before[j].0@ != added by {
                        lemma_lex_total(codes(before[p as int].0@), codes(added));
                        if codes(before[p as int].0@) != codes(added) {
                            lemma_lex_trans(
                                codes(added),
                                codes(before[p as int].0@),
                                codes(before[j].0@),
                            );
                        }
                        lemma_lex_total(codes(added), codes(before[j].0@));
                    }
                }
                if p < counts.entries.len() && same(
                    counts.entries[p].0.as_str(),
                    slug.as_str(),
                ) {
                    let n: usize = counts.entries[p].1;
                    counts.entries[p] = (slug, n + 1);
                    proof {
                        assert(counts.entries@ =~= before.update(p as int, counts.entries@[p as int]));
                        assert forall|other: Seq<char>| #[trigger]
                            branches_of(all.take(k + 1), other) > 0 implies exists|i: int|
                            0 <= i < counts.entries@.len() && (#[trigger] counts.entries@[i]).0@
                                == other by {
                            if other == added {
                                assert(counts.entries@[p as int].0@ == other);
                            } else {
                                let i = choose|i: int|
                                    0 <= i < before.len() && (#[trigger] before[i]).0@ == other;
                                assert(counts.entries@[i].0@ == other);
                            }
                        }
                    }
                } else {
                    proof {
                        if p < before.len() {
                            lemma_lex_total(codes(before[p as int].0@), codes(added));
                            if codes(before[p as int].0@) == codes(added) {
                                lemma_codes_injective(before[p as int].0@, added);
                            }
                        }
                        assert forall|j: int| 0 <= j < before.len() implies (#[trigger] before[j]).0@
                            != added by {}
                        if branches_of(seen, added) > 0 {
                            let i = choose|i: int|
                                0 <= i < before.len() && (#[trigger] before[i]).0@ == added;
                            assert(before[i].0@ != added);
                        }
                    }
                    counts.entries.insert(p, (slug, 1));
                    proof {
                        let after = counts.entries@;
                        assert forall|i: int| 0 <= i < after.len() implies (#[trigger] after[i]).1
                            == branches_of(all.take(k + 1), after[i].0@) && after[i].1 > 0 by {
                            if i < p {
                                assert(after[i] == before[i]);
                            } else if i > p {
                                assert(after[i] == before[i - 1]);
                            }
                        }
                        assert forall|i: int, j: int| 0 <= i < j < after.len() implies lex_less(
                            codes(after[i].0@),
                            codes(after[j].0@),
                        ) by {
                            if i < p {
                                assert(after[i] == before[i]);
                            }
                            if j < p {
                                assert(after[j] == before[j]);
                            }
                            if j > p {
                                assert(after[j] == before[j - 1]);
                            }
                            if i > p {
                                assert(after[i] == before[i - 1]);
                            }
                        }
                        assert forall|other: Seq<char>| #[trigger]
                            branches_of(all.take(k + 1), other) > 0 implies exists|i: int|
                            0 <= i < after.len() && (#[trigger] after[i]).0@ == other by {
                            if other == added {
                                assert(after[p as int].0@ == other);
                            } else {
                                let i = choose|i: int|
                                    0 <= i < before.len() && (#[trigger] before[i]).0@ == other;
                                if i < p {
                                    assert(after[i].0@ == other);
                                } else {
                                    assert(after[i + 1].0@ == other);
                                }
                            }
                        }
                    }
                }
            },
        }
        k += 1;
    }
    assert(all.take(k as int) =~= all);
    counts
}

/// With no branch listed twice, an environment has at most one branch of
/// record.
pub proof fn one_branch_of_record(branches: Seq<Seq<char>>, slug: Seq<char>)
    requires
        branches.no_duplicates(),
    ensures
        branches_of(branches, slug) <= 1,
    decreases branches.len(),
{
    if branches.len() > 0 {
        let rest = branches.drop_last();
        let last = branches.last();
        assert(rest.no_duplicates());
        one_branch_of_record(rest, slug);
        if branch_env(last) == Some(slug) && branches_of(rest, slug) > 0 {
            let i = lemma_branch_found(rest, slug);
            lemma_branch_env_injective(rest[i], last, slug);
            assert(branches[i] == branches[branches.len() - 1]);
        }
    }
}

proof fn lemma_branch_found(branches: Seq<Seq<char>>, slug: Seq<char>) -> (i: int)
    requires
        branches_of(branches, slug) > 0,
    ensures
        0 <= i < branches.len(),
        branch_env(branches[i]) == Some(slug),
    decreases branches.len(),
{
    if branch_env(branches.last()) == Some(slug) {
        branches.len() - 1
    } else {
        lemma_branch_found(branches.drop_last(), slug)
    }
}

proof fn lemma_branch_env_injective(a: Seq<char>, b: Seq<char>, slug: Seq<char>)
    requires
        branch_env(a) == Some(slug),
        branch_env(b) == Some(slug),
    ensures
        a == b,
{
    let n = "agents/"@.len() as int;
    assert(a =~= a.subrange(0, n) + a.subrange(n, a.len() as int));
    assert(b =~= b.subrange(0, n) + b.subrange(n, b.len() as int));
}

/// What an environment is called: the user's name for it, else its slug.
pub open spec fn called(slug: Seq<char>, state: WorkspaceState) -> Seq<char> {
    match state.name_of(slug) {
        Some(name) => name,
        None => slug,
    }
}

/// Where a row stands: the primary first, then by what it is called whatever
/// the case, then by slug.
pub open spec fn fleet_key(facts: EnvFacts, state: WorkspaceState) -> Seq<Seq<u64>> {
    seq![
        seq![
            if facts.env@ == EnvironmentId::primary_slug() {
                0u64
            } else {
                1u64
            },
        ],
        codes(lowered(called(facts.env@, state))),
        codes(facts.env@),
    ]
}

/// The keys of a fleet's facts.
pub open spec fn fleet_keys(facts: Seq<EnvFacts>, state: WorkspaceState) -> Seq<Seq<Seq<u64>>> {
    Seq::new(facts.len(), |i: int| fleet_key(facts[i], state))
}

/// `row` carries one environment's facts, what it is called, and how many
/// branches of record it has; nothing of any other environment.
pub open spec fn row_carries(
    row: FleetRow,
    facts: EnvFacts,
    state: WorkspaceState,
    published: Seq<Seq<char>>,
) -> bool {
    &&& row.env == facts.env
    &&& row.primary == (facts.env@ == EnvironmentId::primary_slug())
    &&& row.name@ == called(facts.env@, state)
    &&& row.named == (state.name_of(facts.env@) is Some)
    &&& row.state == facts.state
    &&& row.authority == facts.authority
    &&& row.pending_rebuild == facts.pending_rebuild
    &&& row.chat == facts.chat
    &&& row.git == facts.git
    &&& row.published == branches_of(published, facts.env@)
    &&& row.disk == facts.disk
    &&& row.spend == facts.spend
    &&& row.shells == facts.shells
    &&& row.review == facts.review
    &&& row.working_on == facts.working_on
}

/// `rows` is the fleet of `facts`: each environment once, in fleet order, each
/// row carrying its own facts.
pub open spec fn assembled(
    rows: Seq<FleetRow>,
    facts: Seq<EnvFacts>,
    state: WorkspaceState,
    published: Seq<Seq<char>>,
) -> bool {
    exists|order: Seq<usize>| #[trigger]
        is_stable_order(order, fleet_keys(facts, state)) && rows.len() == facts.len() && (forall|
            i: int,
        |
            0 <= i < rows.len() ==> row_carries(
                #[trigger] rows[i],
                facts[order[i] as int],
                state,
                published,
            ))
}

/// Assemble the fleet: registry facts, the user's names and their published
/// branches make the rows, primary first.
///
/// `published` is the branch list of the main checkout, because that is where
/// publishing lands.
pub fn assemble(facts: Vec<EnvFacts>, state: &WorkspaceState, published: &Vec<String>) -> (rows:
    Vec<FleetRow>)
    ensures
        assembled(rows@, facts@, *state, texts(published@)),
{
    let counts = published_by_environment(published);
    let ghost all = texts(published@);
    let mut rows: Vec<FleetRow> = Vec::new();
    let mut keys: Vec<Vec<Vec<u64>>> = Vec::new();
    for fact in it: facts
        invariant
            it.seq() == facts@,
            all == texts(published@),
            counts.counts(all),
            rows@.len() == it.index(),
            keys@.len() == it.index(),
            forall|j: int|
                0 <= j < rows@.len() ==> row_carries(#[trigger] rows@[j], facts@[j], *state, all),
            forall|j: int|
                0 <= j < keys@.len() ==> key_of(#[trigger] keys@[j]) == fleet_key(facts@[j], *state),
    {
        let ghost slug = fact.env@;
        let named = state.environment_name(&fact.env);
        let name: String = match named {
            Some(name) => name.to_owned(),
            None => fact.env.slug.clone(),
        };
        let primary = fact.env.is_primary();
        let published_count: usize = match counts.get(fact.env.as_str()) {
            Some(n) => n,
            None => 0,
        };
        proof {
            if branches_of(all, slug) > 0 {
                let i = choose|i: int|
                    0 <= i < counts.entries@.len() && (#[trigger] counts.entries@[i]).0@ == slug;
                assert(counts.entries@[i].0@ == slug);
            }
        }
        let rank: u64 = if primary {
            0
        } else {
            1
        };
        let mut first: Vec<u64> = Vec::new();
        first.push(rank);
        let mut key: Vec<Vec<u64>> = Vec::new();
        key.push(first);
        let lower = lowercase(name.as_str());
        key.push(text_codes(lower.as_str()));
        key.push(text_codes(fact.env.as_str()));
        assert(key_of(key) =~= fleet_key(fact, *state)) by {
            assert(first@ =~= seq![rank]);
        }
        keys.push(key);
        rows.push(
            FleetRow {
                primary,
                name,
                named: named.is_some(),
                published: published_count,
                env: fact.env,
                state: fact.state,
                authority: fact.authority,
                pending_rebuild: fact.pending_rebuild,
                chat: fact.chat,
                git: fact.git,
                disk: fact.disk,
                spend: fact.spend,
                shells: fact.shells,
                review: fact.review,
                working_on: fact.working_on,
            },
        );
    }
    assert(keys_of(keys@) =~= fleet_keys(facts@, *state));
    let order = stable_order(&keys);
    let ghost unsorted = rows@;
    let out = permute(rows, &order);
    assert forall|i: int| 0 <= i < out@.len() implies row_carries(
        #[trigger] out@[i],
        facts@[order@[i] as int],
        *state,
        all,
    ) by {
        assert(out@[i] == unsorted[order@[i] as int]);
    }
    out
}

/// The primary leads: no row that is not the primary's stands before one that
/// is.
pub proof fn the_primary_leads(
    rows: Seq<FleetRow>,
    facts: Seq<EnvFacts>,
    state: WorkspaceState,
    published: Seq<Seq<char>>,
    i: int,
    k: int,
)
    requires
        assembled(rows, facts, state, published),
        0 <= i < k < rows.len(),
        rows[k].primary,
    ensures
        rows[i].primary,
{
    let order = choose|order: Seq<usize>| #[trigger]
        is_stable_order(order, fleet_keys(facts, state)) && rows.len() == facts.len() && (forall|
            i: int,
        |
            0 <= i < rows.len() ==> row_carries(
                #[trigger] rows[i],
                facts[order[i] as int],
                state,
                published,
            ));
    let a = order[i] as int;
    let b = order[k] as int;
    assert(row_carries(rows[i], facts[a], state, published));
    assert(row_carries(rows[k], facts[b], state, published));
    let keys = fleet_keys(facts, state);
    assert(placed_before(keys, a, b));
    assert(keys[a] == fleet_key(facts[a], state));
    assert(keys[b] == fleet_key(facts[b], state));
    assert(keys[b][0] == seq![0u64]);
    if !rows[i].primary {
        assert(keys[a][0] == seq![1u64]);
        assert(keys[a][0][0] != keys[b][0][0]);
    }
}

/// Every environment has a row that carries its facts, and there are no more
/// rows than environments.
pub proof fn every_environment_has_a_row(
    rows: Seq<FleetRow>,
    facts: Seq<EnvFacts>,
    state: WorkspaceState,
    published: Seq<Seq<char>>,
    j: int,
) -> (i: int)
    requires
        assembled(rows, facts, state, published),
        0 <= j < facts.len() <= usize::MAX,
    ensures
        0 <= i < rows.len() == facts.len(),
        row_carries(rows[i], facts[j], state, published),
{
    let order = choose|order: Seq<usize>| #[trigger]
        is_stable_order(order, fleet_keys(facts, state)) && rows.len() == facts.len() && (forall|
            i: int,
        |
            0 <= i < rows.len() ==> row_carries(
                #[trigger] rows[i],
                facts[order[i] as int],
                state,
                published,
            ));
    assert(order.contains(j as usize));
    let i = choose|i: int| 0 <= i < order.len() && order[i] == j as usize;
    assert(row_carries(rows[i], facts[order[i] as int], state, published));
    i
}

/// The rows, as everything outside the console reads them.
///
/// One conversion, two consumers: a service publishes this, and the compact
/// card renders it. Nothing is computed here that is not already in a row.
/// `open_issues` is passed in rather than derived: an unclaimed issue belongs
/// to no environment, so no sum over these rows could find it.
pub fn snapshot(rows: &Vec<FleetRow>, workspace: &str, open_issues: usize) -> (out: Snapshot)
    ensures
        out.workspace@ == workspace@,
        out.open_issues == open_issues,
        out.rows@.len() == rows@.len(),
        forall|i: int| 0 <= i < rows@.len() ==> projects(#[trigger] out.rows@[i], rows@[i]),
{
    let mut wire: Vec<Row> = Vec::new();
    let mut i: usize = 0;
    while i < rows.len()
        invariant
            i <= rows@.len(),
            wire@.len() == i,
            forall|j: int| 0 <= j < i ==> projects(#[trigger] wire@[j], rows@[j]),
        decreases rows@.len() - i,
    {
        wire.push(wire_row(&rows[i]));
        i += 1;
    }
    Snapshot { workspace: workspace.to_owned(), open_issues: open_issues as u64, rows: wire }
}

fn wire_row(row: &FleetRow) -> (out: Row)
    ensures
        projects(out, *row),
{
    let chat = match &row.chat {
        Some(chat) => Some(
            Chat {
                label: chat.label.clone(),
                busy: chat.busy,
                orchestrator: chat.orchestrator,
            },
        ),
        None => None,
    };
    let (branch, unpublished, dirty): (Option<String>, u64, u64) = match &row.git {
        Some(git) => {
            let branch = match &git.branch {
                Some(branch) => Some(branch.clone()),
                None => None,
            };
            (branch, git.unpublished as u64, git.dirty as u64)
        },
        None => (None, 0, 0),
    };
    let disk_bytes = match &row.disk {
        Some(disk) => Some(disk.total_bytes()),
        None => None,
    };
    let working_on = row.working_on.clone();
    assert(working_on@ =~= row.working_on@);
    Row {
        environment: row.env.slug.clone(),
        name: row.name.clone(),
        named: row.named,
        primary: row.primary,
        mode: row.mode_slug().to_owned(),
        state: row.state_slug().to_owned(),
        detail: row.state_text(),
        pending_rebuild: row.pending_rebuild,
        chat,
        branch,
        unpublished,
        dirty,
        git_known: row.git.is_some(),
        published: row.published as u64,
        shells: row.shells as u64,
        disk_bytes,
        spend: row.spend,
        review: row.review,
        working_on,
    }
}

/// `wire` is `row` as a stranger reads it, and nothing more.
pub open spec fn projects(wire: Row, row: FleetRow) -> bool {
    &&& wire.environment@ == row.env@
    &&& wire.name@ == row.name@
    &&& wire.named == row.named
    &&& wire.primary == row.primary
    &&& wire.mode@ == row.mode_token()
    &&& wire.state@ == row.state_token()
    &&& wire.detail@ == row.state_shown()
    &&& wire.pending_rebuild == row.pending_rebuild
    &&& match (wire.chat, row.chat) {
        (Some(shown), Some(chat)) => shown.label@ == chat.label@ && shown.busy == chat.busy
            && shown.orchestrator == chat.orchestrator,
        (None, None) => true,
        _ => false,
    }
    &&& wire.git_known == (row.git is Some)
    &&& match row.git {
        Some(git) => wire.branch == git.branch && wire.unpublished == git.unpublished && wire.dirty
            == git.dirty,
        None => wire.branch is None && wire.unpublished == 0 && wire.dirty == 0,
    }
    &&& wire.published == row.published
    &&& wire.shells == row.shells
    &&& wire.disk_bytes == match row.disk {
        Some(disk) => Some(capped_sum(disk.checkout_bytes, disk.volume_bytes)),
        None => None,
    }
    &&& wire.spend == row.spend
    &&& wire.review == row.review
    &&& wire.working_on@ == row.working_on@
}

/// A chat, as the snapshot says it.
#[derive(Debug, PartialEq, Eq)]
pub struct Chat {
    pub label: String,
    pub busy: bool,
    pub orchestrator: bool,
}

/// One environment, as the snapshot says it.
#[derive(Debug, PartialEq, Eq)]
pub struct Row {
    pub environment: String,
    pub name: String,
    pub named: bool,
    pub primary: bool,
    pub mode: String,
    pub state: String,
    pub detail: String,
    pub pending_rebuild: bool,
    pub chat: Option<Chat>,
    pub branch: Option<String>,
    pub unpublished: u64,
    pub dirty: u64,
    /// Not computed is not zero, and the numbers alone cannot tell.
    pub git_known: bool,
    pub published: u64,
    pub shells: u64,
    pub disk_bytes: Option<u64>,
    pub spend: Spend,
    pub review: ReviewState,
    pub working_on: Vec<Claim>,
}

/// The whole fleet, as everything outside the console reads it.
#[derive(Debug, PartialEq, Eq)]
pub struct Snapshot {
    pub workspace: String,
    pub open_issues: u64,
    pub rows: Vec<Row>,
}

/// How many rows satisfy `p`.
pub open spec fn rows_where(rows: Seq<Row>, p: spec_fn(Row) -> bool) -> nat
    decreases rows.len(),
{
    if rows.len() == 0 {
        0
    } else {
        rows_where(rows.drop_last(), p) + if p(rows.last()) {
            1nat
        } else {
            0nat
        }
    }
}

/// The spend of all rows together, each number held at the largest it can say.
pub open spec fn spend_of(rows: Seq<Row>) -> Spend
    decreases rows.len(),
{
    if rows.len() == 0 {
        Spend { requests: 0, input_tokens: 0, output_tokens: 0 }
    } else {
        let rest = spend_of(rows.drop_last());
        let last = rows.last().spend;
        Spend {
            requests: capped_sum(rest.requests, last.requests),
            input_tokens: capped_sum(rest.input_tokens, last.input_tokens),
            output_tokens: capped_sum(rest.output_tokens, last.output_tokens),
        }
    }
}

impl Snapshot {
    /// How many environments wait for the user's judgment.
    pub fn flagged_for_review(&self) -> (n: usize)
        ensures
            n == rows_where(self.rows@, |row: Row| row.review == ReviewState::FlaggedForReview),
    {
        let ghost p = |row: Row| row.review == ReviewState::FlaggedForReview;
        let mut n: usize = 0;
        let mut i: usize = 0;
        while i < self.rows.len()
            invariant
                i <= self.rows@.len(),
                p == (|row: Row| row.review == ReviewState::FlaggedForReview),
                n == rows_where(self.rows@.take(i as int), p),
                n <= i,
            decreases self.rows@.len() - i,
        {
            if self.rows[i].review == ReviewState::FlaggedForReview {
                n += 1;
            }
            i += 1;
            assert(self.rows@.take(i as int).drop_last() =~= self.rows@.take(i - 1));
        }
        assert(self.rows@.take(i as int) =~= self.rows@);
        n
    }

    /// How many environments are running.
    pub fn running(&self) -> (n: usize)
        ensures
            n == rows_where(self.rows@, |row: Row| row.state@ == "running"@),
    {
        let ghost p = |row: Row| row.state@ == "running"@;
        let mut n: usize = 0;
        let mut i: usize = 0;
        while i < self.rows.len()
            invariant
                i <= self.rows@.len(),
                p == (|row: Row| row.state@ == "running"@),
                n == rows_where(self.rows@.take(i as int), p),
                n <= i,
            decreases self.rows@.len() - i,
        {
            if same(self.rows[i].state.as_str(), "running") {
                n += 1;
            }
            i += 1;
            assert(self.rows@.take(i as int).drop_last() =~= self.rows@.take(i - 1));
        }
        assert(self.rows@.take(i as int) =~= self.rows@);
        n
    }

    /// How many environments have a chat mid-turn.
    pub fn busy(&self) -> (n: usize)
        ensures
            n == rows_where(self.rows@, |row: Row| row.chat matches Some(chat) && chat.busy),
    {
        let ghost p = |row: Row| row.chat matches Some(chat) && chat.busy;
        let mut n: usize = 0;
        let mut i: usize = 0;
        while i < self.rows.len()
            invariant
                i <= self.rows@.len(),
                p == (|row: Row| row.chat matches Some(chat) && chat.busy),
                n == rows_where(self.rows@.take(i as int), p),
                n <= i,
            decreases self.rows@.len() - i,
        {
            if let Some(chat) = &self.rows[i].chat {
                if chat.busy {
                    n += 1;
                }
            }
            i += 1;
            assert(self.rows@.take(i as int).drop_last() =~= self.rows@.take(i - 1));
        }
        assert(self.rows@.take(i as int) =~= self.rows@);
        n
    }

    /// What the whole fleet has spent.
    pub fn spend(&self) -> (out: Spend)
        ensures
            out == spend_of(self.rows@),
    {
        let mut total = Spend::default();
        let mut i: usize = 0;
        while i < self.rows.len()
            invariant
                i <= self.rows@.len(),
                total == spend_of(self.rows@.take(i as int)),
            decreases self.rows@.len() - i,
        {
            let spend = self.rows[i].spend;
            total = Spend {
                requests: total.requests.saturating_add(spend.requests),
                input_tokens: total.input_tokens.saturating_add(spend.input_tokens),
                output_tokens: total.output_tokens.saturating_add(spend.output_tokens),
            };
            i += 1;
            assert(self.rows@.take(i as int).drop_last() =~= self.rows@.take(i - 1));
        }
        assert(self.rows@.take(i as int) =~= self.rows@);
        total
    }
}

/// The first `n` amounts together.
pub open spec fn drawn(spenders: Seq<(String, u64)>, n: int) -> nat
    decreases n,
{
    if n <= 0 {
        0
    } else {
        drawn(spenders, n - 1) + spenders[n - 1].1 as nat
    }
}

/// The shared pool: the limit state, and who draws on it.
#[derive(Debug, PartialEq, Eq)]
pub struct PoolFacts {
    pub quota: QuotaSnapshot,
    /// Environment display name and tokens, biggest first, zero-spend rows
    /// dropped.
    pub spenders: Vec<(String, u64)>,
}

impl PoolFacts {
    /// Tokens the whole fleet has drawn.
    pub fn total(&self) -> (out: u64)
        requires
            drawn(self.spenders@, self.spenders@.len() as int) <= u64::MAX,
        ensures
            out == drawn(self.spenders@, self.spenders@.len() as int),
    {
        let mut out: u64 = 0;
        let mut i: usize = 0;
        while i < self.spenders.len()
            invariant
                i <= self.spenders@.len(),
                out == drawn(self.spenders@, i as int),
                drawn(self.spenders@, self.spenders@.len() as int) <= u64::MAX,
            decreases self.spenders@.len() - i,
        {
            proof {
                lemma_drawn_grows(self.spenders@, i + 1, self.spenders@.len() as int);
            }
            out = out + self.spenders[i].1;
            i += 1;
        }
        out
    }
}

proof fn lemma_drawn_grows(spenders: Seq<(String, u64)>, a: int, b: int)
    requires
        0 <= a <= b,
    ensures
        drawn(spenders, a) <= drawn(spenders, b),
    decreases b - a,
{
    if a < b {
        lemma_drawn_grows(spenders, a, b - 1);
    }
}

/// The light tells what runs: red where no container is up or on its way, green
/// exactly where the project's own container is up, current, and waits on no
/// one, and amber for all the rest.
pub proof fn a_light_tells_what_runs(row: FleetRow)
    ensures
        row.light_shown() == Light::Red <==> row.state is NoConfig || row.state is ConfigDetected
            || row.state is Failed || row.state is Stopped,
        row.light_shown() == Light::Green <==> row.state is Running && row.authority
            == ConfigAuthority::Project && !row.pending_rebuild && !(row.chat matches Some(chat)
            && chat.awaits_user),
        row.state is Building || row.state is Starting ==> row.light_shown() == Light::Amber,
        row.chat matches Some(chat) ==> (chat.awaits_user ==> row.light_shown() != Light::Green),
        row.pending_rebuild ==> row.light_shown() != Light::Green,
{
}

/// The words for a row tell its state apart from the others, say the first line
/// of what went wrong, and name the mode wherever it is not the project's own.
pub proof fn a_rows_words_tell_its_state(row: FleetRow)
    ensures
        row.state is NoConfig ==> holds_text(row.state_shown(), "not configured"@),
        row.state is ConfigDetected ==> holds_text(row.state_shown(), "configured, not started"@),
        row.state is Building ==> holds_text(row.state_shown(), "building"@),
        row.state is Starting ==> holds_text(row.state_shown(), "starting"@),
        row.state is Running ==> holds_text(row.state_shown(), "running"@),
        row.state is Stopped ==> holds_text(row.state_shown(), "stopped"@),
        row.state matches SupervisorState::Failed { message } ==> holds_text(
            row.state_shown(),
            "failed: "@ + first_line_of(message@),
        ),
        row.state is Running && row.pending_rebuild ==> holds_text(
            row.state_shown(),
            "needs rebuild"@,
        ),
        row.state is Running && row.authority == ConfigAuthority::Baseline ==> holds_text(
            row.state_shown(),
            "safe mode"@,
        ),
        !(row.state is Running) ==> holds_text(row.state_shown(), "no environment"@),
        row.state is Running && row.authority == ConfigAuthority::Project ==> row.state_shown()
            == row.detail_shown(),
{
    let detail = row.detail_shown();
    let shown = row.state_shown();
    let lead = match row.mode_shown() {
        Some(mode) => mode + " · "@,
        None => Seq::empty(),
    };
    assert(shown =~= lead + detail + Seq::<char>::empty());
    assert(detail.subrange(0, detail.len() as int) =~= detail);
    crate::text::lemma_holds_within(lead, detail, Seq::empty(), detail, 0);
    lemma_state_words(lead);
    if let Some(mode) = row.mode_shown() {
        let rest = " · "@ + detail;
        assert(shown =~= Seq::<char>::empty() + mode + rest);
        crate::text::lemma_holds_middle(Seq::empty(), mode, rest);
    }
}

proof fn lemma_state_words(lead: Seq<char>)
    ensures
        holds_text(lead + "building…"@ + Seq::<char>::empty(), "building"@),
        holds_text(lead + "starting…"@ + Seq::<char>::empty(), "starting"@),
        holds_text(lead + "running · needs rebuild"@ + Seq::<char>::empty(), "running"@),
        holds_text(lead + "running · needs rebuild"@ + Seq::<char>::empty(), "needs rebuild"@),
{
    let none = Seq::<char>::empty();
    let building = "building…"@;
    assert("building"@.len() == 8 && building.len() == 9 && building.subrange(0, 8)
        =~= "building"@) by {
        reveal_strlit("building…");
        reveal_strlit("building");
    }
    crate::text::lemma_holds_within(lead, building, none, "building"@, 0);
    let starting = "starting…"@;
    assert("starting"@.len() == 8 && starting.len() == 9 && starting.subrange(0, 8)
        =~= "starting"@) by {
        reveal_strlit("starting…");
        reveal_strlit("starting");
    }
    crate::text::lemma_holds_within(lead, starting, none, "starting"@, 0);
    let stale = "running · needs rebuild"@;
    assert("running"@.len() == 7 && stale.len() == 23 && stale.subrange(0, 7) =~= "running"@) by {
        reveal_strlit("running · needs rebuild");
        reveal_strlit("running");
    }
    assert("needs rebuild"@.len() == 13 && stale.subrange(10, 23) =~= "needs rebuild"@) by {
        reveal_strlit("running · needs rebuild");
        reveal_strlit("needs rebuild");
    }
    crate::text::lemma_holds_within(lead, stale, none, "running"@, 0);
    crate::text::lemma_holds_within(lead, stale, none, "needs rebuild"@, 10);
}

/// A branch of record is named after its environment and nothing else: only
/// `agents/` and the name itself is one, whatever stands below it.
pub proof fn a_branch_of_record_names_its_environment(branch: Seq<char>, slug: Seq<char>)
    ensures
        branch_env(branch) == Some(slug) <==> branch == "agents/"@ + slug && slug.len() > 0
            && !slug.contains('/'),
        branch_env(branch) is Some ==> branch.len() > "agents/"@.len(),
{
    let lead = "agents/"@;
    let rest = branch.subrange(lead.len() as int, branch.len() as int);
    if begins_with(branch, lead) {
        assert(branch =~= lead + rest) by {
            assert forall|i: int| 0 <= i < branch.len() implies branch[i] == (lead + rest)[i] by {
                if i < lead.len() {
                    assert(branch.subrange(0, lead.len() as int)[i] == lead[i]);
                }
            }
        }
    }
    if branch == lead + slug {
        assert(rest =~= slug);
        assert(branch.subrange(0, lead.len() as int) =~= lead);
        assert(begins_with(branch, lead));
    }
}

/// The user's name for an environment is what its row shows, and its slug where
/// there is none; only the environment called `primary` is the user's own, and
/// its branches of record are those that bear its slug.
pub proof fn a_row_is_of_its_own_environment(
    row: FleetRow,
    facts: EnvFacts,
    state: WorkspaceState,
    published: Seq<Seq<char>>,
)
    requires
        row_carries(row, facts, state, published),
    ensures
        row.env@ == facts.env@,
        row.primary <==> facts.env@ == "primary"@,
        state.name_of(facts.env@) matches Some(name) ==> row.named && row.name@ == name,
        state.name_of(facts.env@) is None ==> !row.named && row.name@ == facts.env@,
        row.state == facts.state && row.authority == facts.authority && row.pending_rebuild
            == facts.pending_rebuild,
        row.chat == facts.chat && row.git == facts.git && row.disk == facts.disk,
        row.spend == facts.spend && row.shells == facts.shells,
        row.review == facts.review && row.working_on == facts.working_on,
        row.published > 0 <==> exists|i: int|
            0 <= i < published.len() && #[trigger] branch_env(published[i]) == Some(facts.env@),
{
    lemma_some_branch(published, facts.env@);
}

proof fn lemma_some_branch(branches: Seq<Seq<char>>, slug: Seq<char>)
    ensures
        branches_of(branches, slug) > 0 <==> exists|i: int|
            0 <= i < branches.len() && #[trigger] branch_env(branches[i]) == Some(slug),
    decreases branches.len(),
{
    if branches.len() > 0 {
        let rest = branches.drop_last();
        lemma_some_branch(rest, slug);
        if branches_of(branches, slug) > 0 {
            if branch_env(branches.last()) == Some(slug) {
                assert(branch_env(branches[branches.len() - 1]) == Some(slug));
            } else {
                let i = choose|i: int|
                    0 <= i < rest.len() && #[trigger] branch_env(rest[i]) == Some(slug);
                assert(branch_env(branches[i]) == Some(slug));
            }
        }
        if exists|i: int|
            0 <= i < branches.len() && #[trigger] branch_env(branches[i]) == Some(slug) {
            let i = choose|i: int|
                0 <= i < branches.len() && #[trigger] branch_env(branches[i]) == Some(slug);
            if i < rest.len() {
                assert(branch_env(rest[i]) == Some(slug));
            }
        }
    }
}

/// Behind the primary the rows stand by what they are called, whatever its case,
/// and by slug where two are called the same.
pub proof fn rows_stand_by_name(
    rows: Seq<FleetRow>,
    facts: Seq<EnvFacts>,
    state: WorkspaceState,
    published: Seq<Seq<char>>,
    i: int,
    k: int,
)
    requires
        assembled(rows, facts, state, published),
        0 <= i < k < rows.len(),
        rows[i].primary == rows[k].primary,
    ensures
        !lex_less(codes(lowered(rows[k].name@)), codes(lowered(rows[i].name@))),
        lowered(rows[k].name@) == lowered(rows[i].name@) ==> !lex_less(
            codes(rows[k].env@),
            codes(rows[i].env@),
        ),
{
    let keys = fleet_keys(facts, state);
    let order = choose|order: Seq<usize>| #[trigger]
        is_stable_order(order, keys) && rows.len() == facts.len() && (forall|j: int|
            0 <= j < rows.len() ==> row_carries(
                #[trigger] rows[j],
                facts[order[j] as int],
                state,
                published,
            ));
    let a = order[i] as int;
    let b = order[k] as int;
    assert(row_carries(rows[i], facts[a], state, published));
    assert(row_carries(rows[k], facts[b], state, published));
    assert(placed_before(keys, a, b));
    let x = fleet_key(facts[a], state);
    let y = fleet_key(facts[b], state);
    assert(keys[a] == x && keys[b] == y);
    lemma_lex_total(x[1], y[1]);
    lemma_lex_total(x[2], y[2]);
    assert(x[0] =~= y[0]);
    if x[1] != y[1] {
        crate::order::the_first_field_decides(x, y, 1);
        crate::order::the_first_field_decides(y, x, 1);
    } else if x[2] != y[2] {
        crate::order::the_first_field_decides(x, y, 2);
        crate::order::the_first_field_decides(y, x, 2);
    }
}

/// A stranger reads of an environment what its row holds: the same name, state
/// and git facts, and what was never measured as unknown rather than as nothing.
pub proof fn a_stranger_reads_the_row(wire: Row, row: FleetRow)
    requires
        projects(wire, row),
    ensures
        wire.environment@ == row.env@ && wire.name@ == row.name@ && wire.primary == row.primary,
        wire.state@ == "running"@ <==> row.state is Running,
        wire.state@ == "failed"@ <==> row.state is Failed,
        wire.state@ == "stopped"@ <==> row.state is Stopped,
        wire.mode@ == "container"@ <==> row.state is Running && row.authority
            == ConfigAuthority::Project,
        wire.mode@ == "safe"@ <==> !(row.state is Running && row.authority
            == ConfigAuthority::Project),
        wire.chat is Some <==> row.chat is Some,
        row.chat matches Some(chat) ==> (wire.chat matches Some(shown) && shown.label@ == chat.label@
            && shown.busy == chat.busy && shown.orchestrator == chat.orchestrator),
        wire.git_known <==> row.git is Some,
        row.git matches Some(git) ==> wire.unpublished == git.unpublished && wire.dirty == git.dirty
            && wire.branch == git.branch,
        wire.disk_bytes is Some <==> row.disk is Some,
        row.disk matches Some(disk) ==> (disk.checkout_bytes + disk.volume_bytes <= u64::MAX
            ==> wire.disk_bytes == Some((disk.checkout_bytes + disk.volume_bytes) as u64)),
        wire.review == row.review && wire.spend == row.spend && wire.shells == row.shells,
        wire.published == row.published && wire.working_on@ == row.working_on@,
{
    state_tokens_are_distinct_to(row.state);
    reveal_strlit("container");
    reveal_strlit("safe");
    assert("container"@.len() == 9 && "safe"@.len() == 4);
}

proof fn state_tokens_are_distinct_to(state: SupervisorState)
    ensures
        state_token_of(state) == "running"@ <==> state is Running,
        state_token_of(state) == "failed"@ <==> state is Failed,
        state_token_of(state) == "stopped"@ <==> state is Stopped,
{
    reveal_strlit("no-config");
    reveal_strlit("config-detected");
    reveal_strlit("building");
    reveal_strlit("starting");
    reveal_strlit("running");
    reveal_strlit("failed");
    reveal_strlit("stopped");
    assert("running"@.len() == 7 && "running"@[0] == 'r');
    assert("stopped"@.len() == 7 && "stopped"@[0] == 's');
    assert("failed"@.len() == 6 && "building"@.len() == 8 && "starting"@.len() == 8);
    assert("no-config"@.len() == 9 && "config-detected"@.len() == 15);
}

/// What is counted of the fleet is counted row by row: each row adds one or
/// nothing, and a count is nothing exactly where no row has it.
pub proof fn a_count_is_of_rows(rows: Seq<Row>, p: spec_fn(Row) -> bool)
    ensures
        rows_where(rows, p) <= rows.len(),
        rows_where(rows, p) == 0 <==> forall|i: int| 0 <= i < rows.len() ==> !p(#[trigger] rows[i]),
        rows_where(rows, p) == rows.len() <==> forall|i: int|
            0 <= i < rows.len() ==> p(#[trigger] rows[i]),
        forall|row: Row| #[trigger]
            rows_where(rows.push(row), p) == rows_where(rows, p) + if p(row) {
                1nat
            } else {
                0nat
            },
    decreases rows.len(),
{
    assert forall|row: Row| #[trigger]
        rows_where(rows.push(row), p) == rows_where(rows, p) + if p(row) {
            1nat
        } else {
            0nat
        } by {
        assert(rows.push(row).drop_last() =~= rows);
    }
    if rows.len() > 0 {
        let rest = rows.drop_last();
        a_count_is_of_rows(rest, p);
        assert(rows.last() == rows[rows.len() - 1]);
        if forall|i: int| 0 <= i < rows.len() ==> !p(#[trigger] rows[i]) {
            assert forall|i: int| 0 <= i < rest.len() implies !p(#[trigger] rest[i]) by {
                assert(rest[i] == rows[i]);
            }
        }
        if forall|i: int| 0 <= i < rows.len() ==> p(#[trigger] rows[i]) {
            assert forall|i: int| 0 <= i < rest.len() implies p(#[trigger] rest[i]) by {
                assert(rest[i] == rows[i]);
            }
        }
        if rows_where(rows, p) == 0 {
            assert forall|i: int| 0 <= i < rows.len() implies !p(#[trigger] rows[i]) by {
                if i < rest.len() {
                    assert(rest[i] == rows[i]);
                }
            }
        }
        if rows_where(rows, p) == rows.len() {
            assert forall|i: int| 0 <= i < rows.len() implies p(#[trigger] rows[i]) by {
                if i < rest.len() {
                    assert(rest[i] == rows[i]);
                }
            }
        }
    }
}

/// One row more spends what it spends: each number grows by the row's own, as
/// long as it can say it, and never falls.
pub proof fn a_row_adds_its_own_spend(rows: Seq<Row>, row: Row)
    ensures
        spend_of(rows.push(row)).requests >= spend_of(rows).requests,
        spend_of(rows.push(row)).input_tokens >= spend_of(rows).input_tokens,
        spend_of(rows.push(row)).output_tokens >= spend_of(rows).output_tokens,
        spend_of(rows).requests + row.spend.requests <= u64::MAX ==> spend_of(
            rows.push(row),
        ).requests == spend_of(rows).requests + row.spend.requests,
        spend_of(rows).input_tokens + row.spend.input_tokens <= u64::MAX ==> spend_of(
            rows.push(row),
        ).input_tokens == spend_of(rows).input_tokens + row.spend.input_tokens,
        spend_of(rows).output_tokens + row.spend.output_tokens <= u64::MAX ==> spend_of(
            rows.push(row),
        ).output_tokens == spend_of(rows).output_tokens + row.spend.output_tokens,
        spend_of(Seq::empty()) == (Spend { requests: 0, input_tokens: 0, output_tokens: 0 }),
{
    assert(rows.push(row).drop_last() =~= rows);
}

/// What a row works on is said by its first claim, id and title, and the others
/// are counted; a row with no claim says nothing.
pub proof fn a_row_says_its_first_claim(row: FleetRow)
    ensures
        row.working_on_shown() is None <==> row.working_on@.len() == 0,
        row.working_on_shown() matches Some(text) ==> begins_with(
            text,
            row.working_on@[0].id@ + " — "@ + row.working_on@[0].title@,
        ),
        row.working_on@.len() == 1 ==> (row.working_on_shown() matches Some(text) && text
            == row.working_on@[0].id@ + " — "@ + row.working_on@[0].title@),
        row.working_on@.len() > 1 ==> (row.working_on_shown() matches Some(text) && holds_text(
            text,
            "+"@ + decimal_of((row.working_on@.len() - 1) as nat) + " more"@,
        )),
{
    let held = row.working_on@;
    if held.len() > 0 {
        let lead = held[0].id@ + " — "@ + held[0].title@;
        let text = row.working_on_shown()->0;
        assert(text.subrange(0, lead.len() as int) =~= lead);
        assert(begins_with(text, lead));
        if held.len() > 1 {
            let n = decimal_of((held.len() - 1) as nat);
            reveal_strlit(" (+");
            reveal_strlit(" more)");
            reveal_strlit("+");
            reveal_strlit(" more");
            let front = lead + seq![' ', '('];
            let middle = "+"@ + n + " more"@;
            assert(" (+"@ =~= seq![' ', '('] + "+"@);
            assert(" more)"@ =~= " more"@ + seq![')']);
            assert(text =~= front + middle + seq![')']);
            crate::text::lemma_holds_middle(front, middle, seq![')']);
        }
    }
}

/// A footprint that nobody measured is a dash; one that was measured is the
/// checkout and its volumes together, marked where a volume is missing from it.
pub proof fn a_footprint_is_honest(row: FleetRow)
    ensures
        row.disk is None ==> row.disk_shown() == "—"@,
        row.disk matches Some(disk) ==> {
            &&& disk.checkout_bytes + disk.volume_bytes <= u64::MAX && disk.volumes_unmeasured == 0
                ==> row.disk_shown() == bytes_text((disk.checkout_bytes + disk.volume_bytes) as nat)
            &&& disk.checkout_bytes + disk.volume_bytes <= u64::MAX && disk.volumes_unmeasured > 0
                ==> row.disk_shown() == bytes_text(
                (disk.checkout_bytes + disk.volume_bytes) as nat,
            ) + "+"@
        },
        row.spend.requests == 0 && row.spend.input_tokens == 0 && row.spend.output_tokens == 0
            ==> row.spend_shown() == "—"@,
        row.spend.requests > 0 || row.spend.input_tokens > 0 || row.spend.output_tokens > 0 ==> {
            &&& begins_with(row.spend_shown(), compact_text(row.spend.input_tokens as nat) + " in"@)
            &&& holds_text(row.spend_shown(), compact_text(row.spend.output_tokens as nat) + " out"@)
        },
{
    reveal_strlit(" in / ");
    reveal_strlit(" in");
    let a = compact_text(row.spend.input_tokens as nat);
    let b = compact_text(row.spend.output_tokens as nat);
    if row.spend.requests > 0 || row.spend.input_tokens > 0 || row.spend.output_tokens > 0 {
        let text = row.spend_shown();
        assert(text == a + " in / "@ + b + " out"@);
        assert(text.subrange(0, (a + " in"@).len() as int) =~= a + " in"@);
        assert(text =~= (a + " in / "@) + (b + " out"@));
        crate::text::lemma_holds_end(a + " in / "@, b + " out"@);
    }
}

/// A list marks what waits for the user apart from what they have ruled on, and
/// ordinary work not at all.
pub proof fn a_mark_tells_where_the_arc_stands(state: ReviewState)
    ensures
        ReviewMark::mark_of(state) == ReviewMark::Flagged <==> state
            == ReviewState::FlaggedForReview,
        ReviewMark::mark_of(state) == ReviewMark::Settled <==> state == ReviewState::Merged || state
            == ReviewState::Rejected,
        ReviewMark::mark_of(state) == ReviewMark::Unmarked <==> state == ReviewState::Working,
        state.is_settled() <==> state == ReviewState::Merged || state == ReviewState::Rejected,
{
}

/// What the pool has drawn is what its spenders drew, all of them.
pub proof fn the_pool_is_its_spenders(spenders: Seq<(String, u64)>, one: (String, u64))
    ensures
        drawn(spenders.push(one), spenders.len() as int + 1) == drawn(
            spenders,
            spenders.len() as int,
        ) + one.1,
        drawn(spenders, 0) == 0,
        forall|i: int|
            0 <= i < spenders.len() ==> (#[trigger] spenders[i]).1 <= drawn(
                spenders,
                spenders.len() as int,
            ),
{
    lemma_drawn_prefix(spenders, spenders.push(one), spenders.len() as int);
    assert forall|i: int| 0 <= i < spenders.len() implies (#[trigger] spenders[i]).1 <= drawn(
        spenders,
        spenders.len() as int,
    ) by {
        lemma_drawn_holds(spenders, i, spenders.len() as int);
    }
}

proof fn lemma_drawn_prefix(a: Seq<(String, u64)>, b: Seq<(String, u64)>, n: int)
    requires
        0 <= n <= a.len(),
        n <= b.len(),
        forall|i: int| 0 <= i < n ==> a[i] == b[i],
    ensures
        drawn(a, n) == drawn(b, n),
    decreases n,
{
    if n > 0 {
        lemma_drawn_prefix(a, b, n - 1);
    }
}

proof fn lemma_drawn_holds(spenders: Seq<(String, u64)>, i: int, n: int)
    requires
        0 <= i < n <= spenders.len(),
    ensures
        spenders[i].1 <= drawn(spenders, n),
    decreases n,
{
    if i < n - 1 {
        lemma_drawn_holds(spenders, i, n - 1);
    }
}

/// Every environment can be destroyed but the user's own checkout.
pub proof fn the_users_checkout_is_not_destroyed(row: FleetRow, r: bool)
    requires
        may_go(row, r),
    ensures
        row.primary ==> !r,
        !row.primary ==> r,
{
}

/// What is counted for an environment is how many of the branches are its branch
/// of record, and nothing stands for one that has none.
pub proof fn a_count_is_of_its_environment(
    counts: BranchCounts,
    branches: Seq<Seq<char>>,
    slug: Seq<char>,
    out: Option<usize>,
)
    requires
        counts.counts(branches),
        gets(counts, slug, out),
    ensures
        out is Some <==> branches_of(branches, slug) > 0,
        out matches Some(n) ==> n == branches_of(branches, slug),
{
    if branches_of(branches, slug) > 0 {
        let i = choose|i: int|
            0 <= i < counts.entries@.len() && (#[trigger] counts.entries@[i]).0@ == slug;
        assert(counts.entries@[i].0@ == slug);
    }
}

/// A mode is explained as it is: the project's own configuration, a baseline
/// that stands in, or nothing running at all.
pub proof fn a_mode_is_explained_as_it_is(row: FleetRow)
    ensures
        row.state is Running && row.authority == ConfigAuthority::Project ==> row.explainer_shown()
            == "This environment runs the project's own devcontainer configuration."@,
        row.state is Running && row.authority == ConfigAuthority::Baseline ==> begins_with(
            row.explainer_shown(),
            "The IDE's baseline environment is standing in"@,
        ),
        !(row.state is Running) ==> begins_with(
            row.explainer_shown(),
            "Nothing is running here"@,
        ),
{
    if row.state is Running && row.authority == ConfigAuthority::Baseline {
        let all = "The IDE's baseline environment is standing in, so commands run — but writes are confined to devcontainer setup until the project's own configuration builds."@;
        let lead = "The IDE's baseline environment is standing in"@;
        assert(lead.len() <= all.len() && all.subrange(0, lead.len() as int) =~= lead) by {
            reveal_strlit(
                "The IDE's baseline environment is standing in, so commands run — but writes are confined to devcontainer setup until the project's own configuration builds.",
            );
            reveal_strlit("The IDE's baseline environment is standing in");
        }
    }
    if !(row.state is Running) {
        let all = "Nothing is running here: no shell, and writes confined to devcontainer setup. Repairs only."@;
        let lead = "Nothing is running here"@;
        assert(lead.len() <= all.len() && all.subrange(0, lead.len() as int) =~= lead) by {
            reveal_strlit(
                "Nothing is running here: no shell, and writes confined to devcontainer setup. Repairs only.",
            );
            reveal_strlit("Nothing is running here");
        }
    }
}

} // verus!
