//! The persistent devcontainer banner.
//!
//! Revealed while the primary is in safe mode or on its way somewhere. It does
//! not speak for drift under the project's own config: the fleet row carries
//! that. While the baseline runs, it says what the project's config comes to.
//! A question from git or ssh takes the strip over, and the environment's own
//! face waits behind it.

use vstd::prelude::*;
use crate::environment::ConfigAuthority;
use crate::text::{
    chars_of, concat2, concat3, decimal, decimal_of, first_line, first_line_of, join_lines, joined,
    string_of, texts, trim, trimmed,
};

verus! {

/// How much of the environment build log the repair prompt carries.
pub const REPAIR_LOG_LINES: usize = 60;

/// How long, in seconds, a security key is thought to wait for its touch.
pub const TOUCH_WINDOW_SECS: u64 = 30;

/// What a button on the strip does.
#[derive(Debug, Clone, Copy, PartialEq, Eq, Structural)]
pub enum ButtonAction {
    Reload,
    ViewLog,
    CreateConfig,
    /// Send what is in the entry (or "yes") to the question being asked.
    Answer,
    /// Hand the primary's agent the repair.
    PromptAgent,
    /// Ask the primary's agent to write the definition a project has none of.
    AuthorAgent,
}

/// The faces the strip has while the baseline runs, by what the project's
/// config comes to.
#[derive(Debug, Clone, Copy, PartialEq, Eq, Structural)]
pub enum BaselineFace {
    /// A usable config nobody has built into yet.
    Ready,
    /// The config's image would not build or pull.
    BuildFailed,
    /// The config was refused or could not be read.
    ConfigRefused,
    /// No config at all.
    NoConfig,
}

/// What kind of answer a question wants.
#[derive(Debug, Clone, Copy, PartialEq, Eq, Structural)]
pub enum AskKind {
    Secret,
    Text,
    Confirm,
    /// Nothing to answer: something to do with one's hands.
    Notice,
}

/// What the environment reports.
#[derive(Debug, PartialEq, Eq)]
pub enum DevcontainerStateEvent {
    ConfigDetected,
    Building,
    Starting,
    Preparing,
    Running,
    Failed { message: String },
    NoConfig,
    Stopped,
}

/// What a report is, but for its words.
#[derive(Debug, Clone, Copy, PartialEq, Eq, Structural)]
pub enum StateKind {
    ConfigDetected,
    Building,
    Starting,
    Preparing,
    Running,
    Failed,
    NoConfig,
    Stopped,
}

impl DevcontainerStateEvent {
    /// What the report is.
    pub open spec fn kind_of(&self) -> StateKind {
        match self {
            DevcontainerStateEvent::ConfigDetected => StateKind::ConfigDetected,
            DevcontainerStateEvent::Building => StateKind::Building,
            DevcontainerStateEvent::Starting => StateKind::Starting,
            DevcontainerStateEvent::Preparing => StateKind::Preparing,
            DevcontainerStateEvent::Running => StateKind::Running,
            DevcontainerStateEvent::Failed { message: _ } => StateKind::Failed,
            DevcontainerStateEvent::NoConfig => StateKind::NoConfig,
            DevcontainerStateEvent::Stopped => StateKind::Stopped,
        }
    }

    /// What the report is.
    pub fn kind(&self) -> (out: StateKind)
        ensures
            out == self.kind_of(),
    {
        match self {
            DevcontainerStateEvent::ConfigDetected => StateKind::ConfigDetected,
            DevcontainerStateEvent::Building => StateKind::Building,
            DevcontainerStateEvent::Starting => StateKind::Starting,
            DevcontainerStateEvent::Preparing => StateKind::Preparing,
            DevcontainerStateEvent::Running => StateKind::Running,
            DevcontainerStateEvent::Failed { message: _ } => StateKind::Failed,
            DevcontainerStateEvent::NoConfig => StateKind::NoConfig,
            DevcontainerStateEvent::Stopped => StateKind::Stopped,
        }
    }

    /// What the log is told of a failure: the strip stays short.
    pub fn log_line(&self) -> (out: Option<String>)
        ensures
            logs(*self, out),
    {
        match self {
            DevcontainerStateEvent::Failed { message } => Some(
                concat2("environment failed: ", message.as_str()),
            ),
            _ => None,
        }
    }
}

/// The glyph that leads the strip.
#[derive(Debug, Clone, Copy, PartialEq, Eq, Structural)]
pub enum Icon {
    Run,
    Error,
    Warning,
    NewDocument,
    Stop,
    Password,
    Question,
    Fingerprint,
}

impl Icon {
    /// Its name in the icon theme.
    pub open spec fn named(self) -> Seq<char> {
        match self {
            Icon::Run => "system-run-symbolic"@,
            Icon::Error => "dialog-error-symbolic"@,
            Icon::Warning => "dialog-warning-symbolic"@,
            Icon::NewDocument => "document-new-symbolic"@,
            Icon::Stop => "media-playback-stop-symbolic"@,
            Icon::Password => "dialog-password-symbolic"@,
            Icon::Question => "dialog-question-symbolic"@,
            Icon::Fingerprint => "auth-fingerprint-symbolic"@,
        }
    }

    /// Its name in the icon theme.
    pub fn name(self) -> (out: &'static str)
        ensures
            out@ == self.named(),
    {
        match self {
            Icon::Run => "system-run-symbolic",
            Icon::Error => "dialog-error-symbolic",
            Icon::Warning => "dialog-warning-symbolic",
            Icon::NewDocument => "document-new-symbolic",
            Icon::Stop => "media-playback-stop-symbolic",
            Icon::Password => "dialog-password-symbolic",
            Icon::Question => "dialog-question-symbolic",
            Icon::Fingerprint => "auth-fingerprint-symbolic",
        }
    }
}

/// What a button says.
#[derive(Debug, Clone, Copy, PartialEq, Eq, Structural)]
pub enum ButtonLabel {
    Rebuild,
    ViewLog,
    Create,
    Start,
    Answer,
    Yes,
    No,
    Cancel,
    PromptAgent,
}

impl ButtonLabel {
    /// The words on it.
    pub open spec fn says(self) -> Seq<char> {
        match self {
            ButtonLabel::Rebuild => "Rebuild"@,
            ButtonLabel::ViewLog => "View Log"@,
            ButtonLabel::Create => "Create"@,
            ButtonLabel::Start => "Start"@,
            ButtonLabel::Answer => "Answer"@,
            ButtonLabel::Yes => "Yes"@,
            ButtonLabel::No => "No"@,
            ButtonLabel::Cancel => "Cancel"@,
            ButtonLabel::PromptAgent => "Prompt Agent"@,
        }
    }

    /// The words on it.
    pub fn words(self) -> (out: &'static str)
        ensures
            out@ == self.says(),
    {
        match self {
            ButtonLabel::Rebuild => "Rebuild",
            ButtonLabel::ViewLog => "View Log",
            ButtonLabel::Create => "Create",
            ButtonLabel::Start => "Start",
            ButtonLabel::Answer => "Answer",
            ButtonLabel::Yes => "Yes",
            ButtonLabel::No => "No",
            ButtonLabel::Cancel => "Cancel",
            ButtonLabel::PromptAgent => "Prompt Agent",
        }
    }
}

/// What the strip shows.
pub struct Strip {
    pub revealed: bool,
    pub icon: Icon,
    /// Amber: the face wants the person's hand rather than their reading.
    pub attention: bool,
    pub title: Seq<char>,
    pub button: Option<ButtonLabel>,
    pub action: ButtonAction,
    pub secondary: Option<ButtonLabel>,
    pub secondary_action: ButtonAction,
    /// The second button is the blue one.
    pub agent_leads: bool,
    /// The second button a question has.
    pub cancel: Option<ButtonLabel>,
    /// The hidden entry is on screen.
    pub secret: bool,
    /// The plain entry is on screen.
    pub text: bool,
    /// The pulsing bar is on: the environment is on its way.
    pub progress: bool,
}

/// The banner: what the strip shows, the question on it, and the environment
/// state behind the question.
#[derive(Debug, PartialEq, Eq)]
pub struct DevcontainerBanner {
    pub revealed: bool,
    pub icon: Icon,
    pub attention: bool,
    pub title: String,
    pub button: Option<ButtonLabel>,
    pub action: ButtonAction,
    pub secondary: Option<ButtonLabel>,
    pub secondary_action: ButtonAction,
    pub agent_leads: bool,
    pub cancel: Option<ButtonLabel>,
    pub secret: bool,
    pub text: bool,
    pub progress: bool,
    /// The question or notice on the strip, if one is: its id and kind.
    pub question: Option<(u64, AskKind)>,
    /// The last environment state reported, to come back to.
    pub last_state: Option<StateKind>,
    /// A fixture posed this banner: real state stops moving it.
    pub posed: bool,
}

/// The strip with a second button, or without.
pub open spec fn with_secondary(
    strip: Strip,
    label: Option<ButtonLabel>,
    action: ButtonAction,
) -> Strip {
    Strip {
        secondary: label,
        secondary_action: action,
        agent_leads: label is Some && action == ButtonAction::AuthorAgent,
        ..strip
    }
}

/// Safe mode's sentence for a face.
pub open spec fn baseline_title(face: BaselineFace) -> Seq<char> {
    match face {
        BaselineFace::Ready => "Safe mode — devcontainer.json is ready; rebuild to run the project's own environment"@,
        BaselineFace::BuildFailed => "Safe mode — failed environment build"@,
        BaselineFace::ConfigRefused => "Safe mode — invalid devcontainer setup"@,
        BaselineFace::NoConfig => "Safe mode — no devcontainer"@,
    }
}

/// The strip with one of safe mode's faces on it.
pub open spec fn baseline_shown(strip: Strip, face: BaselineFace) -> Strip {
    let (icon, action, button) = match face {
        BaselineFace::Ready => (Icon::Run, ButtonAction::Reload, ButtonLabel::Rebuild),
        BaselineFace::BuildFailed => (Icon::Error, ButtonAction::ViewLog, ButtonLabel::ViewLog),
        BaselineFace::ConfigRefused => (Icon::Warning, ButtonAction::ViewLog, ButtonLabel::ViewLog),
        BaselineFace::NoConfig => (
            Icon::NewDocument,
            ButtonAction::CreateConfig,
            ButtonLabel::Create,
        ),
    };
    let (second, second_action) = match face {
        BaselineFace::Ready => (None, ButtonAction::PromptAgent),
        BaselineFace::BuildFailed | BaselineFace::ConfigRefused => (
            Some(ButtonLabel::PromptAgent),
            ButtonAction::PromptAgent,
        ),
        BaselineFace::NoConfig => (Some(ButtonLabel::PromptAgent), ButtonAction::AuthorAgent),
    };
    with_secondary(
        Strip {
            revealed: true,
            progress: false,
            icon,
            attention: false,
            title: baseline_title(face),
            button: Some(button),
            action,
            ..strip
        },
        second,
        second_action,
    )
}

/// What the strip says of a stage on the way up.
pub open spec fn stage_title(state: StateKind) -> Seq<char> {
    match state {
        StateKind::Building => "Devcontainer building…"@,
        StateKind::Preparing => "Devcontainer preparing…"@,
        _ => "Devcontainer starting…"@,
    }
}

/// The strip with an environment state drawn on it. The stages on the way up
/// add the pulsing bar and the way to the log. A running baseline draws nothing
/// at once: its face waits for what the config resolves to.
pub open spec fn state_drawn(strip: Strip, state: StateKind, authority: ConfigAuthority) -> Strip {
    let plain = with_secondary(
        Strip { progress: false, ..strip },
        None,
        ButtonAction::PromptAgent,
    );
    match state {
        StateKind::ConfigDetected => Strip {
            revealed: true,
            icon: Icon::Run,
            attention: false,
            title: "Safe mode — devcontainer not running; only its setup is editable"@,
            button: Some(ButtonLabel::Start),
            action: ButtonAction::Reload,
            ..plain
        },
        StateKind::Building | StateKind::Starting | StateKind::Preparing => Strip {
            revealed: true,
            icon: Icon::Run,
            attention: false,
            title: stage_title(state),
            button: Some(ButtonLabel::ViewLog),
            action: ButtonAction::ViewLog,
            progress: true,
            ..plain
        },
        StateKind::Running => if authority == ConfigAuthority::Baseline {
            plain
        } else {
            Strip { revealed: false, ..plain }
        },
        StateKind::Failed => baseline_shown(strip, BaselineFace::BuildFailed),
        StateKind::NoConfig => baseline_shown(strip, BaselineFace::NoConfig),
        StateKind::Stopped => Strip {
            revealed: true,
            icon: Icon::Stop,
            attention: false,
            title: "Safe mode — devcontainer stopped"@,
            button: Some(ButtonLabel::Start),
            action: ButtonAction::Reload,
            ..plain
        },
    }
}

/// Whether drawing a state waits for what the config resolves to.
pub open spec fn resolution_wanted(state: StateKind, authority: ConfigAuthority) -> bool {
    state == StateKind::Running && authority == ConfigAuthority::Baseline
}

/// A text without the colons at its end.
pub open spec fn without_colons(s: Seq<char>) -> Seq<char>
    decreases s.len(),
{
    if s.len() > 0 && s.last() == ':' {
        without_colons(s.drop_last())
    } else {
        s
    }
}

/// A question in one line: the prompt's first, without its colon.
pub open spec fn question_line(prompt: Seq<char>) -> Seq<char> {
    trimmed(without_colons(first_line_of(prompt)))
}

/// A touch notice with its countdown.
pub open spec fn countdown_shown(base: Seq<char>, elapsed_secs: nat) -> Seq<char> {
    if elapsed_secs < TOUCH_WINDOW_SECS {
        base + " · about "@ + decimal_of((TOUCH_WINDOW_SECS - elapsed_secs) as nat)
            + " s to touch"@
    } else {
        base + " · still waiting"@
    }
}

/// The strip with a question on it.
pub open spec fn asked(strip: Strip, prompt: Seq<char>, kind: AskKind) -> Strip {
    let line = question_line(prompt);
    let clear = with_secondary(
        Strip {
            revealed: true,
            secret: kind == AskKind::Secret,
            text: kind == AskKind::Text,
            progress: false,
            ..strip
        },
        None,
        ButtonAction::PromptAgent,
    );
    match kind {
        AskKind::Secret | AskKind::Text => Strip {
            icon: if kind == AskKind::Secret {
                Icon::Password
            } else {
                Icon::Question
            },
            attention: false,
            title: line,
            action: ButtonAction::Answer,
            button: Some(ButtonLabel::Answer),
            cancel: Some(ButtonLabel::Cancel),
            ..clear
        },
        AskKind::Confirm => Strip {
            icon: Icon::Question,
            attention: false,
            title: line,
            action: ButtonAction::Answer,
            button: Some(ButtonLabel::Yes),
            cancel: Some(ButtonLabel::No),
            ..clear
        },
        AskKind::Notice => Strip {
            icon: Icon::Fingerprint,
            attention: true,
            title: countdown_shown(line, 0),
            button: None,
            cancel: None,
            ..clear
        },
    }
}

/// The strip once a question is over: the environment's face again.
pub open spec fn finished(
    strip: Strip,
    last: Option<StateKind>,
    authority: ConfigAuthority,
) -> Strip {
    let clear = Strip { secret: false, text: false, cancel: None, ..strip };
    match last {
        Some(state) => state_drawn(clear, state, authority),
        None => Strip { revealed: false, ..clear },
    }
}

/// What is left to do outside the banner.
#[derive(Debug, PartialEq, Eq)]
pub struct Followup {
    /// Give this answer to this question; no answer is a cancel.
    pub answer: Option<(u64, Option<String>)>,
    /// Read what the project's config resolves to, and come back with it.
    pub resolve: bool,
}

/// An answer, by its words.
pub open spec fn answer_view(answer: Option<(u64, Option<String>)>) -> Option<
    (u64, Option<Seq<char>>),
> {
    match answer {
        Some((id, Some(words))) => Some((id, Some(words@))),
        Some((id, None)) => Some((id, None)),
        None => None,
    }
}

/// What a pressed button comes to.
#[derive(Debug, PartialEq, Eq)]
pub enum Pressed {
    /// The question's answer, and what follows.
    Answered(Followup),
    /// Send the repair prompt to the primary's agent.
    SendRepair,
    /// Send the prompt that asks for a definition.
    SendAuthor,
    /// There is no chat to prompt yet.
    NoChat,
    ShowLog,
    CreateConfig,
    Reload,
}

/// What the user is told when there is no chat to prompt.
pub fn no_chat_toast() -> (out: &'static str)
    ensures
        out@ == "No chat to prompt yet"@,
{
    "No chat to prompt yet"
}

impl DevcontainerBanner {
    /// What the strip shows.
    pub open spec fn strip(&self) -> Strip {
        Strip {
            revealed: self.revealed,
            icon: self.icon,
            attention: self.attention,
            title: self.title@,
            button: self.button,
            action: self.action,
            secondary: self.secondary,
            secondary_action: self.secondary_action,
            agent_leads: self.agent_leads,
            cancel: self.cancel,
            secret: self.secret,
            text: self.text,
            progress: self.progress,
        }
    }

    /// A hidden strip with nothing on it.
    pub fn new() -> (out: Self)
        ensures
            out.strip() == (Strip {
                revealed: false,
                icon: Icon::Run,
                attention: false,
                title: ""@,
                button: None,
                action: ButtonAction::Reload,
                secondary: None,
                secondary_action: ButtonAction::PromptAgent,
                agent_leads: false,
                cancel: None,
                secret: false,
                text: false,
                progress: false,
            }),
            out.question is None,
            out.last_state is None,
            !out.posed,
    {
        DevcontainerBanner {
            revealed: false,
            icon: Icon::Run,
            attention: false,
            title: "".to_owned(),
            button: None,
            action: ButtonAction::Reload,
            secondary: None,
            secondary_action: ButtonAction::PromptAgent,
            agent_leads: false,
            cancel: None,
            secret: false,
            text: false,
            progress: false,
            question: None,
            last_state: None,
            posed: false,
        }
    }

    /// A second button, or none. One blue button per face: with no
    /// devcontainer at all it is the agent writing the definition rather than
    /// the blank template.
    fn set_secondary(&mut self, label: Option<ButtonLabel>, action: ButtonAction)
        ensures
            final(self).strip() == with_secondary(old(self).strip(), label, action),
            final(self).question == old(self).question,
            final(self).last_state == old(self).last_state,
            final(self).posed == old(self).posed,
    {
        self.secondary_action = action;
        self.secondary = label;
        self.agent_leads = label.is_some() && action == ButtonAction::AuthorAgent;
    }

    /// Safe mode's sentences, fixed and short: the detail is in the log and in
    /// the prompt, not on the strip.
    pub fn show_baseline_face(&mut self, face: BaselineFace)
        ensures
            final(self).strip() == baseline_shown(old(self).strip(), face),
            final(self).question == old(self).question,
            final(self).last_state == old(self).last_state,
            final(self).posed == old(self).posed,
    {
        self.attention = false;
        self.progress = false;
        match face {
            BaselineFace::Ready => {
                self.icon = Icon::Run;
                self.title = "Safe mode — devcontainer.json is ready; rebuild to run the project's own environment".to_owned();
                self.action = ButtonAction::Reload;
                self.button = Some(ButtonLabel::Rebuild);
                self.set_secondary(None, ButtonAction::PromptAgent);
            },
            BaselineFace::BuildFailed => {
                self.icon = Icon::Error;
                self.title = "Safe mode — failed environment build".to_owned();
                self.action = ButtonAction::ViewLog;
                self.button = Some(ButtonLabel::ViewLog);
                self.set_secondary(Some(ButtonLabel::PromptAgent), ButtonAction::PromptAgent);
            },
            BaselineFace::ConfigRefused => {
                self.icon = Icon::Warning;
                self.title = "Safe mode — invalid devcontainer setup".to_owned();
                self.action = ButtonAction::ViewLog;
                self.button = Some(ButtonLabel::ViewLog);
                self.set_secondary(Some(ButtonLabel::PromptAgent), ButtonAction::PromptAgent);
            },
            BaselineFace::NoConfig => {
                self.icon = Icon::NewDocument;
                self.title = "Safe mode — no devcontainer".to_owned();
                self.action = ButtonAction::CreateConfig;
                self.button = Some(ButtonLabel::Create);
                self.set_secondary(Some(ButtonLabel::PromptAgent), ButtonAction::AuthorAgent);
            },
        }
        self.revealed = true;
    }

    /// Draw an environment state. `true` asks for what the project's config
    /// resolves to, which a running baseline's face is worded by.
    pub fn draw_state(&mut self, state: StateKind, authority: ConfigAuthority) -> (resolve: bool)
        ensures
            final(self).strip() == state_drawn(old(self).strip(), state, authority),
            final(self).question == old(self).question,
            final(self).last_state == old(self).last_state,
            final(self).posed == old(self).posed,
            resolve == resolution_wanted(state, authority),
    {
        match state {
            StateKind::Failed => {
                self.show_baseline_face(BaselineFace::BuildFailed);
                return false;
            },
            _ => {},
        }
        self.set_secondary(None, ButtonAction::PromptAgent);
        self.progress = false;
        match state {
            StateKind::ConfigDetected => {
                self.icon = Icon::Run;
                self.attention = false;
                self.title = "Safe mode — devcontainer not running; only its setup is editable".to_owned();
                self.action = ButtonAction::Reload;
                self.button = Some(ButtonLabel::Start);
                self.revealed = true;
                false
            },
            StateKind::Building | StateKind::Starting | StateKind::Preparing => {
                self.icon = Icon::Run;
                self.attention = false;
                self.title = match state {
                    StateKind::Building => "Devcontainer building…".to_owned(),
                    StateKind::Preparing => "Devcontainer preparing…".to_owned(),
                    _ => "Devcontainer starting…".to_owned(),
                };
                self.action = ButtonAction::ViewLog;
                self.button = Some(ButtonLabel::ViewLog);
                self.progress = true;
                self.revealed = true;
                false
            },
            StateKind::Running => self.sync_running(authority),
            StateKind::Failed => false,
            StateKind::NoConfig => {
                self.show_baseline_face(BaselineFace::NoConfig);
                false
            },
            StateKind::Stopped => {
                self.icon = Icon::Stop;
                self.attention = false;
                self.title = "Safe mode — devcontainer stopped".to_owned();
                self.action = ButtonAction::Reload;
                self.button = Some(ButtonLabel::Start);
                self.revealed = true;
                false
            },
        }
    }

    /// The banner while a container runs. Under the project's own config,
    /// nothing: running is running. Under the baseline, ask what the project's
    /// config resolves to right now.
    pub fn sync_running(&mut self, authority: ConfigAuthority) -> (resolve: bool)
        ensures
            hears_running(*old(self), *final(self), authority, resolve),
    {
        if authority != ConfigAuthority::Baseline {
            self.revealed = false;
            return false;
        }
        true
    }

    /// The environment reported a state: remember it, and draw it unless a
    /// question or a pose has the strip.
    pub fn on_state(
        &mut self,
        state: &DevcontainerStateEvent,
        authority: ConfigAuthority,
    ) -> (resolve: bool)
        ensures
            hears(*old(self), *final(self), state.kind_of(), authority, resolve),
    {
        let kind = state.kind();
        self.last_state = Some(kind);
        if self.posed || self.question.is_some() {
            return false;
        }
        self.draw_state(kind, authority)
    }

    /// The config on disk and what runs have come apart, or together again.
    /// Under the project's own config that is the fleet row's to say; under
    /// the baseline it is the news this banner exists for.
    pub fn on_pending_changes(
        &mut self,
        running: bool,
        authority: ConfigAuthority,
    ) -> (resolve: bool)
        ensures
            hears_drift(*old(self), *final(self), running, authority, resolve),
    {
        if self.posed || self.question.is_some() {
            return false;
        }
        if running {
            self.sync_running(authority)
        } else {
            // Safe mode keeps its banner: every state but running wants one.
            false
        }
    }

    /// What the config resolved to has been read: show the face it comes to,
    /// unless the moment has passed.
    pub fn on_resolved(
        &mut self,
        running: bool,
        resolved: ConfigAuthority,
        reason: Option<&str>,
        build_failed: bool,
    )
        ensures
            hears_resolved(*old(self), *final(self), running, resolved, reason is Some, build_failed),
    {
        if self.posed || self.question.is_some() || !running {
            return;
        }
        let face = baseline_face(resolved, reason, build_failed);
        self.show_baseline_face(face);
    }

    /// Git or ssh has a question, or a notice, for the person: the strip asks
    /// it, and the environment's own face waits behind it. One at a time: a
    /// second asker while the first stands gets no answer, rather than
    /// replacing a question mid-type; `false` is that refusal. The entries
    /// start empty.
    pub fn ask(&mut self, id: u64, prompt: &str, kind: AskKind) -> (taken: bool)
        ensures
            asks(*old(self), *final(self), id, prompt@, kind, taken),
    {
        if self.question.is_some() {
            return false;
        }
        self.question = Some((id, kind));
        let line = one_line(prompt);
        self.progress = false;
        self.secret = kind == AskKind::Secret;
        self.text = kind == AskKind::Text;
        match kind {
            AskKind::Secret | AskKind::Text => {
                self.icon = if kind == AskKind::Secret {
                    Icon::Password
                } else {
                    Icon::Question
                };
                self.attention = false;
                self.title = line;
                self.action = ButtonAction::Answer;
                self.button = Some(ButtonLabel::Answer);
                self.cancel = Some(ButtonLabel::Cancel);
            },
            AskKind::Confirm => {
                self.icon = Icon::Question;
                self.attention = false;
                self.title = line;
                self.action = ButtonAction::Answer;
                self.button = Some(ButtonLabel::Yes);
                self.cancel = Some(ButtonLabel::No);
            },
            AskKind::Notice => {
                self.icon = Icon::Fingerprint;
                self.attention = true;
                self.button = None;
                self.cancel = None;
                self.title = touch_countdown(line.as_str(), 0);
            },
        }
        self.set_secondary(None, ButtonAction::PromptAgent);
        self.revealed = true;
        true
    }

    /// A second has passed on a touch notice: count down, or say that the
    /// notice is over (`false`).
    pub fn tick_notice(&mut self, id: u64, prompt: &str, elapsed_secs: u64) -> (live: bool)
        ensures
            ticks(*old(self), *final(self), id, prompt@, elapsed_secs, live),
    {
        let live = match self.question {
            Some((current, kind)) => current == id && kind == AskKind::Notice,
            None => false,
        };
        if !live {
            return false;
        }
        let line = one_line(prompt);
        self.title = touch_countdown(line.as_str(), elapsed_secs);
        true
    }

    /// The asker is done: answered, timed out, or (a notice) satisfied. The
    /// strip goes back to the environment. A question that is not on the strip
    /// changes nothing.
    pub fn ask_done(&mut self, id: u64, authority: ConfigAuthority) -> (resolve: bool)
        ensures
            ends(*old(self), *final(self), id, authority, resolve),
    {
        let ours = match self.question {
            Some((current, _)) => current == id,
            None => false,
        };
        if !ours {
            return false;
        }
        self.question = None;
        self.finish_question(authority)
    }

    /// Answer the question with what was entered, or "yes". A notice is taken
    /// off without an answer, and its words stay.
    pub fn answer_question(
        &mut self,
        entered: &str,
        authority: ConfigAuthority,
    ) -> (out: Followup)
        ensures
            answers(*old(self), *final(self), entered@, authority, out),
    {
        match self.question {
            None => Followup { answer: None, resolve: false },
            Some((id, kind)) => {
                self.question = None;
                let words = match kind {
                    AskKind::Secret | AskKind::Text => entered.to_owned(),
                    AskKind::Confirm => "yes".to_owned(),
                    AskKind::Notice => {
                        return Followup { answer: None, resolve: false };
                    },
                };
                let resolve = self.finish_question(authority);
                Followup { answer: Some((id, Some(words))), resolve }
            },
        }
    }

    /// Cancel the question. "No" is an answer to a yes/no question; anything
    /// else cancelled is no answer at all.
    pub fn cancel_question(&mut self, authority: ConfigAuthority) -> (out: Followup)
        ensures
            cancels(*old(self), *final(self), authority, out),
    {
        match self.question {
            None => Followup { answer: None, resolve: false },
            Some((id, kind)) => {
                self.question = None;
                let words = if kind == AskKind::Confirm {
                    Some("no".to_owned())
                } else {
                    None
                };
                let resolve = self.finish_question(authority);
                Followup { answer: Some((id, words)), resolve }
            },
        }
    }

    /// Clear the question's widgets and redraw the environment's face.
    fn finish_question(&mut self, authority: ConfigAuthority) -> (resolve: bool)
        ensures
            final(self).strip() == finished(old(self).strip(), old(self).last_state, authority),
            final(self).question == old(self).question,
            final(self).last_state == old(self).last_state,
            final(self).posed == old(self).posed,
            resolve == (old(self).last_state matches Some(state) && resolution_wanted(
                state,
                authority,
            )),
    {
        self.secret = false;
        self.text = false;
        self.cancel = None;
        match self.last_state {
            Some(state) => self.draw_state(state, authority),
            None => {
                self.revealed = false;
                false
            },
        }
    }

    /// One button's work, whichever button it is on. `entered` is what the
    /// question's entry holds; `chat` is whether there is a chat to prompt.
    pub fn act(
        &mut self,
        action: ButtonAction,
        entered: &str,
        chat: bool,
        authority: ConfigAuthority,
    ) -> (out: Pressed)
        ensures
            acts(*old(self), *final(self), action, entered@, chat, authority, out),
    {
        match action {
            ButtonAction::Answer => Pressed::Answered(self.answer_question(entered, authority)),
            ButtonAction::PromptAgent => if chat {
                Pressed::SendRepair
            } else {
                Pressed::NoChat
            },
            ButtonAction::AuthorAgent => if chat {
                Pressed::SendAuthor
            } else {
                Pressed::NoChat
            },
            ButtonAction::ViewLog => Pressed::ShowLog,
            ButtonAction::CreateConfig => Pressed::CreateConfig,
            ButtonAction::Reload => {
                // Stay revealed: the reload's own states retitle the banner.
                self.title = "Devcontainer starting…".to_owned();
                self.button = None;
                Pressed::Reload
            },
        }
    }

    /// Pose a face, a question or a notice, and hold it against the states
    /// that follow.
    pub fn pose_for_probe(&mut self, kind: &str)
        ensures
            final(self).posed,
            final(self).last_state == old(self).last_state,
            old(self).question is Some ==> final(self).question == old(self).question,
            old(self).question is Some && (kind@ == "ask"@ || kind@ == "touch"@) ==> final(self).strip() == old(self).strip(),
            old(self).question is None && kind@ == "ask"@ ==> final(self).question == Some(
                (u64::MAX, AskKind::Secret),
            ) && final(self).strip() == asked(
                old(self).strip(),
                "Enter PIN for authenticator:"@,
                AskKind::Secret,
            ),
            old(self).question is None && kind@ == "touch"@ && kind@ != "ask"@ ==> final(self).question == Some((u64::MAX, AskKind::Notice)) && final(self).strip() == asked(
                old(self).strip(),
                "Touch your security key — Pull is waiting on it"@,
                AskKind::Notice,
            ),
            kind@ != "ask"@ && kind@ != "touch"@ ==> final(self).question == old(self).question
                && final(self).strip() == baseline_shown(
                old(self).strip(),
                if kind@ == "ready"@ {
                    BaselineFace::Ready
                } else if kind@ == "failed"@ {
                    BaselineFace::BuildFailed
                } else if kind@ == "passed"@ {
                    BaselineFace::ConfigRefused
                } else {
                    BaselineFace::NoConfig
                },
            ),
    {
        self.posed = true;
        if crate::text::same(kind, "ask") {
            self.ask(u64::MAX, "Enter PIN for authenticator:", AskKind::Secret);
        } else if crate::text::same(kind, "touch") {
            self.ask(
                u64::MAX,
                "Touch your security key — Pull is waiting on it",
                AskKind::Notice,
            );
        } else if crate::text::same(kind, "ready") {
            self.show_baseline_face(BaselineFace::Ready);
        } else if crate::text::same(kind, "failed") {
            self.show_baseline_face(BaselineFace::BuildFailed);
        } else if crate::text::same(kind, "passed") {
            self.show_baseline_face(BaselineFace::ConfigRefused);
        } else {
            self.show_baseline_face(BaselineFace::NoConfig);
        }
    }
}

/// The environment reported a state.
pub open spec fn hears(
    before: DevcontainerBanner,
    after: DevcontainerBanner,
    state: StateKind,
    authority: ConfigAuthority,
    resolve: bool,
) -> bool {
    &&& after.last_state == Some(state)
    &&& after.question == before.question
    &&& after.posed == before.posed
    &&& if before.posed || before.question is Some {
        after.strip() == before.strip() && !resolve
    } else {
        after.strip() == state_drawn(before.strip(), state, authority)
            && resolve == resolution_wanted(state, authority)
    }
}

/// What the config resolved to was read.
pub open spec fn hears_resolved(
    before: DevcontainerBanner,
    after: DevcontainerBanner,
    running: bool,
    resolved: ConfigAuthority,
    refused: bool,
    build_failed: bool,
) -> bool {
    &&& if before.posed || before.question is Some || !running {
        after == before
    } else {
        &&& after.strip() == baseline_shown(
            before.strip(),
            face_resolved(resolved, refused, build_failed),
        )
        &&& after.question == before.question
        &&& after.last_state == before.last_state
        &&& after.posed == before.posed
    }
}

/// A question came.
pub open spec fn asks(
    before: DevcontainerBanner,
    after: DevcontainerBanner,
    id: u64,
    prompt: Seq<char>,
    kind: AskKind,
    taken: bool,
) -> bool {
    &&& taken == (before.question is None)
    &&& !taken ==> after == before
    &&& taken ==> {
        &&& after.strip() == asked(before.strip(), prompt, kind)
        &&& after.question == Some((id, kind))
        &&& after.last_state == before.last_state
        &&& after.posed == before.posed
    }
}

/// The question was answered.
pub open spec fn answers(
    before: DevcontainerBanner,
    after: DevcontainerBanner,
    entered: Seq<char>,
    authority: ConfigAuthority,
    out: Followup,
) -> bool {
    &&& after.question is None
    &&& after.last_state == before.last_state
    &&& after.posed == before.posed
    &&& match before.question {
        Some((id, kind)) if kind != AskKind::Notice => {
            &&& answer_view(out.answer) == Some(
                (
                    id,
                    Some(
                        if kind == AskKind::Confirm {
                            "yes"@
                        } else {
                            entered
                        },
                    ),
                ),
            )
            &&& after.strip() == finished(
                before.strip(),
                before.last_state,
                authority,
            )
            &&& out.resolve == (before.last_state matches Some(state)
                && resolution_wanted(state, authority))
        },
        _ => out.answer is None && !out.resolve && after.strip()
            == before.strip(),
    }
}

/// The question was cancelled.
pub open spec fn cancels(
    before: DevcontainerBanner,
    after: DevcontainerBanner,
    authority: ConfigAuthority,
    out: Followup,
) -> bool {
    &&& after.question is None
    &&& after.last_state == before.last_state
    &&& after.posed == before.posed
    &&& match before.question {
        Some((id, kind)) => {
            &&& answer_view(out.answer) == Some(
                (
                    id,
                    if kind == AskKind::Confirm {
                        Some("no"@)
                    } else {
                        None
                    },
                ),
            )
            &&& after.strip() == finished(
                before.strip(),
                before.last_state,
                authority,
            )
            &&& out.resolve == (before.last_state matches Some(state)
                && resolution_wanted(state, authority))
        },
        None => out.answer is None && !out.resolve && after.strip()
            == before.strip(),
    }
}

/// An asker is done.
pub open spec fn ends(
    before: DevcontainerBanner,
    after: DevcontainerBanner,
    id: u64,
    authority: ConfigAuthority,
    resolve: bool,
) -> bool {
    &&& match before.question {
        Some((current, _)) => current != id ==> after == before && !resolve,
        None => after == before && !resolve,
    }
    &&& (before.question matches Some((current, _)) && current == id) ==> {
        &&& after.question is None
        &&& after.strip() == finished(
            before.strip(),
            before.last_state,
            authority,
        )
        &&& after.last_state == before.last_state
        &&& after.posed == before.posed
        &&& resolve == (before.last_state matches Some(state) && resolution_wanted(
            state,
            authority,
        ))
    }
}

/// A button was pressed.
pub open spec fn acts(
    before: DevcontainerBanner,
    after: DevcontainerBanner,
    action: ButtonAction,
    entered: Seq<char>,
    chat: bool,
    authority: ConfigAuthority,
    out: Pressed,
) -> bool {
    &&& match action {
        ButtonAction::Answer => out is Answered && after.question is None,
        ButtonAction::PromptAgent => out == if chat {
            Pressed::SendRepair
        } else {
            Pressed::NoChat
        },
        ButtonAction::AuthorAgent => out == if chat {
            Pressed::SendAuthor
        } else {
            Pressed::NoChat
        },
        ButtonAction::ViewLog => out == Pressed::ShowLog,
        ButtonAction::CreateConfig => out == Pressed::CreateConfig,
        ButtonAction::Reload => out == Pressed::Reload && after.strip() == (Strip {
            title: "Devcontainer starting…"@,
            button: None,
            ..before.strip()
        }),
    }
    &&& action != ButtonAction::Answer && action != ButtonAction::Reload ==> after
        == before
    &&& action != ButtonAction::Answer ==> after.question == before.question
    &&& action == ButtonAction::Answer ==> match (before.question, out) {
        (Some((id, kind)), Pressed::Answered(next)) if kind != AskKind::Notice => {
            &&& next.answer matches Some((to, Some(words))) && to == id && words@ == if kind
                == AskKind::Confirm {
                "yes"@
            } else {
                entered
            }
            &&& after.strip() == finished(
                before.strip(),
                before.last_state,
                authority,
            )
            &&& next.resolve == (before.last_state matches Some(state)
                && resolution_wanted(state, authority))
        },
        (_, Pressed::Answered(next)) => next.answer is None && !next.resolve
            && after.strip() == before.strip(),
        _ => false,
    }
    &&& after.last_state == before.last_state
    &&& after.posed == before.posed
}

/// The config on disk and what runs have come apart, or together.
pub open spec fn hears_drift(
    before: DevcontainerBanner,
    after: DevcontainerBanner,
    running: bool,
    authority: ConfigAuthority,
    resolve: bool,
) -> bool {
    &&& resolve == (!before.posed && before.question is None && running && authority
        == ConfigAuthority::Baseline)
    &&& after == (DevcontainerBanner {
        revealed: before.revealed && !(!before.posed && before.question is None
            && running && authority != ConfigAuthority::Baseline),
        ..before
    })
}

/// A container runs.
pub open spec fn hears_running(
    before: DevcontainerBanner,
    after: DevcontainerBanner,
    authority: ConfigAuthority,
    resolve: bool,
) -> bool {
    &&& resolve == (authority == ConfigAuthority::Baseline)
    &&& resolve ==> after == before
    &&& !resolve ==> after == (DevcontainerBanner { revealed: false, ..before })
}

/// What the log is told of a state.
pub open spec fn logs(state: DevcontainerStateEvent, out: Option<String>) -> bool {
    &&& match (state, out) {
        (DevcontainerStateEvent::Failed { message }, Some(line)) => line@
            == "environment failed: "@ + message@,
        (DevcontainerStateEvent::Failed { message: _ }, None) => false,
        (_, line) => line is None,
    }
}

/// A second has passed on a touch notice.
pub open spec fn ticks(
    before: DevcontainerBanner,
    after: DevcontainerBanner,
    id: u64,
    prompt: Seq<char>,
    elapsed_secs: u64,
    live: bool,
) -> bool {
    &&& live == (before.question == Some((id, AskKind::Notice)))
    &&& !live ==> after == before
    &&& live ==> after == (DevcontainerBanner {
        title: after.title,
        ..before
    }) && after.title@ == countdown_shown(
        question_line(prompt),
        elapsed_secs as nat,
    )
}

/// Which face a resolution comes to.
pub open spec fn face_resolved(
    resolved: ConfigAuthority,
    refused: bool,
    build_failed: bool,
) -> BaselineFace {
    match resolved {
        ConfigAuthority::Project => BaselineFace::Ready,
        ConfigAuthority::Baseline => if !refused {
            BaselineFace::NoConfig
        } else if build_failed {
            BaselineFace::BuildFailed
        } else {
            BaselineFace::ConfigRefused
        },
    }
}

/// Which face the resolution comes to.
pub fn baseline_face(
    resolved: ConfigAuthority,
    reason: Option<&str>,
    build_failed: bool,
) -> (out: BaselineFace)
    ensures
        out == face_resolved(resolved, reason is Some, build_failed),
{
    match (resolved, reason) {
        (ConfigAuthority::Project, _) => BaselineFace::Ready,
        (ConfigAuthority::Baseline, Some(_)) => if build_failed {
            BaselineFace::BuildFailed
        } else {
            BaselineFace::ConfigRefused
        },
        (ConfigAuthority::Baseline, None) => BaselineFace::NoConfig,
    }
}

/// A question in one line: the prompt's first, without its colon.
fn one_line(prompt: &str) -> (out: String)
    ensures
        out@ == question_line(prompt@),
{
    let line = first_line(prompt);
    let chars = chars_of(line);
    let mut end: usize = chars.len();
    assert(line@.take(end as int) =~= line@);
    while end > 0 && chars[end - 1] == ':'
        invariant
            chars@ == line@,
            end <= chars@.len(),
            without_colons(line@) == without_colons(line@.take(end as int)),
        decreases end,
    {
        assert(line@.take(end as int).drop_last() =~= line@.take(end - 1));
        end -= 1;
    }
    let kept = string_of(&chars, 0, end);
    assert(kept@ =~= line@.take(end as int));
    let out = trim(kept.as_str());
    out.to_owned()
}

/// The touch notice with its countdown: how long is thought to be left while
/// the window is open, and "still waiting" once it has passed. The key may yet
/// take the touch.
pub fn touch_countdown(base: &str, elapsed_secs: u64) -> (out: String)
    ensures
        out@ == countdown_shown(base@, elapsed_secs as nat),
{
    if elapsed_secs < TOUCH_WINDOW_SECS {
        let left = decimal(TOUCH_WINDOW_SECS - elapsed_secs);
        let mut text = concat3(base, " · about ", left.as_str());
        text.append(" s to touch");
        text
    } else {
        concat2(base, " · still waiting")
    }
}

/// A question only borrows the strip. Once it is over, its entries and its
/// second button are gone, the strip is revealed exactly where the last state
/// reported would have it, and where that state has a face the strip is the
/// one that state draws with no question before it. (A running baseline's face
/// comes later, with what its config resolves to.)
pub proof fn a_question_gives_the_strip_back(
    before: Strip,
    prompt: Seq<char>,
    kind: AskKind,
    state: StateKind,
    authority: ConfigAuthority,
)
    requires
        !before.secret && !before.text && before.cancel is None,
    ensures
        ({
            let after = finished(asked(before, prompt, kind), Some(state), authority);
            let plain = state_drawn(before, state, authority);
            &&& !after.secret && !after.text && after.cancel is None
            &&& !resolution_wanted(state, authority) ==> after.revealed == plain.revealed
            &&& plain.revealed && !resolution_wanted(state, authority) ==> after == plain
        }),
{
}

/// The banner stands in every state but running: an environment that is not up
/// says so, and one that runs the project's own config says nothing. The bar
/// pulses exactly in the stages on the way up, with the log one press away.
pub proof fn only_a_running_project_is_silent(
    strip: Strip,
    state: StateKind,
    authority: ConfigAuthority,
)
    ensures
        ({
            let drawn = state_drawn(strip, state, authority);
            &&& state != StateKind::Running ==> drawn.revealed
            &&& state == StateKind::Running && authority != ConfigAuthority::Baseline
                ==> !drawn.revealed
            &&& drawn.progress <==> state == StateKind::Building || state == StateKind::Starting
                || state == StateKind::Preparing
            &&& drawn.progress ==> drawn.action == ButtonAction::ViewLog && drawn.button == Some(
                ButtonLabel::ViewLog,
            )
        }),
{
}

/// On every face that safe mode shows, exactly one button is the blue one, and
/// it is on screen.
pub proof fn one_button_leads(strip: Strip, face: BaselineFace)
    ensures
        ({
            let shown = baseline_shown(strip, face);
            &&& shown.revealed
            &&& shown.button is Some
            &&& shown.agent_leads ==> shown.secondary is Some
            &&& shown.agent_leads <==> face == BaselineFace::NoConfig
        }),
{
}

/// The prompt that asks the agent to write a devcontainer definition for a
/// project that has none: set-up, not repair.
pub fn author_prompt() -> (out: String)
    ensures
        out@ == "Write this project's devcontainer definition.\n\nWHAT IS TRUE\nThe project has no .devcontainer/ yet. The IDE is running its own baseline environment (safe mode) so that one can be written: .devcontainer/ is writable, and the rest of the checkout is read-only until the project's own environment builds.\n\nHOW TO WORK\n1. Learn what the project needs with your file tools: its README, build files, lockfiles, and CI configuration name the languages, tools, and versions.\n2. Write .devcontainer/Containerfile that installs them, and .devcontainer/devcontainer.json that builds it with \"build\": {\"dockerfile\": \"Containerfile\"}. Keep it usable by VS Code and Codespaces. This IDE does not apply devcontainer features: install tools in the Containerfile instead. If the checkout has a Taskfile.yml (taskfile.dev), install Task in the Containerfile too (Fedora's package is go-task; either binary name works): the IDE lists and runs the project's tasks through it.\nIf the project runs podman or docker itself (its build, tests, or tasks call it): install podman and fuse-overlayfs; set \"privileged\": true in devcontainer.json (the IDE grants exactly what nested podman needs for it, and VS Code reads it too); after the package install, run `setcap cap_setuid+ep /usr/bin/newuidmap && setcap cap_setgid+ep /usr/bin/newgidmap`, because the image build drops their file capabilities; and give the image's user subordinate IDs inside the container's range, for a user with uid 1000: `echo USER:1:999 > /etc/subuid; echo USER:1001:64535 >> /etc/subuid`, and the same for /etc/subgid. useradd's default range does not exist in the container.\n3. Do not run podman, docker, or the build yourself. When the files are ready, call the devcontainer_reload tool once.\n4. Then call the environment tool with include [\"log\"]. If it reports a failure, read the log, fix the files, and reload again. After a start, the IDE checks the container for Task and for nested podman; a failure names what is missing and the change that fixes it. Stop after three attempts and report what you tried.\n5. Finish with one short paragraph: what the environment provides, and why."@,
{
    "Write this project's devcontainer definition.\n\nWHAT IS TRUE\nThe project has no .devcontainer/ yet. The IDE is running its own baseline environment (safe mode) so that one can be written: .devcontainer/ is writable, and the rest of the checkout is read-only until the project's own environment builds.\n\nHOW TO WORK\n1. Learn what the project needs with your file tools: its README, build files, lockfiles, and CI configuration name the languages, tools, and versions.\n2. Write .devcontainer/Containerfile that installs them, and .devcontainer/devcontainer.json that builds it with \"build\": {\"dockerfile\": \"Containerfile\"}. Keep it usable by VS Code and Codespaces. This IDE does not apply devcontainer features: install tools in the Containerfile instead. If the checkout has a Taskfile.yml (taskfile.dev), install Task in the Containerfile too (Fedora's package is go-task; either binary name works): the IDE lists and runs the project's tasks through it.\nIf the project runs podman or docker itself (its build, tests, or tasks call it): install podman and fuse-overlayfs; set \"privileged\": true in devcontainer.json (the IDE grants exactly what nested podman needs for it, and VS Code reads it too); after the package install, run `setcap cap_setuid+ep /usr/bin/newuidmap && setcap cap_setgid+ep /usr/bin/newgidmap`, because the image build drops their file capabilities; and give the image's user subordinate IDs inside the container's range, for a user with uid 1000: `echo USER:1:999 > /etc/subuid; echo USER:1001:64535 >> /etc/subuid`, and the same for /etc/subgid. useradd's default range does not exist in the container.\n3. Do not run podman, docker, or the build yourself. When the files are ready, call the devcontainer_reload tool once.\n4. Then call the environment tool with include [\"log\"]. If it reports a failure, read the log, fix the files, and reload again. After a start, the IDE checks the container for Task and for nested podman; a failure names what is missing and the change that fixes it. Stop after three attempts and report what you tried.\n5. Finish with one short paragraph: what the environment provides, and why.".to_owned()
}

/// What an environment in trouble says of itself.
#[derive(Debug, PartialEq, Eq)]
pub struct Trouble {
    /// The failed build's own lines, when a build failed.
    pub failed_build_log: Option<Vec<String>>,
    /// The live log's last lines.
    pub tail: Vec<String>,
    /// Why a lifecycle command failed.
    pub hook_failure: Option<String>,
    /// The project's own container is up.
    pub in_container: bool,
    /// Why the config was passed over.
    pub passed_over: Option<String>,
    /// What the environment failed with.
    pub failed: Option<String>,
}

impl Trouble {
    /// The lines that are evidence: a failed build's own, else the live log's.
    pub open spec fn lines(&self) -> Seq<Seq<char>> {
        match self.failed_build_log {
            Some(lines) => texts(lines@),
            None => texts(self.tail@),
        }
    }

    /// How the prompt speaks of the log.
    pub open spec fn evidence(&self) -> Seq<char> {
        if self.lines().len() == 0 {
            "The build log is empty; call the environment tool with include [\"log\"] for the latest lines before changing anything."@
        } else if self.failed_build_log is Some {
            "The failed build's log, as it stood when it failed, is attached as environment-build.log; podman's error is at its end. Read it before changing anything."@
        } else {
            "The last lines of the environment build log are attached as environment-build.log; read them before changing anything."@
        }
    }

    /// Why the environment did not build.
    pub open spec fn build_reason(&self) -> Seq<char> {
        match (self.passed_over, self.failed) {
            (Some(reason), _) => reason@,
            (None, Some(message)) => message@,
            (None, None) => "the environment did not build"@,
        }
    }

    /// What Prompt Agent sends. A lifecycle command that failed in the
    /// project's own container is one repair; a build that did not happen is
    /// another.
    pub open spec fn prompt_shown(&self) -> Seq<char> {
        match self.hook_failure {
            Some(reason) if self.in_container => lifecycle_repair(reason@, self.evidence()),
            _ => build_repair(self.build_reason(), self.evidence()),
        }
    }
}

/// The prompt for a lifecycle command that failed.
pub open spec fn lifecycle_repair(reason: Seq<char>, evidence: Seq<char>) -> Seq<char> {
    "Fix this project's devcontainer setup so its lifecycle commands succeed.\n\nWHAT HAPPENED\nThe IDE built and started the environment from .devcontainer/devcontainer.json. Then one of its lifecycle commands failed, and the commands after it were skipped. The container is running and the whole checkout is writable. The failure, as the IDE read it:\n  "@ + reason + "\n"@ + evidence + "\n\nHOW TO WORK\n1. Read .devcontainer/devcontainer.json with your file tools, and any file it names (a Containerfile or Dockerfile). Do not guess at their contents.\n2. Find the smallest change that makes the command succeed. Common causes, in order of likelihood:\n- the command needs a tool the image does not have (composer, npm, a language extension): install it in the Containerfile;\n- a \"features\" block was expected to provide it: this IDE does not apply devcontainer features, so install those tools in the Containerfile instead;\n- the command runs in the wrong directory, or before a file it needs exists: give it the path, or move it to a later lifecycle step;\n- the command needs the network or credentials the container does not have.\nYou may run the failed command yourself with the ide_exec tool to see its full output; it runs inside the container.\n3. Edit the files under .devcontainer/ that the fix needs.\n4. Do not run podman, docker, or the build yourself. When the files are ready, call the devcontainer_reload tool once. The IDE rebuilds the environment and asks the user before running any lifecycle command.\n5. Then call the environment tool. If it reports lifecycle_failed, call it again with include [\"log\"], read the new failure, and go back to step 2. Stop after three attempts and report what you tried.\n6. Finish with one short paragraph: what was wrong, what you changed, and whether the commands ran."@
}

/// The prompt for a build that did not happen.
pub open spec fn build_repair(reason: Seq<char>, evidence: Seq<char>) -> Seq<char> {
    "Fix this project's devcontainer setup so the environment builds.\n\nWHAT HAPPENED\nThe IDE tried to build the environment from .devcontainer/devcontainer.json and could not. It is running its own baseline environment instead (safe mode). The failure, as the IDE read it:\n  "@ + reason + "\n"@ + evidence + "\n\nHOW TO WORK\n1. Read .devcontainer/devcontainer.json with your file tools, and any file it names (a Containerfile or Dockerfile). Do not guess at their contents.\n2. Find the smallest change that makes the build succeed. Common causes, in order of likelihood:\n- an image tag that does not exist on the registry: use a plain, published tag (for example a version like \"8.3\" rather than a variant you are unsure of), or build from a Containerfile instead;\n- a \"features\" block: this IDE does not apply devcontainer features; install those tools in a Containerfile and reference it with \"build\": {\"dockerfile\": \"Containerfile\"} in place of \"image\";\n- a mount whose source is outside the workspace, or an object-form mount: bind sources must be under ${localWorkspaceFolder}, written in the string form;\n- a postCreateCommand that needs a tool the image does not have.\n3. Edit files under .devcontainer/ only. That directory is writable; the rest of the checkout is read-only until the environment builds.\n4. Do not run podman, docker, or the build yourself. When the files are ready, call the devcontainer_reload tool once. The IDE builds the environment and asks the user before running any lifecycle command.\n5. Then call the environment tool with include [\"log\"]. If it reports a failure, read the new log lines and go back to step 2. Stop after three attempts and report what you tried.\n6. Finish with one short paragraph: what was wrong, what you changed, and whether the environment built."@
}

fn lifecycle_prompt(reason: &str, evidence: &str) -> (out: String)
    ensures
        out@ == lifecycle_repair(reason@, evidence@),
{
    let mut text = "Fix this project's devcontainer setup so its lifecycle commands succeed.\n\nWHAT HAPPENED\nThe IDE built and started the environment from .devcontainer/devcontainer.json. Then one of its lifecycle commands failed, and the commands after it were skipped. The container is running and the whole checkout is writable. The failure, as the IDE read it:\n  ".to_owned();
    text.append(reason);
    text.append("\n");
    text.append(evidence);
    text.append("\n\nHOW TO WORK\n1. Read .devcontainer/devcontainer.json with your file tools, and any file it names (a Containerfile or Dockerfile). Do not guess at their contents.\n2. Find the smallest change that makes the command succeed. Common causes, in order of likelihood:\n- the command needs a tool the image does not have (composer, npm, a language extension): install it in the Containerfile;\n- a \"features\" block was expected to provide it: this IDE does not apply devcontainer features, so install those tools in the Containerfile instead;\n- the command runs in the wrong directory, or before a file it needs exists: give it the path, or move it to a later lifecycle step;\n- the command needs the network or credentials the container does not have.\nYou may run the failed command yourself with the ide_exec tool to see its full output; it runs inside the container.\n3. Edit the files under .devcontainer/ that the fix needs.\n4. Do not run podman, docker, or the build yourself. When the files are ready, call the devcontainer_reload tool once. The IDE rebuilds the environment and asks the user before running any lifecycle command.\n5. Then call the environment tool. If it reports lifecycle_failed, call it again with include [\"log\"], read the new failure, and go back to step 2. Stop after three attempts and report what you tried.\n6. Finish with one short paragraph: what was wrong, what you changed, and whether the commands ran.");
    text
}

fn build_prompt(reason: &str, evidence: &str) -> (out: String)
    ensures
        out@ == build_repair(reason@, evidence@),
{
    let mut text = "Fix this project's devcontainer setup so the environment builds.\n\nWHAT HAPPENED\nThe IDE tried to build the environment from .devcontainer/devcontainer.json and could not. It is running its own baseline environment instead (safe mode). The failure, as the IDE read it:\n  ".to_owned();
    text.append(reason);
    text.append("\n");
    text.append(evidence);
    text.append("\n\nHOW TO WORK\n1. Read .devcontainer/devcontainer.json with your file tools, and any file it names (a Containerfile or Dockerfile). Do not guess at their contents.\n2. Find the smallest change that makes the build succeed. Common causes, in order of likelihood:\n- an image tag that does not exist on the registry: use a plain, published tag (for example a version like \"8.3\" rather than a variant you are unsure of), or build from a Containerfile instead;\n- a \"features\" block: this IDE does not apply devcontainer features; install those tools in a Containerfile and reference it with \"build\": {\"dockerfile\": \"Containerfile\"} in place of \"image\";\n- a mount whose source is outside the workspace, or an object-form mount: bind sources must be under ${localWorkspaceFolder}, written in the string form;\n- a postCreateCommand that needs a tool the image does not have.\n3. Edit files under .devcontainer/ only. That directory is writable; the rest of the checkout is read-only until the environment builds.\n4. Do not run podman, docker, or the build yourself. When the files are ready, call the devcontainer_reload tool once. The IDE builds the environment and asks the user before running any lifecycle command.\n5. Then call the environment tool with include [\"log\"]. If it reports a failure, read the new log lines and go back to step 2. Stop after three attempts and report what you tried.\n6. Finish with one short paragraph: what was wrong, what you changed, and whether the environment built.");
    text
}

/// What the repair is asked with.
pub open spec fn repairs(out: (String, Option<String>), trouble: Trouble) -> bool {
    &&& out.0@ == trouble.prompt_shown()
    &&& out.1 is Some <==> trouble.lines().len() > 0
    &&& out.1 matches Some(log) ==> log@ == joined(trouble.lines())
}

/// The prompt Prompt Agent sends, and the log it attaches: what happened, the
/// evidence, the exact steps, the walls it will meet, and when to stop.
///
/// Two failures, two prompts. A build that did not happen leaves the baseline
/// running and only `.devcontainer/` writable, and the causes are the config's.
/// A lifecycle command that failed leaves the project's own container up and
/// the whole checkout writable.
pub fn repair_prompt(trouble: &Trouble) -> (out: (String, Option<String>))
    ensures
        repairs(out, *trouble),
{
    let lines: &Vec<String> = match &trouble.failed_build_log {
        Some(lines) => lines,
        None => &trouble.tail,
    };
    assert(texts(lines@) == trouble.lines());
    assert(texts(lines@).len() == lines@.len());
    let log = if lines.len() > 0 {
        Some(join_lines(lines))
    } else {
        None
    };
    let evidence = if lines.len() == 0 {
        "The build log is empty; call the environment tool with include [\"log\"] for the latest lines before changing anything."
    } else if trouble.failed_build_log.is_some() {
        "The failed build's log, as it stood when it failed, is attached as environment-build.log; podman's error is at its end. Read it before changing anything."
    } else {
        "The last lines of the environment build log are attached as environment-build.log; read them before changing anything."
    };
    if let Some(reason) = &trouble.hook_failure {
        if trouble.in_container {
            return (lifecycle_prompt(reason.as_str(), evidence), log);
        }
    }
    let reason = match (&trouble.passed_over, &trouble.failed) {
        (Some(reason), _) => reason.as_str(),
        (None, Some(message)) => message.as_str(),
        (None, None) => "the environment did not build",
    };
    (build_prompt(reason, evidence), log)
}

/// Whether a button does what it says.
pub open spec fn button_does(label: Seq<char>, action: ButtonAction) -> bool {
    &&& label == "Rebuild"@ || label == "Start"@ ==> action == ButtonAction::Reload
    &&& label == "View Log"@ ==> action == ButtonAction::ViewLog
    &&& label == "Create"@ ==> action == ButtonAction::CreateConfig
    &&& label == "Answer"@ || label == "Yes"@ ==> action == ButtonAction::Answer
    &&& label == "Prompt Agent"@ ==> action == ButtonAction::PromptAgent || action
        == ButtonAction::AuthorAgent
}

proof fn lemma_words_apart(label: ButtonLabel)
    ensures
        label.says() == "Rebuild"@ <==> label == ButtonLabel::Rebuild,
        label.says() == "Start"@ <==> label == ButtonLabel::Start,
        label.says() == "View Log"@ <==> label == ButtonLabel::ViewLog,
        label.says() == "Create"@ <==> label == ButtonLabel::Create,
        label.says() == "Answer"@ <==> label == ButtonLabel::Answer,
        label.says() == "Yes"@ <==> label == ButtonLabel::Yes,
        label.says() == "No"@ <==> label == ButtonLabel::No,
        label.says() == "Cancel"@ <==> label == ButtonLabel::Cancel,
        label.says() == "Prompt Agent"@ <==> label == ButtonLabel::PromptAgent,
{
    reveal_strlit("Rebuild");
    reveal_strlit("Start");
    reveal_strlit("View Log");
    reveal_strlit("Create");
    reveal_strlit("Answer");
    reveal_strlit("Yes");
    reveal_strlit("No");
    reveal_strlit("Cancel");
    reveal_strlit("Prompt Agent");
    assert("Rebuild"@.len() == 7 && "Start"@.len() == 5 && "View Log"@.len() == 8);
    assert("Create"@.len() == 6 && "Create"@[1] == 'r');
    assert("Answer"@.len() == 6 && "Answer"@[1] == 'n');
    assert("Cancel"@.len() == 6 && "Cancel"@[1] == 'a');
    assert("Yes"@.len() == 3 && "No"@.len() == 2 && "Prompt Agent"@.len() == 12);
}

/// Whatever the strip shows, its buttons do what they say: on every face of
/// safe mode, in every state of the environment, and on every question.
pub proof fn a_strips_buttons_do_what_they_say(
    strip: Strip,
    face: BaselineFace,
    state: StateKind,
    authority: ConfigAuthority,
    prompt: Seq<char>,
    kind: AskKind,
)
    ensures
        baseline_shown(strip, face).button matches Some(label) && button_does(
            label.says(),
            baseline_shown(strip, face).action,
        ),
        baseline_shown(strip, face).secondary matches Some(label) ==> button_does(
            label.says(),
            baseline_shown(strip, face).secondary_action,
        ),
        state != StateKind::Running ==> (state_drawn(strip, state, authority).button matches Some(
            label,
        ) && button_does(label.says(), state_drawn(strip, state, authority).action)),
        asked(strip, prompt, kind).button matches Some(label) ==> button_does(
            label.says(),
            asked(strip, prompt, kind).action,
        ),
{
    if let Some(label) = baseline_shown(strip, face).button {
        lemma_words_apart(label);
    }
    if let Some(label) = baseline_shown(strip, face).secondary {
        lemma_words_apart(label);
    }
    if let Some(label) = state_drawn(strip, state, authority).button {
        lemma_words_apart(label);
    }
    if let Some(label) = asked(strip, prompt, kind).button {
        lemma_words_apart(label);
    }
}

/// Each face of safe mode offers the way out of it: a config that is ready is
/// built, a build that failed and a config that was refused are read in the log
/// and handed to the agent to repair, and where there is none one is made, by
/// hand or by the agent.
pub proof fn a_face_offers_its_way_out(strip: Strip, face: BaselineFace)
    ensures
        ({
            let shown = baseline_shown(strip, face);
            &&& shown.revealed && !shown.progress && !shown.attention
            &&& shown.action == ButtonAction::Reload <==> face == BaselineFace::Ready
            &&& shown.action == ButtonAction::ViewLog <==> face == BaselineFace::BuildFailed || face
                == BaselineFace::ConfigRefused
            &&& shown.action == ButtonAction::CreateConfig <==> face == BaselineFace::NoConfig
            &&& shown.secondary is None <==> face == BaselineFace::Ready
            &&& face == BaselineFace::NoConfig ==> shown.secondary_action
                == ButtonAction::AuthorAgent && shown.icon.named() == "document-new-symbolic"@
                && shown.title == "Safe mode — no devcontainer"@
            &&& face == BaselineFace::BuildFailed ==> shown.secondary_action
                == ButtonAction::PromptAgent && shown.icon.named() == "dialog-error-symbolic"@
                && shown.title == "Safe mode — failed environment build"@
            &&& face == BaselineFace::ConfigRefused ==> shown.secondary_action
                == ButtonAction::PromptAgent && shown.icon.named() == "dialog-warning-symbolic"@
                && shown.title == "Safe mode — invalid devcontainer setup"@
            &&& face == BaselineFace::Ready ==> shown.icon.named() == "system-run-symbolic"@
                && crate::text::begins_with(
                shown.title,
                "Safe mode — devcontainer.json is ready"@,
            )
        }),
{
    if face == BaselineFace::Ready {
        let title = "Safe mode — devcontainer.json is ready; rebuild to run the project's own environment"@;
        let lead = "Safe mode — devcontainer.json is ready"@;
        assert(lead.len() <= title.len() && title.subrange(0, lead.len() as int) =~= lead) by {
            reveal_strlit(
                "Safe mode — devcontainer.json is ready; rebuild to run the project's own environment",
            );
            reveal_strlit("Safe mode — devcontainer.json is ready");
        }
    }
}

/// Each state draws its own face: a failure and a missing config are safe
/// mode's, a stopped or unstarted environment can be started, and one on its
/// way says which stage it is in.
pub proof fn a_state_draws_its_own_face(strip: Strip, state: StateKind, authority: ConfigAuthority)
    ensures
        ({
            let drawn = state_drawn(strip, state, authority);
            &&& state == StateKind::Failed ==> drawn == baseline_shown(
                strip,
                BaselineFace::BuildFailed,
            )
            &&& state == StateKind::NoConfig ==> drawn == baseline_shown(
                strip,
                BaselineFace::NoConfig,
            )
            &&& state == StateKind::Stopped || state == StateKind::ConfigDetected ==> drawn.button
                == Some(ButtonLabel::Start) && drawn.action == ButtonAction::Reload
                && drawn.secondary is None
            &&& state == StateKind::Stopped ==> drawn.title == "Safe mode — devcontainer stopped"@
                && drawn.icon.named() == "media-playback-stop-symbolic"@
            &&& state == StateKind::ConfigDetected ==> drawn.title
                == "Safe mode — devcontainer not running; only its setup is editable"@
            &&& state == StateKind::Building ==> drawn.title == "Devcontainer building…"@
            &&& state == StateKind::Starting ==> drawn.title == "Devcontainer starting…"@
            &&& state == StateKind::Preparing ==> drawn.title == "Devcontainer preparing…"@
            &&& state == StateKind::Running && authority == ConfigAuthority::Project
                ==> !drawn.revealed && drawn.secondary is None
            &&& resolution_wanted(state, authority) <==> state == StateKind::Running && authority
                == ConfigAuthority::Baseline
        }),
{
}

/// What the config comes to decides the face: one that can be used is ready, a
/// missing one says so, and one that was passed over is a failed build or a
/// refused config, by whether it was built.
pub proof fn a_resolution_picks_its_face(
    resolved: ConfigAuthority,
    refused: bool,
    build_failed: bool,
)
    ensures
        face_resolved(resolved, refused, build_failed) == BaselineFace::Ready <==> resolved
            == ConfigAuthority::Project,
        resolved == ConfigAuthority::Baseline ==> {
            &&& face_resolved(resolved, refused, build_failed) == BaselineFace::NoConfig
                <==> !refused
            &&& face_resolved(resolved, refused, build_failed) == BaselineFace::BuildFailed
                <==> refused && build_failed
            &&& face_resolved(resolved, refused, build_failed) == BaselineFace::ConfigRefused
                <==> refused && !build_failed
        },
{
}

/// A question keeps the strip: while one is on it, no state and no resolution
/// moves what it shows, though the state is kept to come back to.
pub proof fn a_question_keeps_the_strip(
    before: DevcontainerBanner,
    after: DevcontainerBanner,
    state: StateKind,
    authority: ConfigAuthority,
    resolve: bool,
)
    requires
        hears(before, after, state, authority, resolve),
    ensures
        after.last_state == Some(state),
        after.question == before.question,
        before.question is Some || before.posed ==> after.strip() == before.strip() && !resolve,
        before.question is None && !before.posed ==> {
            &&& resolve <==> state == StateKind::Running && authority == ConfigAuthority::Baseline
            &&& state != StateKind::Running ==> after.revealed
            &&& state == StateKind::Running && authority == ConfigAuthority::Project
                ==> !after.revealed
        },
{
}

/// A resolution that comes too late changes nothing; one in time shows the face
/// it comes to.
pub proof fn a_late_resolution_is_dropped(
    before: DevcontainerBanner,
    after: DevcontainerBanner,
    running: bool,
    resolved: ConfigAuthority,
    refused: bool,
    build_failed: bool,
)
    requires
        hears_resolved(before, after, running, resolved, refused, build_failed),
    ensures
        before.question is Some || before.posed || !running ==> after == before,
        before.question is None && !before.posed && running ==> {
            &&& after.revealed
            &&& resolved == ConfigAuthority::Project ==> after.action == ButtonAction::Reload
            &&& resolved == ConfigAuthority::Baseline && !refused ==> after.action
                == ButtonAction::CreateConfig
            &&& resolved == ConfigAuthority::Baseline && refused ==> after.action
                == ButtonAction::ViewLog
        },
        after.question == before.question,
        after.last_state == before.last_state,
{
    assert(after.strip().action == after.action && after.strip().revealed == after.revealed);
}

/// One question at a time: a second one is refused and changes nothing, and the
/// first is shown with the entry its answer wants, hidden for a secret, plain
/// for a text, two buttons for a yes or no, and none for a touch.
pub proof fn one_question_at_a_time(
    before: DevcontainerBanner,
    after: DevcontainerBanner,
    id: u64,
    prompt: Seq<char>,
    kind: AskKind,
    taken: bool,
)
    requires
        asks(before, after, id, prompt, kind, taken),
    ensures
        taken <==> before.question is None,
        !taken ==> after == before,
        taken ==> {
            &&& after.question == Some((id, kind))
            &&& after.revealed
            &&& after.secret <==> kind == AskKind::Secret
            &&& after.text <==> kind == AskKind::Text
            &&& after.button is None <==> kind == AskKind::Notice
            &&& after.cancel is None <==> kind == AskKind::Notice
            &&& after.attention <==> kind == AskKind::Notice
            &&& kind != AskKind::Notice ==> after.action == ButtonAction::Answer && after.title@
                == question_line(prompt)
            &&& kind == AskKind::Confirm ==> after.button == Some(ButtonLabel::Yes) && after.cancel
                == Some(ButtonLabel::No)
            &&& kind == AskKind::Secret || kind == AskKind::Text ==> after.cancel == Some(
                ButtonLabel::Cancel,
            )
            &&& kind == AskKind::Notice ==> crate::text::begins_with(
                after.title@,
                question_line(prompt),
            )
            &&& after.secondary is None
            &&& after.last_state == before.last_state
            &&& kind == AskKind::Secret ==> after.icon.named() == "dialog-password-symbolic"@
            &&& kind == AskKind::Text || kind == AskKind::Confirm ==> after.icon.named()
                == "dialog-question-symbolic"@
            &&& kind == AskKind::Notice ==> after.icon.named() == "auth-fingerprint-symbolic"@
        },
{
    if taken {
        let strip = after.strip();
        assert(strip.revealed == after.revealed && strip.secret == after.secret && strip.text
            == after.text && strip.button == after.button && strip.cancel == after.cancel
            && strip.attention == after.attention && strip.action == after.action && strip.title
            == after.title@ && strip.secondary == after.secondary && strip.icon == after.icon);
        if kind == AskKind::Notice {
            a_touch_is_counted_down(question_line(prompt), 0);
        }
    }
}

/// A touch is counted down second by second for half a minute, and after that
/// still waited for.
pub proof fn a_touch_is_counted_down(base: Seq<char>, elapsed: nat)
    ensures
        crate::text::begins_with(countdown_shown(base, elapsed), base),
        elapsed < 30 ==> crate::text::holds_text(
            countdown_shown(base, elapsed),
            decimal_of((30 - elapsed) as nat),
        ),
        elapsed >= 30 ==> countdown_shown(base, elapsed) == base + " · still waiting"@,
{
    assert(countdown_shown(base, elapsed).subrange(0, base.len() as int) =~= base);
    if elapsed < 30 {
        crate::text::lemma_holds_middle(
            base + " · about "@,
            decimal_of((30 - elapsed) as nat),
            " s to touch"@,
        );
    }
}

/// An answer goes to the question that was asked, with what was entered, or with
/// a yes; a notice has none. Cancelling answers a yes-or-no with a no and
/// anything else with nothing. Either way the question is over.
pub proof fn an_answer_goes_to_its_question(
    before: DevcontainerBanner,
    answered: DevcontainerBanner,
    cancelled: DevcontainerBanner,
    entered: Seq<char>,
    authority: ConfigAuthority,
    yes: Followup,
    no: Followup,
)
    requires
        answers(before, answered, entered, authority, yes),
        cancels(before, cancelled, authority, no),
    ensures
        answered.question is None && cancelled.question is None,
        before.question is None ==> yes.answer is None && no.answer is None,
        before.question matches Some((id, kind)) ==> {
            &&& kind == AskKind::Secret || kind == AskKind::Text ==> answer_view(yes.answer) == Some(
                (id, Some(entered)),
            ) && answer_view(no.answer) == Some((id, None::<Seq<char>>))
            &&& kind == AskKind::Confirm ==> answer_view(yes.answer) == Some((id, Some("yes"@)))
                && answer_view(no.answer) == Some((id, Some("no"@)))
            &&& kind == AskKind::Notice ==> yes.answer is None && answer_view(no.answer) == Some(
                (id, None::<Seq<char>>),
            )
        },
{
}

/// A question ends only for its own asker, and gives the strip back.
pub proof fn a_question_ends_for_its_asker(
    before: DevcontainerBanner,
    after: DevcontainerBanner,
    id: u64,
    authority: ConfigAuthority,
    resolve: bool,
)
    requires
        ends(before, after, id, authority, resolve),
    ensures
        before.question is None ==> after == before,
        before.question matches Some((asked, _)) ==> {
            &&& asked != id ==> after == before && !resolve
            &&& asked == id ==> after.question is None && !after.secret && !after.text
                && after.cancel is None
            &&& asked == id && before.last_state is None ==> !after.revealed
        },
        after.last_state == before.last_state,
{
    assert(after.strip().secret == after.secret && after.strip().text == after.text
        && after.strip().cancel == after.cancel && after.strip().revealed == after.revealed);
}

/// A pressed button does its own work: the log is shown, a config made, the
/// environment reloaded, and the agent prompted only where it has a chat.
pub proof fn a_press_does_its_work(
    before: DevcontainerBanner,
    after: DevcontainerBanner,
    action: ButtonAction,
    entered: Seq<char>,
    chat: bool,
    authority: ConfigAuthority,
    out: Pressed,
)
    requires
        acts(before, after, action, entered, chat, authority, out),
    ensures
        out is ShowLog <==> action == ButtonAction::ViewLog,
        out is CreateConfig <==> action == ButtonAction::CreateConfig,
        out is Reload <==> action == ButtonAction::Reload,
        out is SendRepair <==> action == ButtonAction::PromptAgent && chat,
        out is SendAuthor <==> action == ButtonAction::AuthorAgent && chat,
        out is NoChat <==> (action == ButtonAction::PromptAgent || action
            == ButtonAction::AuthorAgent) && !chat,
        out is Answered <==> action == ButtonAction::Answer,
        action == ButtonAction::Answer ==> after.question is None,
        action != ButtonAction::Answer ==> after.question == before.question,
        out matches Pressed::Answered(next) ==> (before.question matches Some((id, kind)) ==> {
            &&& kind == AskKind::Secret || kind == AskKind::Text ==> answer_view(next.answer)
                == Some((id, Some(entered)))
            &&& kind == AskKind::Confirm ==> answer_view(next.answer) == Some((id, Some("yes"@)))
        }),
{
}

/// A repair says what went wrong: the failed command's own words where the
/// project's container is up, else why the environment did not build; and it
/// carries the log wherever there is one.
pub proof fn a_repair_says_what_went_wrong(out: (String, Option<String>), trouble: Trouble)
    requires
        repairs(out, trouble),
    ensures
        trouble.in_container ==> (trouble.hook_failure matches Some(reason)
            ==> crate::text::holds_text(out.0@, reason@) && crate::text::begins_with(
            out.0@,
            "Fix this project's devcontainer setup so its lifecycle commands succeed"@,
        )),
        !trouble.in_container || trouble.hook_failure is None ==> crate::text::begins_with(
            out.0@,
            "Fix this project's devcontainer setup so the environment builds"@,
        ),
        !trouble.in_container || trouble.hook_failure is None ==> (trouble.passed_over matches Some(
            reason,
        ) ==> crate::text::holds_text(out.0@, reason@)),
        !trouble.in_container || trouble.hook_failure is None ==> (trouble.passed_over is None ==> (
        trouble.failed matches Some(message) ==> crate::text::holds_text(out.0@, message@))),
        crate::text::holds_text(out.0@, trouble.evidence()),
        trouble.failed_build_log matches Some(lines) ==> (out.1 is Some <==> lines@.len() > 0),
        trouble.failed_build_log is None ==> (out.1 is Some <==> trouble.tail@.len() > 0),
        trouble.failed_build_log matches Some(lines) ==> (out.1 matches Some(log) ==> log@
            == joined(texts(lines@))),
        trouble.failed_build_log is None ==> (out.1 matches Some(log) ==> log@ == joined(
            texts(trouble.tail@),
        )),
{
    match trouble.hook_failure {
        Some(reason) if trouble.in_container => {
            lemma_lifecycle_repair(reason@, trouble.evidence());
        },
        _ => {
            lemma_build_repair(trouble.build_reason(), trouble.evidence());
        },
    }
}

proof fn lemma_lifecycle_repair(reason: Seq<char>, evidence: Seq<char>)
    ensures
        crate::text::holds_text(lifecycle_repair(reason, evidence), reason),
        crate::text::holds_text(lifecycle_repair(reason, evidence), evidence),
        crate::text::begins_with(
            lifecycle_repair(reason, evidence),
            "Fix this project's devcontainer setup so its lifecycle commands succeed"@,
        ),
{
    let a = "Fix this project's devcontainer setup so its lifecycle commands succeed.\n\nWHAT HAPPENED\nThe IDE built and started the environment from .devcontainer/devcontainer.json. Then one of its lifecycle commands failed, and the commands after it were skipped. The container is running and the whole checkout is writable. The failure, as the IDE read it:\n  "@;
    let c = "\n\nHOW TO WORK\n1. Read .devcontainer/devcontainer.json with your file tools, and any file it names (a Containerfile or Dockerfile). Do not guess at their contents.\n2. Find the smallest change that makes the command succeed. Common causes, in order of likelihood:\n- the command needs a tool the image does not have (composer, npm, a language extension): install it in the Containerfile;\n- a \"features\" block was expected to provide it: this IDE does not apply devcontainer features, so install those tools in the Containerfile instead;\n- the command runs in the wrong directory, or before a file it needs exists: give it the path, or move it to a later lifecycle step;\n- the command needs the network or credentials the container does not have.\nYou may run the failed command yourself with the ide_exec tool to see its full output; it runs inside the container.\n3. Edit the files under .devcontainer/ that the fix needs.\n4. Do not run podman, docker, or the build yourself. When the files are ready, call the devcontainer_reload tool once. The IDE rebuilds the environment and asks the user before running any lifecycle command.\n5. Then call the environment tool. If it reports lifecycle_failed, call it again with include [\"log\"], read the new failure, and go back to step 2. Stop after three attempts and report what you tried.\n6. Finish with one short paragraph: what was wrong, what you changed, and whether the commands ran."@;
    let lead = "Fix this project's devcontainer setup so its lifecycle commands succeed"@;
    let text = lifecycle_repair(reason, evidence);
    assert(text =~= a + reason + ("\n"@ + evidence + c));
    crate::text::lemma_holds_middle(a, reason, "\n"@ + evidence + c);
    assert(text =~= (a + reason + "\n"@) + evidence + c);
    crate::text::lemma_holds_middle(a + reason + "\n"@, evidence, c);
    assert(lead.len() <= a.len() && a.subrange(0, lead.len() as int) =~= lead) by {
        reveal_strlit("Fix this project's devcontainer setup so its lifecycle commands succeed.\n\nWHAT HAPPENED\nThe IDE built and started the environment from .devcontainer/devcontainer.json. Then one of its lifecycle commands failed, and the commands after it were skipped. The container is running and the whole checkout is writable. The failure, as the IDE read it:\n  ");
        reveal_strlit("Fix this project's devcontainer setup so its lifecycle commands succeed");
    }
    assert(text.subrange(0, lead.len() as int) =~= a.subrange(0, lead.len() as int));
}

proof fn lemma_build_repair(reason: Seq<char>, evidence: Seq<char>)
    ensures
        crate::text::holds_text(build_repair(reason, evidence), reason),
        crate::text::holds_text(build_repair(reason, evidence), evidence),
        crate::text::begins_with(
            build_repair(reason, evidence),
            "Fix this project's devcontainer setup so the environment builds"@,
        ),
{
    let a = "Fix this project's devcontainer setup so the environment builds.\n\nWHAT HAPPENED\nThe IDE tried to build the environment from .devcontainer/devcontainer.json and could not. It is running its own baseline environment instead (safe mode). The failure, as the IDE read it:\n  "@;
    let c = "\n\nHOW TO WORK\n1. Read .devcontainer/devcontainer.json with your file tools, and any file it names (a Containerfile or Dockerfile). Do not guess at their contents.\n2. Find the smallest change that makes the build succeed. Common causes, in order of likelihood:\n- an image tag that does not exist on the registry: use a plain, published tag (for example a version like \"8.3\" rather than a variant you are unsure of), or build from a Containerfile instead;\n- a \"features\" block: this IDE does not apply devcontainer features; install those tools in a Containerfile and reference it with \"build\": {\"dockerfile\": \"Containerfile\"} in place of \"image\";\n- a mount whose source is outside the workspace, or an object-form mount: bind sources must be under ${localWorkspaceFolder}, written in the string form;\n- a postCreateCommand that needs a tool the image does not have.\n3. Edit files under .devcontainer/ only. That directory is writable; the rest of the checkout is read-only until the environment builds.\n4. Do not run podman, docker, or the build yourself. When the files are ready, call the devcontainer_reload tool once. The IDE builds the environment and asks the user before running any lifecycle command.\n5. Then call the environment tool with include [\"log\"]. If it reports a failure, read the new log lines and go back to step 2. Stop after three attempts and report what you tried.\n6. Finish with one short paragraph: what was wrong, what you changed, and whether the environment built."@;
    let lead = "Fix this project's devcontainer setup so the environment builds"@;
    let text = build_repair(reason, evidence);
    assert(text =~= a + reason + ("\n"@ + evidence + c));
    crate::text::lemma_holds_middle(a, reason, "\n"@ + evidence + c);
    assert(text =~= (a + reason + "\n"@) + evidence + c);
    crate::text::lemma_holds_middle(a + reason + "\n"@, evidence, c);
    assert(lead.len() <= a.len() && a.subrange(0, lead.len() as int) =~= lead) by {
        reveal_strlit("Fix this project's devcontainer setup so the environment builds.\n\nWHAT HAPPENED\nThe IDE tried to build the environment from .devcontainer/devcontainer.json and could not. It is running its own baseline environment instead (safe mode). The failure, as the IDE read it:\n  ");
        reveal_strlit("Fix this project's devcontainer setup so the environment builds");
    }
    assert(text.subrange(0, lead.len() as int) =~= a.subrange(0, lead.len() as int));
}

/// Drift is this banner's news only while the baseline runs; under the project's
/// own config it hides itself, and a question or a pose is left alone.
pub proof fn drift_is_news_under_the_baseline(
    before: DevcontainerBanner,
    after: DevcontainerBanner,
    running: bool,
    authority: ConfigAuthority,
    resolve: bool,
)
    requires
        hears_drift(before, after, running, authority, resolve),
    ensures
        before.question is Some || before.posed || !running ==> after == before && !resolve,
        before.question is None && !before.posed && running && authority
            == ConfigAuthority::Baseline ==> resolve && after == before,
        before.question is None && !before.posed && running && authority
            == ConfigAuthority::Project ==> !resolve && !after.revealed,
        after.question == before.question && after.last_state == before.last_state,
{
}

/// While the project's own container runs the strip is hidden; while the
/// baseline does it waits for what the config comes to.
pub proof fn a_running_project_hides_the_strip(
    before: DevcontainerBanner,
    after: DevcontainerBanner,
    authority: ConfigAuthority,
    resolve: bool,
)
    requires
        hears_running(before, after, authority, resolve),
    ensures
        authority == ConfigAuthority::Project ==> !after.revealed && !resolve,
        authority == ConfigAuthority::Baseline ==> resolve && after == before,
        after.question == before.question,
{
}

/// Only a failure goes to the log, with all it said.
pub proof fn only_a_failure_is_logged(state: DevcontainerStateEvent, out: Option<String>)
    requires
        logs(state, out),
    ensures
        out is Some <==> state is Failed,
        state matches DevcontainerStateEvent::Failed { message } ==> (out matches Some(line)
            && crate::text::holds_text(line@, message@)),
        state is Failed <==> state.kind_of() == StateKind::Failed,
        state is Running <==> state.kind_of() == StateKind::Running,
        state is Building <==> state.kind_of() == StateKind::Building,
        state is Starting <==> state.kind_of() == StateKind::Starting,
        state is Preparing <==> state.kind_of() == StateKind::Preparing,
        state is Stopped <==> state.kind_of() == StateKind::Stopped,
        state is NoConfig <==> state.kind_of() == StateKind::NoConfig,
        state is ConfigDetected <==> state.kind_of() == StateKind::ConfigDetected,
{
    if let DevcontainerStateEvent::Failed { message } = state {
        crate::text::lemma_holds_end("environment failed: "@, message@);
    }
}

/// A notice ticks only while it is the one on the strip, and a tick changes its
/// words alone.
pub proof fn a_notice_ticks_while_it_stands(
    before: DevcontainerBanner,
    after: DevcontainerBanner,
    id: u64,
    prompt: Seq<char>,
    elapsed_secs: u64,
    live: bool,
)
    requires
        ticks(before, after, id, prompt, elapsed_secs, live),
    ensures
        live <==> (before.question matches Some((asked, kind)) && asked == id && kind
            == AskKind::Notice),
        !live ==> after == before,
        live ==> crate::text::begins_with(after.title@, question_line(prompt)),
        live && elapsed_secs < 30 ==> crate::text::holds_text(
            after.title@,
            decimal_of((30 - elapsed_secs) as nat),
        ),
        after.question == before.question && after.revealed == before.revealed && after.button
            == before.button,
{
    a_touch_is_counted_down(question_line(prompt), elapsed_secs as nat);
}

/// A prompt's colons at its end are dropped, all of them, and nothing else is.
pub proof fn a_question_drops_its_colons(s: Seq<char>)
    ensures
        without_colons(s.push(':')) == without_colons(s),
        s.len() == 0 || s.last() != ':' ==> without_colons(s) == s,
        without_colons(s).len() > 0 ==> without_colons(s).last() != ':',
        crate::text::begins_with(s, without_colons(s)),
    decreases s.len(),
{
    assert(s.push(':').drop_last() =~= s);
    if s.len() > 0 && s.last() == ':' {
        let rest = s.drop_last();
        a_question_drops_its_colons(rest);
        let kept = without_colons(s);
        assert(s.subrange(0, kept.len() as int) =~= rest.subrange(0, kept.len() as int));
    } else {
        assert(s.subrange(0, s.len() as int) =~= s);
    }
}

} // verus!
