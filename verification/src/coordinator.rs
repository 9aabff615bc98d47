//! Waking the coordinator, the primary environment's chat, when there is
//! something for it to do, and restarting it when it does not answer.
//!
//! Two things wake it ([`Errand`]): an environment flagged for review, and a
//! new item on the backlog. An exhausted allowance stops the wake-up and asks
//! the user instead; a silent wake-up restarts the coordinator, and after
//! [`MAX_RESTARTS`] the chat is told that this needs the user.

use vstd::prelude::*;
use crate::environment::EnvironmentId;
use crate::fleet::text_view;
use crate::text::{concat2, concat3, decimal, decimal_of};

verus! {

/// How long, in seconds, a woken coordinator may be **silent** before it is
/// restarted. Silent, not busy: see [`verdict`].
pub const ANSWER_DEADLINE: u64 = 600;

/// Restarts per wake-up before the coordinator is left alone.
pub const MAX_RESTARTS: u32 = 2;

/// What a chat is doing.
#[derive(Debug, Clone, Copy, PartialEq, Eq, Structural)]
pub enum ChatState {
    Idle,
    Streaming,
    Starting,
    Disconnected,
    AwaitingPermission,
}

/// What a chat says about itself.
#[derive(Debug, Clone, Copy, PartialEq, Eq)]
pub struct ChatFacts {
    pub state: ChatState,
    /// Seconds since anything happened in it; `None` before anything did.
    pub idle_for_secs: Option<u64>,
    /// Turns that have ended.
    pub turns: u64,
}

/// What the coordinator is being woken about.
#[derive(Debug, PartialEq, Eq)]
pub enum Errand {
    /// An environment says its issue is done and wants a review.
    Review(EnvironmentId),
    /// A new item on the backlog, for triage.
    Filed { id: String, title: String },
}

impl Clone for Errand {
    fn clone(&self) -> (out: Self)
        ensures
            out == *self,
    {
        match self {
            Errand::Review(env) => Errand::Review(env.clone()),
            Errand::Filed { id, title } => Errand::Filed { id: id.clone(), title: title.clone() },
        }
    }
}

impl Errand {
    /// What is waiting, in a few words.
    pub open spec fn subject_shown(&self) -> Seq<char> {
        match self {
            Errand::Review(env) => "the review of "@ + env@,
            Errand::Filed { id, title: _ } => "issue "@ + id@,
        }
    }

    /// The words the coordinator is woken with.
    pub open spec fn prompt_shown(&self) -> Seq<char> {
        match self {
            Errand::Review(env) => "Environment "@ + env@ + " is flagged for review: its agent says issue "@ + env@ + " is done and published to agents/"@ + env@ + ". Review it now. Call review_list for where it stands and whether the branch merges cleanly; read the branch against the user's branch in your checkout (git log and git diff over agents/"@ + env@ + "). If it passes, merge it into the user's branch and complete issue "@ + env@ + "; if not, send the agent what to fix with chat_send. Tell the user, briefly, what you found and did. Never push — the remote is the user's."@,
            Errand::Filed { id, title } => "Issue "@ + id@ + " was just filed on the backlog: \""@ + title@ + "\". It is yours to triage — you were not the one who wrote it. Read it and the queue around it (issue_list), then do whichever of these it actually calls for, and no more: move it (issue_reorder) if it outranks what sits above it; start it (issue_start) if it is ready, nothing it depends on is unfinished, and there is room under the cap; link or decline it (issue_link, issue_update) if it duplicates or is obsoleted by something already on the queue; or leave it where it is. Tell the user in one or two lines what you did and why — including when the answer was to leave it alone. Do not file anything in reply."@,
        }
    }

    /// The words a restarted coordinator picks up with.
    pub open spec fn resume_shown(&self, why: Seq<char>) -> Seq<char> {
        "The IDE restarted you: "@ + why
            + ". If your conversation is above, it is yours to continue. Either way the backlog (issue_list) is the state of what is going on and review_list is what waits for review — read those before anything else. Then: "@
            + self.prompt_shown()
    }

    /// Why the user is being told the coordinator was not woken.
    pub open spec fn toast_shown(&self, reopens: Seq<char>) -> Seq<char> {
        let what = match self {
            Errand::Review(env) => env@ + " is ready for review"@,
            Errand::Filed { id, title } => id@ + " was filed (\""@ + title@ + "\")"@,
        };
        what + ", but the session allowance is exhausted (reopens "@ + reopens
            + ") — the coordinator was not woken"@
    }

    /// What is waiting, in a few words, for sentences about it rather than to
    /// it.
    pub fn subject(&self) -> (out: String)
        ensures
            out@ == self.subject_shown(),
    {
        match self {
            Errand::Review(env) => concat2("the review of ", env.as_str()),
            Errand::Filed { id, title: _ } => concat2("issue ", id.as_str()),
        }
    }

    /// The words the coordinator is woken with. They restate the step of the
    /// brief that applies, with this errand's names in it, so the agent does
    /// not have to look anything up to begin.
    pub fn prompt(&self) -> (out: String)
        ensures
            out@ == self.prompt_shown(),
    {
        match self {
            Errand::Review(env) => {
                let mut text = "Environment ".to_owned();
                text.append(env.as_str());
                text.append(" is flagged for review: its agent says issue ");
                text.append(env.as_str());
                text.append(" is done and published to agents/");
                text.append(env.as_str());
                text.append(". Review it now. Call review_list for where it stands and whether the branch merges cleanly; read the branch against the user's branch in your checkout (git log and git diff over agents/");
                text.append(env.as_str());
                text.append("). If it passes, merge it into the user's branch and complete issue ");
                text.append(env.as_str());
                text.append("; if not, send the agent what to fix with chat_send. Tell the user, briefly, what you found and did. Never push — the remote is the user's.");
                text
            },
            Errand::Filed { id, title } => {
                let mut text = "Issue ".to_owned();
                text.append(id.as_str());
                text.append(" was just filed on the backlog: \"");
                text.append(title.as_str());
                text.append("\". It is yours to triage — you were not the one who wrote it. Read it and the queue around it (issue_list), then do whichever of these it actually calls for, and no more: move it (issue_reorder) if it outranks what sits above it; start it (issue_start) if it is ready, nothing it depends on is unfinished, and there is room under the cap; link or decline it (issue_link, issue_update) if it duplicates or is obsoleted by something already on the queue; or leave it where it is. Tell the user in one or two lines what you did and why — including when the answer was to leave it alone. Do not file anything in reply.");
                text
            },
        }
    }

    /// The words a restarted coordinator picks up with: what happened, where
    /// the state is, and the errand it still owes.
    pub fn resume_prompt(&self, why: &str) -> (out: String)
        ensures
            out@ == self.resume_shown(why@),
    {
        let prompt = self.prompt();
        let mut text = concat3(
            "The IDE restarted you: ",
            why,
            ". If your conversation is above, it is yours to continue. Either way the backlog (issue_list) is the state of what is going on and review_list is what waits for review — read those before anything else. Then: ",
        );
        text.append(prompt.as_str());
        text
    }

    /// Why the user is being told the coordinator was not woken.
    pub fn toast(&self, reopens: &str) -> (out: String)
        ensures
            out@ == self.toast_shown(reopens@),
    {
        let mut text = match self {
            Errand::Review(env) => concat2(env.as_str(), " is ready for review"),
            Errand::Filed { id, title } => {
                let mut text = concat3(id.as_str(), " was filed (\"", title.as_str());
                text.append("\")");
                text
            },
        };
        text.append(", but the session allowance is exhausted (reopens ");
        text.append(reopens);
        text.append(") — the coordinator was not woken");
        text
    }
}

/// A restarted coordinator is left with the errand it still owes: the prompt
/// stands at the end of what it picks up with, whatever happened to it.
pub proof fn a_restart_keeps_the_errand(errand: Errand, why: Seq<char>)
    ensures
        ({
            let resumed = errand.resume_shown(why);
            let prompt = errand.prompt_shown();
            resumed.len() >= prompt.len() && resumed.subrange(
                resumed.len() - prompt.len(),
                resumed.len() as int,
            ) == prompt
        }),
{
    let resumed = errand.resume_shown(why);
    let prompt = errand.prompt_shown();
    assert(resumed.subrange(resumed.len() - prompt.len(), resumed.len() as int) =~= prompt);
}

/// Who filed an item; `None` is the user.
pub open spec fn filer(by: Option<&EnvironmentId>) -> Option<Seq<char>> {
    match by {
        Some(env) => Some(env@),
        None => None,
    }
}

/// Whether a filing wakes the coordinator.
pub open spec fn is_news(by: Option<&EnvironmentId>, r: bool) -> bool {
    &&& r == (filer(by) != Some(EnvironmentId::primary_slug()))
}

/// Whether a filing is news to the coordinator. Its own are not: answering
/// one would be a turn spent to learn nothing, or a loop.
pub fn filing_wakes(by: Option<&EnvironmentId>) -> (r: bool)
    ensures
        is_news(by, r),
{
    match by {
        Some(env) => !env.is_primary(),
        None => true,
    }
}

/// What a wake-up comes to.
#[derive(Debug, PartialEq, Eq)]
pub enum Wake {
    /// There is no coordinator chat: the user works alone.
    Nobody,
    /// It filed the item itself.
    NotNews,
    /// The allowance is exhausted; spending it is the user's call. The text
    /// goes in a toast with a button that sends the prompt anyway.
    AskFirst { toast: String, prompt: String },
    /// Send this prompt.
    Send { prompt: String },
}

/// Whether a wake-up about an errand came to this.
pub open spec fn wakes(
    out: Wake,
    errand: Errand,
    present: bool,
    exhausted: Option<Seq<char>>,
) -> bool {
    if !present {
        out == Wake::Nobody
    } else {
        match exhausted {
            Some(reopens) => out matches Wake::AskFirst { toast, prompt } && toast@
                == errand.toast_shown(reopens) && prompt@ == errand.prompt_shown(),
            None => out matches Wake::Send { prompt } && prompt@ == errand.prompt_shown(),
        }
    }
}

/// Wake the coordinator about an errand, or say why not. `present` is whether
/// the primary has a chat; `exhausted` says when a spent allowance reopens.
pub fn wake_for(errand: &Errand, present: bool, exhausted: Option<&str>) -> (out: Wake)
    ensures
        wakes(out, *errand, present, text_view(exhausted)),
{
    if !present {
        return Wake::Nobody;
    }
    match exhausted {
        Some(reopens) => Wake::AskFirst { toast: errand.toast(reopens), prompt: errand.prompt() },
        None => Wake::Send { prompt: errand.prompt() },
    }
}

/// An environment was flagged for review: wake the coordinator about it.
pub fn wake_for_review(env: &EnvironmentId, present: bool, exhausted: Option<&str>) -> (out: (
    Wake,
    Errand,
))
    ensures
        out.1 == Errand::Review(*env),
        wakes(out.0, out.1, present, text_view(exhausted)),
{
    let errand = Errand::Review(env.clone());
    (wake_for(&errand, present, exhausted), errand)
}

/// What the filing of an item comes to.
pub open spec fn wakes_for_filed(
    out: (Wake, Errand),
    id: Seq<char>,
    title: Seq<char>,
    by: Option<&EnvironmentId>,
    present: bool,
    exhausted: Option<Seq<char>>,
) -> bool {
    &&& out.1 matches Errand::Filed { id: i, title: t } && i@ == id && t@ == title
    &&& if filer(by) == Some(EnvironmentId::primary_slug()) {
        out.0 == Wake::NotNews
    } else {
        wakes(out.0, out.1, present, exhausted)
    }
}

/// An item was filed on the backlog: wake the coordinator about it, unless
/// the coordinator is the one that filed it.
pub fn wake_for_filed(
    id: &str,
    title: &str,
    by: Option<&EnvironmentId>,
    present: bool,
    exhausted: Option<&str>,
) -> (out: (Wake, Errand))
    ensures
        wakes_for_filed(out, id@, title@, by, present, text_view(exhausted)),
{
    let errand = Errand::Filed { id: id.to_owned(), title: title.to_owned() };
    if !filing_wakes(by) {
        return (Wake::NotNews, errand);
    }
    (wake_for(&errand, present, exhausted), errand)
}

/// What the deadline finding the chat in some state means.
#[derive(Debug, Clone, Copy, PartialEq, Eq)]
pub enum Verdict {
    /// A turn ended after the wake-up: the errand was taken.
    Answered,
    /// Only the user can move this on.
    NeedsTheUser,
    /// Something is happening in there. Wait again; do not interrupt it.
    StillAlive,
    /// Nothing has happened for the whole deadline.
    Restart(&'static str),
}

/// What a silent chat is restarted for.
pub open spec fn silence(state: ChatState) -> Seq<char> {
    match state {
        ChatState::Streaming => "it went quiet mid-turn"@,
        ChatState::Starting => "its session never came up"@,
        ChatState::Disconnected => "it had no live agent"@,
        ChatState::Idle | ChatState::AwaitingPermission => "it went idle without finishing a turn"@,
    }
}

/// A turn ended since.
pub open spec fn answered(facts: ChatFacts, turns_before: u64) -> bool {
    facts.turns > turns_before
}

/// The chat sits on a question only the user can answer.
pub open spec fn stuck(facts: ChatFacts) -> bool {
    facts.state == ChatState::AwaitingPermission
}

/// Something happened within the deadline.
pub open spec fn alive(facts: ChatFacts) -> bool {
    facts.idle_for_secs matches Some(secs) && secs < ANSWER_DEADLINE
}

/// What the deadline means.
pub open spec fn rules(out: Verdict, facts: ChatFacts, turns_before: u64) -> bool {
    if answered(facts, turns_before) {
        out == Verdict::Answered
    } else if stuck(facts) {
        out == Verdict::NeedsTheUser
    } else if alive(facts) {
        out == Verdict::StillAlive
    } else {
        out matches Verdict::Restart(why) && why@ == silence(facts.state)
    }
}

/// Read the chat's own facts and say what the deadline means.
///
/// The deadline measures silence, not elapsed time: a completed turn ends the
/// watch whatever the chat is doing now, and anything at all in the chat
/// within the deadline re-arms it. `idle_for_secs` of `None` means nothing has
/// ever happened in there, which is not aliveness.
pub fn verdict(facts: &ChatFacts, turns_before: u64) -> (out: Verdict)
    ensures
        rules(out, *facts, turns_before),
{
    if facts.turns > turns_before {
        return Verdict::Answered;
    }
    if facts.state == ChatState::AwaitingPermission {
        return Verdict::NeedsTheUser;
    }
    if let Some(secs) = facts.idle_for_secs {
        if secs < ANSWER_DEADLINE {
            return Verdict::StillAlive;
        }
    }
    Verdict::Restart(
        match facts.state {
            ChatState::Streaming => "it went quiet mid-turn",
            ChatState::Starting => "its session never came up",
            ChatState::Disconnected => "it had no live agent",
            ChatState::Idle
            | ChatState::AwaitingPermission => "it went idle without finishing a turn",
        },
    )
}

/// A turn that ended ends the watch in any state; a permission question is
/// never restarted around; and a chat in which anything happened within the
/// deadline is never restarted.
pub proof fn only_silence_restarts(out: Verdict, facts: ChatFacts, turns_before: u64)
    requires
        rules(out, facts, turns_before),
    ensures
        out is Restart <==> !answered(facts, turns_before) && !stuck(facts) && !alive(facts),
        answered(facts, turns_before) <==> out == Verdict::Answered,
        stuck(facts) && !answered(facts, turns_before) <==> out == Verdict::NeedsTheUser,
{
}

/// A wake-up that is being waited on.
#[derive(Debug, PartialEq, Eq)]
pub struct Watch {
    pub errand: Errand,
    pub turns_before: u64,
    pub restarts: u32,
}

/// What to do with a watched coordinator.
#[derive(Debug, PartialEq, Eq)]
pub enum Step {
    /// The watch is over.
    Done,
    /// Say this in the chat; the watch is over.
    Note(String),
    /// Look again after another deadline.
    WaitAgain(Watch),
    /// Respawn with the conversation, send the prompt once the session is
    /// ready, and watch again with this many restarts behind it.
    Restart { why: String, prompt: String, restarts: u32 },
}

/// Why a silent coordinator is restarted, in full.
pub open spec fn restart_reason(errand: Errand, state: ChatState) -> Seq<char> {
    silence(state) + ", with nothing happening in it for "@ + decimal_of(
        (ANSWER_DEADLINE / 60) as nat,
    ) + " minutes after being asked about "@ + errand.subject_shown()
}

/// What the deadline makes of a watch; `None` is a chat that is gone.
pub open spec fn steps(out: Step, watch: Watch, facts: Option<ChatFacts>) -> bool {
    match facts {
        None => out == Step::Done,
        Some(facts) => if answered(facts, watch.turns_before) {
            out == Step::Done
        } else if stuck(facts) {
            out matches Step::Note(text) && text@ == watch.errand.subject_shown()
                + " is waiting on the permission above"@
        } else if alive(facts) {
            out == Step::WaitAgain(watch)
        } else if watch.restarts >= MAX_RESTARTS {
            out matches Step::Note(text) && text@ == "not restarted again: "@ + restart_reason(
                watch.errand,
                facts.state,
            ) + ", after "@ + decimal_of(watch.restarts as nat) + " restarts — "@
                + watch.errand.subject_shown() + " needs you"@
        } else {
            out matches Step::Restart { why, prompt, restarts } && why@ == restart_reason(
                watch.errand,
                facts.state,
            ) && prompt@ == watch.errand.resume_shown(why@) && restarts == watch.restarts + 1
        },
    }
}

/// What sending the prompt comes to.
pub open spec fn woken(
    out: Step,
    errand: Errand,
    turns_before: u64,
    sent: Result<(), String>,
) -> bool {
    &&& match sent {
        Ok(_) => out == Step::WaitAgain(
            (Watch { errand: errand, turns_before, restarts: 0 }),
        ),
        Err(reason) => out matches Step::Restart { why, prompt, restarts } && why@
            == "it could not be woken ("@ + reason@ + ")"@ && prompt@ == errand.resume_shown(
            why@,
        ) && restarts == 1,
    }
}

/// Send the prompt and start the clock on the answer: `sent` is what the chat
/// said to it.
pub fn wake(errand: &Errand, turns_before: u64, sent: Result<(), String>) -> (out: Step)
    ensures
        woken(out, *errand, turns_before, sent),
{
    match sent {
        Ok(_) => Step::WaitAgain(Watch { errand: errand.clone(), turns_before, restarts: 0 }),
        Err(reason) => {
            let why = concat3("it could not be woken (", reason.as_str(), ")");
            let prompt = errand.resume_prompt(why.as_str());
            Step::Restart { why, prompt, restarts: 1 }
        },
    }
}

/// After the deadline, look at the coordinator and restart it only if the
/// errand did not happen and nothing else did either.
pub fn watch(waiting: Watch, facts: Option<&ChatFacts>) -> (out: Step)
    ensures
        steps(
            out,
            waiting,
            match facts {
                Some(facts) => Some(*facts),
                None => None,
            },
        ),
{
    let facts = match facts {
        Some(facts) => facts,
        None => {
            return Step::Done;
        },
    };
    match verdict(facts, waiting.turns_before) {
        Verdict::Answered => Step::Done,
        Verdict::NeedsTheUser => {
            let subject = waiting.errand.subject();
            Step::Note(concat2(subject.as_str(), " is waiting on the permission above"))
        },
        Verdict::StillAlive => Step::WaitAgain(waiting),
        Verdict::Restart(silent) => {
            let subject = waiting.errand.subject();
            let minutes = decimal(ANSWER_DEADLINE / 60);
            let mut why = concat3(
                silent,
                ", with nothing happening in it for ",
                minutes.as_str(),
            );
            why.append(" minutes after being asked about ");
            why.append(subject.as_str());
            if waiting.restarts >= MAX_RESTARTS {
                let count = decimal(waiting.restarts as u64);
                let mut note = concat3("not restarted again: ", why.as_str(), ", after ");
                note.append(count.as_str());
                note.append(" restarts — ");
                note.append(subject.as_str());
                note.append(" needs you");
                return Step::Note(note);
            }
            let prompt = waiting.errand.resume_prompt(why.as_str());
            Step::Restart { why, prompt, restarts: waiting.restarts + 1 }
        },
    }
}

/// The watch that follows a restart: the clock starts over, with the turns
/// the respawned chat has and the restarts behind it.
pub fn restart(errand: &Errand, turns_now: u64, restarts: u32) -> (out: Watch)
    ensures
        out == (Watch { errand: *errand, turns_before: turns_now, restarts }),
{
    Watch { errand: errand.clone(), turns_before: turns_now, restarts }
}

/// What the chat is told when a restarted coordinator would not take the
/// prompt.
pub fn not_taken(reason: &str) -> (out: String)
    ensures
        out@ == "the prompt was not taken after the restart: "@ + reason@,
{
    concat2("the prompt was not taken after the restart: ", reason)
}

/// The watch that follows a step, with the errand unchanged: the same watch
/// where it is waited on again, and one more restart behind it after a
/// restart. Nothing follows a watch that is over.
pub open spec fn follows(next: Watch, watch: Watch, out: Step) -> bool {
    match out {
        Step::WaitAgain(again) => next == again,
        Step::Restart { why: _, prompt: _, restarts } => next.errand == watch.errand
            && next.restarts == restarts,
        _ => false,
    }
}

/// A wake-up, deadline by deadline: the watch that stood at each, what the
/// deadline found, and the step it took.
pub open spec fn is_run(watches: Seq<Watch>, found: Seq<Option<ChatFacts>>, outs: Seq<Step>) -> bool {
    &&& watches.len() == outs.len()
    &&& found.len() == outs.len()
    &&& forall|i: int|
        0 <= i < outs.len() ==> steps(#[trigger] outs[i], watches[i], found[i])
    &&& forall|i: int|
        0 < i < outs.len() ==> follows(#[trigger] watches[i], watches[i - 1], outs[i - 1])
}

/// How many of the steps are restarts.
pub open spec fn restarts_in(outs: Seq<Step>) -> nat
    decreases outs.len(),
{
    if outs.len() == 0 {
        0
    } else {
        restarts_in(outs.drop_last()) + if outs.last() is Restart {
            1nat
        } else {
            0nat
        }
    }
}

/// The restarts behind a watch are those it began with and those since.
proof fn lemma_restarts_so_far(
    watches: Seq<Watch>,
    found: Seq<Option<ChatFacts>>,
    outs: Seq<Step>,
    n: int,
)
    requires
        is_run(watches, found, outs),
        0 <= n < outs.len(),
        watches[0].restarts <= MAX_RESTARTS,
    ensures
        watches[0].restarts + restarts_in(outs.take(n)) == watches[n].restarts,
        watches[n].restarts <= MAX_RESTARTS,
    decreases n,
{
    if n > 0 {
        lemma_restarts_so_far(watches, found, outs, n - 1);
        assert(outs.take(n).drop_last() =~= outs.take(n - 1));
        assert(steps(outs[n - 1], watches[n - 1], found[n - 1]));
        assert(follows(watches[n], watches[n - 1], outs[n - 1]));
    }
}

/// However long a coordinator stays silent, and whatever its deadlines find,
/// it is not restarted forever: with the restarts that the first watch has
/// behind it, at most the rest of [`MAX_RESTARTS`] follow.
pub proof fn restarts_come_to_an_end(
    watches: Seq<Watch>,
    found: Seq<Option<ChatFacts>>,
    outs: Seq<Step>,
)
    requires
        is_run(watches, found, outs),
        outs.len() > 0,
        watches[0].restarts <= MAX_RESTARTS,
    ensures
        watches[0].restarts + restarts_in(outs) <= MAX_RESTARTS,
{
    let last = outs.len() - 1;
    lemma_restarts_so_far(watches, found, outs, last);
    assert(outs.drop_last() =~= outs.take(last));
    assert(steps(outs[last], watches[last], found[last]));
}

/// An exhausted allowance is never spent without the user: a prompt is sent only
/// where a coordinator is there and its allowance is not spent, and where it is
/// spent the user is asked, and told when it reopens.
pub proof fn an_exhausted_allowance_is_not_spent(
    out: Wake,
    errand: Errand,
    present: bool,
    exhausted: Option<Seq<char>>,
)
    requires
        wakes(out, errand, present, exhausted),
    ensures
        out is Send <==> present && exhausted is None,
        out is AskFirst <==> present && exhausted is Some,
        out is Nobody <==> !present,
        out matches Wake::AskFirst { toast, prompt: _ } ==> (exhausted matches Some(reopens)
            && crate::text::holds_text(toast@, "reopens "@ + reopens)),
        out matches Wake::Send { prompt } ==> prompt@ == errand.prompt_shown(),
        out matches Wake::AskFirst { toast: _, prompt } ==> prompt@ == errand.prompt_shown(),
{
    if out is AskFirst {
        let reopens = exhausted->0;
        let what = match errand {
            Errand::Review(env) => env@ + " is ready for review"@,
            Errand::Filed { id, title } => id@ + " was filed (\""@ + title@ + "\")"@,
        };
        let lead = ", but the session allowance is exhausted ("@;
        assert(", but the session allowance is exhausted (reopens "@ =~= lead + "reopens "@) by {
            reveal_strlit(", but the session allowance is exhausted (reopens ");
            reveal_strlit(", but the session allowance is exhausted (");
            reveal_strlit("reopens ");
        }
        let front = what + lead;
        let said = "reopens "@ + reopens;
        let back = ") — the coordinator was not woken"@;
        assert(errand.toast_shown(reopens) =~= front + said + back);
        crate::text::lemma_holds_middle(front, said, back);
    }
}

/// What the coordinator is woken with names its errand: the environment and the
/// branch it published, or the item and what it is called.
pub proof fn a_prompt_names_its_errand(errand: Errand)
    ensures
        errand matches Errand::Review(env) ==> {
            &&& crate::text::begins_with(
                errand.prompt_shown(),
                "Environment "@ + env@ + " is flagged for review"@,
            )
            &&& crate::text::holds_text(errand.prompt_shown(), "published to agents/"@ + env@)
            &&& crate::text::holds_text(errand.subject_shown(), env@)
        },
        errand matches Errand::Filed { id, title } ==> {
            &&& crate::text::begins_with(
                errand.prompt_shown(),
                "Issue "@ + id@ + " was just filed on the backlog: \""@ + title@,
            )
            &&& crate::text::holds_text(errand.subject_shown(), id@)
        },
{
    match errand {
        Errand::Review(env) => {
            lemma_review_prompt(env);
            crate::text::lemma_holds_end("the review of "@, env@);
        },
        Errand::Filed { id, title } => {
            let said = "Issue "@ + id@ + " was just filed on the backlog: \""@ + title@;
            assert(errand.prompt_shown().subrange(0, said.len() as int) =~= said);
            crate::text::lemma_holds_end("issue "@, id@);
        },
    }
}

proof fn lemma_review_prompt(env: EnvironmentId)
    ensures
        crate::text::begins_with(
            Errand::Review(env).prompt_shown(),
            "Environment "@ + env@ + " is flagged for review"@,
        ),
        crate::text::holds_text(
            Errand::Review(env).prompt_shown(),
            "published to agents/"@ + env@,
        ),
{
    let a = "Environment "@;
    let b = " is flagged for review: its agent says issue "@;
    let c = " is done and published to agents/"@;
    let d = ". Review it now. Call review_list for where it stands and whether the branch merges cleanly; read the branch against the user's branch in your checkout (git log and git diff over agents/"@;
    let e = "). If it passes, merge it into the user's branch and complete issue "@;
    let f = "; if not, send the agent what to fix with chat_send. Tell the user, briefly, what you found and did. Never push — the remote is the user's."@;
    let lead = " is flagged for review"@;
    let published = "published to agents/"@;
    let done = " is done and "@;
    assert(b.len() >= lead.len() && b.subrange(0, lead.len() as int) =~= lead) by {
        reveal_strlit(" is flagged for review: its agent says issue ");
        reveal_strlit(" is flagged for review");
    }
    assert(c =~= done + published) by {
        reveal_strlit(" is done and published to agents/");
        reveal_strlit(" is done and ");
        reveal_strlit("published to agents/");
    }
    let text = Errand::Review(env).prompt_shown();
    assert(text =~= a + env@ + b + env@ + c + env@ + (d + env@ + e + env@ + f));
    let front = a + env@ + b + env@ + done;
    let said = published + env@;
    let back = d + env@ + e + env@ + f;
    assert(text =~= front + said + back);
    crate::text::lemma_holds_middle(front, said, back);
    let first = a + env@ + lead;
    assert(text.subrange(0, first.len() as int) =~= first) by {
        assert forall|i: int| 0 <= i < first.len() implies text[i] == first[i] by {
            if i >= (a + env@).len() {
                assert(b.subrange(0, lead.len() as int)[i - (a + env@).len()] == lead[i - (a
                    + env@).len()]);
            }
        }
    }
}

/// Everyone's filing is news to the coordinator but its own: the user's always
/// is, and so is that of any environment but the primary.
pub proof fn only_its_own_filing_is_no_news(by: Option<&EnvironmentId>, r: bool)
    requires
        is_news(by, r),
    ensures
        by is None ==> r,
        by matches Some(env) ==> (r <==> env@ != "primary"@),
{
}

/// A filed item wakes the coordinator as any errand does, with the item's own
/// id and title, unless the coordinator filed it: then nothing is sent.
pub proof fn a_filing_is_passed_on(
    out: (Wake, Errand),
    id: Seq<char>,
    title: Seq<char>,
    by: Option<&EnvironmentId>,
    present: bool,
    exhausted: Option<Seq<char>>,
)
    requires
        wakes_for_filed(out, id, title, by, present, exhausted),
    ensures
        out.1 matches Errand::Filed { id: i, title: t } && i@ == id && t@ == title,
        out.0 is NotNews <==> (by matches Some(env) && env@ == "primary"@),
        out.0 is Send <==> present && exhausted is None && !(by matches Some(env) && env@
            == "primary"@),
{
}

/// What the deadline means, by what the chat did: a turn that ended answers; a
/// permission it waits on is the user's; anything within the ten minutes keeps
/// it waiting; and silence alone restarts it, saying what it was silent in.
pub proof fn a_deadline_measures_silence(out: Verdict, facts: ChatFacts, turns_before: u64)
    requires
        rules(out, facts, turns_before),
    ensures
        out is Answered <==> facts.turns > turns_before,
        facts.turns <= turns_before ==> {
            &&& out is NeedsTheUser <==> facts.state == ChatState::AwaitingPermission
            &&& facts.state != ChatState::AwaitingPermission ==> {
                &&& facts.idle_for_secs is None ==> out is Restart
                &&& facts.idle_for_secs matches Some(secs) ==> {
                    &&& secs < 10 * 60 ==> out is StillAlive
                    &&& secs >= 10 * 60 ==> out is Restart
                }
            }
        },
        out matches Verdict::Restart(why) ==> {
            &&& facts.state == ChatState::Streaming ==> why@ == "it went quiet mid-turn"@
            &&& facts.state == ChatState::Starting ==> why@ == "its session never came up"@
            &&& facts.state == ChatState::Disconnected ==> why@ == "it had no live agent"@
            &&& facts.state == ChatState::Idle ==> why@ == "it went idle without finishing a turn"@
        },
{
}

/// A watch ends where its chat is gone or has answered, goes on unchanged while
/// something happens, and restarts a silent chat at most twice, each with the
/// errand it still owes; after that the user is told instead.
pub proof fn a_watch_ends_or_goes_on(out: Step, watch: Watch, facts: Option<ChatFacts>)
    requires
        steps(out, watch, facts),
    ensures
        facts is None ==> out is Done,
        facts matches Some(found) ==> {
            &&& found.turns > watch.turns_before ==> out is Done
            &&& found.turns <= watch.turns_before ==> {
                &&& !(out is Done)
                &&& found.state == ChatState::AwaitingPermission ==> out is Note
                &&& found.state != ChatState::AwaitingPermission && (found.idle_for_secs matches Some(
                    secs,
                ) && secs < 10 * 60) ==> out == Step::WaitAgain(watch)
                &&& found.state != ChatState::AwaitingPermission && !(found.idle_for_secs matches Some(
                    secs,
                ) && secs < 10 * 60) ==> {
                    &&& watch.restarts < 2 ==> out is Restart
                    &&& watch.restarts >= 2 ==> out is Note
                }
            }
        },
        out matches Step::Restart { why, prompt, restarts } ==> restarts == watch.restarts + 1
            && crate::text::holds_text(prompt@, why@) && crate::text::holds_text(
            prompt@,
            watch.errand.prompt_shown(),
        ) && crate::text::holds_text(why@, watch.errand.subject_shown()),
        out matches Step::Note(text) ==> crate::text::holds_text(
            text@,
            watch.errand.subject_shown(),
        ),
{
    let subject = watch.errand.subject_shown();
    if let Step::Restart { why, prompt, restarts } = out {
        lemma_resume_words(watch.errand, why@);
        let state = facts->0.state;
        crate::text::lemma_holds_end(
            silence(state) + ", with nothing happening in it for "@ + decimal_of(
                (ANSWER_DEADLINE / 60) as nat,
            ) + " minutes after being asked about "@,
            subject,
        );
    }
    if let Step::Note(text) = out {
        let found = facts->0;
        if stuck(found) {
            crate::text::lemma_holds_middle(
                Seq::empty(),
                subject,
                " is waiting on the permission above"@,
            );
            assert(text@ =~= Seq::<char>::empty() + subject
                + " is waiting on the permission above"@);
        } else {
            let front = "not restarted again: "@ + restart_reason(watch.errand, found.state)
                + ", after "@ + decimal_of(watch.restarts as nat) + " restarts — "@;
            crate::text::lemma_holds_middle(front, subject, " needs you"@);
        }
    }
}

proof fn lemma_resume_words(errand: Errand, why: Seq<char>)
    ensures
        crate::text::holds_text(errand.resume_shown(why), why),
        crate::text::holds_text(errand.resume_shown(why), errand.prompt_shown()),
{
    let a = "The IDE restarted you: "@;
    let b = ". If your conversation is above, it is yours to continue. Either way the backlog (issue_list) is the state of what is going on and review_list is what waits for review — read those before anything else. Then: "@;
    let c = errand.prompt_shown();
    assert(errand.resume_shown(why) =~= a + why + (b + c));
    crate::text::lemma_holds_middle(a, why, b + c);
    crate::text::lemma_holds_end(a + why + b, c);
}

/// A prompt that was taken starts a watch on the turns before it, with no
/// restart behind it; one that was not restarts the chat, saying why.
pub proof fn a_prompt_not_taken_restarts(
    out: Step,
    errand: Errand,
    turns_before: u64,
    sent: Result<(), String>,
)
    requires
        woken(out, errand, turns_before, sent),
    ensures
        sent is Ok ==> (out matches Step::WaitAgain(watch) && watch.errand == errand
            && watch.turns_before == turns_before && watch.restarts == 0),
        sent matches Err(reason) ==> (out matches Step::Restart { why, prompt, restarts } && restarts
            == 1 && crate::text::holds_text(why@, reason@) && crate::text::holds_text(
            prompt@,
            errand.prompt_shown(),
        )),
{
    if let Err(reason) = sent {
        let why = "it could not be woken ("@ + reason@ + ")"@;
        crate::text::lemma_holds_middle("it could not be woken ("@, reason@, ")"@);
        lemma_resume_words(errand, why);
    }
}

} // verus!
