//! The subscription pool, as far as it was observed.

use vstd::prelude::*;
use crate::text::{concat2, concat3, decimal, decimal_of, join_lines, joined, texts};

verus! {

/// One of the plan's windows: how much of it is used, and when it resets, in
/// words, where that is known.
#[derive(Debug, PartialEq, Eq)]
pub struct WindowReading {
    pub used_percent: u64,
    pub resets: Option<String>,
}

/// A per-minute rate limit: a real limit, but not the plan.
#[derive(Debug, PartialEq, Eq)]
pub struct RateReading {
    pub label: String,
    pub used_percent: u64,
    pub resets: Option<String>,
}

/// A refusal that still stands.
#[derive(Debug, PartialEq, Eq)]
pub struct Exhaustion {
    /// When the pool reopens, in words.
    pub reopens: Option<String>,
    pub message: Option<String>,
}

/// The account's limit state at one moment.
#[derive(Debug, PartialEq, Eq)]
pub struct QuotaReading {
    pub exhausted: Option<Exhaustion>,
    pub session: Option<WindowReading>,
    pub weekly: Option<WindowReading>,
    /// The limit nearest to its end, whichever it is.
    pub headline: Option<RateReading>,
    /// How long ago this was read, in words; `None` before anything was.
    pub age: Option<String>,
}

impl Default for QuotaReading {
    fn default() -> (out: Self)
        ensures
            out == (QuotaReading {
                exhausted: None,
                session: None,
                weekly: None,
                headline: None,
                age: None,
            }),
    {
        QuotaReading { exhausted: None, session: None, weekly: None, headline: None, age: None }
    }
}

/// A share of a limit, as it was reported: the number by its bits, which tell
/// any two apart, and in whole percent.
#[derive(Debug, Clone, Copy, PartialEq, Eq, Structural)]
pub struct Share {
    pub bits: u64,
    pub percent: u64,
}

/// A limit over a span of time. Moments here are nanoseconds since the epoch.
#[derive(Debug, Clone, Copy, PartialEq, Eq, Structural)]
pub struct Window {
    pub limit: Option<u64>,
    pub remaining: Option<u64>,
    pub reset: Option<u64>,
}

impl Default for Window {
    fn default() -> (out: Self)
        ensures
            out == (Window { limit: None, remaining: None, reset: None }),
    {
        Window { limit: None, remaining: None, reset: None }
    }
}

/// One of the plan's windows, as it was reported.
#[derive(Debug, Clone, PartialEq, Eq)]
pub struct PlanWindow {
    pub label: Option<String>,
    pub utilization: Option<Share>,
    pub window: Window,
    pub status: Option<String>,
}

impl PlanWindow {
    /// A window nothing was reported of.
    pub open spec fn blank() -> PlanWindow {
        PlanWindow {
            label: None,
            utilization: None,
            window: Window { limit: None, remaining: None, reset: None },
            status: None,
        }
    }
}

impl Default for PlanWindow {
    fn default() -> (out: Self)
        ensures
            out == PlanWindow::blank(),
    {
        PlanWindow { label: None, utilization: None, window: Window::default(), status: None }
    }
}

/// A refusal, as it was observed.
#[derive(Debug, Clone, PartialEq, Eq)]
pub struct Refusal {
    pub until: Option<u64>,
    pub message: Option<String>,
}

/// The limit nearest to its end at one moment, and how long it is until that
/// resets, in nanoseconds.
#[derive(Debug, PartialEq, Eq)]
pub struct Headline {
    pub label: String,
    pub used: Share,
    pub resets_in: Option<u64>,
}

/// What stands of an observation at the moment of a drawing: the refusal, if
/// one still holds then, and the limit that is nearest to its end then.
#[derive(Debug, PartialEq, Eq)]
pub struct Standing {
    pub refusal: Option<Refusal>,
    pub headline: Option<Headline>,
}

/// The account's limit state as it was last observed. It says the same until
/// something is observed again: what moves with the clock is made of it when
/// it is drawn.
#[derive(Debug, Clone, PartialEq, Eq)]
pub struct QuotaSnapshot {
    pub observed_at: Option<u64>,
    pub observed_for: Option<String>,
    pub session: PlanWindow,
    pub weekly: PlanWindow,
    pub requests: Window,
    pub input_tokens: Window,
    pub output_tokens: Window,
    pub refusal: Option<Refusal>,
}

/// How long it is until a moment, where that is still to come.
pub open spec fn left(moment: Option<u64>, now: u64) -> Option<u64> {
    match moment {
        Some(at) => if at >= now {
            Some((at - now) as u64)
        } else {
            None
        },
        None => None,
    }
}

/// How long it is until a moment, where that is still to come.
pub fn time_left(moment: Option<u64>, now: u64) -> (out: Option<u64>)
    ensures
        out == left(moment, now),
{
    match moment {
        Some(at) => if at >= now {
            Some(at - now)
        } else {
            None
        },
        None => None,
    }
}

/// The spans of time that a drawing puts into words, in nanoseconds.
#[derive(Debug, Clone, Copy, PartialEq, Eq, Structural)]
pub struct QuotaSpans {
    pub reopens: Option<u64>,
    pub session: Option<u64>,
    pub weekly: Option<u64>,
    pub headline: Option<u64>,
    pub age: Option<u64>,
}

/// Those spans, in words.
#[derive(Debug, PartialEq, Eq)]
pub struct QuotaWords {
    pub reopens: Option<String>,
    pub session: Option<String>,
    pub weekly: Option<String>,
    pub headline: Option<String>,
    pub age: Option<String>,
}

/// The spans that a drawing at `now` puts into words.
pub open spec fn spans_at(
    out: QuotaSpans,
    observed: QuotaSnapshot,
    standing: Standing,
    now: u64,
) -> bool {
    &&& out == (QuotaSpans {
        reopens: match standing.refusal {
            Some(refusal) => left(refusal.until, now),
            None => None,
        },
        session: left(observed.session.window.reset, now),
        weekly: left(observed.weekly.window.reset, now),
        headline: match standing.headline {
            Some(headline) => headline.resets_in,
            None => None,
        },
        age: match observed.observed_at {
            Some(at) => left(Some(now), at),
            None => None,
        },
    })
}

/// What a drawing takes of an observation.
pub open spec fn reads(
    out: QuotaReading,
    observed: QuotaSnapshot,
    standing: Standing,
    words: QuotaWords,
) -> bool {
    &&& match (out.exhausted, standing.refusal) {
        (Some(shown), Some(refusal)) => shown.reopens == words.reopens && shown.message
            == refusal.message,
        (None, None) => true,
        _ => false,
    }
    &&& out.session == window_read(observed.session, words.session)
    &&& out.weekly == window_read(observed.weekly, words.weekly)
    &&& match (out.headline, standing.headline) {
        (Some(shown), Some(headline)) => shown.label == headline.label
            && shown.used_percent == headline.used.percent && shown.resets
            == words.headline,
        (None, None) => true,
        _ => false,
    }
    &&& out.age == words.age
}

/// What a window reads as, with when it resets; nothing where no share of it
/// was reported.
pub open spec fn window_read(window: PlanWindow, resets: Option<String>) -> Option<WindowReading> {
    match window.utilization {
        Some(used) => Some(WindowReading { used_percent: used.percent, resets }),
        None => None,
    }
}

fn read_window(window: &PlanWindow, resets: Option<String>) -> (out: Option<WindowReading>)
    ensures
        out == window_read(*window, resets),
{
    match window.utilization {
        Some(used) => Some(WindowReading { used_percent: used.percent, resets }),
        None => None,
    }
}

impl QuotaSnapshot {
    /// Nothing observed.
    pub open spec fn blank() -> QuotaSnapshot {
        QuotaSnapshot {
            observed_at: None,
            observed_for: None,
            session: PlanWindow::blank(),
            weekly: PlanWindow::blank(),
            requests: Window { limit: None, remaining: None, reset: None },
            input_tokens: Window { limit: None, remaining: None, reset: None },
            output_tokens: Window { limit: None, remaining: None, reset: None },
            refusal: None,
        }
    }

    /// The spans that a drawing at `now` puts into words.
    pub fn spans(&self, standing: &Standing, now: u64) -> (out: QuotaSpans)
        ensures
            spans_at(out, *self, *standing, now),
    {
        QuotaSpans {
            reopens: match &standing.refusal {
                Some(refusal) => time_left(refusal.until, now),
                None => None,
            },
            session: time_left(self.session.window.reset, now),
            weekly: time_left(self.weekly.window.reset, now),
            headline: match &standing.headline {
                Some(headline) => headline.resets_in,
                None => None,
            },
            age: match self.observed_at {
                Some(at) => time_left(Some(now), at),
                None => None,
            },
        }
    }

    /// What the gauge and its tooltip take: the observation's windows, and of
    /// its refusal and its headline only what stands, with the spans in words.
    pub fn reading(&self, standing: Standing, words: QuotaWords) -> (out: QuotaReading)
        ensures
            reads(out, *self, standing, words),
    {
        QuotaReading {
            exhausted: match standing.refusal {
                Some(refusal) => Some(
                    Exhaustion { reopens: words.reopens, message: refusal.message },
                ),
                None => None,
            },
            session: read_window(&self.session, words.session),
            weekly: read_window(&self.weekly, words.weekly),
            headline: match standing.headline {
                Some(headline) => Some(
                    RateReading {
                        label: headline.label,
                        used_percent: headline.used.percent,
                        resets: words.headline,
                    },
                ),
                None => None,
            },
            age: words.age,
        }
    }
}

impl Default for QuotaSnapshot {
    fn default() -> (out: Self)
        ensures
            out == QuotaSnapshot::blank(),
    {
        QuotaSnapshot {
            observed_at: None,
            observed_for: None,
            session: PlanWindow::default(),
            weekly: PlanWindow::default(),
            requests: Window::default(),
            input_tokens: Window::default(),
            output_tokens: Window::default(),
            refusal: None,
        }
    }
}

/// What a reset adds to a line.
pub open spec fn resets_shown(resets: Option<String>) -> Seq<char> {
    match resets {
        Some(when) => ", resets "@ + when@,
        None => ""@,
    }
}

/// What a refusal says.
pub open spec fn exhausted_lines(reading: QuotaReading) -> Seq<Seq<char>> {
    match reading.exhausted {
        None => Seq::empty(),
        Some(refusal) => {
            let first = "Out of quota"@ + match refusal.reopens {
                Some(when) => " — reopens "@ + when@,
                None => ""@,
            };
            match refusal.message {
                Some(message) => seq![first, message@],
                None => seq![first],
            }
        },
    }
}

/// What a window says.
pub open spec fn window_lines(name: Seq<char>, window: Option<WindowReading>) -> Seq<Seq<char>> {
    match window {
        None => Seq::empty(),
        Some(window) => seq![
            name + " window "@ + decimal_of(window.used_percent as nat) + "% used"@ + resets_shown(
                window.resets,
            ),
        ],
    }
}

/// What is said where neither a refusal nor a window was reported.
pub open spec fn rate_lines(reading: QuotaReading) -> Seq<Seq<char>> {
    match reading.headline {
        None => Seq::empty(),
        Some(rate) => seq![
            "API rate limit ("@ + rate.label@ + ") "@ + decimal_of(rate.used_percent as nat)
                + "% used"@ + resets_shown(rate.resets)
                + "\nThe plan's own windows were not reported."@,
        ],
    }
}

/// The lines of the gauge's tooltip, for the pool of the agent of that name.
pub open spec fn quota_lines(reading: QuotaReading, agent: Seq<char>) -> Seq<Seq<char>> {
    let plan = exhausted_lines(reading) + window_lines("Session"@, reading.session) + window_lines(
        "Weekly"@,
        reading.weekly,
    );
    let known = if plan.len() == 0 {
        rate_lines(reading)
    } else {
        plan
    };
    let when = match reading.age {
        Some(age) => "Read off the last agent turn, "@ + age@ + "."@,
        None => "Not yet observed."@,
    };
    known + seq![when, "One pool: every environment here, and your own "@ + agent + " use."@]
}

fn push_resets(line: &mut String, resets: &Option<String>)
    ensures
        final(line)@ == old(line)@ + resets_shown(*resets),
{
    match resets {
        Some(when) => {
            let ghost before = line@;
            line.append(", resets ");
            line.append(when.as_str());
            assert(line@ =~= before + (", resets "@ + when@));
        },
        None => {
            line.append("");
        },
    }
}

fn push_window(lines: &mut Vec<String>, name: &str, window: &Option<WindowReading>)
    ensures
        texts(final(lines)@) == texts(old(lines)@) + window_lines(name@, *window),
{
    let ghost before = lines@;
    if let Some(window) = window {
        let digits = decimal(window.used_percent);
        let mut line = concat3(name, " window ", digits.as_str());
        line.append("% used");
        push_resets(&mut line, &window.resets);
        lines.push(line);
        assert(texts(lines@) =~= texts(before) + seq![line@]);
    } else {
        assert(texts(lines@) =~= texts(before) + Seq::<Seq<char>>::empty());
    }
}

/// What the header gauge says when you rest on it.
///
/// Written to be readable as prose rather than as a readout: these figures are
/// as of a moment that has passed, and the pool they describe is shared with
/// the user's own use of the agent it names. Where no plan window was
/// reported, the headline came off a per-minute rate limit, and the text says
/// which.
pub fn quota_tooltip(reading: &QuotaReading, agent: &str) -> (out: String)
    ensures
        out@ == joined(quota_lines(*reading, agent@)),
{
    let mut lines: Vec<String> = Vec::new();
    if let Some(refusal) = &reading.exhausted {
        let first = match &refusal.reopens {
            Some(when) => {
                let tail = concat2(" — reopens ", when.as_str());
                concat2("Out of quota", tail.as_str())
            },
            None => concat2("Out of quota", ""),
        };
        lines.push(first);
        if let Some(message) = &refusal.message {
            lines.push(message.clone());
        }
    }
    assert(texts(lines@) =~= exhausted_lines(*reading));
    push_window(&mut lines, "Session", &reading.session);
    push_window(&mut lines, "Weekly", &reading.weekly);
    let ghost plan = exhausted_lines(*reading) + window_lines("Session"@, reading.session)
        + window_lines("Weekly"@, reading.weekly);
    assert(texts(lines@).len() == lines@.len());
    if lines.len() == 0 {
        if let Some(rate) = &reading.headline {
            let mut line = concat3("API rate limit (", rate.label.as_str(), ") ");
            let digits = decimal(rate.used_percent);
            line.append(digits.as_str());
            line.append("% used");
            push_resets(&mut line, &rate.resets);
            line.append("\nThe plan's own windows were not reported.");
            lines.push(line);
        }
        assert(texts(lines@) =~= rate_lines(*reading));
    }
    let ghost known = texts(lines@);
    let when = match &reading.age {
        Some(age) => concat3("Read off the last agent turn, ", age.as_str(), "."),
        None => "Not yet observed.".to_owned(),
    };
    lines.push(when);
    let pool = concat3("One pool: every environment here, and your own ", agent, " use.");
    lines.push(pool);
    assert(texts(lines@) =~= known + seq![when@, pool@]);
    join_lines(&lines)
}

/// What the header gauge draws.
#[derive(Debug, Clone, Copy, PartialEq, Eq, Structural)]
pub struct GaugeFace {
    pub used_percent: u64,
    /// A refusal stands.
    pub spent: bool,
    pub stale: bool,
}

/// What the gauge draws of a reading.
pub open spec fn draws(out: Option<GaugeFace>, reading: QuotaReading, stale: bool) -> bool {
    &&& match (out, reading.headline) {
        (Some(face), Some(rate)) => face == (GaugeFace {
            used_percent: rate.used_percent,
            spent: reading.exhausted is Some,
            stale,
        }),
        (None, None) => true,
        _ => false,
    }
}

/// Draw the gauge, or hide it: nothing observed yet is not the same as nothing
/// spent, and only a reading that carries a utilization gets a bar.
pub fn draw_quota(reading: &QuotaReading, stale: bool) -> (out: Option<GaugeFace>)
    ensures
        draws(out, *reading, stale),
{
    match &reading.headline {
        Some(rate) => Some(
            GaugeFace {
                used_percent: rate.used_percent,
                spent: reading.exhausted.is_some(),
                stale,
            },
        ),
        None => None,
    }
}

/// A span runs from now to its moment, and a moment that has passed has none;
/// an age runs from the observation to now.
pub proof fn a_span_reaches_its_moment(
    out: QuotaSpans,
    observed: QuotaSnapshot,
    standing: Standing,
    now: u64,
)
    requires
        spans_at(out, observed, standing, now),
    ensures
        out.session matches Some(n) ==> observed.session.window.reset == Some((now + n) as u64),
        out.weekly matches Some(n) ==> observed.weekly.window.reset == Some((now + n) as u64),
        observed.session.window.reset matches Some(at) ==> (out.session is Some <==> at >= now),
        observed.weekly.window.reset matches Some(at) ==> (out.weekly is Some <==> at >= now),
        observed.observed_at matches Some(at) ==> (at <= now ==> out.age == Some(
            (now - at) as u64,
        )),
        observed.observed_at is None ==> out.age is None,
        standing.refusal is None ==> out.reopens is None,
        standing.refusal matches Some(refusal) ==> (refusal.until matches Some(at) ==> (at >= now
            ==> out.reopens == Some((at - now) as u64))),
        standing.headline matches Some(headline) ==> out.headline == headline.resets_in,
{
}

/// A reading says of each window its own share and its own reset, of a refusal
/// only what still stands, and of nothing that was not reported anything.
pub proof fn a_reading_keeps_the_windows_apart(
    out: QuotaReading,
    observed: QuotaSnapshot,
    standing: Standing,
    words: QuotaWords,
)
    requires
        reads(out, observed, standing, words),
    ensures
        out.exhausted is Some <==> standing.refusal is Some,
        out.exhausted matches Some(shown) ==> shown.reopens == words.reopens,
        out.session is Some <==> observed.session.utilization is Some,
        out.session matches Some(window) ==> (observed.session.utilization matches Some(used)
            && window.used_percent == used.percent && window.resets == words.session),
        out.weekly is Some <==> observed.weekly.utilization is Some,
        out.weekly matches Some(window) ==> (observed.weekly.utilization matches Some(used)
            && window.used_percent == used.percent && window.resets == words.weekly),
        out.headline is Some <==> standing.headline is Some,
        out.headline matches Some(shown) ==> (standing.headline matches Some(headline)
            && shown.used_percent == headline.used.percent && shown.label == headline.label
            && shown.resets == words.headline),
        out.age == words.age,
{
}

/// A gauge stands where a limit was read and nowhere else, filled as far as it
/// is used, and says that the pool is spent exactly while a refusal stands.
pub proof fn a_gauge_fills_as_far_as_used(
    out: Option<GaugeFace>,
    reading: QuotaReading,
    stale: bool,
)
    requires
        draws(out, reading, stale),
    ensures
        out is Some <==> reading.headline is Some,
        out matches Some(face) ==> (reading.headline matches Some(rate) && face.used_percent
            == rate.used_percent) && (face.spent <==> reading.exhausted is Some) && face.stale
            == stale,
{
}

/// The gauge's tooltip leads with a refusal, says each window that was reported
/// under its own name, falls back on the rate limit only where the plan said
/// nothing, and ends with whose pool it is.
pub proof fn a_tooltip_says_what_was_read(reading: QuotaReading, agent: Seq<char>)
    ensures
        reading.exhausted is Some ==> crate::text::begins_with(
            quota_lines(reading, agent)[0],
            "Out of quota"@,
        ),
        reading.session matches Some(window) ==> exists|i: int|
            0 <= i < quota_lines(reading, agent).len() && crate::text::begins_with(
                #[trigger] quota_lines(reading, agent)[i],
                "Session window "@ + decimal_of(window.used_percent as nat) + "% used"@,
            ),
        reading.weekly matches Some(window) ==> exists|i: int|
            0 <= i < quota_lines(reading, agent).len() && crate::text::begins_with(
                #[trigger] quota_lines(reading, agent)[i],
                "Weekly window "@ + decimal_of(window.used_percent as nat) + "% used"@,
            ),
        reading.exhausted is None && reading.session is None && reading.weekly is None ==> (
        reading.headline matches Some(rate) ==> crate::text::begins_with(
            quota_lines(reading, agent)[0],
            "API rate limit ("@ + rate.label@ + ") "@ + decimal_of(rate.used_percent as nat)
                + "% used"@,
        )),
        crate::text::holds_text(quota_lines(reading, agent).last(), agent),
{
    let lines = quota_lines(reading, agent);
    let refused = exhausted_lines(reading);
    let session = window_lines("Session"@, reading.session);
    let weekly = window_lines("Weekly"@, reading.weekly);
    let plan = refused + session + weekly;
    crate::text::lemma_holds_middle(
        "One pool: every environment here, and your own "@,
        agent,
        " use."@,
    );
    if plan.len() > 0 {
        assert forall|i: int| 0 <= i < plan.len() implies #[trigger] lines[i] == plan[i] by {
        }
    }
    if reading.exhausted is Some {
        let refusal = reading.exhausted->0;
        let when = match refusal.reopens {
            Some(when) => " — reopens "@ + when@,
            None => ""@,
        };
        assert(lines[0] == refused[0]);
        assert(("Out of quota"@ + when).subrange(0, "Out of quota"@.len() as int)
            =~= "Out of quota"@);
    }
    if reading.session is Some {
        let window = reading.session->0;
        let at = refused.len() as int;
        assert(plan[at] == session[0]);
        assert(lines[at] == session[0]);
        lemma_window_line("Session"@, "Session window "@, window);
    }
    if reading.weekly is Some {
        let window = reading.weekly->0;
        let at = (refused + session).len() as int;
        assert(plan[at] == weekly[0]);
        assert(lines[at] == weekly[0]);
        lemma_window_line("Weekly"@, "Weekly window "@, window);
    }
    if reading.exhausted is None && reading.session is None && reading.weekly is None
        && reading.headline is Some {
        let rate = reading.headline->0;
        assert(plan.len() == 0);
        assert(lines[0] == rate_lines(reading)[0]);
        let said = "API rate limit ("@ + rate.label@ + ") "@ + decimal_of(rate.used_percent as nat)
            + "% used"@;
        assert(rate_lines(reading)[0].subrange(0, said.len() as int) =~= said);
    }
}

proof fn lemma_window_line(name: Seq<char>, said: Seq<char>, window: WindowReading)
    requires
        name == "Session"@ && said == "Session window "@ || name == "Weekly"@ && said
            == "Weekly window "@,
    ensures
        window_lines(name, Some(window)).len() == 1,
        crate::text::begins_with(
            window_lines(name, Some(window))[0],
            said + decimal_of(window.used_percent as nat) + "% used"@,
        ),
{
    assert(name + " window "@ =~= said) by {
        reveal_strlit("Session");
        reveal_strlit("Session window ");
        reveal_strlit("Weekly");
        reveal_strlit("Weekly window ");
        reveal_strlit(" window ");
    }
    let first = said + decimal_of(window.used_percent as nat) + "% used"@;
    let line = window_lines(name, Some(window))[0];
    assert(line == first + resets_shown(window.resets));
    assert(line.subrange(0, first.len() as int) =~= first);
}

} // verus!
