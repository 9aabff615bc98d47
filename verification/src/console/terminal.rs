//! Terminal tabs: where they run, what they are called, and how they end.

use vstd::prelude::*;
use crate::console::facts::Console;
use crate::environment::EnvironmentId;
use crate::envstrip::{title_of, title_shown};
use crate::fleet::FleetRow;
use crate::text::{
    chars_of, concat2, concat3, decimal, decimal_of, lemma_until, same, string_of, texts, trim,
    trimmed, until,
};

verus! {

/// How many seconds a finished command's tab stays before it closes itself.
pub const CLOSE_COUNTDOWN_SECS: i32 = 5;

/// Where a shell really runs.
#[derive(Debug, Clone, Copy, PartialEq, Eq, Structural)]
pub struct Whereabouts {
    /// In a devcontainer.
    pub in_devcontainer: bool,
    /// In the IDE's own container.
    pub inside_container: bool,
    /// That container is the project's.
    pub container_mode: bool,
}

/// A terminal tab as it opens.
#[derive(Debug, PartialEq, Eq)]
pub struct TerminalTab {
    pub title: String,
    pub icon: &'static str,
    /// It runs on the machine itself, and retires when the devcontainer
    /// attaches.
    pub on_host: bool,
}

/// A shell is named by where it really runs. One outside the devcontainer
/// carries a warning, unless the container around it is the project's own.
pub open spec fn names_shell(tab: TerminalTab, slug: Seq<char>, at: Whereabouts) -> bool {
    &&& tab.title@ == if at.in_devcontainer {
        if slug == EnvironmentId::primary_slug() {
            "devcontainer"@
        } else {
            slug
        }
    } else if at.inside_container {
        "IDE container"@
    } else {
        "this machine"@
    }
    &&& tab.icon@ == if at.in_devcontainer || (at.inside_container && at.container_mode) {
        "package-x-generic-symbolic"@
    } else if at.inside_container {
        "taste-container-warn"@
    } else {
        "taste-host-warn"@
    }
    &&& tab.on_host == (!at.in_devcontainer && !at.inside_container)
}

/// Where a new terminal opens.
pub open spec fn opens(
    out: NewTerminal,
    selected: Seq<char>,
    there: Option<Whereabouts>,
    home: Whereabouts,
) -> bool {
    &&& out.own == (selected != EnvironmentId::primary_slug() && there is Some)
    &&& out.env@ == if out.own {
        selected
    } else {
        EnvironmentId::primary_slug()
    }
    &&& names_shell(
        out.tab,
        out.env@,
        if out.own {
            there->0
        } else {
            home
        },
    )
}

/// A new terminal: the environment it counts for, whether it runs in that
/// environment's own context rather than the workspace's, and its tab.
#[derive(Debug, PartialEq, Eq)]
pub struct NewTerminal {
    pub env: EnvironmentId,
    pub own: bool,
    pub tab: TerminalTab,
}

impl Console {
    /// Open a shell in the selected environment, where that is one other than
    /// the primary and has somewhere of its own to run (`there`). Otherwise it
    /// opens where the IDE does (`home`), as the primary's: a shell there that
    /// claimed to be the environment's would be on the wrong files.
    pub fn add_terminal_tab(&self, there: Option<Whereabouts>, home: Whereabouts) -> (out:
        NewTerminal)
        ensures
            opens(out, self.selected@, there, home),
    {
        if let Some(at) = there {
            if !self.selected.is_primary() {
                let env = self.selected.clone();
                let tab = shell_tab(&env, at);
                return NewTerminal { env, own: true, tab };
            }
        }
        let env = EnvironmentId::primary();
        let tab = shell_tab(&env, home);
        NewTerminal { env, own: false, tab }
    }
}

fn shell_tab(env: &EnvironmentId, at: Whereabouts) -> (out: TerminalTab)
    ensures
        names_shell(out, env@, at),
{
    if at.in_devcontainer {
        let title = if env.is_primary() {
            "devcontainer".to_owned()
        } else {
            env.slug.clone()
        };
        TerminalTab { title, icon: "package-x-generic-symbolic", on_host: false }
    } else if at.inside_container {
        TerminalTab {
            title: "IDE container".to_owned(),
            icon: if at.container_mode {
                "package-x-generic-symbolic"
            } else {
                "taste-container-warn"
            },
            on_host: false,
        }
    } else {
        TerminalTab {
            title: "this machine".to_owned(),
            icon: "taste-host-warn",
            on_host: true,
        }
    }
}

/// Both halves of `user@host` are there.
pub open spec fn is_complete(title: Seq<char>) -> bool {
    let at = until(title, '@');
    0 < at && at + 1 < title.len()
}

/// The title a shell answers with.
pub open spec fn probes(output: Seq<char>, out: Option<String>) -> bool {
    &&& match out {
        Some(title) => title@ == trimmed(output) && is_complete(trimmed(output)),
        None => !is_complete(trimmed(output)),
    }
}

/// The title a shell's own context answers with, where it has both halves:
/// "dev@" helps nobody.
pub fn probed_title(output: &str) -> (out: Option<String>)
    ensures
        probes(output@, out),
{
    let title = trim(output);
    let chars = chars_of(title);
    let mut at: usize = 0;
    while at < chars.len() && chars[at] != '@'
        invariant
            chars@ == title@,
            at <= chars@.len(),
            forall|j: int| 0 <= j < at ==> chars@[j] != '@',
        decreases chars@.len() - at,
    {
        at += 1;
    }
    proof {
        lemma_until(title@, '@');
        let n = until(title@, '@');
        if n < at {
            assert(title@[n] == '@');
        }
        assert(n == at);
    }
    if 0 < at && at < chars.len() && at + 1 < chars.len() {
        Some(title.to_owned())
    } else {
        None
    }
}

/// What the button says that opens one more terminal.
pub fn new_terminal_tooltip(row: Option<&FleetRow>) -> (out: String)
    ensures
        out@ == match row {
            None => "New terminal in the selected environment"@,
            Some(row) => if row.primary || row.state is Running {
                "New terminal in "@ + title_shown(*row)
            } else {
                "New terminal for "@ + title_shown(*row)
                    + " — nothing is running there, so it opens where the IDE does"@
            },
        },
{
    match row {
        None => "New terminal in the selected environment".to_owned(),
        Some(row) => {
            let name = title_of(row);
            if row.primary || row.container_running() {
                concat2("New terminal in ", name.as_str())
            } else {
                concat3(
                    "New terminal for ",
                    name.as_str(),
                    " — nothing is running there, so it opens where the IDE does",
                )
            }
        },
    }
}

/// Whether a title says that its process has exited.
pub open spec fn says_exited(title: Seq<char>) -> bool {
    let mark = " (exited)"@;
    title.len() >= mark.len() && title.subrange(title.len() - mark.len(), title.len() as int)
        == mark
}

/// A title that says its process has exited, once.
pub open spec fn exited(title: Seq<char>) -> Seq<char> {
    if says_exited(title) {
        title
    } else {
        title + " (exited)"@
    }
}

/// A tab marked as exited.
pub open spec fn marks(out: (String, String), title: Seq<char>, what: Seq<char>) -> bool {
    &&& out.0@ == exited(title)
    &&& out.1@ == what + " — the output stays until you close this tab"@
}

/// Mark a terminal tab exited, in place: its title and its tooltip.
pub fn mark_tab_exited(title: &str, what: &str) -> (out: (String, String))
    ensures
        marks(out, title@, what@),
{
    let chars = chars_of(title);
    let mark = chars_of(" (exited)");
    let mut ends = false;
    if chars.len() >= mark.len() {
        let tail = string_of(&chars, chars.len() - mark.len(), chars.len());
        ends = same(tail.as_str(), " (exited)");
    }
    let shown = if ends {
        title.to_owned()
    } else {
        concat2(title, " (exited)")
    };
    (shown, concat2(what, " — the output stays until you close this tab"))
}

/// A tab is marked once, however often its process is said to have ended.
pub proof fn exiting_twice_marks_once(title: Seq<char>)
    ensures
        says_exited(exited(title)),
        exited(exited(title)) == exited(title),
{
    let mark = " (exited)"@;
    let shown = title + mark;
    assert(shown.subrange(shown.len() - mark.len(), shown.len() as int) =~= mark);
}

/// What a second of the countdown comes to.
#[derive(Debug, PartialEq, Eq)]
pub enum Countdown {
    /// The user asked to keep it.
    Kept,
    /// Close the tab.
    Close,
    /// Go on, with this on the toast.
    Left { seconds: i32, title: String },
}

/// What the countdown's toast says.
pub open spec fn countdown_title(what: Seq<char>, seconds: int) -> Seq<char> {
    what + " — closing this terminal in "@ + decimal_of(seconds as nat) + " s"@
}

/// What the countdown's toast says.
pub fn countdown_text(what: &str, seconds: i32) -> (out: String)
    requires
        seconds >= 0,
    ensures
        out@ == countdown_title(what@, seconds as int),
{
    let left = decimal(seconds as u64);
    let mut text = concat3(what, " — closing this terminal in ", left.as_str());
    text.append(" s");
    text
}

/// A second of the countdown.
pub open spec fn counts_down(out: Countdown, remaining: i32, keep: bool, what: Seq<char>) -> bool {
    &&& match out {
        Countdown::Kept => keep,
        Countdown::Close => !keep && remaining <= 1,
        Countdown::Left { seconds, title } => !keep && remaining > 1 && seconds == remaining - 1
            && title@ == countdown_title(what, seconds as int),
    }
}

/// A second of the countdown: the user may object; when none is left the tab
/// closes.
pub fn countdown_close(remaining: i32, keep: bool, what: &str) -> (out: Countdown)
    requires
        remaining >= 0,
    ensures
        counts_down(out, remaining, keep, what@),
{
    if keep {
        return Countdown::Kept;
    }
    if remaining <= 1 {
        return Countdown::Close;
    }
    let left: i32 = remaining - 1;
    Countdown::Left { seconds: left, title: countdown_text(what, left) }
}

/// How a command tab ended.
#[derive(Debug, PartialEq, Eq)]
pub enum CommandEnd {
    /// It failed: say so, and leave its output up.
    Failed { toast: String },
    /// It has nothing left to show: count down, under these words.
    Finished { what: String },
}

/// A whole number in decimal, signed.
pub open spec fn signed(n: int) -> Seq<char> {
    if n < 0 {
        "-"@ + decimal_of((-n) as nat)
    } else {
        decimal_of(n as nat)
    }
}

fn signed_text(n: i32) -> (out: String)
    ensures
        out@ == signed(n as int),
{
    if n < 0 {
        let digits = decimal((-(n as i64)) as u64);
        concat2("-", digits.as_str())
    } else {
        decimal(n as u64)
    }
}

/// What a command's end comes to.
pub open spec fn command_ends(out: CommandEnd, title: Seq<char>, status: i32) -> bool {
    &&& match out {
        CommandEnd::Failed { toast } => status != 0 && toast@ == title
            + " exited with status "@ + signed(status as int),
        CommandEnd::Finished { what } => status == 0 && what@ == title + " finished"@,
    }
}

/// What a command's end comes to.
pub fn command_exited(title: &str, status: i32) -> (out: CommandEnd)
    ensures
        command_ends(out, title@, status),
{
    if status != 0 {
        let code = signed_text(status);
        CommandEnd::Failed { toast: concat3(title, " exited with status ", code.as_str()) }
    } else {
        CommandEnd::Finished { what: concat2(title, " finished") }
    }
}

/// What a key does in a terminal.
#[derive(Debug, Clone, Copy, PartialEq, Eq, Structural)]
pub enum TerminalKey {
    Copy,
    Paste,
    /// The shell's own.
    Pass,
}

/// What a key does in a terminal.
pub open spec fn key_does(out: TerminalKey, key: char, control: bool, shift: bool) -> bool {
    &&& out == if control && shift && (key == 'C' || key == 'c') {
        TerminalKey::Copy
    } else if control && shift && (key == 'V' || key == 'v') {
        TerminalKey::Paste
    } else {
        TerminalKey::Pass
    }
}

/// What a key does in a terminal: with Control and Shift, C copies and V
/// pastes; everything else belongs to the shell.
pub fn terminal_key(key: char, control: bool, shift: bool) -> (out: TerminalKey)
    ensures
        key_does(out, key, control, shift),
{
    if !(control && shift) {
        return TerminalKey::Pass;
    }
    match key {
        'C' | 'c' => TerminalKey::Copy,
        'V' | 'v' => TerminalKey::Paste,
        _ => TerminalKey::Pass,
    }
}

/// What runs in a terminal: the program, then its arguments.
pub fn command_line(program: &str, args: &Vec<String>) -> (out: Vec<String>)
    ensures
        texts(out@) == seq![program@] + texts(args@),
{
    let mut out: Vec<String> = Vec::new();
    out.push(program.to_owned());
    let mut i: usize = 0;
    assert(texts(out@) =~= seq![program@] + texts(args@).take(0));
    while i < args.len()
        invariant
            i <= args@.len(),
            texts(out@) == seq![program@] + texts(args@).take(i as int),
        decreases args@.len() - i,
    {
        let ghost before = out@;
        out.push(args[i].clone());
        i += 1;
        assert(texts(out@) =~= texts(before).push(args@[i - 1]@));
        assert(seq![program@] + texts(args@).take(i as int) =~= (seq![program@] + texts(
            args@,
        ).take(i - 1)).push(args@[i - 1]@));
    }
    assert(texts(args@).take(i as int) =~= texts(args@));
    out
}

/// Variables by their names and values.
pub open spec fn vars_view(vars: Seq<(String, String)>) -> Seq<(Seq<char>, Seq<char>)> {
    Seq::new(vars.len(), |i: int| (vars[i].0@, vars[i].1@))
}

/// Whether a name is among some variables.
pub open spec fn names_var(vars: Seq<(Seq<char>, Seq<char>)>, name: Seq<char>) -> bool {
    exists|i: int| 0 <= i < vars.len() && (#[trigger] vars[i]).0 == name
}

/// Whether a session variable is handed on: one that the terminal or the
/// command does not set itself.
pub open spec fn passes_on(name: Seq<char>, extra: Seq<(Seq<char>, Seq<char>)>) -> bool {
    name != "TERM"@ && name != "COLORTERM"@ && !names_var(extra, name)
}

/// A variable as a process is handed it.
pub open spec fn assigned(var: (Seq<char>, Seq<char>)) -> Seq<char> {
    var.0 + "="@ + var.1
}

/// The first `n` session variables that are handed on.
pub open spec fn passed_on(
    session: Seq<(Seq<char>, Seq<char>)>,
    n: int,
    extra: Seq<(Seq<char>, Seq<char>)>,
) -> Seq<Seq<char>>
    decreases n,
{
    if n <= 0 {
        Seq::empty()
    } else if passes_on(session[n - 1].0, extra) {
        passed_on(session, n - 1, extra).push(assigned(session[n - 1]))
    } else {
        passed_on(session, n - 1, extra)
    }
}

/// The environment a terminal's process is started with.
pub open spec fn process_env(
    session: Seq<(Seq<char>, Seq<char>)>,
    extra: Seq<(Seq<char>, Seq<char>)>,
) -> Seq<Seq<char>> {
    passed_on(session, session.len() as int, extra) + seq![
        "TERM=xterm-256color"@,
        "COLORTERM=truecolor"@,
    ] + Seq::new(extra.len(), |i: int| assigned(extra[i]))
}

fn is_named(vars: &Vec<(String, String)>, name: &str) -> (r: bool)
    ensures
        r == names_var(vars_view(vars@), name@),
{
    let mut i: usize = 0;
    while i < vars.len()
        invariant
            i <= vars@.len(),
            forall|j: int| 0 <= j < i ==> (#[trigger] vars_view(vars@)[j]).0 != name@,
        decreases vars@.len() - i,
    {
        assert(vars_view(vars@)[i as int].0 == vars@[i as int].0@);
        if same(vars[i].0.as_str(), name) {
            assert(vars_view(vars@)[i as int].0 == name@);
            return true;
        }
        i += 1;
    }
    false
}

/// The environment a terminal's process is started with: the session's, with
/// the terminal's own kind and what the command asks for in place of what the
/// session says of those.
pub fn spawn_env(session: &Vec<(String, String)>, extra: &Vec<(String, String)>) -> (out: Vec<
    String,
>)
    ensures
        texts(out@) == process_env(vars_view(session@), vars_view(extra@)),
{
    let ghost from = vars_view(session@);
    let ghost own = vars_view(extra@);
    let mut out: Vec<String> = Vec::new();
    let mut i: usize = 0;
    assert(texts(out@) =~= passed_on(from, 0, own));
    while i < session.len()
        invariant
            i <= session@.len(),
            from == vars_view(session@),
            own == vars_view(extra@),
            texts(out@) == passed_on(from, i as int, own),
        decreases session@.len() - i,
    {
        let name = session[i].0.as_str();
        assert(from[i as int] == (session@[i as int].0@, session@[i as int].1@));
        if !same(name, "TERM") && !same(name, "COLORTERM") && !is_named(extra, name) {
            let ghost before = out@;
            out.push(concat3(name, "=", session[i].1.as_str()));
            assert(texts(out@) =~= texts(before).push(assigned(from[i as int])));
        }
        i += 1;
    }
    let ghost handed = texts(out@);
    let ghost kinds = seq!["TERM=xterm-256color"@, "COLORTERM=truecolor"@];
    out.push("TERM=xterm-256color".to_owned());
    out.push("COLORTERM=truecolor".to_owned());
    assert(texts(out@) =~= handed + kinds);
    let ghost asked = Seq::new(own.len(), |i: int| assigned(own[i]));
    let mut i: usize = 0;
    assert(texts(out@) =~= handed + kinds + asked.take(0));
    while i < extra.len()
        invariant
            i <= extra@.len(),
            own == vars_view(extra@),
            asked == Seq::new(own.len(), |i: int| assigned(own[i])),
            texts(out@) == handed + kinds + asked.take(i as int),
        decreases extra@.len() - i,
    {
        let ghost before = out@;
        assert(own[i as int] == (extra@[i as int].0@, extra@[i as int].1@));
        out.push(concat3(extra[i].0.as_str(), "=", extra[i].1.as_str()));
        i += 1;
        assert(texts(out@) =~= texts(before).push(asked[i - 1]));
        assert(handed + kinds + asked.take(i as int) =~= (handed + kinds + asked.take(
            i - 1,
        )).push(asked[i - 1]));
    }
    assert(asked.take(i as int) =~= asked);
    out
}

/// A line as a log takes it.
pub fn log_line(line: &str) -> (out: String)
    ensures
        out@ == line@ + "\n"@,
{
    concat2(line, "\n")
}

/// A shell opens in the environment it claims to be of: another environment's
/// only where that one is selected and has somewhere to run, and the user's own
/// otherwise.
pub proof fn a_shell_opens_where_it_says(
    out: NewTerminal,
    selected: Seq<char>,
    there: Option<Whereabouts>,
    home: Whereabouts,
)
    requires
        opens(out, selected, there, home),
    ensures
        selected == "primary"@ ==> !out.own && out.env@ == "primary"@,
        there is None ==> !out.own && out.env@ == "primary"@,
        selected != "primary"@ && there is Some ==> out.own && out.env@ == selected,
        !out.own ==> (out.tab.on_host <==> !home.in_devcontainer && !home.inside_container),
        out.own ==> (there matches Some(at) && (out.tab.on_host <==> !at.in_devcontainer
            && !at.inside_container)),
{
}

/// A tab says where its shell really runs, and warns of every place but the
/// project's own container.
pub proof fn a_tab_warns_outside_the_container(tab: TerminalTab, slug: Seq<char>, at: Whereabouts)
    requires
        names_shell(tab, slug, at),
    ensures
        at.in_devcontainer && slug == "primary"@ ==> tab.title@ == "devcontainer"@,
        at.in_devcontainer && slug != "primary"@ ==> tab.title@ == slug,
        !at.in_devcontainer && at.inside_container ==> tab.title@ == "IDE container"@,
        !at.in_devcontainer && !at.inside_container ==> tab.title@ == "this machine"@
            && tab.on_host && tab.icon@ == "taste-host-warn"@,
        at.in_devcontainer || at.inside_container ==> !tab.on_host,
        !at.in_devcontainer && at.inside_container && !at.container_mode ==> tab.icon@
            == "taste-container-warn"@,
        at.in_devcontainer ==> tab.icon@ == "package-x-generic-symbolic"@,
        !at.in_devcontainer && at.inside_container && at.container_mode ==> tab.icon@
            == "package-x-generic-symbolic"@,
{
}

/// A title is taken where it has someone before an `@` and somewhere behind it,
/// as it was answered, without blanks around it.
pub proof fn a_title_has_both_halves(
    output: Seq<char>,
    out: Option<String>,
    user: Seq<char>,
    host: Seq<char>,
)
    requires
        probes(output, out),
        trimmed(output) == user.push('@') + host,
        !user.contains('@'),
    ensures
        out is Some <==> user.len() > 0 && host.len() > 0,
        out matches Some(title) ==> title@ == user.push('@') + host,
{
    let title = trimmed(output);
    lemma_until(title, '@');
    let n = until(title, '@');
    assert(title[user.len() as int] == '@');
    if n < user.len() {
        assert(title[n] == user[n]);
        assert(user.contains(user[n]));
    }
    assert(n == user.len());
}

/// A tab whose process ended says so at the end of its title, whatever it was
/// called, and its tooltip says what happened.
pub proof fn a_tab_that_ended_says_so(out: (String, String), title: Seq<char>, what: Seq<char>)
    requires
        marks(out, title, what),
    ensures
        says_exited(out.0@),
        !says_exited(title) ==> out.0@ == title + " (exited)"@,
        says_exited(title) ==> out.0@ == title,
        crate::text::begins_with(out.1@, what),
{
    exiting_twice_marks_once(title);
    assert(out.1@.subrange(0, what.len() as int) =~= what);
}

/// A countdown runs down second by second and closes when it is out, unless the
/// user asked to keep the tab, which they may at any time.
pub proof fn a_countdown_runs_down(out: Countdown, remaining: i32, keep: bool, what: Seq<char>)
    requires
        counts_down(out, remaining, keep, what),
    ensures
        keep <==> out is Kept,
        !keep && remaining <= 1 ==> out is Close,
        !keep && remaining > 1 ==> (out matches Countdown::Left { seconds, title } && seconds + 1
            == remaining && crate::text::begins_with(title@, what) && crate::text::holds_text(
            title@,
            decimal_of(seconds as nat) + " s"@,
        )),
{
    if let Countdown::Left { seconds, title } = out {
        let lead = what + " — closing this terminal in "@;
        let said = decimal_of(seconds as nat) + " s"@;
        assert(title@ =~= lead + said);
        crate::text::lemma_holds_end(lead, said);
        assert(title@.subrange(0, what.len() as int) =~= what);
    }
}

/// A command that failed says so with its status and keeps its output; one that
/// did not is finished.
pub proof fn a_failed_command_keeps_its_output(out: CommandEnd, title: Seq<char>, status: i32)
    requires
        command_ends(out, title, status),
    ensures
        out is Failed <==> status != 0,
        out is Finished <==> status == 0,
        out matches CommandEnd::Failed { toast } ==> crate::text::begins_with(toast@, title)
            && crate::text::holds_text(toast@, signed(status as int)),
        status < 0 ==> signed(status as int) == "-"@ + decimal_of((-status) as nat),
        status >= 0 ==> signed(status as int) == decimal_of(status as nat),
        out matches CommandEnd::Finished { what } ==> what@ == title + " finished"@,
{
    if let CommandEnd::Failed { toast } = out {
        crate::text::lemma_holds_end(title + " exited with status "@, signed(status as int));
        assert(toast@.subrange(0, title.len() as int) =~= title);
    }
}

/// Only Control and Shift together take a key from the shell: C copies and V
/// pastes, in either case.
pub proof fn the_shell_keeps_its_keys(out: TerminalKey, key: char, control: bool, shift: bool)
    requires
        key_does(out, key, control, shift),
    ensures
        !control || !shift ==> out == TerminalKey::Pass,
        control && shift && (key == 'C' || key == 'c') ==> out == TerminalKey::Copy,
        control && shift && (key == 'V' || key == 'v') ==> out == TerminalKey::Paste,
        out == TerminalKey::Copy ==> key == 'C' || key == 'c',
        out == TerminalKey::Paste ==> key == 'V' || key == 'v',
{
}

proof fn lemma_passed_on(
    session: Seq<(Seq<char>, Seq<char>)>,
    n: int,
    extra: Seq<(Seq<char>, Seq<char>)>,
    k: int,
)
    requires
        0 <= k < n <= session.len(),
    ensures
        session[k].0 != "TERM"@ && session[k].0 != "COLORTERM"@ && (forall|i: int|
            0 <= i < extra.len() ==> (#[trigger] extra[i]).0 != session[k].0) ==> passed_on(
            session,
            n,
            extra,
        ).contains(session[k].0 + "="@ + session[k].1),
    decreases n,
{
    let before = passed_on(session, n - 1, extra);
    let all = passed_on(session, n, extra);
    let said = session[k].0 + "="@ + session[k].1;
    if session[k].0 != "TERM"@ && session[k].0 != "COLORTERM"@ && (forall|i: int|
        0 <= i < extra.len() ==> (#[trigger] extra[i]).0 != session[k].0) {
        if k < n - 1 {
            lemma_passed_on(session, n - 1, extra, k);
            let i = choose|i: int| 0 <= i < before.len() && before[i] == said;
            assert(all[i] == said);
        } else {
            assert(passes_on(session[k].0, extra));
            assert(all[all.len() - 1] == said);
        }
    }
}

proof fn lemma_passed_from(
    session: Seq<(Seq<char>, Seq<char>)>,
    n: int,
    extra: Seq<(Seq<char>, Seq<char>)>,
    at: int,
) -> (k: int)
    requires
        0 <= n <= session.len(),
        0 <= at < passed_on(session, n, extra).len(),
    ensures
        0 <= k < n,
        passed_on(session, n, extra)[at] == session[k].0 + "="@ + session[k].1,
        session[k].0 != "TERM"@ && session[k].0 != "COLORTERM"@,
        forall|i: int| 0 <= i < extra.len() ==> (#[trigger] extra[i]).0 != session[k].0,
    decreases n,
{
    let before = passed_on(session, n - 1, extra);
    if at < before.len() {
        lemma_passed_from(session, n - 1, extra, at)
    } else {
        assert(passes_on(session[n - 1].0, extra));
        assert forall|i: int| 0 <= i < extra.len() implies (#[trigger] extra[i]).0
            != session[n - 1].0 by {
            if extra[i].0 == session[n - 1].0 {
                assert(names_var(extra, session[n - 1].0));
            }
        }
        n - 1
    }
}

/// A terminal's process gets what the command asks for and the terminal's own
/// kind, and of the session every variable that neither of them sets.
pub proof fn a_process_gets_the_session_around_it(
    session: Seq<(Seq<char>, Seq<char>)>,
    extra: Seq<(Seq<char>, Seq<char>)>,
    k: int,
)
    ensures
        0 <= k < extra.len() ==> process_env(session, extra).contains(
            extra[k].0 + "="@ + extra[k].1,
        ),
        process_env(session, extra).contains("TERM=xterm-256color"@),
        process_env(session, extra).contains("COLORTERM=truecolor"@),
        0 <= k < session.len() && session[k].0 != "TERM"@ && session[k].0 != "COLORTERM"@ && (forall|
            i: int,
        |
            0 <= i < extra.len() ==> (#[trigger] extra[i]).0 != session[k].0) ==> process_env(
            session,
            extra,
        ).contains(session[k].0 + "="@ + session[k].1),
        process_env(session, extra).len() <= session.len() + 2 + extra.len(),
{
    let passed = passed_on(session, session.len() as int, extra);
    let all = process_env(session, extra);
    let own = seq!["TERM=xterm-256color"@, "COLORTERM=truecolor"@];
    assert(all[passed.len() as int] == own[0]);
    assert(all[passed.len() as int + 1] == own[1]);
    lemma_passed_len(session, session.len() as int, extra);
    if 0 <= k < extra.len() {
        assert(all[passed.len() + 2 + k] == extra[k].0 + "="@ + extra[k].1);
    }
    if 0 <= k < session.len() {
        lemma_passed_on(session, session.len() as int, extra, k);
        let said = session[k].0 + "="@ + session[k].1;
        if passed.contains(said) {
            let i = choose|i: int| 0 <= i < passed.len() && passed[i] == said;
            assert(all[i] == said);
        }
    }
}

proof fn lemma_passed_len(
    session: Seq<(Seq<char>, Seq<char>)>,
    n: int,
    extra: Seq<(Seq<char>, Seq<char>)>,
)
    requires
        0 <= n <= session.len(),
    ensures
        passed_on(session, n, extra).len() <= n,
    decreases n,
{
    if n > 0 {
        lemma_passed_len(session, n - 1, extra);
    }
}

/// What the session says of the terminal's kind, or of anything the command
/// sets, is not handed on: whatever stands before those was neither.
pub proof fn the_session_overrides_nothing(
    session: Seq<(Seq<char>, Seq<char>)>,
    extra: Seq<(Seq<char>, Seq<char>)>,
    at: int,
) -> (k: int)
    requires
        0 <= at < process_env(session, extra).len() - 2 - extra.len(),
    ensures
        0 <= k < session.len(),
        process_env(session, extra)[at] == session[k].0 + "="@ + session[k].1,
        session[k].0 != "TERM"@ && session[k].0 != "COLORTERM"@,
        forall|i: int| 0 <= i < extra.len() ==> (#[trigger] extra[i]).0 != session[k].0,
{
    let passed = passed_on(session, session.len() as int, extra);
    assert(process_env(session, extra)[at] == passed[at]);
    lemma_passed_from(session, session.len() as int, extra, at)
}

} // verus!
