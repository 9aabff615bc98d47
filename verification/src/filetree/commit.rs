//! Writing a commit: the message, its suggestion, and what follows.

use vstd::prelude::*;
use crate::text::{
    begins_with, chars_of, concat2, holds_text, is_blank, lemma_blank, lemma_holds_end,
    lemma_without_end, lemma_without_end_stops, lemma_without_start, lines, lines_of, starts_with, string_of, texts, trim, trimmed, without_end, without_start,
};

verus! {

/// How much of the staged diff a suggestion is asked over, in bytes.
pub const SUGGESTION_DIFF_LIMIT: usize = 49152;

/// What asking for a suggestion does.
#[derive(Debug, PartialEq, Eq)]
pub enum Suggestion {
    /// Nothing is staged: the entry says so.
    StageFirst,
    /// Put this to the agent.
    Ask(String),
}

/// The words the agent is asked with, before the diff.
pub open spec fn suggestion_request() -> Seq<char> {
    "Suggest a concise git commit message (imperative mood, one line, no quotes or code fences) for these staged changes. Reply with ONLY the commit message.\n\n"@
}

/// What asking for a suggestion does.
pub open spec fn suggests(diff: Seq<char>, out: Suggestion) -> bool {
    &&& out is StageFirst <==> trimmed(diff).len() == 0
    &&& out matches Suggestion::Ask(prompt) ==> prompt@ == suggestion_request() + diff
}

/// Ask for a commit message describing the staged diff. A blank diff is
/// nothing to describe.
pub fn suggest_commit_message(diff: &str) -> (out: Suggestion)
    ensures
        suggests(diff@, out),
{
    if trim(diff).is_empty() {
        return Suggestion::StageFirst;
    }
    Suggestion::Ask(
        concat2(
            "Suggest a concise git commit message (imperative mood, one line, no quotes or code fences) for these staged changes. Reply with ONLY the commit message.\n\n",
            diff,
        ),
    )
}

/// A quote of any kind.
pub open spec fn is_quote(c: char) -> bool {
    c == '"' || c == '`' || c == '\''
}

/// `s` without quotes at either end.
pub open spec fn unquoted(s: Seq<char>) -> Seq<char> {
    without_end(without_start(s, |c: char| is_quote(c)), |c: char| is_quote(c))
}

/// A line that says something: neither blank nor a fence, once trimmed.
pub open spec fn says_something(line: Seq<char>) -> bool {
    trimmed(line).len() > 0 && !begins_with(trimmed(line), "```"@)
}

/// The first line that says something, trimmed and unquoted; empty where none
/// does.
pub open spec fn message_in(lines: Seq<Seq<char>>) -> Seq<char>
    decreases lines.len(),
{
    if lines.len() == 0 {
        Seq::empty()
    } else if says_something(lines[0]) {
        unquoted(trimmed(lines[0]))
    } else {
        message_in(lines.subrange(1, lines.len() as int))
    }
}

fn unquote(s: &str) -> (out: String)
    ensures
        out@ == unquoted(s@),
{
    let chars = chars_of(s);
    let ghost drop = |c: char| is_quote(c);
    let mut from: usize = 0;
    while from < chars.len() && (chars[from] == '"' || chars[from] == '`' || chars[from] == '\'')
        invariant
            from <= chars@.len(),
            chars@ == s@,
            drop == (|c: char| is_quote(c)),
            forall|j: int| 0 <= j < from ==> drop(s@[j]),
        decreases chars@.len() - from,
    {
        from += 1;
    }
    let mut to: usize = chars.len();
    while from < to && (chars[to - 1] == '"' || chars[to - 1] == '`' || chars[to - 1] == '\'')
        invariant
            from <= to <= chars@.len(),
            chars@ == s@,
            drop == (|c: char| is_quote(c)),
            forall|j: int| to <= j < s@.len() ==> drop(s@[j]),
        decreases to,
    {
        to -= 1;
    }
    proof {
        lemma_without_start(s@, drop, from as int);
        let mid = s@.subrange(from as int, s@.len() as int);
        lemma_without_end(mid, drop, to - from);
        assert(mid.subrange(0, to - from) =~= s@.subrange(from as int, to as int));
    }
    string_of(&chars, from, to)
}

/// Distill an agent reply into a single-line commit message: first non-empty,
/// non-fence line, unquoted.
pub fn clean_commit_message(reply: &str) -> (out: String)
    ensures
        out@ == message_in(lines_of(reply@)),
{
    let all = lines(reply);
    let ghost said = lines_of(reply@);
    let mut i: usize = 0;
    assert(said.subrange(0, said.len() as int) =~= said);
    assert(texts(all@).len() == all@.len());
    while i < all.len()
        invariant
            texts(all@) == said,
            said.len() == all@.len(),
            said == lines_of(reply@),
            i <= all@.len(),
            message_in(said) == message_in(said.subrange(i as int, said.len() as int)),
        decreases all@.len() - i,
    {
        let ghost rest = said.subrange(i as int, said.len() as int);
        assert(rest[0] == texts(all@)[i as int]);
        let line = trim(all[i].as_str());
        if !line.is_empty() && !starts_with(line, "```") {
            return unquote(line);
        }
        assert(rest.subrange(1, rest.len() as int) =~= said.subrange(i + 1, said.len() as int));
        i += 1;
    }
    String::new()
}

/// The message an agent's reply puts in the entry; `None` where the reply says
/// nothing and the entry stays as it is.
pub fn suggested_message(reply: &str) -> (out: Option<String>)
    ensures
        match out {
            Some(message) => message@.len() > 0 && message@ == message_in(lines_of(reply@)),
            None => message_in(lines_of(reply@)).len() == 0,
        },
{
    let message = clean_commit_message(reply);
    if message.as_str().is_empty() {
        None
    } else {
        Some(message)
    }
}

/// A reply of blank lines and fences alone gives no message, and any other
/// gives one line of what it said.
pub proof fn a_message_is_one_of_the_lines(lines: Seq<Seq<char>>)
    ensures
        (forall|i: int| 0 <= i < lines.len() ==> !says_something(#[trigger] lines[i]))
            ==> message_in(lines) == Seq::<char>::empty(),
        (exists|i: int| 0 <= i < lines.len() && says_something(#[trigger] lines[i])) ==> exists|
            i: int,
        |
            0 <= i < lines.len() && says_something(#[trigger] lines[i]) && message_in(lines)
                == unquoted(trimmed(lines[i])),
    decreases lines.len(),
{
    if lines.len() > 0 && !says_something(lines[0]) {
        let rest = lines.subrange(1, lines.len() as int);
        a_message_is_one_of_the_lines(rest);
        if forall|i: int| 0 <= i < lines.len() ==> !says_something(#[trigger] lines[i]) {
            assert forall|i: int| 0 <= i < rest.len() implies !says_something(#[trigger] rest[i]) by {
                assert(rest[i] == lines[i + 1]);
            }
        }
        if exists|i: int| 0 <= i < lines.len() && says_something(#[trigger] lines[i]) {
            let i = choose|i: int| 0 <= i < lines.len() && says_something(#[trigger] lines[i]);
            assert(rest[i - 1] == lines[i]);
            let k = choose|k: int|
                0 <= k < rest.len() && says_something(#[trigger] rest[k]) && message_in(rest)
                    == unquoted(trimmed(rest[k]));
            assert(lines[k + 1] == rest[k]);
        }
    }
}

/// What committing does with a message.
#[derive(Debug, PartialEq, Eq)]
pub enum CommitChoice {
    /// Blank: confirm first, in the panel, and commit with this if asked to.
    Confirm { anyway: &'static str },
    /// Commit with the message as written.
    Commit,
}

/// What committing does with a message.
pub open spec fn commits(message: Seq<char>, out: CommitChoice) -> bool {
    &&& match out {
        CommitChoice::Confirm { anyway } => trimmed(message).len() == 0 && anyway@
            == "(no message)"@,
        CommitChoice::Commit => trimmed(message).len() > 0,
    }
}

/// Whether a message is committed as it is, or confirmed first. Not a silent
/// refusal, and not a casual yes.
pub fn commit(message: &str) -> (out: CommitChoice)
    ensures
        commits(message@, out),
{
    if trim(message).is_empty() {
        CommitChoice::Confirm { anyway: "(no message)" }
    } else {
        CommitChoice::Commit
    }
}

/// What a commit leaves: the entry clears only once the commit exists.
pub fn commit_toast(result: &Result<(), String>) -> (out: Option<String>)
    ensures
        match (*result, out) {
            (Ok(()), None) => true,
            (Err(e), Some(text)) => text@ == "Commit failed: "@ + e@,
            _ => false,
        },
{
    match result {
        Ok(()) => None,
        Err(e) => Some(concat2("Commit failed: ", e.as_str())),
    }
}

/// A commit without a message is never made without asking, and one with a
/// message is never asked about.
pub proof fn only_a_blank_message_is_asked_about(message: Seq<char>, out: CommitChoice)
    requires
        commits(message, out),
    ensures
        out is Confirm <==> is_blank(message),
{
    lemma_blank(message);
}

/// A suggestion is asked for over the whole diff, and only where something is
/// staged.
pub proof fn a_suggestion_is_about_the_diff(diff: Seq<char>, out: Suggestion)
    requires
        suggests(diff, out),
    ensures
        out is StageFirst <==> is_blank(diff),
        out matches Suggestion::Ask(prompt) ==> holds_text(prompt@, diff),
{
    lemma_blank(diff);
    lemma_holds_end(suggestion_request(), diff);
}

/// A suggested message is one line without quotes at its ends, and never blank
/// lines or a fence.
pub proof fn a_suggested_message_is_clean(line: Seq<char>)
    requires
        says_something(line),
    ensures
        !is_blank(line),
        !begins_with(trimmed(line), "```"@),
        ({
            let message = unquoted(trimmed(line));
            message.len() > 0 ==> !is_quote(message[0]) && !is_quote(message.last())
        }),
{
    lemma_blank(line);
    let quote = |c: char| is_quote(c);
    let start = without_start(trimmed(line), quote);
    lemma_start_stops(trimmed(line), quote);
    lemma_without_end_stops(start, quote);
    lemma_end_is_prefix(start, quote);
}

proof fn lemma_start_stops(s: Seq<char>, drop: spec_fn(char) -> bool)
    ensures
        without_start(s, drop).len() > 0 ==> !drop(without_start(s, drop)[0]),
    decreases s.len(),
{
    if s.len() > 0 && drop(s[0]) {
        lemma_start_stops(s.subrange(1, s.len() as int), drop);
    }
}

proof fn lemma_end_is_prefix(s: Seq<char>, drop: spec_fn(char) -> bool)
    ensures
        without_end(s, drop).len() <= s.len(),
        without_end(s, drop).len() > 0 ==> without_end(s, drop)[0] == s[0],
    decreases s.len(),
{
    if s.len() > 0 && drop(s.last()) {
        lemma_end_is_prefix(s.drop_last(), drop);
    }
}

} // verus!
