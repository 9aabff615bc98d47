//! Adding a file to the ignores: an editable expression with live feedback,
//! and the rule it leaves behind.

use vstd::prelude::*;
use crate::filetree::actions::{guarded, Flow};
use crate::filetree::bulk::rel_path;
use crate::filetree::snapshot::{counted, plural, plural_ending};
use crate::filetree::tree::{FileTree, PaneKind};
use crate::path::{lies_in, shown_name, written, TreePath};
use crate::text::{
    chars_of, decimal_of, lemma_until, lemma_without_end_stops, lines, lines_of, same, texts, trim,
    trimmed, until, white, without_cr, without_start,
};

verus! {

/// `ignore::gitignore::Gitignore`, a matcher for a set of gitignore lines.
#[verifier::external_type_specification]
#[verifier::external_body]
pub struct ExGitignore(ignore::gitignore::Gitignore);

/// The files a matcher ignores, each by its path.
pub uninterp spec fn ignored_by(matcher: ignore::gitignore::Gitignore) -> Set<Seq<char>>;

/// Why a line cannot be matched with, in the matcher's words: refused as it
/// was added (`true`), or when the matcher was built.
pub uninterp spec fn line_fault(root: Seq<char>, line: Seq<char>) -> Option<(bool, Seq<char>)>;

/// Whether a gitignore line read at `root` ignores the file at `path`.
pub uninterp spec fn line_ignores(root: Seq<char>, line: Seq<char>, path: Seq<char>) -> bool;

/// How deep braces may nest in an expression. A matcher is compiled by
/// recursion on them, so the stack sets a limit.
pub const MAX_NESTED_BRACES: usize = 1000;

/// The braces that stand open at the end of a text, counted from above: a brace
/// behind a backslash or a bracket opens all the same and closes nothing, for
/// there it may be a plain character.
pub open spec fn open_braces(s: Seq<char>) -> nat
    decreases s.len(),
{
    if s.len() == 0 {
        0
    } else {
        let before = s.drop_last();
        if s.last() == '{' {
            open_braces(before) + 1
        } else if s.last() == '}' && open_braces(before) > 0 && !before.contains('\\')
            && !before.contains('[') {
            (open_braces(before) - 1) as nat
        } else {
            open_braces(before)
        }
    }
}

/// How deep the braces of a text nest at most.
pub open spec fn nested_braces(s: Seq<char>) -> nat
    decreases s.len(),
{
    if s.len() == 0 {
        0
    } else if nested_braces(s.drop_last()) > open_braces(s) {
        nested_braces(s.drop_last())
    } else {
        open_braces(s)
    }
}

/// Whether an entered expression can be tried: its braces nest no deeper than a
/// matcher can be compiled.
pub fn braces_fit(entered: &str) -> (r: bool)
    ensures
        r == (nested_braces(trimmed(entered@)) <= MAX_NESTED_BRACES),
{
    let chars = chars_of(trim(entered));
    let mut open: usize = 0;
    let mut deepest: usize = 0;
    let mut plain = true;
    let mut i: usize = 0;
    assert(chars@.take(0) =~= Seq::empty());
    while i < chars.len()
        invariant
            i <= chars@.len(),
            open <= i,
            deepest <= i,
            open == open_braces(chars@.take(i as int)),
            deepest == nested_braces(chars@.take(i as int)),
            plain == (!chars@.take(i as int).contains('\\') && !chars@.take(i as int).contains('[')),
        decreases chars@.len() - i,
    {
        let c = chars[i];
        let ghost before = chars@.take(i as int);
        let ghost now = chars@.take(i + 1);
        proof {
            assert(now.drop_last() =~= before);
            assert(now.last() == c);
            assert(now =~= before.push(c));
            lemma_push_contains(before, c, '\\');
            lemma_push_contains(before, c, '[');
        }
        if c == '{' {
            open += 1;
        } else if c == '}' && open > 0 && plain {
            open -= 1;
        } else if c == '\\' || c == '[' {
            plain = false;
        }
        if open > deepest {
            deepest = open;
        }
        i += 1;
    }
    assert(chars@.take(i as int) =~= chars@);
    deepest <= MAX_NESTED_BRACES
}

proof fn lemma_push_contains(s: Seq<char>, c: char, wanted: char)
    ensures
        s.push(c).contains(wanted) == (s.contains(wanted) || c == wanted),
{
    let all = s.push(c);
    if s.contains(wanted) {
        let i = choose|i: int| 0 <= i < s.len() && s[i] == wanted;
        assert(all[i] == wanted);
    }
    if c == wanted {
        assert(all[s.len() as int] == wanted);
    }
    if all.contains(wanted) {
        let i = choose|i: int| 0 <= i < all.len() && all[i] == wanted;
        if i < s.len() {
            assert(s[i] == wanted);
        }
    }
}

/// A line that holds no rule: an empty one, or a comment.
pub open spec fn holds_no_rule(line: Seq<char>) -> bool {
    line.len() == 0 || line[0] == '#'
}

/// Why an expression was refused.
#[derive(Debug, PartialEq, Eq)]
pub enum ExpressionFault {
    /// The line is no pattern.
    Line(String),
    /// The pattern could not be compiled.
    Build(String),
}

/// `GitignoreBuilder::new`, `add_line` and `build`: a matcher for one line read
/// at `root`. What it ignores is a function of the two, named [`line_ignores`];
/// where the line is refused, so is the reason, named [`line_fault`]. An empty
/// line and a comment are accepted and ignore nothing. Braces are compiled by
/// recursion, so their nesting is bounded.
#[verifier::external_body]
fn compile_line(root: &str, line: &str) -> (out: Result<
    ignore::gitignore::Gitignore,
    ExpressionFault,
>)
    requires
        nested_braces(line@) <= MAX_NESTED_BRACES,
    ensures
        match out {
            Ok(matcher) => line_fault(root@, line@) is None && forall|path: Seq<char>|
                #[trigger] ignored_by(matcher).contains(path) == line_ignores(root@, line@, path),
            Err(ExpressionFault::Line(text)) => line_fault(root@, line@) == Some((true, text@)),
            Err(ExpressionFault::Build(text)) => line_fault(root@, line@) == Some((false, text@)),
        },
        match out {
            Ok(matcher) => holds_no_rule(line@) ==> forall|path: Seq<char>|
                !(#[trigger] ignored_by(matcher).contains(path)),
            Err(_) => !holds_no_rule(line@),
        },
{
    let mut builder = ignore::gitignore::GitignoreBuilder::new(root);
    builder.add_line(None, line).map_err(|e| ExpressionFault::Line(e.to_string()))?;
    builder.build().map_err(|e| ExpressionFault::Build(e.to_string()))
}

/// `Gitignore::matched` on a file, and whether the match says to ignore it: a
/// function of the matcher and the path, so the matcher has a set of files that
/// it ignores, named [`ignored_by`].
#[verifier::external_body]
fn matcher_ignores(matcher: &ignore::gitignore::Gitignore, path: &str) -> (r: bool)
    ensures
        r == ignored_by(*matcher).contains(path@),
{
    matcher.matched(path, false).is_ignore()
}

/// How many of the files an expression ignores; a file outside the repository
/// is never counted.
pub open spec fn ignored_files(
    files: Seq<TreePath>,
    workdir: Seq<Seq<char>>,
    expr: Seq<char>,
) -> nat
    decreases files.len(),
{
    if files.len() == 0 {
        0
    } else {
        let path = files.last()@;
        ignored_files(files.drop_last(), workdir, expr) + if lies_in(path, workdir) && line_ignores(
            written(workdir),
            expr,
            written(path.subrange(workdir.len() as int, path.len() as int)),
        ) {
            1nat
        } else {
            0nat
        }
    }
}

/// What the user is told of a refused expression.
pub open spec fn fault_shown(fault: (bool, Seq<char>)) -> Seq<char> {
    if fault.0 {
        "invalid pattern: "@ + fault.1
    } else {
        fault.1
    }
}

/// Try an expression as it was entered, trimmed: whether it ignores the file it
/// started from, named as the repository sees it, and how many of the indexed
/// files it ignores. Without an index nothing is counted, and neither an emptied
/// entry nor a comment ignores anything.
pub fn evaluate_expression(
    workdir: &TreePath,
    target: &TreePath,
    files: &Option<Vec<TreePath>>,
    entered: &str,
) -> (out: Result<(bool, usize), String>)
    requires
        nested_braces(trimmed(entered@)) <= MAX_NESTED_BRACES,
    ensures
        ({
            let expr = trimmed(entered@);
            match out {
                Ok((hit, count)) => {
                    &&& line_fault(written(workdir@), expr) is None
                    &&& hit == line_ignores(written(workdir@), expr, written(target@))
                    &&& count == match *files {
                        Some(files) => ignored_files(files@, workdir@, expr),
                        None => 0,
                    }
                },
                Err(text) => {
                    &&& line_fault(written(workdir@), expr) is Some
                    &&& text@ == fault_shown(line_fault(written(workdir@), expr)->0)
                },
            }
        }),
        holds_no_rule(trimmed(entered@)) ==> (out matches Ok((hit, count)) && !hit && count == 0),
{
    let expr = trim(entered);
    let root = workdir.show();
    let matcher = match compile_line(root.as_str(), expr) {
        Ok(matcher) => matcher,
        Err(ExpressionFault::Line(text)) => {
            let mut told = "invalid pattern: ".to_owned();
            told.append(text.as_str());
            return Err(told);
        },
        Err(ExpressionFault::Build(text)) => {
            return Err(text);
        },
    };
    let label = target.show();
    let hit = matcher_ignores(&matcher, label.as_str());
    let mut count: usize = 0;
    if let Some(files) = files {
        let mut i: usize = 0;
        while i < files.len()
            invariant
                i <= files@.len(),
                count <= i,
                forall|path: Seq<char>|
                    #[trigger] ignored_by(matcher).contains(path) == line_ignores(
                        written(workdir@),
                        expr@,
                        path,
                    ),
                count == ignored_files(files@.take(i as int), workdir@, expr@),
            decreases files@.len() - i,
        {
            if let Some(rel) = files[i].strip_prefix(workdir) {
                let name = rel.show();
                if matcher_ignores(&matcher, name.as_str()) {
                    count += 1;
                }
            }
            i += 1;
            assert(files@.take(i as int).drop_last() =~= files@.take(i - 1));
        }
        assert(files@.take(i as int) =~= files@);
    }
    proof {
        if holds_no_rule(expr@) {
            let at = written(workdir@);
            assert forall|path: Seq<char>| !(#[trigger] line_ignores(at, expr@, path)) by {
                assert(!ignored_by(matcher).contains(path));
            }
            if let Some(files) = files {
                lemma_nothing_ignored(files@, workdir@, expr@);
            }
        }
    }
    Ok((hit, count))
}

proof fn lemma_nothing_ignored(files: Seq<TreePath>, workdir: Seq<Seq<char>>, expr: Seq<char>)
    requires
        forall|path: Seq<char>| !(#[trigger] line_ignores(written(workdir), expr, path)),
    ensures
        ignored_files(files, workdir, expr) == 0,
    decreases files.len(),
{
    if files.len() > 0 {
        lemma_nothing_ignored(files.drop_last(), workdir, expr);
    }
}

/// What the pane says of an expression, and whether it warns.
#[derive(Debug, PartialEq, Eq)]
pub struct Feedback {
    pub text: String,
    pub warning: bool,
}

/// What the pane says of an expression.
pub open spec fn feeds_back(out: Feedback, result: Result<(bool, usize), String>, target: Seq<Seq<char>>) -> bool {
    &&& match result {
        Ok((true, count)) => !out.warning && out.text@ == "Matches "@ + decimal_of(count as nat)
            + " file"@ + plural(count as nat) + " (including this one)"@,
        Ok((false, count)) => out.warning && out.text@ == "Does not match "@ + written(target)
            + " — matches "@ + decimal_of(count as nat) + " file"@ + plural(count as nat),
        Err(e) => out.warning && out.text@ == e@,
    }
}

/// The live feedback under the expression: a match count, and a warning when
/// it misses the file it started from or is no pattern at all.
pub fn expression_feedback(result: &Result<(bool, usize), String>, target: &TreePath) -> (out:
    Feedback)
    ensures
        feeds_back(out, *result, target@),
{
    match result {
        Ok((true, count)) => {
            let mut text = counted("Matches ", *count);
            text.append(" file");
            text.append(plural_ending(*count));
            text.append(" (including this one)");
            Feedback { text, warning: false }
        },
        Ok((false, count)) => {
            let mut text = "Does not match ".to_owned();
            let label = target.show();
            text.append(label.as_str());
            text.append(" — matches ");
            let digits = crate::text::decimal(*count as u64);
            text.append(digits.as_str());
            text.append(" file");
            text.append(plural_ending(*count));
            Feedback { text, warning: true }
        },
        Err(e) => Feedback { text: e.clone(), warning: true },
    }
}

/// What the pane opens with.
#[derive(Debug, PartialEq, Eq)]
pub struct IgnorePane {
    pub title: String,
    /// The expression that names exactly this file.
    pub expression: String,
}

impl FileTree {
    /// The pane for one file: its name in the title, and an expression anchored
    /// at the repository that matches it.
    pub fn ignore_intervention(&mut self, file: &TreePath) -> (out: Flow<IgnorePane>)
        ensures
            guarded(out, *old(self), old(self).workdir is Some),
            out !is Open ==> *final(self) == *old(self),
            out matches Flow::Open(pane) ==> {
                &&& pane.title@ == "Add to Ignores — "@ + shown_name(file@)
                &&& pane.expression@ == "/"@ + written(rel_path(old(self).workdir, file@))
                &&& *final(self) == (FileTree { pane: PaneKind::Adhoc, ..*old(self) })
            },
    {
        match self.git_flow() {
            Flow::Refused(text) => Flow::Refused(text),
            Flow::Nothing => Flow::Nothing,
            Flow::Open(_) => {
                let mut title = "Add to Ignores — ".to_owned();
                let name = file.display_name();
                title.append(name.as_str());
                let mut expression = "/".to_owned();
                let path = self.rel_of(file).show();
                expression.append(path.as_str());
                self.open_intervention();
                Flow::Open(IgnorePane { title, expression })
            },
        }
    }
}

/// A rule stands in an ignore file already.
pub open spec fn has_rule(content: Seq<char>, rule: Seq<char>) -> bool {
    exists|i: int| 0 <= i < lines_of(content).len() && trimmed(#[trigger] lines_of(content)[i]) == rule
}

/// An ignore file with one rule more, on a line of its own.
pub open spec fn with_rule_added(content: Seq<char>, rule: Seq<char>) -> Seq<char> {
    let start = if content.len() > 0 && content.last() != '\n' {
        content.push('\n')
    } else {
        content
    };
    (start + rule).push('\n')
}

/// The rule that an entered expression saves.
pub open spec fn enters_rule(entered: Seq<char>, out: Option<String>) -> bool {
    &&& match out {
        Some(rule) => trimmed(entered).len() > 0 && rule@ == trimmed(entered),
        None => trimmed(entered).len() == 0,
    }
}

/// The rule that an entered expression saves: the expression, trimmed. A blank
/// one saves nothing.
pub fn rule_entered(entered: &str) -> (out: Option<String>)
    ensures
        enters_rule(entered@, out),
{
    let rule = trim(entered);
    if rule.is_empty() {
        None
    } else {
        Some(rule.to_owned())
    }
}

/// An ignore file with a rule added.
pub open spec fn adds_rule(content: Seq<char>, rule: Seq<char>, out: Option<String>) -> bool {
    &&& match out {
        Some(text) => !has_rule(content, rule) && text@ == with_rule_added(content, rule),
        None => has_rule(content, rule),
    }
}

/// The ignore file with a rule added, or `None` where it stands there already
/// and nothing is to be written.
pub fn add_rule(content: &str, rule: &str) -> (out: Option<String>)
    ensures
        adds_rule(content@, rule@, out),
{
    let all = lines(content);
    let mut i: usize = 0;
    while i < all.len()
        invariant
            texts(all@) == lines_of(content@),
            i <= all@.len(),
            forall|j: int| 0 <= j < i ==> trimmed(#[trigger] lines_of(content@)[j]) != rule@,
        decreases all@.len() - i,
    {
        assert(texts(all@)[i as int] == all@[i as int]@);
        if same(trim(all[i].as_str()), rule) {
            assert(trimmed(lines_of(content@)[i as int]) == rule@);
            return None;
        }
        i += 1;
    }
    assert(texts(all@).len() == all@.len());
    let mut text = content.to_owned();
    let n: usize = content.unicode_len();
    if n > 0 && content.get_char(n - 1) != '\n' {
        text.push('\n');
    }
    text.append(rule);
    text.push('\n');
    Some(text)
}

/// Lines after a complete line are lines of their own.
proof fn lemma_lines_append(a: Seq<char>, b: Seq<char>)
    requires
        a.len() > 0 ==> a.last() == '\n',
    ensures
        lines_of(a + b) == lines_of(a) + lines_of(b),
    decreases a.len(),
{
    if a.len() == 0 {
        assert(a + b =~= b);
        assert(lines_of(a) + lines_of(b) =~= lines_of(b));
    } else {
        let n = until(a, '\n');
        lemma_until(a, '\n');
        lemma_until(a + b, '\n');
        let m = until(a + b, '\n');
        assert(a[a.len() - 1] == '\n');
        assert(n < a.len());
        assert((a + b)[n] == '\n');
        assert(m == n) by {
            if m < n {
                assert((a + b)[m] == a[m]);
            }
        }
        let rest = a.subrange(n + 1, a.len() as int);
        assert((a + b).subrange(0, n) =~= a.subrange(0, n));
        assert((a + b).subrange(n + 1, (a + b).len() as int) =~= rest + b);
        if rest.len() > 0 {
            assert(rest.last() == a.last());
        }
        lemma_lines_append(rest, b);
        let head = seq![without_cr(a.subrange(0, n))];
        assert(head + (lines_of(rest) + lines_of(b)) =~= (head + lines_of(rest)) + lines_of(b));
    }
}

/// White space at the end of a text is trimmed away.
proof fn lemma_trimmed_white(s: Seq<char>, c: char)
    requires
        white(c),
    ensures
        trimmed(s.push(c)) == trimmed(s),
    decreases s.len(),
{
    let longer = s.push(c);
    if s.len() == 0 {
        assert(longer.subrange(1, 1) =~= s);
    } else if white(s[0]) {
        let rest = s.subrange(1, s.len() as int);
        assert(longer.subrange(1, longer.len() as int) =~= rest.push(c));
        lemma_trimmed_white(rest, c);
    } else {
        assert(longer.subrange(0, longer.len() - 1) =~= s);
    }
}

/// Ending the last line leaves every line what it was, but for white space.
proof fn lemma_lines_ended(s: Seq<char>)
    requires
        s.len() > 0,
        s.last() != '\n',
    ensures
        lines_of(s.push('\n')).len() == lines_of(s).len(),
        forall|i: int|
            0 <= i < lines_of(s).len() ==> trimmed(#[trigger] lines_of(s.push('\n'))[i]) == trimmed(
                lines_of(s)[i],
            ),
    decreases s.len(),
{
    let ended = s.push('\n');
    let n = until(s, '\n');
    let m = until(ended, '\n');
    lemma_until(s, '\n');
    lemma_until(ended, '\n');
    assert(m == n) by {
        if m < n {
            assert(ended[m] == s[m]);
        }
        if n < m {
            assert(ended[n] == '\n');
        }
    }
    assert(ended.subrange(0, n) =~= s.subrange(0, n));
    if n < s.len() {
        let rest = s.subrange(n + 1, s.len() as int);
        assert(s[s.len() - 1] != '\n');
        assert(rest.last() == s.last());
        assert(ended.subrange(n + 1, ended.len() as int) =~= rest.push('\n'));
        lemma_lines_ended(rest);
        let head = seq![without_cr(s.subrange(0, n))];
        assert forall|i: int| 0 <= i < lines_of(s).len() implies trimmed(
            #[trigger] lines_of(ended)[i],
        ) == trimmed(lines_of(s)[i]) by {
            if i > 0 {
                assert(lines_of(ended)[i] == lines_of(rest.push('\n'))[i - 1]);
                assert(lines_of(s)[i] == lines_of(rest)[i - 1]);
            } else {
                assert(lines_of(ended)[0] == head[0] && lines_of(s)[0] == head[0]);
            }
        }
    } else {
        assert(ended.subrange(n + 1, ended.len() as int) =~= Seq::empty());
        assert(s.subrange(0, n) =~= s);
        assert(lines_of(Seq::<char>::empty()) =~= Seq::empty());
        assert(lines_of(ended) =~= seq![without_cr(s)]);
        if s.last() == '\r' {
            assert(s =~= without_cr(s).push('\r'));
            lemma_trimmed_white(without_cr(s), '\r');
        }
    }
}

/// A rule that was added stands in the file, so adding it again changes
/// nothing, and the rules that stood there still do. A rule is one trimmed
/// line.
pub proof fn an_added_rule_stands(content: Seq<char>, rule: Seq<char>)
    requires
        !rule.contains('\n'),
        trimmed(rule) == rule,
    ensures
        has_rule(with_rule_added(content, rule), rule),
        forall|other: Seq<char>| #[trigger]
            has_rule(content, other) ==> has_rule(with_rule_added(content, rule), other),
{
    let start = if content.len() > 0 && content.last() != '\n' {
        content.push('\n')
    } else {
        content
    };
    let last = rule.push('\n');
    assert((start + rule).push('\n') =~= start + last);
    lemma_lines_append(start, last);
    lemma_until(last, '\n');
    let n = until(last, '\n');
    assert(n == rule.len()) by {
        assert(last[rule.len() as int] == '\n');
        if n < rule.len() {
            assert(rule[n] == last[n]);
            assert(rule.contains('\n'));
        }
    }
    assert(last.subrange(0, n) =~= rule);
    assert(last.subrange(n + 1, last.len() as int) =~= Seq::empty());
    lemma_without_end_stops(without_start(rule, |c: char| white(c)), |c: char| white(c));
    assert(without_cr(rule) == rule);
    assert(lines_of(Seq::<char>::empty()) =~= Seq::empty());
    assert(lines_of(last) =~= seq![rule]);
    let all = lines_of(start + last);
    assert(all[lines_of(start).len() as int] == rule);
    if content.len() > 0 && content.last() != '\n' {
        lemma_lines_ended(content);
    }
    assert forall|other: Seq<char>| #[trigger] has_rule(content, other) implies has_rule(
        with_rule_added(content, rule),
        other,
    ) by {
        let i = choose|i: int|
            0 <= i < lines_of(content).len() && trimmed(#[trigger] lines_of(content)[i]) == other;
        assert(trimmed(lines_of(start)[i]) == other);
        assert(all[i] == lines_of(start)[i]);
    }
}

/// A line that is a rule: neither blank nor a comment.
pub open spec fn is_rule(line: Seq<char>) -> bool {
    let rule = trimmed(line);
    rule.len() > 0 && rule[0] != '#'
}

/// How many of the lines are rules.
pub open spec fn rules_in(lines: Seq<Seq<char>>) -> nat
    decreases lines.len(),
{
    if lines.len() == 0 {
        0
    } else {
        rules_in(lines.drop_last()) + if is_rule(lines.last()) {
            1nat
        } else {
            0nat
        }
    }
}

/// How many rules an ignore file holds.
pub fn count_rules(content: &str) -> (n: usize)
    ensures
        n == rules_in(lines_of(content@)),
{
    let all = lines(content);
    let mut n: usize = 0;
    let mut i: usize = 0;
    while i < all.len()
        invariant
            texts(all@) == lines_of(content@),
            i <= all@.len(),
            n <= i,
            n == rules_in(texts(all@).take(i as int)),
        decreases all@.len() - i,
    {
        let rule = trim(all[i].as_str());
        if !rule.is_empty() && rule.get_char(0) != '#' {
            n += 1;
        }
        i += 1;
        assert(texts(all@).take(i as int).drop_last() =~= texts(all@).take(i - 1));
        assert(texts(all@).take(i as int).last() == all@[i - 1]@);
    }
    assert(texts(all@).take(i as int) =~= texts(all@));
    n
}

/// What the user is told of a saved rule.
pub fn rule_toast(result: &Result<(), String>) -> (out: String)
    ensures
        out@ == match *result {
            Ok(()) => "Added to .gitignore"@,
            Err(e) => ".gitignore: "@ + e@,
        },
{
    match result {
        Ok(()) => "Added to .gitignore".to_owned(),
        Err(e) => {
            let mut text = ".gitignore: ".to_owned();
            text.append(e.as_str());
            text
        },
    }
}

/// An expression that misses the file it started from warns, and so does one
/// that is no pattern; one that hits it does not, and says how many it hits.
pub proof fn a_miss_warns(
    out: Feedback,
    result: Result<(bool, usize), String>,
    target: Seq<Seq<char>>,
)
    requires
        feeds_back(out, result, target),
    ensures
        out.warning <==> !(result matches Ok((hit, _)) && hit),
        result matches Err(e) ==> out.text@ == e@,
        result matches Ok((hit, count)) ==> crate::text::holds_text(
            out.text@,
            decimal_of(count as nat) + " file"@,
        ),
        result matches Ok((hit, count)) ==> (!hit ==> crate::text::holds_text(
            out.text@,
            written(target),
        )),
{
    if let Ok((hit, count)) = result {
        let said = decimal_of(count as nat) + " file"@;
        if hit {
            let back = plural(count as nat) + " (including this one)"@;
            assert(out.text@ =~= "Matches "@ + said + back);
            crate::text::lemma_holds_middle("Matches "@, said, back);
        } else {
            let name = written(target);
            let front = "Does not match "@ + name + " — matches "@;
            assert(out.text@ =~= front + said + plural(count as nat));
            crate::text::lemma_holds_middle(front, said, plural(count as nat));
            let rest = " — matches "@ + said + plural(count as nat);
            assert(out.text@ =~= "Does not match "@ + name + rest);
            crate::text::lemma_holds_middle("Does not match "@, name, rest);
        }
    }
}

/// A rule is written once: where it stands nothing is, and where it does not the
/// file keeps all it held and ends in the rule's own line.
pub proof fn a_rule_is_written_once(content: Seq<char>, rule: Seq<char>, out: Option<String>)
    requires
        adds_rule(content, rule, out),
    ensures
        out is None <==> exists|i: int|
            0 <= i < lines_of(content).len() && trimmed(#[trigger] lines_of(content)[i]) == rule,
        out matches Some(text) ==> {
            &&& crate::text::begins_with(text@, content)
            &&& text@.len() >= content.len() + rule.len() + 1
            &&& text@.last() == '\n'
            &&& text@.subrange(text@.len() - rule.len() - 1, text@.len() - 1) == rule
            &&& text@.len() > rule.len() + 1 ==> text@[text@.len() - rule.len() - 2] == '\n'
        },
{
    if let Some(text) = out {
        assert(text@.subrange(0, content.len() as int) =~= content);
        assert(text@.subrange(text@.len() - rule.len() - 1, text@.len() - 1) =~= rule);
    }
}

/// A blank expression saves nothing, and any other saves itself without the
/// blanks around it.
pub proof fn a_blank_expression_saves_nothing(entered: Seq<char>, out: Option<String>)
    requires
        enters_rule(entered, out),
    ensures
        out is None <==> crate::text::is_blank(entered),
        out matches Some(rule) ==> rule@ == trimmed(entered),
{
    crate::text::lemma_blank(entered);
}

/// What is counted of an ignore file are its rules: no blank line and no
/// comment, and nothing else is left out.
pub proof fn only_rules_are_counted(lines: Seq<Seq<char>>, line: Seq<char>)
    ensures
        crate::text::is_blank(line) ==> rules_in(lines.push(line)) == rules_in(lines),
        trimmed(line).len() > 0 && trimmed(line)[0] == '#' ==> rules_in(lines.push(line))
            == rules_in(lines),
        !crate::text::is_blank(line) && trimmed(line)[0] != '#' ==> rules_in(lines.push(line))
            == rules_in(lines) + 1,
        rules_in(Seq::empty()) == 0,
{
    crate::text::lemma_blank(line);
    assert(lines.push(line).drop_last() =~= lines);
}

/// What an expression ignores is counted file by file, and never outside the
/// repository.
pub proof fn only_files_inside_are_counted(
    files: Seq<TreePath>,
    file: TreePath,
    workdir: Seq<Seq<char>>,
    expr: Seq<char>,
)
    ensures
        !lies_in(file@, workdir) ==> ignored_files(files.push(file), workdir, expr)
            == ignored_files(files, workdir, expr),
        lies_in(file@, workdir) ==> ignored_files(files.push(file), workdir, expr) == ignored_files(
            files,
            workdir,
            expr,
        ) + if line_ignores(
            written(workdir),
            expr,
            written(file@.subrange(workdir.len() as int, file@.len() as int)),
        ) {
            1nat
        } else {
            0nat
        },
        ignored_files(Seq::empty(), workdir, expr) == 0,
{
    assert(files.push(file).drop_last() =~= files);
}

/// A refused expression is told as one, with the matcher's own words; a line
/// that is no pattern is said to be none.
pub proof fn a_refused_expression_says_why(fault: (bool, Seq<char>))
    ensures
        crate::text::holds_text(fault_shown(fault), fault.1),
        fault.0 ==> fault_shown(fault) == "invalid pattern: "@ + fault.1,
        !fault.0 ==> fault_shown(fault) == fault.1,
{
    if fault.0 {
        crate::text::lemma_holds_end("invalid pattern: "@, fault.1);
    } else {
        assert(fault.1 =~= Seq::<char>::empty() + fault.1);
        crate::text::lemma_holds_end(Seq::empty(), fault.1);
    }
}

/// Braces nest as deep as they stand open at once: each that opens nests one
/// deeper, and a text without one nests none.
pub proof fn braces_nest_as_they_open(s: Seq<char>)
    ensures
        open_braces(s.push('{')) == open_braces(s) + 1,
        nested_braces(s) >= open_braces(s),
        nested_braces(s.push('{')) >= nested_braces(s),
        nested_braces(s.push('{')) > open_braces(s),
        !s.contains('{') ==> nested_braces(s) == 0,
        open_braces(s) > 0 && !s.contains('\\') && !s.contains('[') ==> open_braces(s.push('}'))
            == open_braces(s) - 1,
        open_braces(s) == 0 || s.contains('\\') || s.contains('[') ==> open_braces(s.push('}'))
            == open_braces(s),
        forall|c: char|
            c != '{' && c != '}' ==> #[trigger] open_braces(s.push(c)) == open_braces(s),
    decreases s.len(),
{
    assert(s.push('{').drop_last() =~= s);
    assert(s.push('}').drop_last() =~= s);
    assert forall|c: char| c != '{' && c != '}' implies #[trigger] open_braces(s.push(c))
        == open_braces(s) by {
        assert(s.push(c).drop_last() =~= s);
    }
    if s.len() > 0 {
        let rest = s.drop_last();
        braces_nest_as_they_open(rest);
        if !s.contains('{') {
            assert forall|c: char| rest.contains(c) implies s.contains(c) by {
                let i = choose|i: int| 0 <= i < rest.len() && rest[i] == c;
                assert(s[i] == c);
            }
            assert(s.contains(s[s.len() - 1]));
        }
    }
}

} // verus!
