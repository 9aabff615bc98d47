//! The changes face: what is different from the last commit, removals and
//! all, as lines to show.

use vstd::prelude::*;
use crate::fleet::text_view;
use crate::text::{chars_of, concat2, lemma_without_end, string_of, without_end};

verus! {

/// How many lines the changes face shows.
pub const MAX_DIFF_LINES: usize = 4000;

/// How many lines of context the changes face gives a cluster.
pub const DIFF_CONTEXT: usize = 3;

/// A line of a diff, as its kind and its text: `+` added, `-` removed, a space
/// for context.
pub type DiffLine = (char, String);

/// A diff's lines, by their kinds and texts.
pub open spec fn lines_view(lines: Seq<DiffLine>) -> Seq<(char, Seq<char>)> {
    Seq::new(lines.len(), |i: int| (lines[i].0, lines[i].1@))
}

/// The clusters of a diff, by their lines.
pub open spec fn hunks_view(hunks: Seq<Vec<DiffLine>>) -> Seq<Seq<(char, Seq<char>)>> {
    Seq::new(hunks.len(), |i: int| lines_view(hunks[i]@))
}

/// The kinds of line a cluster has.
pub open spec fn is_tag(kind: char) -> bool {
    kind == '+' || kind == '-' || kind == ' '
}

/// One side of a cluster: the texts of its context and of its lines of one
/// kind, in order.
pub open spec fn side(hunk: Seq<(char, Seq<char>)>, kind: char) -> Seq<char>
    decreases hunk.len(),
{
    if hunk.len() == 0 {
        Seq::empty()
    } else {
        let line = hunk.last();
        side(hunk.drop_last(), kind) + if line.0 == ' ' || line.0 == kind {
            line.1
        } else {
            Seq::empty()
        }
    }
}

/// One side of the first `n` clusters, between the stretches that the texts
/// share.
pub open spec fn woven(
    shared: Seq<Seq<char>>,
    hunks: Seq<Seq<(char, Seq<char>)>>,
    kind: char,
    n: int,
) -> Seq<char>
    decreases n,
{
    if n <= 0 {
        shared[0]
    } else {
        woven(shared, hunks, kind, n - 1) + side(hunks[n - 1], kind) + shared[n]
    }
}

/// Whether the clusters tell two texts apart over the stretches given: around
/// and between the clusters both texts are the same, and within a cluster its
/// context and its removed lines are the old text's, its context and its added
/// lines the new one's.
pub open spec fn tells_over(
    old: Seq<char>,
    new: Seq<char>,
    hunks: Seq<Seq<(char, Seq<char>)>>,
    shared: Seq<Seq<char>>,
) -> bool {
    &&& shared.len() == hunks.len() + 1
    &&& old == woven(shared, hunks, '-', hunks.len() as int)
    &&& new == woven(shared, hunks, '+', hunks.len() as int)
}

/// Whether the clusters tell two texts apart.
pub open spec fn tells_apart(
    old: Seq<char>,
    new: Seq<char>,
    hunks: Seq<Seq<(char, Seq<char>)>>,
) -> bool {
    exists|shared: Seq<Seq<char>>| tells_over(old, new, hunks, shared)
}

/// The clusters of changes between two texts, each with so many lines of
/// context, as `similar`'s line diff groups them.
pub uninterp spec fn line_hunks(old: Seq<char>, new: Seq<char>, context: usize) -> Seq<Seq<(char, Seq<char>)>>;

/// `similar::TextDiff::from_lines`, its operations grouped by `grouped_ops`
/// and expanded by `iter_changes`. No deadline is set, so the clusters are a
/// function of the two texts and the context alone, named [`line_hunks`]; a line keeps its
/// terminator, and its kind is the change's tag. The lines are split without
/// loss and equal texts have no operation but one of equality, so there is no
/// cluster exactly where the texts are equal. A cluster is never empty: it holds
/// a change, or the context at which a neighbour was split off. The operations
/// run through both texts in order and skip only lines that are equal, so the
/// clusters tell the texts apart. Which of the possible edits is chosen is left
/// unsaid. The distinct lines are numbered with 32 bits.
#[verifier::external_body]
fn diff_hunks(old: &str, new: &str, context: usize) -> (out: Vec<Vec<DiffLine>>)
    requires
        0 < context,
        2 * context <= usize::MAX,
        old@.len() + new@.len() <= u32::MAX,
    ensures
        hunks_view(out@) == line_hunks(old@, new@, context),
        out@.len() == 0 <==> old@ == new@,
        forall|i: int| 0 <= i < out@.len() ==> (#[trigger] out@[i])@.len() > 0,
        tells_apart(old@, new@, hunks_view(out@)),
        forall|i: int, j: int|
            0 <= i < out@.len() && 0 <= j < out@[i]@.len() ==> is_tag((#[trigger] out@[i]@[j]).0),
{
    let diff = similar::TextDiff::from_lines(old, new);
    let line = |change: similar::Change<&str>| match change.tag() {
        similar::ChangeTag::Insert => ('+', change.value().to_string()),
        similar::ChangeTag::Delete => ('-', change.value().to_string()),
        similar::ChangeTag::Equal => (' ', change.value().to_string()),
    };
    let groups = diff.grouped_ops(context);
    groups.iter().map(|ops| ops.iter().flat_map(|op| diff.iter_changes(op)).map(line).collect()).collect()
}

/// A text without the line feeds at its end.
pub open spec fn without_feeds(s: Seq<char>) -> Seq<char> {
    without_end(s, |c: char| c == '\n')
}

/// What the face shows of one cluster.
pub open spec fn hunk_lines(hunk: Seq<(char, Seq<char>)>) -> Seq<(char, Seq<char>)> {
    Seq::new(hunk.len(), |i: int| (hunk[i].0, without_feeds(hunk[i].1)))
}

/// A line of the face: whether it is a change or context, rather than the mark
/// between two clusters, and the line.
pub type FaceLine = (bool, (char, Seq<char>));

/// All that there is to show: the clusters in order, with a mark between them.
pub open spec fn all_lines(hunks: Seq<Seq<(char, Seq<char>)>>) -> Seq<FaceLine>
    decreases hunks.len(),
{
    if hunks.len() == 0 {
        Seq::empty()
    } else {
        let mark: Seq<FaceLine> = if hunks.len() > 1 {
            seq![(false, ('@', "⋯"@))]
        } else {
            Seq::empty()
        };
        let lines = hunk_lines(hunks.last());
        all_lines(hunks.drop_last()) + mark + Seq::new(lines.len(), |i: int| (true, lines[i]))
    }
}

/// Where the face is cut: at the first change or context line past the limit.
pub open spec fn is_cut(lines: Seq<FaceLine>, at: int) -> bool {
    &&& MAX_DIFF_LINES <= at < lines.len()
    &&& lines[at].0
    &&& forall|j: int| MAX_DIFF_LINES <= j < at ==> !(#[trigger] lines[j]).0
}

/// Lines without the note of what they are.
pub open spec fn bare(lines: Seq<FaceLine>) -> Seq<(char, Seq<char>)> {
    Seq::new(lines.len(), |i: int| lines[i].1)
}

/// What the face shows of some clusters: all of it, or as much as there is
/// room for and a note that it was cut; and a sentence where there is nothing.
pub open spec fn face_shows(shown: Seq<(char, Seq<char>)>, hunks: Seq<Seq<(char, Seq<char>)>>) -> bool {
    let all = all_lines(hunks);
    if all.len() == 0 {
        shown == seq![('@', "No changes since the last commit."@)]
    } else if exists|at: int| is_cut(all, at) {
        exists|at: int|
            #[trigger] is_cut(all, at) && shown == bare(all.take(at)).push(
                ('@', "… (diff truncated)"@),
            )
    } else {
        shown == bare(all)
    }
}

fn strip_feeds(s: &str) -> (out: String)
    ensures
        out@ == without_feeds(s@),
{
    let chars = chars_of(s);
    let ghost drop = |c: char| c == '\n';
    let mut to: usize = chars.len();
    while 0 < to && chars[to - 1] == '\n'
        invariant
            chars@ == s@,
            to <= chars@.len(),
            forall|j: int| to <= j < chars@.len() ==> chars@[j] == '\n',
        decreases to,
    {
        to -= 1;
    }
    proof {
        lemma_without_end(s@, drop, to as int);
    }
    string_of(&chars, 0, to)
}

/// Lay a diff's clusters out as lines, as far as there is room.
pub fn show_hunks(hunks: &Vec<Vec<DiffLine>>) -> (out: Vec<DiffLine>)
    ensures
        face_shows(lines_view(out@), hunks_view(hunks@)),
{
    let mut out: Vec<DiffLine> = Vec::new();
    let ghost views = hunks_view(hunks@);
    let ghost all = all_lines(views);
    let mut index: usize = 0;
    proof {
        assert(views.take(0) =~= Seq::empty());
        assert(lines_view(out@) =~= bare(all_lines(views.take(0))));
    }
    while index < hunks.len()
        invariant
            views == hunks_view(hunks@),
            all == all_lines(views),
            index <= hunks@.len(),
            lines_view(out@) == bare(all_lines(views.take(index as int))),
            forall|j: int|
                MAX_DIFF_LINES <= j < all_lines(views.take(index as int)).len()
                    ==> !(#[trigger] all_lines(views.take(index as int))[j]).0,
        decreases hunks@.len() - index,
    {
        let ghost so_far = all_lines(views.take(index as int));
        let ghost next = views.take(index + 1);
        proof {
            assert(next.drop_last() =~= views.take(index as int));
            assert(next.last() == views[index as int]);
        }
        let ghost mark: Seq<FaceLine> = if index > 0 {
            seq![(false, ('@', "⋯"@))]
        } else {
            Seq::empty()
        };
        let ghost lines = hunk_lines(views[index as int]);
        let ghost body: Seq<FaceLine> = Seq::new(lines.len(), |i: int| (true, lines[i]));
        assert(all_lines(next) == so_far + mark + body);
        if index > 0 {
            let ghost before = out@;
            out.push(('@', "⋯".to_owned()));
            assert(lines_view(out@) =~= lines_view(before).push(('@', "⋯"@)));
        }
        assert(lines_view(out@) =~= bare(so_far + mark));
        assert(body.take(0) =~= Seq::empty());
        assert(so_far + mark + body.take(0) =~= so_far + mark);
        let hunk = &hunks[index];
        let mut i: usize = 0;
        while i < hunk.len()
            invariant
                views == hunks_view(hunks@),
                all == all_lines(views),
                index < hunks@.len(),
                hunk@ == hunks@[index as int]@,
                next == views.take(index + 1),
                i <= hunk@.len(),
                lines == hunk_lines(lines_view(hunk@)),
                body == Seq::new(lines.len(), |i: int| (true, lines[i])),
                all_lines(next) == so_far + mark + body,
                forall|j: int| MAX_DIFF_LINES <= j < (so_far + mark).len() ==> !(#[trigger] (
                so_far + mark)[j]).0,
                i > 0 ==> (so_far + mark).len() + i <= MAX_DIFF_LINES,
                lines_view(out@) == bare(so_far + mark + body.take(i as int)),
            decreases hunk@.len() - i,
        {
            if out.len() >= MAX_DIFF_LINES {
                proof {
                    let at = (so_far + mark).len() + i;
                    assert(lines_view(out@).len() == out@.len());
                    let upto = all_lines(next);
                    assert(upto[at as int].0);
                    lemma_all_lines_prefix(views, index + 1);
                    assert forall|j: int| MAX_DIFF_LINES <= j < at implies !(
                    #[trigger] all[j]).0 by {
                        assert(all[j] == upto[j]);
                        assert(upto[j] == (so_far + mark)[j]);
                    }
                    assert(all[at as int] == upto[at as int]);
                    assert(is_cut(all, at as int));
                    assert(all.take(at as int) =~= so_far + mark + body.take(i as int));
                }
                let ghost before = out@;
                out.push(('@', "… (diff truncated)".to_owned()));
                assert(lines_view(out@) =~= lines_view(before).push(
                    ('@', "… (diff truncated)"@),
                ));
                return out;
            }
            let ghost before = out@;
            let text = strip_feeds(hunk[i].1.as_str());
            out.push((hunk[i].0, text));
            i += 1;
            proof {
                assert(lines_view(hunk@)[i - 1] == (hunk@[i - 1].0, hunk@[i - 1].1@));
                assert(lines_view(out@) =~= lines_view(before).push(lines[i - 1]));
                assert(body.take(i as int) =~= body.take(i - 1).push(body[i - 1]));
                assert(bare(so_far + mark + body.take(i as int)) =~= bare(
                    so_far + mark + body.take(i - 1),
                ).push(lines[i - 1]));
            }
        }
        proof {
            assert(body.take(body.len() as int) =~= body);
            assert(so_far + mark + body == all_lines(next));
        }
        index += 1;
    }
    proof {
        assert(views.take(index as int) =~= views);
        assert(lines_view(out@).len() == out@.len());
        if exists|at: int| is_cut(all, at) {
            let at = choose|at: int| is_cut(all, at);
            assert(all[at].0);
        }
    }
    if out.len() == 0 {
        out.push(('@', "No changes since the last commit.".to_owned()));
        assert(lines_view(out@) =~= seq![('@', "No changes since the last commit."@)]);
    }
    out
}

proof fn lemma_all_lines_prefix(hunks: Seq<Seq<(char, Seq<char>)>>, n: int)
    requires
        0 <= n <= hunks.len(),
    ensures
        all_lines(hunks.take(n)).len() <= all_lines(hunks).len(),
        forall|j: int|
            0 <= j < all_lines(hunks.take(n)).len() ==> (#[trigger] all_lines(hunks)[j])
                == all_lines(hunks.take(n))[j],
    decreases hunks.len(),
{
    if n == hunks.len() {
        assert(hunks.take(n) =~= hunks);
    } else {
        lemma_all_lines_prefix(hunks.drop_last(), n);
        assert(hunks.drop_last().take(n) =~= hunks.take(n));
    }
}

proof fn lemma_all_lines_hold(hunks: Seq<Seq<(char, Seq<char>)>>, i: int)
    requires
        0 <= i < hunks.len(),
        hunks[i].len() > 0,
    ensures
        all_lines(hunks).len() > 0,
    decreases hunks.len(),
{
    if i < hunks.len() - 1 {
        lemma_all_lines_hold(hunks.drop_last(), i);
    }
}

proof fn lemma_all_lines_kinds(hunks: Seq<Seq<(char, Seq<char>)>>)
    requires
        forall|i: int, j: int|
            0 <= i < hunks.len() && 0 <= j < hunks[i].len() ==> is_tag((#[trigger] hunks[i][j]).0),
    ensures
        forall|j: int|
            0 <= j < all_lines(hunks).len() ==> is_tag((#[trigger] all_lines(hunks)[j]).1.0)
                || all_lines(hunks)[j].1 == ('@', "⋯"@),
    decreases hunks.len(),
{
    if hunks.len() > 0 {
        lemma_all_lines_kinds(hunks.drop_last());
        let lines = hunk_lines(hunks.last());
        assert forall|j: int| 0 <= j < lines.len() implies is_tag((#[trigger] lines[j]).0) by {
            assert(is_tag(hunks[hunks.len() - 1][j].0));
        }
        let before = all_lines(hunks.drop_last());
        let all = all_lines(hunks);
        let marks: int = if hunks.len() > 1 {
            1
        } else {
            0
        };
        assert forall|j: int| 0 <= j < all.len() implies is_tag((#[trigger] all[j]).1.0) || all[j].1
            == ('@', "⋯"@) by {
            if j < before.len() {
                assert(all[j] == before[j]);
            } else if j >= before.len() + marks {
                assert(all[j].1 == lines[j - before.len() - marks]);
            }
        }
    }
}

proof fn lemma_marks_apart(hunks: Seq<Seq<(char, Seq<char>)>>)
    requires
        forall|i: int| 0 <= i < hunks.len() ==> (#[trigger] hunks[i]).len() > 0,
    ensures
        all_lines(hunks).len() > 0 ==> all_lines(hunks).last().0,
        forall|j: int, k: int|
            0 <= j && k == j + 1 && k < all_lines(hunks).len() ==> (#[trigger] all_lines(hunks)[j]).0
                || (#[trigger] all_lines(hunks)[k]).0,
    decreases hunks.len(),
{
    if hunks.len() > 0 {
        lemma_marks_apart(hunks.drop_last());
        let before = all_lines(hunks.drop_last());
        let all = all_lines(hunks);
        assert(hunks.last().len() > 0);
        assert forall|j: int, k: int| 0 <= j && k == j + 1 && k < all.len() implies (
        #[trigger] all[j]).0 || (#[trigger] all[k]).0 by {
            if k < before.len() {
                assert(all[j] == before[j]);
                assert(all[k] == before[k]);
            } else if k == before.len() {
                assert(all[j] == before.last());
            }
        }
    }
}

/// The face stays bounded, however long the diff: the limit, at most one mark
/// past it, and the note that it was cut.
pub proof fn a_face_is_bounded(shown: Seq<(char, Seq<char>)>, hunks: Seq<Seq<(char, Seq<char>)>>)
    requires
        face_shows(shown, hunks),
        forall|i: int| 0 <= i < hunks.len() ==> (#[trigger] hunks[i]).len() > 0,
    ensures
        shown.len() <= MAX_DIFF_LINES + 2,
        shown.len() > MAX_DIFF_LINES ==> shown.last() == ('@', "… (diff truncated)"@),
{
    let all = all_lines(hunks);
    lemma_marks_apart(hunks);
    if all.len() > 0 {
        if exists|at: int| is_cut(all, at) {
            let at = choose|at: int|
                #[trigger] is_cut(all, at) && shown == bare(all.take(at)).push(
                    ('@', "… (diff truncated)"@),
                );
            if at > MAX_DIFF_LINES + 1 {
                assert(!all[MAX_DIFF_LINES as int].0);
                assert(!all[MAX_DIFF_LINES + 1].0);
            }
        } else if all.len() > MAX_DIFF_LINES {
            lemma_first_past(all, MAX_DIFF_LINES as int);
        }
    }
}

proof fn lemma_first_past(lines: Seq<FaceLine>, from: int)
    requires
        MAX_DIFF_LINES <= from < lines.len(),
        lines.last().0,
        forall|j: int| MAX_DIFF_LINES <= j < from ==> !(#[trigger] lines[j]).0,
    ensures
        exists|at: int| is_cut(lines, at),
    decreases lines.len() - from,
{
    if lines[from].0 {
        assert(is_cut(lines, from));
    } else {
        lemma_first_past(lines, from + 1);
    }
}

/// The lines of the changes face for two texts. It says that nothing changed
/// exactly where nothing did, and it is never longer than the limit, a mark and
/// a note.
pub fn diff_lines(old: &str, new: &str) -> (out: Vec<DiffLine>)
    requires
        old@.len() + new@.len() <= u32::MAX,
    ensures
        face_shows(lines_view(out@), line_hunks(old@, new@, DIFF_CONTEXT)),
        old@ == new@ <==> lines_view(out@) == seq![('@', "No changes since the last commit."@)],
        tells_apart(old@, new@, line_hunks(old@, new@, DIFF_CONTEXT)),
        out@.len() <= MAX_DIFF_LINES + 2,
{
    let hunks = diff_hunks(old, new, DIFF_CONTEXT);
    let out = show_hunks(&hunks);
    proof {
        let views = hunks_view(hunks@);
        let all = all_lines(views);
        assert forall|i: int| 0 <= i < views.len() implies (#[trigger] views[i]).len() > 0 by {
            assert(views[i].len() == hunks@[i]@.len());
        }
        a_face_is_bounded(lines_view(out@), views);
        if old@ == new@ {
            assert(views =~= Seq::empty());
        } else {
            assert(views[0].len() == hunks@[0]@.len());
            lemma_all_lines_hold(views, 0);
            assert forall|i: int, j: int|
                0 <= i < views.len() && 0 <= j < views[i].len() implies is_tag(
                (#[trigger] views[i][j]).0,
            ) by {
                assert(views[i][j].0 == hunks@[i]@[j].0);
            }
            lemma_all_lines_kinds(views);
            reveal_strlit("⋯");
            reveal_strlit("No changes since the last commit.");
            assert("⋯"@.len() != "No changes since the last commit."@.len());
            let shown = lines_view(out@);
            assert(all[0].1.0 != '@' || all[0].1.1 == "⋯"@);
            assert(shown[0] == all[0].1);
        }
    }
    out
}

/// A face that was cut says so in its last line, and it is cut no sooner than
/// the limit.
pub proof fn a_cut_face_says_so(shown: Seq<(char, Seq<char>)>, hunks: Seq<Seq<(char, Seq<char>)>>)
    requires
        face_shows(shown, hunks),
        exists|at: int| is_cut(all_lines(hunks), at),
    ensures
        shown.len() > MAX_DIFF_LINES,
        shown.last() == ('@', "… (diff truncated)"@),
{
}

/// A line as the face writes it.
pub open spec fn writes_line(out: Seq<char>, kind: char, text: Seq<char>) -> bool {
    &&& out == if kind == '@' {
        text + "\n"@
    } else {
        seq![kind] + " "@ + text + "\n"@
    }
}

/// A line as the face writes it.
pub fn diff_text(kind: char, text: &str) -> (out: String)
    ensures
        writes_line(out@, kind, text@),
{
    if kind == '@' {
        concat2(text, "\n")
    } else {
        let mut out = String::new();
        out.push(kind);
        assert(out@ =~= seq![kind]);
        out.append(" ");
        out.append(text);
        out.append("\n");
        out
    }
}

/// The style of a line.
pub open spec fn styles(out: Option<&str>, kind: char) -> bool {
    &&& text_view(out) == if kind == '+' {
        Some("ws-diff-add"@)
    } else if kind == '-' {
        Some("ws-diff-del"@)
    } else if kind == '@' {
        Some("ws-diff-meta"@)
    } else {
        None
    }
}

/// The style of a line, by its kind; context has none.
pub fn diff_tag(kind: char) -> (out: Option<&'static str>)
    ensures
        styles(out, kind),
{
    match kind {
        '+' => Some("ws-diff-add"),
        '-' => Some("ws-diff-del"),
        '@' => Some("ws-diff-meta"),
        _ => None,
    }
}

/// A line is written behind its own kind, and styled as added or removed by it;
/// a mark stands alone, and context has no style.
pub proof fn a_line_wears_its_kind(out: Seq<char>, style: Option<&str>, kind: char, text: Seq<char>)
    requires
        writes_line(out, kind, text),
        styles(style, kind),
    ensures
        crate::text::holds_text(out, text),
        out.len() > 0 && out.last() == '\n',
        kind != '@' ==> out.len() > 2 && out[0] == kind && out[1] == ' ',
        text_view(style) == Some("ws-diff-add"@) <==> kind == '+',
        text_view(style) == Some("ws-diff-del"@) <==> kind == '-',
        text_view(style) == Some("ws-diff-meta"@) <==> kind == '@',
        style is None <==> kind != '+' && kind != '-' && kind != '@',
{
    reveal_strlit("\n");
    reveal_strlit(" ");
    reveal_strlit("ws-diff-add");
    reveal_strlit("ws-diff-del");
    reveal_strlit("ws-diff-meta");
    assert("ws-diff-add"@.len() == 11 && "ws-diff-add"@[8] == 'a');
    assert("ws-diff-del"@.len() == 11 && "ws-diff-del"@[8] == 'd');
    assert("ws-diff-meta"@.len() == 12);
    if kind == '@' {
        assert(out =~= Seq::<char>::empty() + text + "\n"@);
        crate::text::lemma_holds_middle(Seq::empty(), text, "\n"@);
    } else {
        assert(out =~= (seq![kind] + " "@) + text + "\n"@);
        crate::text::lemma_holds_middle(seq![kind] + " "@, text, "\n"@);
    }
}

/// The face lays out every line of every cluster, with its kind and its text
/// but for the line feeds at its end.
pub proof fn every_change_is_laid_out(hunks: Seq<Seq<(char, Seq<char>)>>, k: int, j: int) -> (at: int)
    requires
        0 <= k < hunks.len(),
        0 <= j < hunks[k].len(),
    ensures
        0 <= at < all_lines(hunks).len(),
        all_lines(hunks)[at].0,
        all_lines(hunks)[at].1.0 == hunks[k][j].0,
        crate::text::begins_with(hunks[k][j].1, all_lines(hunks)[at].1.1),
        forall|i: int|
            all_lines(hunks)[at].1.1.len() <= i < hunks[k][j].1.len() ==> hunks[k][j].1[i] == '\n',
    decreases hunks.len(),
{
    let rest = hunks.drop_last();
    let before = all_lines(rest);
    let all = all_lines(hunks);
    if k < rest.len() {
        assert(rest[k] == hunks[k]);
        let at = every_change_is_laid_out(rest, k, j);
        assert(all[at] == before[at]);
        at
    } else {
        let lines = hunk_lines(hunks.last());
        let at = all.len() - lines.len() + j;
        assert(all[at] == (true, lines[j]));
        lemma_feeds(hunks[k][j].1);
        at
    }
}

proof fn lemma_feeds(s: Seq<char>)
    ensures
        crate::text::begins_with(s, without_feeds(s)),
        forall|i: int| without_feeds(s).len() <= i < s.len() ==> s[i] == '\n',
    decreases s.len(),
{
    if s.len() > 0 && s[s.len() - 1] == '\n' {
        let rest = s.subrange(0, s.len() - 1);
        lemma_feeds(rest);
        let kept = without_feeds(s);
        assert(kept == without_feeds(rest));
        assert(s.subrange(0, kept.len() as int) =~= rest.subrange(0, kept.len() as int));
        assert forall|i: int| kept.len() <= i < s.len() implies s[i] == '\n' by {
            if i < rest.len() {
                assert(rest[i] == s[i]);
            }
        }
    } else {
        assert(s.subrange(0, s.len() as int) =~= s);
    }
}

/// A face that is not cut shows all there is; a cut one shows it from its
/// beginning, line for line, up to the note that it was cut.
pub proof fn a_face_shows_from_the_beginning(
    shown: Seq<(char, Seq<char>)>,
    hunks: Seq<Seq<(char, Seq<char>)>>,
)
    requires
        face_shows(shown, hunks),
        all_lines(hunks).len() > 0,
    ensures
        forall|i: int|
            0 <= i < shown.len() - 1 ==> i < all_lines(hunks).len() && #[trigger] shown[i]
                == all_lines(hunks)[i].1,
        all_lines(hunks).len() <= 4000 ==> shown == bare(all_lines(hunks)),
{
    let all = all_lines(hunks);
    if exists|at: int| is_cut(all, at) {
        let at = choose|at: int|
            #[trigger] is_cut(all, at) && shown == bare(all.take(at)).push(
                ('@', "… (diff truncated)"@),
            );
        assert forall|i: int| 0 <= i < shown.len() - 1 implies i < all.len() && #[trigger] shown[i]
            == all[i].1 by {
            assert(shown[i] == bare(all.take(at))[i]);
        }
    }
}

/// A cluster that adds and removes nothing is the same on both sides, an added
/// line is the new side's alone and a removed one the old side's.
pub proof fn a_line_is_on_its_side(hunk: Seq<(char, Seq<char>)>, text: Seq<char>)
    ensures
        side(hunk.push(('+', text)), '+') == side(hunk, '+') + text,
        side(hunk.push(('+', text)), '-') == side(hunk, '-'),
        side(hunk.push(('-', text)), '-') == side(hunk, '-') + text,
        side(hunk.push(('-', text)), '+') == side(hunk, '+'),
        side(hunk.push((' ', text)), '+') == side(hunk, '+') + text,
        side(hunk.push((' ', text)), '-') == side(hunk, '-') + text,
        side(Seq::empty(), '+').len() == 0,
{
    assert(hunk.push(('+', text)).drop_last() =~= hunk);
    assert(hunk.push(('-', text)).drop_last() =~= hunk);
    assert(hunk.push((' ', text)).drop_last() =~= hunk);
    assert(side(hunk, '-') + Seq::<char>::empty() =~= side(hunk, '-'));
    assert(side(hunk, '+') + Seq::<char>::empty() =~= side(hunk, '+'));
}

/// Where nothing was added or removed nothing differs: clusters of context alone
/// tell no two texts apart, and no cluster at all tells none.
pub proof fn context_alone_tells_nothing_apart(
    old: Seq<char>,
    new: Seq<char>,
    hunks: Seq<Seq<(char, Seq<char>)>>,
)
    requires
        tells_apart(old, new, hunks),
        forall|i: int, j: int|
            0 <= i < hunks.len() && 0 <= j < hunks[i].len() ==> (#[trigger] hunks[i][j]).0 == ' ',
    ensures
        old == new,
{
    let shared = choose|shared: Seq<Seq<char>>| tells_over(old, new, hunks, shared);
    lemma_woven_alike(shared, hunks, hunks.len() as int);
}

proof fn lemma_woven_alike(
    shared: Seq<Seq<char>>,
    hunks: Seq<Seq<(char, Seq<char>)>>,
    n: int,
)
    requires
        n <= hunks.len(),
        forall|i: int, j: int|
            0 <= i < hunks.len() && 0 <= j < hunks[i].len() ==> (#[trigger] hunks[i][j]).0 == ' ',
    ensures
        woven(shared, hunks, '-', n) == woven(shared, hunks, '+', n),
    decreases n,
{
    if n > 0 {
        lemma_woven_alike(shared, hunks, n - 1);
        assert forall|j: int| 0 <= j < hunks[n - 1].len() implies (#[trigger] hunks[n - 1][j]).0
            == ' ' by {
        }
        lemma_side_alike(hunks[n - 1]);
    }
}

proof fn lemma_side_alike(hunk: Seq<(char, Seq<char>)>)
    requires
        forall|j: int| 0 <= j < hunk.len() ==> (#[trigger] hunk[j]).0 == ' ',
    ensures
        side(hunk, '-') == side(hunk, '+'),
    decreases hunk.len(),
{
    if hunk.len() > 0 {
        let rest = hunk.drop_last();
        assert forall|j: int| 0 <= j < rest.len() implies (#[trigger] rest[j]).0 == ' ' by {
            assert(rest[j] == hunk[j]);
        }
        lemma_side_alike(rest);
        assert(hunk.last() == hunk[hunk.len() - 1]);
    }
}

} // verus!
