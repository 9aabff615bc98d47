//! What a save writes.

use vstd::prelude::*;
use crate::path::{written, TreePath};
use crate::text::{
    concat2, concat3, join_lines, joined, lemma_until, lemma_without_end_stops, lines, lines_of,
    texts, trim_end, trimmed_end, until, white, without_cr, without_end,
};

verus! {

/// A text's lines without white space at their ends, joined by line feeds.
pub open spec fn line_ends_trimmed(text: Seq<char>) -> Seq<char> {
    let lines = lines_of(text);
    joined(Seq::new(lines.len(), |i: int| trimmed_end(lines[i])))
}

/// A text that ends its last line.
pub open spec fn ended(text: Seq<char>) -> Seq<char> {
    if text.len() > 0 && text.last() == '\n' {
        text
    } else {
        text.push('\n')
    }
}

/// What is written under a file's policies.
pub open spec fn saved(text: Seq<char>, trim_trailing_ws: bool, final_newline: bool) -> Seq<char> {
    let body = if trim_trailing_ws {
        line_ends_trimmed(text)
    } else {
        text
    };
    if final_newline {
        ended(body)
    } else {
        body
    }
}

/// What a save writes of a buffer's text, under the file's policies.
pub fn save_text(text: &str, trim_trailing_ws: bool, final_newline: bool) -> (out: String)
    ensures
        out@ == saved(text@, trim_trailing_ws, final_newline),
{
    let mut body = if trim_trailing_ws {
        let all = lines(text);
        let mut kept: Vec<String> = Vec::new();
        let ghost wanted = Seq::new(lines_of(text@).len(), |i: int| trimmed_end(lines_of(text@)[i]));
        let mut i: usize = 0;
        while i < all.len()
            invariant
                texts(all@) == lines_of(text@),
                wanted == Seq::new(
                    lines_of(text@).len(),
                    |i: int| trimmed_end(lines_of(text@)[i]),
                ),
                i <= all@.len(),
                texts(kept@) == wanted.take(i as int),
            decreases all@.len() - i,
        {
            let ghost before = kept@;
            let line = trim_end(all[i].as_str());
            kept.push(line.to_owned());
            assert(texts(all@)[i as int] == all@[i as int]@);
            i += 1;
            assert(texts(kept@) =~= texts(before).push(wanted[i - 1]));
            assert(wanted.take(i as int) =~= wanted.take(i - 1).push(wanted[i - 1]));
        }
        assert(texts(all@).len() == all@.len());
        assert(wanted.take(i as int) =~= wanted);
        join_lines(&kept)
    } else {
        text.to_owned()
    };
    if final_newline {
        let n: usize = body.as_str().unicode_len();
        if n == 0 || body.as_str().get_char(n - 1) != '\n' {
            body.push('\n');
        }
    }
    body
}

/// A line that a save leaves as it is: nothing in it ends a line, and no white
/// space stands at its end.
pub open spec fn is_clean(line: Seq<char>) -> bool {
    &&& forall|j: int| 0 <= j < line.len() ==> line[j] != '\n'
    &&& line.len() > 0 ==> !white(line.last())
}

proof fn lemma_line_split(line: Seq<char>, rest: Seq<char>)
    requires
        forall|j: int| 0 <= j < line.len() ==> line[j] != '\n',
    ensures
        lines_of(line + "\n"@ + rest) == seq![without_cr(line)] + lines_of(rest),
{
    reveal_strlit("\n");
    let s = line + "\n"@ + rest;
    lemma_until(s, '\n');
    assert(s[line.len() as int] == '\n');
    assert forall|j: int| 0 <= j < line.len() implies s[j] != '\n' by {
        assert(s[j] == line[j]);
    }
    assert(until(s, '\n') == line.len());
    assert(s.subrange(0, line.len() as int) =~= line);
    assert(s.subrange(line.len() as int + 1, s.len() as int) =~= rest);
}

proof fn lemma_joined_front(lines: Seq<Seq<char>>)
    requires
        lines.len() >= 2,
    ensures
        joined(lines) == lines[0] + "\n"@ + joined(lines.subrange(1, lines.len() as int)),
    decreases lines.len(),
{
    let rest = lines.subrange(1, lines.len() as int);
    if lines.len() == 2 {
        assert(lines.drop_last().len() == 1);
        assert(lines.drop_last()[0] == lines[0]);
        assert(rest[0] == lines[1]);
        assert(joined(lines.drop_last()) == lines[0]);
        assert(joined(rest) == lines[1]);
    } else {
        lemma_joined_front(lines.drop_last());
        assert(lines.drop_last().subrange(1, lines.len() - 1) =~= rest.drop_last());
        assert(rest.last() == lines.last());
        assert(joined(lines) =~= lines[0] + "\n"@ + joined(rest));
    }
}

/// Clean lines, joined, are read back as clean lines, whether or not the last
/// of them is ended.
proof fn lemma_joined_lines_are_clean(lines: Seq<Seq<char>>, tail: Seq<char>)
    requires
        forall|i: int| 0 <= i < lines.len() ==> is_clean(#[trigger] lines[i]),
        tail == Seq::<char>::empty() || tail == "\n"@,
    ensures
        forall|i: int|
            0 <= i < lines_of(joined(lines) + tail).len() ==> is_clean(
                #[trigger] lines_of(joined(lines) + tail)[i],
            ),
    decreases lines.len(),
{
    reveal_strlit("\n");
    let s = joined(lines) + tail;
    if lines.len() <= 1 {
        let line = joined(lines);
        assert(is_clean(line)) by {
            if lines.len() == 1 {
                assert(is_clean(lines[0]));
            }
        }
        if tail.len() == 0 {
            assert(s =~= line);
            lemma_until(s, '\n');
        } else {
            assert(s =~= line + "\n"@ + Seq::<char>::empty());
            lemma_line_split(line, Seq::empty());
            assert(lines_of(s) =~= seq![line]);
        }
    } else {
        let rest = lines.subrange(1, lines.len() as int);
        lemma_joined_front(lines);
        assert forall|i: int| 0 <= i < rest.len() implies is_clean(#[trigger] rest[i]) by {
            assert(rest[i] == lines[i + 1]);
        }
        lemma_joined_lines_are_clean(rest, tail);
        assert(is_clean(lines[0]));
        assert(s =~= lines[0] + "\n"@ + (joined(rest) + tail));
        lemma_line_split(lines[0], joined(rest) + tail);
        assert(without_cr(lines[0]) == lines[0]);
    }
}

proof fn lemma_lines_hold_no_feed(s: Seq<char>, i: int)
    requires
        0 <= i < lines_of(s).len(),
    ensures
        forall|j: int| 0 <= j < lines_of(s)[i].len() ==> lines_of(s)[i][j] != '\n',
    decreases s.len(),
{
    lemma_until(s, '\n');
    let n = until(s, '\n');
    if s.len() > 0 && n < s.len() && i > 0 {
        lemma_lines_hold_no_feed(s.subrange(n + 1, s.len() as int), i - 1);
    }
}

proof fn lemma_trimming_keeps_a_prefix(s: Seq<char>, drop: spec_fn(char) -> bool)
    ensures
        without_end(s, drop).len() <= s.len(),
        forall|j: int| 0 <= j < without_end(s, drop).len() ==> without_end(s, drop)[j] == s[j],
    decreases s.len(),
{
    if s.len() > 0 && drop(s[s.len() - 1]) {
        let shorter = s.subrange(0, s.len() - 1);
        lemma_trimming_keeps_a_prefix(shorter, drop);
        assert forall|j: int| 0 <= j < without_end(s, drop).len() implies without_end(s, drop)[j]
            == s[j] by {
            assert(without_end(shorter, drop)[j] == shorter[j]);
        }
    }
}

/// Whatever the buffer holds, a file saved under the trim policy has no line
/// with white space at its end.
pub proof fn no_saved_line_trails_white(text: Seq<char>, final_newline: bool)
    ensures
        forall|i: int|
            0 <= i < lines_of(saved(text, true, final_newline)).len() ==> is_clean(
                #[trigger] lines_of(saved(text, true, final_newline))[i],
            ),
{
    let all = lines_of(text);
    let kept = Seq::new(all.len(), |i: int| trimmed_end(all[i]));
    let drop = |c: char| white(c);
    assert forall|i: int| 0 <= i < kept.len() implies is_clean(#[trigger] kept[i]) by {
        lemma_lines_hold_no_feed(text, i);
        lemma_without_end_stops(all[i], drop);
        lemma_trimming_keeps_a_prefix(all[i], drop);
        assert(kept[i] == without_end(all[i], drop));
        assert forall|j: int| 0 <= j < kept[i].len() implies kept[i][j] != '\n' by {
            assert(kept[i][j] == all[i][j]);
        }
    }
    let body = joined(kept);
    reveal_strlit("\n");
    lemma_joined_lines_are_clean(kept, Seq::empty());
    lemma_joined_lines_are_clean(kept, "\n"@);
    assert(body + Seq::<char>::empty() =~= body);
    assert(body + "\n"@ =~= body.push('\n'));
}

/// A file saved under the final-newline policy ends its last line; and ending
/// it again changes nothing.
pub proof fn a_saved_file_ends_its_last_line(text: Seq<char>, trim_trailing_ws: bool)
    ensures
        saved(text, trim_trailing_ws, true).len() > 0,
        saved(text, trim_trailing_ws, true).last() == '\n',
        ended(saved(text, trim_trailing_ws, true)) == saved(text, trim_trailing_ws, true),
{
}

/// What a save comes to before anything is written.
pub open spec fn prepares(
    out: Result<String, String>,
    path: Seq<Seq<char>>,
    allowed: bool,
    text: Seq<char>,
    trim_trailing_ws: bool,
    final_newline: bool,
) -> bool {
    &&& match out {
        Ok(body) => allowed && body@ == saved(text, trim_trailing_ws, final_newline),
        Err(message) => !allowed && message@ == written(path)
            + " is read-only in safe mode (only devcontainer setup is editable until the devcontainer runs)"@,
    }
}

/// What a save comes to before anything is written: the text, or why not. In
/// safe mode only the devcontainer's setup is editable; `allowed` is what the
/// write policy says of this file.
pub fn prepare_save(
    path: &TreePath,
    allowed: bool,
    text: &str,
    trim_trailing_ws: bool,
    final_newline: bool,
) -> (out: Result<String, String>)
    ensures
        prepares(out, path@, allowed, text@, trim_trailing_ws, final_newline),
{
    if !allowed {
        let shown = path.show();
        return Err(
            concat2(
                shown.as_str(),
                " is read-only in safe mode (only devcontainer setup is editable until the devcontainer runs)",
            ),
        );
    }
    Ok(save_text(text, trim_trailing_ws, final_newline))
}

/// What a write that failed is called.
pub fn save_failure(path: &TreePath, reason: &str) -> (out: String)
    ensures
        out@ == "saving "@ + written(path@) + " failed: "@ + reason@,
{
    let shown = path.show();
    let mut text = concat3("saving ", shown.as_str(), " failed: ");
    text.append(reason);
    text
}

/// A file is written exactly where its write is allowed; a refusal names the
/// file and writes nothing.
pub proof fn only_an_allowed_file_is_written(
    out: Result<String, String>,
    path: Seq<Seq<char>>,
    allowed: bool,
    text: Seq<char>,
    trim_trailing_ws: bool,
    final_newline: bool,
)
    requires
        prepares(out, path, allowed, text, trim_trailing_ws, final_newline),
    ensures
        out is Ok <==> allowed,
        out matches Err(message) ==> crate::text::begins_with(message@, written(path)),
        out matches Ok(body) ==> (final_newline ==> body@.len() > 0 && body@.last() == '\n'),
        out matches Ok(body) ==> (!trim_trailing_ws && !final_newline ==> body@ == text),
        out matches Ok(body) ==> (!trim_trailing_ws && final_newline ==> body@ == text || body@
            == text.push('\n')),
        out matches Ok(body) ==> (!trim_trailing_ws && final_newline && text.len() > 0
            && text.last() == '\n' ==> body@ == text),
{
    if let Err(message) = out {
        assert(message@.subrange(0, written(path).len() as int) =~= written(path));
    }
}

/// A save changes no line but at its end: each line written is the buffer's
/// without the white space it ended in, one for one and in order.
pub proof fn a_save_keeps_every_line(text: Seq<char>) -> (written: Seq<Seq<char>>)
    ensures
        line_ends_trimmed(text) == joined(written),
        written.len() == lines_of(text).len(),
        forall|i: int|
            0 <= i < written.len() ==> {
                &&& crate::text::begins_with(lines_of(text)[i], #[trigger] written[i])
                &&& forall|k: int|
                    written[i].len() <= k < lines_of(text)[i].len() ==> white(lines_of(text)[i][k])
                &&& written[i].len() > 0 ==> !white(written[i].last())
            },
{
    let lines = lines_of(text);
    let written = Seq::new(lines.len(), |i: int| trimmed_end(lines[i]));
    assert forall|i: int| 0 <= i < written.len() implies {
        &&& crate::text::begins_with(lines[i], #[trigger] written[i])
        &&& forall|k: int| written[i].len() <= k < lines[i].len() ==> white(lines[i][k])
        &&& written[i].len() > 0 ==> !white(written[i].last())
    } by {
        let kept = crate::text::trimming_the_end_takes_white_space_alone(lines[i]);
        assert(written[i] == lines[i].subrange(0, kept));
    }
    written
}

} // verus!
