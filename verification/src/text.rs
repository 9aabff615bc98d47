//! Text helpers whose results are stated over sequences of characters.

use vstd::prelude::*;

verus! {

/// `String::push` appends one character to the end of the string.
pub assume_specification[ String::push ](s: &mut String, c: char)
    ensures
        final(s)@ == old(s)@.push(c),
;

/// The Unicode lowercase form of a text, as `str::to_lowercase` computes it.
pub uninterp spec fn unicode_lowercase(s: Seq<char>) -> Seq<char>;

/// Whether a text is all ASCII.
pub open spec fn all_ascii(s: Seq<char>) -> bool {
    forall|i: int| 0 <= i < s.len() ==> (#[trigger] s[i]) <= '\u{7f}'
}

/// An ASCII letter's lower case; any other character is its own.
pub open spec fn lower_ascii(c: char) -> char {
    if 'A' <= c <= 'Z' {
        (c as u32 + 32) as char
    } else {
        c
    }
}

/// An ASCII letter's upper case; any other character is its own.
pub open spec fn upper_ascii(c: char) -> char {
    if 'a' <= c <= 'z' {
        (c as u32 - 32) as char
    } else {
        c
    }
}

/// A text with its ASCII letters in lower case.
pub open spec fn ascii_lowercase(s: Seq<char>) -> Seq<char> {
    Seq::new(s.len(), |i: int| lower_ascii(s[i]))
}

/// A text with its ASCII letters in upper case.
pub open spec fn ascii_uppercase(s: Seq<char>) -> Seq<char> {
    Seq::new(s.len(), |i: int| upper_ascii(s[i]))
}

/// A text in lower case: letter by letter where it is all ASCII, and otherwise
/// as Unicode has it.
pub open spec fn lowered(s: Seq<char>) -> Seq<char> {
    if all_ascii(s) {
        ascii_lowercase(s)
    } else {
        unicode_lowercase(s)
    }
}

/// `str::to_lowercase`: the lowercase form is a function of the text alone. Of
/// an ASCII text it is its letters' lower case, one for one; of any other it is
/// named [`unicode_lowercase`], and a stretch of ASCII in such a text stands in
/// it in lower case. What the mapping is on other characters is left to the
/// Unicode tables of the standard library.
#[verifier::external_body]
pub(crate) fn lowercase(s: &str) -> (out: String)
    ensures
        out@ == if all_ascii(s@) {
            ascii_lowercase(s@)
        } else {
            unicode_lowercase(s@)
        },
        forall|i: int, j: int|
            0 <= i <= j <= s@.len() && all_ascii(#[trigger] s@.subrange(i, j)) ==> holds_text(
                out@,
                ascii_lowercase(s@.subrange(i, j)),
            ),
{
    s.to_lowercase()
}

proof fn lemma_case(c: char)
    requires
        c <= '\u{7f}',
    ensures
        upper_ascii(c) <= '\u{7f}',
        lower_ascii(upper_ascii(c)) == lower_ascii(c),
        white(upper_ascii(c)) == white(c),
{
}

/// Upper case does not show in lower case.
pub proof fn lemma_lowered_upper(s: Seq<char>)
    requires
        all_ascii(s),
    ensures
        all_ascii(ascii_uppercase(s)),
        lowered(ascii_uppercase(s)) == lowered(s),
{
    assert forall|i: int| 0 <= i < s.len() implies (#[trigger] ascii_uppercase(s)[i]) <= '\u{7f}'
        && lower_ascii(ascii_uppercase(s)[i]) == lower_ascii(s[i]) by {
        lemma_case(s[i]);
    }
    assert(lowered(ascii_uppercase(s)) =~= lowered(s));
}

/// A text that stands in another stands in it in lower case, where both are
/// ASCII.
pub proof fn lemma_lowered_holds(s: Seq<char>, needle: Seq<char>)
    requires
        all_ascii(s),
        holds_text(s, needle),
    ensures
        all_ascii(needle),
        holds_text(lowered(s), lowered(needle)),
{
    let at = choose|at: int| stands_at(s, needle, at);
    assert forall|i: int| 0 <= i < needle.len() implies (#[trigger] needle[i]) <= '\u{7f}' by {
        assert(needle[i] == s.subrange(at, at + needle.len())[i]);
        assert(s[at + i] <= '\u{7f}');
    }
    assert(lowered(s).subrange(at, at + needle.len()) =~= lowered(needle));
    assert(stands_at(lowered(s), lowered(needle), at));
}

/// Collects the characters of a string.
pub fn chars_of(s: &str) -> (out: Vec<char>)
    ensures
        out@ == s@,
{
    let mut out: Vec<char> = Vec::new();
    for c in it: s.chars()
        invariant
            out@ == s@.take(it.index() as int),
            it.seq() == s@,
    {
        out.push(c);
    }
    assert(s@.take(s@.len() as int) =~= s@);
    out
}

/// Builds a string out of the characters `from..to`.
pub fn string_of(chars: &Vec<char>, from: usize, to: usize) -> (out: String)
    requires
        from <= to <= chars@.len(),
    ensures
        out@ == chars@.subrange(from as int, to as int),
{
    let mut out = String::new();
    let mut i: usize = from;
    while i < to
        invariant
            from <= i <= to <= chars@.len(),
            out@ == chars@.subrange(from as int, i as int),
        decreases to - i,
    {
        out.push(chars[i]);
        i += 1;
        assert(chars@.subrange(from as int, i as int) =~= chars@.subrange(
            from as int,
            i - 1,
        ).push(chars@[i - 1]));
    }
    out
}

/// Two texts, one after the other.
pub fn concat2(a: &str, b: &str) -> (out: String)
    ensures
        out@ == a@ + b@,
{
    let mut out = a.to_owned();
    out.append(b);
    out
}

/// Three texts, one after the other.
pub fn concat3(a: &str, b: &str, c: &str) -> (out: String)
    ensures
        out@ == a@ + b@ + c@,
{
    let mut out = a.to_owned();
    out.append(b);
    out.append(c);
    out
}

/// Whether two texts hold the same characters.
pub fn same(a: &str, b: &str) -> (r: bool)
    ensures
        r == (a@ == b@),
{
    a.to_owned() == b.to_owned()
}

/// A text stands in any text that was put together around it.
pub proof fn lemma_holds_middle(before: Seq<char>, middle: Seq<char>, after: Seq<char>)
    ensures
        holds_text(before + middle + after, middle),
{
    let all = before + middle + after;
    assert(all.subrange(before.len() as int, (before.len() + middle.len()) as int) =~= middle);
    assert(stands_at(all, middle, before.len() as int));
}

/// A text stands in any text that ends with it.
pub proof fn lemma_holds_end(before: Seq<char>, end: Seq<char>)
    ensures
        holds_text(before + end, end),
{
    assert(before + end =~= before + end + Seq::empty());
    lemma_holds_middle(before, end, Seq::empty());
}

/// A slice of strings, as a sequence of texts.
pub open spec fn texts(v: Seq<String>) -> Seq<Seq<char>> {
    Seq::new(v.len(), |i: int| v[i]@)
}

/// Whether `needle` stands in `s` at position `at`.
pub open spec fn stands_at(s: Seq<char>, needle: Seq<char>, at: int) -> bool {
    0 <= at && at + needle.len() <= s.len() && s.subrange(at, at + needle.len()) == needle
}

/// Whether `s` begins with `prefix`.
pub open spec fn begins_with(s: Seq<char>, prefix: Seq<char>) -> bool {
    stands_at(s, prefix, 0)
}

/// Whether `needle` occurs anywhere in `s`.
pub open spec fn holds_text(s: Seq<char>, needle: Seq<char>) -> bool {
    exists|at: int| stands_at(s, needle, at)
}

fn stands_at_exec(s: &Vec<char>, needle: &Vec<char>, at: usize) -> (r: bool)
    requires
        at + needle@.len() <= s@.len(),
    ensures
        r == stands_at(s@, needle@, at as int),
{
    let total: usize = s.len();
    let mut i: usize = 0;
    while i < needle.len()
        invariant
            total == s@.len(),
            at + needle@.len() <= s@.len(),
            i <= needle@.len(),
            forall|j: int| 0 <= j < i ==> s@[at + j] == needle@[j],
        decreases needle@.len() - i,
    {
        if s[at + i] != needle[i] {
            assert(s@.subrange(at as int, at + needle@.len())[i as int] != needle@[i as int]);
            return false;
        }
        i += 1;
    }
    assert(s@.subrange(at as int, at + needle@.len()) =~= needle@);
    true
}

/// Whether `s` begins with `prefix`.
pub fn starts_with(s: &str, prefix: &str) -> (r: bool)
    ensures
        r == begins_with(s@, prefix@),
{
    let s = chars_of(s);
    let prefix = chars_of(prefix);
    if prefix.len() > s.len() {
        false
    } else {
        stands_at_exec(&s, &prefix, 0)
    }
}

/// Whether `needle` occurs in `s`; the empty needle occurs everywhere.
pub fn contains(s: &str, needle: &str) -> (r: bool)
    ensures
        r == holds_text(s@, needle@),
{
    let hay = chars_of(s);
    let needle_chars = chars_of(needle);
    if needle_chars.len() > hay.len() {
        return false;
    }
    let last: usize = hay.len() - needle_chars.len();
    let mut at: usize = 0;
    while at <= last
        invariant
            hay@ == s@,
            needle_chars@ == needle@,
            last == hay@.len() - needle_chars@.len(),
            at <= last + 1,
            forall|j: int| 0 <= j < at ==> !stands_at(hay@, needle_chars@, j),
        decreases last + 1 - at,
    {
        if stands_at_exec(&hay, &needle_chars, at) {
            return true;
        }
        if at == last {
            assert forall|j: int| !stands_at(s@, needle@, j) by {
                if stands_at(s@, needle@, j) {
                    assert(j <= last);
                }
            }
            return false;
        }
        at += 1;
    }
    false
}

/// Unicode's White_Space property.
pub open spec fn white(c: char) -> bool {
    ||| '\u{9}' <= c <= '\u{d}'
    ||| c == ' '
    ||| c == '\u{85}'
    ||| c == '\u{a0}'
    ||| c == '\u{1680}'
    ||| '\u{2000}' <= c <= '\u{200a}'
    ||| c == '\u{2028}'
    ||| c == '\u{2029}'
    ||| c == '\u{202f}'
    ||| c == '\u{205f}'
    ||| c == '\u{3000}'
}

/// Whether a character has Unicode's White_Space property.
pub fn is_white(c: char) -> (r: bool)
    ensures
        r == white(c),
{
    ('\u{9}' <= c && c <= '\u{d}') || c == ' ' || c == '\u{85}' || c == '\u{a0}' || c == '\u{1680}'
        || ('\u{2000}' <= c && c <= '\u{200a}') || c == '\u{2028}' || c == '\u{2029}' || c
        == '\u{202f}' || c == '\u{205f}' || c == '\u{3000}'
}

/// `s` without the characters at its start that satisfy `drop`.
pub open spec fn without_start(s: Seq<char>, drop: spec_fn(char) -> bool) -> Seq<char>
    decreases s.len(),
{
    if s.len() > 0 && drop(s[0]) {
        without_start(s.subrange(1, s.len() as int), drop)
    } else {
        s
    }
}

/// `s` without the characters at its end that satisfy `drop`.
pub open spec fn without_end(s: Seq<char>, drop: spec_fn(char) -> bool) -> Seq<char>
    decreases s.len(),
{
    if s.len() > 0 && drop(s[s.len() - 1]) {
        without_end(s.subrange(0, s.len() - 1), drop)
    } else {
        s
    }
}

/// `s` without white space at either end.
pub open spec fn trimmed(s: Seq<char>) -> Seq<char> {
    without_end(without_start(s, |c: char| white(c)), |c: char| white(c))
}

/// `s` without white space at its end.
pub open spec fn trimmed_end(s: Seq<char>) -> Seq<char> {
    without_end(s, |c: char| white(c))
}

/// `without_start` drops exactly the leading run.
pub proof fn lemma_without_start(s: Seq<char>, drop: spec_fn(char) -> bool, i: int)
    requires
        0 <= i <= s.len(),
        forall|j: int| 0 <= j < i ==> drop(s[j]),
        i < s.len() ==> !drop(s[i]),
    ensures
        without_start(s, drop) == s.subrange(i, s.len() as int),
    decreases s.len(),
{
    if i == 0 {
        assert(s.subrange(0, s.len() as int) =~= s);
    } else {
        let rest = s.subrange(1, s.len() as int);
        lemma_without_start(rest, drop, i - 1);
        assert(rest.subrange(i - 1, rest.len() as int) =~= s.subrange(i, s.len() as int));
    }
}

/// `without_end` drops exactly the trailing run.
pub proof fn lemma_without_end(s: Seq<char>, drop: spec_fn(char) -> bool, i: int)
    requires
        0 <= i <= s.len(),
        forall|j: int| i <= j < s.len() ==> drop(s[j]),
        i > 0 ==> !drop(s[i - 1]),
    ensures
        without_end(s, drop) == s.subrange(0, i),
    decreases s.len(),
{
    if i == s.len() {
        assert(s.subrange(0, i) =~= s);
    } else {
        let rest = s.subrange(0, s.len() - 1);
        lemma_without_end(rest, drop, i);
        assert(rest.subrange(0, i) =~= s.subrange(0, i));
    }
}

/// What is left after dropping a trailing run does not end in it.
pub proof fn lemma_without_end_stops(s: Seq<char>, drop: spec_fn(char) -> bool)
    ensures
        without_end(s, drop).len() > 0 ==> !drop(without_end(s, drop).last()),
    decreases s.len(),
{
    if s.len() > 0 && drop(s[s.len() - 1]) {
        lemma_without_end_stops(s.subrange(0, s.len() - 1), drop);
    }
}

proof fn lemma_first_ink(s: Seq<char>) -> (i: int)
    ensures
        0 <= i <= s.len(),
        forall|j: int| 0 <= j < i ==> white(s[j]),
        i < s.len() ==> !white(s[i]),
    decreases s.len(),
{
    if s.len() == 0 || !white(s[0]) {
        0
    } else {
        let rest = s.subrange(1, s.len() as int);
        let i = lemma_first_ink(rest);
        assert forall|j: int| 0 <= j < i + 1 implies white(s[j]) by {
            if j > 0 {
                assert(rest[j - 1] == s[j]);
            }
        }
        i + 1
    }
}

proof fn lemma_last_ink(s: Seq<char>) -> (k: int)
    ensures
        0 <= k <= s.len(),
        forall|j: int| k <= j < s.len() ==> white(s[j]),
        k > 0 ==> !white(s[k - 1]),
    decreases s.len(),
{
    if s.len() == 0 || !white(s.last()) {
        s.len() as int
    } else {
        let k = lemma_last_ink(s.drop_last());
        assert forall|j: int| k <= j < s.len() implies white(s[j]) by {
            if j < s.len() - 1 {
                assert(s.drop_last()[j] == s[j]);
            }
        }
        k
    }
}

/// What is left of a text when the white space at its ends goes: the stretch
/// from its first character that is not white to its last.
proof fn lemma_trimmed(s: Seq<char>, i: int, k: int)
    requires
        0 <= i < k <= s.len(),
        forall|j: int| 0 <= j < i ==> white(s[j]),
        forall|j: int| k <= j < s.len() ==> white(s[j]),
        !white(s[i]),
        !white(s[k - 1]),
    ensures
        trimmed(s) == s.subrange(i, k),
{
    let blank = |c: char| white(c);
    lemma_without_start(s, blank, i);
    let rest = s.subrange(i, s.len() as int);
    lemma_without_end(rest, blank, k - i);
    assert(rest.subrange(0, k - i) =~= s.subrange(i, k));
}

proof fn lemma_trimmed_blank(s: Seq<char>)
    requires
        forall|j: int| 0 <= j < s.len() ==> white(s[j]),
    ensures
        trimmed(s).len() == 0,
{
    lemma_without_start(s, |c: char| white(c), s.len() as int);
}

/// Nothing but white space.
pub open spec fn is_blank(s: Seq<char>) -> bool {
    forall|j: int| 0 <= j < s.len() ==> white(#[trigger] s[j])
}

/// Nothing is left of a text once it is trimmed exactly where it is blank.
pub proof fn lemma_blank(s: Seq<char>)
    ensures
        trimmed(s).len() == 0 <==> is_blank(s),
{
    let i = lemma_first_ink(s);
    if i == s.len() {
        lemma_trimmed_blank(s);
    } else {
        let k = lemma_last_ink(s);
        lemma_trimmed(s, i, k);
        assert(!white(s[i]));
    }
}

/// White space around a text does not show once it is trimmed.
pub proof fn lemma_trimmed_padded(before: Seq<char>, s: Seq<char>, after: Seq<char>)
    requires
        forall|j: int| 0 <= j < before.len() ==> white(before[j]),
        forall|j: int| 0 <= j < after.len() ==> white(after[j]),
    ensures
        trimmed(before + s + after) == trimmed(s),
{
    let all = before + s + after;
    let i = lemma_first_ink(s);
    let k = lemma_last_ink(s);
    if i == s.len() {
        lemma_trimmed_blank(s);
        lemma_trimmed_blank(all);
        assert(trimmed(all) =~= trimmed(s));
    } else {
        assert(i < k);
        lemma_trimmed(s, i, k);
        let n = before.len() as int;
        assert(all[n + i] == s[i]);
        assert(all[n + k - 1] == s[k - 1]);
        assert forall|j: int| 0 <= j < n + i implies white(all[j]) by {
            if j >= n {
                assert(all[j] == s[j - n]);
            }
        }
        assert forall|j: int| n + k <= j < all.len() implies white(all[j]) by {
            if j < n + s.len() {
                assert(all[j] == s[j - n]);
            } else {
                assert(all[j] == after[j - n - s.len()]);
            }
        }
        lemma_trimmed(all, n + i, n + k);
        assert(all.subrange(n + i, n + k) =~= s.subrange(i, k));
    }
}

/// Trimming and raising the case of an ASCII text go either way round.
pub proof fn lemma_trimmed_upper(s: Seq<char>)
    requires
        all_ascii(s),
    ensures
        trimmed(ascii_uppercase(s)) == ascii_uppercase(trimmed(s)),
        all_ascii(trimmed(s)),
{
    let up = ascii_uppercase(s);
    assert forall|j: int| 0 <= j < s.len() implies white(#[trigger] up[j]) == white(s[j]) by {
        lemma_case(s[j]);
    }
    let i = lemma_first_ink(s);
    let k = lemma_last_ink(s);
    if i == s.len() {
        lemma_trimmed_blank(s);
        lemma_trimmed_blank(up);
        assert(trimmed(up) =~= ascii_uppercase(trimmed(s)));
    } else {
        lemma_trimmed(s, i, k);
        lemma_trimmed(up, i, k);
        assert(up.subrange(i, k) =~= ascii_uppercase(s.subrange(i, k)));
        assert forall|j: int| 0 <= j < trimmed(s).len() implies (#[trigger] trimmed(s)[j])
            <= '\u{7f}' by {
            assert(trimmed(s)[j] == s[i + j]);
        }
    }
}

/// `s` without white space at either end.
pub fn trim(s: &str) -> (out: &str)
    ensures
        out@ == trimmed(s@),
{
    let chars = chars_of(s);
    let ghost drop = |c: char| white(c);
    let mut from: usize = 0;
    while from < chars.len() && is_white(chars[from])
        invariant
            from <= chars@.len(),
            chars@ == s@,
            drop == (|c: char| white(c)),
            forall|j: int| 0 <= j < from ==> drop(s@[j]),
        decreases chars@.len() - from,
    {
        from += 1;
    }
    let mut to: usize = chars.len();
    while from < to && is_white(chars[to - 1])
        invariant
            from <= to <= chars@.len(),
            chars@ == s@,
            drop == (|c: char| white(c)),
            forall|j: int| to <= j < s@.len() ==> drop(s@[j]),
        decreases to,
    {
        to -= 1;
    }
    proof {
        lemma_without_start(s@, drop, from as int);
        let mid = s@.subrange(from as int, s@.len() as int);
        lemma_without_end(mid, drop, to - from);
        assert(mid.subrange(0, to - from) =~= s@.subrange(from as int, to as int));
    }
    s.substring_char(from, to)
}

/// `s` without white space at its end.
pub fn trim_end(s: &str) -> (out: &str)
    ensures
        out@ == trimmed_end(s@),
{
    let chars = chars_of(s);
    let ghost drop = |c: char| white(c);
    let mut to: usize = chars.len();
    while 0 < to && is_white(chars[to - 1])
        invariant
            to <= chars@.len(),
            chars@ == s@,
            drop == (|c: char| white(c)),
            forall|j: int| to <= j < s@.len() ==> drop(s@[j]),
        decreases to,
    {
        to -= 1;
    }
    proof {
        lemma_without_end(s@, drop, to as int);
    }
    s.substring_char(0, to)
}

/// How far `s` runs before the first `stop`, or to its end.
pub open spec fn until(s: Seq<char>, stop: char) -> int
    decreases s.len(),
{
    if s.len() == 0 || s[0] == stop {
        0
    } else {
        1 + until(s.subrange(1, s.len() as int), stop)
    }
}

/// A line without the carriage return that belonged to its line feed.
pub open spec fn without_cr(s: Seq<char>) -> Seq<char> {
    if s.len() > 0 && s[s.len() - 1] == '\r' {
        s.subrange(0, s.len() - 1)
    } else {
        s
    }
}

/// The lines of a text. A line feed, with or without a carriage return before
/// it, ends a line and belongs to none; a text that ends in one has no empty
/// line after it.
pub open spec fn lines_of(s: Seq<char>) -> Seq<Seq<char>>
    decreases s.len(),
{
    let n = until(s, '\n');
    if s.len() == 0 {
        Seq::empty()
    } else if 0 <= n < s.len() {
        seq![without_cr(s.subrange(0, n))] + lines_of(s.subrange(n + 1, s.len() as int))
    } else {
        seq![s]
    }
}

/// The run before the first `stop` ends within the text, at a `stop` or at its
/// end.
pub proof fn lemma_until(s: Seq<char>, stop: char)
    ensures
        0 <= until(s, stop) <= s.len(),
        forall|j: int| 0 <= j < until(s, stop) ==> s[j] != stop,
        until(s, stop) < s.len() ==> s[until(s, stop)] == stop,
    decreases s.len(),
{
    if s.len() > 0 && s[0] != stop {
        let rest = s.subrange(1, s.len() as int);
        lemma_until(rest, stop);
        assert forall|j: int| 0 <= j < until(s, stop) implies s[j] != stop by {
            if j > 0 {
                assert(rest[j - 1] == s[j]);
            }
        }
    }
}

/// The lines of a text, in order.
pub fn lines(s: &str) -> (out: Vec<String>)
    ensures
        texts(out@) == lines_of(s@),
{
    let chars = chars_of(s);
    let mut out: Vec<String> = Vec::new();
    let mut start: usize = 0;
    let mut i: usize = 0;
    proof {
        assert(s@.subrange(0, s@.len() as int) =~= s@);
        assert(texts(out@) + lines_of(s@) =~= lines_of(s@));
    }
    while i < chars.len()
        invariant
            chars@ == s@,
            start <= i <= chars@.len(),
            forall|j: int| start <= j < i ==> s@[j] != '\n',
            texts(out@) + lines_of(s@.subrange(start as int, s@.len() as int)) == lines_of(s@),
        decreases chars@.len() - i,
    {
        if chars[i] == '\n' {
            let ghost rest = s@.subrange(start as int, s@.len() as int);
            let ghost before = texts(out@);
            let to: usize = if start < i && chars[i - 1] == '\r' {
                i - 1
            } else {
                i
            };
            let line = string_of(&chars, start, to);
            proof {
                lemma_until(rest, '\n');
                assert(until(rest, '\n') == i - start) by {
                    assert(rest[i - start] == s@[i as int]);
                    if until(rest, '\n') < i - start {
                        assert(rest[until(rest, '\n')] == s@[start + until(rest, '\n')]);
                    }
                }
                assert(rest.subrange(0, i - start) =~= s@.subrange(start as int, i as int));
                assert(rest.subrange(i - start + 1, rest.len() as int) =~= s@.subrange(
                    i + 1,
                    s@.len() as int,
                ));
                assert(line@ =~= without_cr(rest.subrange(0, i - start)));
            }
            out.push(line);
            proof {
                assert(texts(out@) =~= before.push(line@));
                let tail = lines_of(s@.subrange(i + 1, s@.len() as int));
                assert(lines_of(rest) =~= seq![line@] + tail);
                assert(before.push(line@) + tail =~= before + (seq![line@] + tail));
            }
            start = i + 1;
        }
        i += 1;
    }
    let ghost rest = s@.subrange(start as int, s@.len() as int);
    let ghost before = texts(out@);
    if start < chars.len() {
        let line = string_of(&chars, start, chars.len());
        proof {
            lemma_until(rest, '\n');
            assert(until(rest, '\n') == rest.len()) by {
                if until(rest, '\n') < rest.len() {
                    assert(rest[until(rest, '\n')] == s@[start + until(rest, '\n')]);
                }
            }
        }
        out.push(line);
        assert(texts(out@) =~= before + seq![rest]);
    } else {
        assert(before + lines_of(rest) =~= before);
    }
    out
}

/// The pieces of a text between its separators.
pub open spec fn pieces(s: Seq<char>, sep: char) -> Seq<Seq<char>>
    decreases s.len(),
{
    let n = until(s, sep);
    if 0 <= n < s.len() {
        seq![s.subrange(0, n)] + pieces(s.subrange(n + 1, s.len() as int), sep)
    } else {
        seq![s]
    }
}

/// The pieces of a text between its separators; a text without one is a
/// single piece.
pub fn split(s: &str, sep: char) -> (out: Vec<String>)
    ensures
        texts(out@) == pieces(s@, sep),
{
    let chars = chars_of(s);
    let mut out: Vec<String> = Vec::new();
    let mut start: usize = 0;
    let mut i: usize = 0;
    proof {
        assert(s@.subrange(0, s@.len() as int) =~= s@);
        assert(texts(out@) + pieces(s@, sep) =~= pieces(s@, sep));
    }
    while i < chars.len()
        invariant
            chars@ == s@,
            start <= i <= chars@.len(),
            forall|j: int| start <= j < i ==> s@[j] != sep,
            texts(out@) + pieces(s@.subrange(start as int, s@.len() as int), sep) == pieces(s@, sep),
        decreases chars@.len() - i,
    {
        if chars[i] == sep {
            let ghost rest = s@.subrange(start as int, s@.len() as int);
            let ghost before = texts(out@);
            let piece = string_of(&chars, start, i);
            proof {
                lemma_until(rest, sep);
                assert(until(rest, sep) == i - start) by {
                    assert(rest[i - start] == s@[i as int]);
                    if until(rest, sep) < i - start {
                        assert(rest[until(rest, sep)] == s@[start + until(rest, sep)]);
                    }
                }
                assert(rest.subrange(0, i - start) =~= piece@);
                assert(rest.subrange(i - start + 1, rest.len() as int) =~= s@.subrange(
                    i + 1,
                    s@.len() as int,
                ));
            }
            out.push(piece);
            proof {
                assert(texts(out@) =~= before.push(piece@));
                let tail = pieces(s@.subrange(i + 1, s@.len() as int), sep);
                assert(pieces(rest, sep) =~= seq![piece@] + tail);
                assert(before.push(piece@) + tail =~= before + (seq![piece@] + tail));
            }
            start = i + 1;
        }
        i += 1;
    }
    let ghost rest = s@.subrange(start as int, s@.len() as int);
    let ghost before = texts(out@);
    let piece = string_of(&chars, start, chars.len());
    proof {
        lemma_until(rest, sep);
        assert(until(rest, sep) == rest.len()) by {
            if until(rest, sep) < rest.len() {
                assert(rest[until(rest, sep)] == s@[start + until(rest, sep)]);
            }
        }
    }
    out.push(piece);
    assert(texts(out@) =~= before + seq![rest]);
    out
}

/// The first line of a text, trimmed.
pub open spec fn first_line_of(s: Seq<char>) -> Seq<char> {
    if lines_of(s).len() > 0 {
        trimmed(lines_of(s)[0])
    } else {
        trimmed(s)
    }
}

/// The first line of a text, trimmed.
pub fn first_line(message: &str) -> (out: &str)
    ensures
        out@ == first_line_of(message@),
{
    let chars = chars_of(message);
    let mut i: usize = 0;
    while i < chars.len() && chars[i] != '\n'
        invariant
            chars@ == message@,
            i <= chars@.len(),
            forall|j: int| 0 <= j < i ==> message@[j] != '\n',
        decreases chars@.len() - i,
    {
        i += 1;
    }
    let to: usize = if i < chars.len() && 0 < i && chars[i - 1] == '\r' {
        i - 1
    } else {
        i
    };
    proof {
        lemma_until(message@, '\n');
        assert(until(message@, '\n') == i);
        assert(message@.subrange(0, message@.len() as int) =~= message@);
        if message@.len() > 0 {
            let rest = lines_of(message@.subrange(i + 1, message@.len() as int));
            if i < message@.len() {
                assert((seq![without_cr(message@.subrange(0, i as int))] + rest)[0] == without_cr(
                    message@.subrange(0, i as int),
                ));
                assert(without_cr(message@.subrange(0, i as int)) =~= message@.subrange(
                    0,
                    to as int,
                ));
            }
        }
    }
    trim(message.substring_char(0, to))
}

/// The decimal digit of `d`.
pub open spec fn digit(d: int) -> char {
    (48 + d) as char
}

/// A natural number in decimal, without leading zeros.
pub open spec fn decimal_of(n: nat) -> Seq<char>
    decreases n,
{
    if n < 10 {
        seq![digit(n as int)]
    } else {
        decimal_of(n / 10).push(digit((n % 10) as int))
    }
}

fn digit_char(d: u64) -> (c: char)
    requires
        d < 10,
    ensures
        c == digit(d as int),
{
    match d {
        0 => '0',
        1 => '1',
        2 => '2',
        3 => '3',
        4 => '4',
        5 => '5',
        6 => '6',
        7 => '7',
        8 => '8',
        _ => '9',
    }
}

/// A number in decimal.
pub fn decimal(n: u64) -> (out: String)
    ensures
        out@ == decimal_of(n as nat),
    decreases n,
{
    if n < 10 {
        let mut out = String::new();
        out.push(digit_char(n));
        assert(out@ =~= seq![digit(n as int)]);
        out
    } else {
        let mut out = decimal(n / 10);
        out.push(digit_char(n % 10));
        out
    }
}

/// A digit, and nothing else.
pub open spec fn is_digit(c: char) -> bool {
    '0' <= c <= '9'
}

/// The number some digits write.
pub open spec fn digits_value(digits: Seq<char>) -> nat
    decreases digits.len(),
{
    if digits.len() == 0 {
        0
    } else {
        digits_value(digits.drop_last()) * 10 + (digits.last() as int - 48) as nat
    }
}

/// Digits, at least one, and nothing else.
pub open spec fn are_digits(digits: Seq<char>) -> bool {
    digits.len() > 0 && forall|i: int| 0 <= i < digits.len() ==> is_digit(#[trigger] digits[i])
}

/// The number some digits write, where they write one that fits.
pub open spec fn number_of(digits: Seq<char>) -> Option<usize> {
    if are_digits(digits) && digits_value(digits) <= usize::MAX {
        Some(digits_value(digits) as usize)
    } else {
        None
    }
}

/// The whole number a text writes, where it writes one that fits: digits, with
/// a plus sign before them or without.
pub open spec fn whole_number(s: Seq<char>) -> Option<usize> {
    if s.len() > 0 && s[0] == '+' {
        number_of(s.subrange(1, s.len() as int))
    } else {
        number_of(s)
    }
}

proof fn lemma_digits_grow(digits: Seq<char>, n: int)
    requires
        0 <= n <= digits.len(),
    ensures
        digits_value(digits.take(n)) <= digits_value(digits),
    decreases digits.len() - n,
{
    if n < digits.len() {
        lemma_digits_grow(digits, n + 1);
        assert(digits.take(n + 1).drop_last() =~= digits.take(n));
    } else {
        assert(digits.take(n) =~= digits);
    }
}

/// The whole number a text writes, if it does.
pub fn parse_number(s: &str) -> (out: Option<usize>)
    ensures
        out == whole_number(s@),
{
    let chars = chars_of(s);
    let from: usize = if chars.len() > 0 && chars[0] == '+' {
        1
    } else {
        0
    };
    let ghost digits = s@.subrange(from as int, s@.len() as int);
    assert(s@.subrange(0, s@.len() as int) =~= s@);
    assert(whole_number(s@) == number_of(digits));
    if chars.len() == from {
        return None;
    }
    let mut value: usize = 0;
    let mut i: usize = from;
    assert(digits.take(0) =~= Seq::empty());
    while i < chars.len()
        invariant
            chars@ == s@,
            from <= i <= chars@.len(),
            from <= 1,
            digits == s@.subrange(from as int, s@.len() as int),
            digits.len() > 0,
            whole_number(s@) == number_of(digits),
            forall|j: int| 0 <= j < i - from ==> is_digit(#[trigger] digits[j]),
            value == digits_value(digits.take(i - from)),
        decreases chars@.len() - i,
    {
        let c = chars[i];
        assert(digits[i - from] == c);
        if !('0' <= c && c <= '9') {
            assert(!is_digit(digits[i - from]));
            return None;
        }
        let d: usize = (c as u32 - 48) as usize;
        proof {
            assert(digits.take(i - from + 1).drop_last() =~= digits.take(i - from));
            lemma_digits_grow(digits, i - from + 1);
        }
        let tens: usize = match value.checked_mul(10) {
            Some(tens) => tens,
            None => {
                return None;
            },
        };
        value = match tens.checked_add(d) {
            Some(sum) => sum,
            None => {
                return None;
            },
        };
        i += 1;
    }
    assert(digits.take(i - from) =~= digits);
    Some(value)
}

/// A number is written with digits, at least one.
pub proof fn lemma_decimal_digits(n: nat)
    ensures
        decimal_of(n).len() > 0,
        forall|i: int| 0 <= i < decimal_of(n).len() ==> is_digit(#[trigger] decimal_of(n)[i]),
    decreases n,
{
    if n >= 10 {
        lemma_decimal_digits(n / 10);
    }
}

proof fn lemma_decimal_reads_back(n: nat)
    ensures
        are_digits(decimal_of(n)),
        digits_value(decimal_of(n)) == n,
    decreases n,
{
    let s = decimal_of(n);
    if n < 10 {
        assert(s.drop_last() =~= Seq::empty());
        assert(digits_value(s.drop_last()) == 0);
        assert(s.last() == digit(n as int));
    } else {
        lemma_decimal_reads_back(n / 10);
        assert(s.drop_last() =~= decimal_of(n / 10));
        assert(s.last() == digit((n % 10) as int));
        assert forall|i: int| 0 <= i < s.len() implies is_digit(#[trigger] s[i]) by {
            if i < s.len() - 1 {
                assert(s[i] == decimal_of(n / 10)[i]);
            }
        }
    }
}

/// A number written in decimal reads back as itself.
pub proof fn a_number_reads_back(n: usize)
    ensures
        whole_number(decimal_of(n as nat)) == Some(n),
{
    lemma_decimal_reads_back(n as nat);
    assert(is_digit(decimal_of(n as nat)[0]));
}

/// Texts with line feeds between them.
pub open spec fn joined(lines: Seq<Seq<char>>) -> Seq<char>
    decreases lines.len(),
{
    if lines.len() == 0 {
        Seq::empty()
    } else if lines.len() == 1 {
        lines[0]
    } else {
        joined(lines.drop_last()) + "\n"@ + lines.last()
    }
}

/// Texts with line feeds between them.
pub fn join_lines(lines: &Vec<String>) -> (out: String)
    ensures
        out@ == joined(texts(lines@)),
{
    let mut out = String::new();
    let ghost all = texts(lines@);
    let mut i: usize = 0;
    assert(all.take(0) =~= Seq::empty());
    while i < lines.len()
        invariant
            all == texts(lines@),
            i <= lines@.len(),
            out@ == joined(all.take(i as int)),
        decreases lines@.len() - i,
    {
        let ghost before = out@;
        if i > 0 {
            out.append("\n");
        }
        out.append(lines[i].as_str());
        i += 1;
        assert(all.take(i as int).drop_last() =~= all.take(i - 1));
        assert(all.take(i as int).last() == lines@[i - 1]@);
        if i == 1 {
            assert(before =~= Seq::<char>::empty());
            assert(out@ =~= lines@[0]@);
        }
    }
    assert(all.take(i as int) =~= all);
    out
}

/// A text holds what a part of it holds.
pub proof fn lemma_holds_within(
    before: Seq<char>,
    middle: Seq<char>,
    after: Seq<char>,
    part: Seq<char>,
    at: int,
)
    requires
        0 <= at,
        at + part.len() <= middle.len(),
        middle.subrange(at, at + part.len() as int) == part,
    ensures
        holds_text(before + middle + after, part),
{
    let front = before + middle.subrange(0, at);
    let back = middle.subrange(at + part.len() as int, middle.len() as int) + after;
    assert(before + middle + after =~= front + part + back);
    lemma_holds_middle(front, part, back);
}

/// Trimming takes white space off the ends and nothing else: what is left stands
/// in the text, between white space, and neither begins nor ends with any.
pub proof fn trimming_takes_white_space_alone(s: Seq<char>)
    ensures
        exists|i: int, j: int|
            0 <= i <= j <= s.len() && #[trigger] s.subrange(i, j) == trimmed(s) && (forall|k: int|
                0 <= k < i ==> white(s[k])) && (forall|k: int| j <= k < s.len() ==> white(s[k])),
        trimmed(s).len() > 0 ==> !white(trimmed(s)[0]) && !white(trimmed(s).last()),
{
    let i = lemma_first_ink(s);
    lemma_without_start(s, |c: char| white(c), i);
    let rest = s.subrange(i, s.len() as int);
    let kept = trimming_the_end_takes_white_space_alone(rest);
    assert(trimmed(s) == rest.subrange(0, kept));
    assert(rest.subrange(0, kept) =~= s.subrange(i, i + kept));
    assert forall|k: int| i + kept <= k < s.len() implies white(s[k]) by {
        assert(rest[k - i] == s[k]);
    }
    if kept > 0 {
        assert(rest[0] == s[i]);
    }
}

/// Trimming a line's end takes the white space there and nothing else.
pub proof fn trimming_the_end_takes_white_space_alone(s: Seq<char>) -> (kept: int)
    ensures
        0 <= kept <= s.len(),
        trimmed_end(s) == s.subrange(0, kept),
        forall|k: int| kept <= k < s.len() ==> white(s[k]),
        kept > 0 ==> !white(s[kept - 1]),
    decreases s.len(),
{
    if s.len() > 0 && white(s[s.len() - 1]) {
        let rest = s.subrange(0, s.len() - 1);
        let kept = trimming_the_end_takes_white_space_alone(rest);
        assert(rest.subrange(0, kept) =~= s.subrange(0, kept));
        assert forall|k: int| kept <= k < s.len() implies white(s[k]) by {
            if k < rest.len() {
                assert(rest[k] == s[k]);
            }
        }
        if kept > 0 {
            assert(rest[kept - 1] == s[kept - 1]);
        }
        kept
    } else {
        assert(s.subrange(0, s.len() as int) =~= s);
        s.len() as int
    }
}

/// Pieces joined by what they were split at make the text again, and none of
/// them holds it.
pub open spec fn rejoined(parts: Seq<Seq<char>>, sep: char) -> Seq<char>
    decreases parts.len(),
{
    if parts.len() == 0 {
        Seq::empty()
    } else if parts.len() == 1 {
        parts[0]
    } else {
        parts[0].push(sep) + rejoined(parts.subrange(1, parts.len() as int), sep)
    }
}

/// Splitting loses nothing: the pieces, with what they were split at between
/// them, are the text, and no piece holds it.
pub proof fn pieces_make_the_text(s: Seq<char>, sep: char)
    ensures
        pieces(s, sep).len() > 0,
        rejoined(pieces(s, sep), sep) == s,
        forall|i: int|
            0 <= i < pieces(s, sep).len() ==> !(#[trigger] pieces(s, sep)[i]).contains(sep),
    decreases s.len(),
{
    let n = until(s, sep);
    lemma_until(s, sep);
    let parts = pieces(s, sep);
    if 0 <= n < s.len() {
        let first = s.subrange(0, n);
        let rest = s.subrange(n + 1, s.len() as int);
        pieces_make_the_text(rest, sep);
        assert(parts.subrange(1, parts.len() as int) =~= pieces(rest, sep));
        assert(s =~= first.push(sep) + rest);
        assert forall|i: int| 0 <= i < parts.len() implies !(#[trigger] parts[i]).contains(sep) by {
            if i > 0 {
                assert(parts[i] == pieces(rest, sep)[i - 1]);
            }
        }
    }
}

/// A first line is what stands before the first line feed, trimmed, whatever
/// comes after; a text of one line is that line.
pub proof fn a_first_line_is_the_first(head: Seq<char>, rest: Seq<char>)
    requires
        !head.contains('\n'),
    ensures
        first_line_of(head.push('\n') + rest) == trimmed(without_cr(head)),
        first_line_of(head) == trimmed(head),
{
    let s = head.push('\n') + rest;
    lemma_until(s, '\n');
    lemma_until(head, '\n');
    let n = until(s, '\n');
    assert(s[head.len() as int] == '\n');
    if n < head.len() {
        assert(s[n] == head[n]);
        assert(head.contains(head[n]));
    }
    assert(n == head.len());
    assert(s.subrange(0, n) =~= head);
    if until(head, '\n') < head.len() {
        assert(head.contains(head[until(head, '\n')]));
    }
}

} // verus!
