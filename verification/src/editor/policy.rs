//! A file's editing policies, from its `.editorconfig`.

use vstd::prelude::*;
use crate::text::{chars_of, lowercase, lowered, parse_number, same, whole_number};

verus! {

/// Properties, by the texts of their keys and values.
pub open spec fn pairs_view(pairs: Seq<(String, String)>) -> Seq<(Seq<char>, Seq<char>)> {
    Seq::new(pairs.len(), |i: int| (pairs[i].0@, pairs[i].1@))
}

/// The value that a property has: the last one given, and nothing where none
/// is. A property that is given nothing is one that is not given.
pub open spec fn raw_of(pairs: Seq<(Seq<char>, Seq<char>)>, key: Seq<char>) -> Seq<char>
    decreases pairs.len(),
{
    if pairs.len() == 0 {
        Seq::empty()
    } else if pairs.last().0 == key {
        pairs.last().1
    } else {
        raw_of(pairs.drop_last(), key)
    }
}

/// A value, lower case, where it is one.
pub open spec fn value_in(raw: Seq<char>) -> Option<Seq<char>> {
    if raw.len() == 0 {
        None
    } else {
        Some(lowered(raw))
    }
}

/// The value that a property has once the indent size and the tab width stand
/// in for each other. An indent size of "tab" is the tab width's; with no size
/// at all, indenting with tabs makes it one.
pub open spec fn settled(pairs: Seq<(Seq<char>, Seq<char>)>, key: Seq<char>) -> Seq<char> {
    let size = raw_of(pairs, "indent_size"@);
    let width = raw_of(pairs, "tab_width"@);
    let by_tabs = value_in(size) == Some("tab"@);
    if key == "indent_size"@ {
        if size.len() > 0 && !by_tabs {
            size
        } else if width.len() > 0 && (by_tabs || value_in(width) != Some("unset"@)) {
            width
        } else if by_tabs || value_in(raw_of(pairs, "indent_style"@)) == Some("tab"@) {
            "tab"@
        } else {
            Seq::empty()
        }
    } else if key == "tab_width"@ {
        if width.len() > 0 || by_tabs {
            width
        } else {
            size
        }
    } else {
        raw_of(pairs, key)
    }
}

/// `ec4rs::Properties::use_fallbacks`, on properties collected from pairs and
/// listed again: every property has its [`settled`] value. The last value given
/// counts, and an empty value counts as none.
#[verifier::external_body]
fn with_fallbacks(pairs: &Vec<(String, String)>) -> (out: Vec<(String, String)>)
    ensures
        forall|key: Seq<char>| #[trigger]
            raw_of(pairs_view(out@), key) == settled(pairs_view(pairs@), key),
{
    let mut props: ec4rs::Properties = pairs.iter().map(|pair| (pair.0.as_str(), pair.1.clone())).collect();
    props.use_fallbacks();
    props.iter().map(|(key, value)| (key.to_string(), value.into_str().to_string())).collect()
}

fn find_value(pairs: &Vec<(String, String)>, key: &str) -> (out: Option<String>)
    ensures
        match out {
            Some(value) => value_in(raw_of(pairs_view(pairs@), key@)) == Some(value@),
            None => value_in(raw_of(pairs_view(pairs@), key@)) is None,
        },
{
    let ghost all = pairs_view(pairs@);
    let mut i: usize = pairs.len();
    assert(all.take(all.len() as int) =~= all);
    while i > 0
        invariant
            all == pairs_view(pairs@),
            i <= pairs@.len(),
            raw_of(all, key@) == raw_of(all.take(i as int), key@),
        decreases i,
    {
        i -= 1;
        assert(all.take(i + 1).drop_last() =~= all.take(i as int));
        if same(pairs[i].0.as_str(), key) {
            let value = pairs[i].1.as_str();
            if chars_of(value).len() == 0 {
                return None;
            }
            return Some(lowercase(value));
        }
    }
    assert(all.take(0) =~= Seq::empty());
    None
}

/// What a view and a save go by.
#[derive(Debug, Clone, Copy, PartialEq, Eq)]
pub struct EditPolicy {
    /// Insert spaces instead of tabs; `None` leaves the view as it is.
    pub spaces: Option<bool>,
    pub indent_width: Option<i32>,
    pub tab_width: Option<u32>,
    pub trim_trailing_ws: bool,
    pub final_newline: bool,
}

/// Whether a style indents with spaces, where it says.
pub open spec fn indents_with_spaces(style: Option<Seq<char>>) -> Option<bool> {
    if style == Some("space"@) {
        Some(true)
    } else if style == Some("tab"@) {
        Some(false)
    } else {
        None
    }
}

/// A size that is given as a number. "tab" is not one.
pub open spec fn number_in(value: Option<Seq<char>>) -> Option<usize> {
    match value {
        Some(value) => whole_number(value),
        None => None,
    }
}

/// What properties with these values come to.
pub open spec fn reads_as(out: EditPolicy, raw: spec_fn(Seq<char>) -> Seq<char>) -> bool {
    &&& out.spaces == indents_with_spaces(value_in(raw("indent_style"@)))
    &&& out.indent_width == match number_in(value_in(raw("indent_size"@))) {
        Some(size) => Some(size as i32),
        None => None,
    }
    &&& out.tab_width == match number_in(value_in(raw("tab_width"@))) {
        Some(width) => Some(width as u32),
        None => None,
    }
    &&& out.trim_trailing_ws == (value_in(raw("trim_trailing_whitespace"@)) == Some("true"@))
    &&& out.final_newline == (value_in(raw("insert_final_newline"@)) != Some("false"@))
}

fn flag(pairs: &Vec<(String, String)>, key: &str, word: &str) -> (r: bool)
    ensures
        r == (value_in(raw_of(pairs_view(pairs@), key@)) == Some(word@)),
{
    match find_value(pairs, key) {
        Some(value) => same(value.as_str(), word),
        None => false,
    }
}

fn size(pairs: &Vec<(String, String)>, key: &str) -> (out: Option<usize>)
    ensures
        out == number_in(value_in(raw_of(pairs_view(pairs@), key@))),
{
    match find_value(pairs, key) {
        Some(value) => parse_number(value.as_str()),
        None => None,
    }
}

/// What properties come to. A value that is neither word of its
/// property counts as absent; trimming is off unless it is asked for, and the
/// final newline on unless it is declined.
pub fn read_policy(props: &Vec<(String, String)>) -> (out: EditPolicy)
    ensures
        reads_as(out, |key: Seq<char>| raw_of(pairs_view(props@), key)),
{
    let spaces = match find_value(props, "indent_style") {
        Some(value) => if same(value.as_str(), "space") {
            Some(true)
        } else if same(value.as_str(), "tab") {
            Some(false)
        } else {
            None
        },
        None => None,
    };
    let indent_width = match size(props, "indent_size") {
        Some(size) => Some(size as i32),
        None => None,
    };
    let tab_width = match size(props, "tab_width") {
        Some(width) => Some(width as u32),
        None => None,
    };
    EditPolicy {
        spaces,
        indent_width,
        tab_width,
        trim_trailing_ws: flag(props, "trim_trailing_whitespace", "true"),
        final_newline: !flag(props, "insert_final_newline", "false"),
    }
}

/// Apply a file's properties, with the fallbacks that follow from them:
/// indentation for the view now, the white-space policies for save time.
pub fn apply_editorconfig(pairs: &Vec<(String, String)>) -> (out: EditPolicy)
    ensures
        reads_as(out, |key: Seq<char>| settled(pairs_view(pairs@), key)),
{
    let props = with_fallbacks(pairs);
    read_policy(&props)
}

/// The value a property is given last is the one it has, and giving another
/// property a value changes nothing of it.
pub proof fn the_last_value_counts(
    pairs: Seq<(Seq<char>, Seq<char>)>,
    key: Seq<char>,
    other: Seq<char>,
    value: Seq<char>,
)
    ensures
        raw_of(pairs.push((key, value)), key) == value,
        other != key ==> raw_of(pairs.push((key, value)), other) == raw_of(pairs, other),
        raw_of(Seq::empty(), key).len() == 0,
{
    assert(pairs.push((key, value)).drop_last() =~= pairs);
}

/// What properties come to, word by word: trimming is asked for with a true, the
/// final newline declined with a false, whatever their case, and everything not
/// given leaves the view and the file as they are.
pub proof fn a_policy_says_what_was_given(out: EditPolicy, raw: spec_fn(Seq<char>) -> Seq<char>)
    requires
        reads_as(out, raw),
    ensures
        out.trim_trailing_ws <==> raw("trim_trailing_whitespace"@).len() > 0 && lowered(
            raw("trim_trailing_whitespace"@),
        ) == "true"@,
        out.final_newline <==> !(raw("insert_final_newline"@).len() > 0 && lowered(
            raw("insert_final_newline"@),
        ) == "false"@),
        out.spaces == Some(true) <==> raw("indent_style"@).len() > 0 && lowered(
            raw("indent_style"@),
        ) == "space"@,
        out.spaces == Some(false) <==> raw("indent_style"@).len() > 0 && lowered(
            raw("indent_style"@),
        ) == "tab"@,
        raw("indent_size"@).len() == 0 ==> out.indent_width is None,
        raw("tab_width"@).len() == 0 ==> out.tab_width is None,
        raw("indent_size"@).len() > 0 ==> (whole_number(lowered(raw("indent_size"@))) matches Some(n)
            ==> (n <= i32::MAX ==> (out.indent_width matches Some(width) && width == n))),
        raw("tab_width"@).len() > 0 ==> (whole_number(lowered(raw("tab_width"@))) matches Some(n)
            ==> (n <= u32::MAX ==> (out.tab_width matches Some(width) && width == n))),
{
    reveal_strlit("space");
    reveal_strlit("tab");
    assert("space"@.len() == 5 && "tab"@.len() == 3);
}

} // verus!
