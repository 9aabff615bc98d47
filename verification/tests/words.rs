use taste_app::order::{key_less_exec, lex_less_exec, permute, stable_order, text_codes};
use taste_app::path::TreePath;
use taste_app::text::{
    contains, decimal, first_line, join_lines, lines, parse_number, split, starts_with, trim, trim_end,
};

const TEXTS: [&str; 14] = [
    "", "a", "\n", "a\n", "a\n\n", "\na", "a\r\n", "a\rb", "\r\n\r\n", "a\nb\r\nc", " x ", "\u{a0}x\u{2003}",
    "é\t", "\u{85}q\u{feff}",
];

/// The texts are cut as the standard library cuts them.
#[test]
fn texts_are_cut_as_the_standard_library_cuts_them() {
    for text in TEXTS {
        assert_eq!(lines(text), text.lines().collect::<Vec<_>>(), "{text:?}");
        assert_eq!(trim(text), text.trim(), "{text:?}");
        assert_eq!(trim_end(text), text.trim_end(), "{text:?}");
        assert_eq!(split(text, '\n'), text.split('\n').collect::<Vec<_>>());
        assert_eq!(
            first_line(text),
            text.lines().next().unwrap_or(text).trim(),
            "{text:?}"
        );
        for other in TEXTS {
            assert_eq!(contains(text, other), text.contains(other), "{text:?} {other:?}");
            assert_eq!(starts_with(text, other), text.starts_with(other));
        }
    }
    for n in [0, 9, 10, 101, u64::MAX] {
        assert_eq!(decimal(n), n.to_string());
    }
    let parts: Vec<String> = ["a", "", "b"].iter().map(|s| s.to_string()).collect();
    assert_eq!(join_lines(&parts), parts.join("\n"));
}

#[test]
fn every_white_space_is_white() {
    for code in 0..=0x10FFFFu32 {
        if let Some(c) = char::from_u32(code) {
            assert_eq!(taste_app::text::is_white(c), c.is_whitespace(), "{code:x}");
        }
    }
}

#[test]
fn texts_are_ordered_by_their_characters() {
    let words = ["", "a", "B", "ab", "é", "\u{1F600}", "Z"];
    for a in words {
        for b in words {
            assert_eq!(
                lex_less_exec(&text_codes(a), &text_codes(b)),
                a < b,
                "{a:?} {b:?}"
            );
        }
    }
    let key = |n: u64, s: &str| vec![vec![n], text_codes(s)];
    assert!(key_less_exec(&key(0, "z"), &key(1, "a")));
    let keys = vec![key(1, "b"), key(0, "z"), key(1, "a"), key(0, "z")];
    let order = stable_order(&keys);
    assert_eq!(order, [1, 3, 2, 0], "equal keys keep their order");
    assert_eq!(permute(vec!['p', 'q', 'r', 's'], &order), ['q', 's', 'r', 'p']);
}

/// Paths name the same places as the standard library's.
#[test]
fn paths_are_the_names_along_them() {
    for text in ["/w/src/a.rs", "src//b.rs", "./x", "a/./b/", "/", "", "a/..", "../x"] {
        let ours = TreePath::parse(text);
        let theirs = std::path::Path::new(text);
        assert_eq!(
            ours.file_name(),
            theirs.file_name().and_then(|n| n.to_str()),
            "{text}"
        );
        assert_eq!(
            ours.parent(),
            theirs.parent().map(|p| TreePath::parse(p.to_str().unwrap())),
            "{text}"
        );
    }
    let file = TreePath::parse("/w/src/a.rs");
    assert_eq!(file.show(), "/w/src/a.rs");
    assert_eq!(TreePath::parse("/").show(), "/");
    assert!(file.starts_with(&TreePath::parse("/w")));
    assert!(!file.starts_with(&TreePath::parse("/w/sr")), "name by name");
    let rel = file.strip_prefix(&TreePath::parse("/w")).unwrap();
    assert_eq!(rel.show(), "src/a.rs");
    assert!(TreePath::parse("/w").join(&rel).same_as(&file), "joining undoes stripping");
    assert_eq!(file.strip_prefix(&TreePath::parse("/x")), None);
    assert_eq!(TreePath::parse("/w").child("x").show(), "/w/x");
    assert_eq!(file.display_name(), "a.rs");
    assert_eq!(file.prefix(2).show(), "/w");
}

#[test]
fn a_number_is_digits_that_fit() {
    for text in ["0", "007", "+12", "", "+", "-3", "1 ", "１", "18446744073709551615"] {
        assert_eq!(parse_number(text), text.parse::<usize>().ok(), "{text:?}");
    }
    assert_eq!(parse_number("18446744073709551616"), None);
    for n in [0, 7, 10, 12_345, usize::MAX] {
        assert_eq!(parse_number(&decimal(n as u64)), Some(n), "it reads back");
    }
}
