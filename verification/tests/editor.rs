use taste_app::editor::diff::{diff_lines, diff_tag, diff_text, show_hunks, MAX_DIFF_LINES};
use taste_app::editor::nav::{NavHistory, MAX_NAV_HISTORY};
use taste_app::editor::pages::{
    capture_selection, highlighting_ok, is_markdown, jump_line, scheme_for_style, CloseAnswer,
    CloseStep, DiskChange, Face, Indicator, KeyStep, PageKey, Reload, Suggestion,
    MAX_HIGHLIGHT_FILE_BYTES, MAX_HIGHLIGHT_LINE_BYTES, MAX_SELECTION_CAPTURE_CHARS,
    MAX_WYSIWYG_CHARS,
};
use taste_app::editor::policy::{apply_editorconfig, read_policy, EditPolicy};
use taste_app::editor::save::{prepare_save, save_failure, save_text};
use taste_app::editor::{Editor, EditorPage};
use taste_app::filetree::status::{FileState, StatusEntry};
use taste_app::path::TreePath;

#[test]
fn normal_source_files_highlight() {
    assert!(highlighting_ok("fn main() {\n    println!(\"hi\");\n}\n"));
}

#[test]
fn very_long_lines_disable_highlighting() {
    let minified = format!("var x = [{}];", "1,".repeat(10_000));
    assert!(!highlighting_ok(&minified));
}

#[test]
fn very_large_files_disable_highlighting() {
    let big = "short line\n".repeat(1_000_000);
    assert!(!highlighting_ok(&big));
}

fn path(name: &str) -> TreePath {
    TreePath::parse(name)
}

#[test]
fn the_limits_of_highlighting_are_in_bytes() {
    assert!(highlighting_ok(&"a".repeat(MAX_HIGHLIGHT_LINE_BYTES)));
    assert!(!highlighting_ok(&"a".repeat(MAX_HIGHLIGHT_LINE_BYTES + 1)));
    assert!(highlighting_ok(&"é".repeat(MAX_HIGHLIGHT_LINE_BYTES / 2)));
    assert!(!highlighting_ok(&"é".repeat(MAX_HIGHLIGHT_LINE_BYTES / 2 + 1)));
    let full = "1234567\n".repeat(MAX_HIGHLIGHT_FILE_BYTES / 8);
    assert!(highlighting_ok(&full));
    assert!(!highlighting_ok(&(full + "x")));
    assert!(highlighting_ok(""));
}

#[test]
fn markdown_is_told_by_the_extension() {
    assert!(is_markdown(&path("docs/README.md")));
    assert!(is_markdown(&path("a.b.markdown")));
    assert!(!is_markdown(&path("README.MD")));
    assert!(!is_markdown(&path("md")));
    assert!(!is_markdown(&path(".md")), "a dot file has no extension");
    assert!(!is_markdown(&path("x.mdx")));
}

/// Going back and then forward arrives where one was, and a new visit cuts the
/// way forward.
#[test]
fn back_and_forward_walk_the_visited_files() {
    let mut nav = NavHistory::new();
    assert_eq!(nav.nav_buttons(), (false, false));
    assert_eq!(nav.navigate(-1), None);
    for name in ["a", "b", "c"] {
        nav.record_visit(path(name));
    }
    assert_eq!(nav.nav_buttons(), (true, false));
    assert_eq!(nav.navigate(1), None, "nothing ahead");
    assert_eq!(nav.navigate(-1), Some(path("b")));
    nav.record_visit(path("b"));
    assert_eq!(nav.nav_buttons(), (true, true), "arriving is not a new visit");
    assert_eq!(nav.navigate(1), Some(path("c")));
    assert_eq!(nav.navigate(-2), Some(path("a")));
    nav.record_visit(path("d"));
    assert_eq!(nav.visited, vec![path("a"), path("d")]);
    assert_eq!(nav.nav_buttons(), (true, false));
}

#[test]
fn the_history_forgets_its_oldest() {
    let mut nav = NavHistory::new();
    for n in 0..MAX_NAV_HISTORY + 5 {
        nav.record_visit(path(&format!("f{n}")));
    }
    assert_eq!(nav.visited.len(), MAX_NAV_HISTORY);
    assert_eq!(nav.visited[0], path("f5"));
    assert_eq!(nav.pos, MAX_NAV_HISTORY - 1);
}

fn shown(lines: &[(char, String)]) -> Vec<(char, &str)> {
    lines.iter().map(|(k, t)| (*k, t.as_str())).collect()
}

#[test]
fn the_changes_face_shows_what_moved_and_three_lines_around_it() {
    assert_eq!(
        shown(&diff_lines("same\n", "same\n")),
        [('@', "No changes since the last commit.")]
    );
    assert_eq!(
        shown(&diff_lines("", "")),
        [('@', "No changes since the last commit.")]
    );
    assert_eq!(
        shown(&diff_lines("a\nb\nc\n", "a\nB\nc\n")),
        [(' ', "a"), ('-', "b"), ('+', "B"), (' ', "c")]
    );
    let lines: Vec<String> = (0..20).map(|n| format!("l{n}\n")).collect();
    let old = lines.concat();
    let new = old.replace("l0\n", "").replace("l19\n", "l19 more");
    assert_eq!(
        shown(&diff_lines(&old, &new)),
        [
            ('-', "l0"),
            (' ', "l1"),
            (' ', "l2"),
            (' ', "l3"),
            ('@', "⋯"),
            (' ', "l16"),
            (' ', "l17"),
            (' ', "l18"),
            ('-', "l19"),
            ('+', "l19 more"),
        ]
    );
}

#[test]
fn a_long_diff_is_cut_and_says_so() {
    let new = "x\n".repeat(MAX_DIFF_LINES);
    assert_eq!(diff_lines("", &new).len(), MAX_DIFF_LINES, "it all fits");
    let more = "x\n".repeat(MAX_DIFF_LINES + 1);
    let cut = diff_lines("", &more);
    assert_eq!(cut.len(), MAX_DIFF_LINES + 1);
    assert_eq!(cut[MAX_DIFF_LINES], ('@', "… (diff truncated)".to_string()));

    let line = |n: usize| vec![('+', "x\n\n".to_string()); n];
    let at_the_limit = show_hunks(&vec![line(MAX_DIFF_LINES), Vec::new()]);
    assert_eq!(
        at_the_limit.last(),
        Some(&('@', "⋯".to_string())),
        "a mark is not what the limit counts at"
    );
    assert_eq!(at_the_limit[0], ('+', "x".to_string()));
}

/// A mark can stand past the limit, and no more than one.
#[test]
fn a_face_is_never_longer_than_the_limit_a_mark_and_a_note() {
    let line = |n: usize| vec![('+', "x\n".to_string()); n];
    let face = show_hunks(&vec![line(MAX_DIFF_LINES), line(1), line(1)]);
    assert_eq!(face.len(), MAX_DIFF_LINES + 2);
    assert_eq!(face[MAX_DIFF_LINES], ('@', "⋯".to_string()));
    assert_eq!(face[MAX_DIFF_LINES + 1], ('@', "… (diff truncated)".to_string()));
}

/// The context and the removed lines of a diff are the old text's, in order,
/// and the context and the added lines the new one's.
#[test]
fn a_diff_tells_both_texts() {
    let old = "a\nb\nc\nd\ne";
    let new = "b\nX\nc\nY\nZ\ne\nf";
    let lines = diff_lines(old, new);
    let side = |kind: char| -> Vec<String> {
        let kept = lines.iter().filter(|(k, _)| *k == ' ' || *k == kind);
        kept.map(|(_, text)| text.clone()).collect()
    };
    assert_eq!(side('-').join("\n"), old);
    assert_eq!(side('+').join("\n"), new);
}

#[test]
fn a_diff_line_is_written_and_tinted_by_its_kind() {
    assert_eq!(diff_text('+', "x"), "+ x\n");
    assert_eq!(diff_text(' ', "x"), "  x\n");
    assert_eq!(diff_text('@', "⋯"), "⋯\n");
    assert_eq!(diff_tag('+'), Some("ws-diff-add"));
    assert_eq!(diff_tag('-'), Some("ws-diff-del"));
    assert_eq!(diff_tag('@'), Some("ws-diff-meta"));
    assert_eq!(diff_tag(' '), None);
}

#[test]
fn a_save_trims_and_ends_the_last_line_as_asked() {
    assert_eq!(save_text("a  \n\tb\t", true, true), "a\n\tb\n");
    assert_eq!(save_text("a  \nb", false, true), "a  \nb\n");
    assert_eq!(save_text("a  \nb", false, false), "a  \nb");
    assert_eq!(save_text("a\n", true, false), "a", "lines and a join");
    assert_eq!(save_text("a\r\nb \r\n", true, true), "a\nb\n");
    assert_eq!(save_text("", true, true), "\n");
    assert_eq!(save_text("", false, false), "");
    assert_eq!(save_text("a\n\n\n", true, true), "a\n\n");
}

#[test]
fn a_refused_save_says_what_safe_mode_allows() {
    assert_eq!(
        prepare_save(&path("/w/src/a.rs"), false, "x", false, true),
        Err(
            "/w/src/a.rs is read-only in safe mode (only devcontainer setup is editable until \
             the devcontainer runs)"
                .to_string()
        )
    );
    assert_eq!(
        prepare_save(&path("/w/src/a.rs"), true, "x", false, true),
        Ok("x\n".to_string())
    );
    assert_eq!(
        save_failure(&path("/w/a"), "disk full"),
        "saving /w/a failed: disk full"
    );
}

fn pairs(list: &[(&str, &str)]) -> Vec<(String, String)> {
    list.iter()
        .map(|(k, v)| (k.to_string(), v.to_string()))
        .collect()
}

/// What the properties come to by the outside crate's own reading.
fn by_the_crate(list: &[(&str, &str)]) -> EditPolicy {
    let mut props: ec4rs::Properties = list
        .iter()
        .map(|(k, v)| (k.to_string(), v.to_string()))
        .collect();
    props.use_fallbacks();
    EditPolicy {
        spaces: match props.get::<ec4rs::property::IndentStyle>() {
            Ok(style) => Some(style == ec4rs::property::IndentStyle::Spaces),
            Err(_) => None,
        },
        indent_width: match props.get::<ec4rs::property::IndentSize>() {
            Ok(ec4rs::property::IndentSize::Value(size)) => Some(size as i32),
            _ => None,
        },
        tab_width: match props.get::<ec4rs::property::TabWidth>() {
            Ok(ec4rs::property::TabWidth::Value(width)) => Some(width as u32),
            _ => None,
        },
        trim_trailing_ws: props.get::<ec4rs::property::TrimTrailingWs>()
            == Ok(ec4rs::property::TrimTrailingWs::Value(true)),
        final_newline: props.get::<ec4rs::property::FinalNewline>()
            != Ok(ec4rs::property::FinalNewline::Value(false)),
    }
}

#[test]
fn the_indent_size_and_the_tab_width_stand_in_for_each_other() {
    let policy = apply_editorconfig(&pairs(&[("indent_style", "space"), ("indent_size", "2")]));
    assert_eq!(
        policy,
        EditPolicy {
            spaces: Some(true),
            indent_width: Some(2),
            tab_width: Some(2),
            trim_trailing_ws: false,
            final_newline: true,
        }
    );
    let policy = apply_editorconfig(&pairs(&[("indent_style", "tab"), ("tab_width", "8")]));
    assert_eq!(policy.spaces, Some(false));
    assert_eq!((policy.indent_width, policy.tab_width), (Some(8), Some(8)));
    assert_eq!(
        read_policy(&pairs(&[("tab_width", "8")])).indent_width,
        None,
        "without the fallbacks they do not"
    );
    let policy = apply_editorconfig(&pairs(&[
        ("trim_trailing_whitespace", "TRUE"),
        ("insert_final_newline", "False"),
    ]));
    assert!(policy.trim_trailing_ws && !policy.final_newline);
}

#[test]
fn every_mix_of_properties_reads_as_the_crate_reads_it() {
    let sizes = ["", "4", "+6", "TAB", "tab", "unset", "Unset", "-1", "x", "99999999999999999999"];
    let styles = ["", "tab", "Space", "unset", "both"];
    let words = ["", "true", "FALSE", "unset", "yes"];
    for size in sizes {
        for width in sizes {
            for style in styles {
                let list = [
                    ("tab_width", width),
                    ("indent_style", style),
                    ("indent_size", size),
                ];
                assert_eq!(
                    apply_editorconfig(&pairs(&list)),
                    by_the_crate(&list),
                    "{list:?}"
                );
                let only = [("indent_size", size), ("indent_style", style)];
                assert_eq!(apply_editorconfig(&pairs(&only)), by_the_crate(&only));
            }
        }
    }
    for trim in words {
        for end in words {
            let list = [
                ("trim_trailing_whitespace", "true"),
                ("insert_final_newline", end),
                ("trim_trailing_whitespace", trim),
            ];
            assert_eq!(
                apply_editorconfig(&pairs(&list)),
                by_the_crate(&list),
                "the last word counts: {list:?}"
            );
        }
    }
}

fn open(name: &str, content: &str) -> EditorPage {
    EditorPage::new(
        path(name),
        content,
        content.chars().count() as i32,
        false,
        None,
    )
}

#[test]
fn a_page_opens_as_editable_source() {
    let mut page = open("/w/README.md", "# hi\n");
    assert!(page.raw_source && !page.plain && page.final_newline && !page.trim_trailing_ws);
    assert_eq!(page.face, Face::Edit);
    assert_eq!(page.tooltip, "/w/README.md");
    assert!(!page.wysiwyg_active());
    let look = page.toggle_preview(true);
    assert!(look.minimap && look.highlighted && look.render);
    assert!(page.wysiwyg_active());
    assert_eq!(page.face, Face::Preview);
    assert_eq!(Face::Preview.name(), "preview");

    assert!(page.set_changes_view(true), "the face is to be filled");
    assert_eq!(page.face, Face::Changes);
    assert!(!page.set_changes_view(false));
    assert_eq!(page.face, Face::Preview, "the changes face is a detour");
    page.toggle_preview(false);
    assert_eq!(page.face, Face::Edit);

    let mut big = open("/w/big.md", "x");
    big.chars = MAX_WYSIWYG_CHARS + 1;
    big.toggle_preview(true);
    assert!(!big.wysiwyg_active(), "too large to render on every edit");

    let mut plain = open("/w/min.js", &"a".repeat(5000));
    assert!(plain.plain);
    let look = plain.refresh_markdown_mode();
    assert!(!look.minimap && !look.highlighted && !look.render);
}

#[test]
fn typing_bursts_restyle_once() {
    let mut page = open("/w/README.md", "x");
    assert!(!page.typed(), "source is not restyled");
    page.toggle_preview(true);
    assert!(page.typed());
    assert!(!page.typed(), "already queued");
    assert!(page.restyle_due());
    page.typed();
    page.toggle_preview(false);
    assert!(!page.restyle_due(), "the preview went away meanwhile");
    assert!(!page.restyle_queued);
}

#[test]
fn the_dirty_dot_changes_only_when_it_has_to() {
    let mut page = open("/w/a.rs", "x");
    assert!(!page.set_dirty_dot(false));
    assert!(page.set_dirty_dot(true));
    assert_eq!(page.indicator, Indicator::Uncommitted);
    assert!(!page.set_dirty_dot(true));
    assert!(page.set_dirty_dot(false));
    page.saved(Err("saving /w/a.rs failed: disk full".into()));
    assert!(!page.set_dirty_dot(true), "a warning stands in the same slot");
    assert_eq!(page.indicator, Indicator::Warning);
    assert_eq!(page.tooltip, "saving /w/a.rs failed: disk full");
}

/// A clean buffer follows the disk; a dirty one is flagged and kept.
#[test]
fn the_disk_never_clobbers_an_edit() {
    let mut page = open("/w/a.rs", "one");
    assert_eq!(page.changed_on_disk(), DiskChange::Read);
    assert_eq!(page.reloaded("one", "one", 2, 3), Reload::Keep, "our own echo");
    assert_eq!(
        page.reloaded("on", "one", 3, 2),
        Reload::Replace {
            cursor: 2,
            restyle: false,
            changes: false
        }
    );
    let long = "a".repeat(5000);
    assert_eq!(
        page.reloaded(&long, "on", 1, 5000),
        Reload::Replace {
            cursor: 1,
            restyle: true,
            changes: false
        },
        "the guard was looked at again"
    );
    assert!(page.plain);

    page.modified = true;
    assert_eq!(page.changed_on_disk(), DiskChange::Flagged);
    assert_eq!(page.indicator, Indicator::Warning);
    assert_eq!(
        page.tooltip,
        "/w/a.rs changed on disk while you have unsaved edits"
    );
    assert_eq!(page.reloaded("two", "one", 0, 3), Reload::Keep);
}

#[test]
fn a_suggestion_is_taken_dismissed_or_replaced() {
    let mut page = open("/w/a.rs", "x");
    assert_eq!(page.key(PageKey::Tab, false), KeyStep::Pass);
    assert_eq!(page.key(PageKey::S, true), KeyStep::Save);
    assert_eq!(page.key(PageKey::S, false), KeyStep::Pass);
    assert!(page.offer(3, "né").is_none());
    assert_eq!(page.key(PageKey::Tab, false), KeyStep::Accept);
    assert_eq!(
        page.key(PageKey::Escape, false),
        KeyStep::Dismiss { stop: true }
    );
    assert_eq!(
        page.key(PageKey::Other, false),
        KeyStep::Dismiss { stop: false }
    );
    assert_eq!(
        page.key(PageKey::S, true),
        KeyStep::Save,
        "saving comes before the suggestion"
    );
    let replaced = page.offer(0, "again").unwrap();
    assert_eq!(replaced.span(), (3, 5), "in characters");
    let taken: Suggestion = page.take_suggestion().unwrap();
    assert_eq!((taken.offset, taken.text.as_str()), (0, "again"));
    assert!(page.take_suggestion().is_none());
}

#[test]
fn a_file_is_open_once_and_its_edits_are_asked_about() {
    let mut editor = Editor::new();
    assert_eq!(editor.opened(path("/w/a.md"), "x", 1, None), (0, true));
    assert_eq!(editor.opened(path("/w/b.rs"), "y", 1, None), (1, true));
    assert_eq!(
        editor.opened(path("/w/a.md"), "other", 5, None),
        (0, false),
        "the open buffer stays"
    );
    assert_eq!(editor.open_at(&path("/w/b.rs")), Some(1));
    assert_eq!(editor.open_at(&path("/w/c.rs")), None);

    let toggles = editor.on_selected(Some(0));
    assert!(toggles.preview_visible && toggles.preview_active == Some(false));
    assert!(toggles.changes_sensitive && !toggles.changes_active);
    let toggles = editor.on_selected(Some(1));
    assert!(!toggles.preview_visible);
    let toggles = editor.on_selected(None);
    assert!(!toggles.preview_visible && !toggles.changes_sensitive);
    assert_eq!(editor.nav.visited, vec![path("/w/a.md"), path("/w/b.rs")]);

    editor.pages[1].modified = true;
    assert_eq!(
        editor.close_page(1),
        CloseStep::Ask {
            body: "“b.rs” has unsaved changes.".into()
        }
    );
    assert_eq!(editor.close_current(Some(0)), CloseStep::Close);
    assert_eq!(editor.close_current(None), CloseStep::NotOurs);
    assert_eq!(editor.close_page(7), CloseStep::NotOurs);
    assert!(!Editor::close_answered(CloseAnswer::Save, false));
    assert!(Editor::close_answered(CloseAnswer::Save, true));
    assert!(Editor::close_answered(CloseAnswer::Discard, false));
    assert!(!Editor::close_answered(CloseAnswer::KeepEditing, true));

    let files = editor.publish_state(Some(1));
    assert_eq!(files.len(), 2);
    assert!(!files[0].dirty && !files[0].active);
    assert!(files[1].dirty && files[1].active);
    assert_eq!(files[1].path, path("/w/b.rs"));

    editor.closed(0);
    assert_eq!(editor.open_at(&path("/w/b.rs")), Some(0));
}

#[test]
fn git_marks_the_tabs_of_uncommitted_files() {
    let mut editor = Editor::new();
    editor.opened(path("/w/a.rs"), "x", 1, None);
    editor.opened(path("/w/b.rs"), "y", 1, None);
    let entry = |name: &str, state| StatusEntry {
        path: path(name),
        state,
    };
    editor.sync_git_state(
        &vec![
            entry("a.rs", FileState::Modified),
            entry("b.rs", FileState::Staged),
            entry("c.rs", FileState::Untracked),
        ],
        &path("/w"),
    );
    assert_eq!(editor.pages[0].indicator, Indicator::Uncommitted);
    assert_eq!(editor.pages[1].indicator, Indicator::Clear);
    editor.opened(path("/w/c.rs"), "z", 1, None);
    assert_eq!(
        editor.pages[2].indicator,
        Indicator::Uncommitted,
        "a file opened later is marked too"
    );
    assert_eq!(editor.on_file_changed(&path("/w/none")), DiskChange::NotOpen);
    assert_eq!(editor.on_file_changed(&path("/w/a.rs")), DiskChange::Read);
    assert!(editor.show_suggestion(None, 0, "x").is_none());
    assert_eq!(editor.show_suggestion(Some(0), 0, "x"), Some(None));
}

#[test]
fn a_captured_selection_is_one_based_and_capped() {
    let picked = capture_selection(&path("/w/a.rs"), 0, 2, "text");
    assert_eq!((picked.start_line, picked.end_line), (1, 3));
    assert_eq!(picked.text, "text");
    let long = "é".repeat(MAX_SELECTION_CAPTURE_CHARS + 1);
    assert_eq!(
        capture_selection(&path("/w/a.rs"), 0, 0, &long).text,
        "é".repeat(MAX_SELECTION_CAPTURE_CHARS)
    );
    assert_eq!((jump_line(0), jump_line(1), jump_line(9)), (0, 0, 8));
}

#[test]
fn the_scheme_follows_the_style_and_is_set_once() {
    assert_eq!(scheme_for_style(true, None), Some("Adwaita-dark"));
    assert_eq!(scheme_for_style(true, Some("Adwaita-dark")), None);
    assert_eq!(scheme_for_style(false, Some("Adwaita-dark")), Some("Adwaita"));
}
