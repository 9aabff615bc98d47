use taste_app::environment::EnvironmentId;
use taste_app::filetree::actions::{
    build_review_file_list, discard_toast, file_op_toast, index_placeholder, init_toast,
    open_conflict, relative_age, rename_target, staging_toast, stash_toast, ChangedFile, FileOp,
    Flow,
};
use taste_app::filetree::bulk::BulkOp;
use taste_app::filetree::changed::{changed_badge, discard_enabled, discard_tooltip};
use taste_app::filetree::commit::{
    clean_commit_message, commit, commit_toast, suggest_commit_message, suggested_message,
    CommitChoice, Suggestion,
};
use taste_app::filetree::ghosts::{chosen_template, create_ghost, ghost_template, TemplateChoice};
use taste_app::filetree::ignoring::{
    add_rule, braces_fit, count_rules, evaluate_expression, expression_feedback, rule_entered,
    rule_toast, MAX_NESTED_BRACES,
};
use taste_app::filetree::listing::{
    activate, build_dir_store, ghost_candidates, Activation, Convention, DirEntry, FileNode,
};
use taste_app::filetree::menu::{action_label, prompt_name, RowAction};
use taste_app::filetree::plan::{op_toast, GitStep};
use taste_app::filetree::remote::{
    branch_toast, continue_toast, fetch_due, first_spoken, new_branch_name, populate_branch_menu,
    push_toast, run_git_step, sync_next, GitEnd, StepEnd, SyncStep, FETCH_INTERVAL,
};
use taste_app::filetree::rows::{search_mark, RowHandle, SearchMark};
use taste_app::filetree::search::{group_hits, SearchHit, SearchView};
use taste_app::filetree::snapshot::{
    sync_face, sync_label, Jump, StatusSnapshot, SyncFace, SyncStatus,
};
use taste_app::filetree::status::{lookup, state_style, FileState, StatusEntry};
use taste_app::filetree::tree::{FileTree, Filter, Paint, PaneKind, ReviewAim};
use taste_app::path::TreePath;

fn path(text: &str) -> TreePath {
    TreePath::parse(text)
}

fn paths(texts: &[&str]) -> Vec<TreePath> {
    texts.iter().map(|t| path(t)).collect()
}

fn entry(name: &str, state: FileState) -> StatusEntry {
    StatusEntry {
        path: path(name),
        state,
    }
}

fn tree() -> FileTree {
    FileTree::new(path("/w"), Some(path("/w")), true)
}

fn snapshot(status: Vec<StatusEntry>) -> StatusSnapshot {
    StatusSnapshot {
        status,
        stashed: Vec::new(),
        ignore_rules: 0,
        branch: Some("main".into()),
        sync: None,
        rebasing: false,
    }
}

// --- where the panes are aimed ------------------------------------------------

#[test]
fn watching_an_environment_is_read_only_and_comes_home_again() {
    let mut tree = tree();
    assert!(!tree.read_only());
    assert_eq!(tree.view_root(), path("/w"));
    let calm = EnvironmentId::new("calm-1");
    let moved = tree
        .aim_at(
            Some((calm.clone(), path("/clones/calm-1"))),
            Some(path("/clones/calm-1")),
        )
        .unwrap();
    assert!(!moved.review_ended);
    assert!(tree.read_only());
    assert_eq!(tree.watching(), Some(calm.clone()));
    assert_eq!(tree.view_root(), path("/clones/calm-1"));
    assert!(tree
        .refuse_read_only()
        .unwrap()
        .starts_with("Read-only: calm-1 is another environment's checkout."));
    assert!(tree.apply_view_permissions().frozen);
    assert!(!tree.apply_view_permissions().branch);
    assert!(tree.lock_reason(false, true).unwrap().contains("calm-1's checkout"));
    assert_eq!(
        tree.aim_at(
            Some((calm, path("/clones/calm-1"))),
            Some(path("/clones/calm-1"))
        ),
        None,
        "already there"
    );
    assert!(tree.aim_at(None, Some(path("/w"))).is_some());
    assert_eq!(tree.refuse_read_only(), None);
    let calm = EnvironmentId::new("calm-1");
    assert!(tree.seed_watching_for_probe(&calm, Some(path("/w"))).is_some());
    assert!(tree.read_only());
    assert_eq!(tree.workdir, Some(path("/w")));
    assert!(tree.seed_watching_for_probe(&calm, None).is_none());
    assert!(matches!(
        tree.seed_review_for_probe("agents/calm-1", "main"),
        Paint::Review(_)
    ));
    assert!(tree.aim_at(None, Some(path("/w"))).unwrap().review_ended);
    assert_eq!(tree.view_root(), path("/w"));
}

#[test]
fn a_review_outranks_the_filter_and_gives_it_back() {
    let mut tree = tree();
    tree.choose_filter(Filter::Dirty);
    let aim = ReviewAim {
        branch: "agents/calm-1".into(),
        target: "main".into(),
    };
    assert_eq!(
        tree.open_review("agents/calm-1".into(), "main".into()),
        Paint::Review(aim.clone())
    );
    assert!(tree.review_still_wanted(&aim));
    assert_eq!(tree.render_filter_view(), Paint::Review(aim.clone()));
    let left = tree.close_review();
    assert!(left.review_ended);
    assert_eq!(left.paint, Paint::Changed, "the filter was there underneath");
    let again = tree.close_review();
    assert!(!again.review_ended && again.paint == Paint::Keep);

    tree.open_review("agents/calm-1".into(), "main".into());
    tree.search_changed("needle".into());
    tree.land_search(Vec::new(), None);
    assert!(tree.searching);
    let chosen = tree.choose_filter(Filter::All);
    assert!(!tree.searching && tree.query.is_empty(), "and the search");
    assert!(chosen.review_ended, "a filter ends the review");
    assert_eq!(chosen.paint, Paint::Tree);
    assert!(!tree.review_still_wanted(&aim));
}

#[test]
fn a_search_covers_what_was_there_and_uncovers_it() {
    let mut tree = tree();
    assert_eq!(tree.search_changed("needle".into()), Paint::Search("needle".into()));
    assert!(tree.search_still_wanted("needle"));
    assert!(!tree.search_still_wanted("other"));
    assert_eq!(tree.search_changed("   ".into()), Paint::Tree);
    assert!(tree.rebuild_index());
    assert!(!tree.rebuild_index(), "one at a time");
    tree.index_built(1234);
    assert_eq!(tree.sync_filter_counts().all, "All 1234");
    assert!(tree.on_git_status_changed(), "arm the timer");
    assert!(!tree.refresh_status(), "a burst is one query");
    assert!(!tree.initialized(None));
    assert_eq!(tree.workdir, None, "what is found, whether or not it went well");
    tree.begin_sync_op();
    assert!(tree.sync_busy);
    tree.end_sync_op();
    assert!(!tree.sync_busy);
}

// --- the status ----------------------------------------------------------------

#[test]
fn an_unchanged_status_repaints_nothing() {
    let mut tree = tree();
    let dirty = || vec![entry("a", FileState::Modified), entry("b", FileState::Staged)];
    let first = tree.apply_status(Some(snapshot(dirty())), true);
    assert_eq!(first.paint, Paint::Restyle);
    assert_eq!(first.branch.as_deref(), Some("main"));
    assert!(first.is_repo && first.jump == Jump::Stay);
    let mut other_way_round = dirty();
    other_way_round.reverse();
    let again = tree.apply_status(Some(snapshot(other_way_round)), true);
    assert_eq!(again.paint, Paint::Keep, "the order is git's own business");
    let flipped = tree.apply_status(Some(snapshot(dirty())), false);
    assert_eq!(flipped.paint, Paint::Rebind, "a mode flip changes every row");
    let mut ruled = snapshot(dirty());
    ruled.ignore_rules = 3;
    assert_eq!(tree.apply_status(Some(ruled), false).paint, Paint::Rebind);

    let labels = tree.sync_filter_counts();
    assert_eq!(labels.dirty, "Dirty 1");
    assert_eq!(labels.staged, "Staged 1");
    assert_eq!(labels.stashed, "Stashed 0");
    assert_eq!(labels.conflicts, "Conflicts 0");
    assert!(labels.staged_accent);
    assert_eq!(labels.ignored_count, "3");
    assert_eq!(
        labels.ignored_tooltip,
        "Show ignored files — 3 ignore rules (the RULE count; counting ignored files would walk \
         everything)"
    );
}

#[test]
fn conflicts_steer_the_view() {
    let mut tree = tree();
    let mut paused = snapshot(vec![entry("a", FileState::Conflicted)]);
    paused.rebasing = true;
    let landed = tree.apply_status(Some(paused), true);
    assert_eq!(landed.jump, Jump::ToConflicts);
    assert_eq!(tree.filter, Filter::Conflicts);
    assert!(tree.conflict_toggle_shows());
    assert_eq!(landed.sync, Some(SyncFace::Paused));
    let ended = tree.apply_status(Some(snapshot(Vec::new())), true);
    assert_eq!(ended.jump, Jump::ToAll);
    assert_eq!(tree.filter, Filter::All);
    assert!(!tree.conflict_toggle_shows());
}

#[test]
fn a_workspace_without_a_repository_is_painted_once() {
    let mut tree = FileTree::new(path("/w"), None, true);
    let first = tree.apply_status(None, true);
    assert!(!first.is_repo && first.branch.is_none() && first.sync.is_none());
    assert_ne!(first.paint, Paint::Keep);
    assert_eq!(tree.apply_status(None, true).paint, Paint::Keep);
    assert_ne!(tree.apply_status(None, false).paint, Paint::Keep);
}

#[test]
fn the_sync_row_counts_both_ways() {
    let status = |upstream: Option<&str>| {
        Some(SyncStatus {
            upstream: upstream.map(String::from),
            ahead: 1,
            behind: 0,
        })
    };
    match sync_face(false, &status(Some("origin/main"))) {
        SyncFace::Counts { push, pull } => {
            assert_eq!(
                (push.label.as_str(), push.tooltip.as_str(), push.sensitive),
                ("↑ 1", "Push 1 commit to origin/main", true)
            );
            assert_eq!(
                (pull.label.as_str(), pull.tooltip.as_str(), pull.sensitive),
                ("↓ 0", "Pull 0 commits (fetch + rebase)", false)
            );
        }
        other => panic!("{other:?}"),
    }
    assert_eq!(sync_face(false, &status(None)), SyncFace::NoUpstream);
    assert_eq!(sync_face(false, &None), SyncFace::Unknown);
    assert_eq!(
        sync_label(&sync_face(true, &None)),
        "rebase paused — resolve, mark, Continue"
    );
    assert_eq!(sync_label(&SyncFace::NoUpstream), "no upstream");
}

// --- rows -----------------------------------------------------------------------

#[test]
fn only_rows_that_moved_are_restyled() {
    let mut tree = tree();
    tree.status = vec![
        entry("src/a.rs", FileState::Staged),
        entry("src/b.rs", FileState::Modified),
    ];
    let row = |name: &str, is_dir, painted, locked| RowHandle {
        path: path(name),
        is_dir,
        painted,
        locked,
    };
    let rows = vec![
        row("/w/src", true, FileState::Modified, false),
        row("/w/src/a.rs", false, FileState::Staged, false),
        row("/w/src/b.rs", false, FileState::Ignored, true),
        row("/elsewhere", false, FileState::Modified, false),
    ];
    let moved = tree.restyle_changed_rows(&rows);
    let which: Vec<(usize, FileState)> = moved.iter().map(|r| (r.row, r.state)).collect();
    assert_eq!(
        which,
        [
            (0, FileState::Staged),
            (2, FileState::Modified),
            (3, FileState::Clean)
        ]
    );
    assert_eq!(moved[1].badge, state_style(FileState::Modified).0);
    assert_eq!(moved[1].badge_loses, state_style(FileState::Ignored).1);
    assert_eq!(moved[1].label_loses, None, "a locked row stays dim");
    assert_eq!(tree.repo_relative(&path("/w/src/a.rs")), Some(path("src/a.rs")));
    assert_eq!(tree.repo_relative(&path("/elsewhere")), None);
    assert_eq!(tree.state_of(&path("/w/src"), true), FileState::Staged);
    assert_eq!(
        lookup(&tree.status, &path("src/b.rs")),
        Some(FileState::Modified)
    );
}

fn hit(name: &str, line: u32) -> SearchHit {
    SearchHit {
        path: path(name),
        line,
        text: String::new(),
    }
}

#[test]
fn matches_keep_their_folders_on_screen() {
    let mut tree = tree();
    let landed = tree.land_search(
        vec![
            hit("/w/src/a.rs", 3),
            hit("/w/b.rs", 1),
            hit("/w/src/a.rs", 9),
        ],
        Some(path("/w/docs/x.md")),
    );
    assert!(!landed.nothing);
    let view = Some(landed.view);
    let mark = |name: &str, is_dir| search_mark(&view, &path(name), is_dir);
    assert_eq!(mark("/w/src/a.rs", false), SearchMark::Hits(2));
    assert_eq!(mark("/w/b.rs", false), SearchMark::Hits(1));
    assert_eq!(mark("/w/docs/x.md", false), SearchMark::Zero);
    assert_eq!(mark("/w/c.rs", false), SearchMark::Faded);
    assert_eq!(mark("/w/src", true), SearchMark::Plain);
    assert_eq!(mark("/w/target", true), SearchMark::Faded);
    assert_eq!(search_mark(&None, &path("/w/c.rs"), false), SearchMark::Plain);
    assert_eq!(tree.matches_intervention(&None, &path("/w/b.rs")), None);
    assert_eq!(tree.pane, PaneKind::Closed);
    let chosen = tree.matches_intervention(&view, &path("/w/b.rs")).unwrap();
    assert_eq!(chosen.title, "b.rs — 1 match");
    assert_eq!((tree.pane, &tree.pane_file), (PaneKind::Adhoc, &Some(path("/w/b.rs"))));
    let again = tree.land_search(vec![hit("/w/b.rs", 1)], Some(path("/w/docs/x.md")));
    assert_eq!(again.panel, Some(path("/w/b.rs")), "the panel stays on its file");
    let view: SearchView = view.unwrap();
    let panel = view.match_panel(&path("/w/src/a.rs"));
    assert_eq!(panel.title, "a.rs — 2 matches");
    assert_eq!(panel.subtitles, ["line 3", "line 9"]);
    let none = view.match_panel(&path("/w/c.rs"));
    assert_eq!(none.title, "c.rs — 0 matches");
    assert_eq!(view.match_panel(&path("/w/b.rs")).title, "b.rs — 1 match");
    let groups = group_hits(vec![hit("/a", 1), hit("/b", 1), hit("/a", 2)]);
    let shape: Vec<(String, usize)> = groups
        .iter()
        .map(|g| (g.path.show(), g.hits.len()))
        .collect();
    assert_eq!(shape, [("/a".to_string(), 2), ("/b".to_string(), 1)]);

    let mut empty = FileTree::new(path("/w"), None, true);
    assert!(empty.land_search(Vec::new(), None).nothing);
}

#[test]
fn a_folder_lists_its_folders_first_and_its_suggestions_last() {
    let found = |name: &str, is_dir| DirEntry {
        path: path(name),
        is_dir,
    };
    let nodes = build_dir_store(
        &path("/w"),
        vec![
            found("/w", true),
            found("/w/.git", true),
            found("/w/zeta.rs", false),
            found("/w/Beta.rs", false),
            found("/w/alpha.rs", false),
            found("/w/src", true),
            found("/w/Docs", true),
        ],
        &paths(&["/w/.editorconfig"]),
        None,
    );
    let names: Vec<String> = nodes.iter().map(|n| n.path.display_name()).collect();
    assert_eq!(
        names,
        ["Docs", "src", "alpha.rs", "Beta.rs", "zeta.rs", ".editorconfig"]
    );
    assert!(nodes[5].suggested && !nodes[4].suggested);
    let filtered = build_dir_store(
        &path("/w"),
        vec![found("/w/a.rs", false), found("/w/b.rs", false)],
        &Vec::new(),
        Some(&paths(&["/w/b.rs"])),
    );
    assert_eq!(filtered.len(), 1);

    let convention = |name: &str, suggested, exists| Convention {
        path: path(name),
        suggested,
        exists,
    };
    assert_eq!(
        ghost_candidates(&vec![
            convention("/w/.editorconfig", true, false),
            convention("/w/.gitignore", true, true),
            convention("/w/Makefile", false, false),
        ]),
        paths(&["/w/.editorconfig"])
    );
    let node = |name: &str, is_dir, suggested| FileNode {
        path: path(name),
        is_dir,
        suggested,
    };
    assert_eq!(
        activate(&node("/w/.editorconfig", false, true), &None),
        Activation::CreateGhost
    );
    assert_eq!(activate(&node("/w/src", true, false), &None), Activation::ToggleFolder);
    assert_eq!(activate(&node("/w/a.rs", false, false), &None), Activation::Open);
}

#[test]
fn a_rows_menu_offers_what_applies() {
    let mut tree = tree();
    tree.status = vec![entry("a.rs", FileState::Untracked), entry("b.rs", FileState::Staged)];
    let node = |name: &str, is_dir, suggested| FileNode {
        path: path(name),
        is_dir,
        suggested,
    };
    let create = vec![RowAction::NewFile, RowAction::NewFolder];
    let modify = vec![RowAction::Rename, RowAction::Delete];
    let menu = tree.show_context_menu(&node("/w/a.rs", false, false));
    assert_eq!(
        menu.sections,
        vec![vec![RowAction::Stage], create.clone(), modify.clone()]
    );
    assert!(menu.enabled);
    assert_eq!(menu.target_dir, path("/w"));
    let menu = tree.show_context_menu(&node("/w/b.rs", false, false));
    assert_eq!(menu.sections[0], [RowAction::Unstage]);
    let menu = tree.show_context_menu(&node("/w/src", true, false));
    assert_eq!(menu.sections, vec![create.clone(), modify]);
    assert_eq!(menu.target_dir, path("/w/src"));
    let menu = tree.show_context_menu(&node("/w/.editorconfig", false, true));
    assert_eq!(menu.sections, vec![create]);
    assert_eq!(action_label(RowAction::NewFile), "New File…");
    assert_eq!(prompt_name("  a.rs "), Some("a.rs".to_string()));
    for refused in ["", "  ", ".", "..", "a/b"] {
        assert_eq!(prompt_name(refused), None, "{refused:?}");
    }
}

// --- the changed list and its moves -----------------------------------------------

#[test]
fn the_changed_list_shows_one_filter_sorted_by_path() {
    let mut tree = tree();
    tree.status = vec![
        entry("b/z.rs", FileState::Modified),
        entry("a.rs", FileState::Untracked),
        entry("b.rs", FileState::Staged),
        entry("c.rs", FileState::Ignored),
        entry("d.rs", FileState::Conflicted),
    ];
    tree.stashed = paths(&["b/z.rs", "gone.rs"]);
    tree.choose_filter(Filter::Dirty);
    let dirty = tree.render_changed_list();
    let shown: Vec<(String, FileState, bool)> = dirty
        .rows
        .iter()
        .map(|r| (r.subtitle.clone(), r.state, r.in_stash))
        .collect();
    assert_eq!(
        shown,
        [
            ("a.rs".to_string(), FileState::Untracked, false),
            ("b/z.rs".to_string(), FileState::Modified, true),
        ]
    );
    assert_eq!(dirty.rows[1].title, "z.rs");
    assert_eq!(dirty.rows[1].absolute, path("/w/b/z.rs"));
    assert!(tree.selection.is_empty());

    tree.choose_filter(Filter::Stashed);
    let stashed = tree.render_changed_list();
    let names: Vec<&str> = stashed.rows.iter().map(|r| r.subtitle.as_str()).collect();
    assert_eq!(names, ["b/z.rs", "gone.rs"]);
    assert_eq!(stashed.rows[1].state, FileState::Clean);

    tree.choose_filter(Filter::Staged);
    let staged = tree.render_changed_list();
    assert_eq!(staged.rows.len(), 1);
    assert_eq!(tree.selection, paths(&["/w/b.rs"]), "a commit takes them all");
    assert_eq!(tree.pane, PaneKind::Staged);
    assert!(staged.pane.unwrap().composer, "the view rests on its pane");
    assert!(dirty.pane.is_none());

    tree.status = Vec::new();
    let none = tree.render_changed_list();
    assert!(none.rows.is_empty() && none.pane.is_none());
    assert_eq!(tree.pane, PaneKind::Closed);
    assert_eq!(none.empty_text, "Nothing is staged right now");
    tree.choose_filter(Filter::Conflicts);
    tree.rebasing = true;
    assert_eq!(
        tree.render_changed_list().empty_text,
        "All conflicts resolved — Continue the rebase above"
    );
    assert_eq!(changed_badge(FileState::Conflicted), "!");
    assert_eq!(changed_badge(FileState::Ignored), "");
    assert!(!discard_enabled(FileState::Untracked, false));
    assert!(discard_enabled(FileState::Modified, false));
    assert!(!discard_enabled(FileState::Modified, true));
    assert_eq!(
        discard_tooltip(FileState::Untracked),
        "Untracked: no committed state to restore"
    );
}

#[test]
fn the_pane_offers_the_moves_of_its_view() {
    let mut tree = tree();
    tree.status = vec![entry("a.rs", FileState::Modified), entry("b.rs", FileState::Staged)];
    tree.choose_filter(Filter::Dirty);
    tree.set_checked(path("/w/a.rs"), true);
    tree.set_checked(path("/w/a.rs"), true);
    assert_eq!(tree.selection.len(), 1, "checked once");
    let tally = tree.tally();
    assert_eq!((tally.stageable, tally.staged), (1, 0));
    let pane = tree.selection_intervention().unwrap();
    assert_eq!(tree.pane, PaneKind::Selection);
    let labels = |buttons: &[taste_app::filetree::bulk::OpButton]| {
        buttons
            .iter()
            .map(|b| (b.label, b.op, b.count, b.sensitive))
            .collect::<Vec<_>>()
    };
    assert_eq!(labels(&pane.left), [("← Stash", BulkOp::Stash, 1, true)]);
    assert_eq!(labels(&pane.right), [("Stage →", BulkOp::Stage, 1, true)]);
    tree.set_checked(path("/w/a.rs"), false);
    assert!(tree.selection.is_empty());
    assert_eq!(tree.rel_of(&path("/w/a.rs")), path("a.rs"));
}

#[test]
fn a_move_toward_the_commit_is_followed() {
    let mut tree = tree();
    tree.status = vec![entry("a.rs", FileState::Staged), entry("b.rs", FileState::Staged)];
    tree.choose_filter(Filter::Dirty);
    tree.selection = paths(&["/w/a.rs"]);
    assert_eq!(tree.after_selection_op(BulkOp::Stage, false), None);
    assert_eq!(tree.selection.len(), 1, "nothing moved");
    let moved = tree.after_selection_op(BulkOp::Stage, true).unwrap();
    assert_eq!((tree.filter, moved.paint), (Filter::Staged, Paint::Changed));
    assert_eq!(tree.after_selection_op(BulkOp::Unstage, true), None, "the view stays put");

    tree.render_changed_list();
    assert!(tree.selection_intervention().unwrap().composer);
    assert_eq!(tree.pane, PaneKind::Staged);
    let all = tree.refresh_commit_pane_state().unwrap();
    assert!(all.enabled && !all.blocked);
    tree.set_checked(path("/w/b.rs"), false);
    let some = tree.refresh_commit_pane_state().unwrap();
    assert!(!some.enabled && some.blocked, "a commit takes every staged file");
    tree.open_intervention();
    assert_eq!(tree.pane, PaneKind::Adhoc);
    assert_eq!(tree.refresh_commit_pane_state(), None);
    assert!(tree.dismiss_intervention().is_some(), "the view gets its own pane back");
    assert_eq!(tree.pane, PaneKind::Staged);
}

#[test]
fn the_toggles_never_paint_over_a_search() {
    let mut tree = tree();
    assert_eq!(tree.ghosting_toggled(true), Paint::Keep);
    assert_eq!(tree.ignored_toggled(true), Paint::Tree);
    assert_eq!(tree.refresh_tree(), Paint::Tree);
    tree.search_changed(" needle ".into());
    assert_eq!(tree.ghosting_toggled(false), Paint::Search("needle".into()));
    assert_eq!(tree.ignored_toggled(false), Paint::Keep);
    assert_eq!(tree.refresh_tree(), Paint::Search("needle".into()));
    assert!(tree.file_op_allowed(true) && !tree.file_op_allowed(false));
}

#[test]
fn a_move_is_planned_as_git_runs_it() {
    let mut tree = tree();
    tree.selection = paths(&["/w/a.rs", "/w/b.rs", "/elsewhere"]);
    let none = Vec::new();
    let plan = |tree: &FileTree, op, rebasing| match tree.plan_selection_op(op, rebasing, &none) {
        Flow::Open(steps) => steps,
        other => panic!("{other:?}"),
    };
    assert_eq!(
        plan(&tree, BulkOp::Stage, false),
        [GitStep::Stage(path("a.rs")), GitStep::Stage(path("b.rs"))]
    );
    let words = |step: &GitStep| match step {
        GitStep::Git(args) => args.join(" "),
        other => panic!("{other:?}"),
    };
    let stash = plan(&tree, BulkOp::Stash, false);
    assert_eq!(
        words(&stash[0]),
        "-C /w stash push --include-untracked -m taste-ide selection -- a.rs b.rs"
    );
    // A rebase inverts git's sides.
    for (op, rebasing, side) in [
        (BulkOp::KeepYours, true, "--theirs"),
        (BulkOp::KeepYours, false, "--ours"),
        (BulkOp::TakeRemote, true, "--ours"),
        (BulkOp::TakeRemote, false, "--theirs"),
    ] {
        let steps = plan(&tree, op, rebasing);
        assert_eq!(
            words(&steps[0]),
            format!("-C /w checkout {side} -- a.rs b.rs")
        );
        assert_eq!(steps[1..], [GitStep::Stage(path("a.rs")), GitStep::Stage(path("b.rs"))]);
    }
    let entries = vec![paths(&["b.rs"]), paths(&["a.rs", "b.rs"])];
    assert_eq!(
        tree.plan_selection_op(BulkOp::Unstash, false, &entries),
        Flow::Open(vec![
            GitStep::UnstashFile {
                index: 1,
                path: path("a.rs")
            },
            GitStep::UnstashFile {
                index: 0,
                path: path("b.rs")
            },
        ])
    );
    assert_eq!(
        tree.toggle_stage(&path("/w/a.rs"), false),
        Flow::Open(GitStep::Stage(path("a.rs")))
    );
    assert_eq!(
        tree.toggle_stage(&path("/w/a.rs"), true),
        Flow::Open(GitStep::Unstage(path("a.rs")))
    );
    assert_eq!(tree.toggle_stage(&path("/elsewhere"), true), Flow::Nothing);

    assert_eq!(op_toast(BulkOp::Unstash, &Ok(())), "Unstashed — back in the working tree");
    assert_eq!(
        op_toast(BulkOp::KeepYours, &Err("no".into())),
        "keep-yours failed: no"
    );
}

#[test]
fn a_commit_message_is_the_first_thing_said() {
    assert_eq!(
        clean_commit_message("```\n\n  \"Fix the thing\"  \nmore"),
        "Fix the thing"
    );
    assert_eq!(clean_commit_message("`x`"), "x");
    assert_eq!(clean_commit_message("\n```rust\n"), "");
    assert_eq!(suggested_message("\n```rust\n"), None, "the entry stays as it is");
    assert_eq!(suggested_message("```\nFix it\n"), Some("Fix it".to_string()));
    assert_eq!(suggest_commit_message(" \n"), Suggestion::StageFirst);
    match suggest_commit_message("+ a") {
        Suggestion::Ask(prompt) => assert!(prompt.ends_with("commit message.\n\n+ a")),
        other => panic!("{other:?}"),
    }
    assert_eq!(
        commit("  "),
        CommitChoice::Confirm {
            anyway: "(no message)"
        }
    );
    assert_eq!(commit("x"), CommitChoice::Commit);
    assert_eq!(commit_toast(&Ok(())), None);
    assert!(commit_toast(&Err("no".into())).unwrap().contains("no"));
}

// --- remotes ---------------------------------------------------------------------

#[test]
fn a_failed_fetch_is_never_followed_by_the_rebase() {
    assert_eq!(
        sync_next(SyncStep::Fetch, StepEnd::Done),
        (SyncStep::Rebase, None)
    );
    assert_eq!(
        sync_next(SyncStep::Fetch, StepEnd::Failed("offline".into())),
        (SyncStep::FetchIssues, Some("fetch failed: offline".to_string()))
    );
    assert_eq!(
        sync_next(SyncStep::Rebase, StepEnd::Failed("conflict".into())),
        (
            SyncStep::FetchIssues,
            Some("rebase failed: conflict".to_string())
        )
    );
    assert_eq!(
        sync_next(SyncStep::FetchIssues, StepEnd::Failed("never seen".into())),
        (SyncStep::Done, None),
        "a remote that never saw an issue is the normal case"
    );
    assert_eq!(
        sync_next(SyncStep::FetchIssues, StepEnd::Done),
        (SyncStep::Reconcile, None)
    );
    assert_eq!(push_toast(StepEnd::Done), "Pushed");
    assert_eq!(push_toast(StepEnd::Interrupted), "Push failed: interrupted");
}

#[test]
fn git_is_quoted_in_its_first_words() {
    assert_eq!(run_git_step(Some(GitEnd::Succeeded)), Ok(()));
    assert!(run_git_step(None).is_err(), "it ran out of time");
    assert_eq!(
        run_git_step(Some(GitEnd::NotRun("no git".into()))),
        Err("no git".to_string())
    );
    assert_eq!(first_spoken("\n  \nfatal: no\nhint"), Some("fatal: no".to_string()));
    assert_eq!(first_spoken(" \n"), None);
    assert_eq!(continue_toast(GitEnd::Succeeded), "Rebase complete");
    assert_eq!(
        continue_toast(GitEnd::Failed("\nCONFLICT in a\n".into())),
        "Rebase: CONFLICT in a"
    );
    assert_eq!(continue_toast(GitEnd::Failed(String::new())), "Rebase: stopped again");
    assert_eq!(branch_toast("x", true, &Ok(())), "Created and switched to x");
    assert_eq!(branch_toast("x", false, &Ok(())), "Switched to x");
    assert_eq!(branch_toast("x", false, &Err("dirty".into())), "Branch: dirty");
}

#[test]
fn a_background_fetch_waits_its_turn() {
    let mut tree = tree();
    assert!(fetch_due(&tree, None));
    assert!(!fetch_due(&tree, Some(FETCH_INTERVAL - 1)));
    assert!(fetch_due(&tree, Some(FETCH_INTERVAL)));
    tree.watching = Some((EnvironmentId::new("calm-1"), path("/clone")));
    assert!(!fetch_due(&tree, None), "never in someone else's checkout");
    let rows = populate_branch_menu(&vec!["main".into(), "topic".into()], &Some("topic".into()));
    let marked: Vec<(&str, bool)> = rows.iter().map(|r| (r.name.as_str(), r.current)).collect();
    assert_eq!(marked, [("main", false), ("topic", true)]);
    assert_eq!(new_branch_name(" topic "), Some("topic".to_string()));
    assert_eq!(new_branch_name("  "), None);
}

// --- ignores ------------------------------------------------------------------------

/// The expression is tried by the crate that git tools ignore with.
#[test]
fn an_expression_is_tried_against_the_files() {
    let files = Some(paths(&["/w/a.log", "/w/src/b.log", "/w/c.rs", "/other/d.log"]));
    let try_it = |expr: &str| evaluate_expression(&path("/w"), &path("a.log"), &files, expr);
    assert_eq!(try_it("*.log"), Ok((true, 2)));
    assert_eq!(try_it("/a.log"), Ok((true, 1)));
    assert_eq!(try_it("*.rs"), Ok((false, 1)));
    assert_eq!(try_it("# a comment"), Ok((false, 0)));
    assert_eq!(try_it("  "), Ok((false, 0)), "an emptied entry");
    assert_eq!(try_it("{a,c}.{log,rs}"), Ok((true, 2)));
    assert_eq!(
        evaluate_expression(&path("/w"), &path("a.log"), &None, "*.log"),
        Ok((true, 0))
    );
    let refused = try_it("[z-a]").unwrap_err();
    assert!(refused.starts_with("invalid pattern: "), "{refused}");

    let target = path("a.log");
    let good = expression_feedback(&Ok((true, 1)), &target);
    assert_eq!(good.text, "Matches 1 file (including this one)");
    assert!(!good.warning);
    let miss = expression_feedback(&Ok((false, 2)), &target);
    assert_eq!(miss.text, "Does not match a.log — matches 2 files");
    assert!(miss.warning);
    assert!(expression_feedback(&Err("no".into()), &target).warning);
    let mut tree = tree();
    let mut opened = |file: &str| match tree.ignore_intervention(&path(file)) {
        Flow::Open(pane) => pane,
        other => panic!("{other:?}"),
    };
    let pane = opened("/w/src/b.log");
    assert_eq!(pane.title, "Add to Ignores — b.log");
    assert_eq!(pane.expression, "/src/b.log");
    assert_eq!(
        try_it("/a.log"),
        evaluate_expression(
            &path("/w"),
            &path("a.log"),
            &files,
            &opened("/w/a.log").expression
        ),
        "the first expression names the file itself"
    );
}

/// A pattern whose braces nest too deep is not compiled at all.
#[test]
fn braces_nest_only_so_deep() {
    let nest = |n: usize| format!("{}a{}", "{".repeat(n), "}".repeat(n));
    let try_it = |expr: &str| evaluate_expression(&path("/w"), &path("a"), &None, expr);
    assert!(braces_fit(&nest(3)));
    assert_eq!(try_it(&nest(3)), Ok((true, 0)));
    assert!(braces_fit(&nest(MAX_NESTED_BRACES)));
    assert!(try_it(&nest(MAX_NESTED_BRACES)).is_err(), "deeper than a pattern may nest");
    assert!(!braces_fit(&nest(MAX_NESTED_BRACES + 1)));
    let flat = "{a,b}".repeat(MAX_NESTED_BRACES + 1);
    assert!(braces_fit(&flat), "side by side is not nested");
    assert!(!braces_fit(&format!("[x]{flat}")), "behind a bracket, none is taken to close");
    assert!(!braces_fit(&format!("\\{flat}")));
}

#[test]
fn a_rule_is_added_on_a_line_of_its_own_and_once() {
    assert_eq!(rule_entered("  /x "), Some("/x".to_string()));
    assert_eq!(rule_entered(" \t"), None);
    assert_eq!(
        evaluate_expression(&path("/w"), &path("a.log"), &None, " *.log "),
        Ok((true, 0))
    );
    assert_eq!(add_rule("", "/x"), Some("/x\n".to_string()));
    assert_eq!(add_rule("a", "/x"), Some("a\n/x\n".to_string()));
    let added = add_rule("a\n", "/x").unwrap();
    assert_eq!(added, "a\n/x\n");
    assert_eq!(add_rule(&added, "/x"), None);
    assert_eq!(count_rules("# c\n\n a \n/x\n"), 2);
    assert_eq!(count_rules(&added), count_rules("a\n") + 1);
    assert!(rule_toast(&Err("no".into())).contains("no"));
}

// --- small things ----------------------------------------------------------------------

#[test]
fn an_age_is_coarse_and_never_negative() {
    let age = |elapsed: i64| relative_age(10_000_000, 10_000_000 - elapsed);
    assert_eq!(age(-3600), "now");
    assert_eq!(age(59), "now");
    assert_eq!(age(60), "1m");
    assert_eq!(age(3_599), "59m");
    assert_eq!(age(3_600), "1h");
    assert_eq!(age(86_400), "1d");
    assert_eq!(age(2_591_999), "29d");
    assert_eq!(age(2_592_000), "4w");
    assert_eq!(relative_age(i64::MAX, i64::MIN), format!("{}w", i64::MAX / 604_800));
}

#[test]
fn a_template_is_chosen_by_its_place() {
    assert_eq!(ghost_template(Some(".gitignore")), "# Build artifacts\n");
    assert_eq!(ghost_template(Some("x")), "\n");
    assert_eq!(ghost_template(None), "\n");
    assert!(ghost_template(Some("devcontainer.json")).contains("\"name\": \"dev\""));
    assert!(create_ghost(&Vec::new()).is_none());
    let offered = create_ghost(&vec!["rust".into(), "go".into()]).unwrap();
    let ids: Vec<&str> = offered.iter().map(|r| r.id.as_str()).collect();
    assert_eq!(ids, ["cancel", "builtin", "t0", "t1"]);
    for (i, response) in offered.iter().skip(2).enumerate() {
        assert_eq!(chosen_template(&response.id, 2), TemplateChoice::Template(i));
    }
    assert_eq!(chosen_template("builtin", 2), TemplateChoice::BuiltIn);
    for none in ["cancel", "t2", "t", "tx", "t99999999999999999999999"] {
        assert_eq!(chosen_template(none, 2), TemplateChoice::Nothing, "{none}");
    }
    assert_eq!(chosen_template("t+1", 2), TemplateChoice::Template(1));
}

#[test]
fn nothing_is_written_in_a_watched_checkout() {
    let file = path("/w/a.rs");
    let mut tree = tree();
    assert_eq!(tree.git_flow(), Flow::Open(path("/w")));
    tree.workdir = None;
    assert_eq!(tree.git_flow(), Flow::Nothing);
    assert_eq!(tree.stash_intervention(&file), Flow::Nothing);
    assert_eq!(tree.ignore_intervention(&file), Flow::Nothing);
    assert_eq!(tree.pane, PaneKind::Closed);
    tree.workdir = Some(path("/w"));
    tree.watching = Some((EnvironmentId::new("calm-1"), path("/w")));
    let refusal = tree.refuse_read_only().unwrap();
    assert_eq!(tree.git_flow(), Flow::Refused(refusal.clone()));
    assert_eq!(tree.discard_intervention(&file), Flow::Refused(refusal.clone()));
    assert_eq!(tree.stash_intervention(&file), Flow::Refused(refusal.clone()));
    assert_eq!(tree.ignore_intervention(&file), Flow::Refused(refusal.clone()));
    assert_eq!(
        tree.plan_selection_op(BulkOp::Stage, false, &Vec::new()),
        Flow::Refused(refusal.clone())
    );
    assert_eq!(tree.toggle_stage(&file, true), Flow::Refused(refusal));
    assert_eq!(tree.pane, PaneKind::Closed, "no pane opens over a refusal");
}

#[test]
fn what_the_pane_asks_and_says() {
    let file = path("/w/src/a.rs");
    let mut own = tree();
    match own.discard_intervention(&file) {
        Flow::Open(pane) => assert_eq!(pane.title, "Discard — a.rs"),
        other => panic!("{other:?}"),
    }
    assert_eq!(own.pane, PaneKind::Adhoc);
    assert_eq!(discard_toast(&path("src/a.rs"), &Ok(())), "Discarded — src/a.rs");
    match own.stash_intervention(&file) {
        Flow::Open(pane) => assert_eq!(pane.body, "taste-ide: src/a.rs"),
        other => panic!("{other:?}"),
    }
    assert_eq!(stash_toast(&Err("no".into())), "Stash failed: no");
    assert_eq!(
        staging_toast(&path("src/a.rs"), "no"),
        "Staging src/a.rs failed: no"
    );
    assert_eq!(init_toast(&Ok(())), "Repository initialized");
    assert_eq!(index_placeholder(12), "Indexing… 12 files");
    assert_eq!(
        file_op_toast(FileOp::Create, &path("/w/x"), "no"),
        "Could not create /w/x: no"
    );
    assert_eq!(file_op_toast(FileOp::Delete, &path("/w/x"), "no"), "Delete failed: no");
    assert_eq!(rename_target(&file, "b.rs"), Some(path("/w/src/b.rs")));
    assert_eq!(open_conflict("a\n<<<<<<< HEAD\n"), Some(2));
    assert_eq!(open_conflict("a\n"), None);
    let aim = ReviewAim {
        branch: "agents/x".into(),
        target: "main".into(),
    };
    let changed = |of: &str, badge: &str| ChangedFile {
        path: path(of),
        badge: badge.into(),
    };
    let list = build_review_file_list(&aim, &vec![changed("src/a.rs", "A"), changed("b", "D")]);
    assert_eq!((list.close, list.subtitle.as_str()), ("Close Review", "agents/x → main"));
    assert!(list.close_tooltip.starts_with("Back to the file tree, and the diffs"));
    assert_eq!(list.empty, None);
    assert_eq!(
        (list.rows[0].title.as_str(), list.rows[0].subtitle.as_str()),
        ("a.rs", "src/a.rs")
    );
    assert_eq!((list.rows[0].badge.as_str(), list.rows[1].badge.as_str()), ("A", "D"));
    let nothing = build_review_file_list(&aim, &Vec::new());
    let words = nothing.empty.unwrap();
    assert_eq!(words.title, "Nothing new on this branch");
    assert_eq!(words.subtitle, "Everything on it is already in the current branch");
    assert!(nothing.rows.is_empty());
    let mut tree = tree();
    tree.container_mode = false;
    assert!(tree.lock_reason(true, false).is_some());
    assert_eq!(tree.lock_reason(true, true), None);
    assert_eq!(tree.lock_reason(false, false), None, "the environment is up");
    assert!(tree.op_denied().starts_with("Read-only until"));
    assert_eq!(
        tree.build_ghost_row(&path("/w/.editorconfig")).tooltip,
        "Create .editorconfig"
    );
}
