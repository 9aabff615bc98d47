use taste_app::environment::{
    Claim, ConfigAuthority, EnvironmentId, ReviewState, SupervisorState, WorkspaceState,
};
use taste_app::envstrip::{
    build_row, entries, face, filter_visible, list_height, probe_samples, Entry,
    EnvPanel, Face, FocusMove, Shape, BUCKETS, CAPTION_HEIGHT, FILTER_THRESHOLD, ROW_HEIGHT,
    VISIBLE_ROWS,
};
use taste_app::fleet::{
    assemble, ChatBinding, EnvFacts, EnvGit, FleetRow, Light, ReviewMark, Spend,
};
use taste_app::quota::QuotaSnapshot;

fn env(slug: &str) -> EnvironmentId {
    EnvironmentId::new(slug)
}

fn running() -> SupervisorState {
    SupervisorState::Running {
        container_id: "abc123".into(),
    }
}

fn facts(slug: &str, state: SupervisorState) -> EnvFacts {
    EnvFacts {
        env: env(slug),
        state,
        authority: ConfigAuthority::Project,
        pending_rebuild: false,
        chat: None,
        git: None,
        disk: None,
        spend: Spend::default(),
        shells: 0,
        review: ReviewState::Working,
        working_on: Vec::new(),
    }
}

/// The rows the panel renders are the fleet's own, assembled the one
/// way they are assembled anywhere.
fn fleet(facts: Vec<EnvFacts>) -> Vec<FleetRow> {
    let mut state = WorkspaceState::default();
    state.set_environment_name(&env("spry-2"), Some("the refactor"));
    assemble(facts, &state, &vec!["agents/calm-1/topic".to_string()])
}

/// At home: the user's own checkout is "Yours", nothing is locked, and
/// nothing is tinted — being home is the resting state, not a mode.
#[test]
fn the_panel_names_the_primary_yours_and_leaves_it_untinted() {
    let rows = fleet(vec![
        facts("primary", running()),
        facts("calm-1", SupervisorState::Building),
    ]);
    let face = face(&rows, None);
    assert_eq!(face.title, "Yours");
    assert_eq!(face.light, Light::Green);
    assert!(!face.locked && !face.away);
    assert!(face.detail.contains("Your own checkout\nrunning"));
}

/// Away: the name of where you are, the lock, and the tint — all three
/// derived from the row, none of them from the tree's own state.
#[test]
fn watching_an_environment_names_it_locks_it_and_tints_the_panel() {
    let rows = fleet(vec![
        facts("primary", running()),
        facts("spry-2", SupervisorState::Building),
    ]);
    let face = face(&rows, Some(&env("spry-2")));
    assert_eq!(face.title, "the refactor", "the name the user gave it");
    assert_eq!(face.light, Light::Amber, "a building container is not up");
    assert!(face.locked, "every non-primary view is read-only");
    assert!(face.away);
    assert!(face.detail.contains("read-only"));
}

/// The fleet has not been assembled yet — or the environment being
/// watched has just been destroyed. The panel still says where the
/// panes are, and does not invent a state for it.
#[test]
fn a_panel_with_no_rows_yet_says_where_it_is_and_nothing_more() {
    assert_eq!(
        face(&Vec::new(), None),
        Face {
            title: "Yours".into(),
            light: Light::Unknown,
            locked: false,
            away: false,
            detail: "Yours · state not known yet".into(),
        }
    );
    let orphan = face(&Vec::new(), Some(&env("calm-1")));
    assert_eq!(orphan.title, "calm-1");
    assert!(orphan.locked && orphan.away, "not home is still not home");
    assert!(entries(&Vec::new(), None).is_empty(), "and it lists nothing");
}

/// The list's order is the fleet's order — primary first as the return
/// path, then by what the others are called — and each row carries the
/// facts that decide whether to go there.
#[test]
fn the_panel_lists_the_fleet_in_its_order_with_the_primary_first() {
    let rows = fleet(vec![
        facts("spry-2", SupervisorState::Stopped),
        EnvFacts {
            chat: Some(ChatBinding {
                label: "Agent 2".into(),
                busy: true,
                awaits_user: false,
                orchestrator: false,
            }),
            git: Some(EnvGit {
                branch: Some("topic/inbox".into()),
                unpublished: 2,
                dirty: 0,
            }),
            ..facts("calm-1", running())
        },
        facts("primary", running()),
    ]);
    let entries = entries(&rows, Some(&env("calm-1")));
    assert_eq!(
        entries.iter().map(|e| e.title.as_str()).collect::<Vec<_>>(),
        ["Yours", "calm-1", "the refactor"],
    );
    assert!(entries[0].primary && entries[0].light == Light::Green);
    assert!(!entries[0].current, "the panes are not at home");
    let calm = &entries[1];
    assert!(calm.current, "the row the panes are aimed at is marked");
    assert!(calm.busy, "its chat is mid-turn");
    assert!(calm.unpublished, "work only that checkout has");
    assert_eq!(calm.detail, "running");
    assert_eq!(
        entries[2].light,
        Light::Red,
        "a stopped environment can run nothing"
    );
    assert!(
        !entries[2].busy && !entries[2].unpublished,
        "a row carries its own facts and no one else's"
    );
}

/// With the panes at home, the primary is the marked row — the tree
/// says `None`, and no row has to be told it is the primary twice.
#[test]
fn none_marks_the_primary_row() {
    let rows = fleet(vec![
        facts("primary", running()),
        facts("calm-1", running()),
    ]);
    let entries = entries(&rows, None);
    assert!(entries[0].current && !entries[1].current);
}

/// A row that is waiting on the user says so twice: in the light, so a
/// glance catches it, and in the tooltip, so it is answerable.
#[test]
fn a_row_waiting_on_the_user_shows_amber_and_says_why() {
    let rows = fleet(vec![EnvFacts {
        chat: Some(ChatBinding {
            label: "Agent 2".into(),
            busy: true,
            awaits_user: true,
            orchestrator: false,
        }),
        ..facts("calm-1", running())
    }]);
    let entry = entries(&rows, None).remove(0);
    assert_eq!(entry.light, Light::Amber);
    assert!(entry.awaits_user);
    assert!(entry.tooltip().contains("waiting for an answer from you"));
    assert!(
        entry.tooltip().contains("read-only to you"),
        "and it is still someone else's checkout"
    );
}

/// Busy is not drawn, so it has to be said. A row whose chat is
/// working says so where the reader can still find it.
#[test]
fn a_busy_row_says_so_in_its_tooltip_since_it_has_no_spinner() {
    let rows = fleet(vec![EnvFacts {
        chat: Some(ChatBinding {
            label: "Agent 2".into(),
            busy: true,
            awaits_user: false,
            orchestrator: false,
        }),
        ..facts("calm-1", running())
    }]);
    let entry = entries(&rows, None).remove(0);
    assert!(entry.busy && entry.tooltip().contains("working now"));
    // Waiting outranks working: a chat stopped on a question is not
    // making progress, and saying both would bury the one that needs
    // an answer.
    let waiting = Entry {
        awaits_user: true,
        ..entry
    };
    assert!(waiting.tooltip().contains("waiting for an answer"));
    assert!(!waiting.tooltip().contains("working now"));
}

/// The primary's tooltip names it as the user's own — the one row where
/// "read-only" would be exactly wrong.
#[test]
fn the_primary_row_is_never_described_as_read_only() {
    let rows = fleet(vec![facts("primary", running())]);
    let tooltip = entries(&rows, None).remove(0).tooltip();
    assert!(tooltip.contains("your own checkout"));
    assert!(!tooltip.contains("read-only"));
}

/// An environment that says it is done is marked, and the mark is not
/// the light: its container is stopped, so the light is honestly red,
/// and red is not what "this wants your judgment" looks like. The row
/// keeps its place in the list — a fleet that reordered itself when an
/// agent finished would move under the reader's pointer.
#[test]
fn a_flagged_row_is_marked_where_it_stands_and_says_why_the_light_is_red() {
    let mut ready = facts("spry-2", SupervisorState::Stopped);
    ready.review = ReviewState::FlaggedForReview;
    let rows = fleet(vec![facts("primary", running()), ready]);
    let entries = entries(&rows, None);

    assert_eq!(
        entries.iter().map(|e| e.title.as_str()).collect::<Vec<_>>(),
        ["Yours", "the refactor"],
        "flagging moves nothing"
    );
    let flagged = &entries[1];
    assert_eq!(flagged.review, ReviewMark::Flagged);
    assert_eq!(
        flagged.light,
        Light::Red,
        "nothing runs in it, and that is true"
    );
    assert!(flagged.tooltip().contains("waiting for your review"));
    assert!(
        flagged
            .tooltip()
            .contains("stopped because nothing is left to run"),
        "the red light needs explaining, or it reads as a fault"
    );

    // Working is the ordinary case and wears no mark at all.
    assert_eq!(entries[0].review, ReviewMark::Unmarked);
    assert!(!entries[0].tooltip().contains("review"));
}

/// Settled: the user has ruled, so the row is history rather than a
/// question. It says so, and it says the thing that follows from it.
#[test]
fn a_settled_row_says_it_is_safe_to_destroy() {
    for settled in [
        ReviewState::Merged,
        ReviewState::Rejected,
    ] {
        let mut done = facts("calm-1", SupervisorState::Stopped);
        done.review = settled;
        let entry = entries(&fleet(vec![done]), None).remove(0);
        assert_eq!(
            entry.review,
            ReviewMark::Settled,
            "{settled:?}"
        );
        assert!(entry.tooltip().contains("safe to destroy"));
        assert!(!entry.unpublished, "the user already looked");
    }
}

/// The panel's side of the env↔issue link: a row says what its
/// environment is working on, in the caption and — with the id, which
/// is how a person addresses an issue — in the tooltip. A row with no
/// claim says nothing, rather than saying "idle".
#[test]
fn a_row_says_what_its_environment_is_working_on() {
    let claim = |id: &str, title: &str| Claim {
        id: id.into(),
        title: title.into(),
    };
    let mut busy = facts("calm-1", running());
    busy.working_on = vec![
        claim("i-0007", "The composer loses a half-typed follow-up"),
        claim("i-0011", "And a second one"),
    ];
    let rows = fleet(vec![facts("primary", running()), busy]);
    let entries = entries(&rows, None);

    let calm = entries.iter().find(|e| e.env == env("calm-1")).unwrap();
    let working = calm.working_on.as_ref().unwrap();
    assert_eq!(
        working.id, "i-0007",
        "the first claim; the row has one line"
    );
    assert!(
        calm.tooltip()
            .contains("Working on i-0007 — The composer loses"),
        "{}",
        calm.tooltip()
    );

    let primary = &entries[0];
    assert_eq!(primary.working_on, None);
    assert!(
        !primary.tooltip().contains("Working on"),
        "an environment with no claim says nothing, not \"idle\""
    );
}

/// The ceiling is a promise about ROWS, not about pixels. A fleet that
/// is working has taller rows, and six of them still have to fit before
/// the panel starts scrolling — otherwise the work line would quietly
/// cost two rows of visible fleet.
#[test]
fn the_panel_makes_room_for_the_rows_it_actually_has() {
    let plain = |slug: &str| facts(slug, running());
    let working = |slug: &str| {
        let mut facts = facts(slug, running());
        facts.working_on = vec![Claim {
            id: "i-0001".into(),
            title: "something".into(),
        }];
        facts
    };
    let height = |facts| list_height(&entries(&fleet(facts), None));

    assert_eq!(height(vec![plain("primary")]), ROW_HEIGHT);
    assert_eq!(
        height(vec![plain("primary"), plain("calm-1")]),
        2 * ROW_HEIGHT
    );
    assert_eq!(
        height(vec![plain("primary"), working("calm-1")]),
        2 * ROW_HEIGHT + CAPTION_HEIGHT,
        "the working row is a line taller"
    );

    // Past the ceiling only the first VISIBLE_ROWS are counted — the
    // rest are what the scrolling is for.
    let many: Vec<EnvFacts> = std::iter::once(plain("primary"))
        .chain((1..=VISIBLE_ROWS + 2).map(|n| plain(&format!("calm-{n}"))))
        .collect();
    assert_eq!(height(many), VISIBLE_ROWS * ROW_HEIGHT);
    // An empty list still claims one row: a panel that collapsed to
    // nothing would read as a panel that had gone away.
    assert_eq!(list_height(&Vec::new()), ROW_HEIGHT);
}

/// Two environments are read, not searched. The filter appears when
/// the list gets long enough that reading it stops working — which is
/// also where the panel starts scrolling.
#[test]
fn the_filter_appears_only_when_the_list_outgrows_reading() {
    assert!(!filter_visible(1), "the solo primary needs no search box");
    assert!(!filter_visible(2));
    assert!(!filter_visible(FILTER_THRESHOLD));
    assert!(filter_visible(FILTER_THRESHOLD + 1));
    assert_eq!(
        FILTER_THRESHOLD as i32, VISIBLE_ROWS,
        "the filter and the scrolling should start at the same length"
    );
}

/// Filtering matches what the row shows and the slug behind it: a
/// renamed environment is still findable by the name the user typed
/// into a tool call an hour ago.
#[test]
fn the_filter_matches_the_name_on_screen_and_the_slug_behind_it() {
    let rows = fleet(vec![
        facts("primary", running()),
        facts("spry-2", running()),
    ]);
    let entries = entries(&rows, None);
    let refactor = &entries[1];
    assert!(taste_app::envstrip::matches(refactor, ""), "an empty filter hides nothing");
    assert!(taste_app::envstrip::matches(refactor, "REFACT"), "case is not a filter");
    assert!(taste_app::envstrip::matches(refactor, "spry"), "the slug still finds it");
    assert!(!taste_app::envstrip::matches(refactor, "calm"));
    assert!(taste_app::envstrip::matches(&entries[0], "yours"), "the primary filters too");
}

/// Blanks around a filter and its case change nothing, and a name outside ASCII
/// is found by the ASCII in it.
#[test]
fn a_filter_minds_neither_blanks_nor_case() {
    let rows = fleet(vec![
        facts("primary", running()),
        facts("spry-2", running()),
    ]);
    let mut entries = entries(&rows, None);
    for query in ["", "spry", "refactor", "calm", "e r"] {
        let plain = taste_app::envstrip::matches(&entries[1], query);
        let padded = format!(" \t{query}\u{a0}\n");
        assert_eq!(taste_app::envstrip::matches(&entries[1], &padded), plain, "{query}");
        let loud = query.to_ascii_uppercase();
        assert_eq!(taste_app::envstrip::matches(&entries[1], &loud), plain, "{query}");
    }
    assert!(taste_app::envstrip::matches(&entries[1], " \t "));
    entries[1].title = "ΣÉTAT Main \u{130}x".into();
    assert!(taste_app::envstrip::matches(&entries[1], "TAT MAIN"));
    assert!(taste_app::envstrip::matches(&entries[1], "état"));
}

#[test]
fn the_gauge_is_drawn_anew_only_when_something_was_observed() {
    let mut panel = EnvPanel::new();
    assert!(!panel.set_quota(QuotaSnapshot::default()), "nothing observed yet");
    let seen = || {
        let mut seen = QuotaSnapshot::default();
        seen.observed_at = Some(5);
        seen
    };
    assert!(panel.set_quota(seen()));
    assert!(!panel.set_quota(seen()));
    assert_eq!(panel.quota, seen());
}

/// The list is rebuilt when what it would say has moved, and left alone
/// otherwise.
#[test]
fn the_panel_rebuilds_only_when_the_list_would_read_differently() {
    let rows = || {
        fleet(vec![
            facts("primary", running()),
            facts("spry-2", running()),
            facts("calm-1", SupervisorState::Stopped),
        ])
    };
    let mut panel = EnvPanel::new();
    let (live, redraw) = panel.set_rows(rows(), "").unwrap();
    assert_eq!(live, vec![env("primary"), env("calm-1"), env("spry-2")]);
    assert!(!redraw.away);
    let first = redraw.listing.unwrap();
    assert!(!first.filter);
    assert_eq!(first.visible, vec![0, 1, 2]);
    assert_eq!(first.height, 3 * ROW_HEIGHT);
    assert_eq!(first.selected, Some(0), "at home");
    assert!(panel.set_rows(rows(), "").is_none(), "the same fleet");
    assert!(panel.rebuild("", false).is_none(), "nothing moved");
    let mut heavier = rows();
    heavier[1].shells = 2;
    let (_, redraw) = panel.set_rows(heavier, "").unwrap();
    assert!(redraw.listing.is_none(), "no row reads differently");

    let filtered = panel.rebuild("  SPRY ", true).unwrap();
    assert_eq!(filtered.visible, vec![2], "the slug, whatever its case");
    assert_eq!(filtered.height, ROW_HEIGHT);
    assert_eq!(filtered.selected, None, "the marked row is filtered away");
    assert_eq!(panel.activated(0), Some(env("spry-2")));
    assert_eq!(panel.activated(1), None);

    let moved = panel.set_current(Some(env("calm-1")), "").unwrap();
    assert!(moved.away && panel.face().locked);
    assert_eq!(moved.listing.unwrap().selected, Some(1));
    assert!(panel.set_current(Some(env("calm-1")), "").is_none(), "already there");
    assert_eq!(panel.aimed_at(), Some(env("calm-1")));
    assert!(panel.set_current(None, "").is_some());
    assert_eq!(panel.aimed_at(), Some(env("primary")));
    assert_eq!(EnvPanel::new().aimed_at(), None);
}

#[test]
fn the_keyboard_walks_the_list_and_wraps() {
    let mut panel = EnvPanel::new();
    assert_eq!(panel.focus(false, false, None), FocusMove::Stay);
    let fleet = fleet(vec![
        facts("primary", running()),
        facts("spry-2", running()),
        facts("calm-1", running()),
    ]);
    assert!(panel.set_rows(fleet, "").is_some());
    assert!(panel.set_current(Some(env("calm-1")), "").is_some());
    assert_eq!(panel.focus(true, false, None), FocusMove::Filter);
    assert_eq!(panel.focus(true, true, None), FocusMove::Row(1));
    assert_eq!(panel.focus(false, false, Some(1)), FocusMove::Row(2));
    assert_eq!(panel.focus(false, false, Some(2)), FocusMove::Row(0));
    assert!(panel.set_current(Some(env("gone")), "").is_some());
    assert_eq!(panel.focus(false, false, None), FocusMove::Row(0));
}

#[test]
fn a_row_wears_what_its_entry_says() {
    let mut away = facts("calm-1", running());
    away.review = ReviewState::FlaggedForReview;
    away.working_on = vec![Claim {
        id: "i-0001".into(),
        title: "something".into(),
    }];
    let rows = fleet(vec![facts("primary", running()), away]);
    let calm = env("calm-1");
    let entries = entries(&rows, Some(&calm));
    let home = build_row(&entries[0]);
    assert!(!home.lock && !home.attention && home.caption.is_none());
    assert_eq!(home.review_icon, None);
    let marks = build_row(&entries[1]);
    assert!(marks.lock, "the current row, and not the user's own");
    assert_eq!(marks.caption.as_deref(), Some("something"));
    assert_eq!(marks.review_icon_class, "env-review");
    assert_eq!(marks.review_tooltip, "Done, and waiting for your review");
    let mut panel = EnvPanel::new();
    assert_eq!(panel.row_tooltip(&calm, "quiet"), "quiet");
    assert!(panel.set_rows(rows, "").is_some());
    assert!(panel.set_current(Some(calm.clone()), "").is_some());
    assert_eq!(
        panel.row_tooltip(&calm, "quiet"),
        format!("{}\nquiet", entries[1].tooltip())
    );
}

#[test]
fn a_fabricated_window_is_the_same_every_time() {
    let mut panel = EnvPanel::new();
    assert_eq!(panel.samples_for(&env("calm-1")), None);
    panel.seed_activity_for_probe(&env("calm-1"), Shape::Silent);
    panel.seed_activity_for_probe(&env("calm-1"), Shape::Waiting);
    let planted = panel.samples_for(&env("calm-1"));
    assert_eq!(planted, Some(probe_samples(Shape::Waiting)));
    assert_eq!(panel.samples_for(&env("spry-2")), None);

    let working = probe_samples(Shape::Working);
    assert_eq!(working.len(), BUCKETS);
    assert_eq!(&working[..8], &[0; 8]);
    // 8 * 37 % 13 is 10, and 10 % 6 is 4.
    assert_eq!(working[8], 9);
    // 20 * 37 % 13 is 12.
    assert_eq!(working[20], 17 + 24);
    // 50 * 37 % 13 is 4.
    assert_eq!(working[50], 12);
    // 9 * 37 % 13 is 8, and 8 % 8 is 0.
    assert_eq!(probe_samples(Shape::Building)[9], 4);
    // 4 * 37 % 13 is 5, and 5 % 5 is 0.
    assert_eq!(probe_samples(Shape::Editing)[4], 2);
    // 15 * 37 % 13 is 9, and 9 % 4 is 1.
    assert_eq!(probe_samples(Shape::Waiting)[15], 3);
    assert!(probe_samples(Shape::Silent).iter().all(|n| *n == 0));
    let quiet = [Shape::Building, Shape::Editing, Shape::Waiting];
    let counts: Vec<usize> = quiet
        .iter()
        .map(|shape| probe_samples(*shape).iter().filter(|n| **n > 0).count())
        .collect();
    assert_eq!(counts, [8, 13, 3]);
}
