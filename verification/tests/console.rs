use taste_app::console::facts::{env_git, rank_spenders, LiveFacts, QueueRead};
use taste_app::console::issues::{adopt_claims, open_issues, Issue, Resolution};
use taste_app::console::lifecycle::{
    destroy_toast, nuke_body, reload_failed, rename_caption, stop_failed, volume_removal_failed,
    DestroyReport, RowStep, UnpublishedBranch,
};
use taste_app::console::resources::{
    no_resources, order_resources, remove_volume_body, render_resources, resources_tooltip,
    sentence_case, ResourceInfo, ResourceKind,
};
use taste_app::console::review::{
    merge_review, plural, reject_note, reject_toast, review_facts_for, under_review, MergeEnd,
    Mergedness, Ruling,
};
use taste_app::console::scan::{
    find_window, search_flags, FindScope, ReadTerminal, Rows, ScanStep, ScrollbackScan,
    SearchAnswer, FIND_ROWS_PER_TERMINAL, LISTED_PER_TERMINAL,
};
use taste_app::console::shells::{CloseRequest, ShellKind, ShellTab, ShellTabs, StripPage};
use taste_app::console::terminal::{
    command_exited, command_line, countdown_close, countdown_text, log_line,
    mark_tab_exited, new_terminal_tooltip, probed_title, spawn_env, terminal_key,
    CommandEnd, Countdown, TerminalKey, Whereabouts, CLOSE_COUNTDOWN_SECS,
};
use taste_app::console::{Console, ReviewFacts};
use taste_app::environment::{
    Claim, ConfigAuthority, DiskUsage, EnvironmentId, ReviewState, SupervisorState, WorkspaceState,
};
use taste_app::fleet::{ChatBinding, EnvGit, FleetRow, Spend};
use taste_app::quota::{QuotaSnapshot, Share};

fn row(authority: ConfigAuthority, state: SupervisorState) -> FleetRow {
    FleetRow {
        env: EnvironmentId::primary(),
        primary: true,
        name: "Personal".into(),
        named: false,
        state,
        authority,
        pending_rebuild: false,
        chat: None,
        git: Some(EnvGit {
            branch: Some("main".into()),
            unpublished: 0,
            dirty: 2,
        }),
        published: 0,
        disk: None,
        spend: Spend::default(),
        shells: 0,
        review: ReviewState::Working,
        working_on: Vec::new(),
    }
}

fn running() -> SupervisorState {
    SupervisorState::Running {
        container_id: "9f2c1a".into(),
    }
}

/// The footprint rides the tab that enumerates what it is the sum of,
/// and only once podman has answered. It used to be a permanent figure
/// on a header line, between the container's state and the token spend,
/// as if the three were one sentence.
#[test]
fn the_footprint_rides_the_tab_it_is_the_sum_of() {
    let quiet = row(ConfigAuthority::Project, running());
    assert_eq!(
        resources_tooltip(&quiet),
        "This environment's containers, volumes, and images"
    );
    let mut measured = row(ConfigAuthority::Project, running());
    measured.disk = Some(DiskUsage {
        checkout_bytes: 2 * 1024 * 1024 * 1024,
        volume_bytes: 0,
        volumes_measured: 0,
        volumes_unmeasured: 0,
    });
    assert_eq!(
        resources_tooltip(&measured),
        format!(
            "This environment's containers, volumes, and images — {} on disk",
            measured.disk_text()
        )
    );
}

/// The mergedness sentence the review tab shows, in the two shapes
/// worth being sure of: never published, and published but not in.
#[test]
fn the_review_detail_says_what_is_actually_true_of_the_branch() {
    let facts = |mergedness| ReviewFacts {
        branch: "agents/i-0002".into(),
        target: "main".into(),
        mergedness,
    };
    let never = facts(None);
    assert!(never.detail().contains("never been published"));
    // ...and there is nothing to merge, so no Merge is offered.
    assert!(!never.mergeable());

    let ahead = facts(Some(Mergedness {
        branch: "agents/i-0002".into(),
        checked: None,
        ahead: 6,
        merged: false,
        note: None,
    }));
    assert_eq!(ahead.detail(), "agents/i-0002 → main · 6 commits ahead");
    assert!(ahead.mergeable());

    let merged = facts(Some(Mergedness {
        branch: "agents/i-0002".into(),
        checked: None,
        ahead: 0,
        merged: true,
        note: None,
    }));
    assert_eq!(merged.detail(), "agents/i-0002 → main · already in main");
    // Work already in the target has nothing to merge, and a button
    // that would do nothing is worse than no button.
    assert!(!merged.mergeable());
}

fn env(slug: &str) -> EnvironmentId {
    EnvironmentId::new(slug)
}

// --- scrollback -------------------------------------------------------

/// Four hundred rows at a time, terminal by terminal, and every row once.
#[test]
fn a_scan_reads_every_row_once() {
    let ranges = vec![
        Rows { lo: 0, hi: 900 },
        Rows { lo: 5, hi: 5 },
        Rows { lo: 100, hi: 101 },
    ];
    let envs = vec![env("calm-1"), env("calm-1"), env("spry-2")];
    let mut scan = ScrollbackScan::new(ranges, envs, 1);
    assert_eq!(scan.progress(), (0, 901));
    let mut reads = Vec::new();
    let mut finished = false;
    while !finished {
        match scan.step(1) {
            ScanStep::Read {
                terminal,
                start,
                end,
            } => {
                reads.push((terminal, start, end));
                let hits = vec![(1, format!("hit at {start}"))];
                finished = scan.taken(end, 2, hits);
            }
            ScanStep::Next => {}
            ScanStep::Done | ScanStep::Superseded => unreachable!(),
        }
    }
    assert_eq!(
        reads,
        [(0, 0, 400), (0, 400, 800), (0, 800, 900), (2, 100, 101)]
    );
    assert_eq!(scan.progress(), (901, 901));
    assert_eq!(scan.count, 8, "what was counted, not what was listed");
    assert_eq!(scan.counts, vec![(env("calm-1"), 6), (env("spry-2"), 2)]);
    assert_eq!(scan.items[0].len(), 3);
    assert_eq!(scan.items[0][1].snippet, "hit at 400");
    assert_eq!(scan.items[0][1].label, "row 401");
    assert_eq!((scan.items[0][1].page, scan.items[0][1].row), (0, 400));
    assert!(!scan.running);
    assert_eq!(scan.terminals_done(), 3);
}

#[test]
fn a_terminal_lists_no_more_than_its_share_and_draws_when_it_moved() {
    let mut scan = ScrollbackScan::new(vec![Rows { lo: 0, hi: 800 }], vec![env("calm-1")], 4);
    assert_eq!(
        scan.step(4),
        ScanStep::Read {
            terminal: 0,
            start: 0,
            end: 400
        }
    );
    assert!(!scan.redraw(false, true), "nothing listed yet");
    let many = |n: usize| (1..=n as u32).map(|l| (l, "x".to_string())).collect();
    assert!(!scan.taken(400, 350, many(350)));
    assert_eq!(scan.items[0].len(), LISTED_PER_TERMINAL);
    assert!(!scan.redraw(false, false), "not due");
    assert!(scan.redraw(false, true));
    assert!(!scan.redraw(false, true), "already drawn");
    assert!(scan.redraw(true, false), "the end is always drawn");
    scan.step(4);
    assert!(scan.taken(800, 0, Vec::new()));
    assert_eq!(scan.step(4), ScanStep::Done);
}

#[test]
fn an_empty_scan_is_over_at_once() {
    let mut scan = ScrollbackScan::new(Vec::new(), Vec::new(), 0);
    assert_eq!(scan.step(0), ScanStep::Done);
    assert_eq!(scan.progress(), (0, 1));
    let titles = vec!["shell".to_string()];
    assert_eq!(ScrollbackScan::subject(&titles, Some(0)), "shell");
    assert_eq!(ScrollbackScan::subject(&titles, Some(3)), "this tab");
    assert_eq!(ScrollbackScan::subject(&titles, None), "this tab");
}

#[test]
fn a_find_looks_where_it_was_pointed_and_at_the_last_rows() {
    let long = find_window(Rows { lo: 0, hi: 20_000 });
    assert_eq!((long.lo, long.hi), (20_000 - FIND_ROWS_PER_TERMINAL, 20_000));
    let short = find_window(Rows { lo: 7, hi: 90 });
    assert_eq!((short.lo, short.hi), (7, 90));

    let calm = env("calm-1");
    let mut console = with_tabs();
    assert!(console.note_watching(&calm));
    let read = |page, lo, lines: &[(u32, &str)]| ReadTerminal {
        page,
        title: format!("shell {page}"),
        lo,
        lines: lines.iter().map(|(n, text)| (*n, text.to_string())).collect(),
    };
    let terminals = vec![
        read(9, 100, &[(1, "first"), (4, "fourth")]),
        read(2, 0, &[(2, "other")]),
    ];
    let hits = console.find_in_scrollback(&FindScope::Everywhere, &terminals);
    assert_eq!(hits.len(), 3);
    assert_eq!((hits[1].row, hits[1].text.as_str()), (103, "fourth"));
    assert_eq!((hits[1].tab.as_str(), &hits[1].env), ("shell 9", &calm));
    assert_eq!((hits[2].row, &hits[2].env), (1, &env("b")));
    let theirs = console.find_in_scrollback(&FindScope::Environment(env("b")), &terminals);
    assert_eq!(theirs, &hits[2..]);
    let nobody = FindScope::Environment(env("spry-2"));
    assert!(console.find_in_scrollback(&nobody, &terminals).is_empty());
    assert!(FindScope::Environment(env("calm-1")).looks_into(&calm));
    assert_eq!(search_flags(true) ^ search_flags(false), 0x8, "PCRE2's caseless bit");
}

// --- resources --------------------------------------------------------

fn resource(kind: ResourceKind, name: &str, status: &str) -> ResourceInfo {
    ResourceInfo {
        kind,
        name: name.into(),
        status: status.into(),
    }
}

/// The machine first, then each container with what hangs off it, and nothing
/// left out.
#[test]
fn resources_are_listed_as_the_tree_they_are() {
    let all = vec![
        resource(ResourceKind::Volume, "cache", "present"),
        resource(ResourceKind::Image, "taste-calm-1-snapshot", "committed"),
        resource(ResourceKind::Image, "unrelated", "pulled"),
        resource(ResourceKind::Container, "taste-calm-1", "running (abc)"),
        resource(ResourceKind::Substrate, "podman machine", "up"),
        resource(ResourceKind::Volume, "gone", "absent"),
    ];
    assert_eq!(order_resources(&all), vec![4, 3, 1, 0, 5, 2]);
    let rows = render_resources(&all);
    let margins: Vec<i32> = rows.iter().map(|r| r.margin_start).collect();
    assert_eq!(margins, [8, 8, 30, 30, 30, 8]);
    assert_eq!(rows[1].status, "Running (abc)");
    assert_eq!(rows[0].icon, "computer-symbolic");
    let removable: Vec<usize> = rows
        .iter()
        .filter(|r| r.removable)
        .map(|r| r.resource)
        .collect();
    assert_eq!(removable, [0], "only a volume that is there");
    assert!(render_resources(&Vec::new()).is_empty());
    assert_eq!(
        no_resources(),
        "No containers or images yet — start this environment to create them."
    );
    assert_eq!(
        remove_volume_body("cache"),
        "Volume “cache” and its cached contents will be deleted."
    );
}

#[test]
fn a_status_reads_as_a_sentence() {
    assert_eq!(sentence_case("running"), "Running");
    assert_eq!(sentence_case(""), "");
    assert_eq!(sentence_case("élevé"), "élevé", "only ASCII is raised");
    assert_eq!(sentence_case("Up"), "Up");
}

// --- the queue and the review -------------------------------------------

fn issue(id: &str, resolution: Resolution, started_by: Option<&str>) -> Issue {
    Issue {
        id: id.into(),
        title: format!("about {id}"),
        resolution,
        reporter: "user".into(),
        started_by: started_by.map(String::from),
        claimant: started_by.map(EnvironmentId::new),
        agent: None,
        model: None,
        created: 0,
        updated: 0,
        labels: Vec::new(),
        links: Vec::new(),
        body: String::new(),
        comments: Vec::new(),
        attachments: Vec::new(),
    }
}

#[test]
fn a_claim_is_work_in_flight_and_not_history() {
    let queue = vec![
        issue("i-0001", Resolution::Open, Some("calm-1")),
        issue("i-0002", Resolution::Completed, Some("calm-1")),
        issue("i-0003", Resolution::Open, Some("calm-1")),
        issue("i-0004", Resolution::Open, None),
        issue("i-0005", Resolution::Declined, Some("spry-2")),
    ];
    assert_eq!(open_issues(&queue), 3);
    let claims = adopt_claims(&queue);
    let calm: Vec<&str> = claims
        .get(&env("calm-1"))
        .unwrap()
        .iter()
        .map(|c| c.id.as_str())
        .collect();
    assert_eq!(calm, ["i-0001", "i-0003"]);
    assert!(claims.get(&env("spry-2")).is_none());
}

#[test]
fn a_ruling_names_the_branch_it_is_on() {
    let working = vec![
        (env("a"), ReviewState::Working),
        (env("b"), ReviewState::FlaggedForReview),
        (env("c"), ReviewState::Merged),
    ];
    assert_eq!(under_review(&working), vec![env("b"), env("c")]);
    let facts = review_facts_for(&env("b"), None, None);
    assert_eq!(
        (facts.branch.as_str(), facts.target.as_str()),
        ("agents/b", "HEAD")
    );
    let mut console = Console::new();
    let settled = review_facts_for(&env("c"), Some("main".into()), None);
    console.review_facts.insert(env("c"), settled);
    console.review_facts.insert(env("b"), facts);
    assert_eq!(
        console.rule_on_review("agents/b", "merge"),
        Some((env("b"), Ruling::Merge))
    );
    assert_eq!(
        console.rule_on_review("agents/c", "reject"),
        Some((env("c"), Ruling::Reject))
    );
    assert_eq!(console.rule_on_review("agents/b", "shrug"), None);
    assert_eq!(console.rule_on_review("agents/z", "merge"), None);

    let clean = merge_review("agents/b", &MergeEnd::Clean);
    assert_eq!((clean.toast.as_str(), clean.settled), ("Merged agents/b", true));
    let stuck = merge_review("agents/b", &MergeEnd::Conflicts(1));
    assert_eq!(
        stuck.toast,
        "agents/b does not merge cleanly — 1 conflicting file. Nothing was changed, and it is \
         still waiting for review."
    );
    assert!(!stuck.settled);
    assert_eq!(
        merge_review("agents/b", &MergeEnd::Failed("no HEAD".into())).toast,
        "Merge failed: no HEAD"
    );
    assert_eq!((plural(0), plural(1), plural(2)), ("s", "", "s"));
}

#[test]
fn a_note_on_the_branch_follows_the_fact() {
    let facts = ReviewFacts {
        branch: "agents/a".into(),
        target: "main".into(),
        mergedness: Some(Mergedness {
            branch: "agents/a".into(),
            checked: None,
            ahead: 1,
            merged: false,
            note: Some("the branch moved".into()),
        }),
    };
    assert!(facts.detail().starts_with("agents/a → main · 1 commit ahead"));
    assert!(facts.detail().contains("the branch moved"));
}

#[test]
fn a_rejection_leaves_a_note_where_there_is_an_issue() {
    let mut claimed = row(ConfigAuthority::Project, running());
    claimed.primary = false;
    claimed.env = env("calm-1");
    claimed.name = "calm-1".into();
    claimed.working_on = vec![Claim {
        id: "i-0007".into(),
        title: "something".into(),
    }];
    let mut console = Console::new();
    console.rows = vec![claimed];
    let panel = console.reject_intervention(&env("calm-1"));
    assert_eq!(panel.title, "Reject calm-1?");
    assert_eq!(panel.issue.as_deref(), Some("i-0007"));
    assert!(panel.body.contains("posted to i-0007"));
    let bare = Console::new().reject_intervention(&env("calm-1"));
    assert_eq!(bare.title, "Reject calm-1?");
    assert_eq!(bare.issue, None);
    assert!(bare.body.contains("nowhere to leave a note"));

    assert_eq!(
        reject_note(Some("i-0007".into()), "  too big \n"),
        Some(("i-0007".to_string(), "too big".to_string()))
    );
    assert_eq!(reject_note(Some("i-0007".into()), " \n"), None);
    assert_eq!(reject_note(None, "too big"), None);
    assert_eq!(
        reject_toast(&env("calm-1"), &Ok(())),
        ("Rejected calm-1".to_string(), true)
    );
    assert_eq!(
        reject_toast(&env("calm-1"), &Err("gone".into())),
        ("Reject failed: gone".to_string(), false)
    );
}

// --- lifecycle ----------------------------------------------------------

fn branch(name: &str, commits: usize, truncated: bool, summary: &str) -> UnpublishedBranch {
    UnpublishedBranch {
        branch: name.into(),
        commits,
        truncated,
        summary: summary.into(),
    }
}

const CANNOT: &str = "Destroying removes the clone, the container, and this environment's \
                      volumes. It cannot be undone.";

#[test]
fn a_destroy_says_what_goes_with_it() {
    let calm = env("calm-1");
    let mut console = Console::new();
    assert_eq!(
        console.destroy_intervention(&calm, false, &Vec::new(), 0),
        format!(
            "Nothing here is unpublished: everything this environment committed is already in \
             your checkout.\n\n{CANNOT}"
        )
    );
    let branches = vec![
        branch("topic", 1, false, "Fix it"),
        branch("other", 100, true, ""),
    ];
    assert!(console.destroy_intervention(&calm, true, &branches, 0).starts_with(
        "You have already ruled on this environment, so nothing here is waiting on you.\n\nIts \
         clone still holds what you decided against:\n"
    ));
    let many: Vec<UnpublishedBranch> = (0..11).map(|n| branch(&format!("b{n}"), 2, false, "x")).collect();
    let text = console.destroy_intervention(&calm, false, &many, 0);
    assert!(text.contains("  b7 — 2 commits — x\n  … and 3 more\n\n"));
    assert!(!text.contains("b8"));

    let mut busy = row(ConfigAuthority::Project, running());
    busy.env = env("calm-1");
    busy.chat = Some(ChatBinding {
        label: "Agent 2".into(),
        busy: false,
        awaits_user: false,
        orchestrator: false,
    });
    console.rows = vec![busy];
    assert_eq!(
        console.destroy_intervention(&calm, false, &branches, 1),
        format!(
            "This environment holds work nobody else has:\n  topic — 1 commit — Fix it\n  other \
             — 100 commits+ — (no commit message)\n  1 uncommitted file\n\n“Agent 2” works here; \
             it keeps its conversation but loses the files it was working on.\n\n{CANNOT}"
        )
    );
}

#[test]
fn a_destroy_that_ended_says_what_it_took() {
    let report = |removed_volumes, unpublished, dirty_files| {
        Ok(DestroyReport {
            removed_volumes,
            unpublished,
            dirty_files,
        })
    };
    let calm = env("calm-1");
    assert_eq!(destroy_toast(&calm, &report(0, 0, 0)), "Destroyed calm-1");
    assert_eq!(
        destroy_toast(&calm, &report(1, 0, 0)),
        "Destroyed calm-1 · 1 volume freed"
    );
    assert_eq!(
        destroy_toast(&calm, &report(2, 1, 3)),
        "Destroyed calm-1 · 2 volumes freed · 1 unpublished branch(es) and 3 uncommitted file(s) \
         went with it"
    );
    assert_eq!(
        destroy_toast(&calm, &Err("busy".into())),
        "Destroy failed: busy"
    );
}

#[test]
fn a_rows_action_is_one_step() {
    let calm = env("calm-1");
    let mut named = row(ConfigAuthority::Project, running());
    named.primary = false;
    named.name = "the refactor".into();
    named.named = true;
    named.env = calm.clone();
    let bare = Console::new();
    let mut console = Console::new();
    console.rows = vec![named];
    assert_eq!(
        console.run_row_action("rename", &calm, true),
        RowStep::Rename {
            title: "Name for calm-1".into(),
            current: "the refactor".into()
        }
    );
    assert_eq!(
        bare.rename_environment(&calm, true),
        RowStep::Rename {
            title: "Name for calm-1".into(),
            current: String::new()
        }
    );
    assert_eq!(
        console.stop_environment(&calm, false),
        RowStep::Nothing,
        "it is gone"
    );
    assert_eq!(bare.stop_environment(&calm, true), RowStep::Stop);
    assert_eq!(bare.run_row_action("start", &calm, true), RowStep::Reload);
    assert_eq!(bare.rebuild_environment(&calm, true), RowStep::Reload);
    assert_eq!(bare.run_row_action("dance", &calm, true), RowStep::Nothing);
    assert!(matches!(
        console.destroy_environment(&calm, true),
        RowStep::Destroy { .. }
    ));
    assert!(matches!(
        console.nuke_environment(&calm, true),
        RowStep::Nuke { .. }
    ));
    assert!(!nuke_body().is_empty() && !rename_caption().is_empty());
    assert!(stop_failed("busy").contains("busy"));
    assert!(reload_failed(&calm, "busy").contains("calm-1"));
    assert!(volume_removal_failed("busy").contains("busy"));
}

// --- shells ---------------------------------------------------------------

fn page(page: u64, owner: Option<&str>) -> StripPage {
    StripPage {
        page,
        owner: owner.map(env),
    }
}

/// Looking at another environment stows what is not its own and loses nothing.
#[test]
fn the_strip_shows_the_selected_environments_shells() {
    let mut tabs = ShellTabs {
        strip: vec![page(1, None), page(2, Some("a")), page(3, Some("a"))],
        stowed: vec![page(4, Some("b")), page(5, Some("c"))],
    };
    let ids = |pages: &[StripPage]| pages.iter().map(|p| p.page).collect::<Vec<_>>();
    tabs.sync_shell_tabs(&env("b"));
    assert_eq!(ids(&tabs.strip), [1, 4]);
    assert_eq!(ids(&tabs.stowed), [5, 2, 3]);
    tabs.sync_shell_tabs(&env("b"));
    assert_eq!(ids(&tabs.strip), [1, 4], "looking again changes nothing");
    assert_eq!(ids(&tabs.stowed), [5, 2, 3]);
    tabs.sync_shell_tabs(&env("a"));
    assert_eq!(ids(&tabs.strip), [1, 2, 3]);
    assert_eq!(ids(&tabs.stowed), [5, 4]);
}

/// The console finds a page's owner in its own tabs, and keeps what is stowed.
#[test]
fn the_console_stows_by_who_owns_a_page() {
    let mut console = with_tabs();
    assert!(console.note_watching(&env("b")));
    assert_eq!(console.sync_shell_tabs(&vec![9, 1, 2]), [9, 2]);
    assert_eq!(console.stowed, vec![page(1, Some("a"))]);
    assert_eq!(console.sync_shell_roster(&vec![9, 2]), [9, 2]);
    assert!(console.note_watching(&env("a")));
    assert_eq!(console.sync_shell_tabs(&vec![9, 2]), [9, 1]);
    assert_eq!(console.stowed, vec![page(2, Some("b"))]);
    assert_eq!(console.env_of_page(2), env("b"));
    assert_eq!(console.env_of_page(9), env("a"), "nobody's page is the selected one's");
}

fn with_tabs() -> Console {
    let tab = |shell, owner, page, kind| ShellTab {
        shell,
        env: env(owner),
        page,
        kind,
    };
    let mut console = Console::new();
    console.shell_opened(tab(10, "a", 1, ShellKind::User), true);
    console.shell_opened(tab(11, "b", 2, ShellKind::Agent), false);
    console.shell_opened(tab(12, "c", 3, ShellKind::Lifecycle), true);
    console
}

#[test]
fn closing_a_tab_ends_the_users_own_shells_alone() {
    let mut console = with_tabs();
    assert!(console.owns_page(1, false));
    assert!(!console.owns_page(9, false));
    assert!(console.owns_page(9, true), "a section is this pane's too");
    assert_eq!(console.strip_pages(&vec![(9, true), (3, false), (8, false), (1, false)]), [9, 3, 1]);
    assert_eq!(console.close_request(2, true), CloseRequest::Refuse);
    assert_eq!(console.shell_tabs.len(), 3);
    assert_eq!(
        console.close_request(2, false),
        CloseRequest::Close {
            leaves_roster: Vec::new()
        },
        "the agent's shell goes on elsewhere"
    );
    assert_eq!(
        console.close_request(1, false),
        CloseRequest::Close {
            leaves_roster: vec![10]
        }
    );
    assert_eq!(console.shell_tabs.len(), 1);
}

#[test]
fn host_shells_close_when_the_primarys_container_is_up() {
    let mut console = with_tabs();
    let (closing, open) = console.on_environment_state(&env("calm-1"), true);
    assert!(closing.is_empty() && !open);
    let (closing, open) = console.on_environment_state(&EnvironmentId::primary(), false);
    assert!(closing.is_empty() && !open);
    let (closing, open) = console.on_environment_state(&EnvironmentId::primary(), true);
    assert_eq!((closing, open), (vec![1, 3], true));
    let (closing, open) = console.on_environment_state(&EnvironmentId::primary(), true);
    assert!(closing.is_empty() && !open, "there is nothing to replace");
}

// --- terminals --------------------------------------------------------------

#[test]
fn a_terminal_says_where_it_runs() {
    let calm = env("calm-1");
    let at = |in_devcontainer, inside_container, container_mode| Whereabouts {
        in_devcontainer,
        inside_container,
        container_mode,
    };
    let machine = at(false, false, false);
    let mut console = Console::new();
    let home = console.add_terminal_tab(Some(machine), at(true, false, false));
    assert!(home.env.is_primary() && !home.own);
    assert_eq!(home.tab.title, "devcontainer");

    assert!(console.note_watching(&calm));
    let own = console.add_terminal_tab(Some(at(true, true, true)), machine);
    assert!(own.own && own.env == calm);
    assert_eq!((own.tab.title.as_str(), own.tab.on_host), ("calm-1", false));
    let tab = console.add_terminal_tab(Some(at(false, true, false)), machine).tab;
    assert_eq!(
        (tab.title.as_str(), tab.icon),
        ("IDE container", "taste-container-warn")
    );
    let nowhere = console.add_terminal_tab(None, machine);
    assert!(nowhere.env.is_primary() && !nowhere.own);
    let tab = nowhere.tab;
    assert_eq!((tab.title.as_str(), tab.icon), ("this machine", "taste-host-warn"));
    assert!(tab.on_host);

    assert_eq!(probed_title(" dev@box \n"), Some("dev@box".to_string()));
    assert_eq!(probed_title("dev@"), None);
    assert_eq!(probed_title("@box"), None);
    assert_eq!(probed_title("dev"), None);

    let mut away = row(ConfigAuthority::Project, SupervisorState::Stopped);
    away.primary = false;
    away.name = "calm-1".into();
    assert_eq!(
        new_terminal_tooltip(None),
        "New terminal in the selected environment"
    );
    assert_eq!(
        new_terminal_tooltip(Some(&away)),
        "New terminal for calm-1 — nothing is running there, so it opens where the IDE does"
    );
    away.state = running();
    assert_eq!(new_terminal_tooltip(Some(&away)), "New terminal in calm-1");
}

#[test]
fn a_tab_that_ended_is_marked_once() {
    let (title, tooltip) = mark_tab_exited("build", "Shell exited");
    assert_eq!(title, "build (exited)");
    assert_eq!(
        tooltip,
        "Shell exited — the output stays until you close this tab"
    );
    assert_eq!(mark_tab_exited(&title, "Shell exited").0, "build (exited)");

    assert_eq!(
        countdown_text("build finished", CLOSE_COUNTDOWN_SECS),
        "build finished — closing this terminal in 5 s"
    );
    assert_eq!(
        countdown_close(5, false, "build finished"),
        Countdown::Left {
            seconds: 4,
            title: "build finished — closing this terminal in 4 s".into()
        }
    );
    assert_eq!(countdown_close(1, false, "x"), Countdown::Close);
    assert_eq!(countdown_close(5, true, "x"), Countdown::Kept);
    assert_eq!(
        command_exited("build", -1),
        CommandEnd::Failed {
            toast: "build exited with status -1".into()
        }
    );
    assert_eq!(
        command_exited("build", 0),
        CommandEnd::Finished {
            what: "build finished".into()
        }
    );
}

#[test]
fn a_process_gets_the_session_with_its_own_terminal() {
    let var = |k: &str, v: &str| (k.to_string(), v.to_string());
    let session = vec![var("PATH", "/bin"), var("TERM", "dumb"), var("A", "1"), var("COLORTERM", "")];
    assert_eq!(
        spawn_env(&session, &vec![var("A", "2")]),
        ["PATH=/bin", "TERM=xterm-256color", "COLORTERM=truecolor", "A=2"]
    );
    assert_eq!(
        command_line("sh", &vec!["-c".to_string(), "ls".to_string()]),
        ["sh", "-c", "ls"]
    );
    assert_eq!(log_line("x"), "x\n");
    assert_eq!(terminal_key('C', true, true), TerminalKey::Copy);
    assert_eq!(terminal_key('v', true, true), TerminalKey::Paste);
    assert_eq!(terminal_key('c', true, false), TerminalKey::Pass);
    assert_eq!(terminal_key('x', true, true), TerminalKey::Pass);
}

// --- the facts ----------------------------------------------------------------

fn live(slug: &str) -> LiveFacts {
    LiveFacts {
        env: env(slug),
        state: running(),
        authority: ConfigAuthority::Project,
        pending_rebuild: false,
        chat: None,
        review: ReviewState::Working,
        spend: Spend::default(),
        shells: 1,
    }
}

/// What was read last rides on the rows, and a refresh that says the same
/// moves nothing.
#[test]
fn the_rows_carry_what_was_read_last() {
    let mut console = Console::new();
    let queue = || vec![issue("i-0001", Resolution::Open, Some("calm-1"))];
    let read = |announce, moved| QueueRead { announce, moved };
    assert_eq!(console.refresh_issues(queue()), read(true, true));
    assert_eq!(console.refresh_issues(queue()), read(true, false), "read again, announced again");
    let mut relabelled = queue();
    relabelled[0].labels.push("ui".into());
    assert_eq!(console.refresh_issues(relabelled), read(true, true), "a label is a change");
    assert_eq!(console.refresh_issues(queue()), read(true, true));
    assert_eq!(console.open_issues(), 1);
    let git = EnvGit {
        branch: Some("topic".into()),
        unpublished: 2,
        dirty: 1,
    };
    assert!(console.refresh_environment_data(
        vec!["agents/calm-1".into()],
        vec![(env("calm-1"), git)],
        vec![(
            env("calm-1"),
            review_facts_for(&env("calm-1"), Some("main".into()), None)
        )],
    ));
    console.refresh_disk(vec![(
        env("calm-1"),
        DiskUsage {
            checkout_bytes: 1024,
            ..DiskUsage::default()
        },
    )]);
    let mut names = WorkspaceState::default();
    names.set_environment_name(&env("calm-1"), Some("the refactor"));
    console.set_workspace_state(names);

    let facts = console.facts_for(live("calm-1"));
    assert_eq!(facts.working_on.len(), 1);
    assert_eq!(facts.git.as_ref().unwrap().unpublished, 2);
    assert_eq!(facts.disk.unwrap().checkout_bytes, 1024);
    let all = |console: &Console| {
        vec![
            console.facts_for(live("primary")),
            console.facts_for(live("calm-1")),
        ]
    };
    let fresh = all(&console);
    assert!(console.refresh_fleet(fresh));
    assert_eq!(console.rows[1].name, "the refactor");
    assert_eq!(console.rows[1].published, 1);
    let again = all(&console);
    assert!(!console.refresh_fleet(again), "nothing moved");
    assert_eq!(
        console.open_review_for(&env("calm-1")),
        Some(("agents/calm-1".to_string(), "main".to_string()))
    );
    assert_eq!(console.open_review_for(&env("none")), None);

    assert!(console.note_watching(&env("calm-1")));
    assert!(!console.note_watching(&env("calm-1")));
    let glance = console.refresh_env_glance();
    assert_eq!(glance.new_terminal, "New terminal in the refactor");
    assert!(glance.resources.ends_with("1.0 KiB on disk"));
    assert!(console.destroyed(&env("calm-1")));
    assert!(console.selected.is_primary(), "home again");
    assert!(console.git_facts.get(&env("calm-1")).is_none());
}

#[test]
fn the_biggest_spender_comes_first() {
    let spender = |name: &str, tokens| {
        let mut one = row(ConfigAuthority::Project, running());
        one.primary = false;
        one.env = env(name);
        one.name = name.into();
        one.spend = Spend {
            requests: 1,
            input_tokens: tokens,
            output_tokens: 0,
        };
        one
    };
    let rows = vec![
        spender("a", 5),
        spender("quiet", 0),
        spender("b", 9),
        spender("c", 5),
    ];
    let ranked = rank_spenders(&rows);
    let names: Vec<(&str, u64)> = ranked.iter().map(|(n, t)| (n.as_str(), *t)).collect();
    assert_eq!(names, [("b", 9), ("a", 5), ("c", 5)]);
    let mut console = Console::new();
    assert!(!console.refresh_pool(QuotaSnapshot::default()), "nothing read yet");
    console.rows = rows;
    assert!(console.refresh_pool(QuotaSnapshot::default()));
    assert_eq!(console.pool.total(), 19);
    let observed = |bits| {
        let mut seen = QuotaSnapshot::default();
        seen.observed_at = Some(1_000);
        seen.session.utilization = Some(Share { bits, percent: 42 });
        seen.weekly.window.reset = Some(9_000);
        seen
    };
    assert!(console.refresh_pool(observed(7)));
    assert!(!console.refresh_pool(observed(7)), "the clock alone moves nothing");
    assert!(console.refresh_pool(observed(8)), "a share that moved does");
}

#[test]
fn a_fabricated_queue_is_not_announced() {
    let mut console = Console::new();
    console.seed_issues_for_probe(1_700_000_000);
    let read = console.refresh_issues(Vec::new());
    assert!(!read.announce && !read.moved);
    assert!(console.open_issues() > 0);
}

#[test]
fn a_person_who_starts_an_issue_claims_it_for_no_environment() {
    let mut by_hand = issue("i-0002", Resolution::Open, Some("Sam Smith"));
    by_hand.claimant = None;
    let claims = adopt_claims(&vec![by_hand, issue("i-0003", Resolution::Open, Some("calm-1"))]);
    assert_eq!(claims.get(&env("Sam Smith")), None);
    assert_eq!(claims.get(&env("calm-1")).map(|held| held.len()), Some(1));
}

/// A query for nothing clears the counts; any other starts a scan of the strip,
/// and a newer one stops it where it is.
#[test]
fn a_query_is_answered_until_the_next_one() {
    let console = with_tabs();
    let ranges = || vec![Rows { lo: 0, hi: 10 }, Rows { lo: 5, hi: 6 }];
    match console.answer_search(true, 3, &vec![1, 2], ranges()) {
        SearchAnswer::Cleared(report) => {
            assert!(!report.listing && !report.running);
            assert_eq!((report.hits, report.rows, report.terminals), (0, 0, 0));
        }
        SearchAnswer::Scanning(_) => panic!("nothing was asked for"),
    }
    let mut scan = match console.answer_search(false, 4, &vec![1, 2], ranges()) {
        SearchAnswer::Scanning(scan) => scan,
        SearchAnswer::Cleared(_) => panic!("something was asked for"),
    };
    assert_eq!(scan.envs, vec![env("a"), env("b")]);
    let read = ScanStep::Read {
        terminal: 0,
        start: 0,
        end: 10,
    };
    assert_eq!(scan.step(4), read);
    assert!(!scan.taken(10, 3, vec![(2, "hit".into())]));
    assert_eq!((scan.badge(0), scan.badge(1), scan.badge(2)), (Some(1), None, None));
    let report = scan.report(Some(0));
    assert!(report.listing && report.running);
    assert_eq!((report.hits, report.panel_hits), (3, 1));
    assert_eq!((report.rows_done, report.rows), (10, 11));
    assert_eq!(report.terminals, 2);
    assert_eq!(scan.report(None).panel_hits, 0);
    assert_eq!(scan.step(5), ScanStep::Superseded);
    assert_eq!(scan.report(Some(0)), report, "it stopped where it was");
}

/// Where the user is standing does not decide what a find can find.
#[test]
fn a_find_reads_the_stowed_terminals_too() {
    let mut console = with_tabs();
    console.stowed.push(StripPage {
        page: 3,
        owner: Some(env("c")),
    });
    assert_eq!(console.find_pages(&FindScope::Everywhere, &vec![2, 1]), [2, 1, 3]);
    assert_eq!(console.find_pages(&FindScope::Environment(env("c")), &vec![2, 1]), [3]);
    assert_eq!(console.find_pages(&FindScope::Environment(env("b")), &vec![2, 1]), [2]);
}

#[test]
fn git_facts_are_what_git_would_say() {
    let git = env_git(&env("calm-1"), Some("topic".into()), Some(3), Some(1));
    assert_eq!(git.branch.as_deref(), Some("topic"));
    assert_eq!((git.unpublished, git.dirty), (3, 1));
    let unread = env_git(&env("calm-1"), None, None, None);
    assert_eq!((unread.unpublished, unread.dirty), (0, 0));
}

#[test]
fn the_fixtures_are_the_same_every_time() {
    let mut console = Console::new();
    console.seed_issues_for_probe(1_000_000);
    assert!(console.probe_issues && open_issues(&console.issues) > 0);
    assert!(console.issues.iter().all(|i| i.created <= 1_000_000));
    let mut again = Console::new();
    again.seed_issues_for_probe(1_000_000);
    assert_eq!(console.issues, again.issues);

    console.seed_fleet_for_probe(3);
    let fleet = &console.probe_rows;
    assert_eq!(fleet.len(), 3);
    assert_eq!(fleet[0].env.as_str(), "i-0007");
    assert!(fleet[0].pending_rebuild && !fleet[1].pending_rebuild);
    assert_eq!(fleet[0].disk.unwrap().checkout_bytes, 412 * 1024 * 1024);
    assert_eq!(console.published, ["agents/i-0007", "agents/i-0002"]);
    let facts = console.review_facts.get(&env("i-0002")).unwrap();
    assert_eq!(facts.detail(), "agents/i-0002 → main · 6 commits ahead");

    assert!(console.refresh_fleet(Vec::new()));
    assert_eq!(console.rows.len(), 3, "the fabricated rows stand behind the real ones");
    assert!(!console.refresh_fleet(Vec::new()));
    again.seed_fleet_for_probe(0);
    assert!(again.probe_rows.is_empty());
}
