use taste_app::quantity::{compact, format_bytes};
use taste_app::environment::{
    Claim, ConfigAuthority, DiskUsage, EnvironmentId, ReviewState, SupervisorState, WorkspaceState,
};
use taste_app::fleet::{
    assemble, env_of_branch, published_by_environment, snapshot as take_snapshot, ChatBinding, EnvFacts, EnvGit,
    Light, ReviewMark, Spend,
};

fn printed_bytes(bytes: u64) -> String {
    let units = ["B", "KiB", "MiB", "GiB", "TiB"];
    let mut value = bytes as f64;
    let mut unit = 0;
    while value >= 1024.0 && unit + 1 < units.len() {
        value /= 1024.0;
        unit += 1;
    }
    if unit == 0 {
        format!("{bytes} B")
    } else {
        format!("{value:.1} {}", units[unit])
    }
}

fn printed_count(value: u64) -> String {
    match value {
        0..=9_999 => value.to_string(),
        10_000..=999_999 => format!("{:.0}k", value as f64 / 1000.0),
        _ => format!("{:.1}M", value as f64 / 1_000_000.0),
    }
}

fn samples() -> Vec<u64> {
    let mut all = vec![0, 1, 9, 10, 999, 1023, 1024, 1075, 1126, 1177, 9_999, 10_000, 10_499, 10_500,
        11_500, 12_500, 999_499, 999_500, 999_999, 1_000_000, 1_049_999, 1_050_000, 1_050_001,
        1_150_000, 1_250_000, 1_350_000, 1_450_000, u64::MAX, u64::MAX - 1];
    for shift in 0..64 {
        for delta in [-3i64, -2, -1, 0, 1, 2, 3] {
            all.push((1u64 << shift).wrapping_add(delta as u64));
        }
    }
    let mut x: u64 = 0x9E37_79B9_7F4A_7C15;
    for step in 0..4000u32 {
        x = x.wrapping_mul(6364136223846793005).wrapping_add(1442695040888963407);
        all.push(x >> (step % 64));
    }
    for tie in 0..400u64 {
        all.push(50_000 + 100_000 * (10 + tie * 7919));
        all.push(500 + 1000 * (10 + tie * 2));
        all.push((1 << 38) * (5 + 10 * tie));
    }
    all
}

#[test]
fn sizes_print_as_their_doubles_do() {
    for bytes in samples() {
        assert_eq!(format_bytes(bytes), printed_bytes(bytes), "{bytes}");
    }
}

#[test]
fn counts_print_as_their_doubles_do() {
    for value in samples() {
        assert_eq!(compact(value), printed_count(value), "{value}");
    }
}

fn env(slug: &str) -> EnvironmentId {
    EnvironmentId::new(slug)
}

fn facts(slug: &str, state: SupervisorState) -> EnvFacts {
    EnvFacts {
        env: env(slug),
        state,
        authority: ConfigAuthority::Project,
        pending_rebuild: false,
        chat: None,
        git: None,
        disk: None,
        spend: Spend::default(),
        shells: 0,
        review: ReviewState::Working,
        working_on: Vec::new(),
    }
}

fn running() -> SupervisorState {
    SupervisorState::Running {
        container_id: "abc123".into(),
    }
}

/// The whole row model in one pass: six sources in, one ordered list
/// out, with the primary leading and every environment carrying only
/// what belongs to it.
#[test]
fn a_row_is_assembled_from_the_places_its_facts_live() {
    let mut state = WorkspaceState::default();
    state.set_environment_name(&env("spry-2"), Some("the refactor"));

    let published = vec![
        "agents/calm-1".to_string(),
        "agents/spry-2".to_string(),
        // The dead generation belongs to no environment.
        "agents/calm-1/old-topic".to_string(),
        "main".to_string(),
    ];

    let rows = assemble(
        vec![
            facts("spry-2", SupervisorState::Stopped),
            EnvFacts {
                chat: Some(ChatBinding {
                    label: "Agent 2".into(),
                    busy: true,
                    awaits_user: false,
                    orchestrator: false,
                }),
                git: Some(EnvGit {
                    branch: Some("topic/inbox".into()),
                    unpublished: 1,
                    dirty: 3,
                }),
                spend: Spend {
                    requests: 12,
                    input_tokens: 41_000,
                    output_tokens: 3_500,
                },
                ..facts("calm-1", running())
            },
            facts("primary", running()),
        ],
        &state,
        &published,
    );

    // Primary first, then by the name the user reads.
    assert_eq!(
        rows.iter().map(|r| r.name.as_str()).collect::<Vec<_>>(),
        ["primary", "calm-1", "the refactor"]
    );
    assert!(rows[0].primary && !rows[1].primary);
    assert!(!rows[0].destroyable(), "the checkout is never destroyed");
    assert!(rows[1].destroyable());

    let calm = &rows[1];
    assert!(!calm.named, "an unnamed environment falls back to its slug");
    assert_eq!(
        calm.published, 1,
        "one branch of record, however many times it published"
    );
    assert_eq!(calm.chat.as_ref().unwrap().label, "Agent 2");
    assert!(calm.chat.as_ref().unwrap().busy);
    assert_eq!(
        calm.git.as_ref().unwrap().branch.as_deref(),
        Some("topic/inbox")
    );
    assert!(calm.has_unpublished_work());
    assert!(calm.container_mode());
    assert_eq!(
        calm.state_text(),
        "running",
        "the ordinary case wears no mode word"
    );
    assert_eq!(calm.spend_text(), "41k in / 3500 out");
    assert_eq!(calm.disk_text(), "—", "not walked yet, and not guessed");

    let refactor = &rows[2];
    assert!(refactor.named);
    assert_eq!(refactor.env, env("spry-2"), "renaming changes no identity");
    assert_eq!(refactor.published, 1);
    assert!(!refactor.container_mode());
    assert_eq!(refactor.state_text(), "no environment · stopped");
    assert!(!refactor.has_unpublished_work(), "not computed is not zero");
}

/// One branch per environment, so every count is 0 or 1 — and the
/// dead `agents/<env>/<topic>` generation is attributed to nobody
/// rather than folded back into the environment whose name it starts
/// with.
#[test]
fn only_a_branch_of_record_is_attributed_to_an_environment() {
    let counts = published_by_environment(&vec![
        "agents/calm-1".into(),
        "agents/spry-2".into(),
        "agents/calm-1/a".into(),
        "agents/calm-1/b/c".into(),
        "agents/".into(),
        "feature/x".into(),
    ]);
    assert_eq!(counts.get("calm-1"), Some(1));
    assert_eq!(counts.get("spry-2"), Some(1));
    assert_eq!(counts.len(), 2);
}

/// The review arc, as the row reports it: a settled environment is
/// destroyable with nothing to warn about, even holding work its clone
/// never published — the user already ruled on it.
#[test]
fn a_settled_environment_has_nothing_left_to_warn_about() {
    let state = WorkspaceState::default();
    let with = |review| {
        let mut facts = facts("calm-1", running());
        facts.review = review;
        facts.git = Some(EnvGit {
            branch: Some("work".into()),
            unpublished: 2,
            dirty: 3,
        });
        assemble(vec![facts], &state, &Vec::new()).remove(0)
    };
    let working = with(ReviewState::Working);
    assert!(working.has_unpublished_work());
    assert!(working.destroyable());
    assert!(with(ReviewState::FlaggedForReview).has_unpublished_work());
    for settled in [
        ReviewState::Merged,
        ReviewState::Rejected,
    ] {
        let row = with(settled);
        assert!(row.destroyable());
        assert!(
            !row.has_unpublished_work(),
            "{settled:?} means the user has already looked"
        );
    }
}

/// The review arc as a list marks it: three states of mark over four
/// states of arc, with the two settled ones deliberately sharing one.
/// The user has ruled either way, and a list does not need to shout the
/// difference — the console's detail says which way it went.
#[test]
fn the_review_arc_marks_a_row_without_moving_it() {
    let state = WorkspaceState::default();
    let mark = |review| {
        let mut facts = facts("calm-1", running());
        facts.review = review;
        assemble(vec![facts], &state, &Vec::new()).remove(0).review_mark()
    };
    assert_eq!(mark(ReviewState::Working), ReviewMark::Unmarked);
    assert_eq!(mark(ReviewState::FlaggedForReview), ReviewMark::Flagged);
    assert_eq!(mark(ReviewState::Merged), ReviewMark::Settled);
    assert_eq!(mark(ReviewState::Rejected), ReviewMark::Settled);

    // The ordinary case wears nothing at all: a mark on every row is
    // not a mark.
    assert_eq!(ReviewMark::Unmarked.css(), None);
    assert_eq!(ReviewMark::Unmarked.icon(), None);
    // ...and the two that do wear something wear different things, or
    // the mark says nothing.
    assert_ne!(ReviewMark::Flagged.css(), ReviewMark::Settled.css());
    assert_ne!(ReviewMark::Flagged.icon(), ReviewMark::Settled.icon());

    // The mark is NOT the light. A flagged environment's container was
    // stopped because it is done, so the light is honestly red — and
    // red is not what "this wants your judgment" looks like, which is
    // the whole reason there are two marks and not one.
    let mut facts = facts("calm-1", SupervisorState::Stopped);
    facts.review = ReviewState::FlaggedForReview;
    let row = assemble(vec![facts], &state, &Vec::new()).remove(0);
    assert_eq!(row.light(), Light::Red);
    assert_eq!(row.review_mark(), ReviewMark::Flagged);
}

/// What an environment is working ON, as one line.
#[test]
fn the_row_says_which_issue_an_environment_claimed() {
    let state = WorkspaceState::default();
    let claim = |id: &str, title: &str| Claim {
        id: id.into(),
        title: title.into(),
    };
    let with = |held: Vec<Claim>| {
        let mut facts = facts("calm-1", running());
        facts.working_on = held;
        assemble(vec![facts], &state, &Vec::new()).remove(0)
    };
    assert_eq!(with(Vec::new()).working_on_text(), None);
    assert_eq!(
        with(vec![claim("i-0003", "The parser drops commas")]).working_on_text(),
        Some("i-0003 — The parser drops commas".to_string())
    );
    assert_eq!(
        with(vec![
            claim("i-0003", "The parser drops commas"),
            claim("i-0009", "And the lexer"),
        ])
        .working_on_text(),
        Some("i-0003 — The parser drops commas (+1 more)".to_string())
    );
}

/// A row must say what a state means, including the two that are easy
/// to misread: a container mid-build is not a place to run anything
/// yet, and a running container whose config moved says so.
#[test]
fn state_text_never_promises_an_environment_it_does_not_have() {
    let state = WorkspaceState::default();
    let row = |supervisor, pending| {
        let mut facts = facts("calm-1", supervisor);
        facts.pending_rebuild = pending;
        assemble(vec![facts], &state, &Vec::new()).remove(0)
    };
    assert_eq!(
        row(SupervisorState::Building, false).state_text(),
        "no environment · building…"
    );
    assert_eq!(
        row(SupervisorState::NoConfig, false).state_text(),
        "no environment · not configured"
    );
    assert_eq!(
        row(running(), true).state_text(),
        "running · needs rebuild",
        "a drifted config is still the project's config in force"
    );
    assert_eq!(
        row(
            SupervisorState::Failed {
                message: "podman build: no such image\nstack trace…".into()
            },
            false
        )
        .state_text(),
        "no environment · failed: podman build: no such image"
    );
}

/// The wire snapshot is a projection of the rows and nothing more.
/// Gadget mode and the varlink service both read it, so anything it
/// invents is something two surfaces can disagree about.
#[test]
fn the_snapshot_projects_the_rows_and_derives_its_totals_from_them() {
    let mut state = WorkspaceState::default();
    state.set_environment_name(&env("spry-2"), Some("the refactor"));
    let rows = assemble(
        vec![
            facts("primary", running()),
            EnvFacts {
                chat: Some(ChatBinding {
                    label: "Agent 2".into(),
                    busy: true,
                    awaits_user: false,
                    orchestrator: false,
                }),
                git: Some(EnvGit {
                    branch: Some("topic/inbox".into()),
                    unpublished: 1,
                    dirty: 3,
                }),
                shells: 2,
                spend: Spend {
                    requests: 12,
                    input_tokens: 41_000,
                    output_tokens: 3_500,
                },
                ..facts("calm-1", running())
            },
            EnvFacts {
                spend: Spend {
                    requests: 1,
                    input_tokens: 1_000,
                    output_tokens: 500,
                },
                ..facts("spry-2", SupervisorState::Building)
            },
        ],
        &state,
        &vec!["agents/calm-1".into(), "agents/spry-2".into()],
    );
    let snapshot = take_snapshot(&rows, "taste-ide", 5);

    assert_eq!(snapshot.workspace, "taste-ide");
    // The queue is the workspace's: it rides the projection, but no
    // sum over these rows could produce it — an unclaimed issue has no
    // environment to be counted under.
    assert_eq!(snapshot.open_issues, 5);
    assert_eq!(
        snapshot
            .rows
            .iter()
            .map(|r| &r.environment)
            .collect::<Vec<_>>(),
        ["primary", "calm-1", "spry-2"],
        "the order the rows were assembled in survives the projection"
    );
    // The aggregates the gadget's header and gauge show are sums the
    // snapshot takes, not numbers this function made up.
    assert_eq!(
        snapshot.flagged_for_review(),
        0,
        "publishing is a checkpoint, not a request for judgment"
    );
    assert_eq!(snapshot.spend().input_tokens, 42_000);
    assert_eq!(snapshot.spend().requests, 13);
    assert_eq!(snapshot.running(), 2, "building is not running");
    assert_eq!(snapshot.busy(), 1);

    let calm = &snapshot.rows[1];
    assert_eq!(calm.mode, "container");
    assert_eq!(calm.state, "running");
    assert_eq!(calm.detail, "running");
    assert_eq!(calm.chat.as_ref().unwrap().label, "Agent 2");
    assert!(calm.git_known && calm.branch.as_deref() == Some("topic/inbox"));
    assert_eq!((calm.unpublished, calm.dirty, calm.shells), (1, 3, 2));
    assert_eq!(calm.disk_bytes, None, "not walked, and not guessed");

    let spry = &snapshot.rows[2];
    assert_eq!(spry.name, "the refactor");
    assert_eq!(spry.environment, "spry-2", "renaming changes no identity");
    assert!(spry.named);
    assert_eq!(
        (spry.mode.as_str(), spry.state.as_str()),
        ("safe", "building")
    );
    assert!(
        !spry.git_known && spry.unpublished == 0,
        "a client must be able to tell unknown from zero"
    );
}

/// Seven supervisor states plus two flags collapse to three lights,
/// and every collapse is asserted — this is the mapping the
/// environment panel colours a dot with, so a wrong arm here is a
/// green light on an environment nothing can run in.
#[test]
fn the_traffic_light_says_whether_work_can_happen_here() {
    let state = WorkspaceState::default();
    let light =
        |supervisor| assemble(vec![facts("calm-1", supervisor)], &state, &Vec::new())[0].light();
    assert_eq!(light(running()), Light::Green, "up and working");
    assert_eq!(light(SupervisorState::Building), Light::Amber);
    assert_eq!(light(SupervisorState::Starting), Light::Amber);
    // Down is down, however routine the reason.
    assert_eq!(light(SupervisorState::Stopped), Light::Red);
    assert_eq!(light(SupervisorState::NoConfig), Light::Red);
    assert_eq!(light(SupervisorState::ConfigDetected), Light::Red);
    assert_eq!(
        light(SupervisorState::Failed {
            message: "boom".into()
        }),
        Light::Red
    );
}

/// A baseline container is up and healthy inside, and still wants the
/// user: its project has no usable devcontainer. Amber, in the one
/// mapping — a second surface deriving its own colour here is how two
/// surfaces come to disagree about whether an environment is fine.
#[test]
fn a_baseline_environment_is_amber_and_says_so_in_words() {
    let state = WorkspaceState::default();
    let mut facts = facts("calm-1", running());
    facts.authority = ConfigAuthority::Baseline;
    let row = assemble(vec![facts], &state, &Vec::new()).remove(0);

    assert_eq!(
        row.light(),
        Light::Amber,
        "green would claim the project's environment is up"
    );
    assert!(row.baseline());
    assert!(row.container_running(), "there IS a container");
    assert!(
        !row.container_mode(),
        "but it is not the project's, so the workspace stays locked"
    );
    assert_eq!(row.mode_text(), Some("safe mode"));
    assert_eq!(
        row.mode_slug(),
        "safe",
        "a client matching \"safe\" must not miss a baseline environment"
    );
    assert_eq!(
        row.state_text(),
        "safe mode · running",
        "the baseline is the one rung that says \"safe mode\" and means a container is up"
    );
}

/// The same row under the project's own config is the working mode —
/// the control for the test above, so the amber is attributable to the
/// authority and not to something else on the row.
#[test]
fn the_same_row_under_the_projects_config_is_green_and_unlabelled() {
    let state = WorkspaceState::default();
    let mut facts = facts("calm-1", running());
    facts.authority = ConfigAuthority::Project;
    let row = assemble(vec![facts], &state, &Vec::new()).remove(0);

    assert_eq!(row.light(), Light::Green);
    assert!(row.container_mode() && row.container_running());
    assert!(!row.baseline());
    assert_eq!(row.mode_text(), None, "the normal case names no mode");
}

/// The two ways a running environment still wants you — and the one
/// case where wanting you is not the problem.
#[test]
fn a_running_environment_turns_amber_when_it_is_waiting_on_a_person() {
    let state = WorkspaceState::default();
    let row = |supervisor, pending, awaits_user| {
        let mut facts = facts("calm-1", supervisor);
        facts.pending_rebuild = pending;
        facts.chat = Some(ChatBinding {
            label: "Agent 2".into(),
            busy: true,
            awaits_user,
            orchestrator: false,
        });
        assemble(vec![facts], &state, &Vec::new()).remove(0)
    };
    assert_eq!(
        row(running(), false, false).light(),
        Light::Green,
        "a busy chat is work happening, not a warning"
    );
    assert_eq!(
        row(running(), false, true).light(),
        Light::Amber,
        "an unanswered question is the user's turn"
    );
    assert!(row(running(), false, true).awaits_user());
    assert_eq!(
        row(running(), true, false).light(),
        Light::Amber,
        "a container that no longer matches its config wants applying"
    );
    assert_eq!(
        row(SupervisorState::Stopped, false, true).light(),
        Light::Red,
        "severity wins: the permission is not what stands in the way"
    );
}

/// `Unknown` is for callers with no row. A row always has a state, so
/// it always has one of the three.
#[test]
fn a_row_never_reports_an_unknown_light() {
    let state = WorkspaceState::default();
    for supervisor in [
        SupervisorState::NoConfig,
        SupervisorState::ConfigDetected,
        SupervisorState::Building,
        SupervisorState::Starting,
        running(),
        SupervisorState::Failed {
            message: "boom".into(),
        },
        SupervisorState::Stopped,
    ] {
        let row = assemble(vec![facts("calm-1", supervisor)], &state, &Vec::new()).remove(0);
        assert_ne!(row.light(), Light::Unknown);
    }
    // And the four lights keep four distinct classes, because the CSS
    // is what actually colours the dot.
    let mut classes = [
        Light::Green.css(),
        Light::Amber.css(),
        Light::Red.css(),
        Light::Unknown.css(),
    ];
    classes.sort_unstable();
    let unique = {
        let mut all = classes.to_vec();
        all.dedup();
        all.len()
    };
    assert_eq!(unique, 4, "two lights sharing a colour");
}

/// Every supervisor state gets a token of its own, because a client
/// switching on the string is the point of having one.
#[test]
fn state_slugs_are_distinct_and_stable() {
    let state = WorkspaceState::default();
    let slug =
        |supervisor| assemble(vec![facts("calm-1", supervisor)], &state, &Vec::new())[0].state_slug();
    let all = [
        slug(SupervisorState::NoConfig),
        slug(SupervisorState::ConfigDetected),
        slug(SupervisorState::Building),
        slug(SupervisorState::Starting),
        slug(running()),
        slug(SupervisorState::Failed {
            message: "boom".into(),
        }),
        slug(SupervisorState::Stopped),
    ];
    let mut unique = all.to_vec();
    unique.sort_unstable();
    unique.dedup();
    assert_eq!(unique.len(), all.len(), "two states sharing a token");
    assert_eq!(slug(running()), "running");
    assert_eq!(slug(SupervisorState::NoConfig), "no-config");
}

#[test]
fn a_footprint_says_when_it_is_incomplete() {
    let state = WorkspaceState::default();
    let with = |disk| {
        let mut facts = facts("calm-1", running());
        facts.disk = Some(disk);
        assemble(vec![facts], &state, &Vec::new()).remove(0)
    };
    assert_eq!(
        with(DiskUsage {
            checkout_bytes: 1024 * 1024 * 3,
            volume_bytes: 1024 * 1024,
            volumes_measured: 1,
            volumes_unmeasured: 0,
        })
        .disk_text(),
        "4.0 MiB"
    );
    assert_eq!(
        with(DiskUsage {
            checkout_bytes: 512,
            volumes_unmeasured: 2,
            ..Default::default()
        })
        .disk_text(),
        "512 B+",
        "a footprint missing volumes must not read as complete"
    );
}

#[test]
fn a_branch_of_record_names_its_environment() {
    assert_eq!(env_of_branch("agents/calm-1"), Some("calm-1".to_string()));
    for other in ["agents/", "agents/calm-1/topic", "main", "agent/calm-1", ""] {
        assert_eq!(env_of_branch(other), None, "{other:?}");
    }
    let counts = published_by_environment(&vec![
        "agents/b".to_string(),
        "agents/a".to_string(),
        "main".to_string(),
    ]);
    assert_eq!(counts.len(), 2);
    assert_eq!((counts.get("a"), counts.get("main")), (Some(1), None));
}

/// Every environment has its row, and the primary's comes first whatever the
/// others are called.
#[test]
fn the_primary_leads_whatever_it_is_called() {
    let mut state = WorkspaceState::default();
    state.set_environment_name(&env("primary"), Some("zzz"));
    state.set_environment_name(&env("z-9"), Some("aaa"));
    let rows = assemble(
        vec![
            facts("b-2", running()),
            facts("z-9", running()),
            facts("primary", running()),
        ],
        &state,
        &Vec::new(),
    );
    let order: Vec<&str> = rows.iter().map(|row| row.env.as_str()).collect();
    assert_eq!(order, ["primary", "z-9", "b-2"]);
}

#[test]
fn a_row_says_what_it_costs_and_which_rung_it_is_on() {
    let row = |authority, state, spend| {
        let mut facts = facts("calm-1", state);
        facts.authority = authority;
        facts.spend = spend;
        assemble(vec![facts], &WorkspaceState::default(), &Vec::new()).remove(0)
    };
    let spent = Spend {
        requests: 3,
        input_tokens: 12_345,
        output_tokens: 678,
    };
    assert_eq!(spent.tokens(), 13_023);
    assert!(Spend::default().is_zero() && !spent.is_zero());
    let full = Spend {
        requests: 0,
        input_tokens: u64::MAX,
        output_tokens: 1,
    };
    assert_eq!(full.tokens(), u64::MAX);
    let green = row(ConfigAuthority::Project, running(), spent);
    assert_eq!(green.spend_text(), "12k in / 678 out");
    assert_eq!(
        green.mode_explainer(),
        "This environment runs the project's own devcontainer configuration."
    );
    let quiet = row(ConfigAuthority::Project, SupervisorState::Stopped, Spend::default());
    assert_eq!(quiet.spend_text(), "—");
    assert!(quiet.mode_explainer().starts_with("Nothing is running here"));
    let safe = row(ConfigAuthority::Baseline, running(), Spend::default());
    assert!(safe.mode_explainer().starts_with("The IDE's baseline environment"));
    let classes: Vec<&str> = [Light::Green, Light::Amber, Light::Red, Light::Unknown]
        .iter()
        .map(|light| light.css())
        .collect();
    for (i, a) in classes.iter().enumerate() {
        assert!(classes[i + 1..].iter().all(|b| a != b), "{a}");
    }
}
