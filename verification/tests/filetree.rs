use taste_app::filetree::gate::RefreshGate;
use taste_app::filetree::status::{
    aggregate_dir_states, dir_state, state_for, FileState, StatusEntry,
};
use taste_app::path::TreePath;

/// A path in a checkout laid out like a Rust workspace.
fn file_path(files: usize, changed: usize, i: usize) -> TreePath {
    TreePath::parse(&format!(
        "crates/c{}/src/m{}/f{}.rs",
        i % 8,
        i % 40,
        i * files / changed.max(1)
    ))
}

/// One state per path: a later word on a path replaces the earlier one.
fn insert(status: &mut Vec<StatusEntry>, path: TreePath, state: FileState) {
    match status.iter_mut().find(|entry| entry.path == path) {
        Some(entry) => entry.state = state,
        None => status.push(StatusEntry { path, state }),
    }
}

/// A checkout an agent is working in: `changed` files in flight.
fn busy_status(files: usize, changed: usize) -> Vec<StatusEntry> {
    let mut status = Vec::new();
    for i in 0..changed {
        let state = match i % 4 {
            0 => FileState::Modified,
            1 => FileState::Staged,
            2 => FileState::Untracked,
            _ => FileState::Ignored,
        };
        insert(&mut status, file_path(files, changed, i), state);
    }
    status
}

/// A viewport's worth of rows: the folders down one expanded branch,
/// plus the files in it.
fn visible_rows() -> Vec<(TreePath, bool)> {
    let mut rows: Vec<(TreePath, bool)> = (0..8)
        .map(|c| (TreePath::parse(&format!("crates/c{c}")), true))
        .chain((0..4).map(|m| (TreePath::parse(&format!("crates/c0/src/m{m}")), true)))
        .collect();
    rows.extend((0..28).map(|i| {
        (
            TreePath::parse(&format!("crates/c0/src/m0/f{}.rs", i * 7)),
            false,
        )
    }));
    rows
}

/// The folders among the rows.
fn folders(rows: &[(TreePath, bool)]) -> Vec<TreePath> {
    rows.iter()
        .filter(|(_, is_dir)| *is_dir)
        .map(|(path, _)| path.clone())
        .collect()
}

/// The batch aggregate and the single-directory scan are two
/// implementations of one rule — the restyle path uses the first and
/// `build_row` the second, so they must never disagree.
#[test]
fn directory_aggregates_agree() {
    let plain = busy_status(2000, 400);
    let mut conflicted = plain.clone();
    insert(
        &mut conflicted,
        TreePath::parse("crates/c0/src/m1/boom.rs"),
        FileState::Conflicted,
    );
    let dirs = folders(&visible_rows());
    for status in [&plain, &conflicted] {
        let batch = aggregate_dir_states(status, &dirs);
        assert_eq!(batch.len(), dirs.len());
        for (dir, state) in dirs.iter().zip(&batch) {
            assert_eq!(*state, dir_state(status, dir), "{}", dir.show());
        }
    }
}

/// Conflicts beat staged beats modified; clean and ignored children
/// leave a folder clean.
#[test]
fn directory_aggregate_priority() {
    let dir = TreePath::parse("d");
    let dirs = vec![dir.clone()];
    let of = |states: &[(&str, FileState)]| {
        let status: Vec<StatusEntry> = states
            .iter()
            .map(|(name, state)| StatusEntry {
                path: TreePath::parse(&format!("d/{name}")),
                state: *state,
            })
            .collect();
        let batch = aggregate_dir_states(&status, &dirs);
        let single = dir_state(&status, &dir);
        assert_eq!(batch[0], single);
        single
    };
    assert_eq!(of(&[("a", FileState::Ignored)]), FileState::Clean);
    assert_eq!(of(&[("a", FileState::Untracked)]), FileState::Modified);
    assert_eq!(
        of(&[("a", FileState::Modified), ("b", FileState::Staged)]),
        FileState::Staged
    );
    assert_eq!(
        of(&[("a", FileState::Staged), ("b", FileState::Conflicted)]),
        FileState::Conflicted
    );
    // Sibling directories do not bleed: "d2" is not under "d".
    let status = vec![StatusEntry {
        path: TreePath::parse("d2/a"),
        state: FileState::Conflicted,
    }];
    assert_eq!(dir_state(&status, &dir), FileState::Clean);
    assert_eq!(aggregate_dir_states(&status, &dirs), vec![FileState::Clean]);
}

/// A burst of per-path watcher events becomes ONE query.
#[test]
fn refresh_gate_folds_a_burst() {
    let mut gate = RefreshGate::default();
    assert!(gate.request(), "the first request arms the timer");
    for _ in 0..50 {
        assert!(!gate.request(), "the rest fold into it");
    }
    assert!(gate.fire());
    assert!(!gate.finish(), "nothing asked for more while it ran");
}

/// Requests arriving during a query are neither dropped (the status
/// would go stale) nor stacked (a queue that never drains) — they
/// become exactly one re-run.
#[test]
fn refresh_gate_holds_one_trailing_run() {
    let mut gate = RefreshGate::default();
    assert!(gate.request());
    assert!(gate.fire());
    for _ in 0..20 {
        assert!(!gate.request(), "no second query while one is in flight");
    }
    assert!(gate.finish(), "one re-run is owed");
    assert!(gate.request(), "and it arms the timer again");
    assert!(gate.fire());
    assert!(!gate.finish(), "exactly one, not twenty");
}

/// A timer firing while a query is in flight defers rather than
/// starting a second one.
#[test]
fn refresh_gate_never_runs_two_queries() {
    let mut gate = RefreshGate::default();
    assert!(gate.request());
    assert!(gate.fire());
    assert!(!gate.fire(), "a stray timer must not start a second query");
    assert!(gate.finish());
}

/// A git-status tick on a checkout an agent is writing to moves few of the
/// rows on screen: a small delta must not touch most of them.
#[test]
fn perf_status_tick_on_a_busy_checkout() {
    const TICKS: usize = 300;
    let rows = visible_rows();
    let dirs = folders(&rows);
    for (files, changed) in [(1000, 120), (3000, 400), (10_000, 1500)] {
        let mut status = busy_status(files, changed);
        let mut painted: Vec<FileState> = rows
            .iter()
            .map(|(path, is_dir)| state_for(&status, path, *is_dir))
            .collect();

        let mut restyled = 0usize;
        for tick in 0..TICKS {
            let flip = if tick % 2 == 0 {
                FileState::Modified
            } else {
                FileState::Staged
            };
            for d in 0..3 {
                insert(
                    &mut status,
                    file_path(files, changed, (tick * 3 + d) % changed),
                    flip,
                );
            }
            insert(
                &mut status,
                TreePath::parse(&format!("crates/c0/src/m0/f{}.rs", (tick % 28) * 7)),
                match tick % 3 {
                    0 => FileState::Modified,
                    1 => FileState::Staged,
                    _ => FileState::Untracked,
                },
            );

            let states = aggregate_dir_states(&status, &dirs);
            for (index, (path, is_dir)) in rows.iter().enumerate() {
                let state = if *is_dir {
                    states[index]
                } else {
                    state_for(&status, path, false)
                };
                if state != painted[index] {
                    painted[index] = state;
                    restyled += 1;
                }
            }
        }
        assert!(
            restyled < rows.len() * TICKS / 4,
            "a small delta must not touch most rows"
        );
    }
}
