//! Git states of files, and what a directory row says of its subtree.

use vstd::prelude::*;
use crate::path::{lies_in, TreePath};

verus! {

/// What git says of one file.
#[derive(Debug, Clone, Copy, PartialEq, Eq, Structural)]
pub enum FileState {
    Clean,
    Modified,
    Staged,
    Untracked,
    Conflicted,
    Ignored,
}

impl FileState {
    /// An unstaged change or an untracked file.
    pub open spec fn is_stageable(self) -> bool {
        self == FileState::Modified || self == FileState::Untracked
    }

    /// Whether staging would take something of it: an unstaged change or an
    /// untracked file.
    pub fn stageable(self) -> (r: bool)
        ensures
            r == self.is_stageable(),
    {
        matches!(self, FileState::Modified | FileState::Untracked)
    }
}

/// One file git has something to say about.
#[derive(Debug, PartialEq, Eq)]
pub struct StatusEntry {
    pub path: TreePath,
    pub state: FileState,
}

impl Clone for StatusEntry {
    fn clone(&self) -> (out: Self)
        ensures
            out.path@ == self.path@,
            out.state == self.state,
    {
        StatusEntry { path: self.path.clone(), state: self.state }
    }
}

/// No path is listed twice.
pub open spec fn paths_are_distinct(status: Seq<StatusEntry>) -> bool {
    forall|i: int, j: int|
        0 <= i < j < status.len() ==> (#[trigger] status[i]).path@ != (#[trigger] status[j]).path@
}

/// What the status says of one path, where it says anything.
pub open spec fn said_of(status: Seq<StatusEntry>, path: Seq<Seq<char>>) -> Option<FileState>
    decreases status.len(),
{
    if status.len() == 0 {
        None
    } else if status[0].path@ == path {
        Some(status[0].state)
    } else {
        said_of(status.subrange(1, status.len() as int), path)
    }
}

/// A file's own state: clean where the status says nothing.
pub open spec fn file_state(status: Seq<StatusEntry>, path: Seq<Seq<char>>) -> FileState {
    match said_of(status, path) {
        Some(state) => state,
        None => FileState::Clean,
    }
}

/// The entries before a path's own do not decide what is said of it.
pub proof fn lemma_said_of_absent(status: Seq<StatusEntry>, i: int, path: Seq<Seq<char>>)
    requires
        0 <= i <= status.len(),
        forall|j: int| 0 <= j < i ==> (#[trigger] status[j]).path@ != path,
    ensures
        said_of(status, path) == said_of(status.subrange(i, status.len() as int), path),
    decreases i,
{
    if i == 0 {
        assert(status.subrange(0, status.len() as int) =~= status);
    } else {
        let rest = status.subrange(1, status.len() as int);
        assert forall|j: int| 0 <= j < i - 1 implies (#[trigger] rest[j]).path@ != path by {
            assert(rest[j] == status[j + 1]);
        }
        lemma_said_of_absent(rest, i - 1, path);
        assert(rest.subrange(i - 1, rest.len() as int) =~= status.subrange(i, status.len() as int));
    }
}

/// Where the status speaks of a path, it lists it.
pub proof fn lemma_said_of_found(status: Seq<StatusEntry>, path: Seq<Seq<char>>) -> (i: int)
    requires
        said_of(status, path) is Some,
    ensures
        0 <= i < status.len(),
        status[i].path@ == path,
    decreases status.len(),
{
    if status[0].path@ == path {
        0
    } else {
        let rest = status.subrange(1, status.len() as int);
        let i = lemma_said_of_found(rest, path);
        assert(rest[i] == status[i + 1]);
        i + 1
    }
}

/// What the status says of one path.
pub fn lookup(status: &Vec<StatusEntry>, path: &TreePath) -> (out: Option<FileState>)
    ensures
        out == said_of(status@, path@),
{
    let mut i: usize = 0;
    while i < status.len()
        invariant
            i <= status@.len(),
            forall|j: int| 0 <= j < i ==> (#[trigger] status@[j]).path@ != path@,
        decreases status@.len() - i,
    {
        if status[i].path.same_as(path) {
            proof {
                lemma_said_of_absent(status@, i as int, path@);
            }
            return Some(status[i].state);
        }
        i += 1;
    }
    proof {
        lemma_said_of_absent(status@, i as int, path@);
    }
    None
}

/// The badge a git state paints.
pub open spec fn badge_of(state: FileState) -> Seq<char> {
    match state {
        FileState::Clean => ""@,
        FileState::Modified => "M"@,
        FileState::Staged => "S"@,
        FileState::Untracked => "U"@,
        FileState::Conflicted => "!"@,
        FileState::Ignored => "·"@,
    }
}

/// The class a git state paints with.
pub open spec fn class_of(state: FileState) -> Option<Seq<char>> {
    match state {
        FileState::Clean => None,
        FileState::Modified => Some("warning"@),
        FileState::Staged => Some("success"@),
        FileState::Untracked => Some("accent"@),
        FileState::Conflicted => Some("error"@),
        FileState::Ignored => Some("dim-label"@),
    }
}

/// The badge glyph and CSS class a git state paints. One source for the
/// initial build and for the in-place restyle, so a row built fresh and a row
/// updated under the pointer can never diverge.
pub fn state_style(state: FileState) -> (out: (&'static str, Option<&'static str>))
    ensures
        out.0@ == badge_of(state),
        crate::fleet::text_view(out.1) == class_of(state),
{
    match state {
        FileState::Clean => ("", None),
        FileState::Modified => ("M", Some("warning")),
        FileState::Staged => ("S", Some("success")),
        FileState::Untracked => ("U", Some("accent")),
        FileState::Conflicted => ("!", Some("error")),
        FileState::Ignored => ("·", Some("dim-label")),
    }
}

/// How interesting a state is to the directories above it.
pub open spec fn rank_of(state: FileState) -> int {
    match state {
        FileState::Conflicted => 3,
        FileState::Staged => 2,
        FileState::Modified => 1,
        FileState::Untracked => 1,
        FileState::Clean => 0,
        FileState::Ignored => 0,
    }
}

/// What a directory of this rank says.
pub open spec fn state_of_rank(rank: int) -> FileState {
    if rank == 3 {
        FileState::Conflicted
    } else if rank == 2 {
        FileState::Staged
    } else if rank == 1 {
        FileState::Modified
    } else {
        FileState::Clean
    }
}

/// The highest rank among the files that lie in `dir`.
pub open spec fn subtree_rank(status: Seq<StatusEntry>, dir: Seq<Seq<char>>) -> int
    decreases status.len(),
{
    if status.len() == 0 {
        0
    } else {
        let rest = subtree_rank(status.drop_last(), dir);
        let last = status.last();
        if lies_in(last.path@, dir) && rank_of(last.state) > rest {
            rank_of(last.state)
        } else {
            rest
        }
    }
}

/// What a directory row says: the most interesting state in its subtree.
pub open spec fn directory_state(status: Seq<StatusEntry>, dir: Seq<Seq<char>>) -> FileState {
    state_of_rank(subtree_rank(status, dir))
}

/// Directory rows aggregate their subtree: the most interesting child state
/// wins, by this priority. Clean and Ignored contribute nothing.
pub fn dir_rank(state: FileState) -> (rank: u8)
    ensures
        rank == rank_of(state),
        rank <= 3,
{
    match state {
        FileState::Conflicted => 3,
        FileState::Staged => 2,
        FileState::Modified | FileState::Untracked => 1,
        FileState::Clean | FileState::Ignored => 0,
    }
}

pub fn rank_state(rank: u8) -> (state: FileState)
    ensures
        state == state_of_rank(rank as int),
{
    match rank {
        3 => FileState::Conflicted,
        2 => FileState::Staged,
        1 => FileState::Modified,
        _ => FileState::Clean,
    }
}

/// The aggregate's rank stays between nothing and a conflict, bounds the rank
/// of every file below, and is some file's own where it is not zero.
pub proof fn lemma_subtree_rank(status: Seq<StatusEntry>, dir: Seq<Seq<char>>)
    ensures
        0 <= subtree_rank(status, dir) <= 3,
        forall|i: int|
            0 <= i < status.len() && lies_in((#[trigger] status[i]).path@, dir) ==> rank_of(
                status[i].state,
            ) <= subtree_rank(status, dir),
        subtree_rank(status, dir) > 0 ==> exists|i: int|
            0 <= i < status.len() && lies_in((#[trigger] status[i]).path@, dir) && rank_of(
                status[i].state,
            ) == subtree_rank(status, dir),
    decreases status.len(),
{
    if status.len() > 0 {
        let rest = status.drop_last();
        lemma_subtree_rank(rest, dir);
        assert forall|i: int|
            0 <= i < status.len() && lies_in((#[trigger] status[i]).path@, dir) implies rank_of(
            status[i].state,
        ) <= subtree_rank(status, dir) by {
            if i < rest.len() {
                assert(rest[i] == status[i]);
            }
        }
        if subtree_rank(status, dir) > 0 {
            if subtree_rank(status, dir) == subtree_rank(rest, dir) {
                let i = choose|i: int|
                    0 <= i < rest.len() && lies_in((#[trigger] rest[i]).path@, dir) && rank_of(
                        rest[i].state,
                    ) == subtree_rank(rest, dir);
                assert(status[i] == rest[i]);
            } else {
                assert(status[status.len() - 1] == status.last());
            }
        }
    }
}

proof fn lemma_subtree_rank_done(status: Seq<StatusEntry>, dir: Seq<Seq<char>>, i: int)
    requires
        0 <= i <= status.len(),
        subtree_rank(status.take(i), dir) == 3,
    ensures
        subtree_rank(status, dir) == 3,
    decreases status.len() - i,
{
    if i == status.len() {
        assert(status.take(i) =~= status);
    } else {
        assert(status.take(i + 1).drop_last() =~= status.take(i));
        lemma_subtree_rank_done(status, dir, i + 1);
    }
}

/// One directory's aggregate, scanning the whole status.
pub fn dir_state(status: &Vec<StatusEntry>, rel: &TreePath) -> (state: FileState)
    ensures
        state == directory_state(status@, rel@),
{
    let mut rank: u8 = 0;
    let mut i: usize = 0;
    assert(status@.take(0) =~= Seq::empty());
    while i < status.len()
        invariant
            i <= status@.len(),
            rank == subtree_rank(status@.take(i as int), rel@),
            rank <= 3,
        decreases status@.len() - i,
    {
        if rank == 3 {
            proof {
                lemma_subtree_rank_done(status@, rel@, i as int);
            }
            return rank_state(rank);
        }
        if status[i].path.starts_with(rel) {
            let this = dir_rank(status[i].state);
            if this > rank {
                rank = this;
            }
        }
        i += 1;
        assert(status@.take(i as int).drop_last() =~= status@.take(i - 1));
    }
    assert(status@.take(i as int) =~= status@);
    rank_state(rank)
}

/// What a row paints: a file's own state, or a directory's aggregate.
pub open spec fn painted_state(
    status: Seq<StatusEntry>,
    path: Seq<Seq<char>>,
    is_dir: bool,
) -> FileState {
    if is_dir {
        directory_state(status, path)
    } else {
        file_state(status, path)
    }
}

/// The state a row paints: a file's own, or a directory's aggregate.
pub fn state_for(status: &Vec<StatusEntry>, rel: &TreePath, is_dir: bool) -> (state: FileState)
    ensures
        state == painted_state(status@, rel@, is_dir),
{
    if is_dir {
        dir_state(status, rel)
    } else {
        match lookup(status, rel) {
            Some(state) => state,
            None => FileState::Clean,
        }
    }
}

/// Aggregate states for many directories in one pass over the status: the
/// restyle pass wants every visible folder at once. Agrees with
/// [`dir_state`] on each of them.
pub fn aggregate_dir_states(status: &Vec<StatusEntry>, dirs: &Vec<TreePath>) -> (states: Vec<
    FileState,
>)
    ensures
        states@.len() == dirs@.len(),
        forall|i: int|
            0 <= i < dirs@.len() ==> (#[trigger] states@[i]) == directory_state(status@, dirs@[i]@),
{
    let mut ranks: Vec<u8> = Vec::new();
    let mut d: usize = 0;
    assert(status@.take(0) =~= Seq::empty());
    while d < dirs.len()
        invariant
            d <= dirs@.len(),
            ranks@.len() == d,
            status@.take(0) =~= Seq::empty(),
            forall|j: int|
                0 <= j < d ==> (#[trigger] ranks@[j]) == subtree_rank(status@.take(0), dirs@[j]@),
        decreases dirs@.len() - d,
    {
        ranks.push(0);
        d += 1;
    }
    let mut i: usize = 0;
    while i < status.len()
        invariant
            i <= status@.len(),
            ranks@.len() == dirs@.len(),
            forall|j: int|
                0 <= j < dirs@.len() ==> (#[trigger] ranks@[j]) == subtree_rank(
                    status@.take(i as int),
                    dirs@[j]@,
                ),
        decreases status@.len() - i,
    {
        let rank = dir_rank(status[i].state);
        assert(status@.take(i + 1).drop_last() =~= status@.take(i as int));
        if rank > 0 {
            let mut d: usize = 0;
            while d < dirs.len()
                invariant
                    i < status@.len(),
                    d <= dirs@.len(),
                    ranks@.len() == dirs@.len(),
                    rank == rank_of(status@[i as int].state),
                    status@.take(i + 1).drop_last() =~= status@.take(i as int),
                    forall|j: int|
                        d <= j < dirs@.len() ==> (#[trigger] ranks@[j]) == subtree_rank(
                            status@.take(i as int),
                            dirs@[j]@,
                        ),
                    forall|j: int|
                        0 <= j < d ==> (#[trigger] ranks@[j]) == subtree_rank(
                            status@.take(i + 1),
                            dirs@[j]@,
                        ),
                decreases dirs@.len() - d,
            {
                if status[i].path.starts_with(&dirs[d]) && rank > ranks[d] {
                    ranks[d] = rank;
                }
                d += 1;
            }
        } else {
            assert forall|j: int| 0 <= j < dirs@.len() implies (#[trigger] ranks@[j])
                == subtree_rank(status@.take(i + 1), dirs@[j]@) by {
                lemma_subtree_rank(status@.take(i as int), dirs@[j]@);
            }
        }
        i += 1;
    }
    assert(status@.take(i as int) =~= status@);
    let mut states: Vec<FileState> = Vec::new();
    let mut d: usize = 0;
    while d < dirs.len()
        invariant
            d <= dirs@.len(),
            ranks@.len() == dirs@.len(),
            states@.len() == d,
            forall|j: int|
                0 <= j < dirs@.len() ==> (#[trigger] ranks@[j]) == subtree_rank(status@, dirs@[j]@),
            forall|j: int|
                0 <= j < d ==> (#[trigger] states@[j]) == directory_state(status@, dirs@[j]@),
        decreases dirs@.len() - d,
    {
        states.push(rank_state(ranks[d]));
        d += 1;
    }
    states
}

/// Conflicts beat staged beats modified; clean and ignored files leave a
/// folder clean, and a file outside it changes nothing.
pub proof fn directory_priority(status: Seq<StatusEntry>, dir: Seq<Seq<char>>)
    ensures
        directory_state(status, dir) == FileState::Conflicted <==> exists|i: int|
            0 <= i < status.len() && lies_in((#[trigger] status[i]).path@, dir) && status[i].state
                == FileState::Conflicted,
        directory_state(status, dir) == FileState::Clean <==> forall|i: int|
            0 <= i < status.len() && lies_in((#[trigger] status[i]).path@, dir) ==> status[i].state
                == FileState::Clean || status[i].state == FileState::Ignored,
        directory_state(status, dir) == FileState::Staged <==> {
            &&& exists|i: int|
                0 <= i < status.len() && lies_in((#[trigger] status[i]).path@, dir)
                    && status[i].state == FileState::Staged
            &&& forall|i: int|
                0 <= i < status.len() && lies_in((#[trigger] status[i]).path@, dir)
                    ==> status[i].state != FileState::Conflicted
        },
{
    lemma_subtree_rank(status, dir);
}

/// A file paints the state that git gives it, and is clean where git says
/// nothing of it.
pub proof fn a_file_paints_what_git_says(status: Seq<StatusEntry>, path: Seq<Seq<char>>, k: int)
    requires
        paths_are_distinct(status),
    ensures
        0 <= k < status.len() && status[k].path@ == path ==> painted_state(status, path, false)
            == status[k].state,
        (forall|j: int| 0 <= j < status.len() ==> (#[trigger] status[j]).path@ != path)
            ==> painted_state(status, path, false) == FileState::Clean,
{
    if 0 <= k < status.len() && status[k].path@ == path {
        assert forall|j: int| 0 <= j < k implies (#[trigger] status[j]).path@ != path by {}
        lemma_said_of_absent(status, k, path);
    }
    if forall|j: int| 0 <= j < status.len() ==> (#[trigger] status[j]).path@ != path {
        if said_of(status, path) is Some {
            let at = lemma_said_of_found(status, path);
            assert(status[at].path@ == path);
        }
    }
}

/// Every state wears a badge and a colour of its own; a clean file wears
/// neither, a conflict the colour of an error.
pub proof fn states_are_told_apart(a: FileState, b: FileState)
    ensures
        badge_of(a) == badge_of(b) ==> a == b,
        class_of(a) == class_of(b) ==> a == b,
        badge_of(a).len() == 0 <==> a == FileState::Clean,
        class_of(a) is None <==> a == FileState::Clean,
        class_of(FileState::Conflicted) == Some("error"@),
        class_of(FileState::Staged) == Some("success"@),
        class_of(FileState::Modified) == Some("warning"@),
        badge_of(FileState::Conflicted) == "!"@,
        badge_of(FileState::Staged) == "S"@,
        badge_of(FileState::Modified) == "M"@,
        badge_of(FileState::Untracked) == "U"@,
{
    reveal_strlit("");
    reveal_strlit("M");
    reveal_strlit("S");
    reveal_strlit("U");
    reveal_strlit("!");
    reveal_strlit("·");
    reveal_strlit("warning");
    reveal_strlit("success");
    reveal_strlit("accent");
    reveal_strlit("error");
    reveal_strlit("dim-label");
    assert(""@.len() == 0 && "M"@.len() == 1 && "S"@.len() == 1 && "U"@.len() == 1 && "!"@.len() == 1
        && "·"@.len() == 1);
    assert("M"@[0] == 'M' && "S"@[0] == 'S' && "U"@[0] == 'U' && "!"@[0] == '!' && "·"@[0] == '·');
    assert("warning"@[0] == 'w' && "success"@[0] == 's' && "accent"@[0] == 'a' && "error"@[0] == 'e'
        && "dim-label"@[0] == 'd');
}

/// What staging would take: an unstaged change or an untracked file, and neither
/// what is staged nor what is in conflict.
pub proof fn staging_takes_loose_changes(state: FileState)
    ensures
        FileState::Modified.is_stageable() && FileState::Untracked.is_stageable(),
        state == FileState::Staged || state == FileState::Conflicted || state == FileState::Clean
            || state == FileState::Ignored ==> !state.is_stageable(),
{
}

} // verus!
