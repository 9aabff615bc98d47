//! Browser-style navigation: the files visited, and where among them the
//! user is.

use vstd::prelude::*;
use crate::filetree::plan::paths_view;
use crate::path::TreePath;

verus! {

/// How many visits are remembered.
pub const MAX_NAV_HISTORY: usize = 100;

/// The files visited, and the cursor into them.
#[derive(Debug, PartialEq, Eq)]
pub struct NavHistory {
    pub visited: Vec<TreePath>,
    pub pos: usize,
}

/// The files visited, oldest first, and the place among them.
pub struct Visits {
    pub files: Seq<Seq<Seq<char>>>,
    pub pos: int,
}

impl Visits {
    /// A bounded history whose cursor stands in it, unless it is empty.
    pub open spec fn wf(self) -> bool {
        &&& self.files.len() <= MAX_NAV_HISTORY
        &&& 0 <= self.pos
        &&& self.pos < self.files.len() || (self.files.len() == 0 && self.pos == 0)
    }

    /// The file the cursor is on.
    pub open spec fn current(self) -> Option<Seq<Seq<char>>> {
        if 0 <= self.pos < self.files.len() {
            Some(self.files[self.pos])
        } else {
            None
        }
    }

    /// The history after a visit: what lay ahead is gone, the file is the
    /// newest, and the oldest goes once there are too many. Visiting the file
    /// one is on changes nothing.
    pub open spec fn visited(self, path: Seq<Seq<char>>) -> Visits {
        if self.current() == Some(path) {
            self
        } else {
            let kept = if self.pos + 1 < self.files.len() {
                self.files.subrange(0, self.pos + 1)
            } else {
                self.files
            };
            let grown = kept.push(path);
            let files = if grown.len() > MAX_NAV_HISTORY {
                grown.subrange(1, grown.len() as int)
            } else {
                grown
            };
            Visits { files, pos: files.len() - 1 }
        }
    }

    /// Whether there is a file that many steps on.
    pub open spec fn reaches(self, direction: int) -> bool {
        0 <= self.pos + direction < self.files.len()
    }

    /// The history that many steps on, where there is one.
    pub open spec fn moved(self, direction: int) -> Visits {
        if self.reaches(direction) {
            Visits { pos: self.pos + direction, ..self }
        } else {
            self
        }
    }
}

impl View for NavHistory {
    type V = Visits;

    open spec fn view(&self) -> Visits {
        Visits { files: paths_view(self.visited@), pos: self.pos as int }
    }
}

impl NavHistory {
    /// Nothing visited yet.
    pub fn new() -> (out: Self)
        ensures
            out@.wf(),
            out@.files.len() == 0,
            out@.pos == 0,
    {
        NavHistory { visited: Vec::new(), pos: 0 }
    }

    /// Record a file visit. Arriving somewhere by back or forward is
    /// recognised by position and not recorded again, so the two directions
    /// stay stable.
    pub fn record_visit(&mut self, path: TreePath)
        requires
            old(self)@.wf(),
        ensures
            final(self)@.wf(),
            final(self)@ == old(self)@.visited(path@),
    {
        let ghost before = self@;
        assert(before.files.len() == self.visited@.len());
        if self.pos < self.visited.len() {
            let here = self.visited[self.pos].same_as(&path);
            if here {
                return;
            }
        }
        let mut keep: usize = self.visited.len();
        if self.pos + 1 < keep {
            keep = self.pos + 1;
        }
        self.visited.truncate(keep);
        assert(paths_view(self.visited@) =~= before.files.subrange(0, keep as int));
        assert(before.files.subrange(0, before.files.len() as int) =~= before.files);
        let ghost kept = paths_view(self.visited@);
        let ghost added = path@;
        self.visited.push(path);
        assert(paths_view(self.visited@) =~= kept.push(added));
        if self.visited.len() > MAX_NAV_HISTORY {
            let ghost grown = paths_view(self.visited@);
            self.visited.remove(0);
            assert(paths_view(self.visited@) =~= grown.subrange(1, grown.len() as int));
        }
        self.pos = self.visited.len() - 1;
    }

    /// Move through the files visited. The result is the file to show, which
    /// reopens if it was closed; `None` means there is none that way.
    pub fn navigate(&mut self, direction: i64) -> (target: Option<TreePath>)
        requires
            old(self)@.wf(),
        ensures
            final(self)@.wf(),
            final(self)@ == old(self)@.moved(direction as int),
            match target {
                Some(path) => old(self)@.reaches(direction as int) && final(self)@.current()
                    == Some(path@),
                None => !old(self)@.reaches(direction as int),
            },
    {
        let pos: i128 = self.pos as i128 + direction as i128;
        if pos < 0 || pos >= self.visited.len() as i128 {
            return None;
        }
        self.pos = pos as usize;
        Some(self.visited[self.pos].clone())
    }

    /// Whether the back and the forward button have anywhere to go.
    pub fn nav_buttons(&self) -> (out: (bool, bool))
        requires
            self@.wf(),
        ensures
            buttons(out, self@),
    {
        (self.pos > 0, self.pos + 1 < self.visited.len())
    }
}

/// Whether the back and the forward button have anywhere to go.
pub open spec fn buttons(out: (bool, bool), history: Visits) -> bool {
    &&& out.0 == history.reaches(-1)
    &&& out.1 == history.reaches(1)
}

/// A visit ends on the file visited, with nothing ahead of it.
pub proof fn a_visit_arrives(before: Visits, path: Seq<Seq<char>>)
    requires
        before.wf(),
    ensures
        before.visited(path).wf(),
        before.visited(path).current() == Some(path),
        before.current() != Some(path) ==> !before.visited(path).reaches(1),
{
}

/// Going back after a visit gives the file one came from, and going forward
/// again the file visited: neither loses anything.
pub proof fn back_and_forward_undo_each_other(before: Visits, path: Seq<Seq<char>>)
    requires
        before.wf(),
        before.current() is Some,
        before.current() != Some(path),
    ensures
        before.visited(path).reaches(-1),
        before.visited(path).moved(-1).current() == before.current(),
        before.visited(path).moved(-1).moved(1) == before.visited(path),
{
}

/// Arriving somewhere by back or forward and then recording the visit leaves
/// the history as the move left it.
pub proof fn arriving_is_not_a_new_visit(before: Visits, direction: int)
    requires
        before.wf(),
        before.reaches(direction),
    ensures
        before.moved(direction).current() matches Some(path) && before.moved(direction).visited(
            path,
        ) == before.moved(direction),
{
}

/// Back has somewhere to go wherever a visit lies behind, and forward wherever
/// one lies ahead.
pub proof fn a_button_answers_where_a_visit_lies(out: (bool, bool), history: Visits)
    requires
        history.wf(),
        buttons(out, history),
    ensures
        out.0 <==> history.pos > 0,
        out.1 <==> history.pos + 1 < history.files.len(),
        out.0 ==> history.moved(-1).current() == Some(history.files[history.pos - 1]),
        out.1 ==> history.moved(1).current() == Some(history.files[history.pos + 1]),
        history.moved(-1).files == history.files,
{
}

/// A visit forgets only what lay ahead, and the oldest once there are too many.
pub proof fn a_visit_forgets_only_what_lay_ahead(before: Visits, path: Seq<Seq<char>>)
    requires
        before.wf(),
        before.current() != Some(path),
    ensures
        before.visited(path).files.last() == path,
        before.files.len() < 100 ==> before.visited(path).pos == if before.files.len() == 0 {
            0
        } else {
            before.pos + 1
        },
        before.files.len() < 100 ==> forall|i: int|
            0 <= i <= before.pos && i < before.files.len() ==> before.visited(path).files[i]
                == #[trigger] before.files[i],
        forall|i: int|
            0 < i <= before.pos && i < before.files.len() ==> before.visited(path).files.contains(
                #[trigger] before.files[i],
            ),
        before.visited(path).files.len() <= 100,
{
    let after = before.visited(path);
    assert forall|i: int| 0 < i <= before.pos && i < before.files.len() implies after.files.contains(
        #[trigger] before.files[i],
    ) by {
        if after.files.len() > i && after.files[i] == before.files[i] {
        } else {
            assert(after.files[i - 1] == before.files[i]);
        }
    }
}

} // verus!
