//! Find in project: results shaped for the tree.

use vstd::prelude::*;
use crate::filetree::snapshot::{is_listed, lists};
use crate::filetree::tree::{FileTree, PaneKind};
use crate::path::{lies_in, shown_name, TreePath};
use crate::text::{decimal, decimal_of, trimmed};

verus! {

/// How many hits a search asks for.
pub const SEARCH_LIMIT: usize = 200;

/// One line that matched.
#[derive(Debug, PartialEq, Eq)]
pub struct SearchHit {
    pub path: TreePath,
    pub line: u32,
    pub text: String,
}

/// One file's hits, in the order they were found.
#[derive(Debug, PartialEq, Eq)]
pub struct FileHits {
    pub path: TreePath,
    pub hits: Vec<SearchHit>,
}

/// Active search results shaped for the tree: per-file hits, and the paths
/// that stay visible in matches-only mode.
#[derive(Debug, PartialEq, Eq)]
pub struct SearchView {
    pub files: Vec<FileHits>,
    pub visible: Vec<TreePath>,
    /// The editor's active file: always listed, so project search doubles as
    /// search within the current file.
    pub pinned: Option<TreePath>,
}

/// The hits in one file, in order.
pub open spec fn hits_in(hits: Seq<SearchHit>, path: Seq<Seq<char>>) -> Seq<SearchHit>
    decreases hits.len(),
{
    if hits.len() == 0 {
        Seq::empty()
    } else {
        let rest = hits_in(hits.drop_last(), path);
        if hits.last().path@ == path {
            rest.push(hits.last())
        } else {
            rest
        }
    }
}

/// The groups hold each file's hits: a file once, with all of its hits in
/// order, and every file that has one.
pub open spec fn groups(files: Seq<FileHits>, hits: Seq<SearchHit>) -> bool {
    &&& forall|i: int, j: int|
        0 <= i < j < files.len() ==> (#[trigger] files[i]).path@ != (#[trigger] files[j]).path@
    &&& forall|i: int|
        0 <= i < files.len() ==> (#[trigger] files[i]).hits@ == hits_in(hits, files[i].path@)
            && files[i].hits@.len() > 0
    &&& forall|path: Seq<Seq<char>>|
        (#[trigger] hits_in(hits, path)).len() > 0 ==> exists|i: int|
            0 <= i < files.len() && (#[trigger] files[i]).path@ == path
}

fn find_group(files: &Vec<FileHits>, path: &TreePath) -> (out: Option<usize>)
    ensures
        match out {
            Some(i) => i < files@.len() && files@[i as int].path@ == path@ && forall|j: int|
                0 <= j < i ==> (#[trigger] files@[j]).path@ != path@,
            None => forall|i: int| 0 <= i < files@.len() ==> (#[trigger] files@[i]).path@ != path@,
        },
{
    let mut i: usize = 0;
    while i < files.len()
        invariant
            i <= files@.len(),
            forall|j: int| 0 <= j < i ==> (#[trigger] files@[j]).path@ != path@,
        decreases files@.len() - i,
    {
        if files[i].path.same_as(path) {
            return Some(i);
        }
        i += 1;
    }
    None
}

/// Group hits by file.
pub fn group_hits(hits: Vec<SearchHit>) -> (files: Vec<FileHits>)
    ensures
        groups(files@, hits@),
{
    let mut files: Vec<FileHits> = Vec::new();
    for hit in it: hits
        invariant
            it.seq() == hits@,
            groups(files@, hits@.take(it.index() as int)),
    {
        let ghost seen = hits@.take(it.index() as int);
        let ghost next = hits@.take(it.index() + 1);
        let ghost before = files@;
        let ghost added = hit.path@;
        let ghost the_hit = hit;
        proof {
            assert(next.drop_last() =~= seen);
            assert(next.last() == hit);
        }
        match find_group(&files, &hit.path) {
            Some(i) => {
                let ghost old_hits = files@[i as int].hits@;
                files[i].hits.push(hit);
                proof {
                    assert(files@[i as int].path@ == added);
                    assert(files@[i as int].hits@ == old_hits.push(the_hit));
                    assert forall|k: int| 0 <= k < files@.len() && k != i implies #[trigger] files@[k]
                        == before[k] by {}
                    assert forall|path: Seq<Seq<char>>|
                        (#[trigger] hits_in(next, path)).len() > 0 implies exists|k: int|
                        0 <= k < files@.len() && (#[trigger] files@[k]).path@ == path by {
                        if path == added {
                            assert(files@[i as int].path@ == path);
                        } else {
                            assert(hits_in(seen, path).len() > 0);
                            let k = choose|k: int|
                                0 <= k < before.len() && (#[trigger] before[k]).path@ == path;
                            assert(files@[k].path@ == path);
                        }
                    }
                }
            },
            None => {
                let path = hit.path.clone();
                let mut first: Vec<SearchHit> = Vec::new();
                first.push(hit);
                files.push(FileHits { path, hits: first });
                proof {
                    let n = before.len() as int;
                    assert(hits_in(seen, added).len() == 0) by {
                        if hits_in(seen, added).len() > 0 {
                            let k = choose|k: int|
                                0 <= k < before.len() && (#[trigger] before[k]).path@ == added;
                            assert(before[k].path@ != added);
                        }
                    }
                    assert(hits_in(next, added) =~= seq![the_hit]);
                    assert(files@[n].hits@ =~= seq![the_hit]);
                    assert forall|k: int| 0 <= k < n implies #[trigger] files@[k] == before[k] by {}
                    assert forall|q: Seq<Seq<char>>|
                        (#[trigger] hits_in(next, q)).len() > 0 implies exists|k: int|
                        0 <= k < files@.len() && (#[trigger] files@[k]).path@ == q by {
                        if q == added {
                            assert(files@[n].path@ == q);
                        } else {
                            assert(hits_in(seen, q).len() > 0);
                            let k = choose|k: int|
                                0 <= k < before.len() && (#[trigger] before[k]).path@ == q;
                            assert(files@[k].path@ == q);
                        }
                    }
                }
            },
        }
    }
    assert(hits@.take(hits@.len() as int) =~= hits@);
    files
}

/// A path that one result keeps on screen: the file itself, and the folders
/// above it up to the root of the view.
pub open spec fn kept_by(
    path: Seq<Seq<char>>,
    file: Seq<Seq<char>>,
    root: Seq<Seq<char>>,
) -> bool {
    path == file || (lies_in(file, path) && path.len() < file.len() && lies_in(path, root) && path
        != root)
}

/// A path that stays on screen in matches-only mode.
pub open spec fn kept_visible(
    path: Seq<Seq<char>>,
    files: Seq<FileHits>,
    pinned: Option<TreePath>,
    root: Seq<Seq<char>>,
) -> bool {
    ||| exists|i: int| 0 <= i < files.len() && kept_by(path, (#[trigger] files[i]).path@, root)
    ||| pinned matches Some(file) && kept_by(path, file@, root)
}

fn keep_visible(visible: &mut Vec<TreePath>, file: &TreePath, root: &TreePath)
    ensures
        forall|p: Seq<Seq<char>>| #[trigger]
            lists(final(visible)@, p) == (lists(old(visible)@, p) || kept_by(p, file@, root@)),
{
    insert_path(visible, file);
    let mut n: usize = file.parts.len();
    while n > 0
        invariant
            n <= file@.len(),
            forall|p: Seq<Seq<char>>| #[trigger]
                lists(visible@, p) == (lists(old(visible)@, p) || p == file@ || (lies_in(file@, p)
                    && n <= p.len() < file@.len() && lies_in(p, root@) && p != root@)),
        decreases n,
    {
        let parent = file.prefix(n - 1);
        proof {
            assert(lies_in(file@, parent@));
        }
        if parent.same_as(root) || !parent.starts_with(root) {
            proof {
                assert forall|p: Seq<Seq<char>>|
                    lies_in(file@, p) && p.len() < n && lies_in(p, root@) implies p == root@ by {
                    assert(lies_in(parent@, p)) by {
                        assert(parent@.subrange(0, p.len() as int) =~= file@.subrange(
                            0,
                            p.len() as int,
                        ));
                    }
                    assert(lies_in(parent@, root@)) by {
                        assert(parent@.subrange(0, root@.len() as int) =~= p.subrange(
                            0,
                            root@.len() as int,
                        ));
                    }
                    assert(parent@ == root@);
                    assert(p =~= root@);
                }
                assert forall|p: Seq<Seq<char>>| #[trigger] lists(visible@, p) == (lists(
                    old(visible)@,
                    p,
                ) || kept_by(p, file@, root@)) by {}
            }
            return;
        }
        let ghost before = visible@;
        insert_path(visible, &parent);
        proof {
            assert forall|p: Seq<Seq<char>>| #[trigger] lists(visible@, p) == (lists(
                old(visible)@,
                p,
            ) || p == file@ || (lies_in(file@, p) && n - 1 <= p.len() < file@.len() && lies_in(
                p,
                root@,
            ) && p != root@)) by {
                if lies_in(file@, p) && p.len() == n - 1 {
                    assert(p =~= parent@);
                }
                assert(lists(before, p) || !lists(before, p));
            }
        }
        n -= 1;
    }
}

fn insert_path(paths: &mut Vec<TreePath>, path: &TreePath)
    ensures
        forall|p: Seq<Seq<char>>| #[trigger]
            lists(final(paths)@, p) == (lists(old(paths)@, p) || p == path@),
{
    if is_listed(paths, path) {
        return;
    }
    let ghost before = paths@;
    paths.push(path.clone());
    proof {
        assert forall|p: Seq<Seq<char>>| #[trigger] lists(paths@, p) == (lists(before, p) || p
            == path@) by {
            if lists(before, p) {
                let k = choose|k: int| 0 <= k < before.len() && (#[trigger] before[k])@ == p;
                assert(paths@[k]@ == p);
            }
            if p == path@ {
                assert(paths@[before.len() as int]@ == p);
            }
            if lists(paths@, p) && p != path@ {
                let k = choose|k: int| 0 <= k < paths@.len() && (#[trigger] paths@[k])@ == p;
                assert(before[k]@ == p);
            }
        }
    }
}

/// The paths that stay visible in matches-only mode.
pub fn visible_paths(files: &Vec<FileHits>, pinned: &Option<TreePath>, root: &TreePath) -> (visible:
    Vec<TreePath>)
    ensures
        forall|p: Seq<Seq<char>>| #[trigger]
            lists(visible@, p) == kept_visible(p, files@, *pinned, root@),
{
    let mut visible: Vec<TreePath> = Vec::new();
    let mut i: usize = 0;
    while i < files.len()
        invariant
            i <= files@.len(),
            forall|p: Seq<Seq<char>>| #[trigger]
                lists(visible@, p) == exists|k: int|
                    0 <= k < i && kept_by(p, (#[trigger] files@[k]).path@, root@),
        decreases files@.len() - i,
    {
        let ghost before = visible@;
        keep_visible(&mut visible, &files[i].path, root);
        proof {
            assert forall|p: Seq<Seq<char>>| #[trigger] lists(visible@, p) == exists|k: int|
                0 <= k < i + 1 && kept_by(p, (#[trigger] files@[k]).path@, root@) by {
                if lists(before, p) {
                    let k = choose|k: int|
                        0 <= k < i && kept_by(p, (#[trigger] files@[k]).path@, root@);
                    assert(kept_by(p, files@[k].path@, root@));
                }
                if kept_by(p, files@[i as int].path@, root@) {
                    assert(0 <= i < i + 1);
                }
            }
        }
        i += 1;
    }
    if let Some(file) = pinned {
        keep_visible(&mut visible, file, root);
    }
    visible
}

/// What a finished search does to the pane.
#[derive(Debug, PartialEq, Eq)]
pub struct SearchLanded {
    pub view: SearchView,
    /// Nothing matched and nothing is pinned, and the tree is not ghosted:
    /// a page says so in place of the list.
    pub nothing: bool,
    /// The file whose matches the bottom panel shows.
    pub panel: Option<TreePath>,
}

/// A search that finished.
pub open spec fn lands(
    before: FileTree,
    after: FileTree,
    hits: Seq<SearchHit>,
    pinned: Option<TreePath>,
    out: SearchLanded,
) -> bool {
    &&& groups(out.view.files@, hits)
    &&& match (out.view.pinned, pinned) {
        (Some(a), Some(b)) => a@ == b@,
        (None, None) => true,
        _ => false,
    }
    &&& forall|p: Seq<Seq<char>>| #[trigger]
        lists(out.view.visible@, p) == kept_visible(
            p,
            out.view.files@,
            pinned,
            before.shown_root(),
        )
    &&& out.nothing == (hits.len() == 0 && pinned is None && !before.ghosting)
    &&& match out.panel {
        Some(target) => if before.pane_file is Some && before.pane
            != PaneKind::Closed {
            target@ == before.pane_file->0@
        } else {
            pinned is Some && target@ == pinned->0@
        },
        None => pinned is None && (before.pane_file is None || before.pane
            == PaneKind::Closed),
    }
    &&& after == (FileTree { searching: true, ..before })
}

impl FileTree {
    /// A search finished: group its hits, and pick the file whose matches the
    /// panel shows, which is the one the user chose if a panel is up, else the
    /// editor's own. `pinned` is the editor's active file.
    pub fn land_search(&mut self, hits: Vec<SearchHit>, pinned: Option<TreePath>) -> (out:
        SearchLanded)
        ensures
            old(self).wf() && trimmed(old(self).query@).len() > 0 ==> final(self).wf(),
            lands(*old(self), *final(self), hits@, pinned, out),
    {
        let root = self.view_root();
        let empty = hits.len() == 0;
        let files = group_hits(hits);
        let visible = visible_paths(&files, &pinned, &root);
        let mut panel: Option<TreePath> = None;
        if self.pane != PaneKind::Closed {
            if let Some(file) = &self.pane_file {
                panel = Some(file.clone());
            }
        }
        if panel.is_none() {
            if let Some(file) = &pinned {
                panel = Some(file.clone());
            }
        }
        let nothing = empty && pinned.is_none() && !self.ghosting;
        self.searching = true;
        SearchLanded { view: SearchView { files, visible, pinned }, nothing, panel }
    }

    /// Show one file's matches in the bottom panel, which then stays on that
    /// file while the search runs again. Without results nothing opens.
    pub fn matches_intervention(&mut self, view: &Option<SearchView>, path: &TreePath) -> (out:
        Option<MatchPanel>)
        ensures
            out is Some <==> view is Some,
            out is None ==> *final(self) == *old(self),
            out matches Some(panel) ==> {
                &&& panel_shows(panel, path@, view->0.file_hits(path@))
                &&& final(self).pane_file is Some
                &&& final(self).pane_file->0@ == path@
                &&& *final(self) == (FileTree {
                    pane: PaneKind::Adhoc,
                    pane_file: final(self).pane_file,
                    ..*old(self)
                })
            },
    {
        match view {
            Some(view) => {
                let panel = view.match_panel(path);
                self.open_intervention();
                self.pane_file = Some(path.clone());
                Some(panel)
            },
            None => None,
        }
    }
}

/// The bottom panel with one file's matches.
#[derive(Debug, PartialEq, Eq)]
pub struct MatchPanel {
    pub title: String,
    /// "line n" for each match, in order.
    pub subtitles: Vec<String>,
}

/// Whether a file matched.
pub open spec fn finds(view: SearchView, path: Seq<Seq<char>>, out: Option<usize>) -> bool {
    &&& match out {
        Some(i) => i < view.files@.len() && view.files@[i as int].path@ == path && forall|
            j: int,
        | 0 <= j < i ==> (#[trigger] view.files@[j]).path@ != path,
        None => forall|i: int|
            0 <= i < view.files@.len() ==> (#[trigger] view.files@[i]).path@ != path,
    }
}

/// The panel counts a file's hits in its title and names the line of each.
pub open spec fn panel_shows(
    panel: MatchPanel,
    path: Seq<Seq<char>>,
    hits: Seq<SearchHit>,
) -> bool {
    &&& panel.title@ == shown_name(path) + " — "@ + decimal_of(hits.len()) + " match"@ + if hits.len()
        == 1 {
        ""@
    } else {
        "es"@
    }
    &&& panel.subtitles@.len() == hits.len()
    &&& forall|i: int|
        0 <= i < hits.len() ==> (#[trigger] panel.subtitles@[i])@ == "line "@ + decimal_of(
            hits[i].line as nat,
        )
}

impl SearchView {
    /// One file's hits, where it has any.
    pub open spec fn file_hits(&self, path: Seq<Seq<char>>) -> Seq<SearchHit> {
        file_hits_in(self.files@, path)
    }

    /// Whether a file matched.
    pub fn matched(&self, path: &TreePath) -> (out: Option<usize>)
        ensures
            finds(*self, path@, out),
    {
        find_group(&self.files, path)
    }

    /// The panel for one file's matches; a file without any has a title that
    /// says so and no rows.
    pub fn match_panel(&self, path: &TreePath) -> (out: MatchPanel)
        ensures
            panel_shows(out, path@, self.file_hits(path@)),
    {
        let mut subtitles: Vec<String> = Vec::new();
        let mut n: usize = 0;
        match find_group(&self.files, path) {
            Some(at) => {
                proof {
                    lemma_file_hits_at(self.files@, at as int, path@);
                }
                let hits = &self.files[at].hits;
                n = hits.len();
                let mut i: usize = 0;
                while i < hits.len()
                    invariant
                        i <= hits@.len(),
                        subtitles@.len() == i,
                        forall|j: int|
                            0 <= j < i ==> (#[trigger] subtitles@[j])@ == "line "@ + decimal_of(
                                hits@[j].line as nat,
                            ),
                    decreases hits@.len() - i,
                {
                    let mut text = "line ".to_owned();
                    let digits = decimal(hits[i].line as u64);
                    text.append(digits.as_str());
                    subtitles.push(text);
                    i += 1;
                }
            },
            None => {
                proof {
                    lemma_file_hits_none(self.files@, path@);
                }
            },
        }
        let mut title = path.display_name();
        title.append(" — ");
        let digits = decimal(n as u64);
        title.append(digits.as_str());
        title.append(" match");
        title.append(
            if n == 1 {
                ""
            } else {
                "es"
            },
        );
        MatchPanel { title, subtitles }
    }
}

/// The hits of the first group with this path.
pub open spec fn file_hits_in(files: Seq<FileHits>, path: Seq<Seq<char>>) -> Seq<SearchHit>
    decreases files.len(),
{
    if files.len() == 0 {
        Seq::empty()
    } else if files[0].path@ == path {
        files[0].hits@
    } else {
        file_hits_in(files.subrange(1, files.len() as int), path)
    }
}

proof fn lemma_file_hits_none(files: Seq<FileHits>, path: Seq<Seq<char>>)
    requires
        forall|i: int| 0 <= i < files.len() ==> (#[trigger] files[i]).path@ != path,
    ensures
        file_hits_in(files, path) == Seq::<SearchHit>::empty(),
    decreases files.len(),
{
    if files.len() > 0 {
        let rest = files.subrange(1, files.len() as int);
        assert forall|i: int| 0 <= i < rest.len() implies (#[trigger] rest[i]).path@ != path by {
            assert(rest[i] == files[i + 1]);
        }
        lemma_file_hits_none(rest, path);
    }
}

/// The first group with a path holds its hits.
pub proof fn lemma_file_hits_at(files: Seq<FileHits>, at: int, path: Seq<Seq<char>>)
    requires
        0 <= at < files.len(),
        files[at].path@ == path,
        forall|j: int| 0 <= j < at ==> (#[trigger] files[j]).path@ != path,
    ensures
        file_hits_in(files, path) == files[at].hits@,
    decreases at,
{
    if at > 0 {
        let rest = files.subrange(1, files.len() as int);
        assert forall|j: int| 0 <= j < at - 1 implies (#[trigger] rest[j]).path@ != path by {
            assert(rest[j] == files[j + 1]);
        }
        assert(rest[at - 1] == files[at]);
        lemma_file_hits_at(rest, at - 1, path);
    }
}

proof fn lemma_hits_in(hits: Seq<SearchHit>, path: Seq<Seq<char>>)
    ensures
        forall|i: int|
            0 <= i < hits_in(hits, path).len() ==> (#[trigger] hits_in(hits, path)[i]).path@ == path
                && hits.contains(hits_in(hits, path)[i]),
        forall|k: int|
            0 <= k < hits.len() && (#[trigger] hits[k]).path@ == path ==> hits_in(
                hits,
                path,
            ).contains(hits[k]),
    decreases hits.len(),
{
    if hits.len() > 0 {
        let rest = hits.drop_last();
        let before = hits_in(rest, path);
        let all = hits_in(hits, path);
        lemma_hits_in(rest, path);
        assert forall|i: int| 0 <= i < all.len() implies (#[trigger] all[i]).path@ == path
            && hits.contains(all[i]) by {
            if i < before.len() {
                assert(all[i] == before[i]);
                let k = choose|k: int| 0 <= k < rest.len() && rest[k] == before[i];
                assert(hits[k] == all[i]);
            } else {
                assert(hits[hits.len() - 1] == all[i]);
            }
        }
        assert forall|k: int| 0 <= k < hits.len() && (#[trigger] hits[k]).path@
            == path implies all.contains(hits[k]) by {
            if k < rest.len() {
                assert(rest[k] == hits[k]);
                assert(before.contains(rest[k]));
                let i = choose|i: int| 0 <= i < before.len() && before[i] == rest[k];
                assert(all[i] == hits[k]);
            } else {
                assert(all[all.len() - 1] == hits[k]);
            }
        }
    }
}

/// No hit is lost, and none is shown under another file: every hit stands in the
/// group of its own file, and a group holds hits of its file alone.
pub proof fn no_hit_is_lost(files: Seq<FileHits>, hits: Seq<SearchHit>)
    requires
        groups(files, hits),
    ensures
        forall|k: int|
            0 <= k < hits.len() ==> exists|i: int|
                0 <= i < files.len() && (#[trigger] files[i]).path@ == (#[trigger] hits[k]).path@
                    && files[i].hits@.contains(hits[k]),
        forall|i: int, j: int|
            0 <= i < files.len() && 0 <= j < files[i].hits@.len() ==> (
            #[trigger] files[i].hits@[j]).path@ == files[i].path@ && hits.contains(
                files[i].hits@[j],
            ),
        hits.len() > 0 ==> files.len() > 0,
{
    assert forall|k: int| 0 <= k < hits.len() implies exists|i: int|
        0 <= i < files.len() && (#[trigger] files[i]).path@ == (#[trigger] hits[k]).path@
            && files[i].hits@.contains(hits[k]) by {
        let path = hits[k].path@;
        lemma_hits_in(hits, path);
        assert(hits_in(hits, path).contains(hits[k]));
        let i = choose|i: int| 0 <= i < files.len() && (#[trigger] files[i]).path@ == path;
        assert(files[i].hits@ == hits_in(hits, path));
    }
    assert forall|i: int, j: int|
        0 <= i < files.len() && 0 <= j < files[i].hits@.len() implies (
    #[trigger] files[i].hits@[j]).path@ == files[i].path@ && hits.contains(files[i].hits@[j]) by {
        lemma_hits_in(hits, files[i].path@);
        assert(files[i].hits@ == hits_in(hits, files[i].path@));
    }
    if hits.len() > 0 {
        assert(hits[0].path@ == hits[0].path@);
    }
}

/// A finished search keeps every file that matched on screen, and the folders
/// that lead to it, and the editor's own file; nothing else stays, and the pane
/// is moved in nothing but that it searches.
pub proof fn a_search_keeps_its_matches_in_sight(
    before: FileTree,
    after: FileTree,
    hits: Seq<SearchHit>,
    pinned: Option<TreePath>,
    out: SearchLanded,
    k: int,
    path: Seq<Seq<char>>,
)
    requires
        lands(before, after, hits, pinned, out),
        0 <= k < hits.len(),
    ensures
        lists(out.view.visible@, hits[k].path@),
        lies_in(hits[k].path@, path) && path.len() < hits[k].path@.len() && lies_in(
            path,
            before.shown_root(),
        ) && path != before.shown_root() ==> lists(out.view.visible@, path),
        pinned matches Some(file) ==> lists(out.view.visible@, file@),
        lists(out.view.visible@, path) ==> (exists|j: int|
            0 <= j < hits.len() && lies_in((#[trigger] hits[j]).path@, path)) || (
        pinned matches Some(file) && lies_in(file@, path)),
        !out.nothing,
        after.searching && after == (FileTree { searching: true, ..before }),
{
    let files = out.view.files@;
    let root = before.shown_root();
    no_hit_is_lost(files, hits);
    let i = choose|i: int|
        0 <= i < files.len() && (#[trigger] files[i]).path@ == hits[k].path@
            && files[i].hits@.contains(hits[k]);
    assert(kept_by(hits[k].path@, files[i].path@, root));
    if lies_in(hits[k].path@, path) && path.len() < hits[k].path@.len() && lies_in(path, root)
        && path != root {
        assert(kept_by(path, files[i].path@, root));
    }
    if let Some(file) = pinned {
        assert(kept_by(file@, file@, root));
    }
    if lists(out.view.visible@, path) {
        assert(path.subrange(0, path.len() as int) =~= path);
        if exists|j: int| 0 <= j < files.len() && kept_by(path, (#[trigger] files[j]).path@, root) {
            let j = choose|j: int|
                0 <= j < files.len() && kept_by(path, (#[trigger] files[j]).path@, root);
            assert(files[j].hits@.len() > 0);
            let hit = files[j].hits@[0];
            assert(hits.contains(hit));
            let at = choose|at: int| 0 <= at < hits.len() && hits[at] == hit;
            assert(lies_in(hits[at].path@, path));
        }
    }
}

/// The panel of a file counts its hits, names the file, and gives each hit the
/// line it stands in, in order.
pub proof fn a_panel_lists_its_hits(
    panel: MatchPanel,
    path: Seq<Seq<char>>,
    hits: Seq<SearchHit>,
    i: int,
)
    requires
        panel_shows(panel, path, hits),
    ensures
        panel.subtitles@.len() == hits.len(),
        0 <= i < hits.len() ==> panel.subtitles@[i]@ == "line "@ + decimal_of(hits[i].line as nat),
        crate::text::begins_with(
            panel.title@,
            shown_name(path) + " — "@ + decimal_of(hits.len()) + " match"@,
        ),
        hits.len() == 1 ==> panel.title@ == shown_name(path) + " — "@ + decimal_of(1) + " match"@,
{
    let lead = shown_name(path) + " — "@ + decimal_of(hits.len()) + " match"@;
    assert(panel.title@.subrange(0, lead.len() as int) =~= lead);
    if hits.len() == 1 {
        assert(""@ =~= Seq::<char>::empty()) by {
            reveal_strlit("");
        }
        assert(panel.title@ =~= lead);
    }
}

/// A file matched where it is among the matches, and not where it is not.
pub proof fn a_file_matched_where_it_is_listed(
    view: SearchView,
    path: Seq<Seq<char>>,
    out: Option<usize>,
)
    requires
        finds(view, path, out),
    ensures
        out is Some <==> exists|i: int|
            0 <= i < view.files@.len() && (#[trigger] view.files@[i]).path@ == path,
        out matches Some(i) ==> i < view.files@.len() && view.files@[i as int].path@ == path,
{
    if let Some(i) = out {
        assert(view.files@[i as int].path@ == path);
    }
}

} // verus!
