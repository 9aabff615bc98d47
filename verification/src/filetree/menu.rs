//! The right-click menu on a row.

use vstd::prelude::*;
use crate::filetree::listing::FileNode;
use crate::filetree::rows::state_now;
use crate::filetree::status::FileState;
use crate::filetree::tree::FileTree;
use crate::path::{shown_name, TreePath};
use crate::text::{
    chars_of, holds_text, is_blank, lemma_blank, lemma_holds_middle, same, trim, trimmed,
};

verus! {

/// What a menu item does.
#[derive(Debug, Clone, Copy, PartialEq, Eq, Structural)]
pub enum RowAction {
    Stage,
    Unstage,
    NewFile,
    NewFolder,
    Rename,
    Delete,
}

/// A row's menu, in sections.
#[derive(Debug, PartialEq, Eq)]
pub struct ContextMenu {
    pub sections: Vec<Vec<RowAction>>,
    /// Every item writes. In a watched environment they are all present and
    /// all disabled: the menu still says what the pane can do.
    pub enabled: bool,
    /// Where a new file or folder would go.
    pub target_dir: TreePath,
    /// The row's own name, which renaming starts from.
    pub name: String,
    /// What the user is asked before deleting.
    pub delete_body: String,
}

/// A menu's items.
pub open spec fn sections_view(sections: Seq<Vec<RowAction>>) -> Seq<Seq<RowAction>> {
    Seq::new(sections.len(), |i: int| sections[i]@)
}

/// The sections of a row's menu: staging where it applies, creating always,
/// renaming and deleting what exists.
pub open spec fn menu_sections(node: FileNode, state: FileState) -> Seq<Seq<RowAction>> {
    let git = if !node.is_dir && !node.suggested && state.is_stageable() {
        seq![seq![RowAction::Stage]]
    } else if !node.is_dir && !node.suggested && state == FileState::Staged {
        seq![seq![RowAction::Unstage]]
    } else {
        Seq::empty()
    };
    let create = seq![seq![RowAction::NewFile, RowAction::NewFolder]];
    let modify = if node.suggested {
        Seq::empty()
    } else {
        seq![seq![RowAction::Rename, RowAction::Delete]]
    };
    git + create + modify
}

/// Where a new file or folder would go: into the folder, or beside the file.
pub open spec fn creates_in(tree: FileTree, node: FileNode) -> Seq<Seq<char>> {
    if node.is_dir {
        node.path@
    } else if node.path@.len() > 1 || (node.path@.len() == 1 && node.path@[0].len() > 0) {
        node.path@.drop_last()
    } else {
        tree.shown_root()
    }
}

/// What a menu item is called.
pub open spec fn is_label(action: RowAction, out: Seq<char>) -> bool {
    &&& out == match action {
        RowAction::Stage => "Stage"@,
        RowAction::Unstage => "Unstage"@,
        RowAction::NewFile => "New File…"@,
        RowAction::NewFolder => "New Folder…"@,
        RowAction::Rename => "Rename…"@,
        RowAction::Delete => "Delete…"@,
    }
}

/// A menu item's label.
pub fn action_label(action: RowAction) -> (out: &'static str)
    ensures
        is_label(action, out@),
{
    match action {
        RowAction::Stage => "Stage",
        RowAction::Unstage => "Unstage",
        RowAction::NewFile => "New File…",
        RowAction::NewFolder => "New Folder…",
        RowAction::Rename => "Rename…",
        RowAction::Delete => "Delete…",
    }
}

/// The menu on a row.
pub open spec fn menu_for(tree: FileTree, node: FileNode, menu: ContextMenu) -> bool {
    &&& sections_view(menu.sections@) == menu_sections(
        node,
        state_now(tree, node.path@, node.is_dir),
    )
    &&& menu.enabled == (tree.watching is None)
    &&& menu.target_dir@ == creates_in(tree, node)
    &&& menu.name@ == shown_name(node.path@)
    &&& menu.delete_body@ == "“"@ + shown_name(node.path@) + "” will be permanently deleted."@
}

/// Whether a file operation may touch a path.
pub open spec fn may_touch(tree: FileTree, write_allowed: bool, r: bool) -> bool {
    &&& r == (tree.watching is None && write_allowed)
}

impl FileTree {
    /// The menu on a row.
    pub fn show_context_menu(&self, node: &FileNode) -> (menu: ContextMenu)
        ensures
            menu_for(*self, *node, menu),
    {
        let mut sections: Vec<Vec<RowAction>> = Vec::new();
        let state = self.state_of(&node.path, node.is_dir);
        let mut git: Vec<RowAction> = Vec::new();
        if !node.is_dir && !node.suggested {
            if state.stageable() {
                git.push(RowAction::Stage);
                assert(git@ =~= seq![RowAction::Stage]);
                sections.push(git);
            } else if state == FileState::Staged {
                git.push(RowAction::Unstage);
                assert(git@ =~= seq![RowAction::Unstage]);
                sections.push(git);
            }
        }
        let mut create: Vec<RowAction> = Vec::new();
        create.push(RowAction::NewFile);
        create.push(RowAction::NewFolder);
        assert(create@ =~= seq![RowAction::NewFile, RowAction::NewFolder]);
        sections.push(create);
        if !node.suggested {
            let mut modify: Vec<RowAction> = Vec::new();
            modify.push(RowAction::Rename);
            modify.push(RowAction::Delete);
            assert(modify@ =~= seq![RowAction::Rename, RowAction::Delete]);
            sections.push(modify);
        }
        assert(sections_view(sections@) =~= menu_sections(
            *node,
            state_now(*self, node.path@, node.is_dir),
        ));
        let target_dir = if node.is_dir {
            node.path.clone()
        } else {
            match node.path.parent() {
                Some(dir) => dir,
                None => self.view_root(),
            }
        };
        let name = node.path.display_name();
        let mut delete_body = "“".to_owned();
        delete_body.append(name.as_str());
        delete_body.append("” will be permanently deleted.");
        ContextMenu { sections, enabled: !self.read_only(), target_dir, name, delete_body }
    }

    /// Whether a file operation may touch a path: never in someone else's
    /// checkout, elsewhere as the write policy says.
    pub fn file_op_allowed(&self, write_allowed: bool) -> (r: bool)
        ensures
            may_touch(*self, write_allowed, r),
    {
        !self.read_only() && write_allowed
    }
}

/// A name the user may give a file: not blank, one name and not a step in the
/// tree.
pub open spec fn name_accepted(entered: Seq<char>) -> bool {
    let name = trimmed(entered);
    name.len() > 0 && !name.contains('/') && name != "."@ && name != ".."@
}

/// The name the user entered, trimmed, where it may be given.
pub fn prompt_name(entered: &str) -> (out: Option<String>)
    ensures
        match out {
            Some(name) => name_accepted(entered@) && name@ == trimmed(entered@),
            None => !name_accepted(entered@),
        },
{
    let name = trim(entered);
    if name.is_empty() || same(name, ".") || same(name, "..") {
        return None;
    }
    let chars = chars_of(name);
    let mut i: usize = 0;
    while i < chars.len()
        invariant
            chars@ == name@,
            name@ == trimmed(entered@),
            i <= chars@.len(),
            forall|j: int| 0 <= j < i ==> name@[j] != '/',
        decreases chars@.len() - i,
    {
        if chars[i] == '/' {
            assert(name@[i as int] == '/');
            return None;
        }
        i += 1;
    }
    Some(name.to_owned())
}

/// An item stands in a menu.
pub open spec fn offers_action(menu: ContextMenu, action: RowAction) -> bool {
    exists|i: int, k: int|
        0 <= i < menu.sections@.len() && 0 <= k < menu.sections@[i]@.len() && #[trigger] menu.sections@[i]@[k]
            == action
}

proof fn lemma_offers(menu: ContextMenu, sections: Seq<Seq<RowAction>>, action: RowAction)
    requires
        sections_view(menu.sections@) == sections,
    ensures
        offers_action(menu, action) <==> exists|i: int, k: int|
            0 <= i < sections.len() && 0 <= k < sections[i].len() && #[trigger] sections[i][k]
                == action,
{
    assert(sections.len() == menu.sections@.len());
    assert forall|i: int| 0 <= i < sections.len() implies #[trigger] sections[i]
        == menu.sections@[i]@ by {
        assert(sections_view(menu.sections@)[i] == menu.sections@[i]@);
    }
    if offers_action(menu, action) {
        let (i, k) = choose|i: int, k: int|
            0 <= i < menu.sections@.len() && 0 <= k < menu.sections@[i]@.len()
                && #[trigger] menu.sections@[i]@[k] == action;
        assert(sections[i][k] == action);
    }
    if exists|i: int, k: int|
        0 <= i < sections.len() && 0 <= k < sections[i].len() && #[trigger] sections[i][k] == action {
        let (i, k) = choose|i: int, k: int|
            0 <= i < sections.len() && 0 <= k < sections[i].len() && #[trigger] sections[i][k]
                == action;
        assert(menu.sections@[i]@[k] == action);
    }
}

/// A row's menu offers what can be done to it: Stage to a file with an unstaged
/// change or an untracked one, Unstage to a staged one, renaming and deleting to
/// whatever exists, creating always. Every item is disabled in someone else's
/// checkout.
pub proof fn a_menu_offers_what_can_be_done(tree: FileTree, node: FileNode, menu: ContextMenu)
    requires
        menu_for(tree, node, menu),
    ensures
        ({
            let state = state_now(tree, node.path@, node.is_dir);
            let file = !node.is_dir && !node.suggested;
            &&& offers_action(menu, RowAction::Stage) <==> file && (state == FileState::Modified
                || state == FileState::Untracked)
            &&& offers_action(menu, RowAction::Unstage) <==> file && state == FileState::Staged
            &&& offers_action(menu, RowAction::Rename) <==> !node.suggested
            &&& offers_action(menu, RowAction::Delete) <==> !node.suggested
            &&& offers_action(menu, RowAction::NewFile) && offers_action(menu, RowAction::NewFolder)
        }),
        menu.enabled <==> tree.watching is None,
        node.is_dir ==> menu.target_dir@ == node.path@,
        !node.is_dir && node.path@.len() > 1 ==> menu.target_dir@ == node.path@.drop_last(),
        holds_text(menu.delete_body@, shown_name(node.path@)),
{
    let state = state_now(tree, node.path@, node.is_dir);
    let sections = menu_sections(node, state);
    let file = !node.is_dir && !node.suggested;
    lemma_offers(menu, sections, RowAction::Stage);
    lemma_offers(menu, sections, RowAction::Unstage);
    lemma_offers(menu, sections, RowAction::Rename);
    lemma_offers(menu, sections, RowAction::Delete);
    lemma_offers(menu, sections, RowAction::NewFile);
    lemma_offers(menu, sections, RowAction::NewFolder);
    let git: int = if file && (state.is_stageable() || state == FileState::Staged) {
        1
    } else {
        0
    };
    assert(sections[git] =~= seq![RowAction::NewFile, RowAction::NewFolder]);
    assert(sections[git][0] == RowAction::NewFile);
    assert(sections[git][1] == RowAction::NewFolder);
    if git == 1 {
        assert(sections[0][0] == if state.is_stageable() {
            RowAction::Stage
        } else {
            RowAction::Unstage
        });
        assert(sections[0].len() == 1);
    }
    if !node.suggested {
        assert(sections[git + 1] =~= seq![RowAction::Rename, RowAction::Delete]);
        assert(sections[git + 1][0] == RowAction::Rename);
        assert(sections[git + 1][1] == RowAction::Delete);
        assert(sections.len() == git + 2);
    } else {
        assert(sections.len() == git + 1);
    }
    lemma_holds_middle("“"@, shown_name(node.path@), "” will be permanently deleted."@);
}

/// Every item has a label of its own.
pub proof fn menu_labels_tell_items_apart(a: RowAction, b: RowAction, label: Seq<char>)
    requires
        is_label(a, label),
        is_label(b, label),
    ensures
        a == b,
        label == "Stage"@ <==> a == RowAction::Stage,
        label == "Unstage"@ <==> a == RowAction::Unstage,
        label == "Delete…"@ <==> a == RowAction::Delete,
        label == "Rename…"@ <==> a == RowAction::Rename,
        label == "New File…"@ <==> a == RowAction::NewFile,
        label == "New Folder…"@ <==> a == RowAction::NewFolder,
{
    reveal_strlit("Stage");
    reveal_strlit("Unstage");
    reveal_strlit("New File…");
    reveal_strlit("New Folder…");
    reveal_strlit("Rename…");
    reveal_strlit("Delete…");
    assert("Stage"@.len() == 5);
    assert("Unstage"@.len() == 7 && "Unstage"@[0] == 'U');
    assert("New File…"@.len() == 9);
    assert("New Folder…"@.len() == 11);
    assert("Rename…"@.len() == 7 && "Rename…"@[0] == 'R');
    assert("Delete…"@.len() == 7 && "Delete…"@[0] == 'D');
}

/// No file operation touches someone else's checkout, or what the write policy
/// refuses; nothing else stands in its way.
pub proof fn nothing_is_written_for_someone_else(tree: FileTree, write_allowed: bool, r: bool)
    requires
        may_touch(tree, write_allowed, r),
    ensures
        tree.watching is Some ==> !r,
        !write_allowed ==> !r,
        tree.watching is None && write_allowed ==> r,
{
}

/// A name that is accepted names one file in the folder it is given in.
pub proof fn an_accepted_name_stays_in_its_folder(entered: Seq<char>)
    ensures
        name_accepted(entered) ==> !is_blank(entered),
        is_blank(entered) ==> !name_accepted(entered),
        name_accepted(entered) ==> !trimmed(entered).contains('/') && trimmed(entered) != ".."@
            && trimmed(entered) != "."@,
        !is_blank(entered) && !trimmed(entered).contains('/') && trimmed(entered) != ".."@ && trimmed(
            entered,
        ) != "."@ ==> name_accepted(entered),
{
    lemma_blank(entered);
}

} // verus!
