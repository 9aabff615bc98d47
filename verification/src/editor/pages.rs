//! One page per open file. Switching files never discards anything, closing a
//! dirty tab asks first, and a change on disk reloads a clean buffer in place
//! and flags a dirty one.

use vstd::prelude::*;
use vstd::utf8::encode_utf8;
use crate::editor::nav::NavHistory;
use crate::editor::policy::EditPolicy;
use crate::filetree::status::StatusEntry;
use crate::fleet::text_view;
use crate::path::{last_name, shown_name, written, TreePath};
use crate::text::{chars_of, concat2, concat3, pieces, same, split, string_of, texts};

verus! {

/// The largest file that is highlighted, in bytes.
pub const MAX_HIGHLIGHT_FILE_BYTES: usize = 8388608;

/// The longest line that is highlighted, in bytes.
pub const MAX_HIGHLIGHT_LINE_BYTES: usize = 4096;

/// How much of a selection agents are shown.
pub const MAX_SELECTION_CAPTURE_CHARS: usize = 8192;

/// The largest document that is rendered, in characters.
pub const MAX_WYSIWYG_CHARS: i32 = 262144;

/// The file and each of its lines are short enough to highlight.
pub open spec fn is_light(content: Seq<char>) -> bool {
    encode_utf8(content).len() <= MAX_HIGHLIGHT_FILE_BYTES && forall|i: int|
        0 <= i < pieces(content, '\n').len() ==> encode_utf8(
            #[trigger] pieces(content, '\n')[i],
        ).len() <= MAX_HIGHLIGHT_LINE_BYTES
}

/// Whether a file is safe to highlight, and for markdown to restyle, without
/// pathological layout or pattern costs: very long lines (minified files, data
/// blobs) render as plain text.
pub fn highlighting_ok(content: &str) -> (r: bool)
    ensures
        r == is_light(content@),
{
    if content.as_bytes().len() > MAX_HIGHLIGHT_FILE_BYTES {
        return false;
    }
    let lines = split(content, '\n');
    let mut i: usize = 0;
    while i < lines.len()
        invariant
            texts(lines@) == pieces(content@, '\n'),
            i <= lines@.len(),
            forall|j: int|
                0 <= j < i ==> encode_utf8(#[trigger] pieces(content@, '\n')[j]).len()
                    <= MAX_HIGHLIGHT_LINE_BYTES,
        decreases lines@.len() - i,
    {
        assert(texts(lines@)[i as int] == lines@[i as int]@);
        if lines[i].as_str().as_bytes().len() > MAX_HIGHLIGHT_LINE_BYTES {
            assert(!(encode_utf8(pieces(content@, '\n')[i as int]).len()
                <= MAX_HIGHLIGHT_LINE_BYTES));
            return false;
        }
        i += 1;
    }
    assert(texts(lines@).len() == lines@.len());
    true
}

/// Where a name's last dot stands.
pub open spec fn is_last_dot(name: Seq<char>, at: int) -> bool {
    0 <= at < name.len() && name[at] == '.' && forall|j: int| at < j < name.len() ==> name[j] != '.'
}

/// Whether a file name ends in this extension: after its last dot, which is
/// not its first character.
pub open spec fn has_extension(name: Seq<char>, extension: Seq<char>) -> bool {
    exists|at: int|
        #[trigger] is_last_dot(name, at) && at > 0 && name.subrange(at + 1, name.len() as int)
            == extension
}

/// Whether a path is a markdown file's.
pub open spec fn names_markdown(path: Seq<Seq<char>>) -> bool {
    last_name(path) matches Some(name) && (has_extension(name, "md"@) || has_extension(
        name,
        "markdown"@,
    ))
}

/// Whether a path is a markdown file's, by its extension.
pub fn is_markdown(path: &TreePath) -> (r: bool)
    ensures
        r == names_markdown(path@),
{
    let name = match path.file_name() {
        Some(name) => name,
        None => {
            return false;
        },
    };
    let chars = chars_of(name);
    let mut at: usize = chars.len();
    while at > 0 && chars[at - 1] != '.'
        invariant
            at <= chars@.len(),
            forall|j: int| at <= j < chars@.len() ==> chars@[j] != '.',
        decreases at,
    {
        at -= 1;
    }
    if at == 0 {
        assert forall|k: int| !is_last_dot(name@, k) by {}
        return false;
    }
    let dot: usize = at - 1;
    assert(is_last_dot(name@, dot as int));
    assert forall|k: int| is_last_dot(name@, k) implies k == dot by {}
    if dot == 0 {
        return false;
    }
    let extension = string_of(&chars, at, chars.len());
    assert(extension@ == name@.subrange(dot + 1, name@.len() as int));
    same(extension.as_str(), "md") || same(extension.as_str(), "markdown")
}

/// What stands in a tab's indicator slot.
#[derive(Debug, Clone, Copy, PartialEq, Eq, Structural)]
pub enum Indicator {
    Clear,
    /// Uncommitted changes.
    Uncommitted,
    /// Something the user must know of: the tooltip says what.
    Warning,
}

/// A page's faces.
#[derive(Debug, Clone, Copy, PartialEq, Eq, Structural)]
pub enum Face {
    Edit,
    Changes,
    Preview,
}

impl Face {
    /// The name of its place in the stack.
    pub fn name(self) -> (out: &'static str)
        ensures
            out@ == match self {
                Face::Edit => "edit"@,
                Face::Changes => "changes"@,
                Face::Preview => "preview"@,
            },
    {
        match self {
            Face::Edit => "edit",
            Face::Changes => "changes",
            Face::Preview => "preview",
        }
    }
}

/// Text offered at the cursor, not yet taken: where it starts, in characters,
/// and what it says.
#[derive(Debug, PartialEq, Eq)]
pub struct Suggestion {
    pub offset: i32,
    pub text: String,
}

impl Suggestion {
    /// The suggestion lies in a buffer that characters can be counted in.
    pub open spec fn fits(&self) -> bool {
        0 <= self.offset && self.offset + self.text@.len() <= i32::MAX
    }

    /// Where the suggestion starts and ends.
    pub fn span(&self) -> (out: (i32, i32))
        requires
            self.fits(),
        ensures
            out.0 == self.offset,
            out.1 == self.offset + self.text@.len(),
    {
        let n: i32 = self.text.as_str().unicode_len() as i32;
        (self.offset, self.offset + n)
    }
}

/// A buffer with a text put into it.
pub open spec fn inserted(buffer: Seq<char>, offset: int, text: Seq<char>) -> Seq<char> {
    buffer.subrange(0, offset) + text + buffer.subrange(offset, buffer.len() as int)
}

/// A buffer with a stretch taken out.
pub open spec fn deleted(buffer: Seq<char>, from: int, to: int) -> Seq<char> {
    buffer.subrange(0, from) + buffer.subrange(to, buffer.len() as int)
}

/// Dismissing a suggestion takes out exactly what offering it put in.
pub proof fn a_dismissed_suggestion_leaves_no_trace(
    buffer: Seq<char>,
    offset: int,
    text: Seq<char>,
)
    requires
        0 <= offset <= buffer.len(),
    ensures
        deleted(inserted(buffer, offset, text), offset, offset + text.len()) == buffer,
{
    assert(deleted(inserted(buffer, offset, text), offset, offset + text.len()) =~= buffer);
}

/// An open file.
#[derive(Debug, PartialEq, Eq)]
pub struct EditorPage {
    pub path: TreePath,
    /// The buffer has unsaved edits.
    pub modified: bool,
    /// The buffer's length, in characters.
    pub chars: i32,
    /// Save-time policies for this file.
    pub trim_trailing_ws: bool,
    pub final_newline: bool,
    /// Markdown as editable source; `false` is the preview.
    pub raw_source: bool,
    /// Too heavy to highlight: rendered as plain text.
    pub plain: bool,
    /// The changes since the last commit, instead of the editable buffer.
    pub changes_view: bool,
    /// A restyle is scheduled.
    pub restyle_queued: bool,
    pub suggestion: Option<Suggestion>,
    pub indicator: Indicator,
    pub tooltip: String,
    pub face: Face,
}

/// What reconciling a page with its mode comes to.
#[derive(Debug, Clone, Copy, PartialEq, Eq, Structural)]
pub struct ModeLook {
    pub minimap: bool,
    pub highlighted: bool,
    /// Render the preview anew.
    pub render: bool,
}

/// What a change on disk comes to.
#[derive(Debug, Clone, Copy, PartialEq, Eq, Structural)]
pub enum DiskChange {
    /// The file is not open.
    NotOpen,
    /// There are unsaved edits: the tab is flagged, nothing is read.
    Flagged,
    /// Read the file again.
    Read,
}

/// What a file read again comes to.
#[derive(Debug, Clone, Copy, PartialEq, Eq, Structural)]
pub enum Reload {
    /// Leave the buffer alone: it is dirty, or holds this text already.
    Keep,
    /// Put the text in, the cursor here, and redo what is asked for.
    Replace { cursor: i32, restyle: bool, changes: bool },
}

/// What a key comes to in a page.
#[derive(Debug, Clone, Copy, PartialEq, Eq, Structural)]
pub enum KeyStep {
    Save,
    /// Take the suggestion; the cursor goes behind it.
    Accept,
    /// Take the suggestion out, and stop the key there or not.
    Dismiss { stop: bool },
    Pass,
}

/// The keys a page knows.
#[derive(Debug, Clone, Copy, PartialEq, Eq, Structural)]
pub enum PageKey {
    /// The letter s.
    S,
    Tab,
    Escape,
    Other,
}

impl EditorPage {
    /// The rendered preview is what the page shows when it is not showing
    /// changes.
    pub open spec fn previews(&self) -> bool {
        names_markdown(self.path@) && !self.raw_source && !self.plain && self.chars
            <= MAX_WYSIWYG_CHARS
    }

    /// The face under the changes face.
    pub open spec fn under(&self) -> Face {
        if self.previews() {
            Face::Preview
        } else {
            Face::Edit
        }
    }

    /// The changes face is on exactly while the changes are asked for.
    pub open spec fn wf(&self) -> bool {
        self.face == Face::Changes <==> self.changes_view
    }

    /// The page with the changes asked for, or no longer.
    pub open spec fn with_changes(self, on: bool) -> EditorPage {
        EditorPage {
            changes_view: on,
            face: if on {
                Face::Changes
            } else {
                self.under()
            },
            ..self
        }
    }

    /// The page on the face its markdown mode asks for; a plain page, and one
    /// that shows its changes, keeps its face.
    pub open spec fn reconciled(self) -> EditorPage {
        EditorPage {
            face: if self.plain || self.changes_view {
                self.face
            } else {
                self.under()
            },
            ..self
        }
    }

    /// A page for a file just read: markdown opens as editable source, and the
    /// preview is opt-in. `policy` is what the file's properties come to, where
    /// they could be read.
    pub fn new(
        path: TreePath,
        content: &str,
        chars: i32,
        uncommitted: bool,
        policy: Option<EditPolicy>,
    ) -> (out: Self)
        ensures
            out == (EditorPage {
                path,
                modified: false,
                chars,
                trim_trailing_ws: policy matches Some(policy) && policy.trim_trailing_ws,
                final_newline: policy is None || policy->0.final_newline,
                raw_source: true,
                plain: !is_light(content@),
                changes_view: false,
                restyle_queued: false,
                suggestion: None,
                indicator: if uncommitted {
                    Indicator::Uncommitted
                } else {
                    Indicator::Clear
                },
                tooltip: out.tooltip,
                face: Face::Edit,
            }),
            out.tooltip@ == written(path@),
            out.wf(),
    {
        let (trim_trailing_ws, final_newline) = match policy {
            Some(policy) => (policy.trim_trailing_ws, policy.final_newline),
            None => (false, true),
        };
        let tooltip = path.show();
        EditorPage {
            path,
            modified: false,
            chars,
            trim_trailing_ws,
            final_newline,
            raw_source: true,
            plain: !highlighting_ok(content),
            changes_view: false,
            restyle_queued: false,
            suggestion: None,
            indicator: if uncommitted {
                Indicator::Uncommitted
            } else {
                Indicator::Clear
            },
            tooltip,
            face: Face::Edit,
        }
    }

    /// Whether the preview is on: markdown, not as source, and neither too
    /// heavy nor too long to render.
    pub fn wysiwyg_active(&self) -> (r: bool)
        ensures
            r == self.previews(),
    {
        is_markdown(&self.path) && !self.raw_source && !self.plain && self.chars
            <= MAX_WYSIWYG_CHARS
    }

    /// Reconcile highlighting and face with the page's markdown mode. A plain
    /// page keeps its face.
    pub fn refresh_markdown_mode(&mut self) -> (look: ModeLook)
        ensures
            look == (ModeLook {
                minimap: !old(self).plain,
                highlighted: !old(self).plain,
                render: old(self).previews(),
            }),
            *final(self) == old(self).reconciled(),
    {
        if self.plain {
            return ModeLook { minimap: false, highlighted: false, render: false };
        }
        let preview = self.wysiwyg_active();
        if !self.changes_view {
            self.face = if preview {
                Face::Preview
            } else {
                Face::Edit
            };
        }
        ModeLook { minimap: true, highlighted: true, render: preview }
    }

    /// The preview toggle: `active` shows the preview.
    pub fn toggle_preview(&mut self, active: bool) -> (look: ModeLook)
        ensures
            ({
                let page = EditorPage { raw_source: !active, ..*old(self) };
                &&& look.render == page.previews()
                &&& look.minimap == !page.plain
                &&& look.highlighted == !page.plain
                &&& *final(self) == page.reconciled()
            }),
    {
        self.raw_source = !active;
        self.refresh_markdown_mode()
    }

    /// Flip the page between its editable face and the changes face. `true`
    /// asks for the changes to be computed.
    pub fn set_changes_view(&mut self, on: bool) -> (refresh: bool)
        ensures
            refresh == on,
            *final(self) == old(self).with_changes(on),
    {
        self.changes_view = on;
        self.face = if on {
            Face::Changes
        } else if self.wysiwyg_active() {
            Face::Preview
        } else {
            Face::Edit
        };
        on
    }

    /// Mark the tab as holding uncommitted changes, or not. A tab that has an
    /// indicator already keeps it; `true` means the indicator changed.
    pub fn set_dirty_dot(&mut self, dirty: bool) -> (changed: bool)
        ensures
            dots(*old(self), *final(self), dirty, changed),
    {
        let shown = self.indicator != Indicator::Clear;
        if shown == dirty {
            return false;
        }
        self.indicator = if dirty {
            Indicator::Uncommitted
        } else {
            Indicator::Clear
        };
        true
    }

    /// The user typed. `true` schedules a restyle; a burst of typing schedules
    /// one.
    pub fn typed(&mut self) -> (schedule: bool)
        ensures
            schedule == (old(self).previews() && !old(self).restyle_queued),
            *final(self) == (EditorPage {
                restyle_queued: old(self).restyle_queued || schedule,
                ..*old(self)
            }),
    {
        if !self.wysiwyg_active() || self.restyle_queued {
            return false;
        }
        self.restyle_queued = true;
        true
    }

    /// A scheduled restyle is due. `true` means it is still wanted.
    pub fn restyle_due(&mut self) -> (restyle: bool)
        ensures
            restyle == old(self).previews(),
            *final(self) == (EditorPage { restyle_queued: false, ..*old(self) }),
    {
        self.restyle_queued = false;
        self.wysiwyg_active()
    }

    /// The file changed on disk: flag a dirty page, never clobber it.
    pub fn changed_on_disk(&mut self) -> (out: DiskChange)
        ensures
            changes_on_disk(*old(self), *final(self), out),
    {
        if !self.modified {
            return DiskChange::Read;
        }
        let shown = self.path.show();
        self.indicator = Indicator::Warning;
        self.tooltip = concat2(shown.as_str(), " changed on disk while you have unsaved edits");
        DiskChange::Flagged
    }

    /// The file was read again. `current` is what the buffer holds, `cursor`
    /// where the cursor is, and `chars` how long the new text is. A buffer that
    /// became dirty meanwhile is never clobbered, and one that holds this very
    /// text is left alone.
    pub fn reloaded(
        &mut self,
        content: &str,
        current: &str,
        cursor: i32,
        chars: i32,
    ) -> (out: Reload)
        ensures
            reloads(*old(self), *final(self), content@, current@, cursor, chars, out),
    {
        if self.modified || same(content, current) {
            return Reload::Keep;
        }
        self.suggestion = None;
        let was_plain = self.plain;
        self.plain = !highlighting_ok(content);
        self.modified = false;
        self.chars = chars;
        let at: i32 = if cursor < chars {
            cursor
        } else {
            chars
        };
        let restyle = was_plain != self.plain || self.wysiwyg_active();
        Reload::Replace { cursor: at, restyle, changes: self.changes_view }
    }

    /// A save ended. A failure is flagged on the tab with its reason, and the
    /// buffer stays modified; `true` means the file was written.
    pub fn saved(&mut self, outcome: Result<(), String>) -> (written: bool)
        ensures
            save_ends(*old(self), *final(self), outcome, written),
    {
        match outcome {
            Ok(_) => {
                self.modified = false;
                true
            },
            Err(message) => {
                self.tooltip = message;
                self.indicator = Indicator::Warning;
                false
            },
        }
    }

    /// Offer a text at the cursor. The result is the offer it replaces, which
    /// is to be taken out of the buffer first.
    pub fn offer(&mut self, offset: i32, text: &str) -> (replaced: Option<Suggestion>)
        requires
            0 <= offset,
            offset + text@.len() <= i32::MAX,
        ensures
            makes_offer(*old(self), *final(self), offset, text@, replaced),
    {
        let replaced = self.suggestion.take();
        self.suggestion = Some(Suggestion { offset, text: text.to_owned() });
        replaced
    }

    /// The offer is decided: taken or dismissed, it is no longer an offer.
    pub fn take_suggestion(&mut self) -> (out: Option<Suggestion>)
        ensures
            decides(*old(self), *final(self), out),
    {
        self.suggestion.take()
    }

    /// What a key does. Saving comes before the offer; any other key dismisses
    /// a standing offer, and only Tab and Escape stop there.
    pub fn key(&self, key: PageKey, control: bool) -> (out: KeyStep)
        ensures
            keys(*self, key, control, out),
    {
        if key == PageKey::S && control {
            return KeyStep::Save;
        }
        if self.suggestion.is_none() {
            return KeyStep::Pass;
        }
        match key {
            PageKey::Tab => KeyStep::Accept,
            PageKey::Escape => KeyStep::Dismiss { stop: true },
            _ => KeyStep::Dismiss { stop: false },
        }
    }
}

/// A tab was marked as uncommitted, or not.
pub open spec fn dots(before: EditorPage, after: EditorPage, dirty: bool, changed: bool) -> bool {
    &&& changed == ((before.indicator != Indicator::Clear) != dirty)
    &&& after == (EditorPage {
        indicator: if !changed {
            before.indicator
        } else if dirty {
            Indicator::Uncommitted
        } else {
            Indicator::Clear
        },
        ..before
    })
}

/// A page's file changed on disk.
pub open spec fn changes_on_disk(before: EditorPage, after: EditorPage, out: DiskChange) -> bool {
    &&& out == if before.modified {
        DiskChange::Flagged
    } else {
        DiskChange::Read
    }
    &&& out == DiskChange::Read ==> after == before
    &&& out == DiskChange::Flagged ==> {
        &&& after == (EditorPage {
            indicator: Indicator::Warning,
            tooltip: after.tooltip,
            ..before
        })
        &&& after.tooltip@ == written(before.path@)
            + " changed on disk while you have unsaved edits"@
    }
}

/// A page's file was read again.
pub open spec fn reloads(
    before: EditorPage,
    after: EditorPage,
    content: Seq<char>,
    current: Seq<char>,
    cursor: i32,
    chars: i32,
    out: Reload,
) -> bool {
    &&& out == Reload::Keep <==> before.modified || content == current
    &&& out == Reload::Keep ==> after == before
    &&& out != Reload::Keep ==> {
        &&& after == (EditorPage {
            suggestion: None,
            plain: !is_light(content),
            modified: false,
            chars,
            ..before
        })
        &&& out == (Reload::Replace {
            cursor: if cursor < chars {
                cursor
            } else {
                chars
            },
            restyle: before.plain != after.plain || after.previews(),
            changes: before.changes_view,
        })
    }
}

/// A save ended.
pub open spec fn save_ends(
    before: EditorPage,
    after: EditorPage,
    outcome: Result<(), String>,
    written: bool,
) -> bool {
    &&& written == (outcome is Ok)
    &&& match outcome {
        Ok(_) => after == (EditorPage { modified: false, ..before }),
        Err(message) => after == (EditorPage {
            tooltip: message,
            indicator: Indicator::Warning,
            ..before
        }),
    }
}

/// What a key comes to.
pub open spec fn keys(page: EditorPage, key: PageKey, control: bool, out: KeyStep) -> bool {
    &&& out == if key == PageKey::S && control {
        KeyStep::Save
    } else if page.suggestion is None {
        KeyStep::Pass
    } else if key == PageKey::Tab {
        KeyStep::Accept
    } else {
        KeyStep::Dismiss { stop: key == PageKey::Escape }
    }
}

/// An offer is decided.
pub open spec fn decides(before: EditorPage, after: EditorPage, out: Option<Suggestion>) -> bool {
    &&& out == before.suggestion
    &&& after == (EditorPage { suggestion: None, ..before })
}

/// A text is offered.
pub open spec fn makes_offer(
    before: EditorPage,
    after: EditorPage,
    offset: i32,
    text: Seq<char>,
    replaced: Option<Suggestion>,
) -> bool {
    &&& replaced == before.suggestion
    &&& after.suggestion matches Some(offer) && offer.offset == offset && offer.text@
        == text && offer.fits()
    &&& after == (EditorPage { suggestion: after.suggestion, ..before })
}

/// Looking at the changes and back again leaves the page on the face its mode
/// asks for, and otherwise as it was: a page that stood there already comes
/// back unchanged. The changes face is on exactly while the changes are asked
/// for, whatever the toggles do.
pub proof fn the_changes_face_is_a_detour(page: EditorPage, on: bool, raw_source: bool)
    ensures
        page.with_changes(true).with_changes(false) == (EditorPage {
            changes_view: false,
            face: page.under(),
            ..page
        }),
        !page.changes_view && page.face == page.under() ==> page.with_changes(true).with_changes(
            false,
        ) == page,
        page.with_changes(on).wf(),
        page.wf() ==> (EditorPage { raw_source, ..page }).reconciled().wf(),
{
}

/// An open file, as agents are told of it.
#[derive(Debug, PartialEq, Eq)]
pub struct OpenFile {
    pub path: TreePath,
    pub dirty: bool,
    pub active: bool,
}

/// What the toggles over the tabs show.
#[derive(Debug, Clone, Copy, PartialEq, Eq, Structural)]
pub struct Toggles {
    /// The preview toggle is there: a markdown file is selected.
    pub preview_visible: bool,
    /// The preview toggle is on; `None` leaves it as it is, out of sight.
    pub preview_active: Option<bool>,
    /// The changes toggle can be used: any file is selected.
    pub changes_sensitive: bool,
    pub changes_active: bool,
}

/// What closing a tab comes to.
#[derive(Debug, PartialEq, Eq)]
pub enum CloseStep {
    /// The tab is not a file's.
    NotOurs,
    /// Close it.
    Close,
    /// There are unsaved edits: ask, with this body.
    Ask { body: String },
}

/// The answers to the question a dirty tab asks.
#[derive(Debug, Clone, Copy, PartialEq, Eq, Structural)]
pub enum CloseAnswer {
    KeepEditing,
    Save,
    Discard,
}

/// The open files, and the way through them.
#[derive(Debug, PartialEq, Eq)]
pub struct Editor {
    pub pages: Vec<EditorPage>,
    pub nav: NavHistory,
    /// The uncommitted files.
    pub git_dirty: Vec<TreePath>,
}

/// The page of a file.
pub open spec fn page_of(pages: Seq<EditorPage>, path: Seq<Seq<char>>) -> Option<int>
    decreases pages.len(),
{
    if pages.len() == 0 {
        None
    } else if pages[0].path@ == path {
        Some(0)
    } else {
        match page_of(pages.subrange(1, pages.len() as int), path) {
            Some(i) => Some(i + 1),
            None => None,
        }
    }
}

/// Whether a path is listed.
pub open spec fn has_path(paths: Seq<TreePath>, path: Seq<Seq<char>>) -> bool {
    exists|i: int| 0 <= i < paths.len() && (#[trigger] paths[i])@ == path
}

/// Whether git reports a path as uncommitted.
pub open spec fn uncommitted(
    status: Seq<StatusEntry>,
    workdir: Seq<Seq<char>>,
    path: Seq<Seq<char>>,
) -> bool {
    exists|i: int|
        0 <= i < status.len() && (#[trigger] status[i]).state.is_stageable() && workdir
            + status[i].path@ == path
}

impl Editor {
    /// No file is open twice, and the history is in order.
    pub open spec fn wf(&self) -> bool {
        &&& self.nav@.wf()
        &&& forall|i: int, j: int|
            0 <= i < j < self.pages@.len() ==> (#[trigger] self.pages@[i]).path@ != (
            #[trigger] self.pages@[j]).path@
    }

    /// No file open.
    pub fn new() -> (out: Self)
        ensures
            out.wf(),
            out.pages@.len() == 0,
            out.nav@.files.len() == 0,
            out.git_dirty@.len() == 0,
    {
        Editor { pages: Vec::new(), nav: NavHistory::new(), git_dirty: Vec::new() }
    }

    fn find(&self, path: &TreePath) -> (out: Option<usize>)
        ensures
            match out {
                Some(i) => i < self.pages@.len() && page_of(self.pages@, path@) == Some(i as int)
                    && self.pages@[i as int].path@ == path@,
                None => page_of(self.pages@, path@) is None && forall|i: int|
                    0 <= i < self.pages@.len() ==> (#[trigger] self.pages@[i]).path@ != path@,
            },
    {
        let ghost all = self.pages@;
        let mut i: usize = 0;
        assert(all.subrange(0, all.len() as int) =~= all);
        while i < self.pages.len()
            invariant
                all == self.pages@,
                i <= all.len(),
                forall|j: int| 0 <= j < i ==> (#[trigger] all[j]).path@ != path@,
                page_of(all, path@) == match page_of(
                    all.subrange(i as int, all.len() as int),
                    path@,
                ) {
                    Some(k) => Some(k + i),
                    None => None,
                },
            decreases all.len() - i,
        {
            let ghost rest = all.subrange(i as int, all.len() as int);
            if self.pages[i].path.same_as(path) {
                return Some(i);
            }
            assert(rest.subrange(1, rest.len() as int) =~= all.subrange(
                i + 1,
                all.len() as int,
            ));
            i += 1;
        }
        None
    }

    /// Open or focus a file: the page to select, or `None` to read the file
    /// and come back with [`Editor::opened`]. Never discards anything.
    pub fn open_at(&self, path: &TreePath) -> (out: Option<usize>)
        ensures
            match out {
                Some(i) => i < self.pages@.len() && page_of(self.pages@, path@) == Some(i as int),
                None => page_of(self.pages@, path@) is None,
            },
    {
        self.find(path)
    }

    /// A file has been read: its page, which may have been opened meanwhile.
    /// `true` means the page is new.
    pub fn opened(
        &mut self,
        path: TreePath,
        content: &str,
        chars: i32,
        policy: Option<EditPolicy>,
    ) -> (out: (usize, bool))
        requires
            old(self).wf(),
        ensures
            final(self).wf(),
            opens_page(*old(self), *final(self), path, content@, chars, policy, out),
    {
        if let Some(i) = self.find(&path) {
            return (i, false);
        }
        let dirty = is_among(&self.git_dirty, &path);
        let page = EditorPage::new(path, content, chars, dirty, policy);
        let at: usize = self.pages.len();
        self.pages.push(page);
        assert(self.pages@.drop_last() =~= old(self).pages@);
        (at, true)
    }

    /// A tab was selected: a visit, for back and forward. The result is what
    /// the toggles show.
    pub fn on_selected(&mut self, selected: Option<usize>) -> (out: Toggles)
        requires
            old(self).wf(),
            selected matches Some(i) ==> i < old(self).pages@.len(),
        ensures
            final(self).wf(),
            selects(*old(self), *final(self), selected, out),
    {
        match selected {
            None => Toggles {
                preview_visible: false,
                preview_active: None,
                changes_sensitive: false,
                changes_active: false,
            },
            Some(i) => {
                let page = &self.pages[i];
                let out = Toggles {
                    preview_visible: is_markdown(&page.path),
                    preview_active: Some(!page.raw_source),
                    changes_sensitive: true,
                    changes_active: page.changes_view,
                };
                let path = page.path.clone();
                self.nav.record_visit(path);
                out
            },
        }
    }

    /// Close the focused tab; the question a dirty tab asks applies.
    pub fn close_current(&self, selected: Option<usize>) -> (out: CloseStep)
        ensures
            closes(out, self.pages@, selected),
    {
        match selected {
            Some(i) => if i < self.pages.len() {
                self.close_page(i)
            } else {
                CloseStep::NotOurs
            },
            None => CloseStep::NotOurs,
        }
    }

    /// What closing a file's tab comes to.
    pub fn close_page(&self, i: usize) -> (out: CloseStep)
        ensures
            closes(out, self.pages@, Some(i)),
    {
        if i >= self.pages.len() {
            return CloseStep::NotOurs;
        }
        if !self.pages[i].modified {
            return CloseStep::Close;
        }
        let name = self.pages[i].path.display_name();
        CloseStep::Ask { body: concat3("“", name.as_str(), "” has unsaved changes.") }
    }

    /// Whether the answer to a dirty tab's question closes it. `saved` is
    /// whether the save went through: a refused or failed save that closed the
    /// tab would be data loss.
    pub fn close_answered(answer: CloseAnswer, saved: bool) -> (close: bool)
        ensures
            close == answer_closes(answer, saved),
    {
        match answer {
            CloseAnswer::KeepEditing => false,
            CloseAnswer::Save => saved,
            CloseAnswer::Discard => true,
        }
    }

    /// A tab is gone, and its page with it; every other page stays.
    pub fn closed(&mut self, i: usize)
        requires
            old(self).wf(),
            i < old(self).pages@.len(),
        ensures
            final(self).wf(),
            final(self).pages@ == old(self).pages@.remove(i as int),
            final(self).nav == old(self).nav,
            final(self).git_dirty == old(self).git_dirty,
    {
        let ghost before = self.pages@;
        self.pages.remove(i);
        assert forall|a: int, b: int| 0 <= a < b < self.pages@.len() implies (
        #[trigger] self.pages@[a]).path@ != (#[trigger] self.pages@[b]).path@ by {
            let x = if a < i {
                a
            } else {
                a + 1
            };
            let y = if b < i {
                b
            } else {
                b + 1
            };
            assert(before[x].path@ != before[y].path@);
        }
    }

    /// Git reported: remember the uncommitted files, and mark their tabs.
    pub fn sync_git_state(&mut self, status: &Vec<StatusEntry>, workdir: &TreePath)
        requires
            old(self).wf(),
        ensures
            final(self).wf(),
            git_says(*old(self), *final(self), status@, workdir@),
    {
        let mut dirty: Vec<TreePath> = Vec::new();
        let mut i: usize = 0;
        while i < status.len()
            invariant
                *self == *old(self),
                i <= status@.len(),
                forall|k: int|
                    0 <= k < dirty@.len() ==> uncommitted(
                        status@,
                        workdir@,
                        (#[trigger] dirty@[k])@,
                    ),
                forall|j: int|
                    0 <= j < i && (#[trigger] status@[j]).state.is_stageable() ==> has_path(
                        dirty@,
                        workdir@ + status@[j].path@,
                    ),
            decreases status@.len() - i,
        {
            if status[i].state.stageable() {
                let ghost before = dirty@;
                let path = workdir.join(&status[i].path);
                dirty.push(path);
                assert(dirty@[before.len() as int]@ == workdir@ + status@[i as int].path@);
                assert forall|j: int|
                    0 <= j < i + 1 && (#[trigger] status@[j]).state.is_stageable() implies has_path(
                    dirty@,
                    workdir@ + status@[j].path@,
                ) by {
                    if j < i {
                        let k = choose|k: int|
                            0 <= k < before.len() && (#[trigger] before[k])@ == workdir@
                                + status@[j].path@;
                        assert(dirty@[k]@ == workdir@ + status@[j].path@);
                    }
                }
            }
            i += 1;
        }
        assert forall|path: Seq<Seq<char>>| #[trigger] has_path(dirty@, path) <==> uncommitted(
            status@,
            workdir@,
            path,
        ) by {
            if has_path(dirty@, path) {
                let k = choose|k: int| 0 <= k < dirty@.len() && (#[trigger] dirty@[k])@ == path;
                assert(uncommitted(status@, workdir@, dirty@[k]@));
            }
            if uncommitted(status@, workdir@, path) {
                let j = choose|j: int|
                    0 <= j < status@.len() && (#[trigger] status@[j]).state.is_stageable()
                        && workdir@ + status@[j].path@ == path;
                assert(status@[j].state.is_stageable());
            }
        }
        let ghost before = self.pages@;
        let mut i: usize = 0;
        while i < self.pages.len()
            invariant
                i <= self.pages@.len(),
                self.pages@.len() == before.len(),
                before == old(self).pages@,
                self.nav == old(self).nav,
                forall|path: Seq<Seq<char>>|
                    #[trigger] has_path(dirty@, path) <==> uncommitted(status@, workdir@, path),
                forall|j: int| i <= j < before.len() ==> (#[trigger] self.pages@[j]) == before[j],
                forall|j: int|
                    0 <= j < i ==> ({
                        let page = before[j];
                        let dirty = uncommitted(status@, workdir@, page.path@);
                        #[trigger] self.pages@[j] == (EditorPage {
                            indicator: if (page.indicator != Indicator::Clear) == dirty {
                                page.indicator
                            } else if dirty {
                                Indicator::Uncommitted
                            } else {
                                Indicator::Clear
                            },
                            ..page
                        })
                    }),
            decreases self.pages@.len() - i,
        {
            let shown = is_among(&dirty, &self.pages[i].path);
            self.pages[i].set_dirty_dot(shown);
            i += 1;
        }
        assert forall|a: int, b: int| 0 <= a < b < self.pages@.len() implies (
        #[trigger] self.pages@[a]).path@ != (#[trigger] self.pages@[b]).path@ by {
            assert(self.pages@[a].path == before[a].path);
            assert(self.pages@[b].path == before[b].path);
        }
        self.git_dirty = dirty;
    }

    /// A file changed on disk: read it again, flag it, or do nothing.
    pub fn on_file_changed(&mut self, path: &TreePath) -> (out: DiskChange)
        requires
            old(self).wf(),
        ensures
            final(self).wf(),
            file_changes(*old(self), *final(self), path@, out),
    {
        match self.find(path) {
            None => DiskChange::NotOpen,
            Some(i) => {
                let ghost before = self.pages@;
                let out = self.pages[i].changed_on_disk();
                assert(self.pages@ =~= before.update(i as int, self.pages@[i as int]));
                proof {
                    if out == DiskChange::Read {
                        assert(self.pages@ =~= before);
                    }
                }
                assert forall|a: int, b: int| 0 <= a < b < self.pages@.len() implies (
                #[trigger] self.pages@[a]).path@ != (#[trigger] self.pages@[b]).path@ by {
                    assert(self.pages@[a].path == before[a].path);
                    assert(self.pages@[b].path == before[b].path);
                }
                out
            },
        }
    }

    /// Offer a text at the cursor of the selected page. `None` means no file is
    /// selected; otherwise the result is the offer it replaces.
    pub fn show_suggestion(
        &mut self,
        selected: Option<usize>,
        offset: i32,
        text: &str,
    ) -> (out: Option<Option<Suggestion>>)
        requires
            old(self).wf(),
            0 <= offset,
            offset + text@.len() <= i32::MAX,
        ensures
            final(self).wf(),
            final(self).nav == old(self).nav,
            final(self).git_dirty == old(self).git_dirty,
            match selected {
                Some(i) if i < old(self).pages@.len() => {
                    let page = old(self).pages@[i as int];
                    &&& out == Some(page.suggestion)
                    &&& final(self).pages@ == old(self).pages@.update(
                        i as int,
                        EditorPage { suggestion: final(self).pages@[i as int].suggestion, ..page },
                    )
                    &&& final(self).pages@[i as int].suggestion matches Some(offer)
                        && offer.offset == offset && offer.text@ == text@ && offer.fits()
                },
                _ => out is None && *final(self) == *old(self),
            },
    {
        match selected {
            Some(i) => {
                if i >= self.pages.len() {
                    return None;
                }
                let ghost before = self.pages@;
                let replaced = self.pages[i].offer(offset, text);
                assert(self.pages@ =~= before.update(i as int, self.pages@[i as int]));
                assert forall|a: int, b: int| 0 <= a < b < self.pages@.len() implies (
                #[trigger] self.pages@[a]).path@ != (#[trigger] self.pages@[b]).path@ by {
                    assert(self.pages@[a].path == before[a].path);
                    assert(self.pages@[b].path == before[b].path);
                }
                Some(replaced)
            },
            None => None,
        }
    }

    /// The open files, as agents are told of them.
    pub fn publish_state(&self, selected: Option<usize>) -> (out: Vec<OpenFile>)
        ensures
            publishes(*self, selected, out@),
    {
        let mut out: Vec<OpenFile> = Vec::new();
        let mut i: usize = 0;
        while i < self.pages.len()
            invariant
                i <= self.pages@.len(),
                out@.len() == i,
                forall|j: int|
                    0 <= j < i ==> (#[trigger] out@[j]).path@ == self.pages@[j].path@
                        && out@[j].dirty == self.pages@[j].modified && out@[j].active == (selected
                        matches Some(at) && at == j),
            decreases self.pages@.len() - i,
        {
            let active = match selected {
                Some(at) => at == i,
                None => false,
            };
            out.push(
                OpenFile {
                    path: self.pages[i].path.clone(),
                    dirty: self.pages[i].modified,
                    active,
                },
            );
            i += 1;
        }
        out
    }
}

/// The open files, as agents are told of them.
pub open spec fn publishes(editor: Editor, selected: Option<usize>, out: Seq<OpenFile>) -> bool {
    &&& out.len() == editor.pages@.len()
    &&& forall|i: int|
        0 <= i < editor.pages@.len() ==> (#[trigger] out[i]).path@ == editor.pages@[i].path@
            && out[i].dirty == editor.pages@[i].modified && out[i].active == (selected
            matches Some(at) && at == i)
}

/// A file changed on disk.
pub open spec fn file_changes(before: Editor, after: Editor, path: Seq<Seq<char>>, out: DiskChange) -> bool {
    &&& after.nav == before.nav
    &&& after.git_dirty == before.git_dirty
    &&& match page_of(before.pages@, path) {
        None => out == DiskChange::NotOpen && after == before,
        Some(i) => {
            let page = before.pages@[i];
            if page.modified {
                &&& out == DiskChange::Flagged
                &&& after.pages@ == before.pages@.update(
                    i,
                    EditorPage {
                        indicator: Indicator::Warning,
                        tooltip: after.pages@[i].tooltip,
                        ..page
                    },
                )
                &&& after.pages@[i].tooltip@ == written(page.path@)
                    + " changed on disk while you have unsaved edits"@
            } else {
                out == DiskChange::Read && after.pages@ == before.pages@
            }
        },
    }
}

/// Git reported.
pub open spec fn git_says(
    before: Editor,
    after: Editor,
    status: Seq<StatusEntry>,
    workdir: Seq<Seq<char>>,
) -> bool {
    &&& after.nav == before.nav
    &&& forall|path: Seq<Seq<char>>|
        #[trigger] has_path(after.git_dirty@, path) <==> uncommitted(
            status,
            workdir,
            path,
        )
    &&& after.pages@.len() == before.pages@.len()
    &&& forall|i: int|
        0 <= i < before.pages@.len() ==> ({
            let page = before.pages@[i];
            let dirty = uncommitted(status, workdir, page.path@);
            #[trigger] after.pages@[i] == (EditorPage {
                indicator: if (page.indicator != Indicator::Clear) == dirty {
                    page.indicator
                } else if dirty {
                    Indicator::Uncommitted
                } else {
                    Indicator::Clear
                },
                ..page
            })
        })
}

/// A file has been read.
pub open spec fn opens_page(
    before: Editor,
    after: Editor,
    path: TreePath,
    content: Seq<char>,
    chars: i32,
    policy: Option<EditPolicy>,
    out: (usize, bool),
) -> bool {
    &&& after.nav == before.nav
    &&& after.git_dirty == before.git_dirty
    &&& match page_of(before.pages@, path@) {
        Some(i) => out.0 == i && !out.1 && after == before,
        None => {
            &&& out.1
            &&& out.0 == before.pages@.len()
            &&& after.pages@.len() == before.pages@.len() + 1
            &&& after.pages@.drop_last() == before.pages@
            &&& after.pages@.last() == (EditorPage {
                path,
                modified: false,
                chars,
                trim_trailing_ws: policy matches Some(policy) && policy.trim_trailing_ws,
                final_newline: policy is None || policy->0.final_newline,
                raw_source: true,
                plain: !is_light(content),
                changes_view: false,
                restyle_queued: false,
                suggestion: None,
                indicator: if has_path(before.git_dirty@, path@) {
                    Indicator::Uncommitted
                } else {
                    Indicator::Clear
                },
                tooltip: after.pages@.last().tooltip,
                face: Face::Edit,
            })
            &&& after.pages@.last().tooltip@ == written(path@)
        },
    }
}

/// A tab was selected.
pub open spec fn selects(
    before: Editor,
    after: Editor,
    selected: Option<usize>,
    out: Toggles,
) -> bool {
    &&& after.pages == before.pages
    &&& after.git_dirty == before.git_dirty
    &&& match selected {
        Some(i) => {
            let page = before.pages@[i as int];
            &&& after.nav@ == before.nav@.visited(page.path@)
            &&& out == (Toggles {
                preview_visible: names_markdown(page.path@),
                preview_active: Some(!page.raw_source),
                changes_sensitive: true,
                changes_active: page.changes_view,
            })
        },
        None => after.nav == before.nav && out == (Toggles {
            preview_visible: false,
            preview_active: None,
            changes_sensitive: false,
            changes_active: false,
        }),
    }
}

/// What closing a tab comes to.
pub open spec fn closes(out: CloseStep, pages: Seq<EditorPage>, tab: Option<usize>) -> bool {
    match tab {
        Some(i) if i < pages.len() => if pages[i as int].modified {
            out matches CloseStep::Ask { body } && body@ == "“"@ + shown_name(
                pages[i as int].path@,
            ) + "” has unsaved changes."@
        } else {
            out is Close
        },
        _ => out is NotOurs,
    }
}

fn is_among(paths: &Vec<TreePath>, path: &TreePath) -> (r: bool)
    ensures
        r == has_path(paths@, path@),
{
    let mut i: usize = 0;
    while i < paths.len()
        invariant
            i <= paths@.len(),
            forall|j: int| 0 <= j < i ==> (#[trigger] paths@[j])@ != path@,
        decreases paths@.len() - i,
    {
        if paths[i].same_as(path) {
            assert(paths@[i as int]@ == path@);
            return true;
        }
        i += 1;
    }
    false
}

/// Whether an answer closes a dirty tab, when its save went through or did not.
pub open spec fn answer_closes(answer: CloseAnswer, saved: bool) -> bool {
    answer == CloseAnswer::Discard || (answer == CloseAnswer::Save && saved)
}

/// A file with unsaved edits is never closed unasked, and once asked it closes
/// only where they are saved or given up in so many words.
pub proof fn edits_are_not_lost(
    out: CloseStep,
    pages: Seq<EditorPage>,
    i: usize,
    answer: CloseAnswer,
    saved: bool,
)
    requires
        i < pages.len(),
        pages[i as int].modified,
        closes(out, pages, Some(i)),
    ensures
        out is Ask,
        answer_closes(answer, saved) ==> saved || answer == CloseAnswer::Discard,
{
}

/// A selection, as agents are shown it.
#[derive(Debug, PartialEq, Eq)]
pub struct Selection {
    pub path: TreePath,
    pub start_line: u32,
    pub end_line: u32,
    pub text: String,
}

/// What agents are shown of a selection.
pub open spec fn captures(
    out: Selection,
    path: Seq<Seq<char>>,
    start_line: u32,
    end_line: u32,
    text: Seq<char>,
) -> bool {
    &&& out.path@ == path
    &&& out.start_line == start_line + 1
    &&& out.end_line == end_line + 1
    &&& out.text@ == if text.len() <= MAX_SELECTION_CAPTURE_CHARS {
        text
    } else {
        text.subrange(0, MAX_SELECTION_CAPTURE_CHARS as int)
    }
}

/// What agents are shown of a selection: its lines, counted from one, and as
/// much of its text as fits. Lines come counted from zero.
pub fn capture_selection(
    path: &TreePath,
    start_line: u32,
    end_line: u32,
    text: &str,
) -> (out: Selection)
    requires
        start_line < u32::MAX,
        end_line < u32::MAX,
    ensures
        captures(out, path@, start_line, end_line, text@),
{
    let n: usize = text.unicode_len();
    let shown = if n <= MAX_SELECTION_CAPTURE_CHARS {
        text.to_owned()
    } else {
        let chars = chars_of(text);
        string_of(&chars, 0, MAX_SELECTION_CAPTURE_CHARS)
    };
    Selection {
        path: path.clone(),
        start_line: start_line + 1,
        end_line: end_line + 1,
        text: shown,
    }
}

/// The buffer line a line number means.
pub open spec fn jumps(line: u32, out: u32) -> bool {
    &&& out == if line > 0 {
        line - 1
    } else {
        0
    }
}

/// The buffer line a line number means: numbers count from one, and nought is
/// the first.
pub fn jump_line(line: u32) -> (out: u32)
    ensures
        jumps(line, out),
{
    if line > 0 {
        line - 1
    } else {
        0
    }
}

/// The style scheme to put on a buffer, where it is not on it already: setting
/// the same one again would restyle everything.
pub fn scheme_for_style(dark: bool, current: Option<&str>) -> (out: Option<&'static str>)
    ensures
        ({
            let wanted = if dark {
                "Adwaita-dark"@
            } else {
                "Adwaita"@
            };
            text_view(out) == if text_view(current) == Some(wanted) {
                None
            } else {
                Some(wanted)
            }
        }),
{
    let wanted = if dark {
        "Adwaita-dark"
    } else {
        "Adwaita"
    };
    if let Some(current) = current {
        if same(current, wanted) {
            return None;
        }
    }
    Some(wanted)
}

/// The preview is shown only of markdown that is not asked for as source, and
/// that is neither too heavy nor too long to render; everything else is shown
/// in its editable face.
pub proof fn only_light_markdown_is_previewed(page: EditorPage)
    ensures
        page.previews() ==> names_markdown(page.path@) && !page.raw_source && !page.plain
            && page.chars <= 256 * 1024,
        names_markdown(page.path@) && !page.raw_source && !page.plain && page.chars <= 256 * 1024
            ==> page.previews(),
        page.under() == Face::Preview <==> page.previews(),
        page.under() == Face::Edit <==> !page.previews(),
        page.with_changes(true).face == Face::Changes,
        page.with_changes(true).modified == page.modified,
        page.with_changes(false).face == page.under(),
        page.reconciled().changes_view == page.changes_view && page.reconciled().modified
            == page.modified,
        !page.plain && !page.changes_view ==> page.reconciled().face == page.under(),
        page.plain || page.changes_view ==> page.reconciled() == page,
{
}

/// A tab keeps the mark it has: a warning stays a warning while its file is
/// uncommitted, a clean tab of an uncommitted file gets the dot, and a file
/// that is committed clears its tab.
pub proof fn a_mark_follows_git(before: EditorPage, after: EditorPage, dirty: bool, changed: bool)
    requires
        dots(before, after, dirty, changed),
    ensures
        after.indicator != Indicator::Clear <==> dirty,
        dirty && before.indicator == Indicator::Warning ==> after.indicator == Indicator::Warning,
        dirty && before.indicator == Indicator::Clear ==> after.indicator == Indicator::Uncommitted,
        changed <==> after.indicator != before.indicator,
        after.modified == before.modified && after.path == before.path,
{
}

/// Edits that were not saved are never overwritten: a change on disk flags the
/// page that holds them, and a file read again leaves it alone.
pub proof fn unsaved_edits_are_not_overwritten(
    before: EditorPage,
    flagged: EditorPage,
    reread: EditorPage,
    content: Seq<char>,
    current: Seq<char>,
    cursor: i32,
    chars: i32,
    change: DiskChange,
    out: Reload,
)
    requires
        changes_on_disk(before, flagged, change),
        reloads(before, reread, content, current, cursor, chars, out),
    ensures
        before.modified ==> change == DiskChange::Flagged && flagged.indicator == Indicator::Warning
            && flagged.modified && crate::text::begins_with(flagged.tooltip@, written(before.path@)),
        before.modified ==> out == Reload::Keep && reread == before,
        !before.modified ==> change == DiskChange::Read && flagged == before,
        !before.modified && content != current ==> out is Replace && !reread.modified
            && reread.suggestion is None,
        content == current ==> out == Reload::Keep && reread == before,
        out matches Reload::Replace { cursor: to, restyle: _, changes } ==> to <= cursor && to
            <= chars && (to == cursor || to == chars) && changes == before.changes_view,
{
    if before.modified {
        let name = written(before.path@);
        assert(flagged.tooltip@.subrange(0, name.len() as int) =~= name);
    }
}

/// A save that failed keeps the edits and says why; one that went through ends
/// them.
pub proof fn a_failed_save_keeps_the_edits(
    before: EditorPage,
    after: EditorPage,
    outcome: Result<(), String>,
    written: bool,
)
    requires
        save_ends(before, after, outcome, written),
    ensures
        written <==> outcome is Ok,
        outcome is Ok ==> !after.modified && after.indicator == before.indicator,
        outcome matches Err(message) ==> after.modified == before.modified && after.indicator
            == Indicator::Warning && after.tooltip == message,
        after.path == before.path,
{
}

/// A key goes to the offer that stands: Tab takes it, Escape ends it there, any
/// other key passes on once it is gone; and with none only the save is caught.
pub proof fn a_key_goes_to_the_offer(page: EditorPage, key: PageKey, control: bool, out: KeyStep)
    requires
        keys(page, key, control, out),
    ensures
        out == KeyStep::Save <==> key == PageKey::S && control,
        out == KeyStep::Accept <==> key == PageKey::Tab && page.suggestion is Some,
        out == (KeyStep::Dismiss { stop: true }) <==> key == PageKey::Escape && page.suggestion is Some,
        page.suggestion is None ==> out == KeyStep::Save || out == KeyStep::Pass,
        page.suggestion is Some ==> out != KeyStep::Pass,
{
}

/// Agents are told of every open file, which of them hold edits that were not
/// saved, and which one the user is in: one at most.
pub proof fn agents_are_told_what_is_open(
    editor: Editor,
    selected: Option<usize>,
    out: Seq<OpenFile>,
)
    requires
        publishes(editor, selected, out),
    ensures
        out.len() == editor.pages@.len(),
        forall|i: int|
            0 <= i < out.len() ==> (#[trigger] out[i]).path@ == editor.pages@[i].path@ && (
            out[i].dirty <==> editor.pages@[i].modified),
        forall|i: int, j: int|
            0 <= i < j < out.len() ==> !((#[trigger] out[i]).active && (#[trigger] out[j]).active),
        selected matches Some(at) ==> (at < out.len() ==> out[at as int].active),
        selected is None ==> forall|i: int| 0 <= i < out.len() ==> !(#[trigger] out[i]).active,
{
    if let Some(at) = selected {
        if at < out.len() {
            assert(out[at as int].active);
        }
    }
}

/// A selection is shown by the lines a person counts, and its text from its
/// beginning, never more than fits.
pub proof fn a_selection_is_shown_from_its_start(
    out: Selection,
    path: Seq<Seq<char>>,
    start_line: u32,
    end_line: u32,
    text: Seq<char>,
)
    requires
        captures(out, path, start_line, end_line, text),
    ensures
        out.path@ == path,
        out.start_line - 1 == start_line,
        out.end_line - 1 == end_line,
        crate::text::begins_with(text, out.text@),
        out.text@.len() <= 8192,
        text.len() <= 8192 ==> out.text@ == text,
        text.len() > 8192 ==> out.text@.len() == 8192,
{
    assert(text.subrange(0, out.text@.len() as int) =~= out.text@);
}

/// A line number means the line a person counts to, and nought the first.
pub proof fn a_line_number_counts_from_one(line: u32, out: u32)
    requires
        jumps(line, out),
    ensures
        line > 0 ==> out + 1 == line,
        line == 0 ==> out == 0,
{
}

proof fn lemma_page_of(pages: Seq<EditorPage>, path: Seq<Seq<char>>)
    ensures
        match page_of(pages, path) {
            Some(i) => 0 <= i < pages.len() && pages[i].path@ == path,
            None => forall|i: int| 0 <= i < pages.len() ==> (#[trigger] pages[i]).path@ != path,
        },
    decreases pages.len(),
{
    if pages.len() > 0 && pages[0].path@ != path {
        let rest = pages.subrange(1, pages.len() as int);
        lemma_page_of(rest, path);
        if page_of(rest, path) is None {
            assert forall|i: int| 0 <= i < pages.len() implies (#[trigger] pages[i]).path@ != path by {
                if i > 0 {
                    assert(rest[i - 1] == pages[i]);
                }
            }
        }
    }
}

/// A change on disk touches the page of that file and no other: it is flagged
/// where it holds edits, read again where it holds none, and nothing happens
/// where it is not open.
pub proof fn a_change_on_disk_touches_its_page(
    before: Editor,
    after: Editor,
    path: Seq<Seq<char>>,
    out: DiskChange,
)
    requires
        before.wf(),
        file_changes(before, after, path, out),
    ensures
        out == DiskChange::NotOpen <==> forall|i: int|
            0 <= i < before.pages@.len() ==> (#[trigger] before.pages@[i]).path@ != path,
        after.pages@.len() == before.pages@.len(),
        forall|i: int|
            0 <= i < before.pages@.len() && (#[trigger] before.pages@[i]).path@ != path
                ==> after.pages@[i] == before.pages@[i],
        forall|i: int|
            0 <= i < before.pages@.len() && (#[trigger] before.pages@[i]).path@ == path ==> {
                &&& out == DiskChange::Flagged <==> before.pages@[i].modified
                &&& out == DiskChange::Read <==> !before.pages@[i].modified
                &&& before.pages@[i].modified ==> after.pages@[i].indicator == Indicator::Warning
                    && after.pages@[i].modified
            },
        after.nav == before.nav && after.git_dirty == before.git_dirty,
{
    lemma_page_of(before.pages@, path);
}

/// What git reports marks exactly the tabs of the files it names, and edits and
/// paths are left alone.
pub proof fn git_marks_its_own_files(
    before: Editor,
    after: Editor,
    status: Seq<StatusEntry>,
    workdir: Seq<Seq<char>>,
    i: int,
)
    requires
        git_says(before, after, status, workdir),
        0 <= i < before.pages@.len(),
    ensures
        after.pages@.len() == before.pages@.len(),
        after.pages@[i].path == before.pages@[i].path && after.pages@[i].modified
            == before.pages@[i].modified,
        after.pages@[i].indicator != Indicator::Clear <==> exists|k: int|
            0 <= k < status.len() && (#[trigger] status[k]).state.is_stageable() && workdir
                + status[k].path@ == before.pages@[i].path@,
{
    let page = after.pages@[i];
    assert(page.path == before.pages@[i].path);
}

/// Only a tab with unsaved edits asks before it closes, naming its file, and
/// keeping on editing never closes it.
pub proof fn only_unsaved_edits_ask(
    out: CloseStep,
    pages: Seq<EditorPage>,
    tab: Option<usize>,
    saved: bool,
)
    requires
        closes(out, pages, tab),
    ensures
        tab is None ==> out is NotOurs,
        tab matches Some(i) ==> {
            &&& i >= pages.len() ==> out is NotOurs
            &&& i < pages.len() ==> {
                &&& out is Close <==> !pages[i as int].modified
                &&& out is Ask <==> pages[i as int].modified
                &&& out matches CloseStep::Ask { body } ==> crate::text::holds_text(
                    body@,
                    shown_name(pages[i as int].path@),
                )
            }
        },
        !answer_closes(CloseAnswer::KeepEditing, saved),
        answer_closes(CloseAnswer::Discard, saved),
        answer_closes(CloseAnswer::Save, saved) <==> saved,
{
    if let CloseStep::Ask { body } = out {
        crate::text::lemma_holds_middle(
            "“"@,
            shown_name(pages[tab->0 as int].path@),
            "” has unsaved changes."@,
        );
    }
}

/// An offer that was made is the one that is decided, once; the one it replaced
/// comes back to be taken out.
pub proof fn an_offer_is_decided_once(
    before: EditorPage,
    offered: EditorPage,
    decided: EditorPage,
    again: EditorPage,
    offset: i32,
    text: Seq<char>,
    replaced: Option<Suggestion>,
    first: Option<Suggestion>,
    second: Option<Suggestion>,
)
    requires
        makes_offer(before, offered, offset, text, replaced),
        decides(offered, decided, first),
        decides(decided, again, second),
    ensures
        replaced == before.suggestion,
        first matches Some(offer) && offer.offset == offset && offer.text@ == text,
        second is None,
        decided == (EditorPage { suggestion: None, ..before }),
{
}

/// A file is markdown by what stands behind the last dot of its name, whatever
/// stands before it; a name that is all extension is not.
pub proof fn markdown_is_told_by_the_extension(
    dir: Seq<Seq<char>>,
    stem: Seq<char>,
    extension: Seq<char>,
)
    requires
        !extension.contains('.'),
        stem.push('.') + extension != ".."@,
    ensures
        stem.len() > 0 && (extension == "md"@ || extension == "markdown"@) ==> names_markdown(
            dir.push(stem.push('.') + extension),
        ),
        extension != "md"@ && extension != "markdown"@ ==> !names_markdown(
            dir.push(stem.push('.') + extension),
        ),
        stem.len() == 0 ==> !names_markdown(dir.push(stem.push('.') + extension)),
{
    let name = stem.push('.') + extension;
    let path = dir.push(name);
    assert(path.last() == name);
    assert(last_name(path) == Some(name));
    let at = stem.len() as int;
    assert(name[at] == '.');
    assert forall|j: int| at < j < name.len() implies name[j] != '.' by {
        assert(name[j] == extension[j - at - 1]);
        if name[j] == '.' {
            assert(extension.contains(extension[j - at - 1]));
        }
    }
    assert(is_last_dot(name, at));
    assert(name.subrange(at + 1, name.len() as int) =~= extension);
    assert forall|k: int| is_last_dot(name, k) implies k == at by {
        if k < at {
            assert(name[at] != '.');
        }
        if at < k {
            assert(name[k] != '.');
        }
    }
}

/// A file is light where neither it nor any of its lines is too long; one long
/// line is enough to make it heavy.
pub proof fn one_long_line_is_too_heavy(content: Seq<char>, i: int)
    requires
        0 <= i < pieces(content, '\n').len(),
    ensures
        encode_utf8(pieces(content, '\n')[i]).len() > 4096 ==> !is_light(content),
        encode_utf8(content).len() > 8 * 1024 * 1024 ==> !is_light(content),
        is_light(content) ==> encode_utf8(pieces(content, '\n')[i]).len() <= 4096,
        encode_utf8(content).len() <= 8 * 1024 * 1024 && (forall|k: int|
            0 <= k < pieces(content, '\n').len() ==> encode_utf8(
                #[trigger] pieces(content, '\n')[k],
            ).len() <= 4096) ==> is_light(content),
{
}

/// Opening a file discards nothing: one that is open keeps its page as it is, and
/// a new page comes behind the others, unmodified, as source, marked where git
/// says it is uncommitted.
pub proof fn opening_discards_nothing(
    before: Editor,
    after: Editor,
    path: TreePath,
    content: Seq<char>,
    chars: i32,
    policy: Option<EditPolicy>,
    out: (usize, bool),
)
    requires
        opens_page(before, after, path, content, chars, policy, out),
    ensures
        forall|i: int|
            0 <= i < before.pages@.len() ==> i < after.pages@.len() && after.pages@[i]
                == #[trigger] before.pages@[i],
        out.0 < after.pages@.len() && after.pages@[out.0 as int].path@ == path@,
        out.1 <==> forall|i: int|
            0 <= i < before.pages@.len() ==> (#[trigger] before.pages@[i]).path@ != path@,
        out.1 ==> {
            let page = after.pages@[out.0 as int];
            &&& !page.modified && page.raw_source && !page.changes_view && page.face == Face::Edit
            &&& page.plain <==> !is_light(content)
            &&& page.indicator == Indicator::Uncommitted <==> has_path(before.git_dirty@, path@)
            &&& policy is None ==> page.final_newline && !page.trim_trailing_ws
            &&& policy matches Some(p) ==> page.final_newline == p.final_newline
                && page.trim_trailing_ws == p.trim_trailing_ws
        },
        !out.1 ==> after == before,
{
    lemma_page_of(before.pages@, path@);
    if page_of(before.pages@, path@) is None {
        assert forall|i: int| 0 <= i < before.pages@.len() implies i < after.pages@.len()
            && after.pages@[i] == #[trigger] before.pages@[i] by {
            assert(after.pages@.drop_last()[i] == after.pages@[i]);
        }
    }
}

/// A tab that is selected is a visit, and the toggles show its own page: the
/// preview only of markdown, the changes of any file, and neither of none.
pub proof fn toggles_are_of_the_selected_page(
    before: Editor,
    after: Editor,
    selected: Option<usize>,
    out: Toggles,
)
    requires
        before.wf(),
        selects(before, after, selected, out),
        selected matches Some(i) ==> i < before.pages@.len(),
    ensures
        selected matches Some(i) ==> {
            let page = before.pages@[i as int];
            &&& after.nav@.current() == Some(page.path@)
            &&& out.preview_visible <==> names_markdown(page.path@)
            &&& out.preview_active == Some(!page.raw_source)
            &&& out.changes_sensitive && out.changes_active == page.changes_view
        },
        selected is None ==> !out.preview_visible && !out.changes_sensitive && !out.changes_active
            && after.nav == before.nav,
        after.pages == before.pages,
{
    if let Some(i) = selected {
        crate::editor::nav::a_visit_arrives(before.nav@, before.pages@[i as int].path@);
    }
}

} // verus!
