//! The environment panel: which environments exist, which one the panes are
//! aimed at, and what is happening in the rest.
//!
//! It renders [`FleetRow`]s and derives nothing of its own about them: a panel
//! that disagreed with the fleet about what an environment is called or
//! whether it is running would be worse than no panel.

use vstd::prelude::*;
use crate::console::envmap::EnvMap;
use crate::console::same::{fleets_agree, same_fleet, same_snapshot, snapshots_agree};
use crate::environment::{slugs, Claim, EnvironmentId};
use crate::fleet::{text_view, FleetRow, Light, ReviewMark};
use crate::quota::QuotaSnapshot;
use crate::text::{
    all_ascii, ascii_lowercase, ascii_uppercase, begins_with, concat2, concat3, contains, holds_text,
    lemma_lowered_holds, lemma_lowered_upper, lemma_trimmed_padded, lemma_trimmed_upper, lowercase,
    lowered, stands_at, trim, trimmed, white,
};

verus! {

/// What the user's own checkout is called, everywhere it has to be named.
pub const PRIMARY_TITLE: &'static str = "Yours";

/// Past this many environments the panel grows a filter.
pub const FILTER_THRESHOLD: usize = 6;

/// How many rows the panel is willing to be tall.
pub const VISIBLE_ROWS: i32 = 6;

/// One row's height.
pub const ROW_HEIGHT: i32 = 30;

/// What a row costs on top of its height when it carries a work line.
pub const CAPTION_HEIGHT: i32 = 15;

/// How often the panel re-reads the world, in seconds.
pub const TICK_SECS: u64 = 1;

/// What the panel itself shows about the context the user is in, and whether
/// that is home.
#[derive(Debug, PartialEq, Eq)]
pub struct Face {
    pub title: String,
    pub light: Light,
    /// The view is read-only: true of every environment but the primary.
    pub locked: bool,
    /// Tint the panel: the panes are not home.
    pub away: bool,
    /// The tooltip: the same fact, spelled out.
    pub detail: String,
}

/// One row of the panel.
#[derive(Debug, PartialEq, Eq)]
pub struct Entry {
    pub env: EnvironmentId,
    pub title: String,
    pub light: Light,
    /// The user's own checkout: the row that is the way back.
    pub primary: bool,
    /// Its chat is mid-turn.
    pub busy: bool,
    /// Its chat is stopped on a question only the user can answer.
    pub awaits_user: bool,
    /// It holds work no other checkout has a copy of.
    pub unpublished: bool,
    /// Where it stands in the review arc, as a list marks it.
    pub review: ReviewMark,
    /// The panes are aimed here.
    pub current: bool,
    /// The state, for the row's tooltip.
    pub detail: String,
    /// The issue this environment holds a claim on, when it holds one.
    pub working_on: Option<Claim>,
}

impl Entry {
    /// What a row's tooltip says.
    pub open spec fn tooltip_shown(&self) -> Seq<char> {
        let what = if self.primary {
            self.title@ + " — your own checkout\n"@ + self.detail@
        } else {
            self.title@ + " — its own clone and devcontainer, read-only to you\n"@ + self.detail@
        };
        let work = match self.working_on {
            Some(claim) => "\nWorking on "@ + claim.id@ + " — "@ + claim.title@,
            None => ""@,
        };
        let chat = if self.awaits_user {
            "\nIts chat is waiting for an answer from you."@
        } else if self.busy {
            "\nIts chat is working now."@
        } else {
            ""@
        };
        let arc = match self.review {
            ReviewMark::Flagged => "\nIt says it is done and is waiting for your review. Its container was stopped because nothing is left to run in it."@,
            ReviewMark::Settled => "\nYou have ruled on this one — it is safe to destroy."@,
            ReviewMark::Unmarked => ""@,
        };
        what + work + chat + arc
    }

    /// The row's tooltip: what it is, what state it is in, and what it waits
    /// on. Waiting outranks working.
    pub fn tooltip(&self) -> (out: String)
        ensures
            out@ == self.tooltip_shown(),
    {
        let mut text = if self.primary {
            concat3(self.title.as_str(), " — your own checkout\n", self.detail.as_str())
        } else {
            concat3(
                self.title.as_str(),
                " — its own clone and devcontainer, read-only to you\n",
                self.detail.as_str(),
            )
        };
        match &self.working_on {
            Some(claim) => {
                let mut work = concat3("\nWorking on ", claim.id.as_str(), " — ");
                work.append(claim.title.as_str());
                text.append(work.as_str());
            },
            None => {
                text.append("");
            },
        }
        text.append(
            if self.awaits_user {
                "\nIts chat is waiting for an answer from you."
            } else if self.busy {
                "\nIts chat is working now."
            } else {
                ""
            },
        );
        text.append(
            match self.review {
                ReviewMark::Flagged => "\nIt says it is done and is waiting for your review. Its container was stopped because nothing is left to run in it.",
                ReviewMark::Settled => "\nYou have ruled on this one — it is safe to destroy.",
                ReviewMark::Unmarked => "",
            },
        );
        text
    }
}

/// The slug the panes are aimed at; `None` is the user's own checkout.
pub open spec fn aim_view(current: Option<&EnvironmentId>) -> Option<Seq<char>> {
    match current {
        Some(env) => Some(env@),
        None => None,
    }
}

/// Whether the panes are aimed at a row.
pub open spec fn is_aimed_at(row: FleetRow, current: Option<Seq<char>>) -> bool {
    match current {
        Some(slug) => row.env@ == slug,
        None => row.primary,
    }
}

/// What an environment is called on screen.
pub open spec fn title_shown(row: FleetRow) -> Seq<char> {
    if row.primary {
        PRIMARY_TITLE@
    } else {
        row.name@
    }
}

/// Which row the panes are aimed at. `None`, the tree's way of saying "the
/// user's own checkout", is the primary row.
pub fn is_current(row: &FleetRow, current: Option<&EnvironmentId>) -> (r: bool)
    ensures
        r == is_aimed_at(*row, aim_view(current)),
{
    match current {
        Some(env) => row.env.same_as(env),
        None => row.primary,
    }
}

/// What one environment is called on screen. The primary is "Yours" wherever
/// it appears.
pub fn title_of(row: &FleetRow) -> (out: String)
    ensures
        out@ == title_shown(*row),
{
    if row.primary {
        PRIMARY_TITLE.to_owned()
    } else {
        row.name.clone()
    }
}

/// The first row the panes are aimed at.
pub open spec fn aimed_row(rows: Seq<FleetRow>, current: Option<Seq<char>>) -> Option<int>
    decreases rows.len(),
{
    if rows.len() == 0 {
        None
    } else if is_aimed_at(rows[0], current) {
        Some(0)
    } else {
        match aimed_row(rows.subrange(1, rows.len() as int), current) {
            Some(i) => Some(i + 1),
            None => None,
        }
    }
}

fn find_aimed(rows: &Vec<FleetRow>, current: Option<&EnvironmentId>) -> (out: Option<usize>)
    ensures
        match out {
            Some(i) => i < rows@.len() && aimed_row(rows@, aim_view(current)) == Some(i as int),
            None => aimed_row(rows@, aim_view(current)) is None,
        },
{
    let ghost aim = aim_view(current);
    let mut i: usize = 0;
    assert(rows@.subrange(0, rows@.len() as int) =~= rows@);
    while i < rows.len()
        invariant
            aim == aim_view(current),
            i <= rows@.len(),
            aimed_row(rows@, aim) == match aimed_row(
                rows@.subrange(i as int, rows@.len() as int),
                aim,
            ) {
                Some(k) => Some(k + i),
                None => None,
            },
        decreases rows@.len() - i,
    {
        let ghost rest = rows@.subrange(i as int, rows@.len() as int);
        if is_current(&rows[i], current) {
            return Some(i);
        }
        assert(rest.subrange(1, rest.len() as int) =~= rows@.subrange(i + 1, rows@.len() as int));
        i += 1;
    }
    None
}

/// What the panel says where no row answers to the aim: where the panes are,
/// and that the state is not known.
pub open spec fn face_unknown(face: Face, current: Option<Seq<char>>) -> bool {
    let title = match current {
        Some(slug) => slug,
        None => PRIMARY_TITLE@,
    };
    &&& face.title@ == title
    &&& face.light == Light::Unknown
    &&& face.locked == (current is Some)
    &&& face.away == (current is Some)
    &&& face.detail@ == title + " · state not known yet"@
}

/// What the panel says of the row the panes are aimed at.
pub open spec fn face_of(face: Face, row: FleetRow) -> bool {
    &&& face.title@ == title_shown(row)
    &&& face.light == row.light_shown()
    &&& face.locked == !row.primary
    &&& face.away == !row.primary
    &&& face.detail@ == if row.primary {
        "Your own checkout\n"@ + row.state_shown()
    } else {
        "Viewing "@ + title_shown(row)
            + " — read-only, it is another environment's checkout\n"@ + row.state_shown()
    }
}

/// What the panel says about where the user is, given the fleet and where the
/// panes are aimed.
pub fn face(rows: &Vec<FleetRow>, current: Option<&EnvironmentId>) -> (out: Face)
    ensures
        match aimed_row(rows@, aim_view(current)) {
            Some(i) => face_of(out, rows@[i]),
            None => face_unknown(out, aim_view(current)),
        },
{
    match find_aimed(rows, current) {
        None => {
            let title: String = match current {
                Some(env) => env.slug.clone(),
                None => PRIMARY_TITLE.to_owned(),
            };
            Face {
                detail: concat2(title.as_str(), " · state not known yet"),
                title,
                light: Light::Unknown,
                locked: current.is_some(),
                away: current.is_some(),
            }
        },
        Some(i) => {
            let row = &rows[i];
            let title = title_of(row);
            let away = !row.primary;
            let state = row.state_text();
            let detail = if away {
                let mut text = concat3(
                    "Viewing ",
                    title.as_str(),
                    " — read-only, it is another environment's checkout\n",
                );
                text.append(state.as_str());
                text
            } else {
                concat2("Your own checkout\n", state.as_str())
            };
            Face { title, light: row.light(), locked: away, away, detail }
        },
    }
}

/// An entry carries its row's own facts and no one else's.
pub open spec fn entry_of(entry: Entry, row: FleetRow, current: Option<Seq<char>>) -> bool {
    &&& entry.env@ == row.env@
    &&& entry.title@ == title_shown(row)
    &&& entry.light == row.light_shown()
    &&& entry.primary == row.primary
    &&& entry.busy == (row.chat matches Some(chat) && chat.busy)
    &&& entry.awaits_user == row.is_awaiting()
    &&& entry.unpublished == row.holds_unpublished_work()
    &&& entry.review == ReviewMark::mark_of(row.review)
    &&& entry.current == is_aimed_at(row, current)
    &&& entry.detail@ == row.state_shown()
    &&& match entry.working_on {
        Some(claim) => row.working_on@.len() > 0 && claim.id@ == row.working_on@[0].id@
            && claim.title@ == row.working_on@[0].title@,
        None => row.working_on@.len() == 0,
    }
}

/// Entries that say what the rows say, one for one.
pub open spec fn describes(
    entries: Seq<Entry>,
    rows: Seq<FleetRow>,
    current: Option<Seq<char>>,
) -> bool {
    entries.len() == rows.len() && forall|i: int|
        0 <= i < rows.len() ==> entry_of(#[trigger] entries[i], rows[i], current)
}

/// The panel's rows, in the order the fleet assembled them. An environment
/// with two claims shows the first; the row has one line to spend.
pub fn entries(rows: &Vec<FleetRow>, current: Option<&EnvironmentId>) -> (out: Vec<Entry>)
    ensures
        describes(out@, rows@, aim_view(current)),
{
    let mut out: Vec<Entry> = Vec::new();
    let mut i: usize = 0;
    while i < rows.len()
        invariant
            i <= rows@.len(),
            out@.len() == i,
            forall|j: int|
                0 <= j < i ==> entry_of(#[trigger] out@[j], rows@[j], aim_view(current)),
        decreases rows@.len() - i,
    {
        let row = &rows[i];
        let busy = match &row.chat {
            Some(chat) => chat.busy,
            None => false,
        };
        let working_on = if row.working_on.len() > 0 {
            Some(row.working_on[0].clone())
        } else {
            None
        };
        out.push(
            Entry {
                title: title_of(row),
                light: row.light(),
                primary: row.primary,
                busy,
                awaits_user: row.awaits_user(),
                unpublished: row.has_unpublished_work(),
                review: row.review_mark(),
                current: is_current(row, current),
                detail: row.state_text(),
                working_on,
                env: row.env.clone(),
            },
        );
        i += 1;
    }
    out
}

/// Whether the panel shows its filter: only past the threshold.
pub fn filter_visible(count: usize) -> (r: bool)
    ensures
        r == (count > FILTER_THRESHOLD),
{
    count > FILTER_THRESHOLD
}

/// What a filter looks for.
pub open spec fn filter_query(query: Seq<char>) -> Seq<char> {
    lowered(trimmed(query))
}

/// Whether a row survives a filter: over what it shows and over the slug
/// behind it, whatever the case.
pub open spec fn survives(entry: Entry, query: Seq<char>) -> bool {
    let wanted = filter_query(query);
    wanted.len() == 0 || holds_text(lowered(entry.title@), wanted) || holds_text(
        lowered(entry.env@),
        wanted,
    )
}

/// Type-to-filter: case-insensitive substring, over what the row shows and
/// over the slug behind it.
pub fn matches(entry: &Entry, query: &str) -> (r: bool)
    ensures
        r == survives(*entry, query@),
        trimmed(query@).len() == 0 ==> r,
        all_ascii(query@) && (holds_text(entry.title@, trimmed(query@)) || holds_text(
            entry.env@,
            trimmed(query@),
        )) ==> r,
{
    let wanted = lowercase(trim(query));
    if wanted.as_str().is_empty() {
        return true;
    }
    let title = lowercase(entry.title.as_str());
    let slug = lowercase(entry.env.as_str());
    proof {
        let asked = trimmed(query@);
        if all_ascii(query@) {
            lemma_trimmed_upper(query@);
        }
        if all_ascii(query@) && holds_text(entry.title@, asked) {
            let at = choose|at: int| stands_at(entry.title@, asked, at);
            assert(holds_text(title@, ascii_lowercase(entry.title@.subrange(at, at + asked.len()))));
        }
        if all_ascii(query@) && holds_text(entry.env@, asked) {
            let at = choose|at: int| stands_at(entry.env@, asked, at);
            assert(holds_text(slug@, ascii_lowercase(entry.env@.subrange(at, at + asked.len()))));
        }
    }
    contains(title.as_str(), wanted.as_str()) || contains(slug.as_str(), wanted.as_str())
}

/// The height of the first `n` rows.
pub open spec fn rows_height(entries: Seq<Entry>, n: int) -> int
    decreases n,
{
    if n <= 0 {
        0
    } else {
        rows_height(entries, n - 1) + ROW_HEIGHT + if entries[n - 1].working_on is Some {
            CAPTION_HEIGHT as int
        } else {
            0
        }
    }
}

/// How tall the list may get: the first rows' own heights, and never less than
/// one row.
pub open spec fn height_of(entries: Seq<Entry>) -> int {
    let n = if entries.len() < VISIBLE_ROWS {
        entries.len() as int
    } else {
        VISIBLE_ROWS as int
    };
    let sum = rows_height(entries, n);
    if sum < ROW_HEIGHT {
        ROW_HEIGHT as int
    } else {
        sum
    }
}

/// How tall the list should be allowed to get: the natural height of its first
/// rows, whatever those rows happen to be. The ceiling is a promise about how
/// many rows can be seen, not about pixels.
pub fn list_height(entries: &Vec<Entry>) -> (height: i32)
    ensures
        height == height_of(entries@),
{
    let mut sum: i32 = 0;
    let mut i: usize = 0;
    while i < entries.len() && i < VISIBLE_ROWS as usize
        invariant
            i <= entries@.len(),
            i <= VISIBLE_ROWS,
            sum == rows_height(entries@, i as int),
            0 <= sum <= 45 * i,
        decreases entries@.len() - i,
    {
        sum = sum + ROW_HEIGHT;
        if entries[i].working_on.is_some() {
            sum = sum + CAPTION_HEIGHT;
        }
        i += 1;
    }
    if sum < ROW_HEIGHT {
        ROW_HEIGHT
    } else {
        sum
    }
}

/// The list is never shorter than a row nor taller than its six tallest.
pub proof fn the_list_keeps_its_bounds(entries: Seq<Entry>)
    ensures
        ROW_HEIGHT <= height_of(entries) <= VISIBLE_ROWS * (ROW_HEIGHT + CAPTION_HEIGHT),
{
    let n = if entries.len() < VISIBLE_ROWS {
        entries.len() as int
    } else {
        VISIBLE_ROWS as int
    };
    lemma_rows_height_bound(entries, n);
}

proof fn lemma_rows_height_bound(entries: Seq<Entry>, n: int)
    requires
        0 <= n,
    ensures
        30 * n <= rows_height(entries, n) <= 45 * n,
    decreases n,
{
    if n > 0 {
        lemma_rows_height_bound(entries, n - 1);
    }
}

/// The filter appears exactly where the list starts to scroll.
pub proof fn filter_and_scrolling_start_together(count: usize)
    ensures
        count > FILTER_THRESHOLD <==> count > VISIBLE_ROWS,
{
}

/// Two entries would read the same.
pub open spec fn reads_the_same(a: Entry, b: Entry) -> bool {
    &&& a.env@ == b.env@
    &&& a.title@ == b.title@
    &&& a.light == b.light
    &&& a.primary == b.primary
    &&& a.busy == b.busy
    &&& a.awaits_user == b.awaits_user
    &&& a.unpublished == b.unpublished
    &&& a.review == b.review
    &&& a.current == b.current
    &&& a.detail@ == b.detail@
    &&& match (a.working_on, b.working_on) {
        (Some(x), Some(y)) => x.id@ == y.id@ && x.title@ == y.title@,
        (None, None) => true,
        _ => false,
    }
}

/// Two lists would read the same.
pub open spec fn lists_read_the_same(a: Seq<Entry>, b: Seq<Entry>) -> bool {
    a.len() == b.len() && forall|i: int| 0 <= i < a.len() ==> reads_the_same(#[trigger] a[i], b[i])
}

fn same_entry(a: &Entry, b: &Entry) -> (r: bool)
    ensures
        r == reads_the_same(*a, *b),
{
    let work = match (&a.working_on, &b.working_on) {
        (Some(x), Some(y)) => x.id == y.id && x.title == y.title,
        (None, None) => true,
        _ => false,
    };
    work && a.env.same_as(&b.env) && a.title == b.title && a.light == b.light && a.primary
        == b.primary && a.busy == b.busy && a.awaits_user == b.awaits_user && a.unpublished
        == b.unpublished && a.review == b.review && a.current == b.current && a.detail == b.detail
}

fn same_entries(a: &Vec<Entry>, b: &Vec<Entry>) -> (r: bool)
    ensures
        r == lists_read_the_same(a@, b@),
{
    if a.len() != b.len() {
        return false;
    }
    let mut i: usize = 0;
    while i < a.len()
        invariant
            a@.len() == b@.len(),
            i <= a@.len(),
            forall|j: int| 0 <= j < i ==> reads_the_same(#[trigger] a@[j], b@[j]),
        decreases a@.len() - i,
    {
        if !same_entry(&a[i], &b[i]) {
            assert(!reads_the_same(a@[i as int], b@[i as int]));
            return false;
        }
        i += 1;
    }
    true
}

/// What the list shows after a rebuild.
#[derive(Debug, PartialEq, Eq)]
pub struct Listing {
    /// The filter is on screen.
    pub filter: bool,
    /// Which of the entries survived the filter, in order.
    pub visible: Vec<usize>,
    pub height: i32,
    /// Which of the visible rows is the one the panes are aimed at.
    pub selected: Option<usize>,
}

/// The places of the entries that survive a filter, in order.
pub open spec fn surviving(entries: Seq<Entry>, query: Seq<char>) -> Seq<usize>
    decreases entries.len(),
{
    if entries.len() == 0 {
        Seq::empty()
    } else {
        let rest = surviving(entries.drop_last(), query);
        if survives(entries.last(), query) {
            rest.push((entries.len() - 1) as usize)
        } else {
            rest
        }
    }
}

/// The entries that survive a filter, in order.
pub open spec fn visible_entries(entries: Seq<Entry>, query: Seq<char>) -> Seq<Entry>
    decreases entries.len(),
{
    if entries.len() == 0 {
        Seq::empty()
    } else {
        let rest = visible_entries(entries.drop_last(), query);
        if survives(entries.last(), query) {
            rest.push(entries.last())
        } else {
            rest
        }
    }
}

/// The last of the rows that the panes are aimed at.
pub open spec fn selected_of(entries: Seq<Entry>) -> Option<int>
    decreases entries.len(),
{
    if entries.len() == 0 {
        None
    } else if entries.last().current {
        Some(entries.len() - 1)
    } else {
        selected_of(entries.drop_last())
    }
}

/// An empty filter, or one of blanks alone, hides no row.
pub proof fn an_empty_filter_hides_nothing(entries: Seq<Entry>, query: Seq<char>)
    requires
        trimmed(query).len() == 0,
    ensures
        visible_entries(entries, query) == entries,
        surviving(entries, query).len() == entries.len(),
    decreases entries.len(),
{
    assert(filter_query(query).len() == 0);
    if entries.len() > 0 {
        an_empty_filter_hides_nothing(entries.drop_last(), query);
        assert(entries.drop_last().push(entries.last()) =~= entries);
    }
}

/// Blanks around a filter change nothing of what it shows.
pub proof fn blanks_around_a_filter_do_not_matter(
    entry: Entry,
    before: Seq<char>,
    query: Seq<char>,
    after: Seq<char>,
)
    requires
        forall|j: int| 0 <= j < before.len() ==> white(before[j]),
        forall|j: int| 0 <= j < after.len() ==> white(after[j]),
    ensures
        survives(entry, before + query + after) == survives(entry, query),
{
    lemma_trimmed_padded(before, query, after);
}

/// The case of an ASCII filter changes nothing of what it shows.
pub proof fn case_does_not_matter_to_a_filter(entry: Entry, query: Seq<char>)
    requires
        all_ascii(query),
    ensures
        survives(entry, ascii_uppercase(query)) == survives(entry, query),
{
    lemma_trimmed_upper(query);
    lemma_lowered_upper(trimmed(query));
}

/// A row is found by any part of its name, and by any part of the slug behind
/// it, whatever it is called now.
pub proof fn a_row_is_found_by_its_name_and_by_its_slug(entry: Entry, query: Seq<char>)
    requires
        all_ascii(entry.title@) && holds_text(entry.title@, trimmed(query)) || all_ascii(entry.env@)
            && holds_text(entry.env@, trimmed(query)),
    ensures
        survives(entry, query),
{
    if all_ascii(entry.title@) && holds_text(entry.title@, trimmed(query)) {
        lemma_lowered_holds(entry.title@, trimmed(query));
    } else {
        lemma_lowered_holds(entry.env@, trimmed(query));
    }
}

/// The environments of some entries.
pub open spec fn entry_slugs(entries: Seq<Entry>) -> Seq<Seq<char>> {
    Seq::new(entries.len(), |i: int| entries[i].env@)
}

/// Where the panes are, as far as the fleet knows: not home.
pub open spec fn is_away(rows: Seq<FleetRow>, current: Option<Seq<char>>) -> bool {
    match aimed_row(rows, current) {
        Some(i) => !rows[i].primary,
        None => current is Some,
    }
}

/// The panel: the fleet and the aim it was given, and the list it made of them.
#[derive(Debug, PartialEq, Eq)]
pub struct EnvPanel {
    pub rows: Vec<FleetRow>,
    pub current: Option<EnvironmentId>,
    /// What the list was built from.
    pub shown: Vec<Entry>,
    /// The rows on screen, in order.
    pub listed: Vec<EnvironmentId>,
    /// Fabricated activity windows, for the environments they name.
    pub probe_activity: EnvMap<Shape>,
    /// The account's limit state, for the gauge.
    pub quota: QuotaSnapshot,
}

/// What a change of the fleet or of the aim redraws.
#[derive(Debug, PartialEq, Eq)]
pub struct Redraw {
    /// Tint the panel: the panes are not home.
    pub away: bool,
    /// The list as it is to be built anew; `None` leaves it alone.
    pub listing: Option<Listing>,
}

/// `listing` is what the panel's entries come to under a filter.
pub open spec fn lists(listing: Listing, panel: EnvPanel, query: Seq<char>) -> bool {
    let visible = visible_entries(panel.shown@, query);
    &&& listing.filter == (panel.rows@.len() > FILTER_THRESHOLD)
    &&& listing.visible@ == surviving(panel.shown@, query)
    &&& listing.height == height_of(visible)
    &&& match listing.selected {
        Some(i) => selected_of(visible) == Some(i as int),
        None => selected_of(visible) is None,
    }
    &&& slugs(panel.listed@) == entry_slugs(visible)
}

/// What a rebuild comes to: nothing where the list would read the same and is
/// not forced, and a list of the panel's own rows otherwise.
pub open spec fn relists(
    out: Option<Listing>,
    before: EnvPanel,
    after: EnvPanel,
    query: Seq<char>,
    force: bool,
) -> bool {
    &&& out is None <==> !force && describes(before.shown@, after.rows@, after.aim())
    &&& out is None ==> after.shown == before.shown && after.listed == before.listed
    &&& out matches Some(listing) ==> lists(listing, after, query)
}

impl EnvPanel {
    /// The slug the panes are aimed at.
    pub open spec fn aim(&self) -> Option<Seq<char>> {
        match self.current {
            Some(env) => Some(env@),
            None => None,
        }
    }

    /// What the list was built from is what the fleet says.
    pub open spec fn wf(&self) -> bool {
        describes(self.shown@, self.rows@, self.aim()) && self.probe_activity.wf()
    }

    /// A panel before the first fleet: at home, listing nothing.
    pub fn new() -> (out: Self)
        ensures
            out.wf(),
            out.rows@.len() == 0,
            out.current is None,
            out.listed@.len() == 0,
            forall|slug: Seq<char>| (#[trigger] out.probe_activity.fact(slug)) is None,
            out.quota == QuotaSnapshot::blank(),
    {
        EnvPanel {
            rows: Vec::new(),
            current: None,
            shown: Vec::new(),
            listed: Vec::new(),
            probe_activity: EnvMap::new(),
            quota: QuotaSnapshot::default(),
        }
    }

    /// Aim the panel. `None` means the aim is where it was.
    pub fn set_current(&mut self, current: Option<EnvironmentId>, query: &str) -> (out: Option<
        Redraw,
    >)
        requires
            old(self).wf(),
        ensures
            final(self).wf(),
            aims_at(*old(self), *final(self), current, query@, out),
    {
        let same_aim = match (&self.current, &current) {
            (Some(a), Some(b)) => a.same_as(b),
            (None, None) => true,
            _ => false,
        };
        if same_aim {
            return None;
        }
        self.current = current;
        let away = self.face().away;
        let listing = self.rebuild(query, false);
        Some(Redraw { away, listing })
    }

    /// The assembled fleet. `None` means that it is the one the panel has;
    /// otherwise the environments there still are, beside what to redraw.
    pub fn set_rows(&mut self, rows: Vec<FleetRow>, query: &str) -> (out: Option<
        (Vec<EnvironmentId>, Redraw),
    >)
        requires
            old(self).wf(),
        ensures
            final(self).wf(),
            takes_rows(*old(self), *final(self), rows, query@, out),
    {
        if same_fleet(&self.rows, &rows) {
            return None;
        }
        let mut live: Vec<EnvironmentId> = Vec::new();
        let mut i: usize = 0;
        while i < rows.len()
            invariant
                i <= rows@.len(),
                live@.len() == i,
                forall|j: int| 0 <= j < i ==> (#[trigger] live@[j]) == rows@[j].env,
            decreases rows@.len() - i,
        {
            live.push(rows[i].env.clone());
            i += 1;
        }
        self.rows = rows;
        let away = self.face().away;
        let listing = self.rebuild(query, false);
        Some((live, Redraw { away, listing }))
    }

    /// What the panel says about where the user is.
    pub fn face(&self) -> (out: Face)
        ensures
            match aimed_row(self.rows@, self.aim()) {
                Some(i) => face_of(out, self.rows@[i]),
                None => face_unknown(out, self.aim()),
            },
            out.away == is_away(self.rows@, self.aim()),
    {
        face(&self.rows, self.current.as_ref())
    }

    /// The environment the panes are aimed at, as a row identity: the
    /// primary's own id rather than `None`.
    pub open spec fn aimed_slug(&self) -> Option<Seq<char>> {
        match self.current {
            Some(env) => Some(env@),
            None => match aimed_row(self.rows@, None) {
                Some(i) => Some(self.rows@[i].env@),
                None => None,
            },
        }
    }

    /// The environment the panes are aimed at, as a row identity: the
    /// primary's own id rather than `None`.
    pub fn aimed_at(&self) -> (out: Option<EnvironmentId>)
        ensures
            match out {
                Some(env) => self.aimed_slug() == Some(env@),
                None => self.aimed_slug() is None,
            },
    {
        match &self.current {
            Some(env) => Some(env.clone()),
            None => match find_aimed(&self.rows, None) {
                Some(i) => Some(self.rows[i].env.clone()),
                None => None,
            },
        }
    }

    /// The keyboard's way in. Nothing opens: the first press puts focus on the
    /// row the panes are aimed at, and pressing again walks down the list,
    /// wrapping. Where the filter is on screen it comes first.
    pub fn focus(&self, filter: bool, filter_focused: bool, focused: Option<usize>) -> (out:
        FocusMove)
        requires
            focused matches Some(i) ==> i < self.listed@.len(),
        ensures
            out == focus_shown(
                filter,
                filter_focused,
                self.listed@,
                focused,
                self.aimed_slug(),
            ),
            out matches FocusMove::Row(i) ==> i < self.listed@.len(),
    {
        let aimed = self.aimed_at();
        walk(filter, filter_focused, &self.listed, focused, aimed.as_ref())
    }

    /// The environment of a row that was activated, where there is such a row.
    pub fn activated(&self, index: usize) -> (out: Option<EnvironmentId>)
        ensures
            activates(*self, index, out),
    {
        if index < self.listed.len() {
            Some(self.listed[index].clone())
        } else {
            None
        }
    }

    /// The fabricated window of an environment that was given one.
    pub fn samples_for(&self, env: &EnvironmentId) -> (out: Option<Vec<u16>>)
        ensures
            match (out, self.probe_activity.fact(env@)) {
                (Some(samples), Some(shape)) => is_window(samples@, shape),
                (None, None) => true,
                _ => false,
            },
    {
        match self.probe_activity.get(env) {
            Some(shape) => Some(probe_samples(*shape)),
            None => None,
        }
    }

    /// Give one row a fabricated activity window, in place of any it had.
    pub fn seed_activity_for_probe(&mut self, env: &EnvironmentId, shape: Shape)
        requires
            old(self).wf(),
        ensures
            final(self).wf(),
            forall|slug: Seq<char>|
                (#[trigger] final(self).probe_activity.fact(slug)) == if slug == env@ {
                    Some(shape)
                } else {
                    old(self).probe_activity.fact(slug)
                },
            *final(self) == (EnvPanel {
                probe_activity: final(self).probe_activity,
                ..*old(self)
            }),
    {
        self.probe_activity.insert(env.clone(), shape);
    }

    /// The account's limit state was read. `true` means that something was
    /// observed since, and the gauge is to be drawn anew.
    pub fn set_quota(&mut self, snapshot: QuotaSnapshot) -> (moved: bool)
        ensures
            takes_quota(*old(self), *final(self), snapshot, moved),
    {
        if same_snapshot(&self.quota, &snapshot) {
            return false;
        }
        self.quota = snapshot;
        true
    }

    /// A row's full tooltip: what its entry says, plus what its sparkline is.
    pub fn row_tooltip(&self, env: &EnvironmentId, activity: &str) -> (out: String)
        ensures
            row_says(*self, env@, activity@, out@),
    {
        let mut i: usize = 0;
        assert(self.shown@.subrange(0, self.shown@.len() as int) =~= self.shown@);
        while i < self.shown.len()
            invariant
                i <= self.shown@.len(),
                entry_at(self.shown@, env@) == match entry_at(
                    self.shown@.subrange(i as int, self.shown@.len() as int),
                    env@,
                ) {
                    Some(k) => Some(k + i),
                    None => None,
                },
            decreases self.shown@.len() - i,
        {
            let ghost rest = self.shown@.subrange(i as int, self.shown@.len() as int);
            if self.shown[i].env.same_as(env) {
                assert(rest[0].env@ == env@);
                let text = self.shown[i].tooltip();
                return concat3(text.as_str(), "\n", activity);
            }
            assert(rest.subrange(1, rest.len() as int) =~= self.shown@.subrange(
                i + 1,
                self.shown@.len() as int,
            ));
            i += 1;
        }
        activity.to_owned()
    }

    /// Rebuild the list, if what it would say has changed. `force` is for the
    /// filter, whose text is not part of an entry. `None` leaves the list and
    /// its rows alone.
    pub fn rebuild(&mut self, query: &str, force: bool) -> (out: Option<Listing>)
        ensures
            relists(out, *old(self), *final(self), query@, force),
            describes(final(self).shown@, final(self).rows@, final(self).aim()),
            *final(self) == (EnvPanel {
                shown: final(self).shown,
                listed: final(self).listed,
                ..*old(self)
            }),
    {
        let aimed = self.current.as_ref();
        assert(aim_view(aimed) == self.aim());
        let fresh = entries(&self.rows, aimed);
        let ghost rows = self.rows@;
        if !force {
            if same_entries(&self.shown, &fresh) {
                assert forall|i: int| 0 <= i < rows.len() implies entry_of(
                    #[trigger] self.shown@[i],
                    rows[i],
                    self.aim(),
                ) by {
                    assert(reads_the_same(self.shown@[i], fresh@[i]));
                }
                return None;
            }
            proof {
                if describes(self.shown@, rows, self.aim()) {
                    assert forall|i: int| 0 <= i < self.shown@.len() implies reads_the_same(
                        #[trigger] self.shown@[i],
                        fresh@[i],
                    ) by {
                        assert(entry_of(fresh@[i], rows[i], self.aim()));
                    }
                }
            }
        }
        let mut visible: Vec<usize> = Vec::new();
        let mut listed: Vec<EnvironmentId> = Vec::new();
        let mut selected: Option<usize> = None;
        let mut sum: i32 = 0;
        let mut counted: usize = 0;
        let ghost all = fresh@;
        let mut i: usize = 0;
        assert(slugs(listed@) =~= entry_slugs(visible_entries(all.take(0), query@)));
        while i < fresh.len()
            invariant
                slugs(listed@) == entry_slugs(visible_entries(all.take(i as int), query@)),
                fresh@ == all,
                i <= fresh@.len(),
                visible@ == surviving(all.take(i as int), query@),
                visible@.len() == visible_entries(all.take(i as int), query@).len(),
                visible@.len() <= i,
                match selected {
                    Some(k) => selected_of(visible_entries(all.take(i as int), query@)) == Some(
                        k as int,
                    ),
                    None => selected_of(visible_entries(all.take(i as int), query@)) is None,
                },
                counted == if visible@.len() < VISIBLE_ROWS {
                    visible@.len() as int
                } else {
                    VISIBLE_ROWS as int
                },
                sum == rows_height(visible_entries(all.take(i as int), query@), counted as int),
                0 <= sum <= 45 * counted,
            decreases fresh@.len() - i,
        {
            let ghost before = visible_entries(all.take(i as int), query@);
            assert(all.take(i + 1).drop_last() =~= all.take(i as int));
            assert(all.take(i + 1).last() == fresh@[i as int]);
            if matches(&fresh[i], query) {
                let ghost after = before.push(fresh@[i as int]);
                assert(after.drop_last() =~= before);
                if fresh[i].current {
                    selected = Some(visible.len());
                }
                visible.push(i);
                let ghost named = listed@;
                listed.push(fresh[i].env.clone());
                assert(slugs(listed@) =~= slugs(named).push(fresh@[i as int].env@));
                assert(entry_slugs(after) =~= entry_slugs(before).push(fresh@[i as int].env@));
                proof {
                    lemma_rows_height_prefix(before, after, counted as int);
                }
                if counted < VISIBLE_ROWS as usize {
                    sum = sum + ROW_HEIGHT;
                    if fresh[i].working_on.is_some() {
                        sum = sum + CAPTION_HEIGHT;
                    }
                    counted = counted + 1;
                }
            }
            i += 1;
        }
        assert(all.take(i as int) =~= all);
        let height = if sum < ROW_HEIGHT {
            ROW_HEIGHT
        } else {
            sum
        };
        let listing = Listing { filter: filter_visible(fresh.len()), visible, height, selected };
        self.shown = fresh;
        self.listed = listed;
        Some(listing)
    }
}

proof fn lemma_rows_height_prefix(a: Seq<Entry>, b: Seq<Entry>, n: int)
    requires
        0 <= n <= a.len() <= b.len(),
        forall|i: int| 0 <= i < a.len() ==> a[i] == b[i],
    ensures
        rows_height(a, n) == rows_height(b, n),
    decreases n,
{
    if n > 0 {
        lemma_rows_height_prefix(a, b, n - 1);
    }
}

/// The panel was aimed.
pub open spec fn aims_at(
    before: EnvPanel,
    after: EnvPanel,
    current: Option<EnvironmentId>,
    query: Seq<char>,
    out: Option<Redraw>,
) -> bool {
    &&& out is None <==> before.aim() == match current {
        Some(env) => Some(env@),
        None => None,
    }
    &&& out is None ==> after == before
    &&& out matches Some(redraw) ==> {
        &&& redraw.away == is_away(after.rows@, after.aim())
        &&& relists(redraw.listing, before, after, query, false)
        &&& after == (EnvPanel {
            current,
            shown: after.shown,
            listed: after.listed,
            ..before
        })
    }
}

/// The panel was given the fleet.
pub open spec fn takes_rows(
    before: EnvPanel,
    after: EnvPanel,
    rows: Vec<FleetRow>,
    query: Seq<char>,
    out: Option<(Vec<EnvironmentId>, Redraw)>,
) -> bool {
    &&& out is None <==> fleets_agree(before.rows@, rows@)
    &&& out is None ==> after == before
    &&& out matches Some((live, redraw)) ==> {
        &&& live@.len() == rows@.len()
        &&& forall|i: int| 0 <= i < rows@.len() ==> (#[trigger] live@[i]) == rows@[i].env
        &&& redraw.away == is_away(after.rows@, after.aim())
        &&& relists(redraw.listing, before, after, query, false)
        &&& after == (EnvPanel {
            rows,
            shown: after.shown,
            listed: after.listed,
            ..before
        })
    }
}

/// The account's limit state was read.
pub open spec fn takes_quota(before: EnvPanel, after: EnvPanel, snapshot: QuotaSnapshot, moved: bool) -> bool {
    &&& moved == !snapshots_agree(before.quota, snapshot)
    &&& !moved ==> after == before
    &&& moved ==> after == (EnvPanel { quota: snapshot, ..before })
}

/// A row was activated.
pub open spec fn activates(panel: EnvPanel, index: usize, out: Option<EnvironmentId>) -> bool {
    &&& match out {
        Some(env) => index < panel.listed@.len() && env == panel.listed@[index as int],
        None => index >= panel.listed@.len(),
    }
}

/// Where the keyboard goes.
#[derive(Debug, Clone, Copy, PartialEq, Eq, Structural)]
pub enum FocusMove {
    /// Into the filter.
    Filter,
    /// Onto this row.
    Row(usize),
    /// Nowhere: there is nothing to focus.
    Stay,
}

/// The place of an environment among the listed rows.
pub open spec fn place_of(listed: Seq<EnvironmentId>, slug: Seq<char>) -> Option<int>
    decreases listed.len(),
{
    if listed.len() == 0 {
        None
    } else if listed[0]@ == slug {
        Some(0)
    } else {
        match place_of(listed.subrange(1, listed.len() as int), slug) {
            Some(i) => Some(i + 1),
            None => None,
        }
    }
}

/// Where the keyboard goes: into the filter first where there is one, else to
/// the row the panes are aimed at, else on down the list, wrapping.
pub open spec fn focus_shown(
    filter: bool,
    filter_focused: bool,
    listed: Seq<EnvironmentId>,
    focused: Option<usize>,
    aimed: Option<Seq<char>>,
) -> FocusMove {
    if filter && !filter_focused {
        FocusMove::Filter
    } else if listed.len() == 0 {
        FocusMove::Stay
    } else {
        match focused {
            Some(i) => FocusMove::Row(((i + 1) % listed.len() as int) as usize),
            None => match aimed {
                Some(slug) => match place_of(listed, slug) {
                    Some(i) => FocusMove::Row(i as usize),
                    None => FocusMove::Row(0),
                },
                None => FocusMove::Row(0),
            },
        }
    }
}

fn find_place(listed: &Vec<EnvironmentId>, env: &EnvironmentId) -> (out: Option<usize>)
    ensures
        match out {
            Some(i) => i < listed@.len() && place_of(listed@, env@) == Some(i as int),
            None => place_of(listed@, env@) is None,
        },
{
    let mut i: usize = 0;
    assert(listed@.subrange(0, listed@.len() as int) =~= listed@);
    while i < listed.len()
        invariant
            i <= listed@.len(),
            place_of(listed@, env@) == match place_of(
                listed@.subrange(i as int, listed@.len() as int),
                env@,
            ) {
                Some(k) => Some(k + i),
                None => None,
            },
        decreases listed@.len() - i,
    {
        let ghost rest = listed@.subrange(i as int, listed@.len() as int);
        if listed[i].same_as(env) {
            return Some(i);
        }
        assert(rest.subrange(1, rest.len() as int) =~= listed@.subrange(
            i + 1,
            listed@.len() as int,
        ));
        i += 1;
    }
    None
}

fn walk(
    filter: bool,
    filter_focused: bool,
    listed: &Vec<EnvironmentId>,
    focused: Option<usize>,
    aimed: Option<&EnvironmentId>,
) -> (out: FocusMove)
    requires
        focused matches Some(i) ==> i < listed@.len(),
    ensures
        out == focus_shown(filter, filter_focused, listed@, focused, aim_view(aimed)),
        out matches FocusMove::Row(i) ==> i < listed@.len(),
{
    if filter && !filter_focused {
        return FocusMove::Filter;
    }
    let count: usize = listed.len();
    if count == 0 {
        return FocusMove::Stay;
    }
    match focused {
        Some(i) => {
            if i + 1 == count {
                assert((i + 1) % listed@.len() as int == 0) by (nonlinear_arith)
                    requires
                        i + 1 == listed@.len(),
                        listed@.len() > 0,
                ;
                FocusMove::Row(0)
            } else {
                assert((i + 1) % listed@.len() as int == i + 1) by (nonlinear_arith)
                    requires
                        0 <= i + 1 < listed@.len(),
                ;
                FocusMove::Row(i + 1)
            }
        },
        None => match aimed {
            Some(env) => match find_place(listed, env) {
                Some(i) => FocusMove::Row(i),
                None => FocusMove::Row(0),
            },
            None => FocusMove::Row(0),
        },
    }
}

/// The entry of an environment, where it has one.
pub open spec fn entry_at(entries: Seq<Entry>, slug: Seq<char>) -> Option<int>
    decreases entries.len(),
{
    if entries.len() == 0 {
        None
    } else if entries[0].env@ == slug {
        Some(0)
    } else {
        match entry_at(entries.subrange(1, entries.len() as int), slug) {
            Some(i) => Some(i + 1),
            None => None,
        }
    }
}

/// A row's full tooltip.
pub open spec fn row_says(panel: EnvPanel, slug: Seq<char>, activity: Seq<char>, out: Seq<char>) -> bool {
    &&& out == match entry_at(panel.shown@, slug) {
        Some(i) => panel.shown@[i].tooltip_shown() + "\n"@ + activity,
        None => activity,
    }
}

/// What rides on a row beside its name and its light.
#[derive(Debug, PartialEq, Eq)]
pub struct RowMarks {
    /// What this environment is doing, under the name.
    pub caption: Option<String>,
    /// Its chat is waiting for an answer.
    pub attention: bool,
    /// The lock rides the current row alone.
    pub lock: bool,
    pub unpublished: bool,
    pub review_icon: Option<&'static str>,
    pub review_icon_class: &'static str,
    pub review_tooltip: &'static str,
    pub row_class: Option<&'static str>,
}

/// What rides on an entry's row.
pub open spec fn marks(out: RowMarks, entry: Entry) -> bool {
    &&& match (out.caption, entry.working_on) {
        (Some(text), Some(claim)) => text@ == claim.title@,
        (None, None) => true,
        _ => false,
    }
    &&& out.attention == entry.awaits_user
    &&& out.lock == (entry.current && !entry.primary)
    &&& out.unpublished == entry.unpublished
    &&& text_view(out.review_icon) == entry.review.glyph()
    &&& text_view(out.row_class) == entry.review.class()
    &&& out.review_icon_class@ == if entry.review == ReviewMark::Flagged {
        "env-review"@
    } else {
        "dim-label"@
    }
    &&& out.review_tooltip@ == if entry.review == ReviewMark::Flagged {
        "Done, and waiting for your review"@
    } else {
        "You have ruled on this one — safe to destroy"@
    }
}

/// What rides on a row.
pub fn build_row(entry: &Entry) -> (out: RowMarks)
    ensures
        marks(out, *entry),
{
    let caption = match &entry.working_on {
        Some(claim) => Some(claim.title.clone()),
        None => None,
    };
    let flagged = entry.review == ReviewMark::Flagged;
    RowMarks {
        caption,
        attention: entry.awaits_user,
        lock: entry.current && !entry.primary,
        unpublished: entry.unpublished,
        review_icon: entry.review.icon(),
        review_icon_class: if flagged {
            "env-review"
        } else {
            "dim-label"
        },
        review_tooltip: if flagged {
            "Done, and waiting for your review"
        } else {
            "You have ruled on this one — safe to destroy"
        },
        row_class: entry.review.css(),
    }
}

/// How many samples an activity window holds: five minutes of five seconds
/// each.
pub const BUCKETS: usize = 60;

/// The activity shapes a fixture draws, named after what they are of.
#[derive(Debug, Clone, Copy, PartialEq, Eq, Structural)]
pub enum Shape {
    /// An agent mid-task: a warm-up, a long noisy plateau, and a tail.
    Working,
    /// A container building: a burst as each step completes.
    Building,
    /// A person at a keyboard: a low irregular trickle.
    Editing,
    /// An agent that asked a question and has been waiting ever since.
    Waiting,
    /// Nothing at all.
    Silent,
}

/// A small repeatable irregularity below `spread`.
pub open spec fn wobble_of(index: int, spread: int) -> int {
    ((index * 37) % 13) % spread
}

/// The sample a shape has at one place.
pub open spec fn sample_of(shape: Shape, index: int) -> int {
    match shape {
        Shape::Working => if index <= 7 {
            0
        } else if index <= 17 {
            5 + wobble_of(index, 6)
        } else if index <= 46 {
            17 + wobble_of(index, 13) * 2
        } else {
            8 + wobble_of(index, 9)
        },
        Shape::Building => if index == 9 || index == 10 || index == 24 || index == 25 || index
            == 26 || index == 43 || index == 57 || index == 58 {
            4 + wobble_of(index, 8)
        } else {
            0
        },
        Shape::Editing => if index == 4 || index == 5 || index == 13 || index == 21 || index == 22
            || index == 23 || index == 34 || index == 39 || index == 40 || index == 51 || index
            == 52 || index == 53 || index == 54 {
            2 + wobble_of(index, 5)
        } else {
            0
        },
        Shape::Waiting => if index == 6 || index == 7 || index == 15 {
            2 + wobble_of(index, 4)
        } else {
            0
        },
        Shape::Silent => 0,
    }
}

fn wobble(index: usize, spread: u16) -> (out: u16)
    requires
        index < 60,
        1 <= spread <= 13,
    ensures
        out == wobble_of(index as int, spread as int),
        out < spread,
{
    ((index * 37) % 13) as u16 % spread
}

/// A window of a shape.
pub open spec fn is_window(samples: Seq<u16>, shape: Shape) -> bool {
    samples.len() == BUCKETS && forall|i: int|
        0 <= i < BUCKETS ==> (#[trigger] samples[i]) == sample_of(shape, i)
}

/// A fabricated five-minute window, the same every time and shaped by
/// arithmetic, so the wobble reads as measurement.
pub fn probe_samples(shape: Shape) -> (out: Vec<u16>)
    ensures
        is_window(out@, shape),
{
    let mut out: Vec<u16> = Vec::new();
    let mut index: usize = 0;
    while index < BUCKETS
        invariant
            index <= BUCKETS,
            out@.len() == index,
            forall|j: int| 0 <= j < index ==> (#[trigger] out@[j]) == sample_of(shape, j),
        decreases BUCKETS - index,
    {
        let sample: u16 = match shape {
            Shape::Working => {
                if index <= 7 {
                    0
                } else if index <= 17 {
                    5 + wobble(index, 6)
                } else if index <= 46 {
                    17 + wobble(index, 13) * 2
                } else {
                    8 + wobble(index, 9)
                }
            },
            Shape::Building => match index {
                9 | 10 | 24 | 25 | 26 | 43 | 57 | 58 => 4 + wobble(index, 8),
                _ => 0,
            },
            Shape::Editing => match index {
                4 | 5 | 13 | 21 | 22 | 23 | 34 | 39 | 40 | 51 | 52 | 53 | 54 => 2 + wobble(
                    index,
                    5,
                ),
                _ => 0,
            },
            Shape::Waiting => match index {
                6 | 7 | 15 => 2 + wobble(index, 4),
                _ => 0,
            },
            Shape::Silent => 0,
        };
        out.push(sample);
        index += 1;
    }
    out
}

/// With the panes at home the marked rows are the primary's; aimed elsewhere
/// they are that environment's, whatever the order of the list.
pub proof fn the_aim_marks_its_row(
    entry: Entry,
    row: FleetRow,
    current: Option<Seq<char>>,
)
    requires
        entry_of(entry, row, current),
    ensures
        current is None ==> entry.current == row.primary,
        current matches Some(slug) ==> entry.current == (row.env@ == slug),
{
}

proof fn lemma_aimed_row(rows: Seq<FleetRow>, current: Option<Seq<char>>)
    ensures
        match aimed_row(rows, current) {
            Some(i) => 0 <= i < rows.len() && is_aimed_at(rows[i], current) && forall|j: int|
                0 <= j < i ==> !is_aimed_at(#[trigger] rows[j], current),
            None => forall|j: int|
                0 <= j < rows.len() ==> !is_aimed_at(#[trigger] rows[j], current),
        },
    decreases rows.len(),
{
    if rows.len() > 0 && !is_aimed_at(rows[0], current) {
        let rest = rows.subrange(1, rows.len() as int);
        lemma_aimed_row(rest, current);
        match aimed_row(rest, current) {
            Some(i) => {
                assert(rest[i] == rows[i + 1]);
                assert forall|j: int| 0 <= j < i + 1 implies !is_aimed_at(
                    #[trigger] rows[j],
                    current,
                ) by {
                    if j > 0 {
                        assert(rest[j - 1] == rows[j]);
                    }
                }
            },
            None => {
                assert forall|j: int| 0 <= j < rows.len() implies !is_aimed_at(
                    #[trigger] rows[j],
                    current,
                ) by {
                    if j > 0 {
                        assert(rest[j - 1] == rows[j]);
                    }
                }
            },
        }
    }
}

/// The panel speaks of the row the panes are aimed at: its name, its light, its
/// state in words. It is locked and tinted exactly where that row is not the
/// user's own, and home is never either.
pub proof fn the_face_is_of_the_aimed_row(
    face: Face,
    rows: Seq<FleetRow>,
    current: Option<Seq<char>>,
)
    requires
        match aimed_row(rows, current) {
            Some(i) => face_of(face, rows[i]),
            None => face_unknown(face, current),
        },
    ensures
        face.locked == face.away,
        current is None ==> !face.away && face.title@ == "Yours"@,
        current matches Some(slug) ==> ((forall|i: int|
            0 <= i < rows.len() ==> (#[trigger] rows[i]).env@ != slug) ==> face.away && face.title@
            == slug && face.light == Light::Unknown),
        current matches Some(slug) ==> (forall|i: int|
            0 <= i < rows.len() && (#[trigger] rows[i]).env@ == slug && (forall|j: int|
                0 <= j < i ==> (#[trigger] rows[j]).env@ != slug) ==> {
                &&& face.away == !rows[i].primary
                &&& rows[i].primary ==> face.title@ == "Yours"@
                &&& !rows[i].primary ==> face.title@ == rows[i].name@
                &&& face.light == rows[i].light_shown()
                &&& holds_text(face.detail@, rows[i].state_shown())
            }),
        (face.light == Light::Unknown) == (forall|i: int|
            0 <= i < rows.len() ==> !is_aimed_at(#[trigger] rows[i], current)),
{
    lemma_aimed_row(rows, current);
    match aimed_row(rows, current) {
        Some(at) => {
            let row = rows[at];
            crate::fleet::a_row_has_a_light(row);
            assert(is_aimed_at(rows[at], current));
            if row.primary {
                crate::text::lemma_holds_end("Your own checkout\n"@, row.state_shown());
            } else {
                crate::text::lemma_holds_end(
                    "Viewing "@ + title_shown(row)
                        + " — read-only, it is another environment's checkout\n"@,
                    row.state_shown(),
                );
            }
            if current is Some {
                let slug = current->0;
                assert forall|i: int|
                    0 <= i < rows.len() && (#[trigger] rows[i]).env@ == slug && (forall|j: int|
                        0 <= j < i ==> (#[trigger] rows[j]).env@ != slug) implies i == at by {
                    if i < at {
                        assert(is_aimed_at(rows[i], current));
                    }
                    if at < i {
                        assert(rows[at].env@ != slug);
                    }
                }
            }
        },
        None => {
            if current is Some {
                assert forall|i: int| 0 <= i < rows.len() implies (#[trigger] rows[i]).env@
                    != current->0 by {
                    assert(!is_aimed_at(rows[i], current));
                }
            }
        },
    }
}

/// An entry says of its environment what the fleet says: work at risk where its
/// clone holds branches or edits that no one else has and nobody has ruled on
/// it, a chat's turn or question where its chat has one, and the lock's row
/// where the panes are.
pub proof fn an_entry_says_what_its_row_says(
    entry: Entry,
    row: FleetRow,
    current: Option<Seq<char>>,
)
    requires
        entry_of(entry, row, current),
    ensures
        entry.env@ == row.env@ && entry.primary == row.primary,
        row.primary ==> entry.title@ == "Yours"@ && !entry.unpublished,
        !row.primary ==> entry.title@ == row.name@,
        row.git is None ==> !entry.unpublished,
        row.git matches Some(git) ==> (entry.unpublished <==> !row.primary && row.review
            != crate::environment::ReviewState::Merged && row.review
            != crate::environment::ReviewState::Rejected && (git.unpublished > 0 || git.dirty
            > 0)),
        row.chat is None ==> !entry.busy && !entry.awaits_user,
        row.chat matches Some(chat) ==> entry.busy == chat.busy && entry.awaits_user
            == chat.awaits_user,
        entry.awaits_user ==> entry.light != Light::Green,
        entry.review == ReviewMark::Flagged <==> row.review
            == crate::environment::ReviewState::FlaggedForReview,
        entry.working_on is Some <==> row.working_on@.len() > 0,
        entry.working_on matches Some(claim) ==> claim.id@ == row.working_on@[0].id@
            && claim.title@ == row.working_on@[0].title@,
        entry.light == row.light_shown() && entry.detail@ == row.state_shown(),
{
    crate::fleet::a_light_tells_what_runs(row);
}

/// A tooltip says whose the checkout is and what state it is in, what is worked
/// on, and that a question waits rather than that work goes on.
pub proof fn a_tooltip_tells_what_the_row_waits_on(entry: Entry)
    ensures
        begins_with(entry.tooltip_shown(), entry.title@),
        holds_text(entry.tooltip_shown(), entry.detail@),
        entry.primary ==> holds_text(entry.tooltip_shown(), "your own checkout"@),
        !entry.primary ==> holds_text(entry.tooltip_shown(), "read-only to you"@),
        entry.working_on matches Some(claim) ==> holds_text(
            entry.tooltip_shown(),
            claim.id@ + " — "@ + claim.title@,
        ),
        entry.awaits_user ==> holds_text(
            entry.tooltip_shown(),
            "waiting for an answer from you"@,
        ),
        !entry.awaits_user && entry.busy ==> holds_text(
            entry.tooltip_shown(),
            "Its chat is working now"@,
        ),
        entry.review == ReviewMark::Flagged ==> holds_text(
            entry.tooltip_shown(),
            "waiting for your review"@,
        ),
        entry.review == ReviewMark::Settled ==> holds_text(
            entry.tooltip_shown(),
            "safe to destroy"@,
        ),
{
    let says = if entry.primary {
        " — your own checkout\n"@
    } else {
        " — its own clone and devcontainer, read-only to you\n"@
    };
    let work = match entry.working_on {
        Some(claim) => "\nWorking on "@ + claim.id@ + " — "@ + claim.title@,
        None => ""@,
    };
    let chat = if entry.awaits_user {
        "\nIts chat is waiting for an answer from you."@
    } else if entry.busy {
        "\nIts chat is working now."@
    } else {
        ""@
    };
    let arc = match entry.review {
        ReviewMark::Flagged => "\nIt says it is done and is waiting for your review. Its container was stopped because nothing is left to run in it."@,
        ReviewMark::Settled => "\nYou have ruled on this one — it is safe to destroy."@,
        ReviewMark::Unmarked => ""@,
    };
    lemma_tooltip_parts(entry.title@, says, entry.detail@, work, chat, arc);
    let front = entry.title@ + says + entry.detail@ + work;
    let tail = entry.detail@ + work + chat + arc;
    if entry.primary {
        lemma_own_checkout(entry.title@, tail);
    } else {
        lemma_read_only(entry.title@, tail);
    }
    if entry.working_on is Some {
        let claim = entry.working_on->0;
        let said = claim.id@ + " — "@ + claim.title@;
        assert(work =~= "\nWorking on "@ + said);
        let lead = "\nWorking on "@.len() as int;
        assert(work.subrange(lead, lead + said.len()) =~= said);
        crate::text::lemma_holds_within(
            entry.title@ + says + entry.detail@,
            work,
            chat + arc,
            said,
            lead,
        );
    }
    lemma_chat_words(front, arc);
    lemma_arc_words(front + chat);
}

proof fn lemma_tooltip_parts(
    title: Seq<char>,
    says: Seq<char>,
    detail: Seq<char>,
    work: Seq<char>,
    chat: Seq<char>,
    arc: Seq<char>,
)
    ensures
        ({
            let text = title + says + detail + work + chat + arc;
            &&& begins_with(text, title)
            &&& holds_text(text, detail)
            &&& text == title + says + (detail + work + chat + arc)
            &&& text == (title + says + detail) + work + (chat + arc)
            &&& text == (title + says + detail + work) + chat + arc
            &&& text == (title + says + detail + work + chat) + arc + Seq::<char>::empty()
        }),
{
    let text = title + says + detail + work + chat + arc;
    assert(text.subrange(0, title.len() as int) =~= title);
    assert(text =~= title + says + (detail + work + chat + arc));
    assert(text =~= (title + says + detail) + work + (chat + arc));
    assert(text =~= (title + says + detail + work + chat) + arc + Seq::<char>::empty());
    assert(text =~= (title + says) + detail + (work + chat + arc));
    crate::text::lemma_holds_middle(title + says, detail, work + chat + arc);
}

proof fn lemma_own_checkout(before: Seq<char>, after: Seq<char>)
    ensures
        holds_text(before + " — your own checkout\n"@ + after, "your own checkout"@),
{
    let middle = " — your own checkout\n"@;
    let part = "your own checkout"@;
    assert(part.len() == 17 && middle.len() == 21 && middle.subrange(3, 20) =~= part) by {
        reveal_strlit(" — your own checkout\n");
        reveal_strlit("your own checkout");
    }
    crate::text::lemma_holds_within(before, middle, after, part, 3);
}

proof fn lemma_read_only(before: Seq<char>, after: Seq<char>)
    ensures
        holds_text(
            before + " — its own clone and devcontainer, read-only to you\n"@ + after,
            "read-only to you"@,
        ),
{
    let middle = " — its own clone and devcontainer, read-only to you\n"@;
    let part = "read-only to you"@;
    assert(part.len() == 16 && middle.len() == 52 && middle.subrange(35, 51) =~= part) by {
        reveal_strlit(" — its own clone and devcontainer, read-only to you\n");
        reveal_strlit("read-only to you");
    }
    crate::text::lemma_holds_within(before, middle, after, part, 35);
}

proof fn lemma_chat_words(before: Seq<char>, after: Seq<char>)
    ensures
        holds_text(
            before + "\nIts chat is waiting for an answer from you."@ + after,
            "waiting for an answer from you"@,
        ),
        holds_text(before + "\nIts chat is working now."@ + after, "Its chat is working now"@),
{
    let asks = "\nIts chat is waiting for an answer from you."@;
    let asking = "waiting for an answer from you"@;
    assert(asking.len() == 30 && asks.len() == 44 && asks.subrange(13, 43) =~= asking) by {
        reveal_strlit("\nIts chat is waiting for an answer from you.");
        reveal_strlit("waiting for an answer from you");
    }
    crate::text::lemma_holds_within(before, asks, after, asking, 13);
    let works = "\nIts chat is working now."@;
    let working = "Its chat is working now"@;
    assert(working.len() == 23 && works.len() == 25 && works.subrange(1, 24) =~= working) by {
        reveal_strlit("\nIts chat is working now.");
        reveal_strlit("Its chat is working now");
    }
    crate::text::lemma_holds_within(before, works, after, working, 1);
}

proof fn lemma_arc_words(before: Seq<char>)
    ensures
        holds_text(
            before
                + "\nIt says it is done and is waiting for your review. Its container was stopped because nothing is left to run in it."@
                + Seq::<char>::empty(),
            "waiting for your review"@,
        ),
        holds_text(
            before + "\nYou have ruled on this one — it is safe to destroy."@ + Seq::<
                char,
            >::empty(),
            "safe to destroy"@,
        ),
{
    let done = "\nIt says it is done and is waiting for your review. Its container was stopped because nothing is left to run in it."@;
    let waits = "waiting for your review"@;
    assert(waits.len() == 23 && done.len() >= 50 && done.subrange(27, 50) =~= waits) by {
        reveal_strlit(
            "\nIt says it is done and is waiting for your review. Its container was stopped because nothing is left to run in it.",
        );
        reveal_strlit("waiting for your review");
    }
    crate::text::lemma_holds_within(before, done, Seq::empty(), waits, 27);
    let ruled = "\nYou have ruled on this one — it is safe to destroy."@;
    let safe = "safe to destroy"@;
    assert(safe.len() == 15 && ruled.len() == 52 && ruled.subrange(36, 51) =~= safe) by {
        reveal_strlit("\nYou have ruled on this one — it is safe to destroy.");
        reveal_strlit("safe to destroy");
    }
    crate::text::lemma_holds_within(before, ruled, Seq::empty(), safe, 36);
}

/// What a filter leaves on screen is every entry that survives it and no other,
/// in their order, and the places it names are theirs.
pub proof fn a_filter_leaves_what_survives(entries: Seq<Entry>, query: Seq<char>)
    requires
        entries.len() <= usize::MAX,
    ensures
        surviving(entries, query).len() == visible_entries(entries, query).len(),
        forall|k: int|
            0 <= k < surviving(entries, query).len() ==> {
                &&& (#[trigger] surviving(entries, query)[k]) < entries.len()
                &&& visible_entries(entries, query)[k] == entries[surviving(entries, query)[k] as int]
                &&& survives(entries[surviving(entries, query)[k] as int], query)
            },
        forall|j: int, k: int|
            0 <= j < k < surviving(entries, query).len() ==> (#[trigger] surviving(
                entries,
                query,
            )[j]) < (#[trigger] surviving(entries, query)[k]),
        forall|i: int|
            0 <= i < entries.len() && survives(#[trigger] entries[i], query) ==> surviving(
                entries,
                query,
            ).contains(i as usize),
    decreases entries.len(),
{
    if entries.len() > 0 {
        let rest = entries.drop_last();
        let before = surviving(rest, query);
        let all = surviving(entries, query);
        a_filter_leaves_what_survives(rest, query);
        assert forall|i: int| 0 <= i < entries.len() && survives(#[trigger] entries[i], query) implies all.contains(
        i as usize) by {
            if i < rest.len() {
                assert(rest[i] == entries[i]);
                assert(before.contains(i as usize));
                let k = choose|k: int| 0 <= k < before.len() && before[k] == i as usize;
                assert(all[k] == i as usize);
            } else {
                assert(all[all.len() - 1] == i as usize);
            }
        }
    }
}

/// The row that is selected is the one the panes are aimed at, and where one is
/// on screen one is selected.
pub proof fn the_aimed_row_is_selected(entries: Seq<Entry>)
    ensures
        match selected_of(entries) {
            Some(i) => 0 <= i < entries.len() && entries[i].current,
            None => forall|i: int| 0 <= i < entries.len() ==> !(#[trigger] entries[i]).current,
        },
    decreases entries.len(),
{
    if entries.len() > 0 && !entries.last().current {
        let rest = entries.drop_last();
        the_aimed_row_is_selected(rest);
        if selected_of(rest) is None {
            assert forall|i: int| 0 <= i < entries.len() implies !(#[trigger] entries[i]).current by {
                if i < rest.len() {
                    assert(rest[i] == entries[i]);
                }
            }
        }
    }
}

proof fn lemma_place_of(listed: Seq<EnvironmentId>, slug: Seq<char>)
    ensures
        match place_of(listed, slug) {
            Some(i) => 0 <= i < listed.len() && listed[i]@ == slug,
            None => forall|i: int| 0 <= i < listed.len() ==> (#[trigger] listed[i])@ != slug,
        },
    decreases listed.len(),
{
    if listed.len() > 0 && listed[0]@ != slug {
        let rest = listed.subrange(1, listed.len() as int);
        lemma_place_of(rest, slug);
        if place_of(rest, slug) is None {
            assert forall|i: int| 0 <= i < listed.len() implies (#[trigger] listed[i])@ != slug by {
                if i > 0 {
                    assert(rest[i - 1] == listed[i]);
                }
            }
        }
    }
}

/// The keyboard enters at the filter where there is one, then at the row the
/// panes are aimed at where it is listed, and walks down row by row, from the
/// last back to the first; it never leaves the list.
pub proof fn the_keyboard_walks_the_list(
    filter: bool,
    filter_focused: bool,
    listed: Seq<EnvironmentId>,
    focused: Option<usize>,
    aimed: Option<Seq<char>>,
)
    requires
        listed.len() <= usize::MAX,
        focused matches Some(i) ==> i < listed.len(),
    ensures
        focus_shown(filter, filter_focused, listed, focused, aimed) == FocusMove::Filter <==> filter
            && !filter_focused,
        focus_shown(filter, filter_focused, listed, focused, aimed) matches FocusMove::Row(i)
            ==> i < listed.len(),
        !(filter && !filter_focused) && listed.len() > 0 ==> focus_shown(
            filter,
            filter_focused,
            listed,
            focused,
            aimed,
        ) is Row,
        !(filter && !filter_focused) ==> (focused matches Some(i) ==> {
            &&& i + 1 < listed.len() ==> focus_shown(filter, filter_focused, listed, focused, aimed)
                == FocusMove::Row((i + 1) as usize)
            &&& i + 1 == listed.len() ==> focus_shown(filter, filter_focused, listed, focused, aimed)
                == FocusMove::Row(0)
        }),
        !(filter && !filter_focused) && focused is None ==> (aimed matches Some(slug) ==> ((exists|
            i: int,
        |
            0 <= i < listed.len() && (#[trigger] listed[i])@ == slug) ==> (focus_shown(
            filter,
            filter_focused,
            listed,
            focused,
            aimed,
        ) matches FocusMove::Row(i) && listed[i as int]@ == slug))),
{
    if aimed is Some {
        lemma_place_of(listed, aimed->0);
    }
    if focused is Some {
        let next = focused->0 + 1;
        if next < listed.len() {
            vstd::arithmetic::div_mod::lemma_small_mod(next as nat, listed.len());
        } else {
            vstd::arithmetic::div_mod::lemma_mod_self_0(listed.len() as int);
        }
    }
}

/// The lock and the mark of waiting ride where they belong: the lock on the row
/// the panes are aimed at, where it is not the user's own, the question on the
/// row whose chat asks, and the review's glyph on the rows in the arc.
pub proof fn a_row_wears_its_marks(out: RowMarks, entry: Entry)
    requires
        marks(out, entry),
    ensures
        out.lock <==> entry.current && !entry.primary,
        out.attention <==> entry.awaits_user,
        out.unpublished <==> entry.unpublished,
        out.caption is Some <==> entry.working_on is Some,
        out.caption matches Some(text) ==> (entry.working_on matches Some(claim) && text@
            == claim.title@),
        out.review_icon is None <==> entry.review == ReviewMark::Unmarked,
        out.row_class is None <==> entry.review == ReviewMark::Unmarked,
        entry.review == ReviewMark::Flagged ==> text_view(out.row_class) == Some("review-flagged"@)
            && out.review_tooltip@ == "Done, and waiting for your review"@
            && out.review_icon_class@ == "env-review"@,
        entry.review == ReviewMark::Settled ==> text_view(out.row_class) == Some("review-settled"@)
            && out.review_tooltip@ == "You have ruled on this one — safe to destroy"@
            && out.review_icon_class@ == "dim-label"@,
{
}

/// What a rebuild leaves on screen is the fleet under the filter, and a list is
/// left alone only where it already says what the fleet says.
pub proof fn a_list_shows_the_fleet(
    out: Option<Listing>,
    before: EnvPanel,
    after: EnvPanel,
    query: Seq<char>,
    force: bool,
)
    requires
        relists(out, before, after, query, force),
        describes(after.shown@, after.rows@, after.aim()),
        after.shown@.len() <= usize::MAX,
    ensures
        force ==> out is Some,
        !describes(before.shown@, after.rows@, after.aim()) ==> out is Some,
        out is None ==> after.shown == before.shown && after.listed == before.listed,
        out matches Some(listing) ==> {
            &&& listing.filter <==> after.rows@.len() > 6
            &&& listing.visible@.len() == after.listed@.len()
            &&& forall|k: int|
                0 <= k < after.listed@.len() ==> (#[trigger] after.listed@[k])@
                    == after.rows@[listing.visible@[k] as int].env@
            &&& listing.selected matches Some(k) ==> k < after.listed@.len() && is_aimed_at(
                after.rows@[listing.visible@[k as int] as int],
                after.aim(),
            )
        },
{
    if out is Some {
        let listing = out->0;
        let visible = visible_entries(after.shown@, query);
        a_filter_leaves_what_survives(after.shown@, query);
        the_aimed_row_is_selected(visible);
        assert(slugs(after.listed@).len() == after.listed@.len());
        assert forall|k: int| 0 <= k < after.listed@.len() implies (#[trigger] after.listed@[k])@
            == after.rows@[listing.visible@[k] as int].env@ by {
            assert(slugs(after.listed@)[k] == after.listed@[k]@);
            assert(entry_slugs(visible)[k] == visible[k].env@);
            let at = surviving(after.shown@, query)[k] as int;
            assert(entry_of(after.shown@[at], after.rows@[at], after.aim()));
        }
        if listing.selected is Some {
            let k = listing.selected->0 as int;
            let at = surviving(after.shown@, query)[k] as int;
            assert(entry_of(after.shown@[at], after.rows@[at], after.aim()));
        }
    }
}

/// The list is as tall as the rows it shows: a row without a work line costs
/// the same as any other, one with a line costs the line more, and past the
/// sixth no row costs anything.
pub proof fn a_list_is_as_tall_as_its_rows(entries: Seq<Entry>)
    ensures
        (forall|i: int| 0 <= i < entries.len() ==> (#[trigger] entries[i]).working_on is None)
            && 1 <= entries.len() <= 6 ==> height_of(entries) == 30 * entries.len(),
        (forall|i: int| 0 <= i < entries.len() ==> (#[trigger] entries[i]).working_on is Some)
            && 1 <= entries.len() <= 6 ==> height_of(entries) == 45 * entries.len(),
        entries.len() == 0 ==> height_of(entries) == 30,
        entries.len() > 6 ==> height_of(entries) == height_of(entries.subrange(0, 6)),
{
    reveal_with_fuel(rows_height, 8);
    if entries.len() > 6 {
        let six = entries.subrange(0, 6);
        assert(forall|i: int| 0 <= i < 6 ==> six[i] == entries[i]);
    }
}

/// Aiming the panel where it is aimed changes nothing; anywhere else it takes
/// the aim, and tints itself exactly where that is not home.
pub proof fn an_aim_is_taken(
    before: EnvPanel,
    after: EnvPanel,
    current: Option<EnvironmentId>,
    query: Seq<char>,
    out: Option<Redraw>,
)
    requires
        aims_at(before, after, current, query, out),
    ensures
        current is None ==> after.aim() is None,
        current matches Some(env) ==> after.aim() == Some(env@),
        out is None <==> before.aim() == after.aim(),
        out is None ==> after == before,
        after.rows == before.rows && after.quota == before.quota,
        current is None ==> (out matches Some(redraw) ==> !redraw.away),
        out matches Some(redraw) ==> (redraw.away <==> is_away(after.rows@, after.aim())),
{
    lemma_aimed_row(after.rows@, after.aim());
}

/// Home is never away, and elsewhere is wherever the row aimed at is not the
/// user's own, or no row answers.
pub proof fn home_is_not_away(rows: Seq<FleetRow>, current: Option<Seq<char>>)
    ensures
        current is None ==> !is_away(rows, current),
        (forall|i: int| 0 <= i < rows.len() ==> !is_aimed_at(#[trigger] rows[i], current)) ==> (
        is_away(rows, current) <==> current is Some),
        forall|i: int|
            0 <= i < rows.len() && is_aimed_at(#[trigger] rows[i], current) && (forall|j: int|
                0 <= j < i ==> !is_aimed_at(#[trigger] rows[j], current)) ==> (is_away(rows, current)
                <==> !rows[i].primary),
{
    lemma_aimed_row(rows, current);
    if let Some(at) = aimed_row(rows, current) {
        assert forall|i: int|
            0 <= i < rows.len() && is_aimed_at(#[trigger] rows[i], current) && (forall|j: int|
                0 <= j < i ==> !is_aimed_at(#[trigger] rows[j], current)) implies (is_away(
            rows,
            current,
        ) <==> !rows[i].primary) by {
            if at < i {
                assert(!is_aimed_at(rows[at], current));
            }
            if i < at {
                assert(!is_aimed_at(rows[i], current));
            }
        }
    }
}

/// The fleet is taken wherever it says something new, and the environments that
/// are left are its own, in order.
pub proof fn a_fleet_is_taken(
    before: EnvPanel,
    after: EnvPanel,
    rows: Vec<FleetRow>,
    query: Seq<char>,
    out: Option<(Vec<EnvironmentId>, Redraw)>,
)
    requires
        takes_rows(before, after, rows, query, out),
    ensures
        out is None ==> after == before && before.rows@.len() == rows@.len(),
        before.rows@.len() != rows@.len() ==> out is Some,
        out is Some ==> after.rows == rows,
        after.current == before.current && after.quota == before.quota,
        out matches Some((live, _)) ==> live@.len() == rows@.len() && forall|i: int|
            0 <= i < rows@.len() ==> (#[trigger] live@[i])@ == rows@[i].env@,
{
}

/// The gauge is drawn anew exactly when something was observed since.
pub proof fn a_gauge_is_drawn_anew(
    before: EnvPanel,
    after: EnvPanel,
    snapshot: QuotaSnapshot,
    moved: bool,
)
    requires
        takes_quota(before, after, snapshot, moved),
    ensures
        moved ==> after.quota == snapshot,
        !moved ==> after == before,
        before.quota.observed_at != snapshot.observed_at ==> moved,
        before.quota == snapshot ==> !moved,
        after.rows == before.rows && after.current == before.current,
{
}

/// A row that is activated is the environment listed there, and no row is where
/// none is listed.
pub proof fn a_row_activates_its_environment(
    panel: EnvPanel,
    index: usize,
    out: Option<EnvironmentId>,
)
    requires
        activates(panel, index, out),
    ensures
        out is Some <==> index < panel.listed@.len(),
        out matches Some(env) ==> env@ == panel.listed@[index as int]@,
{
}

/// Where the panes are aimed is an environment of its own: the one named, or
/// the row that is the user's own.
pub proof fn home_has_a_row(panel: EnvPanel)
    ensures
        panel.current matches Some(env) ==> panel.aimed_slug() == Some(env@),
        panel.current is None ==> match panel.aimed_slug() {
            Some(slug) => exists|i: int|
                0 <= i < panel.rows@.len() && (#[trigger] panel.rows@[i]).primary
                    && panel.rows@[i].env@ == slug,
            None => forall|i: int|
                0 <= i < panel.rows@.len() ==> !(#[trigger] panel.rows@[i]).primary,
        },
{
    lemma_aimed_row(panel.rows@, None);
    if panel.current is None {
        match aimed_row(panel.rows@, None) {
            Some(i) => {
                assert(is_aimed_at(panel.rows@[i], None));
            },
            None => {
                assert forall|i: int| 0 <= i < panel.rows@.len() implies !(
                #[trigger] panel.rows@[i]).primary by {
                    assert(!is_aimed_at(panel.rows@[i], None));
                }
            },
        }
    }
}

proof fn lemma_entry_at(entries: Seq<Entry>, slug: Seq<char>)
    ensures
        match entry_at(entries, slug) {
            Some(i) => 0 <= i < entries.len() && entries[i].env@ == slug,
            None => forall|i: int| 0 <= i < entries.len() ==> (#[trigger] entries[i]).env@ != slug,
        },
    decreases entries.len(),
{
    if entries.len() > 0 && entries[0].env@ != slug {
        let rest = entries.subrange(1, entries.len() as int);
        lemma_entry_at(rest, slug);
        assert forall|i: int| 0 < i < entries.len() implies entries[i] == rest[i - 1] by {
        }
        if entry_at(rest, slug) is None {
            assert forall|i: int| 0 <= i < entries.len() implies (#[trigger] entries[i]).env@
                != slug by {
                if i > 0 {
                    assert(rest[i - 1].env@ != slug);
                }
            }
        }
    }
}

/// A row's tooltip ends with its activity, and says before it what the entry of
/// that very environment says.
pub proof fn a_rows_tooltip_is_its_own(
    panel: EnvPanel,
    slug: Seq<char>,
    activity: Seq<char>,
    out: Seq<char>,
)
    requires
        row_says(panel, slug, activity, out),
    ensures
        holds_text(out, activity),
        (forall|i: int| 0 <= i < panel.shown@.len() ==> (#[trigger] panel.shown@[i]).env@ != slug)
            ==> out == activity,
        (exists|i: int| 0 <= i < panel.shown@.len() && (#[trigger] panel.shown@[i]).env@ == slug)
            ==> exists|i: int|
            0 <= i < panel.shown@.len() && (#[trigger] panel.shown@[i]).env@ == slug && begins_with(
                out,
                panel.shown@[i].tooltip_shown(),
            ),
{
    lemma_entry_at(panel.shown@, slug);
    match entry_at(panel.shown@, slug) {
        Some(i) => {
            let said = panel.shown@[i].tooltip_shown();
            crate::text::lemma_holds_end(said + "\n"@, activity);
            assert(out.subrange(0, said.len() as int) =~= said);
            assert(panel.shown@[i].env@ == slug);
        },
        None => {
            assert(out =~= Seq::<char>::empty() + activity);
            crate::text::lemma_holds_end(Seq::empty(), activity);
        },
    }
}

/// Entries that read the same say the same in every place a row has: its name,
/// its light, its marks and its tooltip. An entry reads the same as itself.
pub proof fn entries_that_read_the_same_look_the_same(a: Entry, b: Entry)
    ensures
        reads_the_same(a, a),
        reads_the_same(a, b) ==> a.tooltip_shown() == b.tooltip_shown() && a.title@ == b.title@
            && a.light == b.light && a.env@ == b.env@,
        reads_the_same(a, b) ==> (a.current == b.current && a.unpublished == b.unpublished
            && a.review == b.review && a.awaits_user == b.awaits_user && a.busy == b.busy
            && a.primary == b.primary),
        reads_the_same(a, b) ==> (a.working_on is Some <==> b.working_on is Some),
        reads_the_same(a, b) ==> (a.working_on matches Some(x) ==> (b.working_on matches Some(y)
            && x.title@ == y.title@ && x.id@ == y.id@)),
{
}

/// A fabricated window tells its shape: an agent at work ends busy, one that
/// waits has fallen silent long since, a silent one never stirs, and no sample
/// is more than a window can show.
pub proof fn a_window_tells_its_shape(shape: Shape, i: int)
    requires
        0 <= i < 60,
    ensures
        shape == Shape::Silent ==> sample_of(shape, i) == 0,
        shape == Shape::Working && i > 7 ==> sample_of(shape, i) >= 5,
        shape == Shape::Working && i <= 7 ==> sample_of(shape, i) == 0,
        shape == Shape::Waiting && i > 15 ==> sample_of(shape, i) == 0,
        0 <= sample_of(shape, i) <= 41,
        forall|spread: int|
            1 <= spread ==> 0 <= #[trigger] wobble_of(i, spread) < spread && wobble_of(i, spread)
                < 13,
{
    assert forall|spread: int| 1 <= spread implies 0 <= #[trigger] wobble_of(i, spread) < spread
        && wobble_of(i, spread) < 13 by {
        let m = (i * 37) % 13;
        assert(0 <= m < 13);
        assert(0 <= m % spread < spread && m % spread <= m) by (nonlinear_arith)
            requires
                0 <= m < 13,
                spread >= 1,
        ;
    }
    assert(0 <= wobble_of(i, 6) < 6);
    assert(0 <= wobble_of(i, 13) < 13);
    assert(0 <= wobble_of(i, 9) < 9);
    assert(0 <= wobble_of(i, 8) < 8);
    assert(0 <= wobble_of(i, 5) < 5);
    assert(0 <= wobble_of(i, 4) < 4);
}

} // verus!
