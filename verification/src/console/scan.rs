//! Searching every terminal's scrollback.
//!
//! Scrollback is read in bounded chunks, one per frame. Every terminal is
//! scanned, for the counts that the environments' rows wear; only the tab on
//! screen is listed.

use vstd::prelude::*;
use crate::console::facts::Console;
use crate::console::shells::page_numbers;
use crate::environment::EnvironmentId;
use crate::text::{concat2, decimal, decimal_of};

verus! {

/// Rows of scrollback read per frame.
pub const SCROLLBACK_CHUNK_ROWS: i64 = 400;

/// Rows of scrollback a find reads per terminal, from the end.
pub const FIND_ROWS_PER_TERMINAL: i64 = 5000;

/// How many hits are listed per terminal.
pub const LISTED_PER_TERMINAL: usize = 300;

/// No terminal has a row as high as this.
pub const ROW_LIMIT: i64 = 0x4000_0000_0000_0000;

/// The rows a terminal holds: from `lo`, up to but not `hi`.
#[derive(Debug, Clone, Copy, PartialEq, Eq, Structural)]
pub struct Rows {
    pub lo: i64,
    pub hi: i64,
}

impl Rows {
    /// How many there are.
    pub open spec fn count(self) -> int {
        if self.lo < self.hi {
            self.hi - self.lo
        } else {
            0
        }
    }

    /// Row numbers that a terminal can have.
    pub open spec fn fits(self) -> bool {
        0 <= self.lo < ROW_LIMIT && self.hi < ROW_LIMIT
    }
}

/// The rows of the first `n` terminals.
pub open spec fn rows_in(ranges: Seq<Rows>, n: int) -> int
    decreases n,
{
    if n <= 0 {
        0
    } else {
        rows_in(ranges, n - 1) + ranges[n - 1].count()
    }
}

proof fn lemma_rows_in_grows(ranges: Seq<Rows>, a: int, b: int)
    requires
        0 <= a <= b,
    ensures
        0 <= rows_in(ranges, a) <= rows_in(ranges, b),
    decreases b,
{
    if b > 0 {
        if a < b {
            lemma_rows_in_grows(ranges, a, b - 1);
        } else {
            lemma_rows_in_grows(ranges, a - 1, b - 1);
        }
    }
}

/// The hits of one environment.
pub open spec fn count_for(counts: Seq<(EnvironmentId, usize)>, slug: Seq<char>) -> nat
    decreases counts.len(),
{
    if counts.len() == 0 {
        0
    } else if counts.last().0@ == slug {
        counts.last().1 as nat
    } else {
        count_for(counts.drop_last(), slug)
    }
}

/// All hits together.
pub open spec fn counted(counts: Seq<(EnvironmentId, usize)>) -> nat
    decreases counts.len(),
{
    if counts.len() == 0 {
        0
    } else {
        counted(counts.drop_last()) + counts.last().1 as nat
    }
}

/// No environment is counted twice.
pub open spec fn counts_are_distinct(counts: Seq<(EnvironmentId, usize)>) -> bool {
    forall|i: int, j: int|
        0 <= i < j < counts.len() ==> (#[trigger] counts[i]).0@ != (#[trigger] counts[j]).0@
}

proof fn lemma_counted_update(counts: Seq<(EnvironmentId, usize)>, i: int, n: usize)
    requires
        0 <= i < counts.len(),
    ensures
        counted(counts.update(i, (counts[i].0, n))) == counted(counts) - counts[i].1 + n,
        counts[i].1 <= counted(counts),
    decreases counts.len(),
{
    let after = counts.update(i, (counts[i].0, n));
    if i == counts.len() - 1 {
        assert(after.drop_last() =~= counts.drop_last());
    } else {
        lemma_counted_update(counts.drop_last(), i, n);
        assert(after.drop_last() =~= counts.drop_last().update(i, (counts[i].0, n)));
    }
}

proof fn lemma_count_for_update(
    counts: Seq<(EnvironmentId, usize)>,
    i: int,
    n: usize,
    slug: Seq<char>,
)
    requires
        0 <= i < counts.len(),
        counts_are_distinct(counts),
    ensures
        count_for(counts.update(i, (counts[i].0, n)), slug) == if counts[i].0@ == slug {
            n as nat
        } else {
            count_for(counts, slug)
        },
        counts[i].0@ == slug ==> count_for(counts, slug) == counts[i].1,
    decreases counts.len(),
{
    let after = counts.update(i, (counts[i].0, n));
    if i == counts.len() - 1 {
        assert(after.drop_last() =~= counts.drop_last());
    } else {
        lemma_count_for_update(counts.drop_last(), i, n, slug);
        assert(after.drop_last() =~= counts.drop_last().update(i, (counts[i].0, n)));
        assert(counts[i].0@ != counts.last().0@);
    }
}

proof fn lemma_count_for_absent(counts: Seq<(EnvironmentId, usize)>, slug: Seq<char>)
    requires
        forall|i: int| 0 <= i < counts.len() ==> (#[trigger] counts[i]).0@ != slug,
    ensures
        count_for(counts, slug) == 0,
    decreases counts.len(),
{
    if counts.len() > 0 {
        assert(counts[counts.len() - 1].0@ != slug);
        assert forall|i: int| 0 <= i < counts.drop_last().len() implies (
        #[trigger] counts.drop_last()[i]).0@ != slug by {
            assert(counts[i].0@ != slug);
        }
        lemma_count_for_absent(counts.drop_last(), slug);
    }
}

fn add_count(counts: &mut Vec<(EnvironmentId, usize)>, env: &EnvironmentId, n: usize)
    requires
        counts_are_distinct(old(counts)@),
        counted(old(counts)@) + n <= usize::MAX,
    ensures
        counts_are_distinct(final(counts)@),
        counted(final(counts)@) == counted(old(counts)@) + n,
        forall|slug: Seq<char>|
            #[trigger] count_for(final(counts)@, slug) == count_for(old(counts)@, slug) + if slug
                == env@ {
                n as nat
            } else {
                0
            },
{
    let ghost before = counts@;
    let mut i: usize = 0;
    while i < counts.len()
        invariant
            counts@ == before,
            before == old(counts)@,
            counts_are_distinct(before),
            counted(before) + n <= usize::MAX,
            i <= before.len(),
            forall|j: int| 0 <= j < i ==> (#[trigger] before[j]).0@ != env@,
        decreases before.len() - i,
    {
        if counts[i].0.same_as(env) {
            proof {
                lemma_counted_update(before, i as int, 0);
            }
            let had: usize = counts[i].1;
            let id = counts[i].0.clone();
            counts[i] = (id, had + n);
            proof {
                assert(counts@ =~= before.update(i as int, (before[i as int].0, (had + n) as usize)));
                lemma_counted_update(before, i as int, (had + n) as usize);
                assert forall|slug: Seq<char>| #[trigger] count_for(counts@, slug) == count_for(
                    before,
                    slug,
                ) + if slug == env@ {
                    n as nat
                } else {
                    0
                } by {
                    lemma_count_for_update(before, i as int, (had + n) as usize, slug);
                }
            }
            return;
        }
        i += 1;
    }
    counts.push((env.clone(), n));
    proof {
        assert(counts@.drop_last() =~= before);
        assert forall|slug: Seq<char>| #[trigger] count_for(counts@, slug) == count_for(
            before,
            slug,
        ) + if slug == env@ {
            n as nat
        } else {
            0
        } by {
            if slug == env@ {
                lemma_count_for_absent(before, slug);
            }
        }
        assert forall|a: int, b: int| 0 <= a < b < counts@.len() implies (#[trigger] counts@[a]).0@
            != (#[trigger] counts@[b]).0@ by {
            if b < before.len() {
                assert(before[a].0@ != before[b].0@);
            } else {
                assert(before[a].0@ != env@);
            }
        }
    }
}

/// A hit in the listing.
#[derive(Debug, PartialEq, Eq)]
pub struct ScanItem {
    pub snippet: String,
    /// Which row, in words.
    pub label: String,
    /// The terminal and the row to show.
    pub page: usize,
    pub row: i64,
}

/// Whether an item is this hit of a chunk that starts at `first`. Lines count
/// from one.
pub open spec fn lists_hit(item: ScanItem, page: int, first: int, hit: (u32, String)) -> bool {
    &&& item.snippet@ == hit.1@
    &&& item.label@ == "row "@ + decimal_of((first + hit.0) as nat)
    &&& item.page == page
    &&& item.row == first + hit.0 - 1
}

/// What the next frame does.
#[derive(Debug, Clone, Copy, PartialEq, Eq, Structural)]
pub enum ScanStep {
    /// A newer query has taken over: the scan stops where it is.
    Superseded,
    /// Every terminal is read.
    Done,
    /// Go on with the next terminal, next frame.
    Next,
    /// Read these rows of this terminal, search them, and hand the hits back.
    Read { terminal: usize, start: i64, end: i64 },
}

/// Where a scrollback scan is: which terminal, which row, what it found.
#[derive(Debug, PartialEq, Eq)]
pub struct ScrollbackScan {
    /// The rows each terminal held when the query came.
    pub ranges: Vec<Rows>,
    /// The environment each terminal belongs to.
    pub envs: Vec<EnvironmentId>,
    pub terminal: usize,
    pub row: i64,
    pub rows_done: i64,
    /// The listing's items, per terminal.
    pub items: Vec<Vec<ScanItem>>,
    /// Hits per environment.
    pub counts: Vec<(EnvironmentId, usize)>,
    pub count: usize,
    pub running: bool,
    /// How many items the listing last drew.
    pub rendered_items: usize,
    /// Which query this answers.
    pub generation: u64,
}

impl ScrollbackScan {
    /// All rows there are to read.
    pub open spec fn total(&self) -> int {
        rows_in(self.ranges@, self.ranges@.len() as int)
    }

    /// Rows of the current terminal that are read.
    pub open spec fn read_here(&self) -> int {
        if self.terminal < self.ranges@.len() && self.ranges@[self.terminal as int].lo < self.row {
            self.row - self.ranges@[self.terminal as int].lo
        } else {
            0
        }
    }

    /// The scan's books are in order: the rows done are those of the terminals
    /// before this one and those of this one up to the row, and the hits are
    /// counted once in all and once by environment.
    pub open spec fn wf(&self) -> bool {
        let n = self.ranges@.len();
        &&& self.envs@.len() == n
        &&& self.items@.len() == n
        &&& n * LISTED_PER_TERMINAL <= usize::MAX
        &&& forall|i: int| 0 <= i < n ==> (#[trigger] self.ranges@[i]).fits()
        &&& self.total() <= i64::MAX
        &&& self.terminal <= n
        &&& self.terminal < n ==> {
            let here = self.ranges@[self.terminal as int];
            here.lo <= self.row && (self.row <= here.hi || self.row == here.lo)
        }
        &&& self.rows_done == rows_in(self.ranges@, self.terminal as int) + self.read_here()
        &&& forall|i: int|
            0 <= i < n ==> (#[trigger] self.items@[i])@.len() <= LISTED_PER_TERMINAL
        &&& counts_are_distinct(self.counts@)
        &&& counted(self.counts@) == self.count
    }

    /// What is left to do, in rows and terminals.
    pub open spec fn left(&self) -> int {
        self.total() - self.rows_done + self.ranges@.len() - self.terminal
    }

    /// Start a scan over some terminals for a query: the rows each holds, and
    /// the environment each belongs to.
    pub fn new(ranges: Vec<Rows>, envs: Vec<EnvironmentId>, generation: u64) -> (out: Self)
        requires
            envs@.len() == ranges@.len(),
            ranges@.len() * LISTED_PER_TERMINAL <= usize::MAX,
            forall|i: int| 0 <= i < ranges@.len() ==> (#[trigger] ranges@[i]).fits(),
            rows_in(ranges@, ranges@.len() as int) <= i64::MAX,
        ensures
            out.wf(),
            out.ranges == ranges,
            out.envs == envs,
            out.terminal == 0,
            out.row == if ranges@.len() > 0 {
                ranges@[0].lo
            } else {
                0
            },
            out.rows_done == 0,
            out.count == 0,
            out.counts@.len() == 0,
            forall|i: int| 0 <= i < ranges@.len() ==> (#[trigger] out.items@[i])@.len() == 0,
            out.running == (ranges@.len() > 0),
            out.rendered_items == 0,
            out.generation == generation,
    {
        let n: usize = ranges.len();
        let mut items: Vec<Vec<ScanItem>> = Vec::new();
        while items.len() < n
            invariant
                items@.len() <= n,
                forall|i: int| 0 <= i < items@.len() ==> (#[trigger] items@[i])@.len() == 0,
            decreases n - items@.len(),
        {
            items.push(Vec::new());
        }
        let row: i64 = if n > 0 {
            ranges[0].lo
        } else {
            0
        };
        ScrollbackScan {
            ranges,
            envs,
            terminal: 0,
            row,
            rows_done: 0,
            items,
            counts: Vec::new(),
            count: 0,
            running: n > 0,
            rendered_items: 0,
            generation,
        }
    }

    /// What the next frame does: one chunk, until every terminal is read or a
    /// newer query has taken over. `current` is the query that stands.
    pub fn step(&mut self, current: u64) -> (out: ScanStep)
        requires
            old(self).wf(),
        ensures
            final(self).wf(),
            steps_on(*old(self), *final(self), current, out),
    {
        if current != self.generation {
            return ScanStep::Superseded;
        }
        let n: usize = self.ranges.len();
        if self.terminal >= n {
            self.running = false;
            return ScanStep::Done;
        }
        let here = self.ranges[self.terminal];
        if self.row >= here.hi {
            assert(rows_in(self.ranges@, self.terminal + 1) == rows_in(
                self.ranges@,
                self.terminal as int,
            ) + here.count());
            self.terminal = self.terminal + 1;
            if self.terminal >= n {
                self.row = 0;
                self.running = false;
                return ScanStep::Done;
            }
            self.row = self.ranges[self.terminal].lo;
            return ScanStep::Next;
        }
        let end: i64 = if here.hi - self.row <= SCROLLBACK_CHUNK_ROWS {
            here.hi
        } else {
            self.row + SCROLLBACK_CHUNK_ROWS
        };
        ScanStep::Read { terminal: self.terminal, start: self.row, end }
    }

    /// The rows up to `end` were searched: `count` hits in them, and some of
    /// those by their lines. `true` means that every terminal is read.
    pub fn taken(&mut self, end: i64, count: usize, hits: Vec<(u32, String)>) -> (finished: bool)
        requires
            old(self).wf(),
            old(self).terminal < old(self).ranges@.len(),
            old(self).row < end <= old(self).ranges@[old(self).terminal as int].hi,
            old(self).count + count <= usize::MAX,
        ensures
            final(self).wf(),
            takes(*old(self), *final(self), end, count, hits@, finished),
    {
        let page: usize = self.terminal;
        let first: i64 = self.row;
        let ghost before = *self;
        proof {
            lemma_rows_in_grows(self.ranges@, page + 1, self.ranges@.len() as int);
            lemma_rows_in_grows(self.ranges@, page as int, page + 1);
        }
        if count > 0 {
            self.count = self.count + count;
            let env = self.envs[page].clone();
            add_count(&mut self.counts, &env, count);
        }
        let mut j: usize = 0;
        let ghost had = before.items@[page as int]@;
        while j < hits.len() && self.items[page].len() < LISTED_PER_TERMINAL
            invariant
                page < self.items@.len(),
                self.items@.len() == before.items@.len(),
                page == before.terminal,
                first == before.row,
                0 <= first < ROW_LIMIT,
                had == before.items@[page as int]@,
                j <= hits@.len(),
                self.items@[page as int]@.len() == had.len() + j,
                had.len() + j <= LISTED_PER_TERMINAL,
                self.items@[page as int]@.subrange(0, had.len() as int) == had,
                forall|k: int|
                    0 <= k < j ==> lists_hit(
                        #[trigger] self.items@[page as int]@[had.len() + k],
                        page as int,
                        first as int,
                        hits@[k],
                    ),
                forall|i: int|
                    0 <= i < before.items@.len() && i != page ==> (#[trigger] self.items@[i])
                        == before.items@[i],
                self.ranges == before.ranges,
                self.envs == before.envs,
                self.terminal == before.terminal,
                self.row == before.row,
                self.rows_done == before.rows_done,
                self.rendered_items == before.rendered_items,
                self.generation == before.generation,
                counts_are_distinct(self.counts@),
                counted(self.counts@) == self.count,
                self.count == before.count + count,
                forall|slug: Seq<char>|
                    #[trigger] count_for(self.counts@, slug) == count_for(before.counts@, slug)
                        + if slug == before.envs@[before.terminal as int]@ {
                        count as nat
                    } else {
                        0
                    },
            decreases hits@.len() - j,
        {
            let ghost listed = self.items@[page as int]@;
            let line: i64 = hits[j].0 as i64;
            let number = decimal((first + line) as u64);
            let item = ScanItem {
                snippet: hits[j].1.clone(),
                label: concat2("row ", number.as_str()),
                page,
                row: first + line - 1,
            };
            self.items[page].push(item);
            j += 1;
            proof {
                let now = self.items@[page as int]@;
                assert(now == listed.push(item));
                assert(now.subrange(0, had.len() as int) =~= listed.subrange(0, had.len() as int));
                assert forall|k: int| 0 <= k < j implies lists_hit(
                    #[trigger] now[had.len() + k],
                    page as int,
                    first as int,
                    hits@[k],
                ) by {
                    if k < j - 1 {
                        assert(now[had.len() + k] == listed[had.len() + k]);
                    }
                }
            }
        }
        self.rows_done = self.rows_done + (end - first);
        self.row = end;
        let finished = page + 1 >= self.ranges.len() && end >= self.ranges[page].hi;
        self.running = !finished;
        finished
    }

    /// How many items are listed, over all terminals.
    pub open spec fn listed_upto(&self, n: int) -> nat
        decreases n,
    {
        if n <= 0 {
            0
        } else {
            self.listed_upto(n - 1) + self.items@[n - 1]@.len()
        }
    }

    /// Whether the listing is drawn anew after a chunk: at the end, and
    /// otherwise when it has grown and enough time has passed (`due`).
    pub fn redraw(&mut self, finished: bool, due: bool) -> (draw: bool)
        requires
            old(self).wf(),
        ensures
            final(self).wf(),
            redraws(*old(self), *final(self), finished, due, draw),
    {
        let mut listed: usize = 0;
        let mut i: usize = 0;
        while i < self.items.len()
            invariant
                *self == *old(self),
                self.wf(),
                i <= self.items@.len(),
                listed == self.listed_upto(i as int),
                listed <= i * LISTED_PER_TERMINAL,
            decreases self.items@.len() - i,
        {
            assert(i * LISTED_PER_TERMINAL + LISTED_PER_TERMINAL <= self.ranges@.len()
                * LISTED_PER_TERMINAL) by (nonlinear_arith)
                requires
                    i < self.ranges@.len(),
            ;
            assert((i + 1) * LISTED_PER_TERMINAL == i * LISTED_PER_TERMINAL + LISTED_PER_TERMINAL)
                by (nonlinear_arith);
            listed = listed + self.items[i].len();
            i += 1;
        }
        let stale = listed != self.rendered_items;
        if finished || (stale && due) {
            self.rendered_items = listed;
            true
        } else {
            false
        }
    }

    /// How far the scan is, in rows; an empty scan counts as one row.
    pub fn progress(&self) -> (out: (i64, i64))
        requires
            self.wf(),
        ensures
            out.0 == self.rows_done,
            out.1 == if self.total() > 1 {
                self.total()
            } else {
                1
            },
            out.0 <= out.1,
    {
        let mut total: i64 = 0;
        let mut i: usize = 0;
        while i < self.ranges.len()
            invariant
                self.wf(),
                i <= self.ranges@.len(),
                total == rows_in(self.ranges@, i as int),
            decreases self.ranges@.len() - i,
        {
            proof {
                lemma_rows_in_grows(self.ranges@, i + 1, self.ranges@.len() as int);
                lemma_rows_in_grows(self.ranges@, i as int, i + 1);
            }
            let range = self.ranges[i];
            assert(range.fits());
            if range.lo < range.hi {
                total = total + (range.hi - range.lo);
            }
            i += 1;
        }
        proof {
            lemma_scan_within(*self);
        }
        (
            self.rows_done,
            if total > 1 {
                total
            } else {
                1
            },
        )
    }

    /// What the listing is of: the tab on screen, where it is one of the
    /// scanned terminals.
    pub fn subject(titles: &Vec<String>, selected: Option<usize>) -> (out: String)
        ensures
            out@ == match selected {
                Some(i) if i < titles@.len() => titles@[i as int]@,
                _ => "this tab"@,
            },
    {
        if let Some(i) = selected {
            if i < titles.len() {
                return titles[i].clone();
            }
        }
        "this tab".to_owned()
    }

    /// How many hits a terminal's tab wears in place of its glyph; `None` is
    /// the glyph.
    pub fn badge(&self, terminal: usize) -> (out: Option<usize>)
        ensures
            badges(*self, terminal, out),
    {
        if terminal < self.items.len() && self.items[terminal].len() > 0 {
            Some(self.items[terminal].len())
        } else {
            None
        }
    }

    /// What the search is told, with the tab on screen among the terminals
    /// where it is one.
    pub fn report(&self, selected: Option<usize>) -> (out: SearchReport)
        requires
            self.wf(),
        ensures
            reports(*self, selected, out),
    {
        let (rows_done, rows) = self.progress();
        let panel_hits: usize = match selected {
            Some(i) => match self.badge(i) {
                Some(n) => n,
                None => 0,
            },
            None => 0,
        };
        SearchReport {
            listing: true,
            hits: self.count,
            panel_hits,
            rows_done,
            rows,
            running: self.running,
            terminals_done: self.terminals_done(),
            terminals: self.ranges.len(),
        }
    }

    /// How many terminals are read.
    pub fn terminals_done(&self) -> (out: usize)
        ensures
            out == if self.running {
                self.terminal
            } else {
                self.ranges@.len() as usize
            },
    {
        if self.running {
            self.terminal
        } else {
            self.ranges.len()
        }
    }
}

proof fn lemma_scan_within(scan: ScrollbackScan)
    requires
        scan.wf(),
    ensures
        0 <= scan.rows_done <= scan.total(),
{
    let n = scan.ranges@.len() as int;
    lemma_rows_in_grows(scan.ranges@, scan.terminal as int, n);
    if scan.terminal < n {
        lemma_rows_in_grows(scan.ranges@, scan.terminal + 1, n);
        assert(rows_in(scan.ranges@, scan.terminal + 1) == rows_in(
            scan.ranges@,
            scan.terminal as int,
        ) + scan.ranges@[scan.terminal as int].count());
    }
}

/// What a frame does.
pub open spec fn steps_on(
    before: ScrollbackScan,
    after: ScrollbackScan,
    current: u64,
    out: ScanStep,
) -> bool {
    &&& out is Superseded <==> current != before.generation
    &&& out is Superseded ==> after == before
    &&& current == before.generation ==> (out is Done <==> before.terminal >= before.ranges@.len() || (before.terminal + 1 == before.ranges@.len() && before.row
        >= before.ranges@[before.terminal as int].hi))
    &&& match out {
        ScanStep::Superseded => true,
        ScanStep::Read { terminal, start, end } => {
            &&& after == before
            &&& terminal == before.terminal
            &&& terminal < before.ranges@.len()
            &&& start == before.row
            &&& start < end
            &&& end == if before.ranges@[terminal as int].hi - start
                <= SCROLLBACK_CHUNK_ROWS {
                before.ranges@[terminal as int].hi as int
            } else {
                start + SCROLLBACK_CHUNK_ROWS
            }
        },
        ScanStep::Next => {
            &&& before.terminal + 1 < before.ranges@.len()
            &&& before.row >= before.ranges@[before.terminal as int].hi
            &&& after == (ScrollbackScan {
                terminal: (before.terminal + 1) as usize,
                row: before.ranges@[before.terminal + 1].lo,
                ..before
            })
            &&& after.left() < before.left()
        },
        ScanStep::Done => {
            &&& !after.running
            &&& after.rows_done == after.total()
            &&& after.rows_done == before.rows_done
            &&& after.terminal == after.ranges@.len()
            &&& after == (ScrollbackScan {
                terminal: after.terminal,
                row: if before.terminal < before.ranges@.len() {
                    0
                } else {
                    before.row
                },
                running: false,
                ..before
            })
        },
    }
}

/// Whether the listing is drawn anew.
pub open spec fn redraws(
    before: ScrollbackScan,
    after: ScrollbackScan,
    finished: bool,
    due: bool,
    draw: bool,
) -> bool {
    &&& draw == (finished || (due && before.listed_upto(before.items@.len() as int)
        != before.rendered_items))
    &&& after == (ScrollbackScan {
        rendered_items: if draw {
            before.listed_upto(before.items@.len() as int) as usize
        } else {
            before.rendered_items
        },
        ..before
    })
}

/// What the search is told.
pub open spec fn reports(scan: ScrollbackScan, selected: Option<usize>, out: SearchReport) -> bool {
    &&& out == (SearchReport {
        listing: true,
        hits: scan.count,
        panel_hits: match selected {
            Some(i) if i < scan.items@.len() => scan.items@[i as int]@.len() as usize,
            _ => 0,
        },
        rows_done: scan.rows_done,
        rows: if scan.total() > 1 {
            scan.total() as i64
        } else {
            1
        },
        running: scan.running,
        terminals_done: if scan.running {
            scan.terminal
        } else {
            scan.ranges@.len() as usize
        },
        terminals: scan.ranges@.len() as usize,
    })
}

/// The rows up to `end` were searched.
pub open spec fn takes(
    before: ScrollbackScan,
    after: ScrollbackScan,
    end: i64,
    count: usize,
    hits: Seq<(u32, String)>,
    finished: bool,
) -> bool {
    &&& after.ranges == before.ranges
    &&& after.envs == before.envs
    &&& after.terminal == before.terminal
    &&& after.row == end
    &&& after.rows_done == before.rows_done + (end - before.row)
    &&& after.left() < before.left()
    &&& after.count == before.count + count
    &&& forall|slug: Seq<char>|
        #[trigger] count_for(after.counts@, slug) == count_for(
            before.counts@,
            slug,
        ) + if slug == before.envs@[before.terminal as int]@ {
            count as nat
        } else {
            0
        }
    &&& after.items@.len() == before.items@.len()
    &&& forall|i: int|
        0 <= i < before.items@.len() && i != before.terminal ==> (
        #[trigger] after.items@[i]) == before.items@[i]
    &&& ({
        let had = before.items@[before.terminal as int]@;
        let has = after.items@[before.terminal as int]@;
        let room = LISTED_PER_TERMINAL - had.len();
        let added = if hits.len() <= room {
            hits.len() as int
        } else {
            room
        };
        &&& has.len() == had.len() + added
        &&& has.subrange(0, had.len() as int) == had
        &&& forall|j: int|
            0 <= j < added ==> lists_hit(
                #[trigger] has[had.len() + j],
                before.terminal as int,
                before.row as int,
                hits[j],
            )
    })
    &&& finished == (before.terminal + 1 >= before.ranges@.len() && end >= before.ranges@[before.terminal as int].hi)
    &&& finished ==> after.rows_done == after.total()
    &&& after.running == !finished
    &&& after.rendered_items == before.rendered_items
    &&& after.generation == before.generation
}

/// How many hits a terminal's tab wears.
pub open spec fn badges(scan: ScrollbackScan, terminal: usize, out: Option<usize>) -> bool {
    &&& match out {
        Some(n) => terminal < scan.items@.len() && n
            == scan.items@[terminal as int]@.len() && n > 0,
        None => terminal >= scan.items@.len() || scan.items@[terminal as int]@.len() == 0,
    }
}

/// A scan never reads more rows than there are, and what is left to do never
/// falls below nought.
pub proof fn a_scan_cannot_run_over(scan: ScrollbackScan)
    requires
        scan.wf(),
    ensures
        0 <= scan.rows_done <= scan.total(),
        0 <= scan.left(),
{
    lemma_scan_within(scan);
}

/// What the search is told of the terminals.
#[derive(Debug, Clone, Copy, PartialEq, Eq, Structural)]
pub struct SearchReport {
    /// The listing is on screen.
    pub listing: bool,
    /// Hits in all the terminals.
    pub hits: usize,
    /// Hits in the one on screen.
    pub panel_hits: usize,
    pub rows_done: i64,
    pub rows: i64,
    pub running: bool,
    pub terminals_done: usize,
    pub terminals: usize,
}

impl SearchReport {
    /// Nothing is looked for.
    pub open spec fn blank() -> SearchReport {
        SearchReport {
            listing: false,
            hits: 0,
            panel_hits: 0,
            rows_done: 0,
            rows: 0,
            running: false,
            terminals_done: 0,
            terminals: 0,
        }
    }
}

/// What putting a query comes to.
#[derive(Debug, PartialEq, Eq)]
pub enum SearchAnswer {
    /// The query is empty: nothing is listed or counted, and every tab has its
    /// glyph back.
    Cleared(SearchReport),
    /// Read the terminals, a chunk a frame.
    Scanning(ScrollbackScan),
}

impl Console {
    /// Answer the one query over the terminals of the strip: their pages, and
    /// the rows each holds. `empty` is whether the query asks for nothing.
    pub fn answer_search(
        &self,
        empty: bool,
        generation: u64,
        pages: &Vec<u64>,
        ranges: Vec<Rows>,
    ) -> (out: SearchAnswer)
        requires
            pages@.len() == ranges@.len(),
            ranges@.len() * LISTED_PER_TERMINAL <= usize::MAX,
            forall|i: int| 0 <= i < ranges@.len() ==> (#[trigger] ranges@[i]).fits(),
            rows_in(ranges@, ranges@.len() as int) <= i64::MAX,
        ensures
            empty ==> out == SearchAnswer::Cleared(SearchReport::blank()),
            !empty ==> {
                &&& out matches SearchAnswer::Scanning(scan)
                &&& scan.wf()
                &&& scan.ranges == ranges
                &&& scan.generation == generation
                &&& scan.terminal == 0 && scan.rows_done == 0 && scan.count == 0
                &&& scan.counts@.len() == 0
                &&& scan.running == (ranges@.len() > 0)
                &&& scan.rendered_items == 0
                &&& forall|i: int|
                    0 <= i < ranges@.len() ==> (#[trigger] scan.items@[i])@.len() == 0
                &&& forall|i: int|
                    0 <= i < pages@.len() ==> (#[trigger] scan.envs@[i])@ == self.page_env(pages@[i])
            },
    {
        if empty {
            return SearchAnswer::Cleared(
                SearchReport {
                    listing: false,
                    hits: 0,
                    panel_hits: 0,
                    rows_done: 0,
                    rows: 0,
                    running: false,
                    terminals_done: 0,
                    terminals: 0,
                },
            );
        }
        let mut envs: Vec<EnvironmentId> = Vec::new();
        let mut i: usize = 0;
        while i < pages.len()
            invariant
                i <= pages@.len(),
                envs@.len() == i,
                forall|j: int| 0 <= j < i ==> (#[trigger] envs@[j])@ == self.page_env(pages@[j]),
            decreases pages@.len() - i,
        {
            envs.push(self.env_of_page(pages[i]));
            i += 1;
        }
        SearchAnswer::Scanning(ScrollbackScan::new(ranges, envs, generation))
    }
}

/// Which terminals a find looks into.
#[derive(Debug, PartialEq, Eq)]
pub enum FindScope {
    Everywhere,
    Environment(EnvironmentId),
}

impl FindScope {
    /// Whether a terminal of this environment is looked into.
    pub open spec fn covers(&self, env: Seq<char>) -> bool {
        match self {
            FindScope::Everywhere => true,
            FindScope::Environment(wanted) => wanted@ == env,
        }
    }

    /// Whether a terminal of this environment is looked into.
    pub fn looks_into(&self, env: &EnvironmentId) -> (r: bool)
        ensures
            r == self.covers(env@),
    {
        match self {
            FindScope::Everywhere => true,
            FindScope::Environment(wanted) => wanted.same_as(env),
        }
    }
}

/// A hit in a terminal, for a find.
#[derive(Debug, PartialEq, Eq)]
pub struct TerminalHit {
    pub env: EnvironmentId,
    pub tab: String,
    pub row: i64,
    pub text: String,
}

/// The rows a find reads of a terminal.
pub open spec fn windows(rows: Rows, out: Rows) -> bool {
    &&& out.hi == rows.hi
    &&& out.lo == if rows.lo < rows.hi - FIND_ROWS_PER_TERMINAL {
        rows.hi - FIND_ROWS_PER_TERMINAL
    } else {
        rows.lo as int
    }
}

/// The rows a find reads of a terminal: the last ones, as many as a bounded
/// read allows.
pub fn find_window(rows: Rows) -> (out: Rows)
    requires
        rows.fits(),
        rows.hi >= 0,
    ensures
        windows(rows, out),
{
    let from: i64 = rows.hi - FIND_ROWS_PER_TERMINAL;
    Rows {
        lo: if rows.lo < from {
            from
        } else {
            rows.lo
        },
        hi: rows.hi,
    }
}

/// A terminal as a find read it: its page and title, the first row read, and
/// the lines found from there on, counted from one.
#[derive(Debug, PartialEq, Eq)]
pub struct ReadTerminal {
    pub page: u64,
    pub title: String,
    pub lo: i64,
    pub lines: Vec<(u32, String)>,
}

/// A hit as data.
pub struct HitModel {
    pub env: Seq<char>,
    pub tab: Seq<char>,
    pub row: int,
    pub text: Seq<char>,
}

impl View for TerminalHit {
    type V = HitModel;

    open spec fn view(&self) -> HitModel {
        HitModel { env: self.env@, tab: self.tab@, row: self.row as int, text: self.text@ }
    }
}

/// Hits as data.
pub open spec fn hits_view(hits: Seq<TerminalHit>) -> Seq<HitModel> {
    Seq::new(hits.len(), |i: int| hits[i]@)
}

/// The hits in one terminal of an environment.
pub open spec fn hits_of(env: Seq<char>, terminal: ReadTerminal) -> Seq<HitModel> {
    Seq::new(
        terminal.lines@.len(),
        |i: int|
            HitModel {
                env,
                tab: terminal.title@,
                row: terminal.lo + terminal.lines@[i].0 - 1,
                text: terminal.lines@[i].1@,
            },
    )
}

/// The hits in the first `n` terminals that the scope takes in, in order.
pub open spec fn found(
    console: Console,
    scope: FindScope,
    terminals: Seq<ReadTerminal>,
    n: int,
) -> Seq<HitModel>
    decreases n,
{
    if n <= 0 {
        Seq::empty()
    } else {
        let env = console.page_env(terminals[n - 1].page);
        found(console, scope, terminals, n - 1) + if scope.covers(env) {
            hits_of(env, terminals[n - 1])
        } else {
            Seq::empty()
        }
    }
}

fn push_hits(out: &mut Vec<TerminalHit>, env: &EnvironmentId, terminal: &ReadTerminal)
    requires
        0 <= terminal.lo < ROW_LIMIT,
    ensures
        hits_view(final(out)@) == hits_view(old(out)@) + hits_of(env@, *terminal),
{
    let ghost start = hits_view(out@);
    let ghost all = hits_of(env@, *terminal);
    let mut i: usize = 0;
    assert(hits_view(out@) =~= start + all.take(0));
    while i < terminal.lines.len()
        invariant
            0 <= terminal.lo < ROW_LIMIT,
            i <= terminal.lines@.len(),
            all == hits_of(env@, *terminal),
            hits_view(out@) == start + all.take(i as int),
        decreases terminal.lines@.len() - i,
    {
        let ghost before = out@;
        let line: i64 = terminal.lines[i].0 as i64;
        let hit = TerminalHit {
            env: env.clone(),
            tab: terminal.title.clone(),
            row: terminal.lo + line - 1,
            text: terminal.lines[i].1.clone(),
        };
        out.push(hit);
        assert(hits_view(out@) =~= hits_view(before).push(hit@));
        assert(all.take(i + 1) =~= all.take(i as int).push(all[i as int]));
        i += 1;
        assert(hits_view(out@) =~= start + all.take(i as int));
    }
    assert(all.take(i as int) =~= all);
}

/// The first `n` of some pages that a find of this scope reads.
pub open spec fn pages_in(console: Console, scope: FindScope, pages: Seq<u64>, n: int) -> Seq<u64>
    decreases n,
{
    if n <= 0 {
        Seq::empty()
    } else if scope.covers(console.page_env(pages[n - 1])) {
        pages_in(console, scope, pages, n - 1).push(pages[n - 1])
    } else {
        pages_in(console, scope, pages, n - 1)
    }
}

impl Console {
    /// The pages whose terminals a find reads: every one of the strip, in
    /// order, and then every one that is stowed, as far as the scope goes.
    pub fn find_pages(&self, scope: &FindScope, on_screen: &Vec<u64>) -> (out: Vec<u64>)
        ensures
            ({
                let all = on_screen@ + page_numbers(self.stowed@);
                out@ == pages_in(*self, *scope, all, all.len() as int)
            }),
    {
        let ghost all = on_screen@ + page_numbers(self.stowed@);
        let mut out: Vec<u64> = Vec::new();
        let mut i: usize = 0;
        while i < on_screen.len()
            invariant
                all == on_screen@ + page_numbers(self.stowed@),
                i <= on_screen@.len(),
                out@ == pages_in(*self, *scope, all, i as int),
            decreases on_screen@.len() - i,
        {
            let env = self.env_of_page(on_screen[i]);
            assert(all[i as int] == on_screen@[i as int]);
            if scope.looks_into(&env) {
                out.push(on_screen[i]);
            }
            i += 1;
        }
        let mut k: usize = 0;
        while k < self.stowed.len()
            invariant
                all == on_screen@ + page_numbers(self.stowed@),
                k <= self.stowed@.len(),
                out@ == pages_in(*self, *scope, all, on_screen@.len() + k),
            decreases self.stowed@.len() - k,
        {
            let page: u64 = self.stowed[k].page;
            let env = self.env_of_page(page);
            assert(all[on_screen@.len() + k] == page);
            if scope.looks_into(&env) {
                out.push(page);
            }
            k += 1;
        }
        out
    }

    /// Hits in every terminal's scrollback, the wanted environment's or
    /// everyone's, in strip order. A terminal counts for the environment whose
    /// shell it shows, or else for the selected one.
    pub fn find_in_scrollback(&self, scope: &FindScope, terminals: &Vec<ReadTerminal>) -> (out: Vec<
        TerminalHit,
    >)
        requires
            forall|i: int|
                0 <= i < terminals@.len() ==> 0 <= (#[trigger] terminals@[i]).lo < ROW_LIMIT,
        ensures
            hits_view(out@) == found(*self, *scope, terminals@, terminals@.len() as int),
    {
        let mut out: Vec<TerminalHit> = Vec::new();
        let mut i: usize = 0;
        assert(hits_view(out@) =~= Seq::empty());
        while i < terminals.len()
            invariant
                i <= terminals@.len(),
                forall|j: int|
                    0 <= j < terminals@.len() ==> 0 <= (#[trigger] terminals@[j]).lo < ROW_LIMIT,
                hits_view(out@) == found(*self, *scope, terminals@, i as int),
            decreases terminals@.len() - i,
        {
            let ghost so_far = hits_view(out@);
            let env = self.env_of_page(terminals[i].page);
            if scope.looks_into(&env) {
                push_hits(&mut out, &env, &terminals[i]);
            } else {
                assert(so_far + Seq::<HitModel>::empty() =~= so_far);
            }
            i += 1;
        }
        out
    }
}

/// The flags a terminal's own search runs with.
pub open spec fn flags(case_sensitive: bool, out: u32) -> bool {
    &&& out == if case_sensitive {
        0x400u32
    } else {
        0x408u32
    }
}

/// The flags a terminal's own search runs with: every line, and case as the
/// query says.
pub fn search_flags(case_sensitive: bool) -> (out: u32)
    ensures
        flags(case_sensitive, out),
{
    if case_sensitive {
        0x400
    } else {
        0x408
    }
}

/// A scan reads on from where it is, never past the terminal's last row nor more
/// than a chunk, and leaves no row between: what it reads begins where it stood.
/// It is done exactly when no row of any terminal is left.
pub proof fn a_scan_skips_no_row(
    before: ScrollbackScan,
    after: ScrollbackScan,
    current: u64,
    out: ScanStep,
)
    requires
        before.wf(),
        steps_on(before, after, current, out),
    ensures
        out is Superseded <==> current != before.generation,
        out matches ScanStep::Read { terminal, start, end } ==> {
            &&& terminal == before.terminal && start == before.row
            &&& start < end <= before.ranges@[terminal as int].hi
            &&& end - start <= 400
            &&& end - start == 400 || end == before.ranges@[terminal as int].hi
            &&& after == before
        },
        out is Next ==> before.row >= before.ranges@[before.terminal as int].hi && after.terminal
            == before.terminal + 1 && after.row == before.ranges@[before.terminal + 1].lo
            && after.rows_done == before.rows_done,
        out is Done ==> after.rows_done == after.total() && !after.running && after.count
            == before.count,
        current == before.generation && before.terminal < before.ranges@.len() && before.row
            < before.ranges@[before.terminal as int].hi ==> out is Read,
{
}

/// The listing is drawn at the end, and before it only when it has grown and
/// the time has come.
pub proof fn a_listing_is_drawn_when_it_grew(
    before: ScrollbackScan,
    after: ScrollbackScan,
    finished: bool,
    due: bool,
    draw: bool,
)
    requires
        redraws(before, after, finished, due, draw),
    ensures
        finished ==> draw,
        !finished && !due ==> !draw,
        !finished && before.listed_upto(before.items@.len() as int) == before.rendered_items
            ==> !draw,
        due && before.listed_upto(before.items@.len() as int) != before.rendered_items ==> draw,
        !draw ==> after == before,
        after.items == before.items && after.count == before.count,
{
}

/// The search is told how many hits there are in all and how many on screen, how
/// far the scan is, and that it runs exactly while it does.
pub proof fn a_report_says_how_far(
    scan: ScrollbackScan,
    selected: Option<usize>,
    out: SearchReport,
)
    requires
        scan.wf(),
        reports(scan, selected, out),
    ensures
        out.hits == scan.count,
        out.rows_done == scan.rows_done,
        0 <= out.rows_done <= out.rows,
        out.rows >= 1,
        scan.total() > 1 ==> out.rows == scan.total(),
        out.running == scan.running,
        scan.running ==> out.terminals_done == scan.terminal,
        !scan.running ==> out.terminals_done == scan.ranges@.len(),
        out.terminals == scan.ranges@.len(),
        out.listing,
        selected matches Some(i) ==> (i < scan.items@.len() ==> out.panel_hits
            == scan.items@[i as int]@.len()),
        selected is None ==> out.panel_hits == 0,
{
    a_scan_cannot_run_over(scan);
}

/// A find reads a terminal's last rows: up to its end, five thousand of them or
/// all there are.
pub proof fn a_find_reads_the_last_rows(rows: Rows, out: Rows)
    requires
        rows.fits(),
        rows.hi >= 0,
        windows(rows, out),
    ensures
        out.hi == rows.hi,
        out.lo >= rows.lo,
        out.count() <= 5000,
        rows.count() <= 5000 ==> out.lo == rows.lo,
        rows.count() > 5000 ==> out.count() == 5000,
{
}

/// A terminal's own search takes every line, and minds the case exactly where
/// the query does.
pub proof fn a_search_minds_the_case_it_is_told(case_sensitive: bool, out: u32)
    requires
        flags(case_sensitive, out),
    ensures
        case_sensitive ==> out == 0x400,
        !case_sensitive ==> out == 0x400 + 0x8,
{
}

/// A hit is shown by the row it stands in: the chunk's first row and the line's
/// place in it, counted from one, both in words and as where to go.
pub proof fn a_hit_is_shown_where_it_stands(
    item: ScanItem,
    page: int,
    first: int,
    hit: (u32, String),
)
    requires
        lists_hit(item, page, first, hit),
        first >= 0,
        hit.0 >= 1,
    ensures
        item.snippet@ == hit.1@,
        item.page == page,
        item.row >= first,
        item.row - first == hit.0 - 1,
        item.label@ == "row "@ + decimal_of((item.row + 1) as nat),
{
}

/// A find finds what stands in the terminals of its scope and nothing else, each
/// hit under its own environment, tab and row.
pub proof fn a_find_stays_in_its_scope(
    console: Console,
    scope: FindScope,
    terminals: Seq<ReadTerminal>,
    n: int,
    hit: HitModel,
)
    requires
        0 <= n <= terminals.len(),
    ensures
        found(console, scope, terminals, n).contains(hit) <==> exists|t: int, i: int|
            0 <= t < n && 0 <= i < (#[trigger] terminals[t]).lines@.len() && hits_at(
                console,
                scope,
                terminals[t],
                #[trigger] terminals[t].lines@[i],
                hit,
            ),
    decreases n,
{
    if n > 0 {
        a_find_stays_in_its_scope(console, scope, terminals, n - 1, hit);
        let before = found(console, scope, terminals, n - 1);
        let all = found(console, scope, terminals, n);
        let last = terminals[n - 1];
        let env = console.page_env(last.page);
        let here = hits_of(env, last);
        if all.contains(hit) {
            let k = choose|k: int| 0 <= k < all.len() && all[k] == hit;
            if k < before.len() {
                assert(before[k] == hit);
                assert(before.contains(hit));
            } else {
                let i = k - before.len();
                assert(here[i] == hit);
                assert(hits_at(console, scope, terminals[n - 1], terminals[n - 1].lines@[i], hit));
            }
        }
        if before.contains(hit) {
            let k = choose|k: int| 0 <= k < before.len() && before[k] == hit;
            assert(all[k] == hit);
        }
        if exists|t: int, i: int|
            0 <= t < n && 0 <= i < (#[trigger] terminals[t]).lines@.len() && hits_at(
                console,
                scope,
                terminals[t],
                #[trigger] terminals[t].lines@[i],
                hit,
            ) {
            let (t, i) = choose|t: int, i: int|
                0 <= t < n && 0 <= i < (#[trigger] terminals[t]).lines@.len() && hits_at(
                    console,
                    scope,
                    terminals[t],
                    #[trigger] terminals[t].lines@[i],
                    hit,
                );
            if t < n - 1 {
                assert(before.contains(hit));
            } else {
                assert(here[i] == hit);
                assert(all[before.len() + i] == hit);
            }
        }
    }
}

/// Whether a hit is this line of a terminal that the scope takes in.
pub open spec fn hits_at(
    console: Console,
    scope: FindScope,
    terminal: ReadTerminal,
    line: (u32, String),
    hit: HitModel,
) -> bool {
    &&& match scope {
        FindScope::Everywhere => true,
        FindScope::Environment(wanted) => wanted@ == console.page_env(terminal.page),
    }
    &&& hit.env == console.page_env(terminal.page)
    &&& hit.tab == terminal.title@
    &&& hit.text == line.1@
    &&& hit.row + 1 == terminal.lo + line.0
}

/// A find reads every page of its scope, and no page outside it.
pub proof fn a_find_reads_its_pages(
    console: Console,
    scope: FindScope,
    pages: Seq<u64>,
    n: int,
    page: u64,
)
    requires
        0 <= n <= pages.len(),
    ensures
        pages_in(console, scope, pages, n).contains(page) <==> (exists|i: int|
            0 <= i < n && #[trigger] pages[i] == page) && match scope {
            FindScope::Everywhere => true,
            FindScope::Environment(wanted) => wanted@ == console.page_env(page),
        },
    decreases n,
{
    if n > 0 {
        a_find_reads_its_pages(console, scope, pages, n - 1, page);
        let before = pages_in(console, scope, pages, n - 1);
        let all = pages_in(console, scope, pages, n);
        if all.contains(page) {
            let k = choose|k: int| 0 <= k < all.len() && all[k] == page;
            if k < before.len() {
                assert(before[k] == page);
                assert(before.contains(page));
            } else {
                assert(pages[n - 1] == page);
            }
        }
        if before.contains(page) {
            let k = choose|k: int| 0 <= k < before.len() && before[k] == page;
            assert(all[k] == page);
        }
        if pages[n - 1] == page && scope.covers(console.page_env(page)) {
            assert(all[all.len() - 1] == page);
        }
        if !all.contains(page) {
            assert(!before.contains(page));
        }
    }
}

/// The rows of some terminals are each terminal's own, together.
pub proof fn rows_are_counted_terminal_by_terminal(ranges: Seq<Rows>, n: int)
    requires
        0 <= n < ranges.len(),
    ensures
        rows_in(ranges, n + 1) == rows_in(ranges, n) + ranges[n].count(),
        ranges[n].lo <= ranges[n].hi ==> ranges[n].count() == ranges[n].hi - ranges[n].lo,
        ranges[n].lo > ranges[n].hi ==> ranges[n].count() == 0,
        rows_in(ranges, 0) == 0,
{
}

/// What was found is counted once, for the environment whose terminal it was
/// found in and no other; the listing grows by it as far as there is room, and
/// what it listed before it still does.
pub proof fn a_hit_counts_for_its_environment(
    before: ScrollbackScan,
    after: ScrollbackScan,
    end: i64,
    count: usize,
    hits: Seq<(u32, String)>,
    finished: bool,
    slug: Seq<char>,
)
    requires
        before.wf(),
        before.terminal < before.ranges@.len(),
        takes(before, after, end, count, hits, finished),
    ensures
        after.count == before.count + count,
        slug == before.envs@[before.terminal as int]@ ==> count_for(after.counts@, slug) == count_for(
            before.counts@,
            slug,
        ) + count,
        slug != before.envs@[before.terminal as int]@ ==> count_for(after.counts@, slug)
            == count_for(before.counts@, slug),
        after.row == end,
        after.rows_done - before.rows_done == end - before.row,
        ({
            let had = before.items@[before.terminal as int]@;
            let has = after.items@[before.terminal as int]@;
            &&& has.len() >= had.len()
            &&& hits.len() + had.len() <= 300 ==> has.len() == had.len() + hits.len()
            &&& hits.len() + had.len() > 300 && had.len() <= 300 ==> has.len() == 300
            &&& forall|j: int| 0 <= j < had.len() ==> has[j] == #[trigger] had[j]
            &&& forall|j: int|
                had.len() <= j < has.len() ==> (#[trigger] has[j]).snippet@ == hits[j
                    - had.len()].1@ && has[j].page == before.terminal && has[j].row == before.row
                    + hits[j - had.len()].0 - 1
        }),
        finished <==> before.terminal + 1 == before.ranges@.len() && end
            >= before.ranges@[before.terminal as int].hi,
        after.running <==> !finished,
{
    let had = before.items@[before.terminal as int]@;
    let has = after.items@[before.terminal as int]@;
    assert forall|j: int| 0 <= j < had.len() implies has[j] == #[trigger] had[j] by {
        assert(has.subrange(0, had.len() as int)[j] == had[j]);
    }
    assert forall|j: int| had.len() <= j < has.len() implies (#[trigger] has[j]).snippet@ == hits[j
        - had.len()].1@ && has[j].page == before.terminal && has[j].row == before.row + hits[j
        - had.len()].0 - 1 by {
        assert(has[had.len() + (j - had.len())] == has[j]);
        assert(lists_hit(
            has[had.len() + (j - had.len())],
            before.terminal as int,
            before.row as int,
            hits[j - had.len()],
        ));
    }
}

/// A tab wears as many hits as its terminal has listed, and its glyph where it
/// has none.
pub proof fn a_tab_wears_its_hits(scan: ScrollbackScan, terminal: usize, out: Option<usize>)
    requires
        badges(scan, terminal, out),
    ensures
        terminal < scan.items@.len() && scan.items@[terminal as int]@.len() > 0 ==> (out matches Some(
            n,
        ) && n == scan.items@[terminal as int]@.len()),
        terminal < scan.items@.len() && scan.items@[terminal as int]@.len() == 0 ==> out is None,
        terminal >= scan.items@.len() ==> out is None,
{
}

} // verus!
