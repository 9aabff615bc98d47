//! The shell tabs: one strip, and what is stowed while another environment is
//! on screen.
//!
//! A tab showing a command running in another environment is stowed, never
//! closed: it holds a live terminal, and closing it because the user looked
//! elsewhere would kill what runs in it.

use vstd::prelude::*;
use crate::console::facts::Console;
use crate::environment::EnvironmentId;

verus! {

/// A page of the strip: its number, and the environment whose shell it shows.
/// A page without an owner is this pane's own fixture, or somebody else's.
#[derive(Debug, PartialEq, Eq)]
pub struct StripPage {
    pub page: u64,
    pub owner: Option<EnvironmentId>,
}

impl StripPage {
    /// The page shows a shell of this environment.
    pub open spec fn is_of(&self, slug: Seq<char>) -> bool {
        self.owner matches Some(env) && env@ == slug
    }

    /// The page shows a shell of some other environment.
    pub open spec fn is_foreign(&self, slug: Seq<char>) -> bool {
        self.owner matches Some(env) && env@ != slug
    }
}

/// The pages that satisfy `p`, in order.
pub open spec fn kept(pages: Seq<StripPage>, p: spec_fn(StripPage) -> bool) -> Seq<StripPage>
    decreases pages.len(),
{
    if pages.len() == 0 {
        Seq::empty()
    } else if p(pages.last()) {
        kept(pages.drop_last(), p).push(pages.last())
    } else {
        kept(pages.drop_last(), p)
    }
}

/// The strip on screen, and the shells stowed out of it in the order they were
/// stowed.
#[derive(Debug, PartialEq, Eq)]
pub struct ShellTabs {
    pub strip: Vec<StripPage>,
    pub stowed: Vec<StripPage>,
}

/// What the strip shows for an environment: what was there of nobody or of
/// this environment, and then what this environment had stowed.
pub open spec fn strip_for(strip: Seq<StripPage>, stowed: Seq<StripPage>, slug: Seq<char>) -> Seq<
    StripPage,
> {
    kept(strip, |p: StripPage| !p.is_foreign(slug)) + kept(stowed, |p: StripPage| p.is_of(slug))
}

/// What is stowed for an environment: what was, and then what was on screen of
/// others.
pub open spec fn stowed_for(strip: Seq<StripPage>, stowed: Seq<StripPage>, slug: Seq<char>) -> Seq<
    StripPage,
> {
    kept(stowed, |p: StripPage| !p.is_of(slug)) + kept(strip, |p: StripPage| p.is_foreign(slug))
}

impl ShellTabs {
    /// Make the shell tabs on screen be the selected environment's, and only
    /// those.
    pub fn sync_shell_tabs(&mut self, env: &EnvironmentId)
        ensures
            final(self).strip@ == strip_for(old(self).strip@, old(self).stowed@, env@),
            final(self).stowed@ == stowed_for(old(self).strip@, old(self).stowed@, env@),
    {
        let ghost screen = self.strip@;
        let ghost away = self.stowed@;
        let ghost slug = env@;
        let mut strip: Vec<StripPage> = Vec::new();
        let mut stowed: Vec<StripPage> = Vec::new();
        std::mem::swap(&mut strip, &mut self.strip);
        std::mem::swap(&mut stowed, &mut self.stowed);
        let mut here: Vec<StripPage> = Vec::new();
        let mut leaving: Vec<StripPage> = Vec::new();
        let ghost stays = |p: StripPage| !p.is_foreign(slug);
        let ghost leaves = |p: StripPage| p.is_foreign(slug);
        assert(screen.take(0) =~= Seq::empty());
        for page in it: strip
            invariant
                it.seq() == screen,
                slug == env@,
                stays == (|p: StripPage| !p.is_foreign(slug)),
                leaves == (|p: StripPage| p.is_foreign(slug)),
                here@ == kept(screen.take(it.index() as int), stays),
                leaving@ == kept(screen.take(it.index() as int), leaves),
        {
            let ghost i = it.index() as int;
            assert(screen.take(i + 1).drop_last() =~= screen.take(i));
            assert(screen.take(i + 1).last() == screen[i]);
            let foreign = match &page.owner {
                Some(owner) => !owner.same_as(env),
                None => false,
            };
            if foreign {
                leaving.push(page);
            } else {
                here.push(page);
            }
        }
        assert(screen.take(screen.len() as int) =~= screen);
        let mut back: Vec<StripPage> = Vec::new();
        let mut keep: Vec<StripPage> = Vec::new();
        let ghost ours = |p: StripPage| p.is_of(slug);
        let ghost others = |p: StripPage| !p.is_of(slug);
        assert(away.take(0) =~= Seq::empty());
        for page in it: stowed
            invariant
                it.seq() == away,
                slug == env@,
                ours == (|p: StripPage| p.is_of(slug)),
                others == (|p: StripPage| !p.is_of(slug)),
                back@ == kept(away.take(it.index() as int), ours),
                keep@ == kept(away.take(it.index() as int), others),
        {
            let ghost i = it.index() as int;
            assert(away.take(i + 1).drop_last() =~= away.take(i));
            assert(away.take(i + 1).last() == away[i]);
            let mine = match &page.owner {
                Some(owner) => owner.same_as(env),
                None => false,
            };
            if mine {
                back.push(page);
            } else {
                keep.push(page);
            }
        }
        assert(away.take(away.len() as int) =~= away);
        here.append(&mut back);
        keep.append(&mut leaving);
        assert(here@ =~= strip_for(screen, away, slug));
        assert(keep@ =~= stowed_for(screen, away, slug));
        self.strip = here;
        self.stowed = keep;
    }
}

proof fn lemma_kept_split(
    pages: Seq<StripPage>,
    p: spec_fn(StripPage) -> bool,
    q: spec_fn(StripPage) -> bool,
)
    requires
        forall|x: StripPage| #[trigger] p(x) <==> !q(x),
    ensures
        kept(pages, p).to_multiset().add(kept(pages, q).to_multiset()) =~= pages.to_multiset(),
    decreases pages.len(),
{
    broadcast use vstd::seq_lib::group_to_multiset_ensures;

    if pages.len() == 0 {
        assert(kept(pages, p) =~= Seq::empty());
        assert(kept(pages, q) =~= Seq::empty());
        assert(pages =~= Seq::empty());
    } else {
        lemma_kept_split(pages.drop_last(), p, q);
        assert(pages =~= pages.drop_last().push(pages.last()));
        assert(p(pages.last()) <==> !q(pages.last()));
    }
}

proof fn lemma_kept_holds(pages: Seq<StripPage>, p: spec_fn(StripPage) -> bool)
    ensures
        forall|i: int| 0 <= i < kept(pages, p).len() ==> p(#[trigger] kept(pages, p)[i]),
    decreases pages.len(),
{
    if pages.len() > 0 {
        lemma_kept_holds(pages.drop_last(), p);
        let shorter = kept(pages.drop_last(), p);
        assert forall|i: int| 0 <= i < kept(pages, p).len() implies p(
            #[trigger] kept(pages, p)[i],
        ) by {
            if i < shorter.len() {
                assert(kept(pages, p)[i] == shorter[i]);
            } else {
                assert(kept(pages, p)[i] == pages.last());
            }
        }
    }
}

/// Looking at another environment loses no shell and makes none: every page
/// that was on screen or stowed still is one or the other, exactly once.
pub proof fn no_shell_is_lost(strip: Seq<StripPage>, stowed: Seq<StripPage>, slug: Seq<char>)
    ensures
        strip_for(strip, stowed, slug).to_multiset().add(
            stowed_for(strip, stowed, slug).to_multiset(),
        ) =~= strip.to_multiset().add(stowed.to_multiset()),
{
    let stays = |p: StripPage| !p.is_foreign(slug);
    let leaves = |p: StripPage| p.is_foreign(slug);
    let ours = |p: StripPage| p.is_of(slug);
    let others = |p: StripPage| !p.is_of(slug);
    lemma_kept_split(strip, stays, leaves);
    lemma_kept_split(stowed, ours, others);
    vstd::seq_lib::lemma_multiset_commutative(kept(strip, stays), kept(stowed, ours));
    vstd::seq_lib::lemma_multiset_commutative(kept(stowed, others), kept(strip, leaves));
}

/// After the sync, the shells on screen are the selected environment's and
/// none of its shells is stowed; pages that are nobody's never leave.
pub proof fn the_strip_is_the_selected_environments(
    strip: Seq<StripPage>,
    stowed: Seq<StripPage>,
    slug: Seq<char>,
)
    requires
        forall|i: int| 0 <= i < stowed.len() ==> (#[trigger] stowed[i]).owner is Some,
    ensures
        forall|i: int|
            0 <= i < strip_for(strip, stowed, slug).len() ==> !(#[trigger] strip_for(
                strip,
                stowed,
                slug,
            )[i]).is_foreign(slug),
        forall|i: int|
            0 <= i < stowed_for(strip, stowed, slug).len() ==> (#[trigger] stowed_for(
                strip,
                stowed,
                slug,
            )[i]).is_foreign(slug),
{
    let stays = |p: StripPage| !p.is_foreign(slug);
    let leaves = |p: StripPage| p.is_foreign(slug);
    let ours = |p: StripPage| p.is_of(slug);
    let others = |p: StripPage| !p.is_of(slug);
    let owned = |p: StripPage| p.owner is Some;
    lemma_kept_holds(strip, stays);
    lemma_kept_holds(strip, leaves);
    lemma_kept_holds(stowed, ours);
    lemma_kept_holds(stowed, others);
    lemma_kept_among(stowed, others, owned);
    let a = kept(strip, stays);
    let b = kept(stowed, ours);
    let c = kept(stowed, others);
    let d = kept(strip, leaves);
    assert forall|i: int| 0 <= i < (a + b).len() implies !(#[trigger] (a + b)[i]).is_foreign(
        slug,
    ) by {
        if i < a.len() {
            assert(stays(a[i]));
        } else {
            assert(ours(b[i - a.len()]));
        }
    }
    assert forall|i: int| 0 <= i < (c + d).len() implies (#[trigger] (c + d)[i]).is_foreign(
        slug,
    ) by {
        if i < c.len() {
            assert(others(c[i]));
            assert(owned(c[i]));
        } else {
            assert(leaves(d[i - c.len()]));
        }
    }
}

proof fn lemma_kept_among(
    pages: Seq<StripPage>,
    p: spec_fn(StripPage) -> bool,
    q: spec_fn(StripPage) -> bool,
)
    requires
        forall|i: int| 0 <= i < pages.len() ==> q(#[trigger] pages[i]),
    ensures
        forall|i: int| 0 <= i < kept(pages, p).len() ==> q(#[trigger] kept(pages, p)[i]),
    decreases pages.len(),
{
    if pages.len() > 0 {
        assert(q(pages[pages.len() - 1]));
        assert forall|i: int| 0 <= i < pages.drop_last().len() implies q(
            #[trigger] pages.drop_last()[i],
        ) by {
            assert(q(pages[i]));
        }
        lemma_kept_among(pages.drop_last(), p, q);
        let shorter = kept(pages.drop_last(), p);
        assert forall|i: int| 0 <= i < kept(pages, p).len() implies q(
            #[trigger] kept(pages, p)[i],
        ) by {
            if i < shorter.len() {
                assert(kept(pages, p)[i] == shorter[i]);
            } else {
                assert(kept(pages, p)[i] == pages.last());
            }
        }
    }
}

/// Syncing to the environment that is already on screen changes nothing.
pub proof fn looking_again_changes_nothing(
    strip: Seq<StripPage>,
    stowed: Seq<StripPage>,
    slug: Seq<char>,
)
    requires
        forall|i: int| 0 <= i < strip.len() ==> !(#[trigger] strip[i]).is_foreign(slug),
        forall|i: int| 0 <= i < stowed.len() ==> (#[trigger] stowed[i]).is_foreign(slug),
    ensures
        strip_for(strip, stowed, slug) == strip,
        stowed_for(strip, stowed, slug) == stowed,
{
    let stays = |p: StripPage| !p.is_foreign(slug);
    let leaves = |p: StripPage| p.is_foreign(slug);
    let ours = |p: StripPage| p.is_of(slug);
    let others = |p: StripPage| !p.is_of(slug);
    assert forall|i: int| 0 <= i < strip.len() implies stays(#[trigger] strip[i]) by {}
    assert forall|i: int| 0 <= i < stowed.len() implies others(#[trigger] stowed[i]) by {}
    assert forall|i: int| 0 <= i < strip.len() implies !leaves(#[trigger] strip[i]) by {}
    assert forall|i: int| 0 <= i < stowed.len() implies !ours(#[trigger] stowed[i]) by {}
    lemma_kept_all(strip, stays);
    lemma_kept_all(stowed, others);
    lemma_kept_none(strip, leaves);
    lemma_kept_none(stowed, ours);
    assert(strip_for(strip, stowed, slug) =~= strip);
    assert(stowed_for(strip, stowed, slug) =~= stowed);
}

proof fn lemma_kept_all(pages: Seq<StripPage>, p: spec_fn(StripPage) -> bool)
    requires
        forall|i: int| 0 <= i < pages.len() ==> p(#[trigger] pages[i]),
    ensures
        kept(pages, p) == pages,
    decreases pages.len(),
{
    if pages.len() > 0 {
        assert(p(pages[pages.len() - 1]));
        assert forall|i: int| 0 <= i < pages.drop_last().len() implies p(
            #[trigger] pages.drop_last()[i],
        ) by {
            assert(p(pages[i]));
        }
        lemma_kept_all(pages.drop_last(), p);
        assert(pages.drop_last().push(pages.last()) =~= pages);
    } else {
        assert(kept(pages, p) =~= pages);
    }
}

proof fn lemma_kept_none(pages: Seq<StripPage>, p: spec_fn(StripPage) -> bool)
    requires
        forall|i: int| 0 <= i < pages.len() ==> !p(#[trigger] pages[i]),
    ensures
        kept(pages, p).len() == 0,
    decreases pages.len(),
{
    if pages.len() > 0 {
        assert(!p(pages[pages.len() - 1]));
        assert forall|i: int| 0 <= i < pages.drop_last().len() implies !p(
            #[trigger] pages.drop_last()[i],
        ) by {
            assert(!p(pages[i]));
        }
        lemma_kept_none(pages.drop_last(), p);
    }
}

/// Whose shell a tab shows.
#[derive(Debug, Clone, Copy, PartialEq, Eq, Structural)]
pub enum ShellKind {
    /// The user's own terminal.
    User,
    /// What an agent runs.
    Agent,
    /// An environment building itself.
    Lifecycle,
}

/// A shell, the environment it belongs to and the page that shows it.
#[derive(Debug, PartialEq, Eq)]
pub struct ShellTab {
    pub shell: u64,
    pub env: EnvironmentId,
    pub page: u64,
    pub kind: ShellKind,
}

impl Clone for ShellTab {
    fn clone(&self) -> (out: Self)
        ensures
            out == *self,
    {
        ShellTab { shell: self.shell, env: self.env.clone(), page: self.page, kind: self.kind }
    }
}

/// The environment whose shell a page shows, where it shows one.
pub open spec fn owner_of(tabs: Seq<ShellTab>, page: u64) -> Option<EnvironmentId>
    decreases tabs.len(),
{
    if tabs.len() == 0 {
        None
    } else if tabs[0].page == page {
        Some(tabs[0].env)
    } else {
        owner_of(tabs.subrange(1, tabs.len() as int), page)
    }
}

/// A page that no tab is on has no owner, and any other has.
proof fn lemma_owned(tabs: Seq<ShellTab>, page: u64)
    ensures
        owner_of(tabs, page) is Some <==> exists|i: int|
            0 <= i < tabs.len() && (#[trigger] tabs[i]).page == page,
    decreases tabs.len(),
{
    if tabs.len() > 0 {
        let rest = tabs.subrange(1, tabs.len() as int);
        lemma_owned(rest, page);
        if owner_of(rest, page) is Some {
            let i = choose|i: int| 0 <= i < rest.len() && (#[trigger] rest[i]).page == page;
            assert(tabs[i + 1].page == page);
        }
        if exists|i: int| 0 <= i < tabs.len() && (#[trigger] tabs[i]).page == page {
            let i = choose|i: int| 0 <= i < tabs.len() && (#[trigger] tabs[i]).page == page;
            if i > 0 {
                assert(rest[i - 1].page == page);
            }
        }
    }
}

/// Some pages with their owners.
pub open spec fn owned_pages(pages: Seq<u64>, tabs: Seq<ShellTab>) -> Seq<StripPage> {
    Seq::new(
        pages.len(),
        |i: int| StripPage { page: pages[i], owner: owner_of(tabs, pages[i]) },
    )
}

/// The numbers of some pages.
pub open spec fn page_numbers(pages: Seq<StripPage>) -> Seq<u64> {
    Seq::new(pages.len(), |i: int| pages[i].page)
}

/// What closing one of the pane's tabs comes to.
#[derive(Debug, PartialEq, Eq)]
pub enum CloseRequest {
    /// A fixture never closes.
    Refuse,
    /// Close it; these of the user's own shells leave the roster with it.
    Close { leaves_roster: Vec<u64> },
}

/// The user's own shells on a page, among the first `n` tabs.
pub open spec fn users_on(tabs: Seq<ShellTab>, n: int, page: u64) -> Seq<u64>
    decreases n,
{
    if n <= 0 {
        Seq::empty()
    } else if tabs[n - 1].page == page && tabs[n - 1].kind == ShellKind::User {
        users_on(tabs, n - 1, page).push(tabs[n - 1].shell)
    } else {
        users_on(tabs, n - 1, page)
    }
}

/// The tabs, among the first `n`, that are on other pages.
pub open spec fn tabs_without(tabs: Seq<ShellTab>, n: int, page: u64) -> Seq<ShellTab>
    decreases n,
{
    if n <= 0 {
        Seq::empty()
    } else if tabs[n - 1].page != page {
        tabs_without(tabs, n - 1, page).push(tabs[n - 1])
    } else {
        tabs_without(tabs, n - 1, page)
    }
}

/// What a tab that opens records: the shell and its environment, and whether
/// it retires when the devcontainer attaches.
pub open spec fn opened(console: Console, tab: ShellTab, on_host: bool) -> (
    Seq<ShellTab>,
    Seq<u64>,
) {
    (
        console.shell_tabs@.push(tab),
        if on_host {
            console.host_shells@.push(tab.page)
        } else {
            console.host_shells@
        },
    )
}

/// Whether a page is the console's: its fixture, or a shell's.
pub open spec fn owns(console: Console, page: u64, fixture: bool) -> bool {
    fixture || exists|i: int|
        0 <= i < console.shell_tabs@.len() && (#[trigger] console.shell_tabs@[i]).page == page
}

/// An environment's container moved.
pub open spec fn attaches(
    before: Console,
    after: Console,
    slug: Seq<char>,
    running: bool,
    out: (Vec<u64>, bool),
) -> bool {
    &&& if slug == EnvironmentId::primary_slug() && running {
        out.0@ == before.host_shells@ && after.host_shells@.len() == 0 && out.1
            == (before.host_shells@.len() > 0)
    } else {
        out.0@.len() == 0 && !out.1 && after.host_shells == before.host_shells
    }
    &&& after == (Console { host_shells: after.host_shells, ..before })
}

/// One of the pane's tabs is to close.
pub open spec fn closes(
    before: Console,
    after: Console,
    page: u64,
    fixture: bool,
    out: CloseRequest,
) -> bool {
    &&& match out {
        CloseRequest::Refuse => fixture && after == before,
        CloseRequest::Close { leaves_roster } => {
            let tabs = before.shell_tabs@;
            &&& !fixture
            &&& after.shell_tabs@ == tabs_without(tabs, tabs.len() as int, page)
            &&& leaves_roster@ == users_on(tabs, tabs.len() as int, page)
            &&& after == (Console {
                shell_tabs: after.shell_tabs,
                ..before
            })
        },
    }
}

/// The strip made to show the selected environment's shells.
pub open spec fn syncs(before: Console, after: Console, on_screen: Seq<u64>, strip: Seq<u64>) -> bool {
    let pages = owned_pages(on_screen, before.shell_tabs@);
    &&& strip == page_numbers(strip_for(pages, before.stowed@, before.selected@))
    &&& after.stowed@ == stowed_for(pages, before.stowed@, before.selected@)
    &&& after == (Console { stowed: after.stowed, ..before })
}

/// The first `n` pages that are the console's.
pub open spec fn pages_owned(console: Console, pages: Seq<(u64, bool)>, n: int) -> Seq<u64>
    decreases n,
{
    if n <= 0 {
        Seq::empty()
    } else if owns(console, pages[n - 1].0, pages[n - 1].1) {
        pages_owned(console, pages, n - 1).push(pages[n - 1].0)
    } else {
        pages_owned(console, pages, n - 1)
    }
}

impl Console {
    fn find_owner(&self, page: u64) -> (out: Option<&EnvironmentId>)
        ensures
            match out {
                Some(env) => owner_of(self.shell_tabs@, page) == Some(*env),
                None => owner_of(self.shell_tabs@, page) is None,
            },
    {
        let mut i: usize = 0;
        assert(self.shell_tabs@.subrange(0, self.shell_tabs@.len() as int) =~= self.shell_tabs@);
        while i < self.shell_tabs.len()
            invariant
                i <= self.shell_tabs@.len(),
                owner_of(self.shell_tabs@, page) == owner_of(
                    self.shell_tabs@.subrange(i as int, self.shell_tabs@.len() as int),
                    page,
                ),
            decreases self.shell_tabs@.len() - i,
        {
            let ghost rest = self.shell_tabs@.subrange(i as int, self.shell_tabs@.len() as int);
            if self.shell_tabs[i].page == page {
                assert(rest[0].page == page);
                return Some(&self.shell_tabs[i].env);
            }
            assert(rest.subrange(1, rest.len() as int) =~= self.shell_tabs@.subrange(
                i + 1,
                self.shell_tabs@.len() as int,
            ));
            i += 1;
        }
        None
    }

    /// The environment a terminal on a page counts for.
    pub open spec fn page_env(&self, page: u64) -> Seq<char> {
        match owner_of(self.shell_tabs@, page) {
            Some(env) => env@,
            None => self.selected@,
        }
    }

    /// The environment a terminal on a page counts for: the one whose shell it
    /// shows, and for a page that shows none the selected one.
    pub fn env_of_page(&self, page: u64) -> (out: EnvironmentId)
        ensures
            out@ == self.page_env(page),
    {
        match self.find_owner(page) {
            Some(env) => env.clone(),
            None => self.selected.clone(),
        }
    }

    /// A shell's tab opened.
    pub fn shell_opened(&mut self, tab: ShellTab, on_host: bool)
        ensures
            (final(self).shell_tabs@, final(self).host_shells@) == opened(
                *old(self),
                tab,
                on_host,
            ),
            *final(self) == (Console {
                shell_tabs: final(self).shell_tabs,
                host_shells: final(self).host_shells,
                ..*old(self)
            }),
    {
        if on_host {
            self.host_shells.push(tab.page);
        }
        self.shell_tabs.push(tab);
    }

    /// Closing one of the pane's tabs, wherever the strip is. A shell's tab
    /// closing is how the user ends it: for their own terminals that is the
    /// kill.
    pub fn close_request(&mut self, page: u64, fixture: bool) -> (out: CloseRequest)
        ensures
            closes(*old(self), *final(self), page, fixture, out),
    {
        if fixture {
            return CloseRequest::Refuse;
        }
        let ghost before = self.shell_tabs@;
        let mut leaves: Vec<u64> = Vec::new();
        let mut left: Vec<ShellTab> = Vec::new();
        let mut i: usize = 0;
        while i < self.shell_tabs.len()
            invariant
                *self == *old(self),
                self.shell_tabs@ == before,
                i <= before.len(),
                left@ == tabs_without(before, i as int, page),
                leaves@ == users_on(before, i as int, page),
            decreases before.len() - i,
        {
            let tab = &self.shell_tabs[i];
            if tab.page == page {
                if tab.kind == ShellKind::User {
                    leaves.push(tab.shell);
                }
            } else {
                left.push(tab.clone());
            }
            i += 1;
        }
        self.shell_tabs = left;
        CloseRequest::Close { leaves_roster: leaves }
    }

    /// Whether a page is this pane's: its fixture, or a shell's.
    pub fn owns_page(&self, page: u64, fixture: bool) -> (r: bool)
        ensures
            r == owns(*self, page, fixture),
    {
        proof {
            lemma_owned(self.shell_tabs@, page);
        }
        fixture || self.find_owner(page).is_some()
    }

    /// This pane's pages, in strip order; each comes with whether it is a
    /// fixture.
    pub fn strip_pages(&self, pages: &Vec<(u64, bool)>) -> (out: Vec<u64>)
        ensures
            out@ == pages_owned(*self, pages@, pages@.len() as int),
    {
        let mut out: Vec<u64> = Vec::new();
        let mut i: usize = 0;
        while i < pages.len()
            invariant
                i <= pages@.len(),
                out@ == pages_owned(*self, pages@, i as int),
            decreases pages@.len() - i,
        {
            if self.owns_page(pages[i].0, pages[i].1) {
                out.push(pages[i].0);
            }
            i += 1;
        }
        out
    }

    /// An environment's container moved. Once the primary's is up, the shells
    /// that ran on the machine retire, and one inside takes their place if
    /// there were any: the pages to close, and whether to open that one.
    pub fn on_environment_state(&mut self, env: &EnvironmentId, running: bool) -> (out: (
        Vec<u64>,
        bool,
    ))
        ensures
            attaches(*old(self), *final(self), env@, running, out),
    {
        let mut stale: Vec<u64> = Vec::new();
        if env.is_primary() && running {
            std::mem::swap(&mut stale, &mut self.host_shells);
            let had = stale.len() > 0;
            return (stale, had);
        }
        (stale, false)
    }

    /// Make the shell tabs on screen be the selected environment's, and only
    /// those. `on_screen` are the pages of the strip; the ones it should have
    /// come back, in order.
    pub fn sync_shell_tabs(&mut self, on_screen: &Vec<u64>) -> (strip: Vec<u64>)
        ensures
            syncs(*old(self), *final(self), on_screen@, strip@),
    {
        let mut pages: Vec<StripPage> = Vec::new();
        let mut i: usize = 0;
        while i < on_screen.len()
            invariant
                *self == *old(self),
                i <= on_screen@.len(),
                pages@ == owned_pages(on_screen@, self.shell_tabs@).take(i as int),
            decreases on_screen@.len() - i,
        {
            let owner = match self.find_owner(on_screen[i]) {
                Some(env) => Some(env.clone()),
                None => None,
            };
            pages.push(StripPage { page: on_screen[i], owner });
            i += 1;
            assert(pages@ =~= owned_pages(on_screen@, self.shell_tabs@).take(i as int));
        }
        assert(pages@ =~= owned_pages(on_screen@, self.shell_tabs@));
        let mut stowed: Vec<StripPage> = Vec::new();
        std::mem::swap(&mut stowed, &mut self.stowed);
        let mut tabs = ShellTabs { strip: pages, stowed };
        tabs.sync_shell_tabs(&self.selected);
        self.stowed = tabs.stowed;
        let mut strip: Vec<u64> = Vec::new();
        let mut k: usize = 0;
        while k < tabs.strip.len()
            invariant
                k <= tabs.strip@.len(),
                strip@ == page_numbers(tabs.strip@).take(k as int),
            decreases tabs.strip@.len() - k,
        {
            strip.push(tabs.strip[k].page);
            k += 1;
            assert(strip@ =~= page_numbers(tabs.strip@).take(k as int));
        }
        assert(strip@ =~= page_numbers(tabs.strip@));
        strip
    }

    /// The shell roster changed. No tab opens for what an agent runs, which is
    /// shown in its chat: what is left to do is stowing and unstowing.
    pub fn sync_shell_roster(&mut self, on_screen: &Vec<u64>) -> (strip: Vec<u64>)
        ensures
            syncs(*old(self), *final(self), on_screen@, strip@),
    {
        self.sync_shell_tabs(on_screen)
    }
}

proof fn lemma_owner_of(tabs: Seq<ShellTab>, page: u64)
    ensures
        match owner_of(tabs, page) {
            Some(env) => exists|i: int|
                0 <= i < tabs.len() && (#[trigger] tabs[i]).page == page && tabs[i].env == env
                    && forall|j: int| 0 <= j < i ==> (#[trigger] tabs[j]).page != page,
            None => forall|i: int| 0 <= i < tabs.len() ==> (#[trigger] tabs[i]).page != page,
        },
    decreases tabs.len(),
{
    if tabs.len() > 0 && tabs[0].page != page {
        let rest = tabs.subrange(1, tabs.len() as int);
        lemma_owner_of(rest, page);
        assert forall|i: int| 0 < i < tabs.len() implies tabs[i] == rest[i - 1] by {
        }
        if let Some(env) = owner_of(rest, page) {
            let i = choose|i: int|
                0 <= i < rest.len() && (#[trigger] rest[i]).page == page && rest[i].env == env
                    && forall|j: int| 0 <= j < i ==> (#[trigger] rest[j]).page != page;
            assert(tabs[i + 1] == rest[i]);
            assert forall|j: int| 0 <= j < i + 1 implies (#[trigger] tabs[j]).page != page by {
                if j > 0 {
                    assert(rest[j - 1].page != page);
                }
            }
        } else {
            assert forall|i: int| 0 <= i < tabs.len() implies (#[trigger] tabs[i]).page != page by {
                if i > 0 {
                    assert(rest[i - 1].page != page);
                }
            }
        }
    } else if tabs.len() > 0 {
        assert(tabs[0].page == page);
    }
}

/// A page counts for the environment whose shell it shows, and for the selected
/// one where it shows none.
pub proof fn a_page_counts_for_its_shell(console: Console, page: u64)
    ensures
        (forall|i: int|
            0 <= i < console.shell_tabs@.len() ==> (#[trigger] console.shell_tabs@[i]).page != page)
            ==> console.page_env(page) == console.selected@,
        forall|i: int|
            0 <= i < console.shell_tabs@.len() && (#[trigger] console.shell_tabs@[i]).page == page
                && (forall|j: int|
                0 <= j < i ==> (#[trigger] console.shell_tabs@[j]).page != page)
                ==> console.page_env(page) == console.shell_tabs@[i].env@,
{
    let tabs = console.shell_tabs@;
    lemma_owner_of(tabs, page);
    assert forall|i: int|
        0 <= i < tabs.len() && (#[trigger] tabs[i]).page == page && (forall|j: int|
            0 <= j < i ==> (#[trigger] tabs[j]).page != page) implies console.page_env(page)
        == tabs[i].env@ by {
        let env = owner_of(tabs, page)->0;
        let k = choose|k: int|
            0 <= k < tabs.len() && (#[trigger] tabs[k]).page == page && tabs[k].env == env
                && forall|j: int| 0 <= j < k ==> (#[trigger] tabs[j]).page != page;
        if k < i {
            assert(tabs[k].page != page);
        }
        if i < k {
            assert(tabs[i].page != page);
        }
    }
}

proof fn lemma_users_on(tabs: Seq<ShellTab>, n: int, page: u64, shell: u64)
    requires
        0 <= n <= tabs.len(),
    ensures
        users_on(tabs, n, page).contains(shell) <==> exists|i: int|
            0 <= i < n && (#[trigger] tabs[i]).shell == shell && tabs[i].page == page && tabs[i].kind
                == ShellKind::User,
    decreases n,
{
    if n > 0 {
        lemma_users_on(tabs, n - 1, page, shell);
        let before = users_on(tabs, n - 1, page);
        let all = users_on(tabs, n, page);
        if all.contains(shell) {
            let k = choose|k: int| 0 <= k < all.len() && all[k] == shell;
            if k < before.len() {
                assert(before[k] == shell);
                assert(before.contains(shell));
            } else {
                assert(tabs[n - 1].shell == shell);
            }
        }
        if before.contains(shell) {
            let k = choose|k: int| 0 <= k < before.len() && before[k] == shell;
            assert(all[k] == shell);
        }
        if exists|i: int|
            0 <= i < n && (#[trigger] tabs[i]).shell == shell && tabs[i].page == page && tabs[i].kind
                == ShellKind::User {
            let i = choose|i: int|
                0 <= i < n && (#[trigger] tabs[i]).shell == shell && tabs[i].page == page
                    && tabs[i].kind == ShellKind::User;
            if i < n - 1 {
                assert(before.contains(shell));
            } else {
                assert(all[all.len() - 1] == shell);
            }
        }
    }
}

proof fn lemma_tabs_without(tabs: Seq<ShellTab>, n: int, page: u64, tab: ShellTab)
    requires
        0 <= n <= tabs.len(),
    ensures
        tabs_without(tabs, n, page).contains(tab) <==> exists|i: int|
            0 <= i < n && #[trigger] tabs[i] == tab && tab.page != page,
    decreases n,
{
    if n > 0 {
        lemma_tabs_without(tabs, n - 1, page, tab);
        let before = tabs_without(tabs, n - 1, page);
        let all = tabs_without(tabs, n, page);
        if all.contains(tab) {
            let k = choose|k: int| 0 <= k < all.len() && all[k] == tab;
            if k < before.len() {
                assert(before[k] == tab);
                assert(before.contains(tab));
            } else {
                assert(tabs[n - 1] == tab);
            }
        }
        if before.contains(tab) {
            let k = choose|k: int| 0 <= k < before.len() && before[k] == tab;
            assert(all[k] == tab);
        }
        if exists|i: int| 0 <= i < n && #[trigger] tabs[i] == tab && tab.page != page {
            let i = choose|i: int| 0 <= i < n && #[trigger] tabs[i] == tab && tab.page != page;
            if i < n - 1 {
                assert(before.contains(tab));
            } else {
                assert(all[all.len() - 1] == tab);
            }
        }
    }
}

/// A fixture never closes. Any other page that closes takes its own tabs with it
/// and no other's, and ends the user's shells on it: not an agent's, nor an
/// environment's own.
pub proof fn closing_ends_the_users_own_shells(
    before: Console,
    after: Console,
    page: u64,
    fixture: bool,
    out: CloseRequest,
    shell: u64,
    tab: ShellTab,
)
    requires
        closes(before, after, page, fixture, out),
    ensures
        fixture <==> out is Refuse,
        fixture ==> after == before,
        out matches CloseRequest::Close { leaves_roster } ==> (leaves_roster@.contains(shell)
            <==> exists|i: int|
            0 <= i < before.shell_tabs@.len() && (#[trigger] before.shell_tabs@[i]).shell == shell
                && before.shell_tabs@[i].page == page && before.shell_tabs@[i].kind
                == ShellKind::User),
        out is Close ==> (after.shell_tabs@.contains(tab) <==> before.shell_tabs@.contains(tab)
            && tab.page != page),
        after.stowed == before.stowed && after.host_shells == before.host_shells,
{
    let tabs = before.shell_tabs@;
    lemma_users_on(tabs, tabs.len() as int, page, shell);
    lemma_tabs_without(tabs, tabs.len() as int, page, tab);
    if before.shell_tabs@.contains(tab) {
        let i = choose|i: int| 0 <= i < tabs.len() && tabs[i] == tab;
        assert(tabs[i] == tab);
    }
}

/// The shells that ran on the machine retire when the user's own container is
/// up, all of them and only then, and one takes their place where there were
/// any.
pub proof fn host_shells_retire_with_the_container(
    before: Console,
    after: Console,
    slug: Seq<char>,
    running: bool,
    out: (Vec<u64>, bool),
)
    requires
        attaches(before, after, slug, running, out),
    ensures
        slug == "primary"@ && running ==> out.0@ == before.host_shells@
            && after.host_shells@.len() == 0,
        slug != "primary"@ || !running ==> out.0@.len() == 0 && after.host_shells
            == before.host_shells,
        out.1 <==> slug == "primary"@ && running && before.host_shells@.len() > 0,
        after.shell_tabs == before.shell_tabs,
{
}

/// A tab that opens is recorded behind the others, and as one that retires only
/// where it runs on the machine.
pub proof fn a_tab_that_opens_is_recorded(console: Console, tab: ShellTab, on_host: bool)
    ensures
        opened(console, tab, on_host).0.last() == tab,
        opened(console, tab, on_host).0.drop_last() == console.shell_tabs@,
        on_host ==> opened(console, tab, on_host).1.last() == tab.page && opened(
            console,
            tab,
            on_host,
        ).1.drop_last() == console.host_shells@,
        !on_host ==> opened(console, tab, on_host).1 == console.host_shells@,
{
    assert(console.shell_tabs@.push(tab).drop_last() =~= console.shell_tabs@);
    assert(console.host_shells@.push(tab.page).drop_last() =~= console.host_shells@);
}

/// The pane's pages are its fixture and its shells', in strip order, and nobody
/// else's.
pub proof fn the_panes_pages_are_its_own(
    console: Console,
    pages: Seq<(u64, bool)>,
    n: int,
    page: u64,
)
    requires
        0 <= n <= pages.len(),
    ensures
        pages_owned(console, pages, n).contains(page) <==> exists|i: int|
            0 <= i < n && (#[trigger] pages[i]).0 == page && (pages[i].1 || exists|k: int|
                0 <= k < console.shell_tabs@.len() && (#[trigger] console.shell_tabs@[k]).page
                    == page),
        pages_owned(console, pages, n).len() <= n,
    decreases n,
{
    if n > 0 {
        the_panes_pages_are_its_own(console, pages, n - 1, page);
        let before = pages_owned(console, pages, n - 1);
        let all = pages_owned(console, pages, n);
        let last = pages[n - 1];
        if all.contains(page) {
            let k = choose|k: int| 0 <= k < all.len() && all[k] == page;
            if k < before.len() {
                assert(before[k] == page);
                assert(before.contains(page));
            } else {
                assert(pages[n - 1].0 == page && owns(console, page, pages[n - 1].1));
            }
        }
        if before.contains(page) {
            let k = choose|k: int| 0 <= k < before.len() && before[k] == page;
            assert(all[k] == page);
        }
        if last.0 == page && owns(console, page, last.1) {
            assert(all[all.len() - 1] == page);
        }
        if !all.contains(page) {
            assert(!before.contains(page));
            assert(!(last.0 == page && owns(console, page, last.1)));
        }
    }
}

/// The strip shows the selected environment's pages and those of nobody: no page
/// of another environment stays on screen, and none that shows no shell leaves.
pub proof fn the_strip_follows_the_selection(
    before: Console,
    after: Console,
    on_screen: Seq<u64>,
    strip: Seq<u64>,
    page: u64,
)
    requires
        syncs(before, after, on_screen, strip),
        on_screen.contains(page),
    ensures
        owner_of(before.shell_tabs@, page) is None ==> strip.contains(page),
        owner_of(before.shell_tabs@, page) matches Some(env) ==> (env@ == before.selected@
            ==> strip.contains(page)),
        owner_of(before.shell_tabs@, page) matches Some(env) ==> (env@ != before.selected@ ==> exists|
            i: int,
        |
            0 <= i < after.stowed@.len() && (#[trigger] after.stowed@[i]).page == page),
        after.shell_tabs == before.shell_tabs && after.selected == before.selected,
{
    let pages = owned_pages(on_screen, before.shell_tabs@);
    let slug = before.selected@;
    let at = choose|at: int| 0 <= at < on_screen.len() && on_screen[at] == page;
    let mine = pages[at];
    assert(mine.page == page && mine.owner == owner_of(before.shell_tabs@, page));
    let stays = |p: StripPage| !p.is_foreign(slug);
    let goes = |p: StripPage| p.is_foreign(slug);
    lemma_kept_has(pages, stays, at);
    lemma_kept_has(pages, goes, at);
    let on = kept(pages, stays);
    let off = kept(pages, goes);
    let back = kept(before.stowed@, |p: StripPage| p.is_of(slug));
    let was = kept(before.stowed@, |p: StripPage| !p.is_of(slug));
    if stays(mine) {
        let k = choose|k: int| 0 <= k < on.len() && on[k] == mine;
        assert((on + back)[k] == mine);
        assert(page_numbers(on + back)[k] == page);
    }
    if goes(mine) {
        let k = choose|k: int| 0 <= k < off.len() && off[k] == mine;
        assert((was + off)[was.len() + k] == mine);
        assert(after.stowed@[was.len() + k].page == page);
    }
}

proof fn lemma_kept_has(pages: Seq<StripPage>, p: spec_fn(StripPage) -> bool, at: int)
    requires
        0 <= at < pages.len(),
    ensures
        p(pages[at]) ==> kept(pages, p).contains(pages[at]),
    decreases pages.len(),
{
    let rest = pages.drop_last();
    let before = kept(rest, p);
    let all = kept(pages, p);
    if p(pages[at]) {
        if at < rest.len() {
            lemma_kept_has(rest, p, at);
            assert(rest[at] == pages[at]);
            let k = choose|k: int| 0 <= k < before.len() && before[k] == pages[at];
            assert(all[k] == pages[at]);
        } else {
            assert(all[all.len() - 1] == pages[at]);
        }
    }
}

} // verus!
