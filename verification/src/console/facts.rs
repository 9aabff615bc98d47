//! The facts behind the fleet: read off-thread, cached here, and assembled
//! into the rows that everything else renders.

use vstd::prelude::*;
use crate::console::envmap::EnvMap;
use crate::console::issues::{adopt_claims, claims_of, claims_view, clone_claims, held, Issue};
use crate::console::resources::{resources_shown, resources_tooltip, RESOURCES_TOOLTIP};
use crate::console::review::ReviewFacts;
use crate::console::same::{
    fleets_agree, pools_agree, queues_agree, same_fleet, same_pool, same_queue,
};
use crate::console::shells::{ShellTab, StripPage};
use crate::console::terminal::new_terminal_tooltip;
use crate::environment::{
    capped_sum, Claim, ConfigAuthority, DiskUsage, EnvironmentId, ReviewState, SupervisorState,
    WorkspaceState,
};
use crate::envstrip::title_shown;
use crate::fleet::{
    assemble, assembled, facts_agree, ChatBinding, EnvFacts, EnvGit, FleetRow, PoolFacts, Spend,
};
use crate::order::{
    codes, is_stable_order, key_less, key_of, keys_of, lex_less, permute, placed_before,
    stable_order, text_codes,
};
use crate::quota::QuotaSnapshot;
use crate::text::texts;

verus! {

/// What the console holds between reads.
#[derive(Debug, PartialEq, Eq)]
pub struct Console {
    /// What the fleet last rendered.
    pub rows: Vec<FleetRow>,
    /// The environment this pane is about.
    pub selected: EnvironmentId,
    pub git_facts: EnvMap<EnvGit>,
    /// What each environment has claimed off the issue queue.
    pub claim_facts: EnvMap<Vec<Claim>>,
    pub disk_facts: EnvMap<DiskUsage>,
    /// Where each environment's branch stands, for those that have left
    /// `Working`.
    pub review_facts: EnvMap<ReviewFacts>,
    /// The agents' branches in the user's checkout.
    pub published: Vec<String>,
    /// What the user calls the environments.
    pub state: WorkspaceState,
    pub issues: Vec<Issue>,
    pub pool: PoolFacts,
    /// The tabs showing shells, and the environments those belong to. One
    /// whose process has exited is kept: the tab is the record that it ran.
    pub shell_tabs: Vec<ShellTab>,
    /// The pages of the environments that are not on screen.
    pub stowed: Vec<StripPage>,
    /// The pages of shells on the machine itself, which retire when the
    /// devcontainer attaches.
    pub host_shells: Vec<u64>,
    /// A fabricated fleet. Where there is one, real reads do not land on top
    /// of it.
    pub probe_rows: Vec<EnvFacts>,
    /// A fabricated queue stands.
    pub probe_issues: bool,
}

/// What a row is called where its draw on the pool is listed.
pub open spec fn spender_label(row: FleetRow) -> Seq<char> {
    if row.primary {
        "Yours"@
    } else {
        row.env@
    }
}

/// What a row has drawn.
pub open spec fn spender_tokens(row: FleetRow) -> u64 {
    capped_sum(row.spend.input_tokens, row.spend.output_tokens)
}

/// Those of the first `n` rows that drew on the pool, in row order.
pub open spec fn spenders_in(rows: Seq<FleetRow>, n: int) -> Seq<(Seq<char>, u64)>
    decreases n,
{
    if n <= 0 {
        Seq::empty()
    } else if spender_tokens(rows[n - 1]) > 0 {
        spenders_in(rows, n - 1).push((spender_label(rows[n - 1]), spender_tokens(rows[n - 1])))
    } else {
        spenders_in(rows, n - 1)
    }
}

/// A spender's place: the biggest first, then by label.
pub open spec fn spender_key(spender: (Seq<char>, u64)) -> Seq<Seq<u64>> {
    seq![seq![(u64::MAX - spender.1) as u64], codes(spender.0)]
}

/// The places of some spenders.
pub open spec fn spender_keys(spenders: Seq<(Seq<char>, u64)>) -> Seq<Seq<Seq<u64>>> {
    Seq::new(spenders.len(), |i: int| spender_key(spenders[i]))
}

/// Spenders, by their labels and tokens.
pub open spec fn spenders_view(spenders: Seq<(String, u64)>) -> Seq<(Seq<char>, u64)> {
    Seq::new(spenders.len(), |i: int| (spenders[i].0@, spenders[i].1))
}

/// `out` lists these spenders, the biggest first and those that drew alike by
/// their labels.
pub open spec fn lists_spenders(out: Seq<(Seq<char>, u64)>, spenders: Seq<(Seq<char>, u64)>) -> bool {
    exists|order: Seq<usize>| #[trigger]
        is_stable_order(order, spender_keys(spenders)) && out.len() == spenders.len() && (forall|
            i: int,
        |
            0 <= i < out.len() ==> #[trigger] out[i] == spenders[order[i] as int])
}

/// Who drew on the pool, off the fleet's rows: the biggest first, because the
/// question this answers is what is eating it.
pub fn rank_spenders(rows: &Vec<FleetRow>) -> (out: Vec<(String, u64)>)
    ensures
        lists_spenders(spenders_view(out@), spenders_in(rows@, rows@.len() as int)),
{
    let mut spenders: Vec<(String, u64)> = Vec::new();
    let mut keys: Vec<Vec<Vec<u64>>> = Vec::new();
    let mut i: usize = 0;
    assert(spenders_view(spenders@) =~= spenders_in(rows@, 0));
    assert(keys_of(keys@) =~= spender_keys(spenders_in(rows@, 0)));
    while i < rows.len()
        invariant
            i <= rows@.len(),
            spenders_view(spenders@) == spenders_in(rows@, i as int),
            keys_of(keys@) == spender_keys(spenders_in(rows@, i as int)),
        decreases rows@.len() - i,
    {
        let row = &rows[i];
        let tokens: u64 = row.spend.tokens();
        if !row.spend.is_zero() && tokens > 0 {
            let ghost before = spenders@;
            let ghost had = keys@;
            let label = if row.primary {
                "Yours".to_owned()
            } else {
                row.env.slug.clone()
            };
            let mut draw: Vec<u64> = Vec::new();
            draw.push(u64::MAX - tokens);
            let mut key: Vec<Vec<u64>> = Vec::new();
            key.push(draw);
            key.push(text_codes(label.as_str()));
            let ghost spender = (label@, tokens);
            proof {
                assert(draw@ =~= seq![(u64::MAX - tokens) as u64]);
                assert(key_of(key) =~= spender_key(spender));
            }
            spenders.push((label, tokens));
            keys.push(key);
            assert(spenders_view(spenders@) =~= spenders_view(before).push(spender));
            assert(keys_of(keys@) =~= keys_of(had).push(spender_key(spender)));
            assert(spender_keys(spenders_in(rows@, i + 1)) =~= spender_keys(
                spenders_in(rows@, i as int),
            ).push(spender_key(spender)));
        }
        i += 1;
    }
    let order = stable_order(&keys);
    let ghost listed = spenders_in(rows@, rows@.len() as int);
    let ghost unsorted = spenders@;
    assert(spenders_view(unsorted).len() == unsorted.len());
    assert(spender_keys(listed).len() == unsorted.len());
    let out = permute(spenders, &order);
    proof {
        assert forall|i: int| 0 <= i < spenders_view(out@).len() implies #[trigger] spenders_view(
            out@,
        )[i] == listed[order@[i] as int] by {
            assert(out@[i] == unsorted[order@[i] as int]);
            assert(spenders_view(unsorted)[order@[i] as int] == listed[order@[i] as int]);
        }
        assert(is_stable_order(order@, spender_keys(listed)));
    }
    out
}

/// In the listing, a smaller draw never stands before a bigger one.
pub proof fn the_biggest_spender_leads(
    out: Seq<(Seq<char>, u64)>,
    spenders: Seq<(Seq<char>, u64)>,
    i: int,
    j: int,
)
    requires
        lists_spenders(out, spenders),
        0 <= i < j < out.len(),
    ensures
        out[i].1 >= out[j].1,
{
    let order = choose|order: Seq<usize>| #[trigger]
        is_stable_order(order, spender_keys(spenders)) && out.len() == spenders.len() && (forall|
            i: int,
        |
            0 <= i < out.len() ==> #[trigger] out[i] == spenders[order[i] as int]);
    let keys = spender_keys(spenders);
    let x = order[i] as int;
    let y = order[j] as int;
    assert(placed_before(keys, x, y));
    assert(out[i] == spenders[x]);
    assert(out[j] == spenders[y]);
    assert(keys[x] == spender_key(spenders[x]));
    assert(keys[y] == spender_key(spenders[y]));
    let a = spender_key(spenders[x]);
    let b = spender_key(spenders[y]);
    assert(a[0][0] == (u64::MAX - spenders[x].1) as u64);
    assert(b[0][0] == (u64::MAX - spenders[y].1) as u64);
    if a[0] != b[0] {
        assert(key_less(a, b));
        assert(lex_less(a[0], b[0]));
        if a[0][0] == b[0][0] {
            assert(a[0] =~= b[0]);
        }
    }
}

/// What was read of a clone.
pub open spec fn git_read(
    out: EnvGit,
    slug: Seq<char>,
    branch: Option<String>,
    unpublished: Option<usize>,
    dirty: Option<usize>,
) -> bool {
    &&& out.branch == branch
    &&& out.unpublished == match unpublished {
        Some(n) if slug != EnvironmentId::primary_slug() => n,
        _ => 0,
    }
    &&& out.dirty == match dirty {
        Some(n) => n,
        None => 0,
    }
}

/// A clone's git facts. The primary is the hub: it publishes to nobody, so it
/// has nothing unpublished. What could not be read counts as nothing.
pub fn env_git(
    env: &EnvironmentId,
    branch: Option<String>,
    unpublished: Option<usize>,
    dirty: Option<usize>,
) -> (out: EnvGit)
    ensures
        git_read(out, env@, branch, unpublished, dirty),
{
    let unpublished = match unpublished {
        Some(n) => if env.is_primary() {
            0
        } else {
            n
        },
        None => 0,
    };
    let dirty = match dirty {
        Some(n) => n,
        None => 0,
    };
    EnvGit { branch, unpublished, dirty }
}

/// What an environment says of itself, live.
#[derive(Debug, PartialEq, Eq)]
pub struct LiveFacts {
    pub env: EnvironmentId,
    pub state: SupervisorState,
    pub authority: ConfigAuthority,
    pub pending_rebuild: bool,
    pub chat: Option<ChatBinding>,
    pub review: ReviewState,
    pub spend: Spend,
    pub shells: usize,
}

/// The last fact of each environment among some that were read.
pub open spec fn last_read<V>(read: Seq<(EnvironmentId, V)>, slug: Seq<char>) -> Option<V>
    decreases read.len(),
{
    if read.len() == 0 {
        None
    } else if read.last().0@ == slug {
        Some(read.last().1)
    } else {
        last_read(read.drop_last(), slug)
    }
}

/// What the pane's two tooltips say of the selected environment.
#[derive(Debug, PartialEq, Eq)]
pub struct Glance {
    pub resources: String,
    pub new_terminal: String,
}

/// The row of an environment.
pub open spec fn row_at(rows: Seq<FleetRow>, slug: Seq<char>) -> Option<int>
    decreases rows.len(),
{
    if rows.len() == 0 {
        None
    } else if rows[0].env@ == slug {
        Some(0)
    } else {
        match row_at(rows.subrange(1, rows.len() as int), slug) {
            Some(i) => Some(i + 1),
            None => None,
        }
    }
}

/// What a read of the queue comes to.
#[derive(Debug, Clone, Copy, PartialEq, Eq, Structural)]
pub struct QueueRead {
    /// Hand the queue to whoever draws it.
    pub announce: bool,
    /// It moved: the fleet's claims and its open issues may have, too.
    pub moved: bool,
}

/// Some gatherings, and behind them copies of others.
pub open spec fn gathers(all: Seq<EnvFacts>, facts: Seq<EnvFacts>, more: Seq<EnvFacts>) -> bool {
    &&& all.len() == facts.len() + more.len()
    &&& forall|i: int| 0 <= i < facts.len() ==> #[trigger] all[i] == facts[i]
    &&& forall|i: int| 0 <= i < more.len() ==> facts_agree(all[facts.len() + i], #[trigger] more[i])
}

/// Everything about one environment.
pub open spec fn gathered(out: EnvFacts, console: Console, live: LiveFacts) -> bool {
    &&& out.env == live.env
    &&& out.state == live.state
    &&& out.authority == live.authority
    &&& out.pending_rebuild == live.pending_rebuild
    &&& out.chat == live.chat
    &&& out.review == live.review
    &&& out.spend == live.spend
    &&& out.shells == live.shells
    &&& out.git == console.git_facts.fact(live.env@)
    &&& out.disk == console.disk_facts.fact(live.env@)
    &&& claims_view(out.working_on@) == claims_of(console.claim_facts.fact(live.env@))
}

/// The queue was read.
pub open spec fn queue_read(before: Console, after: Console, issues: Vec<Issue>, out: QueueRead) -> bool {
    &&& out.announce == !before.probe_issues
    &&& out.moved == (!before.probe_issues && !queues_agree(before.issues@, issues@))
    &&& !out.moved ==> after == before
    &&& out.moved ==> {
        &&& after.issues == issues
        &&& forall|slug: Seq<char>|
            claims_of(#[trigger] after.claim_facts.fact(slug)) == held(
                issues@,
                issues@.len() as int,
                slug,
            )
        &&& after == (Console {
            issues,
            claim_facts: after.claim_facts,
            ..before
        })
    }
}

/// The git pass is done.
pub open spec fn git_pass(
    before: Console,
    after: Console,
    published: Vec<String>,
    facts: Seq<(EnvironmentId, EnvGit)>,
    review: Seq<(EnvironmentId, ReviewFacts)>,
    announce: bool,
) -> bool {
    &&& announce == (before.probe_rows@.len() == 0)
    &&& after.published == if announce {
        published
    } else {
        before.published
    }
    &&& forall|slug: Seq<char>|
        #[trigger] after.git_facts.fact(slug) == match last_read(facts, slug) {
            Some(git) => Some(git),
            None => before.git_facts.fact(slug),
        }
    &&& announce ==> forall|slug: Seq<char>|
        #[trigger] after.review_facts.fact(slug) == last_read(review, slug)
    &&& !announce ==> after.review_facts == before.review_facts
    &&& after == (Console {
        published: after.published,
        git_facts: after.git_facts,
        review_facts: after.review_facts,
        ..before
    })
}

/// The panes went to an environment.
pub open spec fn watches(before: Console, after: Console, env: EnvironmentId, moved: bool) -> bool {
    &&& moved == (before.selected@ != env@)
    &&& !moved ==> after == before
    &&& moved ==> after == (Console { selected: env, ..before })
}

/// An environment is gone.
pub open spec fn forgets(before: Console, after: Console, slug: Seq<char>, was_selected: bool) -> bool {
    &&& was_selected == (before.selected@ == slug)
    &&& after.selected@ == if was_selected {
        EnvironmentId::primary_slug()
    } else {
        before.selected@
    }
    &&& after.git_facts.fact(slug) is None
    &&& after.claim_facts.fact(slug) is None
    &&& after.review_facts.fact(slug) is None
    &&& after.disk_facts.fact(slug) is None
    &&& forall|other: Seq<char>|
        other != slug ==> (#[trigger] after.git_facts.fact(other)) == before.git_facts.fact(other)
    &&& forall|other: Seq<char>|
        other != slug ==> (#[trigger] after.claim_facts.fact(other)) == before.claim_facts.fact(other)
    &&& forall|other: Seq<char>|
        other != slug ==> (#[trigger] after.review_facts.fact(other)) == before.review_facts.fact(other)
    &&& forall|other: Seq<char>|
        other != slug ==> (#[trigger] after.disk_facts.fact(other)) == before.disk_facts.fact(other)
    &&& after == (Console {
        selected: after.selected,
        git_facts: after.git_facts,
        claim_facts: after.claim_facts,
        review_facts: after.review_facts,
        disk_facts: after.disk_facts,
        ..before
    })
}

/// What the pane says of the selected environment.
pub open spec fn glances(out: Glance, console: Console) -> bool {
    &&& match row_at(console.rows@, console.selected@) {
        Some(i) => {
            let row = console.rows@[i];
            &&& out.resources@ == resources_shown(row)
            &&& out.new_terminal@ == if row.primary || row.state is Running {
                "New terminal in "@ + title_shown(row)
            } else {
                "New terminal for "@ + title_shown(row)
                    + " — nothing is running there, so it opens where the IDE does"@
            }
        },
        None => out.resources@ == RESOURCES_TOOLTIP@
            && out.new_terminal@ == "New terminal in the selected environment"@,
    }
}

/// The row of an environment, where it has one.
pub open spec fn row_in(rows: Seq<FleetRow>, slug: Seq<char>) -> Option<FleetRow> {
    match row_at(rows, slug) {
        Some(i) => Some(rows[i]),
        None => None,
    }
}

impl Console {
    /// No environment has two facts of one kind.
    pub open spec fn wf(&self) -> bool {
        &&& self.git_facts.wf()
        &&& self.claim_facts.wf()
        &&& self.disk_facts.wf()
        &&& self.review_facts.wf()
    }

    /// Aimed at home, with nothing read yet.
    pub fn new() -> (out: Self)
        ensures
            out.wf(),
            out.rows@.len() == 0,
            out.selected@ == EnvironmentId::primary_slug(),
            forall|slug: Seq<char>| (#[trigger] out.git_facts.fact(slug)) is None,
            forall|slug: Seq<char>| (#[trigger] out.claim_facts.fact(slug)) is None,
            forall|slug: Seq<char>| (#[trigger] out.disk_facts.fact(slug)) is None,
            forall|slug: Seq<char>| (#[trigger] out.review_facts.fact(slug)) is None,
            out.published@.len() == 0,
            out.state.names@.len() == 0,
            out.issues@.len() == 0,
            out.pool.quota == QuotaSnapshot::blank(),
            out.pool.spenders@.len() == 0,
            out.shell_tabs@.len() == 0,
            out.stowed@.len() == 0,
            out.host_shells@.len() == 0,
            out.probe_rows@.len() == 0,
            !out.probe_issues,
    {
        Console {
            rows: Vec::new(),
            selected: EnvironmentId::primary(),
            git_facts: EnvMap::new(),
            claim_facts: EnvMap::new(),
            disk_facts: EnvMap::new(),
            review_facts: EnvMap::new(),
            published: Vec::new(),
            state: WorkspaceState::default(),
            issues: Vec::new(),
            pool: PoolFacts { quota: QuotaSnapshot::default(), spenders: Vec::new() },
            shell_tabs: Vec::new(),
            stowed: Vec::new(),
            host_shells: Vec::new(),
            probe_rows: Vec::new(),
            probe_issues: false,
        }
    }

    /// Everything about one environment: what it says live, and what is cached
    /// of it.
    pub fn facts_for(&self, live: LiveFacts) -> (out: EnvFacts)
        ensures
            gathered(out, *self, live),
    {
        let git = match self.git_facts.get(&live.env) {
            Some(git) => Some(git.clone()),
            None => None,
        };
        let disk = match self.disk_facts.get(&live.env) {
            Some(disk) => Some(*disk),
            None => None,
        };
        let working_on = match self.claim_facts.get(&live.env) {
            Some(claims) => clone_claims(claims),
            None => Vec::new(),
        };
        assert(claims_view(working_on@) =~= claims_of(self.claim_facts.fact(live.env@)));
        EnvFacts {
            env: live.env,
            state: live.state,
            authority: live.authority,
            pending_rebuild: live.pending_rebuild,
            chat: live.chat,
            git,
            disk,
            spend: live.spend,
            shells: live.shells,
            review: live.review,
            working_on,
        }
    }

    /// Assemble the fleet from what is known, with the fabricated environments
    /// behind the real ones. `true` means that it reads otherwise than the one
    /// rendered before, and is to be announced.
    pub fn refresh_fleet(&mut self, facts: Vec<EnvFacts>) -> (moved: bool)
        ensures
            exists|all: Seq<EnvFacts>, rows: Seq<FleetRow>|
                gathers(all, facts@, old(self).probe_rows@) && #[trigger] assembled(
                    rows,
                    all,
                    old(self).state,
                    texts(old(self).published@),
                ) && moved == !fleets_agree(old(self).rows@, rows) && (moved
                    ==> final(self).rows@ == rows),
            !moved ==> *final(self) == *old(self),
            *final(self) == (Console { rows: final(self).rows, ..*old(self) }),
    {
        let ghost given = facts@;
        let mut all = facts;
        let mut i: usize = 0;
        while i < self.probe_rows.len()
            invariant
                i <= self.probe_rows@.len(),
                *self == *old(self),
                all@.len() == given.len() + i,
                forall|j: int| 0 <= j < given.len() ==> #[trigger] all@[j] == given[j],
                forall|j: int|
                    0 <= j < i ==> facts_agree(
                        #[trigger] all@[given.len() + j],
                        self.probe_rows@[j],
                    ),
            decreases self.probe_rows@.len() - i,
        {
            all.push(self.probe_rows[i].clone());
            i += 1;
        }
        let ghost gathered = all@;
        assert(gathers(gathered, given, old(self).probe_rows@));
        let rows = assemble(all, &self.state, &self.published);
        assert(assembled(rows@, gathered, old(self).state, texts(old(self).published@)));
        if same_fleet(&self.rows, &rows) {
            return false;
        }
        self.rows = rows;
        true
    }

    /// Take the account's limit state, and who drew on it off the rows. `true`
    /// means that the pool reads otherwise than before.
    pub fn refresh_pool(&mut self, quota: QuotaSnapshot) -> (moved: bool)
        ensures
            exists|fresh: PoolFacts|
                fresh.quota == quota && #[trigger] lists_spenders(
                    spenders_view(fresh.spenders@),
                    spenders_in(old(self).rows@, old(self).rows@.len() as int),
                ) && moved == !pools_agree(old(self).pool, fresh) && (moved ==> final(self).pool
                    == fresh),
            !moved ==> *final(self) == *old(self),
            *final(self) == (Console { pool: final(self).pool, ..*old(self) }),
    {
        let spenders = rank_spenders(&self.rows);
        let fresh = PoolFacts { quota, spenders };
        assert(lists_spenders(
            spenders_view(fresh.spenders@),
            spenders_in(old(self).rows@, old(self).rows@.len() as int),
        ));
        if same_pool(&self.pool, &fresh) {
            return false;
        }
        self.pool = fresh;
        true
    }

    /// The queue was read: take it, and who works on what from it. Whoever draws
    /// the queue is told of every read, the first included; `moved` is whether
    /// the queue reads otherwise than the one held. A fabricated queue is left
    /// standing, and nobody is told.
    pub fn refresh_issues(&mut self, issues: Vec<Issue>) -> (out: QueueRead)
        ensures
            old(self).wf() ==> final(self).wf(),
            queue_read(*old(self), *final(self), issues, out),
    {
        if self.probe_issues {
            return QueueRead { announce: false, moved: false };
        }
        if same_queue(&self.issues, &issues) {
            return QueueRead { announce: true, moved: false };
        }
        self.claim_facts = adopt_claims(&issues);
        self.issues = issues;
        QueueRead { announce: true, moved: true }
    }

    /// The git pass is done: branches, facts by environment, and where the
    /// branches under review stand. Facts are added to those known; the
    /// branches and the comparisons are replaced wholesale, unless a fabricated
    /// fleet stands. `true` means the review facts are to be announced.
    pub fn refresh_environment_data(
        &mut self,
        published: Vec<String>,
        facts: Vec<(EnvironmentId, EnvGit)>,
        review: Vec<(EnvironmentId, ReviewFacts)>,
    ) -> (announce: bool)
        ensures
            old(self).wf() ==> final(self).wf(),
            git_pass(*old(self), *final(self), published, facts@, review@, announce),
    {
        let lands = self.probe_rows.len() == 0;
        if lands {
            self.published = published;
        }
        let ghost read = facts@;
        let ghost known = self.git_facts;
        let ghost other = *self;
        assert(read.take(0) =~= Seq::empty());
        for entry in it: facts
            invariant
                it.seq() == read,
                *self == (Console { git_facts: self.git_facts, ..other }),
                known.wf() ==> self.git_facts.wf(),
                forall|slug: Seq<char>|
                    #[trigger] self.git_facts.fact(slug) == match last_read(
                        read.take(it.index() as int),
                        slug,
                    ) {
                        Some(git) => Some(git),
                        None => known.fact(slug),
                    },
        {
            let ghost i = it.index() as int;
            let ghost before = self.git_facts;
            assert(read.take(i + 1).drop_last() =~= read.take(i));
            assert(read.take(i + 1).last() == read[i]);
            let (env, git) = entry;
            self.git_facts.insert(env, git);
            assert forall|slug: Seq<char>| #[trigger] self.git_facts.fact(slug) == match last_read(
                read.take(i + 1),
                slug,
            ) {
                Some(git) => Some(git),
                None => known.fact(slug),
            } by {
                assert(before.fact(slug) == match last_read(read.take(i), slug) {
                    Some(git) => Some(git),
                    None => known.fact(slug),
                });
            }
        }
        assert(read.take(read.len() as int) =~= read);
        if lands {
            let ghost judged = review@;
            let ghost settled = *self;
            let mut fresh: EnvMap<ReviewFacts> = EnvMap::new();
            assert(judged.take(0) =~= Seq::empty());
            for entry in it: review
                invariant
                    it.seq() == judged,
                    *self == settled,
                    fresh.wf(),
                    forall|slug: Seq<char>|
                        #[trigger] fresh.fact(slug) == last_read(
                            judged.take(it.index() as int),
                            slug,
                        ),
            {
                let ghost i = it.index() as int;
                let ghost before = fresh;
                assert(judged.take(i + 1).drop_last() =~= judged.take(i));
                assert(judged.take(i + 1).last() == judged[i]);
                let (env, facts) = entry;
                fresh.insert(env, facts);
                assert forall|slug: Seq<char>| #[trigger] fresh.fact(slug) == last_read(
                    judged.take(i + 1),
                    slug,
                ) by {
                    assert(before.fact(slug) == last_read(judged.take(i), slug));
                }
            }
            assert(judged.take(judged.len() as int) =~= judged);
            self.review_facts = fresh;
        }
        lands
    }

    /// The footprints were measured: take each in place of the one known.
    pub fn refresh_disk(&mut self, usage: Vec<(EnvironmentId, DiskUsage)>)
        ensures
            old(self).wf() ==> final(self).wf(),
            forall|slug: Seq<char>|
                #[trigger] final(self).disk_facts.fact(slug) == match last_read(usage@, slug) {
                    Some(disk) => Some(disk),
                    None => old(self).disk_facts.fact(slug),
                },
            *final(self) == (Console { disk_facts: final(self).disk_facts, ..*old(self) }),
    {
        let ghost read = usage@;
        let ghost known = self.disk_facts;
        let ghost other = *self;
        assert(read.take(0) =~= Seq::empty());
        for entry in it: usage
            invariant
                it.seq() == read,
                *self == (Console { disk_facts: self.disk_facts, ..other }),
                known.wf() ==> self.disk_facts.wf(),
                forall|slug: Seq<char>|
                    #[trigger] self.disk_facts.fact(slug) == match last_read(
                        read.take(it.index() as int),
                        slug,
                    ) {
                        Some(disk) => Some(disk),
                        None => known.fact(slug),
                    },
        {
            let ghost i = it.index() as int;
            let ghost before = self.disk_facts;
            assert(read.take(i + 1).drop_last() =~= read.take(i));
            assert(read.take(i + 1).last() == read[i]);
            let (env, disk) = entry;
            self.disk_facts.insert(env, disk);
            assert forall|slug: Seq<char>| #[trigger] self.disk_facts.fact(slug) == match last_read(
                read.take(i + 1),
                slug,
            ) {
                Some(disk) => Some(disk),
                None => known.fact(slug),
            } by {
                assert(before.fact(slug) == match last_read(read.take(i), slug) {
                    Some(disk) => Some(disk),
                    None => known.fact(slug),
                });
            }
        }
        assert(read.take(read.len() as int) =~= read);
    }

    /// Follow the panes to an environment. `true` means that the selection
    /// moved, and its resources and shells are to follow.
    pub fn note_watching(&mut self, env: &EnvironmentId) -> (moved: bool)
        ensures
            watches(*old(self), *final(self), *env, moved),
    {
        if self.selected.same_as(env) {
            return false;
        }
        self.selected = env.clone();
        true
    }

    /// An environment is gone: forget every fact about it, and fall back to
    /// the primary if it was the one on screen. `true` means that it was.
    pub fn destroyed(&mut self, env: &EnvironmentId) -> (was_selected: bool)
        ensures
            old(self).wf() ==> final(self).wf(),
            forgets(*old(self), *final(self), env@, was_selected),
    {
        self.git_facts.remove(env);
        self.claim_facts.remove(env);
        self.review_facts.remove(env);
        self.disk_facts.remove(env);
        if self.selected.same_as(env) {
            self.selected = EnvironmentId::primary();
            return true;
        }
        false
    }

    /// The workspace state was restored or changed: the names in it are what
    /// the fleet renders.
    pub fn set_workspace_state(&mut self, state: WorkspaceState)
        ensures
            *final(self) == (Console { state, ..*old(self) }),
    {
        self.state = state;
    }

    /// Issues nobody has finished.
    pub fn open_issues(&self) -> (count: usize)
        ensures
            count == crate::console::issues::open_in(self.issues@, self.issues@.len() as int),
    {
        crate::console::issues::open_issues(&self.issues)
    }

    /// The review of one environment's branch: the branch and the target to
    /// aim the git views at, where it has left `Working`.
    pub fn open_review_for(&self, env: &EnvironmentId) -> (out: Option<(String, String)>)
        ensures
            match (out, self.review_facts.fact(env@)) {
                (Some((branch, target)), Some(facts)) => branch@ == facts.branch@ && target@
                    == facts.target@,
                (None, None) => true,
                _ => false,
            },
    {
        match self.review_facts.get(env) {
            Some(facts) => Some((facts.branch.clone(), facts.target.clone())),
            None => None,
        }
    }

    pub(crate) fn find_row(&self, env: &EnvironmentId) -> (out: Option<usize>)
        ensures
            match out {
                Some(i) => i < self.rows@.len() && row_at(self.rows@, env@) == Some(i as int),
                None => row_at(self.rows@, env@) is None,
            },
    {
        let ghost all = self.rows@;
        let mut i: usize = 0;
        assert(all.subrange(0, all.len() as int) =~= all);
        while i < self.rows.len()
            invariant
                all == self.rows@,
                i <= all.len(),
                row_at(all, env@) == match row_at(
                    all.subrange(i as int, all.len() as int),
                    env@,
                ) {
                    Some(k) => Some(k + i),
                    None => None,
                },
            decreases all.len() - i,
        {
            let ghost rest = all.subrange(i as int, all.len() as int);
            if self.rows[i].env.same_as(env) {
                return Some(i);
            }
            assert(rest.subrange(1, rest.len() as int) =~= all.subrange(
                i + 1,
                all.len() as int,
            ));
            i += 1;
        }
        None
    }

    /// The two tooltips in this pane that name what the selected environment
    /// is.
    pub fn refresh_env_glance(&self) -> (out: Glance)
        ensures
            glances(out, *self),
    {
        match self.find_row(&self.selected) {
            Some(i) => Glance {
                resources: resources_tooltip(&self.rows[i]),
                new_terminal: new_terminal_tooltip(Some(&self.rows[i])),
            },
            None => Glance {
                resources: RESOURCES_TOOLTIP.to_owned(),
                new_terminal: new_terminal_tooltip(None),
            },
        }
    }
}

/// Only a clone holds what it has not published: the user's own checkout
/// publishes to nobody, and what could not be read counts as nothing.
pub proof fn only_a_clone_is_behind(
    out: EnvGit,
    slug: Seq<char>,
    branch: Option<String>,
    unpublished: Option<usize>,
    dirty: Option<usize>,
)
    requires
        git_read(out, slug, branch, unpublished, dirty),
    ensures
        slug == "primary"@ ==> out.unpublished == 0,
        slug != "primary"@ ==> (unpublished matches Some(n) ==> out.unpublished == n),
        unpublished is None ==> out.unpublished == 0,
        dirty matches Some(n) ==> out.dirty == n,
        dirty is None ==> out.dirty == 0,
        out.branch == branch,
{
}

/// What is gathered of an environment is its own: what it says live, and the
/// facts cached under its name; what was never read is unknown.
pub proof fn a_gathering_is_of_its_environment(out: EnvFacts, console: Console, live: LiveFacts)
    requires
        gathered(out, console, live),
    ensures
        out.env == live.env && out.state == live.state && out.authority == live.authority,
        out.pending_rebuild == live.pending_rebuild && out.chat == live.chat && out.review
            == live.review,
        out.spend == live.spend && out.shells == live.shells,
        console.git_facts.fact(live.env@) is None <==> out.git is None,
        console.git_facts.fact(live.env@) matches Some(git) ==> out.git == Some(git),
        console.disk_facts.fact(live.env@) matches Some(disk) ==> out.disk == Some(disk),
        console.disk_facts.fact(live.env@) is None ==> out.disk is None,
        console.claim_facts.fact(live.env@) is None ==> out.working_on@.len() == 0,
        console.claim_facts.fact(live.env@) matches Some(claims) ==> claims_view(out.working_on@)
            == claims_view(claims@),
{
    assert(claims_view(out.working_on@).len() == out.working_on@.len());
}

/// A fabricated queue is left standing and nobody is told; any other read is
/// told, and one that says something new is taken with its claims.
pub proof fn a_read_of_the_queue_is_told(
    before: Console,
    after: Console,
    issues: Vec<Issue>,
    out: QueueRead,
)
    requires
        queue_read(before, after, issues, out),
    ensures
        before.probe_issues ==> after == before && !out.announce && !out.moved,
        !before.probe_issues ==> out.announce,
        !before.probe_issues && before.issues@.len() != issues@.len() ==> out.moved,
        out.moved ==> after.issues == issues,
        out.moved ==> out.announce,
        !out.moved ==> after == before,
        after.git_facts == before.git_facts && after.rows == before.rows,
{
}

/// Facts that were read replace those known of the same environment and leave
/// the others'; a fabricated fleet keeps its branches and its reviews.
pub proof fn a_git_pass_adds_what_it_read(
    before: Console,
    after: Console,
    published: Vec<String>,
    facts: Seq<(EnvironmentId, EnvGit)>,
    review: Seq<(EnvironmentId, ReviewFacts)>,
    announce: bool,
    slug: Seq<char>,
)
    requires
        git_pass(before, after, published, facts, review, announce),
    ensures
        announce <==> before.probe_rows@.len() == 0,
        (forall|i: int| 0 <= i < facts.len() ==> (#[trigger] facts[i]).0@ != slug)
            ==> after.git_facts.fact(slug) == before.git_facts.fact(slug),
        facts.len() > 0 && facts.last().0@ == slug ==> after.git_facts.fact(slug) == Some(
            facts.last().1,
        ),
        announce ==> after.published == published,
        !announce ==> after.published == before.published && after.review_facts
            == before.review_facts,
        announce && (forall|i: int| 0 <= i < review.len() ==> (#[trigger] review[i]).0@ != slug)
            ==> after.review_facts.fact(slug) is None,
        announce && review.len() > 0 && review.last().0@ == slug ==> after.review_facts.fact(slug)
            == Some(review.last().1),
{
    lemma_last_read(facts, slug);
    lemma_last_read(review, slug);
}

proof fn lemma_last_read<V>(read: Seq<(EnvironmentId, V)>, slug: Seq<char>)
    ensures
        last_read(read, slug) is None <==> forall|i: int|
            0 <= i < read.len() ==> (#[trigger] read[i]).0@ != slug,
        read.len() > 0 && read.last().0@ == slug ==> last_read(read, slug) == Some(read.last().1),
    decreases read.len(),
{
    if read.len() > 0 {
        let rest = read.drop_last();
        lemma_last_read(rest, slug);
        assert(read.last() == read[read.len() - 1]);
        if last_read(read, slug) is None {
            assert forall|i: int| 0 <= i < read.len() implies (#[trigger] read[i]).0@ != slug by {
                if i < rest.len() {
                    assert(rest[i] == read[i]);
                }
            }
        }
        if forall|i: int| 0 <= i < read.len() ==> (#[trigger] read[i]).0@ != slug {
            assert forall|i: int| 0 <= i < rest.len() implies (#[trigger] rest[i]).0@ != slug by {
                assert(rest[i] == read[i]);
            }
        }
    }
}

/// The pane follows the panes, and stays where it is when they do.
pub proof fn the_pane_follows(before: Console, after: Console, env: EnvironmentId, moved: bool)
    requires
        watches(before, after, env, moved),
    ensures
        after.selected@ == env@,
        moved <==> before.selected@ != env@,
        after.rows == before.rows && after.stowed == before.stowed,
{
}

/// An environment that is gone leaves no fact behind, no other loses any, and
/// the pane falls back to the user's own checkout only where it was on screen.
pub proof fn a_destroyed_environment_is_forgotten(
    before: Console,
    after: Console,
    slug: Seq<char>,
    was_selected: bool,
    other: Seq<char>,
)
    requires
        forgets(before, after, slug, was_selected),
    ensures
        after.git_facts.fact(slug) is None && after.claim_facts.fact(slug) is None,
        after.review_facts.fact(slug) is None && after.disk_facts.fact(slug) is None,
        other != slug ==> after.git_facts.fact(other) == before.git_facts.fact(other)
            && after.claim_facts.fact(other) == before.claim_facts.fact(other)
            && after.review_facts.fact(other) == before.review_facts.fact(other)
            && after.disk_facts.fact(other) == before.disk_facts.fact(other),
        before.selected@ == slug ==> was_selected && after.selected@ == "primary"@,
        before.selected@ != slug ==> !was_selected && after.selected@ == before.selected@,
        after.rows == before.rows && after.shell_tabs == before.shell_tabs,
{
}

proof fn lemma_row_at(rows: Seq<FleetRow>, slug: Seq<char>)
    ensures
        match row_at(rows, slug) {
            Some(i) => 0 <= i < rows.len() && rows[i].env@ == slug && forall|j: int|
                0 <= j < i ==> (#[trigger] rows[j]).env@ != slug,
            None => forall|j: int| 0 <= j < rows.len() ==> (#[trigger] rows[j]).env@ != slug,
        },
    decreases rows.len(),
{
    if rows.len() > 0 && rows[0].env@ != slug {
        let rest = rows.subrange(1, rows.len() as int);
        lemma_row_at(rest, slug);
        assert forall|j: int| 0 < j < rows.len() implies rows[j] == rest[j - 1] by {
        }
        match row_at(rest, slug) {
            Some(i) => {
                assert forall|j: int| 0 <= j < i + 1 implies (#[trigger] rows[j]).env@ != slug by {
                    if j > 0 {
                        assert(rest[j - 1].env@ != slug);
                    }
                }
            },
            None => {
                assert forall|j: int| 0 <= j < rows.len() implies (#[trigger] rows[j]).env@ != slug by {
                    if j > 0 {
                        assert(rest[j - 1].env@ != slug);
                    }
                }
            },
        }
    }
}

/// What is said of an environment is said of the first row that is its own, and
/// nothing is where it has none.
pub proof fn a_row_is_found_by_its_environment(rows: Seq<FleetRow>, slug: Seq<char>)
    ensures
        row_in(rows, slug) is None <==> forall|i: int|
            0 <= i < rows.len() ==> (#[trigger] rows[i]).env@ != slug,
        row_in(rows, slug) matches Some(row) ==> row.env@ == slug && rows.contains(row),
        forall|i: int|
            0 <= i < rows.len() && (#[trigger] rows[i]).env@ == slug && (forall|j: int|
                0 <= j < i ==> (#[trigger] rows[j]).env@ != slug) ==> row_in(rows, slug) == Some(
                rows[i],
            ),
{
    lemma_row_at(rows, slug);
    if let Some(at) = row_at(rows, slug) {
        assert(rows[at].env@ == slug);
        assert forall|i: int|
            0 <= i < rows.len() && (#[trigger] rows[i]).env@ == slug && (forall|j: int|
                0 <= j < i ==> (#[trigger] rows[j]).env@ != slug) implies row_in(rows, slug) == Some(
            rows[i],
        ) by {
            if at < i {
                assert(rows[at].env@ != slug);
            }
        }
    }
}

/// The glance names the selected environment, and says of a new terminal where
/// it would open: in the environment where it is the user's own or runs, and
/// elsewhere where nothing runs there.
pub proof fn a_glance_is_of_the_selected(out: Glance, console: Console)
    requires
        glances(out, console),
    ensures
        row_in(console.rows@, console.selected@) is None ==> out.new_terminal@
            == "New terminal in the selected environment"@,
        row_in(console.rows@, console.selected@) matches Some(row) ==> {
            &&& out.resources@ == resources_shown(row)
            &&& crate::text::holds_text(out.new_terminal@, title_shown(row))
            &&& row.primary || row.state is Running ==> crate::text::begins_with(
                out.new_terminal@,
                "New terminal in "@,
            )
            &&& !row.primary && !(row.state is Running) ==> crate::text::begins_with(
                out.new_terminal@,
                "New terminal for "@,
            )
        },
{
    if let Some(row) = row_in(console.rows@, console.selected@) {
        let title = title_shown(row);
        if row.primary || row.state is Running {
            let lead = "New terminal in "@;
            crate::text::lemma_holds_end(lead, title);
            assert(out.new_terminal@.subrange(0, lead.len() as int) =~= lead);
        } else {
            let lead = "New terminal for "@;
            crate::text::lemma_holds_middle(
                lead,
                title,
                " — nothing is running there, so it opens where the IDE does"@,
            );
            assert(out.new_terminal@.subrange(0, lead.len() as int) =~= lead);
        }
    }
}

proof fn lemma_spenders_in(rows: Seq<FleetRow>, n: int, spender: (Seq<char>, u64))
    requires
        0 <= n <= rows.len(),
    ensures
        spenders_in(rows, n).len() <= n,
        spenders_in(rows, n).contains(spender) <==> exists|i: int|
            0 <= i < n && spender_label(#[trigger] rows[i]) == spender.0 && spender_tokens(rows[i])
                == spender.1 && spender.1 > 0,
    decreases n,
{
    if n > 0 {
        lemma_spenders_in(rows, n - 1, spender);
        let before = spenders_in(rows, n - 1);
        let all = spenders_in(rows, n);
        if all.contains(spender) {
            let k = choose|k: int| 0 <= k < all.len() && all[k] == spender;
            if k < before.len() {
                assert(before[k] == spender);
                assert(before.contains(spender));
            } else {
                assert(spender_label(rows[n - 1]) == spender.0);
            }
        }
        if before.contains(spender) {
            let k = choose|k: int| 0 <= k < before.len() && before[k] == spender;
            assert(all[k] == spender);
        }
        if exists|i: int|
            0 <= i < n && spender_label(#[trigger] rows[i]) == spender.0 && spender_tokens(rows[i])
                == spender.1 && spender.1 > 0 {
            let i = choose|i: int|
                0 <= i < n && spender_label(#[trigger] rows[i]) == spender.0 && spender_tokens(
                    rows[i],
                ) == spender.1 && spender.1 > 0;
            if i < n - 1 {
                assert(before.contains(spender));
            } else {
                assert(all[all.len() - 1] == spender);
            }
        }
    }
}

/// Everyone who drew on the pool is listed, by name and with what they drew
/// either way, and nobody who drew nothing is.
pub proof fn every_spender_is_listed(
    out: Seq<(Seq<char>, u64)>,
    rows: Seq<FleetRow>,
    spender: (Seq<char>, u64),
)
    requires
        lists_spenders(out, spenders_in(rows, rows.len() as int)),
        rows.len() <= usize::MAX,
    ensures
        out.contains(spender) <==> exists|i: int|
            0 <= i < rows.len() && spender_label(#[trigger] rows[i]) == spender.0 && capped_sum(
                rows[i].spend.input_tokens,
                rows[i].spend.output_tokens,
            ) == spender.1 && spender.1 > 0,
        forall|i: int|
            0 <= i < rows.len() && (#[trigger] rows[i]).primary ==> spender_label(rows[i])
                == "Yours"@,
        forall|i: int|
            0 <= i < rows.len() && !(#[trigger] rows[i]).primary ==> spender_label(rows[i])
                == rows[i].env@,
{
    let all = spenders_in(rows, rows.len() as int);
    lemma_spenders_in(rows, rows.len() as int, spender);
    let order = choose|order: Seq<usize>| #[trigger]
        is_stable_order(order, spender_keys(all)) && out.len() == all.len() && (forall|i: int|
            0 <= i < out.len() ==> #[trigger] out[i] == all[order[i] as int]);
    if out.contains(spender) {
        let i = choose|i: int| 0 <= i < out.len() && out[i] == spender;
        assert(out[i] == all[order[i] as int]);
        assert(all.contains(spender));
    }
    if all.contains(spender) {
        let k = choose|k: int| 0 <= k < all.len() && all[k] == spender;
        assert(order.contains(k as usize));
        let i = choose|i: int| 0 <= i < order.len() && order[i] == k as usize;
        assert(out[i] == all[k]);
    }
    if exists|i: int|
        0 <= i < rows.len() && spender_label(#[trigger] rows[i]) == spender.0 && capped_sum(
            rows[i].spend.input_tokens,
            rows[i].spend.output_tokens,
        ) == spender.1 && spender.1 > 0 {
        let i = choose|i: int|
            0 <= i < rows.len() && spender_label(#[trigger] rows[i]) == spender.0 && capped_sum(
                rows[i].spend.input_tokens,
                rows[i].spend.output_tokens,
            ) == spender.1 && spender.1 > 0;
        assert(spender_tokens(rows[i]) == spender.1);
    }
}

/// The fleet is what was gathered and, behind it, what was fabricated: nothing is
/// left out, and nothing real is replaced.
pub proof fn a_fabricated_fleet_stands_behind(
    all: Seq<EnvFacts>,
    facts: Seq<EnvFacts>,
    more: Seq<EnvFacts>,
    i: int,
)
    requires
        gathers(all, facts, more),
    ensures
        all.len() == facts.len() + more.len(),
        0 <= i < facts.len() ==> all[i] == facts[i],
        0 <= i < more.len() ==> all[facts.len() + i].env == more[i].env && all[facts.len()
            + i].state == more[i].state && all[facts.len() + i].review == more[i].review
            && all[facts.len() + i].git == more[i].git && all[facts.len() + i].spend
            == more[i].spend,
{
    if 0 <= i < more.len() {
        assert(facts_agree(all[facts.len() + i], more[i]));
    }
}

} // verus!
