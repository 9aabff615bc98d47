//! The workspace's issue queue.

use vstd::prelude::*;
use crate::console::envmap::EnvMap;
use crate::environment::{Claim, EnvironmentId};

verus! {

/// Whether and how an issue was settled.
#[derive(Debug, Clone, Copy, PartialEq, Eq, Structural)]
pub enum Resolution {
    Open,
    Completed,
    Declined,
}

impl Resolution {
    /// Completed and declined alike.
    pub fn is_resolved(self) -> (r: bool)
        ensures
            resolves(self, r),
    {
        self != Resolution::Open
    }
}

/// Whether an issue was settled.
pub open spec fn resolves(resolution: Resolution, r: bool) -> bool {
    &&& r == (resolution != Resolution::Open)
}

/// A note on an issue's trail.
#[derive(Debug, PartialEq, Eq)]
pub struct Comment {
    pub seq: u64,
    pub author: String,
    pub created: i64,
    pub body: String,
}

/// An item of the backlog.
#[derive(Debug, PartialEq, Eq)]
pub struct Issue {
    pub id: String,
    pub title: String,
    pub resolution: Resolution,
    pub reporter: String,
    /// Who started it, where someone did.
    pub started_by: Option<String>,
    /// The environment that `started_by` names, where it names one: a person
    /// can start an issue too.
    pub claimant: Option<EnvironmentId>,
    pub agent: Option<String>,
    pub model: Option<String>,
    pub created: i64,
    pub updated: i64,
    pub labels: Vec<String>,
    /// Its links and attachments, each as it is written.
    pub links: Vec<String>,
    pub body: String,
    pub comments: Vec<Comment>,
    pub attachments: Vec<String>,
}

/// The issues, among the first `n`, that nobody has finished.
pub open spec fn open_in(issues: Seq<Issue>, n: int) -> nat
    decreases n,
{
    if n <= 0 {
        0
    } else {
        open_in(issues, n - 1) + if issues[n - 1].resolution == Resolution::Open {
            1nat
        } else {
            0
        }
    }
}

/// Issues nobody has finished.
pub fn open_issues(issues: &Vec<Issue>) -> (count: usize)
    ensures
        count == open_in(issues@, issues@.len() as int),
        count <= issues@.len(),
{
    let mut count: usize = 0;
    let mut i: usize = 0;
    while i < issues.len()
        invariant
            i <= issues@.len(),
            count == open_in(issues@, i as int),
            count <= i,
        decreases issues@.len() - i,
    {
        if !issues[i].resolution.is_resolved() {
            count += 1;
        }
        i += 1;
    }
    count
}

/// Whether an issue is work in flight in an environment.
pub open spec fn in_flight(issue: Issue, slug: Seq<char>) -> bool {
    issue.resolution == Resolution::Open && (issue.claimant matches Some(by) && by@ == slug)
}

/// What an environment holds of the first `n` issues, in queue order, by the
/// issues' ids and titles.
pub open spec fn held(issues: Seq<Issue>, n: int, slug: Seq<char>) -> Seq<(Seq<char>, Seq<char>)>
    decreases n,
{
    if n <= 0 {
        Seq::empty()
    } else if in_flight(issues[n - 1], slug) {
        held(issues, n - 1, slug).push((issues[n - 1].id@, issues[n - 1].title@))
    } else {
        held(issues, n - 1, slug)
    }
}

/// Claims, by their ids and titles.
pub open spec fn claims_view(claims: Seq<Claim>) -> Seq<(Seq<char>, Seq<char>)> {
    Seq::new(claims.len(), |i: int| (claims[i].id@, claims[i].title@))
}

/// What is said of an environment: its claims, or nothing where it has none.
pub open spec fn claims_of(claims: Option<Vec<Claim>>) -> Seq<(Seq<char>, Seq<char>)> {
    match claims {
        Some(claims) => claims_view(claims@),
        None => Seq::empty(),
    }
}

pub(crate) fn clone_claims(claims: &Vec<Claim>) -> (out: Vec<Claim>)
    ensures
        out@ == claims@,
{
    let mut out: Vec<Claim> = Vec::new();
    let mut i: usize = 0;
    while i < claims.len()
        invariant
            i <= claims@.len(),
            out@ == claims@.take(i as int),
        decreases claims@.len() - i,
    {
        out.push(claims[i].clone());
        i += 1;
        assert(claims@.take(i as int) =~= claims@.take(i - 1).push(claims@[i - 1]));
    }
    assert(claims@.take(i as int) =~= claims@);
    out
}

/// Who is working on what, from the queue that was just read. A settled issue
/// is history, not work in flight, and one that a person started is no
/// environment's. Every claim comes from this queue, so one that was released
/// is gone rather than lingering.
pub fn adopt_claims(issues: &Vec<Issue>) -> (out: EnvMap<Vec<Claim>>)
    ensures
        out.wf(),
        forall|slug: Seq<char>|
            claims_of(#[trigger] out.fact(slug)) == held(issues@, issues@.len() as int, slug),
{
    let mut out: EnvMap<Vec<Claim>> = EnvMap::new();
    let mut i: usize = 0;
    while i < issues.len()
        invariant
            i <= issues@.len(),
            out.wf(),
            forall|slug: Seq<char>|
                claims_of(#[trigger] out.fact(slug)) == held(issues@, i as int, slug),
        decreases issues@.len() - i,
    {
        let ghost before = out;
        let issue = &issues[i];
        if !issue.resolution.is_resolved() {
            if let Some(by) = &issue.claimant {
                let env = by.clone();
                let mut claims: Vec<Claim> = match out.get(&env) {
                    Some(claims) => clone_claims(claims),
                    None => Vec::new(),
                };
                let ghost had = claims@;
                assert(claims_view(had) =~= claims_of(before.fact(env@)));
                claims.push(Claim { id: issue.id.clone(), title: issue.title.clone() });
                assert(claims_view(claims@) =~= claims_view(had).push(
                    (issue.id@, issue.title@),
                ));
                out.insert(env, claims);
            }
        }
        assert forall|slug: Seq<char>| claims_of(#[trigger] out.fact(slug)) == held(
            issues@,
            i + 1,
            slug,
        ) by {
            assert(claims_of(before.fact(slug)) == held(issues@, i as int, slug));
        }
        i += 1;
    }
    out
}

/// The count of open issues is of those nobody has settled: nothing where all
/// are completed or declined, and all of them where none is.
pub proof fn open_issues_are_the_unsettled(issues: Seq<Issue>, n: int)
    requires
        0 <= n <= issues.len(),
    ensures
        open_in(issues, n) <= n,
        open_in(issues, n) == 0 <==> forall|i: int|
            0 <= i < n ==> (#[trigger] issues[i]).resolution == Resolution::Completed
                || issues[i].resolution == Resolution::Declined,
        open_in(issues, n) == n <==> forall|i: int|
            0 <= i < n ==> (#[trigger] issues[i]).resolution == Resolution::Open,
        n < issues.len() ==> open_in(issues, n + 1) == open_in(issues, n) + if issues[n].resolution
            == Resolution::Open {
            1nat
        } else {
            0nat
        },
    decreases n,
{
    if n > 0 {
        open_issues_are_the_unsettled(issues, n - 1);
    }
}

/// What an environment holds is what it claimed and nobody has settled, and
/// nothing that another environment or a person started.
pub proof fn a_claim_is_work_in_flight(
    issues: Seq<Issue>,
    n: int,
    slug: Seq<char>,
    claim: (Seq<char>, Seq<char>),
)
    requires
        0 <= n <= issues.len(),
    ensures
        held(issues, n, slug).contains(claim) <==> exists|i: int|
            0 <= i < n && (#[trigger] issues[i]).id@ == claim.0 && issues[i].title@ == claim.1
                && issues[i].resolution == Resolution::Open && (issues[i].claimant matches Some(by)
                && by@ == slug),
    decreases n,
{
    if n > 0 {
        a_claim_is_work_in_flight(issues, n - 1, slug, claim);
        let before = held(issues, n - 1, slug);
        let all = held(issues, n, slug);
        let last = issues[n - 1];
        if all.contains(claim) {
            let k = choose|k: int| 0 <= k < all.len() && all[k] == claim;
            if k < before.len() {
                assert(before[k] == claim);
                assert(before.contains(claim));
            } else {
                assert(issues[n - 1].id@ == claim.0);
            }
        }
        if before.contains(claim) {
            let k = choose|k: int| 0 <= k < before.len() && before[k] == claim;
            assert(all[k] == claim);
        }
        if in_flight(last, slug) && last.id@ == claim.0 && last.title@ == claim.1 {
            assert(all[all.len() - 1] == claim);
        }
        if exists|i: int|
            0 <= i < n && (#[trigger] issues[i]).id@ == claim.0 && issues[i].title@ == claim.1
                && issues[i].resolution == Resolution::Open && (issues[i].claimant matches Some(by)
                && by@ == slug) {
            let i = choose|i: int|
                0 <= i < n && (#[trigger] issues[i]).id@ == claim.0 && issues[i].title@ == claim.1
                    && issues[i].resolution == Resolution::Open && (issues[i].claimant matches Some(
                    by,
                ) && by@ == slug);
            if i < n - 1 {
                assert(before.contains(claim));
            }
        }
    }
}

/// An issue is settled where it was completed and where it was declined.
pub proof fn declined_is_settled_too(resolution: Resolution, r: bool)
    requires
        resolves(resolution, r),
    ensures
        r <==> resolution == Resolution::Completed || resolution == Resolution::Declined,
{
}

} // verus!
