//! What an environment is known by, and the states it can be in.

use vstd::prelude::*;
use crate::text::{chars_of, concat2, same};

verus! {

/// An environment's identity: its slug.
#[derive(Debug, PartialEq, Eq, Hash)]
pub struct EnvironmentId {
    pub slug: String,
}

impl View for EnvironmentId {
    type V = Seq<char>;

    open spec fn view(&self) -> Seq<char> {
        self.slug@
    }
}

impl Clone for EnvironmentId {
    fn clone(&self) -> (out: Self)
        ensures
            out == *self,
    {
        EnvironmentId { slug: self.slug.clone() }
    }
}

/// What can name an environment: one component of a path and of a branch's
/// name, since its clone and its branch of record are called by it.
pub open spec fn is_slug(slug: Seq<char>) -> bool {
    slug.len() > 0 && !slug.contains('/')
}

/// Why a text is no slug.
pub open spec fn not_a_slug(slug: Seq<char>) -> Seq<char> {
    slug + " does not name an environment"@
}

impl EnvironmentId {
    /// The slug of the user's own checkout.
    pub open spec fn primary_slug() -> Seq<char> {
        "primary"@
    }

    /// An environment by its slug.
    pub fn new(slug: &str) -> (out: Self)
        ensures
            out@ == slug@,
    {
        EnvironmentId { slug: slug.to_owned() }
    }

    /// An environment by a slug that may not be one.
    pub fn parse(slug: &str) -> (out: Result<Self, String>)
        ensures
            parses_as(slug@, out),
    {
        let chars = chars_of(slug);
        let mut i: usize = 0;
        while i < chars.len()
            invariant
                chars@ == slug@,
                i <= chars@.len(),
                forall|j: int| 0 <= j < i ==> chars@[j] != '/',
            decreases chars@.len() - i,
        {
            if chars[i] == '/' {
                assert(slug@.contains(slug@[i as int]));
                return Err(concat2(slug, " does not name an environment"));
            }
            i += 1;
        }
        if chars.len() == 0 {
            return Err(concat2(slug, " does not name an environment"));
        }
        Ok(EnvironmentId { slug: slug.to_owned() })
    }

    /// The environment that is the user's own checkout.
    pub fn primary() -> (out: Self)
        ensures
            out@ == Self::primary_slug(),
    {
        EnvironmentId { slug: "primary".to_owned() }
    }

    pub fn is_primary(&self) -> (r: bool)
        ensures
            r == (self@ == Self::primary_slug()),
    {
        same(self.slug.as_str(), "primary")
    }

    pub fn as_str(&self) -> (s: &str)
        ensures
            s@ == self@,
    {
        self.slug.as_str()
    }

    /// Whether two ids name one environment.
    pub fn same_as(&self, other: &EnvironmentId) -> (r: bool)
        ensures
            r == (self@ == other@),
    {
        self.slug == other.slug
    }
}

/// What a text names.
pub open spec fn parses_as(slug: Seq<char>, out: Result<EnvironmentId, String>) -> bool {
    &&& match out {
        Ok(env) => is_slug(slug) && env@ == slug,
        Err(reason) => !is_slug(slug) && reason@ == not_a_slug(slug),
    }
}

/// The slugs of some environments.
pub open spec fn slugs(envs: Seq<EnvironmentId>) -> Seq<Seq<char>> {
    Seq::new(envs.len(), |i: int| envs[i]@)
}

/// Where an environment's container stands.
#[derive(Debug, PartialEq, Eq)]
pub enum SupervisorState {
    NoConfig,
    ConfigDetected,
    Building,
    Starting,
    Running { container_id: String },
    Failed { message: String },
    Stopped,
}

impl Clone for SupervisorState {
    fn clone(&self) -> (out: Self)
        ensures
            out == *self,
    {
        match self {
            SupervisorState::NoConfig => SupervisorState::NoConfig,
            SupervisorState::ConfigDetected => SupervisorState::ConfigDetected,
            SupervisorState::Building => SupervisorState::Building,
            SupervisorState::Starting => SupervisorState::Starting,
            SupervisorState::Running { container_id } => SupervisorState::Running {
                container_id: container_id.clone(),
            },
            SupervisorState::Failed { message } => SupervisorState::Failed {
                message: message.clone(),
            },
            SupervisorState::Stopped => SupervisorState::Stopped,
        }
    }
}

impl SupervisorState {
    /// Whether a container is up.
    pub fn is_running(&self) -> (r: bool)
        ensures
            r == (self is Running),
    {
        matches!(self, SupervisorState::Running { .. })
    }
}

/// Whose configuration a running container was built from.
#[derive(Debug, Clone, Copy, PartialEq, Eq, Structural)]
pub enum ConfigAuthority {
    /// The project's own devcontainer configuration.
    Project,
    /// The stand-in used while the project has none that works.
    Baseline,
}

/// Where an environment stands in the review arc.
#[derive(Debug, Clone, Copy, PartialEq, Eq, Structural)]
pub enum ReviewState {
    Working,
    FlaggedForReview,
    Merged,
    Rejected,
}

impl ReviewState {
    /// The user has ruled on it.
    pub open spec fn is_settled(self) -> bool {
        self == ReviewState::Merged || self == ReviewState::Rejected
    }

    /// Whether the user has ruled on it.
    pub fn settled(self) -> (r: bool)
        ensures
            r == self.is_settled(),
    {
        matches!(self, ReviewState::Merged | ReviewState::Rejected)
    }
}

/// What an environment takes on disk, as far as it was measured.
#[derive(Debug, Clone, Copy, PartialEq, Eq, Structural)]
pub struct DiskUsage {
    pub checkout_bytes: u64,
    pub volume_bytes: u64,
    pub volumes_measured: usize,
    pub volumes_unmeasured: usize,
}

impl Default for DiskUsage {
    fn default() -> (out: Self)
        ensures
            out == (DiskUsage {
                checkout_bytes: 0,
                volume_bytes: 0,
                volumes_measured: 0,
                volumes_unmeasured: 0,
            }),
    {
        DiskUsage { checkout_bytes: 0, volume_bytes: 0, volumes_measured: 0, volumes_unmeasured: 0 }
    }
}

/// `a + b`, held at the largest number the type can say.
pub open spec fn capped_sum(a: u64, b: u64) -> u64 {
    if a + b > u64::MAX {
        u64::MAX
    } else {
        (a + b) as u64
    }
}

impl DiskUsage {
    /// The checkout and its volumes together.
    pub fn total_bytes(&self) -> (total: u64)
        ensures
            total == capped_sum(self.checkout_bytes, self.volume_bytes),
    {
        self.checkout_bytes.saturating_add(self.volume_bytes)
    }

    /// Whether a volume went unmeasured, so the total is a lower bound.
    pub fn partial(&self) -> (r: bool)
        ensures
            r == (self.volumes_unmeasured > 0),
    {
        self.volumes_unmeasured > 0
    }
}

/// An issue an environment has claimed.
#[derive(Debug, PartialEq, Eq)]
pub struct Claim {
    pub id: String,
    pub title: String,
}

impl Clone for Claim {
    fn clone(&self) -> (out: Self)
        ensures
            out == *self,
    {
        Claim { id: self.id.clone(), title: self.title.clone() }
    }
}

/// The names the user has given to environments.
#[derive(Debug, PartialEq, Eq)]
pub struct WorkspaceState {
    pub names: Vec<(EnvironmentId, String)>,
}

impl Default for WorkspaceState {
    fn default() -> (out: Self)
        ensures
            out.names@.len() == 0,
    {
        WorkspaceState { names: Vec::new() }
    }
}

/// An environment was named, or its name taken away.
pub open spec fn renames(
    before: WorkspaceState,
    after: WorkspaceState,
    env: Seq<char>,
    name: Option<&str>,
) -> bool {
    &&& match name {
        Some(name) => after.name_of(env) == Some(name@),
        None => after.name_of(env) is None,
    }
    &&& forall|slug: Seq<char>|
        slug != env ==> after.name_of(slug) == before.name_of(slug)
}

/// The name that stands first for `slug`, if any does.
pub open spec fn name_in(names: Seq<(EnvironmentId, String)>, slug: Seq<char>) -> Option<Seq<char>>
    decreases names.len(),
{
    if names.len() == 0 {
        None
    } else if names[0].0@ == slug {
        Some(names[0].1@)
    } else {
        name_in(names.subrange(1, names.len() as int), slug)
    }
}

proof fn lemma_name_in_push(
    names: Seq<(EnvironmentId, String)>,
    entry: (EnvironmentId, String),
    slug: Seq<char>,
)
    ensures
        name_in(names.push(entry), slug) == match name_in(names, slug) {
            Some(name) => Some(name),
            None => if entry.0@ == slug {
                Some(entry.1@)
            } else {
                None
            },
        },
    decreases names.len(),
{
    reveal_with_fuel(name_in, 2);
    if names.len() > 0 {
        let rest = names.subrange(1, names.len() as int);
        lemma_name_in_push(rest, entry, slug);
        assert(names.push(entry).subrange(1, names.push(entry).len() as int) =~= rest.push(entry));
    }
}

proof fn lemma_name_in_absent(names: Seq<(EnvironmentId, String)>, i: int, slug: Seq<char>)
    requires
        0 <= i <= names.len(),
        forall|j: int| 0 <= j < i ==> (#[trigger] names[j]).0@ != slug,
    ensures
        name_in(names, slug) == name_in(names.subrange(i, names.len() as int), slug),
    decreases i,
{
    if i == 0 {
        assert(names.subrange(0, names.len() as int) =~= names);
    } else {
        let rest = names.subrange(1, names.len() as int);
        assert forall|j: int| 0 <= j < i - 1 implies (#[trigger] rest[j]).0@ != slug by {
            assert(rest[j] == names[j + 1]);
        }
        lemma_name_in_absent(rest, i - 1, slug);
        assert(rest.subrange(i - 1, rest.len() as int) =~= names.subrange(i, names.len() as int));
    }
}

impl WorkspaceState {
    /// What the user calls the environment with this slug.
    pub open spec fn name_of(&self, slug: Seq<char>) -> Option<Seq<char>> {
        name_in(self.names@, slug)
    }

    /// What the user calls an environment, if they named it.
    pub fn environment_name(&self, env: &EnvironmentId) -> (out: Option<&str>)
        ensures
            match out {
                Some(name) => self.name_of(env@) == Some(name@),
                None => self.name_of(env@) is None,
            },
    {
        let mut i: usize = 0;
        while i < self.names.len()
            invariant
                i <= self.names@.len(),
                forall|j: int| 0 <= j < i ==> (#[trigger] self.names@[j]).0@ != env@,
            decreases self.names@.len() - i,
        {
            if self.names[i].0.same_as(env) {
                proof {
                    lemma_name_in_absent(self.names@, i as int, env@);
                }
                return Some(self.names[i].1.as_str());
            }
            i += 1;
        }
        proof {
            lemma_name_in_absent(self.names@, i as int, env@);
        }
        None
    }

    /// Names an environment, or with `None` takes its name away. No other
    /// environment's name changes.
    pub fn set_environment_name(&mut self, env: &EnvironmentId, name: Option<&str>)
        ensures
            renames(*old(self), *final(self), env@, name),
    {
        let mut kept: Vec<(EnvironmentId, String)> = Vec::new();
        let mut i: usize = 0;
        assert(self.names@.take(0) =~= Seq::empty());
        while i < self.names.len()
            invariant
                self.names@ == old(self).names@,
                i <= self.names@.len(),
                name_in(kept@, env@) is None,
                forall|slug: Seq<char>|
                    slug != env@ ==> name_in(kept@, slug) == name_in(
                        self.names@.take(i as int),
                        slug,
                    ),
            decreases self.names@.len() - i,
        {
            let ghost before = kept@;
            let ghost entry = self.names@[i as int];
            if !self.names[i].0.same_as(env) {
                kept.push((self.names[i].0.clone(), self.names[i].1.clone()));
            }
            proof {
                assert(self.names@.take(i + 1) =~= self.names@.take(i as int).push(entry));
                assert forall|slug: Seq<char>| slug != env@ implies name_in(kept@, slug) == name_in(
                    self.names@.take(i + 1),
                    slug,
                ) by {
                    lemma_name_in_push(before, entry, slug);
                    lemma_name_in_push(self.names@.take(i as int), entry, slug);
                }
                lemma_name_in_push(before, entry, env@);
            }
            i += 1;
        }
        assert(self.names@.take(i as int) =~= self.names@);
        let ghost before = kept@;
        if let Some(name) = name {
            kept.push((env.clone(), name.to_owned()));
        }
        proof {
            assert forall|slug: Seq<char>| slug != env@ implies name_in(kept@, slug) == name_in(
                old(self).names@,
                slug,
            ) by {
                assert(name_in(before, slug) == name_in(old(self).names@, slug));
                if kept@.len() > before.len() {
                    lemma_name_in_push(before, kept@.last(), slug);
                    assert(before.push(kept@.last()) =~= kept@);
                }
            }
            if kept@.len() > before.len() {
                lemma_name_in_push(before, kept@.last(), env@);
                assert(before.push(kept@.last()) =~= kept@);
            }
        }
        self.names = kept;
    }
}

/// A text names an environment where it is one component of a path: not empty,
/// and without a slash. What it names is the text itself.
pub proof fn a_slug_is_one_component(slug: Seq<char>, out: Result<EnvironmentId, String>)
    requires
        parses_as(slug, out),
    ensures
        out is Ok <==> slug.len() > 0 && forall|i: int| 0 <= i < slug.len() ==> slug[i] != '/',
        out matches Ok(env) ==> env@ == slug,
        out matches Err(reason) ==> crate::text::begins_with(reason@, slug),
{
    if out is Ok {
        assert forall|i: int| 0 <= i < slug.len() implies slug[i] != '/' by {
            if slug[i] == '/' {
                assert(slug.contains(slug[i]));
            }
        }
    } else if let Err(reason) = out {
        assert(reason@.subrange(0, slug.len() as int) =~= slug);
    }
}

/// A name that was given is the one the environment has, one taken away leaves
/// it without, and no other environment's changes.
pub proof fn a_name_is_its_environments(
    before: WorkspaceState,
    after: WorkspaceState,
    env: Seq<char>,
    name: Option<&str>,
    other: Seq<char>,
)
    requires
        renames(before, after, env, name),
    ensures
        name matches Some(given) ==> after.name_of(env) == Some(given@),
        name is None ==> after.name_of(env) is None,
        other != env ==> after.name_of(other) == before.name_of(other),
{
}

/// The user's name for an environment is one they gave it: it stands among the
/// names for that slug, and there is none exactly where none does.
pub proof fn a_name_was_given(names: Seq<(EnvironmentId, String)>, slug: Seq<char>)
    ensures
        match name_in(names, slug) {
            Some(name) => exists|i: int|
                0 <= i < names.len() && (#[trigger] names[i]).0@ == slug && names[i].1@ == name,
            None => forall|i: int| 0 <= i < names.len() ==> (#[trigger] names[i]).0@ != slug,
        },
    decreases names.len(),
{
    if names.len() > 0 {
        if names[0].0@ != slug {
            let rest = names.subrange(1, names.len() as int);
            a_name_was_given(rest, slug);
            assert forall|i: int| 0 < i < names.len() implies names[i] == rest[i - 1] by {
            }
            if let Some(name) = name_in(rest, slug) {
                let i = choose|i: int|
                    0 <= i < rest.len() && (#[trigger] rest[i]).0@ == slug && rest[i].1@ == name;
                assert(names[i + 1] == rest[i]);
            } else {
                assert forall|i: int| 0 <= i < names.len() implies (#[trigger] names[i]).0@
                    != slug by {
                    if i > 0 {
                        assert(rest[i - 1].0@ != slug);
                    }
                }
            }
        } else {
            assert(names[0].0@ == slug);
        }
    }
}

/// A sum is exact wherever it can be said, and never less than either part.
pub proof fn a_sum_is_exact_where_it_can_be_said(a: u64, b: u64)
    ensures
        a + b <= u64::MAX ==> capped_sum(a, b) == a + b,
        a + b > u64::MAX ==> capped_sum(a, b) == u64::MAX,
        capped_sum(a, b) >= a && capped_sum(a, b) >= b,
        capped_sum(a, b) == capped_sum(b, a),
{
}

} // verus!
