//! Facts by environment.

use vstd::prelude::*;
use crate::environment::EnvironmentId;

verus! {

/// At most one fact for each environment.
#[derive(Debug, PartialEq, Eq)]
pub struct EnvMap<V> {
    pub entries: Vec<(EnvironmentId, V)>,
}

/// The fact that stands for an environment, if any does.
pub open spec fn fact_in<V>(entries: Seq<(EnvironmentId, V)>, slug: Seq<char>) -> Option<V>
    decreases entries.len(),
{
    if entries.len() == 0 {
        None
    } else if entries.last().0@ == slug {
        Some(entries.last().1)
    } else {
        fact_in(entries.drop_last(), slug)
    }
}

proof fn lemma_fact_in_suffix<V>(entries: Seq<(EnvironmentId, V)>, i: int, slug: Seq<char>)
    requires
        0 <= i <= entries.len(),
        forall|j: int| i <= j < entries.len() ==> (#[trigger] entries[j]).0@ != slug,
    ensures
        fact_in(entries, slug) == fact_in(entries.subrange(0, i), slug),
    decreases entries.len() - i,
{
    if i == entries.len() {
        assert(entries.subrange(0, i) =~= entries);
    } else {
        assert(entries[entries.len() - 1].0@ != slug);
        lemma_fact_in_suffix(entries.drop_last(), i, slug);
        assert(entries.drop_last().subrange(0, i) =~= entries.subrange(0, i));
    }
}

proof fn lemma_no_fact<V>(entries: Seq<(EnvironmentId, V)>, slug: Seq<char>, i: int)
    requires
        fact_in(entries, slug) is None,
        0 <= i < entries.len(),
    ensures
        entries[i].0@ != slug,
    decreases entries.len(),
{
    if i < entries.len() - 1 {
        lemma_no_fact(entries.drop_last(), slug, i);
    }
}

/// No environment has two facts.
pub open spec fn facts_are_distinct<V>(entries: Seq<(EnvironmentId, V)>) -> bool {
    forall|i: int, j: int|
        0 <= i < j < entries.len() ==> (#[trigger] entries[i]).0@ != (#[trigger] entries[j]).0@
}

impl<V> EnvMap<V> {
    /// No environment has two facts.
    pub open spec fn wf(&self) -> bool {
        facts_are_distinct(self.entries@)
    }

    /// The fact for an environment.
    pub open spec fn fact(&self, slug: Seq<char>) -> Option<V> {
        fact_in(self.entries@, slug)
    }

    /// No facts yet.
    pub fn new() -> (out: Self)
        ensures
            out.wf(),
            forall|slug: Seq<char>| (#[trigger] out.fact(slug)) is None,
            out.entries@.len() == 0,
    {
        EnvMap { entries: Vec::new() }
    }

    /// The fact for an environment.
    pub fn get(&self, env: &EnvironmentId) -> (out: Option<&V>)
        ensures
            match out {
                Some(fact) => self.fact(env@) == Some(*fact),
                None => self.fact(env@) is None,
            },
    {
        let mut i: usize = self.entries.len();
        while i > 0
            invariant
                i <= self.entries@.len(),
                forall|j: int|
                    i <= j < self.entries@.len() ==> (#[trigger] self.entries@[j]).0@ != env@,
            decreases i,
        {
            if self.entries[i - 1].0.same_as(env) {
                proof {
                    lemma_fact_in_suffix(self.entries@, i as int, env@);
                    assert(self.entries@.subrange(0, i as int).last() == self.entries@[i - 1]);
                }
                return Some(&self.entries[i - 1].1);
            }
            i -= 1;
        }
        proof {
            lemma_fact_in_suffix(self.entries@, 0, env@);
            assert(self.entries@.subrange(0, 0) =~= Seq::empty());
        }
        None
    }

    /// Take an environment's fact away. No other environment's changes.
    pub fn remove(&mut self, env: &EnvironmentId)
        ensures
            old(self).wf() ==> final(self).wf(),
            forall|slug: Seq<char>|
                #[trigger] final(self).fact(slug) == if slug == env@ {
                    None
                } else {
                    old(self).fact(slug)
                },
    {
        let ghost before = self.entries@;
        let mut entries: Vec<(EnvironmentId, V)> = Vec::new();
        std::mem::swap(&mut entries, &mut self.entries);
        let mut kept: Vec<(EnvironmentId, V)> = Vec::new();
        assert(before.take(0) =~= Seq::empty());
        for entry in it: entries
            invariant
                it.seq() == before,
                forall|k: int|
                    0 <= k < kept@.len() ==> before.take(it.index() as int).contains(
                        #[trigger] kept@[k],
                    ),
                facts_are_distinct(before) ==> facts_are_distinct(kept@),
                forall|slug: Seq<char>|
                    #[trigger] fact_in(kept@, slug) == if slug == env@ {
                        None
                    } else {
                        fact_in(before.take(it.index() as int), slug)
                    },
        {
            let ghost had = kept@;
            let ghost i = it.index() as int;
            let ghost this = before[i];
            assert(before.take(i + 1).drop_last() =~= before.take(i));
            assert(before.take(i + 1).last() == this);
            if !entry.0.same_as(env) {
                kept.push(entry);
                assert(kept@.drop_last() =~= had);
            }
            proof {
                let seen = before.take(i + 1);
                assert(seen[i] == this);
                assert forall|k: int| 0 <= k < kept@.len() implies seen.contains(
                    #[trigger] kept@[k],
                ) by {
                    if k < had.len() {
                        let j = choose|j: int|
                            0 <= j < before.take(i).len() && before.take(i)[j] == had[k];
                        assert(had[k] == kept@[k]);
                        assert(before.take(i).contains(had[k]));
                        assert(seen[j] == kept@[k]);
                    }
                }
                if facts_are_distinct(before) && kept@.len() > had.len() {
                    assert forall|a: int, b: int| 0 <= a < b < kept@.len() implies (
                    #[trigger] kept@[a]).0@ != (#[trigger] kept@[b]).0@ by {
                        assert(kept@[a] == had[a]);
                        if b < had.len() {
                            assert(kept@[b] == had[b]);
                        } else {
                            assert(before.take(i).contains(had[a]));
                            let j = choose|j: int|
                                0 <= j < before.take(i).len() && before.take(i)[j] == had[a];
                            assert(before[j] == had[a]);
                            assert(before[j].0@ != before[i].0@);
                        }
                    }
                }
            }
            assert forall|slug: Seq<char>| #[trigger] fact_in(kept@, slug) == if slug == env@ {
                None
            } else {
                fact_in(before.take(i + 1), slug)
            } by {
                assert(fact_in(had, slug) == if slug == env@ {
                    None
                } else {
                    fact_in(before.take(i), slug)
                });
            }
        }
        assert(before.take(before.len() as int) =~= before);
        self.entries = kept;
        assert forall|slug: Seq<char>| #[trigger] self.fact(slug) == if slug == env@ {
            None
        } else {
            old(self).fact(slug)
        } by {
            assert(fact_in(self.entries@, slug) == if slug == env@ {
                None
            } else {
                fact_in(before, slug)
            });
        }
    }

    /// Put an environment's fact in place of the one it had. No other
    /// environment's changes.
    pub fn insert(&mut self, env: EnvironmentId, fact: V)
        ensures
            old(self).wf() ==> final(self).wf(),
            forall|slug: Seq<char>|
                #[trigger] final(self).fact(slug) == if slug == env@ {
                    Some(fact)
                } else {
                    old(self).fact(slug)
                },
    {
        self.remove(&env);
        let ghost kept = self.entries@;
        let ghost cleared = *self;
        self.entries.push((env, fact));
        assert(self.entries@.drop_last() =~= kept);
        proof {
            assert(cleared.fact(env@) is None);
            assert forall|k: int| 0 <= k < kept.len() implies (#[trigger] kept[k]).0@ != env@ by {
                lemma_no_fact(kept, env@, k);
            }
            if old(self).wf() {
                assert forall|a: int, b: int| 0 <= a < b < self.entries@.len() implies (
                #[trigger] self.entries@[a]).0@ != (#[trigger] self.entries@[b]).0@ by {
                    assert(self.entries@[a] == kept[a]);
                    if b < kept.len() {
                        assert(self.entries@[b] == kept[b]);
                    }
                }
            }
        }
        assert forall|slug: Seq<char>| #[trigger] self.fact(slug) == if slug == env@ {
            Some(fact)
        } else {
            old(self).fact(slug)
        } by {
            assert(cleared.fact(slug) == if slug == env@ {
                None
            } else {
                old(self).fact(slug)
            });
        }
    }
}

} // verus!
