//! Stable ordering by keys that compare lexicographically.

use vstd::prelude::*;

verus! {

/// Lexicographic "comes before" on sequences of numbers.
pub open spec fn lex_less(a: Seq<u64>, b: Seq<u64>) -> bool
    decreases a.len(),
{
    if b.len() == 0 {
        false
    } else if a.len() == 0 {
        true
    } else if a[0] != b[0] {
        a[0] < b[0]
    } else {
        lex_less(a.subrange(1, a.len() as int), b.subrange(1, b.len() as int))
    }
}

/// Lexicographic "comes before" on keys, field by field.
pub open spec fn key_less(a: Seq<Seq<u64>>, b: Seq<Seq<u64>>) -> bool
    decreases a.len(),
{
    if b.len() == 0 {
        false
    } else if a.len() == 0 {
        true
    } else if a[0] != b[0] {
        lex_less(a[0], b[0])
    } else {
        key_less(a.subrange(1, a.len() as int), b.subrange(1, b.len() as int))
    }
}

/// A text as the numbers of its characters, which is how texts compare.
pub open spec fn codes(s: Seq<char>) -> Seq<u64> {
    Seq::new(s.len(), |i: int| s[i] as u64)
}

/// A key as a sequence of fields.
pub open spec fn key_of(k: Vec<Vec<u64>>) -> Seq<Seq<u64>> {
    Seq::new(k@.len(), |i: int| k@[i]@)
}

/// The keys of a list, as sequences.
pub open spec fn keys_of(v: Seq<Vec<Vec<u64>>>) -> Seq<Seq<Seq<u64>>> {
    Seq::new(v.len(), |i: int| key_of(v[i]))
}

/// `x` is placed before `y`: its key comes first, or the keys are equal and it
/// stood first to begin with.
pub open spec fn placed_before(keys: Seq<Seq<Seq<u64>>>, x: int, y: int) -> bool {
    key_less(keys[x], keys[y]) || (keys[x] == keys[y] && x < y)
}

/// `order` names every position below `n` once.
pub open spec fn names_each_once(order: Seq<usize>, n: nat) -> bool {
    &&& order.len() == n
    &&& forall|i: int| 0 <= i < n ==> (#[trigger] order[i]) < n
    &&& forall|i: int, j: int| 0 <= i < j < n ==> order[i] != order[j]
    &&& forall|x: usize| x < n ==> order.contains(x)
}

/// `order` lists the positions of `keys` in stable sorted order.
pub open spec fn is_stable_order(order: Seq<usize>, keys: Seq<Seq<Seq<u64>>>) -> bool {
    &&& names_each_once(order, keys.len())
    &&& forall|i: int, j: int|
        0 <= i < j < order.len() ==> placed_before(keys, order[i] as int, order[j] as int)
}

/// `lex_less` is a strict total order.
pub proof fn lemma_lex_total(a: Seq<u64>, b: Seq<u64>)
    ensures
        !lex_less(a, a),
        lex_less(a, b) || lex_less(b, a) || a == b,
        !(lex_less(a, b) && lex_less(b, a)),
    decreases a.len() + b.len(),
{
    if a.len() > 0 {
        lemma_lex_total(a.subrange(1, a.len() as int), Seq::empty());
    }
    if a.len() > 0 && b.len() > 0 && a[0] == b[0] {
        let ta = a.subrange(1, a.len() as int);
        let tb = b.subrange(1, b.len() as int);
        lemma_lex_total(ta, tb);
        if ta == tb {
            assert forall|i: int| 0 <= i < a.len() implies a[i] == b[i] by {
                if i > 0 {
                    assert(ta[i - 1] == tb[i - 1]);
                }
            }
            assert(a =~= b);
        }
    } else if a.len() == 0 && b.len() == 0 {
        assert(a =~= b);
    }
}

/// `lex_less` is transitive.
pub proof fn lemma_lex_trans(a: Seq<u64>, b: Seq<u64>, c: Seq<u64>)
    requires
        lex_less(a, b),
        lex_less(b, c),
    ensures
        lex_less(a, c),
    decreases a.len(),
{
    if a.len() > 0 && b.len() > 0 && c.len() > 0 && a[0] == b[0] && b[0] == c[0] {
        lemma_lex_trans(
            a.subrange(1, a.len() as int),
            b.subrange(1, b.len() as int),
            c.subrange(1, c.len() as int),
        );
    }
}

/// `key_less` is a strict total order.
pub proof fn lemma_key_total(a: Seq<Seq<u64>>, b: Seq<Seq<u64>>)
    ensures
        !key_less(a, a),
        key_less(a, b) || key_less(b, a) || a == b,
        !(key_less(a, b) && key_less(b, a)),
    decreases a.len() + b.len(),
{
    if a.len() > 0 {
        lemma_key_total(a.subrange(1, a.len() as int), Seq::empty());
    }
    if a.len() > 0 && b.len() > 0 {
        lemma_lex_total(a[0], b[0]);
        if a[0] == b[0] {
            let ta = a.subrange(1, a.len() as int);
            let tb = b.subrange(1, b.len() as int);
            lemma_key_total(ta, tb);
            if ta == tb {
                assert forall|i: int| 0 <= i < a.len() implies a[i] == b[i] by {
                    if i > 0 {
                        assert(ta[i - 1] == tb[i - 1]);
                    }
                }
                assert(a =~= b);
            }
        }
    } else if a.len() == 0 && b.len() == 0 {
        assert(a =~= b);
    }
}

/// `key_less` is transitive.
pub proof fn lemma_key_trans(a: Seq<Seq<u64>>, b: Seq<Seq<u64>>, c: Seq<Seq<u64>>)
    requires
        key_less(a, b),
        key_less(b, c),
    ensures
        key_less(a, c),
    decreases a.len(),
{
    if a.len() > 0 && b.len() > 0 && c.len() > 0 {
        if a[0] != b[0] && b[0] != c[0] {
            lemma_lex_trans(a[0], b[0], c[0]);
            lemma_lex_total(a[0], a[0]);
        } else if a[0] == b[0] && b[0] == c[0] {
            lemma_key_trans(
                a.subrange(1, a.len() as int),
                b.subrange(1, b.len() as int),
                c.subrange(1, c.len() as int),
            );
        }
    }
}

/// `placed_before` is transitive.
pub proof fn lemma_placed_trans(keys: Seq<Seq<Seq<u64>>>, x: int, y: int, z: int)
    requires
        placed_before(keys, x, y),
        placed_before(keys, y, z),
    ensures
        placed_before(keys, x, z),
{
    if key_less(keys[x], keys[y]) && key_less(keys[y], keys[z]) {
        lemma_key_trans(keys[x], keys[y], keys[z]);
    }
}

/// A common prefix does not decide a comparison.
proof fn lemma_lex_skip(a: Seq<u64>, b: Seq<u64>, n: int)
    requires
        0 <= n <= a.len(),
        n <= b.len(),
        forall|i: int| 0 <= i < n ==> a[i] == b[i],
    ensures
        lex_less(a, b) == lex_less(a.subrange(n, a.len() as int), b.subrange(n, b.len() as int)),
    decreases n,
{
    if n == 0 {
        assert(a.subrange(0, a.len() as int) =~= a);
        assert(b.subrange(0, b.len() as int) =~= b);
    } else {
        let ta = a.subrange(1, a.len() as int);
        let tb = b.subrange(1, b.len() as int);
        lemma_lex_skip(ta, tb, n - 1);
        assert(ta.subrange(n - 1, ta.len() as int) =~= a.subrange(n, a.len() as int));
        assert(tb.subrange(n - 1, tb.len() as int) =~= b.subrange(n, b.len() as int));
    }
}

/// Nor do common fields at the start of a key.
proof fn lemma_key_skip(a: Seq<Seq<u64>>, b: Seq<Seq<u64>>, n: int)
    requires
        0 <= n <= a.len(),
        n <= b.len(),
        forall|i: int| 0 <= i < n ==> a[i] == b[i],
    ensures
        key_less(a, b) == key_less(a.subrange(n, a.len() as int), b.subrange(n, b.len() as int)),
    decreases n,
{
    if n == 0 {
        assert(a.subrange(0, a.len() as int) =~= a);
        assert(b.subrange(0, b.len() as int) =~= b);
    } else {
        let ta = a.subrange(1, a.len() as int);
        let tb = b.subrange(1, b.len() as int);
        lemma_key_skip(ta, tb, n - 1);
        assert(ta.subrange(n - 1, ta.len() as int) =~= a.subrange(n, a.len() as int));
        assert(tb.subrange(n - 1, tb.len() as int) =~= b.subrange(n, b.len() as int));
    }
}

/// The numbers of a text's characters.
pub fn text_codes(s: &str) -> (out: Vec<u64>)
    ensures
        out@ == codes(s@),
{
    let chars = crate::text::chars_of(s);
    let mut out: Vec<u64> = Vec::new();
    let mut i: usize = 0;
    while i < chars.len()
        invariant
            chars@ == s@,
            i <= chars@.len(),
            out@ == codes(s@).take(i as int),
        decreases chars@.len() - i,
    {
        out.push(chars[i] as u64);
        i += 1;
        assert(codes(s@).take(i as int) =~= codes(s@).take(i - 1).push(codes(s@)[i - 1]));
    }
    assert(codes(s@).take(s@.len() as int) =~= codes(s@));
    out
}

/// Whether one sequence of numbers comes before another.
pub fn lex_less_exec(a: &Vec<u64>, b: &Vec<u64>) -> (r: bool)
    ensures
        r == lex_less(a@, b@),
{
    let mut i: usize = 0;
    while i < a.len() && i < b.len() && a[i] == b[i]
        invariant
            i <= a@.len(),
            i <= b@.len(),
            forall|j: int| 0 <= j < i ==> a@[j] == b@[j],
        decreases a@.len() - i,
    {
        i += 1;
    }
    proof {
        lemma_lex_skip(a@, b@, i as int);
    }
    if i == b.len() {
        false
    } else if i == a.len() {
        true
    } else {
        a[i] < b[i]
    }
}

/// Texts are told apart by the numbers of their characters.
pub proof fn lemma_codes_injective(a: Seq<char>, b: Seq<char>)
    requires
        codes(a) == codes(b),
    ensures
        a == b,
{
    assert(codes(a).len() == a.len());
    assert(codes(b).len() == b.len());
    assert forall|i: int| 0 <= i < a.len() implies a[i] == b[i] by {
        assert(codes(a)[i] == a[i] as u64);
        assert(codes(b)[i] == b[i] as u64);
        lemma_code_injective(a[i], b[i]);
    }
    assert(a =~= b);
}

proof fn lemma_code_injective(a: char, b: char)
    requires
        a as u64 == b as u64,
    ensures
        a == b,
{
}

fn same_codes(a: &Vec<u64>, b: &Vec<u64>) -> (r: bool)
    ensures
        r == (a@ == b@),
{
    if a.len() != b.len() {
        return false;
    }
    let mut i: usize = 0;
    while i < a.len()
        invariant
            a@.len() == b@.len(),
            i <= a@.len(),
            forall|j: int| 0 <= j < i ==> a@[j] == b@[j],
        decreases a@.len() - i,
    {
        if a[i] != b[i] {
            return false;
        }
        i += 1;
    }
    assert(a@ =~= b@);
    true
}

/// Whether one key comes before another.
pub fn key_less_exec(a: &Vec<Vec<u64>>, b: &Vec<Vec<u64>>) -> (r: bool)
    ensures
        r == key_less(key_of(*a), key_of(*b)),
{
    let mut i: usize = 0;
    while i < a.len() && i < b.len() && same_codes(&a[i], &b[i])
        invariant
            i <= a@.len(),
            i <= b@.len(),
            forall|j: int| 0 <= j < i ==> a@[j]@ == b@[j]@,
        decreases a@.len() - i,
    {
        i += 1;
    }
    proof {
        lemma_key_skip(key_of(*a), key_of(*b), i as int);
    }
    if i == b.len() {
        false
    } else if i == a.len() {
        true
    } else {
        lex_less_exec(&a[i], &b[i])
    }
}

/// The positions of `keys` in sorted order; equal keys keep the order they
/// stood in.
pub fn stable_order(keys: &Vec<Vec<Vec<u64>>>) -> (order: Vec<usize>)
    ensures
        is_stable_order(order@, keys_of(keys@)),
{
    let ghost ks = keys_of(keys@);
    let mut order: Vec<usize> = Vec::new();
    let mut i: usize = 0;
    while i < keys.len()
        invariant
            ks == keys_of(keys@),
            i <= keys@.len(),
            order@.len() == i,
            names_each_once(order@, i as nat),
            forall|a: int, b: int|
                0 <= a < b < order@.len() ==> placed_before(ks, order@[a] as int, order@[b] as int),
        decreases keys@.len() - i,
    {
        let mut p: usize = order.len();
        while p > 0 && key_less_exec(&keys[i], &keys[order[p - 1]])
            invariant
                ks == keys_of(keys@),
                i < keys@.len(),
                p <= order@.len() == i,
                names_each_once(order@, i as nat),
                forall|q: int| p <= q < order@.len() ==> key_less(ks[i as int], ks[order@[q] as int]),
            decreases p,
        {
            p -= 1;
        }
        let ghost before = order@;
        order.insert(p, i);
        proof {
            let after = before.insert(p as int, i);
            assert forall|q: int| 0 <= q < p implies placed_before(
                ks,
                #[trigger] before[q] as int,
                i as int,
            ) by {
                let last = before[p - 1] as int;
                lemma_key_total(ks[i as int], ks[last]);
                assert(placed_before(ks, last, i as int));
                if q < p - 1 {
                    lemma_placed_trans(ks, before[q] as int, last, i as int);
                }
            }
            assert forall|a: int, b: int| 0 <= a < b < after.len() implies placed_before(
                ks,
                after[a] as int,
                after[b] as int,
            ) by {
                if b < p {
                    assert(after[a] == before[a] && after[b] == before[b]);
                } else if b == p {
                    assert(after[a] == before[a] && after[b] == i);
                } else if a < p {
                    assert(after[a] == before[a] && after[b] == before[b - 1]);
                } else if a == p {
                    assert(after[a] == i && after[b] == before[b - 1]);
                } else {
                    assert(after[a] == before[a - 1] && after[b] == before[b - 1]);
                }
            }
            assert forall|x: usize| x < i + 1 implies after.contains(x) by {
                if x == i {
                    assert(after[p as int] == i);
                } else {
                    assert(before.contains(x));
                    let k = choose|k: int| 0 <= k < before.len() && before[k] == x;
                    if k < p {
                        assert(after[k] == x);
                    } else {
                        assert(after[k + 1] == x);
                    }
                }
            }
        }
        i += 1;
    }
    order
}

/// Puts `items` in the given order.
pub fn permute<T>(items: Vec<T>, order: &Vec<usize>) -> (out: Vec<T>)
    requires
        names_each_once(order@, items@.len()),
    ensures
        out@.len() == items@.len(),
        forall|i: int| 0 <= i < out@.len() ==> out@[i] == items@[order@[i] as int],
{
    let n: usize = items.len();
    let mut slots: Vec<Option<T>> = Vec::new();
    for item in it: items
        invariant
            it.seq() == items@,
            slots@.len() == it.index(),
            forall|j: int| 0 <= j < slots@.len() ==> slots@[j] == Some(items@[j]),
    {
        slots.push(Some(item));
    }
    let mut out: Vec<T> = Vec::new();
    let mut i: usize = 0;
    while i < n
        invariant
            n == items@.len(),
            slots@.len() == n,
            i <= n,
            names_each_once(order@, n as nat),
            out@.len() == i,
            forall|j: int| 0 <= j < i ==> out@[j] == items@[order@[j] as int],
            forall|j: int| i <= j < n ==> slots@[order@[j] as int] == Some(items@[order@[j] as int]),
        decreases n - i,
    {
        let at: usize = order[i];
        let taken = slots[at].take();
        if let Some(item) = taken {
            out.push(item);
        }
        i += 1;
    }
    out
}

/// What comes first lexicographically: at the first place where two sequences
/// differ the smaller number decides, and a sequence comes before any that only
/// goes on from it.
pub proof fn the_first_difference_decides(a: Seq<u64>, b: Seq<u64>, at: int)
    requires
        0 <= at <= a.len(),
        at <= b.len(),
        forall|i: int| 0 <= i < at ==> a[i] == b[i],
    ensures
        at < a.len() && at < b.len() && a[at] < b[at] ==> lex_less(a, b),
        at < a.len() && at < b.len() && a[at] > b[at] ==> !lex_less(a, b),
        at == a.len() && at < b.len() ==> lex_less(a, b),
        at == b.len() ==> !lex_less(a, b),
    decreases at,
{
    if at > 0 {
        let x = a.subrange(1, a.len() as int);
        let y = b.subrange(1, b.len() as int);
        assert forall|i: int| 0 <= i < at - 1 implies x[i] == y[i] by {
            assert(x[i] == a[i + 1] && y[i] == b[i + 1]);
        }
        the_first_difference_decides(x, y, at - 1);
    }
}

/// Field by field, the first field that differs decides.
pub proof fn the_first_field_decides(a: Seq<Seq<u64>>, b: Seq<Seq<u64>>, at: int)
    requires
        0 <= at < a.len(),
        at < b.len(),
        forall|i: int| 0 <= i < at ==> a[i] == b[i],
        a[at] != b[at],
    ensures
        key_less(a, b) == lex_less(a[at], b[at]),
    decreases at,
{
    if at > 0 {
        let x = a.subrange(1, a.len() as int);
        let y = b.subrange(1, b.len() as int);
        assert forall|i: int| 0 <= i < at - 1 implies x[i] == y[i] by {
            assert(x[i] == a[i + 1] && y[i] == b[i + 1]);
        }
        assert(x[at - 1] == a[at] && y[at - 1] == b[at]);
        the_first_field_decides(x, y, at - 1);
    }
}

} // verus!
