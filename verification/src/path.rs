//! Paths as the names along them.

use vstd::prelude::*;
use crate::order::codes;
use crate::text::{pieces, same, split, texts};

verus! {

/// A path, as the names along it. An absolute path begins with an empty name.
#[derive(Debug, PartialEq, Eq, Hash)]
pub struct TreePath {
    pub parts: Vec<String>,
}

impl View for TreePath {
    type V = Seq<Seq<char>>;

    open spec fn view(&self) -> Seq<Seq<char>> {
        texts(self.parts@)
    }
}

impl Clone for TreePath {
    fn clone(&self) -> (out: Self)
        ensures
            out@ == self@,
    {
        let parts = self.parts.clone();
        assert(texts(parts@) =~= texts(self.parts@));
        TreePath { parts }
    }
}

/// Whether `path` is `dir` or lies below it, name by name.
pub open spec fn lies_in(path: Seq<Seq<char>>, dir: Seq<Seq<char>>) -> bool {
    dir.len() <= path.len() && path.subrange(0, dir.len() as int) == dir
}

/// A name that a path keeps: not empty, and not the current directory.
pub open spec fn is_name(name: Seq<char>) -> bool {
    name.len() > 0 && name != "."@
}

/// The names among the pieces.
pub open spec fn names_in(parts: Seq<Seq<char>>) -> Seq<Seq<char>>
    decreases parts.len(),
{
    if parts.len() == 0 {
        Seq::empty()
    } else if is_name(parts.last()) {
        names_in(parts.drop_last()).push(parts.last())
    } else {
        names_in(parts.drop_last())
    }
}

/// The names along a path written with slashes.
pub open spec fn names_of(s: Seq<char>) -> Seq<Seq<char>> {
    let parts = pieces(s, '/');
    if s.len() > 0 && s[0] == '/' {
        seq![Seq::<char>::empty()] + names_in(parts)
    } else {
        names_in(parts)
    }
}

/// Names with slashes between them.
pub open spec fn slashed(parts: Seq<Seq<char>>) -> Seq<char>
    decreases parts.len(),
{
    if parts.len() == 0 {
        Seq::empty()
    } else if parts.len() == 1 {
        parts[0]
    } else {
        slashed(parts.drop_last()) + "/"@ + parts.last()
    }
}

/// A path with slashes between its names. The root is a slash by itself.
pub open spec fn written(parts: Seq<Seq<char>>) -> Seq<char> {
    if parts.len() == 1 && parts[0].len() == 0 {
        "/"@
    } else {
        slashed(parts)
    }
}

/// The last name of a path.
pub open spec fn last_name(parts: Seq<Seq<char>>) -> Option<Seq<char>> {
    if parts.len() > 0 && parts.last().len() > 0 && parts.last() != ".."@ {
        Some(parts.last())
    } else {
        None
    }
}

/// The last name of a path, or nothing where it has none.
pub open spec fn shown_name(parts: Seq<Seq<char>>) -> Seq<char> {
    match last_name(parts) {
        Some(name) => name,
        None => Seq::empty(),
    }
}

/// The path one name up.
pub open spec fn rises(path: Seq<Seq<char>>, out: Option<TreePath>) -> bool {
    &&& match out {
        Some(dir) => (path.len() > 1 || (path.len() == 1 && path[0].len() > 0)) && dir@
            == path.drop_last(),
        None => path.len() == 0 || (path.len() == 1 && path[0].len() == 0),
    }
}

/// A path as seen from another.
pub open spec fn seen_from(
    path: Seq<Seq<char>>,
    base: Seq<Seq<char>>,
    out: Option<TreePath>,
) -> bool {
    &&& match out {
        Some(rel) => lies_in(path, base) && rel@ == path.subrange(
            base.len() as int,
            path.len() as int,
        ),
        None => !lies_in(path, base),
    }
}

/// A path's place among paths: name by name.
pub open spec fn path_key(parts: Seq<Seq<char>>) -> Seq<Seq<u64>> {
    Seq::new(parts.len(), |i: int| codes(parts[i]))
}

impl TreePath {
    /// A path written with slashes.
    pub fn parse(s: &str) -> (out: Self)
        ensures
            out@ == names_of(s@),
    {
        let raw = split(s, '/');
        let mut parts: Vec<String> = Vec::new();
        let absolute = s.unicode_len() > 0 && s.get_char(0) == '/';
        if absolute {
            parts.push(String::new());
        }
        let ghost head = texts(parts@);
        proof {
            if absolute {
                assert(head =~= seq![Seq::<char>::empty()]);
            } else {
                assert(head =~= Seq::<Seq<char>>::empty());
            }
            assert(head + names_in(texts(raw@).take(0)) =~= head);
        }
        let mut i: usize = 0;
        while i < raw.len()
            invariant
                i <= raw@.len(),
                texts(parts@) == head + names_in(texts(raw@).take(i as int)),
            decreases raw@.len() - i,
        {
            let ghost before = parts@;
            let ghost taken = texts(raw@).take(i as int);
            let ghost name = raw@[i as int]@;
            assert(texts(raw@).take(i + 1) =~= taken.push(name));
            assert(taken.push(name).drop_last() =~= taken);
            if !raw[i].as_str().is_empty() && !same(raw[i].as_str(), ".") {
                parts.push(raw[i].clone());
                assert(texts(parts@) =~= texts(before).push(name));
                assert((head + names_in(taken)).push(name) =~= head + names_in(taken).push(name));
            }
            i += 1;
        }
        assert(texts(raw@).take(i as int) =~= texts(raw@));
        assert(head + names_in(texts(raw@)) =~= names_of(s@));
        TreePath { parts }
    }

    /// The path with slashes between its names.
    pub fn show(&self) -> (out: String)
        ensures
            out@ == written(self@),
    {
        if self.parts.len() == 1 && self.parts[0].as_str().is_empty() {
            return "/".to_owned();
        }
        let mut out = String::new();
        let mut i: usize = 0;
        assert(self@.take(0) =~= Seq::empty());
        while i < self.parts.len()
            invariant
                i <= self.parts@.len(),
                out@ == slashed(self@.take(i as int)),
            decreases self.parts@.len() - i,
        {
            let ghost before = out@;
            if i > 0 {
                out.append("/");
            }
            out.append(self.parts[i].as_str());
            i += 1;
            assert(self@.take(i as int).drop_last() =~= self@.take(i - 1));
            assert(self@.take(i as int).last() == self.parts@[i - 1]@);
            if i == 1 {
                assert(before =~= Seq::<char>::empty());
                assert(out@ =~= self.parts@[0]@);
            }
        }
        assert(self@.take(i as int) =~= self@);
        out
    }

    /// Whether two paths are one.
    pub fn same_as(&self, other: &TreePath) -> (r: bool)
        ensures
            r == (self@ == other@),
    {
        if self.parts.len() != other.parts.len() {
            assert(self@.len() != other@.len());
            return false;
        }
        self.starts_with(other)
    }

    /// Whether this path is `dir` or lies below it.
    pub fn starts_with(&self, dir: &TreePath) -> (r: bool)
        ensures
            r == lies_in(self@, dir@),
            self@.len() == dir@.len() ==> r == (self@ == dir@),
    {
        if dir.parts.len() > self.parts.len() {
            return false;
        }
        let mut i: usize = 0;
        while i < dir.parts.len()
            invariant
                i <= dir.parts@.len() <= self.parts@.len(),
                forall|j: int| 0 <= j < i ==> self.parts@[j]@ == dir.parts@[j]@,
            decreases dir.parts@.len() - i,
        {
            if !(self.parts[i] == dir.parts[i]) {
                assert(self@.subrange(0, dir@.len() as int)[i as int] == self@[i as int]);
                assert(dir@[i as int] != self@[i as int]);
                return false;
            }
            i += 1;
        }
        assert(self@.subrange(0, dir@.len() as int) =~= dir@);
        proof {
            if self@.len() == dir@.len() {
                assert(self@ =~= dir@);
            }
        }
        true
    }

    /// The last name.
    pub fn file_name(&self) -> (out: Option<&str>)
        ensures
            match out {
                Some(name) => last_name(self@) == Some(name@),
                None => last_name(self@) is None,
            },
    {
        let n: usize = self.parts.len();
        if n == 0 {
            return None;
        }
        assert(self@.last() == self.parts@[n - 1]@);
        let name = self.parts[n - 1].as_str();
        if name.is_empty() || same(name, "..") {
            None
        } else {
            Some(name)
        }
    }

    /// The last name, or an empty text where there is none.
    pub fn display_name(&self) -> (out: String)
        ensures
            out@ == shown_name(self@),
    {
        match self.file_name() {
            Some(name) => name.to_owned(),
            None => String::new(),
        }
    }

    /// The path one name up, where there is a name to leave.
    pub fn parent(&self) -> (out: Option<TreePath>)
        ensures
            rises(self@, out),
    {
        let n: usize = self.parts.len();
        if n == 0 || (n == 1 && self.parts[0].as_str().is_empty()) {
            return None;
        }
        Some(self.prefix(n - 1))
    }

    /// The first `n` names.
    pub fn prefix(&self, n: usize) -> (out: TreePath)
        requires
            n <= self@.len(),
        ensures
            out@ == self@.subrange(0, n as int),
    {
        let mut parts: Vec<String> = Vec::new();
        let mut i: usize = 0;
        while i < n
            invariant
                i <= n <= self.parts@.len(),
                texts(parts@) == self@.subrange(0, i as int),
            decreases n - i,
        {
            let ghost before = parts@;
            parts.push(self.parts[i].clone());
            i += 1;
            assert(texts(parts@) =~= texts(before).push(self@[i - 1]));
            assert(self@.subrange(0, i as int) =~= self@.subrange(0, i - 1).push(self@[i - 1]));
        }
        TreePath { parts }
    }

    /// `rel` below this path.
    pub fn join(&self, rel: &TreePath) -> (out: TreePath)
        ensures
            out@ == self@ + rel@,
    {
        let mut parts = self.clone().parts;
        let mut i: usize = 0;
        assert(self@ + rel@.take(0) =~= self@);
        while i < rel.parts.len()
            invariant
                i <= rel.parts@.len(),
                texts(parts@) == self@ + rel@.take(i as int),
            decreases rel.parts@.len() - i,
        {
            let ghost before = parts@;
            parts.push(rel.parts[i].clone());
            i += 1;
            assert(texts(parts@) =~= texts(before).push(rel@[i - 1]));
            assert(self@ + rel@.take(i as int) =~= (self@ + rel@.take(i - 1)).push(rel@[i - 1]));
        }
        assert(rel@.take(i as int) =~= rel@);
        TreePath { parts }
    }

    /// A name below this path.
    pub fn child(&self, name: &str) -> (out: TreePath)
        ensures
            out@ == self@.push(name@),
    {
        let mut parts = self.clone().parts;
        let ghost before = parts@;
        parts.push(name.to_owned());
        assert(texts(parts@) =~= texts(before).push(name@));
        TreePath { parts }
    }

    /// This path as seen from `base`, where it lies in it.
    pub fn strip_prefix(&self, base: &TreePath) -> (out: Option<TreePath>)
        ensures
            seen_from(self@, base@, out),
    {
        if !self.starts_with(base) {
            return None;
        }
        let from: usize = base.parts.len();
        let mut parts: Vec<String> = Vec::new();
        let mut i: usize = from;
        while i < self.parts.len()
            invariant
                from == base@.len(),
                from <= i <= self.parts@.len(),
                texts(parts@) == self@.subrange(from as int, i as int),
            decreases self.parts@.len() - i,
        {
            let ghost before = parts@;
            parts.push(self.parts[i].clone());
            i += 1;
            assert(texts(parts@) =~= texts(before).push(self@[i - 1]));
            assert(self@.subrange(from as int, i as int) =~= self@.subrange(
                from as int,
                i - 1,
            ).push(self@[i - 1]));
        }
        Some(TreePath { parts })
    }

    /// The path's place among paths.
    pub fn sort_key(&self) -> (key: Vec<Vec<u64>>)
        ensures
            crate::order::key_of(key) == path_key(self@),
    {
        let mut key: Vec<Vec<u64>> = Vec::new();
        let mut i: usize = 0;
        while i < self.parts.len()
            invariant
                i <= self.parts@.len(),
                key@.len() == i,
                forall|j: int| 0 <= j < i ==> (#[trigger] key@[j])@ == codes(self.parts@[j]@),
            decreases self.parts@.len() - i,
        {
            key.push(crate::order::text_codes(self.parts[i].as_str()));
            i += 1;
        }
        assert(crate::order::key_of(key) =~= path_key(self@));
        key
    }
}

/// A path lies in each of its own beginnings, and in no other directory.
pub proof fn a_path_lies_in_its_ancestors(path: Seq<Seq<char>>, dir: Seq<Seq<char>>)
    ensures
        lies_in(path, dir) <==> exists|n: int|
            0 <= n <= path.len() && dir == #[trigger] path.subrange(0, n),
{
    if lies_in(path, dir) {
        assert(dir == path.subrange(0, dir.len() as int));
    }
    if exists|n: int| 0 <= n <= path.len() && dir == #[trigger] path.subrange(0, n) {
        let n = choose|n: int| 0 <= n <= path.len() && dir == #[trigger] path.subrange(0, n);
        assert(dir.len() == n);
    }
}

/// A path seen from a directory and joined to it again is the path.
pub proof fn joining_undoes_stripping(path: Seq<Seq<char>>, base: Seq<Seq<char>>)
    requires
        lies_in(path, base),
    ensures
        base + path.subrange(base.len() as int, path.len() as int) == path,
{
    assert(base + path.subrange(base.len() as int, path.len() as int) =~= path);
}

proof fn lemma_slashed(parts: Seq<Seq<char>>)
    ensures
        slashed(parts) == crate::text::rejoined(parts, '/'),
    decreases parts.len(),
{
    assert("/"@ =~= seq!['/']) by {
        reveal_strlit("/");
    }
    if parts.len() > 1 {
        let front = parts.drop_last();
        lemma_slashed(front);
        lemma_rejoined_last(front, parts.last());
        assert(parts =~= front.push(parts.last()));
        assert(crate::text::rejoined(front, '/') + "/"@ + parts.last() =~= crate::text::rejoined(
            front,
            '/',
        ).push('/') + parts.last());
    }
}

proof fn lemma_rejoined_last(parts: Seq<Seq<char>>, last: Seq<char>)
    requires
        parts.len() > 0,
    ensures
        crate::text::rejoined(parts.push(last), '/') == crate::text::rejoined(parts, '/').push('/')
            + last,
    decreases parts.len(),
{
    let all = parts.push(last);
    let tail = all.subrange(1, all.len() as int);
    if parts.len() == 1 {
        assert(tail =~= seq![last]);
        assert(crate::text::rejoined(tail, '/') == last);
    } else {
        let rest = parts.subrange(1, parts.len() as int);
        lemma_rejoined_last(rest, last);
        assert(tail =~= rest.push(last));
        assert(parts[0].push('/') + (crate::text::rejoined(rest, '/').push('/') + last) =~= (
        parts[0].push('/') + crate::text::rejoined(rest, '/')).push('/') + last);
    }
}

proof fn lemma_pieces_rejoined(parts: Seq<Seq<char>>)
    requires
        parts.len() > 0,
        forall|i: int| 0 <= i < parts.len() ==> !(#[trigger] parts[i]).contains('/'),
    ensures
        pieces(crate::text::rejoined(parts, '/'), '/') == parts,
    decreases parts.len(),
{
    let s = crate::text::rejoined(parts, '/');
    crate::text::lemma_until(s, '/');
    let n = crate::text::until(s, '/');
    let first = parts[0];
    if parts.len() == 1 {
        if n < s.len() {
            assert(first.contains(s[n]));
        }
        assert(seq![s] =~= parts);
    } else {
        let rest = parts.subrange(1, parts.len() as int);
        assert forall|i: int| 0 <= i < rest.len() implies !(#[trigger] rest[i]).contains('/') by {
            assert(rest[i] == parts[i + 1]);
        }
        lemma_pieces_rejoined(rest);
        assert(s[first.len() as int] == '/');
        if n < first.len() {
            assert(s[n] == first[n]);
            assert(first.contains(first[n]));
        }
        assert(n == first.len());
        assert(s.subrange(0, n) =~= first);
        assert(s.subrange(n + 1, s.len() as int) =~= crate::text::rejoined(rest, '/'));
        assert(seq![first] + rest =~= parts);
    }
}

proof fn lemma_all_names(parts: Seq<Seq<char>>)
    requires
        forall|i: int| 0 <= i < parts.len() ==> is_name(#[trigger] parts[i]),
    ensures
        names_in(parts) == parts,
    decreases parts.len(),
{
    if parts.len() > 0 {
        let rest = parts.drop_last();
        assert forall|i: int| 0 <= i < rest.len() implies is_name(#[trigger] rest[i]) by {
            assert(rest[i] == parts[i]);
        }
        lemma_all_names(rest);
        assert(parts.last() == parts[parts.len() - 1]);
        assert(rest.push(parts.last()) =~= parts);
    } else {
        assert(names_in(parts) =~= parts);
    }
}

/// A path that is written and read again is the same path, name by name.
pub proof fn a_written_path_reads_back(parts: Seq<Seq<char>>)
    requires
        parts.len() > 0,
        forall|i: int|
            0 <= i < parts.len() ==> is_name(#[trigger] parts[i]) && !parts[i].contains('/'),
    ensures
        names_of(written(parts)) == parts,
{
    lemma_slashed(parts);
    lemma_pieces_rejoined(parts);
    lemma_all_names(parts);
    let s = written(parts);
    assert(parts[0].len() > 0);
    assert(s[0] == parts[0][0]);
    if s[0] == '/' {
        assert(parts[0].contains(parts[0][0]));
    }
}

/// A name below a path is its last name, and going up from it gives the path
/// back.
pub proof fn going_up_undoes_going_down(
    path: Seq<Seq<char>>,
    name: Seq<char>,
    up: Option<TreePath>,
)
    requires
        name.len() > 0,
        rises(path.push(name), up),
    ensures
        up matches Some(dir) && dir@ == path,
        name != ".."@ ==> last_name(path.push(name)) == Some(name) && shown_name(path.push(name))
            == name,
        lies_in(path.push(name), path),
{
    let below = path.push(name);
    assert(below.drop_last() =~= path);
    assert(below.last() == name);
    assert(below.subrange(0, path.len() as int) =~= path);
}

/// What a path is seen as from another leads back to it, and it is seen from
/// every path it lies in and from no other.
pub proof fn a_view_leads_back(
    path: Seq<Seq<char>>,
    base: Seq<Seq<char>>,
    out: Option<TreePath>,
)
    requires
        seen_from(path, base, out),
    ensures
        out is Some <==> lies_in(path, base),
        out matches Some(rel) ==> base + rel@ == path,
{
    if let Some(rel) = out {
        assert(base + rel@ =~= path) by {
            assert(path.subrange(0, base.len() as int) == base);
            assert forall|i: int| 0 <= i < path.len() implies (base + rel@)[i] == path[i] by {
                if i < base.len() {
                    assert(path.subrange(0, base.len() as int)[i] == base[i]);
                }
            }
        }
    }
}

} // verus!
