//! What podman holds for the selected environment.
//!
//! These resources are a hierarchy: the container on top, the image it
//! committed and the volumes mounted into it beneath; base images stand alone.

use vstd::prelude::*;
use crate::fleet::FleetRow;
use crate::text::{
    chars_of, concat3, contains, holds_text, lowercase, lowered, same, string_of,
};

verus! {

/// What the Resources tab is for, before podman has said how big it is.
pub const RESOURCES_TOOLTIP: &'static str = "This environment's containers, volumes, and images";

/// What podman holds.
#[derive(Debug, Clone, Copy, PartialEq, Eq, Structural)]
pub enum ResourceKind {
    Container,
    Image,
    Volume,
    /// What everything else sits on.
    Substrate,
}

/// One thing podman holds.
#[derive(Debug, PartialEq, Eq)]
pub struct ResourceInfo {
    pub kind: ResourceKind,
    pub name: String,
    pub status: String,
}

/// Two resources that podman would call the same.
pub open spec fn is_same(a: ResourceInfo, b: ResourceInfo) -> bool {
    a.kind == b.kind && a.name@ == b.name@
}

/// The places, below `n`, of the resources that satisfy `p`, in order.
pub open spec fn places(
    resources: Seq<ResourceInfo>,
    n: int,
    p: spec_fn(ResourceInfo) -> bool,
) -> Seq<usize>
    decreases n,
{
    if n <= 0 {
        Seq::empty()
    } else if p(resources[n - 1]) {
        places(resources, n - 1, p).push((n - 1) as usize)
    } else {
        places(resources, n - 1, p)
    }
}

/// The places of all resources that satisfy `p`, in order.
pub open spec fn all_places(resources: Seq<ResourceInfo>, p: spec_fn(ResourceInfo) -> bool) -> Seq<
    usize,
> {
    places(resources, resources.len() as int, p)
}

/// A container, the images committed from it, and the volumes.
pub open spec fn tree_of(resources: Seq<ResourceInfo>, at: int) -> Seq<usize> {
    seq![at as usize] + all_places(
        resources,
        |r: ResourceInfo| r.kind == ResourceKind::Image && holds_text(r.name@, resources[at].name@),
    ) + all_places(resources, |r: ResourceInfo| r.kind == ResourceKind::Volume)
}

/// The trees of the containers below `n`.
pub open spec fn trees(resources: Seq<ResourceInfo>, n: int) -> Seq<usize>
    decreases n,
{
    if n <= 0 {
        Seq::empty()
    } else if resources[n - 1].kind == ResourceKind::Container {
        trees(resources, n - 1) + tree_of(resources, n - 1)
    } else {
        trees(resources, n - 1)
    }
}

/// The substrate and the containers' trees.
pub open spec fn claimed(resources: Seq<ResourceInfo>) -> Seq<usize> {
    all_places(resources, |r: ResourceInfo| r.kind == ResourceKind::Substrate) + trees(
        resources,
        resources.len() as int,
    )
}

/// Whether one of these places has a resource that podman would call this.
pub open spec fn is_claimed(resources: Seq<ResourceInfo>, at: Seq<usize>, r: ResourceInfo) -> bool {
    exists|k: int| 0 <= k < at.len() && is_same(resources[#[trigger] at[k] as int], r)
}

/// The order the resources are listed in: the substrate, each container with
/// what belongs to it, and whatever is left.
pub open spec fn ordered(resources: Seq<ResourceInfo>) -> Seq<usize> {
    let first = claimed(resources);
    first + all_places(resources, |r: ResourceInfo| !is_claimed(resources, first, r))
}

/// How deep a resource is listed.
pub open spec fn depth_of(resources: Seq<ResourceInfo>, r: ResourceInfo) -> int {
    match r.kind {
        ResourceKind::Substrate | ResourceKind::Container => 0,
        ResourceKind::Image => if exists|c: int|
            0 <= c < resources.len() && (#[trigger] resources[c]).kind == ResourceKind::Container
                && holds_text(r.name@, resources[c].name@) {
            1
        } else {
            0
        },
        ResourceKind::Volume => if exists|c: int|
            0 <= c < resources.len() && (#[trigger] resources[c]).kind == ResourceKind::Container {
            1
        } else {
            0
        },
    }
}

fn push_kind(out: &mut Vec<usize>, resources: &Vec<ResourceInfo>, kind: ResourceKind)
    ensures
        final(out)@ == old(out)@ + all_places(resources@, |r: ResourceInfo| r.kind == kind),
{
    let ghost p = |r: ResourceInfo| r.kind == kind;
    let ghost before = out@;
    let mut i: usize = 0;
    assert(before + places(resources@, 0, p) =~= before);
    while i < resources.len()
        invariant
            i <= resources@.len(),
            p == (|r: ResourceInfo| r.kind == kind),
            out@ == before + places(resources@, i as int, p),
        decreases resources@.len() - i,
    {
        if resources[i].kind == kind {
            out.push(i);
            assert(out@ =~= before + places(resources@, i as int, p).push(i));
        }
        i += 1;
    }
}

fn push_images(out: &mut Vec<usize>, resources: &Vec<ResourceInfo>, at: usize)
    requires
        at < resources@.len(),
    ensures
        final(out)@ == old(out)@ + all_places(
            resources@,
            |r: ResourceInfo|
                r.kind == ResourceKind::Image && holds_text(
                    r.name@,
                    resources@[at as int].name@,
                ),
        ),
{
    let ghost p = |r: ResourceInfo|
        r.kind == ResourceKind::Image && holds_text(r.name@, resources@[at as int].name@);
    let ghost before = out@;
    let mut i: usize = 0;
    assert(before + places(resources@, 0, p) =~= before);
    while i < resources.len()
        invariant
            at < resources@.len(),
            i <= resources@.len(),
            p == (|r: ResourceInfo|
                r.kind == ResourceKind::Image && holds_text(r.name@, resources@[at as int].name@)),
            out@ == before + places(resources@, i as int, p),
        decreases resources@.len() - i,
    {
        if resources[i].kind == ResourceKind::Image && contains(
            resources[i].name.as_str(),
            resources[at].name.as_str(),
        ) {
            out.push(i);
            assert(out@ =~= before + places(resources@, i as int, p).push(i));
        }
        i += 1;
    }
}

fn claims(resources: &Vec<ResourceInfo>, at: &Vec<usize>, i: usize) -> (r: bool)
    requires
        i < resources@.len(),
        forall|k: int| 0 <= k < at@.len() ==> (#[trigger] at@[k]) < resources@.len(),
    ensures
        r == is_claimed(resources@, at@, resources@[i as int]),
{
    let mut k: usize = 0;
    while k < at.len()
        invariant
            i < resources@.len(),
            forall|k: int| 0 <= k < at@.len() ==> (#[trigger] at@[k]) < resources@.len(),
            k <= at@.len(),
            forall|j: int|
                0 <= j < k ==> !is_same(
                    resources@[#[trigger] at@[j] as int],
                    resources@[i as int],
                ),
        decreases at@.len() - k,
    {
        let j: usize = at[k];
        if resources[j].kind == resources[i].kind && same(
            resources[j].name.as_str(),
            resources[i].name.as_str(),
        ) {
            assert(is_same(resources@[at@[k as int] as int], resources@[i as int]));
            return true;
        }
        k += 1;
    }
    false
}

proof fn lemma_places(resources: Seq<ResourceInfo>, n: int, p: spec_fn(ResourceInfo) -> bool)
    requires
        0 <= n <= resources.len() <= usize::MAX,
    ensures
        forall|k: int|
            0 <= k < places(resources, n, p).len() ==> (#[trigger] places(resources, n, p)[k]) < n
                && p(resources[places(resources, n, p)[k] as int]),
        forall|i: int|
            0 <= i < n && p(#[trigger] resources[i]) ==> places(resources, n, p).contains(
                i as usize,
            ),
    decreases n,
{
    if n > 0 {
        lemma_places(resources, n - 1, p);
        let shorter = places(resources, n - 1, p);
        let all = places(resources, n, p);
        assert forall|i: int| 0 <= i < n && p(#[trigger] resources[i]) implies all.contains(
            i as usize,
        ) by {
            if i < n - 1 {
                assert(shorter.contains(i as usize));
                let k = choose|k: int| 0 <= k < shorter.len() && shorter[k] == i as usize;
                assert(all[k] == i as usize);
            } else {
                assert(all[all.len() - 1] == i as usize);
            }
        }
    }
}

proof fn lemma_trees_are_places(resources: Seq<ResourceInfo>, n: int)
    requires
        0 <= n <= resources.len() <= usize::MAX,
    ensures
        forall|k: int|
            0 <= k < trees(resources, n).len() ==> (#[trigger] trees(resources, n)[k])
                < resources.len(),
    decreases n,
{
    if n > 0 {
        lemma_trees_are_places(resources, n - 1);
        if resources[n - 1].kind == ResourceKind::Container {
            let images = |r: ResourceInfo|
                r.kind == ResourceKind::Image && holds_text(r.name@, resources[n - 1].name@);
            let volumes = |r: ResourceInfo| r.kind == ResourceKind::Volume;
            lemma_places(resources, resources.len() as int, images);
            lemma_places(resources, resources.len() as int, volumes);
            let a = all_places(resources, images);
            let b = all_places(resources, volumes);
            let tree = tree_of(resources, n - 1);
            let shorter = trees(resources, n - 1);
            assert(tree == seq![(n - 1) as usize] + a + b);
            assert forall|k: int| 0 <= k < trees(resources, n).len() implies (
            #[trigger] trees(resources, n)[k]) < resources.len() by {
                if k < shorter.len() {
                    assert(trees(resources, n)[k] == shorter[k]);
                } else {
                    let j = k - shorter.len();
                    assert(trees(resources, n)[k] == tree[j]);
                    if j == 0 {
                        assert(tree[j] == (n - 1) as usize);
                    } else if j < 1 + a.len() {
                        assert(tree[j] == a[j - 1]);
                    } else {
                        assert(tree[j] == b[j - 1 - a.len()]);
                    }
                }
            }
        } else {
            assert(trees(resources, n) == trees(resources, n - 1));
        }
    } else {
        assert(trees(resources, n).len() == 0);
    }
}

/// The order the resources are listed in.
pub fn order_resources(resources: &Vec<ResourceInfo>) -> (out: Vec<usize>)
    ensures
        out@ == ordered(resources@),
        forall|k: int| 0 <= k < out@.len() ==> (#[trigger] out@[k]) < resources@.len(),
{
    let mut out: Vec<usize> = Vec::new();
    push_kind(&mut out, resources, ResourceKind::Substrate);
    let ghost substrate = |r: ResourceInfo| r.kind == ResourceKind::Substrate;
    let ghost head = all_places(resources@, substrate);
    assert(out@ =~= head);
    assert(head + trees(resources@, 0) =~= head);
    let mut i: usize = 0;
    while i < resources.len()
        invariant
            i <= resources@.len(),
            out@ == head + trees(resources@, i as int),
        decreases resources@.len() - i,
    {
        if resources[i].kind == ResourceKind::Container {
            let ghost before = out@;
            out.push(i);
            push_images(&mut out, resources, i);
            push_kind(&mut out, resources, ResourceKind::Volume);
            assert(out@ =~= before + tree_of(resources@, i as int));
            assert(out@ =~= head + (trees(resources@, i as int) + tree_of(resources@, i as int)));
        }
        i += 1;
    }
    let ghost first = out@;
    assert(first == claimed(resources@));
    proof {
        lemma_places(resources@, resources@.len() as int, substrate);
        lemma_trees_are_places(resources@, resources@.len() as int);
        assert forall|k: int| 0 <= k < first.len() implies (#[trigger] first[k])
            < resources@.len() by {
            if k < head.len() {
                assert(first[k] == head[k]);
            } else {
                assert(first[k] == trees(resources@, resources@.len() as int)[k - head.len()]);
            }
        }
    }
    let ghost rest = |r: ResourceInfo| !is_claimed(resources@, first, r);
    let mut left: Vec<usize> = Vec::new();
    let mut i: usize = 0;
    while i < resources.len()
        invariant
            i <= resources@.len(),
            out@ == first,
            forall|k: int| 0 <= k < out@.len() ==> (#[trigger] out@[k]) < resources@.len(),
            rest == (|r: ResourceInfo| !is_claimed(resources@, first, r)),
            left@ == places(resources@, i as int, rest),
        decreases resources@.len() - i,
    {
        if !claims(resources, &out, i) {
            left.push(i);
        }
        i += 1;
    }
    proof {
        lemma_places(resources@, resources@.len() as int, rest);
    }
    out.append(&mut left);
    assert(out@ =~= ordered(resources@));
    out
}

proof fn lemma_trees_hold(resources: Seq<ResourceInfo>, n: int, c: int, i: usize)
    requires
        0 <= c < n <= resources.len() <= usize::MAX,
        resources[c].kind == ResourceKind::Container,
        tree_of(resources, c).contains(i),
    ensures
        trees(resources, n).contains(i),
    decreases n,
{
    let here = trees(resources, n);
    if c == n - 1 {
        let tree = tree_of(resources, c);
        let k = choose|k: int| 0 <= k < tree.len() && tree[k] == i;
        assert(here[trees(resources, n - 1).len() + k] == i);
    } else {
        lemma_trees_hold(resources, n - 1, c, i);
        let shorter = trees(resources, n - 1);
        let k = choose|k: int| 0 <= k < shorter.len() && shorter[k] == i;
        assert(here[k] == i);
    }
}

proof fn lemma_trees_come_from(resources: Seq<ResourceInfo>, n: int, k: int) -> (c: int)
    requires
        0 <= n <= resources.len() <= usize::MAX,
        0 <= k < trees(resources, n).len(),
    ensures
        0 <= c < n,
        resources[c].kind == ResourceKind::Container,
        tree_of(resources, c).contains(trees(resources, n)[k]),
    decreases n,
{
    let shorter = trees(resources, n - 1);
    if k < shorter.len() {
        let c = lemma_trees_come_from(resources, n - 1, k);
        assert(trees(resources, n)[k] == shorter[k]);
        c
    } else {
        let tree = tree_of(resources, n - 1);
        assert(trees(resources, n)[k] == tree[k - shorter.len()]);
        n - 1
    }
}

/// What belongs in a container's tree belongs there by its kind and its name:
/// of two resources that podman would call the same, both do or neither.
proof fn lemma_tree_by_name(resources: Seq<ResourceInfo>, c: int, k: int, i: int)
    requires
        resources.len() <= usize::MAX,
        0 <= c < resources.len(),
        resources[c].kind == ResourceKind::Container,
        0 <= k < tree_of(resources, c).len(),
        0 <= i < resources.len(),
        is_same(resources[tree_of(resources, c)[k] as int], resources[i]),
        resources[i].kind != ResourceKind::Container,
    ensures
        tree_of(resources, c).contains(i as usize),
{
    let images = |r: ResourceInfo|
        r.kind == ResourceKind::Image && holds_text(r.name@, resources[c].name@);
    let volumes = |r: ResourceInfo| r.kind == ResourceKind::Volume;
    let n = resources.len() as int;
    lemma_places(resources, n, images);
    lemma_places(resources, n, volumes);
    let a = all_places(resources, images);
    let b = all_places(resources, volumes);
    let tree = tree_of(resources, c);
    assert(tree == seq![c as usize] + a + b);
    if k == 0 {
        assert(tree[0] == c as usize);
    } else if k < 1 + a.len() {
        assert(tree[k] == a[k - 1]);
        assert(images(resources[a[k - 1] as int]));
        assert(images(resources[i]));
        let j = choose|j: int| 0 <= j < a.len() && a[j] == i as usize;
        assert(tree[1 + j] == i as usize);
    } else {
        assert(tree[k] == b[k - 1 - a.len()]);
        assert(volumes(resources[b[k - 1 - a.len()] as int]));
        assert(volumes(resources[i]));
        let j = choose|j: int| 0 <= j < b.len() && b[j] == i as usize;
        assert(tree[1 + a.len() + j] == i as usize);
    }
}

/// Nothing podman holds is missing from the listing.
pub proof fn every_resource_is_listed(resources: Seq<ResourceInfo>, i: int)
    requires
        resources.len() <= usize::MAX,
        0 <= i < resources.len(),
    ensures
        ordered(resources).contains(i as usize),
{
    let n = resources.len() as int;
    let substrate = |r: ResourceInfo| r.kind == ResourceKind::Substrate;
    let first = claimed(resources);
    let head = all_places(resources, substrate);
    let body = trees(resources, n);
    let rest = |r: ResourceInfo| !is_claimed(resources, first, r);
    let tail = all_places(resources, rest);
    lemma_places(resources, n, substrate);
    lemma_places(resources, n, rest);
    lemma_trees_are_places(resources, n);
    assert(first == head + body);
    assert(ordered(resources) == first + tail);
    let all = ordered(resources);
    if !is_claimed(resources, first, resources[i]) {
        assert(rest(resources[i]));
        let k = choose|k: int| 0 <= k < tail.len() && tail[k] == i as usize;
        assert(all[first.len() + k] == i as usize);
    } else if resources[i].kind == ResourceKind::Substrate {
        assert(substrate(resources[i]));
        let k = choose|k: int| 0 <= k < head.len() && head[k] == i as usize;
        assert(all[k] == i as usize);
    } else {
        let at: int = if resources[i].kind == ResourceKind::Container {
            let tree = tree_of(resources, i);
            assert(tree[0] == i as usize);
            lemma_trees_hold(resources, n, i, i as usize);
            choose|k: int| 0 <= k < body.len() && body[k] == i as usize
        } else {
            let k = choose|k: int|
                0 <= k < first.len() && is_same(
                    resources[#[trigger] first[k] as int],
                    resources[i],
                );
            if k < head.len() {
                assert(first[k] == head[k]);
                assert(substrate(resources[head[k] as int]));
            }
            assert(first[k] == body[k - head.len()]);
            let c = lemma_trees_come_from(resources, n, k - head.len());
            let tree = tree_of(resources, c);
            let j = choose|j: int| 0 <= j < tree.len() && tree[j] == first[k];
            lemma_tree_by_name(resources, c, j, i);
            lemma_trees_hold(resources, n, c, i as usize);
            choose|k: int| 0 <= k < body.len() && body[k] == i as usize
        };
        assert(body.contains(i as usize));
        assert(body[at] == i as usize);
        assert(all[head.len() + at] == i as usize);
    }
}

/// A status as a sentence begins: in lower case, but for an ASCII letter at its
/// start.
pub open spec fn sentence(status: Seq<char>) -> Seq<char> {
    let lower = lowered(status);
    if lower.len() > 0 && 'a' <= lower[0] <= 'z' {
        seq![(lower[0] as u32 - 32) as char] + lower.subrange(1, lower.len() as int)
    } else {
        lower
    }
}

/// podman capitalises mid-sentence ("Up About an hour"): sentence-case it.
pub fn sentence_case(status: &str) -> (out: String)
    ensures
        out@ == sentence(status@),
{
    let lower = lowercase(status);
    let chars = chars_of(lower.as_str());
    if chars.len() > 0 && 'a' <= chars[0] && chars[0] <= 'z' {
        let mut out = String::new();
        let c = ((chars[0] as u32 - 32) as u8) as char;
        out.push(c);
        assert(out@ =~= seq![(lower@[0] as u32 - 32) as char]);
        let rest = string_of(&chars, 1, chars.len());
        out.append(rest.as_str());
        out
    } else {
        lower
    }
}

/// One row of the listing.
#[derive(Debug, PartialEq, Eq)]
pub struct ResourceRow {
    /// Which resource.
    pub resource: usize,
    pub margin_start: i32,
    pub icon: &'static str,
    pub status: String,
    /// It can be removed from here: a volume that is there.
    pub removable: bool,
}

/// What a row says of its resource.
pub open spec fn row_of(row: ResourceRow, resources: Seq<ResourceInfo>, at: usize) -> bool {
    let r = resources[at as int];
    &&& row.resource == at
    &&& row.margin_start == 8 + depth_of(resources, r) * 22
    &&& row.icon@ == match r.kind {
        ResourceKind::Container => "utilities-terminal-symbolic"@,
        ResourceKind::Image => "drive-harddisk-symbolic"@,
        ResourceKind::Volume => "folder-symbolic"@,
        ResourceKind::Substrate => "computer-symbolic"@,
    }
    &&& row.status@ == sentence(r.status@)
    &&& row.removable == (r.kind == ResourceKind::Volume && r.status@ == "present"@)
}

fn depth(resources: &Vec<ResourceInfo>, at: usize) -> (out: i32)
    requires
        at < resources@.len(),
    ensures
        out == depth_of(resources@, resources@[at as int]),
        out == 0 || out == 1,
{
    let kind = resources[at].kind;
    match kind {
        ResourceKind::Substrate | ResourceKind::Container => {
            return 0;
        },
        _ => {},
    }
    let mut c: usize = 0;
    while c < resources.len()
        invariant
            at < resources@.len(),
            c <= resources@.len(),
            kind == resources@[at as int].kind,
            kind == ResourceKind::Image || kind == ResourceKind::Volume,
            forall|j: int|
                0 <= j < c && (#[trigger] resources@[j]).kind == ResourceKind::Container ==> kind
                    == ResourceKind::Image && !holds_text(
                    resources@[at as int].name@,
                    resources@[j].name@,
                ),
        decreases resources@.len() - c,
    {
        if resources[c].kind == ResourceKind::Container {
            if kind == ResourceKind::Volume || contains(
                resources[at].name.as_str(),
                resources[c].name.as_str(),
            ) {
                assert(resources@[c as int].kind == ResourceKind::Container);
                return 1;
            }
        }
        c += 1;
    }
    0
}

/// The rows of the Resources tab, in order; none where podman holds nothing,
/// which the tab says in words.
pub fn render_resources(resources: &Vec<ResourceInfo>) -> (out: Vec<ResourceRow>)
    ensures
        out@.len() == ordered(resources@).len(),
        forall|k: int|
            0 <= k < out@.len() ==> row_of(
                #[trigger] out@[k],
                resources@,
                ordered(resources@)[k],
            ),
{
    let order = order_resources(resources);
    let mut out: Vec<ResourceRow> = Vec::new();
    let mut k: usize = 0;
    while k < order.len()
        invariant
            order@ == ordered(resources@),
            forall|k: int| 0 <= k < order@.len() ==> (#[trigger] order@[k]) < resources@.len(),
            k <= order@.len(),
            out@.len() == k,
            forall|j: int|
                0 <= j < k ==> row_of(#[trigger] out@[j], resources@, ordered(resources@)[j]),
        decreases order@.len() - k,
    {
        let at: usize = order[k];
        let resource = &resources[at];
        let level: i32 = depth(resources, at);
        out.push(
            ResourceRow {
                resource: at,
                margin_start: 8 + level * 22,
                icon: match resource.kind {
                    ResourceKind::Container => "utilities-terminal-symbolic",
                    ResourceKind::Image => "drive-harddisk-symbolic",
                    ResourceKind::Volume => "folder-symbolic",
                    ResourceKind::Substrate => "computer-symbolic",
                },
                status: sentence_case(resource.status.as_str()),
                removable: resource.kind == ResourceKind::Volume && same(
                    resource.status.as_str(),
                    "present",
                ),
            },
        );
        k += 1;
    }
    out
}

/// What the tab says where podman holds nothing.
pub fn no_resources() -> (out: &'static str)
    ensures
        out@ == "No containers or images yet — start this environment to create them."@,
{
    "No containers or images yet — start this environment to create them."
}

/// What removing a volume is asked with.
pub fn remove_volume_body(volume: &str) -> (out: String)
    ensures
        out@ == "Volume “"@ + volume@ + "” and its cached contents will be deleted."@,
{
    concat3("Volume “", volume, "” and its cached contents will be deleted.")
}

/// What the Resources tab says it is for, of a row.
pub open spec fn resources_shown(row: FleetRow) -> Seq<char> {
    if row.disk_shown() == "—"@ {
        RESOURCES_TOOLTIP@
    } else {
        RESOURCES_TOOLTIP@ + " — "@ + row.disk_shown()
            + " on disk"@
    }
}

/// What the Resources tab says it is for, and, once podman has been asked, how
/// big it all is.
pub fn resources_tooltip(row: &FleetRow) -> (out: String)
    ensures
        out@ == resources_shown(*row),
{
    let size = row.disk_text();
    if same(size.as_str(), "—") {
        return RESOURCES_TOOLTIP.to_owned();
    }
    let mut text = concat3(
        RESOURCES_TOOLTIP,
        " — ",
        size.as_str(),
    );
    text.append(" on disk");
    text
}

/// A row tells its resource by its glyph and its indent, and offers to remove it
/// exactly where it is a volume that is there.
pub proof fn a_row_tells_its_resource(row: ResourceRow, resources: Seq<ResourceInfo>, at: usize)
    requires
        row_of(row, resources, at),
    ensures
        row.resource == at,
        row.removable <==> resources[at as int].kind == ResourceKind::Volume
            && resources[at as int].status@ == "present"@,
        resources[at as int].kind == ResourceKind::Container ==> row.icon@
            == "utilities-terminal-symbolic"@ && row.margin_start == 8,
        resources[at as int].kind == ResourceKind::Substrate ==> row.icon@ == "computer-symbolic"@
            && row.margin_start == 8,
        resources[at as int].kind == ResourceKind::Image ==> row.icon@ == "drive-harddisk-symbolic"@,
        resources[at as int].kind == ResourceKind::Volume ==> row.icon@ == "folder-symbolic"@,
        row.margin_start == 8 || row.margin_start == 30,
        row.margin_start == 30 ==> exists|c: int|
            0 <= c < resources.len() && (#[trigger] resources[c]).kind == ResourceKind::Container,
        resources[at as int].kind == ResourceKind::Volume ==> (row.margin_start == 30 <==> exists|
            c: int,
        |
            0 <= c < resources.len() && (#[trigger] resources[c]).kind == ResourceKind::Container),
        resources[at as int].kind == ResourceKind::Image ==> (row.margin_start == 30 <==> exists|
            c: int,
        |
            0 <= c < resources.len() && (#[trigger] resources[c]).kind == ResourceKind::Container
                && holds_text(resources[at as int].name@, resources[c].name@)),
        row.status@ == sentence(resources[at as int].status@),
{
}

/// A status begins as a sentence does: only its first letter is large.
pub proof fn a_status_begins_as_a_sentence(status: Seq<char>)
    ensures
        sentence(status).len() == lowered(status).len(),
        forall|i: int|
            0 < i < lowered(status).len() ==> #[trigger] sentence(status)[i] == lowered(status)[i],
        lowered(status).len() > 0 && 'a' <= lowered(status)[0] <= 'z' ==> sentence(status)[0] as u32
            + 32 == lowered(status)[0] as u32,
        lowered(status).len() > 0 && !('a' <= lowered(status)[0] <= 'z') ==> sentence(status)[0]
            == lowered(status)[0],
{
    let lower = lowered(status);
    if lower.len() > 0 && 'a' <= lower[0] <= 'z' {
        assert((lower[0] as u32 - 32) as char as u32 == lower[0] as u32 - 32);
    }
}

/// What everything else sits on is listed first, and a container leads what
/// belongs to it: the images that bear its name, and the volumes.
pub proof fn the_substrate_leads(resources: Seq<ResourceInfo>, k: int)
    requires
        resources.len() <= usize::MAX,
    ensures
        0 <= k < all_places(
            resources,
            |r: ResourceInfo| r.kind == ResourceKind::Substrate,
        ).len() ==> resources[ordered(resources)[k] as int].kind == ResourceKind::Substrate,
        0 <= k < resources.len() ==> tree_of(resources, k)[0] == k,
        0 <= k < resources.len() ==> forall|i: int|
            0 < i < tree_of(resources, k).len() ==> resources[(#[trigger] tree_of(
                resources,
                k,
            )[i]) as int].kind == ResourceKind::Volume || (resources[tree_of(
                resources,
                k,
            )[i] as int].kind == ResourceKind::Image && holds_text(
                resources[tree_of(resources, k)[i] as int].name@,
                resources[k].name@,
            )),
{
    let under = |r: ResourceInfo| r.kind == ResourceKind::Substrate;
    let n = resources.len() as int;
    let base = all_places(resources, under);
    if 0 <= k < base.len() {
        lemma_places(resources, n, under);
        assert(claimed(resources)[k] == base[k]);
        assert(ordered(resources)[k] == claimed(resources)[k]);
    }
    if 0 <= k < resources.len() {
        let bears = |r: ResourceInfo|
            r.kind == ResourceKind::Image && holds_text(r.name@, resources[k].name@);
        let mounts = |r: ResourceInfo| r.kind == ResourceKind::Volume;
        let images = all_places(resources, bears);
        let volumes = all_places(resources, mounts);
        let tree = tree_of(resources, k);
        assert(tree == seq![k as usize] + images + volumes);
        assert forall|i: int| 0 < i < tree.len() implies resources[(#[trigger] tree[i]) as int].kind
            == ResourceKind::Volume || (resources[tree[i] as int].kind == ResourceKind::Image
            && holds_text(resources[tree[i] as int].name@, resources[k].name@)) by {
            if i < 1 + images.len() {
                lemma_places(resources, n, bears);
                assert(tree[i] == images[i - 1]);
            } else {
                lemma_places(resources, n, mounts);
                assert(tree[i] == volumes[i - 1 - images.len()]);
            }
        }
    }
}

/// The Resources tab says how big it all is exactly where that was measured.
pub proof fn a_footprint_is_said_where_measured(row: FleetRow)
    ensures
        row.disk is None ==> resources_shown(row)
            == "This environment's containers, volumes, and images"@,
        crate::text::begins_with(
            resources_shown(row),
            "This environment's containers, volumes, and images"@,
        ),
        row.disk_shown() != "—"@ ==> holds_text(resources_shown(row), row.disk_shown()),
{
    let lead = "This environment's containers, volumes, and images"@;
    assert(resources_shown(row).subrange(0, lead.len() as int) =~= lead);
    crate::text::lemma_holds_middle(lead + " — "@, row.disk_shown(), " on disk"@);
}

} // verus!
