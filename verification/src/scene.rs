//! The node graph of a skinned scene and the consistency checks of a skinned mesh.
use vstd::prelude::*;

verus! {

/// Node `c` is among the children that node `p` lists.
pub open spec fn lists_child(children: Seq<Vec<usize>>, p: int, c: int) -> bool {
    0 <= p < children.len() && children[p]@.contains(c as usize) && 0 <= c
}

/// `parents` records, for every node, the last node (in node order) that lists it as a
/// child, or `None` where no node does.
pub open spec fn is_parent_table(children: Seq<Vec<usize>>, parents: Seq<Option<usize>>) -> bool {
    &&& parents.len() == children.len()
    &&& forall|c: int|
        0 <= c < parents.len() ==> match #[trigger] parents[c] {
            Some(p) => lists_child(children, p as int, c) && forall|q: int|
                p < q < children.len() ==> !lists_child(children, q, c),
            None => forall|q: int| 0 <= q < children.len() ==> !lists_child(children, q, c),
        }
}

/// Every child index names a node of the scene.
pub open spec fn children_in_range(children: Seq<Vec<usize>>) -> bool {
    forall|p: int, k: int|
        0 <= p < children.len() && 0 <= k < children[p]@.len() ==> #[trigger] children[p]@[k]
            < children.len()
}

/// Builds the `node -> parent` lookup table of a scene graph, given each node's children.
pub fn build_parents(children: &Vec<Vec<usize>>) -> (parents: Vec<Option<usize>>)
    requires
        children_in_range(children@),
    ensures
        is_parent_table(children@, parents@),
{
    let n = children.len();
    let mut parents: Vec<Option<usize>> = Vec::new();
    let mut i: usize = 0;
    while i < n
        invariant
            n == children.len(),
            i <= n,
            parents.len() == i,
            forall|c: int| 0 <= c < i ==> parents@[c] is None,
        decreases n - i,
    {
        parents.push(None);
        i = i + 1;
    }
    let mut p: usize = 0;
    while p < n
        invariant
            n == children.len(),
            p <= n,
            children_in_range(children@),
            parents.len() == n,
            forall|c: int|
                0 <= c < n ==> match #[trigger] parents@[c] {
                    Some(q) => q < p && lists_child(children@, q as int, c) && forall|r: int|
                        q < r < p ==> !lists_child(children@, r, c),
                    None => forall|r: int| 0 <= r < p ==> !lists_child(children@, r, c),
                },
        decreases n - p,
    {
        let kids = &children[p];
        let mut k: usize = 0;
        while k < kids.len()
            invariant
                n == children.len(),
                p < n,
                kids@ == children@[p as int]@,
                k <= kids.len(),
                children_in_range(children@),
                parents.len() == n,
                forall|c: int|
                    0 <= c < n ==> if kids@.take(k as int).contains(c as usize) {
                        #[trigger] parents@[c] == Some(p)
                    } else {
                        match parents@[c] {
                            Some(q) => q < p && lists_child(children@, q as int, c) && forall|r: int|
                                q < r < p ==> !lists_child(children@, r, c),
                            None => forall|r: int| 0 <= r < p ==> !lists_child(children@, r, c),
                        }
                    },
            decreases kids.len() - k,
        {
            let ch = kids[k];
            assert(ch < n);
            parents.set(ch, Some(p));
            proof {
                assert forall|c: int| 0 <= c < n implies #[trigger] kids@.take(k + 1).contains(c as usize) == (
                kids@.take(k as int).contains(c as usize) || c == ch) by {
                    if kids@.take(k + 1).contains(c as usize) {
                        let m = choose|m: int| 0 <= m < k + 1 && #[trigger] kids@.take(k + 1)[m] == c as usize;
                        if m < k {
                            assert(kids@.take(k as int)[m] == c as usize);
                        }
                    }
                    if c == ch {
                        assert(kids@.take(k + 1)[k as int] == ch);
                    }
                    if kids@.take(k as int).contains(c as usize) {
                        let m = choose|m: int| 0 <= m < k && #[trigger] kids@.take(k as int)[m] == c as usize;
                        assert(kids@.take(k + 1)[m] == c as usize);
                    }
                }
            }
            k = k + 1;
        }
        proof {
            assert(kids@.take(kids@.len() as int) =~= kids@);
            assert forall|c: int|
                0 <= c < n implies match #[trigger] parents@[c] {
                    Some(q) => q < p + 1 && lists_child(children@, q as int, c) && forall|r: int|
                        q < r < p + 1 ==> !lists_child(children@, r, c),
                    None => forall|r: int| 0 <= r < p + 1 ==> !lists_child(children@, r, c),
                } by {
                if kids@.contains(c as usize) {
                    assert(lists_child(children@, p as int, c));
                }
            }
        }
        p = p + 1;
    }
    parents
}

/// When no node is listed as a child by two nodes (the graph is a forest), the table
/// names exactly the node that lists each node.
pub proof fn lemma_forest_parents(children: Seq<Vec<usize>>, parents: Seq<Option<usize>>)
    requires
        is_parent_table(children, parents),
        forall|p: int, q: int, c: int|
            lists_child(children, p, c) && lists_child(children, q, c) ==> p == q,
    ensures
        forall|p: usize, c: int|
            0 <= c < parents.len() ==> (parents[c] == Some(p) <==> #[trigger] lists_child(children, p as int, c)),
{
    assert forall|p: usize, c: int| 0 <= c < parents.len() implies (parents[c] == Some(p)
        <==> #[trigger] lists_child(children, p as int, c)) by {
        match parents[c] {
            Some(q) => {
                assert(lists_child(children, q as int, c));
            },
            None => {},
        }
    }
}

/// Every recorded parent names a node of the scene.
pub open spec fn parents_in_range(parents: Seq<Option<usize>>) -> bool {
    forall|i: int| 0 <= i < parents.len() ==> (#[trigger] parents[i] matches Some(p) ==> p < parents.len())
}

/// `path` runs from a root of the scene (a node without parent) down to `node`, each
/// next node being a child of the one before.
pub open spec fn root_path(parents: Seq<Option<usize>>, node: int, path: Seq<usize>) -> bool {
    &&& path.len() >= 1
    &&& path.last() as int == node
    &&& forall|k: int| 0 <= k < path.len() ==> (#[trigger] path[k] as int) < parents.len()
    &&& parents[path[0] as int] is None
    &&& forall|k: int| 0 <= k < path.len() - 1 ==> parents[#[trigger] path[k + 1] as int] == Some(path[k])
}

/// Two paths from a root down to the same node end alike, step for step.
proof fn lemma_root_paths_agree_from_end(parents: Seq<Option<usize>>, node: int, a: Seq<usize>, b: Seq<usize>, k: int)
    requires
        root_path(parents, node, a),
        root_path(parents, node, b),
        0 <= k < a.len(),
        k < b.len(),
    ensures
        a[a.len() - 1 - k] == b[b.len() - 1 - k],
    decreases k,
{
    if k > 0 {
        lemma_root_paths_agree_from_end(parents, node, a, b, k - 1);
        let i = a.len() - 1 - k;
        let j = b.len() - 1 - k;
        assert(parents[a[i + 1] as int] == Some(a[i]));
        assert(parents[b[j + 1] as int] == Some(b[j]));
    }
}

/// The path from a root down to a node is unique: the scene's parent links fix it.
pub proof fn lemma_root_path_unique(parents: Seq<Option<usize>>, node: int, a: Seq<usize>, b: Seq<usize>)
    requires
        root_path(parents, node, a),
        root_path(parents, node, b),
    ensures
        a == b,
{
    if a.len() < b.len() {
        lemma_root_paths_agree_from_end(parents, node, a, b, a.len() - 1);
        let k = b.len() - a.len() - 1;
        assert(parents[b[k + 1] as int] == Some(b[k]));
    } else if b.len() < a.len() {
        lemma_root_paths_agree_from_end(parents, node, a, b, b.len() - 1);
        let k = a.len() - b.len() - 1;
        assert(parents[a[k + 1] as int] == Some(a[k]));
    } else {
        assert forall|i: int| 0 <= i < a.len() implies a[i] == b[i] by {
            lemma_root_paths_agree_from_end(parents, node, a, b, a.len() - 1 - i);
        }
        assert(a =~= b);
    }
}

/// A root path holds no node twice.
proof fn lemma_root_path_distinct(parents: Seq<Option<usize>>, node: int, path: Seq<usize>)
    requires
        root_path(parents, node, path),
    ensures
        path.no_duplicates(),
{
    assert forall|i: int, j: int|
        0 <= i < path.len() && 0 <= j < path.len() && i != j implies path[i] != path[j] by {
        if path[i] == path[j] {
            let a = if i < j { i } else { j };
            let b = if i < j { j } else { i };
            let pa = path.take(a + 1);
            let pb = path.take(b + 1);
            assert forall|k: int| 0 <= k < pb.len() - 1 implies parents[#[trigger] pb[k + 1] as int]
                == Some(pb[k]) by {
                assert(parents[path[k + 1] as int] == Some(path[k]));
            }
            assert forall|k: int| 0 <= k < pa.len() - 1 implies parents[#[trigger] pa[k + 1] as int]
                == Some(pa[k]) by {
                assert(parents[path[k + 1] as int] == Some(path[k]));
            }
            assert(root_path(parents, path[a] as int, pa));
            assert(root_path(parents, path[a] as int, pb));
            lemma_root_path_unique(parents, path[a] as int, pa, pb);
            assert(pa.len() != pb.len());
        }
    }
}

/// A sequence of distinct indices below `n` has at most `n` entries.
proof fn lemma_distinct_indices_bounded(s: Seq<usize>, n: int)
    requires
        0 <= n,
        s.no_duplicates(),
        forall|k: int| 0 <= k < s.len() ==> (#[trigger] s[k] as int) < n,
    ensures
        s.len() <= n,
{
    let t = s.map_values(|x: usize| x as int);
    assert forall|i: int, j: int| 0 <= i < t.len() && 0 <= j < t.len() && i != j implies t[i]
        != t[j] by {
        assert(s[i] != s[j]);
    }
    t.unique_seq_to_set();
    assert forall|x: int| t.to_set().contains(x) implies vstd::set_lib::set_int_range(0, n).contains(
        x,
    ) by {
        let k = choose|k: int| 0 <= k < t.len() && t[k] == x;
        assert(s[k] as int == x);
    }
    vstd::set_lib::lemma_int_range(0, n);
    vstd::set_lib::lemma_len_subset(t.to_set(), vstd::set_lib::set_int_range(0, n));
}

/// `up` follows the parent links upwards from `node`: it starts at `node` and each next
/// entry is the parent of the one before.
spec fn upward_walk(parents: Seq<Option<usize>>, node: int, up: Seq<usize>) -> bool {
    &&& up.len() >= 1 ==> up[0] as int == node
    &&& forall|j: int| 0 <= j < up.len() - 1 ==> parents[#[trigger] up[j] as int] == Some(up[j + 1])
}

/// Walking up from a node retraces its root path backwards, entry for entry.
proof fn lemma_walk_retraces_root_path(
    parents: Seq<Option<usize>>,
    node: int,
    path: Seq<usize>,
    up: Seq<usize>,
    j: int,
)
    requires
        root_path(parents, node, path),
        upward_walk(parents, node, up),
        0 <= j < up.len(),
        j < path.len(),
    ensures
        up[j] == path[path.len() - 1 - j],
    decreases j,
{
    if j > 0 {
        lemma_walk_retraces_root_path(parents, node, path, up, j - 1);
        let k = path.len() - 1 - j;
        assert(parents[path[k + 1] as int] == Some(path[k]));
        assert(parents[up[j - 1] as int] == Some(up[j]));
    }
}

/// The walk `up`, read backwards.
fn reversed_walk(up: &Vec<usize>) -> (chain: Vec<usize>)
    ensures
        chain@.len() == up@.len(),
        forall|i: int| 0 <= i < up@.len() ==> chain@[i] == up@[up@.len() - 1 - i],
{
    let mut chain: Vec<usize> = Vec::new();
    let mut j: usize = up.len();
    while j > 0
        invariant
            j <= up.len(),
            chain@.len() == up.len() - j,
            forall|i: int| 0 <= i < chain@.len() ==> chain@[i] == up@[up@.len() - 1 - i],
        decreases j,
    {
        j = j - 1;
        chain.push(up[j]);
    }
    chain
}

/// The nodes from the root of `node`'s tree down to `node` itself, root first (the order
/// in which their local transforms compose into `node`'s global transform), or `None`
/// where following the parent links up from `node` never reaches a root because they run
/// in a cycle. It follows at most as many links as the scene has nodes.
pub fn try_ancestor_chain(parents: &Vec<Option<usize>>, node: usize) -> (chain: Option<Vec<usize>>)
    requires
        node < parents.len(),
        parents_in_range(parents@),
    ensures
        chain matches Some(c) ==> root_path(parents@, node as int, c@),
        chain is None ==> forall|path: Seq<usize>| !root_path(parents@, node as int, path),
{
    let n = parents.len();
    let mut up: Vec<usize> = Vec::new();
    let mut cur: usize = node;
    while up.len() < n
        invariant
            n == parents.len(),
            parents_in_range(parents@),
            node < n,
            up.len() <= n,
            cur < n,
            up.len() == 0 ==> cur == node,
            up.len() > 0 ==> parents@[up@[up.len() - 1] as int] == Some(cur),
            upward_walk(parents@, node as int, up@),
            forall|j: int| 0 <= j < up.len() ==> (#[trigger] up@[j] as int) < n,
        decreases n - up.len(),
    {
        let ghost before = up@;
        up.push(cur);
        assert forall|j: int| 0 <= j < up@.len() - 1 implies parents@[#[trigger] up@[j] as int]
            == Some(up@[j + 1]) by {
            if j < before.len() - 1 {
                assert(parents@[before[j] as int] == Some(before[j + 1]));
            }
        }
        match parents[cur] {
            None => {
                let chain = reversed_walk(&up);
                proof {
                    let l = up@.len() as int;
                    assert forall|k: int| 0 <= k < chain@.len() - 1 implies parents@[
                        #[trigger] chain@[k + 1] as int] == Some(chain@[k]) by {
                        assert(chain@[k + 1] == up@[l - 2 - k]);
                        assert(chain@[k] == up@[(l - 2 - k) + 1]);
                        assert(parents@[up@[l - 2 - k] as int] == Some(up@[(l - 2 - k) + 1]));
                    }
                    assert forall|k: int| 0 <= k < chain@.len() implies (#[trigger] chain@[k] as int)
                        < parents@.len() by {
                        assert(chain@[k] == up@[l - 1 - k]);
                    }
                }
                return Some(chain);
            },
            Some(p) => {
                cur = p;
            },
        }
    }
    proof {
        assert forall|path: Seq<usize>| !root_path(parents@, node as int, path) by {
            if root_path(parents@, node as int, path) {
                lemma_root_path_distinct(parents@, node as int, path);
                lemma_distinct_indices_bounded(path, n as int);
                let l = path.len() as int;
                lemma_walk_retraces_root_path(parents@, node as int, path, up@, l - 1);
                if l - 1 < up@.len() - 1 {
                    assert(parents@[up@[l - 1] as int] == Some(up@[l]));
                }
            }
        }
    }
    None
}

/// The nodes from the root of `node`'s tree down to `node` itself, root first, for a node
/// whose root path exists.
pub fn ancestor_chain(parents: &Vec<Option<usize>>, node: usize) -> (chain: Vec<usize>)
    requires
        node < parents.len(),
        parents_in_range(parents@),
        exists|path: Seq<usize>| root_path(parents@, node as int, path),
    ensures
        root_path(parents@, node as int, chain@),
{
    match try_ancestor_chain(parents, node) {
        Some(c) => c,
        None => {
            proof {
                let path = choose|path: Seq<usize>| root_path(parents@, node as int, path);
                assert(root_path(parents@, node as int, path));
            }
            Vec::new()
        },
    }
}

/// A chain through a parent table built from the children lists walks down the scene
/// graph: its first node is listed as a child by no node, and each next node is a
/// child of the one before.
pub proof fn lemma_chain_follows_children(
    children: Seq<Vec<usize>>,
    parents: Seq<Option<usize>>,
    node: int,
    path: Seq<usize>,
)
    requires
        is_parent_table(children, parents),
        root_path(parents, node, path),
    ensures
        forall|q: int| 0 <= q < children.len() ==> !lists_child(children, q, path[0] as int),
        forall|k: int| 0 <= k < path.len() - 1 ==> #[trigger] lists_child(children, path[k] as int, path[k + 1] as int),
{
    assert(parents[path[0] as int] is None);
    assert forall|k: int| 0 <= k < path.len() - 1 implies #[trigger] lists_child(
        children,
        path[k] as int,
        path[k + 1] as int,
    ) by {
        assert(parents[path[k + 1] as int] == Some(path[k]));
    }
}

/// Checks that a skinned primitive has as many joint and weight entries as positions.
pub fn check_vertex_attribute_counts(positions: usize, joints: usize, weights: usize) -> (r: Result<(), String>)
    ensures
        r is Ok <==> (joints == positions && weights == positions),
        r matches Err(m) ==> m@ == "positions/joints/weights length mismatch"@,
{
    if joints != positions || weights != positions {
        Err(String::from_str("positions/joints/weights length mismatch"))
    } else {
        Ok(())
    }
}

/// Checks that a skin has one inverse bind matrix per joint.
pub fn check_inverse_bind_count(inverse_binds: usize, joints: usize) -> (r: Result<(), String>)
    ensures
        r is Ok <==> inverse_binds == joints,
        r matches Err(m) ==> m@ == "inverse bind matrices count != joints count"@,
{
    if inverse_binds != joints {
        Err(String::from_str("inverse bind matrices count != joints count"))
    } else {
        Ok(())
    }
}

/// How many of the `found` views are kept when `requested` are asked for: all of them
/// when `requested` is 0 or not below `found`, else the first `requested`.
pub fn views_kept(found: usize, requested: usize) -> (kept: usize)
    ensures
        kept == (if requested > 0 && found > requested {
            requested
        } else {
            found
        }),
        kept <= found,
{
    if requested > 0 && found > requested {
        requested
    } else {
        found
    }
}

} // verus!
