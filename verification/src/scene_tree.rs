//! Searches over a snapshot of the scene tree.
//!
//! The snapshot numbers the nodes in preorder, so that every node comes after
//! its parent and before its children.
use vstd::prelude::*;

verus! {

/// A node of a scene-tree snapshot: its parent and its children, in order.
#[derive(Debug)]
pub struct SceneNode {
    pub parent: Option<usize>,
    pub children: Vec<usize>,
}

/// A snapshot of the scene tree.
#[derive(Debug)]
pub struct SceneTree {
    pub nodes: Vec<SceneNode>,
}

impl SceneTree {
    /// Every parent comes before its node and every child after it.
    pub open spec fn wf(&self) -> bool {
        &&& forall|i: int| 0 <= i < self.nodes@.len() ==>
            ((#[trigger] self.nodes@[i]).parent matches Some(p) ==> p < i)
        &&& forall|i: int, k: int| 0 <= i < self.nodes@.len() && 0 <= k < self.nodes@[i].children@.len() ==>
            i < #[trigger] self.nodes@[i].children@[k] < self.nodes@.len()
    }
}

/// The first node, in preorder from `node`, that `matches` holds of.
pub open spec fn spec_first_match(tree: SceneTree, matches: Seq<bool>, node: int) -> Option<usize>
    decreases tree.nodes@.len() - node, 1int, 0int,
{
    if !(0 <= node < tree.nodes@.len()) {
        None
    } else if matches[node] {
        Some(node as usize)
    } else {
        spec_first_match_children(tree, matches, node, 0)
    }
}

/// The first node, in preorder over the subtrees of the children of `node` from
/// the `k`-th on, that `matches` holds of.
pub open spec fn spec_first_match_children(tree: SceneTree, matches: Seq<bool>, node: int, k: int) -> Option<usize>
    decreases tree.nodes@.len() - node, 0int, tree.nodes@[node].children@.len() - k,
{
    if !(0 <= node < tree.nodes@.len()) || k < 0 || k >= tree.nodes@[node].children@.len() {
        None
    } else {
        let child = tree.nodes@[node].children@[k] as int;
        if child <= node || child >= tree.nodes@.len() {
            None
        } else {
            match spec_first_match(tree, matches, child) {
                Some(found) => Some(found),
                None => spec_first_match_children(tree, matches, node, k + 1),
            }
        }
    }
}

/// The first node, in preorder from `node`, that `matches` holds of: `node`
/// itself, else the first match in its children's subtrees in order.
pub fn look_for(tree: &SceneTree, matches: &Vec<bool>, node: usize) -> (res: Option<usize>)
    requires
        tree.wf(),
        matches@.len() == tree.nodes@.len(),
        node < tree.nodes@.len(),
    ensures
        res == spec_first_match(*tree, matches@, node as int),
    decreases tree.nodes@.len() - node, 1int, 0int,
{
    if matches[node] {
        return Some(node);
    }
    look_for_children(tree, matches, node, 0)
}

fn look_for_children(tree: &SceneTree, matches: &Vec<bool>, node: usize, k: usize) -> (res: Option<usize>)
    requires
        tree.wf(),
        matches@.len() == tree.nodes@.len(),
        node < tree.nodes@.len(),
        k <= tree.nodes@[node as int].children@.len(),
    ensures
        res == spec_first_match_children(*tree, matches@, node as int, k as int),
    decreases tree.nodes@.len() - node, 0int, tree.nodes@[node as int].children@.len() - k,
{
    if k >= tree.nodes[node].children.len() {
        return None;
    }
    let child = tree.nodes[node].children[k];
    assert(node < child < tree.nodes@.len());
    match look_for(tree, matches, child) {
        Some(found) => Some(found),
        None => look_for_children(tree, matches, node, k + 1),
    }
}

/// A match found by the search is a node that `matches` holds of.
pub proof fn lemma_first_match_matches(tree: SceneTree, matches: Seq<bool>, node: int)
    requires
        matches.len() == tree.nodes@.len(),
        tree.nodes@.len() <= usize::MAX,
    ensures
        spec_first_match(tree, matches, node) matches Some(f)
            ==> 0 <= f < tree.nodes@.len() && matches[f as int],
    decreases tree.nodes@.len() - node, 1int, 0int,
{
    if 0 <= node < tree.nodes@.len() && !matches[node] {
        lemma_first_match_children_matches(tree, matches, node, 0);
    }
}

proof fn lemma_first_match_children_matches(tree: SceneTree, matches: Seq<bool>, node: int, k: int)
    requires
        matches.len() == tree.nodes@.len(),
        tree.nodes@.len() <= usize::MAX,
    ensures
        spec_first_match_children(tree, matches, node, k) matches Some(f)
            ==> 0 <= f < tree.nodes@.len() && matches[f as int],
    decreases tree.nodes@.len() - node, 0int, tree.nodes@[node].children@.len() - k,
{
    if 0 <= node < tree.nodes@.len() && 0 <= k < tree.nodes@[node].children@.len() {
        let child = tree.nodes@[node].children@[k] as int;
        if node < child < tree.nodes@.len() {
            lemma_first_match(tree, matches, child);
            lemma_first_match_children_matches(tree, matches, node, k + 1);
        }
    }
}

proof fn lemma_first_match(tree: SceneTree, matches: Seq<bool>, node: int)
    requires
        matches.len() == tree.nodes@.len(),
        tree.nodes@.len() <= usize::MAX,
    ensures
        spec_first_match(tree, matches, node) matches Some(f)
            ==> 0 <= f < tree.nodes@.len() && matches[f as int],
    decreases tree.nodes@.len() - node, 1int, 1int,
{
    lemma_first_match_matches(tree, matches, node);
}

/// The nearest strict ancestor of `node` that `matches` holds of. A parent
/// link that does not lead to an earlier node ends the walk.
pub open spec fn spec_walk_parents(tree: SceneTree, matches: Seq<bool>, node: int) -> Option<usize>
    decreases node,
{
    if !(0 <= node < tree.nodes@.len()) {
        None
    } else {
        match tree.nodes@[node].parent {
            None => None,
            Some(p) => if p >= node {
                None
            } else if matches[p as int] {
                Some(p)
            } else {
                spec_walk_parents(tree, matches, p as int)
            },
        }
    }
}

/// The nearest strict ancestor of `node` that `matches` holds of.
pub fn try_walk_parents_for(tree: &SceneTree, matches: &Vec<bool>, node: usize) -> (res: Option<usize>)
    requires
        tree.wf(),
        matches@.len() == tree.nodes@.len(),
        node < tree.nodes@.len(),
    ensures
        res == spec_walk_parents(*tree, matches@, node as int),
{
    let mut cur = node;
    loop
        invariant
            tree.wf(),
            matches@.len() == tree.nodes@.len(),
            cur < tree.nodes@.len(),
            spec_walk_parents(*tree, matches@, node as int) == spec_walk_parents(*tree, matches@, cur as int),
        decreases cur,
    {
        match tree.nodes[cur].parent {
            None => {
                return None;
            },
            Some(p) => {
                if matches[p] {
                    return Some(p);
                }
                cur = p;
            },
        }
    }
}

/// The nearest strict ancestor of `node` that `matches` holds of, which must exist.
pub fn walk_parents_for(tree: &SceneTree, matches: &Vec<bool>, node: usize) -> (res: usize)
    requires
        tree.wf(),
        matches@.len() == tree.nodes@.len(),
        node < tree.nodes@.len(),
        spec_walk_parents(*tree, matches@, node as int) is Some,
    ensures
        Some(res) == spec_walk_parents(*tree, matches@, node as int),
{
    match try_walk_parents_for(tree, matches, node) {
        Some(p) => p,
        None => 0,
    }
}

/// The ancestor found by a walk is a node that `matches` holds of, above `node`.
pub proof fn lemma_walk_parents_finds_match(tree: SceneTree, matches: Seq<bool>, node: int)
    requires
        matches.len() == tree.nodes@.len(),
    ensures
        spec_walk_parents(tree, matches, node) matches Some(p) ==> p < node && matches[p as int],
    decreases node,
{
    if 0 <= node < tree.nodes@.len() {
        match tree.nodes@[node].parent {
            Some(p) => {
                if p < node && !matches[p as int] {
                    lemma_walk_parents_finds_match(tree, matches, p as int);
                }
            },
            None => {},
        }
    }
}

/// The chain of a node: the node followed by its ancestors, nearest first.
pub open spec fn spec_chain(tree: SceneTree, node: int) -> Seq<usize>
    decreases node,
{
    if !(0 <= node < tree.nodes@.len()) {
        Seq::empty()
    } else {
        match tree.nodes@[node].parent {
            Some(p) => if p < node {
                seq![node as usize] + spec_chain(tree, p as int)
            } else {
                seq![node as usize]
            },
            None => seq![node as usize],
        }
    }
}

/// The chain of a node: the node followed by its ancestors, nearest first.
pub fn ancestor_chain(tree: &SceneTree, node: usize) -> (res: Vec<usize>)
    requires
        tree.wf(),
        node < tree.nodes@.len(),
    ensures
        res@ == spec_chain(*tree, node as int),
{
    let mut res: Vec<usize> = Vec::new();
    let mut cur = node;
    loop
        invariant
            tree.wf(),
            cur < tree.nodes@.len(),
            spec_chain(*tree, node as int) == res@ + spec_chain(*tree, cur as int),
        decreases cur,
    {
        res.push(cur);
        match tree.nodes[cur].parent {
            None => {
                return res;
            },
            Some(p) => {
                cur = p;
            },
        }
    }
}

/// The walk up the parents is complete: it finds the nearest strict ancestor
/// that `matches` holds of, however far up it stands, and finds nothing only
/// where no strict ancestor matches. Ancestors are read off the node's chain.
pub proof fn lemma_walk_parents_nearest(tree: SceneTree, matches: Seq<bool>, node: int)
    requires
        0 <= node < tree.nodes@.len(),
    ensures
        ({
            let chain = spec_chain(tree, node);
            match spec_walk_parents(tree, matches, node) {
                Some(p) => exists|k: int| 1 <= k < chain.len() && #[trigger] chain[k] == p && matches[p as int]
                    && forall|j: int| 1 <= j < k ==> !matches[#[trigger] chain[j] as int],
                None => forall|k: int| 1 <= k < chain.len() ==> !matches[#[trigger] chain[k] as int],
            }
        }),
    decreases node,
{
    let chain = spec_chain(tree, node);
    match tree.nodes@[node].parent {
        Some(p) => {
            if p < node {
                let rest = spec_chain(tree, p as int);
                assert(chain == seq![node as usize] + rest);
                assert(rest.len() > 0 && rest[0] == p) by {
                    reveal_with_fuel(spec_chain, 1);
                }
                assert(chain[1] == p);
                if matches[p as int] {
                    assert(chain[1] == p);
                } else {
                    lemma_walk_parents_nearest(tree, matches, p as int);
                    assert forall|k: int| 1 <= k < rest.len() implies chain[k + 1] == #[trigger] rest[k] by {}
                    match spec_walk_parents(tree, matches, p as int) {
                        Some(q) => {
                            let k = choose|k: int| 1 <= k < rest.len() && #[trigger] rest[k] == q && matches[q as int]
                                && forall|j: int| 1 <= j < k ==> !matches[#[trigger] rest[j] as int];
                            assert(chain[k + 1] == q);
                            assert forall|j: int| 1 <= j < k + 1 implies !matches[#[trigger] chain[j] as int] by {
                                if j > 1 {
                                    assert(chain[j] == rest[j - 1]);
                                }
                            }
                        },
                        None => {
                            assert forall|k: int| 1 <= k < chain.len() implies !matches[#[trigger] chain[k] as int] by {
                                if k > 1 {
                                    assert(chain[k] == rest[k - 1]);
                                }
                            }
                        },
                    }
                }
            } else {
                assert(chain =~= seq![node as usize]);
            }
        },
        None => {
            assert(chain =~= seq![node as usize]);
        },
    }
}

impl SceneTree {
    /// Parent and child links agree: every child names its node as its parent,
    /// and every node with a parent is among that parent's children.
    pub open spec fn linked(&self) -> bool {
        &&& forall|i: int, k: int| 0 <= i < self.nodes@.len() && 0 <= k < self.nodes@[i].children@.len() ==>
            self.nodes@[#[trigger] self.nodes@[i].children@[k] as int].parent == Some(i as usize)
        &&& forall|q: int| 0 <= q < self.nodes@.len() ==> ((#[trigger] self.nodes@[q]).parent matches Some(p)
            ==> exists|k: int| 0 <= k < self.nodes@[p as int].children@.len()
                && #[trigger] self.nodes@[p as int].children@[k] == q as usize)
    }
}

proof fn lemma_children_search_finds(tree: SceneTree, matches: Seq<bool>, node: int, j: int, k: int)
    requires
        tree.wf(),
        0 <= node < tree.nodes@.len(),
        0 <= j <= k < tree.nodes@[node].children@.len(),
        spec_first_match(tree, matches, tree.nodes@[node].children@[k] as int) is Some,
    ensures
        spec_first_match_children(tree, matches, node, j) is Some,
    decreases k - j,
{
    let child = tree.nodes@[node].children@[j] as int;
    assert(node < child < tree.nodes@.len());
    if j < k && spec_first_match(tree, matches, child) is None {
        lemma_children_search_finds(tree, matches, node, j + 1, k);
    }
}

proof fn lemma_search_reaches_up(tree: SceneTree, matches: Seq<bool>, node: int, q: int)
    requires
        tree.wf(),
        tree.linked(),
        tree.nodes@.len() <= usize::MAX,
        0 <= node < tree.nodes@.len(),
        0 <= q < tree.nodes@.len(),
        spec_chain(tree, q).contains(node as usize),
        spec_first_match(tree, matches, q) is Some,
    ensures
        spec_first_match(tree, matches, node) is Some,
    decreases q,
{
    if q != node {
        let chain = spec_chain(tree, q);
        let i = choose|i: int| 0 <= i < chain.len() && chain[i] == node as usize;
        match tree.nodes@[q].parent {
            Some(p) => {
                assert(p < q);
                let rest = spec_chain(tree, p as int);
                assert(chain == seq![q as usize] + rest);
                assert(chain[0] == q as usize);
                assert(i != 0);
                assert(rest[i - 1] == node as usize);
                assert(rest.contains(node as usize));
                let k = choose|k: int| 0 <= k < tree.nodes@[p as int].children@.len()
                    && #[trigger] tree.nodes@[p as int].children@[k] == q as usize;
                lemma_children_search_finds(tree, matches, p as int, 0, k);
                lemma_search_reaches_up(tree, matches, node, p as int);
            },
            None => {
                assert(chain =~= seq![q as usize]);
            },
        }
    }
}

/// The search misses nothing: where some node of the subtree of `node` (a node
/// whose chain of ancestors passes through `node`, `node` included) matches, the
/// search from `node` finds a match.
pub proof fn lemma_look_for_finds_any_match(tree: SceneTree, matches: Seq<bool>, node: int, q: int)
    requires
        tree.wf(),
        tree.linked(),
        tree.nodes@.len() <= usize::MAX,
        0 <= node < tree.nodes@.len(),
        0 <= q < tree.nodes@.len(),
        spec_chain(tree, q).contains(node as usize),
        matches[q],
    ensures
        spec_first_match(tree, matches, node) is Some,
{
    lemma_search_reaches_up(tree, matches, node, q);
}

} // verus!
