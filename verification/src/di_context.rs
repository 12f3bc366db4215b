//! Dependency-injection contexts.
//!
//! A context is attached to a node of the scene tree and holds nodes
//! registered under a type name and an id. A lookup that misses in a context
//! continues in its parent context, the nearest context among the ancestors
//! of its node. Nodes of the scene tree are named by their instance ids;
//! contexts by their index in the registry.
use vstd::prelude::*;
use std::collections::HashMap;
use vstd::std_specs::iter::IteratorSpec;

verus! {

broadcast use vstd::std_specs::hash::group_hash_axioms;

/// A node registered in a context.
pub struct Registration<N> {
    pub type_label: String,
    pub id: String,
    pub node: N,
}

/// One context: its parent context and what is registered in it.
pub struct DiContextData<N> {
    parent_context: Option<usize>,
    registered: Vec<Registration<N>>,
}

/// All contexts, and which node each attached context belongs to.
pub struct DiRegistry<N> {
    contexts: Vec<DiContextData<N>>,
    attached: HashMap<u64, usize>,
}

/// The key a node is registered under: its type name and id.
pub type RegKey = (Seq<char>, Seq<char>);

/// The key of a registration.
pub open spec fn spec_reg_key<N>(r: Registration<N>) -> RegKey {
    (r.type_label@, r.id@)
}

/// Whether some registration of `regs` is under `key`.
pub open spec fn spec_has_key<N>(regs: Seq<Registration<N>>, key: RegKey) -> bool {
    exists|i: int| 0 <= i < regs.len() && spec_reg_key(#[trigger] regs[i]) == key
}

/// The registrations of one context as a map from key to node.
pub open spec fn spec_reg_map<N>(regs: Seq<Registration<N>>) -> Map<RegKey, N> {
    Map::new(
        |k: RegKey| spec_has_key(regs, k),
        |k: RegKey| regs[choose|i: int| 0 <= i < regs.len() && spec_reg_key(#[trigger] regs[i]) == k].node,
    )
}

/// No two registrations of a context have the same key.
pub open spec fn spec_regs_distinct<N>(regs: Seq<Registration<N>>) -> bool {
    forall|i: int, j: int| 0 <= i < regs.len() && 0 <= j < regs.len() && i != j
        ==> spec_reg_key(#[trigger] regs[i]) != spec_reg_key(#[trigger] regs[j])
}

/// The context of the first node of `chain` that has a context attached.
pub open spec fn spec_nearest(attached: Map<u64, usize>, chain: Seq<u64>) -> Option<usize>
    decreases chain.len(),
{
    if chain.len() == 0 {
        None
    } else if attached.contains_key(chain[0]) {
        Some(attached[chain[0]])
    } else {
        spec_nearest(attached, chain.drop_first())
    }
}

impl<N> DiRegistry<N> {
    /// The number of contexts.
    pub closed spec fn spec_len(&self) -> nat {
        self.contexts@.len()
    }

    /// What is registered in context `ctx`, by key.
    pub closed spec fn spec_registered(&self, ctx: int) -> Map<RegKey, N> {
        spec_reg_map(self.contexts@[ctx].registered@)
    }

    /// The parent context of context `ctx`.
    pub closed spec fn spec_parent(&self, ctx: int) -> Option<usize> {
        self.contexts@[ctx].parent_context
    }

    /// Which context is attached to which node.
    pub closed spec fn spec_attached(&self) -> Map<u64, usize> {
        self.attached@
    }

    /// Every parent and every attached context is a context of the registry,
    /// and no context holds two registrations under one key.
    pub closed spec fn wf(&self) -> bool {
        &&& forall|c: int| 0 <= c < self.contexts@.len() ==>
            ((#[trigger] self.contexts@[c]).parent_context matches Some(p) ==> p < self.contexts@.len())
        &&& forall|c: int| 0 <= c < self.contexts@.len() ==>
            spec_regs_distinct(#[trigger] self.contexts@[c].registered@)
        &&& forall|k: u64| #[trigger] self.attached@.contains_key(k) ==> self.attached@[k] < self.contexts@.len()
    }

    /// A lookup of `key` that starts in context `ctx` and may follow `fuel` parent links.
    pub open spec fn spec_lookup(&self, ctx: int, key: RegKey, fuel: nat) -> Option<N>
        decreases fuel,
    {
        if self.spec_registered(ctx).contains_key(key) {
            Some(self.spec_registered(ctx)[key])
        } else if fuel == 0 {
            None
        } else {
            match self.spec_parent(ctx) {
                Some(p) => self.spec_lookup(p as int, key, (fuel - 1) as nat),
                None => None,
            }
        }
    }

    /// An empty registry.
    pub fn new() -> (res: Self)
        ensures
            res.wf(),
            res.spec_len() == 0,
            res.spec_attached() == Map::<u64, usize>::empty(),
    {
        DiRegistry { contexts: Vec::new(), attached: HashMap::new() }
    }

    /// Creates a context with no parent and nothing registered, and returns it.
    pub fn new_context(&mut self) -> (ctx: usize)
        requires
            old(self).wf(),
        ensures
            final(self).wf(),
            ctx == old(self).spec_len(),
            final(self).spec_len() == old(self).spec_len() + 1,
            final(self).spec_registered(ctx as int) == Map::<RegKey, N>::empty(),
            final(self).spec_parent(ctx as int) is None,
            final(self).spec_attached() == old(self).spec_attached(),
            forall|c: int| 0 <= c < old(self).spec_len() ==>
                final(self).spec_registered(c) == old(self).spec_registered(c)
                && final(self).spec_parent(c) == old(self).spec_parent(c),
    {
        let ctx = self.contexts.len();
        self.contexts.push(DiContextData { parent_context: None, registered: Vec::new() });
        proof {
            assert(self.contexts@[ctx as int].registered@ =~= Seq::<Registration<N>>::empty());
        }
        ctx
    }
}


/// Finds the registration under a type name and an id in `regs`.
fn find_registration<N>(regs: &Vec<Registration<N>>, type_label: &String, id: &String) -> (res: Option<usize>)
    ensures
        res matches Some(i) ==> i < regs@.len() && spec_reg_key(regs@[i as int]) == (type_label@, id@),
        res is None ==> !spec_has_key(regs@, (type_label@, id@)),
{
    let mut i: usize = 0;
    while i < regs.len()
        invariant
            i <= regs@.len(),
            forall|j: int| 0 <= j < i ==> spec_reg_key(#[trigger] regs@[j]) != (type_label@, id@),
        decreases regs@.len() - i,
    {
        if regs[i].type_label == *type_label && regs[i].id == *id {
            return Some(i);
        }
        i = i + 1;
    }
    None
}

/// With distinct keys, the map of a registration list holds the node of the
/// registration under each key.
proof fn lemma_reg_map_at<N>(regs: Seq<Registration<N>>, i: int)
    requires
        spec_regs_distinct(regs),
        0 <= i < regs.len(),
    ensures
        spec_reg_map(regs).contains_key(spec_reg_key(regs[i])),
        spec_reg_map(regs)[spec_reg_key(regs[i])] == regs[i].node,
{
    let k = spec_reg_key(regs[i]);
    assert(spec_has_key(regs, k));
    let j = choose|j: int| 0 <= j < regs.len() && spec_reg_key(#[trigger] regs[j]) == k;
    assert(j == i);
}

/// Replacing the node of registration `i` replaces the node under its key.
proof fn lemma_reg_map_update<N>(regs: Seq<Registration<N>>, i: int, r: Registration<N>)
    requires
        spec_regs_distinct(regs),
        0 <= i < regs.len(),
        spec_reg_key(r) == spec_reg_key(regs[i]),
    ensures
        spec_regs_distinct(regs.update(i, r)),
        spec_reg_map(regs.update(i, r)) == spec_reg_map(regs).insert(spec_reg_key(r), r.node),
{
    let new_regs = regs.update(i, r);
    assert forall|a: int, b: int| 0 <= a < new_regs.len() && 0 <= b < new_regs.len() && a != b
        implies spec_reg_key(#[trigger] new_regs[a]) != spec_reg_key(#[trigger] new_regs[b]) by {
        assert(spec_reg_key(regs[a]) != spec_reg_key(regs[b]));
    }
    assert forall|k: RegKey| spec_has_key(new_regs, k) <==> spec_has_key(regs, k) || k == spec_reg_key(r) by {
        if spec_has_key(new_regs, k) {
            let j = choose|j: int| 0 <= j < new_regs.len() && spec_reg_key(#[trigger] new_regs[j]) == k;
            if j != i {
                assert(spec_reg_key(regs[j]) == k);
            }
        }
        if spec_has_key(regs, k) {
            let j = choose|j: int| 0 <= j < regs.len() && spec_reg_key(#[trigger] regs[j]) == k;
            if j != i {
                assert(spec_reg_key(new_regs[j]) == k);
            } else {
                assert(spec_reg_key(new_regs[i]) == k);
            }
        }
        if k == spec_reg_key(r) {
            assert(spec_reg_key(new_regs[i]) == k);
        }
    }
    assert forall|k: RegKey| #[trigger] spec_reg_map(new_regs).contains_key(k)
        implies spec_reg_map(new_regs)[k] == spec_reg_map(regs).insert(spec_reg_key(r), r.node)[k] by {
        let j = choose|j: int| 0 <= j < new_regs.len() && spec_reg_key(#[trigger] new_regs[j]) == k;
        lemma_reg_map_at(new_regs, j);
        if j != i {
            lemma_reg_map_at(regs, j);
        }
    }
    assert(spec_reg_map(new_regs) =~= spec_reg_map(regs).insert(spec_reg_key(r), r.node));
}

/// Appending a registration under a new key adds it to the map.
proof fn lemma_reg_map_push<N>(regs: Seq<Registration<N>>, r: Registration<N>)
    requires
        spec_regs_distinct(regs),
        !spec_has_key(regs, spec_reg_key(r)),
    ensures
        spec_regs_distinct(regs.push(r)),
        spec_reg_map(regs.push(r)) == spec_reg_map(regs).insert(spec_reg_key(r), r.node),
{
    let new_regs = regs.push(r);
    let n = regs.len() as int;
    assert forall|a: int, b: int| 0 <= a < new_regs.len() && 0 <= b < new_regs.len() && a != b
        implies spec_reg_key(#[trigger] new_regs[a]) != spec_reg_key(#[trigger] new_regs[b]) by {
        if a < n && b < n {
            assert(spec_reg_key(regs[a]) != spec_reg_key(regs[b]));
        } else if a == n {
            assert(new_regs[b] == regs[b]);
        } else {
            assert(new_regs[a] == regs[a]);
        }
    }
    assert forall|k: RegKey| spec_has_key(new_regs, k) <==> spec_has_key(regs, k) || k == spec_reg_key(r) by {
        if spec_has_key(new_regs, k) {
            let j = choose|j: int| 0 <= j < new_regs.len() && spec_reg_key(#[trigger] new_regs[j]) == k;
            if j < n {
                assert(new_regs[j] == regs[j]);
            }
        }
        if spec_has_key(regs, k) {
            let j = choose|j: int| 0 <= j < regs.len() && spec_reg_key(#[trigger] regs[j]) == k;
            assert(new_regs[j] == regs[j]);
        }
        if k == spec_reg_key(r) {
            assert(spec_reg_key(new_regs[n]) == k);
        }
    }
    assert forall|k: RegKey| #[trigger] spec_reg_map(new_regs).contains_key(k)
        implies spec_reg_map(new_regs)[k] == spec_reg_map(regs).insert(spec_reg_key(r), r.node)[k] by {
        let j = choose|j: int| 0 <= j < new_regs.len() && spec_reg_key(#[trigger] new_regs[j]) == k;
        lemma_reg_map_at(new_regs, j);
        if j < n {
            assert(new_regs[j] == regs[j]);
            lemma_reg_map_at(regs, j);
        }
    }
    assert(spec_reg_map(new_regs) =~= spec_reg_map(regs).insert(spec_reg_key(r), r.node));
}

impl<N> DiRegistry<N> {
    /// Registers `node` in context `ctx` under a type name and an id; a node
    /// registered earlier under the same two is replaced.
    pub fn register_node_of_type(&mut self, ctx: usize, node: N, type_label: String, id: String)
        requires
            old(self).wf(),
            ctx < old(self).spec_len(),
        ensures
            final(self).wf(),
            final(self).spec_len() == old(self).spec_len(),
            final(self).spec_attached() == old(self).spec_attached(),
            final(self).spec_registered(ctx as int)
                == old(self).spec_registered(ctx as int).insert((type_label@, id@), node),
            forall|c: int| 0 <= c < old(self).spec_len() ==> final(self).spec_parent(c) == old(self).spec_parent(c),
            forall|c: int| 0 <= c < old(self).spec_len() && c != ctx ==>
                final(self).spec_registered(c) == old(self).spec_registered(c),
    {
        let mut data = DiContextData { parent_context: None, registered: Vec::new() };
        self.contexts.set_and_swap(ctx, &mut data);
        let ghost old_regs = data.registered@;
        assert(spec_regs_distinct(old_regs));
        let found = find_registration(&data.registered, &type_label, &id);
        let ghost key = (type_label@, id@);
        match found {
            Some(i) => {
                let r = Registration { type_label, id, node };
                proof {
                    lemma_reg_map_update(old_regs, i as int, r);
                }
                data.registered.set(i, r);
            },
            None => {
                let r = Registration { type_label, id, node };
                proof {
                    lemma_reg_map_push(old_regs, r);
                }
                data.registered.push(r);
            },
        }
        self.contexts.set_and_swap(ctx, &mut data);
    }

    /// Looks up the node registered under a type name and an id in context `ctx`,
    /// and, where it misses, in the parent contexts in turn. The walk follows at
    /// most as many parent links as there are contexts.
    pub fn get_registered_node_with_id(&self, ctx: usize, type_label: &String, id: &String) -> (res: Option<&N>)
        requires
            self.wf(),
            ctx < self.spec_len(),
        ensures
            match res {
                Some(n) => self.spec_lookup(ctx as int, (type_label@, id@), self.spec_len()) == Some(*n),
                None => self.spec_lookup(ctx as int, (type_label@, id@), self.spec_len()) is None,
            },
    {
        let mut cur = ctx;
        let mut fuel: usize = self.contexts.len();
        let ghost key = (type_label@, id@);
        loop
            invariant
                self.wf(),
                cur < self.spec_len(),
                fuel <= self.spec_len(),
                key == (type_label@, id@),
                self.spec_lookup(ctx as int, key, self.spec_len()) == self.spec_lookup(cur as int, key, fuel as nat),
            decreases fuel,
        {
            let regs = &self.contexts[cur].registered;
            assert(spec_regs_distinct(regs@));
            match find_registration(regs, type_label, id) {
                Some(i) => {
                    proof {
                        lemma_reg_map_at(regs@, i as int);
                    }
                    return Some(&regs[i].node);
                },
                None => {
                    assert(!self.spec_registered(cur as int).contains_key(key));
                    if fuel == 0 {
                        return None;
                    }
                    match self.contexts[cur].parent_context {
                        Some(p) => {
                            cur = p;
                            fuel = fuel - 1;
                        },
                        None => {
                            return None;
                        },
                    }
                },
            }
        }
    }

    /// Looks up the node registered under a type name with the empty id.
    pub fn get_registered_node(&self, ctx: usize, type_label: &String) -> (res: Option<&N>)
        requires
            self.wf(),
            ctx < self.spec_len(),
        ensures
            match res {
                Some(n) => self.spec_lookup(ctx as int, (type_label@, Seq::<char>::empty()), self.spec_len()) == Some(*n),
                None => self.spec_lookup(ctx as int, (type_label@, Seq::<char>::empty()), self.spec_len()) is None,
            },
    {
        let id = String::new();
        self.get_registered_node_with_id(ctx, type_label, &id)
    }
}

/// A lookup finds what its own context registers, whatever its parents hold.
pub proof fn lemma_lookup_local_first<N>(reg: DiRegistry<N>, ctx: int, key: RegKey, fuel: nat)
    requires
        reg.spec_registered(ctx).contains_key(key),
    ensures
        reg.spec_lookup(ctx, key, fuel) == Some(reg.spec_registered(ctx)[key]),
{
}

/// A node just registered in a context is what a lookup of its type name and
/// id from that context finds, whatever the parent contexts hold.
pub proof fn lemma_register_then_lookup<N>(
    before: DiRegistry<N>,
    after: DiRegistry<N>,
    ctx: int,
    key: RegKey,
    node: N,
    fuel: nat,
)
    requires
        after.spec_registered(ctx) == before.spec_registered(ctx).insert(key, node),
    ensures
        after.spec_lookup(ctx, key, fuel) == Some(node),
{
}

/// Registering a node under one key leaves what a lookup of any other key
/// finds, from any context, as it was.
pub proof fn lemma_register_keeps_other_lookups<N>(
    before: DiRegistry<N>,
    after: DiRegistry<N>,
    ctx: int,
    key: RegKey,
    node: N,
    other: RegKey,
    start: int,
    fuel: nat,
)
    requires
        before.wf(),
        0 <= start < before.spec_len(),
        after.spec_len() == before.spec_len(),
        forall|c: int| 0 <= c < before.spec_len() ==> after.spec_parent(c) == before.spec_parent(c),
        forall|c: int| 0 <= c < before.spec_len() && c != ctx ==> after.spec_registered(c) == before.spec_registered(c),
        after.spec_registered(ctx) == before.spec_registered(ctx).insert(key, node),
        other != key,
    ensures
        after.spec_lookup(start, other, fuel) == before.spec_lookup(start, other, fuel),
    decreases fuel,
{
    assert(after.spec_registered(start).contains_key(other) == before.spec_registered(start).contains_key(other));
    if before.spec_registered(start).contains_key(other) {
        assert(after.spec_registered(start)[other] == before.spec_registered(start)[other]);
    } else if fuel > 0 {
        match before.spec_parent(start) {
            Some(p) => {
                assert(before.contexts@[start].parent_context == Some(p));
                assert(p < before.spec_len());
                lemma_register_keeps_other_lookups(before, after, ctx, key, node, other, p as int, (fuel - 1) as nat);
            },
            None => {},
        }
    }
}

/// A lookup that misses in its own context gives what the parent context's lookup gives.
pub proof fn lemma_lookup_falls_back_to_parent<N>(reg: DiRegistry<N>, ctx: int, key: RegKey, fuel: nat)
    requires
        !reg.spec_registered(ctx).contains_key(key),
        reg.spec_parent(ctx) is Some,
    ensures
        reg.spec_lookup(ctx, key, fuel + 1) == reg.spec_lookup(reg.spec_parent(ctx)->0 as int, key, fuel),
{
}

/// The type name a node is registered under when none is given: the name its
/// custom lookup method returns where it has one, else its class name.
pub fn di_type_label(custom: Option<String>, class_name: String) -> (res: String)
    ensures
        res@ == match custom {
            Some(c) => c@,
            None => class_name@,
        },
{
    match custom {
        Some(c) => c,
        None => class_name,
    }
}

proof fn lemma_skip_step(chain: Seq<u64>, i: int)
    requires
        0 <= i < chain.len(),
    ensures
        chain.skip(i).len() > 0,
        chain.skip(i)[0] == chain[i],
        chain.skip(i).drop_first() == chain.skip(i + 1),
{
    assert(chain.skip(i).drop_first() =~= chain.skip(i + 1));
}

impl<N> DiRegistry<N> {
    /// The context attached to the node with instance id `node`, if any.
    pub fn get_context(&self, node: u64) -> (res: Option<usize>)
        ensures
            res == (if self.spec_attached().contains_key(node) {
                Some(self.spec_attached()[node])
            } else {
                None
            }),
    {
        match self.attached.get(&node) {
            Some(c) => Some(*c),
            None => None,
        }
    }

    /// Attaches context `ctx` to the node with instance id `node`.
    pub fn insert_di_context(&mut self, node: u64, ctx: usize)
        requires
            old(self).wf(),
            ctx < old(self).spec_len(),
        ensures
            final(self).wf(),
            final(self).spec_len() == old(self).spec_len(),
            final(self).spec_attached() == old(self).spec_attached().insert(node, ctx),
            forall|c: int| 0 <= c < old(self).spec_len() ==>
                final(self).spec_registered(c) == old(self).spec_registered(c)
                && final(self).spec_parent(c) == old(self).spec_parent(c),
    {
        self.attached.insert(node, ctx);
    }

    /// Detaches whatever context is attached to the node with instance id `node`.
    pub fn clear_di_context_id(&mut self, node: u64)
        requires
            old(self).wf(),
        ensures
            final(self).wf(),
            final(self).spec_len() == old(self).spec_len(),
            final(self).spec_attached() == old(self).spec_attached().remove(node),
            forall|c: int| 0 <= c < old(self).spec_len() ==>
                final(self).spec_registered(c) == old(self).spec_registered(c)
                && final(self).spec_parent(c) == old(self).spec_parent(c),
    {
        self.attached.remove(&node);
    }

    /// The nodes that have a context attached, each once, in no particular order.
    fn attached_nodes(&self) -> (res: Vec<u64>)
        ensures
            res@.no_duplicates(),
            res@.to_set() == self.attached@.dom(),
    {
        let mut res: Vec<u64> = Vec::new();
        let ghost all = vstd::std_specs::hash::spec_keys_iter(&self.attached).remaining().map_values(|r: &u64| *r);
        proof {
            vstd::std_specs::hash::axiom_spec_keys_iter(&self.attached);
            assert(all == vstd::std_specs::hash::spec_keys_iter(&self.attached).remaining().unref());
        }
        for k in it: self.attached.keys()
            invariant
                it.seq().map_values(|r: &u64| *r) == all,
                res@ == all.take(it.index() as int),
        {
            res.push(*k);
        }
        assert(res@ == all);
        proof {
            vstd::std_specs::hash::axiom_spec_keys_iter(&self.attached);
            let r = vstd::std_specs::hash::spec_keys_iter(&self.attached).remaining();
            assert forall|i: int, j: int| 0 <= i < all.len() && 0 <= j < all.len() && i != j implies all[i] != all[j] by {
                assert(r[i] != r[j]);
            }
        }
        res
    }

    /// Detaches context `ctx` from a node it is attached to. Where it is attached
    /// to several nodes, one of them is detached, which one is left open.
    pub fn clear_di_context(&mut self, ctx: usize)
        requires
            old(self).wf(),
        ensures
            final(self).wf(),
            final(self).spec_len() == old(self).spec_len(),
            forall|c: int| 0 <= c < old(self).spec_len() ==>
                final(self).spec_registered(c) == old(self).spec_registered(c)
                && final(self).spec_parent(c) == old(self).spec_parent(c),
            (exists|n: u64| #[trigger] old(self).spec_attached().contains_key(n) && old(self).spec_attached()[n] == ctx)
                ==> (exists|n: u64| #[trigger] old(self).spec_attached().contains_key(n)
                    && old(self).spec_attached()[n] == ctx
                    && final(self).spec_attached() == old(self).spec_attached().remove(n)),
            !(exists|n: u64| #[trigger] old(self).spec_attached().contains_key(n) && old(self).spec_attached()[n] == ctx)
                ==> final(self).spec_attached() == old(self).spec_attached(),
    {
        let nodes = self.attached_nodes();
        let mut i: usize = 0;
        while i < nodes.len()
            invariant
                i <= nodes@.len(),
                self.wf(),
                self.attached@ == old(self).attached@,
                self.contexts@ == old(self).contexts@,
                nodes@.to_set() == self.attached@.dom(),
                forall|j: int| 0 <= j < i ==> self.attached@[#[trigger] nodes@[j]] != ctx,
            decreases nodes@.len() - i,
        {
            let n = nodes[i];
            assert(nodes@.to_set().contains(n));
            let c = *self.attached.get(&n).unwrap();
            if c == ctx {
                self.clear_di_context_id(n);
                return;
            }
            i = i + 1;
        }
        assert forall|n: u64| #[trigger] self.attached@.contains_key(n) implies self.attached@[n] != ctx by {
            assert(nodes@.to_set().contains(n));
            let j = choose|j: int| 0 <= j < nodes@.len() && nodes@[j] == n;
        }
    }

    /// The context of the first node of `chain` (a node followed by its
    /// ancestors, nearest first) that has one attached, from position `start` on.
    fn nearest_from(&self, chain: &Vec<u64>, start: usize) -> (res: Option<usize>)
        requires
            start <= chain@.len(),
        ensures
            res == spec_nearest(self.spec_attached(), chain@.skip(start as int)),
    {
        let mut i = start;
        while i < chain.len()
            invariant
                start <= i <= chain@.len(),
                spec_nearest(self.spec_attached(), chain@.skip(start as int))
                    == spec_nearest(self.spec_attached(), chain@.skip(i as int)),
            decreases chain@.len() - i,
        {
            proof {
                lemma_skip_step(chain@, i as int);
            }
            match self.attached.get(&chain[i]) {
                Some(c) => {
                    return Some(*c);
                },
                None => {},
            }
            i = i + 1;
        }
        assert(chain@.skip(i as int).len() == 0);
        None
    }

    /// The nearest context of a node: that of the first node of `chain` (the node
    /// followed by its ancestors, nearest first) that has one attached.
    pub fn get_nearest(&self, chain: &Vec<u64>) -> (res: Option<usize>)
        ensures
            res == spec_nearest(self.spec_attached(), chain@),
    {
        assert(chain@.skip(0) =~= chain@);
        self.nearest_from(chain, 0)
    }

    /// The nearest context of a node's parent. The node must have a parent.
    pub fn get_nearest_exclude_self(&self, chain: &Vec<u64>) -> (res: Option<usize>)
        requires
            chain@.len() >= 2,
        ensures
            res == spec_nearest(self.spec_attached(), chain@.skip(1)),
    {
        self.nearest_from(chain, 1)
    }

    /// A context's node enters the tree. `chain` is the context node's parent
    /// followed by that parent's ancestors, nearest first; the parent must itself
    /// have a parent. The context is attached to the parent node, and its parent
    /// context becomes the nearest context above that node.
    pub fn enter_tree(&mut self, ctx: usize, chain: &Vec<u64>)
        requires
            old(self).wf(),
            ctx < old(self).spec_len(),
            chain@.len() >= 2,
        ensures
            final(self).wf(),
            final(self).spec_len() == old(self).spec_len(),
            final(self).spec_attached() == old(self).spec_attached().insert(chain@[0], ctx),
            final(self).spec_parent(ctx as int) == spec_nearest(final(self).spec_attached(), chain@.skip(1)),
            forall|c: int| 0 <= c < old(self).spec_len() ==>
                final(self).spec_registered(c) == old(self).spec_registered(c),
            forall|c: int| 0 <= c < old(self).spec_len() && c != ctx ==>
                final(self).spec_parent(c) == old(self).spec_parent(c),
    {
        self.insert_di_context(chain[0], ctx);
        let parent = self.get_nearest_exclude_self(chain);
        proof {
            lemma_nearest_attached(self.spec_attached(), chain@.skip(1));
        }
        let mut data = DiContextData { parent_context: None, registered: Vec::new() };
        self.contexts.set_and_swap(ctx, &mut data);
        data.parent_context = parent;
        self.contexts.set_and_swap(ctx, &mut data);
    }

    /// A context's node leaves the tree: the context is detached.
    pub fn exit_tree(&mut self, ctx: usize)
        requires
            old(self).wf(),
        ensures
            final(self).wf(),
            final(self).spec_len() == old(self).spec_len(),
            forall|c: int| 0 <= c < old(self).spec_len() ==>
                final(self).spec_registered(c) == old(self).spec_registered(c)
                && final(self).spec_parent(c) == old(self).spec_parent(c),
            (exists|n: u64| #[trigger] old(self).spec_attached().contains_key(n) && old(self).spec_attached()[n] == ctx)
                ==> (exists|n: u64| #[trigger] old(self).spec_attached().contains_key(n)
                    && old(self).spec_attached()[n] == ctx
                    && final(self).spec_attached() == old(self).spec_attached().remove(n)),
            !(exists|n: u64| #[trigger] old(self).spec_attached().contains_key(n) && old(self).spec_attached()[n] == ctx)
                ==> final(self).spec_attached() == old(self).spec_attached(),
    {
        self.clear_di_context(ctx);
    }

    /// Registers `node` in context `ctx` under the type name it derives for
    /// itself (see `di_type_label`) and an id.
    pub fn register_node(&mut self, ctx: usize, node: N, derived_type: String, id: String)
        requires
            old(self).wf(),
            ctx < old(self).spec_len(),
        ensures
            final(self).wf(),
            final(self).spec_len() == old(self).spec_len(),
            final(self).spec_attached() == old(self).spec_attached(),
            final(self).spec_registered(ctx as int)
                == old(self).spec_registered(ctx as int).insert((derived_type@, id@), node),
            forall|c: int| 0 <= c < old(self).spec_len() ==> final(self).spec_parent(c) == old(self).spec_parent(c),
            forall|c: int| 0 <= c < old(self).spec_len() && c != ctx ==>
                final(self).spec_registered(c) == old(self).spec_registered(c),
    {
        self.register_node_of_type(ctx, node, derived_type, id);
    }

    /// A registration node enters the tree: it registers its parent node, whose
    /// chain is `chain` (the parent followed by its ancestors, nearest first), in
    /// the nearest context of the parent, or, unless `into_own_context`, of the
    /// parent's parent, which must then exist. An empty `type_label` registers
    /// under `derived_type`. Returns the context registered into, or `None` where
    /// there is no context above.
    pub fn register_from_registration(
        &mut self,
        into_own_context: bool,
        chain: &Vec<u64>,
        node: N,
        type_label: String,
        derived_type: String,
        id: String,
    ) -> (res: Option<usize>)
        requires
            old(self).wf(),
            chain@.len() >= 1,
            !into_own_context ==> chain@.len() >= 2,
        ensures
            final(self).wf(),
            final(self).spec_len() == old(self).spec_len(),
            final(self).spec_attached() == old(self).spec_attached(),
            res == (if into_own_context {
                spec_nearest(old(self).spec_attached(), chain@)
            } else {
                spec_nearest(old(self).spec_attached(), chain@.skip(1))
            }),
            res matches Some(ctx) ==> ctx < old(self).spec_len()
                && final(self).spec_registered(ctx as int) == old(self).spec_registered(ctx as int).insert(
                    (if type_label@.len() == 0 { derived_type@ } else { type_label@ }, id@), node),
            forall|c: int| 0 <= c < old(self).spec_len() ==> final(self).spec_parent(c) == old(self).spec_parent(c),
            forall|c: int| 0 <= c < old(self).spec_len() && (res != Some(c as usize)) ==>
                final(self).spec_registered(c) == old(self).spec_registered(c),
    {
        let context = if into_own_context {
            self.get_nearest(chain)
        } else {
            self.get_nearest_exclude_self(chain)
        };
        match context {
            Some(ctx) => {
                proof {
                    lemma_nearest_attached(self.spec_attached(), if into_own_context { chain@ } else { chain@.skip(1) });
                }
                if type_label.as_str().is_empty() {
                    self.register_node(ctx, node, derived_type, id);
                } else {
                    self.register_node_of_type(ctx, node, type_label, id);
                }
            },
            None => {},
        }
        context
    }
}

/// The nearest context, where there is one, is an attached one.
proof fn lemma_nearest_attached(attached: Map<u64, usize>, chain: Seq<u64>)
    ensures
        spec_nearest(attached, chain) matches Some(c) ==> exists|n: u64| #[trigger] attached.contains_key(n) && attached[n] == c,
    decreases chain.len(),
{
    if chain.len() > 0 && !attached.contains_key(chain[0]) {
        lemma_nearest_attached(attached, chain.drop_first());
    }
}

/// A node with a context attached finds that context as its nearest one.
pub proof fn lemma_attached_is_nearest(attached: Map<u64, usize>, chain: Seq<u64>, ctx: usize)
    requires
        chain.len() > 0,
    ensures
        spec_nearest(attached.insert(chain[0], ctx), chain) == Some(ctx),
{
}

/// A node without a context finds the nearest context of its parent.
pub proof fn lemma_nearest_skips_unattached(attached: Map<u64, usize>, chain: Seq<u64>)
    requires
        chain.len() > 0,
        !attached.contains_key(chain[0]),
    ensures
        spec_nearest(attached, chain) == spec_nearest(attached, chain.drop_first()),
{
}
} // verus!
