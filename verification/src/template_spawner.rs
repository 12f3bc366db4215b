//! Keyed reconciliation of spawned templates.
//!
//! A spawner keeps one instantiated template per key. Given the keys of the
//! values that should now be shown, in display order, it keeps the templates
//! whose key is still wanted, instantiates one template for each new key,
//! places every shown template after the previous one, and frees the
//! templates whose key is no longer wanted.
use vstd::prelude::*;
use std::collections::HashMap;
use std::collections::HashSet;
use vstd::std_specs::iter::IteratorSpec;

verus! {

broadcast use vstd::std_specs::hash::group_hash_axioms;

/// The instantiated templates of a spawner, by key. `N` is the engine's handle
/// of an instantiated template.
pub struct TemplateSpawner<N> {
    instantiated: HashMap<u64, N>,
}

impl<N> View for TemplateSpawner<N> {
    type V = Map<u64, N>;

    closed spec fn view(&self) -> Map<u64, N> {
        self.instantiated@
    }
}

/// What the engine side does for one value of an update, in display order.
#[derive(Clone, Copy, Debug, PartialEq, Eq, Structural)]
pub struct SpawnStep {
    /// The key of the value.
    pub key: u64,
    /// Whether a new template is instantiated for this value.
    pub instantiate: bool,
    /// The key of the value shown before this one, whose template this one is placed after.
    pub previous: Option<u64>,
}

/// The whole of an update: one step per value, and the keys whose templates are freed.
pub struct SpawnPlan {
    pub steps: Vec<SpawnStep>,
    pub freed: Vec<u64>,
}

/// Whether the value at position `i` of `keys` instantiates a new template:
/// its key has no template yet and did not occur earlier in the update.
pub open spec fn spec_instantiates(old: Set<u64>, keys: Seq<u64>, i: int) -> bool {
    !old.contains(keys[i]) && !keys.take(i).contains(keys[i])
}

/// The step for the value at position `i`.
pub open spec fn spec_step(old: Set<u64>, keys: Seq<u64>, i: int) -> SpawnStep {
    SpawnStep {
        key: keys[i],
        instantiate: spec_instantiates(old, keys, i),
        previous: if i == 0 { None } else { Some(keys[i - 1]) },
    }
}

/// The keys that get a new template, in the order their templates are instantiated.
pub open spec fn spec_new_keys(old: Set<u64>, keys: Seq<u64>) -> Seq<u64>
    decreases keys.len(),
{
    if keys.len() == 0 {
        Seq::empty()
    } else {
        let prefix = keys.drop_last();
        if spec_instantiates(old, keys, keys.len() - 1) {
            spec_new_keys(old, prefix).push(keys.last())
        } else {
            spec_new_keys(old, prefix)
        }
    }
}

/// The keys whose templates an update frees: those that are not among the new keys.
pub open spec fn spec_freed(old: Set<u64>, keys: Seq<u64>) -> Set<u64> {
    old.difference(keys.to_set())
}

/// The keys of a list of removed templates.
pub open spec fn spec_keys_of<N>(removed: Seq<(u64, N)>) -> Seq<u64> {
    removed.map_values(|r: (u64, N)| r.0)
}

impl<N> TemplateSpawner<N> {
    /// A spawner with no instantiated templates.
    pub fn new() -> (res: Self)
        ensures
            res@ == Map::<u64, N>::empty(),
    {
        TemplateSpawner { instantiated: HashMap::new() }
    }

    /// The template instantiated for `key`, if any.
    pub fn get(&self, key: u64) -> (res: Option<&N>)
        ensures
            res matches Some(n) ==> self@.contains_key(key) && *n == self@[key],
            res is None ==> !self@.contains_key(key),
    {
        self.instantiated.get(&key)
    }

    /// The keys that have a template, each once, in no particular order.
    pub fn keys(&self) -> (res: Vec<u64>)
        ensures
            res@.no_duplicates(),
            res@.to_set() == self@.dom(),
    {
        let mut res: Vec<u64> = Vec::new();
        let ghost all = vstd::std_specs::hash::spec_keys_iter(&self.instantiated).remaining().map_values(|r: &u64| *r);
        proof {
            vstd::std_specs::hash::axiom_spec_keys_iter(&self.instantiated);
            assert(all == vstd::std_specs::hash::spec_keys_iter(&self.instantiated).remaining().unref());
        }
        for k in it: self.instantiated.keys()
            invariant
                it.seq().map_values(|r: &u64| *r) == all,
                res@ == all.take(it.index() as int),
        {
            res.push(*k);
        }
        assert(res@ == all);
        proof {
            vstd::std_specs::hash::axiom_spec_keys_iter(&self.instantiated);
            let r = vstd::std_specs::hash::spec_keys_iter(&self.instantiated).remaining();
            assert forall|i: int, j: int| 0 <= i < all.len() && 0 <= j < all.len() && i != j implies all[i] != all[j] by {
                assert(r[i] != r[j]);
            }
        }
        res
    }
}


/// The keys that get a new template are wanted keys without a template, each
/// wanted key without a template gets exactly one, and none gets two.
pub proof fn lemma_new_keys_props(old: Set<u64>, keys: Seq<u64>)
    ensures
        spec_new_keys(old, keys).no_duplicates(),
        forall|k: u64| spec_new_keys(old, keys).contains(k) <==> (keys.contains(k) && !old.contains(k)),
    decreases keys.len(),
{
    if keys.len() > 0 {
        let prefix = keys.drop_last();
        let last = keys.last();
        lemma_new_keys_props(old, prefix);
        assert(keys.take(keys.len() - 1) =~= prefix);
        assert forall|k: u64| keys.contains(k) <==> (prefix.contains(k) || k == last) by {
            if keys.contains(k) {
                let i = choose|i: int| 0 <= i < keys.len() && keys[i] == k;
                if i < keys.len() - 1 {
                    assert(prefix[i] == k);
                }
            }
            if prefix.contains(k) {
                let i = choose|i: int| 0 <= i < prefix.len() && prefix[i] == k;
                assert(keys[i] == k);
            }
            if k == last {
                assert(keys[keys.len() - 1] == k);
            }
        }
        let pre_new = spec_new_keys(old, prefix);
        if spec_instantiates(old, keys, keys.len() - 1) {
            assert(spec_new_keys(old, keys) == pre_new.push(last));
            assert(!prefix.contains(last));
            assert(!pre_new.contains(last));
            assert forall|k: u64| pre_new.push(last).contains(k) <==> (pre_new.contains(k) || k == last) by {
                if pre_new.push(last).contains(k) {
                    let i = choose|i: int| 0 <= i < pre_new.len() + 1 && #[trigger] pre_new.push(last)[i] == k;
                    if i < pre_new.len() {
                        assert(pre_new[i] == k);
                    }
                }
                if pre_new.contains(k) {
                    let i = choose|i: int| 0 <= i < pre_new.len() && pre_new[i] == k;
                    assert(pre_new.push(last)[i] == k);
                }
                if k == last {
                    assert(pre_new.push(last)[pre_new.len() as int] == k);
                }
            }
            assert forall|i: int, j: int| 0 <= i < pre_new.len() + 1 && 0 <= j < pre_new.len() + 1 && i != j
                implies pre_new.push(last)[i] != pre_new.push(last)[j] by {
                if i == pre_new.len() {
                    assert(pre_new.contains(pre_new[j]));
                } else if j == pre_new.len() {
                    assert(pre_new.contains(pre_new[i]));
                }
            }
        } else {
            assert(spec_new_keys(old, keys) == pre_new);
            assert(old.contains(last) || prefix.contains(last));
        }
    }
}

/// Repeating an update with the same keys instantiates nothing and frees nothing.
pub proof fn lemma_update_idempotent(keys: Seq<u64>)
    ensures
        forall|i: int| 0 <= i < keys.len() ==> !spec_instantiates(keys.to_set(), keys, i),
        spec_freed(keys.to_set(), keys) == Set::<u64>::empty(),
        spec_new_keys(keys.to_set(), keys) == Seq::<u64>::empty(),
{
    assert forall|i: int| 0 <= i < keys.len() implies !spec_instantiates(keys.to_set(), keys, i) by {
        assert(keys.to_set().contains(keys[i]));
    }
    assert(spec_freed(keys.to_set(), keys) =~= Set::<u64>::empty());
    lemma_new_keys_props(keys.to_set(), keys);
    let nk = spec_new_keys(keys.to_set(), keys);
    if nk.len() > 0 {
        assert(nk.contains(nk[0]));
        assert(keys.contains(nk[0]));
        assert(keys.to_set().contains(nk[0]));
    }
    assert(nk =~= Seq::<u64>::empty());
}

proof fn lemma_take_step(keys: Seq<u64>, i: int)
    requires
        0 <= i < keys.len(),
    ensures
        keys.take(i + 1).drop_last() == keys.take(i),
        keys.take(i + 1).last() == keys[i],
        forall|k: u64| keys.take(i + 1).contains(k) <==> (keys.take(i).contains(k) || k == keys[i]),
{
    assert(keys.take(i + 1).drop_last() =~= keys.take(i));
    assert forall|k: u64| keys.take(i + 1).contains(k) <==> (keys.take(i).contains(k) || k == keys[i]) by {
        if keys.take(i + 1).contains(k) {
            let j = choose|j: int| 0 <= j < i + 1 && #[trigger] keys.take(i + 1)[j] == k;
            if j < i {
                assert(keys.take(i)[j] == k);
            }
        }
        if keys.take(i).contains(k) {
            let j = choose|j: int| 0 <= j < i && keys.take(i)[j] == k;
            assert(keys.take(i + 1)[j] == k);
        }
        if k == keys[i] {
            assert(keys.take(i + 1)[i] == k);
        }
    }
}

proof fn lemma_new_keys_step(old: Set<u64>, keys: Seq<u64>, i: int)
    requires
        0 <= i < keys.len(),
    ensures
        spec_new_keys(old, keys.take(i + 1)) == if spec_instantiates(old, keys, i) {
            spec_new_keys(old, keys.take(i)).push(keys[i])
        } else {
            spec_new_keys(old, keys.take(i))
        },
{
    lemma_take_step(keys, i);
    assert(keys.take(i + 1).take(i) =~= keys.take(i));
}

impl<N> TemplateSpawner<N> {
    /// What an update with `keys`, the keys of the wanted values in display order,
    /// does: one step per value, and the keys whose templates are freed.
    pub fn plan(&self, keys: &Vec<u64>) -> (res: SpawnPlan)
        ensures
            res.steps@.len() == keys@.len(),
            forall|i: int| 0 <= i < keys@.len() ==> #[trigger] res.steps@[i] == spec_step(self@.dom(), keys@, i),
            res.freed@.no_duplicates(),
            res.freed@.to_set() == spec_freed(self@.dom(), keys@),
    {
        let mut seen: HashSet<u64> = HashSet::new();
        let mut steps: Vec<SpawnStep> = Vec::new();
        let mut i: usize = 0;
        while i < keys.len()
            invariant
                i <= keys@.len(),
                forall|k: u64| seen@.contains(k) <==> keys@.take(i as int).contains(k),
                steps@.len() == i,
                forall|j: int| 0 <= j < i ==> #[trigger] steps@[j] == spec_step(self@.dom(), keys@, j),
            decreases keys@.len() - i,
        {
            let key = keys[i];
            let instantiate = !self.instantiated.contains_key(&key) && !seen.contains(&key);
            let previous = if i == 0 { None } else { Some(keys[i - 1]) };
            steps.push(SpawnStep { key, instantiate, previous });
            seen.insert(key);
            proof {
                lemma_take_step(keys@, i as int);
            }
            i = i + 1;
        }
        assert(keys@.take(keys@.len() as int) =~= keys@);
        let current = self.keys();
        let mut freed: Vec<u64> = Vec::new();
        let mut j: usize = 0;
        while j < current.len()
            invariant
                j <= current@.len(),
                current@.no_duplicates(),
                current@.to_set() == self@.dom(),
                forall|k: u64| seen@.contains(k) <==> keys@.contains(k),
                freed@.no_duplicates(),
                forall|k: u64| freed@.contains(k) <==> (current@.take(j as int).contains(k) && !keys@.contains(k)),
            decreases current@.len() - j,
        {
            let k = current[j];
            proof {
                lemma_take_step(current@, j as int);
                if current@.take(j as int).contains(k) {
                    let m = choose|m: int| 0 <= m < j && current@.take(j as int)[m] == k;
                    assert(current@[m] == current@[j as int]);
                }
            }
            let ghost before = freed@;
            if !seen.contains(&k) {
                freed.push(k);
                proof {
                    assert forall|x: u64| freed@.contains(x) <==> (before.contains(x) || x == k) by {
                        if freed@.contains(x) {
                            let m = choose|m: int| 0 <= m < freed@.len() && freed@[m] == x;
                            if m < before.len() {
                                assert(before[m] == x);
                            }
                        }
                        if before.contains(x) {
                            let m = choose|m: int| 0 <= m < before.len() && before[m] == x;
                            assert(freed@[m] == x);
                        }
                        if x == k {
                            assert(freed@[before.len() as int] == x);
                        }
                    }
                    assert forall|a: int, b: int| 0 <= a < freed@.len() && 0 <= b < freed@.len() && a != b
                        implies freed@[a] != freed@[b] by {
                        if a == before.len() {
                            assert(before.contains(before[b]));
                        } else if b == before.len() {
                            assert(before.contains(before[a]));
                        }
                    }
                }
            }
            assert forall|x: u64| freed@.contains(x) <==> (current@.take(j as int + 1).contains(x) && !keys@.contains(x)) by {
                assert(current@.take(j as int + 1).contains(x) <==> (current@.take(j as int).contains(x) || x == k));
                assert(before.contains(x) <==> (current@.take(j as int).contains(x) && !keys@.contains(x)));
                if seen@.contains(k) {
                    assert(keys@.contains(k));
                    assert(freed@ == before);
                } else {
                    assert(!keys@.contains(k));
                    assert(freed@.contains(x) <==> (before.contains(x) || x == k));
                }
            }
            j = j + 1;
        }
        assert(current@.take(current@.len() as int) =~= current@);
        assert(freed@.to_set() =~= spec_freed(self@.dom(), keys@));
        SpawnPlan { steps, freed }
    }

    /// Carries out an update with `keys`, given the freshly instantiated templates
    /// for the new keys in the order of `spec_new_keys`. Keeps the template of every
    /// wanted key that had one, adds the new ones, and hands back the templates of
    /// the keys no longer wanted, with their keys, for the engine to free.
    pub fn update(&mut self, keys: &Vec<u64>, new_nodes: Vec<N>) -> (removed: Vec<(u64, N)>)
        requires
            new_nodes@.len() == spec_new_keys(old(self)@.dom(), keys@).len(),
        ensures
            final(self)@.dom() == keys@.to_set(),
            forall|k: u64| #[trigger] final(self)@.contains_key(k) && old(self)@.contains_key(k)
                ==> final(self)@[k] == old(self)@[k],
            forall|j: int| 0 <= j < new_nodes@.len()
                ==> final(self)@[#[trigger] spec_new_keys(old(self)@.dom(), keys@)[j]] == new_nodes@[j],
            spec_keys_of(removed@).no_duplicates(),
            spec_keys_of(removed@).to_set() == spec_freed(old(self)@.dom(), keys@),
            forall|j: int| 0 <= j < removed@.len() ==> #[trigger] removed@[j].1 == old(self)@[removed@[j].0],
    {
        let ghost old_map = self@;
        let ghost old_dom = self@.dom();
        let ghost all_new = spec_new_keys(old_dom, keys@);
        proof {
            lemma_new_keys_props(old_dom, keys@);
        }
        let current = self.keys();
        assert(forall|m: int| 0 <= m < all_new.len() ==> keys@.contains(#[trigger] all_new[m])) by {
            assert forall|m: int| 0 <= m < all_new.len() implies keys@.contains(#[trigger] all_new[m]) by {
                assert(all_new.contains(all_new[m]));
            }
        }
        let mut nodes = new_nodes;
        let mut seen: HashSet<u64> = HashSet::new();
        let mut i: usize = 0;
        let ghost mut used: int = 0;
        while i < keys.len()
            invariant
                i <= keys@.len(),
                old_dom == old_map.dom(),
                all_new == spec_new_keys(old_dom, keys@),
                all_new.len() == new_nodes@.len(),
                forall|k: u64| seen@.contains(k) <==> keys@.take(i as int).contains(k),
                used == spec_new_keys(old_dom, keys@.take(i as int)).len(),
                0 <= used <= all_new.len(),
                spec_new_keys(old_dom, keys@.take(i as int)) == all_new.take(used),
                nodes@ == new_nodes@.skip(used),
                forall|k: u64| self@.contains_key(k) <==> (old_dom.contains(k) || keys@.take(i as int).contains(k)),
                forall|k: u64| #[trigger] old_dom.contains(k) ==> self@[k] == old_map[k],
                forall|m: int| 0 <= m < used ==> self@[#[trigger] all_new[m]] == new_nodes@[m],
            decreases keys@.len() - i,
        {
            let key = keys[i];
            proof {
                lemma_take_step(keys@, i as int);
                lemma_new_keys_step(old_dom, keys@, i as int);
                lemma_new_keys_props(old_dom, keys@.take(i as int));
                lemma_new_keys_props(old_dom, keys@.take(i as int + 1));
            }
            if !self.instantiated.contains_key(&key) {
                assert(spec_instantiates(old_dom, keys@, i as int));
                proof {
                    // the new key is the next one of all the new keys
                    let pre = spec_new_keys(old_dom, keys@.take(i as int + 1));
                    assert(pre == all_new.take(used).push(key));
                    lemma_new_keys_prefix(old_dom, keys@, i as int + 1);
                    assert(all_new.take(used + 1) == pre);
                    assert(all_new[used] == key);
                    assert(forall|m: int| 0 <= m < used ==> all_new[m] != key) by {
                        assert forall|m: int| 0 <= m < used implies all_new[m] != key by {
                            assert(all_new.take(used).contains(all_new.take(used)[m]));
                        }
                    }
                }
                let node = nodes.remove(0);
                self.instantiated.insert(key, node);
                proof {
                    assert(nodes@ =~= new_nodes@.skip(used + 1));
                    used = used + 1;
                }
            } else {
                proof {
                    assert(!spec_instantiates(old_dom, keys@, i as int));
                }
            }
            seen.insert(key);
            i = i + 1;
        }
        assert(keys@.take(keys@.len() as int) =~= keys@);
        assert(used == all_new.len());
        let mut removed: Vec<(u64, N)> = Vec::new();
        let mut j: usize = 0;
        while j < current.len()
            invariant
                j <= current@.len(),
                current@.no_duplicates(),
                current@.to_set() == old_dom,
                old_dom == old_map.dom(),
                all_new == spec_new_keys(old_dom, keys@),
                all_new.len() == new_nodes@.len(),
                forall|k: u64| seen@.contains(k) <==> keys@.contains(k),
                forall|k: u64| #[trigger] self@.contains_key(k) <==> (keys@.contains(k)
                    || (old_dom.contains(k) && !current@.take(j as int).contains(k))),
                forall|k: u64| #[trigger] old_dom.contains(k) && self@.contains_key(k) ==> self@[k] == old_map[k],
                forall|m: int| 0 <= m < all_new.len() ==> self@[#[trigger] all_new[m]] == new_nodes@[m],
                forall|m: int| 0 <= m < all_new.len() ==> keys@.contains(#[trigger] all_new[m]),
                spec_keys_of(removed@).no_duplicates(),
                forall|k: u64| #[trigger] spec_keys_of(removed@).contains(k)
                    <==> (current@.take(j as int).contains(k) && !keys@.contains(k)),
                forall|m: int| 0 <= m < removed@.len() ==> #[trigger] removed@[m].1 == old_map[removed@[m].0],
            decreases current@.len() - j,
        {
            let k = current[j];
            proof {
                lemma_take_step(current@, j as int);
                if current@.take(j as int).contains(k) {
                    let m = choose|m: int| 0 <= m < j && current@.take(j as int)[m] == k;
                    assert(current@[m] == current@[j as int]);
                }
                assert(current@.to_set().contains(k));
            }
            let ghost before_map = self@;
            let ghost before_removed = spec_keys_of(removed@);
            if !seen.contains(&k) {
                assert(self@.contains_key(k));
                let node = self.instantiated.remove(&k);
                assert(self@ == before_map.remove(k));
                match node {
                    Some(node) => {
                        let ghost before = spec_keys_of(removed@);
                        removed.push((k, node));
                        let ghost after = spec_keys_of(removed@);
                        assert(after =~= before.push(k));
                        assert(!before.contains(k));
                        assert forall|x: u64| after.contains(x) <==> (before.contains(x) || x == k) by {
                            if after.contains(x) {
                                let m = choose|m: int| 0 <= m < after.len() && after[m] == x;
                                if m < before.len() {
                                    assert(before[m] == x);
                                }
                            }
                            if before.contains(x) {
                                let m = choose|m: int| 0 <= m < before.len() && before[m] == x;
                                assert(after[m] == x);
                            }
                            if x == k {
                                assert(after[before.len() as int] == x);
                            }
                        }
                        assert forall|a: int, b: int| 0 <= a < after.len() && 0 <= b < after.len() && a != b
                            implies after[a] != after[b] by {
                            if a == before.len() {
                                assert(before.contains(before[b]));
                            } else if b == before.len() {
                                assert(before.contains(before[a]));
                            }
                        }
                    },
                    None => {},
                }
                assert forall|m: int| 0 <= m < all_new.len() implies self@[#[trigger] all_new[m]] == new_nodes@[m] by {
                    assert(keys@.contains(all_new[m]));
                }
            }
            assert forall|x: u64| self@.contains_key(x) <==> (keys@.contains(x)
                || (old_dom.contains(x) && !current@.take(j as int + 1).contains(x))) by {
                assert(current@.take(j as int + 1).contains(x) <==> (current@.take(j as int).contains(x) || x == k));
                assert(before_map.contains_key(x) <==> (keys@.contains(x)
                    || (old_dom.contains(x) && !current@.take(j as int).contains(x))));
                if seen@.contains(k) {
                    assert(keys@.contains(k));
                    assert(self@ == before_map);
                } else {
                    assert(self@ == before_map.remove(k));
                }
            }
            assert forall|x: u64| spec_keys_of(removed@).contains(x)
                <==> (current@.take(j as int + 1).contains(x) && !keys@.contains(x)) by {
                assert(current@.take(j as int + 1).contains(x) <==> (current@.take(j as int).contains(x) || x == k));
                assert(before_removed.contains(x) <==> (current@.take(j as int).contains(x) && !keys@.contains(x)));
                if seen@.contains(k) {
                    assert(keys@.contains(k));
                    assert(spec_keys_of(removed@) == before_removed);
                } else {
                    assert(spec_keys_of(removed@).contains(x) <==> (before_removed.contains(x) || x == k));
                }
            }
            j = j + 1;
        }
        assert(current@.take(current@.len() as int) =~= current@);
        assert(self@.dom() =~= keys@.to_set());
        assert(spec_keys_of(removed@).to_set() =~= spec_freed(old_dom, keys@));
        removed
    }
}

/// The new keys of a prefix of the wanted keys are a prefix of all the new keys.
proof fn lemma_new_keys_prefix(old: Set<u64>, keys: Seq<u64>, i: int)
    requires
        0 <= i <= keys.len(),
    ensures
        spec_new_keys(old, keys.take(i)).len() <= spec_new_keys(old, keys).len(),
        spec_new_keys(old, keys).take(spec_new_keys(old, keys.take(i)).len() as int)
            == spec_new_keys(old, keys.take(i)),
    decreases keys.len() - i,
{
    if i == keys.len() {
        assert(keys.take(i) =~= keys);
    } else {
        lemma_new_keys_prefix(old, keys, i + 1);
        lemma_new_keys_step(old, keys, i);
        let a = spec_new_keys(old, keys.take(i));
        let b = spec_new_keys(old, keys.take(i + 1));
        let full = spec_new_keys(old, keys);
        assert(full.take(a.len() as int) =~= b.take(a.len() as int));
        assert(b.take(a.len() as int) =~= a);
    }
}

} // verus!
