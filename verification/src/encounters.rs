//! Tallies of the wandering encounters of a floor, and the item lists the
//! inventory views show.
use vstd::prelude::*;

verus! {

/// How often `name` occurs in `names`.
pub open spec fn spec_count(names: Seq<Seq<char>>, name: Seq<char>) -> nat
    decreases names.len(),
{
    if names.len() == 0 {
        0
    } else {
        spec_count(names.drop_last(), name) + if names.last() == name { 1nat } else { 0nat }
    }
}

/// The texts of a list of strings.
pub open spec fn spec_texts(names: Seq<String>) -> Seq<Seq<char>> {
    names.map_values(|s: String| s@)
}

/// The names of a tally.
pub open spec fn spec_tally_names(tally: Seq<(String, i32)>) -> Seq<Seq<char>> {
    tally.map_values(|e: (String, i32)| e.0@)
}

/// A name occurs in a prefix of a list at most as often as in the whole list.
proof fn lemma_count_prefix(names: Seq<Seq<char>>, k: int, name: Seq<char>)
    requires
        0 <= k <= names.len(),
    ensures
        spec_count(names.take(k), name) <= spec_count(names, name),
    decreases names.len(),
{
    if k == names.len() {
        assert(names.take(k) =~= names);
    } else {
        lemma_count_prefix(names.drop_last(), k, name);
        assert(names.drop_last().take(k) =~= names.take(k));
    }
}

proof fn lemma_count_zero(names: Seq<Seq<char>>, name: Seq<char>)
    requires
        !names.contains(name),
    ensures
        spec_count(names, name) == 0,
    decreases names.len(),
{
    if names.len() > 0 {
        let p = names.drop_last();
        assert(!p.contains(name)) by {
            if p.contains(name) {
                let i = choose|i: int| 0 <= i < p.len() && p[i] == name;
                assert(names[i] == name);
            }
        }
        lemma_count_zero(p, name);
        assert(names[names.len() - 1] != name);
    }
}

/// No encounter has no count, and one more encounter adds one to its own
/// monster's count and leaves every other count as it was.
pub proof fn lemma_count_per_encounter(names: Seq<Seq<char>>, added: Seq<char>, name: Seq<char>)
    ensures
        spec_count(Seq::empty(), name) == 0,
        spec_count(names.push(added), added) == spec_count(names, added) + 1,
        name != added ==> spec_count(names.push(added), name) == spec_count(names, name),
{
    assert(names.push(added).drop_last() =~= names);
}

/// Where `name` stands in a tally.
fn find_name(res: &Vec<(String, i32)>, name: &String) -> (found: Option<usize>)
    ensures
        found matches Some(j) ==> j < res@.len() && res@[j as int].0@ == name@,
        found is None ==> forall|m: int| 0 <= m < res@.len() ==> res@[m].0@ != name@,
{
    let mut j: usize = 0;
    while j < res.len()
        invariant
            j <= res@.len(),
            forall|m: int| 0 <= m < j ==> res@[m].0@ != name@,
        decreases res@.len() - j,
    {
        if res[j].0 == *name {
            return Some(j);
        }
        j = j + 1;
    }
    None
}

/// Tallies the monsters of a floor's encounters by name: each name once, in
/// the order of its first encounter, with how many encounters it has. No name
/// may occur more often than an `i32` counts.
pub fn tabulate_encounters(names: &Vec<String>) -> (res: Vec<(String, i32)>)
    requires
        forall|n: Seq<char>| spec_count(spec_texts(names@), n) <= i32::MAX,
    ensures
        spec_tally_names(res@).no_duplicates(),
        forall|n: Seq<char>| spec_tally_names(res@).contains(n) <==> spec_texts(names@).contains(n),
        forall|j: int| 0 <= j < res@.len() ==> #[trigger] res@[j].1 == spec_count(spec_texts(names@), res@[j].0@),
{
    let mut res: Vec<(String, i32)> = Vec::new();
    let mut i: usize = 0;
    while i < names.len()
        invariant
            i <= names@.len(),
            forall|n: Seq<char>| spec_count(spec_texts(names@), n) <= i32::MAX,
            spec_tally_names(res@).no_duplicates(),
            forall|n: Seq<char>| spec_tally_names(res@).contains(n) <==> spec_texts(names@.take(i as int)).contains(n),
            forall|j: int| 0 <= j < res@.len() ==> #[trigger] res@[j].1 == spec_count(spec_texts(names@.take(i as int)), res@[j].0@),
        decreases names@.len() - i,
    {
        let name = &names[i];
        let ghost prev = spec_texts(names@.take(i as int));
        let ghost next = spec_texts(names@.take(i as int + 1));
        proof {
            assert(next =~= prev.push(name@));
            assert(next.drop_last() =~= prev);
            assert forall|n: Seq<char>| next.contains(n) <==> (prev.contains(n) || n == name@) by {
                if next.contains(n) {
                    let k = choose|k: int| 0 <= k < next.len() && next[k] == n;
                    if k < prev.len() {
                        assert(prev[k] == n);
                    }
                }
                if prev.contains(n) {
                    let k = choose|k: int| 0 <= k < prev.len() && prev[k] == n;
                    assert(next[k] == n);
                }
                if n == name@ {
                    assert(next[prev.len() as int] == n);
                }
            }
        }
        let found = find_name(&res, name);
        let ghost old_res = res@;
        match found {
            Some(j) => {
                assert(res@[j as int].0@ == name@);
                proof {
                    assert(spec_texts(names@).take(i as int + 1) =~= next);
                    lemma_count_prefix(spec_texts(names@), i as int + 1, name@);
                    assert(spec_count(next, name@) == spec_count(prev, name@) + 1);
                }
                let count = res[j].1;
                let entry = (res[j].0.clone(), count + 1);
                res.set(j, entry);
                proof {
                    assert(spec_tally_names(res@) =~= spec_tally_names(old_res));
                    assert(spec_tally_names(old_res)[j as int] == name@);
                    assert(spec_tally_names(old_res).contains(name@));
                    assert forall|n: Seq<char>| spec_tally_names(res@).contains(n) <==> next.contains(n) by {
                        if n == name@ {
                            assert(spec_tally_names(res@).contains(n));
                        }
                    }
                    assert forall|m: int| 0 <= m < res@.len() implies #[trigger] res@[m].1
                        == spec_count(next, res@[m].0@) by {
                        if m != j {
                            assert(spec_tally_names(old_res).no_duplicates());
                            assert(spec_tally_names(old_res)[m] != spec_tally_names(old_res)[j as int]);
                        }
                    }
                }
            },
            None => {
                proof {
                    assert(!spec_tally_names(res@).contains(name@)) by {
                        if spec_tally_names(res@).contains(name@) {
                            let k = choose|k: int| 0 <= k < res@.len() && spec_tally_names(res@)[k] == name@;
                            assert(res@[k].0@ == name@);
                        }
                    }
                    assert(!prev.contains(name@));
                    lemma_count_zero(prev, name@);
                }
                res.push((name.clone(), 1));
                proof {
                    let t = spec_tally_names(res@);
                    let ot = spec_tally_names(old_res);
                    assert(t =~= ot.push(name@));
                    assert forall|a: int, b: int| 0 <= a < t.len() && 0 <= b < t.len() && a != b implies t[a] != t[b] by {
                        if a == ot.len() {
                            assert(ot.contains(ot[b]));
                        } else if b == ot.len() {
                            assert(ot.contains(ot[a]));
                        }
                    }
                    assert forall|n: Seq<char>| t.contains(n) <==> next.contains(n) by {
                        if t.contains(n) {
                            let k = choose|k: int| 0 <= k < t.len() && t[k] == n;
                            if k < ot.len() {
                                assert(ot[k] == n);
                            }
                        }
                        if ot.contains(n) {
                            let k = choose|k: int| 0 <= k < ot.len() && ot[k] == n;
                            assert(t[k] == n);
                        }
                        if n == name@ {
                            assert(t[ot.len() as int] == n);
                        }
                    }
                    assert forall|m: int| 0 <= m < res@.len() implies #[trigger] res@[m].1
                        == spec_count(next, res@[m].0@) by {
                        if m < old_res.len() {
                            assert(ot[m] != name@) by {
                                assert(ot.contains(ot[m]));
                            }
                        }
                    }
                }
            },
        }
        i = i + 1;
    }
    assert(names@.take(names@.len() as int) =~= names@);
    res
}

/// Which items an inventory view lists.
#[derive(Clone, Copy, Debug, PartialEq, Eq, Structural)]
pub enum InventorySpawnerType {
    Gear,
    CombatEquipment,
    All,
}

/// The item ids of an inventory, by list.
#[derive(Debug)]
pub struct InventoryIds {
    pub gear: Vec<u64>,
    pub combat_equipment: Vec<u64>,
    pub all: Vec<u64>,
}

/// The ids of the items an inventory view lists, in order.
pub fn item_ids_for(spawner_type: InventorySpawnerType, inventory: &InventoryIds) -> (res: Vec<u64>)
    ensures
        res@ == match spawner_type {
            InventorySpawnerType::Gear => inventory.gear@,
            InventorySpawnerType::CombatEquipment => inventory.combat_equipment@,
            InventorySpawnerType::All => inventory.all@,
        },
{
    match spawner_type {
        InventorySpawnerType::Gear => inventory.gear.clone(),
        InventorySpawnerType::CombatEquipment => inventory.combat_equipment.clone(),
        InventorySpawnerType::All => inventory.all.clone(),
    }
}

} // verus!
