//! The network-state aggregate: controllers, nodes (globally and per
//! controller) and values, changed only by operations that keep the
//! collections consistent with one another.

use crate::model::{
    lemma_add_controller_consistent, lemma_add_node_consistent, lemma_remove_node_consistent,
    lemma_remove_value_consistent, lemma_upsert_value_consistent, Genre, NetworkModel, ValueEntry,
    ValueRecord,
};
use std::collections::BTreeMap;
use std::collections::BTreeSet;
use vstd::prelude::*;
use vstd::std_specs::btree::{increasing_seq, spec_btree_keys_iter, spec_btree_map_iter};
use vstd::std_specs::cmp::OrdSpec;
use vstd::std_specs::iter::IteratorSpec;

verus! {

broadcast use vstd::std_specs::btree::group_btree_axioms;

/// The node ids that one controller holds, in increasing order.
#[derive(Debug)]
pub struct Members {
    pub home_id: u32,
    pub node_ids: Vec<u8>,
}

/// The aggregate of controllers, nodes and values.
pub struct NetworkState {
    controllers: BTreeSet<u32>,
    nodes: BTreeSet<(u32, u8)>,
    members: BTreeMap<u32, BTreeSet<u8>>,
    values: BTreeMap<(u32, u64), ValueRecord>,
}

impl View for NetworkState {
    type V = NetworkModel;

    closed spec fn view(&self) -> NetworkModel {
        NetworkModel {
            controllers: self.controllers@,
            nodes: self.nodes@,
            members: self.members@.map_values(|s: BTreeSet<u8>| s@),
            values: self.values@.map_values(|r: ValueRecord| r@),
        }
    }
}

/// The elements of `s` in increasing order.
fn in_order<T: Ord + Copy>(s: &BTreeSet<T>) -> (r: Vec<T>)
    requires
        vstd::laws_cmp::obeys_cmp::<T>(),
    ensures
        r@.to_set() == s@,
        r.len() == s@.len(),
        r@.no_duplicates(),
        increasing_seq(r@),
{
    let mut r: Vec<T> = Vec::new();
    let ghost seq = spec_btree_keys_iter(s).remaining();
    for x in it: s.iter()
        invariant
            it.seq() == seq,
            r.len() == it.index(),
            forall|i: int| 0 <= i < r.len() ==> r@[i] == *seq[i],
    {
        r.push(*x);
    }
    proof {
        assert(r@ =~= seq.unref());
        broadcast use vstd::laws_cmp::lemma_ref_obeys_cmp_spec;

        assert(vstd::laws_cmp::obeys_cmp::<&T>());
        assert(increasing_seq(seq));
        vstd::std_specs::btree::axiom_increasing_seq_meaning::<&T>(seq);
        assert forall|i: int, j: int| 0 <= i < j < r@.len() implies (#[trigger] r@[i].cmp_spec(&r@[j])) is Less by {
            assert(OrdSpec::cmp_spec(&seq[i], &seq[j]) is Less);
        }
    }
    r
}

/// Whether a value is listed when only user-facing values are asked for.
pub open spec fn shown(e: ValueEntry, all: bool) -> bool {
    all || e.genre == Genre::User
}

impl NetworkState {
    /// The aggregate is consistent: see [`NetworkModel::consistent`].
    pub open spec fn wf(&self) -> bool {
        self@.consistent()
    }

    /// An aggregate with nothing in it.
    pub fn new() -> (r: NetworkState)
        ensures
            r.wf(),
            r@ == NetworkModel::empty(),
    {
        let r = NetworkState {
            controllers: BTreeSet::new(),
            nodes: BTreeSet::new(),
            members: BTreeMap::new(),
            values: BTreeMap::new(),
        };
        proof {
            assert(r@.members =~= Map::empty());
            assert(r@.values =~= Map::empty());
        }
        r
    }

    /// Records the controller `home_id`; nothing changes if it is known.
    pub fn add_controller(&mut self, home_id: u32)
        requires
            old(self).wf(),
        ensures
            final(self).wf(),
            final(self)@ == old(self)@.add_controller(home_id),
    {
        proof {
            lemma_add_controller_consistent(self@, home_id);
        }
        self.controllers.insert(home_id);
    }

    /// Records node `node_id` of controller `home_id` in the global collection
    /// and in the controller's own, creating the latter if needed.
    pub fn add_node(&mut self, home_id: u32, node_id: u8)
        requires
            old(self).wf(),
        ensures
            final(self).wf(),
            final(self)@ == old(self)@.add_node(home_id, node_id),
    {
        let ghost pre = self@;
        self.nodes.insert((home_id, node_id));
        let mut ids = match self.members.remove(&home_id) {
            Some(s) => s,
            None => BTreeSet::new(),
        };
        ids.insert(node_id);
        self.members.insert(home_id, ids);
        proof {
            assert(self@.members =~= pre.members.insert(home_id, pre.members_of(home_id).insert(node_id)));
            assert(self@ == pre.add_node(home_id, node_id));
            lemma_add_node_consistent(pre, home_id, node_id);
        }
    }

    /// The keys of the values that node `node_id` of controller `home_id`
    /// exposes.
    fn keys_of_node(&self, home_id: u32, node_id: u8) -> (r: Vec<(u32, u64)>)
        ensures
            forall|k: (u32, u64)|
                r@.contains(k) <==> (self.values@.contains_key(k) && k.0 == home_id
                    && self.values@[k].node_id == node_id),
    {
        let mut r: Vec<(u32, u64)> = Vec::new();
        let ghost seq = spec_btree_map_iter(&self.values).remaining();
        for kv in it: self.values.iter()
            invariant
                it.seq() == seq,
                forall|k: (u32, u64)|
                    r@.contains(k) <==> (exists|j: int|
                        0 <= j < it.index() && *seq[j].0 == k && k.0 == home_id
                            && seq[j].1.node_id == node_id),
        {
            let ghost r0 = r@;
            let ghost idx = it.index();
            assert(kv == seq[idx]);
            if kv.0.0 == home_id && kv.1.node_id == node_id {
                r.push(*kv.0);
            }
            proof {
                assert forall|k: (u32, u64)|
                    r@.contains(k) <==> (exists|j: int|
                        0 <= j < it.index() + 1 && *seq[j].0 == k && k.0 == home_id
                            && seq[j].1.node_id == node_id) by {
                    if r@.contains(k) {
                        if r0.contains(k) {
                            let j = choose|j: int|
                                0 <= j < idx && *seq[j].0 == k && k.0 == home_id
                                    && seq[j].1.node_id == node_id;
                            assert(0 <= j < idx + 1);
                        } else {
                            let i = choose|i: int| 0 <= i < r@.len() && r@[i] == k;
                            assert(i == r0.len());
                            assert(*seq[idx].0 == k && k.0 == home_id && seq[idx].1.node_id == node_id);
                        }
                    }
                    if exists|j: int|
                        0 <= j < idx + 1 && *seq[j].0 == k && k.0 == home_id
                            && seq[j].1.node_id == node_id {
                        let j = choose|j: int|
                            0 <= j < idx + 1 && *seq[j].0 == k && k.0 == home_id
                                && seq[j].1.node_id == node_id;
                        if j < idx {
                            assert(r0.contains(k));
                            let i = choose|i: int| 0 <= i < r0.len() && r0[i] == k;
                            assert(r@[i] == k);
                        } else {
                            assert(r@[r0.len() as int] == k);
                        }
                    }
                }
            }
        }
        proof {
            assert forall|k: (u32, u64)|
                r@.contains(k) <==> (self.values@.contains_key(k) && k.0 == home_id
                    && self.values@[k].node_id == node_id) by {
                if self.values@.contains_key(k) {
                    let j = choose|j: int| 0 <= j < seq.len() && seq[j] == (&k, &self.values@[k]);
                }
            }
        }
        r
    }

    /// Forgets node `node_id` of controller `home_id` in both collections,
    /// together with the values it exposes; nothing changes if the node is
    /// unknown.
    pub fn remove_node(&mut self, home_id: u32, node_id: u8)
        requires
            old(self).wf(),
        ensures
            final(self).wf(),
            final(self)@ == old(self)@.remove_node(home_id, node_id),
    {
        let ghost pre = self@;
        if !self.nodes.contains(&(home_id, node_id)) {
            return;
        }
        let doomed = self.keys_of_node(home_id, node_id);
        self.nodes.remove(&(home_id, node_id));
        let mut ids = match self.members.remove(&home_id) {
            Some(s) => s,
            None => BTreeSet::new(),
        };
        ids.remove(&node_id);
        self.members.insert(home_id, ids);
        let ghost vals0 = self.values@;
        let ghost nodes0 = self.nodes@;
        let ghost members0 = self.members@;
        let mut i: usize = 0;
        while i < doomed.len()
            invariant
                0 <= i <= doomed.len(),
                self.nodes@ == nodes0,
                self.members@ == members0,
                self.controllers@ == pre.controllers,
                self.values@ == vals0.remove_keys(doomed@.take(i as int).to_set()),
            decreases doomed.len() - i,
        {
            let ghost before = self.values@;
            self.values.remove(&doomed[i]);
            proof {
                let t0 = doomed@.take(i as int);
                let t1 = doomed@.take(i + 1);
                assert forall|x: (u32, u64)| t1.contains(x) <==> t0.contains(x) || x == doomed@[i as int] by {
                    if t1.contains(x) {
                        let j = choose|j: int| 0 <= j < t1.len() && t1[j] == x;
                        if j < i {
                            assert(t0[j] == x);
                        }
                    }
                    if t0.contains(x) {
                        let j = choose|j: int| 0 <= j < t0.len() && t0[j] == x;
                        assert(t1[j] == x);
                    }
                    if x == doomed@[i as int] {
                        assert(t1[i as int] == x);
                    }
                }
                assert(t1.to_set() =~= t0.to_set().insert(doomed@[i as int]));
                assert(self.values@ =~= vals0.remove_keys(doomed@.take(i + 1).to_set()));
            }
            i = i + 1;
        }
        proof {
            assert(doomed@.take(doomed.len() as int) =~= doomed@);
            let post = pre.remove_node(home_id, node_id);
            assert(self@.nodes == post.nodes);
            assert(self@.members =~= post.members);
            assert(self@.values =~= post.values);
            lemma_remove_node_consistent(pre, home_id, node_id);
        }
    }

    /// Records a value, or replaces the content of the one with its key.
    pub fn upsert_value(&mut self, v: ValueRecord)
        requires
            old(self).wf(),
        ensures
            final(self).wf(),
            final(self)@ == old(self)@.upsert_value(v@),
    {
        let ghost pre = self@;
        let ghost e = v@;
        self.values.insert((v.home_id, v.id), v);
        proof {
            assert(self@.values =~= pre.values.insert(e.key(), e));
            lemma_upsert_value_consistent(pre, e);
        }
    }

    /// Forgets the value with key `(home_id, id)`; nothing changes if there is
    /// none.
    pub fn remove_value(&mut self, home_id: u32, id: u64)
        requires
            old(self).wf(),
        ensures
            final(self).wf(),
            final(self)@ == old(self)@.remove_value(home_id, id),
    {
        let ghost pre = self@;
        self.values.remove(&(home_id, id));
        proof {
            assert(self@.values =~= pre.values.remove((home_id, id)));
            lemma_remove_value_consistent(pre, home_id, id);
        }
    }

    /// Whether a value with key `(home_id, id)` is recorded.
    pub fn has_value(&self, home_id: u32, id: u64) -> (r: bool)
        ensures
            r == self@.values.contains_key((home_id, id)),
    {
        self.values.contains_key(&(home_id, id))
    }

    /// The known controllers, in increasing order.
    pub fn snapshot_controllers(&self) -> (r: Vec<u32>)
        ensures
            r@.to_set() == self@.controllers,
            r.len() == self@.controllers.len(),
            r@.no_duplicates(),
            increasing_seq(r@),
    {
        in_order(&self.controllers)
    }

    /// The global node collection, ordered by `home_id` and then `node_id`.
    pub fn snapshot_nodes(&self) -> (r: Vec<(u32, u8)>)
        ensures
            r@.to_set() == self@.nodes,
            r.len() == self@.nodes.len(),
            r@.no_duplicates(),
            increasing_seq(r@),
    {
        in_order(&self.nodes)
    }

    /// Each controller's node ids, controllers in increasing order.
    pub fn snapshot_nodes_by_controller(&self) -> (r: Vec<Members>)
        ensures
            increasing_seq(r@.map_values(|m: Members| m.home_id)),
            forall|i: int|
                #![trigger r@[i]]
                0 <= i < r.len() ==> {
                    &&& self@.members.contains_key(r@[i].home_id)
                    &&& r@[i].node_ids@.to_set() == self@.members[r@[i].home_id]
                    &&& r@[i].node_ids.len() == self@.members[r@[i].home_id].len()
                    &&& r@[i].node_ids@.no_duplicates()
                    &&& increasing_seq(r@[i].node_ids@)
                },
            forall|h: u32|
                #[trigger] self@.members.contains_key(h) ==> exists|i: int|
                    0 <= i < r.len() && r@[i].home_id == h,
    {
        let mut r: Vec<Members> = Vec::new();
        let ghost seq = spec_btree_map_iter(&self.members).remaining();
        for kv in it: self.members.iter()
            invariant
                it.seq() == seq,
                r.len() == it.index(),
                forall|i: int|
                    #![trigger r@[i]]
                    0 <= i < r.len() ==> {
                        &&& r@[i].home_id == *seq[i].0
                        &&& r@[i].node_ids@.to_set() == seq[i].1@
                        &&& r@[i].node_ids.len() == seq[i].1@.len()
                        &&& r@[i].node_ids@.no_duplicates()
                        &&& increasing_seq(r@[i].node_ids@)
                    },
        {
            let ids = in_order(kv.1);
            r.push(Members { home_id: *kv.0, node_ids: ids });
        }
        proof {
            assert(r@.map_values(|m: Members| m.home_id) =~= seq.map_values(
                |kv: (&u32, &BTreeSet<u8>)| *kv.0,
            ));
            assert forall|h: u32| #[trigger] self@.members.contains_key(h) implies exists|i: int|
                0 <= i < r.len() && r@[i].home_id == h by {
                assert(self.members@.contains_key(h));
                let j = choose|j: int| 0 <= j < seq.len() && seq[j] == (&h, &self.members@[h]);
                assert(r@[j].home_id == h);
            }
        }
        r
    }

    /// The recorded values in increasing key order: all of them when `all`
    /// holds, else only the user-facing ones.
    pub fn list_values(&self, all: bool) -> (r: Vec<ValueRecord>)
        requires
            self.wf(),
        ensures
            increasing_seq(r@.map_values(|x: ValueRecord| (x.home_id, x.id))),
            forall|i: int|
                #![trigger r@[i]]
                0 <= i < r.len() ==> {
                    &&& self@.values.contains_key((r@[i].home_id, r@[i].id))
                    &&& self@.values[(r@[i].home_id, r@[i].id)] == r@[i]@
                    &&& shown(r@[i]@, all)
                },
            forall|k: (u32, u64)|
                #[trigger] self@.values.contains_key(k) && shown(self@.values[k], all) ==> exists|i: int|
                    0 <= i < r.len() && (r@[i].home_id, r@[i].id) == k,
    {
        let mut r: Vec<ValueRecord> = Vec::new();
        let ghost seq = spec_btree_map_iter(&self.values).remaining();
        let ghost keys = seq.map_values(|kv: (&(u32, u64), &ValueRecord)| *kv.0);
        let ghost mut pos: Seq<int> = Seq::empty();
        for kv in it: self.values.iter()
            invariant
                it.seq() == seq,
                keys == seq.map_values(|kv: (&(u32, u64), &ValueRecord)| *kv.0),
                self.wf(),
                pos.len() == r.len(),
                forall|i: int, j: int| 0 <= i < j < pos.len() ==> pos[i] < pos[j],
                forall|i: int|
                    #![trigger r@[i]]
                    0 <= i < r.len() ==> {
                        &&& 0 <= pos[i] < it.index()
                        &&& (r@[i].home_id, r@[i].id) == *seq[pos[i]].0
                        &&& r@[i]@ == seq[pos[i]].1@
                        &&& shown(r@[i]@, all)
                    },
                forall|j: int|
                    0 <= j < it.index() && shown(seq[j].1@, all) ==> exists|i: int|
                        0 <= i < r.len() && pos[i] == j,
        {
            let ghost idx = it.index();
            let ghost r0 = r@;
            let ghost pos0 = pos;
            assert(kv == seq[idx]);
            if all || kv.1.genre == Genre::User {
                r.push(kv.1.duplicate());
                proof {
                    pos = pos.push(idx);
                    assert forall|i: int, j: int| 0 <= i < j < pos.len() implies pos[i] < pos[j] by {
                        if j == pos.len() - 1 {
                            assert(r@[i] == r0[i]);
                        }
                    }
                    assert forall|i: int| 0 <= i < r.len() implies {
                        &&& 0 <= pos[i] < idx + 1
                        &&& (#[trigger] r@[i].home_id, r@[i].id) == *seq[pos[i]].0
                        &&& r@[i]@ == seq[pos[i]].1@
                        &&& shown(r@[i]@, all)
                    } by {
                        if i < r0.len() {
                            assert(r@[i] == r0[i]);
                            assert(pos[i] == pos0[i]);
                        } else {
                            let k = *seq[idx].0;
                            assert(self.values@.contains_key(k) && self.values@[k] == *seq[idx].1);
                            assert(self@.values.contains_key(k));
                            assert(self@.values[k].key() == k);
                        }
                    }
                }
            }
            proof {
                assert forall|j: int|
                    0 <= j < idx + 1 && shown(seq[j].1@, all) implies exists|i: int|
                        0 <= i < r.len() && pos[i] == j by {
                    if j < idx {
                        let i = choose|i: int| 0 <= i < r0.len() && pos0[i] == j;
                        assert(pos[i] == j);
                    } else {
                        assert(pos[r0.len() as int] == j);
                    }
                }
            }
        }
        proof {
            let rk = r@.map_values(|x: ValueRecord| (x.home_id, x.id));
            assert(increasing_seq(keys));
            assert forall|i: int, j: int| 0 <= i < j < rk.len() implies (#[trigger] rk[i].cmp_spec(&rk[j])) is Less by {
                assert(rk[i] == keys[pos[i]]);
                assert(rk[j] == keys[pos[j]]);
            }
            assert forall|i: int| 0 <= i < r.len() implies {
                &&& self@.values.contains_key((#[trigger] r@[i].home_id, r@[i].id))
                &&& self@.values[(r@[i].home_id, r@[i].id)] == r@[i]@
            } by {
                let p = pos[i];
                assert(self.values@.contains_key(*seq[p].0) && self.values@[*seq[p].0] == *seq[p].1);
            }
            assert forall|k: (u32, u64)|
                #[trigger] self@.values.contains_key(k) && shown(self@.values[k], all) implies exists|i: int|
                    0 <= i < r.len() && (r@[i].home_id, r@[i].id) == k by {
                let j = choose|j: int| 0 <= j < seq.len() && seq[j] == (&k, &self.values@[k]);
                let i = choose|i: int| 0 <= i < r.len() && pos[i] == j;
                assert((r@[i].home_id, r@[i].id) == k);
            }
        }
        r
    }

    /// Every collection of the aggregate is finite.
    pub proof fn lemma_view_finite(&self)
        ensures
            self@.controllers.finite(),
            self@.nodes.finite(),
            self@.members.dom().finite(),
            forall|h: u32| #[trigger] self@.members.contains_key(h) ==> self@.members[h].finite(),
            self@.values.dom().finite(),
    {
        broadcast use vstd::seq_lib::seq_to_set_is_finite;

        assert(spec_btree_keys_iter(&self.controllers).remaining().unref().to_set() == self.controllers@);
        assert(spec_btree_keys_iter(&self.nodes).remaining().unref().to_set() == self.nodes@);
        assert(self@.members.dom() =~= self.members@.dom());
        assert(self@.values.dom() =~= self.values@.dom());
        assert forall|h: u32| #[trigger] self@.members.contains_key(h) implies self@.members[h].finite() by {
            let ids = self.members@[h];
            assert(spec_btree_keys_iter(&ids).remaining().unref().to_set() == ids@);
        }
    }
}

} // verus!