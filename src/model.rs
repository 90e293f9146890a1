//! The entities of the network and the mathematical model of the aggregate
//! that holds them.

use vstd::prelude::*;

verus! {

/// How a value is classified by the driver: only `User` values are meant for
/// people, the others are internal.
#[derive(Clone, Copy, Debug, PartialEq, Eq, Structural)]
pub enum Genre {
    Basic,
    User,
    Config,
    System,
}

/// One addressable attribute of a node, as the driver reports it.
///
/// Its identity is the pair `(home_id, id)`, where `id` is the packed value
/// key; `node_id` names the node that exposes it.
#[derive(Debug)]
pub struct ValueRecord {
    pub home_id: u32,
    pub id: u64,
    pub node_id: u8,
    pub genre: Genre,
    pub content: String,
}

/// The mathematical view of a [`ValueRecord`].
pub struct ValueEntry {
    pub home_id: u32,
    pub id: u64,
    pub node_id: u8,
    pub genre: Genre,
    pub content: Seq<char>,
}

impl ValueEntry {
    /// The key that identifies the value.
    pub open spec fn key(self) -> (u32, u64) {
        (self.home_id, self.id)
    }
}

impl View for ValueRecord {
    type V = ValueEntry;

    open spec fn view(&self) -> ValueEntry {
        ValueEntry {
            home_id: self.home_id,
            id: self.id,
            node_id: self.node_id,
            genre: self.genre,
            content: self.content@,
        }
    }
}

impl ValueRecord {
    /// An independent copy of the record.
    pub fn duplicate(&self) -> (r: ValueRecord)
        ensures
            r@ == self@,
    {
        ValueRecord {
            home_id: self.home_id,
            id: self.id,
            node_id: self.node_id,
            genre: self.genre,
            content: self.content.clone(),
        }
    }
}

/// An event reported by the driver.
#[derive(Debug)]
pub enum Notification {
    DriverReady { home_id: u32 },
    NodeAdded { home_id: u32, node_id: u8 },
    NodeRemoved { home_id: u32, node_id: u8 },
    NodeEvent { home_id: u32, node_id: u8 },
    ValueAdded(ValueRecord),
    ValueChanged(ValueRecord),
    ValueRemoved { home_id: u32, id: u64 },
    Other,
}

/// The mathematical state of the network: known controllers, the global node
/// collection (keys `(home_id, node_id)`), each controller's node ids, and the
/// values by key.
pub struct NetworkModel {
    pub controllers: Set<u32>,
    pub nodes: Set<(u32, u8)>,
    pub members: Map<u32, Set<u8>>,
    pub values: Map<(u32, u64), ValueEntry>,
}

impl NetworkModel {
    /// The model with no controller, node or value.
    pub open spec fn empty() -> NetworkModel {
        NetworkModel {
            controllers: Set::empty(),
            nodes: Set::empty(),
            members: Map::empty(),
            values: Map::empty(),
        }
    }

    /// The node ids that controller `home_id` holds (none if it has no entry).
    pub open spec fn members_of(self, home_id: u32) -> Set<u8> {
        if self.members.contains_key(home_id) {
            self.members[home_id]
        } else {
            Set::empty()
        }
    }

    /// The global node collection is exactly the union of the per-controller
    /// collections, each key sitting under the controller of its `home_id`;
    /// every value is stored under its own key.
    pub open spec fn consistent(self) -> bool {
        &&& forall|k: (u32, u8)|
            #![trigger self.nodes.contains(k)]
            self.nodes.contains(k) <==> (self.members.contains_key(k.0) && self.members[k.0].contains(k.1))
        &&& forall|k: (u32, u64)| #[trigger] self.values.contains_key(k) ==> self.values[k].key() == k
    }

    /// Records controller `home_id`.
    pub open spec fn add_controller(self, home_id: u32) -> NetworkModel {
        NetworkModel { controllers: self.controllers.insert(home_id), ..self }
    }

    /// Records a node globally and under its controller, whose entry is
    /// created on demand.
    pub open spec fn add_node(self, home_id: u32, node_id: u8) -> NetworkModel {
        NetworkModel {
            nodes: self.nodes.insert((home_id, node_id)),
            members: self.members.insert(home_id, self.members_of(home_id).insert(node_id)),
            ..self
        }
    }

    /// Removes the node from both collections; a node that was present also
    /// takes the values it exposes with it.
    pub open spec fn remove_node(self, home_id: u32, node_id: u8) -> NetworkModel {
        if self.nodes.contains((home_id, node_id)) {
            NetworkModel {
                nodes: self.nodes.remove((home_id, node_id)),
                members: self.members.insert(home_id, self.members[home_id].remove(node_id)),
                values: self.values.restrict(
                    self.values.dom().filter(
                        |k: (u32, u64)| !(k.0 == home_id && self.values[k].node_id == node_id),
                    ),
                ),
                ..self
            }
        } else {
            self
        }
    }

    /// Records a value, replacing the one with the same key.
    pub open spec fn upsert_value(self, v: ValueEntry) -> NetworkModel {
        NetworkModel { values: self.values.insert(v.key(), v), ..self }
    }

    /// Forgets the value with key `(home_id, id)`.
    pub open spec fn remove_value(self, home_id: u32, id: u64) -> NetworkModel {
        NetworkModel { values: self.values.remove((home_id, id)), ..self }
    }

    /// The model once notification `n` has been taken in.
    pub open spec fn after(self, n: Notification) -> NetworkModel {
        match n {
            Notification::DriverReady { home_id } => self.add_controller(home_id),
            Notification::NodeAdded { home_id, node_id } => self.add_node(home_id, node_id),
            Notification::NodeRemoved { home_id, node_id } => self.remove_node(home_id, node_id),
            Notification::ValueAdded(v) => self.upsert_value(v@),
            Notification::ValueChanged(v) => self.upsert_value(v@),
            Notification::ValueRemoved { home_id, id } => self.remove_value(home_id, id),
            Notification::NodeEvent { .. } => self,
            Notification::Other => self,
        }
    }

    /// The model once the notifications `ns` have been taken in, in order.
    pub open spec fn after_all(self, ns: Seq<Notification>) -> NetworkModel
        decreases ns.len(),
    {
        if ns.len() == 0 {
            self
        } else {
            self.after_all(ns.drop_last()).after(ns.last())
        }
    }
}

/// Recording a controller keeps the model consistent.
pub proof fn lemma_add_controller_consistent(m: NetworkModel, home_id: u32)
    requires
        m.consistent(),
    ensures
        m.add_controller(home_id).consistent(),
{
}

/// Recording a node keeps the model consistent.
pub proof fn lemma_add_node_consistent(m: NetworkModel, home_id: u32, node_id: u8)
    requires
        m.consistent(),
    ensures
        m.add_node(home_id, node_id).consistent(),
{
    let r = m.add_node(home_id, node_id);
    assert forall|k: (u32, u8)|
        r.nodes.contains(k) <==> (r.members.contains_key(k.0) && r.members[k.0].contains(k.1)) by {
        if k.0 == home_id {
            assert(m.nodes.contains(k) <==> m.members_of(home_id).contains(k.1));
        }
    }
}

/// Removing a node keeps the model consistent.
pub proof fn lemma_remove_node_consistent(m: NetworkModel, home_id: u32, node_id: u8)
    requires
        m.consistent(),
    ensures
        m.remove_node(home_id, node_id).consistent(),
{
    let r = m.remove_node(home_id, node_id);
    if m.nodes.contains((home_id, node_id)) {
        assert forall|k: (u32, u8)|
            r.nodes.contains(k) <==> (r.members.contains_key(k.0) && r.members[k.0].contains(k.1)) by {
            if k.0 == home_id {
                assert(m.nodes.contains(k) <==> m.members[home_id].contains(k.1));
            }
        }
        assert forall|k: (u32, u64)| #[trigger] r.values.contains_key(k) implies r.values[k].key() == k by {
            assert(m.values.contains_key(k));
        }
    }
}

/// Recording or replacing a value keeps the model consistent.
pub proof fn lemma_upsert_value_consistent(m: NetworkModel, v: ValueEntry)
    requires
        m.consistent(),
    ensures
        m.upsert_value(v).consistent(),
{
}

/// Removing a value keeps the model consistent.
pub proof fn lemma_remove_value_consistent(m: NetworkModel, home_id: u32, id: u64)
    requires
        m.consistent(),
    ensures
        m.remove_value(home_id, id).consistent(),
{
}

/// Taking in any notification keeps the model consistent.
pub proof fn lemma_after_consistent(m: NetworkModel, n: Notification)
    requires
        m.consistent(),
    ensures
        m.after(n).consistent(),
{
    match n {
        Notification::DriverReady { home_id } => lemma_add_controller_consistent(m, home_id),
        Notification::NodeAdded { home_id, node_id } => lemma_add_node_consistent(m, home_id, node_id),
        Notification::NodeRemoved { home_id, node_id } => lemma_remove_node_consistent(m, home_id, node_id),
        Notification::ValueAdded(v) => lemma_upsert_value_consistent(m, v@),
        Notification::ValueChanged(v) => lemma_upsert_value_consistent(m, v@),
        Notification::ValueRemoved { home_id, id } => lemma_remove_value_consistent(m, home_id, id),
        _ => {},
    }
}

} // verus!
