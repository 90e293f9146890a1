//! What holds of the network state whatever the notifications taken in.

use crate::model::{lemma_after_consistent, NetworkModel, Notification, ValueRecord};
use crate::state::NetworkState;
use vstd::prelude::*;

verus! {

/// Whatever notifications arrive, in whatever order, the global node
/// collection stays exactly the union of the per-controller collections, each
/// node key sitting only under the controller of its own `home_id`.
pub proof fn lemma_notifications_keep_consistency(m: NetworkModel, ns: Seq<Notification>)
    requires
        m.consistent(),
    ensures
        m.after_all(ns).consistent(),
        forall|k: (u32, u8)|
            #![trigger m.after_all(ns).nodes.contains(k)]
            m.after_all(ns).nodes.contains(k) <==> exists|h: u32|
                #![trigger m.after_all(ns).members.contains_key(h)]
                m.after_all(ns).members.contains_key(h) && m.after_all(ns).members[h].contains(k.1)
                    && h == k.0,
    decreases ns.len(),
{
    if ns.len() > 0 {
        lemma_notifications_keep_consistency(m, ns.drop_last());
        lemma_after_consistent(m.after_all(ns.drop_last()), ns.last());
    }
    let r = m.after_all(ns);
    assert forall|k: (u32, u8)| r.nodes.contains(k) implies exists|h: u32|
        #![trigger r.members.contains_key(h)]
        r.members.contains_key(h) && r.members[h].contains(k.1) && h == k.0 by {
        assert(r.members.contains_key(k.0));
    }
}

/// A value that is added and then changed under the same key ends as a single
/// entry under that key, holding the content of the change.
pub proof fn lemma_value_added_then_changed(m: NetworkModel, v: ValueRecord, w: ValueRecord)
    requires
        v.home_id == w.home_id,
        v.id == w.id,
    ensures
        ({
            let r = m.after(Notification::ValueAdded(v)).after(Notification::ValueChanged(w));
            &&& r.values.dom() == m.values.dom().insert((w.home_id, w.id))
            &&& r.values[(w.home_id, w.id)] == w@
            &&& r.controllers == m.controllers
            &&& r.nodes == m.nodes
            &&& r.members == m.members
        }),
{
    let r = m.after(Notification::ValueAdded(v)).after(Notification::ValueChanged(w));
    assert(r.values.dom() =~= m.values.dom().insert((w.home_id, w.id)));
}

/// Removing a node that is not recorded changes nothing.
pub proof fn lemma_remove_unknown_node(m: NetworkModel, home_id: u32, node_id: u8)
    requires
        !m.nodes.contains((home_id, node_id)),
    ensures
        m.after(Notification::NodeRemoved { home_id, node_id }) == m,
{
}

/// Removing a value that is not recorded changes nothing.
pub proof fn lemma_remove_unknown_value(m: NetworkModel, home_id: u32, id: u64)
    requires
        !m.values.contains_key((home_id, id)),
    ensures
        m.after(Notification::ValueRemoved { home_id, id }) == m,
{
    assert(m.values.remove((home_id, id)) =~= m.values);
}

/// A second ready notification for the same controller changes nothing: the
/// controller is recorded once.
pub proof fn lemma_driver_ready_twice(m: NetworkModel, home_id: u32)
    ensures
        ({
            let once = m.after(Notification::DriverReady { home_id });
            &&& once.after(Notification::DriverReady { home_id }) == once
            &&& once.controllers == m.controllers.insert(home_id)
        }),
{
    let once = m.after(Notification::DriverReady { home_id });
    assert(once.controllers.insert(home_id) =~= once.controllers);
}

/// The number of node ids that the controllers `hs` hold together.
pub open spec fn member_total(members: Map<u32, Set<u8>>, hs: Set<u32>) -> nat
    decreases hs.len(),
    when hs.finite()
{
    if hs.len() == 0 {
        0
    } else {
        let h = hs.choose();
        members[h].len() + member_total(members, hs.remove(h))
    }
}

/// The node keys that sit under one of the controllers `hs`.
pub open spec fn nodes_under(m: NetworkModel, hs: Set<u32>) -> Set<(u32, u8)> {
    m.nodes.filter(|k: (u32, u8)| hs.contains(k.0))
}

proof fn lemma_nodes_under_count(m: NetworkModel, hs: Set<u32>)
    requires
        m.consistent(),
        hs.finite(),
        hs.subset_of(m.members.dom()),
        forall|h: u32| #[trigger] m.members.contains_key(h) ==> m.members[h].finite(),
    ensures
        nodes_under(m, hs).finite(),
        nodes_under(m, hs).len() == member_total(m.members, hs),
    decreases hs.len(),
{
    if hs.len() == 0 {
        assert(nodes_under(m, hs) =~= Set::empty());
    } else {
        let h = hs.choose();
        let rest = hs.remove(h);
        lemma_nodes_under_count(m, rest);
        let f = |n: u8| (h, n);
        let own = m.members[h].map(f);
        assert forall|a: u8, b: u8|
            m.members[h].contains(a) && m.members[h].contains(b) && #[trigger] f(a) == #[trigger] f(b) implies a == b by {}
        vstd::set_lib::lemma_map_size(m.members[h], own, f);
        assert(nodes_under(m, hs) =~= nodes_under(m, rest) + own) by {
            assert forall|k: (u32, u8)| nodes_under(m, hs).contains(k) implies (nodes_under(m, rest) + own).contains(k) by {
                if k.0 == h {
                    assert(m.members[h].contains(k.1));
                    assert(f(k.1) == k);
                }
            }
            assert forall|k: (u32, u8)| own.contains(k) implies nodes_under(m, hs).contains(k) by {
                let n = choose|n: u8| m.members[h].contains(n) && f(n) == k;
                assert(m.nodes.contains(k));
            }
        }
        assert(nodes_under(m, rest).disjoint(own));
        vstd::set_lib::lemma_set_disjoint_lens(nodes_under(m, rest), own);
    }
}

/// However notifications and reads interleave, a read sees as many nodes in
/// the global collection as in all per-controller collections together.
pub proof fn lemma_node_counts_agree(s: &NetworkState)
    requires
        s.wf(),
    ensures
        s@.nodes.len() == member_total(s@.members, s@.members.dom()),
{
    let m = s@;
    s.lemma_view_finite();
    lemma_nodes_under_count(m, m.members.dom());
    assert(nodes_under(m, m.members.dom()) =~= m.nodes);
}

} // verus!
