//! Taking driver notifications into the network state.

use crate::model::Notification;
use crate::state::NetworkState;
use vstd::prelude::*;

verus! {

impl NetworkState {
    /// Applies one notification: a ready driver records its controller, node
    /// and value events add, replace or remove entries, and node events and
    /// unrecognised notifications change nothing.
    pub fn apply(&mut self, n: Notification)
        requires
            old(self).wf(),
        ensures
            final(self).wf(),
            final(self)@ == old(self)@.after(n),
    {
        match n {
            Notification::DriverReady { home_id } => self.add_controller(home_id),
            Notification::NodeAdded { home_id, node_id } => self.add_node(home_id, node_id),
            Notification::NodeRemoved { home_id, node_id } => self.remove_node(home_id, node_id),
            Notification::ValueAdded(v) => self.upsert_value(v),
            Notification::ValueChanged(v) => self.upsert_value(v),
            Notification::ValueRemoved { home_id, id } => self.remove_value(home_id, id),
            Notification::NodeEvent { .. } => {},
            Notification::Other => {},
        }
    }
}

} // verus!
