use zwave_console::model::{Genre, Notification, ValueRecord};
use zwave_console::state::NetworkState;

fn record(home_id: u32, id: u64, node_id: u8, genre: Genre, content: &str) -> ValueRecord {
    ValueRecord { home_id, id, node_id, genre, content: content.to_string() }
}

fn member_total(state: &NetworkState) -> usize {
    state.snapshot_nodes_by_controller().iter().map(|m| m.node_ids.len()).sum()
}

#[test]
fn nodes_are_listed_globally_and_per_controller() {
    let mut s = NetworkState::new();
    s.apply(Notification::NodeAdded { home_id: 2, node_id: 7 });
    s.apply(Notification::NodeAdded { home_id: 1, node_id: 3 });
    s.apply(Notification::NodeAdded { home_id: 2, node_id: 1 });
    assert_eq!(s.snapshot_nodes(), vec![(1, 3), (2, 1), (2, 7)]);
    let groups = s.snapshot_nodes_by_controller();
    assert_eq!(groups.len(), 2);
    assert_eq!(groups[0].home_id, 1);
    assert_eq!(groups[0].node_ids, vec![3]);
    assert_eq!(groups[1].home_id, 2);
    assert_eq!(groups[1].node_ids, vec![1, 7]);
    assert!(s.snapshot_controllers().is_empty());
}

#[test]
fn removal_keeps_collections_consistent() {
    let mut s = NetworkState::new();
    s.apply(Notification::NodeAdded { home_id: 1, node_id: 3 });
    s.apply(Notification::NodeAdded { home_id: 1, node_id: 4 });
    s.apply(Notification::NodeRemoved { home_id: 1, node_id: 3 });
    s.apply(Notification::NodeAdded { home_id: 5, node_id: 3 });
    s.apply(Notification::NodeRemoved { home_id: 5, node_id: 3 });
    assert_eq!(s.snapshot_nodes(), vec![(1, 4)]);
    assert_eq!(s.snapshot_nodes().len(), member_total(&s));
    let groups = s.snapshot_nodes_by_controller();
    assert_eq!(groups[0].node_ids, vec![4]);
    assert_eq!(groups[1].home_id, 5);
    assert!(groups[1].node_ids.is_empty());
}

#[test]
fn adding_a_node_twice_keeps_one_entry() {
    let mut s = NetworkState::new();
    s.add_node(1, 9);
    s.add_node(1, 9);
    assert_eq!(s.snapshot_nodes(), vec![(1, 9)]);
    assert_eq!(member_total(&s), 1);
}

#[test]
fn value_added_then_changed_is_one_entry() {
    let mut s = NetworkState::new();
    s.apply(Notification::ValueAdded(record(1, 0x10, 2, Genre::User, "off")));
    s.apply(Notification::ValueChanged(record(1, 0x10, 2, Genre::User, "on")));
    let vs = s.list_values(true);
    assert_eq!(vs.len(), 1);
    assert_eq!(vs[0].content, "on");
    assert_eq!(vs[0].id, 0x10);
}

#[test]
fn value_changed_before_added_is_recorded() {
    let mut s = NetworkState::new();
    s.apply(Notification::ValueChanged(record(1, 0x20, 2, Genre::User, "42")));
    assert!(s.has_value(1, 0x20));
    assert_eq!(s.list_values(false)[0].content, "42");
}

#[test]
fn removing_unknown_keys_changes_nothing() {
    let mut s = NetworkState::new();
    s.apply(Notification::NodeAdded { home_id: 1, node_id: 3 });
    s.apply(Notification::ValueAdded(record(1, 0x10, 3, Genre::User, "on")));
    s.apply(Notification::NodeRemoved { home_id: 1, node_id: 4 });
    s.apply(Notification::ValueRemoved { home_id: 1, id: 0x11 });
    s.remove_node(2, 3);
    s.remove_value(2, 0x10);
    assert_eq!(s.snapshot_nodes(), vec![(1, 3)]);
    assert_eq!(member_total(&s), 1);
    assert_eq!(s.list_values(true).len(), 1);
}

#[test]
fn removing_a_value_forgets_it() {
    let mut s = NetworkState::new();
    s.upsert_value(record(1, 0x10, 3, Genre::User, "on"));
    s.apply(Notification::ValueRemoved { home_id: 1, id: 0x10 });
    assert!(!s.has_value(1, 0x10));
    assert!(s.list_values(true).is_empty());
}

#[test]
fn removing_a_node_removes_its_values() {
    let mut s = NetworkState::new();
    s.apply(Notification::NodeAdded { home_id: 1, node_id: 3 });
    s.apply(Notification::NodeAdded { home_id: 1, node_id: 4 });
    s.apply(Notification::ValueAdded(record(1, 0x10, 3, Genre::User, "a")));
    s.apply(Notification::ValueAdded(record(1, 0x11, 4, Genre::User, "b")));
    s.apply(Notification::ValueAdded(record(1, 0x12, 3, Genre::System, "c")));
    s.apply(Notification::ValueAdded(record(2, 0x13, 3, Genre::User, "d")));
    s.apply(Notification::NodeRemoved { home_id: 1, node_id: 3 });
    let ids: Vec<(u32, u64)> = s.list_values(true).iter().map(|v| (v.home_id, v.id)).collect();
    assert_eq!(ids, vec![(1, 0x11), (2, 0x13)]);
}

#[test]
fn driver_ready_twice_gives_one_controller() {
    let mut s = NetworkState::new();
    s.apply(Notification::DriverReady { home_id: 0xabc });
    s.apply(Notification::DriverReady { home_id: 0xabc });
    s.apply(Notification::DriverReady { home_id: 0x12 });
    assert_eq!(s.snapshot_controllers(), vec![0x12, 0xabc]);
}

#[test]
fn node_events_and_others_change_nothing() {
    let mut s = NetworkState::new();
    s.apply(Notification::NodeEvent { home_id: 1, node_id: 2 });
    s.apply(Notification::Other);
    assert!(s.snapshot_nodes().is_empty());
    assert!(s.snapshot_controllers().is_empty());
    assert!(s.snapshot_nodes_by_controller().is_empty());
}

#[test]
fn values_lists_user_genre_and_all_lists_every_genre() {
    let mut s = NetworkState::new();
    s.upsert_value(record(1, 0x30, 1, Genre::System, "sys"));
    s.upsert_value(record(1, 0x10, 1, Genre::User, "user"));
    s.upsert_value(record(1, 0x20, 1, Genre::Config, "cfg"));
    s.upsert_value(record(0, 0x40, 1, Genre::Basic, "basic"));
    let user: Vec<u64> = s.list_values(false).iter().map(|v| v.id).collect();
    assert_eq!(user, vec![0x10]);
    let all: Vec<u64> = s.list_values(true).iter().map(|v| v.id).collect();
    assert_eq!(all, vec![0x40, 0x10, 0x20, 0x30]);
}

#[test]
fn node_counts_agree_between_snapshots_while_nodes_arrive() {
    let mut s = NetworkState::new();
    for n in 0..40u8 {
        s.apply(Notification::NodeAdded { home_id: 7, node_id: n });
        if n % 3 == 0 {
            assert_eq!(s.snapshot_nodes().len(), member_total(&s));
            assert_eq!(s.snapshot_nodes().len(), n as usize + 1);
        }
    }
    assert_eq!(member_total(&s), 40);
}

#[test]
fn duplicate_copies_a_record() {
    let r = record(3, 0x99, 4, Genre::Config, "text");
    let d = r.duplicate();
    assert_eq!(d.home_id, 3);
    assert_eq!(d.id, 0x99);
    assert_eq!(d.node_id, 4);
    assert_eq!(d.genre, Genre::Config);
    assert_eq!(d.content, "text");
}
