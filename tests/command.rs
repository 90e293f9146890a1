use zwave_console::command::{parse_command, read_command, request_for, Command, Form, Request};
use zwave_console::model::{Genre, ValueRecord};
use zwave_console::numeral::parse_numeral;
use zwave_console::state::NetworkState;

#[test]
fn numerals_in_base_16_and_10() {
    assert_eq!(parse_numeral("1f", 16, 0xffff_ffff), Some(31));
    assert_eq!(parse_numeral("FF", 16, 0xff), Some(255));
    assert_eq!(parse_numeral("+a", 16, 0xffff_ffff), Some(10));
    assert_eq!(parse_numeral("4294967295", 10, 0xffff_ffff), Some(4294967295));
    assert_eq!(parse_numeral("ffffffffffffffff", 16, u64::MAX), Some(u64::MAX));
}

#[test]
fn numerals_rejected() {
    assert_eq!(parse_numeral("", 16, 0xffff_ffff), None);
    assert_eq!(parse_numeral("+", 16, 0xffff_ffff), None);
    assert_eq!(parse_numeral("-1", 16, 0xffff_ffff), None);
    assert_eq!(parse_numeral("1g", 16, 0xffff_ffff), None);
    assert_eq!(parse_numeral("a", 10, 0xffff_ffff), None);
    assert_eq!(parse_numeral("100000000", 16, 0xffff_ffff), None);
    assert_eq!(parse_numeral("100", 16, 0xff), None);
    assert_eq!(parse_numeral("10000000000000000", 16, u64::MAX), None);
    assert_eq!(parse_numeral("4294967296", 10, 0xffff_ffff), None);
}

#[test]
fn blank_and_unrecognized_lines() {
    assert!(matches!(read_command(""), Command::Blank));
    assert!(matches!(read_command("   \t "), Command::Blank));
    assert!(matches!(read_command("frobnicate 1"), Command::Unrecognized));
}

#[test]
fn exit_words() {
    assert!(matches!(read_command("exit"), Command::Exit));
    assert!(matches!(read_command("quit"), Command::Exit));
    assert!(matches!(read_command("  q  "), Command::Exit));
}

#[test]
fn listing_commands() {
    assert!(matches!(read_command("controllers"), Command::Controllers));
    assert!(matches!(read_command("controllers_dbg"), Command::ControllersDebug));
    assert!(matches!(read_command("nodes"), Command::Nodes));
    assert!(matches!(read_command("nodes_dbg"), Command::NodesDebug));
    assert!(matches!(read_command("values"), Command::Values { all: false }));
    assert!(matches!(read_command("values all"), Command::Values { all: true }));
    assert!(matches!(read_command("values some"), Command::Values { all: false }));
    assert!(matches!(read_command("values_dbg"), Command::ValuesDebug));
    assert!(matches!(read_command("args a b"), Command::Args));
    assert!(matches!(read_command("write_config"), Command::WriteConfig));
}

#[test]
fn add_node_forms() {
    assert!(matches!(read_command("add-node 1f secure"), Command::AddNode { home_id: 31, secure: true }));
    assert!(matches!(read_command("add-node 1f"), Command::AddNode { home_id: 31, secure: false }));
    assert!(matches!(read_command("add-node 1f other"), Command::AddNode { home_id: 31, secure: false }));
    assert!(matches!(read_command("add-node"), Command::WrongArity(Form::AddNode)));
    assert!(matches!(read_command("add-node 1 secure x"), Command::WrongArity(Form::AddNode)));
    assert!(matches!(read_command("add-node zz"), Command::BadNumber(Form::AddNode)));
}

#[test]
fn remove_node_and_heal_forms() {
    assert!(matches!(read_command("remove-node abc"), Command::RemoveNode { home_id: 0xabc }));
    assert!(matches!(read_command("remove-node"), Command::WrongArity(Form::RemoveNode)));
    assert!(matches!(read_command("remove-node x"), Command::BadNumber(Form::RemoveNode)));
    assert!(matches!(read_command("heal-network 10"), Command::HealNetwork { home_id: 16 }));
    assert!(matches!(read_command("heal-network"), Command::WrongArity(Form::HealNetwork)));
    assert!(matches!(read_command("heal-network q"), Command::BadNumber(Form::HealNetwork)));
    assert!(matches!(read_command("heal-node 10 ff"), Command::HealNode { home_id: 16, node_id: 255 }));
    assert!(matches!(read_command("heal-node 10 100"), Command::BadNumber(Form::HealNode)));
    assert!(matches!(read_command("heal-node 10"), Command::WrongArity(Form::HealNode)));
}

#[test]
fn test_commands_read_counts_in_base_10() {
    assert!(matches!(read_command("test-network 10 10"), Command::TestNetwork { home_id: 16, count: 10 }));
    assert!(matches!(read_command("test-network 10 1a"), Command::BadNumber(Form::TestNetwork)));
    assert!(matches!(read_command("test-network 10"), Command::WrongArity(Form::TestNetwork)));
    assert!(matches!(
        read_command("test-node 10 0a 25"),
        Command::TestNode { home_id: 16, node_id: 10, count: 25 }
    ));
    assert!(matches!(read_command("test-node 10 0a"), Command::WrongArity(Form::TestNode)));
    assert!(matches!(read_command("test-node 10 0a x"), Command::BadNumber(Form::TestNode)));
}

#[test]
fn set_forms() {
    match read_command("set 00000001 0102030405060708 on") {
        Command::SetValue { home_id, id, value } => {
            assert_eq!(home_id, 1);
            assert_eq!(id, 0x0102030405060708);
            assert_eq!(value, "on");
        }
        other => panic!("unexpected {:?}", other),
    }
    assert!(matches!(read_command("set 1 2"), Command::WrongArity(Form::SetValue)));
    assert!(matches!(read_command("set 1 x on"), Command::BadNumber(Form::SetValue)));
}

#[test]
fn parse_command_takes_words() {
    let words: Vec<String> = vec!["heal-node".to_string(), "2".to_string(), "3".to_string()];
    assert!(matches!(parse_command(&words), Command::HealNode { home_id: 2, node_id: 3 }));
    assert!(matches!(parse_command(&Vec::new()), Command::Blank));
}

#[test]
fn set_on_unknown_value_sends_nothing() {
    let state = NetworkState::new();
    let c = read_command("set 00000001 0102030405060708 on");
    assert!(request_for(&c, &state).is_none());
}

#[test]
fn set_on_known_value_sends_the_request() {
    let mut state = NetworkState::new();
    state.upsert_value(ValueRecord {
        home_id: 1,
        id: 0x0102030405060708,
        node_id: 1,
        genre: Genre::User,
        content: "off".to_string(),
    });
    let c = read_command("set 00000001 0102030405060708 on");
    match request_for(&c, &state) {
        Some(Request::SetValue { home_id, id, value }) => {
            assert_eq!(home_id, 1);
            assert_eq!(id, 0x0102030405060708);
            assert_eq!(value, "on");
        }
        other => panic!("unexpected {:?}", other),
    }
}

#[test]
fn driver_requests_for_operations() {
    let state = NetworkState::new();
    assert!(matches!(
        request_for(&read_command("heal-network 5"), &state),
        Some(Request::HealNetwork { home_id: 5, return_routes_only: true })
    ));
    assert!(matches!(
        request_for(&read_command("heal-node 5 6"), &state),
        Some(Request::HealNode { home_id: 5, node_id: 6, return_routes_only: true })
    ));
    assert!(matches!(
        request_for(&read_command("add-node 5 secure"), &state),
        Some(Request::AddNode { home_id: 5, secure: true })
    ));
    assert!(matches!(request_for(&read_command("remove-node 5"), &state), Some(Request::RemoveNode { home_id: 5 })));
    assert!(matches!(
        request_for(&read_command("test-network 5 3"), &state),
        Some(Request::TestNetwork { home_id: 5, count: 3 })
    ));
    assert!(matches!(
        request_for(&read_command("test-node 5 6 3"), &state),
        Some(Request::TestNode { home_id: 5, node_id: 6, count: 3 })
    ));
    assert!(matches!(request_for(&read_command("write_config"), &state), Some(Request::WriteConfigs)));
    assert!(request_for(&read_command("nodes"), &state).is_none());
    assert!(request_for(&read_command("add-node"), &state).is_none());
}
