use acolors::data::{GroupData, NodeData, ValueData};
use acolors::manager::{
    accept_reply, answers, signal_after, ProfileReply, ProfileRequest, ProfileSignal, ProfileTask, TableAction,
    TableEvent,
};
use acolors::profile::{Group, GroupList, HasTable, Node, RuntimeValue, RuntimeWrite};

fn value(id: i32, name: &str, v: &str) -> ValueData {
    ValueData { id, name: name.to_string(), value_type: 2, value: v.to_string() }
}

fn node(name: &str) -> NodeData {
    let mut n = NodeData::default();
    n.name = name.to_string();
    n.group_id = 99;
    n
}

#[test]
fn runtime_get_after_set_existing() {
    let mut rt = RuntimeValue::from_rows(vec![value(3, "CURRENT_NODE_ID", "1"), value(4, "OTHER", "x")]);
    assert_eq!(rt.get_by_key("CURRENT_NODE_ID"), Some("1".to_string()));
    match rt.set_by_key("CURRENT_NODE_ID", "5".to_string()) {
        RuntimeWrite::Update { id, data } => {
            assert_eq!(id, 3);
            assert_eq!(data.value, "5");
        }
        RuntimeWrite::Insert { .. } => panic!("expected an update"),
    }
    assert_eq!(rt.get_by_key("CURRENT_NODE_ID"), Some("5".to_string()));
    assert_eq!(rt.get_by_key("OTHER"), Some("x".to_string()));
}

#[test]
fn runtime_set_new_key_inserts() {
    let mut rt = RuntimeValue::new();
    let w = rt.set_by_key("DEFAULT_NODE_ID", "7".to_string());
    assert_eq!(rt.get_by_key("DEFAULT_NODE_ID"), None);
    match w {
        RuntimeWrite::Insert { data } => {
            assert_eq!(data.id, 0);
            assert_eq!(data.value_type, 2);
            assert_eq!(data.name, "DEFAULT_NODE_ID");
            rt.insert_value(data);
        }
        RuntimeWrite::Update { .. } => panic!("expected an insert"),
    }
    assert_eq!(rt.get_by_key("DEFAULT_NODE_ID"), Some("7".to_string()));
}

#[test]
fn runtime_rows_last_wins() {
    let rt = RuntimeValue::from_rows(vec![value(1, "k", "a"), value(2, "k", "b")]);
    assert_eq!(rt.get_by_key("k"), Some("b".to_string()));
    assert_eq!(rt.get_by_key("missing"), None);
}

#[test]
fn group_append_record_stamps() {
    let mut g = GroupData::default();
    g.id = 4;
    g.name = "subs".to_string();
    let group = Group::new(g);
    let r = group.append_record(node("n"), 1637666014);
    assert_eq!(r.group_id, 4);
    assert_eq!(r.group_name, "subs");
    assert_eq!(r.routing_name, "default_routings");
    assert_eq!(r.routing_id, 0);
    assert_eq!(r.create_at, 1637666014);
    assert_eq!(r.modified_at, 1637666014);
    let s = group.set_record(node("m"), 1637666614);
    assert_eq!(s.group_id, 4);
    assert_eq!(s.modified_at, 1637666614);
    assert_eq!(s.create_at, 0);
    assert_eq!(group.data().name, "subs");
    let back = Node::new(node("k")).to_data();
    assert_eq!(back.name, "k");
}

#[test]
fn group_list_records() {
    let list = GroupList::new();
    assert_eq!(list.default_group().to_data(), GroupData::default());
    let mut g = GroupData::default();
    g.name = "test group".to_string();
    let a = list.append_record(g.clone(), 1637666014);
    assert_eq!(a.create_at, 1637666014);
    assert_eq!(a.modified_at, 1637666014);
    let s = list.set_record(g, 1637666614);
    assert_eq!(s.create_at, 0);
    assert_eq!(s.modified_at, 1637666614);
    assert_eq!(Group::has_table_name(), "nodes");
    assert_eq!(GroupList::has_table_name(), "groups");
    assert_eq!(RuntimeValue::has_table_name(), "runtime");
}

#[test]
fn update_group_task_appends_in_order() {
    let req = ProfileRequest::UpdateGroup(2, vec![node("a"), node("b")]);
    let (mut task, first) = ProfileTask::start(req, 100);
    assert!(matches!(first, TableAction::QueryGroup(2)));
    let a = task.on_event(TableEvent::Group(GroupData::default()));
    assert!(matches!(a, TableAction::RemoveAllNodes(2)));
    match task.on_event(TableEvent::Done) {
        TableAction::AppendNode(2, n) => {
            assert_eq!(n.name, "a");
            assert_eq!(n.group_id, 2);
            assert_eq!(n.create_at, 100);
            assert_eq!(n.modified_at, 100);
        }
        _ => panic!("expected the first node"),
    }
    match task.on_event(TableEvent::Done) {
        TableAction::AppendNode(2, n) => assert_eq!(n.name, "b"),
        _ => panic!("expected the second node"),
    }
    assert!(matches!(task.on_event(TableEvent::Done), TableAction::Reply(ProfileReply::UpdateGroup)));
}

#[test]
fn failed_operation_ends_task_with_error() {
    let (mut task, first) = ProfileTask::start(ProfileRequest::CountNodes(5), 0);
    assert!(matches!(first, TableAction::QueryGroup(5)));
    match task.on_event(TableEvent::Failed("no such group".to_string())) {
        TableAction::Reply(ProfileReply::Error(e)) => assert_eq!(e, "no such group"),
        _ => panic!("expected an error reply"),
    }
}

#[test]
fn count_nodes_task_passes_count() {
    let (mut task, _) = ProfileTask::start(ProfileRequest::CountNodes(5), 0);
    assert!(matches!(task.on_event(TableEvent::Group(GroupData::default())), TableAction::CountNodes(5)));
    assert!(matches!(task.on_event(TableEvent::Count(14)), TableAction::Reply(ProfileReply::CountNodes(14))));
}

#[test]
fn replies_are_accepted_or_errors() {
    let req = ProfileRequest::CountGroups;
    assert!(answers(&req, &ProfileReply::CountGroups(3)));
    assert!(!answers(&req, &ProfileReply::AppendGroup));
    assert!(matches!(accept_reply(&req, ProfileReply::CountGroups(3)), Ok(ProfileReply::CountGroups(3))));
    assert_eq!(accept_reply(&req, ProfileReply::Error("e".to_string())).err(), Some("e".to_string()));
    assert_eq!(signal_after(&ProfileRequest::AppendNode(3, node("x"))), Some(ProfileSignal::AppendNode(3)));
    assert_eq!(signal_after(&ProfileRequest::ListAllGroups), None);
}

#[test]
fn whole_run_gives_one_reply() {
    let (mut task, first) = ProfileTask::start(ProfileRequest::AppendNode(1, node("x")), 0);
    assert!(matches!(first, TableAction::QueryGroup(1)));
    let second = task.on_event(TableEvent::Group(GroupData::default()));
    assert!(matches!(second, TableAction::AppendNode(1, _)));
    assert!(matches!(task.on_event(TableEvent::Done), TableAction::Reply(ProfileReply::AppendNode)));
}
