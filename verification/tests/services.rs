use acolors::json::{JsonNumber, JsonValue};
use acolors::server::{
    config_file_text, is_v2ray, join_trimmed_lines, node_id_text, nodes_from_content, parse_node_id, proxy_url,
    read_config, startup_node_ids, stat_name, AColoRSGreeter, AColoRSTools, CoreChoice, CoreEntry, CoreError,
    HttpInbound, AColoRSCore, http_address,
};

#[test]
fn proxy_url_forms() {
    let http = Some(HttpInbound { listen: "127.0.0.1".to_string(), port: 4445 });
    assert_eq!(proxy_url(true, &http), "http://127.0.0.1:4445");
    assert_eq!(proxy_url(false, &http), "");
    assert_eq!(proxy_url(true, &None), "");
    assert_eq!(http_address("0.0.0.0", 19198), "http://0.0.0.0:19198");
}

#[test]
fn fetched_content_is_trimmed_and_joined() {
    assert_eq!(join_trimmed_lines("  abc \r\n de\n\nf  "), "abcdef");
    let content = format!("{}\n", base64::encode("trojan://p@h:1#one"));
    let (first, second) = content.split_at(6);
    let split = format!("{}\n {}", first, second);
    let nodes = nodes_from_content(&split).unwrap().unwrap();
    assert_eq!(nodes.len(), 1);
    assert_eq!(nodes[0].name, "one");
}

#[test]
fn traffic_stat_names() {
    assert_eq!(stat_name("PROXY", "uplink"), "outbound>>>PROXY>>>traffic>>>uplink");
}

#[test]
fn node_ids() {
    assert_eq!(parse_node_id("42"), Some(42));
    assert_eq!(parse_node_id("-7"), Some(-7));
    assert_eq!(parse_node_id("x"), None);
    assert_eq!(node_id_text(-15), "-15");
    assert_eq!(node_id_text(0), "0");
    assert_eq!(startup_node_ids(&Some("3".to_string()), &Some("9".to_string())), vec![3, 9]);
    assert_eq!(startup_node_ids(&Some("bad".to_string()), &Some("9".to_string())), vec![9]);
    assert_eq!(startup_node_ids(&None, &None), Vec::<i64>::new());
}

#[test]
fn core_registry_choice() {
    let mut reg = AColoRSCore::new();
    let listed = vec![
        CoreEntry { tag: "main".to_string(), name: "V2Ray".to_string(), path: "/usr/bin/v2ray".to_string() },
        CoreEntry { tag: "alt".to_string(), name: "xray".to_string(), path: "/usr/bin/xray".to_string() },
    ];
    reg.add_cores(&listed, "v2ray", "/opt/v2ray");
    assert_eq!(reg.list_all_tags(), vec!["main".to_string(), "alt".to_string(), "v2ray".to_string()]);
    match reg.set_core("main") {
        Ok(CoreChoice::V2Ray { path }) => assert_eq!(path, "/usr/bin/v2ray"),
        _ => panic!("expected V2Ray"),
    }
    match reg.set_core("alt") {
        Ok(CoreChoice::External { tag, name, path }) => {
            assert_eq!(tag, "alt");
            assert_eq!(name, "xray");
            assert_eq!(path, "/usr/bin/xray");
        }
        _ => panic!("expected an external core"),
    }
    assert_eq!(reg.set_core("none").err(), Some(CoreError::CoreNotAdded));
    assert_eq!(reg.get_core_tag(), "none");
    reg.add_core("xray", "main", "/other");
    assert_eq!(reg.list_all_tags().len(), 3);
    assert!(matches!(reg.set_core("main"), Ok(CoreChoice::External { .. })));
    assert!(is_v2ray("V2RAY"));
    assert!(!is_v2ray("v2rayx"));
}

fn s(t: &str) -> JsonValue {
    JsonValue::String(t.to_string())
}

#[test]
fn config_with_new_inbounds() {
    let config = read_config("").unwrap();
    let inbounds = JsonValue::Object(vec![(
        "http".to_string(),
        JsonValue::Object(vec![
            ("enable".to_string(), JsonValue::Bool(true)),
            ("listen".to_string(), s("0.0.0.0")),
            ("port".to_string(), JsonValue::Number(JsonNumber::PosInt(8080))),
            ("udp_enable".to_string(), JsonValue::Bool(false)),
        ]),
    )]);
    let text = config_file_text(config, inbounds);
    assert_eq!(
        text,
        r#"{
  "inbounds": {
    "http": {
      "enable": true,
      "listen": "0.0.0.0",
      "port": 8080
    }
  }
}"#
    );
    let other = JsonValue::Object(vec![("cores".to_string(), JsonValue::Array(vec![s("a")]))]);
    let text = config_file_text(other, JsonValue::Null);
    assert_eq!(text, "{\n  \"cores\": [\n    \"a\"\n  ]\n}");
    assert!(read_config("{").is_err());
}

#[test]
fn greeter_and_tools() {
    let g = AColoRSGreeter::new();
    assert_eq!(g.ping_message("client"), "Received Ping from client.");
    let _tools = AColoRSTools::new();
}

use acolors::data::{GroupData, NodeData};
use acolors::server::{
    set_config, traffic_plan, AColorSignal, ApiEndpoint, GroupUpdate, StartupSelection, StartupStep, TrafficPlan,
    UpdateStep,
};

fn named(name: &str) -> NodeData {
    let mut n = NodeData::default();
    n.name = name.to_string();
    n
}

#[test]
fn startup_selects_first_existing_node() {
    let (mut sel, step) = StartupSelection::start(&Some("3".to_string()), &Some("9".to_string()));
    assert!(matches!(step, StartupStep::Query(3)));
    assert!(matches!(sel.on_lookup(None), StartupStep::Query(9)));
    match sel.on_lookup(Some(named("nine"))) {
        StartupStep::Selected(c) => {
            assert_eq!(c.node.name, "nine");
            assert_eq!(c.runtime_key, "CURRENT_NODE_ID");
            assert_eq!(c.runtime_value, "9");
            assert_eq!(
                c.signals,
                vec![AColorSignal::CoreConfigChanged, AColorSignal::RuntimeValueChanged("CURRENT_NODE_ID".to_string())]
            );
        }
        _ => panic!("expected a selection"),
    }
}

#[test]
fn startup_without_existing_node_selects_none() {
    let (mut sel, step) = StartupSelection::start(&Some("x".to_string()), &Some("4".to_string()));
    assert!(matches!(step, StartupStep::Query(4)));
    assert!(matches!(sel.on_lookup(None), StartupStep::NoneSelected));
    let (_, step) = StartupSelection::start(&None, &None);
    assert!(matches!(step, StartupStep::NoneSelected));
}

#[test]
fn set_config_rewrites_current_id() {
    let c = set_config(-12, named("n"));
    assert_eq!(c.runtime_value, "-12");
}

#[test]
fn group_update_skips_failed_inserts_and_signals() {
    let mut g = GroupData::default();
    g.id = 6;
    g.name = "subs".to_string();
    let (mut up, step) = GroupUpdate::start(g, vec![named("a"), named("b")], 50);
    assert!(matches!(step, UpdateStep::RemoveAllNodes(6)));
    match up.on_emptied(Ok(())) {
        UpdateStep::Append { signal, node } => {
            assert_eq!(signal, Some(AColorSignal::EmptyGroup(6)));
            assert_eq!(node.name, "a");
            assert_eq!(node.group_id, 6);
            assert_eq!(node.group_name, "subs");
            assert_eq!(node.create_at, 50);
        }
        _ => panic!("expected the first node"),
    }
    match up.on_appended(false) {
        UpdateStep::Append { signal, node } => {
            assert_eq!(signal, None);
            assert_eq!(node.name, "b");
        }
        _ => panic!("expected the second node"),
    }
    match up.on_appended(true) {
        UpdateStep::Finish { signals } => assert_eq!(signals, vec![AColorSignal::UpdateGroup(6)]),
        _ => panic!("expected the end"),
    }
}

#[test]
fn group_update_edge_cases() {
    let (mut up, _) = GroupUpdate::start(GroupData::default(), vec![], 0);
    match up.on_emptied(Ok(())) {
        UpdateStep::Finish { signals } => {
            assert_eq!(signals, vec![AColorSignal::EmptyGroup(0), AColorSignal::UpdateGroup(0)])
        }
        _ => panic!("expected the end"),
    }
    let (mut up, _) = GroupUpdate::start(GroupData::default(), vec![named("a")], 0);
    assert!(matches!(up.on_emptied(Err("locked".to_string())), UpdateStep::Failed(m) if m == "locked"));
}

#[test]
fn traffic_sender_started_once() {
    let api = Some(ApiEndpoint { listen: "127.0.0.1".to_string(), port: 11451 });
    match traffic_plan(false, &api) {
        TrafficPlan::Start { url, tag } => {
            assert_eq!(url, "http://127.0.0.1:11451");
            assert_eq!(tag, "PROXY");
        }
        _ => panic!("expected a start"),
    }
    assert!(matches!(traffic_plan(true, &api), TrafficPlan::Subscribe));
    assert!(matches!(traffic_plan(false, &None), TrafficPlan::Unavailable));
}
