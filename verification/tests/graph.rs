use kennedy_orchestration::arguments::{
    canonical_node_ids, nonempty_string, positive_integer, resource_id, resource_id_array,
    string_value,
};
use kennedy_orchestration::ids::{canonical_id, parse_resource_id, Readings};
use kennedy_orchestration::json::Json;
use kennedy_orchestration::order::sorted_distinct;
use kennedy_orchestration::plan::{KwebPlan, LoadedNodes, NodeTable, PlannedNode, StagedGraph};
use kennedy_orchestration::snapshot::{directly_loaded, stored_plan, RecordedCall};

const A: &str = "AAAAAAAB";
const B: &str = "AAAAAAAC";
const C: &str = "AAAAAAAD";

fn convert(value: serde_json::Value) -> Json {
    match value {
        serde_json::Value::Null => Json::Null,
        serde_json::Value::Bool(flag) => Json::Bool(flag),
        serde_json::Value::Number(number) => Json::Integer(number.as_i64().unwrap() as i128),
        serde_json::Value::String(text) => Json::Text(text),
        serde_json::Value::Array(items) => Json::Array(items.into_iter().map(convert).collect()),
        serde_json::Value::Object(members) => {
            Json::Object(members.into_iter().map(|(key, value)| (key, convert(value))).collect())
        }
    }
}

fn json(text: &str) -> Json {
    convert(serde_json::from_str(text).unwrap())
}

fn texts(items: &[&str]) -> Vec<String> {
    items.iter().map(|item| item.to_string()).collect()
}

fn node(name: &str, fixed: &[&str], recent: &[&str]) -> PlannedNode {
    PlannedNode {
        short_name: name.into(),
        short_description: "short".into(),
        long_description: "long".into(),
        owner: "unowned".into(),
        fixed_connections: texts(fixed),
        recent_connections: texts(recent),
        objects: Vec::new(),
        attach_session_archive: true,
    }
}

fn pairs(texts: &[(&str, &str)]) -> Vec<(String, String)> {
    texts.iter().map(|(text, read)| (text.to_string(), read.to_string())).collect()
}

/// Readings in which these texts name nodes and these are names of files, as written.
fn readings(nodes: &[&str], names: &[&str]) -> Readings {
    let same = |texts: &[&str]| {
        pairs(&texts.iter().map(|text| (*text, *text)).collect::<Vec<_>>())
    };
    Readings {
        nodes: same(nodes),
        objects: vec![],
        refused: vec![],
        file_names: same(names),
    }
}

fn graph() -> StagedGraph {
    let mut nodes = NodeTable::new();
    nodes.insert(A, node("first", &[B], &[C]));
    nodes.insert(B, node("second", &[], &[]));
    nodes.insert(C, node("third", &[], &[A]));
    StagedGraph {
        plan: KwebPlan::new(),
        loaded: LoadedNodes {
            nodes,
            full_ids: texts(&[A, B, C]),
            readings: readings(&[A, B, C, "AAAAAAAE", "AAAAAAAF"], &[]),
        },
    }
}

fn recent(graph: &StagedGraph, id: &str) -> Vec<String> {
    graph.node_data(id).unwrap().recent_connections
}

fn fixed(graph: &StagedGraph, id: &str) -> Vec<String> {
    graph.node_data(id).unwrap().fixed_connections
}

#[test]
fn connected_nodes_put_each_other_first_and_keep_the_rest() {
    let mut graph = graph();
    let report = graph
        .connect_nodes(&json(r#"{"identifiers":["AAAAAAAB","AAAAAAAC"]}"#))
        .unwrap();
    assert_eq!(report, "Staged connections among nodes AAAAAAAB, AAAAAAAC.");
    assert_eq!(recent(&graph, A), texts(&[B, C]));
    assert_eq!(recent(&graph, B), texts(&[A]));
    assert_eq!(recent(&graph, C), texts(&[A]));
    assert_eq!(graph.plan.updates.ids(), texts(&[A, B]));
}

#[test]
fn connections_need_two_different_loaded_nodes() {
    let mut graph = graph();
    let refused = |graph: &mut StagedGraph, arguments: &str| {
        graph.connect_nodes(&json(arguments)).unwrap_err().message
    };
    assert_eq!(
        refused(&mut graph, r#"{"identifiers":["AAAAAAAB"]}"#),
        "identifiers has invalid length or duplicate identifiers"
    );
    assert_eq!(
        refused(&mut graph, r#"{"identifiers":["AAAAAAAB","AAAAAAAB"]}"#),
        "identifiers has invalid length or duplicate identifiers"
    );
    assert_eq!(
        refused(&mut graph, r#"{"identifiers":["AAAAAAAB","AAAAAAAE"]}"#),
        "node AAAAAAAE is not loaded; call LoadNodes first"
    );
    assert_eq!(
        refused(&mut graph, r#"{"identifiers":["AAAAAAAB","pending:4"]}"#),
        "pending node pending:4 is not part of this session"
    );
    assert_eq!(refused(&mut graph, "{}"), "expected exactly: identifiers");
    assert!(graph.plan.updates.entries.is_empty());
}

#[test]
fn a_fanout_moves_from_its_parent_to_the_aggregator() {
    let mut graph = graph();
    let report = graph
        .consolidate_fanout(&json(
            r#"{"parentIdentifier":"AAAAAAAB","fanoutIdentifiers":["AAAAAAAD"],"aggregatorIdentifier":"AAAAAAAC"}"#,
        ))
        .unwrap();
    assert_eq!(
        report,
        "Staged fanout consolidation from node AAAAAAAB into node AAAAAAAC."
    );
    assert_eq!(recent(&graph, A), texts(&[B]));
    assert_eq!(recent(&graph, B), texts(&[C]));
}

#[test]
fn fixed_slots_are_filled_replaced_and_cleared() {
    let mut graph = graph();
    let set = |graph: &mut StagedGraph, child: &str, slot: u64| {
        let arguments = Json::object()
            .with("parentIdentifier", Json::text(A))
            .with("childIdentifier", Json::text(child))
            .with("slot", Json::unsigned(slot));
        graph.set_fixed_connection(&arguments)
    };
    assert_eq!(
        set(&mut graph, C, 2).unwrap(),
        "Staged node AAAAAAAD in fixed slot 2 of node AAAAAAAB."
    );
    assert_eq!(fixed(&graph, A), texts(&[B, C]));
    assert_eq!(
        set(&mut graph, C, 4).unwrap_err().message,
        "fixed connection positions must remain contiguous"
    );
    assert_eq!(set(&mut graph, A, 1).unwrap_err().message, "a node cannot connect to itself");
    set(&mut graph, C, 1).unwrap();
    assert_eq!(fixed(&graph, A), texts(&[C]));
    assert_eq!(
        set(&mut graph, "blank", 1).unwrap(),
        "Cleared fixed slot 1 of node AAAAAAAB in the staged plan."
    );
    assert!(fixed(&graph, A).is_empty());
    assert_eq!(set(&mut graph, C, 0).unwrap_err().message, "slot must be a positive integer");
}

#[test]
fn created_nodes_are_linked_from_their_parents_and_can_be_updated() {
    let mut graph = graph();
    let draft = graph
        .draft_node(&json(
            r#"{"parentIdentifiers":["AAAAAAAB"],"ownerIdentifier":"self","shortName":"New node","shortDescription":"d","longDescription":"l"}"#,
        ))
        .unwrap();
    assert_eq!(graph.create_node(draft, "pending:7").unwrap(), "Created staged node pending:7.");
    assert_eq!(recent(&graph, A), texts(&["pending:7", C]));
    let created = graph.plan.created("pending:7").unwrap();
    assert_eq!(created.short_name, "New node");
    assert_eq!(created.owner, "self");
    assert_eq!(created.recent_connections, texts(&[A]));
    assert!(graph.ensure_known_node("pending:7").is_ok());
    let report = graph
        .update_node(&json(
            r#"{"identifier":"pending:7","ownerIdentifier":"unowned","newShortName":"Renamed","newShortDescription":"e","newLongDescription":"m"}"#,
        ))
        .unwrap();
    assert_eq!(report, "Staged the update to node pending:7.");
    assert_eq!(graph.plan.creates.len(), 1);
    assert_eq!(graph.plan.created_place("pending:7"), Some(0));
    assert_eq!(graph.node_data("pending:7").unwrap().short_name, "Renamed");
    assert!(graph.plan.check_commit(&readings(&[A], &[])).is_ok());
}

#[test]
fn staged_data_is_what_is_read_back() {
    let mut graph = graph();
    graph.put_node_data(B, node("changed", &[], &[A])).unwrap();
    assert_eq!(graph.node_data(B).unwrap().short_name, "changed");
    assert_eq!(graph.node_data(A).unwrap().short_name, "first");
    assert_eq!(
        graph.node_data("AAAAAAAF").unwrap_err().message,
        "Kweb context does not contain node AAAAAAAF"
    );
    assert!(graph.put_node_data("not an id", node("x", &[], &[])).is_err());
}

#[test]
fn identifiers_go_by_what_the_stores_read() {
    let read = Readings {
        nodes: pairs(&[("a", "old"), (A, A), ("a", A)]),
        objects: pairs(&[("o", "gAECAwQF")]),
        refused: pairs(&[("pending:0", "zero is reserved")]),
        file_names: pairs(&[("../x", "x"), ("x", "x")]),
    };
    assert_eq!(read.node("a"), Some(A));
    assert_eq!(read.node("o"), None);
    assert_eq!(read.object("o"), Some("gAECAwQF"));
    assert_eq!(read.file_name("../x"), Some("x"));
    assert_eq!(read.file_name("y"), None);
    assert_eq!(canonical_id("a", &read).unwrap(), "a");
    assert_eq!(
        canonical_id("o", &read).unwrap_err().message,
        "\"o\" is not a canonical node ID"
    );
    assert_eq!(parse_resource_id("pending:12", &read).unwrap(), "pending:12");
    assert_eq!(parse_resource_id("pending:0", &read).unwrap_err().message, "zero is reserved");
    assert_eq!(parse_resource_id("unowned", &read).unwrap(), "unowned");
    assert!(parse_resource_id("pending", &read).is_err());
    assert!(Readings::new().node(A).is_none());
}

#[test]
fn nodes_without_contents_cannot_be_edited() {
    const D: &str = "AAAAAAAE";
    let mut graph = graph();
    graph.loaded.full_ids.push(D.to_owned());
    let missing = "Kweb context does not contain node AAAAAAAE";
    let connect = json(r#"{"identifiers":["AAAAAAAB","AAAAAAAE","AAAAAAAC"]}"#);
    assert_eq!(graph.connect_nodes(&connect).unwrap_err().message, missing);
    assert_eq!(recent(&graph, A), texts(&[D, B, C]));
    assert!(recent(&graph, B).is_empty());
    let consolidate = json(
        r#"{"parentIdentifier":"AAAAAAAD","aggregatorIdentifier":"AAAAAAAE","fanoutIdentifiers":["AAAAAAAB"]}"#,
    );
    assert_eq!(graph.consolidate_fanout(&consolidate).unwrap_err().message, missing);
    assert_eq!(recent(&graph, C), texts(&[A]));
    let fix = json(r#"{"parentIdentifier":"AAAAAAAE","childIdentifier":"blank","slot":1}"#);
    assert_eq!(graph.set_fixed_connection(&fix).unwrap_err().message, missing);
    let update = json(
        r#"{"identifier":"AAAAAAAE","ownerIdentifier":"self","newShortName":"Renamed","newShortDescription":"s","newLongDescription":"l"}"#,
    );
    assert_eq!(graph.update_node(&update).unwrap_err().message, missing);
    assert_eq!(graph.plan.updates.entries.len(), 1);
}

#[test]
fn arguments_name_what_they_lack() {
    let arguments = json(r#"{"text":" x ","empty":" ","number":3,"ids":["AAAAAAAB"]}"#);
    assert_eq!(string_value(&arguments, "text").unwrap(), " x ");
    assert_eq!(string_value(&arguments, "number").unwrap_err().message, "number must be a string");
    assert!(nonempty_string(&arguments, "empty", 10).is_err());
    assert_eq!(positive_integer(&arguments, "number").unwrap(), 3);
    assert_eq!(
        positive_integer(&arguments, "text").unwrap_err().message,
        "text must be a positive integer"
    );
    let read = readings(&[A], &[]);
    assert_eq!(
        resource_id(&arguments, "missing", &read).unwrap_err().message,
        "missing must be a node identifier"
    );
    assert_eq!(resource_id_array(&arguments, "ids", 1, &read).unwrap(), texts(&[A]));
    assert_eq!(
        resource_id_array(&arguments, "text", 1, &read).unwrap_err().message,
        "text must be an array"
    );
    assert_eq!(canonical_node_ids(&arguments, "ids", &read).unwrap(), texts(&[A]));
}

#[test]
fn lists_are_put_in_order_without_repeats() {
    assert_eq!(sorted_distinct(&texts(&["b", "a", "b", "B"])), texts(&["B", "a", "b"]));
}

#[test]
fn restored_sessions_know_their_plan_and_their_nodes() {
    let state = json(r#"{"kwebPlan":{"creates":[]}}"#);
    let operations = vec![json(r#"{"plan":{"n":1}}"#), json(r#"{"plan":{"n":2}}"#)];
    assert!(stored_plan(Some(&state), &operations).unwrap().same(&json(r#"{"creates":[]}"#)));
    assert!(stored_plan(None, &operations).unwrap().same(&json(r#"{"n":2}"#)));
    assert!(stored_plan(None, &Vec::new()).is_none());

    let call = |name: &str, arguments: &str| RecordedCall {
        tool_name: name.into(),
        arguments: json(arguments),
    };
    let calls = vec![
        call("LoadNodes", r#"{"identifiers":["x","y"]}"#),
        call("LoadNode", r#"{"identifier":"z"}"#),
        call("WebSearch", r#"{"identifier":"w"}"#),
    ];
    assert_eq!(directly_loaded(&calls, &texts(&["root"])), texts(&["x", "y", "z"]));
    assert_eq!(directly_loaded(&Vec::new(), &texts(&["root"])), texts(&["root"]));
}
