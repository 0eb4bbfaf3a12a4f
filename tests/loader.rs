use fbp_loader::directive::{capitalize_first_letter, split_input, to_camel_case};
use fbp_loader::error::LoadError;
use fbp_loader::graph::{EdgeSpec, Endpoint, Graph, IipSpec, NodeSpec};
use fbp_loader::inject::{emission, load_graph, plan_iip, resolve_path};
use fbp_loader::network::Network;

fn node(name: &str, sort: &str) -> NodeSpec {
    NodeSpec { name: name.to_string(), sort: sort.to_string() }
}

fn edge(o: &str, op: &str, os: &str, i: &str, ip: &str, is: &str) -> EdgeSpec {
    EdgeSpec {
        o_name: o.to_string(),
        o_port: op.to_string(),
        o_selection: os.to_string(),
        i_name: i.to_string(),
        i_port: ip.to_string(),
        i_selection: is.to_string(),
    }
}

fn iip(comp: &str, port: &str, selection: &str, text: &str) -> IipSpec {
    IipSpec {
        comp: comp.to_string(),
        port: port.to_string(),
        selection: selection.to_string(),
        iip: text.to_string(),
    }
}

fn ep(comp: &str, port: &str, sel: Option<&str>) -> Endpoint {
    Endpoint { comp: comp.to_string(), port: port.to_string(), selection: sel.map(|s| s.to_string()) }
}

fn same(a: &Endpoint, b: &Endpoint) -> bool {
    a.comp == b.comp && a.port == b.port && a.selection == b.selection
}

/// The consumer endpoints that a packet sent at `from` reaches.
fn targets(net: &Network, from: &Endpoint) -> Vec<Endpoint> {
    net.links.iter().filter(|l| same(&l.from, from)).map(|l| l.to.clone()).collect()
}

fn two_nodes() -> Network {
    Network::build(&vec![node("A", "gen"), node("B", "sum")]).unwrap()
}

#[test]
fn split_plain_directive() {
    let (c, v, o) = split_input("foo:bar").unwrap();
    assert_eq!(c, "foo");
    assert_eq!(v, "bar");
    assert_eq!(o, None);
}

#[test]
fn split_directive_with_option() {
    let (c, v, o) = split_input("foo:bar~baz").unwrap();
    assert_eq!(c, "foo");
    assert_eq!(v, "bar");
    assert_eq!(o, Some("baz".to_string()));
}

#[test]
fn split_without_colon_is_malformed() {
    assert!(matches!(split_input("nodelimiter"), Err(LoadError::MalformedIip(_))));
}

#[test]
fn split_at_first_colon_and_first_tilde() {
    let (c, v, o) = split_input("a:b:c~d~e").unwrap();
    assert_eq!(c, "a");
    assert_eq!(v, "b:c");
    assert_eq!(o, Some("d~e".to_string()));
    let (c, v, o) = split_input(":~").unwrap();
    assert_eq!(c, "");
    assert_eq!(v, "");
    assert_eq!(o, Some(String::new()));
}

#[test]
fn split_tilde_before_colon_stays_in_contract() {
    let (c, v, o) = split_input("x~y:z").unwrap();
    assert_eq!(c, "x~y");
    assert_eq!(v, "z");
    assert_eq!(o, None);
}

#[test]
fn camel_case_examples() {
    assert_eq!(to_camel_case("generic_text"), "GenericText");
    assert_eq!(to_camel_case("a"), "A");
    assert_eq!(to_camel_case("already_Camel_ish"), "AlreadyCamelIsh");
}

#[test]
fn camel_case_empty_segments() {
    assert_eq!(to_camel_case(""), "");
    assert_eq!(to_camel_case("a__b_"), "AB");
    assert_eq!(to_camel_case("_x9_1y"), "X91y");
}

#[test]
fn capitalize_examples() {
    assert_eq!(capitalize_first_letter("int"), "Int");
    assert_eq!(capitalize_first_letter(""), "");
    assert_eq!(capitalize_first_letter("Zed"), "Zed");
    assert_eq!(capitalize_first_letter("élan"), "élan");
}

#[test]
fn builder_counts_nodes_and_relay() {
    let nodes = vec![node("A", "gen"), node("B", "sum"), node("C", "sum")];
    let net = Network::build(&nodes).unwrap();
    let names = net.instance_names();
    assert_eq!(names.len(), nodes.len() + 1);
    assert_eq!(names, vec!["A", "B", "C", "exterior"]);
    assert_eq!(net.components[1].sort, "sum");
}

#[test]
fn builder_with_no_nodes_has_only_relay() {
    let net = Network::build(&vec![]).unwrap();
    assert_eq!(net.instance_names(), vec!["exterior"]);
}

#[test]
fn builder_rejects_repeated_name() {
    let r = Network::build(&vec![node("A", "gen"), node("B", "x"), node("A", "sum")]);
    assert!(matches!(r, Err(LoadError::DuplicateNode(_))));
}

#[test]
fn builder_rejects_relay_name() {
    let r = Network::build(&vec![node("exterior", "gen")]);
    assert!(matches!(r, Err(LoadError::DuplicateNode(_))));
}

#[test]
fn plain_edge_delivers_once() {
    let mut net = two_nodes();
    net.connect_edge(&edge("A", "out", "", "B", "in", "")).unwrap();
    let t = targets(&net, &ep("A", "out", None));
    assert_eq!(t.len(), 1);
    assert!(same(&t[0], &ep("B", "in", None)));
    assert!(net.out_slots.is_empty() && net.in_slots.is_empty());
}

#[test]
fn fan_out_edge_delivers_once() {
    let mut net = two_nodes();
    net.connect_edge(&edge("A", "outs", "1", "B", "in", "")).unwrap();
    let t = targets(&net, &ep("A", "outs", Some("1")));
    assert_eq!(t.len(), 1);
    assert!(same(&t[0], &ep("B", "in", None)));
    assert_eq!(net.out_slots.len(), 1);
    assert!(same(&net.out_slots[0], &ep("A", "outs", Some("1"))));
    assert!(net.in_slots.is_empty());
}

#[test]
fn fan_in_edge_delivers_once() {
    let mut net = two_nodes();
    net.connect_edge(&edge("A", "out", "", "B", "ins", "k")).unwrap();
    let t = targets(&net, &ep("A", "out", None));
    assert_eq!(t.len(), 1);
    assert!(same(&t[0], &ep("B", "ins", Some("k"))));
    assert_eq!(net.in_slots.len(), 1);
    assert!(net.out_slots.is_empty());
}

#[test]
fn array_to_array_edge_delivers_once() {
    let mut net = two_nodes();
    net.connect_edge(&edge("A", "outs", "x", "B", "ins", "y")).unwrap();
    let t = targets(&net, &ep("A", "outs", Some("x")));
    assert_eq!(t.len(), 1);
    assert!(same(&t[0], &ep("B", "ins", Some("y"))));
    assert_eq!(net.out_slots.len(), 1);
    assert_eq!(net.in_slots.len(), 1);
}

#[test]
fn rewiring_a_producer_replaces_its_target() {
    let mut net = two_nodes();
    net.connect_edge(&edge("A", "out", "", "B", "in", "")).unwrap();
    net.connect_edge(&edge("A", "out", "", "B", "other", "")).unwrap();
    let t = targets(&net, &ep("A", "out", None));
    assert_eq!(t.len(), 1);
    assert!(same(&t[0], &ep("B", "other", None)));
}

#[test]
fn fan_in_key_registered_twice_is_one_slot() {
    let mut net = Network::build(&vec![node("A", "gen"), node("B", "sum"), node("C", "gen")]).unwrap();
    net.connect_edge(&edge("A", "out", "", "B", "ins", "k")).unwrap();
    net.connect_edge(&edge("C", "out", "", "B", "ins", "k")).unwrap();
    assert_eq!(net.in_slots.len(), 1);
    assert_eq!(targets(&net, &ep("A", "out", None)).len(), 1);
    assert_eq!(targets(&net, &ep("C", "out", None)).len(), 1);
}

#[test]
fn unknown_node_in_edge_changes_nothing() {
    let mut net = two_nodes();
    net.connect_edge(&edge("A", "out", "", "B", "in", "")).unwrap();
    let r = net.connect_edge(&edge("A", "outs", "s", "Z", "ins", "t"));
    assert!(matches!(r, Err(LoadError::UnknownEndpoint(_))));
    assert_eq!(net.links.len(), 1);
    assert!(net.out_slots.is_empty() && net.in_slots.is_empty());
}

#[test]
fn load_stops_at_unknown_endpoint() {
    let nodes = vec![node("A", "gen"), node("B", "sum")];
    let edges = vec![edge("A", "out", "", "B", "in", ""), edge("Q", "out", "", "B", "in", ""), edge("B", "o", "", "A", "i", "")];
    assert!(matches!(Network::load(&nodes, &edges), Err(LoadError::UnknownEndpoint(_))));
}

#[test]
fn load_reports_duplicate_before_edges() {
    let nodes = vec![node("A", "gen"), node("A", "sum")];
    let edges = vec![edge("Q", "out", "", "B", "in", "")];
    assert!(matches!(Network::load(&nodes, &edges), Err(LoadError::DuplicateNode(_))));
}

#[test]
fn resolve_path_formats_store_entry() {
    assert_eq!(resolve_path("abc-int").unwrap(), "/nix/store/abc-int/src/contract.capnp");
    assert!(matches!(resolve_path(""), Err(LoadError::MissingDelimiter(_))));
}

#[test]
fn plan_errors() {
    let mut net = two_nodes();
    net.connect_edge(&edge("A", "out", "", "B", "ins", "k")).unwrap();
    assert!(matches!(plan_iip(&net, &iip("A", "p", "", "novalue")), Err(LoadError::MalformedIip(_))));
    assert!(matches!(plan_iip(&net, &iip("A", "p", "", ":42")), Err(LoadError::MissingDelimiter(_))));
    assert!(matches!(plan_iip(&net, &iip("Z", "p", "", "int:42")), Err(LoadError::UnknownEndpoint(_))));
    assert!(matches!(plan_iip(&net, &iip("B", "ins", "j", "int:42")), Err(LoadError::UnknownEndpoint(_))));
    let p = plan_iip(&net, &iip("B", "ins", "k", "generic_text:hi~add")).unwrap();
    assert!(same(&p.target, &ep("B", "ins", Some("k"))));
    assert_eq!(p.contract, "generic_text");
    assert_eq!(p.identifier, "GenericText");
    assert_eq!(p.value, "hi");
    assert_eq!(p.option, Some("add".to_string()));
}

#[test]
fn relay_binding() {
    let mut net = two_nodes();
    assert!(matches!(net.bind_exterior(&ep("Z", "in", None)), Err(LoadError::UnknownEndpoint(_))));
    assert!(net.exterior.is_none());
    assert!(matches!(net.bind_exterior(&ep("B", "ins", Some("k"))), Err(LoadError::UnknownEndpoint(_))));
    net.bind_exterior(&ep("A", "seed", None)).unwrap();
    assert!(same(net.exterior.as_ref().unwrap(), &ep("A", "seed", None)));
}

#[test]
fn end_to_end_load() {
    let g = Graph {
        nodes: vec![node("A", "gen"), node("B", "sum")],
        edges: vec![edge("A", "out", "", "B", "in", "")],
        iips: vec![iip("A", "seed", "", "int:42")],
    };
    let loaded = load_graph(&g).unwrap();
    let t = targets(&loaded.network, &ep("A", "out", None));
    assert_eq!(t.len(), 1);
    assert!(same(&t[0], &ep("B", "in", None)));
    assert_eq!(loaded.plans.len(), 1);
    let plan = &loaded.plans[0];
    assert!(same(&plan.target, &ep("A", "seed", None)));
    let m = emission(plan, "hash-int").unwrap();
    assert_eq!(m.path, "/nix/store/hash-int/src/contract.capnp");
    assert_eq!(m.contract, "Int");
    assert_eq!(m.value, "42");
    assert!(plan.option.is_none());
    assert!(matches!(emission(plan, ""), Err(LoadError::MissingDelimiter(_))));
}

#[test]
fn load_graph_rejects_bad_iip() {
    let g = Graph {
        nodes: vec![node("A", "gen")],
        edges: vec![],
        iips: vec![iip("A", "seed", "", "int:1"), iip("A", "seed", "", "broken")],
    };
    assert!(matches!(load_graph(&g), Err(LoadError::MalformedIip(_))));
}

#[test]
fn error_message_is_kept() {
    let e = Network::build(&vec![node("A", "x"), node("A", "y")]).unwrap_err();
    assert_eq!(e.message(), "duplicate node A");
}
