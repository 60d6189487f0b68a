use rustplan::yaml::{
    deep_merge, empty_mapping, get_by_path, merge_documents, network_section, node_equal,
    render_scalar, set_by_path, split_path, Node,
};

fn s(t: &str) -> String {
    t.to_string()
}

fn map(entries: Vec<(&str, Node)>) -> Node {
    Node::Mapping(entries.into_iter().map(|(k, v)| (Node::Str(s(k)), v)).collect())
}

fn keys(n: &Node) -> Vec<String> {
    match n {
        Node::Mapping(entries) => entries
            .iter()
            .map(|(k, _)| match k {
                Node::Str(t) => t.clone(),
                _ => s("?"),
            })
            .collect(),
        _ => vec![],
    }
}

#[test]
fn merge_keeps_earlier_keys_and_later_values() {
    let mut dst = map(vec![("a", Node::PosInt(1)), ("b", map(vec![("x", Node::Bool(true))]))]);
    let src = map(vec![
        ("b", map(vec![("y", Node::Bool(false))])),
        ("c", Node::Str(s("new"))),
        ("a", Node::Sequence(vec![Node::PosInt(5)])),
    ]);
    deep_merge(&mut dst, src);
    assert_eq!(keys(&dst), vec!["a", "b", "c"]);
    assert!(matches!(get_by_path(&dst, "a"), Ok(Node::Sequence(v)) if v.len() == 1));
    assert!(matches!(get_by_path(&dst, "b.x"), Ok(Node::Bool(true))));
    assert!(matches!(get_by_path(&dst, "b.y"), Ok(Node::Bool(false))));
}

#[test]
fn merge_replaces_non_mappings() {
    let mut dst = map(vec![("a", Node::PosInt(1))]);
    deep_merge(&mut dst, Node::Str(s("scalar")));
    assert!(matches!(dst, Node::Str(ref t) if t == "scalar"));
}

#[test]
fn merging_documents_starts_from_an_empty_mapping() {
    let merged = merge_documents(vec![]);
    assert!(matches!(merged, Node::Mapping(ref e) if e.is_empty()));
    let doc = map(vec![("network", map(vec![("version", Node::PosInt(2))]))]);
    let merged = merge_documents(vec![doc]);
    assert!(matches!(get_by_path(&merged, "network.version"), Ok(Node::PosInt(2))));
}

#[test]
fn network_section_looks_through_tags() {
    let doc = Node::Tagged(s("custom"), Box::new(map(vec![("network", Node::PosInt(3))])));
    assert!(matches!(network_section(doc), Node::PosInt(3)));
    assert!(matches!(network_section(Node::Null), Node::Mapping(ref e) if e.is_empty()));
    assert!(matches!(network_section(map(vec![])), Node::Mapping(ref e) if e.is_empty()));
}

#[test]
fn get_after_set_gives_the_value() {
    let mut doc = empty_mapping();
    set_by_path(&mut doc, "network.bridges.br0.stp", Node::Bool(true)).unwrap();
    assert!(matches!(get_by_path(&doc, "network.bridges.br0.stp"), Ok(Node::Bool(true))));
    set_by_path(&mut doc, "network.bridges.br0.stp", Node::Null).unwrap();
    let err = get_by_path(&doc, "network.bridges.br0.stp").err().unwrap();
    assert_eq!(err.message(), "key 'stp' not found");
}

#[test]
fn set_on_a_scalar_fails_and_keeps_the_document() {
    let mut doc = map(vec![("a", Node::PosInt(1))]);
    let err = set_by_path(&mut doc, "a.b.c", Node::Bool(true)).err().unwrap();
    assert_eq!(err.message(), "cannot descend into non-mapping at 'b'");
    let err = set_by_path(&mut doc, "a.b", Node::Bool(true)).err().unwrap();
    assert_eq!(err.message(), "cannot set key 'b' on non-mapping");
    assert!(matches!(get_by_path(&doc, "a"), Ok(Node::PosInt(1))));
}

#[test]
fn removing_swaps_the_last_entry_in() {
    let mut doc = map(vec![("a", Node::PosInt(1)), ("b", Node::PosInt(2)), ("c", Node::PosInt(3))]);
    set_by_path(&mut doc, "a", Node::Null).unwrap();
    assert_eq!(keys(&doc), vec!["c", "b"]);
}

#[test]
fn dotted_paths_split_at_every_dot() {
    assert_eq!(split_path("a.b.c"), vec!["a", "b", "c"]);
    assert_eq!(split_path("a..b"), vec!["a", "", "b"]);
    assert_eq!(split_path(""), vec![""]);
}

#[test]
fn scalars_render_as_get_prints_them() {
    assert_eq!(render_scalar(&Node::Bool(false)).unwrap(), "false");
    assert_eq!(render_scalar(&Node::NegInt(i64::MIN)).unwrap(), i64::MIN.to_string());
    assert_eq!(render_scalar(&Node::PosInt(7)).unwrap(), "7");
    assert_eq!(render_scalar(&Node::Null).unwrap(), "null");
    assert_eq!(render_scalar(&Node::Float(s("1.5"))).unwrap(), "1.5");
    assert!(render_scalar(&map(vec![])).is_none());
}

#[test]
fn structural_equality_of_nodes() {
    let a = map(vec![("x", Node::Sequence(vec![Node::PosInt(1)]))]);
    let b = map(vec![("x", Node::Sequence(vec![Node::PosInt(1)]))]);
    let c = map(vec![("x", Node::Sequence(vec![Node::NegInt(-1)]))]);
    assert!(node_equal(&a, &b));
    assert!(!node_equal(&a, &c));
}

#[test]
fn merging_the_same_document_twice_changes_nothing() {
    let base = || map(vec![("a", Node::PosInt(1)), ("b", map(vec![("x", Node::Bool(true))]))]);
    let src = || map(vec![("b", map(vec![("y", Node::Null)])), ("c", Node::Sequence(vec![]))]);
    let mut once = base();
    deep_merge(&mut once, src());
    let mut twice = base();
    deep_merge(&mut twice, src());
    deep_merge(&mut twice, src());
    assert!(node_equal(&once, &twice));
}

#[test]
fn assigning_leaves_other_paths_alone() {
    let mut doc = map(vec![("a", map(vec![("c", Node::PosInt(3))])), ("d", Node::Bool(true))]);
    set_by_path(&mut doc, "a.b", Node::PosInt(2)).unwrap();
    assert!(matches!(get_by_path(&doc, "a.c"), Ok(Node::PosInt(3))));
    assert!(matches!(get_by_path(&doc, "d"), Ok(Node::Bool(true))));
    set_by_path(&mut doc, "d2.e", Node::PosInt(5)).unwrap();
    assert!(matches!(get_by_path(&doc, "a.b"), Ok(Node::PosInt(2))));
    set_by_path(&mut doc, "d", Node::Null).unwrap();
    assert!(matches!(get_by_path(&doc, "a.c"), Ok(Node::PosInt(3))));
    assert!(matches!(get_by_path(&doc, "d2.e"), Ok(Node::PosInt(5))));
}

#[test]
fn assignment_fails_only_below_a_non_mapping() {
    let mut doc = map(vec![("a", map(vec![("b", Node::Str(s("leaf")))]))]);
    assert!(set_by_path(&mut doc, "a.b.c", Node::Bool(true)).is_err());
    assert!(set_by_path(&mut doc, "a.x.y.z", Node::Bool(true)).is_ok());
    assert!(set_by_path(&mut Node::Sequence(vec![]), "a", Node::Bool(true)).is_err());
}
