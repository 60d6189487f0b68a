use rustplan::config::loader::{config_dirs, is_yaml_file, load_paths, network_document, yaml_files};
use rustplan::yaml::{get_by_path, Node};
use serde_yaml::Value;

/// A parsed YAML value as a document tree of the library.
fn node(v: Value) -> Node {
    match v {
        Value::Null => Node::Null,
        Value::Bool(b) => Node::Bool(b),
        Value::Number(n) => {
            if let Some(u) = n.as_u64() {
                Node::PosInt(u)
            } else if let Some(i) = n.as_i64() {
                Node::NegInt(i)
            } else {
                Node::Float(n.to_string())
            }
        }
        Value::String(s) => Node::Str(s),
        Value::Sequence(items) => Node::Sequence(items.into_iter().map(node).collect()),
        Value::Mapping(m) => Node::Mapping(m.into_iter().map(|(k, v)| (node(k), node(v))).collect()),
        Value::Tagged(t) => {
            let tag = t.tag.to_string();
            let tag = tag.strip_prefix('!').unwrap_or(&tag).to_string();
            Node::Tagged(tag, Box::new(node(t.value)))
        }
    }
}

/// A directory tree: each file as its directory, its name and its content.
type Tree<'a> = Vec<(&'a str, &'a str, &'a str)>;

/// Reads the configuration hierarchy below `/` of `tree` as the tools do.
fn load(tree: &Tree) -> Node {
    let listings: Vec<Vec<String>> = config_dirs("/")
        .iter()
        .map(|dir| {
            tree.iter().filter(|(d, _, _)| *d == dir.as_str()).map(|(_, n, _)| n.to_string()).collect()
        })
        .collect();
    let mut docs = Vec::new();
    for path in load_paths("/", listings) {
        let (_, _, text) = tree.iter().find(|(d, n, _)| format!("{d}/{n}") == path).unwrap();
        let doc: Value = serde_yaml::from_str(text).unwrap();
        docs.push(node(doc));
    }
    network_document(docs)
}

/// The files given, in `/etc/netplan`.
fn setup<'a>(files: &[(&'a str, &'a str)]) -> Tree<'a> {
    files.iter().map(|(name, content)| ("/etc/netplan", *name, *content)).collect()
}

fn at<'a>(cfg: &'a Node, path: &str) -> Option<&'a Node> {
    get_by_path(cfg, path).ok()
}

fn text(n: &Node) -> &str {
    match n {
        Node::Str(s) => s,
        _ => panic!("not a string"),
    }
}

fn texts(n: &Node) -> Vec<&str> {
    match n {
        Node::Sequence(items) => items.iter().map(text).collect(),
        _ => panic!("not a sequence"),
    }
}

fn is_empty_mapping(n: &Node) -> bool {
    matches!(n, Node::Mapping(entries) if entries.is_empty())
}

#[test]
fn test_basic_ethernet_dhcp() {
    let tmp = setup(&[(
        "01-eth.yaml",
        "network:\n  version: 2\n  ethernets:\n    eth0:\n      dhcp4: true\n",
    )]);
    let cfg = load(&tmp);
    assert!(at(&cfg, "ethernets.eth0").is_some());
    assert!(matches!(at(&cfg, "ethernets.eth0.dhcp4"), Some(Node::Bool(true))));
}

#[test]
fn test_static_address() {
    let tmp = setup(&[(
        "01-static.yaml",
        "network:\n  version: 2\n  ethernets:\n    eth0:\n      addresses:\n        - 192.168.1.10/24\n",
    )]);
    let cfg = load(&tmp);
    assert_eq!(texts(at(&cfg, "ethernets.eth0.addresses").unwrap()), vec!["192.168.1.10/24"]);
}

#[test]
fn test_merge_later_file_wins() {
    let tmp = setup(&[
        ("01-base.yaml", "network:\n  version: 2\n  ethernets:\n    eth0:\n      dhcp4: true\n"),
        (
            "02-override.yaml",
            "network:\n  version: 2\n  ethernets:\n    eth0:\n      dhcp4: false\n",
        ),
    ]);
    let cfg = load(&tmp);
    assert!(matches!(at(&cfg, "ethernets.eth0.dhcp4"), Some(Node::Bool(false))));
}

#[test]
fn test_merge_adds_new_interfaces() {
    let tmp = setup(&[
        ("01-base.yaml", "network:\n  version: 2\n  ethernets:\n    eth0:\n      dhcp4: true\n"),
        ("02-extra.yaml", "network:\n  version: 2\n  ethernets:\n    eth1:\n      dhcp4: true\n"),
    ]);
    let cfg = load(&tmp);
    assert!(at(&cfg, "ethernets.eth0").is_some());
    assert!(at(&cfg, "ethernets.eth1").is_some());
}

#[test]
fn test_empty_dir_returns_default() {
    let tmp = setup(&[]);
    let cfg = load(&tmp);
    assert!(at(&cfg, "ethernets").is_none());
    assert!(is_empty_mapping(&cfg));
}

#[test]
fn test_bridge_config() {
    let tmp = setup(&[(
        "01-br.yaml",
        "network:\n  version: 2\n  bridges:\n    br0:\n      interfaces: [eth0, eth1]\n      dhcp4: true\n",
    )]);
    let cfg = load(&tmp);
    assert!(at(&cfg, "bridges.br0").is_some());
    assert_eq!(texts(at(&cfg, "bridges.br0.interfaces").unwrap()), vec!["eth0", "eth1"]);
}

#[test]
fn test_vlan_config() {
    let tmp = setup(&[(
        "01-vlan.yaml",
        "network:\n  version: 2\n  vlans:\n    vlan10:\n      id: 10\n      link: eth0\n",
    )]);
    let cfg = load(&tmp);
    assert!(matches!(at(&cfg, "vlans.vlan10.id"), Some(Node::PosInt(10))));
    assert_eq!(text(at(&cfg, "vlans.vlan10.link").unwrap()), "eth0");
}

#[test]
fn only_yaml_files_are_read_in_name_order() {
    let names: Vec<String> = ["b.yml", "notes.txt", "a.yaml", ".yaml", "c.yaml.bak", "10.yaml"]
        .iter()
        .map(|s| s.to_string())
        .collect();
    assert_eq!(yaml_files(names), vec!["10.yaml", "a.yaml", "b.yml"]);
    assert!(is_yaml_file("..yaml"));
    assert!(!is_yaml_file("yaml"));
}

#[test]
fn later_directories_override_earlier_ones() {
    let late = "network:\n  ethernets:\n    eth0:\n      dhcp4: false\n";
    let early = "network:\n  ethernets:\n    eth0:\n      dhcp4: true\n";
    let tmp: Tree = vec![
        ("/run/netplan", "50-a.yaml", late),
        ("/usr/lib/netplan", "50-a.yaml", early),
        ("/etc/netplan", "01-notes.txt", "network: [broken"),
    ];
    let cfg = load(&tmp);
    assert!(matches!(at(&cfg, "ethernets.eth0.dhcp4"), Some(Node::Bool(false))));
}

#[test]
fn configuration_directories_in_reading_order() {
    assert_eq!(
        config_dirs("/srv"),
        vec!["/srv/usr/lib/netplan", "/srv/etc/netplan", "/srv/run/netplan"]
    );
    assert_eq!(config_dirs("/"), vec!["/usr/lib/netplan", "/etc/netplan", "/run/netplan"]);
}

#[test]
fn files_are_read_directory_by_directory_in_name_order() {
    let listings = vec![
        vec!["b.yaml".to_string(), "a.yml".to_string(), "x.txt".to_string()],
        vec![],
        vec!["00.yaml".to_string()],
    ];
    assert_eq!(
        load_paths("/srv", listings),
        vec![
            "/srv/usr/lib/netplan/a.yml",
            "/srv/usr/lib/netplan/b.yaml",
            "/srv/run/netplan/00.yaml",
        ]
    );
    assert!(load_paths("/", vec![]).is_empty());
}
