use indexmap::IndexMap;
use rustplan::backends::networkd::Networkd;
use rustplan::backends::nm::NetworkManager;
use rustplan::cli::try_cmd::backend_output_dir;
use rustplan::backends::{Backend, OutputFile};
use rustplan::config::types::{
    BondDef, BondParams, BridgeDef, CommonDef, EthernetDef, Nameservers, NetworkConfig, Route,
    Renderer, RoutingPolicy, VlanDef,
};
use std::path::Path;
use tempfile::TempDir;

fn generate(cfg: &NetworkConfig) -> Vec<OutputFile> {
    let out_tmp = TempDir::new().unwrap();
    Networkd.generate(cfg, out_tmp.path().to_str().unwrap())
}

fn file_content<'a>(files: &'a [OutputFile], suffix: &str) -> Option<&'a str> {
    files
        .iter()
        .find(|f| f.path.ends_with(suffix))
        .map(|f| f.content.as_str())
}

fn strings(items: &[&str]) -> Vec<String> {
    items.iter().map(|s| s.to_string()).collect()
}

fn ethernet(common: CommonDef) -> EthernetDef {
    EthernetDef { common, ..Default::default() }
}

fn config_with_ethernet(name: &str, common: CommonDef) -> NetworkConfig {
    let mut cfg = NetworkConfig { version: Some(2), ..Default::default() };
    cfg.ethernets.insert(name.to_string(), ethernet(common));
    cfg
}

#[test]
fn test_ethernet_dhcp4_generates_network_file() {
    // network: {version: 2, ethernets: {eth0: {dhcp4: true}}}
    let cfg = config_with_ethernet("eth0", CommonDef { dhcp4: Some(true), ..Default::default() });
    let files = generate(&cfg);
    assert_eq!(files.len(), 1);
    let f = &files[0];
    assert!(Path::new(&f.path).ends_with("10-netplan-eth0.network"));
    assert!(f.content.contains("[Match]\nName=eth0"));
    assert!(f.content.contains("DHCP=ipv4"));
}

#[test]
fn test_static_address_generates_address_section() {
    // ethernets: {eth0: {addresses: [10.0.0.5/24]}}
    let cfg = config_with_ethernet(
        "eth0",
        CommonDef { addresses: strings(&["10.0.0.5/24"]), ..Default::default() },
    );
    let files = generate(&cfg);
    assert_eq!(files.len(), 1);
    assert!(files[0].content.contains("[Address]\nAddress=10.0.0.5/24"));
}

#[test]
fn test_bridge_generates_netdev_network_and_member_stub() {
    // bridges: {br0: {interfaces: [eth0], dhcp4: true}}
    let mut cfg = NetworkConfig { version: Some(2), ..Default::default() };
    cfg.bridges.insert(
        "br0".to_string(),
        BridgeDef {
            common: CommonDef { dhcp4: Some(true), ..Default::default() },
            interfaces: strings(&["eth0"]),
            parameters: None,
        },
    );
    let files = generate(&cfg);
    // br0.netdev, br0.network, eth0.network (stub)
    assert_eq!(files.len(), 3);
    let names: Vec<_> = files
        .iter()
        .map(|f| Path::new(&f.path).file_name().unwrap().to_str().unwrap())
        .collect();
    assert!(names.contains(&"10-netplan-br0.netdev"));
    assert!(names.contains(&"10-netplan-br0.network"));
    assert!(names.contains(&"10-netplan-eth0.network"));
    let eth0 = file_content(&files, "eth0.network").unwrap();
    assert!(eth0.contains("Bridge=br0"));
}

#[test]
fn test_bridge_member_declared_in_ethernets_gets_bridge_entry() {
    // ethernets: {eth0: {dhcp4: false}}, bridges: {br0: {interfaces: [eth0], dhcp4: true}}
    let mut cfg =
        config_with_ethernet("eth0", CommonDef { dhcp4: Some(false), ..Default::default() });
    cfg.bridges.insert(
        "br0".to_string(),
        BridgeDef {
            common: CommonDef { dhcp4: Some(true), ..Default::default() },
            interfaces: strings(&["eth0"]),
            parameters: None,
        },
    );
    let files = generate(&cfg);
    // eth0 is declared, so there is no extra stub, but eth0.network holds Bridge=br0
    let eth0 = file_content(&files, "eth0.network").unwrap();
    assert!(eth0.contains("Bridge=br0"), "eth0.network missing Bridge=br0:\n{eth0}");
}

#[test]
fn test_bond_member_gets_bond_entry() {
    // bonds: {bond0: {interfaces: [eth0, eth1], parameters: {mode: active-backup}}}
    let mut cfg = NetworkConfig { version: Some(2), ..Default::default() };
    cfg.bonds.insert(
        "bond0".to_string(),
        BondDef {
            common: CommonDef::default(),
            interfaces: strings(&["eth0", "eth1"]),
            parameters: Some(BondParams {
                mode: Some("active-backup".to_string()),
                ..Default::default()
            }),
        },
    );
    let files = generate(&cfg);
    let eth0 = file_content(&files, "eth0.network").unwrap();
    let eth1 = file_content(&files, "eth1.network").unwrap();
    assert!(eth0.contains("Bond=bond0"));
    assert!(eth1.contains("Bond=bond0"));
}

#[test]
fn test_vlan_parent_gets_vlan_ref() {
    // ethernets: {eth0: {dhcp4: false}}, vlans: {vlan10: {id: 10, link: eth0}}
    let mut cfg =
        config_with_ethernet("eth0", CommonDef { dhcp4: Some(false), ..Default::default() });
    cfg.vlans.insert(
        "vlan10".to_string(),
        VlanDef { common: CommonDef::default(), id: Some(10), link: Some("eth0".to_string()) },
    );
    let files = generate(&cfg);
    let eth0 = file_content(&files, "eth0.network").unwrap();
    assert!(eth0.contains("VLAN=vlan10"), "eth0.network missing VLAN=vlan10:\n{eth0}");
}

#[test]
fn test_vlan_generates_netdev_with_id() {
    // vlans: {vlan10: {id: 10, link: eth0}}
    let mut cfg = NetworkConfig { version: Some(2), ..Default::default() };
    cfg.vlans.insert(
        "vlan10".to_string(),
        VlanDef { common: CommonDef::default(), id: Some(10), link: Some("eth0".to_string()) },
    );
    let files = generate(&cfg);
    let netdev = files
        .iter()
        .find(|f| Path::new(&f.path).extension().unwrap() == "netdev")
        .unwrap();
    assert!(netdev.content.contains("Kind=vlan"));
    assert!(netdev.content.contains("Id=10"));
}

#[test]
fn test_nameservers_in_network_section() {
    // eth0: {dhcp4: true, nameservers: {addresses: [8.8.8.8, 8.8.4.4], search: [example.com]}}
    let cfg = config_with_ethernet(
        "eth0",
        CommonDef {
            dhcp4: Some(true),
            nameservers: Some(Nameservers {
                addresses: strings(&["8.8.8.8", "8.8.4.4"]),
                search: strings(&["example.com"]),
            }),
            ..Default::default()
        },
    );
    let files = generate(&cfg);
    let content = &files[0].content;
    assert!(content.contains("DNS=8.8.8.8 8.8.4.4"));
    assert!(content.contains("Domains=example.com"));
}

#[test]
fn test_default_route_uses_gateway() {
    // eth0: {dhcp4: false, routes: [{to: default, via: 192.168.1.1}]}
    let cfg = config_with_ethernet(
        "eth0",
        CommonDef {
            dhcp4: Some(false),
            routes: vec![Route {
                to: Some("default".to_string()),
                via: Some("192.168.1.1".to_string()),
                ..Default::default()
            }],
            ..Default::default()
        },
    );
    let files = generate(&cfg);
    let content = &files[0].content;
    assert!(content.contains("Gateway=192.168.1.1"), "content:\n{content}");
    assert!(!content.contains("Gateway=_dhcp"), "content:\n{content}");
    assert!(!content.contains("Destination=default"), "content:\n{content}");
}

#[test]
fn test_routing_policy_rule() {
    // eth0: {routing-policy: [{from: 10.0.0.0/8, table: 100, priority: 10}]}
    let cfg = config_with_ethernet(
        "eth0",
        CommonDef {
            routing_policy: vec![RoutingPolicy {
                from: Some("10.0.0.0/8".to_string()),
                table: Some(100),
                priority: Some(10),
                ..Default::default()
            }],
            ..Default::default()
        },
    );
    let files = generate(&cfg);
    let content = &files[0].content;
    assert!(content.contains("[RoutingPolicyRule]"), "content:\n{content}");
    assert!(content.contains("From=10.0.0.0/8"));
    assert!(content.contains("Table=100"));
    assert!(content.contains("Priority=10"));
}

#[test]
fn test_dual_stack_dhcp() {
    // eth0: {dhcp4: true, dhcp6: true}
    let cfg = config_with_ethernet(
        "eth0",
        CommonDef { dhcp4: Some(true), dhcp6: Some(true), ..Default::default() },
    );
    let files = generate(&cfg);
    assert!(files[0].content.contains("DHCP=yes"));
}

#[test]
fn networkd_files_live_below_the_root() {
    let cfg = config_with_ethernet("eth0", CommonDef { dhcp4: Some(true), ..Default::default() });
    let files = Networkd.generate(&cfg, "/srv/root");
    assert_eq!(files[0].path, "/srv/root/run/systemd/network/10-netplan-eth0.network");
    let files = Networkd.generate(&cfg, "/srv/root/");
    assert_eq!(files[0].path, "/srv/root/run/systemd/network/10-netplan-eth0.network");
}

#[test]
fn last_bridge_listing_a_member_wins() {
    let mut cfg = NetworkConfig::default();
    cfg.ethernets.insert("eth0".to_string(), EthernetDef::default());
    for name in ["br0", "br1"] {
        cfg.bridges.insert(
            name.to_string(),
            BridgeDef { interfaces: strings(&["eth0"]), ..Default::default() },
        );
    }
    cfg.vlans.insert(
        "vlan10".to_string(),
        VlanDef { id: Some(10), link: Some("eth0".to_string()), ..Default::default() },
    );
    cfg.vlans.insert(
        "vlan20".to_string(),
        VlanDef { id: Some(20), link: Some("eth0".to_string()), ..Default::default() },
    );
    let files = Networkd.generate(&cfg, "/");
    let eth0 = file_content(&files, "10-netplan-eth0.network").unwrap();
    assert!(eth0.contains("Bridge=br1\n"));
    assert!(!eth0.contains("Bridge=br0"));
    let v10 = eth0.find("VLAN=vlan10\n").unwrap();
    let v20 = eth0.find("VLAN=vlan20\n").unwrap();
    assert!(v10 < v20);
}

#[test]
fn member_stubs_name_bridge_bond_and_vrf_only() {
    let mut cfg = NetworkConfig::default();
    cfg.bridges.insert(
        "br0".to_string(),
        BridgeDef { interfaces: strings(&["eth0"]), ..Default::default() },
    );
    cfg.vlans.insert(
        "vlan10".to_string(),
        VlanDef { id: Some(10), link: Some("eth0".to_string()), ..Default::default() },
    );
    let files = Networkd.generate(&cfg, "/");
    let eth0 = file_content(&files, "10-netplan-eth0.network").unwrap();
    assert_eq!(eth0, "[Match]\nName=eth0\n\n[Network]\nBridge=br0\n\n");
}

#[test]
fn undeclared_members_get_stub_files_after_the_devices() {
    let mut cfg = NetworkConfig::default();
    cfg.bonds.insert(
        "bond0".to_string(),
        BondDef { interfaces: strings(&["eth1", "eth0"]), ..Default::default() },
    );
    cfg.ethernets.insert("eth0".to_string(), EthernetDef::default());
    let files = Networkd.generate(&cfg, "/");
    let names: Vec<&str> = files
        .iter()
        .map(|f| Path::new(&f.path).file_name().unwrap().to_str().unwrap())
        .collect();
    assert_eq!(
        names,
        vec![
            "10-netplan-eth0.network",
            "10-netplan-bond0.netdev",
            "10-netplan-bond0.network",
            "10-netplan-eth1.network",
        ]
    );
}

#[test]
fn bond_timing_is_written_in_seconds() {
    let mut cfg = NetworkConfig::default();
    cfg.bonds.insert(
        "bond0".to_string(),
        BondDef {
            parameters: Some(BondParams {
                mode: Some("802.3ad".to_string()),
                up_delay: Some(1500),
                down_delay: Some(2000),
                ..Default::default()
            }),
            ..Default::default()
        },
    );
    let files = Networkd.generate(&cfg, "/");
    let netdev = file_content(&files, "bond0.netdev").unwrap();
    assert!(netdev.contains(&format!("UpDelaySec={}\n", 1500f64 / 1000.0)), "{netdev}");
    assert!(netdev.contains(&format!("DownDelaySec={}\n", 2000f64 / 1000.0)), "{netdev}");
}

#[test]
fn every_file_lies_in_the_backend_directory() {
    let mut cfg = NetworkConfig::default();
    cfg.ethernets.insert("eth0".to_string(), EthernetDef::default());
    cfg.bonds.insert(
        "bond0".to_string(),
        BondDef { interfaces: strings(&["eth1"]), ..Default::default() },
    );
    let dir = backend_output_dir(&Renderer::Networkd, "/srv");
    for f in Networkd.generate(&cfg, "/srv") {
        assert_eq!(Path::new(&f.path).parent().unwrap(), Path::new(&dir));
    }
    let dir = backend_output_dir(&Renderer::NetworkManager, "/srv");
    for f in NetworkManager.generate(&cfg, "/srv") {
        assert_eq!(Path::new(&f.path).parent().unwrap(), Path::new(&dir));
    }
}
