use indexmap::IndexMap;
use rustplan::backends::nm::NetworkManager;
use rustplan::backends::Backend;
use rustplan::config::types::{
    AccessPoint, BondDef, BondParams, CommonDef, EthernetDef, Nameservers, NetworkConfig, Route,
    VlanDef, WifiDef,
};

fn s(t: &str) -> String {
    t.to_string()
}

#[test]
fn ethernet_connection_with_static_addresses() {
    let mut cfg = NetworkConfig::default();
    cfg.ethernets.insert(
        s("eth0"),
        EthernetDef {
            common: CommonDef {
                addresses: vec![s("10.0.0.5/24"), s("10.0.0.6/24")],
                nameservers: Some(Nameservers {
                    addresses: vec![s("8.8.8.8"), s("2001:4860:4860::8888"), s("1.1.1.1")],
                    search: vec![s("example.com"), s("lan")],
                }),
                routes: vec![
                    Route { to: Some(s("10.1.0.0/16")), via: Some(s("10.0.0.1")), ..Default::default() },
                    Route { to: Some(s("::/0")), via: Some(s("fe80::1")), ..Default::default() },
                    Route { to: Some(s("default")), ..Default::default() },
                ],
                dhcp6: Some(true),
                ..Default::default()
            },
            ..Default::default()
        },
    );
    let files = NetworkManager.generate(&cfg, "/");
    assert_eq!(files.len(), 1);
    assert_eq!(files[0].path, "/run/NetworkManager/system-connections/netplan-eth0.nmconnection");
    assert_eq!(
        files[0].content,
        "[connection]\nid=netplan-eth0\ntype=ethernet\ninterface-name=eth0\n\n[ethernet]\n\n\
[ipv4]\nmethod=manual\naddress0=10.0.0.5/24\naddress1=10.0.0.6/24\ndns=8.8.8.8;1.1.1.1\n\
dns-search=example.com;lan\nroute1=10.1.0.0/16,10.0.0.1\n\n[ipv6]\nmethod=auto\n\n"
    );
}

#[test]
fn wifi_access_points_become_connections() {
    let mut aps = IndexMap::new();
    aps.insert(s("My Home"), AccessPoint { password: Some(s("secret")), ..Default::default() });
    aps.insert(s("open"), AccessPoint::default());
    let mut cfg = NetworkConfig::default();
    cfg.wifis.insert(
        s("wlan0"),
        WifiDef {
            common: CommonDef { dhcp4: Some(true), ..Default::default() },
            access_points: aps,
            ..Default::default()
        },
    );
    let files = NetworkManager.generate(&cfg, "/r");
    assert_eq!(files.len(), 2);
    assert_eq!(files[0].path, "/r/run/NetworkManager/system-connections/netplan-wlan0-My_Home.nmconnection");
    assert_eq!(
        files[0].content,
        "[connection]\nid=netplan-wlan0-My_Home\ntype=wifi\ninterface-name=wlan0\n\n\
[wifi]\nssid=My Home\nmode=infrastructure\n\n\
[wifi-security]\nkey-mgmt=wpa-psk\npsk=secret\n\n\
[ipv4]\nmethod=auto\n\n[ipv6]\nmethod=ignore\n\n"
    );
    assert!(!files[1].content.contains("[wifi-security]"));
    assert!(files[1].content.contains("ssid=open\n"));
}

#[test]
fn bond_and_vlan_sections() {
    let mut cfg = NetworkConfig::default();
    cfg.bonds.insert(
        s("bond0"),
        BondDef {
            parameters: Some(BondParams {
                mode: Some(s("802.3ad")),
                mii_monitor_interval: Some(100),
                ..Default::default()
            }),
            ..Default::default()
        },
    );
    cfg.vlans.insert(
        s("vlan10"),
        VlanDef { id: Some(10), link: Some(s("bond0")), ..Default::default() },
    );
    let files = NetworkManager.generate(&cfg, "/");
    assert_eq!(files.len(), 2);
    assert!(files[0].content.contains("type=bond\n"));
    assert!(files[0].content.contains("[bond]\nmode=802.3ad\nmiimon=100\n\n[ipv4]\nmethod=disabled\n"));
    assert!(files[1].content.contains("[vlan]\nid=10\nparent=bond0\n\n"));
}

#[test]
fn connections_follow_device_type_order() {
    let mut cfg = NetworkConfig::default();
    cfg.vlans.insert(s("v"), VlanDef::default());
    cfg.bonds.insert(s("b"), BondDef::default());
    cfg.ethernets.insert(s("e"), EthernetDef::default());
    let files = NetworkManager.generate(&cfg, "/");
    let names: Vec<&str> = files.iter().map(|f| f.path.rsplit('/').next().unwrap()).collect();
    assert_eq!(names, vec!["netplan-e.nmconnection", "netplan-b.nmconnection", "netplan-v.nmconnection"]);
}
