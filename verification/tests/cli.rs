use rustplan::backends::networkd::Networkd;
use rustplan::backends::nm::NetworkManager;
use rustplan::backends::Backend;
use rustplan::cli::apply::{self, ApplyAction, ApplyArgs, ApplyEvent};
use rustplan::cli::generate::render;
use rustplan::cli::get::{self, GetArgs, GetOutput};
use rustplan::cli::info::{self, InfoArgs};
use rustplan::cli::ip::{self, IpAction, IpArgs, IpCommand, IpEvent, LeasesArgs};
use rustplan::cli::rebind::{self, RebindAction, RebindArgs, RebindEvent};
use rustplan::cli::set::{split_assignment, target_path, value_of, SetArgs, SetError};
use rustplan::cli::status::{
    self, extract_addresses, json_entry, print_json, print_table, sort_interfaces, IfaceInfo,
    StatusArgs,
};
use rustplan::cli::try_cmd::{
    backend_output_dir, is_generated_file, prompt, reload_backend, TryAction, TryEvent, TryState,
    TryStep, TryArgs,
};
use rustplan::config::types::{BondDef, EthernetDef, NetworkConfig, Renderer};
use rustplan::yaml::{get_by_path, Node};

fn s(t: &str) -> String {
    t.to_string()
}

fn map(entries: Vec<(&str, Node)>) -> Node {
    Node::Mapping(entries.into_iter().map(|(k, v)| (Node::Str(s(k)), v)).collect())
}

fn apply_args(sriov_only: bool, only_ovs_cleanup: bool) -> ApplyArgs {
    ApplyArgs { sriov_only, only_ovs_cleanup, state: None }
}

#[test]
fn apply_generates_then_reloads_the_renderer() {
    let args = apply_args(false, false);
    match apply::run(&args, ApplyEvent::Start) {
        ApplyAction::Generate(g) => assert!(g.root_dir.is_none() && g.mapping.is_none()),
        _ => panic!("apply must generate first"),
    }
    match apply::run(&args, ApplyEvent::Generated) {
        ApplyAction::LoadConfig(root) => assert_eq!(root, "/"),
        _ => panic!("apply must read the configuration"),
    }
    match apply::run(&args, ApplyEvent::ConfigLoaded(None)) {
        ApplyAction::Run(c) => assert_eq!(c.describe(), "networkctl reload"),
        _ => panic!("apply must reload"),
    }
    match apply::run(&args, ApplyEvent::ConfigLoaded(Some(Renderer::NetworkManager))) {
        ApplyAction::Run(c) => {
            assert_eq!(c.program, "nmcli");
            assert_eq!(c.args, vec!["connection", "reload"]);
        }
        _ => panic!("apply must reload"),
    }
    assert!(matches!(apply::run(&args, ApplyEvent::Reloaded), ApplyAction::Finish));
}

#[test]
fn apply_stops_after_generating_for_sriov_or_ovs_only() {
    for args in [apply_args(true, false), apply_args(false, true)] {
        assert!(matches!(apply::run(&args, ApplyEvent::Generated), ApplyAction::Finish));
    }
}

#[test]
fn generate_uses_the_configured_renderer() {
    let mut cfg = NetworkConfig::default();
    cfg.ethernets.insert(s("eth0"), EthernetDef::default());
    let files = render(&cfg, "/r", &None);
    assert_eq!(files.len(), Networkd.generate(&cfg, "/r").len());
    assert_eq!(files[0].path, "/r/run/systemd/network/10-netplan-eth0.network");
    cfg.renderer = Some(Renderer::NetworkManager);
    let files = render(&cfg, "/r", &None);
    assert_eq!(files.len(), NetworkManager.generate(&cfg, "/r").len());
    assert_eq!(files[0].path, "/r/run/NetworkManager/system-connections/netplan-eth0.nmconnection");
}

#[test]
fn generate_with_a_mapping_keeps_that_interface() {
    let mut cfg = NetworkConfig::default();
    cfg.ethernets.insert(s("eth0"), EthernetDef::default());
    cfg.ethernets.insert(s("eth1"), EthernetDef::default());
    cfg.bonds.insert(s("bond0"), BondDef { interfaces: vec![s("eth1"), s("eth2")], ..Default::default() });
    let names = |files: Vec<rustplan::backends::OutputFile>| -> Vec<String> {
        files.iter().map(|f| f.path.rsplit('/').next().unwrap().to_string()).collect()
    };
    assert_eq!(names(render(&cfg, "/", &Some(s("eth1")))), vec!["10-netplan-eth1.network"]);
    assert_eq!(
        names(render(&cfg, "/", &Some(s("bond0")))),
        vec!["10-netplan-bond0.netdev", "10-netplan-bond0.network"]
    );
    assert_eq!(names(render(&cfg, "/", &Some(s("eth2")))), vec!["10-netplan-eth2.network"]);
    assert!(render(&cfg, "/", &Some(s("eth9"))).is_empty());
    cfg.renderer = Some(Renderer::NetworkManager);
    let mut aps = indexmap::IndexMap::new();
    aps.insert(s("home net"), rustplan::config::types::AccessPoint::default());
    cfg.wifis.insert(s("wlan0"), rustplan::config::types::WifiDef { access_points: aps, ..Default::default() });
    assert_eq!(names(render(&cfg, "/", &Some(s("wlan0")))), vec!["netplan-wlan0-home_net.nmconnection"]);
    assert_eq!(names(render(&cfg, "/", &Some(s("eth0")))), vec!["netplan-eth0.nmconnection"]);
}

fn leases(root: Option<&str>) -> IpArgs {
    IpArgs {
        command: IpCommand::Leases(LeasesArgs { root_dir: root.map(s), interface: s("eth0") }),
    }
}

#[test]
fn ip_leases_walks_to_the_lease_file() {
    let args = leases(Some("/srv"));
    match ip::run(&args, IpEvent::Start) {
        IpAction::CheckDir(d) => assert_eq!(d, "/srv/run/systemd/netif/leases"),
        _ => panic!(),
    }
    match ip::run(&args, IpEvent::LeaseDir(true)) {
        IpAction::ReadIfindex(p) => assert_eq!(p, "/sys/class/net/eth0/ifindex"),
        _ => panic!(),
    }
    match ip::run(&args, IpEvent::Ifindex(Some(s(" 2\n")))) {
        IpAction::CheckLease(p) => assert_eq!(p, "/srv/run/systemd/netif/leases/2"),
        _ => panic!(),
    }
    match ip::run(&args, IpEvent::Ifindex(None)) {
        IpAction::CheckLease(p) => assert_eq!(p, "/srv/run/systemd/netif/leases/"),
        _ => panic!(),
    }
    match ip::run(&args, IpEvent::LeaseFile(s("/x/2"), true)) {
        IpAction::PrintLease(p) => assert_eq!(p, "/x/2"),
        _ => panic!(),
    }
}

#[test]
fn ip_leases_warns_when_something_is_missing() {
    let args = leases(None);
    match ip::run(&args, IpEvent::LeaseDir(false)) {
        IpAction::Warn(m) => assert_eq!(m, "No lease directory found at /run/systemd/netif/leases"),
        _ => panic!(),
    }
    match ip::run(&args, IpEvent::LeaseFile(s("/x/2"), false)) {
        IpAction::Warn(m) => assert_eq!(m, "No lease found for eth0"),
        _ => panic!(),
    }
}

fn iface(name: &str, state: &str, addrs: &[&str]) -> IfaceInfo {
    IfaceInfo {
        name: s(name),
        operstate: s(state),
        addresses: addrs.iter().map(|a| s(a)).collect(),
        managed: false,
    }
}

fn status_args() -> StatusArgs {
    StatusArgs {
        root_dir: None,
        all: false,
        verbose: false,
        format: None,
        diff: false,
        diff_only: false,
        interface: None,
    }
}

fn managed_config() -> NetworkConfig {
    let mut cfg = NetworkConfig::default();
    cfg.ethernets.insert(s("eth0"), EthernetDef::default());
    cfg.bonds.insert(s("bond0"), BondDef::default());
    cfg
}

#[test]
fn status_table_marks_managed_interfaces() {
    let ifaces = vec![iface("eth0", "up", &["10.0.0.2/24"]), iface("lo", "unknown", &[])];
    let args = StatusArgs { all: true, verbose: true, ..status_args() };
    let out = status::run(&args, &managed_config(), ifaces);
    assert_eq!(
        out,
        format!("{:<15} {:>10}  managed\n  10.0.0.2/24\n{:<15} {:>10}  unmanaged\n", "eth0", "up", "lo", "unknown")
    );
}

#[test]
fn status_without_all_lists_the_managed_interfaces() {
    let ifaces = vec![iface("bond0", "down", &[]), iface("eth0", "up", &[]), iface("lo", "unknown", &[])];
    assert_eq!(
        status::run(&status_args(), &managed_config(), ifaces),
        format!("{:<15} {:>10}  managed\n{:<15} {:>10}  managed\n", "bond0", "down", "eth0", "up")
    );
}

#[test]
fn status_filters_by_interface_and_prints_json() {
    let ifaces = vec![iface("eth0", "up", &["10.0.0.2/24", "fe80::1/64"]), iface("lo", "unknown", &[])];
    let args = StatusArgs {
        interface: Some(s("eth0")),
        format: Some(s("json")),
        ..status_args()
    };
    let out = status::run(&args, &managed_config(), ifaces);
    let addrs = vec![s("10.0.0.2/24"), s("fe80::1/64")];
    let expected = format!(
        "[\n  {{\"name\":{:?},\"operstate\":{:?},\"managed\":{},\"addresses\":{:?}}}\n]\n",
        "eth0", "up", true, addrs
    );
    assert_eq!(out, expected);
}

#[test]
fn status_json_separates_entries_with_commas() {
    let ifaces = vec![iface("a\"b", "up", &[]), iface("c", "down", &["x"])];
    let out = print_json(&ifaces);
    let expected = format!(
        "[\n  {{\"name\":{:?},\"operstate\":{:?},\"managed\":false,\"addresses\":[]}},\n  {{\"name\":{:?},\"operstate\":{:?},\"managed\":false,\"addresses\":{:?}}}\n]\n",
        "a\"b", "up", "c", "down", vec!["x"]
    );
    assert_eq!(out, expected);
    assert_eq!(
        json_entry("\"n\"", "\"s\"", true, &vec![s("\"a\""), s("\"b\"")], true),
        "  {\"name\":\"n\",\"operstate\":\"s\",\"managed\":true,\"addresses\":[\"a\", \"b\"]}\n"
    );
}

#[test]
fn status_table_pads_columns() {
    let out = print_table(&vec![iface("a-very-long-interface", "dormant-long", &[])], false);
    assert_eq!(out, "a-very-long-interface dormant-long  unmanaged\n");
    let out = print_table(&vec![iface("e", "up", &[])], false);
    assert_eq!(out, format!("{:<15} {:>10}  unmanaged\n", "e", "up"));
}

#[test]
fn interfaces_are_sorted_by_name() {
    let sorted = sort_interfaces(vec![iface("wlan0", "", &[]), iface("eth1", "", &[]), iface("eth0", "", &[])]);
    let names: Vec<&str> = sorted.iter().map(|i| i.name.as_str()).collect();
    assert_eq!(names, vec!["eth0", "eth1", "wlan0"]);
}

#[test]
fn addresses_are_read_from_ip_json() {
    let addr = |local: &str, prefix: u64| map(vec![("local", Node::Str(s(local))), ("prefixlen", Node::PosInt(prefix))]);
    let data = Node::Sequence(vec![
        map(vec![("ifname", Node::Str(s("lo"))), ("addr_info", Node::Sequence(vec![addr("127.0.0.1", 8)]))]),
        map(vec![("ifname", Node::Str(s("eth0"))), ("addr_info", Node::Str(s("none")))]),
        map(vec![
            ("ifname", Node::Str(s("eth0"))),
            (
                "addr_info",
                Node::Sequence(vec![
                    addr("10.0.0.2", 24),
                    map(vec![("local", Node::Str(s("x")))]),
                    addr("fe80::1", 64),
                ]),
            ),
        ]),
    ]);
    let data = Some(data);
    assert_eq!(extract_addresses(&data, "eth0"), vec!["10.0.0.2/24", "fe80::1/64"]);
    assert_eq!(extract_addresses(&data, "lo"), vec!["127.0.0.1/8"]);
    assert!(extract_addresses(&data, "eth9").is_empty());
    assert!(extract_addresses(&None, "eth0").is_empty());
    assert!(extract_addresses(&Some(Node::Null), "eth0").is_empty());
}

#[test]
fn get_prints_scalars_and_documents() {
    let doc = map(vec![(
        "network",
        map(vec![("version", Node::PosInt(2)), ("ethernets", map(vec![("eth0", map(vec![("dhcp4", Node::Bool(true))]))]))]),
    )]);
    let args = |key: &str| GetArgs { root_dir: None, key: s(key) };
    match get::run(&args("network.ethernets.eth0.dhcp4"), &doc) {
        Ok(GetOutput::Line(t)) => assert_eq!(t, "true"),
        _ => panic!(),
    }
    match get::run(&args("network.version"), &doc) {
        Ok(GetOutput::Line(t)) => assert_eq!(t, "2"),
        _ => panic!(),
    }
    assert!(matches!(get::run(&args("network.ethernets"), &doc), Ok(GetOutput::Yaml(Node::Mapping(_)))));
    assert!(matches!(get::run(&args("all"), &doc), Ok(GetOutput::Yaml(Node::Mapping(_)))));
    match get::run(&args("network.wifis"), &doc) {
        Err(e) => assert_eq!(e.message(), "key 'wifis' not found"),
        _ => panic!(),
    }
    match get::run(&args("network.version.x"), &doc) {
        Err(e) => assert_eq!(e.message(), "cannot descend into non-mapping at 'x'"),
        _ => panic!(),
    }
}

fn set_args(assignment: &str, hint: Option<&str>) -> SetArgs {
    SetArgs { root_dir: Some(s("/srv")), origin_hint: hint.map(s), assignment: s(assignment) }
}

#[test]
fn set_writes_and_removes_values() {
    let mut doc = map(vec![]);
    rustplan::cli::set::run(&set_args("network.ethernets.eth0.dhcp4=true", None), &mut doc, Some(Node::Bool(true))).unwrap();
    assert!(matches!(get_by_path(&doc, "network.ethernets.eth0.dhcp4"), Ok(Node::Bool(true))));
    rustplan::cli::set::run(&set_args("network.ethernets.eth0.mtu=abc", None), &mut doc, None).unwrap();
    assert!(matches!(get_by_path(&doc, "network.ethernets.eth0.mtu"), Ok(Node::Str(t)) if t == "abc"));
    rustplan::cli::set::run(&set_args("network.ethernets.eth0.dhcp4=null", None), &mut doc, Some(Node::Null)).unwrap();
    assert!(get_by_path(&doc, "network.ethernets.eth0.dhcp4").is_err());
    rustplan::cli::set::run(&set_args("network.ethernets.eth0.mtu=", None), &mut doc, None).unwrap();
    assert!(get_by_path(&doc, "network.ethernets.eth0.mtu").is_err());
    assert!(get_by_path(&doc, "network.ethernets.eth0").is_ok());
}

#[test]
fn set_reports_its_errors() {
    let mut doc = map(vec![("network", Node::PosInt(2))]);
    match rustplan::cli::set::run(&set_args("network.version", None), &mut doc, None) {
        Err(e) => {
            assert!(matches!(e, SetError::Assignment));
            assert_eq!(e.message(), "assignment must be key=value");
        }
        _ => panic!(),
    }
    match rustplan::cli::set::run(&set_args("network.version=2", None), &mut doc, Some(Node::PosInt(2))) {
        Err(e) => assert_eq!(e.message(), "cannot set key 'version' on non-mapping"),
        _ => panic!(),
    }
    assert!(matches!(get_by_path(&doc, "network"), Ok(Node::PosInt(2))));
}

#[test]
fn set_splits_at_the_first_equals_sign_and_picks_the_file() {
    assert_eq!(split_assignment("a.b=c=d"), Some((s("a.b"), s("c=d"))));
    assert_eq!(split_assignment("a.b"), None);
    assert_eq!(target_path(&set_args("a=b", None)), "/srv/etc/netplan/70-netplan-set.yaml");
    assert_eq!(target_path(&set_args("a=b", Some("90-x.yaml"))), "/srv/etc/netplan/90-x.yaml");
    assert!(matches!(value_of("", Some(Node::Bool(true))), Node::Null));
    assert!(matches!(value_of("null", None), Node::Null));
    assert!(matches!(value_of("5", Some(Node::PosInt(5))), Node::PosInt(5)));
}

const FEATURES: &[(&str, &str)] = &[
    ("generate", "Generate backend-specific configuration"),
    ("apply", "Apply network configuration"),
    ("try", "Apply with automatic rollback"),
    ("get", "Read configuration values"),
    ("set", "Write configuration values"),
    ("status", "Query network interface status"),
    ("backend:networkd", "systemd-networkd backend"),
    ("backend:NetworkManager", "NetworkManager backend"),
];

#[test]
fn info_lists_features_in_three_formats() {
    let json = info::run(&InfoArgs { json: true, yaml: false });
    let pairs: Vec<_> = FEATURES.iter().map(|(k, v)| format!("  {k:?}: {v:?}")).collect();
    assert_eq!(json, format!("{{\n{}\n}}\n", pairs.join(",\n")));
    let yaml = info::run(&InfoArgs { json: false, yaml: true });
    let lines: String = FEATURES.iter().map(|(k, v)| format!("{k}: {v}\n")).collect();
    assert_eq!(yaml, lines);
    let plain = info::run(&InfoArgs { json: false, yaml: false });
    let lines: String = FEATURES.iter().map(|(k, v)| format!("  {k}: {v}\n")).collect();
    assert_eq!(plain, format!("rustplan feature support:\n{lines}"));
}

#[test]
fn rebind_reports_each_interface() {
    let args = RebindArgs { root_dir: None, interfaces: vec![s("enp1"), s("enp2")] };
    match rebind::run(&args, RebindEvent::Next(0)) {
        RebindAction::CheckDevice(0, p) => assert_eq!(p, "/sys/class/net/enp1/device"),
        _ => panic!(),
    }
    match rebind::run(&args, RebindEvent::Device(0, true)) {
        RebindAction::ReadNumVfs(0, p) => assert_eq!(p, "/sys/class/net/enp1/device/sriov_numvfs"),
        _ => panic!(),
    }
    match rebind::run(&args, RebindEvent::NumVfs(0, Some(s("8\n")))) {
        RebindAction::Say(m, 1) => assert_eq!(m, "Rebinding 8 VFs for enp1"),
        _ => panic!(),
    }
    match rebind::run(&args, RebindEvent::NumVfs(0, Some(s("many")))) {
        RebindAction::Say(m, 1) => assert_eq!(m, "Rebinding 0 VFs for enp1"),
        _ => panic!(),
    }
    match rebind::run(&args, RebindEvent::Device(1, false)) {
        RebindAction::Say(m, 2) => assert_eq!(m, "Warning: no PCI device found for enp2"),
        _ => panic!(),
    }
    assert!(matches!(rebind::run(&args, RebindEvent::Next(2)), RebindAction::Finish));
}

#[test]
fn try_helpers() {
    assert_eq!(backend_output_dir(&Renderer::Networkd, "/"), "/run/systemd/network");
    assert_eq!(
        backend_output_dir(&Renderer::NetworkManager, "/x"),
        "/x/run/NetworkManager/system-connections"
    );
    assert_eq!(reload_backend(&Renderer::NetworkManager).describe(), "nmcli connection reload");
    assert!(is_generated_file("10-netplan-eth0.network"));
    assert!(is_generated_file("netplan-eth0.nmconnection"));
    assert!(!is_generated_file("eth0.network"));
    assert!(!is_generated_file("netplan"));
    assert_eq!(
        prompt(120),
        "Do you want to keep these settings? Press Enter to accept or wait 120s to revert."
    );
}

fn try_args(config_file: Option<&str>) -> TryArgs {
    TryArgs { config_file: config_file.map(s), timeout: 30, state: None }
}

/// Runs `try` on the given outcomes of its actions and describes the actions.
fn try_script(args: &TryArgs, events: Vec<TryEvent>) -> Vec<String> {
    let mut state = TryState::new();
    let mut seen = Vec::new();
    for event in events {
        let (next, action) = rustplan::cli::try_cmd::run(args, state, event);
        state = next;
        seen.push(match action {
            TryAction::LoadConfig(root) => format!("load {root}"),
            TryAction::MakeSnapshot => s("snapshot"),
            TryAction::CheckDir(d) => format!("check {d}"),
            TryAction::SaveSnapshot(d) => format!("save {d}"),
            TryAction::PlaceConfig(a, b) => format!("place {a} {b}"),
            TryAction::Generate(g) => format!("generate {:?} {:?}", g.root_dir, g.mapping),
            TryAction::Run(c) => format!("run {}", c.describe()),
            TryAction::Ask(q, t) => format!("ask {t} {q}"),
            TryAction::RemoveFile(f) => format!("remove {f}"),
            TryAction::Say(m) => format!("say {m}"),
            TryAction::Restore(d) => format!("restore {d}"),
            TryAction::Finish => s("finish"),
        });
    }
    seen
}

#[test]
fn try_reverts_to_the_previous_renderer() {
    let args = try_args(Some("/tmp/new.yaml"));
    let seen = try_script(
        &args,
        vec![
            TryEvent::Begin,
            TryEvent::ConfigLoaded(Some(Renderer::NetworkManager)),
            TryEvent::Done,
            TryEvent::DirExists(true),
            TryEvent::Done,
            TryEvent::Done,
            TryEvent::Done,
            TryEvent::ConfigLoaded(None),
            TryEvent::Done,
            TryEvent::Answer(false),
            TryEvent::Done,
            TryEvent::Done,
            TryEvent::Done,
            TryEvent::Done,
        ],
    );
    let dir = "/run/NetworkManager/system-connections";
    assert_eq!(
        seen,
        vec![
            s("load /"),
            s("snapshot"),
            format!("check {dir}"),
            format!("save {dir}"),
            s("place /tmp/new.yaml /etc/netplan/_rustplan-try.yaml"),
            s("generate None None"),
            s("load /"),
            s("run networkctl reload"),
            format!("ask 30 {}", prompt(30)),
            s("remove /etc/netplan/_rustplan-try.yaml"),
            s("say Reverting to previous configuration..."),
            format!("restore {dir}"),
            s("run nmcli connection reload"),
            s("finish"),
        ]
    );
}

#[test]
fn try_keeps_an_accepted_configuration() {
    let args = try_args(None);
    let seen = try_script(
        &args,
        vec![TryEvent::Begin, TryEvent::ConfigLoaded(None), TryEvent::Done, TryEvent::DirExists(false), TryEvent::Done, TryEvent::ConfigLoaded(None), TryEvent::Done, TryEvent::Answer(true), TryEvent::Done],
    );
    assert_eq!(
        seen,
        vec![
            s("load /"),
            s("snapshot"),
            s("check /run/systemd/network"),
            s("generate None None"),
            s("load /"),
            s("run networkctl reload"),
            format!("ask 30 {}", prompt(30)),
            s("say Configuration accepted."),
            s("finish"),
        ]
    );
    let (next, action) = rustplan::cli::try_cmd::run(&args, TryState::new(), TryEvent::Done);
    assert!(next.step == TryStep::Finished && matches!(action, TryAction::Finish));

}
