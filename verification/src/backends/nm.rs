//! The NetworkManager renderer: one keyfile connection per interface (per
//! access point for Wi-Fi), under `run/NetworkManager/system-connections`.
use crate::backends::{
    file_view, files_for, files_view, lemma_files_for_item, lemma_files_view_append, Backend,
    OutputFile,
};
use crate::config::maps::{
    access_point_entries, access_point_list, bond_entries, bond_list, bridge_entries, bridge_list,
    ethernet_entries, ethernet_list, vlan_entries, vlan_list, wifi_entries, wifi_list,
};
use crate::config::types::{
    AccessPoint, BondDef, BridgeDef, CommonDef, EthernetDef, Nameservers, NetworkConfig, Route,
    VlanDef, WifiDef,
};
use crate::text::{
    decimal, decimal_string, has_char, join, join_strings, kv, opt_kv, opt_num_kv, path_join,
    push_kv, push_opt_kv, push_opt_num_kv, replace_char, replace_all_char, views, widen32,
    widen32_exec, starts_with,
};
use vstd::prelude::*;

verus! {

/// The NetworkManager backend.
pub struct NetworkManager;

/// Path of the connection file named `name` in `dir`.
pub open spec fn connection_path(dir: Seq<char>, name: Seq<char>) -> Seq<char> {
    path_join(dir, "netplan-"@ + name + ".nmconnection"@)
}

/// One `addressN=` line per static address, numbered from 0.
pub open spec fn address_lines(addrs: Seq<String>) -> Seq<char>
    decreases addrs.len(),
{
    if addrs.len() == 0 {
        Seq::empty()
    } else {
        address_lines(addrs.drop_last()) + kv(
            "address"@ + decimal((addrs.len() - 1) as nat) + "="@,
            addrs.last()@,
        )
    }
}

/// The name-server addresses that are not IPv6 (hold no `:`), in order.
pub open spec fn ipv4_servers(addrs: Seq<String>) -> Seq<Seq<char>>
    decreases addrs.len(),
{
    if addrs.len() == 0 {
        Seq::empty()
    } else if addrs.last()@.contains(':') {
        ipv4_servers(addrs.drop_last())
    } else {
        ipv4_servers(addrs.drop_last()).push(addrs.last()@)
    }
}

/// The `dns=` and `dns-search=` lines of the `[ipv4]` section.
pub open spec fn dns_text(ns: Option<Nameservers>) -> Seq<char> {
    match ns {
        Some(n) => (if n.addresses@.len() > 0 && ipv4_servers(n.addresses@).len() > 0 {
            kv("dns="@, join(ipv4_servers(n.addresses@), ";"@))
        } else {
            Seq::empty()
        }) + (if n.search@.len() > 0 {
            kv("dns-search="@, join(views(n.search@), ";"@))
        } else {
            Seq::empty()
        }),
        None => Seq::empty(),
    }
}

/// The `route1=` line of a route with a destination and a gateway, when the
/// destination is not IPv6.
pub open spec fn route_line(r: Route) -> Seq<char> {
    match (r.to, r.via) {
        (Some(to), Some(via)) => if !to@.contains(':') {
            "route1="@ + to@ + ","@ + via@ + "\n"@
        } else {
            Seq::empty()
        },
        _ => Seq::empty(),
    }
}

/// The route lines of all routes.
pub open spec fn route_lines(routes: Seq<Route>) -> Seq<char>
    decreases routes.len(),
{
    if routes.len() == 0 {
        Seq::empty()
    } else {
        route_lines(routes.drop_last()) + route_line(routes.last())
    }
}

/// The `[ipv4]` section: DHCP, static addresses, or disabled; name servers;
/// routes.
pub open spec fn ipv4_text(c: CommonDef) -> Seq<char> {
    "[ipv4]\n"@ + (if c.dhcp4 == Some(true) {
        "method=auto\n"@
    } else if c.addresses@.len() > 0 {
        "method=manual\n"@ + address_lines(c.addresses@)
    } else {
        "method=disabled\n"@
    }) + dns_text(c.nameservers) + route_lines(c.routes@) + "\n"@
}

/// The `[ipv6]` section: DHCPv6, or ignored.
pub open spec fn ipv6_text(c: CommonDef) -> Seq<char> {
    "[ipv6]\n"@ + (if c.dhcp6 == Some(true) {
        "method=auto\n"@
    } else {
        "method=ignore\n"@
    }) + "\n"@
}

/// The `[connection]` section of a connection named `netplan-<name>` of the
/// given type on interface `id`.
pub open spec fn connection_head(name: Seq<char>, kind: Seq<char>, id: Seq<char>) -> Seq<char> {
    "[connection]\n"@ + kv("id="@, "netplan-"@ + name) + kv("type="@, kind) + kv(
        "interface-name="@,
        id,
    ) + "\n"@
}

/// The connection file of an Ethernet interface.
#[verifier::opaque]
pub open spec fn ethernet_text(id: Seq<char>, dev: EthernetDef) -> Seq<char> {
    connection_head(id, "ethernet"@, id) + "[ethernet]\n\n"@ + ipv4_text(dev.common) + ipv6_text(
        dev.common,
    )
}

/// The connection file of a bridge.
#[verifier::opaque]
pub open spec fn bridge_text(id: Seq<char>, dev: BridgeDef) -> Seq<char> {
    connection_head(id, "bridge"@, id) + "[bridge]\n\n"@ + ipv4_text(dev.common) + ipv6_text(
        dev.common,
    )
}

/// The connection file of a bond, with its mode and MII monitoring interval.
#[verifier::opaque]
pub open spec fn bond_text(id: Seq<char>, dev: BondDef) -> Seq<char> {
    connection_head(id, "bond"@, id) + "[bond]\n"@ + match dev.parameters {
        Some(p) => opt_kv("mode="@, p.mode) + opt_num_kv("miimon="@, widen32(p.mii_monitor_interval)),
        None => Seq::empty(),
    } + "\n"@ + ipv4_text(dev.common) + ipv6_text(dev.common)
}

/// The connection file of a VLAN, with its id and parent.
#[verifier::opaque]
pub open spec fn vlan_text(id: Seq<char>, dev: VlanDef) -> Seq<char> {
    connection_head(id, "vlan"@, id) + "[vlan]\n"@ + opt_num_kv(
        "id="@,
        match dev.id {
            Some(v) => Some(v as u64),
            None => None,
        },
    ) + opt_kv("parent="@, dev.link) + "\n"@ + ipv4_text(dev.common) + ipv6_text(dev.common)
}

/// The connection name of an access point: the interface, a dash, and the
/// SSID with spaces replaced by underscores.
pub open spec fn access_point_name(id: Seq<char>, ssid: Seq<char>) -> Seq<char> {
    id + "-"@ + replace_char(ssid, ' ', "_"@)
}

/// The connection file of one access point of a Wi-Fi interface; a
/// password makes it a WPA-PSK connection.
#[verifier::opaque]
pub open spec fn access_point_text(id: Seq<char>, ssid: Seq<char>, ap: AccessPoint, c: CommonDef) -> Seq<
    char,
> {
    connection_head(access_point_name(id, ssid), "wifi"@, id) + "[wifi]\n"@ + kv("ssid="@, ssid)
        + "mode=infrastructure\n"@ + "\n"@ + match ap.password {
        Some(pw) => "[wifi-security]\n"@ + "key-mgmt=wpa-psk\n"@ + kv("psk="@, pw@) + "\n"@,
        None => Seq::empty(),
    } + ipv4_text(c) + ipv6_text(c)
}

/// The connection files of the access points of a Wi-Fi interface, in order.
pub open spec fn access_point_files(
    dir: Seq<char>,
    id: Seq<char>,
    aps: Seq<(Seq<char>, AccessPoint)>,
    c: CommonDef,
) -> Seq<(Seq<char>, Seq<char>)>
    decreases aps.len(),
{
    if aps.len() == 0 {
        Seq::empty()
    } else {
        access_point_files(dir, id, aps.drop_last(), c) + seq![
            (
                connection_path(dir, access_point_name(id, aps.last().0)),
                access_point_text(id, aps.last().0, aps.last().1, c),
            ),
        ]
    }
}

/// How Ethernet interfaces are rendered.
pub open spec fn nm_ethernet_output(dir: Seq<char>) -> spec_fn(Seq<char>, EthernetDef) -> Seq<
    (Seq<char>, Seq<char>),
> {
    |id: Seq<char>, dev: EthernetDef| seq![(connection_path(dir, id), ethernet_text(id, dev))]
}

/// How Wi-Fi interfaces are rendered.
pub open spec fn nm_wifi_output(dir: Seq<char>) -> spec_fn(Seq<char>, WifiDef) -> Seq<
    (Seq<char>, Seq<char>),
> {
    |id: Seq<char>, dev: WifiDef|
        access_point_files(dir, id, access_point_entries(dev.access_points), dev.common)
}

/// How bridges are rendered.
pub open spec fn nm_bridge_output(dir: Seq<char>) -> spec_fn(Seq<char>, BridgeDef) -> Seq<
    (Seq<char>, Seq<char>),
> {
    |id: Seq<char>, dev: BridgeDef| seq![(connection_path(dir, id), bridge_text(id, dev))]
}

/// How bonds are rendered.
pub open spec fn nm_bond_output(dir: Seq<char>) -> spec_fn(Seq<char>, BondDef) -> Seq<
    (Seq<char>, Seq<char>),
> {
    |id: Seq<char>, dev: BondDef| seq![(connection_path(dir, id), bond_text(id, dev))]
}

/// How VLANs are rendered.
pub open spec fn nm_vlan_output(dir: Seq<char>) -> spec_fn(Seq<char>, VlanDef) -> Seq<
    (Seq<char>, Seq<char>),
> {
    |id: Seq<char>, dev: VlanDef| seq![(connection_path(dir, id), vlan_text(id, dev))]
}

/// Everything the NetworkManager renderer writes for a configuration below
/// `root`: Ethernet interfaces, Wi-Fi access points, bridges, bonds and
/// VLANs, in that order.
pub open spec fn nm_files(cfg: NetworkConfig, root: Seq<char>) -> Seq<(Seq<char>, Seq<char>)> {
    let dir = path_join(root, "run/NetworkManager/system-connections"@);
    files_for(ethernet_entries(cfg.ethernets), nm_ethernet_output(dir)) + files_for(
        wifi_entries(cfg.wifis),
        nm_wifi_output(dir),
    ) + files_for(bridge_entries(cfg.bridges), nm_bridge_output(dir)) + files_for(
        bond_entries(cfg.bonds),
        nm_bond_output(dir),
    ) + files_for(vlan_entries(cfg.vlans), nm_vlan_output(dir))
}

pub(crate) fn conn_path(dir: &str, name: &str) -> (r: String)
    ensures
        r@ == connection_path(dir@, name@),
{
    broadcast use crate::text::group_text;

    let mut file = String::from_str("netplan-");
    file.append(name);
    file.append(".nmconnection");
    crate::text::join_path(dir, file.as_str())
}

fn write_address_lines(out: &mut String, addrs: &Vec<String>)
    ensures
        final(out)@ == old(out)@ + address_lines(addrs@),
{
    broadcast use crate::text::group_text;

    let ghost start = out@;
    let n = addrs.len();
    let mut i: usize = 0;
    while i < n
        invariant
            n == addrs@.len(),
            i <= n,
            out@ == start + address_lines(addrs@.take(i as int)),
        decreases n - i,
    {
        assert(addrs@.take(i + 1).drop_last() =~= addrs@.take(i as int));
        let mut key = String::from_str("address");
        let number = decimal_string(i as u64);
        key.append(number.as_str());
        key.append("=");
        push_kv(out, key.as_str(), addrs[i].as_str());
        i = i + 1;
    }
    assert(addrs@.take(n as int) =~= addrs@);
}

fn ipv4_server_list(addrs: &Vec<String>) -> (r: Vec<String>)
    ensures
        views(r@) == ipv4_servers(addrs@),
{
    let mut r: Vec<String> = Vec::new();
    let n = addrs.len();
    let mut i: usize = 0;
    while i < n
        invariant
            n == addrs@.len(),
            i <= n,
            views(r@) == ipv4_servers(addrs@.take(i as int)),
        decreases n - i,
    {
        assert(addrs@.take(i + 1).drop_last() =~= addrs@.take(i as int));
        if !has_char(addrs[i].as_str(), ':') {
            let x = addrs[i].as_str().to_owned();
            let ghost before = r@;
            r.push(x);
            assert(views(r@) =~= views(before).push(x@));
        }
        i = i + 1;
    }
    assert(addrs@.take(n as int) =~= addrs@);
    r
}

fn write_dns(out: &mut String, ns: &Option<Nameservers>)
    ensures
        final(out)@ == old(out)@ + dns_text(*ns),
{
    broadcast use crate::text::group_text;

    match ns {
        Some(n) => {
            if n.addresses.len() > 0 {
                let v4 = ipv4_server_list(&n.addresses);
                if v4.len() > 0 {
                    let j = join_strings(&v4, ";");
                    push_kv(out, "dns=", j.as_str());
                }
            }
            if n.search.len() > 0 {
                let j = join_strings(&n.search, ";");
                push_kv(out, "dns-search=", j.as_str());
            }
        },
        None => {},
    }
}

fn write_route_lines(out: &mut String, routes: &Vec<Route>)
    ensures
        final(out)@ == old(out)@ + route_lines(routes@),
{
    broadcast use crate::text::group_text;

    let ghost start = out@;
    let n = routes.len();
    let mut i: usize = 0;
    while i < n
        invariant
            n == routes@.len(),
            i <= n,
            out@ == start + route_lines(routes@.take(i as int)),
        decreases n - i,
    {
        assert(routes@.take(i + 1).drop_last() =~= routes@.take(i as int));
        let route = &routes[i];
        match (&route.to, &route.via) {
            (Some(to), Some(via)) => {
                if !has_char(to.as_str(), ':') {
                    out.append("route1=");
                    out.append(to.as_str());
                    out.append(",");
                    out.append(via.as_str());
                    out.append("\n");
                }
            },
            _ => {},
        }
        i = i + 1;
    }
    assert(routes@.take(n as int) =~= routes@);
}

fn write_ipv4_section(out: &mut String, common: &CommonDef)
    ensures
        final(out)@ == old(out)@ + ipv4_text(*common),
{
    broadcast use crate::text::group_text;

    out.append("[ipv4]\n");
    if common.dhcp4 == Some(true) {
        out.append("method=auto\n");
    } else if common.addresses.len() > 0 {
        out.append("method=manual\n");
        write_address_lines(out, &common.addresses);
    } else {
        out.append("method=disabled\n");
    }
    write_dns(out, &common.nameservers);
    write_route_lines(out, &common.routes);
    out.append("\n");
}

fn write_ipv6_section(out: &mut String, common: &CommonDef)
    ensures
        final(out)@ == old(out)@ + ipv6_text(*common),
{
    broadcast use crate::text::group_text;

    out.append("[ipv6]\n");
    if common.dhcp6 == Some(true) {
        out.append("method=auto\n");
    } else {
        out.append("method=ignore\n");
    }
    out.append("\n");
}

fn write_connection_head(out: &mut String, name: &str, kind: &str, id: &str)
    ensures
        final(out)@ == old(out)@ + connection_head(name@, kind@, id@),
{
    broadcast use crate::text::group_text;

    out.append("[connection]\n");
    out.append("id=");
    out.append("netplan-");
    out.append(name);
    out.append("\n");
    push_kv(out, "type=", kind);
    push_kv(out, "interface-name=", id);
    out.append("\n");
}

fn ethernet_file(dir: &str, id: &str, dev: &EthernetDef) -> (r: OutputFile)
    ensures
        file_view(r) == (connection_path(dir@, id@), ethernet_text(id@, *dev)),
{
    broadcast use crate::text::group_text;

    proof {
        reveal(ethernet_text);
    }
    let mut out = String::new();
    write_connection_head(&mut out, id, "ethernet", id);
    out.append("[ethernet]\n\n");
    write_ipv4_section(&mut out, &dev.common);
    write_ipv6_section(&mut out, &dev.common);
    OutputFile { path: conn_path(dir, id), content: out }
}

fn access_point_file(dir: &str, id: &str, ssid: &str, ap: &AccessPoint, common: &CommonDef) -> (r:
    OutputFile)
    ensures
        file_view(r) == (
            connection_path(dir@, access_point_name(id@, ssid@)),
            access_point_text(id@, ssid@, *ap, *common),
        ),
{
    broadcast use crate::text::group_text;

    proof {
        reveal(access_point_text);
    }
    let mut safe_id = id.to_owned();
    safe_id.append("-");
    let replaced = replace_all_char(ssid, ' ', "_");
    safe_id.append(replaced.as_str());
    let mut out = String::new();
    write_connection_head(&mut out, safe_id.as_str(), "wifi", id);
    out.append("[wifi]\n");
    push_kv(&mut out, "ssid=", ssid);
    out.append("mode=infrastructure\n");
    out.append("\n");
    match &ap.password {
        Some(pw) => {
            out.append("[wifi-security]\n");
            out.append("key-mgmt=wpa-psk\n");
            push_kv(&mut out, "psk=", pw.as_str());
            out.append("\n");
        },
        None => {},
    }
    write_ipv4_section(&mut out, common);
    write_ipv6_section(&mut out, common);
    OutputFile { path: conn_path(dir, safe_id.as_str()), content: out }
}

fn wifi_files(dir: &str, id: &str, dev: &WifiDef) -> (r: Vec<OutputFile>)
    ensures
        files_view(r@) == access_point_files(
            dir@,
            id@,
            access_point_entries(dev.access_points),
            dev.common,
        ),
{
    let mut files: Vec<OutputFile> = Vec::new();
    let aps = access_point_list(&dev.access_points);
    let ghost e = access_point_entries(dev.access_points);
    let n = aps.len();
    let mut i: usize = 0;
    assert(files_view(files@) =~= Seq::empty());
    while i < n
        invariant
            n == aps@.len() == e.len(),
            e == access_point_entries(dev.access_points),
            forall|j: int|
                0 <= j < aps@.len() ==> (#[trigger] aps@[j]).0@ == e[j].0 && *aps@[j].1 == e[j].1,
            i <= n,
            files_view(files@) == access_point_files(dir@, id@, e.take(i as int), dev.common),
        decreases n - i,
    {
        assert(e.take(i + 1).drop_last() =~= e.take(i as int));
        let (ssid, ap) = aps[i];
        let f = access_point_file(dir, id, ssid.as_str(), ap, &dev.common);
        let ghost before = files@;
        files.push(f);
        assert(files_view(files@) =~= files_view(before).push(file_view(f)));
        i = i + 1;
    }
    assert(e.take(n as int) =~= e);
    files
}

fn bridge_file(dir: &str, id: &str, dev: &BridgeDef) -> (r: OutputFile)
    ensures
        file_view(r) == (connection_path(dir@, id@), bridge_text(id@, *dev)),
{
    broadcast use crate::text::group_text;

    proof {
        reveal(bridge_text);
    }
    let mut out = String::new();
    write_connection_head(&mut out, id, "bridge", id);
    out.append("[bridge]\n\n");
    write_ipv4_section(&mut out, &dev.common);
    write_ipv6_section(&mut out, &dev.common);
    OutputFile { path: conn_path(dir, id), content: out }
}

fn bond_file(dir: &str, id: &str, dev: &BondDef) -> (r: OutputFile)
    ensures
        file_view(r) == (connection_path(dir@, id@), bond_text(id@, *dev)),
{
    broadcast use crate::text::group_text;

    proof {
        reveal(bond_text);
    }
    let mut out = String::new();
    write_connection_head(&mut out, id, "bond", id);
    out.append("[bond]\n");
    match &dev.parameters {
        Some(params) => {
            push_opt_kv(&mut out, "mode=", &params.mode);
            push_opt_num_kv(&mut out, "miimon=", widen32_exec(params.mii_monitor_interval));
        },
        None => {},
    }
    out.append("\n");
    write_ipv4_section(&mut out, &dev.common);
    write_ipv6_section(&mut out, &dev.common);
    OutputFile { path: conn_path(dir, id), content: out }
}

fn vlan_file(dir: &str, id: &str, dev: &VlanDef) -> (r: OutputFile)
    ensures
        file_view(r) == (connection_path(dir@, id@), vlan_text(id@, *dev)),
{
    broadcast use crate::text::group_text;

    proof {
        reveal(vlan_text);
    }
    let mut out = String::new();
    write_connection_head(&mut out, id, "vlan", id);
    out.append("[vlan]\n");
    let vid = match dev.id {
        Some(v) => Some(v as u64),
        None => None,
    };
    push_opt_num_kv(&mut out, "id=", vid);
    push_opt_kv(&mut out, "parent=", &dev.link);
    out.append("\n");
    write_ipv4_section(&mut out, &dev.common);
    write_ipv6_section(&mut out, &dev.common);
    OutputFile { path: conn_path(dir, id), content: out }
}

fn push_nm_ethernet_files(files: &mut Vec<OutputFile>, dir: &str, cfg: &NetworkConfig)
    ensures
        files_view(final(files)@) == files_view(old(files)@) + files_for(
            ethernet_entries(cfg.ethernets),
            nm_ethernet_output(dir@),
        ),
{
    let ghost start = files_view(files@);
    let ghost f = nm_ethernet_output(dir@);
    let devs = ethernet_list(&cfg.ethernets);
    let ghost e = ethernet_entries(cfg.ethernets);
    let n = devs.len();
    let mut i: usize = 0;
    while i < n
        invariant
            n == devs@.len() == e.len(),
            e == ethernet_entries(cfg.ethernets),
            f == nm_ethernet_output(dir@),
            forall|j: int|
                0 <= j < devs@.len() ==> (#[trigger] devs@[j]).0@ == e[j].0 && *devs@[j].1 == e[j].1,
            i <= n,
            files_view(files@) == start + files_for(e.take(i as int), f),
        decreases n - i,
    {
        assert(e.take(i + 1).drop_last() =~= e.take(i as int));
        let (id, dev) = devs[i];
        let file = ethernet_file(dir, id.as_str(), dev);
        let ghost before = files@;
        files.push(file);
        assert(files_view(files@) =~= files_view(before).push(file_view(file)));
        i = i + 1;
    }
    assert(e.take(n as int) =~= e);
}

fn push_nm_wifi_files(files: &mut Vec<OutputFile>, dir: &str, cfg: &NetworkConfig)
    ensures
        files_view(final(files)@) == files_view(old(files)@) + files_for(
            wifi_entries(cfg.wifis),
            nm_wifi_output(dir@),
        ),
{
    let ghost start = files_view(files@);
    let ghost f = nm_wifi_output(dir@);
    let devs = wifi_list(&cfg.wifis);
    let ghost e = wifi_entries(cfg.wifis);
    let n = devs.len();
    let mut i: usize = 0;
    while i < n
        invariant
            n == devs@.len() == e.len(),
            e == wifi_entries(cfg.wifis),
            f == nm_wifi_output(dir@),
            forall|j: int|
                0 <= j < devs@.len() ==> (#[trigger] devs@[j]).0@ == e[j].0 && *devs@[j].1 == e[j].1,
            i <= n,
            files_view(files@) == start + files_for(e.take(i as int), f),
        decreases n - i,
    {
        assert(e.take(i + 1).drop_last() =~= e.take(i as int));
        let (id, dev) = devs[i];
        let mut more = wifi_files(dir, id.as_str(), dev);
        let ghost before = files@;
        let ghost added = more@;
        files.append(&mut more);
        proof {
            lemma_files_view_append(before, added);
        }
        i = i + 1;
    }
    assert(e.take(n as int) =~= e);
}

fn push_nm_bridge_files(files: &mut Vec<OutputFile>, dir: &str, cfg: &NetworkConfig)
    ensures
        files_view(final(files)@) == files_view(old(files)@) + files_for(
            bridge_entries(cfg.bridges),
            nm_bridge_output(dir@),
        ),
{
    let ghost start = files_view(files@);
    let ghost f = nm_bridge_output(dir@);
    let devs = bridge_list(&cfg.bridges);
    let ghost e = bridge_entries(cfg.bridges);
    let n = devs.len();
    let mut i: usize = 0;
    while i < n
        invariant
            n == devs@.len() == e.len(),
            e == bridge_entries(cfg.bridges),
            f == nm_bridge_output(dir@),
            forall|j: int|
                0 <= j < devs@.len() ==> (#[trigger] devs@[j]).0@ == e[j].0 && *devs@[j].1 == e[j].1,
            i <= n,
            files_view(files@) == start + files_for(e.take(i as int), f),
        decreases n - i,
    {
        assert(e.take(i + 1).drop_last() =~= e.take(i as int));
        let (id, dev) = devs[i];
        let file = bridge_file(dir, id.as_str(), dev);
        let ghost before = files@;
        files.push(file);
        assert(files_view(files@) =~= files_view(before).push(file_view(file)));
        i = i + 1;
    }
    assert(e.take(n as int) =~= e);
}

fn push_nm_bond_files(files: &mut Vec<OutputFile>, dir: &str, cfg: &NetworkConfig)
    ensures
        files_view(final(files)@) == files_view(old(files)@) + files_for(
            bond_entries(cfg.bonds),
            nm_bond_output(dir@),
        ),
{
    let ghost start = files_view(files@);
    let ghost f = nm_bond_output(dir@);
    let devs = bond_list(&cfg.bonds);
    let ghost e = bond_entries(cfg.bonds);
    let n = devs.len();
    let mut i: usize = 0;
    while i < n
        invariant
            n == devs@.len() == e.len(),
            e == bond_entries(cfg.bonds),
            f == nm_bond_output(dir@),
            forall|j: int|
                0 <= j < devs@.len() ==> (#[trigger] devs@[j]).0@ == e[j].0 && *devs@[j].1 == e[j].1,
            i <= n,
            files_view(files@) == start + files_for(e.take(i as int), f),
        decreases n - i,
    {
        assert(e.take(i + 1).drop_last() =~= e.take(i as int));
        let (id, dev) = devs[i];
        let file = bond_file(dir, id.as_str(), dev);
        let ghost before = files@;
        files.push(file);
        assert(files_view(files@) =~= files_view(before).push(file_view(file)));
        i = i + 1;
    }
    assert(e.take(n as int) =~= e);
}

fn push_nm_vlan_files(files: &mut Vec<OutputFile>, dir: &str, cfg: &NetworkConfig)
    ensures
        files_view(final(files)@) == files_view(old(files)@) + files_for(
            vlan_entries(cfg.vlans),
            nm_vlan_output(dir@),
        ),
{
    let ghost start = files_view(files@);
    let ghost f = nm_vlan_output(dir@);
    let devs = vlan_list(&cfg.vlans);
    let ghost e = vlan_entries(cfg.vlans);
    let n = devs.len();
    let mut i: usize = 0;
    while i < n
        invariant
            n == devs@.len() == e.len(),
            e == vlan_entries(cfg.vlans),
            f == nm_vlan_output(dir@),
            forall|j: int|
                0 <= j < devs@.len() ==> (#[trigger] devs@[j]).0@ == e[j].0 && *devs@[j].1 == e[j].1,
            i <= n,
            files_view(files@) == start + files_for(e.take(i as int), f),
        decreases n - i,
    {
        assert(e.take(i + 1).drop_last() =~= e.take(i as int));
        let (id, dev) = devs[i];
        let file = vlan_file(dir, id.as_str(), dev);
        let ghost before = files@;
        files.push(file);
        assert(files_view(files@) =~= files_view(before).push(file_view(file)));
        i = i + 1;
    }
    assert(e.take(n as int) =~= e);
}

/// The `[connection]` section that a keyfile begins with: the connection's
/// id `netplan-<name>`, its type, and the interface it is for.
pub open spec fn keyfile_head(name: Seq<char>, kind: Seq<char>, id: Seq<char>) -> Seq<char> {
    "[connection]\n"@ + "id=netplan-"@ + name + "\n"@ + "type="@ + kind + "\n"@ + "interface-name="@
        + id + "\n"@
}

proof fn lemma_head_starts(name: Seq<char>, kind: Seq<char>, id: Seq<char>, rest: Seq<char>)
    ensures
        starts_with(connection_head(name, kind, id) + rest, keyfile_head(name, kind, id)),
{
    reveal_strlit("id=");
    reveal_strlit("netplan-");
    reveal_strlit("id=netplan-");
    let h = keyfile_head(name, kind, id);
    assert(connection_head(name, kind, id) =~= h + "\n"@);
    assert((connection_head(name, kind, id) + rest).take(h.len() as int) =~= h);
}

/// The type of each keyfile is the kind of device it was rendered from:
/// `ethernet` for an Ethernet interface, `wifi` for an access point of a
/// Wi-Fi interface, `bridge`, `bond` and `vlan` for those devices; its id
/// is `netplan-` and the device's name (the interface, a dash and the SSID
/// for an access point), and it is for the device's interface.
pub proof fn lemma_keyfile_type(
    id: Seq<char>,
    eth: EthernetDef,
    br: BridgeDef,
    bond: BondDef,
    vlan: VlanDef,
    ssid: Seq<char>,
    ap: AccessPoint,
    c: CommonDef,
)
    ensures
        starts_with(ethernet_text(id, eth), keyfile_head(id, "ethernet"@, id)),
        starts_with(bridge_text(id, br), keyfile_head(id, "bridge"@, id)),
        starts_with(bond_text(id, bond), keyfile_head(id, "bond"@, id)),
        starts_with(vlan_text(id, vlan), keyfile_head(id, "vlan"@, id)),
        starts_with(
            access_point_text(id, ssid, ap, c),
            keyfile_head(access_point_name(id, ssid), "wifi"@, id),
        ),
{
    reveal(ethernet_text);
    reveal(bridge_text);
    reveal(bond_text);
    reveal(vlan_text);
    reveal(access_point_text);
    let eh = connection_head(id, "ethernet"@, id);
    let et = ethernet_text(id, eth);
    assert(et =~= eh + et.skip(eh.len() as int));
    lemma_head_starts(id, "ethernet"@, id, et.skip(eh.len() as int));
    let bh = connection_head(id, "bridge"@, id);
    let bt = bridge_text(id, br);
    assert(bt =~= bh + bt.skip(bh.len() as int));
    lemma_head_starts(id, "bridge"@, id, bt.skip(bh.len() as int));
    let oh = connection_head(id, "bond"@, id);
    let ot = bond_text(id, bond);
    assert(ot =~= oh + ot.skip(oh.len() as int));
    lemma_head_starts(id, "bond"@, id, ot.skip(oh.len() as int));
    let vh = connection_head(id, "vlan"@, id);
    let vt = vlan_text(id, vlan);
    assert(vt =~= vh + vt.skip(vh.len() as int));
    lemma_head_starts(id, "vlan"@, id, vt.skip(vh.len() as int));
    let an = access_point_name(id, ssid);
    let ah = connection_head(an, "wifi"@, id);
    let at = access_point_text(id, ssid, ap, c);
    assert(at =~= ah + at.skip(ah.len() as int));
    lemma_head_starts(an, "wifi"@, id, at.skip(ah.len() as int));
}

/// Whether `files` holds the keyfile of connection `netplan-<name>` in
/// `dir`, declaring type `kind` for interface `id`.
pub open spec fn has_keyfile(
    files: Seq<(Seq<char>, Seq<char>)>,
    dir: Seq<char>,
    name: Seq<char>,
    kind: Seq<char>,
    id: Seq<char>,
) -> bool {
    exists|i: int|
        0 <= i < files.len() && (#[trigger] files[i]).0 == connection_path(dir, name) && starts_with(
            files[i].1,
            keyfile_head(name, kind, id),
        )
}

proof fn lemma_index_of(
    p: Seq<(Seq<char>, Seq<char>)>,
    q: Seq<(Seq<char>, Seq<char>)>,
    x: (Seq<char>, Seq<char>),
    t: Seq<(Seq<char>, Seq<char>)>,
    u: Seq<(Seq<char>, Seq<char>)>,
) -> (i: int)
    ensures
        0 <= i < (p + (q + seq![x] + t) + u).len(),
        (p + (q + seq![x] + t) + u)[i] == x,
{
    let i: int = (p.len() + q.len()) as int;
    assert((p + (q + seq![x] + t) + u)[i] == (q + seq![x] + t)[q.len() as int]);
    i
}

/// The directory NetworkManager's keyfiles are written to below `root`.
pub open spec fn nm_dir(root: Seq<char>) -> Seq<char> {
    path_join(root, "run/NetworkManager/system-connections"@)
}

/// Each Ethernet interface, bridge, bond and VLAN of the configuration gets
/// a keyfile named after it whose type is the kind of the device.
pub proof fn lemma_nm_keyfiles(cfg: NetworkConfig, root: Seq<char>)
    ensures
        forall|k: int|
            0 <= k < ethernet_entries(cfg.ethernets).len() ==> has_keyfile(
                nm_files(cfg, root),
                nm_dir(root),
                (#[trigger] ethernet_entries(cfg.ethernets)[k]).0,
                "ethernet"@,
                ethernet_entries(cfg.ethernets)[k].0,
            ),
        forall|k: int|
            0 <= k < bridge_entries(cfg.bridges).len() ==> has_keyfile(
                nm_files(cfg, root),
                nm_dir(root),
                (#[trigger] bridge_entries(cfg.bridges)[k]).0,
                "bridge"@,
                bridge_entries(cfg.bridges)[k].0,
            ),
        forall|k: int|
            0 <= k < bond_entries(cfg.bonds).len() ==> has_keyfile(
                nm_files(cfg, root),
                nm_dir(root),
                (#[trigger] bond_entries(cfg.bonds)[k]).0,
                "bond"@,
                bond_entries(cfg.bonds)[k].0,
            ),
        forall|k: int|
            0 <= k < vlan_entries(cfg.vlans).len() ==> has_keyfile(
                nm_files(cfg, root),
                nm_dir(root),
                (#[trigger] vlan_entries(cfg.vlans)[k]).0,
                "vlan"@,
                vlan_entries(cfg.vlans)[k].0,
            ),
{
    let dir = nm_dir(root);
    let all = nm_files(cfg, root);
    let es = ethernet_entries(cfg.ethernets);
    let bs = bridge_entries(cfg.bridges);
    let os = bond_entries(cfg.bonds);
    let vs = vlan_entries(cfg.vlans);
    let e = files_for(es, nm_ethernet_output(dir));
    let w = files_for(wifi_entries(cfg.wifis), nm_wifi_output(dir));
    let b = files_for(bs, nm_bridge_output(dir));
    let o = files_for(os, nm_bond_output(dir));
    let v = files_for(vs, nm_vlan_output(dir));
    let none = Seq::<(Seq<char>, Seq<char>)>::empty();
    assert(all == e + w + b + o + v);
    assert forall|k: int| 0 <= k < es.len() implies has_keyfile(
        all,
        dir,
        (#[trigger] es[k]).0,
        "ethernet"@,
        es[k].0,
    ) by {
        let (name, dev) = es[k];
        let t = lemma_files_for_item(es, nm_ethernet_output(dir), k);
        let q = files_for(es.take(k), nm_ethernet_output(dir));
        let x = (connection_path(dir, name), ethernet_text(name, dev));
        assert(all =~= none + (q + seq![x] + t) + (w + b + o + v));
        let i = lemma_index_of(none, q, x, t, w + b + o + v);
        lemma_keyfile_type(name, dev, arbitrary(), arbitrary(), arbitrary(), arbitrary(), arbitrary(), arbitrary());
        assert(all[i] == x);
    }
    assert forall|k: int| 0 <= k < bs.len() implies has_keyfile(
        all,
        dir,
        (#[trigger] bs[k]).0,
        "bridge"@,
        bs[k].0,
    ) by {
        let (name, dev) = bs[k];
        let t = lemma_files_for_item(bs, nm_bridge_output(dir), k);
        let q = files_for(bs.take(k), nm_bridge_output(dir));
        let x = (connection_path(dir, name), bridge_text(name, dev));
        assert(all =~= (e + w) + (q + seq![x] + t) + (o + v));
        let i = lemma_index_of(e + w, q, x, t, o + v);
        lemma_keyfile_type(name, arbitrary(), dev, arbitrary(), arbitrary(), arbitrary(), arbitrary(), arbitrary());
        assert(all[i] == x);
    }
    assert forall|k: int| 0 <= k < os.len() implies has_keyfile(
        all,
        dir,
        (#[trigger] os[k]).0,
        "bond"@,
        os[k].0,
    ) by {
        let (name, dev) = os[k];
        let t = lemma_files_for_item(os, nm_bond_output(dir), k);
        let q = files_for(os.take(k), nm_bond_output(dir));
        let x = (connection_path(dir, name), bond_text(name, dev));
        assert(all =~= (e + w + b) + (q + seq![x] + t) + v);
        let i = lemma_index_of(e + w + b, q, x, t, v);
        lemma_keyfile_type(name, arbitrary(), arbitrary(), dev, arbitrary(), arbitrary(), arbitrary(), arbitrary());
        assert(all[i] == x);
    }
    assert forall|k: int| 0 <= k < vs.len() implies has_keyfile(
        all,
        dir,
        (#[trigger] vs[k]).0,
        "vlan"@,
        vs[k].0,
    ) by {
        let (name, dev) = vs[k];
        let t = lemma_files_for_item(vs, nm_vlan_output(dir), k);
        let q = files_for(vs.take(k), nm_vlan_output(dir));
        let x = (connection_path(dir, name), vlan_text(name, dev));
        assert(all =~= (e + w + b + o) + (q + seq![x] + t) + none);
        let i = lemma_index_of(e + w + b + o, q, x, t, none);
        lemma_keyfile_type(name, arbitrary(), arbitrary(), arbitrary(), dev, arbitrary(), arbitrary(), arbitrary());
        assert(all[i] == x);
    }
}

impl Backend for NetworkManager {
    /// Renders `cfg` for NetworkManager: one keyfile per Ethernet interface,
    /// per access point of each Wi-Fi interface, per bridge, bond and VLAN,
    /// in that order.
    fn generate(&self, cfg: &NetworkConfig, root: &str) -> (r: Vec<OutputFile>)
        ensures
            files_view(r@) == nm_files(*cfg, root@),
    {
        let dir = crate::text::join_path(root, "run/NetworkManager/system-connections");
        let mut files: Vec<OutputFile> = Vec::new();
        assert(files_view(files@) =~= Seq::empty());
        push_nm_ethernet_files(&mut files, dir.as_str(), cfg);
        push_nm_wifi_files(&mut files, dir.as_str(), cfg);
        push_nm_bridge_files(&mut files, dir.as_str(), cfg);
        push_nm_bond_files(&mut files, dir.as_str(), cfg);
        push_nm_vlan_files(&mut files, dir.as_str(), cfg);
        files
    }
}

} // verus!
