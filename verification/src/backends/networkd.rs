//! The systemd-networkd renderer: one `.network` file per interface and one
//! `.netdev` file per virtual device, under `run/systemd/network`.
use crate::backends::{
    file_view, files_for, files_view, lemma_files_for_item, lemma_files_view_append, Backend,
    OutputFile,
};
use crate::config::types::{
    BondDef, BridgeDef, CommonDef, EthernetDef, Nameservers, Route, RoutingPolicy, TunnelDef,
    VlanDef, VrfDef, WifiDef, WireguardPeer,
};
use crate::config::maps::{
    bond_entries, bond_list, bridge_entries, bridge_list, device_entries, device_list,
    ethernet_entries, ethernet_list, has_name, name_position, tunnel_entries, tunnel_list,
    vlan_entries, vlan_list, vrf_entries, vrf_list, wifi_entries, wifi_list,
};
use crate::config::types::NetworkConfig;
use indexmap::IndexMap;
use crate::text::{
    join, join_strings, kv, opt_kv, opt_num_kv, opt_yn_kv, path_join, push_kv, push_opt_kv,
    push_opt_num_kv, push_opt_yn_kv, same_text, views, widen32, widen32_exec, contains_text,
    ends_with, lemma_contains_middle, lemma_contains_trans, lemma_contains_within, starts_with,
};
use vstd::prelude::*;

verus! {

/// The systemd-networkd backend.
pub struct Networkd;

/// The line for an optional name; nothing when there is none.
pub open spec fn opt_name_kv(prefix: Seq<char>, value: Option<Seq<char>>) -> Seq<char> {
    match value {
        Some(v) => kv(prefix, v),
        None => Seq::empty(),
    }
}

/// The `[Match]` section of a `.network` file: the match rules of the
/// device, or its name when it has none.
pub open spec fn match_text(id: Seq<char>, c: CommonDef) -> Seq<char> {
    "[Match]\n"@ + match c.match_ {
        Some(m) => opt_kv("Name="@, m.name) + opt_kv("MACAddress="@, m.macaddress) + match m.driver {
            Some(d) => kv("Driver="@, join(views(d@), " "@)),
            None => Seq::empty(),
        },
        None => kv("Name="@, id),
    } + "\n"@
}

/// The `DHCP=` line: both families, IPv4 only, IPv6 only, or none.
pub open spec fn dhcp_text(dhcp4: Option<bool>, dhcp6: Option<bool>) -> Seq<char> {
    if dhcp4 == Some(true) && dhcp6 == Some(true) {
        "DHCP=yes\n"@
    } else if dhcp4 == Some(true) {
        "DHCP=ipv4\n"@
    } else if dhcp6 == Some(true) {
        "DHCP=ipv6\n"@
    } else {
        Seq::empty()
    }
}

/// The `DNS=` and `Domains=` lines of a `[Network]` section.
pub open spec fn nameserver_text(ns: Option<Nameservers>) -> Seq<char> {
    match ns {
        Some(n) => (if n.addresses@.len() > 0 {
            kv("DNS="@, join(views(n.addresses@), " "@))
        } else {
            Seq::empty()
        }) + (if n.search@.len() > 0 {
            kv("Domains="@, join(views(n.search@), " "@))
        } else {
            Seq::empty()
        }),
        None => Seq::empty(),
    }
}

/// One `VLAN=` line per VLAN on top of the interface.
pub open spec fn vlan_lines(vlans: Seq<Seq<char>>) -> Seq<char>
    decreases vlans.len(),
{
    if vlans.len() == 0 {
        Seq::empty()
    } else {
        vlan_lines(vlans.drop_last()) + kv("VLAN="@, vlans.last())
    }
}

/// What an interface belongs to, as names.
pub struct MembershipView {
    pub bridge: Option<Seq<char>>,
    pub bond: Option<Seq<char>>,
    pub vrf: Option<Seq<char>>,
    pub vlans: Seq<Seq<char>>,
}

/// An interface that belongs to nothing.
pub open spec fn no_membership() -> MembershipView {
    MembershipView { bridge: None, bond: None, vrf: None, vlans: Seq::empty() }
}

/// The `[Network]` section: renamed name, DHCP, link-local addressing, the
/// bridge, bond, VRF and VLANs the interface belongs to, and name servers.
pub open spec fn network_text(c: CommonDef, m: MembershipView) -> Seq<char> {
    "[Network]\n"@ + opt_kv("Name="@, c.set_name) + dhcp_text(c.dhcp4, c.dhcp6) + match c.link_local {
        Some(ll) => kv("LinkLocalAddressing="@, join(views(ll@), " "@)),
        None => Seq::empty(),
    } + opt_name_kv("Bridge="@, m.bridge) + opt_name_kv("Bond="@, m.bond) + opt_name_kv(
        "VRF="@,
        m.vrf,
    ) + vlan_lines(m.vlans) + nameserver_text(c.nameservers) + "\n"@
}

/// One `[Address]` section per static address.
pub open spec fn address_text(addrs: Seq<String>) -> Seq<char>
    decreases addrs.len(),
{
    if addrs.len() == 0 {
        Seq::empty()
    } else {
        address_text(addrs.drop_last()) + "[Address]\n"@ + kv("Address="@, addrs.last()@) + "\n"@
    }
}

/// The end of a `[Route]` section: metric, table, blank line.
pub open spec fn route_tail(r: Route) -> Seq<char> {
    opt_num_kv("Metric="@, widen32(r.metric)) + opt_num_kv("Table="@, widen32(r.table)) + "\n"@
}

/// The `[Route]` section of one route. A default route is written with its
/// gateway only; a default route without a gateway is left out.
pub open spec fn route_section(r: Route) -> Seq<char> {
    match r.to {
        Some(to) => if to@ == "default"@ {
            match r.via {
                Some(v) => "[Route]\n"@ + kv("Gateway="@, v@) + route_tail(r),
                None => Seq::empty(),
            }
        } else {
            "[Route]\n"@ + kv("Destination="@, to@) + opt_kv("Gateway="@, r.via) + route_tail(r)
        },
        None => "[Route]\n"@ + route_tail(r),
    }
}

/// The `[Route]` sections of all routes.
pub open spec fn routes_text(routes: Seq<Route>) -> Seq<char>
    decreases routes.len(),
{
    if routes.len() == 0 {
        Seq::empty()
    } else {
        routes_text(routes.drop_last()) + route_section(routes.last())
    }
}

/// The `[RoutingPolicyRule]` section of one rule.
pub open spec fn policy_section(p: RoutingPolicy) -> Seq<char> {
    "[RoutingPolicyRule]\n"@ + opt_kv("From="@, p.from) + opt_kv("To="@, p.to) + opt_num_kv(
        "Table="@,
        widen32(p.table),
    ) + opt_num_kv("Priority="@, widen32(p.priority)) + "\n"@
}

/// The `[RoutingPolicyRule]` sections of all rules.
pub open spec fn policies_text(rules: Seq<RoutingPolicy>) -> Seq<char>
    decreases rules.len(),
{
    if rules.len() == 0 {
        Seq::empty()
    } else {
        policies_text(rules.drop_last()) + policy_section(rules.last())
    }
}

/// The `[DHCPv4]` section, present when DHCPv4 is on, with the overrides.
pub open spec fn dhcp_section(c: CommonDef) -> Seq<char> {
    if c.dhcp4 == Some(true) {
        "[DHCPv4]\n"@ + match c.dhcp4_overrides {
            Some(ov) => opt_yn_kv("UseDNS="@, ov.use_dns) + opt_yn_kv("UseNTP="@, ov.use_ntp)
                + opt_yn_kv("UseHostname="@, ov.use_hostname) + opt_yn_kv("UseMTU="@, ov.use_mtu)
                + opt_yn_kv("UseRoutes="@, ov.use_routes) + opt_kv("Hostname="@, ov.hostname)
                + opt_num_kv("RouteMetric="@, widen32(ov.route_metric)),
            None => Seq::empty(),
        } + "\n"@
    } else {
        Seq::empty()
    }
}

/// The `[Link]` section, present when a MAC address or an MTU is set.
pub open spec fn link_section(c: CommonDef) -> Seq<char> {
    if c.mtu.is_some() || c.macaddress.is_some() {
        "[Link]\n"@ + opt_kv("MACAddress="@, c.macaddress) + opt_num_kv(
            "MTUBytes="@,
            widen32(c.mtu),
        ) + "\n"@
    } else {
        Seq::empty()
    }
}

/// The whole `.network` file of a device.
#[verifier::opaque]
pub open spec fn network_file_text(id: Seq<char>, c: CommonDef, m: MembershipView) -> Seq<char> {
    match_text(id, c) + network_text(c, m) + address_text(c.addresses@) + routes_text(c.routes@)
        + policies_text(c.routing_policy@) + dhcp_section(c) + link_section(c)
}

/// Path of the `.network` file of `id` in `dir`.
pub open spec fn network_path(dir: Seq<char>, id: Seq<char>) -> Seq<char> {
    path_join(dir, "10-netplan-"@ + id + ".network"@)
}

/// Path of the `.netdev` file of `id` in `dir`.
pub open spec fn netdev_file_path(dir: Seq<char>, id: Seq<char>) -> Seq<char> {
    path_join(dir, "10-netplan-"@ + id + ".netdev"@)
}

fn file_name(id: &str, suffix: &str) -> (r: String)
    ensures
        r@ == "10-netplan-"@ + id@ + suffix@,
{
    broadcast use crate::text::group_text;
    let mut r = String::from_str("10-netplan-");
    r.append(id);
    r.append(suffix);
    r
}

/// Path of the `.network` file of `id`.
pub(crate) fn net_path(dir: &str, id: &str) -> (r: String)
    ensures
        r@ == network_path(dir@, id@),
{
    let name = file_name(id, ".network");
    crate::text::join_path(dir, name.as_str())
}

/// Path of the `.netdev` file of `id`.
pub(crate) fn netdev_path(dir: &str, id: &str) -> (r: String)
    ensures
        r@ == netdev_file_path(dir@, id@),
{
    let name = file_name(id, ".netdev");
    crate::text::join_path(dir, name.as_str())
}

fn write_match_section(out: &mut String, id: &str, common: &CommonDef)
    ensures
        final(out)@ == old(out)@ + match_text(id@, *common),
{
    broadcast use crate::text::group_text;
    out.append("[Match]\n");
    match &common.match_ {
        Some(m) => {
            push_opt_kv(out, "Name=", &m.name);
            push_opt_kv(out, "MACAddress=", &m.macaddress);
            match &m.driver {
                Some(d) => {
                    let j = join_strings(d, " ");
                    push_kv(out, "Driver=", j.as_str());
                },
                None => {},
            }
        },
        None => {
            push_kv(out, "Name=", id);
        },
    }
    out.append("\n");
}

fn write_dhcp_line(out: &mut String, dhcp4: Option<bool>, dhcp6: Option<bool>)
    ensures
        final(out)@ == old(out)@ + dhcp_text(dhcp4, dhcp6),
{
    broadcast use crate::text::group_text;
    if dhcp4 == Some(true) && dhcp6 == Some(true) {
        out.append("DHCP=yes\n");
    } else if dhcp4 == Some(true) {
        out.append("DHCP=ipv4\n");
    } else if dhcp6 == Some(true) {
        out.append("DHCP=ipv6\n");
    }
}

fn push_opt_name_kv(out: &mut String, prefix: &str, value: &Option<String>)
    ensures
        final(out)@ == old(out)@ + opt_name_kv(
            prefix@,
            match *value {
                Some(v) => Some(v@),
                None => None,
            },
        ),
{
    broadcast use crate::text::group_text;
    match value {
        Some(v) => push_kv(out, prefix, v.as_str()),
        None => {},
    }
}

fn write_nameservers(out: &mut String, ns: &Option<Nameservers>)
    ensures
        final(out)@ == old(out)@ + nameserver_text(*ns),
{
    broadcast use crate::text::group_text;
    match ns {
        Some(n) => {
            if n.addresses.len() > 0 {
                let j = join_strings(&n.addresses, " ");
                push_kv(out, "DNS=", j.as_str());
            }
            if n.search.len() > 0 {
                let j = join_strings(&n.search, " ");
                push_kv(out, "Domains=", j.as_str());
            }
        },
        None => {},
    }
}

fn write_vlan_lines(out: &mut String, vlans: &Vec<String>)
    ensures
        final(out)@ == old(out)@ + vlan_lines(views(vlans@)),
{
    broadcast use crate::text::group_text;
    let ghost start = out@;
    let ghost vs = views(vlans@);
    let n = vlans.len();
    let mut i: usize = 0;
    while i < n
        invariant
            n == vlans@.len(),
            vs == views(vlans@),
            i <= n,
            out@ == start + vlan_lines(vs.take(i as int)),
        decreases n - i,
    {
        assert(vs.take(i + 1).drop_last() =~= vs.take(i as int));
        assert(vs.take(i + 1).last() == vlans@[i as int]@);
        push_kv(out, "VLAN=", vlans[i].as_str());
        i = i + 1;
    }
    assert(vs.take(n as int) =~= vs);
}

/// What an interface belongs to: a bridge, a bond, a VRF, and the VLANs
/// built on it.
pub struct Membership {
    pub bridge: Option<String>,
    pub bond: Option<String>,
    pub vrf: Option<String>,
    pub vlans: Vec<String>,
}

/// The characters of an optional string.
pub open spec fn opt_view(o: Option<String>) -> Option<Seq<char>> {
    match o {
        Some(s) => Some(s@),
        None => None,
    }
}

impl View for Membership {
    type V = MembershipView;

    open spec fn view(&self) -> MembershipView {
        MembershipView {
            bridge: opt_view(self.bridge),
            bond: opt_view(self.bond),
            vrf: opt_view(self.vrf),
            vlans: views(self.vlans@),
        }
    }
}

fn copy_opt(o: &Option<String>) -> (r: Option<String>)
    ensures
        opt_view(r) == opt_view(*o),
{
    match o {
        Some(s) => Some(s.as_str().to_owned()),
        None => None,
    }
}

fn copy_strings(v: &Vec<String>) -> (r: Vec<String>)
    ensures
        views(r@) == views(v@),
{
    let mut r: Vec<String> = Vec::new();
    let n = v.len();
    let mut i: usize = 0;
    while i < n
        invariant
            n == v@.len(),
            i <= n,
            r@.len() == i,
            forall|j: int| 0 <= j < i ==> (#[trigger] r@[j])@ == v@[j]@,
        decreases n - i,
    {
        let x = v[i].as_str().to_owned();
        r.push(x);
        i = i + 1;
    }
    assert(views(r@) =~= views(v@));
    r
}

impl Membership {
    /// Belonging to nothing.
    pub fn none() -> (r: Membership)
        ensures
            r@ == no_membership(),
    {
        let r = Membership { bridge: None, bond: None, vrf: None, vlans: Vec::new() };
        assert(views(r.vlans@) =~= Seq::empty());
        r
    }

    /// An equal membership.
    pub fn copy(&self) -> (r: Membership)
        ensures
            r@ == self@,
    {
        Membership {
            bridge: copy_opt(&self.bridge),
            bond: copy_opt(&self.bond),
            vrf: copy_opt(&self.vrf),
            vlans: copy_strings(&self.vlans),
        }
    }
}

fn write_network_section(out: &mut String, common: &CommonDef, membership: &Membership)
    ensures
        final(out)@ == old(out)@ + network_text(*common, membership@),
{
    broadcast use crate::text::group_text;
    out.append("[Network]\n");
    push_opt_kv(out, "Name=", &common.set_name);
    write_dhcp_line(out, common.dhcp4, common.dhcp6);
    match &common.link_local {
        Some(ll) => {
            let j = join_strings(ll, " ");
            push_kv(out, "LinkLocalAddressing=", j.as_str());
        },
        None => {},
    }
    push_opt_name_kv(out, "Bridge=", &membership.bridge);
    push_opt_name_kv(out, "Bond=", &membership.bond);
    push_opt_name_kv(out, "VRF=", &membership.vrf);
    write_vlan_lines(out, &membership.vlans);
    write_nameservers(out, &common.nameservers);
    out.append("\n");
}

fn write_address_sections(out: &mut String, common: &CommonDef)
    ensures
        final(out)@ == old(out)@ + address_text(common.addresses@),
{
    broadcast use crate::text::group_text;
    let ghost start = out@;
    let addrs = &common.addresses;
    let n = addrs.len();
    let mut i: usize = 0;
    while i < n
        invariant
            n == addrs@.len(),
            i <= n,
            out@ == start + address_text(addrs@.take(i as int)),
        decreases n - i,
    {
        assert(addrs@.take(i + 1).drop_last() =~= addrs@.take(i as int));
        out.append("[Address]\n");
        push_kv(out, "Address=", addrs[i].as_str());
        out.append("\n");
        i = i + 1;
    }
    assert(addrs@.take(n as int) =~= addrs@);
}

fn write_route_tail(out: &mut String, route: &Route)
    ensures
        final(out)@ == old(out)@ + route_tail(*route),
{
    broadcast use crate::text::group_text;
    push_opt_num_kv(out, "Metric=", widen32_exec(route.metric));
    push_opt_num_kv(out, "Table=", widen32_exec(route.table));
    out.append("\n");
}

fn write_route(out: &mut String, route: &Route)
    ensures
        final(out)@ == old(out)@ + route_section(*route),
{
    broadcast use crate::text::group_text;
    match &route.to {
        Some(to) => {
            if same_text(to.as_str(), "default") {
                match &route.via {
                    Some(via) => {
                        out.append("[Route]\n");
                        push_kv(out, "Gateway=", via.as_str());
                        write_route_tail(out, route);
                    },
                    None => {},
                }
            } else {
                out.append("[Route]\n");
                push_kv(out, "Destination=", to.as_str());
                push_opt_kv(out, "Gateway=", &route.via);
                write_route_tail(out, route);
            }
        },
        None => {
            out.append("[Route]\n");
            write_route_tail(out, route);
        },
    }
}

fn write_route_sections(out: &mut String, common: &CommonDef)
    ensures
        final(out)@ == old(out)@ + routes_text(common.routes@),
{
    broadcast use crate::text::group_text;
    let ghost start = out@;
    let routes = &common.routes;
    let n = routes.len();
    let mut i: usize = 0;
    while i < n
        invariant
            n == routes@.len(),
            i <= n,
            out@ == start + routes_text(routes@.take(i as int)),
        decreases n - i,
    {
        assert(routes@.take(i + 1).drop_last() =~= routes@.take(i as int));
        write_route(out, &routes[i]);
        i = i + 1;
    }
    assert(routes@.take(n as int) =~= routes@);
}

fn write_policy(out: &mut String, rule: &RoutingPolicy)
    ensures
        final(out)@ == old(out)@ + policy_section(*rule),
{
    broadcast use crate::text::group_text;
    out.append("[RoutingPolicyRule]\n");
    push_opt_kv(out, "From=", &rule.from);
    push_opt_kv(out, "To=", &rule.to);
    push_opt_num_kv(out, "Table=", widen32_exec(rule.table));
    push_opt_num_kv(out, "Priority=", widen32_exec(rule.priority));
    out.append("\n");
}

fn write_routing_policy_sections(out: &mut String, common: &CommonDef)
    ensures
        final(out)@ == old(out)@ + policies_text(common.routing_policy@),
{
    broadcast use crate::text::group_text;
    let ghost start = out@;
    let rules = &common.routing_policy;
    let n = rules.len();
    let mut i: usize = 0;
    while i < n
        invariant
            n == rules@.len(),
            i <= n,
            out@ == start + policies_text(rules@.take(i as int)),
        decreases n - i,
    {
        assert(rules@.take(i + 1).drop_last() =~= rules@.take(i as int));
        write_policy(out, &rules[i]);
        i = i + 1;
    }
    assert(rules@.take(n as int) =~= rules@);
}

fn write_dhcp_sections(out: &mut String, common: &CommonDef)
    ensures
        final(out)@ == old(out)@ + dhcp_section(*common),
{
    broadcast use crate::text::group_text;
    if common.dhcp4 == Some(true) {
        out.append("[DHCPv4]\n");
        match &common.dhcp4_overrides {
            Some(ov) => {
                push_opt_yn_kv(out, "UseDNS=", ov.use_dns);
                push_opt_yn_kv(out, "UseNTP=", ov.use_ntp);
                push_opt_yn_kv(out, "UseHostname=", ov.use_hostname);
                push_opt_yn_kv(out, "UseMTU=", ov.use_mtu);
                push_opt_yn_kv(out, "UseRoutes=", ov.use_routes);
                push_opt_kv(out, "Hostname=", &ov.hostname);
                push_opt_num_kv(out, "RouteMetric=", widen32_exec(ov.route_metric));
            },
            None => {},
        }
        out.append("\n");
    }
}

fn write_link_section(out: &mut String, common: &CommonDef)
    ensures
        final(out)@ == old(out)@ + link_section(*common),
{
    broadcast use crate::text::group_text;
    if common.mtu.is_some() || common.macaddress.is_some() {
        out.append("[Link]\n");
        push_opt_kv(out, "MACAddress=", &common.macaddress);
        push_opt_num_kv(out, "MTUBytes=", widen32_exec(common.mtu));
        out.append("\n");
    }
}

/// The `.network` file of a device.
fn common_network_file(dir: &str, id: &str, common: &CommonDef, membership: &Membership) -> (r:
    OutputFile)
    ensures
        file_view(r) == (network_path(dir@, id@), network_file_text(id@, *common, membership@)),
{
    proof {
        reveal(network_file_text);
    }
    broadcast use crate::text::group_text;
    let mut out = String::new();
    write_match_section(&mut out, id, common);
    write_network_section(&mut out, common, membership);
    write_address_sections(&mut out, common);
    write_route_sections(&mut out, common);
    write_routing_policy_sections(&mut out, common);
    write_dhcp_sections(&mut out, common);
    write_link_section(&mut out, common);
    OutputFile { path: net_path(dir, id), content: out }
}

/// The `.network` file of an interface that is only named as a member.
#[verifier::opaque]
pub open spec fn stub_text(id: Seq<char>, m: MembershipView) -> Seq<char> {
    "[Match]\nName="@ + id + "\n\n"@ + "[Network]\n"@ + opt_name_kv("Bridge="@, m.bridge) + opt_name_kv(
        "Bond="@,
        m.bond,
    ) + opt_name_kv("VRF="@, m.vrf) + "\n"@
}

/// Minimal `.network` file for a member interface that is not declared as
/// any device.
fn member_stub_file(dir: &str, id: &str, membership: &Membership) -> (r: OutputFile)
    ensures
        file_view(r) == (network_path(dir@, id@), stub_text(id@, membership@)),
{
    proof {
        reveal(stub_text);
    }
    broadcast use crate::text::group_text;
    let mut out = String::from_str("[Match]\nName=");
    out.append(id);
    out.append("\n\n");
    out.append("[Network]\n");
    push_opt_name_kv(&mut out, "Bridge=", &membership.bridge);
    push_opt_name_kv(&mut out, "Bond=", &membership.bond);
    push_opt_name_kv(&mut out, "VRF=", &membership.vrf);
    out.append("\n");
    OutputFile { path: net_path(dir, id), content: out }
}

/// The start of a `.netdev` file.
pub open spec fn netdev_head(id: Seq<char>) -> Seq<char> {
    "[NetDev]\n"@ + kv("Name="@, id)
}

/// The line for an optional duration in milliseconds, written in seconds.
pub open spec fn opt_secs_kv(prefix: Seq<char>, value: Option<u32>) -> Seq<char> {
    match value {
        Some(v) => kv(prefix, crate::text::seconds_text(v as nat)),
        None => Seq::empty(),
    }
}

/// Widens an optional 16-bit number.
pub open spec fn widen16(v: Option<u16>) -> Option<u64> {
    match v {
        Some(x) => Some(x as u64),
        None => None,
    }
}

/// Widens an optional 8-bit number.
pub open spec fn widen8(v: Option<u8>) -> Option<u64> {
    match v {
        Some(x) => Some(x as u64),
        None => None,
    }
}

/// The `.netdev` file of a bridge.
#[verifier::opaque]
pub open spec fn bridge_netdev_text(id: Seq<char>, dev: BridgeDef) -> Seq<char> {
    netdev_head(id) + "Kind=bridge\n"@ + match dev.parameters {
        Some(p) => "\n"@ + "[Bridge]\n"@ + opt_yn_kv("STP="@, p.stp) + opt_num_kv(
            "ForwardDelaySec="@,
            widen32(p.forward_delay),
        ) + opt_num_kv("HelloTimeSec="@, widen32(p.hello_time)) + opt_num_kv(
            "MaxAgeSec="@,
            widen32(p.max_age),
        ) + opt_num_kv("AgeingTimeSec="@, widen32(p.ageing_time)),
        None => Seq::empty(),
    }
}

/// The `.netdev` file of a bond; intervals are given in milliseconds and
/// written in seconds.
#[verifier::opaque]
pub open spec fn bond_netdev_text(id: Seq<char>, dev: BondDef) -> Seq<char> {
    netdev_head(id) + "Kind=bond\n"@ + match dev.parameters {
        Some(p) => "\n"@ + "[Bond]\n"@ + opt_kv("Mode="@, p.mode) + opt_secs_kv(
            "MIIMonitorSec="@,
            p.mii_monitor_interval,
        ) + opt_secs_kv("UpDelaySec="@, p.up_delay) + opt_secs_kv("DownDelaySec="@, p.down_delay)
            + opt_kv("LACPTransmitRate="@, p.lacp_rate) + opt_kv(
            "TransmitHashPolicy="@,
            p.transmit_hash_policy,
        ) + opt_kv("AdSelect="@, p.ad_select),
        None => Seq::empty(),
    }
}

/// The `.netdev` file of a VLAN.
#[verifier::opaque]
pub open spec fn vlan_netdev_text(id: Seq<char>, dev: VlanDef) -> Seq<char> {
    netdev_head(id) + "Kind=vlan\n"@ + "\n"@ + "[VLAN]\n"@ + opt_num_kv("Id="@, widen16(dev.id))
}

/// The section name used for a tunnel kind.
pub open spec fn tunnel_section(kind: Seq<char>) -> Seq<char> {
    if kind == "wireguard"@ {
        "WireGuard"@
    } else if kind == "vxlan"@ {
        "VXLAN"@
    } else if kind == "sit"@ || kind == "gre"@ || kind == "ip6gre"@ || kind == "ipip"@ || kind
        == "ipip6"@ || kind == "ip6ip6"@ {
        "Tunnel"@
    } else {
        kind
    }
}

/// The `[WireGuardPeer]` section of one peer, preceded by a blank line.
pub open spec fn peer_section(p: WireguardPeer) -> Seq<char> {
    "\n"@ + "[WireGuardPeer]\n"@ + match p.keys {
        Some(k) => opt_kv("PublicKey="@, k.public) + opt_kv("PresharedKey="@, k.shared),
        None => Seq::empty(),
    } + match p.allowed_ips {
        Some(ips) => kv("AllowedIPs="@, join(views(ips@), ","@)),
        None => Seq::empty(),
    } + opt_kv("Endpoint="@, p.endpoint) + opt_num_kv("PersistentKeepalive="@, widen32(p.keepalive))
}

/// The peer sections of all peers.
pub open spec fn peers_text(peers: Seq<WireguardPeer>) -> Seq<char>
    decreases peers.len(),
{
    if peers.len() == 0 {
        Seq::empty()
    } else {
        peers_text(peers.drop_last()) + peer_section(peers.last())
    }
}

/// The `.netdev` file of a tunnel. The kind is the tunnel mode; without a
/// mode only the name is written. Peers are written for WireGuard only.
#[verifier::opaque]
pub open spec fn tunnel_netdev_text(id: Seq<char>, dev: TunnelDef) -> Seq<char> {
    netdev_head(id) + match dev.mode {
        Some(m) => kv("Kind="@, m@) + "\n"@ + "["@ + tunnel_section(m@) + "]\n"@ + opt_kv(
            "Local="@,
            dev.local,
        ) + opt_kv("Remote="@, dev.remote) + opt_num_kv("TTL="@, widen8(dev.ttl)) + if m@
            == "wireguard"@ {
            peers_text(dev.peers@)
        } else {
            Seq::empty()
        },
        None => Seq::empty(),
    }
}

/// The `.netdev` file of a VRF.
#[verifier::opaque]
pub open spec fn vrf_netdev_text(id: Seq<char>, dev: VrfDef) -> Seq<char> {
    netdev_head(id) + "Kind=vrf\n"@ + "\n"@ + "[VRF]\n"@ + opt_num_kv("Table="@, widen32(dev.table))
}

/// The `.netdev` file of a dummy device.
#[verifier::opaque]
pub open spec fn dummy_netdev_text(id: Seq<char>) -> Seq<char> {
    netdev_head(id) + "Kind=dummy\n"@
}

fn start_netdev(id: &str) -> (r: String)
    ensures
        r@ == netdev_head(id@),
{
    broadcast use crate::text::group_text;
    let mut r = String::from_str("[NetDev]\n");
    push_kv(&mut r, "Name=", id);
    r
}

fn push_opt_secs_kv(out: &mut String, prefix: &str, value: Option<u32>)
    ensures
        final(out)@ == old(out)@ + opt_secs_kv(prefix@, value),
{
    broadcast use crate::text::group_text;
    match value {
        Some(v) => {
            let t = crate::text::seconds_string(v);
            push_kv(out, prefix, t.as_str());
        },
        None => {},
    }
}

fn two_files(first: OutputFile, second: OutputFile) -> (r: Vec<OutputFile>)
    ensures
        files_view(r@) == seq![file_view(first), file_view(second)],
{
    let ghost a = file_view(first);
    let ghost b = file_view(second);
    let mut files = Vec::new();
    files.push(first);
    files.push(second);
    assert(files_view(files@) =~= seq![a, b]);
    files
}

fn ethernet_files(dir: &str, id: &str, dev: &EthernetDef, m: &Membership) -> (r: Vec<OutputFile>)
    ensures
        files_view(r@) == seq![(network_path(dir@, id@), network_file_text(id@, dev.common, m@))],
{
    let f = common_network_file(dir, id, &dev.common, m);
    let ghost a = file_view(f);
    let mut files = Vec::new();
    files.push(f);
    assert(files_view(files@) =~= seq![a]);
    files
}

fn wifi_files(dir: &str, id: &str, dev: &WifiDef, m: &Membership) -> (r: Vec<OutputFile>)
    ensures
        files_view(r@) == seq![(network_path(dir@, id@), network_file_text(id@, dev.common, m@))],
{
    let f = common_network_file(dir, id, &dev.common, m);
    let ghost a = file_view(f);
    let mut files = Vec::new();
    files.push(f);
    assert(files_view(files@) =~= seq![a]);
    files
}

fn bridge_netdev(id: &str, dev: &BridgeDef) -> (r: String)
    ensures
        r@ == bridge_netdev_text(id@, *dev),
{
    proof {
        reveal(bridge_netdev_text);
    }
    broadcast use crate::text::group_text;
    let mut netdev = start_netdev(id);
    netdev.append("Kind=bridge\n");
    match &dev.parameters {
        Some(params) => {
            netdev.append("\n");
            netdev.append("[Bridge]\n");
            push_opt_yn_kv(&mut netdev, "STP=", params.stp);
            push_opt_num_kv(&mut netdev, "ForwardDelaySec=", widen32_exec(params.forward_delay));
            push_opt_num_kv(&mut netdev, "HelloTimeSec=", widen32_exec(params.hello_time));
            push_opt_num_kv(&mut netdev, "MaxAgeSec=", widen32_exec(params.max_age));
            push_opt_num_kv(&mut netdev, "AgeingTimeSec=", widen32_exec(params.ageing_time));
        },
        None => {},
    }
    netdev
}

fn bridge_files(dir: &str, id: &str, dev: &BridgeDef, m: &Membership) -> (r: Vec<OutputFile>)
    ensures
        files_view(r@) == seq![
            (netdev_file_path(dir@, id@), bridge_netdev_text(id@, *dev)),
            (network_path(dir@, id@), network_file_text(id@, dev.common, m@)),
        ],
{
    let netdev = bridge_netdev(id, dev);
    let first = OutputFile { path: netdev_path(dir, id), content: netdev };
    two_files(first, common_network_file(dir, id, &dev.common, m))
}

fn bond_netdev(id: &str, dev: &BondDef) -> (r: String)
    ensures
        r@ == bond_netdev_text(id@, *dev),
{
    proof {
        reveal(bond_netdev_text);
    }
    broadcast use crate::text::group_text;
    let mut netdev = start_netdev(id);
    netdev.append("Kind=bond\n");
    match &dev.parameters {
        Some(params) => {
            netdev.append("\n");
            netdev.append("[Bond]\n");
            push_opt_kv(&mut netdev, "Mode=", &params.mode);
            push_opt_secs_kv(&mut netdev, "MIIMonitorSec=", params.mii_monitor_interval);
            push_opt_secs_kv(&mut netdev, "UpDelaySec=", params.up_delay);
            push_opt_secs_kv(&mut netdev, "DownDelaySec=", params.down_delay);
            push_opt_kv(&mut netdev, "LACPTransmitRate=", &params.lacp_rate);
            push_opt_kv(&mut netdev, "TransmitHashPolicy=", &params.transmit_hash_policy);
            push_opt_kv(&mut netdev, "AdSelect=", &params.ad_select);
        },
        None => {},
    }
    netdev
}

fn bond_files(dir: &str, id: &str, dev: &BondDef, m: &Membership) -> (r: Vec<OutputFile>)
    ensures
        files_view(r@) == seq![
            (netdev_file_path(dir@, id@), bond_netdev_text(id@, *dev)),
            (network_path(dir@, id@), network_file_text(id@, dev.common, m@)),
        ],
{
    let netdev = bond_netdev(id, dev);
    let first = OutputFile { path: netdev_path(dir, id), content: netdev };
    two_files(first, common_network_file(dir, id, &dev.common, m))
}

fn vlan_netdev(id: &str, dev: &VlanDef) -> (r: String)
    ensures
        r@ == vlan_netdev_text(id@, *dev),
{
    proof {
        reveal(vlan_netdev_text);
    }
    broadcast use crate::text::group_text;
    let mut netdev = start_netdev(id);
    netdev.append("Kind=vlan\n");
    netdev.append("\n");
    netdev.append("[VLAN]\n");
    let vid = match dev.id {
        Some(v) => Some(v as u64),
        None => None,
    };
    push_opt_num_kv(&mut netdev, "Id=", vid);
    netdev
}

fn vlan_files(dir: &str, id: &str, dev: &VlanDef, m: &Membership) -> (r: Vec<OutputFile>)
    ensures
        files_view(r@) == seq![
            (netdev_file_path(dir@, id@), vlan_netdev_text(id@, *dev)),
            (network_path(dir@, id@), network_file_text(id@, dev.common, m@)),
        ],
{
    let netdev = vlan_netdev(id, dev);
    let first = OutputFile { path: netdev_path(dir, id), content: netdev };
    two_files(first, common_network_file(dir, id, &dev.common, m))
}

/// The networkd kind of a tunnel mode: each mode names its own kind.
fn tunnel_mode_to_kind(mode: &str) -> (r: &str)
    ensures
        r@ == mode@,
{
    mode
}

/// The section name of a tunnel kind.
fn tunnel_section_name(kind: &str) -> (r: String)
    ensures
        r@ == tunnel_section(kind@),
{
    if same_text(kind, "wireguard") {
        String::from_str("WireGuard")
    } else if same_text(kind, "vxlan") {
        String::from_str("VXLAN")
    } else if same_text(kind, "sit") || same_text(kind, "gre") || same_text(kind, "ip6gre")
        || same_text(kind, "ipip") || same_text(kind, "ipip6") || same_text(kind, "ip6ip6") {
        String::from_str("Tunnel")
    } else {
        kind.to_owned()
    }
}

fn write_peer(out: &mut String, peer: &WireguardPeer)
    ensures
        final(out)@ == old(out)@ + peer_section(*peer),
{
    broadcast use crate::text::group_text;
    out.append("\n");
    out.append("[WireGuardPeer]\n");
    match &peer.keys {
        Some(keys) => {
            push_opt_kv(out, "PublicKey=", &keys.public);
            push_opt_kv(out, "PresharedKey=", &keys.shared);
        },
        None => {},
    }
    match &peer.allowed_ips {
        Some(ips) => {
            let j = join_strings(ips, ",");
            push_kv(out, "AllowedIPs=", j.as_str());
        },
        None => {},
    }
    push_opt_kv(out, "Endpoint=", &peer.endpoint);
    push_opt_num_kv(out, "PersistentKeepalive=", widen32_exec(peer.keepalive));
}

fn write_peers(out: &mut String, peers: &Vec<WireguardPeer>)
    ensures
        final(out)@ == old(out)@ + peers_text(peers@),
{
    broadcast use crate::text::group_text;
    let ghost start = out@;
    let n = peers.len();
    let mut i: usize = 0;
    while i < n
        invariant
            n == peers@.len(),
            i <= n,
            out@ == start + peers_text(peers@.take(i as int)),
        decreases n - i,
    {
        assert(peers@.take(i + 1).drop_last() =~= peers@.take(i as int));
        write_peer(out, &peers[i]);
        i = i + 1;
    }
    assert(peers@.take(n as int) =~= peers@);
}

fn tunnel_netdev(id: &str, dev: &TunnelDef) -> (r: String)
    ensures
        r@ == tunnel_netdev_text(id@, *dev),
{
    proof {
        reveal(tunnel_netdev_text);
    }
    broadcast use crate::text::group_text;
    let mut netdev = start_netdev(id);
    match &dev.mode {
        Some(mode) => {
            let kind = tunnel_mode_to_kind(mode.as_str());
            push_kv(&mut netdev, "Kind=", kind);
            netdev.append("\n");
            let section = tunnel_section_name(kind);
            netdev.append("[");
            netdev.append(section.as_str());
            netdev.append("]\n");
            push_opt_kv(&mut netdev, "Local=", &dev.local);
            push_opt_kv(&mut netdev, "Remote=", &dev.remote);
            let ttl = match dev.ttl {
                Some(v) => Some(v as u64),
                None => None,
            };
            push_opt_num_kv(&mut netdev, "TTL=", ttl);
            if same_text(kind, "wireguard") {
                write_peers(&mut netdev, &dev.peers);
            }
        },
        None => {},
    }
    netdev
}

fn tunnel_files(dir: &str, id: &str, dev: &TunnelDef, m: &Membership) -> (r: Vec<OutputFile>)
    ensures
        files_view(r@) == seq![
            (netdev_file_path(dir@, id@), tunnel_netdev_text(id@, *dev)),
            (network_path(dir@, id@), network_file_text(id@, dev.common, m@)),
        ],
{
    let netdev = tunnel_netdev(id, dev);
    let first = OutputFile { path: netdev_path(dir, id), content: netdev };
    two_files(first, common_network_file(dir, id, &dev.common, m))
}

fn vrf_netdev(id: &str, dev: &VrfDef) -> (r: String)
    ensures
        r@ == vrf_netdev_text(id@, *dev),
{
    proof {
        reveal(vrf_netdev_text);
    }
    broadcast use crate::text::group_text;
    let mut netdev = start_netdev(id);
    netdev.append("Kind=vrf\n");
    netdev.append("\n");
    netdev.append("[VRF]\n");
    push_opt_num_kv(&mut netdev, "Table=", widen32_exec(dev.table));
    netdev
}

fn vrf_files(dir: &str, id: &str, dev: &VrfDef, m: &Membership) -> (r: Vec<OutputFile>)
    ensures
        files_view(r@) == seq![
            (netdev_file_path(dir@, id@), vrf_netdev_text(id@, *dev)),
            (network_path(dir@, id@), network_file_text(id@, dev.common, m@)),
        ],
{
    let netdev = vrf_netdev(id, dev);
    let first = OutputFile { path: netdev_path(dir, id), content: netdev };
    two_files(first, common_network_file(dir, id, &dev.common, m))
}

fn dummy_netdev(id: &str) -> (r: String)
    ensures
        r@ == dummy_netdev_text(id@),
{
    proof {
        reveal(dummy_netdev_text);
    }
    broadcast use crate::text::group_text;
    let mut netdev = start_netdev(id);
    netdev.append("Kind=dummy\n");
    netdev
}

fn dummy_files(dir: &str, id: &str, dev: &CommonDef, m: &Membership) -> (r: Vec<OutputFile>)
    ensures
        files_view(r@) == seq![
            (netdev_file_path(dir@, id@), dummy_netdev_text(id@)),
            (network_path(dir@, id@), network_file_text(id@, *dev, m@)),
        ],
{
    let netdev = dummy_netdev(id);
    let first = OutputFile { path: netdev_path(dir, id), content: netdev };
    two_files(first, common_network_file(dir, id, dev, m))
}

/// What a member is claimed for.
#[derive(Clone, Copy, PartialEq, Eq, Structural)]
pub enum Role {
    Bridge,
    Bond,
    Vrf,
    Vlan,
}

/// `m` after being claimed by `id` for `role`: the bridge, bond or VRF is
/// replaced, a VLAN is added.
pub open spec fn with_role(m: MembershipView, role: Role, id: Seq<char>) -> MembershipView {
    match role {
        Role::Bridge => MembershipView { bridge: Some(id), ..m },
        Role::Bond => MembershipView { bond: Some(id), ..m },
        Role::Vrf => MembershipView { vrf: Some(id), ..m },
        Role::Vlan => MembershipView { vlans: m.vlans.push(id), ..m },
    }
}

/// The memberships after `name` is claimed by `id` for `role`: a member
/// already listed keeps its place, a new member is added last.
pub open spec fn claim(
    ms: Seq<(Seq<char>, MembershipView)>,
    name: Seq<char>,
    role: Role,
    id: Seq<char>,
) -> Seq<(Seq<char>, MembershipView)> {
    let p = name_position(ms, name);
    if p >= 0 {
        ms.update(p, (ms[p].0, with_role(ms[p].1, role, id)))
    } else {
        ms.push((name, with_role(no_membership(), role, id)))
    }
}

/// Every name of `names` claimed in turn.
pub open spec fn claim_all(
    ms: Seq<(Seq<char>, MembershipView)>,
    names: Seq<Seq<char>>,
    role: Role,
    id: Seq<char>,
) -> Seq<(Seq<char>, MembershipView)>
    decreases names.len(),
{
    if names.len() == 0 {
        ms
    } else {
        claim(claim_all(ms, names.drop_last(), role, id), names.last(), role, id)
    }
}

/// Bridges claim their interfaces.
pub open spec fn bridge_claims(
    ms: Seq<(Seq<char>, MembershipView)>,
    devs: Seq<(Seq<char>, BridgeDef)>,
) -> Seq<(Seq<char>, MembershipView)>
    decreases devs.len(),
{
    if devs.len() == 0 {
        ms
    } else {
        claim_all(
            bridge_claims(ms, devs.drop_last()),
            views(devs.last().1.interfaces@),
            Role::Bridge,
            devs.last().0,
        )
    }
}

/// Bonds claim their interfaces.
pub open spec fn bond_claims(
    ms: Seq<(Seq<char>, MembershipView)>,
    devs: Seq<(Seq<char>, BondDef)>,
) -> Seq<(Seq<char>, MembershipView)>
    decreases devs.len(),
{
    if devs.len() == 0 {
        ms
    } else {
        claim_all(
            bond_claims(ms, devs.drop_last()),
            views(devs.last().1.interfaces@),
            Role::Bond,
            devs.last().0,
        )
    }
}

/// VLANs claim their parent link.
pub open spec fn vlan_claims(
    ms: Seq<(Seq<char>, MembershipView)>,
    devs: Seq<(Seq<char>, VlanDef)>,
) -> Seq<(Seq<char>, MembershipView)>
    decreases devs.len(),
{
    if devs.len() == 0 {
        ms
    } else {
        let prev = vlan_claims(ms, devs.drop_last());
        match devs.last().1.link {
            Some(parent) => claim(prev, parent@, Role::Vlan, devs.last().0),
            None => prev,
        }
    }
}

/// VRFs claim their interfaces.
pub open spec fn vrf_claims(
    ms: Seq<(Seq<char>, MembershipView)>,
    devs: Seq<(Seq<char>, VrfDef)>,
) -> Seq<(Seq<char>, MembershipView)>
    decreases devs.len(),
{
    if devs.len() == 0 {
        ms
    } else {
        claim_all(
            vrf_claims(ms, devs.drop_last()),
            views(devs.last().1.interfaces@),
            Role::Vrf,
            devs.last().0,
        )
    }
}

/// Every interface named as a member, with what it belongs to, in the order
/// in which bridges, bonds, VLANs and VRFs first name them.
pub open spec fn memberships(cfg: NetworkConfig) -> Seq<(Seq<char>, MembershipView)> {
    vrf_claims(
        vlan_claims(
            bond_claims(
                bridge_claims(Seq::empty(), bridge_entries(cfg.bridges)),
                bond_entries(cfg.bonds),
            ),
            vlan_entries(cfg.vlans),
        ),
        vrf_entries(cfg.vrfs),
    )
}

/// The membership of `id`, or none.
pub open spec fn membership_for(ms: Seq<(Seq<char>, MembershipView)>, id: Seq<char>) -> MembershipView {
    let p = name_position(ms, id);
    if p >= 0 {
        ms[p].1
    } else {
        no_membership()
    }
}

/// The memberships held by a membership map, in insertion order.
pub uninterp spec fn membership_entries(m: IndexMap<String, Membership>) -> Seq<
    (Seq<char>, MembershipView),
>;

/// An empty membership map: `IndexMap::new`.
#[verifier::external_body]
fn new_membership_map() -> (r: IndexMap<String, Membership>)
    ensures
        membership_entries(r) == Seq::<(Seq<char>, MembershipView)>::empty(),
{
    IndexMap::new()
}

/// The membership stored for `key`: `IndexMap::get`, which finds the one
/// entry with that key.
#[verifier::external_body]
fn membership_get<'a>(m: &'a IndexMap<String, Membership>, key: &str) -> (r: Option<
    &'a Membership,
>)
    ensures
        name_position(membership_entries(*m), key@) >= 0 ==> r is Some && r->0@ == membership_entries(
            *m,
        )[name_position(membership_entries(*m), key@)].1,
        name_position(membership_entries(*m), key@) < 0 ==> r is None,
{
    m.get(key)
}

/// Stores `value` for `key`: `IndexMap::insert`, which keeps an existing key
/// in its place and replaces its value, or adds a new key last.
#[verifier::external_body]
fn membership_insert(m: &mut IndexMap<String, Membership>, key: String, value: Membership)
    ensures
        membership_entries(*final(m)) == ({
            let e = membership_entries(*old(m));
            let p = name_position(e, key@);
            if p >= 0 {
                e.update(p, (e[p].0, value@))
            } else {
                e.push((key@, value@))
            }
        }),
{
    m.insert(key, value);
}

/// The memberships in order: `IndexMap::iter`, collected.
#[verifier::external_body]
fn membership_list(m: &IndexMap<String, Membership>) -> (r: Vec<(&String, &Membership)>)
    ensures
        r@.len() == membership_entries(*m).len(),
        forall|i: int|
            0 <= i < r@.len() ==> (#[trigger] r@[i]).0@ == membership_entries(*m)[i].0 && r@[i].1@
                == membership_entries(*m)[i].1,
{
    m.iter().collect()
}

/// `name` claimed by `id` for `role`.
fn claim_member(ms: &mut IndexMap<String, Membership>, name: &String, role: Role, id: &String)
    ensures
        membership_entries(*final(ms)) == claim(membership_entries(*old(ms)), name@, role, id@),
{
    let mut m = match membership_get(ms, name.as_str()) {
        Some(existing) => existing.copy(),
        None => Membership::none(),
    };
    let ghost before = m@;
    match role {
        Role::Bridge => {
            m.bridge = Some(id.as_str().to_owned());
        },
        Role::Bond => {
            m.bond = Some(id.as_str().to_owned());
        },
        Role::Vrf => {
            m.vrf = Some(id.as_str().to_owned());
        },
        Role::Vlan => {
            let v = id.as_str().to_owned();
            let ghost vl = m.vlans@;
            m.vlans.push(v);
            assert(views(m.vlans@) =~= views(vl).push(id@));
        },
    }
    assert(m@ == with_role(before, role, id@));
    membership_insert(ms, name.as_str().to_owned(), m);
}

/// All of `names` claimed by `id` for `role`.
fn claim_members(ms: &mut IndexMap<String, Membership>, names: &Vec<String>, role: Role, id: &String)
    ensures
        membership_entries(*final(ms)) == claim_all(
            membership_entries(*old(ms)),
            views(names@),
            role,
            id@,
        ),
{
    let ghost start = membership_entries(*ms);
    let ghost vs = views(names@);
    let n = names.len();
    let mut i: usize = 0;
    while i < n
        invariant
            n == names@.len(),
            vs == views(names@),
            i <= n,
            membership_entries(*ms) == claim_all(start, vs.take(i as int), role, id@),
        decreases n - i,
    {
        assert(vs.take(i + 1).drop_last() =~= vs.take(i as int));
        assert(vs.take(i + 1).last() == names@[i as int]@);
        claim_member(ms, &names[i], role, id);
        i = i + 1;
    }
    assert(vs.take(n as int) =~= vs);
}

/// The memberships of a configuration.
fn collect_memberships(cfg: &NetworkConfig) -> (r: IndexMap<String, Membership>)
    ensures
        membership_entries(r) == memberships(*cfg),
{
    let mut ms = new_membership_map();
    let bridges = bridge_list(&cfg.bridges);
    let ghost be = bridge_entries(cfg.bridges);
    let n = bridges.len();
    let mut i: usize = 0;
    while i < n
        invariant
            n == bridges@.len() == be.len(),
            be == bridge_entries(cfg.bridges),
            forall|j: int|
                0 <= j < bridges@.len() ==> (#[trigger] bridges@[j]).0@ == be[j].0 && *bridges@[j].1
                    == be[j].1,
            i <= n,
            membership_entries(ms) == bridge_claims(Seq::empty(), be.take(i as int)),
        decreases n - i,
    {
        assert(be.take(i + 1).drop_last() =~= be.take(i as int));
        let (id, dev) = bridges[i];
        claim_members(&mut ms, &dev.interfaces, Role::Bridge, id);
        i = i + 1;
    }
    assert(be.take(n as int) =~= be);
    let ghost after_bridges = membership_entries(ms);
    let bonds = bond_list(&cfg.bonds);
    let ghost oe = bond_entries(cfg.bonds);
    let n = bonds.len();
    let mut i: usize = 0;
    while i < n
        invariant
            n == bonds@.len() == oe.len(),
            oe == bond_entries(cfg.bonds),
            forall|j: int|
                0 <= j < bonds@.len() ==> (#[trigger] bonds@[j]).0@ == oe[j].0 && *bonds@[j].1
                    == oe[j].1,
            i <= n,
            membership_entries(ms) == bond_claims(after_bridges, oe.take(i as int)),
        decreases n - i,
    {
        assert(oe.take(i + 1).drop_last() =~= oe.take(i as int));
        let (id, dev) = bonds[i];
        claim_members(&mut ms, &dev.interfaces, Role::Bond, id);
        i = i + 1;
    }
    assert(oe.take(n as int) =~= oe);
    let ghost after_bonds = membership_entries(ms);
    let vlans = vlan_list(&cfg.vlans);
    let ghost ve = vlan_entries(cfg.vlans);
    let n = vlans.len();
    let mut i: usize = 0;
    while i < n
        invariant
            n == vlans@.len() == ve.len(),
            ve == vlan_entries(cfg.vlans),
            forall|j: int|
                0 <= j < vlans@.len() ==> (#[trigger] vlans@[j]).0@ == ve[j].0 && *vlans@[j].1
                    == ve[j].1,
            i <= n,
            membership_entries(ms) == vlan_claims(after_bonds, ve.take(i as int)),
        decreases n - i,
    {
        assert(ve.take(i + 1).drop_last() =~= ve.take(i as int));
        let (id, dev) = vlans[i];
        match &dev.link {
            Some(parent) => claim_member(&mut ms, parent, Role::Vlan, id),
            None => {},
        }
        i = i + 1;
    }
    assert(ve.take(n as int) =~= ve);
    let ghost after_vlans = membership_entries(ms);
    let vrfs = vrf_list(&cfg.vrfs);
    let ghost re = vrf_entries(cfg.vrfs);
    let n = vrfs.len();
    let mut i: usize = 0;
    while i < n
        invariant
            n == vrfs@.len() == re.len(),
            re == vrf_entries(cfg.vrfs),
            forall|j: int|
                0 <= j < vrfs@.len() ==> (#[trigger] vrfs@[j]).0@ == re[j].0 && *vrfs@[j].1
                    == re[j].1,
            i <= n,
            membership_entries(ms) == vrf_claims(after_vlans, re.take(i as int)),
        decreases n - i,
    {
        assert(re.take(i + 1).drop_last() =~= re.take(i as int));
        let (id, dev) = vrfs[i];
        claim_members(&mut ms, &dev.interfaces, Role::Vrf, id);
        i = i + 1;
    }
    assert(re.take(n as int) =~= re);
    ms
}

fn membership_of<'a>(ms: &'a IndexMap<String, Membership>, id: &str, none: &'a Membership) -> (r:
    &'a Membership)
    requires
        none@ == no_membership(),
    ensures
        r@ == membership_for(membership_entries(*ms), id@),
{
    match membership_get(ms, id) {
        Some(m) => m,
        None => none,
    }
}

/// How each of the ethernets is rendered.
pub open spec fn ethernet_output(dir: Seq<char>, ms: Seq<(Seq<char>, MembershipView)>) -> spec_fn(
    Seq<char>,
    EthernetDef,
) -> Seq<(Seq<char>, Seq<char>)> {
    |id: Seq<char>, dev: EthernetDef| seq![(network_path(dir, id), network_file_text(id, dev.common, membership_for(ms, id)))]
}

fn push_ethernet_files(
    files: &mut Vec<OutputFile>,
    dir: &str,
    cfg: &NetworkConfig,
    ms: &IndexMap<String, Membership>,
    none: &Membership,
)
    requires
        none@ == no_membership(),
    ensures
        files_view(final(files)@) == files_view(old(files)@) + files_for(
            ethernet_entries(cfg.ethernets),
            ethernet_output(dir@, membership_entries(*ms)),
        ),
{
    let ghost start = files_view(files@);
    let ghost f = ethernet_output(dir@, membership_entries(*ms));
    let devs = ethernet_list(&cfg.ethernets);
    let ghost e = ethernet_entries(cfg.ethernets);
    let n = devs.len();
    let mut i: usize = 0;
    while i < n
        invariant
            n == devs@.len() == e.len(),
            e == ethernet_entries(cfg.ethernets),
            f == ethernet_output(dir@, membership_entries(*ms)),
            none@ == no_membership(),
            forall|j: int|
                0 <= j < devs@.len() ==> (#[trigger] devs@[j]).0@ == e[j].0 && *devs@[j].1 == e[j].1,
            i <= n,
            files_view(files@) == start + files_for(e.take(i as int), f),
        decreases n - i,
    {
        assert(e.take(i + 1).drop_last() =~= e.take(i as int));
        let (id, dev) = devs[i];
        let m = membership_of(ms, id.as_str(), none);
        let mut more = ethernet_files(dir, id.as_str(), dev, m);
        let ghost before = files@;
        let ghost added = more@;
        files.append(&mut more);
        proof {
            lemma_files_view_append(before, added);
        }
        i = i + 1;
    }
    assert(e.take(n as int) =~= e);
}

/// How each of the wifis is rendered.
pub open spec fn wifi_output(dir: Seq<char>, ms: Seq<(Seq<char>, MembershipView)>) -> spec_fn(
    Seq<char>,
    WifiDef,
) -> Seq<(Seq<char>, Seq<char>)> {
    |id: Seq<char>, dev: WifiDef| seq![(network_path(dir, id), network_file_text(id, dev.common, membership_for(ms, id)))]
}

fn push_wifi_files(
    files: &mut Vec<OutputFile>,
    dir: &str,
    cfg: &NetworkConfig,
    ms: &IndexMap<String, Membership>,
    none: &Membership,
)
    requires
        none@ == no_membership(),
    ensures
        files_view(final(files)@) == files_view(old(files)@) + files_for(
            wifi_entries(cfg.wifis),
            wifi_output(dir@, membership_entries(*ms)),
        ),
{
    let ghost start = files_view(files@);
    let ghost f = wifi_output(dir@, membership_entries(*ms));
    let devs = wifi_list(&cfg.wifis);
    let ghost e = wifi_entries(cfg.wifis);
    let n = devs.len();
    let mut i: usize = 0;
    while i < n
        invariant
            n == devs@.len() == e.len(),
            e == wifi_entries(cfg.wifis),
            f == wifi_output(dir@, membership_entries(*ms)),
            none@ == no_membership(),
            forall|j: int|
                0 <= j < devs@.len() ==> (#[trigger] devs@[j]).0@ == e[j].0 && *devs@[j].1 == e[j].1,
            i <= n,
            files_view(files@) == start + files_for(e.take(i as int), f),
        decreases n - i,
    {
        assert(e.take(i + 1).drop_last() =~= e.take(i as int));
        let (id, dev) = devs[i];
        let m = membership_of(ms, id.as_str(), none);
        let mut more = wifi_files(dir, id.as_str(), dev, m);
        let ghost before = files@;
        let ghost added = more@;
        files.append(&mut more);
        proof {
            lemma_files_view_append(before, added);
        }
        i = i + 1;
    }
    assert(e.take(n as int) =~= e);
}

/// How each of the bridges is rendered.
pub open spec fn bridge_output(dir: Seq<char>, ms: Seq<(Seq<char>, MembershipView)>) -> spec_fn(
    Seq<char>,
    BridgeDef,
) -> Seq<(Seq<char>, Seq<char>)> {
    |id: Seq<char>, dev: BridgeDef| seq![(netdev_file_path(dir, id), bridge_netdev_text(id, dev)), (network_path(dir, id), network_file_text(id, dev.common, membership_for(ms, id)))]
}

fn push_bridge_files(
    files: &mut Vec<OutputFile>,
    dir: &str,
    cfg: &NetworkConfig,
    ms: &IndexMap<String, Membership>,
    none: &Membership,
)
    requires
        none@ == no_membership(),
    ensures
        files_view(final(files)@) == files_view(old(files)@) + files_for(
            bridge_entries(cfg.bridges),
            bridge_output(dir@, membership_entries(*ms)),
        ),
{
    let ghost start = files_view(files@);
    let ghost f = bridge_output(dir@, membership_entries(*ms));
    let devs = bridge_list(&cfg.bridges);
    let ghost e = bridge_entries(cfg.bridges);
    let n = devs.len();
    let mut i: usize = 0;
    while i < n
        invariant
            n == devs@.len() == e.len(),
            e == bridge_entries(cfg.bridges),
            f == bridge_output(dir@, membership_entries(*ms)),
            none@ == no_membership(),
            forall|j: int|
                0 <= j < devs@.len() ==> (#[trigger] devs@[j]).0@ == e[j].0 && *devs@[j].1 == e[j].1,
            i <= n,
            files_view(files@) == start + files_for(e.take(i as int), f),
        decreases n - i,
    {
        assert(e.take(i + 1).drop_last() =~= e.take(i as int));
        let (id, dev) = devs[i];
        let m = membership_of(ms, id.as_str(), none);
        let mut more = bridge_files(dir, id.as_str(), dev, m);
        let ghost before = files@;
        let ghost added = more@;
        files.append(&mut more);
        proof {
            lemma_files_view_append(before, added);
        }
        i = i + 1;
    }
    assert(e.take(n as int) =~= e);
}

/// How each of the bonds is rendered.
pub open spec fn bond_output(dir: Seq<char>, ms: Seq<(Seq<char>, MembershipView)>) -> spec_fn(
    Seq<char>,
    BondDef,
) -> Seq<(Seq<char>, Seq<char>)> {
    |id: Seq<char>, dev: BondDef| seq![(netdev_file_path(dir, id), bond_netdev_text(id, dev)), (network_path(dir, id), network_file_text(id, dev.common, membership_for(ms, id)))]
}

fn push_bond_files(
    files: &mut Vec<OutputFile>,
    dir: &str,
    cfg: &NetworkConfig,
    ms: &IndexMap<String, Membership>,
    none: &Membership,
)
    requires
        none@ == no_membership(),
    ensures
        files_view(final(files)@) == files_view(old(files)@) + files_for(
            bond_entries(cfg.bonds),
            bond_output(dir@, membership_entries(*ms)),
        ),
{
    let ghost start = files_view(files@);
    let ghost f = bond_output(dir@, membership_entries(*ms));
    let devs = bond_list(&cfg.bonds);
    let ghost e = bond_entries(cfg.bonds);
    let n = devs.len();
    let mut i: usize = 0;
    while i < n
        invariant
            n == devs@.len() == e.len(),
            e == bond_entries(cfg.bonds),
            f == bond_output(dir@, membership_entries(*ms)),
            none@ == no_membership(),
            forall|j: int|
                0 <= j < devs@.len() ==> (#[trigger] devs@[j]).0@ == e[j].0 && *devs@[j].1 == e[j].1,
            i <= n,
            files_view(files@) == start + files_for(e.take(i as int), f),
        decreases n - i,
    {
        assert(e.take(i + 1).drop_last() =~= e.take(i as int));
        let (id, dev) = devs[i];
        let m = membership_of(ms, id.as_str(), none);
        let mut more = bond_files(dir, id.as_str(), dev, m);
        let ghost before = files@;
        let ghost added = more@;
        files.append(&mut more);
        proof {
            lemma_files_view_append(before, added);
        }
        i = i + 1;
    }
    assert(e.take(n as int) =~= e);
}

/// How each of the vlans is rendered.
pub open spec fn vlan_output(dir: Seq<char>, ms: Seq<(Seq<char>, MembershipView)>) -> spec_fn(
    Seq<char>,
    VlanDef,
) -> Seq<(Seq<char>, Seq<char>)> {
    |id: Seq<char>, dev: VlanDef| seq![(netdev_file_path(dir, id), vlan_netdev_text(id, dev)), (network_path(dir, id), network_file_text(id, dev.common, membership_for(ms, id)))]
}

fn push_vlan_files(
    files: &mut Vec<OutputFile>,
    dir: &str,
    cfg: &NetworkConfig,
    ms: &IndexMap<String, Membership>,
    none: &Membership,
)
    requires
        none@ == no_membership(),
    ensures
        files_view(final(files)@) == files_view(old(files)@) + files_for(
            vlan_entries(cfg.vlans),
            vlan_output(dir@, membership_entries(*ms)),
        ),
{
    let ghost start = files_view(files@);
    let ghost f = vlan_output(dir@, membership_entries(*ms));
    let devs = vlan_list(&cfg.vlans);
    let ghost e = vlan_entries(cfg.vlans);
    let n = devs.len();
    let mut i: usize = 0;
    while i < n
        invariant
            n == devs@.len() == e.len(),
            e == vlan_entries(cfg.vlans),
            f == vlan_output(dir@, membership_entries(*ms)),
            none@ == no_membership(),
            forall|j: int|
                0 <= j < devs@.len() ==> (#[trigger] devs@[j]).0@ == e[j].0 && *devs@[j].1 == e[j].1,
            i <= n,
            files_view(files@) == start + files_for(e.take(i as int), f),
        decreases n - i,
    {
        assert(e.take(i + 1).drop_last() =~= e.take(i as int));
        let (id, dev) = devs[i];
        let m = membership_of(ms, id.as_str(), none);
        let mut more = vlan_files(dir, id.as_str(), dev, m);
        let ghost before = files@;
        let ghost added = more@;
        files.append(&mut more);
        proof {
            lemma_files_view_append(before, added);
        }
        i = i + 1;
    }
    assert(e.take(n as int) =~= e);
}

/// How each of the tunnels is rendered.
pub open spec fn tunnel_output(dir: Seq<char>, ms: Seq<(Seq<char>, MembershipView)>) -> spec_fn(
    Seq<char>,
    TunnelDef,
) -> Seq<(Seq<char>, Seq<char>)> {
    |id: Seq<char>, dev: TunnelDef| seq![(netdev_file_path(dir, id), tunnel_netdev_text(id, dev)), (network_path(dir, id), network_file_text(id, dev.common, membership_for(ms, id)))]
}

fn push_tunnel_files(
    files: &mut Vec<OutputFile>,
    dir: &str,
    cfg: &NetworkConfig,
    ms: &IndexMap<String, Membership>,
    none: &Membership,
)
    requires
        none@ == no_membership(),
    ensures
        files_view(final(files)@) == files_view(old(files)@) + files_for(
            tunnel_entries(cfg.tunnels),
            tunnel_output(dir@, membership_entries(*ms)),
        ),
{
    let ghost start = files_view(files@);
    let ghost f = tunnel_output(dir@, membership_entries(*ms));
    let devs = tunnel_list(&cfg.tunnels);
    let ghost e = tunnel_entries(cfg.tunnels);
    let n = devs.len();
    let mut i: usize = 0;
    while i < n
        invariant
            n == devs@.len() == e.len(),
            e == tunnel_entries(cfg.tunnels),
            f == tunnel_output(dir@, membership_entries(*ms)),
            none@ == no_membership(),
            forall|j: int|
                0 <= j < devs@.len() ==> (#[trigger] devs@[j]).0@ == e[j].0 && *devs@[j].1 == e[j].1,
            i <= n,
            files_view(files@) == start + files_for(e.take(i as int), f),
        decreases n - i,
    {
        assert(e.take(i + 1).drop_last() =~= e.take(i as int));
        let (id, dev) = devs[i];
        let m = membership_of(ms, id.as_str(), none);
        let mut more = tunnel_files(dir, id.as_str(), dev, m);
        let ghost before = files@;
        let ghost added = more@;
        files.append(&mut more);
        proof {
            lemma_files_view_append(before, added);
        }
        i = i + 1;
    }
    assert(e.take(n as int) =~= e);
}

/// How each of the vrfs is rendered.
pub open spec fn vrf_output(dir: Seq<char>, ms: Seq<(Seq<char>, MembershipView)>) -> spec_fn(
    Seq<char>,
    VrfDef,
) -> Seq<(Seq<char>, Seq<char>)> {
    |id: Seq<char>, dev: VrfDef| seq![(netdev_file_path(dir, id), vrf_netdev_text(id, dev)), (network_path(dir, id), network_file_text(id, dev.common, membership_for(ms, id)))]
}

fn push_vrf_files(
    files: &mut Vec<OutputFile>,
    dir: &str,
    cfg: &NetworkConfig,
    ms: &IndexMap<String, Membership>,
    none: &Membership,
)
    requires
        none@ == no_membership(),
    ensures
        files_view(final(files)@) == files_view(old(files)@) + files_for(
            vrf_entries(cfg.vrfs),
            vrf_output(dir@, membership_entries(*ms)),
        ),
{
    let ghost start = files_view(files@);
    let ghost f = vrf_output(dir@, membership_entries(*ms));
    let devs = vrf_list(&cfg.vrfs);
    let ghost e = vrf_entries(cfg.vrfs);
    let n = devs.len();
    let mut i: usize = 0;
    while i < n
        invariant
            n == devs@.len() == e.len(),
            e == vrf_entries(cfg.vrfs),
            f == vrf_output(dir@, membership_entries(*ms)),
            none@ == no_membership(),
            forall|j: int|
                0 <= j < devs@.len() ==> (#[trigger] devs@[j]).0@ == e[j].0 && *devs@[j].1 == e[j].1,
            i <= n,
            files_view(files@) == start + files_for(e.take(i as int), f),
        decreases n - i,
    {
        assert(e.take(i + 1).drop_last() =~= e.take(i as int));
        let (id, dev) = devs[i];
        let m = membership_of(ms, id.as_str(), none);
        let mut more = vrf_files(dir, id.as_str(), dev, m);
        let ghost before = files@;
        let ghost added = more@;
        files.append(&mut more);
        proof {
            lemma_files_view_append(before, added);
        }
        i = i + 1;
    }
    assert(e.take(n as int) =~= e);
}

/// How each of the dummy_devices is rendered.
pub open spec fn device_output(dir: Seq<char>, ms: Seq<(Seq<char>, MembershipView)>) -> spec_fn(
    Seq<char>,
    CommonDef,
) -> Seq<(Seq<char>, Seq<char>)> {
    |id: Seq<char>, dev: CommonDef| seq![(netdev_file_path(dir, id), dummy_netdev_text(id)), (network_path(dir, id), network_file_text(id, dev, membership_for(ms, id)))]
}

fn push_device_files(
    files: &mut Vec<OutputFile>,
    dir: &str,
    cfg: &NetworkConfig,
    ms: &IndexMap<String, Membership>,
    none: &Membership,
)
    requires
        none@ == no_membership(),
    ensures
        files_view(final(files)@) == files_view(old(files)@) + files_for(
            device_entries(cfg.dummy_devices),
            device_output(dir@, membership_entries(*ms)),
        ),
{
    let ghost start = files_view(files@);
    let ghost f = device_output(dir@, membership_entries(*ms));
    let devs = device_list(&cfg.dummy_devices);
    let ghost e = device_entries(cfg.dummy_devices);
    let n = devs.len();
    let mut i: usize = 0;
    while i < n
        invariant
            n == devs@.len() == e.len(),
            e == device_entries(cfg.dummy_devices),
            f == device_output(dir@, membership_entries(*ms)),
            none@ == no_membership(),
            forall|j: int|
                0 <= j < devs@.len() ==> (#[trigger] devs@[j]).0@ == e[j].0 && *devs@[j].1 == e[j].1,
            i <= n,
            files_view(files@) == start + files_for(e.take(i as int), f),
        decreases n - i,
    {
        assert(e.take(i + 1).drop_last() =~= e.take(i as int));
        let (id, dev) = devs[i];
        let m = membership_of(ms, id.as_str(), none);
        let mut more = dummy_files(dir, id.as_str(), dev, m);
        let ghost before = files@;
        let ghost added = more@;
        files.append(&mut more);
        proof {
            lemma_files_view_append(before, added);
        }
        i = i + 1;
    }
    assert(e.take(n as int) =~= e);
}

/// Whether `name` is declared as a device of a type the networkd renderer
/// writes.
pub open spec fn declared(cfg: NetworkConfig, name: Seq<char>) -> bool {
    ||| has_name(ethernet_entries(cfg.ethernets), name)
    ||| has_name(wifi_entries(cfg.wifis), name)
    ||| has_name(bridge_entries(cfg.bridges), name)
    ||| has_name(bond_entries(cfg.bonds), name)
    ||| has_name(vlan_entries(cfg.vlans), name)
    ||| has_name(tunnel_entries(cfg.tunnels), name)
    ||| has_name(vrf_entries(cfg.vrfs), name)
    ||| has_name(device_entries(cfg.dummy_devices), name)
}

/// The stub files of the members that are not declared as devices.
pub open spec fn stub_files(
    dir: Seq<char>,
    ms: Seq<(Seq<char>, MembershipView)>,
    cfg: NetworkConfig,
) -> Seq<(Seq<char>, Seq<char>)>
    decreases ms.len(),
{
    if ms.len() == 0 {
        Seq::empty()
    } else {
        stub_files(dir, ms.drop_last(), cfg) + if declared(cfg, ms.last().0) {
            Seq::empty()
        } else {
            seq![(network_path(dir, ms.last().0), stub_text(ms.last().0, ms.last().1))]
        }
    }
}

/// Whether a list of entries has one named `name`.
fn listed<V>(list: &Vec<(&String, &V)>, name: &str) -> (r: bool)
    ensures
        r == exists|j: int| 0 <= j < list@.len() && (#[trigger] list@[j]).0@ == name@,
{
    let n = list.len();
    let mut i: usize = 0;
    while i < n
        invariant
            n == list@.len(),
            i <= n,
            forall|j: int| 0 <= j < i ==> (#[trigger] list@[j]).0@ != name@,
        decreases n - i,
    {
        if same_text(list[i].0.as_str(), name) {
            return true;
        }
        i = i + 1;
    }
    false
}

proof fn lemma_listed<V>(list: Seq<(&String, &V)>, entries: Seq<(Seq<char>, V)>, name: Seq<char>)
    requires
        list.len() == entries.len(),
        forall|j: int| 0 <= j < list.len() ==> (#[trigger] list[j]).0@ == entries[j].0,
    ensures
        (exists|j: int| 0 <= j < list.len() && (#[trigger] list[j]).0@ == name) == has_name(
            entries,
            name,
        ),
{
    if has_name(entries, name) {
        let j = choose|j: int| 0 <= j < entries.len() && entries[j].0 == name;
        assert(list[j].0@ == name);
    }
}

/// Whether `name` is declared as a device.
fn is_declared(cfg: &NetworkConfig, name: &str) -> (r: bool)
    ensures
        r == declared(*cfg, name@),
{
    let a = ethernet_list(&cfg.ethernets);
    let b = wifi_list(&cfg.wifis);
    let c = bridge_list(&cfg.bridges);
    let d = bond_list(&cfg.bonds);
    let e = vlan_list(&cfg.vlans);
    let f = tunnel_list(&cfg.tunnels);
    let g = vrf_list(&cfg.vrfs);
    let h = device_list(&cfg.dummy_devices);
    proof {
        lemma_listed(a@, ethernet_entries(cfg.ethernets), name@);
        lemma_listed(b@, wifi_entries(cfg.wifis), name@);
        lemma_listed(c@, bridge_entries(cfg.bridges), name@);
        lemma_listed(d@, bond_entries(cfg.bonds), name@);
        lemma_listed(e@, vlan_entries(cfg.vlans), name@);
        lemma_listed(f@, tunnel_entries(cfg.tunnels), name@);
        lemma_listed(g@, vrf_entries(cfg.vrfs), name@);
        lemma_listed(h@, device_entries(cfg.dummy_devices), name@);
    }
    listed(&a, name) || listed(&b, name) || listed(&c, name) || listed(&d, name) || listed(&e, name)
        || listed(&f, name) || listed(&g, name) || listed(&h, name)
}

fn push_stub_files(
    files: &mut Vec<OutputFile>,
    dir: &str,
    cfg: &NetworkConfig,
    ms: &IndexMap<String, Membership>,
)
    ensures
        files_view(final(files)@) == files_view(old(files)@) + stub_files(
            dir@,
            membership_entries(*ms),
            *cfg,
        ),
{
    let ghost start = files_view(files@);
    let list = membership_list(ms);
    let ghost e = membership_entries(*ms);
    let n = list.len();
    let mut i: usize = 0;
    while i < n
        invariant
            n == list@.len() == e.len(),
            e == membership_entries(*ms),
            forall|j: int|
                0 <= j < list@.len() ==> (#[trigger] list@[j]).0@ == e[j].0 && list@[j].1@ == e[j].1,
            i <= n,
            files_view(files@) == start + stub_files(dir@, e.take(i as int), *cfg),
        decreases n - i,
    {
        assert(e.take(i + 1).drop_last() =~= e.take(i as int));
        let (id, m) = list[i];
        let ghost before = files@;
        if !is_declared(cfg, id.as_str()) {
            let f = member_stub_file(dir, id.as_str(), m);
            files.push(f);
            assert(files_view(files@) =~= files_view(before).push(file_view(f)));
        }
        i = i + 1;
    }
    assert(e.take(n as int) =~= e);
}

/// Everything the networkd renderer writes for a configuration below `root`.
pub open spec fn networkd_files(cfg: NetworkConfig, root: Seq<char>) -> Seq<(Seq<char>, Seq<char>)> {
    let dir = path_join(root, "run/systemd/network"@);
    let ms = memberships(cfg);
    files_for(ethernet_entries(cfg.ethernets), ethernet_output(dir, ms)) + files_for(
        wifi_entries(cfg.wifis),
        wifi_output(dir, ms),
    ) + files_for(bridge_entries(cfg.bridges), bridge_output(dir, ms)) + files_for(
        bond_entries(cfg.bonds),
        bond_output(dir, ms),
    ) + files_for(vlan_entries(cfg.vlans), vlan_output(dir, ms)) + files_for(
        tunnel_entries(cfg.tunnels),
        tunnel_output(dir, ms),
    ) + files_for(vrf_entries(cfg.vrfs), vrf_output(dir, ms)) + files_for(
        device_entries(cfg.dummy_devices),
        device_output(dir, ms),
    ) + stub_files(dir, ms, cfg)
}


/// The same device with DHCP off for both address families.
pub open spec fn without_dhcp(c: CommonDef) -> CommonDef {
    CommonDef { dhcp4: None, dhcp6: None, ..c }
}

/// The `.network` file of `c` is the one of the same device with DHCP off,
/// with `line` added to the `[Network]` section right after its header (and
/// the `Name=` line), and, when DHCPv4 is on, a `[DHCPv4]` section added
/// after the routing policy rules.
pub open spec fn dhcp_adds(id: Seq<char>, c: CommonDef, m: MembershipView, line: Seq<char>) -> bool {
    exists|pre: Seq<char>, mid: Seq<char>, d: Seq<char>, post: Seq<char>|
        #![trigger pre + mid + post, pre + line + mid + d + post]
        network_file_text(id, without_dhcp(c), m) == pre + mid + post
            && network_file_text(id, c, m) == pre + line + mid + d + post
            && ends_with(pre, "[Network]\n"@ + opt_kv("Name="@, c.set_name))
            && (if c.dhcp4 == Some(true) {
                starts_with(d, "[DHCPv4]\n"@)
            } else {
                d.len() == 0
            })
}

proof fn lemma_regroup_network(
    h: Seq<char>,
    l: Seq<char>,
    a: Seq<char>,
    b: Seq<char>,
    c: Seq<char>,
    d: Seq<char>,
    e: Seq<char>,
    f: Seq<char>,
    g: Seq<char>,
)
    ensures
        h + l + a + b + c + d + e + f + g == h + l + (a + b + c + d + e + f + g),
{
    assert(h + l + a + b + c + d + e + f + g =~= h + l + (a + b + c + d + e + f + g));
}

proof fn lemma_regroup_file(
    m: Seq<char>,
    h: Seq<char>,
    l: Seq<char>,
    rest: Seq<char>,
    a: Seq<char>,
    r: Seq<char>,
    p: Seq<char>,
    d: Seq<char>,
    k: Seq<char>,
)
    ensures
        m + (h + l + rest) + a + r + p + d + k == (m + h) + l + (rest + a + r + p) + d + k,
{
    assert(m + (h + l + rest) + a + r + p + d + k =~= (m + h) + l + (rest + a + r + p) + d + k);
}

/// The `.network` file cut around its `DHCP=` line and `[DHCPv4]` section.
proof fn lemma_dhcp_parts(id: Seq<char>, c: CommonDef, m: MembershipView) -> (r: (
    Seq<char>,
    Seq<char>,
    Seq<char>,
    Seq<char>,
))
    ensures
        network_file_text(id, without_dhcp(c), m) == r.0 + r.1 + r.3,
        network_file_text(id, c, m) == r.0 + dhcp_text(c.dhcp4, c.dhcp6) + r.1 + r.2 + r.3,
        ends_with(r.0, "[Network]\n"@ + opt_kv("Name="@, c.set_name)),
        r.2 == dhcp_section(c),
{
    reveal(network_file_text);
    let off = without_dhcp(c);
    let e = Seq::<char>::empty();
    let line = dhcp_text(c.dhcp4, c.dhcp6);
    let head = "[Network]\n"@ + opt_kv("Name="@, c.set_name);
    let ll = match c.link_local {
        Some(ll) => kv("LinkLocalAddressing="@, join(views(ll@), " "@)),
        None => Seq::empty(),
    };
    let br = opt_name_kv("Bridge="@, m.bridge);
    let bo = opt_name_kv("Bond="@, m.bond);
    let vr = opt_name_kv("VRF="@, m.vrf);
    let vl = vlan_lines(m.vlans);
    let ns = nameserver_text(c.nameservers);
    let nl = "\n"@;
    let rest = ll + br + bo + vr + vl + ns + nl;
    let mt = match_text(id, c);
    let at = address_text(c.addresses@);
    let rt = routes_text(c.routes@);
    let pt = policies_text(c.routing_policy@);
    let d = dhcp_section(c);
    let post = link_section(c);
    let pre = mt + head;
    let mid = rest + at + rt + pt;
    lemma_regroup_network(head, line, ll, br, bo, vr, vl, ns, nl);
    lemma_regroup_network(head, e, ll, br, bo, vr, vl, ns, nl);
    assert(dhcp_text(off.dhcp4, off.dhcp6) == e);
    assert(network_text(c, m) == head + line + rest);
    assert(network_text(off, m) == head + e + rest);
    assert(match_text(id, off) == mt);
    assert(dhcp_section(off) == e);
    assert(link_section(off) == post);
    lemma_regroup_file(mt, head, line, rest, at, rt, pt, d, post);
    lemma_regroup_file(mt, head, e, rest, at, rt, pt, e, post);
    assert(network_file_text(id, c, m) == pre + line + mid + d + post);
    assert(network_file_text(id, off, m) == pre + e + mid + e + post);
    crate::text::lemma_text_empty_right(pre);
    crate::text::lemma_text_empty_right(pre + mid);
    assert(pre.skip(pre.len() - head.len()) =~= head);
    (pre, mid, d, post)
}

/// The `DHCP=` line names exactly the address families whose DHCP flag is
/// on: `yes` for both, `ipv4` or `ipv6` for one; with neither on the file
/// is the one with DHCP off. Nothing else in the file changes but the
/// `[DHCPv4]` section that DHCPv4 brings.
pub proof fn lemma_dhcp_line(id: Seq<char>, c: CommonDef, m: MembershipView)
    ensures
        c.dhcp4 == Some(true) && c.dhcp6 == Some(true) ==> dhcp_adds(id, c, m, "DHCP=yes\n"@),
        c.dhcp4 == Some(true) && c.dhcp6 != Some(true) ==> dhcp_adds(id, c, m, "DHCP=ipv4\n"@),
        c.dhcp4 != Some(true) && c.dhcp6 == Some(true) ==> dhcp_adds(id, c, m, "DHCP=ipv6\n"@),
        c.dhcp4 != Some(true) && c.dhcp6 != Some(true) ==> network_file_text(id, c, m)
            == network_file_text(id, without_dhcp(c), m),
        c.dhcp4 == Some(true) && c.dhcp6 == Some(true) ==> contains_text(
            network_file_text(id, c, m),
            "DHCP=yes\n"@,
        ),
        c.dhcp4 == Some(true) && c.dhcp6 != Some(true) ==> contains_text(
            network_file_text(id, c, m),
            "DHCP=ipv4\n"@,
        ),
        c.dhcp4 != Some(true) && c.dhcp6 == Some(true) ==> contains_text(
            network_file_text(id, c, m),
            "DHCP=ipv6\n"@,
        ),
{
    let (pre, mid, d, post) = lemma_dhcp_parts(id, c, m);
    let line = dhcp_text(c.dhcp4, c.dhcp6);
    if c.dhcp4 == Some(true) {
        reveal_strlit("[DHCPv4]\n");
        assert(d.take(9) =~= "[DHCPv4]\n"@);
    } else {
        assert(d.len() == 0);
    }
    assert(pre + line + mid + d + post =~= pre + line + (mid + d + post));
    lemma_contains_middle(pre, line, mid + d + post);
    if c.dhcp4 != Some(true) && c.dhcp6 != Some(true) {
        assert(pre + line + mid + d + post =~= pre + mid + post);
    }
}

/// The sections of the first routes are the beginning of those of all.
proof fn lemma_routes_prefix(routes: Seq<Route>, k: int) -> (y: Seq<char>)
    requires
        0 <= k <= routes.len(),
    ensures
        routes_text(routes) == routes_text(routes.take(k)) + y,
    decreases routes.len(),
{
    if k == routes.len() {
        assert(routes.take(k) =~= routes);
        crate::text::lemma_text_empty_right(routes_text(routes));
        Seq::empty()
    } else {
        let y0 = lemma_routes_prefix(routes.drop_last(), k);
        assert(routes.drop_last().take(k) =~= routes.take(k));
        crate::text::lemma_text_assoc(routes_text(routes.take(k)), y0, route_section(routes.last()));
        y0 + route_section(routes.last())
    }
}

proof fn lemma_regroup_around(
    m: Seq<char>,
    n: Seq<char>,
    a: Seq<char>,
    r: Seq<char>,
    p: Seq<char>,
    d: Seq<char>,
    k: Seq<char>,
)
    ensures
        m + n + a + r + p + d + k == (m + n + a) + r + (p + d + k),
{
    assert(m + n + a + r + p + d + k =~= (m + n + a) + r + (p + d + k));
}

/// What the `[Route]` section of a route with a destination and a gateway
/// begins with: the header and the gateway for the default route; the
/// header, the destination and the gateway for any other.
pub open spec fn route_head(to: Seq<char>, via: Seq<char>) -> Seq<char> {
    if to == "default"@ {
        "[Route]\n"@ + "Gateway="@ + via + "\n"@
    } else {
        "[Route]\n"@ + "Destination="@ + to + "\n"@ + "Gateway="@ + via + "\n"@
    }
}

/// The `.network` file of a device holds the section of each of its routes.
proof fn lemma_file_has_route(id: Seq<char>, c: CommonDef, m: MembershipView, j: int)
    requires
        0 <= j < c.routes@.len(),
    ensures
        contains_text(network_file_text(id, c, m), route_section(c.routes@[j])),
{
    let routes = c.routes@;
    let sec = route_section(routes[j]);
    let y = lemma_routes_prefix(routes, j + 1);
    assert(routes.take(j + 1).drop_last() =~= routes.take(j));
    assert(routes.take(j + 1).last() == routes[j]);
    lemma_contains_middle(routes_text(routes.take(j)), sec, y);
    reveal(network_file_text);
    let mt = match_text(id, c);
    let nt = network_text(c, m);
    let at = address_text(c.addresses@);
    let rt = routes_text(routes);
    let pt = policies_text(c.routing_policy@);
    let dt = dhcp_section(c);
    let lt = link_section(c);
    lemma_regroup_around(mt, nt, at, rt, pt, dt, lt);
    lemma_contains_within(rt, sec, mt + nt + at, pt + dt + lt);
}

/// The section of a route with a destination and a gateway begins with its
/// head.
proof fn lemma_route_section_head(r: Route)
    requires
        r.to is Some,
        r.via is Some,
    ensures
        contains_text(route_section(r), route_head(r.to.unwrap()@, r.via.unwrap()@)),
{
    let e = Seq::<char>::empty();
    let line = route_head(r.to.unwrap()@, r.via.unwrap()@);
    let tail = route_tail(r);
    assert(route_section(r) =~= e + line + tail);
    lemma_contains_middle(e, line, tail);
}

/// The head of a route's section holds its `Gateway=` line.
proof fn lemma_route_head_gateway(to: Seq<char>, via: Seq<char>)
    ensures
        contains_text(route_head(to, via), "Gateway="@ + via + "\n"@),
{
    let e = Seq::<char>::empty();
    let gw = "Gateway="@ + via + "\n"@;
    let lead = if to == "default"@ {
        "[Route]\n"@
    } else {
        "[Route]\n"@ + "Destination="@ + to + "\n"@
    };
    assert(route_head(to, via) =~= lead + gw + e);
    lemma_contains_middle(lead, gw, e);
}

/// Every route with a destination and a gateway is written in the
/// `.network` file of its device with a `Gateway=` line in its own
/// `[Route]` section: right after the header for the default route, right
/// after its `Destination=` line for any other.
pub proof fn lemma_route_gateway(id: Seq<char>, c: CommonDef, m: MembershipView, j: int)
    requires
        0 <= j < c.routes@.len(),
        c.routes@[j].to is Some,
        c.routes@[j].via is Some,
    ensures
        contains_text(
            network_file_text(id, c, m),
            route_head(c.routes@[j].to.unwrap()@, c.routes@[j].via.unwrap()@),
        ),
        contains_text(network_file_text(id, c, m), "Gateway="@ + c.routes@[j].via.unwrap()@ + "\n"@),
{
    let r = c.routes@[j];
    let line = route_head(r.to.unwrap()@, r.via.unwrap()@);
    lemma_file_has_route(id, c, m, j);
    lemma_route_section_head(r);
    lemma_contains_trans(network_file_text(id, c, m), route_section(r), line);
    lemma_route_head_gateway(r.to.unwrap()@, r.via.unwrap()@);
    lemma_contains_trans(network_file_text(id, c, m), line, "Gateway="@ + r.via.unwrap()@ + "\n"@);
}

/// Each Ethernet interface of the configuration gets a `.network` file
/// named after it, rendered from its settings and what it belongs to; so the
/// `DHCP=` line and the route sections that `lemma_dhcp_line` and
/// `lemma_route_gateway` describe are those of the generated files.
pub proof fn lemma_networkd_ethernet_files(cfg: NetworkConfig, root: Seq<char>)
    ensures
        forall|k: int|
            0 <= k < ethernet_entries(cfg.ethernets).len() ==> exists|i: int|
                0 <= i < networkd_files(cfg, root).len() && #[trigger] networkd_files(cfg, root)[i]
                    == (
                    network_path(
                        path_join(root, "run/systemd/network"@),
                        (#[trigger] ethernet_entries(cfg.ethernets)[k]).0,
                    ),
                    network_file_text(
                        ethernet_entries(cfg.ethernets)[k].0,
                        ethernet_entries(cfg.ethernets)[k].1.common,
                        membership_for(memberships(cfg), ethernet_entries(cfg.ethernets)[k].0),
                    ),
                ),
{
    let dir = path_join(root, "run/systemd/network"@);
    let ms = memberships(cfg);
    let all = networkd_files(cfg, root);
    let es = ethernet_entries(cfg.ethernets);
    let e = files_for(es, ethernet_output(dir, ms));
    let rest = all.skip(e.len() as int);
    assert(all =~= e + rest);
    assert forall|k: int| 0 <= k < es.len() implies exists|i: int|
        0 <= i < all.len() && #[trigger] all[i] == (
            network_path(dir, (#[trigger] es[k]).0),
            network_file_text(es[k].0, es[k].1.common, membership_for(ms, es[k].0)),
        ) by {
        let (name, dev) = es[k];
        let t = lemma_files_for_item(es, ethernet_output(dir, ms), k);
        let q = files_for(es.take(k), ethernet_output(dir, ms));
        let x = (network_path(dir, name), network_file_text(name, dev.common, membership_for(ms, name)));
        assert(e == q + seq![x] + t);
        let i: int = q.len() as int;
        assert(all[i] == (q + seq![x] + t)[i]);
    }
}

impl Backend for Networkd {
    /// Renders `cfg` for systemd-networkd: for each declared device, in the
    /// order of the device types, its `.netdev` file (virtual devices) and
    /// its `.network` file, with the bridge, bond, VRF and VLANs it belongs
    /// to; then a stub `.network` file for each member interface that is not
    /// declared.
    fn generate(&self, cfg: &NetworkConfig, root: &str) -> (r: Vec<OutputFile>)
        ensures
            files_view(r@) == networkd_files(*cfg, root@),
    {
        let dir = crate::text::join_path(root, "run/systemd/network");
        let ms = collect_memberships(cfg);
        let none = Membership::none();
        let mut files: Vec<OutputFile> = Vec::new();
        assert(files_view(files@) =~= Seq::empty());
        push_ethernet_files(&mut files, dir.as_str(), cfg, &ms, &none);
        push_wifi_files(&mut files, dir.as_str(), cfg, &ms, &none);
        push_bridge_files(&mut files, dir.as_str(), cfg, &ms, &none);
        push_bond_files(&mut files, dir.as_str(), cfg, &ms, &none);
        push_vlan_files(&mut files, dir.as_str(), cfg, &ms, &none);
        push_tunnel_files(&mut files, dir.as_str(), cfg, &ms, &none);
        push_vrf_files(&mut files, dir.as_str(), cfg, &ms, &none);
        push_device_files(&mut files, dir.as_str(), cfg, &ms, &none);
        push_stub_files(&mut files, dir.as_str(), cfg, &ms);
        files
    }
}

} // verus!
