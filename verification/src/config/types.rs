//! The netplan configuration model: one type per YAML section, with the
//! field names of the YAML keys.
use indexmap::IndexMap;
use vstd::prelude::*;

verus! {
#[derive(Debug, Default)]
pub struct NetplanFile {
    pub network: NetworkConfig,
}

#[derive(Debug, Default)]
pub struct NetworkConfig {
    pub version: Option<u32>,
    pub renderer: Option<Renderer>,
    pub ethernets: IndexMap<String, EthernetDef>,
    pub wifis: IndexMap<String, WifiDef>,
    pub modems: IndexMap<String, CommonDef>,
    pub bridges: IndexMap<String, BridgeDef>,
    pub bonds: IndexMap<String, BondDef>,
    pub vlans: IndexMap<String, VlanDef>,
    pub tunnels: IndexMap<String, TunnelDef>,
    pub vrfs: IndexMap<String, VrfDef>,
    pub dummy_devices: IndexMap<String, CommonDef>,
    pub virtual_ethernets: IndexMap<String, VethDef>,
    pub nm_devices: IndexMap<String, CommonDef>,
}

#[derive(Debug, Clone, Copy, PartialEq, Eq, Structural)]
pub enum Renderer {
    Networkd,
    NetworkManager,
}

impl Default for Renderer {
    /// `networkd` is the renderer when none is named.
    fn default() -> (r: Self)
        ensures
            r == Renderer::Networkd,
    {
        Renderer::Networkd
    }
}

/// The renderer in effect when `r` is configured: the one named, else
/// networkd.
pub open spec fn effective_renderer(r: Option<Renderer>) -> Renderer {
    match r {
        Some(x) => x,
        None => Renderer::Networkd,
    }
}

/// The renderer in effect when `r` is configured.
pub fn renderer_or_default(r: &Option<Renderer>) -> (x: Renderer)
    ensures
        x == effective_renderer(*r),
{
    match r {
        Some(Renderer::Networkd) => Renderer::Networkd,
        Some(Renderer::NetworkManager) => Renderer::NetworkManager,
        None => Renderer::default(),
    }
}

/// The name of a renderer as `Debug` prints it.
pub open spec fn renderer_name(r: Renderer) -> Seq<char> {
    match r {
        Renderer::Networkd => "Networkd"@,
        Renderer::NetworkManager => "NetworkManager"@,
    }
}

impl Renderer {
    /// The name of the renderer as `Debug` prints it.
    pub fn name(&self) -> (r: &'static str)
        ensures
            r@ == renderer_name(*self),
    {
        match self {
            Renderer::Networkd => "Networkd",
            Renderer::NetworkManager => "NetworkManager",
        }
    }
}

/// Fields common to all device types.
#[derive(Debug, Clone, Default)]
pub struct CommonDef {
    pub renderer: Option<Renderer>,
    pub dhcp4: Option<bool>,
    pub dhcp6: Option<bool>,
    pub addresses: Vec<String>,
    pub nameservers: Option<Nameservers>,
    pub routes: Vec<Route>,
    pub routing_policy: Vec<RoutingPolicy>,
    pub mtu: Option<u32>,
    pub macaddress: Option<String>,
    pub set_name: Option<String>,
    pub match_: Option<Match>,
    pub optional: Option<bool>,
    pub critical: Option<bool>,
    pub ignore_carrier: Option<bool>,
    pub link_local: Option<Vec<String>>,
    pub accept_ra: Option<u8>,
    pub dhcp4_overrides: Option<DhcpOverrides>,
    pub dhcp6_overrides: Option<DhcpOverrides>,
    pub auth: Option<Auth>,
    pub wakeonlan: Option<bool>,
    pub emit_lldp: Option<bool>,
    pub receive_checksum_offload: Option<bool>,
    pub transmit_checksum_offload: Option<bool>,
}

#[derive(Debug, Clone, Default)]
pub struct Nameservers {
    pub addresses: Vec<String>,
    pub search: Vec<String>,
}

#[derive(Debug, Clone, Default)]
pub struct Route {
    pub to: Option<String>,
    pub via: Option<String>,
    pub metric: Option<u32>,
    pub table: Option<u32>,
    pub on_link: Option<bool>,
    pub type_: Option<String>,
    pub scope: Option<String>,
    pub from: Option<String>,
}

#[derive(Debug, Clone, Default)]
pub struct RoutingPolicy {
    pub from: Option<String>,
    pub to: Option<String>,
    pub table: Option<u32>,
    pub priority: Option<u32>,
    pub mark: Option<u32>,
    pub type_of_service: Option<u8>,
}

#[derive(Debug, Clone, Default)]
pub struct Match {
    pub name: Option<String>,
    pub macaddress: Option<String>,
    pub driver: Option<Vec<String>>,
}

#[derive(Debug, Clone, Default)]
pub struct DhcpOverrides {
    pub use_dns: Option<bool>,
    pub use_ntp: Option<bool>,
    pub use_hostname: Option<bool>,
    pub use_mtu: Option<bool>,
    pub use_routes: Option<bool>,
    pub hostname: Option<String>,
    pub route_metric: Option<u32>,
    pub send_hostname: Option<bool>,
    pub use_domains: Option<String>,
}

#[derive(Debug, Clone, Default)]
pub struct Auth {
    pub key_management: Option<String>,
    pub password: Option<String>,
    pub identity: Option<String>,
    pub anonymous_identity: Option<String>,
    pub ca_certificate: Option<String>,
    pub client_certificate: Option<String>,
    pub client_key: Option<String>,
    pub client_key_password: Option<String>,
    pub eap: Option<String>,
    pub phase2_auth: Option<String>,
}

// --- Device-specific structs ---

#[derive(Debug, Clone, Default)]
pub struct EthernetDef {
    pub common: CommonDef,
    pub link: Option<String>,
    pub virtual_function_count: Option<u32>,
    pub embedded_switch_mode: Option<String>,
}

#[derive(Debug, Default)]
pub struct WifiDef {
    pub common: CommonDef,
    pub access_points: IndexMap<String, AccessPoint>,
    pub band: Option<String>,
    pub channel: Option<u32>,
    pub bssid: Option<String>,
    pub hidden: Option<bool>,
    pub mode: Option<String>,
}

#[derive(Debug, Clone, Default)]
pub struct AccessPoint {
    pub password: Option<String>,
    pub auth: Option<Auth>,
    pub mode: Option<String>,
    pub band: Option<String>,
    pub channel: Option<u32>,
    pub bssid: Option<String>,
    pub hidden: Option<bool>,
}

#[derive(Debug, Default)]
pub struct BridgeDef {
    pub common: CommonDef,
    pub interfaces: Vec<String>,
    pub parameters: Option<BridgeParams>,
}

#[derive(Debug, Default)]
pub struct BridgeParams {
    pub ageing_time: Option<u32>,
    pub priority: Option<u32>,
    pub forward_delay: Option<u32>,
    pub hello_time: Option<u32>,
    pub max_age: Option<u32>,
    pub stp: Option<bool>,
    pub path_cost: Option<IndexMap<String, u32>>,
    pub port_priority: Option<IndexMap<String, u32>>,
}

#[derive(Debug, Clone, Default)]
pub struct BondDef {
    pub common: CommonDef,
    pub interfaces: Vec<String>,
    pub parameters: Option<BondParams>,
}

#[derive(Debug, Clone, Default)]
pub struct BondParams {
    pub mode: Option<String>,
    pub mii_monitor_interval: Option<u32>,
    pub up_delay: Option<u32>,
    pub down_delay: Option<u32>,
    pub learn_packet_interval: Option<u32>,
    pub ad_select: Option<String>,
    pub all_slaves_active: Option<bool>,
    pub arp_interval: Option<u32>,
    pub arp_ip_targets: Option<Vec<String>>,
    pub arp_validate: Option<String>,
    pub arp_all_targets: Option<String>,
    pub fail_over_mac_policy: Option<String>,
    pub gratuitous_arp: Option<u32>,
    pub igmp_membership_interval: Option<u32>,
    pub lacp_rate: Option<String>,
    pub packets_per_slave: Option<u32>,
    pub primary: Option<String>,
    pub primary_reselect_policy: Option<String>,
    pub resend_igmp: Option<u32>,
    pub transmit_hash_policy: Option<String>,
}

#[derive(Debug, Clone, Default)]
pub struct VlanDef {
    pub common: CommonDef,
    pub id: Option<u16>,
    pub link: Option<String>,
}

#[derive(Debug, Clone, Default)]
pub struct TunnelDef {
    pub common: CommonDef,
    pub mode: Option<String>,
    pub local: Option<String>,
    pub remote: Option<String>,
    pub key: Option<TunnelKey>,
    pub mark: Option<u32>,
    pub port: Option<u16>,
    pub ttl: Option<u8>,
    pub peers: Vec<WireguardPeer>,
}

#[derive(Debug, Clone)]
pub enum TunnelKey {
    Single(String),
    Split {
        input: Option<u32>,
        output: Option<u32>,
    },
}

#[derive(Debug, Clone, Default)]
pub struct WireguardPeer {
    pub keys: Option<WireguardKeys>,
    pub allowed_ips: Option<Vec<String>>,
    pub endpoint: Option<String>,
    pub keepalive: Option<u32>,
}

#[derive(Debug, Clone, Default)]
pub struct WireguardKeys {
    pub public: Option<String>,
    pub shared: Option<String>,
}

#[derive(Debug, Clone, Default)]
pub struct VrfDef {
    pub common: CommonDef,
    pub table: Option<u32>,
    pub interfaces: Vec<String>,
}

#[derive(Debug, Clone, Default)]
pub struct VethDef {
    pub common: CommonDef,
    pub peer: Option<String>,
}

} // verus!
