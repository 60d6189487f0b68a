//! Where the renderers put their files: every file lies directly in the
//! backend's directory below the root the renderer was given.
use crate::backends::files_for;
use crate::backends::networkd::{
    bond_output, bridge_output, device_output, ethernet_output, memberships, netdev_file_path,
    network_path, networkd_files, stub_files, tunnel_output, vlan_output, vrf_output,
    wifi_output, MembershipView,
};
use crate::backends::nm::{
    access_point_files, access_point_name, connection_path, nm_bond_output, nm_bridge_output,
    nm_ethernet_output, nm_files, nm_vlan_output, nm_wifi_output,
};
use crate::config::maps::{
    access_point_entries, bond_entries, bridge_entries, device_entries, ethernet_entries,
    tunnel_entries, vlan_entries, vrf_entries, wifi_entries,
};
use crate::config::types::{AccessPoint, CommonDef, NetworkConfig, WifiDef};
use crate::text::{path_join, replace_char};
use crate::cli::try_cmd::backend_dir;
use crate::config::types::Renderer;
use vstd::prelude::*;

verus! {

/// Whether every file of `files` lies in `dir`: its path is `dir`, a `/`,
/// and the file's name.
pub open spec fn all_in(files: Seq<(Seq<char>, Seq<char>)>, dir: Seq<char>) -> bool {
    forall|i: int| 0 <= i < files.len() ==> (dir + "/"@).is_prefix_of(#[trigger] files[i].0)
}

/// Whether a directory path names a directory below which a relative name
/// is joined with a `/`.
pub open spec fn plain_dir(dir: Seq<char>) -> bool {
    dir.len() > 0 && dir.last() != '/'
}

proof fn lemma_join_in(dir: Seq<char>, rel: Seq<char>)
    requires
        plain_dir(dir),
        rel.len() > 0,
        rel[0] != '/',
    ensures
        (dir + "/"@).is_prefix_of(path_join(dir, rel)),
{
    assert(path_join(dir, rel) == dir + "/"@ + rel);
    assert((dir + "/"@ + rel).take((dir + "/"@).len() as int) =~= dir + "/"@);
}

proof fn lemma_backend_dir(root: Seq<char>, rel: Seq<char>)
    requires
        rel.len() > 0,
        rel[0] != '/',
        rel.last() != '/',
    ensures
        plain_dir(path_join(root, rel)),
{
    let d = path_join(root, rel);
    if root.len() > 0 && root.last() != '/' {
        assert(d == root + "/"@ + rel);
        assert(d.last() == rel.last());
    } else {
        assert(d == root + rel);
        assert(d.last() == rel.last());
    }
}

proof fn lemma_network_path_in(dir: Seq<char>, id: Seq<char>)
    requires
        plain_dir(dir),
    ensures
        (dir + "/"@).is_prefix_of(network_path(dir, id)),
        (dir + "/"@).is_prefix_of(netdev_file_path(dir, id)),
{
    reveal_strlit("10-netplan-");
    lemma_join_in(dir, "10-netplan-"@ + id + ".network"@);
    lemma_join_in(dir, "10-netplan-"@ + id + ".netdev"@);
}

proof fn lemma_connection_path_in(dir: Seq<char>, name: Seq<char>)
    requires
        plain_dir(dir),
    ensures
        (dir + "/"@).is_prefix_of(connection_path(dir, name)),
{
    reveal_strlit("netplan-");
    lemma_join_in(dir, "netplan-"@ + name + ".nmconnection"@);
}

proof fn lemma_concat_in(a: Seq<(Seq<char>, Seq<char>)>, b: Seq<(Seq<char>, Seq<char>)>, dir: Seq<char>)
    requires
        all_in(a, dir),
        all_in(b, dir),
    ensures
        all_in(a + b, dir),
{
    assert forall|i: int| 0 <= i < (a + b).len() implies (dir + "/"@).is_prefix_of(
        #[trigger] (a + b)[i].0,
    ) by {
        if i < a.len() {
            assert((a + b)[i] == a[i]);
        } else {
            assert((a + b)[i] == b[i - a.len()]);
        }
    }
}

proof fn lemma_files_for_in<D>(
    devs: Seq<(Seq<char>, D)>,
    f: spec_fn(Seq<char>, D) -> Seq<(Seq<char>, Seq<char>)>,
    dir: Seq<char>,
)
    requires
        forall|id: Seq<char>, d: D| all_in(#[trigger] f(id, d), dir),
    ensures
        all_in(files_for(devs, f), dir),
    decreases devs.len(),
{
    if devs.len() > 0 {
        lemma_files_for_in(devs.drop_last(), f, dir);
        lemma_concat_in(files_for(devs.drop_last(), f), f(devs.last().0, devs.last().1), dir);
    }
}

proof fn lemma_stub_files_in(dir: Seq<char>, ms: Seq<(Seq<char>, MembershipView)>, cfg: NetworkConfig)
    requires
        plain_dir(dir),
    ensures
        all_in(stub_files(dir, ms, cfg), dir),
    decreases ms.len(),
{
    if ms.len() > 0 {
        lemma_stub_files_in(dir, ms.drop_last(), cfg);
        lemma_network_path_in(dir, ms.last().0);
        lemma_concat_in(
            stub_files(dir, ms.drop_last(), cfg),
            stub_files(dir, ms, cfg).skip(stub_files(dir, ms.drop_last(), cfg).len() as int),
            dir,
        );
        assert(stub_files(dir, ms, cfg) =~= stub_files(dir, ms.drop_last(), cfg) + stub_files(
            dir,
            ms,
            cfg,
        ).skip(stub_files(dir, ms.drop_last(), cfg).len() as int));
    }
}

/// Every file the networkd renderer writes lies directly in
/// `run/systemd/network` below the root it was given.
pub proof fn lemma_networkd_files_in_place(cfg: NetworkConfig, root: Seq<char>)
    ensures
        all_in(networkd_files(cfg, root), path_join(root, "run/systemd/network"@)),
{
    reveal_strlit("run/systemd/network");
    let dir = path_join(root, "run/systemd/network"@);
    let ms = memberships(cfg);
    lemma_backend_dir(root, "run/systemd/network"@);
    assert forall|id: Seq<char>, d| all_in(#[trigger] ethernet_output(dir, ms)(id, d), dir) by {
        lemma_network_path_in(dir, id);
    }
    assert forall|id: Seq<char>, d| all_in(#[trigger] wifi_output(dir, ms)(id, d), dir) by {
        lemma_network_path_in(dir, id);
    }
    assert forall|id: Seq<char>, d| all_in(#[trigger] bridge_output(dir, ms)(id, d), dir) by {
        lemma_network_path_in(dir, id);
    }
    assert forall|id: Seq<char>, d| all_in(#[trigger] bond_output(dir, ms)(id, d), dir) by {
        lemma_network_path_in(dir, id);
    }
    assert forall|id: Seq<char>, d| all_in(#[trigger] vlan_output(dir, ms)(id, d), dir) by {
        lemma_network_path_in(dir, id);
    }
    assert forall|id: Seq<char>, d| all_in(#[trigger] tunnel_output(dir, ms)(id, d), dir) by {
        lemma_network_path_in(dir, id);
    }
    assert forall|id: Seq<char>, d| all_in(#[trigger] vrf_output(dir, ms)(id, d), dir) by {
        lemma_network_path_in(dir, id);
    }
    assert forall|id: Seq<char>, d: CommonDef| all_in(#[trigger] device_output(dir, ms)(id, d), dir) by {
        lemma_network_path_in(dir, id);
    }
    let p1 = files_for(ethernet_entries(cfg.ethernets), ethernet_output(dir, ms));
    let p2 = files_for(wifi_entries(cfg.wifis), wifi_output(dir, ms));
    let p3 = files_for(bridge_entries(cfg.bridges), bridge_output(dir, ms));
    let p4 = files_for(bond_entries(cfg.bonds), bond_output(dir, ms));
    let p5 = files_for(vlan_entries(cfg.vlans), vlan_output(dir, ms));
    let p6 = files_for(tunnel_entries(cfg.tunnels), tunnel_output(dir, ms));
    let p7 = files_for(vrf_entries(cfg.vrfs), vrf_output(dir, ms));
    let p8 = files_for(device_entries(cfg.dummy_devices), device_output(dir, ms));
    let p9 = stub_files(dir, ms, cfg);
    lemma_files_for_in(ethernet_entries(cfg.ethernets), ethernet_output(dir, ms), dir);
    lemma_files_for_in(wifi_entries(cfg.wifis), wifi_output(dir, ms), dir);
    lemma_files_for_in(bridge_entries(cfg.bridges), bridge_output(dir, ms), dir);
    lemma_files_for_in(bond_entries(cfg.bonds), bond_output(dir, ms), dir);
    lemma_files_for_in(vlan_entries(cfg.vlans), vlan_output(dir, ms), dir);
    lemma_files_for_in(tunnel_entries(cfg.tunnels), tunnel_output(dir, ms), dir);
    lemma_files_for_in(vrf_entries(cfg.vrfs), vrf_output(dir, ms), dir);
    lemma_files_for_in(device_entries(cfg.dummy_devices), device_output(dir, ms), dir);
    lemma_stub_files_in(dir, ms, cfg);
    lemma_concat_in(p1, p2, dir);
    lemma_concat_in(p1 + p2, p3, dir);
    lemma_concat_in(p1 + p2 + p3, p4, dir);
    lemma_concat_in(p1 + p2 + p3 + p4, p5, dir);
    lemma_concat_in(p1 + p2 + p3 + p4 + p5, p6, dir);
    lemma_concat_in(p1 + p2 + p3 + p4 + p5 + p6, p7, dir);
    lemma_concat_in(p1 + p2 + p3 + p4 + p5 + p6 + p7, p8, dir);
    lemma_concat_in(p1 + p2 + p3 + p4 + p5 + p6 + p7 + p8, p9, dir);
}

proof fn lemma_access_point_files_in(
    dir: Seq<char>,
    id: Seq<char>,
    aps: Seq<(Seq<char>, AccessPoint)>,
    c: CommonDef,
)
    requires
        plain_dir(dir),
    ensures
        all_in(access_point_files(dir, id, aps, c), dir),
    decreases aps.len(),
{
    if aps.len() > 0 {
        lemma_access_point_files_in(dir, id, aps.drop_last(), c);
        lemma_connection_path_in(dir, access_point_name(id, aps.last().0));
        let prev = access_point_files(dir, id, aps.drop_last(), c);
        let all = access_point_files(dir, id, aps, c);
        assert(all =~= prev + all.skip(prev.len() as int));
        lemma_concat_in(prev, all.skip(prev.len() as int), dir);
    }
}

/// Every file the NetworkManager renderer writes lies directly in
/// `run/NetworkManager/system-connections` below the root it was given.
pub proof fn lemma_nm_files_in_place(cfg: NetworkConfig, root: Seq<char>)
    ensures
        all_in(nm_files(cfg, root), path_join(root, "run/NetworkManager/system-connections"@)),
{
    reveal_strlit("run/NetworkManager/system-connections");
    let dir = path_join(root, "run/NetworkManager/system-connections"@);
    lemma_backend_dir(root, "run/NetworkManager/system-connections"@);
    assert forall|id: Seq<char>, d| all_in(#[trigger] nm_ethernet_output(dir)(id, d), dir) by {
        lemma_connection_path_in(dir, id);
    }
    assert forall|id: Seq<char>, d| all_in(#[trigger] nm_wifi_output(dir)(id, d), dir) by {
        lemma_access_point_files_in(dir, id, access_point_entries(d.access_points), d.common);
    }
    assert forall|id: Seq<char>, d| all_in(#[trigger] nm_bridge_output(dir)(id, d), dir) by {
        lemma_connection_path_in(dir, id);
    }
    assert forall|id: Seq<char>, d| all_in(#[trigger] nm_bond_output(dir)(id, d), dir) by {
        lemma_connection_path_in(dir, id);
    }
    assert forall|id: Seq<char>, d| all_in(#[trigger] nm_vlan_output(dir)(id, d), dir) by {
        lemma_connection_path_in(dir, id);
    }
    let p1 = files_for(ethernet_entries(cfg.ethernets), nm_ethernet_output(dir));
    let p2 = files_for(wifi_entries(cfg.wifis), nm_wifi_output(dir));
    let p3 = files_for(bridge_entries(cfg.bridges), nm_bridge_output(dir));
    let p4 = files_for(bond_entries(cfg.bonds), nm_bond_output(dir));
    let p5 = files_for(vlan_entries(cfg.vlans), nm_vlan_output(dir));
    lemma_files_for_in(ethernet_entries(cfg.ethernets), nm_ethernet_output(dir), dir);
    lemma_files_for_in(wifi_entries(cfg.wifis), nm_wifi_output(dir), dir);
    lemma_files_for_in(bridge_entries(cfg.bridges), nm_bridge_output(dir), dir);
    lemma_files_for_in(bond_entries(cfg.bonds), nm_bond_output(dir), dir);
    lemma_files_for_in(vlan_entries(cfg.vlans), nm_vlan_output(dir), dir);
    lemma_concat_in(p1, p2, dir);
    lemma_concat_in(p1 + p2, p3, dir);
    lemma_concat_in(p1 + p2 + p3, p4, dir);
    lemma_concat_in(p1 + p2 + p3 + p4, p5, dir);
}

/// Whether a name holds no `/`.
pub open spec fn plain(name: Seq<char>) -> bool {
    !name.contains('/')
}

/// Whether the path is a file directly in `dir`: `dir`, a `/`, and a name
/// without `/`, so that `dir` is its parent.
pub open spec fn directly_in(path: Seq<char>, dir: Seq<char>) -> bool {
    exists|name: Seq<char>| plain(name) && path == #[trigger] (dir + "/"@ + name)
}

/// Whether every file of `files` lies directly in `dir`.
pub open spec fn all_directly_in(files: Seq<(Seq<char>, Seq<char>)>, dir: Seq<char>) -> bool {
    forall|i: int| 0 <= i < files.len() ==> directly_in(#[trigger] files[i].0, dir)
}

/// Whether all the names of a list of entries are plain.
pub open spec fn names_plain<V>(entries: Seq<(Seq<char>, V)>) -> bool {
    forall|j: int| 0 <= j < entries.len() ==> plain(#[trigger] entries[j].0)
}

/// Whether the names networkd files are named by hold no `/`: those of the
/// devices, and those of the members that bridges, bonds, VLANs and VRFs
/// list.
pub open spec fn networkd_names_plain(cfg: NetworkConfig) -> bool {
    &&& names_plain(ethernet_entries(cfg.ethernets))
    &&& names_plain(wifi_entries(cfg.wifis))
    &&& names_plain(bridge_entries(cfg.bridges))
    &&& names_plain(bond_entries(cfg.bonds))
    &&& names_plain(vlan_entries(cfg.vlans))
    &&& names_plain(tunnel_entries(cfg.tunnels))
    &&& names_plain(vrf_entries(cfg.vrfs))
    &&& names_plain(device_entries(cfg.dummy_devices))
    &&& names_plain(memberships(cfg))
}

/// Whether the names NetworkManager connections are named by hold no `/`:
/// those of the interfaces, and the SSIDs of the access points.
pub open spec fn nm_names_plain(cfg: NetworkConfig) -> bool {
    &&& names_plain(ethernet_entries(cfg.ethernets))
    &&& names_plain(wifi_entries(cfg.wifis))
    &&& names_plain(bridge_entries(cfg.bridges))
    &&& names_plain(bond_entries(cfg.bonds))
    &&& names_plain(vlan_entries(cfg.vlans))
    &&& forall|j: int|
        0 <= j < wifi_entries(cfg.wifis).len() ==> names_plain(
            access_point_entries(#[trigger] wifi_entries(cfg.wifis)[j].1.access_points),
        )
}

proof fn lemma_plain_concat(a: Seq<char>, b: Seq<char>)
    requires
        plain(a),
        plain(b),
    ensures
        plain(a + b),
{
    if (a + b).contains('/') {
        let i = choose|i: int| 0 <= i < (a + b).len() && (a + b)[i] == '/';
        if i < a.len() {
            assert(a[i] == '/');
        } else {
            assert(b[i - a.len()] == '/');
        }
    }
}

proof fn lemma_plain_literals()
    ensures
        plain("10-netplan-"@),
        plain(".network"@),
        plain(".netdev"@),
        plain("netplan-"@),
        plain(".nmconnection"@),
        plain("-"@),
        plain("_"@),
{
    reveal_strlit("10-netplan-");
    reveal_strlit(".network");
    reveal_strlit(".netdev");
    reveal_strlit("netplan-");
    reveal_strlit(".nmconnection");
    reveal_strlit("-");
    reveal_strlit("_");
    assert(!"10-netplan-"@.contains('/'));
    assert(!".network"@.contains('/'));
    assert(!".netdev"@.contains('/'));
    assert(!"netplan-"@.contains('/'));
    assert(!".nmconnection"@.contains('/'));
    assert(!"-"@.contains('/'));
    assert(!"_"@.contains('/'));
}

proof fn lemma_replace_plain(s: Seq<char>)
    requires
        plain(s),
    ensures
        plain(replace_char(s, ' ', "_"@)),
    decreases s.len(),
{
    if s.len() > 0 {
        assert(plain(s.drop_last())) by {
            if s.drop_last().contains('/') {
                let i = choose|i: int| 0 <= i < s.drop_last().len() && s.drop_last()[i] == '/';
                assert(s[i] == '/');
            }
        }
        lemma_replace_plain(s.drop_last());
        lemma_plain_literals();
        let piece = if s.last() == ' ' {
            "_"@
        } else {
            seq![s.last()]
        };
        assert(plain(piece)) by {
            if s.last() != ' ' {
                assert(s[s.len() - 1] != '/');
                assert(!seq![s.last()].contains('/')) by {
                    if seq![s.last()].contains('/') {
                        let i = choose|i: int| 0 <= i < 1 && seq![s.last()][i] == '/';
                    }
                }
            }
        }
        lemma_plain_concat(replace_char(s.drop_last(), ' ', "_"@), piece);
    }
}

proof fn lemma_join_directly_in(dir: Seq<char>, name: Seq<char>)
    requires
        plain_dir(dir),
        plain(name),
        name.len() > 0,
        name[0] != '/',
    ensures
        directly_in(path_join(dir, name), dir),
{
    assert(path_join(dir, name) == dir + "/"@ + name);
}

proof fn lemma_networkd_paths_directly_in(dir: Seq<char>, id: Seq<char>)
    requires
        plain_dir(dir),
        plain(id),
    ensures
        directly_in(network_path(dir, id), dir),
        directly_in(netdev_file_path(dir, id), dir),
{
    lemma_plain_literals();
    reveal_strlit("10-netplan-");
    lemma_plain_concat("10-netplan-"@, id);
    lemma_plain_concat("10-netplan-"@ + id, ".network"@);
    lemma_plain_concat("10-netplan-"@ + id, ".netdev"@);
    lemma_join_directly_in(dir, "10-netplan-"@ + id + ".network"@);
    lemma_join_directly_in(dir, "10-netplan-"@ + id + ".netdev"@);
}

proof fn lemma_connection_directly_in(dir: Seq<char>, name: Seq<char>)
    requires
        plain_dir(dir),
        plain(name),
    ensures
        directly_in(connection_path(dir, name), dir),
{
    lemma_plain_literals();
    reveal_strlit("netplan-");
    lemma_plain_concat("netplan-"@, name);
    lemma_plain_concat("netplan-"@ + name, ".nmconnection"@);
    lemma_join_directly_in(dir, "netplan-"@ + name + ".nmconnection"@);
}

proof fn lemma_concat_directly_in(
    a: Seq<(Seq<char>, Seq<char>)>,
    b: Seq<(Seq<char>, Seq<char>)>,
    dir: Seq<char>,
)
    requires
        all_directly_in(a, dir),
        all_directly_in(b, dir),
    ensures
        all_directly_in(a + b, dir),
{
    assert forall|i: int| 0 <= i < (a + b).len() implies directly_in(#[trigger] (a + b)[i].0, dir) by {
        if i < a.len() {
            assert((a + b)[i] == a[i]);
        } else {
            assert((a + b)[i] == b[i - a.len()]);
        }
    }
}

proof fn lemma_files_for_directly_in<D>(
    devs: Seq<(Seq<char>, D)>,
    f: spec_fn(Seq<char>, D) -> Seq<(Seq<char>, Seq<char>)>,
    dir: Seq<char>,
)
    requires
        names_plain(devs),
        forall|id: Seq<char>, d: D| plain(id) ==> all_directly_in(#[trigger] f(id, d), dir),
    ensures
        all_directly_in(files_for(devs, f), dir),
    decreases devs.len(),
{
    if devs.len() > 0 {
        assert(names_plain(devs.drop_last())) by {
            assert forall|j: int| 0 <= j < devs.drop_last().len() implies plain(
                #[trigger] devs.drop_last()[j].0,
            ) by {
                assert(devs.drop_last()[j] == devs[j]);
            }
        }
        assert(plain(devs[devs.len() - 1].0));
        lemma_files_for_directly_in(devs.drop_last(), f, dir);
        lemma_concat_directly_in(
            files_for(devs.drop_last(), f),
            f(devs.last().0, devs.last().1),
            dir,
        );
    }
}

proof fn lemma_stub_files_directly_in(
    dir: Seq<char>,
    ms: Seq<(Seq<char>, MembershipView)>,
    cfg: NetworkConfig,
)
    requires
        plain_dir(dir),
        names_plain(ms),
    ensures
        all_directly_in(stub_files(dir, ms, cfg), dir),
    decreases ms.len(),
{
    if ms.len() > 0 {
        assert(names_plain(ms.drop_last())) by {
            assert forall|j: int| 0 <= j < ms.drop_last().len() implies plain(
                #[trigger] ms.drop_last()[j].0,
            ) by {
                assert(ms.drop_last()[j] == ms[j]);
            }
        }
        assert(plain(ms[ms.len() - 1].0));
        lemma_stub_files_directly_in(dir, ms.drop_last(), cfg);
        lemma_networkd_paths_directly_in(dir, ms.last().0);
        let prev = stub_files(dir, ms.drop_last(), cfg);
        let all = stub_files(dir, ms, cfg);
        assert(all =~= prev + all.skip(prev.len() as int));
        lemma_concat_directly_in(prev, all.skip(prev.len() as int), dir);
    }
}

/// Every file the networkd renderer writes has the backend directory of
/// networkd below the root as its parent, when no device or member name
/// holds a `/`.
pub proof fn lemma_networkd_files_parent(cfg: NetworkConfig, root: Seq<char>)
    requires
        networkd_names_plain(cfg),
    ensures
        all_directly_in(networkd_files(cfg, root), backend_dir(Renderer::Networkd, root)),
{
    reveal_strlit("run/systemd/network");
    let dir = path_join(root, "run/systemd/network"@);
    let ms = memberships(cfg);
    lemma_backend_dir(root, "run/systemd/network"@);
    assert forall|id: Seq<char>, d| plain(id) implies all_directly_in(
        #[trigger] ethernet_output(dir, ms)(id, d),
        dir,
    ) by {
        lemma_networkd_paths_directly_in(dir, id);
    }
    assert forall|id: Seq<char>, d| plain(id) implies all_directly_in(
        #[trigger] wifi_output(dir, ms)(id, d),
        dir,
    ) by {
        lemma_networkd_paths_directly_in(dir, id);
    }
    assert forall|id: Seq<char>, d| plain(id) implies all_directly_in(
        #[trigger] bridge_output(dir, ms)(id, d),
        dir,
    ) by {
        lemma_networkd_paths_directly_in(dir, id);
    }
    assert forall|id: Seq<char>, d| plain(id) implies all_directly_in(
        #[trigger] bond_output(dir, ms)(id, d),
        dir,
    ) by {
        lemma_networkd_paths_directly_in(dir, id);
    }
    assert forall|id: Seq<char>, d| plain(id) implies all_directly_in(
        #[trigger] vlan_output(dir, ms)(id, d),
        dir,
    ) by {
        lemma_networkd_paths_directly_in(dir, id);
    }
    assert forall|id: Seq<char>, d| plain(id) implies all_directly_in(
        #[trigger] tunnel_output(dir, ms)(id, d),
        dir,
    ) by {
        lemma_networkd_paths_directly_in(dir, id);
    }
    assert forall|id: Seq<char>, d| plain(id) implies all_directly_in(
        #[trigger] vrf_output(dir, ms)(id, d),
        dir,
    ) by {
        lemma_networkd_paths_directly_in(dir, id);
    }
    assert forall|id: Seq<char>, d: CommonDef| plain(id) implies all_directly_in(
        #[trigger] device_output(dir, ms)(id, d),
        dir,
    ) by {
        lemma_networkd_paths_directly_in(dir, id);
    }
    let p1 = files_for(ethernet_entries(cfg.ethernets), ethernet_output(dir, ms));
    let p2 = files_for(wifi_entries(cfg.wifis), wifi_output(dir, ms));
    let p3 = files_for(bridge_entries(cfg.bridges), bridge_output(dir, ms));
    let p4 = files_for(bond_entries(cfg.bonds), bond_output(dir, ms));
    let p5 = files_for(vlan_entries(cfg.vlans), vlan_output(dir, ms));
    let p6 = files_for(tunnel_entries(cfg.tunnels), tunnel_output(dir, ms));
    let p7 = files_for(vrf_entries(cfg.vrfs), vrf_output(dir, ms));
    let p8 = files_for(device_entries(cfg.dummy_devices), device_output(dir, ms));
    let p9 = stub_files(dir, ms, cfg);
    lemma_files_for_directly_in(ethernet_entries(cfg.ethernets), ethernet_output(dir, ms), dir);
    lemma_files_for_directly_in(wifi_entries(cfg.wifis), wifi_output(dir, ms), dir);
    lemma_files_for_directly_in(bridge_entries(cfg.bridges), bridge_output(dir, ms), dir);
    lemma_files_for_directly_in(bond_entries(cfg.bonds), bond_output(dir, ms), dir);
    lemma_files_for_directly_in(vlan_entries(cfg.vlans), vlan_output(dir, ms), dir);
    lemma_files_for_directly_in(tunnel_entries(cfg.tunnels), tunnel_output(dir, ms), dir);
    lemma_files_for_directly_in(vrf_entries(cfg.vrfs), vrf_output(dir, ms), dir);
    lemma_files_for_directly_in(device_entries(cfg.dummy_devices), device_output(dir, ms), dir);
    lemma_stub_files_directly_in(dir, ms, cfg);
    lemma_concat_directly_in(p1, p2, dir);
    lemma_concat_directly_in(p1 + p2, p3, dir);
    lemma_concat_directly_in(p1 + p2 + p3, p4, dir);
    lemma_concat_directly_in(p1 + p2 + p3 + p4, p5, dir);
    lemma_concat_directly_in(p1 + p2 + p3 + p4 + p5, p6, dir);
    lemma_concat_directly_in(p1 + p2 + p3 + p4 + p5 + p6, p7, dir);
    lemma_concat_directly_in(p1 + p2 + p3 + p4 + p5 + p6 + p7, p8, dir);
    lemma_concat_directly_in(p1 + p2 + p3 + p4 + p5 + p6 + p7 + p8, p9, dir);
}

proof fn lemma_access_points_directly_in(
    dir: Seq<char>,
    id: Seq<char>,
    aps: Seq<(Seq<char>, AccessPoint)>,
    c: CommonDef,
)
    requires
        plain_dir(dir),
        plain(id),
        names_plain(aps),
    ensures
        all_directly_in(access_point_files(dir, id, aps, c), dir),
    decreases aps.len(),
{
    if aps.len() > 0 {
        assert(names_plain(aps.drop_last())) by {
            assert forall|j: int| 0 <= j < aps.drop_last().len() implies plain(
                #[trigger] aps.drop_last()[j].0,
            ) by {
                assert(aps.drop_last()[j] == aps[j]);
            }
        }
        assert(plain(aps[aps.len() - 1].0));
        lemma_access_points_directly_in(dir, id, aps.drop_last(), c);
        lemma_plain_literals();
        lemma_replace_plain(aps.last().0);
        lemma_plain_concat(id, "-"@);
        lemma_plain_concat(id + "-"@, replace_char(aps.last().0, ' ', "_"@));
        lemma_connection_directly_in(dir, access_point_name(id, aps.last().0));
        let prev = access_point_files(dir, id, aps.drop_last(), c);
        let all = access_point_files(dir, id, aps, c);
        assert(all =~= prev + all.skip(prev.len() as int));
        lemma_concat_directly_in(prev, all.skip(prev.len() as int), dir);
    }
}

/// Every file the NetworkManager renderer writes has the backend directory
/// of NetworkManager below the root as its parent, when no interface name
/// or SSID holds a `/`.
pub proof fn lemma_nm_files_parent(cfg: NetworkConfig, root: Seq<char>)
    requires
        nm_names_plain(cfg),
    ensures
        all_directly_in(nm_files(cfg, root), backend_dir(Renderer::NetworkManager, root)),
{
    reveal_strlit("run/NetworkManager/system-connections");
    let dir = path_join(root, "run/NetworkManager/system-connections"@);
    lemma_backend_dir(root, "run/NetworkManager/system-connections"@);
    assert forall|id: Seq<char>, d| plain(id) implies all_directly_in(
        #[trigger] nm_ethernet_output(dir)(id, d),
        dir,
    ) by {
        lemma_connection_directly_in(dir, id);
    }
    let wifis = wifi_entries(cfg.wifis);
    assert forall|j: int| 0 <= j < wifis.len() implies all_directly_in(
        #[trigger] nm_wifi_output(dir)(wifis[j].0, wifis[j].1),
        dir,
    ) by {
        assert(plain(wifis[j].0));
        lemma_access_points_directly_in(
            dir,
            wifis[j].0,
            access_point_entries(wifis[j].1.access_points),
            wifis[j].1.common,
        );
    }
    assert forall|id: Seq<char>, d| plain(id) implies all_directly_in(
        #[trigger] nm_bridge_output(dir)(id, d),
        dir,
    ) by {
        lemma_connection_directly_in(dir, id);
    }
    assert forall|id: Seq<char>, d| plain(id) implies all_directly_in(
        #[trigger] nm_bond_output(dir)(id, d),
        dir,
    ) by {
        lemma_connection_directly_in(dir, id);
    }
    assert forall|id: Seq<char>, d| plain(id) implies all_directly_in(
        #[trigger] nm_vlan_output(dir)(id, d),
        dir,
    ) by {
        lemma_connection_directly_in(dir, id);
    }
    let p1 = files_for(ethernet_entries(cfg.ethernets), nm_ethernet_output(dir));
    let p2 = files_for(wifis, nm_wifi_output(dir));
    let p3 = files_for(bridge_entries(cfg.bridges), nm_bridge_output(dir));
    let p4 = files_for(bond_entries(cfg.bonds), nm_bond_output(dir));
    let p5 = files_for(vlan_entries(cfg.vlans), nm_vlan_output(dir));
    lemma_files_for_directly_in(ethernet_entries(cfg.ethernets), nm_ethernet_output(dir), dir);
    lemma_wifi_files_directly_in(wifis, dir);
    lemma_files_for_directly_in(bridge_entries(cfg.bridges), nm_bridge_output(dir), dir);
    lemma_files_for_directly_in(bond_entries(cfg.bonds), nm_bond_output(dir), dir);
    lemma_files_for_directly_in(vlan_entries(cfg.vlans), nm_vlan_output(dir), dir);
    lemma_concat_directly_in(p1, p2, dir);
    lemma_concat_directly_in(p1 + p2, p3, dir);
    lemma_concat_directly_in(p1 + p2 + p3, p4, dir);
    lemma_concat_directly_in(p1 + p2 + p3 + p4, p5, dir);
}

proof fn lemma_wifi_files_directly_in(wifis: Seq<(Seq<char>, WifiDef)>, dir: Seq<char>)
    requires
        forall|j: int| 0 <= j < wifis.len() ==> all_directly_in(
            #[trigger] nm_wifi_output(dir)(wifis[j].0, wifis[j].1),
            dir,
        ),
    ensures
        all_directly_in(files_for(wifis, nm_wifi_output(dir)), dir),
    decreases wifis.len(),
{
    if wifis.len() > 0 {
        assert forall|j: int| 0 <= j < wifis.drop_last().len() implies all_directly_in(
            #[trigger] nm_wifi_output(dir)(wifis.drop_last()[j].0, wifis.drop_last()[j].1),
            dir,
        ) by {
            assert(wifis.drop_last()[j] == wifis[j]);
        }
        lemma_wifi_files_directly_in(wifis.drop_last(), dir);
        let last = wifis.len() - 1;
        assert(all_directly_in(nm_wifi_output(dir)(wifis[last].0, wifis[last].1), dir));
        lemma_concat_directly_in(
            files_for(wifis.drop_last(), nm_wifi_output(dir)),
            nm_wifi_output(dir)(wifis.last().0, wifis.last().1),
            dir,
        );
    }
}

} // verus!
