//! Insertion-ordered maps of the configuration, keyed by interface or
//! network name.
//!
//! The maps are `indexmap::IndexMap`s, as deserialised from the YAML
//! documents. What each map holds is named by one specification function per
//! value type; the only access the library makes is to read the entries in
//! their order (`IndexMap::iter`).
use crate::config::types::{
    AccessPoint, BondDef, BridgeDef, CommonDef, EthernetDef, TunnelDef, VlanDef, VrfDef, WifiDef,
};
use indexmap::IndexMap;
use vstd::prelude::*;

verus! {

/// `indexmap::IndexMap`, an ordered hash map; its contents are opaque to the
/// verifier and are read through the wrappers below.
#[verifier::external_type_specification]
#[verifier::external_body]
#[verifier::reject_recursive_types(K)]
#[verifier::reject_recursive_types(V)]
#[verifier::reject_recursive_types(S)]
pub struct ExIndexMap<K, V, S>(IndexMap<K, V, S>);

/// Position of the first entry named `k`, or -1.
pub open spec fn name_position<V>(entries: Seq<(Seq<char>, V)>, k: Seq<char>) -> int
    decreases entries.len(),
{
    if entries.len() == 0 {
        -1
    } else {
        let p = name_position(entries.drop_last(), k);
        if p >= 0 {
            p
        } else if entries.last().0 == k {
            entries.len() - 1
        } else {
            -1
        }
    }
}

pub proof fn lemma_name_position<V>(entries: Seq<(Seq<char>, V)>, k: Seq<char>)
    ensures
        -1 <= name_position(entries, k) < entries.len(),
        name_position(entries, k) >= 0 ==> entries[name_position(entries, k)].0 == k,
        forall|j: int| 0 <= j < name_position(entries, k) ==> entries[j].0 != k,
        name_position(entries, k) == -1 ==> forall|j: int|
            0 <= j < entries.len() ==> entries[j].0 != k,
    decreases entries.len(),
{
    if entries.len() > 0 {
        lemma_name_position(entries.drop_last(), k);
        assert forall|j: int| 0 <= j < entries.len() - 1 implies entries[j] == entries.drop_last()[
            j] by {}
    }
}

/// Whether `k` names an entry.
pub open spec fn has_name<V>(entries: Seq<(Seq<char>, V)>, k: Seq<char>) -> bool {
    exists|j: int| 0 <= j < entries.len() && entries[j].0 == k
}

/// The names of the entries, in order.
pub open spec fn names_of<V>(entries: Seq<(Seq<char>, V)>) -> Seq<Seq<char>> {
    entries.map_values(|e: (Seq<char>, V)| e.0)
}

/// The entries of a map of ethernets, in insertion order, each as its
/// name's characters and the value.
pub uninterp spec fn ethernet_entries(m: IndexMap<String, EthernetDef>) -> Seq<(Seq<char>, EthernetDef)>;

/// The entries of a map of ethernets in order: `IndexMap::iter`, collected.
/// The result holds exactly the entries that [`ethernet_entries`] names.
#[verifier::external_body]
pub(crate) fn ethernet_list(m: &IndexMap<String, EthernetDef>) -> (r: Vec<(&String, &EthernetDef)>)
    ensures
        r@.len() == ethernet_entries(*m).len(),
        forall|i: int|
            0 <= i < r@.len() ==> (#[trigger] r@[i]).0@ == ethernet_entries(*m)[i].0 && *r@[i].1
                == ethernet_entries(*m)[i].1,
{
    m.iter().collect()
}

/// The entries of a map of wifis, in insertion order, each as its
/// name's characters and the value.
pub uninterp spec fn wifi_entries(m: IndexMap<String, WifiDef>) -> Seq<(Seq<char>, WifiDef)>;

/// The entries of a map of wifis in order: `IndexMap::iter`, collected.
/// The result holds exactly the entries that [`wifi_entries`] names.
#[verifier::external_body]
pub(crate) fn wifi_list(m: &IndexMap<String, WifiDef>) -> (r: Vec<(&String, &WifiDef)>)
    ensures
        r@.len() == wifi_entries(*m).len(),
        forall|i: int|
            0 <= i < r@.len() ==> (#[trigger] r@[i]).0@ == wifi_entries(*m)[i].0 && *r@[i].1
                == wifi_entries(*m)[i].1,
{
    m.iter().collect()
}

/// The entries of a map of bridges, in insertion order, each as its
/// name's characters and the value.
pub uninterp spec fn bridge_entries(m: IndexMap<String, BridgeDef>) -> Seq<(Seq<char>, BridgeDef)>;

/// The entries of a map of bridges in order: `IndexMap::iter`, collected.
/// The result holds exactly the entries that [`bridge_entries`] names.
#[verifier::external_body]
pub(crate) fn bridge_list(m: &IndexMap<String, BridgeDef>) -> (r: Vec<(&String, &BridgeDef)>)
    ensures
        r@.len() == bridge_entries(*m).len(),
        forall|i: int|
            0 <= i < r@.len() ==> (#[trigger] r@[i]).0@ == bridge_entries(*m)[i].0 && *r@[i].1
                == bridge_entries(*m)[i].1,
{
    m.iter().collect()
}

/// The entries of a map of bonds, in insertion order, each as its
/// name's characters and the value.
pub uninterp spec fn bond_entries(m: IndexMap<String, BondDef>) -> Seq<(Seq<char>, BondDef)>;

/// The entries of a map of bonds in order: `IndexMap::iter`, collected.
/// The result holds exactly the entries that [`bond_entries`] names.
#[verifier::external_body]
pub(crate) fn bond_list(m: &IndexMap<String, BondDef>) -> (r: Vec<(&String, &BondDef)>)
    ensures
        r@.len() == bond_entries(*m).len(),
        forall|i: int|
            0 <= i < r@.len() ==> (#[trigger] r@[i]).0@ == bond_entries(*m)[i].0 && *r@[i].1
                == bond_entries(*m)[i].1,
{
    m.iter().collect()
}

/// The entries of a map of vlans, in insertion order, each as its
/// name's characters and the value.
pub uninterp spec fn vlan_entries(m: IndexMap<String, VlanDef>) -> Seq<(Seq<char>, VlanDef)>;

/// The entries of a map of vlans in order: `IndexMap::iter`, collected.
/// The result holds exactly the entries that [`vlan_entries`] names.
#[verifier::external_body]
pub(crate) fn vlan_list(m: &IndexMap<String, VlanDef>) -> (r: Vec<(&String, &VlanDef)>)
    ensures
        r@.len() == vlan_entries(*m).len(),
        forall|i: int|
            0 <= i < r@.len() ==> (#[trigger] r@[i]).0@ == vlan_entries(*m)[i].0 && *r@[i].1
                == vlan_entries(*m)[i].1,
{
    m.iter().collect()
}

/// The entries of a map of tunnels, in insertion order, each as its
/// name's characters and the value.
pub uninterp spec fn tunnel_entries(m: IndexMap<String, TunnelDef>) -> Seq<(Seq<char>, TunnelDef)>;

/// The entries of a map of tunnels in order: `IndexMap::iter`, collected.
/// The result holds exactly the entries that [`tunnel_entries`] names.
#[verifier::external_body]
pub(crate) fn tunnel_list(m: &IndexMap<String, TunnelDef>) -> (r: Vec<(&String, &TunnelDef)>)
    ensures
        r@.len() == tunnel_entries(*m).len(),
        forall|i: int|
            0 <= i < r@.len() ==> (#[trigger] r@[i]).0@ == tunnel_entries(*m)[i].0 && *r@[i].1
                == tunnel_entries(*m)[i].1,
{
    m.iter().collect()
}

/// The entries of a map of vrfs, in insertion order, each as its
/// name's characters and the value.
pub uninterp spec fn vrf_entries(m: IndexMap<String, VrfDef>) -> Seq<(Seq<char>, VrfDef)>;

/// The entries of a map of vrfs in order: `IndexMap::iter`, collected.
/// The result holds exactly the entries that [`vrf_entries`] names.
#[verifier::external_body]
pub(crate) fn vrf_list(m: &IndexMap<String, VrfDef>) -> (r: Vec<(&String, &VrfDef)>)
    ensures
        r@.len() == vrf_entries(*m).len(),
        forall|i: int|
            0 <= i < r@.len() ==> (#[trigger] r@[i]).0@ == vrf_entries(*m)[i].0 && *r@[i].1
                == vrf_entries(*m)[i].1,
{
    m.iter().collect()
}

/// The entries of a map of devices, in insertion order, each as its
/// name's characters and the value.
pub uninterp spec fn device_entries(m: IndexMap<String, CommonDef>) -> Seq<(Seq<char>, CommonDef)>;

/// The entries of a map of devices in order: `IndexMap::iter`, collected.
/// The result holds exactly the entries that [`device_entries`] names.
#[verifier::external_body]
pub(crate) fn device_list(m: &IndexMap<String, CommonDef>) -> (r: Vec<(&String, &CommonDef)>)
    ensures
        r@.len() == device_entries(*m).len(),
        forall|i: int|
            0 <= i < r@.len() ==> (#[trigger] r@[i]).0@ == device_entries(*m)[i].0 && *r@[i].1
                == device_entries(*m)[i].1,
{
    m.iter().collect()
}

/// The entries of a map of access points, in insertion order, each as its
/// name's characters and the value.
pub uninterp spec fn access_point_entries(m: IndexMap<String, AccessPoint>) -> Seq<(Seq<char>, AccessPoint)>;

/// The entries of a map of access points in order: `IndexMap::iter`, collected.
/// The result holds exactly the entries that [`access_point_entries`] names.
#[verifier::external_body]
pub(crate) fn access_point_list(m: &IndexMap<String, AccessPoint>) -> (r: Vec<(&String, &AccessPoint)>)
    ensures
        r@.len() == access_point_entries(*m).len(),
        forall|i: int|
            0 <= i < r@.len() ==> (#[trigger] r@[i]).0@ == access_point_entries(*m)[i].0 && *r@[i].1
                == access_point_entries(*m)[i].1,
{
    m.iter().collect()
}

} // verus!
