//! What each interface belongs to in the networkd rendering: the last
//! bridge, bond and VRF that lists it, and every VLAN whose link it is.
use crate::backends::networkd::{
    bond_claims, bridge_claims, claim, claim_all, membership_for, memberships, no_membership,
    vlan_claims, vrf_claims, with_role, MembershipView, Role,
};
use crate::config::maps::{
    bond_entries, bridge_entries, lemma_name_position, name_position, vlan_entries, vrf_entries,
};
use crate::config::types::{BondDef, BridgeDef, NetworkConfig, VlanDef, VrfDef};
use crate::text::views;
use vstd::prelude::*;

verus! {

/// The last bridge that lists `x` among its interfaces.
pub open spec fn last_bridge(devs: Seq<(Seq<char>, BridgeDef)>, x: Seq<char>) -> Option<Seq<char>>
    decreases devs.len(),
{
    if devs.len() == 0 {
        None
    } else if views(devs.last().1.interfaces@).contains(x) {
        Some(devs.last().0)
    } else {
        last_bridge(devs.drop_last(), x)
    }
}

/// The last bond that lists `x` among its interfaces.
pub open spec fn last_bond(devs: Seq<(Seq<char>, BondDef)>, x: Seq<char>) -> Option<Seq<char>>
    decreases devs.len(),
{
    if devs.len() == 0 {
        None
    } else if views(devs.last().1.interfaces@).contains(x) {
        Some(devs.last().0)
    } else {
        last_bond(devs.drop_last(), x)
    }
}

/// The last VRF that lists `x` among its interfaces.
pub open spec fn last_vrf(devs: Seq<(Seq<char>, VrfDef)>, x: Seq<char>) -> Option<Seq<char>>
    decreases devs.len(),
{
    if devs.len() == 0 {
        None
    } else if views(devs.last().1.interfaces@).contains(x) {
        Some(devs.last().0)
    } else {
        last_vrf(devs.drop_last(), x)
    }
}

/// The VLANs whose link is `x`, in order.
pub open spec fn vlans_on(devs: Seq<(Seq<char>, VlanDef)>, x: Seq<char>) -> Seq<Seq<char>>
    decreases devs.len(),
{
    if devs.len() == 0 {
        Seq::empty()
    } else {
        let prev = vlans_on(devs.drop_last(), x);
        match devs.last().1.link {
            Some(l) => if l@ == x {
                prev.push(devs.last().0)
            } else {
                prev
            },
            None => prev,
        }
    }
}

proof fn lemma_name_position_push(
    ms: Seq<(Seq<char>, MembershipView)>,
    e: (Seq<char>, MembershipView),
    k: Seq<char>,
)
    ensures
        name_position(ms.push(e), k) == if name_position(ms, k) >= 0 {
            name_position(ms, k)
        } else if e.0 == k {
            ms.len() as int
        } else {
            -1
        },
{
    assert(ms.push(e).drop_last() =~= ms);
}

proof fn lemma_name_position_same_names(
    a: Seq<(Seq<char>, MembershipView)>,
    b: Seq<(Seq<char>, MembershipView)>,
    k: Seq<char>,
)
    requires
        a.len() == b.len(),
        forall|i: int| 0 <= i < a.len() ==> a[i].0 == b[i].0,
    ensures
        name_position(a, k) == name_position(b, k),
    decreases a.len(),
{
    if a.len() > 0 {
        lemma_name_position_same_names(a.drop_last(), b.drop_last(), k);
    }
}

/// Claiming `n` changes the membership of `n` alone, by its role.
pub proof fn lemma_claim(
    ms: Seq<(Seq<char>, MembershipView)>,
    n: Seq<char>,
    role: Role,
    id: Seq<char>,
    x: Seq<char>,
)
    ensures
        membership_for(claim(ms, n, role, id), x) == if x == n {
            with_role(membership_for(ms, x), role, id)
        } else {
            membership_for(ms, x)
        },
{
    lemma_name_position(ms, n);
    lemma_name_position(ms, x);
    let p = name_position(ms, n);
    let r = claim(ms, n, role, id);
    if p >= 0 {
        lemma_name_position_same_names(r, ms, x);
        if x != n {
            let q = name_position(ms, x);
            if q >= 0 {
                assert(q != p);
            }
        }
    } else {
        lemma_name_position_push(ms, (n, with_role(no_membership(), role, id)), x);
    }
}

/// Whether a role replaces what the interface had (a bridge, bond or VRF),
/// rather than adding to it (a VLAN).
pub open spec fn replacing(role: Role) -> bool {
    role != Role::Vlan
}

/// Claiming every name of a list for a replacing role changes the
/// membership of the names listed alone.
pub proof fn lemma_claim_all(
    ms: Seq<(Seq<char>, MembershipView)>,
    names: Seq<Seq<char>>,
    role: Role,
    id: Seq<char>,
    x: Seq<char>,
)
    requires
        replacing(role),
    ensures
        membership_for(claim_all(ms, names, role, id), x) == if names.contains(x) {
            with_role(membership_for(ms, x), role, id)
        } else {
            membership_for(ms, x)
        },
    decreases names.len(),
{
    if names.len() > 0 {
        let prev = claim_all(ms, names.drop_last(), role, id);
        lemma_claim_all(ms, names.drop_last(), role, id, x);
        lemma_claim(prev, names.last(), role, id, x);
        if names.contains(x) {
            if !names.drop_last().contains(x) {
                let j = choose|j: int| 0 <= j < names.len() && names[j] == x;
                if j < names.len() - 1 {
                    assert(names.drop_last()[j] == x);
                }
            }
        } else {
            assert forall|j: int| 0 <= j < names.len() - 1 implies names.drop_last()[j] != x by {
                assert(names.drop_last()[j] == names[j]);
            }
            assert(names.last() != x) by {
                assert(names[names.len() - 1] != x);
            }
        }
    }
}

/// After the bridges claim their interfaces, an interface's bridge is the
/// last bridge that lists it; nothing else changes.
pub proof fn lemma_bridge_claims(
    ms: Seq<(Seq<char>, MembershipView)>,
    devs: Seq<(Seq<char>, BridgeDef)>,
    x: Seq<char>,
)
    ensures
        membership_for(bridge_claims(ms, devs), x) == match last_bridge(devs, x) {
            Some(b) => (MembershipView { bridge: Some(b), ..membership_for(ms, x) }),
            None => membership_for(ms, x),
        },
    decreases devs.len(),
{
    if devs.len() > 0 {
        lemma_bridge_claims(ms, devs.drop_last(), x);
        lemma_claim_all(
            bridge_claims(ms, devs.drop_last()),
            views(devs.last().1.interfaces@),
            Role::Bridge,
            devs.last().0,
            x,
        );
    }
}

/// After the bonds claim their interfaces, an interface's bond is the last
/// bond that lists it; nothing else changes.
pub proof fn lemma_bond_claims(
    ms: Seq<(Seq<char>, MembershipView)>,
    devs: Seq<(Seq<char>, BondDef)>,
    x: Seq<char>,
)
    ensures
        membership_for(bond_claims(ms, devs), x) == match last_bond(devs, x) {
            Some(b) => (MembershipView { bond: Some(b), ..membership_for(ms, x) }),
            None => membership_for(ms, x),
        },
    decreases devs.len(),
{
    if devs.len() > 0 {
        lemma_bond_claims(ms, devs.drop_last(), x);
        lemma_claim_all(
            bond_claims(ms, devs.drop_last()),
            views(devs.last().1.interfaces@),
            Role::Bond,
            devs.last().0,
            x,
        );
    }
}

/// After the VRFs claim their interfaces, an interface's VRF is the last
/// VRF that lists it; nothing else changes.
pub proof fn lemma_vrf_claims(
    ms: Seq<(Seq<char>, MembershipView)>,
    devs: Seq<(Seq<char>, VrfDef)>,
    x: Seq<char>,
)
    ensures
        membership_for(vrf_claims(ms, devs), x) == match last_vrf(devs, x) {
            Some(b) => (MembershipView { vrf: Some(b), ..membership_for(ms, x) }),
            None => membership_for(ms, x),
        },
    decreases devs.len(),
{
    if devs.len() > 0 {
        lemma_vrf_claims(ms, devs.drop_last(), x);
        lemma_claim_all(
            vrf_claims(ms, devs.drop_last()),
            views(devs.last().1.interfaces@),
            Role::Vrf,
            devs.last().0,
            x,
        );
    }
}

/// After the VLANs claim their links, an interface's VLANs are those it
/// had followed by the VLANs whose link it is, in order.
pub proof fn lemma_vlan_claims(
    ms: Seq<(Seq<char>, MembershipView)>,
    devs: Seq<(Seq<char>, VlanDef)>,
    x: Seq<char>,
)
    ensures
        membership_for(vlan_claims(ms, devs), x) == (MembershipView {
            vlans: membership_for(ms, x).vlans + vlans_on(devs, x),
            ..membership_for(ms, x)
        }),
    decreases devs.len(),
{
    if devs.len() == 0 {
        assert(membership_for(ms, x).vlans + Seq::<Seq<char>>::empty() =~= membership_for(
            ms,
            x,
        ).vlans);
    } else {
        let prev = vlan_claims(ms, devs.drop_last());
        lemma_vlan_claims(ms, devs.drop_last(), x);
        match devs.last().1.link {
            Some(parent) => {
                lemma_claim(prev, parent@, Role::Vlan, devs.last().0, x);
                assert(membership_for(ms, x).vlans + vlans_on(devs.drop_last(), x).push(
                    devs.last().0,
                ) =~= (membership_for(ms, x).vlans + vlans_on(devs.drop_last(), x)).push(
                    devs.last().0,
                ));
            },
            None => {},
        }
    }
}

/// What an interface belongs to in the networkd rendering of `cfg`: the
/// last bridge, the last bond and the last VRF that list it among their
/// interfaces, and the VLANs whose link it is, in order.
pub proof fn lemma_membership_of(cfg: NetworkConfig, x: Seq<char>)
    ensures
        membership_for(memberships(cfg), x) == (MembershipView {
            bridge: last_bridge(bridge_entries(cfg.bridges), x),
            bond: last_bond(bond_entries(cfg.bonds), x),
            vrf: last_vrf(vrf_entries(cfg.vrfs), x),
            vlans: vlans_on(vlan_entries(cfg.vlans), x),
        }),
{
    let m0 = Seq::<(Seq<char>, MembershipView)>::empty();
    let m1 = bridge_claims(m0, bridge_entries(cfg.bridges));
    let m2 = bond_claims(m1, bond_entries(cfg.bonds));
    let m3 = vlan_claims(m2, vlan_entries(cfg.vlans));
    lemma_bridge_claims(m0, bridge_entries(cfg.bridges), x);
    lemma_bond_claims(m1, bond_entries(cfg.bonds), x);
    lemma_vlan_claims(m2, vlan_entries(cfg.vlans), x);
    lemma_vrf_claims(m3, vrf_entries(cfg.vrfs), x);
    assert(Seq::<Seq<char>>::empty() + vlans_on(vlan_entries(cfg.vlans), x) =~= vlans_on(
        vlan_entries(cfg.vlans),
        x,
    ));
}

} // verus!
