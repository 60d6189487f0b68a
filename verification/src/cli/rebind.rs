//! `rebind`: report, for each SR-IOV physical function named, how many
//! virtual functions it has to rebind.
//!
//! The caller runs the steps: [`run`] names the next action from what the
//! last one gave, until it answers [`RebindAction::Finish`].
use crate::text::{decimal, decimal_string, join_path, parse_u32, parsed_u32, path_join, trim_text, trimmed};
use vstd::prelude::*;

verus! {

/// Options of `rebind`.
pub struct RebindArgs {
    /// The root directory.
    pub root_dir: Option<String>,
    /// The physical function interfaces to rebind.
    pub interfaces: Vec<String>,
}

/// What the last action of `rebind` gave.
pub enum RebindEvent {
    /// Go on with the interface at this position of the list.
    Next(usize),
    /// Whether the PCI device of the interface at this position exists.
    Device(usize, bool),
    /// The interface's count of virtual functions, when it could be read.
    NumVfs(usize, Option<String>),
}

/// The next action of `rebind`.
pub enum RebindAction {
    /// Check whether the PCI device path of the interface at this position
    /// exists.
    CheckDevice(usize, String),
    /// Read the file with the count of virtual functions of the interface
    /// at this position.
    ReadNumVfs(usize, String),
    /// Print this line on standard error, then go on with the interface at
    /// this position.
    Say(String, usize),
    /// Stop.
    Finish,
}

/// The PCI device directory of a network interface.
pub open spec fn device_path(pf: Seq<char>) -> Seq<char> {
    path_join(path_join("/sys/class/net"@, pf), "device"@)
}

/// The file holding the number of virtual functions of an interface.
pub open spec fn numvfs_path(pf: Seq<char>) -> Seq<char> {
    path_join(device_path(pf), "sriov_numvfs"@)
}

/// The number of virtual functions read from the file: its trimmed text as
/// a 32-bit number, 0 when it is unreadable or not a number.
pub open spec fn vf_count(contents: Option<String>) -> u32 {
    match contents {
        Some(c) => match parsed_u32(trimmed(c@)) {
            Some(n) => n,
            None => 0,
        },
        None => 0,
    }
}

/// The next action of `rebind` after `event`.
pub open spec fn rebind_step(pfs: Seq<Seq<char>>, event: RebindEvent, r: RebindAction) -> bool {
    match event {
        RebindEvent::Next(i) => if i < pfs.len() {
            r matches RebindAction::CheckDevice(j, p) && j == i && p@ == device_path(pfs[i as int])
        } else {
            r is Finish
        },
        RebindEvent::Device(i, exists) => if i >= pfs.len() {
            r is Finish
        } else if exists {
            r matches RebindAction::ReadNumVfs(j, p) && j == i && p@ == numvfs_path(pfs[i as int])
        } else {
            r matches RebindAction::Say(m, j) && j == i + 1 && m@ == "Warning: no PCI device found for "@
                + pfs[i as int]
        },
        RebindEvent::NumVfs(i, contents) => if i >= pfs.len() {
            r is Finish
        } else {
            r matches RebindAction::Say(m, j) && j == i + 1 && m@ == "Rebinding "@ + decimal(
                vf_count(contents) as nat,
            ) + " VFs for "@ + pfs[i as int]
        },
    }
}

/// The number of virtual functions read from the file.
pub fn count_vfs(contents: &Option<String>) -> (r: u32)
    ensures
        r == vf_count(*contents),
{
    match contents {
        Some(c) => {
            let t = trim_text(c.as_str());
            match parse_u32(t.as_str()) {
                Some(n) => n,
                None => 0,
            }
        },
        None => 0,
    }
}

/// The next action of `rebind` after `event`: for each interface in turn,
/// warn when it has no PCI device, else read its count of virtual
/// functions and report it.
pub fn run(args: &RebindArgs, event: RebindEvent) -> (r: RebindAction)
    ensures
        rebind_step(crate::text::views(args.interfaces@), event, r),
{
    let n = args.interfaces.len();
    match event {
        RebindEvent::Next(i) => {
            if i < n {
                let p = join_path("/sys/class/net", args.interfaces[i].as_str());
                RebindAction::CheckDevice(i, join_path(p.as_str(), "device"))
            } else {
                RebindAction::Finish
            }
        },
        RebindEvent::Device(i, exists) => {
            if i >= n {
                RebindAction::Finish
            } else if exists {
                let p = join_path("/sys/class/net", args.interfaces[i].as_str());
                let d = join_path(p.as_str(), "device");
                RebindAction::ReadNumVfs(i, join_path(d.as_str(), "sriov_numvfs"))
            } else {
                let mut m = String::from_str("Warning: no PCI device found for ");
                m.append(args.interfaces[i].as_str());
                RebindAction::Say(m, i + 1)
            }
        },
        RebindEvent::NumVfs(i, contents) => {
            if i >= n {
                RebindAction::Finish
            } else {
                let count = count_vfs(&contents);
                let mut m = String::from_str("Rebinding ");
                let d = decimal_string(count as u64);
                m.append(d.as_str());
                m.append(" VFs for ");
                m.append(args.interfaces[i].as_str());
                RebindAction::Say(m, i + 1)
            }
        },
    }
}

} // verus!
