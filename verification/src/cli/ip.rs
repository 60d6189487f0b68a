//! `ip leases`: show the DHCP lease that systemd-networkd stored for an
//! interface.
//!
//! The caller runs the steps: [`run`] names the next action from what the
//! last one gave, until it answers with a lease to print or a warning.
use crate::cli::root::{root_of, root_path};
use crate::text::{join_path, path_join, trim_text, trimmed};
use vstd::prelude::*;

verus! {

/// Options of `ip`.
pub struct IpArgs {
    pub command: IpCommand,
}

/// The subcommands of `ip`.
pub enum IpCommand {
    /// Display the IP leases of an interface.
    Leases(LeasesArgs),
}

/// Options of `ip leases`.
pub struct LeasesArgs {
    /// The root directory.
    pub root_dir: Option<String>,
    /// The interface to show leases for.
    pub interface: String,
}

/// What the last action of `ip leases` gave.
pub enum IpEvent {
    /// Nothing has run yet.
    Start,
    /// Whether the lease directory exists.
    LeaseDir(bool),
    /// The interface's index file, when it could be read.
    Ifindex(Option<String>),
    /// Whether the lease file at this path exists.
    LeaseFile(String, bool),
}

/// The next action of `ip leases`.
pub enum IpAction {
    /// Check whether this directory exists.
    CheckDir(String),
    /// Read this file.
    ReadIfindex(String),
    /// Check whether this lease file exists.
    CheckLease(String),
    /// Print the content of this file; then stop.
    PrintLease(String),
    /// Print this warning on standard error; then stop.
    Warn(String),
}

/// The directory where systemd-networkd keeps leases, below `root`.
pub open spec fn leases_dir(root: Seq<char>) -> Seq<char> {
    path_join(root, "run/systemd/netif/leases"@)
}

/// The file holding the index of `interface`.
pub open spec fn ifindex_path(interface: Seq<char>) -> Seq<char> {
    path_join(path_join("/sys/class/net"@, interface), "ifindex"@)
}

/// The lease file of the interface whose index file read `contents`; an
/// unreadable index file stands for an empty index.
pub open spec fn lease_path(root: Seq<char>, contents: Option<String>) -> Seq<char> {
    path_join(
        leases_dir(root),
        match contents {
            Some(c) => trimmed(c@),
            None => Seq::empty(),
        },
    )
}

/// The next action of `ip leases` after `event`.
pub open spec fn leases_step(args: LeasesArgs, event: IpEvent, r: IpAction) -> bool {
    let root = root_of(args.root_dir);
    match event {
        IpEvent::Start => r matches IpAction::CheckDir(d) && d@ == leases_dir(root),
        IpEvent::LeaseDir(exists) => if exists {
            r matches IpAction::ReadIfindex(p) && p@ == ifindex_path(args.interface@)
        } else {
            r matches IpAction::Warn(m) && m@ == "No lease directory found at "@ + leases_dir(
                root,
            )
        },
        IpEvent::Ifindex(contents) => r matches IpAction::CheckLease(p) && p@ == lease_path(
            root,
            contents,
        ),
        IpEvent::LeaseFile(path, exists) => if exists {
            r matches IpAction::PrintLease(p) && p@ == path@
        } else {
            r matches IpAction::Warn(m) && m@ == "No lease found for "@ + args.interface@
        },
    }
}

fn run_leases(args: &LeasesArgs, event: IpEvent) -> (r: IpAction)
    ensures
        leases_step(*args, event, r),
{
    let root = root_path(&args.root_dir);
    let dir = join_path(root, "run/systemd/netif/leases");
    match event {
        IpEvent::Start => IpAction::CheckDir(dir),
        IpEvent::LeaseDir(exists) => {
            if exists {
                let p = join_path("/sys/class/net", args.interface.as_str());
                IpAction::ReadIfindex(join_path(p.as_str(), "ifindex"))
            } else {
                let mut m = String::from_str("No lease directory found at ");
                m.append(dir.as_str());
                IpAction::Warn(m)
            }
        },
        IpEvent::Ifindex(contents) => {
            let index = match &contents {
                Some(c) => trim_text(c.as_str()),
                None => String::new(),
            };
            IpAction::CheckLease(join_path(dir.as_str(), index.as_str()))
        },
        IpEvent::LeaseFile(path, exists) => {
            if exists {
                IpAction::PrintLease(path)
            } else {
                let mut m = String::from_str("No lease found for ");
                m.append(args.interface.as_str());
                IpAction::Warn(m)
            }
        },
    }
}

/// The next action of `ip` after `event`: for `leases`, check that the
/// lease directory exists, read the interface's index, check the lease file
/// named by it, and print that file; warn when the directory or the file is
/// missing.
pub fn run(args: &IpArgs, event: IpEvent) -> (r: IpAction)
    ensures
        match args.command {
            IpCommand::Leases(l) => leases_step(l, event, r),
        },
{
    match &args.command {
        IpCommand::Leases(l) => run_leases(l, event),
    }
}

} // verus!
