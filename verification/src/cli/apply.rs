//! `apply`: regenerate the backend files, then have the backend reload
//! them.
//!
//! The caller runs the steps: [`run`] names the next action from what the
//! last one gave, until it answers [`ApplyAction::Finish`].
use crate::cli::generate::GenerateArgs;
use crate::config::types::{effective_renderer, renderer_or_default, Renderer};
use crate::text::{join, views};
use vstd::prelude::*;

verus! {

/// Options of `apply`.
pub struct ApplyArgs {
    /// Only apply the SR-IOV configuration.
    pub sriov_only: bool,
    /// Only clean up the Open vSwitch configuration.
    pub only_ovs_cleanup: bool,
    /// Directory with the previous network state.
    pub state: Option<String>,
}

/// A program to run, with its arguments.
pub struct CommandLine {
    pub program: String,
    pub args: Vec<String>,
}

/// A command line as its program and arguments.
pub open spec fn command_view(c: CommandLine) -> (Seq<char>, Seq<Seq<char>>) {
    (c.program@, views(c.args@))
}

/// The text of a command line: the program and its arguments, separated by
/// spaces.
pub open spec fn command_text(c: (Seq<char>, Seq<Seq<char>>)) -> Seq<char> {
    c.0 + " "@ + join(c.1, " "@)
}

impl CommandLine {
    /// The command line as text, as it is shown before it runs.
    pub fn describe(&self) -> (r: String)
        ensures
            r@ == command_text(command_view(*self)),
    {
        let mut r = self.program.clone();
        r.append(" ");
        let j = crate::text::join_strings(&self.args, " ");
        r.append(j.as_str());
        r
    }
}

fn command(program: &str, args: &[&str]) -> (r: CommandLine)
    ensures
        r.program@ == program@,
        r.args@.len() == args@.len(),
        forall|i: int| 0 <= i < args@.len() ==> (#[trigger] r.args@[i])@ == args@[i]@,
{
    let mut v: Vec<String> = Vec::new();
    let n = args.len();
    let mut i: usize = 0;
    while i < n
        invariant
            n == args@.len(),
            i <= n,
            v@.len() == i,
            forall|j: int| 0 <= j < i ==> (#[trigger] v@[j])@ == args@[j]@,
        decreases n - i,
    {
        v.push(args[i].to_owned());
        i = i + 1;
    }
    CommandLine { program: program.to_owned(), args: v }
}

/// The command that has the renderer reload its configuration.
pub open spec fn reload_command(r: Renderer) -> (Seq<char>, Seq<Seq<char>>) {
    match r {
        Renderer::Networkd => ("networkctl"@, seq!["reload"@]),
        Renderer::NetworkManager => ("nmcli"@, seq!["connection"@, "reload"@]),
    }
}

/// `networkctl reload`.
pub fn reload_networkd() -> (r: CommandLine)
    ensures
        command_view(r) == reload_command(Renderer::Networkd),
{
    let r = command("networkctl", &["reload"]);
    assert(views(r.args@) =~= seq!["reload"@]);
    r
}

/// `nmcli connection reload`.
pub fn reload_nm() -> (r: CommandLine)
    ensures
        command_view(r) == reload_command(Renderer::NetworkManager),
{
    let r = command("nmcli", &["connection", "reload"]);
    assert(views(r.args@) =~= seq!["connection"@, "reload"@]);
    r
}

/// The command that has `renderer` reload its configuration.
pub fn reload_for(renderer: &Renderer) -> (r: CommandLine)
    ensures
        command_view(r) == reload_command(*renderer),
{
    match renderer {
        Renderer::Networkd => reload_networkd(),
        Renderer::NetworkManager => reload_nm(),
    }
}

/// What the last action of `apply` gave.
pub enum ApplyEvent {
    /// Nothing has run yet.
    Start,
    /// The backend files were generated.
    Generated,
    /// The configuration was read; it names this renderer, or none.
    ConfigLoaded(Option<Renderer>),
    /// The reload command ran.
    Reloaded,
}

/// The next action of `apply`.
pub enum ApplyAction {
    /// Run `generate` with these options.
    Generate(GenerateArgs),
    /// Read the configuration below this root.
    LoadConfig(String),
    /// Run this command.
    Run(CommandLine),
    /// Stop: `apply` succeeded.
    Finish,
}

/// The next action of `apply` after `event`: generate with the default root;
/// then stop when only SR-IOV or Open vSwitch work was asked for; else read
/// the configuration below `/` and run the reload command of its renderer.
pub fn run(args: &ApplyArgs, event: ApplyEvent) -> (r: ApplyAction)
    ensures
        match event {
            ApplyEvent::Start => r matches ApplyAction::Generate(g) && g.root_dir is None
                && g.mapping is None,
            ApplyEvent::Generated => if args.sriov_only || args.only_ovs_cleanup {
                r is Finish
            } else {
                r matches ApplyAction::LoadConfig(root) && root@ == "/"@
            },
            ApplyEvent::ConfigLoaded(renderer) => r matches ApplyAction::Run(c) && command_view(c)
                == reload_command(effective_renderer(renderer)),
            ApplyEvent::Reloaded => r is Finish,
        },
{
    match event {
        ApplyEvent::Start => ApplyAction::Generate(GenerateArgs { root_dir: None, mapping: None }),
        ApplyEvent::Generated => {
            if args.sriov_only || args.only_ovs_cleanup {
                ApplyAction::Finish
            } else {
                ApplyAction::LoadConfig(String::from_str("/"))
            }
        },
        ApplyEvent::ConfigLoaded(renderer) => {
            let r = renderer_or_default(&renderer);
            ApplyAction::Run(reload_for(&r))
        },
        ApplyEvent::Reloaded => ApplyAction::Finish,
    }
}

} // verus!
