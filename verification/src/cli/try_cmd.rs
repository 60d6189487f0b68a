//! `try`: apply the configuration, and restore the previous backend files
//! unless the user accepts the new ones in time.
use crate::cli::apply::{command_view, reload_command, reload_for, CommandLine};
use crate::config::types::Renderer;
use crate::text::{decimal, decimal_string, has_prefix, join_path, path_join, starts_with};
use vstd::prelude::*;

verus! {

/// Options of `try`.
pub struct TryArgs {
    /// A configuration file to try.
    pub config_file: Option<String>,
    /// Seconds to wait before reverting.
    pub timeout: u64,
    /// Directory with the previous network state.
    pub state: Option<String>,
}

/// The directory where a renderer's generated files are, below `root`.
pub open spec fn backend_dir(renderer: Renderer, root: Seq<char>) -> Seq<char> {
    match renderer {
        Renderer::Networkd => path_join(root, "run/systemd/network"@),
        Renderer::NetworkManager => path_join(root, "run/NetworkManager/system-connections"@),
    }
}

/// The directory where a renderer's generated files are, below `root`.
pub fn backend_output_dir(renderer: &Renderer, root: &str) -> (r: String)
    ensures
        r@ == backend_dir(*renderer, root@),
{
    match renderer {
        Renderer::Networkd => join_path(root, "run/systemd/network"),
        Renderer::NetworkManager => join_path(root, "run/NetworkManager/system-connections"),
    }
}

/// The command that has `renderer` reload its configuration.
pub fn reload_backend(renderer: &Renderer) -> (r: CommandLine)
    ensures
        command_view(r) == reload_command(*renderer),
{
    reload_for(renderer)
}

/// Where a configuration file being tried is put.
pub open spec fn trial_config_path() -> Seq<char> {
    "/etc/netplan/_rustplan-try.yaml"@
}

/// Where a configuration file being tried is put.
pub fn trial_config() -> (r: &'static str)
    ensures
        r@ == trial_config_path(),
{
    "/etc/netplan/_rustplan-try.yaml"
}

/// Whether a file of the backend directory was generated by this tool: its
/// name starts with `10-netplan-` or `netplan-`.
pub open spec fn generated_name(name: Seq<char>) -> bool {
    starts_with(name, "10-netplan-"@) || starts_with(name, "netplan-"@)
}

/// Whether a file of the backend directory was generated by this tool, and
/// is removed before the saved files are put back.
pub fn is_generated_file(name: &str) -> (r: bool)
    ensures
        r == generated_name(name@),
{
    has_prefix(name, "10-netplan-") || has_prefix(name, "netplan-")
}

/// The question asked once the configuration is applied.
pub open spec fn prompt_text(timeout: u64) -> Seq<char> {
    "Do you want to keep these settings? Press Enter to accept or wait "@ + decimal(
        timeout as nat,
    ) + "s to revert."@
}

/// The question asked once the configuration is applied.
pub fn prompt(timeout: u64) -> (r: String)
    ensures
        r@ == prompt_text(timeout),
{
    let mut r = String::from_str(
        "Do you want to keep these settings? Press Enter to accept or wait ",
    );
    let d = decimal_string(timeout);
    r.append(d.as_str());
    r.append("s to revert.");
    r
}

/// How far `try` has got.
#[derive(Clone, Copy, PartialEq, Eq, Structural)]
pub enum TryStep {
    /// Nothing has run yet.
    Start,
    /// Reading the configuration as it is.
    Loading,
    /// Making the directory for the saved files.
    Snapshotting,
    /// Checking whether the backend directory exists.
    Checking,
    /// Saving the backend files.
    Saving,
    /// Putting the configuration file to try in place.
    Placing,
    /// Generating the backend files.
    Generating,
    /// Reading the configuration being tried.
    Rereading,
    /// Reloading the configuration being tried.
    Applying,
    /// Asking whether to keep it.
    Asking,
    /// Removing the configuration file that was tried.
    Cleaning,
    /// Saying what happens next.
    Telling,
    /// Putting the saved backend files back.
    Restoring,
    /// Reloading the configuration as it was.
    Reverting,
    /// Done.
    Finished,
}

/// The state of `try`: the step, the renderer of the configuration as it
/// was, and whether the new configuration was accepted.
#[derive(Clone, Copy, PartialEq, Eq, Structural)]
pub struct TryState {
    pub step: TryStep,
    pub previous: Renderer,
    pub accepted: bool,
}

impl TryState {
    /// The state before anything has run.
    pub fn new() -> (r: TryState)
        ensures
            r == (TryState { step: TryStep::Start, previous: Renderer::Networkd, accepted: false }),
    {
        TryState { step: TryStep::Start, previous: Renderer::Networkd, accepted: false }
    }
}

/// What the last action of `try` gave.
pub enum TryEvent {
    /// Nothing has run yet.
    Begin,
    /// The action finished.
    Done,
    /// The configuration was read; it names this renderer, or none.
    ConfigLoaded(Option<Renderer>),
    /// Whether the directory checked exists.
    DirExists(bool),
    /// Whether the user accepted the new configuration in time.
    Answer(bool),
}

/// The next action of `try`.
pub enum TryAction {
    /// Read the configuration below this root.
    LoadConfig(String),
    /// Make an empty directory to save the backend files in.
    MakeSnapshot,
    /// Check whether this directory exists.
    CheckDir(String),
    /// Copy the files of this directory into the saved files.
    SaveSnapshot(String),
    /// Copy the first file to the second path and open it.
    PlaceConfig(String, String),
    /// Run `generate` with these options.
    Generate(crate::cli::generate::GenerateArgs),
    /// Run this command.
    Run(CommandLine),
    /// Print this question on standard error and wait this many seconds
    /// for Enter.
    Ask(String, u64),
    /// Remove this file, ignoring failure.
    RemoveFile(String),
    /// Print this line on standard error.
    Say(String),
    /// Remove the generated files of this directory and copy the saved
    /// files back into it.
    Restore(String),
    /// Stop: `try` succeeded.
    Finish,
}

/// The state after moving to `step`.
pub open spec fn moved(s: TryState, step: TryStep) -> TryState {
    TryState { step: step, ..s }
}

/// What follows the backend files being saved, or found missing: placing
/// the configuration file to try, when one is given, else generating.
pub open spec fn after_saving(args: TryArgs, s: TryState, ns: TryState, r: TryAction) -> bool {
    match args.config_file {
        Some(c) => (r matches TryAction::PlaceConfig(from, to)
            && from@ == c@ && to@ == trial_config_path()) && ns == moved(s, TryStep::Placing),
        None => (r matches TryAction::Generate(g)
            && g.root_dir is None && g.mapping is None) && ns == moved(s, TryStep::Generating),
    }
}

/// The message once the wait is over.
pub open spec fn verdict_text(accepted: bool) -> Seq<char> {
    if accepted {
        "Configuration accepted."@
    } else {
        "Reverting to previous configuration..."@
    }
}

/// What follows the answer, once the configuration file tried is removed:
/// say whether the new configuration stays; if not, restore and reload.
pub open spec fn after_cleaning(s: TryState, ns: TryState, r: TryAction) -> bool {
    (r matches TryAction::Say(m) && m@ == verdict_text(
        s.accepted,
    )) && ns == moved(s, TryStep::Telling)
}

/// The next state and action of `try` after `event` in state `s`: read the
/// configuration; save the files of its renderer's backend directory, when
/// there is one; put the configuration file to try in place; generate; read
/// the configuration again and reload it with its renderer; ask, and wait;
/// remove the configuration file tried; then either keep the new files or
/// put the saved ones back and reload with the renderer of before. An event
/// that does not fit the step finishes.
pub open spec fn try_next(args: TryArgs, s: TryState, event: TryEvent, ns: TryState, r: TryAction) -> bool {
    let dir = backend_dir(s.previous, "/"@);
    match s.step {
        TryStep::Start => match event {
            TryEvent::Begin => (r matches TryAction::LoadConfig(
                root,
            ) && root@ == "/"@) && ns == moved(s, TryStep::Loading),
            _ => (r is Finish) && ns == moved(s, TryStep::Finished),
        },
        TryStep::Loading => match event {
            TryEvent::ConfigLoaded(renderer) => (r is MakeSnapshot) && ns == (TryState {
                step: TryStep::Snapshotting,
                previous: crate::config::types::effective_renderer(renderer),
                accepted: s.accepted,
            }),
            _ => (r is Finish) && ns == moved(s, TryStep::Finished),
        },
        TryStep::Snapshotting => match event {
            TryEvent::Done => (r matches TryAction::CheckDir(d)
                && d@ == dir) && ns == moved(s, TryStep::Checking),
            _ => (r is Finish) && ns == moved(s, TryStep::Finished),
        },
        TryStep::Checking => match event {
            TryEvent::DirExists(exists) => if exists {
                (r matches TryAction::SaveSnapshot(d) && d@ == dir) && ns == moved(s, TryStep::Saving)
            } else {
                after_saving(args, s, ns, r)
            },
            _ => (r is Finish) && ns == moved(s, TryStep::Finished),
        },
        TryStep::Saving => match event {
            TryEvent::Done => after_saving(args, s, ns, r),
            _ => (r is Finish) && ns == moved(s, TryStep::Finished),
        },
        TryStep::Placing => match event {
            TryEvent::Done => (r matches TryAction::Generate(g)
                && g.root_dir is None && g.mapping is None) && ns == moved(s, TryStep::Generating),
            _ => (r is Finish) && ns == moved(s, TryStep::Finished),
        },
        TryStep::Generating => match event {
            TryEvent::Done => (r matches TryAction::LoadConfig(
                root,
            ) && root@ == "/"@) && ns == moved(s, TryStep::Rereading),
            _ => (r is Finish) && ns == moved(s, TryStep::Finished),
        },
        TryStep::Rereading => match event {
            TryEvent::ConfigLoaded(renderer) => (r matches TryAction::Run(c) && command_view(c)
                == reload_command(crate::config::types::effective_renderer(renderer))) && ns
                == moved(s, TryStep::Applying),
            _ => (r is Finish) && ns == moved(s, TryStep::Finished),
        },
        TryStep::Applying => match event {
            TryEvent::Done => (r matches TryAction::Ask(m, t)
                && m@ == prompt_text(args.timeout) && t == args.timeout) && ns == moved(s, TryStep::Asking),
            _ => (r is Finish) && ns == moved(s, TryStep::Finished),
        },
        TryStep::Asking => match event {
            TryEvent::Answer(accepted) => {
                let answered = TryState { accepted: accepted, ..s };
                if args.config_file is Some {
                    (r matches TryAction::RemoveFile(f)
                        && f@ == trial_config_path()) && ns == moved(answered, TryStep::Cleaning)
                } else {
                    after_cleaning(answered, ns, r)
                }
            },
            _ => (r is Finish) && ns == moved(s, TryStep::Finished),
        },
        TryStep::Cleaning => match event {
            TryEvent::Done => after_cleaning(s, ns, r),
            _ => (r is Finish) && ns == moved(s, TryStep::Finished),
        },
        TryStep::Telling => match event {
            TryEvent::Done => if s.accepted {
                (r is Finish) && ns == moved(s, TryStep::Finished)
            } else {
                (r matches TryAction::Restore(d) && d@ == dir) && ns == moved(s, TryStep::Restoring)
            },
            _ => (r is Finish) && ns == moved(s, TryStep::Finished),
        },
        TryStep::Restoring => match event {
            TryEvent::Done => (r matches TryAction::Run(c)
                && command_view(c) == reload_command(s.previous)) && ns == moved(s, TryStep::Reverting),
            _ => (r is Finish) && ns == moved(s, TryStep::Finished),
        },
        TryStep::Reverting => match event {
            TryEvent::Done => (r is Finish) && ns == moved(s, TryStep::Finished),
            _ => (r is Finish) && ns == moved(s, TryStep::Finished),
        },
        TryStep::Finished => (r is Finish) && ns == moved(s, TryStep::Finished),
    }
}

fn stop(s: TryState) -> (r: (TryState, TryAction))
    ensures
        r.0 == moved(s, TryStep::Finished),
        r.1 is Finish,
{
    (TryState { step: TryStep::Finished, ..s }, TryAction::Finish)
}

fn saved(args: &TryArgs, s: TryState) -> (r: (TryState, TryAction))
    ensures
        after_saving(*args, s, r.0, r.1),
{
    match &args.config_file {
        Some(c) => (
            TryState { step: TryStep::Placing, ..s },
            TryAction::PlaceConfig(c.clone(), trial_config().to_owned()),
        ),
        None => (
            TryState { step: TryStep::Generating, ..s },
            TryAction::Generate(crate::cli::generate::GenerateArgs { root_dir: None, mapping: None }),
        ),
    }
}

fn tell(s: TryState) -> (r: (TryState, TryAction))
    ensures
        after_cleaning(s, r.0, r.1),
{
    let m = if s.accepted {
        String::from_str("Configuration accepted.")
    } else {
        String::from_str("Reverting to previous configuration...")
    };
    (TryState { step: TryStep::Telling, ..s }, TryAction::Say(m))
}

/// The next state and action of `try` after `event` in state `s`.
pub fn run(args: &TryArgs, s: TryState, event: TryEvent) -> (r: (TryState, TryAction))
    ensures
        try_next(*args, s, event, r.0, r.1),
{
    match s.step {
        TryStep::Start => match event {
            TryEvent::Begin => (
                TryState { step: TryStep::Loading, ..s },
                TryAction::LoadConfig(String::from_str("/")),
            ),
            _ => stop(s),
        },
        TryStep::Loading => match event {
            TryEvent::ConfigLoaded(renderer) => (
                TryState {
                    step: TryStep::Snapshotting,
                    previous: crate::config::types::renderer_or_default(&renderer),
                    accepted: s.accepted,
                },
                TryAction::MakeSnapshot,
            ),
            _ => stop(s),
        },
        TryStep::Snapshotting => match event {
            TryEvent::Done => (
                TryState { step: TryStep::Checking, ..s },
                TryAction::CheckDir(backend_output_dir(&s.previous, "/")),
            ),
            _ => stop(s),
        },
        TryStep::Checking => match event {
            TryEvent::DirExists(exists) => {
                if exists {
                    (
                        TryState { step: TryStep::Saving, ..s },
                        TryAction::SaveSnapshot(backend_output_dir(&s.previous, "/")),
                    )
                } else {
                    saved(args, s)
                }
            },
            _ => stop(s),
        },
        TryStep::Saving => match event {
            TryEvent::Done => saved(args, s),
            _ => stop(s),
        },
        TryStep::Placing => match event {
            TryEvent::Done => (
                TryState { step: TryStep::Generating, ..s },
                TryAction::Generate(crate::cli::generate::GenerateArgs { root_dir: None, mapping: None }),
            ),
            _ => stop(s),
        },
        TryStep::Generating => match event {
            TryEvent::Done => (
                TryState { step: TryStep::Rereading, ..s },
                TryAction::LoadConfig(String::from_str("/")),
            ),
            _ => stop(s),
        },
        TryStep::Rereading => match event {
            TryEvent::ConfigLoaded(renderer) => {
                let now = crate::config::types::renderer_or_default(&renderer);
                (TryState { step: TryStep::Applying, ..s }, TryAction::Run(reload_backend(&now)))
            },
            _ => stop(s),
        },
        TryStep::Applying => match event {
            TryEvent::Done => (
                TryState { step: TryStep::Asking, ..s },
                TryAction::Ask(prompt(args.timeout), args.timeout),
            ),
            _ => stop(s),
        },
        TryStep::Asking => match event {
            TryEvent::Answer(accepted) => {
                let answered = TryState { accepted: accepted, ..s };
                if args.config_file.is_some() {
                    (
                        TryState { step: TryStep::Cleaning, ..answered },
                        TryAction::RemoveFile(trial_config().to_owned()),
                    )
                } else {
                    tell(answered)
                }
            },
            _ => stop(s),
        },
        TryStep::Cleaning => match event {
            TryEvent::Done => tell(s),
            _ => stop(s),
        },
        TryStep::Telling => match event {
            TryEvent::Done => {
                if s.accepted {
                    stop(s)
                } else {
                    (
                        TryState { step: TryStep::Restoring, ..s },
                        TryAction::Restore(backend_output_dir(&s.previous, "/")),
                    )
                }
            },
            _ => stop(s),
        },
        TryStep::Restoring => match event {
            TryEvent::Done => (
                TryState { step: TryStep::Reverting, ..s },
                TryAction::Run(reload_backend(&s.previous)),
            ),
            _ => stop(s),
        },
        TryStep::Reverting => stop(s),
        TryStep::Finished => stop(s),
    }
}

/// The answer decides: after the question, the state records whether the
/// new configuration was accepted as the answer says, and keeps the
/// renderer of before.
pub proof fn lemma_answer_recorded(
    args: TryArgs,
    s: TryState,
    accepted: bool,
    ns: TryState,
    r: TryAction,
)
    requires
        s.step == TryStep::Asking,
        try_next(args, s, TryEvent::Answer(accepted), ns, r),
    ensures
        ns.accepted == accepted,
        ns.previous == s.previous,
        !(r is Restore),
        !(r is Finish),
{
}

/// Accepting keeps the new configuration: whether or not a configuration
/// file was given, the steps after the answer say `Configuration
/// accepted.` and finish, and none of them restores the saved files.
pub proof fn lemma_accept_keeps(
    args: TryArgs,
    s0: TryState,
    s1: TryState,
    r1: TryAction,
    s2: TryState,
    r2: TryAction,
    s3: TryState,
    r3: TryAction,
)
    requires
        s0.step == TryStep::Asking,
        try_next(args, s0, TryEvent::Answer(true), s1, r1),
        try_next(args, s1, TryEvent::Done, s2, r2),
        try_next(args, s2, TryEvent::Done, s3, r3),
    ensures
        !(r1 is Restore) && !(r2 is Restore) && !(r3 is Restore),
        r2 is Finish || r3 is Finish,
        s3.step == TryStep::Finished,
        (r1 matches TryAction::Say(m) && m@ == "Configuration accepted."@) || (r2 matches TryAction::Say(
            m,
        ) && m@ == "Configuration accepted."@),
{
}

/// Refusing, or not answering in time, restores: the steps after the
/// answer say `Reverting to previous configuration...`, then put the saved
/// files back into the backend directory of the renderer of before and
/// reload that renderer, and nothing finishes before.
pub proof fn lemma_refuse_restores(
    args: TryArgs,
    s0: TryState,
    s1: TryState,
    r1: TryAction,
    s2: TryState,
    r2: TryAction,
    s3: TryState,
    r3: TryAction,
    s4: TryState,
    r4: TryAction,
)
    requires
        s0.step == TryStep::Asking,
        try_next(args, s0, TryEvent::Answer(false), s1, r1),
        try_next(args, s1, TryEvent::Done, s2, r2),
        try_next(args, s2, TryEvent::Done, s3, r3),
        try_next(args, s3, TryEvent::Done, s4, r4),
    ensures
        !(r1 is Finish) && !(r2 is Finish),
        (r1 matches TryAction::Say(m) && m@ == "Reverting to previous configuration..."@) || (
        r2 matches TryAction::Say(m) && m@ == "Reverting to previous configuration..."@),
        (r2 matches TryAction::Restore(d) && d@ == backend_dir(s0.previous, "/"@)) || (
        r3 matches TryAction::Restore(d) && d@ == backend_dir(s0.previous, "/"@)),
        (r3 matches TryAction::Run(c) && command_view(c) == reload_command(s0.previous)) || (
        r4 matches TryAction::Run(c) && command_view(c) == reload_command(s0.previous)),
{
}

} // verus!
