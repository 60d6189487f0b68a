//! `generate`: render the configuration for the renderer it names.
use crate::backends::networkd::{
    net_path, netdev_file_path, netdev_path, network_path, networkd_files, Networkd,
};
use crate::backends::nm::{conn_path, connection_path, nm_files, NetworkManager};
use crate::backends::{file_view, files_view, Backend, OutputFile};
use crate::text::{ends_with, has_prefix, has_suffix, join_path, path_join, same_text, starts_with};
use crate::config::types::{effective_renderer, renderer_or_default, NetworkConfig, Renderer};
use vstd::prelude::*;

verus! {

/// Options of `generate`.
pub struct GenerateArgs {
    /// The root directory for the configuration and the generated files.
    pub root_dir: Option<String>,
    /// Only generate the configuration of this interface.
    pub mapping: Option<String>,
}

/// The files `generate` writes for `cfg` below `root`: those of the renderer
/// the configuration names, networkd when it names none.
pub open spec fn rendered_files(cfg: NetworkConfig, root: Seq<char>) -> Seq<
    (Seq<char>, Seq<char>),
> {
    match effective_renderer(cfg.renderer) {
        Renderer::Networkd => networkd_files(cfg, root),
        Renderer::NetworkManager => nm_files(cfg, root),
    }
}

/// Whether the file at `path` was rendered for interface `m` by `renderer`
/// below `root`: for networkd its `.network` and `.netdev` files; for
/// NetworkManager its connection `netplan-<m>.nmconnection` and those of
/// its access points, `netplan-<m>-<ssid>.nmconnection`.
pub open spec fn file_of(renderer: Renderer, root: Seq<char>, m: Seq<char>, path: Seq<char>) -> bool {
    match renderer {
        Renderer::Networkd => {
            let dir = path_join(root, "run/systemd/network"@);
            path == network_path(dir, m) || path == netdev_file_path(dir, m)
        },
        Renderer::NetworkManager => {
            let dir = path_join(root, "run/NetworkManager/system-connections"@);
            path == connection_path(dir, m) || (starts_with(
                path,
                path_join(dir, "netplan-"@ + m + "-"@),
            ) && ends_with(path, ".nmconnection"@))
        },
    }
}

/// The test [`file_of`] on a file.
pub open spec fn file_of_by(renderer: Renderer, root: Seq<char>, m: Seq<char>) -> spec_fn(
    (Seq<char>, Seq<char>),
) -> bool {
    |f: (Seq<char>, Seq<char>)| file_of(renderer, root, m, f.0)
}

/// The files `generate` writes: all rendered files, or with a mapping only
/// those of the interface it names.
pub open spec fn generated_files(cfg: NetworkConfig, root: Seq<char>, mapping: Option<String>) -> Seq<
    (Seq<char>, Seq<char>),
> {
    match mapping {
        Some(m) => rendered_files(cfg, root).filter(
            file_of_by(effective_renderer(cfg.renderer), root, m@),
        ),
        None => rendered_files(cfg, root),
    }
}

/// Whether the file at `path` was rendered for interface `m`.
pub fn is_file_of(renderer: &Renderer, root: &str, m: &str, path: &str) -> (r: bool)
    ensures
        r == file_of(*renderer, root@, m@, path@),
{
    match renderer {
        Renderer::Networkd => {
            let dir = join_path(root, "run/systemd/network");
            let network = net_path(dir.as_str(), m);
            let netdev = netdev_path(dir.as_str(), m);
            same_text(path, network.as_str()) || same_text(path, netdev.as_str())
        },
        Renderer::NetworkManager => {
            let dir = join_path(root, "run/NetworkManager/system-connections");
            let own = conn_path(dir.as_str(), m);
            let mut stem = String::from_str("netplan-");
            stem.append(m);
            stem.append("-");
            let prefix = join_path(dir.as_str(), stem.as_str());
            same_text(path, own.as_str()) || (has_prefix(path, prefix.as_str()) && has_suffix(
                path,
                ".nmconnection",
            ))
        },
    }
}

/// Keeps the files rendered for interface `m`, in order.
pub fn files_of(files: Vec<OutputFile>, renderer: &Renderer, root: &str, m: &str) -> (r: Vec<
    OutputFile,
>)
    ensures
        files_view(r@) == files_view(files@).filter(file_of_by(*renderer, root@, m@)),
{
    let ghost all = files@;
    let mut rest = files;
    let mut kept: Vec<OutputFile> = Vec::new();
    let n = rest.len();
    let mut i: usize = 0;
    assert(all.skip(0) =~= all);
    while i < n
        invariant
            n == all.len(),
            i <= n,
            rest@ == all.skip(i as int),
            files_view(kept@) == files_view(all.take(i as int)).filter(
                file_of_by(*renderer, root@, m@),
            ),
        decreases n - i,
    {
        proof {
            files_view(all.take(i as int)).lemma_filter_push(
                file_view(all[i as int]),
                file_of_by(*renderer, root@, m@),
            );
            assert(files_view(all.take(i as int)).push(file_view(all[i as int])) =~= files_view(
                all.take(i + 1),
            ));
        }
        assert(rest@[0] == all[i as int]);
        let f = rest.remove(0);
        assert(rest@ =~= all.skip(i + 1));
        if is_file_of(renderer, root, m, f.path.as_str()) {
            let ghost before = kept@;
            kept.push(f);
            assert(files_view(kept@) =~= files_view(before).push(file_view(f)));
        }
        i = i + 1;
    }
    assert(all.take(n as int) =~= all);
    kept
}

/// Renders `cfg` with the backend of its renderer; with a mapping, keeps
/// only the files of the interface it names.
pub fn render(cfg: &NetworkConfig, root: &str, mapping: &Option<String>) -> (r: Vec<OutputFile>)
    ensures
        files_view(r@) == generated_files(*cfg, root@, *mapping),
{
    let renderer = renderer_or_default(&cfg.renderer);
    let files = match renderer {
        Renderer::Networkd => Networkd.generate(cfg, root),
        Renderer::NetworkManager => NetworkManager.generate(cfg, root),
    };
    match mapping {
        Some(m) => files_of(files, &renderer, root, m.as_str()),
        None => files,
    }
}

} // verus!
