//! Renderers that turn the configuration into the files of a network
//! backend.
use crate::config::types::NetworkConfig;
use vstd::prelude::*;

pub mod membership;
pub mod networkd;
pub mod nm;
pub mod placement;

verus! {

/// A file to write: its path and its whole content.
pub struct OutputFile {
    pub path: String,
    pub content: String,
}

/// A file as its path and content.
pub open spec fn file_view(f: OutputFile) -> (Seq<char>, Seq<char>) {
    (f.path@, f.content@)
}

/// Files as paths and contents.
pub open spec fn files_view(files: Seq<OutputFile>) -> Seq<(Seq<char>, Seq<char>)> {
    files.map_values(|f: OutputFile| file_view(f))
}

/// The files of a list of devices, each rendered by `f`, in order.
pub open spec fn files_for<D>(
    devs: Seq<(Seq<char>, D)>,
    f: spec_fn(Seq<char>, D) -> Seq<(Seq<char>, Seq<char>)>,
) -> Seq<(Seq<char>, Seq<char>)>
    decreases devs.len(),
{
    if devs.len() == 0 {
        Seq::empty()
    } else {
        files_for(devs.drop_last(), f) + f(devs.last().0, devs.last().1)
    }
}

pub proof fn lemma_files_view_append(a: Seq<OutputFile>, b: Seq<OutputFile>)
    ensures
        files_view(a + b) == files_view(a) + files_view(b),
{
    assert(files_view(a + b) =~= files_view(a) + files_view(b));
}

/// The files of the `k`-th device stand in the files of all devices right
/// after those of the devices before it.
pub proof fn lemma_files_for_item<D>(
    devs: Seq<(Seq<char>, D)>,
    f: spec_fn(Seq<char>, D) -> Seq<(Seq<char>, Seq<char>)>,
    k: int,
) -> (after: Seq<(Seq<char>, Seq<char>)>)
    requires
        0 <= k < devs.len(),
    ensures
        files_for(devs, f) == files_for(devs.take(k), f) + f(devs[k].0, devs[k].1) + after,
    decreases devs.len(),
{
    if k == devs.len() - 1 {
        assert(devs.drop_last() =~= devs.take(k));
        let whole = files_for(devs.take(k), f) + f(devs[k].0, devs[k].1);
        assert(whole + Seq::empty() =~= whole);
        Seq::empty()
    } else {
        let a = lemma_files_for_item(devs.drop_last(), f, k);
        assert(devs.drop_last().take(k) =~= devs.take(k));
        let last = f(devs.last().0, devs.last().1);
        let head = files_for(devs.take(k), f) + f(devs[k].0, devs[k].1);
        assert(head + a + last =~= head + (a + last));
        a + last
    }
}

/// A backend renders a configuration into the files it reads, placed below
/// the root directory `root`.
pub trait Backend {
    fn generate(&self, cfg: &NetworkConfig, root: &str) -> Vec<OutputFile>;
}

} // verus!
