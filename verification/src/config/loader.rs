//! Where the configuration documents are found and in which order they are
//! merged.
//!
//! The documents are the YAML files of three directories below the root,
//! read in this order, each directory's files in the order of their names:
//! `usr/lib/netplan`, `etc/netplan`, `run/netplan`. Later documents win when
//! they are deep-merged, and the configuration is the `network` section of
//! the result.
use crate::text::{join_path, path_join, sort_texts, sorted_text_order, texts_sorted, views};
use crate::yaml::{
    merge_all, merge_documents, network_part, network_section, nodes_view, Node, NodeView,
};
use vstd::prelude::*;

verus! {

/// The configuration directories below `root`, in the order they are read.
pub open spec fn config_dir_paths(root: Seq<char>) -> Seq<Seq<char>> {
    seq![
        path_join(root, "usr/lib/netplan"@),
        path_join(root, "etc/netplan"@),
        path_join(root, "run/netplan"@),
    ]
}

/// The configuration directories below `root`, in the order they are read.
pub fn config_dirs(root: &str) -> (r: Vec<String>)
    ensures
        views(r@) == config_dir_paths(root@),
{
    let mut r: Vec<String> = Vec::new();
    r.push(join_path(root, "usr/lib/netplan"));
    r.push(join_path(root, "etc/netplan"));
    r.push(join_path(root, "run/netplan"));
    assert(views(r@) =~= config_dir_paths(root@));
    r
}

/// Position of the last `.` of `name`, or -1.
pub open spec fn last_dot(name: Seq<char>) -> int
    decreases name.len(),
{
    if name.len() == 0 {
        -1
    } else if name.last() == '.' {
        name.len() - 1
    } else {
        last_dot(name.drop_last())
    }
}

/// The extension of a file name as `Path::extension` gives it: what follows
/// the last `.`, when that dot is not the first character.
pub open spec fn extension(name: Seq<char>) -> Option<Seq<char>> {
    let p = last_dot(name);
    if p > 0 {
        Some(name.skip(p + 1))
    } else {
        None
    }
}

/// Whether a file name has the extension `yaml` or `yml`.
pub open spec fn is_yaml_name(name: Seq<char>) -> bool {
    extension(name) == Some("yaml"@) || extension(name) == Some("yml"@)
}

proof fn lemma_last_dot(name: Seq<char>)
    ensures
        -1 <= last_dot(name) < name.len(),
        last_dot(name) >= 0 ==> name[last_dot(name)] == '.',
        forall|j: int| last_dot(name) < j < name.len() ==> name[j] != '.',
    decreases name.len(),
{
    if name.len() > 0 && name.last() != '.' {
        lemma_last_dot(name.drop_last());
        assert forall|j: int| last_dot(name) < j < name.len() - 1 implies name[j] != '.' by {
            assert(name[j] == name.drop_last()[j]);
        }
    }
}

proof fn lemma_last_dot_from(name: Seq<char>, i: int)
    requires
        0 <= i <= name.len(),
        forall|j: int| i <= j < name.len() ==> name[j] != '.',
    ensures
        last_dot(name) == last_dot(name.take(i)),
    decreases name.len() - i,
{
    if i < name.len() {
        lemma_last_dot_from(name, i + 1);
        assert(name.take(i + 1).drop_last() =~= name.take(i));
        assert(name.take(i + 1).last() == name[i]);
    } else {
        assert(name.take(i) =~= name);
    }
}

/// Whether a file name has the extension `yaml` or `yml`.
pub fn is_yaml_file(name: &str) -> (r: bool)
    ensures
        r == is_yaml_name(name@),
{
    let n = name.unicode_len();
    let mut i: usize = n;
    while i > 0 && name.get_char(i - 1) != '.'
        invariant
            n == name@.len(),
            i <= n,
            forall|j: int| i <= j < n ==> name@[j] != '.',
        decreases i,
    {
        i = i - 1;
    }
    proof {
        lemma_last_dot_from(name@, i as int);
        if i > 0 {
            assert(name@.take(i as int).last() == '.');
        } else {
            assert(name@.take(0) =~= Seq::<char>::empty());
        }
    }
    if i <= 1 {
        return false;
    }
    let ext = name.substring_char(i, n);
    assert(ext@ =~= name@.skip(i as int));
    crate::text::same_text(ext, "yaml") || crate::text::same_text(ext, "yml")
}

/// The test that keeps a directory entry: a YAML file name.
pub open spec fn yaml_entry() -> spec_fn(String) -> bool {
    |s: String| is_yaml_name(s@)
}

/// The test that keeps a file name: a YAML file name.
pub open spec fn yaml_name() -> spec_fn(Seq<char>) -> bool {
    |n: Seq<char>| is_yaml_name(n)
}

/// The YAML files among the names of a directory's entries, in the order
/// they are read: sorted by name.
pub open spec fn yaml_order(names: Seq<Seq<char>>) -> Seq<Seq<char>> {
    sorted_text_order(names.filter(yaml_name()))
}

/// The YAML files among the names of a directory's entries, in the order
/// they are read: sorted by name.
pub fn yaml_files(names: Vec<String>) -> (r: Vec<String>)
    ensures
        views(r@) == yaml_order(views(names@)),
        texts_sorted(views(r@)),
        r@.to_multiset() == names@.filter(yaml_entry()).to_multiset(),
{
    let ghost all = names@;
    let mut rest = names;
    let mut picked: Vec<String> = Vec::new();
    let n = rest.len();
    let mut i: usize = 0;
    assert(all.skip(0) =~= all);
    while i < n
        invariant
            n == all.len(),
            i <= n,
            rest@ == all.skip(i as int),
            picked@ == all.take(i as int).filter(yaml_entry()),
            views(picked@) == views(all).take(i as int).filter(yaml_name()),
        decreases n - i,
    {
        proof {
            all.take(i as int).lemma_filter_push(all[i as int], yaml_entry());
            assert(all.take(i as int).push(all[i as int]) =~= all.take(i + 1));
            views(all).take(i as int).lemma_filter_push(all[i as int]@, yaml_name());
            assert(views(all).take(i as int).push(all[i as int]@) =~= views(all).take(i + 1));
        }
        assert(rest@[0] == all[i as int]);
        let name = rest.remove(0);
        assert(rest@ =~= all.skip(i + 1));
        if is_yaml_file(name.as_str()) {
            let ghost before = picked@;
            picked.push(name);
            assert(views(picked@) =~= views(before).push(name@));
        }
        i = i + 1;
    }
    assert(all.take(n as int) =~= all);
    assert(views(all).take(n as int) =~= views(all));
    sort_texts(picked)
}

/// The paths of the files in `dir` named `names`.
pub open spec fn paths_in(dir: Seq<char>, names: Seq<Seq<char>>) -> Seq<Seq<char>> {
    names.map_values(|n: Seq<char>| path_join(dir, n))
}

/// The names listed for the `i`th configuration directory; none when the
/// listing is missing.
pub open spec fn listing(listings: Seq<Seq<Seq<char>>>, i: int) -> Seq<Seq<char>> {
    if 0 <= i < listings.len() {
        listings[i]
    } else {
        Seq::empty()
    }
}

/// The configuration files read below `root`, given the names in each
/// configuration directory (none for a missing one): directory by
/// directory, the YAML files of each in name order.
pub open spec fn config_file_paths(root: Seq<char>, listings: Seq<Seq<Seq<char>>>) -> Seq<
    Seq<char>,
> {
    let dirs = config_dir_paths(root);
    paths_in(dirs[0], yaml_order(listing(listings, 0))) + paths_in(
        dirs[1],
        yaml_order(listing(listings, 1)),
    ) + paths_in(dirs[2], yaml_order(listing(listings, 2)))
}

fn push_paths(out: &mut Vec<String>, dir: &str, names: Vec<String>)
    ensures
        views(final(out)@) == views(old(out)@) + paths_in(dir@, yaml_order(views(names@))),
{
    let files = yaml_files(names);
    let ghost start = views(out@);
    let ghost ps = paths_in(dir@, views(files@));
    let n = files.len();
    let mut i: usize = 0;
    while i < n
        invariant
            n == files@.len(),
            ps == paths_in(dir@, views(files@)),
            i <= n,
            views(out@) == start + ps.take(i as int),
        decreases n - i,
    {
        let p = join_path(dir, files[i].as_str());
        let ghost before = out@;
        out.push(p);
        assert(views(out@) =~= views(before).push(p@));
        assert(ps.take(i + 1) =~= ps.take(i as int).push(ps[i as int]));
        i = i + 1;
    }
    assert(ps.take(n as int) =~= ps);
}

/// The configuration files read below `root`, given the names listed in
/// each configuration directory, in the order of [`config_dirs`] (none for
/// a missing directory).
pub fn load_paths(root: &str, listings: Vec<Vec<String>>) -> (r: Vec<String>)
    ensures
        views(r@) == config_file_paths(
            root@,
            listings@.map_values(|l: Vec<String>| views(l@)),
        ),
{
    let ghost ls = listings@.map_values(|l: Vec<String>| views(l@));
    let dirs = config_dirs(root);
    let mut rest = listings;
    let mut out: Vec<String> = Vec::new();
    let mut k: usize = 0;
    assert(views(out@) =~= Seq::<Seq<char>>::empty());
    assert(views(dirs@).len() == 3);
    while k < 3
        invariant
            k <= 3,
            dirs@.len() == 3,
            views(dirs@) == config_dir_paths(root@),
            rest@.len() == if k as int <= ls.len() {
                ls.len() - k
            } else {
                0
            },
            forall|j: int|
                0 <= j < rest@.len() ==> views((#[trigger] rest@[j])@) == ls[j + k as int],
            k as int <= ls.len() || rest@.len() == 0,
            views(out@) == (if k == 0 {
                Seq::empty()
            } else if k == 1 {
                paths_in(config_dir_paths(root@)[0], yaml_order(listing(ls, 0)))
            } else if k == 2 {
                paths_in(config_dir_paths(root@)[0], yaml_order(listing(ls, 0))) + paths_in(
                    config_dir_paths(root@)[1],
                    yaml_order(listing(ls, 1)),
                )
            } else {
                config_file_paths(root@, ls)
            }),
        decreases 3 - k,
    {
        let names = if rest.len() > 0 {
            rest.remove(0)
        } else {
            Vec::new()
        };
        assert(views(names@) == listing(ls, k as int));
        assert(views(dirs@)[k as int] == dirs@[k as int]@);
        push_paths(&mut out, dirs[k].as_str(), names);
        k = k + 1;
    }
    out
}

/// The configuration held by a sequence of documents: the `network` section
/// of their deep merge, in order, into an empty mapping.
pub open spec fn configuration_of(docs: Seq<NodeView>) -> NodeView {
    network_part(merge_all(docs))
}

/// Merges the documents in the order they were read and takes out the
/// `network` section.
pub fn network_document(docs: Vec<Node>) -> (r: Node)
    ensures
        r@ == configuration_of(nodes_view(docs@)),
{
    let merged = merge_documents(docs);
    network_section(merged)
}

} // verus!
