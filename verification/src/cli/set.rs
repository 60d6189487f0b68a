//! `set`: write a value at a dotted key path into a configuration file.
use crate::cli::root::{root_of, root_path};
use crate::text::{join_path, path_join, same_text};
use crate::yaml::{assigned, set_by_path, split_dots, Node, NodeView, PathError};
use vstd::prelude::*;

verus! {

/// Options of `set`.
pub struct SetArgs {
    /// The root directory for the configuration.
    pub root_dir: Option<String>,
    /// The file below `etc/netplan` to write, instead of
    /// `70-netplan-set.yaml`.
    pub origin_hint: Option<String>,
    /// The assignment `key.path=value`.
    pub assignment: String,
}

/// Why `set` failed.
#[derive(Debug)]
pub enum SetError {
    /// The assignment has no `=`.
    Assignment,
    /// The key path cannot be assigned.
    Path(PathError),
}

/// The text of a `set` error.
pub open spec fn set_error_text(e: SetError) -> Seq<char> {
    match e {
        SetError::Assignment => "assignment must be key=value"@,
        SetError::Path(p) => crate::yaml::path_error_text(p.kind, p.key@),
    }
}

impl SetError {
    /// The message shown for this error.
    pub fn message(&self) -> (r: String)
        ensures
            r@ == set_error_text(*self),
    {
        match self {
            SetError::Assignment => String::from_str("assignment must be key=value"),
            SetError::Path(p) => p.message(),
        }
    }
}

/// Position of the first `c` in `s`, or -1.
pub open spec fn first_index(s: Seq<char>, c: char) -> int
    decreases s.len(),
{
    if s.len() == 0 {
        -1
    } else if s[0] == c {
        0
    } else {
        let p = first_index(s.drop_first(), c);
        if p < 0 {
            -1
        } else {
            p + 1
        }
    }
}

/// An assignment split at its first `=` into key path and value text, as
/// `str::split_once('=')` does.
pub open spec fn split_assignment_text(s: Seq<char>) -> Option<(Seq<char>, Seq<char>)> {
    let p = first_index(s, '=');
    if p < 0 {
        None
    } else {
        Some((s.take(p), s.skip(p + 1)))
    }
}

/// Splits an assignment at its first `=`.
pub fn split_assignment(s: &str) -> (r: Option<(String, String)>)
    ensures
        match split_assignment_text(s@) {
            Some((k, v)) => r matches Some(p) && p.0@ == k && p.1@ == v,
            None => r is None,
        },
{
    let n = s.unicode_len();
    let mut i: usize = 0;
    assert(s@.skip(0) =~= s@);
    while i < n
        invariant
            n == s@.len(),
            i <= n,
            forall|j: int| 0 <= j < i ==> s@[j] != '=',
            first_index(s@, '=') == if first_index(s@.skip(i as int), '=') < 0 {
                -1
            } else {
                first_index(s@.skip(i as int), '=') + i
            },
        decreases n - i,
    {
        assert(s@.skip(i as int)[0] == s@[i as int]);
        if s.get_char(i) == '=' {
            let key = s.substring_char(0, i);
            let value = s.substring_char(i + 1, n);
            assert(key@ =~= s@.take(i as int));
            assert(value@ =~= s@.skip(i + 1));
            return Some((key.to_owned(), value.to_owned()));
        }
        assert(s@.skip(i as int).drop_first() =~= s@.skip(i + 1));
        i = i + 1;
    }
    None
}

/// The file `set` writes below `root`: `etc/netplan/<hint>` when a hint is
/// given, `etc/netplan/70-netplan-set.yaml` otherwise.
pub open spec fn target_file(root: Seq<char>, hint: Option<String>) -> Seq<char> {
    match hint {
        Some(h) => path_join(path_join(root, "etc/netplan"@), h@),
        None => path_join(root, "etc/netplan/70-netplan-set.yaml"@),
    }
}

/// The file `set` writes.
pub fn target_path(args: &SetArgs) -> (r: String)
    ensures
        r@ == target_file(root_of(args.root_dir), args.origin_hint),
{
    let root = root_path(&args.root_dir);
    match &args.origin_hint {
        Some(h) => {
            let dir = join_path(root, "etc/netplan");
            join_path(dir.as_str(), h.as_str())
        },
        None => join_path(root, "etc/netplan/70-netplan-set.yaml"),
    }
}

/// The value an assignment sets: `Null` (which removes the key) for an
/// empty text or `null`; else the YAML value the text parses to, or the
/// text itself as a string when it does not parse.
pub open spec fn assigned_value(raw: Seq<char>, parsed: Option<NodeView>) -> NodeView {
    if raw.len() == 0 || raw == "null"@ {
        NodeView::Null
    } else {
        match parsed {
            Some(v) => v,
            None => NodeView::Str(raw),
        }
    }
}

/// The value an assignment sets, from its text and what parsing the text
/// as YAML gave.
pub fn value_of(raw: &str, parsed: Option<Node>) -> (r: Node)
    ensures
        r@ == assigned_value(
            raw@,
            match parsed {
                Some(v) => Some(v@),
                None => None,
            },
        ),
{
    if raw.unicode_len() == 0 || same_text(raw, "null") {
        return Node::Null;
    }
    match parsed {
        Some(v) => v,
        None => Node::Str(raw.to_owned()),
    }
}

/// Applies the assignment of `args` to `doc`, the document of the target
/// file; `parsed` is what parsing the value text as YAML gave. On error the
/// document is left as it was.
pub fn run(args: &SetArgs, doc: &mut Node, parsed: Option<Node>) -> (r: Result<(), SetError>)
    ensures
        match split_assignment_text(args.assignment@) {
            None => r matches Err(SetError::Assignment) && final(doc)@ == old(doc)@,
            Some((k, raw)) => match assigned(
                old(doc)@,
                split_dots(k),
                assigned_value(
                    raw,
                    match parsed {
                        Some(v) => Some(v@),
                        None => None,
                    },
                ),
            ) {
                Ok(v) => r is Ok && final(doc)@ == v,
                Err((kind, key)) => r matches Err(SetError::Path(e)) && e.kind == kind && e.key@
                    == key && final(doc)@ == old(doc)@,
            },
        },
{
    match split_assignment(args.assignment.as_str()) {
        None => Err(SetError::Assignment),
        Some((key, raw)) => {
            let value = value_of(raw.as_str(), parsed);
            match set_by_path(doc, key.as_str(), value) {
                Ok(()) => Ok(()),
                Err(e) => Err(SetError::Path(e)),
            }
        },
    }
}

} // verus!
