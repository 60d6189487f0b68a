//! `get`: print the value at a dotted key path of the merged configuration
//! documents, or all of them.
use crate::yaml::{
    get_by_path, lookup, render_scalar, scalar_text, split_dots, Node, NodeView, PathError,
    };
use vstd::prelude::*;

verus! {

/// Options of `get`.
pub struct GetArgs {
    /// The root directory for the configuration.
    pub root_dir: Option<String>,
    /// The dotted key path to print, or `all`.
    pub key: String,
}

/// What `get` prints.
pub enum GetOutput<'a> {
    /// A scalar's text, printed on a line of its own.
    Line(String),
    /// A value printed as a YAML document.
    Yaml(&'a Node),
}

/// What `get` prints for the key `key` of the merged document `merged`:
/// the whole document for `all`; else the value at the key path, a scalar
/// as its text and anything else as YAML; or the error met on the path.
pub open spec fn get_output(key: Seq<char>, merged: NodeView, r: Result<GetOutput, PathError>) -> bool {
    if key == "all"@ {
        r matches Ok(GetOutput::Yaml(n)) && n@ == merged
    } else {
        match lookup(merged, split_dots(key)) {
            Ok(v) => match scalar_text(v) {
                Some(t) => r matches Ok(GetOutput::Line(s)) && s@ == t,
                None => r matches Ok(GetOutput::Yaml(n)) && n@ == v,
            },
            Err((kind, k)) => r matches Err(e) && e.kind == kind && e.key@ == k,
        }
    }
}

/// What `get` prints for the merged configuration documents `merged`.
pub fn run<'a>(args: &GetArgs, merged: &'a Node) -> (r: Result<GetOutput<'a>, PathError>)
    ensures
        get_output(args.key@, merged@, r),
{
    if crate::text::same_text(args.key.as_str(), "all") {
        return Ok(GetOutput::Yaml(merged));
    }
    match get_by_path(merged, args.key.as_str()) {
        Ok(v) => match render_scalar(v) {
            Some(t) => Ok(GetOutput::Line(t)),
            None => Ok(GetOutput::Yaml(v)),
        },
        Err(e) => Err(e),
    }
}

} // verus!
