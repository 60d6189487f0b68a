//! `info`: list the features the tool supports, as text, YAML or JSON.
use crate::text::{
    concat_all, debug_quoted, debug_text, group_text, join, join_strings, lemma_concat_all_step,
    views,
};
use vstd::prelude::*;

verus! {

/// Options of `info`.
pub struct InfoArgs {
    /// Print JSON.
    pub json: bool,
    /// Print YAML.
    pub yaml: bool,
}

/// The features and their descriptions, in the order they are listed.
pub open spec fn feature_list() -> Seq<(Seq<char>, Seq<char>)> {
    seq![
        ("generate"@, "Generate backend-specific configuration"@),
        ("apply"@, "Apply network configuration"@),
        ("try"@, "Apply with automatic rollback"@),
        ("get"@, "Read configuration values"@),
        ("set"@, "Write configuration values"@),
        ("status"@, "Query network interface status"@),
        ("backend:networkd"@, "systemd-networkd backend"@),
        ("backend:NetworkManager"@, "NetworkManager backend"@),
    ]
}

/// The features and their descriptions.
pub fn features() -> (r: Vec<(&'static str, &'static str)>)
    ensures
        r@.len() == feature_list().len(),
        forall|i: int|
            0 <= i < r@.len() ==> (#[trigger] r@[i]).0@ == feature_list()[i].0 && r@[i].1@
                == feature_list()[i].1,
{
    let r = vec![
        ("generate", "Generate backend-specific configuration"),
        ("apply", "Apply network configuration"),
        ("try", "Apply with automatic rollback"),
        ("get", "Read configuration values"),
        ("set", "Write configuration values"),
        ("status", "Query network interface status"),
        ("backend:networkd", "systemd-networkd backend"),
        ("backend:NetworkManager", "NetworkManager backend"),
    ];
    r
}

/// A JSON member from the `Debug` texts of a key and a value.
pub open spec fn json_member_text(key_q: Seq<char>, value_q: Seq<char>) -> Seq<char> {
    "  "@ + key_q + ": "@ + value_q
}

/// A JSON object from its member lines.
pub open spec fn json_object_text(members: Seq<Seq<char>>) -> Seq<char> {
    "{\n"@ + join(members, ",\n"@) + "\n}\n"@
}

/// The member lines of the features in JSON.
pub open spec fn json_members(fs: Seq<(Seq<char>, Seq<char>)>) -> Seq<Seq<char>> {
    fs.map_values(|f: (Seq<char>, Seq<char>)| json_member_text(debug_text(f.0), debug_text(f.1)))
}

/// A YAML line of a feature.
pub open spec fn yaml_line(f: (Seq<char>, Seq<char>)) -> Seq<char> {
    f.0 + ": "@ + f.1 + "\n"@
}

/// An indented line of a feature, for the plain listing.
pub open spec fn plain_line(f: (Seq<char>, Seq<char>)) -> Seq<char> {
    "  "@ + f.0 + ": "@ + f.1 + "\n"@
}

/// What `info` prints: the features as a JSON object of `Debug`-quoted
/// strings, as YAML lines, or as an indented list under a heading.
pub open spec fn info_text(json: bool, yaml: bool) -> Seq<char> {
    if json {
        json_object_text(json_members(feature_list()))
    } else if yaml {
        concat_all(feature_list(), |f: (Seq<char>, Seq<char>)| yaml_line(f))
    } else {
        "rustplan feature support:\n"@ + concat_all(
            feature_list(),
            |f: (Seq<char>, Seq<char>)| plain_line(f),
        )
    }
}

/// A JSON member from the `Debug` texts of a key and a value.
pub fn json_member(key_q: &str, value_q: &str) -> (r: String)
    ensures
        r@ == json_member_text(key_q@, value_q@),
{
    broadcast use group_text;

    let mut r = String::from_str("  ");
    r.append(key_q);
    r.append(": ");
    r.append(value_q);
    r
}

/// A JSON object from its member lines.
pub fn json_object(members: &Vec<String>) -> (r: String)
    ensures
        r@ == json_object_text(views(members@)),
{
    broadcast use group_text;

    let mut r = String::from_str("{\n");
    let j = join_strings(members, ",\n");
    r.append(j.as_str());
    r.append("\n}\n");
    r
}

/// What `info` prints.
pub fn run(args: &InfoArgs) -> (r: String)
    ensures
        r@ == info_text(args.json, args.yaml),
{
    broadcast use group_text;

    let fs = features();
    let ghost spec_fs = feature_list();
    let n = fs.len();
    if args.json {
        let mut members: Vec<String> = Vec::new();
        let mut i: usize = 0;
        while i < n
            invariant
                n == fs@.len() == spec_fs.len(),
                spec_fs == feature_list(),
                forall|j: int|
                    0 <= j < fs@.len() ==> (#[trigger] fs@[j]).0@ == spec_fs[j].0 && fs@[j].1@
                        == spec_fs[j].1,
                i <= n,
                members@.len() == i,
                forall|j: int|
                    0 <= j < i ==> (#[trigger] members@[j])@ == json_member_text(
                        debug_text(spec_fs[j].0),
                        debug_text(spec_fs[j].1),
                    ),
            decreases n - i,
        {
            let k = debug_quoted(fs[i].0);
            let v = debug_quoted(fs[i].1);
            members.push(json_member(k.as_str(), v.as_str()));
            i = i + 1;
        }
        assert(views(members@) =~= json_members(spec_fs));
        return json_object(&members);
    }
    let mut out = if args.yaml {
        String::new()
    } else {
        String::from_str("rustplan feature support:\n")
    };
    let ghost head = out@;
    let ghost line = if args.yaml {
        |f: (Seq<char>, Seq<char>)| yaml_line(f)
    } else {
        |f: (Seq<char>, Seq<char>)| plain_line(f)
    };
    let mut i: usize = 0;
    while i < n
        invariant
            n == fs@.len() == spec_fs.len(),
            spec_fs == feature_list(),
            forall|j: int|
                0 <= j < fs@.len() ==> (#[trigger] fs@[j]).0@ == spec_fs[j].0 && fs@[j].1@
                    == spec_fs[j].1,
            i <= n,
            line == if args.yaml {
                |f: (Seq<char>, Seq<char>)| yaml_line(f)
            } else {
                |f: (Seq<char>, Seq<char>)| plain_line(f)
            },
            out@ == head + concat_all(spec_fs.take(i as int), line),
        decreases n - i,
    {
        proof {
            lemma_concat_all_step(spec_fs, line, i as int);
        }
        if !args.yaml {
            out.append("  ");
        }
        out.append(fs[i].0);
        out.append(": ");
        out.append(fs[i].1);
        out.append("\n");
        i = i + 1;
    }
    assert(spec_fs.take(n as int) =~= spec_fs);
    out
}

} // verus!
