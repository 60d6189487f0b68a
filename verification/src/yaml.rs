//! A YAML document tree and the operations the configuration tools apply
//! to it: deep merging of documents, lookup by dotted path, and assignment
//! by dotted path.
//!
//! Mappings keep their entries in insertion order, as YAML mappings read by
//! the tools do. Keys are compared by their structure.
use vstd::prelude::*;
use crate::text::{same_text, decimal, decimal_string, true_false};

verus! {

/// A YAML value.
pub enum Node {
    Null,
    Bool(bool),
    /// A non-negative integer.
    PosInt(u64),
    /// A negative integer.
    NegInt(i64),
    /// A floating-point number, held as its YAML text.
    Float(String),
    Str(String),
    Sequence(Vec<Node>),
    /// Key-value entries in insertion order.
    Mapping(Vec<(Node, Node)>),
    /// A tagged value; the tag is held without its leading `!`.
    Tagged(String, Box<Node>),
}

/// The mathematical value of a [`Node`].
pub enum NodeView {
    Null,
    Bool(bool),
    PosInt(u64),
    NegInt(i64),
    Float(Seq<char>),
    Str(Seq<char>),
    Sequence(Seq<NodeView>),
    Mapping(Seq<(NodeView, NodeView)>),
    Tagged(Seq<char>, Box<NodeView>),
}

pub open spec fn node_view(n: Node) -> NodeView
    decreases n,
{
    match n {
        Node::Null => NodeView::Null,
        Node::Bool(b) => NodeView::Bool(b),
        Node::PosInt(u) => NodeView::PosInt(u),
        Node::NegInt(i) => NodeView::NegInt(i),
        Node::Float(t) => NodeView::Float(t@),
        Node::Str(s) => NodeView::Str(s@),
        Node::Sequence(v) => NodeView::Sequence(
            Seq::new(
                v@.len(),
                |i: int|
                    if 0 <= i < v@.len() {
                        node_view(v@[i])
                    } else {
                        NodeView::Null
                    },
            ),
        ),
        Node::Mapping(v) => NodeView::Mapping(
            Seq::new(
                v@.len(),
                |i: int|
                    if 0 <= i < v@.len() {
                        (node_view(v@[i].0), node_view(v@[i].1))
                    } else {
                        (NodeView::Null, NodeView::Null)
                    },
            ),
        ),
        Node::Tagged(t, b) => NodeView::Tagged(t@, Box::new(node_view(*b))),
    }
}

impl View for Node {
    type V = NodeView;

    open spec fn view(&self) -> NodeView {
        node_view(*self)
    }
}

/// The values of a sequence of nodes.
pub open spec fn nodes_view(v: Seq<Node>) -> Seq<NodeView> {
    Seq::new(v.len(), |i: int| node_view(v[i]))
}

/// The values of a sequence of mapping entries.
pub open spec fn entries_view(v: Seq<(Node, Node)>) -> Seq<(NodeView, NodeView)> {
    Seq::new(v.len(), |i: int| (node_view(v[i].0), node_view(v[i].1)))
}

pub proof fn lemma_mapping_view(v: Vec<(Node, Node)>)
    ensures
        node_view(Node::Mapping(v)) == NodeView::Mapping(entries_view(v@)),
{
    assert(node_view(Node::Mapping(v))->Mapping_0 =~= entries_view(v@));
}

pub proof fn lemma_sequence_view(v: Vec<Node>)
    ensures
        node_view(Node::Sequence(v)) == NodeView::Sequence(nodes_view(v@)),
{
    assert(node_view(Node::Sequence(v))->Sequence_0 =~= nodes_view(v@));
}

/// Position of the first entry of `m` whose key is `k`, or -1.
pub open spec fn key_position(m: Seq<(NodeView, NodeView)>, k: NodeView) -> int
    decreases m.len(),
{
    if m.len() == 0 {
        -1
    } else {
        let p = key_position(m.drop_last(), k);
        if p >= 0 {
            p
        } else if m.last().0 == k {
            m.len() - 1
        } else {
            -1
        }
    }
}

pub proof fn lemma_key_position(m: Seq<(NodeView, NodeView)>, k: NodeView)
    ensures
        -1 <= key_position(m, k) < m.len(),
        key_position(m, k) >= 0 ==> m[key_position(m, k)].0 == k,
        forall|j: int| 0 <= j < key_position(m, k) ==> m[j].0 != k,
        key_position(m, k) == -1 ==> forall|j: int| 0 <= j < m.len() ==> m[j].0 != k,
    decreases m.len(),
{
    if m.len() > 0 {
        lemma_key_position(m.drop_last(), k);
        assert forall|j: int| 0 <= j < m.len() - 1 implies m[j] == m.drop_last()[j] by {}
    }
}

/// The first position is the only one with the key and no earlier match.
pub proof fn lemma_key_position_unique(m: Seq<(NodeView, NodeView)>, k: NodeView, i: int)
    requires
        0 <= i < m.len(),
        m[i].0 == k,
        forall|j: int| 0 <= j < i ==> m[j].0 != k,
    ensures
        key_position(m, k) == i,
{
    lemma_key_position(m, k);
}

/// Absence is the same as no entry having the key.
pub proof fn lemma_key_position_absent(m: Seq<(NodeView, NodeView)>, k: NodeView)
    requires
        forall|j: int| 0 <= j < m.len() ==> m[j].0 != k,
    ensures
        key_position(m, k) == -1,
{
    lemma_key_position(m, k);
}

/// Whether no two entries of `m` have the same key.
pub open spec fn unique_keys(m: Seq<(NodeView, NodeView)>) -> bool {
    forall|i: int, j: int| 0 <= i < j < m.len() ==> m[i].0 != m[j].0
}

/// `m` with `k` bound to `v`: an existing key keeps its place and its value is
/// replaced; a new key is added last.
pub open spec fn map_insert(m: Seq<(NodeView, NodeView)>, k: NodeView, v: NodeView) -> Seq<
    (NodeView, NodeView),
> {
    let p = key_position(m, k);
    if p >= 0 {
        m.update(p, (m[p].0, v))
    } else {
        m.push((k, v))
    }
}

/// `m` without the entry for `k`; the last entry takes its place.
pub open spec fn map_swap_remove(m: Seq<(NodeView, NodeView)>, k: NodeView) -> Seq<
    (NodeView, NodeView),
> {
    let p = key_position(m, k);
    if p < 0 {
        m
    } else if p == m.len() - 1 {
        m.drop_last()
    } else {
        m.update(p, m.last()).drop_last()
    }
}

/// Deep merge of `src` into `dst`: two mappings are merged key by key, any
/// other `src` replaces `dst`.
pub open spec fn merged(dst: NodeView, src: NodeView) -> NodeView
    decreases src, 0nat,
{
    match src {
        NodeView::Mapping(s) => match dst {
            NodeView::Mapping(d) => NodeView::Mapping(merged_entries(d, s, s.len())),
            _ => src,
        },
        _ => src,
    }
}

/// The entries of mapping `d` after merging the first `n` entries of `s`
/// into it, one after another.
pub open spec fn merged_entries(
    d: Seq<(NodeView, NodeView)>,
    s: Seq<(NodeView, NodeView)>,
    n: nat,
) -> Seq<(NodeView, NodeView)>
    decreases s, n,
{
    if n == 0 || n > s.len() {
        d
    } else {
        let acc = merged_entries(d, s, (n - 1) as nat);
        let k = s[n - 1].0;
        let v = s[n - 1].1;
        let p = key_position(acc, k);
        if p >= 0 {
            acc.update(p, (acc[p].0, merged(acc[p].1, v)))
        } else {
            acc.push((k, merged(NodeView::Null, v)))
        }
    }
}

/// Whether two nodes hold the same value.
pub fn node_equal(a: &Node, b: &Node) -> (r: bool)
    ensures
        r == (a@ == b@),
    decreases a,
{
    match (a, b) {
        (Node::Null, Node::Null) => {
            assert(a@ == NodeView::Null && b@ == NodeView::Null);
            true
        },
        (Node::Bool(x), Node::Bool(y)) => {
            assert(a@ == NodeView::Bool(*x) && b@ == NodeView::Bool(*y));
            *x == *y
        },
        (Node::PosInt(x), Node::PosInt(y)) => {
            let r = *x == *y;
            assert(r == (a@ == b@));
            r
        },
        (Node::NegInt(x), Node::NegInt(y)) => {
            let r = *x == *y;
            assert(r == (a@ == b@));
            r
        },
        (Node::Float(x), Node::Float(y)) => {
            let r = *x == *y;
            assert(r == (a@ == b@));
            r
        },
        (Node::Str(x), Node::Str(y)) => {
            let r = *x == *y;
            assert(r == (a@ == b@));
            r
        },
        (Node::Sequence(xs), Node::Sequence(ys)) => {
            proof {
                lemma_sequence_view(*xs);
                lemma_sequence_view(*ys);
                assert(a@ == NodeView::Sequence(nodes_view(xs@)));
                assert(b@ == NodeView::Sequence(nodes_view(ys@)));
            }
            let n = xs.len();
            if n != ys.len() {
                assert(nodes_view(xs@).len() != nodes_view(ys@).len());
                return false;
            }
            let mut i: usize = 0;
            while i < n
                invariant
                    n == xs@.len() == ys@.len(),
                    *a == Node::Sequence(*xs),
                    a@ == NodeView::Sequence(nodes_view(xs@)),
                    b@ == NodeView::Sequence(nodes_view(ys@)),
                    i <= n,
                    forall|j: int| 0 <= j < i ==> node_view(xs@[j]) == node_view(ys@[j]),
                decreases n - i,
            {
                assert(decreases_to!(*a => *xs));
                assert(decreases_to!(*xs => xs@));
                assert(decreases_to!(xs@ => xs@[i as int]));
                if !node_equal(&xs[i], &ys[i]) {
                    assert(nodes_view(xs@)[i as int] != nodes_view(ys@)[i as int]);
                    return false;
                }
                i = i + 1;
            }
            assert(nodes_view(xs@) =~= nodes_view(ys@));
            true
        },
        (Node::Mapping(xs), Node::Mapping(ys)) => {
            proof {
                lemma_mapping_view(*xs);
                lemma_mapping_view(*ys);
                assert(a@ == NodeView::Mapping(entries_view(xs@)));
                assert(b@ == NodeView::Mapping(entries_view(ys@)));
            }
            let n = xs.len();
            if n != ys.len() {
                assert(entries_view(xs@).len() != entries_view(ys@).len());
                return false;
            }
            let mut i: usize = 0;
            while i < n
                invariant
                    n == xs@.len() == ys@.len(),
                    *a == Node::Mapping(*xs),
                    a@ == NodeView::Mapping(entries_view(xs@)),
                    b@ == NodeView::Mapping(entries_view(ys@)),
                    i <= n,
                    forall|j: int|
                        0 <= j < i ==> node_view(xs@[j].0) == node_view(ys@[j].0) && node_view(
                            xs@[j].1,
                        ) == node_view(ys@[j].1),
                decreases n - i,
            {
                assert(decreases_to!(*a => *xs));
                assert(decreases_to!(*xs => xs@));
                assert(decreases_to!(xs@ => xs@[i as int]));
                assert(decreases_to!(xs@[i as int] => xs@[i as int].0));
                assert(decreases_to!(xs@[i as int] => xs@[i as int].1));
                if !node_equal(&xs[i].0, &ys[i].0) || !node_equal(&xs[i].1, &ys[i].1) {
                    assert(entries_view(xs@)[i as int] != entries_view(ys@)[i as int]);
                    return false;
                }
                i = i + 1;
            }
            assert(entries_view(xs@) =~= entries_view(ys@));
            true
        },
        (Node::Tagged(t, x), Node::Tagged(u, y)) => {
            assert(a@ == NodeView::Tagged(t@, Box::new(node_view(**x))));
            assert(b@ == NodeView::Tagged(u@, Box::new(node_view(**y))));
            if *t == *u {
                let r = node_equal(x, y);
                assert(r == (a@ == b@));
                r
            } else {
                false
            }
        },
        _ => {
            assert(a@ != b@);
            false
        },
    }
}

pub proof fn lemma_entries_view_update(v: Seq<(Node, Node)>, p: int, e: (Node, Node))
    requires
        0 <= p < v.len(),
    ensures
        entries_view(v.update(p, e)) == entries_view(v).update(p, (node_view(e.0), node_view(e.1))),
{
    assert(entries_view(v.update(p, e)) =~= entries_view(v).update(
        p,
        (node_view(e.0), node_view(e.1)),
    ));
}

pub proof fn lemma_entries_view_push(v: Seq<(Node, Node)>, e: (Node, Node))
    ensures
        entries_view(v.push(e)) == entries_view(v).push((node_view(e.0), node_view(e.1))),
{
    assert(entries_view(v.push(e)) =~= entries_view(v).push((node_view(e.0), node_view(e.1))));
}

/// Finds the entry whose key equals `k`.
pub fn find_key(entries: &Vec<(Node, Node)>, k: &Node) -> (r: Option<usize>)
    ensures
        match r {
            Some(i) => i as int == key_position(entries_view(entries@), k@),
            None => key_position(entries_view(entries@), k@) == -1,
        },
{
    let n = entries.len();
    let ghost m = entries_view(entries@);
    let mut i: usize = 0;
    while i < n
        invariant
            n == entries@.len(),
            m == entries_view(entries@),
            i <= n,
            forall|j: int| 0 <= j < i ==> m[j].0 != k@,
        decreases n - i,
    {
        if node_equal(&entries[i].0, k) {
            proof {
                lemma_key_position_unique(m, k@, i as int);
            }
            return Some(i);
        }
        i = i + 1;
    }
    proof {
        lemma_key_position_absent(m, k@);
    }
    None
}

/// Finds the entry whose key is the string `key`.
pub fn find_str_key(entries: &Vec<(Node, Node)>, key: &str) -> (r: Option<usize>)
    ensures
        match r {
            Some(i) => i as int == key_position(entries_view(entries@), NodeView::Str(key@)),
            None => key_position(entries_view(entries@), NodeView::Str(key@)) == -1,
        },
{
    let n = entries.len();
    let ghost m = entries_view(entries@);
    let ghost k = NodeView::Str(key@);
    let mut i: usize = 0;
    while i < n
        invariant
            n == entries@.len(),
            m == entries_view(entries@),
            k == NodeView::Str(key@),
            i <= n,
            forall|j: int| 0 <= j < i ==> m[j].0 != k,
        decreases n - i,
    {
        let found = match &entries[i].0 {
            Node::Str(t) => same_text(t.as_str(), key),
            _ => false,
        };
        if found {
            proof {
                lemma_key_position_unique(m, k, i as int);
            }
            return Some(i);
        }
        i = i + 1;
    }
    proof {
        lemma_key_position_absent(m, k);
    }
    None
}

/// Deep merge of `src` into `dst`, returning the result.
#[verifier::loop_isolation(false)]
pub fn merge_nodes(dst: Node, src: Node) -> (r: Node)
    ensures
        r@ == merged(dst@, src@),
    decreases src,
{
    let ghost src0 = src;
    let ghost dst0 = dst;
    match src {
        Node::Mapping(s) => {
            proof {
                lemma_mapping_view(s);
            }
            match dst {
                Node::Mapping(d) => {
                    proof {
                        lemma_mapping_view(d);
                    }
                    let ghost s0 = s;
                    let ghost sv = entries_view(s@);
                    let ghost dv = entries_view(d@);
                    let mut s = s;
                    let mut d = d;
                    let n = s.len();
                    let mut i: usize = 0;
                    assert(s@.skip(0) =~= s@);
                    while i < n
                        invariant
                            n == s0@.len(),
                            i <= n,
                            s@ == s0@.skip(i as int),
                            entries_view(d@) == merged_entries(dv, sv, i as nat),
                        decreases n - i,
                    {
                        assert(s@[0] == s0@[i as int]);
                        let (k, v) = s.remove(0);
                        assert(s@ =~= s0@.skip(i + 1));
                        let ghost acc = entries_view(d@);
                        let ghost d_before = d@;
                        proof {
                            lemma_key_position(acc, node_view(k));
                        }
                        assert(sv[i as int] == (node_view(k), node_view(v)));
                        match find_key(&d, &k) {
                            Some(p) => {
                                let (ek, ev) = d.remove(p);
                                assert(decreases_to!(src0 => s0));
                                assert(decreases_to!(s0 => s0@));
                                assert(decreases_to!(s0@ => s0@[i as int]));
                                assert(decreases_to!(s0@[i as int] => s0@[i as int].1));
                                let nv = merge_nodes(ev, v);
                                d.insert(p, (ek, nv));
                                proof {
                                    assert(acc[p as int] == (node_view(ek), node_view(ev)));
                                    assert(d@ =~= d_before.update(p as int, (ek, nv)));
                                    lemma_entries_view_update(d_before, p as int, (ek, nv));
                                }
                            },
                            None => {
                                d.push((k, v));
                                proof {
                                    lemma_entries_view_push(d_before, (k, v));
                                    assert(merged(NodeView::Null, node_view(v)) == node_view(v));
                                }
                            },
                        }
                        i = i + 1;
                    }
                    assert(merged_entries(dv, sv, sv.len()) == entries_view(d@));
                    proof {
                        lemma_mapping_view(d);
                    }
                    Node::Mapping(d)
                },
                _ => Node::Mapping(s),
            }
        },
        other => other,
    }
}

/// Merges `src` into `dst` in place: mappings are merged key by key (a key
/// already in `dst` keeps its place, a new key is added last), anything else
/// in `src` replaces what `dst` holds.
pub fn deep_merge(dst: &mut Node, src: Node)
    ensures
        final(dst)@ == merged(old(dst)@, src@),
        well_keyed(old(dst)@) && well_keyed(src@) ==> well_keyed(final(dst)@),
{
    proof {
        if well_keyed(dst@) && well_keyed(src@) {
            crate::yaml_laws::lemma_merged_well_keyed(dst@, src@);
        }
    }
    let mut d = Node::Null;
    std::mem::swap(dst, &mut d);
    *dst = merge_nodes(d, src);
}

/// A mapping with no entries.
pub fn empty_mapping() -> (r: Node)
    ensures
        r@ == NodeView::Mapping(Seq::empty()),
{
    let entries: Vec<(Node, Node)> = Vec::new();
    proof {
        lemma_mapping_view(entries);
        assert(entries_view(entries@) =~= Seq::empty());
    }
    Node::Mapping(entries)
}

/// The result of merging `docs` one after another into an empty mapping.
pub open spec fn merge_all(docs: Seq<NodeView>) -> NodeView
    decreases docs.len(),
{
    if docs.len() == 0 {
        NodeView::Mapping(Seq::empty())
    } else {
        merged(merge_all(docs.drop_last()), docs.last())
    }
}

/// Merges documents in order, starting from an empty mapping; later
/// documents win.
pub fn merge_documents(docs: Vec<Node>) -> (r: Node)
    ensures
        r@ == merge_all(nodes_view(docs@)),
        (forall|i: int| 0 <= i < docs@.len() ==> well_keyed(#[trigger] docs@[i]@)) ==> well_keyed(
            r@,
        ),
{
    proof {
        if forall|i: int| 0 <= i < docs@.len() ==> well_keyed(#[trigger] docs@[i]@) {
            assert forall|i: int| 0 <= i < nodes_view(docs@).len() implies well_keyed(
                #[trigger] nodes_view(docs@)[i],
            ) by {
                assert(nodes_view(docs@)[i] == docs@[i]@);
            }
            crate::yaml_laws::lemma_merge_all_well_keyed(nodes_view(docs@));
        }
    }
    let ghost d0 = nodes_view(docs@);
    let ghost v0 = docs@;
    let mut docs = docs;
    let mut acc = empty_mapping();
    let n = docs.len();
    let mut i: usize = 0;
    assert(v0.skip(0) =~= v0);
    while i < n
        invariant
            n == v0.len(),
            d0 == nodes_view(v0),
            i <= n,
            docs@ == v0.skip(i as int),
            acc@ == merge_all(d0.take(i as int)),
        decreases n - i,
    {
        assert(docs@[0] == v0[i as int]);
        let doc = docs.remove(0);
        assert(docs@ =~= v0.skip(i + 1));
        assert(d0.take(i + 1).drop_last() =~= d0.take(i as int));
        deep_merge(&mut acc, doc);
        i = i + 1;
    }
    assert(d0.take(n as int) =~= d0);
    acc
}

/// `v` without any tags around it.
pub open spec fn untagged(v: NodeView) -> NodeView
    decreases v,
{
    match v {
        NodeView::Tagged(_, b) => untagged(*b),
        _ => v,
    }
}

/// The value under the `network` key of a merged document, or an empty
/// mapping when there is none.
pub open spec fn network_part(v: NodeView) -> NodeView {
    match untagged(v) {
        NodeView::Mapping(m) => {
            let p = key_position(m, NodeView::Str("network"@));
            if p >= 0 {
                m[p].1
            } else {
                NodeView::Mapping(Seq::empty())
            }
        },
        _ => NodeView::Mapping(Seq::empty()),
    }
}

fn untag(n: Node) -> (r: Node)
    ensures
        r@ == untagged(n@),
    decreases n,
{
    match n {
        Node::Tagged(_, b) => untag(*b),
        other => other,
    }
}

/// Takes the `network` section out of a merged document.
pub fn network_section(merged_doc: Node) -> (r: Node)
    ensures
        r@ == network_part(merged_doc@),
{
    let u = untag(merged_doc);
    match u {
        Node::Mapping(m) => {
            proof {
                lemma_mapping_view(m);
            }
            let mut m = m;
            proof {
                lemma_key_position(entries_view(m@), NodeView::Str("network"@));
            }
            match find_str_key(&m, "network") {
                Some(p) => {
                    let (_, v) = m.remove(p);
                    v
                },
                None => {
                    empty_mapping()
                },
            }
        },
        _ => {
            empty_mapping()
        },
    }
}

/// Splits a dotted key path at every `.`, as `str::split('.')` does.
pub open spec fn split_dots(s: Seq<char>) -> Seq<Seq<char>>
    decreases s.len(),
{
    if s.len() == 0 {
        seq![Seq::empty()]
    } else {
        let p = split_dots(s.drop_last());
        if s.last() == '.' {
            p.push(Seq::empty())
        } else {
            p.update(p.len() - 1, p.last().push(s.last()))
        }
    }
}

pub proof fn lemma_split_dots_len(s: Seq<char>)
    ensures
        split_dots(s).len() >= 1,
    decreases s.len(),
{
    if s.len() > 0 {
        lemma_split_dots_len(s.drop_last());
    }
}

/// The components of a dotted key path.
pub fn split_path(path: &str) -> (r: Vec<String>)
    ensures
        crate::text::views(r@) == split_dots(path@),
{
    let n = path.unicode_len();
    let mut parts: Vec<String> = Vec::new();
    let mut cur = String::new();
    let mut i: usize = 0;
    assert(path@.take(0) =~= Seq::<char>::empty());
    assert(crate::text::views(parts@).push(cur@) =~= seq![Seq::<char>::empty()]);
    while i < n
        invariant
            n == path@.len(),
            i <= n,
            crate::text::views(parts@).push(cur@) == split_dots(path@.take(i as int)),
        decreases n - i,
    {
        let ghost t = path@.take(i + 1);
        assert(t.drop_last() =~= path@.take(i as int));
        assert(t.last() == path@[i as int]);
        proof {
            lemma_split_dots_len(t.drop_last());
        }
        let ghost before = crate::text::views(parts@).push(cur@);
        if path.get_char(i) == '.' {
            let done = cur;
            parts.push(done);
            cur = String::new();
            assert(crate::text::views(parts@).push(cur@) =~= before.push(Seq::empty()));
        } else {
            let piece = path.substring_char(i, i + 1);
            assert(piece@ =~= seq![path@[i as int]]);
            let ghost old_cur = cur@;
            cur.append(piece);
            assert(cur@ =~= old_cur.push(path@[i as int]));
            assert(crate::text::views(parts@).push(cur@) =~= before.update(
                before.len() - 1,
                before.last().push(path@[i as int]),
            ));
        }
        i = i + 1;
    }
    assert(path@.take(n as int) =~= path@);
    parts.push(cur);
    assert(crate::text::views(parts@) =~= split_dots(path@));
    parts
}

/// Why a dotted path could not be followed.
#[derive(Clone, Copy, Debug, PartialEq, Eq, Structural)]
pub enum PathErrorKind {
    /// A mapping on the path has no entry for the key.
    NotFound,
    /// The path continues below a value that is not a mapping.
    NotMapping,
    /// The last key of an assignment is below a value that is not a mapping.
    CannotSet,
}

/// An error met while following a dotted path, with the key where it arose.
#[derive(Debug)]
pub struct PathError {
    pub kind: PathErrorKind,
    pub key: String,
}

/// The text of a path error.
pub open spec fn path_error_text(kind: PathErrorKind, key: Seq<char>) -> Seq<char> {
    match kind {
        PathErrorKind::NotFound => "key '"@ + key + "' not found"@,
        PathErrorKind::NotMapping => "cannot descend into non-mapping at '"@ + key + "'"@,
        PathErrorKind::CannotSet => "cannot set key '"@ + key + "' on non-mapping"@,
    }
}

impl PathError {
    /// The message shown for this error.
    pub fn message(&self) -> (r: String)
        ensures
            r@ == path_error_text(self.kind, self.key@),
    {
        match self.kind {
            PathErrorKind::NotFound => {
                let mut r = String::from_str("key '");
                r.append(self.key.as_str());
                r.append("' not found");
                r
            },
            PathErrorKind::NotMapping => {
                let mut r = String::from_str("cannot descend into non-mapping at '");
                r.append(self.key.as_str());
                r.append("'");
                r
            },
            PathErrorKind::CannotSet => {
                let mut r = String::from_str("cannot set key '");
                r.append(self.key.as_str());
                r.append("' on non-mapping");
                r
            },
        }
    }
}

/// The value reached from `cur` by following `keys`, each naming an entry of
/// a mapping.
pub open spec fn lookup(cur: NodeView, keys: Seq<Seq<char>>) -> Result<
    NodeView,
    (PathErrorKind, Seq<char>),
>
    decreases keys.len(),
{
    if keys.len() == 0 {
        Ok(cur)
    } else {
        match cur {
            NodeView::Mapping(m) => {
                let p = key_position(m, NodeView::Str(keys[0]));
                if p < 0 {
                    Err((PathErrorKind::NotFound, keys[0]))
                } else {
                    lookup(m[p].1, keys.drop_first())
                }
            },
            _ => Err((PathErrorKind::NotMapping, keys[0])),
        }
    }
}

/// Whether an executable lookup result is the specified one.
pub open spec fn lookup_result_matches<'a>(
    r: Result<&'a Node, PathError>,
    s: Result<NodeView, (PathErrorKind, Seq<char>)>,
) -> bool {
    match s {
        Ok(v) => r is Ok && r->Ok_0@ == v,
        Err((kind, key)) => r is Err && r->Err_0.kind == kind && r->Err_0.key@ == key,
    }
}

/// The value at a dotted key path.
pub fn get_by_path<'a>(val: &'a Node, path: &str) -> (r: Result<&'a Node, PathError>)
    ensures
        lookup_result_matches(r, lookup(val@, split_dots(path@))),
{
    let keys = split_path(path);
    let ghost ks = crate::text::views(keys@);
    let mut cur: &Node = val;
    let n = keys.len();
    let mut i: usize = 0;
    assert(ks.skip(0) =~= ks);
    while i < n
        invariant
            n == keys@.len(),
            ks == crate::text::views(keys@),
            ks == split_dots(path@),
            i <= n,
            lookup(val@, ks) == lookup(cur@, ks.skip(i as int)),
        decreases n - i,
    {
        let ghost rest = ks.skip(i as int);
        assert(rest[0] == keys@[i as int]@);
        assert(rest.drop_first() =~= ks.skip(i + 1));
        match cur {
            Node::Mapping(m) => {
                proof {
                    lemma_mapping_view(*m);
                    lemma_key_position(entries_view(m@), NodeView::Str(keys@[i as int]@));
                }
                match find_str_key(m, keys[i].as_str()) {
                    Some(p) => {
                        cur = &m[p].1;
                    },
                    None => {
                        return Err(PathError { kind: PathErrorKind::NotFound, key: keys[i].clone() });
                    },
                }
            },
            _ => {
                return Err(PathError { kind: PathErrorKind::NotMapping, key: keys[i].clone() });
            },
        }
        i = i + 1;
    }
    assert(ks.skip(n as int) =~= Seq::<Seq<char>>::empty());
    Ok(cur)
}

/// The document after assigning `value` at the path `keys` below `cur`:
/// missing mappings on the way are created, a `Null` value removes the last
/// key, any other value is bound to it.
pub open spec fn assigned(cur: NodeView, keys: Seq<Seq<char>>, value: NodeView) -> Result<
    NodeView,
    (PathErrorKind, Seq<char>),
>
    decreases keys.len(),
{
    if keys.len() == 0 {
        Ok(cur)
    } else if keys.len() == 1 {
        match cur {
            NodeView::Mapping(m) => Ok(
                NodeView::Mapping(
                    if value == NodeView::Null {
                        map_swap_remove(m, NodeView::Str(keys[0]))
                    } else {
                        map_insert(m, NodeView::Str(keys[0]), value)
                    },
                ),
            ),
            _ => Err((PathErrorKind::CannotSet, keys[0])),
        }
    } else {
        match cur {
            NodeView::Mapping(m) => {
                let k = NodeView::Str(keys[0]);
                let p = key_position(m, k);
                let child = if p >= 0 {
                    m[p].1
                } else {
                    NodeView::Mapping(Seq::empty())
                };
                match assigned(child, keys.drop_first(), value) {
                    Ok(c) => Ok(
                        NodeView::Mapping(
                            if p >= 0 {
                                m.update(p, (m[p].0, c))
                            } else {
                                m.push((k, c))
                            },
                        ),
                    ),
                    Err(e) => Err(e),
                }
            },
            _ => Err((PathErrorKind::NotMapping, keys[0])),
        }
    }
}

fn assign_at(cur: &mut Node, keys: &Vec<String>, i: usize, value: Node) -> (r: Result<
    (),
    PathError,
>)
    requires
        i < keys@.len(),
    ensures
        match assigned(old(cur)@, crate::text::views(keys@).skip(i as int), value@) {
            Ok(v) => r is Ok && final(cur)@ == v,
            Err((kind, key)) => r is Err && r->Err_0.kind == kind && r->Err_0.key@ == key
                && final(cur)@ == old(cur)@,
        },
    decreases keys@.len() - i,
{
    let ghost ks = crate::text::views(keys@).skip(i as int);
    assert(ks[0] == keys@[i as int]@);
    assert(ks.drop_first() =~= crate::text::views(keys@).skip(i + 1));
    let mut node = Node::Null;
    std::mem::swap(cur, &mut node);
    let ghost orig = node@;
    match node {
        Node::Mapping(m) => {
            proof {
                lemma_mapping_view(m);
                lemma_key_position(entries_view(m@), NodeView::Str(ks[0]));
            }
            let mut m = m;
            let ghost mv = entries_view(m@);
            let n = keys.len();
            let last = i + 1 == n;
            if last {
                if matches!(value, Node::Null) {
                    match find_str_key(&m, keys[i].as_str()) {
                        Some(p) => {
                            let _ = m.swap_remove(p);
                            proof {
                                let t = m@;
                                assert(entries_view(t) =~= mv.update(p as int, mv.last()).drop_last());
                                if p as int == mv.len() - 1 {
                                    assert(mv.update(p as int, mv.last()) =~= mv);
                                }
                                assert(entries_view(m@) == map_swap_remove(mv, NodeView::Str(ks[0])));
                            }
                        },
                        None => {
                            assert(entries_view(m@) == map_swap_remove(mv, NodeView::Str(ks[0])));
                        },
                    }
                } else {
                    match find_str_key(&m, keys[i].as_str()) {
                        Some(p) => {
                            let (ek, _) = m.remove(p);
                            let ghost ekv = node_view(ek);
                            m.insert(p, (ek, value));
                            proof {
                                assert(entries_view(m@) =~= mv.update(p as int, (ekv, node_view(value))));
                                assert(entries_view(m@) == map_insert(mv, NodeView::Str(ks[0]), value@));
                            }
                        },
                        None => {
                            let key = keys[i].clone();
                            let ghost before = m@;
                            m.push((Node::Str(key), value));
                            proof {
                                lemma_entries_view_push(before, (Node::Str(key), value));
                                assert(entries_view(m@) == map_insert(mv, NodeView::Str(ks[0]), value@));
                            }
                        },
                    }
                }
                proof {
                    lemma_mapping_view(m);
                }
                *cur = Node::Mapping(m);
                Ok(())
            } else {
                match find_str_key(&m, keys[i].as_str()) {
                    Some(p) => {
                        let (ek, ev) = m.remove(p);
                        let ghost evv = node_view(ev);
                        let ghost ekv = node_view(ek);
                        let mut child = ev;
                        let res = assign_at(&mut child, keys, i + 1, value);
                        m.insert(p, (ek, child));
                        proof {
                            assert(entries_view(m@) =~= mv.update(p as int, (ekv, node_view(child))));
                            assert(mv[p as int] == (ekv, evv));
                            if res is Err {
                                assert(entries_view(m@) =~= mv);
                            }
                            lemma_mapping_view(m);
                        }
                        *cur = Node::Mapping(m);
                        res
                    },
                    None => {
                        let mut child = empty_mapping();
                        let res = assign_at(&mut child, keys, i + 1, value);
                        match res {
                            Ok(()) => {
                                let key = keys[i].clone();
                                let ghost before = m@;
                                m.push((Node::Str(key), child));
                                proof {
                                    lemma_entries_view_push(before, (Node::Str(key), child));
                                    lemma_mapping_view(m);
                                }
                                *cur = Node::Mapping(m);
                                Ok(())
                            },
                            Err(e) => {
                                proof {
                                    lemma_mapping_view(m);
                                }
                                *cur = Node::Mapping(m);
                                Err(e)
                            },
                        }
                    },
                }
            }
        },
        other => {
            let n = keys.len();
            let kind = if i + 1 == n {
                PathErrorKind::CannotSet
            } else {
                PathErrorKind::NotMapping
            };
            *cur = other;
            Err(PathError { kind, key: keys[i].clone() })
        },
    }
}

/// Assigns `value` at a dotted key path of `root`, creating missing
/// mappings on the way; a `Null` value removes the key instead. On error
/// `root` is left as it was.
pub fn set_by_path(root: &mut Node, path: &str, value: Node) -> (r: Result<(), PathError>)
    ensures
        match assigned(old(root)@, split_dots(path@), value@) {
            Ok(v) => r is Ok && final(root)@ == v,
            Err((kind, key)) => r is Err && r->Err_0.kind == kind && r->Err_0.key@ == key
                && final(root)@ == old(root)@,
        },
        well_keyed(old(root)@) && well_keyed(value@) ==> well_keyed(final(root)@),
{
    proof {
        if well_keyed(root@) && well_keyed(value@) && assigned(
            root@,
            split_dots(path@),
            value@,
        ) is Ok {
            crate::yaml_laws::lemma_assigned_well_keyed(root@, split_dots(path@), value@);
        }
    }
    let keys = split_path(path);
    proof {
        lemma_split_dots_len(path@);
        assert(crate::text::views(keys@).skip(0) =~= crate::text::views(keys@));
    }
    assign_at(root, &keys, 0, value)
}

/// Decimal notation of an integer, with a leading `-` when negative.
pub open spec fn signed_decimal(i: int) -> Seq<char> {
    if i < 0 {
        "-"@ + decimal((-i) as nat)
    } else {
        decimal(i as nat)
    }
}

/// How `get` prints a scalar value; `None` for values printed as YAML.
pub open spec fn scalar_text(v: NodeView) -> Option<Seq<char>> {
    match v {
        NodeView::Str(s) => Some(s),
        NodeView::Bool(b) => Some(true_false(b)),
        NodeView::PosInt(u) => Some(decimal(u as nat)),
        NodeView::NegInt(i) => Some(signed_decimal(i as int)),
        NodeView::Float(t) => Some(t),
        NodeView::Null => Some("null"@),
        _ => None,
    }
}

/// The text of a scalar value as `get` prints it, or `None` when the value is
/// a sequence, a mapping or a tagged value.
pub fn render_scalar(v: &Node) -> (r: Option<String>)
    ensures
        match scalar_text(v@) {
            Some(t) => r is Some && r->0@ == t,
            None => r is None,
        },
{
    let r = match v {
        Node::Str(s) => Some(s.as_str().to_owned()),
        Node::Bool(b) => Some(String::from_str(if *b { "true" } else { "false" })),
        Node::PosInt(u) => Some(decimal_string(*u)),
        Node::NegInt(i) => {
            if *i < 0 {
                let magnitude: u64 = ((-(*i + 1)) as u64) + 1;
                let mut t = String::from_str("-");
                let digits = decimal_string(magnitude);
                t.append(digits.as_str());
                Some(t)
            } else {
                Some(decimal_string(*i as u64))
            }
        },
        Node::Float(t) => Some(t.as_str().to_owned()),
        Node::Null => Some(String::from_str("null")),
        _ => None,
    };
    r
}

/// Positions of keys only depend on the keys.
pub proof fn lemma_key_position_same_keys(
    m1: Seq<(NodeView, NodeView)>,
    m2: Seq<(NodeView, NodeView)>,
    k: NodeView,
)
    requires
        m1.len() == m2.len(),
        forall|j: int| 0 <= j < m1.len() ==> m1[j].0 == m2[j].0,
    ensures
        key_position(m1, k) == key_position(m2, k),
{
    lemma_key_position(m1, k);
    lemma_key_position(m2, k);
    if key_position(m1, k) >= 0 {
        lemma_key_position_unique(m2, k, key_position(m1, k));
    } else {
        lemma_key_position_absent(m2, k);
    }
}

/// Adding an entry last leaves earlier positions as they were.
pub proof fn lemma_key_position_push(m: Seq<(NodeView, NodeView)>, e: (NodeView, NodeView), k: NodeView)
    ensures
        key_position(m.push(e), k) == (if key_position(m, k) >= 0 {
            key_position(m, k)
        } else if e.0 == k {
            m.len() as int
        } else {
            -1
        }),
{
    assert(m.push(e).drop_last() =~= m);
}

/// A value set at a path is what a lookup of that path gives back.
pub proof fn lemma_lookup_after_assign(doc: NodeView, keys: Seq<Seq<char>>, value: NodeView)
    requires
        keys.len() >= 1,
        value != NodeView::Null,
        assigned(doc, keys, value) is Ok,
    ensures
        lookup(assigned(doc, keys, value)->Ok_0, keys) == Ok::<NodeView, (PathErrorKind, Seq<char>)>(
            value,
        ),
    decreases keys.len(),
{
    let m = doc->Mapping_0;
    let k = NodeView::Str(keys[0]);
    let p = key_position(m, k);
    lemma_key_position(m, k);
    let result = assigned(doc, keys, value)->Ok_0;
    if keys.len() == 1 {
        let m2 = map_insert(m, k, value);
        if p >= 0 {
            lemma_key_position_same_keys(m2, m, k);
        } else {
            lemma_key_position_push(m, (k, value), k);
        }
        assert(keys.drop_first() =~= Seq::<Seq<char>>::empty());
        assert(result == NodeView::Mapping(m2));
        let p2 = key_position(m2, k);
        assert(p2 >= 0 && m2[p2].1 == value);
        assert(lookup(m2[p2].1, keys.drop_first()) == Ok::<NodeView, (PathErrorKind, Seq<char>)>(value));
    } else {
        let child = if p >= 0 {
            m[p].1
        } else {
            NodeView::Mapping(Seq::empty())
        };
        let c = assigned(child, keys.drop_first(), value)->Ok_0;
        lemma_lookup_after_assign(child, keys.drop_first(), value);
        if p >= 0 {
            lemma_key_position_same_keys(m.update(p, (m[p].0, c)), m, k);
        } else {
            lemma_key_position_push(m, (k, c), k);
        }
    }
}

/// Merging a non-mapping, or into a non-mapping, gives the later value.
pub proof fn lemma_merge_later_wins(dst: NodeView, src: NodeView)
    requires
        !(dst is Mapping && src is Mapping),
    ensures
        merged(dst, src) == src,
{
}

/// The value of `k` in mapping `d` before any merge: its entry, or `Null`.
pub open spec fn value_or_null(d: Seq<(NodeView, NodeView)>, k: NodeView) -> NodeView {
    let p = key_position(d, k);
    if p >= 0 {
        d[p].1
    } else {
        NodeView::Null
    }
}

proof fn lemma_merged_entries_key(
    d: Seq<(NodeView, NodeView)>,
    s: Seq<(NodeView, NodeView)>,
    n: nat,
    k: NodeView,
)
    requires
        n <= s.len(),
        unique_keys(s),
    ensures
        ({
            let acc = merged_entries(d, s, n);
            let q = key_position(s.take(n as int), k);
            let p = key_position(acc, k);
            &&& q >= 0 ==> p >= 0 && acc[p].1 == merged(value_or_null(d, k), s[q].1)
            &&& q < 0 ==> p == key_position(d, k) && (p >= 0 ==> acc[p] == d[p])
        }),
    decreases n,
{
    if n == 0 {
        assert(s.take(0) =~= Seq::<(NodeView, NodeView)>::empty());
    } else {
        lemma_merged_entries_key(d, s, (n - 1) as nat, k);
        let acc = merged_entries(d, s, (n - 1) as nat);
        let st = s.take(n as int);
        assert(st.drop_last() =~= s.take(n - 1));
        let kk = s[n - 1].0;
        let v = s[n - 1].1;
        let pp = key_position(acc, kk);
        lemma_key_position(acc, kk);
        lemma_key_position(acc, k);
        lemma_key_position(s.take(n - 1), k);
        lemma_key_position(d, k);
        if pp >= 0 {
            let acc2 = acc.update(pp, (acc[pp].0, merged(acc[pp].1, v)));
            lemma_key_position_same_keys(acc2, acc, k);
        } else {
            lemma_key_position_push(acc, (kk, merged(NodeView::Null, v)), k);
        }
        if kk == k {
            assert(key_position(s.take(n - 1), k) == -1) by {
                assert forall|j: int| 0 <= j < n - 1 implies #[trigger] s.take(n - 1)[j].0 != k by {
                    assert(s[j].0 != s[n - 1].0);
                }
                lemma_key_position_absent(s.take(n - 1), k);
            }
        }
    }
}

/// Merging a mapping into a mapping: a key of the later mapping ends up
/// bound to the merge of its earlier value (or `Null`) with its later value;
/// any other key keeps its place and value.
pub proof fn lemma_merge_mapping_lookup(
    d: Seq<(NodeView, NodeView)>,
    s: Seq<(NodeView, NodeView)>,
    k: NodeView,
)
    requires
        unique_keys(s),
    ensures
        ({
            let r = merged(NodeView::Mapping(d), NodeView::Mapping(s))->Mapping_0;
            let q = key_position(s, k);
            let p = key_position(r, k);
            &&& q >= 0 ==> p >= 0 && r[p].1 == merged(value_or_null(d, k), s[q].1)
            &&& q < 0 ==> p == key_position(d, k) && (p >= 0 ==> r[p] == d[p])
        }),
{
    lemma_merged_entries_key(d, s, s.len(), k);
    assert(s.take(s.len() as int) =~= s);
}

proof fn lemma_merged_entries_into_empty(s: Seq<(NodeView, NodeView)>, n: nat)
    requires
        n <= s.len(),
        unique_keys(s),
    ensures
        merged_entries(Seq::empty(), s, n) == s.take(n as int),
    decreases n,
{
    if n > 0 {
        lemma_merged_entries_into_empty(s, (n - 1) as nat);
        let k = s[n - 1].0;
        assert forall|j: int| 0 <= j < n - 1 implies #[trigger] s.take(n - 1)[j].0 != k by {
            assert(s[j].0 != s[n - 1].0);
        }
        lemma_key_position_absent(s.take(n - 1), k);
        assert(s.take(n - 1).push((k, merged(NodeView::Null, s[n - 1].1))) =~= s.take(n as int));
    }
}

/// Merging a document into an empty mapping gives the document back, when
/// its top-level keys are distinct.
pub proof fn lemma_merge_into_empty(doc: NodeView)
    requires
        doc is Mapping ==> unique_keys(doc->Mapping_0),
    ensures
        merged(NodeView::Mapping(Seq::empty()), doc) == doc,
{
    if let NodeView::Mapping(s) = doc {
        lemma_merged_entries_into_empty(s, s.len());
        assert(s.take(s.len() as int) =~= s);
    }
}

/// Whether every mapping along the values of `v` has distinct keys, as the
/// mappings of a parsed YAML document do.
pub open spec fn well_keyed(v: NodeView) -> bool
    decreases v,
{
    match v {
        NodeView::Mapping(m) => unique_keys(m) && forall|i: int|
            0 <= i < m.len() ==> well_keyed(#[trigger] m[i].1),
        _ => true,
    }
}

proof fn lemma_swap_remove_drops_key(m: Seq<(NodeView, NodeView)>, k: NodeView)
    requires
        unique_keys(m),
    ensures
        key_position(map_swap_remove(m, k), k) == -1,
{
    lemma_key_position(m, k);
    let p = key_position(m, k);
    let r = map_swap_remove(m, k);
    if p >= 0 {
        assert forall|j: int| 0 <= j < r.len() implies r[j].0 != k by {
            if p == m.len() - 1 {
                assert(r[j] == m[j]);
                assert(m[j].0 != m[p].0);
            } else if j == p {
                assert(r[j] == m[m.len() - 1]);
                assert(m[p].0 != m[m.len() - 1].0);
            } else {
                assert(r[j] == m[j]);
                if j < p {
                    assert(m[j].0 != m[p].0);
                } else {
                    assert(m[p].0 != m[j].0);
                }
            }
        }
    }
    lemma_key_position_absent(r, k);
}

/// A key removed by setting `Null` at a path is gone: looking the path up
/// again finds no entry for the last key, when the document's mappings have
/// distinct keys.
pub proof fn lemma_lookup_after_remove(doc: NodeView, keys: Seq<Seq<char>>)
    requires
        keys.len() >= 1,
        well_keyed(doc),
        assigned(doc, keys, NodeView::Null) is Ok,
    ensures
        lookup(assigned(doc, keys, NodeView::Null)->Ok_0, keys) == Err::<
            NodeView,
            (PathErrorKind, Seq<char>),
        >((PathErrorKind::NotFound, keys.last())),
    decreases keys.len(),
{
    let m = doc->Mapping_0;
    let k = NodeView::Str(keys[0]);
    let p = key_position(m, k);
    lemma_key_position(m, k);
    let result = assigned(doc, keys, NodeView::Null)->Ok_0;
    if keys.len() == 1 {
        lemma_swap_remove_drops_key(m, k);
    } else {
        let child = if p >= 0 {
            m[p].1
        } else {
            NodeView::Mapping(Seq::empty())
        };
        assert(well_keyed(child));
        let c = assigned(child, keys.drop_first(), NodeView::Null)->Ok_0;
        lemma_lookup_after_remove(child, keys.drop_first());
        if p >= 0 {
            lemma_key_position_same_keys(m.update(p, (m[p].0, c)), m, k);
        } else {
            lemma_key_position_push(m, (k, c), k);
        }
        assert(keys.drop_first().last() == keys.last());
    }
}

} // verus!
