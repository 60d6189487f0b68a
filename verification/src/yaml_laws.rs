//! Laws of the document operations: merging is idempotent, an assignment
//! fails exactly when a non-mapping lies on its path, and it leaves every
//! value on other paths as it was.
use crate::yaml::{
    assigned, key_position, lemma_key_position, lemma_key_position_absent,
    lemma_key_position_push, lemma_key_position_same_keys, lemma_key_position_unique, lookup,
    map_swap_remove, merged, merged_entries, unique_keys, value_or_null, well_keyed, NodeView,
    PathErrorKind,
};
use vstd::prelude::*;

verus! {

proof fn lemma_merged_entries_fixed(
    r: Seq<(NodeView, NodeView)>,
    s: Seq<(NodeView, NodeView)>,
    n: nat,
)
    requires
        n <= s.len(),
        forall|j: int|
            0 <= j < n ==> key_position(r, (#[trigger] s[j]).0) >= 0 && merged(
                r[key_position(r, s[j].0)].1,
                s[j].1,
            ) == r[key_position(r, s[j].0)].1,
    ensures
        merged_entries(r, s, n) == r,
    decreases n,
{
    if n > 0 {
        lemma_merged_entries_fixed(r, s, (n - 1) as nat);
        let j = n - 1;
        assert(key_position(r, s[j].0) >= 0);
        let p = key_position(r, s[j].0);
        lemma_key_position(r, s[j].0);
        assert(r.update(p, (r[p].0, r[p].1)) =~= r);
    }
}

proof fn lemma_first_of_unique(s: Seq<(NodeView, NodeView)>, j: int)
    requires
        unique_keys(s),
        0 <= j < s.len(),
    ensures
        key_position(s, s[j].0) == j,
{
    assert forall|i: int| 0 <= i < j implies s[i].0 != s[j].0 by {}
    lemma_key_position_unique(s, s[j].0, j);
}

/// Merging a value into itself gives it back, when its mappings have
/// distinct keys.
pub proof fn lemma_merge_into_itself(v: NodeView)
    requires
        well_keyed(v),
    ensures
        merged(v, v) == v,
    decreases v,
{
    if let NodeView::Mapping(s) = v {
        assert forall|j: int| 0 <= j < s.len() implies key_position(s, (#[trigger] s[j]).0) >= 0
            && merged(s[key_position(s, s[j].0)].1, s[j].1) == s[key_position(s, s[j].0)].1 by {
            lemma_first_of_unique(s, j);
            assert(well_keyed(s[j].1));
            assert(decreases_to!(v => s[j].1));
            lemma_merge_into_itself(s[j].1);
        }
        lemma_merged_entries_fixed(s, s, s.len());
    }
}

/// Merging the same document a second time changes nothing, when the
/// document's mappings have distinct keys.
pub proof fn lemma_merge_idempotent(dst: NodeView, src: NodeView)
    requires
        well_keyed(src),
    ensures
        merged(merged(dst, src), src) == merged(dst, src),
    decreases src,
{
    if let NodeView::Mapping(s) = src {
        if let NodeView::Mapping(d) = dst {
            let r = merged_entries(d, s, s.len());
            assert forall|j: int| 0 <= j < s.len() implies key_position(r, (#[trigger] s[j]).0)
                >= 0 && merged(r[key_position(r, s[j].0)].1, s[j].1) == r[key_position(
                r,
                s[j].0,
            )].1 by {
                let k = s[j].0;
                crate::yaml::lemma_merge_mapping_lookup(d, s, k);
                lemma_first_of_unique(s, j);
                assert(well_keyed(s[j].1));
                assert(decreases_to!(src => s[j].1));
                lemma_merge_idempotent(value_or_null(d, k), s[j].1);
            }
            lemma_merged_entries_fixed(r, s, s.len());
        } else {
            lemma_merge_into_itself(src);
        }
    }
}

/// Whether the value reached by following the first `j` keys of `keys` is
/// not a mapping, so that the path cannot go on below it.
pub open spec fn blocked_at(doc: NodeView, keys: Seq<Seq<char>>, j: int) -> bool {
    match lookup(doc, keys.take(j)) {
        Ok(x) => !(x is Mapping),
        Err(_) => false,
    }
}

/// Whether some value on the path `keys` below `doc`, `doc` itself
/// included but not the last key's value, is not a mapping.
pub open spec fn blocked(doc: NodeView, keys: Seq<Seq<char>>) -> bool {
    exists|j: int| 0 <= j < keys.len() && #[trigger] blocked_at(doc, keys, j)
}

proof fn lemma_blocked_below(doc: NodeView, keys: Seq<Seq<char>>)
    requires
        keys.len() >= 1,
        doc is Mapping,
    ensures
        ({
            let m = doc->Mapping_0;
            let p = key_position(m, NodeView::Str(keys[0]));
            &&& p >= 0 ==> (blocked(doc, keys) <==> blocked(m[p].1, keys.drop_first()))
            &&& p < 0 ==> !blocked(doc, keys)
        }),
{
    let m = doc->Mapping_0;
    let p = key_position(m, NodeView::Str(keys[0]));
    let rest = keys.drop_first();
    assert forall|j: int| 1 <= j <= keys.len() implies lookup(doc, keys.take(j)) == (if p >= 0 {
        lookup(m[p].1, rest.take(j - 1))
    } else {
        Err((PathErrorKind::NotFound, keys[0]))
    }) by {
        assert(keys.take(j)[0] == keys[0]);
        assert(keys.take(j).drop_first() =~= rest.take(j - 1));
    }
    assert(keys.take(0) =~= Seq::<Seq<char>>::empty());
    assert(!blocked_at(doc, keys, 0));
    if p >= 0 {
        if blocked(doc, keys) {
            let j = choose|j: int| 0 <= j < keys.len() && #[trigger] blocked_at(doc, keys, j);
            assert(j >= 1);
            assert(blocked_at(m[p].1, rest, j - 1));
        }
        if blocked(m[p].1, rest) {
            let j = choose|j: int| 0 <= j < rest.len() && #[trigger] blocked_at(m[p].1, rest, j);
            assert(blocked_at(doc, keys, j + 1));
        }
    } else {
        if blocked(doc, keys) {
            let j = choose|j: int| 0 <= j < keys.len() && #[trigger] blocked_at(doc, keys, j);
            assert(j >= 1);
        }
    }
}

/// An assignment at a dotted path fails exactly when some value on the
/// path, the document itself included, is not a mapping; a missing key on
/// the way is created instead.
pub proof fn lemma_assign_fails_iff_blocked(doc: NodeView, keys: Seq<Seq<char>>, value: NodeView)
    requires
        keys.len() >= 1,
    ensures
        assigned(doc, keys, value) is Err <==> blocked(doc, keys),
    decreases keys.len(),
{
    if !(doc is Mapping) {
        assert(keys.take(0) =~= Seq::<Seq<char>>::empty());
        assert(blocked_at(doc, keys, 0));
    } else {
        lemma_blocked_below(doc, keys);
        if keys.len() > 1 {
            let m = doc->Mapping_0;
            let p = key_position(m, NodeView::Str(keys[0]));
            let rest = keys.drop_first();
            if p >= 0 {
                lemma_assign_fails_iff_blocked(m[p].1, rest, value);
            } else {
                let empty = NodeView::Mapping(Seq::empty());
                lemma_assign_fails_iff_blocked(empty, rest, value);
                assert(!blocked(empty, rest)) by {
                    if blocked(empty, rest) {
                        let j = choose|j: int| 0 <= j < rest.len() && #[trigger] blocked_at(
                            empty,
                            rest,
                            j,
                        );
                        if j == 0 {
                            assert(rest.take(0) =~= Seq::<Seq<char>>::empty());
                        } else {
                            assert(rest.take(j)[0] == rest[0]);
                            lemma_key_position_absent(Seq::empty(), NodeView::Str(rest[0]));
                        }
                    }
                }
            }
        } else {
            assert(!blocked(doc, keys)) by {
                if blocked(doc, keys) {
                    let j = choose|j: int| 0 <= j < keys.len() && #[trigger] blocked_at(doc, keys, j);
                    assert(keys.take(0) =~= Seq::<Seq<char>>::empty());
                }
            }
        }
    }
}

/// Whether two key paths part at some position, so that neither is a prefix
/// of the other.
pub open spec fn diverge(p: Seq<Seq<char>>, q: Seq<Seq<char>>) -> bool {
    exists|i: int| 0 <= i < p.len() && i < q.len() && #[trigger] p[i] != #[trigger] q[i]
}

proof fn lemma_diverge_rest(p: Seq<Seq<char>>, q: Seq<Seq<char>>)
    requires
        diverge(p, q),
        p[0] == q[0],
    ensures
        p.len() > 1,
        q.len() > 1,
        diverge(p.drop_first(), q.drop_first()),
{
    let i = choose|i: int| 0 <= i < p.len() && i < q.len() && #[trigger] p[i] != #[trigger] q[i];
    assert(i >= 1);
    assert(p.drop_first()[i - 1] != q.drop_first()[i - 1]);
}

proof fn lemma_swap_remove_other_key(m: Seq<(NodeView, NodeView)>, k: NodeView, kq: NodeView)
    requires
        unique_keys(m),
        k != kq,
    ensures
        ({
            let r = map_swap_remove(m, k);
            let a = key_position(m, kq);
            let b = key_position(r, kq);
            &&& a >= 0 <==> b >= 0
            &&& a >= 0 ==> r[b].1 == m[a].1
        }),
{
    let r = map_swap_remove(m, k);
    let pk = key_position(m, k);
    lemma_key_position(m, k);
    lemma_key_position(m, kq);
    let a = key_position(m, kq);
    if pk >= 0 {
        let last = m.len() - 1;
        if a < 0 {
            assert forall|j: int| 0 <= j < r.len() implies r[j].0 != kq by {
                if j == pk && pk != last {
                    assert(r[j] == m[last]);
                } else {
                    assert(r[j] == m[j]);
                }
            }
            lemma_key_position_absent(r, kq);
        } else if a == last {
            if pk == last {
                assert(m[pk].0 == k);
            }
            assert(r[pk] == m[last]);
            assert forall|j: int| 0 <= j < pk implies r[j].0 != kq by {
                assert(r[j] == m[j]);
            }
            lemma_key_position_unique(r, kq, pk);
        } else {
            assert(r[a] == m[a]);
            assert forall|j: int| 0 <= j < a implies r[j].0 != kq by {
                if j == pk {
                    assert(r[j] == m[last]);
                    assert(m[a].0 != m[last].0);
                } else {
                    assert(r[j] == m[j]);
                }
            }
            lemma_key_position_unique(r, kq, a);
        }
    }
}

/// An assignment leaves every path that parts from the assigned one as it
/// was: a value found there before is found there after, and one found
/// after was there before. (A lookup that failed may fail differently, where
/// the assignment created mappings.) A `Null` assignment is stated for
/// documents whose mappings have distinct keys.
pub proof fn lemma_assign_frame(
    doc: NodeView,
    p: Seq<Seq<char>>,
    q: Seq<Seq<char>>,
    value: NodeView,
)
    requires
        p.len() >= 1,
        assigned(doc, p, value) is Ok,
        diverge(p, q),
        value == NodeView::Null ==> well_keyed(doc),
    ensures
        (lookup(assigned(doc, p, value)->Ok_0, q) is Ok || lookup(doc, q) is Ok) ==> lookup(
            assigned(doc, p, value)->Ok_0,
            q,
        ) == lookup(doc, q),
    decreases p.len(),
{
    let m = doc->Mapping_0;
    let k = NodeView::Str(p[0]);
    let kq = NodeView::Str(q[0]);
    let pk = key_position(m, k);
    lemma_key_position(m, k);
    lemma_key_position(m, kq);
    let after = assigned(doc, p, value)->Ok_0;
    let m2 = after->Mapping_0;
    if p[0] != q[0] {
        if p.len() == 1 && value == NodeView::Null {
            lemma_swap_remove_other_key(m, k, kq);
        } else if pk >= 0 {
            lemma_key_position_same_keys(m2, m, kq);
            assert(m2.len() == m.len());
            if key_position(m, kq) >= 0 {
                assert(key_position(m, kq) != pk);
                assert(m2[key_position(m, kq)] == m[key_position(m, kq)]);
            }
        } else {
            lemma_key_position_push(m, m2.last(), kq);
            assert(m2 == m.push(m2.last()));
            if key_position(m, kq) >= 0 {
                assert(m2[key_position(m, kq)] == m[key_position(m, kq)]);
            }
        }
    } else {
        lemma_diverge_rest(p, q);
        let child = if pk >= 0 {
            m[pk].1
        } else {
            NodeView::Mapping(Seq::empty())
        };
        if pk >= 0 {
            assert(well_keyed(doc) ==> well_keyed(child));
        }
        let c = assigned(child, p.drop_first(), value)->Ok_0;
        lemma_assign_frame(child, p.drop_first(), q.drop_first(), value);
        if pk >= 0 {
            lemma_key_position_same_keys(m.update(pk, (m[pk].0, c)), m, k);
        } else {
            lemma_key_position_push(m, (k, c), k);
            let empty = NodeView::Mapping(Seq::empty());
            let rq = q.drop_first();
            assert(lookup(empty, rq) is Err) by {
                lemma_key_position_absent(Seq::empty(), NodeView::Str(rq[0]));
            }
        }
    }
}

/// Whether every entry of `m` holds a value whose mappings have distinct
/// keys, and `m`'s own keys are distinct.
pub open spec fn entries_well_keyed(m: Seq<(NodeView, NodeView)>) -> bool {
    unique_keys(m) && forall|i: int| 0 <= i < m.len() ==> well_keyed(#[trigger] m[i].1)
}

proof fn lemma_update_value_well_keyed(m: Seq<(NodeView, NodeView)>, p: int, v: NodeView)
    requires
        entries_well_keyed(m),
        0 <= p < m.len(),
        well_keyed(v),
    ensures
        entries_well_keyed(m.update(p, (m[p].0, v))),
{
    let r = m.update(p, (m[p].0, v));
    assert forall|i: int, j: int| 0 <= i < j < r.len() implies r[i].0 != r[j].0 by {
        assert(r[i].0 == m[i].0 && r[j].0 == m[j].0);
    }
    assert forall|i: int| 0 <= i < r.len() implies well_keyed(#[trigger] r[i].1) by {
        if i != p {
            assert(r[i] == m[i]);
        }
    }
}

proof fn lemma_push_new_key_well_keyed(m: Seq<(NodeView, NodeView)>, k: NodeView, v: NodeView)
    requires
        entries_well_keyed(m),
        key_position(m, k) < 0,
        well_keyed(v),
    ensures
        entries_well_keyed(m.push((k, v))),
{
    lemma_key_position(m, k);
    let r = m.push((k, v));
    assert forall|i: int, j: int| 0 <= i < j < r.len() implies r[i].0 != r[j].0 by {
        assert(r[i] == m[i]);
        if j < m.len() {
            assert(r[j] == m[j]);
        }
    }
    assert forall|i: int| 0 <= i < r.len() implies well_keyed(#[trigger] r[i].1) by {
        if i < m.len() {
            assert(r[i] == m[i]);
        }
    }
}

proof fn lemma_swap_remove_well_keyed(m: Seq<(NodeView, NodeView)>, k: NodeView)
    requires
        entries_well_keyed(m),
    ensures
        entries_well_keyed(map_swap_remove(m, k)),
{
    lemma_key_position(m, k);
    let p = key_position(m, k);
    let r = map_swap_remove(m, k);
    if p >= 0 {
        let last = m.len() - 1;
        // Each entry of the result is an entry of `m`, and distinct positions
        // of the result come from distinct positions of `m`.
        assert forall|i: int| 0 <= i < r.len() implies (#[trigger] r[i]) == m[if i == p {
            last
        } else {
            i
        }] by {}
        assert forall|i: int, j: int| 0 <= i < j < r.len() implies r[i].0 != r[j].0 by {
            let a = if i == p {
                last
            } else {
                i
            };
            let b = if j == p {
                last
            } else {
                j
            };
            assert(r[i] == m[a] && r[j] == m[b]);
            assert(a != b);
            if a < b {
                assert(m[a].0 != m[b].0);
            } else {
                assert(m[b].0 != m[a].0);
            }
        }
        assert forall|i: int| 0 <= i < r.len() implies well_keyed(#[trigger] r[i].1) by {
            if i == p {
                assert(r[i] == m[last]);
            } else {
                assert(r[i] == m[i]);
            }
        }
    }
}

proof fn lemma_merged_entries_well_keyed(
    d: Seq<(NodeView, NodeView)>,
    s: Seq<(NodeView, NodeView)>,
    n: nat,
)
    requires
        entries_well_keyed(d),
        forall|i: int| 0 <= i < s.len() ==> well_keyed(#[trigger] s[i].1),
    ensures
        entries_well_keyed(merged_entries(d, s, n)),
    decreases s, n,
{
    if n > 0 && n <= s.len() {
        lemma_merged_entries_well_keyed(d, s, (n - 1) as nat);
        let acc = merged_entries(d, s, (n - 1) as nat);
        let k = s[n - 1].0;
        let v = s[n - 1].1;
        assert(well_keyed(v));
        let p = key_position(acc, k);
        lemma_key_position(acc, k);
        if p >= 0 {
            assert(well_keyed(acc[p].1));
            assert(decreases_to!(s => s[n - 1]));
            lemma_merged_well_keyed(acc[p].1, v);
            lemma_update_value_well_keyed(acc, p, merged(acc[p].1, v));
        } else {
            lemma_merged_well_keyed(NodeView::Null, v);
            lemma_push_new_key_well_keyed(acc, k, merged(NodeView::Null, v));
        }
    }
}

/// Merging keeps mappings with distinct keys: when both documents' mappings
/// have distinct keys, so do the merged document's.
pub proof fn lemma_merged_well_keyed(dst: NodeView, src: NodeView)
    requires
        well_keyed(dst),
        well_keyed(src),
    ensures
        well_keyed(merged(dst, src)),
    decreases src, 0nat,
{
    if let NodeView::Mapping(s) = src {
        if let NodeView::Mapping(d) = dst {
            lemma_merged_entries_well_keyed(d, s, s.len());
        }
    }
}

/// Merging documents in turn into an empty mapping keeps distinct keys.
pub proof fn lemma_merge_all_well_keyed(docs: Seq<NodeView>)
    requires
        forall|i: int| 0 <= i < docs.len() ==> well_keyed(#[trigger] docs[i]),
    ensures
        well_keyed(crate::yaml::merge_all(docs)),
    decreases docs.len(),
{
    if docs.len() > 0 {
        assert forall|i: int| 0 <= i < docs.drop_last().len() implies well_keyed(
            #[trigger] docs.drop_last()[i],
        ) by {
            assert(docs.drop_last()[i] == docs[i]);
        }
        lemma_merge_all_well_keyed(docs.drop_last());
        assert(well_keyed(docs[docs.len() - 1]));
        lemma_merged_well_keyed(crate::yaml::merge_all(docs.drop_last()), docs.last());
    } else {
        assert(well_keyed(NodeView::Mapping(Seq::empty())));
    }
}

/// An assignment keeps mappings with distinct keys: when the document's and
/// the value's mappings have distinct keys, so do the result's.
pub proof fn lemma_assigned_well_keyed(cur: NodeView, keys: Seq<Seq<char>>, value: NodeView)
    requires
        well_keyed(cur),
        well_keyed(value),
        assigned(cur, keys, value) is Ok,
    ensures
        well_keyed(assigned(cur, keys, value)->Ok_0),
    decreases keys.len(),
{
    if keys.len() >= 1 {
        let m = cur->Mapping_0;
        let k = NodeView::Str(keys[0]);
        let p = key_position(m, k);
        lemma_key_position(m, k);
        assert(entries_well_keyed(m));
        if keys.len() == 1 {
            if value == NodeView::Null {
                lemma_swap_remove_well_keyed(m, k);
            } else if p >= 0 {
                lemma_update_value_well_keyed(m, p, value);
            } else {
                lemma_push_new_key_well_keyed(m, k, value);
            }
        } else {
            let child = if p >= 0 {
                m[p].1
            } else {
                NodeView::Mapping(Seq::empty())
            };
            let c = assigned(child, keys.drop_first(), value)->Ok_0;
            lemma_assigned_well_keyed(child, keys.drop_first(), value);
            if p >= 0 {
                lemma_update_value_well_keyed(m, p, c);
            } else {
                lemma_push_new_key_well_keyed(m, k, c);
            }
        }
    }
}

} // verus!
