//! `status`: list the network interfaces of the system, marking those the
//! configuration manages, as a table or as JSON.
//!
//! The caller lists the interfaces (`/sys/class/net`, each one's
//! `operstate`, and the output of `ip -j addr`); what is shown, and how, is
//! decided here.
use crate::config::maps::{
    bond_entries, bond_list, bridge_entries, bridge_list, ethernet_entries, ethernet_list,
    names_of, vlan_entries, vlan_list, wifi_entries, wifi_list,
};
use crate::config::types::NetworkConfig;
use crate::text::{
    concat_all, debug_each, debug_list_text, debug_quoted, debug_text, decimal, decimal_string,
    group_text, join_strings, lemma_concat_all_step, lemma_move_first, lemma_nothing_left, lemma_text_less_irreflexive,
    lemma_text_less_transitive, less_text, pad_left, pad_right, push_padded_left,
    push_padded_right, same_text, text_less, true_false, views,
};
use crate::yaml::{
    entries_view, find_str_key, key_position, lemma_key_position, lemma_mapping_view,
    lemma_sequence_view, nodes_view, untagged, Node, NodeView,
};
use vstd::prelude::*;

verus! {

/// Options of `status`.
pub struct StatusArgs {
    /// The root directory for the configuration.
    pub root_dir: Option<String>,
    /// Show all interfaces, the unmanaged ones too.
    pub all: bool,
    /// Also show each interface's addresses.
    pub verbose: bool,
    /// Output format: `json`, or a table for anything else.
    pub format: Option<String>,
    /// Show the difference between configuration and running state.
    pub diff: bool,
    /// Only show that difference.
    pub diff_only: bool,
    /// Only show this interface.
    pub interface: Option<String>,
}

/// A network interface of the system.
pub struct IfaceInfo {
    pub name: String,
    pub operstate: String,
    pub addresses: Vec<String>,
    pub managed: bool,
}

/// An interface as its name, state, addresses and whether it is managed.
pub struct IfaceView {
    pub name: Seq<char>,
    pub operstate: Seq<char>,
    pub addresses: Seq<Seq<char>>,
    pub managed: bool,
}

impl View for IfaceInfo {
    type V = IfaceView;

    open spec fn view(&self) -> IfaceView {
        IfaceView {
            name: self.name@,
            operstate: self.operstate@,
            addresses: views(self.addresses@),
            managed: self.managed,
        }
    }
}

/// The views of a list of interfaces.
pub open spec fn ifaces_view(s: Seq<IfaceInfo>) -> Seq<IfaceView> {
    s.map_values(|i: IfaceInfo| i@)
}

/// The names of the interfaces the configuration manages: its Ethernet,
/// Wi-Fi, bridge, bond and VLAN interfaces.
pub open spec fn managed_list(cfg: NetworkConfig) -> Seq<Seq<char>> {
    names_of(ethernet_entries(cfg.ethernets)) + names_of(wifi_entries(cfg.wifis)) + names_of(
        bridge_entries(cfg.bridges),
    ) + names_of(bond_entries(cfg.bonds)) + names_of(vlan_entries(cfg.vlans))
}

fn list_names<V>(list: &Vec<(&String, &V)>) -> (r: Vec<String>)
    ensures
        r@.len() == list@.len(),
        forall|i: int| 0 <= i < list@.len() ==> (#[trigger] r@[i])@ == list@[i].0@,
{
    let mut r: Vec<String> = Vec::new();
    let n = list.len();
    let mut i: usize = 0;
    while i < n
        invariant
            n == list@.len(),
            i <= n,
            r@.len() == i,
            forall|j: int| 0 <= j < i ==> (#[trigger] r@[j])@ == list@[j].0@,
        decreases n - i,
    {
        r.push(list[i].0.clone());
        i = i + 1;
    }
    r
}

proof fn lemma_views_append(a: Seq<String>, b: Seq<String>)
    ensures
        views(a + b) == views(a) + views(b),
{
    assert(views(a + b) =~= views(a) + views(b));
}

/// The names of the interfaces the configuration manages.
pub fn managed_names(cfg: &NetworkConfig) -> (r: Vec<String>)
    ensures
        views(r@) == managed_list(*cfg),
{
    let e = ethernet_list(&cfg.ethernets);
    let mut r = list_names(&e);
    assert(views(r@) =~= names_of(ethernet_entries(cfg.ethernets)));
    let w = wifi_list(&cfg.wifis);
    let mut more = list_names(&w);
    assert(views(more@) =~= names_of(wifi_entries(cfg.wifis)));
    let ghost before = r@;
    let ghost added = more@;
    r.append(&mut more);
    proof {
        lemma_views_append(before, added);
    }
    let b = bridge_list(&cfg.bridges);
    let mut more = list_names(&b);
    assert(views(more@) =~= names_of(bridge_entries(cfg.bridges)));
    let ghost before = r@;
    let ghost added = more@;
    r.append(&mut more);
    proof {
        lemma_views_append(before, added);
    }
    let o = bond_list(&cfg.bonds);
    let mut more = list_names(&o);
    assert(views(more@) =~= names_of(bond_entries(cfg.bonds)));
    let ghost before = r@;
    let ghost added = more@;
    r.append(&mut more);
    proof {
        lemma_views_append(before, added);
    }
    let v = vlan_list(&cfg.vlans);
    let mut more = list_names(&v);
    assert(views(more@) =~= names_of(vlan_entries(cfg.vlans)));
    let ghost before = r@;
    let ghost added = more@;
    r.append(&mut more);
    proof {
        lemma_views_append(before, added);
    }
    r
}

/// Whether `names` holds `name`.
pub fn contains_name(names: &Vec<String>, name: &str) -> (r: bool)
    ensures
        r == views(names@).contains(name@),
{
    let n = names.len();
    let mut i: usize = 0;
    while i < n
        invariant
            n == names@.len(),
            i <= n,
            forall|j: int| 0 <= j < i ==> names@[j]@ != name@,
        decreases n - i,
    {
        if same_text(names[i].as_str(), name) {
            assert(views(names@)[i as int] == name@);
            return true;
        }
        i = i + 1;
    }
    assert(!views(names@).contains(name@)) by {
        if views(names@).contains(name@) {
            let j = choose|j: int| 0 <= j < views(names@).len() && views(names@)[j] == name@;
            assert(names@[j]@ != name@);
        }
    }
    false
}

/// Whether `status` shows an interface once it is marked: the one asked
/// for; else every interface with `--all`, and the managed ones without it.
pub open spec fn shown(args: StatusArgs, i: IfaceView) -> bool {
    match args.interface {
        Some(f) => i.name == f@,
        None => args.all || i.managed,
    }
}

/// The test [`shown`] as a predicate.
pub open spec fn shown_by(args: StatusArgs) -> spec_fn(IfaceView) -> bool {
    |i: IfaceView| shown(args, i)
}

/// Keeps the interfaces `status` shows, in order.
pub fn select_interfaces(ifaces: Vec<IfaceInfo>, args: &StatusArgs) -> (r: Vec<IfaceInfo>)
    ensures
        ifaces_view(r@) == ifaces_view(ifaces@).filter(shown_by(*args)),
{
    let ghost all = ifaces@;
    let mut rest = ifaces;
    let mut kept: Vec<IfaceInfo> = Vec::new();
    let n = rest.len();
    let mut i: usize = 0;
    assert(all.skip(0) =~= all);
    while i < n
        invariant
            n == all.len(),
            i <= n,
            rest@ == all.skip(i as int),
            ifaces_view(kept@) == ifaces_view(all.take(i as int)).filter(shown_by(*args)),
        decreases n - i,
    {
        proof {
            ifaces_view(all.take(i as int)).lemma_filter_push(all[i as int]@, shown_by(*args));
            assert(ifaces_view(all.take(i as int)).push(all[i as int]@) =~= ifaces_view(
                all.take(i + 1),
            ));
        }
        assert(rest@[0] == all[i as int]);
        let item = rest.remove(0);
        assert(rest@ =~= all.skip(i + 1));
        let keep = match &args.interface {
            Some(f) => same_text(item.name.as_str(), f.as_str()),
            None => args.all || item.managed,
        };
        if keep {
            let ghost before = kept@;
            kept.push(item);
            assert(ifaces_view(kept@) =~= ifaces_view(before).push(item@));
        }
        i = i + 1;
    }
    assert(all.take(n as int) =~= all);
    kept
}

/// An interface marked managed when `names` holds its name, unmanaged else.
pub open spec fn marked(i: IfaceView, names: Seq<Seq<char>>) -> IfaceView {
    IfaceView {
        name: i.name,
        operstate: i.operstate,
        addresses: i.addresses,
        managed: names.contains(i.name),
    }
}

/// The marking [`marked`] as a function.
pub open spec fn marked_by(names: Seq<Seq<char>>) -> spec_fn(IfaceView) -> IfaceView {
    |i: IfaceView| marked(i, names)
}

/// Marks each interface managed or unmanaged by whether `names` holds its
/// name.
pub fn mark_managed(ifaces: Vec<IfaceInfo>, names: &Vec<String>) -> (r: Vec<IfaceInfo>)
    ensures
        ifaces_view(r@) == ifaces_view(ifaces@).map_values(marked_by(views(names@))),
{
    let ghost all = ifaces@;
    let mut rest = ifaces;
    let mut out: Vec<IfaceInfo> = Vec::new();
    let n = rest.len();
    let mut i: usize = 0;
    assert(all.skip(0) =~= all);
    while i < n
        invariant
            n == all.len(),
            i <= n,
            rest@ == all.skip(i as int),
            out@.len() == i,
            forall|j: int|
                0 <= j < i ==> (#[trigger] out@[j])@ == marked(all[j]@, views(names@)),
        decreases n - i,
    {
        assert(rest@[0] == all[i as int]);
        let item = rest.remove(0);
        assert(rest@ =~= all.skip(i + 1));
        let IfaceInfo { name, operstate, addresses, managed: _ } = item;
        let m = contains_name(names, name.as_str());
        out.push(IfaceInfo { name, operstate, addresses, managed: m });
        i = i + 1;
    }
    assert(ifaces_view(out@) =~= ifaces_view(all).map_values(marked_by(views(names@))));
    out
}

/// How the table marks an interface.
pub open spec fn managed_word(m: bool) -> Seq<char> {
    if m {
        "managed"@
    } else {
        "unmanaged"@
    }
}

/// One line per address, indented by two spaces.
pub open spec fn indented(addrs: Seq<Seq<char>>) -> Seq<char>
    decreases addrs.len(),
{
    if addrs.len() == 0 {
        Seq::empty()
    } else {
        indented(addrs.drop_last()) + "  "@ + addrs.last() + "\n"@
    }
}

/// The table row of an interface: the name left-aligned in 15 columns, the
/// state right-aligned in 10, whether it is managed; then, when verbose, its
/// addresses.
pub open spec fn table_row(i: IfaceView, verbose: bool) -> Seq<char> {
    pad_right(i.name, 15) + " "@ + pad_left(i.operstate, 10) + "  "@ + managed_word(i.managed)
        + "\n"@ + if verbose {
        indented(i.addresses)
    } else {
        Seq::empty()
    }
}

/// The rows of the table as a function of the interface.
pub open spec fn table_row_of(verbose: bool) -> spec_fn(IfaceView) -> Seq<char> {
    |i: IfaceView| table_row(i, verbose)
}

/// The table of the interfaces.
pub open spec fn table_text(ifaces: Seq<IfaceView>, verbose: bool) -> Seq<char> {
    concat_all(ifaces, table_row_of(verbose))
}

fn push_table_row(out: &mut String, i: &IfaceInfo, verbose: bool)
    ensures
        final(out)@ == old(out)@ + table_row(i@, verbose),
{
    broadcast use group_text;

    push_padded_right(out, i.name.as_str(), 15);
    out.append(" ");
    push_padded_left(out, i.operstate.as_str(), 10);
    out.append("  ");
    out.append(if i.managed {
        "managed"
    } else {
        "unmanaged"
    });
    out.append("\n");
    if verbose {
        let ghost start = out@;
        let ghost addrs = views(i.addresses@);
        let n = i.addresses.len();
        let mut k: usize = 0;
        while k < n
            invariant
                n == i.addresses@.len(),
                addrs == views(i.addresses@),
                k <= n,
                out@ == start + indented(addrs.take(k as int)),
            decreases n - k,
        {
            assert(addrs.take(k + 1).drop_last() =~= addrs.take(k as int));
            assert(addrs.take(k + 1).last() == i.addresses@[k as int]@);
            out.append("  ");
            out.append(i.addresses[k].as_str());
            out.append("\n");
            k = k + 1;
        }
        assert(addrs.take(n as int) =~= addrs);
    }
}

/// The table `status` prints.
pub fn print_table(ifaces: &Vec<IfaceInfo>, verbose: bool) -> (r: String)
    ensures
        r@ == table_text(ifaces_view(ifaces@), verbose),
{
    let ghost v = ifaces_view(ifaces@);
    let mut out = String::new();
    let n = ifaces.len();
    let mut k: usize = 0;
    while k < n
        invariant
            n == ifaces@.len(),
            v == ifaces_view(ifaces@),
            k <= n,
            out@ == concat_all(v.take(k as int), table_row_of(verbose)),
        decreases n - k,
    {
        proof {
            lemma_concat_all_step(v, table_row_of(verbose), k as int);
        }
        push_table_row(&mut out, &ifaces[k], verbose);
        k = k + 1;
    }
    assert(v.take(n as int) =~= v);
    out
}

/// The JSON line of one interface, from the `Debug` texts of its name, its
/// state and its addresses; all lines but the last end in a comma.
pub open spec fn json_entry_text(
    name_q: Seq<char>,
    state_q: Seq<char>,
    managed: bool,
    addrs_q: Seq<Seq<char>>,
    last: bool,
) -> Seq<char> {
    "  {\"name\":"@ + name_q + ",\"operstate\":"@ + state_q + ",\"managed\":"@ + true_false(managed)
        + ",\"addresses\":"@ + debug_list_text(addrs_q) + "}"@ + (if last {
        Seq::empty()
    } else {
        ","@
    }) + "\n"@
}

/// The JSON line of an interface.
pub open spec fn json_row(i: IfaceView, last: bool) -> Seq<char> {
    json_entry_text(
        debug_text(i.name),
        debug_text(i.operstate),
        i.managed,
        i.addresses.map_values(|a: Seq<char>| debug_text(a)),
        last,
    )
}

/// The JSON lines of the first `n` interfaces.
pub open spec fn json_rows(ifaces: Seq<IfaceView>, n: nat) -> Seq<char>
    decreases n,
{
    if n == 0 {
        Seq::empty()
    } else {
        json_rows(ifaces, (n - 1) as nat) + json_row(ifaces[n - 1], n == ifaces.len())
    }
}

/// The JSON array `status --format json` prints.
pub open spec fn json_text(ifaces: Seq<IfaceView>) -> Seq<char> {
    "[\n"@ + json_rows(ifaces, ifaces.len()) + "]\n"@
}

/// The JSON line of one interface, from the `Debug` texts of its name, its
/// state and its addresses.
pub fn json_entry(name_q: &str, state_q: &str, managed: bool, addrs_q: &Vec<String>, last: bool) -> (r:
    String)
    ensures
        r@ == json_entry_text(name_q@, state_q@, managed, views(addrs_q@), last),
{
    broadcast use group_text;

    let mut out = String::from_str("  {\"name\":");
    out.append(name_q);
    out.append(",\"operstate\":");
    out.append(state_q);
    out.append(",\"managed\":");
    out.append(if managed {
        "true"
    } else {
        "false"
    });
    out.append(",\"addresses\":");
    out.append("[");
    let j = join_strings(addrs_q, ", ");
    out.append(j.as_str());
    out.append("]");
    out.append("}");
    if !last {
        out.append(",");
    }
    out.append("\n");
    out
}

/// The JSON array of the interfaces.
pub fn print_json(ifaces: &Vec<IfaceInfo>) -> (r: String)
    ensures
        r@ == json_text(ifaces_view(ifaces@)),
{
    broadcast use group_text;

    let ghost v = ifaces_view(ifaces@);
    let mut out = String::from_str("[\n");
    let n = ifaces.len();
    let mut k: usize = 0;
    while k < n
        invariant
            n == ifaces@.len(),
            v == ifaces_view(ifaces@),
            v.len() == n,
            k <= n,
            out@ == "[\n"@ + json_rows(v, k as nat),
        decreases n - k,
    {
        let i = &ifaces[k];
        let name_q = debug_quoted(i.name.as_str());
        let state_q = debug_quoted(i.operstate.as_str());
        let addrs_q = debug_each(&i.addresses);
        assert(views(addrs_q@) == v[k as int].addresses.map_values(|a: Seq<char>| debug_text(a)));
        let line = json_entry(name_q.as_str(), state_q.as_str(), i.managed, &addrs_q, k + 1 == n);
        out.append(line.as_str());
        k = k + 1;
    }
    out.append("]\n");
    out
}

/// Whether the output format asked for is JSON.
pub open spec fn wants_json(format: Option<String>) -> bool {
    match format {
        Some(f) => f@ == "json"@,
        None => false,
    }
}

/// What `status` prints for the configuration `cfg` and the interfaces of
/// the system (as listed, sorted by name): each interface marked by whether
/// the configuration manages it, then those it shows, as JSON or as a
/// table.
pub open spec fn status_text(args: StatusArgs, cfg: NetworkConfig, ifaces: Seq<IfaceView>) -> Seq<
    char,
> {
    let listed = ifaces.map_values(marked_by(managed_list(cfg))).filter(shown_by(args));
    if wants_json(args.format) {
        json_text(listed)
    } else {
        table_text(listed, args.verbose)
    }
}

/// What `status` prints for the configuration `cfg` and the interfaces of
/// the system.
pub fn run(args: &StatusArgs, cfg: &NetworkConfig, ifaces: Vec<IfaceInfo>) -> (r: String)
    ensures
        r@ == status_text(*args, *cfg, ifaces_view(ifaces@)),
{
    let names = managed_names(cfg);
    let marked = mark_managed(ifaces, &names);
    let listed = select_interfaces(marked, args);
    let json = match &args.format {
        Some(f) => same_text(f.as_str(), "json"),
        None => false,
    };
    if json {
        print_json(&listed)
    } else {
        print_table(&listed, args.verbose)
    }
}

/// Whether interfaces are in the order of their names.
pub open spec fn sorted_by_name(s: Seq<IfaceInfo>) -> bool {
    forall|i: int, j: int|
        0 <= i < j < s.len() ==> !text_less((#[trigger] s[j]).name@, (#[trigger] s[i]).name@)
}

proof fn lemma_insert_sorted_by_name(s: Seq<IfaceInfo>, pos: int, x: IfaceInfo)
    requires
        sorted_by_name(s),
        0 <= pos <= s.len(),
        forall|j: int| 0 <= j < pos ==> !text_less(x.name@, (#[trigger] s[j]).name@),
        pos < s.len() ==> text_less(x.name@, s[pos].name@),
    ensures
        sorted_by_name(s.insert(pos, x)),
{
    let r = s.insert(pos, x);
    assert forall|j: int| pos <= j < s.len() implies !text_less((#[trigger] s[j]).name@, x.name@) by {
        if j > pos {
            assert(!text_less(s[j].name@, s[pos].name@));
        }
        if text_less(s[j].name@, x.name@) {
            lemma_text_less_transitive(s[j].name@, x.name@, s[pos].name@);
            if j == pos {
                lemma_text_less_irreflexive(s[j].name@);
            }
        }
    }
    assert forall|i: int, j: int| 0 <= i < j < r.len() implies !text_less(
        (#[trigger] r[j]).name@,
        (#[trigger] r[i]).name@,
    ) by {
        if i < pos && j < pos {
            assert(r[i] == s[i] && r[j] == s[j]);
        } else if i < pos && j == pos {
            assert(r[i] == s[i]);
        } else if i < pos {
            assert(r[i] == s[i] && r[j] == s[j - 1]);
        } else if i == pos {
            assert(r[j] == s[j - 1]);
        } else {
            assert(r[i] == s[i - 1] && r[j] == s[j - 1]);
        }
    }
}

/// Sorts interfaces by name.
pub fn sort_interfaces(v: Vec<IfaceInfo>) -> (r: Vec<IfaceInfo>)
    ensures
        sorted_by_name(r@),
        r@.to_multiset() == v@.to_multiset(),
{
    let ghost whole = v@.to_multiset();
    let mut rest = v;
    let mut r: Vec<IfaceInfo> = Vec::new();
    proof {
        lemma_nothing_left(rest@, Seq::<IfaceInfo>::empty());
    }
    while rest.len() > 0
        invariant
            sorted_by_name(r@),
            r@.to_multiset().add(rest@.to_multiset()) == whole,
        decreases rest.len(),
    {
        let ghost before_rest = rest@;
        let x = rest.remove(0);
        let mut pos: usize = 0;
        while pos < r.len() && !less_text(x.name.as_str(), r[pos].name.as_str())
            invariant
                pos <= r.len(),
                forall|j: int| 0 <= j < pos ==> !text_less(x.name@, (#[trigger] r@[j]).name@),
            decreases r.len() - pos,
        {
            pos = pos + 1;
        }
        proof {
            lemma_insert_sorted_by_name(r@, pos as int, x);
            lemma_move_first(r@, before_rest, pos as int);
        }
        r.insert(pos, x);
    }
    proof {
        lemma_nothing_left(r@, rest@);
    }
    r
}

/// The value under the string key `key` of a mapping, looking through tags
/// as `Value::get` does; `None` for other values or a missing key.
pub open spec fn str_entry(v: NodeView, key: Seq<char>) -> Option<NodeView> {
    match untagged(v) {
        NodeView::Mapping(m) => {
            let p = key_position(m, NodeView::Str(key));
            if p >= 0 {
                Some(m[p].1)
            } else {
                None
            }
        },
        _ => None,
    }
}

/// The string a value holds, looking through tags as `Value::as_str` does.
pub open spec fn text_value(v: Option<NodeView>) -> Option<Seq<char>> {
    match v {
        Some(x) => match untagged(x) {
            NodeView::Str(s) => Some(s),
            _ => None,
        },
        None => None,
    }
}

/// The non-negative integer a value holds, looking through tags as
/// `Value::as_u64` does.
pub open spec fn u64_value(v: Option<NodeView>) -> Option<u64> {
    match v {
        Some(x) => match untagged(x) {
            NodeView::PosInt(n) => Some(n),
            _ => None,
        },
        None => None,
    }
}

/// The address of an `addr_info` item: `local/prefixlen`, when it has both.
pub open spec fn address_of(a: NodeView) -> Option<Seq<char>> {
    match text_value(str_entry(a, "local"@)) {
        Some(l) => match u64_value(str_entry(a, "prefixlen"@)) {
            Some(p) => Some(l + "/"@ + decimal(p as nat)),
            None => None,
        },
        None => None,
    }
}

/// The addresses of the `addr_info` items that have one, in order.
pub open spec fn addresses_of(items: Seq<NodeView>) -> Seq<Seq<char>>
    decreases items.len(),
{
    if items.len() == 0 {
        Seq::empty()
    } else {
        let rest = addresses_of(items.drop_last());
        match address_of(items.last()) {
            Some(t) => rest.push(t),
            None => rest,
        }
    }
}

/// The addresses of the first record named `name` whose `addr_info` is a
/// sequence; none when there is no such record.
pub open spec fn interface_addresses(items: Seq<NodeView>, name: Seq<char>) -> Seq<Seq<char>>
    decreases items.len(),
{
    if items.len() == 0 {
        Seq::empty()
    } else {
        match named_addresses(items[0], name) {
            Some(a) => a,
            None => interface_addresses(items.drop_first(), name),
        }
    }
}

/// The addresses of interface `name` in the output of `ip -j addr`, which
/// is a sequence of interface records.
pub open spec fn extracted_addresses(ip_data: Option<NodeView>, name: Seq<char>) -> Seq<Seq<char>> {
    match ip_data {
        Some(d) => match d {
            NodeView::Sequence(items) => interface_addresses(items, name),
            _ => Seq::empty(),
        },
        None => Seq::empty(),
    }
}

fn untag_ref(n: &Node) -> (r: &Node)
    ensures
        r@ == untagged(n@),
    decreases n,
{
    match n {
        Node::Tagged(_, b) => untag_ref(b),
        _ => n,
    }
}

fn get_str_entry<'a>(v: &'a Node, key: &str) -> (r: Option<&'a Node>)
    ensures
        match r {
            Some(x) => str_entry(v@, key@) == Some(x@),
            None => str_entry(v@, key@) is None,
        },
{
    let u = untag_ref(v);
    match u {
        Node::Mapping(entries) => {
            proof {
                lemma_mapping_view(*entries);
                lemma_key_position(entries_view(entries@), NodeView::Str(key@));
            }
            match find_str_key(entries, key) {
                Some(p) => Some(&entries[p].1),
                None => None,
            }
        },
        _ => None,
    }
}

fn entry_text<'a>(v: &'a Node, key: &str) -> (r: Option<&'a str>)
    ensures
        match text_value(str_entry(v@, key@)) {
            Some(t) => r is Some && r->0@ == t,
            None => r is None,
        },
{
    match get_str_entry(v, key) {
        Some(x) => {
            let u = untag_ref(x);
            match u {
                Node::Str(s) => Some(s.as_str()),
                _ => None,
            }
        },
        None => None,
    }
}

fn entry_u64(v: &Node, key: &str) -> (r: Option<u64>)
    ensures
        r == u64_value(str_entry(v@, key@)),
{
    match get_str_entry(v, key) {
        Some(x) => {
            let u = untag_ref(x);
            match u {
                Node::PosInt(n) => Some(*n),
                _ => None,
            }
        },
        None => None,
    }
}

fn address_text(a: &Node) -> (r: Option<String>)
    ensures
        match address_of(a@) {
            Some(t) => r is Some && r->0@ == t,
            None => r is None,
        },
{
    let local = entry_text(a, "local");
    let prefix = entry_u64(a, "prefixlen");
    match local {
        Some(l) => match prefix {
            Some(p) => {
                let mut t = l.to_owned();
                t.append("/");
                let d = decimal_string(p);
                t.append(d.as_str());
                Some(t)
            },
            None => None,
        },
        None => None,
    }
}

fn addresses_in(items: &Vec<Node>) -> (r: Vec<String>)
    ensures
        views(r@) == addresses_of(nodes_view(items@)),
{
    let ghost v = nodes_view(items@);
    let mut r: Vec<String> = Vec::new();
    let n = items.len();
    let mut k: usize = 0;
    while k < n
        invariant
            n == items@.len(),
            v == nodes_view(items@),
            k <= n,
            views(r@) == addresses_of(v.take(k as int)),
        decreases n - k,
    {
        assert(v.take(k + 1).drop_last() =~= v.take(k as int));
        assert(v.take(k + 1).last() == items@[k as int]@);
        match address_text(&items[k]) {
            Some(t) => {
                let ghost before = r@;
                r.push(t);
                assert(views(r@) =~= views(before).push(t@));
            },
            None => {},
        }
        k = k + 1;
    }
    assert(v.take(n as int) =~= v);
    r
}

fn sequence_items(n: &Node) -> (r: Option<&Vec<Node>>)
    ensures
        match n@ {
            NodeView::Sequence(s) => r is Some && nodes_view(r->0@) == s,
            _ => r is None,
        },
{
    match n {
        Node::Sequence(items) => {
            proof {
                lemma_sequence_view(*items);
            }
            Some(items)
        },
        _ => None,
    }
}

/// The addresses an interface record lists, when it is named `name` and
/// its `addr_info` is a sequence.
pub open spec fn named_addresses(item: NodeView, name: Seq<char>) -> Option<Seq<Seq<char>>> {
    match str_entry(item, "addr_info"@) {
        Some(info) => match info {
            NodeView::Sequence(addrs) => if text_value(str_entry(item, "ifname"@)) == Some(name) {
                Some(addresses_of(addrs))
            } else {
                None
            },
            _ => None,
        },
        None => None,
    }
}

fn addresses_if_named(item: &Node, name: &str) -> (r: Option<Vec<String>>)
    ensures
        match named_addresses(item@, name@) {
            Some(a) => r is Some && views(r->0@) == a,
            None => r is None,
        },
{
    let info = get_str_entry(item, "addr_info");
    let addrs = match info {
        Some(x) => sequence_items(x),
        None => None,
    };
    match addrs {
        Some(list) => {
            let same = match entry_text(item, "ifname") {
                Some(s) => same_text(s, name),
                None => false,
            };
            if same {
                Some(addresses_in(list))
            } else {
                None
            }
        },
        None => None,
    }
}

/// The addresses of interface `name` in the output of `ip -j addr`, each as
/// `address/prefix length`.
pub fn extract_addresses(ip_data: &Option<Node>, name: &str) -> (r: Vec<String>)
    ensures
        views(r@) == extracted_addresses(
            match ip_data {
                Some(d) => Some(d@),
                None => None,
            },
            name@,
        ),
{
    let data = match ip_data {
        Some(d) => d,
        None => {
            return Vec::new();
        },
    };
    let items = match data {
        Node::Sequence(items) => items,
        _ => {
            return Vec::new();
        },
    };
    proof {
        lemma_sequence_view(*items);
    }
    let ghost v = nodes_view(items@);
    let ghost whole = extracted_addresses(
        match ip_data {
            Some(d) => Some(d@),
            None => None,
        },
        name@,
    );
    assert(whole == interface_addresses(v, name@));
    let n = items.len();
    let mut k: usize = 0;
    assert(v.skip(0) =~= v);
    while k < n
        invariant
            whole == interface_addresses(v, name@),
            whole == extracted_addresses(
                match ip_data {
                    Some(d) => Some(d@),
                    None => None,
                },
                name@,
            ),
            n == items@.len(),
            v == nodes_view(items@),
            k <= n,
            interface_addresses(v, name@) == interface_addresses(v.skip(k as int), name@),
        decreases n - k,
    {
        assert(v.skip(k as int)[0] == items@[k as int]@);
        assert(v.skip(k as int).drop_first() =~= v.skip(k + 1));
        match addresses_if_named(&items[k], name) {
            Some(found) => {
                return found;
            },
            None => {},
        }
        k = k + 1;
    }
    Vec::new()
}

} // verus!
