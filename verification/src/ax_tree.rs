//! Turning the flat node list of a browser accessibility tree into a
//! snapshot forest.
//!
//! Every node that is not ignored gets a reference id `ax<n>`, numbered on
//! from a counter that runs across frames. The forest is then grown from the
//! nodes that no other node lists as a child; each node id is placed at most
//! once, at its first visit.
use vstd::prelude::*;
use crate::snapshot::{flatten, node_view, forest_view, opt_view, pairs_view, NodeView, SnapshotNode};
use crate::text::{decimal, decimal_string, eq_str, lemma_decimal_injective};
use crate::types::strings_view;

verus! {

/// One accessibility node as the browser reports it, reduced to plain values.
pub struct AxNodeInfo {
    /// The node's id within its tree.
    pub node_id: String,
    /// Whether the browser marks the node as ignored.
    pub ignored: bool,
    /// The role, where its value is a string.
    pub role: Option<String>,
    /// The accessible name, where its value is a string.
    pub name: Option<String>,
    /// The description, where its value is a string.
    pub description: Option<String>,
    /// The value, where it is a string.
    pub value: Option<String>,
    /// The properties that carry a value, each value written out as text.
    pub properties: Vec<(String, String)>,
    /// The ids of the node's children.
    pub child_ids: Vec<String>,
    /// The DOM node behind this accessibility node, where there is one.
    pub backend_id: Option<i64>,
}

/// Mathematical model of an [`AxNodeInfo`].
pub struct AxView {
    pub node_id: Seq<char>,
    pub ignored: bool,
    pub role: Option<Seq<char>>,
    pub name: Option<Seq<char>>,
    pub description: Option<Seq<char>>,
    pub value: Option<Seq<char>>,
    pub properties: Seq<(Seq<char>, Seq<char>)>,
    pub child_ids: Seq<Seq<char>>,
    pub backend_id: Option<i64>,
}

impl View for AxNodeInfo {
    type V = AxView;

    open spec fn view(&self) -> AxView {
        AxView {
            node_id: self.node_id@,
            ignored: self.ignored,
            role: opt_view(self.role),
            name: opt_view(self.name),
            description: opt_view(self.description),
            value: opt_view(self.value),
            properties: pairs_view(self.properties@),
            child_ids: strings_view(self.child_ids@),
            backend_id: self.backend_id,
        }
    }
}

/// The models of a list of accessibility nodes.
pub open spec fn ax_views(v: Seq<AxNodeInfo>) -> Seq<AxView> {
    Seq::new(v.len(), |i: int| v[i]@)
}

/// The number of nodes among the first `k` that are not ignored.
pub open spec fn live_count(s: Seq<AxView>, k: int) -> nat
    decreases k,
{
    if k <= 0 {
        0
    } else {
        live_count(s, k - 1) + if s[k - 1].ignored {
            0nat
        } else {
            1nat
        }
    }
}

/// The number in the reference id of node `i`: the counter's start plus the
/// number of nodes up to and including `i` that are not ignored.
pub open spec fn ref_number(start: u32, s: Seq<AxView>, i: int) -> nat {
    start as nat + live_count(s, i + 1)
}

/// The reference id of node `i`.
pub open spec fn ax_ref(start: u32, s: Seq<AxView>, i: int) -> Seq<char> {
    "ax"@ + decimal(ref_number(start, s, i))
}

/// A text field as the snapshot keeps it: an empty string counts as absent.
pub open spec fn text_field(o: Option<Seq<char>>) -> Option<Seq<char>> {
    match o {
        Some(t) => if t.len() > 0 {
            Some(t)
        } else {
            None
        },
        None => None,
    }
}

/// Whether a property value is worth keeping as an attribute.
pub open spec fn keep_value(v: Seq<char>) -> bool {
    v.len() > 0 && v != "null"@ && v != "false"@
}

/// Whether a key occurs among a list of pairs.
pub open spec fn has_key(a: Seq<(Seq<char>, Seq<char>)>, k: Seq<char>) -> bool {
    exists|i: int| 0 <= i < a.len() && a[i].0 == k
}

/// The attributes made from the properties from index `i` on: each kept
/// property whose key no later kept property repeats (a later value
/// replaces an earlier one), in their order.
pub open spec fn kept_from(p: Seq<(Seq<char>, Seq<char>)>, i: int) -> Seq<(Seq<char>, Seq<char>)>
    decreases p.len() - i,
{
    if i < 0 || i >= p.len() {
        Seq::empty()
    } else {
        let rest = kept_from(p, i + 1);
        if keep_value(p[i].1) && !has_key(rest, p[i].0) {
            seq![p[i]] + rest
        } else {
            rest
        }
    }
}

/// The snapshot node made from accessibility node `i`, with the given children.
pub open spec fn ax_node_view(start: u32, s: Seq<AxView>, i: int, children: Seq<NodeView>) -> NodeView {
    NodeView {
        ref_id: ax_ref(start, s, i),
        role: match text_field(s[i].role) {
            Some(r) => r,
            None => "generic"@,
        },
        name: match text_field(s[i].name) {
            Some(n) => n,
            None => Seq::empty(),
        },
        value: text_field(s[i].value),
        description: text_field(s[i].description),
        attributes: kept_from(s[i].properties, 0),
        children,
    }
}

/// A text field with an empty string dropped.
fn text_of(o: &Option<String>) -> (r: Option<String>)
    ensures
        opt_view(r) == text_field(opt_view(*o)),
{
    match o {
        Some(t) => {
            if t.as_str().unicode_len() > 0 {
                Some(t.clone())
            } else {
                None
            }
        },
        None => None,
    }
}

/// Whether a property value is worth keeping as an attribute.
fn keep_value_exec(v: &String) -> (r: bool)
    ensures
        r == keep_value(v@),
{
    v.as_str().unicode_len() > 0 && !eq_str(v, "null") && !eq_str(v, "false")
}

/// Whether `k` occurs as a key in `a`.
fn has_key_exec(a: &Vec<(String, String)>, k: &String) -> (r: bool)
    ensures
        r == has_key(pairs_view(a@), k@),
{
    let ghost p = pairs_view(a@);
    let mut i: usize = 0;
    while i < a.len()
        invariant
            i <= a.len(),
            p == pairs_view(a@),
            forall|j: int| 0 <= j < i ==> p[j].0 != k@,
        decreases a.len() - i,
    {
        if a[i].0 == *k {
            assert(p[i as int].0 == k@);
            return true;
        }
        i = i + 1;
    }
    false
}

/// The attributes of a node: the properties with a value worth keeping,
/// a later property replacing an earlier one of the same name.
pub fn kept_properties(props: &Vec<(String, String)>) -> (r: Vec<(String, String)>)
    ensures
        pairs_view(r@) == kept_from(pairs_view(props@), 0),
{
    let ghost p = pairs_view(props@);
    let mut out: Vec<(String, String)> = Vec::new();
    let mut i: usize = props.len();
    while i > 0
        invariant
            i <= props.len(),
            p == pairs_view(props@),
            pairs_view(out@) == kept_from(p, i as int),
        decreases i,
    {
        i = i - 1;
        let keep = keep_value_exec(&props[i].1) && !has_key_exec(&out, &props[i].0);
        if keep {
            let ghost old_out = out@;
            let k = props[i].0.clone();
            let v = props[i].1.clone();
            out.insert(0, (k, v));
            proof {
                assert(pairs_view(out@) =~= seq![p[i as int]] + pairs_view(old_out));
            }
        }
    }
    out
}

/// The reference ids of the first `k` nodes paired with their DOM nodes:
/// one entry for each node that is not ignored and has a DOM node, in order.
pub open spec fn injections(start: u32, s: Seq<AxView>, k: int) -> Seq<(i64, Seq<char>)>
    decreases k,
{
    if k <= 0 {
        Seq::empty()
    } else {
        let before = injections(start, s, k - 1);
        match s[k - 1].backend_id {
            Some(b) => if !s[k - 1].ignored {
                before.push((b, ax_ref(start, s, k - 1)))
            } else {
                before
            },
            None => before,
        }
    }
}

/// The model of a list of (DOM node, reference id) pairs.
pub open spec fn injection_view(v: Seq<(i64, String)>) -> Seq<(i64, Seq<char>)> {
    Seq::new(v.len(), |i: int| (v[i].0, v[i].1@))
}

/// The count of nodes that are not ignored never falls as the prefix grows.
pub proof fn lemma_live_count_monotone(s: Seq<AxView>, i: int, k: int)
    requires
        0 <= i <= k,
    ensures
        live_count(s, i) <= live_count(s, k),
    decreases k - i,
{
    if i < k {
        lemma_live_count_monotone(s, i, k - 1);
    }
}

/// `ax<n>` for a counter value `n`.
fn ref_string(n: u32) -> (r: String)
    ensures
        r@ == "ax"@ + decimal(n as nat),
{
    let mut s = String::from_str("ax");
    let d = decimal_string(n as u64);
    s.append(d.as_str());
    s
}

/// The reference id of every node (for an ignored node, that of the node
/// before it), and the counter after the last node.
fn ref_ids(nodes: &Vec<AxNodeInfo>, start: u32) -> (r: (Vec<String>, u32))
    requires
        start + live_count(ax_views(nodes@), nodes.len() as int) <= u32::MAX,
    ensures
        r.0.len() == nodes.len(),
        forall|i: int| 0 <= i < nodes.len() ==> (#[trigger] r.0@[i])@ == ax_ref(start, ax_views(nodes@), i),
        r.1 == start + live_count(ax_views(nodes@), nodes.len() as int),
{
    let ghost s = ax_views(nodes@);
    let mut refs: Vec<String> = Vec::new();
    let mut counter: u32 = start;
    let mut i: usize = 0;
    while i < nodes.len()
        invariant
            i <= nodes.len(),
            s == ax_views(nodes@),
            start + live_count(s, nodes.len() as int) <= u32::MAX,
            counter == start + live_count(s, i as int),
            refs.len() == i,
            forall|j: int| 0 <= j < i ==> (#[trigger] refs@[j])@ == ax_ref(start, s, j),
        decreases nodes.len() - i,
    {
        proof {
            lemma_live_count_monotone(s, i + 1, nodes.len() as int);
            assert(s[i as int] == nodes@[i as int]@);
        }
        if !nodes[i].ignored {
            counter = counter + 1;
        }
        let r = ref_string(counter);
        refs.push(r);
        i = i + 1;
    }
    (refs, counter)
}

/// The DOM nodes that are to carry a reference id, each with that id: one
/// entry for each node that is not ignored and has a DOM node, in order.
pub fn ref_injections(nodes: &Vec<AxNodeInfo>, start_counter: u32) -> (r: Vec<(i64, String)>)
    requires
        start_counter + live_count(ax_views(nodes@), nodes.len() as int) <= u32::MAX,
    ensures
        injection_view(r@) == injections(start_counter, ax_views(nodes@), nodes.len() as int),
{
    let ghost s = ax_views(nodes@);
    let (refs, _) = ref_ids(nodes, start_counter);
    let mut out: Vec<(i64, String)> = Vec::new();
    let mut i: usize = 0;
    while i < nodes.len()
        invariant
            i <= nodes.len(),
            s == ax_views(nodes@),
            refs.len() == nodes.len(),
            forall|j: int| 0 <= j < nodes.len() ==> (#[trigger] refs@[j])@ == ax_ref(start_counter, s, j),
            injection_view(out@) == injections(start_counter, s, i as int),
        decreases nodes.len() - i,
    {
        proof {
            assert(s[i as int] == nodes@[i as int]@);
        }
        if !nodes[i].ignored {
            match nodes[i].backend_id {
                Some(b) => {
                    let ghost old_out = out@;
                    let id = refs[i].clone();
                    out.push((b, id));
                    proof {
                        assert(injection_view(out@) =~= injection_view(old_out).push(
                            (b, ax_ref(start_counter, s, i as int)),
                        ));
                    }
                },
                None => {},
            }
        }
        i = i + 1;
    }
    out
}

/// The index of the last node that is not ignored and has id `id`, among
/// the first `k`; -1 where there is none.
pub open spec fn last_live(s: Seq<AxView>, id: Seq<char>, k: int) -> int
    decreases k,
{
    if k <= 0 {
        -1
    } else if !s[k - 1].ignored && s[k - 1].node_id == id {
        k - 1
    } else {
        last_live(s, id, k - 1)
    }
}

/// The subtree grown from node id `id`, and the marks of the nodes placed
/// after it. The node that stands for an id is the last one with that id
/// that is not ignored; an id with no such node, or whose node is already
/// placed, gives no subtree. `fuel` bounds the depth.
pub open spec fn ax_subtree(
    start: u32,
    s: Seq<AxView>,
    id: Seq<char>,
    taken: Seq<bool>,
    fuel: nat,
) -> (Option<NodeView>, Seq<bool>)
    decreases fuel, 0int,
{
    let j = last_live(s, id, s.len() as int);
    if fuel == 0 || j < 0 || taken[j] {
        (None, taken)
    } else {
        let (kids, t) = ax_children(start, s, s[j].child_ids, 0, taken.update(j, true), (fuel - 1) as nat);
        (Some(ax_node_view(start, s, j, kids)), t)
    }
}

/// The subtrees grown from the child ids `cids[k..]`, in order, and the
/// marks after them.
pub open spec fn ax_children(
    start: u32,
    s: Seq<AxView>,
    cids: Seq<Seq<char>>,
    k: int,
    taken: Seq<bool>,
    fuel: nat,
) -> (Seq<NodeView>, Seq<bool>)
    decreases fuel, cids.len() + 1 - k,
{
    if k < 0 || k >= cids.len() {
        (Seq::empty(), taken)
    } else {
        let (c, t1) = ax_subtree(start, s, cids[k], taken, fuel);
        let (rest, t2) = ax_children(start, s, cids, k + 1, t1, fuel);
        (
            match c {
                Some(n) => seq![n] + rest,
                None => rest,
            },
            t2,
        )
    }
}

/// Whether some node that is not ignored lists `id` among its children.
pub open spec fn is_listed_child(s: Seq<AxView>, id: Seq<char>) -> bool {
    exists|i: int, c: int|
        0 <= i < s.len() && !s[i].ignored && 0 <= c < s[i].child_ids.len() && s[i].child_ids[c] == id
}

/// The trees grown from the roots among nodes `k..`: the nodes that are not
/// ignored and that no node lists as a child, in order.
pub open spec fn ax_roots(start: u32, s: Seq<AxView>, k: int, taken: Seq<bool>) -> (Seq<NodeView>, Seq<bool>)
    decreases s.len() - k,
{
    if k < 0 || k >= s.len() {
        (Seq::empty(), taken)
    } else if !s[k].ignored && !is_listed_child(s, s[k].node_id) {
        let (r, t1) = ax_subtree(start, s, s[k].node_id, taken, s.len() as nat);
        let (rest, t2) = ax_roots(start, s, k + 1, t1);
        (
            match r {
                Some(n) => seq![n] + rest,
                None => rest,
            },
            t2,
        )
    } else {
        ax_roots(start, s, k + 1, taken)
    }
}

/// No node placed yet.
pub open spec fn none_taken(n: nat) -> Seq<bool> {
    Seq::new(n, |i: int| false)
}

/// The snapshot forest of an accessibility tree whose reference ids count on
/// from `start`.
pub open spec fn ax_forest(start: u32, s: Seq<AxView>) -> Seq<NodeView> {
    ax_roots(start, s, 0, none_taken(s.len())).0
}

/// The model of an optional node.
pub open spec fn opt_node_view(o: Option<SnapshotNode>) -> Option<NodeView> {
    match o {
        Some(n) => Some(node_view(n)),
        None => None,
    }
}

/// The index of the last node with id `id` that is not ignored.
fn last_live_index(nodes: &Vec<AxNodeInfo>, id: &String) -> (r: Option<usize>)
    ensures
        match r {
            Some(j) => j == last_live(ax_views(nodes@), id@, nodes.len() as int) && j < nodes.len(),
            None => last_live(ax_views(nodes@), id@, nodes.len() as int) < 0,
        },
{
    let ghost s = ax_views(nodes@);
    let mut i: usize = nodes.len();
    while i > 0
        invariant
            i <= nodes.len(),
            s == ax_views(nodes@),
            last_live(s, id@, nodes.len() as int) == last_live(s, id@, i as int),
        decreases i,
    {
        i = i - 1;
        proof {
            assert(s[i as int] == nodes@[i as int]@);
        }
        if !nodes[i].ignored && nodes[i].node_id == *id {
            return Some(i);
        }
    }
    None
}

/// The snapshot node made from an accessibility node, its reference id and
/// its children.
fn make_node(node: &AxNodeInfo, ref_id: String, children: Vec<SnapshotNode>) -> (r: SnapshotNode)
    ensures
        r.ref_id@ == ref_id@,
        r.role@ == match text_field(node@.role) {
            Some(x) => x,
            None => "generic"@,
        },
        r.name@ == match text_field(node@.name) {
            Some(x) => x,
            None => Seq::<char>::empty(),
        },
        opt_view(r.value) == text_field(node@.value),
        opt_view(r.description) == text_field(node@.description),
        pairs_view(r.attributes@) == kept_from(node@.properties, 0),
        r.children@ == children@,
{
    let role = match text_of(&node.role) {
        Some(x) => x,
        None => String::from_str("generic"),
    };
    let name = match text_of(&node.name) {
        Some(x) => x,
        None => String::new(),
    };
    SnapshotNode {
        ref_id,
        role,
        name,
        value: text_of(&node.value),
        description: text_of(&node.description),
        attributes: kept_properties(&node.properties),
        children,
    }
}

/// Grows the subtree of node id `id`, marking the nodes it places.
fn build_subtree(
    nodes: &Vec<AxNodeInfo>,
    refs: &Vec<String>,
    id: &String,
    taken: &mut Vec<bool>,
    fuel: usize,
    Ghost(start): Ghost<u32>,
) -> (r: Option<SnapshotNode>)
    requires
        old(taken).len() == nodes.len(),
        refs.len() == nodes.len(),
        forall|i: int| 0 <= i < nodes.len() ==> (#[trigger] refs@[i])@ == ax_ref(start, ax_views(nodes@), i),
    ensures
        final(taken).len() == nodes.len(),
        (opt_node_view(r), final(taken)@) == ax_subtree(start, ax_views(nodes@), id@, old(taken)@, fuel as nat),
    decreases fuel, 0int,
{
    let ghost s = ax_views(nodes@);
    if fuel == 0 {
        return None;
    }
    match last_live_index(nodes, id) {
        None => None,
        Some(j) => {
            if taken[j] {
                return None;
            }
            taken.set(j, true);
            proof {
                assert(s[j as int] == nodes@[j as int]@);
                assert(s[j as int].child_ids == strings_view(nodes@[j as int].child_ids@));
            }
            let kids = build_children(nodes, refs, &nodes[j].child_ids, taken, fuel - 1, Ghost(start));
            let ghost kv = forest_view(kids@);
            let n = make_node(&nodes[j], refs[j].clone(), kids);
            proof {
                crate::snapshot::lemma_children_view(n);
                assert(node_view(n) == ax_node_view(start, s, j as int, kv));
            }
            Some(n)
        },
    }
}

/// Grows the subtrees of the child ids `cids`, in order.
fn build_children(
    nodes: &Vec<AxNodeInfo>,
    refs: &Vec<String>,
    cids: &Vec<String>,
    taken: &mut Vec<bool>,
    fuel: usize,
    Ghost(start): Ghost<u32>,
) -> (r: Vec<SnapshotNode>)
    requires
        old(taken).len() == nodes.len(),
        refs.len() == nodes.len(),
        forall|i: int| 0 <= i < nodes.len() ==> (#[trigger] refs@[i])@ == ax_ref(start, ax_views(nodes@), i),
    ensures
        final(taken).len() == nodes.len(),
        (forest_view(r@), final(taken)@) == ax_children(
            start,
            ax_views(nodes@),
            strings_view(cids@),
            0,
            old(taken)@,
            fuel as nat,
        ),
    decreases fuel, cids.len() + 1,
{
    let ghost s = ax_views(nodes@);
    let ghost c = strings_view(cids@);
    let ghost total = ax_children(start, s, c, 0, taken@, fuel as nat);
    let mut kids: Vec<SnapshotNode> = Vec::new();
    let mut k: usize = 0;
    while k < cids.len()
        invariant
            k <= cids.len(),
            s == ax_views(nodes@),
            c == strings_view(cids@),
            taken.len() == nodes.len(),
            refs.len() == nodes.len(),
            forall|i: int| 0 <= i < nodes.len() ==> (#[trigger] refs@[i])@ == ax_ref(start, s, i),
            total.0 == forest_view(kids@) + ax_children(start, s, c, k as int, taken@, fuel as nat).0,
            total.1 == ax_children(start, s, c, k as int, taken@, fuel as nat).1,
        decreases cids.len() - k,
    {
        let ghost before = taken@;
        let ghost old_kids = kids@;
        let child = build_subtree(nodes, refs, &cids[k], taken, fuel, Ghost(start));
        proof {
            assert(c[k as int] == cids@[k as int]@);
        }
        match child {
            Some(n) => {
                kids.push(n);
                proof {
                    assert(forest_view(kids@) =~= forest_view(old_kids).push(node_view(n)));
                    assert(forest_view(kids@) + ax_children(start, s, c, k + 1, taken@, fuel as nat).0
                        =~= forest_view(old_kids) + (seq![node_view(n)] + ax_children(
                        start,
                        s,
                        c,
                        k + 1,
                        taken@,
                        fuel as nat,
                    ).0));
                }
            },
            None => {},
        }
        k = k + 1;
    }
    proof {
        assert(forest_view(kids@) + Seq::<NodeView>::empty() =~= forest_view(kids@));
    }
    kids
}

/// Whether some node that is not ignored lists `id` among its children.
fn listed_child(nodes: &Vec<AxNodeInfo>, id: &String) -> (r: bool)
    ensures
        r == is_listed_child(ax_views(nodes@), id@),
{
    let ghost s = ax_views(nodes@);
    let mut i: usize = 0;
    while i < nodes.len()
        invariant
            i <= nodes.len(),
            s == ax_views(nodes@),
            forall|a: int, c: int|
                0 <= a < i && !s[a].ignored && 0 <= c < s[a].child_ids.len() ==> s[a].child_ids[c] != id@,
        decreases nodes.len() - i,
    {
        proof {
            assert(s[i as int] == nodes@[i as int]@);
        }
        if !nodes[i].ignored {
            let cids = &nodes[i].child_ids;
            let mut c: usize = 0;
            while c < cids.len()
                invariant
                    c <= cids.len(),
                    i < nodes.len(),
                    s == ax_views(nodes@),
                    !s[i as int].ignored,
                    cids == &nodes@[i as int].child_ids,
                    s[i as int].child_ids == strings_view(cids@),
                    forall|a: int, d: int|
                        0 <= a < i && !s[a].ignored && 0 <= d < s[a].child_ids.len() ==> s[a].child_ids[d] != id@,
                    forall|d: int| 0 <= d < c ==> s[i as int].child_ids[d] != id@,
                decreases cids.len() - c,
            {
                if cids[c] == *id {
                    assert(s[i as int].child_ids[c as int] == id@);
                    return true;
                }
                c = c + 1;
            }
        }
        i = i + 1;
    }
    false
}

/// Turns the nodes of one accessibility tree into a snapshot forest.
///
/// Every node that is not ignored gets the reference id `ax<n>`, numbering
/// on from `start_counter`; the counter after the last node comes back with
/// the forest. The forest is grown from the nodes that no node lists as a
/// child (see [`ax_forest`]).
pub fn process_ax_nodes(ax_nodes: &Vec<AxNodeInfo>, start_counter: u32) -> (r: (Vec<SnapshotNode>, u32))
    requires
        start_counter + live_count(ax_views(ax_nodes@), ax_nodes.len() as int) <= u32::MAX,
    ensures
        forest_view(r.0@) == ax_forest(start_counter, ax_views(ax_nodes@)),
        r.1 == start_counter + live_count(ax_views(ax_nodes@), ax_nodes.len() as int),
{
    let ghost s = ax_views(ax_nodes@);
    let ghost start = start_counter;
    let (refs, counter) = ref_ids(ax_nodes, start_counter);
    let n = ax_nodes.len();
    let mut taken: Vec<bool> = Vec::new();
    let mut i: usize = 0;
    while i < n
        invariant
            i <= n,
            n == ax_nodes.len(),
            taken@ == Seq::new(i as nat, |j: int| false),
        decreases n - i,
    {
        taken.push(false);
        proof {
            assert(taken@ =~= Seq::new((i + 1) as nat, |j: int| false));
        }
        i = i + 1;
    }
    assert(taken@ =~= none_taken(s.len()));
    let ghost total = ax_roots(start, s, 0, taken@);
    let mut roots: Vec<SnapshotNode> = Vec::new();
    let mut k: usize = 0;
    while k < n
        invariant
            k <= n,
            n == ax_nodes.len(),
            s == ax_views(ax_nodes@),
            taken.len() == n,
            refs.len() == n,
            forall|j: int| 0 <= j < n ==> (#[trigger] refs@[j])@ == ax_ref(start, s, j),
            total.0 == forest_view(roots@) + ax_roots(start, s, k as int, taken@).0,
            total.1 == ax_roots(start, s, k as int, taken@).1,
        decreases n - k,
    {
        proof {
            assert(s[k as int] == ax_nodes@[k as int]@);
        }
        if !ax_nodes[k].ignored && !listed_child(ax_nodes, &ax_nodes[k].node_id) {
            let ghost old_roots = roots@;
            let sub = build_subtree(ax_nodes, &refs, &ax_nodes[k].node_id, &mut taken, n, Ghost(start));
            match sub {
                Some(t) => {
                    roots.push(t);
                    proof {
                        assert(forest_view(roots@) =~= forest_view(old_roots).push(node_view(t)));
                        assert(forest_view(roots@) + ax_roots(start, s, k + 1, taken@).0
                            =~= forest_view(old_roots) + (seq![node_view(t)] + ax_roots(
                            start,
                            s,
                            k + 1,
                            taken@,
                        ).0));
                    }
                },
                None => {},
            }
        }
        k = k + 1;
    }
    proof {
        assert(forest_view(roots@) + Seq::<NodeView>::empty() =~= forest_view(roots@));
    }
    (roots, counter)
}

/// The nodes listed by an optional tree, in pre-order.
pub open spec fn opt_listing(o: Option<NodeView>) -> Seq<NodeView> {
    match o {
        Some(n) => flatten(seq![n]),
        None => Seq::empty(),
    }
}

/// What a step of the forest growing guarantees: the marks only grow; the
/// nodes it lists are the accessibility nodes `idx`, each not ignored,
/// unmarked before and marked after, none twice, and each carries the
/// reference id of its accessibility node.
pub open spec fn placed(
    start: u32,
    s: Seq<AxView>,
    before: Seq<bool>,
    after: Seq<bool>,
    listing: Seq<NodeView>,
    idx: Seq<int>,
) -> bool {
    &&& after.len() == before.len()
    &&& forall|i: int| 0 <= i < before.len() && #[trigger] before[i] ==> after[i]
    &&& idx.len() == listing.len()
    &&& idx.no_duplicates()
    &&& forall|m: int|
        0 <= m < idx.len() ==> {
            let j = #[trigger] idx[m];
            &&& 0 <= j < s.len()
            &&& !s[j].ignored
            &&& !before[j]
            &&& after[j]
            &&& listing[m] == ax_node_view(start, s, j, listing[m].children)
        }
}

/// The node that stands for an id is one with that id that is not ignored.
proof fn lemma_last_live(s: Seq<AxView>, id: Seq<char>, k: int)
    requires
        k <= s.len(),
    ensures
        -1 <= last_live(s, id, k) < k || (k <= 0 && last_live(s, id, k) == -1),
        last_live(s, id, k) >= 0 ==> !s[last_live(s, id, k)].ignored,
    decreases k,
{
    if k > 0 {
        lemma_last_live(s, id, k - 1);
    }
}

/// Growing a subtree places distinct, previously unplaced nodes.
proof fn lemma_subtree_placed(start: u32, s: Seq<AxView>, id: Seq<char>, taken: Seq<bool>, fuel: nat) -> (idx: Seq<int>)
    requires
        taken.len() == s.len(),
    ensures
        placed(
            start,
            s,
            taken,
            ax_subtree(start, s, id, taken, fuel).1,
            opt_listing(ax_subtree(start, s, id, taken, fuel).0),
            idx,
        ),
    decreases fuel, 0int,
{
    let j = last_live(s, id, s.len() as int);
    lemma_last_live(s, id, s.len() as int);
    if fuel == 0 || j < 0 || taken[j] {
        Seq::empty()
    } else {
        let t0 = taken.update(j, true);
        let (kids, t) = ax_children(start, s, s[j].child_ids, 0, t0, (fuel - 1) as nat);
        let ic = lemma_children_placed(start, s, s[j].child_ids, 0, t0, (fuel - 1) as nat);
        let n = ax_node_view(start, s, j, kids);
        crate::snapshot::lemma_flatten_single(n);
        let idx = seq![j] + ic;
        assert(opt_listing(Some(n)) == seq![n] + flatten(kids));
        assert forall|i: int| 0 <= i < taken.len() && #[trigger] taken[i] implies t[i] by {
            assert(t0[i]);
        }
        assert(t0[j]);
        assert forall|m: int| 0 <= m < idx.len() implies {
            let x = #[trigger] idx[m];
            &&& 0 <= x < s.len()
            &&& !s[x].ignored
            &&& !taken[x]
            &&& t[x]
            &&& opt_listing(Some(n))[m] == ax_node_view(start, s, x, opt_listing(Some(n))[m].children)
        } by {
            if m > 0 {
                let x = ic[m - 1];
                assert(idx[m] == x);
                assert((seq![n] + flatten(kids))[m] == flatten(kids)[m - 1]);
                assert(!t0[x]);
                assert(x != j);
                assert(t0[x] == taken[x]);
            } else {
                assert(idx[m] == j);
                assert(opt_listing(Some(n))[0] == n);
            }
        }
        assert forall|a: int, b: int| 0 <= a < idx.len() && 0 <= b < idx.len() && a != b implies idx[a]
            != idx[b] by {
            if a > 0 && b > 0 {
                assert(idx[a] == ic[a - 1]);
                assert(idx[b] == ic[b - 1]);
            } else if a == 0 {
                assert(idx[b] == ic[b - 1]);
                assert(!t0[ic[b - 1]]);
            } else {
                assert(idx[a] == ic[a - 1]);
                assert(!t0[ic[a - 1]]);
            }
        }
        idx
    }
}

/// Growing the subtrees of a list of child ids places distinct, previously
/// unplaced nodes.
proof fn lemma_children_placed(
    start: u32,
    s: Seq<AxView>,
    cids: Seq<Seq<char>>,
    k: int,
    taken: Seq<bool>,
    fuel: nat,
) -> (idx: Seq<int>)
    requires
        taken.len() == s.len(),
    ensures
        placed(
            start,
            s,
            taken,
            ax_children(start, s, cids, k, taken, fuel).1,
            flatten(ax_children(start, s, cids, k, taken, fuel).0),
            idx,
        ),
    decreases fuel, cids.len() + 1 - k,
{
    if k < 0 || k >= cids.len() {
        assert(flatten(Seq::<NodeView>::empty()) =~= Seq::<NodeView>::empty());
        Seq::empty()
    } else {
        let (c, t1) = ax_subtree(start, s, cids[k], taken, fuel);
        let i1 = lemma_subtree_placed(start, s, cids[k], taken, fuel);
        let (rest, t2) = ax_children(start, s, cids, k + 1, t1, fuel);
        let i2 = lemma_children_placed(start, s, cids, k + 1, t1, fuel);
        let whole = match c {
            Some(n) => seq![n] + rest,
            None => rest,
        };
        match c {
            Some(n) => {
                crate::snapshot::lemma_flatten_append(seq![n], rest);
            },
            None => {
                assert(Seq::<NodeView>::empty() + flatten(rest) =~= flatten(rest));
            },
        }
        assert(flatten(whole) == opt_listing(c) + flatten(rest));
        let l1 = opt_listing(c);
        let idx = i1 + i2;
        assert forall|m: int| 0 <= m < idx.len() implies {
            let x = #[trigger] idx[m];
            &&& 0 <= x < s.len()
            &&& !s[x].ignored
            &&& !taken[x]
            &&& t2[x]
            &&& flatten(whole)[m] == ax_node_view(start, s, x, flatten(whole)[m].children)
        } by {
            if m < i1.len() {
                assert(idx[m] == i1[m]);
                assert(flatten(whole)[m] == l1[m]);
                assert(t1[i1[m]]);
            } else {
                assert(idx[m] == i2[m - i1.len()]);
                assert(flatten(whole)[m] == flatten(rest)[m - i1.len()]);
                let x = i2[m - i1.len()];
                assert(!t1[x]);
                if taken[x] {
                    assert(t1[x]);
                }
            }
        }
        assert forall|a: int, b: int| 0 <= a < idx.len() && 0 <= b < idx.len() && a != b implies idx[a]
            != idx[b] by {
            if a < i1.len() && b < i1.len() {
                assert(idx[a] == i1[a] && idx[b] == i1[b]);
            } else if a >= i1.len() && b >= i1.len() {
                assert(idx[a] == i2[a - i1.len()] && idx[b] == i2[b - i1.len()]);
            } else if a < i1.len() {
                assert(idx[a] == i1[a] && idx[b] == i2[b - i1.len()]);
                assert(t1[i1[a]]);
                assert(!t1[i2[b - i1.len()]]);
            } else {
                assert(idx[b] == i1[b] && idx[a] == i2[a - i1.len()]);
                assert(t1[i1[b]]);
                assert(!t1[i2[a - i1.len()]]);
            }
        }
        idx
    }
}

/// Growing the trees of the roots from `k` on places distinct, previously
/// unplaced nodes.
proof fn lemma_roots_placed(start: u32, s: Seq<AxView>, k: int, taken: Seq<bool>) -> (idx: Seq<int>)
    requires
        taken.len() == s.len(),
    ensures
        placed(start, s, taken, ax_roots(start, s, k, taken).1, flatten(ax_roots(start, s, k, taken).0), idx),
    decreases s.len() - k,
{
    if k < 0 || k >= s.len() {
        assert(flatten(Seq::<NodeView>::empty()) =~= Seq::<NodeView>::empty());
        Seq::empty()
    } else if !s[k].ignored && !is_listed_child(s, s[k].node_id) {
        let (c, t1) = ax_subtree(start, s, s[k].node_id, taken, s.len() as nat);
        let i1 = lemma_subtree_placed(start, s, s[k].node_id, taken, s.len() as nat);
        let (rest, t2) = ax_roots(start, s, k + 1, t1);
        let i2 = lemma_roots_placed(start, s, k + 1, t1);
        let whole = match c {
            Some(n) => seq![n] + rest,
            None => rest,
        };
        match c {
            Some(n) => {
                crate::snapshot::lemma_flatten_append(seq![n], rest);
            },
            None => {
                assert(Seq::<NodeView>::empty() + flatten(rest) =~= flatten(rest));
            },
        }
        assert(flatten(whole) == opt_listing(c) + flatten(rest));
        let l1 = opt_listing(c);
        let idx = i1 + i2;
        assert forall|m: int| 0 <= m < idx.len() implies {
            let x = #[trigger] idx[m];
            &&& 0 <= x < s.len()
            &&& !s[x].ignored
            &&& !taken[x]
            &&& t2[x]
            &&& flatten(whole)[m] == ax_node_view(start, s, x, flatten(whole)[m].children)
        } by {
            if m < i1.len() {
                assert(idx[m] == i1[m]);
                assert(flatten(whole)[m] == l1[m]);
                assert(t1[i1[m]]);
            } else {
                assert(idx[m] == i2[m - i1.len()]);
                assert(flatten(whole)[m] == flatten(rest)[m - i1.len()]);
                let x = i2[m - i1.len()];
                assert(!t1[x]);
                if taken[x] {
                    assert(t1[x]);
                }
            }
        }
        assert forall|a: int, b: int| 0 <= a < idx.len() && 0 <= b < idx.len() && a != b implies idx[a]
            != idx[b] by {
            if a < i1.len() && b < i1.len() {
                assert(idx[a] == i1[a] && idx[b] == i1[b]);
            } else if a >= i1.len() && b >= i1.len() {
                assert(idx[a] == i2[a - i1.len()] && idx[b] == i2[b - i1.len()]);
            } else if a < i1.len() {
                assert(idx[a] == i1[a] && idx[b] == i2[b - i1.len()]);
                assert(t1[i1[a]]);
                assert(!t1[i2[b - i1.len()]]);
            } else {
                assert(idx[b] == i1[b] && idx[a] == i2[a - i1.len()]);
                assert(t1[i1[b]]);
                assert(!t1[i2[a - i1.len()]]);
            }
        }
        idx
    } else {
        lemma_roots_placed(start, s, k + 1, taken)
    }
}

/// Distinct nodes that are not ignored get distinct reference ids.
proof fn lemma_ax_ref_distinct(start: u32, s: Seq<AxView>, a: int, b: int)
    requires
        0 <= a < b < s.len(),
        !s[b].ignored,
    ensures
        ax_ref(start, s, a) != ax_ref(start, s, b),
{
    lemma_live_count_monotone(s, a + 1, b);
    assert(live_count(s, b + 1) == live_count(s, b) + 1);
    if ax_ref(start, s, a) == ax_ref(start, s, b) {
        reveal_strlit("ax");
        assert(decimal(ref_number(start, s, a)) =~= ax_ref(start, s, a).skip(2));
        assert(decimal(ref_number(start, s, b)) =~= ax_ref(start, s, b).skip(2));
        lemma_decimal_injective(ref_number(start, s, a), ref_number(start, s, b));
    }
}

/// No two nodes of the snapshot forest of an accessibility tree share a
/// reference id, and each carries the reference id of a distinct node of
/// the tree that is not ignored.
pub proof fn law_ax_refs_unique(start: u32, s: Seq<AxView>)
    ensures
        forall|a: int, b: int|
            0 <= a < b < flatten(ax_forest(start, s)).len() ==> (#[trigger] flatten(ax_forest(start, s))[a]).ref_id
                != (#[trigger] flatten(ax_forest(start, s))[b]).ref_id,
        forall|m: int|
            0 <= m < flatten(ax_forest(start, s)).len() ==> exists|j: int|
                0 <= j < s.len() && !s[j].ignored && (#[trigger] flatten(ax_forest(start, s))[m]).ref_id
                    == #[trigger] ax_ref(start, s, j),
{
    let idx = lemma_roots_placed(start, s, 0, none_taken(s.len()));
    let l = flatten(ax_forest(start, s));
    assert forall|a: int, b: int| 0 <= a < b < l.len() implies l[a].ref_id != l[b].ref_id by {
        let x = idx[a];
        let y = idx[b];
        assert(x != y);
        if x < y {
            lemma_ax_ref_distinct(start, s, x, y);
        } else {
            lemma_ax_ref_distinct(start, s, y, x);
        }
    }
    assert forall|m: int| 0 <= m < l.len() implies exists|j: int|
        0 <= j < s.len() && !s[j].ignored && (#[trigger] l[m]).ref_id == #[trigger] ax_ref(start, s, j) by {
        let j = idx[m];
        assert(0 <= j < s.len() && !s[j].ignored && l[m] == ax_node_view(start, s, j, l[m].children));
    }
}

/// The number of nodes not placed yet.
pub open spec fn unplaced(t: Seq<bool>) -> nat
    decreases t.len(),
{
    if t.len() == 0 {
        0
    } else {
        unplaced(t.drop_last()) + (if t.last() {
            0nat
        } else {
            1nat
        })
    }
}

/// Placing a node leaves one node fewer to place.
proof fn lemma_unplaced_update(t: Seq<bool>, j: int)
    requires
        0 <= j < t.len(),
        !t[j],
    ensures
        unplaced(t.update(j, true)) + 1 == unplaced(t),
    decreases t.len(),
{
    let u = t.update(j, true);
    if j == t.len() - 1 {
        assert(u.drop_last() =~= t.drop_last());
    } else {
        lemma_unplaced_update(t.drop_last(), j);
        assert(u.drop_last() =~= t.drop_last().update(j, true));
    }
}

/// Placing more nodes never leaves more to place.
proof fn lemma_unplaced_monotone(a: Seq<bool>, b: Seq<bool>)
    requires
        a.len() == b.len(),
        forall|i: int| 0 <= i < a.len() && #[trigger] a[i] ==> b[i],
    ensures
        unplaced(b) <= unplaced(a),
    decreases a.len(),
{
    if a.len() > 0 {
        let a2 = a.drop_last();
        let b2 = b.drop_last();
        assert forall|i: int| 0 <= i < a2.len() && #[trigger] a2[i] implies b2[i] by {
            assert(a[i] == a2[i]);
        }
        lemma_unplaced_monotone(a2, b2);
        assert(a.last() ==> b.last()) by {
            assert(a[a.len() - 1] == a.last());
        }
    }
}

/// At most every node is left to place.
proof fn lemma_unplaced_bound(t: Seq<bool>)
    ensures
        unplaced(t) <= t.len(),
    decreases t.len(),
{
    if t.len() > 0 {
        lemma_unplaced_bound(t.drop_last());
    }
}

/// One more unit of depth does not change a subtree when the depth covers
/// the nodes left to place.
proof fn lemma_subtree_fuel(start: u32, s: Seq<AxView>, id: Seq<char>, taken: Seq<bool>, fuel: nat)
    requires
        taken.len() == s.len(),
        fuel >= unplaced(taken),
    ensures
        ax_subtree(start, s, id, taken, fuel) == ax_subtree(start, s, id, taken, fuel + 1),
    decreases fuel, 0int,
{
    let j = last_live(s, id, s.len() as int);
    lemma_last_live(s, id, s.len() as int);
    if j >= 0 && !taken[j] {
        lemma_unplaced_update(taken, j);
        let t0 = taken.update(j, true);
        lemma_children_fuel(start, s, s[j].child_ids, 0, t0, (fuel - 1) as nat);
        assert((fuel + 1 - 1) as nat == ((fuel - 1) as nat + 1) as nat);
    }
}

/// One more unit of depth does not change a list of subtrees when the depth
/// covers the nodes left to place.
proof fn lemma_children_fuel(
    start: u32,
    s: Seq<AxView>,
    cids: Seq<Seq<char>>,
    k: int,
    taken: Seq<bool>,
    fuel: nat,
)
    requires
        taken.len() == s.len(),
        fuel >= unplaced(taken),
    ensures
        ax_children(start, s, cids, k, taken, fuel) == ax_children(start, s, cids, k, taken, fuel + 1),
    decreases fuel, cids.len() + 1 - k,
{
    if 0 <= k < cids.len() {
        lemma_subtree_fuel(start, s, cids[k], taken, fuel);
        let t1 = ax_subtree(start, s, cids[k], taken, fuel).1;
        let _ = lemma_subtree_placed(start, s, cids[k], taken, fuel);
        lemma_unplaced_monotone(taken, t1);
        lemma_children_fuel(start, s, cids, k + 1, t1, fuel);
    }
}

/// Building a tree never runs out of depth: with at least as much depth as
/// there are nodes left to place, any more depth gives the same subtree and
/// marks. (Each level places a node that was not placed before, so the
/// number of nodes bounds the depth the roots are grown with.)
pub proof fn law_tree_depth_never_binds(
    start: u32,
    s: Seq<AxView>,
    id: Seq<char>,
    taken: Seq<bool>,
    fuel: nat,
    more: nat,
)
    requires
        taken.len() == s.len(),
        fuel >= unplaced(taken),
    ensures
        ax_subtree(start, s, id, taken, fuel) == ax_subtree(start, s, id, taken, fuel + more),
        unplaced(taken) <= s.len(),
    decreases more,
{
    lemma_unplaced_bound(taken);
    if more > 0 {
        law_tree_depth_never_binds(start, s, id, taken, fuel, (more - 1) as nat);
        lemma_subtree_fuel(start, s, id, taken, fuel + (more - 1) as nat);
        assert(fuel + (more - 1) as nat + 1 == fuel + more);
    }
}

} // verus!

verus! {

/// Every attribute made from a list of properties has a value worth keeping.
proof fn lemma_kept_values(p: Seq<(Seq<char>, Seq<char>)>, i: int)
    ensures
        forall|a: int| 0 <= a < kept_from(p, i).len() ==> keep_value(#[trigger] kept_from(p, i)[a].1),
    decreases p.len() - i,
{
    if i >= 0 && i < p.len() {
        lemma_kept_values(p, i + 1);
        let rest = kept_from(p, i + 1);
        if keep_value(p[i].1) && !has_key(rest, p[i].0) {
            assert forall|a: int| 0 <= a < kept_from(p, i).len() implies keep_value(
                #[trigger] kept_from(p, i)[a].1,
            ) by {
                if a > 0 {
                    assert(kept_from(p, i)[a] == rest[a - 1]);
                }
            }
        }
    }
}

/// Each node of the snapshot forest of an accessibility tree is made from
/// its own accessibility node that is not ignored, no node twice: its
/// reference id is `ax` and the counter's start plus the number of nodes up
/// to and including that one that are not ignored, its role is the node's
/// role (`generic` where it has none), and its attributes hold no empty,
/// `null` or `false` value.
pub proof fn law_ax_nodes_from_live_inputs(start: u32, s: Seq<AxView>)
    ensures
        exists|idx: Seq<int>|
            {
                &&& idx.len() == flatten(ax_forest(start, s)).len()
                &&& idx.no_duplicates()
                &&& forall|m: int|
                    0 <= m < idx.len() ==> {
                        let j = #[trigger] idx[m];
                        let n = flatten(ax_forest(start, s))[m];
                        &&& 0 <= j < s.len()
                        &&& !s[j].ignored
                        &&& n.ref_id == "ax"@ + decimal(start as nat + live_count(s, j + 1))
                        &&& n.role == match text_field(s[j].role) {
                            Some(r) => r,
                            None => "generic"@,
                        }
                        &&& forall|a: int| 0 <= a < n.attributes.len() ==> keep_value(#[trigger] n.attributes[a].1)
                        &&& n == ax_node_view(start, s, j, n.children)
                    }
            },
{
    let idx = lemma_roots_placed(start, s, 0, none_taken(s.len()));
    let l = flatten(ax_forest(start, s));
    assert forall|m: int| 0 <= m < idx.len() implies {
        let j = #[trigger] idx[m];
        let n = l[m];
        &&& 0 <= j < s.len()
        &&& !s[j].ignored
        &&& n.ref_id == "ax"@ + decimal(start as nat + live_count(s, j + 1))
        &&& n.role == match text_field(s[j].role) {
            Some(r) => r,
            None => "generic"@,
        }
        &&& forall|a: int| 0 <= a < n.attributes.len() ==> keep_value(#[trigger] n.attributes[a].1)
        &&& n == ax_node_view(start, s, j, n.children)
    } by {
        let j = idx[m];
        lemma_kept_values(s[j].properties, 0);
    }
}

} // verus!
