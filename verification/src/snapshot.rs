//! Accessibility snapshot trees and the algorithms that search, shrink,
//! compare and render them.
//!
//! A snapshot is a forest of [`SnapshotNode`]s. Its mathematical model is a
//! forest of [`NodeView`]s, and most contracts speak of the pre-order
//! listing of that forest, [`flatten`].
use vstd::prelude::*;
use crate::text::{
    ascii_lower, contains_chars, contains_seq, decimal, decimal_string, eq_str, lemma_limited_append,
    lemma_limited_full, limited, lower_chars, push_char, str_eq,
};

verus! {

/// A node of the accessibility tree.
pub struct SnapshotNode {
    /// Stable reference id, such as `ax1` or `e5`.
    pub ref_id: String,
    /// Accessibility role, such as `button` or `link`.
    pub role: String,
    /// Accessibility name.
    pub name: String,
    /// Element value (for example the content of an input).
    pub value: Option<String>,
    /// Description text.
    pub description: Option<String>,
    /// State attributes (checked, expanded, disabled, ...) as key/value pairs.
    pub attributes: Vec<(String, String)>,
    /// Child nodes.
    pub children: Vec<SnapshotNode>,
}

/// Mathematical model of a [`SnapshotNode`].
pub struct NodeView {
    pub ref_id: Seq<char>,
    pub role: Seq<char>,
    pub name: Seq<char>,
    pub value: Option<Seq<char>>,
    pub description: Option<Seq<char>>,
    pub attributes: Seq<(Seq<char>, Seq<char>)>,
    pub children: Seq<NodeView>,
}

/// The view of an optional string.
pub open spec fn opt_view(o: Option<String>) -> Option<Seq<char>> {
    match o {
        Some(s) => Some(s@),
        None => None,
    }
}

/// The view of a list of string pairs.
pub open spec fn pairs_view(v: Seq<(String, String)>) -> Seq<(Seq<char>, Seq<char>)> {
    Seq::new(v.len(), |i: int| (v[i].0@, v[i].1@))
}

/// The model of one node, with the models of its children.
pub open spec fn node_view(n: SnapshotNode) -> NodeView
    decreases n,
{
    NodeView {
        ref_id: n.ref_id@,
        role: n.role@,
        name: n.name@,
        value: opt_view(n.value),
        description: opt_view(n.description),
        attributes: pairs_view(n.attributes@),
        children: Seq::new(
            n.children@.len(),
            |i: int|
                if 0 <= i < n.children@.len() {
                    node_view(n.children@[i])
                } else {
                    arbitrary()
                },
        ),
    }
}

/// The model of a list of nodes.
pub open spec fn forest_view(f: Seq<SnapshotNode>) -> Seq<NodeView> {
    Seq::new(f.len(), |i: int| node_view(f[i]))
}

impl View for SnapshotNode {
    type V = NodeView;

    open spec fn view(&self) -> NodeView {
        node_view(*self)
    }
}

/// The children of a node, as a forest model.
pub proof fn lemma_children_view(n: SnapshotNode)
    ensures
        node_view(n).children == forest_view(n.children@),
{
    assert(node_view(n).children =~= forest_view(n.children@));
}

/// All nodes of a forest in pre-order: each node, then its descendants,
/// then its later siblings.
pub open spec fn flatten(f: Seq<NodeView>) -> Seq<NodeView>
    decreases f,
{
    if f.len() == 0 {
        Seq::empty()
    } else {
        flatten(f.drop_last()) + seq![f.last()] + flatten(f.last().children)
    }
}

/// The number of nodes of a forest, saturated at `usize::MAX`.
pub open spec fn node_count(f: Seq<NodeView>) -> nat {
    if flatten(f).len() <= usize::MAX {
        flatten(f).len()
    } else {
        usize::MAX as nat
    }
}

/// Appending a node to a forest appends it and its descendants to the listing.
pub proof fn lemma_flatten_push(f: Seq<NodeView>, n: NodeView)
    ensures
        flatten(f.push(n)) == flatten(f) + seq![n] + flatten(n.children),
{
    assert(f.push(n).drop_last() =~= f);
    assert(f.push(n).last() == n);
}

/// The listing of a concatenation is the concatenation of the listings.
pub proof fn lemma_flatten_append(a: Seq<NodeView>, b: Seq<NodeView>)
    ensures
        flatten(a + b) == flatten(a) + flatten(b),
    decreases b.len(),
{
    if b.len() == 0 {
        assert(a + b =~= a);
        assert(flatten(b) =~= Seq::<NodeView>::empty());
        assert(flatten(a) + flatten(b) =~= flatten(a));
    } else {
        let bl = b.drop_last();
        let n = b.last();
        assert(a + b =~= (a + bl).push(n));
        lemma_flatten_append(a, bl);
        lemma_flatten_push(a + bl, n);
        lemma_flatten_push(bl, n);
        assert(bl.push(n) =~= b);
        assert(flatten(a + b) =~= flatten(a) + flatten(b));
    }
}

/// The listing of a single node is the node followed by its descendants.
pub proof fn lemma_flatten_single(n: NodeView)
    ensures
        flatten(seq![n]) == seq![n] + flatten(n.children),
{
    lemma_flatten_push(Seq::empty(), n);
    assert(Seq::<NodeView>::empty().push(n) =~= seq![n]);
    assert(flatten(Seq::<NodeView>::empty()) =~= Seq::<NodeView>::empty());
    assert(Seq::<NodeView>::empty() + seq![n] =~= seq![n]);
}

/// The forest model of a prefix grows by one node model per step.
pub proof fn lemma_forest_take(f: Seq<SnapshotNode>, i: int)
    requires
        0 <= i < f.len(),
    ensures
        forest_view(f.take(i + 1)) == forest_view(f.take(i)).push(node_view(f[i])),
        forest_view(f.take(f.len() as int)) == forest_view(f),
{
    assert(forest_view(f.take(i + 1)) =~= forest_view(f.take(i)).push(node_view(f[i])));
    assert(f.take(f.len() as int) =~= f);
}

/// Clones an optional string.
pub fn clone_opt(o: &Option<String>) -> (r: Option<String>)
    ensures
        opt_view(r) == opt_view(*o),
{
    match o {
        Some(s) => Some(s.clone()),
        None => None,
    }
}

/// Clones a list of string pairs.
pub fn clone_pairs(v: &Vec<(String, String)>) -> (r: Vec<(String, String)>)
    ensures
        pairs_view(r@) == pairs_view(v@),
{
    let mut r: Vec<(String, String)> = Vec::new();
    let mut i: usize = 0;
    while i < v.len()
        invariant
            i <= v.len(),
            r@.len() == i,
            pairs_view(r@) == pairs_view(v@.take(i as int)),
        decreases v.len() - i,
    {
        let k = v[i].0.clone();
        let x = v[i].1.clone();
        let ghost old_r = r@;
        r.push((k, x));
        proof {
            assert(old_r.len() == i);
            assert(r@.len() == i + 1);
            assert(r@[i as int].0 == v@[i as int].0);
            assert(r@[i as int].1 == v@[i as int].1);
            assert forall|j: int| 0 <= j < i + 1 implies pairs_view(r@)[j] == pairs_view(
                v@.take(i + 1),
            )[j] by {
                if j < i {
                    assert(pairs_view(old_r)[j] == pairs_view(v@.take(i as int))[j]);
                    assert(r@[j] == old_r[j]);
                }
            }
            assert(pairs_view(r@) =~= pairs_view(v@.take(i + 1)));
        }
        i = i + 1;
    }
    proof {
        assert(v@.take(v@.len() as int) =~= v@);
    }
    r
}

impl SnapshotNode {
    /// A deep copy of this node and all its descendants.
    pub fn duplicate(&self) -> (r: SnapshotNode)
        ensures
            r@ == self@,
        decreases self,
    {
        let mut children: Vec<SnapshotNode> = Vec::new();
        let mut i: usize = 0;
        while i < self.children.len()
            invariant
                i <= self.children.len(),
                forest_view(children@) == forest_view(self.children@.take(i as int)),
            decreases self.children.len() - i,
        {
            proof {
                assert(decreases_to!(self => self.children@[i as int]));
            }
            let c = self.children[i].duplicate();
            children.push(c);
            proof {
                lemma_forest_take(self.children@, i as int);
                assert(forest_view(children@) =~= forest_view(self.children@.take(i as int)).push(
                    node_view(self.children@[i as int]),
                ));
            }
            i = i + 1;
        }
        let r = SnapshotNode {
            ref_id: self.ref_id.clone(),
            role: self.role.clone(),
            name: self.name.clone(),
            value: clone_opt(&self.value),
            description: clone_opt(&self.description),
            attributes: clone_pairs(&self.attributes),
            children,
        };
        proof {
            assert(self.children@.take(self.children@.len() as int) =~= self.children@);
            lemma_children_view(r);
            lemma_children_view(*self);
            assert(node_view(r) =~= node_view(*self));
        }
        r
    }
}

/// Deep copies of a list of nodes.
pub fn duplicate_nodes(nodes: &Vec<SnapshotNode>) -> (r: Vec<SnapshotNode>)
    ensures
        forest_view(r@) == forest_view(nodes@),
{
    let mut r: Vec<SnapshotNode> = Vec::new();
    let mut i: usize = 0;
    while i < nodes.len()
        invariant
            i <= nodes.len(),
            forest_view(r@) == forest_view(nodes@.take(i as int)),
        decreases nodes.len() - i,
    {
        let c = nodes[i].duplicate();
        r.push(c);
        proof {
            lemma_forest_take(nodes@, i as int);
            assert(forest_view(r@) =~= forest_view(nodes@.take(i as int)).push(
                node_view(nodes@[i as int]),
            ));
        }
        i = i + 1;
    }
    proof {
        assert(nodes@.take(nodes@.len() as int) =~= nodes@);
    }
    r
}

} // verus!

verus! {

/// The models of a list of node references.
pub open spec fn refs_view(s: Seq<&SnapshotNode>) -> Seq<NodeView> {
    Seq::new(s.len(), |i: int| node_view(*s[i]))
}

/// One step of a pre-order walk: the listing of the first `i + 1` nodes.
pub proof fn lemma_flatten_take_step(f: Seq<SnapshotNode>, i: int)
    requires
        0 <= i < f.len(),
    ensures
        flatten(forest_view(f.take(i + 1))) == flatten(forest_view(f.take(i))) + seq![
            node_view(f[i]),
        ] + flatten(forest_view(f[i].children@)),
{
    lemma_forest_take(f, i);
    lemma_flatten_push(forest_view(f.take(i)), node_view(f[i]));
    lemma_children_view(f[i]);
}

/// A forest of nothing lists nothing.
pub proof fn lemma_flatten_empty(f: Seq<SnapshotNode>)
    ensures
        flatten(forest_view(f.take(0))) == Seq::<NodeView>::empty(),
{
    assert(forest_view(f.take(0)) =~= Seq::<NodeView>::empty());
}

/// Counts all nodes of a forest (saturating at `usize::MAX`).
pub fn count_nodes(nodes: &[SnapshotNode]) -> (r: usize)
    ensures
        r == node_count(forest_view(nodes@)),
    decreases nodes@,
{
    let mut total: usize = 0;
    let mut i: usize = 0;
    proof {
        lemma_flatten_empty(nodes@);
    }
    while i < nodes.len()
        invariant
            i <= nodes.len(),
            total == node_count(forest_view(nodes@.take(i as int))),
        decreases nodes.len() - i,
    {
        proof {
            assert(decreases_to!(nodes@ => nodes@[i as int].children@));
        }
        let c = count_nodes(nodes[i].children.as_slice());
        total = total.saturating_add(1).saturating_add(c);
        proof {
            lemma_flatten_take_step(nodes@, i as int);
        }
        i = i + 1;
    }
    proof {
        lemma_forest_take_all(nodes@);
    }
    total
}

/// The prefix of the whole length is the whole forest.
pub proof fn lemma_forest_take_all(f: Seq<SnapshotNode>)
    ensures
        forest_view(f.take(f.len() as int)) == forest_view(f),
{
    assert(f.take(f.len() as int) =~= f);
}

/// Appends every node of a forest to `output`, in pre-order.
pub fn collect_snapshot_nodes<'a>(nodes: &'a [SnapshotNode], output: &mut Vec<&'a SnapshotNode>)
    ensures
        refs_view(final(output)@) == refs_view(old(output)@) + flatten(forest_view(nodes@)),
    decreases nodes@,
{
    let ghost start = refs_view(output@);
    let mut i: usize = 0;
    proof {
        lemma_flatten_empty(nodes@);
        assert(start + Seq::<NodeView>::empty() =~= start);
    }
    while i < nodes.len()
        invariant
            i <= nodes.len(),
            refs_view(output@) == start + flatten(forest_view(nodes@.take(i as int))),
        decreases nodes.len() - i,
    {
        let node = &nodes[i];
        let ghost before = refs_view(output@);
        output.push(node);
        proof {
            assert(refs_view(output@) =~= before + seq![node_view(*node)]);
            assert(decreases_to!(nodes@ => nodes@[i as int].children@));
        }
        collect_snapshot_nodes(node.children.as_slice(), output);
        proof {
            lemma_flatten_take_step(nodes@, i as int);
            assert(refs_view(output@) =~= start + flatten(forest_view(nodes@.take(i + 1))));
        }
        i = i + 1;
    }
    proof {
        lemma_forest_take_all(nodes@);
    }
}

} // verus!

verus! {

/// Splitting a forest splits its listing.
pub proof fn lemma_flatten_split(f: Seq<SnapshotNode>, i: int)
    requires
        0 <= i <= f.len(),
    ensures
        flatten(forest_view(f)) == flatten(forest_view(f.take(i))) + flatten(
            forest_view(f.skip(i)),
        ),
{
    assert(forest_view(f) =~= forest_view(f.take(i)) + forest_view(f.skip(i)));
    lemma_flatten_append(forest_view(f.take(i)), forest_view(f.skip(i)));
}

/// Some node of the forest carries the reference id `id`.
pub open spec fn has_ref(f: Seq<NodeView>, id: Seq<char>) -> bool {
    exists|k: int| 0 <= k < flatten(f).len() && flatten(f)[k].ref_id == id
}

/// `k` is the first position of the listing `flat` whose node carries `id`.
pub open spec fn is_first_ref(flat: Seq<NodeView>, id: Seq<char>, k: int) -> bool {
    &&& 0 <= k < flat.len()
    &&& flat[k].ref_id == id
    &&& forall|j: int| 0 <= j < k ==> flat[j].ref_id != id
}

/// Finds the first node, in pre-order, whose reference id is `ref_id`.
pub fn find_node_by_ref<'a>(nodes: &'a [SnapshotNode], ref_id: &str) -> (r: Option<
    &'a SnapshotNode,
>)
    ensures
        match r {
            Some(n) => exists|k: int|
                is_first_ref(flatten(forest_view(nodes@)), ref_id@, k) && flatten(
                    forest_view(nodes@),
                )[k] == node_view(*n),
            None => !has_ref(forest_view(nodes@), ref_id@),
        },
    decreases nodes@,
{
    let mut i: usize = 0;
    proof {
        lemma_flatten_empty(nodes@);
    }
    while i < nodes.len()
        invariant
            i <= nodes.len(),
            forall|j: int|
                0 <= j < flatten(forest_view(nodes@.take(i as int))).len() ==> flatten(
                    forest_view(nodes@.take(i as int)),
                )[j].ref_id != ref_id@,
        decreases nodes.len() - i,
    {
        let node = &nodes[i];
        proof {
            lemma_flatten_take_step(nodes@, i as int);
            lemma_flatten_split(nodes@, i + 1);
        }
        let ghost pre = flatten(forest_view(nodes@.take(i as int)));
        let ghost whole = flatten(forest_view(nodes@));
        if str_eq(node.ref_id.as_str(), ref_id) {
            proof {
                assert(whole[pre.len() as int] == node_view(*node));
                assert(is_first_ref(whole, ref_id@, pre.len() as int));
            }
            return Some(node);
        }
        proof {
            assert(decreases_to!(nodes@ => nodes@[i as int].children@));
        }
        let found = find_node_by_ref(node.children.as_slice(), ref_id);
        match found {
            Some(n) => {
                proof {
                    let kids = flatten(forest_view(node.children@));
                    let k2 = choose|k2: int| is_first_ref(kids, ref_id@, k2) && kids[k2] == node_view(*n);
                    let k = pre.len() + 1 + k2;
                    assert(whole[k] == kids[k2]);
                    assert forall|j: int| 0 <= j < k implies whole[j].ref_id != ref_id@ by {
                        if j < pre.len() {
                            assert(whole[j] == pre[j]);
                        } else if j == pre.len() {
                            assert(whole[j] == node_view(*node));
                        } else {
                            assert(whole[j] == kids[j - pre.len() - 1]);
                        }
                    }
                    assert(is_first_ref(whole, ref_id@, k));
                }
                return Some(n);
            },
            None => {},
        }
        proof {
            let kids = flatten(forest_view(node.children@));
            let next = flatten(forest_view(nodes@.take(i + 1)));
            assert forall|j: int| 0 <= j < next.len() implies next[j].ref_id != ref_id@ by {
                if j < pre.len() {
                    assert(next[j] == pre[j]);
                } else if j == pre.len() {
                    assert(next[j] == node_view(*node));
                } else {
                    assert(next[j] == kids[j - pre.len() - 1]);
                }
            }
        }
        i = i + 1;
    }
    proof {
        lemma_forest_take_all(nodes@);
    }
    None
}

/// The listing nodes whose role is `role`.
pub open spec fn with_role(flat: Seq<NodeView>, role: Seq<char>) -> Seq<NodeView> {
    flat.filter(|n: NodeView| n.role == role)
}

fn collect_by_role<'a>(nodes: &'a [SnapshotNode], role: &str, out: &mut Vec<&'a SnapshotNode>)
    ensures
        refs_view(final(out)@) == refs_view(old(out)@) + with_role(flatten(forest_view(nodes@)), role@),
    decreases nodes@,
{
    broadcast use Seq::filter_distributes_over_add;

    let ghost start = refs_view(out@);
    let mut i: usize = 0;
    proof {
        lemma_flatten_empty(nodes@);
        assert(with_role(Seq::<NodeView>::empty(), role@) =~= Seq::<NodeView>::empty());
        assert(start + Seq::<NodeView>::empty() =~= start);
    }
    while i < nodes.len()
        invariant
            i <= nodes.len(),
            refs_view(out@) == start + with_role(flatten(forest_view(nodes@.take(i as int))), role@),
        decreases nodes.len() - i,
    {
        let node = &nodes[i];
        let ghost before = refs_view(out@);
        let ghost single = seq![node_view(*node)];
        if str_eq(node.role.as_str(), role) {
            out.push(node);
            proof {
                assert(refs_view(out@) =~= before + seq![node_view(*node)]);
                reveal_with_fuel(Seq::filter, 2);
                assert(with_role(single, role@) =~= single);
            }
        } else {
            proof {
                reveal_with_fuel(Seq::filter, 2);
                assert(with_role(single, role@) =~= Seq::<NodeView>::empty());
                assert(refs_view(out@) =~= before + with_role(single, role@));
            }
        }
        proof {
            assert(decreases_to!(nodes@ => nodes@[i as int].children@));
        }
        collect_by_role(node.children.as_slice(), role, out);
        proof {
            lemma_flatten_take_step(nodes@, i as int);
            let pre = flatten(forest_view(nodes@.take(i as int)));
            let kids = flatten(forest_view(node.children@));
            assert(with_role(pre + single + kids, role@) == with_role(pre + single, role@) + with_role(kids, role@));
            assert(with_role(pre + single, role@) == with_role(pre, role@) + with_role(single, role@));
            assert(refs_view(out@) =~= start + with_role(flatten(forest_view(nodes@.take(i + 1))), role@));
        }
        i = i + 1;
    }
    proof {
        lemma_forest_take_all(nodes@);
    }
}

/// All nodes of the forest whose role is `role`, in pre-order.
pub fn find_nodes_by_role<'a>(nodes: &'a [SnapshotNode], role: &str) -> (r: Vec<&'a SnapshotNode>)
    ensures
        refs_view(r@) == with_role(flatten(forest_view(nodes@)), role@),
{
    let mut out: Vec<&'a SnapshotNode> = Vec::new();
    collect_by_role(nodes, role, &mut out);
    proof {
        assert(refs_view(Seq::<&SnapshotNode>::empty()) =~= Seq::<NodeView>::empty());
        assert(Seq::<NodeView>::empty() + with_role(flatten(forest_view(nodes@)), role@) =~= with_role(flatten(forest_view(nodes@)), role@));
    }
    out
}

} // verus!

verus! {

/// iframe mapping information: which snapshot reference stands for which frame.
pub struct IframeMapping {
    /// Reference id of the iframe node.
    pub ref_id: String,
    /// CDP frame id.
    pub frame_id: String,
    /// iframe `name` attribute.
    pub name: Option<String>,
    /// iframe `src` attribute.
    pub src: Option<String>,
}

/// A page snapshot.
pub struct PageSnapshot {
    /// Snapshot id.
    pub snapshot_id: String,
    /// Page URL.
    pub url: String,
    /// Page title.
    pub title: String,
    /// Root nodes.
    pub nodes: Vec<SnapshotNode>,
    /// Timestamp (Unix seconds).
    pub timestamp: i64,
    /// Number of iframes.
    pub iframe_count: usize,
    /// iframe mappings.
    pub iframe_mappings: Vec<IframeMapping>,
}

/// Controls how much of a page snapshot is returned to an agent.
pub struct SnapshotOptions {
    /// Keep only actionable nodes and the ancestors needed to reach them.
    pub interactive_only: bool,
    /// Optional subtree root reference.
    pub root_ref: Option<String>,
    /// Maximum tree depth to return.
    pub max_depth: Option<usize>,
    /// Maximum number of nodes to return.
    pub max_nodes: usize,
}

/// Default of `interactive_only` when a request leaves it out.
pub fn default_true() -> (r: bool)
    ensures
        r,
{
    true
}

/// Default node budget when a request leaves it out.
pub fn default_max_nodes() -> (r: usize)
    ensures
        r == 250,
{
    250
}

impl Default for SnapshotOptions {
    fn default() -> (o: Self)
        ensures
            o.interactive_only,
            o.root_ref is None,
            o.max_depth == Some(8usize),
            o.max_nodes == 250,
    {
        SnapshotOptions {
            interactive_only: default_true(),
            root_ref: None,
            max_depth: Some(8),
            max_nodes: default_max_nodes(),
        }
    }
}

/// The value of the first pair whose key is `k`.
pub open spec fn attr_lookup(a: Seq<(Seq<char>, Seq<char>)>, k: Seq<char>) -> Option<Seq<char>>
    decreases a.len(),
{
    if a.len() == 0 {
        None
    } else if a[0].0 == k {
        Some(a[0].1)
    } else {
        attr_lookup(a.drop_first(), k)
    }
}

/// Skipping pairs whose key differs from `k` does not change the lookup.
pub proof fn lemma_attr_lookup_skip(a: Seq<(Seq<char>, Seq<char>)>, k: Seq<char>, i: int)
    requires
        0 <= i <= a.len(),
        forall|j: int| 0 <= j < i ==> a[j].0 != k,
    ensures
        attr_lookup(a, k) == attr_lookup(a.skip(i), k),
    decreases i,
{
    if i > 0 {
        lemma_attr_lookup_skip(a.drop_first(), k, i - 1);
        assert(a.drop_first().skip(i - 1) =~= a.skip(i));
    } else {
        assert(a.skip(0) =~= a);
    }
}

/// Looks up the value of attribute `key` (the first pair with that key).
pub fn lookup_attr<'a>(attrs: &'a Vec<(String, String)>, key: &str) -> (r: Option<&'a String>)
    ensures
        match r {
            Some(v) => attr_lookup(pairs_view(attrs@), key@) == Some(v@),
            None => attr_lookup(pairs_view(attrs@), key@) is None,
        },
{
    let ghost a = pairs_view(attrs@);
    let mut i: usize = 0;
    while i < attrs.len()
        invariant
            i <= attrs.len(),
            a == pairs_view(attrs@),
            forall|j: int| 0 <= j < i ==> a[j].0 != key@,
        decreases attrs.len() - i,
    {
        if str_eq(attrs[i].0.as_str(), key) {
            proof {
                lemma_attr_lookup_skip(a, key@, i as int);
            }
            return Some(&attrs[i].1);
        }
        i = i + 1;
    }
    proof {
        lemma_attr_lookup_skip(a, key@, i as int);
    }
    None
}

/// The roles that make a node actionable by themselves.
pub open spec fn is_actionable_role(r: Seq<char>) -> bool {
    ||| r == "button"@
    ||| r == "link"@
    ||| r == "checkbox"@
    ||| r == "radio"@
    ||| r == "combobox"@
    ||| r == "textbox"@
    ||| r == "searchbox"@
    ||| r == "slider"@
    ||| r == "spinbutton"@
    ||| r == "menuitem"@
    ||| r == "tab"@
    ||| r == "option"@
    ||| r == "switch"@
    ||| r == "iframe"@
}

/// A node an agent can act on: an actionable role, or `interactive=true`.
pub open spec fn actionable(n: NodeView) -> bool {
    is_actionable_role(n.role) || attr_lookup(n.attributes, "interactive"@) == Some("true"@)
}

/// Whether `role` is one of the actionable roles.
pub fn actionable_role(role: &String) -> (r: bool)
    ensures
        r == is_actionable_role(role@),
{
    eq_str(role, "button") || eq_str(role, "link") || eq_str(role, "checkbox") || eq_str(
        role,
        "radio",
    ) || eq_str(role, "combobox") || eq_str(role, "textbox") || eq_str(role, "searchbox")
        || eq_str(role, "slider") || eq_str(role, "spinbutton") || eq_str(role, "menuitem")
        || eq_str(role, "tab") || eq_str(role, "option") || eq_str(role, "switch") || eq_str(
        role,
        "iframe",
    )
}

/// Whether an agent can act on this node.
pub fn is_actionable_node(node: &SnapshotNode) -> (r: bool)
    ensures
        r == actionable(node@),
{
    if actionable_role(&node.role) {
        return true;
    }
    match lookup_attr(&node.attributes, "interactive") {
        Some(v) => eq_str(v, "true"),
        None => false,
    }
}

/// `depth` lies beyond the depth limit.
pub open spec fn depth_exceeded(max_depth: Option<usize>, depth: int) -> bool {
    match max_depth {
        Some(m) => depth > m,
        None => false,
    }
}

/// The next depth, saturating at `usize::MAX`.
pub open spec fn next_depth(depth: int) -> int {
    if depth < usize::MAX {
        depth + 1
    } else {
        depth
    }
}

/// Some node of this subtree within the depth limit is actionable.
pub open spec fn subtree_actionable(n: NodeView, max_depth: Option<usize>, depth: int) -> bool
    decreases n,
{
    !depth_exceeded(max_depth, depth) && (actionable(n) || any_subtree_actionable(
        n.children,
        max_depth,
        next_depth(depth),
    ))
}

/// Some tree of this forest has an actionable node within the depth limit.
pub open spec fn any_subtree_actionable(f: Seq<NodeView>, max_depth: Option<usize>, depth: int) -> bool
    decreases f,
{
    if f.len() == 0 {
        false
    } else {
        subtree_actionable(f[0], max_depth, depth) || any_subtree_actionable(
            f.drop_first(),
            max_depth,
            depth,
        )
    }
}

fn depth_beyond(max_depth: Option<usize>, depth: usize) -> (r: bool)
    ensures
        r == depth_exceeded(max_depth, depth as int),
{
    match max_depth {
        Some(m) => depth > m,
        None => false,
    }
}

/// Whether a subtree holds an actionable node within the depth limit.
pub fn subtree_has_actionable(node: &SnapshotNode, max_depth: Option<usize>, depth: usize) -> (r: bool)
    ensures
        r == subtree_actionable(node@, max_depth, depth as int),
    decreases node,
{
    if depth_beyond(max_depth, depth) {
        return false;
    }
    if is_actionable_node(node) {
        return true;
    }
    proof {
        lemma_children_view(*node);
    }
    any_has_actionable(node.children.as_slice(), max_depth, depth.saturating_add(1))
}

/// Whether some tree of a forest holds an actionable node within the depth limit.
pub fn any_has_actionable(nodes: &[SnapshotNode], max_depth: Option<usize>, depth: usize) -> (r: bool)
    ensures
        r == any_subtree_actionable(forest_view(nodes@), max_depth, depth as int),
    decreases nodes@,
{
    let mut i: usize = 0;
    proof {
        assert(nodes@.skip(0) =~= nodes@);
    }
    while i < nodes.len()
        invariant
            i <= nodes.len(),
            any_subtree_actionable(forest_view(nodes@), max_depth, depth as int)
                == any_subtree_actionable(forest_view(nodes@.skip(i as int)), max_depth, depth as int),
        decreases nodes.len() - i,
    {
        proof {
            assert(decreases_to!(nodes@ => nodes@[i as int]));
            let s = forest_view(nodes@.skip(i as int));
            assert(s[0] == node_view(nodes@[i as int]));
            assert(s.drop_first() =~= forest_view(nodes@.skip(i + 1)));
        }
        if subtree_has_actionable(&nodes[i], max_depth, depth) {
            return true;
        }
        i = i + 1;
    }
    proof {
        assert(forest_view(nodes@.skip(i as int)) =~= Seq::<NodeView>::empty());
    }
    false
}

} // verus!

verus! {

/// A node that the compaction leaves out together with its subtree.
pub open spec fn compact_skips(n: NodeView, interactive_only: bool, max_depth: Option<usize>, depth: int) -> bool {
    interactive_only && !actionable(n) && !any_subtree_actionable(n.children, max_depth, next_depth(depth))
}

/// A node with its children replaced.
pub open spec fn with_children(n: NodeView, children: Seq<NodeView>) -> NodeView {
    NodeView {
        ref_id: n.ref_id,
        role: n.role,
        name: n.name,
        value: n.value,
        description: n.description,
        attributes: n.attributes,
        children,
    }
}

/// Compaction of one level of the tree at `depth` with a budget of `rem`
/// nodes: the kept nodes and the budget left.
pub open spec fn compact_level(
    f: Seq<NodeView>,
    interactive_only: bool,
    max_depth: Option<usize>,
    depth: int,
    rem: nat,
) -> (Seq<NodeView>, nat)
    decreases f, 1int,
{
    if rem == 0 || depth_exceeded(max_depth, depth) {
        (Seq::empty(), rem)
    } else {
        compact_list(f, interactive_only, max_depth, depth, rem)
    }
}

/// Compaction of the siblings `f`, left to right: each kept node takes one
/// unit of budget before its children are compacted.
pub open spec fn compact_list(
    f: Seq<NodeView>,
    interactive_only: bool,
    max_depth: Option<usize>,
    depth: int,
    rem: nat,
) -> (Seq<NodeView>, nat)
    decreases f, 0int,
{
    if f.len() == 0 || rem == 0 {
        (Seq::empty(), rem)
    } else if compact_skips(f[0], interactive_only, max_depth, depth) {
        compact_list(f.drop_first(), interactive_only, max_depth, depth, rem)
    } else {
        let inner = compact_level(
            f[0].children,
            interactive_only,
            max_depth,
            next_depth(depth),
            (rem - 1) as nat,
        );
        let rest = compact_list(f.drop_first(), interactive_only, max_depth, depth, inner.1);
        (seq![with_children(f[0], inner.0)] + rest.0, rest.1)
    }
}

fn compact_nodes(
    nodes: &[SnapshotNode],
    options: &SnapshotOptions,
    depth: usize,
    remaining: &mut usize,
) -> (r: Vec<SnapshotNode>)
    ensures
        (forest_view(r@), *final(remaining) as nat) == compact_level(
            forest_view(nodes@),
            options.interactive_only,
            options.max_depth,
            depth as int,
            *old(remaining) as nat,
        ),
    decreases nodes@,
{
    let ghost f = forest_view(nodes@);
    let ghost io = options.interactive_only;
    let ghost md = options.max_depth;
    if *remaining == 0 || depth_beyond(options.max_depth, depth) {
        proof {
            assert(forest_view(Seq::<SnapshotNode>::empty()) =~= Seq::<NodeView>::empty());
        }
        return Vec::new();
    }
    let ghost rem0 = *remaining as nat;
    let mut output: Vec<SnapshotNode> = Vec::new();
    let mut i: usize = 0;
    proof {
        assert(nodes@.skip(0) =~= nodes@);
        assert(forest_view(output@) + compact_list(f, io, md, depth as int, rem0).0 =~= compact_list(f, io, md, depth as int, rem0).0);
    }
    while i < nodes.len()
        invariant
            i <= nodes.len(),
            f == forest_view(nodes@),
            io == options.interactive_only,
            md == options.max_depth,
            compact_list(f, io, md, depth as int, rem0).0 == forest_view(output@) + compact_list(
                forest_view(nodes@.skip(i as int)),
                io,
                md,
                depth as int,
                *remaining as nat,
            ).0,
            compact_list(f, io, md, depth as int, rem0).1 == compact_list(
                forest_view(nodes@.skip(i as int)),
                io,
                md,
                depth as int,
                *remaining as nat,
            ).1,
        ensures
            compact_list(f, io, md, depth as int, rem0).0 == forest_view(output@),
            compact_list(f, io, md, depth as int, rem0).1 == *remaining as nat,
        decreases nodes.len() - i,
    {
        let ghost s = forest_view(nodes@.skip(i as int));
        proof {
            assert(s[0] == node_view(nodes@[i as int]));
            assert(s.drop_first() =~= forest_view(nodes@.skip(i + 1)));
        }
        if *remaining == 0 {
            proof {
                assert(forest_view(output@) + Seq::<NodeView>::empty() =~= forest_view(output@));
            }
            break;
        }
        let node = &nodes[i];
        let skip = options.interactive_only && !is_actionable_node(node) && {
            proof {
                lemma_children_view(*node);
            }
            !any_has_actionable(node.children.as_slice(), options.max_depth, depth.saturating_add(1))
        };
        if skip {
            i = i + 1;
            continue;
        }
        let ghost rem_before = *remaining as nat;
        *remaining = *remaining - 1;
        proof {
            assert(decreases_to!(nodes@ => nodes@[i as int].children@));
            lemma_children_view(*node);
        }
        let kids = compact_nodes(node.children.as_slice(), options, depth.saturating_add(1), remaining);
        let compact = SnapshotNode {
            ref_id: node.ref_id.clone(),
            role: node.role.clone(),
            name: node.name.clone(),
            value: clone_opt(&node.value),
            description: clone_opt(&node.description),
            attributes: clone_pairs(&node.attributes),
            children: kids,
        };
        proof {
            lemma_children_view(compact);
            assert(node_view(compact) =~= with_children(node_view(*node), forest_view(kids@)));
        }
        let ghost out_before = forest_view(output@);
        output.push(compact);
        proof {
            assert(forest_view(output@) =~= out_before.push(node_view(compact)));
            let rest = compact_list(forest_view(nodes@.skip(i + 1)), io, md, depth as int, *remaining as nat);
            assert(compact_list(s, io, md, depth as int, rem_before).0 =~= seq![node_view(compact)] + rest.0);
            assert(out_before + (seq![node_view(compact)] + rest.0) =~= forest_view(output@) + rest.0);
        }
        i = i + 1;
    }
    proof {
        if i == nodes.len() {
            assert(forest_view(nodes@.skip(i as int)) =~= Seq::<NodeView>::empty());
            assert(forest_view(output@) + Seq::<NodeView>::empty() =~= forest_view(output@));
        }
    }
    output
}

} // verus!

verus! {

/// Compaction never spends more budget than it has: the nodes kept plus
/// the budget left equal the budget given.
pub proof fn lemma_compact_level_budget(
    f: Seq<NodeView>,
    interactive_only: bool,
    max_depth: Option<usize>,
    depth: int,
    rem: nat,
)
    ensures
        flatten(compact_level(f, interactive_only, max_depth, depth, rem).0).len() + compact_level(
            f,
            interactive_only,
            max_depth,
            depth,
            rem,
        ).1 == rem,
    decreases f, 1int,
{
    if rem == 0 || depth_exceeded(max_depth, depth) {
        assert(flatten(Seq::<NodeView>::empty()) =~= Seq::<NodeView>::empty());
    } else {
        lemma_compact_list_budget(f, interactive_only, max_depth, depth, rem);
    }
}

/// The budget law for a list of siblings.
pub proof fn lemma_compact_list_budget(
    f: Seq<NodeView>,
    interactive_only: bool,
    max_depth: Option<usize>,
    depth: int,
    rem: nat,
)
    ensures
        flatten(compact_list(f, interactive_only, max_depth, depth, rem).0).len() + compact_list(
            f,
            interactive_only,
            max_depth,
            depth,
            rem,
        ).1 == rem,
    decreases f, 0int,
{
    if f.len() == 0 || rem == 0 {
        assert(flatten(Seq::<NodeView>::empty()) =~= Seq::<NodeView>::empty());
    } else if compact_skips(f[0], interactive_only, max_depth, depth) {
        lemma_compact_list_budget(f.drop_first(), interactive_only, max_depth, depth, rem);
    } else {
        let inner = compact_level(
            f[0].children,
            interactive_only,
            max_depth,
            next_depth(depth),
            (rem - 1) as nat,
        );
        let rest = compact_list(f.drop_first(), interactive_only, max_depth, depth, inner.1);
        lemma_compact_level_budget(
            f[0].children,
            interactive_only,
            max_depth,
            next_depth(depth),
            (rem - 1) as nat,
        );
        lemma_compact_list_budget(f.drop_first(), interactive_only, max_depth, depth, inner.1);
        let node = with_children(f[0], inner.0);
        lemma_flatten_append(seq![node], rest.0);
        lemma_flatten_single(node);
    }
}

/// The first node, in pre-order, that carries `id`.
pub open spec fn first_ref_node(f: Seq<NodeView>, id: Seq<char>) -> NodeView {
    flatten(f)[choose|k: int| is_first_ref(flatten(f), id, k)]
}

/// The trees that a compaction starts from: the subtree at `root_ref` when
/// such a node exists, else the whole forest.
pub open spec fn compact_source(f: Seq<NodeView>, root_ref: Option<Seq<char>>) -> Seq<NodeView> {
    match root_ref {
        Some(id) => if has_ref(f, id) {
            seq![first_ref_node(f, id)]
        } else {
            f
        },
        None => f,
    }
}

/// The node budget of a compaction: `max_nodes`, but at least one.
pub open spec fn node_budget(max_nodes: usize) -> nat {
    if max_nodes < 1 {
        1
    } else {
        max_nodes as nat
    }
}

/// The first position that carries an id is unique.
pub proof fn lemma_first_ref_unique(flat: Seq<NodeView>, id: Seq<char>, k1: int, k2: int)
    requires
        is_first_ref(flat, id, k1),
        is_first_ref(flat, id, k2),
    ensures
        k1 == k2,
{
}

/// The model of an iframe mapping.
pub open spec fn mapping_view(m: IframeMapping) -> (Seq<char>, Seq<char>, Option<Seq<char>>, Option<Seq<char>>) {
    (m.ref_id@, m.frame_id@, opt_view(m.name), opt_view(m.src))
}

/// The models of a list of iframe mappings.
pub open spec fn mappings_view(v: Seq<IframeMapping>) -> Seq<(Seq<char>, Seq<char>, Option<Seq<char>>, Option<Seq<char>>)> {
    Seq::new(v.len(), |i: int| mapping_view(v[i]))
}

impl IframeMapping {
    /// A copy of this mapping.
    pub fn duplicate(&self) -> (r: IframeMapping)
        ensures
            mapping_view(r) == mapping_view(*self),
    {
        IframeMapping {
            ref_id: self.ref_id.clone(),
            frame_id: self.frame_id.clone(),
            name: clone_opt(&self.name),
            src: clone_opt(&self.src),
        }
    }
}

/// Copies of a list of iframe mappings.
pub fn duplicate_mappings(v: &Vec<IframeMapping>) -> (r: Vec<IframeMapping>)
    ensures
        mappings_view(r@) == mappings_view(v@),
{
    let mut r: Vec<IframeMapping> = Vec::new();
    let mut i: usize = 0;
    while i < v.len()
        invariant
            i <= v.len(),
            r@.len() == i,
            mappings_view(r@) == mappings_view(v@.take(i as int)),
        decreases v.len() - i,
    {
        let m = v[i].duplicate();
        let ghost before = r@;
        r.push(m);
        proof {
            assert forall|j: int| 0 <= j < i + 1 implies mappings_view(r@)[j] == mappings_view(
                v@.take(i + 1),
            )[j] by {
                if j < i {
                    assert(mappings_view(before)[j] == mappings_view(v@.take(i as int))[j]);
                    assert(r@[j] == before[j]);
                }
            }
            assert(mappings_view(r@) =~= mappings_view(v@.take(i + 1)));
        }
        i = i + 1;
    }
    proof {
        assert(v@.take(v@.len() as int) =~= v@);
    }
    r
}

/// Returns a bounded snapshot suitable for an agent's context window:
/// starting from the subtree at `root_ref` (when it exists), it keeps at
/// most `max(max_nodes, 1)` nodes, none deeper than `max_depth`, and with
/// `interactive_only` only actionable nodes and their ancestors.
pub fn compact_snapshot(snapshot: &PageSnapshot, options: &SnapshotOptions) -> (r: PageSnapshot)
    ensures
        forest_view(r.nodes@) == compact_level(
            compact_source(forest_view(snapshot.nodes@), opt_view(options.root_ref)),
            options.interactive_only,
            options.max_depth,
            0,
            node_budget(options.max_nodes),
        ).0,
        r.snapshot_id@ == snapshot.snapshot_id@,
        r.url@ == snapshot.url@,
        r.title@ == snapshot.title@,
        r.timestamp == snapshot.timestamp,
        r.iframe_count == snapshot.iframe_count,
        mappings_view(r.iframe_mappings@) == mappings_view(snapshot.iframe_mappings@),
{
    let ghost f = forest_view(snapshot.nodes@);
    let mut source: Vec<SnapshotNode> = Vec::new();
    let mut found_root = false;
    match &options.root_ref {
        Some(id) => {
            match find_node_by_ref(snapshot.nodes.as_slice(), id.as_str()) {
                Some(n) => {
                    source.push(n.duplicate());
                    found_root = true;
                    proof {
                        let k = choose|k: int| is_first_ref(flatten(f), id@, k) && flatten(f)[k] == node_view(*n);
                        let k2 = choose|k: int| is_first_ref(flatten(f), id@, k);
                        lemma_first_ref_unique(flatten(f), id@, k, k2);
                        assert(forest_view(source@) =~= seq![first_ref_node(f, id@)]);
                    }
                },
                None => {},
            }
        },
        None => {},
    }
    if !found_root {
        source = duplicate_nodes(&snapshot.nodes);
    }
    proof {
        assert(forest_view(source@) == compact_source(f, opt_view(options.root_ref)));
    }
    let mut remaining: usize = if options.max_nodes < 1 { 1 } else { options.max_nodes };
    let nodes = compact_nodes(source.as_slice(), options, 0, &mut remaining);
    PageSnapshot {
        snapshot_id: snapshot.snapshot_id.clone(),
        url: snapshot.url.clone(),
        title: snapshot.title.clone(),
        nodes,
        timestamp: snapshot.timestamp,
        iframe_count: snapshot.iframe_count,
        iframe_mappings: duplicate_mappings(&snapshot.iframe_mappings),
    }
}

/// A compacted snapshot never holds more than `max(max_nodes, 1)` nodes.
pub proof fn law_compact_respects_budget(
    f: Seq<NodeView>,
    root_ref: Option<Seq<char>>,
    interactive_only: bool,
    max_depth: Option<usize>,
    max_nodes: usize,
)
    ensures
        flatten(
            compact_level(
                compact_source(f, root_ref),
                interactive_only,
                max_depth,
                0,
                node_budget(max_nodes),
            ).0,
        ).len() <= node_budget(max_nodes),
{
    lemma_compact_level_budget(
        compact_source(f, root_ref),
        interactive_only,
        max_depth,
        0,
        node_budget(max_nodes),
    );
}

/// No node of the forest, with `f` at `depth`, stands deeper than `max_depth`.
pub open spec fn within_depth(f: Seq<NodeView>, max_depth: Option<usize>, depth: int) -> bool
    decreases f,
{
    if f.len() == 0 {
        true
    } else {
        &&& !depth_exceeded(max_depth, depth)
        &&& within_depth(f[0].children, max_depth, next_depth(depth))
        &&& within_depth(f.drop_first(), max_depth, depth)
    }
}

/// `out` is drawn from `src` in order: each of its trees is a tree of `src`
/// that the compaction does not skip, with its children drawn in the same
/// way from that tree's children.
pub open spec fn drawn_from(
    out: Seq<NodeView>,
    src: Seq<NodeView>,
    interactive_only: bool,
    max_depth: Option<usize>,
    depth: int,
) -> bool
    decreases src,
{
    if out.len() == 0 {
        true
    } else if src.len() == 0 {
        false
    } else if out[0] == with_children(src[0], out[0].children) && !compact_skips(
        src[0],
        interactive_only,
        max_depth,
        depth,
    ) && drawn_from(out[0].children, src[0].children, interactive_only, max_depth, next_depth(depth))
        && drawn_from(out.drop_first(), src.drop_first(), interactive_only, max_depth, depth) {
        true
    } else {
        drawn_from(out, src.drop_first(), interactive_only, max_depth, depth)
    }
}

/// What one level of compaction keeps stands within the depth limit and is
/// drawn from its source.
pub proof fn lemma_compact_level_shape(
    f: Seq<NodeView>,
    interactive_only: bool,
    max_depth: Option<usize>,
    depth: int,
    rem: nat,
)
    ensures
        within_depth(compact_level(f, interactive_only, max_depth, depth, rem).0, max_depth, depth),
        drawn_from(compact_level(f, interactive_only, max_depth, depth, rem).0, f, interactive_only, max_depth, depth),
    decreases f, 1int,
{
    if rem == 0 || depth_exceeded(max_depth, depth) {
    } else {
        lemma_compact_list_shape(f, interactive_only, max_depth, depth, rem);
    }
}

/// The shape law for a list of siblings within the depth limit.
pub proof fn lemma_compact_list_shape(
    f: Seq<NodeView>,
    interactive_only: bool,
    max_depth: Option<usize>,
    depth: int,
    rem: nat,
)
    requires
        !depth_exceeded(max_depth, depth),
    ensures
        within_depth(compact_list(f, interactive_only, max_depth, depth, rem).0, max_depth, depth),
        drawn_from(compact_list(f, interactive_only, max_depth, depth, rem).0, f, interactive_only, max_depth, depth),
    decreases f, 0int,
{
    if f.len() == 0 || rem == 0 {
    } else if compact_skips(f[0], interactive_only, max_depth, depth) {
        lemma_compact_list_shape(f.drop_first(), interactive_only, max_depth, depth, rem);
        let out = compact_list(f, interactive_only, max_depth, depth, rem).0;
        if out.len() > 0 {
            assert(!(out[0] == with_children(f[0], out[0].children) && !compact_skips(
                f[0],
                interactive_only,
                max_depth,
                depth,
            )));
        }
    } else {
        let inner = compact_level(
            f[0].children,
            interactive_only,
            max_depth,
            next_depth(depth),
            (rem - 1) as nat,
        );
        let rest = compact_list(f.drop_first(), interactive_only, max_depth, depth, inner.1);
        lemma_compact_level_shape(f[0].children, interactive_only, max_depth, next_depth(depth), (rem - 1) as nat);
        lemma_compact_list_shape(f.drop_first(), interactive_only, max_depth, depth, inner.1);
        let node = with_children(f[0], inner.0);
        let out = seq![node] + rest.0;
        assert(out[0] == node);
        assert(out.drop_first() =~= rest.0);
        assert(node.children == inner.0);
        assert(out[0] == with_children(f[0], out[0].children));
    }
}

/// One level of siblings keeps a node when one of them may be kept: with
/// `interactive_only`, some tree holds an actionable node within the depth
/// limit; otherwise there is a sibling at all.
proof fn lemma_compact_list_nonempty(
    f: Seq<NodeView>,
    interactive_only: bool,
    max_depth: Option<usize>,
    depth: int,
    rem: nat,
)
    requires
        rem > 0,
        !depth_exceeded(max_depth, depth),
        if interactive_only {
            any_subtree_actionable(f, max_depth, depth)
        } else {
            f.len() > 0
        },
    ensures
        compact_list(f, interactive_only, max_depth, depth, rem).0.len() > 0,
    decreases f.len(),
{
    if f.len() > 0 && compact_skips(f[0], interactive_only, max_depth, depth) {
        assert(!subtree_actionable(f[0], max_depth, depth));
        lemma_compact_list_nonempty(f.drop_first(), interactive_only, max_depth, depth, rem);
    }
}

/// A compaction keeps at least one node when its source has, within
/// `max_depth`, an actionable node (with `interactive_only`), or any node
/// at all (without it).
pub proof fn law_compact_keeps_a_node(
    f: Seq<NodeView>,
    root_ref: Option<Seq<char>>,
    interactive_only: bool,
    max_depth: Option<usize>,
    max_nodes: usize,
)
    requires
        if interactive_only {
            any_subtree_actionable(compact_source(f, root_ref), max_depth, 0)
        } else {
            compact_source(f, root_ref).len() > 0
        },
    ensures
        compact_level(compact_source(f, root_ref), interactive_only, max_depth, 0, node_budget(max_nodes)).0.len()
            > 0,
{
    lemma_compact_list_nonempty(compact_source(f, root_ref), interactive_only, max_depth, 0, node_budget(max_nodes));
}

/// A compacted snapshot keeps no node deeper than `max_depth` (the roots
/// stand at depth 0), and each node it keeps is a node of its source, in
/// order, with its children compacted in the same way; a node is kept only
/// where the compaction does not skip it, so with `interactive_only` each
/// kept node is actionable or has an actionable descendant within
/// `max_depth`.
pub proof fn law_compact_keeps_shape(
    f: Seq<NodeView>,
    root_ref: Option<Seq<char>>,
    interactive_only: bool,
    max_depth: Option<usize>,
    max_nodes: usize,
)
    ensures
        within_depth(
            compact_level(compact_source(f, root_ref), interactive_only, max_depth, 0, node_budget(max_nodes)).0,
            max_depth,
            0,
        ),
        drawn_from(
            compact_level(compact_source(f, root_ref), interactive_only, max_depth, 0, node_budget(max_nodes)).0,
            compact_source(f, root_ref),
            interactive_only,
            max_depth,
            0,
        ),
        forall|n: NodeView, depth: int|
            !compact_skips(n, interactive_only, max_depth, depth) && interactive_only ==> actionable(n)
                || any_subtree_actionable(n.children, max_depth, next_depth(depth)),
{
    lemma_compact_level_shape(compact_source(f, root_ref), interactive_only, max_depth, 0, node_budget(max_nodes));
}

} // verus!

verus! {

/// Compact identity of a node used by search and snapshot diffs.
pub struct SnapshotNodeSummary {
    pub ref_id: String,
    pub role: String,
    pub name: String,
    /// Position of the node: `root/<index>:<role>/<index>:<role>...`.
    pub path: String,
}

/// Search result in the latest page snapshot.
pub struct SnapshotSearchResult {
    pub snapshot_id: String,
    pub matches: Vec<SnapshotNodeSummary>,
}

/// The model of a summary: reference id, role, name and path.
pub type SummaryView = (Seq<char>, Seq<char>, Seq<char>, Seq<char>);

/// The model of a summary.
pub open spec fn summary_view(s: SnapshotNodeSummary) -> SummaryView {
    (s.ref_id@, s.role@, s.name@, s.path@)
}

/// The models of a list of summaries.
pub open spec fn summaries_view(v: Seq<SnapshotNodeSummary>) -> Seq<SummaryView> {
    Seq::new(v.len(), |i: int| summary_view(v[i]))
}

/// The path of the child at `index` under `parent`.
pub open spec fn node_path(parent: Seq<char>, index: nat, role: Seq<char>) -> Seq<char> {
    parent + seq!['/'] + decimal(index) + seq![':'] + role
}

/// A node matches a (lowercased) query when its name, role or value
/// contains it, ignoring ASCII case.
pub open spec fn search_hit(n: NodeView, q: Seq<char>) -> bool {
    ||| contains_seq(ascii_lower(n.name), q)
    ||| contains_seq(ascii_lower(n.role), q)
    ||| (n.value is Some && contains_seq(ascii_lower(n.value->0), q))
}

/// The summary of a matching node, or nothing.
pub open spec fn search_here(n: NodeView, q: Seq<char>, path: Seq<char>) -> Seq<SummaryView> {
    if search_hit(n, q) {
        seq![(n.ref_id, n.role, n.name, path)]
    } else {
        Seq::empty()
    }
}

/// All matches of a forest under `parent`, in pre-order.
pub open spec fn search_all(f: Seq<NodeView>, q: Seq<char>, parent: Seq<char>) -> Seq<SummaryView>
    decreases f,
{
    if f.len() == 0 {
        Seq::empty()
    } else {
        let path = node_path(parent, (f.len() - 1) as nat, f.last().role);
        search_all(f.drop_last(), q, parent) + search_here(f.last(), q, path) + search_all(
            f.last().children,
            q,
            path,
        )
    }
}

fn search_hit_exec(node: &SnapshotNode, query: &Vec<char>) -> (r: bool)
    ensures
        r == search_hit(node@, query@),
{
    let name = lower_chars(node.name.as_str());
    if contains_chars(&name, query) {
        return true;
    }
    let role = lower_chars(node.role.as_str());
    if contains_chars(&role, query) {
        return true;
    }
    match &node.value {
        Some(v) => {
            let value = lower_chars(v.as_str());
            contains_chars(&value, query)
        },
        None => false,
    }
}

fn child_path(parent: &String, index: usize, role: &String) -> (r: String)
    ensures
        r@ == node_path(parent@, index as nat, role@),
{
    let mut path = parent.clone();
    push_char(&mut path, '/');
    let d = decimal_string(index as u64);
    path.append(d.as_str());
    push_char(&mut path, ':');
    path.append(role.as_str());
    path
}

fn collect_search_matches(
    nodes: &[SnapshotNode],
    query: &Vec<char>,
    parent_path: &String,
    max_results: usize,
    output: &mut Vec<SnapshotNodeSummary>,
)
    ensures
        summaries_view(final(output)@) == summaries_view(old(output)@) + limited(
            search_all(forest_view(nodes@), query@, parent_path@),
            max_results - old(output)@.len(),
        ),
    decreases nodes@,
{
    let ghost start = summaries_view(output@);
    let ghost k = max_results - output@.len();
    let ghost f = forest_view(nodes@);
    let mut index: usize = 0;
    proof {
        assert(forest_view(nodes@.take(0)) =~= Seq::<NodeView>::empty());
        assert(start + limited(Seq::<SummaryView>::empty(), k) =~= start);
        assert(nodes@.take(nodes@.len() as int) =~= nodes@);
    }
    while index < nodes.len()
        invariant
            index <= nodes.len(),
            f == forest_view(nodes@),
            k == max_results - start.len(),
            summaries_view(output@) == start + limited(
                search_all(forest_view(nodes@.take(index as int)), query@, parent_path@),
                k,
            ),
            output@.len() == summaries_view(output@).len(),
            start.len() == summaries_view(old(output)@).len(),
            start == summaries_view(old(output)@),
            nodes@.take(nodes@.len() as int) == nodes@,
        ensures
            summaries_view(output@) == start + limited(search_all(f, query@, parent_path@), k),
        decreases nodes.len() - index,
    {
        let ghost a = search_all(forest_view(nodes@.take(index as int)), query@, parent_path@);
        let node = &nodes[index];
        let path = child_path(parent_path, index, &node.role);
        let ghost h = search_here(node_view(*node), query@, path@);
        let ghost c = search_all(node_view(*node).children, query@, path@);
        proof {
            let t = nodes@.take(index + 1);
            assert(forest_view(t).drop_last() =~= forest_view(nodes@.take(index as int)));
            assert(forest_view(t).last() == node_view(*node));
            assert(search_all(forest_view(t), query@, parent_path@) == a + h + c);
            lemma_flatten_split(nodes@, index as int);
            assert(nodes@ =~= nodes@.take(index as int) + nodes@.skip(index as int));
        }
        if output.len() >= max_results {
            proof {
                lemma_search_split(nodes@, index as int, query@, parent_path@);
                let rest = search_all(forest_view(nodes@), query@, parent_path@);
                lemma_limited_full(a, rest.skip(a.len() as int), k);
                assert(a + rest.skip(a.len() as int) =~= rest);
            }
            return;
        }
        proof {
            lemma_limited_append(a, Seq::<SummaryView>::empty(), k);
            assert(a + Seq::<SummaryView>::empty() =~= a);
        }
        if search_hit_exec(node, query) {
            let summary = SnapshotNodeSummary {
                ref_id: node.ref_id.clone(),
                role: node.role.clone(),
                name: node.name.clone(),
                path: path.clone(),
            };
            let ghost before = summaries_view(output@);
            output.push(summary);
            proof {
                assert(summaries_view(output@) =~= before + h);
            }
        } else {
            proof {
                assert(summaries_view(output@) =~= summaries_view(output@) + h);
            }
        }
        proof {
            assert(decreases_to!(nodes@ => nodes@[index as int].children@));
            lemma_children_view(*node);
        }
        let ghost mid = summaries_view(output@);
        collect_search_matches(node.children.as_slice(), query, &path, max_results, output);
        proof {
            assert(mid == start + a + h);
            lemma_limited_append(a + h, c, k);
            assert(summaries_view(output@) =~= start + limited(a + h + c, k));
        }
        index = index + 1;
    }
}

/// The listing of matches of a forest extends that of its prefix.
pub proof fn lemma_search_split(nodes: Seq<SnapshotNode>, i: int, q: Seq<char>, parent: Seq<char>)
    requires
        0 <= i <= nodes.len(),
    ensures
        search_all(forest_view(nodes), q, parent).len() >= search_all(
            forest_view(nodes.take(i)),
            q,
            parent,
        ).len(),
        search_all(forest_view(nodes), q, parent).take(
            search_all(forest_view(nodes.take(i)), q, parent).len() as int,
        ) == search_all(forest_view(nodes.take(i)), q, parent),
    decreases nodes.len() - i,
{
    if i < nodes.len() {
        lemma_search_split(nodes, i + 1, q, parent);
        let t = nodes.take(i + 1);
        assert(t.take(i) =~= nodes.take(i));
        assert(forest_view(t).drop_last() =~= forest_view(nodes.take(i)));
        let a = search_all(forest_view(nodes.take(i)), q, parent);
        let b = search_all(forest_view(t), q, parent);
        assert(b.take(a.len() as int) =~= a);
        let w = search_all(forest_view(nodes), q, parent);
        assert(w.take(a.len() as int) =~= w.take(b.len() as int).take(a.len() as int));
    } else {
        assert(nodes.take(i) =~= nodes);
        let w = search_all(forest_view(nodes), q, parent);
        assert(w.take(w.len() as int) =~= w);
    }
}

/// Searches a snapshot for nodes whose name, role or value contains
/// `query`, ignoring ASCII case, and returns the first
/// `max(max_results, 1)` matches in pre-order.
pub fn search_snapshot(snapshot: &PageSnapshot, query: &str, max_results: usize) -> (r: SnapshotSearchResult)
    ensures
        r.snapshot_id@ == snapshot.snapshot_id@,
        summaries_view(r.matches@) == limited(
            search_all(forest_view(snapshot.nodes@), ascii_lower(query@), "root"@),
            if max_results < 1 { 1 } else { max_results as int },
        ),
{
    let q = lower_chars(query);
    let root = String::from_str("root");
    let mut matches: Vec<SnapshotNodeSummary> = Vec::new();
    let limit: usize = if max_results < 1 { 1 } else { max_results };
    collect_search_matches(snapshot.nodes.as_slice(), &q, &root, limit, &mut matches);
    proof {
        assert(summaries_view(Seq::<SnapshotNodeSummary>::empty()) =~= Seq::<SummaryView>::empty());
        let all = search_all(forest_view(snapshot.nodes@), ascii_lower(query@), "root"@);
        assert(Seq::<SummaryView>::empty() + limited(all, limit as int) =~= limited(all, limit as int));
    }
    SnapshotSearchResult { snapshot_id: snapshot.snapshot_id.clone(), matches }
}

} // verus!

verus! {

/// Changes between two consecutive observations.
pub struct SnapshotDiff {
    pub from_snapshot_id: String,
    pub to_snapshot_id: String,
    pub added: Vec<SnapshotNodeSummary>,
    pub removed: Vec<SnapshotNodeSummary>,
    pub changed: Vec<SnapshotNodeSummary>,
}

/// What a diff compares of a node: name, value, description, attributes.
pub type ContentView = (Seq<char>, Option<Seq<char>>, Option<Seq<char>>, Seq<(Seq<char>, Seq<char>)>);

/// One node of a snapshot as a diff sees it: its summary and its content.
pub type EntryView = (SummaryView, ContentView);

/// The diff entry of a node at `path`.
pub open spec fn entry_of(n: NodeView, path: Seq<char>) -> EntryView {
    ((n.ref_id, n.role, n.name, path), (n.name, n.value, n.description, n.attributes))
}

/// The diff entries of a forest under `parent`, in pre-order.
pub open spec fn diff_entries(f: Seq<NodeView>, parent: Seq<char>) -> Seq<EntryView>
    decreases f,
{
    if f.len() == 0 {
        Seq::empty()
    } else {
        let path = node_path(parent, (f.len() - 1) as nat, f.last().role);
        diff_entries(f.drop_last(), parent) + seq![entry_of(f.last(), path)] + diff_entries(
            f.last().children,
            path,
        )
    }
}

/// The path of an entry.
pub open spec fn entry_path(e: EntryView) -> Seq<char> {
    e.0.3
}

/// Entry `i` is the last one with its path (a later entry with the same
/// path replaces an earlier one).
pub open spec fn is_last_of_path(e: Seq<EntryView>, i: int) -> bool {
    &&& 0 <= i < e.len()
    &&& forall|j: int| i < j < e.len() ==> entry_path(e[j]) != entry_path(e[i])
}

/// Some entry has path `p`.
pub open spec fn has_path(e: Seq<EntryView>, p: Seq<char>) -> bool {
    exists|i: int| 0 <= i < e.len() && entry_path(e[i]) == p
}

/// The entry that stands for path `p`: the last one with that path.
pub open spec fn entry_for(e: Seq<EntryView>, p: Seq<char>) -> EntryView {
    e[choose|i: int| is_last_of_path(e, i) && entry_path(e[i]) == p]
}

/// Two attribute lists give every key the same value.
pub open spec fn attrs_equiv(a: Seq<(Seq<char>, Seq<char>)>, b: Seq<(Seq<char>, Seq<char>)>) -> bool {
    forall|k: Seq<char>| #[trigger] attr_lookup(a, k) == attr_lookup(b, k)
}

/// Two nodes have the same content.
pub open spec fn same_content(a: ContentView, b: ContentView) -> bool {
    a.0 == b.0 && a.1 == b.1 && a.2 == b.2 && attrs_equiv(a.3, b.3)
}

/// The summaries of the entries at positions below `n` that satisfy `p`, in order.
pub open spec fn select(e: Seq<EntryView>, p: spec_fn(int) -> bool, n: int) -> Seq<SummaryView>
    decreases n,
{
    if n <= 0 {
        Seq::empty()
    } else if p(n - 1) {
        select(e, p, n - 1).push(e[n - 1].0)
    } else {
        select(e, p, n - 1)
    }
}

/// Nodes of `new` whose path `old` lacks.
pub open spec fn added_of(new: Seq<EntryView>, old: Seq<EntryView>) -> Seq<SummaryView> {
    select(new, |i: int| is_last_of_path(new, i) && !has_path(old, entry_path(new[i])), new.len() as int)
}

/// Nodes at paths of both whose content differs (summaries from `new`).
pub open spec fn changed_of(new: Seq<EntryView>, old: Seq<EntryView>) -> Seq<SummaryView> {
    select(
        new,
        |i: int|
            is_last_of_path(new, i) && has_path(old, entry_path(new[i])) && !same_content(
                new[i].1,
                entry_for(old, entry_path(new[i])).1,
            ),
        new.len() as int,
    )
}

struct DiffEntry {
    summary: SnapshotNodeSummary,
    name: String,
    value: Option<String>,
    description: Option<String>,
    attributes: Vec<(String, String)>,
}

spec fn diff_entry_view(d: DiffEntry) -> EntryView {
    (summary_view(d.summary), (d.name@, opt_view(d.value), opt_view(d.description), pairs_view(d.attributes@)))
}

spec fn entries_view(v: Seq<DiffEntry>) -> Seq<EntryView> {
    Seq::new(v.len(), |i: int| diff_entry_view(v[i]))
}

fn collect_diff_nodes(nodes: &[SnapshotNode], parent_path: &String, output: &mut Vec<DiffEntry>)
    ensures
        entries_view(final(output)@) == entries_view(old(output)@) + diff_entries(
            forest_view(nodes@),
            parent_path@,
        ),
    decreases nodes@,
{
    let ghost start = entries_view(output@);
    let mut index: usize = 0;
    proof {
        assert(forest_view(nodes@.take(0)) =~= Seq::<NodeView>::empty());
        assert(start + Seq::<EntryView>::empty() =~= start);
    }
    while index < nodes.len()
        invariant
            index <= nodes.len(),
            entries_view(output@) == start + diff_entries(
                forest_view(nodes@.take(index as int)),
                parent_path@,
            ),
        decreases nodes.len() - index,
    {
        let node = &nodes[index];
        let path = child_path(parent_path, index, &node.role);
        let entry = DiffEntry {
            summary: SnapshotNodeSummary {
                ref_id: node.ref_id.clone(),
                role: node.role.clone(),
                name: node.name.clone(),
                path: path.clone(),
            },
            name: node.name.clone(),
            value: clone_opt(&node.value),
            description: clone_opt(&node.description),
            attributes: clone_pairs(&node.attributes),
        };
        let ghost before = entries_view(output@);
        output.push(entry);
        proof {
            assert(entries_view(output@) =~= before + seq![entry_of(node_view(*node), path@)]);
            assert(decreases_to!(nodes@ => nodes@[index as int].children@));
            lemma_children_view(*node);
        }
        collect_diff_nodes(node.children.as_slice(), &path, output);
        proof {
            let t = nodes@.take(index + 1);
            assert(forest_view(t).drop_last() =~= forest_view(nodes@.take(index as int)));
            assert(forest_view(t).last() == node_view(*node));
            assert(entries_view(output@) =~= start + diff_entries(forest_view(t), parent_path@));
        }
        index = index + 1;
    }
    proof {
        assert(nodes@.take(nodes@.len() as int) =~= nodes@);
    }
}

fn entries_of(nodes: &[SnapshotNode]) -> (r: Vec<DiffEntry>)
    ensures
        entries_view(r@) == diff_entries(forest_view(nodes@), "root"@),
{
    let root = String::from_str("root");
    let mut out: Vec<DiffEntry> = Vec::new();
    collect_diff_nodes(nodes, &root, &mut out);
    proof {
        assert(entries_view(Seq::<DiffEntry>::empty()) =~= Seq::<EntryView>::empty());
        let d = diff_entries(forest_view(nodes@), "root"@);
        assert(Seq::<EntryView>::empty() + d =~= d);
    }
    out
}

fn is_last_path(entries: &Vec<DiffEntry>, i: usize) -> (r: bool)
    requires
        i < entries.len(),
    ensures
        r == is_last_of_path(entries_view(entries@), i as int),
{
    let ghost e = entries_view(entries@);
    let mut j: usize = i + 1;
    while j < entries.len()
        invariant
            i < j <= entries.len(),
            e == entries_view(entries@),
            forall|m: int| i < m < j ==> entry_path(e[m]) != entry_path(e[i as int]),
        decreases entries.len() - j,
    {
        if entries[j].summary.path == entries[i].summary.path {
            proof {
                assert(entry_path(e[j as int]) == entry_path(e[i as int]));
            }
            return false;
        }
        j = j + 1;
    }
    true
}

fn last_with_path(entries: &Vec<DiffEntry>, p: &String) -> (r: Option<usize>)
    ensures
        match r {
            Some(j) => is_last_of_path(entries_view(entries@), j as int) && entry_path(
                entries_view(entries@)[j as int],
            ) == p@,
            None => !has_path(entries_view(entries@), p@),
        },
{
    let ghost e = entries_view(entries@);
    let mut j: usize = entries.len();
    while j > 0
        invariant
            j <= entries.len(),
            e == entries_view(entries@),
            forall|m: int| j <= m < entries.len() ==> entry_path(e[m]) != p@,
        decreases j,
    {
        j = j - 1;
        if entries[j].summary.path == *p {
            return Some(j);
        }
    }
    None
}

fn opt_eq(a: &Option<String>, b: &Option<String>) -> (r: bool)
    ensures
        r == (opt_view(*a) == opt_view(*b)),
{
    match (a, b) {
        (Some(x), Some(y)) => *x == *y,
        (None, None) => true,
        _ => false,
    }
}

/// A key that the lookup finds occurs in the list.
pub proof fn lemma_attr_lookup_found(a: Seq<(Seq<char>, Seq<char>)>, k: Seq<char>)
    requires
        attr_lookup(a, k) is Some,
    ensures
        exists|i: int| 0 <= i < a.len() && a[i].0 == k,
    decreases a.len(),
{
    if a[0].0 != k {
        lemma_attr_lookup_found(a.drop_first(), k);
        let i = choose|i: int| 0 <= i < a.drop_first().len() && a.drop_first()[i].0 == k;
        assert(a[i + 1].0 == k);
    }
}

fn lookup_eq(a: &Vec<(String, String)>, b: &Vec<(String, String)>, key: &String) -> (r: bool)
    ensures
        r == (attr_lookup(pairs_view(a@), key@) == attr_lookup(pairs_view(b@), key@)),
{
    let x = lookup_attr(a, key.as_str());
    let y = lookup_attr(b, key.as_str());
    match (x, y) {
        (Some(u), Some(v)) => *u == *v,
        (None, None) => true,
        _ => false,
    }
}

fn keys_agree(a: &Vec<(String, String)>, b: &Vec<(String, String)>) -> (r: bool)
    ensures
        r == (forall|i: int|
            0 <= i < a@.len() ==> attr_lookup(pairs_view(a@), a@[i].0@) == attr_lookup(
                pairs_view(b@),
                a@[i].0@,
            )),
{
    let mut i: usize = 0;
    while i < a.len()
        invariant
            i <= a.len(),
            forall|m: int|
                0 <= m < i ==> attr_lookup(pairs_view(a@), a@[m].0@) == attr_lookup(
                    pairs_view(b@),
                    a@[m].0@,
                ),
        decreases a.len() - i,
    {
        if !lookup_eq(a, b, &a[i].0) {
            return false;
        }
        i = i + 1;
    }
    true
}

fn attrs_equivalent(a: &Vec<(String, String)>, b: &Vec<(String, String)>) -> (r: bool)
    ensures
        r == attrs_equiv(pairs_view(a@), pairs_view(b@)),
{
    let ab = keys_agree(a, b);
    let ba = keys_agree(b, a);
    proof {
        let pa = pairs_view(a@);
        let pb = pairs_view(b@);
        if ab && ba {
            assert forall|k: Seq<char>| #[trigger] attr_lookup(pa, k) == attr_lookup(pb, k) by {
                if attr_lookup(pa, k) is Some {
                    lemma_attr_lookup_found(pa, k);
                    let i = choose|i: int| 0 <= i < pa.len() && pa[i].0 == k;
                    assert(a@[i].0@ == k);
                } else if attr_lookup(pb, k) is Some {
                    lemma_attr_lookup_found(pb, k);
                    let i = choose|i: int| 0 <= i < pb.len() && pb[i].0 == k;
                    assert(b@[i].0@ == k);
                }
            }
        }
        if !ab {
            let i = choose|i: int|
                !(0 <= i < a@.len() ==> attr_lookup(pairs_view(a@), a@[i].0@) == attr_lookup(
                    pairs_view(b@),
                    a@[i].0@,
                ));
            assert(attr_lookup(pa, a@[i].0@) != attr_lookup(pb, a@[i].0@));
        }
        if !ba {
            let i = choose|i: int|
                !(0 <= i < b@.len() ==> attr_lookup(pairs_view(b@), b@[i].0@) == attr_lookup(
                    pairs_view(a@),
                    b@[i].0@,
                ));
            assert(attr_lookup(pb, b@[i].0@) != attr_lookup(pa, b@[i].0@));
        }
    }
    ab && ba
}

fn same_content_exec(x: &DiffEntry, y: &DiffEntry) -> (r: bool)
    ensures
        r == same_content(diff_entry_view(*x).1, diff_entry_view(*y).1),
{
    x.name == y.name && opt_eq(&x.value, &y.value) && opt_eq(&x.description, &y.description)
        && attrs_equivalent(&x.attributes, &y.attributes)
}

fn clone_summary(s: &SnapshotNodeSummary) -> (r: SnapshotNodeSummary)
    ensures
        summary_view(r) == summary_view(*s),
{
    SnapshotNodeSummary {
        ref_id: s.ref_id.clone(),
        role: s.role.clone(),
        name: s.name.clone(),
        path: s.path.clone(),
    }
}

/// The entries of `new` that the other snapshot lacks.
fn added_entries(new: &Vec<DiffEntry>, old: &Vec<DiffEntry>) -> (r: Vec<SnapshotNodeSummary>)
    ensures
        summaries_view(r@) == added_of(entries_view(new@), entries_view(old@)),
{
    let ghost n = entries_view(new@);
    let ghost o = entries_view(old@);
    let ghost p = |i: int| is_last_of_path(n, i) && !has_path(o, entry_path(n[i]));
    let mut out: Vec<SnapshotNodeSummary> = Vec::new();
    let mut i: usize = 0;
    proof {
        assert(summaries_view(out@) =~= select(n, p, 0));
    }
    while i < new.len()
        invariant
            i <= new.len(),
            n == entries_view(new@),
            o == entries_view(old@),
            p == (|i: int| is_last_of_path(n, i) && !has_path(o, entry_path(n[i]))),
            summaries_view(out@) == select(n, p, i as int),
        decreases new.len() - i,
    {
        let keep = is_last_path(new, i) && last_with_path(old, &new[i].summary.path).is_none();
        proof {
            assert(p(i as int) == keep);
        }
        if keep {
            let ghost before = summaries_view(out@);
            out.push(clone_summary(&new[i].summary));
            proof {
                assert(summaries_view(out@) =~= before.push(n[i as int].0));
            }
        }
        i = i + 1;
    }
    out
}

/// The entries present in both snapshots whose content differs.
fn changed_entries(new: &Vec<DiffEntry>, old: &Vec<DiffEntry>) -> (r: Vec<SnapshotNodeSummary>)
    ensures
        summaries_view(r@) == changed_of(entries_view(new@), entries_view(old@)),
{
    let ghost n = entries_view(new@);
    let ghost o = entries_view(old@);
    let ghost p = |i: int|
        is_last_of_path(n, i) && has_path(o, entry_path(n[i])) && !same_content(
            n[i].1,
            entry_for(o, entry_path(n[i])).1,
        );
    let mut out: Vec<SnapshotNodeSummary> = Vec::new();
    let mut i: usize = 0;
    proof {
        assert(summaries_view(out@) =~= select(n, p, 0));
    }
    while i < new.len()
        invariant
            i <= new.len(),
            n == entries_view(new@),
            o == entries_view(old@),
            p == (|i: int|
                is_last_of_path(n, i) && has_path(o, entry_path(n[i])) && !same_content(
                    n[i].1,
                    entry_for(o, entry_path(n[i])).1,
                )),
            summaries_view(out@) == select(n, p, i as int),
        decreases new.len() - i,
    {
        let mut keep = false;
        if is_last_path(new, i) {
            match last_with_path(old, &new[i].summary.path) {
                Some(j) => {
                    proof {
                        let c = choose|m: int|
                            is_last_of_path(o, m) && entry_path(o[m]) == entry_path(n[i as int]);
                        assert(c == j as int);
                        assert(entry_for(o, entry_path(n[i as int])) == o[j as int]);
                    }
                    keep = !same_content_exec(&new[i], &old[j]);
                },
                None => {},
            }
        }
        proof {
            assert(p(i as int) == keep);
        }
        if keep {
            let ghost before = summaries_view(out@);
            out.push(clone_summary(&new[i].summary));
            proof {
                assert(summaries_view(out@) =~= before.push(n[i as int].0));
            }
        }
        i = i + 1;
    }
    out
}

/// Computes the structural delta between two consecutive snapshots.
///
/// Nodes are identified by their path (`root/<index>:<role>/...`). A node
/// is added when only `current` has its path, removed when only `previous`
/// has it, and changed when both have it and its name, value, description
/// or attributes differ.
pub fn diff_snapshots(previous: &PageSnapshot, current: &PageSnapshot) -> (r: SnapshotDiff)
    ensures
        r.from_snapshot_id@ == previous.snapshot_id@,
        r.to_snapshot_id@ == current.snapshot_id@,
        summaries_view(r.added@) == added_of(
            diff_entries(forest_view(current.nodes@), "root"@),
            diff_entries(forest_view(previous.nodes@), "root"@),
        ),
        summaries_view(r.removed@) == added_of(
            diff_entries(forest_view(previous.nodes@), "root"@),
            diff_entries(forest_view(current.nodes@), "root"@),
        ),
        summaries_view(r.changed@) == changed_of(
            diff_entries(forest_view(current.nodes@), "root"@),
            diff_entries(forest_view(previous.nodes@), "root"@),
        ),
{
    let old = entries_of(previous.nodes.as_slice());
    let new = entries_of(current.nodes.as_slice());
    let added = added_entries(&new, &old);
    let removed = added_entries(&old, &new);
    let changed = changed_entries(&new, &old);
    SnapshotDiff {
        from_snapshot_id: previous.snapshot_id.clone(),
        to_snapshot_id: current.snapshot_id.clone(),
        added,
        removed,
        changed,
    }
}

} // verus!

verus! {

/// Two spaces per level of depth.
pub open spec fn indent(depth: nat) -> Seq<char>
    decreases depth,
{
    if depth == 0 {
        Seq::empty()
    } else {
        indent((depth - 1) as nat) + "  "@
    }
}

/// `k=v` pairs joined by `, `.
pub open spec fn join_pairs(a: Seq<(Seq<char>, Seq<char>)>) -> Seq<char>
    decreases a.len(),
{
    if a.len() == 0 {
        Seq::empty()
    } else if a.len() == 1 {
        a[0].0 + "="@ + a[0].1
    } else {
        join_pairs(a.drop_last()) + ", "@ + a.last().0 + "="@ + a.last().1
    }
}

/// The attribute part of a node line: ` [k=v, ...]`, or nothing.
pub open spec fn attrs_text(a: Seq<(Seq<char>, Seq<char>)>) -> Seq<char> {
    if a.len() == 0 {
        Seq::empty()
    } else {
        " ["@ + join_pairs(a) + "]"@
    }
}

/// The descendant-count part of a node line: ` (N 子元素)`, or nothing.
pub open spec fn children_text(count: nat) -> Seq<char> {
    if count > 0 {
        " ("@ + decimal(count) + " 子元素)"@
    } else {
        Seq::empty()
    }
}

/// One line of the rendered tree.
pub open spec fn node_line(n: NodeView, depth: nat) -> Seq<char> {
    indent(depth) + "["@ + n.ref_id + "] "@ + n.role + " \""@ + n.name + "\""@ + attrs_text(
        n.attributes,
    ) + children_text(node_count(n.children)) + "\n"@
}

/// The rendered lines of a forest at `depth`, in pre-order.
pub open spec fn format_forest(f: Seq<NodeView>, depth: nat) -> Seq<char>
    decreases f,
{
    if f.len() == 0 {
        Seq::empty()
    } else {
        format_forest(f.drop_last(), depth) + node_line(f.last(), depth) + format_forest(
            f.last().children,
            next_depth(depth as int) as nat,
        )
    }
}

/// The header of a rendered snapshot.
pub open spec fn format_header(
    id: Seq<char>,
    url: Seq<char>,
    title: Seq<char>,
    iframe_count: nat,
    count: nat,
) -> Seq<char> {
    "快照: "@ + id + "\n"@ + "页面: "@ + url + "\n"@ + "标题: "@ + title + "\n"@ + (if iframe_count
        > 0 {
        "iframe 数量: "@ + decimal(iframe_count) + "\n"@
    } else {
        Seq::empty()
    }) + "元素数量: "@ + decimal(count) + "\n\n"@ + "元素树:\n"@
}

fn make_indent(depth: usize) -> (r: String)
    ensures
        r@ == indent(depth as nat),
{
    let mut s = String::new();
    let mut i: usize = 0;
    while i < depth
        invariant
            i <= depth,
            s@ == indent(i as nat),
        decreases depth - i,
    {
        s.append("  ");
        i = i + 1;
    }
    s
}

fn attrs_line(attrs: &Vec<(String, String)>) -> (r: String)
    ensures
        r@ == attrs_text(pairs_view(attrs@)),
{
    let ghost a = pairs_view(attrs@);
    if attrs.len() == 0 {
        return String::new();
    }
    let mut s = String::new();
    s.append(" [");
    let mut joined = String::new();
    let mut i: usize = 0;
    while i < attrs.len()
        invariant
            i <= attrs.len(),
            a == pairs_view(attrs@),
            joined@ == join_pairs(a.take(i as int)),
        decreases attrs.len() - i,
    {
        if i > 0 {
            joined.append(", ");
        }
        joined.append(attrs[i].0.as_str());
        joined.append("=");
        joined.append(attrs[i].1.as_str());
        proof {
            let t = a.take(i + 1);
            assert(t.drop_last() =~= a.take(i as int));
            assert(t.last() == a[i as int]);
            if i == 0 {
                assert(a.take(0) =~= Seq::<(Seq<char>, Seq<char>)>::empty());
            }
        }
        i = i + 1;
    }
    proof {
        assert(a.take(a.len() as int) =~= a);
    }
    s.append(joined.as_str());
    s.append("]");
    s
}

fn node_line_exec(node: &SnapshotNode, depth: usize, output: &mut String)
    ensures
        final(output)@ == old(output)@ + node_line(node@, depth as nat),
{
    let ind = make_indent(depth);
    output.append(ind.as_str());
    output.append("[");
    output.append(node.ref_id.as_str());
    output.append("] ");
    output.append(node.role.as_str());
    output.append(" \"");
    output.append(node.name.as_str());
    output.append("\"");
    let attrs = attrs_line(&node.attributes);
    output.append(attrs.as_str());
    proof {
        lemma_children_view(*node);
    }
    let count = count_nodes(node.children.as_slice());
    if count > 0 {
        output.append(" (");
        let d = decimal_string(count as u64);
        output.append(d.as_str());
        output.append(" 子元素)");
    }
    output.append("\n");
}

fn format_node(nodes: &[SnapshotNode], depth: usize, output: &mut String)
    ensures
        final(output)@ == old(output)@ + format_forest(forest_view(nodes@), depth as nat),
    decreases nodes@,
{
    let ghost start = output@;
    let mut i: usize = 0;
    proof {
        assert(forest_view(nodes@.take(0)) =~= Seq::<NodeView>::empty());
        assert(start + Seq::<char>::empty() =~= start);
    }
    while i < nodes.len()
        invariant
            i <= nodes.len(),
            output@ == start + format_forest(forest_view(nodes@.take(i as int)), depth as nat),
        decreases nodes.len() - i,
    {
        let node = &nodes[i];
        node_line_exec(node, depth, output);
        proof {
            assert(decreases_to!(nodes@ => nodes@[i as int].children@));
            lemma_children_view(*node);
        }
        format_node(node.children.as_slice(), depth.saturating_add(1), output);
        proof {
            let t = nodes@.take(i + 1);
            assert(forest_view(t).drop_last() =~= forest_view(nodes@.take(i as int)));
            assert(forest_view(t).last() == node_view(*node));
        }
        i = i + 1;
    }
    proof {
        assert(nodes@.take(nodes@.len() as int) =~= nodes@);
    }
}

/// The nodes of a forest at `depth` in pre-order, each with its depth.
pub open spec fn leveled(f: Seq<NodeView>, depth: nat) -> Seq<(NodeView, nat)>
    decreases f,
{
    if f.len() == 0 {
        Seq::empty()
    } else {
        leveled(f.drop_last(), depth) + seq![(f.last(), depth)] + leveled(
            f.last().children,
            next_depth(depth as int) as nat,
        )
    }
}

/// The lines of a sequence of nodes with their depths, one after another.
pub open spec fn lines_text(s: Seq<(NodeView, nat)>) -> Seq<char>
    decreases s.len(),
{
    if s.len() == 0 {
        Seq::empty()
    } else {
        lines_text(s.drop_last()) + node_line(s.last().0, s.last().1)
    }
}

/// The lines of a concatenation are the lines of each part.
proof fn lemma_lines_append(a: Seq<(NodeView, nat)>, b: Seq<(NodeView, nat)>)
    ensures
        lines_text(a + b) == lines_text(a) + lines_text(b),
    decreases b.len(),
{
    if b.len() == 0 {
        assert(a + b =~= a);
        assert(lines_text(a) + Seq::<char>::empty() =~= lines_text(a));
    } else {
        lemma_lines_append(a, b.drop_last());
        assert((a + b).drop_last() =~= a + b.drop_last());
        assert((a + b).last() == b.last());
        assert(lines_text(a + b) =~= lines_text(a) + lines_text(b));
    }
}

/// The nodes of a leveled forest are its pre-order listing.
proof fn lemma_leveled_nodes(f: Seq<NodeView>, depth: nat)
    ensures
        leveled(f, depth).len() == flatten(f).len(),
        forall|i: int| 0 <= i < flatten(f).len() ==> (#[trigger] leveled(f, depth)[i]).0 == flatten(f)[i],
    decreases f,
{
    if f.len() > 0 {
        let d2 = next_depth(depth as int) as nat;
        lemma_leveled_nodes(f.drop_last(), depth);
        lemma_leveled_nodes(f.last().children, d2);
        let a = leveled(f.drop_last(), depth);
        let c = leveled(f.last().children, d2);
        let fa = flatten(f.drop_last());
        let fc = flatten(f.last().children);
        assert forall|i: int| 0 <= i < flatten(f).len() implies (#[trigger] leveled(f, depth)[i]).0 == flatten(
            f,
        )[i] by {
            if i < a.len() {
                assert(leveled(f, depth)[i] == a[i]);
                assert(flatten(f)[i] == fa[i]);
            } else if i == a.len() {
                assert(leveled(f, depth)[i] == (f.last(), depth));
                assert(flatten(f)[i] == f.last());
            } else {
                assert(leveled(f, depth)[i] == c[i - a.len() - 1]);
                assert(flatten(f)[i] == fc[i - fa.len() - 1]);
            }
        }
    }
}

/// A rendered forest is one line per node, in pre-order: the node's depth
/// in indentation, its reference id, role and name, its attributes and the
/// number of its descendants.
pub proof fn law_format_one_line_per_node(f: Seq<NodeView>, depth: nat)
    ensures
        format_forest(f, depth) == lines_text(leveled(f, depth)),
        leveled(f, depth).len() == flatten(f).len(),
        forall|i: int| 0 <= i < flatten(f).len() ==> (#[trigger] leveled(f, depth)[i]).0 == flatten(f)[i],
    decreases f,
{
    lemma_leveled_nodes(f, depth);
    if f.len() > 0 {
        let d2 = next_depth(depth as int) as nat;
        law_format_one_line_per_node(f.drop_last(), depth);
        law_format_one_line_per_node(f.last().children, d2);
        let a = leveled(f.drop_last(), depth);
        let c = leveled(f.last().children, d2);
        let one = seq![(f.last(), depth)];
        lemma_lines_append(a + one, c);
        lemma_lines_append(a, one);
        assert(one.drop_last() =~= Seq::<(NodeView, nat)>::empty());
        assert(one.last() == (f.last(), depth));
        assert(lines_text(one.drop_last()) == Seq::<char>::empty());
        assert(lines_text(one) == lines_text(one.drop_last()) + node_line(f.last(), depth));
        assert(lines_text(one) =~= node_line(f.last(), depth));
    }
}

/// Renders a snapshot as readable text: a header (snapshot id, page, title,
/// iframe count when there are iframes, node count) followed by one line
/// per node, indented by depth.
pub fn format_snapshot(snapshot: &PageSnapshot) -> (r: String)
    ensures
        r@ == format_header(
            snapshot.snapshot_id@,
            snapshot.url@,
            snapshot.title@,
            snapshot.iframe_count as nat,
            node_count(forest_view(snapshot.nodes@)),
        ) + format_forest(forest_view(snapshot.nodes@), 0),
{
    let mut output = String::new();
    output.append("快照: ");
    output.append(snapshot.snapshot_id.as_str());
    output.append("\n");
    output.append("页面: ");
    output.append(snapshot.url.as_str());
    output.append("\n");
    output.append("标题: ");
    output.append(snapshot.title.as_str());
    output.append("\n");
    if snapshot.iframe_count > 0 {
        output.append("iframe 数量: ");
        let d = decimal_string(snapshot.iframe_count as u64);
        output.append(d.as_str());
        output.append("\n");
    }
    output.append("元素数量: ");
    let count = count_nodes(snapshot.nodes.as_slice());
    let d = decimal_string(count as u64);
    output.append(d.as_str());
    output.append("\n\n");
    output.append("元素树:\n");
    format_node(snapshot.nodes.as_slice(), 0, &mut output);
    output
}

} // verus!

verus! {

/// Whole seconds since the Unix epoch by the system clock, with
/// `std::time::SystemTime::now` (`None` for a clock before the epoch).
/// Nothing is claimed of the value: it is the time.
#[verifier::external_body]
fn seconds_since_epoch() -> (r: Option<u64>) {
    std::time::SystemTime::now().duration_since(std::time::UNIX_EPOCH).ok().map(|d| d.as_secs())
}

/// The timestamp for a clock reading: the whole seconds since the epoch as
/// an `i64` (cast as the snapshot format stores it), and 0 for a clock that
/// stands before the epoch.
pub fn timestamp_of_reading(reading: Option<u64>) -> (r: i64)
    ensures
        r == match reading {
            Some(s) => s as i64,
            None => 0i64,
        },
{
    match reading {
        Some(s) => s as i64,
        None => 0,
    }
}

/// The current Unix timestamp in seconds (0 for a clock before the epoch).
/// The reading comes from the system clock, so no clause states the value;
/// [`timestamp_of_reading`] states how a reading becomes the timestamp.
pub fn now_secs() -> (r: i64) {
    timestamp_of_reading(seconds_since_epoch())
}

} // verus!

verus! {

/// Selecting with a condition that holds nowhere selects nothing.
proof fn lemma_select_none(e: Seq<EntryView>, p: spec_fn(int) -> bool, n: int)
    requires
        forall|i: int| 0 <= i < n ==> !#[trigger] p(i),
    ensures
        select(e, p, n) == Seq::<SummaryView>::empty(),
    decreases n,
{
    if n > 0 {
        lemma_select_none(e, p, n - 1);
    }
}

/// Two entries that are each the last of their path, with the same path,
/// are the same entry.
proof fn lemma_last_of_path_unique(e: Seq<EntryView>, i: int, k: int)
    requires
        is_last_of_path(e, i),
        is_last_of_path(e, k),
        entry_path(e[i]) == entry_path(e[k]),
    ensures
        i == k,
{
    if i < k {
        assert(entry_path(e[k]) != entry_path(e[i]));
    } else if k < i {
        assert(entry_path(e[i]) != entry_path(e[k]));
    }
}

/// Comparing a snapshot with itself finds nothing added, removed or
/// changed.
pub proof fn law_diff_with_itself_is_empty(f: Seq<NodeView>)
    ensures
        added_of(diff_entries(f, "root"@), diff_entries(f, "root"@)).len() == 0,
        changed_of(diff_entries(f, "root"@), diff_entries(f, "root"@)).len() == 0,
{
    let e = diff_entries(f, "root"@);
    let pa = |i: int| is_last_of_path(e, i) && !has_path(e, entry_path(e[i]));
    assert forall|i: int| 0 <= i < e.len() implies !#[trigger] pa(i) by {
        assert(entry_path(e[i]) == entry_path(e[i]));
        assert(has_path(e, entry_path(e[i])));
    }
    lemma_select_none(e, pa, e.len() as int);
    let pc = |i: int|
        is_last_of_path(e, i) && has_path(e, entry_path(e[i])) && !same_content(
            e[i].1,
            entry_for(e, entry_path(e[i])).1,
        );
    assert forall|i: int| 0 <= i < e.len() implies !#[trigger] pc(i) by {
        if is_last_of_path(e, i) {
            let p = entry_path(e[i]);
            let k = choose|k: int| is_last_of_path(e, k) && entry_path(e[k]) == p;
            lemma_last_of_path_unique(e, i, k);
            assert(entry_for(e, p) == e[i]);
            assert(attrs_equiv(e[i].1.3, e[i].1.3));
        }
    }
    lemma_select_none(e, pc, e.len() as int);
}

/// What holds of the summary of every entry below `n` that satisfies the
/// condition holds of every summary that the selection gives.
proof fn lemma_select_keeps(e: Seq<EntryView>, p: spec_fn(int) -> bool, q: spec_fn(SummaryView) -> bool, n: int)
    requires
        forall|i: int| 0 <= i < n && p(i) ==> q(#[trigger] e[i].0),
    ensures
        forall|m: int| 0 <= m < select(e, p, n).len() ==> q(#[trigger] select(e, p, n)[m]),
    decreases n,
{
    if n > 0 {
        lemma_select_keeps(e, p, q, n - 1);
        let prev = select(e, p, n - 1);
        assert forall|m: int| 0 <= m < select(e, p, n).len() implies q(#[trigger] select(e, p, n)[m]) by {
            if m < prev.len() {
                assert(select(e, p, n)[m] == prev[m]);
            } else {
                assert(select(e, p, n)[m] == e[n - 1].0);
            }
        }
    }
}

/// The three parts of a diff never share a path: an added node stands at a
/// path that the earlier snapshot lacks, a removed one at a path that the
/// later one lacks, and a changed one at a path that both have.
pub proof fn law_diff_parts_disjoint(new_f: Seq<NodeView>, old_f: Seq<NodeView>)
    ensures
        ({
            let n = diff_entries(new_f, "root"@);
            let o = diff_entries(old_f, "root"@);
            let added = added_of(n, o);
            let removed = added_of(o, n);
            let changed = changed_of(n, o);
            &&& forall|a: int| 0 <= a < added.len() ==> !has_path(o, (#[trigger] added[a]).3)
            &&& forall|r: int| 0 <= r < removed.len() ==> !has_path(n, (#[trigger] removed[r]).3)
            &&& forall|r: int| 0 <= r < removed.len() ==> has_path(o, (#[trigger] removed[r]).3)
            &&& forall|c: int|
                0 <= c < changed.len() ==> has_path(n, (#[trigger] changed[c]).3) && has_path(o, changed[c].3)
            &&& forall|a: int, c: int|
                0 <= a < added.len() && 0 <= c < changed.len() ==> (#[trigger] added[a]).3 != (
                #[trigger] changed[c]).3
            &&& forall|a: int, r: int|
                0 <= a < added.len() && 0 <= r < removed.len() ==> (#[trigger] added[a]).3 != (
                #[trigger] removed[r]).3
            &&& forall|c: int, r: int|
                0 <= c < changed.len() && 0 <= r < removed.len() ==> (#[trigger] changed[c]).3 != (
                #[trigger] removed[r]).3
        }),
{
    let n = diff_entries(new_f, "root"@);
    let o = diff_entries(old_f, "root"@);
    let pa = |i: int| is_last_of_path(n, i) && !has_path(o, entry_path(n[i]));
    let pr = |i: int| is_last_of_path(o, i) && !has_path(n, entry_path(o[i]));
    let pc = |i: int|
        is_last_of_path(n, i) && has_path(o, entry_path(n[i])) && !same_content(
            n[i].1,
            entry_for(o, entry_path(n[i])).1,
        );
    let qa = |x: SummaryView| !has_path(o, x.3);
    let qr = |x: SummaryView| !has_path(n, x.3) && has_path(o, x.3);
    let qc = |x: SummaryView| has_path(n, x.3) && has_path(o, x.3);
    assert forall|i: int| 0 <= i < n.len() && pa(i) implies qa(#[trigger] n[i].0) by {}
    assert forall|i: int| 0 <= i < o.len() && pr(i) implies qr(#[trigger] o[i].0) by {
        assert(entry_path(o[i]) == o[i].0.3);
    }
    assert forall|i: int| 0 <= i < n.len() && pc(i) implies qc(#[trigger] n[i].0) by {
        assert(entry_path(n[i]) == n[i].0.3);
    }
    lemma_select_keeps(n, pa, qa, n.len() as int);
    lemma_select_keeps(o, pr, qr, o.len() as int);
    lemma_select_keeps(n, pc, qc, n.len() as int);
    let added = added_of(n, o);
    let removed = added_of(o, n);
    let changed = changed_of(n, o);
    assert(added == select(n, pa, n.len() as int));
    assert(removed == select(o, pr, o.len() as int));
    assert(changed == select(n, pc, n.len() as int));
    assert forall|a: int| 0 <= a < added.len() implies !has_path(o, (#[trigger] added[a]).3) by {
        assert(qa(added[a]));
    }
    assert forall|r: int| 0 <= r < removed.len() implies !has_path(n, (#[trigger] removed[r]).3) && has_path(
        o,
        removed[r].3,
    ) by {
        assert(qr(removed[r]));
    }
    assert forall|c: int| 0 <= c < changed.len() implies has_path(n, (#[trigger] changed[c]).3) && has_path(
        o,
        changed[c].3,
    ) by {
        assert(qc(changed[c]));
    }
}

} // verus!

verus! {

/// A search returns at most its limit of matches (at least one is always
/// allowed), and they are the first matches in document order: every match
/// when there are no more than the limit.
pub proof fn law_search_returns_first_matches(all: Seq<SummaryView>, max_results: usize)
    ensures
        ({
            let k: int = if max_results < 1 { 1 } else { max_results as int };
            let r = limited(all, k);
            &&& r.len() <= k
            &&& r.len() <= all.len()
            &&& r == all.take(r.len() as int)
            &&& all.len() <= k ==> r == all
        }),
{
    let k: int = if max_results < 1 { 1 } else { max_results as int };
    assert(all.take(all.len() as int) =~= all);
}

} // verus!

verus! {

impl SnapshotNodeSummary {
    /// A copy of this summary.
    pub fn duplicate(&self) -> (r: SnapshotNodeSummary)
        ensures
            summary_view(r) == summary_view(*self),
    {
        SnapshotNodeSummary {
            ref_id: self.ref_id.clone(),
            role: self.role.clone(),
            name: self.name.clone(),
            path: self.path.clone(),
        }
    }
}

/// Copies of a list of summaries.
pub fn duplicate_summaries(v: &Vec<SnapshotNodeSummary>) -> (r: Vec<SnapshotNodeSummary>)
    ensures
        summaries_view(r@) == summaries_view(v@),
{
    let mut r: Vec<SnapshotNodeSummary> = Vec::new();
    let mut i: usize = 0;
    while i < v.len()
        invariant
            i <= v.len(),
            r@.len() == i,
            summaries_view(r@) == summaries_view(v@.take(i as int)),
        decreases v.len() - i,
    {
        let c = v[i].duplicate();
        let ghost before = r@;
        r.push(c);
        proof {
            assert forall|j: int| 0 <= j < i + 1 implies summaries_view(r@)[j] == summaries_view(
                v@.take(i + 1),
            )[j] by {
                if j < i {
                    assert(summaries_view(before)[j] == summaries_view(v@.take(i as int))[j]);
                    assert(r@[j] == before[j]);
                }
            }
            assert(summaries_view(r@) =~= summaries_view(v@.take(i + 1)));
        }
        i = i + 1;
    }
    proof {
        assert(v@.take(v@.len() as int) =~= v@);
    }
    r
}

impl SnapshotDiff {
    /// A copy of this diff.
    pub fn duplicate(&self) -> (r: SnapshotDiff)
        ensures
            r.from_snapshot_id@ == self.from_snapshot_id@,
            r.to_snapshot_id@ == self.to_snapshot_id@,
            summaries_view(r.added@) == summaries_view(self.added@),
            summaries_view(r.removed@) == summaries_view(self.removed@),
            summaries_view(r.changed@) == summaries_view(self.changed@),
    {
        SnapshotDiff {
            from_snapshot_id: self.from_snapshot_id.clone(),
            to_snapshot_id: self.to_snapshot_id.clone(),
            added: duplicate_summaries(&self.added),
            removed: duplicate_summaries(&self.removed),
            changed: duplicate_summaries(&self.changed),
        }
    }
}

impl PageSnapshot {
    /// A deep copy of this snapshot.
    pub fn duplicate(&self) -> (r: PageSnapshot)
        ensures
            r.snapshot_id@ == self.snapshot_id@,
            r.url@ == self.url@,
            r.title@ == self.title@,
            forest_view(r.nodes@) == forest_view(self.nodes@),
            r.timestamp == self.timestamp,
            r.iframe_count == self.iframe_count,
            mappings_view(r.iframe_mappings@) == mappings_view(self.iframe_mappings@),
    {
        PageSnapshot {
            snapshot_id: self.snapshot_id.clone(),
            url: self.url.clone(),
            title: self.title.clone(),
            nodes: duplicate_nodes(&self.nodes),
            timestamp: self.timestamp,
            iframe_count: self.iframe_count,
            iframe_mappings: duplicate_mappings(&self.iframe_mappings),
        }
    }
}

} // verus!

verus! {

/// The nodes of a forest under `parent` in pre-order, each with its path.
pub open spec fn path_listing(f: Seq<NodeView>, parent: Seq<char>) -> Seq<(NodeView, Seq<char>)>
    decreases f,
{
    if f.len() == 0 {
        Seq::empty()
    } else {
        let path = node_path(parent, (f.len() - 1) as nat, f.last().role);
        path_listing(f.drop_last(), parent) + seq![(f.last(), path)] + path_listing(f.last().children, path)
    }
}

/// A node shows `query` when its name, its role or its value contains it,
/// ASCII case ignored.
pub open spec fn shows_query(query: Seq<char>) -> spec_fn((NodeView, Seq<char>)) -> bool {
    |e: (NodeView, Seq<char>)|
        contains_seq(ascii_lower(e.0.name), ascii_lower(query)) || contains_seq(
            ascii_lower(e.0.role),
            ascii_lower(query),
        ) || (e.0.value matches Some(v) && contains_seq(ascii_lower(v), ascii_lower(query)))
}

/// The summary of a node at a path.
pub open spec fn summary_at(e: (NodeView, Seq<char>)) -> SummaryView {
    (e.0.ref_id, e.0.role, e.0.name, e.1)
}

/// A search finds exactly the nodes whose name, role or value contains the
/// query, ASCII case ignored, in pre-order, each with its path: a search
/// returns the first `max(max_results, 1)` of these.
pub proof fn law_search_finds_nodes_showing_the_query(f: Seq<NodeView>, query: Seq<char>, parent: Seq<char>)
    ensures
        search_all(f, ascii_lower(query), parent) == path_listing(f, parent).filter(shows_query(query)).map_values(
            |e: (NodeView, Seq<char>)| summary_at(e),
        ),
    decreases f,
{
    let p = shows_query(query);
    let m = |e: (NodeView, Seq<char>)| summary_at(e);
    if f.len() == 0 {
        reveal(Seq::filter);
        assert(path_listing(f, parent).filter(p).map_values(m) =~= Seq::<SummaryView>::empty());
    } else {
        let last = f.last();
        let path = node_path(parent, (f.len() - 1) as nat, last.role);
        law_search_finds_nodes_showing_the_query(f.drop_last(), query, parent);
        law_search_finds_nodes_showing_the_query(last.children, query, path);
        let a = path_listing(f.drop_last(), parent);
        let b = seq![(last, path)];
        let c = path_listing(last.children, path);
        Seq::filter_distributes_over_add(a + b, c, p);
        Seq::filter_distributes_over_add(a, b, p);
        reveal(Seq::filter);
        assert(b.drop_last() =~= Seq::<(NodeView, Seq<char>)>::empty());
        let fb = b.filter(p);
        assert(fb == (if p((last, path)) {
            seq![(last, path)]
        } else {
            Seq::<(NodeView, Seq<char>)>::empty()
        })) by {
            assert(Seq::<(NodeView, Seq<char>)>::empty().filter(p) =~= Seq::<(NodeView, Seq<char>)>::empty());
            if p((last, path)) {
                assert(Seq::<(NodeView, Seq<char>)>::empty().push((last, path)) =~= seq![(last, path)]);
            }
        }
        assert(search_here(last, ascii_lower(query), path) =~= fb.map_values(m));
        let fa = a.filter(p);
        let fc = c.filter(p);
        assert((fa + fb + fc).map_values(m) =~= fa.map_values(m) + fb.map_values(m) + fc.map_values(m));
    }
}

} // verus!

verus! {

/// Every entry below `n` that satisfies the condition has its summary in
/// the selection.
proof fn lemma_select_contains(e: Seq<EntryView>, p: spec_fn(int) -> bool, n: int, i: int)
    requires
        0 <= i < n <= e.len(),
        p(i),
    ensures
        select(e, p, n).contains(e[i].0),
    decreases n,
{
    if i == n - 1 {
        assert(select(e, p, n) == select(e, p, n - 1).push(e[i].0));
        assert(select(e, p, n).last() == e[i].0);
    } else {
        lemma_select_contains(e, p, n - 1, i);
        let prev = select(e, p, n - 1);
        let k = choose|k: int| 0 <= k < prev.len() && prev[k] == e[i].0;
        if p(n - 1) {
            assert(select(e, p, n)[k] == prev[k]);
        } else {
            assert(select(e, p, n) == prev);
        }
    }
}

/// A node of the later snapshot at a path that the earlier snapshot also
/// has is reported as changed when its name, its value, its description
/// or the value of some attribute differs from the node at that path
/// before.
pub proof fn law_changed_content_is_reported(new_f: Seq<NodeView>, old_f: Seq<NodeView>, i: int)
    requires
        0 <= i < diff_entries(new_f, "root"@).len(),
        is_last_of_path(diff_entries(new_f, "root"@), i),
        has_path(diff_entries(old_f, "root"@), entry_path(diff_entries(new_f, "root"@)[i])),
        ({
            let now = diff_entries(new_f, "root"@)[i].1;
            let before = entry_for(diff_entries(old_f, "root"@), entry_path(diff_entries(new_f, "root"@)[i])).1;
            ||| now.0 != before.0
            ||| now.1 != before.1
            ||| now.2 != before.2
            ||| exists|k: Seq<char>| attr_lookup(now.3, k) != attr_lookup(before.3, k)
        }),
    ensures
        changed_of(diff_entries(new_f, "root"@), diff_entries(old_f, "root"@)).contains(
            diff_entries(new_f, "root"@)[i].0,
        ),
{
    let n = diff_entries(new_f, "root"@);
    let o = diff_entries(old_f, "root"@);
    let pc = |j: int|
        is_last_of_path(n, j) && has_path(o, entry_path(n[j])) && !same_content(
            n[j].1,
            entry_for(o, entry_path(n[j])).1,
        );
    assert(pc(i));
    lemma_select_contains(n, pc, n.len() as int, i);
}

} // verus!

verus! {

/// A node of the later snapshot at a path that the earlier snapshot lacks
/// is reported as added; symmetrically, a node of the earlier snapshot at a
/// path the later one lacks is reported as removed.
pub proof fn law_new_paths_are_added(new_f: Seq<NodeView>, old_f: Seq<NodeView>, i: int)
    requires
        0 <= i < diff_entries(new_f, "root"@).len(),
        is_last_of_path(diff_entries(new_f, "root"@), i),
        !has_path(diff_entries(old_f, "root"@), entry_path(diff_entries(new_f, "root"@)[i])),
    ensures
        added_of(diff_entries(new_f, "root"@), diff_entries(old_f, "root"@)).contains(
            diff_entries(new_f, "root"@)[i].0,
        ),
{
    let n = diff_entries(new_f, "root"@);
    let o = diff_entries(old_f, "root"@);
    let pa = |j: int| is_last_of_path(n, j) && !has_path(o, entry_path(n[j]));
    assert(pa(i));
    lemma_select_contains(n, pa, n.len() as int, i);
}

/// A node whose name, value, description and attribute values are all as
/// they were at its path is not reported as changed.
pub proof fn law_unchanged_content_is_not_reported(new_f: Seq<NodeView>, old_f: Seq<NodeView>, i: int)
    requires
        0 <= i < diff_entries(new_f, "root"@).len(),
        is_last_of_path(diff_entries(new_f, "root"@), i),
        ({
            let now = diff_entries(new_f, "root"@)[i].1;
            let before = entry_for(diff_entries(old_f, "root"@), entry_path(diff_entries(new_f, "root"@)[i])).1;
            &&& now.0 == before.0
            &&& now.1 == before.1
            &&& now.2 == before.2
            &&& forall|k: Seq<char>| attr_lookup(now.3, k) == attr_lookup(before.3, k)
        }),
    ensures
        !changed_of(diff_entries(new_f, "root"@), diff_entries(old_f, "root"@)).contains(
            diff_entries(new_f, "root"@)[i].0,
        ),
{
    let n = diff_entries(new_f, "root"@);
    let o = diff_entries(old_f, "root"@);
    let pc = |j: int|
        is_last_of_path(n, j) && has_path(o, entry_path(n[j])) && !same_content(
            n[j].1,
            entry_for(o, entry_path(n[j])).1,
        );
    let q = |x: SummaryView| exists|j: int| 0 <= j < n.len() && pc(j) && n[j].0 == x;
    assert forall|j: int| 0 <= j < n.len() && pc(j) implies q(#[trigger] n[j].0) by {}
    lemma_select_keeps(n, pc, q, n.len() as int);
    let c = changed_of(n, o);
    assert(c == select(n, pc, n.len() as int));
    if c.contains(n[i].0) {
        let m = choose|m: int| 0 <= m < c.len() && c[m] == n[i].0;
        assert(q(c[m]));
        let j = choose|j: int| 0 <= j < n.len() && pc(j) && n[j].0 == c[m];
        assert(entry_path(n[j]) == entry_path(n[i]));
        lemma_last_of_path_unique(n, i, j);
        assert(same_content(n[i].1, entry_for(o, entry_path(n[i])).1));
    }
}

} // verus!
