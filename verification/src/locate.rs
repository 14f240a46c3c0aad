//! Locating elements in a snapshot by role, text or label, the way an agent
//! names them, and the errors when nothing matches.
use vstd::prelude::*;
use crate::error::Error;
use crate::snapshot::{
    attr_lookup, collect_snapshot_nodes, flatten, forest_view, lookup_attr, node_view, refs_view, NodeView,
    SnapshotNode,
};
use crate::state::{opt_seq, validation, Observation};
use crate::text::{contains_seq, str_contains, str_eq};

verus! {

/// The first answer a picker gives along a list of nodes.
pub open spec fn first_found(s: Seq<NodeView>, pick: spec_fn(NodeView) -> Option<Seq<char>>) -> Option<Seq<char>>
    decreases s.len(),
{
    if s.len() == 0 {
        None
    } else if pick(s[0]) is Some {
        pick(s[0])
    } else {
        first_found(s.drop_first(), pick)
    }
}

/// The nodes of a forest in pre-order.
pub open spec fn listing(nodes: Seq<SnapshotNode>) -> Seq<NodeView> {
    flatten(forest_view(nodes))
}

/// Roles of interactive controls that text lookups prefer.
pub open spec fn interactive_role(r: Seq<char>) -> bool {
    ||| r == "button"@
    ||| r == "link"@
    ||| r == "menuitem"@
    ||| r == "tab"@
    ||| r == "option"@
    ||| r == "radio"@
    ||| r == "checkbox"@
}

/// Roles of form fields that label lookups return.
pub open spec fn form_role(r: Seq<char>) -> bool {
    ||| r == "textbox"@
    ||| r == "searchbox"@
    ||| r == "combobox"@
    ||| r == "checkbox"@
    ||| r == "radio"@
    ||| r == "slider"@
    ||| r == "spinbutton"@
}

/// A node with role `role` whose name (when one is asked for) contains `name`.
pub open spec fn role_pick(role: Seq<char>, name: Option<Seq<char>>) -> spec_fn(NodeView) -> Option<Seq<char>> {
    |n: NodeView|
        if n.role == role && match name {
            Some(x) => contains_seq(n.name, x),
            None => true,
        } {
            Some(n.ref_id)
        } else {
            None
        }
}

/// The name or the value of a node contains `text`.
pub open spec fn shows_text(n: NodeView, text: Seq<char>) -> bool {
    contains_seq(n.name, text) || (n.value matches Some(v) && contains_seq(v, text))
}

/// A node that shows `text`; with `interactive`, only an interactive control.
pub open spec fn text_pick(text: Seq<char>, interactive: bool) -> spec_fn(NodeView) -> Option<Seq<char>> {
    |n: NodeView|
        if shows_text(n, text) && (!interactive || interactive_role(n.role)) {
            Some(n.ref_id)
        } else {
            None
        }
}

/// The first direct child of a node that is a form field.
pub open spec fn field_pick() -> spec_fn(NodeView) -> Option<Seq<char>> {
    |c: NodeView|
        if form_role(c.role) {
            Some(c.ref_id)
        } else {
            None
        }
}

/// The attribute `key` of a node contains `label`.
pub open spec fn attr_contains(n: NodeView, key: Seq<char>, label: Seq<char>) -> bool {
    attr_lookup(n.attributes, key) matches Some(v) && contains_seq(v, label)
}

/// What a node answers to a label lookup: itself when it is a form field
/// named after the label; its first form-field child when it is a `label`
/// named after it; itself when its `aria-label` or `title` contains it.
pub open spec fn label_pick(label: Seq<char>) -> spec_fn(NodeView) -> Option<Seq<char>> {
    |n: NodeView|
        if form_role(n.role) && contains_seq(n.name, label) {
            Some(n.ref_id)
        } else if n.role == "label"@ && contains_seq(n.name, label) && first_found(
            n.children,
            field_pick(),
        ) is Some {
            first_found(n.children, field_pick())
        } else if attr_contains(n, "aria-label"@, label) || attr_contains(n, "title"@, label) {
            Some(n.ref_id)
        } else {
            None
        }
}

/// The reference a text lookup returns: the first interactive control that
/// shows the text, else the first node that does.
pub open spec fn text_target(s: Seq<NodeView>, text: Seq<char>) -> Option<Seq<char>> {
    match first_found(s, text_pick(text, true)) {
        Some(r) => Some(r),
        None => first_found(s, text_pick(text, false)),
    }
}

/// Moving past a node the picker passes over keeps the answer.
proof fn lemma_first_found_step(s: Seq<NodeView>, i: int, pick: spec_fn(NodeView) -> Option<Seq<char>>)
    requires
        0 <= i < s.len(),
        pick(s[i]) is None,
    ensures
        first_found(s.skip(i), pick) == first_found(s.skip(i + 1), pick),
{
    assert(s.skip(i)[0] == s[i]);
    assert(s.skip(i).drop_first() =~= s.skip(i + 1));
}

/// The picker's answer at the node it first accepts.
proof fn lemma_first_found_hit(s: Seq<NodeView>, i: int, pick: spec_fn(NodeView) -> Option<Seq<char>>)
    requires
        0 <= i < s.len(),
        pick(s[i]) is Some,
    ensures
        first_found(s.skip(i), pick) == pick(s[i]),
{
    assert(s.skip(i)[0] == s[i]);
}

/// The first node of the forest with role `role` whose name (when given)
/// contains `name`, in pre-order.
pub fn find_ref_by_role(nodes: &[SnapshotNode], role: &str, name: Option<&str>) -> (r: Option<String>)
    ensures
        opt_seq(r) == first_found(
            listing(nodes@),
            role_pick(
                role@,
                match name {
                    Some(x) => Some(x@),
                    None => None,
                },
            ),
        ),
{
    let ghost pick = role_pick(
        role@,
        match name {
            Some(x) => Some(x@),
            None => None,
        },
    );
    let mut all: Vec<&SnapshotNode> = Vec::new();
    collect_snapshot_nodes(nodes, &mut all);
    let ghost flat = refs_view(all@);
    proof {
        assert(refs_view(Seq::<&SnapshotNode>::empty()) =~= Seq::<NodeView>::empty());
        assert(flat =~= listing(nodes@));
        assert(flat.skip(0) =~= flat);
    }
    let mut i: usize = 0;
    while i < all.len()
        invariant
            i <= all.len(),
            flat == refs_view(all@),
            flat == listing(nodes@),
            pick == role_pick(
                role@,
                match name {
                    Some(x) => Some(x@),
                    None => None,
                },
            ),
            first_found(flat, pick) == first_found(flat.skip(i as int), pick),
        decreases all.len() - i,
    {
        let n = all[i];
        proof {
            assert(flat[i as int] == node_view(*n));
        }
        let hit = str_eq(n.role.as_str(), role) && match name {
            Some(x) => str_contains(n.name.as_str(), x),
            None => true,
        };
        proof {
            assert(pick(flat[i as int]) == (if hit {
                Some(n.ref_id@)
            } else {
                None::<Seq<char>>
            }));
        }
        if hit {
            proof {
                lemma_first_found_hit(flat, i as int, pick);
            }
            return Some(n.ref_id.clone());
        }
        proof {
            lemma_first_found_step(flat, i as int, pick);
        }
        i = i + 1;
    }
    proof {
        assert(flat.skip(i as int) =~= Seq::<NodeView>::empty());
    }
    None
}

fn is_interactive_role(r: &String) -> (b: bool)
    ensures
        b == interactive_role(r@),
{
    let s = r.as_str();
    str_eq(s, "button") || str_eq(s, "link") || str_eq(s, "menuitem") || str_eq(s, "tab") || str_eq(
        s,
        "option",
    ) || str_eq(s, "radio") || str_eq(s, "checkbox")
}

fn is_form_role(r: &String) -> (b: bool)
    ensures
        b == form_role(r@),
{
    let s = r.as_str();
    str_eq(s, "textbox") || str_eq(s, "searchbox") || str_eq(s, "combobox") || str_eq(s, "checkbox")
        || str_eq(s, "radio") || str_eq(s, "slider") || str_eq(s, "spinbutton")
}

fn shows(n: &SnapshotNode, text: &str) -> (b: bool)
    ensures
        b == shows_text(node_view(*n), text@),
{
    if str_contains(n.name.as_str(), text) {
        return true;
    }
    match &n.value {
        Some(v) => str_contains(v.as_str(), text),
        None => false,
    }
}

/// The first node of a pre-order listing that shows `text` (an
/// interactive control when `interactive`).
fn first_showing(all: &Vec<&SnapshotNode>, text: &str, interactive: bool) -> (r: Option<String>)
    ensures
        opt_seq(r) == first_found(refs_view(all@), text_pick(text@, interactive)),
{
    let ghost flat = refs_view(all@);
    let ghost pick = text_pick(text@, interactive);
    proof {
        assert(flat.skip(0) =~= flat);
    }
    let mut i: usize = 0;
    while i < all.len()
        invariant
            i <= all.len(),
            flat == refs_view(all@),
            pick == text_pick(text@, interactive),
            first_found(flat, pick) == first_found(flat.skip(i as int), pick),
        decreases all.len() - i,
    {
        let n = all[i];
        proof {
            assert(flat[i as int] == node_view(*n));
        }
        let hit = shows(n, text) && (!interactive || is_interactive_role(&n.role));
        proof {
            assert(pick(flat[i as int]) == (if hit {
                Some(n.ref_id@)
            } else {
                None::<Seq<char>>
            }));
        }
        if hit {
            proof {
                lemma_first_found_hit(flat, i as int, pick);
            }
            return Some(n.ref_id.clone());
        }
        proof {
            lemma_first_found_step(flat, i as int, pick);
        }
        i = i + 1;
    }
    proof {
        assert(flat.skip(i as int) =~= Seq::<NodeView>::empty());
    }
    None
}

/// The first interactive control of the forest whose name or value contains
/// `text`, else the first node whose name or value does, in pre-order.
pub fn find_ref_by_text(nodes: &[SnapshotNode], text: &str) -> (r: Option<String>)
    ensures
        opt_seq(r) == text_target(listing(nodes@), text@),
{
    let mut all: Vec<&SnapshotNode> = Vec::new();
    collect_snapshot_nodes(nodes, &mut all);
    proof {
        assert(refs_view(Seq::<&SnapshotNode>::empty()) =~= Seq::<NodeView>::empty());
        assert(refs_view(all@) =~= listing(nodes@));
    }
    match first_showing(&all, text, true) {
        Some(r) => Some(r),
        None => first_showing(&all, text, false),
    }
}

/// The first child that is a form field.
fn first_field(children: &Vec<SnapshotNode>) -> (r: Option<String>)
    ensures
        opt_seq(r) == first_found(forest_view(children@), field_pick()),
{
    let ghost s = forest_view(children@);
    let ghost pick = field_pick();
    proof {
        assert(s.skip(0) =~= s);
    }
    let mut i: usize = 0;
    while i < children.len()
        invariant
            i <= children.len(),
            s == forest_view(children@),
            pick == field_pick(),
            first_found(s, pick) == first_found(s.skip(i as int), pick),
        decreases children.len() - i,
    {
        let c = &children[i];
        let hit = is_form_role(&c.role);
        proof {
            assert(s[i as int] == node_view(*c));
            assert(pick(s[i as int]) == (if hit {
                Some(c.ref_id@)
            } else {
                None::<Seq<char>>
            }));
        }
        if hit {
            proof {
                lemma_first_found_hit(s, i as int, pick);
            }
            return Some(c.ref_id.clone());
        }
        proof {
            lemma_first_found_step(s, i as int, pick);
        }
        i = i + 1;
    }
    proof {
        assert(s.skip(i as int) =~= Seq::<NodeView>::empty());
    }
    None
}

fn attr_has(n: &SnapshotNode, key: &str, label: &str) -> (b: bool)
    ensures
        b == attr_contains(node_view(*n), key@, label@),
{
    match lookup_attr(&n.attributes, key) {
        Some(v) => str_contains(v.as_str(), label),
        None => false,
    }
}

/// What one node answers to a label lookup (see [`label_pick`]).
fn label_answer(n: &SnapshotNode, label: &str) -> (r: Option<String>)
    ensures
        opt_seq(r) == (label_pick(label@))(node_view(*n)),
{
    proof {
        crate::snapshot::lemma_children_view(*n);
    }
    let named = str_contains(n.name.as_str(), label);
    if is_form_role(&n.role) && named {
        return Some(n.ref_id.clone());
    }
    if str_eq(n.role.as_str(), "label") && named {
        match first_field(&n.children) {
            Some(c) => {
                return Some(c);
            },
            None => {},
        }
    }
    if attr_has(n, "aria-label", label) || attr_has(n, "title", label) {
        Some(n.ref_id.clone())
    } else {
        None
    }
}

/// The first node of the forest, in pre-order, that answers a label
/// lookup: a form field named after the label, the first form field inside
/// a `label` named after it, or a node whose `aria-label` or `title`
/// contains it.
pub fn find_ref_by_label(nodes: &[SnapshotNode], label: &str) -> (r: Option<String>)
    ensures
        opt_seq(r) == first_found(listing(nodes@), label_pick(label@)),
{
    let ghost pick = label_pick(label@);
    let mut all: Vec<&SnapshotNode> = Vec::new();
    collect_snapshot_nodes(nodes, &mut all);
    let ghost flat = refs_view(all@);
    proof {
        assert(refs_view(Seq::<&SnapshotNode>::empty()) =~= Seq::<NodeView>::empty());
        assert(flat =~= listing(nodes@));
        assert(flat.skip(0) =~= flat);
    }
    let mut i: usize = 0;
    while i < all.len()
        invariant
            i <= all.len(),
            flat == refs_view(all@),
            flat == listing(nodes@),
            pick == label_pick(label@),
            first_found(flat, pick) == first_found(flat.skip(i as int), pick),
        decreases all.len() - i,
    {
        let n = all[i];
        proof {
            assert(flat[i as int] == node_view(*n));
        }
        match label_answer(n, label) {
            Some(r) => {
                proof {
                    lemma_first_found_hit(flat, i as int, pick);
                }
                return Some(r);
            },
            None => {},
        }
        proof {
            lemma_first_found_step(flat, i as int, pick);
        }
        i = i + 1;
    }
    proof {
        assert(flat.skip(i as int) =~= Seq::<NodeView>::empty());
    }
    None
}

/// The error when no element has the role (and name) asked for.
pub fn role_not_found(role: &str, name: Option<&str>) -> (e: Error)
    ensures
        e matches Error::ElementNotFound(m) && m@ == "No element with role '"@ + role@ + "'"@ + (match name {
            Some(n) => " and name containing '"@ + n@ + "'"@,
            None => Seq::empty(),
        }) + " found"@,
{
    let mut m = String::from_str("No element with role '");
    m.append(role);
    m.append("'");
    match name {
        Some(n) => {
            m.append(" and name containing '");
            m.append(n);
            m.append("'");
        },
        None => {},
    }
    m.append(" found");
    Error::ElementNotFound(m)
}

/// The error when no element shows the text asked for.
pub fn text_not_found(text: &str) -> (e: Error)
    ensures
        e matches Error::ElementNotFound(m) && m@ == "No element with text '"@ + text@ + "' found"@,
{
    let mut m = String::from_str("No element with text '");
    m.append(text);
    m.append("' found");
    Error::ElementNotFound(m)
}

/// The error when no element answers to the label asked for.
pub fn label_not_found(label: &str) -> (e: Error)
    ensures
        e matches Error::ElementNotFound(m) && m@ == "No element with label '"@ + label@ + "' found"@,
{
    let mut m = String::from_str("No element with label '");
    m.append(label);
    m.append("' found");
    Error::ElementNotFound(m)
}

/// A picker that answers with a node's own reference.
pub open spec fn picks_itself(pick: spec_fn(NodeView) -> Option<Seq<char>>) -> bool {
    forall|n: NodeView| #[trigger] pick(n) is Some ==> pick(n) == Some(n.ref_id)
}

/// What such a picker finds is the reference of a listed node.
proof fn lemma_found_is_listed(s: Seq<NodeView>, pick: spec_fn(NodeView) -> Option<Seq<char>>, r: Seq<char>)
    requires
        picks_itself(pick),
        first_found(s, pick) == Some(r),
    ensures
        exists|k: int| 0 <= k < s.len() && s[k].ref_id == r,
    decreases s.len(),
{
    if pick(s[0]) is Some {
        assert(s[0].ref_id == r);
    } else {
        lemma_found_is_listed(s.drop_first(), pick, r);
        let k = choose|k: int| 0 <= k < s.drop_first().len() && s.drop_first()[k].ref_id == r;
        assert(s[k + 1].ref_id == r);
    }
}

/// A reference that a role lookup finds in the latest snapshot is accepted
/// for an action in the context the snapshot was taken in.
pub proof fn law_role_lookup_is_accepted(
    obs: Observation,
    role: Seq<char>,
    name: Option<Seq<char>>,
    r: Seq<char>,
    out: Result<Seq<char>, Error>,
)
    requires
        first_found(listing(obs.snapshot.nodes@), role_pick(role, name)) == Some(r),
        validation(Some(obs), obs.snapshot.snapshot_id@, Some(r), Some(obs.page_id@), opt_seq(obs.frame_id), out),
    ensures
        out == Ok::<Seq<char>, Error>(obs.snapshot.url@),
{
    lemma_found_is_listed(listing(obs.snapshot.nodes@), role_pick(role, name), r);
}

/// A reference that a text lookup finds in the latest snapshot is accepted
/// for an action in the context the snapshot was taken in.
pub proof fn law_text_lookup_is_accepted(obs: Observation, text: Seq<char>, r: Seq<char>, out: Result<Seq<char>, Error>)
    requires
        text_target(listing(obs.snapshot.nodes@), text) == Some(r),
        validation(Some(obs), obs.snapshot.snapshot_id@, Some(r), Some(obs.page_id@), opt_seq(obs.frame_id), out),
    ensures
        out == Ok::<Seq<char>, Error>(obs.snapshot.url@),
{
    let l = listing(obs.snapshot.nodes@);
    match first_found(l, text_pick(text, true)) {
        Some(x) => lemma_found_is_listed(l, text_pick(text, true), r),
        None => lemma_found_is_listed(l, text_pick(text, false), r),
    }
}

/// Every node of a forest is listed.
proof fn lemma_member_listed(f: Seq<NodeView>, c: int)
    requires
        0 <= c < f.len(),
    ensures
        exists|m: int| 0 <= m < flatten(f).len() && flatten(f)[m] == f[c],
    decreases f.len(),
{
    let a = flatten(f.drop_last());
    assert(flatten(f) == a + seq![f.last()] + flatten(f.last().children));
    if c == f.len() - 1 {
        assert(flatten(f)[a.len() as int] == f[c]);
    } else {
        lemma_member_listed(f.drop_last(), c);
        let m = choose|m: int| 0 <= m < a.len() && a[m] == f.drop_last()[c];
        assert(flatten(f)[m] == f[c]);
    }
}

/// The children of a listed node are listed.
proof fn lemma_children_listed(f: Seq<NodeView>, k: int, c: int)
    requires
        0 <= k < flatten(f).len(),
        0 <= c < flatten(f)[k].children.len(),
    ensures
        exists|m: int| 0 <= m < flatten(f).len() && flatten(f)[m] == flatten(f)[k].children[c],
    decreases f,
{
    let a = flatten(f.drop_last());
    let last = f.last();
    let b = flatten(last.children);
    assert(flatten(f) == a + seq![last] + b);
    let x = flatten(f)[k].children[c];
    if k < a.len() {
        assert(flatten(f)[k] == a[k]);
        lemma_children_listed(f.drop_last(), k, c);
        let m = choose|m: int| 0 <= m < a.len() && a[m] == a[k].children[c];
        assert(flatten(f)[m] == x);
    } else if k == a.len() {
        assert(flatten(f)[k] == last);
        lemma_member_listed(last.children, c);
        let m = choose|m: int| 0 <= m < b.len() && b[m] == last.children[c];
        assert(flatten(f)[a.len() + 1 + m] == x);
    } else {
        let k2 = k - a.len() - 1;
        assert(flatten(f)[k] == b[k2]);
        assert(decreases_to!(f => last.children)) by {
            assert(f[f.len() - 1] == last);
        }
        lemma_children_listed(last.children, k2, c);
        let m = choose|m: int| 0 <= m < b.len() && b[m] == b[k2].children[c];
        assert(flatten(f)[a.len() + 1 + m] == x);
    }
}

/// What a label lookup finds is the reference of a listed node.
proof fn lemma_label_found_is_listed(s: Seq<NodeView>, f: Seq<NodeView>, label: Seq<char>, r: Seq<char>)
    requires
        s == flatten(f),
        first_found(s, label_pick(label)) == Some(r),
    ensures
        exists|k: int| 0 <= k < s.len() && s[k].ref_id == r,
{
    assert(s.skip(0) =~= s);
    lemma_label_found_from(s, f, 0, label, r);
}

proof fn lemma_label_found_from(s: Seq<NodeView>, f: Seq<NodeView>, i: int, label: Seq<char>, r: Seq<char>)
    requires
        s == flatten(f),
        0 <= i <= s.len(),
        first_found(s.skip(i), label_pick(label)) == Some(r),
    ensures
        exists|k: int| 0 <= k < s.len() && s[k].ref_id == r,
    decreases s.len() - i,
{
    let t = s.skip(i);
    assert(t.len() > 0);
    assert(t[0] == s[i]);
    let n = s[i];
    if (label_pick(label))(n) is Some {
        if form_role(n.role) && contains_seq(n.name, label) {
            assert(s[i].ref_id == r);
        } else if n.role == "label"@ && contains_seq(n.name, label) && first_found(n.children, field_pick()) is Some {
            lemma_found_is_listed(n.children, field_pick(), r);
            let c = choose|c: int| 0 <= c < n.children.len() && n.children[c].ref_id == r;
            lemma_children_listed(f, i, c);
        } else {
            assert(s[i].ref_id == r);
        }
    } else {
        assert(t.drop_first() =~= s.skip(i + 1));
        lemma_label_found_from(s, f, i + 1, label, r);
    }
}

/// A reference that a label lookup finds in the latest snapshot (a field,
/// or a field inside a label) is accepted for an action in the context the
/// snapshot was taken in.
pub proof fn law_label_lookup_is_accepted(obs: Observation, label: Seq<char>, r: Seq<char>, out: Result<Seq<char>, Error>)
    requires
        first_found(listing(obs.snapshot.nodes@), label_pick(label)) == Some(r),
        validation(Some(obs), obs.snapshot.snapshot_id@, Some(r), Some(obs.page_id@), opt_seq(obs.frame_id), out),
    ensures
        out == Ok::<Seq<char>, Error>(obs.snapshot.url@),
{
    lemma_label_found_is_listed(listing(obs.snapshot.nodes@), forest_view(obs.snapshot.nodes@), label, r);
}

} // verus!

verus! {

/// Past a run of nodes that the picker passes over, the answer is the
/// picker's answer from there on.
proof fn lemma_first_found_skip(s: Seq<NodeView>, k: int, pick: spec_fn(NodeView) -> Option<Seq<char>>)
    requires
        0 <= k <= s.len(),
        forall|j: int| 0 <= j < k ==> (#[trigger] pick(s[j])) is None,
    ensures
        first_found(s, pick) == first_found(s.skip(k), pick),
    decreases k,
{
    assert(s.skip(0) =~= s);
    if k > 0 {
        lemma_first_found_skip(s, k - 1, pick);
        lemma_first_found_step(s, k - 1, pick);
    }
}

/// A node whose `aria-label` or `title` attribute contains the label is
/// what a label lookup answers, unless an earlier node (in pre-order)
/// answers first or the node is itself a `label` element: then the lookup
/// gives that node's reference.
pub proof fn law_labelled_node_answers(nodes: Seq<SnapshotNode>, label: Seq<char>, k: int)
    requires
        0 <= k < listing(nodes).len(),
        forall|j: int| 0 <= j < k ==> (#[trigger] label_pick(label)(listing(nodes)[j])) is None,
        listing(nodes)[k].role != "label"@,
        ({
            let a = listing(nodes)[k].attributes;
            ||| (attr_lookup(a, "aria-label"@) matches Some(v) && contains_seq(v, label))
            ||| (attr_lookup(a, "title"@) matches Some(v) && contains_seq(v, label))
        }),
    ensures
        first_found(listing(nodes), label_pick(label)) == Some(listing(nodes)[k].ref_id),
{
    let s = listing(nodes);
    let pick = label_pick(label);
    lemma_first_found_skip(s, k, pick);
    lemma_first_found_hit(s, k, pick);
}

} // verus!

verus! {

/// With no node that the picker accepts, there is no answer.
proof fn lemma_first_found_none(s: Seq<NodeView>, pick: spec_fn(NodeView) -> Option<Seq<char>>)
    requires
        forall|j: int| 0 <= j < s.len() ==> (#[trigger] pick(s[j])) is None,
    ensures
        first_found(s, pick) is None,
    decreases s.len(),
{
    if s.len() > 0 {
        assert forall|j: int| 0 <= j < s.drop_first().len() implies (#[trigger] pick(s.drop_first()[j])) is None by {
            assert(s.drop_first()[j] == s[j + 1]);
        }
        lemma_first_found_none(s.drop_first(), pick);
    }
}

/// A role lookup gives the first node in pre-order with that role whose
/// name contains the given name (when one is given), and nothing when no
/// node has both.
pub proof fn law_role_lookup_finds_first(nodes: Seq<SnapshotNode>, role: Seq<char>, name: Option<Seq<char>>, k: int)
    ensures
        ({
            let s = listing(nodes);
            let fits = |n: NodeView|
                n.role == role && match name {
                    Some(x) => contains_seq(n.name, x),
                    None => true,
                };
            &&& (0 <= k < s.len() && fits(s[k]) && forall|j: int| 0 <= j < k ==> !fits(#[trigger] s[j]))
                ==> first_found(s, role_pick(role, name)) == Some(s[k].ref_id)
            &&& (forall|j: int| 0 <= j < s.len() ==> !fits(#[trigger] s[j])) ==> first_found(
                s,
                role_pick(role, name),
            ) is None
        }),
{
    let s = listing(nodes);
    let pick = role_pick(role, name);
    let fits = |n: NodeView|
        n.role == role && match name {
            Some(x) => contains_seq(n.name, x),
            None => true,
        };
    if 0 <= k < s.len() && fits(s[k]) && forall|j: int| 0 <= j < k ==> !fits(#[trigger] s[j]) {
        assert forall|j: int| 0 <= j < k implies (#[trigger] pick(s[j])) is None by {
            assert(!fits(s[j]));
        }
        lemma_first_found_skip(s, k, pick);
        lemma_first_found_hit(s, k, pick);
    }
    if forall|j: int| 0 <= j < s.len() ==> !fits(#[trigger] s[j]) {
        assert forall|j: int| 0 <= j < s.len() implies (#[trigger] pick(s[j])) is None by {
            assert(!fits(s[j]));
        }
        lemma_first_found_none(s, pick);
    }
}

/// A text lookup prefers interactive controls: it gives the first
/// interactive control in pre-order whose name or value contains the text;
/// only when there is none does it give the first node whose name or value
/// contains it.
pub proof fn law_text_lookup_prefers_controls(nodes: Seq<SnapshotNode>, text: Seq<char>, k: int)
    ensures
        ({
            let s = listing(nodes);
            let shows = |n: NodeView| contains_seq(n.name, text) || (n.value matches Some(v) && contains_seq(v, text));
            &&& (0 <= k < s.len() && shows(s[k]) && interactive_role(s[k].role) && forall|j: int|
                0 <= j < k ==> !(shows(#[trigger] s[j]) && interactive_role(s[j].role))) ==> text_target(s, text)
                == Some(s[k].ref_id)
            &&& ((forall|j: int| 0 <= j < s.len() ==> !(shows(#[trigger] s[j]) && interactive_role(s[j].role)))
                && 0 <= k < s.len() && shows(s[k]) && forall|j: int| 0 <= j < k ==> !shows(#[trigger] s[j]))
                ==> text_target(s, text) == Some(s[k].ref_id)
        }),
{
    let s = listing(nodes);
    let shows = |n: NodeView| contains_seq(n.name, text) || (n.value matches Some(v) && contains_seq(v, text));
    let pi = text_pick(text, true);
    let pa = text_pick(text, false);
    if 0 <= k < s.len() && shows(s[k]) && interactive_role(s[k].role) && forall|j: int|
        0 <= j < k ==> !(shows(#[trigger] s[j]) && interactive_role(s[j].role)) {
        assert forall|j: int| 0 <= j < k implies (#[trigger] pi(s[j])) is None by {
            assert(!(shows(s[j]) && interactive_role(s[j].role)));
        }
        lemma_first_found_skip(s, k, pi);
        lemma_first_found_hit(s, k, pi);
    }
    if (forall|j: int| 0 <= j < s.len() ==> !(shows(#[trigger] s[j]) && interactive_role(s[j].role))) && 0 <= k
        < s.len() && shows(s[k]) && forall|j: int| 0 <= j < k ==> !shows(#[trigger] s[j]) {
        assert forall|j: int| 0 <= j < s.len() implies (#[trigger] pi(s[j])) is None by {
            assert(!(shows(s[j]) && interactive_role(s[j].role)));
        }
        lemma_first_found_none(s, pi);
        assert forall|j: int| 0 <= j < k implies (#[trigger] pa(s[j])) is None by {
            assert(!shows(s[j]));
        }
        lemma_first_found_skip(s, k, pa);
        lemma_first_found_hit(s, k, pa);
    }
}

} // verus!
