//! Deleting a node: every link that targets the deleted id — at the same
//! level and recursively inside nested networks owned by sibling nodes — is
//! first rewritten to the target slot's registered default literal, then the
//! node itself is removed. A node listed among a level's boundary inputs or
//! current outputs blocks the deletion of that level, which then stays
//! unchanged.

use vstd::prelude::*;
use crate::catalog::spec_default_input;
use crate::graph::{
    DocumentNode,
    DocumentNodeImplementation,
    ImplView,
    InputView,
    NetView,
    NodeId,
    NodeInput,
    NodeNetwork,
    NodeView,
    entries_view,
    input_view,
    inputs_view,
    lemma_entries_view,
    net_view,
    node_view,
    id_list_contains,
};

verus! {

/// The payload of a literal slot view.
pub open spec fn value_view_of(iv: InputView) -> crate::value::ValueView
    recommends
        iv is Value,
{
    match iv {
        InputView::Value { value, exposed: _ } => value,
        _ => crate::value::ValueView::Empty,
    }
}

/// Whether the slot is a link targeting the id.
pub open spec fn input_links_to(iv: InputView, id: NodeId) -> bool {
    match iv {
        InputView::Node { node_id, .. } => node_id == id,
        _ => false,
    }
}

/// One slot of a node named `name` after deleting node `id`: a link to `id`
/// falls back to the slot's registered default literal, exposed; every other
/// slot — and a link whose slot has no registered literal default — is kept
/// as it is.
pub open spec fn delete_rewritten_input(
    name: Seq<char>,
    index: int,
    iv: InputView,
    id: NodeId,
) -> InputView {
    if input_links_to(iv, id) {
        match spec_default_input(name, index) {
            Option::Some(InputView::Value { value, exposed: _ }) => InputView::Value {
                value,
                exposed: true,
            },
            _ => iv,
        }
    } else {
        iv
    }
}

/// The rewritten slots of one node.
pub open spec fn delete_rewritten_inputs(
    name: Seq<char>,
    inputs: Seq<InputView>,
    id: NodeId,
) -> Seq<InputView> {
    Seq::new(inputs.len(), |j: int| delete_rewritten_input(name, j, inputs[j], id))
}

/// Whether the registered default for one slot is a literal that a
/// rewritten link can fall back to.
pub open spec fn literal_default(name: Seq<char>, j: int) -> bool {
    spec_default_input(name, j) matches Option::Some(InputView::Value { .. })
}

/// Whether deleting `id` is blocked at this level: the id is a boundary
/// input, a current output, or some sibling links to it from a slot with
/// no registered literal default — an unregistered type, a slot beyond the
/// type's slots, or a slot whose default is no literal — so that the link
/// could not be replaced and would dangle.
pub open spec fn delete_blocked(v: NetView, id: NodeId) -> bool {
    ||| v.inputs.contains(id)
    ||| exists|i: int| 0 <= i < v.outputs.len() && v.outputs[i].node_id == id
    ||| exists|i: int, j: int|
        0 <= i < v.nodes.len() && v.nodes[i].0 != id && 0 <= j < v.nodes[i].1.inputs.len()
            && input_links_to(#[trigger] v.nodes[i].1.inputs[j], id) && !literal_default(
            v.nodes[i].1.name,
            j,
        )
}

/// One node after the rewrite: its slots rewritten, and the rewrite carried
/// into its nested network, if it has one.
pub open spec fn delete_rewritten_node(n: NodeView, id: NodeId) -> NodeView
    decreases n,
{
    NodeView {
        name: n.name,
        inputs: delete_rewritten_inputs(n.name, n.inputs, id),
        implementation: match n.implementation {
            ImplView::Primitive(p) => ImplView::Primitive(p),
            ImplView::Network(sub) => ImplView::Network(delete_rewritten_net(sub, id)),
        },
        position: n.position,
    }
}

/// The node entries after the rewrite; an entry carrying the deleted id
/// itself is left untouched.
pub open spec fn delete_rewritten_entries(s: Seq<(NodeId, NodeView)>, id: NodeId) -> Seq<
    (NodeId, NodeView),
>
    decreases s,
{
    if s.len() == 0 {
        Seq::empty()
    } else {
        delete_rewritten_entries(s.drop_last(), id).push(
            {
                let e = s.last();
                if e.0 == id {
                    e
                } else {
                    (e.0, delete_rewritten_node(e.1, id))
                }
            },
        )
    }
}

/// A network level after the rewrite: unchanged when blocked, otherwise
/// every node rewritten and everything else kept.
pub open spec fn delete_rewritten_net(v: NetView, id: NodeId) -> NetView
    decreases v,
{
    if delete_blocked(v, id) {
        v
    } else {
        NetView {
            nodes: delete_rewritten_entries(v.nodes, id),
            inputs: v.inputs,
            outputs: v.outputs,
            previous_outputs: v.previous_outputs,
            disabled: v.disabled,
        }
    }
}

/// The rewritten entries are the entry-wise rewrite.
pub proof fn lemma_delete_rewritten_entries(s: Seq<(NodeId, NodeView)>, id: NodeId)
    ensures
        delete_rewritten_entries(s, id).len() == s.len(),
        forall|i: int|
            0 <= i < s.len() ==> #[trigger] delete_rewritten_entries(s, id)[i] == (if s[i].0 == id {
                s[i]
            } else {
                (s[i].0, delete_rewritten_node(s[i].1, id))
            }),
    decreases s,
{
    if s.len() > 0 {
        lemma_delete_rewritten_entries(s.drop_last(), id);
    }
}

/// Whether deleting `id` is blocked at this level.
#[verifier::loop_isolation(false)]
fn check_delete_blocked(network: &NodeNetwork, id: NodeId) -> (r: bool)
    ensures
        r == delete_blocked(net_view(*network), id),
{
    proof {
        lemma_entries_view(network.nodes@);
    }
    if id_list_contains(&network.inputs, id) {
        return true;
    }
    if network.outputs_contain(id) {
        proof {
            let k = choose|k: int|
                0 <= k < network.outputs@.len() && network.outputs@[k].node_id == id;
            assert(net_view(*network).outputs[k].node_id == id);
        }
        return true;
    }
    let ghost v = net_view(*network);
    let mut i: usize = 0;
    while i < network.nodes.len()
        invariant
            0 <= i <= network.nodes@.len(),
            v == net_view(*network),
            v.nodes.len() == network.nodes@.len(),
            forall|k: int|
                0 <= k < network.nodes@.len() ==> #[trigger] v.nodes[k] == (
                network.nodes@[k].0,
                node_view(network.nodes@[k].1),
                ),
            !v.inputs.contains(id),
            !(exists|k: int| 0 <= k < v.outputs.len() && v.outputs[k].node_id == id),
            forall|k: int, j: int|
                0 <= k < i && v.nodes[k].0 != id && 0 <= j < v.nodes[k].1.inputs.len()
                    && input_links_to(#[trigger] v.nodes[k].1.inputs[j], id) ==> literal_default(
                    v.nodes[k].1.name,
                    j,
                ),
        decreases network.nodes@.len() - i,
    {
        let entry_id = network.nodes[i].0;
        let node = &network.nodes[i].1;
        if entry_id != id {
            let mut j: usize = 0;
            while j < node.inputs.len()
                invariant
                    0 <= j <= node.inputs@.len(),
                    forall|l: int|
                        0 <= l < j && input_links_to(
                            #[trigger] inputs_view(node.inputs@)[l],
                            id,
                        ) ==> literal_default(node.name@, l),
                decreases node.inputs@.len() - j,
            {
                let links: bool = match &node.inputs[j] {
                    NodeInput::Node { node_id, .. } => *node_id == id,
                    _ => false,
                };
                if links {
                    proof {
                        assert(input_links_to(inputs_view(node.inputs@)[j as int], id));
                    }
                    let has_literal: bool = match crate::catalog::default_node_input(
                        &node.name,
                        j,
                    ) {
                        Option::Some(NodeInput::Value { .. }) => true,
                        _ => false,
                    };
                    if !has_literal {
                        proof {
                            assert(v.nodes[i as int].1.inputs[j as int] == inputs_view(
                                node.inputs@,
                            )[j as int]);
                            assert(!literal_default(v.nodes[i as int].1.name, j as int));
                            assert(delete_blocked(v, id));
                        }
                        return true;
                    }
                }
                j = j + 1;
            }
        }
        i = i + 1;
    }
    proof {
        assert(!delete_blocked(v, id)) by {
            if delete_blocked(v, id) {
                let (k, j) = choose|k: int, j: int|
                    0 <= k < v.nodes.len() && v.nodes[k].0 != id && 0 <= j
                        < v.nodes[k].1.inputs.len() && input_links_to(
                        #[trigger] v.nodes[k].1.inputs[j],
                        id,
                    ) && !literal_default(v.nodes[k].1.name, j);
            }
        }
    }
    false
}

/// One node after the rewrite.
#[verifier::loop_isolation(false)]
fn rewrite_node(node: DocumentNode, id: NodeId) -> (r: DocumentNode)
    ensures
        node_view(r) == delete_rewritten_node(node_view(node), id),
    decreases node,
{
    let ghost gnode = node;
    let DocumentNode { name, inputs, implementation, metadata } = node;
    let mut inputs = inputs;
    let mut i: usize = 0;
    while i < inputs.len()
        invariant
            inputs@.len() == gnode.inputs@.len(),
            0 <= i <= inputs@.len(),
            name@ == gnode.name@,
            forall|j: int|
                i <= j < inputs@.len() ==> #[trigger] input_view(inputs@[j]) == input_view(
                    gnode.inputs@[j],
                ),
            forall|j: int|
                0 <= j < i ==> #[trigger] input_view(inputs@[j]) == delete_rewritten_input(
                    gnode.name@,
                    j,
                    input_view(gnode.inputs@[j]),
                    id,
                ),
        decreases inputs@.len() - i,
    {
        let ghost orig = inputs@[i as int];
        let links: bool = match &inputs[i] {
            NodeInput::Node { node_id, .. } => *node_id == id,
            _ => false,
        };
        proof {
            assert(links == input_links_to(input_view(orig), id));
        }
        if links {
            match crate::catalog::default_node_input(&name, i) {
                Option::Some(default) => {
                    let ghost dv = input_view(default);
                    match default {
                        NodeInput::Value { tagged_value, exposed: _ } => {
                            proof {
                                assert(dv is Value);
                                assert(value_view_of(dv) == crate::value::value_view(tagged_value));
                            }
                            inputs.set(
                                i,
                                NodeInput::Value { tagged_value, exposed: true },
                            );
                            proof {
                                assert(input_view(inputs@[i as int]) == delete_rewritten_input(
                                    gnode.name@,
                                    i as int,
                                    input_view(orig),
                                    id,
                                ));
                            }
                        },
                        _ => {
                            proof {
                                assert(input_view(inputs@[i as int]) == delete_rewritten_input(
                                    gnode.name@,
                                    i as int,
                                    input_view(orig),
                                    id,
                                ));
                            }
                        },
                    }
                },
                Option::None => {
                    proof {
                        assert(input_view(inputs@[i as int]) == delete_rewritten_input(
                            gnode.name@,
                            i as int,
                            input_view(orig),
                            id,
                        ));
                    }
                },
            }
        }
        i = i + 1;
    }
    let implementation = match implementation {
        DocumentNodeImplementation::Primitive(p) => DocumentNodeImplementation::Primitive(p),
        DocumentNodeImplementation::Network(sub) => {
            proof {
                assert(decreases_to!(gnode => gnode.implementation));
            }
            DocumentNodeImplementation::Network(rewrite_net(sub, id))
        },
    };
    let r = DocumentNode { name, inputs, implementation, metadata };
    proof {
        assert(inputs_view(r.inputs@) =~= delete_rewritten_inputs(
            node_view(gnode).name,
            node_view(gnode).inputs,
            id,
        ));
    }
    r
}

/// A network level after the rewrite.
#[verifier::loop_isolation(false)]
pub fn rewrite_net(network: NodeNetwork, id: NodeId) -> (r: NodeNetwork)
    ensures
        net_view(r) == delete_rewritten_net(net_view(network), id),
    decreases network,
{
    let ghost gnet = network;
    if check_delete_blocked(&network, id) {
        return network;
    }
    let NodeNetwork { nodes, inputs, outputs, previous_outputs, disabled } = network;
    let mut nodes = nodes;
    let mut out_nodes: Vec<(NodeId, DocumentNode)> = Vec::new();
    proof {
        lemma_entries_view(gnet.nodes@);
        lemma_delete_rewritten_entries(entries_view(gnet.nodes@), id);
    }
    while nodes.len() > 0
        invariant
            out_nodes@.len() + nodes@.len() == gnet.nodes@.len(),
            forall|k: int|
                0 <= k < nodes@.len() ==> #[trigger] nodes@[k] == gnet.nodes@[k
                    + out_nodes@.len()],
            forall|k: int|
                0 <= k < out_nodes@.len() ==> #[trigger] entries_view(out_nodes@)[k]
                    == delete_rewritten_entries(entries_view(gnet.nodes@), id)[k],
            entries_view(out_nodes@).len() == out_nodes@.len(),
        decreases nodes@.len(),
    {
        let ghost done = out_nodes@.len() as int;
        let (nid, node) = nodes.remove(0);
        proof {
            assert(gnet.nodes@[done] == (nid, node));
            assert(decreases_to!(gnet => gnet.nodes));
            assert(decreases_to!(gnet.nodes => gnet.nodes@[done]));
            assert(decreases_to!(gnet.nodes@[done] => gnet.nodes@[done].1));
        }
        let ghost prev = out_nodes@;
        if nid == id {
            out_nodes.push((nid, node));
        } else {
            let new_node = rewrite_node(node, id);
            out_nodes.push((nid, new_node));
        }
        proof {
            lemma_entries_view(out_nodes@);
            lemma_entries_view(prev);
            assert(entries_view(gnet.nodes@)[done] == (
                gnet.nodes@[done].0,
                node_view(gnet.nodes@[done].1),
            ));
            assert forall|k: int| 0 <= k < out_nodes@.len() implies #[trigger] entries_view(
                out_nodes@,
            )[k] == delete_rewritten_entries(entries_view(gnet.nodes@), id)[k] by {
                assert(entries_view(out_nodes@)[k] == (out_nodes@[k].0, node_view(
                    out_nodes@[k].1,
                )));
                if k < done {
                    assert(out_nodes@[k] == prev[k]);
                    assert(entries_view(prev)[k] == (prev[k].0, node_view(prev[k].1)));
                } else {
                    assert(out_nodes@[k] == out_nodes@.last());
                }
            }
        }
    }
    let r = NodeNetwork { nodes: out_nodes, inputs, outputs, previous_outputs, disabled };
    proof {
        lemma_entries_view(r.nodes@);
        assert(entries_view(r.nodes@) =~= delete_rewritten_entries(
            entries_view(gnet.nodes@),
            id,
        ));
        assert(net_view(r).inputs == net_view(gnet).inputs);
        assert(net_view(r) == delete_rewritten_net(net_view(gnet), id));
    }
    r
}

/// Rewrite every reference to the deleting node, at this level and
/// recursively below. Nothing changes and `false` comes back when the id is
/// a boundary input or current output of this level, or a sibling links to
/// it under an unregistered type.
pub fn remove_references_from_network(network: &mut NodeNetwork, deleting_node_id: NodeId) -> (ok:
    bool)
    ensures
        ok == !delete_blocked(net_view(*old(network)), deleting_node_id),
        ok ==> net_view(*final(network)) == delete_rewritten_net(
            net_view(*old(network)),
            deleting_node_id,
        ),
        !ok ==> *final(network) == *old(network),
{
    if check_delete_blocked(network, deleting_node_id) {
        return false;
    }
    let mut taken = NodeNetwork::empty();
    core::mem::swap(network, &mut taken);
    let rewritten = rewrite_net(taken, deleting_node_id);
    *network = rewritten;
    true
}

/// The entries without those carrying the id.
pub open spec fn entries_without(s: Seq<(NodeId, NodeView)>, id: NodeId) -> Seq<(NodeId, NodeView)>
    decreases s,
{
    if s.len() == 0 {
        Seq::empty()
    } else {
        let rest = entries_without(s.drop_last(), id);
        if s.last().0 == id {
            rest
        } else {
            rest.push(s.last())
        }
    }
}

/// The network without the entries carrying the id.
pub open spec fn remove_entry(v: NetView, id: NodeId) -> NetView {
    NetView { nodes: entries_without(v.nodes, id), ..v }
}

/// What removing a node does: every reference to it is rewritten to the
/// target slot's default, then its entry is dropped; a blocked deletion
/// changes nothing and reports failure.
pub open spec fn delete_effect(
    pre: NodeNetwork,
    post: NodeNetwork,
    ok: bool,
    node_id: NodeId,
) -> bool {
    &&& ok == !delete_blocked(net_view(pre), node_id)
    &&& ok ==> net_view(post) == remove_entry(
        delete_rewritten_net(net_view(pre), node_id),
        node_id,
    )
    &&& !ok ==> post == pre
}

/// Remove a node: rewrite every reference to it, then drop its entry. On a
/// blocked deletion nothing changes and `false` comes back.
#[verifier::loop_isolation(false)]
pub fn remove_node(network: &mut NodeNetwork, node_id: NodeId) -> (ok: bool)
    ensures
        delete_effect(*old(network), *final(network), ok, node_id),
{
    if !remove_references_from_network(network, node_id) {
        return false;
    }
    let ghost mid = net_view(*network);
    let mut kept: Vec<(NodeId, DocumentNode)> = Vec::new();
    let ghost all = network.nodes@;
    proof {
        lemma_entries_view(all);
    }
    let mut i: usize = 0;
    while i < network.nodes.len()
        invariant
            0 <= i <= network.nodes@.len(),
            network.nodes@ == all,
            mid == net_view(*network),
            entries_view(kept@) =~= entries_without(entries_view(all).take(i as int), node_id),
        decreases network.nodes@.len() - i,
    {
        proof {
            assert(entries_view(all).take((i + 1) as int).drop_last() =~= entries_view(all).take(
                i as int,
            ));
            assert(entries_view(all).take((i + 1) as int).last() == entries_view(all)[i as int]);
        }
        let nid = network.nodes[i].0;
        if nid != node_id {
            let node = network.nodes[i].1.clone();
            let ghost prev = kept@;
            kept.push((nid, node));
            proof {
                lemma_entries_view(kept@);
                lemma_entries_view(prev);
                assert(entries_view(kept@) =~= entries_without(
                    entries_view(all).take((i + 1) as int),
                    node_id,
                ));
            }
        } else {
            proof {
                assert(entries_view(kept@) =~= entries_without(
                    entries_view(all).take((i + 1) as int),
                    node_id,
                ));
            }
        }
        i = i + 1;
    }
    network.nodes = kept;
    proof {
        assert(entries_view(all).take(all.len() as int) =~= entries_view(all));
        assert(net_view(*network).nodes =~= remove_entry(mid, node_id).nodes);
        assert(net_view(*network) == remove_entry(mid, node_id));
    }
    true
}

} // verus!
