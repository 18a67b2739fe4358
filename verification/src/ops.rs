//! In-place edit operations on one network level: inserting nodes, setting
//! input slots, moving nodes, and the preview and hidden toggles. Each
//! operation validates its preconditions at run time and leaves the network
//! unchanged when they fail.

use vstd::prelude::*;
use crate::graph::{
    DocumentNode,
    DocumentNodeMetadata,
    NodeId,
    NodeInput,
    NodeNetwork,
    NodeOutput,
    has_id,
    id_list_contains,
    index_of_id,
    lemma_index_of_id,
    ids_distinct,
};
use crate::value::TaggedValue;

verus! {

/// What inserting a node does: a fresh id is appended, an existing id has
/// its node replaced in place; everything else is kept.
pub open spec fn insert_effect(
    pre: NodeNetwork,
    post: NodeNetwork,
    node_id: NodeId,
    node: DocumentNode,
) -> bool {
    &&& has_id(pre.nodes@, node_id) ==> post.nodes@ == pre.nodes@.update(
        index_of_id(pre.nodes@, node_id),
        (node_id, node),
    )
    &&& !has_id(pre.nodes@, node_id) ==> post.nodes@ == pre.nodes@.push((node_id, node))
    &&& post.inputs == pre.inputs
    &&& post.outputs == pre.outputs
    &&& post.previous_outputs == pre.previous_outputs
    &&& post.disabled == pre.disabled
    &&& ids_distinct(pre.nodes@) ==> ids_distinct(post.nodes@)
}

/// Insert a node under an id: a fresh id is appended, an existing id has
/// its node replaced in place.
#[verifier::loop_isolation(false)]
pub fn insert_node(network: &mut NodeNetwork, node_id: NodeId, node: DocumentNode)
    ensures
        insert_effect(*old(network), *final(network), node_id, node),
{
    match network.find_index(node_id) {
        Option::Some(i) => {
            network.nodes.set(i, (node_id, node));
            proof {
                lemma_index_of_id(old(network).nodes@, node_id);
            }
        },
        Option::None => {
            network.nodes.push((node_id, node));
        },
    }
}

/// What setting one input slot does: the slot is replaced and everything
/// else is kept; an absent node or an out-of-range slot changes nothing.
pub open spec fn set_input_effect(
    pre: NodeNetwork,
    post: NodeNetwork,
    applied: bool,
    node_id: NodeId,
    input_index: int,
    input: NodeInput,
) -> bool {
    let s = pre.nodes@;
    if has_id(s, node_id) && input_index < s[index_of_id(s, node_id)].1.inputs@.len() {
        let i = index_of_id(s, node_id);
        let n = s[i].1;
        &&& applied
        &&& post.nodes@.len() == s.len()
        &&& forall|k: int| 0 <= k < s.len() && k != i ==> post.nodes@[k] == s[k]
        &&& post.nodes@[i].0 == node_id
        &&& post.nodes@[i].1.name == n.name
        &&& post.nodes@[i].1.implementation == n.implementation
        &&& post.nodes@[i].1.metadata == n.metadata
        &&& post.nodes@[i].1.inputs@ == n.inputs@.update(input_index, input)
        &&& post.inputs == pre.inputs
        &&& post.outputs == pre.outputs
        &&& post.previous_outputs == pre.previous_outputs
        &&& post.disabled == pre.disabled
    } else {
        !applied && post == pre
    }
}

/// Set one input slot of one node. Nothing changes when the node is absent
/// or the slot index is out of range.
#[verifier::loop_isolation(false)]
pub fn set_node_input(
    network: &mut NodeNetwork,
    node_id: NodeId,
    input_index: usize,
    input: NodeInput,
) -> (applied: bool)
    ensures
        set_input_effect(*old(network), *final(network), applied, node_id, input_index as int, input),
{
    let i = match network.find_index(node_id) {
        Option::Some(i) => i,
        Option::None => {
            return false;
        },
    };
    if input_index >= network.nodes[i].1.inputs.len() {
        return false;
    }
    let ghost before = network.nodes@;
    let (nid, mut node) = network.nodes.remove(i);
    node.inputs.set(input_index, input);
    network.nodes.insert(i, (nid, node));
    proof {
        assert(final(network).nodes@ =~= before.update(
            index_of_id(before, node_id),
            final(network).nodes@[i as int],
        ));
    }
    true
}

/// The input slots padded with boundary placeholders up to `index`, then
/// with `input` written at `index`.
pub open spec fn extended_inputs(orig: Seq<NodeInput>, index: int, input: NodeInput) -> Seq<
    NodeInput,
> {
    let padded = if index < orig.len() {
        orig
    } else {
        orig + Seq::new((index + 1 - orig.len()) as nat, |k: int| NodeInput::Network)
    };
    padded.update(index, input)
}

/// What the slot-extending write does: the slot list is padded with
/// boundary placeholders up to the index, the slot becomes the hidden
/// literal, and everything else is kept; an absent node changes nothing.
pub open spec fn extend_input_effect(
    pre: NodeNetwork,
    post: NodeNetwork,
    applied: bool,
    node_id: NodeId,
    input_index: int,
    value: TaggedValue,
) -> bool {
    let s = pre.nodes@;
    if has_id(s, node_id) {
        let i = index_of_id(s, node_id);
        let n = s[i].1;
        &&& applied
        &&& post.nodes@.len() == s.len()
        &&& forall|k: int| 0 <= k < s.len() && k != i ==> post.nodes@[k] == s[k]
        &&& post.nodes@[i].0 == node_id
        &&& post.nodes@[i].1.name == n.name
        &&& post.nodes@[i].1.implementation == n.implementation
        &&& post.nodes@[i].1.metadata == n.metadata
        &&& post.nodes@[i].1.inputs@ == extended_inputs(
            n.inputs@,
            input_index,
            NodeInput::Value { tagged_value: value, exposed: false },
        )
        &&& post.inputs == pre.inputs
        &&& post.outputs == pre.outputs
        &&& post.previous_outputs == pre.previous_outputs
        &&& post.disabled == pre.disabled
    } else {
        !applied && post == pre
    }
}

/// Set one input slot of one node to a hidden literal, growing the slot
/// list with boundary placeholders when the index lies past its end.
/// Nothing changes when the node is absent.
#[verifier::loop_isolation(false)]
pub fn extend_set_input(
    network: &mut NodeNetwork,
    node_id: NodeId,
    input_index: usize,
    value: TaggedValue,
) -> (applied: bool)
    ensures
        extend_input_effect(
            *old(network),
            *final(network),
            applied,
            node_id,
            input_index as int,
            value,
        ),
{
    let i = match network.find_index(node_id) {
        Option::Some(i) => i,
        Option::None => {
            return false;
        },
    };
    let ghost before = network.nodes@;
    let (nid, mut node) = network.nodes.remove(i);
    let ghost orig_node = node;
    let ghost orig = node.inputs@;
    while node.inputs.len() <= input_index
        invariant
            node.name == orig_node.name,
            node.implementation == orig_node.implementation,
            node.metadata == orig_node.metadata,
            orig.len() <= node.inputs@.len(),
            node.inputs@.len() <= (if orig.len() > input_index {
                orig.len() as int
            } else {
                input_index + 1
            }),
            node.inputs@.take(orig.len() as int) == orig,
            forall|k: int| orig.len() <= k < node.inputs@.len() ==> node.inputs@[k] == NodeInput::Network,
        decreases input_index + 1 - node.inputs@.len(),
    {
        proof {
            assert(node.inputs@.push(NodeInput::Network).take(orig.len() as int) =~= orig);
        }
        node.inputs.push(NodeInput::Network);
    }
    node.inputs.set(input_index, NodeInput::Value { tagged_value: value, exposed: false });
    network.nodes.insert(i, (nid, node));
    proof {
        assert(final(network).nodes@ =~= before.update(
            index_of_id(before, node_id),
            final(network).nodes@[i as int],
        ));
        assert(final(network).nodes@[i as int].1.inputs@ =~= extended_inputs(
            orig,
            input_index as int,
            NodeInput::Value { tagged_value: value, exposed: false },
        ));
    }
    true
}

/// What moving a selection does: every listed node's position is displaced
/// by the given amounts, saturating at the grid ends; ids, names, links,
/// implementations and everything else are kept.
pub open spec fn move_effect(
    pre: NodeNetwork,
    post: NodeNetwork,
    ids: Seq<NodeId>,
    dx: int,
    dy: int,
) -> bool {
    &&& post.nodes@.len() == pre.nodes@.len()
    &&& forall|k: int|
        0 <= k < pre.nodes@.len() ==> {
            let e = pre.nodes@[k];
            let f = #[trigger] post.nodes@[k];
            &&& f.0 == e.0
            &&& f.1.name == e.1.name
            &&& f.1.inputs == e.1.inputs
            &&& f.1.implementation == e.1.implementation
            &&& f.1.metadata.position == if ids.contains(e.0) {
                e.1.metadata.position.spec_displaced(dx, dy)
            } else {
                e.1.metadata.position
            }
        }
    &&& post.inputs == pre.inputs
    &&& post.outputs == pre.outputs
    &&& post.previous_outputs == pre.previous_outputs
    &&& post.disabled == pre.disabled
}

/// Displace the position of every listed node that exists, saturating at
/// the ends of the grid.
#[verifier::loop_isolation(false)]
pub fn move_nodes(network: &mut NodeNetwork, ids: &Vec<NodeId>, dx: i64, dy: i64)
    ensures
        move_effect(*old(network), *final(network), ids@, dx as int, dy as int),
{
    let mut k: usize = 0;
    while k < network.nodes.len()
        invariant
            0 <= k <= network.nodes@.len(),
            network.nodes@.len() == old(network).nodes@.len(),
            forall|j: int|
                k <= j < network.nodes@.len() ==> #[trigger] network.nodes@[j] == old(
                    network,
                ).nodes@[j],
            forall|j: int|
                0 <= j < k ==> {
                    let e = old(network).nodes@[j];
                    let f = #[trigger] network.nodes@[j];
                    &&& f.0 == e.0
                    &&& f.1.name == e.1.name
                    &&& f.1.inputs == e.1.inputs
                    &&& f.1.implementation == e.1.implementation
                    &&& f.1.metadata.position == if ids@.contains(e.0) {
                        e.1.metadata.position.spec_displaced(dx as int, dy as int)
                    } else {
                        e.1.metadata.position
                    }
                },
            network.inputs == old(network).inputs,
            network.outputs == old(network).outputs,
            network.previous_outputs == old(network).previous_outputs,
            network.disabled == old(network).disabled,
        decreases network.nodes@.len() - k,
    {
        if id_list_contains(ids, network.nodes[k].0) {
            let (nid, mut node) = network.nodes.remove(k);
            node.metadata = DocumentNodeMetadata {
                position: node.metadata.position.displaced(dx, dy),
            };
            network.nodes.insert(k, (nid, node));
        }
        k = k + 1;
    }
}

/// What toggling the preview does. A node that is not a current output
/// becomes the primary output, the prior outputs being stashed first unless
/// a stash already exists; toggling a current output restores the stash,
/// when one exists; otherwise nothing changes.
pub open spec fn preview_effect(pre: NodeNetwork, post: NodeNetwork, node_id: NodeId) -> bool {
    &&& post.nodes == pre.nodes
    &&& post.inputs == pre.inputs
    &&& post.disabled == pre.disabled
    &&& !pre.spec_outputs_contain(node_id) && pre.outputs@.len() > 0 ==> {
        &&& post.previous_outputs matches Option::Some(p) && p@ == (match pre.previous_outputs {
            Option::Some(q) => q@,
            Option::None => pre.outputs@,
        })
        &&& post.outputs@ == pre.outputs@.update(0, NodeOutput { node_id, node_output_index: 0 })
    }
    &&& pre.spec_outputs_contain(node_id) && pre.previous_outputs is Some ==> {
        &&& post.outputs@ == pre.previous_outputs.unwrap()@
        &&& post.previous_outputs is None
    }
    &&& pre.spec_outputs_contain(node_id) && pre.previous_outputs is None ==> post == pre
    &&& !pre.spec_outputs_contain(node_id) && pre.outputs@.len() == 0 ==> post == pre
}

/// Toggle which node is previewed. A node that is not a current output
/// becomes the primary output, the prior outputs being stashed first unless
/// a stash already exists; toggling a current output restores the stash,
/// when one exists; otherwise nothing changes.
#[verifier::loop_isolation(false)]
pub fn toggle_preview(network: &mut NodeNetwork, node_id: NodeId)
    ensures
        preview_effect(*old(network), *final(network), node_id),
{
    if !network.outputs_contain(node_id) {
        if network.outputs.len() == 0 {
            return ;
        }
        let stashed: bool = network.previous_outputs.is_some();
        if !stashed {
            network.previous_outputs = Option::Some(network.outputs.clone());
            proof {
                assert(network.previous_outputs.unwrap()@ =~= old(network).outputs@);
            }
        }
        network.outputs.set(0, NodeOutput { node_id, node_output_index: 0 });
    } else {
        let restored = network.previous_outputs.take();
        match restored {
            Option::Some(outputs) => {
                network.outputs = outputs;
            },
            Option::None => {
                network.previous_outputs = Option::None;
            },
        }
    }
}

/// The id list with every listed id removed.
pub open spec fn ids_removed(list: Seq<NodeId>, removed: Seq<NodeId>) -> Seq<NodeId>
    decreases list,
{
    if list.len() == 0 {
        Seq::empty()
    } else {
        let rest = ids_removed(list.drop_last(), removed);
        if removed.contains(list.last()) {
            rest
        } else {
            rest.push(list.last())
        }
    }
}

/// The selected ids that may be disabled: those that are neither boundary
/// inputs nor among the outputs before any preview retargeting.
pub open spec fn disable_eligible(net: NodeNetwork, selected: Seq<NodeId>) -> Seq<NodeId>
    decreases selected,
{
    if selected.len() == 0 {
        Seq::empty()
    } else {
        let rest = disable_eligible(net, selected.drop_last());
        let id = selected.last();
        if !net.inputs@.contains(id) && !(exists|i: int|
            0 <= i < net.spec_original_outputs().len() && net.spec_original_outputs()[i].node_id
                == id) {
            rest.push(id)
        } else {
            rest
        }
    }
}

/// Every id the eligible list holds was selected and is neither a boundary
/// input nor an original output.
pub proof fn lemma_disable_eligible(net: NodeNetwork, selected: Seq<NodeId>)
    ensures
        forall|x: NodeId|
            #[trigger] disable_eligible(net, selected).contains(x) ==> selected.contains(x)
                && !net.inputs@.contains(x) && !(exists|i: int|
                0 <= i < net.spec_original_outputs().len()
                    && net.spec_original_outputs()[i].node_id == x),
    decreases selected,
{
    if selected.len() > 0 {
        lemma_disable_eligible(net, selected.drop_last());
        assert forall|x: NodeId| #[trigger] disable_eligible(net, selected).contains(x) implies
            selected.contains(x) && !net.inputs@.contains(x) && !(exists|i: int|
            0 <= i < net.spec_original_outputs().len() && net.spec_original_outputs()[i].node_id
                == x) by {
            let s = disable_eligible(net, selected);
            let rest = disable_eligible(net, selected.drop_last());
            let j = choose|j: int| 0 <= j < s.len() && s[j] == x;
            if j < rest.len() {
                assert(rest.contains(x));
                assert(selected.drop_last().contains(x));
                let k = choose|k: int| 0 <= k < selected.drop_last().len() && selected.drop_last()[k] == x;
                assert(selected[k] == x);
            } else {
                assert(x == selected.last());
                assert(selected[selected.len() - 1] == x);
            }
        }
    }
}

/// What toggling the hidden state does: when any selected node is
/// disabled, all selected nodes are enabled; otherwise every selected node
/// that is neither a boundary input nor an original output is disabled.
pub open spec fn hidden_effect(pre: NodeNetwork, post: NodeNetwork, selected: Seq<NodeId>) -> bool {
    &&& post.nodes == pre.nodes
    &&& post.inputs == pre.inputs
    &&& post.outputs == pre.outputs
    &&& post.previous_outputs == pre.previous_outputs
    &&& (exists|i: int|
        0 <= i < selected.len() && pre.disabled@.contains(#[trigger] selected[i]))
        ==> post.disabled@ == ids_removed(pre.disabled@, selected)
    &&& !(exists|i: int|
        0 <= i < selected.len() && pre.disabled@.contains(#[trigger] selected[i]))
        ==> post.disabled@ == pre.disabled@ + disable_eligible(pre, selected)
}

/// Toggle the hidden state of a selection as a group: when any selected
/// node is disabled, all selected nodes are enabled; otherwise every
/// selected node that is neither a boundary input nor an original output is
/// disabled. An input or output node is never added to the disabled set.
#[verifier::loop_isolation(false)]
pub fn toggle_hidden(network: &mut NodeNetwork, selected: &Vec<NodeId>)
    ensures
        hidden_effect(*old(network), *final(network), selected@),
{
    let mut any_disabled: bool = false;
    let mut i: usize = 0;
    while i < selected.len()
        invariant
            0 <= i <= selected@.len(),
            *network == *old(network),
            any_disabled == exists|j: int|
                0 <= j < i && old(network).disabled@.contains(#[trigger] selected@[j]),
        decreases selected@.len() - i,
    {
        if id_list_contains(&network.disabled, selected[i]) {
            proof {
                assert(old(network).disabled@.contains(selected@[i as int]));
            }
            any_disabled = true;
        }
        i = i + 1;
    }
    if any_disabled {
        let mut kept: Vec<NodeId> = Vec::new();
        let mut k: usize = 0;
        while k < network.disabled.len()
            invariant
                0 <= k <= network.disabled@.len(),
                *network == *old(network),
                kept@ =~= ids_removed(old(network).disabled@.take(k as int), selected@),
            decreases network.disabled@.len() - k,
        {
            proof {
                assert(old(network).disabled@.take((k + 1) as int).drop_last() =~= old(
                    network,
                ).disabled@.take(k as int));
            }
            let id = network.disabled[k];
            if !id_list_contains(selected, id) {
                kept.push(id);
            }
            k = k + 1;
        }
        proof {
            assert(old(network).disabled@.take(old(network).disabled@.len() as int) =~= old(
                network,
            ).disabled@);
        }
        network.disabled = kept;
    } else {
        let mut added: Vec<NodeId> = Vec::new();
        let mut k: usize = 0;
        while k < selected.len()
            invariant
                0 <= k <= selected@.len(),
                *network == *old(network),
                added@ =~= disable_eligible(*old(network), selected@.take(k as int)),
            decreases selected@.len() - k,
        {
            proof {
                assert(selected@.take((k + 1) as int).drop_last() =~= selected@.take(k as int));
            }
            let id = selected[k];
            let is_input = id_list_contains(&network.inputs, id);
            let is_original_output = network.original_outputs_contain(id);
            if !is_input && !is_original_output {
                added.push(id);
            }
            k = k + 1;
        }
        proof {
            assert(selected@.take(selected@.len() as int) =~= selected@);
        }
        network.disabled.append(&mut added);
    }
}

} // verus!
