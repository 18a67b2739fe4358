//! Processing one edit request: validate it against the active network,
//! mutate in place or emit follow-up requests, and answer with snapshot and
//! state updates for the surrounding collaborators. One request is fully
//! processed before the next is dequeued.

use vstd::prelude::*;
use crate::catalog::{
    collect_node_types,
    default_node_input,
    resolve_document_node_type,
    spec_resolve,
};
use crate::copy::{copy_nodes, map_ids, paste_shift, spec_copy_entries};
use crate::editor::{
    Document,
    NetOp,
    NodeGraphMessage,
    NodeGraphMessageHandler,
    Response,
    apply_at_path,
    replaced_nested,
};
use crate::graph::{
    DocumentNode,
    DocumentNodeImplementation,
    DocumentNodeMetadata,
    NodeId,
    NodeInput,
    NodeNetwork,
    Position,
    spec_get,
    spec_nested_network,
};
use crate::ops::{
    extend_input_effect,
    hidden_effect,
    insert_effect,
    ids_removed,
    move_effect,
    preview_effect,
    set_input_effect,
};
use crate::delete::delete_effect;
use crate::reach::{check_ids_distinct, connected_to_output, shift_effect};
use crate::snapshot::{
    collect_links,
    collect_nodes,
    nested_address_names,
    selection_action_buttons,
};
use crate::value::TaggedValue;
use crate::IdGenerator;
use vstd::string::StringExecFns;

verus! {

/// The index of the `n`-th exposed slot at or after `i`, counting exposed
/// slots only.
pub open spec fn nth_exposed_from(inputs: Seq<NodeInput>, i: int, n: int) -> Option<int>
    decreases inputs.len() - i,
{
    if i < 0 || i >= inputs.len() {
        Option::None
    } else if inputs[i].spec_is_exposed() {
        if n == 0 {
            Option::Some(i)
        } else {
            nth_exposed_from(inputs, i + 1, n - 1)
        }
    } else {
        nth_exposed_from(inputs, i + 1, n)
    }
}

/// The slot index the `n`-th exposed slot resolves to, if the node has that
/// many exposed slots.
pub fn find_exposed_index(inputs: &Vec<NodeInput>, n: usize) -> (r: Option<usize>)
    ensures
        match r {
            Option::Some(i) => nth_exposed_from(inputs@, 0, n as int) == Option::Some(i as int)
                && i < inputs@.len(),
            Option::None => nth_exposed_from(inputs@, 0, n as int) is None,
        },
{
    let mut i: usize = 0;
    let mut remaining: usize = n;
    while i < inputs.len()
        invariant
            0 <= i <= inputs@.len(),
            remaining <= n,
            nth_exposed_from(inputs@, 0, n as int) == nth_exposed_from(
                inputs@,
                i as int,
                remaining as int,
            ),
        decreases inputs@.len() - i,
    {
        if inputs[i].is_exposed() {
            if remaining == 0 {
                return Option::Some(i);
            }
            remaining = remaining - 1;
        }
        i = i + 1;
    }
    Option::None
}

/// What a mutating request does to the root network: the active path
/// resolved and the reached level changed as the operation says, or it did
/// not resolve and the root is unchanged.
pub open spec fn mutated_insert(
    pre: NodeNetwork,
    post: NodeNetwork,
    path: Seq<NodeId>,
    node_id: NodeId,
    node: DocumentNode,
) -> bool {
    match spec_nested_network(pre, path) {
        Option::None => post == pre,
        Option::Some(ap) => exists|pp: NodeNetwork|
            #[trigger] insert_effect(ap, pp, node_id, node) && replaced_nested(pre, post, path, pp),
    }
}

/// The root network after setting one input slot along the active path.
pub open spec fn mutated_set_input(
    pre: NodeNetwork,
    post: NodeNetwork,
    path: Seq<NodeId>,
    node_id: NodeId,
    input_index: int,
    input: NodeInput,
) -> bool {
    match spec_nested_network(pre, path) {
        Option::None => post == pre,
        Option::Some(ap) => exists|pp: NodeNetwork, applied: bool|
            #[trigger] set_input_effect(ap, pp, applied, node_id, input_index, input)
                && replaced_nested(pre, post, path, pp),
    }
}

/// The root network after a deletion along the active path.
pub open spec fn mutated_delete(
    pre: NodeNetwork,
    post: NodeNetwork,
    path: Seq<NodeId>,
    node_id: NodeId,
    ok: bool,
) -> bool {
    match spec_nested_network(pre, path) {
        Option::None => post == pre && !ok,
        Option::Some(ap) => exists|pp: NodeNetwork|
            #[trigger] delete_effect(ap, pp, ok, node_id) && replaced_nested(pre, post, path, pp),
    }
}

/// The root network after moving the selection along the active path.
pub open spec fn mutated_move(
    pre: NodeNetwork,
    post: NodeNetwork,
    path: Seq<NodeId>,
    sel: Seq<NodeId>,
    dx: int,
    dy: int,
) -> bool {
    match spec_nested_network(pre, path) {
        Option::None => post == pre,
        Option::Some(ap) => exists|pp: NodeNetwork|
            #[trigger] move_effect(ap, pp, sel, dx, dy) && replaced_nested(pre, post, path, pp),
    }
}

/// The root network after the auto-spacing shift along the active path.
pub open spec fn mutated_shift(
    pre: NodeNetwork,
    post: NodeNetwork,
    path: Seq<NodeId>,
    node_id: NodeId,
) -> bool {
    match spec_nested_network(pre, path) {
        Option::None => post == pre,
        Option::Some(ap) => if crate::graph::ids_distinct(ap.nodes@) {
            exists|pp: NodeNetwork|
                #[trigger] shift_effect(ap, pp, node_id) && replaced_nested(pre, post, path, pp)
        } else {
            replaced_nested(pre, post, path, ap)
        },
    }
}

/// The root network after the hidden toggle along the active path.
pub open spec fn mutated_hidden(
    pre: NodeNetwork,
    post: NodeNetwork,
    path: Seq<NodeId>,
    sel: Seq<NodeId>,
) -> bool {
    match spec_nested_network(pre, path) {
        Option::None => post == pre,
        Option::Some(ap) => exists|pp: NodeNetwork|
            #[trigger] hidden_effect(ap, pp, sel) && replaced_nested(pre, post, path, pp),
    }
}

/// The root network after the preview toggle along the active path.
pub open spec fn mutated_preview(
    pre: NodeNetwork,
    post: NodeNetwork,
    path: Seq<NodeId>,
    node_id: NodeId,
) -> bool {
    match spec_nested_network(pre, path) {
        Option::None => post == pre,
        Option::Some(ap) => exists|pp: NodeNetwork|
            #[trigger] preview_effect(ap, pp, node_id) && replaced_nested(pre, post, path, pp),
    }
}

/// The root network after the slot-extending write along a node path.
pub open spec fn mutated_extend_input(
    pre: NodeNetwork,
    post: NodeNetwork,
    path: Seq<NodeId>,
    node_id: NodeId,
    input_index: int,
    value: TaggedValue,
) -> bool {
    match spec_nested_network(pre, path) {
        Option::None => post == pre,
        Option::Some(ap) => exists|pp: NodeNetwork, applied: bool|
            #[trigger] extend_input_effect(ap, pp, applied, node_id, input_index, value)
                && replaced_nested(pre, post, path, pp),
    }
}

/// The slot the exposed-count resolves to is itself exposed.
proof fn lemma_nth_exposed(inputs: Seq<NodeInput>, i0: int, n: int, i: int)
    requires
        nth_exposed_from(inputs, i0, n) == Option::<int>::Some(i),
    ensures
        i0 <= i < inputs.len(),
        inputs[i].spec_is_exposed(),
    decreases inputs.len() - i0,
{
    if i0 < 0 || i0 >= inputs.len() {
    } else if inputs[i0].spec_is_exposed() {
        if n != 0 {
            lemma_nth_exposed(inputs, i0 + 1, n - 1, i);
        }
    } else {
        lemma_nth_exposed(inputs, i0 + 1, n, i);
    }
}

/// The slot content a disconnect writes: the slot's registered default,
/// with a literal default exposed — the disconnected slot was exposed, and
/// exposure is preserved.
pub open spec fn disconnect_input_view(name: Seq<char>, j: int) -> crate::graph::InputView {
    match crate::catalog::spec_default_input(name, j) {
        Option::Some(crate::graph::InputView::Value { value, exposed: _ }) =>
            crate::graph::InputView::Value { value, exposed: true },
        Option::Some(other) => other,
        Option::None => crate::graph::InputView::Network,
    }
}

/// The slot content an exposure toggle writes: a stored literal survives
/// with the new exposed flag; a link is replaced by the slot's registered
/// literal default under the new flag; a slot without a literal default is
/// kept as it is.
pub open spec fn expose_input_view(
    iv: crate::graph::InputView,
    name: Seq<char>,
    j: int,
    new_exposed: bool,
) -> crate::graph::InputView {
    match iv {
        crate::graph::InputView::Value { value, exposed: _ } => crate::graph::InputView::Value {
            value,
            exposed: new_exposed,
        },
        _ => match crate::catalog::spec_default_input(name, j) {
            Option::Some(crate::graph::InputView::Value { value, exposed: _ }) =>
                crate::graph::InputView::Value { value, exposed: new_exposed },
            _ => iv,
        },
    }
}

/// The layout positions of a clipboard payload's nodes, in payload order.
pub open spec fn paste_positions(data: Seq<(NodeId, DocumentNode)>) -> Seq<Position> {
    Seq::new(data.len(), |t: int| data[t].1.metadata.position)
}

/// Whether `k` is the smallest even displacement that moves the pasted
/// block clear of every existing node position.
pub open spec fn is_min_free_shift(an: NodeNetwork, positions: Seq<Position>, k: int) -> bool {
    &&& 0 <= k
    &&& k % 2 == 0
    &&& !crate::copy::spec_collision(an, positions, k)
    &&& forall|k2: int|
        0 <= k2 < k && k2 % 2 == 0 ==> crate::copy::spec_collision(an, positions, k2)
}

/// Whether a position leaves the grid axis when displaced by `(k, k)`.
pub open spec fn shift_overflows(p: Position, k: int) -> bool {
    ||| p.x + k > i64::MAX
    ||| p.x + k < i64::MIN
    ||| p.y + k > i64::MAX
    ||| p.y + k < i64::MIN
}

/// What pasting a parsed payload into the active network does. An empty
/// payload, one for which every representable even displacement collides,
/// one whose displaced positions leave the grid, or an exhausted id space
/// aborts wholesale: nothing is enqueued and no id is drawn. Otherwise the
/// payload is enqueued for insertion under fresh consecutive ids, every
/// link remapped through the id map, every position displaced by the
/// smallest collision-free even shift, followed by the new selection and a
/// graph refresh.
pub open spec fn spec_paste(
    an: NodeNetwork,
    data: Seq<(NodeId, DocumentNode)>,
    gen_pre: u64,
    gen_post: u64,
    pre_r: Seq<Response>,
    post_r: Seq<Response>,
) -> bool {
    let positions = paste_positions(data);
    let olds = Seq::new(data.len(), |t: int| data[t].0);
    if data.len() == 0 {
        post_r == pre_r && gen_post == gen_pre
    } else if forall|k: int|
        0 <= k <= i64::MAX && k % 2 == 0 ==> crate::copy::spec_collision(an, positions, k) {
        post_r == pre_r && gen_post == gen_pre
    } else {
        exists|k: int|
            #[trigger] is_min_free_shift(an, positions, k) && if (exists|t: int|
                0 <= t < data.len() && shift_overflows(#[trigger] positions[t], k)) {
                post_r == pre_r && gen_post == gen_pre
            } else if gen_pre + data.len() > u64::MAX {
                post_r == pre_r && gen_post == gen_pre
            } else {
                &&& gen_post == gen_pre + data.len()
                &&& post_r.len() == pre_r.len() + data.len() + 3
                &&& pre_r.is_prefix_of(post_r)
                &&& post_r[pre_r.len() as int] == Response::StartTransaction
                &&& forall|t: int|
                    0 <= t < data.len() ==> (#[trigger] post_r[pre_r.len() + 1 + t] matches
                        Response::Graph(
                        NodeGraphMessage::InsertNode { node_id, document_node },
                    ) && node_id == gen_pre + t && crate::graph::node_view(document_node) == (
                    crate::graph::NodeView {
                        position: Position {
                            x: (positions[t].x + k) as i64,
                            y: (positions[t].y + k) as i64,
                        },
                        ..crate::copy::mapped_node_view(
                            crate::graph::node_view(data[t].1),
                            spec_fresh_map(olds, gen_pre),
                        )
                    }))
                &&& (post_r[post_r.len() - 2] matches Response::Graph(
                    NodeGraphMessage::SelectNodes { nodes },
                ) && nodes@ == Seq::new(data.len(), |t: int| (gen_pre + t) as NodeId))
                &&& post_r.last() == Response::Graph(
                    NodeGraphMessage::SendGraph { should_rerender: false },
                )
            }
    }
}

/// The listed ids that exist as entries, in list order.
pub open spec fn existing_ids(entries: Seq<(NodeId, DocumentNode)>, sel: Seq<NodeId>) -> Seq<NodeId>
    decreases sel,
{
    if sel.len() == 0 {
        Seq::empty()
    } else {
        let rest = existing_ids(entries, sel.drop_last());
        if crate::graph::has_id(entries, sel.last()) {
            rest.push(sel.last())
        } else {
            rest
        }
    }
}

/// The old-to-new id pairs for a selection numbered in order.
pub open spec fn spec_enumerate_map(sel: Seq<NodeId>) -> Seq<(NodeId, NodeId)> {
    Seq::new(sel.len(), |i: int| (sel[i], i as NodeId))
}

/// Number a selection: each selected id paired with its position.
#[verifier::loop_isolation(false)]
pub fn enumerate_map(selected: &Vec<NodeId>) -> (r: Vec<(NodeId, NodeId)>)
    ensures
        r@ == spec_enumerate_map(selected@),
{
    let mut out: Vec<(NodeId, NodeId)> = Vec::new();
    let mut i: usize = 0;
    while i < selected.len()
        invariant
            0 <= i <= selected@.len(),
            out@ =~= spec_enumerate_map(selected@).take(i as int),
        decreases selected@.len() - i,
    {
        out.push((selected[i], i as u64));
        proof {
            assert(out@ =~= spec_enumerate_map(selected@).take((i + 1) as int));
        }
        i = i + 1;
    }
    proof {
        assert(spec_enumerate_map(selected@).take(selected@.len() as int) =~= spec_enumerate_map(
            selected@,
        ));
    }
    out
}

/// The old-to-new id pairs for a selection given fresh ids counted from
/// `first`.
pub open spec fn spec_fresh_map(sel: Seq<NodeId>, first: NodeId) -> Seq<(NodeId, NodeId)> {
    Seq::new(sel.len(), |i: int| (sel[i], (first + i) as NodeId))
}

/// Pair each listed id with a fresh id drawn from the generator.
#[verifier::loop_isolation(false)]
pub fn fresh_map(ids: &Vec<NodeId>, generator: &mut IdGenerator) -> (r: Vec<(NodeId, NodeId)>)
    requires
        old(generator).next_id + ids@.len() <= u64::MAX,
    ensures
        r@ == spec_fresh_map(ids@, old(generator).next_id),
        final(generator).next_id == old(generator).next_id + ids@.len(),
{
    let mut out: Vec<(NodeId, NodeId)> = Vec::new();
    let mut i: usize = 0;
    while i < ids.len()
        invariant
            0 <= i <= ids@.len(),
            generator.next_id == old(generator).next_id + i,
            out@ =~= spec_fresh_map(ids@, old(generator).next_id).take(i as int),
        decreases ids@.len() - i,
    {
        let fresh = generator.fresh();
        out.push((ids[i], fresh));
        proof {
            assert(out@ =~= spec_fresh_map(ids@, old(generator).next_id).take((i + 1) as int));
        }
        i = i + 1;
    }
    proof {
        assert(spec_fresh_map(ids@, old(generator).next_id).take(ids@.len() as int)
            =~= spec_fresh_map(ids@, old(generator).next_id));
    }
    out
}

/// The default slots a freshly created node of a registered type starts
/// with.
#[verifier::loop_isolation(false)]
pub fn default_inputs_of(node_type: &crate::catalog::DocumentNodeType) -> (r: Vec<NodeInput>)
    ensures
        crate::graph::inputs_view(r@) == Seq::new(
            node_type.inputs@.len(),
            |j: int| crate::catalog::input_types_view(node_type.inputs@)[j].default,
        ),
{
    let ghost target = Seq::new(
        node_type.inputs@.len(),
        |j: int| crate::catalog::input_types_view(node_type.inputs@)[j].default,
    );
    let mut out: Vec<NodeInput> = Vec::new();
    let mut i: usize = 0;
    while i < node_type.inputs.len()
        invariant
            0 <= i <= node_type.inputs@.len(),
            crate::graph::inputs_view(out@) =~= target.take(i as int),
        decreases node_type.inputs@.len() - i,
    {
        let d = node_type.inputs[i].default.clone();
        proof {
            crate::graph::lemma_inputs_view_push(out@, d);
            assert(crate::catalog::input_types_view(node_type.inputs@)[i as int]
                == crate::catalog::input_type_view(node_type.inputs@[i as int]));
            assert(crate::graph::inputs_view(out@).push(crate::graph::input_view(d))
                =~= target.take((i + 1) as int));
        }
        out.push(d);
        i = i + 1;
    }
    proof {
        assert(target.take(node_type.inputs@.len() as int) =~= target);
    }
    out
}

} // verus!

verus! {

/// Whether the earlier responses are kept and only new ones appended.
pub open spec fn appended(pre: Seq<Response>, post: Seq<Response>) -> bool {
    pre.is_prefix_of(post)
}

/// Appending twice appends.
pub proof fn lemma_prefix_trans<T>(a: Seq<T>, b: Seq<T>, c: Seq<T>)
    requires
        a.is_prefix_of(b),
        b.is_prefix_of(c),
    ensures
        a.is_prefix_of(c),
{
    assert forall|k: int| 0 <= k < a.len() implies c[k] == a[k] by {
        assert(b[k] == a[k]);
        assert(c[k] == b[k]);
    }
    assert(c.subrange(0, a.len() as int) =~= a);
}

/// A sequence is kept by one more push.
pub proof fn lemma_prefix_push(a: Seq<Response>, x: Response)
    ensures
        a.is_prefix_of(a.push(x)),
{
    assert(a.push(x).subrange(0, a.len() as int) =~= a);
}

/// Whether the node feeds into some current output of the network.
pub open spec fn spec_connected(net: NodeNetwork, id: NodeId) -> bool {
    exists|i: int|
        0 <= i < net.outputs@.len() && (#[trigger] net.outputs@[i].node_id == id
            || crate::reach::downstream(net, id, net.outputs@[i].node_id))
}

/// The follow-up deletion requests for a selection, one per selected node.
pub open spec fn delete_requests(sel: Seq<NodeId>) -> Seq<Response> {
    Seq::new(sel.len(), |i: int| Response::Graph(NodeGraphMessage::DeleteNode { node_id: sel[i] }))
}

/// Enqueue one deletion request per selected node.
#[verifier::loop_isolation(false)]
fn push_delete_requests(selected: &Vec<NodeId>, responses: &mut Vec<Response>)
    ensures
        final(responses)@ == old(responses)@ + delete_requests(selected@),
{
    let mut i: usize = 0;
    while i < selected.len()
        invariant
            0 <= i <= selected@.len(),
            responses@ =~= old(responses)@ + delete_requests(selected@).take(i as int),
        decreases selected@.len() - i,
    {
        responses.push(Response::Graph(NodeGraphMessage::DeleteNode { node_id: selected[i] }));
        proof {
            assert(responses@ =~= old(responses)@ + delete_requests(selected@).take((i + 1) as int));
        }
        i = i + 1;
    }
    proof {
        assert(delete_requests(selected@).take(selected@.len() as int) =~= delete_requests(
            selected@,
        ));
    }
}

/// Whether the rerender decision for a node is right for the network: the
/// node's connection to the output where the level's ids are distinct, and
/// a conservative `false` where they are not.
pub open spec fn rerender_decision(net: NodeNetwork, id: NodeId, r: bool) -> bool {
    if crate::graph::ids_distinct(net.nodes@) {
        r == spec_connected(net, id)
    } else {
        r == false
    }
}

/// Whether the node feeds the output of the active network, deciding
/// whether an edit must rerender; `false` where the level's ids collide.
fn rerender_for(network: &NodeNetwork, node_id: NodeId) -> (r: bool)
    ensures
        rerender_decision(*network, node_id, r),
{
    if check_ids_distinct(network) {
        connected_to_output(network, node_id)
    } else {
        false
    }
}

} // verus!

verus! {

/// From the generic application statement to the per-operation statement.
proof fn lemma_applied_insert(
    pre: NodeNetwork,
    post: NodeNetwork,
    path: Seq<NodeId>,
    node_id: NodeId,
    node: DocumentNode,
    ok: bool,
)
    requires
        crate::editor::applied_at(pre, post, path, NetOp::Insert { node_id, node }, ok),
    ensures
        mutated_insert(pre, post, path, node_id, node),
{
    match spec_nested_network(pre, path) {
        Option::None => {},
        Option::Some(ap) => {
            let pp = choose|pp: NodeNetwork|
                #[trigger] crate::editor::op_effect(NetOp::Insert { node_id, node }, ap, pp, ok)
                    && replaced_nested(pre, post, path, pp);
            assert(insert_effect(ap, pp, node_id, node) && replaced_nested(pre, post, path, pp));
        },
    }
}

/// From the generic application statement to the per-operation statement.
proof fn lemma_applied_set_input(
    pre: NodeNetwork,
    post: NodeNetwork,
    path: Seq<NodeId>,
    node_id: NodeId,
    input_index: usize,
    input: NodeInput,
    ok: bool,
)
    requires
        crate::editor::applied_at(
            pre,
            post,
            path,
            NetOp::SetInput { node_id, input_index, input },
            ok,
        ),
    ensures
        mutated_set_input(pre, post, path, node_id, input_index as int, input),
{
    match spec_nested_network(pre, path) {
        Option::None => {},
        Option::Some(ap) => {
            let pp = choose|pp: NodeNetwork|
                #[trigger] crate::editor::op_effect(
                    NetOp::SetInput { node_id, input_index, input },
                    ap,
                    pp,
                    ok,
                ) && replaced_nested(pre, post, path, pp);
            assert(set_input_effect(ap, pp, ok, node_id, input_index as int, input)
                && replaced_nested(pre, post, path, pp));
        },
    }
}

/// From the generic application statement to the per-operation statement.
proof fn lemma_applied_extend_input(
    pre: NodeNetwork,
    post: NodeNetwork,
    path: Seq<NodeId>,
    node_id: NodeId,
    input_index: usize,
    value: TaggedValue,
    ok: bool,
)
    requires
        crate::editor::applied_at(
            pre,
            post,
            path,
            NetOp::ExtendSetInput { node_id, input_index, value },
            ok,
        ),
    ensures
        mutated_extend_input(pre, post, path, node_id, input_index as int, value),
{
    match spec_nested_network(pre, path) {
        Option::None => {},
        Option::Some(ap) => {
            let pp = choose|pp: NodeNetwork|
                #[trigger] crate::editor::op_effect(
                    NetOp::ExtendSetInput { node_id, input_index, value },
                    ap,
                    pp,
                    ok,
                ) && replaced_nested(pre, post, path, pp);
            assert(extend_input_effect(ap, pp, ok, node_id, input_index as int, value)
                && replaced_nested(pre, post, path, pp));
        },
    }
}

/// From the generic application statement to the per-operation statement.
proof fn lemma_applied_delete(
    pre: NodeNetwork,
    post: NodeNetwork,
    path: Seq<NodeId>,
    node_id: NodeId,
    ok: bool,
)
    requires
        crate::editor::applied_at(pre, post, path, NetOp::Delete { node_id }, ok),
    ensures
        mutated_delete(pre, post, path, node_id, ok),
{
    match spec_nested_network(pre, path) {
        Option::None => {},
        Option::Some(ap) => {
            let pp = choose|pp: NodeNetwork|
                #[trigger] crate::editor::op_effect(NetOp::Delete { node_id }, ap, pp, ok)
                    && replaced_nested(pre, post, path, pp);
            assert(delete_effect(ap, pp, ok, node_id) && replaced_nested(pre, post, path, pp));
        },
    }
}

/// From the generic application statement to the per-operation statement.
proof fn lemma_applied_move(
    pre: NodeNetwork,
    post: NodeNetwork,
    path: Seq<NodeId>,
    ids: Vec<NodeId>,
    dx: i64,
    dy: i64,
    ok: bool,
)
    requires
        crate::editor::applied_at(pre, post, path, NetOp::Move { ids, dx, dy }, ok),
    ensures
        mutated_move(pre, post, path, ids@, dx as int, dy as int),
{
    match spec_nested_network(pre, path) {
        Option::None => {},
        Option::Some(ap) => {
            let pp = choose|pp: NodeNetwork|
                #[trigger] crate::editor::op_effect(NetOp::Move { ids, dx, dy }, ap, pp, ok)
                    && replaced_nested(pre, post, path, pp);
            assert(move_effect(ap, pp, ids@, dx as int, dy as int) && replaced_nested(
                pre,
                post,
                path,
                pp,
            ));
        },
    }
}

/// From the generic application statement to the per-operation statement.
proof fn lemma_applied_shift(
    pre: NodeNetwork,
    post: NodeNetwork,
    path: Seq<NodeId>,
    node_id: NodeId,
    ok: bool,
)
    requires
        crate::editor::applied_at(pre, post, path, NetOp::Shift { node_id }, ok),
    ensures
        mutated_shift(pre, post, path, node_id),
{
    match spec_nested_network(pre, path) {
        Option::None => {},
        Option::Some(ap) => {
            let pp = choose|pp: NodeNetwork|
                #[trigger] crate::editor::op_effect(NetOp::Shift { node_id }, ap, pp, ok)
                    && replaced_nested(pre, post, path, pp);
            if crate::graph::ids_distinct(ap.nodes@) {
                assert(shift_effect(ap, pp, node_id) && replaced_nested(pre, post, path, pp));
            } else {
                assert(pp == ap);
                assert(replaced_nested(pre, post, path, ap));
            }
        },
    }
}

/// From the generic application statement to the per-operation statement.
proof fn lemma_applied_hidden(
    pre: NodeNetwork,
    post: NodeNetwork,
    path: Seq<NodeId>,
    ids: Vec<NodeId>,
    ok: bool,
)
    requires
        crate::editor::applied_at(pre, post, path, NetOp::ToggleHidden { ids }, ok),
    ensures
        mutated_hidden(pre, post, path, ids@),
{
    match spec_nested_network(pre, path) {
        Option::None => {},
        Option::Some(ap) => {
            let pp = choose|pp: NodeNetwork|
                #[trigger] crate::editor::op_effect(NetOp::ToggleHidden { ids }, ap, pp, ok)
                    && replaced_nested(pre, post, path, pp);
            assert(hidden_effect(ap, pp, ids@) && replaced_nested(pre, post, path, pp));
        },
    }
}

/// From the generic application statement to the per-operation statement.
proof fn lemma_applied_preview(
    pre: NodeNetwork,
    post: NodeNetwork,
    path: Seq<NodeId>,
    node_id: NodeId,
    ok: bool,
)
    requires
        crate::editor::applied_at(pre, post, path, NetOp::TogglePreview { node_id }, ok),
    ensures
        mutated_preview(pre, post, path, node_id),
{
    match spec_nested_network(pre, path) {
        Option::None => {},
        Option::Some(ap) => {
            let pp = choose|pp: NodeNetwork|
                #[trigger] crate::editor::op_effect(NetOp::TogglePreview { node_id }, ap, pp, ok)
                    && replaced_nested(pre, post, path, pp);
            assert(preview_effect(ap, pp, node_id) && replaced_nested(pre, post, path, pp));
        },
    }
}

} // verus!

verus! {

impl NodeGraphMessageHandler {
    /// Process one edit request against the document: validate it, mutate
    /// the active network in place or enqueue follow-up requests, and
    /// enqueue updates for the surrounding collaborators.
    #[verifier::loop_isolation(false)]
    #[verifier::rlimit(100)]
    pub fn process_message(
        &mut self,
        message: NodeGraphMessage,
        document: &mut Document,
        thumbnails: &Vec<(NodeId, String)>,
        document_id: u64,
        generator: &mut IdGenerator,
        responses: &mut Vec<Response>,
    )
        ensures
            ({
                let pre_self = *old(self);
                let post_self = *final(self);
                let pre_root = old(document).document_network;
                let post_root = final(document).document_network;
                let path = pre_self.nested_path@;
                let pre_r = old(responses)@;
                let post_r = final(responses)@;
                match message {
                    NodeGraphMessage::CloseNodeGraph => {
                        &&& post_root == pre_root
                        &&& post_self.layer_path is None
                        &&& post_self.nested_path == pre_self.nested_path
                        &&& post_self.selected_nodes == pre_self.selected_nodes
                        &&& final(generator).next_id == old(generator).next_id
                        &&& post_r == pre_r + seq![
                            Response::Graph(NodeGraphMessage::UpdateNewNodeGraph),
                        ]
                    },
                    NodeGraphMessage::ConnectNodesByLink {
                        output_node,
                        output_node_connector_index,
                        input_node,
                        input_node_connector_index,
                    } => {
                        &&& post_root == pre_root
                        &&& post_self == pre_self
                        &&& final(generator).next_id == old(generator).next_id
                        &&& match spec_nested_network(pre_root, path) {
                            Option::None => post_r == pre_r,
                            Option::Some(an) => match spec_get(an, input_node) {
                                Option::None => post_r == pre_r,
                                Option::Some(n) => match nth_exposed_from(
                                    n.inputs@,
                                    0,
                                    input_node_connector_index as int,
                                ) {
                                    Option::None => post_r == pre_r,
                                    Option::Some(i) => exists|r: bool|
                                        #[trigger] rerender_decision(an, input_node, r) && post_r
                                            == pre_r + seq![
                                            Response::StartTransaction,
                                            Response::Graph(
                                                NodeGraphMessage::SetNodeInput {
                                                    node_id: input_node,
                                                    input_index: i as usize,
                                                    input: NodeInput::Node {
                                                        node_id: output_node,
                                                        output_index:
                                                            output_node_connector_index,
                                                        lambda: false,
                                                    },
                                                },
                                            ),
                                            Response::Graph(
                                                NodeGraphMessage::SendGraph {
                                                    should_rerender: r,
                                                },
                                            ),
                                        ],
                                },
                            },
                        }
                    },
                    NodeGraphMessage::Copy => {
                        &&& post_root == pre_root
                        &&& post_self == pre_self
                        &&& final(generator).next_id == old(generator).next_id
                        &&& match spec_nested_network(pre_root, path) {
                            Option::None => post_r == pre_r,
                            Option::Some(an) => {
                                &&& post_r.len() == pre_r.len() + 1
                                &&& pre_r.is_prefix_of(post_r)
                                &&& post_r.last() matches Response::CopyNodes { nodes }
                                    && crate::graph::entries_view(nodes@) == spec_copy_entries(
                                    an,
                                    spec_enumerate_map(pre_self.selected_nodes@),
                                    spec_enumerate_map(pre_self.selected_nodes@),
                                )
                            },
                        }
                    },
                    NodeGraphMessage::Cut => {
                        &&& post_root == pre_root
                        &&& post_self == pre_self
                        &&& post_r == pre_r + seq![
                            Response::Graph(NodeGraphMessage::Copy),
                            Response::Graph(NodeGraphMessage::DeleteSelectedNodes),
                        ]
                    },
                    NodeGraphMessage::CreateNode { node_id, node_type, x, y } => {
                        &&& post_root == pre_root
                        &&& post_self == pre_self
                        &&& match spec_resolve(node_type@) {
                            Option::None => {
                                &&& post_r.len() == pre_r.len() + 1
                                &&& pre_r.is_prefix_of(post_r)
                                &&& post_r.last() matches Response::DisplayError { .. }
                                &&& final(generator).next_id == old(generator).next_id
                            },
                            Option::Some(t) => {
                                if node_id is None && old(generator).next_id == u64::MAX {
                                    post_r == pre_r && final(generator).next_id == old(
                                        generator,
                                    ).next_id
                                } else {
                                    let id = match node_id {
                                        Option::Some(given) => given,
                                        Option::None => old(generator).next_id,
                                    };
                                    &&& post_r.len() == pre_r.len() + 3
                                    &&& pre_r.is_prefix_of(post_r)
                                    &&& post_r[pre_r.len() as int] == Response::StartTransaction
                                    &&& post_r[pre_r.len() as int + 1] matches Response::Graph(
                                        NodeGraphMessage::InsertNode {
                                            node_id: inserted,
                                            document_node,
                                        },
                                    ) && inserted == id && crate::graph::node_view(document_node)
                                        == (crate::graph::NodeView {
                                        name: t.name,
                                        inputs: Seq::new(t.inputs.len(), |j: int| t.inputs[j].default),
                                        implementation: crate::graph::ImplView::Primitive(t.name),
                                        position: Position { x, y },
                                    })
                                    &&& post_r.last() == Response::Graph(
                                        NodeGraphMessage::SendGraph { should_rerender: false },
                                    )
                                    &&& final(generator).next_id == (if node_id is None {
                                        old(generator).next_id + 1
                                    } else {
                                        old(generator).next_id as int
                                    })
                                }
                            },
                        }
                    },
                    NodeGraphMessage::DeleteNode { node_id } => {
                        &&& exists|ok: bool|
                            #[trigger] mutated_delete(pre_root, post_root, path, node_id, ok) && (
                            if ok {
                                post_self.selected_nodes@ == ids_removed(
                                    pre_self.selected_nodes@,
                                    seq![node_id],
                                )
                            } else {
                                post_self.selected_nodes == pre_self.selected_nodes
                            })
                        &&& post_self.layer_path == pre_self.layer_path
                        &&& post_self.nested_path == pre_self.nested_path
                        &&& appended(pre_r, post_r)
                    },
                    NodeGraphMessage::DeleteSelectedNodes => {
                        &&& post_root == pre_root
                        &&& post_self == pre_self
                        &&& (pre_r + seq![Response::StartTransaction] + delete_requests(
                            pre_self.selected_nodes@,
                        ) + seq![
                            Response::Graph(NodeGraphMessage::SendGraph { should_rerender: false }),
                        ]).is_prefix_of(post_r)
                        &&& post_r.len() <= pre_r.len() + pre_self.selected_nodes@.len() + 3
                    },
                    NodeGraphMessage::DisconnectNodes { node_id, input_index } => {
                        &&& post_root == pre_root
                        &&& post_self == pre_self
                        &&& match spec_nested_network(pre_root, path) {
                            Option::None => post_r == pre_r,
                            Option::Some(an) => match spec_get(an, node_id) {
                                Option::None => post_r == pre_r,
                                Option::Some(n) => if spec_resolve(n.name@) is None {
                                    post_r == pre_r
                                } else {
                                    match nth_exposed_from(n.inputs@, 0, input_index as int) {
                                        Option::None => post_r == pre_r,
                                        Option::Some(actual) => if actual >= spec_resolve(
                                            n.name@,
                                        ).unwrap().inputs.len() {
                                            post_r == pre_r
                                        } else {
                                            exists|rr: bool|
                                                #[trigger] rerender_decision(an, node_id, rr) && {
                                                    &&& post_r.len() == pre_r.len() + 3
                                                    &&& pre_r.is_prefix_of(post_r)
                                                    &&& post_r[pre_r.len() as int]
                                                        == Response::StartTransaction
                                                    &&& (post_r[pre_r.len() as int + 1] matches
                                                        Response::Graph(
                                                        NodeGraphMessage::SetNodeInput {
                                                            node_id: nid,
                                                            input_index: idx,
                                                            input,
                                                        },
                                                    ) && nid == node_id && idx as int == actual
                                                        && crate::graph::input_view(input)
                                                        == disconnect_input_view(n.name@, actual))
                                                    &&& post_r.last() == Response::Graph(
                                                        NodeGraphMessage::SendGraph {
                                                            should_rerender: rr,
                                                        },
                                                    )
                                                }
                                        },
                                    }
                                },
                            },
                        }
                    },
                    NodeGraphMessage::DoubleClickNode { node } => {
                        &&& post_root == pre_root
                        &&& post_self.layer_path == pre_self.layer_path
                        &&& post_self.selected_nodes == pre_self.selected_nodes
                        &&& ({
                            let descends = match spec_nested_network(pre_root, path) {
                                Option::None => false,
                                Option::Some(an) => match spec_get(an, node) {
                                    Option::Some(n) => n.implementation matches
                                        DocumentNodeImplementation::Network(_),
                                    Option::None => false,
                                },
                            };
                            if descends {
                                post_self.nested_path@ == path.push(node)
                            } else {
                                post_self.nested_path == pre_self.nested_path
                            }
                        })
                        &&& appended(pre_r, post_r)
                    },
                    NodeGraphMessage::DuplicateSelectedNodes => {
                        &&& post_root == pre_root
                        &&& post_self.layer_path == pre_self.layer_path
                        &&& post_self.nested_path == pre_self.nested_path
                        &&& match spec_nested_network(pre_root, path) {
                            Option::None => post_r == pre_r && post_self.selected_nodes
                                == pre_self.selected_nodes && final(generator).next_id == old(
                                generator,
                            ).next_id,
                            Option::Some(an) => {
                                if old(generator).next_id + pre_self.selected_nodes@.len()
                                    > u64::MAX {
                                    post_r == pre_r && post_self.selected_nodes
                                        == pre_self.selected_nodes && final(generator).next_id
                                        == old(generator).next_id
                                } else {
                                    let fm = spec_fresh_map(
                                        pre_self.selected_nodes@,
                                        old(generator).next_id,
                                    );
                                    let copied = spec_copy_entries(an, fm, fm);
                                    &&& final(generator).next_id == old(generator).next_id
                                        + pre_self.selected_nodes@.len()
                                    &&& post_self.selected_nodes@.len() == copied.len()
                                    &&& forall|k: int|
                                        0 <= k < copied.len()
                                            ==> #[trigger] post_self.selected_nodes@[k]
                                            == copied[k].0
                                    &&& appended(pre_r, post_r)
                                    &&& post_r.len() >= pre_r.len() + 1 + copied.len()
                                    &&& post_r[pre_r.len() as int] == Response::StartTransaction
                                    &&& forall|k: int|
                                        0 <= k < copied.len() ==> (#[trigger] post_r[pre_r.len() as int + 1
                                            + k] matches Response::Graph(
                                            NodeGraphMessage::InsertNode {
                                                node_id: inserted,
                                                document_node,
                                            },
                                        ) && inserted == copied[k].0 && crate::graph::node_view(
                                            document_node,
                                        ) == (crate::graph::NodeView {
                                            position: copied[k].1.position.spec_displaced(2, 2),
                                            ..copied[k].1
                                        }))
                                }
                            },
                        }
                    },
                    NodeGraphMessage::ExitNestedNetwork { depth_of_nesting } => {
                        &&& post_root == pre_root
                        &&& post_self.layer_path == pre_self.layer_path
                        &&& post_self.selected_nodes@.len() == 0
                        &&& post_self.nested_path@ == path.take(
                            if depth_of_nesting as int <= path.len() {
                                path.len() - depth_of_nesting as int
                            } else {
                                0
                            },
                        )
                        &&& appended(pre_r, post_r)
                    },
                    NodeGraphMessage::ExposeInput { node_id, input_index, new_exposed } => {
                        &&& post_root == pre_root
                        &&& post_self == pre_self
                        &&& match spec_nested_network(pre_root, path) {
                            Option::None => post_r == pre_r,
                            Option::Some(an) => match spec_get(an, node_id) {
                                Option::None => post_r == pre_r,
                                Option::Some(n) => if input_index >= n.inputs@.len() {
                                    post_r == pre_r
                                } else {
                                    exists|rr: bool|
                                        #[trigger] rerender_decision(an, node_id, rr) && {
                                            &&& post_r.len() == pre_r.len() + 4
                                            &&& pre_r.is_prefix_of(post_r)
                                            &&& post_r[pre_r.len() as int]
                                                == Response::StartTransaction
                                            &&& (post_r[pre_r.len() as int + 1] matches
                                                Response::Graph(
                                                NodeGraphMessage::SetNodeInput {
                                                    node_id: nid,
                                                    input_index: idx,
                                                    input,
                                                },
                                            ) && nid == node_id && idx == input_index
                                                && crate::graph::input_view(input)
                                                == expose_input_view(
                                                crate::graph::input_view(
                                                    n.inputs@[input_index as int],
                                                ),
                                                n.name@,
                                                input_index as int,
                                                new_exposed,
                                            ))
                                            &&& post_r[pre_r.len() as int + 2] == Response::Graph(
                                                NodeGraphMessage::SendGraph {
                                                    should_rerender: rr,
                                                },
                                            )
                                            &&& post_r.last() == Response::ResendActiveProperties
                                        }
                                },
                            },
                        }
                    },
                    NodeGraphMessage::InsertNode { node_id, document_node } => {
                        &&& mutated_insert(pre_root, post_root, path, node_id, document_node)
                        &&& post_self == pre_self
                        &&& post_r == pre_r
                    },
                    NodeGraphMessage::MoveSelectedNodes { displacement_x, displacement_y } => {
                        &&& mutated_move(
                            pre_root,
                            post_root,
                            path,
                            pre_self.selected_nodes@,
                            displacement_x as int,
                            displacement_y as int,
                        )
                        &&& post_self == pre_self
                        &&& appended(pre_r, post_r)
                    },
                    NodeGraphMessage::OpenNodeGraph { layer_path } => {
                        &&& post_root == pre_root
                        &&& post_self.layer_path == Option::Some(layer_path)
                        &&& post_self.nested_path == pre_self.nested_path
                        &&& (match spec_nested_network(pre_root, path) {
                            Option::Some(_) => post_self.selected_nodes@.len() == 0,
                            Option::None => post_self.selected_nodes
                                == pre_self.selected_nodes,
                        })
                        &&& appended(pre_r, post_r)
                    },
                    NodeGraphMessage::PasteNodes { nodes } => {
                        &&& post_root == pre_root
                        &&& post_self == pre_self
                        &&& appended(pre_r, post_r)
                        &&& match spec_nested_network(pre_root, path) {
                            Option::None => post_r == pre_r && final(generator).next_id == old(
                                generator,
                            ).next_id,
                            Option::Some(an) => spec_paste(
                                an,
                                nodes@,
                                old(generator).next_id,
                                final(generator).next_id,
                                pre_r,
                                post_r,
                            ),
                        }
                    },
                    NodeGraphMessage::RunDocumentGraph => {
                        &&& post_root == pre_root
                        &&& post_self == pre_self
                        &&& post_r == pre_r + seq![Response::RenderGraph { document_id }]
                    },
                    NodeGraphMessage::SelectNodes { nodes } => {
                        &&& post_root == pre_root
                        &&& post_self.selected_nodes == nodes
                        &&& post_self.layer_path == pre_self.layer_path
                        &&& post_self.nested_path == pre_self.nested_path
                        &&& appended(pre_r, post_r)
                    },
                    NodeGraphMessage::SendGraph { should_rerender } => {
                        &&& post_root == pre_root
                        &&& post_self == pre_self
                        &&& match spec_nested_network(pre_root, path) {
                            Option::None => post_r == pre_r,
                            Option::Some(an) => {
                                &&& appended(pre_r, post_r)
                                &&& post_r.len() > pre_r.len()
                                &&& post_r[pre_r.len() as int] matches Response::UpdateNodeGraph {
                                    nodes,
                                    links,
                                } && links@ == crate::snapshot::spec_links(
                                    crate::graph::entries_view(an.nodes@),
                                )
                            },
                        }
                    },
                    NodeGraphMessage::SetInputValue { node_id, input_index, value } => {
                        &&& post_root == pre_root
                        &&& post_self == pre_self
                        &&& appended(pre_r, post_r)
                    },
                    NodeGraphMessage::SetNodeInput { node_id, input_index, input } => {
                        &&& mutated_set_input(
                            pre_root,
                            post_root,
                            path,
                            node_id,
                            input_index as int,
                            input,
                        )
                        &&& post_self == pre_self
                        &&& post_r == pre_r
                    },
                    NodeGraphMessage::SetQualifiedInputValue {
                        layer_path,
                        node_path,
                        input_index,
                        value,
                    } => {
                        &&& (if node_path@.len() == 0 {
                            post_root == pre_root
                        } else {
                            mutated_extend_input(
                                pre_root,
                                post_root,
                                node_path@.take(node_path@.len() - 1),
                                node_path@.last(),
                                input_index as int,
                                value,
                            )
                        })
                        &&& post_self == pre_self
                        &&& appended(pre_r, post_r)
                    },
                    NodeGraphMessage::ShiftNode { node_id } => {
                        &&& mutated_shift(pre_root, post_root, path, node_id)
                        &&& post_self == pre_self
                        &&& post_r == pre_r + seq![
                            Response::Graph(NodeGraphMessage::SendGraph { should_rerender: false }),
                        ]
                    },
                    NodeGraphMessage::ToggleHidden => {
                        &&& post_root == pre_root
                        &&& post_self == pre_self
                        &&& post_r == pre_r + seq![
                            Response::StartTransaction,
                            Response::Graph(NodeGraphMessage::ToggleHiddenImpl),
                        ]
                    },
                    NodeGraphMessage::ToggleHiddenImpl => {
                        &&& mutated_hidden(pre_root, post_root, path, pre_self.selected_nodes@)
                        &&& post_self == pre_self
                        &&& appended(pre_r, post_r)
                    },
                    NodeGraphMessage::TogglePreview { node_id } => {
                        &&& post_root == pre_root
                        &&& post_self == pre_self
                        &&& post_r == pre_r + seq![
                            Response::StartTransaction,
                            Response::Graph(NodeGraphMessage::TogglePreviewImpl { node_id }),
                        ]
                    },
                    NodeGraphMessage::TogglePreviewImpl { node_id } => {
                        &&& mutated_preview(pre_root, post_root, path, node_id)
                        &&& post_self == pre_self
                        &&& appended(pre_r, post_r)
                    },
                    NodeGraphMessage::UpdateNewNodeGraph => {
                        &&& post_root == pre_root
                        &&& post_self.layer_path == pre_self.layer_path
                        &&& post_self.nested_path == pre_self.nested_path
                        &&& (match spec_nested_network(pre_root, path) {
                            Option::Some(_) => post_self.selected_nodes@.len() == 0,
                            Option::None => post_self.selected_nodes
                                == pre_self.selected_nodes,
                        })
                        &&& appended(pre_r, post_r)
                    },
                }
            }),
    {
        let ghost gmsg = message;
        match message {
            NodeGraphMessage::CloseNodeGraph => {
                self.layer_path = Option::None;
                responses.push(Response::Graph(NodeGraphMessage::UpdateNewNodeGraph));
            },
            NodeGraphMessage::ConnectNodesByLink {
                output_node,
                output_node_connector_index,
                input_node,
                input_node_connector_index,
            } => {
                let network = match document.document_network.nested_network(&self.nested_path) {
                    Option::Some(n) => n,
                    Option::None => {
                        return ;
                    },
                };
                let node = match network.get_node(input_node) {
                    Option::Some(n) => n,
                    Option::None => {
                        return ;
                    },
                };
                let input_index = match find_exposed_index(
                    &node.inputs,
                    input_node_connector_index,
                ) {
                    Option::Some(i) => i,
                    Option::None => {
                        return ;
                    },
                };
                let should_rerender = rerender_for(network, input_node);
                responses.push(Response::StartTransaction);
                responses.push(
                    Response::Graph(
                        NodeGraphMessage::SetNodeInput {
                            node_id: input_node,
                            input_index,
                            input: NodeInput::node(output_node, output_node_connector_index),
                        },
                    ),
                );
                responses.push(
                    Response::Graph(NodeGraphMessage::SendGraph { should_rerender }),
                );
            },
            NodeGraphMessage::Copy => {
                let new_ids = enumerate_map(&self.selected_nodes);
                let network = match document.document_network.nested_network(&self.nested_path) {
                    Option::Some(n) => n,
                    Option::None => {
                        return ;
                    },
                };
                let copied_nodes = copy_nodes(network, &new_ids);
                responses.push(Response::CopyNodes { nodes: copied_nodes });
            },
            NodeGraphMessage::CreateNode { node_id, node_type, x, y } => {
                let document_node_type = match resolve_document_node_type(&node_type) {
                    Option::Some(t) => t,
                    Option::None => {
                        responses.push(
                            Response::DisplayError {
                                title: "Cannot insert node".to_owned(),
                                description: "The document node type is not registered".to_owned(),
                            },
                        );
                        return ;
                    },
                };
                let id: NodeId = match node_id {
                    Option::Some(given) => given,
                    Option::None => {
                        if generator.next_id == u64::MAX {
                            return ;
                        }
                        generator.fresh()
                    },
                };
                let inputs = default_inputs_of(&document_node_type);
                let document_node = DocumentNode {
                    name: document_node_type.name,
                    inputs,
                    implementation: DocumentNodeImplementation::Primitive(node_type),
                    metadata: DocumentNodeMetadata { position: Position { x, y } },
                };
                proof {
                    assert(crate::graph::node_view(document_node).inputs =~= Seq::new(
                        spec_resolve(gmsg->CreateNode_node_type@).unwrap().inputs.len(),
                        |j: int| spec_resolve(gmsg->CreateNode_node_type@).unwrap().inputs[j].default,
                    ));
                }
                responses.push(Response::StartTransaction);
                responses.push(
                    Response::Graph(NodeGraphMessage::InsertNode { node_id: id, document_node }),
                );
                responses.push(
                    Response::Graph(NodeGraphMessage::SendGraph { should_rerender: false }),
                );
            },
            NodeGraphMessage::Cut => {
                responses.push(Response::Graph(NodeGraphMessage::Copy));
                responses.push(Response::Graph(NodeGraphMessage::DeleteSelectedNodes));
            },
            NodeGraphMessage::DeleteNode { node_id } => {
                let ok = apply_at_path(
                    &mut document.document_network,
                    &self.nested_path,
                    0,
                    NetOp::Delete { node_id },
                );
                proof {
                    assert(self.nested_path@.skip(0) =~= self.nested_path@);
                }
                if ok {
                    let mut kept: Vec<NodeId> = Vec::new();
                    let mut i: usize = 0;
                    while i < self.selected_nodes.len()
                        invariant
                            0 <= i <= self.selected_nodes@.len(),
                            kept@ =~= ids_removed(
                                self.selected_nodes@.take(i as int),
                                seq![node_id],
                            ),
                        decreases self.selected_nodes@.len() - i,
                    {
                        proof {
                            assert(self.selected_nodes@.take((i + 1) as int).drop_last()
                                =~= self.selected_nodes@.take(i as int));
                        }
                        let id = self.selected_nodes[i];
                        if id != node_id {
                            proof {
                                assert(!seq![node_id].contains(id)) by {
                                    if seq![node_id].contains(id) {
                                        let j = choose|j: int|
                                            0 <= j < 1 && seq![node_id][j] == id;
                                    }
                                }
                            }
                            kept.push(id);
                        } else {
                            proof {
                                assert(seq![node_id][0] == id);
                                assert(seq![node_id].contains(id));
                            }
                        }
                        i = i + 1;
                    }
                    proof {
                        assert(self.selected_nodes@.take(self.selected_nodes@.len() as int)
                            =~= self.selected_nodes@);
                    }
                    self.selected_nodes = kept;
                }
                let buttons = match document.document_network.nested_network(&self.nested_path) {
                    Option::Some(network) => Option::Some(
                        selection_action_buttons(network, &self.selected_nodes),
                    ),
                    Option::None => Option::None,
                };
                match buttons {
                    Option::Some(b) => {
                        responses.push(Response::UpdateSelectionActionButtons { buttons: b });
                    },
                    Option::None => {},
                }
                responses.push(
                    Response::UpdateNodeGraphSelection { selected: self.selected_nodes.clone() },
                );
                proof {
                    lemma_applied_delete(
                        old(document).document_network,
                        document.document_network,
                        old(self).nested_path@,
                        node_id,
                        ok,
                    );
                }
            },
            NodeGraphMessage::DeleteSelectedNodes => {
                responses.push(Response::StartTransaction);
                push_delete_requests(&self.selected_nodes, responses);
                responses.push(
                    Response::Graph(NodeGraphMessage::SendGraph { should_rerender: false }),
                );
                let ghost before_tail = responses@;
                let mut any_connected: bool = false;
                match document.document_network.nested_network(&self.nested_path) {
                    Option::Some(network) => {
                        if check_ids_distinct(network) {
                            let mut i: usize = 0;
                            while i < self.selected_nodes.len()
                                invariant
                                    0 <= i <= self.selected_nodes@.len(),
                                decreases self.selected_nodes@.len() - i,
                            {
                                if connected_to_output(network, self.selected_nodes[i]) {
                                    any_connected = true;
                                }
                                i = i + 1;
                            }
                        }
                    },
                    Option::None => {},
                }
                let mut pushed_tail: bool = false;
                if any_connected {
                    match &self.layer_path {
                        Option::Some(lp) => {
                            responses.push(
                                Response::RasterizeRegionBelowLayer { layer_path: lp.clone() },
                            );
                            pushed_tail = true;
                        },
                        Option::None => {},
                    }
                }
                proof {
                    if pushed_tail {
                        assert(responses@ =~= before_tail + seq![responses@.last()]);
                    } else {
                        assert(responses@ =~= before_tail + Seq::<Response>::empty());
                    }
                }
            },
            NodeGraphMessage::DisconnectNodes { node_id, input_index } => {
                let outcome: Option<(usize, NodeInput, bool)> = {
                    match document.document_network.nested_network(&self.nested_path) {
                        Option::None => Option::None,
                        Option::Some(network) => match network.get_node(node_id) {
                            Option::None => Option::None,
                            Option::Some(node) => match resolve_document_node_type(&node.name) {
                                Option::None => Option::None,
                                Option::Some(mut node_type) => {
                                    match find_exposed_index(&node.inputs, input_index) {
                                        Option::None => Option::None,
                                        Option::Some(actual_index) => {
                                            if actual_index < node_type.inputs.len() {
                                                let ghost type_inputs = node_type.inputs@;
                                                let slot = node_type.inputs.remove(actual_index);
                                                let mut input = slot.default;
                                                proof {
                                                    lemma_nth_exposed(
                                                        node.inputs@,
                                                        0,
                                                        input_index as int,
                                                        actual_index as int,
                                                    );
                                                    assert(crate::catalog::input_types_view(
                                                        type_inputs,
                                                    )[actual_index as int]
                                                        == crate::catalog::input_type_view(
                                                        type_inputs[actual_index as int],
                                                    ));
                                                }
                                                let was_exposed =
                                                    node.inputs[actual_index].is_exposed();
                                                match &mut input {
                                                    NodeInput::Value {
                                                        tagged_value: _,
                                                        exposed,
                                                    } => {
                                                        *exposed = was_exposed;
                                                    },
                                                    _ => {},
                                                }
                                                proof {
                                                    assert(crate::graph::input_view(input)
                                                        == disconnect_input_view(
                                                        node.name@,
                                                        actual_index as int,
                                                    ));
                                                }
                                                let r = rerender_for(network, node_id);
                                                Option::Some((actual_index, input, r))
                                            } else {
                                                Option::None
                                            }
                                        },
                                    }
                                },
                            },
                        },
                    }
                };
                match outcome {
                    Option::Some((actual_index, input, should_rerender)) => {
                        responses.push(Response::StartTransaction);
                        responses.push(
                            Response::Graph(
                                NodeGraphMessage::SetNodeInput {
                                    node_id,
                                    input_index: actual_index,
                                    input,
                                },
                            ),
                        );
                        responses.push(
                            Response::Graph(NodeGraphMessage::SendGraph { should_rerender }),
                        );
                    },
                    Option::None => {},
                }
            },
            NodeGraphMessage::DoubleClickNode { node } => {
                let descends: bool = match document.document_network.nested_network(
                    &self.nested_path,
                ) {
                    Option::Some(network) => match network.get_node(node) {
                        Option::Some(n) => match &n.implementation {
                            DocumentNodeImplementation::Network(_) => true,
                            DocumentNodeImplementation::Primitive(_) => false,
                        },
                        Option::None => false,
                    },
                    Option::None => false,
                };
                if descends {
                    self.nested_path.push(node);
                }
                self.send_graph(document, thumbnails, responses);
                let ghost c1 = responses@;
                self.collect_nested_addresses(document, responses);
                let ghost c2 = responses@;
                self.update_selected(document, responses);
                proof {
                    lemma_prefix_trans(old(responses)@, c1, c2);
                    lemma_prefix_trans(old(responses)@, c2, responses@);
                }
            },
            NodeGraphMessage::DuplicateSelectedNodes => {
                let active = document.document_network.nested_network(&self.nested_path);
                let network = match active {
                    Option::Some(n) => n,
                    Option::None => {
                        return ;
                    },
                };
                if self.selected_nodes.len() as u64 > u64::MAX - generator.next_id {
                    return ;
                }
                responses.push(Response::StartTransaction);
                let new_ids = fresh_map(&self.selected_nodes, generator);
                let copied_nodes = copy_nodes(network, &new_ids);
                let ghost copied = crate::graph::entries_view(copied_nodes@);
                let mut selected: Vec<NodeId> = Vec::new();
                let mut i: usize = 0;
                let ghost base = responses@;
                proof {
                    crate::graph::lemma_entries_view(copied_nodes@);
                }
                while i < copied_nodes.len()
                    invariant
                        0 <= i <= copied_nodes@.len(),
                        copied.len() == copied_nodes@.len(),
                        selected@.len() == i,
                        responses@.len() == base.len() + i,
                        base.is_prefix_of(responses@),
                        forall|k: int|
                            0 <= k < i ==> #[trigger] selected@[k] == copied[k].0,
                        forall|k: int|
                            0 <= k < i ==> (#[trigger] responses@[base.len() as int + k] matches
                                Response::Graph(
                                NodeGraphMessage::InsertNode { node_id: inserted, document_node },
                            ) && inserted == copied[k].0 && crate::graph::node_view(document_node)
                                == (crate::graph::NodeView {
                                position: copied[k].1.position.spec_displaced(2, 2),
                                ..copied[k].1
                            })),
                    decreases copied_nodes@.len() - i,
                {
                    let (node_id, node) = {
                        let entry = &copied_nodes[i];
                        (entry.0, entry.1.clone())
                    };
                    let mut node = node;
                    node.metadata = DocumentNodeMetadata {
                        position: node.metadata.position.displaced(2, 2),
                    };
                    selected.push(node_id);
                    responses.push(
                        Response::Graph(
                            NodeGraphMessage::InsertNode { node_id, document_node: node },
                        ),
                    );
                    i = i + 1;
                }
                self.selected_nodes = selected;
                let ghost after_inserts = responses@;
                self.send_graph(document, thumbnails, responses);
                let ghost c1 = responses@;
                self.update_selected(document, responses);
                let ghost c2 = responses@;
                responses.push(
                    Response::Graph(NodeGraphMessage::SendGraph { should_rerender: false }),
                );
                proof {
                    assert forall|k: int| 0 <= k < after_inserts.len() implies responses@[k]
                        == after_inserts[k] by {
                        assert(c1[k] == after_inserts[k]);
                        assert(c2[k] == c1[k]);
                        assert(responses@[k] == c2[k]);
                    }
                    assert(old(responses)@.is_prefix_of(responses@)) by {
                        assert forall|k: int| 0 <= k < old(responses)@.len() implies responses@[k]
                            == old(responses)@[k] by {
                            assert(base[k] == old(responses)@[k]);
                            assert(after_inserts[k] == base[k]);
                            assert(responses@[k] == after_inserts[k]);
                        }
                        assert(responses@.subrange(0, old(responses)@.len() as int) =~= old(
                            responses,
                        )@);
                    }
                    assert(base[old(responses)@.len() as int] == Response::StartTransaction);
                    assert(after_inserts[old(responses)@.len() as int] == base[old(
                        responses,
                    )@.len() as int]);
                    assert(responses@[old(responses)@.len() as int]
                        == after_inserts[old(responses)@.len() as int]);
                    assert(new_ids@ == spec_fresh_map(
                        old(self).selected_nodes@,
                        old(generator).next_id,
                    ));
                    assert(base.len() == old(responses)@.len() + 1);
                    assert forall|k: int| 0 <= k < copied.len() implies (
                    #[trigger] responses@[old(responses)@.len() as int + 1 + k])
                        == after_inserts[base.len() as int + k] by {
                        assert(responses@[old(responses)@.len() as int + 1 + k]
                            == after_inserts[old(responses)@.len() as int + 1 + k]);
                    }
                }
            },
            NodeGraphMessage::ExitNestedNetwork { depth_of_nesting } => {
                self.selected_nodes = Vec::new();
                let keep: usize = if depth_of_nesting <= self.nested_path.len() {
                    self.nested_path.len() - depth_of_nesting
                } else {
                    0
                };
                self.nested_path.truncate(keep);
                proof {
                    assert(self.nested_path@ =~= old(self).nested_path@.take(
                        if depth_of_nesting as int <= old(self).nested_path@.len() {
                            old(self).nested_path@.len() - depth_of_nesting as int
                        } else {
                            0
                        },
                    ));
                }
                self.send_graph(document, thumbnails, responses);
                let ghost c1 = responses@;
                self.collect_nested_addresses(document, responses);
                let ghost c2 = responses@;
                self.update_selected(document, responses);
                proof {
                    lemma_prefix_trans(old(responses)@, c1, c2);
                    lemma_prefix_trans(old(responses)@, c2, responses@);
                }
            },
            NodeGraphMessage::ExposeInput { node_id, input_index, new_exposed } => {
                let outcome: Option<(NodeInput, bool)> = {
                    match document.document_network.nested_network(&self.nested_path) {
                        Option::None => Option::None,
                        Option::Some(network) => match network.get_node(node_id) {
                            Option::None => Option::None,
                            Option::Some(node) => {
                                if input_index >= node.inputs.len() {
                                    Option::None
                                } else {
                                    let mut input = node.inputs[input_index].clone();
                                    let is_literal: bool = match &input {
                                        NodeInput::Value { .. } => true,
                                        _ => false,
                                    };
                                    if is_literal {
                                        match &mut input {
                                            NodeInput::Value { tagged_value: _, exposed } => {
                                                *exposed = new_exposed;
                                            },
                                            _ => {},
                                        }
                                    } else {
                                        // A link or placeholder converts to the
                                        // slot's registered literal default;
                                        // without one it is kept as it is.
                                        match default_node_input(&node.name, input_index) {
                                            Option::Some(
                                                NodeInput::Value { tagged_value, exposed: _ },
                                            ) => {
                                                input = NodeInput::Value {
                                                    tagged_value,
                                                    exposed: new_exposed,
                                                };
                                            },
                                            _ => {},
                                        }
                                    }
                                    let r = rerender_for(network, node_id);
                                    Option::Some((input, r))
                                }
                            },
                        },
                    }
                };
                match outcome {
                    Option::Some((input, should_rerender)) => {
                        responses.push(Response::StartTransaction);
                        responses.push(
                            Response::Graph(
                                NodeGraphMessage::SetNodeInput { node_id, input_index, input },
                            ),
                        );
                        responses.push(
                            Response::Graph(NodeGraphMessage::SendGraph { should_rerender }),
                        );
                        responses.push(Response::ResendActiveProperties);
                    },
                    Option::None => {},
                }
            },
            NodeGraphMessage::InsertNode { node_id, document_node } => {
                let ghost gnode = document_node;
                let ok = apply_at_path(
                    &mut document.document_network,
                    &self.nested_path,
                    0,
                    NetOp::Insert { node_id, node: document_node },
                );
                proof {
                    assert(self.nested_path@.skip(0) =~= self.nested_path@);
                    lemma_applied_insert(
                        old(document).document_network,
                        document.document_network,
                        old(self).nested_path@,
                        node_id,
                        gnode,
                        ok,
                    );
                }
            },
            NodeGraphMessage::MoveSelectedNodes { displacement_x, displacement_y } => {
                let ids = self.selected_nodes.clone();
                proof {
                    assert(ids@ =~= self.selected_nodes@);
                }
                let ghost gids = ids;
                let ok = apply_at_path(
                    &mut document.document_network,
                    &self.nested_path,
                    0,
                    NetOp::Move { ids, dx: displacement_x, dy: displacement_y },
                );
                proof {
                    assert(self.nested_path@.skip(0) =~= self.nested_path@);
                    lemma_applied_move(
                        old(document).document_network,
                        document.document_network,
                        old(self).nested_path@,
                        gids,
                        displacement_x,
                        displacement_y,
                        ok,
                    );
                }
                self.send_graph(document, thumbnails, responses);
            },
            NodeGraphMessage::OpenNodeGraph { layer_path } => {
                self.layer_path = Option::Some(layer_path);
                let has_active = document.document_network.nested_network(
                    &self.nested_path,
                ).is_some();
                if has_active {
                    self.selected_nodes = Vec::new();
                    self.send_graph(document, thumbnails, responses);
                    let ghost g1 = responses@;
                    responses.push(
                        Response::UpdateNodeTypes { node_types: collect_node_types() },
                    );
                    proof {
                        lemma_prefix_push(g1, responses@.last());
                        lemma_prefix_trans(old(responses)@, g1, responses@);
                    }
                }
                let ghost c1 = responses@;
                self.collect_nested_addresses(document, responses);
                let ghost c2 = responses@;
                self.update_selected(document, responses);
                proof {
                    lemma_prefix_trans(old(responses)@, c1, c2);
                    lemma_prefix_trans(old(responses)@, c2, responses@);
                }
            },
            NodeGraphMessage::PasteNodes { nodes } => {
                self.paste_nodes(nodes, document, generator, responses);
            },
            NodeGraphMessage::RunDocumentGraph => {
                responses.push(Response::RenderGraph { document_id });
            },
            NodeGraphMessage::SelectNodes { nodes } => {
                self.selected_nodes = nodes;
                self.update_selected(document, responses);
                let ghost c1 = responses@;
                responses.push(Response::ResendActiveProperties);
                proof {
                    lemma_prefix_push(c1, Response::ResendActiveProperties);
                    lemma_prefix_trans(old(responses)@, c1, responses@);
                }
            },
            NodeGraphMessage::SendGraph { should_rerender } => {
                let has_active = document.document_network.nested_network(
                    &self.nested_path,
                ).is_some();
                if has_active {
                    self.send_graph(document, thumbnails, responses);
                    let ghost c1 = responses@;
                    if should_rerender {
                        match &self.layer_path {
                            Option::Some(lp) => {
                                responses.push(
                                    Response::RasterizeRegionBelowLayer {
                                        layer_path: lp.clone(),
                                    },
                                );
                            },
                            Option::None => {
                                responses.push(
                                    Response::Graph(NodeGraphMessage::RunDocumentGraph),
                                );
                            },
                        }
                    }
                    proof {
                        if responses@ != c1 {
                            lemma_prefix_push(c1, responses@.last());
                        }
                        lemma_prefix_trans(old(responses)@, c1, responses@);
                        assert(responses@[old(responses)@.len() as int] == c1[old(
                            responses,
                        )@.len() as int]);
                    }
                }
            },
            NodeGraphMessage::SetInputValue { node_id, input_index, value } => {
                let outcome: Option<bool> = {
                    match document.document_network.nested_network(&self.nested_path) {
                        Option::None => Option::None,
                        Option::Some(network) => match network.get_node(node_id) {
                            Option::None => Option::None,
                            Option::Some(node) => {
                                let relevant = !crate::catalog::string_is(&node.name, "Imaginate")
                                    || input_index == 0;
                                let r = rerender_for(network, node_id);
                                Option::Some(relevant && r)
                            },
                        },
                    }
                };
                match outcome {
                    Option::Some(rerender) => {
                        responses.push(Response::StartTransaction);
                        responses.push(
                            Response::Graph(
                                NodeGraphMessage::SetNodeInput {
                                    node_id,
                                    input_index,
                                    input: NodeInput::Value { tagged_value: value, exposed: false },
                                },
                            ),
                        );
                        responses.push(Response::ResendActiveProperties);
                        if rerender {
                            match &self.layer_path {
                                Option::Some(lp) => {
                                    responses.push(
                                        Response::RasterizeRegionBelowLayer {
                                            layer_path: lp.clone(),
                                        },
                                    );
                                },
                                Option::None => {
                                    responses.push(
                                        Response::Graph(NodeGraphMessage::RunDocumentGraph),
                                    );
                                },
                            }
                        }
                    },
                    Option::None => {},
                }
            },
            NodeGraphMessage::SetNodeInput { node_id, input_index, input } => {
                let ghost ginput = input;
                let ok = apply_at_path(
                    &mut document.document_network,
                    &self.nested_path,
                    0,
                    NetOp::SetInput { node_id, input_index, input },
                );
                proof {
                    assert(self.nested_path@.skip(0) =~= self.nested_path@);
                    lemma_applied_set_input(
                        old(document).document_network,
                        document.document_network,
                        old(self).nested_path@,
                        node_id,
                        input_index,
                        ginput,
                        ok,
                    );
                }
            },
            NodeGraphMessage::SetQualifiedInputValue {
                layer_path,
                node_path,
                input_index,
                value,
            } => {
                if node_path.len() == 0 {
                    return ;
                }
                let target = node_path[node_path.len() - 1];
                let mut prefix = node_path;
                let ghost gfull = prefix@;
                prefix.pop();
                proof {
                    assert(prefix@ =~= gfull.take(gfull.len() - 1));
                }
                let ghost gvalue = value;
                let applied = apply_at_path(
                    &mut document.document_network,
                    &prefix,
                    0,
                    NetOp::ExtendSetInput { node_id: target, input_index, value },
                );
                proof {
                    assert(prefix@.skip(0) =~= prefix@);
                    lemma_applied_extend_input(
                        old(document).document_network,
                        document.document_network,
                        prefix@,
                        target,
                        input_index,
                        gvalue,
                        applied,
                    );
                }
                if applied {
                    responses.push(
                        Response::RasterizeRegionBelowLayer { layer_path },
                    );
                }
            },
            NodeGraphMessage::ShiftNode { node_id } => {
                let ok = apply_at_path(
                    &mut document.document_network,
                    &self.nested_path,
                    0,
                    NetOp::Shift { node_id },
                );
                proof {
                    assert(self.nested_path@.skip(0) =~= self.nested_path@);
                    lemma_applied_shift(
                        old(document).document_network,
                        document.document_network,
                        old(self).nested_path@,
                        node_id,
                        ok,
                    );
                }
                responses.push(
                    Response::Graph(NodeGraphMessage::SendGraph { should_rerender: false }),
                );
            },
            NodeGraphMessage::ToggleHidden => {
                responses.push(Response::StartTransaction);
                responses.push(Response::Graph(NodeGraphMessage::ToggleHiddenImpl));
            },
            NodeGraphMessage::ToggleHiddenImpl => {
                let ids = self.selected_nodes.clone();
                proof {
                    assert(ids@ =~= self.selected_nodes@);
                }
                let ghost gids = ids;
                let ok = apply_at_path(
                    &mut document.document_network,
                    &self.nested_path,
                    0,
                    NetOp::ToggleHidden { ids },
                );
                proof {
                    assert(self.nested_path@.skip(0) =~= self.nested_path@);
                    lemma_applied_hidden(
                        old(document).document_network,
                        document.document_network,
                        old(self).nested_path@,
                        gids,
                        ok,
                    );
                }
                self.send_graph(document, thumbnails, responses);
            },
            NodeGraphMessage::TogglePreview { node_id } => {
                responses.push(Response::StartTransaction);
                responses.push(
                    Response::Graph(NodeGraphMessage::TogglePreviewImpl { node_id }),
                );
            },
            NodeGraphMessage::TogglePreviewImpl { node_id } => {
                let ok = apply_at_path(
                    &mut document.document_network,
                    &self.nested_path,
                    0,
                    NetOp::TogglePreview { node_id },
                );
                proof {
                    assert(self.nested_path@.skip(0) =~= self.nested_path@);
                    lemma_applied_preview(
                        old(document).document_network,
                        document.document_network,
                        old(self).nested_path@,
                        node_id,
                        ok,
                    );
                }
                self.send_graph(document, thumbnails, responses);
                let ghost c1 = responses@;
                match &self.layer_path {
                    Option::Some(lp) => {
                        responses.push(
                            Response::RasterizeRegionBelowLayer { layer_path: lp.clone() },
                        );
                    },
                    Option::None => {},
                }
                proof {
                    if responses@ != c1 {
                        lemma_prefix_push(c1, responses@.last());
                    }
                    lemma_prefix_trans(old(responses)@, c1, responses@);
                }
            },
            NodeGraphMessage::UpdateNewNodeGraph => {
                let has_active = document.document_network.nested_network(
                    &self.nested_path,
                ).is_some();
                if has_active {
                    self.selected_nodes = Vec::new();
                    self.send_graph(document, thumbnails, responses);
                    let ghost g1 = responses@;
                    responses.push(
                        Response::UpdateNodeTypes { node_types: collect_node_types() },
                    );
                    proof {
                        lemma_prefix_push(g1, responses@.last());
                        lemma_prefix_trans(old(responses)@, g1, responses@);
                    }
                }
                let ghost c1 = responses@;
                self.collect_nested_addresses(document, responses);
                let ghost c2 = responses@;
                self.update_selected(document, responses);
                proof {
                    lemma_prefix_trans(old(responses)@, c1, c2);
                    lemma_prefix_trans(old(responses)@, c2, responses@);
                }
            },
        }
    }

    /// Open another layer's graph (or none): record the path and ask for a
    /// rebuilt graph view.
    pub fn update_layer_path(&mut self, layer_path: Option<Vec<u64>>, responses: &mut Vec<Response>)
        ensures
            final(self).layer_path == layer_path,
            final(self).nested_path == old(self).nested_path,
            final(self).selected_nodes == old(self).selected_nodes,
            final(responses)@ == old(responses)@.push(
                Response::Graph(NodeGraphMessage::UpdateNewNodeGraph),
            ),
    {
        self.layer_path = layer_path;
        responses.push(Response::Graph(NodeGraphMessage::UpdateNewNodeGraph));
    }

    /// The root network the editor works against.
    pub fn get_root_network<'a>(&self, document: &'a Document) -> (r: &'a NodeNetwork)
        ensures
            *r == document.document_network,
    {
        &document.document_network
    }

    /// The currently active network: the root descended along the nesting
    /// path.
    pub fn get_active_network<'a>(&self, document: &'a Document) -> (r: Option<&'a NodeNetwork>)
        ensures
            match r {
                Option::Some(n) => spec_nested_network(
                    document.document_network,
                    self.nested_path@,
                ) == Option::Some(*n),
                Option::None => spec_nested_network(
                    document.document_network,
                    self.nested_path@,
                ) is None,
            },
    {
        document.document_network.nested_network(&self.nested_path)
    }

    /// Enqueue the disable and preview buttons for the current selection,
    /// when an active network resolves.
    pub fn update_selection_action_buttons(&self, document: &Document, responses: &mut Vec<Response>)
        ensures
            old(responses)@.is_prefix_of(final(responses)@),
            match spec_nested_network(document.document_network, self.nested_path@) {
                Option::None => final(responses)@ == old(responses)@,
                Option::Some(an) => final(responses)@.len() == old(responses)@.len() + 1
                    && (final(responses)@.last() matches
                    Response::UpdateSelectionActionButtons { buttons }
                    && crate::snapshot::spec_buttons(an, self.selected_nodes@, buttons)),
            },
    {
        match document.document_network.nested_network(&self.nested_path) {
            Option::Some(network) => {
                let buttons = selection_action_buttons(network, &self.selected_nodes);
                let ghost before = responses@;
                responses.push(Response::UpdateSelectionActionButtons { buttons });
                proof {
                    lemma_prefix_push(before, responses@.last());
                }
            },
            Option::None => {},
        }
    }

    /// The nodes whose property sections the panel shows, in order: the
    /// whole primary flow, output first, when nothing is selected; the
    /// existing selected nodes otherwise.
    pub fn collate_properties(&self, network: &NodeNetwork) -> (r: Vec<NodeId>)
        ensures
            forall|k: int|
                0 <= k < r@.len() ==> crate::graph::has_id(network.nodes@, #[trigger] r@[k]),
            self.selected_nodes@.len() > 0 ==> r@ == existing_ids(
                network.nodes@,
                self.selected_nodes@,
            ),
            self.selected_nodes@.len() == 0 ==> {
                &&& forall|a: int, b: int| 0 <= a < b < r@.len() ==> r@[a] != r@[b]
                &&& r@.len() > 0 ==> network.outputs@.len() > 0 && r@[0]
                    == network.outputs@[0].node_id
                &&& forall|k: int|
                    0 <= k < r@.len() - 1 ==> (match crate::graph::spec_get(
                        *network,
                        #[trigger] r@[k],
                    ) {
                        Option::Some(n) => crate::snapshot::first_link(n) == Option::Some(
                            r@[k + 1],
                        ),
                        Option::None => false,
                    })
            },
    {
        if self.selected_nodes.len() == 0 {
            // Show every node of the primary flow, starting with the
            // output.
            return crate::snapshot::primary_flow(network);
        }
        let mut out: Vec<NodeId> = Vec::new();
        let mut i: usize = 0;
        while i < self.selected_nodes.len()
            invariant
                0 <= i <= self.selected_nodes@.len(),
                out@ =~= existing_ids(network.nodes@, self.selected_nodes@.take(i as int)),
                forall|k: int|
                    0 <= k < out@.len() ==> crate::graph::has_id(network.nodes@, #[trigger] out@[k]),
            decreases self.selected_nodes@.len() - i,
        {
            proof {
                assert(self.selected_nodes@.take((i + 1) as int).drop_last()
                    =~= self.selected_nodes@.take(i as int));
            }
            let id = self.selected_nodes[i];
            if network.contains_node(id) {
                out.push(id);
            }
            i = i + 1;
        }
        proof {
            assert(self.selected_nodes@.take(self.selected_nodes@.len() as int)
                =~= self.selected_nodes@);
        }
        out
    }

    /// The edit actions available for the current selection: with nodes
    /// selected they can be deleted, cut, copied, duplicated and hidden;
    /// with none, nothing is offered.
    pub fn actions(&self) -> (r: Vec<NodeGraphMessage>)
        ensures
            self.selected_nodes@.len() == 0 ==> r@.len() == 0,
            self.selected_nodes@.len() > 0 ==> r@ =~= seq![
                NodeGraphMessage::DeleteSelectedNodes,
                NodeGraphMessage::Cut,
                NodeGraphMessage::Copy,
                NodeGraphMessage::DuplicateSelectedNodes,
                NodeGraphMessage::ToggleHidden,
            ],
    {
        let mut out: Vec<NodeGraphMessage> = Vec::new();
        if self.selected_nodes.len() > 0 {
            out.push(NodeGraphMessage::DeleteSelectedNodes);
            out.push(NodeGraphMessage::Cut);
            out.push(NodeGraphMessage::Copy);
            out.push(NodeGraphMessage::DuplicateSelectedNodes);
            out.push(NodeGraphMessage::ToggleHidden);
        }
        out
    }


    /// Enqueue a snapshot of the active network, when one resolves.
    fn send_graph(
        &self,
        document: &Document,
        thumbnails: &Vec<(NodeId, String)>,
        responses: &mut Vec<Response>,
    )
        ensures
            old(responses)@.is_prefix_of(final(responses)@),
            match spec_nested_network(document.document_network, self.nested_path@) {
                Option::None => final(responses)@ == old(responses)@,
                Option::Some(an) => final(responses)@.len() == old(responses)@.len() + 1
                    && (final(responses)@.last() matches Response::UpdateNodeGraph { nodes, links }
                    && links@ == crate::snapshot::spec_links(
                    crate::graph::entries_view(an.nodes@),
                ) && crate::snapshot::records_complete(an, nodes@)),
            },
    {
        match document.document_network.nested_network(&self.nested_path) {
            Option::Some(network) => {
                let links = collect_links(network);
                let nodes = collect_nodes(network, thumbnails);
                responses.push(Response::UpdateNodeGraph { nodes, links });
            },
            Option::None => {},
        }
    }

    /// Enqueue the breadcrumb names along the active nesting path.
    fn collect_nested_addresses(&self, document: &Document, responses: &mut Vec<Response>)
        ensures
            old(responses)@.is_prefix_of(final(responses)@),
            final(responses)@.len() == old(responses)@.len() + 1,
            final(responses)@.last() matches Response::UpdateBreadcrumb { names }
                && crate::svg::string_views(names@) == crate::snapshot::spec_breadcrumbs(
                document.document_network,
                self.nested_path@,
            ),
    {
        let names = nested_address_names(&document.document_network, &self.nested_path);
        responses.push(Response::UpdateBreadcrumb { names });
    }

    /// Enqueue the selection state and action buttons for the interface.
    fn update_selected(&self, document: &Document, responses: &mut Vec<Response>)
        ensures
            old(responses)@.is_prefix_of(final(responses)@),
            final(responses)@.last() matches Response::UpdateNodeGraphSelection { selected }
                && selected@ == self.selected_nodes@,
            match spec_nested_network(document.document_network, self.nested_path@) {
                Option::None => final(responses)@.len() == old(responses)@.len() + 1,
                Option::Some(an) => final(responses)@.len() == old(responses)@.len() + 2
                    && (final(responses)@[old(responses)@.len() as int] matches
                    Response::UpdateSelectionActionButtons { buttons }
                    && crate::snapshot::spec_buttons(an, self.selected_nodes@, buttons)),
            },
    {
        match document.document_network.nested_network(&self.nested_path) {
            Option::Some(network) => {
                let buttons = selection_action_buttons(network, &self.selected_nodes);
                responses.push(Response::UpdateSelectionActionButtons { buttons });
            },
            Option::None => {},
        }
        let selected = self.selected_nodes.clone();
        proof {
            assert(selected@ =~= self.selected_nodes@);
        }
        responses.push(Response::UpdateNodeGraphSelection { selected });
    }

    /// Paste a parsed clipboard payload: displace the pasted block clear of
    /// every existing position, remap every id to a fresh one, and enqueue
    /// the insertions and the new selection. An unplaceable payload aborts
    /// wholesale.
    #[verifier::loop_isolation(false)]
    #[verifier::rlimit(60)]
    fn paste_nodes(
        &self,
        data: Vec<(NodeId, DocumentNode)>,
        document: &mut Document,
        generator: &mut IdGenerator,
        responses: &mut Vec<Response>,
    )
        ensures
            *final(document) == *old(document),
            old(responses)@.is_prefix_of(final(responses)@),
            match spec_nested_network(old(document).document_network, self.nested_path@) {
                Option::None => final(responses)@ == old(responses)@ && final(generator).next_id
                    == old(generator).next_id,
                Option::Some(an) => spec_paste(
                    an,
                    data@,
                    old(generator).next_id,
                    final(generator).next_id,
                    old(responses)@,
                    final(responses)@,
                ),
            },
    {
        let ghost olds = Seq::new(data@.len(), |t: int| data@[t].0);
        let ghost gpositions = paste_positions(data@);
        let network = match document.document_network.nested_network(&self.nested_path) {
            Option::Some(n) => n,
            Option::None => {
                return ;
            },
        };
        if data.len() == 0 {
            return ;
        }
        let mut positions: Vec<Position> = Vec::new();
        let mut i: usize = 0;
        while i < data.len()
            invariant
                0 <= i <= data@.len(),
                positions@.len() == i,
                positions@ =~= gpositions.take(i as int),
            decreases data@.len() - i,
        {
            positions.push(data[i].1.metadata.position);
            proof {
                assert(positions@ =~= gpositions.take((i + 1) as int));
            }
            i = i + 1;
        }
        proof {
            assert(positions@ =~= gpositions);
        }
        let shift = match paste_shift(network, &positions) {
            Option::Some(k) => k,
            Option::None => {
                return ;
            },
        };
        proof {
            assert(is_min_free_shift(*network, gpositions, shift as int));
        }
        // Every pasted position must fit the grid after the displacement.
        i = 0;
        while i < data.len()
            invariant
                0 <= i <= data@.len(),
                forall|t: int| 0 <= t < i ==> !shift_overflows(#[trigger] gpositions[t], shift as int),
            decreases data@.len() - i,
        {
            let p = data[i].1.metadata.position;
            let sx: i128 = p.x as i128 + shift as i128;
            let sy: i128 = p.y as i128 + shift as i128;
            if sx > i64::MAX as i128 || sx < i64::MIN as i128 || sy > i64::MAX as i128 || sy
                < i64::MIN as i128 {
                proof {
                    assert(shift_overflows(gpositions[i as int], shift as int));
                }
                return ;
            }
            i = i + 1;
        }
        if data.len() as u64 > u64::MAX - generator.next_id {
            return ;
        }
        let mut old_ids: Vec<NodeId> = Vec::new();
        i = 0;
        while i < data.len()
            invariant
                0 <= i <= data@.len(),
                old_ids@.len() == i,
                old_ids@ =~= olds.take(i as int),
            decreases data@.len() - i,
        {
            old_ids.push(data[i].0);
            proof {
                assert(old_ids@ =~= olds.take((i + 1) as int));
            }
            i = i + 1;
        }
        proof {
            assert(old_ids@ =~= olds);
        }
        let new_ids = fresh_map(&old_ids, generator);
        responses.push(Response::StartTransaction);
        let ghost base = responses@;
        let mut selected: Vec<NodeId> = Vec::new();
        i = 0;
        while i < data.len()
            invariant
                0 <= i <= data@.len(),
                new_ids@.len() == data@.len(),
                new_ids@ == spec_fresh_map(olds, old(generator).next_id),
                base.is_prefix_of(responses@),
                responses@.len() == base.len() + i,
                selected@.len() == i,
                forall|t: int|
                    0 <= t < i ==> #[trigger] selected@[t] == (old(generator).next_id + t) as NodeId,
                forall|t: int|
                    0 <= t < i ==> (#[trigger] responses@[base.len() as int + t] matches
                        Response::Graph(
                        NodeGraphMessage::InsertNode { node_id, document_node },
                    ) && node_id == old(generator).next_id + t && crate::graph::node_view(
                        document_node,
                    ) == (crate::graph::NodeView {
                        position: Position {
                            x: (gpositions[t].x + shift) as i64,
                            y: (gpositions[t].y + shift) as i64,
                        },
                        ..crate::copy::mapped_node_view(
                            crate::graph::node_view(data@[t].1),
                            spec_fresh_map(olds, old(generator).next_id),
                        )
                    })),
            decreases data@.len() - i,
        {
            let node_id = new_ids[i].1;
            let mut node = map_ids(&data[i].1, &new_ids);
            let p = node.metadata.position;
            proof {
                assert(p == gpositions[i as int]);
                assert(!shift_overflows(gpositions[i as int], shift as int));
            }
            let sx: i128 = p.x as i128 + shift as i128;
            let sy: i128 = p.y as i128 + shift as i128;
            node.metadata = DocumentNodeMetadata {
                position: Position { x: sx as i64, y: sy as i64 },
            };
            selected.push(node_id);
            let ghost prev = responses@;
            responses.push(
                Response::Graph(NodeGraphMessage::InsertNode { node_id, document_node: node }),
            );
            proof {
                assert forall|t: int|
                    0 <= t < i + 1 implies (#[trigger] responses@[base.len() as int + t] matches
                        Response::Graph(
                        NodeGraphMessage::InsertNode { node_id, document_node },
                    ) && node_id == old(generator).next_id + t && crate::graph::node_view(
                        document_node,
                    ) == (crate::graph::NodeView {
                        position: Position {
                            x: (gpositions[t].x + shift) as i64,
                            y: (gpositions[t].y + shift) as i64,
                        },
                        ..crate::copy::mapped_node_view(
                            crate::graph::node_view(data@[t].1),
                            spec_fresh_map(olds, old(generator).next_id),
                        )
                    })) by {
                    if t < i as int {
                        assert(responses@[base.len() as int + t] == prev[base.len() as int + t]);
                    } else {
                        assert(responses@[base.len() as int + t] == responses@.last());
                    }
                }
                assert(base.is_prefix_of(responses@)) by {
                    assert(responses@.subrange(0, base.len() as int) =~= base);
                }
            }
            i = i + 1;
        }
        responses.push(Response::Graph(NodeGraphMessage::SelectNodes { nodes: selected }));
        responses.push(Response::Graph(NodeGraphMessage::SendGraph { should_rerender: false }));
        proof {
            assert(selected@ =~= Seq::new(data@.len(), |t: int| (old(generator).next_id + t) as NodeId));
            assert forall|t: int|
                0 <= t < old(responses)@.len() implies responses@[t] == old(responses)@[t] by {
                assert(base[t] == old(responses)@[t]);
            }
            assert(old(responses)@.is_prefix_of(responses@)) by {
                assert(responses@.subrange(0, old(responses)@.len() as int) =~= old(responses)@);
            }
            assert(responses@[old(responses)@.len() as int] == Response::StartTransaction) by {
                assert(base[old(responses)@.len() as int] == Response::StartTransaction);
            }
        }
    }
}

} // verus!
