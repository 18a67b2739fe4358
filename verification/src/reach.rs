//! Reachability along links: which nodes lie downstream of a node (consume
//! its output, directly or transitively), whether a node feeds the network
//! output, and the auto-spacing shift that moves a node clear of its
//! predecessors and carries every downstream node along with it.

use vstd::prelude::*;
use crate::graph::{
    DocumentNode,
    DocumentNodeMetadata,
    NodeId,
    NodeInput,
    NodeNetwork,
    Position,
    has_id,
    ids_distinct,
    index_of_id,
    lemma_index_of_id,
    sat_add,
    spec_get,
};

verus! {

/// The minimum horizontal gap kept between linked nodes.
pub const MIN_NODE_GAP: i64 = 8;

/// Whether the slot is a link targeting `target`.
pub open spec fn input_targets(input: NodeInput, target: NodeId) -> bool {
    match input {
        NodeInput::Node { node_id, .. } => node_id == target,
        _ => false,
    }
}

/// Whether some slot of the node links to `target`.
pub open spec fn spec_links_to(n: DocumentNode, target: NodeId) -> bool {
    exists|j: int| 0 <= j < n.inputs@.len() && input_targets(#[trigger] n.inputs@[j], target)
}

/// Whether node `v` directly consumes the output of `u`.
pub open spec fn consumer_step(net: NodeNetwork, u: NodeId, v: NodeId) -> bool {
    match spec_get(net, v) {
        Option::Some(n) => spec_links_to(n, u),
        Option::None => false,
    }
}

/// Whether the id sequence is a chain of direct consumer steps.
pub open spec fn path_ok(net: NodeNetwork, p: Seq<NodeId>) -> bool {
    forall|i: int| 0 <= i < p.len() - 1 ==> consumer_step(net, #[trigger] p[i], p[i + 1])
}

/// Whether `b` lies downstream of `a`: some chain of consumer steps leads
/// from `a` to `b`.
pub open spec fn downstream(net: NodeNetwork, a: NodeId, b: NodeId) -> bool {
    exists|p: Seq<NodeId>|
        p.len() >= 2 && p[0] == a && p.last() == b && #[trigger] path_ok(net, p)
}

/// A downstream node exists as an entry.
pub proof fn lemma_downstream_has_entry(net: NodeNetwork, a: NodeId, b: NodeId)
    requires
        downstream(net, a, b),
    ensures
        has_id(net.nodes@, b),
{
    let p = choose|p: Seq<NodeId>|
        p.len() >= 2 && p[0] == a && p.last() == b && #[trigger] path_ok(net, p);
    assert(consumer_step(net, p[p.len() - 2], p[p.len() - 1]));
}

/// Whether some slot of the node links to `target`.
fn links_to(node: &DocumentNode, target: NodeId) -> (r: bool)
    ensures
        r == spec_links_to(*node, target),
{
    let mut j: usize = 0;
    while j < node.inputs.len()
        invariant
            0 <= j <= node.inputs@.len(),
            forall|l: int| 0 <= l < j ==> !input_targets(#[trigger] node.inputs@[l], target),
        decreases node.inputs@.len() - j,
    {
        match &node.inputs[j] {
            NodeInput::Node { node_id, .. } => {
                if *node_id == target {
                    proof {
                        assert(input_targets(node.inputs@[j as int], target));
                    }
                    return true;
                }
            },
            _ => {},
        }
        j = j + 1;
    }
    proof {
        assert(!spec_links_to(*node, target)) by {
            if spec_links_to(*node, target) {
                let l = choose|l: int|
                    0 <= l < node.inputs@.len() && input_targets(
                        #[trigger] node.inputs@[l],
                        target,
                    );
            }
        }
    }
    false
}

/// Whether the entry ids of the network are pairwise distinct.
pub fn check_ids_distinct(network: &NodeNetwork) -> (r: bool)
    ensures
        r == ids_distinct(network.nodes@),
{
    let mut i: usize = 0;
    while i < network.nodes.len()
        invariant
            0 <= i <= network.nodes@.len(),
            forall|a: int, b: int|
                0 <= a < b < network.nodes@.len() && a < i ==> network.nodes@[a].0
                    != network.nodes@[b].0,
        decreases network.nodes@.len() - i,
    {
        let mut j: usize = i + 1;
        while j < network.nodes.len()
            invariant
                i < j <= network.nodes@.len(),
                forall|b: int| i < b < j ==> network.nodes@[i as int].0 != network.nodes@[b].0,
            decreases network.nodes@.len() - j,
        {
            if network.nodes[i].0 == network.nodes[j].0 {
                return false;
            }
            j = j + 1;
        }
        i = i + 1;
    }
    true
}

/// With distinct ids, each entry is the one its id resolves to.
pub proof fn lemma_distinct_entry(s: Seq<(NodeId, DocumentNode)>, k: int)
    requires
        ids_distinct(s),
        0 <= k < s.len(),
    ensures
        has_id(s, s[k].0),
        index_of_id(s, s[k].0) == k,
{
    assert(has_id(s, s[k].0));
    lemma_index_of_id(s, s[k].0);
    let i = index_of_id(s, s[k].0);
    if i < k {
        assert(s[i].0 == s[k].0);
    } else if i > k {
        assert(s[k].0 == s[i].0);
    }
}

/// The number of unset marks.
pub open spec fn count_false(s: Seq<bool>) -> nat
    decreases s,
{
    if s.len() == 0 {
        0
    } else {
        count_false(s.drop_last()) + if s.last() {
            0nat
        } else {
            1nat
        }
    }
}

/// Setting a mark lowers the number of unset marks by one.
pub proof fn lemma_count_false_set(s: Seq<bool>, k: int)
    requires
        0 <= k < s.len(),
        !s[k],
    ensures
        count_false(s.update(k, true)) + 1 == count_false(s),
    decreases s,
{
    if s.len() > 0 {
        if k == s.len() - 1 {
            assert(s.update(k, true).drop_last() =~= s.drop_last());
        } else {
            assert(s.update(k, true).drop_last() =~= s.drop_last().update(k, true));
            lemma_count_false_set(s.drop_last(), k);
        }
    }
}

/// The downstream marks of a network with distinct ids: mark `k` says that
/// the node of entry `k` lies downstream of `from`.
#[verifier::loop_isolation(false)]
fn reached_marks(network: &NodeNetwork, from: NodeId) -> (r: Vec<bool>)
    requires
        ids_distinct(network.nodes@),
    ensures
        r@.len() == network.nodes@.len(),
        forall|k: int|
            0 <= k < network.nodes@.len() ==> (r@[k] == downstream(
                *network,
                from,
                network.nodes@[k].0,
            )),
    decreases 0int,
{
    let ghost s = network.nodes@;
    let n = network.nodes.len();
    let mut reached: Vec<bool> = Vec::new();
    let mut k: usize = 0;
    while k < n
        invariant
            0 <= k <= n,
            reached@.len() == k,
            forall|l: int|
                0 <= l < k ==> (reached@[l] == spec_links_to(s[l].1, from)),
        decreases n - k,
    {
        reached.push(links_to(&network.nodes[k].1, from));
        k = k + 1;
    }
    proof {
        assert forall|l: int| 0 <= l < n && reached@[l] implies downstream(*network, from, s[l].0) by {
            lemma_distinct_entry(s, l);
            let p = seq![from, s[l].0];
            assert(consumer_step(*network, from, s[l].0));
            assert(path_ok(*network, p)) by {
                assert forall|i: int| 0 <= i < p.len() - 1 implies consumer_step(
                    *network,
                    #[trigger] p[i],
                    p[i + 1],
                ) by {
                    assert(i == 0);
                }
            }
            assert(p.last() == s[l].0);
        }
    }
    let mut changed: bool = true;
    while changed
        invariant
            reached@.len() == n,
            forall|l: int| 0 <= l < n && reached@[l] ==> downstream(*network, from, s[l].0),
            forall|l: int| 0 <= l < n && spec_links_to(s[l].1, from) ==> reached@[l],
            !changed ==> forall|l: int, j: int|
                0 <= l < n && 0 <= j < n && reached@[j] && spec_links_to(
                    s[l].1,
                    #[trigger] s[j].0,
                ) ==> #[trigger] reached@[l],
        decreases count_false(reached@) + if changed {
            1int
        } else {
            0int
        },
    {
        changed = false;
        let ghost count_at_start = count_false(reached@);
        let mut l: usize = 0;
        while l < n
            invariant
                0 <= l <= n,
                reached@.len() == n,
                forall|a: int| 0 <= a < n && reached@[a] ==> downstream(*network, from, s[a].0),
                forall|a: int| 0 <= a < n && spec_links_to(s[a].1, from) ==> reached@[a],
                changed ==> count_false(reached@) < count_at_start,
                !changed ==> count_false(reached@) == count_at_start,
                !changed ==> forall|a: int, j: int|
                    0 <= a < l && 0 <= j < n && reached@[j] && spec_links_to(
                        s[a].1,
                        #[trigger] s[j].0,
                    ) ==> #[trigger] reached@[a],
            decreases n - l,
        {
            if !reached[l] {
                let mut j: usize = 0;
                let mut hit: bool = false;
                while j < n
                    invariant
                        0 <= j <= n,
                        reached@.len() == n,
                        hit ==> exists|b: int|
                            0 <= b < n && reached@[b] && spec_links_to(s[l as int].1, s[b].0),
                        !hit ==> forall|b: int|
                            0 <= b < j && reached@[b] ==> !spec_links_to(
                                s[l as int].1,
                                #[trigger] s[b].0,
                            ),
                    decreases n - j,
                {
                    if reached[j] {
                        if links_to(&network.nodes[l].1, network.nodes[j].0) {
                            proof {
                                assert(reached@[j as int] && spec_links_to(
                                    s[l as int].1,
                                    s[j as int].0,
                                ));
                            }
                            hit = true;
                        }
                    }
                    j = j + 1;
                }
                if hit {
                    proof {
                        lemma_count_false_set(reached@, l as int);
                        let b = choose|b: int|
                            0 <= b < n && reached@[b] && spec_links_to(s[l as int].1, s[b].0);
                        lemma_distinct_entry(s, l as int);
                        let p = choose|p: Seq<NodeId>|
                            p.len() >= 2 && p[0] == from && p.last() == s[b].0
                                && #[trigger] path_ok(*network, p);
                        let q = p.push(s[l as int].0);
                        assert(consumer_step(*network, s[b].0, s[l as int].0));
                        assert(path_ok(*network, q)) by {
                            assert forall|i: int| 0 <= i < q.len() - 1 implies consumer_step(
                                *network,
                                #[trigger] q[i],
                                q[i + 1],
                            ) by {
                                if i < p.len() - 1 {
                                    assert(q[i] == p[i] && q[i + 1] == p[i + 1]);
                                    assert(consumer_step(*network, p[i], p[i + 1]));
                                } else {
                                    assert(q[i] == p.last());
                                }
                            }
                        }
                        assert(q.last() == s[l as int].0 && q[0] == from);
                        assert(downstream(*network, from, s[l as int].0));
                    }
                    reached.set(l, true);
                    changed = true;
                }
            }
            l = l + 1;
        }
    }
    proof {
        assert forall|k2: int|
            0 <= k2 < n && downstream(*network, from, s[k2].0) implies reached@[k2] by {
            let p = choose|p: Seq<NodeId>|
                p.len() >= 2 && p[0] == from && p.last() == s[k2].0 && #[trigger] path_ok(
                    *network,
                    p,
                );
            lemma_path_end_reached(*network, from, reached@, p);
            lemma_index_of_id(s, s[k2].0);
            lemma_distinct_entry(s, k2);
        }
    }
    reached
}

/// In a closed marking — one that holds the direct consumers of `from` and
/// is stable under consumer steps — the end of every consumer chain from
/// `from` is marked.
proof fn lemma_path_end_reached(
    net: NodeNetwork,
    from: NodeId,
    reached: Seq<bool>,
    p: Seq<NodeId>,
)
    requires
        ids_distinct(net.nodes@),
        reached.len() == net.nodes@.len(),
        forall|a: int|
            0 <= a < net.nodes@.len() && spec_links_to(net.nodes@[a].1, from) ==> reached[a],
        forall|a: int, j: int|
            0 <= a < net.nodes@.len() && 0 <= j < net.nodes@.len() && reached[j] && spec_links_to(
                net.nodes@[a].1,
                #[trigger] net.nodes@[j].0,
            ) ==> #[trigger] reached[a],
        p.len() >= 2,
        p[0] == from,
        path_ok(net, p),
    ensures
        has_id(net.nodes@, p.last()),
        reached[index_of_id(net.nodes@, p.last())],
    decreases p.len(),
{
    let s = net.nodes@;
    assert(consumer_step(net, p[p.len() - 2], p.last()));
    lemma_index_of_id(s, p.last());
    let k = index_of_id(s, p.last());
    if p.len() == 2 {
        assert(spec_links_to(s[k].1, from));
    } else {
        let q = p.drop_last();
        assert(path_ok(net, q)) by {
            assert forall|i: int| 0 <= i < q.len() - 1 implies consumer_step(
                net,
                #[trigger] q[i],
                q[i + 1],
            ) by {
                assert(q[i] == p[i] && q[i + 1] == p[i + 1]);
                assert(consumer_step(net, p[i], p[i + 1]));
            }
        }
        lemma_path_end_reached(net, from, reached, q);
        lemma_index_of_id(s, q.last());
        let j = index_of_id(s, q.last());
        assert(spec_get(net, q.last()) == Option::Some(s[j].1));
        assert(s[j].0 == q.last());
        assert(spec_links_to(s[k].1, s[j].0));
    }
}

/// Whether the node feeds into some current output of the network: it is an
/// output itself, or an output node lies downstream of it.
pub fn connected_to_output(network: &NodeNetwork, node_id: NodeId) -> (r: bool)
    requires
        ids_distinct(network.nodes@),
    ensures
        r == (exists|i: int|
            0 <= i < network.outputs@.len() && (#[trigger] network.outputs@[i].node_id == node_id
                || downstream(*network, node_id, network.outputs@[i].node_id))),
{
    let reached = reached_marks(network, node_id);
    let mut i: usize = 0;
    while i < network.outputs.len()
        invariant
            0 <= i <= network.outputs@.len(),
            reached@.len() == network.nodes@.len(),
            forall|k: int|
                0 <= k < network.nodes@.len() ==> (reached@[k] == downstream(
                    *network,
                    node_id,
                    network.nodes@[k].0,
                )),
            forall|j: int|
                0 <= j < i ==> !(#[trigger] network.outputs@[j].node_id == node_id || downstream(
                    *network,
                    node_id,
                    network.outputs@[j].node_id,
                )),
        decreases network.outputs@.len() - i,
    {
        let out_id = network.outputs[i].node_id;
        if out_id == node_id {
            return true;
        }
        match network.find_index(out_id) {
            Option::Some(k) => {
                if reached[k] {
                    proof {
                        assert(network.nodes@[k as int].0 == out_id);
                    }
                    return true;
                }
                proof {
                    assert(network.nodes@[k as int].0 == out_id);
                    assert(!downstream(*network, node_id, out_id));
                }
            },
            Option::None => {
                proof {
                    if downstream(*network, node_id, out_id) {
                        lemma_downstream_has_entry(*network, node_id, out_id);
                    }
                }
            },
        }
        i = i + 1;
    }
    proof {
        assert(!(exists|j: int|
            0 <= j < network.outputs@.len() && (#[trigger] network.outputs@[j].node_id == node_id
                || downstream(*network, node_id, network.outputs@[j].node_id)))) by {
            if exists|j: int|
                0 <= j < network.outputs@.len() && (#[trigger] network.outputs@[j].node_id
                    == node_id || downstream(*network, node_id, network.outputs@[j].node_id)) {
                let j = choose|j: int|
                    0 <= j < network.outputs@.len() && (#[trigger] network.outputs@[j].node_id
                        == node_id || downstream(
                        *network,
                        node_id,
                        network.outputs@[j].node_id,
                    ));
            }
        }
    }
    false
}

/// The horizontal position the shifted node must reach so that the gap to
/// each of its first `k` link predecessors is at least the minimum.
pub open spec fn target_x_rec(net: NodeNetwork, inputs: Seq<NodeInput>, k: nat, acc: int) -> int
    decreases k,
{
    if k == 0 {
        acc
    } else {
        let prev = target_x_rec(net, inputs, (k - 1) as nat, acc);
        match inputs[k - 1] {
            NodeInput::Node { node_id, .. } => match spec_get(net, node_id) {
                Option::Some(p) => {
                    let need = sat_add(p.metadata.position.x as int, MIN_NODE_GAP as int);
                    if need > prev {
                        need
                    } else {
                        prev
                    }
                },
                Option::None => prev,
            },
            _ => prev,
        }
    }
}

/// The horizontal position the shifted node ends at: far enough right of
/// every linked predecessor, and never left of where it already stands.
pub open spec fn shift_target_x(net: NodeNetwork, id: NodeId) -> int {
    match spec_get(net, id) {
        Option::Some(n) => target_x_rec(
            net,
            n.inputs@,
            n.inputs@.len(),
            n.metadata.position.x as int,
        ),
        Option::None => 0,
    }
}

/// The target never lies left of the accumulator and stays in grid range.
pub proof fn lemma_target_x_bounds(net: NodeNetwork, inputs: Seq<NodeInput>, k: nat, acc: int)
    requires
        i64::MIN <= acc <= i64::MAX,
    ensures
        acc <= target_x_rec(net, inputs, k, acc) <= i64::MAX,
        i64::MIN <= target_x_rec(net, inputs, k, acc),
    decreases k,
{
    if k > 0 {
        lemma_target_x_bounds(net, inputs, (k - 1) as nat, acc);
    }
}

/// Saturating addition of a wide displacement to a grid coordinate.
fn sat_add_wide(x: i64, d: i128) -> (r: i64)
    requires
        -0x10000000000000000i128 <= d <= 0x10000000000000000i128,
    ensures
        r as int == sat_add(x as int, d as int),
{
    let sum: i128 = x as i128 + d;
    if sum > i64::MAX as i128 {
        i64::MAX
    } else if sum < i64::MIN as i128 {
        i64::MIN
    } else {
        sum as i64
    }
}

/// What auto-spacing a node does: the node moves right to the target
/// position, every downstream node moves by the same amount, and nothing
/// else changes; an absent node changes nothing.
pub open spec fn shift_effect(pre: NodeNetwork, post: NodeNetwork, node_id: NodeId) -> bool {
    &&& spec_get(pre, node_id) is None ==> post == pre
    &&& spec_get(pre, node_id) is Some ==> {
        let s = pre.nodes@;
        let delta = shift_target_x(pre, node_id) - spec_get(
            pre,
            node_id,
        ).unwrap().metadata.position.x;
        &&& post.nodes@.len() == s.len()
        &&& forall|k: int|
            0 <= k < s.len() ==> {
                let e = s[k];
                let f = #[trigger] post.nodes@[k];
                &&& f.0 == e.0
                &&& f.1.name == e.1.name
                &&& f.1.inputs == e.1.inputs
                &&& f.1.implementation == e.1.implementation
                &&& f.1.metadata.position.y == e.1.metadata.position.y
                &&& f.1.metadata.position.x as int == if e.0 == node_id || downstream(
                    pre,
                    node_id,
                    e.0,
                ) {
                    sat_add(e.1.metadata.position.x as int, delta)
                } else {
                    e.1.metadata.position.x as int
                }
            }
        &&& post.inputs == pre.inputs
        &&& post.outputs == pre.outputs
        &&& post.previous_outputs == pre.previous_outputs
        &&& post.disabled == pre.disabled
    }
}

/// Auto-space a node: move it right until the horizontal gap to each linked
/// predecessor reaches the minimum, and move every downstream node by the
/// same amount so that spacing among them is preserved. Nothing changes when
/// the node is absent.
#[verifier::loop_isolation(false)]
pub fn shift_node(network: &mut NodeNetwork, node_id: NodeId)
    requires
        ids_distinct(old(network).nodes@),
    ensures
        shift_effect(*old(network), *final(network), node_id),
{
    let ghost s = old(network).nodes@;
    let idx = match network.find_index(node_id) {
        Option::Some(i) => i,
        Option::None => {
            return ;
        },
    };
    let old_x = network.nodes[idx].1.metadata.position.x;
    let mut target: i64 = old_x;
    let input_count = network.nodes[idx].1.inputs.len();
    let mut k: usize = 0;
    proof {
        assert(spec_get(*network, node_id) == Option::Some(s[idx as int].1));
    }
    while k < input_count
        invariant
            0 <= k <= input_count,
            input_count == s[idx as int].1.inputs@.len(),
            *network == *old(network),
            target as int == target_x_rec(
                *old(network),
                s[idx as int].1.inputs@,
                k as nat,
                old_x as int,
            ),
        decreases input_count - k,
    {
        let target_id: Option<NodeId> = match &network.nodes[idx].1.inputs[k] {
            NodeInput::Node { node_id: pred, .. } => Option::Some(*pred),
            _ => Option::None,
        };
        match target_id {
            Option::Some(pred) => {
                match network.find_index(pred) {
                    Option::Some(pi) => {
                        let need = crate::graph::sat_add_i64(
                            network.nodes[pi].1.metadata.position.x,
                            MIN_NODE_GAP,
                        );
                        if need > target {
                            target = need;
                        }
                        proof {
                            assert(spec_get(*network, pred) == Option::Some(s[pi as int].1));
                        }
                    },
                    Option::None => {},
                }
            },
            Option::None => {},
        }
        k = k + 1;
    }
    let delta: i128 = target as i128 - old_x as i128;
    proof {
        lemma_target_x_bounds(
            *old(network),
            s[idx as int].1.inputs@,
            s[idx as int].1.inputs@.len(),
            old_x as int,
        );
        assert(target as int == shift_target_x(*old(network), node_id));
    }
    let reached = reached_marks(network, node_id);
    let mut i: usize = 0;
    while i < network.nodes.len()
        invariant
            0 <= i <= network.nodes@.len(),
            network.nodes@.len() == s.len(),
            reached@.len() == s.len(),
            forall|k2: int|
                0 <= k2 < s.len() ==> (reached@[k2] == downstream(
                    *old(network),
                    node_id,
                    s[k2].0,
                )),
            forall|j: int|
                i <= j < s.len() ==> #[trigger] network.nodes@[j] == s[j],
            forall|j: int|
                0 <= j < i ==> {
                    let e = s[j];
                    let f = #[trigger] network.nodes@[j];
                    &&& f.0 == e.0
                    &&& f.1.name == e.1.name
                    &&& f.1.inputs == e.1.inputs
                    &&& f.1.implementation == e.1.implementation
                    &&& f.1.metadata.position.y == e.1.metadata.position.y
                    &&& f.1.metadata.position.x as int == if e.0 == node_id || downstream(
                        *old(network),
                        node_id,
                        e.0,
                    ) {
                        sat_add(e.1.metadata.position.x as int, delta as int)
                    } else {
                        e.1.metadata.position.x as int
                    }
                },
            network.inputs == old(network).inputs,
            network.outputs == old(network).outputs,
            network.previous_outputs == old(network).previous_outputs,
            network.disabled == old(network).disabled,
        decreases network.nodes@.len() - i,
    {
        let shift_this: bool = network.nodes[i].0 == node_id || reached[i];
        if shift_this {
            let (nid, mut node) = network.nodes.remove(i);
            let new_x = sat_add_wide(node.metadata.position.x, delta);
            node.metadata = DocumentNodeMetadata {
                position: Position { x: new_x, y: node.metadata.position.y },
            };
            network.nodes.insert(i, (nid, node));
        }
        i = i + 1;
    }
}

} // verus!
