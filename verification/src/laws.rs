//! Library-wide properties, stated and proved once over the contracts of
//! the edit operations: what a paste or duplicate guarantees about ids and
//! positions, that toggling the preview twice restores the outputs, that
//! auto-spacing keeps the network acyclic and spaces out the shifted node's
//! predecessors, and that distinct flattening call sites never share
//! proto-nodes.

use vstd::prelude::*;
use crate::copy::{spec_collision, spec_copy_entries};
use crate::flatten::{ProtoNode, proto_ids_below};
use crate::graph::{
    DocumentNode,
    NodeId,
    NodeNetwork,
    NodeOutput,
    Position,
    has_id,
    ids_distinct,
    index_of_id,
    lemma_index_of_id,
    sat_add,
    spec_get,
};
use crate::ops::preview_effect;
use crate::process::spec_fresh_map;
use crate::reach::{
    MIN_NODE_GAP,
    consumer_step,
    downstream,
    input_targets,
    lemma_target_x_bounds,
    path_ok,
    shift_effect,
    shift_target_x,
    spec_links_to,
    target_x_rec,
};

verus! {

/// Toggling the preview of a node on and off again restores `outputs`
/// element for element, and clears the stash: for a network that is not
/// already previewing (its stash is empty) and whose outputs do not already
/// carry the node.
pub proof fn lemma_preview_round_trip(
    pre: NodeNetwork,
    mid: NodeNetwork,
    post: NodeNetwork,
    node_id: NodeId,
)
    requires
        preview_effect(pre, mid, node_id),
        preview_effect(mid, post, node_id),
        !pre.spec_outputs_contain(node_id),
        pre.outputs@.len() > 0,
        pre.previous_outputs is None,
    ensures
        post.outputs@ == pre.outputs@,
        post.previous_outputs is None,
        post.nodes == pre.nodes,
        post.inputs == pre.inputs,
        post.disabled == pre.disabled,
{
    assert(mid.outputs@ == pre.outputs@.update(0, NodeOutput { node_id, node_output_index: 0 }));
    assert(mid.spec_outputs_contain(node_id)) by {
        assert(mid.outputs@[0].node_id == node_id);
    }
    assert(mid.previous_outputs is Some);
    assert(post.outputs@ == mid.previous_outputs.unwrap()@);
    assert(mid.previous_outputs.unwrap()@ == pre.outputs@);
}

/// Pasting into a network places nodes whose ids are disjoint from every
/// pre-existing id — the generator stands above all of them — and whose
/// displaced positions are disjoint from every pre-existing position.
pub proof fn lemma_paste_placement(
    net: NodeNetwork,
    olds: Seq<NodeId>,
    first: NodeId,
    k: int,
    positions: Seq<Position>,
)
    requires
        !spec_collision(net, positions, k),
        forall|e: int| 0 <= e < net.nodes@.len() ==> (#[trigger] net.nodes@[e]).0 < first,
        first + olds.len() <= u64::MAX,
    ensures
        forall|j: int|
            0 <= j < olds.len() ==> !has_id(net.nodes@, #[trigger] spec_fresh_map(olds, first)[j].1),
        forall|j1: int, j2: int|
            0 <= j1 < j2 < olds.len() ==> spec_fresh_map(olds, first)[j1].1 != spec_fresh_map(
                olds,
                first,
            )[j2].1,
        forall|a: int, b: int|
            0 <= a < positions.len() && 0 <= b < net.nodes@.len() ==> !((
            #[trigger] positions[a]).x + k == (#[trigger] net.nodes@[b]).1.metadata.position.x
                && positions[a].y + k == net.nodes@[b].1.metadata.position.y),
{
    assert forall|j: int|
        0 <= j < olds.len() implies !has_id(
        net.nodes@,
        #[trigger] spec_fresh_map(olds, first)[j].1,
    ) by {
        let id = spec_fresh_map(olds, first)[j].1;
        assert(id == first + j);
        if has_id(net.nodes@, id) {
            let e = choose|e: int| 0 <= e < net.nodes@.len() && net.nodes@[e].0 == id;
            assert(net.nodes@[e].0 < first);
        }
    }
    assert forall|a: int, b: int|
        0 <= a < positions.len() && 0 <= b < net.nodes@.len() implies !((
    #[trigger] positions[a]).x + k == (#[trigger] net.nodes@[b]).1.metadata.position.x
        && positions[a].y + k == net.nodes@[b].1.metadata.position.y) by {
        if positions[a].x + k == net.nodes@[b].1.metadata.position.x && positions[a].y + k
            == net.nodes@[b].1.metadata.position.y {
            assert(spec_collision(net, positions, k));
        }
    }
}

/// The copies an id map yields: every copied id comes from the map, and
/// with a strictly increasing map the copied ids are strictly increasing.
proof fn lemma_copy_entries_ids(
    net: NodeNetwork,
    m_full: Seq<(NodeId, NodeId)>,
    m_rest: Seq<(NodeId, NodeId)>,
)
    requires
        forall|i: int, j: int| 0 <= i < j < m_rest.len() ==> m_rest[i].1 < m_rest[j].1,
    ensures
        ({
            let copied = spec_copy_entries(net, m_full, m_rest);
            &&& copied.len() <= m_rest.len()
            &&& forall|a: int|
                0 <= a < copied.len() ==> exists|i: int|
                    0 <= i < m_rest.len() && #[trigger] copied[a].0 == m_rest[i].1
            &&& forall|a: int, b: int| 0 <= a < b < copied.len() ==> copied[a].0 < copied[b].0
        }),
    decreases m_rest,
{
    if m_rest.len() > 0 {
        let shorter = m_rest.drop_last();
        lemma_copy_entries_ids(net, m_full, shorter);
        let rest = spec_copy_entries(net, m_full, shorter);
        let copied = spec_copy_entries(net, m_full, m_rest);
        let pair = m_rest.last();
        assert(forall|i: int| 0 <= i < shorter.len() ==> shorter[i] == m_rest[i]);
        if !net.spec_outputs_contain(pair.0) && spec_get(net, pair.0) is Some {
            assert(copied == rest.push(
                (pair.1, crate::copy::mapped_node_view(
                    crate::graph::node_view(spec_get(net, pair.0).unwrap()),
                    m_full,
                )),
            ));
            assert forall|a: int|
                0 <= a < copied.len() implies exists|i: int|
                0 <= i < m_rest.len() && #[trigger] copied[a].0 == m_rest[i].1 by {
                if a < rest.len() {
                    let i = choose|i: int| 0 <= i < shorter.len() && rest[a].0 == shorter[i].1;
                    assert(copied[a].0 == m_rest[i].1);
                } else {
                    assert(copied[a].0 == m_rest[m_rest.len() - 1].1);
                }
            }
            assert forall|a: int, b: int|
                0 <= a < b < copied.len() implies copied[a].0 < copied[b].0 by {
                if b < rest.len() {
                    assert(rest[a].0 < rest[b].0);
                } else {
                    let i = choose|i: int| 0 <= i < shorter.len() && rest[a].0 == shorter[i].1;
                    assert(m_rest[i].1 < pair.1);
                }
            }
        }
    }
}

/// Duplicating a selection never produces two nodes sharing an id, nor an
/// id already live in the network: the fresh ids are pairwise distinct and
/// the generator stands above every existing id. Repeating the duplicate
/// draws from ever higher ids, so the claim holds across repetitions.
pub proof fn lemma_duplicate_ids_fresh(net: NodeNetwork, sel: Seq<NodeId>, first: NodeId)
    requires
        forall|e: int| 0 <= e < net.nodes@.len() ==> (#[trigger] net.nodes@[e]).0 < first,
        first + sel.len() <= u64::MAX,
    ensures
        ({
            let copied = spec_copy_entries(
                net,
                spec_fresh_map(sel, first),
                spec_fresh_map(sel, first),
            );
            &&& forall|a: int, b: int| 0 <= a < b < copied.len() ==> copied[a].0 != copied[b].0
            &&& forall|a: int| 0 <= a < copied.len() ==> !has_id(net.nodes@, #[trigger] copied[a].0)
        }),
{
    let fm = spec_fresh_map(sel, first);
    assert(forall|i: int, j: int| 0 <= i < j < fm.len() ==> fm[i].1 < fm[j].1);
    lemma_copy_entries_ids(net, fm, fm);
    let copied = spec_copy_entries(net, fm, fm);
    assert forall|a: int| 0 <= a < copied.len() implies !has_id(
        net.nodes@,
        #[trigger] copied[a].0,
    ) by {
        let i = choose|i: int| 0 <= i < fm.len() && copied[a].0 == fm[i].1;
        assert(copied[a].0 >= first);
        if has_id(net.nodes@, copied[a].0) {
            let e = choose|e: int| 0 <= e < net.nodes@.len() && net.nodes@[e].0 == copied[a].0;
            assert(net.nodes@[e].0 < first);
        }
    }
}

/// Displacing two distinct in-range positions by the duplicate offset keeps
/// them distinct, so duplicated copies never share a position when their
/// originals did not and the grid does not saturate.
pub proof fn lemma_displaced_distinct(p: Position, q: Position)
    requires
        p != q,
        p.x <= i64::MAX - 2,
        p.y <= i64::MAX - 2,
        q.x <= i64::MAX - 2,
        q.y <= i64::MAX - 2,
    ensures
        p.spec_displaced(2, 2) != q.spec_displaced(2, 2),
{
    assert(p.spec_displaced(2, 2).x == p.x + 2 && p.spec_displaced(2, 2).y == p.y + 2);
    assert(q.spec_displaced(2, 2).x == q.x + 2 && q.spec_displaced(2, 2).y == q.y + 2);
}

/// Flattening the same definition from two call sites — two runs drawing
/// from one generator — produces two proto-node sets whose ids are
/// disjoint: nothing of one instance is shared with the other.
pub proof fn lemma_flatten_call_sites_disjoint(
    first: Seq<(u64, ProtoNode)>,
    second: Seq<(u64, ProtoNode)>,
    g0: u64,
    g1: u64,
    g2: u64,
)
    requires
        proto_ids_below(first, g1),
        forall|i: int| 0 <= i < second.len() ==> (#[trigger] second[i]).0 >= g2,
        g1 <= g2,
    ensures
        forall|i: int, j: int|
            0 <= i < first.len() && 0 <= j < second.len() ==> (#[trigger] first[i]).0 != (
            #[trigger] second[j]).0,
{
}

/// No chain of consumer steps returns to its start.
pub open spec fn acyclic(net: NodeNetwork) -> bool {
    forall|v: NodeId| !downstream(net, v, v)
}

/// Two networks whose entries agree on ids and input slots have the same
/// resolution of ids to entries.
proof fn lemma_index_of_same_ids(
    s1: Seq<(NodeId, DocumentNode)>,
    s2: Seq<(NodeId, DocumentNode)>,
    id: NodeId,
)
    requires
        s1.len() == s2.len(),
        forall|k: int| 0 <= k < s1.len() ==> (#[trigger] s1[k]).0 == s2[k].0,
    ensures
        has_id(s1, id) == has_id(s2, id),
        index_of_id(s1, id) == index_of_id(s2, id),
    decreases s1.len(),
{
    if s1.len() > 0 {
        assert(forall|k: int|
            0 <= k < s1.drop_first().len() ==> (#[trigger] s1.drop_first()[k]).0
                == s2.drop_first()[k].0);
        lemma_index_of_same_ids(s1.drop_first(), s2.drop_first(), id);
        assert(has_id(s1, id) == has_id(s2, id)) by {
            if has_id(s1, id) {
                let w = choose|w: int| 0 <= w < s1.len() && s1[w].0 == id;
                assert(s2[w].0 == id);
            }
            if has_id(s2, id) {
                let w = choose|w: int| 0 <= w < s2.len() && s2[w].0 == id;
                assert(s1[w].0 == id);
            }
        }
    }
}

/// Two networks whose entries agree on ids and input slots have the same
/// consumer steps, hence the same downstream relation.
proof fn lemma_same_links_same_steps(pre: NodeNetwork, post: NodeNetwork)
    requires
        post.nodes@.len() == pre.nodes@.len(),
        forall|k: int| 0 <= k < pre.nodes@.len() ==> (#[trigger] post.nodes@[k]).0 == pre.nodes@[k].0,
        forall|k: int|
            0 <= k < pre.nodes@.len() ==> (#[trigger] post.nodes@[k]).1.inputs
                == pre.nodes@[k].1.inputs,
    ensures
        forall|u: NodeId, v: NodeId|
            #[trigger] consumer_step(post, u, v) == consumer_step(pre, u, v),
{
    assert forall|u: NodeId, v: NodeId|
        #[trigger] consumer_step(post, u, v) == consumer_step(pre, u, v) by {
        lemma_index_of_same_ids(pre.nodes@, post.nodes@, v);
        if has_id(pre.nodes@, v) {
            lemma_index_of_id(pre.nodes@, v);
            let i = index_of_id(pre.nodes@, v);
            assert(spec_get(pre, v) == Option::Some(pre.nodes@[i].1));
            assert(spec_get(post, v) == Option::Some(post.nodes@[i].1));
            assert(post.nodes@[i].1.inputs == pre.nodes@[i].1.inputs);
            assert(spec_links_to(post.nodes@[i].1, u) == spec_links_to(pre.nodes@[i].1, u)) by {
                if spec_links_to(post.nodes@[i].1, u) {
                    let j = choose|j: int|
                        0 <= j < post.nodes@[i].1.inputs@.len() && input_targets(
                            #[trigger] post.nodes@[i].1.inputs@[j],
                            u,
                        );
                    assert(input_targets(pre.nodes@[i].1.inputs@[j], u));
                }
                if spec_links_to(pre.nodes@[i].1, u) {
                    let j = choose|j: int|
                        0 <= j < pre.nodes@[i].1.inputs@.len() && input_targets(
                            #[trigger] pre.nodes@[i].1.inputs@[j],
                            u,
                        );
                    assert(input_targets(post.nodes@[i].1.inputs@[j], u));
                }
            }
        }
    }
}

/// With the same consumer steps, the same chains hold.
proof fn lemma_same_steps_same_downstream(pre: NodeNetwork, post: NodeNetwork)
    requires
        forall|u: NodeId, v: NodeId|
            #[trigger] consumer_step(post, u, v) == consumer_step(pre, u, v),
    ensures
        forall|a: NodeId, b: NodeId| #[trigger] downstream(post, a, b) == downstream(pre, a, b),
{
    assert forall|a: NodeId, b: NodeId|
        #[trigger] downstream(post, a, b) == downstream(pre, a, b) by {
        if downstream(post, a, b) {
            let p = choose|p: Seq<NodeId>|
                p.len() >= 2 && p[0] == a && p.last() == b && #[trigger] path_ok(post, p);
            assert(path_ok(pre, p)) by {
                assert forall|i: int| 0 <= i < p.len() - 1 implies consumer_step(
                    pre,
                    #[trigger] p[i],
                    p[i + 1],
                ) by {
                    assert(consumer_step(post, p[i], p[i + 1]));
                }
            }
            assert(downstream(pre, a, b));
        }
        if downstream(pre, a, b) {
            let p = choose|p: Seq<NodeId>|
                p.len() >= 2 && p[0] == a && p.last() == b && #[trigger] path_ok(pre, p);
            assert(path_ok(post, p)) by {
                assert forall|i: int| 0 <= i < p.len() - 1 implies consumer_step(
                    post,
                    #[trigger] p[i],
                    p[i + 1],
                ) by {
                    assert(consumer_step(pre, p[i], p[i + 1]));
                }
            }
            assert(downstream(post, a, b));
        }
    }
}

/// The target position covers every linked predecessor: it lies at least
/// the minimum gap right of each of the first `k` slots' link targets.
proof fn lemma_target_covers_preds(
    net: NodeNetwork,
    inputs: Seq<crate::graph::NodeInput>,
    k: nat,
    acc: int,
    j: int,
    p: NodeId,
)
    requires
        i64::MIN <= acc <= i64::MAX,
        0 <= j < k,
        k <= inputs.len(),
        input_targets(inputs[j], p),
        spec_get(net, p) is Some,
    ensures
        target_x_rec(net, inputs, k, acc) >= sat_add(
            spec_get(net, p).unwrap().metadata.position.x as int,
            MIN_NODE_GAP as int,
        ),
    decreases k,
{
    lemma_target_x_bounds(net, inputs, (k - 1) as nat, acc);
    if j == k - 1 {
        match inputs[k - 1] {
            crate::graph::NodeInput::Node { node_id, .. } => {
                assert(node_id == p);
            },
            _ => {
                assert(false);
            },
        }
    } else {
        lemma_target_covers_preds(net, inputs, (k - 1) as nat, acc, j, p);
    }
}

/// For an acyclic network with distinct ids, the auto-spacing shift leaves
/// it acyclic, and afterwards every linked predecessor of the shifted node
/// stands at least the minimum horizontal gap to its left. Predecessors
/// whose position would saturate the grid axis are excluded.
pub proof fn lemma_shift_spacing(pre: NodeNetwork, post: NodeNetwork, node_id: NodeId)
    requires
        ids_distinct(pre.nodes@),
        shift_effect(pre, post, node_id),
        spec_get(pre, node_id) is Some,
        acyclic(pre),
        forall|p: NodeId|
            #[trigger] consumer_step(pre, p, node_id) && spec_get(pre, p) is Some ==> spec_get(
                pre,
                p,
            ).unwrap().metadata.position.x <= i64::MAX - MIN_NODE_GAP,
    ensures
        acyclic(post),
        forall|p: NodeId|
            #[trigger] consumer_step(pre, p, node_id) && p != node_id && spec_get(pre, p) is Some
                ==> spec_get(post, node_id).unwrap().metadata.position.x >= spec_get(
                post,
                p,
            ).unwrap().metadata.position.x + MIN_NODE_GAP,
{
    let s = pre.nodes@;
    lemma_index_of_id(s, node_id);
    let idx = index_of_id(s, node_id);
    let own = s[idx].1;
    let old_x = own.metadata.position.x as int;
    lemma_target_x_bounds(pre, own.inputs@, own.inputs@.len(), old_x);
    let target = shift_target_x(pre, node_id);
    let delta = target - old_x;

    // Structure is unchanged, so chains are unchanged and the network stays
    // acyclic.
    lemma_same_links_same_steps(pre, post);
    lemma_same_steps_same_downstream(pre, post);

    // The shifted node lands exactly on the target.
    assert(post.nodes@[idx].1.metadata.position.x as int == sat_add(old_x, delta));
    assert(sat_add(old_x, delta) == target);

    assert forall|p: NodeId|
        #[trigger] consumer_step(pre, p, node_id) && p != node_id && spec_get(pre, p) is Some
        implies spec_get(post, node_id).unwrap().metadata.position.x >= spec_get(
        post,
        p,
    ).unwrap().metadata.position.x + MIN_NODE_GAP by {
        assert(spec_get(pre, node_id) == Option::Some(own));
        let j = choose|j: int|
            0 <= j < own.inputs@.len() && input_targets(#[trigger] own.inputs@[j], p);
        lemma_index_of_id(s, p);
        // A predecessor named by a link exists as an entry, or the target
        // formula skips it; a consumer step names the shifted node's entry,
        // and the gap claim concerns predecessors that exist.
        {
            let pidx = index_of_id(s, p);
            lemma_target_covers_preds(pre, own.inputs@, own.inputs@.len(), old_x, j, p);
            let px = spec_get(pre, p).unwrap().metadata.position.x as int;
            assert(target >= sat_add(px, MIN_NODE_GAP as int));
            assert(sat_add(px, MIN_NODE_GAP as int) == px + MIN_NODE_GAP);
            // The predecessor itself does not move: otherwise it would lie
            // downstream of the shifted node and close a cycle.
            if downstream(pre, node_id, p) {
                let q = choose|q: Seq<NodeId>|
                    q.len() >= 2 && q[0] == node_id && q.last() == p && #[trigger] path_ok(pre, q);
                let c = q.push(node_id);
                assert(path_ok(pre, c)) by {
                    assert forall|i: int| 0 <= i < c.len() - 1 implies consumer_step(
                        pre,
                        #[trigger] c[i],
                        c[i + 1],
                    ) by {
                        if i < q.len() - 1 {
                            assert(c[i] == q[i] && c[i + 1] == q[i + 1]);
                            assert(consumer_step(pre, q[i], q[i + 1]));
                        } else {
                            assert(c[i] == q.last() && c[i + 1] == node_id);
                        }
                    }
                }
                assert(c[0] == node_id && c.last() == node_id);
                assert(downstream(pre, node_id, node_id));
                assert(false);
            }
            assert(post.nodes@[pidx].1.metadata.position.x == s[pidx].1.metadata.position.x);
            assert(spec_get(post, p) == Option::Some(post.nodes@[pidx].1)) by {
                lemma_index_of_same_ids(pre.nodes@, post.nodes@, p);
                lemma_index_of_id(post.nodes@, p);
            }
            assert(spec_get(post, node_id) == Option::Some(post.nodes@[idx].1)) by {
                lemma_index_of_same_ids(pre.nodes@, post.nodes@, node_id);
                lemma_index_of_id(post.nodes@, node_id);
            }
        }
    }
}


/// Deleting a node listed among the boundary inputs or current outputs
/// never mutates the network and reports failure.
pub proof fn lemma_delete_protected(pre: NodeNetwork, post: NodeNetwork, ok: bool, id: NodeId)
    requires
        crate::delete::delete_effect(pre, post, ok, id),
        pre.inputs@.contains(id) || pre.spec_outputs_contain(id),
    ensures
        !ok,
        post == pre,
{
    assert(crate::delete::delete_blocked(crate::graph::net_view(pre), id));
}

/// Whatever the removal keeps was already there.
proof fn lemma_ids_removed_subset(list: Seq<NodeId>, removed: Seq<NodeId>, x: NodeId)
    requires
        crate::ops::ids_removed(list, removed).contains(x),
    ensures
        list.contains(x),
    decreases list,
{
    if list.len() > 0 {
        let rest = crate::ops::ids_removed(list.drop_last(), removed);
        if removed.contains(list.last()) {
            lemma_ids_removed_subset(list.drop_last(), removed, x);
            let w = choose|w: int| 0 <= w < list.drop_last().len() && list.drop_last()[w] == x;
            assert(list[w] == x);
        } else {
            let s = crate::ops::ids_removed(list, removed);
            let j = choose|j: int| 0 <= j < s.len() && s[j] == x;
            if j < rest.len() {
                assert(rest.contains(x));
                lemma_ids_removed_subset(list.drop_last(), removed, x);
                let w = choose|w: int| 0 <= w < list.drop_last().len() && list.drop_last()[w] == x;
                assert(list[w] == x);
            } else {
                assert(x == list.last());
                assert(list[list.len() - 1] == x);
            }
        }
    }
}

/// The hidden toggle never disables a boundary input or an original output
/// node, even when the selection names it: an enabled node in one of those
/// roles stays enabled.
pub proof fn lemma_hidden_protects_boundary(
    pre: NodeNetwork,
    post: NodeNetwork,
    sel: Seq<NodeId>,
    id: NodeId,
)
    requires
        crate::ops::hidden_effect(pre, post, sel),
        pre.inputs@.contains(id) || (exists|o: int|
            0 <= o < pre.spec_original_outputs().len() && pre.spec_original_outputs()[o].node_id
                == id),
        !pre.disabled@.contains(id),
    ensures
        !post.disabled@.contains(id),
{
    if exists|i: int| 0 <= i < sel.len() && pre.disabled@.contains(#[trigger] sel[i]) {
        assert(post.disabled@ == crate::ops::ids_removed(pre.disabled@, sel));
        if post.disabled@.contains(id) {
            lemma_ids_removed_subset(pre.disabled@, sel, id);
        }
    } else {
        assert(post.disabled@ == pre.disabled@ + crate::ops::disable_eligible(pre, sel));
        crate::ops::lemma_disable_eligible(pre, sel);
        if post.disabled@.contains(id) {
            let j = choose|j: int| 0 <= j < post.disabled@.len() && post.disabled@[j] == id;
            if j < pre.disabled@.len() {
                assert(pre.disabled@[j] == id);
                assert(pre.disabled@.contains(id));
            } else {
                let e = crate::ops::disable_eligible(pre, sel);
                assert(e[j - pre.disabled@.len()] == id);
                assert(e.contains(id));
            }
        }
    }
}


/// Auto-spacing moves every downstream node by the same amount as the
/// shifted node, so the spacing between the shifted node and each of its
/// direct successors is preserved exactly, as long as the axis does not
/// saturate.
pub proof fn lemma_shift_preserves_successor_gaps(
    pre: NodeNetwork,
    post: NodeNetwork,
    node_id: NodeId,
    succ: NodeId,
)
    requires
        ids_distinct(pre.nodes@),
        shift_effect(pre, post, node_id),
        spec_get(pre, node_id) is Some,
        spec_get(pre, succ) is Some,
        consumer_step(pre, node_id, succ),
        succ != node_id,
        spec_get(pre, succ).unwrap().metadata.position.x + (shift_target_x(pre, node_id)
            - spec_get(pre, node_id).unwrap().metadata.position.x) <= i64::MAX,
    ensures
        spec_get(post, succ).unwrap().metadata.position.x - spec_get(
            post,
            node_id,
        ).unwrap().metadata.position.x == spec_get(pre, succ).unwrap().metadata.position.x
            - spec_get(pre, node_id).unwrap().metadata.position.x,
{
    let s = pre.nodes@;
    lemma_index_of_id(s, node_id);
    lemma_index_of_id(s, succ);
    let idx = index_of_id(s, node_id);
    let sidx = index_of_id(s, succ);
    let old_x = s[idx].1.metadata.position.x as int;
    lemma_target_x_bounds(pre, s[idx].1.inputs@, s[idx].1.inputs@.len(), old_x);
    let target = shift_target_x(pre, node_id);
    let delta = target - old_x;
    // The successor lies downstream by the one-step chain.
    let p = seq![node_id, succ];
    assert(path_ok(pre, p)) by {
        assert forall|i: int| 0 <= i < p.len() - 1 implies consumer_step(
            pre,
            #[trigger] p[i],
            p[i + 1],
        ) by {
            assert(i == 0);
        }
    }
    assert(p.last() == succ);
    assert(downstream(pre, node_id, succ));
    assert(post.nodes@[idx].1.metadata.position.x as int == sat_add(old_x, delta));
    assert(post.nodes@[sidx].1.metadata.position.x as int == sat_add(
        s[sidx].1.metadata.position.x as int,
        delta,
    ));
    assert(spec_get(post, node_id) == Option::Some(post.nodes@[idx].1)) by {
        lemma_same_links_same_steps(pre, post);
        lemma_index_of_same_ids(pre.nodes@, post.nodes@, node_id);
        lemma_index_of_id(post.nodes@, node_id);
    }
    assert(spec_get(post, succ) == Option::Some(post.nodes@[sidx].1)) by {
        lemma_index_of_same_ids(pre.nodes@, post.nodes@, succ);
        lemma_index_of_id(post.nodes@, succ);
    }
}


/// The literal value a slot's registered default carries; meaningful only
/// where the default is a literal.
pub open spec fn default_literal_of(name: Seq<char>, j: int) -> crate::value::ValueView {
    match crate::catalog::spec_default_input(name, j) {
        Option::Some(crate::graph::InputView::Value { value, exposed: _ }) => value,
        _ => crate::value::ValueView::Empty,
    }
}

/// Deleting a node rewrites, at its own level, every link that targets it
/// — and only those slots — to the target slot's registered literal
/// default, exposed; ids, names, positions and every other slot are kept.
/// The same rewrite recurses into nested networks through
/// `delete_rewritten_net` itself, so links inside sibling sub-networks are
/// rewritten alike wherever their level is not itself blocked.
pub proof fn lemma_delete_rewrites_links(v: crate::graph::NetView, id: NodeId)
    requires
        !crate::delete::delete_blocked(v, id),
    ensures
        ({
            let w = crate::delete::delete_rewritten_net(v, id);
            &&& w.nodes.len() == v.nodes.len()
            &&& w.inputs == v.inputs
            &&& w.outputs == v.outputs
            &&& forall|k: int| 0 <= k < v.nodes.len() ==> (#[trigger] w.nodes[k]).0 == v.nodes[k].0
            &&& forall|k: int|
                0 <= k < v.nodes.len() && v.nodes[k].0 != id ==> {
                    let before = v.nodes[k].1;
                    let after = (#[trigger] w.nodes[k]).1;
                    &&& after.name == before.name
                    &&& after.position == before.position
                    &&& after.inputs.len() == before.inputs.len()
                    &&& forall|j: int|
                        0 <= j < before.inputs.len() ==> #[trigger] after.inputs[j] == (
                        if crate::delete::input_links_to(before.inputs[j], id) {
                            crate::graph::InputView::Value {
                                value: default_literal_of(before.name, j),
                                exposed: true,
                            }
                        } else {
                            before.inputs[j]
                        })
                }
        }),
{
    let w = crate::delete::delete_rewritten_net(v, id);
    crate::delete::lemma_delete_rewritten_entries(v.nodes, id);
    assert forall|k: int|
        0 <= k < v.nodes.len() && v.nodes[k].0 != id implies {
        let before = v.nodes[k].1;
        let after = (#[trigger] w.nodes[k]).1;
        &&& after.name == before.name
        &&& after.position == before.position
        &&& after.inputs.len() == before.inputs.len()
        &&& forall|j: int|
            0 <= j < before.inputs.len() ==> #[trigger] after.inputs[j] == (
            if crate::delete::input_links_to(before.inputs[j], id) {
                crate::graph::InputView::Value {
                    value: default_literal_of(before.name, j),
                    exposed: true,
                }
            } else {
                before.inputs[j]
            })
    } by {
        let before = v.nodes[k].1;
        let after = w.nodes[k].1;
        assert(after == crate::delete::delete_rewritten_node(before, id));
        assert forall|j: int|
            0 <= j < before.inputs.len() implies #[trigger] after.inputs[j] == (
        if crate::delete::input_links_to(before.inputs[j], id) {
            crate::graph::InputView::Value {
                value: default_literal_of(before.name, j),
                exposed: true,
            }
        } else {
            before.inputs[j]
        }) by {
            assert(after.inputs[j] == crate::delete::delete_rewritten_input(
                before.name,
                j,
                before.inputs[j],
                id,
            ));
            if crate::delete::input_links_to(before.inputs[j], id) {
                // An unblocked deletion leaves no linking slot without a
                // registered literal default.
                assert(crate::delete::literal_default(before.name, j)) by {
                    if !crate::delete::literal_default(before.name, j) {
                        assert(crate::delete::delete_blocked(v, id));
                    }
                }
            }
        }
    }
}

} // verus!
