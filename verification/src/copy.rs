//! Copying nodes: the id-remapping primitive shared by copy, duplicate and
//! paste. A map from old to new ids is built first; every node is then
//! cloned with each link rewritten through the map, links leaving the
//! copied set falling back to the slot's registered default. Paste also
//! searches for a displacement that moves the pasted block clear of every
//! existing node position.

use vstd::prelude::*;
use crate::catalog::{default_node_input, spec_default_input};
use crate::graph::{
    DocumentNode,
    InputView,
    NodeId,
    NodeInput,
    NodeNetwork,
    NodeView,
    Position,
    entries_view,
    input_view,
    inputs_view,
    lemma_entries_view,
    node_view,
    spec_get,
};

verus! {

/// The new id an old id maps to, if the map lists it.
pub open spec fn map_lookup(m: Seq<(NodeId, NodeId)>, id: NodeId) -> Option<NodeId>
    decreases m,
{
    if m.len() == 0 {
        Option::None
    } else if m[0].0 == id {
        Option::Some(m[0].1)
    } else {
        map_lookup(m.drop_first(), id)
    }
}

/// Look an old id up in the id map.
pub fn map_get(m: &Vec<(NodeId, NodeId)>, id: NodeId) -> (r: Option<NodeId>)
    ensures
        r == map_lookup(m@, id),
{
    let mut i: usize = 0;
    proof {
        assert(m@.skip(0) =~= m@);
    }
    while i < m.len()
        invariant
            0 <= i <= m@.len(),
            map_lookup(m@, id) == map_lookup(m@.skip(i as int), id),
        decreases m@.len() - i,
    {
        proof {
            assert(m@.skip(i as int)[0] == m@[i as int]);
            assert(m@.skip(i as int).drop_first() =~= m@.skip(i as int + 1));
        }
        if m[i].0 == id {
            return Option::Some(m[i].1);
        }
        i = i + 1;
    }
    proof {
        assert(m@.skip(m@.len() as int) =~= Seq::<(NodeId, NodeId)>::empty());
    }
    Option::None
}

/// One slot rewritten through the id map: a link to a mapped id follows the
/// map; a link leaving the mapped set falls back to the slot's registered
/// default, or to a boundary placeholder when the type is unknown; every
/// other slot is kept.
pub open spec fn mapped_input_view(
    name: Seq<char>,
    index: int,
    iv: InputView,
    m: Seq<(NodeId, NodeId)>,
) -> InputView {
    match iv {
        InputView::Node { node_id, output_index, lambda } => match map_lookup(m, node_id) {
            Option::Some(new_id) => InputView::Node { node_id: new_id, output_index, lambda },
            Option::None => match spec_default_input(name, index) {
                Option::Some(d) => d,
                Option::None => InputView::Network,
            },
        },
        _ => iv,
    }
}

/// The slots of one node rewritten through the id map.
pub open spec fn mapped_inputs_view(
    name: Seq<char>,
    inputs: Seq<InputView>,
    m: Seq<(NodeId, NodeId)>,
) -> Seq<InputView> {
    Seq::new(inputs.len(), |j: int| mapped_input_view(name, j, inputs[j], m))
}

/// A node rewritten through the id map: only its slots change.
pub open spec fn mapped_node_view(n: NodeView, m: Seq<(NodeId, NodeId)>) -> NodeView {
    NodeView { inputs: mapped_inputs_view(n.name, n.inputs, m), ..n }
}

/// Clone a node with every link rewritten through the id map.
#[verifier::loop_isolation(false)]
pub fn map_ids(node: &DocumentNode, new_ids: &Vec<(NodeId, NodeId)>) -> (r: DocumentNode)
    ensures
        node_view(r) == mapped_node_view(node_view(*node), new_ids@),
{
    let mut fresh = node.clone();
    let name = node.name.clone();
    proof {
        assert forall|j: int| 0 <= j < fresh.inputs@.len() implies #[trigger] input_view(
            fresh.inputs@[j],
        ) == input_view(node.inputs@[j]) by {
            assert(inputs_view(fresh.inputs@)[j] == input_view(fresh.inputs@[j]));
            assert(inputs_view(node.inputs@)[j] == input_view(node.inputs@[j]));
        }
    }
    let mut i: usize = 0;
    while i < fresh.inputs.len()
        invariant
            fresh.inputs@.len() == node.inputs@.len(),
            0 <= i <= fresh.inputs@.len(),
            name@ == node.name@,
            fresh.name@ == node.name@,
            node_view(fresh).name == node_view(*node).name,
            node_view(fresh).implementation == node_view(*node).implementation,
            node_view(fresh).position == node_view(*node).position,
            forall|j: int|
                i <= j < fresh.inputs@.len() ==> #[trigger] input_view(fresh.inputs@[j])
                    == input_view(node.inputs@[j]),
            forall|j: int|
                0 <= j < i ==> #[trigger] input_view(fresh.inputs@[j]) == mapped_input_view(
                    node.name@,
                    j,
                    input_view(node.inputs@[j]),
                    new_ids@,
                ),
        decreases fresh.inputs@.len() - i,
    {
        let link: Option<(NodeId, usize, bool)> = match &fresh.inputs[i] {
            NodeInput::Node { node_id, output_index, lambda } => Option::Some(
                (*node_id, *output_index, *lambda),
            ),
            _ => Option::None,
        };
        proof {
            assert(input_view(fresh.inputs@[i as int]) == input_view(node.inputs@[i as int]));
        }
        match link {
            Option::Some((node_id, output_index, lambda)) => {
                proof {
                    assert(input_view(node.inputs@[i as int]) == (InputView::Node {
                        node_id,
                        output_index,
                        lambda,
                    }));
                }
                match map_get(new_ids, node_id) {
                    Option::Some(new_id) => {
                        fresh.inputs.set(
                            i,
                            NodeInput::Node { node_id: new_id, output_index, lambda },
                        );
                    },
                    Option::None => {
                        match default_node_input(&name, i) {
                            Option::Some(d) => {
                                fresh.inputs.set(i, d);
                            },
                            Option::None => {
                                fresh.inputs.set(i, NodeInput::Network);
                            },
                        }
                    },
                }
            },
            Option::None => {},
        }
        proof {
            assert(input_view(fresh.inputs@[i as int]) == mapped_input_view(
                node.name@,
                i as int,
                input_view(node.inputs@[i as int]),
                new_ids@,
            ));
        }
        i = i + 1;
    }
    proof {
        assert(inputs_view(fresh.inputs@) =~= mapped_inputs_view(
            node.name@,
            inputs_view(node.inputs@),
            new_ids@,
        ));
    }
    fresh
}

/// The copies produced from an id map against a network: one entry per map
/// pair whose old id names an existing node that is not a current output,
/// in map order, carrying the new id and the rewritten node.
pub open spec fn spec_copy_entries(
    net: NodeNetwork,
    m_full: Seq<(NodeId, NodeId)>,
    m_rest: Seq<(NodeId, NodeId)>,
) -> Seq<(NodeId, NodeView)>
    decreases m_rest,
{
    if m_rest.len() == 0 {
        Seq::empty()
    } else {
        let rest = spec_copy_entries(net, m_full, m_rest.drop_last());
        let pair = m_rest.last();
        if !net.spec_outputs_contain(pair.0) && spec_get(net, pair.0) is Some {
            rest.push((pair.1, mapped_node_view(node_view(spec_get(net, pair.0).unwrap()), m_full)))
        } else {
            rest
        }
    }
}

/// The nodes to be copied under an id map: output nodes and absent ids are
/// skipped; every copied node has its links rewritten through the map.
#[verifier::loop_isolation(false)]
pub fn copy_nodes(network: &NodeNetwork, new_ids: &Vec<(NodeId, NodeId)>) -> (r: Vec<
    (NodeId, DocumentNode),
>)
    ensures
        entries_view(r@) == spec_copy_entries(*network, new_ids@, new_ids@),
{
    let mut out: Vec<(NodeId, DocumentNode)> = Vec::new();
    let mut i: usize = 0;
    while i < new_ids.len()
        invariant
            0 <= i <= new_ids@.len(),
            entries_view(out@) =~= spec_copy_entries(
                *network,
                new_ids@,
                new_ids@.take(i as int),
            ),
        decreases new_ids@.len() - i,
    {
        proof {
            assert(new_ids@.take((i + 1) as int).drop_last() =~= new_ids@.take(i as int));
        }
        let (old_id, new_id) = (new_ids[i].0, new_ids[i].1);
        if !network.outputs_contain(old_id) {
            match network.get_node(old_id) {
                Option::Some(node) => {
                    let copied = map_ids(node, new_ids);
                    let ghost prev = out@;
                    out.push((new_id, copied));
                    proof {
                        lemma_entries_view(out@);
                        lemma_entries_view(prev);
                    }
                },
                Option::None => {},
            }
        }
        i = i + 1;
    }
    proof {
        assert(new_ids@.take(new_ids@.len() as int) =~= new_ids@);
    }
    out
}

/// Whether displacing the pasted positions by `(k, k)` makes some pasted
/// position coincide with some existing node's position.
pub open spec fn spec_collision(net: NodeNetwork, positions: Seq<Position>, k: int) -> bool {
    exists|a: int, b: int|
        0 <= a < positions.len() && 0 <= b < net.nodes@.len() && (#[trigger] positions[a]).x + k
            == (#[trigger] net.nodes@[b]).1.metadata.position.x && positions[a].y + k
            == net.nodes@[b].1.metadata.position.y
}

/// Whether displacing the pasted positions by `(k, k)` collides.
#[verifier::loop_isolation(false)]
fn check_collision(network: &NodeNetwork, positions: &Vec<Position>, k: i128) -> (r: bool)
    requires
        -0x20000000000000000i128 <= k <= 0x20000000000000000i128,
    ensures
        r == spec_collision(*network, positions@, k as int),
{
    let mut a: usize = 0;
    while a < positions.len()
        invariant
            0 <= a <= positions@.len(),
            forall|x: int, b: int|
                0 <= x < a && 0 <= b < network.nodes@.len() ==> !((#[trigger] positions@[x]).x + k
                    == (#[trigger] network.nodes@[b]).1.metadata.position.x && positions@[x].y + k
                    == network.nodes@[b].1.metadata.position.y),
        decreases positions@.len() - a,
    {
        let px: i128 = positions[a].x as i128 + k;
        let py: i128 = positions[a].y as i128 + k;
        let mut b: usize = 0;
        while b < network.nodes.len()
            invariant
                0 <= b <= network.nodes@.len(),
                px == positions@[a as int].x + k,
                py == positions@[a as int].y + k,
                forall|c: int|
                    0 <= c < b ==> !(positions@[a as int].x + k
                        == network.nodes@[c].1.metadata.position.x && positions@[a as int].y + k
                        == #[trigger] network.nodes@[c].1.metadata.position.y),
            decreases network.nodes@.len() - b,
        {
            let ex = network.nodes[b].1.metadata.position.x;
            let ey = network.nodes[b].1.metadata.position.y;
            if px == ex as i128 && py == ey as i128 {
                return true;
            }
            b = b + 1;
        }
        a = a + 1;
    }
    proof {
        assert(!spec_collision(*network, positions@, k as int)) by {
            if spec_collision(*network, positions@, k as int) {
                let (x, b) = choose|x: int, b: int|
                    0 <= x < positions@.len() && 0 <= b < network.nodes@.len() && (#[trigger] positions@[x]).x
                        + k == (#[trigger] network.nodes@[b]).1.metadata.position.x
                        && positions@[x].y + k == network.nodes@[b].1.metadata.position.y;
            }
        }
    }
    false
}

/// The even displacement that moves the pasted block clear of every
/// existing node position: the first of `0, 2, 4, …` without a collision.
/// Nothing comes back only when every even displacement that fits the grid
/// axis collides.
#[verifier::loop_isolation(false)]
pub fn paste_shift(network: &NodeNetwork, positions: &Vec<Position>) -> (r: Option<i64>)
    ensures
        match r {
            Option::Some(k) => {
                &&& k >= 0
                &&& k % 2 == 0
                &&& !spec_collision(*network, positions@, k as int)
                &&& forall|k2: int|
                    0 <= k2 < k && k2 % 2 == 0 ==> spec_collision(*network, positions@, k2)
            },
            Option::None => forall|k2: int|
                0 <= k2 <= i64::MAX && k2 % 2 == 0 ==> spec_collision(*network, positions@, k2),
        },
{
    if positions.len() == 0 || network.nodes.len() == 0 {
        proof {
            assert(!spec_collision(*network, positions@, 0)) by {
                if spec_collision(*network, positions@, 0) {
                    let (x, b) = choose|x: int, b: int|
                        0 <= x < positions@.len() && 0 <= b < network.nodes@.len()
                            && (#[trigger] positions@[x]).x + 0
                            == (#[trigger] network.nodes@[b]).1.metadata.position.x
                            && positions@[x].y + 0 == network.nodes@[b].1.metadata.position.y;
                }
            }
        }
        return Option::Some(0);
    }
    // A colliding displacement equals the difference of an existing and a
    // pasted coordinate, so it never exceeds this bound.
    let mut bound: i128 = network.nodes[0].1.metadata.position.x as i128 - positions[0].x as i128;
    let mut b: usize = 0;
    while b < network.nodes.len()
        invariant
            0 <= b <= network.nodes@.len(),
            bound >= network.nodes@[0].1.metadata.position.x - positions@[0].x,
            -0xFFFFFFFFFFFFFFFFi128 <= bound <= 0xFFFFFFFFFFFFFFFFi128,
            forall|c: int, x: int|
                0 <= c < b && 0 <= x < positions@.len()
                    ==> (#[trigger] network.nodes@[c]).1.metadata.position.x
                    - (#[trigger] positions@[x]).x <= bound,
        decreases network.nodes@.len() - b,
    {
        let ex = network.nodes[b].1.metadata.position.x;
        let mut x: usize = 0;
        while x < positions.len()
            invariant
                0 <= x <= positions@.len(),
                ex == network.nodes@[b as int].1.metadata.position.x,
                bound >= network.nodes@[0].1.metadata.position.x - positions@[0].x,
                -0xFFFFFFFFFFFFFFFFi128 <= bound <= 0xFFFFFFFFFFFFFFFFi128,
                forall|c: int, y: int|
                    0 <= c < b && 0 <= y < positions@.len()
                        ==> (#[trigger] network.nodes@[c]).1.metadata.position.x
                        - (#[trigger] positions@[y]).x <= bound,
                forall|y: int|
                    0 <= y < x ==> network.nodes@[b as int].1.metadata.position.x
                        - #[trigger] positions@[y].x <= bound,
            decreases positions@.len() - x,
        {
            let diff: i128 = ex as i128 - positions[x].x as i128;
            if diff > bound {
                bound = diff;
            }
            x = x + 1;
        }
        b = b + 1;
    }
    let mut k: i128 = 0;
    while check_collision(network, positions, k)
        invariant
            0 <= k,
            k % 2 == 0,
            k == 0 || k <= bound + 2,
            -0xFFFFFFFFFFFFFFFFi128 <= bound <= 0xFFFFFFFFFFFFFFFFi128,
            forall|c: int, x: int|
                0 <= c < network.nodes@.len() && 0 <= x < positions@.len()
                    ==> (#[trigger] network.nodes@[c]).1.metadata.position.x
                    - (#[trigger] positions@[x]).x <= bound,
            forall|k2: int| 0 <= k2 < k && k2 % 2 == 0 ==> spec_collision(*network, positions@, k2),
        decreases bound + 2 - k,
    {
        proof {
            let (x, b2) = choose|x: int, b2: int|
                0 <= x < positions@.len() && 0 <= b2 < network.nodes@.len()
                    && (#[trigger] positions@[x]).x + k
                    == (#[trigger] network.nodes@[b2]).1.metadata.position.x
                    && positions@[x].y + k == network.nodes@[b2].1.metadata.position.y;
            assert(k == network.nodes@[b2].1.metadata.position.x - positions@[x].x);
            assert(k <= bound);
        }
        k = k + 2;
    }
    if k <= i64::MAX as i128 {
        Option::Some(k as i64)
    } else {
        Option::None
    }
}

} // verus!
