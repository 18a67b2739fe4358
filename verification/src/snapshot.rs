//! The snapshot of the active network sent to the graph interface: the list
//! of links between exposed slots, and one record per node whose type is
//! registered, carrying its value kinds, position and state flags.

use vstd::prelude::*;
use crate::catalog::{resolve_document_node_type, spec_resolve};
use crate::frontend::{
    FrontendGraphDataType,
    FrontendNode,
    FrontendNodeLink,
    NodeGraphInput,
    NodeGraphOutput,
};
use crate::graph::{
    InputView,
    NodeId,
    NodeNetwork,
    NodeView,
    entries_view,
    lemma_entries_view,
};
use vstd::string::StringExecFns;

verus! {

/// The links contributed by the first `k` slots of one node: one link per
/// exposed slot holding a link, its input index counting exposed slots
/// only.
pub open spec fn node_links_upto(
    end_id: NodeId,
    inputs: Seq<InputView>,
    k: nat,
) -> Seq<FrontendNodeLink>
    decreases k,
{
    if k == 0 {
        Seq::empty()
    } else {
        node_links_upto(end_id, inputs, (k - 1) as nat) + match inputs[k - 1] {
            InputView::Node { node_id, output_index, lambda: _ } => seq![
                FrontendNodeLink {
                    link_start: node_id,
                    link_start_output_index: output_index,
                    link_end: end_id,
                    link_end_input_index: exposed_before(inputs, (k - 1) as int) as u64,
                },
            ],
            _ => Seq::empty(),
        }
    }
}

/// How many of the slots before `k` are exposed.
pub open spec fn exposed_before(inputs: Seq<InputView>, k: int) -> nat
    decreases k,
{
    if k <= 0 {
        0
    } else {
        exposed_before(inputs, k - 1) + if spec_input_view_exposed(inputs[k - 1]) {
            1nat
        } else {
            0nat
        }
    }
}

/// Whether a slot view is exposed.
pub open spec fn spec_input_view_exposed(iv: InputView) -> bool {
    match iv {
        InputView::Value { value: _, exposed } => exposed,
        InputView::Node { .. } => true,
        InputView::Network => true,
    }
}

/// The links of the first `k` node entries, in entry order.
pub open spec fn links_upto(entries: Seq<(NodeId, NodeView)>, k: nat) -> Seq<FrontendNodeLink>
    decreases k,
{
    if k == 0 {
        Seq::empty()
    } else {
        links_upto(entries, (k - 1) as nat) + node_links_upto(
            entries[k - 1].0,
            entries[k - 1].1.inputs,
            entries[k - 1].1.inputs.len(),
        )
    }
}

/// All links of a network's snapshot.
pub open spec fn spec_links(v: Seq<(NodeId, NodeView)>) -> Seq<FrontendNodeLink> {
    links_upto(v, v.len())
}

/// Collect the links of the active network: one entry per exposed slot that
/// holds a link, giving the source node and output index and the
/// destination node and exposed-input index.
#[verifier::loop_isolation(false)]
pub fn collect_links(network: &NodeNetwork) -> (r: Vec<FrontendNodeLink>)
    ensures
        r@ == spec_links(entries_view(network.nodes@)),
{
    proof {
        lemma_entries_view(network.nodes@);
    }
    let ghost entries = entries_view(network.nodes@);
    let mut out: Vec<FrontendNodeLink> = Vec::new();
    let mut i: usize = 0;
    while i < network.nodes.len()
        invariant
            0 <= i <= network.nodes@.len(),
            entries.len() == network.nodes@.len(),
            out@ =~= links_upto(entries, i as nat),
        decreases network.nodes@.len() - i,
    {
        let end_id = network.nodes[i].0;
        let node = &network.nodes[i].1;
        let ghost ivs = entries[i as int].1.inputs;
        let mut exposed_count: usize = 0;
        let mut j: usize = 0;
        while j < node.inputs.len()
            invariant
                0 <= j <= node.inputs@.len(),
                ivs.len() == node.inputs@.len(),
                ivs == entries[i as int].1.inputs,
                end_id == entries[i as int].0,
                forall|l: int|
                    0 <= l < node.inputs@.len() ==> #[trigger] ivs[l] == crate::graph::input_view(
                        node.inputs@[l],
                    ),
                exposed_count == exposed_before(ivs, j as int),
                exposed_count <= j,
                out@ =~= links_upto(entries, i as nat) + node_links_upto(end_id, ivs, j as nat),
            decreases node.inputs@.len() - j,
        {
            let exposed = node.inputs[j].is_exposed();
            match &node.inputs[j] {
                crate::graph::NodeInput::Node { node_id, output_index, lambda: _ } => {
                    out.push(
                        FrontendNodeLink {
                            link_start: *node_id,
                            link_start_output_index: *output_index,
                            link_end: end_id,
                            link_end_input_index: exposed_count as u64,
                        },
                    );
                },
                _ => {},
            }
            if exposed {
                exposed_count = exposed_count + 1;
            }
            j = j + 1;
        }
        i = i + 1;
    }
    out
}

/// The outcome of classifying one node for the snapshot: which value kinds
/// its exposed slots and outputs carry, read from its registered type.
#[derive(Debug)]
pub struct SelectionActionButtons {
    /// Whether the hide-or-show button is offered: some selected node is
    /// neither a boundary input nor an original output.
    pub show_hide_button: bool,
    /// Whether the button reads as "show": some selected node is disabled.
    pub is_hidden: bool,
    /// Whether several such nodes are selected.
    pub multiple_nodes: bool,
    /// The preview button, offered when exactly one node is selected and it
    /// is not the stable output: the selected node and whether it is
    /// currently previewed.
    pub preview_button: Option<(NodeId, bool)>,
}

/// What the action buttons for a selection say: the hide-or-show button is
/// offered exactly when some selected node is neither a boundary input nor
/// an original output, reads as "show" exactly when some selected node is
/// disabled, and the preview button is offered exactly for a single
/// selected node that is not the stable output.
pub open spec fn spec_buttons(
    network: NodeNetwork,
    selected: Seq<NodeId>,
    r: SelectionActionButtons,
) -> bool {
    &&& r.show_hide_button == exists|i: int|
        0 <= i < selected.len() && !network.inputs@.contains(#[trigger] selected[i]) && !(exists|
            o: int,
        |
            0 <= o < network.spec_original_outputs().len()
                && network.spec_original_outputs()[o].node_id == selected[i])
    &&& r.is_hidden == exists|i: int|
        0 <= i < selected.len() && network.disabled@.contains(#[trigger] selected[i])
    &&& r.preview_button == (if selected.len() == 1 && !(network.spec_outputs_contain(selected[0])
        && (match network.previous_outputs {
        Option::Some(p) => exists|o: int| 0 <= o < p@.len() && p@[o].node_id == selected[0],
        Option::None => true,
    })) {
        Option::Some((selected[0], network.spec_outputs_contain(selected[0])))
    } else {
        Option::<(NodeId, bool)>::None
    })
}

/// Which action buttons the current selection offers.
#[verifier::loop_isolation(false)]
pub fn selection_action_buttons(network: &NodeNetwork, selected: &Vec<NodeId>) -> (r:
    SelectionActionButtons)
    ensures
        spec_buttons(*network, selected@, r),
{
    let mut eligible_count: usize = 0;
    let mut is_hidden: bool = false;
    let mut i: usize = 0;
    while i < selected.len()
        invariant
            0 <= i <= selected@.len(),
            eligible_count <= i,
            (eligible_count > 0) == exists|l: int|
                0 <= l < i && !network.inputs@.contains(#[trigger] selected@[l]) && !(exists|o: int|
                    0 <= o < network.spec_original_outputs().len()
                        && network.spec_original_outputs()[o].node_id == selected@[l]),
            (eligible_count > 1) == exists|l: int, m: int|
                0 <= l < m < i && (!network.inputs@.contains(#[trigger] selected@[l]) && !(exists|
                    o: int,
                |
                    0 <= o < network.spec_original_outputs().len()
                        && network.spec_original_outputs()[o].node_id == selected@[l])) && (
                !network.inputs@.contains(#[trigger] selected@[m]) && !(exists|o: int|
                    0 <= o < network.spec_original_outputs().len()
                        && network.spec_original_outputs()[o].node_id == selected@[m])),
            is_hidden == exists|l: int|
                0 <= l < i && network.disabled@.contains(#[trigger] selected@[l]),
        decreases selected@.len() - i,
    {
        let id = selected[i];
        let is_input = crate::graph::id_list_contains(&network.inputs, id);
        let is_original_output = network.original_outputs_contain(id);
        let ghost before = eligible_count as int;
        if !is_input && !is_original_output {
            if eligible_count < usize::MAX {
                eligible_count = eligible_count + 1;
            }
        }
        if crate::graph::id_list_contains(&network.disabled, id) {
            is_hidden = true;
        }
        i = i + 1;
    }
    let preview_button: Option<(NodeId, bool)> = if selected.len() == 1 {
        let node_id = selected[0];
        let is_output = network.outputs_contain(node_id);
        let in_previous = match network.previous_outputs_contain(node_id) {
            Option::Some(b) => b,
            Option::None => true,
        };
        if !(is_output && in_previous) {
            Option::Some((node_id, is_output))
        } else {
            Option::None
        }
    } else {
        Option::None
    };
    SelectionActionButtons {
        show_hide_button: eligible_count > 0,
        is_hidden,
        multiple_nodes: eligible_count > 1,
        preview_button,
    }
}

/// The display names the path descends through: the name of each node it
/// names, stopping at the first segment that is absent or has no nested
/// implementation to descend into.
pub open spec fn spec_breadcrumbs(net: NodeNetwork, path: Seq<NodeId>) -> Seq<Seq<char>>
    decreases path.len(),
{
    if path.len() == 0 {
        Seq::empty()
    } else {
        match crate::graph::spec_get(net, path[0]) {
            Option::None => Seq::empty(),
            Option::Some(n) => seq![n.name@] + (match n.implementation {
                crate::graph::DocumentNodeImplementation::Network(sub) => spec_breadcrumbs(
                    sub,
                    path.drop_first(),
                ),
                crate::graph::DocumentNodeImplementation::Primitive(_) => Seq::<Seq<char>>::empty(),
            }),
        }
    }
}

/// The display names along a nesting path, from segment `from` on.
fn names_from(network: &NodeNetwork, path: &Vec<NodeId>, from: usize) -> (r: Vec<String>)
    requires
        from <= path@.len(),
    ensures
        crate::svg::string_views(r@) == spec_breadcrumbs(*network, path@.skip(from as int)),
    decreases path@.len() - from,
{
    let mut names: Vec<String> = Vec::new();
    if from == path.len() {
        proof {
            assert(path@.skip(from as int) =~= Seq::<NodeId>::empty());
            assert(crate::svg::string_views(names@) =~= Seq::<Seq<char>>::empty());
        }
        return names;
    }
    proof {
        assert(path@.skip(from as int)[0] == path@[from as int]);
        assert(path@.skip(from as int).drop_first() =~= path@.skip(from as int + 1));
    }
    match network.get_node(path[from]) {
        Option::None => {
            proof {
                assert(crate::svg::string_views(names@) =~= Seq::<Seq<char>>::empty());
            }
            names
        },
        Option::Some(node) => {
            let ghost gname = node.name@;
            names.push(node.name.clone());
            proof {
                assert(crate::svg::string_views(names@) =~= seq![gname]);
            }
            match &node.implementation {
                crate::graph::DocumentNodeImplementation::Network(sub) => {
                    let mut rest = names_from(sub, path, from + 1);
                    let ghost grest = rest@;
                    names.append(&mut rest);
                    proof {
                        assert forall|k: int|
                            0 <= k < names@.len() implies #[trigger] crate::svg::string_views(
                            names@,
                        )[k] == (seq![gname] + crate::svg::string_views(grest))[k] by {
                            if k == 0 {
                                assert(names@[0]@ == gname);
                            } else {
                                assert(names@[k] == grest[k - 1]);
                            }
                        }
                        assert(crate::svg::string_views(names@) =~~= seq![gname]
                            + crate::svg::string_views(grest));
                    }
                    names
                },
                crate::graph::DocumentNodeImplementation::Primitive(_) => {
                    names
                },
            }
        },
    }
}

/// The display names along a nesting path: the name of each node the path
/// descends through, as far as the path resolves.
pub fn nested_address_names(network: &NodeNetwork, path: &Vec<NodeId>) -> (r: Vec<String>)
    ensures
        crate::svg::string_views(r@) == spec_breadcrumbs(*network, path@),
{
    proof {
        assert(path@.skip(0) =~= path@);
    }
    names_from(network, path, 0)
}

/// Whether one snapshot record describes one node entry of the network:
/// same id, name, position and state flags, a registered type, and the
/// primary input kind read from that type.
pub open spec fn record_describes(
    net: NodeNetwork,
    record: FrontendNode,
    e: (NodeId, crate::graph::DocumentNode),
) -> bool {
    &&& record.id == e.0
    &&& record.display_name@ == e.1.name@
    &&& record.position == e.1.metadata.position
    &&& record.disabled == net.disabled@.contains(e.0)
    &&& record.previewed == net.spec_outputs_contain(e.0)
    &&& spec_resolve(e.1.name@) is Some
    &&& record.primary_input == (if e.1.inputs@.len() > 0 && e.1.inputs@[0].spec_is_exposed()
        && spec_resolve(e.1.name@).unwrap().inputs.len() > 0 {
        Option::Some(spec_resolve(e.1.name@).unwrap().inputs[0].data_type)
    } else {
        Option::<FrontendGraphDataType>::None
    })
}

/// Whether a record list is the complete snapshot of a network's nodes:
/// one record per node entry whose type name is registered, in entry
/// order, each describing its entry; only unknown-type entries are
/// omitted.
pub open spec fn records_complete(net: NodeNetwork, records: Seq<FrontendNode>) -> bool {
    exists|m: Seq<int>|
        {
            &&& #[trigger] m.len() == records.len()
            &&& forall|a: int, b: int| 0 <= a < b < m.len() ==> m[a] < m[b]
            &&& forall|k: int|
                0 <= k < m.len() ==> 0 <= #[trigger] m[k] < net.nodes@.len() && record_describes(
                    net,
                    records[k],
                    net.nodes@[m[k]],
                )
            &&& forall|e: int|
                0 <= e < net.nodes@.len() && spec_resolve(
                    #[trigger] net.nodes@[e].1.name@,
                ) is Some ==> m.contains(e)
        }
}

/// The node records of the snapshot: one per node whose type is registered,
/// in entry order, each carrying the classification of its slots, its
/// position and its state flags.
#[verifier::loop_isolation(false)]
pub fn collect_nodes(
    network: &NodeNetwork,
    thumbnails: &Vec<(NodeId, String)>,
) -> (r: Vec<FrontendNode>)
    ensures
        r@.len() <= network.nodes@.len(),
        records_complete(*network, r@),
{
    let mut out: Vec<FrontendNode> = Vec::new();
    let ghost mut sources: Seq<int> = Seq::empty();
    let mut i: usize = 0;
    while i < network.nodes.len()
        invariant
            0 <= i <= network.nodes@.len(),
            out@.len() <= i,
            sources.len() == out@.len(),
            forall|a: int, b: int| 0 <= a < b < sources.len() ==> sources[a] < sources[b],
            forall|k: int| 0 <= k < sources.len() ==> 0 <= #[trigger] sources[k] < i,
            forall|k: int|
                0 <= k < sources.len() ==> record_describes(
                    *network,
                    out@[k],
                    network.nodes@[#[trigger] sources[k]],
                ),
            forall|e: int|
                0 <= e < i && spec_resolve(#[trigger] network.nodes@[e].1.name@) is Some
                    ==> sources.contains(e),
        decreases network.nodes@.len() - i,
    {
        let id = network.nodes[i].0;
        let node = &network.nodes[i].1;
        match resolve_document_node_type(&node.name) {
            Option::None => {},
            Option::Some(node_type) => {
                let primary_input: Option<FrontendGraphDataType> = if node.inputs.len() > 0
                    && node.inputs[0].is_exposed() && node_type.inputs.len() > 0 {
                    Option::Some(node_type.inputs[0].data_type)
                } else {
                    Option::None
                };
                let mut exposed_inputs: Vec<NodeGraphInput> = Vec::new();
                let mut j: usize = 1;
                while j < node.inputs.len() && j < node_type.inputs.len()
                    invariant
                        1 <= j,
                    decreases node.inputs@.len() - j,
                {
                    if node.inputs[j].is_exposed() {
                        exposed_inputs.push(
                            NodeGraphInput {
                                data_type: node_type.inputs[j].data_type,
                                name: node_type.inputs[j].name.clone(),
                            },
                        );
                    }
                    j = j + 1;
                }
                let mut primary_output: Option<NodeGraphOutput> = Option::None;
                let mut exposed_outputs: Vec<NodeGraphOutput> = Vec::new();
                let mut o: usize = 0;
                while o < node_type.outputs.len()
                    invariant
                        0 <= o,
                    decreases node_type.outputs@.len() - o,
                {
                    let record = NodeGraphOutput {
                        data_type: node_type.outputs[o].data_type,
                        name: node_type.outputs[o].name.clone(),
                    };
                    if o == 0 {
                        primary_output = Option::Some(record);
                    } else {
                        exposed_outputs.push(record);
                    }
                    o = o + 1;
                }
                let mut thumbnail_svg: Option<String> = Option::None;
                let mut t: usize = 0;
                while t < thumbnails.len()
                    invariant
                        0 <= t,
                    decreases thumbnails@.len() - t,
                {
                    if thumbnails[t].0 == id {
                        thumbnail_svg = Option::Some(thumbnails[t].1.clone());
                    }
                    t = t + 1;
                }
                let record = FrontendNode {
                    id,
                    display_name: node.name.clone(),
                    primary_input,
                    exposed_inputs,
                    primary_output,
                    exposed_outputs,
                    position: node.metadata.position,
                    disabled: crate::graph::id_list_contains(&network.disabled, id),
                    previewed: network.outputs_contain(id),
                    thumbnail_svg,
                };
                let ghost prev = out@;
                let ghost prev_sources = sources;
                out.push(record);
                proof {
                    sources = sources.push(i as int);
                    assert(record_describes(*network, out@.last(), network.nodes@[i as int]));
                    assert forall|k: int|
                        0 <= k < sources.len() implies record_describes(
                        *network,
                        out@[k],
                        network.nodes@[#[trigger] sources[k]],
                    ) by {
                        if k < prev.len() {
                            assert(out@[k] == prev[k]);
                        }
                    }
                    assert forall|e: int|
                        0 <= e < i + 1 && spec_resolve(
                            #[trigger] network.nodes@[e].1.name@,
                        ) is Some implies sources.contains(e) by {
                        if e < i {
                            let k = choose|k: int|
                                0 <= k < prev_sources.len() && prev_sources[k] == e;
                            assert(sources[k] == e);
                        } else {
                            assert(sources[sources.len() - 1] == e);
                        }
                    }
                }
            },
        }
        i = i + 1;
    }
    proof {
        assert(sources.len() == out@.len() && (forall|a: int, b: int|
            0 <= a < b < sources.len() ==> sources[a] < sources[b]) && (forall|k: int|
            0 <= k < sources.len() ==> 0 <= #[trigger] sources[k] < network.nodes@.len()
                && record_describes(*network, out@[k], network.nodes@[sources[k]])) && (forall|
            e: int,
        |
            0 <= e < network.nodes@.len() && spec_resolve(
                #[trigger] network.nodes@[e].1.name@,
            ) is Some ==> sources.contains(e)));
    }
    out
}


/// The node a node's first input links to, when it is a link.
pub open spec fn first_link(n: crate::graph::DocumentNode) -> Option<NodeId> {
    if n.inputs@.len() > 0 {
        match n.inputs@[0] {
            crate::graph::NodeInput::Node { node_id, .. } => Option::Some(node_id),
            _ => Option::None,
        }
    } else {
        Option::None
    }
}

/// The primary flow of the network: the chain of nodes reached from the
/// primary output by following each node's first input link. Every listed
/// node exists, none is listed twice, consecutive nodes are linked, and —
/// short of exhausting the whole network — the chain ends only where the
/// next step is absent, not a link, already listed, or names no node.
#[verifier::loop_isolation(false)]
pub fn primary_flow(network: &NodeNetwork) -> (r: Vec<NodeId>)
    ensures
        forall|k: int| 0 <= k < r@.len() ==> crate::graph::has_id(network.nodes@, #[trigger] r@[k]),
        forall|a: int, b: int| 0 <= a < b < r@.len() ==> r@[a] != r@[b],
        r@.len() > 0 ==> network.outputs@.len() > 0 && r@[0] == network.outputs@[0].node_id,
        r@.len() == 0 ==> network.outputs@.len() == 0 || !crate::graph::has_id(
            network.nodes@,
            network.outputs@[0].node_id,
        ),
        forall|k: int|
            0 <= k < r@.len() - 1 ==> (match crate::graph::spec_get(*network, #[trigger] r@[k]) {
                Option::Some(n) => first_link(n) == Option::Some(r@[k + 1]),
                Option::None => false,
            }),
        r@.len() > 0 && r@.len() < network.nodes@.len() ==> (match crate::graph::spec_get(
            *network,
            r@.last(),
        ) {
            Option::Some(n) => match first_link(n) {
                Option::None => true,
                Option::Some(nx) => r@.contains(nx) || !crate::graph::has_id(network.nodes@, nx),
            },
            Option::None => false,
        }),
{
    let mut flow: Vec<NodeId> = Vec::new();
    if network.outputs.len() == 0 {
        return flow;
    }
    let mut current: NodeId = network.outputs[0].node_id;
    let mut fuel: usize = network.nodes.len();
    let mut halted: bool = false;
    while fuel > 0 && !halted
        invariant
            forall|k: int|
                0 <= k < flow@.len() ==> crate::graph::has_id(network.nodes@, #[trigger] flow@[k]),
            forall|a: int, b: int| 0 <= a < b < flow@.len() ==> flow@[a] != flow@[b],
            flow@.len() > 0 ==> flow@[0] == network.outputs@[0].node_id,
            flow@.len() == 0 ==> current == network.outputs@[0].node_id,
            flow@.len() + fuel == network.nodes@.len(),
            forall|k: int|
                0 <= k < flow@.len() - 1 ==> (match crate::graph::spec_get(
                    *network,
                    #[trigger] flow@[k],
                ) {
                    Option::Some(n) => first_link(n) == Option::Some(flow@[k + 1]),
                    Option::None => false,
                }),
            !halted && flow@.len() > 0 ==> (match crate::graph::spec_get(*network, flow@.last()) {
                Option::Some(n) => first_link(n) == Option::Some(current),
                Option::None => false,
            }),
            halted ==> (flow@.len() == 0 && !crate::graph::has_id(
                network.nodes@,
                network.outputs@[0].node_id,
            )) || (flow@.len() > 0 && (match crate::graph::spec_get(*network, flow@.last()) {
                Option::Some(n) => match first_link(n) {
                    Option::None => true,
                    Option::Some(nx) => flow@.contains(nx) || !crate::graph::has_id(
                        network.nodes@,
                        nx,
                    ),
                },
                Option::None => false,
            })),
        decreases fuel, (if halted {
            0int
        } else {
            1int
        }),
    {
        if crate::graph::id_list_contains(&flow, current) {
            halted = true;
        } else {
            match network.get_node(current) {
                Option::None => {
                    halted = true;
                },
                Option::Some(node) => {
                    let next: Option<NodeId> = if node.inputs.len() > 0 {
                        match &node.inputs[0] {
                            crate::graph::NodeInput::Node { node_id, .. } => Option::Some(
                                *node_id,
                            ),
                            _ => Option::None,
                        }
                    } else {
                        Option::None
                    };
                    let ghost prev = flow@;
                    flow.push(current);
                    proof {
                        assert forall|a: int, b: int|
                            0 <= a < b < flow@.len() implies flow@[a] != flow@[b] by {
                            if b < prev.len() {
                                assert(flow@[a] == prev[a] && flow@[b] == prev[b]);
                            } else {
                                assert(flow@[b] == current);
                                assert(flow@[a] == prev[a]);
                                assert(!prev.contains(current));
                                if prev[a] == current {
                                    assert(prev.contains(current));
                                }
                            }
                        }
                    }
                    match next {
                        Option::Some(nx) => {
                            current = nx;
                        },
                        Option::None => {
                            halted = true;
                        },
                    }
                    fuel = fuel - 1;
                },
            }
        }
    }
    proof {
        if !halted {
            assert(fuel == 0);
            assert(flow@.len() == network.nodes@.len());
        }
    }
    flow
}

} // verus!
