//! The graph flattener: recursively lowers a (possibly nested) network plus
//! unconnected-input defaults into a single flat proto-graph of primitive
//! operations. Nested networks are inlined with fresh ids per call site;
//! boundary placeholders are substituted with the concrete expressions
//! supplied at the call site, lambda links by reference, plain links by
//! value; nodes of unregistered types are dropped and links to them fall
//! back to slot defaults.

use vstd::prelude::*;
use crate::catalog::{default_node_input, resolve_document_node_type, spec_resolve};
use crate::graph::{
    DocumentNodeImplementation,
    NodeId,
    NodeInput,
    NodeNetwork,
};
use crate::value::TaggedValue;
use crate::IdGenerator;
use vstd::string::StringExecFns;

verus! {

/// One resolved input of a proto-node: an embedded constant, a reference to
/// another proto-node's output (deferred when marked lambda), or one of the
/// root network's externally fed inputs.
#[derive(Debug)]
pub enum ProtoInput {
    Value(TaggedValue),
    Node { node_id: u64, lambda: bool },
    External { index: usize },
}

/// One primitive operation of the flat proto-graph, every input resolved.
#[derive(Debug)]
pub struct ProtoNode {
    pub name: String,
    pub inputs: Vec<ProtoInput>,
}

/// The fully flattened, name-resolved, nesting-free executable form of a
/// network.
#[derive(Debug)]
pub struct ProtoNetwork {
    pub nodes: Vec<(u64, ProtoNode)>,
    pub inputs: Vec<u64>,
    pub output: u64,
}

/// Whether every entry id lies below the bound.
pub open spec fn proto_ids_below(s: Seq<(u64, ProtoNode)>, bound: u64) -> bool {
    forall|i: int| 0 <= i < s.len() ==> (#[trigger] s[i]).0 < bound
}

/// Whether the entry ids are pairwise distinct.
pub open spec fn proto_ids_distinct(s: Seq<(u64, ProtoNode)>) -> bool {
    forall|i: int, j: int| 0 <= i < j < s.len() ==> s[i].0 != s[j].0
}

/// Whether every entry names a registered operation.
pub open spec fn proto_names_registered(s: Seq<(u64, ProtoNode)>) -> bool {
    forall|i: int| 0 <= i < s.len() ==> spec_resolve((#[trigger] s[i]).1.name@) is Some
}

/// How many output slots one node provides: one for a primitive, one per
/// output of its nested network.
pub open spec fn slots_of(node: crate::graph::DocumentNode) -> int {
    match node.implementation {
        DocumentNodeImplementation::Primitive(_) => 1,
        DocumentNodeImplementation::Network(sub) => sub.outputs@.len() as int,
    }
}

/// Whether some entry of the network provides the named output slot, so
/// that flattening allocates a proto id for it.
pub open spec fn slot_provided(net: NodeNetwork, nid: NodeId, oi: usize) -> bool {
    exists|e: int|
        0 <= e < net.nodes@.len() && (#[trigger] net.nodes@[e]).0 == nid && (oi as int) < slots_of(
            net.nodes@[e].1,
        )
}

/// What flattening one level hands back: the proto id each of the level's
/// outputs resolves to, and the proto id of each boundary node's primary
/// slot.
pub struct LevelBindings {
    pub outputs: Vec<Option<u64>>,
    pub boundaries: Vec<Option<u64>>,
}

/// The association from one node output slot to its proto id.
struct SlotBinding {
    node_id: NodeId,
    output_index: usize,
    proto_id: u64,
}

/// Whether some binding covers the named output slot.
spec fn binding_exists(res: Seq<SlotBinding>, node_id: NodeId, output_index: usize) -> bool {
    exists|j: int|
        0 <= j < res.len() && (#[trigger] res[j]).node_id == node_id && res[j].output_index
            == output_index
}

/// The proto id the first matching binding carries, if one matches.
spec fn spec_lookup_slot(res: Seq<SlotBinding>, node_id: NodeId, output_index: usize) -> Option<
    u64,
>
    decreases res,
{
    if res.len() == 0 {
        Option::None
    } else if res[0].node_id == node_id && res[0].output_index == output_index {
        Option::Some(res[0].proto_id)
    } else {
        spec_lookup_slot(res.drop_first(), node_id, output_index)
    }
}

/// The proto id bound to one node output slot, if any.
fn lookup_slot(res: &Vec<SlotBinding>, node_id: NodeId, output_index: usize) -> (r: Option<u64>)
    ensures
        r == spec_lookup_slot(res@, node_id, output_index),
        r is Some <==> binding_exists(res@, node_id, output_index),
        match r {
            Option::Some(pid) => exists|i: int|
                0 <= i < res@.len() && (#[trigger] res@[i]).node_id == node_id
                    && res@[i].output_index == output_index && res@[i].proto_id == pid,
            Option::None => true,
        },
{
    let mut i: usize = 0;
    proof {
        assert(res@.skip(0) =~= res@);
    }
    while i < res.len()
        invariant
            0 <= i <= res@.len(),
            spec_lookup_slot(res@, node_id, output_index) == spec_lookup_slot(
                res@.skip(i as int),
                node_id,
                output_index,
            ),
            forall|j: int|
                0 <= j < i ==> !((#[trigger] res@[j]).node_id == node_id && res@[j].output_index
                    == output_index),
        decreases res@.len() - i,
    {
        proof {
            assert(res@.skip(i as int)[0] == res@[i as int]);
            assert(res@.skip(i as int).drop_first() =~= res@.skip(i as int + 1));
        }
        if res[i].node_id == node_id && res[i].output_index == output_index {
            return Option::Some(res[i].proto_id);
        }
        i = i + 1;
    }
    proof {
        assert(res@.skip(res@.len() as int) =~= Seq::<SlotBinding>::empty());
        assert(!binding_exists(res@, node_id, output_index)) by {
            if binding_exists(res@, node_id, output_index) {
                let j = choose|j: int|
                    0 <= j < res@.len() && (#[trigger] res@[j]).node_id == node_id
                        && res@[j].output_index == output_index;
            }
        }
    }
    Option::None
}

/// The first position of a node id in a boundary list, if listed.
fn boundary_position(inputs: &Vec<NodeId>, id: NodeId) -> (r: Option<usize>)
    ensures
        match r {
            Option::Some(p) => p < inputs@.len() && inputs@[p as int] == id && forall|k: int|
                0 <= k < p ==> inputs@[k] != id,
            Option::None => !inputs@.contains(id),
        },
{
    let mut i: usize = 0;
    while i < inputs.len()
        invariant
            0 <= i <= inputs@.len(),
            forall|k: int| 0 <= k < i ==> inputs@[k] != id,
        decreases inputs@.len() - i,
    {
        if inputs[i] == id {
            return Option::Some(i);
        }
        i = i + 1;
    }
    proof {
        assert(!inputs@.contains(id)) by {
            if inputs@.contains(id) {
                let k = choose|k: int| 0 <= k < inputs@.len() && inputs@[k] == id;
            }
        }
    }
    Option::None
}

/// Whether the accumulator already holds an entry with the id.
fn proto_contains(out: &Vec<(u64, ProtoNode)>, id: u64) -> (r: bool)
    ensures
        r == exists|i: int| 0 <= i < out@.len() && (#[trigger] out@[i]).0 == id,
{
    let mut i: usize = 0;
    while i < out.len()
        invariant
            0 <= i <= out@.len(),
            forall|k: int| 0 <= k < i ==> (#[trigger] out@[k]).0 != id,
        decreases out@.len() - i,
    {
        if out[i].0 == id {
            return true;
        }
        i = i + 1;
    }
    false
}

/// The mathematical shape of a resolved input.
pub enum ProtoInputView {
    Value(crate::value::ValueView),
    Node { node_id: u64, lambda: bool },
    External { index: usize },
}

/// The shape of a resolved input.
pub open spec fn proto_input_view(p: ProtoInput) -> ProtoInputView {
    match p {
        ProtoInput::Value(v) => ProtoInputView::Value(crate::value::value_view(v)),
        ProtoInput::Node { node_id, lambda } => ProtoInputView::Node { node_id, lambda },
        ProtoInput::External { index } => ProtoInputView::External { index },
    }
}

/// Resolve one input slot of a node against the bindings of its level: a
/// literal embeds its value, a link follows the binding of its source slot
/// — keeping its lambda marker — or falls back to the slot's registered
/// default, and a boundary placeholder takes the call-site expression for
/// the node's boundary position.
fn resolve_input(
    input: &NodeInput,
    slot_index: usize,
    name: &String,
    boundary: Option<&ProtoInput>,
    res: &Vec<SlotBinding>,
) -> (r: ProtoInput)
    ensures
        match *input {
            NodeInput::Value { tagged_value, exposed: _ } => proto_input_view(r)
                == ProtoInputView::Value(crate::value::value_view(tagged_value)),
            NodeInput::Node { node_id, output_index, lambda } => match spec_lookup_slot(
                res@,
                node_id,
                output_index,
            ) {
                Option::Some(pid) => proto_input_view(r) == (ProtoInputView::Node {
                    node_id: pid,
                    lambda,
                }),
                Option::None => match crate::catalog::spec_default_input(
                    name@,
                    slot_index as int,
                ) {
                    Option::Some(crate::graph::InputView::Value { value, exposed: _ }) =>
                        proto_input_view(r) == ProtoInputView::Value(value),
                    _ => proto_input_view(r) == ProtoInputView::Value(
                        crate::value::ValueView::Empty,
                    ),
                },
            },
            NodeInput::Network => match boundary {
                Option::Some(call_input) => proto_input_view(r) == proto_input_view(*call_input),
                Option::None => proto_input_view(r) == ProtoInputView::Value(
                    crate::value::ValueView::Empty,
                ),
            },
        },
{
    match input {
        NodeInput::Value { tagged_value, exposed: _ } => ProtoInput::Value(tagged_value.clone()),
        NodeInput::Node { node_id, output_index, lambda } => {
            match lookup_slot(res, *node_id, *output_index) {
                Option::Some(pid) => ProtoInput::Node { node_id: pid, lambda: *lambda },
                Option::None => match default_node_input(name, slot_index) {
                    Option::Some(NodeInput::Value { tagged_value, exposed: _ }) => ProtoInput::Value(
                        tagged_value,
                    ),
                    _ => ProtoInput::Value(TaggedValue::Empty),
                },
            }
        },
        NodeInput::Network => match boundary {
            Option::Some(call_input) => clone_proto_input(call_input),
            Option::None => ProtoInput::Value(TaggedValue::Empty),
        },
    }
}

/// A structural copy of a resolved input.
fn clone_proto_input(p: &ProtoInput) -> (r: ProtoInput)
    ensures
        proto_input_view(r) == proto_input_view(*p),
{
    match p {
        ProtoInput::Value(v) => ProtoInput::Value(v.clone()),
        ProtoInput::Node { node_id, lambda } => ProtoInput::Node {
            node_id: *node_id,
            lambda: *lambda,
        },
        ProtoInput::External { index } => ProtoInput::External { index: *index },
    }
}

/// Flatten one network level into the accumulator. Every proto-node emitted
/// for this level — including one identity alias per output of each nested
/// call site, so that distinct call sites never share proto-nodes — carries
/// a fresh id drawn from the generator. The result maps each of the level's
/// outputs to its proto id, when it resolves. `None` reports an exhausted
/// id space.
#[verifier::loop_isolation(false)]
fn flatten_level(
    network: &NodeNetwork,
    call_inputs: Vec<ProtoInput>,
    generator: &mut IdGenerator,
    out: &mut Vec<(u64, ProtoNode)>,
) -> (r: Option<LevelBindings>)
    requires
        proto_ids_below(old(out)@, old(generator).next_id),
        proto_ids_distinct(old(out)@),
        proto_names_registered(old(out)@),
    ensures
        old(generator).next_id <= final(generator).next_id,
        old(out)@.is_prefix_of(final(out)@),
        proto_ids_below(final(out)@, final(generator).next_id),
        proto_ids_distinct(final(out)@),
        proto_names_registered(final(out)@),
        forall|i: int|
            old(out)@.len() <= i < final(out)@.len() ==> (#[trigger] final(out)@[i]).0 >= old(
                generator,
            ).next_id,
        r is None ==> final(generator).next_id == u64::MAX,
        r is Some ==> r.unwrap().outputs@.len() == network.outputs@.len(),
        r is Some ==> forall|i: int|
            0 <= i < network.outputs@.len() ==> ((#[trigger] r.unwrap().outputs@[i]) is Some
                <==> slot_provided(
                *network,
                network.outputs@[i].node_id,
                network.outputs@[i].node_output_index,
            )),
    decreases *network,
{
    let ghost gnet = network;
    // Pass one: allocate a proto id for every output slot of this level.
    let mut res: Vec<SlotBinding> = Vec::new();
    let mut i: usize = 0;
    while i < network.nodes.len()
        invariant
            0 <= i <= network.nodes@.len(),
            old(generator).next_id <= generator.next_id,
            *out == *old(out),
            forall|k: int|
                0 <= k < res@.len() ==> old(generator).next_id <= (#[trigger] res@[k]).proto_id
                    < generator.next_id,
            forall|nid: NodeId, oi: usize|
                #[trigger] binding_exists(res@, nid, oi) == exists|e: int|
                    0 <= e < i && (#[trigger] network.nodes@[e]).0 == nid && (oi as int)
                        < slots_of(network.nodes@[e].1),
        decreases network.nodes@.len() - i,
    {
        let node = &network.nodes[i].1;
        let slots: usize = match &node.implementation {
            DocumentNodeImplementation::Primitive(_) => 1,
            DocumentNodeImplementation::Network(sub) => sub.outputs.len(),
        };
        let mut k: usize = 0;
        while k < slots
            invariant
                0 <= k <= slots,
                slots as int == slots_of(network.nodes@[i as int].1),
                old(generator).next_id <= generator.next_id,
                forall|l: int|
                    0 <= l < res@.len() ==> old(generator).next_id <= (#[trigger] res@[l]).proto_id
                        < generator.next_id,
                forall|nid: NodeId, oi: usize|
                    #[trigger] binding_exists(res@, nid, oi) == ((exists|e: int|
                        0 <= e < i && (#[trigger] network.nodes@[e]).0 == nid && (oi as int)
                            < slots_of(network.nodes@[e].1)) || (nid
                        == network.nodes@[i as int].0 && (oi as int) < k)),
            decreases slots - k,
        {
            if generator.next_id == u64::MAX {
                return Option::None;
            }
            let pid = generator.fresh();
            let ghost prev_res = res@;
            res.push(SlotBinding { node_id: network.nodes[i].0, output_index: k, proto_id: pid });
            proof {
                assert forall|nid: NodeId, oi: usize|
                    #[trigger] binding_exists(res@, nid, oi) == ((exists|e: int|
                        0 <= e < i && (#[trigger] network.nodes@[e]).0 == nid && (oi as int)
                            < slots_of(network.nodes@[e].1)) || (nid
                        == network.nodes@[i as int].0 && (oi as int) < k + 1)) by {
                    if binding_exists(res@, nid, oi) {
                        let j = choose|j: int|
                            0 <= j < res@.len() && (#[trigger] res@[j]).node_id == nid
                                && res@[j].output_index == oi;
                        if j < prev_res.len() {
                            assert(binding_exists(prev_res, nid, oi));
                        } else {
                            assert(res@[j] == res@.last());
                        }
                    }
                    if (exists|e: int|
                        0 <= e < i && (#[trigger] network.nodes@[e]).0 == nid && (oi as int)
                            < slots_of(network.nodes@[e].1)) || (nid
                        == network.nodes@[i as int].0 && (oi as int) < k + 1) {
                        if binding_exists(prev_res, nid, oi) {
                            let j = choose|j: int|
                                0 <= j < prev_res.len() && (#[trigger] prev_res[j]).node_id == nid
                                    && prev_res[j].output_index == oi;
                            assert(res@[j].node_id == nid && res@[j].output_index == oi);
                            assert(binding_exists(res@, nid, oi));
                        } else if nid == network.nodes@[i as int].0 && oi as int == k as int {
                            assert(res@.last().node_id == nid && res@.last().output_index == oi);
                            assert(binding_exists(res@, nid, oi));
                        } else {
                            assert(binding_exists(prev_res, nid, oi));
                            assert(false);
                        }
                    }
                }
            }
            k = k + 1;
        }
        proof {
            assert forall|nid: NodeId, oi: usize|
                #[trigger] binding_exists(res@, nid, oi) == exists|e: int|
                    0 <= e < i + 1 && (#[trigger] network.nodes@[e]).0 == nid && (oi as int)
                        < slots_of(network.nodes@[e].1) by {
                if binding_exists(res@, nid, oi) {
                    if !(nid == network.nodes@[i as int].0 && (oi as int) < slots as int) {
                        let e = choose|e: int|
                            0 <= e < i && (#[trigger] network.nodes@[e]).0 == nid && (oi as int)
                                < slots_of(network.nodes@[e].1);
                    }
                }
                if exists|e: int|
                    0 <= e < i + 1 && (#[trigger] network.nodes@[e]).0 == nid && (oi as int)
                        < slots_of(network.nodes@[e].1) {
                    let e = choose|e: int|
                        0 <= e < i + 1 && (#[trigger] network.nodes@[e]).0 == nid && (oi as int)
                            < slots_of(network.nodes@[e].1);
                }
            }
        }
        i = i + 1;
    }
    proof {
        assert forall|nid: NodeId, oi: usize|
            #[trigger] binding_exists(res@, nid, oi) == slot_provided(*network, nid, oi) by {
            if binding_exists(res@, nid, oi) {
                let e = choose|e: int|
                    0 <= e < network.nodes@.len() && (#[trigger] network.nodes@[e]).0 == nid && (
                    oi as int) < slots_of(network.nodes@[e].1);
            }
            if slot_provided(*network, nid, oi) {
                let e = choose|e: int|
                    0 <= e < network.nodes@.len() && (#[trigger] network.nodes@[e]).0 == nid && (
                    oi as int) < slots_of(network.nodes@[e].1);
            }
        }
    }
    // Pass two: emit the primitives and inline every nested call site.
    let ghost mid_gen = generator.next_id;
    i = 0;
    while i < network.nodes.len()
        invariant
            0 <= i <= network.nodes@.len(),
            mid_gen <= generator.next_id,
            old(generator).next_id <= mid_gen,
            forall|l: int|
                0 <= l < res@.len() ==> old(generator).next_id <= (#[trigger] res@[l]).proto_id
                    < mid_gen,
            old(out)@.is_prefix_of(out@),
            proto_ids_below(out@, generator.next_id),
            proto_ids_distinct(out@),
            proto_names_registered(out@),
            forall|l: int|
                old(out)@.len() <= l < out@.len() ==> (#[trigger] out@[l]).0 >= old(
                    generator,
                ).next_id,
        decreases network.nodes@.len() - i,
    {
        let node_id = network.nodes[i].0;
        let node = &network.nodes[i].1;
        let boundary_pos = boundary_position(&network.inputs, node_id);
        match &node.implementation {
            DocumentNodeImplementation::Primitive(prim_name) => {
                match resolve_document_node_type(prim_name) {
                    Option::None => {},
                    Option::Some(_) => {
                        let pid = match lookup_slot(&res, node_id, 0) {
                            Option::Some(p) => p,
                            Option::None => {
                                i = i + 1;
                                continue ;
                            },
                        };
                        let mut inputs: Vec<ProtoInput> = Vec::new();
                        let mut j: usize = 0;
                        while j < node.inputs.len()
                            invariant
                                0 <= j <= node.inputs@.len(),
                            decreases node.inputs@.len() - j,
                        {
                            let call_input: Option<&ProtoInput> = match boundary_pos {
                                Option::Some(p) => if p < call_inputs.len() {
                                    Option::Some(&call_inputs[p])
                                } else {
                                    Option::None
                                },
                                Option::None => Option::None,
                            };
                            inputs.push(
                                resolve_input(&node.inputs[j], j, &node.name, call_input, &res),
                            );
                            j = j + 1;
                        }
                        if !proto_contains(out, pid) {
                            let ghost prev = out@;
                            out.push((pid, ProtoNode { name: prim_name.clone(), inputs }));
                            proof {
                                assert(spec_resolve(out@.last().1.name@) is Some);
                                assert(prev.is_prefix_of(out@)) by {
                                    assert(out@.subrange(0, prev.len() as int) =~= prev);
                                }
                                crate::process::lemma_prefix_trans(old(out)@, prev, out@);
                            }
                        }
                    },
                }
            },
            DocumentNodeImplementation::Network(sub) => {
                // Resolve the call-site expressions handed to the nested
                // network, one per boundary slot of the nested level.
                let mut sub_calls: Vec<ProtoInput> = Vec::new();
                let mut j: usize = 0;
                while j < sub.inputs.len()
                    invariant
                        0 <= j <= sub.inputs@.len(),
                    decreases sub.inputs@.len() - j,
                {
                    let call_input: Option<&ProtoInput> = match boundary_pos {
                        Option::Some(p) => if p < call_inputs.len() {
                            Option::Some(&call_inputs[p])
                        } else {
                            Option::None
                        },
                        Option::None => Option::None,
                    };
                    if j < node.inputs.len() {
                        sub_calls.push(
                            resolve_input(&node.inputs[j], j, &node.name, call_input, &res),
                        );
                    } else {
                        sub_calls.push(ProtoInput::Value(TaggedValue::Empty));
                    }
                    j = j + 1;
                }
                proof {
                    assert(decreases_to!(*gnet => gnet.nodes));
                    assert(decreases_to!(gnet.nodes => gnet.nodes[i as int]));
                    assert(decreases_to!(gnet.nodes[i as int] => gnet.nodes[i as int].1));
                }
                let ghost pre_call = out@;
                let ghost pre_gen = generator.next_id;
                let sub_outputs = match flatten_level(sub, sub_calls, generator, out) {
                    Option::Some(s) => s.outputs,
                    Option::None => {
                        proof {
                            crate::process::lemma_prefix_trans(old(out)@, pre_call, out@);
                            assert forall|l: int|
                                old(out)@.len() <= l < out@.len() implies (
                            #[trigger] out@[l]).0 >= old(generator).next_id by {
                                if l < pre_call.len() {
                                    assert(out@[l] == pre_call[l]);
                                } else {
                                    assert(out@[l].0 >= pre_gen);
                                }
                            }
                        }
                        return Option::None;
                    },
                };
                proof {
                    crate::process::lemma_prefix_trans(old(out)@, pre_call, out@);
                    assert forall|l: int|
                        old(out)@.len() <= l < out@.len() implies (#[trigger] out@[l]).0 >= old(
                        generator,
                    ).next_id by {
                        if l < pre_call.len() {
                            assert(out@[l] == pre_call[l]);
                        } else {
                            assert(out@[l].0 >= pre_gen);
                        }
                    }
                }
                // Emit one identity alias per output of this call site, so
                // links to the nested node resolve to this instance alone.
                let mut k: usize = 0;
                while k < sub_outputs.len()
                    invariant
                        0 <= k <= sub_outputs@.len(),
                        mid_gen <= generator.next_id,
                        forall|l: int|
                            0 <= l < res@.len() ==> old(generator).next_id <= (
                            #[trigger] res@[l]).proto_id < mid_gen,
                        old(out)@.is_prefix_of(out@),
                        proto_ids_below(out@, generator.next_id),
                        proto_ids_distinct(out@),
                        proto_names_registered(out@),
                        forall|l: int|
                            old(out)@.len() <= l < out@.len() ==> (#[trigger] out@[l]).0 >= old(
                                generator,
                            ).next_id,
                    decreases sub_outputs@.len() - k,
                {
                    let alias_pid = match lookup_slot(&res, node_id, k) {
                        Option::Some(p) => p,
                        Option::None => {
                            k = k + 1;
                            continue ;
                        },
                    };
                    let alias_input: ProtoInput = match sub_outputs[k] {
                        Option::Some(target) => ProtoInput::Node { node_id: target, lambda: false },
                        Option::None => ProtoInput::Value(TaggedValue::Empty),
                    };
                    if !proto_contains(out, alias_pid) {
                        let mut inputs: Vec<ProtoInput> = Vec::new();
                        inputs.push(alias_input);
                        let ghost prev = out@;
                        out.push((alias_pid, ProtoNode { name: "Identity".to_owned(), inputs }));
                        proof {
                            assert(spec_resolve("Identity"@) is Some);
                            assert(prev.is_prefix_of(out@)) by {
                                assert(out@.subrange(0, prev.len() as int) =~= prev);
                            }
                            crate::process::lemma_prefix_trans(old(out)@, prev, out@);
                        }
                    }
                    k = k + 1;
                }
            },
        }
        i = i + 1;
    }
    // Map each output of this level, and each boundary node, to its
    // proto id.
    let mut out_map: Vec<Option<u64>> = Vec::new();
    i = 0;
    while i < network.outputs.len()
        invariant
            0 <= i <= network.outputs@.len(),
            out_map@.len() == i,
            forall|j: int|
                0 <= j < i ==> ((#[trigger] out_map@[j]) is Some <==> slot_provided(
                    *network,
                    network.outputs@[j].node_id,
                    network.outputs@[j].node_output_index,
                )),
        decreases network.outputs@.len() - i,
    {
        let slot = network.outputs[i];
        out_map.push(lookup_slot(&res, slot.node_id, slot.node_output_index));
        i = i + 1;
    }
    let mut boundary_map: Vec<Option<u64>> = Vec::new();
    i = 0;
    while i < network.inputs.len()
        invariant
            0 <= i <= network.inputs@.len(),
        decreases network.inputs@.len() - i,
    {
        boundary_map.push(lookup_slot(&res, network.inputs[i], 0));
        i = i + 1;
    }
    Option::Some(LevelBindings { outputs: out_map, boundaries: boundary_map })
}

/// Flatten a root network into an executable proto-graph: all nesting
/// inlined, every name resolved, every input an embedded constant, a
/// proto-node reference or an externally fed root input. `None` comes back
/// only for a network without a primary output slot — none declared, or
/// the declared one provided by no node — or an exhausted id space.
#[verifier::loop_isolation(false)]
pub fn flatten(network: &NodeNetwork, generator: &mut IdGenerator) -> (r: Option<ProtoNetwork>)
    ensures
        old(generator).next_id <= final(generator).next_id,
        r matches Option::Some(proto) ==> {
            &&& proto_ids_below(proto.nodes@, final(generator).next_id)
            &&& proto_ids_distinct(proto.nodes@)
            &&& proto_names_registered(proto.nodes@)
            &&& forall|i: int|
                0 <= i < proto.nodes@.len() ==> (#[trigger] proto.nodes@[i]).0 >= old(
                    generator,
                ).next_id
            &&& network.outputs@.len() > 0
            &&& slot_provided(
                *network,
                network.outputs@[0].node_id,
                network.outputs@[0].node_output_index,
            )
        },
        r is None ==> final(generator).next_id == u64::MAX || network.outputs@.len() == 0
            || !slot_provided(
            *network,
            network.outputs@[0].node_id,
            network.outputs@[0].node_output_index,
        ),
{
    let mut externals: Vec<ProtoInput> = Vec::new();
    let mut j: usize = 0;
    while j < network.inputs.len()
        invariant
            0 <= j <= network.inputs@.len(),
        decreases network.inputs@.len() - j,
    {
        externals.push(ProtoInput::External { index: j });
        j = j + 1;
    }
    let mut nodes: Vec<(u64, ProtoNode)> = Vec::new();
    let bindings = match flatten_level(network, externals, generator, &mut nodes) {
        Option::Some(m) => m,
        Option::None => {
            return Option::None;
        },
    };
    let output: u64 = if bindings.outputs.len() > 0 {
        match bindings.outputs[0] {
            Option::Some(pid) => pid,
            Option::None => {
                return Option::None;
            },
        }
    } else {
        return Option::None;
    };
    let mut inputs: Vec<u64> = Vec::new();
    j = 0;
    while j < bindings.boundaries.len()
        invariant
            0 <= j <= bindings.boundaries@.len(),
        decreases bindings.boundaries@.len() - j,
    {
        match bindings.boundaries[j] {
            Option::Some(pid) => {
                inputs.push(pid);
            },
            Option::None => {},
        }
        j = j + 1;
    }
    Option::Some(ProtoNetwork { nodes, inputs, output })
}

} // verus!
