//! The dynamic executor: evaluates a flat proto-graph in dependency order,
//! producing one tagged value per proto-node. Every operation checks the
//! kinds of the values handed to it and reports a structured mismatch
//! instead of failing the process; an error aborts only the artifact being
//! evaluated. Results carry the generation of the network they were
//! computed from; a stale result is discarded, never cached.

use vstd::prelude::*;
use crate::catalog::spec_resolve;
use crate::flatten::{ProtoInput, ProtoNetwork, ProtoNode, proto_ids_distinct};
use crate::frontend::FrontendGraphDataType;
use crate::graph::sat_add;
use crate::value::{TaggedValue, value_view, ValueView};
use vstd::string::StringExecFns;

verus! {

/// A structured evaluation failure: a value of the wrong kind at a node, a
/// node whose operation is not registered, a missing input, or a graph
/// whose remaining nodes never become ready.
#[derive(Debug)]
pub enum EvalError {
    TypeMismatch { node_id: u64, expected: FrontendGraphDataType, found: FrontendGraphDataType },
    UnknownOperation { node_id: u64 },
    MissingInput { node_id: u64 },
    Unresolved { node_id: u64 },
}

/// The artifacts of one evaluation: a value per proto-node, in graph
/// order, and the value of the designated primary output.
#[derive(Debug)]
pub struct Evaluation {
    pub outputs: Vec<(u64, TaggedValue)>,
    pub primary: TaggedValue,
}

/// Whether a tagged value counts as a raster frame.
pub open spec fn spec_is_raster(v: TaggedValue) -> bool {
    FrontendGraphDataType::spec_with_tagged_value(v) == FrontendGraphDataType::Raster
}

/// The classification of a value shape, agreeing with the classification
/// of the values it abstracts.
pub open spec fn view_kind(v: ValueView) -> FrontendGraphDataType {
    match v {
        ValueView::Text(_) => FrontendGraphDataType::Text,
        ValueView::Number(_) => FrontendGraphDataType::Number,
        ValueView::U32(_) => FrontendGraphDataType::Number,
        ValueView::Transform(_) => FrontendGraphDataType::Number,
        ValueView::Bool(_) => FrontendGraphDataType::Boolean,
        ValueView::Vector2 { .. } => FrontendGraphDataType::Vector,
        ValueView::Image { .. } => FrontendGraphDataType::Raster,
        ValueView::ImageFrame { .. } => FrontendGraphDataType::Raster,
        ValueView::Color(_) => FrontendGraphDataType::Color,
        ValueView::Path(_) => FrontendGraphDataType::Subpath,
        ValueView::GraphicGroup(_) => FrontendGraphDataType::GraphicGroup,
        ValueView::Artboard { .. } => FrontendGraphDataType::Artboard,
        ValueView::Empty => FrontendGraphDataType::General,
    }
}

/// What one registered operation computes, or how it fails, as a function
/// of its name and the shapes of its inputs.
pub enum OpOutcome {
    Value(ValueView),
    Unknown,
    Missing,
    Mismatch,
}

/// The semantics of every operation: unknown names fail; `Add` takes two
/// numbers to their saturating sum; `Exposure` takes a raster frame and a
/// number to the frame; every other registered operation passes its first
/// input through; too few inputs or inputs of the wrong kind fail.
pub open spec fn spec_apply(name: Seq<char>, inputs: Seq<ValueView>) -> OpOutcome {
    if spec_resolve(name) is None {
        OpOutcome::Unknown
    } else if name == "Add"@ {
        if inputs.len() < 2 {
            OpOutcome::Missing
        } else {
            match (inputs[0], inputs[1]) {
                (ValueView::Number(a), ValueView::Number(b)) => OpOutcome::Value(
                    ValueView::Number(sat_add(a as int, b as int) as i64),
                ),
                _ => OpOutcome::Mismatch,
            }
        }
    } else if name == "Exposure"@ {
        if inputs.len() < 2 {
            OpOutcome::Missing
        } else if view_kind(inputs[0]) != FrontendGraphDataType::Raster {
            OpOutcome::Mismatch
        } else if !(inputs[1] matches ValueView::Number(_)) {
            OpOutcome::Mismatch
        } else {
            OpOutcome::Value(inputs[0])
        }
    } else {
        if inputs.len() < 1 {
            OpOutcome::Missing
        } else {
            OpOutcome::Value(inputs[0])
        }
    }
}

/// The shapes of a list of values.
pub open spec fn value_views(inputs: Seq<TaggedValue>) -> Seq<ValueView> {
    Seq::new(inputs.len(), |j: int| value_view(inputs[j]))
}

/// How many inputs an operation consumes: two for the arithmetic and
/// raster operations, one for the pass-through operations.
pub open spec fn required_inputs(name: Seq<char>) -> int {
    if name == "Add"@ || name == "Exposure"@ {
        2
    } else {
        1
    }
}

/// Classification commutes with taking shapes.
pub proof fn lemma_view_kind(v: TaggedValue)
    ensures
        view_kind(value_view(v)) == FrontendGraphDataType::spec_with_tagged_value(v),
{
}

/// Apply one registered operation to its already evaluated inputs: the
/// identity-like operations pass their first input through; `Add` takes two
/// numbers to their saturating sum; `Exposure` takes a raster frame and a
/// number to the frame. A value of an unexpected kind is a structured
/// mismatch, never an unchecked conversion.
pub fn apply_operation(name: &String, node_id: u64, inputs: &Vec<TaggedValue>) -> (r: Result<
    TaggedValue,
    EvalError,
>)
    ensures
        spec_resolve(name@) is None <==> (r matches Result::Err(EvalError::UnknownOperation {
            node_id: n,
        }) && n == node_id),
        r matches Result::Err(e) ==> match e {
            EvalError::UnknownOperation { node_id: n } => n == node_id,
            EvalError::MissingInput { node_id: n } => n == node_id,
            EvalError::TypeMismatch { node_id: n, .. } => n == node_id,
            EvalError::Unresolved { node_id: n } => n == node_id,
        },
        match r {
            Result::Ok(v) => spec_apply(name@, value_views(inputs@)) == OpOutcome::Value(
                value_view(v),
            ),
            Result::Err(e) => match e {
                EvalError::UnknownOperation { .. } => spec_apply(name@, value_views(inputs@))
                    == OpOutcome::Unknown,
                EvalError::MissingInput { .. } => spec_apply(name@, value_views(inputs@))
                    == OpOutcome::Missing,
                EvalError::TypeMismatch { .. } => spec_apply(name@, value_views(inputs@))
                    == OpOutcome::Mismatch,
                EvalError::Unresolved { .. } => false,
            },
        },
        name@ == "Add"@ ==> match r {
            Result::Ok(v) => inputs@.len() >= 2 && (exists|a: i64, b: i64|
                value_view(inputs@[0]) == ValueView::Number(a) && value_view(inputs@[1])
                    == ValueView::Number(b) && value_view(v) == ValueView::Number(
                    sat_add(a as int, b as int) as i64,
                )),
            Result::Err(e) => inputs@.len() < 2 || !(value_view(inputs@[0]) matches
                ValueView::Number(_)) || !(value_view(inputs@[1]) matches ValueView::Number(_)),
        },
        (name@ == "Identity"@ || name@ == "Input"@ || name@ == "Output"@ || name@ == "Value"@)
            ==> match r {
            Result::Ok(v) => inputs@.len() >= 1 && value_view(v) == value_view(inputs@[0]),
            Result::Err(e) => inputs@.len() == 0,
        },
        name@ == "Exposure"@ ==> match r {
            Result::Ok(v) => inputs@.len() >= 2 && spec_is_raster(inputs@[0]) && (value_view(
                inputs@[1],
            ) matches ValueView::Number(_)) && value_view(v) == value_view(inputs@[0]),
            Result::Err(e) => inputs@.len() < 2 || !spec_is_raster(inputs@[0]) || !(value_view(
                inputs@[1],
            ) matches ValueView::Number(_)),
        },
{
    proof {
        reveal_strlit("Add");
        reveal_strlit("Identity");
        reveal_strlit("Input");
        reveal_strlit("Output");
        reveal_strlit("Value");
        reveal_strlit("Exposure");
        assert("Add"@.len() == 3 && "Identity"@.len() == 8 && "Input"@.len() == 5 && "Output"@.len()
            == 6 && "Value"@.len() == 5 && "Exposure"@.len() == 8);
        assert("Input"@[0] == 'I' && "Value"@[0] == 'V');
        assert("Identity"@[0] == 'I' && "Exposure"@[0] == 'E');
    }
    if crate::catalog::resolve_document_node_type(name).is_none() {
        return Result::Err(EvalError::UnknownOperation { node_id });
    }
    if crate::catalog::string_is(name, "Add") {
        if inputs.len() < 2 {
            return Result::Err(EvalError::MissingInput { node_id });
        }
        let a: i64 = match &inputs[0] {
            TaggedValue::Number(a) => *a,
            other => {
                return Result::Err(
                    EvalError::TypeMismatch {
                        node_id,
                        expected: FrontendGraphDataType::Number,
                        found: crate::frontend::FrontendGraphDataType::with_tagged_value(other),
                    },
                );
            },
        };
        let b: i64 = match &inputs[1] {
            TaggedValue::Number(b) => *b,
            other => {
                return Result::Err(
                    EvalError::TypeMismatch {
                        node_id,
                        expected: FrontendGraphDataType::Number,
                        found: crate::frontend::FrontendGraphDataType::with_tagged_value(other),
                    },
                );
            },
        };
        return Result::Ok(TaggedValue::Number(crate::graph::sat_add_i64(a, b)));
    }
    if crate::catalog::string_is(name, "Exposure") {
        if inputs.len() < 2 {
            return Result::Err(EvalError::MissingInput { node_id });
        }
        let found = crate::frontend::FrontendGraphDataType::with_tagged_value(&inputs[0]);
        proof {
            lemma_view_kind(inputs@[0]);
        }
        let is_raster: bool = match found {
            FrontendGraphDataType::Raster => true,
            _ => false,
        };
        if !is_raster {
            return Result::Err(
                EvalError::TypeMismatch {
                    node_id,
                    expected: FrontendGraphDataType::Raster,
                    found,
                },
            );
        }
        match &inputs[1] {
            TaggedValue::Number(_) => {},
            other => {
                return Result::Err(
                    EvalError::TypeMismatch {
                        node_id,
                        expected: FrontendGraphDataType::Number,
                        found: crate::frontend::FrontendGraphDataType::with_tagged_value(other),
                    },
                );
            },
        }
        return Result::Ok(inputs[0].clone());
    }
    // The remaining registered operations pass their first input through.
    if inputs.len() < 1 {
        return Result::Err(EvalError::MissingInput { node_id });
    }
    Result::Ok(inputs[0].clone())
}


/// The shape of the value a result table holds for an id: that of the last
/// entry carrying the id, when one does.
pub open spec fn table_value(table: Seq<(u64, TaggedValue)>, id: u64) -> Option<ValueView>
    decreases table,
{
    if table.len() == 0 {
        Option::None
    } else if table.last().0 == id {
        Option::Some(value_view(table.last().1))
    } else {
        table_value(table.drop_last(), id)
    }
}

/// The shapes of one node's inputs, resolved against a result table:
/// literals and externally fed inputs embed their shapes, a reference takes
/// the referenced node's value, the empty shape where none exists.
pub open spec fn output_resolved_views(
    inputs: Seq<ProtoInput>,
    external: Seq<TaggedValue>,
    table: Seq<(u64, TaggedValue)>,
) -> Seq<ValueView> {
    Seq::new(
        inputs.len(),
        |j: int|
            match inputs[j] {
                ProtoInput::Value(v) => value_view(v),
                ProtoInput::External { index } => if index < external.len() {
                    value_view(external[index as int])
                } else {
                    ValueView::Empty
                },
                ProtoInput::Node { node_id, lambda: _ } => match table_value(table, node_id) {
                    Option::Some(v) => v,
                    Option::None => ValueView::Empty,
                },
            },
    )
}

/// The shape of the value the working table holds for an id among its
/// first `t` slots: that of the last computed slot carrying the id.
spec fn work_value_upto(
    nodes: Seq<(u64, ProtoNode)>,
    values: Seq<Option<TaggedValue>>,
    id: u64,
    t: int,
) -> Option<ValueView>
    decreases t,
{
    if t <= 0 {
        Option::None
    } else if nodes[t - 1].0 == id && values[t - 1] is Some {
        Option::Some(value_view(values[t - 1].unwrap()))
    } else {
        work_value_upto(nodes, values, id, t - 1)
    }
}

/// The shape the whole working table holds for an id.
spec fn work_value(
    nodes: Seq<(u64, ProtoNode)>,
    values: Seq<Option<TaggedValue>>,
    id: u64,
) -> Option<ValueView> {
    work_value_upto(nodes, values, id, values.len() as int)
}

/// The id one resolved input references, when it is a reference.
spec fn ref_of(p: ProtoInput) -> Option<u64> {
    match p {
        ProtoInput::Node { node_id, lambda: _ } => Option::Some(node_id),
        _ => Option::None,
    }
}

/// The shapes of one node's inputs, resolved against the working table.
spec fn work_resolved_views(
    inputs: Seq<ProtoInput>,
    external: Seq<TaggedValue>,
    nodes: Seq<(u64, ProtoNode)>,
    values: Seq<Option<TaggedValue>>,
) -> Seq<ValueView> {
    Seq::new(
        inputs.len(),
        |j: int|
            match inputs[j] {
                ProtoInput::Value(v) => value_view(v),
                ProtoInput::External { index } => if index < external.len() {
                    value_view(external[index as int])
                } else {
                    ValueView::Empty
                },
                ProtoInput::Node { node_id, lambda: _ } => match work_value(
                    nodes,
                    values,
                    node_id,
                ) {
                    Option::Some(v) => v,
                    Option::None => ValueView::Empty,
                },
            },
    )
}

/// Whether one computed slot agrees with the operation semantics: its
/// references are all computed, and its value is the operation applied to
/// its resolved inputs.
spec fn slot_computed(
    nodes: Seq<(u64, ProtoNode)>,
    external: Seq<TaggedValue>,
    values: Seq<Option<TaggedValue>>,
    t: int,
) -> bool {
    &&& forall|l: int|
        0 <= l < nodes[t].1.inputs@.len() ==> match ref_of(#[trigger] nodes[t].1.inputs@[l]) {
            Option::Some(id) => work_value(nodes, values, id) is Some,
            Option::None => true,
        }
    &&& spec_apply(
        nodes[t].1.name@,
        work_resolved_views(nodes[t].1.inputs@, external, nodes, values),
    ) == OpOutcome::Value(value_view(values[t].unwrap()))
}

/// Writing one fresh slot moves exactly that id's lookup from nothing to
/// the written shape and leaves every other lookup as it was, for a table
/// with distinct ids.
proof fn lemma_work_value_update(
    nodes: Seq<(u64, ProtoNode)>,
    values: Seq<Option<TaggedValue>>,
    v: TaggedValue,
    k: int,
    id: u64,
    t: int,
)
    requires
        proto_ids_distinct(nodes),
        nodes.len() == values.len(),
        0 <= k < values.len(),
        values[k] is None,
        t <= values.len(),
    ensures
        id == nodes[k].0 ==> work_value_upto(nodes, values.update(k, Option::Some(v)), id, t) == (
        if k < t {
            Option::Some(value_view(v))
        } else {
            Option::<ValueView>::None
        }),
        id != nodes[k].0 ==> work_value_upto(nodes, values.update(k, Option::Some(v)), id, t)
            == work_value_upto(nodes, values, id, t),
        id == nodes[k].0 ==> work_value_upto(nodes, values, id, t) is None,
    decreases t,
{
    if t > 0 {
        lemma_work_value_update(nodes, values, v, k, id, t - 1);
    }
}

/// A table aligned slot-for-slot with the working values resolves every id
/// to the same shape.
proof fn lemma_table_matches_work(
    nodes: Seq<(u64, ProtoNode)>,
    values: Seq<Option<TaggedValue>>,
    table: Seq<(u64, TaggedValue)>,
    id: u64,
)
    requires
        nodes.len() == values.len(),
        table.len() <= values.len(),
        forall|l: int|
            0 <= l < table.len() ==> (#[trigger] table[l]).0 == nodes[l].0 && values[l] is Some
                && value_view(table[l].1) == value_view(values[l].unwrap()),
    ensures
        table_value(table, id) == work_value_upto(nodes, values, id, table.len() as int),
    decreases table,
{
    if table.len() > 0 {
        lemma_table_matches_work(nodes, values, table.drop_last(), id);
    }
}

/// Evaluate a proto-graph over externally fed root inputs, in dependency
/// order: repeatedly evaluate every node whose inputs are all available
/// until no node is left, or report the first node that never becomes
/// ready. For a graph with distinct ids — as the flattener produces — every
/// output value is the operation semantics applied to its node's resolved
/// inputs, and the primary artifact is the designated output's value.
/// Lambda references are evaluated like plain references: no registered
/// operation defers its inputs.
#[verifier::loop_isolation(false)]
#[verifier::rlimit(60)]
pub fn evaluate(proto: &ProtoNetwork, external: &Vec<TaggedValue>) -> (r: Result<
    Evaluation,
    EvalError,
>)
    ensures
        r matches Result::Ok(e) ==> {
            &&& e.outputs@.len() == proto.nodes@.len()
            &&& forall|i: int|
                0 <= i < proto.nodes@.len() ==> (#[trigger] e.outputs@[i]).0
                    == proto.nodes@[i].0
            &&& value_view(e.primary) == (match table_value(e.outputs@, proto.output) {
                Option::Some(v) => v,
                Option::None => ValueView::Empty,
            })
            &&& proto_ids_distinct(proto.nodes@) ==> forall|i: int|
                0 <= i < proto.nodes@.len() ==> spec_apply(
                    (#[trigger] proto.nodes@[i]).1.name@,
                    output_resolved_views(proto.nodes@[i].1.inputs@, external@, e.outputs@),
                ) == OpOutcome::Value(value_view(e.outputs@[i].1))
        },
        r matches Result::Err(EvalError::UnknownOperation { node_id }) ==> exists|i: int|
            0 <= i < proto.nodes@.len() && (#[trigger] proto.nodes@[i]).0 == node_id
                && spec_resolve(proto.nodes@[i].1.name@) is None,
        r matches Result::Err(EvalError::MissingInput { node_id }) ==> exists|i: int|
            0 <= i < proto.nodes@.len() && (#[trigger] proto.nodes@[i]).0 == node_id
                && spec_resolve(proto.nodes@[i].1.name@) is Some && proto.nodes@[i].1.inputs@.len()
                < required_inputs(proto.nodes@[i].1.name@),
        r matches Result::Err(EvalError::TypeMismatch { node_id, .. }) ==> exists|i: int|
            0 <= i < proto.nodes@.len() && (#[trigger] proto.nodes@[i]).0 == node_id
                && spec_resolve(proto.nodes@[i].1.name@) is Some && (proto.nodes@[i].1.name@
                == "Add"@ || proto.nodes@[i].1.name@ == "Exposure"@),
        r matches Result::Err(EvalError::Unresolved { node_id }) ==> exists|i: int|
            0 <= i < proto.nodes@.len() && (#[trigger] proto.nodes@[i]).0 == node_id,
{
    let ghost nodes = proto.nodes@;
    let ghost ext = external@;
    let n = proto.nodes.len();
    let mut values: Vec<Option<TaggedValue>> = Vec::new();
    let mut i: usize = 0;
    while i < n
        invariant
            0 <= i <= n,
            values@.len() == i,
            forall|t: int| 0 <= t < i ==> (#[trigger] values@[t]) is None,
        decreases n - i,
    {
        values.push(Option::None);
        i = i + 1;
    }
    let mut rounds: usize = 0;
    let mut all_done: bool = false;
    while rounds <= n && !all_done
        invariant
            values@.len() == n,
            n == proto.nodes@.len(),
            rounds <= n,
            proto_ids_distinct(nodes) ==> forall|t: int|
                0 <= t < n && (#[trigger] values@[t]) is Some ==> slot_computed(
                    nodes,
                    ext,
                    values@,
                    t,
                ),
            all_done ==> forall|t: int| 0 <= t < n ==> (#[trigger] values@[t]) is Some,
        decreases n + 1 - rounds, (if all_done { 0int } else { 1int }),
    {
        let mut progressed: bool = false;
        let mut remaining: bool = false;
        let mut k: usize = 0;
        while k < n
            invariant
                0 <= k <= n,
                values@.len() == n,
                n == proto.nodes@.len(),
                proto_ids_distinct(nodes) ==> forall|t: int|
                    0 <= t < n && (#[trigger] values@[t]) is Some ==> slot_computed(
                        nodes,
                        ext,
                        values@,
                        t,
                    ),
                !remaining ==> forall|t: int| 0 <= t < k ==> (#[trigger] values@[t]) is Some,
            decreases n - k,
        {
            if values[k].is_none() {
                let mut inputs: Vec<TaggedValue> = Vec::new();
                let mut ready: bool = true;
                let node = &proto.nodes[k].1;
                let mut j: usize = 0;
                while j < node.inputs.len()
                    invariant
                        0 <= j <= node.inputs@.len(),
                        values@.len() == n,
                        n == proto.nodes@.len(),
                        node.inputs@ == nodes[k as int].1.inputs@,
                        ready ==> inputs@.len() == j,
                        ready ==> forall|l: int|
                            0 <= l < j ==> value_view(#[trigger] inputs@[l])
                                == work_resolved_views(node.inputs@, ext, nodes, values@)[l],
                        ready ==> forall|l: int|
                            0 <= l < j ==> match ref_of(#[trigger] node.inputs@[l]) {
                                Option::Some(id) => work_value(nodes, values@, id) is Some,
                                Option::None => true,
                            },
                    decreases node.inputs@.len() - j,
                {
                    match &node.inputs[j] {
                        ProtoInput::Value(v) => {
                            let c = v.clone();
                            proof {
                                assert(value_view(c) == work_resolved_views(
                                    node.inputs@,
                                    ext,
                                    nodes,
                                    values@,
                                )[j as int]);
                            }
                            inputs.push(c);
                        },
                        ProtoInput::External { index } => {
                            if *index < external.len() {
                                let c = external[*index].clone();
                                proof {
                                    assert(value_view(c) == work_resolved_views(
                                        node.inputs@,
                                        ext,
                                        nodes,
                                        values@,
                                    )[j as int]);
                                }
                                inputs.push(c);
                            } else {
                                proof {
                                    assert(value_view(TaggedValue::Empty) == work_resolved_views(
                                        node.inputs@,
                                        ext,
                                        nodes,
                                        values@,
                                    )[j as int]);
                                }
                                inputs.push(TaggedValue::Empty);
                            }
                        },
                        ProtoInput::Node { node_id, lambda: _ } => {
                            let mut found: Option<TaggedValue> = Option::None;
                            let mut t: usize = 0;
                            while t < n
                                invariant
                                    0 <= t <= n,
                                    values@.len() == n,
                                    n == proto.nodes@.len(),
                                    match found {
                                        Option::None => work_value_upto(
                                            nodes,
                                            values@,
                                            *node_id,
                                            t as int,
                                        ) is None,
                                        Option::Some(v) => work_value_upto(
                                            nodes,
                                            values@,
                                            *node_id,
                                            t as int,
                                        ) == Option::Some(value_view(v)),
                                    },
                                decreases n - t,
                            {
                                if proto.nodes[t].0 == *node_id {
                                    match &values[t] {
                                        Option::Some(v) => {
                                            found = Option::Some(v.clone());
                                        },
                                        Option::None => {},
                                    }
                                }
                                t = t + 1;
                            }
                            match found {
                                Option::Some(v) => {
                                    proof {
                                        assert(value_view(v) == work_resolved_views(
                                            node.inputs@,
                                            ext,
                                            nodes,
                                            values@,
                                        )[j as int]);
                                    }
                                    inputs.push(v);
                                },
                                Option::None => {
                                    ready = false;
                                },
                            }
                        },
                    }
                    j = j + 1;
                }
                if ready {
                    let value = match apply_operation(&node.name, proto.nodes[k].0, &inputs) {
                        Result::Ok(v) => v,
                        Result::Err(e) => {
                            proof {
                                assert(inputs@.len() == nodes[k as int].1.inputs@.len());
                                assert(value_views(inputs@).len()
                                    == nodes[k as int].1.inputs@.len());
                            }
                            return Result::Err(e);
                        },
                    };
                    proof {
                        assert(value_views(inputs@) =~= work_resolved_views(
                            nodes[k as int].1.inputs@,
                            ext,
                            nodes,
                            values@,
                        ));
                    }
                    let ghost before = values@;
                    let ghost gvalue_view = value_view(value);
                    values.set(k, Option::Some(value));
                    proof {
                        assert(values@ == before.update(k as int, values@[k as int]));
                        if proto_ids_distinct(nodes) {
                            assert forall|t: int|
                                0 <= t < n && (#[trigger] values@[t]) is Some implies slot_computed(
                                nodes,
                                ext,
                                values@,
                                t,
                            ) by {
                                lemma_slot_computed_stable(
                                    nodes,
                                    ext,
                                    before,
                                    values@,
                                    k as int,
                                    t,
                                    gvalue_view,
                                );
                            }
                        }
                    }
                    progressed = true;
                } else {
                    remaining = true;
                }
            }
            k = k + 1;
        }
        if !remaining {
            all_done = true;
        } else if rounds >= n || !progressed {
            // No further node can become ready: report the first node that
            // never resolved, or finish if every one did after all.
            let mut k2: usize = 0;
            while k2 < n
                invariant
                    0 <= k2 <= n,
                    values@.len() == n,
                    n == proto.nodes@.len(),
                    forall|t: int| 0 <= t < k2 ==> (#[trigger] values@[t]) is Some,
                decreases n - k2,
            {
                if values[k2].is_none() {
                    return Result::Err(EvalError::Unresolved { node_id: proto.nodes[k2].0 });
                }
                k2 = k2 + 1;
            }
            all_done = true;
        } else {
            rounds = rounds + 1;
        }
    }
    if !all_done {
        // The round bound was reached with work left; report the first
        // unresolved node.
        let mut k3: usize = 0;
        while k3 < n
            invariant
                0 <= k3 <= n,
                values@.len() == n,
                n == proto.nodes@.len(),
                forall|t: int| 0 <= t < k3 ==> (#[trigger] values@[t]) is Some,
            decreases n - k3,
        {
            if values[k3].is_none() {
                return Result::Err(EvalError::Unresolved { node_id: proto.nodes[k3].0 });
            }
            k3 = k3 + 1;
        }
    }
    // Every slot is computed; assemble the artifacts.
    let mut outputs: Vec<(u64, TaggedValue)> = Vec::new();
    let mut primary: TaggedValue = TaggedValue::Empty;
    i = 0;
    while i < n
        invariant
            0 <= i <= n,
            values@.len() == n,
            n == proto.nodes@.len(),
            forall|t: int| 0 <= t < n ==> (#[trigger] values@[t]) is Some,
            proto_ids_distinct(nodes) ==> forall|t: int|
                0 <= t < n && (#[trigger] values@[t]) is Some ==> slot_computed(
                    nodes,
                    ext,
                    values@,
                    t,
                ),
            outputs@.len() == i,
            forall|l: int|
                0 <= l < i ==> (#[trigger] outputs@[l]).0 == proto.nodes@[l].0 && value_view(
                    outputs@[l].1,
                ) == value_view(values@[l].unwrap()),
            value_view(primary) == (match table_value(outputs@, proto.output) {
                Option::Some(v) => v,
                Option::None => ValueView::Empty,
            }),
        decreases n - i,
    {
        let id = proto.nodes[i].0;
        let value = match &values[i] {
            Option::Some(v) => v.clone(),
            Option::None => TaggedValue::Empty,
        };
        let ghost prev_outputs = outputs@;
        if id == proto.output {
            primary = value.clone();
        }
        let ghost primary_view = value_view(primary);
        let ghost vv = value_view(value);
        outputs.push((id, value));
        proof {
            assert(outputs@.drop_last() =~= prev_outputs);
            assert(outputs@.last().0 == id && value_view(outputs@.last().1) == vv);
        }
        i = i + 1;
    }
    proof {
        if proto_ids_distinct(nodes) {
            assert forall|t: int| 0 <= t < n implies spec_apply(
                (#[trigger] nodes[t]).1.name@,
                output_resolved_views(nodes[t].1.inputs@, ext, outputs@),
            ) == OpOutcome::Value(value_view(outputs@[t].1)) by {
                assert(slot_computed(nodes, ext, values@, t));
                assert forall|l: int|
                    0 <= l < nodes[t].1.inputs@.len() implies #[trigger] output_resolved_views(
                    nodes[t].1.inputs@,
                    ext,
                    outputs@,
                )[l] == work_resolved_views(nodes[t].1.inputs@, ext, nodes, values@)[l] by {
                    match nodes[t].1.inputs@[l] {
                        ProtoInput::Node { node_id, lambda: _ } => {
                            lemma_table_matches_work(nodes, values@, outputs@, node_id);
                        },
                        _ => {},
                    }
                }
                assert(output_resolved_views(nodes[t].1.inputs@, ext, outputs@)
                    =~= work_resolved_views(nodes[t].1.inputs@, ext, nodes, values@));
            }
        }
    }
    Result::Ok(Evaluation { outputs, primary })
}

/// A freshly computed slot keeps every computed slot's agreement with the
/// operation semantics: the new slot agrees because its inputs were
/// resolved just before the write, and every older slot's resolved inputs
/// are untouched by it.
proof fn lemma_slot_computed_stable(
    nodes: Seq<(u64, ProtoNode)>,
    external: Seq<TaggedValue>,
    before: Seq<Option<TaggedValue>>,
    after: Seq<Option<TaggedValue>>,
    k: int,
    t: int,
    written_view: ValueView,
)
    requires
        proto_ids_distinct(nodes),
        nodes.len() == before.len(),
        0 <= k < before.len(),
        before[k] is None,
        after == before.update(k, after[k]),
        after[k] is Some,
        value_view(after[k].unwrap()) == written_view,
        0 <= t < after.len(),
        after[t] is Some,
        t != k ==> slot_computed(nodes, external, before, t),
        t == k ==> (forall|l: int|
            0 <= l < nodes[k].1.inputs@.len() ==> match ref_of(#[trigger] nodes[k].1.inputs@[l]) {
                Option::Some(id) => work_value(nodes, before, id) is Some,
                Option::None => true,
            }),
        t == k ==> spec_apply(
            nodes[k].1.name@,
            work_resolved_views(nodes[k].1.inputs@, external, nodes, before),
        ) == OpOutcome::Value(written_view),
    ensures
        slot_computed(nodes, external, after, t),
{
    let v = after[k].unwrap();
    assert(after.len() == before.len());
    // Lookups that were computed stay exactly as they were; only the
    // written slot's own id gains a value.
    assert forall|id: u64|
        work_value(nodes, before, id) is Some implies #[trigger] work_value(nodes, after, id)
        == work_value(nodes, before, id) by {
        lemma_work_value_update(nodes, before, v, k, id, before.len() as int);
        assert(after =~= before.update(k, Option::Some(v)));
    }
    let inputs = nodes[t].1.inputs@;
    if t == k {
        assert forall|l: int|
            0 <= l < inputs.len() implies #[trigger] work_resolved_views(
            inputs,
            external,
            nodes,
            after,
        )[l] == work_resolved_views(inputs, external, nodes, before)[l] by {
            match ref_of(inputs[l]) {
                Option::Some(id) => {
                    assert(work_value(nodes, before, id) is Some);
                },
                Option::None => {},
            }
        }
        assert(work_resolved_views(inputs, external, nodes, after) =~= work_resolved_views(
            inputs,
            external,
            nodes,
            before,
        ));
        assert(value_view(after[t].unwrap()) == written_view);
    } else {
        assert forall|l: int|
            0 <= l < inputs.len() implies #[trigger] work_resolved_views(
            inputs,
            external,
            nodes,
            after,
        )[l] == work_resolved_views(inputs, external, nodes, before)[l] by {
            match ref_of(inputs[l]) {
                Option::Some(id) => {
                    assert(work_value(nodes, before, id) is Some);
                },
                Option::None => {},
            }
        }
        assert(work_resolved_views(inputs, external, nodes, after) =~= work_resolved_views(
            inputs,
            external,
            nodes,
            before,
        ));
        assert(after[t] == before[t]);
    }
}

/// Whether two id paths are the same.
fn paths_equal(a: &Vec<u64>, b: &Vec<u64>) -> (r: bool)
    ensures
        r == (a@ =~= b@),
{
    if a.len() != b.len() {
        return false;
    }
    let mut i: usize = 0;
    while i < a.len()
        invariant
            0 <= i <= a@.len(),
            a@.len() == b@.len(),
            forall|k: int| 0 <= k < i ==> a@[k] == b@[k],
        decreases a@.len() - i,
    {
        if a[i] != b[i] {
            return false;
        }
        i = i + 1;
    }
    true
}

/// One cached thumbnail, keyed by host document, layer path and node.
#[derive(Debug)]
pub struct ThumbnailEntry {
    pub document_id: u64,
    pub layer_path: Vec<u64>,
    pub node_id: u64,
    pub svg: String,
}

/// The per-node intermediate artifacts retained as thumbnails, keyed by
/// (host document, layer path, node). Results arriving from an evaluation
/// carry the network generation they were computed from; a result whose
/// generation no longer matches is discarded on arrival, never cached.
#[derive(Debug)]
pub struct ThumbnailCache {
    pub entries: Vec<ThumbnailEntry>,
}

impl ThumbnailCache {
    /// An empty cache.
    pub fn new() -> (r: ThumbnailCache)
        ensures
            r.entries@.len() == 0,
    {
        ThumbnailCache { entries: Vec::new() }
    }

    /// Store one arriving thumbnail, unless it is stale: only a result
    /// whose generation matches the network's current generation is
    /// written.
    #[verifier::loop_isolation(false)]
    pub fn store(
        &mut self,
        document_id: u64,
        layer_path: Vec<u64>,
        node_id: u64,
        svg: String,
        result_generation: u64,
        current_generation: u64,
    ) -> (stored: bool)
        ensures
            result_generation != current_generation ==> !stored && *final(self) == *old(self),
            result_generation == current_generation ==> stored && final(self).entries@.len() <= old(
                self,
            ).entries@.len() + 1 && exists|i: int|
                0 <= i < final(self).entries@.len()
                    && (#[trigger] final(self).entries@[i]).document_id == document_id
                    && final(self).entries@[i].layer_path == layer_path
                    && final(self).entries@[i].node_id == node_id
                    && final(self).entries@[i].svg == svg,
    {
        if result_generation != current_generation {
            return false;
        }
        let mut i: usize = 0;
        while i < self.entries.len()
            invariant
                0 <= i <= self.entries@.len(),
                self.entries@.len() == old(self).entries@.len(),
            decreases self.entries@.len() - i,
        {
            let same: bool = self.entries[i].document_id == document_id && self.entries[i].node_id
                == node_id && paths_equal(&self.entries[i].layer_path, &layer_path);
            if same {
                let entry = ThumbnailEntry { document_id, layer_path, node_id, svg };
                let ghost len_before = self.entries@.len();
                self.entries.set(i, entry);
                proof {
                    assert(self.entries@.len() == len_before);
                    assert(self.entries@[i as int].document_id == document_id);
                }
                return true;
            }
            i = i + 1;
        }
        self.entries.push(ThumbnailEntry { document_id, layer_path, node_id, svg });
        proof {
            assert(self.entries@.last().document_id == document_id);
        }
        true
    }

    /// The cached thumbnail for one node of one layer's graph, if any.
    pub fn get(&self, document_id: u64, layer_path: &Vec<u64>, node_id: u64) -> (r: Option<&String>)
        ensures
            match r {
                Option::Some(svg) => exists|i: int|
                    0 <= i < self.entries@.len() && (#[trigger] self.entries@[i]).document_id
                        == document_id && self.entries@[i].layer_path@ =~= layer_path@
                        && self.entries@[i].node_id == node_id && self.entries@[i].svg == *svg,
                Option::None => forall|i: int|
                    0 <= i < self.entries@.len() ==> !((#[trigger] self.entries@[i]).document_id
                        == document_id && self.entries@[i].layer_path@ =~= layer_path@
                        && self.entries@[i].node_id == node_id),
            },
    {
        let mut i: usize = 0;
        while i < self.entries.len()
            invariant
                0 <= i <= self.entries@.len(),
                forall|k: int|
                    0 <= k < i ==> !((#[trigger] self.entries@[k]).document_id == document_id
                        && self.entries@[k].layer_path@ =~= layer_path@
                        && self.entries@[k].node_id == node_id),
            decreases self.entries@.len() - i,
        {
            if self.entries[i].document_id == document_id && self.entries[i].node_id == node_id
                && paths_equal(&self.entries[i].layer_path, layer_path) {
                return Option::Some(&self.entries[i].svg);
            }
            i = i + 1;
        }
        Option::None
    }

    /// Drop every thumbnail of one layer's graph; the owning editor signals
    /// this when an edit demands a rerender.
    pub fn invalidate_layer(&mut self, document_id: u64, layer_path: &Vec<u64>)
        ensures
            final(self).entries@.len() <= old(self).entries@.len(),
            forall|i: int|
                0 <= i < final(self).entries@.len() ==> !((#[trigger] final(self).entries@[i]).document_id
                    == document_id && final(self).entries@[i].layer_path@ =~= layer_path@),
    {
        let mut kept: Vec<ThumbnailEntry> = Vec::new();
        let mut i: usize = 0;
        while i < self.entries.len()
            invariant
                0 <= i <= self.entries@.len(),
                kept@.len() <= i,
                forall|k: int|
                    0 <= k < kept@.len() ==> !((#[trigger] kept@[k]).document_id == document_id
                        && kept@[k].layer_path@ =~= layer_path@),
            decreases self.entries@.len() - i,
        {
            let matches_layer: bool = self.entries[i].document_id == document_id && paths_equal(
                &self.entries[i].layer_path,
                layer_path,
            );
            if !matches_layer {
                let entry = ThumbnailEntry {
                    document_id: self.entries[i].document_id,
                    layer_path: self.entries[i].layer_path.clone(),
                    node_id: self.entries[i].node_id,
                    svg: self.entries[i].svg.clone(),
                };
                let ghost glp = self.entries@[i as int].layer_path@;
                proof {
                    assert(entry.layer_path@ =~= glp);
                }
                kept.push(entry);
            }
            i = i + 1;
        }
        self.entries = kept;
    }

    /// The node-and-text pairs of the cached entries of one document and
    /// layer, in cache order.
    pub open spec fn spec_layer_thumbnails(
        entries: Seq<ThumbnailEntry>,
        document_id: u64,
        layer_path: Seq<u64>,
    ) -> Seq<(u64, Seq<char>)>
        decreases entries,
    {
        if entries.len() == 0 {
            Seq::empty()
        } else {
            let rest = Self::spec_layer_thumbnails(entries.drop_last(), document_id, layer_path);
            let e = entries.last();
            if e.document_id == document_id && e.layer_path@ == layer_path {
                rest.push((e.node_id, e.svg@))
            } else {
                rest
            }
        }
    }

    /// The thumbnails of one layer's graph: one pair per cached entry of
    /// that document and layer, in cache order.
    #[verifier::loop_isolation(false)]
    pub fn layer_thumbnails(&self, document_id: u64, layer_path: &Vec<u64>) -> (r: Vec<
        (u64, String),
    >)
        ensures
            r@.len() == Self::spec_layer_thumbnails(
                self.entries@,
                document_id,
                layer_path@,
            ).len(),
            forall|k: int|
                0 <= k < r@.len() ==> (#[trigger] r@[k]).0 == Self::spec_layer_thumbnails(
                    self.entries@,
                    document_id,
                    layer_path@,
                )[k].0 && r@[k].1@ == Self::spec_layer_thumbnails(
                    self.entries@,
                    document_id,
                    layer_path@,
                )[k].1,
    {
        let ghost target = Self::spec_layer_thumbnails(self.entries@, document_id, layer_path@);
        let mut out: Vec<(u64, String)> = Vec::new();
        let mut i: usize = 0;
        while i < self.entries.len()
            invariant
                0 <= i <= self.entries@.len(),
                out@.len() == Self::spec_layer_thumbnails(
                    self.entries@.take(i as int),
                    document_id,
                    layer_path@,
                ).len(),
                forall|k: int|
                    0 <= k < out@.len() ==> (#[trigger] out@[k]).0 == Self::spec_layer_thumbnails(
                        self.entries@.take(i as int),
                        document_id,
                        layer_path@,
                    )[k].0 && out@[k].1@ == Self::spec_layer_thumbnails(
                        self.entries@.take(i as int),
                        document_id,
                        layer_path@,
                    )[k].1,
            decreases self.entries@.len() - i,
        {
            proof {
                assert(self.entries@.take((i + 1) as int).drop_last() =~= self.entries@.take(
                    i as int,
                ));
                assert(self.entries@.take((i + 1) as int).last() == self.entries@[i as int]);
            }
            if self.entries[i].document_id == document_id && paths_equal(
                &self.entries[i].layer_path,
                layer_path,
            ) {
                proof {
                    assert(self.entries@[i as int].layer_path@ =~= layer_path@);
                }
                out.push((self.entries[i].node_id, self.entries[i].svg.clone()));
            }
            i = i + 1;
        }
        proof {
            assert(self.entries@.take(self.entries@.len() as int) =~= self.entries@);
        }
        out
    }
}

} // verus!
