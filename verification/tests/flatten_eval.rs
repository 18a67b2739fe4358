//! Flattening nested networks into proto-graphs and evaluating them over
//! tagged values.

use node_graph::executor::{apply_operation, evaluate, EvalError, ThumbnailCache};
use node_graph::flatten::{flatten, ProtoInput, ProtoNetwork, ProtoNode};
use node_graph::graph::{
    DocumentNode, DocumentNodeImplementation, DocumentNodeMetadata, NodeInput, NodeNetwork,
    NodeOutput, Position,
};
use node_graph::value::TaggedValue;
use node_graph::IdGenerator;

fn primitive_node(name: &str, inputs: Vec<NodeInput>, x: i64, y: i64) -> DocumentNode {
    DocumentNode {
        name: name.to_string(),
        inputs,
        implementation: DocumentNodeImplementation::Primitive(name.to_string()),
        metadata: DocumentNodeMetadata {
            position: Position { x, y },
        },
    }
}

fn link(target: u64) -> NodeInput {
    NodeInput::Node {
        node_id: target,
        output_index: 0,
        lambda: false,
    }
}

fn number(n: i64, exposed: bool) -> NodeInput {
    NodeInput::Value {
        tagged_value: TaggedValue::Number(n),
        exposed,
    }
}

/// A flat proto-graph written out by hand, as a flattened definition would
/// produce it: an externally fed stage, an adder, and its consumer.
#[test]
fn craft_from_flattened() {
    let _flat_network = ProtoNetwork {
        inputs: vec![10],
        output: 1,
        nodes: vec![
            (
                1,
                ProtoNode {
                    name: "Inc".to_string(),
                    inputs: vec![ProtoInput::Node {
                        node_id: 11,
                        lambda: false,
                    }],
                },
            ),
            (
                10,
                ProtoNode {
                    name: "cons".to_string(),
                    inputs: vec![ProtoInput::External { index: 0 }],
                },
            ),
            (
                12,
                ProtoNode {
                    name: "value".to_string(),
                    inputs: vec![],
                },
            ),
            (
                11,
                ProtoNode {
                    name: "add".to_string(),
                    inputs: vec![ProtoInput::Node {
                        node_id: 10,
                        lambda: false,
                    }],
                },
            ),
        ],
    };
}

#[test]
fn flatten_resolves_links_and_literals() {
    let network = NodeNetwork {
        nodes: vec![
            (1, primitive_node("Value", vec![number(3, false)], 0, 0)),
            (
                2,
                primitive_node("Add", vec![link(1), number(4, false)], 10, 0),
            ),
        ],
        inputs: vec![],
        outputs: vec![NodeOutput {
            node_id: 2,
            node_output_index: 0,
        }],
        previous_outputs: None,
        disabled: vec![],
    };
    let mut generator = IdGenerator::new(1000);
    let proto = flatten(&network, &mut generator).expect("flattens");
    assert_eq!(proto.nodes.len(), 2);
    // Every proto id is fresh and the output names the adder's proto node.
    for (id, node) in &proto.nodes {
        assert!(*id >= 1000);
        assert!(node.name == "Value" || node.name == "Add");
    }
    let adder = proto
        .nodes
        .iter()
        .find(|(_, n)| n.name == "Add")
        .expect("adder");
    assert_eq!(proto.output, adder.0);
    let value = proto
        .nodes
        .iter()
        .find(|(_, n)| n.name == "Value")
        .expect("value stage");
    assert!(matches!(
        adder.1.inputs[0],
        ProtoInput::Node { node_id, .. } if node_id == value.0
    ));
    assert!(matches!(
        adder.1.inputs[1],
        ProtoInput::Value(TaggedValue::Number(4))
    ));
}

#[test]
fn flatten_drops_unregistered_nodes() {
    let network = NodeNetwork {
        nodes: vec![
            (1, primitive_node("Imaginate", vec![], 0, 0)),
            (2, primitive_node("Value", vec![number(3, false)], 10, 0)),
        ],
        inputs: vec![],
        outputs: vec![NodeOutput {
            node_id: 2,
            node_output_index: 0,
        }],
        previous_outputs: None,
        disabled: vec![],
    };
    let mut generator = IdGenerator::new(1000);
    let proto = flatten(&network, &mut generator).expect("flattens");
    assert_eq!(proto.nodes.len(), 1);
    assert_eq!(proto.nodes[0].1.name, "Value");
}

fn nested_definition() -> NodeNetwork {
    // A reusable unit: boundary node 1 feeds an adder that adds 10.
    NodeNetwork {
        nodes: vec![
            (1, primitive_node("Input", vec![NodeInput::Network], 0, 0)),
            (
                2,
                primitive_node("Add", vec![link(1), number(10, false)], 10, 0),
            ),
        ],
        inputs: vec![1],
        outputs: vec![NodeOutput {
            node_id: 2,
            node_output_index: 0,
        }],
        previous_outputs: None,
        disabled: vec![],
    }
}

#[test]
fn two_call_sites_share_no_proto_nodes() {
    // The same nested definition invoked from two call sites; both feed a
    // final adder.
    let wrapped = |x: i64| DocumentNode {
        name: "AddTen".to_string(),
        inputs: vec![number(1, false)],
        implementation: DocumentNodeImplementation::Network(nested_definition()),
        metadata: DocumentNodeMetadata {
            position: Position { x, y: 0 },
        },
    };
    let network = NodeNetwork {
        nodes: vec![
            (5, wrapped(0)),
            (6, wrapped(10)),
            (
                7,
                primitive_node("Add", vec![link(5), link(6)], 20, 0),
            ),
        ],
        inputs: vec![],
        outputs: vec![NodeOutput {
            node_id: 7,
            node_output_index: 0,
        }],
        previous_outputs: None,
        disabled: vec![],
    };
    let mut generator = IdGenerator::new(1000);
    let proto = flatten(&network, &mut generator).expect("flattens");
    // Two independent instances: each call site got its own copies of the
    // nested nodes plus an alias, and no id appears twice.
    assert_eq!(proto.nodes.len(), 7);
    for a in 0..proto.nodes.len() {
        for b in (a + 1)..proto.nodes.len() {
            assert_ne!(proto.nodes[a].0, proto.nodes[b].0);
        }
    }
    // Evaluating the whole graph computes (1 + 10) + (1 + 10).
    let evaluation = evaluate(&proto, &Vec::new()).expect("evaluates");
    assert!(matches!(evaluation.primary, TaggedValue::Number(22)));
}

#[test]
fn evaluate_computes_saturating_sum() {
    let proto = ProtoNetwork {
        nodes: vec![
            (
                1,
                ProtoNode {
                    name: "Add".to_string(),
                    inputs: vec![
                        ProtoInput::Value(TaggedValue::Number(3)),
                        ProtoInput::Value(TaggedValue::Number(4)),
                    ],
                },
            ),
        ],
        inputs: vec![],
        output: 1,
    };
    let evaluation = evaluate(&proto, &Vec::new()).expect("evaluates");
    assert!(matches!(evaluation.primary, TaggedValue::Number(7)));

    let saturating = ProtoNetwork {
        nodes: vec![
            (
                1,
                ProtoNode {
                    name: "Add".to_string(),
                    inputs: vec![
                        ProtoInput::Value(TaggedValue::Number(i64::MAX)),
                        ProtoInput::Value(TaggedValue::Number(1)),
                    ],
                },
            ),
        ],
        inputs: vec![],
        output: 1,
    };
    let evaluation = evaluate(&saturating, &Vec::new()).expect("evaluates");
    assert!(matches!(evaluation.primary, TaggedValue::Number(i64::MAX)));
}

#[test]
fn evaluate_feeds_external_inputs_through_boundary() {
    let network = NodeNetwork {
        nodes: vec![
            (1, primitive_node("Input", vec![NodeInput::Network], 0, 0)),
            (
                2,
                primitive_node("Add", vec![link(1), number(5, false)], 10, 0),
            ),
        ],
        inputs: vec![1],
        outputs: vec![NodeOutput {
            node_id: 2,
            node_output_index: 0,
        }],
        previous_outputs: None,
        disabled: vec![],
    };
    let mut generator = IdGenerator::new(1000);
    let proto = flatten(&network, &mut generator).expect("flattens");
    let evaluation = evaluate(&proto, &vec![TaggedValue::Number(37)]).expect("evaluates");
    assert!(matches!(evaluation.primary, TaggedValue::Number(42)));
}

#[test]
fn type_mismatch_is_reported_not_propagated() {
    let inputs = vec![TaggedValue::Bool(true), TaggedValue::Number(1)];
    let r = apply_operation(&"Add".to_string(), 9, &inputs);
    match r {
        Err(EvalError::TypeMismatch {
            node_id, expected, ..
        }) => {
            assert_eq!(node_id, 9);
            assert_eq!(expected, node_graph::frontend::FrontendGraphDataType::Number);
        }
        other => panic!("expected a type mismatch, got {:?}", other),
    }
}

#[test]
fn unknown_operation_and_missing_input_are_reported() {
    let r = apply_operation(&"Imaginate".to_string(), 4, &Vec::new());
    assert!(matches!(r, Err(EvalError::UnknownOperation { node_id: 4 })));
    let r = apply_operation(&"Identity".to_string(), 5, &Vec::new());
    assert!(matches!(r, Err(EvalError::MissingInput { node_id: 5 })));
}

#[test]
fn unresolvable_cycle_is_reported() {
    let proto = ProtoNetwork {
        nodes: vec![
            (
                1,
                ProtoNode {
                    name: "Identity".to_string(),
                    inputs: vec![ProtoInput::Node {
                        node_id: 1,
                        lambda: false,
                    }],
                },
            ),
        ],
        inputs: vec![],
        output: 1,
    };
    let r = evaluate(&proto, &Vec::new());
    assert!(matches!(r, Err(EvalError::Unresolved { node_id: 1 })));
}

#[test]
fn exposure_requires_a_raster_frame() {
    let good = vec![
        TaggedValue::Image {
            width: 4,
            height: 4,
        },
        TaggedValue::Number(2),
    ];
    let r = apply_operation(&"Exposure".to_string(), 1, &good);
    assert!(matches!(
        r,
        Ok(TaggedValue::Image {
            width: 4,
            height: 4
        })
    ));
    let bad = vec![TaggedValue::Number(1), TaggedValue::Number(2)];
    let r = apply_operation(&"Exposure".to_string(), 1, &bad);
    assert!(matches!(r, Err(EvalError::TypeMismatch { .. })));
}

#[test]
fn stale_results_are_discarded_and_current_ones_cached() {
    let mut cache = ThumbnailCache::new();
    let current_generation = 3;
    // A result computed from an older network generation arrives late.
    let stored = cache.store(7, vec![1, 2], 5, "<svg/>".to_string(), 2, current_generation);
    assert!(!stored);
    assert!(cache.get(7, &vec![1, 2], 5).is_none());
    // A result of the current generation is cached and replaces on rewrite.
    assert!(cache.store(7, vec![1, 2], 5, "<svg a/>".to_string(), 3, current_generation));
    assert!(cache.store(7, vec![1, 2], 5, "<svg b/>".to_string(), 3, current_generation));
    assert_eq!(cache.get(7, &vec![1, 2], 5).unwrap(), "<svg b/>");
    assert_eq!(cache.layer_thumbnails(7, &vec![1, 2]).len(), 1);
    // A rerender signal drops the layer's thumbnails.
    cache.invalidate_layer(7, &vec![1, 2]);
    assert!(cache.get(7, &vec![1, 2], 5).is_none());
}
