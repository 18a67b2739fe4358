//! Edit operations against small networks: connecting, deleting, toggling
//! preview and hidden state, and auto-spacing.

use node_graph::editor::{Document, NodeGraphMessage, NodeGraphMessageHandler, Response};
use node_graph::graph::{
    DocumentNode, DocumentNodeImplementation, DocumentNodeMetadata, NodeInput, NodeNetwork,
    NodeOutput, Position,
};
use node_graph::value::TaggedValue;
use node_graph::IdGenerator;

fn primitive_node(name: &str, inputs: Vec<NodeInput>, x: i64, y: i64) -> DocumentNode {
    DocumentNode {
        name: name.to_string(),
        inputs,
        implementation: DocumentNodeImplementation::Primitive(name.to_string()),
        metadata: DocumentNodeMetadata {
            position: Position { x, y },
        },
    }
}

fn link(target: u64) -> NodeInput {
    NodeInput::Node {
        node_id: target,
        output_index: 0,
        lambda: false,
    }
}

/// The example network: 1 is an input, 2 an exposure stage, 3 the output.
fn example_network() -> NodeNetwork {
    NodeNetwork {
        nodes: vec![
            (1, primitive_node("Input", vec![NodeInput::Network], 0, 0)),
            (
                2,
                primitive_node(
                    "Exposure",
                    vec![
                        link(1),
                        NodeInput::Value {
                            tagged_value: TaggedValue::Number(0),
                            exposed: false,
                        },
                    ],
                    10,
                    0,
                ),
            ),
            (
                3,
                primitive_node("Output", vec![link(2)], 20, 0),
            ),
        ],
        inputs: vec![1],
        outputs: vec![NodeOutput {
            node_id: 3,
            node_output_index: 0,
        }],
        previous_outputs: None,
        disabled: vec![],
    }
}

/// Process a message and every follow-up edit request it enqueues.
fn run(
    handler: &mut NodeGraphMessageHandler,
    document: &mut Document,
    generator: &mut IdGenerator,
    message: NodeGraphMessage,
) -> Vec<Response> {
    let thumbnails: Vec<(u64, String)> = Vec::new();
    let mut queue = vec![message];
    let mut seen: Vec<Response> = Vec::new();
    while let Some(next) = queue.pop() {
        let mut responses: Vec<Response> = Vec::new();
        handler.process_message(next, document, &thumbnails, 7, generator, &mut responses);
        for response in responses {
            match response {
                Response::Graph(m) => queue.insert(0, m),
                other => seen.push(other),
            }
        }
    }
    seen
}

fn node_input(network: &NodeNetwork, id: u64, index: usize) -> NodeInput {
    for (nid, node) in &network.nodes {
        if *nid == id {
            return match &node.inputs[index] {
                NodeInput::Value {
                    tagged_value,
                    exposed,
                } => NodeInput::Value {
                    tagged_value: tagged_value.clone(),
                    exposed: *exposed,
                },
                NodeInput::Node {
                    node_id,
                    output_index,
                    lambda,
                } => NodeInput::Node {
                    node_id: *node_id,
                    output_index: *output_index,
                    lambda: *lambda,
                },
                NodeInput::Network => NodeInput::Network,
            };
        }
    }
    panic!("node {} not found", id);
}

#[test]
fn connect_retargets_exposed_input() {
    let mut handler = NodeGraphMessageHandler::new();
    let mut document = Document::new(example_network());
    let mut generator = IdGenerator::new(100);
    run(
        &mut handler,
        &mut document,
        &mut generator,
        NodeGraphMessage::ConnectNodesByLink {
            output_node: 4,
            output_node_connector_index: 0,
            input_node: 2,
            input_node_connector_index: 0,
        },
    );
    // Node 2's first input now links to node 4; node 1 is unreferenced but
    // not removed.
    assert!(matches!(
        node_input(&document.document_network, 2, 0),
        NodeInput::Node { node_id: 4, output_index: 0, .. }
    ));
    assert!(document.document_network.nodes.iter().any(|(id, _)| *id == 1));
}

#[test]
fn delete_rewrites_references_to_slot_default() {
    let mut handler = NodeGraphMessageHandler::new();
    let mut document = Document::new(example_network());
    let mut generator = IdGenerator::new(100);
    run(
        &mut handler,
        &mut document,
        &mut generator,
        NodeGraphMessage::DeleteNode { node_id: 2 },
    );
    // Node 2 is gone and node 3's link to it fell back to the registered
    // default for "Output" input 0, exposed.
    assert!(!document.document_network.nodes.iter().any(|(id, _)| *id == 2));
    assert!(matches!(
        node_input(&document.document_network, 3, 0),
        NodeInput::Value { tagged_value: TaggedValue::Empty, exposed: true }
    ));
}

#[test]
fn delete_rewrites_inside_nested_networks() {
    let mut network = example_network();
    // A sibling holding a nested network whose inner node links to the
    // outer id 2; the deletion must rewrite it too.
    let inner = NodeNetwork {
        nodes: vec![(9, primitive_node("Exposure", vec![link(2)], 0, 0))],
        inputs: vec![],
        outputs: vec![],
        previous_outputs: None,
        disabled: vec![],
    };
    network.nodes.push((
        5,
        DocumentNode {
            name: "Wrapped".to_string(),
            inputs: vec![],
            implementation: DocumentNodeImplementation::Network(inner),
            metadata: DocumentNodeMetadata {
                position: Position { x: 30, y: 0 },
            },
        },
    ));
    let mut handler = NodeGraphMessageHandler::new();
    let mut document = Document::new(network);
    let mut generator = IdGenerator::new(100);
    run(
        &mut handler,
        &mut document,
        &mut generator,
        NodeGraphMessage::DeleteNode { node_id: 2 },
    );
    let wrapped = document
        .document_network
        .nodes
        .iter()
        .find(|(id, _)| *id == 5)
        .expect("wrapped node");
    match &wrapped.1.implementation {
        DocumentNodeImplementation::Network(sub) => {
            assert!(matches!(
                sub.nodes[0].1.inputs[0],
                NodeInput::Value { tagged_value: TaggedValue::Empty, exposed: true }
            ));
        }
        _ => panic!("expected nested network"),
    }
}

#[test]
fn delete_of_input_or_output_node_is_rejected() {
    let mut handler = NodeGraphMessageHandler::new();
    let mut document = Document::new(example_network());
    let mut generator = IdGenerator::new(100);
    let before = format!("{:?}", document.document_network);
    run(
        &mut handler,
        &mut document,
        &mut generator,
        NodeGraphMessage::DeleteNode { node_id: 1 },
    );
    assert_eq!(before, format!("{:?}", document.document_network));
    run(
        &mut handler,
        &mut document,
        &mut generator,
        NodeGraphMessage::DeleteNode { node_id: 3 },
    );
    assert_eq!(before, format!("{:?}", document.document_network));
}

#[test]
fn toggle_preview_twice_restores_outputs() {
    let mut handler = NodeGraphMessageHandler::new();
    let mut document = Document::new(example_network());
    let mut generator = IdGenerator::new(100);
    let before = document.document_network.outputs.clone();
    run(
        &mut handler,
        &mut document,
        &mut generator,
        NodeGraphMessage::TogglePreview { node_id: 2 },
    );
    assert_eq!(document.document_network.outputs[0].node_id, 2);
    assert!(document.document_network.previous_outputs.is_some());
    run(
        &mut handler,
        &mut document,
        &mut generator,
        NodeGraphMessage::TogglePreview { node_id: 2 },
    );
    assert_eq!(document.document_network.outputs, before);
    assert!(document.document_network.previous_outputs.is_none());
}

#[test]
fn toggle_hidden_skips_input_and_output_nodes() {
    let mut handler = NodeGraphMessageHandler::new();
    let mut document = Document::new(example_network());
    let mut generator = IdGenerator::new(100);
    run(
        &mut handler,
        &mut document,
        &mut generator,
        NodeGraphMessage::SelectNodes {
            nodes: vec![1, 2, 3],
        },
    );
    run(
        &mut handler,
        &mut document,
        &mut generator,
        NodeGraphMessage::ToggleHidden,
    );
    // Only the interior node is disabled; the boundary input 1 and the
    // output 3 are never added.
    assert_eq!(document.document_network.disabled, vec![2]);
    run(
        &mut handler,
        &mut document,
        &mut generator,
        NodeGraphMessage::ToggleHidden,
    );
    assert!(document.document_network.disabled.is_empty());
}

#[test]
fn shift_node_spaces_out_predecessors() {
    let mut network = example_network();
    // Crowd node 2 onto its predecessor.
    for (id, node) in network.nodes.iter_mut() {
        if *id == 2 {
            node.metadata.position.x = 3;
        }
    }
    let mut handler = NodeGraphMessageHandler::new();
    let mut document = Document::new(network);
    let mut generator = IdGenerator::new(100);
    run(
        &mut handler,
        &mut document,
        &mut generator,
        NodeGraphMessage::ShiftNode { node_id: 2 },
    );
    let positions: Vec<(u64, i64)> = document
        .document_network
        .nodes
        .iter()
        .map(|(id, n)| (*id, n.metadata.position.x))
        .collect();
    // Node 2 moved right of node 1 by the minimum gap; its downstream
    // node 3 moved by the same amount, keeping their spacing.
    assert_eq!(positions, vec![(1, 0), (2, 8), (3, 25)]);
}

#[test]
fn move_selected_nodes_displaces_positions() {
    let mut handler = NodeGraphMessageHandler::new();
    let mut document = Document::new(example_network());
    let mut generator = IdGenerator::new(100);
    run(
        &mut handler,
        &mut document,
        &mut generator,
        NodeGraphMessage::SelectNodes { nodes: vec![2, 3] },
    );
    run(
        &mut handler,
        &mut document,
        &mut generator,
        NodeGraphMessage::MoveSelectedNodes {
            displacement_x: 5,
            displacement_y: -1,
        },
    );
    let positions: Vec<(u64, i64, i64)> = document
        .document_network
        .nodes
        .iter()
        .map(|(id, n)| (*id, n.metadata.position.x, n.metadata.position.y))
        .collect();
    assert_eq!(positions, vec![(1, 0, 0), (2, 15, -1), (3, 25, -1)]);
}

#[test]
fn create_node_with_unknown_type_reports_error() {
    let mut handler = NodeGraphMessageHandler::new();
    let mut document = Document::new(example_network());
    let mut generator = IdGenerator::new(100);
    let responses = run(
        &mut handler,
        &mut document,
        &mut generator,
        NodeGraphMessage::CreateNode {
            node_id: None,
            node_type: "Imaginate".to_string(),
            x: 0,
            y: 0,
        },
    );
    assert!(responses
        .iter()
        .any(|r| matches!(r, Response::DisplayError { .. })));
    assert_eq!(document.document_network.nodes.len(), 3);
}

#[test]
fn create_node_inserts_type_defaults() {
    let mut handler = NodeGraphMessageHandler::new();
    let mut document = Document::new(example_network());
    let mut generator = IdGenerator::new(100);
    run(
        &mut handler,
        &mut document,
        &mut generator,
        NodeGraphMessage::CreateNode {
            node_id: None,
            node_type: "Add".to_string(),
            x: 4,
            y: 5,
        },
    );
    let added = document
        .document_network
        .nodes
        .iter()
        .find(|(id, _)| *id == 100)
        .expect("created node");
    assert_eq!(added.1.name, "Add");
    assert_eq!(added.1.metadata.position, Position { x: 4, y: 5 });
    assert!(matches!(
        added.1.inputs[0],
        NodeInput::Value { tagged_value: TaggedValue::Number(0), exposed: true }
    ));
    assert!(matches!(
        added.1.inputs[1],
        NodeInput::Value { tagged_value: TaggedValue::Number(0), exposed: false }
    ));
}

#[test]
fn set_input_value_writes_hidden_literal() {
    let mut handler = NodeGraphMessageHandler::new();
    let mut document = Document::new(example_network());
    let mut generator = IdGenerator::new(100);
    run(
        &mut handler,
        &mut document,
        &mut generator,
        NodeGraphMessage::SetInputValue {
            node_id: 2,
            input_index: 1,
            value: TaggedValue::Number(42),
        },
    );
    assert!(matches!(
        node_input(&document.document_network, 2, 1),
        NodeInput::Value { tagged_value: TaggedValue::Number(42), exposed: false }
    ));
}

#[test]
fn disconnect_restores_default_and_keeps_exposure() {
    let mut handler = NodeGraphMessageHandler::new();
    let mut document = Document::new(example_network());
    let mut generator = IdGenerator::new(100);
    run(
        &mut handler,
        &mut document,
        &mut generator,
        NodeGraphMessage::DisconnectNodes {
            node_id: 2,
            input_index: 0,
        },
    );
    // The link was exposed, so the restored default literal stays exposed.
    assert!(matches!(
        node_input(&document.document_network, 2, 0),
        NodeInput::Value { tagged_value: TaggedValue::Empty, exposed: true }
    ));
}

#[test]
fn enter_and_exit_nested_network() {
    let inner = NodeNetwork {
        nodes: vec![(9, primitive_node("Identity", vec![NodeInput::Network], 0, 0))],
        inputs: vec![9],
        outputs: vec![NodeOutput {
            node_id: 9,
            node_output_index: 0,
        }],
        previous_outputs: None,
        disabled: vec![],
    };
    let mut network = example_network();
    network.nodes.push((
        5,
        DocumentNode {
            name: "Wrapped".to_string(),
            inputs: vec![],
            implementation: DocumentNodeImplementation::Network(inner),
            metadata: DocumentNodeMetadata {
                position: Position { x: 30, y: 0 },
            },
        },
    ));
    let mut handler = NodeGraphMessageHandler::new();
    let mut document = Document::new(network);
    let mut generator = IdGenerator::new(100);
    run(
        &mut handler,
        &mut document,
        &mut generator,
        NodeGraphMessage::DoubleClickNode { node: 5 },
    );
    assert_eq!(handler.nested_path, vec![5]);
    // Edits now apply inside the nested network.
    run(
        &mut handler,
        &mut document,
        &mut generator,
        NodeGraphMessage::DoubleClickNode { node: 9 },
    );
    // Node 9 is primitive, so the path is unchanged.
    assert_eq!(handler.nested_path, vec![5]);
    run(
        &mut handler,
        &mut document,
        &mut generator,
        NodeGraphMessage::ExitNestedNetwork { depth_of_nesting: 1 },
    );
    assert!(handler.nested_path.is_empty());
}

#[test]
fn update_layer_path_asks_for_a_rebuild() {
    let mut handler = NodeGraphMessageHandler::new();
    let mut responses: Vec<Response> = Vec::new();
    handler.update_layer_path(Some(vec![4, 2]), &mut responses);
    assert_eq!(handler.layer_path, Some(vec![4, 2]));
    assert!(matches!(
        responses.as_slice(),
        [Response::Graph(NodeGraphMessage::UpdateNewNodeGraph)]
    ));
}

#[test]
fn collate_properties_walks_the_primary_flow_when_nothing_is_selected() {
    let handler = NodeGraphMessageHandler::new();
    let network = example_network();
    // Output first, then its upstream chain along each first input.
    assert_eq!(handler.collate_properties(&network), vec![3, 2, 1]);
}

#[test]
fn collate_properties_shows_existing_selected_nodes() {
    let mut handler = NodeGraphMessageHandler::new();
    handler.selected_nodes = vec![2, 77, 1];
    let network = example_network();
    assert_eq!(handler.collate_properties(&network), vec![2, 1]);
}

#[test]
fn actions_are_offered_only_with_a_selection() {
    let mut handler = NodeGraphMessageHandler::new();
    assert!(handler.actions().is_empty());
    handler.selected_nodes = vec![2];
    assert_eq!(handler.actions().len(), 5);
    assert!(matches!(
        handler.actions()[0],
        NodeGraphMessage::DeleteSelectedNodes
    ));
}

#[test]
fn active_network_follows_the_nesting_path() {
    let mut handler = NodeGraphMessageHandler::new();
    let document = Document::new(example_network());
    assert_eq!(
        handler.get_root_network(&document).nodes.len(),
        handler.get_active_network(&document).unwrap().nodes.len()
    );
    handler.nested_path = vec![99];
    assert!(handler.get_active_network(&document).is_none());
}

#[test]
fn retargeting_preview_keeps_the_single_stash() {
    let mut handler = NodeGraphMessageHandler::new();
    let mut document = Document::new(example_network());
    let mut generator = IdGenerator::new(100);
    run(
        &mut handler,
        &mut document,
        &mut generator,
        NodeGraphMessage::TogglePreview { node_id: 1 },
    );
    let stash = document.document_network.previous_outputs.clone();
    // Previewing another node while already previewing retargets the
    // output but never stashes over the existing stash.
    run(
        &mut handler,
        &mut document,
        &mut generator,
        NodeGraphMessage::TogglePreview { node_id: 2 },
    );
    assert_eq!(document.document_network.outputs[0].node_id, 2);
    assert_eq!(document.document_network.previous_outputs, stash);
    // Ending the preview restores the stable outputs saved before any
    // previewing began.
    run(
        &mut handler,
        &mut document,
        &mut generator,
        NodeGraphMessage::TogglePreview { node_id: 2 },
    );
    assert_eq!(document.document_network.outputs[0].node_id, 3);
    assert!(document.document_network.previous_outputs.is_none());
}

#[test]
fn qualified_input_write_extends_the_slot_list() {
    let mut handler = NodeGraphMessageHandler::new();
    let mut document = Document::new(example_network());
    let mut generator = IdGenerator::new(100);
    run(
        &mut handler,
        &mut document,
        &mut generator,
        NodeGraphMessage::SetQualifiedInputValue {
            layer_path: vec![],
            node_path: vec![2],
            input_index: 4,
            value: TaggedValue::Number(9),
        },
    );
    let node = document
        .document_network
        .nodes
        .iter()
        .find(|(id, _)| *id == 2)
        .unwrap();
    assert_eq!(node.1.inputs.len(), 5);
    assert!(matches!(node.1.inputs[2], NodeInput::Network));
    assert!(matches!(
        node.1.inputs[4],
        NodeInput::Value { tagged_value: TaggedValue::Number(9), exposed: false }
    ));
}

#[test]
fn expose_keeps_the_stored_literal_across_hide_and_show() {
    let mut handler = NodeGraphMessageHandler::new();
    let mut document = Document::new(example_network());
    let mut generator = IdGenerator::new(100);
    run(
        &mut handler,
        &mut document,
        &mut generator,
        NodeGraphMessage::SetInputValue {
            node_id: 2,
            input_index: 1,
            value: TaggedValue::Number(42),
        },
    );
    // Hide, then show: the stored literal value survives both flips.
    for new_exposed in [true, false, true] {
        run(
            &mut handler,
            &mut document,
            &mut generator,
            NodeGraphMessage::ExposeInput {
                node_id: 2,
                input_index: 1,
                new_exposed,
            },
        );
        let input = node_input(&document.document_network, 2, 1);
        assert!(matches!(
            input,
            NodeInput::Value { tagged_value: TaggedValue::Number(42), exposed } if exposed == new_exposed
        ));
    }
}

#[test]
fn expose_converts_a_link_to_the_slot_default() {
    let mut handler = NodeGraphMessageHandler::new();
    let mut document = Document::new(example_network());
    let mut generator = IdGenerator::new(100);
    run(
        &mut handler,
        &mut document,
        &mut generator,
        NodeGraphMessage::ExposeInput {
            node_id: 2,
            input_index: 0,
            new_exposed: false,
        },
    );
    // The link to node 1 is not preserved across hiding: the slot becomes
    // the registered default literal under the new flag.
    assert!(matches!(
        node_input(&document.document_network, 2, 0),
        NodeInput::Value { tagged_value: TaggedValue::Empty, exposed: false }
    ));
}

#[test]
fn expose_keeps_a_link_whose_slot_has_no_literal_default() {
    // An "Input" node's slot default is the boundary placeholder, not a
    // literal, so a link written into that slot survives the toggle.
    let mut network = example_network();
    for (id, node) in network.nodes.iter_mut() {
        if *id == 1 {
            node.inputs[0] = link(2);
        }
    }
    let mut handler = NodeGraphMessageHandler::new();
    let mut document = Document::new(network);
    let mut generator = IdGenerator::new(100);
    run(
        &mut handler,
        &mut document,
        &mut generator,
        NodeGraphMessage::ExposeInput {
            node_id: 1,
            input_index: 0,
            new_exposed: false,
        },
    );
    assert!(matches!(
        node_input(&document.document_network, 1, 0),
        NodeInput::Node { node_id: 2, .. }
    ));
}

#[test]
fn delete_is_blocked_by_a_link_without_a_literal_default() {
    // Node 1's type is "Input", whose slot default is the boundary
    // placeholder: a link from it to node 2 cannot fall back to a literal,
    // so deleting node 2 would leave a dangling link and is rejected.
    let mut network = example_network();
    for (id, node) in network.nodes.iter_mut() {
        if *id == 1 {
            node.inputs[0] = link(2);
        }
    }
    let mut handler = NodeGraphMessageHandler::new();
    let mut document = Document::new(network);
    let mut generator = IdGenerator::new(100);
    let before = format!("{:?}", document.document_network);
    run(
        &mut handler,
        &mut document,
        &mut generator,
        NodeGraphMessage::DeleteNode { node_id: 2 },
    );
    assert_eq!(before, format!("{:?}", document.document_network));
}
