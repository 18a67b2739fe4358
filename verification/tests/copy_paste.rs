//! Copying, pasting and duplicating: id remapping, collision-free
//! placement, and freshness of the generated ids.

use node_graph::editor::{Document, NodeGraphMessage, NodeGraphMessageHandler, Response};
use node_graph::graph::{
    DocumentNode, DocumentNodeImplementation, DocumentNodeMetadata, NodeInput, NodeNetwork,
    NodeOutput, Position,
};
use node_graph::value::TaggedValue;
use node_graph::IdGenerator;

fn primitive_node(name: &str, inputs: Vec<NodeInput>, x: i64, y: i64) -> DocumentNode {
    DocumentNode {
        name: name.to_string(),
        inputs,
        implementation: DocumentNodeImplementation::Primitive(name.to_string()),
        metadata: DocumentNodeMetadata {
            position: Position { x, y },
        },
    }
}

fn link(target: u64) -> NodeInput {
    NodeInput::Node {
        node_id: target,
        output_index: 0,
        lambda: false,
    }
}

fn small_network() -> NodeNetwork {
    NodeNetwork {
        nodes: vec![
            (1, primitive_node("Value", vec![NodeInput::Value { tagged_value: TaggedValue::Number(3), exposed: false }], 0, 0)),
            (2, primitive_node("Add", vec![link(1), NodeInput::Value { tagged_value: TaggedValue::Number(4), exposed: false }], 10, 0)),
            (3, primitive_node("Output", vec![link(2)], 20, 0)),
        ],
        inputs: vec![],
        outputs: vec![NodeOutput {
            node_id: 3,
            node_output_index: 0,
        }],
        previous_outputs: None,
        disabled: vec![],
    }
}

fn run(
    handler: &mut NodeGraphMessageHandler,
    document: &mut Document,
    generator: &mut IdGenerator,
    message: NodeGraphMessage,
) -> Vec<Response> {
    let thumbnails: Vec<(u64, String)> = Vec::new();
    let mut queue = vec![message];
    let mut seen: Vec<Response> = Vec::new();
    while let Some(next) = queue.pop() {
        let mut responses: Vec<Response> = Vec::new();
        handler.process_message(next, document, &thumbnails, 7, generator, &mut responses);
        for response in responses {
            match response {
                Response::Graph(m) => queue.insert(0, m),
                other => seen.push(other),
            }
        }
    }
    seen
}

#[test]
fn copy_remaps_internal_links_and_skips_outputs() {
    let mut handler = NodeGraphMessageHandler::new();
    let mut document = Document::new(small_network());
    let mut generator = IdGenerator::new(100);
    run(
        &mut handler,
        &mut document,
        &mut generator,
        NodeGraphMessage::SelectNodes {
            nodes: vec![1, 2, 3],
        },
    );
    let responses = run(
        &mut handler,
        &mut document,
        &mut generator,
        NodeGraphMessage::Copy,
    );
    let copied = responses
        .iter()
        .find_map(|r| match r {
            Response::CopyNodes { nodes } => Some(nodes),
            _ => None,
        })
        .expect("copy payload");
    // The output node 3 is excluded; ids are renumbered 0 and 1 in
    // selection order; the internal link is rewritten through the map.
    assert_eq!(copied.len(), 2);
    assert_eq!(copied[0].0, 0);
    assert_eq!(copied[1].0, 1);
    assert!(matches!(
        copied[1].1.inputs[0],
        NodeInput::Node { node_id: 0, .. }
    ));
}

#[test]
fn copy_then_paste_gets_fresh_ids_and_free_positions() {
    let mut handler = NodeGraphMessageHandler::new();
    let mut document = Document::new(small_network());
    let mut generator = IdGenerator::new(100);
    run(
        &mut handler,
        &mut document,
        &mut generator,
        NodeGraphMessage::SelectNodes { nodes: vec![1, 2] },
    );
    let responses = run(
        &mut handler,
        &mut document,
        &mut generator,
        NodeGraphMessage::Copy,
    );
    let payload = responses
        .iter()
        .find_map(|r| match r {
            Response::CopyNodes { nodes } => Some(nodes.clone()),
            _ => None,
        })
        .expect("copy payload");
    let existing_ids: Vec<u64> = document
        .document_network
        .nodes
        .iter()
        .map(|(id, _)| *id)
        .collect();
    let existing_positions: Vec<(i64, i64)> = document
        .document_network
        .nodes
        .iter()
        .map(|(_, n)| (n.metadata.position.x, n.metadata.position.y))
        .collect();
    run(
        &mut handler,
        &mut document,
        &mut generator,
        NodeGraphMessage::PasteNodes { nodes: payload },
    );
    assert_eq!(document.document_network.nodes.len(), 5);
    let pasted: Vec<_> = document
        .document_network
        .nodes
        .iter()
        .filter(|(id, _)| !existing_ids.contains(id))
        .collect();
    assert_eq!(pasted.len(), 2);
    for (id, node) in &pasted {
        // Fresh ids drawn from the generator, disjoint from all
        // pre-existing ids.
        assert!(*id >= 100);
        // Displaced positions disjoint from all pre-existing positions.
        let at = (node.metadata.position.x, node.metadata.position.y);
        assert!(!existing_positions.contains(&at));
    }
    // The payload at (0,0) and (10,0) collides with the originals, so the
    // whole block moved by one even step.
    assert!(pasted
        .iter()
        .any(|(_, n)| n.metadata.position == Position { x: 2, y: 2 }));
    assert!(pasted
        .iter()
        .any(|(_, n)| n.metadata.position == Position { x: 12, y: 2 }));
}

#[test]
fn repeated_duplicate_never_reuses_ids_or_positions() {
    let mut handler = NodeGraphMessageHandler::new();
    let mut document = Document::new(small_network());
    let mut generator = IdGenerator::new(100);
    run(
        &mut handler,
        &mut document,
        &mut generator,
        NodeGraphMessage::SelectNodes { nodes: vec![1, 2] },
    );
    for _ in 0..3 {
        run(
            &mut handler,
            &mut document,
            &mut generator,
            NodeGraphMessage::DuplicateSelectedNodes,
        );
    }
    let ids: Vec<u64> = document
        .document_network
        .nodes
        .iter()
        .map(|(id, _)| *id)
        .collect();
    let positions: Vec<(i64, i64)> = document
        .document_network
        .nodes
        .iter()
        .map(|(_, n)| (n.metadata.position.x, n.metadata.position.y))
        .collect();
    // Three duplicates of two nodes on top of the original three.
    assert_eq!(ids.len(), 9);
    for a in 0..ids.len() {
        for b in (a + 1)..ids.len() {
            assert_ne!(ids[a], ids[b]);
            assert_ne!(positions[a], positions[b]);
        }
    }
}

#[test]
fn duplicate_selects_the_copies() {
    let mut handler = NodeGraphMessageHandler::new();
    let mut document = Document::new(small_network());
    let mut generator = IdGenerator::new(100);
    run(
        &mut handler,
        &mut document,
        &mut generator,
        NodeGraphMessage::SelectNodes { nodes: vec![1, 2] },
    );
    run(
        &mut handler,
        &mut document,
        &mut generator,
        NodeGraphMessage::DuplicateSelectedNodes,
    );
    assert_eq!(handler.selected_nodes, vec![100, 101]);
}

#[test]
fn cut_copies_then_deletes_selection() {
    let mut handler = NodeGraphMessageHandler::new();
    let mut document = Document::new(small_network());
    let mut generator = IdGenerator::new(100);
    run(
        &mut handler,
        &mut document,
        &mut generator,
        NodeGraphMessage::SelectNodes { nodes: vec![2] },
    );
    let responses = run(
        &mut handler,
        &mut document,
        &mut generator,
        NodeGraphMessage::Cut,
    );
    assert!(responses
        .iter()
        .any(|r| matches!(r, Response::CopyNodes { .. })));
    assert!(!document.document_network.nodes.iter().any(|(id, _)| *id == 2));
    // Node 3's link to the deleted node fell back to its default.
    let out = document
        .document_network
        .nodes
        .iter()
        .find(|(id, _)| *id == 3)
        .unwrap();
    assert!(matches!(
        out.1.inputs[0],
        NodeInput::Value { tagged_value: TaggedValue::Empty, exposed: true }
    ));
}

#[test]
fn empty_or_unparsable_paste_enqueues_nothing() {
    let mut handler = NodeGraphMessageHandler::new();
    let mut document = Document::new(small_network());
    let mut generator = IdGenerator::new(100);
    let before = format!("{:?}", document.document_network);
    let responses = run(
        &mut handler,
        &mut document,
        &mut generator,
        NodeGraphMessage::PasteNodes { nodes: Vec::new() },
    );
    assert!(responses.is_empty());
    assert_eq!(generator.next_id, 100);
    assert_eq!(before, format!("{:?}", document.document_network));
}
