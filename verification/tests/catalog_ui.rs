//! The node-type catalog, the value-kind classification, the interface
//! snapshot and the clipboard framing.

use node_graph::catalog::{collect_node_types, default_node_input, resolve_document_node_type};
use node_graph::clipboard::{make_clipboard_text, strip_clipboard_prefix};
use node_graph::frontend::FrontendGraphDataType;
use node_graph::graph::{
    DocumentNode, DocumentNodeImplementation, DocumentNodeMetadata, NodeInput, NodeNetwork,
    NodeOutput, Position,
};
use node_graph::snapshot::{collect_links, collect_nodes, selection_action_buttons};
use node_graph::subpath::Subpath;
use node_graph::value::TaggedValue;

fn primitive_node(name: &str, inputs: Vec<NodeInput>, x: i64, y: i64) -> DocumentNode {
    DocumentNode {
        name: name.to_string(),
        inputs,
        implementation: DocumentNodeImplementation::Primitive(name.to_string()),
        metadata: DocumentNodeMetadata {
            position: Position { x, y },
        },
    }
}

fn link(target: u64) -> NodeInput {
    NodeInput::Node {
        node_id: target,
        output_index: 0,
        lambda: false,
    }
}

#[test]
fn catalog_resolves_registered_types_only() {
    let exposure = resolve_document_node_type(&"Exposure".to_string()).expect("registered");
    assert_eq!(exposure.name, "Exposure");
    assert_eq!(exposure.category, "Raster");
    assert_eq!(exposure.inputs.len(), 2);
    assert_eq!(exposure.inputs[0].name, "In");
    assert_eq!(exposure.inputs[0].data_type, FrontendGraphDataType::Raster);
    assert_eq!(exposure.outputs.len(), 1);
    assert!(resolve_document_node_type(&"Imaginate".to_string()).is_none());
}

#[test]
fn default_inputs_come_from_the_catalog() {
    let d = default_node_input(&"Add".to_string(), 1).expect("slot default");
    assert!(matches!(
        d,
        NodeInput::Value {
            tagged_value: TaggedValue::Number(0),
            exposed: false
        }
    ));
    assert!(default_node_input(&"Add".to_string(), 5).is_none());
    assert!(default_node_input(&"Imaginate".to_string(), 0).is_none());
}

#[test]
fn palette_lists_every_registered_type() {
    let types = collect_node_types();
    let names: Vec<&str> = types.iter().map(|t| t.name.as_str()).collect();
    assert_eq!(
        names,
        vec!["Identity", "Input", "Output", "Value", "Add", "Exposure"]
    );
}

#[test]
fn value_kinds_classify_tagged_values() {
    let with = FrontendGraphDataType::with_tagged_value;
    assert_eq!(
        with(&TaggedValue::Text("x".to_string())),
        FrontendGraphDataType::Text
    );
    assert_eq!(with(&TaggedValue::Number(1)), FrontendGraphDataType::Number);
    assert_eq!(with(&TaggedValue::U32(1)), FrontendGraphDataType::Number);
    assert_eq!(
        with(&TaggedValue::Bool(true)),
        FrontendGraphDataType::Boolean
    );
    assert_eq!(
        with(&TaggedValue::Vector2 { x: 1, y: 2 }),
        FrontendGraphDataType::Vector
    );
    assert_eq!(
        with(&TaggedValue::Image {
            width: 1,
            height: 1
        }),
        FrontendGraphDataType::Raster
    );
    assert_eq!(
        with(&TaggedValue::Path(Subpath {
            manipulator_groups: vec![],
            closed: false
        })),
        FrontendGraphDataType::Subpath
    );
    assert_eq!(with(&TaggedValue::Empty), FrontendGraphDataType::General);
}

fn snapshot_network() -> NodeNetwork {
    NodeNetwork {
        nodes: vec![
            (1, primitive_node("Input", vec![NodeInput::Network], 0, 0)),
            (
                2,
                primitive_node(
                    "Exposure",
                    vec![
                        link(1),
                        NodeInput::Value {
                            tagged_value: TaggedValue::Number(0),
                            exposed: false,
                        },
                    ],
                    10,
                    0,
                ),
            ),
            (3, primitive_node("Output", vec![link(2)], 20, 0)),
        ],
        inputs: vec![1],
        outputs: vec![NodeOutput {
            node_id: 3,
            node_output_index: 0,
        }],
        previous_outputs: None,
        disabled: vec![2],
    }
}

#[test]
fn snapshot_links_count_exposed_slots() {
    let network = snapshot_network();
    let links = collect_links(&network);
    assert_eq!(links.len(), 2);
    assert_eq!(links[0].link_start, 1);
    assert_eq!(links[0].link_end, 2);
    assert_eq!(links[0].link_end_input_index, 0);
    assert_eq!(links[1].link_start, 2);
    assert_eq!(links[1].link_end, 3);
    assert_eq!(links[1].link_end_input_index, 0);
}

#[test]
fn snapshot_nodes_carry_state_flags() {
    let network = snapshot_network();
    let thumbnails = vec![(2u64, "<svg/>".to_string())];
    let nodes = collect_nodes(&network, &thumbnails);
    assert_eq!(nodes.len(), 3);
    let exposure = nodes.iter().find(|n| n.id == 2).expect("exposure record");
    assert_eq!(exposure.display_name, "Exposure");
    assert!(exposure.disabled);
    assert!(!exposure.previewed);
    assert_eq!(exposure.position, Position { x: 10, y: 0 });
    assert_eq!(exposure.thumbnail_svg.as_deref(), Some("<svg/>"));
    assert_eq!(exposure.primary_input, Some(FrontendGraphDataType::Raster));
    let output = nodes.iter().find(|n| n.id == 3).expect("output record");
    assert!(output.previewed);
    assert!(output.thumbnail_svg.is_none());
}

#[test]
fn selection_buttons_respect_boundary_roles() {
    let network = snapshot_network();
    // Only boundary nodes selected: no hide button.
    let b = selection_action_buttons(&network, &vec![1, 3]);
    assert!(!b.show_hide_button);
    // An interior disabled node offers the show reading.
    let b = selection_action_buttons(&network, &vec![2]);
    assert!(b.show_hide_button);
    assert!(b.is_hidden);
    // A single non-output selection offers the preview button.
    assert_eq!(b.preview_button, Some((2, false)));
    // The stable output node offers no preview toggle.
    let b = selection_action_buttons(&network, &vec![3]);
    assert_eq!(b.preview_button, None);
}

#[test]
fn clipboard_prefix_round_trip() {
    let text = make_clipboard_text("[payload]");
    assert_eq!(text, "graphite/nodes: [payload]");
    assert_eq!(strip_clipboard_prefix(&text), Some("[payload]"));
    assert_eq!(strip_clipboard_prefix("graphite/nodes: "), Some(""));
    assert_eq!(strip_clipboard_prefix("not node data"), None);
    assert_eq!(strip_clipboard_prefix("graphite/nodes:"), None);
}
