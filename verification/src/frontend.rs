//! The snapshot types handed to the graph interface: a coarse value-kind
//! classification for link colour-coding, and per-node and per-link records
//! describing the active network.

use vstd::prelude::*;
use crate::graph::{NodeId, Position};
use crate::value::TaggedValue;

verus! {

/// Coarse classification of tagged values, used for link colour-coding and
/// compatibility hints, not for strict type checking.
#[derive(Clone, Copy, Debug, PartialEq, Eq, Structural)]
pub enum FrontendGraphDataType {
    General,
    Raster,
    Color,
    Text,
    Subpath,
    Number,
    Boolean,
    Vector,
    GraphicGroup,
    Artboard,
}

impl FrontendGraphDataType {
    /// The classification of a tagged value.
    pub open spec fn spec_with_tagged_value(value: TaggedValue) -> FrontendGraphDataType {
        match value {
            TaggedValue::Text(_) => FrontendGraphDataType::Text,
            TaggedValue::Number(_) => FrontendGraphDataType::Number,
            TaggedValue::U32(_) => FrontendGraphDataType::Number,
            TaggedValue::Transform(_) => FrontendGraphDataType::Number,
            TaggedValue::Bool(_) => FrontendGraphDataType::Boolean,
            TaggedValue::Vector2 { .. } => FrontendGraphDataType::Vector,
            TaggedValue::Image { .. } => FrontendGraphDataType::Raster,
            TaggedValue::ImageFrame { .. } => FrontendGraphDataType::Raster,
            TaggedValue::Color(_) => FrontendGraphDataType::Color,
            TaggedValue::Path(_) => FrontendGraphDataType::Subpath,
            TaggedValue::GraphicGroup(_) => FrontendGraphDataType::GraphicGroup,
            TaggedValue::Artboard { .. } => FrontendGraphDataType::Artboard,
            TaggedValue::Empty => FrontendGraphDataType::General,
        }
    }

    /// The classification of a tagged value.
    pub fn with_tagged_value(value: &TaggedValue) -> (r: FrontendGraphDataType)
        ensures
            r == FrontendGraphDataType::spec_with_tagged_value(*value),
    {
        match value {
            TaggedValue::Text(_) => FrontendGraphDataType::Text,
            TaggedValue::Number(_) => FrontendGraphDataType::Number,
            TaggedValue::U32(_) => FrontendGraphDataType::Number,
            TaggedValue::Transform(_) => FrontendGraphDataType::Number,
            TaggedValue::Bool(_) => FrontendGraphDataType::Boolean,
            TaggedValue::Vector2 { .. } => FrontendGraphDataType::Vector,
            TaggedValue::Image { .. } => FrontendGraphDataType::Raster,
            TaggedValue::ImageFrame { .. } => FrontendGraphDataType::Raster,
            TaggedValue::Color(_) => FrontendGraphDataType::Color,
            TaggedValue::Path(_) => FrontendGraphDataType::Subpath,
            TaggedValue::GraphicGroup(_) => FrontendGraphDataType::GraphicGroup,
            TaggedValue::Artboard { .. } => FrontendGraphDataType::Artboard,
            TaggedValue::Empty => FrontendGraphDataType::General,
        }
    }
}

/// One exposed input slot in the snapshot: value kind and display name.
#[derive(Debug)]
pub struct NodeGraphInput {
    pub data_type: FrontendGraphDataType,
    pub name: String,
}

/// One output slot in the snapshot: value kind and display name.
#[derive(Debug)]
pub struct NodeGraphOutput {
    pub data_type: FrontendGraphDataType,
    pub name: String,
}

/// One node of the snapshot sent to the interface.
#[derive(Debug)]
pub struct FrontendNode {
    pub id: NodeId,
    pub display_name: String,
    pub primary_input: Option<FrontendGraphDataType>,
    pub exposed_inputs: Vec<NodeGraphInput>,
    pub primary_output: Option<NodeGraphOutput>,
    pub exposed_outputs: Vec<NodeGraphOutput>,
    pub position: Position,
    pub disabled: bool,
    pub previewed: bool,
    pub thumbnail_svg: Option<String>,
}

/// One link of the snapshot: source node and output index, destination node
/// and exposed-input index.
#[derive(Clone, Copy, Debug, PartialEq, Eq, Structural)]
pub struct FrontendNodeLink {
    pub link_start: u64,
    pub link_start_output_index: usize,
    pub link_end: u64,
    pub link_end_input_index: u64,
}

/// One entry of the node-type palette.
#[derive(Debug)]
pub struct FrontendNodeType {
    pub name: String,
    pub category: String,
}

impl FrontendNodeType {
    /// A palette entry with the given name and category.
    pub fn new(name: &str, category: &str) -> (r: FrontendNodeType)
        ensures
            r.name@ == name@,
            r.category@ == category@,
    {
        FrontendNodeType { name: name.to_owned(), category: category.to_owned() }
    }
}

} // verus!
