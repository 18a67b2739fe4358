//! The graph editor's working state: the host document holding the root
//! network, the edit requests it consumes, the follow-up responses it
//! emits, and the machinery that applies one edit operation to the network
//! reached by the active nesting path.

use vstd::prelude::*;
use crate::delete::{delete_effect, remove_node};
use crate::frontend::{FrontendNode, FrontendNodeLink, FrontendNodeType};
use crate::graph::{
    DocumentNode,
    DocumentNodeImplementation,
    NodeId,
    NodeInput,
    NodeNetwork,
    index_of_id,
    spec_get,
    spec_nested_network,
};
use crate::ops::{
    extend_input_effect,
    extend_set_input,
    hidden_effect,
    insert_effect,
    insert_node,
    move_effect,
    move_nodes,
    preview_effect,
    set_input_effect,
    set_node_input,
    toggle_hidden,
    toggle_preview,
};
use crate::reach::{check_ids_distinct, shift_effect, shift_node};
use crate::snapshot::SelectionActionButtons;
use crate::value::TaggedValue;

verus! {

/// The host document: the root node network. The surrounding application
/// owns everything else of the document.
#[derive(Debug)]
pub struct Document {
    pub document_network: NodeNetwork,
}

impl Document {
    pub fn new(document_network: NodeNetwork) -> (r: Document)
        ensures
            r.document_network == document_network,
    {
        Document { document_network }
    }
}

/// One edit request consumed from the host interface.
#[derive(Debug)]
pub enum NodeGraphMessage {
    CloseNodeGraph,
    ConnectNodesByLink {
        output_node: NodeId,
        output_node_connector_index: usize,
        input_node: NodeId,
        input_node_connector_index: usize,
    },
    Copy,
    CreateNode { node_id: Option<NodeId>, node_type: String, x: i64, y: i64 },
    Cut,
    DeleteNode { node_id: NodeId },
    DeleteSelectedNodes,
    DisconnectNodes { node_id: NodeId, input_index: usize },
    DoubleClickNode { node: NodeId },
    DuplicateSelectedNodes,
    ExitNestedNetwork { depth_of_nesting: usize },
    ExposeInput { node_id: NodeId, input_index: usize, new_exposed: bool },
    InsertNode { node_id: NodeId, document_node: DocumentNode },
    MoveSelectedNodes { displacement_x: i64, displacement_y: i64 },
    OpenNodeGraph { layer_path: Vec<u64> },
    PasteNodes { nodes: Vec<(NodeId, DocumentNode)> },
    RunDocumentGraph,
    SelectNodes { nodes: Vec<NodeId> },
    SendGraph { should_rerender: bool },
    SetInputValue { node_id: NodeId, input_index: usize, value: TaggedValue },
    SetNodeInput { node_id: NodeId, input_index: usize, input: NodeInput },
    SetQualifiedInputValue {
        layer_path: Vec<u64>,
        node_path: Vec<NodeId>,
        input_index: usize,
        value: TaggedValue,
    },
    ShiftNode { node_id: NodeId },
    ToggleHidden,
    ToggleHiddenImpl,
    TogglePreview { node_id: NodeId },
    TogglePreviewImpl { node_id: NodeId },
    UpdateNewNodeGraph,
}

/// One follow-up emitted while processing an edit request: a further edit
/// request for this editor, or an instruction for a surrounding collaborator
/// (transaction log, renderer, interface).
#[derive(Debug)]
pub enum Response {
    Graph(NodeGraphMessage),
    StartTransaction,
    RasterizeRegionBelowLayer { layer_path: Vec<u64> },
    RenderGraph { document_id: u64 },
    ResendActiveProperties,
    UpdateNodeGraph { nodes: Vec<FrontendNode>, links: Vec<FrontendNodeLink> },
    UpdateNodeGraphSelection { selected: Vec<NodeId> },
    UpdateNodeTypes { node_types: Vec<FrontendNodeType> },
    UpdateSelectionActionButtons { buttons: SelectionActionButtons },
    UpdateBreadcrumb { names: Vec<String> },
    CopyNodes { nodes: Vec<(NodeId, DocumentNode)> },
    DisplayError { title: String, description: String },
}

/// The editor's own state: which layer's graph is open, the nesting path of
/// the active network, and the current selection.
#[derive(Debug)]
pub struct NodeGraphMessageHandler {
    pub layer_path: Option<Vec<u64>>,
    pub nested_path: Vec<NodeId>,
    pub selected_nodes: Vec<NodeId>,
}

impl NodeGraphMessageHandler {
    /// A fresh editor: no layer open, root level active, nothing selected.
    pub fn new() -> (r: NodeGraphMessageHandler)
        ensures
            r.layer_path is None,
            r.nested_path@.len() == 0,
            r.selected_nodes@.len() == 0,
    {
        NodeGraphMessageHandler {
            layer_path: Option::None,
            nested_path: Vec::new(),
            selected_nodes: Vec::new(),
        }
    }
}

/// One edit operation applied to a network level.
pub enum NetOp {
    Insert { node_id: NodeId, node: DocumentNode },
    SetInput { node_id: NodeId, input_index: usize, input: NodeInput },
    ExtendSetInput { node_id: NodeId, input_index: usize, value: TaggedValue },
    Delete { node_id: NodeId },
    Move { ids: Vec<NodeId>, dx: i64, dy: i64 },
    Shift { node_id: NodeId },
    ToggleHidden { ids: Vec<NodeId> },
    TogglePreview { node_id: NodeId },
}

/// What one operation does to the level it is applied to. The auto-spacing
/// shift asks for distinct ids and otherwise leaves the level unchanged.
pub open spec fn op_effect(op: NetOp, pre: NodeNetwork, post: NodeNetwork, ok: bool) -> bool {
    match op {
        NetOp::Insert { node_id, node } => ok && insert_effect(pre, post, node_id, node),
        NetOp::SetInput { node_id, input_index, input } => set_input_effect(
            pre,
            post,
            ok,
            node_id,
            input_index as int,
            input,
        ),
        NetOp::ExtendSetInput { node_id, input_index, value } => extend_input_effect(
            pre,
            post,
            ok,
            node_id,
            input_index as int,
            value,
        ),
        NetOp::Delete { node_id } => delete_effect(pre, post, ok, node_id),
        NetOp::Move { ids, dx, dy } => ok && move_effect(pre, post, ids@, dx as int, dy as int),
        NetOp::Shift { node_id } => if crate::graph::ids_distinct(pre.nodes@) {
            ok && shift_effect(pre, post, node_id)
        } else {
            !ok && post == pre
        },
        NetOp::ToggleHidden { ids } => ok && hidden_effect(pre, post, ids@),
        NetOp::TogglePreview { node_id } => ok && preview_effect(pre, post, node_id),
    }
}

/// Whether `post` is `pre` with the network reached by `path` replaced by
/// `new_sub` and everything else kept.
pub open spec fn replaced_nested(
    pre: NodeNetwork,
    post: NodeNetwork,
    path: Seq<NodeId>,
    new_sub: NodeNetwork,
) -> bool
    decreases path.len(),
{
    if path.len() == 0 {
        post == new_sub
    } else {
        match spec_get(pre, path[0]) {
            Option::None => post == pre,
            Option::Some(n) => match n.implementation {
                DocumentNodeImplementation::Primitive(_) => post == pre,
                DocumentNodeImplementation::Network(sub) => {
                    let i = index_of_id(pre.nodes@, path[0]);
                    &&& post.nodes@.len() == pre.nodes@.len()
                    &&& forall|k: int|
                        0 <= k < pre.nodes@.len() && k != i ==> post.nodes@[k] == pre.nodes@[k]
                    &&& post.nodes@[i].0 == path[0]
                    &&& post.nodes@[i].1.name == n.name
                    &&& post.nodes@[i].1.inputs == n.inputs
                    &&& post.nodes@[i].1.metadata == n.metadata
                    &&& (post.nodes@[i].1.implementation matches
                        DocumentNodeImplementation::Network(sub2) && replaced_nested(
                        sub,
                        sub2,
                        path.drop_first(),
                        new_sub,
                    ))
                    &&& post.inputs == pre.inputs
                    &&& post.outputs == pre.outputs
                    &&& post.previous_outputs == pre.previous_outputs
                    &&& post.disabled == pre.disabled
                },
            },
        }
    }
}

/// The combined statement the editor makes of one operation applied along
/// the active path: the path resolved and the reached level changed as the
/// operation says, or the path did not resolve and nothing changed.
pub open spec fn applied_at(
    pre: NodeNetwork,
    post: NodeNetwork,
    path: Seq<NodeId>,
    op: NetOp,
    ok: bool,
) -> bool {
    match spec_nested_network(pre, path) {
        Option::None => post == pre && !ok,
        Option::Some(active_pre) => exists|active_post: NodeNetwork|
            #[trigger] op_effect(op, active_pre, active_post, ok) && replaced_nested(
                pre,
                post,
                path,
                active_post,
            ),
    }
}

/// Apply one operation to the network reached by descending `path` from
/// segment `from`. Nothing changes when the path does not resolve.
#[verifier::loop_isolation(false)]
pub fn apply_at_path(root: &mut NodeNetwork, path: &Vec<NodeId>, from: usize, op: NetOp) -> (ok:
    bool)
    requires
        from <= path@.len(),
    ensures
        applied_at(*old(root), *final(root), path@.skip(from as int), op, ok),
    decreases path@.len() - from,
{
    let ghost gop = op;
    let ghost gpath = path@.skip(from as int);
    if from == path.len() {
        proof {
            assert(gpath =~= Seq::<NodeId>::empty());
        }
        let ok: bool = match op {
            NetOp::Insert { node_id, node } => {
                insert_node(root, node_id, node);
                true
            },
            NetOp::SetInput { node_id, input_index, input } => {
                set_node_input(root, node_id, input_index, input)
            },
            NetOp::ExtendSetInput { node_id, input_index, value } => {
                extend_set_input(root, node_id, input_index, value)
            },
            NetOp::Delete { node_id } => { remove_node(root, node_id) },
            NetOp::Move { ids, dx, dy } => {
                move_nodes(root, &ids, dx, dy);
                true
            },
            NetOp::Shift { node_id } => {
                if check_ids_distinct(root) {
                    shift_node(root, node_id);
                    true
                } else {
                    false
                }
            },
            NetOp::ToggleHidden { ids } => {
                toggle_hidden(root, &ids);
                true
            },
            NetOp::TogglePreview { node_id } => {
                toggle_preview(root, node_id);
                true
            },
        };
        proof {
            assert(op_effect(gop, *old(root), *final(root), ok));
            assert(replaced_nested(*old(root), *final(root), gpath, *final(root)));
        }
        return ok;
    }
    if root.nested_network_from(path, from).is_none() {
        return false;
    }
    let segment = path[from];
    let idx = match root.find_index(segment) {
        Option::Some(i) => i,
        Option::None => {
            proof {
                assert(gpath[0] == segment);
            }
            return false;
        },
    };
    let is_network: bool = match &root.nodes[idx].1.implementation {
        DocumentNodeImplementation::Network(_) => true,
        DocumentNodeImplementation::Primitive(_) => false,
    };
    if !is_network {
        proof {
            assert(gpath[0] == segment);
        }
        return false;
    }
    let ghost pre_root = *root;
    let (nid, mut node) = root.nodes.remove(idx);
    let ok: bool;
    match &mut node.implementation {
        DocumentNodeImplementation::Network(sub) => {
            ok = apply_at_path(sub, path, from + 1, op);
        },
        DocumentNodeImplementation::Primitive(_) => {
            proof {
                assert(false);
            }
            ok = false;
        },
    }
    root.nodes.insert(idx, (nid, node));
    proof {
        assert(gpath[0] == segment);
        assert(gpath.drop_first() =~= path@.skip(from as int + 1));
        let old_entry = pre_root.nodes@[idx as int];
        assert(spec_get(pre_root, segment) == Option::Some(old_entry.1));
        let old_sub = impl_network_of(old_entry.1.implementation);
        let new_sub = impl_network_of(root.nodes@[idx as int].1.implementation);
        assert(root.nodes@ =~= pre_root.nodes@.update(idx as int, (nid, node)));
        assert(applied_at(old_sub, new_sub, gpath.drop_first(), gop, ok));
        let active_pre = spec_nested_network(old_sub, gpath.drop_first()).unwrap();
        assert(spec_nested_network(pre_root, gpath) == Option::Some(active_pre));
        let active_post = choose|ap: NodeNetwork|
            #[trigger] op_effect(gop, active_pre, ap, ok) && replaced_nested(
                old_sub,
                new_sub,
                gpath.drop_first(),
                ap,
            );
        assert(op_effect(gop, active_pre, active_post, ok));
        assert(replaced_nested(pre_root, *root, gpath, active_post));
    }
    ok
}

/// The network a node implementation holds; meaningful only for network
/// implementations.
pub open spec fn impl_network_of(i: DocumentNodeImplementation) -> NodeNetwork {
    match i {
        DocumentNodeImplementation::Network(s) => s,
        DocumentNodeImplementation::Primitive(_) => arbitrary(),
    }
}

} // verus!
