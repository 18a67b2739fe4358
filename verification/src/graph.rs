//! The graph store: networks of document nodes, links between them, exposed
//! boundary inputs and outputs, and per-node overrides. A network may nest
//! further networks as node implementations; a nested network is reached by
//! a path of node ids descended from the root.

use vstd::prelude::*;
use crate::value::{TaggedValue, ValueView, value_view};

verus! {

/// Identifier of a node, unique among the live nodes of one network level.
pub type NodeId = u64;

/// A position on the integer layout grid.
#[derive(Clone, Copy, Debug, PartialEq, Eq, Structural)]
pub struct Position {
    pub x: i64,
    pub y: i64,
}

/// Saturating addition on the layout grid axis.
pub open spec fn sat_add(a: int, b: int) -> int {
    if a + b > i64::MAX {
        i64::MAX as int
    } else if a + b < i64::MIN {
        i64::MIN as int
    } else {
        a + b
    }
}

/// Add with saturation at the ends of the grid.
pub fn sat_add_i64(a: i64, b: i64) -> (r: i64)
    ensures
        r as int == sat_add(a as int, b as int),
{
    if b >= 0 {
        if a <= i64::MAX - b {
            a + b
        } else {
            i64::MAX
        }
    } else {
        if a >= i64::MIN - b {
            a + b
        } else {
            i64::MIN
        }
    }
}

impl Position {
    pub fn new(x: i64, y: i64) -> (r: Position)
        ensures
            r == (Position { x, y }),
    {
        Position { x, y }
    }

    /// The position displaced by `(dx, dy)`, saturating at the grid ends.
    pub fn displaced(self, dx: i64, dy: i64) -> (r: Position)
        ensures
            r == self.spec_displaced(dx as int, dy as int),
    {
        Position { x: sat_add_i64(self.x, dx), y: sat_add_i64(self.y, dy) }
    }

    /// The position displaced by `(dx, dy)`, saturating at the grid ends.
    pub open spec fn spec_displaced(self, dx: int, dy: int) -> Position {
        Position { x: sat_add(self.x as int, dx) as i64, y: sat_add(self.y as int, dy) as i64 }
    }
}

/// One output slot of the network: a node and one of its output indices.
#[derive(Clone, Copy, Debug, PartialEq, Eq, Structural)]
pub struct NodeOutput {
    pub node_id: NodeId,
    pub node_output_index: usize,
}

impl NodeOutput {
    pub fn new(node_id: NodeId, node_output_index: usize) -> (r: NodeOutput)
        ensures
            r == (NodeOutput { node_id, node_output_index }),
    {
        NodeOutput { node_id, node_output_index }
    }
}

/// One input slot of a node: a literal value (shown or hidden), a link to
/// another node's output, or a placeholder for the enclosing network's own
/// boundary input.
#[derive(Debug)]
pub enum NodeInput {
    Value { tagged_value: TaggedValue, exposed: bool },
    Node { node_id: NodeId, output_index: usize, lambda: bool },
    Network,
}

/// The mathematical shape of one input slot.
pub enum InputView {
    Value { value: ValueView, exposed: bool },
    Node { node_id: NodeId, output_index: usize, lambda: bool },
    Network,
}

/// The shape of one input slot.
pub open spec fn input_view(i: NodeInput) -> InputView {
    match i {
        NodeInput::Value { tagged_value, exposed } => InputView::Value {
            value: value_view(tagged_value),
            exposed,
        },
        NodeInput::Node { node_id, output_index, lambda } => InputView::Node {
            node_id,
            output_index,
            lambda,
        },
        NodeInput::Network => InputView::Network,
    }
}

/// The shapes of a list of input slots.
pub open spec fn inputs_view(s: Seq<NodeInput>) -> Seq<InputView> {
    s.map_values(|i: NodeInput| input_view(i))
}

/// Viewing input slots commutes with appending one slot.
pub proof fn lemma_inputs_view_push(s: Seq<NodeInput>, i: NodeInput)
    ensures
        inputs_view(s.push(i)) =~= inputs_view(s).push(input_view(i)),
{
}

impl NodeInput {
    /// Whether the slot is exposed in the graph interface: links and
    /// boundary placeholders always are, a literal only when shown.
    pub open spec fn spec_is_exposed(&self) -> bool {
        match *self {
            NodeInput::Value { tagged_value: _, exposed } => exposed,
            NodeInput::Node { .. } => true,
            NodeInput::Network => true,
        }
    }

    /// Whether the slot is exposed in the graph interface.
    #[verifier::when_used_as_spec(spec_is_exposed)]
    pub fn is_exposed(&self) -> (r: bool)
        ensures
            r == self.spec_is_exposed(),
    {
        match self {
            NodeInput::Value { tagged_value: _, exposed } => *exposed,
            NodeInput::Node { .. } => true,
            NodeInput::Network => true,
        }
    }

    /// A literal input slot.
    pub fn value(tagged_value: TaggedValue, exposed: bool) -> (r: NodeInput)
        ensures
            r == (NodeInput::Value { tagged_value, exposed }),
    {
        NodeInput::Value { tagged_value, exposed }
    }

    /// A link to another node's output.
    pub fn node(node_id: NodeId, output_index: usize) -> (r: NodeInput)
        ensures
            r == (NodeInput::Node { node_id, output_index, lambda: false }),
    {
        NodeInput::Node { node_id, output_index, lambda: false }
    }
}

impl Clone for NodeInput {
    /// A clone keeps the shape of the slot.
    fn clone(&self) -> (res: Self)
        ensures
            input_view(res) == input_view(*self),
    {
        match self {
            NodeInput::Value { tagged_value, exposed } => NodeInput::Value {
                tagged_value: tagged_value.clone(),
                exposed: *exposed,
            },
            NodeInput::Node { node_id, output_index, lambda } => NodeInput::Node {
                node_id: *node_id,
                output_index: *output_index,
                lambda: *lambda,
            },
            NodeInput::Network => NodeInput::Network,
        }
    }
}

/// Layout metadata of a node.
#[derive(Clone, Copy, Debug, PartialEq, Eq, Structural)]
pub struct DocumentNodeMetadata {
    pub position: Position,
}

/// How a node computes: a primitive operation named in the registered
/// catalog, or a nested network of further nodes.
#[derive(Debug)]
pub enum DocumentNodeImplementation {
    Primitive(String),
    Network(NodeNetwork),
}

/// One placed node: display name, ordered input slots, implementation and
/// layout position.
#[derive(Debug)]
pub struct DocumentNode {
    pub name: String,
    pub inputs: Vec<NodeInput>,
    pub implementation: DocumentNodeImplementation,
    pub metadata: DocumentNodeMetadata,
}

/// A network of nodes at one nesting level.
#[derive(Debug)]
pub struct NodeNetwork {
    pub nodes: Vec<(NodeId, DocumentNode)>,
    pub inputs: Vec<NodeId>,
    pub outputs: Vec<NodeOutput>,
    pub previous_outputs: Option<Vec<NodeOutput>>,
    pub disabled: Vec<NodeId>,
}

/// The shape of a node implementation.
pub enum ImplView {
    Primitive(Seq<char>),
    Network(NetView),
}

/// The shape of one placed node.
pub struct NodeView {
    pub name: Seq<char>,
    pub inputs: Seq<InputView>,
    pub implementation: ImplView,
    pub position: Position,
}

/// The shape of a network.
pub struct NetView {
    pub nodes: Seq<(NodeId, NodeView)>,
    pub inputs: Seq<NodeId>,
    pub outputs: Seq<NodeOutput>,
    pub previous_outputs: Option<Seq<NodeOutput>>,
    pub disabled: Seq<NodeId>,
}

/// The shape of a node.
pub open spec fn node_view(n: DocumentNode) -> NodeView
    decreases n,
{
    NodeView {
        name: n.name@,
        inputs: inputs_view(n.inputs@),
        implementation: impl_view(n.implementation),
        position: n.metadata.position,
    }
}

/// The shape of a node implementation.
pub open spec fn impl_view(i: DocumentNodeImplementation) -> ImplView
    decreases i,
{
    match i {
        DocumentNodeImplementation::Primitive(name) => ImplView::Primitive(name@),
        DocumentNodeImplementation::Network(sub) => ImplView::Network(net_view(sub)),
    }
}

/// The shapes of a network's node entries, in order.
pub open spec fn entries_view(s: Seq<(NodeId, DocumentNode)>) -> Seq<(NodeId, NodeView)>
    decreases s,
{
    if s.len() == 0 {
        Seq::empty()
    } else {
        entries_view(s.drop_last()).push((s.last().0, node_view(s.last().1)))
    }
}

/// The shape of a network.
pub open spec fn net_view(n: NodeNetwork) -> NetView
    decreases n,
{
    NetView {
        nodes: entries_view(n.nodes@),
        inputs: n.inputs@,
        outputs: n.outputs@,
        previous_outputs: match n.previous_outputs {
            Option::None => Option::None,
            Option::Some(v) => Option::Some(v@),
        },
        disabled: n.disabled@,
    }
}

/// Entry views are the entry-wise node views.
pub proof fn lemma_entries_view(s: Seq<(NodeId, DocumentNode)>)
    ensures
        entries_view(s).len() == s.len(),
        forall|i: int|
            0 <= i < s.len() ==> #[trigger] entries_view(s)[i] == (s[i].0, node_view(s[i].1)),
    decreases s,
{
    if s.len() > 0 {
        lemma_entries_view(s.drop_last());
    }
}

/// Whether some entry carries the id.
pub open spec fn has_id(s: Seq<(NodeId, DocumentNode)>, id: NodeId) -> bool {
    exists|i: int| 0 <= i < s.len() && s[i].0 == id
}

/// The index of the entry carrying the id, if one does.
pub open spec fn index_of_id(s: Seq<(NodeId, DocumentNode)>, id: NodeId) -> int
    decreases s.len(),
{
    if s.len() == 0 {
        -1
    } else if s[0].0 == id {
        0
    } else {
        let rest = index_of_id(s.drop_first(), id);
        if rest == -1 {
            -1
        } else {
            rest + 1
        }
    }
}

/// The index found by `index_of_id` is the first entry carrying the id.
pub proof fn lemma_index_of_id(s: Seq<(NodeId, DocumentNode)>, id: NodeId)
    ensures
        has_id(s, id) ==> {
            let i = index_of_id(s, id);
            &&& 0 <= i < s.len()
            &&& s[i].0 == id
            &&& forall|j: int| 0 <= j < i ==> s[j].0 != id
        },
        !has_id(s, id) ==> index_of_id(s, id) == -1,
    decreases s.len(),
{
    if s.len() > 0 {
        let rest = s.drop_first();
        lemma_index_of_id(rest, id);
        assert(forall|j: int| 0 <= j < rest.len() ==> rest[j] == s[j + 1]);
        if s[0].0 != id {
            if has_id(s, id) {
                let w = choose|w: int| 0 <= w < s.len() && s[w].0 == id;
                assert(rest[w - 1].0 == id);
                assert(has_id(rest, id));
                let i = index_of_id(rest, id);
                assert(index_of_id(s, id) == i + 1);
                assert forall|j: int| 0 <= j < i + 1 implies s[j].0 != id by {
                    if j > 0 {
                        assert(rest[j - 1].0 != id);
                    }
                }
            } else {
                assert(!has_id(rest, id)) by {
                    if has_id(rest, id) {
                        let w = choose|w: int| 0 <= w < rest.len() && rest[w].0 == id;
                        assert(s[w + 1].0 == id);
                    }
                }
            }
        }
    }
}

/// Whether the entry ids are pairwise distinct.
pub open spec fn ids_distinct(s: Seq<(NodeId, DocumentNode)>) -> bool {
    forall|i: int, j: int| 0 <= i < j < s.len() ==> s[i].0 != s[j].0
}

/// The node stored under an id, if any.
pub open spec fn spec_get(net: NodeNetwork, id: NodeId) -> Option<DocumentNode> {
    if has_id(net.nodes@, id) {
        Option::Some(net.nodes@[index_of_id(net.nodes@, id)].1)
    } else {
        Option::None
    }
}

impl NodeNetwork {
    /// An empty network with no nodes, boundary inputs or outputs.
    pub fn empty() -> (r: NodeNetwork)
        ensures
            r.nodes@.len() == 0,
            r.inputs@.len() == 0,
            r.outputs@.len() == 0,
            r.previous_outputs is None,
            r.disabled@.len() == 0,
    {
        NodeNetwork {
            nodes: Vec::new(),
            inputs: Vec::new(),
            outputs: Vec::new(),
            previous_outputs: Option::None,
            disabled: Vec::new(),
        }
    }

    /// The position of the entry carrying the id, if one does.
    pub fn find_index(&self, id: NodeId) -> (r: Option<usize>)
        ensures
            match r {
                Option::Some(i) => has_id(self.nodes@, id) && i == index_of_id(self.nodes@, id)
                    && i < self.nodes@.len() && self.nodes@[i as int].0 == id,
                Option::None => !has_id(self.nodes@, id),
            },
    {
        let mut i: usize = 0;
        while i < self.nodes.len()
            invariant
                0 <= i <= self.nodes@.len(),
                forall|j: int| 0 <= j < i ==> self.nodes@[j].0 != id,
            decreases self.nodes@.len() - i,
        {
            if self.nodes[i].0 == id {
                proof {
                    assert(self.nodes@[i as int].0 == id);
                    lemma_index_of_id(self.nodes@, id);
                }
                return Option::Some(i);
            }
            i = i + 1;
        }
        Option::None
    }

    /// Read access to the node stored under an id.
    pub fn get_node(&self, id: NodeId) -> (r: Option<&DocumentNode>)
        ensures
            match r {
                Option::Some(n) => spec_get(*self, id) == Option::Some(*n),
                Option::None => spec_get(*self, id) is None,
            },
    {
        match self.find_index(id) {
            Option::Some(i) => Option::Some(&self.nodes[i].1),
            Option::None => Option::None,
        }
    }

    /// Whether a node with the id exists at this level.
    pub fn contains_node(&self, id: NodeId) -> (r: bool)
        ensures
            r == has_id(self.nodes@, id),
    {
        self.find_index(id).is_some()
    }

    /// Whether the id is one of the network's current outputs.
    pub open spec fn spec_outputs_contain(&self, id: NodeId) -> bool {
        exists|i: int| 0 <= i < self.outputs@.len() && self.outputs@[i].node_id == id
    }

    /// Whether the id is one of the network's current outputs.
    pub fn outputs_contain(&self, id: NodeId) -> (r: bool)
        ensures
            r == self.spec_outputs_contain(id),
    {
        let mut i: usize = 0;
        while i < self.outputs.len()
            invariant
                0 <= i <= self.outputs@.len(),
                forall|j: int| 0 <= j < i ==> self.outputs@[j].node_id != id,
            decreases self.outputs@.len() - i,
        {
            if self.outputs[i].node_id == id {
                return true;
            }
            i = i + 1;
        }
        false
    }

    /// The outputs before any preview retargeting: the stashed outputs when
    /// a preview is active, the current outputs otherwise.
    pub open spec fn spec_original_outputs(&self) -> Seq<NodeOutput> {
        match self.previous_outputs {
            Option::Some(v) => v@,
            Option::None => self.outputs@,
        }
    }

    /// Whether the id is among the outputs before any preview retargeting.
    pub fn original_outputs_contain(&self, id: NodeId) -> (r: bool)
        ensures
            r == exists|i: int|
                0 <= i < self.spec_original_outputs().len() && self.spec_original_outputs()[i].node_id
                    == id,
    {
        let outputs: &Vec<NodeOutput> = match &self.previous_outputs {
            Option::Some(v) => v,
            Option::None => &self.outputs,
        };
        let mut i: usize = 0;
        while i < outputs.len()
            invariant
                0 <= i <= outputs@.len(),
                outputs@ == self.spec_original_outputs(),
                forall|j: int| 0 <= j < i ==> outputs@[j].node_id != id,
            decreases outputs@.len() - i,
        {
            if outputs[i].node_id == id {
                return true;
            }
            i = i + 1;
        }
        false
    }

    /// Whether the id is among the stashed outputs, when a stash exists.
    pub fn previous_outputs_contain(&self, id: NodeId) -> (r: Option<bool>)
        ensures
            match self.previous_outputs {
                Option::Some(v) => r == Option::Some(
                    exists|i: int| 0 <= i < v@.len() && v@[i].node_id == id,
                ),
                Option::None => r is None,
            },
    {
        match &self.previous_outputs {
            Option::Some(v) => {
                proof {
                    assert(self.previous_outputs is Some);
                    assert(self.previous_outputs.unwrap() == *v);
                }
                let mut i: usize = 0;
                while i < v.len()
                    invariant
                        0 <= i <= v@.len(),
                        self.previous_outputs is Some,
                        self.previous_outputs.unwrap()@ == v@,
                        forall|j: int| 0 <= j < i ==> v@[j].node_id != id,
                    decreases v@.len() - i,
                {
                    if v[i].node_id == id {
                        proof {
                            assert(v@[i as int].node_id == id);
                        }
                        return Option::Some(true);
                    }
                    i = i + 1;
                }
                proof {
                    assert(!(exists|k: int| 0 <= k < v@.len() && v@[k].node_id == id)) by {
                        if exists|k: int| 0 <= k < v@.len() && v@[k].node_id == id {
                            let k = choose|k: int| 0 <= k < v@.len() && v@[k].node_id == id;
                        }
                    }
                }
                Option::Some(false)
            },
            Option::None => Option::None,
        }
    }
}

/// Whether a plain id list contains the id.
pub fn id_list_contains(list: &Vec<NodeId>, id: NodeId) -> (r: bool)
    ensures
        r == list@.contains(id),
{
    let mut i: usize = 0;
    while i < list.len()
        invariant
            0 <= i <= list@.len(),
            forall|j: int| 0 <= j < i ==> list@[j] != id,
        decreases list@.len() - i,
    {
        if list[i] == id {
            proof {
                assert(list@[i as int] == id);
            }
            return true;
        }
        i = i + 1;
    }
    proof {
        assert(!list@.contains(id)) by {
            if list@.contains(id) {
                let j = choose|j: int| 0 <= j < list@.len() && list@[j] == id;
            }
        }
    }
    false
}

/// The nested network reached by descending the path from this network,
/// through each named node's network implementation.
pub open spec fn spec_nested_network(net: NodeNetwork, path: Seq<NodeId>) -> Option<NodeNetwork>
    decreases path.len(),
{
    if path.len() == 0 {
        Option::Some(net)
    } else {
        match spec_get(net, path[0]) {
            Option::None => Option::None,
            Option::Some(node) => match node.implementation {
                DocumentNodeImplementation::Primitive(_) => Option::None,
                DocumentNodeImplementation::Network(sub) => spec_nested_network(
                    sub,
                    path.drop_first(),
                ),
            },
        }
    }
}

impl NodeNetwork {
    /// The nested network reached by descending `path` starting at segment
    /// `from`, if every segment names a node with a network implementation.
    pub fn nested_network_from<'a>(&'a self, path: &Vec<NodeId>, from: usize) -> (r: Option<
        &'a NodeNetwork,
    >)
        requires
            from <= path@.len(),
        ensures
            match r {
                Option::Some(sub) => spec_nested_network(*self, path@.skip(from as int))
                    == Option::Some(*sub),
                Option::None => spec_nested_network(*self, path@.skip(from as int)) is None,
            },
        decreases path@.len() - from,
    {
        if from == path.len() {
            proof {
                assert(path@.skip(from as int) =~= Seq::<NodeId>::empty());
            }
            return Option::Some(self);
        }
        proof {
            assert(path@.skip(from as int)[0] == path@[from as int]);
            assert(path@.skip(from as int).drop_first() =~= path@.skip(from as int + 1));
        }
        match self.get_node(path[from]) {
            Option::None => Option::None,
            Option::Some(node) => match &node.implementation {
                DocumentNodeImplementation::Primitive(_) => Option::None,
                DocumentNodeImplementation::Network(sub) => sub.nested_network_from(
                    path,
                    from + 1,
                ),
            },
        }
    }

    /// The nested network reached by descending the whole path.
    pub fn nested_network<'a>(&'a self, path: &Vec<NodeId>) -> (r: Option<&'a NodeNetwork>)
        ensures
            match r {
                Option::Some(sub) => spec_nested_network(*self, path@) == Option::Some(*sub),
                Option::None => spec_nested_network(*self, path@) is None,
            },
    {
        proof {
            assert(path@.skip(0) =~= path@);
        }
        self.nested_network_from(path, 0)
    }
}

impl Clone for DocumentNodeImplementation {
    /// A clone keeps the shape of the implementation.
    fn clone(&self) -> (res: Self)
        ensures
            impl_view(res) == impl_view(*self),
        decreases *self,
    {
        match self {
            DocumentNodeImplementation::Primitive(name) => DocumentNodeImplementation::Primitive(
                name.clone(),
            ),
            DocumentNodeImplementation::Network(sub) => DocumentNodeImplementation::Network(
                sub.clone(),
            ),
        }
    }
}

impl Clone for DocumentNode {
    /// A clone keeps the shape of the node.
    fn clone(&self) -> (res: Self)
        ensures
            node_view(res) == node_view(*self),
        decreases *self,
    {
        let mut inputs: Vec<NodeInput> = Vec::new();
        let mut i: usize = 0;
        while i < self.inputs.len()
            invariant
                0 <= i <= self.inputs@.len(),
                inputs_view(inputs@) =~= inputs_view(self.inputs@).take(i as int),
            decreases self.inputs@.len() - i,
        {
            let input = self.inputs[i].clone();
            proof {
                lemma_inputs_view_push(inputs@, input);
                assert(inputs_view(self.inputs@)[i as int] == input_view(self.inputs@[i as int]));
                assert(inputs_view(inputs@).push(input_view(input)) =~= inputs_view(
                    self.inputs@,
                ).take((i + 1) as int));
            }
            inputs.push(input);
            i = i + 1;
        }
        proof {
            assert(inputs_view(inputs@) =~= inputs_view(self.inputs@));
        }
        DocumentNode {
            name: self.name.clone(),
            inputs,
            implementation: self.implementation.clone(),
            metadata: self.metadata,
        }
    }
}

impl Clone for NodeNetwork {
    /// A clone keeps the shape of the network.
    fn clone(&self) -> (res: Self)
        ensures
            net_view(res) == net_view(*self),
        decreases *self,
    {
        let mut nodes: Vec<(NodeId, DocumentNode)> = Vec::new();
        let mut i: usize = 0;
        while i < self.nodes.len()
            invariant
                0 <= i <= self.nodes@.len(),
                entries_view(nodes@) =~= entries_view(self.nodes@).take(i as int),
            decreases self.nodes@.len() - i,
        {
            let id = self.nodes[i].0;
            let node = self.nodes[i].1.clone();
            proof {
                lemma_entries_view(nodes@.push((id, node)));
                lemma_entries_view(nodes@);
                lemma_entries_view(self.nodes@);
                assert(entries_view(nodes@.push((id, node))) =~= entries_view(self.nodes@).take(
                    (i + 1) as int,
                ));
            }
            nodes.push((id, node));
            i = i + 1;
        }
        proof {
            lemma_entries_view(self.nodes@);
            assert(entries_view(nodes@) =~= entries_view(self.nodes@).take(
                self.nodes@.len() as int,
            ));
            assert(entries_view(self.nodes@).take(self.nodes@.len() as int) =~= entries_view(
                self.nodes@,
            ));
        }
        let previous_outputs = match &self.previous_outputs {
            Option::Some(v) => Option::Some(v.clone()),
            Option::None => Option::None,
        };
        let res = NodeNetwork {
            nodes,
            inputs: self.inputs.clone(),
            outputs: self.outputs.clone(),
            previous_outputs,
            disabled: self.disabled.clone(),
        };
        proof {
            assert(res.inputs@ =~= self.inputs@);
            assert(res.outputs@ =~= self.outputs@);
            assert(res.disabled@ =~= self.disabled@);
            match &self.previous_outputs {
                Option::Some(v) => {
                    assert(res.previous_outputs is Some);
                    assert(res.previous_outputs.unwrap()@ =~= v@);
                },
                Option::None => {},
            }
            assert(net_view(res) == net_view(*self));
        }
        res
    }
}

} // verus!
