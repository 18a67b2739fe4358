//! The registered catalog of node type descriptors: for every primitive
//! node type, its ordered input slots with their default literals and value
//! kinds, and its ordered output slots. Unknown names resolve to nothing and
//! degrade gracefully in the flattener.

use vstd::prelude::*;
use vstd::string::StringExecFns;
use crate::frontend::{FrontendGraphDataType, FrontendNodeType};
use crate::graph::{InputView, NodeInput, input_view};
use crate::value::{TaggedValue, ValueView};

verus! {

/// One input slot of a node type: display name, value kind and the default
/// input used when nothing is connected.
#[derive(Debug)]
pub struct DocumentInputType {
    pub name: String,
    pub data_type: FrontendGraphDataType,
    pub default: NodeInput,
}

/// One output slot of a node type: display name and value kind.
#[derive(Debug)]
pub struct DocumentOutputType {
    pub name: String,
    pub data_type: FrontendGraphDataType,
}

/// One node type of the catalog.
#[derive(Debug)]
pub struct DocumentNodeType {
    pub name: String,
    pub category: String,
    pub inputs: Vec<DocumentInputType>,
    pub outputs: Vec<DocumentOutputType>,
}

/// The shape of an input slot descriptor.
pub struct InputTypeView {
    pub name: Seq<char>,
    pub data_type: FrontendGraphDataType,
    pub default: InputView,
}

/// The shape of an output slot descriptor.
pub struct OutputTypeView {
    pub name: Seq<char>,
    pub data_type: FrontendGraphDataType,
}

/// The shape of a node type descriptor.
pub struct NodeTypeView {
    pub name: Seq<char>,
    pub category: Seq<char>,
    pub inputs: Seq<InputTypeView>,
    pub outputs: Seq<OutputTypeView>,
}

/// The shape of an input slot descriptor.
pub open spec fn input_type_view(t: DocumentInputType) -> InputTypeView {
    InputTypeView { name: t.name@, data_type: t.data_type, default: input_view(t.default) }
}

/// The shapes of a list of input slot descriptors.
pub open spec fn input_types_view(s: Seq<DocumentInputType>) -> Seq<InputTypeView> {
    s.map_values(|t: DocumentInputType| input_type_view(t))
}

/// The shape of an output slot descriptor.
pub open spec fn output_type_view(t: DocumentOutputType) -> OutputTypeView {
    OutputTypeView { name: t.name@, data_type: t.data_type }
}

/// The shapes of a list of output slot descriptors.
pub open spec fn output_types_view(s: Seq<DocumentOutputType>) -> Seq<OutputTypeView> {
    s.map_values(|t: DocumentOutputType| output_type_view(t))
}

/// The shape of a node type descriptor.
pub open spec fn node_type_view(t: DocumentNodeType) -> NodeTypeView {
    NodeTypeView {
        name: t.name@,
        category: t.category@,
        inputs: input_types_view(t.inputs@),
        outputs: output_types_view(t.outputs@),
    }
}

/// An exposed empty-value default slot.
pub open spec fn default_empty_exposed(name: Seq<char>, data_type: FrontendGraphDataType)
    -> InputTypeView {
    InputTypeView {
        name,
        data_type,
        default: InputView::Value { value: ValueView::Empty, exposed: true },
    }
}

/// A hidden zero-number default slot.
pub open spec fn default_zero_hidden(name: Seq<char>) -> InputTypeView {
    InputTypeView {
        name,
        data_type: FrontendGraphDataType::Number,
        default: InputView::Value { value: ValueView::Number(0), exposed: false },
    }
}

/// The "Identity" node type: one exposed input passed through unchanged.
pub open spec fn spec_identity_type() -> NodeTypeView {
    NodeTypeView {
        name: "Identity"@,
        category: "General"@,
        inputs: seq![default_empty_exposed("In"@, FrontendGraphDataType::General)],
        outputs: seq![OutputTypeView { name: "Out"@, data_type: FrontendGraphDataType::General }],
    }
}

/// The "Input" node type: the boundary node fed by the enclosing network.
pub open spec fn spec_input_type() -> NodeTypeView {
    NodeTypeView {
        name: "Input"@,
        category: "Structural"@,
        inputs: seq![
            InputTypeView {
                name: "In"@,
                data_type: FrontendGraphDataType::General,
                default: InputView::Network,
            },
        ],
        outputs: seq![OutputTypeView { name: "Out"@, data_type: FrontendGraphDataType::General }],
    }
}

/// The "Output" node type: the node whose input becomes the network's
/// result.
pub open spec fn spec_output_type() -> NodeTypeView {
    NodeTypeView {
        name: "Output"@,
        category: "Structural"@,
        inputs: seq![default_empty_exposed("In"@, FrontendGraphDataType::General)],
        outputs: seq![OutputTypeView { name: "Out"@, data_type: FrontendGraphDataType::General }],
    }
}

/// The "Value" node type: a hidden numeric literal handed on unchanged.
pub open spec fn spec_value_type() -> NodeTypeView {
    NodeTypeView {
        name: "Value"@,
        category: "Math"@,
        inputs: seq![default_zero_hidden("Value"@)],
        outputs: seq![OutputTypeView { name: "Out"@, data_type: FrontendGraphDataType::Number }],
    }
}

/// The "Add" node type: the saturating sum of two numbers.
pub open spec fn spec_add_type() -> NodeTypeView {
    NodeTypeView {
        name: "Add"@,
        category: "Math"@,
        inputs: seq![
            InputTypeView {
                name: "Left"@,
                data_type: FrontendGraphDataType::Number,
                default: InputView::Value { value: ValueView::Number(0), exposed: true },
            },
            default_zero_hidden("Right"@),
        ],
        outputs: seq![OutputTypeView { name: "Sum"@, data_type: FrontendGraphDataType::Number }],
    }
}

/// The "Exposure" node type: a raster frame adjusted by a hidden amount.
pub open spec fn spec_exposure_type() -> NodeTypeView {
    NodeTypeView {
        name: "Exposure"@,
        category: "Raster"@,
        inputs: seq![
            default_empty_exposed("In"@, FrontendGraphDataType::Raster),
            default_zero_hidden("Exposure"@),
        ],
        outputs: seq![OutputTypeView { name: "Out"@, data_type: FrontendGraphDataType::Raster }],
    }
}

/// The descriptor registered under a node type name, if any.
pub open spec fn spec_resolve(name: Seq<char>) -> Option<NodeTypeView> {
    if name == "Identity"@ {
        Option::Some(spec_identity_type())
    } else if name == "Input"@ {
        Option::Some(spec_input_type())
    } else if name == "Output"@ {
        Option::Some(spec_output_type())
    } else if name == "Value"@ {
        Option::Some(spec_value_type())
    } else if name == "Add"@ {
        Option::Some(spec_add_type())
    } else if name == "Exposure"@ {
        Option::Some(spec_exposure_type())
    } else {
        Option::None
    }
}

/// Whether a string equals a literal.
pub fn string_is(name: &String, lit: &str) -> (r: bool)
    ensures
        r == (name@ == lit@),
{
    let owned = lit.to_owned();
    *name == owned
}

/// An input slot descriptor.
fn input_type(name: &str, data_type: FrontendGraphDataType, default: NodeInput) -> (r:
    DocumentInputType)
    ensures
        input_type_view(r) == (InputTypeView { name: name@, data_type, default: input_view(default) }),
{
    DocumentInputType { name: name.to_owned(), data_type, default }
}

/// An output slot descriptor.
fn output_type(name: &str, data_type: FrontendGraphDataType) -> (r: DocumentOutputType)
    ensures
        output_type_view(r) == (OutputTypeView { name: name@, data_type }),
{
    DocumentOutputType { name: name.to_owned(), data_type }
}

/// An exposed empty-value default input.
fn empty_exposed_input(name: &str, data_type: FrontendGraphDataType) -> (r: DocumentInputType)
    ensures
        input_type_view(r) == default_empty_exposed(name@, data_type),
{
    input_type(name, data_type, NodeInput::Value { tagged_value: TaggedValue::Empty, exposed: true })
}

/// A hidden zero-number default input.
fn zero_hidden_input(name: &str) -> (r: DocumentInputType)
    ensures
        input_type_view(r) == default_zero_hidden(name@),
{
    input_type(
        name,
        FrontendGraphDataType::Number,
        NodeInput::Value { tagged_value: TaggedValue::Number(0), exposed: false },
    )
}

/// A descriptor with one input and one output slot.
fn unary_type(
    name: &str,
    category: &str,
    input: DocumentInputType,
    output: DocumentOutputType,
) -> (r: DocumentNodeType)
    ensures
        node_type_view(r) == (NodeTypeView {
            name: name@,
            category: category@,
            inputs: seq![input_type_view(input)],
            outputs: seq![output_type_view(output)],
        }),
{
    let ghost iv = input_type_view(input);
    let ghost ov = output_type_view(output);
    let mut inputs: Vec<DocumentInputType> = Vec::new();
    inputs.push(input);
    let mut outputs: Vec<DocumentOutputType> = Vec::new();
    outputs.push(output);
    proof {
        assert(input_types_view(inputs@) =~= seq![iv]);
        assert(output_types_view(outputs@) =~= seq![ov]);
    }
    DocumentNodeType { name: name.to_owned(), category: category.to_owned(), inputs, outputs }
}

/// A descriptor with two input slots and one output slot.
fn binary_type(
    name: &str,
    category: &str,
    first: DocumentInputType,
    second: DocumentInputType,
    output: DocumentOutputType,
) -> (r: DocumentNodeType)
    ensures
        node_type_view(r) == (NodeTypeView {
            name: name@,
            category: category@,
            inputs: seq![input_type_view(first), input_type_view(second)],
            outputs: seq![output_type_view(output)],
        }),
{
    let ghost iv0 = input_type_view(first);
    let ghost iv1 = input_type_view(second);
    let ghost ov = output_type_view(output);
    let mut inputs: Vec<DocumentInputType> = Vec::new();
    inputs.push(first);
    inputs.push(second);
    let mut outputs: Vec<DocumentOutputType> = Vec::new();
    outputs.push(output);
    proof {
        assert(input_types_view(inputs@) =~= seq![iv0, iv1]);
        assert(output_types_view(outputs@) =~= seq![ov]);
    }
    DocumentNodeType { name: name.to_owned(), category: category.to_owned(), inputs, outputs }
}

/// Resolve a node type name against the registered catalog.
pub fn resolve_document_node_type(name: &String) -> (r: Option<DocumentNodeType>)
    ensures
        match r {
            Option::Some(t) => spec_resolve(name@) == Option::Some(node_type_view(t)),
            Option::None => spec_resolve(name@) is None,
        },
{
    if string_is(name, "Identity") {
        Option::Some(
            unary_type(
                "Identity",
                "General",
                empty_exposed_input("In", FrontendGraphDataType::General),
                output_type("Out", FrontendGraphDataType::General),
            ),
        )
    } else if string_is(name, "Input") {
        Option::Some(
            unary_type(
                "Input",
                "Structural",
                input_type("In", FrontendGraphDataType::General, NodeInput::Network),
                output_type("Out", FrontendGraphDataType::General),
            ),
        )
    } else if string_is(name, "Output") {
        Option::Some(
            unary_type(
                "Output",
                "Structural",
                empty_exposed_input("In", FrontendGraphDataType::General),
                output_type("Out", FrontendGraphDataType::General),
            ),
        )
    } else if string_is(name, "Value") {
        Option::Some(
            unary_type(
                "Value",
                "Math",
                zero_hidden_input("Value"),
                output_type("Out", FrontendGraphDataType::Number),
            ),
        )
    } else if string_is(name, "Add") {
        Option::Some(
            binary_type(
                "Add",
                "Math",
                input_type(
                    "Left",
                    FrontendGraphDataType::Number,
                    NodeInput::Value { tagged_value: TaggedValue::Number(0), exposed: true },
                ),
                zero_hidden_input("Right"),
                output_type("Sum", FrontendGraphDataType::Number),
            ),
        )
    } else if string_is(name, "Exposure") {
        Option::Some(
            binary_type(
                "Exposure",
                "Raster",
                empty_exposed_input("In", FrontendGraphDataType::Raster),
                zero_hidden_input("Exposure"),
                output_type("Out", FrontendGraphDataType::Raster),
            ),
        )
    } else {
        Option::None
    }
}

/// The default input registered for one slot of a node type, if the type is
/// known and has that slot.
pub open spec fn spec_default_input(name: Seq<char>, index: int) -> Option<InputView> {
    match spec_resolve(name) {
        Option::None => Option::None,
        Option::Some(t) => if 0 <= index < t.inputs.len() {
            Option::Some(t.inputs[index].default)
        } else {
            Option::None
        },
    }
}

/// The default input for one slot of a named node type.
pub fn default_node_input(name: &String, index: usize) -> (r: Option<NodeInput>)
    ensures
        match r {
            Option::Some(i) => spec_default_input(name@, index as int) == Option::Some(
                input_view(i),
            ),
            Option::None => spec_default_input(name@, index as int) is None,
        },
{
    match resolve_document_node_type(name) {
        Option::None => Option::None,
        Option::Some(mut t) => {
            if index < t.inputs.len() {
                let ghost before = t.inputs@;
                let slot = t.inputs.remove(index);
                proof {
                    assert(input_types_view(before)[index as int] == input_type_view(
                        before[index as int],
                    ));
                }
                Option::Some(slot.default)
            } else {
                Option::None
            }
        },
    }
}

/// The palette entries for every registered node type.
pub fn collect_node_types() -> (r: Vec<FrontendNodeType>)
    ensures
        r@.len() == 6,
        r@[0].name@ == "Identity"@ && r@[0].category@ == "General"@,
        r@[1].name@ == "Input"@ && r@[1].category@ == "Structural"@,
        r@[2].name@ == "Output"@ && r@[2].category@ == "Structural"@,
        r@[3].name@ == "Value"@ && r@[3].category@ == "Math"@,
        r@[4].name@ == "Add"@ && r@[4].category@ == "Math"@,
        r@[5].name@ == "Exposure"@ && r@[5].category@ == "Raster"@,
{
    let mut out: Vec<FrontendNodeType> = Vec::new();
    out.push(FrontendNodeType::new("Identity", "General"));
    out.push(FrontendNodeType::new("Input", "Structural"));
    out.push(FrontendNodeType::new("Output", "Structural"));
    out.push(FrontendNodeType::new("Value", "Math"));
    out.push(FrontendNodeType::new("Add", "Math"));
    out.push(FrontendNodeType::new("Exposure", "Raster"));
    out
}

} // verus!
