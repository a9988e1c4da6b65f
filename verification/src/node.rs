//! Node-level classifications of the graph nodes a dump can describe.

use vstd::prelude::*;

verus! {

/// A reference to a member function together with its calling context.
#[derive(Debug, PartialEq, Clone)]
pub struct FunctionReference {
    pub member_name: String,
    pub self_context: bool,
}

/// The node kinds recognized at the graph level, with the fields each one
/// carries.
#[derive(Debug, PartialEq, Clone)]
pub enum Nodes {
    Comment { width: i32, height: i32, comment: String },
    CallFunction { function_reference: FunctionReference },
    VariableGet {},
    CustomEvent { custom_function_name: String },
    InputAxisEvent {
        custom_function_name: String,
        input_axis_name: String,
        override_parent_binding: bool,
    },
}

} // verus!
