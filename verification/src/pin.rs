//! Pin-level data: a node's connection points and their categories.

use vstd::prelude::*;

use crate::parser::ast::Uuid;

verus! {

/// A named link from a pin to another node or pin.
#[derive(Debug, PartialEq, Clone)]
pub struct Link(pub String, pub Uuid);

/// Which way data flows through a pin.
#[derive(Debug, PartialEq, Clone)]
pub enum PinDirection {
    Input,
    Output,
}

/// One connection point on a node.
#[derive(Debug, PartialEq, Clone)]
pub struct Pin {
    pub name: String,
    pub pin_id: Uuid,
    pub pin_name: String,
    pub direction: PinDirection,
    pub linked_to: Vec<Link>,
}

/// The value categories a pin can carry.
#[derive(Debug, PartialEq, Clone)]
pub enum Pins {
    Exec,
    Boolean,
    Byte,
    Class,
    SoftClass,
    Int,
    Int64,
    Float,
    Double,
    Name,
    Delegate,
    MCDelegate,
    Object,
    Interface,
    SoftObject,
    String,
    Text,
    Struct,
    Wildcard,
    Enum,
    FieldPath,
}

} // verus!
