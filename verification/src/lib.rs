//! Reader for the textual object-dump format emitted when visual-scripting
//! graph nodes are exported: a verified recursive-descent parser that turns
//! the dump text into a structured document tree.
//!
//! The grammar lives in `parser::grammar` as spec functions; the executable
//! parsers in `parser` are verified to return exactly what those functions
//! say.  Rendering the tree (for example as JSON) is left to the caller.

use vstd::prelude::*;

pub mod node;
pub mod parser;
pub mod pin;

use parser::ast::{Objects, ParseError};
use parser::grammar::spec_objects;
use parser::scan::chars_of;

verus! {

/// Parses the serialized text representing the objects and stores the
/// information in the `Objects` structure.
///
/// Succeeds exactly when the text is one or more back-to-back well-formed
/// object blocks with nothing left over; any trailing text, or a malformed
/// block, fails the whole call.
pub fn read_object(objects_code: &str) -> (r: Result<Objects, ParseError>)
    ensures
        match r {
            Ok(o) => spec_objects(objects_code@, 0) == Some((objects_code@.len() as int, o@)),
            Err(_) => (match spec_objects(objects_code@, 0) {
                Some((q, _)) => q != objects_code@.len(),
                None => true,
            }),
        },
{
    let v = chars_of(objects_code);
    match parser::object::objects(&v, 0) {
        Ok((q, o)) => {
            if q == v.len() {
                Ok(o)
            } else {
                Err(ParseError::at("text remains after parsing"))
            }
        },
        Err(e) => Err(e),
    }
}

} // verus!
