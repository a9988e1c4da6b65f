//! The grammar engine: literal parsers, the value disambiguator, the
//! property and object grammars, and the document entry point.

pub mod ast;
pub mod grammar;
pub mod laws;
pub mod literal;
pub mod object;
pub mod prop;
pub mod scan;
