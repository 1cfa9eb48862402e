//! Synthesis of builder types from field schemas.
//!
//! A schema lists the fields of a structure: name, declared type and the
//! attributes written on the field. From it the library classifies every
//! field as required, optional or repeated, and writes the source text of a
//! companion builder: one absent-capable slot per field, the setters, the
//! extraction helpers and the finalization method.
//!
//! The [`runtime`] module gives the generated builder a meaning that can be
//! reasoned about: it runs the setters and the finalization of a unit on
//! plain values, and states what every such run yields.

pub mod schema;
pub mod syntax;
pub mod text;
pub mod classify;
pub mod unit;
pub mod emit;
pub mod runtime;
pub mod laws;

use crate::emit::{gen_builder_str_for_struct, unit_text};
use crate::schema::{BuilderSchema, BuilderSchemaView, FailurePolicy, SchemaError};
use crate::unit::{synthesis, synthesize, ErrorView};
use vstd::prelude::*;

verus! {

/// The text derived from a schema, or the fault that ended the synthesis.
pub open spec fn derived(schema: BuilderSchemaView) -> Result<Seq<char>, ErrorView> {
    match synthesis(schema, FailurePolicy::Loud) {
        Ok(u) => Ok(unit_text(u)),
        Err(e) => Err(e),
    }
}

/// The content of the outcome of a derivation.
pub open spec fn text_or_error(r: Result<String, SchemaError>) -> Result<Seq<char>, ErrorView> {
    match r {
        Ok(s) => Ok(s@),
        Err(e) => Err(e@),
    }
}

/// Derives the text of a builder from a schema. The builder's finalization
/// aborts on a missing field, with a diagnostic that names it.
pub fn derive(input: &BuilderSchema) -> (r: Result<String, SchemaError>)
    ensures
        text_or_error(r) == derived(input@),
{
    match synthesize(input, FailurePolicy::Loud) {
        Ok(unit) => Ok(gen_builder_str_for_struct(&unit)),
        Err(e) => Err(e),
    }
}

} // verus!
