//! Emits a TypeScript definition module for a graph of type descriptors.
//!
//! Types live in an arena (`Vec<TypeDef>`) and are identified by their index
//! in it. The emitter walks the dependency closure of a root type, declares
//! each defined type exactly once under a root namespace, and renders the
//! structural type expressions inline.
use vstd::prelude::*;

pub mod model;
pub mod text;
pub mod walk;
pub mod emit;
pub mod laws;

verus! {

} // verus!
