//! Binding generation for types exposed to an embedded scripting runtime.
//!
//! A namespace body is a list of type declarations and behavior blocks. The
//! library analyses it and produces, per type, the registrations that wire the
//! type's visible fields and operations to the runtime's binding sinks.

use vstd::prelude::*;
use crate::collect::{collect, spec_collect};
use crate::decl::{Namespace, NamespaceView};
use crate::emit::{TypeBindings, TypeBindingsView, emit_all, spec_emit_all};

pub mod behavior;
pub mod binding;
pub mod classify;
pub mod collect;
pub mod decl;
pub mod dispatch;
pub mod emit;
pub mod fields;
pub mod laws;
pub mod names;
pub mod params;
pub mod runtime;
pub mod sequences;

verus! {

/// Why a generation pass produced nothing.
#[derive(Clone, Copy, Debug, PartialEq, Eq, Structural)]
pub enum GenerateError {
    /// The namespace is a forward declaration: it has no body.
    MissingBody,
}

/// What a generation pass produces for a namespace: the emitted bindings of
/// every type that its body names, in the order in which the types are first
/// named, or the reason why nothing is produced.
pub open spec fn spec_generate(namespace: NamespaceView) -> Result<
    Seq<TypeBindingsView>,
    GenerateError,
> {
    match namespace.body {
        Some(decls) => Ok(spec_emit_all(spec_collect(decls))),
        None => Err(GenerateError::MissingBody),
    }
}

/// The view of a generation pass's result.
pub open spec fn result_view(result: Result<Vec<TypeBindings>, GenerateError>) -> Result<
    Seq<TypeBindingsView>,
    GenerateError,
> {
    match result {
        Ok(bindings) => Ok(bindings.deep_view()),
        Err(error) => Err(error),
    }
}

/// Runs one generation pass over a namespace.
///
/// Fails with `MissingBody` exactly when the namespace has no body. Every
/// other input is accepted: declarations that are neither type declarations
/// nor behavior blocks are passed over, a behavior block whose type is not
/// declared gets bindings without field accessors, and a visible field and a
/// like-named accessor operation are both registered.
pub fn generate_userdata(namespace: &Namespace) -> (result: Result<
    Vec<TypeBindings>,
    GenerateError,
>)
    ensures
        result_view(result) == spec_generate(namespace.deep_view()),
{
    match &namespace.body {
        Some(decls) => {
            let sets = collect(decls);
            Ok(emit_all(&sets))
        },
        None => Err(GenerateError::MissingBody),
    }
}

} // verus!
