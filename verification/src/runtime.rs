//! A model of what the emitted bindings do once the runtime uses them.
//!
//! The library never touches a host value. To state what a binding does, the
//! model takes the host's side as given: an instance is the value of each of
//! its fields, and the host's operations are functions on instances and
//! values. Over that, a read, an assignment or a call through the bindings
//! is whatever the registration in effect for the name is bound to.
//!
//! A script reaches a method or a type function through an instance by
//! reading its name first, so a getter hides a like-named method or type
//! function. The export table is a table of its own and is not affected.

use vstd::prelude::*;
use crate::dispatch::{callable_member, export_in_effect, getter_in_effect, setter_in_effect};
use crate::emit::{AccessTargetView, MethodSinkCallView, TypeBindingsView};
use crate::params::ParameterListView;

verus! {

/// What the operations of a host type do. `V` is the type of the values that
/// cross between host and runtime.
#[verifier::reject_recursive_types(V)]
pub struct HostModel<V> {
    /// Invoking the named operation on an instance with the given arguments:
    /// the instance afterwards, and the value returned.
    pub invoke: spec_fn(Seq<char>, Map<Seq<char>, V>, Seq<V>) -> (Map<Seq<char>, V>, V),
    /// Calling the named receiver-less operation with the given arguments:
    /// the value returned.
    pub call: spec_fn(Seq<char>, Seq<V>) -> V,
}

/// The arguments that a call site hands on to its operation: none of the
/// incoming values where its parameter is the wildcard, else one per
/// parameter, matched by position, as far as the incoming values go.
pub open spec fn handed_on<V>(params: ParameterListView, incoming: Seq<V>) -> Seq<V> {
    match params {
        ParameterListView::Wildcard => Seq::empty(),
        ParameterListView::Positional(named) => if named.len() <= incoming.len() {
            incoming.take(named.len() as int)
        } else {
            incoming
        },
    }
}

/// Reading `name` on an instance: the value read, or `None` where no getter
/// is registered under the name.
pub open spec fn read<V>(
    host: HostModel<V>,
    bindings: TypeBindingsView,
    instance: Map<Seq<char>, V>,
    name: Seq<char>,
) -> Option<V> {
    match getter_in_effect(bindings.field_registrar, name) {
        Some(AccessTargetView::Field(field)) => Some(instance[field]),
        Some(AccessTargetView::Operation(operation)) => Some(
            (host.invoke)(operation, instance, Seq::empty()).1,
        ),
        None => None,
    }
}

/// Assigning `value` to `name` on an instance: the instance afterwards, or
/// `None` where no setter is registered under the name.
pub open spec fn assign<V>(
    host: HostModel<V>,
    bindings: TypeBindingsView,
    instance: Map<Seq<char>, V>,
    name: Seq<char>,
    value: V,
) -> Option<Map<Seq<char>, V>> {
    match setter_in_effect(bindings.field_registrar, name) {
        Some(AccessTargetView::Field(field)) => Some(instance.insert(field, value)),
        Some(AccessTargetView::Operation(operation)) => Some(
            (host.invoke)(operation, instance, seq![value]).0,
        ),
        None => None,
    }
}

/// Calling the method `name` on an instance: the instance afterwards, or
/// `None` where the script finds no instance method under the name. A method
/// that is not registered as mutable leaves the instance as it is.
pub open spec fn call_method<V>(
    host: HostModel<V>,
    bindings: TypeBindingsView,
    instance: Map<Seq<char>, V>,
    name: Seq<char>,
    incoming: Seq<V>,
) -> Option<Map<Seq<char>, V>> {
    match callable_member(bindings, name) {
        Some(MethodSinkCallView::AddMutableMethod { call, .. }) => Some(
            (host.invoke)(call.operation, instance, handed_on(call.params, incoming)).0,
        ),
        Some(MethodSinkCallView::AddMethod { .. }) => Some(instance),
        _ => None,
    }
}

/// Calling `name` as a function scoped under the type: the value returned,
/// or `None` where the script finds no type function under the name.
pub open spec fn call_type_function<V>(
    host: HostModel<V>,
    bindings: TypeBindingsView,
    name: Seq<char>,
    incoming: Seq<V>,
) -> Option<V> {
    match callable_member(bindings, name) {
        Some(MethodSinkCallView::AddTypeFunction { call, .. }) => Some(
            (host.call)(call.operation, handed_on(call.params, incoming)),
        ),
        _ => None,
    }
}

/// Calling the entry `name` of the standalone export table: the value
/// returned, or `None` where the table has no such entry.
pub open spec fn call_export<V>(
    host: HostModel<V>,
    bindings: TypeBindingsView,
    name: Seq<char>,
    incoming: Seq<V>,
) -> Option<V> {
    match export_in_effect(bindings.export_table, name) {
        Some(call) => Some((host.call)(call.operation, handed_on(call.params, incoming))),
        None => None,
    }
}

} // verus!
