//! Classification of operations by name pattern and calling convention.

use vstd::prelude::*;
use crate::decl::{Parameter, ParameterView};
use crate::names::{has_getter_prefix, has_setter_prefix, is_getter_name, is_setter_name};

verus! {

/// How an operation takes its instance.
#[derive(Clone, Copy, Debug, PartialEq, Eq, Structural)]
pub enum ReceiverKind {
    /// No receiver: the operation is callable without an existing instance.
    Absent,
    ByReference,
    ByMutableReference,
}

/// The way an operation is exposed to the runtime.
#[derive(Clone, Copy, Debug, PartialEq, Eq, Structural)]
pub enum BindingKind {
    PropertyGet,
    PropertySet,
    InstanceMethod { mutable: bool },
    FreeFunction,
}

/// The receiver kind of a parameter list: decided by its first entry alone.
pub open spec fn spec_receiver_kind(params: Seq<ParameterView>) -> ReceiverKind {
    if params.len() > 0 && params[0] is Receiver {
        if params[0]->mutable {
            ReceiverKind::ByMutableReference
        } else {
            ReceiverKind::ByReference
        }
    } else {
        ReceiverKind::Absent
    }
}

/// The naming rules, in order: a `get_` name is a property getter, a `set_`
/// name a property setter, and any other name is left to the receiver.
pub open spec fn spec_classify_by_name(name: Seq<char>) -> Option<BindingKind> {
    if is_getter_name(name) {
        Some(BindingKind::PropertyGet)
    } else if is_setter_name(name) {
        Some(BindingKind::PropertySet)
    } else {
        None
    }
}

/// The binding kind that the receiver alone asks for.
pub open spec fn spec_classify_by_receiver(receiver: ReceiverKind) -> BindingKind {
    match receiver {
        ReceiverKind::Absent => BindingKind::FreeFunction,
        ReceiverKind::ByReference => BindingKind::InstanceMethod { mutable: false },
        ReceiverKind::ByMutableReference => BindingKind::InstanceMethod { mutable: true },
    }
}

/// The binding kind of an operation. A naming rule that matches wins over
/// the receiver, whatever the receiver is.
pub open spec fn spec_classify(name: Seq<char>, receiver: ReceiverKind) -> BindingKind {
    match spec_classify_by_name(name) {
        Some(kind) => kind,
        None => spec_classify_by_receiver(receiver),
    }
}

/// Inspects the first parameter: a receiver there gives the kind, with its
/// mutability; anything else, or an empty list, means no receiver.
pub fn receiver_kind(params: &Vec<Parameter>) -> (kind: ReceiverKind)
    ensures
        kind == spec_receiver_kind(params.deep_view()),
{
    if params.len() == 0 {
        return ReceiverKind::Absent;
    }
    assert(params.deep_view()[0] == params[0].deep_view());
    match &params[0] {
        Parameter::Receiver { mutable } => {
            if *mutable {
                ReceiverKind::ByMutableReference
            } else {
                ReceiverKind::ByReference
            }
        },
        _ => ReceiverKind::Absent,
    }
}

/// Applies the naming rules to an operation name.
pub fn classify_by_name(name: &str) -> (kind: Option<BindingKind>)
    ensures
        kind == spec_classify_by_name(name@),
{
    if has_getter_prefix(name) {
        Some(BindingKind::PropertyGet)
    } else if has_setter_prefix(name) {
        Some(BindingKind::PropertySet)
    } else {
        None
    }
}

/// Classifies by the receiver alone.
pub fn classify_by_receiver(receiver: ReceiverKind) -> (kind: BindingKind)
    ensures
        kind == spec_classify_by_receiver(receiver),
{
    match receiver {
        ReceiverKind::Absent => BindingKind::FreeFunction,
        ReceiverKind::ByReference => BindingKind::InstanceMethod { mutable: false },
        ReceiverKind::ByMutableReference => BindingKind::InstanceMethod { mutable: true },
    }
}

/// Classifies an operation from its name and receiver kind.
pub fn classify(name: &str, receiver: ReceiverKind) -> (kind: BindingKind)
    ensures
        kind == spec_classify(name@, receiver),
{
    match classify_by_name(name) {
        Some(kind) => kind,
        None => classify_by_receiver(receiver),
    }
}

} // verus!
