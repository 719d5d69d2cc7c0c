//! Classification of the operations of a behavior block into binding
//! descriptors.

use vstd::prelude::*;
use crate::binding::{
    AccessorRole,
    BindingSet,
    BindingSetView,
    FieldAccessor,
    FunctionBinding,
    FunctionBindingView,
    MethodBinding,
    MethodBindingView,
    PropertyAccessor,
    PropertyAccessorView,
};
use crate::classify::{BindingKind, classify, receiver_kind, spec_classify, spec_receiver_kind};
use crate::decl::{BehaviorBlock, BehaviorBlockView, Operation, OperationView};
use crate::names::{property_name, spec_property_name};
use crate::params::{map_parameters, spec_map_parameters};
use crate::sequences::lemma_filter_map_origin;

verus! {

/// The one descriptor that an operation is bound by.
#[derive(Clone, Debug, PartialEq, Eq)]
pub enum OperationBinding {
    Property(PropertyAccessor),
    Method(MethodBinding),
    Function(FunctionBinding),
}

/// The view of an `OperationBinding`: names are sequences of characters, lists are sequences.
pub enum OperationBindingView {
    Property(PropertyAccessorView),
    Method(MethodBindingView),
    Function(FunctionBindingView),
}

impl DeepView for OperationBinding {
    type V = OperationBindingView;

    open spec fn deep_view(&self) -> OperationBindingView {
        match *self {
            OperationBinding::Property(p) => OperationBindingView::Property(p.deep_view()),
            OperationBinding::Method(m) => OperationBindingView::Method(m.deep_view()),
            OperationBinding::Function(f) => OperationBindingView::Function(f.deep_view()),
        }
    }
}

impl OperationBindingView {
    /// The binding kind that the descriptor stands for.
    pub open spec fn kind(self) -> BindingKind {
        match self {
            OperationBindingView::Property(p) => match p.role {
                AccessorRole::Getter => BindingKind::PropertyGet,
                AccessorRole::Setter => BindingKind::PropertySet,
            },
            OperationBindingView::Method(m) => BindingKind::InstanceMethod { mutable: m.mutable },
            OperationBindingView::Function(_) => BindingKind::FreeFunction,
        }
    }

    pub open spec fn wf(self) -> bool {
        match self {
            OperationBindingView::Property(p) => p.wf(),
            OperationBindingView::Method(m) => m.params.wf(),
            OperationBindingView::Function(f) => f.params.wf(),
        }
    }

    pub open spec fn property(self) -> Option<PropertyAccessorView> {
        match self {
            OperationBindingView::Property(p) => Some(p),
            _ => None,
        }
    }

    pub open spec fn method(self) -> Option<MethodBindingView> {
        match self {
            OperationBindingView::Method(m) => Some(m),
            _ => None,
        }
    }

    pub open spec fn function(self) -> Option<FunctionBindingView> {
        match self {
            OperationBindingView::Function(f) => Some(f),
            _ => None,
        }
    }
}

/// The descriptor of an operation. Its kind is the operation's
/// classification. An accessor is bound under the name without the prefix
/// and keeps the operation's own name as what it invokes; a method or a
/// function is bound under the operation's name with its mapped parameters.
///
/// An operation with an accessor name is bound as a property even where it
/// has no receiver: the name alone decides.
pub open spec fn spec_bind_operation(op: OperationView) -> OperationBindingView {
    let receiver = spec_receiver_kind(op.params);
    match spec_classify(op.name, receiver) {
        BindingKind::PropertyGet => OperationBindingView::Property(
            PropertyAccessorView {
                property: spec_property_name(op.name),
                operation: op.name,
                role: AccessorRole::Getter,
            },
        ),
        BindingKind::PropertySet => OperationBindingView::Property(
            PropertyAccessorView {
                property: spec_property_name(op.name),
                operation: op.name,
                role: AccessorRole::Setter,
            },
        ),
        BindingKind::InstanceMethod { mutable } => OperationBindingView::Method(
            MethodBindingView {
                name: op.name,
                mutable,
                params: spec_map_parameters(op.params, receiver),
            },
        ),
        BindingKind::FreeFunction => OperationBindingView::Function(
            FunctionBindingView { name: op.name, params: spec_map_parameters(op.params, receiver) },
        ),
    }
}

/// The property accessors of a list of operations, in declaration order.
pub open spec fn property_bindings(ops: Seq<OperationView>) -> Seq<PropertyAccessorView> {
    ops.filter_map(|op: OperationView| spec_bind_operation(op).property())
}

/// The instance methods of a list of operations, in declaration order.
pub open spec fn method_bindings(ops: Seq<OperationView>) -> Seq<MethodBindingView> {
    ops.filter_map(|op: OperationView| spec_bind_operation(op).method())
}

/// The free functions of a list of operations, in declaration order.
pub open spec fn function_bindings(ops: Seq<OperationView>) -> Seq<FunctionBindingView> {
    ops.filter_map(|op: OperationView| spec_bind_operation(op).function())
}

/// The binding set that a behavior block contributes to its target type.
pub open spec fn spec_classify_block(block: BehaviorBlockView) -> BindingSetView {
    BindingSetView {
        owner: block.target,
        fields: Seq::empty(),
        properties: property_bindings(block.operations),
        methods: method_bindings(block.operations),
        functions: function_bindings(block.operations),
    }
}

/// Every operation is bound by exactly one descriptor, of the kind that its
/// name and receiver classify it as, and that descriptor is well formed.
pub proof fn lemma_bind_operation_kind(op: OperationView)
    ensures
        spec_bind_operation(op).kind() == spec_classify(op.name, spec_receiver_kind(op.params)),
        spec_bind_operation(op).wf(),
{
}

/// The descriptors of a list of operations are all well formed.
pub proof fn lemma_bindings_of_operations_wf(ops: Seq<OperationView>)
    ensures
        forall|i: int|
            0 <= i < property_bindings(ops).len() ==> (#[trigger] property_bindings(ops)[i]).wf(),
        forall|i: int|
            0 <= i < method_bindings(ops).len() ==> (#[trigger] method_bindings(
                ops,
            )[i]).params.wf(),
        forall|i: int|
            0 <= i < function_bindings(ops).len() ==> (#[trigger] function_bindings(
                ops,
            )[i]).params.wf(),
{
    assert forall|i: int| 0 <= i < property_bindings(ops).len() implies (#[trigger] property_bindings(
        ops,
    )[i]).wf() by {
        let k = lemma_filter_map_origin(
            ops,
            |op: OperationView| spec_bind_operation(op).property(),
            i,
        );
        lemma_bind_operation_kind(ops[k]);
    }
    assert forall|i: int| 0 <= i < method_bindings(ops).len() implies (#[trigger] method_bindings(
        ops,
    )[i]).params.wf() by {
        let k = lemma_filter_map_origin(
            ops,
            |op: OperationView| spec_bind_operation(op).method(),
            i,
        );
        lemma_bind_operation_kind(ops[k]);
    }
    assert forall|i: int| 0 <= i < function_bindings(ops).len() implies (
    #[trigger] function_bindings(ops)[i]).params.wf() by {
        let k = lemma_filter_map_origin(
            ops,
            |op: OperationView| spec_bind_operation(op).function(),
            i,
        );
        lemma_bind_operation_kind(ops[k]);
    }
}

/// Classifies one operation and builds its descriptor.
pub fn bind_operation(op: &Operation) -> (binding: OperationBinding)
    ensures
        binding.deep_view() == spec_bind_operation(op.deep_view()),
        binding.deep_view().wf(),
{
    let receiver = receiver_kind(&op.params);
    match classify(op.name.as_str(), receiver) {
        BindingKind::PropertyGet => {
            let property = property_name(op.name.as_str());
            OperationBinding::Property(
                PropertyAccessor {
                    property: property.unwrap(),
                    operation: op.name.clone(),
                    role: AccessorRole::Getter,
                },
            )
        },
        BindingKind::PropertySet => {
            let property = property_name(op.name.as_str());
            OperationBinding::Property(
                PropertyAccessor {
                    property: property.unwrap(),
                    operation: op.name.clone(),
                    role: AccessorRole::Setter,
                },
            )
        },
        BindingKind::InstanceMethod { mutable } => OperationBinding::Method(
            MethodBinding {
                name: op.name.clone(),
                mutable,
                params: map_parameters(&op.params, receiver),
            },
        ),
        BindingKind::FreeFunction => OperationBinding::Function(
            FunctionBinding { name: op.name.clone(), params: map_parameters(&op.params, receiver) },
        ),
    }
}

/// Classifies every operation of a block, in declaration order, into the
/// binding set that the block contributes.
pub fn classify_block(block: &BehaviorBlock) -> (set: BindingSet)
    ensures
        set.deep_view() == spec_classify_block(block.deep_view()),
        set.deep_view().wf(),
{
    proof {
        lemma_bindings_of_operations_wf(block.operations.deep_view());
    }
    let ghost ops = block.operations.deep_view();
    let ghost pick_property = |op: OperationView| spec_bind_operation(op).property();
    let ghost pick_method = |op: OperationView| spec_bind_operation(op).method();
    let ghost pick_function = |op: OperationView| spec_bind_operation(op).function();
    let mut properties: Vec<PropertyAccessor> = Vec::new();
    let mut methods: Vec<MethodBinding> = Vec::new();
    let mut functions: Vec<FunctionBinding> = Vec::new();
    let mut i: usize = 0;
    assert(ops.take(0).filter_map(pick_property) =~= Seq::<PropertyAccessorView>::empty());
    assert(ops.take(0).filter_map(pick_method) =~= Seq::<MethodBindingView>::empty());
    assert(ops.take(0).filter_map(pick_function) =~= Seq::<FunctionBindingView>::empty());
    while i < block.operations.len()
        invariant
            i <= block.operations.len(),
            ops == block.operations.deep_view(),
            pick_property == |op: OperationView| spec_bind_operation(op).property(),
            pick_method == |op: OperationView| spec_bind_operation(op).method(),
            pick_function == |op: OperationView| spec_bind_operation(op).function(),
            properties.deep_view() == ops.take(i as int).filter_map(pick_property),
            methods.deep_view() == ops.take(i as int).filter_map(pick_method),
            functions.deep_view() == ops.take(i as int).filter_map(pick_function),
        decreases block.operations.len() - i,
    {
        proof {
            ops.lemma_filter_map_take_succ(pick_property, i as int);
            ops.lemma_filter_map_take_succ(pick_method, i as int);
            ops.lemma_filter_map_take_succ(pick_function, i as int);
            assert(ops[i as int] == block.operations[i as int].deep_view());
        }
        let ghost properties_before = properties.deep_view();
        let ghost methods_before = methods.deep_view();
        let ghost functions_before = functions.deep_view();
        match bind_operation(&block.operations[i]) {
            OperationBinding::Property(p) => {
                properties.push(p);
                assert(properties.deep_view() =~= properties_before + seq![p.deep_view()]);
            },
            OperationBinding::Method(m) => {
                methods.push(m);
                assert(methods.deep_view() =~= methods_before + seq![m.deep_view()]);
            },
            OperationBinding::Function(f) => {
                functions.push(f);
                assert(functions.deep_view() =~= functions_before + seq![f.deep_view()]);
            },
        }
        i += 1;
    }
    assert(ops.take(i as int) =~= ops);
    let fields: Vec<FieldAccessor> = Vec::new();
    assert(fields.deep_view() =~= Seq::empty());
    BindingSet { owner: block.target.clone(), fields, properties, methods, functions }
}

} // verus!
