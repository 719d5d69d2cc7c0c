//! Emission of a binding set as registrations against the runtime's sinks.
//!
//! A registrar is the ordered list of calls that it makes on its sink. The
//! runtime adapter performs the calls; it supplies, for each access or call
//! target named here, the function that does the work on host values.

use vstd::prelude::*;
use crate::binding::{
    AccessorRole,
    BindingSet,
    BindingSetView,
    FieldAccessorView,
    FunctionBinding,
    FunctionBindingView,
    MethodBinding,
    MethodBindingView,
    PropertyAccessor,
    PropertyAccessorView,
};
use crate::params::{ParameterList, ParameterListView};

verus! {

/// What a read or an assignment through the runtime works on.
#[derive(Clone, Debug, PartialEq, Eq)]
pub enum AccessTarget {
    /// The field of this name: a read copies its value, an assignment
    /// replaces it.
    Field(String),
    /// The operation of this name: a read calls it with no argument, an
    /// assignment calls it with the new value as its one argument.
    Operation(String),
}

/// The view of an `AccessTarget`: names are sequences of characters, lists are sequences.
pub enum AccessTargetView {
    Field(Seq<char>),
    Operation(Seq<char>),
}

impl DeepView for AccessTarget {
    type V = AccessTargetView;

    open spec fn deep_view(&self) -> AccessTargetView {
        match *self {
            AccessTarget::Field(name) => AccessTargetView::Field(name@),
            AccessTarget::Operation(name) => AccessTargetView::Operation(name@),
        }
    }
}

/// A call on the field-binding sink.
#[derive(Clone, Debug, PartialEq, Eq)]
pub enum FieldSinkCall {
    AddFieldGet { name: String, read: AccessTarget },
    AddFieldSet { name: String, write: AccessTarget },
}

/// The view of a `FieldSinkCall`: names are sequences of characters, lists are sequences.
pub enum FieldSinkCallView {
    AddFieldGet { name: Seq<char>, read: AccessTargetView },
    AddFieldSet { name: Seq<char>, write: AccessTargetView },
}

impl DeepView for FieldSinkCall {
    type V = FieldSinkCallView;

    open spec fn deep_view(&self) -> FieldSinkCallView {
        match *self {
            FieldSinkCall::AddFieldGet { name, read } => FieldSinkCallView::AddFieldGet {
                name: name@,
                read: read.deep_view(),
            },
            FieldSinkCall::AddFieldSet { name, write } => FieldSinkCallView::AddFieldSet {
                name: name@,
                write: write.deep_view(),
            },
        }
    }
}

/// The operation that a bound callable invokes, with its call-site
/// parameters.
#[derive(Clone, Debug, PartialEq, Eq)]
pub struct CallTarget {
    pub operation: String,
    pub params: ParameterList,
}

/// The view of a `CallTarget`: names are sequences of characters, lists are sequences.
pub struct CallTargetView {
    pub operation: Seq<char>,
    pub params: ParameterListView,
}

impl DeepView for CallTarget {
    type V = CallTargetView;

    open spec fn deep_view(&self) -> CallTargetView {
        CallTargetView { operation: self.operation@, params: self.params.deep_view() }
    }
}

/// A call on the method-binding sink.
#[derive(Clone, Debug, PartialEq, Eq)]
pub enum MethodSinkCall {
    AddMethod { name: String, call: CallTarget },
    AddMutableMethod { name: String, call: CallTarget },
    AddTypeFunction { name: String, call: CallTarget },
}

/// The view of a `MethodSinkCall`: names are sequences of characters, lists are sequences.
pub enum MethodSinkCallView {
    AddMethod { name: Seq<char>, call: CallTargetView },
    AddMutableMethod { name: Seq<char>, call: CallTargetView },
    AddTypeFunction { name: Seq<char>, call: CallTargetView },
}

impl DeepView for MethodSinkCall {
    type V = MethodSinkCallView;

    open spec fn deep_view(&self) -> MethodSinkCallView {
        match *self {
            MethodSinkCall::AddMethod { name, call } => MethodSinkCallView::AddMethod {
                name: name@,
                call: call.deep_view(),
            },
            MethodSinkCall::AddMutableMethod { name, call } => MethodSinkCallView::AddMutableMethod {
                name: name@,
                call: call.deep_view(),
            },
            MethodSinkCall::AddTypeFunction { name, call } => MethodSinkCallView::AddTypeFunction {
                name: name@,
                call: call.deep_view(),
            },
        }
    }
}

impl MethodSinkCallView {
    /// The name that the call registers.
    pub open spec fn name(self) -> Seq<char> {
        match self {
            MethodSinkCallView::AddMethod { name, .. } => name,
            MethodSinkCallView::AddMutableMethod { name, .. } => name,
            MethodSinkCallView::AddTypeFunction { name, .. } => name,
        }
    }
}

/// One entry that the export table builder sets in its fresh table.
#[derive(Clone, Debug, PartialEq, Eq)]
pub struct ExportEntry {
    pub name: String,
    pub call: CallTarget,
}

/// The view of an `ExportEntry`: names are sequences of characters, lists are sequences.
pub struct ExportEntryView {
    pub name: Seq<char>,
    pub call: CallTargetView,
}

impl DeepView for ExportEntry {
    type V = ExportEntryView;

    open spec fn deep_view(&self) -> ExportEntryView {
        ExportEntryView { name: self.name@, call: self.call.deep_view() }
    }
}

/// What is emitted for one type: its two registrars and the entries of its
/// standalone export table.
#[derive(Clone, Debug, PartialEq, Eq)]
pub struct TypeBindings {
    pub owner: String,
    pub field_registrar: Vec<FieldSinkCall>,
    pub method_registrar: Vec<MethodSinkCall>,
    pub export_table: Vec<ExportEntry>,
}

/// The view of a `TypeBindings`: names are sequences of characters, lists are sequences.
pub struct TypeBindingsView {
    pub owner: Seq<char>,
    pub field_registrar: Seq<FieldSinkCallView>,
    pub method_registrar: Seq<MethodSinkCallView>,
    pub export_table: Seq<ExportEntryView>,
}

impl DeepView for TypeBindings {
    type V = TypeBindingsView;

    open spec fn deep_view(&self) -> TypeBindingsView {
        TypeBindingsView {
            owner: self.owner@,
            field_registrar: self.field_registrar.deep_view(),
            method_registrar: self.method_registrar.deep_view(),
            export_table: self.export_table.deep_view(),
        }
    }
}

/// The registration of a property accessor: under the property's name, bound
/// to the operation.
pub open spec fn property_call(p: PropertyAccessorView) -> FieldSinkCallView {
    match p.role {
        AccessorRole::Getter => FieldSinkCallView::AddFieldGet {
            name: p.property,
            read: AccessTargetView::Operation(p.operation),
        },
        AccessorRole::Setter => FieldSinkCallView::AddFieldSet {
            name: p.property,
            write: AccessTargetView::Operation(p.operation),
        },
    }
}

/// The two registrations of a field's accessor pair: the getter, then the
/// setter, both under the field's name and bound to the field.
pub open spec fn field_calls(f: FieldAccessorView) -> Seq<FieldSinkCallView> {
    seq![
        FieldSinkCallView::AddFieldGet { name: f.name, read: AccessTargetView::Field(f.name) },
        FieldSinkCallView::AddFieldSet { name: f.name, write: AccessTargetView::Field(f.name) },
    ]
}

/// The registration of an instance method: under the operation's name, on
/// the mutable entry point exactly when the operation may change its
/// instance.
pub open spec fn method_call(m: MethodBindingView) -> MethodSinkCallView {
    let call = CallTargetView { operation: m.name, params: m.params };
    if m.mutable {
        MethodSinkCallView::AddMutableMethod { name: m.name, call }
    } else {
        MethodSinkCallView::AddMethod { name: m.name, call }
    }
}

/// The registration of a free function as a callable scoped under its type.
pub open spec fn function_call(f: FunctionBindingView) -> MethodSinkCallView {
    MethodSinkCallView::AddTypeFunction {
        name: f.name,
        call: CallTargetView { operation: f.name, params: f.params },
    }
}

/// The export table entry of a free function: the same name and the same
/// call as its type-scoped registration.
pub open spec fn export_entry(f: FunctionBindingView) -> ExportEntryView {
    ExportEntryView { name: f.name, call: CallTargetView { operation: f.name, params: f.params } }
}

/// The field and property registrar: the property accessors in accumulation
/// order, then the accessor pairs of the fields.
pub open spec fn spec_field_registrar(set: BindingSetView) -> Seq<FieldSinkCallView> {
    set.properties.map_values(|p: PropertyAccessorView| property_call(p)) + set.fields.flat_map(
        |f: FieldAccessorView| field_calls(f),
    )
}

/// The method registrar: the instance methods in accumulation order, then
/// the free functions.
pub open spec fn spec_method_registrar(set: BindingSetView) -> Seq<MethodSinkCallView> {
    set.methods.map_values(|m: MethodBindingView| method_call(m)) + set.functions.map_values(
        |f: FunctionBindingView| function_call(f),
    )
}

/// The export table: one entry per free function, in accumulation order.
pub open spec fn spec_export_table(set: BindingSetView) -> Seq<ExportEntryView> {
    set.functions.map_values(|f: FunctionBindingView| export_entry(f))
}

/// What is emitted for a binding set.
pub open spec fn spec_emit(set: BindingSetView) -> TypeBindingsView {
    TypeBindingsView {
        owner: set.owner,
        field_registrar: spec_field_registrar(set),
        method_registrar: spec_method_registrar(set),
        export_table: spec_export_table(set),
    }
}

/// What is emitted for a list of binding sets: the emission of each, in the
/// same order.
pub open spec fn spec_emit_all(sets: Seq<BindingSetView>) -> Seq<TypeBindingsView> {
    sets.map_values(|set: BindingSetView| spec_emit(set))
}

fn emit_property(p: &PropertyAccessor) -> (call: FieldSinkCall)
    ensures
        call.deep_view() == property_call(p.deep_view()),
{
    match p.role {
        AccessorRole::Getter => FieldSinkCall::AddFieldGet {
            name: p.property.clone(),
            read: AccessTarget::Operation(p.operation.clone()),
        },
        AccessorRole::Setter => FieldSinkCall::AddFieldSet {
            name: p.property.clone(),
            write: AccessTarget::Operation(p.operation.clone()),
        },
    }
}

fn emit_method(m: &MethodBinding) -> (call: MethodSinkCall)
    ensures
        call.deep_view() == method_call(m.deep_view()),
{
    let call = CallTarget { operation: m.name.clone(), params: m.params.duplicate() };
    if m.mutable {
        MethodSinkCall::AddMutableMethod { name: m.name.clone(), call }
    } else {
        MethodSinkCall::AddMethod { name: m.name.clone(), call }
    }
}

fn emit_function(f: &FunctionBinding) -> (call: MethodSinkCall)
    ensures
        call.deep_view() == function_call(f.deep_view()),
{
    MethodSinkCall::AddTypeFunction {
        name: f.name.clone(),
        call: CallTarget { operation: f.name.clone(), params: f.params.duplicate() },
    }
}

fn emit_export(f: &FunctionBinding) -> (entry: ExportEntry)
    ensures
        entry.deep_view() == export_entry(f.deep_view()),
{
    ExportEntry {
        name: f.name.clone(),
        call: CallTarget { operation: f.name.clone(), params: f.params.duplicate() },
    }
}

/// Builds the field and property registrar of a binding set.
pub fn emit_field_registrar(set: &BindingSet) -> (registrar: Vec<FieldSinkCall>)
    ensures
        registrar.deep_view() == spec_field_registrar(set.deep_view()),
{
    let ghost properties = set.properties.deep_view();
    let ghost fields = set.fields.deep_view();
    let ghost of_property = |p: PropertyAccessorView| property_call(p);
    let ghost of_field = |f: FieldAccessorView| field_calls(f);
    let mut registrar: Vec<FieldSinkCall> = Vec::new();
    let mut i: usize = 0;
    assert(registrar.deep_view() =~= properties.take(0).map_values(of_property));
    while i < set.properties.len()
        invariant
            i <= set.properties.len(),
            properties == set.properties.deep_view(),
            of_property == |p: PropertyAccessorView| property_call(p),
            registrar.deep_view() == properties.take(i as int).map_values(of_property),
        decreases set.properties.len() - i,
    {
        let ghost before = registrar.deep_view();
        let call = emit_property(&set.properties[i]);
        registrar.push(call);
        assert(properties[i as int] == set.properties[i as int].deep_view());
        assert(registrar.deep_view() =~= before.push(call.deep_view()));
        assert(registrar.deep_view() =~= properties.take(i + 1).map_values(of_property));
        i += 1;
    }
    assert(properties.take(i as int) =~= properties);
    let ghost head = properties.map_values(of_property);
    let mut j: usize = 0;
    assert(fields.take(0).flat_map(of_field) =~= Seq::<FieldSinkCallView>::empty());
    assert(registrar.deep_view() =~= head + fields.take(0).flat_map(of_field));
    while j < set.fields.len()
        invariant
            j <= set.fields.len(),
            fields == set.fields.deep_view(),
            of_field == |f: FieldAccessorView| field_calls(f),
            registrar.deep_view() == head + fields.take(j as int).flat_map(of_field),
        decreases set.fields.len() - j,
    {
        let ghost before = registrar.deep_view();
        let name = &set.fields[j].name;
        let getter = FieldSinkCall::AddFieldGet {
            name: name.clone(),
            read: AccessTarget::Field(name.clone()),
        };
        let setter = FieldSinkCall::AddFieldSet {
            name: name.clone(),
            write: AccessTarget::Field(name.clone()),
        };
        registrar.push(getter);
        registrar.push(setter);
        proof {
            fields.lemma_flat_map_take_append(of_field, j as int);
            assert(fields[j as int] == set.fields[j as int].deep_view());
            assert(registrar.deep_view() =~= before + seq![getter.deep_view(), setter.deep_view()]);
            assert(seq![getter.deep_view(), setter.deep_view()] =~= field_calls(fields[j as int]));
        }
        j += 1;
    }
    assert(fields.take(j as int) =~= fields);
    registrar
}

/// Builds the method registrar of a binding set.
pub fn emit_method_registrar(set: &BindingSet) -> (registrar: Vec<MethodSinkCall>)
    ensures
        registrar.deep_view() == spec_method_registrar(set.deep_view()),
{
    let ghost methods = set.methods.deep_view();
    let ghost functions = set.functions.deep_view();
    let ghost of_method = |m: MethodBindingView| method_call(m);
    let ghost of_function = |f: FunctionBindingView| function_call(f);
    let mut registrar: Vec<MethodSinkCall> = Vec::new();
    let mut i: usize = 0;
    assert(registrar.deep_view() =~= methods.take(0).map_values(of_method));
    while i < set.methods.len()
        invariant
            i <= set.methods.len(),
            methods == set.methods.deep_view(),
            of_method == |m: MethodBindingView| method_call(m),
            registrar.deep_view() == methods.take(i as int).map_values(of_method),
        decreases set.methods.len() - i,
    {
        let ghost before = registrar.deep_view();
        let call = emit_method(&set.methods[i]);
        registrar.push(call);
        assert(methods[i as int] == set.methods[i as int].deep_view());
        assert(registrar.deep_view() =~= before.push(call.deep_view()));
        assert(registrar.deep_view() =~= methods.take(i + 1).map_values(of_method));
        i += 1;
    }
    assert(methods.take(i as int) =~= methods);
    let ghost head = methods.map_values(of_method);
    let mut j: usize = 0;
    assert(registrar.deep_view() =~= head + functions.take(0).map_values(of_function));
    while j < set.functions.len()
        invariant
            j <= set.functions.len(),
            functions == set.functions.deep_view(),
            of_function == |f: FunctionBindingView| function_call(f),
            registrar.deep_view() == head + functions.take(j as int).map_values(of_function),
        decreases set.functions.len() - j,
    {
        let ghost before = registrar.deep_view();
        let call = emit_function(&set.functions[j]);
        registrar.push(call);
        assert(functions[j as int] == set.functions[j as int].deep_view());
        assert(registrar.deep_view() =~= before.push(call.deep_view()));
        assert(registrar.deep_view() =~= head + functions.take(j + 1).map_values(of_function));
        j += 1;
    }
    assert(functions.take(j as int) =~= functions);
    registrar
}

/// Builds the entries of the standalone export table of a binding set.
pub fn emit_export_table(set: &BindingSet) -> (table: Vec<ExportEntry>)
    ensures
        table.deep_view() == spec_export_table(set.deep_view()),
{
    let ghost functions = set.functions.deep_view();
    let ghost of_function = |f: FunctionBindingView| export_entry(f);
    let mut table: Vec<ExportEntry> = Vec::new();
    let mut j: usize = 0;
    assert(table.deep_view() =~= functions.take(0).map_values(of_function));
    while j < set.functions.len()
        invariant
            j <= set.functions.len(),
            functions == set.functions.deep_view(),
            of_function == |f: FunctionBindingView| export_entry(f),
            table.deep_view() == functions.take(j as int).map_values(of_function),
        decreases set.functions.len() - j,
    {
        let ghost before = table.deep_view();
        let entry = emit_export(&set.functions[j]);
        table.push(entry);
        assert(functions[j as int] == set.functions[j as int].deep_view());
        assert(table.deep_view() =~= before.push(entry.deep_view()));
        assert(table.deep_view() =~= functions.take(j + 1).map_values(of_function));
        j += 1;
    }
    assert(functions.take(j as int) =~= functions);
    table
}

/// Emits the three artifacts of one type.
pub fn emit(set: &BindingSet) -> (bindings: TypeBindings)
    ensures
        bindings.deep_view() == spec_emit(set.deep_view()),
{
    TypeBindings {
        owner: set.owner.clone(),
        field_registrar: emit_field_registrar(set),
        method_registrar: emit_method_registrar(set),
        export_table: emit_export_table(set),
    }
}

/// Emits the artifacts of every type, in the order of the sets.
pub fn emit_all(sets: &Vec<BindingSet>) -> (all: Vec<TypeBindings>)
    ensures
        all.deep_view() == spec_emit_all(sets.deep_view()),
{
    let ghost views = sets.deep_view();
    let ghost of_set = |set: BindingSetView| spec_emit(set);
    let mut all: Vec<TypeBindings> = Vec::new();
    let mut i: usize = 0;
    assert(all.deep_view() =~= views.take(0).map_values(of_set));
    while i < sets.len()
        invariant
            i <= sets.len(),
            views == sets.deep_view(),
            of_set == |set: BindingSetView| spec_emit(set),
            all.deep_view() == views.take(i as int).map_values(of_set),
        decreases sets.len() - i,
    {
        let ghost before = all.deep_view();
        let bindings = emit(&sets[i]);
        all.push(bindings);
        assert(views[i as int] == sets[i as int].deep_view());
        assert(all.deep_view() =~= before.push(bindings.deep_view()));
        assert(all.deep_view() =~= views.take(i + 1).map_values(of_set));
        i += 1;
    }
    assert(views.take(i as int) =~= views);
    all
}

} // verus!
