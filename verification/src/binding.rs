//! Binding descriptors and the per-type binding set that accumulates them.

use vstd::prelude::*;
use crate::names::{is_getter_name, is_setter_name, spec_property_name};
use crate::params::{ParameterList, ParameterListView};

verus! {

/// The accessor pair of a visible field: a getter that returns a copy of the
/// field's value and a setter that replaces it.
#[derive(Clone, Debug, PartialEq, Eq)]
pub struct FieldAccessor {
    pub name: String,
}

/// The view of a `FieldAccessor`: names are sequences of characters, lists are sequences.
pub struct FieldAccessorView {
    pub name: Seq<char>,
}

impl DeepView for FieldAccessor {
    type V = FieldAccessorView;

    open spec fn deep_view(&self) -> FieldAccessorView {
        FieldAccessorView { name: self.name@ }
    }
}

/// Which half of an accessor pair a property accessor is.
#[derive(Clone, Copy, Debug, PartialEq, Eq, Structural)]
pub enum AccessorRole {
    Getter,
    Setter,
}

/// A property bound to an operation that follows the naming convention.
#[derive(Clone, Debug, PartialEq, Eq)]
pub struct PropertyAccessor {
    /// The exposed name: the operation's name without its prefix.
    pub property: String,
    /// The operation that a read or an assignment invokes.
    pub operation: String,
    pub role: AccessorRole,
}

/// The view of a `PropertyAccessor`: names are sequences of characters, lists are sequences.
pub struct PropertyAccessorView {
    pub property: Seq<char>,
    pub operation: Seq<char>,
    pub role: AccessorRole,
}

impl DeepView for PropertyAccessor {
    type V = PropertyAccessorView;

    open spec fn deep_view(&self) -> PropertyAccessorView {
        PropertyAccessorView {
            property: self.property@,
            operation: self.operation@,
            role: self.role,
        }
    }
}

impl PropertyAccessorView {
    /// The operation carries the prefix of its role, and the property is the
    /// operation's name without it.
    pub open spec fn wf(self) -> bool {
        &&& self.property == spec_property_name(self.operation)
        &&& match self.role {
            AccessorRole::Getter => is_getter_name(self.operation),
            AccessorRole::Setter => is_setter_name(self.operation),
        }
    }
}

/// An operation bound under its own name and invoked on an existing instance.
#[derive(Clone, Debug, PartialEq, Eq)]
pub struct MethodBinding {
    pub name: String,
    /// Whether the operation may change the instance it is invoked on.
    pub mutable: bool,
    pub params: ParameterList,
}

/// The view of a `MethodBinding`: names are sequences of characters, lists are sequences.
pub struct MethodBindingView {
    pub name: Seq<char>,
    pub mutable: bool,
    pub params: ParameterListView,
}

impl DeepView for MethodBinding {
    type V = MethodBindingView;

    open spec fn deep_view(&self) -> MethodBindingView {
        MethodBindingView {
            name: self.name@,
            mutable: self.mutable,
            params: self.params.deep_view(),
        }
    }
}

/// An operation bound under its own name and callable without an instance.
#[derive(Clone, Debug, PartialEq, Eq)]
pub struct FunctionBinding {
    pub name: String,
    pub params: ParameterList,
}

/// The view of a `FunctionBinding`: names are sequences of characters, lists are sequences.
pub struct FunctionBindingView {
    pub name: Seq<char>,
    pub params: ParameterListView,
}

impl DeepView for FunctionBinding {
    type V = FunctionBindingView;

    open spec fn deep_view(&self) -> FunctionBindingView {
        FunctionBindingView { name: self.name@, params: self.params.deep_view() }
    }
}

/// Everything that is bound for one type, in the order in which the
/// declarations contributed it.
#[derive(Clone, Debug, PartialEq, Eq)]
pub struct BindingSet {
    pub owner: String,
    pub fields: Vec<FieldAccessor>,
    pub properties: Vec<PropertyAccessor>,
    pub methods: Vec<MethodBinding>,
    pub functions: Vec<FunctionBinding>,
}

/// The view of a `BindingSet`: names are sequences of characters, lists are sequences.
pub struct BindingSetView {
    pub owner: Seq<char>,
    pub fields: Seq<FieldAccessorView>,
    pub properties: Seq<PropertyAccessorView>,
    pub methods: Seq<MethodBindingView>,
    pub functions: Seq<FunctionBindingView>,
}

impl DeepView for BindingSet {
    type V = BindingSetView;

    open spec fn deep_view(&self) -> BindingSetView {
        BindingSetView {
            owner: self.owner@,
            fields: self.fields.deep_view(),
            properties: self.properties.deep_view(),
            methods: self.methods.deep_view(),
            functions: self.functions.deep_view(),
        }
    }
}

impl BindingSetView {
    /// The set of a type for which nothing has been bound yet.
    pub open spec fn empty(owner: Seq<char>) -> BindingSetView {
        BindingSetView {
            owner,
            fields: Seq::empty(),
            properties: Seq::empty(),
            methods: Seq::empty(),
            functions: Seq::empty(),
        }
    }

    /// This set with the descriptors of `other` added after its own. Nothing
    /// is replaced.
    pub open spec fn extend(self, other: BindingSetView) -> BindingSetView {
        BindingSetView {
            owner: self.owner,
            fields: self.fields + other.fields,
            properties: self.properties + other.properties,
            methods: self.methods + other.methods,
            functions: self.functions + other.functions,
        }
    }

    /// Every property accessor and every parameter list is well formed.
    pub open spec fn wf(self) -> bool {
        &&& forall|i: int| 0 <= i < self.properties.len() ==> #[trigger] self.properties[i].wf()
        &&& forall|i: int| 0 <= i < self.methods.len() ==> #[trigger] self.methods[i].params.wf()
        &&& forall|i: int|
            0 <= i < self.functions.len() ==> #[trigger] self.functions[i].params.wf()
    }
}

/// Extending by the empty set changes nothing.
pub proof fn lemma_extend_empty(set: BindingSetView, owner: Seq<char>)
    ensures
        set.extend(BindingSetView::empty(owner)) == set,
{
    let e = BindingSetView::empty(owner);
    assert(set.fields + e.fields =~= set.fields);
    assert(set.properties + e.properties =~= set.properties);
    assert(set.methods + e.methods =~= set.methods);
    assert(set.functions + e.functions =~= set.functions);
}

/// The empty set extended by a set of the same type is that set.
pub proof fn lemma_empty_extend(set: BindingSetView)
    ensures
        BindingSetView::empty(set.owner).extend(set) == set,
{
    let e = BindingSetView::empty(set.owner);
    assert(e.fields + set.fields =~= set.fields);
    assert(e.properties + set.properties =~= set.properties);
    assert(e.methods + set.methods =~= set.methods);
    assert(e.functions + set.functions =~= set.functions);
}

/// Extension keeps well-formedness.
pub proof fn lemma_extend_wf(a: BindingSetView, b: BindingSetView)
    requires
        a.wf(),
        b.wf(),
    ensures
        a.extend(b).wf(),
{
}

impl BindingSet {
    /// The set of a type for which nothing has been bound yet.
    pub fn new(owner: String) -> (set: BindingSet)
        ensures
            set.deep_view() == BindingSetView::empty(owner@),
            set.deep_view().wf(),
    {
        let set = BindingSet {
            owner,
            fields: Vec::new(),
            properties: Vec::new(),
            methods: Vec::new(),
            functions: Vec::new(),
        };
        assert(set.fields.deep_view() =~= Seq::empty());
        assert(set.properties.deep_view() =~= Seq::empty());
        assert(set.methods.deep_view() =~= Seq::empty());
        assert(set.functions.deep_view() =~= Seq::empty());
        set
    }

    /// Adds the descriptors of `other` after those already here.
    pub fn extend(&mut self, other: BindingSet)
        ensures
            final(self).deep_view() == old(self).deep_view().extend(other.deep_view()),
            old(self).deep_view().wf() && other.deep_view().wf() ==> final(self).deep_view().wf(),
    {
        let ghost before = self.deep_view();
        let ghost added = other.deep_view();
        let BindingSet { owner: _, mut fields, mut properties, mut methods, mut functions } = other;
        self.fields.append(&mut fields);
        self.properties.append(&mut properties);
        self.methods.append(&mut methods);
        self.functions.append(&mut functions);
        assert(self.fields.deep_view() =~= before.fields + added.fields);
        assert(self.properties.deep_view() =~= before.properties + added.properties);
        assert(self.methods.deep_view() =~= before.methods + added.methods);
        assert(self.functions.deep_view() =~= before.functions + added.functions);
        proof {
            if before.wf() && added.wf() {
                lemma_extend_wf(before, added);
            }
        }
    }
}

} // verus!
