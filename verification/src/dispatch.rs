//! Which registration is in effect for a name.
//!
//! Nothing stops a name from being registered more than once: a visible
//! field and a like-named accessor operation both register it. The sinks
//! file registrations by name, so of several under one name the last is the
//! one in effect. In a field and property registrar the accessor pairs of
//! the fields come last, so a visible field prevails over a property of the
//! same name; in a method registrar the free functions come last.
//!
//! A read of a name on an instance is answered from the getters first and
//! from the methods only where no getter is registered under the name. So a
//! getter hides a like-named method or type function from a script that
//! reaches it through an instance.

use vstd::prelude::*;
use crate::emit::{
    AccessTarget,
    AccessTargetView,
    CallTarget,
    CallTargetView,
    ExportEntryView,
    FieldSinkCall,
    FieldSinkCallView,
    MethodSinkCall,
    MethodSinkCallView,
    TypeBindings,
    TypeBindingsView,
};
use crate::names::is_name;

verus! {

/// What a registration reads for `name`, if it registers a getter under it.
pub open spec fn getter_of(call: FieldSinkCallView, name: Seq<char>) -> Option<AccessTargetView> {
    match call {
        FieldSinkCallView::AddFieldGet { name: registered, read } => if registered == name {
            Some(read)
        } else {
            None
        },
        _ => None,
    }
}

/// What a registration writes for `name`, if it registers a setter under it.
pub open spec fn setter_of(call: FieldSinkCallView, name: Seq<char>) -> Option<AccessTargetView> {
    match call {
        FieldSinkCallView::AddFieldSet { name: registered, write } => if registered == name {
            Some(write)
        } else {
            None
        },
        _ => None,
    }
}

/// The getter in effect for `name`: that of the last registration of a
/// getter under it.
pub open spec fn getter_in_effect(registrar: Seq<FieldSinkCallView>, name: Seq<char>) -> Option<
    AccessTargetView,
>
    decreases registrar.len(),
{
    if registrar.len() == 0 {
        None
    } else {
        match getter_of(registrar.last(), name) {
            Some(read) => Some(read),
            None => getter_in_effect(registrar.drop_last(), name),
        }
    }
}

/// The setter in effect for `name`: that of the last registration of a
/// setter under it.
pub open spec fn setter_in_effect(registrar: Seq<FieldSinkCallView>, name: Seq<char>) -> Option<
    AccessTargetView,
>
    decreases registrar.len(),
{
    if registrar.len() == 0 {
        None
    } else {
        match setter_of(registrar.last(), name) {
            Some(write) => Some(write),
            None => setter_in_effect(registrar.drop_last(), name),
        }
    }
}

/// The method or type function in effect for `name`: the last registration
/// under it, of whichever kind.
pub open spec fn method_in_effect(registrar: Seq<MethodSinkCallView>, name: Seq<char>) -> Option<
    MethodSinkCallView,
>
    decreases registrar.len(),
{
    if registrar.len() == 0 {
        None
    } else if registrar.last().name() == name {
        Some(registrar.last())
    } else {
        method_in_effect(registrar.drop_last(), name)
    }
}

/// What a script finds as a callable under `name` on an instance: the
/// method or type function in effect, unless a getter hides it.
pub open spec fn callable_member(bindings: TypeBindingsView, name: Seq<char>) -> Option<
    MethodSinkCallView,
> {
    if getter_in_effect(bindings.field_registrar, name) is Some {
        None
    } else {
        method_in_effect(bindings.method_registrar, name)
    }
}

/// The export in effect for `name`: the call of the last entry set under it.
pub open spec fn export_in_effect(table: Seq<ExportEntryView>, name: Seq<char>) -> Option<
    CallTargetView,
>
    decreases table.len(),
{
    if table.len() == 0 {
        None
    } else if table.last().name == name {
        Some(table.last().call)
    } else {
        export_in_effect(table.drop_last(), name)
    }
}

/// Of two registrars run one after the other, the second decides wherever
/// it registers a getter under the name.
pub proof fn lemma_getter_in_effect_concat(
    first: Seq<FieldSinkCallView>,
    second: Seq<FieldSinkCallView>,
    name: Seq<char>,
)
    ensures
        getter_in_effect(second, name) is Some ==> getter_in_effect(first + second, name)
            == getter_in_effect(second, name),
        getter_in_effect(second, name) is None ==> getter_in_effect(first + second, name)
            == getter_in_effect(first, name),
    decreases second.len(),
{
    if second.len() == 0 {
        assert(first + second =~= first);
    } else {
        assert((first + second).drop_last() =~= first + second.drop_last());
        assert((first + second).last() == second.last());
        lemma_getter_in_effect_concat(first, second.drop_last(), name);
    }
}

/// Of two registrars run one after the other, the second decides wherever
/// it registers a setter under the name.
pub proof fn lemma_setter_in_effect_concat(
    first: Seq<FieldSinkCallView>,
    second: Seq<FieldSinkCallView>,
    name: Seq<char>,
)
    ensures
        setter_in_effect(second, name) is Some ==> setter_in_effect(first + second, name)
            == setter_in_effect(second, name),
        setter_in_effect(second, name) is None ==> setter_in_effect(first + second, name)
            == setter_in_effect(first, name),
    decreases second.len(),
{
    if second.len() == 0 {
        assert(first + second =~= first);
    } else {
        assert((first + second).drop_last() =~= first + second.drop_last());
        assert((first + second).last() == second.last());
        lemma_setter_in_effect_concat(first, second.drop_last(), name);
    }
}

/// Of two registrars run one after the other, the second decides wherever
/// it registers the name.
pub proof fn lemma_method_in_effect_concat(
    first: Seq<MethodSinkCallView>,
    second: Seq<MethodSinkCallView>,
    name: Seq<char>,
)
    ensures
        method_in_effect(second, name) is Some ==> method_in_effect(first + second, name)
            == method_in_effect(second, name),
        method_in_effect(second, name) is None ==> method_in_effect(first + second, name)
            == method_in_effect(first, name),
    decreases second.len(),
{
    if second.len() == 0 {
        assert(first + second =~= first);
    } else {
        assert((first + second).drop_last() =~= first + second.drop_last());
        assert((first + second).last() == second.last());
        lemma_method_in_effect_concat(first, second.drop_last(), name);
    }
}

/// The getter in effect is that of some registration, and there is none
/// only where no registration has one for the name.
pub proof fn lemma_getter_in_effect_witness(registrar: Seq<FieldSinkCallView>, name: Seq<char>)
    ensures
        getter_in_effect(registrar, name) matches Some(read) ==> exists|i: int|
            0 <= i < registrar.len() && getter_of(#[trigger] registrar[i], name) == Some(read),
        getter_in_effect(registrar, name) is None ==> forall|i: int|
            0 <= i < registrar.len() ==> getter_of(#[trigger] registrar[i], name) is None,
    decreases registrar.len(),
{
    if registrar.len() > 0 {
        let earlier = registrar.drop_last();
        lemma_getter_in_effect_witness(earlier, name);
        match getter_of(registrar.last(), name) {
            Some(read) => {
                assert(getter_of(registrar[registrar.len() - 1], name) == Some(read));
            },
            None => {
                match getter_in_effect(earlier, name) {
                    Some(read) => {
                        let i = choose|i: int|
                            0 <= i < earlier.len() && getter_of(#[trigger] earlier[i], name)
                                == Some(read);
                        assert(getter_of(registrar[i], name) == Some(read));
                    },
                    None => {
                        assert forall|i: int| 0 <= i < registrar.len() implies getter_of(
                            #[trigger] registrar[i],
                            name,
                        ) is None by {
                            if i < earlier.len() {
                                assert(getter_of(earlier[i], name) is None);
                            }
                        }
                    },
                }
            },
        }
    }
}

/// The setter in effect is that of some registration, and there is none
/// only where no registration has one for the name.
pub proof fn lemma_setter_in_effect_witness(registrar: Seq<FieldSinkCallView>, name: Seq<char>)
    ensures
        setter_in_effect(registrar, name) matches Some(write) ==> exists|i: int|
            0 <= i < registrar.len() && setter_of(#[trigger] registrar[i], name) == Some(write),
        setter_in_effect(registrar, name) is None ==> forall|i: int|
            0 <= i < registrar.len() ==> setter_of(#[trigger] registrar[i], name) is None,
    decreases registrar.len(),
{
    if registrar.len() > 0 {
        let earlier = registrar.drop_last();
        lemma_setter_in_effect_witness(earlier, name);
        match setter_of(registrar.last(), name) {
            Some(write) => {
                assert(setter_of(registrar[registrar.len() - 1], name) == Some(write));
            },
            None => {
                match setter_in_effect(earlier, name) {
                    Some(write) => {
                        let i = choose|i: int|
                            0 <= i < earlier.len() && setter_of(#[trigger] earlier[i], name)
                                == Some(write);
                        assert(setter_of(registrar[i], name) == Some(write));
                    },
                    None => {
                        assert forall|i: int| 0 <= i < registrar.len() implies setter_of(
                            #[trigger] registrar[i],
                            name,
                        ) is None by {
                            if i < earlier.len() {
                                assert(setter_of(earlier[i], name) is None);
                            }
                        }
                    },
                }
            },
        }
    }
}

/// The method in effect is the last of the registrations under the name,
/// and there is none only where nothing is registered under it.
pub proof fn lemma_method_in_effect_witness(registrar: Seq<MethodSinkCallView>, name: Seq<char>)
    ensures
        method_in_effect(registrar, name) matches Some(call) ==> call.name() == name && exists|
            i: int,
        |
            0 <= i < registrar.len() && #[trigger] registrar[i] == call && forall|j: int|
                i < j < registrar.len() ==> (#[trigger] registrar[j]).name() != name,
        method_in_effect(registrar, name) is None ==> forall|i: int|
            0 <= i < registrar.len() ==> (#[trigger] registrar[i]).name() != name,
    decreases registrar.len(),
{
    if registrar.len() > 0 {
        let earlier = registrar.drop_last();
        lemma_method_in_effect_witness(earlier, name);
        if registrar.last().name() == name {
            assert(registrar[registrar.len() - 1] == registrar.last());
        } else {
            match method_in_effect(earlier, name) {
                Some(call) => {
                    let i = choose|i: int|
                        0 <= i < earlier.len() && #[trigger] earlier[i] == call && forall|j: int|
                            i < j < earlier.len() ==> (#[trigger] earlier[j]).name() != name;
                    assert(registrar[i] == call);
                    assert forall|j: int| i < j < registrar.len() implies (
                    #[trigger] registrar[j]).name() != name by {
                        if j < earlier.len() {
                            assert(earlier[j].name() != name);
                        }
                    }
                },
                None => {
                    assert forall|i: int| 0 <= i < registrar.len() implies (
                    #[trigger] registrar[i]).name() != name by {
                        if i < earlier.len() {
                            assert(earlier[i].name() != name);
                        }
                    }
                },
            }
        }
    }
}

/// The export in effect is the call of the last entry under the name, and
/// there is none only where the table has no entry under it.
pub proof fn lemma_export_in_effect_witness(table: Seq<ExportEntryView>, name: Seq<char>)
    ensures
        export_in_effect(table, name) matches Some(call) ==> exists|i: int|
            0 <= i < table.len() && (#[trigger] table[i]).name == name && table[i].call == call
                && forall|j: int| i < j < table.len() ==> (#[trigger] table[j]).name != name,
        export_in_effect(table, name) is None ==> forall|i: int|
            0 <= i < table.len() ==> (#[trigger] table[i]).name != name,
    decreases table.len(),
{
    if table.len() > 0 {
        let earlier = table.drop_last();
        lemma_export_in_effect_witness(earlier, name);
        if table.last().name == name {
            assert(table[table.len() - 1] == table.last());
        } else {
            match export_in_effect(earlier, name) {
                Some(call) => {
                    let i = choose|i: int|
                        0 <= i < earlier.len() && (#[trigger] earlier[i]).name == name
                            && earlier[i].call == call && forall|j: int|
                            i < j < earlier.len() ==> (#[trigger] earlier[j]).name != name;
                    assert(table[i] == earlier[i]);
                    assert forall|j: int| i < j < table.len() implies (#[trigger] table[j]).name
                        != name by {
                        if j < earlier.len() {
                            assert(earlier[j].name != name);
                        }
                    }
                },
                None => {
                    assert forall|i: int| 0 <= i < table.len() implies (#[trigger] table[i]).name
                        != name by {
                        if i < earlier.len() {
                            assert(earlier[i].name != name);
                        }
                    }
                },
            }
        }
    }
}

impl FieldSinkCall {
    fn getter(&self, name: &str) -> (target: Option<&AccessTarget>)
        ensures
            target.deep_view() == getter_of(self.deep_view(), name@),
    {
        match self {
            FieldSinkCall::AddFieldGet { name: registered, read } => if is_name(registered, name) {
                Some(read)
            } else {
                None
            },
            _ => None,
        }
    }

    fn setter(&self, name: &str) -> (target: Option<&AccessTarget>)
        ensures
            target.deep_view() == setter_of(self.deep_view(), name@),
    {
        match self {
            FieldSinkCall::AddFieldSet { name: registered, write } => if is_name(registered, name) {
                Some(write)
            } else {
                None
            },
            _ => None,
        }
    }
}

impl MethodSinkCall {
    /// The name that the call registers.
    pub fn name(&self) -> (name: &String)
        ensures
            name@ == self.deep_view().name(),
    {
        match self {
            MethodSinkCall::AddMethod { name, .. } => name,
            MethodSinkCall::AddMutableMethod { name, .. } => name,
            MethodSinkCall::AddTypeFunction { name, .. } => name,
        }
    }
}

impl TypeBindings {
    /// The getter in effect for `name`, if any is registered.
    pub fn getter(&self, name: &str) -> (target: Option<&AccessTarget>)
        ensures
            target.deep_view() == getter_in_effect(self.deep_view().field_registrar, name@),
    {
        let ghost registrar = self.field_registrar.deep_view();
        let mut i: usize = self.field_registrar.len();
        assert(registrar.take(i as int) =~= registrar);
        while i > 0
            invariant
                i <= self.field_registrar.len(),
                registrar == self.field_registrar.deep_view(),
                getter_in_effect(registrar, name@) == getter_in_effect(
                    registrar.take(i as int),
                    name@,
                ),
            decreases i,
        {
            i -= 1;
            proof {
                assert(registrar.take(i + 1).drop_last() =~= registrar.take(i as int));
                assert(registrar.take(i + 1).last() == self.field_registrar[i as int].deep_view());
            }
            match self.field_registrar[i].getter(name) {
                Some(read) => {
                    return Some(read);
                },
                None => {},
            }
        }
        None
    }

    /// The setter in effect for `name`, if any is registered.
    pub fn setter(&self, name: &str) -> (target: Option<&AccessTarget>)
        ensures
            target.deep_view() == setter_in_effect(self.deep_view().field_registrar, name@),
    {
        let ghost registrar = self.field_registrar.deep_view();
        let mut i: usize = self.field_registrar.len();
        assert(registrar.take(i as int) =~= registrar);
        while i > 0
            invariant
                i <= self.field_registrar.len(),
                registrar == self.field_registrar.deep_view(),
                setter_in_effect(registrar, name@) == setter_in_effect(
                    registrar.take(i as int),
                    name@,
                ),
            decreases i,
        {
            i -= 1;
            proof {
                assert(registrar.take(i + 1).drop_last() =~= registrar.take(i as int));
                assert(registrar.take(i + 1).last() == self.field_registrar[i as int].deep_view());
            }
            match self.field_registrar[i].setter(name) {
                Some(write) => {
                    return Some(write);
                },
                None => {},
            }
        }
        None
    }

    /// The method or type function in effect for `name`, if any is
    /// registered.
    pub fn method(&self, name: &str) -> (call: Option<&MethodSinkCall>)
        ensures
            call.deep_view() == method_in_effect(self.deep_view().method_registrar, name@),
    {
        let ghost registrar = self.method_registrar.deep_view();
        let mut i: usize = self.method_registrar.len();
        assert(registrar.take(i as int) =~= registrar);
        while i > 0
            invariant
                i <= self.method_registrar.len(),
                registrar == self.method_registrar.deep_view(),
                method_in_effect(registrar, name@) == method_in_effect(
                    registrar.take(i as int),
                    name@,
                ),
            decreases i,
        {
            i -= 1;
            proof {
                assert(registrar.take(i + 1).drop_last() =~= registrar.take(i as int));
                assert(registrar.take(i + 1).last() == self.method_registrar[i as int].deep_view());
            }
            if is_name(self.method_registrar[i].name(), name) {
                return Some(&self.method_registrar[i]);
            }
        }
        None
    }

    /// The method or type function that a script finds under `name` on an
    /// instance: the one in effect, unless a getter hides it.
    pub fn callable(&self, name: &str) -> (call: Option<&MethodSinkCall>)
        ensures
            call.deep_view() == callable_member(self.deep_view(), name@),
    {
        if self.getter(name).is_some() {
            None
        } else {
            self.method(name)
        }
    }

    /// The export in effect for `name`, if the table has an entry under it.
    pub fn export(&self, name: &str) -> (call: Option<&CallTarget>)
        ensures
            call.deep_view() == export_in_effect(self.deep_view().export_table, name@),
    {
        let ghost table = self.export_table.deep_view();
        let mut i: usize = self.export_table.len();
        assert(table.take(i as int) =~= table);
        while i > 0
            invariant
                i <= self.export_table.len(),
                table == self.export_table.deep_view(),
                export_in_effect(table, name@) == export_in_effect(table.take(i as int), name@),
            decreases i,
        {
            i -= 1;
            proof {
                assert(table.take(i + 1).drop_last() =~= table.take(i as int));
                assert(table.take(i + 1).last() == self.export_table[i as int].deep_view());
            }
            if is_name(&self.export_table[i].name, name) {
                return Some(&self.export_table[i].call);
            }
        }
        None
    }
}

/// The bindings emitted for the type `owner`, if there are any: the first
/// in the list that are filed under that name.
pub fn bindings_for<'a>(all: &'a Vec<TypeBindings>, owner: &str) -> (found: Option<
    &'a TypeBindings,
>)
    ensures
        found matches Some(bindings) ==> exists|k: int|
            0 <= k < all.len() && all[k] == *bindings && bindings.owner@ == owner@ && forall|j: int|
                0 <= j < k ==> all[j].owner@ != owner@,
        found is None ==> forall|j: int| 0 <= j < all.len() ==> all[j].owner@ != owner@,
{
    let mut k: usize = 0;
    while k < all.len()
        invariant
            k <= all.len(),
            forall|j: int| 0 <= j < k ==> all[j].owner@ != owner@,
        decreases all.len() - k,
    {
        if is_name(&all[k].owner, owner) {
            return Some(&all[k]);
        }
        k += 1;
    }
    None
}

} // verus!
