//! What holds of the generated bindings, whatever the namespace body.
//!
//! The laws speak of the bindings that a generation pass emits for a type,
//! and of the fields and operations that the body declares for it.

use vstd::prelude::*;
use crate::behavior::spec_bind_operation;
use crate::binding::{
    AccessorRole,
    FieldAccessorView,
    FunctionBindingView,
    MethodBindingView,
    PropertyAccessorView,
};
use crate::classify::{BindingKind, ReceiverKind, spec_classify, spec_receiver_kind};
use crate::collect::{
    bindings_of,
    declared_types,
    fields_of,
    lemma_bindings_wf,
    lemma_collect_owners,
    operations_of,
    spec_collect,
};
use crate::decl::{DeclarationView, FieldDescriptorView, OperationView};
use crate::dispatch::{
    export_in_effect,
    getter_in_effect,
    getter_of,
    lemma_export_in_effect_witness,
    lemma_getter_in_effect_concat,
    lemma_getter_in_effect_witness,
    lemma_method_in_effect_concat,
    lemma_method_in_effect_witness,
    lemma_setter_in_effect_concat,
    lemma_setter_in_effect_witness,
    method_in_effect,
    setter_in_effect,
    setter_of,
};
use crate::emit::{
    AccessTargetView,
    CallTargetView,
    MethodSinkCallView,
    TypeBindingsView,
    export_entry,
    field_calls,
    function_call,
    method_call,
    property_call,
    spec_emit,
    spec_emit_all,
};
use crate::fields::field_accessor;
use crate::names::{getter_prefix, setter_prefix};
use crate::params::spec_map_parameters;
use crate::runtime::{
    HostModel,
    assign,
    call_export,
    call_method,
    call_type_function,
    handed_on,
    read,
};
use crate::sequences::{
    lemma_filter_map_origin,
    lemma_filter_map_selects,
    lemma_selected_before_grows,
    selected_before,
};

verus! {

/// The bindings that a generation pass emits for the type `owner`.
pub open spec fn generated_for(decls: Seq<DeclarationView>, owner: Seq<char>) -> TypeBindingsView {
    spec_emit(bindings_of(decls, owner))
}

/// Whether some type declaration of `owner` lists a visible field `name`.
pub open spec fn has_visible_field(
    decls: Seq<DeclarationView>,
    owner: Seq<char>,
    name: Seq<char>,
) -> bool {
    exists|k: int|
        0 <= k < fields_of(decls, owner).len() && (#[trigger] fields_of(decls, owner)[k]).visible
            && fields_of(decls, owner)[k].name == name
}

/// Whether a read of `name` is answered by a getter: the type declares a
/// visible field of that name, or an operation named `get_` + name.
pub open spec fn has_getter(decls: Seq<DeclarationView>, owner: Seq<char>, name: Seq<char>) -> bool {
    ||| has_visible_field(decls, owner, name)
    ||| exists|k: int|
        0 <= k < operations_of(decls, owner).len() && (#[trigger] operations_of(
            decls,
            owner,
        )[k]).name == getter_prefix() + name
}

/// Whether the method binding of the operation at `k` is the one in effect
/// under its name: every other operation that the type declares under that
/// name is bound the very same way, or is declared earlier and has a
/// receiver. A later one would be registered after it, and a receiver-less
/// one is registered after every method.
pub open spec fn method_prevails(ops: Seq<OperationView>, k: int) -> bool {
    forall|j: int|
        0 <= j < ops.len() && j != k && (#[trigger] ops[j]).name == ops[k].name ==> {
            ||| spec_bind_operation(ops[j]) == spec_bind_operation(ops[k])
            ||| j < k && spec_receiver_kind(ops[j].params) != ReceiverKind::Absent
        }
}

/// Whether the function binding of the operation at `k` is the one in effect
/// under its name: every receiver-less operation that the type declares
/// later under that name is bound the very same way.
pub open spec fn function_prevails(ops: Seq<OperationView>, k: int) -> bool {
    forall|j: int|
        k < j < ops.len() && (#[trigger] ops[j]).name == ops[k].name && spec_receiver_kind(
            ops[j].params,
        ) == ReceiverKind::Absent ==> spec_bind_operation(ops[j]) == spec_bind_operation(ops[k])
}

/// The name of the accessor operation of a property: the prefix of the role,
/// then the property.
pub open spec fn accessor_name(role: AccessorRole, property: Seq<char>) -> Seq<char> {
    match role {
        AccessorRole::Getter => getter_prefix() + property,
        AccessorRole::Setter => setter_prefix() + property,
    }
}

/// An accessor operation's name is its prefix followed by its property.
proof fn lemma_accessor_name(p: PropertyAccessorView)
    requires
        p.wf(),
    ensures
        p.operation == accessor_name(p.role, p.property),
{
    match p.role {
        AccessorRole::Getter => {
            assert(p.operation =~= getter_prefix() + p.operation.skip(4));
        },
        AccessorRole::Setter => {
            assert(p.operation =~= setter_prefix() + p.operation.skip(4));
        },
    }
}

/// The registrations of the accessor pairs: two per field, the getter at the
/// even position and the setter at the odd one.
proof fn lemma_field_part(fields: Seq<FieldAccessorView>)
    ensures
        fields.flat_map(|f: FieldAccessorView| field_calls(f)).len() == 2 * fields.len(),
        forall|k: int|
            0 <= k < fields.len() ==> fields.flat_map(|f: FieldAccessorView| field_calls(f))[2 * k]
                == field_calls(#[trigger] fields[k])[0] && fields.flat_map(
                |f: FieldAccessorView| field_calls(f),
            )[2 * k + 1] == field_calls(fields[k])[1],
    decreases fields.len(),
{
    let of_field = |f: FieldAccessorView| field_calls(f);
    if fields.len() == 0 {
        assert(fields.flat_map(of_field) =~= Seq::empty());
    } else {
        let earlier = fields.drop_last();
        lemma_field_part(earlier);
        earlier.lemma_flat_map_push(of_field, fields.last());
        assert(earlier.push(fields.last()) =~= fields);
        let part = fields.flat_map(of_field);
        assert(part =~= earlier.flat_map(of_field) + field_calls(fields.last()));
        assert forall|k: int| 0 <= k < fields.len() implies {
            &&& part[2 * k] == field_calls(#[trigger] fields[k])[0]
            &&& part[2 * k + 1] == field_calls(fields[k])[1]
        } by {
            if k < earlier.len() {
                assert(earlier[k] == fields[k]);
            }
        }
    }
}

/// The field that an accessor pair binds `name` to, if one has the name.
pub open spec fn field_target(fields: Seq<FieldAccessorView>, name: Seq<char>) -> Option<
    AccessTargetView,
> {
    if exists|k: int| 0 <= k < fields.len() && (#[trigger] fields[k]).name == name {
        Some(AccessTargetView::Field(name))
    } else {
        None
    }
}

/// The operation that a property accessor of the given role binds `name` to,
/// if one is an accessor of that property in that role.
pub open spec fn property_target(
    properties: Seq<PropertyAccessorView>,
    role: AccessorRole,
    name: Seq<char>,
) -> Option<AccessTargetView> {
    if exists|k: int|
        0 <= k < properties.len() && (#[trigger] properties[k]).role == role
            && properties[k].property == name {
        Some(AccessTargetView::Operation(accessor_name(role, name)))
    } else {
        None
    }
}

/// Among the accessor pairs, the getter and the setter in effect for a name
/// are bound to the field of that name, and there is one exactly where an
/// accessor pair has the name.
proof fn lemma_field_part_in_effect(fields: Seq<FieldAccessorView>, name: Seq<char>)
    ensures
        getter_in_effect(fields.flat_map(|f: FieldAccessorView| field_calls(f)), name)
            == field_target(fields, name),
        setter_in_effect(fields.flat_map(|f: FieldAccessorView| field_calls(f)), name)
            == field_target(fields, name),
{
    let part = fields.flat_map(|f: FieldAccessorView| field_calls(f));
    lemma_field_part(fields);
    lemma_getter_in_effect_witness(part, name);
    lemma_setter_in_effect_witness(part, name);
    if exists|k: int| 0 <= k < fields.len() && (#[trigger] fields[k]).name == name {
        let k = choose|k: int| 0 <= k < fields.len() && (#[trigger] fields[k]).name == name;
        assert(part[2 * k] == field_calls(fields[k])[0]);
        assert(part[2 * k + 1] == field_calls(fields[k])[1]);
        assert(getter_of(part[2 * k], name) is Some);
        assert(setter_of(part[2 * k + 1], name) is Some);
    }
    match getter_in_effect(part, name) {
        Some(read) => {
            let i = choose|i: int|
                0 <= i < part.len() && getter_of(#[trigger] part[i], name) == Some(read);
            let k = i / 2;
            assert(part[2 * k] == field_calls(fields[k])[0]);
            assert(part[2 * k + 1] == field_calls(fields[k])[1]);
            assert(i == 2 * k || i == 2 * k + 1);
            assert(fields[k].name == name);
        },
        None => {},
    }
    match setter_in_effect(part, name) {
        Some(write) => {
            let i = choose|i: int|
                0 <= i < part.len() && setter_of(#[trigger] part[i], name) == Some(write);
            let k = i / 2;
            assert(part[2 * k] == field_calls(fields[k])[0]);
            assert(part[2 * k + 1] == field_calls(fields[k])[1]);
            assert(i == 2 * k || i == 2 * k + 1);
            assert(fields[k].name == name);
        },
        None => {},
    }
}

/// Among the property accessors, the getter in effect for a name is bound
/// to the operation `get_` + name, and there is one exactly where some
/// accessor is a getter of that property. Likewise for setters and `set_`.
proof fn lemma_property_part_in_effect(properties: Seq<PropertyAccessorView>, name: Seq<char>)
    requires
        forall|i: int| 0 <= i < properties.len() ==> (#[trigger] properties[i]).wf(),
    ensures
        getter_in_effect(properties.map_values(|p: PropertyAccessorView| property_call(p)), name)
            == property_target(properties, AccessorRole::Getter, name),
        setter_in_effect(properties.map_values(|p: PropertyAccessorView| property_call(p)), name)
            == property_target(properties, AccessorRole::Setter, name),
{
    let part = properties.map_values(|p: PropertyAccessorView| property_call(p));
    lemma_getter_in_effect_witness(part, name);
    lemma_setter_in_effect_witness(part, name);
    if exists|k: int|
        0 <= k < properties.len() && (#[trigger] properties[k]).role == AccessorRole::Getter
            && properties[k].property == name {
        let k = choose|k: int|
            0 <= k < properties.len() && (#[trigger] properties[k]).role == AccessorRole::Getter
                && properties[k].property == name;
        assert(getter_of(part[k], name) is Some);
    }
    if exists|k: int|
        0 <= k < properties.len() && (#[trigger] properties[k]).role == AccessorRole::Setter
            && properties[k].property == name {
        let k = choose|k: int|
            0 <= k < properties.len() && (#[trigger] properties[k]).role == AccessorRole::Setter
                && properties[k].property == name;
        assert(setter_of(part[k], name) is Some);
    }
    match getter_in_effect(part, name) {
        Some(read) => {
            let i = choose|i: int|
                0 <= i < part.len() && getter_of(#[trigger] part[i], name) == Some(read);
            assert(part[i] == property_call(properties[i]));
            assert(properties[i].wf());
            lemma_accessor_name(properties[i]);
        },
        None => {},
    }
    match setter_in_effect(part, name) {
        Some(write) => {
            let i = choose|i: int|
                0 <= i < part.len() && setter_of(#[trigger] part[i], name) == Some(write);
            assert(part[i] == property_call(properties[i]));
            assert(properties[i].wf());
            lemma_accessor_name(properties[i]);
        },
        None => {},
    }
}

/// A type's binding set has an accessor pair under a name exactly where the
/// type declares a visible field of that name.
pub proof fn lemma_accessor_pairs(decls: Seq<DeclarationView>, owner: Seq<char>, name: Seq<char>)
    ensures
        has_visible_field(decls, owner, name) <==> exists|i: int|
            0 <= i < bindings_of(decls, owner).fields.len() && (#[trigger] bindings_of(
                decls,
                owner,
            ).fields[i]).name == name,
{
    let set = bindings_of(decls, owner);
    let fields = fields_of(decls, owner);
    let pick = |f: FieldDescriptorView| field_accessor(f);
    if has_visible_field(decls, owner, name) {
        let k = choose|k: int|
            0 <= k < fields.len() && (#[trigger] fields[k]).visible && fields[k].name == name;
        lemma_filter_map_selects(fields, pick, k);
        assert(set.fields[selected_before(fields, pick, k)].name == name);
    }
    if exists|i: int| 0 <= i < set.fields.len() && (#[trigger] set.fields[i]).name == name {
        let i = choose|i: int| 0 <= i < set.fields.len() && (#[trigger] set.fields[i]).name == name;
        let k = lemma_filter_map_origin(fields, pick, i);
        assert(fields[k].visible && fields[k].name == name);
    }
}

/// A type's binding set has a getter of a property exactly where the type
/// declares an operation named `get_` + property, and a setter exactly where
/// it declares one named `set_` + property.
pub proof fn lemma_property_accessors(
    decls: Seq<DeclarationView>,
    owner: Seq<char>,
    property: Seq<char>,
    role: AccessorRole,
)
    ensures
        (exists|k: int|
            0 <= k < operations_of(decls, owner).len() && (#[trigger] operations_of(
                decls,
                owner,
            )[k]).name == accessor_name(role, property)) <==> (exists|i: int|
            0 <= i < bindings_of(decls, owner).properties.len() && (#[trigger] bindings_of(
                decls,
                owner,
            ).properties[i]).role == role && bindings_of(decls, owner).properties[i].property
                == property),
{
    let set = bindings_of(decls, owner);
    let ops = operations_of(decls, owner);
    let pick = |op: OperationView| spec_bind_operation(op).property();
    let full = accessor_name(role, property);
    lemma_bindings_wf(decls, owner);
    assert(getter_prefix().is_prefix_of(getter_prefix() + property)) by {
        assert((getter_prefix() + property).subrange(0, 4) =~= getter_prefix());
    }
    assert(setter_prefix().is_prefix_of(setter_prefix() + property)) by {
        assert((setter_prefix() + property).subrange(0, 4) =~= setter_prefix());
    }
    assert(!getter_prefix().is_prefix_of(setter_prefix() + property)) by {
        assert((setter_prefix() + property)[0] == 's');
        assert(getter_prefix()[0] == 'g');
        if getter_prefix().is_prefix_of(setter_prefix() + property) {
            assert((setter_prefix() + property).subrange(0, 4)[0] == 's');
        }
    }
    assert(full.skip(4) =~= property);
    if exists|k: int| 0 <= k < ops.len() && (#[trigger] ops[k]).name == full {
        let k = choose|k: int| 0 <= k < ops.len() && (#[trigger] ops[k]).name == full;
        let expected = PropertyAccessorView { property, operation: full, role };
        assert(pick(ops[k]) == Some(expected));
        lemma_filter_map_selects(ops, pick, k);
        let i = selected_before(ops, pick, k);
        assert(set.properties[i].role == role && set.properties[i].property == property);
    }
    if exists|i: int|
        0 <= i < set.properties.len() && (#[trigger] set.properties[i]).role == role
            && set.properties[i].property == property {
        let i = choose|i: int|
            0 <= i < set.properties.len() && (#[trigger] set.properties[i]).role == role
                && set.properties[i].property == property;
        let k = lemma_filter_map_origin(ops, pick, i);
        assert(set.properties[i].wf());
        lemma_accessor_name(set.properties[i]);
        assert(ops[k].name == full);
    }
}

/// A getter is in effect under a name exactly where the type declares a
/// visible field of that name or an operation named `get_` + name.
pub proof fn lemma_getter_registered(
    decls: Seq<DeclarationView>,
    owner: Seq<char>,
    name: Seq<char>,
)
    ensures
        getter_in_effect(generated_for(decls, owner).field_registrar, name) is Some <==> has_getter(
            decls,
            owner,
            name,
        ),
{
    let set = bindings_of(decls, owner);
    let head = set.properties.map_values(|p: PropertyAccessorView| property_call(p));
    let tail = set.fields.flat_map(|f: FieldAccessorView| field_calls(f));
    lemma_accessor_pairs(decls, owner, name);
    lemma_field_part_in_effect(set.fields, name);
    lemma_property_accessors(decls, owner, name, AccessorRole::Getter);
    lemma_bindings_wf(decls, owner);
    lemma_property_part_in_effect(set.properties, name);
    lemma_getter_in_effect_concat(head, tail, name);
}

/// A visible field is read and assigned as the field itself: an assignment
/// replaces the field's value and nothing else, and a read returns the
/// field's current value. So a read right after an assignment returns the
/// value assigned. A property of the same name does not get in the way: the
/// field's accessor pair is the one in effect.
pub proof fn law_field_assign_then_read<V>(
    host: HostModel<V>,
    decls: Seq<DeclarationView>,
    owner: Seq<char>,
    field: Seq<char>,
    instance: Map<Seq<char>, V>,
    value: V,
)
    requires
        has_visible_field(decls, owner, field),
    ensures
        read(host, generated_for(decls, owner), instance, field) == Some(instance[field]),
        assign(host, generated_for(decls, owner), instance, field, value) == Some(
            instance.insert(field, value),
        ),
        read(host, generated_for(decls, owner), instance.insert(field, value), field) == Some(value),
{
    let set = bindings_of(decls, owner);
    let head = set.properties.map_values(|p: PropertyAccessorView| property_call(p));
    let tail = set.fields.flat_map(|f: FieldAccessorView| field_calls(f));
    lemma_accessor_pairs(decls, owner, field);
    lemma_field_part_in_effect(set.fields, field);
    lemma_getter_in_effect_concat(head, tail, field);
    lemma_setter_in_effect_concat(head, tail, field);
}

/// Reading the property `X` of a type that declares an operation `get_X`,
/// with a receiver and no other parameter, returns what invoking that
/// operation on the instance returns. This holds unless the type also has a
/// visible field `X`, whose accessor pair then prevails.
pub proof fn law_property_read<V>(
    host: HostModel<V>,
    decls: Seq<DeclarationView>,
    owner: Seq<char>,
    k: int,
    property: Seq<char>,
    instance: Map<Seq<char>, V>,
)
    requires
        0 <= k < operations_of(decls, owner).len(),
        operations_of(decls, owner)[k].name == getter_prefix() + property,
        spec_receiver_kind(operations_of(decls, owner)[k].params) != ReceiverKind::Absent,
        operations_of(decls, owner)[k].params.len() == 1,
        !has_visible_field(decls, owner, property),
    ensures
        read(host, generated_for(decls, owner), instance, property) == Some(
            (host.invoke)(getter_prefix() + property, instance, Seq::empty()).1,
        ),
{
    let set = bindings_of(decls, owner);
    let ops = operations_of(decls, owner);
    let head = set.properties.map_values(|p: PropertyAccessorView| property_call(p));
    let tail = set.fields.flat_map(|f: FieldAccessorView| field_calls(f));
    lemma_accessor_pairs(decls, owner, property);
    lemma_field_part_in_effect(set.fields, property);
    assert(ops[k].name == getter_prefix() + property);
    lemma_property_accessors(decls, owner, property, AccessorRole::Getter);
    lemma_bindings_wf(decls, owner);
    lemma_property_part_in_effect(set.properties, property);
    lemma_getter_in_effect_concat(head, tail, property);
}

/// Assigning to the property `X` of a type that declares an operation
/// `set_X`, with a receiver and exactly one other parameter, invokes that
/// operation with the assigned value as its one argument, and later reads
/// see the instance that the operation left. This holds unless the type also
/// has a visible field `X`, whose accessor pair then prevails.
pub proof fn law_property_assign<V>(
    host: HostModel<V>,
    decls: Seq<DeclarationView>,
    owner: Seq<char>,
    k: int,
    property: Seq<char>,
    instance: Map<Seq<char>, V>,
    value: V,
)
    requires
        0 <= k < operations_of(decls, owner).len(),
        operations_of(decls, owner)[k].name == setter_prefix() + property,
        spec_receiver_kind(operations_of(decls, owner)[k].params) != ReceiverKind::Absent,
        operations_of(decls, owner)[k].params.len() == 2,
        !has_visible_field(decls, owner, property),
    ensures
        assign(host, generated_for(decls, owner), instance, property, value) == Some(
            (host.invoke)(setter_prefix() + property, instance, seq![value]).0,
        ),
        forall|field: Seq<char>| #[trigger]
            has_visible_field(decls, owner, field) ==> read(
                host,
                generated_for(decls, owner),
                (host.invoke)(setter_prefix() + property, instance, seq![value]).0,
                field,
            ) == Some((host.invoke)(setter_prefix() + property, instance, seq![value]).0[field]),
{
    let set = bindings_of(decls, owner);
    let ops = operations_of(decls, owner);
    let head = set.properties.map_values(|p: PropertyAccessorView| property_call(p));
    let tail = set.fields.flat_map(|f: FieldAccessorView| field_calls(f));
    let after = (host.invoke)(setter_prefix() + property, instance, seq![value]).0;
    lemma_accessor_pairs(decls, owner, property);
    lemma_field_part_in_effect(set.fields, property);
    assert(ops[k].name == setter_prefix() + property);
    lemma_property_accessors(decls, owner, property, AccessorRole::Setter);
    lemma_bindings_wf(decls, owner);
    lemma_property_part_in_effect(set.properties, property);
    lemma_setter_in_effect_concat(head, tail, property);
    assert forall|field: Seq<char>| #[trigger]
        has_visible_field(decls, owner, field) implies read(
        host,
        generated_for(decls, owner),
        after,
        field,
    ) == Some(after[field]) by {
        law_field_assign_then_read(host, decls, owner, field, after, value);
    }
}

/// Invoking a mutable operation through its binding invokes it on the
/// instance itself, with the incoming values that its call site hands on,
/// and later reads see the instance that the operation left. This holds
/// where no getter hides the operation's name and the operation's binding is
/// the one in effect under it; where the type declares another operation
/// under that name that is registered after it and bound differently, that
/// other binding is in effect instead.
pub proof fn law_mutable_method<V>(
    host: HostModel<V>,
    decls: Seq<DeclarationView>,
    owner: Seq<char>,
    k: int,
    instance: Map<Seq<char>, V>,
    incoming: Seq<V>,
)
    requires
        0 <= k < operations_of(decls, owner).len(),
        spec_classify(
            operations_of(decls, owner)[k].name,
            spec_receiver_kind(operations_of(decls, owner)[k].params),
        ) == (BindingKind::InstanceMethod { mutable: true }),
        method_prevails(operations_of(decls, owner), k),
        !has_getter(decls, owner, operations_of(decls, owner)[k].name),
    ensures
        call_method(
            host,
            generated_for(decls, owner),
            instance,
            operations_of(decls, owner)[k].name,
            incoming,
        ) == Some(
            (host.invoke)(
                operations_of(decls, owner)[k].name,
                instance,
                handed_on(
                    spec_map_parameters(
                        operations_of(decls, owner)[k].params,
                        ReceiverKind::ByMutableReference,
                    ),
                    incoming,
                ),
            ).0,
        ),
        forall|field: Seq<char>| #[trigger]
            has_visible_field(decls, owner, field) ==> read(
                host,
                generated_for(decls, owner),
                call_method(
                    host,
                    generated_for(decls, owner),
                    instance,
                    operations_of(decls, owner)[k].name,
                    incoming,
                )->0,
                field,
            ) == Some(
                call_method(
                    host,
                    generated_for(decls, owner),
                    instance,
                    operations_of(decls, owner)[k].name,
                    incoming,
                )->0[field],
            ),
{
    let set = bindings_of(decls, owner);
    let ops = operations_of(decls, owner);
    let name = ops[k].name;
    let pick_method = |op: OperationView| spec_bind_operation(op).method();
    let pick_function = |op: OperationView| spec_bind_operation(op).function();
    let head = set.methods.map_values(|m: MethodBindingView| method_call(m));
    let tail = set.functions.map_values(|f: FunctionBindingView| function_call(f));
    let registrar = head + tail;
    let bound = spec_bind_operation(ops[k]).method()->0;
    assert(spec_receiver_kind(ops[k].params) == ReceiverKind::ByMutableReference);
    lemma_filter_map_selects(ops, pick_method, k);
    let at = selected_before(ops, pick_method, k);
    assert(registrar[at] == method_call(bound));
    lemma_getter_registered(decls, owner, name);
    lemma_method_in_effect_witness(registrar, name);
    let call = method_in_effect(registrar, name)->0;
    let i = choose|i: int|
        0 <= i < registrar.len() && #[trigger] registrar[i] == call && forall|j: int|
            i < j < registrar.len() ==> (#[trigger] registrar[j]).name() != name;
    assert(at <= i);
    if i < head.len() {
        let origin = lemma_filter_map_origin(ops, pick_method, i);
        assert(ops[origin].name == name);
        if origin != k && spec_bind_operation(ops[origin]) != spec_bind_operation(ops[k]) {
            lemma_selected_before_grows(ops, pick_method, origin, k);
        }
        assert(set.methods[i] == bound);
    } else {
        let origin = lemma_filter_map_origin(ops, pick_function, i - head.len());
        assert(ops[origin].name == name);
        assert(spec_receiver_kind(ops[origin].params) == ReceiverKind::Absent);
    }
    let after = call_method(host, generated_for(decls, owner), instance, name, incoming)->0;
    assert forall|field: Seq<char>| #[trigger]
        has_visible_field(decls, owner, field) implies read(
        host,
        generated_for(decls, owner),
        after,
        field,
    ) == Some(after[field]) by {
        law_field_assign_then_read(host, decls, owner, field, after, after[field]);
    }
}

/// The type-scoped registration of a name that goes by the given call.
pub open spec fn type_function_of(name: Seq<char>, call: Option<CallTargetView>) -> Option<
    MethodSinkCallView,
> {
    match call {
        Some(call) => Some(MethodSinkCallView::AddTypeFunction { name, call }),
        None => None,
    }
}

/// Among the free functions, the type function and the export in effect for
/// a name go by the same call.
proof fn lemma_function_part_in_effect(functions: Seq<FunctionBindingView>, name: Seq<char>)
    ensures
        method_in_effect(functions.map_values(|f: FunctionBindingView| function_call(f)), name)
            == type_function_of(
            name,
            export_in_effect(functions.map_values(|f: FunctionBindingView| export_entry(f)), name),
        ),
    decreases functions.len(),
{
    let registered = functions.map_values(|f: FunctionBindingView| function_call(f));
    let exported = functions.map_values(|f: FunctionBindingView| export_entry(f));
    if functions.len() > 0 {
        let earlier = functions.drop_last();
        lemma_function_part_in_effect(earlier, name);
        assert(registered.drop_last() =~= earlier.map_values(
            |f: FunctionBindingView| function_call(f),
        ));
        assert(exported.drop_last() =~= earlier.map_values(
            |f: FunctionBindingView| export_entry(f),
        ));
    }
}

/// A call of a name as a type-scoped function and a call of the same name
/// through the standalone export table give the same result for the same
/// incoming values: both fail, or both return what the same operation
/// returns for the same arguments. Neither takes an instance. This holds of
/// every name that no getter hides; a hidden name is callable through the
/// export table alone.
pub proof fn law_free_function_paths_agree<V>(
    host: HostModel<V>,
    decls: Seq<DeclarationView>,
    owner: Seq<char>,
    name: Seq<char>,
    incoming: Seq<V>,
)
    ensures
        !has_getter(decls, owner, name) ==> call_type_function(
            host,
            generated_for(decls, owner),
            name,
            incoming,
        ) == call_export(host, generated_for(decls, owner), name, incoming),
        has_getter(decls, owner, name) ==> call_type_function(
            host,
            generated_for(decls, owner),
            name,
            incoming,
        ) is None,
{
    let set = bindings_of(decls, owner);
    let head = set.methods.map_values(|m: MethodBindingView| method_call(m));
    let tail = set.functions.map_values(|f: FunctionBindingView| function_call(f));
    lemma_getter_registered(decls, owner, name);
    lemma_function_part_in_effect(set.functions, name);
    lemma_method_in_effect_concat(head, tail, name);
    lemma_method_in_effect_witness(head, name);
    match method_in_effect(head, name) {
        Some(call) => {
            let i = choose|i: int|
                0 <= i < head.len() && #[trigger] head[i] == call && forall|j: int|
                    i < j < head.len() ==> (#[trigger] head[j]).name() != name;
            assert(call == method_call(set.methods[i]));
        },
        None => {},
    }
}

/// A receiver-less operation is callable through the export table, and
/// through both paths with the same result where no getter hides its name.
/// Where its binding is the one in effect under its name, the result is what
/// the operation returns for the incoming values that its call site hands
/// on; where the type later declares another receiver-less operation under
/// that name that is bound differently, that other binding is in effect
/// instead.
pub proof fn law_free_function_callable<V>(
    host: HostModel<V>,
    decls: Seq<DeclarationView>,
    owner: Seq<char>,
    k: int,
    incoming: Seq<V>,
)
    requires
        0 <= k < operations_of(decls, owner).len(),
        spec_classify(
            operations_of(decls, owner)[k].name,
            spec_receiver_kind(operations_of(decls, owner)[k].params),
        ) == BindingKind::FreeFunction,
    ensures
        call_export(host, generated_for(decls, owner), operations_of(decls, owner)[k].name, incoming)
            is Some,
        !has_getter(decls, owner, operations_of(decls, owner)[k].name) ==> call_type_function(
            host,
            generated_for(decls, owner),
            operations_of(decls, owner)[k].name,
            incoming,
        ) == call_export(
            host,
            generated_for(decls, owner),
            operations_of(decls, owner)[k].name,
            incoming,
        ),
        function_prevails(operations_of(decls, owner), k) ==> call_export(
            host,
            generated_for(decls, owner),
            operations_of(decls, owner)[k].name,
            incoming,
        ) == Some(
            (host.call)(
                operations_of(decls, owner)[k].name,
                handed_on(
                    spec_map_parameters(operations_of(decls, owner)[k].params, ReceiverKind::Absent),
                    incoming,
                ),
            ),
        ),
{
    let set = bindings_of(decls, owner);
    let ops = operations_of(decls, owner);
    let name = ops[k].name;
    let pick_function = |op: OperationView| spec_bind_operation(op).function();
    let table = set.functions.map_values(|f: FunctionBindingView| export_entry(f));
    let bound = spec_bind_operation(ops[k]).function()->0;
    law_free_function_paths_agree(host, decls, owner, name, incoming);
    assert(spec_receiver_kind(ops[k].params) == ReceiverKind::Absent);
    lemma_filter_map_selects(ops, pick_function, k);
    let at = selected_before(ops, pick_function, k);
    assert(table[at] == export_entry(bound));
    lemma_export_in_effect_witness(table, name);
    if function_prevails(ops, k) {
        let call = export_in_effect(table, name)->0;
        let i = choose|i: int|
            0 <= i < table.len() && (#[trigger] table[i]).name == name && table[i].call == call
                && forall|j: int| i < j < table.len() ==> (#[trigger] table[j]).name != name;
        assert(at <= i);
        let origin = lemma_filter_map_origin(ops, pick_function, i);
        assert(ops[origin].name == name);
        assert(spec_receiver_kind(ops[origin].params) == ReceiverKind::Absent);
        if origin < k {
            lemma_selected_before_grows(ops, pick_function, origin, k);
        }
        assert(set.functions[i] == bound);
    }
}

/// A name is not exposed as a readable or assignable member unless the type
/// declares a visible field of that name or an accessor operation for it. A
/// hidden field in particular gets no accessor.
pub proof fn law_nothing_else_exposed<V>(
    host: HostModel<V>,
    decls: Seq<DeclarationView>,
    owner: Seq<char>,
    name: Seq<char>,
    instance: Map<Seq<char>, V>,
    value: V,
)
    requires
        !has_visible_field(decls, owner, name),
    ensures
        (forall|k: int|
            0 <= k < operations_of(decls, owner).len() ==> (#[trigger] operations_of(
                decls,
                owner,
            )[k]).name != getter_prefix() + name) ==> read(
            host,
            generated_for(decls, owner),
            instance,
            name,
        ) is None,
        (forall|k: int|
            0 <= k < operations_of(decls, owner).len() ==> (#[trigger] operations_of(
                decls,
                owner,
            )[k]).name != setter_prefix() + name) ==> assign(
            host,
            generated_for(decls, owner),
            instance,
            name,
            value,
        ) is None,
{
    let set = bindings_of(decls, owner);
    let head = set.properties.map_values(|p: PropertyAccessorView| property_call(p));
    let tail = set.fields.flat_map(|f: FieldAccessorView| field_calls(f));
    lemma_accessor_pairs(decls, owner, name);
    lemma_field_part_in_effect(set.fields, name);
    lemma_property_accessors(decls, owner, name, AccessorRole::Getter);
    lemma_property_accessors(decls, owner, name, AccessorRole::Setter);
    lemma_bindings_wf(decls, owner);
    lemma_property_part_in_effect(set.properties, name);
    lemma_getter_in_effect_concat(head, tail, name);
    lemma_setter_in_effect_concat(head, tail, name);
}

/// A generation pass emits bindings for exactly the types that the body
/// names, once each, and for each of them the bindings that these laws
/// speak of.
pub proof fn law_generated_bindings(decls: Seq<DeclarationView>)
    ensures
        spec_emit_all(spec_collect(decls)).len() == declared_types(decls).len(),
        forall|i: int|
            0 <= i < declared_types(decls).len() ==> #[trigger] spec_emit_all(
                spec_collect(decls),
            )[i] == generated_for(decls, declared_types(decls)[i]),
        forall|i: int, j: int|
            0 <= i < declared_types(decls).len() && 0 <= j < declared_types(decls).len() && i != j
                ==> spec_emit_all(spec_collect(decls))[i].owner != spec_emit_all(
                spec_collect(decls),
            )[j].owner,
{
    lemma_collect_owners(decls);
}

} // verus!
