use mlua_userdata_macro::binding::{
    AccessorRole, BindingSet, FieldAccessor, FunctionBinding, MethodBinding, PropertyAccessor,
};
use mlua_userdata_macro::emit::{
    emit, emit_all, emit_export_table, emit_field_registrar, emit_method_registrar, AccessTarget,
    CallTarget, ExportEntry, FieldSinkCall, MethodSinkCall, TypeBindings,
};
use mlua_userdata_macro::params::{ParamDescriptor, ParameterList};

fn positional(params: &[(&str, &str)]) -> ParameterList {
    ParameterList::Positional(
        params
            .iter()
            .map(|(name, ty)| ParamDescriptor { name: name.to_string(), ty: ty.to_string() })
            .collect(),
    )
}

fn get(name: &str, read: AccessTarget) -> FieldSinkCall {
    FieldSinkCall::AddFieldGet { name: name.to_string(), read }
}

fn set(name: &str, write: AccessTarget) -> FieldSinkCall {
    FieldSinkCall::AddFieldSet { name: name.to_string(), write }
}

fn field(name: &str) -> AccessTarget {
    AccessTarget::Field(name.to_string())
}

fn op(name: &str) -> AccessTarget {
    AccessTarget::Operation(name.to_string())
}

fn call(operation: &str, params: ParameterList) -> CallTarget {
    CallTarget { operation: operation.to_string(), params }
}

fn sample() -> BindingSet {
    BindingSet {
        owner: "MyStruct".to_string(),
        fields: vec![FieldAccessor { name: "value".to_string() }],
        properties: vec![
            PropertyAccessor {
                property: "v".to_string(),
                operation: "get_v".to_string(),
                role: AccessorRole::Getter,
            },
            PropertyAccessor {
                property: "moo".to_string(),
                operation: "get_moo".to_string(),
                role: AccessorRole::Getter,
            },
            PropertyAccessor {
                property: "v".to_string(),
                operation: "set_v".to_string(),
                role: AccessorRole::Setter,
            },
        ],
        methods: vec![
            MethodBinding {
                name: "increment".to_string(),
                mutable: true,
                params: ParameterList::Wildcard,
            },
            MethodBinding {
                name: "describe".to_string(),
                mutable: false,
                params: positional(&[("n", "u8")]),
            },
        ],
        functions: vec![FunctionBinding {
            name: "new".to_string(),
            params: positional(&[("value", "i32")]),
        }],
    }
}

#[test]
fn field_registrar_lists_properties_then_accessor_pairs() {
    assert_eq!(
        emit_field_registrar(&sample()),
        vec![
            get("v", op("get_v")),
            get("moo", op("get_moo")),
            set("v", op("set_v")),
            get("value", field("value")),
            set("value", field("value")),
        ]
    );
}

#[test]
fn method_registrar_lists_methods_then_type_functions() {
    assert_eq!(
        emit_method_registrar(&sample()),
        vec![
            MethodSinkCall::AddMutableMethod {
                name: "increment".to_string(),
                call: call("increment", ParameterList::Wildcard),
            },
            MethodSinkCall::AddMethod {
                name: "describe".to_string(),
                call: call("describe", positional(&[("n", "u8")])),
            },
            MethodSinkCall::AddTypeFunction {
                name: "new".to_string(),
                call: call("new", positional(&[("value", "i32")])),
            },
        ]
    );
}

#[test]
fn export_table_has_one_entry_per_free_function() {
    assert_eq!(
        emit_export_table(&sample()),
        vec![ExportEntry {
            name: "new".to_string(),
            call: call("new", positional(&[("value", "i32")])),
        }]
    );
}

#[test]
fn export_entry_and_type_function_share_name_and_call() {
    let mut set = sample();
    set.functions.push(FunctionBinding { name: "zero".to_string(), params: ParameterList::Wildcard });
    let registrar = emit_method_registrar(&set);
    let table = emit_export_table(&set);
    let scoped: Vec<(String, CallTarget)> = registrar
        .into_iter()
        .filter_map(|registration| match registration {
            MethodSinkCall::AddTypeFunction { name, call } => Some((name, call)),
            _ => None,
        })
        .collect();
    let exported: Vec<(String, CallTarget)> =
        table.into_iter().map(|entry| (entry.name, entry.call)).collect();
    assert_eq!(scoped, exported);
    assert_eq!(exported.len(), 2);
}

#[test]
fn emit_puts_the_three_artifacts_together() {
    let set = sample();
    assert_eq!(
        emit(&set),
        TypeBindings {
            owner: "MyStruct".to_string(),
            field_registrar: emit_field_registrar(&set),
            method_registrar: emit_method_registrar(&set),
            export_table: emit_export_table(&set),
        }
    );
}

#[test]
fn empty_set_emits_empty_artifacts() {
    assert_eq!(
        emit(&BindingSet::new("Empty".to_string())),
        TypeBindings {
            owner: "Empty".to_string(),
            field_registrar: vec![],
            method_registrar: vec![],
            export_table: vec![],
        }
    );
}

#[test]
fn emit_all_keeps_the_order_of_the_sets() {
    let sets = vec![BindingSet::new("B".to_string()), sample(), BindingSet::new("A".to_string())];
    let all = emit_all(&sets);
    assert_eq!(all.len(), 3);
    assert_eq!(all[0], emit(&sets[0]));
    assert_eq!(all[1], emit(&sets[1]));
    assert_eq!(all[2], emit(&sets[2]));
    assert_eq!(emit_all(&vec![]), vec![]);
}

#[test]
fn duplicate_accessors_are_both_emitted() {
    let both = BindingSet {
        owner: "Dup".to_string(),
        fields: vec![FieldAccessor { name: "v".to_string() }],
        properties: vec![PropertyAccessor {
            property: "v".to_string(),
            operation: "get_v".to_string(),
            role: AccessorRole::Getter,
        }],
        methods: vec![],
        functions: vec![],
    };
    assert_eq!(
        emit_field_registrar(&both),
        vec![get("v", op("get_v")), get("v", field("v")), set("v", field("v"))]
    );
}
