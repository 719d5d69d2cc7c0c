use mlua_userdata_macro::decl::{
    BehaviorBlock, Declaration, FieldDescriptor, Namespace, Operation, Parameter, TypeDeclaration,
};
use mlua_userdata_macro::dispatch::bindings_for;
use mlua_userdata_macro::emit::{
    AccessTarget, CallTarget, ExportEntry, FieldSinkCall, MethodSinkCall, TypeBindings,
};
use mlua_userdata_macro::params::{ParamDescriptor, ParameterList};
use mlua_userdata_macro::{generate_userdata, GenerateError};

fn named(name: &str, ty: &str) -> Parameter {
    Parameter::Named { name: name.to_string(), ty: ty.to_string() }
}

fn operation(name: &str, params: Vec<Parameter>) -> Operation {
    Operation { name: name.to_string(), params }
}

fn namespace(body: Option<Vec<Declaration>>) -> Namespace {
    Namespace { name: "my_module".to_string(), body }
}

fn my_struct() -> Vec<Declaration> {
    vec![
        Declaration::Type(TypeDeclaration {
            name: "MyStruct".to_string(),
            fields: vec![
                FieldDescriptor { name: "value".to_string(), visible: true },
                FieldDescriptor { name: "moo".to_string(), visible: false },
            ],
        }),
        Declaration::Behavior(BehaviorBlock {
            target: "MyStruct".to_string(),
            operations: vec![
                operation("new", vec![named("value", "i32")]),
                operation("increment", vec![Parameter::Receiver { mutable: true }]),
                operation("get_v", vec![Parameter::Receiver { mutable: false }]),
                operation("get_moo", vec![Parameter::Receiver { mutable: false }]),
                operation(
                    "set_v",
                    vec![Parameter::Receiver { mutable: true }, named("value", "i32")],
                ),
                operation(
                    "add_multiple",
                    vec![Parameter::Receiver { mutable: true }, named("a", "i32"), named("b", "i32")],
                ),
            ],
        }),
    ]
}

fn positional(params: &[(&str, &str)]) -> ParameterList {
    ParameterList::Positional(
        params
            .iter()
            .map(|(name, ty)| ParamDescriptor { name: name.to_string(), ty: ty.to_string() })
            .collect(),
    )
}

fn call(operation: &str, params: ParameterList) -> CallTarget {
    CallTarget { operation: operation.to_string(), params }
}

#[test]
fn forward_declaration_fails_with_missing_body() {
    assert_eq!(generate_userdata(&namespace(None)), Err(GenerateError::MissingBody));
}

#[test]
fn empty_body_is_not_a_missing_body() {
    assert_eq!(generate_userdata(&namespace(Some(vec![]))), Ok(vec![]));
}

#[test]
fn body_without_types_or_blocks_generates_nothing() {
    let body = vec![Declaration::Other, Declaration::Other, Declaration::Other];
    assert_eq!(generate_userdata(&namespace(Some(body))), Ok(vec![]));
}

#[test]
fn example_type_generates_its_bindings() {
    let generated = generate_userdata(&namespace(Some(my_struct()))).unwrap();
    assert_eq!(
        generated,
        vec![TypeBindings {
            owner: "MyStruct".to_string(),
            field_registrar: vec![
                FieldSinkCall::AddFieldGet {
                    name: "v".to_string(),
                    read: AccessTarget::Operation("get_v".to_string()),
                },
                FieldSinkCall::AddFieldGet {
                    name: "moo".to_string(),
                    read: AccessTarget::Operation("get_moo".to_string()),
                },
                FieldSinkCall::AddFieldSet {
                    name: "v".to_string(),
                    write: AccessTarget::Operation("set_v".to_string()),
                },
                FieldSinkCall::AddFieldGet {
                    name: "value".to_string(),
                    read: AccessTarget::Field("value".to_string()),
                },
                FieldSinkCall::AddFieldSet {
                    name: "value".to_string(),
                    write: AccessTarget::Field("value".to_string()),
                },
            ],
            method_registrar: vec![
                MethodSinkCall::AddMutableMethod {
                    name: "increment".to_string(),
                    call: call("increment", ParameterList::Wildcard),
                },
                MethodSinkCall::AddMutableMethod {
                    name: "add_multiple".to_string(),
                    call: call("add_multiple", positional(&[("a", "i32"), ("b", "i32")])),
                },
                MethodSinkCall::AddTypeFunction {
                    name: "new".to_string(),
                    call: call("new", positional(&[("value", "i32")])),
                },
            ],
            export_table: vec![ExportEntry {
                name: "new".to_string(),
                call: call("new", positional(&[("value", "i32")])),
            }],
        }]
    );
}

#[test]
fn hidden_field_gets_no_accessor() {
    let generated = generate_userdata(&namespace(Some(vec![Declaration::Type(TypeDeclaration {
        name: "Vault".to_string(),
        fields: vec![
            FieldDescriptor { name: "secret".to_string(), visible: false },
            FieldDescriptor { name: "label".to_string(), visible: true },
        ],
    })])))
    .unwrap();
    let vault = bindings_for(&generated, "Vault").unwrap();
    assert_eq!(vault.getter("secret"), None);
    assert_eq!(vault.setter("secret"), None);
    assert_eq!(vault.getter("label"), Some(&AccessTarget::Field("label".to_string())));
    assert_eq!(vault.setter("label"), Some(&AccessTarget::Field("label".to_string())));
}

#[test]
fn visible_field_prevails_over_a_like_named_property() {
    let body = vec![
        Declaration::Type(TypeDeclaration {
            name: "Dup".to_string(),
            fields: vec![FieldDescriptor { name: "v".to_string(), visible: true }],
        }),
        Declaration::Behavior(BehaviorBlock {
            target: "Dup".to_string(),
            operations: vec![
                operation("get_v", vec![Parameter::Receiver { mutable: false }]),
                operation("set_v", vec![Parameter::Receiver { mutable: true }, named("x", "i32")]),
            ],
        }),
    ];
    let generated = generate_userdata(&namespace(Some(body))).unwrap();
    let dup = bindings_for(&generated, "Dup").unwrap();
    assert_eq!(dup.field_registrar.len(), 4);
    assert_eq!(dup.getter("v"), Some(&AccessTarget::Field("v".to_string())));
    assert_eq!(dup.setter("v"), Some(&AccessTarget::Field("v".to_string())));
}

#[test]
fn property_is_bound_to_its_operation() {
    let generated = generate_userdata(&namespace(Some(my_struct()))).unwrap();
    let bindings = bindings_for(&generated, "MyStruct").unwrap();
    assert_eq!(bindings.getter("v"), Some(&AccessTarget::Operation("get_v".to_string())));
    assert_eq!(bindings.setter("v"), Some(&AccessTarget::Operation("set_v".to_string())));
    assert_eq!(bindings.getter("moo"), Some(&AccessTarget::Operation("get_moo".to_string())));
    assert_eq!(bindings.setter("moo"), None);
}

#[test]
fn mutable_operation_is_bound_on_the_mutable_entry_point() {
    let generated = generate_userdata(&namespace(Some(my_struct()))).unwrap();
    let bindings = bindings_for(&generated, "MyStruct").unwrap();
    assert_eq!(
        bindings.method("add_multiple"),
        Some(&MethodSinkCall::AddMutableMethod {
            name: "add_multiple".to_string(),
            call: call("add_multiple", positional(&[("a", "i32"), ("b", "i32")])),
        })
    );
}

#[test]
fn free_function_is_bound_on_both_paths_alike() {
    let generated = generate_userdata(&namespace(Some(my_struct()))).unwrap();
    let bindings = bindings_for(&generated, "MyStruct").unwrap();
    let exported = bindings.export("new").unwrap();
    match bindings.method("new") {
        Some(MethodSinkCall::AddTypeFunction { name, call }) => {
            assert_eq!(name, "new");
            assert_eq!(call, exported);
        }
        other => panic!("not a type function: {other:?}"),
    }
    assert_eq!(exported, &call("new", positional(&[("value", "i32")])));
}

#[test]
fn receiver_less_accessor_name_is_bound_as_a_property() {
    let body = vec![Declaration::Behavior(BehaviorBlock {
        target: "Odd".to_string(),
        operations: vec![operation("get_foo", vec![])],
    })];
    let generated = generate_userdata(&namespace(Some(body))).unwrap();
    let odd = bindings_for(&generated, "Odd").unwrap();
    assert_eq!(odd.getter("foo"), Some(&AccessTarget::Operation("get_foo".to_string())));
    assert_eq!(odd.method("get_foo"), None);
    assert_eq!(odd.export("get_foo"), None);
    assert!(odd.export_table.is_empty());
}

#[test]
fn orphan_block_generates_bindings_without_field_accessors() {
    let body = vec![Declaration::Behavior(BehaviorBlock {
        target: "Orphan".to_string(),
        operations: vec![
            operation("touch", vec![Parameter::Receiver { mutable: true }]),
            operation("make", vec![]),
        ],
    })];
    let generated = generate_userdata(&namespace(Some(body))).unwrap();
    assert_eq!(
        generated,
        vec![TypeBindings {
            owner: "Orphan".to_string(),
            field_registrar: vec![],
            method_registrar: vec![
                MethodSinkCall::AddMutableMethod {
                    name: "touch".to_string(),
                    call: call("touch", ParameterList::Wildcard),
                },
                MethodSinkCall::AddTypeFunction {
                    name: "make".to_string(),
                    call: call("make", ParameterList::Wildcard),
                },
            ],
            export_table: vec![ExportEntry {
                name: "make".to_string(),
                call: call("make", ParameterList::Wildcard),
            }],
        }]
    );
}

#[test]
fn every_named_type_gets_its_own_bindings() {
    let mut body = my_struct();
    body.push(Declaration::Other);
    body.push(Declaration::Type(TypeDeclaration {
        name: "Second".to_string(),
        fields: vec![FieldDescriptor { name: "x".to_string(), visible: true }],
    }));
    body.push(Declaration::Behavior(BehaviorBlock {
        target: "MyStruct".to_string(),
        operations: vec![operation("reset", vec![Parameter::Receiver { mutable: true }])],
    }));
    let generated = generate_userdata(&namespace(Some(body))).unwrap();
    let owners: Vec<&str> = generated.iter().map(|bindings| bindings.owner.as_str()).collect();
    assert_eq!(owners, vec!["MyStruct", "Second"]);
    let first = bindings_for(&generated, "MyStruct").unwrap();
    assert!(first.method("reset").is_some());
    assert!(first.method("increment").is_some());
    let second = bindings_for(&generated, "Second").unwrap();
    assert_eq!(second.getter("x"), Some(&AccessTarget::Field("x".to_string())));
    assert_eq!(second.method("reset"), None);
}

#[test]
fn generation_is_repeatable() {
    let ns = namespace(Some(my_struct()));
    assert_eq!(generate_userdata(&ns), generate_userdata(&ns));
}

#[test]
fn receiver_less_operation_prevails_over_a_like_named_method() {
    let body = vec![Declaration::Behavior(BehaviorBlock {
        target: "Clash".to_string(),
        operations: vec![
            operation("reset", vec![]),
            operation("reset", vec![Parameter::Receiver { mutable: true }]),
        ],
    })];
    let generated = generate_userdata(&namespace(Some(body))).unwrap();
    let clash = bindings_for(&generated, "Clash").unwrap();
    assert_eq!(clash.method_registrar.len(), 2);
    assert_eq!(
        clash.method("reset"),
        Some(&MethodSinkCall::AddTypeFunction {
            name: "reset".to_string(),
            call: call("reset", ParameterList::Wildcard),
        })
    );
    assert_eq!(clash.export("reset"), Some(&call("reset", ParameterList::Wildcard)));
}

#[test]
fn later_method_prevails_over_an_earlier_one_of_its_name() {
    let body = vec![
        Declaration::Behavior(BehaviorBlock {
            target: "Twice".to_string(),
            operations: vec![operation("touch", vec![Parameter::Receiver { mutable: true }])],
        }),
        Declaration::Behavior(BehaviorBlock {
            target: "Twice".to_string(),
            operations: vec![operation(
                "touch",
                vec![Parameter::Receiver { mutable: false }, named("how", "u8")],
            )],
        }),
    ];
    let generated = generate_userdata(&namespace(Some(body))).unwrap();
    let twice = bindings_for(&generated, "Twice").unwrap();
    assert_eq!(
        twice.method("touch"),
        Some(&MethodSinkCall::AddMethod {
            name: "touch".to_string(),
            call: call("touch", positional(&[("how", "u8")])),
        })
    );
}
