use mlua_userdata_macro::behavior::{bind_operation, classify_block, OperationBinding};
use mlua_userdata_macro::binding::{
    AccessorRole, BindingSet, FunctionBinding, MethodBinding, PropertyAccessor,
};
use mlua_userdata_macro::decl::{BehaviorBlock, Operation, Parameter};
use mlua_userdata_macro::params::{ParamDescriptor, ParameterList};

fn named(name: &str, ty: &str) -> Parameter {
    Parameter::Named { name: name.to_string(), ty: ty.to_string() }
}

fn operation(name: &str, params: Vec<Parameter>) -> Operation {
    Operation { name: name.to_string(), params }
}

fn positional(params: &[(&str, &str)]) -> ParameterList {
    ParameterList::Positional(
        params
            .iter()
            .map(|(name, ty)| ParamDescriptor { name: name.to_string(), ty: ty.to_string() })
            .collect(),
    )
}

fn property(property: &str, operation: &str, role: AccessorRole) -> PropertyAccessor {
    PropertyAccessor { property: property.to_string(), operation: operation.to_string(), role }
}

#[test]
fn getter_is_bound_as_a_property() {
    let op = operation("get_v", vec![Parameter::Receiver { mutable: false }]);
    assert_eq!(
        bind_operation(&op),
        OperationBinding::Property(property("v", "get_v", AccessorRole::Getter))
    );
}

#[test]
fn setter_is_bound_as_a_property() {
    let op = operation("set_v", vec![Parameter::Receiver { mutable: true }, named("value", "i32")]);
    assert_eq!(
        bind_operation(&op),
        OperationBinding::Property(property("v", "set_v", AccessorRole::Setter))
    );
}

#[test]
fn receiver_less_getter_is_still_a_property() {
    let op = operation("get_foo", vec![]);
    assert_eq!(
        bind_operation(&op),
        OperationBinding::Property(property("foo", "get_foo", AccessorRole::Getter))
    );
    let op = operation("set_foo", vec![named("x", "i32")]);
    assert_eq!(
        bind_operation(&op),
        OperationBinding::Property(property("foo", "set_foo", AccessorRole::Setter))
    );
}

#[test]
fn methods_take_their_mutability_from_the_receiver() {
    let op = operation("increment", vec![Parameter::Receiver { mutable: true }]);
    assert_eq!(
        bind_operation(&op),
        OperationBinding::Method(MethodBinding {
            name: "increment".to_string(),
            mutable: true,
            params: ParameterList::Wildcard,
        })
    );
    let op = operation("describe", vec![Parameter::Receiver { mutable: false }, named("n", "u8")]);
    assert_eq!(
        bind_operation(&op),
        OperationBinding::Method(MethodBinding {
            name: "describe".to_string(),
            mutable: false,
            params: positional(&[("n", "u8")]),
        })
    );
}

#[test]
fn receiver_less_operation_is_a_free_function() {
    let op = operation("new", vec![named("value", "i32")]);
    assert_eq!(
        bind_operation(&op),
        OperationBinding::Function(FunctionBinding {
            name: "new".to_string(),
            params: positional(&[("value", "i32")]),
        })
    );
    let op = operation("default", vec![]);
    assert_eq!(
        bind_operation(&op),
        OperationBinding::Function(FunctionBinding {
            name: "default".to_string(),
            params: ParameterList::Wildcard,
        })
    );
}

#[test]
fn block_is_sorted_into_the_lists_of_its_set() {
    let block = BehaviorBlock {
        target: "MyStruct".to_string(),
        operations: vec![
            operation("new", vec![named("value", "i32")]),
            operation("increment", vec![Parameter::Receiver { mutable: true }]),
            operation("get_v", vec![Parameter::Receiver { mutable: false }]),
            operation("get_moo", vec![Parameter::Receiver { mutable: false }]),
            operation("set_v", vec![Parameter::Receiver { mutable: true }, named("value", "i32")]),
            operation(
                "add_multiple",
                vec![Parameter::Receiver { mutable: true }, named("a", "i32"), named("b", "i32")],
            ),
        ],
    };
    assert_eq!(
        classify_block(&block),
        BindingSet {
            owner: "MyStruct".to_string(),
            fields: vec![],
            properties: vec![
                property("v", "get_v", AccessorRole::Getter),
                property("moo", "get_moo", AccessorRole::Getter),
                property("v", "set_v", AccessorRole::Setter),
            ],
            methods: vec![
                MethodBinding {
                    name: "increment".to_string(),
                    mutable: true,
                    params: ParameterList::Wildcard,
                },
                MethodBinding {
                    name: "add_multiple".to_string(),
                    mutable: true,
                    params: positional(&[("a", "i32"), ("b", "i32")]),
                },
            ],
            functions: vec![FunctionBinding {
                name: "new".to_string(),
                params: positional(&[("value", "i32")]),
            }],
        }
    );
}

#[test]
fn empty_block_gives_an_empty_set_of_its_target() {
    let block = BehaviorBlock { target: "Lonely".to_string(), operations: vec![] };
    assert_eq!(classify_block(&block), BindingSet::new("Lonely".to_string()));
}
