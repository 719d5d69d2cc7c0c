use mlua_userdata_macro::binding::{
    AccessorRole, BindingSet, FieldAccessor, FunctionBinding, MethodBinding, PropertyAccessor,
};
use mlua_userdata_macro::collect::{collect, contribute, find_owner};
use mlua_userdata_macro::decl::{
    BehaviorBlock, Declaration, FieldDescriptor, Operation, Parameter, TypeDeclaration,
};
use mlua_userdata_macro::params::ParameterList;

fn type_decl(name: &str, fields: &[(&str, bool)]) -> Declaration {
    Declaration::Type(TypeDeclaration {
        name: name.to_string(),
        fields: fields
            .iter()
            .map(|(name, visible)| FieldDescriptor { name: name.to_string(), visible: *visible })
            .collect(),
    })
}

fn block(target: &str, operations: Vec<Operation>) -> Declaration {
    Declaration::Behavior(BehaviorBlock { target: target.to_string(), operations })
}

fn method(name: &str, mutable: bool) -> Operation {
    Operation { name: name.to_string(), params: vec![Parameter::Receiver { mutable }] }
}

fn function(name: &str) -> Operation {
    Operation { name: name.to_string(), params: vec![] }
}

fn bound_method(name: &str, mutable: bool) -> MethodBinding {
    MethodBinding { name: name.to_string(), mutable, params: ParameterList::Wildcard }
}

fn bound_function(name: &str) -> FunctionBinding {
    FunctionBinding { name: name.to_string(), params: ParameterList::Wildcard }
}

fn accessor(name: &str) -> FieldAccessor {
    FieldAccessor { name: name.to_string() }
}

#[test]
fn empty_body_gives_no_sets() {
    assert_eq!(collect(&vec![]), vec![]);
}

#[test]
fn other_declarations_take_no_part() {
    assert_eq!(collect(&vec![Declaration::Other, Declaration::Other]), vec![]);
    assert_eq!(contribute(&Declaration::Other), None);
}

#[test]
fn type_declaration_contributes_its_visible_fields() {
    let decl = type_decl("Point", &[("x", true), ("secret", false), ("y", true)]);
    assert_eq!(
        contribute(&decl),
        Some(BindingSet {
            owner: "Point".to_string(),
            fields: vec![accessor("x"), accessor("y")],
            properties: vec![],
            methods: vec![],
            functions: vec![],
        })
    );
}

#[test]
fn type_and_block_are_merged_under_one_name() {
    let decls = vec![
        type_decl("Point", &[("x", true)]),
        Declaration::Other,
        block("Point", vec![method("reset", true), function("origin"), method("get_len", false)]),
    ];
    assert_eq!(
        collect(&decls),
        vec![BindingSet {
            owner: "Point".to_string(),
            fields: vec![accessor("x")],
            properties: vec![PropertyAccessor {
                property: "len".to_string(),
                operation: "get_len".to_string(),
                role: AccessorRole::Getter,
            }],
            methods: vec![bound_method("reset", true)],
            functions: vec![bound_function("origin")],
        }]
    );
}

#[test]
fn several_blocks_of_one_type_extend_its_set_in_order() {
    let decls = vec![
        block("Point", vec![method("first", false)]),
        type_decl("Point", &[("x", true)]),
        block("Point", vec![method("second", true), function("make")]),
        type_decl("Point", &[("y", true)]),
        block("Point", vec![method("third", false)]),
    ];
    assert_eq!(
        collect(&decls),
        vec![BindingSet {
            owner: "Point".to_string(),
            fields: vec![accessor("x"), accessor("y")],
            properties: vec![],
            methods: vec![
                bound_method("first", false),
                bound_method("second", true),
                bound_method("third", false),
            ],
            functions: vec![bound_function("make")],
        }]
    );
}

#[test]
fn sets_come_in_the_order_in_which_types_are_first_named() {
    let decls = vec![
        block("B", vec![function("b1")]),
        type_decl("A", &[("a", true)]),
        block("C", vec![]),
        block("A", vec![function("a1")]),
        type_decl("B", &[("b", true)]),
    ];
    let sets = collect(&decls);
    let owners: Vec<&str> = sets.iter().map(|set| set.owner.as_str()).collect();
    assert_eq!(owners, vec!["B", "A", "C"]);
    assert_eq!(sets[0].fields, vec![accessor("b")]);
    assert_eq!(sets[0].functions, vec![bound_function("b1")]);
    assert_eq!(sets[1].fields, vec![accessor("a")]);
    assert_eq!(sets[1].functions, vec![bound_function("a1")]);
    assert_eq!(sets[2], BindingSet::new("C".to_string()));
}

#[test]
fn orphan_behavior_block_is_accepted() {
    let decls = vec![block("Ghost", vec![method("haunt", true), function("summon")])];
    assert_eq!(
        collect(&decls),
        vec![BindingSet {
            owner: "Ghost".to_string(),
            fields: vec![],
            properties: vec![],
            methods: vec![bound_method("haunt", true)],
            functions: vec![bound_function("summon")],
        }]
    );
}

#[test]
fn type_names_are_compared_exactly() {
    let decls = vec![type_decl("Point", &[("x", true)]), block("point", vec![function("f")])];
    let sets = collect(&decls);
    assert_eq!(sets.len(), 2);
    assert_eq!(sets[0].owner, "Point");
    assert_eq!(sets[1].owner, "point");
}

#[test]
fn find_owner_gives_the_position_of_the_set() {
    let sets = vec![
        BindingSet::new("A".to_string()),
        BindingSet::new("B".to_string()),
        BindingSet::new("C".to_string()),
    ];
    assert_eq!(find_owner(&sets, &"A".to_string()), Some(0));
    assert_eq!(find_owner(&sets, &"C".to_string()), Some(2));
    assert_eq!(find_owner(&sets, &"D".to_string()), None);
    assert_eq!(find_owner(&vec![], &"A".to_string()), None);
}

#[test]
fn extend_appends_and_keeps_the_owner() {
    let mut set = BindingSet::new("A".to_string());
    set.fields.push(accessor("x"));
    let mut more = BindingSet::new("ignored".to_string());
    more.fields.push(accessor("y"));
    more.methods.push(bound_method("m", true));
    more.functions.push(bound_function("f"));
    set.extend(more);
    assert_eq!(
        set,
        BindingSet {
            owner: "A".to_string(),
            fields: vec![accessor("x"), accessor("y")],
            properties: vec![],
            methods: vec![bound_method("m", true)],
            functions: vec![bound_function("f")],
        }
    );
}

#[test]
fn collecting_twice_gives_the_same_sets() {
    let decls = vec![
        type_decl("Point", &[("x", true), ("y", false)]),
        block("Point", vec![method("reset", true), function("origin")]),
        block("Other", vec![method("get_it", false)]),
    ];
    assert_eq!(collect(&decls), collect(&decls));
}
