use mlua_userdata_macro::classify::ReceiverKind;
use mlua_userdata_macro::decl::Parameter;
use mlua_userdata_macro::params::{map_parameters, ParamDescriptor, ParameterList};

fn named(name: &str, ty: &str) -> Parameter {
    Parameter::Named { name: name.to_string(), ty: ty.to_string() }
}

fn descriptor(name: &str, ty: &str) -> ParamDescriptor {
    ParamDescriptor { name: name.to_string(), ty: ty.to_string() }
}

#[test]
fn receiver_is_skipped_and_order_is_kept() {
    let params = vec![
        Parameter::Receiver { mutable: true },
        named("a", "i32"),
        named("b", "String"),
        named("c", "Vec<u8>"),
    ];
    assert_eq!(
        map_parameters(&params, ReceiverKind::ByMutableReference),
        ParameterList::Positional(vec![
            descriptor("a", "i32"),
            descriptor("b", "String"),
            descriptor("c", "Vec<u8>"),
        ])
    );
}

#[test]
fn without_a_receiver_nothing_is_skipped() {
    let params = vec![named("value", "i32")];
    assert_eq!(
        map_parameters(&params, ReceiverKind::Absent),
        ParameterList::Positional(vec![descriptor("value", "i32")])
    );
}

#[test]
fn empty_remainder_becomes_the_wildcard() {
    assert_eq!(map_parameters(&vec![], ReceiverKind::Absent), ParameterList::Wildcard);
    assert_eq!(
        map_parameters(&vec![Parameter::Receiver { mutable: false }], ReceiverKind::ByReference),
        ParameterList::Wildcard
    );
    assert_eq!(
        map_parameters(&vec![Parameter::Receiver { mutable: true }], ReceiverKind::ByMutableReference),
        ParameterList::Wildcard
    );
}

#[test]
fn first_parameter_is_skipped_for_any_receiver_kind_given() {
    // The mapper goes by the receiver kind that it is handed.
    let params = vec![named("a", "i32"), named("b", "i32")];
    assert_eq!(
        map_parameters(&params, ReceiverKind::ByReference),
        ParameterList::Positional(vec![descriptor("b", "i32")])
    );
    assert_eq!(map_parameters(&vec![], ReceiverKind::ByReference), ParameterList::Wildcard);
}

#[test]
fn parameters_bound_by_a_pattern_are_left_out() {
    let params = vec![
        Parameter::Receiver { mutable: false },
        Parameter::Pattern,
        named("c", "i32"),
        Parameter::Pattern,
    ];
    assert_eq!(
        map_parameters(&params, ReceiverKind::ByReference),
        ParameterList::Positional(vec![descriptor("c", "i32")])
    );
    assert_eq!(
        map_parameters(&vec![Parameter::Pattern], ReceiverKind::Absent),
        ParameterList::Wildcard
    );
}

#[test]
fn receiver_behind_the_first_place_is_left_out() {
    let params = vec![named("a", "i32"), Parameter::Receiver { mutable: true }, named("b", "i32")];
    assert_eq!(
        map_parameters(&params, ReceiverKind::Absent),
        ParameterList::Positional(vec![descriptor("a", "i32"), descriptor("b", "i32")])
    );
}

#[test]
fn duplicate_gives_an_equal_list() {
    let list = ParameterList::Positional(vec![descriptor("a", "i32"), descriptor("b", "u8")]);
    assert_eq!(list.duplicate(), list);
    assert_eq!(ParameterList::Wildcard.duplicate(), ParameterList::Wildcard);
    assert_eq!(descriptor("x", "f64").duplicate(), descriptor("x", "f64"));
}
