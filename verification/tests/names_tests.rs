use mlua_userdata_macro::names::{
    has_getter_prefix, has_setter_prefix, is_name, property_name, same_name, starts_with,
};

#[test]
fn starts_with_recognises_a_prefix() {
    assert!(starts_with("get_value", "get_"));
    assert!(starts_with("get_", "get_"));
    assert!(starts_with("anything", ""));
    assert!(!starts_with("value", "get_"));
    assert!(!starts_with("get", "get_"));
    assert!(!starts_with("", "get_"));
    assert!(!starts_with("Get_value", "get_"));
}

#[test]
fn starts_with_counts_characters_not_bytes() {
    assert!(starts_with("übergröße", "über"));
    assert!(!starts_with("uber", "über"));
}

#[test]
fn accessor_prefixes_are_told_apart() {
    assert!(has_getter_prefix("get_v"));
    assert!(!has_getter_prefix("set_v"));
    assert!(has_setter_prefix("set_v"));
    assert!(!has_setter_prefix("get_v"));
    assert!(!has_getter_prefix("getter"));
    assert!(!has_setter_prefix("settle"));
    assert!(!has_getter_prefix("forget_me"));
}

#[test]
fn property_name_strips_the_prefix() {
    assert_eq!(property_name("get_v"), Some("v".to_string()));
    assert_eq!(property_name("set_v"), Some("v".to_string()));
    assert_eq!(property_name("get_moo"), Some("moo".to_string()));
    assert_eq!(property_name("set_long_name"), Some("long_name".to_string()));
}

#[test]
fn property_name_strips_the_prefix_once() {
    assert_eq!(property_name("get_get_x"), Some("get_x".to_string()));
    assert_eq!(property_name("set_set_x"), Some("set_x".to_string()));
    assert_eq!(property_name("get_set_x"), Some("set_x".to_string()));
}

#[test]
fn property_name_of_a_bare_prefix_is_empty() {
    assert_eq!(property_name("get_"), Some(String::new()));
    assert_eq!(property_name("set_"), Some(String::new()));
}

#[test]
fn property_name_of_another_name_is_none() {
    assert_eq!(property_name("increment"), None);
    assert_eq!(property_name("new"), None);
    assert_eq!(property_name("get"), None);
    assert_eq!(property_name(""), None);
    assert_eq!(property_name("reget_v"), None);
}

#[test]
fn property_name_keeps_characters_beyond_ascii() {
    assert_eq!(property_name("get_größe"), Some("größe".to_string()));
}

#[test]
fn names_compare_by_their_characters() {
    assert!(same_name(&"MyStruct".to_string(), &"MyStruct".to_string()));
    assert!(!same_name(&"MyStruct".to_string(), &"Mystruct".to_string()));
    assert!(is_name(&"value".to_string(), "value"));
    assert!(!is_name(&"value".to_string(), "valu"));
    assert!(!is_name(&"valu".to_string(), "value"));
    assert!(is_name(&String::new(), ""));
}
