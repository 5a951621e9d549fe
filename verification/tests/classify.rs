//! Classification and schema-model behaviour on concrete values.

use webext_parser::api::{Element, Event, Method, Namespace, ParseError, Property, PropertyKind,
    Type, TypeKind};

fn elem(ty: &str, name: &str) -> Result<Element, ParseError> {
    Element::new(ty.to_string(), name.to_string())
}

#[test]
fn scalar_descriptor_keeps_name() {
    let e = elem("integer", "count").unwrap();
    assert_eq!(e.name(), "count");
    assert!(!e.is_array());
    assert_eq!(e.rustify_type(), "isize");
}

#[test]
fn scalar_normalization_table() {
    assert_eq!(elem("integer", "a").unwrap().rustify_type(), "isize");
    assert_eq!(elem("number", "a").unwrap().rustify_type(), "f64");
    assert_eq!(elem("boolean", "a").unwrap().rustify_type(), "bool");
    assert_eq!(elem("string", "a").unwrap().rustify_type(), "&str");
    assert_eq!(elem("Tab", "a").unwrap().rustify_type(), "Tab");
}

#[test]
fn array_of_sets_flag_and_element_type() {
    let e = elem("array of Tab", "tabs").unwrap();
    assert!(e.is_array());
    assert_eq!(e.rustify_type(), "Tab");
    assert_eq!(e.name(), "tabs");
}

#[test]
fn array_of_scalar_normalizes_element_type() {
    let e = elem("array of integer", "ids").unwrap();
    assert!(e.is_array());
    assert_eq!(e.rustify_type(), "isize");
}

#[test]
fn union_collapses_to_object() {
    let e = elem("string or integer", "value").unwrap();
    assert!(!e.is_array());
    assert_eq!(e.rustify_type(), "object");
}

#[test]
fn enum_of_collapses_to_object() {
    let e = elem("enum of State", "state").unwrap();
    assert!(!e.is_array());
    assert_eq!(e.rustify_type(), "object");
}

#[test]
fn trailing_or_still_collapses_to_object() {
    let e = elem("x or", "value").unwrap();
    assert_eq!(e.rustify_type(), "object");
}

#[test]
fn name_with_space_rejected_for_every_type() {
    assert_eq!(elem("integer", "a b"), Err(ParseError::InvalidName));
    assert_eq!(elem("array of Tab", "a b"), Err(ParseError::InvalidName));
    assert_eq!(elem("enum of X", "a b"), Err(ParseError::InvalidName));
    assert_eq!(elem("not even a type", "a b"), Err(ParseError::InvalidName));
}

#[test]
fn unsupported_descriptors_rejected() {
    assert_eq!(elem("two words", "a"), Err(ParseError::UnsupportedType));
    assert_eq!(elem("array of too many", "a"), Err(ParseError::UnsupportedType));
    assert_eq!(elem("array from X", "a"), Err(ParseError::UnsupportedType));
}

#[test]
fn struct_type_folds_events_into_methods() {
    let listener = Method::new("addListener".to_string(), vec![]);
    let ev = Event::new("onRemoved".to_string(), listener);
    let t = Type::new_struct(
        "Window".to_string(),
        vec![],
        vec![],
        vec![Method::new("focus".to_string(), vec![])],
        vec![ev],
    );
    assert_eq!(t.name(), "Window");
    match t.kind() {
        TypeKind::Struct { elements, optional_elements, methods } => {
            assert!(elements.is_empty());
            assert!(optional_elements.is_empty());
            assert_eq!(methods.len(), 2);
            assert_eq!(methods[0].name(), "focus");
            assert_eq!(methods[1].name(), "onRemoved.addListener");
        },
        _ => panic!("expected a structured record"),
    }
}

#[test]
fn enum_and_data_types_keep_only_the_name() {
    let e = Type::new_enum("Mode".to_string());
    assert_eq!(e.name(), "Mode");
    assert!(matches!(e.kind(), TypeKind::Enum));
    let d = Type::new_data("Blob".to_string());
    assert_eq!(d.name(), "Blob");
    assert!(matches!(d.kind(), TypeKind::Data));
}

#[test]
fn event_becomes_object_property() {
    let listener = Method::new("addListener".to_string(), vec![]);
    let ev = Event::new("onCreated".to_string(), listener);
    let p: Property = ev.into_property();
    assert_eq!(p.name(), "onCreated");
    match p.kind() {
        PropertyKind::Object { methods } => {
            assert_eq!(methods.len(), 1);
            assert_eq!(methods[0].name(), "addListener");
        },
        _ => panic!("expected an object property"),
    }
}

#[test]
fn namespace_appends_event_properties_in_order() {
    let p1 = Property::new_immediate("limit".to_string(), "integer".to_string());
    let e1 = Event::new("onA".to_string(), Method::new("addListener".to_string(), vec![]));
    let e2 = Event::new("onB".to_string(), Method::new("addListener".to_string(), vec![]));
    let ns = Namespace::new(
        "windows".to_string(),
        vec![],
        vec![p1],
        vec![Method::new("get".to_string(), vec![])],
        vec![e1, e2],
    );
    assert_eq!(ns.name(), "windows");
    assert_eq!(ns.methods().len(), 1);
    let props = ns.properties();
    assert_eq!(props.len(), 3);
    assert_eq!(props[0].name(), "limit");
    assert_eq!(props[1].name(), "onA");
    assert_eq!(props[2].name(), "onB");
    assert!(matches!(props[1].kind(), PropertyKind::Object { .. }));
}
