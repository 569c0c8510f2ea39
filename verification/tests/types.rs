use std::cmp::Ordering;
use xsd_model::xml::Kind;
use xsd_model::{EnumImpl, Field, Implementation, ObjectImpl, Primitive, TypeName};

#[test]
fn primitives_need_no_import() {
    assert_eq!(TypeName::Primitive(Primitive::Bool).import_statement(), None);
    assert_eq!(TypeName::array(Primitive::String).import_statement(), None);
}

#[test]
fn objects_are_imported_through_arrays() {
    assert_eq!(TypeName::object("Thing").import_statement(), Some("Thing"));
    assert_eq!(
        TypeName::array(TypeName::object("Thing")).import_statement(),
        Some("Thing")
    );
    assert_eq!(
        TypeName::array(TypeName::array(TypeName::object("Guid"))).import_statement(),
        Some("Guid")
    );
}

#[test]
fn builders_make_the_variants() {
    assert_eq!(
        TypeName::object("Thing"),
        TypeName::Object("Thing".to_string())
    );
    assert_eq!(
        TypeName::array(Primitive::Bool),
        TypeName::Array(Box::new(TypeName::Primitive(Primitive::Bool)))
    );
    assert_eq!(
        TypeName::array(Kind::Guid),
        TypeName::Array(Box::new(TypeName::Object("Guid".to_string())))
    );
    assert_eq!(
        TypeName::from(Primitive::Double),
        TypeName::Primitive(Primitive::Double)
    );
}

#[test]
fn kinds_become_types() {
    assert_eq!(
        TypeName::from(Kind::Boolean),
        TypeName::Primitive(Primitive::Bool)
    );
    assert_eq!(TypeName::from(Kind::Int), TypeName::Primitive(Primitive::Int));
    assert_eq!(
        TypeName::from(Kind::Long),
        TypeName::Primitive(Primitive::Long)
    );
    assert_eq!(
        TypeName::from(Kind::Double),
        TypeName::Primitive(Primitive::Double)
    );
    assert_eq!(
        TypeName::from(Kind::String),
        TypeName::Primitive(Primitive::String)
    );
    assert_eq!(
        TypeName::from(Kind::Base64Binary),
        TypeName::Object("Base64Binary".to_string())
    );
    assert_eq!(
        TypeName::from(Kind::Guid),
        TypeName::Object("Guid".to_string())
    );
    assert_eq!(
        TypeName::from(Kind::DateTime),
        TypeName::Object("DateTime".to_string())
    );
    assert_eq!(
        TypeName::from(Kind::Object("Invoice".to_string())),
        TypeName::Object("Invoice".to_string())
    );
    assert_eq!(
        TypeName::from(Kind::Array(Box::new(Kind::Array(Box::new(Kind::Guid))))),
        TypeName::Array(Box::new(TypeName::Array(Box::new(TypeName::Object(
            "Guid".to_string()
        )))))
    );
}

#[test]
fn an_array_kind_becomes_an_array_of_the_object() {
    let kind = Kind::from_str("ArrayOfGuid").unwrap();
    assert_eq!(kind, Kind::Array(Box::new(Kind::Guid)));
    assert_eq!(
        TypeName::from(kind),
        TypeName::Array(Box::new(TypeName::Object("Guid".to_string())))
    );
}

#[test]
fn types_are_shown() {
    assert_eq!(Primitive::Bool.to_string(), "boolean");
    assert_eq!(Primitive::Int.to_string(), "int");
    assert_eq!(Primitive::Long.to_string(), "long");
    assert_eq!(Primitive::Double.to_string(), "double");
    assert_eq!(Primitive::String.to_string(), "string");
    assert_eq!(TypeName::object("Thing").to_string(), "Thing");
    assert_eq!(
        TypeName::array(TypeName::array(Primitive::Int)).to_string(),
        "Array<Array<int>>"
    );
}

#[test]
fn a_new_field_is_required() {
    let field = Field::new("f1", Primitive::Bool);
    assert_eq!(field.name, "f1");
    assert!(field.required);
    assert_eq!(field.ty, TypeName::Primitive(Primitive::Bool));
}

#[test]
fn an_optional_field_keeps_name_and_type() {
    let field = Field::new("note", TypeName::object("Thing")).optional();
    assert_eq!(field.name, "note");
    assert!(!field.required);
    assert_eq!(field.ty, TypeName::Object("Thing".to_string()));
}

#[test]
fn definitions_are_named() {
    let object = Implementation::Object(ObjectImpl {
        name: "Invoice".to_string(),
        fields: vec![],
    });
    let enumeration = Implementation::Enum(EnumImpl {
        name: "Colour".to_string(),
        base: TypeName::Primitive(Primitive::String),
        variants: vec!["Red".to_string()],
    });
    assert_eq!(object.name(), "Invoice");
    assert_eq!(enumeration.name(), "Colour");
}

#[test]
fn a_copy_of_a_type_is_equal_to_it() {
    let ty = TypeName::array(TypeName::array(TypeName::object("Thing")));
    assert_eq!(ty.clone(), ty);
}

fn object_named(name: &str, field: &str) -> Implementation {
    Implementation::Object(ObjectImpl {
        name: name.to_string(),
        fields: vec![Field::new(field, Primitive::Int)],
    })
}

fn enum_named(name: &str) -> Implementation {
    Implementation::Enum(EnumImpl {
        name: name.to_string(),
        base: TypeName::Primitive(Primitive::String),
        variants: vec![],
    })
}

#[test]
fn definitions_are_ordered_by_name() {
    let account = object_named("Account", "a");
    let colour = enum_named("Colour");
    let invoice = object_named("Invoice", "a");
    assert_eq!(account.partial_cmp(&colour), Some(Ordering::Less));
    assert_eq!(invoice.partial_cmp(&colour), Some(Ordering::Greater));
    assert_eq!(colour.partial_cmp(&colour), Some(Ordering::Equal));
    assert!(account < colour);
    assert!(colour < invoice);
    assert!(invoice > account);
    assert!(account <= account);
    assert!(object_named("a", "x") > object_named("Z", "x"));
    assert!(object_named("Ab", "x") > object_named("AB", "x"));
    assert!(object_named("A", "x") < object_named("AB", "x"));
}

#[test]
fn definitions_of_one_name_are_equal_in_the_order() {
    let first = object_named("Same", "first");
    let second = object_named("Same", "second");
    let third = enum_named("Same");
    assert_ne!(first, second);
    assert_eq!(first.partial_cmp(&second), Some(Ordering::Equal));
    assert_eq!(first.partial_cmp(&third), Some(Ordering::Equal));
    assert!(!(first < second) && !(first > second));
}

#[test]
fn the_order_of_definitions_is_that_of_their_names() {
    let names = ["", "A", "AB", "Ab", "B", "Z", "a", "b", "\u{c4}", "Invoice", "InvoiceLine"];
    for a in names {
        for b in names {
            let expected: Ordering = a.cmp(b);
            assert_eq!(
                object_named(a, "x").partial_cmp(&enum_named(b)),
                Some(expected),
                "{:?} {:?}",
                a,
                b
            );
        }
    }
}
