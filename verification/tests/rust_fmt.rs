use xsd_model::rust_fmt::{snake_case_names, write_declaration, write_line, write_lines, Part};
use xsd_model::code_formatter::collect_imports;
use xsd_model::{CodeFormatter, EnumImpl, Field, ObjectImpl, Primitive, RustFmt, TypeName};

#[test]
fn test_generating_simple_struct_file() {
    let mut buf = String::new();
    let mut f = RustFmt;

    let object = ObjectImpl {
        name: "ImAStruct".into(),
        fields: vec![
            Field::new("f1", Primitive::Bool),
            Field::new("f2", Primitive::Int),
            Field::new("f3", Primitive::Long),
        ],
    };

    f.write_impl_file(&mut buf, &object).expect("Writing");

    assert_eq!(
        r#"
pub struct ImAStruct {
    pub f1: bool,
    pub f2: i32,
    pub f3: i64,
}

impl ImAStruct {
    pub fn required(
        f1: bool,
        f2: i32,
        f3: i64,
    ) -> Self {
        Self {
            f1,
            f2,
            f3,
        }
    }
}
"#
        .trim(),
        &buf
    );
}

#[test]
fn test_generating_struct_file() {
    let mut buf = String::new();
    let mut f = RustFmt;

    let object = ObjectImpl {
        name: "ImAStruct".into(),
        fields: vec![
            Field::new("f1", Primitive::Bool),
            Field::new("f2", Primitive::Int),
            Field::new("f3", Primitive::Long),
            Field::new("bool_array", TypeName::array(Primitive::Bool)),
            Field::new("thing_array", TypeName::object("Thing")),
        ],
    };

    f.write_impl_file(&mut buf, &object).expect("Writing");

    assert_eq!(
        r#"
use super::{
    Thing,
};

pub struct ImAStruct {
    pub f1: bool,
    pub f2: i32,
    pub f3: i64,
    pub bool_array: Vec<bool>,
    pub thing_array: Thing,
}

impl ImAStruct {
    pub fn required(
        f1: bool,
        f2: i32,
        f3: i64,
        bool_array: Vec<bool>,
        thing_array: Thing,
    ) -> Self {
        Self {
            f1,
            f2,
            f3,
            bool_array,
            thing_array,
        }
    }
}
"#
        .trim(),
        &buf
    );
}

fn rendered_type(ty: &TypeName) -> String {
    let mut out = String::new();
    RustFmt.write_type(&mut out, ty).expect("Writing");
    out
}

#[test]
fn types_are_written_in_rust() {
    assert_eq!(rendered_type(&TypeName::Primitive(Primitive::Bool)), "bool");
    assert_eq!(rendered_type(&TypeName::Primitive(Primitive::Int)), "i32");
    assert_eq!(rendered_type(&TypeName::Primitive(Primitive::Long)), "i64");
    assert_eq!(rendered_type(&TypeName::Primitive(Primitive::Double)), "f64");
    assert_eq!(
        rendered_type(&TypeName::Primitive(Primitive::String)),
        "String"
    );
    assert_eq!(rendered_type(&TypeName::object("Thing")), "Thing");
    assert_eq!(
        rendered_type(&TypeName::array(TypeName::object("Guid"))),
        "Vec<Guid>"
    );
    assert_eq!(
        rendered_type(&TypeName::array(TypeName::array(Primitive::Double))),
        "Vec<Vec<f64>>"
    );
}

#[test]
fn writing_appends_to_what_is_there() {
    let mut out = String::from("type T = ");
    RustFmt
        .write_type(&mut out, &TypeName::array(Primitive::Int))
        .expect("Writing");
    assert_eq!(out, "type T = Vec<i32>");
}

#[test]
fn imports_are_sorted_and_hold_no_name_twice() {
    let fields = vec![
        Field::new("a", TypeName::array(TypeName::object("Guid"))),
        Field::new("b", TypeName::object("Zebra")),
        Field::new("c", Primitive::Int),
        Field::new("d", TypeName::array(TypeName::object("Guid"))),
        Field::new("e", TypeName::object("Account")),
        Field::new("f", TypeName::object("Guid")).optional(),
        Field::new("g", TypeName::object("Zebra")),
    ];
    assert_eq!(collect_imports(&fields), vec!["Account", "Guid", "Zebra"]);

    let object = ObjectImpl {
        name: "Holder".into(),
        fields,
    };
    let mut out = String::new();
    RustFmt.write_impl_file(&mut out, &object).expect("Writing");
    assert!(out.starts_with("use super::{\n    Account,\n    Guid,\n    Zebra,\n};\n\npub struct Holder {\n"));
    assert_eq!(out.matches("    Guid,\n").count(), 1);
    assert!(out.contains("    pub a: Vec<Guid>,\n"));
}

#[test]
fn there_is_no_import_without_objects() {
    assert!(collect_imports(&[Field::new("a", Primitive::Int)].to_vec()).is_empty());
    assert!(collect_imports(&Vec::new()).is_empty());
}

#[test]
fn optional_fields_are_wrapped_and_left_absent() {
    let object = ObjectImpl {
        name: "Invoice".into(),
        fields: vec![
            Field::new("Id", TypeName::object("Guid")),
            Field::new("Note", Primitive::String).optional(),
            Field::new("Total", Primitive::Double),
            Field::new("Lines", TypeName::array(TypeName::object("Line"))).optional(),
        ],
    };
    let mut out = String::new();
    RustFmt.write_impl_file(&mut out, &object).expect("Writing");
    assert_eq!(
        r#"
use super::{
    Guid,
    Line,
};

pub struct Invoice {
    pub id: Guid,
    pub note: Option<String>,
    pub total: f64,
    pub lines: Option<Vec<Line>>,
}

impl Invoice {
    pub fn required(
        id: Guid,
        total: f64,
    ) -> Self {
        Self {
            id,
            total,
            note: None,
            lines: None,
        }
    }
}
"#
        .trim(),
        &out
    );
}

#[test]
fn an_object_without_fields_has_an_empty_constructor() {
    let object = ObjectImpl {
        name: "Hollow".into(),
        fields: vec![],
    };
    let mut out = String::new();
    RustFmt.write_impl_file(&mut out, &object).expect("Writing");
    assert_eq!(
        out,
        "pub struct Hollow {\n}\n\nimpl Hollow {\n    pub fn required(\n    ) -> Self {\n        Self {\n        }\n    }\n}"
    );
}

#[test]
fn a_formatter_carries_nothing_from_one_object_to_the_next() {
    let mut f = RustFmt;
    let with_import = ObjectImpl {
        name: "First".into(),
        fields: vec![Field::new("thing", TypeName::object("Thing"))],
    };
    let without = ObjectImpl {
        name: "Second".into(),
        fields: vec![Field::new("count", Primitive::Int)],
    };
    let mut first = String::new();
    f.write_impl_file(&mut first, &with_import).expect("Writing");
    let mut second = String::new();
    f.write_impl_file(&mut second, &without).expect("Writing");
    assert!(first.starts_with("use super::{\n    Thing,\n};\n\n"));
    assert!(second.starts_with("pub struct Second {\n"));
    assert!(!second.contains("Thing"));

    let mut again = String::new();
    f.write_impl_file(&mut again, &with_import).expect("Writing");
    assert_eq!(first, again);
}

#[test]
fn field_names_are_written_in_snake_case() {
    let fields = vec![
        Field::new("CreditorPublicId", Primitive::Int),
        Field::new("XMLHttpRequest", Primitive::Int),
        Field::new("already_snake", Primitive::Int),
        Field::new("To", Primitive::Int),
    ];
    assert_eq!(
        snake_case_names(&fields),
        vec!["creditor_public_id", "xml_http_request", "already_snake", "to"]
    );
    let object = ObjectImpl {
        name: "AccountingExportCreation".into(),
        fields,
    };
    let mut out = String::new();
    RustFmt.write_impl_file(&mut out, &object).expect("Writing");
    assert!(out.contains("    pub creditor_public_id: i32,\n"));
    assert!(out.contains("        xml_http_request: i32,\n"));
    assert!(out.contains("            to,\n"));
    assert!(out.contains("pub struct AccountingExportCreation {"));
}

#[test]
fn a_declaration_uses_the_names_that_it_is_given() {
    let object = ObjectImpl {
        name: "Pair".into(),
        fields: vec![
            Field::new("Left", Primitive::Bool),
            Field::new("Right", Primitive::Long).optional(),
        ],
    };
    let cased = vec!["l".to_string(), "r".to_string()];
    let mut out = String::from("// generated\n");
    write_declaration(&mut out, &object, &cased);
    assert_eq!(
        out,
        "// generated\npub struct Pair {\n    pub l: bool,\n    pub r: Option<i64>,\n}\n\n\
         impl Pair {\n    pub fn required(\n        l: bool,\n    ) -> Self {\n        Self {\n            l,\n            r: None,\n        }\n    }\n}"
    );
}

#[test]
fn each_part_has_its_line() {
    let required = Field::new("Id", TypeName::object("Guid"));
    let optional = Field::new("Note", Primitive::String).optional();
    let line = |part: Part, field: &Field, cased: &str| {
        let mut out = String::new();
        write_line(&mut out, part, field, cased);
        out
    };
    assert_eq!(line(Part::Member, &required, "id"), "    pub id: Guid,\n");
    assert_eq!(
        line(Part::Member, &optional, "note"),
        "    pub note: Option<String>,\n"
    );
    assert_eq!(line(Part::Parameter, &required, "id"), "        id: Guid,\n");
    assert_eq!(line(Part::Parameter, &optional, "note"), "");
    assert_eq!(line(Part::Forwarded, &required, "id"), "            id,\n");
    assert_eq!(line(Part::Forwarded, &optional, "note"), "");
    assert_eq!(line(Part::Absent, &required, "id"), "");
    assert_eq!(
        line(Part::Absent, &optional, "note"),
        "            note: None,\n"
    );

    let mut out = String::new();
    write_lines(
        &mut out,
        Part::Member,
        &vec![required, optional],
        &vec!["id".to_string(), "note".to_string()],
    );
    assert_eq!(out, "    pub id: Guid,\n    pub note: Option<String>,\n");
}

#[test]
fn an_enumeration_is_written_with_its_texts() {
    let enumeration = EnumImpl {
        name: "AccountingExportFormatType".into(),
        base: TypeName::Primitive(Primitive::String),
        variants: vec!["Unknown".into(), "SIE4".into(), "CSV".into()],
    };
    let mut out = String::new();
    RustFmt
        .write_enum_file(&mut out, &enumeration)
        .expect("Writing");
    assert_eq!(
        r#"
pub enum AccountingExportFormatType {
    Unknown,
    SIE4,
    CSV,
}

impl AccountingExportFormatType {
    pub fn as_str(&self) -> &'static str {
        match *self {
            Self::Unknown => "Unknown",
            Self::SIE4 => "SIE4",
            Self::CSV => "CSV",
        }
    }
}
"#
        .trim(),
        &out
    );
}

#[test]
fn an_enumeration_without_values_is_written_empty() {
    let enumeration = EnumImpl {
        name: "Nothing".into(),
        base: TypeName::Primitive(Primitive::String),
        variants: vec![],
    };
    let mut out = String::from("// generated\n");
    RustFmt
        .write_enum_file(&mut out, &enumeration)
        .expect("Writing");
    assert_eq!(
        out,
        "// generated\npub enum Nothing {\n}\n\nimpl Nothing {\n    pub fn as_str(&self) -> &'static str {\n        match *self {\n        }\n    }\n}"
    );
}
