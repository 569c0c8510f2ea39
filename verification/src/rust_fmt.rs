use crate::code_formatter::{
    collect_imports, fields_view, import_names, strings_view, strs_view, CodeFormatter,
};
use crate::types::{
    EnumImpl, EnumModel, Field, FieldModel, ObjectImpl, ObjectModel, Primitive, TypeModel,
    TypeName,
};
use vstd::prelude::*;

verus! {

/// Formatter that writes definitions as Rust source.
pub struct RustFmt;

/// What `heck::SnakeCase::to_snake_case` makes of `name`: the name in snake
/// case.
pub uninterp spec fn snake_case(name: Seq<char>) -> Seq<char>;

/// Calls `heck::SnakeCase::to_snake_case` on `name`. The contract only names
/// the result, which depends on nothing but the name.
#[verifier::external_body]
fn to_snake_case(name: &str) -> (r: String)
    ensures
        r@ == snake_case(name@),
{
    heck::SnakeCase::to_snake_case(name)
}

/// One step of indentation.
pub open spec fn indent() -> Seq<char> {
    "    "@
}

/// The Rust expression that names the type `t`.
pub open spec fn rust_type(t: TypeModel) -> Seq<char>
    decreases t,
{
    match t {
        TypeModel::Primitive(Primitive::Bool) => "bool"@,
        TypeModel::Primitive(Primitive::Int) => "i32"@,
        TypeModel::Primitive(Primitive::Long) => "i64"@,
        TypeModel::Primitive(Primitive::Double) => "f64"@,
        TypeModel::Primitive(Primitive::String) => "String"@,
        TypeModel::Array(inner) => "Vec<"@ + rust_type(*inner) + ">"@,
        TypeModel::Object(name) => name,
    }
}

/// The places of a declaration that hold one line for each field.
#[derive(Clone, Copy, Debug, PartialEq, Eq)]
pub enum Part {
    /// The members of the struct: every field.
    Member,
    /// The parameters of the constructor: the required fields.
    Parameter,
    /// The members that the constructor takes from its parameters: the
    /// required fields.
    Forwarded,
    /// The members that the constructor leaves absent: the optional fields.
    Absent,
}

/// The line that a field, whose name in snake case is `cased`, has in a
/// part of the declaration; empty where the part leaves the field out.
pub open spec fn line(part: Part, field: FieldModel, cased: Seq<char>) -> Seq<char> {
    match part {
        Part::Member => {
            if field.required {
                indent() + "pub "@ + cased + ": "@ + rust_type(field.ty) + ",\n"@
            } else {
                indent() + "pub "@ + cased + ": "@ + "Option<"@ + rust_type(field.ty) + ">"@
                    + ",\n"@
            }
        },
        Part::Parameter => {
            if field.required {
                indent() + indent() + cased + ": "@ + rust_type(field.ty) + ",\n"@
            } else {
                Seq::empty()
            }
        },
        Part::Forwarded => {
            if field.required {
                indent() + indent() + indent() + cased + ",\n"@
            } else {
                Seq::empty()
            }
        },
        Part::Absent => {
            if field.required {
                Seq::empty()
            } else {
                indent() + indent() + indent() + cased + ": None"@ + ",\n"@
            }
        },
    }
}

/// The lines of the first `n` fields in a part of the declaration.
pub open spec fn lines(
    part: Part,
    fields: Seq<FieldModel>,
    cased: Seq<Seq<char>>,
    n: int,
) -> Seq<char>
    decreases n,
{
    if n <= 0 {
        Seq::empty()
    } else {
        lines(part, fields, cased, n - 1) + line(part, fields[n - 1], cased[n - 1])
    }
}

/// The lines of the first `n` imported names.
pub open spec fn import_lines(names: Seq<Seq<char>>, n: int) -> Seq<char>
    decreases n,
{
    if n <= 0 {
        Seq::empty()
    } else {
        import_lines(names, n - 1) + indent() + names[n - 1] + ",\n"@
    }
}

/// The import of the given names; nothing where there is none.
pub open spec fn import_block(names: Seq<Seq<char>>) -> Seq<char> {
    if names.len() == 0 {
        Seq::empty()
    } else {
        "use super::{\n"@ + import_lines(names, names.len() as int) + "};\n\n"@
    }
}

/// The struct with one member for each field.
pub open spec fn struct_block(object: ObjectModel, cased: Seq<Seq<char>>) -> Seq<char> {
    "pub struct "@ + object.name + " {\n"@ + lines(
        Part::Member,
        object.fields,
        cased,
        object.fields.len() as int,
    ) + "}"@
}

/// The constructor: it takes the required fields and leaves the optional
/// ones absent.
pub open spec fn impl_block(object: ObjectModel, cased: Seq<Seq<char>>) -> Seq<char> {
    let n = object.fields.len() as int;
    "\n\nimpl "@ + object.name + " {\n"@ + indent() + "pub fn required(\n"@ + lines(
        Part::Parameter,
        object.fields,
        cased,
        n,
    ) + indent() + ") -> Self {\n"@ + indent() + indent() + "Self {\n"@ + lines(
        Part::Forwarded,
        object.fields,
        cased,
        n,
    ) + lines(Part::Absent, object.fields, cased, n) + indent() + indent() + "}\n"@ + indent()
        + "}\n"@ + "}"@
}

/// The Rust declaration of `object`, where `cased` holds the names of its
/// fields in snake case: the imports, the struct and the constructor.
pub open spec fn declaration_text(object: ObjectModel, cased: Seq<Seq<char>>) -> Seq<char> {
    import_block(import_names(object.fields)) + struct_block(object, cased) + impl_block(
        object,
        cased,
    )
}

/// The lines that declare the first `n` variants.
pub open spec fn variant_lines(variants: Seq<Seq<char>>, n: int) -> Seq<char>
    decreases n,
{
    if n <= 0 {
        Seq::empty()
    } else {
        variant_lines(variants, n - 1) + indent() + variants[n - 1] + ",\n"@
    }
}

/// The lines that give the first `n` variants their texts.
pub open spec fn constant_lines(variants: Seq<Seq<char>>, n: int) -> Seq<char>
    decreases n,
{
    if n <= 0 {
        Seq::empty()
    } else {
        constant_lines(variants, n - 1) + indent() + indent() + indent() + "Self::"@
            + variants[n - 1] + " => \""@ + variants[n - 1] + "\",\n"@
    }
}

/// The Rust declaration of an enumeration of texts: the enum with one
/// variant for each value, and the method that gives a variant its text.
/// The values are written as they are, as names and between the quotes.
pub open spec fn enum_text(enumeration: EnumModel) -> Seq<char> {
    let n = enumeration.variants.len() as int;
    "pub enum "@ + enumeration.name + " {\n"@ + variant_lines(enumeration.variants, n) + "}"@
        + "\n\nimpl "@ + enumeration.name + " {\n"@ + indent()
        + "pub fn as_str(&self) -> &'static str {\n"@ + indent() + indent() + "match *self {\n"@
        + constant_lines(enumeration.variants, n) + indent() + indent() + "}\n"@ + indent()
        + "}\n"@ + "}"@
}

/// The names of the fields in snake case.
pub open spec fn cased_names(fields: Seq<FieldModel>) -> Seq<Seq<char>> {
    fields.map_values(|f: FieldModel| snake_case(f.name))
}

/// Appends the Rust expression that names the type `t`.
pub fn write_rust_type(w: &mut String, t: &TypeName)
    ensures
        final(w)@ == old(w)@ + rust_type(t@),
    decreases t,
{
    match t {
        TypeName::Primitive(Primitive::Bool) => w.append("bool"),
        TypeName::Primitive(Primitive::Int) => w.append("i32"),
        TypeName::Primitive(Primitive::Long) => w.append("i64"),
        TypeName::Primitive(Primitive::Double) => w.append("f64"),
        TypeName::Primitive(Primitive::String) => w.append("String"),
        TypeName::Array(inner) => {
            w.append("Vec<");
            write_rust_type(w, inner);
            w.append(">");
            assert(w@ =~= old(w)@ + rust_type(t@));
        },
        TypeName::Object(name) => w.append(name.as_str()),
    }
}

/// Appends the line that `field`, whose name in snake case is `cased`, has
/// in a part of the declaration.
pub fn write_line(w: &mut String, part: Part, field: &Field, cased: &str)
    ensures
        final(w)@ == old(w)@ + line(part, field@, cased@),
{
    match part {
        Part::Member => {
            w.append("    ");
            w.append("pub ");
            w.append(cased);
            w.append(": ");
            if field.required {
                write_rust_type(w, &field.ty);
            } else {
                w.append("Option<");
                write_rust_type(w, &field.ty);
                w.append(">");
            }
            w.append(",\n");
        },
        Part::Parameter => {
            if field.required {
                w.append("    ");
                w.append("    ");
                w.append(cased);
                w.append(": ");
                write_rust_type(w, &field.ty);
                w.append(",\n");
            }
        },
        Part::Forwarded => {
            if field.required {
                w.append("    ");
                w.append("    ");
                w.append("    ");
                w.append(cased);
                w.append(",\n");
            }
        },
        Part::Absent => {
            if !field.required {
                w.append("    ");
                w.append("    ");
                w.append("    ");
                w.append(cased);
                w.append(": None");
                w.append(",\n");
            }
        },
    }
    assert(w@ =~= old(w)@ + line(part, field@, cased@));
}

/// Appends the lines that the fields have in a part of the declaration.
pub fn write_lines(w: &mut String, part: Part, fields: &Vec<Field>, cased: &Vec<String>)
    requires
        cased.len() == fields.len(),
    ensures
        final(w)@ == old(w)@ + lines(
            part,
            fields_view(fields@),
            strings_view(cased@),
            fields.len() as int,
        ),
{
    let ghost fs = fields_view(fields@);
    let ghost cs = strings_view(cased@);
    let mut i: usize = 0;
    assert(w@ =~= old(w)@ + lines(part, fs, cs, 0));
    while i < fields.len()
        invariant
            i <= fields.len(),
            cased.len() == fields.len(),
            fs == fields_view(fields@),
            cs == strings_view(cased@),
            w@ == old(w)@ + lines(part, fs, cs, i as int),
        decreases fields.len() - i,
    {
        write_line(w, part, &fields[i], cased[i].as_str());
        assert(w@ =~= old(w)@ + lines(part, fs, cs, i as int + 1));
        i += 1;
    }
}

fn write_imports(w: &mut String, names: &Vec<&str>)
    ensures
        final(w)@ == old(w)@ + import_block(strs_view(names@)),
{
    let ghost ns = strs_view(names@);
    if names.len() == 0 {
        assert(w@ =~= old(w)@ + import_block(ns));
        return ;
    }
    w.append("use super::{\n");
    let mut i: usize = 0;
    assert(w@ =~= old(w)@ + "use super::{\n"@ + import_lines(ns, 0));
    while i < names.len()
        invariant
            i <= names.len(),
            ns == strs_view(names@),
            w@ == old(w)@ + "use super::{\n"@ + import_lines(ns, i as int),
        decreases names.len() - i,
    {
        w.append("    ");
        w.append(names[i]);
        w.append(",\n");
        assert(w@ =~= old(w)@ + "use super::{\n"@ + import_lines(ns, i as int + 1));
        i += 1;
    }
    w.append("};\n\n");
    assert(w@ =~= old(w)@ + import_block(ns));
}

fn write_struct(w: &mut String, object: &ObjectImpl, cased: &Vec<String>)
    requires
        cased.len() == object.fields.len(),
    ensures
        final(w)@ == old(w)@ + struct_block(object@, strings_view(cased@)),
{
    w.append("pub struct ");
    w.append(object.name.as_str());
    w.append(" {\n");
    write_lines(w, Part::Member, &object.fields, cased);
    w.append("}");
    assert(w@ =~= old(w)@ + struct_block(object@, strings_view(cased@)));
}

fn write_constructor(w: &mut String, object: &ObjectImpl, cased: &Vec<String>)
    requires
        cased.len() == object.fields.len(),
    ensures
        final(w)@ == old(w)@ + impl_block(object@, strings_view(cased@)),
{
    w.append("\n\nimpl ");
    w.append(object.name.as_str());
    w.append(" {\n");
    w.append("    ");
    w.append("pub fn required(\n");
    write_lines(w, Part::Parameter, &object.fields, cased);
    w.append("    ");
    w.append(") -> Self {\n");
    w.append("    ");
    w.append("    ");
    w.append("Self {\n");
    write_lines(w, Part::Forwarded, &object.fields, cased);
    write_lines(w, Part::Absent, &object.fields, cased);
    w.append("    ");
    w.append("    ");
    w.append("}\n");
    w.append("    ");
    w.append("}\n");
    w.append("}");
    assert(w@ =~= old(w)@ + impl_block(object@, strings_view(cased@)));
}

/// Appends the Rust declaration of `object`, where `cased` holds the names
/// of its fields in snake case.
pub fn write_declaration(w: &mut String, object: &ObjectImpl, cased: &Vec<String>)
    requires
        cased.len() == object.fields.len(),
    ensures
        final(w)@ == old(w)@ + declaration_text(object@, strings_view(cased@)),
{
    let imports = collect_imports(&object.fields);
    write_imports(w, &imports);
    write_struct(w, object, cased);
    write_constructor(w, object, cased);
    assert(w@ =~= old(w)@ + declaration_text(object@, strings_view(cased@)));
}

fn write_variants(w: &mut String, variants: &Vec<String>)
    ensures
        final(w)@ == old(w)@ + variant_lines(strings_view(variants@), variants.len() as int),
{
    let ghost vs = strings_view(variants@);
    let mut i: usize = 0;
    assert(w@ =~= old(w)@ + variant_lines(vs, 0));
    while i < variants.len()
        invariant
            i <= variants.len(),
            vs == strings_view(variants@),
            w@ == old(w)@ + variant_lines(vs, i as int),
        decreases variants.len() - i,
    {
        w.append("    ");
        w.append(variants[i].as_str());
        w.append(",\n");
        assert(w@ =~= old(w)@ + variant_lines(vs, i as int + 1));
        i += 1;
    }
}

fn write_constants(w: &mut String, variants: &Vec<String>)
    ensures
        final(w)@ == old(w)@ + constant_lines(strings_view(variants@), variants.len() as int),
{
    let ghost vs = strings_view(variants@);
    let mut i: usize = 0;
    assert(w@ =~= old(w)@ + constant_lines(vs, 0));
    while i < variants.len()
        invariant
            i <= variants.len(),
            vs == strings_view(variants@),
            w@ == old(w)@ + constant_lines(vs, i as int),
        decreases variants.len() - i,
    {
        w.append("    ");
        w.append("    ");
        w.append("    ");
        w.append("Self::");
        w.append(variants[i].as_str());
        w.append(" => \"");
        w.append(variants[i].as_str());
        w.append("\",\n");
        assert(w@ =~= old(w)@ + constant_lines(vs, i as int + 1));
        i += 1;
    }
}

/// Appends the Rust declaration of an enumeration of texts.
pub fn write_enumeration(w: &mut String, enumeration: &EnumImpl)
    ensures
        final(w)@ == old(w)@ + enum_text(enumeration@),
{
    w.append("pub enum ");
    w.append(enumeration.name.as_str());
    w.append(" {\n");
    write_variants(w, &enumeration.variants);
    w.append("}");
    w.append("\n\nimpl ");
    w.append(enumeration.name.as_str());
    w.append(" {\n");
    w.append("    ");
    w.append("pub fn as_str(&self) -> &'static str {\n");
    w.append("    ");
    w.append("    ");
    w.append("match *self {\n");
    write_constants(w, &enumeration.variants);
    w.append("    ");
    w.append("    ");
    w.append("}\n");
    w.append("    ");
    w.append("}\n");
    w.append("}");
    assert(w@ =~= old(w)@ + enum_text(enumeration@));
}

/// The names of the fields in snake case.
pub fn snake_case_names(fields: &Vec<Field>) -> (cased: Vec<String>)
    ensures
        strings_view(cased@) == cased_names(fields_view(fields@)),
{
    let mut cased: Vec<String> = Vec::new();
    let mut i: usize = 0;
    while i < fields.len()
        invariant
            i <= fields.len(),
            cased.len() == i,
            forall|j: int| 0 <= j < i ==> (#[trigger] cased@[j])@ == snake_case(fields@[j].name@),
        decreases fields.len() - i,
    {
        cased.push(to_snake_case(fields[i].name.as_str()));
        i += 1;
    }
    assert(strings_view(cased@) =~= cased_names(fields_view(fields@)));
    cased
}

impl CodeFormatter for RustFmt {
    open spec fn declaration(object: ObjectModel) -> Seq<char> {
        declaration_text(object, cased_names(object.fields))
    }

    open spec fn enumeration(enumeration: EnumModel) -> Seq<char> {
        enum_text(enumeration)
    }

    open spec fn type_expr(t: TypeModel) -> Seq<char> {
        rust_type(t)
    }

    fn write_impl_file(&mut self, w: &mut String, object: &ObjectImpl) -> (r: Result<
        (),
        core::fmt::Error,
    >) {
        let cased = snake_case_names(&object.fields);
        assert(strings_view(cased@).len() == cased@.len());
        assert(cased_names(fields_view(object.fields@)).len() == object.fields@.len());
        write_declaration(w, object, &cased);
        Ok(())
    }

    fn write_enum_file(&mut self, w: &mut String, enumeration: &EnumImpl) -> (r: Result<
        (),
        core::fmt::Error,
    >) {
        write_enumeration(w, enumeration);
        Ok(())
    }

    fn write_type(&mut self, w: &mut String, p: &TypeName) -> (r: Result<(), core::fmt::Error>) {
        write_rust_type(w, p);
        Ok(())
    }
}

} // verus!
