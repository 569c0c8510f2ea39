use crate::text::{chars_le, chars_of, lex_le};
use crate::xml::kind::{Kind, KindModel};
use core::cmp::Ordering;
use vstd::prelude::*;
use vstd::std_specs::cmp::PartialOrdSpecImpl;
use vstd::std_specs::convert::FromSpecImpl;

verus! {

/// The scalar types that every target language has built in.
#[derive(Debug, Clone, Copy, PartialEq, Eq, PartialOrd, Ord)]
pub enum Primitive {
    Bool,
    Int,
    Long,
    Double,
    String,
}

/// A type, as the generated code will name it.
#[derive(Debug, PartialEq, Eq, PartialOrd, Ord)]
pub enum TypeName {
    Primitive(Primitive),
    Array(Box<TypeName>),
    Object(String),
}

/// What a [`TypeName`] stands for.
pub enum TypeModel {
    Primitive(Primitive),
    Array(Box<TypeModel>),
    Object(Seq<char>),
}

impl View for TypeName {
    type V = TypeModel;

    open spec fn view(&self) -> TypeModel
        decreases self,
    {
        match self {
            TypeName::Primitive(p) => TypeModel::Primitive(*p),
            TypeName::Array(inner) => TypeModel::Array(Box::new((**inner)@)),
            TypeName::Object(name) => TypeModel::Object(name@),
        }
    }
}

/// The name that has to be imported before `t` can be written: that of the
/// object which `t` is, or is an array of, at any depth.
pub open spec fn import_name(t: TypeModel) -> Option<Seq<char>>
    decreases t,
{
    match t {
        TypeModel::Primitive(_) => None,
        TypeModel::Array(inner) => import_name(*inner),
        TypeModel::Object(name) => Some(name),
    }
}

/// The type that stands for a kind of the schema. Binary data, identifiers
/// and dates become objects that the target language supplies under these
/// names.
pub open spec fn type_of_kind(kind: KindModel) -> TypeModel
    decreases kind,
{
    match kind {
        KindModel::Boolean => TypeModel::Primitive(Primitive::Bool),
        KindModel::Int => TypeModel::Primitive(Primitive::Int),
        KindModel::Long => TypeModel::Primitive(Primitive::Long),
        KindModel::Double => TypeModel::Primitive(Primitive::Double),
        KindModel::String => TypeModel::Primitive(Primitive::String),
        KindModel::Base64Binary => TypeModel::Object("Base64Binary"@),
        KindModel::Guid => TypeModel::Object("Guid"@),
        KindModel::DateTime => TypeModel::Object("DateTime"@),
        KindModel::Array(inner) => TypeModel::Array(Box::new(type_of_kind(*inner))),
        KindModel::Object(name) => TypeModel::Object(name),
    }
}

/// The text that stands for a primitive when it is shown.
pub open spec fn primitive_text(p: Primitive) -> Seq<char> {
    match p {
        Primitive::Bool => "boolean"@,
        Primitive::Int => "int"@,
        Primitive::Long => "long"@,
        Primitive::Double => "double"@,
        Primitive::String => "string"@,
    }
}

/// The text that stands for a type when it is shown.
pub open spec fn type_text(t: TypeModel) -> Seq<char>
    decreases t,
{
    match t {
        TypeModel::Primitive(p) => primitive_text(p),
        TypeModel::Array(inner) => "Array<"@ + type_text(*inner) + ">"@,
        TypeModel::Object(name) => name,
    }
}

impl Primitive {
    /// The text that stands for this primitive when it is shown.
    pub fn to_string(&self) -> (r: String)
        ensures
            r@ == primitive_text(*self),
    {
        match self {
            Primitive::Bool => "boolean".to_owned(),
            Primitive::Int => "int".to_owned(),
            Primitive::Long => "long".to_owned(),
            Primitive::Double => "double".to_owned(),
            Primitive::String => "string".to_owned(),
        }
    }
}

impl TypeName {
    /// The name that has to be imported before this type can be written,
    /// if there is one.
    pub fn import_statement(&self) -> (r: Option<&str>)
        ensures
            match r {
                Some(name) => import_name(self@) == Some(name@),
                None => import_name(self@) is None,
            },
        decreases self,
    {
        match self {
            TypeName::Primitive(_) => None,
            TypeName::Array(inner) => inner.import_statement(),
            TypeName::Object(name) => Some(name.as_str()),
        }
    }

    /// The object of the given name.
    pub fn object(s: &str) -> (r: TypeName)
        ensures
            r@ == TypeModel::Object(s@),
    {
        TypeName::Object(s.to_owned())
    }

    /// The array of whatever `inner` converts to.
    pub fn array<T>(inner: T) -> (r: TypeName) where TypeName: From<T>
        ensures
            r matches TypeName::Array(element) && call_ensures(
                <TypeName as From<T>>::from,
                (inner,),
                *element,
            ),
    {
        TypeName::Array(Box::new(TypeName::from(inner)))
    }

    /// The text that stands for this type when it is shown.
    pub fn to_string(&self) -> (r: String)
        ensures
            r@ == type_text(self@),
        decreases self,
    {
        match self {
            TypeName::Primitive(p) => p.to_string(),
            TypeName::Array(inner) => {
                let text = inner.to_string();
                let mut out = "Array<".to_owned();
                out.append(text.as_str());
                out.append(">");
                out
            },
            TypeName::Object(name) => name.clone(),
        }
    }
}

impl Clone for TypeName {
    fn clone(&self) -> (r: TypeName)
        ensures
            r@ == self@,
        decreases self,
    {
        match self {
            TypeName::Primitive(p) => TypeName::Primitive(*p),
            TypeName::Array(inner) => TypeName::Array(Box::new((**inner).clone())),
            TypeName::Object(name) => TypeName::Object(name.clone()),
        }
    }
}

impl From<Kind> for TypeName {
    /// The type that stands for a kind of the schema.
    fn from(kind: Kind) -> (r: TypeName)
        ensures
            r@ == type_of_kind(kind@),
        decreases kind,
    {
        match kind {
            Kind::Boolean => TypeName::Primitive(Primitive::Bool),
            Kind::Int => TypeName::Primitive(Primitive::Int),
            Kind::Long => TypeName::Primitive(Primitive::Long),
            Kind::Double => TypeName::Primitive(Primitive::Double),
            Kind::String => TypeName::Primitive(Primitive::String),
            Kind::Base64Binary => TypeName::Object("Base64Binary".to_owned()),
            Kind::Guid => TypeName::Object("Guid".to_owned()),
            Kind::DateTime => TypeName::Object("DateTime".to_owned()),
            Kind::Array(inner) => TypeName::Array(Box::new(TypeName::from(*inner))),
            Kind::Object(name) => TypeName::Object(name),
        }
    }
}

/// The conversion from a kind is stated by the `ensures` of `from`, over
/// the views: no spec function can make the texts that name the three
/// objects of the target language.
impl FromSpecImpl<Kind> for TypeName {
    open spec fn obeys_from_spec() -> bool {
        false
    }

    open spec fn from_spec(kind: Kind) -> TypeName {
        arbitrary()
    }
}

/// The conversion of a value into its own type, `From<T> for T` of the
/// standard library: it hands the value back.
pub assume_specification<U>[ <U as core::convert::From<U>>::from ](value: U) -> (same: U)
    ensures
        same == value,
;

impl From<Primitive> for TypeName {
    fn from(p: Primitive) -> (r: TypeName) {
        TypeName::Primitive(p)
    }
}

impl FromSpecImpl<Primitive> for TypeName {
    open spec fn obeys_from_spec() -> bool {
        true
    }

    open spec fn from_spec(p: Primitive) -> TypeName {
        TypeName::Primitive(p)
    }
}

/// One member of a generated object.
#[derive(Debug, PartialEq, Eq, PartialOrd, Ord)]
pub struct Field {
    pub name: String,
    pub required: bool,
    pub ty: TypeName,
}

/// What a [`Field`] stands for.
pub struct FieldModel {
    pub name: Seq<char>,
    pub required: bool,
    pub ty: TypeModel,
}

impl View for Field {
    type V = FieldModel;

    open spec fn view(&self) -> FieldModel {
        FieldModel { name: self.name@, required: self.required, ty: self.ty@ }
    }
}

/// A generated record: a name and its fields, in the order of the schema.
#[derive(Debug, PartialEq, Eq, PartialOrd, Ord)]
pub struct ObjectImpl {
    pub name: String,
    pub fields: Vec<Field>,
}

/// What an [`ObjectImpl`] stands for.
pub struct ObjectModel {
    pub name: Seq<char>,
    pub fields: Seq<FieldModel>,
}

impl View for ObjectImpl {
    type V = ObjectModel;

    open spec fn view(&self) -> ObjectModel {
        ObjectModel { name: self.name@, fields: self.fields@.map_values(|f: Field| f@) }
    }
}

/// A generated enumeration of texts.
///
/// Only texts are supported. For enumerations of numbers the variants would
/// have to be written out according to the base.
#[derive(Debug, PartialEq, Eq, PartialOrd, Ord)]
pub struct EnumImpl {
    pub name: String,
    pub base: TypeName,
    pub variants: Vec<String>,
}

/// What an [`EnumImpl`] stands for.
pub struct EnumModel {
    pub name: Seq<char>,
    pub base: TypeModel,
    pub variants: Seq<Seq<char>>,
}

impl View for EnumImpl {
    type V = EnumModel;

    open spec fn view(&self) -> EnumModel {
        EnumModel {
            name: self.name@,
            base: self.base@,
            variants: self.variants@.map_values(|v: String| v@),
        }
    }
}

/// A definition that code is generated for.
#[derive(Debug, PartialEq, Eq)]
pub enum Implementation {
    Enum(EnumImpl),
    Object(ObjectImpl),
}

/// What an [`Implementation`] stands for.
pub enum ImplementationModel {
    Enum(EnumModel),
    Object(ObjectModel),
}

impl ImplementationModel {
    /// The name under which the definition is generated, and by which
    /// definitions are ordered.
    pub open spec fn name(self) -> Seq<char> {
        match self {
            ImplementationModel::Enum(inner) => inner.name,
            ImplementationModel::Object(inner) => inner.name,
        }
    }
}

impl View for Implementation {
    type V = ImplementationModel;

    open spec fn view(&self) -> ImplementationModel {
        match self {
            Implementation::Enum(inner) => ImplementationModel::Enum(inner@),
            Implementation::Object(inner) => ImplementationModel::Object(inner@),
        }
    }
}

impl Implementation {
    /// The name under which the definition is generated.
    pub fn name(&self) -> (r: &str)
        ensures
            r@ == self@.name(),
    {
        match self {
            Implementation::Enum(inner) => inner.name.as_str(),
            Implementation::Object(inner) => inner.name.as_str(),
        }
    }
}

impl PartialOrd for Implementation {
    /// Definitions are ordered by their names alone: two definitions of one
    /// name are equal in this order, whatever they hold.
    fn partial_cmp(&self, other: &Implementation) -> (r: Option<Ordering>) {
        let own = chars_of(self.name());
        let others = chars_of(other.name());
        if !chars_le(&own, &others) {
            Some(Ordering::Greater)
        } else if chars_le(&others, &own) {
            Some(Ordering::Equal)
        } else {
            Some(Ordering::Less)
        }
    }
}

impl PartialOrdSpecImpl for Implementation {
    open spec fn obeys_partial_cmp_spec() -> bool {
        true
    }

    open spec fn partial_cmp_spec(&self, other: &Implementation) -> Option<Ordering> {
        if !lex_le(self@.name(), other@.name()) {
            Some(Ordering::Greater)
        } else if lex_le(other@.name(), self@.name()) {
            Some(Ordering::Equal)
        } else {
            Some(Ordering::Less)
        }
    }
}

impl Field {
    /// A required field of the given name and type.
    pub fn new<T: Into<TypeName>>(name: &str, ty: T) -> (r: Field)
        ensures
            r.name@ == name@,
            r.required,
            call_ensures(<T as Into<TypeName>>::into, (ty,), r.ty),
    {
        Field { name: name.to_owned(), required: true, ty: ty.into() }
    }

    /// The same field, no longer required.
    pub fn optional(self) -> (r: Field)
        ensures
            r == (Field { required: false, ..self }),
    {
        let mut field = self;
        field.required = false;
        field
    }
}

impl Clone for Field {
    fn clone(&self) -> (r: Field)
        ensures
            r@ == self@,
    {
        Field { name: self.name.clone(), required: self.required, ty: self.ty.clone() }
    }
}

impl Clone for ObjectImpl {
    fn clone(&self) -> (r: ObjectImpl)
        ensures
            r@ == self@,
    {
        let mut fields: Vec<Field> = Vec::new();
        let mut i: usize = 0;
        while i < self.fields.len()
            invariant
                i <= self.fields.len(),
                fields.len() == i,
                forall|j: int| 0 <= j < i ==> (#[trigger] fields@[j])@ == self.fields@[j]@,
            decreases self.fields.len() - i,
        {
            fields.push(self.fields[i].clone());
            i += 1;
        }
        let r = ObjectImpl { name: self.name.clone(), fields };
        assert(r@.fields =~= self@.fields);
        r
    }
}

impl Clone for EnumImpl {
    fn clone(&self) -> (r: EnumImpl)
        ensures
            r@ == self@,
    {
        let mut variants: Vec<String> = Vec::new();
        let mut i: usize = 0;
        while i < self.variants.len()
            invariant
                i <= self.variants.len(),
                variants.len() == i,
                forall|j: int| 0 <= j < i ==> (#[trigger] variants@[j])@ == self.variants@[j]@,
            decreases self.variants.len() - i,
        {
            variants.push(self.variants[i].clone());
            i += 1;
        }
        let r = EnumImpl { name: self.name.clone(), base: self.base.clone(), variants };
        assert(r@.variants =~= self@.variants);
        r
    }
}

impl Clone for Implementation {
    fn clone(&self) -> (r: Implementation)
        ensures
            r@ == self@,
    {
        match self {
            Implementation::Enum(inner) => Implementation::Enum(inner.clone()),
            Implementation::Object(inner) => Implementation::Object(inner.clone()),
        }
    }
}

} // verus!
