use crate::text::{
    chars_of, eq_ignore_ascii_case, has_prefix, matches_ignore_ascii_case, starts_with,
};
use vstd::prelude::*;

verus! {

/// The type of a field as the schema writes it. It is called a kind so as
/// not to collide with the reserved word.
#[derive(Debug, PartialEq, Eq)]
pub enum Kind {
    Boolean,
    Int,
    Long,
    Double,
    String,
    Base64Binary,
    Guid,
    DateTime,
    Array(Box<Kind>),
    Object(String),
}

/// What a [`Kind`] stands for.
pub enum KindModel {
    Boolean,
    Int,
    Long,
    Double,
    String,
    Base64Binary,
    Guid,
    DateTime,
    Array(Box<KindModel>),
    Object(Seq<char>),
}

impl View for Kind {
    type V = KindModel;

    open spec fn view(&self) -> KindModel
        decreases self,
    {
        match self {
            Kind::Boolean => KindModel::Boolean,
            Kind::Int => KindModel::Int,
            Kind::Long => KindModel::Long,
            Kind::Double => KindModel::Double,
            Kind::String => KindModel::String,
            Kind::Base64Binary => KindModel::Base64Binary,
            Kind::Guid => KindModel::Guid,
            Kind::DateTime => KindModel::DateTime,
            Kind::Array(inner) => KindModel::Array(Box::new((**inner)@)),
            Kind::Object(name) => KindModel::Object(name@),
        }
    }
}

impl Clone for Kind {
    fn clone(&self) -> (r: Kind)
        ensures
            r@ == self@,
        decreases self,
    {
        match self {
            Kind::Boolean => Kind::Boolean,
            Kind::Int => Kind::Int,
            Kind::Long => Kind::Long,
            Kind::Double => Kind::Double,
            Kind::String => Kind::String,
            Kind::Base64Binary => Kind::Base64Binary,
            Kind::Guid => Kind::Guid,
            Kind::DateTime => Kind::DateTime,
            Kind::Array(inner) => Kind::Array(Box::new((**inner).clone())),
            Kind::Object(name) => Kind::Object(name.clone()),
        }
    }
}

/// Why a type reference names no kind.
#[derive(Debug, PartialEq, Eq)]
pub enum KindError {
    /// The reference is the empty text.
    EmptyKind,
    /// The reference names an object and does not begin with a capital.
    NonUpcasedObject(String),
    /// The reference begins with `xs` and is no word of the vocabulary.
    UnknownKind(String),
    /// The reference begins with `ArrayOf` and what follows names no kind.
    ArrayElementParseFailure(String, Box<KindError>),
}

/// What a [`KindError`] stands for.
pub enum KindErrorModel {
    EmptyKind,
    NonUpcasedObject(Seq<char>),
    UnknownKind(Seq<char>),
    ArrayElementParseFailure(Seq<char>, Box<KindErrorModel>),
}

impl View for KindError {
    type V = KindErrorModel;

    open spec fn view(&self) -> KindErrorModel
        decreases self,
    {
        match self {
            KindError::EmptyKind => KindErrorModel::EmptyKind,
            KindError::NonUpcasedObject(raw) => KindErrorModel::NonUpcasedObject(raw@),
            KindError::UnknownKind(raw) => KindErrorModel::UnknownKind(raw@),
            KindError::ArrayElementParseFailure(raw, cause) => {
                KindErrorModel::ArrayElementParseFailure(raw@, Box::new((**cause)@))
            },
        }
    }
}

impl Clone for KindError {
    fn clone(&self) -> (r: KindError)
        ensures
            r@ == self@,
        decreases self,
    {
        match self {
            KindError::EmptyKind => KindError::EmptyKind,
            KindError::NonUpcasedObject(raw) => KindError::NonUpcasedObject(raw.clone()),
            KindError::UnknownKind(raw) => KindError::UnknownKind(raw.clone()),
            KindError::ArrayElementParseFailure(raw, cause) => {
                KindError::ArrayElementParseFailure(raw.clone(), Box::new((**cause).clone()))
            },
        }
    }
}

/// What `char::is_uppercase` returns for `c`: whether Unicode gives the
/// character the property `Uppercase`.
pub uninterp spec fn unicode_uppercase(c: char) -> bool;

/// Calls `char::is_uppercase` of the standard library. The contract only
/// names the answer; nothing is claimed of which characters have the property.
#[verifier::external_body]
fn unicode_is_uppercase(c: char) -> (r: bool)
    ensures
        r == unicode_uppercase(c),
{
    c.is_uppercase()
}

/// `c` is a capital letter: one of `A` to `Z` within ASCII, and beyond ASCII
/// what Unicode calls uppercase.
pub open spec fn is_capital(c: char) -> bool {
    if c <= '\x7f' {
        'A' <= c && c <= 'Z'
    } else {
        unicode_uppercase(c)
    }
}

/// Tests whether `c` is a capital letter.
pub fn char_is_capital(c: char) -> (r: bool)
    ensures
        r == is_capital(c),
{
    if c <= '\x7f' {
        'A' <= c && c <= 'Z'
    } else {
        unicode_is_uppercase(c)
    }
}

/// The kind that a word of the fixed vocabulary names, whatever the case of
/// its letters.
pub open spec fn vocabulary_kind(s: Seq<char>) -> Option<KindModel> {
    if eq_ignore_ascii_case(s, "guid"@) {
        Some(KindModel::Guid)
    } else if eq_ignore_ascii_case(s, "xs:int"@) {
        Some(KindModel::Int)
    } else if eq_ignore_ascii_case(s, "xs:long"@) {
        Some(KindModel::Long)
    } else if eq_ignore_ascii_case(s, "xs:string"@) {
        Some(KindModel::String)
    } else if eq_ignore_ascii_case(s, "xs:double"@) {
        Some(KindModel::Double)
    } else if eq_ignore_ascii_case(s, "xs:base64Binary"@) {
        Some(KindModel::Base64Binary)
    } else if eq_ignore_ascii_case(s, "xs:dateTime"@) {
        Some(KindModel::DateTime)
    } else if eq_ignore_ascii_case(s, "xs:boolean"@) {
        Some(KindModel::Boolean)
    } else {
        None
    }
}

/// The kind that the type reference `s` names, or why it names none.
pub open spec fn resolve(s: Seq<char>) -> Result<KindModel, KindErrorModel>
    decreases s.len(),
    via resolve_decreases
{
    match vocabulary_kind(s) {
        Some(kind) => Ok(kind),
        None => {
            if starts_with(s, "ArrayOf"@) {
                match resolve(s.skip("ArrayOf"@.len() as int)) {
                    Ok(inner) => Ok(KindModel::Array(Box::new(inner))),
                    Err(cause) => Err(KindErrorModel::ArrayElementParseFailure(s, Box::new(cause))),
                }
            } else if s.len() == 0 {
                Err(KindErrorModel::EmptyKind)
            } else if !starts_with(s, "xs"@) {
                if is_capital(s[0]) {
                    Ok(KindModel::Object(s))
                } else {
                    Err(KindErrorModel::NonUpcasedObject(s))
                }
            } else {
                Err(KindErrorModel::UnknownKind(s))
            }
        },
    }
}

#[via_fn]
proof fn resolve_decreases(s: Seq<char>) {
    reveal_strlit("ArrayOf");
}

fn vocabulary_lookup(cs: &Vec<char>) -> (r: Option<Kind>)
    ensures
        r is Some == vocabulary_kind(cs@) is Some,
        r is Some ==> r->0@ == vocabulary_kind(cs@)->0,
{
    if matches_ignore_ascii_case(cs, "guid") {
        Some(Kind::Guid)
    } else if matches_ignore_ascii_case(cs, "xs:int") {
        Some(Kind::Int)
    } else if matches_ignore_ascii_case(cs, "xs:long") {
        Some(Kind::Long)
    } else if matches_ignore_ascii_case(cs, "xs:string") {
        Some(Kind::String)
    } else if matches_ignore_ascii_case(cs, "xs:double") {
        Some(Kind::Double)
    } else if matches_ignore_ascii_case(cs, "xs:base64Binary") {
        Some(Kind::Base64Binary)
    } else if matches_ignore_ascii_case(cs, "xs:dateTime") {
        Some(Kind::DateTime)
    } else if matches_ignore_ascii_case(cs, "xs:boolean") {
        Some(Kind::Boolean)
    } else {
        None
    }
}

/// The text that stands for a kind when it is shown.
pub open spec fn kind_text(kind: KindModel) -> Seq<char>
    decreases kind,
{
    match kind {
        KindModel::Boolean => "boolean"@,
        KindModel::Int => "int"@,
        KindModel::Long => "long"@,
        KindModel::Double => "double"@,
        KindModel::String => "string"@,
        KindModel::Base64Binary => "Base64Binary"@,
        KindModel::Guid => "Guid"@,
        KindModel::DateTime => "DateTime"@,
        KindModel::Array(inner) => "Array<"@ + kind_text(*inner) + ">"@,
        KindModel::Object(name) => name,
    }
}

/// The sentence that reports an error of the resolver.
pub open spec fn kind_error_text(error: KindErrorModel) -> Seq<char>
    decreases error,
{
    match error {
        KindErrorModel::EmptyKind => "Empty Object Kind"@,
        KindErrorModel::NonUpcasedObject(raw) => "Non upcased Object: `"@ + raw + "`"@,
        KindErrorModel::UnknownKind(raw) => "Unknown kind `"@ + raw + "`"@,
        KindErrorModel::ArrayElementParseFailure(raw, cause) => {
            "Parsing Array element from `"@ + raw + "`: "@ + kind_error_text(*cause)
        },
    }
}

impl KindError {
    /// The sentence that reports this error.
    pub fn message(&self) -> (r: String)
        ensures
            r@ == kind_error_text(self@),
        decreases self,
    {
        match self {
            KindError::EmptyKind => "Empty Object Kind".to_owned(),
            KindError::NonUpcasedObject(raw) => {
                let mut out = "Non upcased Object: `".to_owned();
                out.append(raw.as_str());
                out.append("`");
                out
            },
            KindError::UnknownKind(raw) => {
                let mut out = "Unknown kind `".to_owned();
                out.append(raw.as_str());
                out.append("`");
                out
            },
            KindError::ArrayElementParseFailure(raw, cause) => {
                let inner = cause.message();
                let mut out = "Parsing Array element from `".to_owned();
                out.append(raw.as_str());
                out.append("`: ");
                out.append(inner.as_str());
                out
            },
        }
    }
}

impl Kind {
    /// The text that stands for this kind when it is shown.
    pub fn to_string(&self) -> (r: String)
        ensures
            r@ == kind_text(self@),
        decreases self,
    {
        match self {
            Kind::Boolean => "boolean".to_owned(),
            Kind::Int => "int".to_owned(),
            Kind::Long => "long".to_owned(),
            Kind::Double => "double".to_owned(),
            Kind::String => "string".to_owned(),
            Kind::Base64Binary => "Base64Binary".to_owned(),
            Kind::Guid => "Guid".to_owned(),
            Kind::DateTime => "DateTime".to_owned(),
            Kind::Array(inner) => {
                let text = inner.to_string();
                let mut out = "Array<".to_owned();
                out.append(text.as_str());
                out.append(">");
                out
            },
            Kind::Object(name) => name.clone(),
        }
    }

    /// Resolves a type reference of the schema.
    pub fn from_str(s: &str) -> (r: Result<Kind, KindError>)
        ensures
            match r {
                Ok(kind) => resolve(s@) == Ok::<KindModel, KindErrorModel>(kind@),
                Err(error) => resolve(s@) == Err::<KindModel, KindErrorModel>(error@),
            },
        decreases s@.len(),
    {
        let cs = chars_of(s);
        if let Some(kind) = vocabulary_lookup(&cs) {
            return Ok(kind);
        }
        if has_prefix(&cs, "ArrayOf") {
            proof {
                reveal_strlit("ArrayOf");
            }
            let rest = s.substring_char(7, cs.len());
            match Kind::from_str(rest) {
                Ok(inner) => Ok(Kind::Array(Box::new(inner))),
                Err(cause) => Err(KindError::ArrayElementParseFailure(s.to_owned(), Box::new(cause))),
            }
        } else if cs.len() == 0 {
            Err(KindError::EmptyKind)
        } else if !has_prefix(&cs, "xs") {
            if char_is_capital(cs[0]) {
                Ok(Kind::Object(s.to_owned()))
            } else {
                Err(KindError::NonUpcasedObject(s.to_owned()))
            }
        } else {
            Err(KindError::UnknownKind(s.to_owned()))
        }
    }
}

impl core::str::FromStr for Kind {
    type Err = KindError;

    /// Resolves a type reference of the schema, as [`Kind::from_str`] does.
    fn from_str(s: &str) -> (r: Result<Kind, KindError>)
        ensures
            match r {
                Ok(kind) => resolve(s@) == Ok::<KindModel, KindErrorModel>(kind@),
                Err(error) => resolve(s@) == Err::<KindModel, KindErrorModel>(error@),
            },
    {
        Kind::from_str(s)
    }
}

} // verus!
