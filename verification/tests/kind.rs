use xsd_model::xml::{Kind, KindError};

#[test]
fn resolves_the_vocabulary() {
    assert_eq!(Kind::from_str("guid"), Ok(Kind::Guid));
    assert_eq!(Kind::from_str("xs:int"), Ok(Kind::Int));
    assert_eq!(Kind::from_str("xs:long"), Ok(Kind::Long));
    assert_eq!(Kind::from_str("xs:string"), Ok(Kind::String));
    assert_eq!(Kind::from_str("xs:double"), Ok(Kind::Double));
    assert_eq!(Kind::from_str("xs:base64Binary"), Ok(Kind::Base64Binary));
    assert_eq!(Kind::from_str("xs:dateTime"), Ok(Kind::DateTime));
    assert_eq!(Kind::from_str("xs:boolean"), Ok(Kind::Boolean));
}

#[test]
fn the_vocabulary_ignores_case() {
    assert_eq!(Kind::from_str("GUID"), Ok(Kind::Guid));
    assert_eq!(Kind::from_str("Guid"), Ok(Kind::Guid));
    assert_eq!(Kind::from_str("XS:INT"), Ok(Kind::Int));
    assert_eq!(Kind::from_str("xs:base64binary"), Ok(Kind::Base64Binary));
    assert_eq!(Kind::from_str("xs:datetime"), Ok(Kind::DateTime));
    assert_eq!(Kind::from_str("Xs:Boolean"), Ok(Kind::Boolean));
}

#[test]
fn resolves_an_array_of_guid() {
    assert_eq!(
        Kind::from_str("ArrayOfGuid"),
        Ok(Kind::Array(Box::new(Kind::Guid)))
    );
}

#[test]
fn resolves_an_array_of_objects() {
    assert_eq!(
        Kind::from_str("ArrayOfAccountingRecordType"),
        Ok(Kind::Array(Box::new(Kind::Object(
            "AccountingRecordType".to_string()
        ))))
    );
}

#[test]
fn resolves_nested_arrays_one_prefix_at_a_time() {
    assert_eq!(
        Kind::from_str("ArrayOfArrayOfxs:int"),
        Ok(Kind::Array(Box::new(Kind::Array(Box::new(Kind::Int)))))
    );
}

#[test]
fn the_array_prefix_is_case_sensitive() {
    assert_eq!(
        Kind::from_str("arrayOfGuid"),
        Err(KindError::NonUpcasedObject("arrayOfGuid".to_string()))
    );
    assert_eq!(
        Kind::from_str("ARRAYOFGuid"),
        Ok(Kind::Object("ARRAYOFGuid".to_string()))
    );
}

#[test]
fn an_empty_reference_is_an_error() {
    assert_eq!(Kind::from_str(""), Err(KindError::EmptyKind));
}

#[test]
fn an_array_of_nothing_reports_its_cause() {
    assert_eq!(
        Kind::from_str("ArrayOf"),
        Err(KindError::ArrayElementParseFailure(
            "ArrayOf".to_string(),
            Box::new(KindError::EmptyKind)
        ))
    );
    assert_eq!(
        Kind::from_str("ArrayOfthing"),
        Err(KindError::ArrayElementParseFailure(
            "ArrayOfthing".to_string(),
            Box::new(KindError::NonUpcasedObject("thing".to_string()))
        ))
    );
}

#[test]
fn object_names_begin_with_a_capital() {
    assert_eq!(
        Kind::from_str("accountType"),
        Err(KindError::NonUpcasedObject("accountType".to_string()))
    );
    assert_eq!(
        Kind::from_str("AccountType"),
        Ok(Kind::Object("AccountType".to_string()))
    );
    assert_eq!(
        Kind::from_str("_AccountType"),
        Err(KindError::NonUpcasedObject("_AccountType".to_string()))
    );
    assert_eq!(
        Kind::from_str("1Account"),
        Err(KindError::NonUpcasedObject("1Account".to_string()))
    );
}

#[test]
fn capitals_beyond_ascii_count() {
    assert_eq!(
        Kind::from_str("\u{c4}rende"),
        Ok(Kind::Object("\u{c4}rende".to_string()))
    );
    assert_eq!(
        Kind::from_str("\u{e4}rende"),
        Err(KindError::NonUpcasedObject("\u{e4}rende".to_string()))
    );
}

#[test]
fn unknown_words_of_the_schema_namespace_are_errors() {
    assert_eq!(
        Kind::from_str("xs:decimal"),
        Err(KindError::UnknownKind("xs:decimal".to_string()))
    );
    assert_eq!(
        Kind::from_str("xsFoo"),
        Err(KindError::UnknownKind("xsFoo".to_string()))
    );
    assert_eq!(
        Kind::from_str("xs"),
        Err(KindError::UnknownKind("xs".to_string()))
    );
    assert_eq!(
        Kind::from_str("Xs:decimal"),
        Ok(Kind::Object("Xs:decimal".to_string()))
    );
}

#[test]
fn errors_have_messages() {
    assert_eq!(KindError::EmptyKind.message(), "Empty Object Kind");
    assert_eq!(
        KindError::NonUpcasedObject("thing".to_string()).message(),
        "Non upcased Object: `thing`"
    );
    assert_eq!(
        KindError::UnknownKind("xs:any".to_string()).message(),
        "Unknown kind `xs:any`"
    );
    assert_eq!(
        Kind::from_str("ArrayOfxs:any").unwrap_err().message(),
        "Parsing Array element from `ArrayOfxs:any`: Unknown kind `xs:any`"
    );
}

#[test]
fn kinds_are_shown() {
    assert_eq!(Kind::Boolean.to_string(), "boolean");
    assert_eq!(Kind::Int.to_string(), "int");
    assert_eq!(Kind::Long.to_string(), "long");
    assert_eq!(Kind::Double.to_string(), "double");
    assert_eq!(Kind::String.to_string(), "string");
    assert_eq!(Kind::Base64Binary.to_string(), "Base64Binary");
    assert_eq!(Kind::Guid.to_string(), "Guid");
    assert_eq!(Kind::DateTime.to_string(), "DateTime");
    assert_eq!(Kind::Object("Invoice".to_string()).to_string(), "Invoice");
    assert_eq!(
        Kind::Array(Box::new(Kind::Array(Box::new(Kind::Guid)))).to_string(),
        "Array<Array<Guid>>"
    );
}

#[test]
fn a_copy_of_a_kind_is_equal_to_it() {
    let kind = Kind::Array(Box::new(Kind::Object("Invoice".to_string())));
    assert_eq!(kind.clone(), kind);
    let error = Kind::from_str("ArrayOf").unwrap_err();
    assert_eq!(error.clone(), error);
}

#[test]
fn a_text_parses_into_a_kind() {
    assert_eq!("xs:int".parse::<Kind>(), Ok(Kind::Int));
    assert_eq!(
        "ArrayOfGuid".parse::<Kind>(),
        Ok(Kind::Array(Box::new(Kind::Guid)))
    );
    assert_eq!("".parse::<Kind>(), Err(KindError::EmptyKind));
}
