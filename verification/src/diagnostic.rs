use vstd::prelude::*;

verus! {

/// Why a type of the schema has no definition.
#[derive(Debug, PartialEq, Eq)]
pub enum ModelError {
    /// The complex type of this name has no sequence.
    NoSequences(String),
    /// The simple type of this name has no restriction.
    NoRestrictions(String),
}

/// What a [`ModelError`] stands for.
pub enum ModelErrorModel {
    NoSequences(Seq<char>),
    NoRestrictions(Seq<char>),
}

impl View for ModelError {
    type V = ModelErrorModel;

    open spec fn view(&self) -> ModelErrorModel {
        match self {
            ModelError::NoSequences(name) => ModelErrorModel::NoSequences(name@),
            ModelError::NoRestrictions(name) => ModelErrorModel::NoRestrictions(name@),
        }
    }
}

impl Clone for ModelError {
    fn clone(&self) -> (r: ModelError)
        ensures
            r@ == self@,
    {
        match self {
            ModelError::NoSequences(name) => ModelError::NoSequences(name.clone()),
            ModelError::NoRestrictions(name) => ModelError::NoRestrictions(name.clone()),
        }
    }
}

/// The sentence that reports why a type has no definition.
pub open spec fn model_error_text(error: ModelErrorModel) -> Seq<char> {
    match error {
        ModelErrorModel::NoSequences(name) => {
            "`"@ + name + "` has no sequences. Cannot create ObjectImpl"@
        },
        ModelErrorModel::NoRestrictions(name) => "`"@ + name + "` has no restrictions"@,
    }
}

impl ModelError {
    /// The sentence that reports this error.
    pub fn message(&self) -> (r: String)
        ensures
            r@ == model_error_text(self@),
    {
        let mut out = "`".to_owned();
        match self {
            ModelError::NoSequences(name) => {
                out.append(name.as_str());
                out.append("` has no sequences. Cannot create ObjectImpl");
            },
            ModelError::NoRestrictions(name) => {
                out.append(name.as_str());
                out.append("` has no restrictions");
            },
        }
        out
    }
}

/// Something that was left out of the model, for the host to report.
#[derive(Debug, PartialEq, Eq)]
pub enum Diagnostic {
    /// A member of a sequence has no type and was dropped from its object.
    TypelessField { field: String, owner: String },
    /// A complex type gave no object.
    ObjectFailed(ModelError),
    /// A simple type gave no enumeration.
    EnumFailed(ModelError),
}

/// What a [`Diagnostic`] stands for.
pub enum DiagnosticModel {
    TypelessField { field: Seq<char>, owner: Seq<char> },
    ObjectFailed(ModelErrorModel),
    EnumFailed(ModelErrorModel),
}

impl View for Diagnostic {
    type V = DiagnosticModel;

    open spec fn view(&self) -> DiagnosticModel {
        match self {
            Diagnostic::TypelessField { field, owner } => {
                DiagnosticModel::TypelessField { field: field@, owner: owner@ }
            },
            Diagnostic::ObjectFailed(error) => DiagnosticModel::ObjectFailed(error@),
            Diagnostic::EnumFailed(error) => DiagnosticModel::EnumFailed(error@),
        }
    }
}

impl Clone for Diagnostic {
    fn clone(&self) -> (r: Diagnostic)
        ensures
            r@ == self@,
    {
        match self {
            Diagnostic::TypelessField { field, owner } => {
                Diagnostic::TypelessField { field: field.clone(), owner: owner.clone() }
            },
            Diagnostic::ObjectFailed(error) => Diagnostic::ObjectFailed(error.clone()),
            Diagnostic::EnumFailed(error) => Diagnostic::EnumFailed(error.clone()),
        }
    }
}

/// The sentence that reports what was left out.
pub open spec fn diagnostic_text(diagnostic: DiagnosticModel) -> Seq<char> {
    match diagnostic {
        DiagnosticModel::TypelessField { field, owner } => {
            "Dropping typeless field `"@ + field + "` in `"@ + owner + "`"@
        },
        DiagnosticModel::ObjectFailed(error) => {
            "Failed to create ObjectImpl: "@ + model_error_text(error)
        },
        DiagnosticModel::EnumFailed(error) => {
            "Failed to create EnumImpl: "@ + model_error_text(error)
        },
    }
}

impl Diagnostic {
    /// The sentence that reports this diagnostic.
    pub fn message(&self) -> (r: String)
        ensures
            r@ == diagnostic_text(self@),
    {
        match self {
            Diagnostic::TypelessField { field, owner } => {
                let mut out = "Dropping typeless field `".to_owned();
                out.append(field.as_str());
                out.append("` in `");
                out.append(owner.as_str());
                out.append("`");
                out
            },
            Diagnostic::ObjectFailed(error) => {
                let text = error.message();
                let mut out = "Failed to create ObjectImpl: ".to_owned();
                out.append(text.as_str());
                out
            },
            Diagnostic::EnumFailed(error) => {
                let text = error.message();
                let mut out = "Failed to create EnumImpl: ".to_owned();
                out.append(text.as_str());
                out
            },
        }
    }
}

/// What a list of diagnostics holds.
pub open spec fn diagnostics_view(diagnostics: Seq<Diagnostic>) -> Seq<DiagnosticModel> {
    diagnostics.map_values(|d: Diagnostic| d@)
}

} // verus!
