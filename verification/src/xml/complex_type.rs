use crate::code_formatter::fields_view;
use crate::diagnostic::{
    diagnostics_view, Diagnostic, DiagnosticModel, ModelError, ModelErrorModel,
};
use crate::types::{type_of_kind, Field, FieldModel, ObjectImpl, ObjectModel, TypeName};
use crate::xml::element::{elements_view, ElementModel};
use crate::xml::schema::{
    sequences_view, ComplexContent, ComplexContentModel, Sequence, SequenceModel,
};
use vstd::prelude::*;

verus! {

/// A structured record of the schema.
#[derive(Debug, PartialEq, Eq)]
pub struct ComplexType {
    pub name: String,
    pub is_abstract: bool,
    pub sequences: Vec<Sequence>,
    /// What the type inherits; it gives no fields.
    pub complex_contents: Vec<ComplexContent>,
}

/// What a [`ComplexType`] stands for.
pub struct ComplexTypeModel {
    pub name: Seq<char>,
    pub is_abstract: bool,
    pub sequences: Seq<SequenceModel>,
    pub complex_contents: Seq<ComplexContentModel>,
}

impl View for ComplexType {
    type V = ComplexTypeModel;

    open spec fn view(&self) -> ComplexTypeModel {
        ComplexTypeModel {
            name: self.name@,
            is_abstract: self.is_abstract,
            sequences: sequences_view(self.sequences@),
            complex_contents: self.complex_contents@.map_values(|c: ComplexContent| c@),
        }
    }
}

/// The field that an element with a type becomes: required unless the
/// element may occur no times.
pub open spec fn field_of(element: ElementModel) -> Option<FieldModel> {
    match element.kind {
        Some(kind) => Some(
            FieldModel {
                name: element.name,
                required: element.min_occurs != 0,
                ty: type_of_kind(kind),
            },
        ),
        None => None,
    }
}

/// The diagnostic that an element without a type leaves behind in the type
/// named `owner`.
pub open spec fn dropped_from(owner: Seq<char>, element: ElementModel) -> Option<DiagnosticModel> {
    match element.kind {
        Some(_) => None,
        None => Some(DiagnosticModel::TypelessField { field: element.name, owner }),
    }
}

/// The fields of the elements that have a type, in the order of the
/// elements.
pub open spec fn fields_of(elements: Seq<ElementModel>) -> Seq<FieldModel> {
    elements.filter_map(|e: ElementModel| field_of(e))
}

/// The diagnostics of the elements that have no type, in the order of the
/// elements.
pub open spec fn typeless_in(owner: Seq<char>, elements: Seq<ElementModel>) -> Seq<
    DiagnosticModel,
> {
    elements.filter_map(|e: ElementModel| dropped_from(owner, e))
}

/// The object that a complex type with a sequence gives: its first sequence
/// decides.
pub open spec fn object_of(complex: ComplexTypeModel) -> ObjectModel
    recommends
        complex.sequences.len() > 0,
{
    ObjectModel { name: complex.name, fields: fields_of(complex.sequences[0].elements) }
}

/// The diagnostics that converting a complex type with a sequence leaves.
pub open spec fn typeless_of(complex: ComplexTypeModel) -> Seq<DiagnosticModel>
    recommends
        complex.sequences.len() > 0,
{
    typeless_in(complex.name, complex.sequences[0].elements)
}

/// What converting a complex type gives: its object with the diagnostics of
/// the dropped elements, or the error that it has no sequence.
pub open spec fn object_result(complex: ComplexTypeModel) -> Result<
    (ObjectModel, Seq<DiagnosticModel>),
    ModelErrorModel,
> {
    if complex.sequences.len() == 0 {
        Err(ModelErrorModel::NoSequences(complex.name))
    } else {
        Ok((object_of(complex), typeless_of(complex)))
    }
}

impl ComplexType {
    /// Converts the complex type into an object, and reports the elements
    /// that were dropped for want of a type.
    pub fn into_object_impl(self) -> (r: Result<(ObjectImpl, Vec<Diagnostic>), ModelError>)
        ensures
            match r {
                Ok((object, diagnostics)) => object_result(self@) == Ok::<
                    (ObjectModel, Seq<DiagnosticModel>),
                    ModelErrorModel,
                >((object@, diagnostics_view(diagnostics@))),
                Err(error) => object_result(self@) == Err::<
                    (ObjectModel, Seq<DiagnosticModel>),
                    ModelErrorModel,
                >(error@),
            },
    {
        let name = self.name;
        let mut sequences = self.sequences;
        if sequences.len() == 0 {
            return Err(ModelError::NoSequences(name));
        }
        let first = sequences.remove(0);
        let ghost elements = elements_view(first.elements@);
        let ghost given = first.elements@;
        let mut fields: Vec<Field> = Vec::new();
        let mut diagnostics: Vec<Diagnostic> = Vec::new();
        for element in it: first.elements
            invariant
                it.seq() == given,
                elements == elements_view(given),
                fields_view(fields@) == fields_of(elements.take(it.index() as int)),
                diagnostics_view(diagnostics@) == typeless_in(
                    name@,
                    elements.take(it.index() as int),
                ),
        {
            proof {
                elements.lemma_filter_map_take_succ(
                    |e: ElementModel| field_of(e),
                    it.index() as int,
                );
                elements.lemma_filter_map_take_succ(
                    |e: ElementModel| dropped_from(name@, e),
                    it.index() as int,
                );
            }
            let ghost before_fields = fields_view(fields@);
            let ghost before_diagnostics = diagnostics_view(diagnostics@);
            let required = !element.is_optional();
            match element.kind {
                Some(kind) => {
                    let ty = TypeName::from(kind);
                    fields.push(Field { name: element.name, required, ty });
                    assert(fields_view(fields@) =~= before_fields + seq![fields@.last()@]);
                },
                None => {
                    diagnostics.push(
                        Diagnostic::TypelessField { field: element.name, owner: name.clone() },
                    );
                    assert(diagnostics_view(diagnostics@) =~= before_diagnostics
                        + seq![diagnostics@.last()@]);
                },
            }
        }
        assert(elements.take(elements.len() as int) =~= elements);
        Ok((ObjectImpl { name, fields }, diagnostics))
    }
}

} // verus!
