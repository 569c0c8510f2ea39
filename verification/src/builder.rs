use crate::diagnostic::{diagnostics_view, Diagnostic, DiagnosticModel, ModelErrorModel};
use crate::order::{
    find_upper_bound, keys_view, lemma_insert_keeps_sorted, lemma_upper_bound, sorted, upper_bound,
};
use crate::text::chars_of;
use crate::types::{Implementation, ImplementationModel};
use crate::xml::complex_type::{object_of, typeless_of, ComplexType, ComplexTypeModel};
use crate::xml::element::{elements_view, Element, ElementModel};
use crate::xml::schema::{Schema, SchemaModel};
use crate::xml::simple_type::{enum_of, SimpleType, SimpleTypeModel};
use vstd::prelude::*;

verus! {

/// The model of a schema: its definitions, in the order of their names.
#[derive(Debug, PartialEq, Eq)]
pub struct ModelSchema {
    pub implementations: Vec<Implementation>,
    /// The elements at the root of the schema, as they were given.
    pub elements: Vec<Element>,
}

/// What a [`ModelSchema`] stands for.
pub struct ModelSchemaModel {
    pub implementations: Seq<ImplementationModel>,
    pub elements: Seq<ElementModel>,
}

/// What a list of definitions holds.
pub open spec fn implementations_view(list: Seq<Implementation>) -> Seq<ImplementationModel> {
    list.map_values(|m: Implementation| m@)
}

impl ModelSchemaModel {
    /// The definitions stand in the order of their names.
    pub open spec fn well_formed(self) -> bool {
        sorted(names_of(self.implementations))
    }
}

impl View for ModelSchema {
    type V = ModelSchemaModel;

    open spec fn view(&self) -> ModelSchemaModel {
        ModelSchemaModel {
            implementations: implementations_view(self.implementations@),
            elements: elements_view(self.elements@),
        }
    }
}

/// The names of the definitions, in their order.
pub open spec fn names_of(list: Seq<ImplementationModel>) -> Seq<Seq<char>> {
    list.map_values(|m: ImplementationModel| m.name())
}

/// The list with `entry` in it, behind the definitions whose names do not
/// come after its own.
pub open spec fn placed(
    list: Seq<ImplementationModel>,
    entry: ImplementationModel,
) -> Seq<ImplementationModel> {
    list.insert(upper_bound(names_of(list), entry.name()), entry)
}

/// The definitions in the order of their names; those of one name keep the
/// order in which they were given.
pub open spec fn sorted_by_name(list: Seq<ImplementationModel>) -> Seq<ImplementationModel>
    decreases list.len(),
{
    if list.len() == 0 {
        Seq::empty()
    } else {
        placed(sorted_by_name(list.drop_last()), list.last())
    }
}

/// The definition that a complex type gives: an object where it has a
/// sequence, and else none.
pub open spec fn object_made(complex: ComplexTypeModel) -> Option<ImplementationModel> {
    if complex.sequences.len() > 0 {
        Some(ImplementationModel::Object(object_of(complex)))
    } else {
        None
    }
}

/// The definition that a simple type gives: an enumeration where it has a
/// restriction, and else none.
pub open spec fn enum_made(simple: SimpleTypeModel) -> Option<ImplementationModel> {
    if simple.restrictions.len() > 0 {
        Some(ImplementationModel::Enum(enum_of(simple)))
    } else {
        None
    }
}

/// The diagnostic that a simple type leaves: that it has no restriction,
/// where it has none.
pub open spec fn enum_missed(simple: SimpleTypeModel) -> Option<DiagnosticModel> {
    if simple.restrictions.len() > 0 {
        None
    } else {
        Some(DiagnosticModel::EnumFailed(ModelErrorModel::NoRestrictions(simple.name)))
    }
}

/// The objects of the complex types, in the order of the schema.
pub open spec fn objects_of(complex_types: Seq<ComplexTypeModel>) -> Seq<ImplementationModel> {
    complex_types.filter_map(|t: ComplexTypeModel| object_made(t))
}

/// The enumerations of the simple types, in the order of the schema.
pub open spec fn enums_of(simple_types: Seq<SimpleTypeModel>) -> Seq<ImplementationModel> {
    simple_types.filter_map(|t: SimpleTypeModel| enum_made(t))
}

/// What a complex type leaves for the host to report: the elements that
/// it dropped where it has a sequence, and else that it has none.
pub open spec fn complex_report(complex: ComplexTypeModel) -> Seq<DiagnosticModel> {
    if complex.sequences.len() > 0 {
        typeless_of(complex)
    } else {
        seq![DiagnosticModel::ObjectFailed(ModelErrorModel::NoSequences(complex.name))]
    }
}

/// What the complex types leave for the host to report, type by type in
/// the order of the schema.
pub open spec fn complex_reports(complex_types: Seq<ComplexTypeModel>) -> Seq<DiagnosticModel>
    decreases complex_types.len(),
{
    if complex_types.len() == 0 {
        Seq::empty()
    } else {
        complex_reports(complex_types.drop_last()) + complex_report(complex_types.last())
    }
}

/// The diagnostics of the simple types that gave no enumeration.
pub open spec fn missed_of(simple_types: Seq<SimpleTypeModel>) -> Seq<DiagnosticModel> {
    simple_types.filter_map(|t: SimpleTypeModel| enum_missed(t))
}

/// The definitions of a schema before they are ordered: the objects, then
/// the enumerations.
pub open spec fn collected(schema: SchemaModel) -> Seq<ImplementationModel> {
    objects_of(schema.complex_types) + enums_of(schema.simple_types)
}

/// The model of a schema.
pub open spec fn model_of(schema: SchemaModel) -> ModelSchemaModel {
    ModelSchemaModel {
        implementations: sorted_by_name(collected(schema)),
        elements: schema.elements,
    }
}

/// What building the model of a schema reports: for each complex type its
/// dropped elements, or that it has no sequence; then the simple types
/// without a restriction.
pub open spec fn diagnostics_of(schema: SchemaModel) -> Seq<DiagnosticModel> {
    complex_reports(schema.complex_types) + missed_of(schema.simple_types)
}

/// Ordering definitions by name gives a list whose names are in order.
pub proof fn lemma_sorted_by_name_is_sorted(list: Seq<ImplementationModel>)
    ensures
        sorted(names_of(sorted_by_name(list))),
    decreases list.len(),
{
    if list.len() > 0 {
        let earlier = sorted_by_name(list.drop_last());
        let entry = list.last();
        lemma_sorted_by_name_is_sorted(list.drop_last());
        lemma_upper_bound(names_of(earlier), entry.name());
        lemma_insert_keeps_sorted(names_of(earlier), entry.name());
        let at = upper_bound(names_of(earlier), entry.name());
        assert(names_of(earlier.insert(at, entry)) =~= names_of(earlier).insert(at, entry.name()));
    }
}

/// Orders definitions by their names; those of one name keep their order.
pub fn sort_by_name(list: Vec<Implementation>) -> (ordered: Vec<Implementation>)
    ensures
        implementations_view(ordered@) == sorted_by_name(implementations_view(list@)),
        sorted(names_of(implementations_view(ordered@))),
{
    proof {
        lemma_sorted_by_name_is_sorted(implementations_view(list@));
    }
    let ghost given = list@;
    let ghost all = implementations_view(list@);
    let mut ordered: Vec<Implementation> = Vec::new();
    let mut keys: Vec<Vec<char>> = Vec::new();
    proof {
        assert(all.take(0) =~= Seq::<ImplementationModel>::empty());
        assert(implementations_view(ordered@) =~= Seq::<ImplementationModel>::empty());
        assert(keys_view(keys@) =~= names_of(implementations_view(ordered@)));
    }
    for entry in it: list
        invariant
            it.seq() == given,
            all == implementations_view(given),
            keys_view(keys@) == names_of(implementations_view(ordered@)),
            implementations_view(ordered@) == sorted_by_name(all.take(it.index() as int)),
    {
        let ghost before = implementations_view(ordered@);
        let ghost before_keys = keys_view(keys@);
        let ghost model = entry@;
        proof {
            assert(all.take(it.index() + 1).drop_last() =~= all.take(it.index() as int));
            assert(all.take(it.index() + 1).last() == model);
        }
        let key = chars_of(entry.name());
        let at = find_upper_bound(&keys, &key);
        proof {
            lemma_upper_bound(keys_view(keys@), key@);
            assert(keys_view(keys@).len() == keys@.len());
            assert(names_of(before).len() == ordered@.len());
        }
        ordered.insert(at, entry);
        keys.insert(at, key);
        proof {
            assert(implementations_view(ordered@) =~= before.insert(at as int, model));
            assert(keys_view(keys@) =~= before_keys.insert(at as int, model.name()));
            assert(names_of(before.insert(at as int, model)) =~= names_of(before).insert(
                at as int,
                model.name(),
            ));
        }
    }
    proof {
        assert(all.take(given.len() as int) =~= all);
    }
    ordered
}

impl ModelSchema {
    /// Builds the model of a schema. A complex type without a sequence and
    /// a simple type without a restriction give no definition, and an
    /// element without a type gives no field: each of them is reported by
    /// one diagnostic beside the model.
    pub fn create_from_xml(xml: Schema) -> (r: (ModelSchema, Vec<Diagnostic>))
        ensures
            r.0@ == model_of(xml@),
            r.0@.well_formed(),
            diagnostics_view(r.1@) == diagnostics_of(xml@),
    {
        let ghost complex_types = xml@.complex_types;
        let ghost simple_types = xml@.simple_types;
        let ghost given_complex = xml.complex_types@;
        let ghost given_simple = xml.simple_types@;
        let elements = xml.elements;
        let mut implementations: Vec<Implementation> = Vec::new();
        let mut diagnostics: Vec<Diagnostic> = Vec::new();
        proof {
            assert(complex_types.take(0) =~= Seq::<ComplexTypeModel>::empty());
            assert(implementations_view(implementations@) =~= Seq::<ImplementationModel>::empty());
            assert(diagnostics_view(diagnostics@) =~= Seq::<DiagnosticModel>::empty());
        }
        for complex in it: xml.complex_types
            invariant
                it.seq() == given_complex,
                complex_types == given_complex.map_values(|t: ComplexType| t@),
                implementations_view(implementations@) == objects_of(
                    complex_types.take(it.index() as int),
                ),
                diagnostics_view(diagnostics@) == complex_reports(
                    complex_types.take(it.index() as int),
                ),
        {
            let ghost made = implementations_view(implementations@);
            let ghost reported = diagnostics_view(diagnostics@);
            proof {
                complex_types.lemma_filter_map_take_succ(
                    |t: ComplexTypeModel| object_made(t),
                    it.index() as int,
                );
                assert(complex_types.take(it.index() + 1).drop_last() =~= complex_types.take(
                    it.index() as int,
                ));
                assert(complex_types.take(it.index() + 1).last() == complex@);
            }
            match complex.into_object_impl() {
                Ok((object, mut dropped)) => {
                    let ghost added = diagnostics_view(dropped@);
                    implementations.push(Implementation::Object(object));
                    diagnostics.append(&mut dropped);
                    proof {
                        assert(implementations_view(implementations@) =~= made
                            + seq![implementations@.last()@]);
                        assert(diagnostics_view(diagnostics@) =~= reported + added);
                    }
                },
                Err(error) => {
                    diagnostics.push(Diagnostic::ObjectFailed(error));
                    proof {
                        assert(diagnostics_view(diagnostics@) =~= reported
                            + seq![diagnostics@.last()@]);
                    }
                },
            }
        }
        let ghost objects = implementations_view(implementations@);
        let ghost complex_all = diagnostics_view(diagnostics@);
        let mut enums: Vec<Implementation> = Vec::new();
        let mut missed: Vec<Diagnostic> = Vec::new();
        proof {
            assert(complex_types.take(given_complex.len() as int) =~= complex_types);
            assert(simple_types.take(0) =~= Seq::<SimpleTypeModel>::empty());
            assert(implementations_view(enums@) =~= Seq::<ImplementationModel>::empty());
            assert(diagnostics_view(missed@) =~= Seq::<DiagnosticModel>::empty());
        }
        for simple in it: xml.simple_types
            invariant
                it.seq() == given_simple,
                simple_types == given_simple.map_values(|t: SimpleType| t@),
                implementations_view(enums@) == enums_of(simple_types.take(it.index() as int)),
                diagnostics_view(missed@) == missed_of(simple_types.take(it.index() as int)),
        {
            let ghost made = implementations_view(enums@);
            let ghost reported = diagnostics_view(missed@);
            proof {
                simple_types.lemma_filter_map_take_succ(
                    |t: SimpleTypeModel| enum_made(t),
                    it.index() as int,
                );
                simple_types.lemma_filter_map_take_succ(
                    |t: SimpleTypeModel| enum_missed(t),
                    it.index() as int,
                );
            }
            match simple.into_enum_impl() {
                Ok(made_enum) => {
                    enums.push(Implementation::Enum(made_enum));
                    assert(implementations_view(enums@) =~= made + seq![enums@.last()@]);
                },
                Err(error) => {
                    missed.push(Diagnostic::EnumFailed(error));
                    assert(diagnostics_view(missed@) =~= reported + seq![missed@.last()@]);
                },
            }
        }
        proof {
            assert(simple_types.take(given_simple.len() as int) =~= simple_types);
        }
        let ghost enums_made = implementations_view(enums@);
        let ghost missed_all = diagnostics_view(missed@);
        implementations.append(&mut enums);
        diagnostics.append(&mut missed);
        proof {
            assert(implementations_view(implementations@) =~= objects + enums_made);
            assert(diagnostics_view(diagnostics@) =~= complex_all + missed_all);
        }
        let implementations = sort_by_name(implementations);
        (ModelSchema { implementations, elements }, diagnostics)
    }
}

} // verus!
