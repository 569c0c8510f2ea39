use crate::builder::{
    collected, complex_report, complex_reports, diagnostics_of, enum_made, enums_of,
    lemma_sorted_by_name_is_sorted, missed_of, model_of, names_of, object_made, objects_of,
    sorted_by_name, ModelSchema,
};
use crate::code_formatter::CodeFormatter;
use crate::diagnostic::{diagnostics_view, Diagnostic, DiagnosticModel, ModelErrorModel};
use crate::order::{lemma_upper_bound, lemma_upper_bound_rest, upper_bound};
use crate::rust_fmt::RustFmt;
use crate::text::{lemma_lex_le_reflexive, lex_le};
use crate::types::ImplementationModel;
use crate::xml::complex_type::{field_of, fields_of, object_of, typeless_in, ComplexTypeModel};
use crate::xml::element::ElementModel;
use crate::xml::schema::{Schema, SchemaModel};
use crate::xml::simple_type::{enum_of, SimpleTypeModel};
use vstd::prelude::*;
use vstd::seq_lib::to_multiset_insert;

verus! {

/// Ordering definitions by name neither loses nor adds nor repeats one.
pub proof fn lemma_sorted_by_name_permutes(list: Seq<ImplementationModel>)
    ensures
        sorted_by_name(list).to_multiset() == list.to_multiset(),
        sorted_by_name(list).len() == list.len(),
    decreases list.len(),
{
    broadcast use vstd::seq_lib::group_to_multiset_ensures;

    if list.len() > 0 {
        let earlier = sorted_by_name(list.drop_last());
        let entry = list.last();
        lemma_sorted_by_name_permutes(list.drop_last());
        lemma_upper_bound(names_of(earlier), entry.name());
        let at = upper_bound(names_of(earlier), entry.name());
        to_multiset_insert(earlier, at, entry);
        assert(list =~= list.drop_last().push(entry));
        assert(sorted_by_name(list).to_multiset() =~= list.to_multiset());
    } else {
        assert(sorted_by_name(list) =~= list);
    }
}

/// In the model of a schema no definition has a name that comes before
/// the name of the definition in front of it.
pub proof fn lemma_model_is_sorted(schema: SchemaModel)
    ensures
        forall|i: int|
            0 <= i && i + 1 < model_of(schema).implementations.len() ==> lex_le(
                (#[trigger] model_of(schema).implementations[i]).name(),
                model_of(schema).implementations[i + 1].name(),
            ),
{
    let list = model_of(schema).implementations;
    lemma_sorted_by_name_is_sorted(collected(schema));
    let names = names_of(list);
    assert forall|i: int| 0 <= i && i + 1 < list.len() implies lex_le(
        (#[trigger] list[i]).name(),
        list[i + 1].name(),
    ) by {
        assert(names[i] == list[i].name());
        assert(names[i + 1] == list[i + 1].name());
    }
}

/// Building the model twice from schemas that hold the same gives the
/// same definitions in the same order and the same diagnostics, and each
/// object is then rendered as the same text.
pub proof fn lemma_model_is_determined(
    first: Schema,
    second: Schema,
    one: (ModelSchema, Vec<Diagnostic>),
    other: (ModelSchema, Vec<Diagnostic>),
)
    requires
        first@ == second@,
        one.0@ == model_of(first@),
        diagnostics_view(one.1@) == diagnostics_of(first@),
        other.0@ == model_of(second@),
        diagnostics_view(other.1@) == diagnostics_of(second@),
    ensures
        one.0@ == other.0@,
        diagnostics_view(one.1@) == diagnostics_view(other.1@),
        forall|i: int|
            0 <= i < one.0@.implementations.len() ==> (
            #[trigger] one.0@.implementations[i] matches ImplementationModel::Object(a) ==> (
            other.0@.implementations[i] matches ImplementationModel::Object(b)
                && RustFmt::declaration(a) == RustFmt::declaration(b))),
{
}

/// Every field comes from an element that has a type, and is required
/// exactly when that element must occur at least once.
pub proof fn lemma_required_iff_must_occur(elements: Seq<ElementModel>)
    ensures
        forall|j: int|
            0 <= j < fields_of(elements).len() ==> exists|i: int|
                0 <= i < elements.len() && field_of(#[trigger] elements[i]) == Some(
                    #[trigger] fields_of(elements)[j],
                ) && fields_of(elements)[j].required == (elements[i].min_occurs != 0),
{
    let fields = fields_of(elements);
    assert forall|j: int| 0 <= j < fields.len() implies exists|i: int|
        0 <= i < elements.len() && field_of(#[trigger] elements[i]) == Some(#[trigger] fields[j])
            && fields[j].required == (elements[i].min_occurs != 0) by {
        assert(fields.contains(fields[j]));
        elements.lemma_filter_map_contains(|e: ElementModel| field_of(e), fields[j]);
        let t = choose|t: ElementModel| #[trigger]
            elements.contains(t) && field_of(t) == Some(fields[j]);
        let i = choose|i: int| 0 <= i < elements.len() && elements[i] == t;
        assert(field_of(elements[i]) == Some(fields[j]));
    }
}

/// Every element of a sequence becomes a field or leaves a diagnostic,
/// and never both.
pub proof fn lemma_elements_accounted_for(owner: Seq<char>, elements: Seq<ElementModel>)
    ensures
        fields_of(elements).len() + typeless_in(owner, elements).len() == elements.len(),
    decreases elements.len(),
{
    if elements.len() > 0 {
        lemma_elements_accounted_for(owner, elements.drop_last());
    }
}

/// Every object of the model comes from a complex type that has a
/// sequence, and every enumeration from a simple type that has a
/// restriction: a type without them gives no definition.
pub proof fn lemma_definitions_have_sources(schema: SchemaModel)
    ensures
        forall|m: ImplementationModel| #[trigger]
            model_of(schema).implementations.contains(m) ==> {
                ||| exists|i: int|
                    0 <= i < schema.complex_types.len() && (
                    #[trigger] schema.complex_types[i]).sequences.len() > 0 && m
                        == ImplementationModel::Object(object_of(schema.complex_types[i]))
                ||| exists|i: int|
                    0 <= i < schema.simple_types.len() && (
                    #[trigger] schema.simple_types[i]).restrictions.len() > 0 && m
                        == ImplementationModel::Enum(enum_of(schema.simple_types[i]))
            },
{
    broadcast use vstd::seq_lib::group_to_multiset_ensures;

    let list = model_of(schema).implementations;
    let objects = objects_of(schema.complex_types);
    let enums = enums_of(schema.simple_types);
    lemma_sorted_by_name_permutes(collected(schema));
    assert forall|m: ImplementationModel| #[trigger] list.contains(m) implies {
        ||| exists|i: int|
            0 <= i < schema.complex_types.len() && (
            #[trigger] schema.complex_types[i]).sequences.len() > 0 && m
                == ImplementationModel::Object(object_of(schema.complex_types[i]))
        ||| exists|i: int|
            0 <= i < schema.simple_types.len() && (
            #[trigger] schema.simple_types[i]).restrictions.len() > 0 && m
                == ImplementationModel::Enum(enum_of(schema.simple_types[i]))
    } by {
        assert(list.to_multiset().count(m) > 0);
        assert(collected(schema).contains(m));
        let k = choose|k: int| 0 <= k < collected(schema).len() && collected(schema)[k] == m;
        if k < objects.len() {
            assert(objects[k] == m);
            assert(objects.contains(m));
            schema.complex_types.lemma_filter_map_contains(|t| object_made(t), m);
            let t = choose|t| #[trigger]
                schema.complex_types.contains(t) && object_made(t) == Some(m);
            let i = choose|i: int| 0 <= i < schema.complex_types.len() && schema.complex_types[i] == t;
            assert(schema.complex_types[i].sequences.len() > 0);
        } else {
            assert(enums[k - objects.len()] == m);
            assert(enums.contains(m));
            schema.simple_types.lemma_filter_map_contains(|t| enum_made(t), m);
            let t = choose|t| #[trigger]
                schema.simple_types.contains(t) && enum_made(t) == Some(m);
            let i = choose|i: int| 0 <= i < schema.simple_types.len() && schema.simple_types[i] == t;
            assert(schema.simple_types[i].restrictions.len() > 0);
        }
    }
}

/// The test that picks the definitions of one name.
pub open spec fn named(name: Seq<char>) -> spec_fn(ImplementationModel) -> bool {
    |m: ImplementationModel| m.name() == name
}

proof fn lemma_none_named(list: Seq<ImplementationModel>, name: Seq<char>)
    requires
        forall|i: int| 0 <= i < list.len() ==> (#[trigger] list[i]).name() != name,
    ensures
        list.filter(named(name)) == Seq::<ImplementationModel>::empty(),
    decreases list.len(),
{
    reveal(Seq::filter);
    if list.len() > 0 {
        lemma_none_named(list.drop_last(), name);
        assert(!named(name)(list.last()));
    }
}

/// Ordering by name leaves the definitions of one name in the order in
/// which they were given.
pub proof fn lemma_sorted_by_name_is_stable(list: Seq<ImplementationModel>, name: Seq<char>)
    ensures
        sorted_by_name(list).filter(named(name)) == list.filter(named(name)),
    decreases list.len(),
{
    let pick = named(name);
    if list.len() == 0 {
        assert(sorted_by_name(list) =~= list);
    } else {
        let front = list.drop_last();
        let entry = list.last();
        let earlier = sorted_by_name(front);
        let names = names_of(earlier);
        let at = upper_bound(names, entry.name());
        lemma_sorted_by_name_is_stable(front, name);
        lemma_sorted_by_name_is_sorted(front);
        lemma_upper_bound(names, entry.name());
        lemma_upper_bound_rest(names, entry.name());
        let before = earlier.take(at);
        let behind = earlier.skip(at);
        let single = seq![entry];
        assert(earlier =~= before + behind);
        assert(earlier.insert(at, entry) =~= (before + single) + behind);
        Seq::filter_distributes_over_add(before, behind, pick);
        Seq::filter_distributes_over_add(before, single, pick);
        Seq::filter_distributes_over_add(before + single, behind, pick);
        assert(list.filter(pick) == if pick(entry) {
            front.filter(pick).push(entry)
        } else {
            front.filter(pick)
        }) by {
            reveal(Seq::filter);
        }
        assert(single.filter(pick) =~= if pick(entry) {
            single
        } else {
            Seq::empty()
        }) by {
            reveal_with_fuel(Seq::filter, 2);
            assert(single.drop_last() =~= Seq::<ImplementationModel>::empty());
            assert(single.last() == entry);
        }
        if pick(entry) {
            assert forall|i: int| 0 <= i < behind.len() implies (#[trigger] behind[i]).name()
                != name by {
                assert(names[at + i] == behind[i].name());
                lemma_lex_le_reflexive(name);
            }
            lemma_none_named(behind, name);
            assert(sorted_by_name(list).filter(pick) =~= list.filter(pick));
        } else {
            assert(sorted_by_name(list).filter(pick) =~= list.filter(pick));
        }
    }
}

proof fn lemma_complex_reports_hold(complex_types: Seq<ComplexTypeModel>, i: int)
    requires
        0 <= i < complex_types.len(),
        complex_types[i].sequences.len() == 0,
    ensures
        complex_reports(complex_types).contains(
            DiagnosticModel::ObjectFailed(ModelErrorModel::NoSequences(complex_types[i].name)),
        ),
    decreases complex_types.len(),
{
    let wanted = DiagnosticModel::ObjectFailed(ModelErrorModel::NoSequences(complex_types[i].name));
    let front = complex_reports(complex_types.drop_last());
    let back = complex_report(complex_types.last());
    if i == complex_types.len() - 1 {
        assert(back[0] == wanted);
        assert((front + back)[front.len() as int] == wanted);
    } else {
        lemma_complex_reports_hold(complex_types.drop_last(), i);
        let k = choose|k: int| 0 <= k < front.len() && front[k] == wanted;
        assert((front + back)[k] == wanted);
    }
}

proof fn lemma_missed_holds(simple_types: Seq<SimpleTypeModel>, i: int)
    requires
        0 <= i < simple_types.len(),
        simple_types[i].restrictions.len() == 0,
    ensures
        missed_of(simple_types).contains(
            DiagnosticModel::EnumFailed(ModelErrorModel::NoRestrictions(simple_types[i].name)),
        ),
    decreases simple_types.len(),
{
    let wanted = DiagnosticModel::EnumFailed(ModelErrorModel::NoRestrictions(simple_types[i].name));
    let front = missed_of(simple_types.drop_last());
    if i == simple_types.len() - 1 {
        assert(missed_of(simple_types) == front + seq![wanted]);
        assert((front + seq![wanted])[front.len() as int] == wanted);
    } else {
        lemma_missed_holds(simple_types.drop_last(), i);
        let k = choose|k: int| 0 <= k < front.len() && front[k] == wanted;
        assert(missed_of(simple_types)[k] == wanted);
    }
}

/// Every complex type without a sequence and every simple type without a
/// restriction is reported by a diagnostic that names it.
pub proof fn lemma_missing_content_is_reported(schema: SchemaModel)
    ensures
        forall|i: int|
            0 <= i < schema.complex_types.len() && (
            #[trigger] schema.complex_types[i]).sequences.len() == 0 ==> diagnostics_of(
                schema,
            ).contains(
                DiagnosticModel::ObjectFailed(
                    ModelErrorModel::NoSequences(schema.complex_types[i].name),
                ),
            ),
        forall|i: int|
            0 <= i < schema.simple_types.len() && (
            #[trigger] schema.simple_types[i]).restrictions.len() == 0 ==> diagnostics_of(
                schema,
            ).contains(
                DiagnosticModel::EnumFailed(
                    ModelErrorModel::NoRestrictions(schema.simple_types[i].name),
                ),
            ),
{
    let first = complex_reports(schema.complex_types);
    let second = missed_of(schema.simple_types);
    assert forall|i: int|
        0 <= i < schema.complex_types.len() && (
        #[trigger] schema.complex_types[i]).sequences.len() == 0 implies diagnostics_of(
        schema,
    ).contains(
        DiagnosticModel::ObjectFailed(ModelErrorModel::NoSequences(schema.complex_types[i].name)),
    ) by {
        let wanted = DiagnosticModel::ObjectFailed(
            ModelErrorModel::NoSequences(schema.complex_types[i].name),
        );
        lemma_complex_reports_hold(schema.complex_types, i);
        let k = choose|k: int| 0 <= k < first.len() && first[k] == wanted;
        assert((first + second)[k] == wanted);
    }
    assert forall|i: int|
        0 <= i < schema.simple_types.len() && (
        #[trigger] schema.simple_types[i]).restrictions.len() == 0 implies diagnostics_of(
        schema,
    ).contains(
        DiagnosticModel::EnumFailed(ModelErrorModel::NoRestrictions(schema.simple_types[i].name)),
    ) by {
        let wanted = DiagnosticModel::EnumFailed(
            ModelErrorModel::NoRestrictions(schema.simple_types[i].name),
        );
        lemma_missed_holds(schema.simple_types, i);
        let k = choose|k: int| 0 <= k < second.len() && second[k] == wanted;
        assert((first + second)[first.len() + k] == wanted);
    }
}

} // verus!
