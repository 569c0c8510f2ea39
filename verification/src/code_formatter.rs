use crate::order::{
    find_upper_bound, keys_view, lemma_insert_keeps_strictly_sorted, lemma_upper_bound,
    strictly_sorted, upper_bound,
};
use crate::text::{chars_le, chars_of, lemma_lex_le_antisymmetric, lemma_lex_le_reflexive};
use crate::types::{
    import_name, EnumImpl, EnumModel, Field, FieldModel, ObjectImpl, ObjectModel, TypeModel,
    TypeName,
};
use vstd::prelude::*;

verus! {

/// The error of `core::fmt`, which a formatter's result type names. It
/// holds nothing, and no formatter of this library returns it.
#[verifier::external_type_specification]
#[verifier::external_body]
pub struct ExFmtError(core::fmt::Error);

/// Renders definitions as source text of one target language.
///
/// What is written depends on the definition alone: the spec functions
/// take no formatter, so nothing can be carried over from one call to the
/// next.
pub trait CodeFormatter {
    /// The declaration of `object` in the target language, with the
    /// constructor that takes its required fields.
    spec fn declaration(object: ObjectModel) -> Seq<char>;

    /// The declaration of `enumeration` in the target language: its
    /// variants, each with the text that it stands for.
    spec fn enumeration(enumeration: EnumModel) -> Seq<char>;

    /// The expression that names the type `t` in the target language.
    spec fn type_expr(t: TypeModel) -> Seq<char>;

    /// Appends the declaration of `object` to `w`.
    fn write_impl_file(&mut self, w: &mut String, object: &ObjectImpl) -> (r: Result<
        (),
        core::fmt::Error,
    >)
        ensures
            r is Ok,
            final(w)@ == old(w)@ + Self::declaration(object@),
    ;

    /// Appends the declaration of `enumeration` to `w`.
    fn write_enum_file(&mut self, w: &mut String, enumeration: &EnumImpl) -> (r: Result<
        (),
        core::fmt::Error,
    >)
        ensures
            r is Ok,
            final(w)@ == old(w)@ + Self::enumeration(enumeration@),
    ;

    /// Appends the expression that names the type `p` to `w`.
    fn write_type(&mut self, w: &mut String, p: &TypeName) -> (r: Result<(), core::fmt::Error>)
        ensures
            r is Ok,
            final(w)@ == old(w)@ + Self::type_expr(p@),
    ;
}

/// The list `names` with `name` in it: unchanged where it holds the name
/// already, and else with the name at its place in the order.
pub open spec fn with_name(names: Seq<Seq<char>>, name: Seq<char>) -> Seq<Seq<char>> {
    let at = upper_bound(names, name);
    if at > 0 && names[at - 1] == name {
        names
    } else {
        names.insert(at, name)
    }
}

/// The names that the fields refer to, each once, in ascending order.
pub open spec fn import_names(fields: Seq<FieldModel>) -> Seq<Seq<char>>
    decreases fields.len(),
{
    if fields.len() == 0 {
        Seq::empty()
    } else {
        let earlier = import_names(fields.drop_last());
        match import_name(fields.last().ty) {
            Some(name) => with_name(earlier, name),
            None => earlier,
        }
    }
}

/// What a list of borrowed texts holds.
pub open spec fn strs_view(names: Seq<&str>) -> Seq<Seq<char>> {
    names.map_values(|s: &str| s@)
}

/// What a list of texts holds.
pub open spec fn strings_view(names: Seq<String>) -> Seq<Seq<char>> {
    names.map_values(|s: String| s@)
}

/// What a list of fields holds.
pub open spec fn fields_view(fields: Seq<Field>) -> Seq<FieldModel> {
    fields.map_values(|f: Field| f@)
}

/// Adding a name keeps a list free of repetitions and in order, and the
/// list then holds that name and what it held before, nothing else.
pub proof fn lemma_with_name(names: Seq<Seq<char>>, name: Seq<char>)
    requires
        strictly_sorted(names),
    ensures
        strictly_sorted(with_name(names, name)),
        forall|other: Seq<char>|
            with_name(names, name).contains(other) <==> (other == name || names.contains(other)),
{
    let at = upper_bound(names, name);
    lemma_upper_bound(names, name);
    let after = with_name(names, name);
    if at > 0 && names[at - 1] == name {
        assert forall|other: Seq<char>| after.contains(other) <==> (other == name
            || names.contains(other)) by {
            if other == name {
                assert(names[at - 1] == other);
            }
        }
    } else {
        lemma_insert_keeps_strictly_sorted(names, name);
        assert forall|other: Seq<char>| after.contains(other) <==> (other == name
            || names.contains(other)) by {
            if after.contains(other) {
                let k = choose|k: int| 0 <= k < after.len() && after[k] == other;
                if k < at {
                    assert(names[k] == other);
                } else if k > at {
                    assert(names[k - 1] == other);
                }
            }
            if other == name {
                assert(after[at] == other);
            }
            if names.contains(other) {
                let k = choose|k: int| 0 <= k < names.len() && names[k] == other;
                if k < at {
                    assert(after[k] == other);
                } else {
                    assert(after[k + 1] == other);
                }
            }
        }
    }
}

/// Some field refers to `name`.
pub open spec fn refers_to(fields: Seq<FieldModel>, name: Seq<char>) -> bool {
    exists|i: int| 0 <= i < fields.len() && import_name(#[trigger] fields[i].ty) == Some(name)
}

proof fn lemma_refers_to_last(fields: Seq<FieldModel>, name: Seq<char>)
    requires
        fields.len() > 0,
    ensures
        refers_to(fields, name) <==> (refers_to(fields.drop_last(), name) || import_name(
            fields.last().ty,
        ) == Some(name)),
{
    let front = fields.drop_last();
    if refers_to(fields, name) {
        let i = choose|i: int|
            0 <= i < fields.len() && import_name(#[trigger] fields[i].ty) == Some(name);
        if i < front.len() {
            assert(import_name(front[i].ty) == Some(name));
        }
    }
    if refers_to(front, name) {
        let i = choose|i: int|
            0 <= i < front.len() && import_name(#[trigger] front[i].ty) == Some(name);
        assert(import_name(fields[i].ty) == Some(name));
    }
    if import_name(fields.last().ty) == Some(name) {
        assert(import_name(fields[fields.len() - 1].ty) == Some(name));
    }
}

/// The list of imports holds no name twice and is in ascending order, and
/// it holds exactly the names that some field refers to.
pub proof fn lemma_import_names(fields: Seq<FieldModel>)
    ensures
        strictly_sorted(import_names(fields)),
        forall|name: Seq<char>| import_names(fields).contains(name) <==> refers_to(fields, name),
    decreases fields.len(),
{
    if fields.len() == 0 {
        assert forall|name: Seq<char>| !import_names(fields).contains(name) by {}
    } else {
        let front = fields.drop_last();
        let earlier = import_names(front);
        lemma_import_names(front);
        match import_name(fields.last().ty) {
            Some(added) => {
                lemma_with_name(earlier, added);
            },
            None => {},
        }
        assert forall|name: Seq<char>| import_names(fields).contains(name) <==> refers_to(
            fields,
            name,
        ) by {
            lemma_refers_to_last(fields, name);
        }
    }
}

/// Collects the names that the fields refer to, each once, in ascending
/// order.
pub fn collect_imports<'a>(fields: &'a Vec<Field>) -> (names: Vec<&'a str>)
    ensures
        strs_view(names@) == import_names(fields_view(fields@)),
{
    let ghost all = fields_view(fields@);
    let mut names: Vec<&'a str> = Vec::new();
    let mut keys: Vec<Vec<char>> = Vec::new();
    let mut i: usize = 0;
    proof {
        assert(all.take(0) =~= Seq::<FieldModel>::empty());
        assert(strs_view(names@) =~= Seq::<Seq<char>>::empty());
        assert(keys_view(keys@) =~= Seq::<Seq<char>>::empty());
    }
    while i < fields.len()
        invariant
            i <= fields.len(),
            all == fields_view(fields@),
            keys_view(keys@) == strs_view(names@),
            strs_view(names@) == import_names(all.take(i as int)),
        decreases fields.len() - i,
    {
        let ghost before = strs_view(names@);
        proof {
            assert(all.take(i as int + 1).drop_last() =~= all.take(i as int));
            assert(all.take(i as int + 1).last() == fields@[i as int]@);
        }
        if let Some(name) = fields[i].ty.import_statement() {
            let key = chars_of(name);
            let at = find_upper_bound(&keys, &key);
            proof {
                lemma_upper_bound(before, name@);
            }
            let present = at > 0 && chars_le(&key, &keys[at - 1]);
            proof {
                if at > 0 {
                    assert(before[at - 1] == keys@[at - 1]@);
                    if present {
                        lemma_lex_le_antisymmetric(name@, before[at - 1]);
                    } else {
                        lemma_lex_le_reflexive(name@);
                    }
                }
            }
            if !present {
                names.insert(at, name);
                keys.insert(at, key);
                proof {
                    assert(strs_view(names@) =~= before.insert(at as int, name@));
                    assert(keys_view(keys@) =~= before.insert(at as int, name@));
                }
            }
        }
        i += 1;
    }
    proof {
        assert(all.take(fields.len() as int) =~= all);
    }
    names
}

} // verus!
