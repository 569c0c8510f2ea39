use crate::text::{
    chars_le, lemma_lex_le_antisymmetric, lemma_lex_le_total, lemma_lex_le_transitive, lex_le,
    lex_lt,
};
use vstd::prelude::*;

verus! {

/// No name of the list comes before an earlier one.
pub open spec fn sorted(names: Seq<Seq<char>>) -> bool {
    forall|i: int, j: int|
        #![trigger names[i], names[j]]
        0 <= i < j < names.len() ==> lex_le(names[i], names[j])
}

/// Every name of the list comes strictly after the earlier ones, so that
/// none occurs twice.
pub open spec fn strictly_sorted(names: Seq<Seq<char>>) -> bool {
    forall|i: int, j: int|
        #![trigger names[i], names[j]]
        0 <= i < j < names.len() ==> lex_lt(names[i], names[j])
}

/// The place of the first name of the list that comes strictly after `name`,
/// or the length of the list if there is none.
pub open spec fn upper_bound(names: Seq<Seq<char>>, name: Seq<char>) -> int
    decreases names.len(),
{
    if names.len() == 0 {
        0
    } else if lex_lt(name, names[0]) {
        0
    } else {
        1 + upper_bound(names.drop_first(), name)
    }
}

/// What the names of a list of character vectors are.
pub open spec fn keys_view(keys: Seq<Vec<char>>) -> Seq<Seq<char>> {
    keys.map_values(|k: Vec<char>| k@)
}

/// The upper bound lies within the list; the names before it are at or
/// before `name`, and the name at it, if there is one, comes after `name`.
pub proof fn lemma_upper_bound(names: Seq<Seq<char>>, name: Seq<char>)
    ensures
        0 <= upper_bound(names, name) <= names.len(),
        forall|i: int| 0 <= i < upper_bound(names, name) ==> lex_le(#[trigger] names[i], name),
        upper_bound(names, name) < names.len() ==> lex_lt(
            name,
            names[upper_bound(names, name)],
        ),
    decreases names.len(),
{
    if names.len() > 0 && !lex_lt(name, names[0]) {
        let rest = names.drop_first();
        lemma_upper_bound(rest, name);
        let at = upper_bound(rest, name);
        assert forall|i: int| 0 <= i < at + 1 implies lex_le(#[trigger] names[i], name) by {
            if i > 0 {
                assert(names[i] == rest[i - 1]);
            }
        }
        if at < rest.len() {
            assert(names[at + 1] == rest[at]);
        }
    }
}

/// A place with the two properties of the upper bound is the upper bound.
pub proof fn lemma_upper_bound_unique(names: Seq<Seq<char>>, name: Seq<char>, at: int)
    requires
        0 <= at <= names.len(),
        forall|i: int| 0 <= i < at ==> lex_le(#[trigger] names[i], name),
        at < names.len() ==> lex_lt(name, names[at]),
    ensures
        at == upper_bound(names, name),
    decreases names.len(),
{
    if names.len() > 0 {
        if at == 0 {
        } else {
            assert(lex_le(names[0], name));
            let rest = names.drop_first();
            assert forall|i: int| 0 <= i < at - 1 implies lex_le(#[trigger] rest[i], name) by {
                assert(rest[i] == names[i + 1]);
            }
            if at - 1 < rest.len() {
                assert(rest[at - 1] == names[at]);
            }
            lemma_upper_bound_unique(rest, name, at - 1);
        }
    }
}

/// In a sorted list every name from the upper bound on comes after `name`.
pub proof fn lemma_upper_bound_rest(names: Seq<Seq<char>>, name: Seq<char>)
    requires
        sorted(names),
    ensures
        forall|i: int|
            upper_bound(names, name) <= i < names.len() ==> lex_lt(name, #[trigger] names[i]),
{
    lemma_upper_bound(names, name);
    let at = upper_bound(names, name);
    assert forall|i: int| at <= i < names.len() implies lex_lt(name, #[trigger] names[i]) by {
        if i > at && lex_le(names[i], name) {
            lemma_lex_le_transitive(names[at], names[i], name);
        }
    }
}

/// A sorted list stays sorted when a name enters at its upper bound.
pub proof fn lemma_insert_keeps_sorted(names: Seq<Seq<char>>, name: Seq<char>)
    requires
        sorted(names),
    ensures
        sorted(names.insert(upper_bound(names, name), name)),
{
    lemma_upper_bound(names, name);
    lemma_upper_bound_rest(names, name);
    let at = upper_bound(names, name);
    let after = names.insert(at, name);
    assert forall|i: int, j: int| 0 <= i < j < after.len() implies lex_le(after[i], after[j]) by {
        if j == at {
            assert(after[i] == names[i]);
        } else if i == at {
            assert(after[j] == names[j - 1]);
            lemma_lex_le_total(name, names[j - 1]);
        } else {
            let oi = if i < at { i } else { i - 1 };
            let oj = if j < at { j } else { j - 1 };
            assert(after[i] == names[oi]);
            assert(after[j] == names[oj]);
        }
    }
}

/// A list without repetitions stays so when a name that it lacks enters at
/// its upper bound.
pub proof fn lemma_insert_keeps_strictly_sorted(names: Seq<Seq<char>>, name: Seq<char>)
    requires
        strictly_sorted(names),
        upper_bound(names, name) == 0 || names[upper_bound(names, name) - 1] != name,
    ensures
        strictly_sorted(names.insert(upper_bound(names, name), name)),
{
    lemma_strictly_sorted_is_sorted(names);
    lemma_upper_bound(names, name);
    lemma_upper_bound_rest(names, name);
    let at = upper_bound(names, name);
    let after = names.insert(at, name);
    assert forall|i: int, j: int| 0 <= i < j < after.len() implies lex_lt(after[i], after[j]) by {
        if j == at {
            assert(after[i] == names[i]);
            if lex_le(name, names[i]) {
                lemma_lex_le_antisymmetric(name, names[i]);
                if i < at - 1 {
                    assert(lex_lt(names[i], names[at - 1]));
                }
            }
        } else if i == at {
            assert(after[j] == names[j - 1]);
        } else {
            let oi = if i < at { i } else { i - 1 };
            let oj = if j < at { j } else { j - 1 };
            assert(after[i] == names[oi]);
            assert(after[j] == names[oj]);
        }
    }
}

/// A list without repetitions in strict order is sorted.
pub proof fn lemma_strictly_sorted_is_sorted(names: Seq<Seq<char>>)
    requires
        strictly_sorted(names),
    ensures
        sorted(names),
{
    assert forall|i: int, j: int| 0 <= i < j < names.len() implies lex_le(names[i], names[j]) by {
        lemma_lex_le_total(names[i], names[j]);
    }
}

/// Finds the place of the first key that comes strictly after `key`.
pub fn find_upper_bound(keys: &Vec<Vec<char>>, key: &Vec<char>) -> (at: usize)
    ensures
        at == upper_bound(keys_view(keys@), key@),
{
    let ghost names = keys_view(keys@);
    let mut i: usize = 0;
    while i < keys.len() && chars_le(&keys[i], key)
        invariant
            i <= keys.len(),
            names == keys_view(keys@),
            forall|j: int| 0 <= j < i ==> lex_le(#[trigger] names[j], key@),
        decreases keys.len() - i,
    {
        i += 1;
    }
    proof {
        lemma_upper_bound_unique(names, key@, i as int);
    }
    i
}

} // verus!
