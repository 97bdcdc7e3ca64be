//! Facts about sequences and deep views that the loops of the library rely
//! on.

use vstd::prelude::*;

verus! {

/// Pushing an element pushes its view.
pub proof fn lemma_deep_view_push<T: DeepView>(before: Seq<T>, after: Seq<T>, item: T)
    requires
        after == before.push(item),
    ensures
        Seq::new(after.len(), |i: int| after[i].deep_view()) == Seq::new(
            before.len(),
            |i: int| before[i].deep_view(),
        ).push(item.deep_view()),
{
    let a = Seq::new(after.len(), |i: int| after[i].deep_view());
    let b = Seq::new(before.len(), |i: int| before[i].deep_view()).push(item.deep_view());
    assert forall|i: int| 0 <= i < a.len() implies a[i] == b[i] by {
        if i < before.len() {
            assert(after[i] == before[i]);
        }
    }
    assert(a =~= b);
}

/// Concatenating vectors concatenates their views.
pub proof fn lemma_deep_view_concat<T: DeepView>(left: Seq<T>, right: Seq<T>)
    ensures
        Seq::new((left + right).len(), |i: int| (left + right)[i].deep_view()) == Seq::new(
            left.len(),
            |i: int| left[i].deep_view(),
        ) + Seq::new(right.len(), |i: int| right[i].deep_view()),
{
    let a = Seq::new((left + right).len(), |i: int| (left + right)[i].deep_view());
    let b = Seq::new(left.len(), |i: int| left[i].deep_view()) + Seq::new(
        right.len(),
        |i: int| right[i].deep_view(),
    );
    assert forall|i: int| 0 <= i < a.len() implies a[i] == b[i] by {
        if i < left.len() {
            assert((left + right)[i] == left[i]);
        } else {
            assert((left + right)[i] == right[i - left.len()]);
        }
    }
    assert(a =~= b);
}

/// Position of the first occurrence of `name` in `names`, or `names.len()`
/// when it does not occur.
pub open spec fn first_index<A>(names: Seq<A>, name: A) -> int
    decreases names.len(),
{
    if names.len() == 0 {
        0
    } else if names[0] == name {
        0
    } else {
        1 + first_index(names.drop_first(), name)
    }
}

/// `first_index` is the only position that holds `name` with no earlier
/// occurrence.
pub proof fn lemma_first_index_unique<A>(names: Seq<A>, name: A, i: int)
    requires
        0 <= i <= names.len(),
        forall|j: int| 0 <= j < i ==> names[j] != name,
        i < names.len() ==> names[i] == name,
    ensures
        first_index(names, name) == i,
    decreases names.len(),
{
    if names.len() > 0 && names[0] != name {
        let rest = names.drop_first();
        assert forall|j: int| 0 <= j < i - 1 implies rest[j] != name by {
            assert(rest[j] == names[j + 1]);
        }
        lemma_first_index_unique(rest, name, i - 1);
    }
}

/// `first_index` lies within bounds, nothing before it carries the name, and
/// the entry at it does whenever it is a position of the sequence.
pub proof fn lemma_first_index_bounds<A>(names: Seq<A>, name: A)
    ensures
        0 <= first_index(names, name) <= names.len(),
        forall|j: int| 0 <= j < first_index(names, name) ==> names[j] != name,
        first_index(names, name) < names.len() ==> names[first_index(names, name)] == name,
    decreases names.len(),
{
    if names.len() > 0 && names[0] != name {
        let rest = names.drop_first();
        lemma_first_index_bounds(rest, name);
        assert forall|j: int| 0 <= j < first_index(names, name) implies names[j] != name by {
            if j > 0 {
                assert(rest[j - 1] == names[j]);
            }
        }
    }
}

/// If `other` differs from the name just inserted, its slot keeps its place
/// when a name is appended to the keys.
pub proof fn lemma_first_index_push<A>(names: Seq<A>, added: A, other: A)
    requires
        other != added,
    ensures
        first_index(names, other) < names.len() ==> first_index(names.push(added), other)
            == first_index(names, other),
        first_index(names, other) == names.len() ==> first_index(names.push(added), other)
            == names.len() + 1,
{
    lemma_first_index_bounds(names, other);
    let i = first_index(names, other);
    let grown = names.push(added);
    if i < names.len() {
        lemma_first_index_unique(grown, other, i);
    } else {
        lemma_first_index_unique(grown, other, names.len() as int + 1);
    }
}


} // verus!
