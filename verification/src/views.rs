use vstd::prelude::*;

verus! {

/// Pushing an element onto a vector pushes its view onto the deep view.
pub proof fn lemma_deep_push<T: DeepView>(a: Vec<T>, b: Vec<T>, x: T)
    requires
        b@ == a@.push(x),
    ensures
        b.deep_view() == a.deep_view().push(x.deep_view()),
{
    assert forall|i: int| 0 <= i < b.deep_view().len() implies b.deep_view()[i]
        == a.deep_view().push(x.deep_view())[i] by {
        if i < a@.len() {
            assert(b@[i] == a@[i]);
        } else {
            assert(b@[i] == x);
        }
    }
    assert(b.deep_view() =~= a.deep_view().push(x.deep_view()));
}

/// Replacing an element of a vector updates the deep view in place.
pub proof fn lemma_deep_update<T: DeepView>(a: Vec<T>, b: Vec<T>, i: int, x: T)
    requires
        0 <= i < a@.len(),
        b@ == a@.update(i, x),
    ensures
        b.deep_view() == a.deep_view().update(i, x.deep_view()),
{
    assert forall|j: int| 0 <= j < b.deep_view().len() implies b.deep_view()[j]
        == a.deep_view().update(i, x.deep_view())[j] by {
        if j == i {
            assert(b@[j] == x);
        } else {
            assert(b@[j] == a@[j]);
        }
    }
    assert(b.deep_view() =~= a.deep_view().update(i, x.deep_view()));
}

/// Removing an element of a vector removes its view from the deep view.
pub proof fn lemma_deep_remove<T: DeepView>(a: Vec<T>, b: Vec<T>, i: int)
    requires
        0 <= i < a@.len(),
        b@ == a@.remove(i),
    ensures
        b.deep_view() == a.deep_view().remove(i),
{
    a@.remove_ensures(i);
    a.deep_view().remove_ensures(i);
    assert forall|j: int| 0 <= j < b.deep_view().len() implies b.deep_view()[j]
        == a.deep_view().remove(i)[j] by {
        if j < i {
            assert(b@[j] == a@[j]);
        } else {
            assert(b@[j] == a@[j + 1]);
        }
    }
    assert(b.deep_view() =~= a.deep_view().remove(i));
}

} // verus!
