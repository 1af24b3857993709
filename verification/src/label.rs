use vstd::prelude::*;

verus! {

/// Values that label wires and boxes of diagrams.
///
/// A label is described by its deep view; `duplicate` yields a copy with the
/// same deep view and `equals` decides whether two labels have equal deep
/// views.
pub trait Label: DeepView + Sized {
    fn duplicate(&self) -> (r: Self)
        ensures
            r.deep_view() == self.deep_view(),
    ;

    fn equals(&self, other: &Self) -> (b: bool)
        ensures
            b == (self.deep_view() == other.deep_view()),
    ;
}

impl Label for char {
    fn duplicate(&self) -> (r: Self) {
        *self
    }

    fn equals(&self, other: &Self) -> (b: bool) {
        *self == *other
    }
}

impl Label for () {
    fn duplicate(&self) -> (r: Self) {
        ()
    }

    fn equals(&self, other: &Self) -> (b: bool) {
        true
    }
}

impl Label for i32 {
    fn duplicate(&self) -> (r: Self) {
        *self
    }

    fn equals(&self, other: &Self) -> (b: bool) {
        *self == *other
    }
}

impl Label for u32 {
    fn duplicate(&self) -> (r: Self) {
        *self
    }

    fn equals(&self, other: &Self) -> (b: bool) {
        *self == *other
    }
}

impl<'a> Label for &'a str {
    fn duplicate(&self) -> (r: Self) {
        *self
    }

    fn equals(&self, other: &Self) -> (b: bool) {
        crate::typing::str_equal(*self, *other)
    }
}

/// Sorts that can be made up, numbered, for wires whose sort is not known.
pub trait FreshSort: DeepView + Sized {
    /// The view of the made-up sort numbered `index`.
    spec fn spec_fresh_sort(index: usize) -> Self::V;

    fn fresh_sort(index: usize) -> (r: Self)
        ensures
            r.deep_view() == Self::spec_fresh_sort(index),
    ;
}

/// Copies a vector of labels element by element.
pub fn duplicate_all<S: Label>(items: &Vec<S>) -> (r: Vec<S>)
    ensures
        r.deep_view() == items.deep_view(),
{
    let mut out: Vec<S> = Vec::new();
    let mut i: usize = 0;
    while i < items.len()
        invariant
            i <= items.len(),
            out.len() == i,
            forall|k: int| 0 <= k < i ==> #[trigger] out@[k].deep_view() == items@[k].deep_view(),
        decreases items.len() - i,
    {
        out.push(items[i].duplicate());
        i = i + 1;
    }
    assert(out.deep_view() =~= items.deep_view());
    out
}

/// Decides whether two vectors of labels have equal deep views.
pub fn all_equal<S: Label>(left: &Vec<S>, right: &Vec<S>) -> (b: bool)
    ensures
        b == (left.deep_view() == right.deep_view()),
{
    if left.len() != right.len() {
        proof {
            assert(left.deep_view().len() != right.deep_view().len());
        }
        return false;
    }
    let mut i: usize = 0;
    while i < left.len()
        invariant
            left.len() == right.len(),
            i <= left.len(),
            forall|k: int| 0 <= k < i ==> #[trigger] left@[k].deep_view() == right@[k].deep_view(),
        decreases left.len() - i,
    {
        if !left[i].equals(&right[i]) {
            proof {
                assert(left.deep_view()[i as int] != right.deep_view()[i as int]);
            }
            return false;
        }
        i = i + 1;
    }
    assert(left.deep_view() =~= right.deep_view());
    true
}

} // verus!
