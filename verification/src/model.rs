//! Deep copies and deep equality: how executable values relate to the
//! mathematical values the contracts of this crate speak of.
use vstd::prelude::*;

verus! {

/// A type whose values can be copied and compared up to their deep view.
///
/// Strings and vectors are compared by contents, so two values are equal
/// exactly when the mathematical values they stand for are equal.
pub trait Deep: DeepView + Sized {
    /// A copy that stands for the same mathematical value.
    fn deep_clone(&self) -> (r: Self)
        ensures
            r.deep_view() == self.deep_view(),
    ;

    /// Whether both values stand for the same mathematical value.
    fn deep_eq(&self, other: &Self) -> (r: bool)
        ensures
            r == (self.deep_view() == other.deep_view()),
    ;
}

/// The mathematical value of an enumeration that keeps values it does not
/// recognise: the position of the variant, and the text of an unrecognised
/// value (empty for the others).
#[verifier::ext_equal]
pub struct Tag {
    pub index: int,
    pub text: Seq<char>,
}

/// The value of a recognised variant.
pub open spec fn known_tag(index: int) -> Tag {
    Tag { index, text: Seq::empty() }
}

impl Deep for bool {
    fn deep_clone(&self) -> (r: Self) {
        *self
    }

    fn deep_eq(&self, other: &Self) -> (r: bool) {
        *self == *other
    }
}

impl Deep for u32 {
    fn deep_clone(&self) -> (r: Self) {
        *self
    }

    fn deep_eq(&self, other: &Self) -> (r: bool) {
        *self == *other
    }
}

impl Deep for u64 {
    fn deep_clone(&self) -> (r: Self) {
        *self
    }

    fn deep_eq(&self, other: &Self) -> (r: bool) {
        *self == *other
    }
}

impl Deep for i64 {
    fn deep_clone(&self) -> (r: Self) {
        *self
    }

    fn deep_eq(&self, other: &Self) -> (r: bool) {
        *self == *other
    }
}

impl Deep for String {
    fn deep_clone(&self) -> (r: Self) {
        self.clone()
    }

    fn deep_eq(&self, other: &Self) -> (r: bool) {
        *self == *other
    }
}

impl<T: Deep> Deep for Option<T> {
    fn deep_clone(&self) -> (r: Self) {
        match self {
            Some(v) => Some(v.deep_clone()),
            None => None,
        }
    }

    fn deep_eq(&self, other: &Self) -> (r: bool) {
        match (self, other) {
            (Some(a), Some(b)) => a.deep_eq(b),
            (None, None) => true,
            _ => false,
        }
    }
}

impl<A: Deep, B: Deep> Deep for (A, B) {
    fn deep_clone(&self) -> (r: Self) {
        (self.0.deep_clone(), self.1.deep_clone())
    }

    fn deep_eq(&self, other: &Self) -> (r: bool) {
        self.0.deep_eq(&other.0) && self.1.deep_eq(&other.1)
    }
}

impl<T: Deep> Deep for Vec<T> {
    fn deep_clone(&self) -> (r: Self) {
        let mut out: Vec<T> = Vec::new();
        let mut i: usize = 0;
        while i < self.len()
            invariant
                i <= self.len(),
                out.len() == i,
                forall|j: int|
                    0 <= j < i ==> (#[trigger] out@[j]).deep_view() == self@[j].deep_view(),
            decreases self.len() - i,
        {
            out.push(self[i].deep_clone());
            i = i + 1;
        }
        assert(out.deep_view() =~= self.deep_view());
        out
    }

    fn deep_eq(&self, other: &Self) -> (r: bool) {
        if self.len() != other.len() {
            assert(self.deep_view().len() != other.deep_view().len());
            return false;
        }
        let mut i: usize = 0;
        while i < self.len()
            invariant
                i <= self.len(),
                self.len() == other.len(),
                forall|j: int|
                    0 <= j < i ==> (#[trigger] self@[j]).deep_view() == other@[j].deep_view(),
            decreases self.len() - i,
        {
            if !self[i].deep_eq(&other[i]) {
                assert(self.deep_view()[i as int] != other.deep_view()[i as int]);
                return false;
            }
            i = i + 1;
        }
        assert(self.deep_view() =~= other.deep_view());
        true
    }
}

/// Pushing onto a vector pushes onto its deep view.
pub proof fn lemma_deep_push<T: DeepView>(before: Vec<T>, after: Vec<T>, x: T)
    requires
        after@ == before@.push(x),
    ensures
        after.deep_view() == before.deep_view().push(x.deep_view()),
{
    assert(after.deep_view() =~= before.deep_view().push(x.deep_view()));
}

/// Deep views of a slice's elements, in order.
pub open spec fn deep_seq<T: DeepView>(s: Seq<T>) -> Seq<T::V> {
    Seq::new(s.len(), |i: int| s[i].deep_view())
}

/// Whether `v` holds a value equal to `x`.
pub fn vec_contains<T: Deep>(v: &Vec<T>, x: &T) -> (r: bool)
    ensures
        r == v.deep_view().contains(x.deep_view()),
{
    let mut i: usize = 0;
    while i < v.len()
        invariant
            i <= v.len(),
            forall|j: int| 0 <= j < i ==> (#[trigger] v@[j]).deep_view() != x.deep_view(),
        decreases v.len() - i,
    {
        if v[i].deep_eq(x) {
            assert(v.deep_view()[i as int] == x.deep_view());
            return true;
        }
        i = i + 1;
    }
    assert forall|j: int| 0 <= j < v.deep_view().len() implies v.deep_view()[j]
        != x.deep_view() by {
        assert(v@[j].deep_view() != x.deep_view());
    }
    false
}

} // verus!
