//! Texts that tell values apart: no two values of a type have the same one.
use vstd::prelude::*;

use crate::ident::Uuid;
use crate::model::{deep_seq, known_tag, Tag};
use crate::order::{
    law_sorted_members_are_canonical, lemma_sorted_set_members, listing, squeezed, stably_sorted,
    Ordered, SortedSet,
};
use crate::text::{digit_text, hex_digit};

verus! {

/// A type whose values have texts that tell them apart, and that show where
/// they end when something follows.
pub trait Coded: DeepView + Sized {
    spec fn code(v: Self::V) -> Seq<char>;

    /// Whether a mathematical value is that of some value.
    spec fn codable(v: Self::V) -> bool;

    proof fn lemma_codable(value: Self)
        ensures
            Self::codable(value.deep_view()),
    ;

    proof fn lemma_code_ends(a: Self::V, b: Self::V, x: Seq<char>, y: Seq<char>)
        requires
            Self::codable(a),
            Self::codable(b),
            Self::code(a) + x == Self::code(b) + y,
        ensures
            a == b,
            x == y,
    ;

    fn to_code(&self) -> (r: String)
        ensures
            r@ == Self::code(self.deep_view()),
    ;
}

/// The text of a number: its decimal digits, the last one first, and a dot.
pub open spec fn number_code(n: nat) -> Seq<char>
    decreases n,
{
    if n == 0 {
        seq!['.']
    } else {
        seq![hex_digit(n as int % 10)] + number_code(n / 10)
    }
}

pub proof fn lemma_number_code_ends(a: nat, b: nat, x: Seq<char>, y: Seq<char>)
    requires
        number_code(a) + x == number_code(b) + y,
    ensures
        a == b,
        x == y,
    decreases a,
{
    let left = number_code(a) + x;
    let right = number_code(b) + y;
    assert(left[0] == number_code(a)[0]);
    assert(right[0] == number_code(b)[0]);
    if a == 0 || b == 0 {
        assert(a == 0 && b == 0);
        assert(left.skip(1) =~= x);
        assert(right.skip(1) =~= y);
    } else {
        assert(left.skip(1) =~= number_code(a / 10) + x);
        assert(right.skip(1) =~= number_code(b / 10) + y);
        lemma_number_code_ends(a / 10, b / 10, x, y);
        assert(a % 10 == b % 10);
    }
}

pub(crate) fn number_to_code(n: u128) -> (r: String)
    ensures
        r@ == number_code(n as nat),
    decreases n,
{
    if n == 0 {
        proof {
            reveal_strlit(".");
        }
        let dot = ".";
        assert(dot@ =~= seq!['.']);
        dot.to_owned()
    } else {
        digit_text((n % 10) as u8).concat(number_to_code(n / 10).as_str())
    }
}

/// The text of a piece of text: its length, then itself.
pub open spec fn text_code(s: Seq<char>) -> Seq<char> {
    number_code(s.len()) + s
}

pub proof fn lemma_text_code_ends(a: Seq<char>, b: Seq<char>, x: Seq<char>, y: Seq<char>)
    requires
        text_code(a) + x == text_code(b) + y,
    ensures
        a == b,
        x == y,
{
    assert(text_code(a) + x =~= number_code(a.len()) + (a + x));
    assert(text_code(b) + y =~= number_code(b.len()) + (b + y));
    lemma_number_code_ends(a.len(), b.len(), a + x, b + y);
    let all = a + x;
    assert(a =~= all.take(a.len() as int));
    assert(b =~= all.take(a.len() as int));
    assert(x =~= all.skip(a.len() as int));
    assert(y =~= all.skip(a.len() as int));
}

pub(crate) fn text_to_code(s: &str) -> (r: String)
    ensures
        r@ == text_code(s@),
{
    number_to_code(s.unicode_len() as u128).concat(s)
}

/// The text of an enumeration that keeps what it does not recognise.
pub open spec fn tag_code(tag: Tag) -> Seq<char> {
    number_code(tag.index as nat) + text_code(tag.text)
}

pub proof fn lemma_tag_code_ends(a: Tag, b: Tag, x: Seq<char>, y: Seq<char>)
    requires
        0 <= a.index,
        0 <= b.index,
        tag_code(a) + x == tag_code(b) + y,
    ensures
        a == b,
        x == y,
{
    assert(tag_code(a) + x =~= number_code(a.index as nat) + (text_code(a.text) + x));
    assert(tag_code(b) + y =~= number_code(b.index as nat) + (text_code(b.text) + y));
    lemma_number_code_ends(
        a.index as nat,
        b.index as nat,
        text_code(a.text) + x,
        text_code(b.text) + y,
    );
    lemma_text_code_ends(a.text, b.text, x, y);
}

pub(crate) fn tag_to_code(index: u8, text: &str) -> (r: String)
    ensures
        r@ == tag_code(Tag { index: index as int, text: text@ }),
{
    number_to_code(index as u128).concat(text_to_code(text).as_str())
}

pub(crate) fn known_tag_to_code(index: u8) -> (r: String)
    ensures
        r@ == tag_code(known_tag(index as int)),
{
    proof {
        reveal_strlit("");
    }
    let none = "";
    assert(none@ =~= Seq::<char>::empty());
    tag_to_code(index, none)
}

/// A text that is followed by another can be told apart from it.
pub proof fn lemma_pair_code_ends<T: Coded>(
    a: T::V,
    b: T::V,
    after_a: Seq<char>,
    after_b: Seq<char>,
    x: Seq<char>,
    y: Seq<char>,
)
    requires
        T::codable(a),
        T::codable(b),
        T::code(a) + after_a + x == T::code(b) + after_b + y,
    ensures
        a == b,
        after_a + x == after_b + y,
{
    assert(T::code(a) + after_a + x =~= T::code(a) + (after_a + x));
    assert(T::code(b) + after_b + y =~= T::code(b) + (after_b + y));
    T::lemma_code_ends(a, b, after_a + x, after_b + y);
}

/// The texts of a sequence's values, one after another.
pub open spec fn items_code<T: Coded>(s: Seq<T::V>) -> Seq<char>
    decreases s.len(),
{
    if s.len() == 0 {
        Seq::empty()
    } else {
        T::code(s[0]) + items_code::<T>(s.drop_first())
    }
}

proof fn lemma_items_code_ends<T: Coded>(
    a: Seq<T::V>,
    b: Seq<T::V>,
    x: Seq<char>,
    y: Seq<char>,
)
    requires
        a.len() == b.len(),
        forall|i: int| 0 <= i < a.len() ==> T::codable(#[trigger] a[i]),
        forall|i: int| 0 <= i < b.len() ==> T::codable(#[trigger] b[i]),
        items_code::<T>(a) + x == items_code::<T>(b) + y,
    ensures
        a == b,
        x == y,
    decreases a.len(),
{
    if a.len() == 0 {
        assert(items_code::<T>(a) + x =~= x);
        assert(items_code::<T>(b) + y =~= y);
        assert(a =~= b);
    } else {
        let ra = a.drop_first();
        let rb = b.drop_first();
        assert(items_code::<T>(a) + x =~= T::code(a[0]) + (items_code::<T>(ra) + x));
        assert(items_code::<T>(b) + y =~= T::code(b[0]) + (items_code::<T>(rb) + y));
        T::lemma_code_ends(a[0], b[0], items_code::<T>(ra) + x, items_code::<T>(rb) + y);
        assert forall|i: int| 0 <= i < ra.len() implies T::codable(#[trigger] ra[i]) by {
            assert(ra[i] == a[i + 1]);
        }
        assert forall|i: int| 0 <= i < rb.len() implies T::codable(#[trigger] rb[i]) by {
            assert(rb[i] == b[i + 1]);
        }
        lemma_items_code_ends::<T>(ra, rb, x, y);
        assert(a =~= seq![a[0]] + ra);
        assert(b =~= seq![b[0]] + rb);
    }
}

/// The text of a sequence: its length, then the texts of its values.
pub open spec fn sequence_code<T: Coded>(s: Seq<T::V>) -> Seq<char> {
    number_code(s.len()) + items_code::<T>(s)
}

proof fn lemma_sequence_code_ends<T: Coded>(
    a: Seq<T::V>,
    b: Seq<T::V>,
    x: Seq<char>,
    y: Seq<char>,
)
    requires
        forall|i: int| 0 <= i < a.len() ==> T::codable(#[trigger] a[i]),
        forall|i: int| 0 <= i < b.len() ==> T::codable(#[trigger] b[i]),
        sequence_code::<T>(a) + x == sequence_code::<T>(b) + y,
    ensures
        a == b,
        x == y,
{
    assert(sequence_code::<T>(a) + x =~= number_code(a.len()) + (items_code::<T>(a) + x));
    assert(sequence_code::<T>(b) + y =~= number_code(b.len()) + (items_code::<T>(b) + y));
    lemma_number_code_ends(a.len(), b.len(), items_code::<T>(a) + x, items_code::<T>(b) + y);
    lemma_items_code_ends::<T>(a, b, x, y);
}

impl Coded for bool {
    open spec fn code(v: bool) -> Seq<char> {
        number_code(if v { 1 } else { 0 })
    }

    open spec fn codable(v: bool) -> bool {
        true
    }

    proof fn lemma_codable(value: bool) {
    }

    proof fn lemma_code_ends(a: bool, b: bool, x: Seq<char>, y: Seq<char>) {
        lemma_number_code_ends(if a { 1 } else { 0 }, if b { 1 } else { 0 }, x, y);
    }

    fn to_code(&self) -> (r: String) {
        if *self {
            number_to_code(1)
        } else {
            number_to_code(0)
        }
    }
}

impl Coded for u32 {
    open spec fn code(v: u32) -> Seq<char> {
        number_code(v as nat)
    }

    open spec fn codable(v: u32) -> bool {
        true
    }

    proof fn lemma_codable(value: u32) {
    }

    proof fn lemma_code_ends(a: u32, b: u32, x: Seq<char>, y: Seq<char>) {
        lemma_number_code_ends(a as nat, b as nat, x, y);
    }

    fn to_code(&self) -> (r: String) {
        number_to_code(*self as u128)
    }
}

impl Coded for String {
    open spec fn code(v: Seq<char>) -> Seq<char> {
        text_code(v)
    }

    open spec fn codable(v: Seq<char>) -> bool {
        true
    }

    proof fn lemma_codable(value: String) {
    }

    proof fn lemma_code_ends(a: Seq<char>, b: Seq<char>, x: Seq<char>, y: Seq<char>) {
        lemma_text_code_ends(a, b, x, y);
    }

    fn to_code(&self) -> (r: String) {
        text_to_code(self.as_str())
    }
}

impl<T: Coded> Coded for Option<T> {
    open spec fn code(v: Option<T::V>) -> Seq<char> {
        match v {
            Some(inner) => number_code(1) + T::code(inner),
            None => number_code(0),
        }
    }

    open spec fn codable(v: Option<T::V>) -> bool {
        v matches Some(inner) ==> T::codable(inner)
    }

    proof fn lemma_codable(value: Option<T>) {
        if let Some(inner) = value {
            T::lemma_codable(inner);
        }
    }

    proof fn lemma_code_ends(
        a: Option<T::V>,
        b: Option<T::V>,
        x: Seq<char>,
        y: Seq<char>,
    ) {
        let rest = |v: Option<T::V>, z: Seq<char>|
            match v {
                Some(inner) => T::code(inner) + z,
                None => z,
            };
        let mark = |v: Option<T::V>| -> nat
            {
                if v is Some {
                    1
                } else {
                    0
                }
            };
        assert(Self::code(a) + x =~= number_code(mark(a)) + rest(a, x));
        assert(Self::code(b) + y =~= number_code(mark(b)) + rest(b, y));
        lemma_number_code_ends(mark(a), mark(b), rest(a, x), rest(b, y));
        if a is Some {
            T::lemma_code_ends(a.unwrap(), b.unwrap(), x, y);
        }
    }

    fn to_code(&self) -> (r: String) {
        match self {
            Some(inner) => number_to_code(1).concat(inner.to_code().as_str()),
            None => number_to_code(0),
        }
    }
}

impl<T: Coded> Coded for Vec<T> {
    open spec fn code(v: Seq<T::V>) -> Seq<char> {
        sequence_code::<T>(v)
    }

    open spec fn codable(v: Seq<T::V>) -> bool {
        forall|i: int| 0 <= i < v.len() ==> T::codable(#[trigger] v[i])
    }

    proof fn lemma_codable(value: Vec<T>) {
        assert forall|i: int| 0 <= i < value.deep_view().len() implies T::codable(
            #[trigger] value.deep_view()[i],
        ) by {
            T::lemma_codable(value@[i]);
        }
    }

    proof fn lemma_code_ends(a: Seq<T::V>, b: Seq<T::V>, x: Seq<char>, y: Seq<char>) {
        lemma_sequence_code_ends::<T>(a, b, x, y);
    }

    fn to_code(&self) -> (r: String) {
        let ghost all = self.deep_view();
        let mut out = String::new();
        let mut i: usize = self.len();
        assert(all.skip(all.len() as int) =~= Seq::<T::V>::empty());
        while i > 0
            invariant
                i <= self.len(),
                all == self.deep_view(),
                out@ == items_code::<T>(all.skip(i as int)),
            decreases i,
        {
            i = i - 1;
            assert(all.skip(i as int)[0] == self@[i as int].deep_view());
            assert(all.skip(i as int).drop_first() =~= all.skip(i + 1));
            out = self[i].to_code().concat(out.as_str());
        }
        assert(all.skip(0) =~= all);
        let count = number_to_code(self.len() as u128);
        assert(count@ == number_code(all.len()));
        assert(Self::code(all) == number_code(all.len()) + items_code::<T>(all));
        count.concat(out.as_str())
    }
}

/// A set is written as the sequence that lists it.
impl<T: Ordered + Coded> Coded for SortedSet<T> {
    open spec fn code(v: Set<T::V>) -> Seq<char> {
        sequence_code::<T>(listing::<T>(v))
    }

    open spec fn codable(v: Set<T::V>) -> bool {
        &&& listing::<T>(v).to_set() == v
        &&& forall|i: int| 0 <= i < listing::<T>(v).len() ==> T::codable(#[trigger] listing::<T>(v)[i])
    }

    proof fn lemma_codable(value: SortedSet<T>) {
        let items = lemma_sorted_set_members::<T>(value);
        let q = squeezed(stably_sorted::<T>(deep_seq(items)));
        law_sorted_members_are_canonical::<T>(deep_seq(items));
        assert forall|i: int| 0 <= i < q.len() implies T::codable(#[trigger] q[i]) by {
            assert(q.to_set().contains(q[i]));
            assert(deep_seq(items).to_set().contains(q[i]));
            let k = choose|k: int| 0 <= k < items.len() && deep_seq(items)[k] == q[i];
            T::lemma_codable(items[k]);
        }
    }

    proof fn lemma_code_ends(a: Set<T::V>, b: Set<T::V>, x: Seq<char>, y: Seq<char>) {
        lemma_sequence_code_ends::<T>(listing::<T>(a), listing::<T>(b), x, y);
    }

    fn to_code(&self) -> (r: String) {
        self.as_vec().to_code()
    }
}

impl Coded for Uuid {
    open spec fn code(v: Uuid) -> Seq<char> {
        number_code(v.0 as nat)
    }

    open spec fn codable(v: Uuid) -> bool {
        true
    }

    proof fn lemma_codable(value: Uuid) {
    }

    proof fn lemma_code_ends(a: Uuid, b: Uuid, x: Seq<char>, y: Seq<char>) {
        lemma_number_code_ends(a.0 as nat, b.0 as nat, x, y);
    }

    fn to_code(&self) -> (r: String) {
        number_to_code(self.0)
    }
}

} // verus!
